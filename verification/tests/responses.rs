use phone_buddy::error::EngineError;
use phone_buddy::frames::{
    event_parts, frame_kind, parse_responses_chunk, tool_delta_from_output_item, Decoded, FrameKind,
};
use phone_buddy::json::{parse_json, parse_leading_json, write_json, Json};
use phone_buddy::payload::{build_responses_payload, patch_reasoning_text_types};
use phone_buddy::responses::{completed_event_text, parse_responses_response, ResponsesAdapter};
use phone_buddy::types::{
    AssistantItem, BackendToolCallItem, ChatCompletionChunk, ConversationItem,
    ConversationRequest, FunctionDefinition, HostedTool, OutputItemWire, ReasoningItem,
    SystemItem, ToolCall, ToolCallDelta, ToolCallFunction, ToolDefinition, ToolResultItem,
    UserContent, UserItem,
};

fn req(items: Vec<ConversationItem>) -> ConversationRequest {
    ConversationRequest {
        model: "grok-4.6".into(),
        items,
        stream: Some(true),
        tools: None,
        tool_choice: None,
        temperature: None,
        max_tokens: None,
        reasoning_effort: None,
        hosted_tools: vec![],
        previous_response_id: None,
        response_format: None,
    }
}

fn assistant(content: &str, tool_calls: Vec<ToolCall>) -> ConversationItem {
    ConversationItem::Assistant(AssistantItem {
        content: content.into(),
        tool_calls,
        reasoning_content: None,
        encrypted_reasoning: None,
        origin: None,
    })
}

fn call(id: &str, kind: &str, name: &str, arguments: &str) -> ToolCall {
    ToolCall {
        id: id.into(),
        kind: kind.into(),
        function: ToolCallFunction {
            name: name.into(),
            arguments: arguments.into(),
            wire_arguments: arguments.into(),
        },
        thought_signature: None,
    }
}

fn json(text: &str) -> Json {
    parse_json(text).unwrap()
}

fn at<'a>(v: &'a Json, key: &str) -> &'a Json {
    v.get(key).unwrap()
}

fn nth(v: &Json, i: usize) -> &Json {
    &v.as_array().unwrap()[i]
}

fn text(v: &Json) -> &str {
    v.as_text().unwrap()
}

fn reasoning_of(v: &Json) -> Option<ReasoningItem> {
    if v.get("type").and_then(|t| t.as_text()) != Some("reasoning") {
        return None;
    }
    Some(ReasoningItem {
        id: v.get("id").and_then(|t| t.as_text()).unwrap_or("").to_string(),
        summary: v.get("summary").and_then(|s| s.as_array()).cloned().unwrap_or_default(),
        content: v.get("content").and_then(|s| s.as_array()).cloned(),
        encrypted_content: v.get("encrypted_content").and_then(|t| t.as_text()).map(String::from),
        status: v.get("status").and_then(|t| t.as_text()).map(String::from),
    })
}

fn output_item_of(v: &Json) -> Option<OutputItemWire> {
    match v.get("type").and_then(|t| t.as_text())? {
        "message" => {
            let mut all = String::new();
            for part in v.get("content").and_then(|c| c.as_array())? {
                all.push_str(part.get("text").and_then(|t| t.as_text()).unwrap_or(""));
            }
            Some(OutputItemWire::Message { text: all, raw: v.clone() })
        }
        "local_shell_call" => Some(OutputItemWire::LocalShellCall {
            call_id: v.get("call_id").and_then(|t| t.as_text()).map(String::from),
            raw: v.clone(),
        }),
        "ignored" => None,
        _ => Some(OutputItemWire::Other { raw: v.clone() }),
    }
}

fn decode(data: &str) -> Decoded {
    let mut decoded = Decoded { chunk: None, item: None, terminal: vec![], output: vec![] };
    if let Some(parts) = event_parts(data) {
        decoded.item = parts.item.as_ref().and_then(reasoning_of);
        decoded.terminal = parts.terminal.iter().map(output_item_of).collect();
        decoded.output = parts.output.iter().map(reasoning_of).collect();
    }
    decoded
}

fn parse(event: &str, data: &str) -> Result<Option<ChatCompletionChunk>, EngineError> {
    parse_responses_chunk(event, data, &decode(data))
}

fn first_call(chunk: &ChatCompletionChunk) -> &ToolCallDelta {
    &chunk.choices[0].delta.tool_calls[0]
}

// ── Requests ────────────────────────────────────────────────────────────

#[test]
fn single_message_history() {
    let r = req(vec![
        assistant("ok", vec![]),
        ConversationItem::User(UserItem::text("next")),
    ]);
    let p = build_responses_payload(&r).unwrap();
    let inp = at(&p, "input").as_array().unwrap();
    assert_eq!(inp.len(), 2);
    assert_eq!(text(at(&inp[0], "role")), "assistant");
    assert_eq!(text(at(&inp[0], "content")), "ok");
    assert_eq!(text(at(&inp[1], "role")), "user");
    assert_eq!(text(at(&inp[1], "content")), "next");
}

#[test]
fn previous_response_id_included() {
    let mut r = req(vec![ConversationItem::User(UserItem::text("hi"))]);
    r.previous_response_id = Some("resp_xyz".into());
    let p = build_responses_payload(&r).unwrap();
    assert_eq!(text(at(&p, "previous_response_id")), "resp_xyz");
}

#[test]
fn empty_previous_response_id_is_left_out() {
    let mut r = req(vec![]);
    r.previous_response_id = Some(String::new());
    assert!(build_responses_payload(&r).unwrap().get("previous_response_id").is_none());
}

#[test]
fn patch_reasoning_text_types_adds_type_to_content() {
    let mut p = json(
        r#"{"input": [{"type": "reasoning", "id": "rs_1", "content": [{"text": "thought"}]}]}"#,
    );
    patch_reasoning_text_types(&mut p);
    let part = nth(at(nth(at(&p, "input"), 0), "content"), 0);
    assert_eq!(text(at(part, "type")), "reasoning_text");
    assert_eq!(text(at(part, "text")), "thought");
}

#[test]
fn patching_twice_is_patching_once() {
    let mut once = json(
        r#"{"input": [{"type": "reasoning", "content": [{"text": "a"}, {"type": "kept"}, 3]},
                      {"type": "other", "content": [{"text": "b"}]}]}"#,
    );
    patch_reasoning_text_types(&mut once);
    let mut twice = once.clone();
    patch_reasoning_text_types(&mut twice);
    assert_eq!(once, twice);
    let items = at(&once, "input");
    assert_eq!(text(at(nth(at(nth(items, 0), "content"), 1), "type")), "kept");
    assert!(nth(at(nth(items, 1), "content"), 0).get("type").is_none());
}

#[test]
fn responses_payload_multimodal_audio_and_image() {
    let content = json(
        r#"[{"type": "input_image", "detail": "high", "image_url": "data:image/jpeg;base64,AQID"},
            {"type": "input_audio", "audio_url": "data:audio/wav;base64,BAUGBw=="},
            {"type": "input_text", "text": "listen and look"}]"#,
    );
    let r = req(vec![ConversationItem::User(UserItem {
        content: UserContent::Ready(content),
    })]);
    let p = build_responses_payload(&r).unwrap();
    let content = at(nth(at(&p, "input"), 0), "content").as_array().unwrap();
    assert_eq!(content.len(), 3);
    assert_eq!(text(at(&content[0], "type")), "input_image");
    assert_eq!(text(at(&content[0], "detail")), "high");
    assert_eq!(text(at(&content[1], "type")), "input_audio");
    assert!(text(at(&content[1], "audio_url")).starts_with("data:audio/wav;base64,"));
    assert_eq!(text(at(&content[2], "type")), "input_text");
    assert_eq!(text(at(&content[2], "text")), "listen and look");
}

#[test]
fn unsendable_content_is_the_error() {
    let bad = |m: &str| {
        ConversationItem::User(UserItem {
            content: UserContent::Unsendable(EngineError::Other(m.into())),
        })
    };
    let r = req(vec![assistant("x", vec![]), bad("first"), bad("second")]);
    assert_eq!(build_responses_payload(&r), Err(EngineError::Other("first".into())));
}

#[test]
fn responses_payload_x_search_and_web_search_hosted_tools() {
    let mut r = req(vec![ConversationItem::User(UserItem::text("search x"))]);
    r.hosted_tools = vec![
        HostedTool {
            wire_name: "web_search".into(),
            entry: json(r#"{"type": "web_search", "filters": {"allowed_domains": ["example.com"]}}"#),
        },
        HostedTool {
            wire_name: "x_search".into(),
            entry: json(
                r#"{"type": "x_search", "from_date": "2026-01-01", "to_date": "2026-08-01"}"#,
            ),
        },
    ];
    let p = build_responses_payload(&r).unwrap();
    let tools = at(&p, "tools").as_array().unwrap();
    assert_eq!(tools.len(), 2);
    assert_eq!(text(at(&tools[0], "type")), "web_search");
    assert_eq!(text(nth(at(at(&tools[0], "filters"), "allowed_domains"), 0)), "example.com");
    assert_eq!(text(at(&tools[1], "type")), "x_search");
    assert_eq!(text(at(&tools[1], "from_date")), "2026-01-01");
    assert_eq!(text(at(&tools[1], "to_date")), "2026-08-01");
    assert_eq!(text(at(&p, "tool_choice")), "auto");
}

#[test]
fn hosted_tools_replace_functions_of_the_same_name() {
    let function = |name: &str| ToolDefinition {
        function: FunctionDefinition {
            name: name.into(),
            description: "d".into(),
            parameters: json(r#"{"type": "object"}"#),
        },
    };
    let mut r = req(vec![]);
    r.hosted_tools =
        vec![HostedTool { wire_name: "web_search".into(), entry: json(r#"{"type": "web_search"}"#) }];
    r.tools = Some(vec![function("web_search"), function("write_file")]);
    r.tool_choice = Some(Json::text("required"));
    let p = build_responses_payload(&r).unwrap();
    let tools = at(&p, "tools").as_array().unwrap();
    assert_eq!(tools.len(), 2);
    assert_eq!(text(at(&tools[0], "type")), "web_search");
    assert_eq!(text(at(&tools[1], "name")), "write_file");
    assert_eq!(text(at(&tools[1], "type")), "function");
    assert_eq!(text(at(&p, "tool_choice")), "required");
}

#[test]
fn responses_payload_local_shell_and_custom_tool_serialization() {
    let r = req(vec![
        assistant(
            "",
            vec![
                call("shell_1", "local_shell", "local_shell", r#"{"command":["ls","-la"]}"#),
                call(
                    "custom_1",
                    "custom_tool",
                    "my_device_sensor",
                    r#"{"mode":"accelerometer"}"#,
                ),
            ],
        ),
        ConversationItem::ToolResult(ToolResultItem {
            tool_call_id: "shell_1".into(),
            content: "file1.txt".into(),
        }),
        ConversationItem::ToolResult(ToolResultItem {
            tool_call_id: "custom_1".into(),
            content: r#"{"x":0.1,"y":9.8}"#.into(),
        }),
    ]);

    let p = build_responses_payload(&r).unwrap();
    let input = at(&p, "input").as_array().unwrap();
    assert_eq!(input.len(), 4);
    assert_eq!(text(at(&input[0], "type")), "local_shell_call");
    assert_eq!(text(at(&input[0], "call_id")), "shell_1");
    assert_eq!(text(nth(at(at(&input[0], "action"), "command"), 0)), "ls");
    assert_eq!(text(at(&input[1], "type")), "custom_tool_call");
    assert_eq!(text(at(&input[1], "call_id")), "custom_1");
    assert_eq!(text(at(&input[1], "name")), "my_device_sensor");

    assert_eq!(text(at(&input[2], "type")), "function_call_output");
    assert_eq!(text(at(&input[2], "call_id")), "shell_1");
    assert_eq!(text(at(&input[2], "output")), "file1.txt");

    assert_eq!(text(at(&input[3], "type")), "custom_tool_call_output");
    assert_eq!(text(at(&input[3], "call_id")), "custom_1");
    assert_eq!(write_json(at(at(&input[3], "output"), "y")), "9.8");
}

#[test]
fn plain_shell_arguments_are_the_command() {
    let r = req(vec![assistant("", vec![call("s", "local_shell", "local_shell", "ls -la")])]);
    let p = build_responses_payload(&r).unwrap();
    assert_eq!(
        write_json(at(nth(at(&p, "input"), 0), "action")),
        r#"{"command":["ls -la"],"type":"exec"}"#
    );
}

#[test]
fn whole_payload_as_text() {
    let mut r = req(vec![
        ConversationItem::System(SystemItem { content: "be brief".into() }),
        ConversationItem::System(SystemItem { content: "be kind".into() }),
        ConversationItem::Reasoning(ReasoningItem {
            id: "rs_1".into(),
            summary: vec![],
            content: Some(vec![json(r#"{"text":"t"}"#)]),
            encrypted_content: Some("enc".into()),
            status: Some("completed".into()),
        }),
        ConversationItem::BackendToolCall(BackendToolCallItem {
            payload: json(r#"{"type":"web_search_call","id":"ws"}"#),
        }),
        assistant("hi", vec![call("c", "function", "f", "{}")]),
    ]);
    r.stream = Some(false);
    r.temperature = Some(json("0.5"));
    r.max_tokens = Some(64);
    r.reasoning_effort = Some("high".into());
    r.response_format = Some(json(r#"{"type":"json_object"}"#));
    let p = build_responses_payload(&r).unwrap();
    assert_eq!(
        write_json(&p),
        concat_lines(&[
            r#"{"include":["reasoning.encrypted_content"],"#,
            r#""input":[{"content":[{"text":"t","type":"reasoning_text"}],"#,
            r#""encrypted_content":"enc","id":"rs_1","summary":[],"type":"reasoning"},"#,
            r#"{"id":"ws","type":"web_search_call"},"#,
            r#"{"content":"hi","role":"assistant"},"#,
            r#"{"arguments":"{}","call_id":"c","name":"f","type":"function_call"}],"#,
            r#""instructions":"be brief\n\nbe kind","max_output_tokens":64,"#,
            r#""model":"grok-4.6","parallel_tool_calls":true,"#,
            r#""reasoning":{"effort":"high","summary":"concise"},"#,
            r#""store":false,"stream":false,"temperature":0.5,"#,
            r#""text":{"format":{"type":"json_object"},"verbosity":"medium"}}"#,
        ])
    );
}

fn concat_lines(lines: &[&str]) -> String {
    lines.concat()
}

#[test]
fn payloads_need_no_more_patching() {
    let r = req(vec![
        ConversationItem::Reasoning(ReasoningItem {
            id: String::new(),
            summary: vec![Json::text("s")],
            content: Some(vec![json(r#"{"text":"t"}"#), Json::Null]),
            encrypted_content: None,
            status: None,
        }),
        ConversationItem::BackendToolCall(BackendToolCallItem {
            payload: json(r#"{"type":"reasoning","content":[{}]}"#),
        }),
    ]);
    let sent = build_responses_payload(&r).unwrap();
    let mut patched = sent.clone();
    patch_reasoning_text_types(&mut patched);
    assert_eq!(sent, patched);
}

#[test]
fn streaming_is_the_default() {
    let mut r = req(vec![]);
    r.stream = None;
    let p = build_responses_payload(&r).unwrap();
    assert_eq!(at(&p, "stream"), &Json::Bool(true));
    assert_eq!(
        text(at(at(&p, "stream_options"), "reasoning_summary_delivery")),
        "sequential_cutoff"
    );
    assert!(p.get("tools").is_none() && p.get("tool_choice").is_none());
}

#[test]
fn adapter_puts_the_parts_together() {
    let adapter = ResponsesAdapter;
    assert_eq!(adapter.endpoint("https://x/v1", "m", true), "https://x/v1/responses");
    let r = req(vec![assistant("a", vec![])]);
    assert_eq!(adapter.build_payload(&r), build_responses_payload(&r));
    let data = r#"{"type":"response.output_text.delta","delta":"hi"}"#;
    assert_eq!(
        adapter.parse_event("", data, &decode(data)),
        parse("", data)
    );
    let whole = r#"{"id":"resp_1","output":[]}"#;
    let event = completed_event_text(whole).unwrap();
    let decoded = decode(&event);
    assert_eq!(
        adapter.parse_response(whole, &decoded),
        parse_responses_response(whole, &decoded)
    );
}

// ── Frames ──────────────────────────────────────────────────────────────

#[test]
fn parse_web_search_call_searching_is_server_tool_progress() {
    let chunk = parse(
        "response.web_search_call.searching",
        r#"{"type":"response.web_search_call.searching","item_id":"ws_abc","output_index":2}"#,
    )
    .unwrap()
    .expect("searching must not be dropped");
    let tc = first_call(&chunk);
    assert_eq!(tc.kind.as_deref(), Some("server"));
    assert_eq!(tc.id.as_deref(), Some("ws_abc"));
    assert_eq!(tc.index, 2);
    assert_eq!(tc.function.as_ref().unwrap().name.as_deref(), Some("web_search"));
    assert!(tc.function.as_ref().unwrap().arguments.is_none());
}

#[test]
fn parse_web_search_call_in_progress_without_item_is_server_tool() {
    let chunk = parse(
        "response.web_search_call.in_progress",
        r#"{"type":"response.web_search_call.in_progress","item_id":"ws_1","output_index":0}"#,
    )
    .unwrap()
    .expect("in_progress must not be dropped");
    assert_eq!(first_call(&chunk).id.as_deref(), Some("ws_1"));
}

#[test]
fn parse_failed_response_surfaces_the_server_error() {
    let error = parse(
        "response.failed",
        r#"{"type":"response.failed","response":{"id":"resp_failed","status":"failed",
            "error":{"code":"orchestration_throttled",
                     "message":"orchestration requests from this token are throttled"}}}"#,
    )
    .expect_err("response.failed must not be treated as an empty response");
    assert!(matches!(
        error,
        EngineError::Llm(message)
            if message.contains("orchestration_throttled")
                && message.contains("requests from this token are throttled")
    ));
}

#[test]
fn failure_without_details_has_defaults() {
    for event in ["RESPONSE.FAILED", "É.RESPONSE.FAILED"] {
        assert_eq!(
            parse(event, "{}"),
            Err(EngineError::Llm(
                "Responses API failed: response_failed: the server failed to generate a response"
                    .into()
            ))
        );
    }
}

#[test]
fn whole_responses_fail_only_where_they_are_no_json() {
    let deep = format!("{}{}", "[".repeat(127), "]".repeat(127));
    for data in
        ["null", "[]", "{}", " 7 ", r#"{"type":"response.failed","error":{}}"#, "\"x\"", &deep]
    {
        assert!(parse_responses_response(data, &decode("")).is_ok(), "{data}");
        let event = completed_event_text(data).unwrap();
        assert_eq!(event.trim(), event);
        assert!(event.ends_with(r#","type":"response.completed"}"#), "{event}");
    }
    assert!(parse_responses_response("{", &decode("")).is_err());
}

#[test]
fn parse_responses_chunk_custom_tool_and_local_shell_stream() {
    let chunk1 = parse(
        "response.output_item.added",
        r#"{"type":"response.output_item.added","output_index":0,
            "item":{"type":"local_shell_call","id":"item_sh_1","call_id":"call_sh_1",
                    "status":"in_progress",
                    "action":{"type":"exec","command":["cat","hello.txt"]}}}"#,
    )
    .unwrap()
    .unwrap();
    let tc1 = first_call(&chunk1);
    assert_eq!(tc1.kind.as_deref(), Some("local_shell"));
    assert_eq!(tc1.id.as_deref(), Some("call_sh_1"));
    assert_eq!(
        tc1.function.as_ref().unwrap().arguments.as_deref(),
        Some(r#"{"command":["cat","hello.txt"],"type":"exec"}"#)
    );

    let chunk2 = parse(
        "response.custom_tool_call_input.delta",
        r#"{"type":"response.custom_tool_call_input.delta","output_index":1,
            "call_id":"call_custom_1","name":"camera_capture",
            "delta":"{\"quality\": \"high\"}"}"#,
    )
    .unwrap()
    .unwrap();
    let tc2 = first_call(&chunk2);
    assert_eq!(tc2.kind.as_deref(), Some("custom_tool"));
    assert_eq!(tc2.function.as_ref().unwrap().name.as_deref(), Some("camera_capture"));

    let chunk3 = parse(
        "response.completed",
        r#"{"type":"response.completed","response":{"id":"resp_123","model":"grok-4.6",
            "output":[
              {"type":"message","id":"msg_1","content":[{"type":"output_text","text":"All done."}]},
              {"type":"local_shell_call","id":"item_sh_1","call_id":"call_sh_1",
               "status":"completed","action":{"type":"exec","command":["cat","hello.txt"]}}]}}"#,
    )
    .unwrap()
    .unwrap();
    assert_eq!(chunk3.id, "resp_123");
    assert_eq!(chunk3.model, "grok-4.6");
    assert_eq!(chunk3.object, "response.chunk");
    let final_out = chunk3.choices[0].delta.final_output.as_ref().unwrap();
    assert_eq!(final_out.len(), 2);
    assert!(matches!(final_out[0], OutputItemWire::Message { ref text, .. } if text == "All done."));
    assert!(matches!(final_out[1], OutputItemWire::LocalShellCall { ref call_id, .. }
        if call_id.as_deref() == Some("call_sh_1")));
}

#[test]
fn undecodable_output_items_are_left_out() {
    let chunk = parse(
        "response.done",
        r#"{"output":[{"type":"ignored"},{"type":"mystery"}],"id":"resp_9"}"#,
    )
    .unwrap()
    .unwrap();
    assert_eq!(chunk.choices[0].delta.final_output.as_ref().unwrap().len(), 1);
}

#[test]
fn nothing_to_read_is_nothing() {
    for data in ["", "   ", "[DONE]", " [DONE]\n", "not json", r#"{"type":"response.created"}"#] {
        assert_eq!(parse("response.created", data), Ok(None), "{data}");
    }
}

#[test]
fn a_frame_that_is_a_chunk_is_passed_on() {
    let data = r#"{"delta":"x"}"#;
    let mut decoded = decode(data);
    let own = parse("", data).unwrap().unwrap();
    let mut given = own.clone();
    given.id = "chunk".into();
    decoded.chunk = Some(given.clone());
    assert_eq!(parse_responses_chunk("", data, &decoded), Ok(Some(given.clone())));
    given.choices.clear();
    decoded.chunk = Some(given);
    assert_eq!(parse_responses_chunk("", data, &decoded), Ok(Some(own)));
}

#[test]
fn text_and_reasoning_deltas() {
    let said = parse("response.output_text.delta", r#"{"delta":"hi"}"#).unwrap().unwrap();
    assert_eq!(said.choices[0].delta.content.as_deref(), Some("hi"));
    let thought =
        parse("response.reasoning_summary_text.delta", r#"{"delta":"hm"}"#).unwrap().unwrap();
    assert_eq!(thought.choices[0].delta.reasoning_content.as_deref(), Some("hm"));
    assert_eq!(thought.choices[0].delta.content, None);
    let plain = parse("", r#"{"delta":"rest"}"#).unwrap().unwrap();
    assert_eq!(plain.choices[0].delta.content.as_deref(), Some("rest"));
}

#[test]
fn later_summary_parts_are_set_apart() {
    let event = "response.reasoning_summary_part.added";
    assert_eq!(parse(event, r#"{"summary_index":0}"#), Ok(None));
    let next = parse(event, r#"{"summary_index":1}"#).unwrap().unwrap();
    assert_eq!(next.choices[0].delta.reasoning_content.as_deref(), Some("\n\n"));
}

#[test]
fn function_call_arguments_come_in_pieces_and_whole() {
    let piece = parse(
        "response.function_call_arguments.delta",
        r#"{"output_index":3,"item_id":"it","call_id":"","delta":"{\"a\""}"#,
    )
    .unwrap()
    .unwrap();
    let tc = first_call(&piece);
    assert_eq!((tc.index, tc.id.clone(), tc.item_id.as_deref()), (3, None, Some("it")));
    assert_eq!(tc.function.as_ref().unwrap().arguments.as_deref(), Some("{\"a\""));
    let whole = parse(
        "response.function_call_arguments.done",
        r#"{"index":1,"id":"x","arguments":{"b":1,"a":[]}}"#,
    )
    .unwrap()
    .unwrap();
    let tc = first_call(&whole);
    assert_eq!(tc.index, 1);
    assert_eq!(
        tc.function.as_ref().unwrap().arguments.as_deref(),
        Some(r#"{"a":[],"b":1}"#)
    );
}

#[test]
fn added_items_wait_for_their_arguments() {
    let added = parse(
        "response.output_item.added",
        r#"{"item":{"type":"function_call","id":"i","call_id":"c","name":"f","arguments":" {} "}}"#,
    )
    .unwrap()
    .unwrap();
    assert_eq!(first_call(&added).function.as_ref().unwrap().arguments, None);
    let done = parse(
        "response.output_item.done",
        r#"{"item":{"type":"web_search_call","id":"ws","action":{"q":1}}}"#,
    )
    .unwrap()
    .unwrap();
    assert_eq!(
        first_call(&done).function.as_ref().unwrap().arguments.as_deref(),
        Some(r#"{"q":1}"#)
    );
    let reasoning = r#"{"item":{"type":"reasoning","id":"rs","encrypted_content":"e"}}"#;
    assert_eq!(parse("response.output_item.added", reasoning), Ok(None));
    let counted = parse("response.output_item.done", reasoning).unwrap().unwrap();
    assert_eq!(counted.choices[0].delta.reasoning_items[0].id, "rs");
    assert_eq!(counted.choices[0].delta.encrypted_reasoning.as_deref(), Some("e"));
}

#[test]
fn every_tool_of_a_provider_has_its_name() {
    for (kind, name) in [
        ("x_search", "x_search"),
        ("x_search_call", "x_search"),
        ("web_search_call", "web_search"),
        ("file_search_call", "file_search"),
        ("computer_call", "computer"),
        ("mcp_call", "mcp"),
        ("image_generation_call", "image_generation"),
        ("code_interpreter_call", "code_interpreter"),
    ] {
        let item = json(&format!(r#"{{"type":"{kind}","call_id":"c","input":"in"}}"#));
        let tc = tool_delta_from_output_item(&item, 4).unwrap();
        assert_eq!(tc.kind.as_deref(), Some("server"));
        assert_eq!(tc.id.as_deref(), Some("c"));
        let function = tc.function.unwrap();
        assert_eq!(function.name.as_deref(), Some(name));
        assert_eq!(function.arguments.as_deref(), Some("in"));
    }
    assert!(tool_delta_from_output_item(&json(r#"{"type":"message"}"#), 0).is_none());
}

#[test]
fn custom_tools_with_an_x_are_the_providers() {
    let x = json(r#"{"type":"custom_tool_call","name":"x_keyword_search"}"#);
    assert_eq!(tool_delta_from_output_item(&x, 0).unwrap().kind.as_deref(), Some("server"));
    let unnamed = tool_delta_from_output_item(&json(r#"{"type":"custom_tool_call"}"#), 0).unwrap();
    assert_eq!(unnamed.kind.as_deref(), Some("custom_tool"));
    assert_eq!(unnamed.function.unwrap().name.as_deref(), Some("custom_tool"));
}

#[test]
fn an_output_gives_its_reasoning_and_its_last_text() {
    let chunk = parse(
        "",
        r#"{"output":[{"type":"reasoning","id":"a","encrypted_content":"1"},
                      {"type":"message","content":"one"},
                      {"type":"reasoning","id":"b"},
                      {"type":"message","content":"two"}]}"#,
    )
    .unwrap()
    .unwrap();
    let delta = &chunk.choices[0].delta;
    assert_eq!(delta.content.as_deref(), Some("two"));
    assert_eq!(delta.reasoning_items.len(), 2);
    assert_eq!(delta.encrypted_reasoning, None);
}

#[test]
fn usage_keeps_the_lower_bits() {
    let chunk = parse(
        "",
        r#"{"usage":{"input_tokens":4294967297,"completion_tokens":7,"total_tokens":-1}}"#,
    )
    .unwrap()
    .unwrap();
    let usage = chunk.usage.unwrap();
    assert_eq!(
        (usage.prompt_tokens, usage.completion_tokens, usage.total_tokens),
        (1, 7, 0)
    );
}

#[test]
fn only_response_ids_name_a_response() {
    assert_eq!(parse("", r#"{"id":"chat_1"}"#), Ok(None));
    let named = parse("", r#"{"id":"resp_1"}"#).unwrap().unwrap();
    assert_eq!(named.id, "resp_1");
    let other = parse("", r#"{"id":"chat_1","delta":"x"}"#).unwrap().unwrap();
    assert_eq!(other.id, "chat_1");
}

#[test]
fn buffered_responses_are_read_like_the_end_of_a_stream() {
    let data = r#"{"id":"resp_7","output":[{"type":"message","content":[{"text":"done"}]}]}"#;
    let event = completed_event_text(data).unwrap();
    let decoded = decode(&event);
    let chunk = parse_responses_response(data, &decoded).unwrap().unwrap();
    assert_eq!(chunk.id, "resp_7");
    assert!(matches!(chunk.choices[0].delta.final_output.as_ref().unwrap()[0],
        OutputItemWire::Message { ref text, .. } if text == "done"));
    assert_eq!(parse("response.completed", &event).unwrap().unwrap(), chunk);
}

#[test]
fn unreadable_buffered_responses_show_their_beginning() {
    let data = "x".repeat(130);
    let Err(EngineError::Stream(message)) = parse_responses_response(&data, &decode("")) else {
        panic!("expected a stream error");
    };
    assert!(message.starts_with("failed to parse buffered Responses response: expected value"));
    assert!(message.ends_with(&format!(": {}", "x".repeat(120))));
    assert!(!message.contains(&"x".repeat(121)));
}

#[test]
fn kinds_go_by_the_event_and_by_the_type() {
    assert_eq!(frame_kind("response.failed", ""), FrameKind::Failed);
    assert_eq!(frame_kind("", "response.incomplete"), FrameKind::Terminal);
    assert_eq!(frame_kind("response.reasoning_text.delta", ""), FrameKind::Reasoning);
    assert_eq!(frame_kind("response.text.delta", ""), FrameKind::Text);
    assert_eq!(frame_kind("response.output_item.added", "web_search_call"), FrameKind::Other);
}

// ── JSON ────────────────────────────────────────────────────────────────

#[test]
fn json_text_is_compact_and_sorted() {
    let v = json("{ \"b\" : [1, 2.50, \"x\\u0041\"], \"a\" : null, \"b\" : {\"c\": true} }");
    assert_eq!(write_json(&v), r#"{"a":null,"b":{"c":true}}"#);
    let entry = |key: &str, n: &str| (key.to_string(), Json::text(n));
    let keys = Json::Object(vec![
        entry("b", "1"),
        entry("ab", "2"),
        entry("é", "3"),
        entry("a", "4"),
        entry("b", "5"),
        entry("B", "6"),
    ]);
    assert_eq!(write_json(&keys), r#"{"B":"6","a":"4","ab":"2","b":"5","é":"3"}"#);
    assert_eq!(write_json(&json("[1, 2.50, \"x\\u0041\"]")), r#"[1,2.5,"xA"]"#);
}

#[test]
fn numbers_are_written_as_they_were_read() {
    let mut state: u64 = 88172645463325252;
    for i in 0..2000 {
        state ^= state << 13;
        state ^= state >> 7;
        state ^= state << 17;
        let text = match i % 4 {
            0 => format!("{state}"),
            1 => format!("-{}", state >> 1),
            2 => format!("0.{state}"),
            _ => format!("{}.{}e{}", state % 10, state, (state % 600) as i64 - 300),
        };
        let value: serde_json::Value = serde_json::from_str(&text).unwrap();
        assert_eq!(write_json(&json(&text)), value.to_string());
        assert_eq!(json(&text).as_u64(), value.as_u64());
    }
    for text in ["1.7976931348623157e308", "-0.0", "-0", "5.0", "18446744073709551616"] {
        let value: serde_json::Value = serde_json::from_str(text).unwrap();
        assert_eq!(write_json(&json(text)), value.to_string());
    }
    assert_eq!(write_json(&Json::unsigned(u64::MAX)), "18446744073709551615");
    assert_eq!(Json::unsigned(12), json("12"));
}

#[test]
fn written_json_is_read_again() {
    let v = json(r#"{"b":[1,-2,true,null,"x\u0001\n\"é"],"a":{"":{}}}"#);
    assert_eq!(json(&write_json(&v)), v);
}

#[test]
fn json_errors_are_told() {
    assert!(parse_json("{").unwrap_err().contains("EOF"));
    assert_eq!(parse_leading_json(r#"{"a":1} trailing"#), Some(json(r#"{"a":1}"#)));
    assert_eq!(parse_leading_json("{oops"), None);
}
