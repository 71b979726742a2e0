//! The body of a request to the Responses API.
use vstd::prelude::*;

use crate::client;
use crate::client::hosts_tool;
use crate::error;
use crate::error::{EngineError, EngineErrorView};
use crate::json;
use crate::json::{
    holds_exactly, keys_differ, lemma_array_view, lemma_holds_exactly, lemma_object_view,
    parse_json, set_entry, Fields, Json, JsonView,
};
use crate::text;
use crate::text::str_eq;
use crate::types;
use crate::types::{
    ConversationItem, ConversationItemView, ConversationRequest, ConversationRequestView,
    HostedToolView, ReasoningItem, ReasoningItemView, ToolCall, ToolCallView, ToolDefinitionView,
    UserContent, UserContentView,
};

verus! {

// ── Reasoning parts ─────────────────────────────────────────────────────

/// A part of reasoning content with its type, which is `reasoning_text` where it
/// names none.
pub open spec fn typed_part(part: JsonView) -> JsonView {
    match part {
        JsonView::Object(entries) => if json::lookup(entries, "type"@) is Some {
            part
        } else {
            JsonView::Object(entries.push(("type"@, JsonView::Text("reasoning_text"@))))
        },
        _ => part,
    }
}

/// An item with all parts typed, where it is an item of reasoning.
pub open spec fn typed_item(item: JsonView) -> JsonView {
    match (item, item.get("content"@)) {
        (
            JsonView::Object(entries),
            Some(JsonView::Array(parts)),
        ) => if json::text_in(item.get("type"@)) == Some("reasoning"@) {
            JsonView::Object(
                json::with_entry(
                    entries,
                    "content"@,
                    JsonView::Array(parts.map_values(|part: JsonView| typed_part(part))),
                ),
            )
        } else {
            item
        },
        _ => item,
    }
}

/// Items with all parts of their reasoning typed.
pub open spec fn typed_items(items: Seq<JsonView>) -> Seq<JsonView> {
    items.map_values(|item: JsonView| typed_item(item))
}

/// A body with all parts of the reasoning in its input typed.
pub open spec fn typed_body(body: JsonView) -> JsonView {
    match (body, body.get("input"@)) {
        (JsonView::Object(entries), Some(JsonView::Array(items))) => JsonView::Object(
            json::with_entry(entries, "input"@, JsonView::Array(typed_items(items))),
        ),
        _ => body,
    }
}

fn type_part(part: &Json) -> (typed: Json)
    ensures
        typed.deep_view() == typed_part(part.deep_view()),
{
    broadcast use lemma_object_view;

    if part.get("type").is_some() {
        return part.clone();
    }
    match part.clone() {
        Json::Object(entries) => Fields { entries }.with(
            "type",
            Json::text("reasoning_text"),
        ).object(),
        other => other,
    }
}

fn type_item(item: &Json) -> (typed: Json)
    ensures
        typed.deep_view() == typed_item(item.deep_view()),
{
    broadcast use {lemma_object_view, lemma_array_view};

    let is_reasoning = match item.get("type") {
        Some(kind) => match kind.as_text() {
            Some(kind) => str_eq(kind, "reasoning"),
            None => false,
        },
        None => false,
    };
    if !is_reasoning {
        return item.clone();
    }
    match item.get("content") {
        Some(Json::Array(parts)) => {
            let mut typed: Vec<Json> = Vec::new();
            let ghost given = parts.deep_view();
            for i in 0..parts.len()
                invariant
                    given == parts.deep_view(),
                    typed.len() == i,
                    forall|j: int|
                        0 <= j < i ==> (#[trigger] typed@[j]).deep_view() == typed_part(given[j]),
            {
                typed.push(type_part(&parts[i]));
            }
            assert(typed.deep_view() =~= given.map_values(|part: JsonView| typed_part(part)));
            let copy = item.clone();
            match copy {
                Json::Object(entries) => {
                    let mut entries = entries;
                    set_entry(&mut entries, "content".to_owned(), Json::array(typed));
                    Json::Object(entries)
                },
                other => other,
            }
        },
        _ => item.clone(),
    }
}

fn type_items(items: &Vec<Json>) -> (typed: Vec<Json>)
    ensures
        typed.deep_view() == typed_items(items.deep_view()),
{
    let mut typed: Vec<Json> = Vec::new();
    let ghost given = items.deep_view();
    for i in 0..items.len()
        invariant
            given == items.deep_view(),
            typed.len() == i,
            forall|j: int|
                0 <= j < i ==> (#[trigger] typed@[j]).deep_view() == typed_item(given[j]),
    {
        typed.push(type_item(&items[i]));
    }
    typed
}

/// Gives every part of the reasoning in a body's input the type that the API
/// requires.
pub fn patch_reasoning_text_types(body: &mut Json)
    ensures
        final(body).deep_view() == typed_body(old(body).deep_view()),
{
    broadcast use {lemma_object_view, lemma_array_view};

    let typed = match body.get("input") {
        Some(Json::Array(items)) => type_items(items),
        _ => {
            return ;
        },
    };
    let copy = body.clone();
    if let Json::Object(entries) = copy {
        let mut entries = entries;
        set_entry(&mut entries, "input".to_owned(), Json::array(typed));
        *body = Json::Object(entries);
    }
}

proof fn lemma_lookup_with_entry(
    entries: Seq<(Seq<char>, JsonView)>,
    key: Seq<char>,
    value: JsonView,
    other: Seq<char>,
)
    ensures
        json::lookup(json::with_entry(entries, key, value), other) == (if other == key {
            Some(value)
        } else {
            json::lookup(entries, other)
        }),
    decreases entries.len(),
{
    reveal_with_fuel(json::lookup, 2);
    let added = json::with_entry(entries, key, value);
    if entries.len() == 0 {
    } else if entries[0].0 == key {
        assert(added.drop_first() =~= entries.drop_first());
    } else {
        lemma_lookup_with_entry(entries.drop_first(), key, value, other);
        assert(added.drop_first() =~= json::with_entry(entries.drop_first(), key, value));
    }
}

proof fn lemma_lookup_pushed(
    entries: Seq<(Seq<char>, JsonView)>,
    key: Seq<char>,
    value: JsonView,
)
    requires
        json::lookup(entries, key) is None,
    ensures
        json::lookup(entries.push((key, value)), key) == Some(value),
    decreases entries.len(),
{
    if entries.len() > 0 {
        lemma_lookup_pushed(entries.drop_first(), key, value);
        assert(entries.push((key, value)).drop_first() =~= entries.drop_first().push((key, value)));
    }
}

proof fn lemma_with_same_entry(
    entries: Seq<(Seq<char>, JsonView)>,
    key: Seq<char>,
    value: JsonView,
)
    requires
        json::lookup(entries, key) == Some(value),
    ensures
        json::with_entry(entries, key, value) == entries,
    decreases entries.len(),
{
    if entries[0].0 == key {
    } else {
        lemma_with_same_entry(entries.drop_first(), key, value);
    }
}

proof fn lemma_typed_part_stays(part: JsonView)
    ensures
        typed_part(typed_part(part)) == typed_part(part),
{
    if let JsonView::Object(entries) = part {
        if json::lookup(entries, "type"@) is None {
            lemma_lookup_pushed(entries, "type"@, JsonView::Text("reasoning_text"@));
        }
    }
}

proof fn lemma_typed_item_stays(item: JsonView)
    ensures
        typed_item(typed_item(item)) == typed_item(item),
{
    let typed = typed_item(item);
    if typed != item {
        let entries = item->Object_0;
        let parts = item.get("content"@).unwrap()->Array_0;
        let typed_parts = parts.map_values(|part: JsonView| typed_part(part));
        let content = JsonView::Array(typed_parts);
        lemma_lookup_with_entry(entries, "content"@, content, "content"@);
        lemma_lookup_with_entry(entries, "content"@, content, "type"@);
        assert(typed_parts.map_values(|part: JsonView| typed_part(part)) =~= typed_parts) by {
            assert forall|i: int| 0 <= i < parts.len() implies typed_part(
                #[trigger] typed_parts[i],
            ) == typed_parts[i] by {
                lemma_typed_part_stays(parts[i]);
            }
        }
        lemma_with_same_entry(typed->Object_0, "content"@, content);
    }
}

/// Typing the parts of a body's reasoning once is enough: another time changes
/// nothing.
pub proof fn law_typing_is_idempotent(body: JsonView)
    ensures
        typed_body(typed_body(body)) == typed_body(body),
{
    if let JsonView::Object(entries) = body {
        if let Some(JsonView::Array(items)) = body.get("input"@) {
            let typed = typed_items(items);
            lemma_lookup_with_entry(entries, "input"@, JsonView::Array(typed), "input"@);
            assert(typed_items(typed) =~= typed) by {
                assert forall|i: int| 0 <= i < items.len() implies typed_item(
                    #[trigger] typed[i],
                ) == typed[i] by {
                    lemma_typed_item_stays(items[i]);
                }
            }
            lemma_with_same_entry(typed_body(body)->Object_0, "input"@, JsonView::Array(typed));
        }
    }
}

/// The two values hold the same under every key but this one.
pub open spec fn same_but(key: Seq<char>, before: JsonView, after: JsonView) -> bool {
    forall|other: Seq<char>| other != key ==> #[trigger] after.get(other) == before.get(other)
}

/// The part is as it was, but that it has a type where it is an object and had none.
pub open spec fn part_was_typed(before: JsonView, after: JsonView) -> bool {
    if before is Object && before.get("type"@) is None {
        &&& after is Object
        &&& after.get("type"@) == Some(JsonView::Text("reasoning_text"@))
        &&& same_but("type"@, before, after)
    } else {
        after == before
    }
}

/// The item is as it was, but that the parts of its content were typed where it is
/// an item of reasoning.
pub open spec fn item_was_typed(before: JsonView, after: JsonView) -> bool {
    match before.get("content"@) {
        Some(JsonView::Array(parts)) if json::text_in(before.get("type"@)) == Some(
            "reasoning"@,
        ) => {
            &&& same_but("content"@, before, after)
            &&& after.get("content"@) matches Some(JsonView::Array(typed)) && {
                &&& typed.len() == parts.len()
                &&& forall|i: int|
                    0 <= i < parts.len() ==> part_was_typed(parts[i], #[trigger] typed[i])
            }
        },
        _ => after == before,
    }
}

proof fn lemma_lookup_other_pushed(
    entries: Seq<(Seq<char>, JsonView)>,
    key: Seq<char>,
    value: JsonView,
    other: Seq<char>,
)
    requires
        other != key,
    ensures
        json::lookup(entries.push((key, value)), other) == json::lookup(entries, other),
    decreases entries.len(),
{
    reveal_with_fuel(json::lookup, 2);
    if entries.len() > 0 {
        lemma_lookup_other_pushed(entries.drop_first(), key, value, other);
        assert(entries.push((key, value)).drop_first() =~= entries.drop_first().push((key, value)));
    }
}

proof fn lemma_typed_part(part: JsonView)
    ensures
        part_was_typed(part, typed_part(part)),
{
    if let JsonView::Object(entries) = part {
        if part.get("type"@) is None {
            let value = JsonView::Text("reasoning_text"@);
            lemma_lookup_pushed(entries, "type"@, value);
            assert forall|other: Seq<char>| other != "type"@ implies #[trigger] typed_part(part).get(
                other,
            ) == part.get(other) by {
                lemma_lookup_other_pushed(entries, "type"@, value, other);
            }
        }
    }
}

proof fn lemma_typed_item(item: JsonView)
    ensures
        item_was_typed(item, typed_item(item)),
{
    if let JsonView::Object(entries) = item {
        if let Some(JsonView::Array(parts)) = item.get("content"@) {
            if json::text_in(item.get("type"@)) == Some("reasoning"@) {
                let typed = parts.map_values(|part: JsonView| typed_part(part));
                let content = JsonView::Array(typed);
                lemma_lookup_with_entry(entries, "content"@, content, "content"@);
                assert forall|i: int| 0 <= i < parts.len() implies part_was_typed(
                    parts[i],
                    #[trigger] typed[i],
                ) by {
                    lemma_typed_part(parts[i]);
                }
                assert forall|other: Seq<char>| other != "content"@ implies #[trigger] typed_item(
                    item,
                ).get(other) == item.get(other) by {
                    lemma_lookup_with_entry(entries, "content"@, content, other);
                }
            }
        }
    }
}

/// Typing adds the type `reasoning_text` to those parts of reasoning in the input
/// that are objects without a type, and changes nothing else: not a type that is
/// there, not another item, not another entry of the body, and not a body without an
/// array as its input.
pub proof fn law_typing_changes_nothing_else(body: JsonView)
    ensures
        same_but("input"@, body, typed_body(body)),
        match body.get("input"@) {
            Some(JsonView::Array(items)) => typed_body(body).get("input"@) matches Some(
                JsonView::Array(typed),
            ) && {
                &&& typed.len() == items.len()
                &&& forall|i: int|
                    0 <= i < items.len() ==> item_was_typed(items[i], #[trigger] typed[i])
            },
            _ => typed_body(body) == body,
        },
{
    if let JsonView::Object(entries) = body {
        if let Some(JsonView::Array(items)) = body.get("input"@) {
            let typed = typed_items(items);
            lemma_lookup_with_entry(entries, "input"@, JsonView::Array(typed), "input"@);
            assert forall|i: int| 0 <= i < items.len() implies item_was_typed(
                items[i],
                #[trigger] typed[i],
            ) by {
                lemma_typed_item(items[i]);
            }
            assert forall|other: Seq<char>| other != "input"@ implies #[trigger] typed_body(
                body,
            ).get(other) == body.get(other) by {
                lemma_lookup_with_entry(entries, "input"@, JsonView::Array(typed), other);
            }
        }
    }
}

// ── What is sent ────────────────────────────────────────────────────────

/// The entry for a piece of reasoning. Its status is not sent, and what it does
/// not have is left out.
pub open spec fn reasoning_entry(item: ReasoningItemView) -> JsonView {
    let start = seq![
        ("type"@, JsonView::Text("reasoning"@)),
        ("summary"@, JsonView::Array(item.summary)),
    ];
    let with_content = match item.content {
        Some(content) => start.push(("content"@, JsonView::Array(content))),
        None => start,
    };
    let with_encrypted = match item.encrypted_content {
        Some(content) => with_content.push(("encrypted_content"@, JsonView::Text(content))),
        None => with_content,
    };
    JsonView::Object(
        if item.id.len() != 0 {
            with_encrypted.push(("id"@, JsonView::Text(item.id)))
        } else {
            with_encrypted
        },
    )
}

fn copy_list(items: &Vec<Json>) -> (copy: Json)
    ensures
        copy.deep_view() == JsonView::Array(items.deep_view()),
{
    let list = items.clone();
    Json::array(list)
}

/// The entry for a piece of reasoning.
pub fn reasoning_to_input_item(item: &ReasoningItem) -> (entry: Json)
    ensures
        entry.deep_view() == reasoning_entry(item.deep_view()),
{
    let mut fields = Fields::new().with("type", Json::text("reasoning")).with(
        "summary",
        copy_list(&item.summary),
    );
    assert(fields.deep_view() =~= seq![
        ("type"@, JsonView::Text("reasoning"@)),
        ("summary"@, JsonView::Array(item.deep_view().summary)),
    ]);
    if let Some(content) = &item.content {
        fields = fields.with("content", copy_list(content));
    }
    if let Some(content) = &item.encrypted_content {
        fields = fields.with("encrypted_content", Json::text(content.as_str()));
    }
    if !item.id.as_str().is_empty() {
        fields = fields.with("id", Json::text(item.id.as_str()));
    }
    fields.object()
}

/// The entry for a call of the local shell.
pub open spec fn shell_entry(id: Seq<char>, action: JsonView) -> JsonView {
    JsonView::Object(
        seq![
            ("type"@, JsonView::Text("local_shell_call"@)),
            ("call_id"@, JsonView::Text(id)),
            ("status"@, JsonView::Text("completed"@)),
            ("action"@, action),
        ],
    )
}

/// The entry for a call of the local shell.
pub fn local_shell_entry(id: &str, action: Json) -> (entry: Json)
    ensures
        entry.deep_view() == shell_entry(id@, action.deep_view()),
{
    let fields = Fields::new().with("type", Json::text("local_shell_call")).with(
        "call_id",
        Json::text(id),
    ).with("status", Json::text("completed")).with("action", action);
    assert(fields.deep_view() =~= shell_entry(id@, action.deep_view())->Object_0);
    fields.object()
}

/// The action of a shell call whose arguments are no JSON: they are the command.
pub open spec fn plain_command(arguments: Seq<char>) -> JsonView {
    JsonView::Object(
        seq![
            ("type"@, JsonView::Text("exec"@)),
            ("command"@, JsonView::Array(seq![JsonView::Text(arguments)])),
        ],
    )
}

fn make_plain_command(arguments: &str) -> (action: Json)
    ensures
        action.deep_view() == plain_command(arguments@),
{
    let mut command: Vec<Json> = Vec::new();
    command.push(Json::text(arguments));
    assert(command.deep_view() =~= seq![JsonView::Text(arguments@)]);
    let fields = Fields::new().with("type", Json::text("exec")).with(
        "command",
        Json::array(command),
    );
    assert(fields.deep_view() =~= plain_command(arguments@)->Object_0);
    fields.object()
}

/// The entry for a tool call of the model.
pub open spec fn call_entry(call: ToolCallView) -> JsonView {
    if call.kind == "local_shell"@ {
        shell_entry(
            call.id,
            match json::parsed_text(call.function.arguments) {
                Ok(action) => action,
                Err(_) => plain_command(call.function.arguments),
            },
        )
    } else if call.kind == "custom_tool"@ {
        JsonView::Object(
            seq![
                ("type"@, JsonView::Text("custom_tool_call"@)),
                ("call_id"@, JsonView::Text(call.id)),
                ("name"@, JsonView::Text(call.function.name)),
                ("input"@, JsonView::Text(call.function.arguments)),
            ],
        )
    } else {
        JsonView::Object(
            seq![
                ("type"@, JsonView::Text("function_call"@)),
                ("call_id"@, JsonView::Text(call.id)),
                ("name"@, JsonView::Text(call.function.name)),
                ("arguments"@, JsonView::Text(call.function.wire_arguments)),
            ],
        )
    }
}

fn tool_call_entry(call: &ToolCall) -> (entry: Json)
    ensures
        entry.deep_view() == call_entry(call.deep_view()),
{
    if str_eq(call.kind.as_str(), "local_shell") {
        let action = match parse_json(call.function.arguments.as_str()) {
            Ok(action) => action,
            Err(_) => make_plain_command(call.function.arguments.as_str()),
        };
        local_shell_entry(call.id.as_str(), action)
    } else if str_eq(call.kind.as_str(), "custom_tool") {
        let fields = Fields::new().with("type", Json::text("custom_tool_call")).with(
            "call_id",
            Json::text(call.id.as_str()),
        ).with("name", Json::text(call.function.name.as_str())).with(
            "input",
            Json::text(call.function.arguments.as_str()),
        );
        assert(fields.deep_view() =~= call_entry(call.deep_view())->Object_0);
        fields.object()
    } else {
        let fields = Fields::new().with("type", Json::text("function_call")).with(
            "call_id",
            Json::text(call.id.as_str()),
        ).with("name", Json::text(call.function.name.as_str())).with(
            "arguments",
            Json::text(call.function.wire_arguments.as_str()),
        );
        assert(fields.deep_view() =~= call_entry(call.deep_view())->Object_0);
        fields.object()
    }
}

/// The kind under which a call was last made.
pub open spec fn kind_of(calls: Seq<(Seq<char>, Seq<char>)>, id: Seq<char>) -> Option<Seq<char>>
    decreases calls.len(),
{
    if calls.len() == 0 {
        None
    } else if calls.last().0 == id {
        Some(calls.last().1)
    } else {
        kind_of(calls.drop_last(), id)
    }
}

/// The calls of some items, by id and kind.
pub open spec fn calls_of(items: Seq<ConversationItemView>) -> Seq<(Seq<char>, Seq<char>)>
    decreases items.len(),
{
    if items.len() == 0 {
        Seq::empty()
    } else {
        let before = calls_of(items.drop_last());
        match items.last() {
            ConversationItemView::Assistant(message) => before + message.tool_calls.map_values(
                |call: ToolCallView| (call.id, call.kind),
            ),
            _ => before,
        }
    }
}

/// The entry for what a tool gave back.
pub open spec fn result_entry(id: Seq<char>, content: Seq<char>, custom: bool) -> JsonView {
    if custom {
        JsonView::Object(
            seq![
                ("type"@, JsonView::Text("custom_tool_call_output"@)),
                ("call_id"@, JsonView::Text(id)),
                (
                    "output"@,
                    match json::parsed_text(content) {
                        Ok(output) => output,
                        Err(_) => JsonView::Text(content),
                    },
                ),
            ],
        )
    } else {
        JsonView::Object(
            seq![
                ("type"@, JsonView::Text("function_call_output"@)),
                ("call_id"@, JsonView::Text(id)),
                ("output"@, JsonView::Text(content)),
            ],
        )
    }
}

fn tool_result_entry(id: &str, content: &str, custom: bool) -> (entry: Json)
    ensures
        entry.deep_view() == result_entry(id@, content@, custom),
{
    if custom {
        let output = match parse_json(content) {
            Ok(output) => output,
            Err(_) => Json::text(content),
        };
        let fields = Fields::new().with("type", Json::text("custom_tool_call_output")).with(
            "call_id",
            Json::text(id),
        ).with("output", output);
        assert(fields.deep_view() =~= result_entry(id@, content@, custom)->Object_0);
        fields.object()
    } else {
        let fields = Fields::new().with("type", Json::text("function_call_output")).with(
            "call_id",
            Json::text(id),
        ).with("output", Json::text(content));
        assert(fields.deep_view() =~= result_entry(id@, content@, custom)->Object_0);
        fields.object()
    }
}

/// The entry for a message.
pub open spec fn message_entry(role: Seq<char>, content: JsonView) -> JsonView {
    JsonView::Object(seq![("role"@, JsonView::Text(role)), ("content"@, content)])
}

fn make_message_entry(role: &str, content: Json) -> (entry: Json)
    ensures
        entry.deep_view() == message_entry(role@, content.deep_view()),
{
    let fields = Fields::new().with("role", Json::text(role)).with("content", content);
    assert(fields.deep_view() =~= message_entry(role@, content.deep_view())->Object_0);
    fields.object()
}

/// The entries for an item, after the calls made before it; or why it cannot be
/// sent.
pub open spec fn item_entries(
    item: ConversationItemView,
    calls: Seq<(Seq<char>, Seq<char>)>,
) -> Result<Seq<JsonView>, EngineErrorView> {
    match item {
        ConversationItemView::System(_) => Ok(Seq::empty()),
        ConversationItemView::User(user) => match user.content {
            UserContentView::Ready(content) => Ok(seq![message_entry("user"@, content)]),
            UserContentView::Unsendable(error) => Err(error),
        },
        ConversationItemView::Reasoning(reasoning) => Ok(seq![reasoning_entry(reasoning)]),
        ConversationItemView::BackendToolCall(call) => Ok(seq![call.payload]),
        ConversationItemView::Assistant(message) => Ok(
            (if message.content.len() != 0 {
                seq![message_entry("assistant"@, JsonView::Text(message.content))]
            } else {
                Seq::empty()
            }) + message.tool_calls.map_values(|call: ToolCallView| call_entry(call)),
        ),
        ConversationItemView::ToolResult(result) => Ok(
            seq![
                result_entry(
                    result.tool_call_id,
                    result.content,
                    kind_of(calls, result.tool_call_id) == Some("custom_tool"@),
                ),
            ],
        ),
    }
}

/// The entries for a conversation, or why its first item that cannot be sent
/// cannot.
pub open spec fn input_of(items: Seq<ConversationItemView>) -> Result<
    Seq<JsonView>,
    EngineErrorView,
>
    decreases items.len(),
{
    if items.len() == 0 {
        Ok(Seq::empty())
    } else {
        match input_of(items.drop_last()) {
            Ok(before) => match item_entries(items.last(), calls_of(items.drop_last())) {
                Ok(entries) => Ok(before + entries),
                Err(error) => Err(error),
            },
            Err(error) => Err(error),
        }
    }
}

/// The instructions of a conversation, with an empty line between them.
pub open spec fn instructions_of(items: Seq<ConversationItemView>) -> Seq<char>
    decreases items.len(),
{
    if items.len() == 0 {
        Seq::empty()
    } else {
        let before = instructions_of(items.drop_last());
        match items.last() {
            ConversationItemView::System(system) => if before.len() == 0 {
                system.content
            } else {
                before + "\n\n"@ + system.content
            },
            _ => before,
        }
    }
}

proof fn lemma_unsendable_stays(items: Seq<ConversationItemView>, n: int)
    requires
        0 <= n <= items.len(),
        input_of(items.take(n)) is Err,
    ensures
        input_of(items) == input_of(items.take(n)),
    decreases items.len() - n,
{
    if n == items.len() {
        assert(items.take(n) =~= items);
    } else {
        assert(items.take(n + 1).drop_last() =~= items.take(n));
        lemma_unsendable_stays(items, n + 1);
    }
}

/// What a conversation comes to, as far as it was read.
struct Draft {
    instructions: String,
    input: Vec<Json>,
    calls: Vec<(String, String)>,
}

impl Draft {
    spec fn holds(self, items: Seq<ConversationItemView>) -> bool {
        &&& self.instructions@ == instructions_of(items)
        &&& input_of(items) == Ok::<Seq<JsonView>, EngineErrorView>(self.input.deep_view())
        &&& self.calls.deep_view() == calls_of(items)
    }

    fn push(&mut self, entry: Json)
        ensures
            final(self).input.deep_view() == old(self).input.deep_view().push(entry.deep_view()),
            final(self).instructions == old(self).instructions,
            final(self).calls == old(self).calls,
    {
        self.input.push(entry);
    }

    fn is_custom(&self, id: &str) -> (yes: bool)
        ensures
            yes == (kind_of(self.calls.deep_view(), id@) == Some("custom_tool"@)),
    {
        let ghost view = self.calls.deep_view();
        let mut i: usize = self.calls.len();
        assert(view.take(i as int) =~= view);
        while i > 0
            invariant
                i <= self.calls.len(),
                view == self.calls.deep_view(),
                kind_of(view, id@) == kind_of(view.take(i as int), id@),
            decreases i,
        {
            i = i - 1;
            assert(view.take(i + 1).drop_last() =~= view.take(i as int));
            if str_eq(self.calls[i].0.as_str(), id) {
                return str_eq(self.calls[i].1.as_str(), "custom_tool");
            }
        }
        false
    }

    fn add_message(&mut self, content: &str, calls: &Vec<ToolCall>)
        ensures
            final(self).instructions == old(self).instructions,
            final(self).input.deep_view() == old(self).input.deep_view() + ((if content@.len()
                != 0 {
                seq![message_entry("assistant"@, JsonView::Text(content@))]
            } else {
                Seq::empty()
            }) + calls.deep_view().map_values(|call: ToolCallView| call_entry(call))),
            final(self).calls.deep_view() == old(self).calls.deep_view()
                + calls.deep_view().map_values(|call: ToolCallView| (call.id, call.kind)),
    {
        let ghost input = self.input.deep_view();
        let ghost made = self.calls.deep_view();
        let ghost view = calls.deep_view();
        let ghost front = if content@.len() != 0 {
            seq![message_entry("assistant"@, JsonView::Text(content@))]
        } else {
            Seq::<JsonView>::empty()
        };
        if !content.is_empty() {
            self.push(make_message_entry("assistant", Json::text(content)));
        }
        for i in 0..calls.len()
            invariant
                view == calls.deep_view(),
                self.instructions == old(self).instructions,
                self.input.deep_view() == input + (front + view.take(i as int).map_values(
                    |call: ToolCallView| call_entry(call),
                )),
                self.calls.deep_view() == made + view.take(i as int).map_values(
                    |call: ToolCallView| (call.id, call.kind),
                ),
        {
            let call = &calls[i];
            let ghost known = self.calls.deep_view();
            self.calls.push((call.id.clone(), call.kind.clone()));
            assert(self.calls.deep_view() =~= known.push((call.id@, call.kind@)));
            self.push(tool_call_entry(call));
        }
    }

    fn add_item(&mut self, item: &ConversationItem, Ghost(before): Ghost<
        Seq<ConversationItemView>,
    >) -> (outcome: Result<(), EngineError>)
        requires
            old(self).holds(before),
        ensures
            match outcome {
                Ok(_) => final(self).holds(before.push(item.deep_view())),
                Err(error) => input_of(before.push(item.deep_view())) == Err::<
                    Seq<JsonView>,
                    EngineErrorView,
                >(error.deep_view()),
            },
    {
        let ghost all = before.push(item.deep_view());
        assert(all.drop_last() =~= before);
        let ghost input = self.input.deep_view();
        match item {
            ConversationItem::System(system) => {
                if !self.instructions.as_str().is_empty() {
                    self.instructions.append("\n\n");
                    self.instructions.append(system.content.as_str());
                } else {
                    self.instructions = system.content.clone();
                }
            },
            ConversationItem::User(user) => {
                match &user.content {
                    UserContent::Ready(content) => {
                        self.push(make_message_entry("user", content.clone()));
                        assert(self.input.deep_view() =~= input + seq![
                            message_entry("user"@, content.deep_view()),
                        ]);
                    },
                    UserContent::Unsendable(error) => {
                        return Err(error.clone());
                    },
                }
            },
            ConversationItem::Reasoning(reasoning) => {
                self.push(reasoning_to_input_item(reasoning));
                assert(self.input.deep_view() =~= input + seq![
                    reasoning_entry(reasoning.deep_view()),
                ]);
            },
            ConversationItem::BackendToolCall(call) => {
                self.push(call.payload.clone());
                assert(self.input.deep_view() =~= input + seq![call.payload.deep_view()]);
            },
            ConversationItem::Assistant(message) => {
                self.add_message(message.content.as_str(), &message.tool_calls);
            },
            ConversationItem::ToolResult(result) => {
                let custom = self.is_custom(result.tool_call_id.as_str());
                let entry = tool_result_entry(
                    result.tool_call_id.as_str(),
                    result.content.as_str(),
                    custom,
                );
                self.push(entry);
                assert(self.input.deep_view() =~= input + seq![entry.deep_view()]);
            },
        }
        Ok(())
    }
}

fn draft_of(items: &Vec<ConversationItem>) -> (draft: Result<Draft, EngineError>)
    ensures
        match draft {
            Ok(draft) => draft.holds(items.deep_view()),
            Err(error) => input_of(items.deep_view()) == Err::<Seq<JsonView>, EngineErrorView>(
                error.deep_view(),
            ),
        },
{
    let ghost view = items.deep_view();
    let mut draft = Draft {
        instructions: String::new(),
        input: Vec::new(),
        calls: Vec::new(),
    };
    assert(draft.input.deep_view() =~= Seq::empty());
    assert(draft.calls.deep_view() =~= Seq::empty());
    for i in 0..items.len()
        invariant
            view == items.deep_view(),
            draft.holds(view.take(i as int)),
    {
        assert(view.take(i + 1) =~= view.take(i as int).push(items@[i as int].deep_view()));
        match draft.add_item(&items[i], Ghost(view.take(i as int))) {
            Ok(_) => {},
            Err(error) => {
                proof {
                    lemma_unsendable_stays(view, i + 1);
                }
                return Err(error);
            },
        }
    }
    assert(view.take(view.len() as int) =~= view);
    Ok(draft)
}

/// The entry for a tool that the client runs.
pub open spec fn function_entry(tool: ToolDefinitionView) -> JsonView {
    JsonView::Object(
        seq![
            ("type"@, JsonView::Text("function"@)),
            ("name"@, JsonView::Text(tool.function.name)),
            ("description"@, JsonView::Text(tool.function.description)),
            ("parameters"@, tool.function.parameters),
        ],
    )
}

/// The tools that a request offers: those that the provider hosts, then those of
/// the client that none of these stands in for.
pub open spec fn offered_tools(req: ConversationRequestView) -> Seq<JsonView> {
    req.hosted_tools.map_values(|tool: HostedToolView| tool.entry) + match req.tools {
        Some(tools) => client::own_tools(tools, req.hosted_tools).map_values(
            |tool: ToolDefinitionView| function_entry(tool),
        ),
        None => Seq::empty(),
    }
}

fn offer_tools(req: &ConversationRequest) -> (offered: Vec<Json>)
    ensures
        offered.deep_view() == offered_tools(req.deep_view()),
{
    let ghost hosted = req.hosted_tools.deep_view();
    let mut offered: Vec<Json> = Vec::new();
    for i in 0..req.hosted_tools.len()
        invariant
            hosted == req.hosted_tools.deep_view(),
            offered.len() == i,
            forall|j: int| 0 <= j < i ==> (#[trigger] offered@[j]).deep_view() == hosted[j].entry,
    {
        offered.push(req.hosted_tools[i].entry.clone());
    }
    let ghost front = hosted.map_values(|tool: HostedToolView| tool.entry);
    if let Some(tools) = &req.tools {
        let ghost view = tools.deep_view();
        for i in 0..tools.len()
            invariant
                view == tools.deep_view(),
                hosted == req.hosted_tools.deep_view(),
                offered.deep_view() == front + client::own_tools(
                    view.take(i as int),
                    hosted,
                ).map_values(|tool: ToolDefinitionView| function_entry(tool)),
        {
            let tool = &tools[i];
            assert(view.take(i + 1).drop_last() =~= view.take(i as int));
            let ghost before = client::own_tools(view.take(i as int), hosted);
            if !hosts_tool(&req.hosted_tools, tool.function.name.as_str()) {
                let ghost so_far = offered.deep_view();
                let fields = Fields::new().with("type", Json::text("function")).with(
                    "name",
                    Json::text(tool.function.name.as_str()),
                ).with("description", Json::text(tool.function.description.as_str())).with(
                    "parameters",
                    tool.function.parameters.clone(),
                );
                assert(fields.deep_view() =~= function_entry(tool.deep_view())->Object_0);
                let entry = fields.object();
                offered.push(entry);
                assert(offered.deep_view() =~= so_far.push(entry.deep_view()));
            }
        }
        assert(view.take(view.len() as int) =~= view);
    } else {
    }
    offered
}

/// The request asks for a stream, unless it says otherwise.
pub open spec fn is_streaming(req: ConversationRequestView) -> bool {
    match req.stream {
        Some(stream) => stream,
        None => true,
    }
}

/// How the model is to reason.
pub open spec fn reasoning_settings(req: ConversationRequestView) -> JsonView {
    let summary = seq![("summary"@, JsonView::Text("concise"@))];
    JsonView::Object(
        match req.reasoning_effort {
            Some(effort) => summary.push(("effort"@, JsonView::Text(effort))),
            None => summary,
        },
    )
}

/// How the model is to write.
pub open spec fn text_settings(req: ConversationRequestView) -> JsonView {
    let verbosity = seq![("verbosity"@, JsonView::Text("medium"@))];
    JsonView::Object(
        match req.response_format {
            Some(format) => verbosity.push(("format"@, format)),
            None => verbosity,
        },
    )
}

/// The entries that every body has.
pub open spec fn head_entries(req: ConversationRequestView, input: Seq<JsonView>) -> Seq<
    (Seq<char>, JsonView),
> {
    seq![
        ("model"@, JsonView::Text(req.model)),
        ("input"@, JsonView::Array(typed_items(input))),
        ("stream"@, JsonView::Bool(is_streaming(req))),
        ("store"@, JsonView::Bool(false)),
        ("parallel_tool_calls"@, JsonView::Bool(true)),
        ("include"@, JsonView::Array(seq![JsonView::Text("reasoning.encrypted_content"@)])),
        ("reasoning"@, reasoning_settings(req)),
        ("text"@, text_settings(req)),
    ]
}

/// An entry, where there is a value for it.
pub open spec fn entry_for(key: Seq<char>, value: Option<JsonView>) -> Seq<(Seq<char>, JsonView)> {
    match value {
        Some(value) => seq![(key, value)],
        None => Seq::empty(),
    }
}

/// How summaries of reasoning are streamed.
pub open spec fn stream_options(req: ConversationRequestView) -> Option<JsonView> {
    if is_streaming(req) {
        Some(
            JsonView::Object(
                seq![("reasoning_summary_delivery"@, JsonView::Text("sequential_cutoff"@))],
            ),
        )
    } else {
        None
    }
}

/// A text that is there and not empty, as a value.
pub open spec fn filled_text(content: Option<Seq<char>>) -> Option<JsonView> {
    match content {
        Some(content) if content.len() != 0 => Some(JsonView::Text(content)),
        _ => None,
    }
}

/// The limit on the tokens of the answer.
pub open spec fn token_limit(req: ConversationRequestView) -> Option<JsonView> {
    match req.max_tokens {
        Some(n) => Some(JsonView::Number(text::decimal_text(n as nat), Some(n as u64))),
        None => None,
    }
}

/// The tools, where any is offered, and which of them the model is to use.
pub open spec fn tool_entries(req: ConversationRequestView) -> Seq<(Seq<char>, JsonView)> {
    if offered_tools(req).len() != 0 {
        seq![
            ("tools"@, JsonView::Array(offered_tools(req))),
            (
                "tool_choice"@,
                match req.tool_choice {
                    Some(choice) => choice,
                    None => JsonView::Text("auto"@),
                },
            ),
        ]
    } else {
        Seq::empty()
    }
}

/// The entries of a request's body. What the request does not ask for is left out.
pub open spec fn payload_entries(req: ConversationRequestView, input: Seq<JsonView>) -> Seq<
    (Seq<char>, JsonView),
> {
    head_entries(req, input) + entry_for("stream_options"@, stream_options(req)) + entry_for(
        "previous_response_id"@,
        filled_text(req.previous_response_id),
    ) + entry_for("instructions"@, filled_text(Some(instructions_of(req.items)))) + entry_for(
        "temperature"@,
        req.temperature,
    ) + entry_for("max_output_tokens"@, token_limit(req)) + tool_entries(req)
}

/// The body of a request, or why its conversation cannot be sent.
pub open spec fn payload_of(req: ConversationRequestView) -> Result<JsonView, EngineErrorView> {
    match input_of(req.items) {
        Ok(input) => Ok(JsonView::Object(payload_entries(req, input))),
        Err(error) => Err(error),
    }
}

fn make_reasoning_settings(req: &ConversationRequest) -> (settings: Json)
    ensures
        settings.deep_view() == reasoning_settings(req.deep_view()),
{
    let summary = Fields::new().with("summary", Json::text("concise"));
    match &req.reasoning_effort {
        Some(effort) => summary.with("effort", Json::text(effort.as_str())).object(),
        None => summary.object(),
    }
}

fn make_text_settings(req: &ConversationRequest) -> (settings: Json)
    ensures
        settings.deep_view() == text_settings(req.deep_view()),
{
    let verbosity = Fields::new().with("verbosity", Json::text("medium"));
    match &req.response_format {
        Some(format) => verbosity.with("format", format.clone()).object(),
        None => verbosity.object(),
    }
}

fn make_head(req: &ConversationRequest, input: &Vec<Json>, streaming: bool) -> (fields: Fields)
    requires
        streaming == is_streaming(req.deep_view()),
    ensures
        fields.deep_view() == head_entries(req.deep_view(), input.deep_view()),
{
    let mut wanted: Vec<Json> = Vec::new();
    wanted.push(Json::text("reasoning.encrypted_content"));
    assert(wanted.deep_view() =~= seq![JsonView::Text("reasoning.encrypted_content"@)]);
    Fields::new().with("model", Json::text(req.model.as_str())).with(
        "input",
        Json::array(type_items(input)),
    ).with("stream", Json::Bool(streaming)).with("store", Json::Bool(false)).with(
        "parallel_tool_calls",
        Json::Bool(true),
    ).with("include", Json::array(wanted)).with("reasoning", make_reasoning_settings(req)).with(
        "text",
        make_text_settings(req),
    )
}

fn with_value(fields: Fields, key: &str, value: Option<Json>) -> (out: Fields)
    ensures
        out.deep_view() == fields.deep_view() + entry_for(key@, value.deep_view()),
{
    match value {
        Some(value) => fields.with(key, value),
        None => fields,
    }
}

fn make_stream_options(streaming: bool) -> (options: Option<Json>)
    ensures
        options.deep_view() == (if streaming {
            Some(
                JsonView::Object(
                    seq![("reasoning_summary_delivery"@, JsonView::Text("sequential_cutoff"@))],
                ),
            )
        } else {
            None
        }),
{
    if streaming {
        let fields = Fields::new().with(
            "reasoning_summary_delivery",
            Json::text("sequential_cutoff"),
        );
        Some(fields.object())
    } else {
        None
    }
}

fn fill_text(content: &Option<String>) -> (value: Option<Json>)
    ensures
        value.deep_view() == filled_text(content.deep_view()),
{
    match content {
        Some(content) => if content.as_str().is_empty() {
            None
        } else {
            Some(Json::text(content.as_str()))
        },
        None => None,
    }
}

fn with_tools(fields: Fields, req: &ConversationRequest) -> (out: Fields)
    ensures
        out.deep_view() == fields.deep_view() + tool_entries(req.deep_view()),
{
    let tools = offer_tools(req);
    if tools.len() != 0 {
        let choice = match &req.tool_choice {
            Some(choice) => choice.clone(),
            None => Json::text("auto"),
        };
        fields.with("tools", Json::array(tools)).with("tool_choice", choice)
    } else {
        fields
    }
}

/// The body of a request.
pub fn build_responses_payload(req: &ConversationRequest) -> (payload: Result<Json, EngineError>)
    ensures
        error::outcome_of(payload) == payload_of(req.deep_view()),
{
    let draft = match draft_of(&req.items) {
        Ok(draft) => draft,
        Err(error) => {
            return Err(error);
        },
    };
    let streaming = match req.stream {
        Some(stream) => stream,
        None => true,
    };
    let token_limit = match req.max_tokens {
        Some(n) => Some(Json::unsigned(n as u64)),
        None => None,
    };
    let head = make_head(req, &draft.input, streaming);
    let fields = with_value(head, "stream_options", make_stream_options(streaming));
    let fields = with_value(
        fields,
        "previous_response_id",
        fill_text(&req.previous_response_id),
    );
    let fields = with_value(fields, "instructions", fill_text(&Some(draft.instructions)));
    let fields = with_value(fields, "temperature", req.temperature.clone());
    let fields = with_value(fields, "max_output_tokens", token_limit);
    Ok(with_tools(fields, req).object())
}

/// A call of a provider's tool goes back as it was received, and never as a call of
/// the client's.
pub proof fn law_backend_calls_are_sent_verbatim(
    items: Seq<ConversationItemView>,
    call: types::BackendToolCallItemView,
)
    requires
        input_of(items) is Ok,
    ensures
        input_of(items.push(ConversationItemView::BackendToolCall(call))) == Ok::<
            Seq<JsonView>,
            EngineErrorView,
        >(input_of(items)->Ok_0.push(call.payload)),
{
    let all = items.push(ConversationItemView::BackendToolCall(call));
    assert(all.drop_last() =~= items);
    assert(input_of(items)->Ok_0 + seq![call.payload] =~= input_of(items)->Ok_0.push(
        call.payload,
    ));
}

/// A request that offers no tool says nothing of tools.
pub proof fn law_no_tools_no_choice(req: ConversationRequestView)
    requires
        offered_tools(req).len() == 0,
    ensures
        tool_entries(req).len() == 0,
{
}

/// The parts of reasoning in a body that is sent are typed: the body needs no more
/// patching.
pub proof fn law_payload_is_typed(req: ConversationRequestView)
    requires
        input_of(req.items) is Ok,
    ensures
        typed_body(payload_of(req)->Ok_0) == payload_of(req)->Ok_0,
{
    let input = input_of(req.items)->Ok_0;
    let entries = payload_entries(req, input);
    let typed = JsonView::Array(typed_items(input));
    reveal_strlit("model");
    reveal_strlit("input");
    assert("model"@[0] != "input"@[0]);
    reveal_with_fuel(json::lookup, 3);
    assert(typed_items(typed_items(input)) =~= typed_items(input)) by {
        assert forall|i: int| 0 <= i < input.len() implies typed_item(
            #[trigger] typed_items(input)[i],
        ) == typed_items(input)[i] by {
            lemma_typed_item_stays(input[i]);
        }
    }
    lemma_with_same_entry(entries, "input"@, typed);
}

// ── What a body holds ───────────────────────────────────────────────────

proof fn lemma_entry_keys()
    ensures
        "type"@.len() == 4,
        "name"@.len() == 4,
        "type"@[0] == 't',
        "name"@[0] == 'n',
        "role"@.len() == 4,
        "content"@.len() == 7,
        "summary"@.len() == 7,
        "content"@[0] == 'c',
        "summary"@[0] == 's',
        "call_id"@.len() == 7,
        "call_id"@[1] == 'a',
        "content"@[1] == 'o',
        "status"@.len() == 6,
        "action"@.len() == 6,
        "output"@.len() == 6,
        "status"@[0] == 's',
        "action"@[0] == 'a',
        "input"@.len() == 5,
        "arguments"@.len() == 9,
        "encrypted_content"@.len() == 17,
        "id"@.len() == 2,
        "description"@.len() == 11,
        "parameters"@.len() == 10,
        "command"@.len() == 7,
        "verbosity"@.len() == 9,
        "format"@.len() == 6,
        "effort"@.len() == 6,
{
    reveal_strlit("type");
    reveal_strlit("name");
    reveal_strlit("role");
    reveal_strlit("content");
    reveal_strlit("summary");
    reveal_strlit("call_id");
    reveal_strlit("status");
    reveal_strlit("action");
    reveal_strlit("output");
    reveal_strlit("input");
    reveal_strlit("arguments");
    reveal_strlit("encrypted_content");
    reveal_strlit("id");
    reveal_strlit("description");
    reveal_strlit("parameters");
    reveal_strlit("command");
    reveal_strlit("verbosity");
    reveal_strlit("format");
    reveal_strlit("effort");
}

/// A tool call of the model goes back under its own id: a call of the shell with the
/// action that its arguments are, or with the arguments as the command where they are
/// no JSON; a call of a custom tool with its name and its arguments as input; and any
/// other with its name and its arguments.
pub proof fn law_calls_are_sent_whole(call: ToolCallView)
    ensures
        ({
            let entry = call_entry(call);
            let function = call.function;
            if call.kind == "local_shell"@ {
                &&& entry.get("type"@) == Some(JsonView::Text("local_shell_call"@))
                &&& entry.get("call_id"@) == Some(JsonView::Text(call.id))
                &&& entry.get("status"@) == Some(JsonView::Text("completed"@))
                &&& keys_differ(entry->Object_0)
                &&& match json::parsed_text(function.arguments) {
                    Ok(action) => entry.get("action"@) == Some(action),
                    Err(_) => entry.get_in("action"@, "type"@) == Some(JsonView::Text("exec"@))
                        && entry.get_in("action"@, "command"@) == Some(
                        JsonView::Array(seq![JsonView::Text(function.arguments)]),
                    ),
                }
            } else if call.kind == "custom_tool"@ {
                holds_exactly(
                    entry,
                    seq![
                        ("type"@, JsonView::Text("custom_tool_call"@)),
                        ("call_id"@, JsonView::Text(call.id)),
                        ("name"@, JsonView::Text(function.name)),
                        ("input"@, JsonView::Text(function.arguments)),
                    ],
                )
            } else {
                holds_exactly(
                    entry,
                    seq![
                        ("type"@, JsonView::Text("function_call"@)),
                        ("call_id"@, JsonView::Text(call.id)),
                        ("name"@, JsonView::Text(function.name)),
                        ("arguments"@, JsonView::Text(function.wire_arguments)),
                    ],
                )
            }
        }),
{
    lemma_entry_keys();
    let entry = call_entry(call);
    lemma_holds_exactly(entry->Object_0);
    let entries = entry->Object_0;
    assert(entry.get(entries[0].0) == Some(entries[0].1));
    assert(entry.get(entries[1].0) == Some(entries[1].1));
    assert(entry.get(entries[2].0) == Some(entries[2].1));
    assert(entry.get(entries[3].0) == Some(entries[3].1));
    let command = plain_command(call.function.arguments);
    lemma_holds_exactly(command->Object_0);
    assert(command.get(command->Object_0[0].0) == Some(command->Object_0[0].1));
    assert(command.get(command->Object_0[1].0) == Some(command->Object_0[1].1));
}

/// What a tool gave back goes under the id of its call: as it is, or, of a custom tool,
/// as the JSON that it is, where it is JSON.
pub proof fn law_results_are_sent_whole(id: Seq<char>, content: Seq<char>, custom: bool)
    ensures
        holds_exactly(
            result_entry(id, content, custom),
            seq![
                (
                    "type"@,
                    JsonView::Text(
                        if custom {
                            "custom_tool_call_output"@
                        } else {
                            "function_call_output"@
                        },
                    ),
                ),
                ("call_id"@, JsonView::Text(id)),
                (
                    "output"@,
                    if custom && json::parsed_text(content) is Ok {
                        json::parsed_text(content)->Ok_0
                    } else {
                        JsonView::Text(content)
                    },
                ),
            ],
        ),
{
    lemma_entry_keys();
    lemma_holds_exactly(result_entry(id, content, custom)->Object_0);
}

/// Reasoning goes back with its summary, and with its content, its encrypted content
/// and its id where it has them. Its status is not sent.
pub proof fn law_reasoning_is_sent_without_its_status(item: ReasoningItemView)
    ensures
        ({
            let entry = reasoning_entry(item);
            &&& entry.get("type"@) == Some(JsonView::Text("reasoning"@))
            &&& entry.get("summary"@) == Some(JsonView::Array(item.summary))
            &&& entry.get("content"@) == (match item.content {
                Some(content) => Some(JsonView::Array(content)),
                None => None,
            })
            &&& entry.get("encrypted_content"@) == (match item.encrypted_content {
                Some(content) => Some(JsonView::Text(content)),
                None => None,
            })
            &&& entry.get("id"@) == (if item.id.len() > 0 {
                Some(JsonView::Text(item.id))
            } else {
                None
            })
            &&& entry.get("status"@) is None
            &&& keys_differ(entry->Object_0)
        }),
{
    lemma_entry_keys();
    let entry = reasoning_entry(item);
    let entries = entry->Object_0;
    lemma_holds_exactly(entries);
    assert forall|i: int| 0 <= i < entries.len() implies entry.get((#[trigger] entries[i]).0)
        == Some(entries[i].1) by {}
    assert(entries[0].0 == "type"@);
    assert(entries[1].0 == "summary"@);
    let second: int = if item.content is Some {
        3
    } else {
        2
    };
    let third: int = if item.encrypted_content is Some {
        second + 1
    } else {
        second
    };
    if item.content is Some {
        assert(entries[2].0 == "content"@);
    } else {
        json::lemma_lookup_nowhere(entries, "content"@);
    }
    if item.encrypted_content is Some {
        assert(entries[second].0 == "encrypted_content"@);
    } else {
        json::lemma_lookup_nowhere(entries, "encrypted_content"@);
    }
    if item.id.len() > 0 {
        assert(entries[third].0 == "id"@);
    } else {
        json::lemma_lookup_nowhere(entries, "id"@);
    }
    json::lemma_lookup_nowhere(entries, "status"@);
}

/// A message goes under the role of who spoke.
pub proof fn law_messages_have_a_role(role: Seq<char>, content: JsonView)
    ensures
        holds_exactly(
            message_entry(role, content),
            seq![("role"@, JsonView::Text(role)), ("content"@, content)],
        ),
{
    lemma_entry_keys();
    lemma_holds_exactly(message_entry(role, content)->Object_0);
}

/// The last call with this id among some items, if any, was one of a custom tool: a
/// call of that kind was made, and none with the id after it.
pub open spec fn last_was_custom(items: Seq<ConversationItemView>, id: Seq<char>) -> bool {
    exists|i: int, k: int|
        {
            &&& 0 <= i < items.len()
            &&& #[trigger] made_call(items, i, k, id)
            &&& items[i]->Assistant_0.tool_calls[k].kind == "custom_tool"@
            &&& forall|j: int, l: int|
                0 <= j < items.len() && (j > i || (j == i && l > k)) ==> !#[trigger] made_call(
                    items,
                    j,
                    l,
                    id,
                )
        }
}

/// The call of this number in the item of this number has the id.
pub open spec fn made_call(items: Seq<ConversationItemView>, i: int, k: int, id: Seq<char>) -> bool {
    &&& items[i] is Assistant
    &&& 0 <= k < items[i]->Assistant_0.tool_calls.len()
    &&& items[i]->Assistant_0.tool_calls[k].id == id
}

proof fn lemma_kind_behind(
    front: Seq<(Seq<char>, Seq<char>)>,
    back: Seq<(Seq<char>, Seq<char>)>,
    id: Seq<char>,
)
    ensures
        kind_of(front + back, id) == (match kind_of(back, id) {
            Some(kind) => Some(kind),
            None => kind_of(front, id),
        }),
    decreases back.len(),
{
    let all = front + back;
    if back.len() == 0 {
        assert(all =~= front);
    } else {
        assert(all.last() == back.last());
        assert(all.drop_last() =~= front + back.drop_last());
        lemma_kind_behind(front, back.drop_last(), id);
    }
}

proof fn lemma_kind_is_the_last(calls: Seq<(Seq<char>, Seq<char>)>, id: Seq<char>)
    ensures
        match kind_of(calls, id) {
            Some(kind) => exists|k: int|
                {
                    &&& 0 <= k < calls.len()
                    &&& #[trigger] calls[k] == (id, kind)
                    &&& forall|l: int| k < l < calls.len() ==> (#[trigger] calls[l]).0 != id
                },
            None => forall|l: int| 0 <= l < calls.len() ==> (#[trigger] calls[l]).0 != id,
        },
    decreases calls.len(),
{
    if calls.len() > 0 {
        let front = calls.drop_last();
        let n = calls.len() - 1;
        if calls.last().0 == id {
            assert(calls[n] == (id, kind_of(calls, id).unwrap()));
        } else {
            lemma_kind_is_the_last(front, id);
            match kind_of(front, id) {
                Some(kind) => {
                    let k = choose|k: int|
                        {
                            &&& 0 <= k < front.len()
                            &&& #[trigger] front[k] == (id, kind)
                            &&& forall|l: int|
                                k < l < front.len() ==> (#[trigger] front[l]).0 != id
                        };
                    assert(calls[k] == (id, kind));
                    assert forall|l: int| k < l < calls.len() implies (#[trigger] calls[l]).0
                        != id by {
                        if l < n {
                            assert(front[l] == calls[l]);
                        }
                    }
                },
                None => {
                    assert forall|l: int| 0 <= l < calls.len() implies (#[trigger] calls[l]).0
                        != id by {
                        if l < n {
                            assert(front[l] == calls[l]);
                        }
                    }
                },
            }
        }
    }
}

proof fn lemma_custom_by_the_last_call(items: Seq<ConversationItemView>, id: Seq<char>)
    ensures
        kind_of(calls_of(items), id) == Some("custom_tool"@) <==> last_was_custom(items, id),
        kind_of(calls_of(items), id) is None <==> forall|i: int, k: int|
            0 <= i < items.len() ==> !#[trigger] made_call(items, i, k, id),
    decreases items.len(),
{
    if items.len() > 0 {
        let front = items.drop_last();
        let n = items.len() - 1;
        lemma_custom_by_the_last_call(front, id);
        assert forall|i: int, k: int| 0 <= i < n implies #[trigger] made_call(items, i, k, id)
            == made_call(front, i, k, id) by {
            assert(items[i] == front[i]);
        }
        let made = match items.last() {
            ConversationItemView::Assistant(message) => message.tool_calls.map_values(
                |call: ToolCallView| (call.id, call.kind),
            ),
            _ => Seq::empty(),
        };
        assert(calls_of(items) =~= calls_of(front) + made);
        lemma_kind_behind(calls_of(front), made, id);
        lemma_kind_is_the_last(made, id);
        assert forall|k: int| #[trigger] made_call(items, n, k, id) == (0 <= k < made.len()
            && made[k].0 == id) by {}
        match kind_of(made, id) {
            Some(kind) => {
                let k = choose|k: int|
                    {
                        &&& 0 <= k < made.len()
                        &&& #[trigger] made[k] == (id, kind)
                        &&& forall|l: int| k < l < made.len() ==> (#[trigger] made[l]).0 != id
                    };
                assert(made_call(items, n, k, id));
                assert forall|j: int, l: int|
                    0 <= j < items.len() && (j > n || (j == n && l > k)) implies !#[trigger]
                made_call(items, j, l, id) by {
                    if l < made.len() {
                        assert(made[l].0 != id);
                    }
                }
                assert(items[n]->Assistant_0.tool_calls[k].kind == kind);
                if last_was_custom(items, id) {
                    let (i2, k2) = choose|i: int, k: int|
                        {
                            &&& 0 <= i < items.len()
                            &&& #[trigger] made_call(items, i, k, id)
                            &&& items[i]->Assistant_0.tool_calls[k].kind == "custom_tool"@
                            &&& forall|j: int, l: int|
                                0 <= j < items.len() && (j > i || (j == i && l > k))
                                    ==> !#[trigger] made_call(items, j, l, id)
                        };
                    assert(i2 == n && k2 == k);
                }
            },
            None => {
                assert forall|k: int| !#[trigger] made_call(items, n, k, id) by {
                    if 0 <= k < made.len() {
                        assert(made[k].0 != id);
                    }
                }
                if last_was_custom(front, id) {
                    let (i2, k2) = choose|i: int, k: int|
                        {
                            &&& 0 <= i < front.len()
                            &&& #[trigger] made_call(front, i, k, id)
                            &&& front[i]->Assistant_0.tool_calls[k].kind == "custom_tool"@
                            &&& forall|j: int, l: int|
                                0 <= j < front.len() && (j > i || (j == i && l > k))
                                    ==> !#[trigger] made_call(front, j, l, id)
                        };
                    assert(made_call(items, i2, k2, id));
                    assert forall|j: int, l: int|
                        0 <= j < items.len() && (j > i2 || (j == i2 && l > k2)) implies !#[trigger]
                    made_call(items, j, l, id) by {
                        if j < n {
                            assert(!made_call(front, j, l, id));
                        }
                    }
                }
                if last_was_custom(items, id) {
                    let (i2, k2) = choose|i: int, k: int|
                        {
                            &&& 0 <= i < items.len()
                            &&& #[trigger] made_call(items, i, k, id)
                            &&& items[i]->Assistant_0.tool_calls[k].kind == "custom_tool"@
                            &&& forall|j: int, l: int|
                                0 <= j < items.len() && (j > i || (j == i && l > k))
                                    ==> !#[trigger] made_call(items, j, l, id)
                        };
                    assert(made_call(front, i2, k2, id));
                    assert forall|j: int, l: int|
                        0 <= j < front.len() && (j > i2 || (j == i2 && l > k2)) implies !#[trigger]
                    made_call(front, j, l, id) by {
                        assert(!made_call(items, j, l, id));
                    }
                }
                if exists|i: int, k: int| 0 <= i < n && #[trigger] made_call(front, i, k, id) {
                    let (i2, k2) = choose|i: int, k: int|
                        0 <= i < n && #[trigger] made_call(front, i, k, id);
                    assert(made_call(items, i2, k2, id));
                }
            },
        }
    }
}

/// What is sent of a conversation with one more item is what was sent without it, and
/// the item behind it: nothing for instructions; one message of the user, with the
/// content it comes to; one of the model where it says anything, and behind it an entry
/// for each of its calls, in order; one entry for reasoning, and one for a result,
/// which is one of a custom tool where its call was; and a call that the provider ran
/// as it is.
pub proof fn law_conversations_are_sent_item_by_item(
    items: Seq<ConversationItemView>,
    item: ConversationItemView,
)
    requires
        input_of(items) is Ok,
    ensures
        ({
            let before = input_of(items)->Ok_0;
            let sent = input_of(items.push(item));
            let added = sent->Ok_0.skip(before.len() as int);
            match item {
                ConversationItemView::User(user) => match user.content {
                    UserContentView::Unsendable(error) => sent == Err::<
                        Seq<JsonView>,
                        EngineErrorView,
                    >(error),
                    UserContentView::Ready(content) => sent is Ok && sent->Ok_0 == before + added
                        && added.len() == 1 && holds_exactly(
                        added[0],
                        seq![("role"@, JsonView::Text("user"@)), ("content"@, content)],
                    ),
                },
                _ => {
                    &&& sent is Ok
                    &&& sent->Ok_0 == before + added
                    &&& match item {
                        ConversationItemView::System(_) => added.len() == 0,
                        ConversationItemView::Reasoning(reasoning) => added == seq![
                            reasoning_entry(reasoning),
                        ],
                        ConversationItemView::BackendToolCall(call) => added == seq![call.payload],
                        ConversationItemView::ToolResult(result) => added == seq![
                            result_entry(
                                result.tool_call_id,
                                result.content,
                                last_was_custom(items, result.tool_call_id),
                            ),
                        ],
                        ConversationItemView::Assistant(message) => {
                            let n: int = if message.content.len() > 0 {
                                1
                            } else {
                                0
                            };
                            &&& added.len() == n + message.tool_calls.len()
                            &&& n == 1 ==> holds_exactly(
                                added[0],
                                seq![
                                    ("role"@, JsonView::Text("assistant"@)),
                                    ("content"@, JsonView::Text(message.content)),
                                ],
                            )
                            &&& forall|i: int|
                                0 <= i < message.tool_calls.len() ==> added[n + i] == call_entry(
                                    #[trigger] message.tool_calls[i],
                                )
                        },
                        _ => true,
                    }
                },
            }
        }),
{
    let before = input_of(items)->Ok_0;
    let all = items.push(item);
    assert(all.drop_last() =~= items);
    match item_entries(item, calls_of(items)) {
        Ok(entries) => {
            assert((before + entries).skip(before.len() as int) =~= entries);
        },
        Err(_) => {},
    }
    match item {
        ConversationItemView::ToolResult(result) => {
            lemma_custom_by_the_last_call(items, result.tool_call_id);
        },
        ConversationItemView::Assistant(message) => {
            law_messages_have_a_role("assistant"@, JsonView::Text(message.content));
        },
        ConversationItemView::User(user) => {
            if let UserContentView::Ready(content) = user.content {
                law_messages_have_a_role("user"@, content);
            }
        },
        _ => {},
    }
}

/// Nothing is sent of an empty conversation, and a conversation that cannot be sent
/// cannot be sent with more behind it either, for the same reason.
pub proof fn law_unsendable_conversations_stay_so(
    items: Seq<ConversationItemView>,
    item: ConversationItemView,
)
    ensures
        input_of(Seq::empty()) == Ok::<Seq<JsonView>, EngineErrorView>(Seq::empty()),
        input_of(items) is Err ==> input_of(items.push(item)) == input_of(items),
{
    assert(items.push(item).drop_last() =~= items);
}

/// The instructions of a conversation are those of its items, one behind the other with
/// an empty line between them. What is no instruction adds none.
pub proof fn law_instructions_are_joined(
    items: Seq<ConversationItemView>,
    item: ConversationItemView,
)
    ensures
        instructions_of(Seq::empty()).len() == 0,
        ({
            let before = instructions_of(items);
            match item {
                ConversationItemView::System(system) => instructions_of(items.push(item)) == (
                if before.len() == 0 {
                    system.content
                } else {
                    before + seq!['\n', '\n'] + system.content
                }),
                _ => instructions_of(items.push(item)) == before,
            }
        }),
{
    assert(items.push(item).drop_last() =~= items);
    reveal_strlit("\n\n");
    assert("\n\n"@ =~= seq!['\n', '\n']);
}

/// The tools of a request that no hosted tool has the name of.
pub open spec fn tools_of_its_own(req: ConversationRequestView) -> Seq<ToolDefinitionView> {
    match req.tools {
        Some(tools) => tools.filter(
            |tool: ToolDefinitionView| client::is_own(tool, req.hosted_tools),
        ),
        None => Seq::empty(),
    }
}

/// A body offers the tools that the provider hosts, each as its own entry, and behind
/// them the client's own that none of those has the name of. Of each of these it gives
/// the name, the description and the parameters, exactly as they were defined.
pub proof fn law_own_tools_are_offered_as_defined(req: ConversationRequestView)
    ensures
        ({
            let offered = offered_tools(req);
            let hosted = req.hosted_tools;
            let own = tools_of_its_own(req);
            &&& offered.len() == hosted.len() + own.len()
            &&& forall|i: int| 0 <= i < hosted.len() ==> #[trigger] offered[i] == hosted[i].entry
            &&& forall|i: int|
                0 <= i < own.len() ==> holds_exactly(
                    offered[hosted.len() + i],
                    seq![
                        ("type"@, JsonView::Text("function"@)),
                        ("name"@, JsonView::Text((#[trigger] own[i]).function.name)),
                        ("description"@, JsonView::Text(own[i].function.description)),
                        ("parameters"@, own[i].function.parameters),
                    ],
                )
        }),
{
    lemma_entry_keys();
    let hosted = req.hosted_tools;
    if let Some(tools) = req.tools {
        client::law_own_tools_stay_as_they_are(tools, hosted);
        let own = tools_of_its_own(req);
        assert forall|i: int| 0 <= i < own.len() implies holds_exactly(
            offered_tools(req)[hosted.len() + i],
            seq![
                ("type"@, JsonView::Text("function"@)),
                ("name"@, JsonView::Text((#[trigger] own[i]).function.name)),
                ("description"@, JsonView::Text(own[i].function.description)),
                ("parameters"@, own[i].function.parameters),
            ],
        ) by {
            lemma_holds_exactly(function_entry(own[i])->Object_0);
        }
    }
}

proof fn lemma_body_keys()
    ensures
        "model"@.len() == 5 && "model"@[0] == 'm',
        "input"@.len() == 5 && "input"@[0] == 'i',
        "store"@.len() == 5 && "store"@[0] == 's',
        "tools"@.len() == 5 && "tools"@[0] == 't',
        "stream"@.len() == 6,
        "parallel_tool_calls"@.len() == 19,
        "include"@.len() == 7,
        "reasoning"@.len() == 9,
        "text"@.len() == 4,
        "stream_options"@.len() == 14,
        "previous_response_id"@.len() == 20,
        "instructions"@.len() == 12,
        "temperature"@.len() == 11 && "temperature"@[1] == 'e',
        "tool_choice"@.len() == 11 && "tool_choice"@[1] == 'o',
        "max_output_tokens"@.len() == 17,
{
    reveal_strlit("model");
    reveal_strlit("input");
    reveal_strlit("store");
    reveal_strlit("tools");
    reveal_strlit("stream");
    reveal_strlit("parallel_tool_calls");
    reveal_strlit("include");
    reveal_strlit("reasoning");
    reveal_strlit("text");
    reveal_strlit("stream_options");
    reveal_strlit("previous_response_id");
    reveal_strlit("instructions");
    reveal_strlit("temperature");
    reveal_strlit("tool_choice");
    reveal_strlit("max_output_tokens");
}

proof fn lemma_lookup_in_body(req: ConversationRequestView, input: Seq<JsonView>, key: Seq<char>)
    ensures
        json::lookup(payload_entries(req, input), key) == (if json::lookup(
            head_entries(req, input),
            key,
        ) is Some {
            json::lookup(head_entries(req, input), key)
        } else if key == "stream_options"@ {
            stream_options(req)
        } else if key == "previous_response_id"@ {
            filled_text(req.previous_response_id)
        } else if key == "instructions"@ {
            filled_text(Some(instructions_of(req.items)))
        } else if key == "temperature"@ {
            req.temperature
        } else if key == "max_output_tokens"@ {
            token_limit(req)
        } else {
            json::lookup(tool_entries(req), key)
        }),
{
    lemma_body_keys();
    let a = head_entries(req, input);
    let b = entry_for("stream_options"@, stream_options(req));
    let c = entry_for("previous_response_id"@, filled_text(req.previous_response_id));
    let d = entry_for("instructions"@, filled_text(Some(instructions_of(req.items))));
    let e = entry_for("temperature"@, req.temperature);
    let f = entry_for("max_output_tokens"@, token_limit(req));
    let g = tool_entries(req);
    json::lemma_lookup_joined(a + b + c + d + e + f, g, key);
    json::lemma_lookup_joined(a + b + c + d + e, f, key);
    json::lemma_lookup_joined(a + b + c + d, e, key);
    json::lemma_lookup_joined(a + b + c, d, key);
    json::lemma_lookup_joined(a + b, c, key);
    json::lemma_lookup_joined(a, b, key);
    lemma_lookup_one("stream_options"@, stream_options(req), key);
    lemma_lookup_one("previous_response_id"@, filled_text(req.previous_response_id), key);
    lemma_lookup_one("instructions"@, filled_text(Some(instructions_of(req.items))), key);
    lemma_lookup_one("temperature"@, req.temperature, key);
    lemma_lookup_one("max_output_tokens"@, token_limit(req), key);
    if key == "stream_options"@ || key == "previous_response_id"@ || key == "instructions"@ || key
        == "temperature"@ || key == "max_output_tokens"@ {
        json::lemma_lookup_nowhere(g, key);
    }
}

proof fn lemma_lookup_one(key: Seq<char>, value: Option<JsonView>, asked: Seq<char>)
    ensures
        json::lookup(entry_for(key, value), asked) == (if asked == key {
            value
        } else {
            None
        }),
{
    let entries = entry_for(key, value);
    if value is Some && asked == key {
        json::lemma_lookup_at(entries, 0);
    } else {
        json::lemma_lookup_nowhere(entries, asked);
    }
}

/// A body asks for what the request asks for: its model, its conversation, a stream
/// unless it wants none, its effort of reasoning, its format, its temperature, its
/// limit, its instructions, the response to go on from, its tools and which of them to
/// use. What the request leaves open is not in the body, but that the model may choose
/// its tools.
pub proof fn law_bodies_ask_for_what_was_asked(req: ConversationRequestView)
    requires
        input_of(req.items) is Ok,
    ensures
        ({
            let body = payload_of(req)->Ok_0;
            let input = input_of(req.items)->Ok_0;
            let streams = req.stream != Some(false);
            &&& payload_of(req) is Ok
            &&& body.get("model"@) == Some(JsonView::Text(req.model))
            &&& body.get("input"@) matches Some(JsonView::Array(sent)) && {
                &&& sent.len() == input.len()
                &&& forall|i: int|
                    0 <= i < input.len() ==> item_was_typed(input[i], #[trigger] sent[i])
            }
            &&& body.get("stream"@) == Some(JsonView::Bool(streams))
            &&& body.get("store"@) == Some(JsonView::Bool(false))
            &&& body.get("parallel_tool_calls"@) == Some(JsonView::Bool(true))
            &&& body.get("include"@) == Some(
                JsonView::Array(seq![JsonView::Text("reasoning.encrypted_content"@)]),
            )
            &&& body.get_in("reasoning"@, "summary"@) == Some(JsonView::Text("concise"@))
            &&& body.get_in("reasoning"@, "effort"@) == (match req.reasoning_effort {
                Some(effort) => Some(JsonView::Text(effort)),
                None => None,
            })
            &&& body.get_in("text"@, "verbosity"@) == Some(JsonView::Text("medium"@))
            &&& body.get_in("text"@, "format"@) == req.response_format
            &&& body.get("stream_options"@) is Some <==> streams
            &&& streams ==> body.get_in("stream_options"@, "reasoning_summary_delivery"@) == Some(
                JsonView::Text("sequential_cutoff"@),
            )
            &&& body.get("previous_response_id"@) == (match req.previous_response_id {
                Some(id) => if id.len() > 0 {
                    Some(JsonView::Text(id))
                } else {
                    None
                },
                None => None,
            })
            &&& body.get("instructions"@) == (if instructions_of(req.items).len() > 0 {
                Some(JsonView::Text(instructions_of(req.items)))
            } else {
                None
            })
            &&& body.get("temperature"@) == req.temperature
            &&& body.get("max_output_tokens"@) == (match req.max_tokens {
                Some(n) => Some(JsonView::Number(text::decimal_text(n as nat), Some(n as u64))),
                None => None,
            })
            &&& body.get("tools"@) == (if offered_tools(req).len() > 0 {
                Some(JsonView::Array(offered_tools(req)))
            } else {
                None
            })
            &&& body.get("tool_choice"@) == (if offered_tools(req).len() == 0 {
                None
            } else if req.tool_choice is Some {
                req.tool_choice
            } else {
                Some(JsonView::Text("auto"@))
            })
        }),
{
    lemma_body_keys();
    lemma_entry_keys();
    reveal_strlit("reasoning_summary_delivery");
    let input = input_of(req.items)->Ok_0;
    let body = payload_of(req)->Ok_0;
    let head = head_entries(req, input);
    lemma_holds_exactly(head);
    json::lemma_object_holds(head);
    assert forall|i: int| 0 <= i < head.len() implies json::lookup(
        head,
        (#[trigger] head[i]).0,
    ) == Some(head[i].1) by {
        assert(JsonView::Object(head).get(head[i].0) == Some(head[i].1));
    }
    assert(head[0].0 == "model"@ && head[1].0 == "input"@ && head[2].0 == "stream"@ && head[3].0
        == "store"@ && head[4].0 == "parallel_tool_calls"@ && head[5].0 == "include"@ && head[6].0
        == "reasoning"@ && head[7].0 == "text"@);
    lemma_lookup_in_body(req, input, "model"@);
    lemma_lookup_in_body(req, input, "input"@);
    lemma_lookup_in_body(req, input, "stream"@);
    lemma_lookup_in_body(req, input, "store"@);
    lemma_lookup_in_body(req, input, "parallel_tool_calls"@);
    lemma_lookup_in_body(req, input, "include"@);
    lemma_lookup_in_body(req, input, "reasoning"@);
    lemma_lookup_in_body(req, input, "text"@);
    json::lemma_lookup_nowhere(head, "stream_options"@);
    json::lemma_lookup_nowhere(head, "previous_response_id"@);
    json::lemma_lookup_nowhere(head, "instructions"@);
    json::lemma_lookup_nowhere(head, "temperature"@);
    json::lemma_lookup_nowhere(head, "max_output_tokens"@);
    json::lemma_lookup_nowhere(head, "tools"@);
    json::lemma_lookup_nowhere(head, "tool_choice"@);
    lemma_lookup_in_body(req, input, "stream_options"@);
    lemma_lookup_in_body(req, input, "previous_response_id"@);
    lemma_lookup_in_body(req, input, "instructions"@);
    lemma_lookup_in_body(req, input, "temperature"@);
    lemma_lookup_in_body(req, input, "max_output_tokens"@);
    lemma_lookup_in_body(req, input, "tools"@);
    lemma_lookup_in_body(req, input, "tool_choice"@);
    let tools = tool_entries(req);
    if tools.len() > 0 {
        json::lemma_lookup_at(tools, 0);
        json::lemma_lookup_at(tools, 1);
    } else {
        json::lemma_lookup_nowhere(tools, "tools"@);
        json::lemma_lookup_nowhere(tools, "tool_choice"@);
    }
    let reasoning = reasoning_settings(req)->Object_0;
    json::lemma_lookup_at(reasoning, 0);
    if req.reasoning_effort is Some {
        json::lemma_lookup_at(reasoning, 1);
    } else {
        json::lemma_lookup_nowhere(reasoning, "effort"@);
    }
    let text = text_settings(req)->Object_0;
    json::lemma_lookup_at(text, 0);
    if req.response_format is Some {
        json::lemma_lookup_at(text, 1);
    } else {
        json::lemma_lookup_nowhere(text, "format"@);
    }
    if is_streaming(req) {
        json::lemma_lookup_at(stream_options(req).unwrap()->Object_0, 0);
    }
    let sent = typed_items(input);
    assert forall|i: int| 0 <= i < input.len() implies item_was_typed(
        input[i],
        #[trigger] sent[i],
    ) by {
        lemma_typed_item(input[i]);
    }
}

/// A request has a body if and only if its conversation can be sent; otherwise the
/// error tells why it cannot.
pub proof fn law_bodies_need_a_sendable_conversation(req: ConversationRequestView)
    ensures
        payload_of(req) is Ok <==> input_of(req.items) is Ok,
        input_of(req.items) matches Err(error) ==> payload_of(req) == Err::<
            JsonView,
            EngineErrorView,
        >(error),
{
}

/// The keys that a body may have.
pub open spec fn is_body_key(key: Seq<char>) -> bool {
    key == "model"@ || key == "input"@ || key == "stream"@ || key == "store"@ || key
        == "parallel_tool_calls"@ || key == "include"@ || key == "reasoning"@ || key == "text"@
        || key == "stream_options"@ || key == "previous_response_id"@ || key == "instructions"@
        || key == "temperature"@ || key == "max_output_tokens"@ || key == "tools"@ || key
        == "tool_choice"@
}

/// A body says each thing once, and nothing beyond what a request can ask for.
pub proof fn law_bodies_say_each_thing_once(req: ConversationRequestView)
    requires
        input_of(req.items) is Ok,
    ensures
        payload_of(req)->Ok_0 is Object,
        keys_differ(payload_of(req)->Ok_0->Object_0),
        forall|key: Seq<char>|
            (#[trigger] payload_of(req)->Ok_0.get(key)) is Some ==> is_body_key(key),
{
    lemma_body_keys();
    let input = input_of(req.items)->Ok_0;
    let a = head_entries(req, input);
    let b = entry_for("stream_options"@, stream_options(req));
    let c = entry_for("previous_response_id"@, filled_text(req.previous_response_id));
    let d = entry_for("instructions"@, filled_text(Some(instructions_of(req.items))));
    let e = entry_for("temperature"@, req.temperature);
    let f = entry_for("max_output_tokens"@, token_limit(req));
    let g = tool_entries(req);
    assert(keys_differ(a));
    assert(keys_differ(a + b));
    assert(keys_differ(a + b + c));
    assert(keys_differ(a + b + c + d));
    assert(keys_differ(a + b + c + d + e));
    assert(keys_differ(a + b + c + d + e + f));
    assert(keys_differ(a + b + c + d + e + f + g));
    let all = payload_entries(req, input);
    assert forall|key: Seq<char>|
        (#[trigger] payload_of(req)->Ok_0.get(key)) is Some implies is_body_key(key) by {
        assert forall|i: int| 0 <= i < all.len() implies is_body_key((#[trigger] all[i]).0) by {}
        if !is_body_key(key) {
            json::lemma_lookup_nowhere(all, key);
        }
    }
}

/// One of the entries offers the tool as it was defined.
pub open spec fn offers(offered: Seq<JsonView>, tool: ToolDefinitionView) -> bool {
    exists|j: int|
        {
            &&& 0 <= j < offered.len()
            &&& (#[trigger] offered[j]).get("name"@) == Some(JsonView::Text(tool.function.name))
            &&& offered[j].get("description"@) == Some(JsonView::Text(tool.function.description))
            &&& offered[j].get("parameters"@) == Some(tool.function.parameters)
        }
}

/// Every tool of the client's own that no hosted tool has the name of is offered in the
/// body with its name, its description and its parameters.
pub proof fn law_bodies_offer_tools_as_defined(
    req: ConversationRequest,
    payload: Result<Json, EngineError>,
    i: int,
)
    requires
        call_ensures(build_responses_payload, (&req,), payload),
        payload is Ok,
        req.deep_view().tools matches Some(tools) && 0 <= i < tools.len() && client::is_own(
            tools[i],
            req.deep_view().hosted_tools,
        ),
    ensures
        ({
            let tool = req.deep_view().tools.unwrap()[i];
            payload->Ok_0.deep_view().get("tools"@) matches Some(JsonView::Array(offered))
                && offers(offered, tool)
        }),
{
    let asked = req.deep_view();
    let hosted = asked.hosted_tools;
    let tools = asked.tools.unwrap();
    let tool = tools[i];
    let own = tools_of_its_own(asked);
    assert(error::outcome_of(payload) == payload_of(asked));
    law_bodies_ask_for_what_was_asked(asked);
    law_own_tools_are_offered_as_defined(asked);
    tools.lemma_filter_contains(
        |tool: ToolDefinitionView| client::is_own(tool, asked.hosted_tools),
        i,
    );
    let k = choose|k: int| 0 <= k < own.len() && own[k] == tool;
    assert(own[k] == tool);
    let offered = offered_tools(asked);
    let entries = seq![
        ("type"@, JsonView::Text("function"@)),
        ("name"@, JsonView::Text(own[k].function.name)),
        ("description"@, JsonView::Text(own[k].function.description)),
        ("parameters"@, own[k].function.parameters),
    ];
    assert(holds_exactly(offered[hosted.len() + k], entries));
    assert(entries[1].0 == "name"@ && entries[2].0 == "description"@ && entries[3].0
        == "parameters"@);
    let j = hosted.len() + k;
    assert(offered[j].get(entries[1].0) == Some(entries[1].1));
    assert(offered[j].get(entries[2].0) == Some(entries[2].1));
    assert(offered[j].get(entries[3].0) == Some(entries[3].1));
    assert(offers(offered, tool));
}

} // verus!
