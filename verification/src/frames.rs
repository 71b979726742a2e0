//! The frames in which the Responses API answers.
use vstd::prelude::*;

use crate::error;
use crate::error::{EngineError, EngineErrorView};
use crate::json;
use crate::json::{parse_json, write_json, Json, JsonView};
use crate::text;
use crate::text::{contains, lowercase, starts_with, str_eq, trim};
use crate::types;
use crate::types::{
    ChatChunkChoice, ChatChunkChoiceView, ChatChunkDelta, ChatChunkDeltaView, ChatCompletionChunk,
    ChatCompletionChunkView, OutputItemWire, OutputItemWireView, ReasoningItem, ReasoningItemView,
    ToolCallDelta, ToolCallDeltaView, ToolCallFunctionDelta, ToolCallFunctionDeltaView, Usage,
    UsageView,
};

verus! {

// ── Reading values ──────────────────────────────────────────────────────

/// The number among optional values.
pub open spec fn number_in(value: Option<JsonView>) -> Option<u64> {
    match value {
        Some(value) => value.as_u64(),
        None => None,
    }
}

/// The items of an array among optional values.
pub open spec fn array_in(value: Option<JsonView>) -> Option<Seq<JsonView>> {
    match value {
        Some(value) => value.as_array(),
        None => None,
    }
}

/// The lower 32 bits of a number, 0 where there is none.
pub open spec fn low_bits(number: Option<u64>) -> u32 {
    match number {
        Some(n) => (n as int % 0x1_0000_0000) as u32,
        None => 0,
    }
}

/// The value under the first of two keys, or else under the second.
pub open spec fn either(value: JsonView, first: Seq<char>, second: Seq<char>) -> Option<JsonView> {
    json::or_else(value.get(first), value.get(second))
}

/// A text, empty where there is none.
pub open spec fn or_empty(content: Option<Seq<char>>) -> Seq<char> {
    match content {
        Some(content) => content,
        None => ""@,
    }
}

/// A text that is not empty.
pub open spec fn nonempty(content: Option<Seq<char>>) -> Option<Seq<char>> {
    match content {
        Some(content) if content.len() != 0 => Some(content),
        _ => None,
    }
}

fn pick<'a>(first: Option<&'a Json>, second: Option<&'a Json>) -> (value: Option<&'a Json>)
    ensures
        value.deep_view() == json::or_else(first.deep_view(), second.deep_view()),
{
    match first {
        Some(value) => Some(value),
        None => second,
    }
}

fn text_from(value: Option<&Json>) -> (content: Option<String>)
    ensures
        content.deep_view() == json::text_in(value.deep_view()),
{
    match value {
        Some(value) => match value.as_text() {
            Some(content) => Some(content.to_owned()),
            None => None,
        },
        None => None,
    }
}

fn low_bits_from(value: Option<&Json>) -> (n: u32)
    ensures
        n == low_bits(number_in(value.deep_view())),
{
    match value {
        Some(value) => match value.as_u64() {
            Some(n) => (n % 0x1_0000_0000) as u32,
            None => 0,
        },
        None => 0,
    }
}

fn array_from<'a>(value: Option<&'a Json>) -> (items: Option<&'a Vec<Json>>)
    ensures
        items.deep_view() == array_in(value.deep_view()),
{
    match value {
        Some(value) => value.as_array(),
        None => None,
    }
}

fn text_or_empty(content: Option<String>) -> (text: String)
    ensures
        text@ == or_empty(content.deep_view()),
{
    match content {
        Some(content) => content,
        None => "".to_owned(),
    }
}

fn keep_nonempty(content: Option<String>) -> (kept: Option<String>)
    ensures
        kept.deep_view() == nonempty(content.deep_view()),
{
    match content {
        Some(content) => if content.as_str().is_empty() {
            None
        } else {
            Some(content)
        },
        None => None,
    }
}

/// Where in the output an event belongs.
pub open spec fn output_index(v: JsonView) -> u32 {
    low_bits(number_in(either(v, "output_index"@, "index"@)))
}

/// Where in the output an event belongs.
pub fn output_index_of(v: &Json) -> (index: u32)
    ensures
        index == output_index(v.deep_view()),
{
    low_bits_from(pick(v.get("output_index"), v.get("index")))
}

/// The text under a key, where it is not empty.
pub fn opt_nonzero_str(v: &Json, key: &str) -> (content: Option<String>)
    ensures
        content.deep_view() == nonempty(json::text_in(v.deep_view().get(key@))),
{
    keep_nonempty(text_from(v.get(key)))
}

/// A value as arguments: a text as it is, anything else as JSON.
pub open spec fn arguments_text(value: JsonView) -> Seq<char> {
    match value {
        JsonView::Text(content) => content,
        other => json::text_of(other),
    }
}

/// A value as arguments.
pub fn json_to_arg_string(value: &Json) -> (arguments: String)
    ensures
        arguments@ == arguments_text(value.deep_view()),
{
    match value {
        Json::Text(content) => content.clone(),
        other => write_json(other),
    }
}

/// An optional value as arguments.
pub open spec fn arguments_in(value: Option<JsonView>) -> Option<Seq<char>> {
    match value {
        Some(value) => Some(arguments_text(value)),
        None => None,
    }
}

fn arguments_from(value: Option<&Json>) -> (arguments: Option<String>)
    ensures
        arguments.deep_view() == arguments_in(value.deep_view()),
{
    match value {
        Some(value) => Some(json_to_arg_string(value)),
        None => None,
    }
}

/// The arguments of a function call, where it has any.
pub fn function_call_arg_string(item: &Json) -> (arguments: Option<String>)
    ensures
        arguments.deep_view() == nonempty(
            arguments_in(either(item.deep_view(), "arguments"@, "input"@)),
        ),
{
    keep_nonempty(arguments_from(pick(item.get("arguments"), item.get("input"))))
}

// ── Tool calls in frames ────────────────────────────────────────────────

/// What a frame adds to a tool call.
pub open spec fn call_delta(
    index: u32,
    id: Option<Seq<char>>,
    item_id: Option<Seq<char>>,
    kind: Seq<char>,
    name: Option<Seq<char>>,
    arguments: Option<Seq<char>>,
) -> ToolCallDeltaView {
    ToolCallDeltaView {
        index,
        id,
        item_id,
        kind: Some(kind),
        function: Some(ToolCallFunctionDeltaView { name, arguments }),
        thought_signature: None,
    }
}

fn make_call_delta(
    index: u32,
    id: Option<String>,
    item_id: Option<String>,
    kind: &str,
    name: Option<String>,
    arguments: Option<String>,
) -> (delta: ToolCallDelta)
    ensures
        delta.deep_view() == call_delta(
            index,
            id.deep_view(),
            item_id.deep_view(),
            kind@,
            name.deep_view(),
            arguments.deep_view(),
        ),
{
    ToolCallDelta {
        index,
        id,
        item_id,
        kind: Some(kind.to_owned()),
        function: Some(ToolCallFunctionDelta { name, arguments }),
        thought_signature: None,
    }
}

/// What a frame of a function call's arguments adds.
pub open spec fn arguments_delta(v: JsonView, arguments: Option<Seq<char>>) -> ToolCallDeltaView {
    call_delta(
        output_index(v),
        nonempty(json::text_in(v.get("call_id"@))),
        json::or_else(
            nonempty(json::text_in(v.get("item_id"@))),
            nonempty(json::text_in(v.get("id"@))),
        ),
        "function"@,
        nonempty(json::text_in(v.get("name"@))),
        arguments,
    )
}

/// What a frame of a function call's arguments adds.
pub fn function_call_arguments_event(v: &Json, arguments: Option<String>) -> (delta: ToolCallDelta)
    ensures
        delta.deep_view() == arguments_delta(v.deep_view(), arguments.deep_view()),
{
    let item_id = match opt_nonzero_str(v, "item_id") {
        Some(id) => Some(id),
        None => opt_nonzero_str(v, "id"),
    };
    make_call_delta(
        output_index_of(v),
        opt_nonzero_str(v, "call_id"),
        item_id,
        "function",
        opt_nonzero_str(v, "name"),
        arguments,
    )
}

/// Who runs a custom tool: the provider, where its name begins with `x_`.
pub open spec fn custom_kind(name: Seq<char>) -> Seq<char> {
    if text::occurs_at(name, "x_"@, 0) {
        "server"@
    } else {
        "custom_tool"@
    }
}

fn custom_tool_kind(name: &str) -> (kind: &'static str)
    ensures
        kind@ == custom_kind(name@),
{
    if starts_with(name, "x_") {
        "server"
    } else {
        "custom_tool"
    }
}

/// The type of an item.
pub open spec fn type_of(item: JsonView) -> Seq<char> {
    or_empty(json::text_in(item.get("type"@)))
}

/// The name of the provider's tool that an item of this type calls.
pub open spec fn server_tool(kind: Seq<char>, item: JsonView) -> Option<Seq<char>> {
    if kind == "x_search"@ || kind == "x_search_call"@ {
        Some("x_search"@)
    } else if kind == "web_search_call"@ {
        Some("web_search"@)
    } else if kind == "file_search_call"@ {
        Some("file_search"@)
    } else if kind == "computer_call"@ {
        Some("computer"@)
    } else if kind == "mcp_call"@ {
        match json::text_in(item.get("name"@)) {
            Some(name) => Some(name),
            None => Some("mcp"@),
        }
    } else if kind == "image_generation_call"@ {
        Some("image_generation"@)
    } else if kind == "code_interpreter_call"@ {
        Some("code_interpreter"@)
    } else {
        None
    }
}

fn server_tool_name(kind: &str, item: &Json) -> (name: Option<String>)
    ensures
        name.deep_view() == server_tool(kind@, item.deep_view()),
{
    if str_eq(kind, "x_search") || str_eq(kind, "x_search_call") {
        Some("x_search".to_owned())
    } else if str_eq(kind, "web_search_call") {
        Some("web_search".to_owned())
    } else if str_eq(kind, "file_search_call") {
        Some("file_search".to_owned())
    } else if str_eq(kind, "computer_call") {
        Some("computer".to_owned())
    } else if str_eq(kind, "mcp_call") {
        match text_from(item.get("name")) {
            Some(name) => Some(name),
            None => Some("mcp".to_owned()),
        }
    } else if str_eq(kind, "image_generation_call") {
        Some("image_generation".to_owned())
    } else if str_eq(kind, "code_interpreter_call") {
        Some("code_interpreter".to_owned())
    } else {
        None
    }
}

/// The name of a custom tool.
pub open spec fn custom_name(item: JsonView) -> Seq<char> {
    match json::text_in(item.get("name"@)) {
        Some(name) => name,
        None => "custom_tool"@,
    }
}

/// What an output item adds to a tool call, where it is one.
pub open spec fn item_delta(item: JsonView, index: u32) -> Option<ToolCallDeltaView> {
    let kind = type_of(item);
    if kind == "function_call"@ {
        let id = nonempty(json::text_in(item.get("id"@)));
        Some(
            call_delta(
                index,
                json::or_else(nonempty(json::text_in(item.get("call_id"@))), id),
                id,
                "function"@,
                nonempty(json::text_in(item.get("name"@))),
                nonempty(arguments_in(either(item, "arguments"@, "input"@))),
            ),
        )
    } else if kind == "local_shell_call"@ {
        Some(
            call_delta(
                index,
                json::text_in(either(item, "call_id"@, "id"@)),
                None,
                "local_shell"@,
                Some("local_shell"@),
                arguments_in(either(item, "action"@, "arguments"@)),
            ),
        )
    } else if kind == "custom_tool_call"@ {
        Some(
            call_delta(
                index,
                json::text_in(either(item, "call_id"@, "id"@)),
                None,
                custom_kind(custom_name(item)),
                Some(custom_name(item)),
                arguments_in(either(item, "input"@, "arguments"@)),
            ),
        )
    } else {
        match server_tool(kind, item) {
            Some(name) => Some(
                call_delta(
                    index,
                    json::text_in(either(item, "id"@, "call_id"@)),
                    None,
                    "server"@,
                    Some(name),
                    arguments_in(
                        json::or_else(either(item, "action"@, "arguments"@), item.get("input"@)),
                    ),
                ),
            ),
            None => None,
        }
    }
}

/// What an output item adds to a tool call, where it is one.
pub fn tool_delta_from_output_item(item: &Json, fallback_index: u32) -> (delta: Option<
    ToolCallDelta,
>)
    ensures
        delta.deep_view() == item_delta(item.deep_view(), fallback_index),
{
    let kind = text_or_empty(text_from(item.get("type")));
    if str_eq(kind.as_str(), "function_call") {
        let call_id = match opt_nonzero_str(item, "call_id") {
            Some(id) => Some(id),
            None => opt_nonzero_str(item, "id"),
        };
        Some(
            make_call_delta(
                fallback_index,
                call_id,
                opt_nonzero_str(item, "id"),
                "function",
                opt_nonzero_str(item, "name"),
                function_call_arg_string(item),
            ),
        )
    } else if str_eq(kind.as_str(), "local_shell_call") {
        Some(
            make_call_delta(
                fallback_index,
                text_from(pick(item.get("call_id"), item.get("id"))),
                None,
                "local_shell",
                Some("local_shell".to_owned()),
                arguments_from(pick(item.get("action"), item.get("arguments"))),
            ),
        )
    } else if str_eq(kind.as_str(), "custom_tool_call") {
        let name = match text_from(item.get("name")) {
            Some(name) => name,
            None => "custom_tool".to_owned(),
        };
        let tool_kind = custom_tool_kind(name.as_str());
        Some(
            make_call_delta(
                fallback_index,
                text_from(pick(item.get("call_id"), item.get("id"))),
                None,
                tool_kind,
                Some(name),
                arguments_from(pick(item.get("input"), item.get("arguments"))),
            ),
        )
    } else {
        match server_tool_name(kind.as_str(), item) {
            Some(name) => Some(
                make_call_delta(
                    fallback_index,
                    text_from(pick(item.get("id"), item.get("call_id"))),
                    None,
                    "server",
                    Some(name),
                    arguments_from(
                        pick(pick(item.get("action"), item.get("arguments")), item.get("input")),
                    ),
                ),
            ),
            None => None,
        }
    }
}

/// Arguments that stand for none yet.
pub open spec fn is_placeholder(arguments: Seq<char>) -> bool {
    text::trimmed(arguments).len() == 0 || text::trimmed(arguments) == "{}"@
}

/// Whether arguments stand for none yet.
pub fn is_placeholder_tool_args(arguments: &str) -> (yes: bool)
    ensures
        yes == is_placeholder(arguments@),
{
    let core = trim(arguments);
    core.as_str().is_empty() || str_eq(core.as_str(), "{}")
}

/// What an item that was just added says of a call. Its arguments are still to come
/// where it is the provider's or they are only a placeholder.
pub open spec fn opened_call(delta: ToolCallDeltaView) -> ToolCallDeltaView {
    match delta.function {
        Some(function) => if delta.kind == Some("server"@) || (match function.arguments {
            Some(arguments) => is_placeholder(arguments),
            None => false,
        }) {
            ToolCallDeltaView {
                function: Some(ToolCallFunctionDeltaView { arguments: None, ..function }),
                ..delta
            }
        } else {
            delta
        },
        None => delta,
    }
}

fn open_call(delta: ToolCallDelta) -> (opened: ToolCallDelta)
    ensures
        opened.deep_view() == opened_call(delta.deep_view()),
{
    let is_server = match &delta.kind {
        Some(kind) => str_eq(kind.as_str(), "server"),
        None => false,
    };
    match delta.function {
        Some(function) => {
            let is_pending = match &function.arguments {
                Some(arguments) => is_placeholder_tool_args(arguments.as_str()),
                None => false,
            };
            let function = if is_server || is_pending {
                ToolCallFunctionDelta { name: function.name, arguments: None }
            } else {
                function
            };
            ToolCallDelta {
                index: delta.index,
                id: delta.id,
                item_id: delta.item_id,
                kind: delta.kind,
                function: Some(function),
                thought_signature: delta.thought_signature,
            }
        },
        None => delta,
    }
}

// ── Kinds of frames ─────────────────────────────────────────────────────

/// What a frame tells of.
#[derive(Debug, Clone, Copy, PartialEq, Eq, Structural)]
pub enum FrameKind {
    /// The response failed.
    Failed,
    /// The response is over.
    Terminal,
    /// A further part of the summary begins.
    SummaryPart,
    /// The model thinks more.
    Reasoning,
    /// The model says more.
    Text,
    /// More arguments of a function call.
    ArgumentsDelta,
    /// All arguments of a function call.
    ArgumentsDone,
    /// A web search of the provider moves on.
    WebSearch,
    /// More input of a custom tool.
    CustomInput,
    /// Anything else, by what it holds.
    Other,
}

/// The event's name or the frame's own type speaks of it.
pub open spec fn mentions(event: Seq<char>, kind: Seq<char>, what: Seq<char>) -> bool {
    text::contains_text(event, what) || text::contains_text(kind, what)
}

fn mention(event: &str, kind: &str, what: &str) -> (yes: bool)
    ensures
        yes == mentions(event@, kind@, what@),
{
    contains(event, what) || contains(kind, what)
}

/// What a frame tells of, by the name of its event, in lower case, and its type.
pub open spec fn kind_of_frame(event: Seq<char>, kind: Seq<char>) -> FrameKind {
    if mentions(event, kind, "response.failed"@) {
        FrameKind::Failed
    } else if mentions(event, kind, "response.completed"@) || mentions(
        event,
        kind,
        "response.incomplete"@,
    ) || mentions(event, kind, "response.done"@) {
        FrameKind::Terminal
    } else if mentions(event, kind, "reasoning_summary_part.added"@) {
        FrameKind::SummaryPart
    } else if mentions(event, kind, "reasoning_summary_text.delta"@) || mentions(
        event,
        kind,
        "reasoning_text.delta"@,
    ) {
        FrameKind::Reasoning
    } else if mentions(event, kind, "output_text.delta"@) || mentions(event, kind, "text.delta"@) {
        FrameKind::Text
    } else if mentions(event, kind, "function_call_arguments.delta"@) {
        FrameKind::ArgumentsDelta
    } else if mentions(event, kind, "function_call_arguments.done"@) {
        FrameKind::ArgumentsDone
    } else if mentions(event, kind, "web_search_call"@) && !mentions(event, kind, "output_item"@) {
        FrameKind::WebSearch
    } else if mentions(event, kind, "custom_tool_call_input.delta"@) {
        FrameKind::CustomInput
    } else {
        FrameKind::Other
    }
}

/// What a frame tells of, by the name of its event, in lower case, and its type.
pub fn frame_kind(event: &str, kind: &str) -> (found: FrameKind)
    ensures
        found == kind_of_frame(event@, kind@),
{
    if mention(event, kind, "response.failed") {
        FrameKind::Failed
    } else if mention(event, kind, "response.completed") || mention(
        event,
        kind,
        "response.incomplete",
    ) || mention(event, kind, "response.done") {
        FrameKind::Terminal
    } else if mention(event, kind, "reasoning_summary_part.added") {
        FrameKind::SummaryPart
    } else if mention(event, kind, "reasoning_summary_text.delta") || mention(
        event,
        kind,
        "reasoning_text.delta",
    ) {
        FrameKind::Reasoning
    } else if mention(event, kind, "output_text.delta") || mention(event, kind, "text.delta") {
        FrameKind::Text
    } else if mention(event, kind, "function_call_arguments.delta") {
        FrameKind::ArgumentsDelta
    } else if mention(event, kind, "function_call_arguments.done") {
        FrameKind::ArgumentsDone
    } else if mention(event, kind, "web_search_call") && !mention(event, kind, "output_item") {
        FrameKind::WebSearch
    } else if mention(event, kind, "custom_tool_call_input.delta") {
        FrameKind::CustomInput
    } else {
        FrameKind::Other
    }
}

// ── What of a frame is decoded elsewhere ────────────────────────────────

/// What the typed decoders make of a frame.
#[derive(Debug, PartialEq, Eq)]
pub struct Decoded {
    /// The frame, where it is itself a chunk.
    pub chunk: Option<ChatCompletionChunk>,
    /// Its item, where that is reasoning.
    pub item: Option<ReasoningItem>,
    /// The items of a finished response, in their order.
    pub terminal: Vec<Option<OutputItemWire>>,
    /// The items of any other output, in their order, where they are reasoning.
    pub output: Vec<Option<ReasoningItem>>,
}

/// What a [`Decoded`] holds.
#[verifier::ext_equal]
pub struct DecodedView {
    pub chunk: Option<ChatCompletionChunkView>,
    pub item: Option<ReasoningItemView>,
    pub terminal: Seq<Option<OutputItemWireView>>,
    pub output: Seq<Option<ReasoningItemView>>,
}

impl DeepView for Decoded {
    type V = DecodedView;

    open spec fn deep_view(&self) -> DecodedView {
        DecodedView {
            chunk: self.chunk.deep_view(),
            item: self.item.deep_view(),
            terminal: self.terminal.deep_view(),
            output: self.output.deep_view(),
        }
    }
}

impl Clone for Decoded {
    fn clone(&self) -> (out: Decoded)
        ensures
            out.deep_view() == self.deep_view(),
    {
        Decoded {
            chunk: self.chunk.clone(),
            item: self.item.clone(),
            terminal: self.terminal.clone(),
            output: self.output.clone(),
        }
    }
}

/// What of a frame the typed decoders are to read.
#[derive(Debug, PartialEq, Eq)]
pub struct Undecoded {
    pub item: Option<Json>,
    pub terminal: Vec<Json>,
    pub output: Vec<Json>,
}

/// What a [`Undecoded`] holds.
#[verifier::ext_equal]
pub struct UndecodedView {
    pub item: Option<JsonView>,
    pub terminal: Seq<JsonView>,
    pub output: Seq<JsonView>,
}

impl DeepView for Undecoded {
    type V = UndecodedView;

    open spec fn deep_view(&self) -> UndecodedView {
        UndecodedView {
            item: self.item.deep_view(),
            terminal: self.terminal.deep_view(),
            output: self.output.deep_view(),
        }
    }
}

impl Clone for Undecoded {
    fn clone(&self) -> (out: Undecoded)
        ensures
            out.deep_view() == self.deep_view(),
    {
        Undecoded {
            item: self.item.clone(),
            terminal: self.terminal.clone(),
            output: self.output.clone(),
        }
    }
}

/// The output of a finished response.
pub open spec fn terminal_output(v: JsonView) -> Option<Seq<JsonView>> {
    array_in(json::or_else(v.get_in("response"@, "output"@), v.get("output"@)))
}

/// The output of any other frame.
pub open spec fn plain_output(v: JsonView) -> Option<Seq<JsonView>> {
    array_in(json::or_else(v.get("output"@), v.get_in("response"@, "output"@)))
}

/// The items of a list, none where there is no list.
pub open spec fn or_none(items: Option<Seq<JsonView>>) -> Seq<JsonView> {
    match items {
        Some(items) => items,
        None => Seq::empty(),
    }
}

fn copy_items(items: Option<&Vec<Json>>) -> (copy: Vec<Json>)
    ensures
        copy.deep_view() == or_none(items.deep_view()),
{
    match items {
        Some(items) => {
            items.clone()
        },
        None => {
            let none: Vec<Json> = Vec::new();
            none
        },
    }
}

/// What of a frame the typed decoders are to read.
pub fn frame_parts(v: &Json) -> (parts: Undecoded)
    ensures
        parts.deep_view() == (UndecodedView {
            item: either(v.deep_view(), "item"@, "reasoning"@),
            terminal: or_none(terminal_output(v.deep_view())),
            output: or_none(plain_output(v.deep_view())),
        }),
{
    let item = match pick(v.get("item"), v.get("reasoning")) {
        Some(item) => Some(item.clone()),
        None => None,
    };
    Undecoded {
        item,
        terminal: copy_items(
            array_from(pick(v.get_in("response", "output"), v.get("output"))),
        ),
        output: copy_items(array_from(pick(v.get("output"), v.get_in("response", "output")))),
    }
}

/// The first `n` decoded items, without those that could not be decoded.
pub open spec fn decoded_items(items: Seq<Option<OutputItemWireView>>, n: nat) -> Seq<
    OutputItemWireView,
>
    decreases n,
{
    if n == 0 {
        Seq::empty()
    } else {
        let before = decoded_items(items, (n - 1) as nat);
        if n <= items.len() && items[n - 1] is Some {
            before.push(items[n - 1].unwrap())
        } else {
            before
        }
    }
}

fn take_decoded(items: &Vec<Option<OutputItemWire>>, n: usize) -> (found: Vec<OutputItemWire>)
    ensures
        found.deep_view() == decoded_items(items.deep_view(), n as nat),
{
    let ghost view = items.deep_view();
    let mut found: Vec<OutputItemWire> = Vec::new();
    for i in 0..n
        invariant
            view == items.deep_view(),
            found.deep_view() == decoded_items(view, i as nat),
    {
        if i < items.len() {
            if let Some(item) = &items[i] {
                found.push(item.clone());
            }
        }
    }
    found
}

// ── What a frame adds ───────────────────────────────────────────────────

/// A delta of one tool call.
pub open spec fn one_call(call: ToolCallDeltaView) -> ChatChunkDeltaView {
    ChatChunkDeltaView { tool_calls: seq![call], ..types::no_delta() }
}

fn make_one_call(call: ToolCallDelta) -> (delta: ChatChunkDelta)
    ensures
        delta.deep_view() == one_call(call.deep_view()),
{
    let mut delta = ChatChunkDelta::default();
    delta.tool_calls.push(call);
    delta
}

/// What the end of a response adds: its output.
pub open spec fn terminal_delta(v: JsonView, decoded: DecodedView) -> ChatChunkDeltaView {
    match terminal_output(v) {
        Some(output) => {
            let found = decoded_items(decoded.terminal, output.len());
            ChatChunkDeltaView {
                final_output: if found.len() == 0 {
                    None
                } else {
                    Some(found)
                },
                ..types::no_delta()
            }
        },
        None => types::no_delta(),
    }
}

/// What a search of the provider adds: that its call is alive.
pub open spec fn web_search_delta(v: JsonView) -> ToolCallDeltaView {
    call_delta(
        output_index(v),
        json::text_in(either(v, "item_id"@, "id"@)),
        json::text_in(v.get("item_id"@)),
        "server"@,
        Some("web_search"@),
        None,
    )
}

/// What input of a custom tool adds.
pub open spec fn custom_input_delta(v: JsonView) -> ToolCallDeltaView {
    let name = json::text_in(v.get("name"@));
    call_delta(
        output_index(v),
        json::text_in(either(v, "call_id"@, "id"@)),
        None,
        match name {
            Some(name) => custom_kind(name),
            None => "custom_tool"@,
        },
        name,
        json::text_in(v.get("delta"@)),
    )
}

/// What a piece of reasoning adds.
pub open spec fn reasoning_delta(item: Option<ReasoningItemView>) -> ChatChunkDeltaView {
    match item {
        Some(item) => ChatChunkDeltaView {
            encrypted_reasoning: item.encrypted_content,
            reasoning_items: seq![item],
            ..types::no_delta()
        },
        None => types::no_delta(),
    }
}

/// What an item adds. Reasoning counts once it is complete, not when it is added.
pub open spec fn item_frame_delta(
    v: JsonView,
    item: JsonView,
    added: bool,
    decoded: DecodedView,
) -> ChatChunkDeltaView {
    if type_of(item) == "reasoning"@ {
        if added {
            types::no_delta()
        } else {
            reasoning_delta(decoded.item)
        }
    } else {
        match item_delta(item, output_index(v)) {
            Some(call) => one_call(
                if added {
                    opened_call(call)
                } else {
                    call
                },
            ),
            None => types::no_delta(),
        }
    }
}

/// What the first `n` items of an output add: their reasoning, and the last text
/// among the others.
pub open spec fn output_delta(
    output: Seq<JsonView>,
    decoded: Seq<Option<ReasoningItemView>>,
    n: nat,
) -> ChatChunkDeltaView
    decreases n,
{
    if n == 0 {
        types::no_delta()
    } else {
        let before = output_delta(output, decoded, (n - 1) as nat);
        let item = output[n - 1];
        if json::text_in(item.get("type"@)) == Some("reasoning"@) {
            if n <= decoded.len() && decoded[n - 1] is Some {
                ChatChunkDeltaView {
                    encrypted_reasoning: decoded[n - 1].unwrap().encrypted_content,
                    reasoning_items: before.reasoning_items.push(decoded[n - 1].unwrap()),
                    ..before
                }
            } else {
                before
            }
        } else {
            match json::text_in(item.get("content"@)) {
                Some(content) => ChatChunkDeltaView { content: Some(content), ..before },
                None => before,
            }
        }
    }
}

/// What a frame adds that tells by what it holds: an item, an output, or text.
pub open spec fn other_delta(v: JsonView, added: bool, decoded: DecodedView) -> ChatChunkDeltaView {
    match either(v, "item"@, "reasoning"@) {
        Some(item) => item_frame_delta(v, item, added, decoded),
        None => match plain_output(v) {
            Some(output) => output_delta(output, decoded.output, output.len()),
            None => ChatChunkDeltaView {
                content: json::text_in(v.get("delta"@)),
                ..types::no_delta()
            },
        },
    }
}

/// What a frame adds.
pub open spec fn frame_delta(
    kind: FrameKind,
    v: JsonView,
    added: bool,
    decoded: DecodedView,
) -> ChatChunkDeltaView {
    match kind {
        FrameKind::Failed => types::no_delta(),
        FrameKind::Terminal => terminal_delta(v, decoded),
        FrameKind::SummaryPart => ChatChunkDeltaView {
            reasoning_content: match number_in(v.get("summary_index"@)) {
                Some(n) if n > 0 => Some("\n\n"@),
                _ => None,
            },
            ..types::no_delta()
        },
        FrameKind::Reasoning => ChatChunkDeltaView {
            reasoning_content: json::text_in(v.get("delta"@)),
            ..types::no_delta()
        },
        FrameKind::Text => ChatChunkDeltaView {
            content: json::text_in(v.get("delta"@)),
            ..types::no_delta()
        },
        FrameKind::ArgumentsDelta => one_call(
            arguments_delta(v, json::text_in(v.get("delta"@))),
        ),
        FrameKind::ArgumentsDone => one_call(
            arguments_delta(v, arguments_in(v.get("arguments"@))),
        ),
        FrameKind::WebSearch => one_call(web_search_delta(v)),
        FrameKind::CustomInput => one_call(custom_input_delta(v)),
        FrameKind::Other => other_delta(v, added, decoded),
    }
}

fn make_terminal_delta(v: &Json, decoded: &Decoded) -> (delta: ChatChunkDelta)
    ensures
        delta.deep_view() == terminal_delta(v.deep_view(), decoded.deep_view()),
{
    let mut delta = ChatChunkDelta::default();
    if let Some(output) = array_from(pick(v.get_in("response", "output"), v.get("output"))) {
        let found = take_decoded(&decoded.terminal, output.len());
        if found.len() != 0 {
            delta.final_output = Some(found);
        }
    }
    delta
}

fn make_web_search_delta(v: &Json) -> (delta: ToolCallDelta)
    ensures
        delta.deep_view() == web_search_delta(v.deep_view()),
{
    make_call_delta(
        output_index_of(v),
        text_from(pick(v.get("item_id"), v.get("id"))),
        text_from(v.get("item_id")),
        "server",
        Some("web_search".to_owned()),
        None,
    )
}

fn make_custom_input_delta(v: &Json) -> (delta: ToolCallDelta)
    ensures
        delta.deep_view() == custom_input_delta(v.deep_view()),
{
    let name = text_from(v.get("name"));
    let kind = match &name {
        Some(name) => custom_tool_kind(name.as_str()),
        None => "custom_tool",
    };
    make_call_delta(
        output_index_of(v),
        text_from(pick(v.get("call_id"), v.get("id"))),
        None,
        kind,
        name,
        text_from(v.get("delta")),
    )
}

fn make_reasoning_delta(item: &Option<ReasoningItem>) -> (delta: ChatChunkDelta)
    ensures
        delta.deep_view() == reasoning_delta(item.deep_view()),
{
    let mut delta = ChatChunkDelta::default();
    if let Some(item) = item {
        delta.encrypted_reasoning = item.encrypted_content.clone();
        delta.reasoning_items.push(item.clone());
    }
    delta
}

fn make_item_frame_delta(
    v: &Json,
    item: &Json,
    added: bool,
    decoded: &Decoded,
) -> (delta: ChatChunkDelta)
    ensures
        delta.deep_view() == item_frame_delta(
            v.deep_view(),
            item.deep_view(),
            added,
            decoded.deep_view(),
        ),
{
    let kind = text_or_empty(text_from(item.get("type")));
    if str_eq(kind.as_str(), "reasoning") {
        if added {
            return ChatChunkDelta::default();
        }
        return make_reasoning_delta(&decoded.item);
    }
    match tool_delta_from_output_item(item, output_index_of(v)) {
        Some(call) => make_one_call(
            if added {
                open_call(call)
            } else {
                call
            },
        ),
        None => ChatChunkDelta::default(),
    }
}

fn make_output_delta(
    output: &Vec<Json>,
    decoded: &Vec<Option<ReasoningItem>>,
) -> (delta: ChatChunkDelta)
    ensures
        delta.deep_view() == output_delta(
            output.deep_view(),
            decoded.deep_view(),
            output.deep_view().len(),
        ),
{
    let ghost items = output.deep_view();
    let ghost found = decoded.deep_view();
    let mut delta = ChatChunkDelta::default();
    for i in 0..output.len()
        invariant
            items == output.deep_view(),
            found == decoded.deep_view(),
            delta.deep_view() == output_delta(items, found, i as nat),
    {
        let item = &output[i];
        let is_reasoning = match text_from(item.get("type")) {
            Some(kind) => str_eq(kind.as_str(), "reasoning"),
            None => false,
        };
        if is_reasoning {
            if i < decoded.len() {
                if let Some(reasoning) = &decoded[i] {
                    delta.encrypted_reasoning = reasoning.encrypted_content.clone();
                    delta.reasoning_items.push(reasoning.clone());
                }
            }
        } else {
            let content = text_from(item.get("content"));
            if content.is_some() {
                delta.content = content;
            }
        }
    }
    delta
}

fn make_other_delta(v: &Json, added: bool, decoded: &Decoded) -> (delta: ChatChunkDelta)
    ensures
        delta.deep_view() == other_delta(v.deep_view(), added, decoded.deep_view()),
{
    if let Some(item) = pick(v.get("item"), v.get("reasoning")) {
        return make_item_frame_delta(v, item, added, decoded);
    }
    if let Some(output) = array_from(pick(v.get("output"), v.get_in("response", "output"))) {
        return make_output_delta(output, &decoded.output);
    }
    let mut delta = ChatChunkDelta::default();
    delta.content = text_from(v.get("delta"));
    delta
}

fn make_frame_delta(
    kind: FrameKind,
    v: &Json,
    added: bool,
    decoded: &Decoded,
) -> (delta: ChatChunkDelta)
    ensures
        delta.deep_view() == frame_delta(kind, v.deep_view(), added, decoded.deep_view()),
{
    match kind {
        FrameKind::Failed => ChatChunkDelta::default(),
        FrameKind::Terminal => make_terminal_delta(v, decoded),
        FrameKind::SummaryPart => {
            let mut delta = ChatChunkDelta::default();
            if let Some(index) = v.get("summary_index") {
                if let Some(n) = index.as_u64() {
                    if n > 0 {
                        delta.reasoning_content = Some("\n\n".to_owned());
                    }
                }
            }
            delta
        },
        FrameKind::Reasoning => {
            let mut delta = ChatChunkDelta::default();
            delta.reasoning_content = text_from(v.get("delta"));
            delta
        },
        FrameKind::Text => {
            let mut delta = ChatChunkDelta::default();
            delta.content = text_from(v.get("delta"));
            delta
        },
        FrameKind::ArgumentsDelta => make_one_call(
            function_call_arguments_event(v, text_from(v.get("delta"))),
        ),
        FrameKind::ArgumentsDone => make_one_call(
            function_call_arguments_event(v, arguments_from(v.get("arguments"))),
        ),
        FrameKind::WebSearch => make_one_call(make_web_search_delta(v)),
        FrameKind::CustomInput => make_one_call(make_custom_input_delta(v)),
        FrameKind::Other => make_other_delta(v, added, decoded),
    }
}

// ── Frames as chunks ────────────────────────────────────────────────────

/// The error of a response that failed: its code and message, or what stands for
/// them.
pub open spec fn failure_of(v: JsonView) -> EngineErrorView {
    let error = json::or_else(v.get_in("response"@, "error"@), v.get("error"@));
    let code = match error {
        Some(error) => json::text_in(error.get("code"@)),
        None => None,
    };
    let message = match error {
        Some(error) => json::text_in(error.get("message"@)),
        None => None,
    };
    EngineErrorView::Llm(
        "Responses API failed: "@ + (match code {
            Some(code) => code,
            None => "response_failed"@,
        }) + ": "@ + (match message {
            Some(message) => message,
            None => "the server failed to generate a response"@,
        }),
    )
}

fn make_failure(v: &Json) -> (error: EngineError)
    ensures
        error.deep_view() == failure_of(v.deep_view()),
{
    let error = pick(v.get_in("response", "error"), v.get("error"));
    let code = match error {
        Some(error) => text_from(error.get("code")),
        None => None,
    };
    let message = match error {
        Some(error) => text_from(error.get("message")),
        None => None,
    };
    let mut text = "Responses API failed: ".to_owned();
    match code {
        Some(code) => text.append(code.as_str()),
        None => text.append("response_failed"),
    }
    text.append(": ");
    match message {
        Some(message) => text.append(message.as_str()),
        None => text.append("the server failed to generate a response"),
    }
    EngineError::Llm(text)
}

/// The tokens that a frame reports.
pub open spec fn usage_of(v: JsonView) -> Option<UsageView> {
    match json::or_else(v.get("usage"@), v.get_in("response"@, "usage"@)) {
        Some(usage) => Some(
            UsageView {
                prompt_tokens: low_bits(
                    number_in(either(usage, "input_tokens"@, "prompt_tokens"@)),
                ),
                completion_tokens: low_bits(
                    number_in(either(usage, "output_tokens"@, "completion_tokens"@)),
                ),
                total_tokens: low_bits(number_in(usage.get("total_tokens"@))),
            },
        ),
        None => None,
    }
}

fn read_usage(v: &Json) -> (usage: Option<Usage>)
    ensures
        usage.deep_view() == usage_of(v.deep_view()),
{
    match pick(v.get("usage"), v.get_in("response", "usage")) {
        Some(usage) => Some(
            Usage {
                prompt_tokens: low_bits_from(
                    pick(usage.get("input_tokens"), usage.get("prompt_tokens")),
                ),
                completion_tokens: low_bits_from(
                    pick(usage.get("output_tokens"), usage.get("completion_tokens")),
                ),
                total_tokens: low_bits_from(usage.get("total_tokens")),
            },
        ),
        None => None,
    }
}

/// The id of the response that a frame belongs to, empty where it names none.
pub open spec fn response_id_of(v: JsonView) -> Seq<char> {
    match json::text_in(json::or_else(v.get_in("response"@, "id"@), v.get("id"@))) {
        Some(id) if text::occurs_at(id, "resp_"@, 0) => id,
        _ => ""@,
    }
}

fn read_response_id(v: &Json) -> (id: String)
    ensures
        id@ == response_id_of(v.deep_view()),
{
    match text_from(pick(v.get_in("response", "id"), v.get("id"))) {
        Some(id) => if starts_with(id.as_str(), "resp_") {
            id
        } else {
            "".to_owned()
        },
        None => "".to_owned(),
    }
}

/// The delta adds nothing.
pub open spec fn says_nothing(delta: ChatChunkDeltaView) -> bool {
    &&& delta.content is None
    &&& delta.reasoning_content is None
    &&& delta.reasoning_items.len() == 0
    &&& delta.encrypted_reasoning is None
    &&& delta.tool_calls.len() == 0
    &&& delta.final_output is None
}

/// The chunk of a frame.
pub open spec fn frame_chunk(v: JsonView, delta: ChatChunkDeltaView) -> ChatCompletionChunkView {
    ChatCompletionChunkView {
        id: if response_id_of(v).len() != 0 {
            response_id_of(v)
        } else {
            or_empty(json::text_in(v.get("id"@)))
        },
        object: "response.chunk"@,
        created: 0,
        model: or_empty(
            json::text_in(json::or_else(v.get("model"@), v.get_in("response"@, "model"@))),
        ),
        choices: seq![ChatChunkChoiceView { index: 0, delta, finish_reason: None }],
        usage: usage_of(v),
    }
}

/// What a frame comes to: an error where the response failed, nothing where it adds
/// nothing and names neither usage nor response, and a chunk otherwise.
pub open spec fn frame_outcome(event: Seq<char>, v: JsonView, decoded: DecodedView) -> Result<
    Option<ChatCompletionChunkView>,
    EngineErrorView,
> {
    let own = or_empty(json::text_in(v.get("type"@)));
    let kind = kind_of_frame(event, own);
    if kind == FrameKind::Failed {
        Err(failure_of(v))
    } else {
        let delta = frame_delta(kind, v, mentions(event, own, "output_item.added"@), decoded);
        if says_nothing(delta) && usage_of(v) is None && response_id_of(v).len() == 0 {
            Ok(None)
        } else {
            Ok(Some(frame_chunk(v, delta)))
        }
    }
}

/// What a frame comes to, by the name of its event, in lower case, and its data.
pub fn parse_responses_frame(event: &str, v: &Json, decoded: &Decoded) -> (outcome: Result<
    Option<ChatCompletionChunk>,
    EngineError,
>)
    ensures
        error::outcome_of(outcome) == frame_outcome(
            event@,
            v.deep_view(),
            decoded.deep_view(),
        ),
{
    let own = text_or_empty(text_from(v.get("type")));
    let kind = frame_kind(event, own.as_str());
    if matches!(kind, FrameKind::Failed) {
        return Err(make_failure(v));
    }
    let added = mention(event, own.as_str(), "output_item.added");
    let delta = make_frame_delta(kind, v, added, decoded);
    let usage = read_usage(v);
    let response_id = read_response_id(v);
    if delta.content.is_none() && delta.reasoning_content.is_none() && delta.reasoning_items.len()
        == 0 && delta.encrypted_reasoning.is_none() && delta.tool_calls.len() == 0
        && delta.final_output.is_none() && usage.is_none() && response_id.as_str().is_empty() {
        return Ok(None);
    }
    let id = if !response_id.as_str().is_empty() {
        response_id
    } else {
        text_or_empty(text_from(v.get("id")))
    };
    let mut choices: Vec<ChatChunkChoice> = Vec::new();
    choices.push(ChatChunkChoice { index: 0, delta, finish_reason: None });
    let chunk = ChatCompletionChunk {
        id,
        object: "response.chunk".to_owned(),
        created: 0,
        model: text_or_empty(
            text_from(pick(v.get("model"), v.get_in("response", "model"))),
        ),
        choices,
        usage,
    };
    assert(chunk.deep_view() =~= frame_chunk(v.deep_view(), delta.deep_view()));
    Ok(Some(chunk))
}

/// What the data of an event comes to: nothing where it is empty, the mark of the
/// end, or no JSON.
pub open spec fn chunk_of(event_name: Seq<char>, data: Seq<char>, decoded: DecodedView) -> Result<
    Option<ChatCompletionChunkView>,
    EngineErrorView,
> {
    let raw = text::trimmed(data);
    if raw.len() == 0 || raw == "[DONE]"@ {
        Ok(None)
    } else {
        match decoded.chunk {
            Some(chunk) if chunk.choices.len() != 0 => Ok(Some(chunk)),
            _ => match json::parsed_text(raw) {
                Ok(v) => frame_outcome(text::lowercase_text(event_name), v, decoded),
                Err(_) => Ok(None),
            },
        }
    }
}

/// What the data of an event comes to.
pub fn parse_responses_chunk(event_name: &str, data: &str, decoded: &Decoded) -> (outcome: Result<
    Option<ChatCompletionChunk>,
    EngineError,
>)
    ensures
        error::outcome_of(outcome) == chunk_of(event_name@, data@, decoded.deep_view()),
{
    let raw = trim(data);
    if raw.as_str().is_empty() || str_eq(raw.as_str(), "[DONE]") {
        return Ok(None);
    }
    if let Some(chunk) = &decoded.chunk {
        if chunk.choices.len() != 0 {
            return Ok(Some(chunk.clone()));
        }
    }
    match parse_json(raw.as_str()) {
        Ok(v) => parse_responses_frame(lowercase(event_name).as_str(), &v, decoded),
        Err(_) => Ok(None),
    }
}

/// What of an event's data the typed decoders are to read.
pub open spec fn undecoded_of(data: Seq<char>) -> Option<UndecodedView> {
    match json::parsed_text(text::trimmed(data)) {
        Ok(v) => Some(
            UndecodedView {
                item: either(v, "item"@, "reasoning"@),
                terminal: or_none(terminal_output(v)),
                output: or_none(plain_output(v)),
            },
        ),
        Err(_) => None,
    }
}

/// What of an event's data the typed decoders are to read; nothing where it is no
/// JSON.
pub fn event_parts(data: &str) -> (parts: Option<Undecoded>)
    ensures
        parts.deep_view() == undecoded_of(data@),
{
    match parse_json(trim(data).as_str()) {
        Ok(v) => Some(frame_parts(&v)),
        Err(_) => None,
    }
}

// ── Laws ────────────────────────────────────────────────────────────────

/// A failed response is always an error, and never an empty answer.
pub proof fn law_failure_is_never_silent(event: Seq<char>, v: JsonView, decoded: DecodedView)
    requires
        mentions(event, or_empty(json::text_in(v.get("type"@))), "response.failed"@),
    ensures
        frame_outcome(event, v, decoded) == Err::<
            Option<ChatCompletionChunkView>,
            EngineErrorView,
        >(failure_of(v)),
{
}

/// Progress of a provider's web search is never dropped: it comes to one call of
/// the provider's tool, without arguments.
pub proof fn law_search_progress_is_kept(event: Seq<char>, v: JsonView, decoded: DecodedView)
    requires
        kind_of_frame(event, or_empty(json::text_in(v.get("type"@)))) == FrameKind::WebSearch,
    ensures
        ({
            let chunk = frame_chunk(v, one_call(web_search_delta(v)));
            let call = chunk.choices[0].delta.tool_calls[0];
            &&& frame_outcome(event, v, decoded) == Ok::<
                Option<ChatCompletionChunkView>,
                EngineErrorView,
            >(Some(chunk))
            &&& call.kind == Some("server"@)
            &&& call.function.unwrap().name == Some("web_search"@)
            &&& call.function.unwrap().arguments is None
        }),
{
}

/// A frame that names its response is never dropped, and its chunk carries the
/// name.
pub proof fn law_response_id_is_kept(event: Seq<char>, v: JsonView, decoded: DecodedView)
    requires
        response_id_of(v).len() != 0,
    ensures
        match frame_outcome(event, v, decoded) {
            Ok(chunk) => chunk is Some && chunk.unwrap().id == response_id_of(v),
            Err(error) => error == failure_of(v),
        },
{
}

/// A frame says what it says once: text, reasoning and calls do not come from the
/// same frame, but for the items of an output.
pub proof fn law_one_frame_one_thing(
    kind: FrameKind,
    v: JsonView,
    added: bool,
    decoded: DecodedView,
)
    requires
        kind != FrameKind::Other,
    ensures
        ({
            let delta = frame_delta(kind, v, added, decoded);
            &&& delta.tool_calls.len() <= 1
            &&& delta.reasoning_items.len() == 0
            &&& delta.content is Some ==> delta.reasoning_content is None
                && delta.tool_calls.len() == 0 && delta.final_output is None
        }),
{
}

/// Reasoning that was only added does not count yet.
pub proof fn law_added_reasoning_waits(v: JsonView, item: JsonView, decoded: DecodedView)
    requires
        type_of(item) == "reasoning"@,
    ensures
        says_nothing(item_frame_delta(v, item, true, decoded)),
{
}

/// The end of a stream is nothing to read, whatever its event is called.
pub proof fn law_end_mark_is_nothing(event_name: Seq<char>, data: Seq<char>, decoded: DecodedView)
    requires
        text::trimmed(data).len() == 0 || text::trimmed(data) == "[DONE]"@,
    ensures
        chunk_of(event_name, data, decoded) == Ok::<
            Option<ChatCompletionChunkView>,
            EngineErrorView,
        >(None),
{
}

// ── What of a frame comes out ───────────────────────────────────────────

/// The value, where it is a text.
pub open spec fn said(value: Option<JsonView>) -> Option<Seq<char>> {
    match value {
        Some(JsonView::Text(content)) => Some(content),
        _ => None,
    }
}

/// The value, where it is a text that says something.
pub open spec fn said_something(value: Option<JsonView>) -> Option<Seq<char>> {
    match value {
        Some(JsonView::Text(content)) => if content.len() > 0 {
            Some(content)
        } else {
            None
        },
        _ => None,
    }
}

/// The first of two values that is there.
pub open spec fn first_there(first: Option<JsonView>, second: Option<JsonView>) -> Option<
    JsonView,
> {
    if first is Some {
        first
    } else {
        second
    }
}

/// The arguments are the value: as it is where it is a text, and as JSON otherwise.
pub open spec fn are_arguments(arguments: Option<Seq<char>>, value: Option<JsonView>) -> bool {
    match value {
        Some(JsonView::Text(content)) => arguments == Some(content),
        Some(other) => arguments == Some(json::text_of(other)),
        None => arguments is None,
    }
}

/// An item that calls a function gives the name of the function, the id of the call,
/// its own id and the arguments, each where it says something. Without an id of the
/// call, its own counts.
pub proof fn law_function_calls_name_their_function(item: JsonView, index: u32)
    requires
        said(item.get("type"@)) == Some("function_call"@),
    ensures
        item_delta(item, index) matches Some(delta) && {
            let value = first_there(item.get("arguments"@), item.get("input"@));
            &&& delta.index == index
            &&& delta.kind == Some("function"@)
            &&& delta.thought_signature is None
            &&& delta.item_id == said_something(item.get("id"@))
            &&& said_something(item.get("call_id"@)) is Some ==> delta.id == said_something(
                item.get("call_id"@),
            )
            &&& said_something(item.get("call_id"@)) is None ==> delta.id == said_something(
                item.get("id"@),
            )
            &&& delta.function matches Some(function) && {
                &&& function.name == said_something(item.get("name"@))
                &&& function.arguments matches Some(arguments) ==> arguments.len() > 0
                    && are_arguments(function.arguments, value)
                &&& function.arguments is None ==> value is None || are_arguments(
                    Some(Seq::empty()),
                    value,
                )
            }
        },
{
    let value = first_there(item.get("arguments"@), item.get("input"@));
    if let Some(value) = value {
        if arguments_text(value).len() == 0 {
            assert(arguments_text(value) =~= Seq::<char>::empty());
        }
    }
}

/// An item that calls the shell gives the id of the call and, as arguments, its action.
pub proof fn law_shell_calls_give_their_action(item: JsonView, index: u32)
    requires
        said(item.get("type"@)) == Some("local_shell_call"@),
    ensures
        item_delta(item, index) matches Some(delta) && {
            &&& delta.index == index
            &&& delta.id == said(first_there(item.get("call_id"@), item.get("id"@)))
            &&& delta.item_id is None
            &&& delta.kind == Some("local_shell"@)
            &&& delta.thought_signature is None
            &&& delta.function matches Some(function) && {
                &&& function.name == Some("local_shell"@)
                &&& are_arguments(
                    function.arguments,
                    first_there(item.get("action"@), item.get("arguments"@)),
                )
            }
        },
{
    reveal_strlit("local_shell_call");
    reveal_strlit("function_call");
    assert("local_shell_call"@.len() != "function_call"@.len());
}

/// An item that calls a custom tool gives its name, the id of the call and its input.
/// The provider runs it where its name begins with `x_`.
pub proof fn law_custom_calls_name_their_tool(item: JsonView, index: u32)
    requires
        said(item.get("type"@)) == Some("custom_tool_call"@),
    ensures
        item_delta(item, index) matches Some(delta) && {
            let name = match said(item.get("name"@)) {
                Some(name) => name,
                None => "custom_tool"@,
            };
            &&& delta.index == index
            &&& delta.id == said(first_there(item.get("call_id"@), item.get("id"@)))
            &&& delta.item_id is None
            &&& name.len() >= 2 && name[0] == 'x' && name[1] == '_' ==> delta.kind == Some(
                "server"@,
            )
            &&& !(name.len() >= 2 && name[0] == 'x' && name[1] == '_') ==> delta.kind == Some(
                "custom_tool"@,
            )
            &&& delta.thought_signature is None
            &&& delta.function matches Some(function) && {
                &&& function.name == Some(name)
                &&& are_arguments(
                    function.arguments,
                    first_there(item.get("input"@), item.get("arguments"@)),
                )
            }
        },
{
    reveal_strlit("custom_tool_call");
    reveal_strlit("local_shell_call");
    reveal_strlit("function_call");
    assert("custom_tool_call"@.len() != "function_call"@.len());
    assert("custom_tool_call"@[0] != "local_shell_call"@[0]);
    lemma_custom_kind(custom_name(item));
}

proof fn lemma_custom_kind(name: Seq<char>)
    ensures
        text::occurs_at(name, "x_"@, 0) <==> name.len() >= 2 && name[0] == 'x' && name[1] == '_',
{
    reveal_strlit("x_");
    if name.len() >= 2 {
        let front = name.subrange(0, 2);
        assert(front[0] == name[0] && front[1] == name[1]);
        if name[0] == 'x' && name[1] == '_' {
            assert(front =~= "x_"@);
        }
    }
}

/// The name of the tool that an item of this type says the provider runs.
pub open spec fn run_by_provider(kind: Seq<char>, name: Option<Seq<char>>) -> Option<Seq<char>> {
    if kind == "x_search"@ || kind == "x_search_call"@ {
        Some("x_search"@)
    } else if kind == "web_search_call"@ {
        Some("web_search"@)
    } else if kind == "file_search_call"@ {
        Some("file_search"@)
    } else if kind == "computer_call"@ {
        Some("computer"@)
    } else if kind == "image_generation_call"@ {
        Some("image_generation"@)
    } else if kind == "code_interpreter_call"@ {
        Some("code_interpreter"@)
    } else if kind == "mcp_call"@ && name is Some {
        name
    } else if kind == "mcp_call"@ {
        Some("mcp"@)
    } else {
        None
    }
}

proof fn lemma_item_types()
    ensures
        "function_call"@.len() == 13 && "function_call"@[0] == 'f',
        "local_shell_call"@.len() == 16 && "local_shell_call"@[0] == 'l',
        "custom_tool_call"@.len() == 16 && "custom_tool_call"@[0] == 'c',
        "x_search"@.len() == 8,
        "x_search_call"@.len() == 13 && "x_search_call"@[0] == 'x',
        "web_search_call"@.len() == 15,
        "file_search_call"@.len() == 16 && "file_search_call"@[0] == 'f',
        "computer_call"@.len() == 13 && "computer_call"@[0] == 'c',
        "mcp_call"@.len() == 8 && "mcp_call"@[0] == 'm',
        "x_search"@[0] == 'x',
        "image_generation_call"@.len() == 21 && "image_generation_call"@[0] == 'i',
        "code_interpreter_call"@.len() == 21 && "code_interpreter_call"@[0] == 'c',
        "reasoning"@.len() == 9,
{
    reveal_strlit("function_call");
    reveal_strlit("local_shell_call");
    reveal_strlit("custom_tool_call");
    reveal_strlit("x_search");
    reveal_strlit("x_search_call");
    reveal_strlit("web_search_call");
    reveal_strlit("file_search_call");
    reveal_strlit("computer_call");
    reveal_strlit("mcp_call");
    reveal_strlit("image_generation_call");
    reveal_strlit("code_interpreter_call");
    reveal_strlit("reasoning");
}

/// An item that tells of a tool which the provider runs gives the tool's name, its own
/// id and what the tool is about. Any other item that calls nothing gives no call.
pub proof fn law_provider_calls_name_their_tool(item: JsonView, index: u32)
    requires
        said(item.get("type"@)) != Some("function_call"@),
        said(item.get("type"@)) != Some("local_shell_call"@),
        said(item.get("type"@)) != Some("custom_tool_call"@),
    ensures
        ({
            let tool = match said(item.get("type"@)) {
                Some(kind) => run_by_provider(kind, said(item.get("name"@))),
                None => None,
            };
            &&& tool is None <==> item_delta(item, index) is None
            &&& item_delta(item, index) matches Some(delta) ==> {
                &&& delta.index == index
                &&& delta.id == said(first_there(item.get("id"@), item.get("call_id"@)))
                &&& delta.item_id is None
                &&& delta.kind == Some("server"@)
                &&& delta.thought_signature is None
                &&& delta.function matches Some(function) && {
                    &&& function.name == tool
                    &&& are_arguments(
                        function.arguments,
                        first_there(
                            first_there(item.get("action"@), item.get("arguments"@)),
                            item.get("input"@),
                        ),
                    )
                }
            }
        }),
{
    lemma_item_types();
    reveal_strlit("");
}

/// The frame speaks of something: the name of its event or its own type has it.
pub open spec fn speaks_of(event: Seq<char>, v: JsonView, what: Seq<char>) -> bool {
    text::contains_text(event, what) || (said(v.get("type"@)) matches Some(own)
        && text::contains_text(own, what))
}

proof fn lemma_speaks_of(event: Seq<char>, v: JsonView, what: Seq<char>)
    requires
        what.len() > 0,
    ensures
        mentions(event, or_empty(json::text_in(v.get("type"@))), what) == speaks_of(event, v, what),
{
    reveal_strlit("");
    if said(v.get("type"@)) is None {
        assert(or_empty(json::text_in(v.get("type"@))).len() == 0);
    }
}

/// What a frame tells of: the first of these that its event or its type speaks of.
pub open spec fn told_kind(event: Seq<char>, v: JsonView) -> FrameKind {
    if speaks_of(event, v, "response.failed"@) {
        FrameKind::Failed
    } else if speaks_of(event, v, "response.completed"@) || speaks_of(
        event,
        v,
        "response.incomplete"@,
    ) || speaks_of(event, v, "response.done"@) {
        FrameKind::Terminal
    } else if speaks_of(event, v, "reasoning_summary_part.added"@) {
        FrameKind::SummaryPart
    } else if speaks_of(event, v, "reasoning_summary_text.delta"@) || speaks_of(
        event,
        v,
        "reasoning_text.delta"@,
    ) {
        FrameKind::Reasoning
    } else if speaks_of(event, v, "text.delta"@) {
        FrameKind::Text
    } else if speaks_of(event, v, "function_call_arguments.delta"@) {
        FrameKind::ArgumentsDelta
    } else if speaks_of(event, v, "function_call_arguments.done"@) {
        FrameKind::ArgumentsDone
    } else if speaks_of(event, v, "web_search_call"@) && !speaks_of(event, v, "output_item"@) {
        FrameKind::WebSearch
    } else if speaks_of(event, v, "custom_tool_call_input.delta"@) {
        FrameKind::CustomInput
    } else {
        FrameKind::Other
    }
}

proof fn lemma_part_of_a_part(text: Seq<char>, part: Seq<char>, small: Seq<char>)
    requires
        text::contains_text(text, part),
        text::contains_text(part, small),
    ensures
        text::contains_text(text, small),
{
    let at = choose|at: int| text::occurs_at(text, part, at);
    let within = choose|at: int| text::occurs_at(part, small, at);
    let place = text.subrange(at, at + part.len());
    assert(text.subrange(at + within, at + within + small.len()) =~= place.subrange(
        within,
        within + small.len(),
    ));
    assert(text::occurs_at(text, small, at + within));
}

proof fn lemma_told_kind(event: Seq<char>, v: JsonView)
    ensures
        kind_of_frame(event, or_empty(json::text_in(v.get("type"@)))) == told_kind(event, v),
        mentions(event, or_empty(json::text_in(v.get("type"@))), "output_item.added"@)
            == speaks_of(event, v, "output_item.added"@),
{
    reveal_strlit("response.failed");
    reveal_strlit("response.completed");
    reveal_strlit("response.incomplete");
    reveal_strlit("response.done");
    reveal_strlit("reasoning_summary_part.added");
    reveal_strlit("reasoning_summary_text.delta");
    reveal_strlit("reasoning_text.delta");
    reveal_strlit("output_text.delta");
    reveal_strlit("text.delta");
    reveal_strlit("function_call_arguments.delta");
    reveal_strlit("function_call_arguments.done");
    reveal_strlit("web_search_call");
    reveal_strlit("output_item");
    reveal_strlit("output_item.added");
    reveal_strlit("custom_tool_call_input.delta");
    lemma_speaks_of(event, v, "response.failed"@);
    lemma_speaks_of(event, v, "response.completed"@);
    lemma_speaks_of(event, v, "response.incomplete"@);
    lemma_speaks_of(event, v, "response.done"@);
    lemma_speaks_of(event, v, "reasoning_summary_part.added"@);
    lemma_speaks_of(event, v, "reasoning_summary_text.delta"@);
    lemma_speaks_of(event, v, "reasoning_text.delta"@);
    lemma_speaks_of(event, v, "output_text.delta"@);
    lemma_speaks_of(event, v, "text.delta"@);
    lemma_speaks_of(event, v, "function_call_arguments.delta"@);
    lemma_speaks_of(event, v, "function_call_arguments.done"@);
    lemma_speaks_of(event, v, "web_search_call"@);
    lemma_speaks_of(event, v, "output_item"@);
    lemma_speaks_of(event, v, "output_item.added"@);
    lemma_speaks_of(event, v, "custom_tool_call_input.delta"@);
    let long = "output_text.delta"@;
    let short = "text.delta"@;
    assert(long.subrange(7, 17) =~= short);
    assert(text::occurs_at(long, short, 7));
    if text::contains_text(event, long) {
        lemma_part_of_a_part(event, long, short);
    }
    if let Some(own) = said(v.get("type"@)) {
        if text::contains_text(own, long) {
            lemma_part_of_a_part(own, long, short);
        }
    }
}

/// The delta adds one call and nothing else.
pub open spec fn adds_one_call(delta: ChatChunkDeltaView) -> bool {
    &&& delta.tool_calls.len() == 1
    &&& delta.role is None
    &&& delta.content is None
    &&& delta.reasoning_content is None
    &&& delta.reasoning_items.len() == 0
    &&& delta.encrypted_reasoning is None
    &&& delta.final_output is None
}

/// The delta adds these texts and nothing else.
pub open spec fn adds_text(
    delta: ChatChunkDeltaView,
    content: Option<Seq<char>>,
    reasoning: Option<Seq<char>>,
) -> bool {
    &&& delta.content == content
    &&& delta.reasoning_content == reasoning
    &&& delta.tool_calls.len() == 0
    &&& delta.role is None
    &&& delta.reasoning_items.len() == 0
    &&& delta.encrypted_reasoning is None
    &&& delta.final_output is None
}

/// What a frame adds: more text and more reasoning are what stands under `delta`; a
/// further part of the summary begins with an empty line, but for the first.
pub proof fn law_text_frames_add_their_text(v: JsonView, added: bool, decoded: DecodedView)
    ensures
        adds_text(
            frame_delta(FrameKind::Text, v, added, decoded),
            said(v.get("delta"@)),
            None,
        ),
        adds_text(
            frame_delta(FrameKind::Reasoning, v, added, decoded),
            None,
            said(v.get("delta"@)),
        ),
        adds_text(
            frame_delta(FrameKind::SummaryPart, v, added, decoded),
            None,
            match v.get("summary_index"@) {
                Some(JsonView::Number(_, Some(n))) => if n > 0 {
                    Some("\n\n"@)
                } else {
                    None
                },
                _ => None,
            },
        ),
{
}

/// The number under the first of two keys, as far as 32 bits hold it, and 0 where there
/// is none.
pub open spec fn place_in_output(v: JsonView) -> int {
    match first_there(v.get("output_index"@), v.get("index"@)) {
        Some(JsonView::Number(_, Some(n))) => n as int % 0x1_0000_0000,
        _ => 0,
    }
}

/// More arguments of a function call are what stands under `delta`, and all of them
/// what stands under `arguments`; either way for the call that the frame names, at its
/// place in the output.
pub proof fn law_argument_frames_add_to_their_call(
    kind: FrameKind,
    v: JsonView,
    added: bool,
    decoded: DecodedView,
)
    requires
        kind == FrameKind::ArgumentsDelta || kind == FrameKind::ArgumentsDone,
    ensures
        ({
            let delta = frame_delta(kind, v, added, decoded);
            let call = delta.tool_calls[0];
            &&& adds_one_call(delta)
            &&& call.index == place_in_output(v)
            &&& call.kind == Some("function"@)
            &&& call.id == said_something(v.get("call_id"@))
            &&& said_something(v.get("item_id"@)) is Some ==> call.item_id == said_something(
                v.get("item_id"@),
            )
            &&& said_something(v.get("item_id"@)) is None ==> call.item_id == said_something(
                v.get("id"@),
            )
            &&& call.thought_signature is None
            &&& call.function matches Some(function) && {
                &&& function.name == said_something(v.get("name"@))
                &&& kind == FrameKind::ArgumentsDelta ==> function.arguments == said(
                    v.get("delta"@),
                )
                &&& kind == FrameKind::ArgumentsDone ==> are_arguments(
                    function.arguments,
                    v.get("arguments"@),
                )
            }
        }),
{
}

/// Progress of a web search is a call of the provider's tool under the search's own id.
/// More input of a custom tool is what stands under `delta`, for the call and the tool
/// that the frame names.
pub proof fn law_tool_frames_add_to_their_call(v: JsonView, added: bool, decoded: DecodedView)
    ensures
        ({
            let delta = frame_delta(FrameKind::WebSearch, v, added, decoded);
            let call = delta.tool_calls[0];
            &&& adds_one_call(delta)
            &&& call.index == place_in_output(v)
            &&& call.kind == Some("server"@)
            &&& call.id == said(first_there(v.get("item_id"@), v.get("id"@)))
            &&& call.item_id == said(v.get("item_id"@))
            &&& call.thought_signature is None
            &&& call.function matches Some(function) && function.name == Some("web_search"@)
                && function.arguments is None
        }),
        ({
            let delta = frame_delta(FrameKind::CustomInput, v, added, decoded);
            let call = delta.tool_calls[0];
            let name = said(v.get("name"@));
            let by_provider = name matches Some(name) && name.len() >= 2 && name[0] == 'x'
                && name[1] == '_';
            &&& adds_one_call(delta)
            &&& call.index == place_in_output(v)
            &&& by_provider ==> call.kind == Some("server"@)
            &&& !by_provider ==> call.kind == Some("custom_tool"@)
            &&& call.id == said(first_there(v.get("call_id"@), v.get("id"@)))
            &&& call.item_id is None
            &&& call.thought_signature is None
            &&& call.function matches Some(function) && function.name == name
                && function.arguments == said(v.get("delta"@))
        }),
{
    if let Some(name) = said(v.get("name"@)) {
        lemma_custom_kind(name);
    }
}

/// The end of a response adds the items of its output that could be decoded, in their
/// order, and nothing where there are none.
pub proof fn law_ends_add_the_output(v: JsonView, added: bool, decoded: DecodedView)
    ensures
        ({
            let delta = frame_delta(FrameKind::Terminal, v, added, decoded);
            let response = match v.get("response"@) {
                Some(response) => response.get("output"@),
                None => None,
            };
            &&& adds_text(ChatChunkDeltaView { final_output: None, ..delta }, None, None)
            &&& match first_there(response, v.get("output"@)) {
                Some(JsonView::Array(output)) => {
                    let read = decoded.terminal.take(
                        if output.len() < decoded.terminal.len() {
                            output.len() as int
                        } else {
                            decoded.terminal.len() as int
                        },
                    ).filter(|item: Option<OutputItemWireView>| item is Some);
                    &&& read.len() == 0 ==> delta.final_output is None
                    &&& read.len() > 0 ==> delta.final_output is Some
                    &&& delta.final_output matches Some(items) ==> {
                        &&& items.len() == read.len()
                        &&& forall|i: int|
                            0 <= i < items.len() ==> Some(#[trigger] items[i]) == read[i]
                    }
                },
                _ => delta.final_output is None,
            }
        }),
{
    if let Some(output) = terminal_output(v) {
        lemma_decoded_items(decoded.terminal, output.len());
    }
}

proof fn lemma_decoded_items(items: Seq<Option<OutputItemWireView>>, n: nat)
    ensures
        ({
            let m = if n < items.len() {
                n as int
            } else {
                items.len() as int
            };
            let read = items.take(m).filter(|item: Option<OutputItemWireView>| item is Some);
            let found = decoded_items(items, n);
            &&& found.len() == read.len()
            &&& forall|i: int| 0 <= i < found.len() ==> Some(#[trigger] found[i]) == read[i]
        }),
    decreases n,
{
    reveal(Seq::filter);
    if n == 0 {
        assert(items.take(0) =~= Seq::empty());
    } else {
        lemma_decoded_items(items, (n - 1) as nat);
        if n <= items.len() {
            assert(items.take(n as int).drop_last() =~= items.take(n - 1));
            assert(items.take(n as int).last() == items[n - 1]);
        } else if n - 1 >= items.len() {
            assert(items.take(items.len() as int) =~= items);
        }
    }
}

/// Any other frame adds what its item says: reasoning as it was decoded, once it is
/// complete, or the call that it is. What a call that was just added says of its
/// arguments counts only where it is the client's and more than a placeholder.
pub proof fn law_item_frames_add_their_item(v: JsonView, added: bool, decoded: DecodedView)
    requires
        first_there(v.get("item"@), v.get("reasoning"@)) is Some,
    ensures
        ({
            let item = first_there(v.get("item"@), v.get("reasoning"@)).unwrap();
            let delta = frame_delta(FrameKind::Other, v, added, decoded);
            if said(item.get("type"@)) == Some("reasoning"@) {
                if added || decoded.item is None {
                    adds_text(delta, None, None)
                } else {
                    &&& delta.reasoning_items == seq![decoded.item.unwrap()]
                    &&& delta.encrypted_reasoning == decoded.item.unwrap().encrypted_content
                    &&& adds_text(
                        ChatChunkDeltaView {
                            reasoning_items: Seq::empty(),
                            encrypted_reasoning: None,
                            ..delta
                        },
                        None,
                        None,
                    )
                }
            } else {
                match item_delta(item, place_in_output(v) as u32) {
                    Some(call) => {
                        let told = delta.tool_calls[0];
                        let pending = call.function matches Some(function) && (call.kind == Some(
                            "server"@,
                        ) || (function.arguments matches Some(arguments) && (text::trimmed(
                            arguments,
                        ).len() == 0 || text::trimmed(arguments) == "{}"@)));
                        &&& adds_one_call(delta)
                        &&& !(added && pending) ==> told == call
                        &&& added && pending ==> told == (ToolCallDeltaView {
                            function: Some(
                                ToolCallFunctionDeltaView {
                                    name: call.function.unwrap().name,
                                    arguments: None,
                                },
                            ),
                            ..call
                        })
                    },
                    None => adds_text(delta, None, None),
                }
            }
        }),
{
    lemma_item_types();
    reveal_strlit("");
    let item = first_there(v.get("item"@), v.get("reasoning"@)).unwrap();
    assert(type_of(item) == "reasoning"@ <==> said(item.get("type"@)) == Some("reasoning"@));
}

/// A frame without an item adds what its output says, or else the text under `delta`.
pub proof fn law_plain_frames_add_output_or_text(v: JsonView, added: bool, decoded: DecodedView)
    requires
        v.get("item"@) is None,
        v.get("reasoning"@) is None,
    ensures
        ({
            let delta = frame_delta(FrameKind::Other, v, added, decoded);
            let response = match v.get("response"@) {
                Some(response) => response.get("output"@),
                None => None,
            };
            match first_there(v.get("output"@), response) {
                Some(JsonView::Array(output)) => delta == output_delta(
                    output,
                    decoded.output,
                    output.len(),
                ),
                _ => adds_text(delta, said(v.get("delta"@)), None),
            }
        }),
{
}

/// What one more item of an output adds: its reasoning, as it was decoded, behind that
/// of the items before it; or its text, in place of theirs.
pub proof fn law_outputs_add_item_by_item(
    output: Seq<JsonView>,
    decoded: Seq<Option<ReasoningItemView>>,
    n: nat,
)
    ensures
        adds_text(output_delta(output, decoded, 0), None, None),
        ({
            let before = output_delta(output, decoded, n);
            let after = output_delta(output, decoded, n + 1);
            let item = output[n as int];
            let read = if n < decoded.len() {
                decoded[n as int]
            } else {
                None
            };
            if said(item.get("type"@)) == Some("reasoning"@) {
                &&& read is None ==> after == before
                &&& read is Some ==> {
                    &&& after.reasoning_items == before.reasoning_items.push(read.unwrap())
                    &&& after.encrypted_reasoning == read.unwrap().encrypted_content
                    &&& after.content == before.content
                    &&& after.reasoning_content == before.reasoning_content
                    &&& after.tool_calls == before.tool_calls
                    &&& after.final_output == before.final_output
                    &&& after.role == before.role
                }
            } else {
                &&& after.content == (if said(item.get("content"@)) is Some {
                    said(item.get("content"@))
                } else {
                    before.content
                })
                &&& after.reasoning_items == before.reasoning_items
                &&& after.encrypted_reasoning == before.encrypted_reasoning
                &&& after.reasoning_content == before.reasoning_content
                &&& after.tool_calls == before.tool_calls
                &&& after.final_output == before.final_output
                &&& after.role == before.role
            }
        }),
{
}

/// The number, as far as 32 bits hold it, and 0 where it is none.
pub open spec fn counted(value: Option<JsonView>) -> int {
    match value {
        Some(JsonView::Number(_, Some(n))) => n as int % 0x1_0000_0000,
        _ => 0,
    }
}

/// The usage that a frame reports, or that its response reports, under either of the
/// names that tokens go by.
pub proof fn law_usage_is_counted(v: JsonView)
    ensures
        ({
            let response = match v.get("response"@) {
                Some(response) => response.get("usage"@),
                None => None,
            };
            match first_there(v.get("usage"@), response) {
                Some(usage) => usage_of(v) matches Some(tokens) && {
                    &&& tokens.prompt_tokens == counted(
                        first_there(usage.get("input_tokens"@), usage.get("prompt_tokens"@)),
                    )
                    &&& tokens.completion_tokens == counted(
                        first_there(usage.get("output_tokens"@), usage.get("completion_tokens"@)),
                    )
                    &&& tokens.total_tokens == counted(usage.get("total_tokens"@))
                },
                None => usage_of(v) is None,
            }
        }),
{
}

/// A response's id is what stands under `id` in the response, or in the frame, where it
/// begins with `resp_`.
pub proof fn law_response_ids_are_told_apart(v: JsonView, rest: Seq<char>)
    ensures
        ({
            let response = match v.get("response"@) {
                Some(response) => response.get("id"@),
                None => None,
            };
            let id = said(first_there(response, v.get("id"@)));
            &&& id == Some("resp_"@ + rest) ==> response_id_of(v) == "resp_"@ + rest
            &&& response_id_of(v).len() > 0 ==> Some(response_id_of(v)) == id && response_id_of(
                v,
            ).take(5) == "resp_"@
        }),
{
    reveal_strlit("");
    reveal_strlit("resp_");
    let whole = "resp_"@ + rest;
    assert(whole.subrange(0, 5) =~= "resp_"@);
    let id = response_id_of(v);
    if id.len() > 0 {
        assert(id.take(5) =~= id.subrange(0, 5));
    }
}

/// A frame comes to one chunk with what it adds, its usage, its id and its model, or to
/// nothing where it adds nothing and names neither usage nor response.
pub proof fn law_frames_come_to_one_chunk(event: Seq<char>, v: JsonView, decoded: DecodedView)
    requires
        told_kind(event, v) != FrameKind::Failed,
    ensures
        ({
            let delta = frame_delta(
                told_kind(event, v),
                v,
                speaks_of(event, v, "output_item.added"@),
                decoded,
            );
            let adds_nothing = delta.content is None && delta.reasoning_content is None
                && delta.reasoning_items.len() == 0 && delta.encrypted_reasoning is None
                && delta.tool_calls.len() == 0 && delta.final_output is None;
            let response = match v.get("response"@) {
                Some(response) => response.get("model"@),
                None => None,
            };
            let model = said(first_there(v.get("model"@), response));
            match frame_outcome(event, v, decoded) {
                Err(_) => false,
                Ok(None) => adds_nothing && usage_of(v) is None && response_id_of(v).len() == 0,
                Ok(Some(chunk)) => {
                    &&& !adds_nothing || usage_of(v) is Some || response_id_of(v).len() > 0
                    &&& chunk.choices.len() == 1
                    &&& chunk.choices[0].index == 0
                    &&& chunk.choices[0].delta == delta
                    &&& chunk.choices[0].finish_reason is None
                    &&& chunk.usage == usage_of(v)
                    &&& chunk.object == "response.chunk"@
                    &&& chunk.created == 0
                    &&& model is Some ==> chunk.model == model.unwrap()
                    &&& model is None ==> chunk.model.len() == 0
                    &&& response_id_of(v).len() > 0 ==> chunk.id == response_id_of(v)
                    &&& response_id_of(v).len() == 0 && said(v.get("id"@)) is Some ==> chunk.id
                        == said(v.get("id"@)).unwrap()
                    &&& response_id_of(v).len() == 0 && said(v.get("id"@)) is None
                        ==> chunk.id.len() == 0
                },
            }
        }),
{
    lemma_told_kind(event, v);
    reveal_strlit("");
}

/// A frame that tells of a failure is an error with the code and the message that its
/// response gives, or that it gives itself, or with words for them.
pub proof fn law_failures_give_code_and_message(
    event: Seq<char>,
    v: JsonView,
    decoded: DecodedView,
)
    requires
        told_kind(event, v) == FrameKind::Failed,
    ensures
        ({
            let response = match v.get("response"@) {
                Some(response) => response.get("error"@),
                None => None,
            };
            let (code, message) = match first_there(response, v.get("error"@)) {
                Some(error) => (said(error.get("code"@)), said(error.get("message"@))),
                None => (None, None),
            };
            let code = if code is Some {
                code.unwrap()
            } else {
                "response_failed"@
            };
            let message = if message is Some {
                message.unwrap()
            } else {
                "the server failed to generate a response"@
            };
            frame_outcome(event, v, decoded) == Err::<
                Option<ChatCompletionChunkView>,
                EngineErrorView,
            >(EngineErrorView::Llm("Responses API failed: "@ + code + ": "@ + message))
        }),
{
    lemma_told_kind(event, v);
}

/// The data of an event is read as the frame that it is, under its event's name in
/// lower case. Data that is a chunk itself comes out as that chunk, and data that is no
/// JSON as nothing.
pub proof fn law_events_are_read_as_frames(
    event: Seq<char>,
    data: Seq<char>,
    decoded: DecodedView,
)
    requires
        text::trimmed(data).len() > 0,
        text::trimmed(data) != "[DONE]"@,
    ensures
        ({
            let is_chunk = decoded.chunk matches Some(chunk) && chunk.choices.len() > 0;
            &&& is_chunk ==> chunk_of(event, data, decoded) == Ok::<
                Option<ChatCompletionChunkView>,
                EngineErrorView,
            >(decoded.chunk)
            &&& !is_chunk ==> match json::parsed_text(text::trimmed(data)) {
                Ok(v) => chunk_of(event, data, decoded) == frame_outcome(
                    text::lowercase_text(event),
                    v,
                    decoded,
                ),
                Err(_) => chunk_of(event, data, decoded) == Ok::<
                    Option<ChatCompletionChunkView>,
                    EngineErrorView,
                >(None),
            }
        }),
{
}

/// The decoders are to read the item of an event, the items of its response's output
/// and those of its own.
pub proof fn law_decoders_get_the_items(data: Seq<char>)
    ensures
        match json::parsed_text(text::trimmed(data)) {
            Ok(v) => {
                let response = match v.get("response"@) {
                    Some(response) => response.get("output"@),
                    None => None,
                };
                undecoded_of(data) matches Some(parts) && {
                    &&& parts.item == first_there(v.get("item"@), v.get("reasoning"@))
                    &&& match first_there(response, v.get("output"@)) {
                        Some(JsonView::Array(items)) => parts.terminal == items,
                        _ => parts.terminal.len() == 0,
                    }
                    &&& match first_there(v.get("output"@), response) {
                        Some(JsonView::Array(items)) => parts.output == items,
                        _ => parts.output.len() == 0,
                    }
                }
            },
            Err(_) => undecoded_of(data) is None,
        },
{
}

/// What the views of these values show is what the values hold, field by field.
pub proof fn law_views_leave_nothing_out(
    decoded: Decoded,
    undecoded: Undecoded,
)
    ensures
        ({
            let held = decoded.deep_view();
            &&& held.chunk == decoded.chunk.deep_view()
            &&& held.item == decoded.item.deep_view()
            &&& held.terminal == decoded.terminal.deep_view()
            &&& held.output == decoded.output.deep_view()
        }),
        ({
            let held = undecoded.deep_view();
            &&& held.item == undecoded.item.deep_view()
            &&& held.terminal == undecoded.terminal.deep_view()
            &&& held.output == undecoded.output.deep_view()
        }),
{
}

/// The call that an item of a function call comes to names the function that the item
/// names.
pub proof fn law_called_functions_keep_their_name(
    item: Json,
    index: u32,
    delta: Option<ToolCallDelta>,
    name: Seq<char>,
)
    requires
        call_ensures(tool_delta_from_output_item, (&item, index), delta),
        item.deep_view().get("type"@) == Some(JsonView::Text("function_call"@)),
        item.deep_view().get("name"@) == Some(JsonView::Text(name)),
        name.len() > 0,
    ensures
        delta.deep_view() matches Some(call) && {
            &&& call.kind == Some("function"@)
            &&& call.index == index
            &&& call.function matches Some(function) && function.name == Some(name)
        },
{
    law_function_calls_name_their_function(item.deep_view(), index);
}

} // verus!
