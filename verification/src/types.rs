//! Conversations, requests, response chunks and collected turns.
use vstd::prelude::*;

use crate::error::{EngineError, EngineErrorView};
use crate::json::{json_eq, Json, JsonView};
use crate::text::str_eq;

verus! {

// ── Tools ───────────────────────────────────────────────────────────────

/// The function that a tool call names.
#[derive(Debug, PartialEq, Eq)]
pub struct ToolCallFunction {
    pub name: String,
    /// The arguments as the model wrote them.
    pub arguments: String,
    /// The arguments in the form in which a provider accepts them back.
    pub wire_arguments: String,
}

/// What a [`ToolCallFunction`] holds.
#[verifier::ext_equal]
pub struct ToolCallFunctionView {
    pub name: Seq<char>,
    pub arguments: Seq<char>,
    pub wire_arguments: Seq<char>,
}

impl DeepView for ToolCallFunction {
    type V = ToolCallFunctionView;

    open spec fn deep_view(&self) -> ToolCallFunctionView {
        ToolCallFunctionView {
            name: self.name@,
            arguments: self.arguments@,
            wire_arguments: self.wire_arguments@,
        }
    }
}

impl Clone for ToolCallFunction {
    fn clone(&self) -> (out: ToolCallFunction)
        ensures
            out.deep_view() == self.deep_view(),
    {
        ToolCallFunction {
            name: self.name.clone(),
            arguments: self.arguments.clone(),
            wire_arguments: self.wire_arguments.clone(),
        }
    }
}

/// A call of a tool by the model.
#[derive(Debug, PartialEq, Eq)]
pub struct ToolCall {
    pub id: String,
    /// `function`, `local_shell`, `custom_tool`, or `server` for a tool that the
    /// provider runs itself.
    pub kind: String,
    pub function: ToolCallFunction,
    pub thought_signature: Option<String>,
}

/// What a [`ToolCall`] holds.
#[verifier::ext_equal]
pub struct ToolCallView {
    pub id: Seq<char>,
    pub kind: Seq<char>,
    pub function: ToolCallFunctionView,
    pub thought_signature: Option<Seq<char>>,
}

impl DeepView for ToolCall {
    type V = ToolCallView;

    open spec fn deep_view(&self) -> ToolCallView {
        ToolCallView {
            id: self.id@,
            kind: self.kind@,
            function: self.function.deep_view(),
            thought_signature: self.thought_signature.deep_view(),
        }
    }
}

impl Clone for ToolCall {
    fn clone(&self) -> (out: ToolCall)
        ensures
            out.deep_view() == self.deep_view(),
    {
        ToolCall {
            id: self.id.clone(),
            kind: self.kind.clone(),
            function: self.function.clone(),
            thought_signature: self.thought_signature.clone(),
        }
    }
}

/// What a function tool offers.
#[derive(Debug, PartialEq, Eq)]
pub struct FunctionDefinition {
    pub name: String,
    pub description: String,
    /// The JSON schema of its arguments.
    pub parameters: Json,
}

/// What a [`FunctionDefinition`] holds.
#[verifier::ext_equal]
pub struct FunctionDefinitionView {
    pub name: Seq<char>,
    pub description: Seq<char>,
    pub parameters: JsonView,
}

impl DeepView for FunctionDefinition {
    type V = FunctionDefinitionView;

    open spec fn deep_view(&self) -> FunctionDefinitionView {
        FunctionDefinitionView {
            name: self.name@,
            description: self.description@,
            parameters: self.parameters.deep_view(),
        }
    }
}

impl Clone for FunctionDefinition {
    fn clone(&self) -> (out: FunctionDefinition)
        ensures
            out.deep_view() == self.deep_view(),
    {
        FunctionDefinition {
            name: self.name.clone(),
            description: self.description.clone(),
            parameters: self.parameters.clone(),
        }
    }
}

/// A tool that the client runs.
#[derive(Debug, PartialEq, Eq)]
pub struct ToolDefinition {
    pub function: FunctionDefinition,
}

/// What a [`ToolDefinition`] holds.
#[verifier::ext_equal]
pub struct ToolDefinitionView {
    pub function: FunctionDefinitionView,
}

impl DeepView for ToolDefinition {
    type V = ToolDefinitionView;

    open spec fn deep_view(&self) -> ToolDefinitionView {
        ToolDefinitionView {
            function: self.function.deep_view(),
        }
    }
}

impl Clone for ToolDefinition {
    fn clone(&self) -> (out: ToolDefinition)
        ensures
            out.deep_view() == self.deep_view(),
    {
        ToolDefinition {
            function: self.function.clone(),
        }
    }
}

/// A tool that the provider runs.
#[derive(Debug, PartialEq, Eq)]
pub struct HostedTool {
    /// The name under which the provider knows it.
    pub wire_name: String,
    /// How a request lists it.
    pub entry: Json,
}

/// What a [`HostedTool`] holds.
#[verifier::ext_equal]
pub struct HostedToolView {
    pub wire_name: Seq<char>,
    pub entry: JsonView,
}

impl DeepView for HostedTool {
    type V = HostedToolView;

    open spec fn deep_view(&self) -> HostedToolView {
        HostedToolView {
            wire_name: self.wire_name@,
            entry: self.entry.deep_view(),
        }
    }
}

impl Clone for HostedTool {
    fn clone(&self) -> (out: HostedTool)
        ensures
            out.deep_view() == self.deep_view(),
    {
        HostedTool {
            wire_name: self.wire_name.clone(),
            entry: self.entry.clone(),
        }
    }
}

// ── Conversation ────────────────────────────────────────────────────────

/// A piece of the model's reasoning.
#[derive(Debug, PartialEq, Eq)]
pub struct ReasoningItem {
    pub id: String,
    pub summary: Vec<Json>,
    pub content: Option<Vec<Json>>,
    pub encrypted_content: Option<String>,
    pub status: Option<String>,
}

/// What a [`ReasoningItem`] holds.
#[verifier::ext_equal]
pub struct ReasoningItemView {
    pub id: Seq<char>,
    pub summary: Seq<JsonView>,
    pub content: Option<Seq<JsonView>>,
    pub encrypted_content: Option<Seq<char>>,
    pub status: Option<Seq<char>>,
}

impl DeepView for ReasoningItem {
    type V = ReasoningItemView;

    open spec fn deep_view(&self) -> ReasoningItemView {
        ReasoningItemView {
            id: self.id@,
            summary: self.summary.deep_view(),
            content: self.content.deep_view(),
            encrypted_content: self.encrypted_content.deep_view(),
            status: self.status.deep_view(),
        }
    }
}

impl Clone for ReasoningItem {
    fn clone(&self) -> (out: ReasoningItem)
        ensures
            out.deep_view() == self.deep_view(),
    {
        ReasoningItem {
            id: self.id.clone(),
            summary: self.summary.clone(),
            content: self.content.clone(),
            encrypted_content: self.encrypted_content.clone(),
            status: self.status.clone(),
        }
    }
}

/// Instructions to the model.
#[derive(Debug, PartialEq, Eq)]
pub struct SystemItem {
    pub content: String,
}

/// What a [`SystemItem`] holds.
#[verifier::ext_equal]
pub struct SystemItemView {
    pub content: Seq<char>,
}

impl DeepView for SystemItem {
    type V = SystemItemView;

    open spec fn deep_view(&self) -> SystemItemView {
        SystemItemView {
            content: self.content@,
        }
    }
}

impl Clone for SystemItem {
    fn clone(&self) -> (out: SystemItem)
        ensures
            out.deep_view() == self.deep_view(),
    {
        SystemItem {
            content: self.content.clone(),
        }
    }
}

/// What a user's message comes to on the wire.
#[derive(Debug, PartialEq, Eq)]
pub enum UserContent {
    /// The content of the message.
    Ready(Json),
    /// Why one of its attachments cannot be sent.
    Unsendable(EngineError),
}

/// What a [`UserContent`] holds.
#[verifier::ext_equal]
pub enum UserContentView {
    Ready(JsonView),
    Unsendable(EngineErrorView),
}

impl DeepView for UserContent {
    type V = UserContentView;

    open spec fn deep_view(&self) -> UserContentView {
        match *self {
            UserContent::Ready(a) => UserContentView::Ready(a.deep_view()),
            UserContent::Unsendable(a) => UserContentView::Unsendable(a.deep_view()),
        }
    }
}

impl Clone for UserContent {
    fn clone(&self) -> (out: UserContent)
        ensures
            out.deep_view() == self.deep_view(),
    {
        match self {
            UserContent::Ready(a) => UserContent::Ready(a.clone()),
            UserContent::Unsendable(a) => UserContent::Unsendable(a.clone()),
        }
    }
}

/// A message of the user.
#[derive(Debug, PartialEq, Eq)]
pub struct UserItem {
    pub content: UserContent,
}

/// What a [`UserItem`] holds.
#[verifier::ext_equal]
pub struct UserItemView {
    pub content: UserContentView,
}

impl DeepView for UserItem {
    type V = UserItemView;

    open spec fn deep_view(&self) -> UserItemView {
        UserItemView {
            content: self.content.deep_view(),
        }
    }
}

impl Clone for UserItem {
    fn clone(&self) -> (out: UserItem)
        ensures
            out.deep_view() == self.deep_view(),
    {
        UserItem {
            content: self.content.clone(),
        }
    }
}

/// A call of a tool that the provider ran, kept as it was received.
#[derive(Debug, PartialEq, Eq)]
pub struct BackendToolCallItem {
    pub payload: Json,
}

/// What a [`BackendToolCallItem`] holds.
#[verifier::ext_equal]
pub struct BackendToolCallItemView {
    pub payload: JsonView,
}

impl DeepView for BackendToolCallItem {
    type V = BackendToolCallItemView;

    open spec fn deep_view(&self) -> BackendToolCallItemView {
        BackendToolCallItemView {
            payload: self.payload.deep_view(),
        }
    }
}

impl Clone for BackendToolCallItem {
    fn clone(&self) -> (out: BackendToolCallItem)
        ensures
            out.deep_view() == self.deep_view(),
    {
        BackendToolCallItem {
            payload: self.payload.clone(),
        }
    }
}

/// A message of the model.
#[derive(Debug, PartialEq, Eq)]
pub struct AssistantItem {
    pub content: String,
    pub tool_calls: Vec<ToolCall>,
    pub reasoning_content: Option<String>,
    pub encrypted_reasoning: Option<String>,
    /// The compatibility key of the provider that wrote it.
    pub origin: Option<String>,
}

/// What a [`AssistantItem`] holds.
#[verifier::ext_equal]
pub struct AssistantItemView {
    pub content: Seq<char>,
    pub tool_calls: Seq<ToolCallView>,
    pub reasoning_content: Option<Seq<char>>,
    pub encrypted_reasoning: Option<Seq<char>>,
    pub origin: Option<Seq<char>>,
}

impl DeepView for AssistantItem {
    type V = AssistantItemView;

    open spec fn deep_view(&self) -> AssistantItemView {
        AssistantItemView {
            content: self.content@,
            tool_calls: self.tool_calls.deep_view(),
            reasoning_content: self.reasoning_content.deep_view(),
            encrypted_reasoning: self.encrypted_reasoning.deep_view(),
            origin: self.origin.deep_view(),
        }
    }
}

impl Clone for AssistantItem {
    fn clone(&self) -> (out: AssistantItem)
        ensures
            out.deep_view() == self.deep_view(),
    {
        AssistantItem {
            content: self.content.clone(),
            tool_calls: self.tool_calls.clone(),
            reasoning_content: self.reasoning_content.clone(),
            encrypted_reasoning: self.encrypted_reasoning.clone(),
            origin: self.origin.clone(),
        }
    }
}

/// What a tool gave back.
#[derive(Debug, PartialEq, Eq)]
pub struct ToolResultItem {
    pub tool_call_id: String,
    pub content: String,
}

/// What a [`ToolResultItem`] holds.
#[verifier::ext_equal]
pub struct ToolResultItemView {
    pub tool_call_id: Seq<char>,
    pub content: Seq<char>,
}

impl DeepView for ToolResultItem {
    type V = ToolResultItemView;

    open spec fn deep_view(&self) -> ToolResultItemView {
        ToolResultItemView {
            tool_call_id: self.tool_call_id@,
            content: self.content@,
        }
    }
}

impl Clone for ToolResultItem {
    fn clone(&self) -> (out: ToolResultItem)
        ensures
            out.deep_view() == self.deep_view(),
    {
        ToolResultItem {
            tool_call_id: self.tool_call_id.clone(),
            content: self.content.clone(),
        }
    }
}

/// One step of a conversation.
#[derive(Debug, PartialEq, Eq)]
pub enum ConversationItem {
    System(SystemItem),
    User(UserItem),
    Reasoning(ReasoningItem),
    BackendToolCall(BackendToolCallItem),
    Assistant(AssistantItem),
    ToolResult(ToolResultItem),
}

/// What a [`ConversationItem`] holds.
#[verifier::ext_equal]
pub enum ConversationItemView {
    System(SystemItemView),
    User(UserItemView),
    Reasoning(ReasoningItemView),
    BackendToolCall(BackendToolCallItemView),
    Assistant(AssistantItemView),
    ToolResult(ToolResultItemView),
}

impl DeepView for ConversationItem {
    type V = ConversationItemView;

    open spec fn deep_view(&self) -> ConversationItemView {
        match *self {
            ConversationItem::System(a) => ConversationItemView::System(a.deep_view()),
            ConversationItem::User(a) => ConversationItemView::User(a.deep_view()),
            ConversationItem::Reasoning(a) => ConversationItemView::Reasoning(a.deep_view()),
            ConversationItem::BackendToolCall(a) => ConversationItemView::BackendToolCall(
                a.deep_view(),
            ),
            ConversationItem::Assistant(a) => ConversationItemView::Assistant(a.deep_view()),
            ConversationItem::ToolResult(a) => ConversationItemView::ToolResult(a.deep_view()),
        }
    }
}

impl Clone for ConversationItem {
    fn clone(&self) -> (out: ConversationItem)
        ensures
            out.deep_view() == self.deep_view(),
    {
        match self {
            ConversationItem::System(a) => ConversationItem::System(a.clone()),
            ConversationItem::User(a) => ConversationItem::User(a.clone()),
            ConversationItem::Reasoning(a) => ConversationItem::Reasoning(a.clone()),
            ConversationItem::BackendToolCall(a) => ConversationItem::BackendToolCall(a.clone()),
            ConversationItem::Assistant(a) => ConversationItem::Assistant(a.clone()),
            ConversationItem::ToolResult(a) => ConversationItem::ToolResult(a.clone()),
        }
    }
}

/// A request for the model's next turn.
#[derive(Debug, PartialEq, Eq)]
pub struct ConversationRequest {
    pub model: String,
    pub items: Vec<ConversationItem>,
    pub stream: Option<bool>,
    pub tools: Option<Vec<ToolDefinition>>,
    pub tool_choice: Option<Json>,
    pub temperature: Option<Json>,
    pub max_tokens: Option<u32>,
    pub reasoning_effort: Option<String>,
    pub hosted_tools: Vec<HostedTool>,
    pub previous_response_id: Option<String>,
    /// The format that the text of the answer must have.
    pub response_format: Option<Json>,
}

/// What a [`ConversationRequest`] holds.
#[verifier::ext_equal]
pub struct ConversationRequestView {
    pub model: Seq<char>,
    pub items: Seq<ConversationItemView>,
    pub stream: Option<bool>,
    pub tools: Option<Seq<ToolDefinitionView>>,
    pub tool_choice: Option<JsonView>,
    pub temperature: Option<JsonView>,
    pub max_tokens: Option<u32>,
    pub reasoning_effort: Option<Seq<char>>,
    pub hosted_tools: Seq<HostedToolView>,
    pub previous_response_id: Option<Seq<char>>,
    pub response_format: Option<JsonView>,
}

impl DeepView for ConversationRequest {
    type V = ConversationRequestView;

    open spec fn deep_view(&self) -> ConversationRequestView {
        ConversationRequestView {
            model: self.model@,
            items: self.items.deep_view(),
            stream: self.stream.deep_view(),
            tools: self.tools.deep_view(),
            tool_choice: self.tool_choice.deep_view(),
            temperature: self.temperature.deep_view(),
            max_tokens: self.max_tokens.deep_view(),
            reasoning_effort: self.reasoning_effort.deep_view(),
            hosted_tools: self.hosted_tools.deep_view(),
            previous_response_id: self.previous_response_id.deep_view(),
            response_format: self.response_format.deep_view(),
        }
    }
}

impl Clone for ConversationRequest {
    fn clone(&self) -> (out: ConversationRequest)
        ensures
            out.deep_view() == self.deep_view(),
    {
        ConversationRequest {
            model: self.model.clone(),
            items: self.items.clone(),
            stream: self.stream.clone(),
            tools: self.tools.clone(),
            tool_choice: self.tool_choice.clone(),
            temperature: self.temperature.clone(),
            max_tokens: self.max_tokens.clone(),
            reasoning_effort: self.reasoning_effort.clone(),
            hosted_tools: self.hosted_tools.clone(),
            previous_response_id: self.previous_response_id.clone(),
            response_format: self.response_format.clone(),
        }
    }
}

// ── Response chunks ─────────────────────────────────────────────────────

/// What a chunk adds to the function of a tool call.
#[derive(Debug, PartialEq, Eq)]
pub struct ToolCallFunctionDelta {
    pub name: Option<String>,
    pub arguments: Option<String>,
}

/// What a [`ToolCallFunctionDelta`] holds.
#[verifier::ext_equal]
pub struct ToolCallFunctionDeltaView {
    pub name: Option<Seq<char>>,
    pub arguments: Option<Seq<char>>,
}

impl DeepView for ToolCallFunctionDelta {
    type V = ToolCallFunctionDeltaView;

    open spec fn deep_view(&self) -> ToolCallFunctionDeltaView {
        ToolCallFunctionDeltaView {
            name: self.name.deep_view(),
            arguments: self.arguments.deep_view(),
        }
    }
}

impl Clone for ToolCallFunctionDelta {
    fn clone(&self) -> (out: ToolCallFunctionDelta)
        ensures
            out.deep_view() == self.deep_view(),
    {
        ToolCallFunctionDelta {
            name: self.name.clone(),
            arguments: self.arguments.clone(),
        }
    }
}

/// What a chunk adds to a tool call.
#[derive(Debug, PartialEq, Eq)]
pub struct ToolCallDelta {
    pub index: u32,
    pub id: Option<String>,
    pub item_id: Option<String>,
    pub kind: Option<String>,
    pub function: Option<ToolCallFunctionDelta>,
    pub thought_signature: Option<String>,
}

/// What a [`ToolCallDelta`] holds.
#[verifier::ext_equal]
pub struct ToolCallDeltaView {
    pub index: u32,
    pub id: Option<Seq<char>>,
    pub item_id: Option<Seq<char>>,
    pub kind: Option<Seq<char>>,
    pub function: Option<ToolCallFunctionDeltaView>,
    pub thought_signature: Option<Seq<char>>,
}

impl DeepView for ToolCallDelta {
    type V = ToolCallDeltaView;

    open spec fn deep_view(&self) -> ToolCallDeltaView {
        ToolCallDeltaView {
            index: self.index,
            id: self.id.deep_view(),
            item_id: self.item_id.deep_view(),
            kind: self.kind.deep_view(),
            function: self.function.deep_view(),
            thought_signature: self.thought_signature.deep_view(),
        }
    }
}

impl Clone for ToolCallDelta {
    fn clone(&self) -> (out: ToolCallDelta)
        ensures
            out.deep_view() == self.deep_view(),
    {
        ToolCallDelta {
            index: self.index,
            id: self.id.clone(),
            item_id: self.item_id.clone(),
            kind: self.kind.clone(),
            function: self.function.clone(),
            thought_signature: self.thought_signature.clone(),
        }
    }
}

/// An item of a finished response.
#[derive(Debug, PartialEq, Eq)]
pub enum OutputItemWire {
    Message { text: String, raw: Json },
    LocalShellCall { call_id: Option<String>, raw: Json },
    Other { raw: Json },
}

/// What a [`OutputItemWire`] holds.
#[verifier::ext_equal]
pub enum OutputItemWireView {
    Message { text: Seq<char>, raw: JsonView },
    LocalShellCall { call_id: Option<Seq<char>>, raw: JsonView },
    Other { raw: JsonView },
}

impl DeepView for OutputItemWire {
    type V = OutputItemWireView;

    open spec fn deep_view(&self) -> OutputItemWireView {
        match *self {
            OutputItemWire::Message { text, raw } => OutputItemWireView::Message {
                text: text@,
                raw: raw.deep_view(),
            },
            OutputItemWire::LocalShellCall { call_id, raw } => OutputItemWireView::LocalShellCall {
                call_id: call_id.deep_view(),
                raw: raw.deep_view(),
            },
            OutputItemWire::Other { raw } => OutputItemWireView::Other { raw: raw.deep_view() },
        }
    }
}

impl Clone for OutputItemWire {
    fn clone(&self) -> (out: OutputItemWire)
        ensures
            out.deep_view() == self.deep_view(),
    {
        match self {
            OutputItemWire::Message { text, raw } => OutputItemWire::Message {
                text: text.clone(),
                raw: raw.clone(),
            },
            OutputItemWire::LocalShellCall { call_id, raw } => OutputItemWire::LocalShellCall {
                call_id: call_id.clone(),
                raw: raw.clone(),
            },
            OutputItemWire::Other { raw } => OutputItemWire::Other { raw: raw.clone() },
        }
    }
}

/// What a chunk adds to the turn.
#[derive(Debug, PartialEq, Eq)]
pub struct ChatChunkDelta {
    pub role: Option<String>,
    pub content: Option<String>,
    pub reasoning_content: Option<String>,
    pub reasoning_items: Vec<ReasoningItem>,
    pub encrypted_reasoning: Option<String>,
    pub tool_calls: Vec<ToolCallDelta>,
    pub final_output: Option<Vec<OutputItemWire>>,
}

/// What a [`ChatChunkDelta`] holds.
#[verifier::ext_equal]
pub struct ChatChunkDeltaView {
    pub role: Option<Seq<char>>,
    pub content: Option<Seq<char>>,
    pub reasoning_content: Option<Seq<char>>,
    pub reasoning_items: Seq<ReasoningItemView>,
    pub encrypted_reasoning: Option<Seq<char>>,
    pub tool_calls: Seq<ToolCallDeltaView>,
    pub final_output: Option<Seq<OutputItemWireView>>,
}

impl DeepView for ChatChunkDelta {
    type V = ChatChunkDeltaView;

    open spec fn deep_view(&self) -> ChatChunkDeltaView {
        ChatChunkDeltaView {
            role: self.role.deep_view(),
            content: self.content.deep_view(),
            reasoning_content: self.reasoning_content.deep_view(),
            reasoning_items: self.reasoning_items.deep_view(),
            encrypted_reasoning: self.encrypted_reasoning.deep_view(),
            tool_calls: self.tool_calls.deep_view(),
            final_output: self.final_output.deep_view(),
        }
    }
}

impl Clone for ChatChunkDelta {
    fn clone(&self) -> (out: ChatChunkDelta)
        ensures
            out.deep_view() == self.deep_view(),
    {
        ChatChunkDelta {
            role: self.role.clone(),
            content: self.content.clone(),
            reasoning_content: self.reasoning_content.clone(),
            reasoning_items: self.reasoning_items.clone(),
            encrypted_reasoning: self.encrypted_reasoning.clone(),
            tool_calls: self.tool_calls.clone(),
            final_output: self.final_output.clone(),
        }
    }
}

/// The tokens that a response took.
#[derive(Debug, PartialEq, Eq)]
pub struct Usage {
    pub prompt_tokens: u32,
    pub completion_tokens: u32,
    pub total_tokens: u32,
}

/// What a [`Usage`] holds.
#[verifier::ext_equal]
pub struct UsageView {
    pub prompt_tokens: u32,
    pub completion_tokens: u32,
    pub total_tokens: u32,
}

impl DeepView for Usage {
    type V = UsageView;

    open spec fn deep_view(&self) -> UsageView {
        UsageView {
            prompt_tokens: self.prompt_tokens,
            completion_tokens: self.completion_tokens,
            total_tokens: self.total_tokens,
        }
    }
}

impl Clone for Usage {
    fn clone(&self) -> (out: Usage)
        ensures
            out.deep_view() == self.deep_view(),
    {
        Usage {
            prompt_tokens: self.prompt_tokens,
            completion_tokens: self.completion_tokens,
            total_tokens: self.total_tokens,
        }
    }
}

/// One alternative of a chunk.
#[derive(Debug, PartialEq, Eq)]
pub struct ChatChunkChoice {
    pub index: u32,
    pub delta: ChatChunkDelta,
    pub finish_reason: Option<String>,
}

/// What a [`ChatChunkChoice`] holds.
#[verifier::ext_equal]
pub struct ChatChunkChoiceView {
    pub index: u32,
    pub delta: ChatChunkDeltaView,
    pub finish_reason: Option<Seq<char>>,
}

impl DeepView for ChatChunkChoice {
    type V = ChatChunkChoiceView;

    open spec fn deep_view(&self) -> ChatChunkChoiceView {
        ChatChunkChoiceView {
            index: self.index,
            delta: self.delta.deep_view(),
            finish_reason: self.finish_reason.deep_view(),
        }
    }
}

impl Clone for ChatChunkChoice {
    fn clone(&self) -> (out: ChatChunkChoice)
        ensures
            out.deep_view() == self.deep_view(),
    {
        ChatChunkChoice {
            index: self.index,
            delta: self.delta.clone(),
            finish_reason: self.finish_reason.clone(),
        }
    }
}

/// A piece of a response.
#[derive(Debug, PartialEq, Eq)]
pub struct ChatCompletionChunk {
    pub id: String,
    pub object: String,
    pub created: u64,
    pub model: String,
    pub choices: Vec<ChatChunkChoice>,
    pub usage: Option<Usage>,
}

/// What a [`ChatCompletionChunk`] holds.
#[verifier::ext_equal]
pub struct ChatCompletionChunkView {
    pub id: Seq<char>,
    pub object: Seq<char>,
    pub created: u64,
    pub model: Seq<char>,
    pub choices: Seq<ChatChunkChoiceView>,
    pub usage: Option<UsageView>,
}

impl DeepView for ChatCompletionChunk {
    type V = ChatCompletionChunkView;

    open spec fn deep_view(&self) -> ChatCompletionChunkView {
        ChatCompletionChunkView {
            id: self.id@,
            object: self.object@,
            created: self.created,
            model: self.model@,
            choices: self.choices.deep_view(),
            usage: self.usage.deep_view(),
        }
    }
}

impl Clone for ChatCompletionChunk {
    fn clone(&self) -> (out: ChatCompletionChunk)
        ensures
            out.deep_view() == self.deep_view(),
    {
        ChatCompletionChunk {
            id: self.id.clone(),
            object: self.object.clone(),
            created: self.created,
            model: self.model.clone(),
            choices: self.choices.clone(),
            usage: self.usage.clone(),
        }
    }
}

// ── Collected turns ─────────────────────────────────────────────────────

/// A turn of the model, put together from its chunks.
#[derive(Debug, PartialEq, Eq)]
pub struct CollectedTurn {
    pub items: Vec<ConversationItem>,
    pub text: String,
    pub reasoning: String,
    pub reasoning_items: Vec<ReasoningItem>,
    pub encrypted_reasoning: Option<String>,
    pub tool_calls: Vec<ToolCall>,
    pub finish_reason: Option<String>,
    pub usage: Option<Usage>,
    pub model: String,
    pub response_id: Option<String>,
    pub final_output: Option<Vec<OutputItemWire>>,
    pub provider_id: String,
    pub operation_id: String,
    pub attempts: u32,
}

/// What a [`CollectedTurn`] holds.
#[verifier::ext_equal]
pub struct CollectedTurnView {
    pub items: Seq<ConversationItemView>,
    pub text: Seq<char>,
    pub reasoning: Seq<char>,
    pub reasoning_items: Seq<ReasoningItemView>,
    pub encrypted_reasoning: Option<Seq<char>>,
    pub tool_calls: Seq<ToolCallView>,
    pub finish_reason: Option<Seq<char>>,
    pub usage: Option<UsageView>,
    pub model: Seq<char>,
    pub response_id: Option<Seq<char>>,
    pub final_output: Option<Seq<OutputItemWireView>>,
    pub provider_id: Seq<char>,
    pub operation_id: Seq<char>,
    pub attempts: u32,
}

impl DeepView for CollectedTurn {
    type V = CollectedTurnView;

    open spec fn deep_view(&self) -> CollectedTurnView {
        CollectedTurnView {
            items: self.items.deep_view(),
            text: self.text@,
            reasoning: self.reasoning@,
            reasoning_items: self.reasoning_items.deep_view(),
            encrypted_reasoning: self.encrypted_reasoning.deep_view(),
            tool_calls: self.tool_calls.deep_view(),
            finish_reason: self.finish_reason.deep_view(),
            usage: self.usage.deep_view(),
            model: self.model@,
            response_id: self.response_id.deep_view(),
            final_output: self.final_output.deep_view(),
            provider_id: self.provider_id@,
            operation_id: self.operation_id@,
            attempts: self.attempts,
        }
    }
}

impl Clone for CollectedTurn {
    fn clone(&self) -> (out: CollectedTurn)
        ensures
            out.deep_view() == self.deep_view(),
    {
        CollectedTurn {
            items: self.items.clone(),
            text: self.text.clone(),
            reasoning: self.reasoning.clone(),
            reasoning_items: self.reasoning_items.clone(),
            encrypted_reasoning: self.encrypted_reasoning.clone(),
            tool_calls: self.tool_calls.clone(),
            finish_reason: self.finish_reason.clone(),
            usage: self.usage.clone(),
            model: self.model.clone(),
            response_id: self.response_id.clone(),
            final_output: self.final_output.clone(),
            provider_id: self.provider_id.clone(),
            operation_id: self.operation_id.clone(),
            attempts: self.attempts,
        }
    }
}

impl CollectedTurnView {
    /// The turn says nothing and calls no tool.
    pub open spec fn is_empty(self) -> bool {
        self.text.len() == 0 && self.tool_calls.len() == 0
    }
}

impl CollectedTurn {
    /// Whether the turn says nothing and calls no tool.
    pub fn is_empty(&self) -> (empty: bool)
        ensures
            empty == self.deep_view().is_empty(),
    {
        self.text.as_str().is_empty() && self.tool_calls.len() == 0
    }
}

// ── Making and comparing items ──────────────────────────────────────────

/// A message of the model that holds only text.
pub open spec fn assistant_text(text: Seq<char>) -> AssistantItemView {
    AssistantItemView {
        content: text,
        tool_calls: Seq::empty(),
        reasoning_content: None,
        encrypted_reasoning: None,
        origin: None,
    }
}

impl UserItem {
    /// A message of plain text.
    pub fn text(text: &str) -> (item: UserItem)
        ensures
            item.deep_view() == (UserItemView {
                content: UserContentView::Ready(JsonView::Text(text@)),
            }),
    {
        UserItem { content: UserContent::Ready(Json::text(text)) }
    }
}

impl ConversationItem {
    /// A user's message of plain text.
    pub fn user(text: &str) -> (item: ConversationItem)
        ensures
            item.deep_view() == ConversationItemView::User(
                (UserItemView { content: UserContentView::Ready(JsonView::Text(text@)) }),
            ),
    {
        ConversationItem::User(UserItem::text(text))
    }

    /// A message of the model that holds only text.
    pub fn assistant(text: &str) -> (item: ConversationItem)
        ensures
            item.deep_view() == ConversationItemView::Assistant(assistant_text(text@)),
    {
        let item = AssistantItem {
            content: text.to_owned(),
            tool_calls: Vec::new(),
            reasoning_content: None,
            encrypted_reasoning: None,
            origin: None,
        };
        ConversationItem::Assistant(item)
    }
}

/// What a chunk adds that adds nothing.
pub open spec fn no_delta() -> ChatChunkDeltaView {
    ChatChunkDeltaView {
        role: None,
        content: None,
        reasoning_content: None,
        reasoning_items: Seq::empty(),
        encrypted_reasoning: None,
        tool_calls: Seq::empty(),
        final_output: None,
    }
}

impl Default for ChatChunkDelta {
    /// A delta that adds nothing.
    fn default() -> (delta: ChatChunkDelta)
        ensures
            delta.deep_view() == no_delta(),
    {
        ChatChunkDelta {
            role: None,
            content: None,
            reasoning_content: None,
            reasoning_items: Vec::new(),
            encrypted_reasoning: None,
            tool_calls: Vec::new(),
            final_output: None,
        }
    }
}

/// Whether two optional texts are the same.
pub fn opt_text_eq(a: &Option<String>, b: &Option<String>) -> (same: bool)
    ensures
        same == (a.deep_view() == b.deep_view()),
{
    match (a, b) {
        (Some(x), Some(y)) => str_eq(x.as_str(), y.as_str()),
        (None, None) => true,
        _ => false,
    }
}

/// Whether two lists of JSON values are the same.
pub fn json_list_eq(a: &Vec<Json>, b: &Vec<Json>) -> (same: bool)
    ensures
        same == (a.deep_view() == b.deep_view()),
{
    let ghost xs = a.deep_view();
    let ghost ys = b.deep_view();
    if a.len() != b.len() {
        assert(xs.len() != ys.len());
        return false;
    }
    for i in 0..a.len()
        invariant
            xs == a.deep_view(),
            ys == b.deep_view(),
            a.len() == b.len(),
            forall|j: int| 0 <= j < i ==> xs[j] == ys[j],
    {
        if !json_eq(&a[i], &b[i]) {
            assert(xs[i as int] != ys[i as int]);
            return false;
        }
    }
    assert(xs =~= ys);
    true
}

impl ReasoningItem {
    /// Whether two pieces of reasoning are the same.
    pub fn same_as(&self, other: &ReasoningItem) -> (same: bool)
        ensures
            same == (self.deep_view() == other.deep_view()),
    {
        let same_content = match (&self.content, &other.content) {
            (Some(x), Some(y)) => json_list_eq(x, y),
            (None, None) => true,
            _ => false,
        };
        same_content && str_eq(self.id.as_str(), other.id.as_str()) && json_list_eq(
            &self.summary,
            &other.summary,
        ) && opt_text_eq(&self.encrypted_content, &other.encrypted_content) && opt_text_eq(
            &self.status,
            &other.status,
        )
    }
}

// ── Messages of one provider's history ──────────────────────────────────

/// A message of the model in a chat history.
#[derive(Debug, PartialEq, Eq)]
pub struct ChatMessage {
    pub content: String,
    pub reasoning_content: Option<String>,
    pub reasoning_items: Vec<ReasoningItem>,
    pub encrypted_reasoning: Option<String>,
    /// The compatibility key of the provider that wrote it.
    pub origin: Option<String>,
}

/// What a [`ChatMessage`] holds.
#[verifier::ext_equal]
pub struct ChatMessageView {
    pub content: Seq<char>,
    pub reasoning_content: Option<Seq<char>>,
    pub reasoning_items: Seq<ReasoningItemView>,
    pub encrypted_reasoning: Option<Seq<char>>,
    pub origin: Option<Seq<char>>,
}

impl DeepView for ChatMessage {
    type V = ChatMessageView;

    open spec fn deep_view(&self) -> ChatMessageView {
        ChatMessageView {
            content: self.content@,
            reasoning_content: self.reasoning_content.deep_view(),
            reasoning_items: self.reasoning_items.deep_view(),
            encrypted_reasoning: self.encrypted_reasoning.deep_view(),
            origin: self.origin.deep_view(),
        }
    }
}

impl Clone for ChatMessage {
    fn clone(&self) -> (out: ChatMessage)
        ensures
            out.deep_view() == self.deep_view(),
    {
        ChatMessage {
            content: self.content.clone(),
            reasoning_content: self.reasoning_content.clone(),
            reasoning_items: self.reasoning_items.clone(),
            encrypted_reasoning: self.encrypted_reasoning.clone(),
            origin: self.origin.clone(),
        }
    }
}

impl ChatMessageView {
    /// The compatibility key under which the reasoning was written: the one the
    /// message names, or that of the primary provider.
    pub open spec fn reasoning_key(self, primary: Seq<char>) -> Seq<char> {
        match self.origin {
            Some(key) => key,
            None => primary,
        }
    }

    /// The message as a provider with the key `target` may see it: only under the
    /// same key does it keep its reasoning.
    pub open spec fn sanitized(self, target: Seq<char>, primary: Seq<char>) -> ChatMessageView {
        if self.reasoning_key(primary) == target {
            self
        } else {
            ChatMessageView {
                reasoning_content: None,
                reasoning_items: Seq::empty(),
                encrypted_reasoning: None,
                ..self
            }
        }
    }
}

impl ChatMessage {
    /// A message of the model with its reasoning.
    pub fn assistant_with_reasoning(
        content: &str,
        reasoning_content: Option<String>,
        reasoning_items: Vec<ReasoningItem>,
        encrypted_reasoning: Option<String>,
    ) -> (message: ChatMessage)
        ensures
            message.deep_view() == (ChatMessageView {
                content: content@,
                reasoning_content: reasoning_content.deep_view(),
                reasoning_items: reasoning_items.deep_view(),
                encrypted_reasoning: encrypted_reasoning.deep_view(),
                origin: None,
            }),
    {
        ChatMessage {
            content: content.to_owned(),
            reasoning_content,
            reasoning_items,
            encrypted_reasoning,
            origin: None,
        }
    }

    /// The text of the message.
    pub fn content_text(&self) -> (text: String)
        ensures
            text@ == self.deep_view().content,
    {
        self.content.clone()
    }

    /// The message as a provider may see it. Reasoning is bound to the provider
    /// group and model that wrote it: under another compatibility key the message
    /// keeps its text alone.
    pub fn sanitized_for_provider(&self, target: &str, primary: &str) -> (message: ChatMessage)
        ensures
            message.deep_view() == self.deep_view().sanitized(target@, primary@),
    {
        let same_key = match &self.origin {
            Some(key) => str_eq(key.as_str(), target),
            None => str_eq(primary, target),
        };
        if same_key {
            return self.clone();
        }
        ChatMessage {
            content: self.content.clone(),
            reasoning_content: None,
            reasoning_items: Vec::new(),
            encrypted_reasoning: None,
            origin: self.origin.clone(),
        }
    }
}

/// What one provider may not see, sanitizing again does not bring back.
pub proof fn law_sanitizing_is_final(
    message: ChatMessageView,
    first: Seq<char>,
    second: Seq<char>,
    primary: Seq<char>,
)
    requires
        message.reasoning_key(primary) != first,
    ensures
        message.sanitized(first, primary).sanitized(second, primary) == message.sanitized(
            first,
            primary,
        ),
{
}

/// A message keeps its text and its origin for every provider. Its reasoning it keeps
/// for a provider with the key that it was written under, and loses for any other; one
/// without an origin was written under the primary key.
pub proof fn law_foreign_providers_see_the_text(
    message: ChatMessageView,
    target: Seq<char>,
    primary: Seq<char>,
)
    ensures
        ({
            let seen = message.sanitized(target, primary);
            let own = match message.origin {
                Some(key) => key == target,
                None => primary == target,
            };
            &&& seen.content == message.content
            &&& seen.origin == message.origin
            &&& own ==> seen == message
            &&& !own ==> seen.reasoning_content is None && seen.encrypted_reasoning is None
                && seen.reasoning_items.len() == 0
        }),
{
}

/// A turn is empty if and only if it says nothing and calls no tool.
pub proof fn law_calls_make_a_turn(turn: CollectedTurnView)
    ensures
        turn.tool_calls.len() > 0 ==> !turn.is_empty(),
        turn.text.len() > 0 ==> !turn.is_empty(),
        turn.text.len() == 0 && turn.tool_calls.len() == 0 ==> turn.is_empty(),
{
}

/// A message of text alone holds the text, and no call, reasoning or origin.
pub proof fn law_plain_messages_hold_text(text: Seq<char>)
    ensures
        assistant_text(text).content == text,
        assistant_text(text).tool_calls.len() == 0,
        assistant_text(text).reasoning_content is None,
        assistant_text(text).encrypted_reasoning is None,
        assistant_text(text).origin is None,
{
}

/// What the views of these values show is what the values hold, field by field.
pub proof fn law_views_leave_nothing_out(
    tool_call_function: ToolCallFunction,
    tool_call: ToolCall,
    function_definition: FunctionDefinition,
    tool_definition: ToolDefinition,
    hosted_tool: HostedTool,
    reasoning_item: ReasoningItem,
    system_item: SystemItem,
    user_content: UserContent,
    user_item: UserItem,
    backend_tool_call_item: BackendToolCallItem,
    assistant_item: AssistantItem,
    tool_result_item: ToolResultItem,
    conversation_item: ConversationItem,
    conversation_request: ConversationRequest,
    tool_call_function_delta: ToolCallFunctionDelta,
    tool_call_delta: ToolCallDelta,
    output_item_wire: OutputItemWire,
    chat_chunk_delta: ChatChunkDelta,
    usage: Usage,
    chat_chunk_choice: ChatChunkChoice,
    chat_completion_chunk: ChatCompletionChunk,
    collected_turn: CollectedTurn,
    chat_message: ChatMessage,
)
    ensures
        ({
            let held = tool_call_function.deep_view();
            &&& held.name == tool_call_function.name@
            &&& held.arguments == tool_call_function.arguments@
            &&& held.wire_arguments == tool_call_function.wire_arguments@
        }),
        ({
            let held = tool_call.deep_view();
            &&& held.id == tool_call.id@
            &&& held.kind == tool_call.kind@
            &&& held.function == tool_call.function.deep_view()
            &&& held.thought_signature == tool_call.thought_signature.deep_view()
        }),
        ({
            let held = function_definition.deep_view();
            &&& held.name == function_definition.name@
            &&& held.description == function_definition.description@
            &&& held.parameters == function_definition.parameters.deep_view()
        }),
        ({
            let held = tool_definition.deep_view();
            &&& held.function == tool_definition.function.deep_view()
        }),
        ({
            let held = hosted_tool.deep_view();
            &&& held.wire_name == hosted_tool.wire_name@
            &&& held.entry == hosted_tool.entry.deep_view()
        }),
        ({
            let held = reasoning_item.deep_view();
            &&& held.id == reasoning_item.id@
            &&& held.summary == reasoning_item.summary.deep_view()
            &&& held.content == reasoning_item.content.deep_view()
            &&& held.encrypted_content == reasoning_item.encrypted_content.deep_view()
            &&& held.status == reasoning_item.status.deep_view()
        }),
        ({
            let held = system_item.deep_view();
            &&& held.content == system_item.content@
        }),
        match user_content {
            UserContent::Ready(a) => user_content.deep_view()
                == UserContentView::Ready(a.deep_view()),
            UserContent::Unsendable(a) => user_content.deep_view()
                == UserContentView::Unsendable(a.deep_view()),
        },
        ({
            let held = user_item.deep_view();
            &&& held.content == user_item.content.deep_view()
        }),
        ({
            let held = backend_tool_call_item.deep_view();
            &&& held.payload == backend_tool_call_item.payload.deep_view()
        }),
        ({
            let held = assistant_item.deep_view();
            &&& held.content == assistant_item.content@
            &&& held.tool_calls == assistant_item.tool_calls.deep_view()
            &&& held.reasoning_content == assistant_item.reasoning_content.deep_view()
            &&& held.encrypted_reasoning == assistant_item.encrypted_reasoning.deep_view()
            &&& held.origin == assistant_item.origin.deep_view()
        }),
        ({
            let held = tool_result_item.deep_view();
            &&& held.tool_call_id == tool_result_item.tool_call_id@
            &&& held.content == tool_result_item.content@
        }),
        match conversation_item {
            ConversationItem::System(a) => conversation_item.deep_view()
                == ConversationItemView::System(a.deep_view()),
            ConversationItem::User(a) => conversation_item.deep_view()
                == ConversationItemView::User(a.deep_view()),
            ConversationItem::Reasoning(a) => conversation_item.deep_view()
                == ConversationItemView::Reasoning(a.deep_view()),
            ConversationItem::BackendToolCall(a) => conversation_item.deep_view()
                == ConversationItemView::BackendToolCall(
                a.deep_view(),
            ),
            ConversationItem::Assistant(a) => conversation_item.deep_view()
                == ConversationItemView::Assistant(a.deep_view()),
            ConversationItem::ToolResult(a) => conversation_item.deep_view()
                == ConversationItemView::ToolResult(a.deep_view()),
        },
        ({
            let held = conversation_request.deep_view();
            &&& held.model == conversation_request.model@
            &&& held.items == conversation_request.items.deep_view()
            &&& held.stream == conversation_request.stream.deep_view()
            &&& held.tools == conversation_request.tools.deep_view()
            &&& held.tool_choice == conversation_request.tool_choice.deep_view()
            &&& held.temperature == conversation_request.temperature.deep_view()
            &&& held.max_tokens == conversation_request.max_tokens.deep_view()
            &&& held.reasoning_effort == conversation_request.reasoning_effort.deep_view()
            &&& held.hosted_tools == conversation_request.hosted_tools.deep_view()
            &&& held.previous_response_id == conversation_request.previous_response_id.deep_view()
            &&& held.response_format == conversation_request.response_format.deep_view()
        }),
        ({
            let held = tool_call_function_delta.deep_view();
            &&& held.name == tool_call_function_delta.name.deep_view()
            &&& held.arguments == tool_call_function_delta.arguments.deep_view()
        }),
        ({
            let held = tool_call_delta.deep_view();
            &&& held.index == tool_call_delta.index
            &&& held.id == tool_call_delta.id.deep_view()
            &&& held.item_id == tool_call_delta.item_id.deep_view()
            &&& held.kind == tool_call_delta.kind.deep_view()
            &&& held.function == tool_call_delta.function.deep_view()
            &&& held.thought_signature == tool_call_delta.thought_signature.deep_view()
        }),
        match output_item_wire {
            OutputItemWire::Message { text, raw } => output_item_wire.deep_view()
                == (OutputItemWireView::Message {
                text: text@,
                raw: raw.deep_view(),
            }),
            OutputItemWire::LocalShellCall { call_id, raw } => output_item_wire.deep_view()
                == (OutputItemWireView::LocalShellCall {
                call_id: call_id.deep_view(),
                raw: raw.deep_view(),
            }),
            OutputItemWire::Other { raw } => output_item_wire.deep_view()
                == (OutputItemWireView::Other { raw: raw.deep_view() }),
        },
        ({
            let held = chat_chunk_delta.deep_view();
            &&& held.role == chat_chunk_delta.role.deep_view()
            &&& held.content == chat_chunk_delta.content.deep_view()
            &&& held.reasoning_content == chat_chunk_delta.reasoning_content.deep_view()
            &&& held.reasoning_items == chat_chunk_delta.reasoning_items.deep_view()
            &&& held.encrypted_reasoning == chat_chunk_delta.encrypted_reasoning.deep_view()
            &&& held.tool_calls == chat_chunk_delta.tool_calls.deep_view()
            &&& held.final_output == chat_chunk_delta.final_output.deep_view()
        }),
        ({
            let held = usage.deep_view();
            &&& held.prompt_tokens == usage.prompt_tokens
            &&& held.completion_tokens == usage.completion_tokens
            &&& held.total_tokens == usage.total_tokens
        }),
        ({
            let held = chat_chunk_choice.deep_view();
            &&& held.index == chat_chunk_choice.index
            &&& held.delta == chat_chunk_choice.delta.deep_view()
            &&& held.finish_reason == chat_chunk_choice.finish_reason.deep_view()
        }),
        ({
            let held = chat_completion_chunk.deep_view();
            &&& held.id == chat_completion_chunk.id@
            &&& held.object == chat_completion_chunk.object@
            &&& held.created == chat_completion_chunk.created
            &&& held.model == chat_completion_chunk.model@
            &&& held.choices == chat_completion_chunk.choices.deep_view()
            &&& held.usage == chat_completion_chunk.usage.deep_view()
        }),
        ({
            let held = collected_turn.deep_view();
            &&& held.items == collected_turn.items.deep_view()
            &&& held.text == collected_turn.text@
            &&& held.reasoning == collected_turn.reasoning@
            &&& held.reasoning_items == collected_turn.reasoning_items.deep_view()
            &&& held.encrypted_reasoning == collected_turn.encrypted_reasoning.deep_view()
            &&& held.tool_calls == collected_turn.tool_calls.deep_view()
            &&& held.finish_reason == collected_turn.finish_reason.deep_view()
            &&& held.usage == collected_turn.usage.deep_view()
            &&& held.model == collected_turn.model@
            &&& held.response_id == collected_turn.response_id.deep_view()
            &&& held.final_output == collected_turn.final_output.deep_view()
            &&& held.provider_id == collected_turn.provider_id@
            &&& held.operation_id == collected_turn.operation_id@
            &&& held.attempts == collected_turn.attempts
        }),
        ({
            let held = chat_message.deep_view();
            &&& held.content == chat_message.content@
            &&& held.reasoning_content == chat_message.reasoning_content.deep_view()
            &&& held.reasoning_items == chat_message.reasoning_items.deep_view()
            &&& held.encrypted_reasoning == chat_message.encrypted_reasoning.deep_view()
            &&& held.origin == chat_message.origin.deep_view()
        }),
{
}

} // verus!
