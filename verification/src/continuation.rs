//! Continuing a turn that broke off: what of it stands, how it is asked for
//! again, and how the two parts become one.
use vstd::prelude::*;

use crate::events::{AgentEvent, AgentEventView};
use crate::json;
use crate::json::reads_as_json;
use crate::text;
use crate::text::{join, skip_chars, starts_with, str_eq, trim};
use crate::types::{
    AssistantItem, AssistantItemView, CollectedTurn, CollectedTurnView, ConversationItem,
    ConversationItemView, ConversationRequest, ConversationRequestView, ReasoningItem,
    ReasoningItemView, ToolCallView,
};

verus! {

// ── Dropping what was already shown ─────────────────────────────────────

/// `front` is what `whole` begins with.
pub open spec fn begins(whole: Seq<char>, front: Seq<char>) -> bool {
    text::occurs_at(whole, front, 0)
}

/// What is left to skip after a chunk, and what of the chunk is passed on.
pub open spec fn skipped(remaining: Seq<char>, incoming: Seq<char>) -> (Seq<char>, Seq<char>) {
    if remaining.len() == 0 || incoming.len() == 0 {
        (remaining, incoming)
    } else if begins(remaining, incoming) {
        (remaining.skip(incoming.len() as int), Seq::empty())
    } else if begins(incoming, remaining) {
        (Seq::empty(), incoming.skip(remaining.len() as int))
    } else {
        (Seq::empty(), incoming)
    }
}

/// Drops from a chunk what repeats the text that is still to be skipped. A chunk
/// that differs from it ends the skipping and passes whole.
pub fn skip_prefix_chunk(remaining: &mut String, incoming: &str) -> (rest: String)
    ensures
        (final(remaining)@, rest@) == skipped(old(remaining)@, incoming@),
{
    if remaining.as_str().is_empty() || incoming.is_empty() {
        return incoming.to_owned();
    }
    if starts_with(remaining.as_str(), incoming) {
        let left = skip_chars(remaining.as_str(), incoming.unicode_len());
        *remaining = left;
        return String::new();
    }
    if starts_with(incoming, remaining.as_str()) {
        let rest = skip_chars(incoming, remaining.as_str().unicode_len());
        *remaining = String::new();
        return rest;
    }
    *remaining = String::new();
    incoming.to_owned()
}

/// All characters of some chunks.
pub open spec fn joined(chunks: Seq<Seq<char>>) -> Seq<char>
    decreases chunks.len(),
{
    if chunks.len() == 0 {
        Seq::empty()
    } else {
        chunks[0] + joined(chunks.drop_first())
    }
}

/// What is passed on of some chunks, in all.
pub open spec fn passed_on(remaining: Seq<char>, chunks: Seq<Seq<char>>) -> Seq<char>
    decreases chunks.len(),
{
    if chunks.len() == 0 {
        Seq::empty()
    } else {
        let (left, rest) = skipped(remaining, chunks[0]);
        rest + passed_on(left, chunks.drop_first())
    }
}

/// What is left to skip after some chunks.
pub open spec fn left_after(remaining: Seq<char>, chunks: Seq<Seq<char>>) -> Seq<char>
    decreases chunks.len(),
{
    if chunks.len() == 0 {
        remaining
    } else {
        left_after(skipped(remaining, chunks[0]).0, chunks.drop_first())
    }
}

/// With nothing left to skip, everything is passed on, and nothing is ever left to
/// skip again.
pub proof fn law_nothing_to_skip(chunks: Seq<Seq<char>>)
    ensures
        passed_on(Seq::empty(), chunks) == joined(chunks),
        left_after(Seq::empty(), chunks) == Seq::<char>::empty(),
    decreases chunks.len(),
{
    if chunks.len() > 0 {
        law_nothing_to_skip(chunks.drop_first());
    }
}

/// However a stream that repeats the shown text is cut into chunks, exactly what
/// follows that text is passed on: nothing is shown twice and nothing is lost. At the
/// end nothing is left to skip.
pub proof fn law_repeated_prefix_is_dropped(shown: Seq<char>, chunks: Seq<Seq<char>>)
    requires
        begins(joined(chunks), shown),
    ensures
        passed_on(shown, chunks) == joined(chunks).skip(shown.len() as int),
        left_after(shown, chunks) == Seq::<char>::empty(),
    decreases chunks.len(),
{
    let all = joined(chunks);
    if shown.len() == 0 {
        assert(shown =~= Seq::empty());
        law_nothing_to_skip(chunks);
    } else {
        let first = chunks[0];
        let others = chunks.drop_first();
        if first.len() == 0 {
            law_repeated_prefix_is_dropped(shown, others);
        } else if first.len() <= shown.len() {
            assert(shown.subrange(0, first.len() as int) =~= first);
            let left = shown.skip(first.len() as int);
            assert(joined(others).subrange(0, left.len() as int) =~= left);
            law_repeated_prefix_is_dropped(left, others);
        } else {
            assert(first.subrange(0, shown.len() as int) =~= shown);
            law_nothing_to_skip(others);
        }
    }
}

/// While a stream only repeats shown text, nothing is passed on, and what it has not
/// repeated yet is left to skip.
pub proof fn law_replay_is_silent(shown: Seq<char>, chunks: Seq<Seq<char>>)
    requires
        begins(shown, joined(chunks)),
    ensures
        passed_on(shown, chunks) == Seq::<char>::empty(),
        left_after(shown, chunks) == shown.skip(joined(chunks).len() as int),
    decreases chunks.len(),
{
    if chunks.len() > 0 {
        let all = joined(chunks);
        let first = chunks[0];
        let others = chunks.drop_first();
        if shown.len() == 0 {
            law_replay_is_silent(shown, others);
        } else if first.len() == 0 {
            law_replay_is_silent(shown, others);
        } else {
            assert(shown.subrange(0, first.len() as int) =~= first);
            let left = shown.skip(first.len() as int);
            assert(left.subrange(0, joined(others).len() as int) =~= joined(others)) by {
                assert forall|i: int| 0 <= i < joined(others).len() implies left[i] == joined(
                    others,
                )[i] by {
                    assert(all[i + first.len()] == joined(others)[i]);
                }
            }
            law_replay_is_silent(left, others);
        }
    }
}

/// Drops already shown tokens, so that a continued stream does not repeat text
/// that has been rendered, and keeps note of whether a stream has said anything.
pub struct PrefixSkippingObserver {
    pub skip_text: String,
    pub skip_reasoning: String,
    /// Text or reasoning has come since the request under way was sent.
    pub streamed: bool,
    /// Text or reasoning has come since the visit under way began.
    pub streamed_in_visit: bool,
}

/// What an observer still has to skip, and whether anything has come.
#[verifier::ext_equal]
pub struct PrefixSkippingObserverView {
    pub skip_text: Seq<char>,
    pub skip_reasoning: Seq<char>,
    pub streamed: bool,
    pub streamed_in_visit: bool,
}

impl View for PrefixSkippingObserver {
    type V = PrefixSkippingObserverView;

    open spec fn view(&self) -> PrefixSkippingObserverView {
        PrefixSkippingObserverView {
            skip_text: self.skip_text@,
            skip_reasoning: self.skip_reasoning@,
            streamed: self.streamed,
            streamed_in_visit: self.streamed_in_visit,
        }
    }
}

/// The event holds text or reasoning of the model.
pub open spec fn says_something(event: AgentEventView) -> bool {
    match event {
        AgentEventView::TextDelta { text } => text.len() > 0,
        AgentEventView::ReasoningDelta { text } => text.len() > 0,
        _ => false,
    }
}

impl PrefixSkippingObserverView {
    /// The same, with note taken of what an event says.
    pub open spec fn noting(self, event: AgentEventView) -> PrefixSkippingObserverView {
        PrefixSkippingObserverView {
            streamed: self.streamed || says_something(event),
            streamed_in_visit: self.streamed_in_visit || says_something(event),
            ..self
        }
    }

    /// What is left to skip after an event, and what of the event is passed on.
    pub open spec fn step(self, event: AgentEventView) -> (
        PrefixSkippingObserverView,
        Option<AgentEventView>,
    ) {
        match event {
            AgentEventView::TextDelta { text } => {
                let (left, rest) = skipped(self.skip_text, text);
                (
                    PrefixSkippingObserverView { skip_text: left, ..self.noting(event) },
                    if rest.len() == 0 {
                        None
                    } else {
                        Some(AgentEventView::TextDelta { text: rest })
                    },
                )
            },
            AgentEventView::ReasoningDelta { text } => {
                let (left, rest) = skipped(self.skip_reasoning, text);
                (
                    PrefixSkippingObserverView { skip_reasoning: left, ..self.noting(event) },
                    if rest.len() == 0 {
                        None
                    } else {
                        Some(AgentEventView::ReasoningDelta { text: rest })
                    },
                )
            },
            other => (self, Some(other)),
        }
    }
}

impl PrefixSkippingObserver {
    /// An observer that skips nothing, and to which nothing has come.
    pub fn new() -> (observer: PrefixSkippingObserver)
        ensures
            observer@ == (PrefixSkippingObserverView {
                skip_text: Seq::empty(),
                skip_reasoning: Seq::empty(),
                streamed: false,
                streamed_in_visit: false,
            }),
    {
        PrefixSkippingObserver {
            skip_text: String::new(),
            skip_reasoning: String::new(),
            streamed: false,
            streamed_in_visit: false,
        }
    }

    /// Skips this text and this reasoning from here on.
    pub fn set_skip(&mut self, text: &str, reasoning: &str)
        ensures
            final(self)@ == (PrefixSkippingObserverView {
                skip_text: text@,
                skip_reasoning: reasoning@,
                ..old(self)@
            }),
    {
        self.skip_text = text.to_owned();
        self.skip_reasoning = reasoning.to_owned();
    }

    /// A visit begins: nothing has come in it yet.
    pub fn begin_visit(&mut self)
        ensures
            final(self)@ == (PrefixSkippingObserverView {
                streamed: false,
                streamed_in_visit: false,
                ..old(self)@
            }),
    {
        self.streamed = false;
        self.streamed_in_visit = false;
    }

    /// A request is sent: nothing has come from its stream yet.
    pub fn begin_request(&mut self)
        ensures
            final(self)@ == (PrefixSkippingObserverView { streamed: false, ..old(self)@ }),
    {
        self.streamed = false;
    }

    fn note(&mut self)
        ensures
            final(self)@ == (PrefixSkippingObserverView {
                streamed: true,
                streamed_in_visit: true,
                ..old(self)@
            }),
    {
        self.streamed = true;
        self.streamed_in_visit = true;
    }

    /// What of an event is passed on.
    pub fn on_event(&mut self, event: AgentEvent) -> (passed: Option<AgentEvent>)
        ensures
            (final(self)@, passed.deep_view()) == old(self)@.step(event.deep_view()),
    {
        match event {
            AgentEvent::TextDelta { text } => {
                if !text.as_str().is_empty() {
                    self.note();
                }
                let rest = skip_prefix_chunk(&mut self.skip_text, text.as_str());
                if rest.as_str().is_empty() {
                    None
                } else {
                    Some(AgentEvent::TextDelta { text: rest })
                }
            },
            AgentEvent::ReasoningDelta { text } => {
                if !text.as_str().is_empty() {
                    self.note();
                }
                let rest = skip_prefix_chunk(&mut self.skip_reasoning, text.as_str());
                if rest.as_str().is_empty() {
                    None
                } else {
                    Some(AgentEvent::ReasoningDelta { text: rest })
                }
            },
            other => Some(other),
        }
    }
}

impl PrefixSkippingObserverView {
    /// What is left to skip after some events, and what of them is passed on.
    pub open spec fn run(self, events: Seq<AgentEventView>) -> (
        PrefixSkippingObserverView,
        Seq<AgentEventView>,
    )
        decreases events.len(),
    {
        if events.len() == 0 {
            (self, Seq::empty())
        } else {
            let (next, passed) = self.step(events[0]);
            let (last, rest) = next.run(events.drop_first());
            (
                last,
                match passed {
                    Some(event) => seq![event] + rest,
                    None => rest,
                },
            )
        }
    }
}

/// The pieces of text among some events.
pub open spec fn text_chunks(events: Seq<AgentEventView>) -> Seq<Seq<char>>
    decreases events.len(),
{
    if events.len() == 0 {
        Seq::empty()
    } else {
        match events[0] {
            AgentEventView::TextDelta { text } => seq![text] + text_chunks(events.drop_first()),
            _ => text_chunks(events.drop_first()),
        }
    }
}

/// The pieces of reasoning among some events.
pub open spec fn reasoning_chunks(events: Seq<AgentEventView>) -> Seq<Seq<char>>
    decreases events.len(),
{
    if events.len() == 0 {
        Seq::empty()
    } else {
        match events[0] {
            AgentEventView::ReasoningDelta { text } => seq![text] + reasoning_chunks(
                events.drop_first(),
            ),
            _ => reasoning_chunks(events.drop_first()),
        }
    }
}

/// The event is a piece of text or of reasoning.
pub open spec fn is_delta(event: AgentEventView) -> bool {
    event is TextDelta || event is ReasoningDelta
}

/// The events that are neither text nor reasoning, in order.
pub open spec fn other_events(events: Seq<AgentEventView>) -> Seq<AgentEventView>
    decreases events.len(),
{
    if events.len() == 0 {
        Seq::empty()
    } else if is_delta(events[0]) {
        other_events(events.drop_first())
    } else {
        seq![events[0]] + other_events(events.drop_first())
    }
}

proof fn lemma_one_more_event(event: AgentEventView, rest: Seq<AgentEventView>)
    ensures
        text_chunks(seq![event] + rest) == match event {
            AgentEventView::TextDelta { text } => seq![text] + text_chunks(rest),
            _ => text_chunks(rest),
        },
        reasoning_chunks(seq![event] + rest) == match event {
            AgentEventView::ReasoningDelta { text } => seq![text] + reasoning_chunks(rest),
            _ => reasoning_chunks(rest),
        },
        other_events(seq![event] + rest) == if is_delta(event) {
            other_events(rest)
        } else {
            seq![event] + other_events(rest)
        },
{
    assert((seq![event] + rest).drop_first() =~= rest);
}

proof fn lemma_one_more_chunk(chunk: Seq<char>, rest: Seq<Seq<char>>, remaining: Seq<char>)
    ensures
        joined(seq![chunk] + rest) == chunk + joined(rest),
        passed_on(remaining, seq![chunk] + rest) == skipped(remaining, chunk).1 + passed_on(
            skipped(remaining, chunk).0,
            rest,
        ),
        left_after(remaining, seq![chunk] + rest) == left_after(
            skipped(remaining, chunk).0,
            rest,
        ),
{
    assert((seq![chunk] + rest).drop_first() =~= rest);
}

/// Over any events, text is held against the text to skip alone, and reasoning
/// against the reasoning to skip alone. No empty piece of either is passed on, and
/// all other events are passed on once, as they are and in order.
pub proof fn law_events_are_skipped_apart(
    observer: PrefixSkippingObserverView,
    events: Seq<AgentEventView>,
)
    ensures
        ({
            let (last, passed) = observer.run(events);
            &&& joined(text_chunks(passed)) == passed_on(observer.skip_text, text_chunks(events))
            &&& last.skip_text == left_after(observer.skip_text, text_chunks(events))
            &&& joined(reasoning_chunks(passed)) == passed_on(
                observer.skip_reasoning,
                reasoning_chunks(events),
            )
            &&& last.skip_reasoning == left_after(
                observer.skip_reasoning,
                reasoning_chunks(events),
            )
            &&& other_events(passed) == other_events(events)
            &&& forall|i: int|
                0 <= i < passed.len() && is_delta(#[trigger] passed[i]) ==> says_something(
                    passed[i],
                )
        }),
    decreases events.len(),
{
    if events.len() > 0 {
        let event = events[0];
        let others = events.drop_first();
        let (next, now) = observer.step(event);
        let (last, rest) = next.run(others);
        law_events_are_skipped_apart(next, others);
        match event {
            AgentEventView::TextDelta { text } => {
                lemma_one_more_chunk(text, text_chunks(others), observer.skip_text);
                let shown = skipped(observer.skip_text, text).1;
                lemma_one_more_chunk(shown, text_chunks(rest), Seq::empty());
            },
            AgentEventView::ReasoningDelta { text } => {
                lemma_one_more_chunk(text, reasoning_chunks(others), observer.skip_reasoning);
                let shown = skipped(observer.skip_reasoning, text).1;
                lemma_one_more_chunk(shown, reasoning_chunks(rest), Seq::empty());
            },
            _ => {},
        }
        if let Some(passed) = now {
            lemma_one_more_event(passed, rest);
            let all = seq![passed] + rest;
            assert forall|i: int| 0 <= i < all.len() && is_delta(
                #[trigger] all[i],
            ) implies says_something(all[i]) by {
                if i > 0 {
                    assert(all[i] == rest[i - 1]);
                }
            }
        }
    }
}

/// Where the text of some events repeats the shown text, however it is cut and
/// whatever comes in between, exactly what follows the shown text is passed on, and
/// at the end no text is left to skip. The same holds of reasoning.
pub proof fn law_shown_text_is_skipped_once(
    observer: PrefixSkippingObserverView,
    events: Seq<AgentEventView>,
)
    ensures
        ({
            let (last, passed) = observer.run(events);
            let said = joined(text_chunks(events));
            let thought = joined(reasoning_chunks(events));
            &&& begins(said, observer.skip_text) ==> joined(text_chunks(passed)) == said.skip(
                observer.skip_text.len() as int,
            ) && last.skip_text.len() == 0
            &&& begins(thought, observer.skip_reasoning) ==> joined(reasoning_chunks(passed))
                == thought.skip(observer.skip_reasoning.len() as int)
                && last.skip_reasoning.len() == 0
        }),
{
    law_events_are_skipped_apart(observer, events);
    if begins(joined(text_chunks(events)), observer.skip_text) {
        law_repeated_prefix_is_dropped(observer.skip_text, text_chunks(events));
    }
    if begins(joined(reasoning_chunks(events)), observer.skip_reasoning) {
        law_repeated_prefix_is_dropped(observer.skip_reasoning, reasoning_chunks(events));
    }
}

/// As long as a stream has said nothing, all that was shown before it is still to be
/// skipped. So a request whose stream failed without a word can be sent again, and
/// still nothing is shown twice.
pub proof fn law_wordless_stream_skips_nothing(
    observer: PrefixSkippingObserverView,
    event: AgentEventView,
)
    ensures
        ({
            let next = observer.step(event).0;
            &&& !next.streamed ==> next == observer && !observer.streamed
            &&& !next.streamed_in_visit ==> next == observer && !observer.streamed_in_visit
        }),
{
}

/// What is passed on of text or reasoning never goes unnoticed.
pub proof fn law_what_is_shown_is_noticed(
    observer: PrefixSkippingObserverView,
    event: AgentEventView,
)
    requires
        event is TextDelta || event is ReasoningDelta,
        observer.step(event).1 is Some,
    ensures
        observer.step(event).0.streamed,
        observer.step(event).0.streamed_in_visit,
{
}

// ── What a partial turn is good for ─────────────────────────────────────

/// The provider runs the tool itself.
pub open spec fn runs_on_server(call: ToolCallView) -> bool {
    call.kind == "server"@
}

/// A call of a client tool whose arguments are not JSON yet.
pub open spec fn unfinished(call: ToolCallView) -> bool {
    !runs_on_server(call) && !json::is_json_text(call.function.arguments)
}

/// Some call of a client tool has no complete arguments yet.
pub open spec fn any_unfinished(calls: Seq<ToolCallView>) -> bool {
    exists|i: int| 0 <= i < calls.len() && unfinished(#[trigger] calls[i])
}

/// Some call is of a tool that the client runs.
pub open spec fn any_client_call(calls: Seq<ToolCallView>) -> bool {
    exists|i: int| 0 <= i < calls.len() && !runs_on_server(#[trigger] calls[i])
}

/// The partial turn is a hop that can be carried out as it stands: it calls tools
/// of the client, and all of their arguments are complete.
pub open spec fn acceptable(turn: CollectedTurnView) -> bool {
    any_client_call(turn.tool_calls) && !any_unfinished(turn.tool_calls)
}

/// The partial turn can be continued: it shows text and calls no tool.
pub open spec fn continuable(turn: CollectedTurnView) -> bool {
    text::trimmed(turn.text).len() != 0 && turn.tool_calls.len() == 0
}

/// Whether a call of this kind is incomplete, given whether its arguments read as
/// JSON.
pub fn call_is_unfinished(kind: &str, arguments_read: bool) -> (yes: bool)
    ensures
        yes == (kind@ != "server"@ && !arguments_read),
{
    !str_eq(kind, "server") && !arguments_read
}

/// Whether some call of a client tool has no complete arguments yet.
pub fn has_incomplete_tool_calls(turn: &CollectedTurn) -> (yes: bool)
    ensures
        yes == any_unfinished(turn.deep_view().tool_calls),
{
    let ghost calls = turn.deep_view().tool_calls;
    for i in 0..turn.tool_calls.len()
        invariant
            calls == turn.tool_calls.deep_view(),
            calls == turn.deep_view().tool_calls,
            forall|j: int| 0 <= j < i ==> !unfinished(#[trigger] calls[j]),
    {
        let call = &turn.tool_calls[i];
        if call_is_unfinished(
            call.kind.as_str(),
            reads_as_json(call.function.arguments.as_str()),
        ) {
            assert(unfinished(calls[i as int]));
            return true;
        }
    }
    false
}

/// Whether an interrupted turn is already a usable hop of client tool calls.
///
/// Tools of the provider run inside its stream. Going silent while one is at work
/// is no finished hop: a turn with only such calls is not accepted.
pub fn should_accept_partial_as_complete(turn: &CollectedTurn) -> (yes: bool)
    ensures
        yes == acceptable(turn.deep_view()),
{
    let ghost calls = turn.deep_view().tool_calls;
    let mut has_client_tool = false;
    for i in 0..turn.tool_calls.len()
        invariant
            calls == turn.tool_calls.deep_view(),
            calls == turn.deep_view().tool_calls,
            has_client_tool == exists|j: int| 0 <= j < i && !runs_on_server(#[trigger] calls[j]),
    {
        let call = &turn.tool_calls[i];
        assert(calls[i as int] == call.deep_view());
        if !str_eq(call.kind.as_str(), "server") {
            has_client_tool = true;
        }
    }
    has_client_tool && !has_incomplete_tool_calls(turn)
}

/// Whether an interrupted turn can be continued from its text.
pub fn can_prefix_continue(turn: &CollectedTurn) -> (yes: bool)
    ensures
        yes == continuable(turn.deep_view()),
{
    !trim(turn.text.as_str()).as_str().is_empty() && turn.tool_calls.len() == 0
}

/// A partial turn is never both accepted and continued.
pub proof fn law_accepted_or_continued(turn: CollectedTurnView)
    ensures
        !(acceptable(turn) && continuable(turn)),
{
}

/// A partial turn in which only tools of the provider are at work is neither
/// accepted nor continued.
pub proof fn law_server_tools_alone_finish_nothing(turn: CollectedTurnView)
    requires
        turn.tool_calls.len() > 0,
        forall|i: int|
            0 <= i < turn.tool_calls.len() ==> runs_on_server(#[trigger] turn.tool_calls[i]),
    ensures
        !acceptable(turn),
        !continuable(turn),
{
}

// ── Asking for the rest ─────────────────────────────────────────────────

/// The items that a turn without items of its own stands for: its reasoning, then
/// one message with its text.
pub open spec fn synthesized(partial: CollectedTurnView) -> Seq<ConversationItemView> {
    partial.reasoning_items.map_values(
        |item: ReasoningItemView| ConversationItemView::Reasoning(item),
    ).push(
        ConversationItemView::Assistant(
            AssistantItemView {
                content: partial.text,
                tool_calls: Seq::empty(),
                reasoning_content: if partial.reasoning.len() == 0 {
                    None
                } else {
                    Some(partial.reasoning)
                },
                encrypted_reasoning: partial.encrypted_reasoning,
                origin: None,
            },
        ),
    )
}

/// The items that a turn without items of its own stands for.
pub fn synthesize_partial_items(partial: &CollectedTurn) -> (items: Vec<ConversationItem>)
    ensures
        items.deep_view() == synthesized(partial.deep_view()),
{
    let ghost reasoning = partial.deep_view().reasoning_items;
    let mut items: Vec<ConversationItem> = Vec::new();
    for i in 0..partial.reasoning_items.len()
        invariant
            reasoning == partial.reasoning_items.deep_view(),
            items.len() == i,
            forall|j: int|
                0 <= j < i ==> (#[trigger] items@[j]).deep_view()
                    == ConversationItemView::Reasoning(reasoning[j]),
    {
        items.push(ConversationItem::Reasoning(partial.reasoning_items[i].clone()));
    }
    let reasoning_content = if partial.reasoning.as_str().is_empty() {
        None
    } else {
        Some(partial.reasoning.clone())
    };
    let message = AssistantItem {
        content: partial.text.clone(),
        tool_calls: Vec::new(),
        reasoning_content,
        encrypted_reasoning: partial.encrypted_reasoning.clone(),
        origin: None,
    };
    assert(message.tool_calls.deep_view() =~= Seq::empty());
    items.push(ConversationItem::Assistant(message));
    items
}

/// The request with the partial turn behind its conversation. The response is
/// named as the one to go on from only where `keep_response_id` says so.
pub open spec fn continued_request(
    req: ConversationRequestView,
    partial: CollectedTurnView,
    keep_response_id: bool,
) -> ConversationRequestView {
    ConversationRequestView {
        items: req.items + if partial.items.len() == 0 {
            synthesized(partial)
        } else {
            partial.items
        },
        previous_response_id: match partial.response_id {
            Some(id) if keep_response_id && id.len() != 0 => Some(id),
            _ => None,
        },
        ..req
    }
}

/// The request that asks the model to go on from a partial turn.
pub fn prefix_continue_request(
    req: &ConversationRequest,
    partial: &CollectedTurn,
    keep_response_id: bool,
) -> (out: ConversationRequest)
    ensures
        out.deep_view() == continued_request(
            req.deep_view(),
            partial.deep_view(),
            keep_response_id,
        ),
{
    let mut out = req.clone();
    out.previous_response_id = match &partial.response_id {
        Some(id) => if keep_response_id && !id.as_str().is_empty() {
            Some(id.clone())
        } else {
            None
        },
        None => None,
    };
    let mut prefix_items = if partial.items.len() == 0 {
        synthesize_partial_items(partial)
    } else {
        partial.items.clone()
    };
    out.items.append(&mut prefix_items);
    out
}

// ── Putting the two parts together ──────────────────────────────────────

/// A text and what came after it: what came is the whole where it repeats the
/// text, and follows it otherwise.
pub open spec fn continued_text(partial: Seq<char>, cont: Seq<char>) -> Seq<char> {
    if begins(cont, partial) {
        cont
    } else {
        partial + cont
    }
}

fn continue_text(partial: &str, cont: &str) -> (whole: String)
    ensures
        whole@ == continued_text(partial@, cont@),
{
    if starts_with(cont, partial) {
        cont.to_owned()
    } else {
        join(partial, cont)
    }
}

/// What was there before stays at the front of a continued text.
pub proof fn law_continued_text_keeps_the_front(partial: Seq<char>, cont: Seq<char>)
    ensures
        begins(continued_text(partial, cont), partial),
{
    assert((partial + cont).subrange(0, partial.len() as int) =~= partial);
}

/// What an observer has seen in the end is the continued text, where the
/// continuation repeats the shown text and where it starts behind it.
pub proof fn law_shown_is_continued_text(shown: Seq<char>, chunks: Seq<Seq<char>>)
    requires
        begins(joined(chunks), shown) || {
            &&& chunks.len() > 0
            &&& chunks[0].len() > 0
            &&& !begins(shown, chunks[0])
            &&& !begins(chunks[0], shown)
            &&& !begins(joined(chunks), shown)
        },
    ensures
        shown + passed_on(shown, chunks) == continued_text(shown, joined(chunks)),
{
    if begins(joined(chunks), shown) {
        law_repeated_prefix_is_dropped(shown, chunks);
        assert(shown + joined(chunks).skip(shown.len() as int) =~= joined(chunks));
    } else {
        if shown.len() == 0 {
            assert(chunks[0].subrange(0, 0) =~= shown);
        }
        law_nothing_to_skip(chunks.drop_first());
    }
}

/// A piece of reasoning with what a later one of the same id says of it.
pub open spec fn merged_reasoning(
    existing: ReasoningItemView,
    newer: ReasoningItemView,
) -> ReasoningItemView {
    ReasoningItemView {
        encrypted_content: match newer.encrypted_content {
            Some(content) => Some(content),
            None => existing.encrypted_content,
        },
        summary: if newer.summary.len() != 0 {
            newer.summary
        } else {
            existing.summary
        },
        content: match newer.content {
            Some(content) => Some(content),
            None => existing.content,
        },
        ..existing
    }
}

fn merge_reasoning(existing: &ReasoningItem, newer: &ReasoningItem) -> (merged: ReasoningItem)
    ensures
        merged.deep_view() == merged_reasoning(existing.deep_view(), newer.deep_view()),
{
    let mut merged = existing.clone();
    let update = newer.clone();
    if update.encrypted_content.is_some() {
        merged.encrypted_content = update.encrypted_content;
    }
    if update.summary.len() != 0 {
        merged.summary = update.summary;
    }
    if update.content.is_some() {
        merged.content = update.content;
    }
    merged
}

/// Where the first piece of reasoning with an id stands.
pub open spec fn reasoning_with_id(items: Seq<ReasoningItemView>, id: Seq<char>) -> Option<int>
    decreases items.len(),
{
    if items.len() == 0 {
        None
    } else if items[0].id == id {
        Some(0)
    } else {
        match reasoning_with_id(items.drop_first(), id) {
            Some(at) => Some(at + 1),
            None => None,
        }
    }
}

/// The list with one more piece of reasoning. One without an id is added unless
/// it is already there; one with an id goes into the first that has it.
pub open spec fn with_reasoning(
    items: Seq<ReasoningItemView>,
    newer: ReasoningItemView,
) -> Seq<ReasoningItemView> {
    if newer.id.len() == 0 {
        if items.contains(newer) {
            items
        } else {
            items.push(newer)
        }
    } else {
        match reasoning_with_id(items, newer.id) {
            Some(at) => items.update(at, merged_reasoning(items[at], newer)),
            None => items.push(newer),
        }
    }
}

/// One list of reasoning with all of another.
pub open spec fn all_reasoning(
    old_items: Seq<ReasoningItemView>,
    new_items: Seq<ReasoningItemView>,
) -> Seq<ReasoningItemView>
    decreases new_items.len(),
{
    if new_items.len() == 0 {
        old_items
    } else {
        with_reasoning(all_reasoning(old_items, new_items.drop_last()), new_items.last())
    }
}

fn find_reasoning(items: &Vec<ReasoningItem>, id: &str) -> (at: Option<usize>)
    ensures
        match at {
            Some(i) => i < items.len() && reasoning_with_id(items.deep_view(), id@) == Some(
                i as int,
            ),
            None => reasoning_with_id(items.deep_view(), id@) is None,
        },
{
    let ghost view = items.deep_view();
    assert(view.skip(0) =~= view);
    for i in 0..items.len()
        invariant
            view == items.deep_view(),
            reasoning_with_id(view, id@) == match reasoning_with_id(view.skip(i as int), id@) {
                Some(at) => Some(at + i),
                None => None::<int>,
            },
    {
        assert(view.skip(i as int).drop_first() =~= view.skip(i + 1));
        if str_eq(items[i].id.as_str(), id) {
            return Some(i);
        }
    }
    None
}

fn has_reasoning(items: &Vec<ReasoningItem>, item: &ReasoningItem) -> (yes: bool)
    ensures
        yes == items.deep_view().contains(item.deep_view()),
{
    let ghost view = items.deep_view();
    for i in 0..items.len()
        invariant
            view == items.deep_view(),
            forall|j: int| 0 <= j < i ==> view[j] != item.deep_view(),
    {
        if items[i].same_as(item) {
            assert(view[i as int] == item.deep_view());
            return true;
        }
    }
    false
}

/// Merges two lists of reasoning by id.
pub fn merge_reasoning_items(
    old_items: &Vec<ReasoningItem>,
    new_items: &Vec<ReasoningItem>,
) -> (out: Vec<ReasoningItem>)
    ensures
        out.deep_view() == all_reasoning(old_items.deep_view(), new_items.deep_view()),
{
    let mut out = old_items.clone();
    let ghost given = new_items.deep_view();
    for i in 0..new_items.len()
        invariant
            given == new_items.deep_view(),
            out.deep_view() == all_reasoning(old_items.deep_view(), given.take(i as int)),
    {
        let newer = &new_items[i];
        assert(given.take(i + 1).drop_last() =~= given.take(i as int));
        if newer.id.as_str().is_empty() {
            if !has_reasoning(&out, newer) {
                out.push(newer.clone());
            }
        } else {
            match find_reasoning(&out, newer.id.as_str()) {
                Some(at) => {
                    let merged = merge_reasoning(&out[at], newer);
                    out.set(at, merged);
                },
                None => {
                    out.push(newer.clone());
                },
            }
        }
    }
    assert(given.take(given.len() as int) =~= given);
    out
}

/// The items without the messages of the model at their end.
pub open spec fn without_trailing_messages(items: Seq<ConversationItemView>) -> Seq<
    ConversationItemView,
>
    decreases items.len(),
{
    if items.len() > 0 && items.last() is Assistant {
        without_trailing_messages(items.drop_last())
    } else {
        items
    }
}

/// Where the first item of reasoning with an id stands.
pub open spec fn reasoning_item_with_id(
    items: Seq<ConversationItemView>,
    id: Seq<char>,
) -> Option<int>
    decreases items.len(),
{
    if items.len() == 0 {
        None
    } else if items[0] is Reasoning && items[0]->Reasoning_0.id == id {
        Some(0)
    } else {
        match reasoning_item_with_id(items.drop_first(), id) {
            Some(at) => Some(at + 1),
            None => None,
        }
    }
}

/// A message of the continuation with the text and reasoning of the whole.
pub open spec fn whole_message(
    message: AssistantItemView,
    text: Seq<char>,
    reasoning: Seq<char>,
) -> AssistantItemView {
    AssistantItemView {
        content: text,
        reasoning_content: match message.reasoning_content {
            Some(content) => Some(content),
            None => if reasoning.len() == 0 {
                None
            } else {
                Some(reasoning)
            },
        },
        ..message
    }
}

/// The items with one of the continuation's. Reasoning is merged by id, a call of
/// a provider's tool is added as it is, a message stands for the whole text, and
/// nothing else is taken over.
pub open spec fn with_continued_item(
    items: Seq<ConversationItemView>,
    item: ConversationItemView,
    text: Seq<char>,
    reasoning: Seq<char>,
) -> Seq<ConversationItemView> {
    match item {
        ConversationItemView::Reasoning(newer) => if newer.id.len() == 0 {
            if items.contains(item) {
                items
            } else {
                items.push(item)
            }
        } else {
            match reasoning_item_with_id(items, newer.id) {
                Some(at) => items.update(
                    at,
                    ConversationItemView::Reasoning(
                        merged_reasoning(items[at]->Reasoning_0, newer),
                    ),
                ),
                None => items.push(item),
            }
        },
        ConversationItemView::BackendToolCall(_) => items.push(item),
        ConversationItemView::Assistant(message) => items.push(
            ConversationItemView::Assistant(whole_message(message, text, reasoning)),
        ),
        _ => items,
    }
}

/// The items with all of the continuation's.
pub open spec fn with_continued_items(
    items: Seq<ConversationItemView>,
    cont: Seq<ConversationItemView>,
    text: Seq<char>,
    reasoning: Seq<char>,
) -> Seq<ConversationItemView>
    decreases cont.len(),
{
    if cont.len() == 0 {
        items
    } else {
        with_continued_item(
            with_continued_items(items, cont.drop_last(), text, reasoning),
            cont.last(),
            text,
            reasoning,
        )
    }
}

/// Some item is a message of the model.
pub open spec fn has_message(items: Seq<ConversationItemView>) -> bool {
    exists|i: int| 0 <= i < items.len() && #[trigger] items[i] is Assistant
}

/// The items of a continued turn: those of the first part, or of the second where
/// the first has none, with the second part's merged in, and with a message.
pub open spec fn continued_items(
    partial: Seq<ConversationItemView>,
    cont: Seq<ConversationItemView>,
    text: Seq<char>,
    reasoning: Seq<char>,
) -> Seq<ConversationItemView> {
    let base = if partial.len() == 0 {
        cont
    } else {
        partial
    };
    let all = with_continued_items(without_trailing_messages(base), cont, text, reasoning);
    if has_message(all) {
        all
    } else {
        all.push(ConversationItemView::Assistant(crate::types::assistant_text(text)))
    }
}

fn find_reasoning_item(items: &Vec<ConversationItem>, id: &str) -> (at: Option<usize>)
    ensures
        match at {
            Some(i) => i < items.len() && items@[i as int] is Reasoning && reasoning_item_with_id(
                items.deep_view(),
                id@,
            ) == Some(i as int),
            None => reasoning_item_with_id(items.deep_view(), id@) is None,
        },
{
    let ghost view = items.deep_view();
    assert(view.skip(0) =~= view);
    for i in 0..items.len()
        invariant
            view == items.deep_view(),
            reasoning_item_with_id(view, id@) == match reasoning_item_with_id(
                view.skip(i as int),
                id@,
            ) {
                Some(at) => Some(at + i),
                None => None::<int>,
            },
    {
        assert(view.skip(i as int).drop_first() =~= view.skip(i + 1));
        if let ConversationItem::Reasoning(existing) = &items[i] {
            if str_eq(existing.id.as_str(), id) {
                return Some(i);
            }
        }
    }
    None
}

fn has_reasoning_item(items: &Vec<ConversationItem>, item: &ReasoningItem) -> (yes: bool)
    ensures
        yes == items.deep_view().contains(ConversationItemView::Reasoning(item.deep_view())),
{
    let ghost view = items.deep_view();
    for i in 0..items.len()
        invariant
            view == items.deep_view(),
            forall|j: int|
                0 <= j < i ==> view[j] != ConversationItemView::Reasoning(item.deep_view()),
    {
        if let ConversationItem::Reasoning(existing) = &items[i] {
            if existing.same_as(item) {
                assert(view.contains(view[i as int]));
                return true;
            }
        }
    }
    false
}

fn merge_continued_item(
    out: &mut Vec<ConversationItem>,
    item: &ConversationItem,
    text: &str,
    reasoning: &str,
)
    ensures
        final(out).deep_view() == with_continued_item(
            old(out).deep_view(),
            item.deep_view(),
            text@,
            reasoning@,
        ),
{
    match item {
        ConversationItem::Reasoning(newer) => {
            if newer.id.as_str().is_empty() {
                if !has_reasoning_item(out, newer) {
                    out.push(item.clone());
                }
            } else {
                match find_reasoning_item(out, newer.id.as_str()) {
                    Some(at) => {
                        if let ConversationItem::Reasoning(existing) = &out[at] {
                            let merged = ConversationItem::Reasoning(
                                merge_reasoning(existing, newer),
                            );
                            out.set(at, merged);
                        }
                    },
                    None => {
                        out.push(item.clone());
                    },
                }
            }
        },
        ConversationItem::BackendToolCall(_) => {
            out.push(item.clone());
        },
        ConversationItem::Assistant(message) => {
            let mut whole = message.clone();
            whole.content = text.to_owned();
            if whole.reasoning_content.is_none() && !reasoning.is_empty() {
                whole.reasoning_content = Some(reasoning.to_owned());
            }
            let merged = ConversationItem::Assistant(whole);
            out.push(merged);
        },
        _ => {},
    }
}

/// Merges the items of a continuation into those of the turn it continues.
pub fn merge_continued_items(
    partial: &Vec<ConversationItem>,
    cont: &Vec<ConversationItem>,
    text: &str,
    reasoning: &str,
) -> (out: Vec<ConversationItem>)
    ensures
        out.deep_view() == continued_items(
            partial.deep_view(),
            cont.deep_view(),
            text@,
            reasoning@,
        ),
{
    let mut out = if partial.len() == 0 {
        cont.clone()
    } else {
        partial.clone()
    };
    let ghost base = if partial.len() == 0 {
        cont.deep_view()
    } else {
        partial.deep_view()
    };
    while out.len() > 0 && matches!(out[out.len() - 1], ConversationItem::Assistant(_))
        invariant
            without_trailing_messages(base) == without_trailing_messages(out.deep_view()),
        decreases out.len(),
    {
        let ghost before = out.deep_view();
        out.pop();
        assert(out.deep_view() =~= before.drop_last());
    }
    let ghost trimmed = out.deep_view();
    let ghost given = cont.deep_view();
    for i in 0..cont.len()
        invariant
            given == cont.deep_view(),
            out.deep_view() == with_continued_items(
                trimmed,
                given.take(i as int),
                text@,
                reasoning@,
            ),
    {
        assert(given.take(i + 1).drop_last() =~= given.take(i as int));
        merge_continued_item(&mut out, &cont[i], text, reasoning);
    }
    assert(given.take(given.len() as int) =~= given);
    let ghost all = out.deep_view();
    for i in 0..out.len()
        invariant
            all == out.deep_view(),
            all == with_continued_items(trimmed, cont.deep_view(), text@, reasoning@),
            trimmed == without_trailing_messages(base),
            base == if partial.len() == 0 {
                cont.deep_view()
            } else {
                partial.deep_view()
            },
            forall|j: int| 0 <= j < i ==> !(#[trigger] all[j] is Assistant),
    {
        assert(all[i as int] == out@[i as int].deep_view());
        if let ConversationItem::Assistant(_) = &out[i] {
            return out;
        }
    }
    out.push(ConversationItem::assistant(text));
    out
}

/// The later of two texts, where it says anything.
pub open spec fn newer_text(earlier: Seq<char>, later: Seq<char>) -> Seq<char> {
    if later.len() == 0 {
        earlier
    } else {
        later
    }
}

fn pick_text(earlier: &String, later: String) -> (text: String)
    ensures
        text@ == newer_text(earlier@, later@),
{
    if later.as_str().is_empty() {
        earlier.clone()
    } else {
        later
    }
}

/// A partial turn and its continuation as one turn.
pub open spec fn continued_turn(
    partial: CollectedTurnView,
    cont: CollectedTurnView,
) -> CollectedTurnView {
    let text = continued_text(partial.text, cont.text);
    let reasoning = continued_text(partial.reasoning, cont.reasoning);
    CollectedTurnView {
        items: continued_items(partial.items, cont.items, text, reasoning),
        text,
        reasoning,
        reasoning_items: all_reasoning(partial.reasoning_items, cont.reasoning_items),
        encrypted_reasoning: json::or_else(cont.encrypted_reasoning, partial.encrypted_reasoning),
        tool_calls: if cont.tool_calls.len() == 0 {
            partial.tool_calls
        } else {
            cont.tool_calls
        },
        finish_reason: json::or_else(cont.finish_reason, partial.finish_reason),
        usage: json::or_else(cont.usage, partial.usage),
        model: newer_text(partial.model, cont.model),
        response_id: json::or_else(cont.response_id, partial.response_id),
        final_output: None,
        provider_id: newer_text(partial.provider_id, cont.provider_id),
        operation_id: newer_text(partial.operation_id, cont.operation_id),
        attempts: if cont.attempts >= partial.attempts {
            cont.attempts
        } else {
            partial.attempts
        },
    }
}

/// Puts a partial turn and its continuation together. Each field is merged by
/// itself: what could be derived from the merged items, such as the tool calls, is
/// not derived from them here. The caller, who knows what a turn derives from its
/// items, brings it in step with them.
pub fn merge_continued_turn(partial: &CollectedTurn, cont: CollectedTurn) -> (merged: CollectedTurn)
    ensures
        merged.deep_view() == continued_turn(partial.deep_view(), cont.deep_view()),
{
    let text = continue_text(partial.text.as_str(), cont.text.as_str());
    let reasoning = continue_text(partial.reasoning.as_str(), cont.reasoning.as_str());
    let items = merge_continued_items(
        &partial.items,
        &cont.items,
        text.as_str(),
        reasoning.as_str(),
    );
    let reasoning_items = merge_reasoning_items(&partial.reasoning_items, &cont.reasoning_items);
    let earlier = partial.clone();
    CollectedTurn {
        items,
        text,
        reasoning,
        reasoning_items,
        encrypted_reasoning: if cont.encrypted_reasoning.is_some() {
            cont.encrypted_reasoning
        } else {
            earlier.encrypted_reasoning
        },
        tool_calls: if cont.tool_calls.len() == 0 {
            earlier.tool_calls
        } else {
            cont.tool_calls
        },
        finish_reason: if cont.finish_reason.is_some() {
            cont.finish_reason
        } else {
            earlier.finish_reason
        },
        usage: if cont.usage.is_some() {
            cont.usage
        } else {
            earlier.usage
        },
        model: pick_text(&partial.model, cont.model),
        response_id: if cont.response_id.is_some() {
            cont.response_id
        } else {
            earlier.response_id
        },
        final_output: None,
        provider_id: pick_text(&partial.provider_id, cont.provider_id),
        operation_id: pick_text(&partial.operation_id, cont.operation_id),
        attempts: if cont.attempts >= partial.attempts {
            cont.attempts
        } else {
            partial.attempts
        },
    }
}

/// A continued turn always has a message among its items.
pub proof fn law_continued_turn_has_a_message(partial: CollectedTurnView, cont: CollectedTurnView)
    ensures
        has_message(continued_turn(partial, cont).items),
{
    let turn = continued_turn(partial, cont);
    let base = if partial.items.len() == 0 {
        cont.items
    } else {
        partial.items
    };
    let all = with_continued_items(
        without_trailing_messages(base),
        cont.items,
        turn.text,
        turn.reasoning,
    );
    if !has_message(all) {
        assert(turn.items[all.len() as int] is Assistant);
    }
}

/// A continued turn shows what the partial turn showed, and more at its end only.
pub proof fn law_continued_turn_keeps_the_text(partial: CollectedTurnView, cont: CollectedTurnView)
    ensures
        begins(continued_turn(partial, cont).text, partial.text),
        begins(continued_turn(partial, cont).reasoning, partial.reasoning),
{
    law_continued_text_keeps_the_front(partial.text, cont.text);
    law_continued_text_keeps_the_front(partial.reasoning, cont.reasoning);
}

/// The piece of reasoning that is found has the id that was looked for.
proof fn lemma_found_reasoning(items: Seq<ReasoningItemView>, id: Seq<char>)
    ensures
        match reasoning_with_id(items, id) {
            Some(at) => 0 <= at < items.len() && items[at].id == id,
            None => true,
        },
    decreases items.len(),
{
    if items.len() > 0 && items[0].id != id {
        lemma_found_reasoning(items.drop_first(), id);
    }
}

/// Merging reasoning drops none of the earlier pieces: each keeps its place and
/// its id.
pub proof fn law_merging_keeps_earlier_reasoning(
    old_items: Seq<ReasoningItemView>,
    new_items: Seq<ReasoningItemView>,
)
    ensures
        all_reasoning(old_items, new_items).len() >= old_items.len(),
        forall|i: int|
            0 <= i < old_items.len() ==> (#[trigger] all_reasoning(old_items, new_items)[i]).id
                == old_items[i].id,
    decreases new_items.len(),
{
    if new_items.len() > 0 {
        law_merging_keeps_earlier_reasoning(old_items, new_items.drop_last());
        lemma_found_reasoning(
            all_reasoning(old_items, new_items.drop_last()),
            new_items.last().id,
        );
    }
}

// ── What a continued turn is made of ────────────────────────────────────

/// Text that neither repeats the shown text nor begins with it ends the skipping and
/// is passed on whole.
pub proof fn law_departing_text_passes_whole(remaining: Seq<char>, incoming: Seq<char>)
    requires
        exists|i: int|
            0 <= i < remaining.len() && i < incoming.len() && #[trigger] remaining[i]
                != incoming[i],
    ensures
        skipped(remaining, incoming) == (Seq::<char>::empty(), incoming),
{
    let i = choose|i: int|
        0 <= i < remaining.len() && i < incoming.len() && #[trigger] remaining[i] != incoming[i];
    if begins(remaining, incoming) {
        assert(remaining.subrange(0, incoming.len() as int)[i] == remaining[i]);
    }
    if begins(incoming, remaining) {
        assert(incoming.subrange(0, remaining.len() as int)[i] == incoming[i]);
    }
}

/// Of a continued turn, what the continuation says counts, and what it does not say
/// is as it was: its tool calls are those of the continuation, in order, where that
/// calls any. Its text is the continuation's where that repeats the earlier text, and
/// the two one behind the other otherwise; and so is its reasoning.
pub proof fn law_continuations_count(partial: CollectedTurnView, cont: CollectedTurnView)
    ensures
        ({
            let turn = continued_turn(partial, cont);
            &&& cont.tool_calls.len() > 0 ==> turn.tool_calls == cont.tool_calls
            &&& cont.tool_calls.len() == 0 ==> turn.tool_calls == partial.tool_calls
            &&& forall|more: Seq<char>|
                cont.text == #[trigger] (partial.text + more) ==> turn.text == cont.text
            &&& (forall|more: Seq<char>| cont.text != #[trigger] (partial.text + more))
                ==> turn.text == partial.text + cont.text
            &&& forall|more: Seq<char>|
                cont.reasoning == #[trigger] (partial.reasoning + more) ==> turn.reasoning
                    == cont.reasoning
            &&& (forall|more: Seq<char>| cont.reasoning != #[trigger] (partial.reasoning + more))
                ==> turn.reasoning == partial.reasoning + cont.reasoning
            &&& cont.encrypted_reasoning is Some ==> turn.encrypted_reasoning
                == cont.encrypted_reasoning
            &&& cont.encrypted_reasoning is None ==> turn.encrypted_reasoning
                == partial.encrypted_reasoning
            &&& cont.finish_reason is Some ==> turn.finish_reason == cont.finish_reason
            &&& cont.finish_reason is None ==> turn.finish_reason == partial.finish_reason
            &&& cont.usage is Some ==> turn.usage == cont.usage
            &&& cont.usage is None ==> turn.usage == partial.usage
            &&& cont.response_id is Some ==> turn.response_id == cont.response_id
            &&& cont.response_id is None ==> turn.response_id == partial.response_id
            &&& cont.model.len() > 0 ==> turn.model == cont.model
            &&& cont.model.len() == 0 ==> turn.model == partial.model
            &&& cont.provider_id.len() > 0 ==> turn.provider_id == cont.provider_id
            &&& cont.provider_id.len() == 0 ==> turn.provider_id == partial.provider_id
            &&& cont.operation_id.len() > 0 ==> turn.operation_id == cont.operation_id
            &&& cont.operation_id.len() == 0 ==> turn.operation_id == partial.operation_id
            &&& turn.attempts >= cont.attempts && turn.attempts >= partial.attempts
            &&& turn.attempts == cont.attempts || turn.attempts == partial.attempts
            &&& turn.final_output is None
        }),
{
    lemma_repeats(partial.text, cont.text);
    lemma_repeats(partial.reasoning, cont.reasoning);
}

proof fn lemma_repeats(front: Seq<char>, whole: Seq<char>)
    ensures
        begins(whole, front) ==> whole == front + whole.skip(front.len() as int),
        forall|more: Seq<char>| whole == #[trigger] (front + more) ==> begins(whole, front),
{
    if begins(whole, front) {
        text::law_found_parts_stand_there(whole, front, 0);
        assert(whole.take(0) + front =~= front);
    }
    assert forall|more: Seq<char>| whole == #[trigger] (front + more) implies begins(
        whole,
        front,
    ) by {
        assert(whole.subrange(0, front.len() as int) =~= front);
    }
}

/// The messages of the model among some items.
pub open spec fn messages_of(items: Seq<ConversationItemView>) -> Seq<AssistantItemView>
    decreases items.len(),
{
    if items.len() == 0 {
        Seq::empty()
    } else {
        let before = messages_of(items.drop_last());
        match items.last() {
            ConversationItemView::Assistant(message) => before.push(message),
            _ => before,
        }
    }
}

/// The calls of the provider's own tools among some items.
pub open spec fn backend_calls_of(items: Seq<ConversationItemView>) -> Seq<ConversationItemView>
    decreases items.len(),
{
    if items.len() == 0 {
        Seq::empty()
    } else {
        let before = backend_calls_of(items.drop_last());
        if items.last() is BackendToolCall {
            before.push(items.last())
        } else {
            before
        }
    }
}

/// What others than the model said among some items.
pub open spec fn inputs_of(items: Seq<ConversationItemView>) -> Seq<ConversationItemView>
    decreases items.len(),
{
    if items.len() == 0 {
        Seq::empty()
    } else {
        let before = inputs_of(items.drop_last());
        match items.last() {
            ConversationItemView::System(_) => before.push(items.last()),
            ConversationItemView::User(_) => before.push(items.last()),
            ConversationItemView::ToolResult(_) => before.push(items.last()),
            _ => before,
        }
    }
}

proof fn lemma_one_more_item(items: Seq<ConversationItemView>, item: ConversationItemView)
    ensures
        messages_of(items.push(item)) == (match item {
            ConversationItemView::Assistant(message) => messages_of(items).push(message),
            _ => messages_of(items),
        }),
        backend_calls_of(items.push(item)) == (if item is BackendToolCall {
            backend_calls_of(items).push(item)
        } else {
            backend_calls_of(items)
        }),
        inputs_of(items.push(item)) == (if item is System || item is User || item is ToolResult {
            inputs_of(items).push(item)
        } else {
            inputs_of(items)
        }),
{
    assert(items.push(item).drop_last() =~= items);
}

proof fn lemma_reasoning_is_replaced(
    items: Seq<ConversationItemView>,
    at: int,
    item: ConversationItemView,
)
    requires
        0 <= at < items.len(),
        items[at] is Reasoning,
        item is Reasoning,
    ensures
        messages_of(items.update(at, item)) == messages_of(items),
        backend_calls_of(items.update(at, item)) == backend_calls_of(items),
        inputs_of(items.update(at, item)) == inputs_of(items),
    decreases items.len(),
{
    let changed = items.update(at, item);
    if at == items.len() - 1 {
        assert(changed.drop_last() =~= items.drop_last());
    } else {
        assert(changed.drop_last() =~= items.drop_last().update(at, item));
        assert(changed.last() == items.last());
        lemma_reasoning_is_replaced(items.drop_last(), at, item);
    }
}

proof fn lemma_found_reasoning_item(items: Seq<ConversationItemView>, id: Seq<char>)
    ensures
        match reasoning_item_with_id(items, id) {
            Some(at) => 0 <= at < items.len() && items[at] is Reasoning
                && items[at]->Reasoning_0.id == id && forall|j: int|
                0 <= j < at ==> !(#[trigger] items[j] is Reasoning && items[j]->Reasoning_0.id
                    == id),
            None => forall|j: int|
                0 <= j < items.len() ==> !(#[trigger] items[j] is Reasoning
                    && items[j]->Reasoning_0.id == id),
        },
    decreases items.len(),
{
    if items.len() > 0 && !(items[0] is Reasoning && items[0]->Reasoning_0.id == id) {
        let rest = items.drop_first();
        lemma_found_reasoning_item(rest, id);
        let end = match reasoning_item_with_id(items, id) {
            Some(at) => at,
            None => items.len() as int,
        };
        assert forall|j: int| 0 <= j < end implies !(#[trigger] items[j] is Reasoning
            && items[j]->Reasoning_0.id == id) by {
            if j > 0 {
                assert(items[j] == rest[j - 1]);
            }
        }
    }
}

proof fn lemma_messages_of_all(
    items: Seq<ConversationItemView>,
    cont: Seq<ConversationItemView>,
    text: Seq<char>,
    reasoning: Seq<char>,
)
    ensures
        ({
            let all = with_continued_items(items, cont, text, reasoning);
            &&& messages_of(all).len() == messages_of(items).len() + messages_of(cont).len()
            &&& forall|i: int|
                0 <= i < messages_of(items).len() ==> #[trigger] messages_of(all)[i]
                    == messages_of(items)[i]
            &&& forall|i: int|
                0 <= i < messages_of(cont).len() ==> is_whole(
                    #[trigger] messages_of(cont)[i],
                    messages_of(all)[messages_of(items).len() + i],
                    text,
                    reasoning,
                )
            &&& backend_calls_of(all) == backend_calls_of(items) + backend_calls_of(cont)
            &&& inputs_of(all) == inputs_of(items)
        }),
    decreases cont.len(),
{
    if cont.len() == 0 {
        assert(backend_calls_of(items) + backend_calls_of(cont) =~= backend_calls_of(items));
    } else {
        let front = cont.drop_last();
        let item = cont.last();
        let before = with_continued_items(items, front, text, reasoning);
        lemma_messages_of_all(items, front, text, reasoning);
        lemma_one_more_item(before, item);
        assert(front.push(item) =~= cont);
        lemma_one_more_item(front, item);
        let all = with_continued_items(items, cont, text, reasoning);
        match item {
            ConversationItemView::Reasoning(newer) => {
                if newer.id.len() > 0 {
                    lemma_found_reasoning_item(before, newer.id);
                    if let Some(at) = reasoning_item_with_id(before, newer.id) {
                        lemma_reasoning_is_replaced(before, at, all[at]);
                    }
                }
            },
            ConversationItemView::Assistant(message) => {
                let whole = ConversationItemView::Assistant(
                    whole_message(message, text, reasoning),
                );
                lemma_one_more_item(before, whole);
            },
            ConversationItemView::BackendToolCall(_) => {
                assert(backend_calls_of(all) =~= backend_calls_of(items) + backend_calls_of(cont));
            },
            _ => {},
        }
    }
}

/// The message of a continuation, as it stands for the whole text: it keeps its calls,
/// its encrypted reasoning, its origin and its own reasoning, where it has any.
pub open spec fn is_whole(
    message: AssistantItemView,
    whole: AssistantItemView,
    text: Seq<char>,
    reasoning: Seq<char>,
) -> bool {
    &&& whole.content == text
    &&& whole.tool_calls == message.tool_calls
    &&& whole.encrypted_reasoning == message.encrypted_reasoning
    &&& whole.origin == message.origin
    &&& message.reasoning_content is Some ==> whole.reasoning_content == message.reasoning_content
    &&& message.reasoning_content is None && reasoning.len() > 0 ==> whole.reasoning_content
        == Some(reasoning)
    &&& message.reasoning_content is None && reasoning.len() == 0 ==> whole.reasoning_content
        is None
}

proof fn lemma_trailing_messages(items: Seq<ConversationItemView>, k: int)
    requires
        0 <= k <= items.len(),
        forall|i: int| k <= i < items.len() ==> #[trigger] items[i] is Assistant,
        k > 0 ==> !(items[k - 1] is Assistant),
    ensures
        without_trailing_messages(items) == items.take(k),
    decreases items.len(),
{
    if k == items.len() {
        assert(items.take(k) =~= items);
    } else {
        let front = items.drop_last();
        assert forall|i: int| k <= i < front.len() implies #[trigger] front[i] is Assistant by {
            assert(front[i] == items[i]);
        }
        assert(items.last() is Assistant);
        lemma_trailing_messages(front, k);
        assert(front.take(k) =~= items.take(k));
    }
}

proof fn lemma_messages_are_there(items: Seq<ConversationItemView>)
    ensures
        has_message(items) <==> messages_of(items).len() > 0,
    decreases items.len(),
{
    if items.len() > 0 {
        let front = items.drop_last();
        lemma_messages_are_there(front);
        if has_message(items) && !(items.last() is Assistant) {
            let i = choose|i: int| 0 <= i < items.len() && #[trigger] items[i] is Assistant;
            assert(front[i] is Assistant);
        }
        if has_message(front) {
            let i = choose|i: int| 0 <= i < front.len() && #[trigger] front[i] is Assistant;
            assert(items[i] is Assistant);
        }
        if items.last() is Assistant {
            assert(items[items.len() - 1] is Assistant);
        }
    }
}

/// The items that those of a continued turn begin with.
pub open spec fn first_items(partial: CollectedTurnView, cont: CollectedTurnView) -> Seq<
    ConversationItemView,
> {
    if partial.items.len() > 0 {
        partial.items
    } else {
        cont.items
    }
}

/// The items of a continued turn begin with those of its first part, without the
/// messages at their end; where that has none, with those of the continuation. Then
/// come the messages of the continuation, each for the whole text and with its own
/// calls, and the calls that its provider ran. Where that leaves no message, there is
/// one with the text. What others said is not taken from a continuation.
pub proof fn law_items_of_a_continued_turn(
    partial: CollectedTurnView,
    cont: CollectedTurnView,
    k: int,
)
    requires
        0 <= k <= first_items(partial, cont).len(),
        forall|i: int|
            k <= i < first_items(partial, cont).len() ==> #[trigger] first_items(partial, cont)[i]
                is Assistant,
        k > 0 ==> !(first_items(partial, cont)[k - 1] is Assistant),
    ensures
        ({
            let turn = continued_turn(partial, cont);
            let front = first_items(partial, cont).take(k);
            let before = messages_of(front);
            let later = messages_of(cont.items);
            let all = messages_of(turn.items);
            &&& before.len() + later.len() > 0 ==> all.len() == before.len() + later.len()
            &&& forall|i: int| 0 <= i < before.len() ==> #[trigger] all[i] == before[i]
            &&& forall|i: int|
                0 <= i < later.len() ==> is_whole(
                    #[trigger] later[i],
                    all[before.len() + i],
                    turn.text,
                    turn.reasoning,
                )
            &&& before.len() + later.len() == 0 ==> all.len() == 1 && is_whole(
                AssistantItemView {
                    content: Seq::empty(),
                    tool_calls: Seq::empty(),
                    reasoning_content: None,
                    encrypted_reasoning: None,
                    origin: None,
                },
                all[0],
                turn.text,
                Seq::empty(),
            )
            &&& backend_calls_of(turn.items) == backend_calls_of(front) + backend_calls_of(
                cont.items,
            )
            &&& inputs_of(turn.items) == inputs_of(front)
        }),
{
    let turn = continued_turn(partial, cont);
    let base = first_items(partial, cont);
    let front = base.take(k);
    lemma_trailing_messages(base, k);
    let all = with_continued_items(front, cont.items, turn.text, turn.reasoning);
    lemma_messages_of_all(front, cont.items, turn.text, turn.reasoning);
    lemma_messages_are_there(all);
    if !has_message(all) {
        lemma_one_more_item(all, turn.items.last());
    }
}

/// A piece of reasoning as a later one of the same id leaves it: it stays the same
/// piece, and what the later one says of it counts.
pub open spec fn is_updated(
    earlier: ReasoningItemView,
    newer: ReasoningItemView,
    updated: ReasoningItemView,
) -> bool {
    &&& updated.id == earlier.id
    &&& updated.status == earlier.status
    &&& newer.encrypted_content is Some ==> updated.encrypted_content == newer.encrypted_content
    &&& newer.encrypted_content is None ==> updated.encrypted_content == earlier.encrypted_content
    &&& newer.summary.len() > 0 ==> updated.summary == newer.summary
    &&& newer.summary.len() == 0 ==> updated.summary == earlier.summary
    &&& newer.content is Some ==> updated.content == newer.content
    &&& newer.content is None ==> updated.content == earlier.content
}

/// Reasoning is merged piece by piece. One without an id is added unless it is there;
/// one whose id is there updates the first that has it, and no other; any other is
/// added at the end.
pub proof fn law_reasoning_is_merged_by_id(
    old_items: Seq<ReasoningItemView>,
    new_items: Seq<ReasoningItemView>,
    newer: ReasoningItemView,
)
    ensures
        all_reasoning(old_items, Seq::empty()) == old_items,
        ({
            let before = all_reasoning(old_items, new_items);
            let after = all_reasoning(old_items, new_items.push(newer));
            &&& newer.id.len() == 0 && before.contains(newer) ==> after == before
            &&& newer.id.len() == 0 && !before.contains(newer) ==> after == before.push(newer)
            &&& newer.id.len() > 0 && (forall|i: int|
                0 <= i < before.len() ==> (#[trigger] before[i]).id != newer.id) ==> after
                == before.push(newer)
            &&& forall|i: int|
                newer.id.len() > 0 && 0 <= i < before.len() && (#[trigger] before[i]).id
                    == newer.id && (forall|j: int|
                    0 <= j < i ==> (#[trigger] before[j]).id != newer.id) ==> {
                    &&& after.len() == before.len()
                    &&& is_updated(before[i], newer, after[i])
                    &&& forall|j: int|
                        0 <= j < before.len() && j != i ==> #[trigger] after[j] == before[j]
                }
        }),
{
    let before = all_reasoning(old_items, new_items);
    assert(new_items.push(newer).drop_last() =~= new_items);
    lemma_first_reasoning(before, newer.id);
}

proof fn lemma_first_reasoning(items: Seq<ReasoningItemView>, id: Seq<char>)
    ensures
        match reasoning_with_id(items, id) {
            Some(at) => 0 <= at < items.len() && items[at].id == id && forall|j: int|
                0 <= j < at ==> (#[trigger] items[j]).id != id,
            None => forall|j: int| 0 <= j < items.len() ==> (#[trigger] items[j]).id != id,
        },
    decreases items.len(),
{
    if items.len() > 0 && items[0].id != id {
        let rest = items.drop_first();
        lemma_first_reasoning(rest, id);
        let end = match reasoning_with_id(items, id) {
            Some(at) => at,
            None => items.len() as int,
        };
        assert forall|j: int| 0 <= j < end implies (#[trigger] items[j]).id != id by {
            if j > 0 {
                assert(items[j] == rest[j - 1]);
            }
        }
    }
}

/// A continued turn has the reasoning of both parts, merged.
pub proof fn law_continued_turns_have_all_reasoning(
    partial: CollectedTurnView,
    cont: CollectedTurnView,
)
    ensures
        continued_turn(partial, cont).reasoning_items == all_reasoning(
            partial.reasoning_items,
            cont.reasoning_items,
        ),
{
}

/// Reasoning among the items of a continuation is merged as reasoning is everywhere:
/// one without an id is added unless it is there, one whose id is there updates the
/// first that has it, and any other is added at the end. Nothing else changes.
pub proof fn law_reasoning_items_are_merged_by_id(
    items: Seq<ConversationItemView>,
    cont: Seq<ConversationItemView>,
    newer: ReasoningItemView,
    text: Seq<char>,
    reasoning: Seq<char>,
)
    ensures
        ({
            let item = ConversationItemView::Reasoning(newer);
            let before = with_continued_items(items, cont, text, reasoning);
            let after = with_continued_items(items, cont.push(item), text, reasoning);
            &&& newer.id.len() == 0 && before.contains(item) ==> after == before
            &&& newer.id.len() == 0 && !before.contains(item) ==> after == before.push(item)
            &&& newer.id.len() > 0 && (forall|i: int|
                0 <= i < before.len() ==> !(#[trigger] before[i] is Reasoning
                    && before[i]->Reasoning_0.id == newer.id)) ==> after == before.push(item)
            &&& forall|i: int|
                newer.id.len() > 0 && 0 <= i < before.len() && #[trigger] before[i] is Reasoning
                    && before[i]->Reasoning_0.id == newer.id && (forall|j: int|
                    0 <= j < i ==> !(#[trigger] before[j] is Reasoning && before[j]->Reasoning_0.id
                        == newer.id)) ==> {
                    &&& after.len() == before.len()
                    &&& after[i] is Reasoning
                    &&& is_updated(before[i]->Reasoning_0, newer, after[i]->Reasoning_0)
                    &&& forall|j: int|
                        0 <= j < before.len() && j != i ==> #[trigger] after[j] == before[j]
                }
        }),
{
    let item = ConversationItemView::Reasoning(newer);
    let before = with_continued_items(items, cont, text, reasoning);
    assert(cont.push(item).drop_last() =~= cont);
    lemma_found_reasoning_item(before, newer.id);
}

/// The items of a continued turn are those of the first part, or of the second where
/// the first has none, with those of the second merged in, and a message behind them
/// where there is none.
pub proof fn law_items_are_merged_into_the_first_part(
    partial: CollectedTurnView,
    cont: CollectedTurnView,
    k: int,
)
    requires
        0 <= k <= first_items(partial, cont).len(),
        forall|i: int|
            k <= i < first_items(partial, cont).len() ==> #[trigger] first_items(partial, cont)[i]
                is Assistant,
        k > 0 ==> !(first_items(partial, cont)[k - 1] is Assistant),
    ensures
        ({
            let turn = continued_turn(partial, cont);
            let front = first_items(partial, cont).take(k);
            let all = with_continued_items(front, cont.items, turn.text, turn.reasoning);
            &&& turn.items.len() >= all.len()
            &&& turn.items.take(all.len() as int) == all
            &&& with_continued_items(front, Seq::empty(), turn.text, turn.reasoning) == front
        }),
{
    let turn = continued_turn(partial, cont);
    let base = first_items(partial, cont);
    lemma_trailing_messages(base, k);
    let all = with_continued_items(base.take(k), cont.items, turn.text, turn.reasoning);
    assert(turn.items.take(all.len() as int) =~= all);
}

/// A request that continues a turn is the same request with that turn at its end: the
/// turn's items, or, where it has none, its reasoning and one message with its text.
/// It goes on from the turn's response only where that is asked for and named.
pub proof fn law_continued_requests_end_with_the_turn(
    req: ConversationRequestView,
    partial: CollectedTurnView,
    keep_response_id: bool,
)
    ensures
        ({
            let out = continued_request(req, partial, keep_response_id);
            let added = out.items.skip(req.items.len() as int);
            let n = partial.reasoning_items.len();
            &&& out.items.len() >= req.items.len()
            &&& out.items.take(req.items.len() as int) == req.items
            &&& partial.items.len() > 0 ==> added == partial.items
            &&& partial.items.len() == 0 ==> {
                &&& added.len() == n + 1
                &&& forall|i: int|
                    0 <= i < n ==> #[trigger] added[i] == ConversationItemView::Reasoning(
                        partial.reasoning_items[i],
                    )
                &&& added[n as int] matches ConversationItemView::Assistant(message) && {
                    &&& message.content == partial.text
                    &&& message.tool_calls.len() == 0
                    &&& partial.reasoning.len() > 0 ==> message.reasoning_content == Some(
                        partial.reasoning,
                    )
                    &&& partial.reasoning.len() == 0 ==> message.reasoning_content is None
                    &&& message.encrypted_reasoning == partial.encrypted_reasoning
                    &&& message.origin is None
                }
            }
            &&& out.previous_response_id is Some ==> keep_response_id && out.previous_response_id
                == partial.response_id
            &&& keep_response_id && (partial.response_id matches Some(id) && id.len() > 0)
                ==> out.previous_response_id == partial.response_id
            &&& out.previous_response_id matches Some(id) ==> id.len() > 0
            &&& out.model == req.model
            &&& out.stream == req.stream
            &&& out.tools == req.tools
            &&& out.tool_choice == req.tool_choice
            &&& out.temperature == req.temperature
            &&& out.max_tokens == req.max_tokens
            &&& out.reasoning_effort == req.reasoning_effort
            &&& out.hosted_tools == req.hosted_tools
            &&& out.response_format == req.response_format
        }),
{
    let out = continued_request(req, partial, keep_response_id);
    let added = if partial.items.len() == 0 {
        synthesized(partial)
    } else {
        partial.items
    };
    assert(out.items.take(req.items.len() as int) =~= req.items);
    assert(out.items.skip(req.items.len() as int) =~= added);
}

/// What says nothing goes unnoticed: an empty piece of text or reasoning, and an event
/// of any other kind, which is passed on as it is.
pub proof fn law_silence_goes_unnoticed(
    observer: PrefixSkippingObserverView,
    event: AgentEventView,
)
    requires
        match event {
            AgentEventView::TextDelta { text } => text.len() == 0,
            AgentEventView::ReasoningDelta { text } => text.len() == 0,
            _ => true,
        },
    ensures
        observer.step(event).0 == observer,
        !(event is TextDelta) && !(event is ReasoningDelta) ==> observer.step(event).1 == Some(
            event,
        ),
        event is TextDelta || event is ReasoningDelta ==> observer.step(event).1 is None,
{
}

/// An interrupted turn is accepted if and only if it calls a tool of the client and the
/// arguments of all such calls are JSON. It is continued if and only if it calls nothing
/// and its text is more than white space.
pub proof fn law_interrupted_turns(turn: CollectedTurnView)
    ensures
        acceptable(turn) <==> {
            &&& exists|i: int|
                0 <= i < turn.tool_calls.len() && (#[trigger] turn.tool_calls[i]).kind
                    != "server"@
            &&& forall|i: int|
                0 <= i < turn.tool_calls.len() && (#[trigger] turn.tool_calls[i]).kind
                    != "server"@ ==> json::is_json_text(turn.tool_calls[i].function.arguments)
        },
        any_unfinished(turn.tool_calls) <==> exists|i: int|
            0 <= i < turn.tool_calls.len() && (#[trigger] turn.tool_calls[i]).kind != "server"@
                && !json::is_json_text(turn.tool_calls[i].function.arguments),
        continuable(turn) <==> turn.tool_calls.len() == 0 && text::trimmed(turn.text).len() > 0,
{
    let calls = turn.tool_calls;
    assert forall|i: int| 0 <= i < calls.len() implies runs_on_server(#[trigger] calls[i]) == (
    calls[i].kind == "server"@) by {}
    if any_unfinished(calls) {
        let i = choose|i: int| 0 <= i < calls.len() && unfinished(#[trigger] calls[i]);
        assert(calls[i].kind != "server"@ && !json::is_json_text(calls[i].function.arguments));
    }
    if exists|i: int|
        0 <= i < calls.len() && (#[trigger] calls[i]).kind != "server"@ && !json::is_json_text(
            calls[i].function.arguments,
        ) {
        let i = choose|i: int|
            0 <= i < calls.len() && (#[trigger] calls[i]).kind != "server"@
                && !json::is_json_text(calls[i].function.arguments);
        assert(unfinished(calls[i]));
    }
    if exists|i: int| 0 <= i < calls.len() && (#[trigger] calls[i]).kind != "server"@ {
        let i = choose|i: int| 0 <= i < calls.len() && (#[trigger] calls[i]).kind != "server"@;
        assert(!runs_on_server(calls[i]));
    }
}

/// A message among the items makes just these calls.
pub open spec fn some_message_calls(
    items: Seq<ConversationItemView>,
    calls: Seq<ToolCallView>,
) -> bool {
    exists|j: int|
        0 <= j < messages_of(items).len() && (#[trigger] messages_of(items)[j]).tool_calls == calls
}

/// No call that a continuation made is lost in merging: the merged turn calls just what
/// the continuation calls, and each of its messages is among the merged items with its
/// own calls.
pub proof fn law_merging_loses_no_call(
    partial: CollectedTurn,
    cont: CollectedTurn,
    merged: CollectedTurn,
    k: int,
)
    requires
        call_ensures(merge_continued_turn, (&partial, cont), merged),
        0 <= k <= first_items(partial.deep_view(), cont.deep_view()).len(),
        forall|i: int|
            k <= i < first_items(partial.deep_view(), cont.deep_view()).len()
                ==> #[trigger] first_items(partial.deep_view(), cont.deep_view())[i] is Assistant,
        k > 0 ==> !(first_items(partial.deep_view(), cont.deep_view())[k - 1] is Assistant),
    ensures
        cont.deep_view().tool_calls.len() > 0 ==> merged.deep_view().tool_calls
            == cont.deep_view().tool_calls,
        forall|i: int|
            0 <= i < messages_of(cont.deep_view().items).len() ==> some_message_calls(
                merged.deep_view().items,
                (#[trigger] messages_of(cont.deep_view().items)[i]).tool_calls,
            ),
{
    let first = partial.deep_view();
    let second = cont.deep_view();
    law_continuations_count(first, second);
    law_items_of_a_continued_turn(first, second, k);
    let before = messages_of(first_items(first, second).take(k));
    let later = messages_of(second.items);
    let all = messages_of(merged.deep_view().items);
    assert forall|i: int| 0 <= i < later.len() implies some_message_calls(
        merged.deep_view().items,
        (#[trigger] later[i]).tool_calls,
    ) by {
        let j = before.len() + i;
        assert(is_whole(
            later[i],
            all[j],
            merged.deep_view().text,
            merged.deep_view().reasoning,
        ));
    }
}

} // verus!
