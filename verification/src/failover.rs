//! What of a conversation another provider may see: reasoning stays with the
//! provider group and model that wrote it.
use vstd::prelude::*;

use crate::text::str_eq;
use crate::types::{AssistantItem, AssistantItemView, ConversationItem, ConversationItemView};

verus! {

impl AssistantItemView {
    /// The compatibility key under which the message was written: the one that it
    /// names, or that of the primary provider.
    pub open spec fn written_under(self, primary: Seq<char>) -> Seq<char> {
        match self.origin {
            Some(key) => key,
            None => primary,
        }
    }

    /// The message as a provider with the key `target` may see it: only under the
    /// same key does it keep its reasoning.
    pub open spec fn seen_under(self, target: Seq<char>, primary: Seq<char>) -> AssistantItemView {
        if self.written_under(primary) == target {
            self
        } else {
            AssistantItemView { reasoning_content: None, encrypted_reasoning: None, ..self }
        }
    }
}

/// An item as a provider may see it, where it may see it at all.
pub open spec fn seen_item(
    item: ConversationItemView,
    target: Seq<char>,
    primary: Seq<char>,
) -> ConversationItemView {
    match item {
        ConversationItemView::Assistant(message) => ConversationItemView::Assistant(
            message.seen_under(target, primary),
        ),
        other => other,
    }
}

/// The compatibility key under which reasoning was written that stands before these
/// items: that of the message it leads to, past more reasoning and calls that the
/// provider ran, or that of the primary provider where it leads to none.
pub open spec fn key_ahead(items: Seq<ConversationItemView>, primary: Seq<char>) -> Seq<char>
    decreases items.len(),
{
    if items.len() == 0 {
        primary
    } else {
        match items[0] {
            ConversationItemView::Assistant(message) => message.written_under(primary),
            ConversationItemView::Reasoning(_) => key_ahead(items.drop_first(), primary),
            ConversationItemView::BackendToolCall(_) => key_ahead(items.drop_first(), primary),
            _ => primary,
        }
    }
}

/// The items that a provider with the key `target` may see, as it may see them.
pub open spec fn seen_items(
    items: Seq<ConversationItemView>,
    target: Seq<char>,
    primary: Seq<char>,
) -> Seq<ConversationItemView>
    decreases items.len(),
{
    if items.len() == 0 {
        Seq::empty()
    } else {
        let rest = seen_items(items.drop_first(), target, primary);
        if items[0] is Reasoning && key_ahead(items.drop_first(), primary) != target {
            rest
        } else {
            seq![seen_item(items[0], target, primary)] + rest
        }
    }
}

impl AssistantItem {
    fn is_written_under(&self, target: &str, primary: &str) -> (same: bool)
        ensures
            same == (self.deep_view().written_under(primary@) == target@),
    {
        match &self.origin {
            Some(key) => str_eq(key.as_str(), target),
            None => str_eq(primary, target),
        }
    }

    fn sanitize(&self, target: &str, primary: &str) -> (message: AssistantItem)
        ensures
            message.deep_view() == self.deep_view().seen_under(target@, primary@),
    {
        let mut message = self.clone();
        if !self.is_written_under(target, primary) {
            message.reasoning_content = None;
            message.encrypted_reasoning = None;
        }
        message
    }
}

fn leads_to_key(
    items: &Vec<ConversationItem>,
    start: usize,
    target: &str,
    primary: &str,
) -> (same: bool)
    requires
        start <= items.len(),
    ensures
        same == (key_ahead(items.deep_view().skip(start as int), primary@) == target@),
{
    let ghost view = items.deep_view();
    for i in start..items.len()
        invariant
            start <= items.len(),
            view == items.deep_view(),
            key_ahead(view.skip(start as int), primary@) == key_ahead(
                view.skip(i as int),
                primary@,
            ),
    {
        assert(view.skip(i as int).drop_first() =~= view.skip(i + 1));
        assert(view.skip(i as int)[0] == items@[i as int].deep_view());
        match &items[i] {
            ConversationItem::Assistant(message) => {
                return message.is_written_under(target, primary);
            },
            ConversationItem::Reasoning(_) => {},
            ConversationItem::BackendToolCall(_) => {},
            _ => {
                return str_eq(primary, target);
            },
        }
    }
    str_eq(primary, target)
}

/// The items that a provider with the key `target` may see. A message that was
/// written under another key keeps its text and its calls alone, and reasoning that
/// leads to one is left out.
pub fn sanitize_items_for_provider(
    items: &Vec<ConversationItem>,
    target: &str,
    primary: &str,
) -> (seen: Vec<ConversationItem>)
    ensures
        seen.deep_view() == seen_items(items.deep_view(), target@, primary@),
{
    let ghost view = items.deep_view();
    let mut seen: Vec<ConversationItem> = Vec::new();
    assert(view.skip(0) =~= view);
    for i in 0..items.len()
        invariant
            view == items.deep_view(),
            seen.deep_view() + seen_items(view.skip(i as int), target@, primary@) == seen_items(
                view,
                target@,
                primary@,
            ),
    {
        let ghost before = seen.deep_view();
        let ghost rest = seen_items(view.skip(i + 1), target@, primary@);
        assert(view.skip(i as int).drop_first() =~= view.skip(i + 1));
        assert(view.skip(i as int)[0] == items@[i as int].deep_view());
        match &items[i] {
            ConversationItem::Assistant(message) => {
                seen.push(ConversationItem::Assistant(message.sanitize(target, primary)));
            },
            ConversationItem::Reasoning(_) => {
                if leads_to_key(items, i + 1, target, primary) {
                    seen.push(items[i].clone());
                }
            },
            _ => {
                seen.push(items[i].clone());
            },
        }
        proof {
            let kept = seen_item(view[i as int], target@, primary@);
            if seen.len() > before.len() {
                assert(seen.deep_view() =~= before.push(kept));
                assert(before + (seq![kept] + rest) =~= seen.deep_view() + rest);
            }
        }
    }
    seen
}

/// The items without the reasoning among them.
pub open spec fn without_reasoning(items: Seq<ConversationItemView>) -> Seq<ConversationItemView>
    decreases items.len(),
{
    if items.len() == 0 {
        Seq::empty()
    } else if items[0] is Reasoning {
        without_reasoning(items.drop_first())
    } else {
        seq![items[0]] + without_reasoning(items.drop_first())
    }
}

/// Nothing but reasoning is left out, and nothing changes its place: a message keeps
/// its text, its calls and its origin, and what is neither message nor reasoning
/// stays as it is. Under the key that it was written under, a message stays as it is
/// too; under any other it loses its reasoning.
pub proof fn law_only_reasoning_is_stripped(
    items: Seq<ConversationItemView>,
    target: Seq<char>,
    primary: Seq<char>,
)
    ensures
        ({
            let given = without_reasoning(items);
            let seen = without_reasoning(seen_items(items, target, primary));
            &&& seen.len() == given.len()
            &&& forall|i: int|
                0 <= i < given.len() ==> #[trigger] seen[i] == match given[i] {
                    ConversationItemView::Assistant(message) => if message.written_under(primary)
                        == target {
                        given[i]
                    } else {
                        ConversationItemView::Assistant(
                            AssistantItemView {
                                reasoning_content: None,
                                encrypted_reasoning: None,
                                ..message
                            },
                        )
                    },
                    _ => given[i],
                }
        }),
    decreases items.len(),
{
    if items.len() > 0 {
        let others = items.drop_first();
        let rest = seen_items(others, target, primary);
        law_only_reasoning_is_stripped(others, target, primary);
        let first = seen_item(items[0], target, primary);
        assert((seq![first] + rest).drop_first() =~= rest);
        if !(items[0] is Reasoning) {
            let given = without_reasoning(items);
            let seen = without_reasoning(seen_items(items, target, primary));
            assert forall|i: int| 0 < i < given.len() implies given[i] == without_reasoning(
                others,
            )[i - 1] && #[trigger] seen[i] == without_reasoning(rest)[i - 1] by {}
        }
    }
}

/// Where all messages were written under the key of the provider, and that of the
/// primary provider is the same, the provider sees everything as it is.
pub proof fn law_own_history_is_kept(
    items: Seq<ConversationItemView>,
    target: Seq<char>,
    primary: Seq<char>,
)
    requires
        primary == target,
        forall|i: int|
            0 <= i < items.len() ==> (#[trigger] items[i] matches ConversationItemView::Assistant(
                message,
            ) ==> message.written_under(primary) == target),
    ensures
        seen_items(items, target, primary) == items,
        key_ahead(items, primary) == target,
    decreases items.len(),
{
    if items.len() > 0 {
        let others = items.drop_first();
        assert forall|i: int| 0 <= i < others.len() implies (
        #[trigger] others[i] matches ConversationItemView::Assistant(message)
            ==> message.written_under(primary) == target) by {
            assert(others[i] == items[i + 1]);
        }
        law_own_history_is_kept(others, target, primary);
        assert(items[0] matches ConversationItemView::Assistant(message)
            ==> message.written_under(primary) == target);
        assert(seq![items[0]] + others =~= items);
    }
}

/// Where nothing was written under the key of the provider, it sees no reasoning at
/// all.
pub proof fn law_foreign_reasoning_is_not_seen(
    items: Seq<ConversationItemView>,
    target: Seq<char>,
    primary: Seq<char>,
)
    requires
        primary != target,
        forall|i: int|
            0 <= i < items.len() ==> (#[trigger] items[i] matches ConversationItemView::Assistant(
                message,
            ) ==> message.written_under(primary) != target),
    ensures
        forall|i: int|
            0 <= i < seen_items(items, target, primary).len() ==> match #[trigger] seen_items(
                items,
                target,
                primary,
            )[i] {
                ConversationItemView::Reasoning(_) => false,
                ConversationItemView::Assistant(message) => message.reasoning_content is None
                    && message.encrypted_reasoning is None,
                _ => true,
            },
        key_ahead(items, primary) != target,
    decreases items.len(),
{
    if items.len() > 0 {
        let others = items.drop_first();
        let rest = seen_items(others, target, primary);
        assert forall|i: int| 0 <= i < others.len() implies (
        #[trigger] others[i] matches ConversationItemView::Assistant(message)
            ==> message.written_under(primary) != target) by {
            assert(others[i] == items[i + 1]);
        }
        law_foreign_reasoning_is_not_seen(others, target, primary);
        assert(items[0] matches ConversationItemView::Assistant(message)
            ==> message.written_under(primary) != target);
        let first = seen_item(items[0], target, primary);
        assert forall|i: int| 1 <= i < (seq![first] + rest).len() implies (seq![first]
            + rest)[i] == rest[i - 1] by {}
    }
}

/// Reasoning goes with the message it leads to, past more reasoning and past calls that
/// the provider ran: it is seen if and only if the message was written under the key of
/// the provider. Where it leads to none, the key of the primary provider counts.
pub proof fn law_reasoning_goes_with_its_message(
    between: Seq<ConversationItemView>,
    next: ConversationItemView,
    rest: Seq<ConversationItemView>,
    target: Seq<char>,
    primary: Seq<char>,
)
    requires
        forall|i: int|
            0 <= i < between.len() ==> #[trigger] between[i] is Reasoning || between[i]
                is BackendToolCall,
        !(next is Reasoning),
        !(next is BackendToolCall),
    ensures
        key_ahead(between + seq![next] + rest, primary) == (match next {
            ConversationItemView::Assistant(message) => match message.origin {
                Some(key) => key,
                None => primary,
            },
            _ => primary,
        }),
        key_ahead(between, primary) == primary,
    decreases between.len(),
{
    let all = between + seq![next] + rest;
    if between.len() > 0 {
        let others = between.drop_first();
        assert forall|i: int| 0 <= i < others.len() implies #[trigger] others[i] is Reasoning
            || others[i] is BackendToolCall by {
            assert(others[i] == between[i + 1]);
        }
        law_reasoning_goes_with_its_message(others, next, rest, target, primary);
        assert(all[0] == between[0]);
        assert(all.drop_first() =~= others + seq![next] + rest);
        assert(between[0] is Reasoning || between[0] is BackendToolCall);
    } else {
        assert(all[0] == next);
    }
}

/// Of one more piece of reasoning before some items, a provider sees the piece as it is
/// where it was written under its key, and nothing otherwise; the rest it sees as
/// before.
pub proof fn law_reasoning_is_seen_or_not(
    item: ConversationItemView,
    items: Seq<ConversationItemView>,
    target: Seq<char>,
    primary: Seq<char>,
)
    requires
        item is Reasoning,
    ensures
        key_ahead(items, primary) == target ==> seen_items(seq![item] + items, target, primary)
            == seq![item] + seen_items(items, target, primary),
        key_ahead(items, primary) != target ==> seen_items(seq![item] + items, target, primary)
            == seen_items(items, target, primary),
        seen_items(Seq::empty(), target, primary).len() == 0,
{
    assert((seq![item] + items).drop_first() =~= items);
}

} // verus!
