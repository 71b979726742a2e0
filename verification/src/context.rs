//! The state of one logical turn.
use vstd::prelude::*;

use crate::text::str_eq;

verus! {

/// What providers keep from one request of a turn to the next. Each turn has its
/// own: a new one starts with nothing.
pub struct LlmTurnContext {
    states: Vec<(String, String)>,
    request_timeout: Option<u128>,
}

/// What a [`LlmTurnContext`] holds.
pub struct LlmTurnContextView {
    pub states: Map<Seq<char>, Seq<char>>,
    pub request_timeout: Option<u128>,
}

/// The states of a list, the later of two under the same key.
pub open spec fn states_of(entries: Seq<(Seq<char>, Seq<char>)>) -> Map<Seq<char>, Seq<char>>
    decreases entries.len(),
{
    if entries.len() == 0 {
        Map::empty()
    } else {
        states_of(entries.drop_last()).insert(entries.last().0, entries.last().1)
    }
}

impl View for LlmTurnContext {
    type V = LlmTurnContextView;

    closed spec fn view(&self) -> LlmTurnContextView {
        LlmTurnContextView {
            states: states_of(self.states.deep_view()),
            request_timeout: self.request_timeout,
        }
    }
}

impl LlmTurnContext {
    /// The context of a new turn.
    pub fn new() -> (context: LlmTurnContext)
        ensures
            context@.states == Map::<Seq<char>, Seq<char>>::empty(),
            context@.request_timeout is None,
    {
        LlmTurnContext { states: Vec::new(), request_timeout: None }
    }

    /// What a provider kept under a key.
    pub fn turn_state(&self, key: &str) -> (state: Option<String>)
        ensures
            state.deep_view() == (if self@.states.contains_key(key@) {
                Some(self@.states[key@])
            } else {
                None
            }),
    {
        let ghost view = self.states.deep_view();
        let mut i: usize = self.states.len();
        assert(view.take(i as int) =~= view);
        while i > 0
            invariant
                i <= self.states.len(),
                view == self.states.deep_view(),
                self@.states == states_of(view),
                states_of(view).contains_key(key@) == states_of(
                    view.take(i as int),
                ).contains_key(key@),
                states_of(view).contains_key(key@) ==> states_of(view)[key@] == states_of(
                    view.take(i as int),
                )[key@],
            decreases i,
        {
            i = i - 1;
            assert(view.take(i + 1).drop_last() =~= view.take(i as int));
            if str_eq(self.states[i].0.as_str(), key) {
                return Some(self.states[i].1.clone());
            }
        }
        None
    }

    /// Keeps a state under a key.
    pub fn set_turn_state(&mut self, key: &str, state: String)
        ensures
            final(self)@.states == old(self)@.states.insert(key@, state@),
            final(self)@.request_timeout == old(self)@.request_timeout,
    {
        let ghost before = self.states.deep_view();
        self.states.push((key.to_owned(), state));
        assert(self.states.deep_view().drop_last() =~= before);
    }

    /// How long the transport waits for the next request, in nanoseconds.
    pub fn request_timeout(&self) -> (timeout: Option<u128>)
        ensures
            timeout == self@.request_timeout,
    {
        self.request_timeout
    }

    /// Sets how long the transport waits for the next request.
    pub fn set_request_timeout(&mut self, timeout: Option<u128>)
        ensures
            final(self)@.states == old(self)@.states,
            final(self)@.request_timeout == timeout,
    {
        self.request_timeout = timeout;
    }
}

} // verus!
