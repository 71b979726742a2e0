//! One operation: the visits of a plan's providers, from the first request to an
//! answer or to an error.
use vstd::prelude::*;

use crate::attempt;
use crate::attempt::{
    AttemptActionView, AttemptEventView, AttemptLabels, AttemptLabelsView, AttemptLimits,
    Backoffs, ProviderAttemptError, ProviderAttemptErrorView, ProviderAttemptView, Shown,
    ShownView,
};
use crate::client;
use crate::client::{
    rewrite_request_for, unbound_provider, CapturedOperation, CapturedOperationView,
};
use crate::continuation;
use crate::continuation::{merge_continued_turn, prefix_continue_request};
use crate::error;
use crate::error::{EngineError, EngineErrorView};
use crate::events;
use crate::events::{
    millis, AgentEvent, AgentEventView, FailureClass, SwitchNotice, SwitchNoticeView, Workload,
};
use crate::failure;
use crate::failure::{failure_class_of, FailureSignals};
use crate::slots;
use crate::slots::{find_slot, ProviderSlot, ProviderSlotView};
use crate::text;
use crate::text::{decimal, join};
use crate::types::{
    CollectedTurn, CollectedTurnView, ConversationRequest, ConversationRequestView, HostedTool,
    HostedToolView,
};

verus! {

// ── Names of operations ─────────────────────────────────────────────────

/// A hexadecimal digit in lower case.
pub open spec fn is_hex(c: char) -> bool {
    ('0' <= c && c <= '9') || ('a' <= c && c <= 'f')
}

/// Calls `Uuid::new_v4`, and `simple` and `to_string` on what it gives: 32
/// hexadecimal digits, in lower case since `Simple` is displayed through its
/// `LowerHex`. The thirteenth is the version, 4, and the seventeenth shows the
/// variant. The other digits are random, so nothing is said of them. Where the system
/// has no random bytes, `new_v4` panics.
#[verifier::external_body]
fn random_uuid() -> (id: String)
    ensures
        id@.len() == 32,
        forall|i: int| 0 <= i < 32 ==> is_hex(#[trigger] id@[i]),
        id@[12] == '4',
        id@[16] == '8' || id@[16] == '9' || id@[16] == 'a' || id@[16] == 'b',
{
    uuid::Uuid::new_v4().simple().to_string()
}

/// The name of an operation: `op_` and the 32 hexadecimal digits of a random UUID,
/// among them its version, 4, and its variant.
pub open spec fn is_operation_id(id: Seq<char>) -> bool {
    &&& id.len() == 35
    &&& text::occurs_at(id, "op_"@, 0)
    &&& forall|i: int| 3 <= i < 35 ==> is_hex(#[trigger] id[i])
    &&& id[15] == '4'
    &&& id[19] == '8' || id[19] == '9' || id[19] == 'a' || id[19] == 'b'
}

/// A new name for an operation.
pub fn new_operation_id() -> (id: String)
    ensures
        is_operation_id(id@),
{
    let digits = random_uuid();
    let id = join("op_", digits.as_str());
    proof {
        reveal_strlit("op_");
    }
    assert(id@.subrange(0, 3) =~= "op_"@);
    id
}

// ── Time ────────────────────────────────────────────────────────────────

/// The number of nanoseconds in a millisecond.
pub const NANOS_PER_MILLI: u128 = 1_000_000;

/// The share of an operation's remaining time that a visit gets, in nanoseconds:
/// an equal part for it and each visit after it, of at least a millisecond. The
/// last visit has no share of its own.
pub open spec fn visit_share(remaining: Option<u128>, visits_remaining: usize) -> Option<u128> {
    match remaining {
        Some(time) if visits_remaining > 1 => {
            let parts = visits_remaining as u32;
            let share: int = if parts == 0 {
                0
            } else {
                time as int / parts as int
            };
            Some(
                if share < 1_000_000 {
                    1_000_000u128
                } else {
                    share as u128
                },
            )
        },
        _ => None,
    }
}

/// The share of an operation's remaining time that a visit gets.
pub fn provider_budget(remaining: Option<u128>, visits_remaining: usize) -> (share: Option<u128>)
    ensures
        share == visit_share(remaining, visits_remaining),
{
    match remaining {
        Some(time) => {
            if visits_remaining <= 1 {
                return None;
            }
            let parts: u32 = visits_remaining as u32;
            let share: u128 = if parts == 0 {
                0
            } else {
                time / parts as u128
            };
            Some(
                if share < NANOS_PER_MILLI {
                    NANOS_PER_MILLI
                } else {
                    share
                },
            )
        },
        None => None,
    }
}

/// When the transport gives up, a little before the visit's share is over: a tenth
/// of it, but at most a quarter of a second.
pub open spec fn transport_share(budget: u128) -> int {
    let headroom: int = if budget as int / 10 < 250_000_000 {
        budget as int / 10
    } else {
        250_000_000
    };
    if budget - headroom < 1_000_000 {
        1_000_000
    } else {
        budget - headroom
    }
}

/// When the transport gives up.
pub fn transport_timeout(budget: u128) -> (timeout: u128)
    ensures
        timeout == transport_share(budget),
{
    let tenth: u128 = budget / 10;
    let headroom: u128 = if tenth < 250 * NANOS_PER_MILLI {
        tenth
    } else {
        250 * NANOS_PER_MILLI
    };
    let rest: u128 = budget - headroom;
    if rest < NANOS_PER_MILLI {
        NANOS_PER_MILLI
    } else {
        rest
    }
}

/// The shares of an operation's visits fit into its time, as long as each of them
/// is worth a millisecond.
pub proof fn law_shares_are_fair(time: u128, visits: usize)
    requires
        1 < visits <= u32::MAX,
        time >= visits * 1_000_000,
    ensures
        visit_share(Some(time), visits) matches Some(share) && share * visits <= time,
{
    let share = time as int / visits as int;
    assert(share * visits <= time) by (nonlinear_arith)
        requires
            share == time as int / visits as int,
            visits > 0,
    ;
    assert(share >= 1_000_000) by (nonlinear_arith)
        requires
            share == time as int / visits as int,
            time >= visits * 1_000_000,
            visits > 0,
    ;
}

/// The transport gives up before its share of more than a millisecond is over, and
/// never after a share of a millisecond.
pub proof fn law_transport_gives_up_first(budget: u128)
    requires
        budget >= 1_000_000,
    ensures
        1_000_000 <= transport_share(budget) <= budget,
        budget > 1_000_000 ==> transport_share(budget) < budget,
{
}

// ── The operation ───────────────────────────────────────────────────────

/// A visit that begins.
#[derive(Debug, PartialEq, Eq)]
pub struct Visit {
    pub provider_id: String,
    pub request: ConversationRequest,
    /// What the observer has seen of the answer, where the visit continues one.
    pub skip: Option<Shown>,
}

/// What a [`Visit`] holds.
#[verifier::ext_equal]
pub struct VisitView {
    pub provider_id: Seq<char>,
    pub request: ConversationRequestView,
    pub skip: Option<ShownView>,
}

impl DeepView for Visit {
    type V = VisitView;

    open spec fn deep_view(&self) -> VisitView {
        VisitView {
            provider_id: self.provider_id@,
            request: self.request.deep_view(),
            skip: self.skip.deep_view(),
        }
    }
}

impl Clone for Visit {
    fn clone(&self) -> (out: Visit)
        ensures
            out.deep_view() == self.deep_view(),
    {
        Visit {
            provider_id: self.provider_id.clone(),
            request: self.request.clone(),
            skip: self.skip.clone(),
        }
    }
}

/// What follows from the failure of a visit.
#[derive(Debug, PartialEq, Eq)]
pub enum OperationAction {
    /// The operation has failed.
    Failed(EngineError),
    /// The provider is to rest, and the next one to be visited.
    Trip {
        provider_id: String,
        class: FailureClass,
        cooldown_override: Option<u128>,
        error: EngineError,
        skip: Option<Shown>,
    },
}

/// What a [`OperationAction`] holds.
#[verifier::ext_equal]
pub enum OperationActionView {
    Failed(EngineErrorView),
    Trip {
        provider_id: Seq<char>,
        class: FailureClass,
        cooldown_override: Option<u128>,
        error: EngineErrorView,
        skip: Option<ShownView>,
    },
}

impl DeepView for OperationAction {
    type V = OperationActionView;

    open spec fn deep_view(&self) -> OperationActionView {
        match *self {
            OperationAction::Failed(a) => OperationActionView::Failed(a.deep_view()),
            OperationAction::Trip {
                provider_id,
                class,
                cooldown_override,
                error,
                skip,
            } => OperationActionView::Trip {
                provider_id: provider_id@,
                class: class,
                cooldown_override: cooldown_override.deep_view(),
                error: error.deep_view(),
                skip: skip.deep_view(),
            },
        }
    }
}

impl Clone for OperationAction {
    fn clone(&self) -> (out: OperationAction)
        ensures
            out.deep_view() == self.deep_view(),
    {
        match self {
            OperationAction::Failed(a) => OperationAction::Failed(a.clone()),
            OperationAction::Trip {
                provider_id,
                class,
                cooldown_override,
                error,
                skip,
            } => OperationAction::Trip {
                provider_id: provider_id.clone(),
                class: *class,
                cooldown_override: cooldown_override.clone(),
                error: error.clone(),
                skip: skip.clone(),
            },
        }
    }
}

/// An operation under way.
#[derive(Debug, PartialEq, Eq)]
pub struct Operation {
    pub pool_id: String,
    pub workload: Workload,
    pub operation_id: String,
    pub req: ConversationRequest,
    pub captured: CapturedOperation,
    /// Which visit of the plan is next or under way.
    pub visit_idx: usize,
    pub tried_ids: Vec<String>,
    /// What was shown of the answer so far.
    pub continue_from: Option<CollectedTurn>,
    /// A visit has failed.
    pub failed: bool,
}

/// What a [`Operation`] holds.
#[verifier::ext_equal]
pub struct OperationView {
    pub pool_id: Seq<char>,
    pub workload: Workload,
    pub operation_id: Seq<char>,
    pub req: ConversationRequestView,
    pub captured: CapturedOperationView,
    pub visit_idx: usize,
    pub tried_ids: Seq<Seq<char>>,
    pub continue_from: Option<CollectedTurnView>,
    pub failed: bool,
}

impl DeepView for Operation {
    type V = OperationView;

    open spec fn deep_view(&self) -> OperationView {
        OperationView {
            pool_id: self.pool_id@,
            workload: self.workload,
            operation_id: self.operation_id@,
            req: self.req.deep_view(),
            captured: self.captured.deep_view(),
            visit_idx: self.visit_idx,
            tried_ids: self.tried_ids.deep_view(),
            continue_from: self.continue_from.deep_view(),
            failed: self.failed,
        }
    }
}

impl Clone for Operation {
    fn clone(&self) -> (out: Operation)
        ensures
            out.deep_view() == self.deep_view(),
    {
        Operation {
            pool_id: self.pool_id.clone(),
            workload: self.workload,
            operation_id: self.operation_id.clone(),
            req: self.req.clone(),
            captured: self.captured.clone(),
            visit_idx: self.visit_idx,
            tried_ids: self.tried_ids.clone(),
            continue_from: self.continue_from.clone(),
            failed: self.failed,
        }
    }
}

/// The first of some providers that has a slot.
pub open spec fn first_bound(slots: Seq<ProviderSlotView>, ids: Seq<Seq<char>>) -> Option<Seq<char>>
    decreases ids.len(),
{
    if ids.len() == 0 {
        None
    } else if slots::slot_of(slots, ids[0]) is Some {
        Some(ids[0])
    } else {
        first_bound(slots, ids.drop_first())
    }
}

/// The failure of a visit that took longer than its share. It goes to the next
/// provider, unless text or reasoning was shown in the visit.
pub open spec fn timed_out(
    budget: u128,
    provider_id: Seq<char>,
    shown: bool,
) -> ProviderAttemptErrorView {
    let error = EngineErrorView::Llm(
        "timeout after "@ + text::decimal_text((budget as int / 1_000_000) as nat)
            + "ms waiting for provider '"@ + provider_id + "'"@,
    );
    if shown {
        ProviderAttemptErrorView::Terminal(error)
    } else {
        ProviderAttemptErrorView::Failover { error, cooldown_override: None, continue_from: None }
    }
}

/// The failure of a visit that took longer than its share. `shown` tells that text
/// or reasoning has reached the observer in the visit.
pub fn visit_timed_out(
    budget: u128,
    provider_id: &str,
    shown: bool,
) -> (error: ProviderAttemptError)
    ensures
        error.deep_view() == timed_out(budget, provider_id@, shown),
{
    let number = decimal(budget / NANOS_PER_MILLI);
    let mut message = join("timeout after ", number.as_str());
    message.append("ms waiting for provider '");
    message.append(provider_id);
    message.append("'");
    let error = EngineError::Llm(message);
    if shown {
        ProviderAttemptError::Terminal(error)
    } else {
        ProviderAttemptError::Failover { error, cooldown_override: None, continue_from: None }
    }
}

/// Text and reasoning of a turn.
pub open spec fn shown_of(turn: CollectedTurnView) -> ShownView {
    ShownView { text: turn.text, reasoning: turn.reasoning }
}

fn show(turn: &CollectedTurn) -> (shown: Shown)
    ensures
        shown.deep_view() == shown_of(turn.deep_view()),
{
    Shown { text: turn.text.clone(), reasoning: turn.reasoning.clone() }
}

impl OperationView {
    /// The providers of the plan.
    pub open spec fn ids(self) -> Seq<Seq<char>> {
        self.captured.plan.provider_ids
    }

    /// The slot of the visit that is next or under way.
    pub open spec fn slot(self) -> Option<ProviderSlotView> {
        if self.visit_idx < self.ids().len() {
            slots::slot_of(self.captured.providers, self.ids()[self.visit_idx as int])
        } else {
            None
        }
    }

    /// What the events of the visit that is next or under way are labelled with.
    pub open spec fn labels(self) -> Option<AttemptLabelsView> {
        match self.slot() {
            Some(slot) => Some(
                AttemptLabelsView {
                    fingerprint: slot.fingerprint,
                    provider_id: slot.provider_id,
                    pool_id: self.pool_id,
                    workload: self.workload,
                    operation_id: self.operation_id,
                },
            ),
            None => None,
        }
    }

    /// The next visit can begin: all before it were tried, and nothing else was.
    pub open spec fn between_visits(self) -> bool {
        &&& self.visit_idx <= self.ids().len()
        &&& self.tried_ids == self.ids().take(self.visit_idx as int)
    }

    /// A visit is under way.
    pub open spec fn visiting(self) -> bool {
        &&& self.visit_idx < self.ids().len()
        &&& self.slot() is Some
        &&& self.tried_ids == self.ids().take(self.visit_idx + 1)
    }

    /// An operation whose first visit is next.
    pub open spec fn start(
        pool_id: Seq<char>,
        workload: Workload,
        operation_id: Seq<char>,
        req: ConversationRequestView,
        captured: CapturedOperationView,
    ) -> OperationView {
        OperationView {
            pool_id,
            workload,
            operation_id,
            req,
            captured,
            visit_idx: 0,
            tried_ids: Seq::empty(),
            continue_from: None,
            failed: false,
        }
    }

    /// All providers were tried in vain.
    pub open spec fn exhausted(self) -> EngineErrorView {
        EngineErrorView::ProviderAttemptsExhausted {
            pool_id: self.pool_id,
            tried_provider_ids: self.tried_ids,
        }
    }

    /// What the provider of a slot is asked: the request made over for it, with what
    /// was shown of the answer behind it.
    pub open spec fn request_for(
        self,
        slot: ProviderSlotView,
        hosted: Seq<HostedToolView>,
    ) -> ConversationRequestView {
        let request = client::rewritten(
            self.req,
            slot,
            self.captured.primary_compat_key,
            hosted,
        );
        match self.continue_from {
            Some(partial) => continuation::continued_request(request, partial, false),
            None => request,
        }
    }

    /// The next visit, or why there is none.
    pub open spec fn begin(self, hosted: Seq<HostedToolView>) -> (
        OperationView,
        Result<VisitView, EngineErrorView>,
    ) {
        if self.visit_idx >= self.ids().len() {
            (
                self,
                Err(
                    if self.failed {
                        self.exhausted()
                    } else {
                        EngineErrorView::Llm("no LLM providers configured"@)
                    },
                ),
            )
        } else {
            let id = self.ids()[self.visit_idx as int];
            match self.slot() {
                None => (self, Err(client::unbound(self.pool_id, id))),
                Some(slot) => (
                    OperationView { tried_ids: self.tried_ids.push(id), ..self },
                    Ok(
                        VisitView {
                            provider_id: id,
                            request: self.request_for(slot, hosted),
                            skip: match self.continue_from {
                                Some(partial) => Some(shown_of(partial)),
                                None => None,
                            },
                        },
                    ),
                ),
            }
        }
    }

    /// The answer of the operation: the turn behind what was shown before, with
    /// where it came from.
    pub open spec fn answer(self, turn: CollectedTurnView) -> CollectedTurnView {
        let whole = attempt::behind(self.continue_from, turn);
        CollectedTurnView {
            provider_id: self.ids()[self.visit_idx as int],
            operation_id: self.operation_id,
            attempts: self.tried_ids.len() as u32,
            model: if whole.model.len() == 0 {
                self.slot().unwrap().model
            } else {
                whole.model
            },
            ..whole
        }
    }

    /// What follows from the failure of a visit.
    pub open spec fn on_failure(self, error: ProviderAttemptErrorView, signals: FailureSignals) -> (
        OperationView,
        OperationActionView,
    ) {
        match error {
            ProviderAttemptErrorView::Failover { error, cooldown_override, continue_from } => {
                let shown = match continue_from {
                    Some(partial) => Some(attempt::behind(self.continue_from, partial)),
                    None => self.continue_from,
                };
                (
                    OperationView { continue_from: shown, failed: true, ..self },
                    if self.captured.plan.chain_mode {
                        OperationActionView::Trip {
                            provider_id: self.ids()[self.visit_idx as int],
                            class: failure::class_of(error, signals),
                            cooldown_override,
                            error,
                            skip: match continue_from {
                                Some(_) => Some(shown_of(shown.unwrap())),
                                None => None,
                            },
                        }
                    } else {
                        OperationActionView::Failed(error)
                    },
                )
            },
            ProviderAttemptErrorView::Veto(error) => (self, OperationActionView::Failed(error)),
            ProviderAttemptErrorView::EmptyExhausted(error) => (
                self,
                OperationActionView::Failed(error),
            ),
            ProviderAttemptErrorView::DoomLoop(error) => (
                self,
                OperationActionView::Failed(error),
            ),
            ProviderAttemptErrorView::Terminal(error) => (
                self,
                OperationActionView::Failed(error),
            ),
        }
    }

    /// The event that tells of the next provider.
    pub open spec fn switched(
        self,
        next: Seq<char>,
        class: FailureClass,
        cooldown: u128,
        reason: Seq<char>,
    ) -> AgentEventView {
        let from = self.slot().unwrap();
        let to = slots::slot_of(self.captured.providers, next).unwrap();
        AgentEventView::ProviderSwitched(
            SwitchNoticeView {
                from: from.fingerprint,
                to: to.fingerprint,
                reason,
                cooldown_ms: events::millis_of(cooldown) as u64,
                from_provider_id: Some(self.ids()[self.visit_idx as int]),
                to_provider_id: Some(next),
                pool_id: Some(self.pool_id),
                workload: Some(self.workload),
                operation_id: Some(self.operation_id),
                failure_class: Some(class),
                from_label: Some(from.fingerprint),
                to_label: Some(to.fingerprint),
            },
        )
    }

    /// What follows once the provider that failed rests: the next visit, or the end.
    pub open spec fn advance(self, class: FailureClass, cooldown: u128, reason: Seq<char>) -> (
        OperationView,
        Result<AgentEventView, EngineErrorView>,
    ) {
        match first_bound(self.captured.providers, self.ids().skip(self.visit_idx + 1)) {
            Some(next) => (
                OperationView { visit_idx: (self.visit_idx + 1) as usize, ..self },
                Ok(self.switched(next, class, cooldown, reason)),
            ),
            None => (self, Err(self.exhausted())),
        }
    }
}

impl Operation {
    /// An operation whose first visit is next.
    pub fn new(
        pool_id: &str,
        workload: Workload,
        operation_id: &str,
        req: &ConversationRequest,
        captured: CapturedOperation,
    ) -> (operation: Operation)
        ensures
            operation.deep_view() == OperationView::start(
                pool_id@,
                workload,
                operation_id@,
                req.deep_view(),
                captured.deep_view(),
            ),
            operation.deep_view().between_visits(),
    {
        let operation = Operation {
            pool_id: pool_id.to_owned(),
            workload,
            operation_id: operation_id.to_owned(),
            req: req.clone(),
            captured,
            visit_idx: 0,
            tried_ids: Vec::new(),
            continue_from: None,
            failed: false,
        };
        assert(operation.deep_view().tried_ids =~= operation.deep_view().ids().take(0));
        operation
    }

    /// An operation with a name of its own, whose first visit is next.
    pub fn start(
        pool_id: &str,
        workload: Workload,
        req: &ConversationRequest,
        captured: CapturedOperation,
    ) -> (operation: Operation)
        ensures
            is_operation_id(operation.deep_view().operation_id),
            operation.deep_view() == OperationView::start(
                pool_id@,
                workload,
                operation.deep_view().operation_id,
                req.deep_view(),
                captured.deep_view(),
            ),
            operation.deep_view().between_visits(),
    {
        let operation_id = new_operation_id();
        Operation::new(pool_id, workload, operation_id.as_str(), req, captured)
    }

    fn exhaust(&self) -> (error: EngineError)
        ensures
            error.deep_view() == self.deep_view().exhausted(),
    {
        let tried = self.tried_ids.clone();
        EngineError::ProviderAttemptsExhausted {
            pool_id: self.pool_id.clone(),
            tried_provider_ids: tried,
        }
    }

    /// The slot of the visit that is next or under way.
    pub fn current_slot(&self) -> (slot: Option<&ProviderSlot>)
        ensures
            slot.deep_view() == self.deep_view().slot(),
    {
        if self.visit_idx < self.captured.plan.provider_ids.len() {
            find_slot(
                &self.captured.providers,
                self.captured.plan.provider_ids[self.visit_idx].as_str(),
            )
        } else {
            None
        }
    }

    /// What the events of the visit that is next or under way are labelled with.
    pub fn labels(&self) -> (labels: Option<AttemptLabels>)
        ensures
            labels.deep_view() == self.deep_view().labels(),
    {
        match self.current_slot() {
            Some(slot) => Some(
                AttemptLabels {
                    fingerprint: slot.fingerprint.clone(),
                    provider_id: slot.provider_id.clone(),
                    pool_id: self.pool_id.clone(),
                    workload: self.workload,
                    operation_id: self.operation_id.clone(),
                },
            ),
            None => None,
        }
    }

    /// How many visits of the plan are left, with the one that is next.
    pub fn visits_remaining(&self) -> (n: usize)
        ensures
            n == (if self.visit_idx < self.deep_view().ids().len() {
                self.deep_view().ids().len() - self.visit_idx
            } else {
                0
            }),
    {
        let all = self.captured.plan.provider_ids.len();
        if self.visit_idx < all {
            all - self.visit_idx
        } else {
            0
        }
    }

    /// Begins the next visit. `hosted` are the tools that the provider of the
    /// current slot hosts.
    pub fn begin_visit(&mut self, hosted: Vec<HostedTool>) -> (visit: Result<Visit, EngineError>)
        requires
            old(self).deep_view().between_visits(),
        ensures
            (final(self).deep_view(), error::outcome_of(visit)) == old(self).deep_view().begin(
                hosted.deep_view(),
            ),
            visit is Ok ==> final(self).deep_view().visiting(),
    {
        let ghost before = self.deep_view();
        if self.visit_idx >= self.captured.plan.provider_ids.len() {
            if self.failed {
                return Err(self.exhaust());
            }
            return Err(EngineError::Llm("no LLM providers configured".to_owned()));
        }
        let provider_id = self.captured.plan.provider_ids[self.visit_idx].clone();
        let rewritten = match self.current_slot() {
            Some(slot) => rewrite_request_for(
                &self.req,
                slot,
                self.captured.primary_compat_key.as_str(),
                hosted,
            ),
            None => {
                return Err(unbound_provider(self.pool_id.as_str(), provider_id.as_str()));
            },
        };
        let (request, skip) = match &self.continue_from {
            Some(partial) => (
                prefix_continue_request(&rewritten, partial, false),
                Some(show(partial)),
            ),
            None => (rewritten, None),
        };
        self.tried_ids.push(provider_id.clone());
        assert(self.tried_ids.deep_view() =~= before.tried_ids.push(provider_id@));
        assert(before.ids().take(before.visit_idx as int).push(provider_id@)
            =~= before.ids().take(before.visit_idx + 1));
        Ok(Visit { provider_id, request, skip })
    }

    /// The answer of the operation.
    pub fn on_success(&self, turn: CollectedTurn) -> (answer: CollectedTurn)
        requires
            self.deep_view().visiting(),
        ensures
            answer.deep_view() == self.deep_view().answer(turn.deep_view()),
    {
        let mut answer = match &self.continue_from {
            Some(partial) => merge_continued_turn(partial, turn),
            None => turn,
        };
        answer.provider_id = self.captured.plan.provider_ids[self.visit_idx].clone();
        answer.operation_id = self.operation_id.clone();
        answer.attempts = self.tried_ids.len() as u32;
        if answer.model.as_str().is_empty() {
            if let Some(slot) = self.current_slot() {
                answer.model = slot.model.clone();
            }
        }
        answer
    }

    /// What follows from the failure of the visit. `signals` is what the transport
    /// reads off the error.
    pub fn on_failure(
        &mut self,
        error: ProviderAttemptError,
        signals: FailureSignals,
    ) -> (action: OperationAction)
        requires
            old(self).deep_view().visiting(),
        ensures
            (final(self).deep_view(), action.deep_view()) == old(self).deep_view().on_failure(
                error.deep_view(),
                signals,
            ),
            final(self).deep_view().visiting(),
    {
        match error {
            ProviderAttemptError::Failover { error, cooldown_override, continue_from } => {
                let skip = match continue_from {
                    Some(partial) => {
                        let merged = match &self.continue_from {
                            Some(earlier) => merge_continued_turn(earlier, partial),
                            None => partial,
                        };
                        let shown = show(&merged);
                        self.continue_from = Some(merged);
                        Some(shown)
                    },
                    None => None,
                };
                self.failed = true;
                if !self.captured.plan.chain_mode {
                    return OperationAction::Failed(error);
                }
                let class = failure_class_of(&error, &signals);
                OperationAction::Trip {
                    provider_id: self.captured.plan.provider_ids[self.visit_idx].clone(),
                    class,
                    cooldown_override,
                    error,
                    skip,
                }
            },
            ProviderAttemptError::Veto(error) => OperationAction::Failed(error),
            ProviderAttemptError::EmptyExhausted(error) => OperationAction::Failed(error),
            ProviderAttemptError::DoomLoop(error) => OperationAction::Failed(error),
            ProviderAttemptError::Terminal(error) => OperationAction::Failed(error),
        }
    }

    fn next_bound(&self) -> (next: Option<usize>)
        requires
            self.deep_view().visiting(),
        ensures
            ({
                let ids = self.deep_view().ids();
                match next {
                    Some(at) => self.visit_idx < at < ids.len() && first_bound(
                        self.deep_view().captured.providers,
                        ids.skip(self.visit_idx + 1),
                    ) == Some(ids[at as int]) && slots::slot_of(
                        self.deep_view().captured.providers,
                        ids[at as int],
                    ) is Some,
                    None => first_bound(
                        self.deep_view().captured.providers,
                        ids.skip(self.visit_idx + 1),
                    ) is None,
                }
            }),
    {
        let ghost slots = self.deep_view().captured.providers;
        let ghost ids = self.deep_view().ids();
        let start: usize = self.visit_idx + 1;
        for i in start..self.captured.plan.provider_ids.len()
            invariant
                start == self.visit_idx + 1,
                slots == self.deep_view().captured.providers,
                slots == self.captured.providers.deep_view(),
                ids == self.deep_view().ids(),
                ids == self.captured.plan.provider_ids.deep_view(),
                start <= i <= ids.len(),
                first_bound(slots, ids.skip(start as int)) == first_bound(
                    slots,
                    ids.skip(i as int),
                ),
        {
            assert(ids.skip(i as int).drop_first() =~= ids.skip(i + 1));
            if find_slot(
                &self.captured.providers,
                self.captured.plan.provider_ids[i].as_str(),
            ).is_some() {
                return Some(i);
            }
        }
        None
    }

    /// Goes on to the next provider, once the one that failed rests: the event that
    /// tells of it, or the error where there is none. `reason` is the error as it is
    /// shown.
    pub fn after_trip(
        &mut self,
        class: FailureClass,
        cooldown: u128,
        reason: &str,
    ) -> (next: Result<
        AgentEvent,
        EngineError,
    >)
        requires
            old(self).deep_view().visiting(),
        ensures
            (final(self).deep_view(), error::outcome_of(next)) == old(self).deep_view().advance(
                class,
                cooldown,
                reason@,
            ),
            next is Ok ==> final(self).deep_view().between_visits(),
    {
        let at = match self.next_bound() {
            Some(at) => at,
            None => {
                return Err(self.exhaust());
            },
        };
        let next_id = self.captured.plan.provider_ids[at].clone();
        let from_id = self.captured.plan.provider_ids[self.visit_idx].clone();
        let from_label = match self.current_slot() {
            Some(slot) => slot.fingerprint.clone(),
            None => String::new(),
        };
        let to_label = match find_slot(&self.captured.providers, next_id.as_str()) {
            Some(slot) => slot.fingerprint.clone(),
            None => String::new(),
        };
        let notice = SwitchNotice {
            from: from_label.clone(),
            to: to_label.clone(),
            reason: reason.to_owned(),
            cooldown_ms: millis(cooldown),
            from_provider_id: Some(from_id),
            to_provider_id: Some(next_id),
            pool_id: Some(self.pool_id.clone()),
            workload: Some(self.workload),
            operation_id: Some(self.operation_id.clone()),
            failure_class: Some(class),
            from_label: Some(from_label),
            to_label: Some(to_label),
        };
        self.visit_idx = self.visit_idx + 1;
        Ok(AgentEvent::ProviderSwitched(notice))
    }
}

proof fn lemma_all_bound_first(slots: Seq<ProviderSlotView>, ids: Seq<Seq<char>>)
    requires
        forall|i: int| 0 <= i < ids.len() ==> slots::slot_of(slots, #[trigger] ids[i]) is Some,
    ensures
        first_bound(slots, ids) == (if ids.len() == 0 {
            None
        } else {
            Some(ids[0])
        }),
{
}

/// An operation visits the providers of its plan one after the other, each at its
/// turn, and gives up only when it has tried them all.
pub proof fn law_whole_plan_is_tried(
    operation: OperationView,
    class: FailureClass,
    cooldown: u128,
    reason: Seq<char>,
)
    requires
        operation.visiting(),
        operation.ids().len() <= usize::MAX,
        forall|i: int|
            0 <= i < operation.ids().len() ==> slots::slot_of(
                operation.captured.providers,
                #[trigger] operation.ids()[i],
            ) is Some,
    ensures
        match operation.advance(class, cooldown, reason).1 {
            Ok(event) => event matches AgentEventView::ProviderSwitched(notice)
                && notice.to_provider_id == Some(operation.ids()[operation.visit_idx + 1])
                && operation.advance(class, cooldown, reason).0.visit_idx == operation.visit_idx
                + 1,
            Err(error) => error == (EngineErrorView::ProviderAttemptsExhausted {
                pool_id: operation.pool_id,
                tried_provider_ids: operation.ids(),
            }),
        },
{
    let rest = operation.ids().skip(operation.visit_idx + 1);
    lemma_all_bound_first(operation.captured.providers, rest);
    if rest.len() == 0 {
    }
}

/// The answer of an operation names the provider that gave it, the operation, and how
/// many providers were visited, however many requests each of them got. It names a
/// model, unless neither the provider nor its slot names one.
pub proof fn law_answers_name_their_visit(operation: OperationView, turn: CollectedTurnView)
    requires
        operation.visiting(),
        operation.ids().len() <= u32::MAX,
    ensures
        ({
            let answer = operation.answer(turn);
            &&& answer.provider_id == operation.ids()[operation.visit_idx as int]
            &&& answer.operation_id == operation.operation_id
            &&& answer.attempts == operation.visit_idx + 1
            &&& operation.tried_ids == operation.ids().take(answer.attempts as int)
            &&& answer.model.len() == 0 ==> operation.slot().unwrap().model.len() == 0
        }),
{
}

/// Once text or reasoning has been shown of a request's stream, an operation sends
/// nothing more unless that stream went silent: it ends with the turn or with the
/// error. The same holds of a visit in which something was shown and which outlasts
/// its share.
pub proof fn law_shown_text_ends_the_operation(
    operation: OperationView,
    visit: ProviderAttemptView,
    event: AttemptEventView,
    backoff: Backoffs,
    budget: u128,
    provider_id: Seq<char>,
    signals: FailureSignals,
)
    requires
        event.has_shown(),
        !(event is IdleTimeout),
    ensures
        match visit.step(event, backoff).1 {
            AttemptActionView::Finish(turn) => true,
            AttemptActionView::Fail(error) => operation.on_failure(error, signals).1 is Failed,
            AttemptActionView::Retry { notice, wait, skip } => false,
        },
        operation.on_failure(timed_out(budget, provider_id, true), signals).1 is Failed,
{
    attempt::law_shown_is_not_asked_for_again(visit, event, backoff);
}

/// One visit of an operation: what the provider was asked with, what came of its
/// requests, and, where the visit failed, how and what followed.
#[verifier::ext_equal]
pub struct VisitRecord {
    pub hosted: Seq<HostedToolView>,
    pub limits: AttemptLimits,
    pub answers: Seq<(AttemptEventView, Backoffs)>,
    pub failure: Option<ProviderAttemptErrorView>,
    pub signals: FailureSignals,
    pub cooldown: u128,
    pub reason: Seq<char>,
}

impl OperationView {
    /// All that the observer is told of further requests and of other providers,
    /// over these visits.
    pub open spec fn told(self, visits: Seq<VisitRecord>) -> Seq<AgentEventView>
        decreases visits.len(),
    {
        if visits.len() == 0 {
            Seq::empty()
        } else {
            let record = visits[0];
            let (begun, visit) = self.begin(record.hosted);
            match visit {
                Err(_) => Seq::empty(),
                Ok(visit) => {
                    let notices = ProviderAttemptView::first(
                        record.limits,
                        begun.labels().unwrap(),
                        visit.request,
                    ).notices(record.answers);
                    match record.failure {
                        None => notices,
                        Some(failure) => {
                            let (failed, action) = begun.on_failure(failure, record.signals);
                            match action {
                                OperationActionView::Failed(_) => notices,
                                OperationActionView::Trip {
                                    provider_id,
                                    class,
                                    cooldown_override,
                                    error,
                                    skip,
                                } => {
                                    let (next, event) = failed.advance(
                                        class,
                                        record.cooldown,
                                        record.reason,
                                    );
                                    match event {
                                        Ok(event) => notices + seq![event] + next.told(
                                            visits.drop_first(),
                                        ),
                                        Err(_) => notices,
                                    }
                                },
                            }
                        },
                    }
                },
            }
        }
    }

    /// The event tells of another request or of another provider, and names this
    /// operation, its pool and its workload.
    pub open spec fn is_named_by(self, event: AgentEventView) -> bool {
        match event {
            AgentEventView::Retrying(notice) => {
                &&& notice.pool_id == Some(self.pool_id)
                &&& notice.workload == Some(self.workload)
                &&& notice.operation_id == Some(self.operation_id)
            },
            AgentEventView::ProviderSwitched(notice) => {
                &&& notice.pool_id == Some(self.pool_id)
                &&& notice.workload == Some(self.workload)
                &&& notice.operation_id == Some(self.operation_id)
            },
            _ => false,
        }
    }
}

/// Everything that an operation tells of further requests and of other providers
/// names its pool, its workload and its one id, over any number of visits and
/// whatever comes of them. So does its answer.
pub proof fn law_events_name_their_operation(operation: OperationView, visits: Seq<VisitRecord>)
    ensures
        forall|i: int|
            0 <= i < operation.told(visits).len() ==> operation.is_named_by(
                #[trigger] operation.told(visits)[i],
            ),
        forall|turn: CollectedTurnView|
            (#[trigger] operation.answer(turn)).operation_id == operation.operation_id,
    decreases visits.len(),
{
    if visits.len() > 0 {
        let record = visits[0];
        let (begun, visit) = operation.begin(record.hosted);
        if let Ok(visit) = visit {
            let first = ProviderAttemptView::first(
                record.limits,
                begun.labels().unwrap(),
                visit.request,
            );
            attempt::law_notices_bear_the_labels(first, record.answers);
            let notices = first.notices(record.answers);
            assert forall|i: int| 0 <= i < notices.len() implies operation.is_named_by(
                #[trigger] notices[i],
            ) by {
                assert(attempt::is_notice_of(notices[i], first.labels));
            }
            if let Some(failure) = record.failure {
                let (failed, action) = begun.on_failure(failure, record.signals);
                if let OperationActionView::Trip {
                    provider_id,
                    class,
                    cooldown_override,
                    error,
                    skip,
                } = action {
                    let (next, event) = failed.advance(class, record.cooldown, record.reason);
                    if let Ok(event) = event {
                        let rest = next.told(visits.drop_first());
                        law_events_name_their_operation(next, visits.drop_first());
                        let all = notices + seq![event] + rest;
                        assert(operation.told(visits) == all);
                        assert forall|i: int| 0 <= i < all.len() implies operation.is_named_by(
                            #[trigger] all[i],
                        ) by {
                            if i > notices.len() {
                                assert(next.is_named_by(rest[i - notices.len() - 1]));
                            }
                        }
                    }
                }
            }
        }
    }
}

/// The event of a failover names the provider that failed and the next one of the
/// plan that has a slot. What is told of a visit's further requests names the
/// provider of that visit.
pub proof fn law_events_name_their_providers(
    operation: OperationView,
    class: FailureClass,
    cooldown: u128,
    reason: Seq<char>,
)
    requires
        operation.visiting(),
    ensures
        match operation.advance(class, cooldown, reason).1 {
            Ok(event) => event matches AgentEventView::ProviderSwitched(notice)
                && notice.from_provider_id == Some(operation.ids()[operation.visit_idx as int])
                && notice.to_provider_id == first_bound(
                operation.captured.providers,
                operation.ids().skip(operation.visit_idx + 1),
            ),
            Err(_) => true,
        },
        operation.labels() matches Some(labels) && labels.provider_id
            == operation.ids()[operation.visit_idx as int],
{
    client::lemma_slot_has_the_id(
        operation.captured.providers,
        operation.ids()[operation.visit_idx as int],
    );
}

/// Without a chain, no second provider is visited.
pub proof fn law_no_failover_without_a_chain(
    operation: OperationView,
    error: ProviderAttemptErrorView,
    signals: FailureSignals,
)
    requires
        !operation.captured.plan.chain_mode,
    ensures
        operation.on_failure(error, signals).1 is Failed,
{
}

/// A veto, spent empty answers, a looping model and a broken stream end the
/// operation with their own error, chain or not.
pub proof fn law_only_failover_goes_on(
    operation: OperationView,
    error: ProviderAttemptErrorView,
    signals: FailureSignals,
)
    requires
        !(error is Failover),
    ensures
        operation.on_failure(error, signals).0 == operation,
        operation.on_failure(error, signals).1 is Failed,
{
}

/// What was shown of an answer stays at its front, over any number of providers.
pub proof fn law_shown_text_survives_failover(
    operation: OperationView,
    error: ProviderAttemptErrorView,
    signals: FailureSignals,
    turn: CollectedTurnView,
)
    requires
        operation.continue_from is Some,
    ensures
        ({
            let shown = operation.continue_from.unwrap();
            let next = operation.on_failure(error, signals).0;
            &&& next.continue_from matches Some(partial) && continuation::begins(
                partial.text,
                shown.text,
            )
            &&& continuation::begins(operation.answer(turn).text, shown.text)
        }),
{
    let shown = operation.continue_from.unwrap();
    continuation::law_continued_turn_keeps_the_text(shown, turn);
    assert(shown.text.subrange(0, shown.text.len() as int) =~= shown.text);
    if let ProviderAttemptErrorView::Failover { error, cooldown_override, continue_from } = error {
        if let Some(partial) = continue_from {
            continuation::law_continued_turn_keeps_the_text(shown, partial);
        }
    }
}

/// Another provider is never pointed at a response of the one before it: response
/// ids belong to their provider.
pub proof fn law_response_ids_stay_with_their_provider(
    operation: OperationView,
    slot: ProviderSlotView,
    hosted: Seq<HostedToolView>,
)
    requires
        operation.continue_from is Some,
    ensures
        operation.request_for(slot, hosted).previous_response_id is None,
{
}

// ── What operations ask for, answer and tell ────────────────────────────

/// The error of a visit that took too long names the share, in milliseconds, and the
/// provider. Where nothing was shown the next provider may try afresh; where something
/// was, the error ends the operation.
pub proof fn law_late_visits_are_told(budget: u128, provider_id: Seq<char>, shown: bool)
    ensures
        ({
            let ms = (budget as int / 1_000_000) as nat;
            let message = "timeout after "@ + text::decimal_text(ms) + "ms waiting for provider '"@
                + provider_id + "'"@;
            match timed_out(budget, provider_id, shown) {
                ProviderAttemptErrorView::Failover { error, cooldown_override, continue_from } => {
                    &&& !shown
                    &&& error == EngineErrorView::Llm(message)
                    &&& cooldown_override is None
                    &&& continue_from is None
                },
                ProviderAttemptErrorView::Terminal(error) => shown && error
                    == EngineErrorView::Llm(message),
                _ => false,
            }
        }),
{
}

/// Only an operation with a deadline and with more than one visit left shares its time,
/// and then the visit gets an equal part of it, to the nanosecond, or a millisecond
/// where that is more.
pub proof fn law_time_is_shared_equally(remaining: Option<u128>, visits: usize)
    requires
        visits <= u32::MAX,
    ensures
        remaining is None || visits <= 1 ==> visit_share(remaining, visits) is None,
        remaining matches Some(time) ==> visits > 1 ==> (visit_share(remaining, visits) matches Some(
            share,
        ) && {
            &&& share >= 1_000_000
            &&& time < visits * 1_000_000 ==> share == 1_000_000
            &&& time >= visits * 1_000_000 ==> share * visits <= time < (share + 1) * visits
        }),
{
    if let Some(time) = remaining {
        if visits > 1 {
            let part = time as int / visits as int;
            assert(part * visits <= time && time < (part + 1) * visits) by (nonlinear_arith)
                requires
                    part == time as int / visits as int,
                    visits > 1,
            ;
            if time >= visits * 1_000_000 {
                assert(part >= 1_000_000) by (nonlinear_arith)
                    requires
                        part == time as int / visits as int,
                        time >= visits * 1_000_000,
                        visits > 0,
                ;
            } else {
                assert(part < 1_000_000) by (nonlinear_arith)
                    requires
                        part == time as int / visits as int,
                        time < visits * 1_000_000,
                        visits > 0,
                ;
            }
        }
    }
}

/// A transport gives up a tenth of its share early, but at most a quarter of a second,
/// and not before a millisecond.
pub proof fn law_transports_give_up_a_little_early(budget: u128)
    ensures
        budget >= 2_500_000_000 ==> transport_share(budget) == budget - 250_000_000,
        1_200_000 <= budget < 2_500_000_000 ==> transport_share(budget) == budget - budget as int
            / 10,
        budget <= 1_000_000 ==> transport_share(budget) == 1_000_000,
        transport_share(budget) >= 1_000_000,
{
}

/// A visit asks its provider for the operation's request, made over for the provider's
/// slot, with the shown part of the answer behind it where there is one; and the
/// observer skips just that part. The provider is the one whose turn it is, and counts
/// as tried from then on.
pub proof fn law_visits_ask_for_the_request(operation: OperationView, hosted: Seq<HostedToolView>)
    requires
        operation.visit_idx < operation.ids().len(),
        operation.slot() is Some,
    ensures
        ({
            let slot = operation.slot().unwrap();
            let id = operation.ids()[operation.visit_idx as int];
            let request = client::rewritten(
                operation.req,
                slot,
                operation.captured.primary_compat_key,
                hosted,
            );
            let (next, visit) = operation.begin(hosted);
            &&& slot.provider_id == id
            &&& next == (OperationView { tried_ids: operation.tried_ids.push(id), ..operation })
            &&& visit matches Ok(visit) && {
                &&& visit.provider_id == id
                &&& match operation.continue_from {
                    Some(partial) => {
                        &&& visit.request == continuation::continued_request(
                            request,
                            partial,
                            false,
                        )
                        &&& visit.skip matches Some(skip) && skip.text == partial.text
                            && skip.reasoning == partial.reasoning
                    },
                    None => visit.request == request && visit.skip is None,
                }
            }
        }),
{
    client::lemma_slot_has_the_id(
        operation.captured.providers,
        operation.ids()[operation.visit_idx as int],
    );
}

/// An operation without a provider left has failed with all that were tried, or, where
/// none was, because there was none. One whose next provider has no slot says so.
pub proof fn law_operations_end_without_providers(
    operation: OperationView,
    hosted: Seq<HostedToolView>,
)
    ensures
        operation.begin(hosted).1 is Err ==> operation.begin(hosted).0 == operation,
        operation.visit_idx >= operation.ids().len() ==> operation.begin(hosted).1 == Err::<
            VisitView,
            EngineErrorView,
        >(
            if operation.failed {
                EngineErrorView::ProviderAttemptsExhausted {
                    pool_id: operation.pool_id,
                    tried_provider_ids: operation.tried_ids,
                }
            } else {
                EngineErrorView::Llm("no LLM providers configured"@)
            },
        ),
        operation.visit_idx < operation.ids().len() && operation.slot() is None ==> operation.begin(
            hosted,
        ).1 == Err::<VisitView, EngineErrorView>(
            client::unbound(operation.pool_id, operation.ids()[operation.visit_idx as int]),
        ),
{
}

/// The answer of an operation is the turn that the provider gave, behind what was shown
/// before it: its text, its calls, its items, its reasoning, its usage and all else are
/// those of that turn. Only where it came from is filled in, and the model of the slot
/// where the turn names none.
pub proof fn law_answers_are_the_turns_given(operation: OperationView, turn: CollectedTurnView)
    requires
        operation.visiting(),
    ensures
        ({
            let whole = match operation.continue_from {
                Some(partial) => continuation::continued_turn(partial, turn),
                None => turn,
            };
            let answer = operation.answer(turn);
            &&& answer.text == whole.text
            &&& answer.tool_calls == whole.tool_calls
            &&& answer.items == whole.items
            &&& answer.reasoning == whole.reasoning
            &&& answer.reasoning_items == whole.reasoning_items
            &&& answer.encrypted_reasoning == whole.encrypted_reasoning
            &&& answer.finish_reason == whole.finish_reason
            &&& answer.usage == whole.usage
            &&& answer.response_id == whole.response_id
            &&& answer.final_output == whole.final_output
            &&& whole.model.len() > 0 ==> answer.model == whole.model
            &&& whole.model.len() == 0 ==> answer.model == operation.slot().unwrap().model
        }),
{
}

/// A failure that goes to the next provider makes the one that failed rest, for as long
/// as it asked to, and is told by its class and its error. What it showed is put behind
/// what was shown before, for the next provider to continue and for the observer to
/// skip. Nothing else about the operation changes.
pub proof fn law_failovers_rest_the_provider(
    operation: OperationView,
    error: EngineErrorView,
    pause: Option<u128>,
    partial: Option<CollectedTurnView>,
    signals: FailureSignals,
)
    ensures
        ({
            let (next, action) = operation.on_failure(
                ProviderAttemptErrorView::Failover {
                    error,
                    cooldown_override: pause,
                    continue_from: partial,
                },
                signals,
            );
            let shown = match (operation.continue_from, partial) {
                (Some(earlier), Some(later)) => Some(continuation::continued_turn(earlier, later)),
                (None, Some(later)) => Some(later),
                (earlier, None) => earlier,
            };
            &&& next == (OperationView { continue_from: shown, failed: true, ..operation })
            &&& match action {
                OperationActionView::Failed(told) => !operation.captured.plan.chain_mode && told
                    == error,
                OperationActionView::Trip {
                    provider_id,
                    class,
                    cooldown_override,
                    error: told,
                    skip,
                } => {
                    &&& operation.captured.plan.chain_mode
                    &&& provider_id == operation.ids()[operation.visit_idx as int]
                    &&& class == failure::class_of(error, signals)
                    &&& cooldown_override == pause
                    &&& told == error
                    &&& partial is None ==> skip is None
                    &&& partial is Some ==> skip is Some
                    &&& skip matches Some(skip) ==> skip.text == shown.unwrap().text
                        && skip.reasoning == shown.unwrap().reasoning
                },
            }
        }),
{
}

/// Every other failure ends the operation with its own error.
pub proof fn law_other_failures_are_passed_on(
    operation: OperationView,
    error: EngineErrorView,
    signals: FailureSignals,
)
    ensures
        operation.on_failure(ProviderAttemptErrorView::Veto(error), signals) == (
            operation,
            OperationActionView::Failed(error),
        ),
        operation.on_failure(ProviderAttemptErrorView::EmptyExhausted(error), signals) == (
            operation,
            OperationActionView::Failed(error),
        ),
        operation.on_failure(ProviderAttemptErrorView::DoomLoop(error), signals) == (
            operation,
            OperationActionView::Failed(error),
        ),
        operation.on_failure(ProviderAttemptErrorView::Terminal(error), signals) == (
            operation,
            OperationActionView::Failed(error),
        ),
{
}

/// Once a provider rests, the next visit of the plan follows, as long as a provider
/// behind it has a slot; the event tells of the first of those, by its label, and of
/// the one that failed, of why, and for how long it rests. Otherwise the operation has
/// failed with all that were tried.
pub proof fn law_operations_go_on_in_order(
    operation: OperationView,
    class: FailureClass,
    cooldown: u128,
    reason: Seq<char>,
    at: int,
)
    requires
        operation.visiting(),
        operation.ids().len() <= usize::MAX,
        operation.visit_idx < at <= operation.ids().len(),
        at < operation.ids().len() ==> slots::slot_of(
            operation.captured.providers,
            operation.ids()[at],
        ) is Some,
        forall|i: int|
            operation.visit_idx < i < at ==> slots::slot_of(
                operation.captured.providers,
                #[trigger] operation.ids()[i],
            ) is None,
    ensures
        ({
            let (next, told) = operation.advance(class, cooldown, reason);
            if at == operation.ids().len() {
                &&& next == operation
                &&& told == Err::<AgentEventView, EngineErrorView>(
                    EngineErrorView::ProviderAttemptsExhausted {
                        pool_id: operation.pool_id,
                        tried_provider_ids: operation.tried_ids,
                    },
                )
            } else {
                let from = operation.slot().unwrap();
                let to = slots::slot_of(
                    operation.captured.providers,
                    operation.ids()[at],
                ).unwrap();
                &&& next == (OperationView {
                    visit_idx: (operation.visit_idx + 1) as usize,
                    ..operation
                })
                &&& told matches Ok(AgentEventView::ProviderSwitched(notice)) && {
                    &&& notice.from == from.fingerprint
                    &&& notice.to == to.fingerprint
                    &&& notice.from_label == Some(from.fingerprint)
                    &&& notice.to_label == Some(to.fingerprint)
                    &&& notice.from_provider_id == Some(
                        operation.ids()[operation.visit_idx as int],
                    )
                    &&& notice.to_provider_id == Some(operation.ids()[at])
                    &&& notice.reason == reason
                    &&& notice.cooldown_ms == (cooldown as int / 1_000_000)
                        % 0x1_0000_0000_0000_0000
                    &&& notice.failure_class == Some(class)
                    &&& notice.pool_id == Some(operation.pool_id)
                    &&& notice.workload == Some(operation.workload)
                    &&& notice.operation_id == Some(operation.operation_id)
                }
            }
        }),
{
    let slots = operation.captured.providers;
    let rest = operation.ids().skip(operation.visit_idx + 1);
    lemma_first_bound(slots, rest, at - operation.visit_idx - 1);
}

proof fn lemma_first_bound(slots: Seq<ProviderSlotView>, ids: Seq<Seq<char>>, at: int)
    requires
        0 <= at <= ids.len(),
        at < ids.len() ==> slots::slot_of(slots, ids[at]) is Some,
        forall|i: int| 0 <= i < at ==> slots::slot_of(slots, #[trigger] ids[i]) is None,
    ensures
        first_bound(slots, ids) == (if at == ids.len() {
            None
        } else {
            Some(ids[at])
        }),
    decreases ids.len(),
{
    if at > 0 {
        let rest = ids.drop_first();
        assert(slots::slot_of(slots, ids[0]) is None);
        assert forall|i: int| 0 <= i < at - 1 implies slots::slot_of(
            slots,
            #[trigger] rest[i],
        ) is None by {
            assert(rest[i] == ids[i + 1]);
        }
        lemma_first_bound(slots, rest, at - 1);
    }
}

/// An operation begins with the first visit of its plan, with nothing tried, shown or
/// failed yet.
pub proof fn law_operations_begin_afresh(
    pool_id: Seq<char>,
    workload: Workload,
    operation_id: Seq<char>,
    req: ConversationRequestView,
    captured: CapturedOperationView,
)
    ensures
        ({
            let operation = OperationView::start(pool_id, workload, operation_id, req, captured);
            &&& operation.pool_id == pool_id
            &&& operation.workload == workload
            &&& operation.operation_id == operation_id
            &&& operation.req == req
            &&& operation.captured == captured
            &&& operation.visit_idx == 0
            &&& operation.tried_ids.len() == 0
            &&& operation.continue_from is None
            &&& !operation.failed
        }),
{
}

/// The slot of a visit is that of the provider of its place in the plan, and its labels
/// are those of the slot and of the operation.
pub proof fn law_visits_go_by_the_plan(operation: OperationView)
    ensures
        operation.ids() == operation.captured.plan.provider_ids,
        operation.visit_idx < operation.ids().len() ==> operation.slot() == slots::slot_of(
            operation.captured.providers,
            operation.captured.plan.provider_ids[operation.visit_idx as int],
        ),
        operation.visit_idx >= operation.ids().len() ==> operation.slot() is None,
        operation.slot() is None ==> operation.labels() is None,
        operation.slot() matches Some(slot) ==> operation.labels() == Some(
            AttemptLabelsView {
                fingerprint: slot.fingerprint,
                provider_id: slot.provider_id,
                pool_id: operation.pool_id,
                workload: operation.workload,
                operation_id: operation.operation_id,
            },
        ),
{
}

/// What the views of these values show is what the values hold, field by field.
pub proof fn law_views_leave_nothing_out(
    visit: Visit,
    operation_action: OperationAction,
    operation: Operation,
)
    ensures
        ({
            let held = visit.deep_view();
            &&& held.provider_id == visit.provider_id@
            &&& held.request == visit.request.deep_view()
            &&& held.skip == visit.skip.deep_view()
        }),
        match operation_action {
            OperationAction::Failed(a) => operation_action.deep_view()
                == OperationActionView::Failed(a.deep_view()),
            OperationAction::Trip {
                provider_id,
                class,
                cooldown_override,
                error,
                skip,
            } => operation_action.deep_view() == (OperationActionView::Trip {
                provider_id: provider_id@,
                class: class,
                cooldown_override: cooldown_override.deep_view(),
                error: error.deep_view(),
                skip: skip.deep_view(),
            }),
        },
        ({
            let held = operation.deep_view();
            &&& held.pool_id == operation.pool_id@
            &&& held.workload == operation.workload
            &&& held.operation_id == operation.operation_id@
            &&& held.req == operation.req.deep_view()
            &&& held.captured == operation.captured.deep_view()
            &&& held.visit_idx == operation.visit_idx
            &&& held.tried_ids == operation.tried_ids.deep_view()
            &&& held.continue_from == operation.continue_from.deep_view()
            &&& held.failed == operation.failed
        }),
{
}

/// The name of an operation is `op_` and 32 digits between 0 and f, small letters and
/// never capital ones, with the version and the variant of a random UUID among them.
pub proof fn law_operations_are_named_by_uuids(id: Seq<char>)
    requires
        is_operation_id(id),
    ensures
        id.len() == 35,
        id.take(3) == seq!['o', 'p', '_'],
        forall|i: int|
            3 <= i < 35 ==> 48 <= (#[trigger] id[i]) as int <= 57 || 97 <= id[i] as int <= 102,
        id[15] == '4',
        id[19] == '8' || id[19] == '9' || id[19] == 'a' || id[19] == 'b',
{
    reveal_strlit("op_");
    let front = id.subrange(0, 3);
    assert(front =~= seq!['o', 'p', '_']);
    assert(id.take(3) =~= front);
    assert forall|i: int| 3 <= i < 35 implies 48 <= (#[trigger] id[i]) as int <= 57 || 97
        <= id[i] as int <= 102 by {
        assert(is_hex(id[i]));
    }
}

/// Between two visits all providers before the next one of the plan were tried, in
/// order, and nobody else was; during a visit its own provider was tried too, and has a
/// slot.
pub proof fn law_tried_providers_are_those_of_the_plan(operation: OperationView)
    ensures
        operation.between_visits() ==> {
            &&& operation.tried_ids.len() == operation.visit_idx
            &&& operation.visit_idx <= operation.captured.plan.provider_ids.len()
        },
        operation.visiting() ==> {
            &&& operation.tried_ids.len() == operation.visit_idx + 1
            &&& operation.visit_idx < operation.captured.plan.provider_ids.len()
            &&& operation.slot() is Some
        },
        operation.between_visits() || operation.visiting() ==> forall|i: int|
            0 <= i < operation.tried_ids.len() ==> #[trigger] operation.tried_ids[i]
                == operation.captured.plan.provider_ids[i],
{
}

} // verus!
