//! The visit of one provider: what follows from each answer to a request.
use vstd::prelude::*;

use crate::continuation;
use crate::continuation::{
    can_prefix_continue, merge_continued_turn, prefix_continue_request,
    should_accept_partial_as_complete,
};
use crate::error::{EngineError, EngineErrorView};
use crate::events;
use crate::events::{
    millis, AgentEvent, AgentEventView, FailureClass, RetryNotice, RetryNoticeView, Workload,
};
use crate::failure;
use crate::failure::{
    failure_class_of, is_veto, retry_after_from_error, FailureSignals, RetryClass,
};
use crate::types::{
    CollectedTurn, CollectedTurnView, ConversationRequest, ConversationRequestView,
};

verus! {

/// How often and how long one provider is asked.
#[derive(Debug, Clone, Copy, PartialEq, Eq, Structural)]
pub struct AttemptLimits {
    /// Other providers may take over.
    pub chain_mode: bool,
    pub max_retries: u32,
    pub failover_max_attempts: u32,
    pub doom_loop_max_retries: u32,
    /// How many rate limits one visit puts up with.
    pub rate_limit_threshold: u32,
    /// The longest pause, in nanoseconds, that is waited for where another provider
    /// may take over.
    pub inline_pause_cap: u128,
}

/// The pauses, in nanoseconds, that the back-off policy gives at this point.
#[derive(Debug, Clone, Copy, PartialEq, Eq, Structural)]
pub struct Backoffs {
    pub retry: u128,
    pub doom_loop: u128,
}

/// What the events of a visit are labelled with.
#[derive(Debug, PartialEq, Eq)]
pub struct AttemptLabels {
    /// The label of the provider.
    pub fingerprint: String,
    pub provider_id: String,
    pub pool_id: String,
    pub workload: Workload,
    pub operation_id: String,
}

/// What a [`AttemptLabels`] holds.
#[verifier::ext_equal]
pub struct AttemptLabelsView {
    pub fingerprint: Seq<char>,
    pub provider_id: Seq<char>,
    pub pool_id: Seq<char>,
    pub workload: Workload,
    pub operation_id: Seq<char>,
}

impl DeepView for AttemptLabels {
    type V = AttemptLabelsView;

    open spec fn deep_view(&self) -> AttemptLabelsView {
        AttemptLabelsView {
            fingerprint: self.fingerprint@,
            provider_id: self.provider_id@,
            pool_id: self.pool_id@,
            workload: self.workload,
            operation_id: self.operation_id@,
        }
    }
}

impl Clone for AttemptLabels {
    fn clone(&self) -> (out: AttemptLabels)
        ensures
            out.deep_view() == self.deep_view(),
    {
        AttemptLabels {
            fingerprint: self.fingerprint.clone(),
            provider_id: self.provider_id.clone(),
            pool_id: self.pool_id.clone(),
            workload: self.workload,
            operation_id: self.operation_id.clone(),
        }
    }
}

/// What came of a request. `shown` tells that text or reasoning of its stream has
/// reached the observer.
#[derive(Debug, PartialEq, Eq)]
pub enum AttemptEvent {
    /// The stream ended.
    Collected { turn: CollectedTurn, shown: bool },
    /// The stream went silent for `timeout` nanoseconds.
    IdleTimeout { partial: CollectedTurn, timeout: u128 },
    /// The stream broke off.
    StreamFailed { error: EngineError, shown: bool },
    /// There was no stream. `message` is the error as it is shown.
    RequestFailed { error: EngineError, message: String, signals: FailureSignals },
}

/// What a [`AttemptEvent`] holds.
#[verifier::ext_equal]
pub enum AttemptEventView {
    Collected { turn: CollectedTurnView, shown: bool },
    IdleTimeout { partial: CollectedTurnView, timeout: u128 },
    StreamFailed { error: EngineErrorView, shown: bool },
    RequestFailed { error: EngineErrorView, message: Seq<char>, signals: FailureSignals },
}

impl DeepView for AttemptEvent {
    type V = AttemptEventView;

    open spec fn deep_view(&self) -> AttemptEventView {
        match *self {
            AttemptEvent::Collected { turn, shown } => AttemptEventView::Collected {
                turn: turn.deep_view(),
                shown: shown,
            },
            AttemptEvent::IdleTimeout { partial, timeout } => AttemptEventView::IdleTimeout {
                partial: partial.deep_view(),
                timeout: timeout,
            },
            AttemptEvent::StreamFailed { error, shown } => AttemptEventView::StreamFailed {
                error: error.deep_view(),
                shown: shown,
            },
            AttemptEvent::RequestFailed {
                error,
                message,
                signals,
            } => AttemptEventView::RequestFailed {
                error: error.deep_view(),
                message: message@,
                signals: signals,
            },
        }
    }
}

impl Clone for AttemptEvent {
    fn clone(&self) -> (out: AttemptEvent)
        ensures
            out.deep_view() == self.deep_view(),
    {
        match self {
            AttemptEvent::Collected { turn, shown } => AttemptEvent::Collected {
                turn: turn.clone(),
                shown: *shown,
            },
            AttemptEvent::IdleTimeout { partial, timeout } => AttemptEvent::IdleTimeout {
                partial: partial.clone(),
                timeout: *timeout,
            },
            AttemptEvent::StreamFailed { error, shown } => AttemptEvent::StreamFailed {
                error: error.clone(),
                shown: *shown,
            },
            AttemptEvent::RequestFailed { error, message, signals } => AttemptEvent::RequestFailed {
                error: error.clone(),
                message: message.clone(),
                signals: *signals,
            },
        }
    }
}

impl AttemptEventView {
    /// Text or reasoning of the request's stream has reached the observer.
    pub open spec fn has_shown(self) -> bool {
        match self {
            AttemptEventView::Collected { turn, shown } => shown,
            AttemptEventView::IdleTimeout { partial, timeout } => partial.text.len() > 0
                || partial.reasoning.len() > 0,
            AttemptEventView::StreamFailed { error, shown } => shown,
            AttemptEventView::RequestFailed { error, message, signals } => false,
        }
    }
}

/// Why the visit of a provider failed.
#[derive(Debug, PartialEq, Eq)]
pub enum ProviderAttemptError {
    /// The next provider may try, from the partial turn where there is one.
    Failover {
        error: EngineError,
        cooldown_override: Option<u128>,
        continue_from: Option<CollectedTurn>,
    },
    /// The error ends the operation.
    Veto(EngineError),
    /// All answers were empty.
    EmptyExhausted(EngineError),
    /// The model kept looping.
    DoomLoop(EngineError),
    /// The failure is passed on as it is.
    Terminal(EngineError),
}

/// What a [`ProviderAttemptError`] holds.
#[verifier::ext_equal]
pub enum ProviderAttemptErrorView {
    Failover {
        error: EngineErrorView,
        cooldown_override: Option<u128>,
        continue_from: Option<CollectedTurnView>,
    },
    Veto(EngineErrorView),
    EmptyExhausted(EngineErrorView),
    DoomLoop(EngineErrorView),
    Terminal(EngineErrorView),
}

impl DeepView for ProviderAttemptError {
    type V = ProviderAttemptErrorView;

    open spec fn deep_view(&self) -> ProviderAttemptErrorView {
        match *self {
            ProviderAttemptError::Failover {
                error,
                cooldown_override,
                continue_from,
            } => ProviderAttemptErrorView::Failover {
                error: error.deep_view(),
                cooldown_override: cooldown_override.deep_view(),
                continue_from: continue_from.deep_view(),
            },
            ProviderAttemptError::Veto(a) => ProviderAttemptErrorView::Veto(a.deep_view()),
            ProviderAttemptError::EmptyExhausted(a) => ProviderAttemptErrorView::EmptyExhausted(
                a.deep_view(),
            ),
            ProviderAttemptError::DoomLoop(a) => ProviderAttemptErrorView::DoomLoop(a.deep_view()),
            ProviderAttemptError::Terminal(a) => ProviderAttemptErrorView::Terminal(a.deep_view()),
        }
    }
}

impl Clone for ProviderAttemptError {
    fn clone(&self) -> (out: ProviderAttemptError)
        ensures
            out.deep_view() == self.deep_view(),
    {
        match self {
            ProviderAttemptError::Failover {
                error,
                cooldown_override,
                continue_from,
            } => ProviderAttemptError::Failover {
                error: error.clone(),
                cooldown_override: cooldown_override.clone(),
                continue_from: continue_from.clone(),
            },
            ProviderAttemptError::Veto(a) => ProviderAttemptError::Veto(a.clone()),
            ProviderAttemptError::EmptyExhausted(a) => ProviderAttemptError::EmptyExhausted(
                a.clone(),
            ),
            ProviderAttemptError::DoomLoop(a) => ProviderAttemptError::DoomLoop(a.clone()),
            ProviderAttemptError::Terminal(a) => ProviderAttemptError::Terminal(a.clone()),
        }
    }
}

/// Text and reasoning that an observer has seen.
#[derive(Debug, PartialEq, Eq)]
pub struct Shown {
    pub text: String,
    pub reasoning: String,
}

/// What a [`Shown`] holds.
#[verifier::ext_equal]
pub struct ShownView {
    pub text: Seq<char>,
    pub reasoning: Seq<char>,
}

impl DeepView for Shown {
    type V = ShownView;

    open spec fn deep_view(&self) -> ShownView {
        ShownView {
            text: self.text@,
            reasoning: self.reasoning@,
        }
    }
}

impl Clone for Shown {
    fn clone(&self) -> (out: Shown)
        ensures
            out.deep_view() == self.deep_view(),
    {
        Shown {
            text: self.text.clone(),
            reasoning: self.reasoning.clone(),
        }
    }
}

/// What to do next.
#[derive(Debug, PartialEq, Eq)]
pub enum AttemptAction {
    /// The visit has succeeded.
    Finish(CollectedTurn),
    /// The visit has failed.
    Fail(ProviderAttemptError),
    /// Tell the observer, skip what it has seen, wait, and send the request.
    Retry { notice: Option<AgentEvent>, wait: u128, skip: Option<Shown> },
}

/// What a [`AttemptAction`] holds.
#[verifier::ext_equal]
pub enum AttemptActionView {
    Finish(CollectedTurnView),
    Fail(ProviderAttemptErrorView),
    Retry { notice: Option<AgentEventView>, wait: u128, skip: Option<ShownView> },
}

impl DeepView for AttemptAction {
    type V = AttemptActionView;

    open spec fn deep_view(&self) -> AttemptActionView {
        match *self {
            AttemptAction::Finish(a) => AttemptActionView::Finish(a.deep_view()),
            AttemptAction::Fail(a) => AttemptActionView::Fail(a.deep_view()),
            AttemptAction::Retry { notice, wait, skip } => AttemptActionView::Retry {
                notice: notice.deep_view(),
                wait: wait,
                skip: skip.deep_view(),
            },
        }
    }
}

impl Clone for AttemptAction {
    fn clone(&self) -> (out: AttemptAction)
        ensures
            out.deep_view() == self.deep_view(),
    {
        match self {
            AttemptAction::Finish(a) => AttemptAction::Finish(a.clone()),
            AttemptAction::Fail(a) => AttemptAction::Fail(a.clone()),
            AttemptAction::Retry { notice, wait, skip } => AttemptAction::Retry {
                notice: notice.clone(),
                wait: *wait,
                skip: skip.clone(),
            },
        }
    }
}

impl AttemptLimits {
    /// How many requests the events speak of.
    pub open spec fn attempts_shown(self) -> int {
        let configured = if self.chain_mode {
            self.failover_max_attempts
        } else {
            self.max_retries
        };
        if configured == 0 {
            1
        } else {
            configured as int
        }
    }

    /// How many failed requests are followed by another.
    pub open spec fn retry_budget(self) -> int {
        if self.chain_mode {
            self.attempts_shown() - 1
        } else {
            self.max_retries as int
        }
    }

    /// From which request on an empty answer is not asked for again.
    pub open spec fn empty_budget(self) -> int {
        if self.chain_mode {
            self.attempts_shown()
        } else {
            self.max_retries as int
        }
    }

    /// The requests of a visit can be counted.
    pub open spec fn countable(self) -> bool {
        self.retry_budget() + self.doom_loop_max_retries + 2 <= u32::MAX
    }

    /// Whether the requests of a visit can be counted.
    pub fn is_countable(&self) -> (yes: bool)
        ensures
            yes == self.countable(),
    {
        let budget: u64 = if self.chain_mode {
            if self.failover_max_attempts == 0 {
                0
            } else {
                self.failover_max_attempts as u64 - 1
            }
        } else {
            self.max_retries as u64
        };
        budget + self.doom_loop_max_retries as u64 + 2 <= u32::MAX as u64
    }

    fn max_attempts(&self) -> (n: u32)
        ensures
            n == self.attempts_shown(),
    {
        let configured: u32 = if self.chain_mode {
            self.failover_max_attempts
        } else {
            self.max_retries
        };
        if configured == 0 {
            1
        } else {
            configured
        }
    }
}

/// The event that tells of another request.
pub open spec fn retrying(
    labels: AttemptLabelsView,
    attempt: int,
    max_attempts: int,
    wait: u128,
    reason: Seq<char>,
    class: FailureClass,
) -> AgentEventView {
    AgentEventView::Retrying(
        RetryNoticeView {
            provider: labels.fingerprint,
            attempt: attempt as u32,
            max_attempts: max_attempts as u32,
            wait_ms: events::millis_of(wait) as u64,
            reason,
            provider_id: Some(labels.provider_id),
            pool_id: Some(labels.pool_id),
            workload: Some(labels.workload),
            operation_id: Some(labels.operation_id),
            failure_class: Some(class),
            label: Some(labels.fingerprint),
        },
    )
}

/// The event that tells of another request.
pub fn emit_retrying(
    labels: &AttemptLabels,
    attempt: u32,
    max_attempts: u32,
    wait: u128,
    reason: &str,
    class: FailureClass,
) -> (event: AgentEvent)
    ensures
        event.deep_view() == retrying(
            labels.deep_view(),
            attempt as int,
            max_attempts as int,
            wait,
            reason@,
            class,
        ),
{
    let notice = RetryNotice {
        provider: labels.fingerprint.clone(),
        attempt,
        max_attempts,
        wait_ms: millis(wait),
        reason: reason.to_owned(),
        provider_id: Some(labels.provider_id.clone()),
        pool_id: Some(labels.pool_id.clone()),
        workload: Some(labels.workload),
        operation_id: Some(labels.operation_id.clone()),
        failure_class: Some(class),
        label: Some(labels.fingerprint.clone()),
    };
    AgentEvent::Retrying(notice)
}

/// The visit of one provider.
#[derive(Debug, PartialEq, Eq)]
pub struct ProviderAttempt {
    pub limits: AttemptLimits,
    pub labels: AttemptLabels,
    /// Which request is under way, from 1 on.
    pub attempt: u32,
    pub rate_limit_retries: u32,
    pub doom_loop_retries: u32,
    /// The request that is under way.
    pub live_req: ConversationRequest,
    pub continued_once: bool,
    /// The turn so far, where the request continues one.
    pub prefix: Option<CollectedTurn>,
}

/// What a [`ProviderAttempt`] holds.
#[verifier::ext_equal]
pub struct ProviderAttemptView {
    pub limits: AttemptLimits,
    pub labels: AttemptLabelsView,
    pub attempt: int,
    pub rate_limit_retries: int,
    pub doom_loop_retries: int,
    pub live_req: ConversationRequestView,
    pub continued_once: bool,
    pub prefix: Option<CollectedTurnView>,
}

impl DeepView for ProviderAttempt {
    type V = ProviderAttemptView;

    open spec fn deep_view(&self) -> ProviderAttemptView {
        ProviderAttemptView {
            limits: self.limits,
            labels: self.labels.deep_view(),
            attempt: self.attempt as int,
            rate_limit_retries: self.rate_limit_retries as int,
            doom_loop_retries: self.doom_loop_retries as int,
            live_req: self.live_req.deep_view(),
            continued_once: self.continued_once,
            prefix: self.prefix.deep_view(),
        }
    }
}

/// A turn behind the one that it continues, where it continues one.
pub open spec fn behind(
    prefix: Option<CollectedTurnView>,
    turn: CollectedTurnView,
) -> CollectedTurnView {
    match prefix {
        Some(partial) => continuation::continued_turn(partial, turn),
        None => turn,
    }
}

fn put_behind(prefix: &Option<CollectedTurn>, turn: CollectedTurn) -> (whole: CollectedTurn)
    ensures
        whole.deep_view() == behind(prefix.deep_view(), turn.deep_view()),
{
    match prefix {
        Some(partial) => merge_continued_turn(partial, turn),
        None => turn,
    }
}

impl ProviderAttemptView {
    /// A visit that sends its first request.
    pub open spec fn first(
        limits: AttemptLimits,
        labels: AttemptLabelsView,
        req: ConversationRequestView,
    ) -> ProviderAttemptView {
        ProviderAttemptView {
            limits,
            labels,
            attempt: 1,
            rate_limit_retries: 0,
            doom_loop_retries: 0,
            live_req: req,
            continued_once: false,
            prefix: None,
        }
    }

    /// Every request beyond the first was owed to a failure, an empty answer, a
    /// resampling or the one continuation, and each has its own budget.
    pub open spec fn wf(self) -> bool {
        &&& self.limits.countable()
        &&& 1 <= self.attempt <= 1 + self.limits.retry_budget() + self.doom_loop_retries
        &&& 0 <= self.doom_loop_retries <= self.limits.doom_loop_max_retries
        &&& 0 <= self.rate_limit_retries < self.attempt
    }

    /// How many more requests the visit can send at most.
    pub open spec fn requests_left(self) -> int {
        (1 + self.limits.retry_budget() + self.doom_loop_retries - self.attempt) + (
        self.limits.doom_loop_max_retries - self.doom_loop_retries) + if self.continued_once {
            0int
        } else {
            1int
        }
    }

    /// The failure goes to the next provider where there may be one, and to the
    /// caller otherwise.
    pub open spec fn given_up(
        self,
        error: EngineErrorView,
        cooldown_override: Option<u128>,
        continue_from: Option<CollectedTurnView>,
    ) -> AttemptActionView {
        AttemptActionView::Fail(
            if self.limits.chain_mode {
                ProviderAttemptErrorView::Failover { error, cooldown_override, continue_from }
            } else {
                ProviderAttemptErrorView::Terminal(error)
            },
        )
    }

    /// The next request, after a pause.
    pub open spec fn ask_again(self, wait: u128, reason: Seq<char>, class: FailureClass) -> (
        ProviderAttemptView,
        AttemptActionView,
    ) {
        (
            ProviderAttemptView { attempt: self.attempt + 1, ..self },
            AttemptActionView::Retry {
                notice: Some(
                    retrying(
                        self.labels,
                        self.attempt + 1,
                        self.limits.attempts_shown(),
                        wait,
                        reason,
                        class,
                    ),
                ),
                wait,
                skip: None,
            },
        )
    }

    /// What follows from a collected turn. An empty one is asked for again, here or
    /// at the next provider, unless reasoning was shown on the way to it.
    pub open spec fn on_collected(
        self,
        turn: CollectedTurnView,
        shown: bool,
        backoff: Backoffs,
    ) -> (ProviderAttemptView, AttemptActionView) {
        let whole = behind(self.prefix, turn);
        if !whole.is_empty() {
            (self, AttemptActionView::Finish(whole))
        } else if !shown && self.attempt < self.limits.empty_budget() {
            self.ask_again(backoff.retry, "empty"@, FailureClass::EmptyResponse)
        } else if !shown && self.limits.chain_mode {
            (self, self.given_up(EngineErrorView::EmptyResponse, None, None))
        } else {
            (
                self,
                AttemptActionView::Fail(
                    ProviderAttemptErrorView::EmptyExhausted(EngineErrorView::EmptyResponse),
                ),
            )
        }
    }

    /// What follows from a stream that broke off: the end of the visit, unless the
    /// server found the model looping before anything was shown.
    pub open spec fn on_stream_failed(
        self,
        error: EngineErrorView,
        shown: bool,
        backoff: Backoffs,
    ) -> (ProviderAttemptView, AttemptActionView) {
        if error is DoomLoopServer {
            if !shown && self.doom_loop_retries < self.limits.doom_loop_max_retries {
                (
                    ProviderAttemptView {
                        attempt: self.attempt + 1,
                        doom_loop_retries: self.doom_loop_retries + 1,
                        ..self
                    },
                    AttemptActionView::Retry {
                        notice: None,
                        wait: backoff.doom_loop,
                        skip: None,
                    },
                )
            } else {
                (self, AttemptActionView::Fail(ProviderAttemptErrorView::DoomLoop(error)))
            }
        } else {
            (self, AttemptActionView::Fail(ProviderAttemptErrorView::Terminal(error)))
        }
    }

    /// What follows from a stream that went silent.
    pub open spec fn on_idle(self, partial: CollectedTurnView, timeout: u128) -> (
        ProviderAttemptView,
        AttemptActionView,
    ) {
        let combined = behind(self.prefix, partial);
        if continuation::acceptable(combined) {
            (self, AttemptActionView::Finish(combined))
        } else if !self.continued_once && continuation::continuable(combined) {
            (
                ProviderAttemptView {
                    continued_once: true,
                    prefix: Some(combined),
                    live_req: continuation::continued_request(self.live_req, combined, true),
                    ..self
                },
                AttemptActionView::Retry {
                    notice: Some(
                        retrying(
                            self.labels,
                            self.attempt,
                            self.limits.attempts_shown(),
                            0,
                            "idle-timeout-continue"@,
                            FailureClass::StreamIdle,
                        ),
                    ),
                    wait: 0,
                    skip: Some(ShownView { text: combined.text, reasoning: combined.reasoning }),
                },
            )
        } else {
            (
                self,
                self.given_up(
                    EngineErrorView::StreamIdleTimeout(timeout),
                    None,
                    if continuation::continuable(combined) {
                        Some(combined)
                    } else {
                        None
                    },
                ),
            )
        }
    }

    /// A failed request is not followed by another.
    pub open spec fn is_spent(self) -> bool {
        self.attempt > self.limits.retry_budget()
    }

    /// What follows from a request that failed.
    pub open spec fn on_request_failed(
        self,
        error: EngineErrorView,
        message: Seq<char>,
        signals: FailureSignals,
        backoff: Backoffs,
    ) -> (ProviderAttemptView, AttemptActionView) {
        if failure::vetoes(error, signals) {
            (self, AttemptActionView::Fail(ProviderAttemptErrorView::Veto(error)))
        } else {
            match signals.class {
                RetryClass::Fatal => (self, self.given_up(error, None, self.prefix)),
                RetryClass::RateLimited => {
                    let wait = match failure::asked_pause(error, signals) {
                        Some(pause) => pause,
                        None => backoff.retry,
                    };
                    if self.is_spent() || self.rate_limit_retries
                        >= self.limits.rate_limit_threshold || (self.limits.chain_mode && wait
                        > self.limits.inline_pause_cap) {
                        (self, self.given_up(error, Some(wait), self.prefix))
                    } else {
                        (
                            ProviderAttemptView {
                                rate_limit_retries: self.rate_limit_retries + 1,
                                ..self
                            }
                        ).ask_again(wait, "status=429"@, FailureClass::RateLimited)
                    }
                },
                RetryClass::Retry => if self.is_spent() {
                    (self, self.given_up(error, None, self.prefix))
                } else {
                    self.ask_again(backoff.retry, message, failure::class_of(error, signals))
                },
            }
        }
    }

    /// What follows from what came of a request.
    pub open spec fn step(self, event: AttemptEventView, backoff: Backoffs) -> (
        ProviderAttemptView,
        AttemptActionView,
    ) {
        match event {
            AttemptEventView::Collected { turn, shown } => self.on_collected(turn, shown, backoff),
            AttemptEventView::IdleTimeout { partial, timeout } => self.on_idle(partial, timeout),
            AttemptEventView::StreamFailed { error, shown } => self.on_stream_failed(
                error,
                shown,
                backoff,
            ),
            AttemptEventView::RequestFailed { error, message, signals } => self.on_request_failed(
                error,
                message,
                signals,
                backoff,
            ),
        }
    }

    /// After each of these answers the visit sends another request.
    pub open spec fn keeps_asking(self, answers: Seq<(AttemptEventView, Backoffs)>) -> bool
        decreases answers.len(),
    {
        answers.len() == 0 || {
            let (next, action) = self.step(answers[0].0, answers[0].1);
            action is Retry && next.keeps_asking(answers.drop_first())
        }
    }

    /// What the observer is told of further requests, over these answers.
    pub open spec fn notices(self, answers: Seq<(AttemptEventView, Backoffs)>) -> Seq<
        AgentEventView,
    >
        decreases answers.len(),
    {
        if answers.len() == 0 {
            Seq::empty()
        } else {
            let (next, action) = self.step(answers[0].0, answers[0].1);
            match action {
                AttemptActionView::Retry { notice, wait, skip } => match notice {
                    Some(event) => seq![event] + next.notices(answers.drop_first()),
                    None => next.notices(answers.drop_first()),
                },
                _ => Seq::empty(),
            }
        }
    }
}

impl ProviderAttempt {
    /// A visit that sends its first request.
    pub fn new(
        limits: AttemptLimits,
        labels: AttemptLabels,
        req: &ConversationRequest,
    ) -> (visit: ProviderAttempt)
        requires
            limits.countable(),
        ensures
            visit.deep_view() == ProviderAttemptView::first(
                limits,
                labels.deep_view(),
                req.deep_view(),
            ),
            visit.deep_view().wf(),
    {
        ProviderAttempt {
            limits,
            labels,
            attempt: 1,
            rate_limit_retries: 0,
            doom_loop_retries: 0,
            live_req: req.clone(),
            continued_once: false,
            prefix: None,
        }
    }

    fn give_up(
        &self,
        error: EngineError,
        cooldown_override: Option<u128>,
        continue_from: Option<CollectedTurn>,
    ) -> (action: AttemptAction)
        ensures
            action.deep_view() == self.deep_view().given_up(
                error.deep_view(),
                cooldown_override,
                continue_from.deep_view(),
            ),
    {
        AttemptAction::Fail(
            if self.limits.chain_mode {
                ProviderAttemptError::Failover { error, cooldown_override, continue_from }
            } else {
                ProviderAttemptError::Terminal(error)
            },
        )
    }

    fn retry_after(
        &mut self,
        wait: u128,
        reason: &str,
        class: FailureClass,
    ) -> (action: AttemptAction)
        requires
            old(self).attempt < u32::MAX,
        ensures
            (final(self).deep_view(), action.deep_view()) == old(self).deep_view().ask_again(
                wait,
                reason@,
                class,
            ),
    {
        self.attempt = self.attempt + 1;
        let notice = emit_retrying(
            &self.labels,
            self.attempt,
            self.limits.max_attempts(),
            wait,
            reason,
            class,
        );
        AttemptAction::Retry { notice: Some(notice), wait, skip: None }
    }

    fn after_collected(
        &mut self,
        turn: CollectedTurn,
        shown: bool,
        backoff: Backoffs,
    ) -> (action: AttemptAction)
        requires
            old(self).deep_view().wf(),
        ensures
            (final(self).deep_view(), action.deep_view()) == old(self).deep_view().on_collected(
                turn.deep_view(),
                shown,
                backoff,
            ),
    {
        let whole = put_behind(&self.prefix, turn);
        if !whole.is_empty() {
            return AttemptAction::Finish(whole);
        }
        let budget: u32 = if self.limits.chain_mode {
            self.limits.max_attempts()
        } else {
            self.limits.max_retries
        };
        if !shown && self.attempt < budget {
            return self.retry_after(backoff.retry, "empty", FailureClass::EmptyResponse);
        }
        if !shown && self.limits.chain_mode {
            self.give_up(EngineError::EmptyResponse, None, None)
        } else {
            AttemptAction::Fail(ProviderAttemptError::EmptyExhausted(EngineError::EmptyResponse))
        }
    }

    fn after_stream_failed(
        &mut self,
        error: EngineError,
        shown: bool,
        backoff: Backoffs,
    ) -> (action: AttemptAction)
        requires
            old(self).deep_view().wf(),
        ensures
            (final(self).deep_view(), action.deep_view()) == old(self).deep_view().on_stream_failed(
                error.deep_view(),
                shown,
                backoff,
            ),
    {
        if matches!(error, EngineError::DoomLoopServer(_)) {
            if !shown && self.doom_loop_retries < self.limits.doom_loop_max_retries {
                self.doom_loop_retries = self.doom_loop_retries + 1;
                self.attempt = self.attempt + 1;
                return AttemptAction::Retry { notice: None, wait: backoff.doom_loop, skip: None };
            }
            return AttemptAction::Fail(ProviderAttemptError::DoomLoop(error));
        }
        AttemptAction::Fail(ProviderAttemptError::Terminal(error))
    }

    fn after_idle(&mut self, partial: CollectedTurn, timeout: u128) -> (action: AttemptAction)
        requires
            old(self).deep_view().wf(),
        ensures
            (final(self).deep_view(), action.deep_view()) == old(self).deep_view().on_idle(
                partial.deep_view(),
                timeout,
            ),
    {
        let combined = put_behind(&self.prefix, partial);
        if should_accept_partial_as_complete(&combined) {
            return AttemptAction::Finish(combined);
        }
        if !self.continued_once && can_prefix_continue(&combined) {
            self.continued_once = true;
            self.live_req = prefix_continue_request(&self.live_req, &combined, true);
            let skip = Shown {
                text: combined.text.clone(),
                reasoning: combined.reasoning.clone(),
            };
            self.prefix = Some(combined);
            let notice = emit_retrying(
                &self.labels,
                self.attempt,
                self.limits.max_attempts(),
                0,
                "idle-timeout-continue",
                FailureClass::StreamIdle,
            );
            return AttemptAction::Retry { notice: Some(notice), wait: 0, skip: Some(skip) };
        }
        let continue_from = if can_prefix_continue(&combined) {
            Some(combined)
        } else {
            None
        };
        self.give_up(EngineError::StreamIdleTimeout(timeout), None, continue_from)
    }

    fn after_request_failed(
        &mut self,
        error: EngineError,
        message: &str,
        signals: FailureSignals,
        backoff: Backoffs,
    ) -> (action: AttemptAction)
        requires
            old(self).deep_view().wf(),
        ensures
            (final(self).deep_view(), action.deep_view()) == old(
                self,
            ).deep_view().on_request_failed(error.deep_view(), message@, signals, backoff),
    {
        if is_veto(&error, &signals) {
            return AttemptAction::Fail(ProviderAttemptError::Veto(error));
        }
        let spent = if self.limits.chain_mode {
            self.attempt >= self.limits.max_attempts()
        } else {
            self.attempt > self.limits.max_retries
        };
        match signals.class {
            RetryClass::Fatal => self.give_up(error, None, self.prefix.clone()),
            RetryClass::RateLimited => {
                let wait: u128 = match retry_after_from_error(&error, &signals) {
                    Some(pause) => pause,
                    None => backoff.retry,
                };
                if spent || self.rate_limit_retries >= self.limits.rate_limit_threshold || (
                self.limits.chain_mode && wait > self.limits.inline_pause_cap) {
                    return self.give_up(error, Some(wait), self.prefix.clone());
                }
                self.rate_limit_retries = self.rate_limit_retries + 1;
                self.retry_after(wait, "status=429", FailureClass::RateLimited)
            },
            RetryClass::Retry => {
                if spent {
                    return self.give_up(error, None, self.prefix.clone());
                }
                let class = failure_class_of(&error, &signals);
                self.retry_after(backoff.retry, message, class)
            },
        }
    }

    /// What follows from what came of the request under way.
    pub fn on_event(&mut self, event: AttemptEvent, backoff: Backoffs) -> (action: AttemptAction)
        requires
            old(self).deep_view().wf(),
        ensures
            (final(self).deep_view(), action.deep_view()) == old(self).deep_view().step(
                event.deep_view(),
                backoff,
            ),
            final(self).deep_view().wf(),
    {
        let ghost before = self.deep_view();
        let ghost answer = event.deep_view();
        let action = match event {
            AttemptEvent::Collected { turn, shown } => self.after_collected(turn, shown, backoff),
            AttemptEvent::IdleTimeout { partial, timeout } => self.after_idle(partial, timeout),
            AttemptEvent::StreamFailed { error, shown } => self.after_stream_failed(
                error,
                shown,
                backoff,
            ),
            AttemptEvent::RequestFailed { error, message, signals } => self.after_request_failed(
                error,
                message.as_str(),
                signals,
                backoff,
            ),
        };
        proof {
            law_each_request_is_paid_for(before, answer, backoff);
        }
        action
    }
}

/// Every further request takes one from what the visit has left. Nothing is ever
/// given back, and the limits stay as they were.
pub proof fn law_each_request_is_paid_for(
    visit: ProviderAttemptView,
    event: AttemptEventView,
    backoff: Backoffs,
)
    requires
        visit.wf(),
    ensures
        visit.step(event, backoff).0.wf(),
        visit.step(event, backoff).0.limits == visit.limits,
        visit.step(event, backoff).0.labels == visit.labels,
        visit.step(event, backoff).1 is Retry ==> visit.step(event, backoff).0.requests_left()
            == visit.requests_left() - 1,
        !(visit.step(event, backoff).1 is Retry) ==> visit.step(event, backoff).0 == visit,
{
}

/// The event tells of another request of a visit with these labels.
pub open spec fn is_notice_of(event: AgentEventView, labels: AttemptLabelsView) -> bool {
    event matches AgentEventView::Retrying(notice) && {
        &&& notice.provider == labels.fingerprint
        &&& notice.label == Some(labels.fingerprint)
        &&& notice.provider_id == Some(labels.provider_id)
        &&& notice.pool_id == Some(labels.pool_id)
        &&& notice.workload == Some(labels.workload)
        &&& notice.operation_id == Some(labels.operation_id)
    }
}

/// All that the observer is told of a visit's further requests bears the labels of
/// the visit, whatever the answers.
pub proof fn law_notices_bear_the_labels(
    visit: ProviderAttemptView,
    answers: Seq<(AttemptEventView, Backoffs)>,
)
    ensures
        forall|i: int|
            0 <= i < visit.notices(answers).len() ==> is_notice_of(
                #[trigger] visit.notices(answers)[i],
                visit.labels,
            ),
    decreases answers.len(),
{
    if answers.len() > 0 {
        let (next, action) = visit.step(answers[0].0, answers[0].1);
        law_notices_bear_the_labels(next, answers.drop_first());
        let rest = next.notices(answers.drop_first());
        if let AttemptActionView::Retry { notice, wait, skip } = action {
            assert(next.labels == visit.labels);
            if notice is None {
                assert(visit.notices(answers) == rest);
            }
            if let Some(event) = notice {
                assert(visit.notices(answers) == seq![event] + rest);
                assert forall|i: int| 0 <= i < visit.notices(answers).len() implies is_notice_of(
                    #[trigger] visit.notices(answers)[i],
                    visit.labels,
                ) by {
                    if i > 0 {
                        assert(visit.notices(answers)[i] == rest[i - 1]);
                    }
                }
            }
        }
    }
}

/// A visit sends no more requests than its budgets allow, whatever the answers.
pub proof fn law_requests_are_bounded(
    visit: ProviderAttemptView,
    answers: Seq<(AttemptEventView, Backoffs)>,
)
    requires
        visit.wf(),
        visit.keeps_asking(answers),
    ensures
        answers.len() <= visit.requests_left(),
    decreases answers.len(),
{
    if answers.len() > 0 {
        law_each_request_is_paid_for(visit, answers[0].0, answers[0].1);
        let next = visit.step(answers[0].0, answers[0].1).0;
        law_requests_are_bounded(next, answers.drop_first());
    }
}

/// At first a visit has its retries, its resamplings and one continuation left.
pub proof fn law_budget_of_a_visit(
    limits: AttemptLimits,
    labels: AttemptLabelsView,
    req: ConversationRequestView,
)
    ensures
        ProviderAttemptView::first(limits, labels, req).requests_left() == limits.retry_budget()
            + limits.doom_loop_max_retries + 1,
{
}

/// A vetoed request is neither sent again nor sent to another provider.
pub proof fn law_veto_ends_the_visit(
    visit: ProviderAttemptView,
    error: EngineErrorView,
    message: Seq<char>,
    signals: FailureSignals,
    backoff: Backoffs,
)
    requires
        failure::vetoes(error, signals),
    ensures
        visit.step(AttemptEventView::RequestFailed { error, message, signals }, backoff).1
            == AttemptActionView::Fail(ProviderAttemptErrorView::Veto(error)),
{
}

/// Only where other providers may take over does a visit hand on to one. Where they
/// may, empty answers end the operation only if something was shown on the way.
pub proof fn law_failover_needs_a_chain(
    visit: ProviderAttemptView,
    event: AttemptEventView,
    backoff: Backoffs,
)
    ensures
        (visit.step(event, backoff).1 matches AttemptActionView::Fail(error) && error is Failover)
            ==> visit.limits.chain_mode,
        (visit.step(event, backoff).1 matches AttemptActionView::Fail(error) && error
            is EmptyExhausted) ==> !visit.limits.chain_mode || event.has_shown(),
{
}

/// A stream that breaks off ends the visit with its own error, unless the server
/// found the model looping before anything was shown.
pub proof fn law_broken_stream_is_terminal(
    visit: ProviderAttemptView,
    error: EngineErrorView,
    shown: bool,
    backoff: Backoffs,
)
    requires
        shown || !(error is DoomLoopServer),
    ensures
        visit.step(AttemptEventView::StreamFailed { error, shown }, backoff).1
            == AttemptActionView::Fail(
            if error is DoomLoopServer {
                ProviderAttemptErrorView::DoomLoop(error)
            } else {
                ProviderAttemptErrorView::Terminal(error)
            },
        ),
{
}

/// Once text or reasoning of a request's stream has been shown, nothing but silence
/// leads to another request, here or at another provider. So no delta is shown
/// twice.
pub proof fn law_shown_is_not_asked_for_again(
    visit: ProviderAttemptView,
    event: AttemptEventView,
    backoff: Backoffs,
)
    requires
        event.has_shown(),
        !(event is IdleTimeout),
    ensures
        !(visit.step(event, backoff).1 is Retry),
        !(visit.step(event, backoff).1 matches AttemptActionView::Fail(error) && error
            is Failover),
{
}

/// Apart from a stream that went silent, only a request without a stream, a turn
/// that said nothing and a loop that the server found before anything was shown lead
/// to another request, here or at another provider.
pub proof fn law_answers_are_not_asked_for_again(
    visit: ProviderAttemptView,
    event: AttemptEventView,
    backoff: Backoffs,
)
    ensures
        ({
            let action = visit.step(event, backoff).1;
            action is Retry || (action matches AttemptActionView::Fail(error) && error
                is Failover) ==> match event {
                AttemptEventView::Collected { turn, shown } => !shown && behind(
                    visit.prefix,
                    turn,
                ).is_empty(),
                AttemptEventView::IdleTimeout { partial, timeout } => true,
                AttemptEventView::StreamFailed { error, shown } => !shown && error
                    is DoomLoopServer,
                AttemptEventView::RequestFailed { error, message, signals } => true,
            }
        }),
{
}

/// A request that is sent again for another reason than silence is the same request:
/// where it continues a shown text it still does, and what the observer is to skip
/// stays as it is. Where a request without a stream goes to the next provider, so
/// does the text that it continued.
pub proof fn law_repeated_requests_keep_their_prefix(
    visit: ProviderAttemptView,
    event: AttemptEventView,
    backoff: Backoffs,
)
    requires
        !(event is IdleTimeout),
    ensures
        ({
            let (next, action) = visit.step(event, backoff);
            &&& next.live_req == visit.live_req
            &&& next.prefix == visit.prefix
            &&& action matches AttemptActionView::Retry { notice, wait, skip } ==> skip is None
            &&& event is RequestFailed ==> match action {
                AttemptActionView::Fail(
                    ProviderAttemptErrorView::Failover { error, cooldown_override, continue_from },
                ) => continue_from == visit.prefix,
                _ => true,
            }
        }),
{
}

/// A silent stream is continued on the same provider once, and never again.
pub proof fn law_continues_once(
    visit: ProviderAttemptView,
    event: AttemptEventView,
    backoff: Backoffs,
)
    ensures
        visit.continued_once ==> visit.step(event, backoff).0.continued_once,
        visit.continued_once && event is IdleTimeout ==> !(visit.step(event, backoff).1 is Retry),
        event is IdleTimeout && visit.step(event, backoff).1 is Retry ==> visit.step(
            event,
            backoff,
        ).0.continued_once,
{
}

/// Where another provider may take over, no pause that a provider asks for is
/// waited for beyond the cap.
pub proof fn law_long_pauses_go_to_the_next_provider(
    visit: ProviderAttemptView,
    error: EngineErrorView,
    message: Seq<char>,
    signals: FailureSignals,
    backoff: Backoffs,
)
    requires
        visit.limits.chain_mode,
        signals.class == RetryClass::RateLimited,
    ensures
        match visit.step(AttemptEventView::RequestFailed { error, message, signals }, backoff).1 {
            AttemptActionView::Retry { notice, wait, skip } => wait
                <= visit.limits.inline_pause_cap,
            _ => true,
        },
{
}

/// A provider that keeps failing in passing is asked until its budget is spent, and
/// no longer: one with others behind it `failover_max_attempts` times, one alone
/// once and `max_retries` times more.
pub proof fn law_passing_failures_use_the_budget(
    visit: ProviderAttemptView,
    error: EngineErrorView,
    message: Seq<char>,
    signals: FailureSignals,
    backoff: Backoffs,
)
    requires
        signals.class == RetryClass::Retry,
        !failure::vetoes(error, signals),
    ensures
        visit.step(AttemptEventView::RequestFailed { error, message, signals }, backoff).1
            is Retry <==> visit.attempt <= visit.limits.retry_budget(),
        visit.limits.chain_mode && visit.limits.failover_max_attempts > 0
            ==> visit.limits.retry_budget() == visit.limits.failover_max_attempts - 1,
        !visit.limits.chain_mode ==> visit.limits.retry_budget() == visit.limits.max_retries,
{
}

/// A provider that answers with nothing, and has shown nothing on the way, is asked
/// again within the same budget as any other of its chain, and then left for the
/// next; one alone fails.
pub proof fn law_empty_answers_use_the_budget(
    visit: ProviderAttemptView,
    turn: CollectedTurnView,
    backoff: Backoffs,
)
    requires
        behind(visit.prefix, turn).is_empty(),
    ensures
        ({
            let action = visit.step(
                AttemptEventView::Collected { turn, shown: false },
                backoff,
            ).1;
            &&& visit.attempt < visit.limits.empty_budget() <==> action is Retry
            &&& visit.limits.chain_mode && !(action is Retry) ==> action
                == AttemptActionView::Fail(
                ProviderAttemptErrorView::Failover {
                    error: EngineErrorView::EmptyResponse,
                    cooldown_override: None,
                    continue_from: None,
                },
            )
            &&& !visit.limits.chain_mode && !(action is Retry) ==> action
                == AttemptActionView::Fail(
                ProviderAttemptErrorView::EmptyExhausted(EngineErrorView::EmptyResponse),
            )
        }),
{
}

/// Text of a stream that went silent is not asked for again from the start: the
/// same provider continues it once, behind what was shown, and after that the next
/// provider gets it to continue.
pub proof fn law_silent_text_is_continued(
    visit: ProviderAttemptView,
    partial: CollectedTurnView,
    timeout: u128,
    backoff: Backoffs,
)
    requires
        continuation::continuable(behind(visit.prefix, partial)),
    ensures
        ({
            let whole = behind(visit.prefix, partial);
            let shown = ShownView { text: whole.text, reasoning: whole.reasoning };
            let (next, action) = visit.step(
                AttemptEventView::IdleTimeout { partial, timeout },
                backoff,
            );
            if !visit.continued_once {
                &&& action matches AttemptActionView::Retry { notice, wait, skip }
                    && skip == Some(shown)
                &&& next.prefix == Some(whole)
                &&& next.live_req.items == visit.live_req.items + (if whole.items.len() == 0 {
                    continuation::synthesized(whole)
                } else {
                    whole.items
                })
            } else {
                visit.limits.chain_mode ==> action == AttemptActionView::Fail(
                    ProviderAttemptErrorView::Failover {
                        error: EngineErrorView::StreamIdleTimeout(timeout),
                        cooldown_override: None,
                        continue_from: Some(whole),
                    },
                )
            }
        }),
{
    continuation::law_accepted_or_continued(behind(visit.prefix, partial));
}

// ── What each answer leads to ───────────────────────────────────────────

/// The request that a provider of a chain, or one alone, is not sent again after: the
/// one of this number, counted from 1.
pub open spec fn last_request(limits: AttemptLimits) -> int {
    if !limits.chain_mode {
        limits.max_retries + 1
    } else if limits.failover_max_attempts == 0 {
        1
    } else {
        limits.failover_max_attempts as int
    }
}

/// The event tells the observer of a visit that the request of this number follows
/// after a pause, and why.
pub open spec fn tells_of_request(
    event: AgentEventView,
    visit: ProviderAttemptView,
    number: int,
    wait: u128,
    reason: Seq<char>,
    class: FailureClass,
) -> bool {
    event matches AgentEventView::Retrying(notice) && {
        &&& is_notice_of(event, visit.labels)
        &&& notice.attempt == number
        &&& notice.wait_ms == (wait as int / 1_000_000) % 0x1_0000_0000_0000_0000
        &&& notice.reason == reason
        &&& notice.failure_class == Some(class)
        &&& !visit.limits.chain_mode && visit.limits.max_retries > 0 ==> notice.max_attempts
            == visit.limits.max_retries
        &&& visit.limits.chain_mode && visit.limits.failover_max_attempts > 0
            ==> notice.max_attempts == visit.limits.failover_max_attempts
        &&& !visit.limits.chain_mode && visit.limits.max_retries == 0 ==> notice.max_attempts == 1
        &&& visit.limits.chain_mode && visit.limits.failover_max_attempts == 0
            ==> notice.max_attempts == 1
    }
}

/// The failure of a visit goes to the next provider where there may be one, with the
/// pause that was asked for and with what is to be continued, and to the caller
/// otherwise.
pub open spec fn hands_on(
    action: AttemptActionView,
    chain_mode: bool,
    error: EngineErrorView,
    pause: Option<u128>,
    partial: Option<CollectedTurnView>,
) -> bool {
    match action {
        AttemptActionView::Fail(
            ProviderAttemptErrorView::Failover { error: told, cooldown_override, continue_from },
        ) => chain_mode && told == error && cooldown_override == pause && continue_from == partial,
        AttemptActionView::Fail(ProviderAttemptErrorView::Terminal(told)) => !chain_mode && told
            == error,
        _ => false,
    }
}

/// The whole of a turn is the turn itself in a visit that continues nothing, and
/// otherwise what the turn comes to behind the one that it continues.
pub proof fn law_only_continued_turns_are_merged(
    prefix: Option<CollectedTurnView>,
    turn: CollectedTurnView,
)
    ensures
        match prefix {
            Some(partial) => behind(prefix, turn) == continuation::continued_turn(partial, turn),
            None => behind(prefix, turn) == turn,
        },
{
}

/// A collected turn that says something or calls a tool, be it only a tool, is the
/// answer of the visit as it is, and the visit has no more to do.
pub proof fn law_text_or_calls_are_the_answer(
    visit: ProviderAttemptView,
    turn: CollectedTurnView,
    shown: bool,
    backoff: Backoffs,
)
    ensures
        ({
            let whole = match visit.prefix {
                Some(partial) => continuation::continued_turn(partial, turn),
                None => turn,
            };
            whole.text.len() > 0 || whole.tool_calls.len() > 0 ==> visit.step(
                AttemptEventView::Collected { turn, shown },
                backoff,
            ) == (visit, AttemptActionView::Finish(whole))
        }),
{
}

/// A turn that neither says anything nor calls a tool is never an answer. Where
/// nothing was shown it is asked for again as long as requests are left; a provider
/// alone gets one request less for that than for failures. What was shown ends the
/// visit.
pub proof fn law_empty_turns_are_no_answer(
    visit: ProviderAttemptView,
    turn: CollectedTurnView,
    shown: bool,
    backoff: Backoffs,
)
    requires
        visit.wf(),
        visit.prefix is None,
        turn.text.len() == 0,
        turn.tool_calls.len() == 0,
    ensures
        ({
            let (next, action) = visit.step(AttemptEventView::Collected { turn, shown }, backoff);
            let enough = if visit.limits.chain_mode {
                last_request(visit.limits)
            } else {
                last_request(visit.limits) - 1
            };
            if shown || (visit.attempt >= enough && !visit.limits.chain_mode) {
                &&& next == visit
                &&& action == AttemptActionView::Fail(
                    ProviderAttemptErrorView::EmptyExhausted(EngineErrorView::EmptyResponse),
                )
            } else if visit.attempt >= enough {
                next == visit && hands_on(action, true, EngineErrorView::EmptyResponse, None, None)
            } else {
                &&& next == (ProviderAttemptView { attempt: visit.attempt + 1, ..visit })
                &&& action matches AttemptActionView::Retry { notice: Some(notice), wait, skip } && {
                    &&& wait == backoff.retry
                    &&& skip is None
                    &&& tells_of_request(
                        notice,
                        visit,
                        visit.attempt + 1,
                        wait,
                        "empty"@,
                        FailureClass::EmptyResponse,
                    )
                }
            }
        }),
{
}

/// A stream that broke off ends the visit with its own error. A loop that the server
/// found before anything was shown is resampled without a word, after the pause for
/// loops, as often as the limits say; each time counts as a resampling and as a
/// request.
pub proof fn law_broken_streams_and_loops(
    visit: ProviderAttemptView,
    error: EngineErrorView,
    shown: bool,
    backoff: Backoffs,
)
    ensures
        ({
            let (next, action) = visit.step(
                AttemptEventView::StreamFailed { error, shown },
                backoff,
            );
            if error is DoomLoopServer && !shown && visit.doom_loop_retries
                < visit.limits.doom_loop_max_retries {
                &&& next == (ProviderAttemptView {
                    attempt: visit.attempt + 1,
                    doom_loop_retries: visit.doom_loop_retries + 1,
                    ..visit
                })
                &&& action == (AttemptActionView::Retry {
                    notice: None,
                    wait: backoff.doom_loop,
                    skip: None,
                })
            } else {
                &&& next == visit
                &&& action matches AttemptActionView::Fail(failure) && match failure {
                    ProviderAttemptErrorView::DoomLoop(told) => error is DoomLoopServer && told
                        == error,
                    ProviderAttemptErrorView::Terminal(told) => !(error is DoomLoopServer) && told
                        == error,
                    _ => false,
                }
            }
        }),
{
}

/// A failed request that nothing vetoes: one that asking again cannot mend is handed
/// on at once, one that failed in passing is sent again until the last request, and
/// one that was limited is sent again after the pause that was asked for, unless that
/// is too long, too many were limited, or it was the last. What the visit continues is
/// handed on with it.
pub proof fn law_failed_requests(
    visit: ProviderAttemptView,
    error: EngineErrorView,
    message: Seq<char>,
    signals: FailureSignals,
    backoff: Backoffs,
)
    requires
        visit.wf(),
        !failure::vetoes(error, signals),
    ensures
        ({
            let (next, action) = visit.step(
                AttemptEventView::RequestFailed { error, message, signals },
                backoff,
            );
            let limits = visit.limits;
            let is_last = visit.attempt >= last_request(limits);
            match signals.class {
                RetryClass::Fatal => next == visit && hands_on(
                    action,
                    limits.chain_mode,
                    error,
                    None,
                    visit.prefix,
                ),
                RetryClass::Retry => if is_last {
                    next == visit && hands_on(action, limits.chain_mode, error, None, visit.prefix)
                } else {
                    &&& next == (ProviderAttemptView { attempt: visit.attempt + 1, ..visit })
                    &&& action matches AttemptActionView::Retry { notice: Some(notice), wait, skip }
                        && {
                        &&& wait == backoff.retry
                        &&& skip is None
                        &&& tells_of_request(
                            notice,
                            visit,
                            visit.attempt + 1,
                            wait,
                            message,
                            failure::class_of(error, signals),
                        )
                    }
                },
                RetryClass::RateLimited => {
                    let pause = match failure::asked_pause(error, signals) {
                        Some(asked) => asked,
                        None => backoff.retry,
                    };
                    let is_long = limits.chain_mode && pause > limits.inline_pause_cap;
                    if is_last || is_long || visit.rate_limit_retries
                        >= limits.rate_limit_threshold {
                        next == visit && hands_on(
                            action,
                            limits.chain_mode,
                            error,
                            Some(pause),
                            visit.prefix,
                        )
                    } else {
                        &&& next == (ProviderAttemptView {
                            attempt: visit.attempt + 1,
                            rate_limit_retries: visit.rate_limit_retries + 1,
                            ..visit
                        })
                        &&& action matches AttemptActionView::Retry {
                            notice: Some(notice),
                            wait,
                            skip,
                        } && {
                            &&& wait == pause
                            &&& skip is None
                            &&& tells_of_request(
                                notice,
                                visit,
                                visit.attempt + 1,
                                wait,
                                "status=429"@,
                                FailureClass::RateLimited,
                            )
                        }
                    }
                },
            }
        }),
{
}

/// The turn calls a tool that the client runs, and the arguments of all such calls are
/// complete JSON.
pub open spec fn calls_can_run(turn: CollectedTurnView) -> bool {
    let calls = turn.tool_calls;
    &&& exists|i: int| 0 <= i < calls.len() && (#[trigger] calls[i]).kind != "server"@
    &&& forall|i: int|
        0 <= i < calls.len() && (#[trigger] calls[i]).kind != "server"@
            ==> crate::json::is_json_text(calls[i].function.arguments)
}

/// A stream that went silent: what it said so far is the answer where it calls tools
/// of the client and all their arguments are there; it is continued once, without a
/// pause and without counting as a request, where it is text alone; and otherwise the
/// silence is handed on, with the text where there is nothing but text.
pub proof fn law_silent_streams(
    visit: ProviderAttemptView,
    partial: CollectedTurnView,
    timeout: u128,
    backoff: Backoffs,
)
    requires
        visit.wf(),
    ensures
        ({
            let whole = match visit.prefix {
                Some(prefix) => continuation::continued_turn(prefix, partial),
                None => partial,
            };
            let is_hop = calls_can_run(whole);
            let is_text = crate::text::trimmed(whole.text).len() > 0 && whole.tool_calls.len()
                == 0;
            let (next, action) = visit.step(
                AttemptEventView::IdleTimeout { partial, timeout },
                backoff,
            );
            if is_hop {
                next == visit && action == AttemptActionView::Finish(whole)
            } else if is_text && !visit.continued_once {
                &&& next.continued_once
                &&& next.prefix == Some(whole)
                &&& next.attempt == visit.attempt
                &&& next.rate_limit_retries == visit.rate_limit_retries
                &&& next.doom_loop_retries == visit.doom_loop_retries
                &&& next.limits == visit.limits
                &&& next.labels == visit.labels
                &&& next.live_req == continuation::continued_request(visit.live_req, whole, true)
                &&& action matches AttemptActionView::Retry {
                    notice: Some(notice),
                    wait,
                    skip: Some(skip),
                } && {
                    &&& wait == 0
                    &&& skip.text == whole.text
                    &&& skip.reasoning == whole.reasoning
                    &&& tells_of_request(
                        notice,
                        visit,
                        visit.attempt,
                        0,
                        "idle-timeout-continue"@,
                        FailureClass::StreamIdle,
                    )
                }
            } else {
                next == visit && hands_on(
                    action,
                    visit.limits.chain_mode,
                    EngineErrorView::StreamIdleTimeout(timeout),
                    None,
                    if is_text {
                        Some(whole)
                    } else {
                        None
                    },
                )
            }
        }),
{
    let whole = behind(visit.prefix, partial);
    let calls = whole.tool_calls;
    if continuation::acceptable(whole) {
        assert forall|i: int| 0 <= i < calls.len() && (#[trigger] calls[i]).kind
            != "server"@ implies crate::json::is_json_text(calls[i].function.arguments) by {
            assert(!continuation::unfinished(calls[i]));
        }
    }
    if calls_can_run(whole) {
        let i = choose|i: int| 0 <= i < calls.len() && (#[trigger] calls[i]).kind != "server"@;
        assert(!continuation::runs_on_server(calls[i]));
    }
    assert(continuation::acceptable(whole) == calls_can_run(whole));
}

/// A visit begins with its first request, with nothing used up and nothing to
/// continue.
pub proof fn law_visits_begin_afresh(
    limits: AttemptLimits,
    labels: AttemptLabelsView,
    req: ConversationRequestView,
)
    ensures
        ({
            let visit = ProviderAttemptView::first(limits, labels, req);
            &&& visit.attempt == 1
            &&& visit.rate_limit_retries == 0
            &&& visit.doom_loop_retries == 0
            &&& visit.live_req == req
            &&& !visit.continued_once
            &&& visit.prefix is None
            &&& visit.limits == limits
            &&& visit.labels == labels
        }),
{
}

/// What the views of these values show is what the values hold, field by field.
pub proof fn law_views_leave_nothing_out(
    attempt_labels: AttemptLabels,
    attempt_event: AttemptEvent,
    provider_attempt_error: ProviderAttemptError,
    shown: Shown,
    attempt_action: AttemptAction,
    provider_attempt: ProviderAttempt,
)
    ensures
        ({
            let held = attempt_labels.deep_view();
            &&& held.fingerprint == attempt_labels.fingerprint@
            &&& held.provider_id == attempt_labels.provider_id@
            &&& held.pool_id == attempt_labels.pool_id@
            &&& held.workload == attempt_labels.workload
            &&& held.operation_id == attempt_labels.operation_id@
        }),
        match attempt_event {
            AttemptEvent::Collected { turn, shown } => attempt_event.deep_view()
                == (AttemptEventView::Collected {
                turn: turn.deep_view(),
                shown: shown,
            }),
            AttemptEvent::IdleTimeout { partial, timeout } => attempt_event.deep_view()
                == (AttemptEventView::IdleTimeout {
                partial: partial.deep_view(),
                timeout: timeout,
            }),
            AttemptEvent::StreamFailed { error, shown } => attempt_event.deep_view()
                == (AttemptEventView::StreamFailed {
                error: error.deep_view(),
                shown: shown,
            }),
            AttemptEvent::RequestFailed {
                error,
                message,
                signals,
            } => attempt_event.deep_view() == (AttemptEventView::RequestFailed {
                error: error.deep_view(),
                message: message@,
                signals: signals,
            }),
        },
        match provider_attempt_error {
            ProviderAttemptError::Failover {
                error,
                cooldown_override,
                continue_from,
            } => provider_attempt_error.deep_view() == (ProviderAttemptErrorView::Failover {
                error: error.deep_view(),
                cooldown_override: cooldown_override.deep_view(),
                continue_from: continue_from.deep_view(),
            }),
            ProviderAttemptError::Veto(a) => provider_attempt_error.deep_view()
                == ProviderAttemptErrorView::Veto(a.deep_view()),
            ProviderAttemptError::EmptyExhausted(a) => provider_attempt_error.deep_view()
                == ProviderAttemptErrorView::EmptyExhausted(
                a.deep_view(),
            ),
            ProviderAttemptError::DoomLoop(a) => provider_attempt_error.deep_view()
                == ProviderAttemptErrorView::DoomLoop(a.deep_view()),
            ProviderAttemptError::Terminal(a) => provider_attempt_error.deep_view()
                == ProviderAttemptErrorView::Terminal(a.deep_view()),
        },
        ({
            let held = shown.deep_view();
            &&& held.text == shown.text@
            &&& held.reasoning == shown.reasoning@
        }),
        match attempt_action {
            AttemptAction::Finish(a) => attempt_action.deep_view()
                == AttemptActionView::Finish(a.deep_view()),
            AttemptAction::Fail(a) => attempt_action.deep_view()
                == AttemptActionView::Fail(a.deep_view()),
            AttemptAction::Retry { notice, wait, skip } => attempt_action.deep_view()
                == (AttemptActionView::Retry {
                notice: notice.deep_view(),
                wait: wait,
                skip: skip.deep_view(),
            }),
        },
        ({
            let held = provider_attempt.deep_view();
            &&& held.limits == provider_attempt.limits
            &&& held.labels == provider_attempt.labels.deep_view()
            &&& held.attempt == provider_attempt.attempt as int
            &&& held.rate_limit_retries == provider_attempt.rate_limit_retries as int
            &&& held.doom_loop_retries == provider_attempt.doom_loop_retries as int
            &&& held.live_req == provider_attempt.live_req.deep_view()
            &&& held.continued_once == provider_attempt.continued_once
            &&& held.prefix == provider_attempt.prefix.deep_view()
        }),
{
}

} // verus!
