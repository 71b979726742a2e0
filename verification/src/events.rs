//! Events that an observer of a turn is told.
use vstd::prelude::*;

verus! {

/// What a client is used for.
#[derive(Debug, Clone, Copy, PartialEq, Eq, Structural)]
pub enum Workload {
    Main,
    Subagent,
    OneShot,
}

/// Why a visit of a provider failed.
#[derive(Debug, Clone, Copy, PartialEq, Eq, Structural)]
pub enum FailureClass {
    /// The provider asked for a pause.
    RateLimited,
    /// The provider was not reached.
    Connection,
    /// The provider answered with a passing failure.
    RetryableHttp,
    /// The provider refused for good.
    Fatal,
    /// The stream went silent.
    StreamIdle,
    /// The answer was empty.
    EmptyResponse,
    /// Anything else.
    Other,
}

impl DeepView for Workload {
    type V = Workload;

    open spec fn deep_view(&self) -> Workload {
        *self
    }
}

impl DeepView for FailureClass {
    type V = FailureClass;

    open spec fn deep_view(&self) -> FailureClass {
        *self
    }
}

/// A provider is asked once more.
#[derive(Debug, PartialEq, Eq)]
pub struct RetryNotice {
    /// The label of the provider.
    pub provider: String,
    pub attempt: u32,
    pub max_attempts: u32,
    pub wait_ms: u64,
    pub reason: String,
    pub provider_id: Option<String>,
    pub pool_id: Option<String>,
    pub workload: Option<Workload>,
    pub operation_id: Option<String>,
    pub failure_class: Option<FailureClass>,
    pub label: Option<String>,
}

/// What a [`RetryNotice`] holds.
#[verifier::ext_equal]
pub struct RetryNoticeView {
    pub provider: Seq<char>,
    pub attempt: u32,
    pub max_attempts: u32,
    pub wait_ms: u64,
    pub reason: Seq<char>,
    pub provider_id: Option<Seq<char>>,
    pub pool_id: Option<Seq<char>>,
    pub workload: Option<Workload>,
    pub operation_id: Option<Seq<char>>,
    pub failure_class: Option<FailureClass>,
    pub label: Option<Seq<char>>,
}

impl DeepView for RetryNotice {
    type V = RetryNoticeView;

    open spec fn deep_view(&self) -> RetryNoticeView {
        RetryNoticeView {
            provider: self.provider@,
            attempt: self.attempt,
            max_attempts: self.max_attempts,
            wait_ms: self.wait_ms,
            reason: self.reason@,
            provider_id: self.provider_id.deep_view(),
            pool_id: self.pool_id.deep_view(),
            workload: self.workload.deep_view(),
            operation_id: self.operation_id.deep_view(),
            failure_class: self.failure_class.deep_view(),
            label: self.label.deep_view(),
        }
    }
}

impl Clone for RetryNotice {
    fn clone(&self) -> (out: RetryNotice)
        ensures
            out.deep_view() == self.deep_view(),
    {
        RetryNotice {
            provider: self.provider.clone(),
            attempt: self.attempt,
            max_attempts: self.max_attempts,
            wait_ms: self.wait_ms,
            reason: self.reason.clone(),
            provider_id: self.provider_id.clone(),
            pool_id: self.pool_id.clone(),
            workload: self.workload.clone(),
            operation_id: self.operation_id.clone(),
            failure_class: self.failure_class.clone(),
            label: self.label.clone(),
        }
    }
}

/// The next provider takes over.
#[derive(Debug, PartialEq, Eq)]
pub struct SwitchNotice {
    /// The label of the provider that failed.
    pub from: String,
    /// The label of the provider that is visited next.
    pub to: String,
    pub reason: String,
    pub cooldown_ms: u64,
    pub from_provider_id: Option<String>,
    pub to_provider_id: Option<String>,
    pub pool_id: Option<String>,
    pub workload: Option<Workload>,
    pub operation_id: Option<String>,
    pub failure_class: Option<FailureClass>,
    pub from_label: Option<String>,
    pub to_label: Option<String>,
}

/// What a [`SwitchNotice`] holds.
#[verifier::ext_equal]
pub struct SwitchNoticeView {
    pub from: Seq<char>,
    pub to: Seq<char>,
    pub reason: Seq<char>,
    pub cooldown_ms: u64,
    pub from_provider_id: Option<Seq<char>>,
    pub to_provider_id: Option<Seq<char>>,
    pub pool_id: Option<Seq<char>>,
    pub workload: Option<Workload>,
    pub operation_id: Option<Seq<char>>,
    pub failure_class: Option<FailureClass>,
    pub from_label: Option<Seq<char>>,
    pub to_label: Option<Seq<char>>,
}

impl DeepView for SwitchNotice {
    type V = SwitchNoticeView;

    open spec fn deep_view(&self) -> SwitchNoticeView {
        SwitchNoticeView {
            from: self.from@,
            to: self.to@,
            reason: self.reason@,
            cooldown_ms: self.cooldown_ms,
            from_provider_id: self.from_provider_id.deep_view(),
            to_provider_id: self.to_provider_id.deep_view(),
            pool_id: self.pool_id.deep_view(),
            workload: self.workload.deep_view(),
            operation_id: self.operation_id.deep_view(),
            failure_class: self.failure_class.deep_view(),
            from_label: self.from_label.deep_view(),
            to_label: self.to_label.deep_view(),
        }
    }
}

impl Clone for SwitchNotice {
    fn clone(&self) -> (out: SwitchNotice)
        ensures
            out.deep_view() == self.deep_view(),
    {
        SwitchNotice {
            from: self.from.clone(),
            to: self.to.clone(),
            reason: self.reason.clone(),
            cooldown_ms: self.cooldown_ms,
            from_provider_id: self.from_provider_id.clone(),
            to_provider_id: self.to_provider_id.clone(),
            pool_id: self.pool_id.clone(),
            workload: self.workload.clone(),
            operation_id: self.operation_id.clone(),
            failure_class: self.failure_class.clone(),
            from_label: self.from_label.clone(),
            to_label: self.to_label.clone(),
        }
    }
}

/// What an observer is told.
#[derive(Debug, PartialEq, Eq)]
pub enum AgentEvent {
    /// The model says more.
    TextDelta { text: String },
    /// The model thinks more.
    ReasoningDelta { text: String },
    Retrying(RetryNotice),
    ProviderSwitched(SwitchNotice),
    /// Any other event, in its JSON form.
    Other(String),
}

/// What a [`AgentEvent`] holds.
#[verifier::ext_equal]
pub enum AgentEventView {
    TextDelta { text: Seq<char> },
    ReasoningDelta { text: Seq<char> },
    Retrying(RetryNoticeView),
    ProviderSwitched(SwitchNoticeView),
    Other(Seq<char>),
}

impl DeepView for AgentEvent {
    type V = AgentEventView;

    open spec fn deep_view(&self) -> AgentEventView {
        match *self {
            AgentEvent::TextDelta { text } => AgentEventView::TextDelta { text: text@ },
            AgentEvent::ReasoningDelta { text } => AgentEventView::ReasoningDelta { text: text@ },
            AgentEvent::Retrying(a) => AgentEventView::Retrying(a.deep_view()),
            AgentEvent::ProviderSwitched(a) => AgentEventView::ProviderSwitched(a.deep_view()),
            AgentEvent::Other(a) => AgentEventView::Other(a@),
        }
    }
}

impl Clone for AgentEvent {
    fn clone(&self) -> (out: AgentEvent)
        ensures
            out.deep_view() == self.deep_view(),
    {
        match self {
            AgentEvent::TextDelta { text } => AgentEvent::TextDelta { text: text.clone() },
            AgentEvent::ReasoningDelta { text } => AgentEvent::ReasoningDelta {
                text: text.clone(),
            },
            AgentEvent::Retrying(a) => AgentEvent::Retrying(a.clone()),
            AgentEvent::ProviderSwitched(a) => AgentEvent::ProviderSwitched(a.clone()),
            AgentEvent::Other(a) => AgentEvent::Other(a.clone()),
        }
    }
}

/// Nanoseconds as whole milliseconds, as far as 64 bits hold them.
pub open spec fn millis_of(nanos: u128) -> int {
    (nanos as int / 1_000_000) % 0x1_0000_0000_0000_0000
}

/// Nanoseconds as whole milliseconds, as far as 64 bits hold them.
pub fn millis(nanos: u128) -> (ms: u64)
    ensures
        ms == millis_of(nanos),
{
    let whole: u128 = nanos / 1_000_000;
    (whole % 0x1_0000_0000_0000_0000) as u64
}

/// A whole number of milliseconds, and any part of one more, is that number of
/// milliseconds.
pub proof fn law_milliseconds_are_whole(ms: u64, rest: u128)
    requires
        rest < 1_000_000,
    ensures
        millis_of((ms as u128 * 1_000_000 + rest) as u128) == ms,
{
    let nanos = ms as int * 1_000_000 + rest as int;
    assert(ms as int * 1_000_000 + rest as int <= u128::MAX) by (nonlinear_arith)
        requires
            ms <= u64::MAX,
            rest < 1_000_000,
    ;
    assert(nanos / 1_000_000 == ms) by (nonlinear_arith)
        requires
            nanos == ms as int * 1_000_000 + rest as int,
            0 <= rest < 1_000_000,
    ;
}

/// What the views of these values show is what the values hold, field by field.
pub proof fn law_views_leave_nothing_out(
    retry_notice: RetryNotice,
    switch_notice: SwitchNotice,
    agent_event: AgentEvent,
)
    ensures
        ({
            let held = retry_notice.deep_view();
            &&& held.provider == retry_notice.provider@
            &&& held.attempt == retry_notice.attempt
            &&& held.max_attempts == retry_notice.max_attempts
            &&& held.wait_ms == retry_notice.wait_ms
            &&& held.reason == retry_notice.reason@
            &&& held.provider_id == retry_notice.provider_id.deep_view()
            &&& held.pool_id == retry_notice.pool_id.deep_view()
            &&& held.workload == retry_notice.workload.deep_view()
            &&& held.operation_id == retry_notice.operation_id.deep_view()
            &&& held.failure_class == retry_notice.failure_class.deep_view()
            &&& held.label == retry_notice.label.deep_view()
        }),
        ({
            let held = switch_notice.deep_view();
            &&& held.from == switch_notice.from@
            &&& held.to == switch_notice.to@
            &&& held.reason == switch_notice.reason@
            &&& held.cooldown_ms == switch_notice.cooldown_ms
            &&& held.from_provider_id == switch_notice.from_provider_id.deep_view()
            &&& held.to_provider_id == switch_notice.to_provider_id.deep_view()
            &&& held.pool_id == switch_notice.pool_id.deep_view()
            &&& held.workload == switch_notice.workload.deep_view()
            &&& held.operation_id == switch_notice.operation_id.deep_view()
            &&& held.failure_class == switch_notice.failure_class.deep_view()
            &&& held.from_label == switch_notice.from_label.deep_view()
            &&& held.to_label == switch_notice.to_label.deep_view()
        }),
        match agent_event {
            AgentEvent::TextDelta { text } => agent_event.deep_view()
                == (AgentEventView::TextDelta { text: text@ }),
            AgentEvent::ReasoningDelta { text } => agent_event.deep_view()
                == (AgentEventView::ReasoningDelta { text: text@ }),
            AgentEvent::Retrying(a) => agent_event.deep_view()
                == AgentEventView::Retrying(a.deep_view()),
            AgentEvent::ProviderSwitched(a) => agent_event.deep_view()
                == AgentEventView::ProviderSwitched(a.deep_view()),
            AgentEvent::Other(a) => agent_event.deep_view() == AgentEventView::Other(a@),
        },
{
}

} // verus!
