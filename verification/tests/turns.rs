use phone_buddy::attempt::{
    AttemptAction, AttemptEvent, AttemptLabels, AttemptLimits, Backoffs, ProviderAttempt,
    ProviderAttemptError,
};
use phone_buddy::client::{
    CaptureStep, CapturedOperation, LlmClient, NamedTransport, RoutingSnapshot, VisitPlan,
};
use phone_buddy::context::LlmTurnContext;
use phone_buddy::continuation::{
    can_prefix_continue, merge_continued_items, merge_continued_turn, merge_reasoning_items,
    prefix_continue_request, should_accept_partial_as_complete, skip_prefix_chunk,
    synthesize_partial_items, PrefixSkippingObserver,
};
use phone_buddy::error::EngineError;
use phone_buddy::events::{millis, AgentEvent, FailureClass, Workload};
use phone_buddy::failure::{
    asked_seconds, failure_class_of, is_veto, retry_after_from_error, FailureSignals, RetryClass,
};
use phone_buddy::json::{parse_json, Json};
use phone_buddy::operation::{
    new_operation_id, provider_budget, transport_timeout, visit_timed_out, Operation,
    OperationAction,
};
use phone_buddy::slots::{LlmRoutingConfig, RetryPolicy, SyntheticRouting};
use phone_buddy::types::{
    AssistantItem, BackendToolCallItem, ChatMessage, CollectedTurn, ConversationItem,
    ConversationRequest, ReasoningItem, ToolCall, ToolCallFunction,
};

const SECOND: u128 = 1_000_000_000;

fn req() -> ConversationRequest {
    ConversationRequest {
        model: "m".into(),
        items: vec![ConversationItem::user("hi")],
        stream: Some(true),
        tools: None,
        tool_choice: None,
        temperature: None,
        max_tokens: None,
        reasoning_effort: None,
        hosted_tools: Vec::new(),
        previous_response_id: None,
        response_format: None,
    }
}

fn turn(text: &str) -> CollectedTurn {
    CollectedTurn {
        items: vec![],
        text: text.into(),
        reasoning: String::new(),
        reasoning_items: vec![],
        encrypted_reasoning: None,
        tool_calls: vec![],
        finish_reason: None,
        usage: None,
        model: String::new(),
        response_id: None,
        final_output: None,
        provider_id: String::new(),
        operation_id: String::new(),
        attempts: 0,
    }
}

fn call(kind: &str, arguments: &str) -> ToolCall {
    ToolCall {
        id: "c1".into(),
        kind: kind.into(),
        function: ToolCallFunction {
            name: "web_search".into(),
            arguments: arguments.into(),
            wire_arguments: arguments.into(),
        },
        thought_signature: None,
    }
}

fn reasoning(id: &str, encrypted: Option<&str>) -> ReasoningItem {
    ReasoningItem {
        id: id.into(),
        summary: Vec::new(),
        content: None,
        encrypted_content: encrypted.map(String::from),
        status: None,
    }
}

fn status_of(message: &str) -> Option<u16> {
    let rest = &message[message.find("status=")? + 7..];
    rest.split_whitespace().next()?.parse().ok()
}

fn signals(error: &EngineError) -> FailureSignals {
    let message = match error {
        EngineError::Llm(message) => message.as_str(),
        _ => "",
    };
    let status = status_of(message);
    let class = match status {
        None => RetryClass::Retry,
        Some(429) => RetryClass::RateLimited,
        Some(s) if s >= 500 => RetryClass::Retry,
        Some(_) => RetryClass::Fatal,
    };
    FailureSignals {
        class,
        status,
        message_vetoes: message.contains("context length"),
        retry_after: asked_seconds(error).map(|secs| secs as u128 * SECOND),
    }
}

/// What a provider does on each request.
enum Script {
    /// Fails this often with this error, then answers "ok".
    Failing(u32, &'static str),
    /// Answers with nothing.
    Empty,
    /// Says a text, then goes silent; from the given request on it answers "world".
    IdleAfter(CollectedTurn, u32),
    /// Says a text, then the server finds the model looping.
    LoopingAfter(&'static str),
    /// Thinks, then ends without a word.
    EmptyAfter(&'static str),
}

impl Script {
    fn answer(&self, hit: u32) -> AttemptEvent {
        match self {
            Script::Failing(fails, error) if hit <= *fails => {
                let error = EngineError::Llm(error.to_string());
                let signals = signals(&error);
                AttemptEvent::RequestFailed { error, message: "shown".into(), signals }
            }
            Script::Failing(..) => collected(turn("ok")),
            Script::Empty => collected(turn("")),
            Script::IdleAfter(partial, until) if hit < *until => {
                AttemptEvent::IdleTimeout { partial: partial.clone(), timeout: 120 * SECOND }
            }
            Script::IdleAfter(..) => collected(turn("world")),
            Script::LoopingAfter(_) => looping(false),
            Script::EmptyAfter(thought) => {
                let mut empty = turn("");
                empty.reasoning = thought.to_string();
                collected(empty)
            }
        }
    }

    /// What the stream said before this came of it.
    fn deltas(&self, event: &AttemptEvent) -> Vec<AgentEvent> {
        let (text, reasoning) = match (self, event) {
            (Script::LoopingAfter(said), _) => (said.to_string(), String::new()),
            (_, AttemptEvent::Collected { turn: t, .. })
            | (_, AttemptEvent::IdleTimeout { partial: t, .. }) => {
                (t.text.clone(), t.reasoning.clone())
            }
            _ => Default::default(),
        };
        vec![AgentEvent::ReasoningDelta { text: reasoning }, AgentEvent::TextDelta { text }]
    }
}

fn collected(turn: CollectedTurn) -> AttemptEvent {
    AttemptEvent::Collected { turn, shown: false }
}

fn looping(shown: bool) -> AttemptEvent {
    AttemptEvent::StreamFailed { error: EngineError::DoomLoopServer("repeat".into()), shown }
}

fn with_shown(event: AttemptEvent, shown: bool) -> AttemptEvent {
    match event {
        AttemptEvent::Collected { turn, .. } => AttemptEvent::Collected { turn, shown },
        AttemptEvent::StreamFailed { error, .. } => AttemptEvent::StreamFailed { error, shown },
        other => other,
    }
}

struct Run {
    result: Result<CollectedTurn, EngineError>,
    hits: Vec<u32>,
    events: Vec<AgentEvent>,
    requests: Vec<ConversationRequest>,
    trips: Vec<(String, FailureClass)>,
    success: Option<String>,
}

impl Run {
    fn switches(&self) -> Vec<(String, String)> {
        self.events
            .iter()
            .filter_map(|e| match e {
                AgentEvent::ProviderSwitched(n) => Some((n.from.clone(), n.to.clone())),
                _ => None,
            })
            .collect()
    }

    fn texts(&self) -> Vec<String> {
        self.events
            .iter()
            .filter_map(|e| match e {
                AgentEvent::TextDelta { text } => Some(text.clone()),
                _ => None,
            })
            .collect()
    }
}

fn made(max_retries: u32, failover_max_attempts: u32) -> SyntheticRouting {
    SyntheticRouting {
        max_retries,
        failover_max_attempts,
        cooldown_secs: 120,
        routing_group: "default".into(),
        base_score: 100,
        client_profile: "default".into(),
    }
}

fn plan_of(config: &LlmRoutingConfig, ids: Vec<String>) -> VisitPlan {
    let pool = &config.pools[0].pool;
    VisitPlan {
        generation: 0,
        chain_mode: pool.members.len() > 1,
        provider_ids: ids,
        retry: RetryPolicy {
            failover_max_attempts: pool.retry.failover_max_attempts,
            max_retries: pool.retry.max_retries,
        },
    }
}

fn capture(client: &mut LlmClient, config: LlmRoutingConfig, ids: Vec<String>) -> CaptureStep {
    let plan = plan_of(&config, ids);
    let snapshot = RoutingSnapshot { generation: 0, config, failures: vec![] };
    client.capture_operation(0, plan, &snapshot)
}

fn members_of(config: &LlmRoutingConfig) -> Vec<String> {
    config.pools[0].pool.members.iter().map(|m| m.provider_id.clone()).collect()
}

/// Runs an operation that visits all members to its end.
fn complete(client: &mut LlmClient, config: LlmRoutingConfig, scripts: &[Script]) -> Run {
    let ids = members_of(&config);
    let hits = vec![0; ids.len()];
    complete_after(client, config, ids, scripts, hits)
}

/// Runs an operation that visits some members to its end, after earlier requests.
fn complete_after(
    client: &mut LlmClient,
    config: LlmRoutingConfig,
    plan: Vec<String>,
    scripts: &[Script],
    hits: Vec<u32>,
) -> Run {
    let ids = members_of(&config);
    let CaptureStep::Captured(captured) = capture(client, config, plan) else {
        panic!("expected a captured operation");
    };
    run(client, captured, &ids, scripts, hits)
}

fn run(
    client: &mut LlmClient,
    captured: CapturedOperation,
    ids: &[String],
    scripts: &[Script],
    hits: Vec<u32>,
) -> Run {
    let chain_mode = captured.plan.chain_mode;
    let retry = captured.plan.retry;
    let mut operation = Operation::start(client.pool_id(), client.workload(), &req(), captured);
    let mut skipper = PrefixSkippingObserver::new();
    let mut out = Run {
        result: Err(EngineError::Other("not run".into())),
        hits,
        events: vec![],
        requests: vec![],
        trips: vec![],
        success: None,
    };
    loop {
        let visit = match operation.begin_visit(vec![]) {
            Ok(visit) => visit,
            Err(error) => {
                out.result = Err(error);
                return out;
            }
        };
        skipper.begin_visit();
        if let Some(skip) = &visit.skip {
            skipper.set_skip(&skip.text, &skip.reasoning);
        }
        let slot = operation.current_slot().unwrap().clone();
        let limits = AttemptLimits {
            chain_mode,
            max_retries: retry.max_retries,
            failover_max_attempts: retry.failover_max_attempts,
            doom_loop_max_retries: client.doom_loop_max_retries,
            rate_limit_threshold: 5,
            inline_pause_cap: 30 * SECOND,
        };
        assert!(limits.is_countable());
        let labels = operation.labels().unwrap();
        let mut attempt = ProviderAttempt::new(limits, labels, &visit.request);
        let which = ids.iter().position(|id| *id == visit.provider_id).unwrap();
        let failure = loop {
            out.hits[which] += 1;
            out.requests.push(attempt.live_req.clone());
            skipper.begin_request();
            let answer = scripts[which].answer(out.hits[which]);
            for delta in scripts[which].deltas(&answer) {
                out.events.extend(skipper.on_event(delta));
            }
            let answer = with_shown(answer, skipper.streamed);
            let backoff = Backoffs { retry: SECOND, doom_loop: 2 * SECOND };
            match attempt.on_event(answer, backoff) {
                AttemptAction::Finish(turn) => {
                    out.result = Ok(operation.on_success(turn));
                    client.record_success(&slot);
                    out.success = Some(visit.provider_id.clone());
                    return out;
                }
                AttemptAction::Fail(error) => break error,
                AttemptAction::Retry { notice, skip, .. } => {
                    if let Some(skip) = skip {
                        skipper.set_skip(&skip.text, &skip.reasoning);
                    }
                    for event in notice {
                        out.events.extend(skipper.on_event(event));
                    }
                }
            }
        };
        let read = match &failure {
            ProviderAttemptError::Failover { error, .. } => signals(error),
            _ => FailureSignals {
                class: RetryClass::Fatal,
                status: None,
                message_vetoes: false,
                retry_after: None,
            },
        };
        match operation.on_failure(failure, read) {
            OperationAction::Failed(error) => {
                out.result = Err(error);
                return out;
            }
            OperationAction::Trip { provider_id, class, skip, .. } => {
                if let Some(skip) = skip {
                    skipper.set_skip(&skip.text, &skip.reasoning);
                }
                out.trips.push((provider_id, class));
                match operation.after_trip(class, 120 * SECOND, "shown") {
                    Ok(event) => out.events.extend(skipper.on_event(event)),
                    Err(error) => {
                        out.result = Err(error);
                        return out;
                    }
                }
            }
        }
    }
}

fn transport(fingerprint: &str) -> NamedTransport {
    NamedTransport { fingerprint: fingerprint.into(), model: "m".into() }
}

fn chain(fingerprints: &[&str], max_retries: u32) -> (LlmClient, LlmRoutingConfig) {
    let transports: Vec<NamedTransport> = fingerprints.iter().map(|f| transport(f)).collect();
    LlmClient::with_chain(&transports, &made(max_retries, 3), 2)
}

fn single(max_retries: u32) -> (LlmClient, LlmRoutingConfig) {
    LlmClient::new("p", &made(max_retries, 3), 2)
}

fn pair(from: &str, to: &str) -> (String, String) {
    (from.to_string(), to.to_string())
}

// ── Whole turns ─────────────────────────────────────────────────────────

#[test]
fn chain_fails_over_after_fast_fail_budget() {
    let (mut client, config) = chain(&["host-a/m", "host-b/m"], 5);
    let scripts = [Script::Failing(u32::MAX, "status=503 busy"), Script::Failing(0, "")];
    let run = complete(&mut client, config.clone(), &scripts);
    let turn = run.result.as_ref().unwrap();
    assert_eq!(turn.text, "ok");
    assert_eq!(run.hits, vec![3, 1]);
    assert_eq!((turn.provider_id.as_str(), turn.attempts), ("host-b/m", 2));
    assert!(run.events.iter().any(|e| matches!(e, AgentEvent::Retrying(_))));
    assert_eq!(run.switches(), vec![pair("host-a/m", "host-b/m")]);
    assert_eq!(run.trips, vec![("host-a/m".to_string(), FailureClass::RetryableHttp)]);
    assert_eq!(client.origin_fingerprint(), "host-b/m");

    // While A is cooling, the plan goes straight to B.
    let plan = vec!["host-b/m".to_string(), "host-a/m".to_string()];
    let again = complete_after(&mut client, config, plan, &scripts, run.hits);
    assert_eq!(again.result.unwrap().text, "ok");
    assert_eq!(again.hits, vec![3, 2]);
}

#[test]
fn fatal_401_fails_over_immediately() {
    let (mut client, config) = chain(&["host-a/m", "host-b/m"], 5);
    let scripts = [Script::Failing(u32::MAX, "status=401 unauthorized"), Script::Failing(0, "")];
    let run = complete(&mut client, config, &scripts);
    assert!(run.result.is_ok());
    assert_eq!(run.hits, vec![1, 1]);
    assert_eq!(run.switches().len(), 1);
}

#[test]
fn account_quota_never_cools_a_provider_and_recharge_recovers_immediately() {
    let (mut client, config) = chain(&["new-api-main"], 5);
    let scripts = [Script::Failing(
        1,
        r#"status=403 {"error":{"code":"insufficient_user_quota","message":"quota exhausted"}} [HTTP dump: /redacted]"#,
    )];
    let run = complete(&mut client, config.clone(), &scripts);
    let Err(EngineError::Llm(message)) = &run.result else {
        panic!("expected the provider's error");
    };
    assert!(message.contains("insufficient_user_quota"));
    assert_eq!(run.hits, vec![1]);
    assert!(run.trips.is_empty() && run.switches().is_empty());

    let plan = vec!["new-api-main".to_string()];
    let recharged = complete_after(&mut client, config, plan, &scripts, run.hits);
    assert_eq!(recharged.result.as_ref().unwrap().text, "ok");
    assert_eq!(recharged.hits, vec![2]);
    assert!(recharged.switches().is_empty());
}

#[test]
fn quota_veto_requires_the_exact_error_code_and_status() {
    for message in [
        r#"status=403 {"error":{"code":"upstream_error","message":"insufficient_user_quota"}}"#,
        r#"status=503 {"error":{"code":"insufficient_user_quota"}}"#,
        "status=403 insufficient_user_quota",
    ] {
        let error = EngineError::Llm(message.into());
        assert!(!is_veto(&error, &signals(&error)), "{message}");
    }
    let spent = EngineError::Llm(r#"status=403 {"error":{"code":"insufficient_user_quota"}} more"#.into());
    assert!(is_veto(&spent, &signals(&spent)));
    let other = EngineError::Stream(r#"status=403 {"error":{"code":"insufficient_user_quota"}}"#.into());
    let read = FailureSignals {
        class: RetryClass::Fatal,
        status: Some(403),
        message_vetoes: true,
        retry_after: None,
    };
    assert!(!is_veto(&other, &read));
}

#[test]
fn context_overflow_does_not_failover() {
    let (mut client, config) = chain(&["host-a/m", "host-b/m"], 5);
    let scripts = [
        Script::Failing(u32::MAX, "status=400 maximum context length exceeded"),
        Script::Failing(0, ""),
    ];
    let run = complete(&mut client, config, &scripts);
    let Err(EngineError::Llm(message)) = &run.result else {
        panic!("expected the provider's error");
    };
    assert!(message.contains("context length"));
    assert_eq!(run.hits, vec![1, 0]);
    assert!(run.switches().is_empty());
}

#[test]
fn single_provider_keeps_large_retry_budget() {
    let (mut client, config) = single(5);
    let run = complete(&mut client, config, &[Script::Failing(5, "status=503")]);
    assert_eq!(run.result.as_ref().unwrap().text, "ok");
    assert_eq!(run.hits, vec![6]);
    assert!(run.switches().is_empty());
}

#[test]
fn single_provider_surfaces_its_error_when_spent() {
    let (mut client, config) = single(5);
    let run = complete(&mut client, config, &[Script::Failing(u32::MAX, "status=503")]);
    assert_eq!(run.result, Err(EngineError::Llm("status=503".into())));
    assert_eq!(run.hits, vec![6]);
}

#[test]
fn routing_events_report_the_workload_that_tripped_the_provider() {
    let (client, config) = chain(&["host-a/m", "host-b/m"], 5);
    let mut client = client.with_workload(Workload::Subagent);
    assert_eq!(client.workload(), Workload::Subagent);
    let scripts = [Script::Failing(u32::MAX, "status=503 busy"), Script::Failing(0, "")];
    let run = complete(&mut client, config, &scripts);
    let switched = run
        .events
        .iter()
        .find_map(|e| match e {
            AgentEvent::ProviderSwitched(notice) => Some(notice.clone()),
            _ => None,
        })
        .expect("expected a ProviderSwitched event");
    assert_eq!(switched.workload, Some(Workload::Subagent));
    assert_eq!(switched.pool_id.as_deref(), Some("main"));
    assert!(switched.operation_id.is_some_and(|op| op.starts_with("op_")));
    assert_eq!(switched.from_provider_id.as_deref(), Some("host-a/m"));
    assert_eq!(switched.to_provider_id.as_deref(), Some("host-b/m"));
    assert_eq!(switched.failure_class, Some(FailureClass::RetryableHttp));
    assert_eq!(switched.cooldown_ms, 120_000);
    assert!(run.events.iter().any(|e| matches!(
        e,
        AgentEvent::Retrying(notice) if notice.workload == Some(Workload::Subagent)
            && notice.attempt == 2 && notice.max_attempts == 3 && notice.wait_ms == 1000
    )));
}

#[test]
fn empty_response_chain_fails_over_to_third_provider() {
    let (mut client, config) = chain(&["host-a/m", "host-b/m", "host-c/m"], 15);
    let scripts =
        [Script::Failing(u32::MAX, "status=502"), Script::Empty, Script::Failing(0, "")];
    let run = complete(&mut client, config, &scripts);
    assert_eq!(run.result.as_ref().unwrap().text, "ok", "third provider should have answered");
    assert_eq!(run.hits, vec![3, 3, 1]);
    assert_eq!(
        run.switches(),
        vec![pair("host-a/m", "host-b/m"), pair("host-b/m", "host-c/m")]
    );
    assert_eq!(run.trips[1].1, FailureClass::EmptyResponse);
}

#[test]
fn single_provider_empty_retries_full_budget() {
    let (mut client, config) = single(2);
    let run = complete(&mut client, config, &[Script::Empty]);
    assert_eq!(run.result, Err(EngineError::EmptyResponse));
    assert_eq!(run.hits, vec![2]);
    assert!(run.switches().is_empty());
}

fn hello() -> CollectedTurn {
    let mut partial = turn("Hello ");
    partial.response_id = Some("resp_abc".into());
    partial.reasoning_items = vec![reasoning("rs_1", Some("enc"))];
    partial
}

#[test]
fn idle_timeout_prefix_continues_once_keeping_response_id_and_encrypted_reasoning() {
    let (mut client, config) = single(5);
    let run = complete(&mut client, config, &[Script::IdleAfter(hello(), 2)]);
    assert_eq!(run.result.as_ref().unwrap().text, "Hello world");
    assert_eq!(run.hits, vec![2]);
    let cont = &run.requests[1];
    assert_eq!(cont.previous_response_id.as_deref(), Some("resp_abc"));
    match cont.items.last().expect("prefix assistant") {
        ConversationItem::Assistant(a) => assert_eq!(a.content, "Hello "),
        other => panic!("expected assistant prefix, got {other:?}"),
    }
    let kept: Vec<&ReasoningItem> = cont
        .items
        .iter()
        .filter_map(|i| match i {
            ConversationItem::Reasoning(r) => Some(r),
            _ => None,
        })
        .collect();
    assert_eq!(kept.len(), 1);
    assert_eq!(kept[0].id, "rs_1");
    assert_eq!(kept[0].encrypted_content.as_deref(), Some("enc"));
    assert_eq!(run.texts(), vec!["Hello ".to_string(), "world".to_string()]);
}

#[test]
fn idle_timeout_second_failure_fails_over_with_prefix() {
    let (mut client, config) = chain(&["host-a/m", "host-b/m"], 5);
    let scripts = [Script::IdleAfter(turn("Hello "), u32::MAX), Script::Failing(0, "")];
    let run = complete(&mut client, config, &scripts);
    assert_eq!(run.result.as_ref().unwrap().text, "Hello ok");
    assert_eq!(run.hits, vec![2, 1], "same provider continued once");
    assert_eq!(run.switches(), vec![pair("host-a/m", "host-b/m")]);
    assert_eq!(run.texts(), vec!["Hello ".to_string(), "ok".to_string()]);
    assert_eq!(run.trips[0].1, FailureClass::StreamIdle);
    assert_eq!(run.requests[2].previous_response_id, None);
}

#[test]
fn idle_timeout_with_incomplete_tool_does_not_continue() {
    let mut partial = turn("");
    partial.tool_calls = vec![call("function", "{\"q\":")];
    let (mut client, config) = single(5);
    let run = complete(&mut client, config, &[Script::IdleAfter(partial, u32::MAX)]);
    assert_eq!(run.result, Err(EngineError::StreamIdleTimeout(120 * SECOND)));
    assert_eq!(run.hits, vec![1]);
}

#[test]
fn idle_timeout_with_hosted_web_search_does_not_accept_as_complete() {
    let mut partial = turn("材料已齐，正在写成一份 HTML。");
    partial.tool_calls = vec![call("server", "{}")];
    let (mut client, config) = single(5);
    let run = complete(&mut client, config, &[Script::IdleAfter(partial, u32::MAX)]);
    assert_eq!(run.result, Err(EngineError::StreamIdleTimeout(120 * SECOND)));
    assert_eq!(run.hits, vec![1]);
}

#[test]
fn idle_timeout_after_complete_client_calls_is_a_turn() {
    let mut partial = turn("");
    partial.tool_calls = vec![call("function", "{\"q\":1}"), call("server", "")];
    let (mut client, config) = single(5);
    let run = complete(&mut client, config, &[Script::IdleAfter(partial, u32::MAX)]);
    assert_eq!(run.result.unwrap().tool_calls.len(), 2);
}

#[test]
fn update_routing_unbound_visit_id_is_hard_error() {
    let (mut client, config) = single(1);
    match capture(&mut client, config, vec!["rotated".to_string()]) {
        CaptureStep::Failed(EngineError::InvalidRoutingConfig(msg)) => {
            assert!(msg.contains("unbound provider_id"), "{msg}");
            assert_eq!(msg, "pool 'main' visit plan references unbound provider_id 'rotated'");
        }
        _ => panic!("expected InvalidRoutingConfig"),
    }
}

#[test]
fn exhausted_plans_list_all_that_were_tried() {
    let (mut client, config) = chain(&["a", "b"], 5);
    let scripts =
        [Script::Failing(u32::MAX, "status=401"), Script::Failing(u32::MAX, "refused")];
    let run = complete(&mut client, config, &scripts);
    assert_eq!(
        run.result,
        Err(EngineError::ProviderAttemptsExhausted {
            pool_id: "main".into(),
            tried_provider_ids: vec!["a".into(), "b".into()],
        })
    );
    assert_eq!(run.trips[1].1, FailureClass::Connection);
}

#[test]
fn an_empty_plan_has_no_providers() {
    let (mut client, config) = single(1);
    let CaptureStep::Captured(captured) = capture(&mut client, config, vec![]) else {
        panic!("expected a captured operation");
    };
    let run = run(&mut client, captured, &[], &[], vec![]);
    assert_eq!(run.result, Err(EngineError::Llm("no LLM providers configured".into())));
}

// ── One visit ───────────────────────────────────────────────────────────

fn visit(chain_mode: bool) -> ProviderAttempt {
    let limits = AttemptLimits {
        chain_mode,
        max_retries: 9,
        failover_max_attempts: 4,
        doom_loop_max_retries: 1,
        rate_limit_threshold: 2,
        inline_pause_cap: 10 * SECOND,
    };
    let labels = AttemptLabels {
        fingerprint: "f".into(),
        provider_id: "id".into(),
        pool_id: "main".into(),
        workload: Workload::Main,
        operation_id: "op_1".into(),
    };
    ProviderAttempt::new(limits, labels, &req())
}

const PAUSES: Backoffs = Backoffs { retry: 7, doom_loop: 11 };

fn failed(message: &str) -> AttemptEvent {
    let error = EngineError::Llm(message.into());
    let signals = signals(&error);
    AttemptEvent::RequestFailed { error, message: message.into(), signals }
}

#[test]
fn rate_limits_wait_as_asked_up_to_the_cap() {
    let mut v = visit(true);
    match v.on_event(failed("status=429 retry-after=3 slow down"), PAUSES) {
        AttemptAction::Retry { notice: Some(AgentEvent::Retrying(n)), wait, skip: None } => {
            assert_eq!(wait, 3 * SECOND);
            assert_eq!((n.reason.as_str(), n.wait_ms), ("status=429", 3000));
        }
        other => panic!("{other:?}"),
    }
    match v.on_event(failed("status=429 retry-after=11"), PAUSES) {
        AttemptAction::Fail(ProviderAttemptError::Failover { cooldown_override, .. }) => {
            assert_eq!(cooldown_override, Some(11 * SECOND));
        }
        other => panic!("{other:?}"),
    }
}

#[test]
fn rate_limits_have_a_threshold_of_their_own() {
    let mut v = visit(false);
    for _ in 0..2 {
        assert!(matches!(
            v.on_event(failed("status=429"), PAUSES),
            AttemptAction::Retry { wait: 7, .. }
        ));
    }
    assert!(matches!(
        v.on_event(failed("status=429"), PAUSES),
        AttemptAction::Fail(ProviderAttemptError::Terminal(EngineError::Llm(_)))
    ));
}

#[test]
fn looping_models_are_resampled_and_then_given_up() {
    let mut v = visit(true);
    assert_eq!(
        v.on_event(looping(false), PAUSES),
        AttemptAction::Retry { notice: None, wait: 11, skip: None }
    );
    assert_eq!(
        v.on_event(looping(false), PAUSES),
        AttemptAction::Fail(ProviderAttemptError::DoomLoop(EngineError::DoomLoopServer(
            "repeat".into()
        )))
    );
}

#[test]
fn looping_models_are_not_resampled_once_text_was_shown() {
    let mut v = visit(true);
    assert_eq!(
        v.on_event(looping(true), PAUSES),
        AttemptAction::Fail(ProviderAttemptError::DoomLoop(EngineError::DoomLoopServer(
            "repeat".into()
        )))
    );
    assert_eq!((v.attempt, v.doom_loop_retries), (1, 0));

    let (mut client, config) = chain(&["host-a/m", "host-b/m"], 5);
    let scripts = [Script::LoopingAfter("so so so"), Script::Failing(0, "")];
    let run = complete(&mut client, config.clone(), &scripts);
    assert_eq!(run.result, Err(EngineError::DoomLoopServer("repeat".into())));
    assert_eq!(run.hits, vec![1, 0]);
    assert_eq!(run.texts(), vec!["so so so".to_string()]);
    assert!(run.switches().is_empty());

    let scripts = [Script::LoopingAfter(""), Script::Failing(0, "")];
    let silent = complete(&mut client, config, &scripts);
    assert_eq!(silent.result, Err(EngineError::DoomLoopServer("repeat".into())));
    assert_eq!(silent.hits, vec![3, 0]);
}

#[test]
fn empty_answers_are_not_asked_for_again_once_reasoning_was_shown() {
    let (mut client, config) = chain(&["host-a/m", "host-b/m"], 5);
    let scripts = [Script::EmptyAfter("hm"), Script::Failing(0, "")];
    let run = complete(&mut client, config, &scripts);
    assert_eq!(run.result, Err(EngineError::EmptyResponse));
    assert_eq!(run.hits, vec![1, 0]);
    assert_eq!(run.events, vec![AgentEvent::ReasoningDelta { text: "hm".into() }]);
}

#[test]
fn broken_streams_end_the_visit() {
    for shown in [false, true] {
        let mut v = visit(true);
        let error = EngineError::Stream("cut".into());
        assert_eq!(
            v.on_event(AttemptEvent::StreamFailed { error: error.clone(), shown }, PAUSES),
            AttemptAction::Fail(ProviderAttemptError::Terminal(error))
        );
    }
}

#[test]
fn a_continuation_that_fails_at_once_keeps_its_prefix() {
    let mut v = visit(true);
    let silent = AttemptEvent::IdleTimeout { partial: turn("Hello "), timeout: 1 };
    assert!(matches!(v.on_event(silent, PAUSES), AttemptAction::Retry { skip: Some(_), .. }));
    let continued = v.live_req.clone();
    assert!(matches!(
        v.on_event(failed("status=503"), PAUSES),
        AttemptAction::Retry { skip: None, .. }
    ));
    assert_eq!(v.live_req, continued);
    match v.on_event(failed("status=401"), PAUSES) {
        AttemptAction::Fail(ProviderAttemptError::Failover { continue_from, .. }) => {
            assert_eq!(continue_from, Some(turn("Hello ")));
        }
        other => panic!("{other:?}"),
    }
}

#[test]
fn all_notices_name_the_operation() {
    let (client, config) = chain(&["host-a/m", "host-b/m", "host-c/m"], 15);
    let mut client = client.with_workload(Workload::Subagent);
    let scripts =
        [Script::Failing(u32::MAX, "status=502"), Script::Empty, Script::IdleAfter(hello(), 2)];
    let run = complete(&mut client, config, &scripts);
    let id = run.result.as_ref().unwrap().operation_id.clone();
    assert!(id.starts_with("op_"));
    let mut told = 0;
    for event in &run.events {
        let (pool, workload, operation) = match event {
            AgentEvent::Retrying(n) => (&n.pool_id, n.workload, &n.operation_id),
            AgentEvent::ProviderSwitched(n) => (&n.pool_id, n.workload, &n.operation_id),
            _ => continue,
        };
        told += 1;
        assert_eq!(pool.as_deref(), Some("main"));
        assert_eq!(workload, Some(Workload::Subagent));
        assert_eq!(operation.as_ref(), Some(&id));
    }
    assert_eq!(told, 2 + 1 + 2 + 1 + 1);
}

#[test]
fn a_visit_never_outlasts_its_budget() {
    let mut v = visit(false);
    let mut requests = 1;
    loop {
        let answer = match requests % 3 {
            0 => looping(false),
            1 => failed("status=500"),
            _ => AttemptEvent::IdleTimeout { partial: turn("t"), timeout: 1 },
        };
        match v.on_event(answer, PAUSES) {
            AttemptAction::Retry { .. } => requests += 1,
            _ => break,
        }
    }
    assert!(requests <= 1 + 9 + 1 + 1);
}

#[test]
fn limits_that_cannot_be_counted_are_told() {
    let mut limits = visit(false).limits;
    assert!(limits.is_countable());
    limits.max_retries = u32::MAX;
    assert!(!limits.is_countable());
    limits.chain_mode = true;
    assert!(limits.is_countable());
}

// ── Failures ────────────────────────────────────────────────────────────

#[test]
fn classes_of_failures() {
    let class = |error: EngineError| failure_class_of(&error, &signals(&error));
    assert_eq!(class(EngineError::StreamIdleTimeout(1)), FailureClass::StreamIdle);
    assert_eq!(class(EngineError::EmptyResponse), FailureClass::EmptyResponse);
    assert_eq!(class(EngineError::Llm("status=429".into())), FailureClass::RateLimited);
    assert_eq!(class(EngineError::Llm("refused".into())), FailureClass::Connection);
    assert_eq!(class(EngineError::Llm("status=503".into())), FailureClass::RetryableHttp);
    assert_eq!(class(EngineError::Llm("status=401".into())), FailureClass::Fatal);
}

#[test]
fn pauses_are_read_off_the_message() {
    let asked = |m: &str| asked_seconds(&EngineError::Llm(m.into()));
    assert_eq!(asked("status=429 retry-after=30 x"), Some(30));
    assert_eq!(asked("retry-after= 7"), Some(7));
    assert_eq!(asked("retry-after=18446744073709551615"), Some(u64::MAX));
    assert_eq!(asked("retry-after=18446744073709551616"), None);
    assert_eq!(asked("retry-after=soon"), None);
    assert_eq!(asked("retry-after="), None);
    assert_eq!(asked("status=429"), None);
    assert_eq!(asked_seconds(&EngineError::Stream("retry-after=1".into())), None);

    let error = EngineError::Llm("status=429 retry-after=30 x".into());
    let mut read = signals(&error);
    assert_eq!(retry_after_from_error(&error, &read), Some(30 * SECOND));
    assert_eq!(retry_after_from_error(&EngineError::Llm("status=429".into()), &read), None);
    read.retry_after = None;
    assert_eq!(retry_after_from_error(&error, &read), None);
}

// ── Continuation ────────────────────────────────────────────────────────

#[test]
fn skip_prefix_chunk_strips_matching_prefix() {
    let mut remaining = "Hello world".to_string();
    assert_eq!(skip_prefix_chunk(&mut remaining, "Hello "), "");
    assert_eq!(remaining, "world");
    assert_eq!(skip_prefix_chunk(&mut remaining, "world!"), "!");
    assert_eq!(remaining, "");

    let mut remaining = "Hello".to_string();
    assert_eq!(skip_prefix_chunk(&mut remaining, "Hi"), "Hi");
    assert_eq!(remaining, "");
}

#[test]
fn repeated_text_is_shown_once_however_it_is_cut() {
    for cuts in [vec!["Hel", "", "lo w", "orld"], vec!["Hello world"], vec!["H", "ello ", "world"]] {
        let mut observer = PrefixSkippingObserver::new();
        observer.set_skip("Hello ", "");
        let mut shown = String::new();
        for cut in cuts {
            if let Some(AgentEvent::TextDelta { text }) =
                observer.on_event(AgentEvent::TextDelta { text: cut.into() })
            {
                shown.push_str(&text);
            }
        }
        assert_eq!(shown, "world");
    }
}

#[test]
fn reasoning_and_text_are_skipped_apart() {
    let mut observer = PrefixSkippingObserver::new();
    observer.set_skip("a", "b");
    let reasoning = AgentEvent::ReasoningDelta { text: "bc".into() };
    assert_eq!(
        observer.on_event(reasoning),
        Some(AgentEvent::ReasoningDelta { text: "c".into() })
    );
    assert_eq!(observer.on_event(AgentEvent::TextDelta { text: "a".into() }), None);
    let other = AgentEvent::Other("{}".into());
    assert_eq!(observer.on_event(other.clone()), Some(other));
}

#[test]
fn what_a_partial_turn_is_good_for() {
    let mut t = turn(" \n");
    assert!(!can_prefix_continue(&t) && !should_accept_partial_as_complete(&t));
    t.text = "x".into();
    assert!(can_prefix_continue(&t));
    t.tool_calls = vec![call("server", "not json")];
    assert!(!can_prefix_continue(&t) && !should_accept_partial_as_complete(&t));
    t.tool_calls.push(call("function", "{}"));
    assert!(should_accept_partial_as_complete(&t));
    t.tool_calls.push(call("function", "{"));
    assert!(!should_accept_partial_as_complete(&t));
}

#[test]
fn continuing_keeps_the_items_of_the_partial_turn() {
    let mut partial = hello();
    partial.reasoning = "why".into();
    let items = synthesize_partial_items(&partial);
    assert_eq!(items.len(), 2);
    match &items[1] {
        ConversationItem::Assistant(a) => {
            assert_eq!((a.content.as_str(), a.reasoning_content.as_deref()), ("Hello ", Some("why")));
        }
        other => panic!("{other:?}"),
    }
    let kept = prefix_continue_request(&req(), &partial, true);
    assert_eq!(kept.items.len(), 3);
    assert_eq!(kept.previous_response_id.as_deref(), Some("resp_abc"));
    partial.items = vec![ConversationItem::assistant("own")];
    partial.response_id = Some(String::new());
    let own = prefix_continue_request(&req(), &partial, true);
    assert_eq!(own.items.last(), Some(&ConversationItem::assistant("own")));
    assert_eq!(own.previous_response_id, None);
    assert_eq!(prefix_continue_request(&req(), &hello(), false).previous_response_id, None);
}

#[test]
fn reasoning_is_merged_by_id() {
    let mut first = reasoning("a", Some("1"));
    first.summary = vec![Json::text("s")];
    let anonymous = reasoning("", Some("x"));
    let old = vec![first.clone(), anonymous.clone()];
    let mut update = reasoning("a", None);
    update.content = Some(vec![Json::text("c")]);
    let new = vec![update, anonymous.clone(), reasoning("b", None), reasoning("", Some("y"))];
    let merged = merge_reasoning_items(&old, &new);
    let mut expected = first;
    expected.content = Some(vec![Json::text("c")]);
    assert_eq!(
        merged,
        vec![expected, anonymous, reasoning("b", None), reasoning("", Some("y"))]
    );
}

#[test]
fn items_of_a_continuation_are_merged() {
    let backend = ConversationItem::BackendToolCall(BackendToolCallItem {
        payload: parse_json(r#"{"id":"ws"}"#).unwrap(),
    });
    let partial = vec![
        ConversationItem::Reasoning(reasoning("a", None)),
        ConversationItem::assistant("Hello "),
    ];
    let cont = vec![
        ConversationItem::Reasoning(reasoning("a", Some("e"))),
        backend.clone(),
        ConversationItem::user("dropped"),
        ConversationItem::Assistant(AssistantItem {
            content: "world".into(),
            tool_calls: vec![],
            reasoning_content: None,
            encrypted_reasoning: None,
            origin: Some("o".into()),
        }),
    ];
    let merged = merge_continued_items(&partial, &cont, "Hello world", "why");
    assert_eq!(merged.len(), 3);
    assert_eq!(merged[0], ConversationItem::Reasoning(reasoning("a", Some("e"))));
    assert_eq!(merged[1], backend);
    match &merged[2] {
        ConversationItem::Assistant(a) => {
            assert_eq!(a.content, "Hello world");
            assert_eq!(a.reasoning_content.as_deref(), Some("why"));
            assert_eq!(a.origin.as_deref(), Some("o"));
        }
        other => panic!("{other:?}"),
    }
    assert_eq!(
        merge_continued_items(&vec![], &vec![], "t", ""),
        vec![ConversationItem::assistant("t")]
    );
}

#[test]
fn turns_are_merged_field_by_field() {
    let mut partial = hello();
    partial.model = "m1".into();
    partial.provider_id = "p1".into();
    partial.attempts = 3;
    partial.finish_reason = Some("length".into());
    partial.tool_calls = vec![call("function", "{}")];
    let mut cont = turn("Hello world");
    cont.model = "m2".into();
    cont.attempts = 1;
    cont.encrypted_reasoning = Some("sig".into());
    cont.reasoning = "r".into();
    let merged = merge_continued_turn(&partial, cont);
    assert_eq!(merged.text, "Hello world");
    assert_eq!(merged.reasoning, "r");
    assert_eq!((merged.model.as_str(), merged.provider_id.as_str(), merged.attempts), ("m2", "p1", 3));
    assert_eq!(merged.finish_reason.as_deref(), Some("length"));
    assert_eq!(merged.response_id.as_deref(), Some("resp_abc"));
    assert_eq!(merged.encrypted_reasoning.as_deref(), Some("sig"));
    assert_eq!(merged.tool_calls.len(), 1);
    assert_eq!(merged.items, vec![ConversationItem::assistant("Hello world")]);
    assert_eq!(merge_continued_turn(&turn("a"), turn("b")).text, "ab");
    assert_eq!(merge_continued_turn(&turn("a"), turn("")).text, "a");
}

#[test]
fn sanitize_strips_foreign_reasoning() {
    let item = reasoning("rs_abc", Some("enc"));
    let mut msg = ChatMessage::assistant_with_reasoning(
        "hello",
        Some("thoughts".into()),
        vec![item],
        Some("sig".into()),
    );
    msg.origin = Some("grok_build/grok-4.6".into());

    let same_group = msg.sanitized_for_provider("grok_build/grok-4.6", "grok_build/grok-4.6");
    assert_eq!(same_group.reasoning_content.as_deref(), Some("thoughts"));
    assert_eq!(same_group.encrypted_reasoning.as_deref(), Some("sig"));
    assert_eq!(same_group.reasoning_items.len(), 1);
    assert_eq!(same_group.reasoning_items[0].id, "rs_abc");

    let group_change = msg.sanitized_for_provider("claude_code/grok-4.6", "grok_build/grok-4.6");
    assert!(group_change.reasoning_content.is_none());
    assert!(group_change.encrypted_reasoning.is_none());
    assert!(group_change.reasoning_items.is_empty());
    assert_eq!(group_change.content_text(), "hello");

    let model_change = msg.sanitized_for_provider("grok_build/grok-3", "grok_build/grok-4.6");
    assert!(model_change.reasoning_items.is_empty());
}

#[test]
fn stripped_reasoning_does_not_come_back() {
    let msg = ChatMessage::assistant_with_reasoning(
        "hello",
        Some("thoughts".into()),
        vec![reasoning("rs", None)],
        None,
    );
    assert_eq!(msg.sanitized_for_provider("a", "a"), msg);
    let stripped = msg.sanitized_for_provider("b", "a");
    assert_eq!(stripped.sanitized_for_provider("a", "a"), stripped);
}

#[test]
fn replayed_text_is_silent() {
    let mut observer = PrefixSkippingObserver::new();
    observer.set_skip("Hello world", "");
    for cut in ["Hello", " wor"] {
        assert_eq!(observer.on_event(AgentEvent::TextDelta { text: cut.into() }), None);
    }
    assert_eq!(observer.skip_text, "ld");
}

#[test]
fn events_are_skipped_apart_and_in_order() {
    let said = |t: &str| AgentEvent::TextDelta { text: t.into() };
    let thought = |t: &str| AgentEvent::ReasoningDelta { text: t.into() };
    let other = |t: &str| AgentEvent::Other(t.into());
    let mut observer = PrefixSkippingObserver::new();
    observer.set_skip("abc", "ab");
    let mut passed = vec![];
    for event in [
        said("a"),
        thought("a"),
        other("1"),
        said(""),
        said("bcd"),
        thought("bx"),
        other("2"),
        said("e"),
    ] {
        passed.extend(observer.on_event(event));
    }
    assert_eq!(passed, vec![other("1"), said("d"), thought("x"), other("2"), said("e")]);
    assert_eq!((observer.skip_text.as_str(), observer.skip_reasoning.as_str()), ("", ""));
}

#[test]
fn answers_name_their_visit() {
    let (mut client, config) = chain(&["host-a/m", "host-b/m"], 5);
    let scripts = [Script::Failing(u32::MAX, "status=503"), Script::Failing(1, "status=503")];
    let run = complete(&mut client, config, &scripts);
    let turn = run.result.unwrap();
    assert_eq!(run.hits, vec![3, 2]);
    assert_eq!((turn.provider_id.as_str(), turn.attempts), ("host-b/m", 2));
    assert!(turn.operation_id.starts_with("op_"));
    assert_eq!(turn.model, "m");
    assert_eq!(client.origin_fingerprint(), "host-b/m");
}

#[test]
fn observers_note_that_something_was_said() {
    let mut observer = PrefixSkippingObserver::new();
    observer.set_skip("Hello", "");
    observer.on_event(AgentEvent::TextDelta { text: String::new() });
    observer.on_event(AgentEvent::Other("{}".into()));
    assert!(!observer.streamed && !observer.streamed_in_visit);
    assert_eq!(observer.skip_text, "Hello");
    observer.on_event(AgentEvent::TextDelta { text: "Hel".into() });
    assert!(observer.streamed && observer.streamed_in_visit);
    observer.begin_request();
    assert!(!observer.streamed && observer.streamed_in_visit);
    observer.on_event(AgentEvent::ReasoningDelta { text: "so".into() });
    assert!(observer.streamed);
    observer.begin_visit();
    assert!(!observer.streamed && !observer.streamed_in_visit);
    assert_eq!(observer.skip_text, "lo");
}

// ── Time, names and contexts ────────────────────────────────────────────

#[test]
fn visits_share_the_time_that_is_left() {
    assert_eq!(provider_budget(Some(9 * SECOND), 3), Some(3 * SECOND));
    assert_eq!(provider_budget(Some(10), 3), Some(1_000_000));
    assert_eq!(provider_budget(Some(9 * SECOND), 1), None);
    assert_eq!(provider_budget(None, 3), None);
    assert_eq!(transport_timeout(SECOND), 900_000_000);
    assert_eq!(transport_timeout(10 * SECOND), 9_750_000_000);
    assert_eq!(transport_timeout(1_000_000), 1_000_000);
    assert_eq!(millis(1_999_999), 1);
}

#[test]
fn visits_that_take_too_long_are_told() {
    assert_eq!(
        visit_timed_out(1_500_000_000, "p1", false),
        ProviderAttemptError::Failover {
            error: EngineError::Llm("timeout after 1500ms waiting for provider 'p1'".into()),
            cooldown_override: None,
            continue_from: None,
        }
    );
    assert_eq!(
        visit_timed_out(1_500_000_000, "p1", true),
        ProviderAttemptError::Terminal(EngineError::Llm(
            "timeout after 1500ms waiting for provider 'p1'".into()
        ))
    );
}

#[test]
fn operations_have_names_of_their_own() {
    let id = new_operation_id();
    assert_eq!(id.len(), 35);
    assert!(id.starts_with("op_"));
    assert!(id[3..].chars().all(|c| c.is_ascii_digit() || ('a'..='f').contains(&c)));
    assert_eq!(&id[15..16], "4");
    assert_ne!(id, new_operation_id());
}

#[test]
fn turn_state_is_reused_but_never_crosses_turns() {
    let mut one = LlmTurnContext::new();
    let other = LlmTurnContext::new();
    assert_eq!(one.turn_state("probe"), None);
    one.set_turn_state("probe", "sticky".to_string());
    one.set_turn_state("else", "x".to_string());
    one.set_turn_state("probe", "stickier".to_string());
    one.set_request_timeout(Some(5));
    assert_eq!(one.turn_state("probe").as_deref(), Some("stickier"));
    assert_eq!(one.request_timeout(), Some(5));
    assert_eq!(other.turn_state("probe"), None);
    assert_eq!(other.request_timeout(), None);
}
