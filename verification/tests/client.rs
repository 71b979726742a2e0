use phone_buddy::client::{
    drop_colliding_function_tools, rewrite_request_for, CaptureStep, LlmClient, NamedTransport,
    RoutingSnapshot, VisitPlan,
};
use phone_buddy::error::EngineError;
use phone_buddy::events::Workload;
use phone_buddy::failover::sanitize_items_for_provider;
use phone_buddy::json::{parse_json, Json};
use phone_buddy::slots::{
    bind_http_slots, bind_injected_slots, plan_transports, slot_from_target, ApiBackend,
    EngineConfig, Header, HttpSlotFactory, LlmRoutingConfig, NamedPool, PoolMember, ProviderPool,
    ProviderTarget, RetryPolicy, SyntheticRouting, MAIN_POOL_ID,
};
use phone_buddy::types::{
    AssistantItem, BackendToolCallItem, ConversationItem, ConversationRequest, FunctionDefinition,
    HostedTool, ReasoningItem, ToolDefinition,
};

const SUBAGENT_POOL_ID: &str = "subagent";

fn target(id: &str, url: &str, model: &str) -> ProviderTarget {
    ProviderTarget {
        provider_id: id.into(),
        base_url: url.into(),
        api_key: "k".into(),
        model: model.into(),
        api_backend: ApiBackend::ChatCompletions,
        client_profile: "default".into(),
        client_version: None,
        client_session_id: None,
        compat_key: format!("{id}/{model}"),
        fingerprint: format!("host-of-{id}/{model}"),
        extra_headers: vec![],
        extra_body: vec![],
        enable_web_search: false,
        web_search_options: None,
        enable_x_search: false,
        x_search_options: None,
        reasoning_effort: None,
    }
}

fn member(id: &str, order: u32) -> PoolMember {
    PoolMember {
        provider_id: id.into(),
        routing_group: "default".into(),
        base_score: 10,
        order,
        enabled: true,
    }
}

fn pool(id: &str, members: Vec<PoolMember>) -> NamedPool {
    NamedPool {
        id: id.into(),
        pool: ProviderPool {
            members,
            retry: RetryPolicy { failover_max_attempts: 3, max_retries: 5 },
            probe_when_exhausted: true,
        },
    }
}

fn engine_config() -> EngineConfig {
    EngineConfig {
        stream_idle_timeout_secs: 300,
        http_dump: parse_json(r#"{"enabled":false}"#).unwrap(),
        http_dumps_dir: "/tmp/dumps".into(),
        enable_doom_loop_check: None,
    }
}

fn routing(providers: Vec<ProviderTarget>, pools: Vec<NamedPool>) -> LlmRoutingConfig {
    LlmRoutingConfig { providers, pools, cooldown_base_secs: 60 }
}

fn made() -> SyntheticRouting {
    SyntheticRouting {
        max_retries: 0,
        failover_max_attempts: 0,
        cooldown_secs: 120,
        routing_group: "g".into(),
        base_score: 7,
        client_profile: "default".into(),
    }
}

#[test]
fn missing_injected_slot_is_a_hard_error() {
    let config = routing(
        vec![
            target("p-main", "https://main.example/v1", "m"),
            target("p-a", "https://a.example/v1", "m"),
            target("p-b", "https://b.example/v1", "m"),
        ],
        vec![
            pool(MAIN_POOL_ID, vec![member("p-main", 0)]),
            pool(SUBAGENT_POOL_ID, vec![member("p-a", 0), member("p-b", 1)]),
        ],
    );
    match LlmClient::from_router_with_transports(
        SUBAGENT_POOL_ID,
        1,
        &config,
        &vec!["p-a".to_string()],
        2,
    ) {
        Err(EngineError::InvalidRoutingConfig(msg)) => {
            assert!(msg.contains("p-b"), "{msg}");
            assert_eq!(msg, "pool 'subagent' member 'p-b' has no bound transport");
        }
        Err(other) => panic!("expected InvalidRoutingConfig, got {other:?}"),
        Ok(_) => panic!("expected missing slot to be a hard error"),
    }
}

#[test]
fn current_endpoint_reads_selected_pool_member() {
    let mut p1 = target("p1", "https://sub.wududu.com/v1", "grok-4.6");
    p1.api_key = "sk-a".into();
    p1.api_backend = ApiBackend::Responses;
    p1.extra_headers = vec![Header { name: "X-Test".into(), value: "1".into() }];
    let mut p2 = target("p2", "https://cf.api.fan/v1", "grok-4.6");
    p2.api_key = "sk-b".into();
    let config = routing(
        vec![p1, p2],
        vec![pool(MAIN_POOL_ID, vec![member("p1", 0), member("p2", 1)])],
    );
    let mut client =
        LlmClient::from_router(MAIN_POOL_ID, 1, &config, &engine_config(), &vec![], 2).unwrap();

    let ep = client.current_endpoint(&config).expect("primary member");
    assert_eq!(ep.provider_id, "p1");
    assert_eq!(ep.api_key, "sk-a");
    assert_eq!(ep.base_url, "https://sub.wududu.com/v1");
    assert_eq!(ep.api_backend, ApiBackend::Responses);
    assert_eq!(ep.model, "grok-4.6");
    assert_eq!(
        ep.extra_headers.iter().find(|h| h.name == "X-Test").map(|h| h.value.as_str()),
        Some("1")
    );

    let slot = client.slots.providers.iter().find(|s| s.provider_id == "p2").unwrap().clone();
    client.record_success(&slot);
    let ep = client.current_endpoint(&config).expect("failover member");
    assert_eq!(ep.provider_id, "p2");
    assert_eq!(ep.api_key, "sk-b");
    assert_eq!(ep.base_url, "https://cf.api.fan/v1");
    assert_eq!(ep.api_backend, ApiBackend::ChatCompletions);

    let fallbacks = client.fallback_endpoints(&config);
    assert_eq!(fallbacks.len(), 1);
    assert_eq!(fallbacks[0].provider_id, "p1");
    assert_eq!(client.origin_fingerprint(), "p2/grok-4.6");
}

#[test]
fn injected_client_has_no_http_endpoint() {
    let (client, config) = LlmClient::new("inline", &made(), 2);
    assert!(client.current_endpoint(&config).is_none());
    assert!(client.fallback_endpoints(&config).is_empty());
}

#[test]
fn endpoints_need_an_address_and_a_key() {
    let mut blank = target("p1", " ", "m");
    let config = |t: ProviderTarget, enabled: bool| {
        let mut first = member("p1", 0);
        first.enabled = enabled;
        routing(
            vec![t, target("p2", "https://b", "m")],
            vec![pool(MAIN_POOL_ID, vec![first, member("p2", 1)])],
        )
    };
    let bound = |c: &LlmRoutingConfig| {
        LlmClient::from_router(MAIN_POOL_ID, 1, c, &engine_config(), &vec![], 2).unwrap()
    };
    let without_address = config(blank.clone(), true);
    assert!(bound(&without_address).current_endpoint(&without_address).is_none());
    blank.base_url = "https://a".into();
    blank.api_key = "\t".into();
    let without_key = config(blank, false);
    assert_eq!(
        bound(&without_key).current_endpoint(&without_key).unwrap().provider_id,
        "p2"
    );
}

#[test]
fn binding_tells_what_is_wrong_first() {
    let config = routing(
        vec![target("a", "https://a", "m")],
        vec![pool("p", vec![member("a", 0), member("lost", 1)])],
    );
    assert_eq!(
        bind_http_slots("none", 1, &config, &vec![]),
        Err(EngineError::RouteNotConfigured { pool_id: "none".into() })
    );
    assert_eq!(
        bind_http_slots("p", 1, &config, &vec![]),
        Err(EngineError::InvalidRoutingConfig(
            "pool 'p' member 'lost' is missing from providers".into()
        ))
    );
    let broken = EngineError::Other("no transport".into());
    assert_eq!(bind_http_slots("p", 1, &config, &vec![Some(broken.clone())]), Err(broken));
    let ids = vec!["a".to_string(), "lost".to_string()];
    assert_eq!(
        bind_injected_slots("p", 1, &config, &ids),
        Err(EngineError::InvalidRoutingConfig(
            "pool 'p' member 'lost' is missing from providers".into()
        ))
    );
    assert_eq!(
        bind_injected_slots("none", 1, &config, &ids),
        Err(EngineError::RouteNotConfigured { pool_id: "none".into() })
    );
}

#[test]
fn bound_slots_follow_the_pool() {
    let mut named = pool("p", vec![member("b", 0), member("a", 1)]);
    named.pool.retry = RetryPolicy { failover_max_attempts: 0, max_retries: 0 };
    let config =
        routing(vec![target("a", "https://a", "m"), target("b", "https://b", "m")], vec![named]);
    let bound = bind_injected_slots("p", 9, &config, &vec!["a".into(), "b".into()]).unwrap();
    assert_eq!((bound.generation, bound.max_retries, bound.failover_max_attempts), (9, 1, 1));
    assert_eq!(bound.primary_compat_key, "b/m");
    assert_eq!(bound.providers.len(), 2);
    assert_eq!(bound.providers[0], slot_from_target(&config.providers[1]));
}

#[test]
fn one_provider_has_one_slot() {
    let config = routing(
        vec![target("a", "https://a", "m"), target("b", "https://b", "m")],
        vec![pool("p", vec![member("a", 0), member("b", 1), member("a", 2)])],
    );
    let bound = bind_http_slots("p", 1, &config, &vec![]).unwrap();
    let ids: Vec<&str> = bound.providers.iter().map(|s| s.provider_id.as_str()).collect();
    assert_eq!(ids, vec!["a", "b"]);
    let mut client = LlmClient::from_router("p", 1, &config, &engine_config(), &vec![], 2).unwrap();
    let snapshot = RoutingSnapshot { generation: 1, config, failures: vec![] };
    match client.capture_operation(0, plan(1, &["b", "a", "b"]), &snapshot) {
        CaptureStep::Captured(captured) => {
            assert_eq!(captured.providers.len(), 2);
            assert_eq!(captured.providers[0], client.slots.providers[1]);
        }
        _ => panic!("expected a captured operation"),
    }
}

#[test]
fn transports_are_planned_from_the_configuration() {
    let mut a = target("a", "https://a", "m");
    a.api_backend = ApiBackend::Responses;
    let config = routing(
        vec![a, target("b", "https://b", "m")],
        vec![pool("p", vec![member("a", 0), member("lost", 1), member("b", 2)])],
    );
    let factory = HttpSlotFactory::from_engine(&engine_config());
    assert_eq!(factory.stream_idle_timeout_secs, 300);
    assert_eq!(factory.dumps_dir, "/tmp/dumps");
    let plan = plan_transports(&factory, &config, "p");
    assert_eq!(plan.len(), 3);
    assert!(plan[0].as_ref().unwrap().doom_loop);
    assert!(plan[1].is_none());
    assert!(!plan[2].as_ref().unwrap().doom_loop);
    assert_eq!(plan[2].as_ref().unwrap().base_url, "https://b");
    assert!(plan_transports(&factory, &config, "none").is_empty());
}

#[test]
fn chains_are_listed_as_one_pool() {
    let transport =
        |f: &str, m: &str| NamedTransport { fingerprint: f.into(), model: m.into() };
    let (client, config) =
        LlmClient::with_chain(&vec![transport("a", ""), transport("b", "mb")], &made(), 2);
    assert_eq!(client.pool_id(), "main");
    assert_eq!(client.workload(), Workload::Main);
    assert_eq!(client.primary_compat_key(), "a");
    assert_eq!((client.slots.max_retries, client.slots.failover_max_attempts), (0, 0));
    assert_eq!(config.cooldown_base_secs, 120);
    assert_eq!(config.providers[1].base_url, "https://router.invalid/1/v1");
    assert_eq!((config.providers[0].model.as_str(), config.providers[1].model.as_str()), ("m", "mb"));
    let pool = &config.pools[0];
    assert_eq!(pool.id, "main");
    assert_eq!((pool.pool.retry.max_retries, pool.pool.retry.failover_max_attempts), (1, 1));
    assert_eq!(pool.pool.members[1].order, 1);
    assert_eq!(pool.pool.members[1].provider_id, "b");
}

fn plan(generation: u64, ids: &[&str]) -> VisitPlan {
    VisitPlan {
        generation,
        provider_ids: ids.iter().map(|i| i.to_string()).collect(),
        chain_mode: false,
        retry: RetryPolicy { failover_max_attempts: 0, max_retries: 8 },
    }
}

#[test]
fn slots_follow_the_generation_of_the_plan() {
    let (mut client, config) = LlmClient::new("t", &made(), 2);
    let snapshot = RoutingSnapshot { generation: 3, config, failures: vec![] };
    match client.capture_operation(0, plan(3, &["inline"]), &snapshot) {
        CaptureStep::Captured(captured) => {
            assert_eq!(captured.providers.len(), 1);
            assert_eq!(captured.primary_compat_key, "t");
        }
        _ => panic!("expected a captured operation"),
    }
    assert_eq!((client.slots.generation, client.slots.max_retries), (3, 8));
    assert_eq!(client.slots.failover_max_attempts, 1);
}

#[test]
fn plans_of_an_old_configuration_are_made_anew() {
    let config = routing(vec![target("a", "https://a", "m")], vec![pool("p", vec![member("a", 0)])]);
    let mut client = LlmClient::from_router("p", 1, &config, &engine_config(), &vec![], 2).unwrap();
    let newer = RoutingSnapshot { generation: 3, config: config.clone(), failures: vec![] };
    assert!(matches!(client.capture_operation(0, plan(2, &["a"]), &newer), CaptureStep::Again));
    match client.capture_operation(3, plan(2, &["a"]), &newer) {
        CaptureStep::Failed(EngineError::InvalidRoutingConfig(msg)) => {
            assert_eq!(msg, "routing config changed while capturing a visit plan");
        }
        _ => panic!("expected the last round to fail"),
    }
    assert!(matches!(
        client.capture_operation(0, plan(3, &["a"]), &newer),
        CaptureStep::Captured(_)
    ));
    let gone = RoutingSnapshot { generation: 4, config: routing(vec![], vec![]), failures: vec![] };
    assert!(matches!(
        client.capture_operation(0, plan(4, &["a"]), &gone),
        CaptureStep::Failed(EngineError::RouteNotConfigured { .. })
    ));
    assert_eq!(client.slots.generation, 3);
}

fn tool(name: &str) -> ToolDefinition {
    ToolDefinition {
        function: FunctionDefinition {
            name: name.into(),
            description: String::new(),
            parameters: Json::Null,
        },
    }
}

fn request() -> ConversationRequest {
    ConversationRequest {
        model: "asked".into(),
        items: vec![ConversationItem::user("hi")],
        stream: None,
        tools: Some(vec![tool("web_search"), tool("edit")]),
        tool_choice: Some(Json::text("auto")),
        temperature: None,
        max_tokens: None,
        reasoning_effort: Some("low".into()),
        hosted_tools: vec![],
        previous_response_id: None,
        response_format: None,
    }
}

fn hosted() -> Vec<HostedTool> {
    vec![HostedTool { wire_name: "web_search".into(), entry: Json::Null }]
}

#[test]
fn requests_are_made_over_for_the_slot() {
    let mut slot = slot_from_target(&target("a", "https://a", "own"));
    slot.reasoning_effort = Some("high".into());
    let out = rewrite_request_for(&request(), &slot, "p/m", hosted());
    assert_eq!((out.model.as_str(), out.reasoning_effort.as_deref()), ("own", Some("high")));
    assert_eq!(out.tools, Some(vec![tool("edit")]));
    assert_eq!(out.hosted_tools, hosted());
    assert_eq!(out.items, request().items);
    slot.model = String::new();
    slot.reasoning_effort = None;
    let plain = rewrite_request_for(&request(), &slot, "p/m", vec![]);
    assert_eq!((plain.model.as_str(), plain.reasoning_effort.as_deref()), ("asked", Some("low")));
}

fn message(origin: Option<&str>) -> ConversationItem {
    ConversationItem::Assistant(AssistantItem {
        content: "hello".into(),
        tool_calls: vec![],
        reasoning_content: Some("thoughts".into()),
        encrypted_reasoning: Some("sig".into()),
        origin: origin.map(String::from),
    })
}

fn thought(id: &str) -> ConversationItem {
    ConversationItem::Reasoning(ReasoningItem {
        id: id.into(),
        summary: vec![],
        content: None,
        encrypted_content: Some("enc".into()),
        status: None,
    })
}

#[test]
fn requests_carry_no_foreign_reasoning() {
    let key = "grok_build/grok-4.6";
    let mut slot = slot_from_target(&target("a", "https://a", "own"));
    let mut req = request();
    req.items = vec![ConversationItem::user("x"), thought("rs_abc"), message(Some(key))];
    slot.compat_key = key.into();
    assert_eq!(rewrite_request_for(&req, &slot, key, vec![]).items, req.items);
    for other in ["claude_code/grok-4.6", "grok_build/grok-3"] {
        slot.compat_key = other.into();
        let out = rewrite_request_for(&req, &slot, key, vec![]);
        assert_eq!(out.items.len(), 2);
        assert_eq!(out.items[0], req.items[0]);
        match &out.items[1] {
            ConversationItem::Assistant(a) => {
                assert_eq!(a.content, "hello");
                assert_eq!((&a.reasoning_content, &a.encrypted_reasoning), (&None, &None));
                assert_eq!(a.origin.as_deref(), Some(key));
            }
            item => panic!("{item:?}"),
        }
    }
}

#[test]
fn reasoning_goes_with_the_message_it_leads_to() {
    let backend = ConversationItem::BackendToolCall(BackendToolCallItem { payload: Json::Null });
    let items = vec![
        thought("1"),
        backend.clone(),
        thought("2"),
        message(Some("a")),
        thought("3"),
        message(None),
        thought("4"),
        ConversationItem::user("x"),
        message(Some("a")),
        thought("5"),
    ];
    let ids = |seen: &Vec<ConversationItem>| -> Vec<String> {
        seen.iter()
            .filter_map(|item| match item {
                ConversationItem::Reasoning(r) => Some(r.id.clone()),
                _ => None,
            })
            .collect()
    };
    let own = sanitize_items_for_provider(&items, "a", "p");
    assert_eq!(ids(&own), ["1", "2"]);
    assert_eq!(own.len(), items.len() - 3);
    assert_eq!((&own[1], &own[3]), (&backend, &message(Some("a"))));
    assert_eq!(ids(&sanitize_items_for_provider(&items, "p", "p")), ["3", "4", "5"]);
    assert!(ids(&sanitize_items_for_provider(&items, "z", "p")).is_empty());
}

#[test]
fn forbidden_tools_are_not_offered() {
    let mut req = request();
    req.tool_choice = Some(Json::text("NoNe"));
    let slot = slot_from_target(&target("a", "https://a", "m"));
    let out = rewrite_request_for(&req, &slot, "p/m", hosted());
    assert_eq!(out.tools, None);
    assert!(out.hosted_tools.is_empty());
    assert_eq!(out.tool_choice, Some(Json::text("none")));
}

#[test]
fn no_tools_left_is_no_tools() {
    assert_eq!(drop_colliding_function_tools(&vec![tool("web_search")], &hosted()), None);
    assert_eq!(
        drop_colliding_function_tools(&vec![tool("a")], &hosted()),
        Some(vec![tool("a")])
    );
}
