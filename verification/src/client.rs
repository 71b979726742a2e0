//! A client that is bound to a pool of providers.
use vstd::prelude::*;

use crate::error::{EngineError, EngineErrorView};
use crate::events::Workload;
use crate::failover;
use crate::failover::sanitize_items_for_provider;
use crate::json::{Json, JsonView};
use crate::slots;
use crate::slots::{
    bind_http_slots, bind_injected_slots, find_slot, insert_slot, synthetic_router, ApiBackend,
    BoundSlots, BoundSlotsView, EngineConfig, Header, HeaderView, HttpSlotFactory,
    HttpSlotFactoryView, LlmRoutingConfig, LlmRoutingConfigView, PoolMemberView, ProviderSlot,
    ProviderSlotView, RetryPolicy, SyntheticRouting, MAIN_POOL_ID,
};
use crate::text;
use crate::text::{eq_ignore_ascii_case, join, str_eq, trim};
use crate::types::{
    ConversationRequest, ConversationRequestView, HostedTool, HostedToolView, ToolDefinition,
    ToolDefinitionView,
};

verus! {

/// The provider that last answered.
#[derive(Debug, PartialEq, Eq)]
pub struct LastSuccess {
    pub compat_key: String,
    pub provider_id: String,
}

/// What a [`LastSuccess`] holds.
#[verifier::ext_equal]
pub struct LastSuccessView {
    pub compat_key: Seq<char>,
    pub provider_id: Seq<char>,
}

impl DeepView for LastSuccess {
    type V = LastSuccessView;

    open spec fn deep_view(&self) -> LastSuccessView {
        LastSuccessView {
            compat_key: self.compat_key@,
            provider_id: self.provider_id@,
        }
    }
}

impl Clone for LastSuccess {
    fn clone(&self) -> (out: LastSuccess)
        ensures
            out.deep_view() == self.deep_view(),
    {
        LastSuccess {
            compat_key: self.compat_key.clone(),
            provider_id: self.provider_id.clone(),
        }
    }
}

/// Where a provider is reached, with its credentials.
#[derive(Debug, PartialEq, Eq)]
pub struct LlmEndpoint {
    pub provider_id: String,
    pub base_url: String,
    pub api_key: String,
    pub model: String,
    pub api_backend: ApiBackend,
    pub extra_headers: Vec<Header>,
}

/// What a [`LlmEndpoint`] holds.
#[verifier::ext_equal]
pub struct LlmEndpointView {
    pub provider_id: Seq<char>,
    pub base_url: Seq<char>,
    pub api_key: Seq<char>,
    pub model: Seq<char>,
    pub api_backend: ApiBackend,
    pub extra_headers: Seq<HeaderView>,
}

impl DeepView for LlmEndpoint {
    type V = LlmEndpointView;

    open spec fn deep_view(&self) -> LlmEndpointView {
        LlmEndpointView {
            provider_id: self.provider_id@,
            base_url: self.base_url@,
            api_key: self.api_key@,
            model: self.model@,
            api_backend: self.api_backend,
            extra_headers: self.extra_headers.deep_view(),
        }
    }
}

impl Clone for LlmEndpoint {
    fn clone(&self) -> (out: LlmEndpoint)
        ensures
            out.deep_view() == self.deep_view(),
    {
        LlmEndpoint {
            provider_id: self.provider_id.clone(),
            base_url: self.base_url.clone(),
            api_key: self.api_key.clone(),
            model: self.model.clone(),
            api_backend: self.api_backend,
            extra_headers: self.extra_headers.clone(),
        }
    }
}

/// Which providers an operation visits, and in which order.
#[derive(Debug, PartialEq, Eq)]
pub struct VisitPlan {
    /// The generation of the configuration that it was made from.
    pub generation: u64,
    pub provider_ids: Vec<String>,
    /// A provider that fails is followed by the next.
    pub chain_mode: bool,
    pub retry: RetryPolicy,
}

/// What a [`VisitPlan`] holds.
#[verifier::ext_equal]
pub struct VisitPlanView {
    pub generation: u64,
    pub provider_ids: Seq<Seq<char>>,
    pub chain_mode: bool,
    pub retry: RetryPolicy,
}

impl DeepView for VisitPlan {
    type V = VisitPlanView;

    open spec fn deep_view(&self) -> VisitPlanView {
        VisitPlanView {
            generation: self.generation,
            provider_ids: self.provider_ids.deep_view(),
            chain_mode: self.chain_mode,
            retry: self.retry,
        }
    }
}

impl Clone for VisitPlan {
    fn clone(&self) -> (out: VisitPlan)
        ensures
            out.deep_view() == self.deep_view(),
    {
        VisitPlan {
            generation: self.generation,
            provider_ids: self.provider_ids.clone(),
            chain_mode: self.chain_mode,
            retry: self.retry,
        }
    }
}

/// What an operation keeps of the configuration, however that changes later.
#[derive(Debug, PartialEq, Eq)]
pub struct CapturedOperation {
    pub plan: VisitPlan,
    /// The slots of the plan's providers.
    pub providers: Vec<ProviderSlot>,
    pub primary_compat_key: String,
}

/// What a [`CapturedOperation`] holds.
#[verifier::ext_equal]
pub struct CapturedOperationView {
    pub plan: VisitPlanView,
    pub providers: Seq<ProviderSlotView>,
    pub primary_compat_key: Seq<char>,
}

impl DeepView for CapturedOperation {
    type V = CapturedOperationView;

    open spec fn deep_view(&self) -> CapturedOperationView {
        CapturedOperationView {
            plan: self.plan.deep_view(),
            providers: self.providers.deep_view(),
            primary_compat_key: self.primary_compat_key@,
        }
    }
}

impl Clone for CapturedOperation {
    fn clone(&self) -> (out: CapturedOperation)
        ensures
            out.deep_view() == self.deep_view(),
    {
        CapturedOperation {
            plan: self.plan.clone(),
            providers: self.providers.clone(),
            primary_compat_key: self.primary_compat_key.clone(),
        }
    }
}

/// A client that is bound to a pool.
#[derive(Debug, PartialEq, Eq)]
pub struct LlmClient {
    pub pool_id: String,
    /// What the events of the client are labelled with.
    pub workload: Workload,
    pub slots: BoundSlots,
    /// There for a client over HTTP, whose slots follow the configuration. A client
    /// with transports of its caller keeps its slots.
    pub http_factory: Option<HttpSlotFactory>,
    pub doom_loop_max_retries: u32,
    pub last_success: Option<LastSuccess>,
}

/// What a [`LlmClient`] holds.
#[verifier::ext_equal]
pub struct LlmClientView {
    pub pool_id: Seq<char>,
    pub workload: Workload,
    pub slots: BoundSlotsView,
    pub http_factory: Option<HttpSlotFactoryView>,
    pub doom_loop_max_retries: u32,
    pub last_success: Option<LastSuccessView>,
}

impl DeepView for LlmClient {
    type V = LlmClientView;

    open spec fn deep_view(&self) -> LlmClientView {
        LlmClientView {
            pool_id: self.pool_id@,
            workload: self.workload,
            slots: self.slots.deep_view(),
            http_factory: self.http_factory.deep_view(),
            doom_loop_max_retries: self.doom_loop_max_retries,
            last_success: self.last_success.deep_view(),
        }
    }
}

impl Clone for LlmClient {
    fn clone(&self) -> (out: LlmClient)
        ensures
            out.deep_view() == self.deep_view(),
    {
        LlmClient {
            pool_id: self.pool_id.clone(),
            workload: self.workload,
            slots: self.slots.clone(),
            http_factory: self.http_factory.clone(),
            doom_loop_max_retries: self.doom_loop_max_retries,
            last_success: self.last_success.clone(),
        }
    }
}

// ── Making a client ─────────────────────────────────────────────────────

/// The slot of a transport that the caller has.
pub open spec fn plain_slot(
    label: Seq<char>,
    provider_id: Seq<char>,
    model: Seq<char>,
) -> ProviderSlotView {
    ProviderSlotView {
        provider_id,
        fingerprint: label,
        compat_key: label,
        model,
        api_backend: ApiBackend::ChatCompletions,
        reasoning_effort: None,
        enable_web_search: false,
        web_search_options: None,
        enable_x_search: false,
        x_search_options: None,
    }
}

fn make_plain_slot(label: &str, provider_id: &str, model: &str) -> (slot: ProviderSlot)
    ensures
        slot.deep_view() == plain_slot(label@, provider_id@, model@),
{
    ProviderSlot {
        provider_id: provider_id.to_owned(),
        fingerprint: label.to_owned(),
        compat_key: label.to_owned(),
        model: model.to_owned(),
        api_backend: ApiBackend::ChatCompletions,
        reasoning_effort: None,
        enable_web_search: false,
        web_search_options: None,
        enable_x_search: false,
        x_search_options: None,
    }
}

/// A transport of the caller: the label of its provider and the model it asks for.
pub struct NamedTransport {
    pub fingerprint: String,
    pub model: String,
}

/// The slots of some transports, each under its label.
pub open spec fn chain_slots(providers: Seq<NamedTransport>) -> Seq<ProviderSlotView> {
    providers.map_values(
        |t: NamedTransport| plain_slot(t.fingerprint@, t.fingerprint@, t.model@),
    )
}

/// The slots, each under its id; the last of those with the same id counts.
pub open spec fn slot_table(slots: Seq<ProviderSlotView>) -> Seq<ProviderSlotView>
    decreases slots.len(),
{
    if slots.len() == 0 {
        Seq::empty()
    } else {
        slots::with_slot(slot_table(slots.drop_last()), slots.last())
    }
}

/// The first key that is not empty.
pub open spec fn first_key(slots: Seq<ProviderSlotView>) -> Seq<char>
    decreases slots.len(),
{
    if slots.len() == 0 {
        Seq::empty()
    } else if first_key(slots.drop_last()).len() != 0 {
        first_key(slots.drop_last())
    } else {
        slots.last().compat_key
    }
}

/// A client with transports of the caller.
pub open spec fn unrouted_client(
    providers: Seq<ProviderSlotView>,
    max_retries: u32,
    failover_max_attempts: u32,
    primary_compat_key: Seq<char>,
    doom_loop_max_retries: u32,
) -> LlmClientView {
    LlmClientView {
        pool_id: MAIN_POOL_ID@,
        workload: Workload::Main,
        slots: BoundSlotsView {
            generation: 0,
            providers,
            max_retries,
            failover_max_attempts,
            primary_compat_key,
        },
        http_factory: None,
        doom_loop_max_retries,
        last_success: None,
    }
}

/// A client over a router.
pub open spec fn routed_client(
    pool_id: Seq<char>,
    slots: BoundSlotsView,
    http_factory: Option<HttpSlotFactoryView>,
    doom_loop_max_retries: u32,
) -> LlmClientView {
    LlmClientView {
        pool_id,
        workload: Workload::Main,
        slots,
        http_factory,
        doom_loop_max_retries,
        last_success: None,
    }
}

impl LlmClient {
    /// A client with one transport, and the configuration of the router for it.
    /// `made.max_retries` and `made.failover_max_attempts` are its budgets.
    pub fn new(name: &str, made: &SyntheticRouting, doom_loop_max_retries: u32) -> (made_client: (
        LlmClient,
        LlmRoutingConfig,
    ))
        ensures
            ({
                let slot = plain_slot(name@, "inline"@, ""@);
                &&& made_client.0.deep_view() == unrouted_client(
                    seq![slot],
                    made.max_retries,
                    made.failover_max_attempts,
                    name@,
                    doom_loop_max_retries,
                )
                &&& made_client.1.deep_view() == slots::synthetic_config(*made, seq![slot])
            }),
    {
        let slot = make_plain_slot(name, "inline", "");
        let mut providers: Vec<ProviderSlot> = Vec::new();
        providers.push(slot);
        assert(providers.deep_view() =~= seq![plain_slot(name@, "inline"@, ""@)]);
        let config = synthetic_router(made, &providers);
        let client = LlmClient {
            pool_id: MAIN_POOL_ID.to_owned(),
            workload: Workload::Main,
            slots: BoundSlots {
                generation: 0,
                providers,
                max_retries: made.max_retries,
                failover_max_attempts: made.failover_max_attempts,
                primary_compat_key: name.to_owned(),
            },
            http_factory: None,
            doom_loop_max_retries,
            last_success: None,
        };
        (client, config)
    }

    /// A client with a chain of transports, and the configuration of the router for
    /// them.
    pub fn with_chain(
        providers: &Vec<NamedTransport>,
        made: &SyntheticRouting,
        doom_loop_max_retries: u32,
    ) -> (made_client: (LlmClient, LlmRoutingConfig))
        ensures
            ({
                let chain = chain_slots(providers@);
                &&& made_client.0.deep_view() == unrouted_client(
                    slot_table(chain),
                    made.max_retries,
                    made.failover_max_attempts,
                    first_key(chain),
                    doom_loop_max_retries,
                )
                &&& made_client.1.deep_view() == slots::synthetic_config(*made, chain)
            }),
    {
        let ghost chain = chain_slots(providers@);
        let mut table: Vec<ProviderSlot> = Vec::new();
        let mut ordered: Vec<ProviderSlot> = Vec::new();
        let mut primary_compat_key = String::new();
        for i in 0..providers.len()
            invariant
                chain == chain_slots(providers@),
                table.deep_view() == slot_table(chain.take(i as int)),
                ordered.deep_view() == chain.take(i as int),
                primary_compat_key@ == first_key(chain.take(i as int)),
        {
            let transport = &providers[i];
            let slot = make_plain_slot(
                transport.fingerprint.as_str(),
                transport.fingerprint.as_str(),
                transport.model.as_str(),
            );
            assert(chain.take(i + 1).drop_last() =~= chain.take(i as int));
            if primary_compat_key.as_str().is_empty() {
                primary_compat_key = slot.compat_key.clone();
            }
            insert_slot(&mut table, slot.clone_slot());
            ordered.push(slot);
        }
        assert(chain.take(chain.len() as int) =~= chain);
        let config = synthetic_router(made, &ordered);
        let client = LlmClient {
            pool_id: MAIN_POOL_ID.to_owned(),
            workload: Workload::Main,
            slots: BoundSlots {
                generation: 0,
                providers: table,
                max_retries: made.max_retries,
                failover_max_attempts: made.failover_max_attempts,
                primary_compat_key,
            },
            http_factory: None,
            doom_loop_max_retries,
            last_success: None,
        };
        (client, config)
    }

    /// Binds a client to a pool of the router's current configuration, over HTTP.
    /// `failures` holds, for each member of the pool, why its transport could not be
    /// built, where it could not.
    pub fn from_router(
        pool_id: &str,
        generation: u64,
        snapshot: &LlmRoutingConfig,
        cfg: &EngineConfig,
        failures: &Vec<Option<EngineError>>,
        doom_loop_max_retries: u32,
    ) -> (client: Result<LlmClient, EngineError>)
        ensures
            ({
                let view = snapshot.deep_view();
                let faults = failures.deep_view();
                match slots::pool_of(view.pools, pool_id@) {
                    None => client matches Err(error) && error.deep_view()
                        == (EngineErrorView::RouteNotConfigured { pool_id: pool_id@ }),
                    Some(pool) => match client {
                        Ok(made) => {
                            &&& made.deep_view() == routed_client(
                                pool_id@,
                                slots::bound_to(generation, view.providers, pool),
                                Some(
                                    HttpSlotFactoryView {
                                        stream_idle_timeout_secs: cfg.stream_idle_timeout_secs,
                                        http_dump: cfg.deep_view().http_dump,
                                        dumps_dir: cfg.deep_view().http_dumps_dir,
                                        enable_doom_loop_check: cfg.enable_doom_loop_check,
                                    },
                                ),
                                doom_loop_max_retries,
                            )
                            &&& forall|i: int|
                                0 <= i < pool.members.len() ==> slots::http_fault(
                                    pool_id@,
                                    view.providers,
                                    faults,
                                    i,
                                    #[trigger] pool.members[i],
                                ) is None
                        },
                        Err(error) => exists|at: int|
                            {
                                &&& 0 <= at < pool.members.len()
                                &&& slots::http_fault(
                                    pool_id@,
                                    view.providers,
                                    faults,
                                    at,
                                    #[trigger] pool.members[at],
                                ) == Some(error.deep_view())
                                &&& forall|i: int|
                                    0 <= i < at ==> slots::http_fault(
                                        pool_id@,
                                        view.providers,
                                        faults,
                                        i,
                                        #[trigger] pool.members[i],
                                    ) is None
                            },
                    },
                }
            }),
    {
        let factory = HttpSlotFactory::from_engine(cfg);
        match bind_http_slots(pool_id, generation, snapshot, failures) {
            Ok(bound) => Ok(
                LlmClient {
                    pool_id: pool_id.to_owned(),
                    workload: Workload::Main,
                    slots: bound,
                    http_factory: Some(factory),
                    doom_loop_max_retries,
                    last_success: None,
                },
            ),
            Err(error) => Err(error),
        }
    }

    /// Binds a client to a pool of the router's current configuration, with
    /// transports that the caller has for these providers.
    pub fn from_router_with_transports(
        pool_id: &str,
        generation: u64,
        snapshot: &LlmRoutingConfig,
        transports: &Vec<String>,
        doom_loop_max_retries: u32,
    ) -> (client: Result<LlmClient, EngineError>)
        ensures
            ({
                let view = snapshot.deep_view();
                let ids = transports.deep_view();
                match slots::pool_of(view.pools, pool_id@) {
                    None => client matches Err(error) && error.deep_view()
                        == (EngineErrorView::RouteNotConfigured { pool_id: pool_id@ }),
                    Some(pool) => match client {
                        Ok(made) => {
                            &&& made.deep_view() == routed_client(
                                pool_id@,
                                slots::bound_to(generation, view.providers, pool),
                                None,
                                doom_loop_max_retries,
                            )
                            &&& forall|i: int|
                                0 <= i < pool.members.len() ==> slots::injected_fault(
                                    pool_id@,
                                    view.providers,
                                    ids,
                                    #[trigger] pool.members[i],
                                ) is None
                        },
                        Err(error) => exists|at: int|
                            {
                                &&& 0 <= at < pool.members.len()
                                &&& slots::injected_fault(
                                    pool_id@,
                                    view.providers,
                                    ids,
                                    #[trigger] pool.members[at],
                                ) == Some(error.deep_view())
                                &&& forall|i: int|
                                    0 <= i < at ==> slots::injected_fault(
                                        pool_id@,
                                        view.providers,
                                        ids,
                                        #[trigger] pool.members[i],
                                    ) is None
                            },
                    },
                }
            }),
    {
        match bind_injected_slots(pool_id, generation, snapshot, transports) {
            Ok(bound) => Ok(
                LlmClient {
                    pool_id: pool_id.to_owned(),
                    workload: Workload::Main,
                    slots: bound,
                    http_factory: None,
                    doom_loop_max_retries,
                    last_success: None,
                },
            ),
            Err(error) => Err(error),
        }
    }

    /// The client with events labelled for a workload.
    pub fn with_workload(self, workload: Workload) -> (client: LlmClient)
        ensures
            client.deep_view() == (LlmClientView { workload, ..self.deep_view() }),
    {
        LlmClient { workload, ..self }
    }

    /// What the events of the client are labelled with.
    pub fn workload(&self) -> (workload: Workload)
        ensures
            workload == self.deep_view().workload,
    {
        self.workload
    }

    /// The pool that the client is bound to.
    pub fn pool_id(&self) -> (pool_id: &str)
        ensures
            pool_id@ == self.deep_view().pool_id,
    {
        self.pool_id.as_str()
    }
}

// ── What the last answer decides ────────────────────────────────────────

/// A member of the pool has this id.
pub open spec fn is_member(
    config: LlmRoutingConfigView,
    pool_id: Seq<char>,
    id: Seq<char>,
) -> bool {
    match slots::pool_of(config.pools, pool_id) {
        Some(pool) => exists|i: int|
            0 <= i < pool.members.len() && (#[trigger] pool.members[i]).provider_id == id,
        None => false,
    }
}

/// The first member of a list that is enabled.
pub open spec fn first_enabled(members: Seq<PoolMemberView>) -> Option<Seq<char>>
    decreases members.len(),
{
    if members.len() == 0 {
        None
    } else if members[0].enabled {
        Some(members[0].provider_id)
    } else {
        first_enabled(members.drop_first())
    }
}

/// How a provider is reached, where the configuration knows it and has an address
/// and a key for it.
pub open spec fn endpoint_of(
    config: LlmRoutingConfigView,
    id: Seq<char>,
) -> Option<LlmEndpointView> {
    match slots::target_of(config.providers, id) {
        Some(target) => if text::trimmed(target.api_key).len() == 0 || text::trimmed(
            target.base_url,
        ).len() == 0 {
            None
        } else {
            Some(
                LlmEndpointView {
                    provider_id: target.provider_id,
                    base_url: target.base_url,
                    api_key: target.api_key,
                    model: target.model,
                    api_backend: target.api_backend,
                    extra_headers: target.extra_headers,
                },
            )
        },
        None => None,
    }
}

/// The endpoints of the enabled members other than one.
pub open spec fn other_endpoints(
    config: LlmRoutingConfigView,
    members: Seq<PoolMemberView>,
    current: Option<Seq<char>>,
) -> Seq<LlmEndpointView>
    decreases members.len(),
{
    if members.len() == 0 {
        Seq::empty()
    } else {
        let before = other_endpoints(config, members.drop_last(), current);
        let member = members.last();
        match endpoint_of(config, member.provider_id) {
            Some(endpoint) if member.enabled && current != Some(member.provider_id) => before.push(
                endpoint,
            ),
            _ => before,
        }
    }
}

impl LlmClientView {
    /// The key under which the last answer was given, or else the primary one.
    pub open spec fn origin(self) -> Seq<char> {
        match self.last_success {
            Some(success) => success.compat_key,
            None => self.slots.primary_compat_key,
        }
    }

    /// The provider that is selected: the one that last answered, while it is in
    /// the pool, or else the first enabled member.
    pub open spec fn selected(self, config: LlmRoutingConfigView) -> Option<Seq<char>> {
        match self.last_success {
            Some(success) if is_member(config, self.pool_id, success.provider_id) => Some(
                success.provider_id,
            ),
            _ => match slots::pool_of(config.pools, self.pool_id) {
                Some(pool) => first_enabled(pool.members),
                None => None,
            },
        }
    }

    /// How the selected provider is reached; nothing for a client with transports of
    /// its caller.
    pub open spec fn endpoint(self, config: LlmRoutingConfigView) -> Option<LlmEndpointView> {
        match self.selected(config) {
            Some(id) if self.http_factory is Some => endpoint_of(config, id),
            _ => None,
        }
    }

    /// How the other enabled members are reached, in the pool's order; nothing for a
    /// client with transports of its caller.
    pub open spec fn fallbacks(self, config: LlmRoutingConfigView) -> Seq<LlmEndpointView> {
        match slots::pool_of(config.pools, self.pool_id) {
            Some(pool) if self.http_factory is Some => other_endpoints(
                config,
                pool.members,
                self.selected(config),
            ),
            _ => Seq::empty(),
        }
    }
}

impl LlmClient {
    /// The compatibility key of the provider that last answered, or of the primary.
    pub fn origin_fingerprint(&self) -> (key: String)
        ensures
            key@ == self.deep_view().origin(),
    {
        match &self.last_success {
            Some(success) => success.compat_key.clone(),
            None => self.primary_compat_key(),
        }
    }

    /// The compatibility key of the primary provider.
    pub fn primary_compat_key(&self) -> (key: String)
        ensures
            key@ == self.deep_view().slots.primary_compat_key,
    {
        self.slots.primary_compat_key.clone()
    }

    fn last_success_provider_id(&self, snapshot: &LlmRoutingConfig) -> (id: Option<String>)
        ensures
            id.deep_view() == match self.deep_view().last_success {
                Some(success) if is_member(
                    snapshot.deep_view(),
                    self.deep_view().pool_id,
                    success.provider_id,
                ) => Some(success.provider_id),
                _ => None,
            },
    {
        let success = match &self.last_success {
            Some(success) => success,
            None => {
                return None;
            },
        };
        match snapshot.pool(self.pool_id.as_str()) {
            Some(pool) => {
                let ghost members = pool.deep_view().members;
                for i in 0..pool.members.len()
                    invariant
                        members == pool.deep_view().members,
                        members == pool.members.deep_view(),
                        slots::pool_of(
                            snapshot.deep_view().pools,
                            self.deep_view().pool_id,
                        ) == Some(pool.deep_view()),
                        self.deep_view().last_success == Some(success.deep_view()),
                        forall|j: int|
                            0 <= j < i ==> (#[trigger] members[j]).provider_id
                                != success.provider_id@,
                {
                    if str_eq(pool.members[i].provider_id.as_str(), success.provider_id.as_str()) {
                        let ghost found = slots::pool_of(
                            snapshot.deep_view().pools,
                            self.deep_view().pool_id,
                        ).unwrap();
                        assert(found.members[i as int].provider_id == success.provider_id@);
                        return Some(success.provider_id.clone());
                    }
                }
                None
            },
            None => None,
        }
    }

    /// The first enabled member of the client's pool.
    pub fn primary_provider_id(&self, snapshot: &LlmRoutingConfig) -> (id: Option<String>)
        ensures
            id.deep_view() == match slots::pool_of(
                snapshot.deep_view().pools,
                self.deep_view().pool_id,
            ) {
                Some(pool) => first_enabled(pool.members),
                None => None,
            },
    {
        match snapshot.pool(self.pool_id.as_str()) {
            Some(pool) => {
                let ghost members = pool.deep_view().members;
                assert(members.skip(0) =~= members);
                for i in 0..pool.members.len()
                    invariant
                        members == pool.deep_view().members,
                        members == pool.members.deep_view(),
                        slots::pool_of(
                            snapshot.deep_view().pools,
                            self.deep_view().pool_id,
                        ) == Some(pool.deep_view()),
                        first_enabled(members) == first_enabled(members.skip(i as int)),
                {
                    assert(members.skip(i as int).drop_first() =~= members.skip(i + 1));
                    if pool.members[i].enabled {
                        return Some(pool.members[i].provider_id.clone());
                    }
                }
                None
            },
            None => None,
        }
    }

    fn selected_provider_id(&self, snapshot: &LlmRoutingConfig) -> (id: Option<String>)
        ensures
            id.deep_view() == self.deep_view().selected(snapshot.deep_view()),
    {
        match self.last_success_provider_id(snapshot) {
            Some(id) => Some(id),
            None => self.primary_provider_id(snapshot),
        }
    }

    /// How the selected provider is reached.
    pub fn current_endpoint(&self, snapshot: &LlmRoutingConfig) -> (endpoint: Option<LlmEndpoint>)
        ensures
            endpoint.deep_view() == self.deep_view().endpoint(snapshot.deep_view()),
    {
        if self.http_factory.is_none() {
            return None;
        }
        match self.selected_provider_id(snapshot) {
            Some(id) => endpoint_for_provider(snapshot, id.as_str()),
            None => None,
        }
    }

    /// How the other enabled members of the pool are reached.
    pub fn fallback_endpoints(&self, snapshot: &LlmRoutingConfig) -> (endpoints: Vec<LlmEndpoint>)
        ensures
            endpoints.deep_view() == self.deep_view().fallbacks(snapshot.deep_view()),
    {
        let mut endpoints: Vec<LlmEndpoint> = Vec::new();
        if self.http_factory.is_none() {
            return endpoints;
        }
        let current = self.selected_provider_id(snapshot);
        let pool = match snapshot.pool(self.pool_id.as_str()) {
            Some(pool) => pool,
            None => {
                return endpoints;
            },
        };
        let ghost config = snapshot.deep_view();
        let ghost members = pool.deep_view().members;
        for i in 0..pool.members.len()
            invariant
                config == snapshot.deep_view(),
                members == pool.members.deep_view(),
                endpoints.deep_view() == other_endpoints(
                    config,
                    members.take(i as int),
                    current.deep_view(),
                ),
        {
            let member = &pool.members[i];
            assert(members.take(i + 1).drop_last() =~= members.take(i as int));
            let is_current = match &current {
                Some(id) => str_eq(id.as_str(), member.provider_id.as_str()),
                None => false,
            };
            if member.enabled && !is_current {
                if let Some(endpoint) = endpoint_for_provider(
                    snapshot,
                    member.provider_id.as_str(),
                ) {
                    endpoints.push(endpoint);
                }
            }
        }
        assert(members.take(members.len() as int) =~= members);
        endpoints
    }

    /// Remembers the provider that answered.
    pub fn record_success(&mut self, slot: &ProviderSlot)
        ensures
            final(self).deep_view() == (LlmClientView {
                last_success: Some(
                    LastSuccessView {
                        compat_key: slot.deep_view().compat_key,
                        provider_id: slot.deep_view().provider_id,
                    },
                ),
                ..old(self).deep_view()
            }),
            final(self).deep_view().origin() == slot.deep_view().compat_key,
    {
        self.last_success = Some(
            LastSuccess {
                compat_key: slot.compat_key.clone(),
                provider_id: slot.provider_id.clone(),
            },
        );
    }
}

/// How a provider is reached, where the configuration has an address and a key.
pub fn endpoint_for_provider(snapshot: &LlmRoutingConfig, provider_id: &str) -> (endpoint: Option<
    LlmEndpoint,
>)
    ensures
        endpoint.deep_view() == endpoint_of(snapshot.deep_view(), provider_id@),
{
    match snapshot.provider(provider_id) {
        Some(target) => {
            if trim(target.api_key.as_str()).as_str().is_empty() || trim(
                target.base_url.as_str(),
            ).as_str().is_empty() {
                return None;
            }
            let of = target.clone();
            Some(
                LlmEndpoint {
                    provider_id: of.provider_id,
                    base_url: of.base_url,
                    api_key: of.api_key,
                    model: of.model,
                    api_backend: of.api_backend,
                    extra_headers: of.extra_headers,
                },
            )
        },
        None => None,
    }
}

/// The selected provider is never among the fallbacks.
pub proof fn law_fallbacks_exclude_the_selected(
    config: LlmRoutingConfigView,
    members: Seq<PoolMemberView>,
    current: Seq<char>,
)
    ensures
        forall|i: int|
            0 <= i < other_endpoints(config, members, Some(current)).len() ==> (
            #[trigger] other_endpoints(config, members, Some(current))[i]).provider_id != current,
    decreases members.len(),
{
    if members.len() > 0 {
        law_fallbacks_exclude_the_selected(config, members.drop_last(), current);
        slots::law_target_has_the_id(config.providers, members.last().provider_id);
    }
}

/// The fallbacks are the members in the pool's order, but for those that are
/// disabled, that are selected, or that the configuration gives no address or key.
pub proof fn law_fallbacks_follow_the_pool(
    config: LlmRoutingConfigView,
    members: Seq<PoolMemberView>,
    current: Option<Seq<char>>,
)
    ensures
        other_endpoints(config, members, current) == members.filter(
            |member: PoolMemberView|
                member.enabled && Some(member.provider_id) != current && endpoint_of(
                    config,
                    member.provider_id,
                ) is Some,
        ).map_values(
            |member: PoolMemberView| endpoint_of(config, member.provider_id).unwrap(),
        ),
    decreases members.len(),
{
    reveal(Seq::filter);
    let kept = |member: PoolMemberView|
        member.enabled && Some(member.provider_id) != current && endpoint_of(
            config,
            member.provider_id,
        ) is Some;
    let reached = |member: PoolMemberView| endpoint_of(config, member.provider_id).unwrap();
    if members.len() > 0 {
        law_fallbacks_follow_the_pool(config, members.drop_last(), current);
    }
    assert(other_endpoints(config, members, current) =~= members.filter(kept).map_values(reached));
}

/// The endpoint of a client is that of its selected provider, and no fallback
/// repeats it.
pub proof fn law_fallbacks_do_not_repeat_the_endpoint(
    client: LlmClientView,
    config: LlmRoutingConfigView,
)
    ensures
        client.endpoint(config) matches Some(endpoint) ==> {
            &&& client.selected(config) == Some(endpoint.provider_id)
            &&& forall|i: int|
                0 <= i < client.fallbacks(config).len() ==> (#[trigger] client.fallbacks(
                    config,
                )[i]).provider_id != endpoint.provider_id
        },
{
    if let Some(id) = client.selected(config) {
        slots::law_target_has_the_id(config.providers, id);
        if let Some(pool) = slots::pool_of(config.pools, client.pool_id) {
            law_fallbacks_exclude_the_selected(config, pool.members, id);
        }
    }
}

/// A client with transports of its caller names no endpoint, so no credentials.
pub proof fn law_unrouted_client_has_no_endpoint(
    client: LlmClientView,
    config: LlmRoutingConfigView,
)
    requires
        client.http_factory is None,
    ensures
        client.endpoint(config) is None,
        client.fallbacks(config).len() == 0,
{
}

// ── Requests for a slot ─────────────────────────────────────────────────

/// The tool choice forbids tools.
pub open spec fn forbids_tools(tool_choice: Option<JsonView>) -> bool {
    match tool_choice {
        Some(JsonView::Text(choice)) => text::same_ignoring_ascii_case(choice, "none"@),
        _ => false,
    }
}

/// A hosted tool has this name.
pub open spec fn is_hosted(hosted: Seq<HostedToolView>, name: Seq<char>) -> bool {
    exists|i: int| 0 <= i < hosted.len() && (#[trigger] hosted[i]).wire_name == name
}

/// The tools that no hosted tool stands in for, in their order.
pub open spec fn own_tools(tools: Seq<ToolDefinitionView>, hosted: Seq<HostedToolView>) -> Seq<
    ToolDefinitionView,
>
    decreases tools.len(),
{
    if tools.len() == 0 {
        Seq::empty()
    } else {
        let before = own_tools(tools.drop_last(), hosted);
        if is_hosted(hosted, tools.last().function.name) {
            before
        } else {
            before.push(tools.last())
        }
    }
}

/// Whether a hosted tool has this name.
pub fn hosts_tool(hosted: &Vec<HostedTool>, name: &str) -> (found: bool)
    ensures
        found == is_hosted(hosted.deep_view(), name@),
{
    let ghost view = hosted.deep_view();
    for i in 0..hosted.len()
        invariant
            view == hosted.deep_view(),
            forall|j: int| 0 <= j < i ==> (#[trigger] view[j]).wire_name != name@,
    {
        assert(view[i as int] == hosted@[i as int].deep_view());
        if str_eq(hosted[i].wire_name.as_str(), name) {
            return true;
        }
    }
    false
}

/// The tools that no hosted tool stands in for; nothing where none is left.
pub fn drop_colliding_function_tools(
    tools: &Vec<ToolDefinition>,
    hosted: &Vec<HostedTool>,
) -> (kept: Option<Vec<ToolDefinition>>)
    ensures
        kept.deep_view() == (if own_tools(tools.deep_view(), hosted.deep_view()).len() == 0 {
            None
        } else {
            Some(own_tools(tools.deep_view(), hosted.deep_view()))
        }),
{
    let ghost view = tools.deep_view();
    let mut kept: Vec<ToolDefinition> = Vec::new();
    for i in 0..tools.len()
        invariant
            view == tools.deep_view(),
            kept.deep_view() == own_tools(view.take(i as int), hosted.deep_view()),
    {
        let tool = &tools[i];
        assert(view.take(i + 1).drop_last() =~= view.take(i as int));
        if !hosts_tool(hosted, tool.function.name.as_str()) {
            kept.push(tool.clone());
        }
    }
    assert(view.take(view.len() as int) =~= view);
    if kept.len() == 0 {
        None
    } else {
        Some(kept)
    }
}

/// The request as the provider of a slot gets it: with its model and effort, with
/// the tools it hosts in place of those of the same name, or without any tool
/// where the request forbids them, and with the history that it may see. `primary`
/// is the compatibility key of the primary provider, `hosted` are the tools that this
/// provider hosts.
pub open spec fn rewritten(
    req: ConversationRequestView,
    slot: ProviderSlotView,
    primary: Seq<char>,
    hosted: Seq<HostedToolView>,
) -> ConversationRequestView {
    let none = forbids_tools(req.tool_choice);
    let given = match req.tools {
        Some(tools) => tools,
        None => Seq::empty(),
    };
    ConversationRequestView {
        model: if slot.model.len() != 0 {
            slot.model
        } else {
            req.model
        },
        reasoning_effort: match slot.reasoning_effort {
            Some(effort) => Some(effort),
            None => req.reasoning_effort,
        },
        tools: if none || own_tools(given, hosted).len() == 0 {
            None
        } else {
            Some(own_tools(given, hosted))
        },
        hosted_tools: if none {
            Seq::empty()
        } else {
            hosted
        },
        tool_choice: if none {
            Some(JsonView::Text("none"@))
        } else {
            req.tool_choice
        },
        items: failover::seen_items(req.items, slot.compat_key, primary),
        ..req
    }
}

/// The request as the provider of a slot gets it.
pub fn rewrite_request_for(
    req: &ConversationRequest,
    slot: &ProviderSlot,
    primary_compat_key: &str,
    hosted: Vec<HostedTool>,
) -> (out: ConversationRequest)
    ensures
        out.deep_view() == rewritten(
            req.deep_view(),
            slot.deep_view(),
            primary_compat_key@,
            hosted.deep_view(),
        ),
{
    let mut out = req.clone();
    if !slot.model.as_str().is_empty() {
        out.model = slot.model.clone();
    }
    if slot.reasoning_effort.is_some() {
        out.reasoning_effort = slot.reasoning_effort.clone();
    }
    let tool_choice_none = match &req.tool_choice {
        Some(Json::Text(choice)) => eq_ignore_ascii_case(choice.as_str(), "none"),
        _ => false,
    };
    if tool_choice_none {
        out.tools = None;
        out.hosted_tools = Vec::new();
        out.tool_choice = Some(Json::text("none"));
    } else {
        out.tools = match &req.tools {
            Some(tools) => drop_colliding_function_tools(tools, &hosted),
            None => {
                None
            },
        };
        out.hosted_tools = hosted;
    }
    out.items = sanitize_items_for_provider(
        &req.items,
        slot.compat_key.as_str(),
        primary_compat_key,
    );
    out
}

proof fn lemma_own_tools_are_not_hosted(
    tools: Seq<ToolDefinitionView>,
    hosted: Seq<HostedToolView>,
)
    ensures
        forall|i: int|
            0 <= i < own_tools(tools, hosted).len() ==> !is_hosted(
                hosted,
                (#[trigger] own_tools(tools, hosted)[i]).function.name,
            ),
    decreases tools.len(),
{
    if tools.len() > 0 {
        lemma_own_tools_are_not_hosted(tools.drop_last(), hosted);
    }
}

/// No hosted tool has the name of this one.
pub open spec fn is_own(tool: ToolDefinitionView, hosted: Seq<HostedToolView>) -> bool {
    forall|i: int| 0 <= i < hosted.len() ==> (#[trigger] hosted[i]).wire_name != tool.function.name
}

/// The tools that stay are those whose name no hosted tool has, in their order and as
/// they are.
pub proof fn law_own_tools_stay_as_they_are(
    tools: Seq<ToolDefinitionView>,
    hosted: Seq<HostedToolView>,
)
    ensures
        own_tools(tools, hosted) == tools.filter(|tool: ToolDefinitionView| is_own(tool, hosted)),
    decreases tools.len(),
{
    reveal(Seq::filter);
    if tools.len() > 0 {
        law_own_tools_stay_as_they_are(tools.drop_last(), hosted);
        let tool = tools.last();
        if is_hosted(hosted, tool.function.name) {
            let i = choose|i: int|
                0 <= i < hosted.len() && (#[trigger] hosted[i]).wire_name == tool.function.name;
            assert(hosted[i].wire_name == tool.function.name);
        }
    }
}

/// A rewritten request never lists one name both as its own tool and as a hosted
/// one.
pub proof fn law_tool_names_do_not_collide(
    req: ConversationRequestView,
    slot: ProviderSlotView,
    primary: Seq<char>,
    hosted: Seq<HostedToolView>,
)
    ensures
        match rewritten(req, slot, primary, hosted).tools {
            Some(tools) => forall|i: int|
                0 <= i < tools.len() ==> !is_hosted(
                    rewritten(req, slot, primary, hosted).hosted_tools,
                    (#[trigger] tools[i]).function.name,
                ),
            None => true,
        },
{
    match req.tools {
        Some(tools) => lemma_own_tools_are_not_hosted(tools, hosted),
        None => {},
    }
}

/// A request that forbids tools offers none, on any provider.
pub proof fn law_forbidden_tools_are_not_offered(
    req: ConversationRequestView,
    slot: ProviderSlotView,
    primary: Seq<char>,
    hosted: Seq<HostedToolView>,
)
    requires
        forbids_tools(req.tool_choice),
    ensures
        rewritten(req, slot, primary, hosted).tools is None,
        rewritten(req, slot, primary, hosted).hosted_tools.len() == 0,
        rewritten(req, slot, primary, hosted).tool_choice == Some(JsonView::Text("none"@)),
{
}

// ── Capturing an operation ──────────────────────────────────────────────

/// How often a plan is made anew while the configuration changes.
pub const CAPTURE_ROUNDS: u32 = 4;

/// What came of a plan.
pub enum CaptureStep {
    /// The operation can start.
    Captured(CapturedOperation),
    /// The configuration has changed since: make another plan.
    Again,
    /// The operation cannot start.
    Failed(EngineError),
}

/// The current configuration, and why transports of the pool's members could not
/// be built, where they could not.
pub struct RoutingSnapshot {
    pub generation: u64,
    pub config: LlmRoutingConfig,
    pub failures: Vec<Option<EngineError>>,
}

impl RoutingSnapshot {
    /// No member of the pool has a fault.
    pub open spec fn is_sound(self, pool_id: Seq<char>) -> bool {
        match slots::pool_of(self.config.deep_view().pools, pool_id) {
            Some(pool) => forall|i: int|
                0 <= i < pool.members.len() ==> slots::http_fault(
                    pool_id,
                    self.config.deep_view().providers,
                    self.failures.deep_view(),
                    i,
                    #[trigger] pool.members[i],
                ) is None,
            None => false,
        }
    }

    /// This is what is wrong with the pool, of which nothing else is wrong earlier.
    pub open spec fn fault_is(self, pool_id: Seq<char>, error: EngineErrorView) -> bool {
        match slots::pool_of(self.config.deep_view().pools, pool_id) {
            Some(pool) => exists|at: int|
                {
                    &&& 0 <= at < pool.members.len()
                    &&& slots::http_fault(
                        pool_id,
                        self.config.deep_view().providers,
                        self.failures.deep_view(),
                        at,
                        #[trigger] pool.members[at],
                    ) == Some(error)
                    &&& forall|i: int|
                        0 <= i < at ==> slots::http_fault(
                            pool_id,
                            self.config.deep_view().providers,
                            self.failures.deep_view(),
                            i,
                            #[trigger] pool.members[i],
                        ) is None
                },
            None => error == (EngineErrorView::RouteNotConfigured { pool_id }),
        }
    }
}

impl LlmClientView {
    /// The client once its slots follow a generation. Over HTTP they are bound anew
    /// from the current configuration; otherwise only the budgets are taken over.
    pub open spec fn synced(
        self,
        generation: u64,
        retry: RetryPolicy,
        snapshot: RoutingSnapshot,
    ) -> LlmClientView {
        if self.slots.generation == generation {
            self
        } else if self.http_factory is Some {
            LlmClientView {
                slots: slots::bound_to(
                    snapshot.generation,
                    snapshot.config.deep_view().providers,
                    slots::pool_of(snapshot.config.deep_view().pools, self.pool_id).unwrap(),
                ),
                ..self
            }
        } else {
            LlmClientView {
                slots: BoundSlotsView {
                    max_retries: slots::at_least_one(retry.max_retries),
                    failover_max_attempts: slots::at_least_one(retry.failover_max_attempts),
                    generation,
                    ..self.slots
                },
                ..self
            }
        }
    }

    /// The slots have to be bound anew.
    pub open spec fn must_rebind(self, generation: u64) -> bool {
        self.slots.generation != generation && self.http_factory is Some
    }
}

/// The complaint about a provider that the client has no slot for.
pub open spec fn unbound(pool_id: Seq<char>, provider_id: Seq<char>) -> EngineErrorView {
    EngineErrorView::InvalidRoutingConfig(
        "pool '"@ + pool_id + "' visit plan references unbound provider_id '"@ + provider_id
            + "'"@,
    )
}

/// The error for a provider that the client has no slot for.
pub fn unbound_provider(pool_id: &str, provider_id: &str) -> (error: EngineError)
    ensures
        error.deep_view() == unbound(pool_id@, provider_id@),
{
    let mut message = join("pool '", pool_id);
    message.append("' visit plan references unbound provider_id '");
    message.append(provider_id);
    message.append("'");
    EngineError::InvalidRoutingConfig(message)
}

/// The slots of some providers, each under its id.
pub open spec fn captured_slots(slots: Seq<ProviderSlotView>, ids: Seq<Seq<char>>) -> Seq<
    ProviderSlotView,
>
    decreases ids.len(),
{
    if ids.len() == 0 {
        Seq::empty()
    } else {
        slots::with_slot(
            captured_slots(slots, ids.drop_last()),
            slots::slot_of(slots, ids.last()).unwrap(),
        )
    }
}

/// The first of some providers that has no slot.
pub open spec fn first_unbound(slots: Seq<ProviderSlotView>, ids: Seq<Seq<char>>) -> Option<
    Seq<char>,
>
    decreases ids.len(),
{
    if ids.len() == 0 {
        None
    } else {
        match first_unbound(slots, ids.drop_last()) {
            Some(id) => Some(id),
            None => if slots::slot_of(slots, ids.last()) is None {
                Some(ids.last())
            } else {
                None
            },
        }
    }
}

/// A client with transports of its caller keeps its slots, whatever becomes of the
/// configuration.
pub proof fn law_unrouted_slots_are_kept(
    client: LlmClientView,
    generation: u64,
    retry: RetryPolicy,
    snapshot: RoutingSnapshot,
)
    requires
        client.http_factory is None,
    ensures
        client.synced(generation, retry, snapshot).slots.providers == client.slots.providers,
        client.synced(generation, retry, snapshot).slots.generation == generation,
{
}

impl LlmClient {
    /// Makes the slots follow a generation of the configuration.
    pub fn sync_slots(
        &mut self,
        generation: u64,
        retry: &RetryPolicy,
        snapshot: &RoutingSnapshot,
    ) -> (outcome: Result<(), EngineError>)
        ensures
            match outcome {
                Ok(_) => {
                    &&& final(self).deep_view() == old(self).deep_view().synced(
                        generation,
                        *retry,
                        *snapshot,
                    )
                    &&& old(self).deep_view().must_rebind(generation) ==> snapshot.is_sound(
                        old(self).deep_view().pool_id,
                    )
                },
                Err(error) => {
                    &&& final(self).deep_view() == old(self).deep_view()
                    &&& old(self).deep_view().must_rebind(generation)
                    &&& snapshot.fault_is(old(self).deep_view().pool_id, error.deep_view())
                },
            },
    {
        if self.slots.generation == generation {
            return Ok(());
        }
        if self.http_factory.is_some() {
            match bind_http_slots(
                self.pool_id.as_str(),
                snapshot.generation,
                &snapshot.config,
                &snapshot.failures,
            ) {
                Ok(bound) => {
                    self.slots = bound;
                },
                Err(error) => {
                    return Err(error);
                },
            }
        } else {
            self.slots.max_retries = if retry.max_retries == 0 {
                1
            } else {
                retry.max_retries
            };
            self.slots.failover_max_attempts = if retry.failover_max_attempts == 0 {
                1
            } else {
                retry.failover_max_attempts
            };
            self.slots.generation = generation;
        }
        Ok(())
    }

    fn capture_slots(&self, ids: &Vec<String>) -> (captured: Result<Vec<ProviderSlot>, EngineError>)
        ensures
            ({
                let slots = self.deep_view().slots.providers;
                match captured {
                    Ok(found) => first_unbound(slots, ids.deep_view()) is None
                        && found.deep_view() == captured_slots(slots, ids.deep_view()),
                    Err(error) => match first_unbound(slots, ids.deep_view()) {
                        Some(id) => error.deep_view() == unbound(self.deep_view().pool_id, id),
                        None => false,
                    },
                }
            }),
    {
        let ghost slots = self.deep_view().slots.providers;
        let ghost view = ids.deep_view();
        let mut captured: Vec<ProviderSlot> = Vec::new();
        for i in 0..ids.len()
            invariant
                slots == self.deep_view().slots.providers,
                view == ids.deep_view(),
                first_unbound(slots, view.take(i as int)) is None,
                captured.deep_view() == captured_slots(slots, view.take(i as int)),
        {
            assert(view.take(i + 1).drop_last() =~= view.take(i as int));
            match find_slot(&self.slots.providers, ids[i].as_str()) {
                Some(slot) => {
                    insert_slot(&mut captured, slot.clone_slot());
                },
                None => {
                    proof {
                        lemma_first_unbound_stays(slots, view, i + 1);
                    }
                    return Err(unbound_provider(self.pool_id.as_str(), ids[i].as_str()));
                },
            }
        }
        assert(view.take(view.len() as int) =~= view);
        Ok(captured)
    }

    /// One round of capturing an operation: the plan holds if the slots follow its
    /// generation. `round` counts from 0.
    pub fn capture_operation(
        &mut self,
        round: u32,
        plan: VisitPlan,
        snapshot: &RoutingSnapshot,
    ) -> (step: CaptureStep)
        requires
            round < CAPTURE_ROUNDS,
        ensures
            ({
                let before = old(self).deep_view();
                let after = final(self).deep_view();
                let ids = plan.deep_view().provider_ids;
                if before.must_rebind(plan.generation) && !snapshot.is_sound(before.pool_id) {
                    &&& after == before
                    &&& step matches CaptureStep::Failed(error) && snapshot.fault_is(
                        before.pool_id,
                        error.deep_view(),
                    )
                } else {
                    &&& after == before.synced(plan.generation, plan.retry, *snapshot)
                    &&& if after.slots.generation != plan.generation {
                        if round + 1 < CAPTURE_ROUNDS {
                            step is Again
                        } else {
                            step matches CaptureStep::Failed(error) && error.deep_view()
                                == EngineErrorView::InvalidRoutingConfig(
                                "routing config changed while capturing a visit plan"@,
                            )
                        }
                    } else {
                        match first_unbound(after.slots.providers, ids) {
                            Some(id) => step matches CaptureStep::Failed(error)
                                && error.deep_view() == unbound(before.pool_id, id),
                            None => step matches CaptureStep::Captured(captured)
                                && captured.deep_view() == (CapturedOperationView {
                                plan: plan.deep_view(),
                                providers: captured_slots(after.slots.providers, ids),
                                primary_compat_key: after.slots.primary_compat_key,
                            }),
                        }
                    }
                }
            }),
    {
        match self.sync_slots(plan.generation, &plan.retry, snapshot) {
            Ok(_) => {},
            Err(error) => {
                return CaptureStep::Failed(error);
            },
        }
        if self.slots.generation != plan.generation {
            if round + 1 < CAPTURE_ROUNDS {
                return CaptureStep::Again;
            }
            return CaptureStep::Failed(
                EngineError::InvalidRoutingConfig(
                    "routing config changed while capturing a visit plan".to_owned(),
                ),
            );
        }
        match self.capture_slots(&plan.provider_ids) {
            Ok(providers) => CaptureStep::Captured(
                CapturedOperation {
                    plan,
                    providers,
                    primary_compat_key: self.slots.primary_compat_key.clone(),
                },
            ),
            Err(error) => CaptureStep::Failed(error),
        }
    }
}

proof fn lemma_first_unbound_stays(slots: Seq<ProviderSlotView>, ids: Seq<Seq<char>>, n: int)
    requires
        0 <= n <= ids.len(),
        first_unbound(slots, ids.take(n)) is Some,
    ensures
        first_unbound(slots, ids) == first_unbound(slots, ids.take(n)),
    decreases ids.len() - n,
{
    if n == ids.len() {
        assert(ids.take(n) =~= ids);
    } else {
        assert(ids.take(n + 1).drop_last() =~= ids.take(n));
        lemma_first_unbound_stays(slots, ids, n + 1);
    }
}

pub(crate) proof fn lemma_slot_has_the_id(slots: Seq<ProviderSlotView>, id: Seq<char>)
    ensures
        slots::slot_of(slots, id) matches Some(slot) ==> slot.provider_id == id,
    decreases slots.len(),
{
    if slots.len() > 0 && slots[0].provider_id != id {
        lemma_slot_has_the_id(slots.drop_first(), id);
    }
}

/// A captured operation never has two slots for one provider.
pub proof fn law_captured_slots_are_distinct(slots: Seq<ProviderSlotView>, ids: Seq<Seq<char>>)
    ensures
        slots::distinct_ids(captured_slots(slots, ids)),
    decreases ids.len(),
{
    if ids.len() > 0 {
        law_captured_slots_are_distinct(slots, ids.drop_last());
        slots::law_slots_stay_distinct(
            captured_slots(slots, ids.drop_last()),
            slots::slot_of(slots, ids.last()).unwrap(),
        );
    }
}

/// A captured operation has, for every provider of its plan, the very slot that the
/// client had.
pub proof fn law_captured_operation_is_complete(
    slots: Seq<ProviderSlotView>,
    ids: Seq<Seq<char>>,
    at: int,
)
    requires
        first_unbound(slots, ids) is None,
        0 <= at < ids.len(),
    ensures
        slots::slot_of(captured_slots(slots, ids), ids[at]) == slots::slot_of(slots, ids[at]),
        slots::slot_of(slots, ids[at]) is Some,
    decreases ids.len(),
{
    let last = ids.last();
    let slot = slots::slot_of(slots, last).unwrap();
    lemma_slot_has_the_id(slots, last);
    slots::law_added_slot_is_found(captured_slots(slots, ids.drop_last()), slot, ids[at]);
    if ids[at] != last {
        law_captured_operation_is_complete(slots, ids.drop_last(), at);
    }
}

// ── What clients say and ask for ────────────────────────────────────────

/// A request that is made over for a slot keeps what it is about: its format, its
/// temperature, its limit, whether it streams and the response that it goes on from;
/// and its tool choice, unless that forbids tools. The slot decides on the model and
/// the effort where it names any, and the provider sees the history that it may see.
pub proof fn law_rewritten_requests_keep_the_rest(
    req: ConversationRequestView,
    slot: ProviderSlotView,
    primary: Seq<char>,
    hosted: Seq<HostedToolView>,
)
    ensures
        ({
            let out = rewritten(req, slot, primary, hosted);
            &&& out.response_format == req.response_format
            &&& out.temperature == req.temperature
            &&& out.max_tokens == req.max_tokens
            &&& out.stream == req.stream
            &&& out.previous_response_id == req.previous_response_id
            &&& slot.model.len() > 0 ==> out.model == slot.model
            &&& slot.model.len() == 0 ==> out.model == req.model
            &&& slot.reasoning_effort is Some ==> out.reasoning_effort == slot.reasoning_effort
            &&& slot.reasoning_effort is None ==> out.reasoning_effort == req.reasoning_effort
            &&& out.items == failover::seen_items(req.items, slot.compat_key, primary)
        }),
{
}

/// The tool choice says `none`, in whatever case.
pub open spec fn says_none(choice: JsonView) -> bool {
    choice matches JsonView::Text(word) && {
        &&& word.len() == 4
        &&& word[0] == 'n' || word[0] == 'N'
        &&& word[1] == 'o' || word[1] == 'O'
        &&& word[2] == 'n' || word[2] == 'N'
        &&& word[3] == 'e' || word[3] == 'E'
    }
}

/// A request whose tool choice says `none` offers no tool, and says `none`. Any other
/// keeps its choice, offers the tools that the provider hosts, and those of its own
/// that none of them has the name of, as they are; where none is left it offers none of
/// its own.
pub proof fn law_rewritten_requests_offer_the_tools(
    req: ConversationRequestView,
    slot: ProviderSlotView,
    primary: Seq<char>,
    hosted: Seq<HostedToolView>,
)
    ensures
        ({
            let out = rewritten(req, slot, primary, hosted);
            let own = match req.tools {
                Some(tools) => tools.filter(|tool: ToolDefinitionView| is_own(tool, hosted)),
                None => Seq::empty(),
            };
            if req.tool_choice matches Some(choice) && says_none(choice) {
                &&& out.tools is None
                &&& out.hosted_tools.len() == 0
                &&& out.tool_choice == Some(JsonView::Text("none"@))
            } else {
                &&& out.tool_choice == req.tool_choice
                &&& out.hosted_tools == hosted
                &&& own.len() > 0 ==> out.tools == Some(own)
                &&& own.len() == 0 ==> out.tools is None
            }
        }),
{
    if let Some(tools) = req.tools {
        law_own_tools_stay_as_they_are(tools, hosted);
    }
    reveal_strlit("none");
    let none = "none"@;
    if let Some(JsonView::Text(word)) = req.tool_choice {
        if forbids_tools(req.tool_choice) {
            assert(text::ascii_lower(word[0]) == text::ascii_lower(none[0]));
            assert(text::ascii_lower(word[1]) == text::ascii_lower(none[1]));
            assert(text::ascii_lower(word[2]) == text::ascii_lower(none[2]));
            assert(text::ascii_lower(word[3]) == text::ascii_lower(none[3]));
            lemma_lower(word[0], 'n');
            lemma_lower(word[1], 'o');
            lemma_lower(word[2], 'n');
            lemma_lower(word[3], 'e');
        }
        if says_none(JsonView::Text(word)) {
            assert forall|i: int| 0 <= i < word.len() implies text::ascii_lower(
                #[trigger] word[i],
            ) == text::ascii_lower(none[i]) by {
                assert(i == 0 || i == 1 || i == 2 || i == 3);
            }
        }
    }
}

proof fn lemma_lower(c: char, lower: char)
    requires
        'a' <= lower <= 'z',
        text::ascii_lower(c) == text::ascii_lower(lower),
    ensures
        c == lower || c as int == lower as int - 32,
{
    text::law_only_ascii_letters_change(c);
    text::law_only_ascii_letters_change(lower);
}

/// The selected provider is the one that last answered, while the pool has it, and
/// otherwise the first enabled member of the pool.
pub proof fn law_last_answer_selects(
    client: LlmClientView,
    config: LlmRoutingConfigView,
    pool: slots::ProviderPoolView,
)
    requires
        slots::pool_of(config.pools, client.pool_id) == Some(pool),
    ensures
        ({
            let remembered = match client.last_success {
                Some(success) => exists|i: int|
                    0 <= i < pool.members.len() && (#[trigger] pool.members[i]).provider_id
                        == success.provider_id,
                None => false,
            };
            &&& remembered ==> client.selected(config) == Some(
                client.last_success.unwrap().provider_id,
            )
            &&& !remembered ==> match client.selected(config) {
                Some(id) => exists|i: int|
                    {
                        &&& 0 <= i < pool.members.len()
                        &&& (#[trigger] pool.members[i]).enabled
                        &&& pool.members[i].provider_id == id
                        &&& forall|j: int| 0 <= j < i ==> !(#[trigger] pool.members[j]).enabled
                    },
                None => forall|j: int|
                    0 <= j < pool.members.len() ==> !(#[trigger] pool.members[j]).enabled,
            }
        }),
{
    lemma_first_enabled(pool.members);
}

proof fn lemma_first_enabled(members: Seq<PoolMemberView>)
    ensures
        match first_enabled(members) {
            Some(id) => exists|i: int|
                {
                    &&& 0 <= i < members.len()
                    &&& (#[trigger] members[i]).enabled
                    &&& members[i].provider_id == id
                    &&& forall|j: int| 0 <= j < i ==> !(#[trigger] members[j]).enabled
                },
            None => forall|j: int| 0 <= j < members.len() ==> !(#[trigger] members[j]).enabled,
        },
    decreases members.len(),
{
    if members.len() > 0 {
        if members[0].enabled {
            assert(members[0].enabled && members[0].provider_id == first_enabled(members).unwrap());
        } else {
            let rest = members.drop_first();
            lemma_first_enabled(rest);
            let end: int = match first_enabled(members) {
                Some(id) => {
                    let i = choose|i: int|
                        {
                            &&& 0 <= i < rest.len()
                            &&& (#[trigger] rest[i]).enabled
                            &&& rest[i].provider_id == id
                            &&& forall|j: int| 0 <= j < i ==> !(#[trigger] rest[j]).enabled
                        };
                    assert(members[i + 1] == rest[i]);
                    i + 1
                },
                None => members.len() as int,
            };
            assert forall|j: int| 0 <= j < end implies !(#[trigger] members[j]).enabled by {
                if j > 0 {
                    assert(members[j] == rest[j - 1]);
                }
            }
        }
    }
}

/// A client without a pool in the configuration has nobody selected, and so no endpoint
/// and no fallback.
pub proof fn law_missing_pools_select_nobody(client: LlmClientView, config: LlmRoutingConfigView)
    requires
        slots::pool_of(config.pools, client.pool_id) is None,
    ensures
        client.selected(config) is None,
        client.endpoint(config) is None,
        client.fallbacks(config).len() == 0,
{
}

/// An endpoint is what the configuration says of its provider. There is one if and only
/// if the configuration knows the provider and has an address and a key for it that are
/// more than white space.
pub proof fn law_endpoints_follow_the_configuration(config: LlmRoutingConfigView, id: Seq<char>)
    ensures
        match slots::target_of(config.providers, id) {
            Some(target) => {
                let is_reachable = text::trimmed(target.api_key).len() > 0 && text::trimmed(
                    target.base_url,
                ).len() > 0;
                &&& endpoint_of(config, id) is Some <==> is_reachable
                &&& endpoint_of(config, id) matches Some(endpoint) ==> {
                    &&& endpoint.provider_id == id
                    &&& endpoint.base_url == target.base_url
                    &&& endpoint.api_key == target.api_key
                    &&& endpoint.model == target.model
                    &&& endpoint.api_backend == target.api_backend
                    &&& endpoint.extra_headers == target.extra_headers
                }
            },
            None => endpoint_of(config, id) is None,
        },
{
    slots::law_target_has_the_id(config.providers, id);
}

/// A client over HTTP names the endpoint of the selected provider, and those of the
/// other members as fallbacks.
pub proof fn law_routed_clients_name_endpoints(
    client: LlmClientView,
    config: LlmRoutingConfigView,
    pool: slots::ProviderPoolView,
)
    requires
        client.http_factory is Some,
        slots::pool_of(config.pools, client.pool_id) == Some(pool),
    ensures
        client.endpoint(config) == (match client.selected(config) {
            Some(id) => endpoint_of(config, id),
            None => None,
        }),
        client.fallbacks(config) == other_endpoints(config, pool.members, client.selected(config)),
{
}

/// The origin of a turn is the key of who answered last, or of the primary provider
/// where nobody has answered yet.
pub proof fn law_origin_is_who_answered(client: LlmClientView)
    ensures
        client.last_success matches Some(success) ==> client.origin() == success.compat_key,
        client.last_success is None ==> client.origin() == client.slots.primary_compat_key,
{
}

/// A new client with transports of its caller is one of the main agent's, on the main
/// pool, without HTTP, and nobody has answered it yet.
pub proof fn law_new_unrouted_clients(
    providers: Seq<ProviderSlotView>,
    max_retries: u32,
    failover_max_attempts: u32,
    primary_compat_key: Seq<char>,
    doom_loop_max_retries: u32,
)
    ensures
        ({
            let client = unrouted_client(
                providers,
                max_retries,
                failover_max_attempts,
                primary_compat_key,
                doom_loop_max_retries,
            );
            &&& client.pool_id == "main"@
            &&& client.workload == Workload::Main
            &&& client.slots.generation == 0
            &&& client.slots.providers == providers
            &&& client.slots.max_retries == max_retries
            &&& client.slots.failover_max_attempts == failover_max_attempts
            &&& client.slots.primary_compat_key == primary_compat_key
            &&& client.http_factory is None
            &&& client.doom_loop_max_retries == doom_loop_max_retries
            &&& client.last_success is None
        }),
{
}

/// A new client over a router is one of the main agent's, on the pool that it was bound
/// to, and nobody has answered it yet.
pub proof fn law_new_routed_clients(
    pool_id: Seq<char>,
    bound: BoundSlotsView,
    http_factory: Option<HttpSlotFactoryView>,
    doom_loop_max_retries: u32,
)
    ensures
        ({
            let client = routed_client(pool_id, bound, http_factory, doom_loop_max_retries);
            &&& client.pool_id == pool_id
            &&& client.workload == Workload::Main
            &&& client.slots == bound
            &&& client.http_factory == http_factory
            &&& client.doom_loop_max_retries == doom_loop_max_retries
            &&& client.last_success is None
        }),
{
}

/// The slot of a transport of the caller goes by its label, asks for its model, and
/// hosts no tools.
pub proof fn law_slots_of_transports_go_by_their_label(
    label: Seq<char>,
    provider_id: Seq<char>,
    model: Seq<char>,
)
    ensures
        ({
            let slot = plain_slot(label, provider_id, model);
            &&& slot.provider_id == provider_id
            &&& slot.fingerprint == label
            &&& slot.compat_key == label
            &&& slot.model == model
            &&& slot.api_backend == ApiBackend::ChatCompletions
            &&& slot.reasoning_effort is None
            &&& !slot.enable_web_search && slot.web_search_options is None
            &&& !slot.enable_x_search && slot.x_search_options is None
        }),
{
}

/// The slots of a chain are those of its transports, in order, each under its own
/// label.
pub proof fn law_chains_keep_their_order(providers: Seq<NamedTransport>)
    ensures
        chain_slots(providers).len() == providers.len(),
        forall|i: int|
            0 <= i < providers.len() ==> {
                let slot = #[trigger] chain_slots(providers)[i];
                &&& slot.provider_id == providers[i].fingerprint@
                &&& slot.fingerprint == providers[i].fingerprint@
                &&& slot.compat_key == providers[i].fingerprint@
                &&& slot.model == providers[i].model@
            },
{
}

/// Of slots with the same id the last counts, and no slot is lost.
pub proof fn law_tables_keep_the_last_slot(slots: Seq<ProviderSlotView>, slot: ProviderSlotView)
    ensures
        slot_table(Seq::empty()).len() == 0,
        slots::slot_of(slot_table(slots.push(slot)), slot.provider_id) == Some(slot),
        forall|id: Seq<char>|
            id != slot.provider_id ==> #[trigger] slots::slot_of(
                slot_table(slots.push(slot)),
                id,
            ) == slots::slot_of(slot_table(slots), id),
{
    assert(slots.push(slot).drop_last() =~= slots);
    slots::law_added_slot_is_found(slot_table(slots), slot, slot.provider_id);
    assert forall|id: Seq<char>| id != slot.provider_id implies #[trigger] slots::slot_of(
        slot_table(slots.push(slot)),
        id,
    ) == slots::slot_of(slot_table(slots), id) by {
        slots::law_added_slot_is_found(slot_table(slots), slot, id);
    }
}

/// The primary key of a chain is the first one that says anything.
pub proof fn law_first_key_of_a_chain(slots: Seq<ProviderSlotView>, at: int)
    requires
        0 <= at < slots.len(),
        slots[at].compat_key.len() > 0,
        forall|i: int| 0 <= i < at ==> (#[trigger] slots[i]).compat_key.len() == 0,
    ensures
        first_key(slots) == slots[at].compat_key,
    decreases slots.len(),
{
    let front = slots.drop_last();
    if at < front.len() {
        law_first_key_of_a_chain(front, at);
    } else {
        lemma_no_key(front);
    }
}

proof fn lemma_no_key(slots: Seq<ProviderSlotView>)
    requires
        forall|i: int| 0 <= i < slots.len() ==> (#[trigger] slots[i]).compat_key.len() == 0,
    ensures
        first_key(slots).len() == 0,
    decreases slots.len(),
{
    if slots.len() > 0 {
        lemma_no_key(slots.drop_last());
        assert(slots[slots.len() - 1].compat_key.len() == 0);
    }
}

/// A client that follows a generation already stays as it is. One over HTTP is bound to
/// its pool anew, as the current configuration has it; any other takes over the budgets
/// and the generation, and keeps its slots. Nothing else about a client changes.
pub proof fn law_slots_follow_the_generation(
    client: LlmClientView,
    generation: u64,
    retry: RetryPolicy,
    snapshot: RoutingSnapshot,
)
    ensures
        ({
            let after = client.synced(generation, retry, snapshot);
            &&& after.pool_id == client.pool_id
            &&& after.workload == client.workload
            &&& after.http_factory == client.http_factory
            &&& after.doom_loop_max_retries == client.doom_loop_max_retries
            &&& after.last_success == client.last_success
            &&& client.slots.generation == generation ==> after == client
                && !client.must_rebind(generation)
            &&& client.slots.generation != generation && client.http_factory is None ==> {
                &&& !client.must_rebind(generation)
                &&& after.slots.generation == generation
                &&& after.slots.providers == client.slots.providers
                &&& after.slots.primary_compat_key == client.slots.primary_compat_key
                &&& retry.max_retries > 0 ==> after.slots.max_retries == retry.max_retries
                &&& retry.max_retries == 0 ==> after.slots.max_retries == 1
                &&& retry.failover_max_attempts > 0 ==> after.slots.failover_max_attempts
                    == retry.failover_max_attempts
                &&& retry.failover_max_attempts == 0 ==> after.slots.failover_max_attempts == 1
            }
            &&& client.slots.generation != generation && client.http_factory is Some ==> {
                &&& client.must_rebind(generation)
                &&& slots::pool_of(snapshot.config.deep_view().pools, client.pool_id) matches Some(
                    pool,
                ) ==> after.slots == slots::bound_to(
                    snapshot.generation,
                    snapshot.config.deep_view().providers,
                    pool,
                )
            }
        }),
{
}

/// The complaint about a provider without a slot names the pool and the provider.
pub proof fn law_unbound_providers_are_named(pool_id: Seq<char>, provider_id: Seq<char>)
    ensures
        unbound(pool_id, provider_id) matches EngineErrorView::InvalidRoutingConfig(message)
            && message == "pool '"@ + pool_id + "' visit plan references unbound provider_id '"@
            + provider_id + "'"@,
{
}

/// The provider that is complained about is the first of the plan that has no slot.
pub proof fn law_first_unbound_provider_is_told(
    slots: Seq<ProviderSlotView>,
    ids: Seq<Seq<char>>,
)
    ensures
        match first_unbound(slots, ids) {
            Some(id) => exists|i: int|
                {
                    &&& 0 <= i < ids.len()
                    &&& #[trigger] ids[i] == id
                    &&& slots::slot_of(slots, id) is None
                    &&& forall|j: int|
                        0 <= j < i ==> slots::slot_of(slots, #[trigger] ids[j]) is Some
                },
            None => forall|j: int|
                0 <= j < ids.len() ==> slots::slot_of(slots, #[trigger] ids[j]) is Some,
        },
    decreases ids.len(),
{
    if ids.len() > 0 {
        let front = ids.drop_last();
        let n = ids.len() - 1;
        law_first_unbound_provider_is_told(slots, front);
        match first_unbound(slots, front) {
            Some(id) => {
                let i = choose|i: int|
                    {
                        &&& 0 <= i < front.len()
                        &&& #[trigger] front[i] == id
                        &&& slots::slot_of(slots, id) is None
                        &&& forall|j: int|
                            0 <= j < i ==> slots::slot_of(slots, #[trigger] front[j]) is Some
                    };
                assert(ids[i] == id);
                assert forall|j: int| 0 <= j < i implies slots::slot_of(
                    slots,
                    #[trigger] ids[j],
                ) is Some by {
                    assert(front[j] == ids[j]);
                }
            },
            None => {
                assert forall|j: int| 0 <= j < n implies slots::slot_of(
                    slots,
                    #[trigger] ids[j],
                ) is Some by {
                    assert(front[j] == ids[j]);
                }
                assert(ids[n] == ids.last());
            },
        }
    }
}

/// What the views of these values show is what the values hold, field by field.
pub proof fn law_views_leave_nothing_out(
    last_success: LastSuccess,
    llm_endpoint: LlmEndpoint,
    visit_plan: VisitPlan,
    captured_operation: CapturedOperation,
    llm_client: LlmClient,
)
    ensures
        ({
            let held = last_success.deep_view();
            &&& held.compat_key == last_success.compat_key@
            &&& held.provider_id == last_success.provider_id@
        }),
        ({
            let held = llm_endpoint.deep_view();
            &&& held.provider_id == llm_endpoint.provider_id@
            &&& held.base_url == llm_endpoint.base_url@
            &&& held.api_key == llm_endpoint.api_key@
            &&& held.model == llm_endpoint.model@
            &&& held.api_backend == llm_endpoint.api_backend
            &&& held.extra_headers == llm_endpoint.extra_headers.deep_view()
        }),
        ({
            let held = visit_plan.deep_view();
            &&& held.generation == visit_plan.generation
            &&& held.provider_ids == visit_plan.provider_ids.deep_view()
            &&& held.chain_mode == visit_plan.chain_mode
            &&& held.retry == visit_plan.retry
        }),
        ({
            let held = captured_operation.deep_view();
            &&& held.plan == captured_operation.plan.deep_view()
            &&& held.providers == captured_operation.providers.deep_view()
            &&& held.primary_compat_key == captured_operation.primary_compat_key@
        }),
        ({
            let held = llm_client.deep_view();
            &&& held.pool_id == llm_client.pool_id@
            &&& held.workload == llm_client.workload
            &&& held.slots == llm_client.slots.deep_view()
            &&& held.http_factory == llm_client.http_factory.deep_view()
            &&& held.doom_loop_max_retries == llm_client.doom_loop_max_retries
            &&& held.last_success == llm_client.last_success.deep_view()
        }),
{
}

/// Whatever a request is made over to, it asks for the same format, temperature and
/// limit, and a model is asked for by the name that the slot gives it.
pub proof fn law_rewriting_keeps_what_is_asked_for(
    req: ConversationRequest,
    slot: ProviderSlot,
    primary: &str,
    hosted: Vec<HostedTool>,
    out: ConversationRequest,
)
    requires
        call_ensures(rewrite_request_for, (&req, &slot, primary, hosted), out),
    ensures
        ({
            let asked = req.deep_view();
            let sent = out.deep_view();
            &&& sent.response_format == asked.response_format
            &&& sent.temperature == asked.temperature
            &&& sent.max_tokens == asked.max_tokens
            &&& sent.stream == asked.stream
            &&& sent.previous_response_id == asked.previous_response_id
            &&& slot.model@.len() > 0 ==> sent.model == slot.model@
            &&& slot.model@.len() == 0 ==> sent.model == asked.model
        }),
{
    law_rewritten_requests_keep_the_rest(
        req.deep_view(),
        slot.deep_view(),
        primary@,
        hosted.deep_view(),
    );
}

/// A pool that nothing is wrong with has no fault, and any other has just one: that
/// there is no such pool, or that of the first member which cannot be bound.
pub proof fn law_pools_are_sound_or_have_one_fault(
    snapshot: RoutingSnapshot,
    pool_id: Seq<char>,
    error: EngineErrorView,
    other: EngineErrorView,
)
    ensures
        snapshot.is_sound(pool_id) ==> !snapshot.fault_is(pool_id, error),
        snapshot.fault_is(pool_id, error) && snapshot.fault_is(pool_id, other) ==> error == other,
        match slots::pool_of(snapshot.config.deep_view().pools, pool_id) {
            Some(pool) => {
                let providers = snapshot.config.deep_view().providers;
                let failures = snapshot.failures.deep_view();
                &&& snapshot.is_sound(pool_id) <==> forall|i: int|
                    0 <= i < pool.members.len() ==> {
                        &&& slots::target_of(
                            providers,
                            (#[trigger] pool.members[i]).provider_id,
                        ) is Some
                        &&& i < failures.len() ==> failures[i] is None
                    }
                &&& snapshot.fault_is(pool_id, error) ==> !snapshot.is_sound(pool_id)
            },
            None => !snapshot.is_sound(pool_id) && (snapshot.fault_is(pool_id, error) <==> error
                == (EngineErrorView::RouteNotConfigured { pool_id })),
        },
{
    if let Some(pool) = slots::pool_of(snapshot.config.deep_view().pools, pool_id) {
        let providers = snapshot.config.deep_view().providers;
        let failures = snapshot.failures.deep_view();
        assert forall|i: int| 0 <= i < pool.members.len() implies (slots::http_fault(
            pool_id,
            providers,
            failures,
            i,
            #[trigger] pool.members[i],
        ) is None <==> {
            &&& slots::target_of(providers, pool.members[i].provider_id) is Some
            &&& i < failures.len() ==> failures[i] is None
        }) by {
            slots::law_http_members_need_a_provider(
                pool_id,
                providers,
                failures,
                i,
                pool.members[i],
            );
        }
    }
}

} // verus!
