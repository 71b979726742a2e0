//! Routing configuration, and the provider slots that a client binds from it.
use vstd::prelude::*;

use crate::error::{EngineError, EngineErrorView};
use crate::json::{Json, JsonView};
use crate::text;
use crate::text::{decimal, join, str_eq};

verus! {

/// The pool that the main agent uses.
pub const MAIN_POOL_ID: &'static str = "main";

/// Which wire format a provider speaks.
#[derive(Debug, Clone, Copy, PartialEq, Eq, Structural)]
pub enum ApiBackend {
    ChatCompletions,
    Responses,
    Messages,
}

/// How often a pool's providers are asked.
#[derive(Debug, Clone, Copy, PartialEq, Eq, Structural)]
pub struct RetryPolicy {
    pub failover_max_attempts: u32,
    pub max_retries: u32,
}

impl DeepView for ApiBackend {
    type V = ApiBackend;

    open spec fn deep_view(&self) -> ApiBackend {
        *self
    }
}

// ── Configuration ───────────────────────────────────────────────────────

/// A header of a request.
#[derive(Debug, PartialEq, Eq)]
pub struct Header {
    pub name: String,
    pub value: String,
}

/// What a [`Header`] holds.
#[verifier::ext_equal]
pub struct HeaderView {
    pub name: Seq<char>,
    pub value: Seq<char>,
}

impl DeepView for Header {
    type V = HeaderView;

    open spec fn deep_view(&self) -> HeaderView {
        HeaderView {
            name: self.name@,
            value: self.value@,
        }
    }
}

impl Clone for Header {
    fn clone(&self) -> (out: Header)
        ensures
            out.deep_view() == self.deep_view(),
    {
        Header {
            name: self.name.clone(),
            value: self.value.clone(),
        }
    }
}

/// A field of a request's body.
#[derive(Debug, PartialEq, Eq)]
pub struct BodyField {
    pub key: String,
    pub value: Json,
}

/// What a [`BodyField`] holds.
#[verifier::ext_equal]
pub struct BodyFieldView {
    pub key: Seq<char>,
    pub value: JsonView,
}

impl DeepView for BodyField {
    type V = BodyFieldView;

    open spec fn deep_view(&self) -> BodyFieldView {
        BodyFieldView {
            key: self.key@,
            value: self.value.deep_view(),
        }
    }
}

impl Clone for BodyField {
    fn clone(&self) -> (out: BodyField)
        ensures
            out.deep_view() == self.deep_view(),
    {
        BodyField {
            key: self.key.clone(),
            value: self.value.clone(),
        }
    }
}

/// A provider, and how it is reached.
#[derive(Debug, PartialEq, Eq)]
pub struct ProviderTarget {
    pub provider_id: String,
    pub base_url: String,
    pub api_key: String,
    pub model: String,
    pub api_backend: ApiBackend,
    pub client_profile: String,
    pub client_version: Option<String>,
    pub client_session_id: Option<String>,
    /// Under the same key, providers can read each other's encrypted reasoning.
    pub compat_key: String,
    /// A label of host and model, without credentials.
    pub fingerprint: String,
    pub extra_headers: Vec<Header>,
    pub extra_body: Vec<BodyField>,
    pub enable_web_search: bool,
    pub web_search_options: Option<Json>,
    pub enable_x_search: bool,
    pub x_search_options: Option<Json>,
    pub reasoning_effort: Option<String>,
}

/// What a [`ProviderTarget`] holds.
#[verifier::ext_equal]
pub struct ProviderTargetView {
    pub provider_id: Seq<char>,
    pub base_url: Seq<char>,
    pub api_key: Seq<char>,
    pub model: Seq<char>,
    pub api_backend: ApiBackend,
    pub client_profile: Seq<char>,
    pub client_version: Option<Seq<char>>,
    pub client_session_id: Option<Seq<char>>,
    pub compat_key: Seq<char>,
    pub fingerprint: Seq<char>,
    pub extra_headers: Seq<HeaderView>,
    pub extra_body: Seq<BodyFieldView>,
    pub enable_web_search: bool,
    pub web_search_options: Option<JsonView>,
    pub enable_x_search: bool,
    pub x_search_options: Option<JsonView>,
    pub reasoning_effort: Option<Seq<char>>,
}

impl DeepView for ProviderTarget {
    type V = ProviderTargetView;

    open spec fn deep_view(&self) -> ProviderTargetView {
        ProviderTargetView {
            provider_id: self.provider_id@,
            base_url: self.base_url@,
            api_key: self.api_key@,
            model: self.model@,
            api_backend: self.api_backend,
            client_profile: self.client_profile@,
            client_version: self.client_version.deep_view(),
            client_session_id: self.client_session_id.deep_view(),
            compat_key: self.compat_key@,
            fingerprint: self.fingerprint@,
            extra_headers: self.extra_headers.deep_view(),
            extra_body: self.extra_body.deep_view(),
            enable_web_search: self.enable_web_search,
            web_search_options: self.web_search_options.deep_view(),
            enable_x_search: self.enable_x_search,
            x_search_options: self.x_search_options.deep_view(),
            reasoning_effort: self.reasoning_effort.deep_view(),
        }
    }
}

impl Clone for ProviderTarget {
    fn clone(&self) -> (out: ProviderTarget)
        ensures
            out.deep_view() == self.deep_view(),
    {
        ProviderTarget {
            provider_id: self.provider_id.clone(),
            base_url: self.base_url.clone(),
            api_key: self.api_key.clone(),
            model: self.model.clone(),
            api_backend: self.api_backend,
            client_profile: self.client_profile.clone(),
            client_version: self.client_version.clone(),
            client_session_id: self.client_session_id.clone(),
            compat_key: self.compat_key.clone(),
            fingerprint: self.fingerprint.clone(),
            extra_headers: self.extra_headers.clone(),
            extra_body: self.extra_body.clone(),
            enable_web_search: self.enable_web_search,
            web_search_options: self.web_search_options.clone(),
            enable_x_search: self.enable_x_search,
            x_search_options: self.x_search_options.clone(),
            reasoning_effort: self.reasoning_effort.clone(),
        }
    }
}

/// A provider's place in a pool.
#[derive(Debug, PartialEq, Eq)]
pub struct PoolMember {
    pub provider_id: String,
    pub routing_group: String,
    pub base_score: u32,
    pub order: u32,
    pub enabled: bool,
}

/// What a [`PoolMember`] holds.
#[verifier::ext_equal]
pub struct PoolMemberView {
    pub provider_id: Seq<char>,
    pub routing_group: Seq<char>,
    pub base_score: u32,
    pub order: u32,
    pub enabled: bool,
}

impl DeepView for PoolMember {
    type V = PoolMemberView;

    open spec fn deep_view(&self) -> PoolMemberView {
        PoolMemberView {
            provider_id: self.provider_id@,
            routing_group: self.routing_group@,
            base_score: self.base_score,
            order: self.order,
            enabled: self.enabled,
        }
    }
}

impl Clone for PoolMember {
    fn clone(&self) -> (out: PoolMember)
        ensures
            out.deep_view() == self.deep_view(),
    {
        PoolMember {
            provider_id: self.provider_id.clone(),
            routing_group: self.routing_group.clone(),
            base_score: self.base_score,
            order: self.order,
            enabled: self.enabled,
        }
    }
}

/// Providers that stand in for each other.
#[derive(Debug, PartialEq, Eq)]
pub struct ProviderPool {
    pub members: Vec<PoolMember>,
    pub retry: RetryPolicy,
    /// Where all members are cooling, the one that recovers first is tried.
    pub probe_when_exhausted: bool,
}

/// What a [`ProviderPool`] holds.
#[verifier::ext_equal]
pub struct ProviderPoolView {
    pub members: Seq<PoolMemberView>,
    pub retry: RetryPolicy,
    pub probe_when_exhausted: bool,
}

impl DeepView for ProviderPool {
    type V = ProviderPoolView;

    open spec fn deep_view(&self) -> ProviderPoolView {
        ProviderPoolView {
            members: self.members.deep_view(),
            retry: self.retry,
            probe_when_exhausted: self.probe_when_exhausted,
        }
    }
}

impl Clone for ProviderPool {
    fn clone(&self) -> (out: ProviderPool)
        ensures
            out.deep_view() == self.deep_view(),
    {
        ProviderPool {
            members: self.members.clone(),
            retry: self.retry,
            probe_when_exhausted: self.probe_when_exhausted,
        }
    }
}

/// A pool under its id.
#[derive(Debug, PartialEq, Eq)]
pub struct NamedPool {
    pub id: String,
    pub pool: ProviderPool,
}

/// What a [`NamedPool`] holds.
#[verifier::ext_equal]
pub struct NamedPoolView {
    pub id: Seq<char>,
    pub pool: ProviderPoolView,
}

impl DeepView for NamedPool {
    type V = NamedPoolView;

    open spec fn deep_view(&self) -> NamedPoolView {
        NamedPoolView {
            id: self.id@,
            pool: self.pool.deep_view(),
        }
    }
}

impl Clone for NamedPool {
    fn clone(&self) -> (out: NamedPool)
        ensures
            out.deep_view() == self.deep_view(),
    {
        NamedPool {
            id: self.id.clone(),
            pool: self.pool.clone(),
        }
    }
}

/// Which providers there are and which pools they form.
#[derive(Debug, PartialEq, Eq)]
pub struct LlmRoutingConfig {
    pub providers: Vec<ProviderTarget>,
    pub pools: Vec<NamedPool>,
    /// How long a provider rests after a first failure.
    pub cooldown_base_secs: u64,
}

/// What a [`LlmRoutingConfig`] holds.
#[verifier::ext_equal]
pub struct LlmRoutingConfigView {
    pub providers: Seq<ProviderTargetView>,
    pub pools: Seq<NamedPoolView>,
    pub cooldown_base_secs: u64,
}

impl DeepView for LlmRoutingConfig {
    type V = LlmRoutingConfigView;

    open spec fn deep_view(&self) -> LlmRoutingConfigView {
        LlmRoutingConfigView {
            providers: self.providers.deep_view(),
            pools: self.pools.deep_view(),
            cooldown_base_secs: self.cooldown_base_secs,
        }
    }
}

impl Clone for LlmRoutingConfig {
    fn clone(&self) -> (out: LlmRoutingConfig)
        ensures
            out.deep_view() == self.deep_view(),
    {
        LlmRoutingConfig {
            providers: self.providers.clone(),
            pools: self.pools.clone(),
            cooldown_base_secs: self.cooldown_base_secs,
        }
    }
}

/// What all HTTP transports of a client have in common.
#[derive(Debug, PartialEq, Eq)]
pub struct HttpSlotFactory {
    pub stream_idle_timeout_secs: u64,
    /// What of the traffic is written to disk.
    pub http_dump: Json,
    pub dumps_dir: String,
    pub enable_doom_loop_check: Option<bool>,
}

/// What a [`HttpSlotFactory`] holds.
#[verifier::ext_equal]
pub struct HttpSlotFactoryView {
    pub stream_idle_timeout_secs: u64,
    pub http_dump: JsonView,
    pub dumps_dir: Seq<char>,
    pub enable_doom_loop_check: Option<bool>,
}

impl DeepView for HttpSlotFactory {
    type V = HttpSlotFactoryView;

    open spec fn deep_view(&self) -> HttpSlotFactoryView {
        HttpSlotFactoryView {
            stream_idle_timeout_secs: self.stream_idle_timeout_secs,
            http_dump: self.http_dump.deep_view(),
            dumps_dir: self.dumps_dir@,
            enable_doom_loop_check: self.enable_doom_loop_check.deep_view(),
        }
    }
}

impl Clone for HttpSlotFactory {
    fn clone(&self) -> (out: HttpSlotFactory)
        ensures
            out.deep_view() == self.deep_view(),
    {
        HttpSlotFactory {
            stream_idle_timeout_secs: self.stream_idle_timeout_secs,
            http_dump: self.http_dump.clone(),
            dumps_dir: self.dumps_dir.clone(),
            enable_doom_loop_check: self.enable_doom_loop_check.clone(),
        }
    }
}

/// What of the engine's configuration the client reads.
#[derive(Debug, PartialEq, Eq)]
pub struct EngineConfig {
    pub stream_idle_timeout_secs: u64,
    pub http_dump: Json,
    pub http_dumps_dir: String,
    pub enable_doom_loop_check: Option<bool>,
}

/// What a [`EngineConfig`] holds.
#[verifier::ext_equal]
pub struct EngineConfigView {
    pub stream_idle_timeout_secs: u64,
    pub http_dump: JsonView,
    pub http_dumps_dir: Seq<char>,
    pub enable_doom_loop_check: Option<bool>,
}

impl DeepView for EngineConfig {
    type V = EngineConfigView;

    open spec fn deep_view(&self) -> EngineConfigView {
        EngineConfigView {
            stream_idle_timeout_secs: self.stream_idle_timeout_secs,
            http_dump: self.http_dump.deep_view(),
            http_dumps_dir: self.http_dumps_dir@,
            enable_doom_loop_check: self.enable_doom_loop_check.deep_view(),
        }
    }
}

impl Clone for EngineConfig {
    fn clone(&self) -> (out: EngineConfig)
        ensures
            out.deep_view() == self.deep_view(),
    {
        EngineConfig {
            stream_idle_timeout_secs: self.stream_idle_timeout_secs,
            http_dump: self.http_dump.clone(),
            http_dumps_dir: self.http_dumps_dir.clone(),
            enable_doom_loop_check: self.enable_doom_loop_check.clone(),
        }
    }
}

/// What an HTTP transport is built from.
#[derive(Debug, PartialEq, Eq)]
pub struct TransportOptions {
    pub base_url: String,
    pub api_key: String,
    pub stream_idle_timeout_secs: u64,
    pub api_backend: ApiBackend,
    pub client_profile: String,
    pub client_version: Option<String>,
    pub client_session_id: Option<String>,
    pub extra_headers: Vec<Header>,
    pub extra_body: Vec<BodyField>,
    /// The provider is asked to look out for a looping model.
    pub doom_loop: bool,
    pub http_dump: Json,
    pub dumps_dir: String,
}

/// What a [`TransportOptions`] holds.
#[verifier::ext_equal]
pub struct TransportOptionsView {
    pub base_url: Seq<char>,
    pub api_key: Seq<char>,
    pub stream_idle_timeout_secs: u64,
    pub api_backend: ApiBackend,
    pub client_profile: Seq<char>,
    pub client_version: Option<Seq<char>>,
    pub client_session_id: Option<Seq<char>>,
    pub extra_headers: Seq<HeaderView>,
    pub extra_body: Seq<BodyFieldView>,
    pub doom_loop: bool,
    pub http_dump: JsonView,
    pub dumps_dir: Seq<char>,
}

impl DeepView for TransportOptions {
    type V = TransportOptionsView;

    open spec fn deep_view(&self) -> TransportOptionsView {
        TransportOptionsView {
            base_url: self.base_url@,
            api_key: self.api_key@,
            stream_idle_timeout_secs: self.stream_idle_timeout_secs,
            api_backend: self.api_backend,
            client_profile: self.client_profile@,
            client_version: self.client_version.deep_view(),
            client_session_id: self.client_session_id.deep_view(),
            extra_headers: self.extra_headers.deep_view(),
            extra_body: self.extra_body.deep_view(),
            doom_loop: self.doom_loop,
            http_dump: self.http_dump.deep_view(),
            dumps_dir: self.dumps_dir@,
        }
    }
}

impl Clone for TransportOptions {
    fn clone(&self) -> (out: TransportOptions)
        ensures
            out.deep_view() == self.deep_view(),
    {
        TransportOptions {
            base_url: self.base_url.clone(),
            api_key: self.api_key.clone(),
            stream_idle_timeout_secs: self.stream_idle_timeout_secs,
            api_backend: self.api_backend,
            client_profile: self.client_profile.clone(),
            client_version: self.client_version.clone(),
            client_session_id: self.client_session_id.clone(),
            extra_headers: self.extra_headers.clone(),
            extra_body: self.extra_body.clone(),
            doom_loop: self.doom_loop,
            http_dump: self.http_dump.clone(),
            dumps_dir: self.dumps_dir.clone(),
        }
    }
}

// ── Slots ───────────────────────────────────────────────────────────────

/// A provider that a client is bound to.
#[derive(Debug, PartialEq, Eq)]
pub struct ProviderSlot {
    pub provider_id: String,
    /// A label of host and model, without credentials.
    pub fingerprint: String,
    /// Under the same key, encrypted reasoning is kept.
    pub compat_key: String,
    pub model: String,
    pub api_backend: ApiBackend,
    pub reasoning_effort: Option<String>,
    pub enable_web_search: bool,
    pub web_search_options: Option<Json>,
    pub enable_x_search: bool,
    pub x_search_options: Option<Json>,
}

/// What a [`ProviderSlot`] holds.
#[verifier::ext_equal]
pub struct ProviderSlotView {
    pub provider_id: Seq<char>,
    pub fingerprint: Seq<char>,
    pub compat_key: Seq<char>,
    pub model: Seq<char>,
    pub api_backend: ApiBackend,
    pub reasoning_effort: Option<Seq<char>>,
    pub enable_web_search: bool,
    pub web_search_options: Option<JsonView>,
    pub enable_x_search: bool,
    pub x_search_options: Option<JsonView>,
}

impl DeepView for ProviderSlot {
    type V = ProviderSlotView;

    open spec fn deep_view(&self) -> ProviderSlotView {
        ProviderSlotView {
            provider_id: self.provider_id@,
            fingerprint: self.fingerprint@,
            compat_key: self.compat_key@,
            model: self.model@,
            api_backend: self.api_backend,
            reasoning_effort: self.reasoning_effort.deep_view(),
            enable_web_search: self.enable_web_search,
            web_search_options: self.web_search_options.deep_view(),
            enable_x_search: self.enable_x_search,
            x_search_options: self.x_search_options.deep_view(),
        }
    }
}

impl Clone for ProviderSlot {
    fn clone(&self) -> (out: ProviderSlot)
        ensures
            out.deep_view() == self.deep_view(),
    {
        ProviderSlot {
            provider_id: self.provider_id.clone(),
            fingerprint: self.fingerprint.clone(),
            compat_key: self.compat_key.clone(),
            model: self.model.clone(),
            api_backend: self.api_backend,
            reasoning_effort: self.reasoning_effort.clone(),
            enable_web_search: self.enable_web_search,
            web_search_options: self.web_search_options.clone(),
            enable_x_search: self.enable_x_search,
            x_search_options: self.x_search_options.clone(),
        }
    }
}

/// The providers that a client is bound to, as of one generation of the
/// configuration.
#[derive(Debug, PartialEq, Eq)]
pub struct BoundSlots {
    pub generation: u64,
    /// The slots, one for each provider id.
    pub providers: Vec<ProviderSlot>,
    pub max_retries: u32,
    pub failover_max_attempts: u32,
    pub primary_compat_key: String,
}

/// What a [`BoundSlots`] holds.
#[verifier::ext_equal]
pub struct BoundSlotsView {
    pub generation: u64,
    pub providers: Seq<ProviderSlotView>,
    pub max_retries: u32,
    pub failover_max_attempts: u32,
    pub primary_compat_key: Seq<char>,
}

impl DeepView for BoundSlots {
    type V = BoundSlotsView;

    open spec fn deep_view(&self) -> BoundSlotsView {
        BoundSlotsView {
            generation: self.generation,
            providers: self.providers.deep_view(),
            max_retries: self.max_retries,
            failover_max_attempts: self.failover_max_attempts,
            primary_compat_key: self.primary_compat_key@,
        }
    }
}

impl Clone for BoundSlots {
    fn clone(&self) -> (out: BoundSlots)
        ensures
            out.deep_view() == self.deep_view(),
    {
        BoundSlots {
            generation: self.generation,
            providers: self.providers.clone(),
            max_retries: self.max_retries,
            failover_max_attempts: self.failover_max_attempts,
            primary_compat_key: self.primary_compat_key.clone(),
        }
    }
}

/// The provider with an id.
pub open spec fn target_of(providers: Seq<ProviderTargetView>, id: Seq<char>) -> Option<
    ProviderTargetView,
>
    decreases providers.len(),
{
    if providers.len() == 0 {
        None
    } else if providers[0].provider_id == id {
        Some(providers[0])
    } else {
        target_of(providers.drop_first(), id)
    }
}

/// The pool with an id.
pub open spec fn pool_of(pools: Seq<NamedPoolView>, id: Seq<char>) -> Option<
    ProviderPoolView,
>
    decreases pools.len(),
{
    if pools.len() == 0 {
        None
    } else if pools[0].id == id {
        Some(pools[0].pool)
    } else {
        pool_of(pools.drop_first(), id)
    }
}

/// The slot with an id.
pub open spec fn slot_of(slots: Seq<ProviderSlotView>, id: Seq<char>) -> Option<ProviderSlotView>
    decreases slots.len(),
{
    if slots.len() == 0 {
        None
    } else if slots[0].provider_id == id {
        Some(slots[0])
    } else {
        slot_of(slots.drop_first(), id)
    }
}

/// The slots with one more, which takes the place of one with the same id.
pub open spec fn with_slot(slots: Seq<ProviderSlotView>, slot: ProviderSlotView) -> Seq<
    ProviderSlotView,
>
    decreases slots.len(),
{
    if slots.len() == 0 {
        seq![slot]
    } else if slots[0].provider_id == slot.provider_id {
        seq![slot] + slots.drop_first()
    } else {
        seq![slots[0]] + with_slot(slots.drop_first(), slot)
    }
}

/// No two slots have the same id.
pub open spec fn distinct_ids(slots: Seq<ProviderSlotView>) -> bool {
    forall|i: int, j: int|
        0 <= i < j < slots.len() ==> (#[trigger] slots[i]).provider_id != (
        #[trigger] slots[j]).provider_id
}

impl LlmRoutingConfig {
    /// The provider with an id.
    pub fn provider(&self, id: &str) -> (target: Option<&ProviderTarget>)
        ensures
            target.deep_view() == target_of(self.deep_view().providers, id@),
    {
        let ghost view = self.providers.deep_view();
        assert(view.skip(0) =~= view);
        for i in 0..self.providers.len()
            invariant
                view == self.providers.deep_view(),
                view == self.deep_view().providers,
                target_of(view, id@) == target_of(view.skip(i as int), id@),
        {
            assert(view.skip(i as int).drop_first() =~= view.skip(i + 1));
            if str_eq(self.providers[i].provider_id.as_str(), id) {
                return Some(&self.providers[i]);
            }
        }
        None
    }

    /// The pool with an id.
    pub fn pool(&self, id: &str) -> (pool: Option<&ProviderPool>)
        ensures
            pool.deep_view() == pool_of(self.deep_view().pools, id@),
    {
        let ghost view = self.pools.deep_view();
        assert(view.skip(0) =~= view);
        for i in 0..self.pools.len()
            invariant
                view == self.pools.deep_view(),
                view == self.deep_view().pools,
                pool_of(view, id@) == pool_of(view.skip(i as int), id@),
        {
            assert(view.skip(i as int).drop_first() =~= view.skip(i + 1));
            if str_eq(self.pools[i].id.as_str(), id) {
                return Some(&self.pools[i].pool);
            }
        }
        None
    }
}

/// The slot with an id.
pub fn find_slot<'a>(slots: &'a Vec<ProviderSlot>, id: &str) -> (slot: Option<&'a ProviderSlot>)
    ensures
        slot.deep_view() == slot_of(slots.deep_view(), id@),
{
    let ghost view = slots.deep_view();
    assert(view.skip(0) =~= view);
    for i in 0..slots.len()
        invariant
            view == slots.deep_view(),
            slot_of(view, id@) == slot_of(view.skip(i as int), id@),
    {
        assert(view.skip(i as int).drop_first() =~= view.skip(i + 1));
        if str_eq(slots[i].provider_id.as_str(), id) {
            return Some(&slots[i]);
        }
    }
    None
}

/// Adds a slot, in the place of one with the same id where there is one.
pub fn insert_slot(slots: &mut Vec<ProviderSlot>, slot: ProviderSlot)
    ensures
        final(slots).deep_view() == with_slot(old(slots).deep_view(), slot.deep_view()),
{
    let ghost before = slots.deep_view();
    let ghost added = slot.deep_view();
    let n = slots.len();
    assert(before.skip(0) =~= before);
    let mut i: usize = 0;
    while i < n
        invariant
            n == slots.len(),
            i <= n,
            slots.deep_view() == before,
            before == old(slots).deep_view(),
            added == slot.deep_view(),
            with_slot(before, added) == before.take(i as int) + with_slot(
                before.skip(i as int),
                added,
            ),
        decreases n - i,
    {
        let ghost rest = before.skip(i as int);
        assert(rest.drop_first() =~= before.skip(i + 1));
        if str_eq(slots[i].provider_id.as_str(), slot.provider_id.as_str()) {
            slots.set(i, slot);
            return ;
        }
        i = i + 1;
    }
    slots.push(slot);
}

/// A slot that was added is found under its id, and all others are found as before.
pub proof fn law_added_slot_is_found(
    slots: Seq<ProviderSlotView>,
    slot: ProviderSlotView,
    id: Seq<char>,
)
    ensures
        slot_of(with_slot(slots, slot), id) == (if id == slot.provider_id {
            Some(slot)
        } else {
            slot_of(slots, id)
        }),
    decreases slots.len(),
{
    reveal_with_fuel(slot_of, 2);
    let added = with_slot(slots, slot);
    if slots.len() == 0 {
    } else if slots[0].provider_id == slot.provider_id {
        assert(added.drop_first() =~= slots.drop_first());
    } else {
        law_added_slot_is_found(slots.drop_first(), slot, id);
        assert(added.drop_first() =~= with_slot(slots.drop_first(), slot));
    }
}

proof fn lemma_with_slot_ids(slots: Seq<ProviderSlotView>, slot: ProviderSlotView)
    ensures
        forall|i: int|
            0 <= i < with_slot(slots, slot).len() ==> (#[trigger] with_slot(
                slots,
                slot,
            )[i]).provider_id == slot.provider_id || (i < slots.len() && with_slot(
                slots,
                slot,
            )[i] == slots[i]),
        slots.len() <= with_slot(slots, slot).len() <= slots.len() + 1,
    decreases slots.len(),
{
    if slots.len() > 0 && slots[0].provider_id != slot.provider_id {
        lemma_with_slot_ids(slots.drop_first(), slot);
    }
}

/// Adding slots keeps their ids apart.
pub proof fn law_slots_stay_distinct(slots: Seq<ProviderSlotView>, slot: ProviderSlotView)
    requires
        distinct_ids(slots),
    ensures
        distinct_ids(with_slot(slots, slot)),
    decreases slots.len(),
{
    if slots.len() > 0 {
        let rest = slots.drop_first();
        if slots[0].provider_id != slot.provider_id {
            assert(distinct_ids(rest));
            law_slots_stay_distinct(rest, slot);
            lemma_with_slot_ids(rest, slot);
        }
    }
}

impl ProviderSlot {
    /// Another copy of the slot.
    pub fn clone_slot(&self) -> (slot: ProviderSlot)
        ensures
            slot.deep_view() == self.deep_view(),
    {
        self.clone()
    }
}

impl HttpSlotFactory {
    /// What the configuration says of HTTP transports.
    pub fn from_engine(cfg: &EngineConfig) -> (factory: HttpSlotFactory)
        ensures
            factory.deep_view() == (HttpSlotFactoryView {
                stream_idle_timeout_secs: cfg.stream_idle_timeout_secs,
                http_dump: cfg.deep_view().http_dump,
                dumps_dir: cfg.deep_view().http_dumps_dir,
                enable_doom_loop_check: cfg.enable_doom_loop_check,
            }),
    {
        HttpSlotFactory {
            stream_idle_timeout_secs: cfg.stream_idle_timeout_secs,
            http_dump: cfg.http_dump.clone(),
            dumps_dir: cfg.http_dumps_dir.clone(),
            enable_doom_loop_check: cfg.enable_doom_loop_check,
        }
    }
}

/// What the transport to a provider is built from. Unless the configuration says
/// otherwise, looping is looked out for where the provider can report it.
pub open spec fn transport_options(
    factory: HttpSlotFactoryView,
    target: ProviderTargetView,
) -> TransportOptionsView {
    TransportOptionsView {
        base_url: target.base_url,
        api_key: target.api_key,
        stream_idle_timeout_secs: factory.stream_idle_timeout_secs,
        api_backend: target.api_backend,
        client_profile: target.client_profile,
        client_version: target.client_version,
        client_session_id: target.client_session_id,
        extra_headers: target.extra_headers,
        extra_body: target.extra_body,
        doom_loop: match factory.enable_doom_loop_check {
            Some(check) => check,
            None => target.api_backend == ApiBackend::Responses,
        },
        http_dump: factory.http_dump,
        dumps_dir: factory.dumps_dir,
    }
}

/// What the transport to a provider is built from.
pub fn http_transport(
    factory: &HttpSlotFactory,
    target: &ProviderTarget,
) -> (options: TransportOptions)
    ensures
        options.deep_view() == transport_options(factory.deep_view(), target.deep_view()),
{
    let doom_loop = match factory.enable_doom_loop_check {
        Some(check) => check,
        None => matches!(target.api_backend, ApiBackend::Responses),
    };
    let of = target.clone();
    TransportOptions {
        base_url: of.base_url,
        api_key: of.api_key,
        stream_idle_timeout_secs: factory.stream_idle_timeout_secs,
        api_backend: of.api_backend,
        client_profile: of.client_profile,
        client_version: of.client_version,
        client_session_id: of.client_session_id,
        extra_headers: of.extra_headers,
        extra_body: of.extra_body,
        doom_loop,
        http_dump: factory.http_dump.clone(),
        dumps_dir: factory.dumps_dir.clone(),
    }
}

/// The slot of a provider.
pub open spec fn slot_for(target: ProviderTargetView) -> ProviderSlotView {
    ProviderSlotView {
        provider_id: target.provider_id,
        fingerprint: target.fingerprint,
        compat_key: target.compat_key,
        model: target.model,
        api_backend: target.api_backend,
        reasoning_effort: target.reasoning_effort,
        enable_web_search: target.enable_web_search,
        web_search_options: target.web_search_options,
        enable_x_search: target.enable_x_search,
        x_search_options: target.x_search_options,
    }
}

/// The slot of a provider.
pub fn slot_from_target(target: &ProviderTarget) -> (slot: ProviderSlot)
    ensures
        slot.deep_view() == slot_for(target.deep_view()),
{
    ProviderSlot {
        provider_id: target.provider_id.clone(),
        fingerprint: target.fingerprint.clone(),
        compat_key: target.compat_key.clone(),
        model: target.model.clone(),
        api_backend: target.api_backend,
        reasoning_effort: target.reasoning_effort.clone(),
        enable_web_search: target.enable_web_search,
        web_search_options: target.web_search_options.clone(),
        enable_x_search: target.enable_x_search,
        x_search_options: target.x_search_options.clone(),
    }
}

// ── Binding ─────────────────────────────────────────────────────────────

/// The complaint about a pool member.
pub open spec fn member_complaint(
    pool_id: Seq<char>,
    provider_id: Seq<char>,
    complaint: Seq<char>,
) -> EngineErrorView {
    EngineErrorView::InvalidRoutingConfig(
        "pool '"@ + pool_id + "' member '"@ + provider_id + complaint,
    )
}

fn complain(pool_id: &str, provider_id: &str, complaint: &str) -> (error: EngineError)
    ensures
        error.deep_view() == member_complaint(pool_id@, provider_id@, complaint@),
{
    let mut message = join("pool '", pool_id);
    message.append("' member '");
    message.append(provider_id);
    message.append(complaint);
    EngineError::InvalidRoutingConfig(message)
}

/// What is wrong with binding one pool member, if anything: it has no transport, or
/// the configuration does not know it.
pub open spec fn injected_fault(
    pool_id: Seq<char>,
    providers: Seq<ProviderTargetView>,
    transports: Seq<Seq<char>>,
    member: PoolMemberView,
) -> Option<EngineErrorView> {
    if !transports.contains(member.provider_id) {
        Some(member_complaint(pool_id, member.provider_id, "' has no bound transport"@))
    } else if target_of(providers, member.provider_id) is None {
        Some(member_complaint(pool_id, member.provider_id, "' is missing from providers"@))
    } else {
        None
    }
}

/// What is wrong with binding one pool member over HTTP, if anything: the
/// configuration does not know it, or its transport could not be built.
pub open spec fn http_fault(
    pool_id: Seq<char>,
    providers: Seq<ProviderTargetView>,
    failures: Seq<Option<EngineErrorView>>,
    at: int,
    member: PoolMemberView,
) -> Option<EngineErrorView> {
    if target_of(providers, member.provider_id) is None {
        Some(member_complaint(pool_id, member.provider_id, "' is missing from providers"@))
    } else if 0 <= at < failures.len() {
        failures[at]
    } else {
        None
    }
}

/// The slots of some pool members that the configuration knows.
pub open spec fn slots_for(
    providers: Seq<ProviderTargetView>,
    members: Seq<PoolMemberView>,
) -> Seq<ProviderSlotView>
    decreases members.len(),
{
    if members.len() == 0 {
        Seq::empty()
    } else {
        with_slot(
            slots_for(providers, members.drop_last()),
            slot_for(target_of(providers, members.last().provider_id).unwrap()),
        )
    }
}

/// A number, at least 1.
pub open spec fn at_least_one(n: u32) -> u32 {
    if n == 0 {
        1
    } else {
        n
    }
}

fn max_one(n: u32) -> (m: u32)
    ensures
        m == at_least_one(n),
{
    if n == 0 {
        1
    } else {
        n
    }
}

/// A client that is bound to all members of a pool. The compatibility key of the
/// first member is the one of history that names none.
pub open spec fn bound_to(
    generation: u64,
    providers: Seq<ProviderTargetView>,
    pool: ProviderPoolView,
) -> BoundSlotsView {
    let slots = slots_for(providers, pool.members);
    BoundSlotsView {
        generation,
        providers: slots,
        max_retries: at_least_one(pool.retry.max_retries),
        failover_max_attempts: at_least_one(pool.retry.failover_max_attempts),
        primary_compat_key: if pool.members.len() == 0 {
            Seq::empty()
        } else {
            match slot_of(slots, pool.members[0].provider_id) {
                Some(slot) => slot.compat_key,
                None => Seq::empty(),
            }
        },
    }
}

fn bind_all(generation: u64, pool: &ProviderPool, slots: Vec<ProviderSlot>, Ghost(providers): Ghost<
    Seq<ProviderTargetView>,
>) -> (bound: BoundSlots)
    requires
        slots.deep_view() == slots_for(providers, pool.deep_view().members),
    ensures
        bound.deep_view() == bound_to(generation, providers, pool.deep_view()),
{
    let primary_compat_key = if pool.members.len() == 0 {
        String::new()
    } else {
        match find_slot(&slots, pool.members[0].provider_id.as_str()) {
            Some(slot) => slot.compat_key.clone(),
            None => String::new(),
        }
    };
    BoundSlots {
        generation,
        providers: slots,
        max_retries: max_one(pool.retry.max_retries),
        failover_max_attempts: max_one(pool.retry.failover_max_attempts),
        primary_compat_key,
    }
}

/// Binds the members of a pool to HTTP transports. `failures` holds, for each
/// member, why its transport could not be built, where it could not. The first
/// member that cannot be bound decides.
pub fn bind_http_slots(
    pool_id: &str,
    generation: u64,
    snapshot: &LlmRoutingConfig,
    failures: &Vec<Option<EngineError>>,
) -> (bound: Result<BoundSlots, EngineError>)
    ensures
        ({
            let view = snapshot.deep_view();
            let faults = failures.deep_view();
            match pool_of(view.pools, pool_id@) {
                None => bound matches Err(error) && error.deep_view()
                    == (EngineErrorView::RouteNotConfigured { pool_id: pool_id@ }),
                Some(pool) => match bound {
                    Ok(slots) => {
                        &&& slots.deep_view() == bound_to(generation, view.providers, pool)
                        &&& forall|i: int|
                            0 <= i < pool.members.len() ==> http_fault(
                                pool_id@,
                                view.providers,
                                faults,
                                i,
                                #[trigger] pool.members[i],
                            ) is None
                    },
                    Err(error) => exists|at: int|
                        {
                            &&& 0 <= at < pool.members.len()
                            &&& http_fault(
                                pool_id@,
                                view.providers,
                                faults,
                                at,
                                #[trigger] pool.members[at],
                            ) == Some(error.deep_view())
                            &&& forall|i: int|
                                0 <= i < at ==> http_fault(
                                    pool_id@,
                                    view.providers,
                                    faults,
                                    i,
                                    #[trigger] pool.members[i],
                                ) is None
                        },
                },
            }
        }),
{
    let pool = match snapshot.pool(pool_id) {
        Some(pool) => pool,
        None => {
            return Err(EngineError::RouteNotConfigured { pool_id: pool_id.to_owned() });
        },
    };
    let ghost view = snapshot.deep_view();
    let ghost faults = failures.deep_view();
    let ghost members = pool.deep_view().members;
    let mut slots: Vec<ProviderSlot> = Vec::new();
    for i in 0..pool.members.len()
        invariant
            view == snapshot.deep_view(),
            faults == failures.deep_view(),
            members == pool.deep_view().members,
            members == pool.members.deep_view(),
            pool_of(view.pools, pool_id@) == Some(pool.deep_view()),
            slots.deep_view() == slots_for(view.providers, members.take(i as int)),
            forall|j: int|
                0 <= j < i ==> http_fault(
                    pool_id@,
                    view.providers,
                    faults,
                    j,
                    #[trigger] members[j],
                ) is None,
    {
        let member = &pool.members[i];
        assert(members.take(i + 1).drop_last() =~= members.take(i as int));
        match snapshot.provider(member.provider_id.as_str()) {
            None => {
                let error = complain(
                    pool_id,
                    member.provider_id.as_str(),
                    "' is missing from providers",
                );
                return Err(error);
            },
            Some(target) => {
                if i < failures.len() {
                    if let Some(error) = &failures[i] {
                        let error = error.clone();
                        assert(http_fault(
                            pool_id@,
                            view.providers,
                            faults,
                            i as int,
                            members[i as int],
                        ) == Some(error.deep_view()));
                        return Err(error);
                    }
                }
                insert_slot(&mut slots, slot_from_target(target));
            },
        }
    }
    assert(members.take(members.len() as int) =~= members);
    Ok(bind_all(generation, pool, slots, Ghost(view.providers)))
}

fn has_id(ids: &Vec<String>, id: &str) -> (found: bool)
    ensures
        found == ids.deep_view().contains(id@),
{
    let ghost view = ids.deep_view();
    for i in 0..ids.len()
        invariant
            view == ids.deep_view(),
            forall|j: int| 0 <= j < i ==> view[j] != id@,
    {
        if str_eq(ids[i].as_str(), id) {
            assert(view[i as int] == id@);
            return true;
        }
    }
    false
}

/// Binds the members of a pool to transports that the caller has. A member without
/// one is an error; the first member that cannot be bound decides.
pub fn bind_injected_slots(
    pool_id: &str,
    generation: u64,
    snapshot: &LlmRoutingConfig,
    transports: &Vec<String>,
) -> (bound: Result<BoundSlots, EngineError>)
    ensures
        ({
            let view = snapshot.deep_view();
            let ids = transports.deep_view();
            match pool_of(view.pools, pool_id@) {
                None => bound matches Err(error) && error.deep_view()
                    == (EngineErrorView::RouteNotConfigured { pool_id: pool_id@ }),
                Some(pool) => match bound {
                    Ok(slots) => {
                        &&& slots.deep_view() == bound_to(generation, view.providers, pool)
                        &&& forall|i: int|
                            0 <= i < pool.members.len() ==> injected_fault(
                                pool_id@,
                                view.providers,
                                ids,
                                #[trigger] pool.members[i],
                            ) is None
                    },
                    Err(error) => exists|at: int|
                        {
                            &&& 0 <= at < pool.members.len()
                            &&& injected_fault(
                                pool_id@,
                                view.providers,
                                ids,
                                #[trigger] pool.members[at],
                            ) == Some(error.deep_view())
                            &&& forall|i: int|
                                0 <= i < at ==> injected_fault(
                                    pool_id@,
                                    view.providers,
                                    ids,
                                    #[trigger] pool.members[i],
                                ) is None
                        },
                },
            }
        }),
{
    let pool = match snapshot.pool(pool_id) {
        Some(pool) => pool,
        None => {
            return Err(EngineError::RouteNotConfigured { pool_id: pool_id.to_owned() });
        },
    };
    let ghost view = snapshot.deep_view();
    let ghost ids = transports.deep_view();
    let ghost members = pool.deep_view().members;
    let mut slots: Vec<ProviderSlot> = Vec::new();
    for i in 0..pool.members.len()
        invariant
            view == snapshot.deep_view(),
            ids == transports.deep_view(),
            members == pool.deep_view().members,
            members == pool.members.deep_view(),
            pool_of(view.pools, pool_id@) == Some(pool.deep_view()),
            slots.deep_view() == slots_for(view.providers, members.take(i as int)),
            forall|j: int|
                0 <= j < i ==> injected_fault(
                    pool_id@,
                    view.providers,
                    ids,
                    #[trigger] members[j],
                ) is None,
    {
        let member = &pool.members[i];
        assert(members.take(i + 1).drop_last() =~= members.take(i as int));
        if !has_id(transports, member.provider_id.as_str()) {
            let error = complain(
                pool_id,
                member.provider_id.as_str(),
                "' has no bound transport",
            );
            return Err(error);
        }
        match snapshot.provider(member.provider_id.as_str()) {
            None => {
                let error = complain(
                    pool_id,
                    member.provider_id.as_str(),
                    "' is missing from providers",
                );
                assert(injected_fault(pool_id@, view.providers, ids, members[i as int]) == Some(
                    error.deep_view(),
                ));
                return Err(error);
            },
            Some(target) => {
                insert_slot(&mut slots, slot_from_target(target));
            },
        }
    }
    assert(members.take(members.len() as int) =~= members);
    Ok(bind_all(generation, pool, slots, Ghost(view.providers)))
}

/// What the transports of a pool's members are built from, in the members' order;
/// nothing for a member that the configuration does not know.
pub open spec fn planned_transports(
    factory: HttpSlotFactoryView,
    config: LlmRoutingConfigView,
    pool_id: Seq<char>,
) -> Seq<Option<TransportOptionsView>> {
    match pool_of(config.pools, pool_id) {
        Some(pool) => Seq::new(
            pool.members.len(),
            |i: int|
                match target_of(config.providers, pool.members[i].provider_id) {
                    Some(target) => Some(transport_options(factory, target)),
                    None => None,
                },
        ),
        None => Seq::empty(),
    }
}

/// What the transports of a pool's members are built from.
pub fn plan_transports(
    factory: &HttpSlotFactory,
    snapshot: &LlmRoutingConfig,
    pool_id: &str,
) -> (plan: Vec<Option<TransportOptions>>)
    ensures
        plan.deep_view() == planned_transports(
            factory.deep_view(),
            snapshot.deep_view(),
            pool_id@,
        ),
{
    let mut plan: Vec<Option<TransportOptions>> = Vec::new();
    let ghost planned = planned_transports(factory.deep_view(), snapshot.deep_view(), pool_id@);
    if let Some(pool) = snapshot.pool(pool_id) {
        let ghost members = pool.deep_view().members;
        for i in 0..pool.members.len()
            invariant
                members == pool.deep_view().members,
                members == pool.members.deep_view(),
                pool_of(snapshot.deep_view().pools, pool_id@) == Some(pool.deep_view()),
                planned == planned_transports(
                    factory.deep_view(),
                    snapshot.deep_view(),
                    pool_id@,
                ),
                plan.len() == i,
                forall|j: int| 0 <= j < i ==> (#[trigger] plan@[j]).deep_view() == planned[j],
        {
            plan.push(
                match snapshot.provider(pool.members[i].provider_id.as_str()) {
                    Some(target) => Some(http_transport(factory, target)),
                    None => None,
                },
            );
        }
    }
    plan
}

proof fn lemma_slots_for_member(
    providers: Seq<ProviderTargetView>,
    members: Seq<PoolMemberView>,
    at: int,
)
    requires
        0 <= at < members.len(),
        forall|i: int|
            0 <= i < members.len() ==> target_of(
                providers,
                (#[trigger] members[i]).provider_id,
            ) is Some,
    ensures
        slot_of(slots_for(providers, members), members[at].provider_id) == Some(
            slot_for(target_of(providers, members[at].provider_id).unwrap()),
        ),
    decreases members.len(),
{
    let id = members[at].provider_id;
    let last = members.last();
    let before = slots_for(providers, members.drop_last());
    let slot = slot_for(target_of(providers, last.provider_id).unwrap());
    law_target_has_the_id(providers, last.provider_id);
    law_added_slot_is_found(before, slot, id);
    if id != last.provider_id {
        lemma_slots_for_member(providers, members.drop_last(), at);
    }
}

/// The provider that is found under an id has it.
pub proof fn law_target_has_the_id(providers: Seq<ProviderTargetView>, id: Seq<char>)
    ensures
        target_of(providers, id) matches Some(target) ==> target.provider_id == id,
    decreases providers.len(),
{
    if providers.len() > 0 && providers[0].provider_id != id {
        law_target_has_the_id(providers.drop_first(), id);
    }
}

/// Once a pool is bound, every member has the slot of its provider, and the key of
/// the first is the primary one.
pub proof fn law_every_member_is_bound(
    generation: u64,
    providers: Seq<ProviderTargetView>,
    pool: ProviderPoolView,
    at: int,
)
    requires
        0 <= at < pool.members.len(),
        forall|i: int|
            0 <= i < pool.members.len() ==> target_of(
                providers,
                (#[trigger] pool.members[i]).provider_id,
            ) is Some,
    ensures
        ({
            let bound = bound_to(generation, providers, pool);
            let first = target_of(providers, pool.members[0].provider_id).unwrap();
            &&& slot_of(bound.providers, pool.members[at].provider_id) == Some(
                slot_for(target_of(providers, pool.members[at].provider_id).unwrap()),
            )
            &&& bound.primary_compat_key == first.compat_key
        }),
{
    lemma_slots_for_member(providers, pool.members, at);
    lemma_slots_for_member(providers, pool.members, 0);
}

/// A client never has two slots for one provider.
pub proof fn law_bound_slots_are_distinct(
    providers: Seq<ProviderTargetView>,
    members: Seq<PoolMemberView>,
)
    ensures
        distinct_ids(slots_for(providers, members)),
    decreases members.len(),
{
    if members.len() > 0 {
        law_bound_slots_are_distinct(providers, members.drop_last());
        law_slots_stay_distinct(
            slots_for(providers, members.drop_last()),
            slot_for(target_of(providers, members.last().provider_id).unwrap()),
        );
    }
}

// ── Routing for transports without a configuration ──────────────────────

/// What a configuration that is made up for given transports holds beside them.
pub struct SyntheticRouting {
    pub max_retries: u32,
    pub failover_max_attempts: u32,
    pub cooldown_secs: u64,
    pub routing_group: String,
    pub base_score: u32,
    pub client_profile: String,
}

/// The provider that a slot is listed as.
pub open spec fn synthetic_target(
    made: SyntheticRouting,
    slot: ProviderSlotView,
    at: int,
) -> ProviderTargetView {
    ProviderTargetView {
        provider_id: slot.provider_id,
        base_url: "https://router.invalid/"@ + text::decimal_text(at as nat) + "/v1"@,
        api_key: "test"@,
        model: if slot.model.len() == 0 {
            "m"@
        } else {
            slot.model
        },
        api_backend: slot.api_backend,
        client_profile: made.client_profile@,
        client_version: None,
        client_session_id: None,
        compat_key: slot.compat_key,
        fingerprint: slot.fingerprint,
        extra_headers: Seq::empty(),
        extra_body: Seq::empty(),
        enable_web_search: slot.enable_web_search,
        web_search_options: slot.web_search_options,
        enable_x_search: slot.enable_x_search,
        x_search_options: slot.x_search_options,
        reasoning_effort: slot.reasoning_effort,
    }
}

/// The pool member that a slot is listed as.
pub open spec fn synthetic_member(
    made: SyntheticRouting,
    slot: ProviderSlotView,
    at: int,
) -> PoolMemberView {
    PoolMemberView {
        provider_id: slot.provider_id,
        routing_group: made.routing_group@,
        base_score: made.base_score,
        order: at as u32,
        enabled: true,
    }
}

/// One pool of all slots, in their order.
pub open spec fn synthetic_config(
    made: SyntheticRouting,
    slots: Seq<ProviderSlotView>,
) -> LlmRoutingConfigView {
    LlmRoutingConfigView {
        providers: Seq::new(slots.len(), |i: int| synthetic_target(made, slots[i], i)),
        pools: seq![
            NamedPoolView {
                id: MAIN_POOL_ID@,
                pool: ProviderPoolView {
                    members: Seq::new(slots.len(), |i: int| synthetic_member(made, slots[i], i)),
                    retry: RetryPolicy {
                        failover_max_attempts: at_least_one(made.failover_max_attempts),
                        max_retries: at_least_one(made.max_retries),
                    },
                    probe_when_exhausted: true,
                },
            },
        ],
        cooldown_base_secs: made.cooldown_secs,
    }
}

fn list_target(made: &SyntheticRouting, slot: &ProviderSlot, at: usize) -> (target: ProviderTarget)
    ensures
        target.deep_view() == synthetic_target(*made, slot.deep_view(), at as int),
{
    let number = decimal(at as u128);
    let mut base_url = join("https://router.invalid/", number.as_str());
    base_url.append("/v1");
    let model = if slot.model.as_str().is_empty() {
        "m".to_owned()
    } else {
        slot.model.clone()
    };
    ProviderTarget {
        provider_id: slot.provider_id.clone(),
        base_url,
        api_key: "test".to_owned(),
        model,
        api_backend: slot.api_backend,
        client_profile: made.client_profile.clone(),
        client_version: None,
        client_session_id: None,
        compat_key: slot.compat_key.clone(),
        fingerprint: slot.fingerprint.clone(),
        extra_headers: Vec::new(),
        extra_body: Vec::new(),
        enable_web_search: slot.enable_web_search,
        web_search_options: slot.web_search_options.clone(),
        enable_x_search: slot.enable_x_search,
        x_search_options: slot.x_search_options.clone(),
        reasoning_effort: slot.reasoning_effort.clone(),
    }
}

/// The configuration under which given transports form one pool.
pub fn synthetic_router(
    made: &SyntheticRouting,
    slots: &Vec<ProviderSlot>,
) -> (config: LlmRoutingConfig)
    ensures
        config.deep_view() == synthetic_config(*made, slots.deep_view()),
{
    let ghost view = slots.deep_view();
    let mut providers: Vec<ProviderTarget> = Vec::new();
    let mut members: Vec<PoolMember> = Vec::new();
    for i in 0..slots.len()
        invariant
            view == slots.deep_view(),
            providers.len() == i,
            members.len() == i,
            forall|j: int|
                0 <= j < i ==> (#[trigger] providers@[j]).deep_view() == synthetic_target(
                    *made,
                    view[j],
                    j,
                ),
            forall|j: int|
                0 <= j < i ==> (#[trigger] members@[j]).deep_view() == synthetic_member(
                    *made,
                    view[j],
                    j,
                ),
    {
        let slot = &slots[i];
        providers.push(list_target(made, slot, i));
        members.push(
            PoolMember {
                provider_id: slot.provider_id.clone(),
                routing_group: made.routing_group.clone(),
                base_score: made.base_score,
                order: i as u32,
                enabled: true,
            },
        );
    }
    let pool = ProviderPool {
        members,
        retry: RetryPolicy {
            failover_max_attempts: max_one(made.failover_max_attempts),
            max_retries: max_one(made.max_retries),
        },
        probe_when_exhausted: true,
    };
    let mut pools: Vec<NamedPool> = Vec::new();
    pools.push(NamedPool { id: MAIN_POOL_ID.to_owned(), pool });
    let config = LlmRoutingConfig { providers, pools, cooldown_base_secs: made.cooldown_secs };
    let ghost expected = synthetic_config(*made, view);
    assert(pool.deep_view().members =~= expected.pools[0].pool.members);
    config
}

// ── What configurations and slots say ───────────────────────────────────

/// Under an id the first provider that has it is found, and none where none has it.
pub proof fn law_first_target_is_found(providers: Seq<ProviderTargetView>, id: Seq<char>)
    ensures
        match target_of(providers, id) {
            Some(target) => exists|i: int|
                {
                    &&& 0 <= i < providers.len()
                    &&& #[trigger] providers[i] == target
                    &&& target.provider_id == id
                    &&& forall|j: int| 0 <= j < i ==> (#[trigger] providers[j]).provider_id != id
                },
            None => forall|j: int|
                0 <= j < providers.len() ==> (#[trigger] providers[j]).provider_id != id,
        },
    decreases providers.len(),
{
    if providers.len() > 0 {
        if providers[0].provider_id == id {
            assert(providers[0] == target_of(providers, id).unwrap());
        } else {
            let rest = providers.drop_first();
            law_first_target_is_found(rest, id);
            let end: int = match target_of(providers, id) {
                Some(target) => {
                    let i = choose|i: int|
                        {
                            &&& 0 <= i < rest.len()
                            &&& #[trigger] rest[i] == target
                            &&& target.provider_id == id
                            &&& forall|j: int|
                                0 <= j < i ==> (#[trigger] rest[j]).provider_id != id
                        };
                    assert(providers[i + 1] == target);
                    i + 1
                },
                None => providers.len() as int,
            };
            assert forall|j: int| 0 <= j < end implies (#[trigger] providers[j]).provider_id
                != id by {
                if j > 0 {
                    assert(providers[j] == rest[j - 1]);
                }
            }
        }
    }
}

/// Under an id the first pool that has it is found, and none where none has it.
pub proof fn law_first_pool_is_found(pools: Seq<NamedPoolView>, id: Seq<char>)
    ensures
        match pool_of(pools, id) {
            Some(pool) => exists|i: int|
                {
                    &&& 0 <= i < pools.len()
                    &&& (#[trigger] pools[i]).id == id
                    &&& pools[i].pool == pool
                    &&& forall|j: int| 0 <= j < i ==> (#[trigger] pools[j]).id != id
                },
            None => forall|j: int| 0 <= j < pools.len() ==> (#[trigger] pools[j]).id != id,
        },
    decreases pools.len(),
{
    if pools.len() > 0 {
        if pools[0].id == id {
            assert(pools[0].pool == pool_of(pools, id).unwrap());
        } else {
            let rest = pools.drop_first();
            law_first_pool_is_found(rest, id);
            let end: int = match pool_of(pools, id) {
                Some(pool) => {
                    let i = choose|i: int|
                        {
                            &&& 0 <= i < rest.len()
                            &&& (#[trigger] rest[i]).id == id
                            &&& rest[i].pool == pool
                            &&& forall|j: int| 0 <= j < i ==> (#[trigger] rest[j]).id != id
                        };
                    assert(pools[i + 1] == rest[i]);
                    i + 1
                },
                None => pools.len() as int,
            };
            assert forall|j: int| 0 <= j < end implies (#[trigger] pools[j]).id != id by {
                if j > 0 {
                    assert(pools[j] == rest[j - 1]);
                }
            }
        }
    }
}

/// Under an id the first slot that has it is found, and none where none has it.
pub proof fn law_first_slot_is_found(slots: Seq<ProviderSlotView>, id: Seq<char>)
    ensures
        match slot_of(slots, id) {
            Some(slot) => exists|i: int|
                {
                    &&& 0 <= i < slots.len()
                    &&& #[trigger] slots[i] == slot
                    &&& slot.provider_id == id
                    &&& forall|j: int| 0 <= j < i ==> (#[trigger] slots[j]).provider_id != id
                },
            None => forall|j: int|
                0 <= j < slots.len() ==> (#[trigger] slots[j]).provider_id != id,
        },
    decreases slots.len(),
{
    if slots.len() > 0 {
        if slots[0].provider_id == id {
            assert(slots[0] == slot_of(slots, id).unwrap());
        } else {
            let rest = slots.drop_first();
            law_first_slot_is_found(rest, id);
            let end: int = match slot_of(slots, id) {
                Some(slot) => {
                    let i = choose|i: int|
                        {
                            &&& 0 <= i < rest.len()
                            &&& #[trigger] rest[i] == slot
                            &&& slot.provider_id == id
                            &&& forall|j: int|
                                0 <= j < i ==> (#[trigger] rest[j]).provider_id != id
                        };
                    assert(slots[i + 1] == slot);
                    i + 1
                },
                None => slots.len() as int,
            };
            assert forall|j: int| 0 <= j < end implies (#[trigger] slots[j]).provider_id
                != id by {
                if j > 0 {
                    assert(slots[j] == rest[j - 1]);
                }
            }
        }
    }
}

/// A slot says of its provider what the configuration says of it.
pub proof fn law_slots_follow_their_providers(target: ProviderTargetView)
    ensures
        ({
            let slot = slot_for(target);
            &&& slot.provider_id == target.provider_id
            &&& slot.fingerprint == target.fingerprint
            &&& slot.compat_key == target.compat_key
            &&& slot.model == target.model
            &&& slot.api_backend == target.api_backend
            &&& slot.reasoning_effort == target.reasoning_effort
            &&& slot.enable_web_search == target.enable_web_search
            &&& slot.web_search_options == target.web_search_options
            &&& slot.enable_x_search == target.enable_x_search
            &&& slot.x_search_options == target.x_search_options
        }),
{
}

/// A transport goes to the address of its provider, with its key, its headers and its
/// profile. It times out and dumps as the engine says, and looks out for loops as the
/// engine says, or, where that says nothing, over the Responses API alone.
pub proof fn law_transports_follow_their_providers(
    factory: HttpSlotFactoryView,
    target: ProviderTargetView,
)
    ensures
        ({
            let options = transport_options(factory, target);
            &&& options.base_url == target.base_url
            &&& options.api_key == target.api_key
            &&& options.api_backend == target.api_backend
            &&& options.client_profile == target.client_profile
            &&& options.client_version == target.client_version
            &&& options.client_session_id == target.client_session_id
            &&& options.extra_headers == target.extra_headers
            &&& options.extra_body == target.extra_body
            &&& options.stream_idle_timeout_secs == factory.stream_idle_timeout_secs
            &&& options.http_dump == factory.http_dump
            &&& options.dumps_dir == factory.dumps_dir
            &&& options.doom_loop <==> factory.enable_doom_loop_check == Some(true) || (
            factory.enable_doom_loop_check is None && target.api_backend == ApiBackend::Responses)
        }),
{
}

/// A transport is planned for each member of the pool that the configuration knows, in
/// the members' order, to the provider that the member names.
pub proof fn law_transports_are_planned_for_members(
    factory: HttpSlotFactoryView,
    config: LlmRoutingConfigView,
    pool_id: Seq<char>,
)
    ensures
        match pool_of(config.pools, pool_id) {
            Some(pool) => {
                let planned = planned_transports(factory, config, pool_id);
                &&& planned.len() == pool.members.len()
                &&& forall|i: int|
                    0 <= i < planned.len() ==> match target_of(
                        config.providers,
                        pool.members[i].provider_id,
                    ) {
                        Some(target) => #[trigger] planned[i] == Some(
                            transport_options(factory, target),
                        ),
                        None => planned[i] is None,
                    }
            },
            None => planned_transports(factory, config, pool_id).len() == 0,
        },
{
}

/// A member can be bound to a transport of the caller if and only if the caller has
/// one for it and the configuration knows it; the complaint names the pool, the member
/// and what is missing.
pub proof fn law_injected_members_need_a_transport(
    pool_id: Seq<char>,
    providers: Seq<ProviderTargetView>,
    transports: Seq<Seq<char>>,
    member: PoolMemberView,
)
    ensures
        ({
            let fault = injected_fault(pool_id, providers, transports, member);
            let who = "pool '"@ + pool_id + "' member '"@ + member.provider_id;
            let has_transport = exists|i: int|
                0 <= i < transports.len() && #[trigger] transports[i] == member.provider_id;
            let is_known = target_of(providers, member.provider_id) is Some;
            &&& fault is None <==> has_transport && is_known
            &&& !has_transport ==> fault == Some(
                EngineErrorView::InvalidRoutingConfig(who + "' has no bound transport"@),
            )
            &&& has_transport && !is_known ==> fault == Some(
                EngineErrorView::InvalidRoutingConfig(who + "' is missing from providers"@),
            )
        }),
{
}

/// A member can be bound over HTTP if and only if the configuration knows it and its
/// transport could be built; otherwise the error is the complaint that the
/// configuration does not know it, or why the transport could not be built.
pub proof fn law_http_members_need_a_provider(
    pool_id: Seq<char>,
    providers: Seq<ProviderTargetView>,
    failures: Seq<Option<EngineErrorView>>,
    at: int,
    member: PoolMemberView,
)
    requires
        0 <= at,
    ensures
        ({
            let fault = http_fault(pool_id, providers, failures, at, member);
            let is_known = target_of(providers, member.provider_id) is Some;
            &&& !is_known ==> fault == Some(
                EngineErrorView::InvalidRoutingConfig(
                    "pool '"@ + pool_id + "' member '"@ + member.provider_id
                        + "' is missing from providers"@,
                ),
            )
            &&& is_known && at < failures.len() ==> fault == failures[at]
            &&& is_known && at >= failures.len() ==> fault is None
        }),
{
}

/// A bound pool has a slot for each of its members and for nobody else, at least one
/// request per budget, and the generation of the configuration it was bound from.
pub proof fn law_bound_pools_have_their_members(
    generation: u64,
    providers: Seq<ProviderTargetView>,
    pool: ProviderPoolView,
)
    requires
        forall|i: int|
            0 <= i < pool.members.len() ==> target_of(
                providers,
                (#[trigger] pool.members[i]).provider_id,
            ) is Some,
    ensures
        ({
            let bound = bound_to(generation, providers, pool);
            &&& bound.generation == generation
            &&& pool.retry.max_retries > 0 ==> bound.max_retries == pool.retry.max_retries
            &&& pool.retry.max_retries == 0 ==> bound.max_retries == 1
            &&& pool.retry.failover_max_attempts > 0 ==> bound.failover_max_attempts
                == pool.retry.failover_max_attempts
            &&& pool.retry.failover_max_attempts == 0 ==> bound.failover_max_attempts == 1
            &&& forall|k: int|
                0 <= k < bound.providers.len() ==> exists|i: int|
                    0 <= i < pool.members.len() && (#[trigger] pool.members[i]).provider_id == (
                    #[trigger] bound.providers[k]).provider_id
            &&& pool.members.len() == 0 ==> bound.primary_compat_key.len() == 0
        }),
{
    lemma_slots_are_of_members(providers, pool.members);
}

proof fn lemma_slots_are_of_members(
    providers: Seq<ProviderTargetView>,
    members: Seq<PoolMemberView>,
)
    requires
        forall|i: int|
            0 <= i < members.len() ==> target_of(
                providers,
                (#[trigger] members[i]).provider_id,
            ) is Some,
    ensures
        forall|k: int|
            0 <= k < slots_for(providers, members).len() ==> exists|i: int|
                0 <= i < members.len() && (#[trigger] members[i]).provider_id == (
                #[trigger] slots_for(providers, members)[k]).provider_id,
    decreases members.len(),
{
    if members.len() > 0 {
        let front = members.drop_last();
        let last = members.last();
        assert forall|i: int| 0 <= i < front.len() implies target_of(
            providers,
            (#[trigger] front[i]).provider_id,
        ) is Some by {
            assert(front[i] == members[i]);
        }
        lemma_slots_are_of_members(providers, front);
        assert(target_of(providers, members[members.len() - 1].provider_id) is Some);
        law_target_has_the_id(providers, last.provider_id);
        let before = slots_for(providers, front);
        let slot = slot_for(target_of(providers, last.provider_id).unwrap());
        lemma_with_slot_ids(before, slot);
        lemma_slot_comes_from(before, slot);
        let all = slots_for(providers, members);
        assert forall|k: int| 0 <= k < all.len() implies exists|i: int|
            0 <= i < members.len() && (#[trigger] members[i]).provider_id == (
            #[trigger] all[k]).provider_id by {
            if all[k] == slot {
                assert(members[members.len() - 1].provider_id == all[k].provider_id);
            } else {
                let m = choose|m: int| 0 <= m < before.len() && #[trigger] before[m] == all[k];
                assert(before[m] == all[k]);
                let i = choose|i: int|
                    0 <= i < front.len() && (#[trigger] front[i]).provider_id
                        == before[m].provider_id;
                assert(members[i] == front[i]);
            }
        }
    }
}

proof fn lemma_slot_comes_from(slots: Seq<ProviderSlotView>, slot: ProviderSlotView)
    ensures
        forall|k: int|
            0 <= k < with_slot(slots, slot).len() ==> #[trigger] with_slot(slots, slot)[k] == slot
                || exists|m: int|
                0 <= m < slots.len() && #[trigger] slots[m] == with_slot(slots, slot)[k],
    decreases slots.len(),
{
    let all = with_slot(slots, slot);
    if slots.len() > 0 {
        let rest = slots.drop_first();
        lemma_slot_comes_from(rest, slot);
        assert forall|k: int| 0 <= k < all.len() implies #[trigger] all[k] == slot || exists|m: int|
            0 <= m < slots.len() && #[trigger] slots[m] == all[k] by {
            if slots[0].provider_id == slot.provider_id {
                if k > 0 {
                    assert(all[k] == slots[k]);
                }
            } else if k == 0 {
                assert(slots[0] == all[0]);
            } else {
                let tail = with_slot(rest, slot);
                assert(all[k] == tail[k - 1]);
                if tail[k - 1] != slot {
                    let m = choose|m: int|
                        0 <= m < rest.len() && #[trigger] rest[m] == tail[k - 1];
                    assert(slots[m + 1] == all[k]);
                }
            }
        }
    }
}

/// The configuration for given transports lists each slot once, in order, as an
/// enabled member of the main pool and as a provider under its own id, with its own
/// model, key and tools. The budgets of the pool are at least 1.
pub proof fn law_made_up_routing_lists_the_slots(
    made: SyntheticRouting,
    slots: Seq<ProviderSlotView>,
)
    requires
        slots.len() <= u32::MAX,
    ensures
        ({
            let config = synthetic_config(made, slots);
            let pool = config.pools[0].pool;
            &&& config.providers.len() == slots.len()
            &&& config.pools.len() == 1
            &&& config.pools[0].id == "main"@
            &&& config.cooldown_base_secs == made.cooldown_secs
            &&& pool.members.len() == slots.len()
            &&& pool.probe_when_exhausted
            &&& pool.retry.max_retries >= 1 && (made.max_retries > 0 ==> pool.retry.max_retries
                == made.max_retries) && (made.max_retries == 0 ==> pool.retry.max_retries == 1)
            &&& pool.retry.failover_max_attempts >= 1 && (made.failover_max_attempts > 0
                ==> pool.retry.failover_max_attempts == made.failover_max_attempts) && (
            made.failover_max_attempts == 0 ==> pool.retry.failover_max_attempts == 1)
            &&& forall|i: int|
                0 <= i < slots.len() ==> {
                    let member = #[trigger] pool.members[i];
                    &&& member.provider_id == slots[i].provider_id
                    &&& member.enabled
                    &&& member.order == i
                    &&& member.routing_group == made.routing_group@
                    &&& member.base_score == made.base_score
                }
            &&& forall|i: int|
                0 <= i < slots.len() ==> {
                    let target = #[trigger] config.providers[i];
                    let slot = slots[i];
                    &&& target.provider_id == slot.provider_id
                    &&& target.base_url == "https://router.invalid/"@ + text::decimal_text(
                        i as nat,
                    ) + "/v1"@
                    &&& target.api_key == "test"@
                    &&& slot.model.len() > 0 ==> target.model == slot.model
                    &&& slot.model.len() == 0 ==> target.model == "m"@
                    &&& target.api_backend == slot.api_backend
                    &&& target.client_profile == made.client_profile@
                    &&& target.client_version is None
                    &&& target.client_session_id is None
                    &&& target.compat_key == slot.compat_key
                    &&& target.fingerprint == slot.fingerprint
                    &&& target.extra_headers.len() == 0
                    &&& target.extra_body.len() == 0
                    &&& target.enable_web_search == slot.enable_web_search
                    &&& target.web_search_options == slot.web_search_options
                    &&& target.enable_x_search == slot.enable_x_search
                    &&& target.x_search_options == slot.x_search_options
                    &&& target.reasoning_effort == slot.reasoning_effort
                }
        }),
{
}

/// What the views of these values show is what the values hold, field by field.
pub proof fn law_views_leave_nothing_out(
    header: Header,
    body_field: BodyField,
    provider_target: ProviderTarget,
    pool_member: PoolMember,
    provider_pool: ProviderPool,
    named_pool: NamedPool,
    llm_routing_config: LlmRoutingConfig,
    http_slot_factory: HttpSlotFactory,
    engine_config: EngineConfig,
    transport_options: TransportOptions,
    provider_slot: ProviderSlot,
    bound_slots: BoundSlots,
)
    ensures
        ({
            let held = header.deep_view();
            &&& held.name == header.name@
            &&& held.value == header.value@
        }),
        ({
            let held = body_field.deep_view();
            &&& held.key == body_field.key@
            &&& held.value == body_field.value.deep_view()
        }),
        ({
            let held = provider_target.deep_view();
            &&& held.provider_id == provider_target.provider_id@
            &&& held.base_url == provider_target.base_url@
            &&& held.api_key == provider_target.api_key@
            &&& held.model == provider_target.model@
            &&& held.api_backend == provider_target.api_backend
            &&& held.client_profile == provider_target.client_profile@
            &&& held.client_version == provider_target.client_version.deep_view()
            &&& held.client_session_id == provider_target.client_session_id.deep_view()
            &&& held.compat_key == provider_target.compat_key@
            &&& held.fingerprint == provider_target.fingerprint@
            &&& held.extra_headers == provider_target.extra_headers.deep_view()
            &&& held.extra_body == provider_target.extra_body.deep_view()
            &&& held.enable_web_search == provider_target.enable_web_search
            &&& held.web_search_options == provider_target.web_search_options.deep_view()
            &&& held.enable_x_search == provider_target.enable_x_search
            &&& held.x_search_options == provider_target.x_search_options.deep_view()
            &&& held.reasoning_effort == provider_target.reasoning_effort.deep_view()
        }),
        ({
            let held = pool_member.deep_view();
            &&& held.provider_id == pool_member.provider_id@
            &&& held.routing_group == pool_member.routing_group@
            &&& held.base_score == pool_member.base_score
            &&& held.order == pool_member.order
            &&& held.enabled == pool_member.enabled
        }),
        ({
            let held = provider_pool.deep_view();
            &&& held.members == provider_pool.members.deep_view()
            &&& held.retry == provider_pool.retry
            &&& held.probe_when_exhausted == provider_pool.probe_when_exhausted
        }),
        ({
            let held = named_pool.deep_view();
            &&& held.id == named_pool.id@
            &&& held.pool == named_pool.pool.deep_view()
        }),
        ({
            let held = llm_routing_config.deep_view();
            &&& held.providers == llm_routing_config.providers.deep_view()
            &&& held.pools == llm_routing_config.pools.deep_view()
            &&& held.cooldown_base_secs == llm_routing_config.cooldown_base_secs
        }),
        ({
            let held = http_slot_factory.deep_view();
            &&& held.stream_idle_timeout_secs == http_slot_factory.stream_idle_timeout_secs
            &&& held.http_dump == http_slot_factory.http_dump.deep_view()
            &&& held.dumps_dir == http_slot_factory.dumps_dir@
            &&& held.enable_doom_loop_check == http_slot_factory.enable_doom_loop_check.deep_view()
        }),
        ({
            let held = engine_config.deep_view();
            &&& held.stream_idle_timeout_secs == engine_config.stream_idle_timeout_secs
            &&& held.http_dump == engine_config.http_dump.deep_view()
            &&& held.http_dumps_dir == engine_config.http_dumps_dir@
            &&& held.enable_doom_loop_check == engine_config.enable_doom_loop_check.deep_view()
        }),
        ({
            let held = transport_options.deep_view();
            &&& held.base_url == transport_options.base_url@
            &&& held.api_key == transport_options.api_key@
            &&& held.stream_idle_timeout_secs == transport_options.stream_idle_timeout_secs
            &&& held.api_backend == transport_options.api_backend
            &&& held.client_profile == transport_options.client_profile@
            &&& held.client_version == transport_options.client_version.deep_view()
            &&& held.client_session_id == transport_options.client_session_id.deep_view()
            &&& held.extra_headers == transport_options.extra_headers.deep_view()
            &&& held.extra_body == transport_options.extra_body.deep_view()
            &&& held.doom_loop == transport_options.doom_loop
            &&& held.http_dump == transport_options.http_dump.deep_view()
            &&& held.dumps_dir == transport_options.dumps_dir@
        }),
        ({
            let held = provider_slot.deep_view();
            &&& held.provider_id == provider_slot.provider_id@
            &&& held.fingerprint == provider_slot.fingerprint@
            &&& held.compat_key == provider_slot.compat_key@
            &&& held.model == provider_slot.model@
            &&& held.api_backend == provider_slot.api_backend
            &&& held.reasoning_effort == provider_slot.reasoning_effort.deep_view()
            &&& held.enable_web_search == provider_slot.enable_web_search
            &&& held.web_search_options == provider_slot.web_search_options.deep_view()
            &&& held.enable_x_search == provider_slot.enable_x_search
            &&& held.x_search_options == provider_slot.x_search_options.deep_view()
        }),
        ({
            let held = bound_slots.deep_view();
            &&& held.generation == bound_slots.generation
            &&& held.providers == bound_slots.providers.deep_view()
            &&& held.max_retries == bound_slots.max_retries
            &&& held.failover_max_attempts == bound_slots.failover_max_attempts
            &&& held.primary_compat_key == bound_slots.primary_compat_key@
        }),
{
}

} // verus!
