//! What is told of the models and the providers, and how an administrator
//! steps in.

use vstd::prelude::*;

use crate::config::{
    distinct, lemma_find_model, target_views, ModelView, TargetView, VirtualModel,
    VirtualModelTarget,
};
use crate::reply::{TextReply, TextView};
use crate::router::{is_open_to, AdaptivePriorityStrategy, Report, SECOND};
use crate::state::{
    find_provider, lemma_find_provider, lemma_same_pool_found, pool, position, same_pool,
    set_health, with_health, AppState, CircuitState, Health, ProviderState, ProviderView,
    StateView,
};
use crate::text::{decimal, join, joined, push_decimal};

verus! {

/// A model that clients can ask for.
#[derive(Debug)]
pub struct ModelObject {
    pub id: String,
    pub object: String,
    pub created: u64,
    pub owned_by: String,
}

/// What a `ModelObject` says.
pub struct ModelObjectView {
    pub id: Seq<char>,
    pub object: Seq<char>,
    pub created: u64,
    pub owned_by: Seq<char>,
}

impl View for ModelObject {
    type V = ModelObjectView;

    open spec fn view(&self) -> ModelObjectView {
        ModelObjectView {
            id: self.id@,
            object: self.object@,
            created: self.created,
            owned_by: self.owned_by@,
        }
    }
}

/// The models that clients can ask for.
#[derive(Debug)]
pub struct ModelsResponse {
    pub object: String,
    pub data: Vec<ModelObject>,
}

/// Whether a target is active and can be expected to answer at `now`: it was not
/// taken offline, its circuit is not in its cooldown, and it did not ask to be
/// left alone.
pub open spec fn is_healthy(providers: Seq<ProviderView>, target: TargetView, now: u64) -> bool {
    match find_provider(providers, target.provider, 0) {
        Some(p) => !providers[p].health.manual_disabled && !providers[p].health.tripped(now)
            && !providers[p].health.limited(now),
        None => false,
    }
}

/// Whether one of the targets can be expected to answer at `now`.
pub open spec fn any_healthy(
    providers: Seq<ProviderView>,
    targets: Seq<TargetView>,
    now: u64,
) -> bool {
    exists|j: int| 0 <= j < targets.len() && is_healthy(providers, #[trigger] targets[j], now)
}

/// How a virtual model is listed.
pub open spec fn listed_as(name: Seq<char>) -> ModelObjectView {
    ModelObjectView {
        id: name,
        object: "model"@,
        created: 1717070400,
        owned_by: "oxllm-virtual"@,
    }
}

/// The virtual models that are listed at `now`.
pub open spec fn listing(state: StateView, now: u64) -> Seq<ModelObjectView> {
    state.virtual_models.filter(|m: ModelView| any_healthy(state.providers, m.targets, now)).map_values(
        |m: ModelView| listed_as(m.name),
    )
}

fn has_healthy_target(
    providers: &Vec<ProviderState>,
    targets: &Vec<VirtualModelTarget>,
    now: u64,
) -> (yes: bool)
    ensures
        yes == any_healthy(pool(providers@), target_views(targets@), now),
{
    let mut i: usize = 0;
    while i < targets.len()
        invariant
            i <= targets@.len(),
            forall|j: int|
                0 <= j < i ==> !is_healthy(
                    pool(providers@),
                    #[trigger] target_views(targets@)[j],
                    now,
                ),
        decreases targets@.len() - i,
    {
        assert(target_views(targets@)[i as int] == targets@[i as int]@);
        match position(providers, targets[i].provider.as_str()) {
            Some(p) => {
                assert(pool(providers@)[p as int] == providers@[p as int]@);
                let health = providers[p].health;
                if !health.manual_disabled && !health.is_tripped(now) && !health.is_limited(now) {
                    return true;
                }
            },
            None => {},
        }
        i += 1;
    }
    false
}

/// Lists the virtual models that can be expected to be served, `GET /v1/models`.
pub fn list_models(state: &AppState, now: u64) -> (r: ModelsResponse)
    ensures
        r.object@ == "list"@,
        r.data@.map_values(|m: ModelObject| m@) == listing(state@, now),
{
    let mut data: Vec<ModelObject> = Vec::new();
    let ghost all = state@.virtual_models;
    let ghost keep = |m: ModelView| any_healthy(state@.providers, m.targets, now);
    let ghost shown = |m: ModelView| listed_as(m.name);
    let ghost seen = |m: ModelObject| m@;
    let total: usize = state.virtual_models.len();
    let mut i: usize = 0;
    proof {
        reveal(Seq::filter);
        assert(all.take(0).filter(keep).map_values(shown) =~= data@.map_values(seen));
    }
    while i < total
        invariant
            i <= total,
            total == all.len(),
            all == state@.virtual_models,
            keep == (|m: ModelView| any_healthy(state@.providers, m.targets, now)),
            shown == (|m: ModelView| listed_as(m.name)),
            seen == (|m: ModelObject| m@),
            data@.map_values(seen) == all.take(i as int).filter(keep).map_values(shown),
        decreases total - i,
    {
        let m = state.virtual_models.at(i);
        let ghost before = data@.map_values(seen);
        proof {
            reveal(Seq::filter);
            assert(all.take(i + 1).drop_last() =~= all.take(i as int));
            assert(all.take(i + 1).last() == m@);
        }
        if has_healthy_target(&state.providers, &m.targets, now) {
            assert(keep(m@));
            data.push(
                ModelObject {
                    id: m.name.clone(),
                    object: "model".to_owned(),
                    created: 1717070400,
                    owned_by: "oxllm-virtual".to_owned(),
                },
            );
            assert(data@.map_values(seen) =~= before.push(listed_as(m.name@)));
            assert(all.take(i as int).filter(keep).push(m@).map_values(shown) =~= before.push(
                listed_as(m.name@),
            ));
        } else {
            assert(!keep(m@));
        }
        i += 1;
    }
    assert(all.take(i as int) =~= all);
    ModelsResponse { object: "list".to_owned(), data }
}

/// How many whole seconds there are from `now` until a clock reading.
pub open spec fn seconds_until(until: u128, now: u64) -> nat {
    if until > now {
        ((until - now) / SECOND as int) as nat
    } else {
        0
    }
}

/// How many whole seconds have passed since a clock reading.
pub open spec fn seconds_since(then: u64, now: u64) -> nat {
    if now > then {
        ((now - then) / SECOND as int) as nat
    } else {
        0
    }
}

fn until_seconds(until: u128, now: u64) -> (s: u128)
    ensures
        s == seconds_until(until, now),
{
    if until > now as u128 {
        (until - now as u128) / SECOND as u128
    } else {
        0
    }
}

/// Computes how many whole seconds have passed since a clock reading.
pub fn since_seconds(then: u64, now: u64) -> (s: u64)
    ensures
        s == seconds_since(then, now),
{
    if now > then {
        (now - then) / SECOND
    } else {
        0
    }
}

/// How the circuit of a provider is described.
pub open spec fn circuit_text(circuit: CircuitState, now: u64) -> Seq<char> {
    match circuit {
        CircuitState::Closed => "Closed (Healthy)"@,
        CircuitState::HalfOpen => "Half-Open (Probing)"@,
        CircuitState::Open { until } => "Open (Cooldown: "@ + decimal(seconds_until(until, now))
            + "s left)"@,
    }
}

/// How the circuit of a target is described.
pub open spec fn route_circuit_text(circuit: CircuitState, now: u64) -> Seq<char> {
    match circuit {
        CircuitState::Closed => "Closed (Healthy)"@,
        CircuitState::HalfOpen => "Half-Open (Probing)"@,
        CircuitState::Open { until } => "Open ("@ + decimal(seconds_until(until, now))
            + "s cooldown)"@,
    }
}

/// How it is described when a provider was last chosen.
pub open spec fn last_request_text(last: Option<u64>, now: u64) -> Seq<char> {
    match last {
        None => "Never"@,
        Some(then) => {
            let elapsed = seconds_since(then, now);
            if elapsed < 60 {
                "Just now"@
            } else if elapsed < 3600 {
                decimal(elapsed / 60) + "m ago"@
            } else if elapsed < 86400 {
                decimal(elapsed / 3600) + "h ago"@
            } else {
                decimal(elapsed / 86400) + "d ago"@
            }
        },
    }
}

fn with_number(before: &str, n: u128, after: &str) -> (s: String)
    ensures
        s@ == before@ + decimal(n as nat) + after@,
{
    let mut s = before.to_owned();
    push_decimal(&mut s, n);
    s.append(after);
    s
}

/// Describes the circuit of a provider.
pub fn describe_circuit(circuit: CircuitState, now: u64) -> (s: String)
    ensures
        s@ == circuit_text(circuit, now),
{
    match circuit {
        CircuitState::Closed => "Closed (Healthy)".to_owned(),
        CircuitState::HalfOpen => "Half-Open (Probing)".to_owned(),
        CircuitState::Open { until } => with_number(
            "Open (Cooldown: ",
            until_seconds(until, now),
            "s left)",
        ),
    }
}

/// Describes the circuit of a target.
pub fn describe_route_circuit(circuit: CircuitState, now: u64) -> (s: String)
    ensures
        s@ == route_circuit_text(circuit, now),
{
    match circuit {
        CircuitState::Closed => "Closed (Healthy)".to_owned(),
        CircuitState::HalfOpen => "Half-Open (Probing)".to_owned(),
        CircuitState::Open { until } => with_number(
            "Open (",
            until_seconds(until, now),
            "s cooldown)",
        ),
    }
}

/// Describes when a provider was last chosen.
pub fn describe_last_request(last: Option<u64>, now: u64) -> (s: String)
    ensures
        s@ == last_request_text(last, now),
{
    match last {
        None => "Never".to_owned(),
        Some(then) => {
            let elapsed: u64 = since_seconds(then, now);
            let mut s = String::new();
            if elapsed < 60 {
                s.append("Just now");
            } else if elapsed < 3600 {
                push_decimal(&mut s, (elapsed / 60) as u128);
                s.append("m ago");
            } else if elapsed < 86400 {
                push_decimal(&mut s, (elapsed / 3600) as u128);
                s.append("h ago");
            } else {
                push_decimal(&mut s, (elapsed / 86400) as u128);
                s.append("d ago");
            }
            s
        },
    }
}

/// What is told of a target of a virtual model.
#[derive(Debug)]
pub struct RouteEntry {
    pub provider: String,
    pub model: String,
    pub circuit: String,
    pub requests: u64,
    pub successes: u64,
}

/// What a `RouteEntry` says.
pub struct RouteView {
    pub provider: Seq<char>,
    pub model: Seq<char>,
    pub circuit: Seq<char>,
    pub requests: u64,
    pub successes: u64,
}

impl View for RouteEntry {
    type V = RouteView;

    open spec fn view(&self) -> RouteView {
        RouteView {
            provider: self.provider@,
            model: self.model@,
            circuit: self.circuit@,
            requests: self.requests,
            successes: self.successes,
        }
    }
}

/// What is told of a virtual model.
#[derive(Debug)]
pub struct ModelRoutes {
    pub name: String,
    pub routes: Vec<RouteEntry>,
}

/// What a `ModelRoutes` says.
pub struct ModelRoutesView {
    pub name: Seq<char>,
    pub routes: Seq<RouteView>,
}

impl View for ModelRoutes {
    type V = ModelRoutesView;

    open spec fn view(&self) -> ModelRoutesView {
        ModelRoutesView { name: self.name@, routes: self.routes@.map_values(|r: RouteEntry| r@) }
    }
}

/// What is told of a provider.
#[derive(Debug)]
pub struct ProviderStatus {
    pub name: String,
    pub models: String,
    pub circuit: String,
    pub failures: u32,
    pub rate_limited: bool,
    pub requests: u64,
    pub successes: u64,
    pub tokens_input: u64,
    pub tokens_output: u64,
    pub last_request: String,
}

/// What a `ProviderStatus` says.
pub struct ProviderStatusView {
    pub name: Seq<char>,
    pub models: Seq<char>,
    pub circuit: Seq<char>,
    pub failures: u32,
    pub rate_limited: bool,
    pub requests: u64,
    pub successes: u64,
    pub tokens_input: u64,
    pub tokens_output: u64,
    pub last_request: Seq<char>,
}

impl View for ProviderStatus {
    type V = ProviderStatusView;

    open spec fn view(&self) -> ProviderStatusView {
        ProviderStatusView {
            name: self.name@,
            models: self.models@,
            circuit: self.circuit@,
            failures: self.failures,
            rate_limited: self.rate_limited,
            requests: self.requests,
            successes: self.successes,
            tokens_input: self.tokens_input,
            tokens_output: self.tokens_output,
            last_request: self.last_request@,
        }
    }
}

/// What is told of the gateway.
#[derive(Debug)]
pub struct StatusResponse {
    pub uptime_secs: u64,
    pub total_requests: u64,
    pub providers: Vec<ProviderStatus>,
    pub virtual_models: Vec<ModelRoutes>,
}

/// What is told of a target at `now`.
pub open spec fn route_of(providers: Seq<ProviderView>, target: TargetView, now: u64) -> RouteView {
    match find_provider(providers, target.provider, 0) {
        Some(p) => RouteView {
            provider: target.provider,
            model: target.model,
            circuit: route_circuit_text(providers[p].health.circuit, now),
            requests: providers[p].usage.requests,
            successes: providers[p].usage.successes,
        },
        None => RouteView {
            provider: target.provider,
            model: target.model,
            circuit: "Unknown"@,
            requests: 0,
            successes: 0,
        },
    }
}

/// What is told of a virtual model at `now`.
pub open spec fn routes_of(providers: Seq<ProviderView>, model: ModelView, now: u64) -> ModelRoutesView {
    ModelRoutesView {
        name: model.name,
        routes: model.targets.map_values(|t: TargetView| route_of(providers, t, now)),
    }
}

/// What is told of a provider at `now`.
pub open spec fn status_of(p: ProviderView, now: u64) -> ProviderStatusView {
    ProviderStatusView {
        name: p.name,
        models: joined(p.models, ", "@),
        circuit: circuit_text(p.health.circuit, now),
        failures: p.health.consecutive_failures,
        rate_limited: p.health.limited(now),
        requests: p.usage.requests,
        successes: p.usage.successes,
        tokens_input: p.usage.tokens_input,
        tokens_output: p.usage.tokens_output,
        last_request: last_request_text(p.health.last_attempt_time, now),
    }
}

/// How many requests the providers were sent, all together. The count wraps
/// around.
pub open spec fn total_of(providers: Seq<ProviderView>) -> u64
    decreases providers.len(),
{
    if providers.len() == 0 {
        0
    } else {
        total_of(providers.drop_last()).wrapping_add(providers.last().usage.requests)
    }
}

/// Tells of a provider.
pub fn provider_status(p: &ProviderState, now: u64) -> (s: ProviderStatus)
    ensures
        s@ == status_of(p@, now),
{
    ProviderStatus {
        name: p.name.clone(),
        models: join(&p.models, ", "),
        circuit: describe_circuit(p.health.circuit, now),
        failures: p.health.consecutive_failures,
        rate_limited: p.health.is_limited(now),
        requests: p.usage.requests,
        successes: p.usage.successes,
        tokens_input: p.usage.tokens_input,
        tokens_output: p.usage.tokens_output,
        last_request: describe_last_request(p.health.last_attempt_time, now),
    }
}

fn route_entry(providers: &Vec<ProviderState>, target: &VirtualModelTarget, now: u64) -> (r:
    RouteEntry)
    ensures
        r@ == route_of(pool(providers@), target@, now),
{
    match position(providers, target.provider.as_str()) {
        Some(p) => {
            assert(pool(providers@)[p as int] == providers@[p as int]@);
            RouteEntry {
                provider: target.provider.clone(),
                model: target.model.clone(),
                circuit: describe_route_circuit(providers[p].health.circuit, now),
                requests: providers[p].usage.requests,
                successes: providers[p].usage.successes,
            }
        },
        None => RouteEntry {
            provider: target.provider.clone(),
            model: target.model.clone(),
            circuit: "Unknown".to_owned(),
            requests: 0,
            successes: 0,
        },
    }
}

fn model_routes(providers: &Vec<ProviderState>, model: &VirtualModel, now: u64) -> (r: ModelRoutes)
    ensures
        r@ == routes_of(pool(providers@), model@, now),
{
    let mut routes: Vec<RouteEntry> = Vec::new();
    let mut i: usize = 0;
    while i < model.targets.len()
        invariant
            i == routes@.len(),
            i <= model.targets@.len(),
            forall|j: int|
                0 <= j < i ==> (#[trigger] routes@[j])@ == route_of(
                    pool(providers@),
                    model.targets@[j]@,
                    now,
                ),
        decreases model.targets@.len() - i,
    {
        routes.push(route_entry(providers, &model.targets[i], now));
        i += 1;
    }
    let r = ModelRoutes { name: model.name.clone(), routes };
    assert(r@.routes =~= routes_of(pool(providers@), model@, now).routes);
    r
}

/// What is told of the providers at `now`.
pub open spec fn pool_status(providers: Seq<ProviderView>, now: u64) -> Seq<ProviderStatusView> {
    providers.map_values(|p: ProviderView| status_of(p, now))
}

/// What is told of the virtual models at `now`.
pub open spec fn model_status(state: StateView, now: u64) -> Seq<ModelRoutesView> {
    state.virtual_models.map_values(|m: ModelView| routes_of(state.providers, m, now))
}

/// Tells how the gateway and its providers are doing, `GET /status`.
pub fn get_status(state: &AppState, start_time: u64, now: u64) -> (r: StatusResponse)
    ensures
        r.uptime_secs == seconds_since(start_time, now),
        r.total_requests == total_of(state@.providers),
        r.providers@.map_values(|s: ProviderStatus| s@) == pool_status(state@.providers, now),
        r.virtual_models@.map_values(|m: ModelRoutes| m@) == model_status(state@, now),
{
    let ghost all = state@.providers;
    let mut providers: Vec<ProviderStatus> = Vec::new();
    let mut total_requests: u64 = 0;
    let mut i: usize = 0;
    while i < state.providers.len()
        invariant
            i == providers@.len(),
            i <= state.providers@.len(),
            all == pool(state.providers@),
            total_requests == total_of(all.take(i as int)),
            forall|j: int| 0 <= j < i ==> (#[trigger] providers@[j])@ == status_of(all[j], now),
        decreases state.providers@.len() - i,
    {
        assert(all[i as int] == state.providers@[i as int]@);
        assert(all.take(i + 1).drop_last() =~= all.take(i as int));
        providers.push(provider_status(&state.providers[i], now));
        total_requests = total_requests.wrapping_add(state.providers[i].usage.requests);
        i += 1;
    }
    assert(all.take(i as int) =~= all);
    let mut virtual_models: Vec<ModelRoutes> = Vec::new();
    let total: usize = state.virtual_models.len();
    let mut k: usize = 0;
    while k < total
        invariant
            k == virtual_models@.len(),
            k <= total,
            total == state@.virtual_models.len(),
            forall|j: int|
                0 <= j < k ==> (#[trigger] virtual_models@[j])@ == routes_of(
                    state@.providers,
                    state@.virtual_models[j],
                    now,
                ),
        decreases total - k,
    {
        virtual_models.push(model_routes(&state.providers, state.virtual_models.at(k), now));
        k += 1;
    }
    let r = StatusResponse {
        uptime_secs: since_seconds(start_time, now),
        total_requests,
        providers,
        virtual_models,
    };
    assert(r.providers@.map_values(|s: ProviderStatus| s@) =~= pool_status(state@.providers, now));
    assert(r.virtual_models@.map_values(|m: ModelRoutes| m@) =~= model_status(state@, now));
    r
}

/// What an administrator does to a provider.
#[derive(Debug, Clone, Copy, PartialEq, Eq, Structural)]
pub enum AdminAction {
    Offline,
    Online,
    Reset,
}

impl AdminAction {
    /// How a provider is doing after it.
    pub open spec fn applied(self, h: Health) -> Health {
        match self {
            AdminAction::Offline => Health { manual_disabled: true, ..h },
            AdminAction::Online => Health { manual_disabled: false, ..h },
            AdminAction::Reset => Health {
                circuit: CircuitState::Closed,
                consecutive_failures: 0,
                rate_limited_until: None,
                manual_disabled: false,
                ..h
            },
        }
    }

    /// What is told of it.
    pub open spec fn told(self) -> Seq<char> {
        match self {
            AdminAction::Offline => "' taken offline"@,
            AdminAction::Online => "' brought online"@,
            AdminAction::Reset => "' reset to healthy"@,
        }
    }

    /// The providers after it was done to the one called `name`.
    pub open spec fn pool_after(self, providers: Seq<ProviderView>, name: Seq<char>) -> Seq<
        ProviderView,
    > {
        match find_provider(providers, name, 0) {
            Some(p) => with_health(providers, p, self.applied(providers[p].health)),
            None => providers,
        }
    }

    /// What the administrator is answered.
    pub open spec fn answer(self, providers: Seq<ProviderView>, name: Seq<char>) -> TextView {
        match find_provider(providers, name, 0) {
            Some(_) => TextView { status: 200, text: "Provider '"@ + name + self.told() },
            None => TextView { status: 404, text: "Provider '"@ + name + "' not found"@ },
        }
    }
}

fn administer(action: AdminAction, state: &mut AppState, name: &str) -> (r: TextReply)
    ensures
        final(state)@ == old(state)@.with_providers(
            action.pool_after(old(state)@.providers, name@),
        ),
        r@ == action.answer(old(state)@.providers, name@),
{
    let mut text = "Provider '".to_owned();
    text.append(name);
    match position(&state.providers, name) {
        Some(p) => {
            assert(pool(state.providers@)[p as int] == state.providers@[p as int]@);
            let mut health = state.providers[p].health;
            match action {
                AdminAction::Offline => {
                    health.manual_disabled = true;
                    text.append("' taken offline");
                },
                AdminAction::Online => {
                    health.manual_disabled = false;
                    text.append("' brought online");
                },
                AdminAction::Reset => {
                    health.circuit = CircuitState::Closed;
                    health.consecutive_failures = 0;
                    health.rate_limited_until = None;
                    health.manual_disabled = false;
                    text.append("' reset to healthy");
                },
            }
            set_health(&mut state.providers, p, health);
            TextReply { status: 200, text }
        },
        None => {
            text.append("' not found");
            TextReply { status: 404, text }
        },
    }
}

/// Takes a provider offline, `POST /admin/providers/{name}/offline`.
pub fn admin_offline(state: &mut AppState, name: &str) -> (r: TextReply)
    ensures
        final(state)@ == old(state)@.with_providers(
            AdminAction::Offline.pool_after(old(state)@.providers, name@),
        ),
        r@ == AdminAction::Offline.answer(old(state)@.providers, name@),
{
    administer(AdminAction::Offline, state, name)
}

/// Brings a provider online, `POST /admin/providers/{name}/online`.
pub fn admin_online(state: &mut AppState, name: &str) -> (r: TextReply)
    ensures
        final(state)@ == old(state)@.with_providers(
            AdminAction::Online.pool_after(old(state)@.providers, name@),
        ),
        r@ == AdminAction::Online.answer(old(state)@.providers, name@),
{
    administer(AdminAction::Online, state, name)
}

/// Makes a provider healthy, `POST /admin/providers/{name}/reset`: its circuit
/// is closed, its failures are forgotten, and it is neither rate limited nor
/// offline.
pub fn admin_reset(state: &mut AppState, name: &str) -> (r: TextReply)
    ensures
        final(state)@ == old(state)@.with_providers(
            AdminAction::Reset.pool_after(old(state)@.providers, name@),
        ),
        r@ == AdminAction::Reset.answer(old(state)@.providers, name@),
{
    administer(AdminAction::Reset, state, name)
}

/// Answers that the gateway is up, `GET /health`.
pub fn health_check() -> (r: TextReply)
    ensures
        r@ == (TextView { status: 200, text: "OK"@ }),
{
    TextReply { status: 200, text: "OK".to_owned() }
}

/// A provider that is taken offline is not chosen; one that is reset may be
/// chosen at any time; bringing a provider online undoes taking it offline.
pub proof fn law_admin_actions(h: Health, now: u64)
    ensures
        AdminAction::Offline.applied(h) == (Health { manual_disabled: true, ..h }),
        AdminAction::Online.applied(h) == (Health { manual_disabled: false, ..h }),
        AdminAction::Reset.applied(h).circuit is Closed,
        AdminAction::Reset.applied(h).consecutive_failures == 0,
        AdminAction::Reset.applied(h).rate_limited_until is None,
        !AdminAction::Reset.applied(h).manual_disabled,
        AdminAction::Reset.applied(h).last_attempt_time == h.last_attempt_time,
        AdminAction::Reset.applied(h).probe_in_flight == h.probe_in_flight,
        !AdminAction::Offline.applied(h).available(now),
        AdminAction::Reset.applied(h).available(now),
        !h.manual_disabled ==> AdminAction::Online.applied(AdminAction::Offline.applied(h)) == h,
{
}

/// What is done to one provider changes its health and nothing else, and no
/// other provider; what is done to an unknown one changes nothing.
pub proof fn law_admin_touches_one(action: AdminAction, providers: Seq<ProviderView>, name: Seq<char>)
    ensures
        same_pool(action.pool_after(providers, name), providers),
        forall|i: int|
            0 <= i < providers.len() && (#[trigger] providers[i]).name != name
                ==> action.pool_after(providers, name)[i] == providers[i],
        find_provider(providers, name, 0) is None ==> action.pool_after(providers, name)
            == providers,
{
    lemma_find_provider(providers, name, 0);
}

/// Whether a target may be chosen at `now`, or would be if it were not being
/// probed.
pub open spec fn is_open_but_for_probe(
    providers: Seq<ProviderView>,
    target: TargetView,
    now: u64,
) -> bool {
    match find_provider(providers, target.provider, 0) {
        Some(p) => {
            ||| providers[p].health.available(now)
            ||| providers[p].health.probe_in_flight && (Health {
                probe_in_flight: false,
                ..providers[p].health
            }).available(now)
        },
        None => false,
    }
}

/// A virtual model that is listed can be asked for: something serves it that may
/// be chosen, or that only a running probe withholds.
pub proof fn law_listed_is_served(state: StateView, i: int, now: u64)
    requires
        distinct(state.virtual_models),
        0 <= i < state.virtual_models.len(),
        any_healthy(state.providers, state.virtual_models[i].targets, now),
    ensures
        ({
            let candidates = state.candidates(state.virtual_models[i].name);
            exists|k: int|
                0 <= k < candidates.len() && is_open_but_for_probe(
                    state.providers,
                    #[trigger] candidates[k],
                    now,
                )
        }),
{
    let targets = state.virtual_models[i].targets;
    let j = choose|j: int|
        0 <= j < targets.len() && is_healthy(state.providers, #[trigger] targets[j], now);
    lemma_find_model(state.virtual_models, state.virtual_models[i].name, 0);
    let known = |t: TargetView| find_provider(state.providers, t.provider, 0) is Some;
    let k = lemma_kept(targets, known, j);
    assert(state.candidates(state.virtual_models[i].name)[k] == targets[j]);
}

proof fn lemma_kept(targets: Seq<TargetView>, keep: spec_fn(TargetView) -> bool, j: int) -> (k: int)
    requires
        0 <= j < targets.len(),
        keep(targets[j]),
    ensures
        0 <= k < targets.filter(keep).len(),
        targets.filter(keep)[k] == targets[j],
    decreases targets.len(),
{
    reveal(Seq::filter);
    if j < targets.len() - 1 {
        lemma_kept(targets.drop_last(), keep, j)
    } else {
        targets.filter(keep).len() - 1
    }
}

/// A virtual model all of whose targets are at a provider that is taken offline
/// is not listed.
pub proof fn law_offline_is_not_listed(
    providers: Seq<ProviderView>,
    targets: Seq<TargetView>,
    name: Seq<char>,
    now: u64,
)
    requires
        forall|j: int| 0 <= j < targets.len() ==> (#[trigger] targets[j]).provider == name,
    ensures
        !any_healthy(AdminAction::Offline.pool_after(providers, name), targets, now),
{
    let after = AdminAction::Offline.pool_after(providers, name);
    lemma_find_provider(providers, name, 0);
    lemma_same_pool_found(after, providers, name, 0);
}

/// A circuit is half open only while its provider is probed: no choice, report
/// or administrator changes that.
pub proof fn law_half_open_is_probed(
    strategy: AdaptivePriorityStrategy,
    h: Health,
    report: Report,
    action: AdminAction,
    now: u64,
)
    requires
        h.circuit is HalfOpen ==> h.probe_in_flight,
    ensures
        h.chosen(now).circuit is HalfOpen ==> h.chosen(now).probe_in_flight,
        strategy.learned(h, report, now).circuit is HalfOpen ==> strategy.learned(
            h,
            report,
            now,
        ).probe_in_flight,
        action.applied(h).circuit is HalfOpen ==> action.applied(h).probe_in_flight,
{
}

/// An administrator's decision reaches the first provider of that name.
pub proof fn law_admin_reaches_the_named(
    action: AdminAction,
    providers: Seq<ProviderView>,
    name: Seq<char>,
    p: int,
)
    requires
        0 <= p < providers.len(),
        providers[p].name == name,
        forall|q: int| 0 <= q < p ==> (#[trigger] providers[q]).name != name,
    ensures
        action.pool_after(providers, name)[p].health == action.applied(providers[p].health),
        action.pool_after(providers, name)[p].usage == providers[p].usage,
        action.answer(providers, name).status == 200,
        AdminAction::Offline.answer(providers, name).text == "Provider '"@ + name
            + "' taken offline"@,
        AdminAction::Online.answer(providers, name).text == "Provider '"@ + name
            + "' brought online"@,
        AdminAction::Reset.answer(providers, name).text == "Provider '"@ + name
            + "' reset to healthy"@,
{
    lemma_find_provider(providers, name, 0);
    let f = find_provider(providers, name, 0);
    assert(f is Some);
    if f->0 < p {
        assert(providers[f->0].name != name);
    }
    if p < f->0 {
        assert(providers[p].name != name);
    }
}

/// A provider that is not there is not found.
pub proof fn law_admin_misses_the_unknown(
    action: AdminAction,
    providers: Seq<ProviderView>,
    name: Seq<char>,
)
    requires
        forall|q: int| 0 <= q < providers.len() ==> (#[trigger] providers[q]).name != name,
    ensures
        action.pool_after(providers, name) == providers,
        action.answer(providers, name).status == 404,
        action.answer(providers, name).text == "Provider '"@ + name + "' not found"@,
{
    lemma_find_provider(providers, name, 0);
}

/// A target is healthy exactly where the first provider of that name was not taken
/// offline, did not ask to be left alone any longer, and is not in its cooldown;
/// what else is known of the provider does not matter.
pub proof fn law_healthy_by_provider(
    providers: Seq<ProviderView>,
    target: TargetView,
    p: int,
    now: u64,
)
    requires
        0 <= p < providers.len(),
        providers[p].name == target.provider,
        forall|q: int| 0 <= q < p ==> (#[trigger] providers[q]).name != target.provider,
    ensures
        is_healthy(providers, target, now) <==> {
            let h = providers[p].health;
            &&& !h.manual_disabled
            &&& h.rate_limited_until is None || h.rate_limited_until->0 <= now
            &&& h.circuit is Open ==> h.circuit->until <= now
        },
{
    lemma_find_provider(providers, target.provider, 0);
    let f = find_provider(providers, target.provider, 0);
    assert(f is Some);
    if f->0 < p {
        assert(providers[f->0].name != target.provider);
    }
    if p < f->0 {
        assert(providers[p].name != target.provider);
    }
}

/// A target at a provider that is not there is not healthy.
pub proof fn law_unknown_is_not_healthy(providers: Seq<ProviderView>, target: TargetView, now: u64)
    requires
        forall|q: int|
            0 <= q < providers.len() ==> (#[trigger] providers[q]).name != target.provider,
    ensures
        !is_healthy(providers, target, now),
{
    lemma_find_provider(providers, target.provider, 0);
}

proof fn lemma_listing_push(state: StateView, model: ModelView, now: u64)
    ensures
        ({
            let longer = StateView { virtual_models: state.virtual_models.push(model), ..state };
            listing(longer, now) == if any_healthy(state.providers, model.targets, now) {
                listing(state, now).push(listed_as(model.name))
            } else {
                listing(state, now)
            }
        }),
{
    let longer = StateView { virtual_models: state.virtual_models.push(model), ..state };
    let keep = |m: ModelView| any_healthy(state.providers, m.targets, now);
    let shown = |m: ModelView| listed_as(m.name);
    let kept = state.virtual_models.filter(keep);
    reveal(Seq::filter);
    assert(longer.virtual_models.drop_last() =~= state.virtual_models);
    if keep(model) {
        assert(kept.push(model).map_values(shown) =~= kept.map_values(shown).push(
            listed_as(model.name),
        ));
    }
}

/// Each virtual model with a healthy target is listed, in order, and none but
/// those: one more model adds itself at the end if it has such a target, and
/// nothing otherwise.
pub proof fn law_listed_one_by_one(state: StateView, model: ModelView, now: u64)
    ensures
        ({
            let longer = StateView { virtual_models: state.virtual_models.push(model), ..state };
            &&& (exists|j: int|
                0 <= j < model.targets.len() && is_healthy(
                    state.providers,
                    #[trigger] model.targets[j],
                    now,
                )) ==> {
                &&& listing(longer, now).len() == listing(state, now).len() + 1
                &&& listing(longer, now).drop_last() == listing(state, now)
                &&& listing(longer, now).last().id == model.name
                &&& listing(longer, now).last().object == "model"@
                &&& listing(longer, now).last().created == 1717070400
                &&& listing(longer, now).last().owned_by == "oxllm-virtual"@
            }
            &&& (forall|j: int|
                0 <= j < model.targets.len() ==> !is_healthy(
                    state.providers,
                    #[trigger] model.targets[j],
                    now,
                )) ==> listing(longer, now) == listing(state, now)
        }),
        state.virtual_models.len() == 0 ==> listing(state, now).len() == 0,
{
    lemma_listing_push(state, model, now);
    let longer = StateView { virtual_models: state.virtual_models.push(model), ..state };
    if any_healthy(state.providers, model.targets, now) {
        assert(listing(longer, now).drop_last() =~= listing(state, now));
    }
    if state.virtual_models.len() == 0 {
        reveal(Seq::filter);
    }
}

proof fn lemma_listing_holds(state: StateView, i: int, now: u64) -> (k: int)
    requires
        0 <= i < state.virtual_models.len(),
        any_healthy(state.providers, state.virtual_models[i].targets, now),
    ensures
        0 <= k < listing(state, now).len(),
        listing(state, now)[k] == listed_as(state.virtual_models[i].name),
    decreases state.virtual_models.len(),
{
    let models = state.virtual_models;
    let shorter = StateView { virtual_models: models.drop_last(), ..state };
    lemma_listing_push(shorter, models.last(), now);
    assert(models.drop_last().push(models.last()) =~= models);
    if i < models.len() - 1 {
        let k = lemma_listing_holds(shorter, i, now);
        k
    } else {
        listing(shorter, now).len() as int
    }
}

/// A virtual model of which some target may be chosen is listed.
pub proof fn law_open_is_listed(state: StateView, i: int, j: int, now: u64) -> (k: int)
    requires
        0 <= i < state.virtual_models.len(),
        0 <= j < state.virtual_models[i].targets.len(),
        is_open_to(state.providers, state.virtual_models[i].targets[j], now),
    ensures
        0 <= k < listing(state, now).len(),
        listing(state, now)[k].id == state.virtual_models[i].name,
{
    assert(is_healthy(state.providers, state.virtual_models[i].targets[j], now));
    lemma_listing_holds(state, i, now)
}

/// Seconds are counted whole.
pub proof fn law_whole_seconds(until: u128, then: u64, now: u64)
    ensures
        until >= now ==> seconds_until(until, now) * 1_000_000_000 <= until - now < (seconds_until(
            until,
            now,
        ) + 1) * 1_000_000_000,
        until < now ==> seconds_until(until, now) == 0,
        now >= then ==> seconds_since(then, now) * 1_000_000_000 <= now - then < (seconds_since(
            then,
            now,
        ) + 1) * 1_000_000_000,
        now < then ==> seconds_since(then, now) == 0,
{
}

/// A circuit is described by its state; an open one by the whole seconds that its
/// cooldown still takes.
pub proof fn law_circuit_is_described(until: u128, left: nat, now: u64)
    requires
        left * 1_000_000_000 <= until - now < (left + 1) * 1_000_000_000 || (until < now && left
            == 0),
    ensures
        circuit_text(CircuitState::Closed, now) == "Closed (Healthy)"@,
        circuit_text(CircuitState::HalfOpen, now) == "Half-Open (Probing)"@,
        circuit_text(CircuitState::Open { until }, now) == "Open (Cooldown: "@ + decimal(left)
            + "s left)"@,
        route_circuit_text(CircuitState::Closed, now) == "Closed (Healthy)"@,
        route_circuit_text(CircuitState::HalfOpen, now) == "Half-Open (Probing)"@,
        route_circuit_text(CircuitState::Open { until }, now) == "Open ("@ + decimal(left)
            + "s cooldown)"@,
{
    law_whole_seconds(until, 0, now);
}

/// When a provider was last chosen is told in minutes up to an hour, in hours up
/// to a day, and in days from there; less than a minute is now.
pub proof fn law_last_request_is_told(then: u64, now: u64, n: nat)
    ensures
        last_request_text(None, now) == "Never"@,
        now < then + 60_000_000_000 ==> last_request_text(Some(then), now) == "Just now"@,
        0 < n < 60 && n * 60_000_000_000 <= now - then < (n + 1) * 60_000_000_000
            ==> last_request_text(Some(then), now) == decimal(n) + "m ago"@,
        0 < n < 24 && n * 3_600_000_000_000 <= now - then < (n + 1) * 3_600_000_000_000
            ==> last_request_text(Some(then), now) == decimal(n) + "h ago"@,
        0 < n && n * 86_400_000_000_000 <= now - then < (n + 1) * 86_400_000_000_000
            ==> last_request_text(Some(then), now) == decimal(n) + "d ago"@,
{
    law_whole_seconds(0, then, now);
    let e = seconds_since(then, now);
    if 0 < n < 60 && n * 60_000_000_000 <= now - then < (n + 1) * 60_000_000_000 {
        assert(e / 60 == n);
    }
    if 0 < n < 24 && n * 3_600_000_000_000 <= now - then < (n + 1) * 3_600_000_000_000 {
        assert(e / 3600 == n);
    }
    if 0 < n && n * 86_400_000_000_000 <= now - then < (n + 1) * 86_400_000_000_000 {
        assert(e / 86400 == n);
    }
}

/// The requests of all providers are added up, modulo the size of the counter.
pub proof fn law_total_adds_up(providers: Seq<ProviderView>, p: ProviderView)
    ensures
        total_of(Seq::empty()) == 0,
        total_of(providers.push(p)) as int == (total_of(providers) + p.usage.requests)
            % 0x1_0000_0000_0000_0000,
{
    assert(providers.push(p).drop_last() =~= providers);
}

/// What is told of a provider is what it is called, its models, its health and
/// what was counted for it.
pub proof fn law_status_tells_of_the_provider(p: ProviderView, now: u64)
    ensures
        ({
            let s = status_of(p, now);
            &&& s.name == p.name
            &&& s.models == joined(p.models, ", "@)
            &&& s.circuit == circuit_text(p.health.circuit, now)
            &&& s.failures == p.health.consecutive_failures
            &&& s.rate_limited <==> p.health.rate_limited_until is Some && now
                < p.health.rate_limited_until->0
            &&& s.requests == p.usage.requests
            &&& s.successes == p.usage.successes
            &&& s.tokens_input == p.usage.tokens_input
            &&& s.tokens_output == p.usage.tokens_output
            &&& s.last_request == last_request_text(p.health.last_attempt_time, now)
        }),
{
}

/// What is told of a target is its name, and what is known of the first provider
/// of that name; of a provider that is not there nothing is known.
pub proof fn law_route_tells_of_the_target(
    providers: Seq<ProviderView>,
    target: TargetView,
    p: int,
    now: u64,
)
    ensures
        ({
            let r = route_of(providers, target, now);
            &&& r.provider == target.provider
            &&& r.model == target.model
            &&& 0 <= p < providers.len() && providers[p].name == target.provider && (forall|q: int|
                0 <= q < p ==> (#[trigger] providers[q]).name != target.provider) ==> {
                &&& r.circuit == route_circuit_text(providers[p].health.circuit, now)
                &&& r.requests == providers[p].usage.requests
                &&& r.successes == providers[p].usage.successes
            }
            &&& (forall|q: int|
                0 <= q < providers.len() ==> (#[trigger] providers[q]).name != target.provider) ==> {
                &&& r.circuit == "Unknown"@
                &&& r.requests == 0
                &&& r.successes == 0
            }
        }),
{
    lemma_find_provider(providers, target.provider, 0);
    if 0 <= p < providers.len() && providers[p].name == target.provider && (forall|q: int|
        0 <= q < p ==> (#[trigger] providers[q]).name != target.provider) {
        let f = find_provider(providers, target.provider, 0);
        assert(f is Some);
        if f->0 < p {
            assert(providers[f->0].name != target.provider);
        }
        if p < f->0 {
            assert(providers[p].name != target.provider);
        }
    }
}

/// Every target of a virtual model is told of, in order.
pub proof fn law_every_target_is_told_of(providers: Seq<ProviderView>, model: ModelView, now: u64)
    ensures
        routes_of(providers, model, now).name == model.name,
        routes_of(providers, model, now).routes.len() == model.targets.len(),
        forall|j: int|
            0 <= j < model.targets.len() ==> (#[trigger] routes_of(providers, model, now).routes[j])
                == route_of(providers, model.targets[j], now),
{
}

/// Every provider and every virtual model is told of, in order, whatever state they
/// are in.
pub proof fn law_everything_is_told_of(state: StateView, now: u64)
    ensures
        pool_status(state.providers, now).len() == state.providers.len(),
        forall|i: int|
            0 <= i < state.providers.len() ==> (#[trigger] pool_status(state.providers, now)[i])
                == status_of(state.providers[i], now),
        model_status(state, now).len() == state.virtual_models.len(),
        forall|i: int|
            0 <= i < state.virtual_models.len() ==> (#[trigger] model_status(state, now)[i])
                == routes_of(state.providers, state.virtual_models[i], now),
{
}

} // verus!
