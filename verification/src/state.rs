//! What the gateway knows of its providers while it runs.
//!
//! Clock readings are nanoseconds since the gateway was started.

use vstd::prelude::*;

use reqwest::Url;

use crate::config::{
    distinct, find_model, lemma_find_model, target_views, Config, ModelView, ProviderConfig,
    ProviderConfigView, TargetView, VirtualModelTarget, VirtualModels,
};
use crate::error::{ErrorView, OxllmError};
use crate::text::views;

verus! {

/// `reqwest::Url`, a parsed URL.
#[verifier::external_type_specification]
#[verifier::external_body]
pub struct ExUrl(Url);

/// What `reqwest::Url::parse` makes of a text: a URL, or the message of the
/// error.
pub uninterp spec fn url_parsed(text: Seq<char>) -> Result<Url, Seq<char>>;

/// Calls `reqwest::Url::parse`, and `to_string` on its error. Both depend on
/// the text alone.
#[verifier::external_body]
fn parse_url(text: &str) -> (r: Result<Url, String>)
    ensures
        match r {
            Ok(u) => url_parsed(text@) == Ok::<Url, Seq<char>>(u),
            Err(m) => url_parsed(text@) == Err::<Url, Seq<char>>(m@),
        },
{
    Url::parse(text).map_err(|e| e.to_string())
}

/// Whether a provider is sent requests.
#[derive(Debug, Clone, Copy, PartialEq, Eq, Structural)]
pub enum CircuitState {
    /// Healthy, accepting traffic.
    Closed,
    /// Tripped: the provider is bypassed until this clock reading.
    Open { until: u128 },
    /// The cooldown is over, and a single request probes the provider.
    HalfOpen,
}

/// How a provider is doing.
#[derive(Debug, Clone, Copy, PartialEq, Eq, Structural)]
pub struct Health {
    pub circuit: CircuitState,
    /// Until which clock reading the provider asked to be left alone.
    pub rate_limited_until: Option<u128>,
    pub consecutive_failures: u32,
    /// When the provider was last chosen.
    pub last_attempt_time: Option<u64>,
    /// Whether a request that probes the provider is under way.
    pub probe_in_flight: bool,
    /// Whether an administrator took the provider offline.
    pub manual_disabled: bool,
}

/// What a provider was used for. The counters wrap around.
#[derive(Debug, Clone, Copy, PartialEq, Eq, Structural)]
pub struct Usage {
    pub requests: u64,
    pub successes: u64,
    pub tokens_input: u64,
    pub tokens_output: u64,
}

/// A provider that requests are sent to.
#[derive(Debug)]
pub struct ProviderState {
    pub name: String,
    pub base_url: Url,
    pub api_key: String,
    pub models: Vec<String>,
    pub health: Health,
    pub usage: Usage,
}

/// What a `ProviderState` holds.
pub struct ProviderView {
    pub name: Seq<char>,
    pub base_url: Url,
    pub api_key: Seq<char>,
    pub models: Seq<Seq<char>>,
    pub health: Health,
    pub usage: Usage,
}

impl View for ProviderState {
    type V = ProviderView;

    open spec fn view(&self) -> ProviderView {
        ProviderView {
            name: self.name@,
            base_url: self.base_url,
            api_key: self.api_key@,
            models: views(self.models@),
            health: self.health,
            usage: self.usage,
        }
    }
}

/// What a list of providers holds.
pub open spec fn pool(providers: Seq<ProviderState>) -> Seq<ProviderView> {
    providers.map_values(|p: ProviderState| p@)
}

/// What requests are routed by.
#[derive(Debug)]
pub struct AppState {
    pub providers: Vec<ProviderState>,
    pub virtual_models: VirtualModels,
    pub upstream_timeout_secs: u64,
    pub api_key: String,
}

/// What an `AppState` holds.
pub struct StateView {
    pub providers: Seq<ProviderView>,
    pub virtual_models: Seq<ModelView>,
    pub upstream_timeout_secs: u64,
    pub api_key: Seq<char>,
}

impl View for AppState {
    type V = StateView;

    open spec fn view(&self) -> StateView {
        StateView {
            providers: pool(self.providers@),
            virtual_models: self.virtual_models@,
            upstream_timeout_secs: self.upstream_timeout_secs,
            api_key: self.api_key@,
        }
    }
}

impl StateView {
    /// The same state, with other providers.
    pub open spec fn with_providers(self, providers: Seq<ProviderView>) -> StateView {
        StateView { providers, ..self }
    }
}

/// The position, from `from` on, of the first provider called `name`.
pub open spec fn find_provider(
    providers: Seq<ProviderView>,
    name: Seq<char>,
    from: int,
) -> Option<int>
    decreases providers.len() - from,
{
    if from < 0 || from >= providers.len() {
        None
    } else if providers[from].name == name {
        Some(from)
    } else {
        find_provider(providers, name, from + 1)
    }
}

/// The providers, the one at `i` in the given health.
pub open spec fn with_health(providers: Seq<ProviderView>, i: int, health: Health) -> Seq<
    ProviderView,
> {
    providers.update(i, ProviderView { health, ..providers[i] })
}

/// The providers, the one at `i` with the given counters.
pub open spec fn with_usage(providers: Seq<ProviderView>, i: int, usage: Usage) -> Seq<
    ProviderView,
> {
    providers.update(i, ProviderView { usage, ..providers[i] })
}

/// A provider that is found is at that position and at none before it; one that
/// is not found is not there.
pub proof fn lemma_find_provider(providers: Seq<ProviderView>, name: Seq<char>, from: int)
    requires
        0 <= from,
    ensures
        match find_provider(providers, name, from) {
            Some(i) => from <= i < providers.len() && providers[i].name == name && forall|j: int|
                from <= j < i ==> (#[trigger] providers[j]).name != name,
            None => forall|i: int|
                from <= i < providers.len() ==> (#[trigger] providers[i]).name != name,
        },
    decreases providers.len() - from,
{
    if from < providers.len() && providers[from].name != name {
        lemma_find_provider(providers, name, from + 1);
    }
}

/// Whether two pools have the same providers, in whatever health and use.
pub open spec fn same_pool(a: Seq<ProviderView>, b: Seq<ProviderView>) -> bool {
    &&& a.len() == b.len()
    &&& forall|i: int|
        0 <= i < a.len() ==> (#[trigger] a[i]) == (ProviderView {
            health: a[i].health,
            usage: a[i].usage,
            ..b[i]
        })
}

/// In such pools a provider is found at the same position.
pub proof fn lemma_same_pool_found(
    a: Seq<ProviderView>,
    b: Seq<ProviderView>,
    name: Seq<char>,
    from: int,
)
    requires
        0 <= from,
        same_pool(a, b),
    ensures
        find_provider(a, name, from) == find_provider(b, name, from),
    decreases a.len() - from,
{
    if from < a.len() && a[from].name != name {
        lemma_same_pool_found(a, b, name, from + 1);
    }
}

/// A provider of which nothing is known yet.
pub open spec fn fresh(p: ProviderConfigView, url: Url) -> ProviderView {
    ProviderView {
        name: p.name,
        base_url: url,
        api_key: p.api_key,
        models: p.models,
        health: Health {
            circuit: CircuitState::Closed,
            rate_limited_until: None,
            consecutive_failures: 0,
            last_attempt_time: None,
            probe_in_flight: false,
            manual_disabled: false,
        },
        usage: Usage { requests: 0, successes: 0, tokens_input: 0, tokens_output: 0 },
    }
}

/// What is said of a provider whose URL is none.
pub open spec fn bad_url(p: ProviderConfigView, why: Seq<char>) -> ErrorView {
    ErrorView::ConfigLoad(
        "Invalid base URL '"@ + p.base_url + "' for provider '"@ + p.name + "': "@ + why,
    )
}

/// The provider that `p` configures, once its URL was parsed, or could not be.
pub fn provider_state(p: ProviderConfig, url: Result<Url, String>) -> (r: Result<
    ProviderState,
    OxllmError,
>)
    ensures
        match url {
            Ok(u) => r is Ok && r->Ok_0@ == fresh(p@, u),
            Err(why) => r is Err && r->Err_0@ == bad_url(p@, why@),
        },
{
    match url {
        Ok(base_url) => Ok(
            ProviderState {
                name: p.name,
                base_url,
                api_key: p.api_key,
                models: p.models,
                health: Health {
                    circuit: CircuitState::Closed,
                    rate_limited_until: None,
                    consecutive_failures: 0,
                    last_attempt_time: None,
                    probe_in_flight: false,
                    manual_disabled: false,
                },
                usage: Usage { requests: 0, successes: 0, tokens_input: 0, tokens_output: 0 },
            },
        ),
        Err(why) => {
            let mut m = "Invalid base URL '".to_owned();
            m.append(p.base_url.as_str());
            m.append("' for provider '");
            m.append(p.name.as_str());
            m.append("': ");
            m.append(why.as_str());
            Err(OxllmError::ConfigLoad(m))
        },
    }
}

/// The providers, from `from` on, that are enabled, or what is wrong with the
/// first of them whose URL is none.
pub open spec fn built(configs: Seq<ProviderConfigView>, from: int) -> Result<
    Seq<ProviderView>,
    ErrorView,
>
    decreases configs.len() - from,
{
    if from < 0 || from >= configs.len() {
        Ok(Seq::empty())
    } else if !configs[from].enabled {
        built(configs, from + 1)
    } else {
        match url_parsed(configs[from].base_url) {
            Err(why) => Err(bad_url(configs[from], why)),
            Ok(url) => match built(configs, from + 1) {
                Ok(rest) => Ok(seq![fresh(configs[from], url)] + rest),
                Err(e) => Err(e),
            },
        }
    }
}

/// The state that a configuration starts with, or why it has none.
pub open spec fn initial_state(config: Config) -> Result<StateView, ErrorView> {
    match built(crate::config::provider_views(config.providers@), 0) {
        Ok(providers) => Ok(
            StateView {
                providers,
                virtual_models: config.virtual_models@,
                upstream_timeout_secs: config.server.upstream_timeout_secs,
                api_key: config.server.api_key@,
            },
        ),
        Err(e) => Err(e),
    }
}

/// Builds the state that a configuration starts with: every enabled provider,
/// healthy and unused.
pub fn build_app_state(config: Config) -> (r: Result<AppState, OxllmError>)
    ensures
        match r {
            Ok(state) => initial_state(config) == Ok::<StateView, ErrorView>(state@),
            Err(e) => initial_state(config) == Err::<StateView, ErrorView>(e@),
        },
{
    let ghost all = crate::config::provider_views(config.providers@);
    let mut providers: Vec<ProviderState> = Vec::new();
    assert(pool(providers@) =~= Seq::empty());
    proof {
        if let Ok(rest) = built(all, 0) {
            assert(pool(providers@) + rest =~= rest);
        }
    }
    for p in it: config.providers
        invariant
            all == crate::config::provider_views(it.seq()),
            match built(all, it.index()) {
                Ok(rest) => built(all, 0) == Ok::<Seq<ProviderView>, ErrorView>(
                    pool(providers@) + rest,
                ),
                Err(e) => built(all, 0) == Err::<Seq<ProviderView>, ErrorView>(e),
            },
    {
        assert(all[it.index()] == p@);
        if p.enabled {
            let ghost before = pool(providers@);
            let url = parse_url(p.base_url.as_str());
            match provider_state(p, url) {
                Ok(state) => {
                    providers.push(state);
                    proof {
                        assert(pool(providers@) =~= before.push(state@));
                        if let Ok(rest) = built(all, it.index() + 1) {
                            assert(before + (seq![state@] + rest) =~= before.push(state@) + rest);
                        }
                    }
                },
                Err(e) => {
                    return Err(e);
                },
            }
        }
    }
    proof {
        assert(pool(providers@) + Seq::<ProviderView>::empty() =~= pool(providers@));
    }
    Ok(
        AppState {
            providers,
            virtual_models: config.virtual_models,
            upstream_timeout_secs: config.server.upstream_timeout_secs,
            api_key: config.server.api_key,
        },
    )
}

/// Why a configuration cannot be put to use, if it cannot.
pub open spec fn usable_state(config: Config) -> Result<StateView, ErrorView> {
    match config.complaint() {
        Some(m) => Err(ErrorView::ConfigLoad(m)),
        None => initial_state(config),
    }
}

/// Builds the state that a configuration starts with, provided that it holds
/// together.
pub fn build_reloadable_state(config: Config) -> (r: Result<AppState, OxllmError>)
    ensures
        match r {
            Ok(state) => usable_state(config) == Ok::<StateView, ErrorView>(state@),
            Err(e) => usable_state(config) == Err::<StateView, ErrorView>(e@),
        },
{
    match config.validate() {
        Ok(_) => build_app_state(config),
        Err(e) => Err(e),
    }
}

/// Those of the targets whose provider is in the pool.
pub open spec fn served(providers: Seq<ProviderView>, targets: Seq<TargetView>) -> Seq<TargetView> {
    targets.filter(|t: TargetView| find_provider(providers, t.provider, 0) is Some)
}

impl StateView {
    /// What can serve the virtual model `model`, in order of preference.
    pub open spec fn candidates(self, model: Seq<char>) -> Seq<TargetView> {
        match find_model(self.virtual_models, model, 0) {
            Some(i) => served(self.providers, self.virtual_models[i].targets),
            None => Seq::empty(),
        }
    }
}

/// Looks up the first provider called `name`.
pub fn position(providers: &Vec<ProviderState>, name: &str) -> (at: Option<usize>)
    ensures
        match at {
            Some(i) => find_provider(pool(providers@), name@, 0) == Some(i as int) && i
                < providers@.len() && providers@[i as int].name@ == name@,
            None => find_provider(pool(providers@), name@, 0) is None,
        },
{
    let mut i: usize = 0;
    while i < providers.len()
        invariant
            i <= providers@.len(),
            find_provider(pool(providers@), name@, 0) == find_provider(
                pool(providers@),
                name@,
                i as int,
            ),
        decreases providers@.len() - i,
    {
        assert(pool(providers@)[i as int] == providers@[i as int]@);
        if *providers[i].name.as_str() == *name {
            return Some(i);
        }
        i += 1;
    }
    None
}

impl AppState {
    /// The targets of the virtual model `model` whose provider is in the pool,
    /// in order of preference.
    pub fn resolve_candidates(&self, model: &str) -> (c: Vec<VirtualModelTarget>)
        ensures
            target_views(c@) == self@.candidates(model@),
    {
        let mut out: Vec<VirtualModelTarget> = Vec::new();
        assert(target_views(out@) =~= Seq::empty());
        match self.virtual_models.get(model) {
            Some(targets) => {
                let ghost all = target_views(targets@);
                let ghost known = |t: TargetView|
                    find_provider(pool(self.providers@), t.provider, 0) is Some;
                let mut i: usize = 0;
                assert(all.take(0) =~= Seq::empty());
                proof {
                    reveal(Seq::filter);
                }
                while i < targets.len()
                    invariant
                        i <= targets@.len(),
                        all == target_views(targets@),
                        known == (|t: TargetView|
                            find_provider(pool(self.providers@), t.provider, 0) is Some),
                        target_views(out@) == all.take(i as int).filter(known),
                    decreases targets@.len() - i,
                {
                    let ghost before = target_views(out@);
                    proof {
                        reveal(Seq::filter);
                        assert(all[i as int] == targets@[i as int]@);
                        assert(all.take(i + 1).drop_last() =~= all.take(i as int));
                    }
                    if position(&self.providers, targets[i].provider.as_str()).is_some() {
                        out.push(targets[i].clone());
                        assert(target_views(out@) =~= before.push(all[i as int]));
                    }
                    i += 1;
                }
                assert(all.take(i as int) =~= all);
                out
            },
            None => out,
        }
    }
}

/// Sets how the provider at `i` is doing.
pub(crate) fn set_health(providers: &mut Vec<ProviderState>, i: usize, health: Health)
    requires
        i < old(providers)@.len(),
    ensures
        pool(final(providers)@) == with_health(pool(old(providers)@), i as int, health),
{
    let ghost before = pool(providers@);
    providers[i].health = health;
    assert(pool(providers@) =~= with_health(before, i as int, health));
}

/// Sets what the provider at `i` was used for.
pub(crate) fn set_usage(providers: &mut Vec<ProviderState>, i: usize, usage: Usage)
    requires
        i < old(providers)@.len(),
    ensures
        pool(final(providers)@) == with_usage(pool(old(providers)@), i as int, usage),
{
    let ghost before = pool(providers@);
    providers[i].usage = usage;
    assert(pool(providers@) =~= with_usage(before, i as int, usage));
}

/// Whether a provider of that name is configured and enabled.
pub open spec fn is_enabled(configs: Seq<ProviderConfigView>, name: Seq<char>) -> bool {
    exists|j: int|
        0 <= j < configs.len() && (#[trigger] configs[j]).enabled && configs[j].name == name
}

proof fn lemma_built(configs: Seq<ProviderConfigView>, from: int, name: Seq<char>)
    requires
        0 <= from,
        built(configs, from) is Ok,
    ensures
        find_provider(built(configs, from)->Ok_0, name, 0) is Some <==> exists|j: int|
            from <= j < configs.len() && (#[trigger] configs[j]).enabled && configs[j].name == name,
    decreases configs.len() - from,
{
    if from < configs.len() {
        lemma_built(configs, from + 1, name);
        let all = built(configs, from)->Ok_0;
        lemma_find_provider(all, name, 0);
        if configs[from].enabled {
            let rest = built(configs, from + 1)->Ok_0;
            lemma_find_provider(rest, name, 0);
            assert(all[0].name == configs[from].name);
            assert forall|k: int| 0 <= k < rest.len() implies #[trigger] all[k + 1] == rest[k] by {}
            if let Some(k) = find_provider(rest, name, 0) {
                assert(all[k + 1].name == name);
            }
            if let Some(k) = find_provider(all, name, 0) {
                if k > 0 {
                    assert(rest[k - 1] == all[k]);
                }
            }
        }
    }
}

/// A virtual model is served by its targets at providers that are enabled, all
/// of them and in their order.
pub proof fn law_enabled_targets_serve(config: Config, i: int)
    requires
        initial_state(config) is Ok,
        distinct(config.virtual_models@),
        0 <= i < config.virtual_models@.len(),
    ensures
        ({
            let configs = crate::config::provider_views(config.providers@);
            let model = config.virtual_models@[i];
            initial_state(config)->Ok_0.candidates(model.name) == model.targets.filter(
                |t: TargetView| is_enabled(configs, t.provider),
            )
        }),
{
    let configs = crate::config::provider_views(config.providers@);
    let model = config.virtual_models@[i];
    let providers = built(configs, 0)->Ok_0;
    lemma_find_model(config.virtual_models@, model.name, 0);
    let known = |t: TargetView| find_provider(providers, t.provider, 0) is Some;
    let enabled = |t: TargetView| is_enabled(configs, t.provider);
    assert forall|t: TargetView| #[trigger] known(t) == enabled(t) by {
        lemma_built(configs, 0, t.provider);
    }
    assert(known =~= enabled);
}

/// A provider that nothing is known of yet is what was configured; it may be
/// chosen at any time, and nothing was counted for it.
pub proof fn law_fresh_is_available(p: ProviderConfigView, url: Url, now: u64)
    ensures
        ({
            let f = fresh(p, url);
            &&& f.name == p.name
            &&& f.api_key == p.api_key
            &&& f.models == p.models
            &&& f.base_url == url
            &&& f.health.available(now)
            &&& f.health.circuit is Closed
            &&& f.health.consecutive_failures == 0
            &&& f.health.last_attempt_time is None
            &&& !f.health.probe_in_flight
            &&& f.usage.requests == 0
            &&& f.usage.successes == 0
            &&& f.usage.tokens_input == 0
            &&& f.usage.tokens_output == 0
        }),
{
}

proof fn lemma_filter_front(c: ProviderConfigView, rest: Seq<ProviderConfigView>)
    ensures
        ({
            let enabled = |c: ProviderConfigView| c.enabled;
            (seq![c] + rest).filter(enabled) == if c.enabled {
                seq![c] + rest.filter(enabled)
            } else {
                rest.filter(enabled)
            }
        }),
    decreases rest.len(),
{
    let enabled = |c: ProviderConfigView| c.enabled;
    let all = seq![c] + rest;
    reveal(Seq::filter);
    if rest.len() == 0 {
        assert(all.drop_last() =~= Seq::empty());
        assert(all.last() == c);
        assert(rest.filter(enabled) =~= Seq::empty());
        assert(Seq::<ProviderConfigView>::empty().filter(enabled) =~= Seq::empty());
        assert(all.filter(enabled) =~= if c.enabled {
            seq![c]
        } else {
            Seq::empty()
        });
    } else {
        lemma_filter_front(c, rest.drop_last());
        assert(all.drop_last() =~= seq![c] + rest.drop_last());
        assert(all.last() == rest.last());
        assert((seq![c] + rest.drop_last().filter(enabled)).push(rest.last()) =~= seq![c]
            + rest.drop_last().filter(enabled).push(rest.last()));
    }
}

proof fn lemma_built_from(configs: Seq<ProviderConfigView>, from: int)
    requires
        0 <= from <= configs.len(),
    ensures
        built(configs, from) is Ok <==> forall|i: int|
            from <= i < configs.len() && (#[trigger] configs[i]).enabled ==> url_parsed(
                configs[i].base_url,
            ) is Ok,
        built(configs, from) is Ok ==> {
            let enabled = configs.skip(from).filter(|c: ProviderConfigView| c.enabled);
            let pool = built(configs, from)->Ok_0;
            &&& pool.len() == enabled.len()
            &&& forall|k: int|
                0 <= k < pool.len() ==> url_parsed(enabled[k].base_url) is Ok && (
                #[trigger] pool[k]) == fresh(enabled[k], url_parsed(enabled[k].base_url)->Ok_0)
        },
    decreases configs.len() - from,
{
    let rest = configs.skip(from);
    if from < configs.len() {
        lemma_built_from(configs, from + 1);
        assert(rest =~= seq![configs[from]] + configs.skip(from + 1));
        lemma_filter_front(configs[from], configs.skip(from + 1));
        if built(configs, from) is Ok && configs[from].enabled {
            let pool = built(configs, from)->Ok_0;
            let tail = built(configs, from + 1)->Ok_0;
            let enabled = rest.filter(|c: ProviderConfigView| c.enabled);
            let later = configs.skip(from + 1).filter(|c: ProviderConfigView| c.enabled);
            assert forall|k: int| 0 <= k < pool.len() implies url_parsed(enabled[k].base_url) is Ok
                && (#[trigger] pool[k]) == fresh(
                enabled[k],
                url_parsed(enabled[k].base_url)->Ok_0,
            ) by {
                if k > 0 {
                    assert(pool[k] == tail[k - 1]);
                    assert(enabled[k] == later[k - 1]);
                }
            }
        }
    } else {
        reveal(Seq::filter);
        assert(rest =~= Seq::empty());
    }
}

/// A pool is built if and only if the URL of every enabled provider is one; it
/// holds the enabled providers, each of them and no other, in their order, with
/// what was configured.
pub proof fn law_pool_is_the_enabled(configs: Seq<ProviderConfigView>)
    ensures
        built(configs, 0) is Ok <==> forall|i: int|
            0 <= i < configs.len() && (#[trigger] configs[i]).enabled ==> url_parsed(
                configs[i].base_url,
            ) is Ok,
        built(configs, 0) is Ok ==> {
            let enabled = configs.filter(|c: ProviderConfigView| c.enabled);
            let pool = built(configs, 0)->Ok_0;
            &&& pool.len() == enabled.len()
            &&& forall|k: int|
                0 <= k < pool.len() ==> {
                    &&& (#[trigger] pool[k]).name == enabled[k].name
                    &&& pool[k].api_key == enabled[k].api_key
                    &&& pool[k].models == enabled[k].models
                    &&& url_parsed(enabled[k].base_url) == Ok::<Url, Seq<char>>(pool[k].base_url)
                }
        },
{
    lemma_built_from(configs, 0);
    assert(configs.skip(0) =~= configs);
}

/// The first enabled provider whose URL is none is named, and what is wrong with
/// its URL.
pub proof fn law_bad_url_is_named(configs: Seq<ProviderConfigView>, i: int)
    requires
        0 <= i < configs.len(),
        configs[i].enabled,
        url_parsed(configs[i].base_url) is Err,
        forall|j: int|
            0 <= j < i && (#[trigger] configs[j]).enabled ==> url_parsed(configs[j].base_url) is Ok,
    ensures
        built(configs, 0) == Err::<Seq<ProviderView>, ErrorView>(
            ErrorView::ConfigLoad(
                "Invalid base URL '"@ + configs[i].base_url + "' for provider '"@ + configs[i].name
                    + "': "@ + url_parsed(configs[i].base_url)->Err_0,
            ),
        ),
{
    lemma_bad_url_from(configs, 0, i);
}

proof fn lemma_bad_url_from(configs: Seq<ProviderConfigView>, from: int, i: int)
    requires
        0 <= from <= i < configs.len(),
        configs[i].enabled,
        url_parsed(configs[i].base_url) is Err,
        forall|j: int|
            from <= j < i && (#[trigger] configs[j]).enabled ==> url_parsed(
                configs[j].base_url,
            ) is Ok,
    ensures
        built(configs, from) == Err::<Seq<ProviderView>, ErrorView>(
            bad_url(configs[i], url_parsed(configs[i].base_url)->Err_0),
        ),
    decreases i - from,
{
    if from < i {
        lemma_bad_url_from(configs, from + 1, i);
    }
}

/// The state that a configuration starts with has its key, its timeout, its
/// virtual models and its pool; one that does not hold together starts with none.
pub proof fn law_state_is_as_configured(config: Config)
    ensures
        initial_state(config) is Ok <==> built(
            crate::config::provider_views(config.providers@),
            0,
        ) is Ok,
        initial_state(config) is Ok ==> {
            let s = initial_state(config)->Ok_0;
            &&& Ok::<Seq<ProviderView>, ErrorView>(s.providers) == built(
                crate::config::provider_views(config.providers@),
                0,
            )
            &&& s.virtual_models == config.virtual_models@
            &&& s.upstream_timeout_secs == config.server.upstream_timeout_secs
            &&& s.api_key == config.server.api_key@
        },
        built(crate::config::provider_views(config.providers@), 0) matches Err(e)
            ==> initial_state(config) == Err::<StateView, ErrorView>(e),
        crate::config::complaint(
            crate::config::provider_views(config.providers@),
            config.virtual_models@,
        ) matches Some(m) ==> usable_state(config) == Err::<StateView, ErrorView>(
            ErrorView::ConfigLoad(m),
        ),
        usable_state(config) is Ok ==> crate::config::complaint(
            crate::config::provider_views(config.providers@),
            config.virtual_models@,
        ) is None && usable_state(config) == initial_state(config),
        crate::config::complaint(
            crate::config::provider_views(config.providers@),
            config.virtual_models@,
        ) is None ==> usable_state(config) == initial_state(config),
{
}

/// What can serve a virtual model are those of its targets whose provider is in
/// the pool, all of them and in their order; nothing serves a model that is not
/// there.
pub proof fn law_candidates_are_known_targets(state: StateView, name: Seq<char>)
    requires
        distinct(state.virtual_models),
    ensures
        forall|i: int|
            0 <= i < state.virtual_models.len() && (#[trigger] state.virtual_models[i]).name == name
                ==> state.candidates(name) == state.virtual_models[i].targets.filter(
                |t: TargetView|
                    exists|p: int|
                        0 <= p < state.providers.len() && (#[trigger] state.providers[p]).name
                            == t.provider,
            ),
        (forall|i: int|
            0 <= i < state.virtual_models.len() ==> (#[trigger] state.virtual_models[i]).name
                != name) ==> state.candidates(name).len() == 0,
{
    lemma_find_model(state.virtual_models, name, 0);
    let known = |t: TargetView| find_provider(state.providers, t.provider, 0) is Some;
    let there = |t: TargetView|
        exists|p: int|
            0 <= p < state.providers.len() && (#[trigger] state.providers[p]).name == t.provider;
    assert forall|t: TargetView| #[trigger] known(t) == there(t) by {
        lemma_find_provider(state.providers, t.provider, 0);
    }
    assert(known =~= there);
}

/// What is changed of the providers changes nothing else of the state.
pub proof fn law_the_rest_stays(s: StateView, providers: Seq<ProviderView>)
    ensures
        s.with_providers(providers).providers == providers,
        s.with_providers(providers).virtual_models == s.virtual_models,
        s.with_providers(providers).upstream_timeout_secs == s.upstream_timeout_secs,
        s.with_providers(providers).api_key == s.api_key,
{
}

} // verus!
