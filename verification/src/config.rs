//! The configuration: its parts, and whether it holds together.

use vstd::prelude::*;

use crate::error::{ErrorView, OxllmError};

verus! {

/// How the gateway itself is run.
#[derive(Debug, Clone)]
pub struct ServerConfig {
    pub host: String,
    pub port: u16,
    pub otel_endpoint: String,
    pub api_key: String,
    pub upstream_timeout_secs: u64,
    pub bind_family: String,
}

/// The host that the gateway listens on where none is configured.
pub fn default_host() -> (s: String)
    ensures
        s@ == "127.0.0.1"@,
{
    "127.0.0.1".to_owned()
}

/// The port that the gateway listens on where none is configured.
pub fn default_port() -> (port: u16)
    ensures
        port == 8080,
{
    8080
}

/// For how many seconds an upstream is waited for where that is not configured.
pub fn default_upstream_timeout() -> (secs: u64)
    ensures
        secs == 5,
{
    5
}

/// The address family that is bound where none is configured.
pub fn default_bind_family() -> (s: String)
    ensures
        s@ == "ipv4"@,
{
    "ipv4".to_owned()
}

impl Default for ServerConfig {
    /// A server of which nothing is configured.
    fn default() -> (c: Self)
        ensures
            c.host@ == "127.0.0.1"@,
            c.port == 8080,
            c.otel_endpoint@.len() == 0,
            c.api_key@.len() == 0,
            c.upstream_timeout_secs == 5,
            c.bind_family@ == "ipv4"@,
    {
        ServerConfig {
            host: default_host(),
            port: default_port(),
            otel_endpoint: String::new(),
            api_key: String::new(),
            upstream_timeout_secs: default_upstream_timeout(),
            bind_family: default_bind_family(),
        }
    }
}

/// An upstream provider.
#[derive(Debug, Clone)]
pub struct ProviderConfig {
    pub name: String,
    pub enabled: bool,
    pub base_url: String,
    pub api_key: String,
    pub models: Vec<String>,
}

/// What a `ProviderConfig` says.
pub struct ProviderConfigView {
    pub name: Seq<char>,
    pub enabled: bool,
    pub base_url: Seq<char>,
    pub api_key: Seq<char>,
    pub models: Seq<Seq<char>>,
}

impl View for ProviderConfig {
    type V = ProviderConfigView;

    open spec fn view(&self) -> ProviderConfigView {
        ProviderConfigView {
            name: self.name@,
            enabled: self.enabled,
            base_url: self.base_url@,
            api_key: self.api_key@,
            models: crate::text::views(self.models@),
        }
    }
}

/// A model of a provider that a virtual model can be served by.
#[derive(Debug)]
pub struct VirtualModelTarget {
    pub provider: String,
    pub model: String,
}

/// What a `VirtualModelTarget` says.
pub struct TargetView {
    pub provider: Seq<char>,
    pub model: Seq<char>,
}

impl View for VirtualModelTarget {
    type V = TargetView;

    open spec fn view(&self) -> TargetView {
        TargetView { provider: self.provider@, model: self.model@ }
    }
}

impl Clone for VirtualModelTarget {
    fn clone(&self) -> (t: Self)
        ensures
            t == *self,
    {
        VirtualModelTarget { provider: self.provider.clone(), model: self.model.clone() }
    }
}

/// What targets say.
pub open spec fn target_views(targets: Seq<VirtualModelTarget>) -> Seq<TargetView> {
    targets.map_values(|t: VirtualModelTarget| t@)
}

/// A name that clients ask for, and the targets behind it, the preferred ones
/// first.
#[derive(Debug)]
pub struct VirtualModel {
    pub name: String,
    pub targets: Vec<VirtualModelTarget>,
}

/// What a `VirtualModel` says.
pub struct ModelView {
    pub name: Seq<char>,
    pub targets: Seq<TargetView>,
}

impl View for VirtualModel {
    type V = ModelView;

    open spec fn view(&self) -> ModelView {
        ModelView { name: self.name@, targets: target_views(self.targets@) }
    }
}

impl Clone for VirtualModel {
    fn clone(&self) -> (m: Self)
        ensures
            m@ == self@,
    {
        let mut targets: Vec<VirtualModelTarget> = Vec::new();
        let mut i: usize = 0;
        while i < self.targets.len()
            invariant
                i <= self.targets@.len(),
                targets@ == self.targets@.take(i as int),
            decreases self.targets@.len() - i,
        {
            targets.push(self.targets[i].clone());
            i += 1;
        }
        assert(targets@ == self.targets@);
        VirtualModel { name: self.name.clone(), targets }
    }
}

/// What virtual models say.
pub open spec fn model_views(models: Seq<VirtualModel>) -> Seq<ModelView> {
    models.map_values(|m: VirtualModel| m@)
}

/// The position of the first model called `name` at or after `from`.
pub open spec fn find_model(models: Seq<ModelView>, name: Seq<char>, from: int) -> Option<int>
    decreases models.len() - from,
{
    if from < 0 || from >= models.len() {
        None
    } else if models[from].name == name {
        Some(from)
    } else {
        find_model(models, name, from + 1)
    }
}

/// Whether no two of the models have one name.
pub open spec fn distinct(models: Seq<ModelView>) -> bool {
    forall|i: int, j: int|
        0 <= i < j < models.len() ==> #[trigger] models[i].name != #[trigger] models[j].name
}

/// The models with `name` standing for `targets`.
pub open spec fn with_model(
    models: Seq<ModelView>,
    name: Seq<char>,
    targets: Seq<TargetView>,
) -> Seq<ModelView> {
    let m = ModelView { name, targets };
    match find_model(models, name, 0) {
        Some(i) => models.update(i, m),
        None => models.push(m),
    }
}

/// A model that is found is at that position and at none before it; one that is
/// not found is not there.
pub proof fn lemma_find_model(models: Seq<ModelView>, name: Seq<char>, from: int)
    requires
        0 <= from,
    ensures
        match find_model(models, name, from) {
            Some(i) => from <= i < models.len() && models[i].name == name && forall|j: int|
                from <= j < i ==> (#[trigger] models[j]).name != name,
            None => forall|i: int| from <= i < models.len() ==> (#[trigger] models[i]).name != name,
        },
    decreases models.len() - from,
{
    if from < models.len() && models[from].name != name {
        lemma_find_model(models, name, from + 1);
    }
}

/// The virtual models of a configuration, no two under one name.
#[derive(Debug)]
pub struct VirtualModels {
    entries: Vec<VirtualModel>,
}

impl View for VirtualModels {
    type V = Seq<ModelView>;

    closed spec fn view(&self) -> Seq<ModelView> {
        model_views(self.entries@)
    }
}

impl VirtualModels {
    #[verifier::type_invariant]
    spec fn named_apart(self) -> bool {
        distinct(model_views(self.entries@))
    }

    /// No virtual models.
    pub fn new() -> (m: Self)
        ensures
            m@.len() == 0,
    {
        VirtualModels { entries: Vec::new() }
    }

    /// How many there are.
    pub fn len(&self) -> (n: usize)
        ensures
            n == self@.len(),
            distinct(self@),
    {
        proof {
            use_type_invariant(self);
        }
        self.entries.len()
    }

    /// The virtual model at position `i`.
    pub fn at(&self, i: usize) -> (m: &VirtualModel)
        requires
            i < self@.len(),
        ensures
            m@ == self@[i as int],
    {
        &self.entries[i]
    }

    fn position(&self, name: &str) -> (at: Option<usize>)
        ensures
            match at {
                Some(i) => find_model(self@, name@, 0) == Some(i as int) && i < self@.len(),
                None => find_model(self@, name@, 0) is None,
            },
    {
        let mut i: usize = 0;
        while i < self.entries.len()
            invariant
                i <= self.entries@.len(),
                find_model(self@, name@, 0) == find_model(self@, name@, i as int),
            decreases self.entries@.len() - i,
        {
            assert(self@[i as int] == self.entries@[i as int]@);
            if *self.entries[i].name.as_str() == *name {
                return Some(i);
            }
            i += 1;
        }
        None
    }

    /// The targets that `name` stands for, if it is the name of a virtual model.
    pub fn get(&self, name: &str) -> (targets: Option<&Vec<VirtualModelTarget>>)
        ensures
            match targets {
                Some(t) => find_model(self@, name@, 0) is Some && target_views(t@)
                    == self@[find_model(self@, name@, 0)->0].targets,
                None => find_model(self@, name@, 0) is None,
            },
    {
        match self.position(name) {
            Some(i) => {
                assert(self@[i as int] == self.entries@[i as int]@);
                Some(&self.entries[i].targets)
            },
            None => None,
        }
    }

    /// Lets `name` stand for `targets`, whatever it stood for before.
    pub fn insert(&mut self, name: String, targets: Vec<VirtualModelTarget>)
        ensures
            final(self)@ == with_model(old(self)@, name@, target_views(targets@)),
    {
        proof {
            use_type_invariant(&*self);
            lemma_find_model(self@, name@, 0);
        }
        let at = self.position(name.as_str());
        let ghost before = self@;
        let mut entries: Vec<VirtualModel> = Vec::new();
        std::mem::swap(&mut entries, &mut self.entries);
        let ghost m = VirtualModel { name, targets };
        match at {
            Some(i) => {
                assert(before[i as int] == entries@[i as int]@);
                entries.set(i, VirtualModel { name, targets });
                assert(model_views(entries@) == before.update(i as int, m@));
            },
            None => {
                entries.push(VirtualModel { name, targets });
                assert(model_views(entries@) == before.push(m@));
            },
        }
        self.entries = entries;
    }
}

impl Clone for VirtualModels {
    fn clone(&self) -> (m: Self)
        ensures
            m@ == self@,
    {
        proof {
            use_type_invariant(self);
        }
        let mut entries: Vec<VirtualModel> = Vec::new();
        let mut i: usize = 0;
        while i < self.entries.len()
            invariant
                i <= self.entries@.len(),
                model_views(entries@) == model_views(self.entries@).take(i as int),
            decreases self.entries@.len() - i,
        {
            let ghost before = entries@;
            entries.push(self.entries[i].clone());
            assert(model_views(entries@) == model_views(before).push(self.entries@[i as int]@));
            i += 1;
        }
        assert(model_views(entries@) == model_views(self.entries@));
        VirtualModels { entries }
    }
}

/// Everything that is configured.
#[derive(Debug, Clone)]
pub struct Config {
    pub server: ServerConfig,
    pub providers: Vec<ProviderConfig>,
    pub virtual_models: VirtualModels,
}

/// What providers say.
pub open spec fn provider_views(providers: Seq<ProviderConfig>) -> Seq<ProviderConfigView> {
    providers.map_values(|p: ProviderConfig| p@)
}

/// Whether a provider is called `name`.
pub open spec fn is_defined(providers: Seq<ProviderConfigView>, name: Seq<char>) -> bool {
    exists|i: int| 0 <= i < providers.len() && (#[trigger] providers[i]).name == name
}

/// What is wrong with the targets of `model` from the one at `from` on: the
/// first of an undefined provider.
pub open spec fn targets_complaint(
    providers: Seq<ProviderConfigView>,
    model: ModelView,
    from: int,
) -> Option<Seq<char>>
    decreases model.targets.len() - from,
{
    if from < 0 || from >= model.targets.len() {
        None
    } else if !is_defined(providers, model.targets[from].provider) {
        Some(
            "Virtual model '"@ + model.name + "' targets undefined provider '"@
                + model.targets[from].provider + "'"@,
        )
    } else {
        targets_complaint(providers, model, from + 1)
    }
}

/// What is wrong with a virtual model, if anything is.
pub open spec fn model_complaint(
    providers: Seq<ProviderConfigView>,
    model: ModelView,
) -> Option<Seq<char>> {
    if model.targets.len() == 0 {
        Some("Virtual model '"@ + model.name + "' has no targets configured"@)
    } else {
        targets_complaint(providers, model, 0)
    }
}

/// What is wrong with the first model that something is wrong with, of those
/// from the one at `from` on.
pub open spec fn models_complaint(
    providers: Seq<ProviderConfigView>,
    models: Seq<ModelView>,
    from: int,
) -> Option<Seq<char>>
    decreases models.len() - from,
{
    if from < 0 || from >= models.len() {
        None
    } else {
        match model_complaint(providers, models[from]) {
            Some(c) => Some(c),
            None => models_complaint(providers, models, from + 1),
        }
    }
}

/// What is wrong with a configuration, if anything is.
pub open spec fn complaint(
    providers: Seq<ProviderConfigView>,
    models: Seq<ModelView>,
) -> Option<Seq<char>> {
    if providers.len() == 0 {
        Some("At least one provider must be defined"@)
    } else {
        models_complaint(providers, models, 0)
    }
}

/// Whether a configuration holds together: there is a provider, and every
/// virtual model has targets, all of them at defined providers.
pub open spec fn is_valid(providers: Seq<ProviderConfigView>, models: Seq<ModelView>) -> bool {
    &&& providers.len() > 0
    &&& forall|i: int|
        0 <= i < models.len() ==> {
            &&& (#[trigger] models[i]).targets.len() > 0
            &&& forall|j: int|
                0 <= j < models[i].targets.len() ==> is_defined(
                    providers,
                    (#[trigger] models[i].targets[j]).provider,
                )
        }
}

proof fn lemma_targets_complaint(providers: Seq<ProviderConfigView>, model: ModelView, from: int)
    requires
        0 <= from,
    ensures
        targets_complaint(providers, model, from) is None <==> forall|j: int|
            from <= j < model.targets.len() ==> is_defined(
                providers,
                (#[trigger] model.targets[j]).provider,
            ),
    decreases model.targets.len() - from,
{
    if from < model.targets.len() {
        lemma_targets_complaint(providers, model, from + 1);
    }
}

proof fn lemma_models_complaint(
    providers: Seq<ProviderConfigView>,
    models: Seq<ModelView>,
    from: int,
)
    requires
        0 <= from,
    ensures
        models_complaint(providers, models, from) is None <==> forall|i: int|
            from <= i < models.len() ==> model_complaint(providers, #[trigger] models[i]) is None,
    decreases models.len() - from,
{
    if from < models.len() {
        lemma_models_complaint(providers, models, from + 1);
    }
}

/// Nothing is said against a configuration exactly where it holds together.
pub proof fn law_valid_iff_no_complaint(
    providers: Seq<ProviderConfigView>,
    models: Seq<ModelView>,
)
    ensures
        complaint(providers, models) is None <==> is_valid(providers, models),
        complaint(providers, models) is None <==> {
            &&& providers.len() > 0
            &&& forall|i: int|
                0 <= i < models.len() ==> {
                    &&& (#[trigger] models[i]).targets.len() > 0
                    &&& forall|j: int|
                        0 <= j < models[i].targets.len() ==> exists|k: int|
                            0 <= k < providers.len() && (#[trigger] providers[k]).name == (
                            #[trigger] models[i].targets[j]).provider
                }
        },
{
    lemma_models_complaint(providers, models, 0);
    assert forall|i: int| 0 <= i < models.len() implies (model_complaint(
        providers,
        #[trigger] models[i],
    ) is None <==> models[i].targets.len() > 0 && forall|j: int|
        0 <= j < models[i].targets.len() ==> is_defined(
            providers,
            (#[trigger] models[i].targets[j]).provider,
        )) by {
        lemma_targets_complaint(providers, models[i], 0);
    }
}

fn defines(providers: &Vec<ProviderConfig>, name: &str) -> (yes: bool)
    ensures
        yes == is_defined(provider_views(providers@), name@),
{
    let mut i: usize = 0;
    while i < providers.len()
        invariant
            i <= providers@.len(),
            forall|j: int| 0 <= j < i ==> (#[trigger] provider_views(providers@)[j]).name != name@,
        decreases providers@.len() - i,
    {
        assert(provider_views(providers@)[i as int] == providers@[i as int]@);
        if *providers[i].name.as_str() == *name {
            return true;
        }
        i += 1;
    }
    false
}

impl Config {
    /// What is wrong with this configuration, if anything is.
    pub open spec fn complaint(&self) -> Option<Seq<char>> {
        complaint(provider_views(self.providers@), self.virtual_models@)
    }

    /// Checks that there is a provider, and that every virtual model has
    /// targets, all of them at providers that are defined, enabled or not.
    pub fn validate(&self) -> (r: Result<(), OxllmError>)
        ensures
            match r {
                Ok(()) => self.complaint() is None,
                Err(e) => self.complaint() is Some && e@ == ErrorView::ConfigLoad(
                    self.complaint()->0,
                ),
            },
    {
        if self.providers.is_empty() {
            return Err(
                OxllmError::ConfigLoad("At least one provider must be defined".to_owned()),
            );
        }
        let ghost ps = provider_views(self.providers@);
        let n: usize = self.virtual_models.len();
        let mut i: usize = 0;
        while i < n
            invariant
                i <= n == self.virtual_models@.len(),
                ps == provider_views(self.providers@),
                ps.len() > 0,
                self.complaint() == models_complaint(ps, self.virtual_models@, i as int),
            decreases n - i,
        {
            let model = self.virtual_models.at(i);
            if model.targets.is_empty() {
                let mut m = "Virtual model '".to_owned();
                m.append(model.name.as_str());
                m.append("' has no targets configured");
                return Err(OxllmError::ConfigLoad(m));
            }
            let mut j: usize = 0;
            while j < model.targets.len()
                invariant
                    j <= model.targets@.len(),
                    i < self.virtual_models@.len(),
                    model@ == self.virtual_models@[i as int],
                    model@.targets.len() > 0,
                    ps == provider_views(self.providers@),
                    self.complaint() == models_complaint(ps, self.virtual_models@, i as int),
                    model_complaint(ps, model@) == targets_complaint(ps, model@, j as int),
                decreases model.targets@.len() - j,
            {
                assert(model@.targets[j as int] == model.targets@[j as int]@);
                if !defines(&self.providers, model.targets[j].provider.as_str()) {
                    let mut m = "Virtual model '".to_owned();
                    m.append(model.name.as_str());
                    m.append("' targets undefined provider '");
                    m.append(model.targets[j].provider.as_str());
                    m.append("'");
                    return Err(OxllmError::ConfigLoad(m));
                }
                j += 1;
            }
            i += 1;
        }
        Ok(())
    }
}

/// What is complained of is so: it names the first virtual model that has no
/// targets or one at an undefined provider, and the first such provider.
pub proof fn law_complaint_names_the_first(
    providers: Seq<ProviderConfigView>,
    models: Seq<ModelView>,
    i: int,
)
    requires
        providers.len() > 0,
        0 <= i < models.len(),
        forall|m: int|
            0 <= m < i ==> {
                &&& (#[trigger] models[m]).targets.len() > 0
                &&& forall|j: int|
                    0 <= j < models[m].targets.len() ==> is_defined(
                        providers,
                        (#[trigger] models[m].targets[j]).provider,
                    )
            },
    ensures
        models[i].targets.len() == 0 ==> complaint(providers, models) == Some(
            "Virtual model '"@ + models[i].name + "' has no targets configured"@,
        ),
        forall|j: int|
            0 <= j < models[i].targets.len() && !is_defined(
                providers,
                (#[trigger] models[i].targets[j]).provider,
            ) && (forall|k: int|
                0 <= k < j ==> is_defined(providers, (#[trigger] models[i].targets[k]).provider))
                ==> complaint(providers, models) == Some(
                "Virtual model '"@ + models[i].name + "' targets undefined provider '"@
                    + models[i].targets[j].provider + "'"@,
            ),
{
    lemma_skip_models(providers, models, 0, i);
    assert forall|j: int|
        0 <= j < models[i].targets.len() && !is_defined(
            providers,
            (#[trigger] models[i].targets[j]).provider,
        ) && (forall|k: int|
            0 <= k < j ==> is_defined(providers, (#[trigger] models[i].targets[k]).provider))
        implies complaint(providers, models) == Some(
        "Virtual model '"@ + models[i].name + "' targets undefined provider '"@
            + models[i].targets[j].provider + "'"@,
    ) by {
        lemma_skip_targets(providers, models[i], 0, j);
    }
}

proof fn lemma_skip_targets(
    providers: Seq<ProviderConfigView>,
    model: ModelView,
    from: int,
    to: int,
)
    requires
        0 <= from <= to <= model.targets.len(),
        forall|k: int|
            from <= k < to ==> is_defined(providers, (#[trigger] model.targets[k]).provider),
    ensures
        targets_complaint(providers, model, from) == targets_complaint(providers, model, to),
    decreases to - from,
{
    if from < to {
        lemma_skip_targets(providers, model, from + 1, to);
    }
}

proof fn lemma_skip_models(
    providers: Seq<ProviderConfigView>,
    models: Seq<ModelView>,
    from: int,
    to: int,
)
    requires
        0 <= from <= to <= models.len(),
        forall|m: int|
            from <= m < to ==> {
                &&& (#[trigger] models[m]).targets.len() > 0
                &&& forall|j: int|
                    0 <= j < models[m].targets.len() ==> is_defined(
                        providers,
                        (#[trigger] models[m].targets[j]).provider,
                    )
            },
    ensures
        models_complaint(providers, models, from) == models_complaint(providers, models, to),
    decreases to - from,
{
    if from < to {
        lemma_targets_complaint(providers, models[from], 0);
        lemma_skip_models(providers, models, from + 1, to);
    }
}

/// Without providers nothing else is complained of.
pub proof fn law_no_provider_is_complained_of(models: Seq<ModelView>)
    ensures
        complaint(Seq::empty(), models) == Some("At least one provider must be defined"@),
{
}

/// A provider is defined exactly where one of that name is configured, wherever
/// it stands and whether it is enabled or not.
pub proof fn law_every_provider_counts(providers: Seq<ProviderConfigView>, name: Seq<char>)
    ensures
        forall|i: int| 0 <= i < providers.len() ==> is_defined(providers, #[trigger] providers[i].name),
        is_defined(providers, name) ==> exists|i: int|
            0 <= i < providers.len() && (#[trigger] providers[i]).name == name,
{
    assert forall|i: int| 0 <= i < providers.len() implies is_defined(
        providers,
        #[trigger] providers[i].name,
    ) by {
        assert(providers[i].name == providers[i].name);
    }
}

/// A virtual model that was put in is found with its targets; every other is
/// found as before; no name is there twice.
pub proof fn law_inserted_is_found(
    models: Seq<ModelView>,
    name: Seq<char>,
    targets: Seq<TargetView>,
    other: Seq<char>,
)
    requires
        distinct(models),
    ensures
        ({
            let after = with_model(models, name, targets);
            &&& distinct(after)
            &&& forall|k: int|
                0 <= k < models.len() ==> (#[trigger] after[k]).name == models[k].name
            &&& find_model(after, name, 0) is Some
            &&& after[find_model(after, name, 0)->0].targets == targets
            &&& other != name ==> (find_model(after, other, 0) is Some <==> find_model(
                models,
                other,
                0,
            ) is Some)
            &&& other != name && find_model(models, other, 0) is Some
                ==> after[find_model(after, other, 0)->0] == models[find_model(models, other, 0)->0]
        }),
{
    let after = with_model(models, name, targets);
    lemma_find_model(models, name, 0);
    lemma_find_model(models, other, 0);
    lemma_find_model(after, name, 0);
    lemma_find_model(after, other, 0);
    let m = ModelView { name, targets };
    if let Some(i) = find_model(models, name, 0) {
        assert(after[i] == m);
    } else {
        assert(after[models.len() as int] == m);
    }
    if other != name {
        if let Some(k) = find_model(models, other, 0) {
            assert(after[k] == models[k]);
        }
        if let Some(k) = find_model(after, other, 0) {
            assert(after[k] == models[k]);
        }
    }
}

} // verus!
