//! Model connections, bundles and the assignments that pick between them.

use vstd::prelude::*;
use vstd::string::*;
use crate::text::str_eq;

verus! {

/// What a request needs from a model. `Judges` is the inexpensive tier that
/// settings show as "Cheap".
#[derive(Clone, Copy, Debug, PartialEq, Eq, Structural)]
pub enum ModelProfile {
    Judges,
    Fast,
    Code,
    Powerful,
    Local,
}

/// How a connection authenticates.
#[derive(Clone, Debug, PartialEq, Eq)]
pub enum AuthType {
    NoKey,
    ApiKey(String),
}

/// A model slug for each tier; an absent one falls back to the default model.
#[derive(Clone, Debug, PartialEq, Eq)]
pub struct TierModels {
    pub judges: Option<String>,
    pub fast: Option<String>,
    pub code: Option<String>,
    pub powerful: Option<String>,
    pub local: Option<String>,
}

/// A configured connection to a model provider.
#[derive(Clone, Debug, PartialEq, Eq)]
pub struct ProviderConfig {
    pub auth: AuthType,
    pub default_model: String,
    pub endpoint: Option<String>,
    pub context_window_tokens: u32,
    pub compaction_trigger_pct: u8,
    pub compaction_target_pct: u8,
    pub supports_vision: bool,
    pub supports_documents: bool,
    /// The wire id of the model family.
    pub family: String,
    /// The bits of the sampling temperature; absent, the adapter decides.
    pub temperature: Option<u32>,
    pub tier_models: TierModels,
}

/// A connection under its id.
#[derive(Clone, Debug, PartialEq, Eq)]
pub struct ProviderEntry {
    pub id: String,
    pub config: ProviderConfig,
}

/// One tier of a bundle: which connection serves it, with which model.
#[derive(Clone, Debug, PartialEq, Eq)]
pub struct BundleTier {
    pub connection_id: String,
    pub slug: String,
}

/// The tiers that a bundle fills.
#[derive(Clone, Debug, PartialEq, Eq)]
pub struct BundleTiers {
    pub judges: Option<BundleTier>,
    pub fast: Option<BundleTier>,
    pub code: Option<BundleTier>,
    pub powerful: Option<BundleTier>,
    pub local: Option<BundleTier>,
}

/// A point on the UTC time line: whole seconds since the Unix epoch and the
/// nanoseconds past them.
#[derive(Clone, Copy, Debug, PartialEq, Eq, Structural)]
pub struct Timestamp {
    pub secs: i64,
    pub nanos: u32,
}

/// A named choice of model per tier.
#[derive(Clone, Debug, PartialEq, Eq)]
pub struct Bundle {
    pub id: String,
    pub name: String,
    pub created_at: Timestamp,
    pub updated_at: Timestamp,
    pub tiers: BundleTiers,
}

/// The connections, the bundles, and which of them are active.
#[derive(Clone, Debug, PartialEq, Eq)]
pub struct ModelsConfig {
    pub providers: Vec<ProviderEntry>,
    pub bundles: Vec<Bundle>,
    pub active_bundle: Option<String>,
    pub active_provider: Option<String>,
}

/// A copy of an optional string.
pub fn copy_opt(o: &Option<String>) -> (r: Option<String>)
    ensures
        r == *o,
{
    match o {
        Some(s) => Some(s.clone()),
        None => None,
    }
}

impl AuthType {
    pub fn copy(&self) -> (r: AuthType)
        ensures
            r == *self,
    {
        match self {
            AuthType::NoKey => AuthType::NoKey,
            AuthType::ApiKey(k) => AuthType::ApiKey(k.clone()),
        }
    }
}

/// No tier is set.
pub open spec fn no_tiers() -> TierModels {
    TierModels { judges: None, fast: None, code: None, powerful: None, local: None }
}

impl TierModels {
    pub open spec fn at(self, tier: ModelProfile) -> Option<String> {
        match tier {
            ModelProfile::Judges => self.judges,
            ModelProfile::Fast => self.fast,
            ModelProfile::Code => self.code,
            ModelProfile::Powerful => self.powerful,
            ModelProfile::Local => self.local,
        }
    }

    /// Some tier names `slug`.
    pub open spec fn names(self, slug: Seq<char>) -> bool {
        exists|t: ModelProfile| (#[trigger] self.at(t)) matches Some(s) && s@ == slug
    }

    /// No tier is set.
    pub fn empty() -> (r: TierModels)
        ensures
            r == no_tiers(),
    {
        TierModels { judges: None, fast: None, code: None, powerful: None, local: None }
    }

    pub fn get(&self, tier: ModelProfile) -> (r: &Option<String>)
        ensures
            *r == self.at(tier),
    {
        match tier {
            ModelProfile::Judges => &self.judges,
            ModelProfile::Fast => &self.fast,
            ModelProfile::Code => &self.code,
            ModelProfile::Powerful => &self.powerful,
            ModelProfile::Local => &self.local,
        }
    }

    pub fn set(&mut self, tier: ModelProfile, slug: String)
        ensures
            forall|t: ModelProfile|
                (#[trigger] final(self).at(t)) == if t == tier {
                    Some(slug)
                } else {
                    old(self).at(t)
                },
    {
        match tier {
            ModelProfile::Judges => {
                self.judges = Some(slug);
            },
            ModelProfile::Fast => {
                self.fast = Some(slug);
            },
            ModelProfile::Code => {
                self.code = Some(slug);
            },
            ModelProfile::Powerful => {
                self.powerful = Some(slug);
            },
            ModelProfile::Local => {
                self.local = Some(slug);
            },
        }
    }

    pub fn copy(&self) -> (r: TierModels)
        ensures
            r == *self,
    {
        TierModels {
            judges: copy_opt(&self.judges),
            fast: copy_opt(&self.fast),
            code: copy_opt(&self.code),
            powerful: copy_opt(&self.powerful),
            local: copy_opt(&self.local),
        }
    }

    fn tier_names(&self, tier: ModelProfile, slug: &str) -> (r: bool)
        ensures
            r == (self.at(tier) matches Some(s) && s@ == slug@),
    {
        match self.get(tier) {
            Some(s) => str_eq(s.as_str(), slug),
            None => false,
        }
    }

    /// Does some tier name `slug`?
    pub fn any_names(&self, slug: &str) -> (r: bool)
        ensures
            r == self.names(slug@),
    {
        let r = self.tier_names(ModelProfile::Judges, slug) || self.tier_names(
            ModelProfile::Fast,
            slug,
        ) || self.tier_names(ModelProfile::Code, slug) || self.tier_names(
            ModelProfile::Powerful,
            slug,
        ) || self.tier_names(ModelProfile::Local, slug);
        proof {
            if self.names(slug@) {
                let t = choose|t: ModelProfile|
                    (#[trigger] self.at(t)) matches Some(s) && s@ == slug@;
                match t {
                    ModelProfile::Judges => {},
                    ModelProfile::Fast => {},
                    ModelProfile::Code => {},
                    ModelProfile::Powerful => {},
                    ModelProfile::Local => {},
                }
            }
        }
        r
    }
}

impl ProviderConfig {
    pub fn copy(&self) -> (r: ProviderConfig)
        ensures
            r == *self,
    {
        ProviderConfig {
            auth: self.auth.copy(),
            default_model: self.default_model.clone(),
            endpoint: copy_opt(&self.endpoint),
            context_window_tokens: self.context_window_tokens,
            compaction_trigger_pct: self.compaction_trigger_pct,
            compaction_target_pct: self.compaction_target_pct,
            supports_vision: self.supports_vision,
            supports_documents: self.supports_documents,
            family: self.family.clone(),
            temperature: self.temperature,
            tier_models: self.tier_models.copy(),
        }
    }
}

impl BundleTier {
    pub fn copy(&self) -> (r: BundleTier)
        ensures
            r == *self,
    {
        BundleTier { connection_id: self.connection_id.clone(), slug: self.slug.clone() }
    }
}

pub fn copy_tier(o: &Option<BundleTier>) -> (r: Option<BundleTier>)
    ensures
        r == *o,
{
    match o {
        Some(t) => Some(t.copy()),
        None => None,
    }
}

impl BundleTiers {
    pub open spec fn at(self, tier: ModelProfile) -> Option<BundleTier> {
        match tier {
            ModelProfile::Judges => self.judges,
            ModelProfile::Fast => self.fast,
            ModelProfile::Code => self.code,
            ModelProfile::Powerful => self.powerful,
            ModelProfile::Local => self.local,
        }
    }

    /// Some tier is served by `connection`.
    pub open spec fn uses(self, connection: Seq<char>) -> bool {
        exists|t: ModelProfile|
            (#[trigger] self.at(t)) matches Some(b) && b.connection_id@ == connection
    }

    /// Some tier sends `connection` requests for `slug`.
    pub open spec fn routes(self, connection: Seq<char>, slug: Seq<char>) -> bool {
        exists|t: ModelProfile|
            (#[trigger] self.at(t)) matches Some(b) && b.connection_id@ == connection && b.slug@
                == slug
    }

    pub fn get(&self, tier: ModelProfile) -> (r: &Option<BundleTier>)
        ensures
            *r == self.at(tier),
    {
        match tier {
            ModelProfile::Judges => &self.judges,
            ModelProfile::Fast => &self.fast,
            ModelProfile::Code => &self.code,
            ModelProfile::Powerful => &self.powerful,
            ModelProfile::Local => &self.local,
        }
    }

    pub fn copy(&self) -> (r: BundleTiers)
        ensures
            r == *self,
    {
        BundleTiers {
            judges: copy_tier(&self.judges),
            fast: copy_tier(&self.fast),
            code: copy_tier(&self.code),
            powerful: copy_tier(&self.powerful),
            local: copy_tier(&self.local),
        }
    }

    fn tier_uses(&self, tier: ModelProfile, connection: &str) -> (r: bool)
        ensures
            r == (self.at(tier) matches Some(b) && b.connection_id@ == connection@),
    {
        match self.get(tier) {
            Some(b) => str_eq(b.connection_id.as_str(), connection),
            None => false,
        }
    }

    fn tier_routes(&self, tier: ModelProfile, connection: &str, slug: &str) -> (r: bool)
        ensures
            r == (self.at(tier) matches Some(b) && b.connection_id@ == connection@ && b.slug@
                == slug@),
    {
        match self.get(tier) {
            Some(b) => str_eq(b.connection_id.as_str(), connection) && str_eq(
                b.slug.as_str(),
                slug,
            ),
            None => false,
        }
    }

    /// Is some tier served by `connection`?
    pub fn any_uses(&self, connection: &str) -> (r: bool)
        ensures
            r == self.uses(connection@),
    {
        let r = self.tier_uses(ModelProfile::Judges, connection) || self.tier_uses(
            ModelProfile::Fast,
            connection,
        ) || self.tier_uses(ModelProfile::Code, connection) || self.tier_uses(
            ModelProfile::Powerful,
            connection,
        ) || self.tier_uses(ModelProfile::Local, connection);
        proof {
            if self.uses(connection@) {
                let t = choose|t: ModelProfile|
                    (#[trigger] self.at(t)) matches Some(b) && b.connection_id@ == connection@;
                match t {
                    ModelProfile::Judges => {},
                    ModelProfile::Fast => {},
                    ModelProfile::Code => {},
                    ModelProfile::Powerful => {},
                    ModelProfile::Local => {},
                }
            }
        }
        r
    }

    /// Does some tier send `connection` requests for `slug`?
    pub fn any_routes(&self, connection: &str, slug: &str) -> (r: bool)
        ensures
            r == self.routes(connection@, slug@),
    {
        let r = self.tier_routes(ModelProfile::Judges, connection, slug) || self.tier_routes(
            ModelProfile::Fast,
            connection,
            slug,
        ) || self.tier_routes(ModelProfile::Code, connection, slug) || self.tier_routes(
            ModelProfile::Powerful,
            connection,
            slug,
        ) || self.tier_routes(ModelProfile::Local, connection, slug);
        proof {
            if self.routes(connection@, slug@) {
                let t = choose|t: ModelProfile|
                    (#[trigger] self.at(t)) matches Some(b) && b.connection_id@ == connection@
                        && b.slug@ == slug@;
                match t {
                    ModelProfile::Judges => {},
                    ModelProfile::Fast => {},
                    ModelProfile::Code => {},
                    ModelProfile::Powerful => {},
                    ModelProfile::Local => {},
                }
            }
        }
        r
    }
}

impl Bundle {
    pub fn copy(&self) -> (r: Bundle)
        ensures
            r == *self,
    {
        Bundle {
            id: self.id.clone(),
            name: self.name.clone(),
            created_at: self.created_at,
            updated_at: self.updated_at,
            tiers: self.tiers.copy(),
        }
    }
}

/// The index of the connection `id`, or `-1`.
pub open spec fn provider_index(providers: Seq<ProviderEntry>, id: Seq<char>) -> int
    decreases providers.len(),
{
    if providers.len() == 0 {
        -1
    } else {
        let before = provider_index(providers.drop_last(), id);
        if before >= 0 {
            before
        } else if providers.last().id@ == id {
            providers.len() - 1
        } else {
            -1
        }
    }
}

/// The index of the bundle `id`, or `-1`.
pub open spec fn bundle_index(bundles: Seq<Bundle>, id: Seq<char>) -> int
    decreases bundles.len(),
{
    if bundles.len() == 0 {
        -1
    } else {
        let before = bundle_index(bundles.drop_last(), id);
        if before >= 0 {
            before
        } else if bundles.last().id@ == id {
            bundles.len() - 1
        } else {
            -1
        }
    }
}

/// The index of the first bundle of that name, or `-1`.
pub open spec fn bundle_named(bundles: Seq<Bundle>, name: Seq<char>) -> int
    decreases bundles.len(),
{
    if bundles.len() == 0 {
        -1
    } else {
        let before = bundle_named(bundles.drop_last(), name);
        if before >= 0 {
            before
        } else if bundles.last().name@ == name {
            bundles.len() - 1
        } else {
            -1
        }
    }
}

/// `provider_index` is the least index that holds the id.
pub proof fn lemma_provider_index(providers: Seq<ProviderEntry>, id: Seq<char>)
    ensures
        -1 <= provider_index(providers, id) < providers.len(),
        provider_index(providers, id) >= 0 ==> providers[provider_index(providers, id)].id@ == id,
        forall|i: int|
            0 <= i < providers.len() && (provider_index(providers, id) < 0 || i < provider_index(
                providers,
                id,
            )) ==> (#[trigger] providers[i]).id@ != id,
    decreases providers.len(),
{
    if providers.len() > 0 {
        let init = providers.drop_last();
        lemma_provider_index(init, id);
        assert forall|i: int|
            0 <= i < providers.len() && (provider_index(providers, id) < 0 || i < provider_index(
                providers,
                id,
            )) implies (#[trigger] providers[i]).id@ != id by {
            if i < init.len() {
                assert(init[i] == providers[i]);
            }
        }
    }
}

/// `bundle_index` is the least index that holds the id.
pub proof fn lemma_bundle_index(bundles: Seq<Bundle>, id: Seq<char>)
    ensures
        -1 <= bundle_index(bundles, id) < bundles.len(),
        bundle_index(bundles, id) >= 0 ==> bundles[bundle_index(bundles, id)].id@ == id,
        forall|i: int|
            0 <= i < bundles.len() && (bundle_index(bundles, id) < 0 || i < bundle_index(
                bundles,
                id,
            )) ==> (#[trigger] bundles[i]).id@ != id,
    decreases bundles.len(),
{
    if bundles.len() > 0 {
        let init = bundles.drop_last();
        lemma_bundle_index(init, id);
        assert forall|i: int|
            0 <= i < bundles.len() && (bundle_index(bundles, id) < 0 || i < bundle_index(
                bundles,
                id,
            )) implies (#[trigger] bundles[i]).id@ != id by {
            if i < init.len() {
                assert(init[i] == bundles[i]);
            }
        }
    }
}

/// `bundle_named` is the least index that holds the name.
pub proof fn lemma_bundle_named(bundles: Seq<Bundle>, name: Seq<char>)
    ensures
        -1 <= bundle_named(bundles, name) < bundles.len(),
        bundle_named(bundles, name) >= 0 ==> bundles[bundle_named(bundles, name)].name@ == name,
        forall|i: int|
            0 <= i < bundles.len() && (bundle_named(bundles, name) < 0 || i < bundle_named(
                bundles,
                name,
            )) ==> (#[trigger] bundles[i]).name@ != name,
    decreases bundles.len(),
{
    if bundles.len() > 0 {
        let init = bundles.drop_last();
        lemma_bundle_named(init, name);
        assert forall|i: int|
            0 <= i < bundles.len() && (bundle_named(bundles, name) < 0 || i < bundle_named(
                bundles,
                name,
            )) implies (#[trigger] bundles[i]).name@ != name by {
            if i < init.len() {
                assert(init[i] == bundles[i]);
            }
        }
    }
}

impl ModelsConfig {
    /// Every connection id and every bundle id occurs once.
    pub open spec fn wf(self) -> bool {
        &&& forall|i: int, j: int|
            0 <= i < j < self.providers@.len() ==> (#[trigger] self.providers@[i]).id@ != (
            #[trigger] self.providers@[j]).id@
        &&& forall|i: int, j: int|
            0 <= i < j < self.bundles@.len() ==> (#[trigger] self.bundles@[i]).id@ != (
            #[trigger] self.bundles@[j]).id@
    }

    /// The connection `id`.
    pub open spec fn provider_at(self, id: Seq<char>) -> Option<ProviderConfig> {
        let i = provider_index(self.providers@, id);
        if i >= 0 {
            Some(self.providers@[i].config)
        } else {
            None
        }
    }

    /// The connection `id` is configured.
    pub open spec fn has_provider(self, id: Seq<char>) -> bool {
        provider_index(self.providers@, id) >= 0
    }

    /// The bundle `id`.
    pub open spec fn bundle_at(self, id: Seq<char>) -> Option<Bundle> {
        let i = bundle_index(self.bundles@, id);
        if i >= 0 {
            Some(self.bundles@[i])
        } else {
            None
        }
    }

    /// The bundle that the active assignment names, if it exists.
    pub open spec fn active_bundle_value(self) -> Option<Bundle> {
        match self.active_bundle {
            Some(id) => self.bundle_at(id@),
            None => None,
        }
    }

    pub fn find_provider(&self, id: &str) -> (r: Option<usize>)
        ensures
            match r {
                Some(i) => i < self.providers@.len() && i == provider_index(self.providers@, id@),
                None => provider_index(self.providers@, id@) < 0,
            },
    {
        let ghost all = self.providers@;
        let mut i: usize = 0;
        while i < self.providers.len()
            invariant
                all == self.providers@,
                i <= all.len(),
                forall|j: int| 0 <= j < i ==> (#[trigger] all[j]).id@ != id@,
            decreases all.len() - i,
        {
            if str_eq(self.providers[i].id.as_str(), id) {
                proof {
                    lemma_provider_index(all, id@);
                }
                return Some(i);
            }
            i += 1;
        }
        proof {
            lemma_provider_index(all, id@);
        }
        None
    }

    pub fn find_bundle(&self, id: &str) -> (r: Option<usize>)
        ensures
            match r {
                Some(i) => i < self.bundles@.len() && i == bundle_index(self.bundles@, id@),
                None => bundle_index(self.bundles@, id@) < 0,
            },
    {
        let ghost all = self.bundles@;
        let mut i: usize = 0;
        while i < self.bundles.len()
            invariant
                all == self.bundles@,
                i <= all.len(),
                forall|j: int| 0 <= j < i ==> (#[trigger] all[j]).id@ != id@,
            decreases all.len() - i,
        {
            if str_eq(self.bundles[i].id.as_str(), id) {
                proof {
                    lemma_bundle_index(all, id@);
                }
                return Some(i);
            }
            i += 1;
        }
        proof {
            lemma_bundle_index(all, id@);
        }
        None
    }

    pub fn find_bundle_named(&self, name: &str) -> (r: Option<usize>)
        ensures
            match r {
                Some(i) => i < self.bundles@.len() && i == bundle_named(self.bundles@, name@),
                None => bundle_named(self.bundles@, name@) < 0,
            },
    {
        let ghost all = self.bundles@;
        let mut i: usize = 0;
        while i < self.bundles.len()
            invariant
                all == self.bundles@,
                i <= all.len(),
                forall|j: int| 0 <= j < i ==> (#[trigger] all[j]).name@ != name@,
            decreases all.len() - i,
        {
            if str_eq(self.bundles[i].name.as_str(), name) {
                proof {
                    lemma_bundle_named(all, name@);
                }
                return Some(i);
            }
            i += 1;
        }
        proof {
            lemma_bundle_named(all, name@);
        }
        None
    }

    /// The connection `id`, if it is configured.
    pub fn provider(&self, id: &str) -> (r: Option<&ProviderConfig>)
        ensures
            r is Some == self.has_provider(id@),
            r matches Some(c) ==> self.provider_at(id@) == Some(*c),
    {
        match self.find_provider(id) {
            Some(i) => Some(&self.providers[i].config),
            None => None,
        }
    }

    /// The active bundle, if its assignment names one that exists.
    pub fn current_bundle(&self) -> (r: Option<&Bundle>)
        ensures
            r is Some == self.active_bundle_value() is Some,
            r matches Some(b) ==> self.active_bundle_value() == Some(*b),
    {
        match &self.active_bundle {
            Some(id) => match self.find_bundle(id.as_str()) {
                Some(i) => Some(&self.bundles[i]),
                None => None,
            },
            None => None,
        }
    }
}

// ---------------------------------------------------------------------------
// What looking things up promises
// ---------------------------------------------------------------------------

/// A tier names a model exactly where its own field holds it, and a bundle is
/// served by a connection exactly where some field of it is.
pub proof fn tiers_are_their_fields(
    models: TierModels,
    tiers: BundleTiers,
    connection: Seq<char>,
    slug: Seq<char>,
)
    ensures
        models.at(ModelProfile::Judges) == models.judges,
        models.at(ModelProfile::Fast) == models.fast,
        models.at(ModelProfile::Code) == models.code,
        models.at(ModelProfile::Powerful) == models.powerful,
        models.at(ModelProfile::Local) == models.local,
        tiers.at(ModelProfile::Judges) == tiers.judges,
        tiers.at(ModelProfile::Fast) == tiers.fast,
        tiers.at(ModelProfile::Code) == tiers.code,
        tiers.at(ModelProfile::Powerful) == tiers.powerful,
        tiers.at(ModelProfile::Local) == tiers.local,
        forall|t: ModelProfile|
            (#[trigger] models.at(t)) matches Some(s) && s@ == slug ==> models.names(slug),
        models.names(slug) ==> exists|t: ModelProfile|
            (#[trigger] models.at(t)) matches Some(s) && s@ == slug,
        forall|t: ModelProfile|
            (#[trigger] tiers.at(t)) matches Some(b) && b.connection_id@ == connection
                ==> tiers.uses(connection),
        tiers.uses(connection) ==> exists|t: ModelProfile|
            (#[trigger] tiers.at(t)) matches Some(b) && b.connection_id@ == connection,
        forall|t: ModelProfile|
            (#[trigger] tiers.at(t)) matches Some(b) && b.connection_id@ == connection && b.slug@
                == slug ==> tiers.routes(connection, slug),
        tiers.routes(connection, slug) ==> exists|t: ModelProfile|
            (#[trigger] tiers.at(t)) matches Some(b) && b.connection_id@ == connection && b.slug@
                == slug,
{
}

/// A connection is looked up by its id: the first entry under it is the one
/// that is used, and one that has no entry is not configured.
pub proof fn connections_are_looked_up_by_id(cfg: ModelsConfig, id: Seq<char>, i: int)
    requires
        0 <= i < cfg.providers@.len(),
        forall|j: int| 0 <= j < i ==> (#[trigger] cfg.providers@[j]).id@ != id,
    ensures
        cfg.providers@[i].id@ == id ==> cfg.provider_at(id) == Some(cfg.providers@[i].config),
        cfg.has_provider(id) <==> cfg.provider_at(id) is Some,
        cfg.has_provider(id) ==> exists|j: int|
            i <= j < cfg.providers@.len() && (#[trigger] cfg.providers@[j]).id@ == id,
{
    lemma_provider_index(cfg.providers@, id);
    if cfg.has_provider(id) {
        let k = provider_index(cfg.providers@, id);
        assert(cfg.providers@[k].id@ == id);
    }
}

/// A connection that no entry is for is absent.
pub proof fn unknown_connections_are_absent(cfg: ModelsConfig, id: Seq<char>)
    requires
        forall|j: int| 0 <= j < cfg.providers@.len() ==> (#[trigger] cfg.providers@[j]).id@ != id,
    ensures
        cfg.provider_at(id) is None,
        !cfg.has_provider(id),
{
    lemma_provider_index(cfg.providers@, id);
}

/// The active bundle is the first one under the id that the assignment names.
/// Without an assignment, or where no bundle has that id, there is none.
pub proof fn the_assignment_names_the_bundle(cfg: ModelsConfig, id: String, i: int)
    requires
        cfg.active_bundle == Some(id),
    ensures
        0 <= i < cfg.bundles@.len() && cfg.bundles@[i].id@ == id@ && (forall|j: int|
            0 <= j < i ==> (#[trigger] cfg.bundles@[j]).id@ != id@)
            ==> cfg.active_bundle_value() == Some(cfg.bundles@[i]) && cfg.bundle_at(id@) == Some(
            cfg.bundles@[i],
        ),
        (forall|j: int|
            0 <= j < cfg.bundles@.len() ==> (#[trigger] cfg.bundles@[j]).id@ != id@)
            ==> cfg.active_bundle_value() is None && cfg.bundle_at(id@) is None,
        (ModelsConfig { active_bundle: None, ..cfg }).active_bundle_value() is None,
{
    lemma_bundle_index(cfg.bundles@, id@);
}

} // verus!
