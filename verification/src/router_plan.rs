//! The plan of a router: which provider instances to construct, and which of
//! them serves each tier.

use vstd::prelude::*;
use vstd::string::*;
use crate::models::{
    Bundle, BundleTier, ModelProfile, ModelsConfig, ProviderConfig, TierModels, no_tiers,
};
use crate::providers::{
    base_url_default, default_base_url, default_base_url_for, default_model_for, startup_base_url,
    startup_model,
};
use crate::routing::{
    Adapter, EffectiveProviderTarget, EnvKey, InstanceModel, ProviderInstance, SlugQuirk,
    active_provider_of, build_provider_instance, bundle_api_key, bundle_key_for, bundle_pick,
    derive_primary_connection_pair, family_for, first_filled, instance_of, key_for,
    pick_bundle_tier, primary_order, resolve_active_provider, resolve_api_key_for,
    uses_shared_router,
};
use crate::text::{cat3, owned, pair_views, str_eq};

verus! {

/// An instance under the key by which tiers refer to it.
#[derive(Clone, Debug, PartialEq, Eq)]
pub struct InstanceEntry {
    pub key: String,
    pub instance: ProviderInstance,
}

/// Which instances serve a tier.
#[derive(Clone, Debug, PartialEq, Eq)]
pub struct ProfileRoute {
    pub tier: ModelProfile,
    pub description: String,
    pub priority: Vec<String>,
}

/// What to construct a router from.
#[derive(Clone, Debug, PartialEq, Eq)]
pub struct RouterPlan {
    pub instances: Vec<InstanceEntry>,
    pub profiles: Vec<ProfileRoute>,
}

/// The model of a router plan: the instances, and for each tier its
/// description and its keys.
pub struct PlanModel {
    pub instances: Seq<(Seq<char>, InstanceModel)>,
    pub profiles: Seq<(ModelProfile, Seq<char>, Seq<Seq<char>>)>,
}

pub open spec fn entry_views(v: Seq<InstanceEntry>) -> Seq<(Seq<char>, InstanceModel)> {
    v.map_values(|e: InstanceEntry| (e.key@, e.instance@))
}

pub open spec fn route_view(r: ProfileRoute) -> (ModelProfile, Seq<char>, Seq<Seq<char>>) {
    (r.tier, r.description@, r.priority.deep_view())
}

pub open spec fn route_views(v: Seq<ProfileRoute>) -> Seq<(ModelProfile, Seq<char>, Seq<Seq<char>>)> {
    v.map_values(|r: ProfileRoute| route_view(r))
}

impl View for RouterPlan {
    type V = PlanModel;

    open spec fn view(&self) -> PlanModel {
        PlanModel {
            instances: entry_views(self.instances@),
            profiles: route_views(self.profiles@),
        }
    }
}

/// The index of the instance under `key`, or `-1`.
pub open spec fn key_index(v: Seq<(Seq<char>, InstanceModel)>, key: Seq<char>, i: int) -> int
    decreases v.len() - i,
{
    if i < 0 || i >= v.len() {
        -1
    } else if v[i].0 == key {
        i
    } else {
        key_index(v, key, i + 1)
    }
}

/// The keys of the route for `tier`, from index `i` on; none without a route.
pub open spec fn route_keys(
    v: Seq<(ModelProfile, Seq<char>, Seq<Seq<char>>)>,
    tier: ModelProfile,
    i: int,
) -> Seq<Seq<char>>
    decreases v.len() - i,
{
    if i < 0 || i >= v.len() {
        Seq::empty()
    } else if v[i].0 == tier {
        v[i].2
    } else {
        route_keys(v, tier, i + 1)
    }
}

proof fn lemma_key_index(v: Seq<(Seq<char>, InstanceModel)>, key: Seq<char>, i: int)
    requires
        0 <= i <= v.len(),
    ensures
        key_index(v, key, i) == -1 || (i <= key_index(v, key, i) < v.len() && v[key_index(
            v,
            key,
            i,
        )].0 == key),
        key_index(v, key, i) == -1 ==> forall|j: int|
            i <= j < v.len() ==> (#[trigger] v[j]).0 != key,
    decreases v.len() - i,
{
    if i < v.len() && v[i].0 != key {
        lemma_key_index(v, key, i + 1);
    }
}

proof fn lemma_key_index_found(v: Seq<(Seq<char>, InstanceModel)>, key: Seq<char>, i: int, j: int)
    requires
        0 <= i <= j < v.len(),
        v[j].0 == key,
    ensures
        i <= key_index(v, key, i) <= j,
    decreases j - i,
{
    if v[i].0 != key {
        lemma_key_index_found(v, key, i + 1, j);
    }
}

fn copy_strings(v: &Vec<String>) -> (r: Vec<String>)
    ensures
        r.deep_view() == v.deep_view(),
{
    let mut out: Vec<String> = Vec::new();
    let mut i: usize = 0;
    while i < v.len()
        invariant
            i <= v@.len(),
            out.deep_view() == v.deep_view().take(i as int),
        decreases v@.len() - i,
    {
        let ghost before = out.deep_view();
        out.push(v[i].clone());
        proof {
            assert(out.deep_view() =~= before.push(v[i as int]@));
            assert(v.deep_view().take(i + 1) =~= v.deep_view().take(i as int).push(v[i as int]@));
        }
        i += 1;
    }
    proof {
        assert(v.deep_view().take(i as int) =~= v.deep_view());
    }
    out
}

impl RouterPlan {
    /// Each tier has exactly one key.
    pub open spec fn wf(self) -> bool {
        forall|i: int|
            0 <= i < self.profiles@.len() ==> (#[trigger] self.profiles@[i]).priority@.len() == 1
    }

    fn new() -> (r: RouterPlan)
        ensures
            r.wf(),
            r@ == empty_plan(),
    {
        let r = RouterPlan { instances: Vec::new(), profiles: Vec::new() };
        proof {
            assert(r@.instances =~= empty_plan().instances);
            assert(r@.profiles =~= empty_plan().profiles);
        }
        r
    }

    fn position(&self, key: &str) -> (r: Option<usize>)
        ensures
            match r {
                Some(i) => i < self.instances@.len() && i == key_index(self@.instances, key@, 0),
                None => key_index(self@.instances, key@, 0) == -1,
            },
    {
        let ghost all = self@.instances;
        let mut i: usize = 0;
        while i < self.instances.len()
            invariant
                all == self@.instances,
                i <= self.instances@.len(),
                key_index(all, key@, 0) == key_index(all, key@, i as int),
            decreases self.instances@.len() - i,
        {
            proof {
                assert(all[i as int].0 == self.instances@[i as int].key@);
            }
            if str_eq(self.instances[i].key.as_str(), key) {
                return Some(i);
            }
            i += 1;
        }
        None
    }

    /// The instance under `key` is `instance` from now on.
    fn put(&mut self, key: &str, instance: ProviderInstance)
        requires
            old(self).wf(),
        ensures
            final(self).wf(),
            final(self).profiles == old(self).profiles,
            final(self)@.instances == put_instance(old(self)@.instances, key@, instance@),
    {
        let ghost before = self@.instances;
        let entry = InstanceEntry { key: owned(key), instance };
        match self.position(key) {
            Some(i) => {
                self.instances.set(i, entry);
                proof {
                    assert(self@.instances =~= before.update(i as int, (key@, instance@)));
                }
            },
            None => {
                self.instances.push(entry);
                proof {
                    assert(self@.instances =~= before.push((key@, instance@)));
                }
            },
        }
    }

    fn route(&mut self, tier: ModelProfile, description: String, key: &str)
        requires
            old(self).wf(),
        ensures
            final(self).wf(),
            final(self).instances == old(self).instances,
            final(self)@.profiles == old(self)@.profiles.push((tier, description@, seq![key@])),
    {
        let ghost before = self@.profiles;
        let mut priority: Vec<String> = Vec::new();
        priority.push(owned(key));
        self.profiles.push(ProfileRoute { tier, description, priority });
        proof {
            assert(priority.deep_view() =~= seq![key@]);
            assert(self@.profiles =~= before.push((tier, description@, seq![key@])));
        }
    }

    /// The keys of the instances that serve `tier`, in order of preference.
    pub fn profile_provider_keys(&self, tier: ModelProfile) -> (r: Vec<String>)
        ensures
            r.deep_view() == route_keys(self@.profiles, tier, 0),
    {
        let ghost all = self@.profiles;
        let mut i: usize = 0;
        while i < self.profiles.len()
            invariant
                all == self@.profiles,
                i <= self.profiles@.len(),
                route_keys(all, tier, 0) == route_keys(all, tier, i as int),
            decreases self.profiles@.len() - i,
        {
            proof {
                assert(all[i as int] == route_view(self.profiles@[i as int]));
            }
            if self.profiles[i].tier == tier {
                return copy_strings(&self.profiles[i].priority);
            }
            i += 1;
        }
        let none: Vec<String> = Vec::new();
        proof {
            assert(none.deep_view() =~= Seq::<Seq<char>>::empty());
        }
        none
    }
}

pub open spec fn empty_plan() -> PlanModel {
    PlanModel { instances: Seq::empty(), profiles: Seq::empty() }
}

/// The instances once the one under `key` is `instance`.
pub open spec fn put_instance(
    v: Seq<(Seq<char>, InstanceModel)>,
    key: Seq<char>,
    instance: InstanceModel,
) -> Seq<(Seq<char>, InstanceModel)> {
    let i = key_index(v, key, 0);
    if i >= 0 {
        v.update(i, (key, instance))
    } else {
        v.push((key, instance))
    }
}

/// The name of a tier in descriptions.
pub open spec fn tier_name(tier: ModelProfile) -> Seq<char> {
    match tier {
        ModelProfile::Judges => "Judges"@,
        ModelProfile::Fast => "Fast"@,
        ModelProfile::Code => "Code"@,
        ModelProfile::Powerful => "Powerful"@,
        ModelProfile::Local => "Local"@,
    }
}

/// The name of a tier in descriptions.
pub fn tier_label(tier: ModelProfile) -> (r: &'static str)
    ensures
        r@ == tier_name(tier),
{
    match tier {
        ModelProfile::Judges => "Judges",
        ModelProfile::Fast => "Fast",
        ModelProfile::Code => "Code",
        ModelProfile::Powerful => "Powerful",
        ModelProfile::Local => "Local",
    }
}

/// The key of the instance for a connection and a model.
pub open spec fn instance_key(connection: Seq<char>, slug: Seq<char>) -> Seq<char> {
    connection + "."@ + slug
}

// ---------------------------------------------------------------------------
// One connection
// ---------------------------------------------------------------------------

/// The override in force: an empty one is none.
pub open spec fn override_in_force(slug: Option<Seq<char>>) -> Option<Seq<char>> {
    match slug {
        Some(s) => if s.len() > 0 {
            Some(s)
        } else {
            None
        },
        None => None,
    }
}

/// The model that serves a tier: the override for every tier, else the one
/// set for the tier, else the default model.
pub open spec fn slug_for_tier(
    tiers: TierModels,
    model: Seq<char>,
    override_slug: Option<Seq<char>>,
    tier: ModelProfile,
) -> Seq<char> {
    match override_in_force(override_slug) {
        Some(s) => s,
        None => match override_in_force(tiers.at(tier).deep_view()) {
            Some(s) => s,
            None => model,
        },
    }
}

/// What all tiers of a connection share.
pub struct Connection<'a> {
    pub provider_id: &'a str,
    pub base_url: &'a str,
    pub model: &'a str,
    pub api_key: &'a Option<String>,
    pub supports_vision: bool,
    pub supports_documents: bool,
    pub family: &'a str,
    pub tier_models: &'a TierModels,
    pub override_slug: Option<&'a str>,
    pub quirks: &'a Vec<SlugQuirk>,
}

/// The model of a connection.
pub struct ConnectionModel {
    pub provider_id: Seq<char>,
    pub base_url: Seq<char>,
    pub model: Seq<char>,
    pub api_key: Option<Seq<char>>,
    pub supports_vision: bool,
    pub supports_documents: bool,
    pub family: Seq<char>,
    pub tier_models: TierModels,
    pub override_slug: Option<Seq<char>>,
    pub quirks: Seq<SlugQuirk>,
}

impl ConnectionModel {
    pub open spec fn slug_at(self, tier: ModelProfile) -> Seq<char> {
        slug_for_tier(self.tier_models, self.model, self.override_slug, tier)
    }

    pub open spec fn instance_at(self, tier: ModelProfile) -> InstanceModel {
        let slug = self.slug_at(tier);
        instance_of(
            self.provider_id,
            self.base_url,
            slug,
            self.api_key,
            self.supports_vision,
            self.supports_documents,
            family_for(self.quirks, self.provider_id, slug, self.family),
        )
    }

    /// The plan once `tier` is served: its instance is built unless another
    /// tier has the same model.
    pub open spec fn step(self, plan: PlanModel, tier: ModelProfile) -> PlanModel {
        let key = instance_key(self.provider_id, self.slug_at(tier));
        PlanModel {
            instances: if key_index(plan.instances, key, 0) >= 0 {
                plan.instances
            } else {
                plan.instances.push((key, self.instance_at(tier)))
            },
            profiles: plan.profiles.push(
                (tier, self.provider_id + " "@ + tier_name(tier), seq![key]),
            ),
        }
    }

    /// The plan that serves the four cloud tiers.
    pub open spec fn plan(self) -> PlanModel {
        self.step(
            self.step(
                self.step(self.step(empty_plan(), ModelProfile::Judges), ModelProfile::Fast),
                ModelProfile::Code,
            ),
            ModelProfile::Powerful,
        )
    }
}

impl<'a> View for Connection<'a> {
    type V = ConnectionModel;

    open spec fn view(&self) -> ConnectionModel {
        ConnectionModel {
            provider_id: self.provider_id@,
            base_url: self.base_url@,
            model: self.model@,
            api_key: self.api_key.deep_view(),
            supports_vision: self.supports_vision,
            supports_documents: self.supports_documents,
            family: self.family@,
            tier_models: *self.tier_models,
            override_slug: self.override_slug.deep_view(),
            quirks: self.quirks@,
        }
    }
}

impl<'a> Connection<'a> {
    fn slug(&self, tier: ModelProfile) -> (r: String)
        ensures
            r@ == self@.slug_at(tier),
    {
        if let Some(s) = self.override_slug {
            if !s.is_empty() {
                return owned(s);
            }
        }
        if let Some(s) = self.tier_models.get(tier) {
            if !s.as_str().is_empty() {
                return s.clone();
            }
        }
        owned(self.model)
    }

    fn add_tier(&self, plan: &mut RouterPlan, tier: ModelProfile)
        requires
            old(plan).wf(),
        ensures
            final(plan).wf(),
            final(plan)@ == self@.step(old(plan)@, tier),
    {
        let slug = self.slug(tier);
        let key = cat3(self.provider_id, ".", slug.as_str());
        if plan.position(key.as_str()).is_none() {
            let instance = build_provider_instance(
                self.provider_id,
                self.base_url,
                slug.as_str(),
                self.api_key,
                self.supports_vision,
                self.supports_documents,
                self.family,
                self.quirks,
            );
            plan.put(key.as_str(), instance);
        }
        let description = cat3(self.provider_id, " ", tier_label(tier));
        plan.route(tier, description, key.as_str());
    }
}

/// The plan of a router for one connection.
pub fn build_router_for_provider(connection: &Connection) -> (r: RouterPlan)
    ensures
        r.wf(),
        r@ == connection@.plan(),
{
    let mut plan = RouterPlan::new();
    connection.add_tier(&mut plan, ModelProfile::Judges);
    connection.add_tier(&mut plan, ModelProfile::Fast);
    connection.add_tier(&mut plan, ModelProfile::Code);
    connection.add_tier(&mut plan, ModelProfile::Powerful);
    plan
}

/// The route of a tier in the plan of one connection.
pub proof fn tier_is_served_by_its_slug(c: ConnectionModel, tier: ModelProfile)
    requires
        tier != ModelProfile::Local,
    ensures
        route_keys(c.plan().profiles, tier, 0) == seq![
            instance_key(c.provider_id, c.slug_at(tier)),
        ],
{
    reveal_with_fuel(route_keys, 6);
}

/// A frozen model serves every tier, whatever the tiers are set to.
pub proof fn override_serves_every_tier(c: ConnectionModel, slug: Seq<char>, tier: ModelProfile)
    requires
        c.override_slug == Some(slug),
        slug.len() > 0,
        tier != ModelProfile::Local,
    ensures
        route_keys(c.plan().profiles, tier, 0) == seq![instance_key(c.provider_id, slug)],
{
    tier_is_served_by_its_slug(c, tier);
}

/// An empty override is no override.
pub proof fn empty_override_changes_nothing(c: ConnectionModel, tier: ModelProfile)
    requires
        c.override_slug == Some(Seq::<char>::empty()),
    ensures
        c.slug_at(tier) == slug_for_tier(c.tier_models, c.model, None, tier),
{
}

/// Every tier of the plan has exactly one key, and it leads to an instance.
pub open spec fn routes_lead_somewhere(plan: PlanModel) -> bool {
    forall|i: int|
        0 <= i < plan.profiles.len() ==> (#[trigger] plan.profiles[i]).2.len() == 1 && key_index(
            plan.instances,
            plan.profiles[i].2[0],
            0,
        ) >= 0
}

/// No two instances of the plan share a key.
pub open spec fn keys_are_distinct(plan: PlanModel) -> bool {
    forall|i: int, j: int|
        0 <= i < j < plan.instances.len() ==> (#[trigger] plan.instances[i]).0 != (
        #[trigger] plan.instances[j]).0
}

proof fn lemma_put(v: Seq<(Seq<char>, InstanceModel)>, key: Seq<char>, instance: InstanceModel)
    ensures
        key_index(put_instance(v, key, instance), key, 0) >= 0,
        forall|k: Seq<char>|
            key_index(v, k, 0) >= 0 ==> #[trigger] key_index(
                put_instance(v, key, instance),
                k,
                0,
            ) >= 0,
{
    let w = put_instance(v, key, instance);
    lemma_key_index(v, key, 0);
    if key_index(v, key, 0) >= 0 {
        lemma_key_index_found(w, key, 0, key_index(v, key, 0));
    } else {
        lemma_key_index_found(w, key, 0, v.len() as int);
    }
    assert forall|k: Seq<char>| key_index(v, k, 0) >= 0 implies #[trigger] key_index(w, k, 0)
        >= 0 by {
        lemma_key_index(v, k, 0);
        lemma_key_index_found(w, k, 0, key_index(v, k, 0));
    }
}

proof fn lemma_put_distinct(
    plan: PlanModel,
    key: Seq<char>,
    instance: InstanceModel,
    profiles: Seq<(ModelProfile, Seq<char>, Seq<Seq<char>>)>,
)
    requires
        keys_are_distinct(plan),
    ensures
        keys_are_distinct(
            PlanModel { instances: put_instance(plan.instances, key, instance), profiles },
        ),
{
    lemma_key_index(plan.instances, key, 0);
}

proof fn lemma_step(c: ConnectionModel, plan: PlanModel, tier: ModelProfile)
    requires
        routes_lead_somewhere(plan),
        keys_are_distinct(plan),
    ensures
        routes_lead_somewhere(c.step(plan, tier)),
        keys_are_distinct(c.step(plan, tier)),
{
    let key = instance_key(c.provider_id, c.slug_at(tier));
    let next = c.step(plan, tier);
    if key_index(plan.instances, key, 0) < 0 {
        lemma_key_index(plan.instances, key, 0);
        assert(next.instances == put_instance(plan.instances, key, c.instance_at(tier)));
        lemma_put(plan.instances, key, c.instance_at(tier));
        lemma_put_distinct(plan, key, c.instance_at(tier), next.profiles);
    }
    assert forall|i: int| 0 <= i < next.profiles.len() implies (
    #[trigger] next.profiles[i]).2.len() == 1 && key_index(
        next.instances,
        next.profiles[i].2[0],
        0,
    ) >= 0 by {
        if i < plan.profiles.len() {
            assert(next.profiles[i] == plan.profiles[i]);
        }
    }
}

/// Every tier of a connection's plan leads to an instance, and models that
/// several tiers share are built once.
pub proof fn provider_plan_is_closed(c: ConnectionModel)
    ensures
        routes_lead_somewhere(c.plan()),
        keys_are_distinct(c.plan()),
{
    let p0 = empty_plan();
    lemma_step(c, p0, ModelProfile::Judges);
    let p1 = c.step(p0, ModelProfile::Judges);
    lemma_step(c, p1, ModelProfile::Fast);
    let p2 = c.step(p1, ModelProfile::Fast);
    lemma_step(c, p2, ModelProfile::Code);
    let p3 = c.step(p2, ModelProfile::Code);
    lemma_step(c, p3, ModelProfile::Powerful);
}

/// What the configuration and the catalog say of a connection's base URL.
pub open spec fn configured_base_url(cfg: ModelsConfig, id: Seq<char>) -> Seq<char> {
    match cfg.provider_at(id) {
        Some(c) => match c.endpoint {
            Some(e) => e@,
            None => startup_base_url(id),
        },
        None => startup_base_url(id),
    }
}

/// What the configuration and the catalog say of a connection's model.
pub open spec fn configured_model(cfg: ModelsConfig, id: Seq<char>) -> Seq<char> {
    match cfg.provider_at(id) {
        Some(c) => if c.default_model@.len() > 0 {
            c.default_model@
        } else {
            startup_model(id)
        },
        None => startup_model(id),
    }
}

/// A connection as it is configured; the frozen model, if there is one,
/// serves every tier.
pub open spec fn configured_connection(
    id: Seq<char>,
    cfg: ModelsConfig,
    override_slug: Option<Seq<char>>,
    env: Seq<EnvKey>,
    quirks: Seq<SlugQuirk>,
) -> ConnectionModel {
    let p = cfg.provider_at(id);
    ConnectionModel {
        provider_id: id,
        base_url: configured_base_url(cfg, id),
        model: configured_model(cfg, id),
        api_key: key_for(p, env, id),
        supports_vision: p matches Some(c) && c.supports_vision,
        supports_documents: p matches Some(c) && c.supports_documents,
        family: match p {
            Some(c) => c.family@,
            None => "Default"@,
        },
        tier_models: match p {
            Some(c) => c.tier_models,
            None => no_tiers(),
        },
        override_slug,
        quirks,
    }
}

/// The plan of a router for a configured connection, and the model that
/// stands for it.
pub fn build_router_for_provider_from_config_with_pinned_slug(
    provider_id: &str,
    config: &ModelsConfig,
    pinned_slug: Option<&str>,
    env: &Vec<EnvKey>,
    quirks: &Vec<SlugQuirk>,
) -> (r: (RouterPlan, String))
    ensures
        r.0.wf(),
        r.0@ == configured_connection(
            provider_id@,
            *config,
            pinned_slug.deep_view(),
            env@,
            quirks@,
        ).plan(),
        r.1@ == match override_in_force(pinned_slug.deep_view()) {
            Some(s) => s,
            None => configured_model(*config, provider_id@),
        },
{
    let cfg = config.provider(provider_id);
    let base_url: String = match cfg {
        Some(c) => match &c.endpoint {
            Some(e) => e.clone(),
            None => owned(default_base_url_for(provider_id)),
        },
        None => owned(default_base_url_for(provider_id)),
    };
    let model: String = match cfg {
        Some(c) => if c.default_model.as_str().is_empty() {
            default_model_for(provider_id)
        } else {
            c.default_model.clone()
        },
        None => default_model_for(provider_id),
    };
    let api_key = resolve_api_key_for(provider_id, cfg, env);
    let no_tiers = TierModels::empty();
    let connection = match cfg {
        Some(c) => Connection {
            provider_id,
            base_url: base_url.as_str(),
            model: model.as_str(),
            api_key: &api_key,
            supports_vision: c.supports_vision,
            supports_documents: c.supports_documents,
            family: c.family.as_str(),
            tier_models: &c.tier_models,
            override_slug: pinned_slug,
            quirks,
        },
        None => Connection {
            provider_id,
            base_url: base_url.as_str(),
            model: model.as_str(),
            api_key: &api_key,
            supports_vision: false,
            supports_documents: false,
            family: "Default",
            tier_models: &no_tiers,
            override_slug: pinned_slug,
            quirks,
        },
    };
    let plan = build_router_for_provider(&connection);
    let primary = match pinned_slug {
        Some(s) => if s.is_empty() {
            model.clone()
        } else {
            owned(s)
        },
        None => model.clone(),
    };
    (plan, primary)
}

/// The plan of a router for a configured connection with nothing frozen.
pub fn build_router_for_provider_from_config(
    provider_id: &str,
    config: &ModelsConfig,
    env: &Vec<EnvKey>,
    quirks: &Vec<SlugQuirk>,
) -> (r: (RouterPlan, String))
    ensures
        r.0.wf(),
        r.0@ == configured_connection(provider_id@, *config, None, env@, quirks@).plan(),
        r.1@ == configured_model(*config, provider_id@),
{
    build_router_for_provider_from_config_with_pinned_slug(provider_id, config, None, env, quirks)
}

// ---------------------------------------------------------------------------
// A bundle
// ---------------------------------------------------------------------------

/// The text by which connection and model are told apart.
pub open spec fn pair_key(connection: Seq<char>, slug: Seq<char>) -> Seq<char> {
    connection + "::"@ + slug
}

/// A plan under way: the pairs whose instance has been built, with its key.
pub struct BundleBuild {
    pub plan: PlanModel,
    pub built: Seq<(Seq<char>, Seq<char>)>,
}

/// The key under which the pair was built, from index `i` on.
pub open spec fn built_key(v: Seq<(Seq<char>, Seq<char>)>, pair: Seq<char>, i: int) -> Option<
    Seq<char>,
>
    decreases v.len() - i,
{
    if i < 0 || i >= v.len() {
        None
    } else if v[i].0 == pair {
        Some(v[i].1)
    } else {
        built_key(v, pair, i + 1)
    }
}

/// The instance for one pick of a bundle.
pub open spec fn bundle_instance(
    t: BundleTier,
    p: ProviderConfig,
    env: Seq<EnvKey>,
    quirks: Seq<SlugQuirk>,
) -> InstanceModel {
    let id = t.connection_id@;
    instance_of(
        id,
        match p.endpoint {
            Some(e) => e@,
            None => base_url_default(id),
        },
        t.slug@,
        bundle_key_for(p, env, id),
        p.supports_vision,
        p.supports_documents,
        family_for(quirks, id, t.slug@, p.family@),
    )
}

/// The build once `tier` is served. A tier that the bundle cannot fill, or
/// whose connection does not exist, is left out.
pub open spec fn bundle_step(
    b: BundleBuild,
    bundle: Bundle,
    cfg: ModelsConfig,
    env: Seq<EnvKey>,
    quirks: Seq<SlugQuirk>,
    tier: ModelProfile,
) -> BundleBuild {
    match bundle_pick(bundle.tiers, tier) {
        Some(t) => match cfg.provider_at(t.connection_id@) {
            Some(p) => {
                let pair = pair_key(t.connection_id@, t.slug@);
                let known = built_key(b.built, pair, 0);
                let key = match known {
                    Some(k) => k,
                    None => instance_key(t.connection_id@, t.slug@),
                };
                BundleBuild {
                    plan: PlanModel {
                        instances: if known is Some {
                            b.plan.instances
                        } else {
                            put_instance(
                                b.plan.instances,
                                key,
                                bundle_instance(t, p, env, quirks),
                            )
                        },
                        profiles: b.plan.profiles.push(
                            (tier, t.connection_id@ + " "@ + tier_name(tier), seq![key]),
                        ),
                    },
                    built: if known is Some {
                        b.built
                    } else {
                        b.built.push((pair, key))
                    },
                }
            },
            None => b,
        },
        None => b,
    }
}

/// The plan of a router for a bundle.
pub open spec fn bundle_plan(
    bundle: Bundle,
    cfg: ModelsConfig,
    env: Seq<EnvKey>,
    quirks: Seq<SlugQuirk>,
) -> PlanModel {
    let b0 = BundleBuild { plan: empty_plan(), built: Seq::empty() };
    let b1 = bundle_step(b0, bundle, cfg, env, quirks, ModelProfile::Judges);
    let b2 = bundle_step(b1, bundle, cfg, env, quirks, ModelProfile::Fast);
    let b3 = bundle_step(b2, bundle, cfg, env, quirks, ModelProfile::Code);
    bundle_step(b3, bundle, cfg, env, quirks, ModelProfile::Powerful).plan
}

fn find_built(v: &Vec<(String, String)>, pair: &str) -> (r: Option<String>)
    ensures
        r.deep_view() == built_key(pair_views(v@), pair@, 0),
{
    let ghost all = pair_views(v@);
    let mut i: usize = 0;
    while i < v.len()
        invariant
            all == pair_views(v@),
            i <= v@.len(),
            built_key(all, pair@, 0) == built_key(all, pair@, i as int),
        decreases v@.len() - i,
    {
        proof {
            assert(all[i as int] == (v@[i as int].0@, v@[i as int].1@));
        }
        if str_eq(v[i].0.as_str(), pair) {
            return Some(v[i].1.clone());
        }
        i += 1;
    }
    None
}

fn add_bundle_tier(
    plan: &mut RouterPlan,
    built: &mut Vec<(String, String)>,
    bundle: &Bundle,
    cfg: &ModelsConfig,
    env: &Vec<EnvKey>,
    quirks: &Vec<SlugQuirk>,
    tier: ModelProfile,
)
    requires
        old(plan).wf(),
    ensures
        final(plan).wf(),
        (BundleBuild { plan: final(plan)@, built: pair_views(final(built)@) }) == bundle_step(
            BundleBuild { plan: old(plan)@, built: pair_views(old(built)@) },
            *bundle,
            *cfg,
            env@,
            quirks@,
            tier,
        ),
{
    if let Some(t) = pick_bundle_tier(bundle, tier) {
        let id = t.connection_id.as_str();
        if let Some(p) = cfg.provider(id) {
            let pair = cat3(id, "::", t.slug.as_str());
            let key = match find_built(built, pair.as_str()) {
                Some(k) => k,
                None => {
                    let key = cat3(id, ".", t.slug.as_str());
                    let api_key = bundle_api_key(id, p, env);
                    let base_url = match &p.endpoint {
                        Some(e) => e.clone(),
                        None => owned(default_base_url(id)),
                    };
                    let instance = build_provider_instance(
                        id,
                        base_url.as_str(),
                        t.slug.as_str(),
                        &api_key,
                        p.supports_vision,
                        p.supports_documents,
                        p.family.as_str(),
                        quirks,
                    );
                    plan.put(key.as_str(), instance);
                    let ghost before = pair_views(built@);
                    built.push((pair.clone(), key.clone()));
                    proof {
                        assert(pair_views(built@) =~= before.push((pair@, key@)));
                    }
                    key
                },
            };
            let description = cat3(id, " ", tier_label(tier));
            plan.route(tier, description, key.as_str());
        }
    }
}

/// The plan of a router for a bundle: each tier goes to the connection and
/// model that the bundle picks for it, and each pick is built once.
pub fn build_router_for_bundle(
    bundle: &Bundle,
    cfg: &ModelsConfig,
    env: &Vec<EnvKey>,
    quirks: &Vec<SlugQuirk>,
) -> (r: RouterPlan)
    ensures
        r.wf(),
        r@ == bundle_plan(*bundle, *cfg, env@, quirks@),
{
    let mut plan = RouterPlan::new();
    let mut built: Vec<(String, String)> = Vec::new();
    proof {
        assert(pair_views(built@) =~= Seq::empty());
    }
    add_bundle_tier(&mut plan, &mut built, bundle, cfg, env, quirks, ModelProfile::Judges);
    add_bundle_tier(&mut plan, &mut built, bundle, cfg, env, quirks, ModelProfile::Fast);
    add_bundle_tier(&mut plan, &mut built, bundle, cfg, env, quirks, ModelProfile::Code);
    add_bundle_tier(&mut plan, &mut built, bundle, cfg, env, quirks, ModelProfile::Powerful);
    plan
}

/// Every built pair has its instance in the plan.
spec fn built_exists(b: BundleBuild) -> bool {
    forall|i: int|
        0 <= i < b.built.len() ==> key_index(b.plan.instances, (#[trigger] b.built[i]).1, 0) >= 0
}

proof fn lemma_built_key(b: BundleBuild, pair: Seq<char>, i: int)
    requires
        0 <= i <= b.built.len(),
        built_exists(b),
    ensures
        built_key(b.built, pair, i) matches Some(k) ==> key_index(b.plan.instances, k, 0) >= 0,
    decreases b.built.len() - i,
{
    if i < b.built.len() && b.built[i].0 != pair {
        lemma_built_key(b, pair, i + 1);
    }
}

proof fn lemma_bundle_step(
    b: BundleBuild,
    bundle: Bundle,
    cfg: ModelsConfig,
    env: Seq<EnvKey>,
    quirks: Seq<SlugQuirk>,
    tier: ModelProfile,
)
    requires
        built_exists(b),
        routes_lead_somewhere(b.plan),
        keys_are_distinct(b.plan),
    ensures
        built_exists(bundle_step(b, bundle, cfg, env, quirks, tier)),
        routes_lead_somewhere(bundle_step(b, bundle, cfg, env, quirks, tier).plan),
        keys_are_distinct(bundle_step(b, bundle, cfg, env, quirks, tier).plan),
{
    let next = bundle_step(b, bundle, cfg, env, quirks, tier);
    if let Some(t) = bundle_pick(bundle.tiers, tier) {
        if let Some(p) = cfg.provider_at(t.connection_id@) {
            let pair = pair_key(t.connection_id@, t.slug@);
            let known = built_key(b.built, pair, 0);
            let key = match known {
                Some(k) => k,
                None => instance_key(t.connection_id@, t.slug@),
            };
            lemma_built_key(b, pair, 0);
            if known is None {
                lemma_put(b.plan.instances, key, bundle_instance(t, p, env, quirks));
                lemma_put_distinct(
                    b.plan,
                    key,
                    bundle_instance(t, p, env, quirks),
                    next.plan.profiles,
                );
            }
            assert forall|i: int| 0 <= i < next.built.len() implies key_index(
                next.plan.instances,
                (#[trigger] next.built[i]).1,
                0,
            ) >= 0 by {
                if i < b.built.len() {
                    assert(next.built[i] == b.built[i]);
                }
            }
            assert forall|i: int| 0 <= i < next.plan.profiles.len() implies (
            #[trigger] next.plan.profiles[i]).2.len() == 1 && key_index(
                next.plan.instances,
                next.plan.profiles[i].2[0],
                0,
            ) >= 0 by {
                if i < b.plan.profiles.len() {
                    assert(next.plan.profiles[i] == b.plan.profiles[i]);
                }
            }
        }
    }
}

/// Every tier that a bundle's plan serves leads to an instance, and no two
/// instances share a key.
pub proof fn bundle_plan_is_closed(
    bundle: Bundle,
    cfg: ModelsConfig,
    env: Seq<EnvKey>,
    quirks: Seq<SlugQuirk>,
)
    ensures
        routes_lead_somewhere(bundle_plan(bundle, cfg, env, quirks)),
        keys_are_distinct(bundle_plan(bundle, cfg, env, quirks)),
{
    let b0 = BundleBuild { plan: empty_plan(), built: Seq::empty() };
    lemma_bundle_step(b0, bundle, cfg, env, quirks, ModelProfile::Judges);
    let b1 = bundle_step(b0, bundle, cfg, env, quirks, ModelProfile::Judges);
    lemma_bundle_step(b1, bundle, cfg, env, quirks, ModelProfile::Fast);
    let b2 = bundle_step(b1, bundle, cfg, env, quirks, ModelProfile::Fast);
    lemma_bundle_step(b2, bundle, cfg, env, quirks, ModelProfile::Code);
    let b3 = bundle_step(b2, bundle, cfg, env, quirks, ModelProfile::Code);
    lemma_bundle_step(b3, bundle, cfg, env, quirks, ModelProfile::Powerful);
}

// ---------------------------------------------------------------------------
// Startup
// ---------------------------------------------------------------------------

/// The connection and model that stand for the app at startup, where a bundle
/// is active.
pub open spec fn startup_pair(cfg: ModelsConfig, bundle: Bundle) -> (Seq<char>, Seq<char>) {
    match first_filled(bundle.tiers, primary_order(), 0) {
        Some(t) => (t.connection_id@, t.slug@),
        None => {
            let id = active_provider_of(cfg);
            (
                id,
                match cfg.provider_at(id) {
                    Some(p) => p.default_model@,
                    None => startup_model(id),
                },
            )
        },
    }
}

/// The router to start with: that of the active bundle where there is one,
/// else that of the active provider. The other two results are the provider
/// and the model that stand for it.
pub fn build_startup_router(
    config: &ModelsConfig,
    env: &Vec<EnvKey>,
    quirks: &Vec<SlugQuirk>,
) -> (r: (RouterPlan, String, String))
    ensures
        r.0.wf(),
        match config.active_bundle_value() {
            Some(b) => {
                &&& r.0@ == bundle_plan(b, *config, env@, quirks@)
                &&& (r.1@, r.2@) == startup_pair(*config, b)
            },
            None => {
                let id = active_provider_of(*config);
                &&& r.0@ == configured_connection(id, *config, None, env@, quirks@).plan()
                &&& (r.1@, r.2@) == (id, configured_model(*config, id))
            },
        },
{
    if let Some(bundle) = config.current_bundle() {
        let plan = build_router_for_bundle(bundle, config, env, quirks);
        return match derive_primary_connection_pair(bundle) {
            Some(t) => (plan, t.connection_id.clone(), t.slug.clone()),
            None => {
                let id = resolve_active_provider(config);
                let model = match config.provider(id.as_str()) {
                    Some(p) => p.default_model.clone(),
                    None => default_model_for(id.as_str()),
                };
                (plan, id, model)
            },
        };
    }
    let id = resolve_active_provider(config);
    let (plan, model) = build_router_for_provider_from_config(id.as_str(), config, env, quirks);
    (plan, id, model)
}

/// The router of an arc: none of its own where nothing is frozen and its
/// provider is the active one, for then the shared router serves it; else one
/// for its provider, with the frozen model on every tier.
pub fn arc_router_for(
    target: &EffectiveProviderTarget,
    active_provider_id: &str,
    config: &ModelsConfig,
    env: &Vec<EnvKey>,
    quirks: &Vec<SlugQuirk>,
) -> (r: Option<RouterPlan>)
    ensures
        if target.pinned_slug is None && target.provider_id@ == active_provider_id@ {
            r is None
        } else {
            r matches Some(p) && p.wf() && p@ == configured_connection(
                target.provider_id@,
                *config,
                target.pinned_slug.deep_view(),
                env@,
                quirks@,
            ).plan()
        },
{
    if uses_shared_router(target, active_provider_id) {
        return None;
    }
    let pinned: Option<&str> = match &target.pinned_slug {
        Some(s) => Some(s.as_str()),
        None => None,
    };
    let (plan, _model) = build_router_for_provider_from_config_with_pinned_slug(
        target.provider_id.as_str(),
        config,
        pinned,
        env,
        quirks,
    );
    Some(plan)
}

// ---------------------------------------------------------------------------
// What the plans promise
// ---------------------------------------------------------------------------

/// A tier is named as it is called, and an instance after its connection and
/// its model, so that two models of a connection never share a key.
pub proof fn instances_are_named_after_their_model(
    connection: Seq<char>,
    slug: Seq<char>,
    other: Seq<char>,
)
    ensures
        tier_name(ModelProfile::Judges) == "Judges"@,
        tier_name(ModelProfile::Fast) == "Fast"@,
        tier_name(ModelProfile::Code) == "Code"@,
        tier_name(ModelProfile::Powerful) == "Powerful"@,
        tier_name(ModelProfile::Local) == "Local"@,
        instance_key(connection, slug) == connection + "."@ + slug,
        pair_key(connection, slug) == connection + "::"@ + slug,
        instance_key(connection, slug) == instance_key(connection, other) ==> slug == other,
        pair_key(connection, slug) == pair_key(connection, other) ==> slug == other,
{
    lemma_key_tail(connection + "."@, slug, other);
    lemma_key_tail(connection + "::"@, slug, other);
}

proof fn lemma_key_tail(head: Seq<char>, slug: Seq<char>, other: Seq<char>)
    ensures
        head + slug == head + other ==> slug == other,
{
    if head + slug == head + other {
        let n = head.len() as int;
        assert((head + slug).subrange(n, (head + slug).len() as int) =~= slug);
        assert((head + other).subrange(n, (head + other).len() as int) =~= other);
    }
}

/// The model of a tier is the frozen one wherever there is one, else the one
/// set for that tier, and the default only where neither is set.
pub proof fn tiers_use_the_model_set_for_them(c: ConnectionModel, tier: ModelProfile)
    ensures
        c.override_slug matches Some(s) ==> (s.len() > 0 ==> c.slug_at(tier) == s),
        (c.override_slug is None || c.override_slug == Some(Seq::<char>::empty())) ==> {
            &&& (c.tier_models.at(tier) matches Some(s) && s@.len() > 0) ==> c.slug_at(tier)
                == c.tier_models.at(tier)->0@
            &&& c.tier_models.at(tier) is None ==> c.slug_at(tier) == c.model
            &&& (c.tier_models.at(tier) matches Some(s) && s@.len() == 0) ==> c.slug_at(tier)
                == c.model
        },
{
}

/// The instances of the plan come from the connection.
spec fn from_connection(c: ConnectionModel, plan: PlanModel) -> bool {
    forall|i: int|
        #![trigger plan.instances[i]]
        0 <= i < plan.instances.len() ==> exists|t: ModelProfile|
            t != ModelProfile::Local && plan.instances[i] == (
                instance_key(c.provider_id, c.slug_at(t)),
                #[trigger] c.instance_at(t),
            )
}

proof fn lemma_from_connection(c: ConnectionModel, plan: PlanModel, tier: ModelProfile)
    requires
        from_connection(c, plan),
        tier != ModelProfile::Local,
    ensures
        from_connection(c, c.step(plan, tier)),
{
    let next = c.step(plan, tier);
    assert forall|i: int| #![trigger next.instances[i]] 0 <= i < next.instances.len() implies (
    exists|t: ModelProfile|
        t != ModelProfile::Local && next.instances[i] == (
            instance_key(c.provider_id, c.slug_at(t)),
            #[trigger] c.instance_at(t),
        )) by {
        if i < plan.instances.len() {
            assert(next.instances[i] == plan.instances[i]);
        } else {
            assert(next.instances[i] == (
                instance_key(c.provider_id, c.slug_at(tier)),
                c.instance_at(tier),
            ));
        }
    }
}

proof fn lemma_plan_is_from_connection(c: ConnectionModel)
    ensures
        from_connection(c, c.plan()),
{
    let p0 = empty_plan();
    lemma_from_connection(c, p0, ModelProfile::Judges);
    let p1 = c.step(p0, ModelProfile::Judges);
    lemma_from_connection(c, p1, ModelProfile::Fast);
    let p2 = c.step(p1, ModelProfile::Fast);
    lemma_from_connection(c, p2, ModelProfile::Code);
    let p3 = c.step(p2, ModelProfile::Code);
    lemma_from_connection(c, p3, ModelProfile::Powerful);
}

/// A connection's plan serves the four cloud tiers, in this order, and
/// describes each by the connection and the tier.
pub proof fn plans_serve_the_cloud_tiers(c: ConnectionModel)
    ensures
        ({
            let v = c.plan().profiles;
            &&& v.len() == 4
            &&& v[0].0 == ModelProfile::Judges && v[0].1 == c.provider_id + " Judges"@
            &&& v[1].0 == ModelProfile::Fast && v[1].1 == c.provider_id + " Fast"@
            &&& v[2].0 == ModelProfile::Code && v[2].1 == c.provider_id + " Code"@
            &&& v[3].0 == ModelProfile::Powerful && v[3].1 == c.provider_id + " Powerful"@
        }),
        route_keys(c.plan().profiles, ModelProfile::Local, 0).len() == 0,
{
    reveal_strlit(" ");
    reveal_strlit("Judges");
    reveal_strlit(" Judges");
    reveal_strlit("Fast");
    reveal_strlit(" Fast");
    reveal_strlit("Code");
    reveal_strlit(" Code");
    reveal_strlit("Powerful");
    reveal_strlit(" Powerful");
    let v = c.plan().profiles;
    assert(v[0].1 =~= c.provider_id + " Judges"@);
    assert(v[1].1 =~= c.provider_id + " Fast"@);
    assert(v[2].1 =~= c.provider_id + " Code"@);
    assert(v[3].1 =~= c.provider_id + " Powerful"@);
    reveal_with_fuel(route_keys, 6);
}

/// The key of a tier leads to the instance for its model, built from what the
/// connection holds.
pub proof fn tiers_reach_the_instance_of_their_model(c: ConnectionModel, tier: ModelProfile)
    requires
        tier != ModelProfile::Local,
    ensures
        ({
            let slug = c.slug_at(tier);
            let key = c.provider_id + "."@ + slug;
            let i = key_index(c.plan().instances, key, 0);
            &&& route_keys(c.plan().profiles, tier, 0) == seq![key]
            &&& 0 <= i < c.plan().instances.len()
            &&& c.plan().instances[i].0 == key
            &&& c.plan().instances[i].1 == instance_of(
                c.provider_id,
                c.base_url,
                slug,
                c.api_key,
                c.supports_vision,
                c.supports_documents,
                family_for(c.quirks, c.provider_id, slug, c.family),
            )
        }),
{
    let key = instance_key(c.provider_id, c.slug_at(tier));
    tier_is_served_by_its_slug(c, tier);
    provider_plan_is_closed(c);
    lemma_plan_is_from_connection(c);
    let v = c.plan().profiles;
    let n: int = match tier {
        ModelProfile::Judges => 0,
        ModelProfile::Fast => 1,
        ModelProfile::Code => 2,
        _ => 3,
    };
    assert(v[n].2 == seq![key]);
    assert(v[n].2[0] == key);
    lemma_key_index(c.plan().instances, key, 0);
    let i = key_index(c.plan().instances, key, 0);
    let t = choose|t: ModelProfile|
        t != ModelProfile::Local && c.plan().instances[i] == (
            instance_key(c.provider_id, c.slug_at(t)),
            #[trigger] c.instance_at(t),
        );
    instances_are_named_after_their_model(c.provider_id, c.slug_at(t), c.slug_at(tier));
}

/// A configured connection is used as it is configured: with its endpoint, its
/// default model, its tiers, its capabilities and its family. What is left
/// open comes from the catalog.
pub proof fn connections_are_used_as_configured(
    id: Seq<char>,
    cfg: ModelsConfig,
    override_slug: Option<Seq<char>>,
    env: Seq<EnvKey>,
    quirks: Seq<SlugQuirk>,
)
    ensures
        ({
            let r = configured_connection(id, cfg, override_slug, env, quirks);
            &&& r.provider_id == id
            &&& r.override_slug == override_slug
            &&& r.quirks == quirks
            &&& r.api_key == key_for(cfg.provider_at(id), env, id)
            &&& cfg.provider_at(id) matches Some(c) ==> {
                &&& c.endpoint matches Some(e) ==> r.base_url == e@
                &&& c.endpoint is None ==> r.base_url == startup_base_url(id)
                &&& c.default_model@.len() > 0 ==> r.model == c.default_model@
                &&& c.default_model@.len() == 0 ==> r.model == startup_model(id)
                &&& r.tier_models == c.tier_models
                &&& r.supports_vision == c.supports_vision
                &&& r.supports_documents == c.supports_documents
                &&& r.family == c.family@
            }
            &&& cfg.provider_at(id) is None ==> {
                &&& r.base_url == startup_base_url(id)
                &&& r.model == startup_model(id)
                &&& forall|t: ModelProfile| (#[trigger] r.tier_models.at(t)) is None
                &&& !r.supports_vision && !r.supports_documents
                &&& r.family == "Default"@
            }
        }),
{
}

/// Every request of a configured connection goes to its endpoint: no instance
/// of the plan has another URL, and those that speak the OpenAI protocol all
/// have that one.
pub proof fn endpoints_are_used(
    id: Seq<char>,
    cfg: ModelsConfig,
    override_slug: Option<Seq<char>>,
    env: Seq<EnvKey>,
    quirks: Seq<SlugQuirk>,
    endpoint: Seq<char>,
    i: int,
)
    requires
        cfg.provider_at(id) matches Some(c) && c.endpoint.deep_view() == Some(endpoint),
    ensures
        ({
            let c = configured_connection(id, cfg, override_slug, env, quirks);
            let plan = c.plan();
            &&& c.base_url == endpoint
            &&& 0 <= i < plan.instances.len() ==> {
                let r = plan.instances[i].1;
                &&& r.base_url matches Some(u) ==> u == endpoint
                &&& r.adapter == Adapter::OpenAiCompatible || r.adapter == Adapter::LlamaCpp
                    ==> r.base_url == Some(endpoint)
            }
        }),
{
    let c = configured_connection(id, cfg, override_slug, env, quirks);
    lemma_plan_is_from_connection(c);
    if 0 <= i < c.plan().instances.len() {
        let t = choose|t: ModelProfile|
            t != ModelProfile::Local && c.plan().instances[i] == (
                instance_key(c.provider_id, c.slug_at(t)),
                #[trigger] c.instance_at(t),
            );
        assert(c.plan().instances[i].1 == c.instance_at(t));
    }
}

/// The pick of a bundle for a tier, where its connection is configured.
pub open spec fn served_by(
    bundle: Bundle,
    cfg: ModelsConfig,
    tier: ModelProfile,
    t: BundleTier,
    p: ProviderConfig,
) -> bool {
    bundle_pick(bundle.tiers, tier) == Some(t) && cfg.provider_at(t.connection_id@) == Some(p)
}

/// The instance for a bundle's pick has the pick's model, the connection's
/// endpoint or its usual address, and the key that the connection serves
/// bundles with.
pub proof fn picks_are_served_by_their_connection(
    t: BundleTier,
    p: ProviderConfig,
    env: Seq<EnvKey>,
    quirks: Seq<SlugQuirk>,
)
    ensures
        ({
            let id = t.connection_id@;
            let family = family_for(quirks, id, t.slug@, p.family@);
            let key = bundle_key_for(p, env, id);
            let r = bundle_instance(t, p, env, quirks);
            &&& p.endpoint matches Some(e) ==> r == instance_of(
                id,
                e@,
                t.slug@,
                key,
                p.supports_vision,
                p.supports_documents,
                family,
            )
            &&& p.endpoint is None ==> r == instance_of(
                id,
                base_url_default(id),
                t.slug@,
                key,
                p.supports_vision,
                p.supports_documents,
                family,
            )
        }),
{
}

spec fn from_bundle(
    b: BundleBuild,
    bundle: Bundle,
    cfg: ModelsConfig,
    env: Seq<EnvKey>,
    quirks: Seq<SlugQuirk>,
) -> bool {
    &&& forall|i: int|
        #![trigger b.plan.instances[i]]
        0 <= i < b.plan.instances.len() ==> exists|
            tier: ModelProfile,
            t: BundleTier,
            p: ProviderConfig,
        |
            tier != ModelProfile::Local && #[trigger] served_by(bundle, cfg, tier, t, p)
                && b.plan.instances[i] == (
                instance_key(t.connection_id@, t.slug@),
                bundle_instance(t, p, env, quirks),
            )
    &&& forall|i: int|
        #![trigger b.built[i]]
        0 <= i < b.built.len() ==> exists|tier: ModelProfile, t: BundleTier, p: ProviderConfig|
            tier != ModelProfile::Local && #[trigger] served_by(bundle, cfg, tier, t, p)
                && b.built[i] == (
                pair_key(t.connection_id@, t.slug@),
                instance_key(t.connection_id@, t.slug@),
            )
}

proof fn lemma_built_key_at(v: Seq<(Seq<char>, Seq<char>)>, pair: Seq<char>, i: int)
    requires
        0 <= i <= v.len(),
    ensures
        built_key(v, pair, i) matches Some(k) ==> exists|j: int|
            i <= j < v.len() && #[trigger] v[j] == (pair, k),
    decreases v.len() - i,
{
    if i < v.len() {
        if v[i].0 == pair {
            assert(v[i] == (pair, v[i].1));
        } else {
            lemma_built_key_at(v, pair, i + 1);
        }
    }
}

proof fn lemma_from_bundle(
    b: BundleBuild,
    bundle: Bundle,
    cfg: ModelsConfig,
    env: Seq<EnvKey>,
    quirks: Seq<SlugQuirk>,
    tier: ModelProfile,
)
    requires
        from_bundle(b, bundle, cfg, env, quirks),
        tier != ModelProfile::Local,
    ensures
        from_bundle(bundle_step(b, bundle, cfg, env, quirks, tier), bundle, cfg, env, quirks),
{
    let next = bundle_step(b, bundle, cfg, env, quirks, tier);
    if let Some(t) = bundle_pick(bundle.tiers, tier) {
        if let Some(p) = cfg.provider_at(t.connection_id@) {
            assert(served_by(bundle, cfg, tier, t, p));
            let key = instance_key(t.connection_id@, t.slug@);
            lemma_key_index(b.plan.instances, key, 0);
            assert forall|i: int|
                #![trigger next.plan.instances[i]]
                0 <= i < next.plan.instances.len() implies exists|
                tier: ModelProfile,
                t: BundleTier,
                p: ProviderConfig,
            |
                tier != ModelProfile::Local && #[trigger] served_by(bundle, cfg, tier, t, p)
                    && next.plan.instances[i] == (
                    instance_key(t.connection_id@, t.slug@),
                    bundle_instance(t, p, env, quirks),
                ) by {
                if i < b.plan.instances.len() && next.plan.instances[i] == b.plan.instances[i] {
                } else {
                    assert(next.plan.instances[i] == (key, bundle_instance(t, p, env, quirks)));
                }
            }
            assert forall|i: int|
                #![trigger next.built[i]]
                0 <= i < next.built.len() implies exists|
                tier: ModelProfile,
                t: BundleTier,
                p: ProviderConfig,
            |
                tier != ModelProfile::Local && #[trigger] served_by(bundle, cfg, tier, t, p)
                    && next.built[i] == (
                    pair_key(t.connection_id@, t.slug@),
                    instance_key(t.connection_id@, t.slug@),
                ) by {
                if i < b.built.len() {
                    assert(next.built[i] == b.built[i]);
                } else {
                    assert(next.built[i] == (pair_key(t.connection_id@, t.slug@), key));
                }
            }
        }
    }
}

proof fn lemma_route_push(
    v: Seq<(ModelProfile, Seq<char>, Seq<Seq<char>>)>,
    e: (ModelProfile, Seq<char>, Seq<Seq<char>>),
    tier: ModelProfile,
    i: int,
)
    requires
        0 <= i <= v.len(),
    ensures
        (forall|j: int| i <= j < v.len() ==> (#[trigger] v[j]).0 != tier) ==> {
            &&& route_keys(v, tier, i) == Seq::<Seq<char>>::empty()
            &&& route_keys(v.push(e), tier, i) == (if e.0 == tier {
                e.2
            } else {
                Seq::empty()
            })
        },
        (exists|j: int| i <= j < v.len() && (#[trigger] v[j]).0 == tier) ==> route_keys(
            v.push(e),
            tier,
            i,
        ) == route_keys(v, tier, i),
    decreases v.len() - i,
{
    reveal_with_fuel(route_keys, 2);
    if i < v.len() {
        assert(v.push(e)[i] == v[i]);
        lemma_route_push(v, e, tier, i + 1);
    } else {
        assert(v.push(e)[i] == e);
    }
}

/// The other picks of the bundle are told apart from `t` by their keys.
pub open spec fn told_apart(bundle: Bundle, t: BundleTier) -> bool {
    forall|other: ModelProfile|
        #![trigger bundle_pick(bundle.tiers, other)]
        bundle_pick(bundle.tiers, other) matches Some(o) ==> (instance_key(
            o.connection_id@,
            o.slug@,
        ) == instance_key(t.connection_id@, t.slug@) || pair_key(o.connection_id@, o.slug@)
            == pair_key(t.connection_id@, t.slug@) ==> o.connection_id@ == t.connection_id@
            && o.slug@ == t.slug@)
}

proof fn lemma_bundle_route(
    b: BundleBuild,
    bundle: Bundle,
    cfg: ModelsConfig,
    env: Seq<EnvKey>,
    quirks: Seq<SlugQuirk>,
    step: ModelProfile,
    tier: ModelProfile,
    t: BundleTier,
    p: ProviderConfig,
)
    requires
        from_bundle(b, bundle, cfg, env, quirks),
        served_by(bundle, cfg, tier, t, p),
        told_apart(bundle, t),
        forall|j: int|
            0 <= j < b.plan.profiles.len() ==> (#[trigger] b.plan.profiles[j]).0 != step,
        step != ModelProfile::Local,
    ensures
        ({
            let next = bundle_step(b, bundle, cfg, env, quirks, step);
            let key = instance_key(t.connection_id@, t.slug@);
            &&& step == tier ==> route_keys(next.plan.profiles, tier, 0) == seq![key]
            &&& step != tier ==> route_keys(next.plan.profiles, tier, 0) == route_keys(
                b.plan.profiles,
                tier,
                0,
            )
            &&& forall|j: int|
                0 <= j < next.plan.profiles.len() ==> (#[trigger] next.plan.profiles[j]).0 == step
                    || (j < b.plan.profiles.len() && next.plan.profiles[j].0
                    == b.plan.profiles[j].0)
        }),
{
    let next = bundle_step(b, bundle, cfg, env, quirks, step);
    if next.plan.profiles.len() > b.plan.profiles.len() {
        let e = next.plan.profiles.last();
        assert(next.plan.profiles =~= b.plan.profiles.push(e));
        lemma_route_push(b.plan.profiles, e, tier, 0);
    }
    if step == tier {
        let pair = pair_key(t.connection_id@, t.slug@);
        lemma_built_key_at(b.built, pair, 0);
        if built_key(b.built, pair, 0) is Some {
            let k = built_key(b.built, pair, 0)->0;
            let j = choose|j: int| 0 <= j < b.built.len() && #[trigger] b.built[j] == (pair, k);
            let (tier2, t2, p2) = choose|tier2: ModelProfile, t2: BundleTier, p2: ProviderConfig|
                tier2 != ModelProfile::Local && #[trigger] served_by(bundle, cfg, tier2, t2, p2)
                    && b.built[j] == (
                    pair_key(t2.connection_id@, t2.slug@),
                    instance_key(t2.connection_id@, t2.slug@),
                );
            assert(bundle_pick(bundle.tiers, tier2) == Some(t2));
        }
    }
}

/// Each tier of a bundle goes to the connection and the model that the bundle
/// picks for it, and the instance behind it is built from that connection.
pub proof fn bundle_tiers_reach_their_pick(
    bundle: Bundle,
    cfg: ModelsConfig,
    env: Seq<EnvKey>,
    quirks: Seq<SlugQuirk>,
    tier: ModelProfile,
    t: BundleTier,
    p: ProviderConfig,
)
    requires
        tier != ModelProfile::Local,
        served_by(bundle, cfg, tier, t, p),
        told_apart(bundle, t),
    ensures
        ({
            let plan = bundle_plan(bundle, cfg, env, quirks);
            let key = t.connection_id@ + "."@ + t.slug@;
            let i = key_index(plan.instances, key, 0);
            &&& route_keys(plan.profiles, tier, 0) == seq![key]
            &&& 0 <= i < plan.instances.len()
            &&& plan.instances[i] == (key, bundle_instance(t, p, env, quirks))
        }),
{
    let key = instance_key(t.connection_id@, t.slug@);
    let b0 = BundleBuild { plan: empty_plan(), built: Seq::empty() };
    lemma_from_bundle(b0, bundle, cfg, env, quirks, ModelProfile::Judges);
    lemma_bundle_route(b0, bundle, cfg, env, quirks, ModelProfile::Judges, tier, t, p);
    let b1 = bundle_step(b0, bundle, cfg, env, quirks, ModelProfile::Judges);
    lemma_from_bundle(b1, bundle, cfg, env, quirks, ModelProfile::Fast);
    lemma_bundle_route(b1, bundle, cfg, env, quirks, ModelProfile::Fast, tier, t, p);
    let b2 = bundle_step(b1, bundle, cfg, env, quirks, ModelProfile::Fast);
    lemma_from_bundle(b2, bundle, cfg, env, quirks, ModelProfile::Code);
    lemma_bundle_route(b2, bundle, cfg, env, quirks, ModelProfile::Code, tier, t, p);
    let b3 = bundle_step(b2, bundle, cfg, env, quirks, ModelProfile::Code);
    lemma_from_bundle(b3, bundle, cfg, env, quirks, ModelProfile::Powerful);
    lemma_bundle_route(b3, bundle, cfg, env, quirks, ModelProfile::Powerful, tier, t, p);
    let b4 = bundle_step(b3, bundle, cfg, env, quirks, ModelProfile::Powerful);
    let plan = bundle_plan(bundle, cfg, env, quirks);
    assert(plan == b4.plan);
    assert(route_keys(plan.profiles, tier, 0) == seq![key]);
    bundle_plan_is_closed(bundle, cfg, env, quirks);
    lemma_route_at(plan.profiles, tier, 0);
    let n = choose|n: int|
        0 <= n < plan.profiles.len() && (#[trigger] plan.profiles[n]).2 == route_keys(
            plan.profiles,
            tier,
            0,
        );
    assert(plan.profiles[n].2[0] == key);
    lemma_key_index(plan.instances, key, 0);
    let i = key_index(plan.instances, key, 0);
    assert(b4.plan.instances[i].0 == key);
    let (tier2, t2, p2) = choose|tier2: ModelProfile, t2: BundleTier, p2: ProviderConfig|
        tier2 != ModelProfile::Local && #[trigger] served_by(bundle, cfg, tier2, t2, p2)
            && b4.plan.instances[i] == (
            instance_key(t2.connection_id@, t2.slug@),
            bundle_instance(t2, p2, env, quirks),
        );
    assert(bundle_pick(bundle.tiers, tier2) == Some(t2));
}

proof fn lemma_route_at(
    v: Seq<(ModelProfile, Seq<char>, Seq<Seq<char>>)>,
    tier: ModelProfile,
    i: int,
)
    requires
        0 <= i <= v.len(),
    ensures
        route_keys(v, tier, i).len() > 0 ==> exists|n: int|
            i <= n < v.len() && (#[trigger] v[n]).2 == route_keys(v, tier, i) && v[n].0 == tier,
    decreases v.len() - i,
{
    if i < v.len() && v[i].0 != tier {
        lemma_route_at(v, tier, i + 1);
    }
}

/// At startup a bundle is represented by the tier that stands for it. Where
/// it fills none, the active provider and its default model are.
pub proof fn startup_shows_the_primary_tier(cfg: ModelsConfig, bundle: Bundle)
    ensures
        bundle.tiers.at(ModelProfile::Fast) matches Some(t) ==> startup_pair(cfg, bundle) == (
            t.connection_id@,
            t.slug@,
        ),
        (forall|t: ModelProfile| (#[trigger] bundle.tiers.at(t)) is None) ==> {
            let id = active_provider_of(cfg);
            &&& startup_pair(cfg, bundle).0 == id
            &&& cfg.provider_at(id) matches Some(p) ==> startup_pair(cfg, bundle).1
                == p.default_model@
            &&& cfg.provider_at(id) is None ==> startup_pair(cfg, bundle).1 == startup_model(id)
        },
{
    reveal_with_fuel(first_filled, 6);
}

/// A plan and a connection are seen with all that they hold.
pub proof fn plans_are_seen_whole(p: RouterPlan, c: Connection, i: int)
    ensures
        p@.instances.len() == p.instances@.len(),
        p@.profiles.len() == p.profiles@.len(),
        0 <= i < p.instances@.len() ==> p@.instances[i] == (
            p.instances@[i].key@,
            p.instances@[i].instance@,
        ),
        0 <= i < p.profiles@.len() ==> p@.profiles[i] == (
            p.profiles@[i].tier,
            p.profiles@[i].description@,
            p.profiles@[i].priority.deep_view(),
        ),
        c@.provider_id == c.provider_id@,
        c@.base_url == c.base_url@,
        c@.model == c.model@,
        c@.api_key == c.api_key.deep_view(),
        c@.supports_vision == c.supports_vision,
        c@.supports_documents == c.supports_documents,
        c@.family == c.family@,
        c@.tier_models == *c.tier_models,
        c@.override_slug == c.override_slug.deep_view(),
        c@.quirks == c.quirks@,
{
}

/// The first route of a tier decides its keys; a tier without a route has
/// none.
pub proof fn the_first_route_decides(
    v: Seq<(ModelProfile, Seq<char>, Seq<Seq<char>>)>,
    tier: ModelProfile,
    i: int,
)
    requires
        0 <= i <= v.len(),
        forall|j: int| 0 <= j < i ==> (#[trigger] v[j]).0 != tier,
    ensures
        i < v.len() && v[i].0 == tier ==> route_keys(v, tier, 0) == v[i].2,
        i == v.len() ==> route_keys(v, tier, 0).len() == 0,
{
    lemma_route_skips(v, tier, 0, i);
}

proof fn lemma_route_skips(
    v: Seq<(ModelProfile, Seq<char>, Seq<Seq<char>>)>,
    tier: ModelProfile,
    from: int,
    i: int,
)
    requires
        0 <= from <= i <= v.len(),
        forall|j: int| from <= j < i ==> (#[trigger] v[j]).0 != tier,
    ensures
        route_keys(v, tier, from) == route_keys(v, tier, i),
    decreases i - from,
{
    if from < i {
        assert(v[from].0 != tier);
        lemma_route_skips(v, tier, from + 1, i);
    }
}

/// A tier that the bundle cannot serve, because nothing is picked for it or
/// the connection is not configured, has no route.
pub proof fn unserved_tiers_have_no_route(
    bundle: Bundle,
    cfg: ModelsConfig,
    env: Seq<EnvKey>,
    quirks: Seq<SlugQuirk>,
    tier: ModelProfile,
)
    requires
        bundle_pick(bundle.tiers, tier) matches Some(t) ==> cfg.provider_at(t.connection_id@) is None,
    ensures
        route_keys(bundle_plan(bundle, cfg, env, quirks).profiles, tier, 0).len() == 0,
        route_keys(bundle_plan(bundle, cfg, env, quirks).profiles, ModelProfile::Local, 0).len()
            == 0,
{
    let b0 = BundleBuild { plan: empty_plan(), built: Seq::empty() };
    let b1 = bundle_step(b0, bundle, cfg, env, quirks, ModelProfile::Judges);
    lemma_step_route(b0, bundle, cfg, env, quirks, ModelProfile::Judges, tier);
    let b2 = bundle_step(b1, bundle, cfg, env, quirks, ModelProfile::Fast);
    lemma_step_route(b1, bundle, cfg, env, quirks, ModelProfile::Fast, tier);
    let b3 = bundle_step(b2, bundle, cfg, env, quirks, ModelProfile::Code);
    lemma_step_route(b2, bundle, cfg, env, quirks, ModelProfile::Code, tier);
    lemma_step_route(b3, bundle, cfg, env, quirks, ModelProfile::Powerful, tier);
    let v = bundle_plan(bundle, cfg, env, quirks).profiles;
    the_first_route_decides(v, tier, v.len() as int);
    the_first_route_decides(v, ModelProfile::Local, v.len() as int);
}

proof fn lemma_step_route(
    b: BundleBuild,
    bundle: Bundle,
    cfg: ModelsConfig,
    env: Seq<EnvKey>,
    quirks: Seq<SlugQuirk>,
    step: ModelProfile,
    tier: ModelProfile,
)
    requires
        step != ModelProfile::Local,
        bundle_pick(bundle.tiers, tier) matches Some(t) ==> cfg.provider_at(t.connection_id@) is None,
        forall|j: int|
            0 <= j < b.plan.profiles.len() ==> (#[trigger] b.plan.profiles[j]).0 != tier
                && b.plan.profiles[j].0 != ModelProfile::Local,
    ensures
        ({
            let next = bundle_step(b, bundle, cfg, env, quirks, step);
            forall|j: int|
                0 <= j < next.plan.profiles.len() ==> (#[trigger] next.plan.profiles[j]).0 != tier
                    && next.plan.profiles[j].0 != ModelProfile::Local
        }),
{
    let next = bundle_step(b, bundle, cfg, env, quirks, step);
    assert forall|j: int| 0 <= j < next.plan.profiles.len() implies (
    #[trigger] next.plan.profiles[j]).0 != tier && next.plan.profiles[j].0
        != ModelProfile::Local by {
        if j < b.plan.profiles.len() {
            assert(next.plan.profiles[j] == b.plan.profiles[j]);
        }
    }
}

/// At startup the tier that stands for the bundle gives both the connection
/// and the model.
pub proof fn startup_follows_the_primary_tier(cfg: ModelsConfig, bundle: Bundle, t: BundleTier)
    requires
        first_filled(bundle.tiers, primary_order(), 0) == Some(t),
    ensures
        startup_pair(cfg, bundle) == (t.connection_id@, t.slug@),
{
}

} // verus!
