//! Which model serves a request: active provider and bundle, arc pins, tiers,
//! and the plan from which a router is built.

use vstd::prelude::*;
use vstd::string::*;
use crate::models::{
    AuthType, Bundle, BundleTier, BundleTiers, ModelProfile, ModelsConfig, ProviderConfig, copy_opt,
};
use crate::text::{
    all_ascii, ascii_lowercase, begins_with, cat2, chars_of, lowered, owned, starts_with, str_eq,
    trim, trim_spec, uppered,
};

verus! {

// ---------------------------------------------------------------------------
// Active provider and keys
// ---------------------------------------------------------------------------

/// The active provider: the assigned one, or DeepSeek where none is assigned.
pub open spec fn active_provider_of(cfg: ModelsConfig) -> Seq<char> {
    match cfg.active_provider {
        Some(id) => if id@.len() > 0 {
            id@
        } else {
            "deepseek"@
        },
        None => "deepseek"@,
    }
}

/// The active provider: the assigned one, or DeepSeek where none is assigned.
pub fn resolve_active_provider(cfg: &ModelsConfig) -> (r: String)
    ensures
        r@ == active_provider_of(*cfg),
{
    match &cfg.active_provider {
        Some(id) => {
            if id.as_str().is_empty() {
                owned("deepseek")
            } else {
                id.clone()
            }
        },
        None => owned("deepseek"),
    }
}

/// A key found in the environment for a connection.
#[derive(Clone, Debug)]
pub struct EnvKey {
    pub connection_id: String,
    pub key: String,
}

/// `s` in upper case, as `str::to_uppercase` gives it.
pub uninterp spec fn str_uppercase(s: Seq<char>) -> Seq<char>;

/// `s` in upper case.
pub open spec fn upper_text(s: Seq<char>) -> Seq<char> {
    if all_ascii(s) {
        uppered(s)
    } else {
        str_uppercase(s)
    }
}

/// `str::to_uppercase`. On ASCII text the result is the ASCII upper case; on
/// other text, where it follows the Unicode tables, the contract only names
/// it.
#[verifier::external_body]
fn uppercase(s: &str) -> (r: String)
    ensures
        r@ == if all_ascii(s@) {
            uppered(s@)
        } else {
            str_uppercase(s@)
        },
{
    s.to_uppercase()
}

/// The variable name made of an id in upper case.
pub open spec fn env_var_with(upper: Seq<char>) -> Seq<char> {
    upper + "_API_KEY"@
}

/// The variable name made of an id in upper case.
pub fn env_var_from(upper: &str) -> (r: String)
    ensures
        r@ == env_var_with(upper@),
{
    cat2(upper, "_API_KEY")
}

/// The environment variable that may hold the key of a connection.
pub open spec fn env_var_of(id: Seq<char>) -> Seq<char> {
    env_var_with(upper_text(id))
}

/// The environment variable that may hold the key of a connection.
pub fn api_key_env_var(id: &str) -> (r: String)
    ensures
        r@ == env_var_of(id@),
{
    let upper = uppercase(id);
    env_var_from(upper.as_str())
}

/// The first key found in the environment for `id`, if it is not empty.
pub open spec fn env_key_of(env: Seq<EnvKey>, id: Seq<char>, i: int) -> Option<Seq<char>>
    decreases env.len() - i,
{
    if i < 0 || i >= env.len() {
        None
    } else if env[i].connection_id@ == id {
        if env[i].key@.len() > 0 {
            Some(env[i].key@)
        } else {
            None
        }
    } else {
        env_key_of(env, id, i + 1)
    }
}

/// The key found in the environment for `id`, if it is not empty.
pub fn env_key(env: &Vec<EnvKey>, id: &str) -> (r: Option<String>)
    ensures
        r.deep_view() == env_key_of(env@, id@, 0),
{
    let mut i: usize = 0;
    while i < env.len()
        invariant
            i <= env@.len(),
            env_key_of(env@, id@, 0) == env_key_of(env@, id@, i as int),
        decreases env@.len() - i,
    {
        if str_eq(env[i].connection_id.as_str(), id) {
            if env[i].key.as_str().is_empty() {
                return None;
            }
            return Some(env[i].key.clone());
        }
        i += 1;
    }
    None
}

/// The key that an authentication holds: one that is neither empty nor an
/// unfilled `${..}` placeholder.
pub open spec fn usable_key(auth: AuthType) -> Option<Seq<char>> {
    match auth {
        AuthType::ApiKey(k) => if k@.len() > 0 && !begins_with(k@, "${"@) {
            Some(k@)
        } else {
            None
        },
        AuthType::NoKey => None,
    }
}

/// The key that an authentication holds, if it is usable.
pub fn usable_api_key(auth: &AuthType) -> (r: Option<String>)
    ensures
        r.deep_view() == usable_key(*auth),
{
    match auth {
        AuthType::ApiKey(k) => {
            if !k.as_str().is_empty() && !starts_with(k.as_str(), "${") {
                Some(k.clone())
            } else {
                None
            }
        },
        AuthType::NoKey => None,
    }
}

/// The key that the configuration holds for a connection.
pub open spec fn configured_key(cfg: Option<ProviderConfig>) -> Option<Seq<char>> {
    match cfg {
        Some(c) => usable_key(c.auth),
        None => None,
    }
}

/// The key that a connection is used with: the one from the environment, else
/// the configured one.
pub open spec fn key_for(cfg: Option<ProviderConfig>, env: Seq<EnvKey>, id: Seq<char>) -> Option<
    Seq<char>,
> {
    match env_key_of(env, id, 0) {
        Some(k) => Some(k),
        None => configured_key(cfg),
    }
}

/// The key that was saved for a connection, else the one from the environment.
pub open spec fn saved_key_for(
    cfg: Option<ProviderConfig>,
    env: Seq<EnvKey>,
    id: Seq<char>,
) -> Option<Seq<char>> {
    match configured_key(cfg) {
        Some(k) => Some(k),
        None => env_key_of(env, id, 0),
    }
}

/// The configuration of a connection, if there is one.
pub open spec fn config_of(cfg: Option<&ProviderConfig>) -> Option<ProviderConfig> {
    match cfg {
        Some(c) => Some(*c),
        None => None,
    }
}

/// The key that a connection is used with: the one from the environment, else
/// the configured one.
pub fn resolve_api_key_for(
    provider_id: &str,
    provider_cfg: Option<&ProviderConfig>,
    env: &Vec<EnvKey>,
) -> (r: Option<String>)
    ensures
        r.deep_view() == key_for(config_of(provider_cfg), env@, provider_id@),
{
    let key = env_key(env, provider_id);
    if key.is_some() {
        return key;
    }
    match provider_cfg {
        Some(c) => usable_api_key(&c.auth),
        None => None,
    }
}

/// The key that was saved for a connection, else the one from the environment.
pub fn saved_api_key_for(
    provider_id: &str,
    provider_cfg: Option<&ProviderConfig>,
    env: &Vec<EnvKey>,
) -> (r: Option<String>)
    ensures
        r.deep_view() == saved_key_for(config_of(provider_cfg), env@, provider_id@),
{
    if let Some(c) = provider_cfg {
        let key = usable_api_key(&c.auth);
        if key.is_some() {
            return key;
        }
    }
    env_key(env, provider_id)
}

/// A key from the environment always takes precedence over one from the
/// configuration.
pub proof fn environment_beats_configuration(
    cfg: Option<ProviderConfig>,
    env: Seq<EnvKey>,
    id: Seq<char>,
)
    requires
        env_key_of(env, id, 0) is Some,
    ensures
        key_for(cfg, env, id) == env_key_of(env, id, 0),
{
}

/// The key that a connection serves a bundle with: the one saved for it, else
/// the one from the environment. DeepSeek's variable always comes first.
pub open spec fn bundle_key_for(cfg: ProviderConfig, env: Seq<EnvKey>, id: Seq<char>) -> Option<
    Seq<char>,
> {
    if id == "deepseek"@ {
        key_for(Some(cfg), env, id)
    } else {
        saved_key_for(Some(cfg), env, id)
    }
}

/// The key that a connection serves a bundle with.
pub fn bundle_api_key(provider_id: &str, cfg: &ProviderConfig, env: &Vec<EnvKey>) -> (r: Option<
    String,
>)
    ensures
        r.deep_view() == bundle_key_for(*cfg, env@, provider_id@),
{
    if str_eq(provider_id, "deepseek") {
        resolve_api_key_for(provider_id, Some(cfg), env)
    } else {
        saved_api_key_for(provider_id, Some(cfg), env)
    }
}

/// In a bundle, a connection other than DeepSeek is used with its own saved
/// credentials wherever it has any, whatever the environment holds.
pub proof fn bundles_use_saved_keys(cfg: ProviderConfig, env: Seq<EnvKey>, id: Seq<char>)
    requires
        id != "deepseek"@,
        usable_key(cfg.auth) is Some,
    ensures
        bundle_key_for(cfg, env, id) == usable_key(cfg.auth),
{
}

// ---------------------------------------------------------------------------
// Bundles
// ---------------------------------------------------------------------------

/// The tiers that are tried, in order, for a request of tier `tier`. A local
/// request is only ever served by the local tier, and no other request is.
pub open spec fn ladder(tier: ModelProfile) -> Seq<ModelProfile> {
    let rest = seq![
        ModelProfile::Powerful,
        ModelProfile::Fast,
        ModelProfile::Code,
        ModelProfile::Judges,
    ];
    match tier {
        ModelProfile::Local => seq![ModelProfile::Local],
        ModelProfile::Code => seq![ModelProfile::Code, ModelProfile::Fast, ModelProfile::Judges]
            + rest,
        ModelProfile::Powerful => seq![
            ModelProfile::Powerful,
            ModelProfile::Fast,
            ModelProfile::Judges,
        ] + rest,
        ModelProfile::Fast => seq![ModelProfile::Fast, ModelProfile::Judges] + rest,
        ModelProfile::Judges => seq![ModelProfile::Judges] + rest,
    }
}

/// The first filled tier of `order`, from index `i` on.
pub open spec fn first_filled(tiers: BundleTiers, order: Seq<ModelProfile>, i: int) -> Option<
    BundleTier,
>
    decreases order.len() - i,
{
    if i < 0 || i >= order.len() {
        None
    } else if tiers.at(order[i]) is Some {
        tiers.at(order[i])
    } else {
        first_filled(tiers, order, i + 1)
    }
}

/// What a bundle serves a request of tier `tier` with.
pub open spec fn bundle_pick(tiers: BundleTiers, tier: ModelProfile) -> Option<BundleTier> {
    first_filled(tiers, ladder(tier), 0)
}

fn ladder_of(tier: ModelProfile) -> (r: Vec<ModelProfile>)
    ensures
        r@ == ladder(tier),
{
    let mut v: Vec<ModelProfile> = Vec::new();
    match tier {
        ModelProfile::Local => {
            v.push(ModelProfile::Local);
        },
        ModelProfile::Code => {
            v.push(ModelProfile::Code);
            v.push(ModelProfile::Fast);
            v.push(ModelProfile::Judges);
        },
        ModelProfile::Powerful => {
            v.push(ModelProfile::Powerful);
            v.push(ModelProfile::Fast);
            v.push(ModelProfile::Judges);
        },
        ModelProfile::Fast => {
            v.push(ModelProfile::Fast);
            v.push(ModelProfile::Judges);
        },
        ModelProfile::Judges => {
            v.push(ModelProfile::Judges);
        },
    }
    if tier != ModelProfile::Local {
        v.push(ModelProfile::Powerful);
        v.push(ModelProfile::Fast);
        v.push(ModelProfile::Code);
        v.push(ModelProfile::Judges);
    }
    proof {
        assert(v@ =~= ladder(tier));
    }
    v
}

fn first_of<'a>(tiers: &'a BundleTiers, order: &Vec<ModelProfile>) -> (r: Option<&'a BundleTier>)
    ensures
        r is Some == first_filled(*tiers, order@, 0) is Some,
        r matches Some(t) ==> first_filled(*tiers, order@, 0) == Some(*t),
{
    let mut i: usize = 0;
    while i < order.len()
        invariant
            i <= order@.len(),
            first_filled(*tiers, order@, 0) == first_filled(*tiers, order@, i as int),
        decreases order@.len() - i,
    {
        if let Some(t) = tiers.get(order[i]) {
            return Some(t);
        }
        i += 1;
    }
    None
}

/// What a bundle serves a request of tier `tier` with.
pub fn pick_bundle_tier<'a>(bundle: &'a Bundle, tier: ModelProfile) -> (r: Option<&'a BundleTier>)
    ensures
        r is Some == bundle_pick(bundle.tiers, tier) is Some,
        r matches Some(t) ==> bundle_pick(bundle.tiers, tier) == Some(*t),
{
    let order = ladder_of(tier);
    first_of(&bundle.tiers, &order)
}

/// The tiers in the order in which one is taken for the bundle as a whole.
pub open spec fn primary_order() -> Seq<ModelProfile> {
    seq![
        ModelProfile::Fast,
        ModelProfile::Judges,
        ModelProfile::Code,
        ModelProfile::Powerful,
        ModelProfile::Local,
    ]
}

/// The connection and model that stand for the bundle as a whole.
pub fn derive_primary_connection_pair<'a>(bundle: &'a Bundle) -> (r: Option<&'a BundleTier>)
    ensures
        r is Some == first_filled(bundle.tiers, primary_order(), 0) is Some,
        r matches Some(t) ==> first_filled(bundle.tiers, primary_order(), 0) == Some(*t),
{
    let mut order: Vec<ModelProfile> = Vec::new();
    order.push(ModelProfile::Fast);
    order.push(ModelProfile::Judges);
    order.push(ModelProfile::Code);
    order.push(ModelProfile::Powerful);
    order.push(ModelProfile::Local);
    proof {
        assert(order@ =~= primary_order());
    }
    first_of(&bundle.tiers, &order)
}

proof fn lemma_first_filled(tiers: BundleTiers, order: Seq<ModelProfile>, i: int, j: int)
    requires
        0 <= i <= j < order.len(),
        tiers.at(order[j]) is Some,
    ensures
        first_filled(tiers, order, i) is Some,
    decreases j - i,
{
    if tiers.at(order[i]) is None {
        lemma_first_filled(tiers, order, i + 1, j);
    }
}

proof fn lemma_first_filled_from(tiers: BundleTiers, order: Seq<ModelProfile>, i: int)
    requires
        0 <= i <= order.len(),
    ensures
        first_filled(tiers, order, i) is Some ==> exists|j: int|
            i <= j < order.len() && first_filled(tiers, order, i) == tiers.at(#[trigger] order[j]),
    decreases order.len() - i,
{
    if i < order.len() {
        if tiers.at(order[i]) is Some {
            assert(first_filled(tiers, order, i) == tiers.at(order[i]));
        } else {
            lemma_first_filled_from(tiers, order, i + 1);
        }
    }
}

/// A bundle that fills one cloud tier serves every cloud request, whichever
/// tier it asks for.
pub proof fn one_cloud_tier_serves_all(tiers: BundleTiers, filled: ModelProfile, asked: ModelProfile)
    requires
        filled != ModelProfile::Local,
        asked != ModelProfile::Local,
        tiers.at(filled) is Some,
    ensures
        bundle_pick(tiers, asked) is Some,
{
    let order = ladder(asked);
    let n = order.len() as int;
    assert(order[n - 4] == ModelProfile::Powerful);
    assert(order[n - 3] == ModelProfile::Fast);
    assert(order[n - 2] == ModelProfile::Code);
    assert(order[n - 1] == ModelProfile::Judges);
    match filled {
        ModelProfile::Powerful => lemma_first_filled(tiers, order, 0, n - 4),
        ModelProfile::Fast => lemma_first_filled(tiers, order, 0, n - 3),
        ModelProfile::Code => lemma_first_filled(tiers, order, 0, n - 2),
        _ => lemma_first_filled(tiers, order, 0, n - 1),
    }
}

/// The local tier is isolated: it alone serves local requests, and it serves
/// nothing else.
pub proof fn local_tier_is_isolated(tiers: BundleTiers, asked: ModelProfile)
    ensures
        bundle_pick(tiers, ModelProfile::Local) == tiers.at(ModelProfile::Local),
        asked != ModelProfile::Local && bundle_pick(tiers, asked) is Some ==> exists|t:
            ModelProfile|
            t != ModelProfile::Local && bundle_pick(tiers, asked) == #[trigger] tiers.at(t),
{
    assert(ladder(ModelProfile::Local)[0] == ModelProfile::Local);
    reveal_with_fuel(first_filled, 3);
    lemma_first_filled_from(tiers, ladder(asked), 0);
    if asked != ModelProfile::Local && bundle_pick(tiers, asked) is Some {
        let order = ladder(asked);
        let j = choose|j: int|
            0 <= j < order.len() && bundle_pick(tiers, asked) == tiers.at(#[trigger] order[j]);
        assert(order[j] != ModelProfile::Local);
    }
}

/// A filled tier is served by itself.
pub proof fn filled_tier_serves_itself(tiers: BundleTiers, tier: ModelProfile)
    requires
        tiers.at(tier) is Some,
    ensures
        bundle_pick(tiers, tier) == tiers.at(tier),
{
    assert(ladder(tier)[0] == tier);
}

// ---------------------------------------------------------------------------
// Arc pins
// ---------------------------------------------------------------------------

/// The provider, and the frozen model if there is one, for an arc.
#[derive(Debug, Clone, PartialEq, Eq)]
pub struct EffectiveProviderTarget {
    pub provider_id: String,
    /// Overrides every tier. Absent, the tiers are resolved live.
    pub pinned_slug: Option<String>,
}

/// The pin that an arc carries.
#[derive(Debug, Clone, PartialEq, Eq)]
pub struct ArcPin {
    pub pinned_provider_id: Option<String>,
    pub pinned_slug: Option<String>,
}

/// What looking the arc up gave: it is absent where there is no store, no
/// such arc, or the lookup failed.
#[derive(Debug, Clone, PartialEq, Eq)]
pub enum ArcLookup {
    Absent,
    Found(ArcPin),
}

/// A pin to install on an arc that has none.
#[derive(Debug, Clone, PartialEq, Eq)]
pub struct PinInstall {
    pub provider_id: String,
    pub slug: String,
}

/// Some bundle sends `connection` requests for `slug`.
pub open spec fn bundles_route(
    bundles: Seq<Bundle>,
    connection: Seq<char>,
    slug: Seq<char>,
) -> bool {
    exists|i: int|
        0 <= i < bundles.len() && (#[trigger] bundles[i]).tiers.routes(connection, slug)
}

/// `slug` is still a model that the user routes `connection` to. With an
/// active bundle only bundles count; without one, the connection's own models.
pub open spec fn slug_is_live(cfg: ModelsConfig, connection: Seq<char>, slug: Seq<char>) -> bool {
    if cfg.active_bundle_value() is Some {
        bundles_route(cfg.bundles@, connection, slug)
    } else {
        match cfg.provider_at(connection) {
            Some(p) => p.default_model@ == slug || p.tier_models.names(slug),
            None => false,
        }
    }
}

/// Is `slug` still a model that the user routes `connection_id` to?
pub fn pinned_slug_still_configured(cfg: &ModelsConfig, connection_id: &str, slug: &str) -> (r:
    bool)
    ensures
        r == slug_is_live(*cfg, connection_id@, slug@),
{
    if cfg.current_bundle().is_some() {
        let mut i: usize = 0;
        while i < cfg.bundles.len()
            invariant
                i <= cfg.bundles@.len(),
                cfg.active_bundle_value() is Some,
                forall|j: int|
                    0 <= j < i ==> !(#[trigger] cfg.bundles@[j]).tiers.routes(
                        connection_id@,
                        slug@,
                    ),
            decreases cfg.bundles@.len() - i,
        {
            if cfg.bundles[i].tiers.any_routes(connection_id, slug) {
                return true;
            }
            i += 1;
        }
        return false;
    }
    match cfg.provider(connection_id) {
        Some(p) => str_eq(p.default_model.as_str(), slug) || p.tier_models.any_names(slug),
        None => false,
    }
}

/// The model of a tier on a connection: its own, else the default one.
pub open spec fn tier_slug_of(p: ProviderConfig, tier: ModelProfile) -> Seq<char> {
    match p.tier_models.at(tier) {
        Some(s) => if s@.len() > 0 {
            s@
        } else {
            p.default_model@
        },
        None => p.default_model@,
    }
}

/// The connection and model for an arc without a pin: the active bundle's
/// pick where its connection exists, else the active provider's tier.
pub open spec fn unpinned_target(cfg: ModelsConfig, active: Seq<char>, tier: ModelProfile) -> (
    Seq<char>,
    Seq<char>,
) {
    match active_bundle_target(cfg, tier) {
        Some(pick) => pick,
        None => (
            active,
            match cfg.provider_at(active) {
                Some(p) => tier_slug_of(p, tier),
                None => Seq::empty(),
            },
        ),
    }
}

/// The active bundle's pick, where its connection exists.
pub open spec fn active_bundle_target(cfg: ModelsConfig, tier: ModelProfile) -> Option<
    (Seq<char>, Seq<char>),
> {
    match cfg.active_bundle_value() {
        Some(b) => match bundle_pick(b.tiers, tier) {
            Some(t) => if cfg.has_provider(t.connection_id@) {
                Some((t.connection_id@, t.slug@))
            } else {
                None
            },
            None => None,
        },
        None => None,
    }
}

/// The active bundle's pick, where its connection exists.
pub fn resolve_from_active_bundle(cfg: &ModelsConfig, tier: ModelProfile) -> (r: Option<
    (String, String),
>)
    ensures
        match r {
            Some(p) => active_bundle_target(*cfg, tier) == Some((p.0@, p.1@)),
            None => active_bundle_target(*cfg, tier) is None,
        },
{
    match cfg.current_bundle() {
        Some(b) => match pick_bundle_tier(b, tier) {
            Some(t) => match cfg.find_provider(t.connection_id.as_str()) {
                Some(_) => Some((t.connection_id.clone(), t.slug.clone())),
                None => None,
            },
            None => None,
        },
        None => None,
    }
}

/// The connection and model for an arc without a pin.
pub fn resolve_unpinned_target(
    cfg: &ModelsConfig,
    active_provider_id: &str,
    tier: ModelProfile,
) -> (r: (String, String))
    ensures
        (r.0@, r.1@) == unpinned_target(*cfg, active_provider_id@, tier),
{
    if let Some(pick) = resolve_from_active_bundle(cfg, tier) {
        return pick;
    }
    let slug = match cfg.provider(active_provider_id) {
        Some(p) => match p.tier_models.get(tier) {
            Some(s) => {
                if s.as_str().is_empty() {
                    p.default_model.clone()
                } else {
                    s.clone()
                }
            },
            None => p.default_model.clone(),
        },
        None => String::new(),
    };
    (owned(active_provider_id), slug)
}

/// The frozen model that a pin carries over: not empty, and still live.
pub open spec fn live_pin(cfg: ModelsConfig, connection: Seq<char>, slug: Option<Seq<char>>)
    -> Option<Seq<char>> {
    match slug {
        Some(s) => if s.len() > 0 && slug_is_live(cfg, connection, s) {
            Some(s)
        } else {
            None
        },
        None => None,
    }
}

/// The target of an arc whose lookup gave `arc`: provider and frozen model.
pub open spec fn effective_target(
    cfg: ModelsConfig,
    arc: ArcLookup,
    active: Seq<char>,
    tier: ModelProfile,
) -> (Seq<char>, Option<Seq<char>>) {
    match arc {
        ArcLookup::Absent => (active, None),
        ArcLookup::Found(pin) => match pin.pinned_provider_id {
            Some(p) => if cfg.has_provider(p@) {
                (p@, live_pin(cfg, p@, pin.pinned_slug.deep_view()))
            } else {
                (active, None)
            },
            None => (unpinned_target(cfg, active, tier).0, None),
        },
    }
}

/// The pin that the resolution installs: only on an arc that has none.
pub open spec fn pin_to_install(
    cfg: ModelsConfig,
    arc: ArcLookup,
    active: Seq<char>,
    tier: ModelProfile,
) -> Option<(Seq<char>, Seq<char>)> {
    match arc {
        ArcLookup::Absent => None,
        ArcLookup::Found(pin) => match pin.pinned_provider_id {
            Some(_) => None,
            None => Some(unpinned_target(cfg, active, tier)),
        },
    }
}

/// Resolves the provider for an arc. A pin whose provider is still configured
/// wins over the active provider, and its model holds as long as it is live.
/// An arc without a pin gets one, which the caller stores unless the arc has
/// been pinned in the meantime.
pub fn resolve_effective_provider_for_arc_with_config(
    arc: &ArcLookup,
    active_provider_id: &str,
    tier: ModelProfile,
    cfg: &ModelsConfig,
) -> (r: (EffectiveProviderTarget, Option<PinInstall>))
    ensures
        (r.0.provider_id@, r.0.pinned_slug.deep_view()) == effective_target(
            *cfg,
            *arc,
            active_provider_id@,
            tier,
        ),
        match r.1 {
            Some(p) => pin_to_install(*cfg, *arc, active_provider_id@, tier) == Some(
                (p.provider_id@, p.slug@),
            ),
            None => pin_to_install(*cfg, *arc, active_provider_id@, tier) is None,
        },
{
    match arc {
        ArcLookup::Absent => (
            EffectiveProviderTarget { provider_id: owned(active_provider_id), pinned_slug: None },
            None,
        ),
        ArcLookup::Found(pin) => match &pin.pinned_provider_id {
            Some(pinned) => {
                if cfg.find_provider(pinned.as_str()).is_some() {
                    let pinned_slug = match &pin.pinned_slug {
                        Some(s) => {
                            if !s.as_str().is_empty() && pinned_slug_still_configured(
                                cfg,
                                pinned.as_str(),
                                s.as_str(),
                            ) {
                                Some(s.clone())
                            } else {
                                None
                            }
                        },
                        None => None,
                    };
                    (EffectiveProviderTarget { provider_id: pinned.clone(), pinned_slug }, None)
                } else {
                    (
                        EffectiveProviderTarget {
                            provider_id: owned(active_provider_id),
                            pinned_slug: None,
                        },
                        None,
                    )
                }
            },
            None => {
                let (provider_id, slug) = resolve_unpinned_target(cfg, active_provider_id, tier);
                (
                    EffectiveProviderTarget { provider_id: provider_id.clone(), pinned_slug: None },
                    Some(PinInstall { provider_id, slug }),
                )
            },
        },
    }
}

/// The arc once a pin is stored: an arc that has one keeps it.
pub open spec fn pinned(arc: ArcPin, provider_id: String, slug: String) -> ArcPin {
    if arc.pinned_provider_id is Some {
        arc
    } else {
        ArcPin { pinned_provider_id: Some(provider_id), pinned_slug: Some(slug) }
    }
}

/// Stores a pin on an arc that has none; an arc that has one keeps it.
pub fn set_pinned_provider_if_unset(arc: &mut ArcPin, pin: PinInstall)
    ensures
        *final(arc) == pinned(*old(arc), pin.provider_id, pin.slug),
{
    if arc.pinned_provider_id.is_none() {
        arc.pinned_provider_id = Some(pin.provider_id);
        arc.pinned_slug = Some(pin.slug);
    }
}

/// The first call decides: once the pin that it asks for is stored, later
/// calls give the same provider whatever is active by then, as long as that
/// provider is configured, and the model it froze as long as that is live.
pub proof fn first_call_decides(
    cfg: ModelsConfig,
    arc: ArcPin,
    active: Seq<char>,
    tier: ModelProfile,
    provider_id: String,
    slug: String,
    later_cfg: ModelsConfig,
    later_active: Seq<char>,
    later_tier: ModelProfile,
)
    requires
        pin_to_install(cfg, ArcLookup::Found(arc), active, tier) == Some((provider_id@, slug@)),
        later_cfg.has_provider(provider_id@),
    ensures
        ({
            let after = ArcLookup::Found(pinned(arc, provider_id, slug));
            let later = effective_target(later_cfg, after, later_active, later_tier);
            &&& later.0 == effective_target(cfg, ArcLookup::Found(arc), active, tier).0
            &&& later.1 == if slug@.len() > 0 && slug_is_live(later_cfg, provider_id@, slug@) {
                Some(slug@)
            } else {
                None
            }
            &&& pin_to_install(later_cfg, after, later_active, later_tier) is None
        }),
{
}

/// A frozen model never reaches a provider that it was not captured for, and
/// it is always a live one.
pub proof fn frozen_model_belongs_to_the_pinned_provider(
    cfg: ModelsConfig,
    arc: ArcLookup,
    active: Seq<char>,
    tier: ModelProfile,
)
    ensures
        effective_target(cfg, arc, active, tier).1 matches Some(s) ==> {
            &&& arc matches ArcLookup::Found(pin)
            &&& pin.pinned_provider_id.deep_view() == Some(
                effective_target(cfg, arc, active, tier).0,
            )
            &&& pin.pinned_slug.deep_view() == Some(s)
            &&& slug_is_live(cfg, effective_target(cfg, arc, active, tier).0, s)
        },
{
}

/// With an active bundle, a model that no bundle routes to is not live, even
/// where it is the connection's own default.
pub proof fn bundles_are_authoritative(cfg: ModelsConfig, connection: Seq<char>, slug: Seq<char>)
    requires
        cfg.active_bundle_value() is Some,
        !bundles_route(cfg.bundles@, connection, slug),
    ensures
        !slug_is_live(cfg, connection, slug),
{
}

/// An arc uses the shared router exactly where nothing is frozen and its
/// provider is the active one.
pub fn uses_shared_router(target: &EffectiveProviderTarget, active_provider_id: &str) -> (r: bool)
    ensures
        r == (target.pinned_slug is None && target.provider_id@ == active_provider_id@),
{
    target.pinned_slug.is_none() && str_eq(target.provider_id.as_str(), active_provider_id)
}

// ---------------------------------------------------------------------------
// Tiers, security and code mode of an arc
// ---------------------------------------------------------------------------

/// How demanding a task was judged to be.
#[derive(Clone, Copy, Debug, PartialEq, Eq, Structural)]
pub enum ComplexityTag {
    Low,
    Medium,
    High,
}

/// The tier that a stored override names.
pub open spec fn profile_of_wire(s: Seq<char>) -> Option<ModelProfile> {
    let t = trim_spec(s);
    if t == "Powerful"@ {
        Some(ModelProfile::Powerful)
    } else if t == "Fast"@ {
        Some(ModelProfile::Fast)
    } else if t == "Code"@ {
        Some(ModelProfile::Code)
    } else if t == "Judges"@ || t == "Cheap"@ {
        Some(ModelProfile::Judges)
    } else if t == "Local"@ {
        Some(ModelProfile::Local)
    } else {
        None
    }
}

/// The tier that a stored override names; `Cheap` is the former name of
/// `Judges`.
pub fn parse_model_profile_wire(s: &str) -> (r: Option<ModelProfile>)
    ensures
        r == profile_of_wire(s@),
{
    let t = trim(s);
    let t = t.as_str();
    if str_eq(t, "Powerful") {
        Some(ModelProfile::Powerful)
    } else if str_eq(t, "Fast") {
        Some(ModelProfile::Fast)
    } else if str_eq(t, "Code") {
        Some(ModelProfile::Code)
    } else if str_eq(t, "Judges") || str_eq(t, "Cheap") {
        Some(ModelProfile::Judges)
    } else if str_eq(t, "Local") {
        Some(ModelProfile::Local)
    } else {
        None
    }
}

/// Why a tier was chosen, where no override did.
pub open spec fn signal_reason(complexity: Option<ComplexityTag>, is_code: bool) -> Seq<char> {
    if complexity == Some(ComplexityTag::High) {
        "complexity_high"@
    } else if is_code {
        "code_task"@
    } else {
        match complexity {
            Some(ComplexityTag::Low) => "complexity_low"@,
            Some(_) => "complexity_medium"@,
            None => "default"@,
        }
    }
}

/// The tier that the task's signals ask for: a demanding task goes to the
/// powerful tier even where it is about code; other code goes to the code
/// tier; without any signal the default holds. What is left, `mapped` says.
pub open spec fn signalled_tier(
    complexity: Option<ComplexityTag>,
    is_code: bool,
    default: ModelProfile,
    mapped: ModelProfile,
) -> ModelProfile {
    if complexity == Some(ComplexityTag::High) {
        ModelProfile::Powerful
    } else if complexity is Some && is_code {
        ModelProfile::Code
    } else if complexity is None && !is_code {
        default
    } else {
        mapped
    }
}

/// The tier that the task's signals ask for, with the reason for it.
pub fn complexity_path(
    task_complexity: Option<ComplexityTag>,
    task_is_code: bool,
    default_label: ModelProfile,
    mapped: ModelProfile,
) -> (r: (ModelProfile, &'static str))
    ensures
        r.0 == signalled_tier(task_complexity, task_is_code, default_label, mapped),
        r.1@ == signal_reason(task_complexity, task_is_code),
{
    match task_complexity {
        Some(ComplexityTag::High) => (ModelProfile::Powerful, "complexity_high"),
        Some(ComplexityTag::Low) => if task_is_code {
            (ModelProfile::Code, "code_task")
        } else {
            (mapped, "complexity_low")
        },
        Some(ComplexityTag::Medium) => if task_is_code {
            (ModelProfile::Code, "code_task")
        } else {
            (mapped, "complexity_medium")
        },
        None => if task_is_code {
            (mapped, "code_task")
        } else {
            (default_label, "default")
        },
    }
}

/// The tier of an arc's executor, given its override.
pub open spec fn executor_tier(
    tier_override: Option<Seq<char>>,
    complexity: Option<ComplexityTag>,
    is_code: bool,
    default: ModelProfile,
    mapped: ModelProfile,
) -> ModelProfile {
    let signalled = signalled_tier(complexity, is_code, default, mapped);
    match tier_override {
        Some(raw) => match profile_of_wire(raw) {
            Some(t) => t,
            None => signalled,
        },
        None => signalled,
    }
}

/// The tier of an arc's executor, and the reason for it: the arc's override
/// where it names a tier, else what the task's signals ask for.
pub fn resolve_effective_tier_for_arc(
    tier_override: &Option<String>,
    task_complexity: Option<ComplexityTag>,
    task_is_code: bool,
    default_label: ModelProfile,
    mapped: ModelProfile,
) -> (r: (ModelProfile, &'static str))
    ensures
        r.0 == executor_tier(
            tier_override.deep_view(),
            task_complexity,
            task_is_code,
            default_label,
            mapped,
        ),
        r.1@ == if tier_override matches Some(raw) && profile_of_wire(raw@) is Some {
            "override"@
        } else {
            signal_reason(task_complexity, task_is_code)
        },
{
    if let Some(raw) = tier_override {
        if let Some(t) = parse_model_profile_wire(raw.as_str()) {
            return (t, "override");
        }
    }
    complexity_path(task_complexity, task_is_code, default_label, mapped)
}

/// An override that names a tier beats every signal.
pub proof fn overrides_beat_signals(
    raw: Seq<char>,
    complexity: Option<ComplexityTag>,
    is_code: bool,
    default: ModelProfile,
    mapped: ModelProfile,
)
    requires
        profile_of_wire(raw) is Some,
    ensures
        Some(executor_tier(Some(raw), complexity, is_code, default, mapped)) == profile_of_wire(
            raw,
        ),
{
}

/// A demanding task beats the code flag, and the code flag beats the rest.
pub proof fn demanding_tasks_beat_code(
    complexity: Option<ComplexityTag>,
    is_code: bool,
    default: ModelProfile,
    mapped: ModelProfile,
)
    ensures
        complexity == Some(ComplexityTag::High) ==> executor_tier(
            None,
            complexity,
            is_code,
            default,
            mapped,
        ) == ModelProfile::Powerful,
        is_code && complexity is Some && complexity != Some(ComplexityTag::High) ==> executor_tier(
            None,
            complexity,
            is_code,
            default,
            mapped,
        ) == ModelProfile::Code,
{
}

/// How much the assistant may do on its own.
#[derive(Clone, Copy, Debug, PartialEq, Eq, Structural)]
pub enum SecurityMode {
    Bunker,
    Assistant,
    Yolo,
}

/// The security mode of an arc: its own override, else the global mode.
pub fn resolve_security_mode_for_arc(
    arc_override: Option<SecurityMode>,
    global_default: SecurityMode,
) -> (r: SecurityMode)
    ensures
        r == match arc_override {
            Some(m) => m,
            None => global_default,
        },
{
    match arc_override {
        Some(m) => m,
        None => global_default,
    }
}

/// The reasoning effort of an arc: its own override, where there is one that
/// can be read, else the default.
pub fn resolve_reasoning_effort_for_arc<E>(arc_override: Option<E>, default_effort: E) -> (r: E)
    ensures
        r == match arc_override {
            Some(e) => e,
            None => default_effort,
        },
{
    match arc_override {
        Some(e) => e,
        None => default_effort,
    }
}

/// The repository root of an arc in code mode: the mode is on, and the root
/// names a directory that exists.
pub fn resolve_code_mode_for_arc(
    code_mode: Option<bool>,
    code_mode_root: Option<String>,
    root_is_dir: bool,
) -> (r: Option<String>)
    ensures
        r == if code_mode == Some(true) && root_is_dir {
            code_mode_root
        } else {
            None
        },
{
    match code_mode {
        Some(on) => if on && root_is_dir {
            code_mode_root
        } else {
            None
        },
        None => None,
    }
}

// ---------------------------------------------------------------------------
// Provider instances
// ---------------------------------------------------------------------------

/// The wire protocol that a provider instance speaks.
#[derive(Clone, Copy, Debug, PartialEq, Eq, Structural)]
pub enum Adapter {
    DeepSeek,
    Anthropic,
    OpenAiCompatible,
    Google,
    Ollama,
    LlamaCpp,
}

/// How to construct one provider instance. What is absent is left to the
/// adapter.
#[derive(Clone, Debug, PartialEq, Eq)]
pub struct ProviderInstance {
    pub adapter: Adapter,
    pub model: Option<String>,
    pub base_url: Option<String>,
    pub api_key: Option<String>,
    pub provider_id: Option<String>,
    pub vision: Option<bool>,
    pub documents: Option<bool>,
    pub family: String,
}

/// The model of a provider instance.
pub struct InstanceModel {
    pub adapter: Adapter,
    pub model: Option<Seq<char>>,
    pub base_url: Option<Seq<char>>,
    pub api_key: Option<Seq<char>>,
    pub provider_id: Option<Seq<char>>,
    pub vision: Option<bool>,
    pub documents: Option<bool>,
    pub family: Seq<char>,
}

impl View for ProviderInstance {
    type V = InstanceModel;

    open spec fn view(&self) -> InstanceModel {
        InstanceModel {
            adapter: self.adapter,
            model: self.model.deep_view(),
            base_url: self.base_url.deep_view(),
            api_key: self.api_key.deep_view(),
            provider_id: self.provider_id.deep_view(),
            vision: self.vision,
            documents: self.documents,
            family: self.family@,
        }
    }
}

/// The family recorded for one model on one connection.
#[derive(Clone, Debug, PartialEq, Eq)]
pub struct SlugQuirk {
    pub provider_id: String,
    pub slug: String,
    pub family: String,
}

/// The family recorded for the model, from entry `i` on.
pub open spec fn quirk_of(
    quirks: Seq<SlugQuirk>,
    provider_id: Seq<char>,
    slug: Seq<char>,
    i: int,
) -> Option<Seq<char>>
    decreases quirks.len() - i,
{
    if i < 0 || i >= quirks.len() {
        None
    } else if quirks[i].provider_id@ == provider_id && quirks[i].slug@ == slug {
        Some(quirks[i].family@)
    } else {
        quirk_of(quirks, provider_id, slug, i + 1)
    }
}

/// The family of a model: the recorded one, else that of its connection.
pub open spec fn family_for(
    quirks: Seq<SlugQuirk>,
    provider_id: Seq<char>,
    slug: Seq<char>,
    fallback: Seq<char>,
) -> Seq<char> {
    match quirk_of(quirks, provider_id, slug, 0) {
        Some(f) => f,
        None => fallback,
    }
}

fn slug_family(quirks: &Vec<SlugQuirk>, provider_id: &str, slug: &str, fallback: &str) -> (r:
    String)
    ensures
        r@ == family_for(quirks@, provider_id@, slug@, fallback@),
{
    let mut i: usize = 0;
    while i < quirks.len()
        invariant
            i <= quirks@.len(),
            quirk_of(quirks@, provider_id@, slug@, 0) == quirk_of(
                quirks@,
                provider_id@,
                slug@,
                i as int,
            ),
        decreases quirks@.len() - i,
    {
        if str_eq(quirks[i].provider_id.as_str(), provider_id) && str_eq(
            quirks[i].slug.as_str(),
            slug,
        ) {
            return quirks[i].family.clone();
        }
        i += 1;
    }
    owned(fallback)
}

/// A slug of the MiniMax M2 generation, in any case: the name alone, or
/// followed by a dot, a hyphen or an underscore.
pub open spec fn is_minimax(slug: Seq<char>) -> bool {
    let low = lowered(slug);
    let name = "minimax-m2"@;
    begins_with(low, name) && (low.len() == name.len() || low[name.len() as int] == '.' || low[
        name.len() as int] == '-' || low[name.len() as int] == '_')
}

/// Does the slug name a MiniMax M2 model?
pub fn is_minimax_slug(slug: &str) -> (r: bool)
    ensures
        r == is_minimax(slug@),
{
    let low = ascii_lowercase(slug);
    if !starts_with(low.as_str(), "minimax-m2") {
        return false;
    }
    let v = chars_of(low.as_str());
    let name = chars_of("minimax-m2");
    let n: usize = name.len();
    v.len() == n || v[n] == '.' || v[n] == '-' || v[n] == '_'
}

/// The base URL to set on an adapter: none where it is the adapter's own.
pub open spec fn override_url(base_url: Seq<char>, own: Seq<char>) -> Option<Seq<char>> {
    if base_url == own {
        None
    } else {
        Some(base_url)
    }
}

/// As `override_url`, where an empty URL is none either.
pub open spec fn override_url_set(base_url: Seq<char>, own: Seq<char>) -> Option<Seq<char>> {
    if base_url.len() == 0 {
        None
    } else {
        override_url(base_url, own)
    }
}

fn url_unless(base_url: &str, own: &str) -> (r: Option<String>)
    ensures
        r.deep_view() == override_url(base_url@, own@),
{
    if str_eq(base_url, own) {
        None
    } else {
        Some(owned(base_url))
    }
}

fn url_unless_set(base_url: &str, own: &str) -> (r: Option<String>)
    ensures
        r.deep_view() == override_url_set(base_url@, own@),
{
    if base_url.is_empty() {
        None
    } else {
        url_unless(base_url, own)
    }
}

/// The key handed to an adapter that always takes one.
pub open spec fn key_or_empty(key: Option<Seq<char>>) -> Option<Seq<char>> {
    Some(
        match key {
            Some(k) => k,
            None => Seq::empty(),
        },
    )
}

/// The instance that serves `model` on the provider `id`.
pub open spec fn instance_of(
    id: Seq<char>,
    base_url: Seq<char>,
    model: Seq<char>,
    key: Option<Seq<char>>,
    vision: bool,
    documents: bool,
    family: Seq<char>,
) -> InstanceModel {
    let plain = InstanceModel {
        adapter: Adapter::OpenAiCompatible,
        model: Some(model),
        base_url: Some(base_url),
        api_key: key,
        provider_id: Some(id),
        vision: Some(vision),
        documents: Some(documents),
        family,
    };
    if id == "deepseek"@ {
        InstanceModel {
            adapter: Adapter::DeepSeek,
            model: if model == "deepseek-chat"@ {
                None
            } else {
                Some(model)
            },
            base_url: override_url(base_url, "https://api.deepseek.com"@),
            api_key: key_or_empty(key),
            provider_id: None,
            vision: None,
            documents: None,
            family,
        }
    } else if id == "anthropic"@ || id == "minimax_anthropic"@ || id == "kimi_code"@ {
        InstanceModel {
            adapter: Adapter::Anthropic,
            model: Some(
                if id == "minimax_anthropic"@ || is_minimax(model) {
                    lowered(model)
                } else {
                    model
                },
            ),
            base_url: override_url_set(base_url, "https://api.anthropic.com"@),
            api_key: key_or_empty(key),
            provider_id: None,
            ..plain
        }
    } else if id == "opencode_go"@ {
        if is_minimax(model) {
            InstanceModel {
                adapter: Adapter::Anthropic,
                model: Some(lowered(model)),
                base_url: if base_url.len() == 0 {
                    None
                } else {
                    Some(base_url)
                },
                api_key: key_or_empty(key),
                provider_id: None,
                ..plain
            }
        } else {
            InstanceModel { api_key: key_or_empty(key), ..plain }
        }
    } else if id == "google"@ {
        InstanceModel {
            adapter: Adapter::Google,
            base_url: override_url_set(base_url, "https://generativelanguage.googleapis.com"@),
            api_key: key_or_empty(key),
            provider_id: None,
            ..plain
        }
    } else if id == "ollama"@ {
        InstanceModel {
            adapter: Adapter::Ollama,
            base_url: override_url(base_url, "http://localhost:11434"@),
            api_key: None,
            provider_id: None,
            vision: None,
            documents: None,
            ..plain
        }
    } else if id == "llamacpp"@ {
        InstanceModel {
            adapter: Adapter::LlamaCpp,
            api_key: None,
            provider_id: None,
            vision: None,
            documents: None,
            ..plain
        }
    } else {
        plain
    }
}

fn key_text(key: &Option<String>) -> (r: Option<String>)
    ensures
        r.deep_view() == key_or_empty(key.deep_view()),
{
    match key {
        Some(k) => Some(k.clone()),
        None => Some(String::new()),
    }
}

/// The instance that serves `model` on a provider. A family recorded for the
/// model wins over that of the connection, and MiniMax slugs go out in lower
/// case.
pub fn build_provider_instance(
    provider_id: &str,
    base_url: &str,
    model: &str,
    api_key: &Option<String>,
    supports_vision: bool,
    supports_documents: bool,
    family: &str,
    quirks: &Vec<SlugQuirk>,
) -> (r: ProviderInstance)
    ensures
        r@ == instance_of(
            provider_id@,
            base_url@,
            model@,
            api_key.deep_view(),
            supports_vision,
            supports_documents,
            family_for(quirks@, provider_id@, model@, family@),
        ),
{
    let family = slug_family(quirks, provider_id, model, family);
    if str_eq(provider_id, "deepseek") {
        ProviderInstance {
            adapter: Adapter::DeepSeek,
            model: if str_eq(model, "deepseek-chat") {
                None
            } else {
                Some(owned(model))
            },
            base_url: url_unless(base_url, "https://api.deepseek.com"),
            api_key: key_text(api_key),
            provider_id: None,
            vision: None,
            documents: None,
            family,
        }
    } else if str_eq(provider_id, "anthropic") || str_eq(provider_id, "minimax_anthropic")
        || str_eq(provider_id, "kimi_code") {
        let model_for_wire = if str_eq(provider_id, "minimax_anthropic") || is_minimax_slug(
            model,
        ) {
            ascii_lowercase(model)
        } else {
            owned(model)
        };
        ProviderInstance {
            adapter: Adapter::Anthropic,
            model: Some(model_for_wire),
            base_url: url_unless_set(base_url, "https://api.anthropic.com"),
            api_key: key_text(api_key),
            provider_id: None,
            vision: Some(supports_vision),
            documents: Some(supports_documents),
            family,
        }
    } else if str_eq(provider_id, "opencode_go") {
        if is_minimax_slug(model) {
            ProviderInstance {
                adapter: Adapter::Anthropic,
                model: Some(ascii_lowercase(model)),
                base_url: if base_url.is_empty() {
                    None
                } else {
                    Some(owned(base_url))
                },
                api_key: key_text(api_key),
                provider_id: None,
                vision: Some(supports_vision),
                documents: Some(supports_documents),
                family,
            }
        } else {
            ProviderInstance {
                adapter: Adapter::OpenAiCompatible,
                model: Some(owned(model)),
                base_url: Some(owned(base_url)),
                api_key: key_text(api_key),
                provider_id: Some(owned(provider_id)),
                vision: Some(supports_vision),
                documents: Some(supports_documents),
                family,
            }
        }
    } else if str_eq(provider_id, "google") {
        ProviderInstance {
            adapter: Adapter::Google,
            model: Some(owned(model)),
            base_url: url_unless_set(base_url, "https://generativelanguage.googleapis.com"),
            api_key: key_text(api_key),
            provider_id: None,
            vision: Some(supports_vision),
            documents: Some(supports_documents),
            family,
        }
    } else if str_eq(provider_id, "ollama") {
        ProviderInstance {
            adapter: Adapter::Ollama,
            model: Some(owned(model)),
            base_url: url_unless(base_url, "http://localhost:11434"),
            api_key: None,
            provider_id: None,
            vision: None,
            documents: None,
            family,
        }
    } else if str_eq(provider_id, "llamacpp") {
        ProviderInstance {
            adapter: Adapter::LlamaCpp,
            model: Some(owned(model)),
            base_url: Some(owned(base_url)),
            api_key: None,
            provider_id: None,
            vision: None,
            documents: None,
            family,
        }
    } else {
        ProviderInstance {
            adapter: Adapter::OpenAiCompatible,
            model: Some(owned(model)),
            base_url: Some(owned(base_url)),
            api_key: copy_opt(api_key),
            provider_id: Some(owned(provider_id)),
            vision: Some(supports_vision),
            documents: Some(supports_documents),
            family,
        }
    }
}

// ---------------------------------------------------------------------------
// What routing promises
// ---------------------------------------------------------------------------

/// A tier that a bundle does not fill is served by the fast one where that is
/// filled, and by the judges' tier only where neither is. Where none of them
/// is, whatever other cloud tier is filled serves it, the powerful one first.
pub proof fn missing_tiers_are_served_by_fast(tiers: BundleTiers)
    ensures
        tiers.at(ModelProfile::Powerful) is None && tiers.at(ModelProfile::Fast) is Some
            ==> bundle_pick(tiers, ModelProfile::Powerful) == tiers.at(ModelProfile::Fast),
        tiers.at(ModelProfile::Code) is None && tiers.at(ModelProfile::Fast) is Some
            ==> bundle_pick(tiers, ModelProfile::Code) == tiers.at(ModelProfile::Fast),
        tiers.at(ModelProfile::Powerful) is None && tiers.at(ModelProfile::Fast) is None
            && tiers.at(ModelProfile::Judges) is Some ==> bundle_pick(tiers, ModelProfile::Powerful)
            == tiers.at(ModelProfile::Judges),
        tiers.at(ModelProfile::Code) is None && tiers.at(ModelProfile::Fast) is None && tiers.at(
            ModelProfile::Judges,
        ) is Some ==> bundle_pick(tiers, ModelProfile::Code) == tiers.at(ModelProfile::Judges),
        tiers.at(ModelProfile::Fast) is None && tiers.at(ModelProfile::Judges) is Some
            ==> bundle_pick(tiers, ModelProfile::Fast) == tiers.at(ModelProfile::Judges),
        tiers.at(ModelProfile::Fast) is None && tiers.at(ModelProfile::Judges) is None ==> {
            &&& tiers.at(ModelProfile::Powerful) is Some ==> bundle_pick(tiers, ModelProfile::Fast)
                == tiers.at(ModelProfile::Powerful)
            &&& tiers.at(ModelProfile::Powerful) is None ==> bundle_pick(tiers, ModelProfile::Fast)
                == tiers.at(ModelProfile::Code)
            &&& tiers.at(ModelProfile::Powerful) is None ==> bundle_pick(
                tiers,
                ModelProfile::Powerful,
            ) == tiers.at(ModelProfile::Code)
            &&& tiers.at(ModelProfile::Code) is None ==> bundle_pick(tiers, ModelProfile::Code)
                == tiers.at(ModelProfile::Powerful)
        },
        tiers.at(ModelProfile::Judges) is None ==> {
            &&& tiers.at(ModelProfile::Powerful) is Some ==> bundle_pick(
                tiers,
                ModelProfile::Judges,
            ) == tiers.at(ModelProfile::Powerful)
            &&& tiers.at(ModelProfile::Powerful) is None && tiers.at(ModelProfile::Fast) is Some
                ==> bundle_pick(tiers, ModelProfile::Judges) == tiers.at(ModelProfile::Fast)
            &&& tiers.at(ModelProfile::Powerful) is None && tiers.at(ModelProfile::Fast) is None
                ==> bundle_pick(tiers, ModelProfile::Judges) == tiers.at(ModelProfile::Code)
        },
{
    reveal_with_fuel(first_filled, 8);
}

/// The judges' tier serves a request for another one only where neither that
/// one nor the fast tier is filled.
pub proof fn judges_serve_others_last(tiers: BundleTiers, asked: ModelProfile)
    requires
        asked == ModelProfile::Powerful || asked == ModelProfile::Code || asked
            == ModelProfile::Fast,
        tiers.at(asked) is Some || tiers.at(ModelProfile::Fast) is Some,
    ensures
        bundle_pick(tiers, asked) == if tiers.at(asked) is Some {
            tiers.at(asked)
        } else {
            tiers.at(ModelProfile::Fast)
        },
{
    reveal_with_fuel(first_filled, 3);
}

/// A bundle as a whole stands for its fast tier, and for the local one only
/// where it fills no other.
pub proof fn bundles_stand_for_their_fast_tier(tiers: BundleTiers)
    ensures
        ({
            let primary = first_filled(tiers, primary_order(), 0);
            &&& tiers.at(ModelProfile::Fast) is Some ==> primary == tiers.at(ModelProfile::Fast)
            &&& tiers.at(ModelProfile::Fast) is None && tiers.at(ModelProfile::Judges) is Some
                ==> primary == tiers.at(ModelProfile::Judges)
            &&& tiers.at(ModelProfile::Fast) is None && tiers.at(ModelProfile::Judges) is None
                && tiers.at(ModelProfile::Code) is Some ==> primary == tiers.at(ModelProfile::Code)
            &&& tiers.at(ModelProfile::Fast) is None && tiers.at(ModelProfile::Judges) is None
                && tiers.at(ModelProfile::Code) is None && tiers.at(ModelProfile::Powerful) is Some
                ==> primary == tiers.at(ModelProfile::Powerful)
            &&& (forall|t: ModelProfile|
                t != ModelProfile::Local ==> (#[trigger] tiers.at(t)) is None) ==> primary
                == tiers.at(ModelProfile::Local)
        }),
{
    reveal_with_fuel(first_filled, 6);
}

/// The provider that was assigned is the active one; DeepSeek only stands in
/// for a missing or empty assignment.
pub proof fn the_assigned_provider_is_active(cfg: ModelsConfig)
    ensures
        cfg.active_provider matches Some(id) ==> (id@.len() > 0 ==> active_provider_of(cfg) == id@),
        cfg.active_provider matches Some(id) && id@.len() == 0 ==> active_provider_of(cfg)
            == "deepseek"@,
        cfg.active_provider is None ==> active_provider_of(cfg) == "deepseek"@,
{
}

/// The variable of a connection is its id in upper case, followed by
/// `_API_KEY`.
pub proof fn variables_are_named_after_the_connection(id: Seq<char>)
    requires
        all_ascii(id),
    ensures
        env_var_of(id) == uppered(id) + "_API_KEY"@,
        env_var_of(id).len() == id.len() + "_API_KEY"@.len(),
        forall|i: int|
            0 <= i < id.len() ==> #[trigger] env_var_of(id)[i] == (if 'a' <= id[i] <= 'z' {
                (id[i] as u8 - 32) as u8 as char
            } else {
                id[i]
            }),
{
}

/// The first entry for a connection holds its key; an empty one is no key,
/// and the entries of other connections never count.
pub proof fn the_environment_is_read_by_connection(env: Seq<EnvKey>, id: Seq<char>, i: int)
    requires
        0 <= i <= env.len(),
        forall|j: int| 0 <= j < i ==> (#[trigger] env[j]).connection_id@ != id,
    ensures
        i == env.len() ==> env_key_of(env, id, 0) is None,
        i < env.len() && env[i].connection_id@ == id && env[i].key@.len() > 0 ==> env_key_of(
            env,
            id,
            0,
        ) == Some(env[i].key@),
        i < env.len() && env[i].connection_id@ == id && env[i].key@.len() == 0 ==> env_key_of(
            env,
            id,
            0,
        ) is None,
{
    lemma_env_key_skips(env, id, 0, i);
}

proof fn lemma_env_key_skips(env: Seq<EnvKey>, id: Seq<char>, from: int, i: int)
    requires
        0 <= from <= i <= env.len(),
        forall|j: int| from <= j < i ==> (#[trigger] env[j]).connection_id@ != id,
    ensures
        env_key_of(env, id, from) == env_key_of(env, id, i),
    decreases i - from,
{
    if from < i {
        assert(env[from].connection_id@ != id);
        lemma_env_key_skips(env, id, from + 1, i);
    }
}

/// A key is usable exactly where it is filled in, and then it is used as it
/// was written.
pub proof fn keys_are_used_as_written(k: String)
    ensures
        usable_key(AuthType::NoKey) is None,
        usable_key(AuthType::ApiKey(k)) is Some <==> k@.len() > 0 && !(k@.len() >= 2 && k@[0] == '$'
            && k@[1] == '{'),
        usable_key(AuthType::ApiKey(k)) matches Some(key) ==> key == k@,
{
    reveal_strlit("${");
    if k@.len() >= 2 && k@[0] == '$' && k@[1] == '{' {
        assert(k@.subrange(0, 2) =~= "${"@);
    }
    if begins_with(k@, "${"@) {
        assert(k@[0] == k@.subrange(0, 2)[0] && k@[1] == k@.subrange(0, 2)[1]);
    }
}

/// A request uses the configured key only where the environment has none; a
/// bundle uses the environment's only where nothing usable was saved, except
/// for DeepSeek.
pub proof fn keys_have_an_order(cfg: ProviderConfig, env: Seq<EnvKey>, id: Seq<char>)
    ensures
        env_key_of(env, id, 0) matches Some(k) ==> key_for(Some(cfg), env, id) == Some(k),
        env_key_of(env, id, 0) is None ==> key_for(Some(cfg), env, id) == usable_key(cfg.auth),
        key_for(None, env, id) == env_key_of(env, id, 0),
        usable_key(cfg.auth) matches Some(k) ==> saved_key_for(Some(cfg), env, id) == Some(k),
        usable_key(cfg.auth) is None ==> saved_key_for(Some(cfg), env, id) == env_key_of(
            env,
            id,
            0,
        ),
        saved_key_for(None, env, id) == env_key_of(env, id, 0),
        id == "deepseek"@ && env_key_of(env, id, 0) is Some ==> bundle_key_for(cfg, env, id)
            == env_key_of(env, id, 0),
        id == "deepseek"@ && env_key_of(env, id, 0) is None ==> bundle_key_for(cfg, env, id)
            == usable_key(cfg.auth),
        id != "deepseek"@ && usable_key(cfg.auth) is None ==> bundle_key_for(cfg, env, id)
            == env_key_of(env, id, 0),
{
}

/// A model is live where a bundle sends the connection requests for it, or,
/// without an active bundle, where it is the connection's default or one of
/// its tiers'.
pub proof fn live_models_are_in_use(
    cfg: ModelsConfig,
    connection: Seq<char>,
    slug: Seq<char>,
    i: int,
    tier: ModelProfile,
)
    ensures
        cfg.active_bundle_value() is Some && 0 <= i < cfg.bundles@.len() && (
        cfg.bundles@[i].tiers.at(tier) matches Some(t) && t.connection_id@ == connection && t.slug@
            == slug) ==> slug_is_live(cfg, connection, slug),
        cfg.active_bundle_value() is Some && slug_is_live(cfg, connection, slug) ==> exists|
            k: int,
            t: ModelProfile,
        |
            0 <= k < cfg.bundles@.len() && (#[trigger] cfg.bundles@[k].tiers.at(t) matches Some(b)
                && b.connection_id@ == connection && b.slug@ == slug),
        cfg.active_bundle_value() is None && cfg.provider_at(connection) is None ==> !slug_is_live(
            cfg,
            connection,
            slug,
        ),
        cfg.active_bundle_value() is None ==> (cfg.provider_at(connection) matches Some(p) ==> {
            &&& p.default_model@ == slug ==> slug_is_live(cfg, connection, slug)
            &&& (p.tier_models.at(tier) matches Some(s) && s@ == slug) ==> slug_is_live(
                cfg,
                connection,
                slug,
            )
            &&& slug_is_live(cfg, connection, slug) && p.default_model@ != slug ==> exists|
                t: ModelProfile,
            | (#[trigger] p.tier_models.at(t)) matches Some(s) && s@ == slug
        }),
{
    if cfg.active_bundle_value() is Some && slug_is_live(cfg, connection, slug) {
        let k = choose|k: int|
            0 <= k < cfg.bundles@.len() && (#[trigger] cfg.bundles@[k]).tiers.routes(
                connection,
                slug,
            );
        let t = choose|t: ModelProfile|
            (#[trigger] cfg.bundles@[k].tiers.at(t)) matches Some(b) && b.connection_id@
                == connection && b.slug@ == slug;
        assert(cfg.bundles@[k].tiers.at(t) matches Some(b) && b.connection_id@ == connection
            && b.slug@ == slug);
    }
    if cfg.active_bundle_value() is Some && 0 <= i < cfg.bundles@.len() && (
    cfg.bundles@[i].tiers.at(tier) matches Some(t) && t.connection_id@ == connection && t.slug@
        == slug) {
        assert(cfg.bundles@[i].tiers.routes(connection, slug));
    }
}

/// An arc without a pin goes to the model that the active bundle fills the
/// tier with, as long as that connection is configured. Otherwise it goes to
/// the active provider, with the model that it names for the tier, or with its
/// default one.
pub proof fn arcs_without_a_pin_follow_the_bundle(
    cfg: ModelsConfig,
    arc: ArcPin,
    active: Seq<char>,
    tier: ModelProfile,
)
    requires
        arc.pinned_provider_id is None,
    ensures
        cfg.active_bundle_value() matches Some(b) && (b.tiers.at(tier) matches Some(t)
            && cfg.has_provider(t.connection_id@)) ==> {
            let t = cfg.active_bundle_value()->0.tiers.at(tier)->0;
            &&& effective_target(cfg, ArcLookup::Found(arc), active, tier) == (
                t.connection_id@,
                None::<Seq<char>>,
            )
            &&& pin_to_install(cfg, ArcLookup::Found(arc), active, tier) == Some(
                (t.connection_id@, t.slug@),
            )
        },
        cfg.active_bundle_value() is None ==> {
            &&& effective_target(cfg, ArcLookup::Found(arc), active, tier) == (
                active,
                None::<Seq<char>>,
            )
            &&& cfg.provider_at(active) is None ==> pin_to_install(
                cfg,
                ArcLookup::Found(arc),
                active,
                tier,
            ) == Some((active, Seq::<char>::empty()))
            &&& cfg.provider_at(active) matches Some(p) ==> match p.tier_models.at(tier) {
                Some(s) if s@.len() > 0 => pin_to_install(
                    cfg,
                    ArcLookup::Found(arc),
                    active,
                    tier,
                ) == Some((active, s@)),
                _ => pin_to_install(cfg, ArcLookup::Found(arc), active, tier) == Some(
                    (active, p.default_model@),
                ),
            }
        },
{
    if cfg.active_bundle_value() is Some && cfg.active_bundle_value()->0.tiers.at(tier) is Some {
        filled_tier_serves_itself(cfg.active_bundle_value()->0.tiers, tier);
    }
}

/// An arc that the active bundle cannot serve, because it fills no tier for it
/// or the connection is gone, goes to the active provider.
pub proof fn unserved_arcs_use_the_active_provider(
    cfg: ModelsConfig,
    arc: ArcPin,
    active: Seq<char>,
    tier: ModelProfile,
)
    requires
        arc.pinned_provider_id is None,
        cfg.active_bundle_value() matches Some(b) ==> (bundle_pick(b.tiers, tier) matches Some(t)
            ==> !cfg.has_provider(t.connection_id@)),
    ensures
        effective_target(cfg, ArcLookup::Found(arc), active, tier) == (active, None::<Seq<char>>),
        pin_to_install(cfg, ArcLookup::Found(arc), active, tier) matches Some(p) && p.0 == active,
{
}

/// A pinned arc keeps its provider, whatever is active and whichever tier it
/// asks for, as long as that provider is configured, and the model frozen on
/// it as long as that is live. It falls back to the active provider only where
/// the pinned one is gone.
pub proof fn pins_hold(
    cfg: ModelsConfig,
    provider: String,
    slug: Option<String>,
    active: Seq<char>,
    tier: ModelProfile,
)
    ensures
        ({
            let pin = ArcPin { pinned_provider_id: Some(provider), pinned_slug: slug };
            let r = effective_target(cfg, ArcLookup::Found(pin), active, tier);
            &&& cfg.has_provider(provider@) ==> r.0 == provider@
            &&& cfg.has_provider(provider@) && (slug matches Some(s) && s@.len() > 0
                && slug_is_live(cfg, provider@, s@)) ==> r.1 == slug.deep_view()
            &&& slug is None ==> r.1 is None
            &&& (slug matches Some(s) && (s@.len() == 0 || !slug_is_live(cfg, provider@, s@)))
                ==> r.1 is None
            &&& !cfg.has_provider(provider@) ==> r == (active, None::<Seq<char>>)
            &&& pin_to_install(cfg, ArcLookup::Found(pin), active, tier) is None
        }),
        effective_target(cfg, ArcLookup::Absent, active, tier) == (active, None::<Seq<char>>),
        pin_to_install(cfg, ArcLookup::Absent, active, tier) is None,
{
}

/// A pin is stored as it was asked for, on an arc that has none.
pub proof fn pins_are_stored_once(arc: ArcPin, provider_id: String, slug: String)
    ensures
        arc.pinned_provider_id is Some ==> pinned(arc, provider_id, slug) == arc,
        arc.pinned_provider_id is None ==> pinned(arc, provider_id, slug).pinned_provider_id
            == Some(provider_id) && pinned(arc, provider_id, slug).pinned_slug == Some(slug),
{
}

/// An override names a tier by its name, with white space around it ignored;
/// anything else names none.
pub proof fn overrides_are_tier_names(s: Seq<char>)
    ensures
        profile_of_wire(s) == Some(ModelProfile::Powerful) <==> trim_spec(s) == "Powerful"@,
        profile_of_wire(s) == Some(ModelProfile::Fast) <==> trim_spec(s) == "Fast"@,
        profile_of_wire(s) == Some(ModelProfile::Code) <==> trim_spec(s) == "Code"@,
        profile_of_wire(s) == Some(ModelProfile::Judges) <==> trim_spec(s) == "Judges"@
            || trim_spec(s) == "Cheap"@,
        profile_of_wire(s) == Some(ModelProfile::Local) <==> trim_spec(s) == "Local"@,
{
    reveal_strlit("Powerful");
    reveal_strlit("Fast");
    reveal_strlit("Code");
    reveal_strlit("Judges");
    reveal_strlit("Cheap");
    reveal_strlit("Local");
    assert("Powerful"@[0] == 'P');
    assert("Fast"@[0] == 'F');
    assert("Code"@[1] == 'o' && "Code"@[0] == 'C');
    assert("Judges"@[0] == 'J');
    assert("Cheap"@[1] == 'h' && "Cheap"@[0] == 'C');
    assert("Local"@[0] == 'L');
}

/// Where no override names a tier: without any signal the default holds, and a
/// task that is neither demanding nor about code goes where its complexity is
/// mapped to. The reason tells which.
pub proof fn signals_choose_the_tier(
    unread: Option<Seq<char>>,
    complexity: Option<ComplexityTag>,
    is_code: bool,
    default: ModelProfile,
    mapped: ModelProfile,
)
    requires
        unread matches Some(raw) ==> profile_of_wire(raw) is None,
    ensures
        ({
            let r = executor_tier(unread, complexity, is_code, default, mapped);
            &&& complexity == Some(ComplexityTag::High) ==> r == ModelProfile::Powerful
            &&& complexity is None && !is_code ==> r == default
            &&& complexity is None && is_code ==> r == mapped
            &&& (complexity == Some(ComplexityTag::Low) || complexity == Some(
                ComplexityTag::Medium,
            )) && is_code ==> r == ModelProfile::Code
            &&& (complexity == Some(ComplexityTag::Low) || complexity == Some(
                ComplexityTag::Medium,
            )) && !is_code ==> r == mapped
        }),
        signal_reason(Some(ComplexityTag::High), is_code) == "complexity_high"@,
        complexity != Some(ComplexityTag::High) ==> signal_reason(complexity, true)
            == "code_task"@,
        signal_reason(Some(ComplexityTag::Low), false) == "complexity_low"@,
        signal_reason(Some(ComplexityTag::Medium), false) == "complexity_medium"@,
        signal_reason(None, false) == "default"@,
{
}

/// The first record for a model on a connection gives its family, and a model
/// without one has the family of its connection.
pub proof fn recorded_families_win(
    quirks: Seq<SlugQuirk>,
    provider_id: Seq<char>,
    slug: Seq<char>,
    fallback: Seq<char>,
    i: int,
)
    requires
        0 <= i <= quirks.len(),
        forall|j: int|
            0 <= j < i ==> (#[trigger] quirks[j]).provider_id@ != provider_id || quirks[j].slug@
                != slug,
    ensures
        i == quirks.len() ==> family_for(quirks, provider_id, slug, fallback) == fallback,
        i < quirks.len() && quirks[i].provider_id@ == provider_id && quirks[i].slug@ == slug
            ==> family_for(quirks, provider_id, slug, fallback) == quirks[i].family@,
{
    lemma_quirk_skips(quirks, provider_id, slug, 0, i);
}

proof fn lemma_quirk_skips(
    quirks: Seq<SlugQuirk>,
    provider_id: Seq<char>,
    slug: Seq<char>,
    from: int,
    i: int,
)
    requires
        0 <= from <= i <= quirks.len(),
        forall|j: int|
            from <= j < i ==> (#[trigger] quirks[j]).provider_id@ != provider_id || quirks[j].slug@
                != slug,
    ensures
        quirk_of(quirks, provider_id, slug, from) == quirk_of(quirks, provider_id, slug, i),
    decreases i - from,
{
    if from < i {
        assert(quirks[from].provider_id@ != provider_id || quirks[from].slug@ != slug);
        lemma_quirk_skips(quirks, provider_id, slug, from + 1, i);
    }
}

/// Which wire protocol serves a provider: its id decides, and on OpenCode Go
/// the model too.
pub proof fn the_provider_decides_the_adapter(
    id: Seq<char>,
    base_url: Seq<char>,
    model: Seq<char>,
    key: Option<Seq<char>>,
    vision: bool,
    documents: bool,
    family: Seq<char>,
)
    ensures
        ({
            let a = instance_of(id, base_url, model, key, vision, documents, family).adapter;
            &&& a == Adapter::DeepSeek <==> id == "deepseek"@
            &&& a == Adapter::Google <==> id == "google"@
            &&& a == Adapter::Ollama <==> id == "ollama"@
            &&& a == Adapter::LlamaCpp <==> id == "llamacpp"@
            &&& a == Adapter::Anthropic <==> id == "anthropic"@ || id == "minimax_anthropic"@ || id
                == "kimi_code"@ || (id == "opencode_go"@ && is_minimax(model))
        }),
{
    reveal_strlit("deepseek");
    reveal_strlit("google");
    reveal_strlit("ollama");
    reveal_strlit("llamacpp");
    reveal_strlit("anthropic");
    reveal_strlit("minimax_anthropic");
    reveal_strlit("kimi_code");
    reveal_strlit("opencode_go");
    assert("deepseek"@.len() == 8 && "deepseek"@[0] == 'd');
    assert("google"@.len() == 6 && "google"@[0] == 'g');
    assert("ollama"@.len() == 6 && "ollama"@[0] == 'o');
    assert("llamacpp"@.len() == 8 && "llamacpp"@[0] == 'l');
    assert("anthropic"@.len() == 9 && "anthropic"@[0] == 'a');
    assert("minimax_anthropic"@.len() == 17);
    assert("kimi_code"@.len() == 9 && "kimi_code"@[0] == 'k');
    assert("opencode_go"@.len() == 11);
}

/// What an instance is given is what was configured. A URL is left out only
/// where it is empty or the adapter's own; a model is changed only to lower
/// case, and only for MiniMax; a key is left out only on this machine's own
/// servers; and capabilities and family pass unchanged.
pub proof fn instances_hold_what_was_configured(
    id: Seq<char>,
    base_url: Seq<char>,
    model: Seq<char>,
    key: Option<Seq<char>>,
    vision: bool,
    documents: bool,
    family: Seq<char>,
)
    ensures
        ({
            let r = instance_of(id, base_url, model, key, vision, documents, family);
            &&& r.family == family
            &&& r.base_url matches Some(u) ==> u == base_url
            &&& r.base_url is None <==> {
                ||| r.adapter == Adapter::DeepSeek && base_url == "https://api.deepseek.com"@
                ||| r.adapter == Adapter::Anthropic && (base_url.len() == 0 || (id
                    != "opencode_go"@ && base_url == "https://api.anthropic.com"@))
                ||| r.adapter == Adapter::Google && (base_url.len() == 0 || base_url
                    == "https://generativelanguage.googleapis.com"@)
                ||| r.adapter == Adapter::Ollama && base_url == "http://localhost:11434"@
            }
            &&& r.model is None <==> id == "deepseek"@ && model == "deepseek-chat"@
            &&& r.model matches Some(m) ==> m == model || (m == lowered(model) && (is_minimax(model)
                || id == "minimax_anthropic"@))
            &&& is_minimax(model) && r.adapter == Adapter::Anthropic ==> r.model == Some(
                lowered(model),
            )
            &&& id == "minimax_anthropic"@ ==> r.model == Some(lowered(model))
            &&& r.adapter == Adapter::Ollama || r.adapter == Adapter::LlamaCpp ==> r.api_key is None
            &&& r.adapter != Adapter::Ollama && r.adapter != Adapter::LlamaCpp ==> (key matches Some(
                k,
            ) ==> r.api_key == Some(k))
            &&& r.api_key matches Some(k) ==> key == Some(k) || (key is None && k.len() == 0)
            &&& r.adapter == Adapter::OpenAiCompatible ==> r.provider_id == Some(id)
            &&& r.adapter != Adapter::OpenAiCompatible ==> r.provider_id is None
            &&& r.vision is Some <==> r.documents is Some
            &&& r.vision is Some <==> r.adapter == Adapter::Anthropic || r.adapter
                == Adapter::OpenAiCompatible || r.adapter == Adapter::Google
            &&& r.vision matches Some(v) ==> v == vision
            &&& r.documents matches Some(d) ==> d == documents
        }),
{
    the_provider_decides_the_adapter(id, base_url, model, key, vision, documents, family);
    reveal_strlit("anthropic");
    reveal_strlit("minimax_anthropic");
    reveal_strlit("kimi_code");
    reveal_strlit("opencode_go");
    assert("opencode_go"@.len() == 11);
}

/// A model is of the MiniMax M2 generation where its name, in any case, is
/// followed by nothing or by one of the three marks.
pub proof fn minimax_names_end_at_a_mark(rest: Seq<char>, c: char)
    ensures
        is_minimax("MiniMax-M2"@),
        is_minimax("minimax-m2"@),
        is_minimax("minimax-m2"@ + seq![c] + rest) <==> c == '.' || c == '-' || c == '_',
{
    reveal_strlit("minimax-m2");
    reveal_strlit("MiniMax-M2");
    assert(lowered("MiniMax-M2"@) =~= "minimax-m2"@);
    assert(lowered("minimax-m2"@) =~= "minimax-m2"@);
    assert("minimax-m2"@.subrange(0, 10) =~= "minimax-m2"@);
    let s = "minimax-m2"@ + seq![c] + rest;
    assert(lowered(s).subrange(0, 10) =~= "minimax-m2"@);
    assert(lowered(s)[10] == crate::text::lower(c));
    assert(s[10] == c);
}

/// An instance is seen with all that it holds.
pub proof fn instances_are_seen_whole(r: ProviderInstance)
    ensures
        r@.adapter == r.adapter,
        r@.model == r.model.deep_view(),
        r@.base_url == r.base_url.deep_view(),
        r@.api_key == r.api_key.deep_view(),
        r@.provider_id == r.provider_id.deep_view(),
        r@.vision == r.vision,
        r@.documents == r.documents,
        r@.family == r.family@,
{
}

/// An arc without a pin goes where the active bundle sends the tier, be it the
/// tier's own model or one that stands in for it.
pub proof fn arcs_without_a_pin_use_the_pick(
    cfg: ModelsConfig,
    arc: ArcPin,
    active: Seq<char>,
    tier: ModelProfile,
    bundle: Bundle,
    t: BundleTier,
)
    requires
        arc.pinned_provider_id is None,
        cfg.active_bundle_value() == Some(bundle),
        bundle_pick(bundle.tiers, tier) == Some(t),
        cfg.has_provider(t.connection_id@),
    ensures
        effective_target(cfg, ArcLookup::Found(arc), active, tier) == (
            t.connection_id@,
            None::<Seq<char>>,
        ),
        pin_to_install(cfg, ArcLookup::Found(arc), active, tier) == Some(
            (t.connection_id@, t.slug@),
        ),
{
}

} // verus!
