//! Saving, deleting and activating a provider.

use vstd::prelude::*;
use vstd::string::*;
use crate::credentials::{VaultAction, VaultState, auth_in_force, hydrated_auth};
use crate::models::{
    AuthType, Bundle, BundleTier, BundleTiers, ModelProfile, ModelsConfig, ProviderConfig,
    ProviderEntry, TierModels, Timestamp, bundle_index, bundle_named, lemma_bundle_index,
    lemma_bundle_named, lemma_provider_index, no_tiers, provider_index,
};
use crate::providers::{
    base_url_default, default_base_url, default_model, display_name, is_local_id, is_local_provider,
    model_default, name_shown, parse_model_profile, profile_of_key,
};
use crate::router_plan::{
    Connection, ConnectionModel, RouterPlan, build_router_for_bundle, build_router_for_provider,
    bundle_plan,
};
use crate::routing::{
    EnvKey, SlugQuirk, api_key_env_var, derive_primary_connection_pair, env_key, env_key_of,
    env_var_of, first_filled, primary_order, saved_api_key_for, saved_key_for, usable_api_key,
    usable_key,
};
use crate::telegram_progress::holds;
use crate::text::{cat2, cat3, cat5, is_blank, join, joined, owned, str_eq, trim_spec};

verus! {

// ---------------------------------------------------------------------------
// Saving
// ---------------------------------------------------------------------------

/// The fields of a provider that a save sets. An absent field keeps what is
/// configured, except for the temperature.
pub struct ProviderEdit {
    pub id: String,
    pub base_url: String,
    pub model: String,
    /// What the configuration is to say, from the plan for the key.
    pub auth: AuthType,
    pub supports_vision: Option<bool>,
    pub supports_documents: Option<bool>,
    /// The wire id of a model family.
    pub family: Option<String>,
    pub context_window_tokens: Option<u32>,
    pub compaction_trigger_pct: Option<u8>,
    pub compaction_target_pct: Option<u8>,
    pub temperature: Option<u32>,
    /// Settings key and slug of each tier.
    pub tier_models: Option<Vec<(String, String)>>,
}

/// `p` brought into `1..=100`.
pub open spec fn clamped_pct(p: u8) -> u8 {
    if p < 1 {
        1
    } else if p > 100 {
        100
    } else {
        p
    }
}

/// A percentage: the one asked for, clamped; else the existing one; else the
/// default.
pub open spec fn resolved_pct(asked: Option<u8>, existing: Option<u8>, default: u8) -> u8 {
    match asked {
        Some(p) => clamped_pct(p),
        None => match existing {
            Some(p) => p,
            None => default,
        },
    }
}

/// The trigger, raised above the target, but at most to 100.
pub open spec fn raised_trigger(trigger: u8, target: u8) -> u8 {
    let floor = if target >= 100 {
        100u8
    } else {
        (target + 1) as u8
    };
    if trigger < floor {
        floor
    } else {
        trigger
    }
}

/// The context window: the one asked for where it is not zero, else the
/// existing one, else the default.
pub open spec fn resolved_window(asked: Option<u32>, existing: Option<ProviderConfig>) -> u32 {
    match asked {
        Some(w) => if w > 0 {
            w
        } else {
            existing_window(existing)
        },
        None => existing_window(existing),
    }
}

pub open spec fn existing_window(existing: Option<ProviderConfig>) -> u32 {
    match existing {
        Some(p) => p.context_window_tokens,
        None => 128_000,
    }
}

/// The slug that the last row for `tier` sets, where it is not blank.
pub open spec fn tier_from_rows(rows: Seq<(String, String)>, tier: ModelProfile) -> Option<String>
    decreases rows.len(),
{
    if rows.len() == 0 {
        None
    } else if profile_of_key(rows.last().0@) == Some(tier) && trim_spec(rows.last().1@).len() > 0 {
        Some(rows.last().1)
    } else {
        tier_from_rows(rows.drop_last(), tier)
    }
}

/// The tiers that a save sets.
pub open spec fn are_edited_tiers(
    tiers: TierModels,
    rows: Option<Seq<(String, String)>>,
    existing: Option<ProviderConfig>,
) -> bool {
    match rows {
        Some(r) => forall|t: ModelProfile|
            (#[trigger] tiers.at(t)) == tier_from_rows(r, t),
        None => tiers == match existing {
            Some(p) => p.tier_models,
            None => no_tiers(),
        },
    }
}

/// The family: the one asked for where it is known, else the existing one,
/// else the default family.
pub open spec fn edited_family(
    asked: Option<Seq<char>>,
    known: Seq<Seq<char>>,
    existing: Option<ProviderConfig>,
) -> Seq<char> {
    let kept = match existing {
        Some(p) => p.family@,
        None => "Default"@,
    };
    match asked {
        Some(f) => if f.len() > 0 && known.contains(f) {
            f
        } else {
            kept
        },
        None => kept,
    }
}

/// The endpoint: none where it is the provider's own.
pub open spec fn edited_endpoint(id: Seq<char>, base_url: Seq<char>) -> Option<Seq<char>> {
    if base_url.len() == 0 || base_url == base_url_default(id) {
        None
    } else {
        Some(base_url)
    }
}

/// `cfg` is the connection that the edit makes of `existing`.
pub open spec fn is_edited(
    cfg: ProviderConfig,
    edit: ProviderEdit,
    known_families: Seq<Seq<char>>,
    existing: Option<ProviderConfig>,
) -> bool {
    let old_trigger = match existing {
        Some(p) => Some(p.compaction_trigger_pct),
        None => None,
    };
    let old_target = match existing {
        Some(p) => Some(p.compaction_target_pct),
        None => None,
    };
    let target = resolved_pct(edit.compaction_target_pct, old_target, 30);
    &&& cfg.auth == edit.auth
    &&& cfg.default_model@ == edit.model@
    &&& cfg.endpoint.deep_view() == edited_endpoint(edit.id@, edit.base_url@)
    &&& cfg.context_window_tokens == resolved_window(edit.context_window_tokens, existing)
    &&& cfg.compaction_target_pct == target
    &&& cfg.compaction_trigger_pct == raised_trigger(
        resolved_pct(edit.compaction_trigger_pct, old_trigger, 65),
        target,
    )
    &&& cfg.supports_vision == match edit.supports_vision {
        Some(b) => b,
        None => existing matches Some(p) && p.supports_vision,
    }
    &&& cfg.supports_documents == match edit.supports_documents {
        Some(b) => b,
        None => existing matches Some(p) && p.supports_documents,
    }
    &&& cfg.family@ == edited_family(edit.family.deep_view(), known_families, existing)
    &&& cfg.temperature == edit.temperature
    &&& are_edited_tiers(
        cfg.tier_models,
        match edit.tier_models {
            Some(rows) => Some(rows@),
            None => None,
        },
        existing,
    )
}

fn clamp_pct(p: u8) -> (r: u8)
    ensures
        r == clamped_pct(p),
{
    if p < 1 {
        1
    } else if p > 100 {
        100
    } else {
        p
    }
}

fn pct(asked: Option<u8>, existing: Option<u8>, default: u8) -> (r: u8)
    ensures
        r == resolved_pct(asked, existing, default),
{
    match asked {
        Some(p) => clamp_pct(p),
        None => match existing {
            Some(p) => p,
            None => default,
        },
    }
}

/// The tiers that the rows of a save set: blank slugs and unknown keys are
/// dropped.
pub fn parse_tier_rows(rows: &Vec<(String, String)>) -> (r: TierModels)
    ensures
        forall|t: ModelProfile| (#[trigger] r.at(t)) == tier_from_rows(rows@, t),
{
    let mut tiers = TierModels::empty();
    let mut i: usize = 0;
    proof {
        assert forall|t: ModelProfile| (#[trigger] tiers.at(t)) == tier_from_rows(
            rows@.take(0),
            t,
        ) by {}
    }
    while i < rows.len()
        invariant
            i <= rows@.len(),
            forall|t: ModelProfile|
                (#[trigger] tiers.at(t)) == tier_from_rows(rows@.take(i as int), t),
        decreases rows@.len() - i,
    {
        let ghost before = tiers;
        proof {
            assert(rows@.take(i + 1).drop_last() =~= rows@.take(i as int));
            assert(rows@.take(i + 1).last() == rows@[i as int]);
        }
        if !is_blank(rows[i].1.as_str()) {
            if let Some(tier) = parse_model_profile(rows[i].0.as_str()) {
                tiers.set(tier, rows[i].1.clone());
            }
        }
        proof {
            assert forall|t: ModelProfile| (#[trigger] tiers.at(t)) == tier_from_rows(
                rows@.take(i + 1),
                t,
            ) by {
                assert(before.at(t) == tier_from_rows(rows@.take(i as int), t));
            }
        }
        i += 1;
    }
    proof {
        assert(rows@.take(i as int) =~= rows@);
    }
    tiers
}

/// The connection that the edit makes of the existing one.
pub fn edit_provider(
    edit: &ProviderEdit,
    known_families: &Vec<String>,
    existing: Option<&ProviderConfig>,
) -> (r: ProviderConfig)
    ensures
        existing is None ==> is_edited(r, *edit, known_families.deep_view(), None),
        existing matches Some(e) ==> is_edited(r, *edit, known_families.deep_view(), Some(*e)),
{
    let endpoint = if edit.base_url.as_str().is_empty() || str_eq(
        edit.base_url.as_str(),
        default_base_url(edit.id.as_str()),
    ) {
        None
    } else {
        Some(edit.base_url.clone())
    };
    let kept_window: u32 = match existing {
        Some(p) => p.context_window_tokens,
        None => 128_000,
    };
    let context_window_tokens: u32 = match edit.context_window_tokens {
        Some(w) => if w > 0 {
            w
        } else {
            kept_window
        },
        None => kept_window,
    };
    let old_trigger: Option<u8> = match existing {
        Some(p) => Some(p.compaction_trigger_pct),
        None => None,
    };
    let old_target: Option<u8> = match existing {
        Some(p) => Some(p.compaction_target_pct),
        None => None,
    };
    let trigger: u8 = pct(edit.compaction_trigger_pct, old_trigger, 65);
    let target: u8 = pct(edit.compaction_target_pct, old_target, 30);
    let floor: u8 = if target >= 100 {
        100
    } else {
        target + 1
    };
    let trigger: u8 = if trigger < floor {
        floor
    } else {
        trigger
    };
    let supports_vision = match edit.supports_vision {
        Some(b) => b,
        None => match existing {
            Some(p) => p.supports_vision,
            None => false,
        },
    };
    let supports_documents = match edit.supports_documents {
        Some(b) => b,
        None => match existing {
            Some(p) => p.supports_documents,
            None => false,
        },
    };
    let kept_family = match existing {
        Some(p) => p.family.clone(),
        None => owned("Default"),
    };
    let family = match &edit.family {
        Some(f) => if !f.as_str().is_empty() && holds(known_families, f.as_str()) {
            f.clone()
        } else {
            kept_family
        },
        None => kept_family,
    };
    let tier_models = match &edit.tier_models {
        Some(rows) => parse_tier_rows(rows),
        None => match existing {
            Some(p) => p.tier_models.copy(),
            None => TierModels::empty(),
        },
    };
    ProviderConfig {
        auth: edit.auth.copy(),
        default_model: edit.model.clone(),
        endpoint,
        context_window_tokens,
        compaction_trigger_pct: trigger,
        compaction_target_pct: target,
        supports_vision,
        supports_documents,
        family,
        temperature: edit.temperature,
        tier_models,
    }
}

/// `after` is `before` with the edited connection in its place, or at the end
/// where it is new. Nothing else changes.
pub open spec fn is_saved(
    before: ModelsConfig,
    after: ModelsConfig,
    edit: ProviderEdit,
    known_families: Seq<Seq<char>>,
) -> bool {
    let i = provider_index(before.providers@, edit.id@);
    &&& after.bundles == before.bundles
    &&& after.active_bundle == before.active_bundle
    &&& after.active_provider == before.active_provider
    &&& after.providers@.len() == before.providers@.len() + if i < 0 {
        1int
    } else {
        0int
    }
    &&& forall|j: int|
        0 <= j < before.providers@.len() && j != i ==> (#[trigger] after.providers@[j])
            == before.providers@[j]
    &&& after.provider_at(edit.id@) matches Some(cfg) && is_edited(
        cfg,
        edit,
        known_families,
        before.provider_at(edit.id@),
    )
}

/// Saves a provider: its connection is edited in place, or added.
pub fn save_provider(models: &mut ModelsConfig, edit: &ProviderEdit, known_families: &Vec<String>)
    requires
        old(models).wf(),
    ensures
        final(models).wf(),
        is_saved(*old(models), *final(models), *edit, known_families.deep_view()),
{
    let ghost before = models.providers@;
    proof {
        lemma_provider_index(before, edit.id@);
    }
    match models.find_provider(edit.id.as_str()) {
        Some(i) => {
            let config = edit_provider(edit, known_families, Some(&models.providers[i].config));
            let id = models.providers[i].id.clone();
            models.providers.set(i, ProviderEntry { id, config });
            proof {
                let after = models.providers@;
                assert forall|a: int, b: int| 0 <= a < b < after.len() implies (
                #[trigger] after[a]).id@ != (#[trigger] after[b]).id@ by {
                    assert(after[a].id@ == before[a].id@);
                    assert(after[b].id@ == before[b].id@);
                }
                lemma_provider_index(after, edit.id@);
                assert(after[i as int].id@ == edit.id@);
            }
        },
        None => {
            let config = edit_provider(edit, known_families, None);
            models.providers.push(ProviderEntry { id: edit.id.clone(), config });
            proof {
                let after = models.providers@;
                lemma_provider_index(after, edit.id@);
                assert(after[before.len() as int].id@ == edit.id@);
                assert forall|a: int, b: int| 0 <= a < b < after.len() implies (
                #[trigger] after[a]).id@ != (#[trigger] after[b]).id@ by {
                    assert(after[a] == before[a]);
                    if b < before.len() {
                        assert(after[b] == before[b]);
                    }
                }
            }
        },
    }
}

/// After a save the trigger lies above the target wherever there is room.
pub proof fn trigger_lies_above_target(
    cfg: ProviderConfig,
    edit: ProviderEdit,
    known_families: Seq<Seq<char>>,
    existing: Option<ProviderConfig>,
)
    requires
        is_edited(cfg, edit, known_families, existing),
    ensures
        cfg.compaction_target_pct < 100 ==> cfg.compaction_trigger_pct > cfg.compaction_target_pct,
        cfg.compaction_target_pct >= 100 ==> cfg.compaction_trigger_pct >= 100,
{
}

/// A percentage that the user gives ends up between 1 and 100.
pub proof fn given_percentages_are_in_range(
    cfg: ProviderConfig,
    edit: ProviderEdit,
    known_families: Seq<Seq<char>>,
    existing: Option<ProviderConfig>,
)
    requires
        is_edited(cfg, edit, known_families, existing),
        edit.compaction_trigger_pct is Some,
        edit.compaction_target_pct is Some,
    ensures
        1 <= cfg.compaction_target_pct <= 100,
        1 <= cfg.compaction_trigger_pct <= 100,
{
}

/// Saving leaves every other provider as it was.
pub proof fn saving_keeps_other_providers(
    before: ModelsConfig,
    after: ModelsConfig,
    edit: ProviderEdit,
    known_families: Seq<Seq<char>>,
    other: Seq<char>,
)
    requires
        before.wf(),
        after.wf(),
        is_saved(before, after, edit, known_families),
        other != edit.id@,
    ensures
        after.provider_at(other) == before.provider_at(other),
{
    let i = provider_index(before.providers@, edit.id@);
    lemma_provider_index(before.providers@, other);
    lemma_provider_index(after.providers@, other);
    lemma_provider_index(before.providers@, edit.id@);
    lemma_provider_index(after.providers@, edit.id@);
    let p = provider_index(before.providers@, other);
    let q = provider_index(after.providers@, other);
    if p >= 0 {
        assert(after.providers@[p] == before.providers@[p]);
    }
    if q >= 0 {
        if q < before.providers@.len() && q != i {
            assert(after.providers@[q] == before.providers@[q]);
        } else {
            let k = provider_index(after.providers@, edit.id@);
            if i < 0 {
                assert(q == before.providers@.len());
                if k < before.providers@.len() {
                    assert(after.providers@[k] == before.providers@[k]);
                }
            } else if k != q && k < before.providers@.len() {
                assert(after.providers@[k] == before.providers@[k]);
            }
        }
    }
}

/// What follows a save: where the saved provider is the active one, the
/// router to switch to and the model that stands for it.
pub struct SaveOutcome {
    pub router: Option<(RouterPlan, String)>,
    pub message: String,
}

/// The base URL in effect: the one given, else the provider's own.
pub open spec fn given_or_default_url(id: Seq<char>, base_url: Seq<char>) -> Seq<char> {
    if base_url.len() == 0 {
        base_url_default(id)
    } else {
        base_url
    }
}

/// The model in effect: the one given, else the provider's own.
pub open spec fn given_or_default_model(id: Seq<char>, model: Seq<char>) -> Seq<char> {
    if model.len() == 0 {
        model_default(id)
    } else {
        model
    }
}

pub fn resolve_url(id: &str, base_url: &str) -> (r: String)
    ensures
        r@ == given_or_default_url(id@, base_url@),
{
    if base_url.is_empty() {
        owned(default_base_url(id))
    } else {
        owned(base_url)
    }
}

pub fn resolve_model(id: &str, model: &str) -> (r: String)
    ensures
        r@ == given_or_default_model(id@, model@),
{
    if model.is_empty() {
        default_model(id)
    } else {
        owned(model)
    }
}

/// The connection of the live router after a save.
pub open spec fn saved_connection(
    id: Seq<char>,
    base_url: Seq<char>,
    model: Seq<char>,
    key: Option<Seq<char>>,
    cfg: ProviderConfig,
    quirks: Seq<SlugQuirk>,
) -> ConnectionModel {
    ConnectionModel {
        provider_id: id,
        base_url: given_or_default_url(id, base_url),
        model: given_or_default_model(id, model),
        api_key: key,
        supports_vision: cfg.supports_vision,
        supports_documents: cfg.supports_documents,
        family: cfg.family@,
        tier_models: cfg.tier_models,
        override_slug: None,
        quirks,
    }
}

/// What follows a save. Only the active provider is reloaded; its key is the
/// one in use, else the one from the environment.
pub fn after_save(
    id: &str,
    base_url: &str,
    model: &str,
    effective_key: &Option<String>,
    saved: &ProviderConfig,
    active_id: &str,
    env: &Vec<EnvKey>,
    quirks: &Vec<SlugQuirk>,
) -> (r: SaveOutcome)
    ensures
        ({
            let key = match effective_key.deep_view() {
                Some(k) => Some(k),
                None => env_key_of(env@, id@, 0),
            };
            let resolved = given_or_default_model(id@, model@);
            if id@ == active_id@ {
                &&& r.router matches Some(p) && p.0.wf() && p.0@ == saved_connection(
                    id@,
                    base_url@,
                    model@,
                    key,
                    *saved,
                    quirks@,
                ).plan() && p.1@ == resolved
                &&& r.message@ == "Provider saved and activated ("@ + name_shown(id@) + " / "@
                    + resolved + ")."@
            } else {
                r.router is None && r.message@ == "Provider saved."@
            }
        }),
{
    if !str_eq(id, active_id) {
        return SaveOutcome { router: None, message: owned("Provider saved.") };
    }
    let url = resolve_url(id, base_url);
    let resolved = resolve_model(id, model);
    let key = match effective_key {
        Some(k) => Some(k.clone()),
        None => env_key(env, id),
    };
    let connection = Connection {
        provider_id: id,
        base_url: url.as_str(),
        model: resolved.as_str(),
        api_key: &key,
        supports_vision: saved.supports_vision,
        supports_documents: saved.supports_documents,
        family: saved.family.as_str(),
        tier_models: &saved.tier_models,
        override_slug: None,
        quirks,
    };
    let plan = build_router_for_provider(&connection);
    let message = cat5(
        "Provider saved and activated (",
        display_name(id),
        " / ",
        resolved.as_str(),
        ").",
    );
    SaveOutcome { router: Some((plan, resolved)), message }
}

// ---------------------------------------------------------------------------
// Deleting
// ---------------------------------------------------------------------------

/// The names of the bundles that `id` serves, in order.
pub open spec fn referencing(bundles: Seq<Bundle>, id: Seq<char>) -> Seq<Seq<char>>
    decreases bundles.len(),
{
    if bundles.len() == 0 {
        Seq::empty()
    } else {
        let before = referencing(bundles.drop_last(), id);
        if bundles.last().tiers.uses(id) {
            before.push(bundles.last().name@)
        } else {
            before
        }
    }
}

/// A bundle that uses the connection is listed, and only then is there one.
pub proof fn lemma_referencing(bundles: Seq<Bundle>, id: Seq<char>)
    ensures
        referencing(bundles, id).len() > 0 <==> exists|i: int|
            0 <= i < bundles.len() && (#[trigger] bundles[i]).tiers.uses(id),
    decreases bundles.len(),
{
    if bundles.len() > 0 {
        let init = bundles.drop_last();
        lemma_referencing(init, id);
        if referencing(bundles, id).len() > 0 {
            if bundles.last().tiers.uses(id) {
                assert(bundles[bundles.len() - 1].tiers.uses(id));
            } else {
                let i = choose|i: int| 0 <= i < init.len() && (#[trigger] init[i]).tiers.uses(id);
                assert(bundles[i].tiers.uses(id));
            }
        }
        if exists|i: int| 0 <= i < bundles.len() && (#[trigger] bundles[i]).tiers.uses(id) {
            let i = choose|i: int|
                0 <= i < bundles.len() && (#[trigger] bundles[i]).tiers.uses(id);
            if i < init.len() {
                assert(init[i].tiers.uses(id));
            }
        }
    }
}

/// Why a provider cannot be deleted, if it cannot.
pub open spec fn deletion_refusal(models: ModelsConfig, id: Seq<char>) -> Option<Seq<char>> {
    let users = referencing(models.bundles@, id);
    if !models.has_provider(id) {
        Some("Provider '"@ + id + "' not found."@)
    } else if users.len() > 0 {
        Some(
            "Cannot delete '"@ + id + "' — referenced by Bundle(s): "@ + joined(users, ", "@)
                + ". Edit those Bundles to point at a different Connection first."@,
        )
    } else {
        None
    }
}

fn referencing_names(bundles: &Vec<Bundle>, id: &str) -> (r: Vec<String>)
    ensures
        r.deep_view() == referencing(bundles@, id@),
{
    let mut out: Vec<String> = Vec::new();
    let mut i: usize = 0;
    proof {
        assert(out.deep_view() =~= referencing(bundles@.take(0), id@));
    }
    while i < bundles.len()
        invariant
            i <= bundles@.len(),
            out.deep_view() == referencing(bundles@.take(i as int), id@),
        decreases bundles@.len() - i,
    {
        proof {
            assert(bundles@.take(i + 1).drop_last() =~= bundles@.take(i as int));
            assert(bundles@.take(i + 1).last() == bundles@[i as int]);
        }
        if bundles[i].tiers.any_uses(id) {
            let ghost before = out.deep_view();
            let name = bundles[i].name.clone();
            out.push(name);
            proof {
                assert(out.deep_view() =~= before.push(name@));
            }
        }
        i += 1;
    }
    proof {
        assert(bundles@.take(i as int) =~= bundles@);
    }
    out
}

/// Deletes a provider, unless it is not there or a bundle uses it. The result
/// is what to do to its key in the vault once the configuration is written.
pub fn delete_provider(models: &mut ModelsConfig, id: &str, has_vault: bool) -> (r: Result<
    VaultAction,
    String,
>)
    requires
        old(models).wf(),
    ensures
        final(models).wf(),
        match r {
            Ok(action) => {
                &&& deletion_refusal(*old(models), id@) is None
                &&& action == if has_vault {
                    VaultAction::Delete
                } else {
                    VaultAction::Nothing
                }
                &&& final(models).providers@ == old(models).providers@.remove(
                    provider_index(old(models).providers@, id@),
                )
                &&& final(models).bundles == old(models).bundles
                &&& final(models).active_bundle == old(models).active_bundle
                &&& final(models).active_provider == old(models).active_provider
            },
            Err(e) => deletion_refusal(*old(models), id@) == Some(e@) && *final(models) == *old(
                models,
            ),
        },
{
    match models.find_provider(id) {
        None => Err(cat3("Provider '", id, "' not found.")),
        Some(i) => {
            let users = referencing_names(&models.bundles, id);
            proof {
                assert(users.deep_view().len() == users@.len());
            }
            if users.len() > 0 {
                let list = join(&users, ", ");
                return Err(
                    cat5(
                        "Cannot delete '",
                        id,
                        "' — referenced by Bundle(s): ",
                        list.as_str(),
                        ". Edit those Bundles to point at a different Connection first.",
                    ),
                );
            }
            let ghost before = models.providers@;
            let _gone = models.providers.remove(i);
            proof {
                let after = models.providers@;
                assert forall|a: int, b: int| 0 <= a < b < after.len() implies (
                #[trigger] after[a]).id@ != (#[trigger] after[b]).id@ by {
                    let a0 = if a < i { a } else { a + 1 };
                    let b0 = if b < i { b } else { b + 1 };
                    assert(after[a] == before[a0]);
                    assert(after[b] == before[b0]);
                }
            }
            Ok(
                if has_vault {
                    VaultAction::Delete
                } else {
                    VaultAction::Nothing
                },
            )
        },
    }
}

/// A provider that a bundle uses is never deleted.
pub proof fn used_providers_are_not_deleted(models: ModelsConfig, id: Seq<char>, i: int)
    requires
        0 <= i < models.bundles@.len(),
        models.bundles@[i].tiers.uses(id),
    ensures
        deletion_refusal(models, id) is Some,
{
    lemma_referencing(models.bundles@, id);
}

/// A configured provider that no bundle uses can be deleted.
pub proof fn unused_providers_can_be_deleted(models: ModelsConfig, id: Seq<char>)
    requires
        models.has_provider(id),
        forall|i: int|
            0 <= i < models.bundles@.len() ==> !(#[trigger] models.bundles@[i]).tiers.uses(id),
    ensures
        deletion_refusal(models, id) is None,
{
    lemma_referencing(models.bundles@, id);
}

/// A deleted provider is gone.
pub proof fn deleted_providers_are_gone(before: ModelsConfig, after: ModelsConfig, id: Seq<char>)
    requires
        before.wf(),
        before.has_provider(id),
        after.providers@ == before.providers@.remove(provider_index(before.providers@, id)),
    ensures
        !after.has_provider(id),
{
    let k = provider_index(before.providers@, id);
    lemma_provider_index(before.providers@, id);
    lemma_provider_index(after.providers@, id);
    let q = provider_index(after.providers@, id);
    if q >= 0 {
        let q0 = if q < k { q } else { q + 1 };
        assert(after.providers@[q] == before.providers@[q0]);
        assert(before.providers@[q0].id@ == before.providers@[k].id@);
        if q0 < k {
            assert(false);
        } else {
            assert(k < q0);
        }
    }
}

/// What follows a deletion: where the deleted provider was the active one,
/// the provider, the model and the router to switch to.
pub struct DeleteOutcome {
    pub switched: Option<(String, String, RouterPlan)>,
    pub message: String,
}

/// The provider to fall back to: the first one left, else DeepSeek.
pub open spec fn fallback_provider(models: ModelsConfig) -> Seq<char> {
    if models.providers@.len() > 0 {
        models.providers@[0].id@
    } else {
        "deepseek"@
    }
}

fn fallback_id(models: &ModelsConfig) -> (r: String)
    ensures
        r@ == fallback_provider(*models),
{
    if models.providers.len() > 0 {
        models.providers[0].id.clone()
    } else {
        owned("deepseek")
    }
}

/// Names the provider to fall back to as the active one, once the active one
/// was deleted. Nothing else changes.
pub fn assign_fallback_provider(models: &mut ModelsConfig)
    ensures
        final(models).active_provider.deep_view() == Some(fallback_provider(*old(models))),
        *final(models) == (ModelsConfig {
            active_provider: final(models).active_provider,
            ..*old(models)
        }),
{
    models.active_provider = Some(fallback_id(models));
}

/// Once the active provider was deleted and another one took its place, the
/// configuration no longer names the deleted one, where any provider is left.
pub proof fn deleted_providers_are_not_active(
    before: ModelsConfig,
    after: ModelsConfig,
    id: Seq<char>,
)
    requires
        before.wf(),
        before.has_provider(id),
        after.providers@ == before.providers@.remove(provider_index(before.providers@, id)),
        after.providers@.len() > 0,
    ensures
        fallback_provider(after) != id,
        after.has_provider(fallback_provider(after)),
{
    deleted_providers_are_gone(before, after, id);
    lemma_provider_index(after.providers@, id);
    lemma_provider_index(after.providers@, fallback_provider(after));
    assert(after.providers@[0].id@ == fallback_provider(after));
}

/// The connection of the provider to fall back to.
pub open spec fn fallback_connection(
    models: ModelsConfig,
    env: Seq<EnvKey>,
    quirks: Seq<SlugQuirk>,
) -> ConnectionModel {
    let id = fallback_provider(models);
    let p = models.provider_at(id);
    ConnectionModel {
        provider_id: id,
        base_url: match p {
            Some(c) => match c.endpoint {
                Some(e) => e@,
                None => base_url_default(id),
            },
            None => base_url_default(id),
        },
        model: match p {
            Some(c) => given_or_default_model(id, c.default_model@),
            None => model_default(id),
        },
        api_key: saved_key_for(p, env, id),
        supports_vision: p matches Some(c) && c.supports_vision,
        supports_documents: p matches Some(c) && c.supports_documents,
        family: match p {
            Some(c) => c.family@,
            None => "Default"@,
        },
        tier_models: match p {
            Some(c) => c.tier_models,
            None => no_tiers(),
        },
        override_slug: None,
        quirks,
    }
}

/// What follows the deletion of `id`, given what is left.
pub fn after_delete(
    models: &ModelsConfig,
    id: &str,
    active_id: &str,
    env: &Vec<EnvKey>,
    quirks: &Vec<SlugQuirk>,
) -> (r: DeleteOutcome)
    ensures
        if id@ == active_id@ {
            let c = fallback_connection(*models, env@, quirks@);
            &&& r.switched matches Some(s) && s.0@ == c.provider_id && s.1@ == c.model && s.2.wf()
                && s.2@ == c.plan()
            &&& r.message@ == "Provider '"@ + id@ + "' deleted. Switched to "@ + name_shown(
                c.provider_id,
            ) + "."@
        } else {
            r.switched is None && r.message@ == "Provider '"@ + id@ + "' deleted."@
        },
{
    if !str_eq(id, active_id) {
        return DeleteOutcome { switched: None, message: cat3("Provider '", id, "' deleted.") };
    }
    let fallback = fallback_id(models);
    let fid = fallback.as_str();
    let cfg = models.provider(fid);
    let base_url = match cfg {
        Some(c) => match &c.endpoint {
            Some(e) => e.clone(),
            None => owned(default_base_url(fid)),
        },
        None => owned(default_base_url(fid)),
    };
    let model = match cfg {
        Some(c) => resolve_model(fid, c.default_model.as_str()),
        None => default_model(fid),
    };
    let key = saved_api_key_for(fid, cfg, env);
    let none = TierModels::empty();
    let connection = match cfg {
        Some(c) => Connection {
            provider_id: fid,
            base_url: base_url.as_str(),
            model: model.as_str(),
            api_key: &key,
            supports_vision: c.supports_vision,
            supports_documents: c.supports_documents,
            family: c.family.as_str(),
            tier_models: &c.tier_models,
            override_slug: None,
            quirks,
        },
        None => Connection {
            provider_id: fid,
            base_url: base_url.as_str(),
            model: model.as_str(),
            api_key: &key,
            supports_vision: false,
            supports_documents: false,
            family: "Default",
            tier_models: &none,
            override_slug: None,
            quirks,
        },
    };
    let plan = build_router_for_provider(&connection);
    let message = cat5("Provider '", id, "' deleted. Switched to ", display_name(fid), ".");
    DeleteOutcome { switched: Some((fallback.clone(), model, plan)), message }
}

// ---------------------------------------------------------------------------
// Activating
// ---------------------------------------------------------------------------

/// A connection can be used: it has a key in the vault, on disk or in the
/// environment.
pub open spec fn has_key(auth: AuthType, vault: VaultState, env: Option<Seq<char>>) -> bool {
    usable_key(auth_in_force(vault, auth)) is Some || env is Some
}

/// Why a provider cannot be activated, if it cannot. `vault` is what the vault
/// holds of its key.
pub open spec fn activation_refusal(
    models: ModelsConfig,
    id: Seq<char>,
    vault: VaultState,
    env: Seq<EnvKey>,
) -> Option<Seq<char>> {
    match models.provider_at(id) {
        None => Some("Provider '"@ + id + "' not found in config."@),
        Some(p) => if !is_local_id(id) && !has_key(p.auth, vault, env_key_of(env, id, 0)) {
            Some(
                "No API key found for '"@ + id + "'. Set "@ + env_var_of(id)
                    + " env var or configure a key first."@,
            )
        } else {
            None
        },
    }
}

/// Every cloud tier is served by `id` with its model for the tier; the local
/// tier is left empty.
pub open spec fn tiers_point_at(tiers: BundleTiers, id: Seq<char>, p: ProviderConfig) -> bool {
    &&& tiers.at(ModelProfile::Local) is None
    &&& forall|t: ModelProfile|
        t != ModelProfile::Local ==> ((#[trigger] tiers.at(t)) matches Some(b)
            && b.connection_id@ == id && b.slug@ == activation_slug(p, id, t))
}

/// The model of a tier: its own, else the provider's default.
pub open spec fn activation_slug(p: ProviderConfig, id: Seq<char>, tier: ModelProfile) -> Seq<
    char,
> {
    match p.tier_models.at(tier) {
        Some(s) => if s@.len() > 0 {
            s@
        } else {
            given_or_default_model(id, p.default_model@)
        },
        None => given_or_default_model(id, p.default_model@),
    }
}

fn tier_for(p: &ProviderConfig, id: &str, tier: ModelProfile) -> (r: Option<BundleTier>)
    ensures
        r matches Some(b) && b.connection_id@ == id@ && b.slug@ == activation_slug(*p, id@, tier),
{
    let slug = match p.tier_models.get(tier) {
        Some(s) => if s.as_str().is_empty() {
            resolve_model(id, p.default_model.as_str())
        } else {
            s.clone()
        },
        None => resolve_model(id, p.default_model.as_str()),
    };
    Some(BundleTier { connection_id: owned(id), slug })
}

fn tiers_for(p: &ProviderConfig, id: &str) -> (r: BundleTiers)
    ensures
        tiers_point_at(r, id@, *p),
{
    BundleTiers {
        judges: tier_for(p, id, ModelProfile::Judges),
        fast: tier_for(p, id, ModelProfile::Fast),
        code: tier_for(p, id, ModelProfile::Code),
        powerful: tier_for(p, id, ModelProfile::Powerful),
        local: None,
    }
}

/// Where the bundle of the activated provider stands: in the place of the
/// bundle that bears the provider's name, else in that of the bundle with the
/// fresh id, else at the end.
pub open spec fn activation_slot(bundles: Seq<Bundle>, name: Seq<char>, fresh_id: Seq<char>)
    -> int {
    if bundle_named(bundles, name) >= 0 {
        bundle_named(bundles, name)
    } else if bundle_index(bundles, fresh_id) >= 0 {
        bundle_index(bundles, fresh_id)
    } else {
        bundles.len() as int
    }
}

/// `after` is `before` once the provider `id` is activated: its bundle is
/// refreshed or created, and it is the active one.
pub open spec fn is_activated(
    before: ModelsConfig,
    after: ModelsConfig,
    id: Seq<char>,
    now: Timestamp,
    fresh_id: Seq<char>,
) -> bool {
    let name = name_shown(id);
    let slot = activation_slot(before.bundles@, name, fresh_id);
    let known = bundle_named(before.bundles@, name) >= 0;
    &&& before.provider_at(id) is Some
    &&& after.providers == before.providers
    &&& after.bundles@.len() == if slot == before.bundles@.len() {
        before.bundles@.len() + 1
    } else {
        before.bundles@.len()
    }
    &&& forall|j: int|
        0 <= j < before.bundles@.len() && j != slot ==> (#[trigger] after.bundles@[j])
            == before.bundles@[j]
    &&& 0 <= slot < after.bundles@.len()
    &&& ({
        let b = after.bundles@[slot];
        &&& b.name@ == name
        &&& b.updated_at == now
        &&& tiers_point_at(b.tiers, id, before.provider_at(id)->0)
        &&& if known {
            b.id == before.bundles@[slot].id && b.created_at == before.bundles@[slot].created_at
        } else {
            b.id@ == fresh_id && b.created_at == now
        }
        &&& after.active_bundle.deep_view() == Some(b.id@)
    })
    &&& after.active_provider.deep_view() == Some(id)
}

/// Activates a provider: a bundle of its name, with every cloud tier served
/// by it, is refreshed or created and made the active one. `models` is what is
/// on disk; a key that only the vault holds stays there.
pub fn set_active_provider(
    models: &mut ModelsConfig,
    id: &str,
    in_vault: &VaultState,
    env: &Vec<EnvKey>,
    now: Timestamp,
    fresh_id: String,
) -> (r: Result<String, String>)
    requires
        old(models).wf(),
    ensures
        final(models).wf(),
        match r {
            Ok(m) => {
                &&& activation_refusal(*old(models), id@, *in_vault, env@) is None
                &&& is_activated(*old(models), *final(models), id@, now, fresh_id@)
                &&& m@ == "Switched to "@ + name_shown(id@)
            },
            Err(e) => activation_refusal(*old(models), id@, *in_vault, env@) == Some(e@) && *final(models)
                == *old(models),
        },
{
    let planned: Result<BundleTiers, String> = match models.provider(id) {
        None => Err(cat3("Provider '", id, "' not found in config.")),
        Some(p) => {
            let auth = hydrated_auth(in_vault, &p.auth);
            let usable = usable_api_key(&auth).is_some() || env_key(env, id).is_some();
            if !is_local_provider(id) && !usable {
                let var = api_key_env_var(id);
                Err(
                    cat5(
                        "No API key found for '",
                        id,
                        "'. Set ",
                        var.as_str(),
                        " env var or configure a key first.",
                    ),
                )
            } else {
                Ok(tiers_for(p, id))
            }
        },
    };
    let tiers = match planned {
        Ok(t) => t,
        Err(e) => {
            return Err(e);
        },
    };
    let name = display_name(id);
    let ghost before = models.bundles@;
    proof {
        lemma_bundle_named(before, name@);
        lemma_bundle_index(before, fresh_id@);
    }
    let bundle_id: String;
    match models.find_bundle_named(name) {
        Some(i) => {
            bundle_id = models.bundles[i].id.clone();
            let b = Bundle {
                id: bundle_id.clone(),
                name: models.bundles[i].name.clone(),
                created_at: models.bundles[i].created_at,
                updated_at: now,
                tiers,
            };
            models.bundles.set(i, b);
            proof {
                let after = models.bundles@;
                assert forall|a: int, c: int| 0 <= a < c < after.len() implies (
                #[trigger] after[a]).id@ != (#[trigger] after[c]).id@ by {
                    assert(after[a].id@ == before[a].id@);
                    assert(after[c].id@ == before[c].id@);
                }
            }
        },
        None => {
            bundle_id = fresh_id.clone();
            let b = Bundle {
                id: fresh_id.clone(),
                name: owned(name),
                created_at: now,
                updated_at: now,
                tiers,
            };
            match models.find_bundle(fresh_id.as_str()) {
                Some(i) => {
                    models.bundles.set(i, b);
                    proof {
                        let after = models.bundles@;
                        assert forall|a: int, c: int| 0 <= a < c < after.len() implies (
                        #[trigger] after[a]).id@ != (#[trigger] after[c]).id@ by {
                            assert(after[a].id@ == before[a].id@);
                            assert(after[c].id@ == before[c].id@);
                        }
                    }
                },
                None => {
                    models.bundles.push(b);
                    proof {
                        let after = models.bundles@;
                        assert forall|a: int, c: int| 0 <= a < c < after.len() implies (
                        #[trigger] after[a]).id@ != (#[trigger] after[c]).id@ by {
                            assert(after[a] == before[a]);
                            if c < before.len() {
                                assert(after[c] == before[c]);
                            }
                        }
                    }
                },
            }
        },
    }
    models.active_bundle = Some(bundle_id);
    models.active_provider = Some(owned(id));
    Ok(cat2("Switched to ", name))
}

/// What follows an activation.
pub struct ActivationOutcome {
    pub router: RouterPlan,
    /// The connection and the model that stand for the bundle; where it has
    /// none, they do not change.
    pub active: Option<(String, String)>,
}

/// What follows an activation: the router of the active bundle, and what
/// stands for it. `hydrated` is the configuration with the keys of the vault
/// filled in. Nothing follows where no bundle is active.
pub fn after_activation(hydrated: &ModelsConfig, env: &Vec<EnvKey>, quirks: &Vec<SlugQuirk>) -> (r:
    Option<ActivationOutcome>)
    ensures
        match hydrated.active_bundle_value() {
            Some(b) => r matches Some(o) && o.router.wf() && o.router@ == bundle_plan(
                b,
                *hydrated,
                env@,
                quirks@,
            ) && match first_filled(b.tiers, primary_order(), 0) {
                Some(t) => o.active matches Some(a) && a.0@ == t.connection_id@ && a.1@ == t.slug@,
                None => o.active is None,
            },
            None => r is None,
        },
{
    match hydrated.current_bundle() {
        Some(bundle) => {
            let router = build_router_for_bundle(bundle, hydrated, env, quirks);
            let active = match derive_primary_connection_pair(bundle) {
                Some(t) => Some((t.connection_id.clone(), t.slug.clone())),
                None => None,
            };
            Some(ActivationOutcome { router, active })
        },
        None => None,
    }
}

/// Once a provider is activated, it stands for the app, with its model for the
/// everyday tier.
pub proof fn activated_providers_are_in_use(
    before: ModelsConfig,
    after: ModelsConfig,
    id: Seq<char>,
    now: Timestamp,
    fresh_id: Seq<char>,
)
    requires
        is_activated(before, after, id, now, fresh_id),
        after.wf(),
    ensures
        after.active_bundle_value() matches Some(b) && (first_filled(b.tiers, primary_order(), 0)
            matches Some(t) && t.connection_id@ == id && t.slug@ == activation_slug(
            before.provider_at(id)->0,
            id,
            ModelProfile::Fast,
        )),
{
    let slot = activation_slot(before.bundles@, name_shown(id), fresh_id);
    let b = after.bundles@[slot];
    lemma_bundle_index(after.bundles@, b.id@);
    let k = bundle_index(after.bundles@, b.id@);
    assert(k == slot) by {
        if k >= 0 && k < slot {
            assert(after.bundles@[k].id@ != after.bundles@[slot].id@);
        }
    }
    assert(primary_order()[0] == ModelProfile::Fast);
    assert(b.tiers.at(ModelProfile::Fast) is Some);
}

/// Activating a provider writes no key: whatever the vault holds, the
/// connections on disk stay as they are.
pub proof fn activation_writes_no_key(
    before: ModelsConfig,
    after: ModelsConfig,
    id: Seq<char>,
    now: Timestamp,
    fresh_id: Seq<char>,
)
    requires
        is_activated(before, after, id, now, fresh_id),
    ensures
        after.providers == before.providers,
{
}

/// Activating a provider again reuses its bundle: none is added, and the same
/// one stays active.
pub proof fn activating_twice_reuses_the_bundle(
    a: ModelsConfig,
    b: ModelsConfig,
    c: ModelsConfig,
    id: Seq<char>,
    now: Timestamp,
    later: Timestamp,
    fresh_id: Seq<char>,
    other_id: Seq<char>,
)
    requires
        is_activated(a, b, id, now, fresh_id),
        is_activated(b, c, id, later, other_id),
    ensures
        c.bundles@.len() == b.bundles@.len(),
        c.active_bundle.deep_view() == b.active_bundle.deep_view(),
{
    activation_owns_its_name(a, b, id, now, fresh_id);
}

/// The first activation leaves exactly the slot it filled as the first bundle
/// of the provider's name.
pub proof fn activation_owns_its_name(
    a: ModelsConfig,
    b: ModelsConfig,
    id: Seq<char>,
    now: Timestamp,
    fresh_id: Seq<char>,
)
    requires
        is_activated(a, b, id, now, fresh_id),
    ensures
        bundle_named(b.bundles@, name_shown(id)) == activation_slot(
            a.bundles@,
            name_shown(id),
            fresh_id,
        ),
{
    let name = name_shown(id);
    let slot = activation_slot(a.bundles@, name, fresh_id);
    lemma_bundle_named(a.bundles@, name);
    lemma_bundle_named(b.bundles@, name);
    let k = bundle_named(b.bundles@, name);
    if k < slot {
        assert(b.bundles@[k] == a.bundles@[k]);
    }
}

// ---------------------------------------------------------------------------
// What saving, deleting and activating promise
// ---------------------------------------------------------------------------

/// What the user enters is what is saved: the window wherever it is not zero,
/// the percentages wherever they are percentages, and every other field as it
/// was given. What the user leaves out stays as it was.
pub proof fn entered_values_are_saved(
    cfg: ProviderConfig,
    edit: ProviderEdit,
    families: Seq<Seq<char>>,
    existing: Option<ProviderConfig>,
)
    requires
        is_edited(cfg, edit, families, existing),
    ensures
        cfg.auth == edit.auth,
        cfg.default_model@ == edit.model@,
        cfg.temperature == edit.temperature,
        edit.context_window_tokens matches Some(w) ==> (w > 0 ==> cfg.context_window_tokens == w),
        edit.context_window_tokens is None || edit.context_window_tokens == Some(0u32) ==> {
            &&& existing matches Some(p) ==> cfg.context_window_tokens == p.context_window_tokens
            &&& existing is None ==> cfg.context_window_tokens == 128_000
        },
        edit.compaction_target_pct matches Some(p) ==> {
            &&& 1 <= p <= 100 ==> cfg.compaction_target_pct == p
            &&& p == 0 ==> cfg.compaction_target_pct == 1
            &&& p > 100 ==> cfg.compaction_target_pct == 100
        },
        edit.compaction_target_pct is None ==> {
            &&& existing matches Some(p) ==> cfg.compaction_target_pct == p.compaction_target_pct
            &&& existing is None ==> cfg.compaction_target_pct == 30
        },
        edit.compaction_trigger_pct matches Some(p) ==> (cfg.compaction_target_pct < p <= 100
            ==> cfg.compaction_trigger_pct == p),
        edit.compaction_trigger_pct is None ==> {
            &&& existing matches Some(p) ==> (p.compaction_trigger_pct > cfg.compaction_target_pct
                ==> cfg.compaction_trigger_pct == p.compaction_trigger_pct)
            &&& existing is None && cfg.compaction_target_pct < 65 ==> cfg.compaction_trigger_pct
                == 65
        },
        edit.compaction_trigger_pct matches Some(p) ==> (p <= cfg.compaction_target_pct < 100
            ==> cfg.compaction_trigger_pct == cfg.compaction_target_pct + 1),
        edit.supports_vision matches Some(b) ==> cfg.supports_vision == b,
        edit.supports_documents matches Some(b) ==> cfg.supports_documents == b,
        edit.supports_vision is None ==> cfg.supports_vision == (existing is Some
            && existing->0.supports_vision),
        edit.supports_documents is None ==> cfg.supports_documents == (existing is Some
            && existing->0.supports_documents),
{
}

/// A base URL is kept wherever it is another than the provider's own, a family
/// wherever it is a known one.
pub proof fn entered_urls_and_families_are_saved(
    cfg: ProviderConfig,
    edit: ProviderEdit,
    families: Seq<Seq<char>>,
    existing: Option<ProviderConfig>,
)
    requires
        is_edited(cfg, edit, families, existing),
    ensures
        edit.base_url@.len() == 0 ==> cfg.endpoint is None,
        edit.base_url@ == base_url_default(edit.id@) ==> cfg.endpoint is None,
        edit.base_url@.len() > 0 && edit.base_url@ != base_url_default(edit.id@) ==> (
        cfg.endpoint matches Some(e) && e@ == edit.base_url@),
        edit.family matches Some(f) ==> (f@.len() > 0 && families.contains(f@) ==> cfg.family@
            == f@),
        (edit.family is None || edit.family->0@.len() == 0 || !families.contains(edit.family->0@))
            ==> {
            &&& existing matches Some(p) ==> cfg.family@ == p.family@
            &&& existing is None ==> cfg.family@ == "Default"@
        },
{
}

/// A row sets a tier.
pub open spec fn row_sets(row: (String, String), tier: ModelProfile) -> bool {
    profile_of_key(row.0@) == Some(tier) && trim_spec(row.1@).len() > 0
}

/// The last row that sets a tier decides its model, a tier that no row sets
/// has none, and without any rows the tiers stay as they were.
pub proof fn the_last_row_of_a_tier_is_saved(
    cfg: ProviderConfig,
    edit: ProviderEdit,
    families: Seq<Seq<char>>,
    existing: Option<ProviderConfig>,
    tier: ModelProfile,
    i: int,
)
    requires
        is_edited(cfg, edit, families, existing),
    ensures
        edit.tier_models matches Some(rows) ==> {
            &&& 0 <= i < rows@.len() && row_sets(rows@[i], tier) && (forall|j: int|
                i < j < rows@.len() ==> !row_sets(#[trigger] rows@[j], tier))
                ==> cfg.tier_models.at(tier) == Some(rows@[i].1)
            &&& (forall|j: int| 0 <= j < rows@.len() ==> !row_sets(#[trigger] rows@[j], tier))
                ==> cfg.tier_models.at(tier) is None
        },
        edit.tier_models is None ==> {
            &&& existing matches Some(p) ==> cfg.tier_models.at(tier) == p.tier_models.at(tier)
            &&& existing is None ==> cfg.tier_models.at(tier) is None
        },
{
    if let Some(rows) = edit.tier_models {
        if i >= 0 {
            lemma_last_row(rows@, tier, i);
        }
        lemma_last_row(rows@, tier, -1);
        assert(cfg.tier_models.at(tier) == tier_from_rows(rows@, tier));
    }
}

proof fn lemma_last_row(rows: Seq<(String, String)>, tier: ModelProfile, i: int)
    requires
        -1 <= i,
    ensures
        0 <= i < rows.len() && row_sets(rows[i], tier) && (forall|j: int|
            i < j < rows.len() ==> !row_sets(#[trigger] rows[j], tier)) ==> tier_from_rows(
            rows,
            tier,
        ) == Some(rows[i].1),
        (forall|j: int| 0 <= j < rows.len() ==> !row_sets(#[trigger] rows[j], tier))
            ==> tier_from_rows(rows, tier) is None,
    decreases rows.len(),
{
    if rows.len() > 0 {
        let init = rows.drop_last();
        lemma_last_row(init, tier, i);
        if 0 <= i < rows.len() - 1 {
            assert(init[i] == rows[i]);
        }
        assert(rows.last() == rows[rows.len() - 1]);
        if forall|j: int| i < j < rows.len() ==> !row_sets(#[trigger] rows[j], tier) {
            assert forall|j: int| i < j < init.len() implies !row_sets(
                #[trigger] init[j],
                tier,
            ) by {
                assert(init[j] == rows[j]);
            }
        }
        if forall|j: int| 0 <= j < rows.len() ==> !row_sets(#[trigger] rows[j], tier) {
            assert forall|j: int| 0 <= j < init.len() implies !row_sets(
                #[trigger] init[j],
                tier,
            ) by {
                assert(init[j] == rows[j]);
            }
        }
    }
}

/// A save edits the connection of its id, in place or at the end, and touches
/// neither the bundles nor what is active.
pub proof fn saves_edit_one_connection(
    before: ModelsConfig,
    after: ModelsConfig,
    edit: ProviderEdit,
    families: Seq<Seq<char>>,
)
    requires
        is_saved(before, after, edit, families),
    ensures
        after.provider_at(edit.id@) matches Some(cfg) && is_edited(
            cfg,
            edit,
            families,
            before.provider_at(edit.id@),
        ),
        before.has_provider(edit.id@) ==> after.providers@.len() == before.providers@.len(),
        !before.has_provider(edit.id@) ==> after.providers@.len() == before.providers@.len() + 1,
        forall|j: int|
            0 <= j < before.providers@.len() && before.providers@[j].id@ != edit.id@ ==> (
            #[trigger] after.providers@[j]) == before.providers@[j],
        after.bundles@ == before.bundles@,
        after.active_bundle == before.active_bundle,
        after.active_provider == before.active_provider,
{
    lemma_provider_index(before.providers@, edit.id@);
}

/// The router that follows a save uses what was just given, and the
/// provider's own address and model where that was empty.
pub proof fn reloads_use_what_was_given(
    id: Seq<char>,
    base_url: Seq<char>,
    model: Seq<char>,
    key: Option<Seq<char>>,
    cfg: ProviderConfig,
    quirks: Seq<SlugQuirk>,
)
    ensures
        ({
            let r = saved_connection(id, base_url, model, key, cfg, quirks);
            &&& r.provider_id == id
            &&& base_url.len() > 0 ==> r.base_url == base_url
            &&& base_url.len() == 0 ==> r.base_url == base_url_default(id)
            &&& model.len() > 0 ==> r.model == model && given_or_default_model(id, model) == model
            &&& model.len() == 0 ==> r.model == model_default(id) && given_or_default_model(
                id,
                model,
            ) == model_default(id)
            &&& r.api_key == key
            &&& r.supports_vision == cfg.supports_vision
            &&& r.supports_documents == cfg.supports_documents
            &&& r.family == cfg.family@
            &&& r.tier_models == cfg.tier_models
            &&& r.override_slug is None
            &&& r.quirks == quirks
        }),
{
}

/// The bundles that use a connection are named one by one, in order.
pub proof fn users_are_listed_in_order(a: Seq<Bundle>, b: Seq<Bundle>, one: Bundle, id: Seq<char>)
    ensures
        referencing(a + b, id) == referencing(a, id) + referencing(b, id),
        one.tiers.uses(id) ==> referencing(seq![one], id) == seq![one.name@],
        !one.tiers.uses(id) ==> referencing(seq![one], id).len() == 0,
    decreases b.len(),
{
    if b.len() == 0 {
        assert(a + b =~= a);
        assert(referencing(a, id) + referencing(b, id) =~= referencing(a, id));
    } else {
        users_are_listed_in_order(a, b.drop_last(), one, id);
        assert((a + b).drop_last() =~= a + b.drop_last());
        assert(referencing(a + b, id) =~= referencing(a, id) + referencing(b, id));
    }
    assert(seq![one].drop_last() =~= Seq::<Bundle>::empty());
    reveal_with_fuel(referencing, 2);
    assert(one.tiers.uses(id) ==> referencing(seq![one], id) =~= seq![one.name@]);
}

/// A deletion is refused for a connection that is not configured, and for one
/// that is in use it names every bundle that uses it.
pub proof fn refused_deletions_say_why(models: ModelsConfig, id: Seq<char>)
    ensures
        !models.has_provider(id) ==> deletion_refusal(models, id) == Some(
            "Provider '"@ + id + "' not found."@,
        ),
        models.has_provider(id) && referencing(models.bundles@, id).len() > 0 ==> deletion_refusal(
            models,
            id,
        ) == Some(
            "Cannot delete '"@ + id + "' — referenced by Bundle(s): "@ + joined(
                referencing(models.bundles@, id),
                ", "@,
            ) + ". Edit those Bundles to point at a different Connection first."@,
        ),
        models.has_provider(id) && referencing(models.bundles@, id).len() == 0
            ==> deletion_refusal(models, id) is None,
{
}

/// After a deletion the first connection left takes over, as it is
/// configured. DeepSeek does only where none is left.
pub proof fn the_first_connection_left_takes_over(
    models: ModelsConfig,
    env: Seq<EnvKey>,
    quirks: Seq<SlugQuirk>,
)
    ensures
        models.providers@.len() > 0 ==> fallback_provider(models) == models.providers@[0].id@,
        models.providers@.len() == 0 ==> fallback_provider(models) == "deepseek"@,
        models.providers@.len() > 0 ==> {
            let r = fallback_connection(models, env, quirks);
            let c = models.providers@[0].config;
            &&& r.provider_id == models.providers@[0].id@
            &&& c.endpoint matches Some(e) ==> r.base_url == e@
            &&& c.endpoint is None ==> r.base_url == base_url_default(r.provider_id)
            &&& c.default_model@.len() > 0 ==> r.model == c.default_model@
            &&& c.default_model@.len() == 0 ==> r.model == model_default(r.provider_id)
            &&& r.api_key == saved_key_for(Some(c), env, r.provider_id)
            &&& r.supports_vision == c.supports_vision
            &&& r.supports_documents == c.supports_documents
            &&& r.family == c.family@
            &&& r.tier_models == c.tier_models
            &&& r.override_slug is None
            &&& r.quirks == quirks
        },
        models.providers@.len() == 0 ==> {
            let r = fallback_connection(models, env, quirks);
            &&& r.provider_id == "deepseek"@
            &&& r.base_url == base_url_default("deepseek"@)
            &&& r.model == model_default("deepseek"@)
            &&& r.api_key == env_key_of(env, "deepseek"@, 0)
        },
{
    let id = fallback_provider(models);
    lemma_provider_index(models.providers@, id);
    if models.providers@.len() > 0 {
        assert(models.providers@[0].id@ == id);
    }
}

/// A configured connection is refused only where it is not a local one and no
/// key for it is found anywhere: not in the vault, not on disk, not in the
/// environment.
pub proof fn activation_needs_a_key(
    models: ModelsConfig,
    id: Seq<char>,
    vault: VaultState,
    env: Seq<EnvKey>,
)
    ensures
        models.provider_at(id) is None ==> activation_refusal(models, id, vault, env) == Some(
            "Provider '"@ + id + "' not found in config."@,
        ),
        models.provider_at(id) matches Some(p) ==> {
            &&& is_local_id(id) ==> activation_refusal(models, id, vault, env) is None
            &&& env_key_of(env, id, 0) is Some ==> activation_refusal(models, id, vault, env)
                is None
            &&& vault matches VaultState::Holding(v) ==> (usable_key(AuthType::ApiKey(v)) is Some
                ==> activation_refusal(models, id, vault, env) is None)
            &&& !(vault is Holding) && usable_key(p.auth) is Some ==> activation_refusal(
                models,
                id,
                vault,
                env,
            ) is None
            &&& !is_local_id(id) && env_key_of(env, id, 0) is None && !(vault is Holding)
                && usable_key(p.auth) is None ==> activation_refusal(models, id, vault, env)
                == Some(
                "No API key found for '"@ + id + "'. Set "@ + env_var_of(id)
                    + " env var or configure a key first."@,
            )
        },
{
}

/// Once a provider is activated, the active bundle serves each cloud tier with
/// that provider, with the model that it sets for the tier wherever it sets
/// one, else with its default model. The local tier stays empty.
pub proof fn activation_keeps_the_models_of_the_tiers(
    before: ModelsConfig,
    after: ModelsConfig,
    id: Seq<char>,
    now: Timestamp,
    fresh_id: Seq<char>,
    tier: ModelProfile,
)
    requires
        is_activated(before, after, id, now, fresh_id),
        after.wf(),
        before.provider_at(id) is Some,
    ensures
        after.active_bundle_value() matches Some(bundle) && {
            let p = before.provider_at(id)->0;
            &&& bundle.tiers.at(ModelProfile::Local) is None
            &&& tier != ModelProfile::Local ==> (bundle.tiers.at(tier) matches Some(b) && {
                &&& b.connection_id@ == id
                &&& p.tier_models.at(tier) matches Some(s) ==> (s@.len() > 0 ==> b.slug@ == s@)
                &&& (p.tier_models.at(tier) is None || p.tier_models.at(tier)->0@.len() == 0)
                    && p.default_model@.len() > 0 ==> b.slug@ == p.default_model@
                &&& (p.tier_models.at(tier) is None || p.tier_models.at(tier)->0@.len() == 0)
                    && p.default_model@.len() == 0 ==> b.slug@ == model_default(id)
            })
        },
{
    let slot = activation_slot(before.bundles@, name_shown(id), fresh_id);
    let b = after.bundles@[slot];
    lemma_bundle_index(after.bundles@, b.id@);
    let k = bundle_index(after.bundles@, b.id@);
    assert(k == slot) by {
        if k >= 0 && k < slot {
            assert(after.bundles@[k].id@ != after.bundles@[slot].id@);
        }
    }
    assert(after.active_bundle_value() == Some(b));
    assert(tier != ModelProfile::Local ==> b.tiers.at(tier) is Some);
}

/// An activation makes the provider the active one and changes one bundle: the
/// one that bears its name, or a fresh one of that name. Every other bundle
/// and every connection stays as it was.
pub proof fn activation_changes_one_bundle(
    before: ModelsConfig,
    after: ModelsConfig,
    id: Seq<char>,
    now: Timestamp,
    fresh_id: Seq<char>,
    i: int,
)
    requires
        is_activated(before, after, id, now, fresh_id),
        after.wf(),
        0 <= i < before.bundles@.len(),
    ensures
        after.active_provider.deep_view() == Some(id),
        after.providers@ == before.providers@,
        after.active_bundle_value() matches Some(b) && b.name@ == name_shown(id) && b.updated_at
            == now,
        before.bundles@[i].name@ != name_shown(id) && before.bundles@[i].id@ != fresh_id
            ==> after.bundles@[i] == before.bundles@[i],
        before.bundles@[i].name@ == name_shown(id) && (forall|j: int|
            0 <= j < i ==> (#[trigger] before.bundles@[j]).name@ != name_shown(id)) ==> {
            &&& after.bundles@.len() == before.bundles@.len()
            &&& after.active_bundle_value() == Some(after.bundles@[i])
            &&& after.bundles@[i].id == before.bundles@[i].id
            &&& after.bundles@[i].created_at == before.bundles@[i].created_at
        },
        (forall|j: int|
            0 <= j < before.bundles@.len() ==> (#[trigger] before.bundles@[j]).name@ != name_shown(
                id,
            )) ==> (after.active_bundle_value() matches Some(b) && b.id@ == fresh_id
            && b.created_at == now),
{
    let name = name_shown(id);
    let slot = activation_slot(before.bundles@, name, fresh_id);
    lemma_bundle_named(before.bundles@, name);
    lemma_bundle_index(before.bundles@, fresh_id);
    let b = after.bundles@[slot];
    lemma_bundle_index(after.bundles@, b.id@);
    let k = bundle_index(after.bundles@, b.id@);
    assert(k == slot) by {
        if k >= 0 && k < slot {
            assert(after.bundles@[k].id@ != after.bundles@[slot].id@);
        }
    }
    assert(after.active_bundle_value() == Some(b));
    if before.bundles@[i].name@ == name && (forall|j: int|
        0 <= j < i ==> (#[trigger] before.bundles@[j]).name@ != name) {
        let n = bundle_named(before.bundles@, name);
        assert(n == i);
    }
}

} // verus!
