//! Provider settings: what is shown of a provider.

use vstd::prelude::*;
use vstd::string::*;
use crate::models::{AuthType, ModelProfile, ProviderConfig, TierModels};
use crate::providers::{
    base_url_default, default_base_url, default_model, display_name, model_default, name_shown,
    provider_type, type_shown,
};
use crate::routing::{EnvKey, env_key, env_key_of, usable_api_key, usable_key};
use crate::text::{byte_len, bytes_len, cat2, chars_of, owned, pair_views, str_eq, string_of};

verus! {

// ---------------------------------------------------------------------------
// Masked keys
// ---------------------------------------------------------------------------

/// `n` asterisks.
pub open spec fn stars(n: nat) -> Seq<char> {
    Seq::new(n, |i: int| '*')
}

/// The last four characters of `s`.
pub open spec fn last_four(s: Seq<char>) -> Seq<char> {
    s.subrange(s.len() - 4, s.len() as int)
}

/// What is shown of a key: its last four characters, and an asterisk per byte
/// for a key that has no more than these.
pub open spec fn masked(key: Seq<char>) -> Seq<char> {
    if key.len() <= 4 {
        stars(bytes_len(key))
    } else {
        "..."@ + last_four(key)
    }
}

/// What is shown of a key.
pub fn mask_api_key(key: &str) -> (r: String)
    ensures
        r@ == masked(key@),
{
    let v = chars_of(key);
    if v.len() > 4 {
        let tail = string_of(&v, v.len() - 4, v.len());
        return cat2("...", tail.as_str());
    }
    let total: usize = byte_len(key);
    let mut out = String::new();
    let mut i: usize = 0;
    proof {
        assert(stars(0) =~= Seq::<char>::empty());
    }
    while i < total
        invariant
            i <= total,
            out@ == stars(i as nat),
        decreases total - i,
    {
        out.push('*');
        i += 1;
        proof {
            assert(stars(i as nat) =~= stars((i - 1) as nat).push('*'));
        }
    }
    out
}

/// A mask shows nothing of a key but its last four characters: keys that end
/// alike are masked alike.
pub proof fn masks_show_four_characters(a: Seq<char>, b: Seq<char>)
    requires
        a.len() > 4,
        b.len() > 4,
        last_four(a) == last_four(b),
    ensures
        masked(a) == masked(b),
        last_four(a).is_suffix_of(masked(a)),
        masked(a).len() == 7,
{
    reveal_strlit("...");
    assert(masked(a).subrange(3, 7) =~= last_four(a));
}

/// Of a short key nothing is shown.
pub proof fn short_keys_are_hidden(key: Seq<char>, i: int)
    requires
        key.len() <= 4,
        0 <= i < masked(key).len(),
    ensures
        masked(key)[i] == '*',
{
}

// ---------------------------------------------------------------------------
// What is shown of a provider
// ---------------------------------------------------------------------------

/// A configured provider, as the settings show it.
#[derive(Debug, Clone)]
pub struct ProviderInfo {
    pub id: String,
    pub name: String,
    pub provider_type: String,
    pub base_url: String,
    pub model: String,
    pub has_api_key: bool,
    pub api_key_hint: String,
    pub is_active: bool,
    pub supports_vision: bool,
    pub supports_documents: bool,
    pub family: String,
    pub context_window_tokens: u32,
    pub compaction_trigger_pct: u8,
    pub compaction_target_pct: u8,
    /// The bits of the sampling temperature.
    pub temperature: Option<u32>,
    /// Settings key and slug of each tier that is set.
    pub tier_models: Vec<(String, String)>,
}

/// The setting of one tier, if there is one.
pub open spec fn tier_row(tiers: TierModels, tier: ModelProfile, key: Seq<char>) -> Seq<
    (Seq<char>, Seq<char>),
> {
    match tiers.at(tier) {
        Some(s) => seq![(key, s@)],
        None => Seq::empty(),
    }
}

/// Settings key and slug of each cloud tier that is set.
pub open spec fn tier_rows(tiers: TierModels) -> Seq<(Seq<char>, Seq<char>)> {
    tier_row(tiers, ModelProfile::Judges, "Cheap"@) + tier_row(tiers, ModelProfile::Fast, "Fast"@)
        + tier_row(tiers, ModelProfile::Code, "Code"@) + tier_row(
        tiers,
        ModelProfile::Powerful,
        "Powerful"@,
    )
}

fn push_row(v: &mut Vec<(String, String)>, tiers: &TierModels, tier: ModelProfile, key: &str)
    ensures
        pair_views(final(v)@) == pair_views(old(v)@) + tier_row(*tiers, tier, key@),
{
    if let Some(s) = tiers.get(tier) {
        v.push((owned(key), s.clone()));
        proof {
            assert(pair_views(v@) =~= pair_views(old(v)@) + seq![(key@, s@)]);
        }
    } else {
        proof {
            assert(pair_views(v@) =~= pair_views(v@) + Seq::<(Seq<char>, Seq<char>)>::empty());
        }
    }
}

/// Settings key and slug of each cloud tier that is set.
pub fn wire_tiers(tiers: &TierModels) -> (r: Vec<(String, String)>)
    ensures
        pair_views(r@) == tier_rows(*tiers),
{
    let mut v: Vec<(String, String)> = Vec::new();
    push_row(&mut v, tiers, ModelProfile::Judges, "Cheap");
    push_row(&mut v, tiers, ModelProfile::Fast, "Fast");
    push_row(&mut v, tiers, ModelProfile::Code, "Code");
    push_row(&mut v, tiers, ModelProfile::Powerful, "Powerful");
    proof {
        assert(pair_views(v@) =~= tier_rows(*tiers));
    }
    v
}

/// Whether there is a key, and what is shown of it: the configured key, else
/// the one from the environment, marked as such.
pub open spec fn key_shown(auth: AuthType, env: Option<Seq<char>>) -> (bool, Seq<char>) {
    match usable_key(auth) {
        Some(k) => (true, masked(k)),
        None => match env {
            Some(k) => (true, masked(k) + "  (env)"@),
            None => (false, Seq::empty()),
        },
    }
}

/// `info` shows the connection `config` under `id`.
pub open spec fn shows(
    info: ProviderInfo,
    id: Seq<char>,
    config: ProviderConfig,
    active: Seq<char>,
    env: Seq<EnvKey>,
) -> bool {
    &&& info.id@ == id
    &&& info.name@ == name_shown(id)
    &&& info.provider_type@ == type_shown(id)
    &&& info.base_url@ == match config.endpoint {
        Some(e) => e@,
        None => base_url_default(id),
    }
    &&& info.model@ == if config.default_model@.len() == 0 {
        model_default(id)
    } else {
        config.default_model@
    }
    &&& (info.has_api_key, info.api_key_hint@) == key_shown(config.auth, env_key_of(env, id, 0))
    &&& info.is_active == (id == active)
    &&& info.supports_vision == config.supports_vision
    &&& info.supports_documents == config.supports_documents
    &&& info.family@ == config.family@
    &&& info.context_window_tokens == config.context_window_tokens
    &&& info.compaction_trigger_pct == config.compaction_trigger_pct
    &&& info.compaction_target_pct == config.compaction_target_pct
    &&& info.temperature == config.temperature
    &&& pair_views(info.tier_models@) == tier_rows(config.tier_models)
}

/// What the settings show of a connection.
pub fn provider_config_to_info(
    id: &str,
    config: &ProviderConfig,
    active_id: &str,
    env: &Vec<EnvKey>,
) -> (r: ProviderInfo)
    ensures
        shows(r, id@, *config, active_id@, env@),
{
    let base_url = match &config.endpoint {
        Some(e) => e.clone(),
        None => owned(default_base_url(id)),
    };
    let (has_api_key, hint) = match usable_api_key(&config.auth) {
        Some(k) => (true, mask_api_key(k.as_str())),
        None => match env_key(env, id) {
            Some(k) => {
                let m = mask_api_key(k.as_str());
                (true, cat2(m.as_str(), "  (env)"))
            },
            None => (false, String::new()),
        },
    };
    ProviderInfo {
        id: owned(id),
        name: owned(display_name(id)),
        provider_type: owned(provider_type(id)),
        base_url,
        model: if config.default_model.as_str().is_empty() {
            default_model(id)
        } else {
            config.default_model.clone()
        },
        has_api_key,
        api_key_hint: hint,
        is_active: str_eq(id, active_id),
        supports_vision: config.supports_vision,
        supports_documents: config.supports_documents,
        family: config.family.clone(),
        context_window_tokens: config.context_window_tokens,
        compaction_trigger_pct: config.compaction_trigger_pct,
        compaction_target_pct: config.compaction_target_pct,
        temperature: config.temperature,
        tier_models: wire_tiers(&config.tier_models),
    }
}

// ---------------------------------------------------------------------------
// What is shown of a provider
// ---------------------------------------------------------------------------

/// A long key is shown by three dots and its last four characters, a short one
/// by as many stars as it has bytes.
pub proof fn keys_are_masked(key: Seq<char>, i: int)
    ensures
        key.len() > 4 ==> masked(key) == "..."@ + key.subrange(key.len() - 4, key.len() as int),
        key.len() <= 4 ==> masked(key).len() == bytes_len(key),
        key.len() <= 4 && 0 <= i < masked(key).len() ==> masked(key)[i] == '*',
{
}

/// The tiers are listed from the cheapest to the most powerful, each one that
/// is set under its own key.
pub proof fn set_tiers_are_listed(tiers: TierModels)
    ensures
        ({
            let r = tier_rows(tiers);
            let a = tiers.judges is Some;
            let b = tiers.fast is Some;
            let c = tiers.code is Some;
            let n = (if a {
                1int
            } else {
                0int
            });
            let m = n + (if b {
                1int
            } else {
                0int
            });
            let k = m + (if c {
                1int
            } else {
                0int
            });
            &&& tiers.judges matches Some(s) ==> r[0] == ("Cheap"@, s@)
            &&& tiers.fast matches Some(s) ==> r[n] == ("Fast"@, s@)
            &&& tiers.code matches Some(s) ==> r[m] == ("Code"@, s@)
            &&& tiers.powerful matches Some(s) ==> r[k] == ("Powerful"@, s@)
            &&& r.len() == k + (if tiers.powerful is Some {
                1int
            } else {
                0int
            })
        }),
{
}

/// A saved key is shown before one from the environment, which is marked as
/// such; without either there is none.
pub proof fn saved_keys_are_shown_first(auth: AuthType, env: Option<Seq<char>>)
    ensures
        usable_key(auth) matches Some(k) ==> key_shown(auth, env) == (true, masked(k)),
        usable_key(auth) is None ==> (env matches Some(k) ==> key_shown(auth, env) == (
            true,
            masked(k) + "  (env)"@,
        )),
        usable_key(auth) is None && env is None ==> !key_shown(auth, env).0 && key_shown(
            auth,
            env,
        ).1.len() == 0,
{
}

/// A provider is shown as it is configured, with its usual address and model
/// where none is set.
pub proof fn providers_are_shown_as_configured(
    info: ProviderInfo,
    id: Seq<char>,
    config: ProviderConfig,
    active: Seq<char>,
    env: Seq<EnvKey>,
)
    requires
        shows(info, id, config, active, env),
    ensures
        info.id@ == id,
        info.name@ == name_shown(id),
        info.provider_type@ == type_shown(id),
        config.endpoint matches Some(e) ==> info.base_url@ == e@,
        config.endpoint is None ==> info.base_url@ == base_url_default(id),
        config.default_model@.len() > 0 ==> info.model@ == config.default_model@,
        config.default_model@.len() == 0 ==> info.model@ == model_default(id),
        (info.has_api_key, info.api_key_hint@) == key_shown(config.auth, env_key_of(env, id, 0)),
        info.is_active <==> id == active,
        info.supports_vision == config.supports_vision,
        info.supports_documents == config.supports_documents,
        info.family@ == config.family@,
        info.context_window_tokens == config.context_window_tokens,
        info.compaction_trigger_pct == config.compaction_trigger_pct,
        info.compaction_target_pct == config.compaction_target_pct,
        info.temperature == config.temperature,
        pair_views(info.tier_models@) == tier_rows(config.tier_models),
{
}

} // verus!
