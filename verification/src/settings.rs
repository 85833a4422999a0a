//! The settings page: everything that is shown on it, and the general and
//! web search settings.

use vstd::prelude::*;
use vstd::string::*;
use vstd::seq_lib::group_to_multiset_ensures;
use crate::channel_settings::{EmailConfig, TelegramConfig};
use crate::credentials::{
    SecretPlan, VaultAction, VaultState, is_secret_action, plan_secret, secret_on_disk,
};
use crate::embeddings::{
    EmbeddingConfig, embedding_mode_name, filled, mode_name, non_empty, text_or_empty,
};
use crate::models::{Bundle, BundleTier, ModelsConfig, ProviderEntry, copy_opt, copy_tier};
use crate::notifications::{
    NotificationConfig, NotificationSettingsInfo, get_notification_settings, shows_notifications,
};
use crate::provider_settings::{ProviderInfo, mask_api_key, masked, provider_config_to_info, shows};
use crate::routing::{EnvKey, SecurityMode};
use crate::text::{
    join, joined, lemma_less_irreflexive, lemma_less_trans, less, lower_text, lowercase, lowered,
    owned, str_eq, str_less, trim, trim_spec,
};
use crate::time::{shown_instant, to_rfc3339};

verus! {

// ---------------------------------------------------------------------------
// Web search
// ---------------------------------------------------------------------------

/// The web search part of the configuration.
#[derive(Clone, Debug, PartialEq, Eq)]
pub struct WebSearchConfig {
    pub brave_api_key: String,
    pub tavily_api_key: String,
}

/// Web search settings, as they are shown; no key is shown in full.
#[derive(Debug, Clone)]
pub struct WebSearchSettingsInfo {
    pub brave_configured: bool,
    pub brave_hint: String,
    pub tavily_configured: bool,
    pub tavily_hint: String,
}

/// Saves one web search key: an absent one is kept, and moved to a vault that
/// holds none; an empty one is cleared. The result is what to do to the vault
/// first.
pub fn migrate_websearch_key(incoming: Option<String>, vault: &VaultState, on_disk: &mut String)
    -> (r: VaultAction)
    ensures
        final(on_disk)@ == secret_on_disk(incoming.deep_view(), *vault, old(on_disk)@, true),
        is_secret_action(r, incoming.deep_view(), *vault, old(on_disk)@, true),
{
    let plan = plan_secret(incoming, vault, on_disk.as_str(), true);
    let SecretPlan { on_disk: text, action } = plan;
    *on_disk = text;
    action
}

/// Saves the web search keys. The results are what to do to the vault first.
pub fn save_web_search_settings(
    config: &mut WebSearchConfig,
    brave_api_key: Option<String>,
    tavily_api_key: Option<String>,
    brave_vault: &VaultState,
    tavily_vault: &VaultState,
) -> (r: (VaultAction, VaultAction))
    ensures
        final(config).brave_api_key@ == secret_on_disk(
            brave_api_key.deep_view(),
            *brave_vault,
            old(config).brave_api_key@,
            true,
        ),
        final(config).tavily_api_key@ == secret_on_disk(
            tavily_api_key.deep_view(),
            *tavily_vault,
            old(config).tavily_api_key@,
            true,
        ),
        is_secret_action(
            r.0,
            brave_api_key.deep_view(),
            *brave_vault,
            old(config).brave_api_key@,
            true,
        ),
        is_secret_action(
            r.1,
            tavily_api_key.deep_view(),
            *tavily_vault,
            old(config).tavily_api_key@,
            true,
        ),
{
    let brave = migrate_websearch_key(brave_api_key, brave_vault, &mut config.brave_api_key);
    let tavily = migrate_websearch_key(tavily_api_key, tavily_vault, &mut config.tavily_api_key);
    (brave, tavily)
}

/// One search service to try.
#[derive(Clone, Debug, PartialEq, Eq)]
pub enum SearchSlot {
    /// With this key; it rests after it has been used up.
    Brave(String),
    Tavily(String),
    /// Needs no key and never rests.
    DuckDuckGo,
}

/// The model of a search service.
pub enum SlotModel {
    Brave(Seq<char>),
    Tavily(Seq<char>),
    DuckDuckGo,
}

impl View for SearchSlot {
    type V = SlotModel;

    open spec fn view(&self) -> SlotModel {
        match self {
            SearchSlot::Brave(k) => SlotModel::Brave(k@),
            SearchSlot::Tavily(k) => SlotModel::Tavily(k@),
            SearchSlot::DuckDuckGo => SlotModel::DuckDuckGo,
        }
    }
}

/// The search services in the order in which they are tried: those with a
/// key, then the one that needs none.
pub open spec fn search_chain(brave: Seq<char>, tavily: Seq<char>) -> Seq<SlotModel> {
    let b = trim_spec(brave);
    let t = trim_spec(tavily);
    (if b.len() > 0 {
        seq![SlotModel::Brave(b)]
    } else {
        Seq::empty()
    }) + (if t.len() > 0 {
        seq![SlotModel::Tavily(t)]
    } else {
        Seq::empty()
    }) + seq![SlotModel::DuckDuckGo]
}

/// The search services in the order in which they are tried.
pub fn build_web_search_provider(config: &WebSearchConfig) -> (r: Vec<SearchSlot>)
    ensures
        r@.map_values(|s: SearchSlot| s@) == search_chain(
            config.brave_api_key@,
            config.tavily_api_key@,
        ),
{
    let mut v: Vec<SearchSlot> = Vec::new();
    let brave = trim(config.brave_api_key.as_str());
    if !brave.as_str().is_empty() {
        v.push(SearchSlot::Brave(brave));
    }
    let tavily = trim(config.tavily_api_key.as_str());
    if !tavily.as_str().is_empty() {
        v.push(SearchSlot::Tavily(tavily));
    }
    v.push(SearchSlot::DuckDuckGo);
    proof {
        assert(v@.map_values(|s: SearchSlot| s@) =~= search_chain(
            config.brave_api_key@,
            config.tavily_api_key@,
        ));
    }
    v
}

/// There is always a service left to try: the last one needs no key.
pub proof fn search_never_runs_dry(brave: Seq<char>, tavily: Seq<char>)
    ensures
        search_chain(brave, tavily).last() == SlotModel::DuckDuckGo,
{
}

// ---------------------------------------------------------------------------
// General settings
// ---------------------------------------------------------------------------

/// The security mode that a value in lower case names; anything else is the
/// assistant mode.
pub open spec fn mode_of_lower(low: Seq<char>) -> SecurityMode {
    if low == "bunker"@ {
        SecurityMode::Bunker
    } else if low == "yolo"@ {
        SecurityMode::Yolo
    } else {
        SecurityMode::Assistant
    }
}

/// The security mode that a value in lower case names.
pub fn parse_security_mode_lower(low: &str) -> (r: SecurityMode)
    ensures
        r == mode_of_lower(low@),
{
    if str_eq(low, "bunker") {
        SecurityMode::Bunker
    } else if str_eq(low, "yolo") {
        SecurityMode::Yolo
    } else {
        SecurityMode::Assistant
    }
}

/// The security mode to save.
pub fn save_settings(security_mode: &str) -> (r: SecurityMode)
    ensures
        r == mode_of_lower(lower_text(security_mode@)),
{
    let low = lowercase(security_mode);
    parse_security_mode_lower(low.as_str())
}

/// The name of a security mode.
pub open spec fn security_mode_name(m: SecurityMode) -> Seq<char> {
    match m {
        SecurityMode::Bunker => "bunker"@,
        SecurityMode::Assistant => "assistant"@,
        SecurityMode::Yolo => "yolo"@,
    }
}

fn security_label(m: SecurityMode) -> (r: &'static str)
    ensures
        r@ == security_mode_name(m),
{
    match m {
        SecurityMode::Bunker => "bunker",
        SecurityMode::Assistant => "assistant",
        SecurityMode::Yolo => "yolo",
    }
}

/// The security mode that is shown saves unchanged.
pub proof fn shown_security_mode_saves_unchanged(m: SecurityMode)
    ensures
        mode_of_lower(lower_text(security_mode_name(m))) == m,
{
    reveal_strlit("bunker");
    reveal_strlit("assistant");
    reveal_strlit("yolo");
    assert(lowered("bunker"@) =~= "bunker"@);
    assert(lowered("assistant"@) =~= "assistant"@);
    assert(lowered("yolo"@) =~= "yolo"@);
    assert("bunker"@[0] == 'b' && "assistant"@[0] == 'a' && "yolo"@[0] == 'y');
}

// ---------------------------------------------------------------------------
// What is shown
// ---------------------------------------------------------------------------

/// Email settings, as they are shown.
#[derive(Debug, Clone)]
pub struct EmailSettingsInfo {
    pub enabled: bool,
    pub imap_server: String,
    pub imap_port: u16,
    pub username: String,
    pub has_password: bool,
    pub use_tls: bool,
    pub folders: String,
    pub poll_interval_secs: u64,
    pub lookback_hours: u32,
    pub smtp_server: String,
    pub smtp_port: u16,
    pub smtp_username: String,
    pub has_smtp_password: bool,
    pub smtp_use_tls: bool,
    pub from_address: String,
}

/// Telegram settings, as they are shown.
#[derive(Debug, Clone)]
pub struct TelegramSettingsInfo {
    pub enabled: bool,
    pub has_bot_token: bool,
    pub bot_token_hint: String,
    pub bot_token: String,
    pub allowed_chat_ids: Vec<i64>,
    pub poll_interval_secs: u64,
}

/// Embedding settings, as they are shown.
#[derive(Debug, Clone)]
pub struct EmbeddingSettingsInfo {
    pub mode: String,
    pub provider: Option<String>,
    pub model: Option<String>,
    pub base_url: Option<String>,
    pub has_api_key: bool,
    pub api_key_hint: Option<String>,
}

/// A bundle, as it is shown; its local tier is not.
#[derive(Debug, Clone)]
pub struct BundleView {
    pub id: String,
    pub name: String,
    pub is_active: bool,
    pub cheap: Option<BundleTier>,
    pub fast: Option<BundleTier>,
    pub code: Option<BundleTier>,
    pub powerful: Option<BundleTier>,
    pub created_at: String,
    pub updated_at: String,
}

/// The settings page.
#[derive(Debug, Clone)]
pub struct SettingsResponse {
    pub providers: Vec<ProviderInfo>,
    pub active_provider: String,
    /// Empty where no bundle is active.
    pub active_bundle_id: String,
    pub bundles: Vec<BundleView>,
    pub security_mode: String,
    pub email: EmailSettingsInfo,
    pub telegram: TelegramSettingsInfo,
    pub notifications: NotificationSettingsInfo,
    pub embeddings: EmbeddingSettingsInfo,
    pub web_search: WebSearchSettingsInfo,
}

/// The configuration that the settings page shows, beside the models.
#[derive(Debug, Clone)]
pub struct MainConfig {
    pub security_mode: SecurityMode,
    pub email: EmailConfig,
    pub telegram: TelegramConfig,
    pub notifications: NotificationConfig,
    pub embeddings: EmbeddingConfig,
    pub web_search: WebSearchConfig,
}

/// A hint of a key: nothing for an empty one, else what is shown of it.
pub open spec fn key_hint(key: Seq<char>) -> Seq<char> {
    if key.len() == 0 {
        Seq::empty()
    } else {
        masked(key)
    }
}

fn hint_of(key: &str) -> (r: String)
    ensures
        r@ == key_hint(key@),
{
    if key.is_empty() {
        String::new()
    } else {
        mask_api_key(key)
    }
}

/// `i` shows the email settings.
pub open spec fn shows_email(i: EmailSettingsInfo, c: EmailConfig) -> bool {
    &&& i.enabled == c.enabled
    &&& i.imap_server == c.imap_server
    &&& i.imap_port == c.imap_port
    &&& i.username == c.username
    &&& i.has_password == (c.password@.len() > 0)
    &&& i.use_tls == c.use_tls
    &&& i.folders@ == joined(c.folders.deep_view(), ", "@)
    &&& i.poll_interval_secs == c.poll_interval_secs
    &&& i.lookback_hours == c.lookback_hours
    &&& i.smtp_server == c.smtp_server
    &&& i.smtp_port == c.smtp_port
    &&& i.smtp_username == c.smtp_username
    &&& i.has_smtp_password == (c.smtp_password@.len() > 0)
    &&& i.smtp_use_tls == c.smtp_use_tls
    &&& i.from_address == c.from_address
}

/// `i` shows the Telegram settings.
pub open spec fn shows_telegram(i: TelegramSettingsInfo, c: TelegramConfig) -> bool {
    &&& i.enabled == c.enabled
    &&& i.has_bot_token == (c.bot_token@.len() > 0)
    &&& i.bot_token_hint@ == key_hint(c.bot_token@)
    &&& i.bot_token == c.bot_token
    &&& i.allowed_chat_ids@ == c.allowed_chat_ids@
    &&& i.poll_interval_secs == c.poll_interval_secs
}

/// `i` shows the embedding settings.
pub open spec fn shows_embeddings(i: EmbeddingSettingsInfo, c: EmbeddingConfig) -> bool {
    let key = non_empty(c.api_key.deep_view());
    &&& i.mode@ == mode_name(c.mode)
    &&& i.provider == c.provider
    &&& i.model == c.model
    &&& i.base_url == c.base_url
    &&& i.has_api_key == key is Some
    &&& i.api_key_hint.deep_view() == match key {
        Some(k) => Some(masked(k)),
        None => None,
    }
}

/// `i` shows the web search settings.
pub open spec fn shows_web_search(i: WebSearchSettingsInfo, c: WebSearchConfig) -> bool {
    &&& i.brave_configured == (c.brave_api_key@.len() > 0)
    &&& i.brave_hint@ == key_hint(c.brave_api_key@)
    &&& i.tavily_configured == (c.tavily_api_key@.len() > 0)
    &&& i.tavily_hint@ == key_hint(c.tavily_api_key@)
}

/// `v` shows the bundle.
pub open spec fn shows_bundle(v: BundleView, b: Bundle, active: Seq<char>) -> bool {
    &&& v.id == b.id
    &&& v.name == b.name
    &&& v.is_active == (b.id@ == active)
    &&& v.cheap == b.tiers.judges
    &&& v.fast == b.tiers.fast
    &&& v.code == b.tiers.code
    &&& v.powerful == b.tiers.powerful
    &&& v.created_at@ == shown_instant(b.created_at)
    &&& v.updated_at@ == shown_instant(b.updated_at)
}

fn email_info(c: &EmailConfig) -> (r: EmailSettingsInfo)
    ensures
        shows_email(r, *c),
{
    EmailSettingsInfo {
        enabled: c.enabled,
        imap_server: c.imap_server.clone(),
        imap_port: c.imap_port,
        username: c.username.clone(),
        has_password: !c.password.as_str().is_empty(),
        use_tls: c.use_tls,
        folders: join(&c.folders, ", "),
        poll_interval_secs: c.poll_interval_secs,
        lookback_hours: c.lookback_hours,
        smtp_server: c.smtp_server.clone(),
        smtp_port: c.smtp_port,
        smtp_username: c.smtp_username.clone(),
        has_smtp_password: !c.smtp_password.as_str().is_empty(),
        smtp_use_tls: c.smtp_use_tls,
        from_address: c.from_address.clone(),
    }
}

fn copy_ids(v: &Vec<i64>) -> (r: Vec<i64>)
    ensures
        r@ == v@,
{
    let mut out: Vec<i64> = Vec::new();
    let mut i: usize = 0;
    while i < v.len()
        invariant
            i <= v@.len(),
            out@ == v@.take(i as int),
        decreases v@.len() - i,
    {
        out.push(v[i]);
        proof {
            assert(v@.take(i + 1) =~= v@.take(i as int).push(v@[i as int]));
        }
        i += 1;
    }
    proof {
        assert(v@.take(i as int) =~= v@);
    }
    out
}

fn telegram_info(c: &TelegramConfig) -> (r: TelegramSettingsInfo)
    ensures
        shows_telegram(r, *c),
{
    TelegramSettingsInfo {
        enabled: c.enabled,
        has_bot_token: !c.bot_token.as_str().is_empty(),
        bot_token_hint: hint_of(c.bot_token.as_str()),
        bot_token: c.bot_token.clone(),
        allowed_chat_ids: copy_ids(&c.allowed_chat_ids),
        poll_interval_secs: c.poll_interval_secs,
    }
}

fn embedding_info(c: &EmbeddingConfig) -> (r: EmbeddingSettingsInfo)
    ensures
        shows_embeddings(r, *c),
{
    let hint = match filled(&c.api_key) {
        Some(k) => Some(mask_api_key(k.as_str())),
        None => None,
    };
    EmbeddingSettingsInfo {
        mode: embedding_mode_name(&c.mode),
        provider: copy_opt(&c.provider),
        model: copy_opt(&c.model),
        base_url: copy_opt(&c.base_url),
        has_api_key: hint.is_some(),
        api_key_hint: hint,
    }
}

fn web_search_info(c: &WebSearchConfig) -> (r: WebSearchSettingsInfo)
    ensures
        shows_web_search(r, *c),
{
    WebSearchSettingsInfo {
        brave_configured: !c.brave_api_key.as_str().is_empty(),
        brave_hint: hint_of(c.brave_api_key.as_str()),
        tavily_configured: !c.tavily_api_key.as_str().is_empty(),
        tavily_hint: hint_of(c.tavily_api_key.as_str()),
    }
}

fn bundle_info(b: &Bundle, active: &str) -> (r: BundleView)
    ensures
        shows_bundle(r, *b, active@),
{
    BundleView {
        id: b.id.clone(),
        name: b.name.clone(),
        is_active: str_eq(b.id.as_str(), active),
        cheap: copy_tier(&b.tiers.judges),
        fast: copy_tier(&b.tiers.fast),
        code: copy_tier(&b.tiers.code),
        powerful: copy_tier(&b.tiers.powerful),
        created_at: to_rfc3339(b.created_at),
        updated_at: to_rfc3339(b.updated_at),
    }
}

// ---------------------------------------------------------------------------
// Order
// ---------------------------------------------------------------------------

/// The order of providers: the active one first, then by id.
pub open spec fn provider_before(a: ProviderInfo, b: ProviderInfo) -> bool {
    if a.is_active != b.is_active {
        a.is_active
    } else {
        less(a.id@, b.id@)
    }
}

/// Nothing stands behind what it comes before.
pub open spec fn providers_in_order(v: Seq<ProviderInfo>) -> bool {
    forall|i: int, j: int|
        0 <= i < j < v.len() ==> !provider_before(#[trigger] v[j], #[trigger] v[i])
}

/// The order of bundles: by name.
pub open spec fn bundle_before(a: BundleView, b: BundleView) -> bool {
    less(a.name@, b.name@)
}

/// Nothing stands behind what it comes before.
pub open spec fn bundles_in_order(v: Seq<BundleView>) -> bool {
    forall|i: int, j: int|
        0 <= i < j < v.len() ==> !bundle_before(#[trigger] v[j], #[trigger] v[i])
}

fn provider_goes_first(a: &ProviderInfo, b: &ProviderInfo) -> (r: bool)
    ensures
        r == provider_before(*a, *b),
{
    if a.is_active != b.is_active {
        a.is_active
    } else {
        str_less(a.id.as_str(), b.id.as_str())
    }
}

fn insert_provider(v: &mut Vec<ProviderInfo>, x: ProviderInfo)
    requires
        providers_in_order(old(v)@),
    ensures
        providers_in_order(final(v)@),
        final(v)@.to_multiset() == old(v)@.to_multiset().insert(x),
        final(v)@.len() == old(v)@.len() + 1,
{
    let mut p: usize = 0;
    let ghost before = v@;
    while p < v.len() && !provider_goes_first(&x, &v[p])
        invariant
            v@ == before,
            p <= before.len(),
            forall|i: int| 0 <= i < p ==> !provider_before(x, #[trigger] before[i]),
        decreases before.len() - p,
    {
        p += 1;
    }
    v.insert(p, x);
    proof {
        broadcast use group_to_multiset_ensures;

        let after = v@;
        assert(after =~= before.insert(p as int, x));
        before.to_multiset_ensures();
        assert forall|i: int, j: int| 0 <= i < j < after.len() implies !provider_before(
            #[trigger] after[j],
            #[trigger] after[i],
        ) by {
            let i0 = if i < p { i } else { i - 1 };
            let j0 = if j < p { j } else { j - 1 };
            if i == p {
                assert(after[j] == before[j0]);
                if provider_before(before[j0], x) {
                    assert(provider_before(x, before[p as int]));
                    lemma_provider_order(before[j0], x, before[p as int]);
                    if j0 != p {
                        assert(!provider_before(before[j0], before[p as int]));
                    } else {
                        lemma_provider_irreflexive(before[j0]);
                    }
                }
            } else if j == p {
                assert(after[i] == before[i0]);
            } else {
                assert(after[i] == before[i0]);
                assert(after[j] == before[j0]);
            }
        }
    }
}

proof fn lemma_provider_order(a: ProviderInfo, b: ProviderInfo, c: ProviderInfo)
    requires
        provider_before(a, b),
        provider_before(b, c),
    ensures
        provider_before(a, c),
{
    if a.is_active == b.is_active && b.is_active == c.is_active {
        lemma_less_trans(a.id@, b.id@, c.id@, 0);
    }
}

proof fn lemma_provider_irreflexive(a: ProviderInfo)
    ensures
        !provider_before(a, a),
{
    lemma_less_irreflexive(a.id@, 0);
}

fn insert_bundle(v: &mut Vec<BundleView>, x: BundleView)
    requires
        bundles_in_order(old(v)@),
    ensures
        bundles_in_order(final(v)@),
        final(v)@.to_multiset() == old(v)@.to_multiset().insert(x),
        final(v)@.len() == old(v)@.len() + 1,
{
    let mut p: usize = 0;
    let ghost before = v@;
    while p < v.len() && !str_less(x.name.as_str(), v[p].name.as_str())
        invariant
            v@ == before,
            p <= before.len(),
            forall|i: int| 0 <= i < p ==> !bundle_before(x, #[trigger] before[i]),
        decreases before.len() - p,
    {
        p += 1;
    }
    v.insert(p, x);
    proof {
        broadcast use group_to_multiset_ensures;

        let after = v@;
        assert(after =~= before.insert(p as int, x));
        before.to_multiset_ensures();
        assert forall|i: int, j: int| 0 <= i < j < after.len() implies !bundle_before(
            #[trigger] after[j],
            #[trigger] after[i],
        ) by {
            let i0 = if i < p { i } else { i - 1 };
            let j0 = if j < p { j } else { j - 1 };
            if i == p {
                assert(after[j] == before[j0]);
                if bundle_before(before[j0], x) {
                    assert(bundle_before(x, before[p as int]));
                    lemma_less_trans(before[j0].name@, x.name@, before[p as int].name@, 0);
                    if j0 != p {
                        assert(!bundle_before(before[j0], before[p as int]));
                    } else {
                        lemma_less_irreflexive(before[j0].name@, 0);
                    }
                }
            } else if j == p {
                assert(after[i] == before[i0]);
            } else {
                assert(after[i] == before[i0]);
                assert(after[j] == before[j0]);
            }
        }
    }
}

/// `v` shows each of the connections, in some order.
pub open spec fn lists_providers(
    v: Seq<ProviderInfo>,
    providers: Seq<ProviderEntry>,
    active: Seq<char>,
    env: Seq<EnvKey>,
) -> bool {
    exists|infos: Seq<ProviderInfo>|
        {
            &&& infos.len() == providers.len()
            &&& #[trigger] infos.to_multiset() == v.to_multiset()
            &&& forall|i: int|
                0 <= i < infos.len() ==> shows(
                    #[trigger] infos[i],
                    providers[i].id@,
                    providers[i].config,
                    active,
                    env,
                )
        }
}

/// `v` shows each of the bundles, in some order.
pub open spec fn lists_bundles(v: Seq<BundleView>, bundles: Seq<Bundle>, active: Seq<char>)
    -> bool {
    exists|views: Seq<BundleView>|
        {
            &&& views.len() == bundles.len()
            &&& #[trigger] views.to_multiset() == v.to_multiset()
            &&& forall|i: int|
                0 <= i < views.len() ==> shows_bundle(#[trigger] views[i], bundles[i], active)
        }
}

fn provider_infos(providers: &Vec<ProviderEntry>, active: &str, env: &Vec<EnvKey>) -> (r: Vec<
    ProviderInfo,
>)
    ensures
        providers_in_order(r@),
        lists_providers(r@, providers@, active@, env@),
{
    let mut out: Vec<ProviderInfo> = Vec::new();
    let mut i: usize = 0;
    let ghost mut infos: Seq<ProviderInfo> = Seq::empty();
    while i < providers.len()
        invariant
            i <= providers@.len(),
            infos.len() == i,
            providers_in_order(out@),
            infos.to_multiset() == out@.to_multiset(),
            forall|j: int|
                0 <= j < i ==> shows(
                    #[trigger] infos[j],
                    providers@[j].id@,
                    providers@[j].config,
                    active@,
                    env@,
                ),
        decreases providers@.len() - i,
    {
        let info = provider_config_to_info(
            providers[i].id.as_str(),
            &providers[i].config,
            active,
            env,
        );
        proof {
            broadcast use group_to_multiset_ensures;

            infos.to_multiset_ensures();
            infos = infos.push(info);
        }
        insert_provider(&mut out, info);
        i += 1;
    }
    proof {
        assert(infos.to_multiset() == out@.to_multiset());
    }
    out
}

fn bundle_infos(bundles: &Vec<Bundle>, active: &str) -> (r: Vec<BundleView>)
    ensures
        bundles_in_order(r@),
        lists_bundles(r@, bundles@, active@),
{
    let mut out: Vec<BundleView> = Vec::new();
    let mut i: usize = 0;
    let ghost mut views: Seq<BundleView> = Seq::empty();
    while i < bundles.len()
        invariant
            i <= bundles@.len(),
            views.len() == i,
            bundles_in_order(out@),
            views.to_multiset() == out@.to_multiset(),
            forall|j: int| 0 <= j < i ==> shows_bundle(#[trigger] views[j], bundles@[j], active@),
        decreases bundles@.len() - i,
    {
        let info = bundle_info(&bundles[i], active);
        proof {
            broadcast use group_to_multiset_ensures;

            views.to_multiset_ensures();
            views = views.push(info);
        }
        insert_bundle(&mut out, info);
        i += 1;
    }
    proof {
        assert(views.to_multiset() == out@.to_multiset());
    }
    out
}

/// Everything that the settings page shows. Providers come with the active
/// one first, then by id; bundles by name.
pub fn get_settings(
    models: &ModelsConfig,
    config: &MainConfig,
    active_provider: &str,
    env: &Vec<EnvKey>,
) -> (r: SettingsResponse)
    ensures
        providers_in_order(r.providers@),
        lists_providers(r.providers@, models.providers@, active_provider@, env@),
        r.active_provider@ == active_provider@,
        r.active_bundle_id@ == text_or_empty(models.active_bundle.deep_view()),
        bundles_in_order(r.bundles@),
        lists_bundles(
            r.bundles@,
            models.bundles@,
            text_or_empty(models.active_bundle.deep_view()),
        ),
        r.security_mode@ == security_mode_name(config.security_mode),
        shows_email(r.email, config.email),
        shows_telegram(r.telegram, config.telegram),
        shows_notifications(r.notifications, config.notifications),
        shows_embeddings(r.embeddings, config.embeddings),
        shows_web_search(r.web_search, config.web_search),
{
    let active_bundle_id = match &models.active_bundle {
        Some(id) => id.clone(),
        None => String::new(),
    };
    let bundles = bundle_infos(&models.bundles, active_bundle_id.as_str());
    SettingsResponse {
        providers: provider_infos(&models.providers, active_provider, env),
        active_provider: owned(active_provider),
        active_bundle_id,
        bundles,
        security_mode: owned(security_label(config.security_mode)),
        email: email_info(&config.email),
        telegram: telegram_info(&config.telegram),
        notifications: get_notification_settings(&config.notifications),
        embeddings: embedding_info(&config.embeddings),
        web_search: web_search_info(&config.web_search),
    }
}

/// The active provider, if it is configured, comes first.
pub proof fn active_provider_comes_first(v: Seq<ProviderInfo>, i: int)
    requires
        providers_in_order(v),
        0 <= i < v.len(),
        v[i].is_active,
    ensures
        v[0].is_active,
{
    if i > 0 && !v[0].is_active {
        assert(!provider_before(v[i], v[0]));
    }
}

// ---------------------------------------------------------------------------
// What the settings page promises
// ---------------------------------------------------------------------------

/// A search goes to Brave first, then to Tavily, each wherever it has a key,
/// which is used without white space around it, and to DuckDuckGo last.
pub proof fn searches_prefer_configured_backends(brave: Seq<char>, tavily: Seq<char>)
    ensures
        ({
            let b = trim_spec(brave);
            let t = trim_spec(tavily);
            let r = search_chain(brave, tavily);
            &&& b.len() > 0 && t.len() > 0 ==> r == seq![
                SlotModel::Brave(b),
                SlotModel::Tavily(t),
                SlotModel::DuckDuckGo,
            ]
            &&& b.len() > 0 && t.len() == 0 ==> r == seq![
                SlotModel::Brave(b),
                SlotModel::DuckDuckGo,
            ]
            &&& b.len() == 0 && t.len() > 0 ==> r == seq![
                SlotModel::Tavily(t),
                SlotModel::DuckDuckGo,
            ]
            &&& b.len() == 0 && t.len() == 0 ==> r == seq![SlotModel::DuckDuckGo]
        }),
{
    let b = trim_spec(brave);
    let t = trim_spec(tavily);
    let r = search_chain(brave, tavily);
    if b.len() > 0 && t.len() > 0 {
        assert(r =~= seq![SlotModel::Brave(b), SlotModel::Tavily(t), SlotModel::DuckDuckGo]);
    } else if b.len() > 0 {
        assert(r =~= seq![SlotModel::Brave(b), SlotModel::DuckDuckGo]);
    } else if t.len() > 0 {
        assert(r =~= seq![SlotModel::Tavily(t), SlotModel::DuckDuckGo]);
    } else {
        assert(r =~= seq![SlotModel::DuckDuckGo]);
    }
}

/// Only the words for them choose the strictest and the freest mode; anything
/// else is the mode in between.
pub proof fn unknown_modes_are_the_middle_one(low: Seq<char>)
    ensures
        mode_of_lower(low) == SecurityMode::Bunker <==> low == "bunker"@,
        mode_of_lower(low) == SecurityMode::Yolo <==> low == "yolo"@,
        mode_of_lower(low) == SecurityMode::Assistant <==> low != "bunker"@ && low != "yolo"@,
        security_mode_name(SecurityMode::Bunker) == "bunker"@,
        security_mode_name(SecurityMode::Assistant) == "assistant"@,
        security_mode_name(SecurityMode::Yolo) == "yolo"@,
{
    reveal_strlit("bunker");
    reveal_strlit("yolo");
    assert("bunker"@.len() == 6 && "yolo"@.len() == 4);
}

/// The email settings are shown as they are, except for the passwords, of
/// which only their presence is.
pub proof fn email_is_shown_without_passwords(i: EmailSettingsInfo, c: EmailConfig)
    requires
        shows_email(i, c),
    ensures
        i.enabled == c.enabled,
        i.imap_server == c.imap_server,
        i.imap_port == c.imap_port,
        i.username == c.username,
        i.has_password <==> c.password@.len() > 0,
        i.use_tls == c.use_tls,
        i.folders@ == joined(c.folders.deep_view(), ", "@),
        i.poll_interval_secs == c.poll_interval_secs,
        i.lookback_hours == c.lookback_hours,
        i.smtp_server == c.smtp_server,
        i.smtp_port == c.smtp_port,
        i.smtp_username == c.smtp_username,
        i.has_smtp_password <==> c.smtp_password@.len() > 0,
        i.smtp_use_tls == c.smtp_use_tls,
        i.from_address == c.from_address,
{
}

/// What is shown of Telegram, of the embeddings and of the search keys is what
/// is configured; keys are masked.
pub proof fn channels_and_keys_are_shown(
    t: TelegramSettingsInfo,
    tc: TelegramConfig,
    e: EmbeddingSettingsInfo,
    ec: EmbeddingConfig,
    w: WebSearchSettingsInfo,
    wc: WebSearchConfig,
)
    requires
        shows_telegram(t, tc),
        shows_embeddings(e, ec),
        shows_web_search(w, wc),
    ensures
        t.enabled == tc.enabled,
        t.has_bot_token <==> tc.bot_token@.len() > 0,
        tc.bot_token@.len() > 0 ==> t.bot_token_hint@ == masked(tc.bot_token@),
        tc.bot_token@.len() == 0 ==> t.bot_token_hint@.len() == 0,
        t.bot_token == tc.bot_token,
        t.allowed_chat_ids@ == tc.allowed_chat_ids@,
        t.poll_interval_secs == tc.poll_interval_secs,
        e.mode@ == mode_name(ec.mode),
        e.provider == ec.provider,
        e.model == ec.model,
        e.base_url == ec.base_url,
        e.has_api_key <==> (ec.api_key matches Some(k) && k@.len() > 0),
        e.has_api_key ==> e.api_key_hint.deep_view() == Some(masked(ec.api_key->0@)),
        !e.has_api_key ==> e.api_key_hint is None,
        w.brave_configured <==> wc.brave_api_key@.len() > 0,
        w.brave_configured ==> w.brave_hint@ == masked(wc.brave_api_key@),
        !w.brave_configured ==> w.brave_hint@.len() == 0,
        w.tavily_configured <==> wc.tavily_api_key@.len() > 0,
        w.tavily_configured ==> w.tavily_hint@ == masked(wc.tavily_api_key@),
        !w.tavily_configured ==> w.tavily_hint@.len() == 0,
{
}

/// A bundle is shown with its tiers, and as active exactly where its id is the
/// active one.
pub proof fn bundles_are_shown(v: BundleView, b: Bundle, active: Seq<char>)
    requires
        shows_bundle(v, b, active),
    ensures
        v.id == b.id,
        v.name == b.name,
        v.is_active <==> b.id@ == active,
        v.cheap == b.tiers.judges,
        v.fast == b.tiers.fast,
        v.code == b.tiers.code,
        v.powerful == b.tiers.powerful,
        v.created_at@ == shown_instant(b.created_at),
        v.updated_at@ == shown_instant(b.updated_at),
{
}

/// Listed providers are sorted: the active one first, the others by id.
pub proof fn providers_are_sorted_by_id(v: Seq<ProviderInfo>, i: int, j: int)
    requires
        providers_in_order(v),
        0 <= i < j < v.len(),
    ensures
        v[j].is_active ==> v[i].is_active,
        v[i].is_active == v[j].is_active ==> !less(v[j].id@, v[i].id@),
{
    assert(!provider_before(v[j], v[i]));
}

/// Listed bundles are sorted by name.
pub proof fn bundles_are_sorted_by_name(v: Seq<BundleView>, i: int, j: int)
    requires
        bundles_in_order(v),
        0 <= i < j < v.len(),
    ensures
        !less(v[j].name@, v[i].name@),
{
    assert(!bundle_before(v[j], v[i]));
}

/// Every configured provider is listed, and no other.
pub proof fn every_provider_is_listed(
    v: Seq<ProviderInfo>,
    providers: Seq<ProviderEntry>,
    active: Seq<char>,
    env: Seq<EnvKey>,
    i: int,
)
    requires
        lists_providers(v, providers, active, env),
        0 <= i < providers.len(),
    ensures
        v.len() == providers.len(),
        exists|k: int|
            0 <= k < v.len() && shows(
                #[trigger] v[k],
                providers[i].id@,
                providers[i].config,
                active,
                env,
            ),
{
    let infos = choose|infos: Seq<ProviderInfo>|
        {
            &&& infos.len() == providers.len()
            &&& #[trigger] infos.to_multiset() == v.to_multiset()
            &&& forall|i: int|
                0 <= i < infos.len() ==> shows(
                    #[trigger] infos[i],
                    providers[i].id@,
                    providers[i].config,
                    active,
                    env,
                )
        };
    infos.to_multiset_ensures();
    v.to_multiset_ensures();
    assert(infos.contains(infos[i]));
    assert(infos.to_multiset().contains(infos[i]));
    assert(v.contains(infos[i]));
    let k = choose|k: int| 0 <= k < v.len() && v[k] == infos[i];
    assert(shows(v[k], providers[i].id@, providers[i].config, active, env));
}

/// Every bundle is listed, and no other.
pub proof fn every_bundle_is_listed(
    v: Seq<BundleView>,
    bundles: Seq<Bundle>,
    active: Seq<char>,
    i: int,
)
    requires
        lists_bundles(v, bundles, active),
        0 <= i < bundles.len(),
    ensures
        v.len() == bundles.len(),
        exists|k: int| 0 <= k < v.len() && shows_bundle(#[trigger] v[k], bundles[i], active),
{
    let views = choose|views: Seq<BundleView>|
        {
            &&& views.len() == bundles.len()
            &&& #[trigger] views.to_multiset() == v.to_multiset()
            &&& forall|i: int|
                0 <= i < views.len() ==> shows_bundle(#[trigger] views[i], bundles[i], active)
        };
    views.to_multiset_ensures();
    v.to_multiset_ensures();
    assert(views.contains(views[i]));
    assert(views.to_multiset().contains(views[i]));
    assert(v.contains(views[i]));
    let k = choose|k: int| 0 <= k < v.len() && v[k] == views[i];
    assert(shows_bundle(v[k], bundles[i], active));
}

} // verus!
