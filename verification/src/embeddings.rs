//! Embedding settings, and which embedding providers are tried in which order.

use vstd::prelude::*;
use vstd::string::*;
use crate::credentials::{SecretPlan, VaultAction, VaultState, is_secret_action, plan_secret};
use crate::text::{cat2, owned, str_eq};

verus! {

/// How texts are embedded.
#[derive(Clone, Debug, PartialEq, Eq)]
pub enum EmbeddingMode {
    /// Keyword search only.
    Off,
    Automatic,
    Cloud,
    LocalOnly,
    Specific,
    /// The model of this tier that comes with the app.
    Bundled(String),
}

/// The embedding part of the configuration.
#[derive(Clone, Debug, PartialEq, Eq)]
pub struct EmbeddingConfig {
    pub mode: EmbeddingMode,
    pub provider: Option<String>,
    pub model: Option<String>,
    pub base_url: Option<String>,
    pub api_key: Option<String>,
}

/// An optional text, where an empty one counts as absent.
pub open spec fn non_empty(o: Option<Seq<char>>) -> Option<Seq<char>> {
    match o {
        Some(s) => if s.len() > 0 {
            Some(s)
        } else {
            None
        },
        None => None,
    }
}

/// A copy of an optional text, where an empty one counts as absent.
pub fn filled(o: &Option<String>) -> (r: Option<String>)
    ensures
        r.deep_view() == non_empty(o.deep_view()),
{
    match o {
        Some(s) => if s.as_str().is_empty() {
            None
        } else {
            Some(s.clone())
        },
        None => None,
    }
}

/// An optional text, where an absent one counts as empty.
pub open spec fn text_or_empty(o: Option<Seq<char>>) -> Seq<char> {
    match o {
        Some(s) => s,
        None => Seq::empty(),
    }
}

fn or_empty(o: &Option<String>) -> (r: String)
    ensures
        r@ == text_or_empty(o.deep_view()),
{
    match o {
        Some(s) => s.clone(),
        None => String::new(),
    }
}

// ---------------------------------------------------------------------------
// Saving
// ---------------------------------------------------------------------------

/// The mode that a settings value names; anything else is automatic.
pub open spec fn is_mode_of(m: EmbeddingMode, s: Seq<char>) -> bool {
    if s == "Cloud"@ {
        m is Cloud
    } else if s == "LocalOnly"@ {
        m is LocalOnly
    } else if s == "Specific"@ {
        m is Specific
    } else if s == "Off"@ {
        m is Off
    } else {
        m is Automatic
    }
}

/// The mode that a settings value names; anything else is automatic.
pub fn parse_embedding_mode(s: &str) -> (r: EmbeddingMode)
    ensures
        is_mode_of(r, s@),
{
    if str_eq(s, "Cloud") {
        EmbeddingMode::Cloud
    } else if str_eq(s, "LocalOnly") {
        EmbeddingMode::LocalOnly
    } else if str_eq(s, "Specific") {
        EmbeddingMode::Specific
    } else if str_eq(s, "Off") {
        EmbeddingMode::Off
    } else {
        EmbeddingMode::Automatic
    }
}

/// The name of a mode.
pub open spec fn mode_name(m: EmbeddingMode) -> Seq<char> {
    match m {
        EmbeddingMode::Off => "Off"@,
        EmbeddingMode::Automatic => "Automatic"@,
        EmbeddingMode::Cloud => "Cloud"@,
        EmbeddingMode::LocalOnly => "LocalOnly"@,
        EmbeddingMode::Specific => "Specific"@,
        EmbeddingMode::Bundled(tier) => "Bundled { tier: "@ + tier@ + " }"@,
    }
}

/// The name of a mode.
pub fn embedding_mode_name(m: &EmbeddingMode) -> (r: String)
    ensures
        r@ == mode_name(*m),
{
    match m {
        EmbeddingMode::Off => owned("Off"),
        EmbeddingMode::Automatic => owned("Automatic"),
        EmbeddingMode::Cloud => owned("Cloud"),
        EmbeddingMode::LocalOnly => owned("LocalOnly"),
        EmbeddingMode::Specific => owned("Specific"),
        EmbeddingMode::Bundled(tier) => {
            let a = cat2("Bundled { tier: ", tier.as_str());
            cat2(a.as_str(), " }")
        },
    }
}

/// A mode that the settings offer is read back as itself.
pub proof fn mode_names_are_read_back(m: EmbeddingMode, read: EmbeddingMode)
    requires
        !(m is Bundled),
        is_mode_of(read, mode_name(m)),
    ensures
        read == m,
{
    reveal_strlit("Off");
    reveal_strlit("Automatic");
    reveal_strlit("Cloud");
    reveal_strlit("LocalOnly");
    reveal_strlit("Specific");
    assert("Off"@.len() == 3 && "Automatic"@.len() == 9 && "Cloud"@.len() == 5);
    assert("LocalOnly"@.len() == 9 && "Specific"@.len() == 8);
    assert("LocalOnly"@[0] == 'L' && "Automatic"@[0] == 'A');
}

/// What the configuration holds of the key after a save.
pub open spec fn saved_api_key(
    incoming: Option<Seq<char>>,
    vault: VaultState,
    on_disk: Option<Seq<char>>,
) -> Option<Seq<char>> {
    match incoming {
        Some(k) => if k.len() > 0 && vault is Absent {
            Some(k)
        } else {
            None
        },
        None => if vault is Absent || non_empty(on_disk) is None {
            on_disk
        } else {
            None
        },
    }
}

/// Saves the embedding settings. Empty texts count as absent. The result is
/// what to do to the vault first.
pub fn save_embedding_settings(
    config: &mut EmbeddingConfig,
    mode: &str,
    provider: Option<String>,
    model: Option<String>,
    base_url: Option<String>,
    api_key: Option<String>,
    vault: &VaultState,
) -> (r: VaultAction)
    ensures
        is_mode_of(final(config).mode, mode@),
        final(config).provider.deep_view() == non_empty(provider.deep_view()),
        final(config).model.deep_view() == non_empty(model.deep_view()),
        final(config).base_url.deep_view() == non_empty(base_url.deep_view()),
        final(config).api_key.deep_view() == saved_api_key(
            api_key.deep_view(),
            *vault,
            old(config).api_key.deep_view(),
        ),
        is_secret_action(
            r,
            api_key.deep_view(),
            *vault,
            text_or_empty(old(config).api_key.deep_view()),
            true,
        ),
{
    config.mode = parse_embedding_mode(mode);
    config.provider = filled(&provider);
    config.model = filled(&model);
    config.base_url = filled(&base_url);
    let given = api_key.is_some();
    let held = or_empty(&config.api_key);
    let plan = plan_secret(api_key, vault, held.as_str(), true);
    let SecretPlan { on_disk, action } = plan;
    if given {
        config.api_key = if on_disk.as_str().is_empty() {
            None
        } else {
            Some(on_disk)
        };
    } else if on_disk.as_str().is_empty() && !held.as_str().is_empty() {
        config.api_key = None;
    }
    action
}

// ---------------------------------------------------------------------------
// The order of providers
// ---------------------------------------------------------------------------

/// One embedding provider to try.
#[derive(Clone, Debug, PartialEq, Eq)]
pub enum EmbeddingChoice {
    /// Ollama, at its usual address where none is given.
    Ollama { model: String, base_url: Option<String> },
    /// A service that speaks OpenAI's protocol; OpenAI itself where no
    /// address is given.
    OpenAi {
        base_url: Option<String>,
        api_key: Option<String>,
        model: Option<String>,
        provider_id: Option<String>,
    },
    /// The model of this tier that comes with the app.
    Bundled { tier: String },
}

/// The model of an embedding choice.
pub enum ChoiceModel {
    Ollama { model: Seq<char>, base_url: Option<Seq<char>> },
    OpenAi {
        base_url: Option<Seq<char>>,
        api_key: Option<Seq<char>>,
        model: Option<Seq<char>>,
        provider_id: Option<Seq<char>>,
    },
    Bundled { tier: Seq<char> },
}

impl View for EmbeddingChoice {
    type V = ChoiceModel;

    open spec fn view(&self) -> ChoiceModel {
        match self {
            EmbeddingChoice::Ollama { model, base_url } => ChoiceModel::Ollama {
                model: model@,
                base_url: base_url.deep_view(),
            },
            EmbeddingChoice::OpenAi { base_url, api_key, model, provider_id } =>
            ChoiceModel::OpenAi {
                base_url: base_url.deep_view(),
                api_key: api_key.deep_view(),
                model: model.deep_view(),
                provider_id: provider_id.deep_view(),
            },
            EmbeddingChoice::Bundled { tier } => ChoiceModel::Bundled { tier: tier@ },
        }
    }
}

pub open spec fn choice_views(v: Seq<EmbeddingChoice>) -> Seq<ChoiceModel> {
    v.map_values(|c: EmbeddingChoice| c@)
}

/// What is there to run the model that comes with the app.
#[derive(Clone, Copy, Debug, PartialEq, Eq)]
pub struct BundledSupport {
    /// The app was built with it, and there is a directory for its files.
    pub usable: bool,
    /// The files of the light tier are there.
    pub light_downloaded: bool,
}

/// The configured model, else `default`.
pub open spec fn model_or(cfg: EmbeddingConfig, default: Seq<char>) -> Seq<char> {
    match non_empty(cfg.model.deep_view()) {
        Some(m) => m,
        None => default,
    }
}

/// The cloud provider that a key opens.
pub open spec fn cloud_choice(cfg: EmbeddingConfig, key: Seq<char>) -> ChoiceModel {
    ChoiceModel::OpenAi {
        base_url: non_empty(cfg.base_url.deep_view()),
        api_key: Some(key),
        model: non_empty(cfg.model.deep_view()),
        provider_id: None,
    }
}

/// The providers to try, in order. Where none is left, keyword search serves.
pub open spec fn embedding_order(cfg: EmbeddingConfig, bundled: BundledSupport) -> Seq<
    ChoiceModel,
> {
    let url = non_empty(cfg.base_url.deep_view());
    let key = non_empty(cfg.api_key.deep_view());
    match cfg.mode {
        EmbeddingMode::Off => Seq::empty(),
        EmbeddingMode::Bundled(tier) => if bundled.usable {
            seq![ChoiceModel::Bundled { tier: tier@ }]
        } else {
            Seq::empty()
        },
        EmbeddingMode::LocalOnly => seq![
            ChoiceModel::Ollama { model: model_or(cfg, "nomic-embed-text"@), base_url: url },
        ],
        EmbeddingMode::Cloud => match key {
            Some(k) => seq![cloud_choice(cfg, k)],
            None => Seq::empty(),
        },
        EmbeddingMode::Specific => match cfg.provider {
            Some(p) => if p@ == "ollama"@ {
                seq![
                    ChoiceModel::Ollama {
                        model: model_or(cfg, "nomic-embed-text"@),
                        base_url: url,
                    },
                ]
            } else {
                seq![
                    ChoiceModel::OpenAi {
                        base_url: Some(
                            match url {
                                Some(u) => u,
                                None => "http://localhost:8080"@,
                            },
                        ),
                        api_key: key,
                        model: non_empty(cfg.model.deep_view()),
                        provider_id: Some(p@),
                    },
                ]
            },
            None => Seq::empty(),
        },
        EmbeddingMode::Automatic => {
            seq![ChoiceModel::Ollama { model: model_or(cfg, "nomic-embed-text"@), base_url: None }]
                + (match key {
                Some(k) => seq![cloud_choice(cfg, k)],
                None => Seq::empty(),
            }) + (if bundled.usable && bundled.light_downloaded {
                seq![ChoiceModel::Bundled { tier: "Light"@ }]
            } else {
                Seq::empty()
            })
        },
    }
}

fn local_model(cfg: &EmbeddingConfig) -> (r: String)
    ensures
        r@ == model_or(*cfg, "nomic-embed-text"@),
{
    match filled(&cfg.model) {
        Some(m) => m,
        None => owned("nomic-embed-text"),
    }
}

fn cloud(cfg: &EmbeddingConfig, key: String) -> (r: EmbeddingChoice)
    ensures
        r@ == cloud_choice(*cfg, key@),
{
    EmbeddingChoice::OpenAi {
        base_url: filled(&cfg.base_url),
        api_key: Some(key),
        model: filled(&cfg.model),
        provider_id: None,
    }
}

/// The embedding providers to try, in order.
pub fn build_embedding_router(cfg: &EmbeddingConfig, bundled: BundledSupport) -> (r: Vec<
    EmbeddingChoice,
>)
    ensures
        choice_views(r@) == embedding_order(*cfg, bundled),
{
    let mut v: Vec<EmbeddingChoice> = Vec::new();
    match &cfg.mode {
        EmbeddingMode::Off => {},
        EmbeddingMode::Bundled(tier) => {
            if bundled.usable {
                v.push(EmbeddingChoice::Bundled { tier: tier.clone() });
            }
        },
        EmbeddingMode::LocalOnly => {
            v.push(
                EmbeddingChoice::Ollama {
                    model: local_model(cfg),
                    base_url: filled(&cfg.base_url),
                },
            );
        },
        EmbeddingMode::Cloud => {
            if let Some(k) = filled(&cfg.api_key) {
                v.push(cloud(cfg, k));
            }
        },
        EmbeddingMode::Specific => {
            if let Some(p) = &cfg.provider {
                if str_eq(p.as_str(), "ollama") {
                    v.push(
                        EmbeddingChoice::Ollama {
                            model: local_model(cfg),
                            base_url: filled(&cfg.base_url),
                        },
                    );
                } else {
                    let url = match filled(&cfg.base_url) {
                        Some(u) => u,
                        None => owned("http://localhost:8080"),
                    };
                    v.push(
                        EmbeddingChoice::OpenAi {
                            base_url: Some(url),
                            api_key: filled(&cfg.api_key),
                            model: filled(&cfg.model),
                            provider_id: Some(p.clone()),
                        },
                    );
                }
            }
        },
        EmbeddingMode::Automatic => {
            v.push(EmbeddingChoice::Ollama { model: local_model(cfg), base_url: None });
            if let Some(k) = filled(&cfg.api_key) {
                v.push(cloud(cfg, k));
            }
            if bundled.usable && bundled.light_downloaded {
                v.push(EmbeddingChoice::Bundled { tier: owned("Light") });
            }
        },
    }
    proof {
        assert(choice_views(v@) =~= embedding_order(*cfg, bundled));
    }
    v
}

/// Without a key nothing outside the user's machine is tried, unless the user
/// named a specific provider.
pub proof fn no_key_means_no_cloud(cfg: EmbeddingConfig, bundled: BundledSupport, i: int)
    requires
        non_empty(cfg.api_key.deep_view()) is None,
        !(cfg.mode is Specific),
        0 <= i < embedding_order(cfg, bundled).len(),
    ensures
        !(embedding_order(cfg, bundled)[i] is OpenAi),
{
}

/// The tier to have ready in the background, if any: the chosen one, or the
/// light one where nothing better than keyword search is configured.
pub open spec fn tier_to_warm(cfg: EmbeddingConfig) -> Option<Seq<char>> {
    match cfg.mode {
        EmbeddingMode::Bundled(tier) => Some(tier@),
        EmbeddingMode::Automatic => if non_empty(cfg.api_key.deep_view()) is Some {
            None
        } else {
            Some("Light"@)
        },
        _ => None,
    }
}

/// The tier to download, if any: the one to have ready, unless it is there.
pub fn start_embedder_warmup(cfg: &EmbeddingConfig, has_data_dir: bool, downloaded: bool) -> (r:
    Option<String>)
    ensures
        r.deep_view() == if has_data_dir && !downloaded {
            tier_to_warm(*cfg)
        } else {
            None
        },
{
    if !has_data_dir || downloaded {
        return None;
    }
    warmup_tier(cfg)
}

/// The tier to have ready in the background, if any.
pub fn warmup_tier(cfg: &EmbeddingConfig) -> (r: Option<String>)
    ensures
        r.deep_view() == tier_to_warm(*cfg),
{
    match &cfg.mode {
        EmbeddingMode::Bundled(tier) => Some(tier.clone()),
        EmbeddingMode::Automatic => {
            if filled(&cfg.api_key).is_some() {
                None
            } else {
                Some(owned("Light"))
            }
        },
        EmbeddingMode::Off => None,
        EmbeddingMode::Cloud => None,
        EmbeddingMode::LocalOnly => None,
        EmbeddingMode::Specific => None,
    }
}

/// How far the background download has come.
pub enum WarmupPhase<'a> {
    Starting,
    Complete,
    Failed(&'a str),
}

/// The name of a phase and what the user is told.
pub fn warmup_notice(phase: &WarmupPhase) -> (r: (String, String))
    ensures
        (r.0@, r.1@) == match phase {
            WarmupPhase::Starting => ("starting"@, "Setting up local memory…"@),
            WarmupPhase::Complete => ("complete"@, "Local memory ready."@),
            WarmupPhase::Failed(e) => ("failed"@, "Local memory setup failed: "@ + e@),
        },
{
    match phase {
        WarmupPhase::Starting => (owned("starting"), owned("Setting up local memory…")),
        WarmupPhase::Complete => (owned("complete"), owned("Local memory ready.")),
        WarmupPhase::Failed(e) => (owned("failed"), cat2("Local memory setup failed: ", e)),
    }
}

// ---------------------------------------------------------------------------
// What the embedding settings promise
// ---------------------------------------------------------------------------

/// An empty text counts as absent, an absent one as empty, and any other is
/// taken as it is.
pub proof fn filled_texts_are_taken(s: Seq<char>)
    ensures
        s.len() > 0 ==> non_empty(Some(s)) == Some(s),
        s.len() == 0 ==> non_empty(Some(s)) is None,
        non_empty(None) is None,
        text_or_empty(Some(s)) == s,
        text_or_empty(None).len() == 0,
{
}

/// A settings value names the mode that it is called after; every other value
/// is automatic.
pub proof fn settings_name_their_mode(m: EmbeddingMode, s: Seq<char>)
    requires
        is_mode_of(m, s),
    ensures
        m is Cloud <==> s == "Cloud"@,
        m is LocalOnly <==> s == "LocalOnly"@,
        m is Specific <==> s == "Specific"@,
        m is Off <==> s == "Off"@,
        m is Automatic <==> s != "Cloud"@ && s != "LocalOnly"@ && s != "Specific"@ && s != "Off"@,
        mode_name(EmbeddingMode::Cloud) == "Cloud"@,
        mode_name(EmbeddingMode::LocalOnly) == "LocalOnly"@,
        mode_name(EmbeddingMode::Specific) == "Specific"@,
        mode_name(EmbeddingMode::Off) == "Off"@,
        mode_name(EmbeddingMode::Automatic) == "Automatic"@,
{
    reveal_strlit("Cloud");
    reveal_strlit("LocalOnly");
    reveal_strlit("Specific");
    reveal_strlit("Off");
    assert("Cloud"@.len() == 5 && "LocalOnly"@.len() == 9 && "Specific"@.len() == 8
        && "Off"@.len() == 3);
}

/// With a vault no key is left on disk. Without one, a given key is written,
/// an empty one drops it, and without a new one the old one stays.
pub proof fn embedding_keys_are_saved(
    incoming: Option<Seq<char>>,
    vault: VaultState,
    on_disk: Option<Seq<char>>,
)
    ensures
        ({
            let r = saved_api_key(incoming, vault, on_disk);
            &&& vault is Absent ==> (incoming matches Some(k) ==> (k.len() > 0 ==> r == Some(k)))
            &&& vault is Absent && incoming is None ==> r == on_disk
            &&& incoming matches Some(k) ==> (k.len() == 0 ==> r is None)
            &&& !(vault is Absent) ==> (r matches Some(k) ==> k.len() == 0)
        }),
{
}

/// The order in which providers are tried follows the mode: none where it is
/// off; only a local one, only the cloud, only the chosen one or only the
/// bundled one where the mode says so.
pub proof fn modes_choose_the_providers(cfg: EmbeddingConfig, bundled: BundledSupport)
    ensures
        ({
            let r = embedding_order(cfg, bundled);
            let url = non_empty(cfg.base_url.deep_view());
            let key = non_empty(cfg.api_key.deep_view());
            let model = non_empty(cfg.model.deep_view());
            &&& cfg.mode is Off ==> r.len() == 0
            &&& cfg.mode matches EmbeddingMode::Bundled(tier) ==> {
                &&& bundled.usable ==> r == seq![ChoiceModel::Bundled { tier: tier@ }]
                &&& !bundled.usable ==> r.len() == 0
            }
            &&& cfg.mode is LocalOnly ==> r.len() == 1 && (
            r[0] matches ChoiceModel::Ollama { model: m, base_url: u } && u == url && (
            model matches Some(given) ==> m == given) && (model is None ==> m
                == "nomic-embed-text"@))
            &&& cfg.mode is Cloud && key is None ==> r.len() == 0
            &&& cfg.mode is Cloud ==> (key matches Some(k) ==> r == seq![
                ChoiceModel::OpenAi {
                    base_url: url,
                    api_key: Some(k),
                    model,
                    provider_id: None,
                },
            ])
            &&& cfg.mode is Specific && cfg.provider is None ==> r.len() == 0
            &&& cfg.mode is Specific ==> (cfg.provider matches Some(p) ==> {
                &&& r.len() == 1
                &&& p@ == "ollama"@ ==> (r[0] matches ChoiceModel::Ollama { model: m, base_url: u }
                    && u == url && (model matches Some(given) ==> m == given) && (model is None
                    ==> m == "nomic-embed-text"@))
                &&& p@ != "ollama"@ ==> (r[0] matches ChoiceModel::OpenAi {
                    base_url: u,
                    api_key: k,
                    model: m,
                    provider_id: id,
                } && k == key && m == model && id == Some(p@) && (url is Some ==> u == url) && (url
                    is None ==> u == Some("http://localhost:8080"@)))
            })
        }),
{
}

/// Automatically, the local one is tried first, then the cloud wherever a key
/// is there, and the bundled one last, wherever it has been downloaded.
pub proof fn automatic_order_prefers_local(cfg: EmbeddingConfig, bundled: BundledSupport)
    requires
        cfg.mode is Automatic,
    ensures
        ({
            let r = embedding_order(cfg, bundled);
            let key = non_empty(cfg.api_key.deep_view());
            let light = bundled.usable && bundled.light_downloaded;
            &&& r.len() == 1 + (if key is Some {
                1int
            } else {
                0int
            }) + (if light {
                1int
            } else {
                0int
            })
            &&& r[0] matches ChoiceModel::Ollama { model: m, base_url: u } && u is None && (
            non_empty(cfg.model.deep_view()) matches Some(given) ==> m == given) && (non_empty(
                cfg.model.deep_view(),
            ) is None ==> m == "nomic-embed-text"@)
            &&& key matches Some(k) ==> r[1] == (ChoiceModel::OpenAi {
                base_url: non_empty(cfg.base_url.deep_view()),
                api_key: Some(k),
                model: non_empty(cfg.model.deep_view()),
                provider_id: None,
            })
            &&& light ==> r.last() == (ChoiceModel::Bundled { tier: "Light"@ })
        }),
{
}

/// A bundled model is warmed up where it was chosen, and automatically only
/// where there is no key for the cloud.
pub proof fn bundled_models_are_warmed(cfg: EmbeddingConfig)
    ensures
        cfg.mode matches EmbeddingMode::Bundled(tier) ==> tier_to_warm(cfg) == Some(tier@),
        cfg.mode is Automatic && non_empty(cfg.api_key.deep_view()) is None ==> tier_to_warm(cfg)
            == Some("Light"@),
        cfg.mode is Automatic && non_empty(cfg.api_key.deep_view()) is Some ==> tier_to_warm(cfg)
            is None,
        cfg.mode is Off || cfg.mode is Cloud || cfg.mode is LocalOnly || cfg.mode is Specific
            ==> tier_to_warm(cfg) is None,
{
}

/// A choice is seen with all that it holds.
pub proof fn choices_are_seen_whole(v: Seq<EmbeddingChoice>, i: int)
    requires
        0 <= i < v.len(),
    ensures
        choice_views(v).len() == v.len(),
        v[i] matches EmbeddingChoice::Ollama { model, base_url } ==> choice_views(v)[i] == (
        ChoiceModel::Ollama { model: model@, base_url: base_url.deep_view() }),
        v[i] matches EmbeddingChoice::OpenAi { base_url, api_key, model, provider_id }
            ==> choice_views(v)[i] == (ChoiceModel::OpenAi {
            base_url: base_url.deep_view(),
            api_key: api_key.deep_view(),
            model: model.deep_view(),
            provider_id: provider_id.deep_view(),
        }),
        v[i] matches EmbeddingChoice::Bundled { tier } ==> choice_views(v)[i] == (
        ChoiceModel::Bundled { tier: tier@ }),
{
}

} // verus!
