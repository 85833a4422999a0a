//! Providers, bundles, pins, tiers and router plans.

use athen_app::models::{
    AuthType, Bundle, BundleTier, BundleTiers, ModelProfile, ModelsConfig, ProviderConfig,
    ProviderEntry, TierModels, Timestamp,
};
use athen_app::providers::{
    curated_models, default_base_url, default_base_url_for, default_model_for, default_tier_slugs, is_local_provider,
    known_provider_ids, list_curated_models, list_model_families, list_provider_catalog,
    name_of_family, parse_model_profile, slug_of_family,
};
use athen_app::router_plan::{
    arc_router_for, build_router_for_bundle, build_router_for_provider,
    build_router_for_provider_from_config, build_router_for_provider_from_config_with_pinned_slug,
    build_startup_router, tier_label, Connection, RouterPlan,
};
use athen_app::routing::{
    api_key_env_var, build_provider_instance, complexity_path, derive_primary_connection_pair,
    env_key, env_var_from, is_minimax_slug, parse_model_profile_wire, pick_bundle_tier,
    pinned_slug_still_configured, resolve_active_provider, resolve_api_key_for, saved_api_key_for,
    resolve_code_mode_for_arc, resolve_effective_provider_for_arc_with_config,
    resolve_effective_tier_for_arc, resolve_security_mode_for_arc, set_pinned_provider_if_unset,
    usable_api_key, uses_shared_router, Adapter, ArcLookup, ArcPin, ComplexityTag,
    EffectiveProviderTarget, EnvKey, SecurityMode, SlugQuirk,
};

fn mk_provider(default_model: &str) -> ProviderConfig {
    ProviderConfig {
        auth: AuthType::NoKey,
        default_model: default_model.to_string(),
        endpoint: None,
        context_window_tokens: 128_000,
        compaction_trigger_pct: 65,
        compaction_target_pct: 30,
        supports_vision: false,
        supports_documents: false,
        family: "Default".to_string(),
        temperature: None,
        tier_models: TierModels::empty(),
    }
}

fn mk_config(provider_ids: &[(&str, &str)]) -> ModelsConfig {
    let mut cfg = ModelsConfig {
        providers: vec![],
        bundles: vec![],
        active_bundle: None,
        active_provider: None,
    };
    for (id, default_model) in provider_ids {
        cfg.providers.push(ProviderEntry {
            id: (*id).to_string(),
            config: mk_provider(default_model),
        });
    }
    cfg
}

fn mk_bundle(name: &str, tiers: &[(ModelProfile, &str, &str)]) -> Bundle {
    let mut t = BundleTiers { judges: None, fast: None, code: None, powerful: None, local: None };
    for (tier, cid, slug) in tiers {
        let pick = Some(BundleTier {
            connection_id: (*cid).to_string(),
            slug: (*slug).to_string(),
        });
        match tier {
            ModelProfile::Judges => t.judges = pick,
            ModelProfile::Fast => t.fast = pick,
            ModelProfile::Code => t.code = pick,
            ModelProfile::Powerful => t.powerful = pick,
            ModelProfile::Local => t.local = pick,
        }
    }
    let now = Timestamp { secs: 1_778_666_400, nanos: 0 };
    Bundle {
        id: format!("id of {name}"),
        name: name.to_string(),
        created_at: now,
        updated_at: now,
        tiers: t,
    }
}

fn install_active_bundle(cfg: &mut ModelsConfig, bundle: Bundle) {
    cfg.active_bundle = Some(bundle.id.clone());
    cfg.bundles.push(bundle);
}

fn unpinned() -> ArcPin {
    ArcPin { pinned_provider_id: None, pinned_slug: None }
}

fn pinned_to(provider: &str, slug: &str) -> ArcPin {
    ArcPin {
        pinned_provider_id: Some(provider.to_string()),
        pinned_slug: Some(slug.to_string()),
    }
}

/// Resolves for a stored arc, and stores the pin that the resolution asks for.
fn resolve_stored(
    arc: &mut ArcPin,
    active: &str,
    tier: ModelProfile,
    cfg: &ModelsConfig,
) -> EffectiveProviderTarget {
    let (target, install) = resolve_effective_provider_for_arc_with_config(
        &ArcLookup::Found(arc.clone()),
        active,
        tier,
        cfg,
    );
    if let Some(pin) = install {
        set_pinned_provider_if_unset(arc, pin);
    }
    target
}

fn tier_for(
    over: Option<&str>,
    complexity: Option<ComplexityTag>,
    is_code: bool,
    default: ModelProfile,
) -> ModelProfile {
    resolve_effective_tier_for_arc(
        &over.map(|s| s.to_string()),
        complexity,
        is_code,
        default,
        ModelProfile::Fast,
    )
    .0
}

#[test]
fn override_wins_over_complexity_and_default() {
    let tier = tier_for(Some("Cheap"), Some(ComplexityTag::High), false, ModelProfile::Fast);
    assert_eq!(tier, ModelProfile::Judges);
}

#[test]
fn complexity_wins_when_no_override() {
    let tier = tier_for(None, Some(ComplexityTag::High), false, ModelProfile::Fast);
    assert_eq!(tier, ModelProfile::Powerful);
}

#[test]
fn default_used_when_no_override_no_complexity() {
    let tier = tier_for(None, None, false, ModelProfile::Fast);
    assert_eq!(tier, ModelProfile::Fast);
}

#[test]
fn unknown_override_string_falls_through() {
    let tier = tier_for(Some("Bogus"), Some(ComplexityTag::High), false, ModelProfile::Fast);
    assert_eq!(tier, ModelProfile::Powerful);
}

#[test]
fn code_task_flag_routes_to_code_tier() {
    let tier = tier_for(None, Some(ComplexityTag::Medium), true, ModelProfile::Fast);
    assert_eq!(tier, ModelProfile::Code);
}

#[test]
fn high_complexity_beats_code_flag() {
    let tier = tier_for(None, Some(ComplexityTag::High), true, ModelProfile::Fast);
    assert_eq!(tier, ModelProfile::Powerful);
}

#[test]
fn override_beats_code_task_flag() {
    let tier = tier_for(Some("Powerful"), Some(ComplexityTag::Low), true, ModelProfile::Fast);
    assert_eq!(tier, ModelProfile::Powerful);
}

#[test]
fn tier_reasons_are_named() {
    let m = ModelProfile::Judges;
    let d = ModelProfile::Local;
    assert_eq!(complexity_path(Some(ComplexityTag::High), true, d, m), (ModelProfile::Powerful, "complexity_high"));
    assert_eq!(complexity_path(Some(ComplexityTag::Low), true, d, m), (ModelProfile::Code, "code_task"));
    assert_eq!(complexity_path(Some(ComplexityTag::Low), false, d, m), (m, "complexity_low"));
    assert_eq!(complexity_path(Some(ComplexityTag::Medium), false, d, m), (m, "complexity_medium"));
    assert_eq!(complexity_path(None, true, d, m), (m, "code_task"));
    assert_eq!(complexity_path(None, false, d, m), (d, "default"));
    let (tier, why) =
        resolve_effective_tier_for_arc(&Some(" Local ".to_string()), None, true, d, m);
    assert_eq!((tier, why), (ModelProfile::Local, "override"));
    assert_eq!(parse_model_profile_wire("Judges"), Some(ModelProfile::Judges));
    assert_eq!(parse_model_profile_wire("fast"), None);
}

#[test]
fn override_wins_over_global() {
    let mode = resolve_security_mode_for_arc(Some(SecurityMode::Yolo), SecurityMode::Bunker);
    assert_eq!(mode, SecurityMode::Yolo);
}

#[test]
fn no_override_falls_through_to_global() {
    let mode = resolve_security_mode_for_arc(None, SecurityMode::Bunker);
    assert_eq!(mode, SecurityMode::Bunker);
}

#[test]
fn missing_arc_and_no_store_fall_through() {
    assert_eq!(resolve_security_mode_for_arc(None, SecurityMode::Yolo), SecurityMode::Yolo);
    assert_eq!(
        resolve_security_mode_for_arc(None, SecurityMode::Assistant),
        SecurityMode::Assistant
    );
}

#[test]
fn code_mode_needs_a_directory() {
    let root = Some("/repo".to_string());
    assert_eq!(resolve_code_mode_for_arc(Some(true), root.clone(), true), root);
    assert_eq!(resolve_code_mode_for_arc(Some(true), root.clone(), false), None);
    assert_eq!(resolve_code_mode_for_arc(Some(false), root.clone(), true), None);
    assert_eq!(resolve_code_mode_for_arc(None, root, true), None);
}

#[test]
fn matches_known_minimax_slugs() {
    assert!(is_minimax_slug("minimax-m2.7"));
    assert!(is_minimax_slug("minimax-m2.5"));
    assert!(is_minimax_slug("minimax-m2"));
    assert!(is_minimax_slug("minimax-m2-preview"));
    assert!(is_minimax_slug("minimax-m2_foo"));
}

#[test]
fn case_insensitive() {
    assert!(is_minimax_slug("MiniMax-M2.7"));
    assert!(is_minimax_slug("MINIMAX-M2.5"));
    assert!(is_minimax_slug("Minimax-m2"));
}

#[test]
fn rejects_other_slugs() {
    assert!(!is_minimax_slug("deepseek-v4-flash"));
    assert!(!is_minimax_slug("deepseek-v4-pro"));
    assert!(!is_minimax_slug("kimi-k2.5"));
    assert!(!is_minimax_slug("qwen-3-coder"));
    assert!(!is_minimax_slug("glm-4-air"));
    assert!(!is_minimax_slug(""));
    assert!(!is_minimax_slug("minimax"));
}

#[test]
fn rejects_future_or_adjacent_generations() {
    assert!(!is_minimax_slug("minimax-m3"));
    assert!(!is_minimax_slug("minimax-m3.0"));
    assert!(!is_minimax_slug("minimax-m25"));
    assert!(!is_minimax_slug("minimax-m20"));
    assert!(!is_minimax_slug("not-minimax-m2.7"));
}

#[test]
fn first_call_installs_pin_returns_none_slug() {
    let mut arc = unpinned();
    let cfg = mk_config(&[("opencode_go", "deepseek-v4-flash")]);
    let target = resolve_stored(&mut arc, "opencode_go", ModelProfile::Powerful, &cfg);
    assert_eq!(
        target,
        EffectiveProviderTarget { provider_id: "opencode_go".to_string(), pinned_slug: None }
    );
    assert_eq!(arc.pinned_provider_id.as_deref(), Some("opencode_go"));
    assert_eq!(arc.pinned_slug.as_deref(), Some("deepseek-v4-flash"));
}

#[test]
fn pinned_arc_returns_both_provider_and_slug() {
    let mut arc = pinned_to("opencode_go", "minimax-m2.7");
    let cfg = mk_config(&[
        ("opencode_go", "minimax-m2.7"),
        ("deepseek", "deepseek-v4-flash"),
    ]);
    let target = resolve_stored(&mut arc, "deepseek", ModelProfile::Powerful, &cfg);
    assert_eq!(
        target,
        EffectiveProviderTarget {
            provider_id: "opencode_go".to_string(),
            pinned_slug: Some("minimax-m2.7".to_string()),
        }
    );
}

#[test]
fn pinned_provider_missing_drops_slug() {
    let mut arc = pinned_to("deleted_provider", "kimi-k2.5");
    let cfg = mk_config(&[("deepseek", "deepseek-v4-flash")]);
    let target = resolve_stored(&mut arc, "deepseek", ModelProfile::Powerful, &cfg);
    assert_eq!(
        target,
        EffectiveProviderTarget { provider_id: "deepseek".to_string(), pinned_slug: None }
    );
}

#[test]
fn pinned_slug_no_longer_configured_is_dropped() {
    let mut arc = pinned_to("opencode_go", "minimax-m2.7");
    let cfg = mk_config(&[("opencode_go", "deepseek-v4-flash")]);
    let target = resolve_stored(&mut arc, "opencode_go", ModelProfile::Powerful, &cfg);
    assert_eq!(
        target,
        EffectiveProviderTarget { provider_id: "opencode_go".to_string(), pinned_slug: None }
    );
}

#[test]
fn pinned_slug_referenced_by_a_bundle_is_kept() {
    let mut arc = pinned_to("opencode_go", "minimax-m2.7");
    let mut cfg = mk_config(&[("opencode_go", "deepseek-v4-flash")]);
    install_active_bundle(
        &mut cfg,
        mk_bundle("b1", &[(ModelProfile::Powerful, "opencode_go", "minimax-m2.7")]),
    );
    let target = resolve_stored(&mut arc, "opencode_go", ModelProfile::Powerful, &cfg);
    assert_eq!(
        target,
        EffectiveProviderTarget {
            provider_id: "opencode_go".to_string(),
            pinned_slug: Some("minimax-m2.7".to_string()),
        }
    );
}

#[test]
fn pinned_slug_in_default_model_but_not_in_active_bundle_is_dropped() {
    let mut arc = pinned_to("opencode_go", "minimax-m2.7");
    let mut cfg = mk_config(&[("opencode_go", "minimax-m2.7")]);
    install_active_bundle(
        &mut cfg,
        mk_bundle(
            "main",
            &[
                (ModelProfile::Powerful, "opencode_go", "deepseek-v4-pro"),
                (ModelProfile::Judges, "opencode_go", "deepseek-v4-flash"),
            ],
        ),
    );
    let target = resolve_stored(&mut arc, "opencode_go", ModelProfile::Powerful, &cfg);
    assert_eq!(
        target,
        EffectiveProviderTarget { provider_id: "opencode_go".to_string(), pinned_slug: None }
    );
    assert!(!pinned_slug_still_configured(&cfg, "opencode_go", "minimax-m2.7"));
}

#[test]
fn no_arc_store_returns_active_only() {
    let cfg = mk_config(&[("openai", "gpt-5.4-mini")]);
    let (target, install) = resolve_effective_provider_for_arc_with_config(
        &ArcLookup::Absent,
        "openai",
        ModelProfile::Powerful,
        &cfg,
    );
    assert_eq!(
        target,
        EffectiveProviderTarget { provider_id: "openai".to_string(), pinned_slug: None }
    );
    assert!(install.is_none());
}

#[test]
fn bundle_tier_overrides_active_provider() {
    let mut arc = unpinned();
    let sonnet = slug_of_family("ClaudeSonnet46");
    let opus = slug_of_family("ClaudeOpus47");
    let mut cfg = mk_config(&[
        ("opencode_go", "deepseek-v4-flash"),
        ("anthropic", &sonnet),
    ]);
    install_active_bundle(
        &mut cfg,
        mk_bundle("Default", &[(ModelProfile::Code, "anthropic", &opus)]),
    );
    let target = resolve_stored(&mut arc, "opencode_go", ModelProfile::Code, &cfg);
    assert_eq!(
        target,
        EffectiveProviderTarget { provider_id: "anthropic".to_string(), pinned_slug: None }
    );
    assert_eq!(arc.pinned_provider_id.as_deref(), Some("anthropic"));
    assert_eq!(arc.pinned_slug.as_deref(), Some(opus.as_str()));
}

#[test]
fn sparse_bundle_falls_through_to_cheap() {
    let mut arc = unpinned();
    let mut cfg = mk_config(&[("deepseek", "deepseek-chat")]);
    install_active_bundle(
        &mut cfg,
        mk_bundle("Cheap-only", &[(ModelProfile::Judges, "deepseek", "deepseek-v4-flash")]),
    );
    let target = resolve_stored(&mut arc, "deepseek", ModelProfile::Powerful, &cfg);
    assert_eq!(arc.pinned_provider_id.as_deref(), Some("deepseek"));
    assert_eq!(arc.pinned_slug.as_deref(), Some("deepseek-v4-flash"));
    assert_eq!(target.provider_id, "deepseek");
}

#[test]
fn bundle_pointing_at_deleted_connection_falls_back() {
    let mut arc = unpinned();
    let mut cfg = mk_config(&[("deepseek", "deepseek-chat")]);
    install_active_bundle(
        &mut cfg,
        mk_bundle("Broken", &[(ModelProfile::Powerful, "ghost", "ghost-model")]),
    );
    let target = resolve_stored(&mut arc, "deepseek", ModelProfile::Powerful, &cfg);
    assert_eq!(target.provider_id, "deepseek");
    assert_eq!(arc.pinned_provider_id.as_deref(), Some("deepseek"));
    assert_eq!(arc.pinned_slug.as_deref(), Some("deepseek-chat"));
}

#[test]
fn no_active_bundle_uses_legacy_path() {
    let mut arc = unpinned();
    let cfg = mk_config(&[("deepseek", "deepseek-chat")]);
    assert!(cfg.bundles.is_empty());
    let target = resolve_stored(&mut arc, "deepseek", ModelProfile::Fast, &cfg);
    assert_eq!(target.provider_id, "deepseek");
    assert_eq!(arc.pinned_slug.as_deref(), Some("deepseek-chat"));
}

#[test]
fn later_calls_keep_what_the_first_one_froze() {
    let mut arc = unpinned();
    let cfg = mk_config(&[("deepseek", "deepseek-chat"), ("openai", "gpt-5.4-mini")]);
    resolve_stored(&mut arc, "deepseek", ModelProfile::Fast, &cfg);
    let later = resolve_stored(&mut arc, "openai", ModelProfile::Powerful, &cfg);
    assert_eq!(later.provider_id, "deepseek");
    assert_eq!(later.pinned_slug.as_deref(), Some("deepseek-chat"));
    assert!(!uses_shared_router(&later, "deepseek"));
    assert!(!uses_shared_router(&later, "openai"));
    let plain = EffectiveProviderTarget { provider_id: "a".to_string(), pinned_slug: None };
    assert!(uses_shared_router(&plain, "a"));
    assert!(!uses_shared_router(&plain, "b"));
}

#[test]
fn tier_slugs_stand_before_the_default_model() {
    let mut cfg = mk_config(&[("deepseek", "deepseek-chat")]);
    cfg.providers[0].config.tier_models.set(ModelProfile::Code, "coder".to_string());
    cfg.providers[0].config.tier_models.set(ModelProfile::Fast, String::new());
    let mut arc = unpinned();
    resolve_stored(&mut arc, "deepseek", ModelProfile::Code, &cfg);
    assert_eq!(arc.pinned_slug.as_deref(), Some("coder"));
    let mut other = unpinned();
    resolve_stored(&mut other, "deepseek", ModelProfile::Fast, &cfg);
    assert_eq!(other.pinned_slug.as_deref(), Some("deepseek-chat"));
    let mut gone = unpinned();
    resolve_stored(&mut gone, "nobody", ModelProfile::Fast, &cfg);
    assert_eq!(gone, pinned_to("nobody", ""));
}

#[test]
fn bundle_tiers_are_tried_in_order() {
    let only_code = mk_bundle("c", &[(ModelProfile::Code, "x", "code")]);
    for tier in [
        ModelProfile::Judges,
        ModelProfile::Fast,
        ModelProfile::Code,
        ModelProfile::Powerful,
    ] {
        assert_eq!(pick_bundle_tier(&only_code, tier).unwrap().slug, "code");
    }
    assert!(pick_bundle_tier(&only_code, ModelProfile::Local).is_none());
    let local = mk_bundle("l", &[(ModelProfile::Local, "x", "loc")]);
    assert!(pick_bundle_tier(&local, ModelProfile::Fast).is_none());
    assert_eq!(pick_bundle_tier(&local, ModelProfile::Local).unwrap().slug, "loc");
    // Code asks for fast before powerful; judges asks for powerful before fast.
    let two = mk_bundle(
        "t",
        &[(ModelProfile::Fast, "x", "fast"), (ModelProfile::Powerful, "x", "pow")],
    );
    assert_eq!(pick_bundle_tier(&two, ModelProfile::Code).unwrap().slug, "fast");
    assert_eq!(pick_bundle_tier(&two, ModelProfile::Judges).unwrap().slug, "pow");
    assert_eq!(derive_primary_connection_pair(&two).unwrap().slug, "fast");
    assert_eq!(derive_primary_connection_pair(&local).unwrap().slug, "loc");
    assert!(derive_primary_connection_pair(&mk_bundle("e", &[])).is_none());
}

fn plan_for(tiers: &TierModels, over: Option<&str>) -> RouterPlan {
    build_router_for_provider(&Connection {
        provider_id: "openai",
        base_url: "http://localhost:0",
        model: "default-model",
        api_key: &Some("test-key".to_string()),
        supports_vision: false,
        supports_documents: false,
        family: "Default",
        tier_models: tiers,
        override_slug: over,
        quirks: &vec![],
    })
}

#[test]
fn override_slug_collapses_every_tier_to_pinned_key() {
    let mut tiers = TierModels::empty();
    tiers.set(ModelProfile::Judges, "cheap-slug".into());
    tiers.set(ModelProfile::Fast, "fast-slug".into());
    tiers.set(ModelProfile::Code, "code-slug".into());
    tiers.set(ModelProfile::Powerful, "powerful-slug".into());
    let router = plan_for(&tiers, Some("kimi-k2.5"));
    let expected = vec!["openai.kimi-k2.5".to_string()];
    for tier in [
        ModelProfile::Judges,
        ModelProfile::Fast,
        ModelProfile::Code,
        ModelProfile::Powerful,
    ] {
        assert_eq!(router.profile_provider_keys(tier), expected);
    }
    assert_eq!(router.instances.len(), 1);
}

#[test]
fn no_override_preserves_tier_models_routing() {
    let mut tiers = TierModels::empty();
    tiers.set(ModelProfile::Judges, "cheap-slug".into());
    tiers.set(ModelProfile::Powerful, "powerful-slug".into());
    let router = plan_for(&tiers, None);
    assert_eq!(
        router.profile_provider_keys(ModelProfile::Judges),
        vec!["openai.cheap-slug".to_string()]
    );
    assert_eq!(
        router.profile_provider_keys(ModelProfile::Powerful),
        vec!["openai.powerful-slug".to_string()]
    );
    assert_eq!(
        router.profile_provider_keys(ModelProfile::Fast),
        vec!["openai.default-model".to_string()]
    );
    assert_eq!(
        router.profile_provider_keys(ModelProfile::Code),
        vec!["openai.default-model".to_string()]
    );
}

#[test]
fn empty_override_slug_treated_as_none() {
    let mut tiers = TierModels::empty();
    tiers.set(ModelProfile::Powerful, "powerful-slug".into());
    let router = plan_for(&tiers, Some(""));
    assert_eq!(
        router.profile_provider_keys(ModelProfile::Powerful),
        vec!["openai.powerful-slug".to_string()]
    );
    assert_eq!(
        router.profile_provider_keys(ModelProfile::Fast),
        vec!["openai.default-model".to_string()]
    );
}

#[test]
fn plans_build_each_model_once() {
    let router = plan_for(&TierModels::empty(), None);
    assert_eq!(router.instances.len(), 1);
    assert_eq!(router.profiles.len(), 4);
    assert_eq!(router.profiles[0].description, "openai Judges");
    assert!(router.profile_provider_keys(ModelProfile::Local).is_empty());
    let i = &router.instances[0].instance;
    assert_eq!(i.adapter, Adapter::OpenAiCompatible);
    assert_eq!(i.model.as_deref(), Some("default-model"));
    assert_eq!(i.api_key.as_deref(), Some("test-key"));
    assert_eq!(tier_label(ModelProfile::Powerful), "Powerful");
}

#[test]
fn configured_connections_take_catalog_defaults() {
    let cfg = mk_config(&[("deepseek", "")]);
    let (plan, model) =
        build_router_for_provider_from_config("deepseek", &cfg, &vec![], &vec![]);
    assert_eq!(model, default_model_for("deepseek"));
    assert_eq!(plan.instances[0].key, format!("deepseek.{model}"));
    let (_, frozen) = build_router_for_provider_from_config_with_pinned_slug(
        "deepseek",
        &cfg,
        Some("x"),
        &vec![],
        &vec![],
    );
    assert_eq!(frozen, "x");
}

#[test]
fn routers_prefer_keys_of_the_environment() {
    let mut cfg = mk_config(&[("deepseek", "deepseek-chat")]);
    cfg.providers[0].config.auth = AuthType::ApiKey("stored".into());
    let env = vec![EnvKey { connection_id: "deepseek".into(), key: "exported".into() }];
    let (plan, _) = build_router_for_provider_from_config("deepseek", &cfg, &env, &vec![]);
    assert_eq!(plan.instances[0].instance.api_key.as_deref(), Some("exported"));
    let (plan, _) = build_router_for_provider_from_config("deepseek", &cfg, &vec![], &vec![]);
    assert_eq!(plan.instances[0].instance.api_key.as_deref(), Some("stored"));
    install_active_bundle(
        &mut cfg,
        mk_bundle("b", &[(ModelProfile::Fast, "deepseek", "ds")]),
    );
    let plan = build_router_for_bundle(&cfg.bundles[0], &cfg, &env, &vec![]);
    assert_eq!(plan.instances[0].instance.api_key.as_deref(), Some("exported"));
}

#[test]
fn bundles_use_the_saved_keys_of_their_connections() {
    let mut cfg = mk_config(&[("openai", "gpt")]);
    cfg.providers[0].config.auth = AuthType::ApiKey("stored".into());
    let env = vec![EnvKey { connection_id: "openai".into(), key: "exported".into() }];
    install_active_bundle(&mut cfg, mk_bundle("b", &[(ModelProfile::Fast, "openai", "g")]));
    let key = |cfg: &ModelsConfig| {
        let plan = build_router_for_bundle(&cfg.bundles[0], cfg, &env, &vec![]);
        plan.instances[0].instance.api_key.clone()
    };
    assert_eq!(key(&cfg).as_deref(), Some("stored"));
    cfg.providers[0].config.auth = AuthType::ApiKey("${OPENAI_API_KEY}".into());
    assert_eq!(key(&cfg).as_deref(), Some("exported"));
    cfg.providers[0].config.auth = AuthType::NoKey;
    assert_eq!(key(&cfg).as_deref(), Some("exported"));
}

#[test]
fn startup_follows_the_active_bundle() {
    let mut cfg = mk_config(&[("deepseek", "deepseek-chat"), ("openai", "gpt")]);
    cfg.active_provider = Some("openai".to_string());
    let (_, provider, model) = build_startup_router(&cfg, &vec![], &vec![]);
    assert_eq!((provider.as_str(), model.as_str()), ("openai", "gpt"));
    install_active_bundle(
        &mut cfg,
        mk_bundle(
            "b",
            &[
                (ModelProfile::Fast, "deepseek", "ds"),
                (ModelProfile::Powerful, "openai", "big"),
                (ModelProfile::Code, "ghost", "none"),
            ],
        ),
    );
    let (plan, provider, model) = build_startup_router(&cfg, &vec![], &vec![]);
    assert_eq!((provider.as_str(), model.as_str()), ("deepseek", "ds"));
    assert_eq!(plan.profile_provider_keys(ModelProfile::Fast), vec!["deepseek.ds".to_string()]);
    assert_eq!(plan.profile_provider_keys(ModelProfile::Powerful), vec!["openai.big".to_string()]);
    // The code tier names a connection that does not exist.
    assert!(plan.profile_provider_keys(ModelProfile::Code).is_empty());
    let again = build_router_for_bundle(&cfg.bundles[0], &cfg, &vec![], &vec![]);
    assert_eq!(again, plan);
}

#[test]
fn arcs_get_their_own_router_where_they_differ() {
    let cfg = mk_config(&[("deepseek", "deepseek-chat")]);
    let shared = EffectiveProviderTarget { provider_id: "deepseek".into(), pinned_slug: None };
    assert!(arc_router_for(&shared, "deepseek", &cfg, &vec![], &vec![]).is_none());
    let frozen = EffectiveProviderTarget {
        provider_id: "deepseek".into(),
        pinned_slug: Some("r1".into()),
    };
    let plan = arc_router_for(&frozen, "deepseek", &cfg, &vec![], &vec![]).unwrap();
    assert_eq!(plan.profile_provider_keys(ModelProfile::Fast), vec!["deepseek.r1".to_string()]);
}

#[test]
fn keys_come_from_environment_then_config() {
    let mut p = mk_provider("m");
    let env = vec![EnvKey { connection_id: "x".into(), key: "from-env".into() }];
    assert_eq!(resolve_api_key_for("x", Some(&p), &env).as_deref(), Some("from-env"));
    p.auth = AuthType::ApiKey("${X_API_KEY}".into());
    assert_eq!(usable_api_key(&p.auth), None);
    assert_eq!(resolve_api_key_for("x", Some(&p), &env).as_deref(), Some("from-env"));
    p.auth = AuthType::ApiKey("sk-1".into());
    assert_eq!(resolve_api_key_for("x", Some(&p), &env).as_deref(), Some("from-env"));
    assert_eq!(resolve_api_key_for("x", Some(&p), &vec![]).as_deref(), Some("sk-1"));
    assert_eq!(saved_api_key_for("x", Some(&p), &env).as_deref(), Some("sk-1"));
    assert_eq!(saved_api_key_for("x", None, &env).as_deref(), Some("from-env"));
    assert_eq!(resolve_api_key_for("y", None, &env), None);
    let empty = vec![EnvKey { connection_id: "x".into(), key: "".into() }];
    assert_eq!(env_key(&empty, "x"), None);
}

#[test]
fn environment_variables_are_in_upper_case() {
    assert_eq!(api_key_env_var("deepseek"), "DEEPSEEK_API_KEY");
    assert_eq!(api_key_env_var("straße"), "STRASSE_API_KEY");
    assert_eq!(env_var_from("X"), "X_API_KEY");
}

#[test]
fn active_provider_defaults_to_deepseek() {
    let mut cfg = mk_config(&[]);
    assert_eq!(resolve_active_provider(&cfg), "deepseek");
    cfg.active_provider = Some(String::new());
    assert_eq!(resolve_active_provider(&cfg), "deepseek");
    cfg.active_provider = Some("google".into());
    assert_eq!(resolve_active_provider(&cfg), "google");
}

#[test]
fn instances_speak_their_providers_protocol() {
    let key = Some("k".to_string());
    let make = |id: &str, url: &str, model: &str| {
        build_provider_instance(id, url, model, &key, true, false, "fam", &vec![])
    };
    let d = make("deepseek", "https://api.deepseek.com", "deepseek-chat");
    assert_eq!(d.adapter, Adapter::DeepSeek);
    assert_eq!((d.model, d.base_url), (None, None));
    let a = make("minimax_anthropic", "https://u", "MiniMax-X");
    assert_eq!(a.adapter, Adapter::Anthropic);
    assert_eq!(a.model.as_deref(), Some("minimax-x"));
    assert_eq!(a.vision, Some(true));
    let plain = make("anthropic", "https://api.anthropic.com", "Sonnet");
    assert_eq!(plain.model.as_deref(), Some("Sonnet"));
    assert_eq!(plain.base_url, None);
    let go = make("opencode_go", "", "MINIMAX-M2.7");
    assert_eq!(go.adapter, Adapter::Anthropic);
    assert_eq!((go.model.as_deref(), go.base_url), (Some("minimax-m2.7"), None));
    assert_eq!(make("opencode_go", "u", "kimi").adapter, Adapter::OpenAiCompatible);
    assert_eq!(make("google", "", "g").adapter, Adapter::Google);
    let o = make("ollama", "http://localhost:11434", "l");
    assert_eq!((o.adapter, o.base_url, o.api_key), (Adapter::Ollama, None, None));
    assert_eq!(make("llamacpp", "u", "l").adapter, Adapter::LlamaCpp);
    let other = build_provider_instance("acme", "u", "m", &None, false, true, "fam", &vec![]);
    assert_eq!((other.adapter, other.api_key), (Adapter::OpenAiCompatible, None));
    let quirks = vec![SlugQuirk {
        provider_id: "acme".into(),
        slug: "m".into(),
        family: "special".into(),
    }];
    let q = build_provider_instance("acme", "u", "m", &None, false, true, "fam", &quirks);
    assert_eq!(q.family, "special");
    let n = build_provider_instance("acme", "u", "n", &None, false, true, "fam", &quirks);
    assert_eq!(n.family, "fam");
}

#[test]
fn catalog_is_coherent() {
    let catalog = list_provider_catalog();
    let ids = known_provider_ids();
    assert_eq!(catalog.len(), ids.len());
    for (entry, id) in catalog.iter().zip(ids.iter()) {
        assert_eq!(&entry.id, id);
        assert_eq!(entry.default_model, default_model_for(id));
        let tiers = default_tier_slugs(id);
        assert_eq!(
            (&entry.default_tier_cheap, &entry.default_tier_fast),
            (&tiers.0, &tiers.1)
        );
        assert_eq!(
            (&entry.default_tier_code, &entry.default_tier_powerful),
            (&tiers.2, &tiers.3)
        );
        assert_eq!(entry.default_base_url, default_base_url(id));
        assert!((2..=4).contains(&entry.setup_steps.len()), "steps of {id}");
        let curated = curated_models(id);
        for (i, (slug, name)) in curated.iter().enumerate() {
            assert!(!slug.is_empty() && !name.is_empty());
            assert!(curated[..i].iter().all(|(other, _)| other != slug));
        }
    }
    assert_eq!(default_model_for("minimax"), "minimax-m2.7");
    assert!(is_local_provider("ollama"));
    assert!(!is_local_provider("openai"));
    assert_eq!(list_curated_models("deepseek").len(), curated_models("deepseek").len());
    assert!(list_curated_models("acme").is_empty());
    assert_eq!(default_base_url_for("acme"), "http://localhost:8080");
    let rows = vec![("Default", "Default family", "")];
    let families = list_model_families(&rows);
    assert_eq!(families.len(), 1);
    assert_eq!(families[0].id, "Default");
    assert_eq!(parse_model_profile("Cheap"), Some(ModelProfile::Judges));
    assert_eq!(parse_model_profile("Judges"), None);
}

#[test]
fn family_ids_spell_slugs_and_names() {
    assert_eq!(slug_of_family("GeminiPro31"), "gemini-pro-3-1");
    assert_eq!(name_of_family("GeminiPro31"), "Gemini Pro 3.1");
    assert_eq!(slug_of_family(""), "");
    assert_eq!(name_of_family("X"), "X");
    let sonnet = default_model_for("anthropic");
    assert_eq!(sonnet.len(), 17);
    assert!(sonnet.ends_with("-sonnet-4-6"));
    let tiers = default_tier_slugs("anthropic");
    assert!(tiers.0.ends_with("-haiku-4-5-20251001"));
    assert!(tiers.3.ends_with("-opus-4-7"));
    let routed = curated_models("openrouter");
    assert!(routed[3].0.starts_with("anthropic/") && routed[3].0.ends_with("-haiku-4-5"));
    assert!(routed[3].1.starts_with("Anthropic ") && routed[3].1.ends_with(" Haiku 4.5"));
}
