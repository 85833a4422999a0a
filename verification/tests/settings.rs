//! Onboarding, provider, channel, attachment and other settings.

use athen_app::attachments::{
    bundles_to_prefixes, get_attachment_policy_settings, mime_bundle_table, prefixes_to_bundles,
    save_attachment_policy_settings, trust_level_from_string, trust_level_to_string,
    AttachmentPolicy, TrustLevel,
};
use athen_app::channel_settings::{
    bot_user_id_from_token, build_email_sender, build_telegram_sender, imap_candidates,
    parse_folders, save_email_settings, save_smtp_settings, save_telegram_settings,
    smtp_candidates, smtp_test_refusal, telegram_candidates, validate_disjoint_from_owner,
    ChannelSave, EmailConfig, EmailSave, SmtpSave, TelegramConfig, TelegramSave,
};
use athen_app::credentials::{
    hydrated_auth, plan_provider_key, plan_secret, vault_failure, vault_state, VaultAction, VaultState,
};
use athen_app::embeddings::{
    build_embedding_router, embedding_mode_name, parse_embedding_mode, save_embedding_settings,
    start_embedder_warmup, warmup_notice, warmup_tier, BundledSupport, EmbeddingChoice,
    EmbeddingConfig, EmbeddingMode, WarmupPhase,
};
use athen_app::github::{
    get_github_identities, load_one_identity, save_github_identity, which_scope, StoredIdentity,
};
use athen_app::models::{
    AuthType, Bundle, BundleTiers, ModelProfile, ModelsConfig, ProviderConfig, ProviderEntry,
    TierModels, Timestamp,
};
use athen_app::notifications::{
    build_notifier, get_notification_settings, init_approval_router, parse_channel_lower,
    save_notification_settings, telegram_owner, NotificationChannelKind, NotificationConfig,
};
use athen_app::onboarding::{
    complete_onboarding, detect_device_capabilities, is_first_launch, is_first_launch_in,
    onboarded_sentinel, InstallTraces,
};
use athen_app::provider_edits::{
    after_activation, after_delete, after_save, assign_fallback_provider, delete_provider, edit_provider, parse_tier_rows, resolve_model,
    resolve_url, save_provider, set_active_provider, ProviderEdit,
};
use athen_app::provider_settings::{
    mask_api_key, provider_config_to_info, wire_tiers,
};
use athen_app::routing::{EnvKey, SecurityMode};
use athen_app::settings::{
    build_web_search_provider, get_settings, migrate_websearch_key,
    parse_security_mode_lower,
    save_settings, save_web_search_settings, MainConfig, SearchSlot, WebSearchConfig,
};
use athen_app::skills_render::{render_skills_block, SkillSummary};
use athen_app::spawn_pidfile::{
    pidfile_path, reconcile_orphans, PidFileEntry, PidFilePersistence, SpawnedProcess,
};

fn text(s: &str) -> String {
    s.to_string()
}

// ── First launch ───────────────────────────────────────────────────────────

fn nothing_there() -> InstallTraces {
    InstallTraces { sentinel: false, models: false, config: false }
}

#[test]
fn empty_dir_is_first_launch() {
    assert!(is_first_launch_in(nothing_there()));
}

#[test]
fn nonexistent_dir_is_first_launch() {
    assert!(is_first_launch_in(nothing_there()));
    // Where not even the place of the directory is known, nothing is shown.
    assert!(is_first_launch(Some(nothing_there())));
    assert!(!is_first_launch(None));
}

#[test]
fn sentinel_suppresses_first_launch() {
    assert!(!is_first_launch_in(InstallTraces { sentinel: true, ..nothing_there() }));
    assert_eq!(onboarded_sentinel(), ".onboarded");
}

#[test]
fn sentinel_suppresses_even_when_models_toml_is_empty() {
    assert!(!is_first_launch_in(InstallTraces { sentinel: true, models: true, config: false }));
}

#[test]
fn existing_provider_in_models_suppresses_onboarding() {
    assert!(!is_first_launch_in(InstallTraces { models: true, ..nothing_there() }));
}

#[test]
fn empty_models_toml_suppresses_onboarding() {
    assert!(!is_first_launch_in(InstallTraces { models: true, ..nothing_there() }));
}

#[test]
fn malformed_models_toml_suppresses_onboarding() {
    assert!(!is_first_launch_in(InstallTraces { models: true, ..nothing_there() }));
}

#[test]
fn config_toml_alone_suppresses_onboarding() {
    assert!(!is_first_launch_in(InstallTraces { config: true, ..nothing_there() }));
}

#[test]
fn mark_onboarded_writes_sentinel() {
    let mut t = nothing_there();
    assert!(complete_onboarding(&mut t));
    assert!(t.sentinel);
}

#[test]
fn mark_onboarded_creates_missing_dir() {
    let mut t = nothing_there();
    assert!(complete_onboarding(&mut t));
    assert!(t.sentinel && !is_first_launch_in(t));
}

#[test]
fn mark_onboarded_is_idempotent() {
    let mut t = nothing_there();
    assert!(complete_onboarding(&mut t));
    assert!(!complete_onboarding(&mut t));
    assert!(!complete_onboarding(&mut t));
    assert!(t.sentinel);
}

#[test]
fn mark_onboarded_does_not_touch_other_files() {
    let mut t = InstallTraces { sentinel: false, models: true, config: true };
    complete_onboarding(&mut t);
    assert_eq!(t, InstallTraces { sentinel: true, models: true, config: true });
}

#[test]
fn completing_onboarding_suppresses_future_prompts() {
    let mut t = nothing_there();
    assert!(is_first_launch_in(t));
    complete_onboarding(&mut t);
    assert!(!is_first_launch_in(t));
    assert!(!is_first_launch_in(t));
}

#[test]
fn returning_user_with_provider_then_marked_onboarded_stays_marked() {
    let mut t = InstallTraces { models: true, ..nothing_there() };
    assert!(!is_first_launch_in(t));
    complete_onboarding(&mut t);
    t.models = false;
    assert!(!is_first_launch_in(t));
}

#[test]
fn device_tiers_follow_memory_and_cores() {
    let gb: u64 = 1_073_741_824;
    let big = detect_device_capabilities(32 * gb, 8, "linux");
    assert_eq!((big.total_ram_gb, big.cpu_cores, big.os), (32, 8, "linux"));
    assert_eq!(big.recommended_tier, "standard");
    assert_eq!(
        big.tier_reason,
        "32 GB RAM and 8 cores — comfortable for a local embedding model."
    );
    let few = detect_device_capabilities(16 * gb, 3, "linux");
    assert_eq!(few.recommended_tier, "small");
    assert_eq!(few.tier_reason, "16 GB RAM — a small embedding model (~80 MB) will run fine.");
    let low = detect_device_capabilities(8 * gb - 1, 16, "linux");
    assert_eq!((low.total_ram_gb, low.recommended_tier), (7, "skip"));
    assert!(low.tier_reason.starts_with("Only 7 GB RAM detected"));
}

// ── Attachment policy ──────────────────────────────────────────────────────

#[test]
fn default_policy_maps_to_all_bundles() {
    let all: Vec<String> = [
        "image/",
        "application/pdf",
        "text/",
        "application/vnd.openxmlformats-officedocument",
        "application/msword",
        "application/vnd.ms-excel",
        "application/vnd.ms-powerpoint",
        "application/json",
        "application/xml",
    ]
    .iter()
    .map(|s| text(s))
    .collect();
    let bundles = prefixes_to_bundles(&all);
    for b in mime_bundle_table() {
        assert!(bundles.iter().any(|x| x == b.id), "bundle {} missing", b.id);
    }
}

#[test]
fn bundles_to_prefixes_expands_full_office_set() {
    let prefixes = bundles_to_prefixes(&vec!["office".to_string()]);
    assert!(prefixes.contains(&"application/msword".to_string()));
    assert!(prefixes
        .iter()
        .any(|p| p.contains("openxmlformats-officedocument")));
    assert_eq!(prefixes.len(), 4, "office bundle expands to 4 prefixes");
}

#[test]
fn bundle_round_trip_preserves_identity() {
    let original = vec!["images".to_string(), "pdfs".to_string()];
    let prefixes = bundles_to_prefixes(&original);
    let back = prefixes_to_bundles(&prefixes);
    assert_eq!(back, original);
}

#[test]
fn unknown_bundle_id_silently_dropped() {
    let prefixes = bundles_to_prefixes(&vec!["images".into(), "banana".into()]);
    assert_eq!(prefixes, vec!["image/".to_string()]);
}

#[test]
fn case_insensitive_prefix_match_for_bundle_detection() {
    let prefixes = vec!["IMAGE/".to_string(), "Application/PDF".to_string()];
    let bundles = prefixes_to_bundles(&prefixes);
    assert!(bundles.iter().any(|b| b == "images"));
    assert!(bundles.iter().any(|b| b == "pdfs"));
}

#[test]
fn trust_level_round_trip() {
    for tl in [
        TrustLevel::Unknown,
        TrustLevel::Neutral,
        TrustLevel::Known,
        TrustLevel::Trusted,
        TrustLevel::AuthUser,
    ] {
        let s = trust_level_to_string(tl);
        assert_eq!(trust_level_from_string(s), Some(tl), "round-trip for {s}");
    }
}

#[test]
fn trust_level_unknown_string_is_none() {
    assert!(trust_level_from_string("Banana").is_none());
    assert!(trust_level_from_string("").is_none());
}

#[test]
fn policies_are_shown_in_megabytes() {
    let p = AttachmentPolicy {
        mime_allowlist: vec![text("image/"), text("text/csv")],
        max_attachment_bytes: 5 * 1024 * 1024,
        max_event_bytes: 50 * 1024 * 1024 + 1,
        min_inline_trust: TrustLevel::Trusted,
        min_download_trust: TrustLevel::Neutral,
        byte_ttl_days: 7,
    };
    let s = get_attachment_policy_settings(&p);
    assert_eq!(s.mime_bundles, vec![text("images")]);
    assert_eq!((s.max_attachment_mb, s.max_event_mb, s.byte_ttl_days), (5, 50, 7));
    assert_eq!(s.min_inline_trust, "Trusted");
    assert_eq!(s.min_download_trust, "Neutral");
}

#[test]
fn saved_policies_are_checked() {
    let images = vec![text("images")];
    let save = |ids: &Vec<String>, a: u64, e: u64, i: &str, d: &str, ttl: u32| {
        save_attachment_policy_settings(ids, a, e, i, d, ttl)
    };
    let p = save(&images, 5, 50, "Trusted", "Known", 7).unwrap();
    assert_eq!(p.max_attachment_bytes, 5 * 1024 * 1024);
    assert_eq!(p.mime_allowlist, vec![text("image/")]);
    assert_eq!(p.min_download_trust, TrustLevel::Known);
    let refused = |r: Result<AttachmentPolicy, String>| r.unwrap_err();
    assert!(refused(save(&vec![text("x")], 5, 50, "Known", "Known", 7)).starts_with("Pick at least one"));
    assert_eq!(refused(save(&images, 5, 50, "?", "Known", 7)), "Invalid min_inline_trust: ?");
    assert_eq!(refused(save(&images, 5, 50, "Known", "!", 7)), "Invalid min_download_trust: !");
    assert!(refused(save(&images, 5, 50, "Neutral", "Known", 7)).starts_with("Inline trust must"));
    assert!(refused(save(&images, 6, 5, "Known", "Known", 7)).starts_with("Per-message total"));
    assert!(refused(save(&images, 5, 5, "Known", "Known", 0)).starts_with("TTL must be"));
    let huge = save(&images, u64::MAX, u64::MAX, "Known", "Known", 1).unwrap();
    assert_eq!(huge.max_event_bytes, u64::MAX);
}

// ── Channels ───────────────────────────────────────────────────────────────

fn pair(kind: &str, value: &str) -> (String, String) {
    (text(kind), text(value))
}

#[test]
fn validate_disjoint_returns_human_error_on_email_conflict() {
    let candidates = vec![pair("email", "ALEX@example.com")];
    let conflicts = vec![pair("email", "alex@example.com")];
    let err = validate_disjoint_from_owner(true, &candidates, &conflicts).unwrap_err();
    assert!(err.contains("Conflicts with owner contact"), "got: {err}");
    assert!(err.contains("alex@example.com"), "got: {err}");
}

#[test]
fn validate_disjoint_passes_when_no_overlap() {
    let candidates = vec![pair("email", "athen-bot@example.com")];
    assert!(validate_disjoint_from_owner(true, &candidates, &vec![]).is_ok());
}

#[test]
fn validate_disjoint_passes_when_no_owner_set() {
    let candidates = vec![pair("email", "anybody@example.com")];
    assert!(validate_disjoint_from_owner(false, &candidates, &candidates).is_ok());
    assert!(validate_disjoint_from_owner(true, &vec![], &candidates).is_ok());
}

#[test]
fn validate_disjoint_telegram_user_conflict() {
    let candidates = vec![pair("telegram_user", "987654321")];
    let err = validate_disjoint_from_owner(true, &candidates, &candidates).unwrap_err();
    assert!(err.contains("telegram_user=987654321"), "got: {err}");
    let two = vec![pair("a", "1"), pair("b", "2")];
    assert_eq!(
        validate_disjoint_from_owner(true, &two, &two).unwrap_err(),
        "Conflicts with owner contact: a=1, b=2 (cannot be both you and Athen's identity)"
    );
}

#[test]
fn bot_user_id_parses_valid_token() {
    let id = bot_user_id_from_token("123456789:ABCDEF-some-base64ish_payload");
    assert_eq!(id.as_deref(), Some("123456789"));
}

#[test]
fn bot_user_id_rejects_malformed_token() {
    assert!(bot_user_id_from_token("not-a-token").is_none());
    assert!(bot_user_id_from_token("abc:def").is_none());
}

#[test]
fn bot_user_id_rejects_empty_string() {
    assert!(bot_user_id_from_token("").is_none());
}

#[test]
fn bot_user_ids_are_numbers() {
    assert_eq!(bot_user_id_from_token("007:x:y").as_deref(), Some("7"));
    assert!(bot_user_id_from_token("+007:x:y").is_none());
    assert!(bot_user_id_from_token("-5:x").is_none());
    assert!(bot_user_id_from_token("7").is_none());
    assert_eq!(bot_user_id_from_token("9223372036854775807:x").as_deref(), Some("9223372036854775807"));
    assert!(bot_user_id_from_token("9223372036854775808:x").is_none());
    assert!(bot_user_id_from_token(":x").is_none());
    assert!(bot_user_id_from_token(" 1:x").is_none());
}

fn email() -> EmailConfig {
    EmailConfig {
        enabled: true,
        imap_server: text("imap.x"),
        imap_port: 993,
        username: text(" Bot@Example.com "),
        password: text("old"),
        use_tls: true,
        folders: vec![text("INBOX"), text("Work")],
        poll_interval_secs: 60,
        lookback_hours: 24,
        smtp_server: text("smtp.x"),
        smtp_port: 587,
        smtp_username: text("bot"),
        smtp_password: text("smtp-old"),
        smtp_use_tls: true,
        from_address: text("Bot@Example.com"),
    }
}

fn telegram() -> TelegramConfig {
    TelegramConfig {
        enabled: true,
        bot_token: text("77:secret"),
        allowed_chat_ids: vec![1, 2],
        poll_interval_secs: 2,
        owner_user_id: Some(9),
    }
}

#[test]
fn claimed_identifiers_are_normalised() {
    assert_eq!(imap_candidates(" Bot@Example.com "), vec![pair("email", "bot@example.com")]);
    assert_eq!(smtp_candidates("Bot@Example.com", "bot"), vec![pair("email", "bot@example.com")]);
    assert_eq!(
        smtp_candidates("Bot@Example.com", "S@x"),
        vec![pair("email", "bot@example.com"), pair("email", "s@x")]
    );
    let bot = vec![pair("telegram_user", "77")];
    assert_eq!(telegram_candidates(&Some(text("77:x")), &VaultState::Empty, ""), bot);
    assert_eq!(telegram_candidates(&None, &VaultState::Empty, "77:secret"), bot);
    assert_eq!(
        telegram_candidates(&None, &VaultState::Holding(text("8:x")), "77:secret"),
        vec![pair("telegram_user", "8")]
    );
    assert!(telegram_candidates(&None, &VaultState::Empty, "").is_empty());
}

#[test]
fn folders_are_split_at_commas() {
    assert_eq!(parse_folders(" INBOX , ,Work,"), vec![text("INBOX"), text("Work")]);
    assert!(parse_folders("").is_empty());
}

fn imap_save() -> EmailSave {
    EmailSave {
        enabled: false,
        imap_server: text("i2"),
        imap_port: 143,
        username: text("Me@x"),
        password: Some(text("new")),
        use_tls: false,
        folders: text("A, B"),
        poll_interval_secs: 5,
        lookback_hours: 1,
    }
}

fn smtp_save() -> SmtpSave {
    SmtpSave {
        smtp_server: text("s2"),
        smtp_port: 25,
        smtp_username: text("su"),
        smtp_password: None,
        smtp_use_tls: false,
        from_address: text("f@x"),
    }
}

fn telegram_save() -> TelegramSave {
    TelegramSave {
        enabled: false,
        bot_token: Some(String::new()),
        allowed_chat_ids: vec![5],
        poll_interval_secs: None,
    }
}

fn saved(vault: VaultAction) -> ChannelSave {
    ChannelSave { vault, refusal: None }
}

#[test]
fn email_saves_move_passwords_to_the_vault() {
    let mut c = email();
    let action = save_email_settings(&mut c, imap_save(), &VaultState::Empty, true, &vec![]);
    assert_eq!(action, saved(VaultAction::Store(text("new"))));
    assert_eq!(c.password, "");
    assert_eq!(c.folders, vec![text("A"), text("B")]);
    assert_eq!(c.smtp_password, "smtp-old");
    let action = save_smtp_settings(&mut c, smtp_save(), &VaultState::Empty, true, &vec![]);
    assert_eq!(action, saved(VaultAction::Migrate(text("smtp-old"))));
    assert_eq!((c.smtp_password.as_str(), c.imap_port), ("", 143));
}

#[test]
fn telegram_saves_keep_the_owner() {
    let mut c = telegram();
    let action = save_telegram_settings(&mut c, telegram_save(), &VaultState::Empty, true, &vec![]);
    assert_eq!(action, saved(VaultAction::Nothing));
    assert_eq!(c.bot_token, "77:secret");
    assert_eq!((c.enabled, c.poll_interval_secs, c.owner_user_id), (false, 2, Some(9)));
    assert_eq!(c.allowed_chat_ids, vec![5]);
}

#[test]
fn saves_refuse_what_the_owner_has() {
    let mail = vec![pair("email", "me@x")];
    let user = vec![pair("telegram_user", "77")];
    let refused = "Conflicts with owner contact: email=me@x (cannot be both you and Athen's identity)";
    let empty = VaultState::Empty;
    let mut c = email();
    // The vault takes the secret before the claims are looked at.
    let r = save_email_settings(&mut c, imap_save(), &empty, true, &mail);
    assert_eq!(r.refusal.as_deref(), Some(refused));
    assert_eq!(r.vault, VaultAction::Store(text("new")));
    let r = save_smtp_settings(&mut c, smtp_save(), &empty, true, &mail);
    assert_eq!(r.refusal.as_deref(), Some(refused));
    assert_eq!(r.vault, VaultAction::Migrate(text("smtp-old")));
    assert_eq!(c, email());
    let mut t = telegram();
    let save = TelegramSave { bot_token: Some(text("77:x")), ..telegram_save() };
    let r = save_telegram_settings(&mut t, save, &empty, true, &user);
    assert_eq!(
        r.refusal.as_deref(),
        Some("Conflicts with owner contact: telegram_user=77 (cannot be both you and Athen's identity)")
    );
    assert_eq!(r.vault, VaultAction::Store(text("77:x")));
    assert_eq!(t, telegram());
    // Without an identifier of the owner there is nothing to conflict with.
    assert_eq!(save_email_settings(&mut c, imap_save(), &empty, false, &mail).refusal, None);
    // Nor without a claim.
    let nameless = EmailSave { username: text(" "), ..imap_save() };
    assert_eq!(save_email_settings(&mut c, nameless, &empty, true, &mail).refusal, None);
}

#[test]
fn senders_need_what_they_send_with() {
    assert!(build_email_sender(&email()));
    assert!(!build_email_sender(&EmailConfig { smtp_server: text("  "), ..email() }));
    assert!(!build_email_sender(&EmailConfig { from_address: text(""), ..email() }));
    assert_eq!(build_telegram_sender(&telegram(), Some(4)), Some(Some(4)));
    assert_eq!(build_telegram_sender(&telegram(), None), Some(Some(9)));
    assert_eq!(
        build_telegram_sender(&TelegramConfig { enabled: false, ..telegram() }, Some(4)),
        None
    );
    assert_eq!(smtp_test_refusal(" ", "x").as_deref(), Some("SMTP server required"));
    assert_eq!(smtp_test_refusal("s", "").as_deref(), Some("From address required"));
    assert_eq!(smtp_test_refusal("s", "f"), None);
}

// ── Secrets ────────────────────────────────────────────────────────────────

#[test]
fn secrets_go_to_the_vault() {
    let held = VaultState::Holding(text("v"));
    let p = plan_secret(Some(text("n")), &VaultState::Absent, "old", true);
    assert_eq!((p.on_disk.as_str(), p.action), ("n", VaultAction::Nothing));
    let p = plan_secret(Some(text("n")), &held, "old", true);
    assert_eq!((p.on_disk.as_str(), p.action), ("", VaultAction::Store(text("n"))));
    let p = plan_secret(Some(String::new()), &held, "old", true);
    assert_eq!((p.on_disk.as_str(), p.action), ("", VaultAction::Delete));
    let p = plan_secret(Some(String::new()), &held, "old", false);
    assert_eq!((p.on_disk.as_str(), p.action), ("old", VaultAction::Nothing));
    let p = plan_secret(None, &VaultState::Empty, "old", true);
    assert_eq!((p.on_disk.as_str(), p.action), ("", VaultAction::Migrate(text("old"))));
    let p = plan_secret(None, &held, "old", true);
    assert_eq!((p.on_disk.as_str(), p.action), ("", VaultAction::Nothing));
    let p = plan_secret(None, &VaultState::Absent, "old", true);
    assert_eq!((p.on_disk.as_str(), p.action), ("old", VaultAction::Nothing));
}

#[test]
fn empty_vault_entries_count_as_none() {
    assert_eq!(vault_state(None), VaultState::Absent);
    assert_eq!(vault_state(Some(None)), VaultState::Empty);
    assert_eq!(vault_state(Some(Some(String::new()))), VaultState::Empty);
    assert_eq!(vault_state(Some(Some(text("x")))), VaultState::Holding(text("x")));
}

#[test]
fn vault_failures_name_what_failed() {
    assert_eq!(
        vault_failure(&VaultAction::Store(text("x")), "IMAP password", "io").as_deref(),
        Some("Vault store IMAP password: io")
    );
    assert_eq!(
        vault_failure(&VaultAction::Migrate(text("x")), "bot token", "io").as_deref(),
        Some("Vault migrate bot token: io")
    );
    assert_eq!(vault_failure(&VaultAction::Delete, "x", "io"), None);
}

#[test]
fn provider_keys_leave_the_disk() {
    let on_disk = AuthType::ApiKey(text("k"));
    let p = plan_provider_key(None, &VaultState::Empty, &on_disk);
    assert_eq!(p.auth, AuthType::NoKey);
    assert_eq!(p.effective_key.as_deref(), Some("k"));
    assert_eq!(p.action, VaultAction::Migrate(text("k")));
    let p = plan_provider_key(None, &VaultState::Absent, &on_disk);
    assert_eq!((p.auth, p.action), (on_disk.clone(), VaultAction::Nothing));
    let p = plan_provider_key(None, &VaultState::Holding(text("v")), &on_disk);
    assert_eq!((p.auth, p.effective_key.as_deref()), (AuthType::NoKey, Some("v")));
    let p = plan_provider_key(Some(String::new()), &VaultState::Empty, &on_disk);
    assert_eq!((p.auth, p.effective_key, p.action), (AuthType::NoKey, None, VaultAction::Delete));
    let p = plan_provider_key(Some(text("n")), &VaultState::Empty, &on_disk);
    assert_eq!((p.auth, p.action), (AuthType::NoKey, VaultAction::Store(text("n"))));
    let p = plan_provider_key(Some(text("n")), &VaultState::Absent, &on_disk);
    assert_eq!(p.auth, AuthType::ApiKey(text("n")));
}

// ── Providers ──────────────────────────────────────────────────────────────

fn provider(model: &str) -> ProviderConfig {
    ProviderConfig {
        auth: AuthType::NoKey,
        default_model: text(model),
        endpoint: None,
        context_window_tokens: 128_000,
        compaction_trigger_pct: 65,
        compaction_target_pct: 30,
        supports_vision: false,
        supports_documents: false,
        family: text("Default"),
        temperature: None,
        tier_models: TierModels::empty(),
    }
}

fn models(ids: &[&str]) -> ModelsConfig {
    ModelsConfig {
        providers: ids
            .iter()
            .map(|id| ProviderEntry { id: text(id), config: provider("m") })
            .collect(),
        bundles: vec![],
        active_bundle: None,
        active_provider: None,
    }
}

fn edit(id: &str) -> ProviderEdit {
    ProviderEdit {
        id: text(id),
        base_url: String::new(),
        model: text("new-model"),
        auth: AuthType::NoKey,
        supports_vision: None,
        supports_documents: None,
        family: None,
        context_window_tokens: None,
        compaction_trigger_pct: None,
        compaction_target_pct: None,
        temperature: None,
        tier_models: None,
    }
}

#[test]
fn keys_are_masked() {
    assert_eq!(mask_api_key(""), "");
    assert_eq!(mask_api_key("abcd"), "****");
    assert_eq!(mask_api_key("sk-1234567890"), "...7890");
    assert_eq!(mask_api_key("xx-9997890"), "...7890");
    assert_eq!(mask_api_key("abcde"), "...bcde");
    // Characters are never cut, and few of them are hidden whatever their size.
    assert_eq!(mask_api_key("aé-123456é90"), "...6é90");
    assert_eq!(mask_api_key("éé"), "****");
    assert_eq!(mask_api_key("ééé"), "******");
}

#[test]
fn providers_are_shown() {
    let env = vec![EnvKey { connection_id: text("openai"), key: text("sk-env-123456") }];
    let mut p = provider("");
    p.tier_models.set(ModelProfile::Judges, text("small"));
    let info = provider_config_to_info("openai", &p, "openai", &env);
    assert_eq!((info.name.as_str(), info.provider_type.as_str()), ("OpenAI", "cloud"));
    assert_eq!(info.base_url, "https://api.openai.com");
    assert_eq!(info.model, "gpt-5.4-mini");
    assert!(info.has_api_key && info.is_active);
    assert_eq!(info.api_key_hint, "...3456  (env)");
    assert_eq!(info.tier_models, vec![pair("Cheap", "small")]);
    let none = provider_config_to_info("acme", &provider("m"), "openai", &env);
    assert!(!none.has_api_key && !none.is_active);
    assert_eq!((none.name.as_str(), none.api_key_hint.as_str()), ("acme", ""));
    assert!(wire_tiers(&TierModels::empty()).is_empty());
}

#[test]
fn edits_clamp_and_keep() {
    let families = vec![text("Default"), text("Special")];
    let mut e = edit("openai");
    e.base_url = text("https://api.openai.com");
    e.compaction_trigger_pct = Some(0);
    e.compaction_target_pct = Some(200);
    e.context_window_tokens = Some(0);
    e.family = Some(text("Special"));
    let mut old = provider("m");
    old.context_window_tokens = 9;
    let c = edit_provider(&e, &families, Some(&old));
    assert_eq!((c.compaction_target_pct, c.compaction_trigger_pct), (100, 100));
    assert_eq!((c.context_window_tokens, c.endpoint.clone()), (9, None));
    assert_eq!(c.family, "Special");
    let mut e = edit("openai");
    e.base_url = text("http://mine");
    e.compaction_target_pct = Some(70);
    e.family = Some(text("Nope"));
    let c = edit_provider(&e, &families, None);
    assert_eq!((c.compaction_target_pct, c.compaction_trigger_pct), (70, 71));
    assert_eq!((c.context_window_tokens, c.endpoint.as_deref()), (128_000, Some("http://mine")));
    assert_eq!(c.family, "Default");
}

#[test]
fn tier_rows_drop_blanks_and_unknowns() {
    let t = parse_tier_rows(&vec![
        pair("Cheap", "a"),
        pair("Fast", "  "),
        pair("Huge", "x"),
        pair("Cheap", "b"),
        pair("Cheap", ""),
    ]);
    assert_eq!(t.judges.as_deref(), Some("b"));
    assert_eq!((t.fast, t.code, t.powerful, t.local), (None, None, None, None));
}

#[test]
fn saving_edits_in_place_or_adds() {
    let mut m = models(&["a", "b"]);
    save_provider(&mut m, &edit("b"), &vec![]);
    assert_eq!(m.providers.len(), 2);
    assert_eq!(m.providers[1].config.default_model, "new-model");
    assert_eq!(m.providers[0].config.default_model, "m");
    save_provider(&mut m, &edit("c"), &vec![]);
    assert_eq!(m.providers[2].id, "c");
}

#[test]
fn saving_the_active_provider_reloads_it() {
    let p = provider("m");
    let other = after_save("openai", "", "", &None, &p, "deepseek", &vec![], &vec![]);
    assert!(other.router.is_none());
    assert_eq!(other.message, "Provider saved.");
    let env = vec![EnvKey { connection_id: text("openai"), key: text("k") }];
    let mine = after_save("openai", "", "", &None, &p, "openai", &env, &vec![]);
    assert_eq!(mine.message, "Provider saved and activated (OpenAI / gpt-5.4-mini).");
    let (plan, model) = mine.router.unwrap();
    assert_eq!(model, "gpt-5.4-mini");
    assert_eq!(plan.instances[0].instance.api_key.as_deref(), Some("k"));
    assert_eq!(resolve_url("openai", "u"), "u");
    assert_eq!(resolve_model("openai", "m"), "m");
}

#[test]
fn used_providers_stay() {
    let mut m = models(&["a", "b"]);
    let mut tiers =
        BundleTiers { judges: None, fast: None, code: None, powerful: None, local: None };
    tiers.code = Some(athen_app::models::BundleTier { connection_id: text("a"), slug: text("s") });
    let at = Timestamp { secs: 0, nanos: 0 };
    m.bundles.push(Bundle {
        id: text("1"),
        name: text("Main"),
        created_at: at,
        updated_at: at,
        tiers,
    });
    assert_eq!(
        delete_provider(&mut m, "a", true).unwrap_err(),
        "Cannot delete 'a' — referenced by Bundle(s): Main. Edit those Bundles to point at a different Connection first."
    );
    assert_eq!(delete_provider(&mut m, "x", true).unwrap_err(), "Provider 'x' not found.");
    assert_eq!(m.providers.len(), 2);
    assert_eq!(delete_provider(&mut m, "b", true), Ok(VaultAction::Delete));
    assert_eq!(m.providers.len(), 1);
    assert!(m.provider("b").is_none());
    let mut other = models(&["b"]);
    assert_eq!(delete_provider(&mut other, "b", false), Ok(VaultAction::Nothing));
}

#[test]
fn deletion_moves_the_assignment_on() {
    let mut m = models(&["openai", "b"]);
    m.active_provider = Some(text("b"));
    delete_provider(&mut m, "b", true).unwrap();
    assign_fallback_provider(&mut m);
    assert_eq!(m.active_provider.as_deref(), Some("openai"));
    let mut none = models(&[]);
    assign_fallback_provider(&mut none);
    assert_eq!(none.active_provider.as_deref(), Some("deepseek"));
}

#[test]
fn deleting_the_active_provider_switches() {
    let m = models(&["openai"]);
    let quiet = after_delete(&m, "b", "openai", &vec![], &vec![]);
    assert!(quiet.switched.is_none());
    assert_eq!(quiet.message, "Provider 'b' deleted.");
    let loud = after_delete(&m, "b", "b", &vec![], &vec![]);
    assert_eq!(loud.message, "Provider 'b' deleted. Switched to OpenAI.");
    assert_eq!(loud.switched.unwrap().0, "openai");
    let none = after_delete(&models(&[]), "b", "b", &vec![], &vec![]);
    let (id, model, _) = none.switched.unwrap();
    assert_eq!((id.as_str(), model.as_str()), ("deepseek", "deepseek-v4-flash"));
}

#[test]
fn activation_refreshes_one_bundle() {
    let mut m = models(&["openai", "ollama"]);
    let first = Timestamp { secs: 1, nanos: 0 };
    let later = Timestamp { secs: 2, nanos: 0 };
    assert_eq!(
        set_active_provider(&mut m, "openai", &VaultState::Empty, &vec![], first, text("f1")).unwrap_err(),
        "No API key found for 'openai'. Set OPENAI_API_KEY env var or configure a key first."
    );
    assert_eq!(
        set_active_provider(&mut m, "x", &VaultState::Empty, &vec![], first, text("f1")).unwrap_err(),
        "Provider 'x' not found in config."
    );
    assert_eq!(
        set_active_provider(&mut m, "ollama", &VaultState::Empty, &vec![], first, text("f1")).unwrap(),
        "Switched to Ollama"
    );
    assert_eq!(m.active_bundle.as_deref(), Some("f1"));
    assert_eq!(m.active_provider.as_deref(), Some("ollama"));
    assert_eq!(m.bundles[0].tiers.fast.as_ref().unwrap().slug, "m");
    assert!(m.bundles[0].tiers.local.is_none());
    set_active_provider(&mut m, "ollama", &VaultState::Empty, &vec![], later, text("f2")).unwrap();
    assert_eq!(m.bundles.len(), 1);
    assert_eq!((m.bundles[0].created_at, m.bundles[0].updated_at), (first, later));
    assert_eq!(m.active_bundle.as_deref(), Some("f1"));
}

#[test]
fn activation_finds_keys_in_the_vault() {
    let mut m = models(&["openai"]);
    let at = Timestamp { secs: 1, nanos: 0 };
    let held = VaultState::Holding(text("sk"));
    set_active_provider(&mut m, "openai", &held, &vec![], at, text("f1")).unwrap();
    // The key stays in the vault: what is stored has none.
    assert_eq!(m.providers[0].config.auth, AuthType::NoKey);
    let mut hydrated = m.clone();
    hydrated.providers[0].config.auth = hydrated_auth(&held, &m.providers[0].config.auth);
    let out = after_activation(&hydrated, &vec![], &vec![]).unwrap();
    assert_eq!(out.active, Some((text("openai"), text("m"))));
    assert!(!out.router.instances.is_empty());
    for e in &out.router.instances {
        assert_eq!(e.instance.api_key.as_deref(), Some("sk"));
    }
    assert!(after_activation(&models(&["openai"]), &vec![], &vec![]).is_none());
}

// ── Embeddings ─────────────────────────────────────────────────────────────

fn embedding(mode: EmbeddingMode) -> EmbeddingConfig {
    EmbeddingConfig { mode, provider: None, model: None, base_url: None, api_key: None }
}

#[test]
fn embedding_modes_are_read_back() {
    for m in [
        EmbeddingMode::Off,
        EmbeddingMode::Automatic,
        EmbeddingMode::Cloud,
        EmbeddingMode::LocalOnly,
        EmbeddingMode::Specific,
    ] {
        assert_eq!(parse_embedding_mode(&embedding_mode_name(&m)), m);
    }
    assert_eq!(parse_embedding_mode("whatever"), EmbeddingMode::Automatic);
    assert_eq!(
        embedding_mode_name(&EmbeddingMode::Bundled(text("Light"))),
        "Bundled { tier: Light }"
    );
}

#[test]
fn embedding_providers_are_tried_in_order() {
    let all = BundledSupport { usable: true, light_downloaded: true };
    let none = BundledSupport { usable: false, light_downloaded: false };
    assert!(build_embedding_router(&embedding(EmbeddingMode::Off), all).is_empty());
    assert!(build_embedding_router(&embedding(EmbeddingMode::Cloud), all).is_empty());
    let ollama = EmbeddingChoice::Ollama { model: text("nomic-embed-text"), base_url: None };
    let bundled = EmbeddingChoice::Bundled { tier: text("Light") };
    assert_eq!(
        build_embedding_router(&embedding(EmbeddingMode::Automatic), all),
        vec![ollama.clone(), bundled.clone()]
    );
    let mut keyed = embedding(EmbeddingMode::Automatic);
    keyed.api_key = Some(text("k"));
    let cloud = EmbeddingChoice::OpenAi {
        base_url: None,
        api_key: Some(text("k")),
        model: None,
        provider_id: None,
    };
    assert_eq!(build_embedding_router(&keyed, none), vec![ollama.clone(), cloud]);
    assert_eq!(
        build_embedding_router(&embedding(EmbeddingMode::LocalOnly), all),
        vec![ollama.clone()]
    );
    assert_eq!(
        build_embedding_router(&embedding(EmbeddingMode::Bundled(text("Light"))), all),
        vec![bundled]
    );
    assert!(build_embedding_router(&embedding(EmbeddingMode::Bundled(text("L"))), none).is_empty());
    let mut specific = embedding(EmbeddingMode::Specific);
    assert!(build_embedding_router(&specific, all).is_empty());
    specific.provider = Some(text("ollama"));
    assert_eq!(build_embedding_router(&specific, all), vec![ollama]);
    specific.provider = Some(text("acme"));
    assert_eq!(
        build_embedding_router(&specific, all),
        vec![EmbeddingChoice::OpenAi {
            base_url: Some(text("http://localhost:8080")),
            api_key: None,
            model: None,
            provider_id: Some(text("acme")),
        }]
    );
}

#[test]
fn embedding_saves_treat_empty_as_absent() {
    let mut c = embedding(EmbeddingMode::Off);
    c.api_key = Some(text("old"));
    let a = save_embedding_settings(
        &mut c,
        "Cloud",
        Some(String::new()),
        Some(text("m")),
        None,
        None,
        &VaultState::Empty,
    );
    assert_eq!(a, VaultAction::Migrate(text("old")));
    assert_eq!((c.mode.clone(), c.provider.clone(), c.api_key.clone()), (EmbeddingMode::Cloud, None, None));
    assert_eq!(c.model.as_deref(), Some("m"));
    let a = save_embedding_settings(
        &mut c,
        "Off",
        None,
        None,
        None,
        Some(text("n")),
        &VaultState::Absent,
    );
    assert_eq!((a, c.api_key.as_deref()), (VaultAction::Nothing, Some("n")));
}

#[test]
fn warmup_downloads_what_is_missing() {
    let auto = embedding(EmbeddingMode::Automatic);
    assert_eq!(warmup_tier(&auto).as_deref(), Some("Light"));
    assert_eq!(start_embedder_warmup(&auto, true, false).as_deref(), Some("Light"));
    assert_eq!(start_embedder_warmup(&auto, true, true), None);
    assert_eq!(start_embedder_warmup(&auto, false, false), None);
    let mut keyed = embedding(EmbeddingMode::Automatic);
    keyed.api_key = Some(text("k"));
    assert_eq!(warmup_tier(&keyed), None);
    assert_eq!(warmup_tier(&embedding(EmbeddingMode::Cloud)), None);
    assert_eq!(
        warmup_tier(&embedding(EmbeddingMode::Bundled(text("Full")))).as_deref(),
        Some("Full")
    );
    assert_eq!(
        warmup_notice(&WarmupPhase::Failed("io")),
        pair("failed", "Local memory setup failed: io")
    );
    assert_eq!(warmup_notice(&WarmupPhase::Starting), pair("starting", "Setting up local memory…"));
    assert_eq!(warmup_notice(&WarmupPhase::Complete), pair("complete", "Local memory ready."));
}

// ── Notifications ──────────────────────────────────────────────────────────

#[test]
fn channel_names_are_read_in_any_case() {
    let save = |names: Vec<String>| {
        save_notification_settings(&names, 60, false, None, None, None, None, None)
    };
    let both = vec![NotificationChannelKind::InApp, NotificationChannelKind::Telegram];
    assert_eq!(save(vec![text("TELEGRAM"), text("In_App"), text("fax")]).preferred_channels, vec![
        NotificationChannelKind::Telegram,
        NotificationChannelKind::InApp
    ]);
    assert_eq!(save(vec![text("fax")]).preferred_channels, both);
    assert_eq!(parse_channel_lower("inapp"), Some(NotificationChannelKind::InApp));
    assert_eq!(parse_channel_lower("InApp"), None);
    let shown = get_notification_settings(&NotificationConfig {
        preferred_channels: both.clone(),
        escalation_timeout_secs: 60,
        quiet_hours: None,
    });
    assert_eq!(save(shown.preferred_channels).preferred_channels, both);
}

#[test]
fn quiet_hours_have_defaults() {
    let c = save_notification_settings(&vec![], 60, true, Some(23), None, None, Some(30), None);
    let q = c.quiet_hours.unwrap();
    assert_eq!((q.start_hour, q.start_minute, q.end_hour, q.end_minute), (23, 0, 8, 30));
    assert!(q.allow_critical);
    let shown = get_notification_settings(&NotificationConfig {
        preferred_channels: vec![NotificationChannelKind::Telegram],
        escalation_timeout_secs: 3,
        quiet_hours: None,
    });
    assert!(!shown.quiet_hours_enabled);
    assert_eq!((shown.quiet_start_hour, shown.quiet_end_hour), (22, 8));
    assert_eq!(shown.preferred_channels, vec![text("Telegram")]);
}

#[test]
fn notifications_use_reachable_channels() {
    let t = NotificationChannelKind::Telegram;
    let a = NotificationChannelKind::InApp;
    let off = TelegramConfig { enabled: false, ..telegram() };
    assert_eq!(build_notifier(true, &telegram(), &vec![t, a]), vec![t, a]);
    assert_eq!(build_notifier(true, &telegram(), &vec![t]), vec![t, a]);
    assert_eq!(build_notifier(true, &telegram(), &vec![]), vec![a, t]);
    assert_eq!(build_notifier(true, &off, &vec![t]), vec![a]);
    assert_eq!(build_notifier(false, &telegram(), &vec![]), vec![t]);
    assert!(build_notifier(false, &off, &vec![a]).is_empty());
    assert_eq!(telegram_owner(&telegram()), Some(9));
    assert_eq!(telegram_owner(&TelegramConfig { bot_token: text(""), ..telegram() }), None);
    let plan = init_approval_router(false, true, &telegram(), 5);
    assert!(plan.in_app);
    assert_eq!((plan.telegram_owner, plan.escalation_secs), (Some(9), 15));
    assert_eq!(init_approval_router(false, false, &off, 90).escalation_secs, 90);
}

// ── GitHub ─────────────────────────────────────────────────────────────────

#[test]
fn github_identities_are_saved_in_order() {
    assert_eq!(which_scope("bot").unwrap(), "github:bot");
    assert!(which_scope("x").unwrap_err().starts_with("Unknown GitHub identity 'x'"));
    let s = save_github_identity("user", Some(text("t")), text("n"), text("e"), true).unwrap();
    assert_eq!(s.scope, "github:user");
    let keys: Vec<(&str, Option<&str>)> =
        s.writes.iter().map(|w| (w.key, w.value.as_deref())).collect();
    assert_eq!(keys, vec![("token", Some("t")), ("user_name", Some("n")), ("user_email", Some("e"))]);
    assert_eq!(s.message, "user identity saved.");
    let s = save_github_identity("bot", Some(text("")), text("n"), text("e"), true).unwrap();
    assert_eq!((s.writes[0].value.as_deref(), s.writes[0].failure), (None, "Clear token: "));
    let s = save_github_identity("bot", None, text("n"), text("e"), true).unwrap();
    assert_eq!(s.writes.len(), 2);
    assert!(save_github_identity("bot", None, text("n"), text("e"), false)
        .err()
        .unwrap()
        .starts_with("Vault not available"));
}

#[test]
fn github_identities_hide_the_token() {
    let stored = StoredIdentity {
        token: Some(text("t")),
        user_name: None,
        user_email: Some(text("e")),
    };
    let shown = get_github_identities(Some(stored), None);
    assert!(shown.bot.has_token && !shown.user.has_token);
    assert_eq!((shown.bot.user_name.as_str(), shown.bot.user_email.as_str()), ("", "e"));
    assert!(!load_one_identity(None).has_token);
}

// ── The settings page ──────────────────────────────────────────────────────

#[test]
fn search_services_end_with_the_free_one() {
    let c = WebSearchConfig { brave_api_key: text(" b "), tavily_api_key: text(" ") };
    assert_eq!(
        build_web_search_provider(&c),
        vec![SearchSlot::Brave(text("b")), SearchSlot::DuckDuckGo]
    );
    let c = WebSearchConfig { brave_api_key: text(""), tavily_api_key: text("t") };
    assert_eq!(
        build_web_search_provider(&c),
        vec![SearchSlot::Tavily(text("t")), SearchSlot::DuckDuckGo]
    );
}

#[test]
fn search_keys_are_saved_apart() {
    let mut c = WebSearchConfig { brave_api_key: text("b"), tavily_api_key: text("t") };
    let (x, y) = save_web_search_settings(
        &mut c,
        Some(text("")),
        None,
        &VaultState::Absent,
        &VaultState::Empty,
    );
    assert_eq!((x, y), (VaultAction::Nothing, VaultAction::Migrate(text("t"))));
    assert_eq!((c.brave_api_key.as_str(), c.tavily_api_key.as_str()), ("", ""));
    let mut disk = text("d");
    let a = migrate_websearch_key(Some(text("n")), &VaultState::Absent, &mut disk);
    assert_eq!((a, disk.as_str()), (VaultAction::Nothing, "n"));
}

#[test]
fn security_modes_are_read_in_any_case() {
    assert_eq!(save_settings("BUNKER"), SecurityMode::Bunker);
    assert_eq!(save_settings("Yolo"), SecurityMode::Yolo);
    assert_eq!(save_settings("nonsense"), SecurityMode::Assistant);
    assert_eq!(parse_security_mode_lower("BUNKER"), SecurityMode::Assistant);
}

#[test]
fn settings_page_is_ordered() {
    let mut m = models(&["zeta", "alpha", "openai"]);
    let at = Timestamp { secs: 1_778_666_400, nanos: 0 };
    for (id, name) in [("1", "Work"), ("2", "Home")] {
        m.bundles.push(Bundle {
            id: text(id),
            name: text(name),
            created_at: at,
            updated_at: at,
            tiers: BundleTiers { judges: None, fast: None, code: None, powerful: None, local: None },
        });
    }
    m.active_bundle = Some(text("1"));
    let config = MainConfig {
        security_mode: SecurityMode::Yolo,
        email: email(),
        telegram: telegram(),
        notifications: NotificationConfig {
            preferred_channels: vec![],
            escalation_timeout_secs: 60,
            quiet_hours: None,
        },
        embeddings: EmbeddingConfig {
            api_key: Some(text("emb-key-9999")),
            ..embedding(EmbeddingMode::Cloud)
        },
        web_search: WebSearchConfig { brave_api_key: text("...1234"), tavily_api_key: text("") },
    };
    let page = get_settings(&m, &config, "zeta", &vec![]);
    let order: Vec<&str> = page.providers.iter().map(|p| p.id.as_str()).collect();
    assert_eq!(order, vec!["zeta", "alpha", "openai"]);
    let names: Vec<&str> = page.bundles.iter().map(|b| b.name.as_str()).collect();
    assert_eq!(names, vec!["Home", "Work"]);
    assert!(page.bundles[1].is_active && !page.bundles[0].is_active);
    assert_eq!(page.bundles[0].created_at, "2026-05-13T10:00:00+00:00");
    assert_eq!(page.security_mode, "yolo");
    assert_eq!(page.email.folders, "INBOX, Work");
    assert!(page.email.has_password);
    assert_eq!(page.telegram.bot_token_hint, "...cret");
    assert_eq!(page.embeddings.api_key_hint.as_deref(), Some("...9999"));
    assert_eq!(page.web_search.brave_hint, "...1234");
    assert!(!page.web_search.tavily_configured);
}

// ── Skills and spawned processes ───────────────────────────────────────────

fn skill(slug: &str, description: &str) -> SkillSummary {
    SkillSummary { slug: text(slug), description: text(description) }
}

#[test]
fn empty_store_returns_none() {
    assert!(render_skills_block(Some(&vec![])).is_none());
}

#[test]
fn unwired_store_returns_none() {
    assert!(render_skills_block(None).is_none());
}

#[test]
fn lists_slug_and_description() {
    let out = render_skills_block(Some(&vec![skill(
        "cold-email",
        "Use when drafting a cold email.",
    )]))
    .unwrap();
    assert!(out.contains("- cold-email: Use when drafting a cold email."));
}

#[test]
fn multiline_description_collapsed_to_single_line() {
    let out = render_skills_block(Some(&vec![skill("multi", "line one\nline two")])).unwrap();
    let line_count = out.lines().count();
    assert_eq!(line_count, 1, "expected single-line listing, got: {out}");
}

#[test]
fn skills_are_listed_one_per_line() {
    let block =
        render_skills_block(Some(&vec![skill("x", " one\ntwo \n"), skill("y", "z")])).unwrap();
    assert_eq!(block, "- x: one two\n- y: z\n");
}

#[test]
fn persistence_hook_writes_snapshot() {
    let hook = PidFilePersistence::new(pidfile_path("/data"));
    assert_eq!(hook.path, "/data/spawned_pids.json");
    let at = Timestamp { secs: 5, nanos: 0 };
    let record = hook.on_change(vec![SpawnedProcess {
        pid: 123,
        command: text("sleep 1"),
        label: Some(text("hook-test")),
        log_path: text("/tmp/whatever.log"),
        started_at: at,
    }]);
    assert_eq!(record.len(), 1);
    assert_eq!(record[0].pid, 123);
    assert_eq!(record[0].command, "sleep 1");
    assert_eq!(record[0].label.as_deref(), Some("hook-test"));
    assert_eq!(record[0].started_at, at);
    let after_clear = hook.on_change(Vec::new());
    assert!(after_clear.is_empty());
}

#[test]
fn recorded_processes_are_ended() {
    let at = Timestamp { secs: 5, nanos: 0 };
    let entry = |pid: u32| PidFileEntry { pid, command: text("c"), label: None, started_at: at };
    let r = reconcile_orphans(&vec![entry(42), entry(4242)]);
    assert_eq!((r.pids, r.truncate), (vec![42, 4242], true));
    let nothing = reconcile_orphans(&vec![]);
    assert!(nothing.pids.is_empty() && !nothing.truncate);
}

#[test]
fn record_lies_below_the_data_directory() {
    assert_eq!(pidfile_path("/data/"), "/data/spawned_pids.json");
    assert_eq!(pidfile_path(""), "spawned_pids.json");
}
