//! Connection tests, calendars, setup, endpoint reference, JSON and time.

use athen_app::attachments::TrustLevel;
use athen_app::calendar_sources::{
    add_caldav_source, after_add, bad_id, emit_sync_completed, get_agent_default_calendar,
    get_calendar_prompt, list_calendar_sources, parse_source_id, save_agent_default_calendar,
    save_calendar_prompt, source_row, sync_all_calendar_sources_now, sync_calendar_source_now,
    sync_refusal, test_calendar_source_connection, AddStep, CalendarConfig, CalendarSourceConfig,
    SourceRun, SyncStats,
};
use athen_app::channel_settings::{EmailConfig, TelegramConfig};
use athen_app::embeddings::EmbeddingMode;
use athen_app::endpoint_docs::{
    auth_method_short, endpoint_one_liner, find_preset, refresh_cloud_apis_doc,
    render_cloud_apis_index, render_endpoint_detail, sanitize_endpoint_filename, stale_files,
    AuthMethod, DocFile, EndpointPreset, IndexRow, RegisteredEndpoint,
};
use athen_app::json::{array, boolean, object, optional};
use athen_app::models::Timestamp;
use athen_app::probes::{
    embedding_test_result, github_message, github_test_result, inbox_message, ollama_message,
    provider_test_result, refusal_message, request_body, telegram_bot_message, telegram_get_me_url,
    telegram_test_result, test_email_connection, test_embedding_provider, test_github_identity,
    test_provider, test_smtp_connection, test_telegram_connection, test_web_search_provider,
    web_search_test_result, ProbeBody, ProbeKind, ProbeReply, SearchBackend, SmtpTest,
};
use athen_app::routing::EnvKey;
use athen_app::settings::WebSearchConfig;
use athen_app::setup::{
    bad_url_message, build_setup_status_context, calendar_connect_reply, calendar_display_name,
    do_setup_calendar_configure, do_setup_calendar_connect, do_setup_email, do_setup_owner_info,
    do_setup_search_key, do_setup_telegram, email_test_reply, no_servers_found, owner_field,
    resolve_caldav_base_url, resolve_owner_telegram_chat_id, resolve_search_scope, token_accepted,
    token_refused, Contact, ContactIdentifier, EmailHint, FoundCalendar, IdentifierKind,
    OwnerField, Security, ServerHint, SideResult,
};
use athen_app::time::{generate_arc_id, parse_rfc3339, to_rfc3339, younger_than};

fn own(s: &str) -> String {
    s.to_string()
}

// ── Providers ──────────────────────────────────────────────────────────────

#[test]
fn provider_probes_are_addressed() {
    let probe = test_provider("ollama", "", "", &None, None, &vec![]).ok().unwrap();
    assert_eq!(probe.request.url, "http://localhost:11434/api/tags");
    assert!(probe.request.headers.is_empty());
    let probe = test_provider("llamacpp", "http://h//", "", &None, None, &vec![]).ok().unwrap();
    assert_eq!(probe.request.url, "http://h/health");
    let refused = test_provider("openai", "", "", &Some(String::new()), None, &vec![]).err().unwrap();
    assert_eq!((refused.success, refused.message.as_str()), (false, "API key is required."));
    let env = vec![EnvKey { connection_id: own("openai"), key: own("k") }];
    let probe = test_provider("openai", "", "m", &None, None, &env).ok().unwrap();
    assert_eq!(probe.request.url, "https://api.openai.com/v1/chat/completions");
    assert_eq!(probe.request.headers[0], (own("Authorization"), own("Bearer k")));
    assert!(matches!(&probe.request.body, ProbeBody::Chat(m) if m == "m"));
    let probe = test_provider("anthropic", "", "m", &Some(own("x")), None, &env).ok().unwrap();
    assert_eq!(probe.request.url, "https://api.anthropic.com/v1/messages");
    assert_eq!(probe.request.headers[1], (own("anthropic-version"), own("2023-06-01")));
    let probe = test_provider("google", "", "g", &Some(own("x")), None, &env).ok().unwrap();
    assert!(probe.request.url.ends_with("/v1beta/models/g:generateContent"));
    assert_eq!(probe.kind, ProbeKind::Google);
}

#[test]
fn provider_answers_are_judged() {
    let tags = ProbeReply::Answered(Ok(own("{\"models\":[1,2,3]}")));
    let r = provider_test_result(ProbeKind::Ollama, "m", &tags);
    assert_eq!((r.success, r.message.as_str()), (true, "Connected. 3 model(s) available."));
    let odd = ProbeReply::Answered(Ok(own("{\"models\":5}")));
    assert_eq!(provider_test_result(ProbeKind::Ollama, "m", &odd).message, ollama_message(0));
    let broken = ProbeReply::Answered(Err(own("eof")));
    assert_eq!(
        provider_test_result(ProbeKind::Ollama, "m", &broken).message,
        "Invalid response: eof"
    );
    assert_eq!(
        provider_test_result(ProbeKind::LlamaCpp, "m", &broken).message,
        "Connected. Server is healthy."
    );
    assert_eq!(
        provider_test_result(ProbeKind::OpenAiCompatible, "m", &broken).message,
        "Connected to m successfully."
    );
    let denied = ProbeReply::Refused(own("401"), own("{\"error\":{\"message\":\"bad key\"}}"));
    let r = provider_test_result(ProbeKind::Anthropic, "m", &denied);
    assert_eq!((r.success, r.message.as_str()), (false, "HTTP 401: bad key"));
    assert_eq!(
        provider_test_result(ProbeKind::LlamaCpp, "m", &denied).message,
        "Server returned HTTP 401"
    );
    let down = ProbeReply::Unreachable(own("refused"));
    assert_eq!(
        provider_test_result(ProbeKind::Google, "m", &down).message,
        "Connection failed: refused"
    );
    assert_eq!(refusal_message("500", None, &"é".repeat(300)), format!("HTTP 500: {}", "é".repeat(200)));
}

#[test]
fn telegram_answers_are_judged() {
    assert_eq!(telegram_get_me_url("t"), "https://api.telegram.org/bott/getMe");
    assert_eq!(test_telegram_connection("").err().unwrap().message, "Bot token is required.");
    assert_eq!(test_telegram_connection("t").ok().unwrap(), telegram_get_me_url("t"));
    let me = ProbeReply::Answered(Ok(own("{\"result\":{\"username\":\"athen_bot\"}}")));
    assert_eq!(telegram_test_result(&me).unwrap().message, "Connected! Bot: @athen_bot");
    assert_eq!(telegram_bot_message(None), "Connected! Bot: @unknown");
    let bad = ProbeReply::Refused(own("401"), own("{\"description\":\"Unauthorized\"}"));
    assert_eq!(telegram_test_result(&bad).unwrap().message, "HTTP 401: Unauthorized");
    let odd = ProbeReply::Answered(Err(own("eof")));
    assert_eq!(telegram_test_result(&odd).unwrap_err(), "Invalid response: eof");
}

#[test]
fn github_answers_are_judged() {
    assert_eq!(test_github_identity("").err().unwrap().message, "Token is required.");
    let probe = test_github_identity("t").ok().unwrap();
    assert_eq!(probe.url, "https://api.github.com/user");
    assert_eq!(probe.headers.len(), 4);
    assert_eq!(probe.headers[3], (own("User-Agent"), own("Athen")));
    let me = ProbeReply::Answered(Ok(own("{\"login\":\"alex\",\"name\":\"Alex A\"}")));
    assert_eq!(github_test_result(&me).unwrap().message, "Authenticated as @alex (Alex A)");
    assert_eq!(github_message(None, Some(String::new())), "Authenticated as @unknown");
    let bad = ProbeReply::Refused(own("401"), own("{\"message\":\"Bad credentials\"}"));
    assert_eq!(github_test_result(&bad).unwrap().message, "HTTP 401: Bad credentials");
}

#[test]
fn embedding_probes_are_addressed() {
    let none: Option<String> = None;
    let kw = test_embedding_provider("keyword", &none, &none, &none, &none).err().unwrap();
    assert!(kw.success);
    let local = test_embedding_provider("ollama", &none, &none, &none, &none).ok().unwrap();
    assert_eq!(local.request.url, "http://localhost:11434/api/embed");
    assert_eq!(local.model, "nomic-embed-text");
    let bare = test_embedding_provider("openai", &none, &none, &none, &none).err().unwrap();
    assert_eq!(bare.message, "API key is required for cloud embedding providers.");
    let saved = Some(own("s"));
    let cloud = test_embedding_provider("openai", &none, &none, &none, &saved).ok().unwrap();
    assert_eq!(cloud.request.url, "https://api.openai.com/v1/embeddings");
    assert_eq!(cloud.request.headers[0].1, "Bearer s");
    let ok = ProbeReply::Answered(Ok(own("{}")));
    assert_eq!(
        embedding_test_result(true, "m", &ok).message,
        "Connected. Model 'm' is available for embeddings."
    );
    assert_eq!(
        embedding_test_result(false, "m", &ok).message,
        "Connected. Model 'm' returned embeddings successfully."
    );
    let bad = ProbeReply::Refused(own("400"), own("{\"error\":{\"message\":\"no\"}}"));
    assert_eq!(embedding_test_result(false, "m", &bad).message, "HTTP 400: no");
    assert_eq!(
        embedding_test_result(true, "m", &bad).message,
        "HTTP 400: {\"error\":{\"message\":\"no\"}}"
    );
}

#[test]
fn searches_and_mail_are_tried() {
    assert_eq!(test_web_search_provider("brave", "k").ok(), Some(SearchBackend::Brave));
    assert_eq!(test_web_search_provider("tavily", "k").ok(), Some(SearchBackend::Tavily));
    assert_eq!(test_web_search_provider("brave", "  ").err().unwrap().message, "API key is required.");
    assert_eq!(
        test_web_search_provider("bing", "k").err().unwrap().message,
        "Unknown provider 'bing'. Use 'brave' or 'tavily'."
    );
    assert_eq!(
        web_search_test_result(&Ok(vec![own("a"), own("b")])).message,
        "Connected. Top result: a"
    );
    assert!(web_search_test_result(&Ok(vec![])).message.starts_with("Connected — provider"));
    assert!(!web_search_test_result(&Err(own("x"))).success);
    assert_eq!(inbox_message(3), "Connected successfully. INBOX has 3 messages.");
    assert!(test_email_connection(Ok(own("m"))).success);
    assert!(!test_email_connection(Err(own("m"))).success);
    assert_eq!(test_smtp_connection(&SmtpTest::SetupFailed("e")).message, "Setup failed: e");
    assert_eq!(
        test_smtp_connection(&SmtpTest::ConnectionFailed("e")).message,
        "Connection failed: e"
    );
    assert!(test_smtp_connection(&SmtpTest::Authenticated).success);
}

// ── Calendars ──────────────────────────────────────────────────────────────

#[test]
fn source_ids_are_uuids() {
    assert_eq!(
        parse_source_id("00000000-0000-0000-0000-0000000000ff"),
        Ok(255)
    );
    assert_eq!(parse_source_id("{0000000000000000000000000000000A}").is_err(), true);
    assert!(parse_source_id("nonsense").unwrap_err().starts_with("Bad id: "));
    assert_eq!(bad_id("x"), "Bad id: x");
    assert_eq!(
        source_row("00000000-0000-0000-0000-0000000000ff", false).unwrap_err(),
        "Database unavailable"
    );
    assert_eq!(source_row("00000000000000000000000000000001", true), Ok(1));
}

#[test]
fn sources_are_listed_in_order() {
    let source = |id: &str, last: Option<Timestamp>| CalendarSourceConfig {
        id: own(id),
        kind: own("caldav"),
        display_name: own("n"),
        base_url: own("u"),
        username: own("me"),
        enabled: true,
        selected_calendars: vec![own("c")],
        sync_interval_secs: 60,
        last_sync_at: last,
        last_sync_error: None,
        created_at: Timestamp { secs: 0, nanos: 0 },
    };
    let at = Timestamp { secs: 1_778_666_400, nanos: 500_000_000 };
    let v = list_calendar_sources(vec![source("1", None), source("2", Some(at))]);
    assert_eq!((v[0].id.as_str(), v[1].id.as_str()), ("1", "2"));
    assert_eq!(v[0].created_at, "1970-01-01T00:00:00+00:00");
    assert_eq!(v[1].last_sync_at.as_deref(), Some("2026-05-13T10:00:00.500+00:00"));
    assert_eq!(v[0].last_sync_at, None);
}

#[test]
fn sources_are_added_with_a_password() {
    assert_eq!(add_caldav_source(" p ", true, true), Ok(own("p")));
    assert_eq!(add_caldav_source("  ", false, false).unwrap_err(), "Password required");
    assert_eq!(add_caldav_source("p", false, false).unwrap_err(), "Credential vault unavailable");
    assert_eq!(add_caldav_source("p", true, false).unwrap_err(), "Database unavailable");
    assert_eq!(
        after_add(&AddStep::RowFailed("io")),
        (true, Err(own("Save calendar source: io")))
    );
    assert_eq!(
        after_add(&AddStep::VaultFailed("io")),
        (false, Err(own("Vault write failed: io")))
    );
    assert_eq!(after_add(&AddStep::Stored), (false, Ok(())));
    assert_eq!(sync_refusal(false, true, true).as_deref(), Some("Calendar source not found"));
    assert_eq!(sync_refusal(true, false, true).as_deref(), Some("Credential vault unavailable"));
    assert_eq!(sync_refusal(true, true, false).as_deref(), Some("Calendar store unavailable"));
    assert_eq!(sync_refusal(true, true, true), None);
}

#[test]
fn syncs_are_summed_up() {
    let stats = SyncStats { inserted: 1, updated: 20, deleted: 3 };
    assert_eq!(
        sync_calendar_source_now(Ok(stats)).message,
        "Synced: +1 new, ~20 updated, -3 removed"
    );
    assert!(!sync_calendar_source_now(Err(own("x"))).success);
    assert!(test_calendar_source_connection(Ok(())).success);
    assert_eq!(test_calendar_source_connection(Err(own("x"))).message, "x");
    let run = |name: &str, enabled: bool, outcome: Result<SyncStats, String>| SourceRun {
        display_name: own(name),
        enabled,
        outcome,
    };
    let all = sync_all_calendar_sources_now(&vec![
        run("a", true, Ok(stats)),
        run("b", false, Err(own("off"))),
        run("c", true, Err(own("boom"))),
        run("d", true, Ok(stats)),
    ]);
    assert_eq!((all.sources_tried, all.inserted, all.updated, all.deleted), (3, 2, 40, 6));
    assert_eq!(all.errors, vec![own("c: boom")]);
    assert_eq!(
        emit_sync_completed("id", "My \"cal\"", stats),
        "{\"deleted\":3,\"inserted\":1,\"source_id\":\"id\",\"source_name\":\"My \\\"cal\\\"\",\"updated\":20}"
    );
}

fn calendar() -> CalendarConfig {
    CalendarConfig {
        agent_prompt: own("p"),
        agent_default_source_id: None,
        agent_default_calendar_id: None,
        agent_default_calendar_name: Some(own("old")),
    }
}

#[test]
fn assistant_calendar_is_kept() {
    let mut c = calendar();
    save_calendar_prompt(&mut c, own("q"));
    assert_eq!(get_calendar_prompt(&c), "q");
    save_agent_default_calendar(&mut c, Some(own("s")), Some(own("c")), Some(own("n")));
    let d = get_agent_default_calendar(&c);
    assert_eq!(
        (d.source_id.as_deref(), d.calendar_id.as_deref(), d.calendar_name.as_deref()),
        (Some("s"), Some("c"), Some("n"))
    );
    assert_eq!(get_calendar_prompt(&c), "q");
}

// ── Setup ──────────────────────────────────────────────────────────────────

#[test]
fn resolve_icloud_url() {
    let url = resolve_caldav_base_url("icloud", "alice@icloud.com", None).unwrap();
    assert_eq!(url, "https://caldav.icloud.com/");
}

#[test]
fn resolve_google_url_substitutes_username() {
    let url = resolve_caldav_base_url("google", "bob@gmail.com", None).unwrap();
    assert_eq!(
        url,
        "https://apidata.googleusercontent.com/caldav/v2/bob@gmail.com/events/"
    );
}

#[test]
fn resolve_fastmail_url() {
    let url = resolve_caldav_base_url("fastmail", "user@fastmail.com", None).unwrap();
    assert_eq!(url, "https://caldav.fastmail.com/");
}

#[test]
fn resolve_yandex_url() {
    let url = resolve_caldav_base_url("yandex", "user@yandex.com", None).unwrap();
    assert_eq!(url, "https://caldav.yandex.com/");
}

#[test]
fn resolve_nextcloud_requires_base_url() {
    let result = resolve_caldav_base_url("nextcloud", "user", None);
    assert!(result.is_err());
    let err = result.unwrap_err().to_string();
    assert!(
        err.contains("base_url is required"),
        "Expected 'base_url is required' in: {err}"
    );
}

#[test]
fn resolve_nextcloud_with_base_url() {
    let url = resolve_caldav_base_url(
        "nextcloud",
        "user",
        Some("https://cloud.example.com/remote.php/dav/"),
    )
    .unwrap();
    assert_eq!(url, "https://cloud.example.com/remote.php/dav/");
}

#[test]
fn resolve_custom_requires_base_url() {
    let result = resolve_caldav_base_url("custom", "user", None);
    assert!(result.is_err());
}

#[test]
fn resolve_custom_with_base_url() {
    let url = resolve_caldav_base_url("custom", "user", Some("https://dav.example.org/")).unwrap();
    assert_eq!(url, "https://dav.example.org/");
}

#[test]
fn resolve_unknown_provider_errors() {
    let result = resolve_caldav_base_url("onedrive", "user", None);
    assert!(result.is_err());
    let err = result.unwrap_err().to_string();
    assert!(
        err.contains("Unknown calendar provider"),
        "Expected 'Unknown calendar provider' in: {err}"
    );
}

#[test]
fn resolve_nextcloud_empty_base_url_treated_as_missing() {
    let result = resolve_caldav_base_url("nextcloud", "user", Some(""));
    assert!(result.is_err());
}

#[test]
fn valid_owner_fields() {
    assert!(matches!(
        match "name" {
            "name" => Some(()),
            _ => None,
        },
        Some(())
    ));
    assert_eq!(owner_field("name"), Ok(OwnerField::Name));
    assert_eq!(owner_field("email"), Ok(OwnerField::Identifier(IdentifierKind::Email)));
    assert_eq!(owner_field("phone"), Ok(OwnerField::Identifier(IdentifierKind::Phone)));
    assert_eq!(
        owner_field("telegram_user_id"),
        Ok(OwnerField::Identifier(IdentifierKind::Telegram))
    );
}

#[test]
fn invalid_owner_field() {
    let result = do_setup_owner_info(None, own("id"), "favorite_color", "blue");
    assert!(result.is_err());
    let err = result.unwrap_err().to_string();
    assert!(
        err.contains("Unknown owner field"),
        "Expected 'Unknown owner field' in: {err}"
    );
}

#[test]
fn unknown_search_provider_errors() {
    let result = resolve_search_scope("bing");
    assert!(result.is_err());
    assert_eq!(resolve_search_scope("brave"), Ok(SearchBackend::Brave));
    assert_eq!(resolve_search_scope("tavily"), Ok(SearchBackend::Tavily));
}

fn server(host: &str, port: u16, security: Security) -> ServerHint {
    ServerHint { host: own(host), port, security }
}

#[test]
fn mail_is_set_up_without_passwords() {
    let hint = EmailHint {
        display_name: own("Mailer"),
        incoming: server("imap.x", 993, Security::Ssl),
        outgoing: server("smtp.x", 587, Security::StartTls),
    };
    let (c, reply) = do_setup_email("me@x", &hint);
    assert!(c.enabled && c.use_tls && c.smtp_use_tls);
    assert_eq!((c.username.as_str(), c.password.as_str(), c.smtp_password.as_str()), ("me@x", "", ""));
    assert_eq!((c.folders, c.poll_interval_secs, c.lookback_hours), (vec![own("INBOX")], 60, 24));
    assert_eq!(
        reply,
        "{\"imap_ok\":true,\"message\":\"Email configured. Restart to start monitoring.\",\"ok\":true,\"provider\":\"Mailer\",\"smtp_ok\":true}"
    );
    let plain = EmailHint { outgoing: server("s", 25, Security::Plain), ..hint };
    assert!(!do_setup_email("me@x", &plain).0.smtp_use_tls);
    assert!(no_servers_found().starts_with("Could not autodetect servers"));
    let good = SideResult { ok: true, error: None, stage: None };
    let bad = SideResult { ok: false, error: Some(own("no \"login\"")), stage: Some(own("auth")) };
    assert_eq!(email_test_reply(&good, &good), None);
    assert_eq!(
        email_test_reply(&bad, &good).unwrap(),
        "{\"imap_error\":\"no \\\"login\\\"\",\"imap_ok\":false,\"imap_stage\":\"auth\",\"message\":\"Connection test failed. Check the error details and help the user fix them.\",\"ok\":false,\"smtp_error\":null,\"smtp_ok\":true,\"smtp_stage\":null}"
    );
}

#[test]
fn calendar_addresses_are_checked() {
    let c = do_setup_calendar_connect("icloud", "me", None).ok().unwrap();
    assert_eq!(c.display_name, "iCloud (me)");
    assert_eq!(c.url_problem, None);
    let c = do_setup_calendar_connect("custom", "me", Some("no url")).ok().unwrap();
    assert_eq!(
        c.url_problem.as_deref(),
        Some("Invalid base URL \"no url\": relative URL without a base")
    );
    assert!(do_setup_calendar_connect("custom", "me", None).is_err());
    assert_eq!(bad_url_message("u", "e"), "Invalid base URL \"u\": e");
    assert_eq!(calendar_display_name("custom", "me"), "CalDAV (me)");
    let found = Ok(vec![FoundCalendar { id: own("1"), name: own("Work"), read_only: true }]);
    assert_eq!(
        calendar_connect_reply("s", "iCloud (me)", &found),
        "{\"calendars\":[{\"id\":\"1\",\"name\":\"Work\",\"read_only\":true}],\"message\":\"Connected to iCloud (me). Found 1 calendar(s).\",\"ok\":true,\"source_id\":\"s\",\"test_ok\":true}"
    );
    assert_eq!(
        calendar_connect_reply("s", "x", &Err(own("401"))),
        "{\"error\":\"401\",\"message\":\"Calendar source saved but connection test failed: 401. Check credentials and server URL.\",\"ok\":false,\"source_id\":\"s\",\"test_ok\":false}"
    );
}

#[test]
fn calendar_choice_is_stored() {
    let mut c = calendar();
    do_setup_calendar_configure(&mut c, "s", None);
    assert_eq!(c, calendar());
    let reply = do_setup_calendar_configure(&mut c, "s", Some("cal"));
    assert_eq!(
        reply,
        "{\"message\":\"Calendar configured. Sync will start shortly.\",\"ok\":true}"
    );
    assert_eq!(c.agent_default_source_id.as_deref(), Some("s"));
    assert_eq!((c.agent_default_calendar_id.as_deref(), c.agent_default_calendar_name), (Some("cal"), None));
}

#[test]
fn bot_tokens_are_judged() {
    let fresh = TelegramConfig {
        enabled: false,
        bot_token: own("old"),
        allowed_chat_ids: vec![],
        poll_interval_secs: 3,
        owner_user_id: None,
    };
    let mut c = fresh.clone();
    let body = "{\"ok\":true,\"result\":{\"username\":\"bot\"}}";
    let (store, reply) = do_setup_telegram(&mut c, true, 200, body);
    assert!(store && c.enabled && c.bot_token.is_empty());
    assert_eq!(reply, token_accepted("bot"));
    assert!(reply.contains("\"bot_username\":\"@bot\""));
    for (success, text) in [(false, body), (true, "{\"ok\":false}"), (true, "nonsense")] {
        let mut c = fresh.clone();
        let (store, reply) = do_setup_telegram(&mut c, success, 401, text);
        assert!(!store);
        assert_eq!(c, fresh);
        assert_eq!(reply, token_refused(401, "Unknown error"));
    }
    assert!(token_refused(401, "Unauthorized").contains("\"error\":\"HTTP 401: Unauthorized\""));
}

#[test]
fn owner_details_are_set() {
    let (c, reply) = do_setup_owner_info(None, own("id"), "email", "a@x").unwrap();
    assert_eq!((c.id.as_str(), c.name.as_str(), c.is_owner), ("id", "", true));
    assert_eq!(c.trust_level, TrustLevel::AuthUser);
    assert_eq!(reply, "{\"field\":\"email\",\"ok\":true,\"value\":\"a@x\"}");
    let (c, _) = do_setup_owner_info(Some(c), own("other"), "telegram_user_id", " 42 ").unwrap();
    assert_eq!(c.id, "id");
    let (c, _) = do_setup_owner_info(Some(c), own("other"), "email", "b@x").unwrap();
    assert_eq!(
        c.identifiers,
        vec![
            ContactIdentifier { kind: IdentifierKind::Email, value: own("b@x") },
            ContactIdentifier { kind: IdentifierKind::Telegram, value: own(" 42 ") },
        ]
    );
    let (c, _) = do_setup_owner_info(Some(c), own("other"), "name", "Alex").unwrap();
    assert_eq!(c.name, "Alex");
    assert_eq!(resolve_owner_telegram_chat_id(Some(&c)), Some(42));
    assert_eq!(resolve_owner_telegram_chat_id(None), None);
    let odd = Contact { identifiers: vec![], ..c };
    assert_eq!(resolve_owner_telegram_chat_id(Some(&odd)), None);
}

#[test]
fn search_keys_are_blanked_on_disk() {
    let mut c = WebSearchConfig { brave_api_key: own("b"), tavily_api_key: own("t") };
    assert!(do_setup_search_key(&mut c, "bing").is_err());
    assert_eq!(
        do_setup_search_key(&mut c, "brave").unwrap(),
        "{\"message\":\"Brave Search API key stored.\",\"ok\":true,\"provider\":\"brave\"}"
    );
    assert_eq!((c.brave_api_key.as_str(), c.tavily_api_key.as_str()), ("", "t"));
    do_setup_search_key(&mut c, "tavily").unwrap();
    assert_eq!(c.tavily_api_key, "");
}

#[test]
fn setup_status_lists_what_is_there() {
    let hint = EmailHint {
        display_name: own("x"),
        incoming: server("i", 1, Security::Ssl),
        outgoing: server("o", 2, Security::Ssl),
    };
    let (email, _) = do_setup_email("me@x", &hint);
    let off = EmailConfig { enabled: false, ..email.clone() };
    let none = WebSearchConfig { brave_api_key: own(" "), tavily_api_key: own("") };
    let bare = build_setup_status_context(None, &off, &vec![], false, &none, &EmbeddingMode::Off);
    assert!(bare.starts_with("CURRENT SETUP STATUS — do NOT offer"));
    assert!(bare.ends_with(
        ":\n- Owner identity: not configured\n- Email: not configured\n- Calendar: not configured\n- Telegram: not configured\n- Web search: no API keys (using DuckDuckGo fallback)\n- Memory/Embeddings: off (keyword fallback)\n\n"
    ));
    let (owner, _) = do_setup_owner_info(None, own("id"), "phone", "1").unwrap();
    let keys = WebSearchConfig { brave_api_key: own("b"), tavily_api_key: own("t") };
    let full = build_setup_status_context(
        Some(&owner),
        &email,
        &vec![true, false],
        true,
        &keys,
        &EmbeddingMode::Automatic,
    );
    assert!(full.ends_with(
        ":\n- Owner identity: set (name: unnamed, Phone: 1)\n- Email: configured (me@x)\n- Calendar: 2 source(s) connected (1 enabled)\n- Telegram: configured\n- Web search: Brave + Tavily keys set\n- Memory/Embeddings: auto\n\n"
    ));
}

// ── Endpoint reference ─────────────────────────────────────────────────────

fn endpoint(name: &str) -> RegisteredEndpoint {
    RegisteredEndpoint {
        name: own(name),
        provider: own("Acme"),
        base_url: own("https://api.acme"),
        auth_method: AuthMethod::BearerToken,
        enabled: true,
        notes: None,
        default_headers: vec![],
        default_query_params: vec![],
        requests_per_minute: None,
    }
}

fn preset() -> EndpointPreset {
    EndpointPreset {
        label: own("Acme API"),
        base_url: own("https://api.acme"),
        free_tier_blurb: own("100 calls/day"),
        signup_url: own("https://acme/signup"),
        test_path: own("/ping"),
        usage_hints: own(""),
    }
}

#[test]
fn file_names_are_clean() {
    assert_eq!(sanitize_endpoint_filename("Open-Weather  Map (v2)"), "open_weather_map_v2");
    assert_eq!(sanitize_endpoint_filename("__x__"), "x");
    assert_eq!(sanitize_endpoint_filename("é/ü"), "endpoint");
    assert_eq!(sanitize_endpoint_filename(""), "endpoint");
    let once = sanitize_endpoint_filename("A  b");
    assert_eq!(sanitize_endpoint_filename(&once), once);
}

#[test]
fn auth_methods_are_described() {
    assert_eq!(auth_method_short(&AuthMethod::NoAuth), "no auth");
    assert_eq!(auth_method_short(&AuthMethod::Header { name: own("X") }), "header `X`");
    assert_eq!(
        auth_method_short(&AuthMethod::HeaderPrefixed { name: own("X"), prefix: own("Key") }),
        "header `X` (prefix `Key`)"
    );
    assert_eq!(auth_method_short(&AuthMethod::QueryParam { name: own("k") }), "query param `k`");
    assert_eq!(
        auth_method_short(&AuthMethod::BasicAuth { user: own("u") }),
        "basic auth (user `u`)"
    );
}

#[test]
fn endpoints_are_documented() {
    let mut ep = endpoint("My API");
    ep.notes = Some(own("be nice"));
    ep.enabled = false;
    ep.default_headers = vec![(own("A"), own("1"))];
    ep.default_query_params = vec![(own("q"), own("2"))];
    ep.requests_per_minute = Some(30);
    let presets = vec![preset()];
    let p = find_preset(&presets, &ep);
    assert_eq!(
        endpoint_one_liner(&ep, p),
        "Bearer token — 100 calls/day — be nice — DISABLED"
    );
    let detail = render_endpoint_detail(&ep, p);
    assert!(detail.starts_with("# My API\n\nProvider: Acme\n\nBase URL: `https://api.acme`\n\nAuth: Bearer token\n\n⚠ Endpoint"));
    assert!(detail.contains("{\n  \"endpoint\": \"My API\",\n  \"method\": \"GET\",\n  \"path\": \"/ping\"\n}"));
    assert!(detail.contains("- `A: 1`\n\n"));
    assert!(detail.contains("- `q=2`\n\n"));
    assert!(detail.contains("Rate limit: 30 req/min"));
    assert!(!detail.contains("Usage hints"));
    let docs = refresh_cloud_apis_doc(&vec![ep, endpoint("B")], &vec![]);
    assert_eq!(docs[0].file_name, "my_api.md");
    assert_eq!(docs[1].one_liner, "Bearer token");
    let mut foreign = endpoint("Acme API");
    foreign.base_url = own("elsewhere");
    assert!(find_preset(&presets, &foreign).is_some());
    foreign.name = own("Other");
    assert!(find_preset(&presets, &foreign).is_none());
}

#[test]
fn index_lists_endpoints() {
    assert!(render_cloud_apis_index(&vec![]).contains("No endpoints registered."));
    let rows = vec![IndexRow { name: own("A"), blurb: own("b"), path: own("p.md") }];
    let index = render_cloud_apis_index(&rows);
    assert!(index.contains("\n\n- **A** — b\n  Detail: `p.md`\n\nCall shape: "));
}

#[test]
fn stray_files_are_found() {
    let file = |name: &str, is_markdown: bool| DocFile { name: own(name), is_markdown };
    let files = vec![file("a.md", true), file("b.md", true), file("c.txt", false)];
    assert_eq!(stale_files(&files, &vec![own("a.md")]), vec![own("b.md")]);
    assert!(stale_files(&vec![], &vec![]).is_empty());
}

// ── JSON and time ──────────────────────────────────────────────────────────

#[test]
fn json_is_written_escaped() {
    assert_eq!(optional(&Some(own("a\n\"b\""))), "\"a\\n\\\"b\\\"\"");
    assert_eq!(optional(&None), "null");
    assert_eq!(boolean(true), "true");
    assert_eq!(array(&vec![own("1"), own("2")]), "[1,2]");
    assert_eq!(object(&vec![(own("k\\"), own("1"))]), "{\"k\\\\\":1}");
    assert_eq!(object(&vec![]), "{}");
    let value: serde_json::Value =
        serde_json::from_str(&object(&vec![(own("é"), optional(&Some(own("ü\u{7}"))))])).unwrap();
    assert_eq!(value["é"], "ü\u{7}");
}

fn instant(secs: i64, nanos: u32) -> Timestamp {
    Timestamp { secs, nanos }
}

#[test]
fn instants_are_read_and_written() {
    let t = parse_rfc3339("2026-05-13T10:15:00Z").unwrap();
    assert_eq!(t, instant(1_778_667_300, 0));
    assert_eq!(parse_rfc3339("2026-05-13T12:15:00.25+02:00"), Some(instant(1_778_667_300, 250_000_000)));
    assert_eq!(parse_rfc3339("yesterday"), None);
    assert_eq!(to_rfc3339(t), "2026-05-13T10:15:00+00:00");
    assert_eq!(to_rfc3339(instant(i64::MAX, 0)), "");
    assert_eq!(generate_arc_id(t).as_deref(), Some("arc_20260513_101500"));
    assert_eq!(generate_arc_id(instant(i64::MAX, 0)), None);
}

#[test]
fn ages_are_whole_seconds() {
    assert!(younger_than(instant(109, 999_999_999), instant(100, 0), 10));
    assert!(!younger_than(instant(110, 0), instant(100, 0), 10));
    assert!(younger_than(instant(110, 0), instant(100, 1), 10));
    // A point in the future is younger than anything positive.
    assert!(younger_than(instant(50, 0), instant(100, 0), 1));
    assert!(!younger_than(instant(99, 500_000_000), instant(100, 0), 0));
    assert!(younger_than(instant(98, 0), instant(100, 0), 0));
    assert!(younger_than(instant(-100, 0), instant(-105, 0), 6));
    assert!(!younger_than(instant(-100, 0), instant(-105, 0), 5));
    assert!(!younger_than(instant(i64::MAX, 0), instant(i64::MIN, 0), u32::MAX));
}

#[test]
fn ages_agree_with_the_calendar() {
    let points = [
        instant(-86_401, 5),
        instant(-1, 999_999_999),
        instant(0, 0),
        instant(59, 1_500_000_000),
        instant(60, 0),
        instant(86_399, 1_999_999_999),
        instant(86_400, 0),
        instant(1_778_667_300, 250_000_000),
    ];
    for a in points {
        for b in points {
            let x = chrono::DateTime::from_timestamp(a.secs, a.nanos).unwrap();
            let y = chrono::DateTime::from_timestamp(b.secs, b.nanos).unwrap();
            let secs = x.signed_duration_since(y).num_seconds();
            for limit in [0u32, 1, 59, 60, 61, 86_400, 86_401] {
                assert_eq!(younger_than(a, b, limit), secs < limit as i64, "{a:?} {b:?} {limit}");
            }
        }
    }
}

#[test]
fn posted_bodies_are_json() {
    let value = |b: &ProbeBody| -> serde_json::Value {
        serde_json::from_str(&request_body(b).unwrap()).unwrap()
    };
    assert_eq!(request_body(&ProbeBody::Empty), None);
    let chat = value(&ProbeBody::Chat("a \"quoted\" model".to_string()));
    assert_eq!(chat["model"], "a \"quoted\" model");
    assert_eq!(chat["max_tokens"], 10);
    assert_eq!(chat["messages"][0]["role"], "user");
    assert_eq!(chat["messages"][0]["content"], "Say hello in one word.");
    let same = value(&ProbeBody::Messages("m".to_string()));
    assert_eq!(same["messages"], chat["messages"]);
    let g = value(&ProbeBody::Generate);
    assert_eq!(g["contents"][0]["parts"][0]["text"], "hi");
    assert_eq!(g["contents"][0]["role"], "user");
    assert_eq!(g["generationConfig"]["maxOutputTokens"], 10);
    assert_eq!(
        request_body(&ProbeBody::Embed("nomic".to_string())),
        Some("{\"input\":\"test embedding connection\",\"model\":\"nomic\"}".to_string())
    );
}
