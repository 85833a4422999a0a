//! The dispatch loop, supervision, startup, shutdown and the tools of an arc.

use athen_app::channel_settings::{EmailConfig, TelegramConfig};
use athen_app::dispatch::{
    clear_provider_pin_for_arc, decide_monitor_start, dispatch_loop_step, monitor_step,
    plan_dispatched_task, prepare_arc_for_task, start_agent_run_pruner, AttemptEnd, Drain,
    CompactionBudget, DrainStep, EmailMark, EmailMarkInfo, LoopEvent, LoopStep, MonitorEvent,
    MonitorPhase, MonitorStart, Pulled, Supervisor, SupervisorStep, TaskFacts, TaskOutcome,
    TaskTables,
};
use athen_app::github::IdentitySource;
use athen_app::models::{
    AuthType, ModelsConfig, ProviderConfig, ProviderEntry, TierModels, Timestamp,
};
use athen_app::owner_messages::ArcEntry;
use athen_app::routing::{ArcPin, SecurityMode};
use athen_app::schedule::{schedule_of, PeriodicLoop, Schedule, MONITOR_BACKOFF_MS, WAKEUP_TICK_MS};
use athen_app::state::{
    find_config_dir, restore_enabled_mcps, start_proactive_hint_checker, step_timeout, AppState,
    CalendarSyncStart, ConfigDir, McpSource, RemoteAccessStatus, ShutdownStep, TunnelStep,
};
use athen_app::wiring::{
    assemble_app_tool_registry, assemble_base_app_tool_registry, assemble_subagent_registry,
    build_telephony_deps, startup_parts, ArcScope, ToolDeps,
};

fn st(s: &str) -> String {
    s.to_string()
}

fn one_provider(id: &str, model: &str) -> ModelsConfig {
    ModelsConfig {
        providers: vec![ProviderEntry {
            id: st(id),
            config: ProviderConfig {
                auth: AuthType::NoKey,
                default_model: st(model),
                endpoint: None,
                context_window_tokens: 128_000,
                compaction_trigger_pct: 65,
                compaction_target_pct: 30,
                supports_vision: false,
                supports_documents: false,
                family: st("Default"),
                temperature: None,
                tier_models: TierModels::empty(),
            },
        }],
        bundles: vec![],
        active_bundle: None,
        active_provider: Some(st(id)),
    }
}

// ── Supervision ────────────────────────────────────────────────────────────

#[test]
fn respawns_after_a_panicking_attempt_then_stops_cleanly() {
    let mut attempts: usize = 0;
    let mut sup = Supervisor::new(1);
    loop {
        if !sup.may_start(attempts >= 2) {
            break;
        }
        let end = if attempts == 0 { AttemptEnd::Panicked } else { AttemptEnd::Returned };
        attempts += 1;
        match sup.spawn_supervised(end, attempts >= 2, 0) {
            SupervisorStep::Stop => break,
            SupervisorStep::RespawnAfter(ms) => assert_eq!(ms, 1),
        }
    }
    assert!(
        attempts >= 2,
        "supervisor should have respawned after the panicking attempt"
    );
}

#[test]
fn does_not_spawn_when_stop_already_requested() {
    let sup = Supervisor::new(1);
    let attempts = if sup.may_start(true) { 1 } else { 0 };
    assert_eq!(attempts, 0, "factory must not run when stop is requested up front");
}

#[test]
fn delays_double_up_to_a_minute() {
    let mut sup = Supervisor::new(5_000);
    let mut delays = vec![];
    for _ in 0..6 {
        if let SupervisorStep::RespawnAfter(ms) =
            sup.spawn_supervised(AttemptEnd::Returned, false, 10)
        {
            delays.push(ms);
        }
    }
    assert_eq!(delays, vec![5_000, 10_000, 20_000, 40_000, 60_000, 60_000]);
    // A healthy run starts over.
    assert_eq!(
        sup.spawn_supervised(AttemptEnd::Panicked, false, 120_000),
        SupervisorStep::RespawnAfter(5_000)
    );
    assert_eq!(
        sup.spawn_supervised(AttemptEnd::Panicked, false, 119_999),
        SupervisorStep::RespawnAfter(10_000)
    );
    assert_eq!(
        sup.spawn_supervised(AttemptEnd::Cancelled, false, 0),
        SupervisorStep::Stop
    );
    assert_eq!(
        sup.spawn_supervised(AttemptEnd::Panicked, true, 0),
        SupervisorStep::Stop
    );
}

#[test]
fn monitors_poll_until_told_to_stop() {
    let step = monitor_step;
    let p = MonitorPhase::Polling;
    let w = MonitorPhase::Waiting;
    assert_eq!(step(true, MonitorPhase::Starting, MonitorEvent::Started), p);
    assert_eq!(step(false, MonitorPhase::Starting, MonitorEvent::Started), w);
    assert_eq!(
        step(true, MonitorPhase::Starting, MonitorEvent::StartFailed),
        MonitorPhase::Ended { clean: false }
    );
    assert_eq!(step(true, p, MonitorEvent::PollFailed), w);
    assert_eq!(step(true, p, MonitorEvent::PolledEvents), w);
    assert_eq!(step(true, p, MonitorEvent::Shutdown), p);
    assert_eq!(step(true, w, MonitorEvent::Elapsed), p);
    assert_eq!(step(true, w, MonitorEvent::Shutdown), MonitorPhase::Ended { clean: true });
    let over = MonitorPhase::Ended { clean: true };
    assert_eq!(step(true, over, MonitorEvent::Elapsed), over);
}

// ── Dispatch ───────────────────────────────────────────────────────────────

#[test]
fn finished_tasks_leave_the_tables() {
    let mut t = TaskTables::new();
    let mark = EmailMarkInfo { uid: 7, folder: st("INBOX") };
    t.register(1, st("arc"), Some(9), Some(mark));
    t.register(2, st("other"), None, None);
    assert_eq!(t.arc_of(1).unwrap(), "arc");
    assert_eq!(t.wakeup_of(1), Some(9));
    assert_eq!(t.wakeup_of(2), None);
    assert!(matches!(
        t.finish(1, &TaskOutcome::Finished(true)),
        EmailMark::MarkSeen(EmailMarkInfo { uid: 7, .. })
    ));
    assert!(t.arc_of(1).is_none());
    assert!(t.wakeup_of(1).is_none());
    assert_eq!(t.arc_of(2).unwrap(), "other");
    assert!(matches!(t.finish(2, &TaskOutcome::Panicked), EmailMark::Nothing));
}

#[test]
fn mail_stays_unread_after_a_failure() {
    for outcome in [
        TaskOutcome::Finished(false),
        TaskOutcome::Skipped,
        TaskOutcome::Failed(st("x")),
        TaskOutcome::Panicked,
    ] {
        let mut t = TaskTables::new();
        t.register(1, st("arc"), None, Some(EmailMarkInfo { uid: 3, folder: st("I") }));
        assert!(matches!(t.finish(1, &outcome), EmailMark::LeaveUnseen(_)));
    }
}

#[test]
fn foreign_tasks_end_a_pass() {
    let mut d = Drain::new();
    for _ in 0..7 {
        assert_eq!(d.next(Pulled::Foreign), DrainStep::PutBack);
    }
    assert_eq!(d.next(Pulled::Own), DrainStep::Run);
    assert_eq!(d.next(Pulled::Foreign), DrainStep::PutBackAndYield);
    assert_eq!(d.next(Pulled::Nothing), DrainStep::Yield);
    assert_eq!(d.next(Pulled::Error), DrainStep::Yield);
}

#[test]
fn only_shutdown_ends_the_loop() {
    assert_eq!(dispatch_loop_step(LoopEvent::Signal), LoopStep::Drain);
    assert_eq!(dispatch_loop_step(LoopEvent::Tick), LoopStep::Drain);
    assert_eq!(dispatch_loop_step(LoopEvent::Shutdown), LoopStep::Stop);
    assert_eq!(dispatch_loop_step(LoopEvent::Panicked), LoopStep::ReenterAfter(1000));
}

fn facts(pin: &Option<ArcPin>) -> TaskFacts<&'static str, &'static str> {
    TaskFacts {
        pin: pin.clone(),
        arc_mode: None,
        global_mode: SecurityMode::Bunker,
        arc_effort: None,
        default_effort: "medium",
        wakeup_row: Some("row"),
    }
}

#[test]
fn plans_hold_the_settings_of_the_run() {
    let mut cfg = one_provider("deepseek", "deepseek-chat");
    cfg.providers[0].config.context_window_tokens = 1_001;
    cfg.providers[0].config.compaction_trigger_pct = 65;
    cfg.providers[0].config.compaction_target_pct = 30;
    cfg.providers[0].config.temperature = Some(0.5f32.to_bits());
    let mut t = TaskTables::new();
    t.register(1, st("arc"), None, None);
    t.register(2, st("arc"), Some(5), None);
    let plan = plan_dispatched_task(&t, 1, facts(&None), &cfg).unwrap();
    assert_eq!(
        plan.compaction,
        Some(CompactionBudget { trigger_tokens: 650, target_tokens: 300 })
    );
    assert_eq!(plan.temperature.map(f32::from_bits), Some(0.5));
    assert_eq!((plan.reasoning_effort, plan.wakeup), ("medium", None));
    let high = TaskFacts { arc_effort: Some("high"), ..facts(&None) };
    let plan = plan_dispatched_task(&t, 2, high, &cfg).unwrap();
    assert_eq!((plan.reasoning_effort, plan.wakeup), ("high", Some("row")));
    let unread = TaskFacts { wakeup_row: None, ..facts(&None) };
    assert_eq!(plan_dispatched_task(&t, 2, unread, &cfg).unwrap().wakeup, None);
    // A provider that is not configured leaves nothing to budget by.
    cfg.providers.clear();
    let plan = plan_dispatched_task(&t, 1, facts(&None), &cfg).unwrap();
    assert_eq!((plan.compaction, plan.temperature), (None, None));
}

#[test]
fn wakeups_drop_the_pin() {
    let cfg = one_provider("deepseek", "deepseek-chat");
    let pin = Some(ArcPin {
        pinned_provider_id: Some(st("deepseek")),
        pinned_slug: Some(st("deepseek-chat")),
    });
    let mut t = TaskTables::new();
    t.register(1, st("arc"), None, None);
    t.register(2, st("arc"), Some(5), None);
    let yolo = TaskFacts { arc_mode: Some(SecurityMode::Yolo), ..facts(&pin) };
    let plan = plan_dispatched_task(&t, 1, yolo, &cfg).unwrap();
    assert_eq!(plan.target.pinned_slug.as_deref(), Some("deepseek-chat"));
    assert!(!plan.clear_pin && !plan.shared_router && plan.install.is_none());
    assert_eq!(plan.security_mode, SecurityMode::Yolo);
    let plan = plan_dispatched_task(&t, 2, facts(&pin), &cfg).unwrap();
    assert!(plan.clear_pin && plan.shared_router);
    assert_eq!(plan.target.pinned_slug, None);
    assert_eq!(plan.install.unwrap().slug, "deepseek-chat");
    assert_eq!(plan.security_mode, SecurityMode::Bunker);
    assert!(plan_dispatched_task(&t, 3, facts(&pin), &cfg).is_none());
    let mut arc = pin.clone().unwrap();
    prepare_arc_for_task(&mut arc, false);
    assert_eq!(Some(arc.clone()), pin);
    prepare_arc_for_task(&mut arc, true);
    assert_eq!(arc.pinned_provider_id, None);
    let mut other = pin.unwrap();
    clear_provider_pin_for_arc(&mut other);
    assert_eq!(other.pinned_slug, None);
}

#[test]
fn old_runs_are_pruned_after_thirty_days() {
    let now = Timestamp { secs: 2_592_010, nanos: 4 };
    assert_eq!(start_agent_run_pruner(true, now), Some(Timestamp { secs: 10, nanos: 4 }));
    assert_eq!(start_agent_run_pruner(false, now), None);
}

// ── State ──────────────────────────────────────────────────────────────────

fn app() -> AppState {
    let cfg = one_provider("deepseek", "deepseek-chat");
    AppState::new(&cfg, &vec![], &vec![], None, None, st("fresh"), None).0
}

fn mail(enabled: bool, server: &str) -> EmailConfig {
    EmailConfig {
        enabled,
        imap_server: st(server),
        imap_port: 993,
        username: st("u"),
        password: st(""),
        use_tls: true,
        folders: vec![],
        poll_interval_secs: 60,
        lookback_hours: 24,
        smtp_server: st(""),
        smtp_port: 587,
        smtp_username: st(""),
        smtp_password: st(""),
        smtp_use_tls: true,
        from_address: st(""),
    }
}

fn bot(enabled: bool, token: &str) -> TelegramConfig {
    TelegramConfig {
        enabled,
        bot_token: st(token),
        allowed_chat_ids: vec![],
        poll_interval_secs: 2,
        owner_user_id: None,
    }
}

#[test]
fn app_starts_with_what_is_configured() {
    let cfg = one_provider("deepseek", "deepseek-chat");
    let (app, router, create) =
        AppState::new(&cfg, &vec![], &vec![], None, None, st("fresh"), None);
    assert!(create);
    assert_eq!((app.active_provider_id.as_str(), app.model_name.as_str()), ("deepseek", "deepseek-chat"));
    assert_eq!((app.active_arc_id.as_str(), app.project_summary_mode.as_str()), ("fresh", "auto"));
    assert_eq!(router.profiles.len(), 4);
    let entries = vec![ArcEntry { is_message: true, source: st("user"), content: st("hi") }];
    let (app, _, create) = AppState::new(
        &cfg,
        &vec![],
        &vec![],
        Some(st("old")),
        Some(&entries),
        st("fresh"),
        Some(st("manual")),
    );
    assert!(!create);
    assert_eq!((app.active_arc_id.as_str(), app.history.len()), ("old", 1));
    assert_eq!(app.project_summary_mode, "manual");
}

#[test]
fn monitors_start_where_they_are_configured() {
    let mut a = app();
    assert_eq!(decide_monitor_start(false, "x"), MonitorStart::Disabled);
    assert_eq!(a.start_email_monitor(&mail(true, "")), MonitorStart::NotConfigured);
    assert!(!a.running.email);
    assert_eq!(a.start_email_monitor(&mail(true, "imap")), MonitorStart::Start);
    assert!(a.running.email);
    assert_eq!(a.restart_email_monitor(&mail(false, "imap")), (true, MonitorStart::Disabled));
    assert!(!a.running.email);
    assert_eq!(a.start_telegram_monitor(&bot(true, "t")), MonitorStart::Start);
    assert_eq!(a.restart_telegram_monitor(&bot(true, "t")), (true, MonitorStart::Start));
    assert_eq!(a.start_calendar_sync(false, false, false), CalendarSyncStart::NoDatabase);
    assert_eq!(a.start_calendar_sync(true, false, false), CalendarSyncStart::NoCalendarStore);
    assert_eq!(a.start_calendar_sync(true, true, false), CalendarSyncStart::NoVault);
    assert_eq!(a.start_calendar_sync(true, true, true), CalendarSyncStart::Start);
    assert!(!a.start_attachment_purger(false));
    assert!(a.start_attachment_purger(true));
    assert!(a.start_wakeup_scheduler(true));
    assert!(!a.start_wakeup_scheduler(true));
    a.start_calendar_monitor();
    a.start_dispatch_loop();
    assert!(a.running.calendar && a.running.dispatch_loop);
}

#[test]
fn shutdown_signals_then_waits() {
    let mut a = app();
    a.start_telegram_monitor(&bot(true, "t"));
    a.start_wakeup_scheduler(true);
    assert_eq!(a.start_remote_access(8080, true, false), TunnelStep::Nothing);
    let steps = a.shutdown_all(true, true, true);
    assert_eq!(
        steps,
        vec![
            ShutdownStep::SignalTelegram,
            ShutdownStep::SignalWakeupScheduler,
            ShutdownStep::StopRemoteAccess,
            ShutdownStep::FinalizeAgents,
            ShutdownStep::KillSpawned,
            ShutdownStep::TruncatePidfile,
            ShutdownStep::CheckpointDatabase,
        ]
    );
    let total: u64 = steps.iter().map(|s| step_timeout(*s)).sum();
    assert_eq!(total, 5_500);
    assert!(!a.running.wakeup_scheduler && !a.running.remote_access);
    assert_eq!(app().shutdown_all(false, false, false), vec![ShutdownStep::KillSpawned]);
}

#[test]
fn remote_access_is_tracked() {
    let mut a = app();
    assert!(!a.remote_access_status_snapshot(true).listening);
    assert_eq!(a.start_remote_access(4242, false, true), TunnelStep::InstallProgram);
    assert_eq!(a.remote_access_status.tunnel_url, None);
    assert_eq!(a.remote_access_status.local_url.as_deref(), Some("http://127.0.0.1:4242"));
    assert_eq!(a.tunnel_program_ready(4242, &Err(st("io"))), TunnelStep::Nothing);
    assert_eq!(
        a.remote_access_status.last_error.as_deref(),
        Some("cloudflared install failed: io")
    );
    assert_eq!(a.tunnel_program_ready(4242, &Ok(())), TunnelStep::Start { port: 4242 });
    assert!(a.remote_access_status.cloudflared_installed);
    a.tunnel_started(&Err(st("io")));
    assert_eq!(a.remote_access_status.last_error.as_deref(), Some("tunnel start failed: io"));
    a.tunnel_started(&Ok(st("https://t")));
    assert_eq!(a.remote_access_status.tunnel_url.as_deref(), Some("https://t"));
    assert_eq!(a.remote_access_status.last_error, None);
    assert_eq!(a.stop_remote_access(), (true, true));
    assert_eq!(a.stop_remote_access(), (false, false));
    let idle = RemoteAccessStatus::default();
    assert!(!idle.listening && idle.local_url.is_none());
}

#[test]
fn configuration_is_looked_for() {
    let dir = |exists: bool| Some(ConfigDir { path: st("/home/.athen"), exists });
    assert_eq!(find_config_dir(&dir(true), true).as_deref(), Some("/home/.athen"));
    assert_eq!(find_config_dir(&dir(false), true).as_deref(), Some("config"));
    assert_eq!(find_config_dir(&dir(false), false), None);
    assert_eq!(find_config_dir(&None, true).as_deref(), Some("config"));
    assert_eq!(start_proactive_hint_checker(true, "ollama", Some(2)), Some((true, 2)));
    assert_eq!(start_proactive_hint_checker(true, "openai", None), Some((false, 0)));
    assert_eq!(start_proactive_hint_checker(false, "ollama", Some(2)), None);
}

#[test]
fn enabled_tool_servers_are_restored() {
    let ids = vec![st("files"), st("gone"), st("mine"), st("both")];
    let bundled = vec![st("files"), st("both")];
    let custom = vec![st("mine"), st("both")];
    assert_eq!(
        restore_enabled_mcps(&ids, &bundled, &custom),
        vec![(0, McpSource::Bundled), (2, McpSource::Custom), (3, McpSource::Bundled)]
    );
}

#[test]
fn loops_keep_their_schedule() {
    let at = |which| {
        let Schedule { first_ms, period_ms } = schedule_of(which);
        (first_ms, period_ms)
    };
    assert_eq!(at(PeriodicLoop::HintChecker), (60_000, 15 * 60_000));
    assert_eq!(at(PeriodicLoop::RunPruner), (0, 6 * 3_600_000));
    assert_eq!(at(PeriodicLoop::DispatchTick), (2_000, 2_000));
    assert_eq!(at(PeriodicLoop::TypingNote), (4_000, 4_000));
    assert_eq!(at(PeriodicLoop::CalendarPoll), (60_000, 60_000));
    assert_eq!((WAKEUP_TICK_MS, MONITOR_BACKOFF_MS), (5_000, 5_000));
}

#[test]
fn pulled_tasks_are_own_where_their_arc_is_known() {
    let mut t = TaskTables::new();
    t.register(1, st("arc"), None, None);
    assert_eq!(t.pulled(&Ok(Some(1))), Pulled::Own);
    assert_eq!(t.pulled(&Ok(Some(2))), Pulled::Foreign);
    assert_eq!(t.pulled(&Ok(None)), Pulled::Nothing);
    assert_eq!(t.pulled(&Err(st("x"))), Pulled::Error);
}

// ── Tools ──────────────────────────────────────────────────────────────────

fn everything() -> ToolDeps {
    ToolDeps {
        spawn_persistence: true,
        email_sender: true,
        telegram_sender: true,
        owner_check: true,
        github_identity_resolver: true,
        checkpoint_store: true,
        telegram_chat_log: true,
        calendar_store: true,
        contact_store: true,
        memory: true,
        grant_store: true,
        approval_router: true,
        telegram_approval_sink: true,
        arc_store: true,
        attachment_store: true,
        identity_store: true,
        project_store: true,
        skill_store: true,
        http_endpoint_store: true,
        vault: true,
        calendar_source_store: true,
        profile_store: true,
        wakeup_store: true,
        window: true,
        ui: true,
    }
}

fn scope() -> ArcScope {
    ArcScope {
        arc_id: st("arc"),
        mode: None,
        code_root: Some(st("/repo")),
        project_slug: Some(st("p")),
        row_profile: Some(None),
        active_profile: Some(st("coder")),
    }
}

#[test]
fn tools_follow_what_is_at_hand() {
    let d = everything();
    let full = assemble_app_tool_registry(&d, &scope(), SecurityMode::Assistant);
    assert!(full.delegation && full.wakeup_authoring && full.deep_research && full.telephony);
    assert_eq!((full.working_dir.as_deref(), full.active_project.as_deref()), (Some("/repo"), Some("p")));
    assert!(full.checkpoints && full.owner_check && full.github_credentials);
    let strict = ArcScope { mode: Some(SecurityMode::Bunker), code_root: None, ..scope() };
    let sub = assemble_subagent_registry(&d, &strict, SecurityMode::Yolo);
    assert!(!sub.delegation && !sub.wakeup_authoring && !sub.deep_research);
    assert_eq!(sub.security_mode, SecurityMode::Bunker);
    let no_vault = ToolDeps {
        vault: false,
        arc_store: false,
        checkpoint_store: false,
        owner_check: false,
        ..d
    };
    assert!(!build_telephony_deps(&no_vault));
    let bare = assemble_base_app_tool_registry(&no_vault, &scope(), SecurityMode::Yolo, true);
    assert!(!bare.http_endpoints && !bare.telephony && bare.deep_research);
    assert!(!bare.checkpoints && !bare.owner_check);
    assert_eq!(bare.active_project, None);
}

#[test]
fn tools_are_those_of_the_arc() {
    let d = everything();
    let of = |arc: &ArcScope, d: &ToolDeps| {
        assemble_base_app_tool_registry(d, arc, SecurityMode::Assistant, false)
    };
    let w = of(&scope(), &d);
    assert_eq!((w.arc_id.as_str(), w.active_profile.as_deref()), ("arc", Some("coder")));
    assert!(matches!(w.github_identity, IdentitySource::Profile(None)));
    let named = ArcScope { row_profile: Some(Some(st("coder"))), ..scope() };
    assert!(matches!(of(&named, &d).github_identity, IdentitySource::Profile(Some(p)) if p == "coder"));
    let absent = ArcScope { row_profile: None, ..scope() };
    assert!(matches!(of(&absent, &d).github_identity, IdentitySource::Nobody));
    let no_arcs = ToolDeps { arc_store: false, ..d };
    assert!(matches!(of(&named, &no_arcs).github_identity, IdentitySource::Nobody));
    let no_profiles = ToolDeps { profile_store: false, ..d };
    assert!(matches!(of(&named, &no_profiles).github_identity, IdentitySource::Nobody));
}

#[test]
fn parts_follow_what_could_be_opened() {
    let p = startup_parts(true, false, true);
    assert!(p.stores && p.skills && p.tool_docs && p.pidfile && p.compactor);
    assert!(!p.github_identities && !p.mcp_secrets);
    assert!(!startup_parts(false, true, true).skills);
}
