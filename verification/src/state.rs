//! The state of the running app: what it starts with, which of its parts run,
//! and how they are stopped.

use vstd::prelude::*;
use vstd::string::*;
use crate::channel_settings::{EmailConfig, TelegramConfig};
use crate::deep_research::PendingRequests;
use crate::dispatch::{MonitorStart, TaskTables, decide_monitor_start, monitor_start};
use crate::models::{ModelsConfig, Timestamp, copy_opt};
use crate::owner_messages::{ArcEntry, ChatMessage, message_views, restore_or_create_arc, restored};
use crate::providers::{is_local_id, is_local_provider};
use crate::router_plan::{
    RouterPlan, build_startup_router, bundle_plan, configured_connection, configured_model,
    startup_pair,
};
use crate::routing::{EnvKey, SlugQuirk, active_provider_of};
use crate::telegram_progress::holds;
use crate::text::{cat2, decimal, decimal_u64, owned};

verus! {

// ---------------------------------------------------------------------------
// Remote access
// ---------------------------------------------------------------------------

/// Where the app can be reached from outside.
#[derive(Clone, Debug)]
pub struct RemoteAccessStatus {
    pub listening: bool,
    /// The local address while listening.
    pub local_url: Option<String>,
    /// The public address once the tunnel is up.
    pub tunnel_url: Option<String>,
    pub cloudflared_installed: bool,
    pub last_error: Option<String>,
}

/// Nothing is reachable.
pub open spec fn is_idle(s: RemoteAccessStatus) -> bool {
    &&& !s.listening
    &&& s.local_url is None
    &&& s.tunnel_url is None
    &&& !s.cloudflared_installed
    &&& s.last_error is None
}

impl Default for RemoteAccessStatus {
    fn default() -> (r: Self)
        ensures
            is_idle(r),
    {
        RemoteAccessStatus {
            listening: false,
            local_url: None,
            tunnel_url: None,
            cloudflared_installed: false,
            last_error: None,
        }
    }
}

impl RemoteAccessStatus {
    pub fn copy(&self) -> (r: Self)
        ensures
            r == *self,
    {
        RemoteAccessStatus {
            listening: self.listening,
            local_url: copy_opt(&self.local_url),
            tunnel_url: copy_opt(&self.tunnel_url),
            cloudflared_installed: self.cloudflared_installed,
            last_error: copy_opt(&self.last_error),
        }
    }
}

/// The address on which the app listens.
pub open spec fn local_address(port: u16) -> Seq<char> {
    "http://127.0.0.1:"@ + decimal(port as nat)
}

// ---------------------------------------------------------------------------
// The state
// ---------------------------------------------------------------------------

/// Which background parts run.
#[derive(Clone, Copy, Debug, PartialEq, Eq, Structural)]
pub struct Running {
    pub email: bool,
    pub telegram: bool,
    pub calendar: bool,
    pub calendar_sync: bool,
    pub attachment_purger: bool,
    pub dispatch_loop: bool,
    pub wakeup_scheduler: bool,
    pub remote_access: bool,
    pub tunnel: bool,
}

/// No background part runs.
pub open spec fn nothing_runs() -> Running {
    Running {
        email: false,
        telegram: false,
        calendar: false,
        calendar_sync: false,
        attachment_purger: false,
        dispatch_loop: false,
        wakeup_scheduler: false,
        remote_access: false,
        tunnel: false,
    }
}

/// The state of the running app.
pub struct AppState {
    pub active_provider_id: String,
    pub model_name: String,
    pub active_arc_id: String,
    pub history: Vec<ChatMessage>,
    pub project_summary_mode: String,
    pub running: Running,
    pub remote_access_status: RemoteAccessStatus,
    pub pending_deep_research: PendingRequests,
    pub telegram_outbound_hint: Option<(String, Timestamp)>,
    pub tasks: TaskTables,
}

/// A step of the shutdown.
#[derive(Clone, Copy, Debug, PartialEq, Eq, Structural)]
pub enum ShutdownStep {
    SignalEmail,
    SignalTelegram,
    SignalCalendar,
    SignalCalendarSync,
    SignalAttachmentPurger,
    SignalDispatchLoop,
    SignalWakeupScheduler,
    StopRemoteAccess,
    StopTunnel,
    /// Mark the agents that run as cancelled.
    FinalizeAgents,
    /// End every spawned process.
    KillSpawned,
    /// Empty the record of spawned processes.
    TruncatePidfile,
    /// Bring the database's log into its file.
    CheckpointDatabase,
}

/// How long a step may take, in milliseconds; signals take no time.
pub open spec fn step_budget(s: ShutdownStep) -> nat {
    match s {
        ShutdownStep::FinalizeAgents => 1000,
        ShutdownStep::KillSpawned => 2000,
        ShutdownStep::TruncatePidfile => 500,
        ShutdownStep::CheckpointDatabase => 2000,
        _ => 0,
    }
}

/// How long a step may take, in milliseconds.
pub fn step_timeout(s: ShutdownStep) -> (r: u64)
    ensures
        r == step_budget(s),
{
    match s {
        ShutdownStep::FinalizeAgents => 1000,
        ShutdownStep::KillSpawned => 2000,
        ShutdownStep::TruncatePidfile => 500,
        ShutdownStep::CheckpointDatabase => 2000,
        _ => 0,
    }
}

/// How long the steps may take together.
pub open spec fn total_budget(v: Seq<ShutdownStep>) -> nat
    decreases v.len(),
{
    if v.len() == 0 {
        0
    } else {
        total_budget(v.drop_last()) + step_budget(v.last())
    }
}

pub open spec fn when(b: bool, s: ShutdownStep) -> Seq<ShutdownStep> {
    if b {
        seq![s]
    } else {
        Seq::empty()
    }
}

fn push_when(v: &mut Vec<ShutdownStep>, b: bool, s: ShutdownStep)
    ensures
        final(v)@ == old(v)@ + when(b, s),
{
    if b {
        v.push(s);
    }
    proof {
        assert(v@ =~= old(v)@ + when(b, s));
    }
}

/// The signals that a shutdown sends, in order.
pub open spec fn shutdown_signals(r: Running) -> Seq<ShutdownStep> {
    when(r.email, ShutdownStep::SignalEmail) + when(r.telegram, ShutdownStep::SignalTelegram)
        + when(r.calendar, ShutdownStep::SignalCalendar) + when(
        r.calendar_sync,
        ShutdownStep::SignalCalendarSync,
    ) + when(r.attachment_purger, ShutdownStep::SignalAttachmentPurger) + when(
        r.dispatch_loop,
        ShutdownStep::SignalDispatchLoop,
    ) + when(r.wakeup_scheduler, ShutdownStep::SignalWakeupScheduler) + when(
        r.remote_access,
        ShutdownStep::StopRemoteAccess,
    ) + when(r.tunnel, ShutdownStep::StopTunnel)
}

/// What a shutdown waits for, in order.
pub open spec fn shutdown_waits(agents: bool, pidfile: bool, database: bool) -> Seq<ShutdownStep> {
    when(agents, ShutdownStep::FinalizeAgents) + seq![ShutdownStep::KillSpawned] + when(
        pidfile,
        ShutdownStep::TruncatePidfile,
    ) + when(database, ShutdownStep::CheckpointDatabase)
}

/// Why the calendars are not synced, if they are not.
#[derive(Clone, Copy, Debug, PartialEq, Eq, Structural)]
pub enum CalendarSyncStart {
    NoDatabase,
    NoCalendarStore,
    NoVault,
    Start,
}

/// What comes next of the tunnel.
#[derive(Clone, Copy, Debug, PartialEq, Eq, Structural)]
pub enum TunnelStep {
    /// Nothing: no tunnel is wanted, or it cannot be had, or it is up.
    Nothing,
    /// Make the tunnel program available, in the background.
    InstallProgram,
    /// Start a tunnel to this local port.
    Start { port: u16 },
}

/// What comes next once the app listens: the tunnel program, where a tunnel is
/// wanted.
pub open spec fn tunnel_begins(tunnel_enabled: bool) -> TunnelStep {
    if tunnel_enabled {
        TunnelStep::InstallProgram
    } else {
        TunnelStep::Nothing
    }
}

impl AppState {
    pub open spec fn wf(self) -> bool {
        self.pending_deep_research.wf()
    }

    /// The state that the app starts with. The other results are the router
    /// to start with, and whether the active arc has to be created.
    pub fn new(
        models: &ModelsConfig,
        env: &Vec<EnvKey>,
        quirks: &Vec<SlugQuirk>,
        restored_arc: Option<String>,
        entries: Option<&Vec<ArcEntry>>,
        fresh_arc: String,
        summary_mode: Option<String>,
    ) -> (r: (AppState, RouterPlan, bool))
        ensures
            r.0.wf(),
            r.1.wf(),
            match models.active_bundle_value() {
                Some(b) => {
                    &&& r.1@ == bundle_plan(b, *models, env@, quirks@)
                    &&& (r.0.active_provider_id@, r.0.model_name@) == startup_pair(*models, b)
                },
                None => {
                    let id = active_provider_of(*models);
                    &&& r.1@ == configured_connection(id, *models, None, env@, quirks@).plan()
                    &&& (r.0.active_provider_id@, r.0.model_name@) == (
                        id,
                        configured_model(*models, id),
                    )
                },
            },
            match (restored_arc, entries) {
                (Some(id), Some(e)) => r.0.active_arc_id == id && message_views(r.0.history@)
                    == restored(e@) && !r.2,
                _ => r.0.active_arc_id == fresh_arc && r.0.history@.len() == 0 && r.2,
            },
            r.0.project_summary_mode@ == match summary_mode {
                Some(m) => m@,
                None => "auto"@,
            },
            r.0.running == nothing_runs(),
            is_idle(r.0.remote_access_status),
            r.0.pending_deep_research.entries@.len() == 0,
            r.0.telegram_outbound_hint is None,
            r.0.tasks.arcs@ == Map::<u128, String>::empty(),
            r.0.tasks.wakeups@ == Map::<u128, u128>::empty(),
            r.0.tasks.email_marks@ == Map::<u128, crate::dispatch::EmailMarkInfo>::empty(),
    {
        let (router, active_provider_id, model_name) = build_startup_router(models, env, quirks);
        let (active_arc_id, history, create) = restore_or_create_arc(
            restored_arc,
            entries,
            fresh_arc,
        );
        let state = AppState {
            active_provider_id,
            model_name,
            active_arc_id,
            history,
            project_summary_mode: match summary_mode {
                Some(m) => m,
                None => owned("auto"),
            },
            running: Running {
                email: false,
                telegram: false,
                calendar: false,
                calendar_sync: false,
                attachment_purger: false,
                dispatch_loop: false,
                wakeup_scheduler: false,
                remote_access: false,
                tunnel: false,
            },
            remote_access_status: RemoteAccessStatus::default(),
            pending_deep_research: PendingRequests::new(),
            telegram_outbound_hint: None,
            tasks: TaskTables::new(),
        };
        (state, router, create)
    }

    /// The steps of a shutdown, in order: first every part that runs is told
    /// to stop, then the agents are marked as cancelled, the spawned processes
    /// ended, their record emptied and the database brought up to date.
    pub fn shutdown_all(&mut self, has_agents: bool, has_pidfile: bool, has_database: bool) -> (r:
        Vec<ShutdownStep>)
        ensures
            r@ == shutdown_signals(old(self).running) + shutdown_waits(
                has_agents,
                has_pidfile,
                has_database,
            ),
            *final(self) == (AppState {
                running: Running {
                    wakeup_scheduler: false,
                    remote_access: false,
                    tunnel: false,
                    ..old(self).running
                },
                ..*old(self)
            }),
    {
        let r = self.running;
        let mut v: Vec<ShutdownStep> = Vec::new();
        push_when(&mut v, r.email, ShutdownStep::SignalEmail);
        proof {
            assert(v@ =~= when(r.email, ShutdownStep::SignalEmail));
        }
        push_when(&mut v, r.telegram, ShutdownStep::SignalTelegram);
        push_when(&mut v, r.calendar, ShutdownStep::SignalCalendar);
        push_when(&mut v, r.calendar_sync, ShutdownStep::SignalCalendarSync);
        push_when(&mut v, r.attachment_purger, ShutdownStep::SignalAttachmentPurger);
        push_when(&mut v, r.dispatch_loop, ShutdownStep::SignalDispatchLoop);
        push_when(&mut v, r.wakeup_scheduler, ShutdownStep::SignalWakeupScheduler);
        push_when(&mut v, r.remote_access, ShutdownStep::StopRemoteAccess);
        push_when(&mut v, r.tunnel, ShutdownStep::StopTunnel);
        let mut waits: Vec<ShutdownStep> = Vec::new();
        push_when(&mut waits, has_agents, ShutdownStep::FinalizeAgents);
        proof {
            assert(waits@ =~= when(has_agents, ShutdownStep::FinalizeAgents));
        }
        push_when(&mut waits, true, ShutdownStep::KillSpawned);
        push_when(&mut waits, has_pidfile, ShutdownStep::TruncatePidfile);
        push_when(&mut waits, has_database, ShutdownStep::CheckpointDatabase);
        v.append(&mut waits);
        self.running.wakeup_scheduler = false;
        self.running.remote_access = false;
        self.running.tunnel = false;
        v
    }

    /// Starts the mail monitor, where it is switched on and has a server.
    pub fn start_email_monitor(&mut self, config: &EmailConfig) -> (r: MonitorStart)
        ensures
            r == monitor_start(config.enabled, config.imap_server@),
            *final(self) == (AppState {
                running: Running {
                    email: old(self).running.email || r == MonitorStart::Start,
                    ..old(self).running
                },
                ..*old(self)
            }),
    {
        let r = decide_monitor_start(config.enabled, config.imap_server.as_str());
        if r == MonitorStart::Start {
            self.running.email = true;
        }
        r
    }

    /// Stops the mail monitor that runs, if one does, and starts it again
    /// from the configuration. The first result says whether one was stopped.
    pub fn restart_email_monitor(&mut self, config: &EmailConfig) -> (r: (bool, MonitorStart))
        ensures
            r.0 == old(self).running.email,
            r.1 == monitor_start(config.enabled, config.imap_server@),
            *final(self) == (AppState {
                running: Running { email: r.1 == MonitorStart::Start, ..old(self).running },
                ..*old(self)
            }),
    {
        let was = self.running.email;
        self.running.email = false;
        let r = self.start_email_monitor(config);
        (was, r)
    }

    /// Starts the Telegram monitor, where it is switched on and has a token.
    pub fn start_telegram_monitor(&mut self, config: &TelegramConfig) -> (r: MonitorStart)
        ensures
            r == monitor_start(config.enabled, config.bot_token@),
            *final(self) == (AppState {
                running: Running {
                    telegram: old(self).running.telegram || r == MonitorStart::Start,
                    ..old(self).running
                },
                ..*old(self)
            }),
    {
        let r = decide_monitor_start(config.enabled, config.bot_token.as_str());
        if r == MonitorStart::Start {
            self.running.telegram = true;
        }
        r
    }

    /// Stops the Telegram monitor that runs, if one does, and starts it again
    /// from the configuration. The first result says whether one was stopped.
    pub fn restart_telegram_monitor(&mut self, config: &TelegramConfig) -> (r: (
        bool,
        MonitorStart,
    ))
        ensures
            r.0 == old(self).running.telegram,
            r.1 == monitor_start(config.enabled, config.bot_token@),
            *final(self) == (AppState {
                running: Running { telegram: r.1 == MonitorStart::Start, ..old(self).running },
                ..*old(self)
            }),
    {
        let was = self.running.telegram;
        self.running.telegram = false;
        let r = self.start_telegram_monitor(config);
        (was, r)
    }

    /// Starts the calendar monitor.
    pub fn start_calendar_monitor(&mut self)
        ensures
            *final(self) == (AppState {
                running: Running { calendar: true, ..old(self).running },
                ..*old(self)
            }),
    {
        self.running.calendar = true;
    }

    /// Starts the dispatch loop.
    pub fn start_dispatch_loop(&mut self)
        ensures
            *final(self) == (AppState {
                running: Running { dispatch_loop: true, ..old(self).running },
                ..*old(self)
            }),
    {
        self.running.dispatch_loop = true;
    }

    /// Starts syncing the calendars, where everything it needs is there.
    pub fn start_calendar_sync(
        &mut self,
        has_database: bool,
        has_calendar_store: bool,
        has_vault: bool,
    ) -> (r: CalendarSyncStart)
        ensures
            r == if !has_database {
                CalendarSyncStart::NoDatabase
            } else if !has_calendar_store {
                CalendarSyncStart::NoCalendarStore
            } else if !has_vault {
                CalendarSyncStart::NoVault
            } else {
                CalendarSyncStart::Start
            },
            *final(self) == (AppState {
                running: Running {
                    calendar_sync: old(self).running.calendar_sync || r
                        == CalendarSyncStart::Start,
                    ..old(self).running
                },
                ..*old(self)
            }),
    {
        if !has_database {
            return CalendarSyncStart::NoDatabase;
        }
        if !has_calendar_store {
            return CalendarSyncStart::NoCalendarStore;
        }
        if !has_vault {
            return CalendarSyncStart::NoVault;
        }
        self.running.calendar_sync = true;
        CalendarSyncStart::Start
    }

    /// Starts removing old attachments, where there is a store for them.
    pub fn start_attachment_purger(&mut self, has_store: bool) -> (r: bool)
        ensures
            r == has_store,
            *final(self) == (AppState {
                running: Running {
                    attachment_purger: old(self).running.attachment_purger || has_store,
                    ..old(self).running
                },
                ..*old(self)
            }),
    {
        if has_store {
            self.running.attachment_purger = true;
        }
        has_store
    }

    /// Starts the wake-up scheduler, unless it runs already or has no store.
    pub fn start_wakeup_scheduler(&mut self, has_store: bool) -> (r: bool)
        ensures
            r == (has_store && !old(self).running.wakeup_scheduler),
            *final(self) == (AppState {
                running: Running {
                    wakeup_scheduler: old(self).running.wakeup_scheduler || has_store,
                    ..old(self).running
                },
                ..*old(self)
            }),
    {
        if !has_store || self.running.wakeup_scheduler {
            return false;
        }
        self.running.wakeup_scheduler = true;
        true
    }

    /// What is reachable from outside, with what was just found of the tunnel
    /// program.
    pub fn remote_access_status_snapshot(&mut self, cloudflared_installed: bool) -> (r:
        RemoteAccessStatus)
        ensures
            r == (RemoteAccessStatus {
                cloudflared_installed,
                ..old(self).remote_access_status
            }),
            *final(self) == (AppState { remote_access_status: r, ..*old(self) }),
    {
        self.remote_access_status.cloudflared_installed = cloudflared_installed;
        self.remote_access_status.copy()
    }

    /// Stops listening and tears down the tunnel; safe where nothing runs.
    /// The results say what was running.
    pub fn stop_remote_access(&mut self) -> (r: (bool, bool))
        ensures
            r == (old(self).running.remote_access, old(self).running.tunnel),
            is_idle(final(self).remote_access_status),
            *final(self) == (AppState {
                running: Running { remote_access: false, tunnel: false, ..old(self).running },
                remote_access_status: final(self).remote_access_status,
                ..*old(self)
            }),
    {
        let r = (self.running.remote_access, self.running.tunnel);
        self.running.remote_access = false;
        self.running.tunnel = false;
        self.remote_access_status = RemoteAccessStatus::default();
        r
    }

    /// Starts to listen on a local port, after stopping what listened before.
    /// A tunnel is brought up only where it is enabled; the result is the first
    /// step towards it.
    pub fn start_remote_access(
        &mut self,
        port: u16,
        cloudflared_installed: bool,
        tunnel_enabled: bool,
    ) -> (r: TunnelStep)
        ensures
            r == tunnel_begins(tunnel_enabled),
            ({
                let s = final(self).remote_access_status;
                &&& s.listening
                &&& s.local_url.deep_view() == Some(local_address(port))
                &&& s.tunnel_url is None
                &&& s.last_error is None
                &&& s.cloudflared_installed == cloudflared_installed
            }),
            *final(self) == (AppState {
                running: Running { remote_access: true, tunnel: false, ..old(self).running },
                remote_access_status: final(self).remote_access_status,
                ..*old(self)
            }),
    {
        self.stop_remote_access();
        self.running.remote_access = true;
        let n = decimal_u64(port as u64);
        self.remote_access_status = RemoteAccessStatus {
            listening: true,
            local_url: Some(cat2("http://127.0.0.1:", n.as_str())),
            tunnel_url: None,
            cloudflared_installed,
            last_error: None,
        };
        if tunnel_enabled {
            TunnelStep::InstallProgram
        } else {
            TunnelStep::Nothing
        }
    }

    /// The tunnel program was made available, or could not be. A tunnel is
    /// started to the port only where the program is there.
    pub fn tunnel_program_ready(&mut self, port: u16, outcome: &Result<(), String>) -> (r:
        TunnelStep)
        ensures
            match outcome {
                Ok(_) => {
                    &&& r == TunnelStep::Start { port }
                    &&& *final(self) == (AppState {
                        remote_access_status: RemoteAccessStatus {
                            cloudflared_installed: true,
                            ..old(self).remote_access_status
                        },
                        ..*old(self)
                    })
                },
                Err(e) => {
                    &&& r == TunnelStep::Nothing
                    &&& final(self).remote_access_status.last_error.deep_view() == Some(
                        "cloudflared install failed: "@ + e@,
                    )
                    &&& *final(self) == (AppState {
                        remote_access_status: RemoteAccessStatus {
                            last_error: final(self).remote_access_status.last_error,
                            ..old(self).remote_access_status
                        },
                        ..*old(self)
                    })
                },
            },
    {
        match outcome {
            Ok(_) => {
                self.remote_access_status.cloudflared_installed = true;
                TunnelStep::Start { port }
            },
            Err(e) => {
                self.remote_access_status.last_error = Some(
                    cat2("cloudflared install failed: ", e.as_str()),
                );
                TunnelStep::Nothing
            },
        }
    }

    /// The tunnel came up at an address, or could not be started.
    pub fn tunnel_started(&mut self, outcome: &Result<String, String>)
        ensures
            match outcome {
                Ok(url) => *final(self) == (AppState {
                    running: Running { tunnel: true, ..old(self).running },
                    remote_access_status: RemoteAccessStatus {
                        tunnel_url: Some(*url),
                        last_error: None,
                        ..old(self).remote_access_status
                    },
                    ..*old(self)
                }),
                Err(e) => {
                    &&& final(self).remote_access_status.last_error.deep_view() == Some(
                        "tunnel start failed: "@ + e@,
                    )
                    &&& *final(self) == (AppState {
                        remote_access_status: RemoteAccessStatus {
                            last_error: final(self).remote_access_status.last_error,
                            ..old(self).remote_access_status
                        },
                        ..*old(self)
                    })
                },
            },
    {
        match outcome {
            Ok(url) => {
                self.running.tunnel = true;
                self.remote_access_status.tunnel_url = Some(url.clone());
                self.remote_access_status.last_error = None;
            },
            Err(e) => {
                self.remote_access_status.last_error = Some(
                    cat2("tunnel start failed: ", e.as_str()),
                );
            },
        }
    }
}

proof fn lemma_budget_add(a: Seq<ShutdownStep>, b: Seq<ShutdownStep>)
    ensures
        total_budget(a + b) == total_budget(a) + total_budget(b),
    decreases b.len(),
{
    if b.len() == 0 {
        assert(a + b =~= a);
    } else {
        assert((a + b).drop_last() =~= a + b.drop_last());
        lemma_budget_add(a, b.drop_last());
    }
}

proof fn lemma_when_budget(b: bool, s: ShutdownStep)
    ensures
        total_budget(when(b, s)) == if b {
            step_budget(s)
        } else {
            0
        },
{
    reveal_with_fuel(total_budget, 2);
    assert(seq![s].drop_last() =~= Seq::<ShutdownStep>::empty());
}

/// A shutdown never waits longer than five and a half seconds, whatever hangs.
pub proof fn shutdown_is_bounded(r: Running, agents: bool, pidfile: bool, database: bool)
    ensures
        total_budget(shutdown_signals(r) + shutdown_waits(agents, pidfile, database)) <= 5500,
{
    let s = shutdown_signals(r);
    let w = shutdown_waits(agents, pidfile, database);
    lemma_budget_add(s, w);
    let a = when(agents, ShutdownStep::FinalizeAgents);
    let k = seq![ShutdownStep::KillSpawned];
    let p = when(pidfile, ShutdownStep::TruncatePidfile);
    let d = when(database, ShutdownStep::CheckpointDatabase);
    lemma_budget_add(a + k + p, d);
    lemma_budget_add(a + k, p);
    lemma_budget_add(a, k);
    lemma_when_budget(agents, ShutdownStep::FinalizeAgents);
    lemma_when_budget(true, ShutdownStep::KillSpawned);
    lemma_when_budget(pidfile, ShutdownStep::TruncatePidfile);
    lemma_when_budget(database, ShutdownStep::CheckpointDatabase);
    assert(when(true, ShutdownStep::KillSpawned) =~= k);
    lemma_signals_are_free(s, r);
}

proof fn lemma_signals_are_free(s: Seq<ShutdownStep>, r: Running)
    requires
        s == shutdown_signals(r),
    ensures
        total_budget(s) == 0,
{
    let s1 = when(r.email, ShutdownStep::SignalEmail);
    let s2 = s1 + when(r.telegram, ShutdownStep::SignalTelegram);
    let s3 = s2 + when(r.calendar, ShutdownStep::SignalCalendar);
    let s4 = s3 + when(r.calendar_sync, ShutdownStep::SignalCalendarSync);
    let s5 = s4 + when(r.attachment_purger, ShutdownStep::SignalAttachmentPurger);
    let s6 = s5 + when(r.dispatch_loop, ShutdownStep::SignalDispatchLoop);
    let s7 = s6 + when(r.wakeup_scheduler, ShutdownStep::SignalWakeupScheduler);
    let s8 = s7 + when(r.remote_access, ShutdownStep::StopRemoteAccess);
    lemma_when_budget(r.email, ShutdownStep::SignalEmail);
    lemma_when_budget(r.telegram, ShutdownStep::SignalTelegram);
    lemma_when_budget(r.calendar, ShutdownStep::SignalCalendar);
    lemma_when_budget(r.calendar_sync, ShutdownStep::SignalCalendarSync);
    lemma_when_budget(r.attachment_purger, ShutdownStep::SignalAttachmentPurger);
    lemma_when_budget(r.dispatch_loop, ShutdownStep::SignalDispatchLoop);
    lemma_when_budget(r.wakeup_scheduler, ShutdownStep::SignalWakeupScheduler);
    lemma_when_budget(r.remote_access, ShutdownStep::StopRemoteAccess);
    lemma_when_budget(r.tunnel, ShutdownStep::StopTunnel);
    lemma_budget_add(s1, when(r.telegram, ShutdownStep::SignalTelegram));
    lemma_budget_add(s2, when(r.calendar, ShutdownStep::SignalCalendar));
    lemma_budget_add(s3, when(r.calendar_sync, ShutdownStep::SignalCalendarSync));
    lemma_budget_add(s4, when(r.attachment_purger, ShutdownStep::SignalAttachmentPurger));
    lemma_budget_add(s5, when(r.dispatch_loop, ShutdownStep::SignalDispatchLoop));
    lemma_budget_add(s6, when(r.wakeup_scheduler, ShutdownStep::SignalWakeupScheduler));
    lemma_budget_add(s7, when(r.remote_access, ShutdownStep::StopRemoteAccess));
    lemma_budget_add(s8, when(r.tunnel, ShutdownStep::StopTunnel));
}

// ---------------------------------------------------------------------------
// Configuration and optional parts
// ---------------------------------------------------------------------------

/// A directory that may hold the configuration.
#[derive(Clone, Debug)]
pub struct ConfigDir {
    pub path: String,
    pub exists: bool,
}

/// Where the configuration lies: the user's directory where it exists, else
/// the local one where that exists.
pub fn find_config_dir(user: &Option<ConfigDir>, local_exists: bool) -> (r: Option<String>)
    ensures
        r.deep_view() == match user {
            Some(d) => if d.exists {
                Some(d.path@)
            } else if local_exists {
                Some("config"@)
            } else {
                None
            },
            None => if local_exists {
                Some("config"@)
            } else {
                None
            },
        },
{
    if let Some(d) = user {
        if d.exists {
            return Some(d.path.clone());
        }
    }
    if local_exists {
        Some(owned("config"))
    } else {
        None
    }
}

/// What the proactive hints look at: whether the active provider is local,
/// and how many calendars are connected. No hint is looked for where dismissals
/// cannot be stored.
pub fn start_proactive_hint_checker(
    has_store: bool,
    active_provider: &str,
    sources: Option<usize>,
) -> (r: Option<(bool, usize)>)
    ensures
        r == if has_store {
            Some(
                (
                    is_local_id(active_provider@),
                    match sources {
                        Some(n) => n,
                        None => 0,
                    },
                ),
            )
        } else {
            None
        },
{
    if !has_store {
        return None;
    }
    let n: usize = match sources {
        Some(n) => n,
        None => 0,
    };
    Some((is_local_provider(active_provider), n))
}

/// Where the definition of an enabled tool server comes from.
#[derive(Clone, Copy, Debug, PartialEq, Eq, Structural)]
pub enum McpSource {
    Bundled,
    Custom,
}

/// Where the definition of a tool server comes from: what comes with the app
/// wins over what the user defined.
pub open spec fn mcp_source(id: Seq<char>, bundled: Seq<Seq<char>>, custom: Seq<Seq<char>>)
    -> Option<McpSource> {
    if bundled.contains(id) {
        Some(McpSource::Bundled)
    } else if custom.contains(id) {
        Some(McpSource::Custom)
    } else {
        None
    }
}

/// The enabled tool servers that are known: their place in the list, and
/// where their definition comes from.
pub open spec fn restored_mcps(
    ids: Seq<Seq<char>>,
    bundled: Seq<Seq<char>>,
    custom: Seq<Seq<char>>,
) -> Seq<(int, McpSource)>
    decreases ids.len(),
{
    if ids.len() == 0 {
        Seq::empty()
    } else {
        let before = restored_mcps(ids.drop_last(), bundled, custom);
        match mcp_source(ids.last(), bundled, custom) {
            Some(s) => before.push((ids.len() - 1, s)),
            None => before,
        }
    }
}

/// The enabled tool servers that are known; unknown ones are skipped.
pub fn restore_enabled_mcps(ids: &Vec<String>, bundled: &Vec<String>, custom: &Vec<String>) -> (r:
    Vec<(usize, McpSource)>)
    ensures
        r@.map_values(|p: (usize, McpSource)| (p.0 as int, p.1)) == restored_mcps(
            ids.deep_view(),
            bundled.deep_view(),
            custom.deep_view(),
        ),
{
    let ghost all = ids.deep_view();
    let ghost b = bundled.deep_view();
    let ghost c = custom.deep_view();
    let mut out: Vec<(usize, McpSource)> = Vec::new();
    let mut i: usize = 0;
    proof {
        assert(out@.map_values(|p: (usize, McpSource)| (p.0 as int, p.1)) =~= restored_mcps(
            all.take(0),
            b,
            c,
        ));
    }
    while i < ids.len()
        invariant
            all == ids.deep_view(),
            b == bundled.deep_view(),
            c == custom.deep_view(),
            i <= ids@.len(),
            out@.map_values(|p: (usize, McpSource)| (p.0 as int, p.1)) == restored_mcps(
                all.take(i as int),
                b,
                c,
            ),
        decreases ids@.len() - i,
    {
        let ghost before = out@.map_values(|p: (usize, McpSource)| (p.0 as int, p.1));
        proof {
            assert(all.take(i + 1).drop_last() =~= all.take(i as int));
            assert(all.take(i + 1).last() == all[i as int]);
        }
        if holds(bundled, ids[i].as_str()) {
            out.push((i, McpSource::Bundled));
            proof {
                assert(out@.map_values(|p: (usize, McpSource)| (p.0 as int, p.1)) =~= before.push(
                    (i as int, McpSource::Bundled),
                ));
            }
        } else if holds(custom, ids[i].as_str()) {
            out.push((i, McpSource::Custom));
            proof {
                assert(out@.map_values(|p: (usize, McpSource)| (p.0 as int, p.1)) =~= before.push(
                    (i as int, McpSource::Custom),
                ));
            }
        }
        i += 1;
    }
    proof {
        assert(all.take(i as int) =~= all);
    }
    out
}

// ---------------------------------------------------------------------------
// What starting and stopping promise
// ---------------------------------------------------------------------------

/// The place of a step in a shutdown.
pub open spec fn shutdown_place(s: ShutdownStep) -> int {
    match s {
        ShutdownStep::SignalEmail => 0,
        ShutdownStep::SignalTelegram => 1,
        ShutdownStep::SignalCalendar => 2,
        ShutdownStep::SignalCalendarSync => 3,
        ShutdownStep::SignalAttachmentPurger => 4,
        ShutdownStep::SignalDispatchLoop => 5,
        ShutdownStep::SignalWakeupScheduler => 6,
        ShutdownStep::StopRemoteAccess => 7,
        ShutdownStep::StopTunnel => 8,
        ShutdownStep::FinalizeAgents => 9,
        ShutdownStep::KillSpawned => 10,
        ShutdownStep::TruncatePidfile => 11,
        ShutdownStep::CheckpointDatabase => 12,
    }
}

/// The steps of `v` come in the order of their places.
pub open spec fn shutdown_in_order(v: Seq<ShutdownStep>) -> bool {
    forall|i: int, j: int|
        0 <= i < j < v.len() ==> shutdown_place(#[trigger] v[i]) < shutdown_place(#[trigger] v[j])
}

#[verifier::opaque]
spec fn takes(v: Seq<ShutdownStep>, taken: Set<ShutdownStep>, top: int) -> bool {
    &&& shutdown_in_order(v)
    &&& forall|i: int| 0 <= i < v.len() ==> shutdown_place(#[trigger] v[i]) <= top
    &&& forall|t: ShutdownStep| #[trigger] v.contains(t) <==> taken.contains(t)
}

spec fn taken_when(taken: Set<ShutdownStep>, b: bool, s: ShutdownStep) -> Set<ShutdownStep> {
    Set::new(|t: ShutdownStep| taken.contains(t) || (b && t == s))
}

proof fn lemma_takes(
    v: Seq<ShutdownStep>,
    taken: Set<ShutdownStep>,
    top: int,
    b: bool,
    s: ShutdownStep,
)
    requires
        takes(v, taken, top),
        top < shutdown_place(s),
    ensures
        takes(v + when(b, s), taken_when(taken, b, s), shutdown_place(s)),
{
    reveal(takes);
    let w = v + when(b, s);
    assert forall|t: ShutdownStep| #[trigger] w.contains(t) <==> taken_when(taken, b, s).contains(
        t,
    ) by {
        if v.contains(t) {
            let i = choose|i: int| 0 <= i < v.len() && v[i] == t;
            assert(w[i] == t);
        }
        if b && t == s {
            assert(w[v.len() as int] == t);
        }
        if w.contains(t) {
            let i = choose|i: int| 0 <= i < w.len() && w[i] == t;
            if i < v.len() {
                assert(v[i] == t);
            }
        }
    }
}

proof fn lemma_taken(v: Seq<ShutdownStep>, taken: Set<ShutdownStep>, top: int)
    requires
        takes(v, taken, top),
    ensures
        shutdown_in_order(v),
        forall|t: ShutdownStep| #[trigger] v.contains(t) <==> taken.contains(t),
{
    reveal(takes);
}

spec fn signalled(r: Running) -> Set<ShutdownStep> {
    let p0 = Set::<ShutdownStep>::empty();
    let p1 = taken_when(p0, r.email, ShutdownStep::SignalEmail);
    let p2 = taken_when(p1, r.telegram, ShutdownStep::SignalTelegram);
    let p3 = taken_when(p2, r.calendar, ShutdownStep::SignalCalendar);
    let p4 = taken_when(p3, r.calendar_sync, ShutdownStep::SignalCalendarSync);
    let p5 = taken_when(p4, r.attachment_purger, ShutdownStep::SignalAttachmentPurger);
    let p6 = taken_when(p5, r.dispatch_loop, ShutdownStep::SignalDispatchLoop);
    let p7 = taken_when(p6, r.wakeup_scheduler, ShutdownStep::SignalWakeupScheduler);
    let p8 = taken_when(p7, r.remote_access, ShutdownStep::StopRemoteAccess);
    let p9 = taken_when(p8, r.tunnel, ShutdownStep::StopTunnel);
    p9
}

#[verifier::opaque]
spec fn signals_what_runs(r: Running, v: Seq<ShutdownStep>) -> bool {
    &&& shutdown_in_order(v)
    &&& v.contains(ShutdownStep::SignalEmail) <==> r.email
    &&& v.contains(ShutdownStep::SignalTelegram) <==> r.telegram
    &&& v.contains(ShutdownStep::SignalCalendar) <==> r.calendar
    &&& v.contains(ShutdownStep::SignalCalendarSync) <==> r.calendar_sync
    &&& v.contains(ShutdownStep::SignalAttachmentPurger) <==> r.attachment_purger
    &&& v.contains(ShutdownStep::SignalDispatchLoop) <==> r.dispatch_loop
    &&& v.contains(ShutdownStep::SignalWakeupScheduler) <==> r.wakeup_scheduler
    &&& v.contains(ShutdownStep::StopRemoteAccess) <==> r.remote_access
    &&& v.contains(ShutdownStep::StopTunnel) <==> r.tunnel
    &&& !v.contains(ShutdownStep::FinalizeAgents) && !v.contains(
        ShutdownStep::KillSpawned,
    ) && !v.contains(ShutdownStep::TruncatePidfile) && !v.contains(
        ShutdownStep::CheckpointDatabase,
    )
}

proof fn lemma_signalled(r: Running, v: Seq<ShutdownStep>, top: int)
    requires
        takes(v, signalled(r), top),
    ensures
        signals_what_runs(r, v),
{
    reveal(signals_what_runs);
    lemma_taken(v, signalled(r), top);
}

proof fn lemma_signals_taken(r: Running)
    ensures
        takes(shutdown_signals(r), signalled(r), 8),
{
    let v0 = Seq::<ShutdownStep>::empty();
    let p0 = Set::<ShutdownStep>::empty();
    assert(takes(v0, p0, -1)) by {
        reveal(takes);
    }
    lemma_takes(v0, p0, -1, r.email, ShutdownStep::SignalEmail);
    let v1 = when(r.email, ShutdownStep::SignalEmail);
    assert(v0 + v1 =~= v1);
    let p1 = taken_when(p0, r.email, ShutdownStep::SignalEmail);
    lemma_takes(v1, p1, 0, r.telegram, ShutdownStep::SignalTelegram);
    let v2 = v1 + when(r.telegram, ShutdownStep::SignalTelegram);
    let p2 = taken_when(p1, r.telegram, ShutdownStep::SignalTelegram);
    lemma_takes(v2, p2, 1, r.calendar, ShutdownStep::SignalCalendar);
    let v3 = v2 + when(r.calendar, ShutdownStep::SignalCalendar);
    let p3 = taken_when(p2, r.calendar, ShutdownStep::SignalCalendar);
    lemma_takes(v3, p3, 2, r.calendar_sync, ShutdownStep::SignalCalendarSync);
    let v4 = v3 + when(r.calendar_sync, ShutdownStep::SignalCalendarSync);
    let p4 = taken_when(p3, r.calendar_sync, ShutdownStep::SignalCalendarSync);
    lemma_takes(v4, p4, 3, r.attachment_purger, ShutdownStep::SignalAttachmentPurger);
    let v5 = v4 + when(r.attachment_purger, ShutdownStep::SignalAttachmentPurger);
    let p5 = taken_when(p4, r.attachment_purger, ShutdownStep::SignalAttachmentPurger);
    lemma_takes(v5, p5, 4, r.dispatch_loop, ShutdownStep::SignalDispatchLoop);
    let v6 = v5 + when(r.dispatch_loop, ShutdownStep::SignalDispatchLoop);
    let p6 = taken_when(p5, r.dispatch_loop, ShutdownStep::SignalDispatchLoop);
    lemma_takes(v6, p6, 5, r.wakeup_scheduler, ShutdownStep::SignalWakeupScheduler);
    let v7 = v6 + when(r.wakeup_scheduler, ShutdownStep::SignalWakeupScheduler);
    let p7 = taken_when(p6, r.wakeup_scheduler, ShutdownStep::SignalWakeupScheduler);
    lemma_takes(v7, p7, 6, r.remote_access, ShutdownStep::StopRemoteAccess);
    let v8 = v7 + when(r.remote_access, ShutdownStep::StopRemoteAccess);
    let p8 = taken_when(p7, r.remote_access, ShutdownStep::StopRemoteAccess);
    lemma_takes(v8, p8, 7, r.tunnel, ShutdownStep::StopTunnel);
    let v9 = v8 + when(r.tunnel, ShutdownStep::StopTunnel);
    let p9 = taken_when(p8, r.tunnel, ShutdownStep::StopTunnel);
}

/// A shutdown signals everything that runs, and nothing else, once and in a
/// fixed order.
pub proof fn everything_that_runs_is_signalled(r: Running)
    ensures
        ({
            let v = shutdown_signals(r);
            &&& shutdown_in_order(v)
            &&& v.contains(ShutdownStep::SignalEmail) <==> r.email
            &&& v.contains(ShutdownStep::SignalTelegram) <==> r.telegram
            &&& v.contains(ShutdownStep::SignalCalendar) <==> r.calendar
            &&& v.contains(ShutdownStep::SignalCalendarSync) <==> r.calendar_sync
            &&& v.contains(ShutdownStep::SignalAttachmentPurger) <==> r.attachment_purger
            &&& v.contains(ShutdownStep::SignalDispatchLoop) <==> r.dispatch_loop
            &&& v.contains(ShutdownStep::SignalWakeupScheduler) <==> r.wakeup_scheduler
            &&& v.contains(ShutdownStep::StopRemoteAccess) <==> r.remote_access
            &&& v.contains(ShutdownStep::StopTunnel) <==> r.tunnel
            &&& !v.contains(ShutdownStep::FinalizeAgents) && !v.contains(
                ShutdownStep::KillSpawned,
            ) && !v.contains(ShutdownStep::TruncatePidfile) && !v.contains(
                ShutdownStep::CheckpointDatabase,
            )
        }),
{
    lemma_signals_taken(r);
    lemma_signalled(r, shutdown_signals(r), 8);
    reveal(signals_what_runs);
}

/// Then it ends what was spawned, in any case, between finishing the agents'
/// runs and clearing the record of processes, and saves the database last.
pub proof fn spawned_processes_are_always_ended(agents: bool, pidfile: bool, database: bool)
    ensures
        ({
            let v = shutdown_waits(agents, pidfile, database);
            &&& shutdown_in_order(v)
            &&& v.contains(ShutdownStep::FinalizeAgents) <==> agents
            &&& v.contains(ShutdownStep::KillSpawned)
            &&& v.contains(ShutdownStep::TruncatePidfile) <==> pidfile
            &&& v.contains(ShutdownStep::CheckpointDatabase) <==> database
        }),
{
    let v0 = Seq::<ShutdownStep>::empty();
    let p0 = Set::<ShutdownStep>::empty();
    assert(takes(v0, p0, -1)) by {
        reveal(takes);
    }
    lemma_takes(v0, p0, -1, agents, ShutdownStep::FinalizeAgents);
    let v1 = when(agents, ShutdownStep::FinalizeAgents);
    assert(v0 + v1 =~= v1);
    let p1 = taken_when(p0, agents, ShutdownStep::FinalizeAgents);
    lemma_takes(v1, p1, shutdown_place(ShutdownStep::FinalizeAgents), true, ShutdownStep::KillSpawned);
    let v2 = v1 + when(true, ShutdownStep::KillSpawned);
    let p2 = taken_when(p1, true, ShutdownStep::KillSpawned);
    lemma_takes(v2, p2, shutdown_place(ShutdownStep::KillSpawned), pidfile, ShutdownStep::TruncatePidfile);
    let v3 = v2 + when(pidfile, ShutdownStep::TruncatePidfile);
    let p3 = taken_when(p2, pidfile, ShutdownStep::TruncatePidfile);
    lemma_takes(v3, p3, shutdown_place(ShutdownStep::TruncatePidfile), database, ShutdownStep::CheckpointDatabase);
    let v4 = v3 + when(database, ShutdownStep::CheckpointDatabase);
    let p4 = taken_when(p3, database, ShutdownStep::CheckpointDatabase);
    assert(when(true, ShutdownStep::KillSpawned) == seq![ShutdownStep::KillSpawned]);
    lemma_taken(shutdown_waits(agents, pidfile, database), p4, shutdown_place(ShutdownStep::CheckpointDatabase));
}

/// Signals take no time; what is waited for has a limit of its own.
pub proof fn waits_have_limits(s: ShutdownStep)
    ensures
        s == ShutdownStep::FinalizeAgents ==> step_budget(s) == 1000,
        s == ShutdownStep::KillSpawned ==> step_budget(s) == 2000,
        s == ShutdownStep::TruncatePidfile ==> step_budget(s) == 500,
        s == ShutdownStep::CheckpointDatabase ==> step_budget(s) == 2000,
        shutdown_place(s) < 9 ==> step_budget(s) == 0,
        total_budget(Seq::empty()) == 0,
        forall|v: Seq<ShutdownStep>| #[trigger] total_budget(v.push(s)) == total_budget(v)
            + step_budget(s),
{
    assert forall|v: Seq<ShutdownStep>| #[trigger] total_budget(v.push(s)) == total_budget(v)
        + step_budget(s) by {
        assert(v.push(s).drop_last() =~= v);
    }
}

/// At first nothing runs and nothing is reachable.
pub proof fn nothing_runs_at_first(s: RemoteAccessStatus, port: u16)
    ensures
        shutdown_signals(nothing_runs()).len() == 0,
        is_idle(s) <==> !s.listening && s.local_url is None && s.tunnel_url is None
            && !s.cloudflared_installed && s.last_error is None,
        local_address(port) == "http://127.0.0.1:"@ + decimal(port as nat),
        tunnel_begins(true) == TunnelStep::InstallProgram,
        tunnel_begins(false) == TunnelStep::Nothing,
{
}

/// A server that is restored is looked for among the bundled ones first, then
/// among the user's own. Those that are found are listed in order.
pub proof fn servers_are_restored_in_order(
    ids: Seq<Seq<char>>,
    id: Seq<char>,
    bundled: Seq<Seq<char>>,
    custom: Seq<Seq<char>>,
)
    ensures
        bundled.contains(id) ==> mcp_source(id, bundled, custom) == Some(McpSource::Bundled),
        !bundled.contains(id) && custom.contains(id) ==> mcp_source(id, bundled, custom) == Some(
            McpSource::Custom,
        ),
        !bundled.contains(id) && !custom.contains(id) ==> mcp_source(id, bundled, custom) is None,
        restored_mcps(Seq::empty(), bundled, custom).len() == 0,
        bundled.contains(id) ==> restored_mcps(ids.push(id), bundled, custom) == restored_mcps(
            ids,
            bundled,
            custom,
        ).push((ids.len() as int, McpSource::Bundled)),
        !bundled.contains(id) && custom.contains(id) ==> restored_mcps(
            ids.push(id),
            bundled,
            custom,
        ) == restored_mcps(ids, bundled, custom).push((ids.len() as int, McpSource::Custom)),
        !bundled.contains(id) && !custom.contains(id) ==> restored_mcps(
            ids.push(id),
            bundled,
            custom,
        ) == restored_mcps(ids, bundled, custom),
{
    assert(ids.push(id).drop_last() =~= ids);
    assert(ids.push(id).last() == id);
}

} // verus!
