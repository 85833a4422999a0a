//! The background loops: which tasks the dispatch loop runs, what it cleans
//! up after them, and when a monitor that died is started again.

use vstd::prelude::*;
use vstd::string::*;
use std::collections::HashMap;
use crate::models::{ModelProfile, ModelsConfig, ProviderConfig, Timestamp};
use crate::routing::{
    ArcLookup, ArcPin, EffectiveProviderTarget, PinInstall, SecurityMode, active_provider_of,
    effective_target, pin_to_install, resolve_active_provider,
    resolve_effective_provider_for_arc_with_config, resolve_reasoning_effort_for_arc,
    resolve_security_mode_for_arc, unpinned_target, uses_shared_router,
};

verus! {

// ---------------------------------------------------------------------------
// Tables
// ---------------------------------------------------------------------------

/// The mail that a task came from, to be marked as read once it is done.
#[derive(Debug, Clone)]
pub struct EmailMarkInfo {
    pub uid: u32,
    pub folder: String,
}

/// What is known of the tasks under way: the arc of each, the wake-up that it
/// came from, and the mail that it came from.
pub struct TaskTables {
    pub arcs: HashMap<u128, String>,
    pub wakeups: HashMap<u128, u128>,
    pub email_marks: HashMap<u128, EmailMarkInfo>,
}

/// How a task ended.
#[derive(Debug, Clone)]
pub enum TaskOutcome {
    /// The agent finished, with success or without.
    Finished(bool),
    /// The task was running already.
    Skipped,
    Failed(String),
    Panicked,
}

/// The agent finished with success.
pub open spec fn succeeded(o: TaskOutcome) -> bool {
    o == TaskOutcome::Finished(true)
}

/// What becomes of the mail that a task came from.
#[derive(Debug, Clone)]
pub enum EmailMark {
    /// It came from no mail.
    Nothing,
    /// The mail is marked as read.
    MarkSeen(EmailMarkInfo),
    /// The mail stays unread, so that it is found again.
    LeaveUnseen(EmailMarkInfo),
}

/// What becomes of the mail, given where it lies.
pub open spec fn mark_for(info: Option<EmailMarkInfo>, o: TaskOutcome) -> EmailMark {
    match info {
        Some(i) => if succeeded(o) {
            EmailMark::MarkSeen(i)
        } else {
            EmailMark::LeaveUnseen(i)
        },
        None => EmailMark::Nothing,
    }
}

pub open spec fn lookup<V>(m: Map<u128, V>, k: u128) -> Option<V> {
    if m.contains_key(k) {
        Some(m[k])
    } else {
        None
    }
}

impl TaskTables {
    pub fn new() -> (r: Self)
        ensures
            r.arcs@ == Map::<u128, String>::empty(),
            r.wakeups@ == Map::<u128, u128>::empty(),
            r.email_marks@ == Map::<u128, EmailMarkInfo>::empty(),
    {
        broadcast use vstd::std_specs::hash::group_hash_axioms;

        TaskTables { arcs: HashMap::new(), wakeups: HashMap::new(), email_marks: HashMap::new() }
    }

    /// A task was queued for an arc.
    pub fn register(
        &mut self,
        task: u128,
        arc_id: String,
        wakeup: Option<u128>,
        mark: Option<EmailMarkInfo>,
    )
        ensures
            final(self).arcs@ == old(self).arcs@.insert(task, arc_id),
            final(self).wakeups@ == match wakeup {
                Some(w) => old(self).wakeups@.insert(task, w),
                None => old(self).wakeups@,
            },
            final(self).email_marks@ == match mark {
                Some(m) => old(self).email_marks@.insert(task, m),
                None => old(self).email_marks@,
            },
    {
        broadcast use vstd::std_specs::hash::group_hash_axioms;

        self.arcs.insert(task, arc_id);
        if let Some(w) = wakeup {
            self.wakeups.insert(task, w);
        }
        if let Some(m) = mark {
            self.email_marks.insert(task, m);
        }
    }

    /// The arc of a task, if the loop owns it.
    pub fn arc_of(&self, task: u128) -> (r: Option<&String>)
        ensures
            match r {
                Some(a) => lookup(self.arcs@, task) == Some(*a),
                None => lookup(self.arcs@, task) is None,
            },
    {
        broadcast use vstd::std_specs::hash::group_hash_axioms;

        self.arcs.get(&task)
    }

    /// What the queue handed out: a task is the loop's own where its arc is
    /// known.
    pub fn pulled(&self, next: &Result<Option<u128>, String>) -> (r: Pulled)
        ensures
            r == match next {
                Ok(Some(task)) => if lookup(self.arcs@, *task) is Some {
                    Pulled::Own
                } else {
                    Pulled::Foreign
                },
                Ok(None) => Pulled::Nothing,
                Err(_) => Pulled::Error,
            },
    {
        match next {
            Ok(Some(task)) => if self.arc_of(*task).is_some() {
                Pulled::Own
            } else {
                Pulled::Foreign
            },
            Ok(None) => Pulled::Nothing,
            Err(_) => Pulled::Error,
        }
    }

    /// The wake-up that a task came from.
    pub fn wakeup_of(&self, task: u128) -> (r: Option<u128>)
        ensures
            r == lookup(self.wakeups@, task),
    {
        broadcast use vstd::std_specs::hash::group_hash_axioms;

        match self.wakeups.get(&task) {
            Some(w) => Some(*w),
            None => None,
        }
    }

    /// A task ended: it leaves every table, whatever its outcome. The result
    /// is what becomes of its mail.
    pub fn finish(&mut self, task: u128, outcome: &TaskOutcome) -> (r: EmailMark)
        ensures
            final(self).arcs@ == old(self).arcs@.remove(task),
            final(self).wakeups@ == old(self).wakeups@.remove(task),
            final(self).email_marks@ == old(self).email_marks@.remove(task),
            r == mark_for(lookup(old(self).email_marks@, task), *outcome),
    {
        broadcast use vstd::std_specs::hash::group_hash_axioms;

        self.arcs.remove(&task);
        self.wakeups.remove(&task);
        let info = self.email_marks.remove(&task);
        let done = match outcome {
            TaskOutcome::Finished(ok) => *ok,
            TaskOutcome::Skipped => false,
            TaskOutcome::Failed(_) => false,
            TaskOutcome::Panicked => false,
        };
        match info {
            Some(i) => if done {
                EmailMark::MarkSeen(i)
            } else {
                EmailMark::LeaveUnseen(i)
            },
            None => EmailMark::Nothing,
        }
    }
}

/// A mail is only marked as read where the agent finished its task with
/// success.
pub proof fn only_success_marks_mail(info: Option<EmailMarkInfo>, o: TaskOutcome)
    ensures
        mark_for(info, o) is MarkSeen <==> info is Some && succeeded(o),
{
}

/// Once a task has ended no table holds it, and other tasks are untouched.
pub proof fn finished_tasks_leave_no_trace(
    before: Map<u128, String>,
    task: u128,
    other: u128,
)
    requires
        other != task,
    ensures
        lookup(before.remove(task), task) is None,
        lookup(before.remove(task), other) == lookup(before, other),
{
}

// ---------------------------------------------------------------------------
// Draining the queue
// ---------------------------------------------------------------------------

/// What the queue handed out.
#[derive(Clone, Copy, Debug, PartialEq, Eq, Structural)]
pub enum Pulled {
    /// A task that the loop owns.
    Own,
    /// A task that belongs to another path.
    Foreign,
    Nothing,
    Error,
}

/// What the loop does next.
#[derive(Clone, Copy, Debug, PartialEq, Eq, Structural)]
pub enum DrainStep {
    /// Run the task.
    Run,
    /// Release the agent, put the task back and go on.
    PutBack,
    /// Release the agent, put the task back and wait for the next signal.
    PutBackAndYield,
    /// Wait for the next signal.
    Yield,
}

/// How many foreign tasks the loop puts back before it waits.
pub const FOREIGN_LIMIT: usize = 8;

/// One pass over the queue.
pub struct Drain {
    pub foreign_seen: usize,
}

impl Drain {
    pub fn new() -> (r: Self)
        ensures
            r.foreign_seen == 0,
    {
        Drain { foreign_seen: 0 }
    }

    /// What to do with what the queue handed out.
    pub fn next(&mut self, pulled: Pulled) -> (r: DrainStep)
        ensures
            final(self).foreign_seen == if pulled == Pulled::Foreign && old(self).foreign_seen
                < usize::MAX {
                old(self).foreign_seen + 1
            } else {
                old(self).foreign_seen as int
            },
            r == match pulled {
                Pulled::Own => DrainStep::Run,
                Pulled::Foreign => if final(self).foreign_seen >= FOREIGN_LIMIT {
                    DrainStep::PutBackAndYield
                } else {
                    DrainStep::PutBack
                },
                Pulled::Nothing => DrainStep::Yield,
                Pulled::Error => DrainStep::Yield,
            },
    {
        match pulled {
            Pulled::Own => DrainStep::Run,
            Pulled::Foreign => {
                if self.foreign_seen < usize::MAX {
                    self.foreign_seen = self.foreign_seen + 1;
                }
                if self.foreign_seen >= FOREIGN_LIMIT {
                    DrainStep::PutBackAndYield
                } else {
                    DrainStep::PutBack
                }
            },
            Pulled::Nothing => DrainStep::Yield,
            Pulled::Error => DrainStep::Yield,
        }
    }
}

/// How many of the pulls were foreign.
pub open spec fn foreign_count(pulls: Seq<Pulled>) -> nat
    decreases pulls.len(),
{
    if pulls.len() == 0 {
        0
    } else {
        foreign_count(pulls.drop_last()) + if pulls.last() == Pulled::Foreign {
            1nat
        } else {
            0nat
        }
    }
}

/// The step after a run of pulls, the last one included.
pub open spec fn step_after(pulls: Seq<Pulled>) -> DrainStep
    recommends
        pulls.len() > 0,
{
    match pulls.last() {
        Pulled::Own => DrainStep::Run,
        Pulled::Foreign => if foreign_count(pulls) >= FOREIGN_LIMIT {
            DrainStep::PutBackAndYield
        } else {
            DrainStep::PutBack
        },
        _ => DrainStep::Yield,
    }
}

/// The pass goes on after the last of the pulls.
pub open spec fn goes_on(pulls: Seq<Pulled>) -> bool {
    step_after(pulls) == DrainStep::Run || step_after(pulls) == DrainStep::PutBack
}

/// A pass never goes on past eight foreign tasks, so a queue full of them
/// cannot keep the loop busy.
pub proof fn foreign_tasks_do_not_spin(pulls: Seq<Pulled>)
    requires
        pulls.len() > 0,
        forall|n: int| 0 < n <= pulls.len() ==> goes_on(#[trigger] pulls.take(n)),
    ensures
        foreign_count(pulls) < FOREIGN_LIMIT,
    decreases pulls.len(),
{
    let init = pulls.drop_last();
    assert(pulls.take(pulls.len() as int) =~= pulls);
    assert(goes_on(pulls.take(pulls.len() as int)));
    if pulls.last() != Pulled::Foreign && init.len() > 0 {
        assert forall|n: int| 0 < n <= init.len() implies goes_on(#[trigger] init.take(n)) by {
            assert(init.take(n) =~= pulls.take(n));
            assert(goes_on(pulls.take(n)));
        }
        foreign_tasks_do_not_spin(init);
    } else if pulls.last() != Pulled::Foreign {
        assert(foreign_count(init) == 0);
    }
}

/// What wakes the dispatch loop, or ends its pass.
#[derive(Clone, Copy, Debug, PartialEq, Eq, Structural)]
pub enum LoopEvent {
    Signal,
    Tick,
    Shutdown,
    Panicked,
}

/// What the dispatch loop does.
#[derive(Clone, Copy, Debug, PartialEq, Eq, Structural)]
pub enum LoopStep {
    /// Drain the queue.
    Drain,
    Stop,
    /// Enter the loop again after so many milliseconds.
    ReenterAfter(u64),
}

/// What the dispatch loop does. Only a shutdown ends it.
pub fn dispatch_loop_step(event: LoopEvent) -> (r: LoopStep)
    ensures
        r == match event {
            LoopEvent::Signal => LoopStep::Drain,
            LoopEvent::Tick => LoopStep::Drain,
            LoopEvent::Shutdown => LoopStep::Stop,
            LoopEvent::Panicked => LoopStep::ReenterAfter(1000),
        },
        r == LoopStep::Stop <==> event == LoopEvent::Shutdown,
{
    match event {
        LoopEvent::Signal => LoopStep::Drain,
        LoopEvent::Tick => LoopStep::Drain,
        LoopEvent::Shutdown => LoopStep::Stop,
        LoopEvent::Panicked => LoopStep::ReenterAfter(1000),
    }
}

/// Removes the pin of an arc.
pub fn clear_provider_pin_for_arc(arc: &mut ArcPin)
    ensures
        final(arc).pinned_provider_id is None,
        final(arc).pinned_slug is None,
{
    arc.pinned_provider_id = None;
    arc.pinned_slug = None;
}

/// Prepares the arc of a task: a wake-up begins a fresh task, so it does not
/// inherit the pin of an earlier one.
pub fn prepare_arc_for_task(arc: &mut ArcPin, from_wakeup: bool)
    ensures
        from_wakeup ==> final(arc).pinned_provider_id is None && final(arc).pinned_slug is None,
        !from_wakeup ==> *final(arc) == *old(arc),
{
    if from_wakeup {
        clear_provider_pin_for_arc(arc);
    }
}

/// A wake-up is served by what is active when it fires, whatever its arc was
/// pinned to before.
pub proof fn wakeups_use_what_is_active(
    arc: ArcPin,
    cfg: ModelsConfig,
    active: Seq<char>,
    tier: ModelProfile,
)
    requires
        arc.pinned_provider_id is None,
    ensures
        effective_target(cfg, ArcLookup::Found(arc), active, tier) == (
            unpinned_target(cfg, active, tier).0,
            None::<Seq<char>>,
        ),
        pin_to_install(cfg, ArcLookup::Found(arc), active, tier) == Some(
            unpinned_target(cfg, active, tier),
        ),
{
}

// ---------------------------------------------------------------------------
// Supervision
// ---------------------------------------------------------------------------

/// The greatest delay before a monitor is started again, in milliseconds.
pub const BACKOFF_CAP_MS: u64 = 60_000;

/// A run of so many milliseconds counts as healthy.
pub const HEALTHY_RUN_MS: u64 = 120_000;

/// How a run of a monitor ended.
#[derive(Clone, Copy, Debug, PartialEq, Eq, Structural)]
pub enum AttemptEnd {
    Returned,
    Panicked,
    Cancelled,
}

/// What the supervisor does.
#[derive(Clone, Copy, Debug, PartialEq, Eq, Structural)]
pub enum SupervisorStep {
    Stop,
    /// Start the monitor again after so many milliseconds.
    RespawnAfter(u64),
}

/// Starts a monitor again when it dies, more slowly each time.
pub struct Supervisor {
    pub initial_ms: u64,
    pub backoff_ms: u64,
}

/// The delay after the next one: twice as long, up to the cap.
pub open spec fn next_backoff(ms: u64) -> u64 {
    if ms * 2 > BACKOFF_CAP_MS {
        BACKOFF_CAP_MS
    } else {
        (ms * 2) as u64
    }
}

impl Supervisor {
    pub fn new(initial_ms: u64) -> (r: Self)
        ensures
            r.initial_ms == initial_ms,
            r.backoff_ms == initial_ms,
    {
        Supervisor { initial_ms, backoff_ms: initial_ms }
    }

    /// Whether to start the monitor at all.
    pub fn may_start(&self, stop_requested: bool) -> (r: bool)
        ensures
            r == !stop_requested,
    {
        !stop_requested
    }

    /// A run ended after `ran_ms` milliseconds. A requested stop and a
    /// cancelled run end the supervision; any other end starts the monitor
    /// again. A healthy run resets the delay.
    pub fn spawn_supervised(&mut self, end: AttemptEnd, stop_requested: bool, ran_ms: u64) -> (r:
        SupervisorStep)
        ensures
            final(self).initial_ms == old(self).initial_ms,
            ({
                let delay = if ran_ms >= HEALTHY_RUN_MS {
                    old(self).initial_ms
                } else {
                    old(self).backoff_ms
                };
                if stop_requested || end == AttemptEnd::Cancelled {
                    r == SupervisorStep::Stop && final(self).backoff_ms == old(self).backoff_ms
                } else {
                    r == SupervisorStep::RespawnAfter(delay) && final(self).backoff_ms
                        == next_backoff(delay)
                }
            }),
    {
        if stop_requested || end == AttemptEnd::Cancelled {
            return SupervisorStep::Stop;
        }
        if ran_ms >= HEALTHY_RUN_MS {
            self.backoff_ms = self.initial_ms;
        }
        let delay: u64 = self.backoff_ms;
        self.backoff_ms = if delay > 30_000 {
            BACKOFF_CAP_MS
        } else {
            delay * 2
        };
        SupervisorStep::RespawnAfter(delay)
    }
}

/// The delay before restart `n` of a run of failures, counted from zero.
pub open spec fn delay_of(initial: u64, n: nat) -> u64
    decreases n,
{
    if n == 0 {
        initial
    } else {
        next_backoff(delay_of(initial, (n - 1) as nat))
    }
}

/// The delays never exceed the cap, where the first one does not.
pub proof fn delays_stay_below_the_cap(initial: u64, n: nat)
    requires
        initial <= BACKOFF_CAP_MS,
    ensures
        delay_of(initial, n) <= BACKOFF_CAP_MS,
    decreases n,
{
    if n > 0 {
        delays_stay_below_the_cap(initial, (n - 1) as nat);
    }
}

/// The delays never shrink while a monitor keeps dying.
pub proof fn delays_never_shrink(initial: u64, n: nat)
    requires
        initial <= BACKOFF_CAP_MS,
    ensures
        delay_of(initial, n) <= delay_of(initial, n + 1),
{
    delays_stay_below_the_cap(initial, n);
}

// ---------------------------------------------------------------------------
// Starting the monitors
// ---------------------------------------------------------------------------

/// Whether a monitor starts.
#[derive(Clone, Copy, Debug, PartialEq, Eq, Structural)]
pub enum MonitorStart {
    /// The user switched it off.
    Disabled,
    /// It is on, but what it needs is missing.
    NotConfigured,
    Start,
}

/// Whether a monitor starts: it is on, and the text that it needs is there.
pub open spec fn monitor_start(enabled: bool, needed: Seq<char>) -> MonitorStart {
    if !enabled {
        MonitorStart::Disabled
    } else if needed.len() == 0 {
        MonitorStart::NotConfigured
    } else {
        MonitorStart::Start
    }
}

pub fn decide_monitor_start(enabled: bool, needed: &str) -> (r: MonitorStart)
    ensures
        r == monitor_start(enabled, needed@),
{
    if !enabled {
        MonitorStart::Disabled
    } else if needed.is_empty() {
        MonitorStart::NotConfigured
    } else {
        MonitorStart::Start
    }
}

// ---------------------------------------------------------------------------
// One task
// ---------------------------------------------------------------------------

/// How much an arc may hold before it is compacted, and how much after.
#[derive(Clone, Copy, Debug, PartialEq, Eq, Structural)]
pub struct CompactionBudget {
    /// An arc of more tokens than these is compacted.
    pub trigger_tokens: u64,
    /// Compaction aims at no more tokens than these.
    pub target_tokens: u64,
}

/// A percentage of a window, in whole tokens.
pub open spec fn share_of(window: u32, pct: u8) -> int {
    (window * pct) / 100
}

/// The budget that a connection's settings give.
pub open spec fn budget_of(c: ProviderConfig) -> CompactionBudget {
    CompactionBudget {
        trigger_tokens: share_of(c.context_window_tokens, c.compaction_trigger_pct) as u64,
        target_tokens: share_of(c.context_window_tokens, c.compaction_target_pct) as u64,
    }
}

fn share(window: u32, pct: u8) -> (r: u64)
    ensures
        r == share_of(window, pct),
{
    proof {
        assert(0 <= window * pct <= 0xffff_ffff * 255) by (nonlinear_arith)
            requires
                0 <= window <= 0xffff_ffff,
                0 <= pct <= 255,
        ;
    }
    (window as u64) * (pct as u64) / 100
}

/// The budget that a connection's settings give.
pub fn compaction_budget(c: &ProviderConfig) -> (r: CompactionBudget)
    ensures
        r == budget_of(*c),
        r.trigger_tokens == share_of(c.context_window_tokens, c.compaction_trigger_pct),
        r.target_tokens == share_of(c.context_window_tokens, c.compaction_target_pct),
{
    CompactionBudget {
        trigger_tokens: share(c.context_window_tokens, c.compaction_trigger_pct),
        target_tokens: share(c.context_window_tokens, c.compaction_target_pct),
    }
}

/// An arc exceeds a share of the window exactly where its tokens exceed that
/// percentage of it: rounding to whole tokens loses nothing.
pub proof fn shares_are_exact(window: u32, pct: u8, tokens: nat)
    ensures
        tokens > share_of(window, pct) <==> tokens * 100 > window * pct,
{
}

/// What is known of a task's arc and of the wake-up that fired it. The type of
/// efforts is `E`, that of the rows of wake-ups `W`.
pub struct TaskFacts<E, W> {
    /// The pin on the arc's row; absent without such a row.
    pub pin: Option<ArcPin>,
    pub arc_mode: Option<SecurityMode>,
    pub global_mode: SecurityMode,
    pub arc_effort: Option<E>,
    pub default_effort: E,
    /// The row of the wake-up, where it could be read.
    pub wakeup_row: Option<W>,
}

/// How a task of the dispatch loop is run.
pub struct TaskPlan<E, W> {
    pub arc_id: String,
    /// The pin of the arc is removed first.
    pub clear_pin: bool,
    pub target: EffectiveProviderTarget,
    /// The pin to store on the arc.
    pub install: Option<PinInstall>,
    /// The shared router serves the task.
    pub shared_router: bool,
    pub security_mode: SecurityMode,
    pub reasoning_effort: E,
    /// The budget of the provider that serves the task; absent where that
    /// provider is not configured.
    pub compaction: Option<CompactionBudget>,
    /// The bits of that provider's sampling temperature; absent, the adapter
    /// decides.
    pub temperature: Option<u32>,
    /// The wake-up whose limits the task runs under.
    pub wakeup: Option<W>,
}

/// The arc as the task finds it: without its pin where a wake-up fired.
pub open spec fn task_arc(pin: Option<ArcPin>, from_wakeup: bool) -> ArcLookup {
    match pin {
        Some(p) => if from_wakeup {
            ArcLookup::Found(ArcPin { pinned_provider_id: None, pinned_slug: None })
        } else {
            ArcLookup::Found(p)
        },
        None => ArcLookup::Absent,
    }
}

/// The plan for a task of arc `arc_id`, which a wake-up fired or not.
pub open spec fn is_plan<E, W>(
    p: TaskPlan<E, W>,
    arc_id: String,
    from_wakeup: bool,
    facts: TaskFacts<E, W>,
    cfg: ModelsConfig,
) -> bool {
    let active = active_provider_of(cfg);
    let arc = task_arc(facts.pin, from_wakeup);
    let target = effective_target(cfg, arc, active, ModelProfile::Powerful);
    let provider = cfg.provider_at(target.0);
    &&& p.arc_id == arc_id
    &&& p.clear_pin == from_wakeup
    &&& (p.target.provider_id@, p.target.pinned_slug.deep_view()) == target
    &&& match p.install {
        Some(i) => pin_to_install(cfg, arc, active, ModelProfile::Powerful) == Some(
            (i.provider_id@, i.slug@),
        ),
        None => pin_to_install(cfg, arc, active, ModelProfile::Powerful) is None,
    }
    &&& p.shared_router == (target.1 is None && target.0 == active)
    &&& p.security_mode == match facts.arc_mode {
        Some(m) => m,
        None => facts.global_mode,
    }
    &&& p.reasoning_effort == match facts.arc_effort {
        Some(e) => e,
        None => facts.default_effort,
    }
    &&& p.compaction == match provider {
        Some(c) => Some(budget_of(c)),
        None => None,
    }
    &&& p.temperature == match provider {
        Some(c) => c.temperature,
        None => None,
    }
    &&& p.wakeup == if from_wakeup {
        facts.wakeup_row
    } else {
        None
    }
}

/// How a task that the loop owns is run; nothing for a foreign one. Budget and
/// temperature are those of the provider that serves the task, and a task that
/// a wake-up fired runs under that wake-up's row.
pub fn plan_dispatched_task<E, W>(
    tables: &TaskTables,
    task: u128,
    facts: TaskFacts<E, W>,
    cfg: &ModelsConfig,
) -> (r: Option<TaskPlan<E, W>>)
    ensures
        match (r, lookup(tables.arcs@, task)) {
            (Some(p), Some(arc_id)) => is_plan(
                p,
                arc_id,
                lookup(tables.wakeups@, task) is Some,
                facts,
                *cfg,
            ),
            (None, None) => true,
            _ => false,
        },
{
    let arc_id = match tables.arc_of(task) {
        Some(a) => a.clone(),
        None => {
            return None;
        },
    };
    let from_wakeup = tables.wakeup_of(task).is_some();
    let arc = match facts.pin {
        Some(p) => if from_wakeup {
            ArcLookup::Found(ArcPin { pinned_provider_id: None, pinned_slug: None })
        } else {
            ArcLookup::Found(p)
        },
        None => ArcLookup::Absent,
    };
    let active = resolve_active_provider(cfg);
    let (target, install) = resolve_effective_provider_for_arc_with_config(
        &arc,
        active.as_str(),
        ModelProfile::Powerful,
        cfg,
    );
    let shared_router = uses_shared_router(&target, active.as_str());
    let (compaction, temperature) = match cfg.find_provider(target.provider_id.as_str()) {
        Some(i) => {
            let c = &cfg.providers[i].config;
            (Some(compaction_budget(c)), c.temperature)
        },
        None => (None, None),
    };
    Some(
        TaskPlan {
            arc_id,
            clear_pin: from_wakeup,
            target,
            install,
            shared_router,
            security_mode: resolve_security_mode_for_arc(facts.arc_mode, facts.global_mode),
            reasoning_effort: resolve_reasoning_effort_for_arc(
                facts.arc_effort,
                facts.default_effort,
            ),
            compaction,
            temperature,
            wakeup: if from_wakeup {
                facts.wakeup_row
            } else {
                None
            },
        },
    )
}

// ---------------------------------------------------------------------------
// Monitors
// ---------------------------------------------------------------------------

/// What a monitor is doing.
#[derive(Clone, Copy, Debug, PartialEq, Eq, Structural)]
pub enum MonitorPhase {
    Starting,
    Polling,
    Waiting,
    /// It ended; it was told to, where `clean`.
    Ended { clean: bool },
}

/// What happens to a monitor.
#[derive(Clone, Copy, Debug, PartialEq, Eq, Structural)]
pub enum MonitorEvent {
    Started,
    StartFailed,
    /// Events came in, and each was processed, even if processing one failed.
    PolledEvents,
    PolledNothing,
    PollFailed,
    /// The time between two polls is over.
    Elapsed,
    Shutdown,
}

/// What a monitor does next. One that polls first does so as soon as it has
/// started; the other waits first. A poll that fails is tried again later.
pub open spec fn next_phase(polls_first: bool, phase: MonitorPhase, event: MonitorEvent)
    -> MonitorPhase {
    match phase {
        MonitorPhase::Starting => match event {
            MonitorEvent::Started => if polls_first {
                MonitorPhase::Polling
            } else {
                MonitorPhase::Waiting
            },
            MonitorEvent::StartFailed => MonitorPhase::Ended { clean: false },
            _ => phase,
        },
        MonitorPhase::Polling => match event {
            MonitorEvent::PolledEvents => MonitorPhase::Waiting,
            MonitorEvent::PolledNothing => MonitorPhase::Waiting,
            MonitorEvent::PollFailed => MonitorPhase::Waiting,
            _ => phase,
        },
        MonitorPhase::Waiting => match event {
            MonitorEvent::Elapsed => MonitorPhase::Polling,
            MonitorEvent::Shutdown => MonitorPhase::Ended { clean: true },
            _ => phase,
        },
        MonitorPhase::Ended { clean } => phase,
    }
}

/// What a monitor does next.
pub fn monitor_step(polls_first: bool, phase: MonitorPhase, event: MonitorEvent) -> (r:
    MonitorPhase)
    ensures
        r == next_phase(polls_first, phase, event),
{
    match phase {
        MonitorPhase::Starting => match event {
            MonitorEvent::Started => if polls_first {
                MonitorPhase::Polling
            } else {
                MonitorPhase::Waiting
            },
            MonitorEvent::StartFailed => MonitorPhase::Ended { clean: false },
            _ => phase,
        },
        MonitorPhase::Polling => match event {
            MonitorEvent::PolledEvents => MonitorPhase::Waiting,
            MonitorEvent::PolledNothing => MonitorPhase::Waiting,
            MonitorEvent::PollFailed => MonitorPhase::Waiting,
            _ => phase,
        },
        MonitorPhase::Waiting => match event {
            MonitorEvent::Elapsed => MonitorPhase::Polling,
            MonitorEvent::Shutdown => MonitorPhase::Ended { clean: true },
            _ => phase,
        },
        MonitorPhase::Ended { clean } => phase,
    }
}

/// A monitor that has started only ends when it is told to: neither a failing
/// poll nor a bad event ends it.
pub proof fn only_shutdown_ends_a_monitor(
    polls_first: bool,
    phase: MonitorPhase,
    event: MonitorEvent,
)
    requires
        phase == MonitorPhase::Polling || phase == MonitorPhase::Waiting,
    ensures
        next_phase(polls_first, phase, event) is Ended ==> event == MonitorEvent::Shutdown
            && next_phase(polls_first, phase, event) == (MonitorPhase::Ended { clean: true }),
{
}

/// The time before which finished agent runs are dropped: thirty days ago.
/// Nothing is dropped without a record of the runs.
pub fn start_agent_run_pruner(has_record: bool, now: Timestamp) -> (r: Option<Timestamp>)
    requires
        now.secs >= i64::MIN + 2_592_000,
    ensures
        r is Some == has_record,
        r matches Some(t) ==> t.secs == now.secs - 30 * 86_400 && t.nanos == now.nanos,
{
    if !has_record {
        return None;
    }
    Some(Timestamp { secs: now.secs - 2_592_000, nanos: now.nanos })
}

// ---------------------------------------------------------------------------
// What the loops promise
// ---------------------------------------------------------------------------

/// A mail is marked where its task went through and left alone where it did
/// not; a task without a mail touches none.
pub proof fn mails_follow_their_task(info: EmailMarkInfo, o: TaskOutcome)
    ensures
        succeeded(o) <==> o == TaskOutcome::Finished(true),
        mark_for(Some(info), TaskOutcome::Finished(true)) == EmailMark::MarkSeen(info),
        mark_for(Some(info), TaskOutcome::Finished(false)) == EmailMark::LeaveUnseen(info),
        o is Skipped || o is Failed || o is Panicked ==> mark_for(Some(info), o)
            == EmailMark::LeaveUnseen(info),
        mark_for(None, o) == EmailMark::Nothing,
{
}

/// A table is read at the key: what it holds there, or nothing.
pub proof fn tables_are_read_at_the_key(m: Map<u128, String>, k: u128, other: u128, v: String)
    ensures
        lookup(m.insert(k, v), k) == Some(v),
        other != k ==> lookup(m.insert(k, v), other) == lookup(m, other),
        lookup(m.remove(k), k) is None,
        other != k ==> lookup(m.remove(k), other) == lookup(m, other),
{
}

/// Foreign tasks are counted one by one. The loop goes on over its own tasks
/// and over seven foreign ones; the eighth, an empty queue or an error ends
/// the pass, and a foreign task is always put back.
pub proof fn eight_foreign_tasks_end_a_pass(a: Seq<Pulled>, b: Seq<Pulled>, one: Pulled)
    ensures
        foreign_count(a + b) == foreign_count(a) + foreign_count(b),
        foreign_count(seq![one]) == (if one == Pulled::Foreign {
            1nat
        } else {
            0nat
        }),
        step_after(a.push(Pulled::Own)) == DrainStep::Run,
        step_after(a.push(Pulled::Nothing)) == DrainStep::Yield,
        step_after(a.push(Pulled::Error)) == DrainStep::Yield,
        foreign_count(a) < 7 ==> step_after(a.push(Pulled::Foreign)) == DrainStep::PutBack,
        foreign_count(a) >= 7 ==> step_after(a.push(Pulled::Foreign)) == DrainStep::PutBackAndYield,
    decreases b.len(),
{
    if b.len() == 0 {
        assert(a + b =~= a);
    } else {
        eight_foreign_tasks_end_a_pass(a, b.drop_last(), one);
        assert((a + b).drop_last() =~= a + b.drop_last());
    }
    assert(seq![one].drop_last() =~= Seq::<Pulled>::empty());
    assert(seq![one].last() == one);
    reveal_with_fuel(foreign_count, 2);
    assert(a.push(Pulled::Foreign).drop_last() =~= a);
}

/// The delay before a restart doubles with each failure, up to a minute.
pub proof fn delays_double_up_to_a_minute(initial: u64, n: nat)
    ensures
        delay_of(initial, 0) == initial,
        delay_of(initial, n) * 2 <= 60_000 ==> delay_of(initial, n + 1) == delay_of(initial, n) * 2,
        delay_of(initial, n) * 2 > 60_000 ==> delay_of(initial, n + 1) == 60_000,
        HEALTHY_RUN_MS == 2 * 60_000,
{
}

/// A monitor starts where it is on and has what it needs; else it is off, or
/// not configured.
pub proof fn monitors_start_when_configured(needed: Seq<char>)
    ensures
        monitor_start(false, needed) == MonitorStart::Disabled,
        needed.len() == 0 ==> monitor_start(true, needed) == MonitorStart::NotConfigured,
        needed.len() > 0 ==> monitor_start(true, needed) == MonitorStart::Start,
{
}

/// The budget of a compaction is the configured share of the window, rounded
/// down.
pub proof fn budgets_are_shares_of_the_window(c: ProviderConfig)
    ensures
        100 * budget_of(c).trigger_tokens <= c.context_window_tokens * c.compaction_trigger_pct
            < 100 * budget_of(c).trigger_tokens + 100,
        100 * budget_of(c).target_tokens <= c.context_window_tokens * c.compaction_target_pct < 100
            * budget_of(c).target_tokens + 100,
{
    let w = c.context_window_tokens as int;
    let p = c.compaction_trigger_pct as int;
    let q = c.compaction_target_pct as int;
    assert(0 <= w * p <= 0xffff_ffff * 255) by (nonlinear_arith)
        requires
            0 <= w <= 0xffff_ffff,
            0 <= p <= 255,
    ;
    assert(0 <= w * q <= 0xffff_ffff * 255) by (nonlinear_arith)
        requires
            0 <= w <= 0xffff_ffff,
            0 <= q <= 255,
    ;
}

/// A task from a wake-up forgets the pin of its arc, any other keeps it, and a
/// task without a row has none.
pub proof fn wakeups_forget_the_pin(pin: ArcPin, from_wakeup: bool)
    ensures
        task_arc(Some(pin), false) == ArcLookup::Found(pin),
        task_arc(Some(pin), true) matches ArcLookup::Found(p) && p.pinned_provider_id is None
            && p.pinned_slug is None,
        task_arc(None, from_wakeup) == ArcLookup::Absent,
{
}

/// A task runs on its own arc, with the provider that the arc resolves to on
/// the powerful tier, the overrides of the arc before the defaults, and the
/// window and temperature of that provider.
pub proof fn tasks_run_as_their_arc_says<E, W>(
    p: TaskPlan<E, W>,
    arc_id: String,
    from_wakeup: bool,
    facts: TaskFacts<E, W>,
    cfg: ModelsConfig,
)
    requires
        is_plan(p, arc_id, from_wakeup, facts, cfg),
    ensures
        p.arc_id == arc_id,
        p.clear_pin == from_wakeup,
        (p.target.provider_id@, p.target.pinned_slug.deep_view()) == effective_target(
            cfg,
            task_arc(facts.pin, from_wakeup),
            active_provider_of(cfg),
            ModelProfile::Powerful,
        ),
        p.install is Some <==> pin_to_install(
            cfg,
            task_arc(facts.pin, from_wakeup),
            active_provider_of(cfg),
            ModelProfile::Powerful,
        ) is Some,
        p.install matches Some(i) ==> pin_to_install(
            cfg,
            task_arc(facts.pin, from_wakeup),
            active_provider_of(cfg),
            ModelProfile::Powerful,
        ) == Some((i.provider_id@, i.slug@)),
        p.shared_router <==> p.target.pinned_slug is None && p.target.provider_id@
            == active_provider_of(cfg),
        facts.arc_mode matches Some(m) ==> p.security_mode == m,
        facts.arc_mode is None ==> p.security_mode == facts.global_mode,
        facts.arc_effort matches Some(e) ==> p.reasoning_effort == e,
        facts.arc_effort is None ==> p.reasoning_effort == facts.default_effort,
        cfg.provider_at(p.target.provider_id@) matches Some(c) ==> p.compaction == Some(
            budget_of(c),
        ) && p.temperature == c.temperature,
        cfg.provider_at(p.target.provider_id@) is None ==> p.compaction is None && p.temperature
            is None,
        from_wakeup ==> p.wakeup == facts.wakeup_row,
        !from_wakeup ==> p.wakeup is None,
{
}

/// A monitor that has started polls at once or after a wait, waits after every
/// poll whatever that brought, polls again when the wait is over, and ends
/// only on a shutdown, or where it could not start.
pub proof fn monitors_poll_and_wait(polls_first: bool, event: MonitorEvent, clean: bool)
    ensures
        next_phase(true, MonitorPhase::Starting, MonitorEvent::Started) == MonitorPhase::Polling,
        next_phase(false, MonitorPhase::Starting, MonitorEvent::Started) == MonitorPhase::Waiting,
        next_phase(polls_first, MonitorPhase::Starting, MonitorEvent::StartFailed) == (
        MonitorPhase::Ended { clean: false }),
        event == MonitorEvent::PolledEvents || event == MonitorEvent::PolledNothing || event
            == MonitorEvent::PollFailed ==> next_phase(polls_first, MonitorPhase::Polling, event)
            == MonitorPhase::Waiting,
        next_phase(polls_first, MonitorPhase::Waiting, MonitorEvent::Elapsed)
            == MonitorPhase::Polling,
        next_phase(polls_first, MonitorPhase::Waiting, MonitorEvent::Shutdown) == (
        MonitorPhase::Ended { clean: true }),
        next_phase(polls_first, MonitorPhase::Ended { clean }, event) == (MonitorPhase::Ended {
            clean,
        }),
        event == MonitorEvent::Elapsed || event == MonitorEvent::Shutdown || event
            == MonitorEvent::Started || event == MonitorEvent::StartFailed ==> next_phase(
            polls_first,
            MonitorPhase::Polling,
            event,
        ) == MonitorPhase::Polling,
{
}

} // verus!
