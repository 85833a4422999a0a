//! When the background loops run.

use vstd::prelude::*;

verus! {

/// A loop that runs again and again while the app is up.
#[derive(Clone, Copy, Debug, PartialEq, Eq, Structural)]
pub enum PeriodicLoop {
    /// Looks for something to help the user with.
    HintChecker,
    /// Drops finished agent runs that are old.
    RunPruner,
    /// Takes queued tasks, also without a signal.
    DispatchTick,
    /// Keeps Telegram's typing note alive during a turn.
    TypingNote,
    /// Looks for calendar events that come up.
    CalendarPoll,
}

/// When a loop runs, in milliseconds.
#[derive(Clone, Copy, Debug, PartialEq, Eq, Structural)]
pub struct Schedule {
    /// The time from the start of the loop to its first run.
    pub first_ms: u64,
    /// The time from one run to the next.
    pub period_ms: u64,
}

/// The app has a minute to settle before the first hint is looked for.
pub const HINT_DELAY_MS: u64 = 60_000;

/// A quarter of an hour.
pub const HINT_PERIOD_MS: u64 = 900_000;

/// Six hours.
pub const PRUNE_PERIOD_MS: u64 = 21_600_000;

/// Two seconds.
pub const DISPATCH_TICK_MS: u64 = 2_000;

/// Telegram shows the note for about five seconds.
pub const TYPING_PERIOD_MS: u64 = 4_000;

/// The time between two looks at the wake-ups. Five seconds: a reminder is
/// prompt, and an idle machine stays idle.
pub const WAKEUP_TICK_MS: u64 = 5_000;

/// One minute.
pub const CALENDAR_POLL_MS: u64 = 60_000;

/// The delay before a monitor that died is started again for the first time.
pub const MONITOR_BACKOFF_MS: u64 = 5_000;

/// How long a run of the agent on the owner's message may take.
pub const AGENT_TIMEOUT_MS: u64 = 300_000;

/// How long the model may take to pick an arc.
pub const PICK_TIMEOUT_MS: u64 = 10_000;

/// When a loop runs: hints after a delay of their own, the pruner at once, and
/// every other loop after one period.
pub open spec fn schedule_for(which: PeriodicLoop) -> Schedule {
    match which {
        PeriodicLoop::HintChecker => Schedule {
            first_ms: HINT_DELAY_MS,
            period_ms: HINT_PERIOD_MS,
        },
        PeriodicLoop::RunPruner => Schedule { first_ms: 0, period_ms: PRUNE_PERIOD_MS },
        PeriodicLoop::DispatchTick => Schedule {
            first_ms: DISPATCH_TICK_MS,
            period_ms: DISPATCH_TICK_MS,
        },
        PeriodicLoop::TypingNote => Schedule {
            first_ms: TYPING_PERIOD_MS,
            period_ms: TYPING_PERIOD_MS,
        },
        PeriodicLoop::CalendarPoll => Schedule {
            first_ms: CALENDAR_POLL_MS,
            period_ms: CALENDAR_POLL_MS,
        },
    }
}

/// When a loop runs.
pub fn schedule_of(which: PeriodicLoop) -> (r: Schedule)
    ensures
        r == schedule_for(which),
{
    match which {
        PeriodicLoop::HintChecker => Schedule {
            first_ms: HINT_DELAY_MS,
            period_ms: HINT_PERIOD_MS,
        },
        PeriodicLoop::RunPruner => Schedule { first_ms: 0, period_ms: PRUNE_PERIOD_MS },
        PeriodicLoop::DispatchTick => Schedule {
            first_ms: DISPATCH_TICK_MS,
            period_ms: DISPATCH_TICK_MS,
        },
        PeriodicLoop::TypingNote => Schedule {
            first_ms: TYPING_PERIOD_MS,
            period_ms: TYPING_PERIOD_MS,
        },
        PeriodicLoop::CalendarPoll => Schedule {
            first_ms: CALENDAR_POLL_MS,
            period_ms: CALENDAR_POLL_MS,
        },
    }
}

/// Every loop keeps its own pace: hints are looked at a minute after the start
/// and then each quarter of an hour, runs are pruned at once and then every six
/// hours, and the others wait out their period first.
pub proof fn loops_keep_their_pace(which: PeriodicLoop)
    ensures
        schedule_for(which).period_ms > 0,
        schedule_for(which).first_ms <= schedule_for(which).period_ms,
        which == PeriodicLoop::HintChecker ==> schedule_for(which).first_ms == 60_000
            && schedule_for(which).period_ms == 15 * 60_000,
        which == PeriodicLoop::RunPruner ==> schedule_for(which).first_ms == 0 && schedule_for(
            which,
        ).period_ms == 6 * 3_600_000,
        which == PeriodicLoop::DispatchTick ==> schedule_for(which).first_ms == 2_000
            && schedule_for(which).period_ms == 2_000,
        which == PeriodicLoop::TypingNote ==> schedule_for(which).first_ms == 4_000 && schedule_for(
            which,
        ).period_ms == 4_000,
        which == PeriodicLoop::CalendarPoll ==> schedule_for(which).first_ms == 60_000
            && schedule_for(which).period_ms == 60_000,
{
}

/// The waits that no schedule covers.
pub proof fn waits_are_fixed()
    ensures
        WAKEUP_TICK_MS == 5_000,
        MONITOR_BACKOFF_MS == 5_000,
        AGENT_TIMEOUT_MS == 5 * 60_000,
        PICK_TIMEOUT_MS == 10_000,
{
}

} // verus!
