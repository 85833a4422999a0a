//! Calendar sources: the remote calendars that are kept in step.

use vstd::prelude::*;
use vstd::string::*;
use crate::models::{Timestamp, copy_opt};
use crate::json::{json_quoted, object, object_text, quoted};
use crate::text::{cat2, cat3, cat5, decimal, decimal_u64, owned, pair_views, trim, trim_spec};
use crate::time::{shown_instant, to_rfc3339};

verus! {

/// A configured calendar source.
#[derive(Clone, Debug)]
pub struct CalendarSourceConfig {
    pub id: String,
    pub kind: String,
    pub display_name: String,
    pub base_url: String,
    pub username: String,
    pub enabled: bool,
    pub selected_calendars: Vec<String>,
    pub sync_interval_secs: u64,
    pub last_sync_at: Option<Timestamp>,
    pub last_sync_error: Option<String>,
    pub created_at: Timestamp,
}

/// A calendar source, as it is shown.
#[derive(Debug, Clone)]
pub struct CalendarSourceView {
    pub id: String,
    pub kind: String,
    pub display_name: String,
    pub base_url: String,
    pub username: String,
    pub enabled: bool,
    pub selected_calendars: Vec<String>,
    pub sync_interval_secs: u64,
    pub last_sync_at: Option<String>,
    pub last_sync_error: Option<String>,
    pub created_at: String,
}

/// A calendar on the remote side.
#[derive(Debug, Clone)]
pub struct RemoteCalendarView {
    pub id: String,
    pub name: String,
    pub color: Option<String>,
    pub read_only: bool,
}

/// The outcome of a test or of one sync.
#[derive(Debug, Clone)]
pub struct SyncResult {
    pub success: bool,
    pub message: String,
}

/// What one sync changed.
#[derive(Clone, Copy, Debug, PartialEq, Eq)]
pub struct SyncStats {
    pub inserted: usize,
    pub updated: usize,
    pub deleted: usize,
}

/// The outcome of syncing every source.
#[derive(Debug, Clone)]
pub struct SyncAllResult {
    pub sources_tried: usize,
    pub inserted: usize,
    pub updated: usize,
    pub deleted: usize,
    pub errors: Vec<String>,
}

// ---------------------------------------------------------------------------
// Views
// ---------------------------------------------------------------------------

/// `v` shows the source.
pub open spec fn shows_source(v: CalendarSourceView, c: CalendarSourceConfig) -> bool {
    &&& v.id == c.id
    &&& v.kind == c.kind
    &&& v.display_name == c.display_name
    &&& v.base_url == c.base_url
    &&& v.username == c.username
    &&& v.enabled == c.enabled
    &&& v.selected_calendars == c.selected_calendars
    &&& v.sync_interval_secs == c.sync_interval_secs
    &&& v.last_sync_at.deep_view() == match c.last_sync_at {
        Some(t) => Some(shown_instant(t)),
        None => None,
    }
    &&& v.last_sync_error == c.last_sync_error
    &&& v.created_at@ == shown_instant(c.created_at)
}

impl CalendarSourceView {
    /// What is shown of a source.
    pub fn from_config(c: CalendarSourceConfig) -> (r: Self)
        ensures
            shows_source(r, c),
    {
        let last_sync_at = match c.last_sync_at {
            Some(t) => Some(to_rfc3339(t)),
            None => None,
        };
        CalendarSourceView {
            id: c.id,
            kind: c.kind,
            display_name: c.display_name,
            base_url: c.base_url,
            username: c.username,
            enabled: c.enabled,
            selected_calendars: c.selected_calendars,
            sync_interval_secs: c.sync_interval_secs,
            last_sync_at,
            last_sync_error: c.last_sync_error,
            created_at: to_rfc3339(c.created_at),
        }
    }
}

/// What is shown of the sources, in order.
pub fn list_calendar_sources(configs: Vec<CalendarSourceConfig>) -> (r: Vec<CalendarSourceView>)
    ensures
        r@.len() == configs@.len(),
        forall|i: int| 0 <= i < r@.len() ==> shows_source(#[trigger] r@[i], configs@[i]),
{
    let ghost all = configs@;
    let mut rest = configs;
    let mut back: Vec<CalendarSourceView> = Vec::new();
    while rest.len() > 0
        invariant
            rest@.len() + back@.len() == all.len(),
            rest@ == all.take(rest@.len() as int),
            forall|i: int|
                0 <= i < back@.len() ==> shows_source(#[trigger] back@[i], all[all.len() - 1 - i]),
        decreases rest@.len(),
    {
        if let Some(c) = rest.pop() {
            back.push(CalendarSourceView::from_config(c));
        }
    }
    let mut out: Vec<CalendarSourceView> = Vec::new();
    let ghost turned = back@;
    while back.len() > 0
        invariant
            turned.len() == all.len(),
            back@.len() + out@.len() == all.len(),
            back@ == turned.take(back@.len() as int),
            forall|i: int|
                0 <= i < turned.len() ==> shows_source(
                    #[trigger] turned[i],
                    all[all.len() - 1 - i],
                ),
            forall|i: int| 0 <= i < out@.len() ==> shows_source(#[trigger] out@[i], all[i]),
        decreases back@.len(),
    {
        let ghost n = back@.len() as int;
        if let Some(v) = back.pop() {
            proof {
                assert(v == turned[n - 1]);
            }
            out.push(v);
        }
    }
    out
}

// ---------------------------------------------------------------------------
// Ids
// ---------------------------------------------------------------------------

/// The id that a text spells, or what is wrong with it.
pub uninterp spec fn uuid_of(text: Seq<char>) -> Result<u128, Seq<char>>;

/// `uuid::Uuid::parse_str`: the id as a number, or the rendered error. The
/// contract only names the result.
#[verifier::external_body]
fn parse_uuid(text: &str) -> (r: Result<u128, String>)
    ensures
        match r {
            Ok(n) => uuid_of(text@) == Ok::<u128, Seq<char>>(n),
            Err(e) => uuid_of(text@) == Err::<u128, Seq<char>>(e@),
        },
{
    match uuid::Uuid::parse_str(text) {
        Ok(id) => Ok(id.as_u128()),
        Err(e) => Err(e.to_string()),
    }
}

/// What a bad id is answered.
pub fn bad_id(error: &str) -> (r: String)
    ensures
        r@ == "Bad id: "@ + error@,
{
    cat2("Bad id: ", error)
}

/// The id of a source, or what a bad one is answered.
pub fn parse_source_id(id: &str) -> (r: Result<u128, String>)
    ensures
        match r {
            Ok(n) => uuid_of(id@) == Ok::<u128, Seq<char>>(n),
            Err(e) => uuid_of(id@) matches Err(why) && e@ == "Bad id: "@ + why,
        },
{
    match parse_uuid(id) {
        Ok(n) => Ok(n),
        Err(e) => Err(bad_id(e.as_str())),
    }
}

// ---------------------------------------------------------------------------
// Adding and opening
// ---------------------------------------------------------------------------

/// The password to store for a new source, or why it cannot be added. The
/// first reason that holds is given.
pub fn add_caldav_source(password: &str, has_vault: bool, has_store: bool) -> (r: Result<
    String,
    String,
>)
    ensures
        match r {
            Ok(p) => trim_spec(password@).len() > 0 && has_vault && has_store && p@ == trim_spec(
                password@,
            ),
            Err(e) => e@ == if trim_spec(password@).len() == 0 {
                "Password required"@
            } else if !has_vault {
                "Credential vault unavailable"@
            } else {
                "Database unavailable"@
            } && !(trim_spec(password@).len() > 0 && has_vault && has_store),
        },
{
    let p = trim(password);
    if p.as_str().is_empty() {
        return Err(owned("Password required"));
    }
    if !has_vault {
        return Err(owned("Credential vault unavailable"));
    }
    if !has_store {
        return Err(owned("Database unavailable"));
    }
    Ok(p)
}

/// How far storing a new source got.
pub enum AddStep<'a> {
    /// The vault refused the password.
    VaultFailed(&'a str),
    /// The row could not be written.
    RowFailed(&'a str),
    Stored,
}

/// What follows: whether the password has to be removed from the vault again,
/// and the error.
pub fn after_add(step: &AddStep) -> (r: (bool, Result<(), String>))
    ensures
        match step {
            AddStep::VaultFailed(e) => !r.0 && (r.1 matches Err(m) && m@
                == "Vault write failed: "@ + e@),
            AddStep::RowFailed(e) => r.0 && (r.1 matches Err(m) && m@ == "Save calendar source: "@
                + e@),
            AddStep::Stored => !r.0 && r.1 is Ok,
        },
{
    match step {
        AddStep::VaultFailed(e) => (false, Err(cat2("Vault write failed: ", e))),
        AddStep::RowFailed(e) => (true, Err(cat2("Save calendar source: ", e))),
        AddStep::Stored => (false, Ok(())),
    }
}

/// Why a source cannot be synced, if it cannot: the first reason that holds.
pub fn sync_refusal(found: bool, has_vault: bool, has_calendar: bool) -> (r: Option<String>)
    ensures
        r.deep_view() == if !found {
            Some("Calendar source not found"@)
        } else if !has_vault {
            Some("Credential vault unavailable"@)
        } else if !has_calendar {
            Some("Calendar store unavailable"@)
        } else {
            None
        },
{
    if !found {
        Some(owned("Calendar source not found"))
    } else if !has_vault {
        Some(owned("Credential vault unavailable"))
    } else if !has_calendar {
        Some(owned("Calendar store unavailable"))
    } else {
        None
    }
}

/// The outcome of a connection test.
pub fn test_calendar_source_connection(outcome: Result<(), String>) -> (r: SyncResult)
    ensures
        match outcome {
            Ok(_) => r.success && r.message@ == "Connected and discovered calendar home."@,
            Err(e) => !r.success && r.message == e,
        },
{
    match outcome {
        Ok(_) => SyncResult {
            success: true,
            message: owned("Connected and discovered calendar home."),
        },
        Err(e) => SyncResult { success: false, message: e },
    }
}

// ---------------------------------------------------------------------------
// Syncing
// ---------------------------------------------------------------------------

/// What one sync reports.
pub open spec fn sync_text(s: SyncStats) -> Seq<char> {
    "Synced: +"@ + decimal(s.inserted as nat) + " new, ~"@ + decimal(s.updated as nat)
        + " updated, -"@ + decimal(s.deleted as nat) + " removed"@
}

/// The outcome of syncing one source.
pub fn sync_calendar_source_now(outcome: Result<SyncStats, String>) -> (r: SyncResult)
    ensures
        match outcome {
            Ok(s) => r.success && r.message@ == sync_text(s),
            Err(e) => !r.success && r.message == e,
        },
{
    match outcome {
        Ok(s) => {
            let a = decimal_u64(s.inserted as u64);
            let b = decimal_u64(s.updated as u64);
            let c = decimal_u64(s.deleted as u64);
            let head = cat5("Synced: +", a.as_str(), " new, ~", b.as_str(), " updated, -");
            SyncResult { success: true, message: cat3(head.as_str(), c.as_str(), " removed") }
        },
        Err(e) => SyncResult { success: false, message: e },
    }
}

/// One source, and what syncing it gave; a disabled one is not synced.
pub struct SourceRun {
    pub display_name: String,
    pub enabled: bool,
    pub outcome: Result<SyncStats, String>,
}

/// How many of the runs were tried.
pub open spec fn tried(runs: Seq<SourceRun>) -> nat
    decreases runs.len(),
{
    if runs.len() == 0 {
        0
    } else {
        tried(runs.drop_last()) + if runs.last().enabled {
            1nat
        } else {
            0nat
        }
    }
}

/// What one run changed.
pub open spec fn run_stats(r: SourceRun) -> (nat, nat, nat) {
    if r.enabled {
        match r.outcome {
            Ok(s) => (s.inserted as nat, s.updated as nat, s.deleted as nat),
            Err(_) => (0, 0, 0),
        }
    } else {
        (0, 0, 0)
    }
}

/// What all runs changed together.
pub open spec fn total_stats(runs: Seq<SourceRun>) -> (nat, nat, nat)
    decreases runs.len(),
{
    if runs.len() == 0 {
        (0, 0, 0)
    } else {
        let t = total_stats(runs.drop_last());
        let s = run_stats(runs.last());
        (t.0 + s.0, t.1 + s.1, t.2 + s.2)
    }
}

/// The errors of the runs, each with the name of its source.
pub open spec fn run_errors(runs: Seq<SourceRun>) -> Seq<Seq<char>>
    decreases runs.len(),
{
    if runs.len() == 0 {
        Seq::empty()
    } else {
        let before = run_errors(runs.drop_last());
        let last = runs.last();
        match last.outcome {
            Err(e) => if last.enabled {
                before.push(last.display_name@ + ": "@ + e@)
            } else {
                before
            },
            Ok(_) => before,
        }
    }
}

/// The totals can be counted.
pub open spec fn countable(runs: Seq<SourceRun>) -> bool {
    let t = total_stats(runs);
    t.0 <= usize::MAX && t.1 <= usize::MAX && t.2 <= usize::MAX
}

proof fn lemma_totals_grow(runs: Seq<SourceRun>, n: int)
    requires
        0 <= n <= runs.len(),
    ensures
        total_stats(runs.take(n)).0 <= total_stats(runs).0,
        total_stats(runs.take(n)).1 <= total_stats(runs).1,
        total_stats(runs.take(n)).2 <= total_stats(runs).2,
        tried(runs.take(n)) <= n,
    decreases runs.len(),
{
    if n == runs.len() {
        assert(runs.take(n) =~= runs);
        lemma_tried(runs);
    } else {
        assert(runs.drop_last().take(n) =~= runs.take(n));
        lemma_totals_grow(runs.drop_last(), n);
    }
}

proof fn lemma_tried(runs: Seq<SourceRun>)
    ensures
        tried(runs) <= runs.len(),
    decreases runs.len(),
{
    if runs.len() > 0 {
        lemma_tried(runs.drop_last());
    }
}

/// The outcome of syncing every enabled source. An error of one source does
/// not end the others.
pub fn sync_all_calendar_sources_now(runs: &Vec<SourceRun>) -> (r: SyncAllResult)
    requires
        countable(runs@),
    ensures
        r.sources_tried == tried(runs@),
        (r.inserted as nat, r.updated as nat, r.deleted as nat) == total_stats(runs@),
        r.errors.deep_view() == run_errors(runs@),
{
    let mut t = SyncAllResult {
        sources_tried: 0,
        inserted: 0,
        updated: 0,
        deleted: 0,
        errors: Vec::new(),
    };
    let mut i: usize = 0;
    proof {
        assert(t.errors.deep_view() =~= run_errors(runs@.take(0)));
    }
    while i < runs.len()
        invariant
            countable(runs@),
            i <= runs@.len(),
            t.sources_tried == tried(runs@.take(i as int)),
            (t.inserted as nat, t.updated as nat, t.deleted as nat) == total_stats(
                runs@.take(i as int),
            ),
            t.errors.deep_view() == run_errors(runs@.take(i as int)),
        decreases runs@.len() - i,
    {
        proof {
            assert(runs@.take(i + 1).drop_last() =~= runs@.take(i as int));
            assert(runs@.take(i + 1).last() == runs@[i as int]);
            lemma_totals_grow(runs@, i as int);
            lemma_totals_grow(runs@, i + 1);
        }
        if runs[i].enabled {
            t.sources_tried += 1;
            match &runs[i].outcome {
                Ok(s) => {
                    t.inserted += s.inserted;
                    t.updated += s.updated;
                    t.deleted += s.deleted;
                },
                Err(e) => {
                    let ghost before = t.errors.deep_view();
                    let text = cat3(runs[i].display_name.as_str(), ": ", e.as_str());
                    t.errors.push(text);
                    proof {
                        assert(t.errors.deep_view() =~= before.push(text@));
                    }
                },
            }
        }
        i += 1;
    }
    proof {
        assert(runs@.take(i as int) =~= runs@);
    }
    t
}

proof fn lemma_errors_bound(runs: Seq<SourceRun>)
    ensures
        run_errors(runs).len() <= tried(runs),
    decreases runs.len(),
{
    if runs.len() > 0 {
        lemma_errors_bound(runs.drop_last());
    }
}

/// There are never more errors than sources that were tried.
pub proof fn errors_come_from_tried_sources(runs: Seq<SourceRun>)
    ensures
        run_errors(runs).len() <= tried(runs) <= runs.len(),
{
    lemma_errors_bound(runs);
    lemma_tried(runs);
}

// ---------------------------------------------------------------------------
// The assistant's own calendar
// ---------------------------------------------------------------------------

/// Where the assistant writes events, as it is shown.
pub struct CalendarAgentDefault {
    pub source_id: Option<String>,
    pub calendar_id: Option<String>,
    pub calendar_name: Option<String>,
}

/// The calendar part of the configuration.
#[derive(Clone, Debug, PartialEq, Eq)]
pub struct CalendarConfig {
    pub agent_prompt: String,
    pub agent_default_source_id: Option<String>,
    pub agent_default_calendar_id: Option<String>,
    pub agent_default_calendar_name: Option<String>,
}

/// What the user wrote on how to use the calendar.
pub fn get_calendar_prompt(config: &CalendarConfig) -> (r: String)
    ensures
        r == config.agent_prompt,
{
    config.agent_prompt.clone()
}

/// Saves what the user wrote on how to use the calendar.
pub fn save_calendar_prompt(config: &mut CalendarConfig, prompt: String)
    ensures
        *final(config) == (CalendarConfig { agent_prompt: prompt, ..*old(config) }),
{
    config.agent_prompt = prompt;
}

/// Where the assistant writes events.
pub fn get_agent_default_calendar(config: &CalendarConfig) -> (r: CalendarAgentDefault)
    ensures
        r.source_id == config.agent_default_source_id,
        r.calendar_id == config.agent_default_calendar_id,
        r.calendar_name == config.agent_default_calendar_name,
{
    CalendarAgentDefault {
        source_id: copy_opt(&config.agent_default_source_id),
        calendar_id: copy_opt(&config.agent_default_calendar_id),
        calendar_name: copy_opt(&config.agent_default_calendar_name),
    }
}

/// Sets where the assistant writes events; all absent, it picks one itself.
pub fn save_agent_default_calendar(
    config: &mut CalendarConfig,
    source_id: Option<String>,
    calendar_id: Option<String>,
    calendar_name: Option<String>,
)
    ensures
        *final(config) == (CalendarConfig {
            agent_prompt: old(config).agent_prompt,
            agent_default_source_id: source_id,
            agent_default_calendar_id: calendar_id,
            agent_default_calendar_name: calendar_name,
        }),
{
    config.agent_default_source_id = source_id;
    config.agent_default_calendar_id = calendar_id;
    config.agent_default_calendar_name = calendar_name;
}

/// Why a source cannot be changed: a bad id, else no store.
pub open spec fn row_refusal(id: Seq<char>, has_store: bool) -> Option<Seq<char>> {
    match uuid_of(id) {
        Err(why) => Some("Bad id: "@ + why),
        Ok(_) => if has_store {
            None
        } else {
            Some("Database unavailable"@)
        },
    }
}

/// The row of a source, or why it cannot be changed: a bad id, or no store.
pub fn source_row(id: &str, has_store: bool) -> (r: Result<u128, String>)
    ensures
        match r {
            Ok(n) => row_refusal(id@, has_store) is None && uuid_of(id@) == Ok::<u128, Seq<char>>(
                n,
            ),
            Err(e) => row_refusal(id@, has_store) == Some(e@),
        },
{
    match parse_source_id(id) {
        Ok(n) => if has_store {
            Ok(n)
        } else {
            Err(owned("Database unavailable"))
        },
        Err(e) => Err(e),
    }
}

/// How a source is deleted.
#[derive(Debug)]
pub struct SourceDeletion {
    pub row: u128,
    /// The scope and the key of the secret to delete before the row.
    pub secret: Option<(String, String)>,
}

/// How a source is deleted: its password goes first, so that none outlives its
/// source. `secret` says where the password of the stored source lies.
pub fn delete_calendar_source(
    id: &str,
    has_store: bool,
    secret: Option<(String, String)>,
    has_vault: bool,
) -> (r: Result<SourceDeletion, String>)
    ensures
        match r {
            Ok(d) => row_refusal(id@, has_store) is None && uuid_of(id@) == Ok::<u128, Seq<char>>(
                d.row,
            ) && d.secret == if has_vault {
                secret
            } else {
                None
            },
            Err(e) => row_refusal(id@, has_store) == Some(e@),
        },
{
    match source_row(id, has_store) {
        Ok(row) => Ok(
            SourceDeletion {
                row,
                secret: if has_vault {
                    secret
                } else {
                    None
                },
            },
        ),
        Err(e) => Err(e),
    }
}

/// The row to switch on or off, with what it becomes.
pub fn set_calendar_source_enabled(id: &str, enabled: bool, has_store: bool) -> (r: Result<
    (u128, bool),
    String,
>)
    ensures
        match r {
            Ok(p) => row_refusal(id@, has_store) is None && uuid_of(id@) == Ok::<u128, Seq<char>>(
                p.0,
            ) && p.1 == enabled,
            Err(e) => row_refusal(id@, has_store) == Some(e@),
        },
{
    match source_row(id, has_store) {
        Ok(row) => Ok((row, enabled)),
        Err(e) => Err(e),
    }
}

/// The row whose calendars are chosen, with the choice.
pub fn set_calendar_source_selected_calendars(
    id: &str,
    calendar_ids: Vec<String>,
    has_store: bool,
) -> (r: Result<(u128, Vec<String>), String>)
    ensures
        match r {
            Ok(p) => row_refusal(id@, has_store) is None && uuid_of(id@) == Ok::<u128, Seq<char>>(
                p.0,
            ) && p.1 == calendar_ids,
            Err(e) => row_refusal(id@, has_store) == Some(e@),
        },
{
    match source_row(id, has_store) {
        Ok(row) => Ok((row, calendar_ids)),
        Err(e) => Err(e),
    }
}

/// What listeners are told of a sync that is done.
pub open spec fn sync_payload(id: Seq<char>, name: Seq<char>, s: SyncStats) -> Seq<char> {
    object_text(
        seq![
            ("deleted"@, decimal(s.deleted as nat)),
            ("inserted"@, decimal(s.inserted as nat)),
            ("source_id"@, json_quoted(id)),
            ("source_name"@, json_quoted(name)),
            ("updated"@, decimal(s.updated as nat)),
        ],
    )
}

/// What listeners are told of a sync that is done.
pub fn emit_sync_completed(source_id: &str, source_name: &str, stats: SyncStats) -> (r: String)
    ensures
        r@ == sync_payload(source_id@, source_name@, stats),
{
    let mut v: Vec<(String, String)> = Vec::new();
    v.push((owned("deleted"), decimal_u64(stats.deleted as u64)));
    v.push((owned("inserted"), decimal_u64(stats.inserted as u64)));
    v.push((owned("source_id"), quoted(source_id)));
    v.push((owned("source_name"), quoted(source_name)));
    v.push((owned("updated"), decimal_u64(stats.updated as u64)));
    proof {
        assert(pair_views(v@) =~= seq![
            ("deleted"@, decimal(stats.deleted as nat)),
            ("inserted"@, decimal(stats.inserted as nat)),
            ("source_id"@, json_quoted(source_id@)),
            ("source_name"@, json_quoted(source_name@)),
            ("updated"@, decimal(stats.updated as nat)),
        ]);
    }
    object(&v)
}

// ---------------------------------------------------------------------------
// What the calendar sources promise
// ---------------------------------------------------------------------------

/// A source is shown as it is configured, with its times spelled out.
pub proof fn sources_are_shown(v: CalendarSourceView, c: CalendarSourceConfig)
    requires
        shows_source(v, c),
    ensures
        v.id == c.id,
        v.kind == c.kind,
        v.display_name == c.display_name,
        v.base_url == c.base_url,
        v.username == c.username,
        v.enabled == c.enabled,
        v.selected_calendars == c.selected_calendars,
        v.sync_interval_secs == c.sync_interval_secs,
        c.last_sync_at matches Some(t) ==> v.last_sync_at.deep_view() == Some(shown_instant(t)),
        c.last_sync_at is None ==> v.last_sync_at is None,
        v.last_sync_error == c.last_sync_error,
        v.created_at@ == shown_instant(c.created_at),
{
}

/// A round of syncing adds up its runs one by one: a source that is off counts
/// for nothing, one that failed counts as tried and leaves its error under its
/// name, and one that worked adds what it changed.
pub proof fn rounds_add_up(a: Seq<SourceRun>, b: Seq<SourceRun>, one: SourceRun)
    ensures
        tried(a + b) == tried(a) + tried(b),
        total_stats(a + b).0 == total_stats(a).0 + total_stats(b).0,
        total_stats(a + b).1 == total_stats(a).1 + total_stats(b).1,
        total_stats(a + b).2 == total_stats(a).2 + total_stats(b).2,
        run_errors(a + b) == run_errors(a) + run_errors(b),
        !one.enabled ==> tried(seq![one]) == 0 && total_stats(seq![one]) == (0nat, 0nat, 0nat)
            && run_errors(seq![one]).len() == 0,
        one.enabled ==> tried(seq![one]) == 1,
        one.enabled ==> (one.outcome matches Ok(s) ==> total_stats(seq![one]) == (
            s.inserted as nat,
            s.updated as nat,
            s.deleted as nat,
        ) && run_errors(seq![one]).len() == 0),
        one.enabled ==> (one.outcome matches Err(e) ==> total_stats(seq![one]) == (
            0nat,
            0nat,
            0nat,
        ) && run_errors(seq![one]) == seq![one.display_name@ + ": "@ + e@]),
    decreases b.len(),
{
    if b.len() == 0 {
        assert(a + b =~= a);
        assert(run_errors(a) + run_errors(b) =~= run_errors(a));
    } else {
        rounds_add_up(a, b.drop_last(), one);
        assert((a + b).drop_last() =~= a + b.drop_last());
        assert(run_errors(a + b) =~= run_errors(a) + run_errors(b));
    }
    assert(seq![one].drop_last() =~= Seq::<SourceRun>::empty());
    assert(seq![one].last() == one);
    reveal_with_fuel(tried, 2);
    reveal_with_fuel(total_stats, 2);
    reveal_with_fuel(run_errors, 2);
    if one.enabled {
        if let Err(e) = one.outcome {
            assert(run_errors(seq![one]) =~= seq![one.display_name@ + ": "@ + e@]);
        }
    }
}

/// The text on a sync tells what is new, what was updated and what was
/// removed, in this order.
pub proof fn syncs_tell_their_numbers(s: SyncStats)
    ensures
        sync_text(s) == "Synced: +"@ + decimal(s.inserted as nat) + " new, ~"@ + decimal(
            s.updated as nat,
        ) + " updated, -"@ + decimal(s.deleted as nat) + " removed"@,
{
}

/// A row is refused for an id that is none, else where there is no database.
pub proof fn rows_need_an_id_and_a_database(id: Seq<char>, has_store: bool)
    ensures
        uuid_of(id) matches Err(why) ==> row_refusal(id, has_store) == Some("Bad id: "@ + why),
        uuid_of(id) is Ok && !has_store ==> row_refusal(id, has_store) == Some(
            "Database unavailable"@,
        ),
        uuid_of(id) is Ok && has_store ==> row_refusal(id, has_store) is None,
{
}

/// The event on a sync carries its source and its numbers.
pub proof fn sync_events_carry_their_numbers(id: Seq<char>, name: Seq<char>, s: SyncStats)
    ensures
        sync_payload(id, name, s) == object_text(
            seq![
                ("deleted"@, decimal(s.deleted as nat)),
                ("inserted"@, decimal(s.inserted as nat)),
                ("source_id"@, json_quoted(id)),
                ("source_name"@, json_quoted(name)),
                ("updated"@, decimal(s.updated as nat)),
            ],
        ),
{
}

} // verus!
