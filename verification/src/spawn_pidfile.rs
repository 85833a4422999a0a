//! The record of spawned processes that outlives the app, so that the next
//! start can end those that were left behind.

use vstd::prelude::*;
use vstd::string::*;
use std::sync::Arc;
use crate::models::Timestamp;
use crate::text::begins_with;

verus! {

/// One recorded process.
#[derive(Debug, Clone, PartialEq, Eq)]
pub struct PidFileEntry {
    pub pid: u32,
    pub command: String,
    pub label: Option<String>,
    pub started_at: Timestamp,
}

/// A process that the assistant spawned.
#[derive(Debug, Clone)]
pub struct SpawnedProcess {
    pub pid: u32,
    pub command: String,
    pub label: Option<String>,
    pub log_path: String,
    pub started_at: Timestamp,
}

/// A name that is not a path: it has no separator and no drive.
pub open spec fn is_file_name(name: Seq<char>) -> bool {
    forall|i: int|
        0 <= i < name.len() ==> (#[trigger] name[i]) != '/' && name[i] != '\\' && name[i] != ':'
}

/// `path` is `dir` and `name`, with a separator between them.
pub open spec fn is_separated(path: Seq<char>, dir: Seq<char>, name: Seq<char>) -> bool {
    path == dir + "/"@ + name || path == dir + "\\"@ + name
}

/// On some platform, the character ends a directory that needs no separator
/// behind it.
pub open spec fn may_end_directory(c: char) -> bool {
    c == '/' || c == '\\' || c == ':'
}

/// `path` is `name` in `dir`: nothing stands between them where there is no
/// directory or it ends in a slash, and a separator does elsewhere. Behind a
/// backslash and a colon it is left to the platform whether one does.
pub open spec fn is_path_below(path: Seq<char>, dir: Seq<char>, name: Seq<char>) -> bool {
    if dir.len() == 0 || dir.last() == '/' {
        path == dir + name
    } else if may_end_directory(dir.last()) {
        path == dir + name || is_separated(path, dir, name)
    } else {
        is_separated(path, dir, name)
    }
}

/// A directory in the form that Windows takes literally. Joining a name to it
/// rewrites it.
pub open spec fn is_verbatim(dir: Seq<char>) -> bool {
    begins_with(dir, "\\\\?\\"@)
}

/// `std::path::Path::join` with a plain file name, which adds a separator
/// where the directory does not end in one. Which separator that is depends on
/// the platform. Of a verbatim directory, which some platforms rewrite,
/// nothing is claimed.
#[verifier::external_body]
fn join_path(dir: &str, name: &str) -> (r: String)
    requires
        is_file_name(name@),
    ensures
        !is_verbatim(dir@) ==> is_path_below(r@, dir@, name@),
{
    std::path::Path::new(dir).join(name).to_string_lossy().into_owned()
}

/// Where the record lies. How a verbatim directory is rewritten is left to the
/// platform.
pub fn pidfile_path(data_dir: &str) -> (r: String)
    ensures
        !is_verbatim(data_dir@) ==> is_path_below(r@, data_dir@, "spawned_pids.json"@),
{
    proof {
        reveal_strlit("spawned_pids.json");
    }
    join_path(data_dir, "spawned_pids.json")
}

/// What is recorded of a process: everything but its log.
pub open spec fn recorded(e: PidFileEntry, p: SpawnedProcess) -> bool {
    e.pid == p.pid && e.command == p.command && e.label == p.label && e.started_at == p.started_at
}

/// Keeps the record in step with the processes.
pub struct PidFilePersistence {
    pub path: String,
}

impl PidFilePersistence {
    pub fn new(path: String) -> (r: Arc<Self>)
        ensures
            r.path == path,
    {
        Arc::new(PidFilePersistence { path })
    }

    /// The record to write for the processes that run, in their order.
    pub fn on_change(&self, snapshot: Vec<SpawnedProcess>) -> (r: Vec<PidFileEntry>)
        ensures
            r@.len() == snapshot@.len(),
            forall|i: int| 0 <= i < r@.len() ==> recorded(#[trigger] r@[i], snapshot@[i]),
    {
        let mut out: Vec<PidFileEntry> = Vec::new();
        let mut i: usize = 0;
        while i < snapshot.len()
            invariant
                i <= snapshot@.len(),
                out@.len() == i,
                forall|j: int| 0 <= j < i ==> recorded(#[trigger] out@[j], snapshot@[j]),
            decreases snapshot@.len() - i,
        {
            let p = &snapshot[i];
            out.push(
                PidFileEntry {
                    pid: p.pid,
                    command: p.command.clone(),
                    label: crate::models::copy_opt(&p.label),
                    started_at: p.started_at,
                },
            );
            i += 1;
        }
        out
    }
}

/// What the next start does with the record: the processes to end, in order,
/// and whether the record has to be emptied afterwards.
pub struct Reconciliation {
    pub pids: Vec<u32>,
    pub truncate: bool,
}

/// What the next start does with the record.
pub fn reconcile_orphans(entries: &Vec<PidFileEntry>) -> (r: Reconciliation)
    ensures
        r.pids@ == entries@.map_values(|e: PidFileEntry| e.pid),
        r.truncate == (entries@.len() > 0),
{
    let mut pids: Vec<u32> = Vec::new();
    let mut i: usize = 0;
    let ghost all = entries@.map_values(|e: PidFileEntry| e.pid);
    while i < entries.len()
        invariant
            i <= entries@.len(),
            all == entries@.map_values(|e: PidFileEntry| e.pid),
            pids@ == all.take(i as int),
        decreases entries@.len() - i,
    {
        pids.push(entries[i].pid);
        proof {
            assert(all.take(i + 1) =~= all.take(i as int).push(all[i as int]));
        }
        i += 1;
    }
    proof {
        assert(all.take(i as int) =~= all);
    }
    Reconciliation { pids, truncate: entries.len() > 0 }
}

/// An empty record leaves nothing to do.
pub proof fn empty_record_needs_nothing(r: Reconciliation, entries: Seq<PidFileEntry>)
    requires
        entries.len() == 0,
        r.pids@ == entries.map_values(|e: PidFileEntry| e.pid),
        r.truncate == (entries.len() > 0),
    ensures
        r.pids@.len() == 0,
        !r.truncate,
{
}

/// A path below a directory is the directory, at most one separator, and the
/// name. A separator is missing only where the directory already ends in
/// something that can stand for one.
pub proof fn paths_join_directory_and_name(path: Seq<char>, dir: Seq<char>, name: Seq<char>)
    requires
        is_path_below(path, dir, name),
    ensures
        path == dir + name || path == dir + "/"@ + name || path == dir + "\\"@ + name,
        dir.len() > 0 && dir.last() == '/' ==> path == dir + name,
        dir.len() == 0 ==> path == name,
        dir.len() > 0 && dir.last() != '/' && dir.last() != '\\' && dir.last() != ':' ==> path == dir
            + "/"@ + name || path == dir + "\\"@ + name,
{
    if dir.len() == 0 {
        assert(dir + name =~= name);
    }
}

/// A file name holds no separator.
pub proof fn file_names_hold_no_separator(name: Seq<char>)
    ensures
        is_file_name(name) <==> forall|i: int|
            0 <= i < name.len() ==> (#[trigger] name[i]) != '/' && name[i] != '\\' && name[i]
                != ':',
        is_verbatim("\\\\?\\"@ + name),
{
    assert(("\\\\?\\"@ + name).subrange(0, "\\\\?\\"@.len() as int) =~= "\\\\?\\"@);
}

/// A process is recorded by its number, its command, its label and its start.
pub proof fn processes_are_recorded(e: PidFileEntry, p: SpawnedProcess)
    ensures
        recorded(e, p) <==> e.pid == p.pid && e.command == p.command && e.label == p.label
            && e.started_at == p.started_at,
{
}

} // verus!
