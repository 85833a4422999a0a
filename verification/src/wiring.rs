//! Which tools an arc's agent gets, given what the app has at hand.

use vstd::prelude::*;
use vstd::string::*;
use crate::github::{IdentitySource, resolve_github_identity_for_arc};
use crate::models::copy_opt;
use crate::routing::{SecurityMode, resolve_security_mode_for_arc};

verus! {

/// What the app has at hand.
#[derive(Clone, Copy, Debug, PartialEq, Eq, Structural)]
pub struct ToolDeps {
    /// Processes that were started are remembered over a restart.
    pub spawn_persistence: bool,
    pub email_sender: bool,
    pub telegram_sender: bool,
    /// Destinations of the owner can be told from others.
    pub owner_check: bool,
    /// The credentials of a GitHub identity can be read.
    pub github_identity_resolver: bool,
    pub checkpoint_store: bool,
    pub grant_store: bool,
    pub approval_router: bool,
    pub telegram_approval_sink: bool,
    pub telegram_chat_log: bool,
    pub calendar_store: bool,
    pub contact_store: bool,
    pub memory: bool,
    pub arc_store: bool,
    pub attachment_store: bool,
    pub identity_store: bool,
    pub project_store: bool,
    pub skill_store: bool,
    pub http_endpoint_store: bool,
    pub vault: bool,
    pub calendar_source_store: bool,
    pub profile_store: bool,
    pub wakeup_store: bool,
    /// A user interface that calls can be shown in.
    pub window: bool,
    /// Any user interface.
    pub ui: bool,
}

/// What is known of the arc that tools are assembled for.
#[derive(Clone, Debug)]
pub struct ArcScope {
    pub arc_id: String,
    /// The security mode that the arc sets.
    pub mode: Option<SecurityMode>,
    /// The root of an active code session.
    pub code_root: Option<String>,
    /// The folder of the arc's project.
    pub project_slug: Option<String>,
    /// The profile that the arc's row names; absent without such a row.
    pub row_profile: Option<Option<String>>,
    /// The profile in use, with defaults applied.
    pub active_profile: Option<String>,
}

/// The tools of an arc's agent.
#[derive(Debug)]
pub struct ToolWiring {
    /// The arc that gates, checkpoints and replies belong to.
    pub arc_id: String,
    /// The mode that every approval gate goes by.
    pub security_mode: SecurityMode,
    /// Where shell and files are rooted.
    pub working_dir: Option<String>,
    pub spawn_persistence: bool,
    pub email: bool,
    pub telegram: bool,
    /// Sending to the owner is told from sending to others.
    pub owner_check: bool,
    /// Whose identity git commands run under.
    pub github_identity: IdentitySource,
    /// That identity's credentials can be read.
    pub github_credentials: bool,
    /// What files were is kept before an action, so that it can be undone.
    pub checkpoints: bool,
    /// Directories that were granted are writable from the shell.
    pub extra_writable: bool,
    /// Installing, mailing and messaging ask for approval.
    pub approval_gates: bool,
    /// What is sent on Telegram goes into the chat's log.
    pub logs_sent_messages: bool,
    pub calendar: bool,
    pub contacts: bool,
    pub memory: bool,
    pub arc_store: bool,
    pub attachments: bool,
    pub identity: bool,
    pub skills: bool,
    pub http_endpoints: bool,
    pub calendar_remote: bool,
    /// The tools that set things up can store secrets.
    pub vault: bool,
    /// Calls can be placed.
    pub telephony: bool,
    /// The profile that decides whether the setup tools are there.
    pub active_profile: Option<String>,
    /// Files are saved into this project by default.
    pub active_project: Option<String>,
    /// Files outside the workspace need a grant.
    pub file_gate: bool,
    /// Grants can be asked for on Telegram.
    pub file_gate_on_telegram: bool,
    pub deep_research: bool,
    /// Tasks can be handed to other agents.
    pub delegation: bool,
    pub wakeup_authoring: bool,
}

/// What a call needs is there: approval, credentials and a registered service.
pub open spec fn telephony_available(d: ToolDeps) -> bool {
    d.approval_router && d.vault && d.http_endpoint_store
}

/// Is there what a call needs?
pub fn build_telephony_deps(d: &ToolDeps) -> (r: bool)
    ensures
        r == telephony_available(*d),
{
    d.approval_router && d.vault && d.http_endpoint_store
}

/// The arc's own security mode wins over the global one.
pub open spec fn mode_in(arc: ArcScope, global: SecurityMode) -> SecurityMode {
    match arc.mode {
        Some(m) => m,
        None => global,
    }
}

/// Whose identity the arc's git commands run under: that of the arc's profile,
/// the default one where its row names none, and nobody's where the row or the
/// profiles are out of reach.
pub open spec fn identity_in(d: ToolDeps, arc: ArcScope) -> IdentitySource {
    match arc.row_profile {
        Some(p) => if d.profile_store && d.arc_store {
            IdentitySource::Profile(p)
        } else {
            IdentitySource::Nobody
        },
        None => IdentitySource::Nobody,
    }
}

/// What the app has at hand, and the arc, decide each tool of a bare registry.
pub open spec fn is_base_wiring(
    w: ToolWiring,
    d: ToolDeps,
    arc: ArcScope,
    global: SecurityMode,
    research: bool,
) -> bool {
    &&& w.arc_id == arc.arc_id
    &&& w.security_mode == mode_in(arc, global)
    &&& w.working_dir == arc.code_root
    &&& w.spawn_persistence == d.spawn_persistence
    &&& w.email == d.email_sender
    &&& w.telegram == d.telegram_sender
    &&& w.owner_check == d.owner_check
    &&& w.github_identity == identity_in(d, arc)
    &&& w.github_credentials == d.github_identity_resolver
    &&& w.checkpoints == d.checkpoint_store
    &&& w.extra_writable == d.grant_store
    &&& w.approval_gates == d.approval_router
    &&& w.logs_sent_messages == d.telegram_chat_log
    &&& w.calendar == d.calendar_store
    &&& w.contacts == d.contact_store
    &&& w.memory == d.memory
    &&& w.arc_store == d.arc_store
    &&& w.attachments == d.attachment_store
    &&& w.identity == d.identity_store
    &&& w.skills == d.skill_store
    &&& w.http_endpoints == (d.http_endpoint_store && d.vault)
    &&& w.calendar_remote == d.calendar_source_store
    &&& w.vault == d.vault
    &&& w.telephony == (telephony_available(d) && d.window)
    &&& w.active_profile == arc.active_profile
    &&& w.active_project == if d.project_store && d.arc_store {
        arc.project_slug
    } else {
        None
    }
    &&& w.file_gate == d.grant_store
    &&& w.file_gate_on_telegram == (d.grant_store && d.telegram_approval_sink)
    &&& w.deep_research == research
}

/// The profile that the arc's row names, where there are rows.
fn named_profile(d: &ToolDeps, arc: &ArcScope) -> (r: Option<Option<String>>)
    ensures
        r == if d.arc_store {
            arc.row_profile
        } else {
            None
        },
{
    if !d.arc_store {
        return None;
    }
    match &arc.row_profile {
        Some(p) => Some(copy_opt(p)),
        None => None,
    }
}

/// The bare tools of an arc: no handing over of tasks, no wake-ups. The arc's
/// own security mode wins over the global one, and the GitHub identity and the
/// profile are the arc's own.
pub fn assemble_base_app_tool_registry(
    d: &ToolDeps,
    arc: &ArcScope,
    global_mode: SecurityMode,
    deep_research_runner: bool,
) -> (w: ToolWiring)
    ensures
        is_base_wiring(w, *d, *arc, global_mode, deep_research_runner),
        !w.delegation,
        !w.wakeup_authoring,
{
    ToolWiring {
        arc_id: arc.arc_id.clone(),
        security_mode: resolve_security_mode_for_arc(arc.mode, global_mode),
        working_dir: copy_opt(&arc.code_root),
        spawn_persistence: d.spawn_persistence,
        email: d.email_sender,
        telegram: d.telegram_sender,
        owner_check: d.owner_check,
        github_identity: resolve_github_identity_for_arc(d.profile_store, named_profile(d, arc)),
        github_credentials: d.github_identity_resolver,
        checkpoints: d.checkpoint_store,
        extra_writable: d.grant_store,
        approval_gates: d.approval_router,
        logs_sent_messages: d.telegram_chat_log,
        calendar: d.calendar_store,
        contacts: d.contact_store,
        memory: d.memory,
        arc_store: d.arc_store,
        attachments: d.attachment_store,
        identity: d.identity_store,
        skills: d.skill_store,
        http_endpoints: d.http_endpoint_store && d.vault,
        calendar_remote: d.calendar_source_store,
        vault: d.vault,
        telephony: build_telephony_deps(d) && d.window,
        active_profile: copy_opt(&arc.active_profile),
        active_project: if d.project_store && d.arc_store {
            copy_opt(&arc.project_slug)
        } else {
            None
        },
        file_gate: d.grant_store,
        file_gate_on_telegram: d.grant_store && d.telegram_approval_sink,
        deep_research: deep_research_runner,
        delegation: false,
        wakeup_authoring: false,
    }
}

/// The tools of an arc that the user talks to: the bare ones, research where
/// there is a user interface, handing over of tasks and wake-ups where there
/// are stores for them.
pub fn assemble_app_tool_registry(d: &ToolDeps, arc: &ArcScope, global_mode: SecurityMode) -> (w:
    ToolWiring)
    ensures
        is_base_wiring(w, *d, *arc, global_mode, d.ui),
        w.delegation == (d.profile_store && d.arc_store),
        w.wakeup_authoring == d.wakeup_store,
{
    let base = assemble_base_app_tool_registry(d, arc, global_mode, d.ui);
    ToolWiring {
        delegation: d.profile_store && d.arc_store,
        wakeup_authoring: d.wakeup_store,
        ..base
    }
}

/// The tools of an agent that a task is handed to: it can neither hand it on,
/// nor author wake-ups, nor start research.
pub fn assemble_subagent_registry(d: &ToolDeps, arc: &ArcScope, global_mode: SecurityMode) -> (w:
    ToolWiring)
    ensures
        is_base_wiring(w, *d, *arc, global_mode, false),
        !w.delegation,
        !w.wakeup_authoring,
        !w.deep_research,
{
    assemble_base_app_tool_registry(d, arc, global_mode, false)
}

/// Tools are scoped to their arc: another arc on the same app differs at most
/// in the security mode, the root, the identity, the profile and the project.
pub proof fn tools_are_scoped_to_the_arc(
    w: ToolWiring,
    v: ToolWiring,
    d: ToolDeps,
    arc: ArcScope,
    other: ArcScope,
    global: SecurityMode,
    research: bool,
)
    requires
        is_base_wiring(w, d, arc, global, research),
        is_base_wiring(v, d, other, global, research),
        w.delegation == v.delegation,
        w.wakeup_authoring == v.wakeup_authoring,
    ensures
        w == (ToolWiring {
            arc_id: w.arc_id,
            security_mode: w.security_mode,
            working_dir: w.working_dir,
            github_identity: w.github_identity,
            active_profile: w.active_profile,
            active_project: w.active_project,
            ..v
        }),
{
}

/// The tools that the generated tool descriptions cover.
#[derive(Clone, Copy, Debug, PartialEq, Eq, Structural)]
pub struct ListedTools {
    pub spawn_persistence: bool,
    pub email: bool,
    pub telegram: bool,
    pub owner_check: bool,
    pub approval_gates: bool,
    pub logs_sent_messages: bool,
    pub calendar: bool,
    pub contacts: bool,
    pub memory: bool,
    pub attachments: bool,
    pub identity: bool,
    pub skills: bool,
    pub http_endpoints: bool,
    pub calendar_remote: bool,
}

/// The tools that an agent gets outside any arc.
pub open spec fn listed_tools(d: ToolDeps) -> ListedTools {
    ListedTools {
        spawn_persistence: d.spawn_persistence,
        email: d.email_sender,
        telegram: d.telegram_sender,
        owner_check: d.owner_check,
        approval_gates: d.approval_router,
        logs_sent_messages: d.telegram_chat_log,
        calendar: d.calendar_store,
        contacts: d.contact_store,
        memory: d.memory,
        attachments: d.attachment_store,
        identity: d.identity_store,
        skills: d.skill_store,
        http_endpoints: d.http_endpoint_store && d.vault,
        calendar_remote: d.calendar_source_store,
    }
}

/// The tools that the generated descriptions cover: what an agent gets outside
/// any arc. Nothing is generated without a directory for it.
pub fn refresh_tools_doc(has_directory: bool, d: &ToolDeps) -> (r: Option<ListedTools>)
    ensures
        r is Some == has_directory,
        r matches Some(t) ==> t == listed_tools(*d),
{
    if !has_directory {
        return None;
    }
    Some(
        ListedTools {
            spawn_persistence: d.spawn_persistence,
            email: d.email_sender,
            telegram: d.telegram_sender,
            owner_check: d.owner_check,
            approval_gates: d.approval_router,
            logs_sent_messages: d.telegram_chat_log,
            calendar: d.calendar_store,
            contacts: d.contact_store,
            memory: d.memory,
            attachments: d.attachment_store,
            identity: d.identity_store,
            skills: d.skill_store,
            http_endpoints: d.http_endpoint_store && d.vault,
            calendar_remote: d.calendar_source_store,
        },
    )
}

/// The descriptions cover what an agent has, but for what only an arc brings.
pub proof fn listed_tools_are_there(
    w: ToolWiring,
    d: ToolDeps,
    arc: ArcScope,
    global: SecurityMode,
    research: bool,
)
    requires
        is_base_wiring(w, d, arc, global, research),
    ensures
        listed_tools(d).spawn_persistence == w.spawn_persistence,
        listed_tools(d).email == w.email,
        listed_tools(d).telegram == w.telegram,
        listed_tools(d).owner_check == w.owner_check,
        listed_tools(d).logs_sent_messages == w.logs_sent_messages,
        listed_tools(d).calendar == w.calendar,
        listed_tools(d).contacts == w.contacts,
        listed_tools(d).memory == w.memory,
        listed_tools(d).approval_gates == w.approval_gates,
        listed_tools(d).attachments == w.attachments,
        listed_tools(d).identity == w.identity,
        listed_tools(d).skills == w.skills,
        listed_tools(d).http_endpoints == w.http_endpoints,
        listed_tools(d).calendar_remote == w.calendar_remote,
{
}

/// Which of the app's parts there are at startup.
#[derive(Clone, Copy, Debug, PartialEq, Eq, Structural)]
pub struct StartupParts {
    pub github_identities: bool,
    /// Arcs, calendars, contacts and the other stores of the database.
    pub stores: bool,
    pub skills: bool,
    pub tool_docs: bool,
    pub endpoint_docs: bool,
    pub pidfile: bool,
    pub compactor: bool,
    /// Tool servers may read secrets.
    pub mcp_secrets: bool,
}

/// Which of the app's parts there are at startup, given what could be opened.
pub fn startup_parts(data_dir: bool, vault: bool, database: bool) -> (r: StartupParts)
    ensures
        r.github_identities == vault,
        r.stores == database,
        r.skills == (database && data_dir),
        r.tool_docs == data_dir,
        r.endpoint_docs == data_dir,
        r.pidfile == data_dir,
        r.compactor == database,
        r.mcp_secrets == vault,
{
    StartupParts {
        github_identities: vault,
        stores: database,
        skills: database && data_dir,
        tool_docs: data_dir,
        endpoint_docs: data_dir,
        pidfile: data_dir,
        compactor: database,
        mcp_secrets: vault,
    }
}

/// A tool is wired exactly where what it needs is there; the arc decides the
/// mode, the directory, the profile and the project.
pub proof fn tools_are_wired_where_they_can_be(
    w: ToolWiring,
    d: ToolDeps,
    arc: ArcScope,
    global: SecurityMode,
    research: bool,
)
    requires
        is_base_wiring(w, d, arc, global, research),
    ensures
        w.arc_id == arc.arc_id,
        arc.mode matches Some(m) ==> w.security_mode == m,
        arc.mode is None ==> w.security_mode == global,
        w.working_dir == arc.code_root,
        w.active_profile == arc.active_profile,
        d.project_store && d.arc_store ==> w.active_project == arc.project_slug,
        !(d.project_store && d.arc_store) ==> w.active_project is None,
        d.profile_store && d.arc_store ==> (arc.row_profile matches Some(p) ==> w.github_identity
            == IdentitySource::Profile(p)),
        !(d.profile_store && d.arc_store) || arc.row_profile is None ==> w.github_identity
            == IdentitySource::Nobody,
        w.spawn_persistence == d.spawn_persistence,
        w.email == d.email_sender,
        w.telegram == d.telegram_sender,
        w.owner_check == d.owner_check,
        w.github_credentials == d.github_identity_resolver,
        w.checkpoints == d.checkpoint_store,
        w.extra_writable == d.grant_store,
        w.file_gate == d.grant_store,
        w.file_gate_on_telegram <==> d.grant_store && d.telegram_approval_sink,
        w.approval_gates == d.approval_router,
        w.logs_sent_messages == d.telegram_chat_log,
        w.calendar == d.calendar_store,
        w.calendar_remote == d.calendar_source_store,
        w.contacts == d.contact_store,
        w.memory == d.memory,
        w.arc_store == d.arc_store,
        w.attachments == d.attachment_store,
        w.identity == d.identity_store,
        w.skills == d.skill_store,
        w.vault == d.vault,
        w.http_endpoints <==> d.http_endpoint_store && d.vault,
        w.telephony <==> d.approval_router && d.vault && d.http_endpoint_store && d.window,
        w.deep_research == research,
{
}

/// The list of tools names those that are there.
pub proof fn listed_tools_follow_what_is_there(d: ToolDeps)
    ensures
        ({
            let l = listed_tools(d);
            &&& l.spawn_persistence == d.spawn_persistence
            &&& l.email == d.email_sender
            &&& l.telegram == d.telegram_sender
            &&& l.owner_check == d.owner_check
            &&& l.approval_gates == d.approval_router
            &&& l.logs_sent_messages == d.telegram_chat_log
            &&& l.calendar == d.calendar_store
            &&& l.contacts == d.contact_store
            &&& l.memory == d.memory
            &&& l.attachments == d.attachment_store
            &&& l.identity == d.identity_store
            &&& l.skills == d.skill_store
            &&& l.http_endpoints <==> d.http_endpoint_store && d.vault
            &&& l.calendar_remote == d.calendar_source_store
        }),
{
}

} // verus!
