//! Finding the arc of an owner's message step by step, what a turn shows, and
//! other requests that end in one action.

use athen_app::calendar_sources::{
    delete_calendar_source, set_calendar_source_enabled, set_calendar_source_selected_calendars,
};
use athen_app::deep_research::{
    arc_not_created, depth_prompt_not_sent, PendingDeepResearch, PendingRequests,
};
use athen_app::github::{resolve_github_identity_for_arc, IdentitySource};
use athen_app::models::Timestamp;
use athen_app::owner_messages::{
    after_answer, after_hint_check, after_listing, arc_note, begin_routing, last_message,
    run_failure, turn_started, ArcChoice, ArcEntry, ArcMeta, MatchReason, RouteStep,
};
use athen_app::owner_turn::{next_turn_step, TurnAction, TurnEvent, TurnState};
use athen_app::routing::resolve_reasoning_effort_for_arc;
use athen_app::wiring::{refresh_tools_doc, ListedTools, ToolDeps};

// 2026-05-13T10:00:00Z
const TEN: i64 = 1_778_666_400;

fn at(secs: i64) -> Timestamp {
    Timestamp { secs, nanos: 0 }
}

fn arc(id: &str, active: bool, messaging: bool, updated: &str) -> ArcMeta {
    ArcMeta {
        id: id.to_string(),
        name: format!("name of {id}"),
        active,
        from_messaging: messaging,
        primary_reply_channel: None,
        updated_at: updated.to_string(),
    }
}

fn reused(step: RouteStep) -> Option<(String, MatchReason)> {
    match step {
        RouteStep::Settled { choice: Some(ArcChoice::Reuse { arc_id, reason }) } => {
            Some((arc_id, reason))
        }
        _ => None,
    }
}

fn created(step: RouteStep) -> Option<String> {
    match step {
        RouteStep::Settled { choice: Some(ArcChoice::Create { name }) } => Some(name),
        _ => None,
    }
}

#[test]
fn routing_begins_with_the_notification() {
    let hint = Some(("mail".to_string(), at(TEN - 60)));
    assert!(matches!(
        begin_routing(false, true, &hint, at(TEN)),
        RouteStep::CheckHint { arc_id } if arc_id == "mail"
    ));
    assert!(matches!(begin_routing(true, true, &hint, at(TEN)), RouteStep::ListArcs));
    assert!(matches!(begin_routing(false, true, &hint, at(TEN + 60)), RouteStep::ListArcs));
    assert!(matches!(begin_routing(false, true, &None, at(TEN)), RouteStep::ListArcs));
    assert!(matches!(
        begin_routing(false, false, &hint, at(TEN)),
        RouteStep::Settled { choice: None }
    ));
}

#[test]
fn hinted_arcs_have_to_be_active() {
    assert_eq!(
        reused(after_hint_check("mail".to_string(), Some(true))),
        Some(("mail".to_string(), MatchReason::NotificationHint))
    );
    assert!(matches!(after_hint_check("mail".to_string(), Some(false)), RouteStep::ListArcs));
    assert!(matches!(after_hint_check("mail".to_string(), None), RouteStep::ListArcs));
}

#[test]
fn model_is_asked_only_where_there_is_something_to_continue() {
    let now = at(TEN);
    let arcs = Some(vec![
        arc("closed", false, true, "2026-05-13T09:59:00Z"),
        arc("open", true, true, "2026-05-13T09:40:00Z"),
        arc("other", true, false, "2026-05-13T09:59:00Z"),
    ]);
    assert!(matches!(
        after_listing(false, &arcs, now, "hello"),
        RouteStep::AskModel { candidates } if candidates == vec![1]
    ));
    assert_eq!(created(after_listing(true, &arcs, now, "hello")), Some("hello".to_string()));
    let none = Some(vec![arc("old", true, true, "2026-05-13T09:00:00Z")]);
    assert_eq!(created(after_listing(false, &none, now, "hello")), Some("hello".to_string()));
    assert!(matches!(after_listing(false, &None, now, "hello"), RouteStep::Refuse));
}

#[test]
fn answers_only_name_active_candidates() {
    let now = at(TEN);
    let arcs = vec![
        arc("closed", false, true, "2026-05-13T09:59:00Z"),
        arc("half_hour", true, true, "2026-05-13T09:40:00Z"),
        arc("fresh", true, true, "2026-05-13T09:58:00Z"),
    ];
    assert_eq!(
        reused(after_answer(Some("`half_hour`"), &arcs, now, "yes")),
        Some(("half_hour".to_string(), MatchReason::LlmPick))
    );
    // What was not offered is not taken, and the next sign decides.
    let fallback = Some(("fresh".to_string(), MatchReason::RecentMessaging));
    assert_eq!(reused(after_answer(Some("closed"), &arcs, now, "yes")), fallback);
    assert_eq!(reused(after_answer(Some("NEW"), &arcs, now, "yes")), fallback);
    assert_eq!(reused(after_answer(None, &arcs, now, "yes")), fallback);
    let stale = vec![arc("half_hour", true, true, "2026-05-13T09:40:00Z")];
    assert_eq!(created(after_answer(Some("new"), &stale, now, "yes")), Some("yes".to_string()));
}

#[test]
fn last_message_skips_tool_traces() {
    let entry = |is_message: bool, content: &str| ArcEntry {
        is_message,
        source: "user".to_string(),
        content: content.to_string(),
    };
    let entries = vec![entry(true, "one"), entry(true, "two"), entry(false, "ran a tool")];
    assert_eq!(last_message(&entries), Some("two".to_string()));
    assert_eq!(last_message(&vec![entry(false, "ran a tool")]), None);
    assert_eq!(last_message(&vec![]), None);
}

#[test]
fn arc_notes_are_for_reused_arcs() {
    let name = Some("Trip".to_string());
    assert_eq!(
        arc_note(Some(MatchReason::PrimaryReplyChannel), &name),
        Some(
            "📍 Arc: \"Trip\" (ongoing Telegram thread). Send /newarc to start fresh.".to_string()
        )
    );
    assert_eq!(arc_note(None, &name), None);
    assert_eq!(arc_note(Some(MatchReason::LlmPick), &None), None);
}

#[test]
fn turns_announce_themselves() {
    let p = turn_started("arc_1", &"é".repeat(300));
    assert_eq!(p.step, 0);
    assert_eq!(p.tool_name, "Processing Telegram message...");
    assert_eq!(p.status, "InProgress");
    assert_eq!(p.detail, "é".repeat(200));
    assert_eq!(p.arc_id, "arc_1");
    assert_eq!(run_failure(true), None);
    assert_eq!(run_failure(false), Some("agent stopped before finishing"));
}

#[test]
fn unsent_questions_withdraw_the_request() {
    let mut requests = PendingRequests::new();
    let pending = |q: &str| PendingDeepResearch {
        arc_id: "arc_1".to_string(),
        chat_id: 7,
        question: q.to_string(),
        created_at: at(TEN),
    };
    requests.stash_pending_deep_research("a".to_string(), pending("one"), at(TEN));
    requests.stash_pending_deep_research("b".to_string(), pending("two"), at(TEN));
    assert_eq!(
        depth_prompt_not_sent(&mut requests, "a"),
        "⚠️ Couldn't send the depth options. Please try again."
    );
    assert!(requests.take_pending_deep_research("a").is_none());
    assert_eq!(requests.take_pending_deep_research("b").unwrap().question, "two");
    assert_eq!(
        arc_not_created(),
        "⚠️ Couldn't start research (failed to create a conversation)."
    );
}

#[test]
fn identities_come_from_the_profile_of_the_arc() {
    assert!(matches!(
        resolve_github_identity_for_arc(false, Some(Some("coder".to_string()))),
        IdentitySource::Nobody
    ));
    assert!(matches!(
        resolve_github_identity_for_arc(true, Some(Some("coder".to_string()))),
        IdentitySource::Profile(Some(p)) if p == "coder"
    ));
    assert!(matches!(
        resolve_github_identity_for_arc(true, Some(None)),
        IdentitySource::Profile(None)
    ));
    assert!(matches!(
        resolve_github_identity_for_arc(true, None),
        IdentitySource::Nobody
    ));
}

#[test]
fn reasoning_effort_prefers_the_arc() {
    assert_eq!(resolve_reasoning_effort_for_arc(Some("high"), "default"), "high");
    assert_eq!(resolve_reasoning_effort_for_arc(None, "default"), "default");
}

#[test]
fn tool_descriptions_need_a_directory() {
    let d = ToolDeps {
        spawn_persistence: false,
        email_sender: true,
        telegram_sender: false,
        owner_check: true,
        github_identity_resolver: true,
        checkpoint_store: true,
        telegram_chat_log: true,
        calendar_store: true,
        contact_store: false,
        memory: true,
        grant_store: true,
        approval_router: true,
        telegram_approval_sink: true,
        arc_store: true,
        attachment_store: false,
        identity_store: true,
        project_store: true,
        skill_store: true,
        http_endpoint_store: true,
        vault: false,
        calendar_source_store: true,
        profile_store: true,
        wakeup_store: true,
        window: true,
        ui: true,
    };
    assert_eq!(refresh_tools_doc(false, &d), None);
    assert_eq!(
        refresh_tools_doc(true, &d),
        Some(ListedTools {
            spawn_persistence: false,
            email: true,
            telegram: false,
            owner_check: true,
            approval_gates: true,
            logs_sent_messages: true,
            calendar: true,
            contacts: false,
            memory: true,
            attachments: false,
            identity: true,
            skills: true,
            http_endpoints: false,
            calendar_remote: true,
        })
    );
    let with_vault = ToolDeps { vault: true, ..d };
    assert!(refresh_tools_doc(true, &with_vault).unwrap().http_endpoints);
}

#[test]
fn sources_are_changed_by_their_row() {
    let id = "00000000-0000-0000-0000-0000000000ff";
    let secret = Some(("calendar".to_string(), "pw".to_string()));
    let d = delete_calendar_source(id, true, secret.clone(), true).unwrap();
    assert_eq!(d.row, 255);
    assert_eq!(d.secret, secret);
    assert_eq!(delete_calendar_source(id, true, secret.clone(), false).unwrap().secret, None);
    assert_eq!(delete_calendar_source(id, false, None, true).unwrap_err(), "Database unavailable");
    assert!(delete_calendar_source("x", false, None, true).unwrap_err().starts_with("Bad id: "));
    assert_eq!(set_calendar_source_enabled(id, false, true), Ok((255, false)));
    assert_eq!(
        set_calendar_source_enabled(id, true, false),
        Err("Database unavailable".to_string())
    );
    let ids = vec!["home".to_string(), "work".to_string()];
    assert_eq!(
        set_calendar_source_selected_calendars(id, ids.clone(), true),
        Ok((255, ids.clone()))
    );
    assert!(set_calendar_source_selected_calendars("", ids, true).is_err());
}

/// The actions of a turn, from its message and what happens after it.
fn actions(message: &str, events: &[TurnEvent]) -> Vec<TurnAction> {
    let mut state = TurnState::Fresh;
    let mut all = Vec::new();
    let first = TurnEvent::Message(message.to_string());
    for event in std::iter::once(&first).chain(events) {
        let (next, action) = next_turn_step(state, event);
        state = next;
        all.push(action);
    }
    all
}

#[test]
fn messages_find_an_arc_then_reach_the_agent() {
    assert_eq!(
        actions("hello", &[TurnEvent::Placed, TurnEvent::AgentDone, TurnEvent::AgentDone]),
        vec![
            TurnAction::FindArc { force_new: false, text: "hello".to_string() },
            TurnAction::RunAgent,
            TurnAction::Reply,
            TurnAction::Stop,
        ]
    );
    assert_eq!(
        actions("/newarc hello", &[TurnEvent::Placed])[1],
        TurnAction::RunAgent
    );
    assert_eq!(
        actions("hello", &[TurnEvent::Unreadable, TurnEvent::Placed])[1..],
        [TurnAction::TellUnreadable, TurnAction::Stop]
    );
}

#[test]
fn research_never_reaches_the_agent() {
    let events = [TurnEvent::Placed, TurnEvent::Placed, TurnEvent::AgentDone];
    assert_eq!(
        actions("/deepresearch right to repair", &events),
        vec![
            TurnAction::OfferResearch("right to repair".to_string()),
            TurnAction::Stop,
            TurnAction::Stop,
            TurnAction::Stop,
        ]
    );
}

#[test]
fn a_bare_newarc_is_only_acknowledged() {
    let fresh = TurnAction::FindArc { force_new: true, text: String::new() };
    let once = TurnAction::Acknowledge { after_ms: 0 };
    let again = TurnAction::Acknowledge { after_ms: 500 };
    assert_eq!(
        actions("/newarc", &[TurnEvent::Placed, TurnEvent::Sent(true)]),
        vec![fresh.clone(), once.clone(), TurnAction::Stop]
    );
    let failed = TurnEvent::Sent(false);
    assert_eq!(
        actions("/newarc", &[TurnEvent::Placed, failed.clone(), failed, TurnEvent::AgentDone]),
        vec![fresh, once, again, TurnAction::Stop, TurnAction::Stop]
    );
}
