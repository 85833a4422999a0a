//! Telegram commands, progress labels, chunking and reply assembly.

use athen_app::deep_research::{
    depth_buttons, depth_prompt, handle_telegram_deepresearch_callback,
    handle_telegram_deepresearch_command, needs_decision, paper_caption, paper_fallback,
    parse_button, research_failure, research_unavailable, running_note, worker_contribution,
    DeepResearchResult, DepthChosen, PendingDeepResearch, PendingRequests, ResearchEnd,
    ResearchStart,
};
use athen_app::models::Timestamp;
use athen_app::owner_messages::{
    after_ack, arc_candidates, arc_footer, arc_passes, arc_pick_prompt, arc_to_restore,
    chat_history_context, choose_arc, conversation_context, execute_owner_telegram_message,
    failure_message, finish_owner_turn, fresh_hint, goal_needs_triage, goal_update, is_bare_newarc,
    new_arc_name, newarc_ack, outbound_message, owner_command, parse_deepresearch_command,
    parse_newarc_command, pick_arc_with_llm, reply_content, reply_content_from,
    restore_or_create_arc, restored_history, route_callback, route_telegram_event,
    routing_failure_notice, AckStep, ArcChoice, ArcEntry, ArcMeta, ArcSnippet, ArcTest,
    CallbackRoute, ChatLogRow, EventRoute, GoalUpdate, MatchReason, OwnerCommand, Role, TurnFacts,
    TurnStep,
};
use athen_app::telegram_progress::{
    build_telegram_tools_footer, chunk_text, humanize, humanize_with, lookup_builtin, messages_to_send,
    pretty_tool_label, status_header_text, TelegramProgressReporter, TELEGRAM_MAX,
};

fn at(secs: i64) -> Timestamp {
    Timestamp { secs, nanos: 0 }
}

fn arc(id: &str, active: bool, messaging: bool, channel: Option<&str>, updated: &str) -> ArcMeta {
    ArcMeta {
        id: id.to_string(),
        name: format!("name of {id}"),
        active,
        from_messaging: messaging,
        primary_reply_channel: channel.map(|c| c.to_string()),
        updated_at: updated.to_string(),
    }
}

// 2026-05-13T10:00:00Z
const NOON: i64 = 1_778_666_400;

#[test]
fn bare_newarc_resets_with_empty_remainder() {
    let (force, rest) = parse_newarc_command("/newarc");
    assert!(force);
    assert!(rest.is_empty());
}

#[test]
fn newarc_with_followup_keeps_followup() {
    let (force, rest) = parse_newarc_command("/newarc check my email");
    assert!(force);
    assert_eq!(rest, "check my email");
}

#[test]
fn leading_whitespace_does_not_block_command() {
    let (force, rest) = parse_newarc_command("   /newarc reset please");
    assert!(force);
    assert_eq!(rest, "reset please");
}

#[test]
fn newarc_mid_message_is_content() {
    let (force, rest) = parse_newarc_command("we should /newarc this thread");
    assert!(!force);
    assert_eq!(rest, "we should /newarc this thread");
}

#[test]
fn similar_command_prefix_does_not_match() {
    let (force, rest) = parse_newarc_command("/newarchaeology check");
    assert!(!force);
    assert_eq!(rest, "/newarchaeology check");
}

#[test]
fn newarc_with_tab_separator() {
    let (force, rest) = parse_newarc_command("/newarc\tafter tab");
    assert!(force);
    assert_eq!(rest, "after tab");
}

#[test]
fn deepresearch_command_parsing() {
    assert_eq!(
        parse_deepresearch_command("/deepresearch EU right to repair"),
        Some("EU right to repair".to_string())
    );
    assert_eq!(
        parse_deepresearch_command("  /DeepResearch@AthenBot   spaced topic  "),
        Some("spaced topic".to_string())
    );
    assert_eq!(
        parse_deepresearch_command("/deep_research underscore variant"),
        Some("underscore variant".to_string())
    );
    assert_eq!(parse_deepresearch_command("/deepresearch"), Some(String::new()));
    assert_eq!(parse_deepresearch_command("just a message"), None);
    assert_eq!(parse_deepresearch_command("/newarc something"), None);
    assert_eq!(parse_deepresearch_command("/deepresearchx topic"), None);
}

#[test]
fn owner_commands_are_told_apart() {
    assert!(matches!(
        owner_command("/deepresearch bees"),
        OwnerCommand::DeepResearch(t) if t == "bees"
    ));
    assert!(matches!(
        owner_command("/newarc hi"),
        OwnerCommand::Message { force_new_arc: true, text } if text == "hi"
    ));
    assert!(matches!(
        owner_command("hi there"),
        OwnerCommand::Message { force_new_arc: false, text } if text == "hi there"
    ));
    assert!(is_bare_newarc(true, ""));
    assert!(!is_bare_newarc(true, "x"));
    assert!(!is_bare_newarc(false, ""));
    assert_eq!(newarc_ack(), "📍 New arc started. Send your message.");
}

#[test]
fn acknowledgement_is_tried_twice() {
    assert_eq!(after_ack(0, true), AckStep::Done);
    assert_eq!(after_ack(0, false), AckStep::Retry(500));
    assert_eq!(after_ack(1, false), AckStep::GiveUp);
    assert_eq!(after_ack(1, true), AckStep::Done);
}

#[test]
fn chunk_short_text_unchanged() {
    let chunks = chunk_text("hello world", 4096);
    assert_eq!(chunks, vec!["hello world".to_string()]);
}

#[test]
fn chunk_breaks_on_newline_when_within_lookback() {
    let mut s = String::new();
    s.push_str(&"a".repeat(4040));
    s.push('\n');
    s.push_str(&"b".repeat(100));
    let chunks = chunk_text(&s, 4096);
    assert_eq!(chunks.len(), 2);
    assert!(chunks[0].ends_with('\n'));
    assert!(chunks[1].starts_with('b'));
}

#[test]
fn chunk_handles_multibyte_at_boundary() {
    let mut s = String::new();
    s.push_str(&"a".repeat(4095));
    s.push('é');
    s.push_str(&"b".repeat(50));
    let chunks = chunk_text(&s, 4096);
    assert!(chunks.len() >= 2);
    assert!(chunks[0].is_char_boundary(chunks[0].len()));
}

#[test]
fn chunks_rebuild_the_text_and_fit() {
    let mut s = String::new();
    for i in 0..700 {
        s.push_str(&format!("wörd{i} "));
        if i % 97 == 0 {
            s.push('\n');
        }
    }
    let chunks = chunk_text(&s, 300);
    assert!(chunks.len() > 5);
    assert_eq!(chunks.concat(), s);
    for c in &chunks {
        assert!(c.len() <= 300);
        assert!(!c.is_empty());
    }
}

#[test]
fn chunk_takes_a_near_space_over_a_far_newline() {
    let s = format!("\n{} {}", "a".repeat(300), "b".repeat(100));
    let chunks = chunk_text(&s, 350);
    assert_eq!(chunks, vec![format!("\n{} ", "a".repeat(300)), "b".repeat(100)]);
}

#[test]
fn chunk_prefers_white_space_and_falls_back_to_a_hard_cut() {
    // A space lies within the last 200 bytes of the budget.
    let s = format!("{} {}", "a".repeat(80), "b".repeat(80));
    let chunks = chunk_text(&s, 100);
    assert_eq!(chunks[0], format!("{} ", "a".repeat(80)));
    // The only newline lies too far back, so the cut is hard.
    let t = format!("x\n{}", "c".repeat(600));
    let cut = chunk_text(&t, 300);
    assert_eq!(cut[0].len(), 300);
    assert_eq!(cut.concat(), t);
    // A wide space is not split.
    let u = format!("{}\u{2003}{}", "d".repeat(90), "e".repeat(90));
    let wide = chunk_text(&u, 100);
    assert_eq!(wide[0], format!("{}\u{2003}", "d".repeat(90)));
    // A budget below one character yields nothing.
    assert!(chunk_text("éé", 1).is_empty());
    assert_eq!(chunk_text("", 10), vec![String::new()]);
}

#[test]
fn render_status_with_no_tools_is_just_header() {
    let r = TelegramProgressReporter::render_status(&vec![]);
    assert_eq!(r, status_header_text());
}

#[test]
fn pretty_label_built_in_tools() {
    assert_eq!(pretty_tool_label("shell_execute"), "Run");
    assert_eq!(pretty_tool_label("read"), "Read");
    assert_eq!(pretty_tool_label("list_directory"), "List");
    assert_eq!(pretty_tool_label("delegate_to_agent"), "Consult specialist");
}

#[test]
fn pretty_label_mcp_tools_resolve_via_suffix() {
    assert_eq!(pretty_tool_label("files__read"), "Read");
    assert_eq!(pretty_tool_label("files__list_dir"), "List");
    assert_eq!(pretty_tool_label("files__read_file"), "Read");
    assert_eq!(pretty_tool_label("files__search_files"), "Search files");
}

#[test]
fn pretty_label_unknown_mcp_tool_falls_back_to_humanized_suffix() {
    assert_eq!(pretty_tool_label("custom__weird_tool"), "Weird tool");
}

#[test]
fn pretty_label_unknown_plain_tool_humanizes() {
    assert_eq!(pretty_tool_label("brand_new_tool"), "Brand new tool");
}

#[test]
fn humanize_uppercases_only_the_first_character() {
    assert_eq!(humanize("some_tool"), "Some tool");
    assert_eq!(humanize("ßeta_x"), "SSeta x");
    assert_eq!(humanize("éclair"), "Éclair");
    assert_eq!(humanize("_x"), " x");
    assert_eq!(humanize(""), "");
    assert_eq!(humanize_with("abc_d", "Q"), "Qbc d");
    assert_eq!(lookup_builtin("grep"), Some("Search files"));
    assert_eq!(lookup_builtin("nope"), None);
}

#[test]
fn render_status_lists_tools_in_order() {
    let r = TelegramProgressReporter::render_status(&vec![
        "shell_execute".to_string(),
        "read".to_string(),
    ]);
    assert!(r.starts_with(status_header_text()));
    assert!(r.contains("• shell_execute"));
    assert!(r.contains("• read"));
    let i_shell = r.find("shell_execute").unwrap();
    let i_read = r.find("read").unwrap();
    assert!(i_shell < i_read);
    assert_eq!(r, "🤔 Working on it…\n\n• shell_execute\n• read");
}

#[test]
fn reporter_edits_once_posted_and_stops_when_finalized() {
    let mut rep = TelegramProgressReporter::new("t".to_string(), 7);
    assert!(rep.report_tool("read").is_none());
    rep.start(Some(42));
    let edit = rep.report_tool("shell_execute").unwrap();
    assert_eq!(edit.message_id, 42);
    assert_eq!(edit.text, "🤔 Working on it…\n\n• Read\n• Run");
    // The same label again is not listed twice.
    let again = rep.report_tool("files__read").unwrap();
    assert_eq!(again.text, edit.text);
    assert!(rep.report_tool("").is_none());
    let done = rep.finalize_with_text("bye").unwrap();
    assert_eq!(done.edit, Some(42));
    assert_eq!(done.first, "bye");
    assert!(done.rest.is_empty());
    assert!(rep.finalize_with_text("late").is_none());
    assert!(rep.report_tool("write").is_none());
    assert_eq!(rep.tools_seen, vec!["Read".to_string(), "Run".to_string()]);
}

#[test]
fn replies_are_sent_where_the_edit_fails() {
    let text = "z".repeat(TELEGRAM_MAX + 10);
    let delivery = |posted: Option<i64>| {
        let mut rep = TelegramProgressReporter::new("t".to_string(), 7);
        rep.start(posted);
        rep.finalize_with_text(&text).unwrap()
    };
    let (first, rest) = ("z".repeat(TELEGRAM_MAX), "z".repeat(10));
    assert_eq!(messages_to_send(delivery(Some(42)), true), vec![rest.clone()]);
    assert_eq!(messages_to_send(delivery(Some(42)), false), vec![first.clone(), rest.clone()]);
    assert_eq!(messages_to_send(delivery(None), false), vec![first.clone(), rest.clone()]);
    assert_eq!(messages_to_send(delivery(None), true), vec![first, rest]);
}

#[test]
fn long_replies_are_delivered_in_parts() {
    let mut rep = TelegramProgressReporter::new("t".to_string(), 7);
    let text = "z".repeat(TELEGRAM_MAX + 10);
    let d = rep.finalize_with_text(&text).unwrap();
    assert_eq!(d.edit, None);
    assert_eq!(d.first.len(), TELEGRAM_MAX);
    assert_eq!(d.rest, vec!["z".repeat(10)]);
    let mut other = TelegramProgressReporter::new("t".to_string(), 7);
    assert!(other.finalize_with_text("").is_none());
    assert!(other.finalized);
}

#[test]
fn tools_footer_counts_repeats() {
    let names: Vec<String> = ["shell_execute", "read", "shell_execute", "files__read", "shell_execute"]
        .iter()
        .map(|s| s.to_string())
        .collect();
    assert_eq!(build_telegram_tools_footer(&names), "— Tools used: Run ×3, Read ×2");
    assert_eq!(build_telegram_tools_footer(&vec![]), "");
    assert_eq!(build_telegram_tools_footer(&vec!["".to_string()]), "");
    assert_eq!(build_telegram_tools_footer(&vec!["files__".to_string(), "".to_string()]), "");
    assert_eq!(build_telegram_tools_footer(&vec!["grep".to_string()]), "— Tools used: Search files");
}

#[test]
fn telegram_events_are_routed() {
    assert!(matches!(
        route_telegram_event(false, Some("hi"), None, Some(1), 0),
        EventRoute::Triage
    ));
    assert!(matches!(
        route_telegram_event(true, Some(""), Some("sum"), Some(9), 0),
        EventRoute::TriageThenExecute { text, chat_id: 9 } if text == "sum"
    ));
    assert!(matches!(
        route_telegram_event(true, Some("body"), Some("sum"), Some(9), 0),
        EventRoute::TriageThenExecute { text, chat_id: 9 } if text == "body"
    ));
    assert!(matches!(
        route_telegram_event(true, None, None, Some(9), 1),
        EventRoute::TriageThenExecute { text, .. } if text.is_empty()
    ));
    assert!(matches!(route_telegram_event(true, None, None, Some(9), 0), EventRoute::Triage));
    assert!(matches!(route_telegram_event(true, Some("x"), None, None, 0), EventRoute::Triage));
    assert_eq!(route_callback("dr|a|quick", false), CallbackRoute::DeepResearch);
    assert_eq!(route_callback("ok|1", true), CallbackRoute::Approval);
    assert_eq!(route_callback("ok|1", false), CallbackRoute::Dropped);
}

#[test]
fn arcs_are_tested_by_kind_and_age() {
    let now = at(NOON);
    let fresh = "2026-05-13T09:58:00Z";
    let older = "2026-05-13T09:40:00Z";
    let thread = arc("t", true, false, Some("telegram"), fresh);
    assert!(arc_passes(ArcTest::Thread, &thread, now));
    assert!(!arc_passes(ArcTest::Messaging, &thread, now));
    assert!(arc_passes(ArcTest::Candidate, &thread, now));
    let msg = arc("m", true, true, None, older);
    assert!(!arc_passes(ArcTest::Messaging, &msg, now));
    assert!(arc_passes(ArcTest::Candidate, &msg, now));
    // Exactly five minutes is too old; one second less is not.
    let edge = arc("e", true, true, None, "2026-05-13T09:55:00Z");
    assert!(!arc_passes(ArcTest::Messaging, &edge, now));
    let inside = arc("i", true, true, None, "2026-05-13T09:55:01Z");
    assert!(arc_passes(ArcTest::Messaging, &inside, now));
    // Another offset names the same moment.
    let offset = arc("o", true, true, None, "2026-05-13T11:58:00+02:00");
    assert!(arc_passes(ArcTest::Messaging, &offset, now));
    assert!(!arc_passes(ArcTest::Candidate, &arc("x", true, true, None, "yesterday"), now));
    assert!(!arc_passes(ArcTest::Candidate, &arc("x", false, true, None, fresh), now));
    assert!(!arc_passes(ArcTest::Thread, &arc("x", true, true, Some("email"), fresh), now));
}

#[test]
fn arc_choice_follows_its_order() {
    let now = at(NOON);
    let fresh = "2026-05-13T09:59:00Z";
    let arcs = vec![
        arc("msg", true, true, None, fresh),
        arc("thread", true, false, Some("telegram"), fresh),
    ];
    let reuse = |c: ArcChoice| match c {
        ArcChoice::Reuse { arc_id, reason } => (arc_id, Some(reason)),
        ArcChoice::Create { name } => (name, None),
    };
    let pick = |force: bool, hint: Option<&str>, llm: Option<&str>, arcs: &Vec<ArcMeta>| {
        reuse(choose_arc(
            force,
            hint.map(|s| s.to_string()),
            llm.map(|s| s.to_string()),
            arcs,
            now,
            "hello",
        ))
    };
    assert_eq!(
        pick(false, Some("h"), Some("l"), &arcs),
        ("h".to_string(), Some(MatchReason::NotificationHint))
    );
    assert_eq!(
        pick(false, None, Some("l"), &arcs),
        ("l".to_string(), Some(MatchReason::LlmPick))
    );
    assert_eq!(
        pick(false, None, None, &arcs),
        ("thread".to_string(), Some(MatchReason::PrimaryReplyChannel))
    );
    let only = vec![arc("msg", true, true, None, fresh)];
    assert_eq!(
        pick(false, None, None, &only),
        ("msg".to_string(), Some(MatchReason::RecentMessaging))
    );
    assert_eq!(pick(false, None, None, &vec![]), ("hello".to_string(), None));
    assert_eq!(pick(true, Some("h"), Some("l"), &arcs), ("hello".to_string(), None));
}

#[test]
fn candidates_stop_at_six() {
    let now = at(NOON);
    let arcs: Vec<ArcMeta> = (0..10)
        .map(|i| arc(&format!("a{i}"), i != 1, true, None, "2026-05-13T09:45:00Z"))
        .collect();
    assert_eq!(arc_candidates(&arcs, now), vec![0, 2, 3, 4, 5, 6]);
    assert!(arc_candidates(&vec![], now).is_empty());
}

#[test]
fn hints_are_fresh_for_two_minutes() {
    let hint = Some(("a".to_string(), at(NOON)));
    assert_eq!(fresh_hint(&hint, at(NOON + 119)), Some("a".to_string()));
    assert_eq!(fresh_hint(&hint, at(NOON + 120)), None);
    assert_eq!(fresh_hint(&None, at(NOON)), None);
}

#[test]
fn fresh_arcs_are_named_after_the_message() {
    assert_eq!(new_arc_name("short"), "short");
    assert_eq!(new_arc_name(""), "New Telegram arc");
    assert_eq!(
        new_arc_name("this message is longer than thirty bytes"),
        "this message is longer than..."
    );
    // The cut never splits a character.
    let wide = "é".repeat(20);
    assert_eq!(new_arc_name(&wide), format!("{}...", "é".repeat(13)));
}

#[test]
fn model_picks_are_checked() {
    let ids = vec!["arc_1".to_string(), "arc_2".to_string()];
    assert_eq!(pick_arc_with_llm(Some(" `arc_2`\n"), &ids), Some("arc_2".to_string()));
    assert_eq!(pick_arc_with_llm(Some("\"arc_1\""), &ids), Some("arc_1".to_string()));
    assert_eq!(pick_arc_with_llm(Some("NEW"), &ids), None);
    assert_eq!(pick_arc_with_llm(Some("'new'"), &ids), None);
    assert_eq!(pick_arc_with_llm(Some("  "), &ids), None);
    assert_eq!(pick_arc_with_llm(Some("arc_3"), &ids), None);
    assert_eq!(pick_arc_with_llm(None, &ids), None);
}

#[test]
fn pick_prompt_lists_history_and_candidates() {
    let rows = vec![
        ChatLogRow { inbound: true, ts: "t1".into(), text: "hey".into() },
        ChatLogRow { inbound: false, ts: "t2".into(), text: "hi".into() },
    ];
    let cands = vec![
        ArcSnippet { id: "a".into(), name: "A".into(), last_message: Some("x".repeat(300)) },
        ArcSnippet { id: "b".into(), name: "B".into(), last_message: None },
    ];
    let p = arc_pick_prompt("yes", &rows, &cands).unwrap();
    assert!(p.starts_with("You route incoming Telegram messages"));
    assert!(p.contains("\"yes\"\n\nRecent exchange with this Telegram chat (newest last):\n  [t1] them: hey\n  [t2] us: hi\n\nCandidate arcs to consider:\n"));
    assert!(p.contains(&format!("- id: \"a\" | name: \"A\" | last: \"{}\"\n", "x".repeat(200))));
    assert!(p.contains("- id: \"b\" | name: \"B\" | last: \"\"\n\nDecide whether"));
    assert!(p.ends_with("No explanation. No markdown."));
    assert!(arc_pick_prompt("yes", &rows, &vec![]).is_none());
    let q = arc_pick_prompt("yes", &vec![], &cands).unwrap();
    assert!(!q.contains("Recent exchange with"));
}

fn entry(is_message: bool, source: &str, content: &str) -> ArcEntry {
    ArcEntry { is_message, source: source.to_string(), content: content.to_string() }
}

#[test]
fn conversations_keep_known_roles() {
    let entries = vec![
        entry(true, "user", "q"),
        entry(false, "assistant", "tool call"),
        entry(true, "assistant", "a"),
        entry(true, "tool", "t"),
        entry(true, "robot", "r"),
        entry(true, "system", "s"),
    ];
    let c: Vec<(Role, String)> = conversation_context(&entries)
        .into_iter()
        .map(|m| (m.role, m.content))
        .collect();
    assert_eq!(
        c,
        vec![
            (Role::User, "q".to_string()),
            (Role::Assistant, "a".to_string()),
            (Role::System, "s".to_string())
        ]
    );
    let h: Vec<Role> = restored_history(&entries).into_iter().map(|m| m.role).collect();
    assert_eq!(h, vec![Role::User, Role::Assistant, Role::Tool, Role::User, Role::System]);
}

#[test]
fn chat_history_goes_to_fresh_arcs_only() {
    let rows = vec![ChatLogRow { inbound: true, ts: "t1".into(), text: "hey".into() }];
    assert_eq!(chat_history_context(true, &rows), None);
    assert_eq!(chat_history_context(false, &vec![]), None);
    assert_eq!(
        chat_history_context(false, &rows).unwrap(),
        "<CONTEXT type=\"telegram-chat-history\">\nRecent messages with this Telegram chat (newest last). Use for conversational continuity — the user may be referring back to one of these.\n[t1] user: hey\n</CONTEXT>"
    );
}

#[test]
fn blocked_goals_are_triaged() {
    let some = |s: &str| Some(s.to_string());
    assert!(goal_needs_triage(&some("blocked"), &some("g"), &some("r")));
    assert!(!goal_needs_triage(&some("active"), &some("g"), &some("r")));
    assert!(!goal_needs_triage(&some("blocked"), &None, &some("r")));
    assert!(!goal_needs_triage(&None, &some("g"), &some("r")));
    assert_eq!(goal_update(false, true), GoalUpdate::Keep);
    assert_eq!(goal_update(true, true), GoalUpdate::Abandon);
    assert_eq!(goal_update(true, false), GoalUpdate::Reactivate);
}

#[test]
fn replies_are_taken_from_the_output() {
    assert_eq!(reply_content(true, 3, &Some("{\"response\":\"done\"}".into())), "done");
    assert_eq!(
        reply_content(true, 3, &Some("{\"x\":1}".into())),
        "{\n  \"x\": 1\n}"
    );
    assert_eq!(reply_content(true, 3, &None), "Task completed.");
    assert_eq!(
        reply_content(false, 3, &Some("{\"reason\":\"cancelled\"}".into())),
        "Task cancelled."
    );
    assert_eq!(
        reply_content(false, 12, &Some("{\"reason\":\"max_steps\"}".into())),
        "Ran out of steps (12 used) before finishing."
    );
    assert_eq!(
        reply_content_from(true, 0, None, Some(String::new()), Some("w".into())),
        "w"
    );
}

#[test]
fn failures_are_explained() {
    assert_eq!(
        failure_message("LLM Timeout after 300s", "x"),
        "Sorry, the task took too long and timed out. Try a simpler request or break it into smaller steps."
    );
    assert_eq!(failure_message("boom", "it broke"), "Sorry, the task failed: it broke");
    assert!(routing_failure_notice().contains("Please try again."));
}

#[test]
fn outbound_messages_append_footers() {
    assert_eq!(outbound_message("c", "", &None), "c");
    assert_eq!(outbound_message("c", "t", &None), "c\n\nt");
    assert_eq!(outbound_message("c", "", &Some("a".into())), "c\n\na");
    assert_eq!(outbound_message("c", "t", &Some("a".into())), "c\n\nt\n\na");
    assert_eq!(
        arc_footer("Trip", MatchReason::RecentMessaging),
        "📍 Arc: \"Trip\" (recent message fallback). Send /newarc to start fresh."
    );
    assert_eq!(
        arc_footer("Trip", MatchReason::LlmPick),
        "📍 Arc: \"Trip\" (reused). Send /newarc to start fresh."
    );
}

#[test]
fn turns_run_in_order() {
    let all = TurnFacts {
        has_notifier: true,
        has_store: true,
        has_arc: true,
        arc_was_reused: false,
        has_attachment_store: true,
        has_chat_log: true,
    };
    assert_eq!(
        execute_owner_telegram_message(all),
        vec![
            TurnStep::MarkArcRead,
            TurnStep::SetReplyChannel,
            TurnStep::TriageGoal,
            TurnStep::LoadHistory,
            TurnStep::StoreAttachments,
            TurnStep::InjectChatHistory,
            TurnStep::LogInbound,
            TurnStep::SurfaceAttachments,
            TurnStep::StartProgress,
            TurnStep::EmitProgress,
            TurnStep::StoreUserEntry,
            TurnStep::Execute,
        ]
    );
    let bare = TurnFacts {
        has_notifier: true,
        has_store: false,
        has_arc: false,
        arc_was_reused: true,
        has_attachment_store: false,
        has_chat_log: true,
    };
    assert_eq!(
        execute_owner_telegram_message(bare),
        vec![TurnStep::LogInbound, TurnStep::StartProgress, TurnStep::Execute]
    );
    assert_eq!(
        finish_owner_turn(all, true),
        vec![
            TurnStep::StoreReply,
            TurnStep::TouchArc,
            TurnStep::EmitArcUpdated,
            TurnStep::FinalizeProgress
        ]
    );
    assert_eq!(
        finish_owner_turn(all, false),
        vec![TurnStep::StoreReply, TurnStep::TouchArc, TurnStep::FinalizeProgress]
    );
}

#[test]
fn startup_reopens_the_first_active_arc() {
    let arcs = vec![
        arc("old", false, false, None, "x"),
        arc("live", true, false, None, "x"),
        arc("other", true, false, None, "x"),
    ];
    assert_eq!(arc_to_restore(&arcs), Some("live".to_string()));
    assert_eq!(arc_to_restore(&vec![]), None);
    let entries = vec![entry(true, "user", "q")];
    let (id, history, create) =
        restore_or_create_arc(Some("live".into()), Some(&entries), "new".into());
    assert_eq!((id.as_str(), history.len(), create), ("live", 1, false));
    let (id, history, create) = restore_or_create_arc(Some("live".into()), None, "new".into());
    assert_eq!((id.as_str(), history.len(), create), ("new", 0, true));
}

fn pending(question: &str, secs: i64) -> PendingDeepResearch {
    PendingDeepResearch {
        arc_id: "arc".into(),
        chat_id: 5,
        question: question.into(),
        created_at: at(secs),
    }
}

#[test]
fn research_requests_wait_an_hour_and_are_taken_once() {
    let mut reqs = PendingRequests::new();
    reqs.stash_pending_deep_research("a".into(), pending("qa", NOON), at(NOON));
    reqs.stash_pending_deep_research("b".into(), pending("qb", NOON + 10), at(NOON + 10));
    assert_eq!(reqs.entries.len(), 2);
    // An hour later the first one is dropped.
    reqs.stash_pending_deep_research("c".into(), pending("qc", NOON + 3600), at(NOON + 3600));
    assert!(reqs.take_pending_deep_research("a").is_none());
    assert_eq!(reqs.take_pending_deep_research("b").unwrap().question, "qb");
    assert!(reqs.take_pending_deep_research("b").is_none());
    // The same token replaces what it held.
    reqs.stash_pending_deep_research("c".into(), pending("qc2", NOON + 3601), at(NOON + 3601));
    assert_eq!(reqs.entries.len(), 1);
    assert_eq!(reqs.take_pending_deep_research("c").unwrap().question, "qc2");
}

#[test]
fn research_commands_are_answered() {
    assert!(matches!(
        handle_telegram_deepresearch_command("  ", true),
        ResearchStart::Tell(m) if m.starts_with("Usage: /deepresearch <topic>")
    ));
    assert!(matches!(
        handle_telegram_deepresearch_command("bees", false),
        ResearchStart::Tell(m) if m.contains("no conversation store")
    ));
    match handle_telegram_deepresearch_command(" bees ", true) {
        ResearchStart::Begin { arc_name, topic } => {
            assert_eq!(arc_name, "bees");
            assert_eq!(topic, "bees");
        }
        ResearchStart::Tell(_) => panic!("expected a start"),
    }
    match handle_telegram_deepresearch_command(&"t".repeat(41), true) {
        ResearchStart::Begin { arc_name, .. } => {
            assert_eq!(arc_name, format!("{}...", "t".repeat(37)));
        }
        ResearchStart::Tell(_) => panic!("expected a start"),
    }
    assert!(depth_prompt("bees").starts_with("🔎 Deep Research: \"bees\"\n\nChoose a depth:\n• ⚡ Quick"));
}

#[test]
fn depth_buttons_are_read_back() {
    let buttons = depth_buttons("tok");
    assert_eq!(buttons[0], ("⚡ Quick", "dr|tok|quick".to_string()));
    assert_eq!(buttons[1], ("📚 Standard", "dr|tok|standard".to_string()));
    assert_eq!(buttons[2], ("🔬 Deep", "dr|tok|deep".to_string()));
    for (_, data) in &buttons {
        let (token, _) = parse_button(data).unwrap();
        assert_eq!(token, "tok");
    }
    assert_eq!(parse_button("dr|a|b|c"), Some(("a".to_string(), "b|c".to_string())));
    assert_eq!(parse_button("dr|a"), None);
}

#[test]
fn tapped_depths_start_research() {
    let mut reqs = PendingRequests::new();
    reqs.stash_pending_deep_research("tok".into(), pending("bees", NOON), at(NOON));
    assert!(matches!(
        handle_telegram_deepresearch_callback(&mut reqs, "dr|tok"),
        DepthChosen::Ignored
    ));
    match handle_telegram_deepresearch_callback(&mut reqs, "dr|tok|deep") {
        DepthChosen::Begin { pending, depth, answer, note } => {
            assert_eq!(pending.question, "bees");
            assert_eq!(depth, "deep");
            assert_eq!(answer, "Starting…");
            assert_eq!(note, running_note("deep", "bees"));
            assert!(note.starts_with("🔬 Researching (deep): \"bees\""));
        }
        _ => panic!("expected a start"),
    }
    assert!(matches!(
        handle_telegram_deepresearch_callback(&mut reqs, "dr|tok|deep"),
        DepthChosen::Expired(m) if m.contains("expired")
    ));
}

#[test]
fn research_results_are_reported() {
    let r = DeepResearchResult {
        arc_id: "a".into(),
        question: "bees".into(),
        depth: "quick".into(),
        paper_path: "p.md".into(),
        workers_ok: 2,
        workers_total: 3,
        extended: false,
    };
    assert_eq!(
        paper_caption(&r),
        "✅ Research complete: \"bees\"\n2 of 3 researchers reported · depth: quick\n\nFull paper attached. Reply here to ask follow-up questions about it."
    );
    let e = DeepResearchResult { extended: true, ..r };
    assert_eq!(
        paper_fallback(&e),
        "✅ Research extended: \"bees\". The paper is saved at p.md — ask me about it here."
    );
    assert_eq!(research_failure(&ResearchEnd::Failed("x")), "⚠️ Research failed: x");
    assert_eq!(
        research_failure(&ResearchEnd::Crashed),
        "⚠️ Research crashed unexpectedly. Please try again."
    );
    assert!(needs_decision(false, true));
    assert!(!needs_decision(true, true));
    assert_eq!(
        research_unavailable(false, false).unwrap(),
        "Deep research unavailable: profile store not configured"
    );
    assert_eq!(
        research_unavailable(true, false).unwrap(),
        "Deep research unavailable: arc store not configured"
    );
    assert_eq!(research_unavailable(true, true), None);
    assert_eq!(worker_contribution(true, "x".into()), "x");
    assert_eq!(worker_contribution(false, "x".into()), "");
}
