//! Messages that the owner sends on Telegram: commands, the arc that a
//! message belongs to, and the reply.

use vstd::prelude::*;
use vstd::string::*;
use crate::json::{json_pretty, json_string, pretty, string_at};
use crate::models::Timestamp;
use crate::text::{
    CharClass, ascii_lowercase, begins_with, byte_len, bytes_len, cat2, cat3, cat5, chars_of,
    contains, contains_text, decimal, decimal_u64, ellipsize, ellipsized, eq_ignore_case,
    first_chars, first_from, first_index, fit_from, is_white_space, lemma_bytes_len_add,
    lemma_first_from, lemma_fit, lemma_skip_from, lemma_tail_before, lemma_trimmed, lower, lowered,
    owned, skip_from, starts_with, str_eq, string_of, strip_prefix, tail_before, take_chars, trim,
    trim_class, trim_spec, trim_start, trimmed, trimmed_start, white_space,
};
use crate::time::{instant_of, parse_rfc3339, rfc3339_instant, seconds_between, younger_than};

verus! {

// ---------------------------------------------------------------------------
// Commands
// ---------------------------------------------------------------------------

/// Whether a message asks for a fresh arc, and what is left of it. The
/// command has to lead the message and to end at a word boundary.
pub open spec fn newarc_of(text: Seq<char>) -> (bool, Seq<char>) {
    let t = trimmed_start(text, CharClass::WhiteSpace);
    let rest = t.subrange("/newarc"@.len() as int, t.len() as int);
    if begins_with(t, "/newarc"@) && (rest.len() == 0 || is_white_space(rest[0])) {
        (true, trimmed_start(rest, CharClass::WhiteSpace))
    } else {
        (false, text)
    }
}

/// Whether a message asks for a fresh arc, and what is left of it.
pub fn parse_newarc_command(text: &str) -> (r: (bool, String))
    ensures
        (r.0, r.1@) == newarc_of(text@),
{
    let t = trim_start(text);
    if let Some(rest) = strip_prefix(t.as_str(), "/newarc") {
        let v = chars_of(rest.as_str());
        if v.len() == 0 || white_space(v[0]) {
            return (true, trim_start(rest.as_str()));
        }
    }
    (false, owned(text))
}

/// A message without the command is left as it is.
pub proof fn plain_messages_are_kept(text: Seq<char>)
    requires
        !newarc_of(text).0,
    ensures
        newarc_of(text).1 == text,
{
}

/// The topic of a research command: the command leads the message, in any
/// case, perhaps with the bot's name behind an at sign.
pub open spec fn research_topic_of(text: Seq<char>) -> Option<Seq<char>> {
    let t = trimmed_start(text, CharClass::WhiteSpace);
    let space = first_from(t, CharClass::WhiteSpace, 0);
    let head = t.subrange(0, space);
    let rest = if space < t.len() {
        t.subrange(space + 1, t.len() as int)
    } else {
        Seq::empty()
    };
    let cmd = lowered(head.subrange(0, first_from(head, CharClass::Is('@'), 0)));
    if t.len() > 0 && t[0] == '/' && (cmd == "/deepresearch"@ || cmd == "/deep_research"@) {
        Some(trim_spec(rest))
    } else {
        None
    }
}

/// The topic of a research command, if the message is one; it may be empty.
pub fn parse_deepresearch_command(text: &str) -> (r: Option<String>)
    ensures
        r.deep_view() == research_topic_of(text@),
{
    let t = trim_start(text);
    let v = chars_of(t.as_str());
    if v.len() == 0 || v[0] != '/' {
        return None;
    }
    let space: usize = first_index(&v, CharClass::WhiteSpace, 0);
    let head = string_of(&v, 0, space);
    let rest = if space < v.len() {
        string_of(&v, space + 1, v.len())
    } else {
        String::new()
    };
    let h = chars_of(head.as_str());
    let at: usize = first_index(&h, CharClass::Is('@'), 0);
    let name = string_of(&h, 0, at);
    let cmd = ascii_lowercase(name.as_str());
    if str_eq(cmd.as_str(), "/deepresearch") || str_eq(cmd.as_str(), "/deep_research") {
        Some(trim(rest.as_str()))
    } else {
        None
    }
}

/// What the owner asks for.
pub enum OwnerCommand {
    /// Research on a topic, which may be empty.
    DeepResearch(String),
    /// A message, perhaps for a fresh arc.
    Message { force_new_arc: bool, text: String },
}

/// What the owner asks for. A research command never reaches the agent.
pub fn owner_command(text: &str) -> (r: OwnerCommand)
    ensures
        match r {
            OwnerCommand::DeepResearch(topic) => research_topic_of(text@) == Some(topic@),
            OwnerCommand::Message { force_new_arc, text: left } => research_topic_of(
                text@,
            ) is None && (force_new_arc, left@) == newarc_of(text@),
        },
{
    if let Some(topic) = parse_deepresearch_command(text) {
        return OwnerCommand::DeepResearch(topic);
    }
    let (force_new_arc, left) = parse_newarc_command(text);
    OwnerCommand::Message { force_new_arc, text: left }
}

/// The command that asks for a fresh arc and nothing else only needs an
/// acknowledgement.
pub fn is_bare_newarc(force_new_arc: bool, text: &str) -> (r: bool)
    ensures
        r == (force_new_arc && text@.len() == 0),
{
    force_new_arc && text.is_empty()
}

/// What follows an attempt to acknowledge the command.
#[derive(Clone, Copy, Debug, PartialEq, Eq, Structural)]
pub enum AckStep {
    Done,
    /// Try again after so many milliseconds.
    Retry(u64),
    GiveUp,
}

/// What follows an attempt to acknowledge the command: it is made twice at
/// most.
pub fn after_ack(attempt: u8, delivered: bool) -> (r: AckStep)
    ensures
        r == if delivered {
            AckStep::Done
        } else if attempt == 0 {
            AckStep::Retry(500)
        } else {
            AckStep::GiveUp
        },
{
    if delivered {
        AckStep::Done
    } else if attempt == 0 {
        AckStep::Retry(500)
    } else {
        AckStep::GiveUp
    }
}

// ---------------------------------------------------------------------------
// Incoming events
// ---------------------------------------------------------------------------

/// What becomes of an incoming Telegram message. Every message is triaged.
pub enum EventRoute {
    /// Triage decides.
    Triage,
    /// From the owner, and something to act on: once it is triaged, the agent
    /// acts on it too.
    TriageThenExecute { text: String, chat_id: i64 },
}

pub open spec fn non_empty_text(o: Option<Seq<char>>) -> Option<Seq<char>> {
    match o {
        Some(s) => if s.len() > 0 {
            Some(s)
        } else {
            None
        },
        None => None,
    }
}

/// The text of a message: its own, else its summary, else nothing.
pub open spec fn event_text(body: Option<Seq<char>>, summary: Option<Seq<char>>) -> Seq<char> {
    match non_empty_text(body) {
        Some(s) => s,
        None => match non_empty_text(summary) {
            Some(s) => s,
            None => Seq::empty(),
        },
    }
}

/// What becomes of an incoming Telegram message: it is triaged like any event.
/// The owner's messages are executed in addition, where they have a text or an
/// attachment, and come from a chat.
pub fn route_telegram_event(
    from_owner: bool,
    body_text: Option<&str>,
    summary: Option<&str>,
    chat_id: Option<i64>,
    attachments: usize,
) -> (r: EventRoute)
    ensures
        ({
            let text = event_text(body_text.deep_view(), summary.deep_view());
            let chat = match chat_id {
                Some(c) => c,
                None => 0,
            };
            if from_owner && (text.len() > 0 || attachments > 0) && chat != 0 {
                r matches EventRoute::TriageThenExecute { text: t, chat_id: c } && t@ == text && c
                    == chat
            } else {
                r is Triage
            }
        }),
{
    if !from_owner {
        return EventRoute::Triage;
    }
    let mut text = String::new();
    let mut found = false;
    if let Some(t) = body_text {
        if !t.is_empty() {
            text = owned(t);
            found = true;
        }
    }
    if !found {
        if let Some(t) = summary {
            if !t.is_empty() {
                text = owned(t);
            }
        }
    }
    let chat: i64 = match chat_id {
        Some(c) => c,
        None => 0,
    };
    if (!text.as_str().is_empty() || attachments > 0) && chat != 0 {
        EventRoute::TriageThenExecute { text, chat_id: chat }
    } else {
        EventRoute::Triage
    }
}

/// What becomes of a button that was tapped.
#[derive(Clone, Copy, Debug, PartialEq, Eq, Structural)]
pub enum CallbackRoute {
    /// A depth for a research request.
    DeepResearch,
    /// An answer to an approval.
    Approval,
    /// Nobody waits for it.
    Dropped,
}

/// What becomes of a button that was tapped.
pub fn route_callback(data: &str, has_approval_sink: bool) -> (r: CallbackRoute)
    ensures
        r == if begins_with(data@, "dr|"@) {
            CallbackRoute::DeepResearch
        } else if has_approval_sink {
            CallbackRoute::Approval
        } else {
            CallbackRoute::Dropped
        },
{
    if starts_with(data, "dr|") {
        CallbackRoute::DeepResearch
    } else if has_approval_sink {
        CallbackRoute::Approval
    } else {
        CallbackRoute::Dropped
    }
}

// ---------------------------------------------------------------------------
// The arc of a message
// ---------------------------------------------------------------------------

/// What is known of an arc.
#[derive(Clone, Debug, PartialEq, Eq)]
pub struct ArcMeta {
    pub id: String,
    pub name: String,
    pub active: bool,
    /// It began with a message.
    pub from_messaging: bool,
    pub primary_reply_channel: Option<String>,
    /// When it was last changed, in RFC 3339.
    pub updated_at: String,
}

/// Which arcs are looked for.
#[derive(Clone, Copy, Debug, PartialEq, Eq, Structural)]
pub enum ArcTest {
    /// The owner replies to it on Telegram, within five minutes.
    Thread,
    /// It began with a message, within five minutes.
    Messaging,
    /// Either of the two, within half an hour.
    Candidate,
}

/// An arc that was changed at `updated` is recent enough.
pub open spec fn within(updated: Option<Timestamp>, now: Timestamp, limit: u32) -> bool {
    match updated {
        Some(t) => seconds_between(now, t) < limit,
        None => false,
    }
}

/// The owner replies to the arc on Telegram.
pub open spec fn replies_on_telegram(a: ArcMeta) -> bool {
    a.primary_reply_channel matches Some(c) && c@ == "telegram"@
}

/// The arc passes the test, where it was last changed at `updated`.
pub open spec fn passes_at(test: ArcTest, a: ArcMeta, updated: Option<Timestamp>, now: Timestamp)
    -> bool {
    match test {
        ArcTest::Thread => a.active && replies_on_telegram(a) && within(updated, now, 300),
        ArcTest::Messaging => a.active && a.from_messaging && within(updated, now, 300),
        ArcTest::Candidate => a.active && (a.from_messaging || replies_on_telegram(a)) && within(
            updated,
            now,
            1800,
        ),
    }
}

/// The arc passes the test.
pub open spec fn passes(test: ArcTest, a: ArcMeta, now: Timestamp) -> bool {
    passes_at(test, a, instant_of(rfc3339_instant(a.updated_at@)), now)
}

/// Does the arc pass the test, where it was last changed at `updated`?
pub fn arc_passes_at(test: ArcTest, a: &ArcMeta, updated: Option<Timestamp>, now: Timestamp) -> (r:
    bool)
    ensures
        r == passes_at(test, *a, updated, now),
{
    if !a.active {
        return false;
    }
    let telegram = match &a.primary_reply_channel {
        Some(c) => str_eq(c.as_str(), "telegram"),
        None => false,
    };
    let (kind, limit): (bool, u32) = match test {
        ArcTest::Thread => (telegram, 300u32),
        ArcTest::Messaging => (a.from_messaging, 300u32),
        ArcTest::Candidate => (a.from_messaging || telegram, 1800u32),
    };
    if !kind {
        return false;
    }
    match updated {
        Some(t) => younger_than(now, t, limit),
        None => false,
    }
}

/// Does the arc pass the test?
pub fn arc_passes(test: ArcTest, a: &ArcMeta, now: Timestamp) -> (r: bool)
    ensures
        r == passes(test, *a, now),
{
    let updated = parse_rfc3339(a.updated_at.as_str());
    arc_passes_at(test, a, updated, now)
}

/// The first arc from `i` on that passes the test.
pub open spec fn first_passing(arcs: Seq<ArcMeta>, test: ArcTest, now: Timestamp, i: int) -> Option<
    Seq<char>,
>
    decreases arcs.len() - i,
{
    if i < 0 || i >= arcs.len() {
        None
    } else if passes(test, arcs[i], now) {
        Some(arcs[i].id@)
    } else {
        first_passing(arcs, test, now, i + 1)
    }
}

/// The first arc that passes the test.
pub fn first_arc(arcs: &Vec<ArcMeta>, test: ArcTest, now: Timestamp) -> (r: Option<String>)
    ensures
        r.deep_view() == first_passing(arcs@, test, now, 0),
{
    let mut i: usize = 0;
    while i < arcs.len()
        invariant
            i <= arcs@.len(),
            first_passing(arcs@, test, now, 0) == first_passing(arcs@, test, now, i as int),
        decreases arcs@.len() - i,
    {
        if arc_passes(test, &arcs[i], now) {
            return Some(arcs[i].id.clone());
        }
        i += 1;
    }
    None
}

/// The indices of the first `left` arcs from `i` on that are candidates.
pub open spec fn candidates_from(arcs: Seq<ArcMeta>, now: Timestamp, i: int, left: nat) -> Seq<int>
    decreases arcs.len() - i,
{
    if i < 0 || i >= arcs.len() || left == 0 {
        Seq::empty()
    } else if passes(ArcTest::Candidate, arcs[i], now) {
        seq![i] + candidates_from(arcs, now, i + 1, (left - 1) as nat)
    } else {
        candidates_from(arcs, now, i + 1, left)
    }
}

/// The arcs that a message may continue: the first six candidates.
pub fn arc_candidates(arcs: &Vec<ArcMeta>, now: Timestamp) -> (r: Vec<usize>)
    ensures
        r@.map_values(|i: usize| i as int) == candidates_from(arcs@, now, 0, 6),
        r@.len() <= 6,
        forall|j: int| 0 <= j < r@.len() ==> (#[trigger] r@[j]) < arcs@.len(),
{
    let mut out: Vec<usize> = Vec::new();
    let mut i: usize = 0;
    let ghost all = candidates_from(arcs@, now, 0, 6);
    proof {
        assert(out@.map_values(|i: usize| i as int) + all =~= all);
    }
    while i < arcs.len() && out.len() < 6
        invariant
            i <= arcs@.len(),
            out@.len() <= 6,
            all == candidates_from(arcs@, now, 0, 6),
            forall|j: int| 0 <= j < out@.len() ==> (#[trigger] out@[j]) < arcs@.len(),
            out@.map_values(|i: usize| i as int) + candidates_from(
                arcs@,
                now,
                i as int,
                (6 - out@.len()) as nat,
            ) == all,
        decreases arcs@.len() - i,
    {
        let ghost before = out@.map_values(|i: usize| i as int);
        let ghost rest = candidates_from(arcs@, now, i + 1, (6 - out@.len() - 1) as nat);
        if arc_passes(ArcTest::Candidate, &arcs[i], now) {
            out.push(i);
            proof {
                assert(out@.map_values(|i: usize| i as int) =~= before.push(i as int));
                assert(before.push(i as int) + rest =~= before + (seq![i as int] + rest));
            }
        }
        i += 1;
    }
    proof {
        assert(out@.map_values(|i: usize| i as int) + Seq::<int>::empty() =~= out@.map_values(
            |i: usize| i as int,
        ));
    }
    out
}

/// Why an arc was taken up again.
#[derive(Clone, Copy, Debug, PartialEq, Eq, Structural)]
pub enum MatchReason {
    NotificationHint,
    LlmPick,
    PrimaryReplyChannel,
    RecentMessaging,
}

/// The arc of a message.
pub enum ArcChoice {
    Reuse { arc_id: String, reason: MatchReason },
    /// A fresh arc of that name.
    Create { name: String },
}

/// The model of an arc choice.
pub enum ChoiceModel {
    Reuse(Seq<char>, MatchReason),
    Create(Seq<char>),
}

impl View for ArcChoice {
    type V = ChoiceModel;

    open spec fn view(&self) -> ChoiceModel {
        match self {
            ArcChoice::Reuse { arc_id, reason } => ChoiceModel::Reuse(arc_id@, *reason),
            ArcChoice::Create { name } => ChoiceModel::Create(name@),
        }
    }
}

/// The arc of the last outgoing notification, if that was sent within two
/// minutes.
pub fn fresh_hint(hint: &Option<(String, Timestamp)>, now: Timestamp) -> (r: Option<String>)
    ensures
        match hint {
            Some(h) => if seconds_between(now, h.1) < 120 {
                r == Some(h.0)
            } else {
                r is None
            },
            None => r is None,
        },
{
    match hint {
        Some(h) => if younger_than(now, h.1, 120) {
            Some(h.0.clone())
        } else {
            None
        },
        None => None,
    }
}

/// The name of a fresh arc: the message, shortened where it is long.
pub open spec fn fresh_arc_name(text: Seq<char>) -> Seq<char> {
    if bytes_len(text) > 30 {
        ellipsized(text, 27)
    } else if text.len() == 0 {
        "New Telegram arc"@
    } else {
        text
    }
}

/// The name of a fresh arc.
pub fn new_arc_name(text: &str) -> (r: String)
    ensures
        r@ == fresh_arc_name(text@),
{
    if byte_len(text) > 30 {
        ellipsize(text, 27)
    } else if text.is_empty() {
        owned("New Telegram arc")
    } else {
        owned(text)
    }
}

/// The arc of a message. A fresh one where the owner asks for it; else, in
/// this order, the arc of a recent notification, the one that the model
/// picks, the thread that the owner replies to, the last arc of a message,
/// and a fresh one where none of these is there.
pub open spec fn arc_for(
    force_new: bool,
    hint: Option<Seq<char>>,
    picked: Option<Seq<char>>,
    arcs: Seq<ArcMeta>,
    now: Timestamp,
    text: Seq<char>,
) -> ChoiceModel {
    if force_new {
        ChoiceModel::Create(fresh_arc_name(text))
    } else if hint is Some {
        ChoiceModel::Reuse(hint->0, MatchReason::NotificationHint)
    } else if picked is Some {
        ChoiceModel::Reuse(picked->0, MatchReason::LlmPick)
    } else {
        match first_passing(arcs, ArcTest::Thread, now, 0) {
            Some(id) => ChoiceModel::Reuse(id, MatchReason::PrimaryReplyChannel),
            None => match first_passing(arcs, ArcTest::Messaging, now, 0) {
                Some(id) => ChoiceModel::Reuse(id, MatchReason::RecentMessaging),
                None => ChoiceModel::Create(fresh_arc_name(text)),
            },
        }
    }
}

/// The arc of a message.
pub fn choose_arc(
    force_new: bool,
    hint: Option<String>,
    picked: Option<String>,
    arcs: &Vec<ArcMeta>,
    now: Timestamp,
    text: &str,
) -> (r: ArcChoice)
    ensures
        r@ == arc_for(force_new, hint.deep_view(), picked.deep_view(), arcs@, now, text@),
{
    if !force_new {
        if let Some(arc_id) = hint {
            return ArcChoice::Reuse { arc_id, reason: MatchReason::NotificationHint };
        }
        if let Some(arc_id) = picked {
            return ArcChoice::Reuse { arc_id, reason: MatchReason::LlmPick };
        }
        if let Some(arc_id) = first_arc(arcs, ArcTest::Thread, now) {
            return ArcChoice::Reuse { arc_id, reason: MatchReason::PrimaryReplyChannel };
        }
        if let Some(arc_id) = first_arc(arcs, ArcTest::Messaging, now) {
            return ArcChoice::Reuse { arc_id, reason: MatchReason::RecentMessaging };
        }
    }
    ArcChoice::Create { name: new_arc_name(text) }
}

/// The owner's wish for a fresh arc is always met.
pub proof fn newarc_always_creates(
    hint: Option<Seq<char>>,
    picked: Option<Seq<char>>,
    arcs: Seq<ArcMeta>,
    now: Timestamp,
    text: Seq<char>,
)
    ensures
        arc_for(true, hint, picked, arcs, now, text) is Create,
{
}

proof fn lemma_first_passing(arcs: Seq<ArcMeta>, test: ArcTest, now: Timestamp, i: int)
    requires
        0 <= i <= arcs.len(),
    ensures
        first_passing(arcs, test, now, i) matches Some(id) ==> exists|j: int|
            i <= j < arcs.len() && passes(test, #[trigger] arcs[j], now) && arcs[j].id@ == id,
    decreases arcs.len() - i,
{
    if i < arcs.len() {
        if passes(test, arcs[i], now) {
            assert(arcs[i].id@ == first_passing(arcs, test, now, i)->0);
        } else {
            lemma_first_passing(arcs, test, now, i + 1);
        }
    }
}

// ---------------------------------------------------------------------------
// The model's pick
// ---------------------------------------------------------------------------

/// A line of a chat's log.
#[derive(Clone, Debug)]
pub struct ChatLogRow {
    pub inbound: bool,
    pub ts: String,
    pub text: String,
}

/// The lines of a log, with a name for either side.
pub open spec fn log_lines(
    rows: Seq<ChatLogRow>,
    indent: Seq<char>,
    them: Seq<char>,
    us: Seq<char>,
) -> Seq<char>
    decreases rows.len(),
{
    if rows.len() == 0 {
        Seq::empty()
    } else {
        let r = rows.last();
        log_lines(rows.drop_last(), indent, them, us) + indent + "["@ + r.ts@ + "] "@
            + (if r.inbound {
            them
        } else {
            us
        }) + ": "@ + r.text@ + "\n"@
    }
}

fn push_log(out: &mut String, rows: &Vec<ChatLogRow>, indent: &str, them: &str, us: &str)
    ensures
        final(out)@ == old(out)@ + log_lines(rows@, indent@, them@, us@),
{
    let ghost start = out@;
    let mut i: usize = 0;
    proof {
        assert(rows@.take(0) =~= Seq::<ChatLogRow>::empty());
        assert(start + Seq::<char>::empty() =~= start);
    }
    while i < rows.len()
        invariant
            i <= rows@.len(),
            out@ == start + log_lines(rows@.take(i as int), indent@, them@, us@),
        decreases rows@.len() - i,
    {
        let ghost before = log_lines(rows@.take(i as int), indent@, them@, us@);
        out.append(indent);
        out.append("[");
        out.append(rows[i].ts.as_str());
        out.append("] ");
        if rows[i].inbound {
            out.append(them);
        } else {
            out.append(us);
        }
        out.append(": ");
        out.append(rows[i].text.as_str());
        out.append("\n");
        proof {
            let r = rows@[i as int];
            let who = if r.inbound { them@ } else { us@ };
            assert(rows@.take(i + 1).drop_last() =~= rows@.take(i as int));
            assert(rows@.take(i + 1).last() == r);
            assert(out@ =~= start + (before + indent@ + "["@ + r.ts@ + "] "@ + who + ": "@ + r.text@
                + "\n"@));
        }
        i += 1;
    }
    proof {
        assert(rows@.take(i as int) =~= rows@);
    }
}

/// A candidate, with the end of its last message.
#[derive(Clone, Debug)]
pub struct ArcSnippet {
    pub id: String,
    pub name: String,
    /// The last message, in full; absent where there is none.
    pub last_message: Option<String>,
}

/// The start of the last message.
pub open spec fn snippet_of(s: ArcSnippet) -> Seq<char> {
    match s.last_message {
        Some(m) => first_chars(m@, 200),
        None => Seq::empty(),
    }
}

/// The lines of the candidates.
pub open spec fn candidate_lines(v: Seq<ArcSnippet>) -> Seq<char>
    decreases v.len(),
{
    if v.len() == 0 {
        Seq::empty()
    } else {
        let s = v.last();
        candidate_lines(v.drop_last()) + "- id: \""@ + s.id@ + "\" | name: \""@ + s.name@
            + "\" | last: \""@ + snippet_of(s) + "\"\n"@
    }
}

/// What the model is asked.
pub open spec fn pick_prompt(text: Seq<char>, rows: Seq<ChatLogRow>, v: Seq<ArcSnippet>) -> Seq<
    char,
> {
    "You route incoming Telegram messages to the right ongoing conversation thread (arc).\n\nNew incoming message from the user:\n\""@
        + text + "\"\n"@ + (if rows.len() > 0 {
        "\nRecent exchange with this Telegram chat (newest last):\n"@ + log_lines(
            rows,
            "  "@,
            "them"@,
            "us"@,
        )
    } else {
        Seq::empty()
    }) + "\nCandidate arcs to consider:\n"@ + candidate_lines(v)
        + "\nDecide whether this new message continues one of the candidate arcs or starts something new. Use the recent exchange to judge continuity — if the user's last reply to us was \"yes\", \"ok\", \"do it\", or a one-word follow-up, they're almost certainly continuing whatever we last said. Otherwise lean on topic match.\n\nRespond with ONLY one of:\n- The arc id (just the id, exactly as shown above) if it continues one of them\n- The literal word NEW if it's a different topic\n\nNo explanation. No markdown."@
}

/// What the model is asked to pick the arc of a message; nothing where there
/// is no candidate.
pub fn arc_pick_prompt(text: &str, rows: &Vec<ChatLogRow>, candidates: &Vec<ArcSnippet>) -> (r:
    Option<String>)
    ensures
        r.deep_view() == if candidates@.len() == 0 {
            None
        } else {
            Some(pick_prompt(text@, rows@, candidates@))
        },
{
    if candidates.len() == 0 {
        return None;
    }
    let mut out = cat3(
        "You route incoming Telegram messages to the right ongoing conversation thread (arc).\n\nNew incoming message from the user:\n\"",
        text,
        "\"\n",
    );
    let mut history = String::new();
    if rows.len() > 0 {
        history.append("\nRecent exchange with this Telegram chat (newest last):\n");
        push_log(&mut history, rows, "  ", "them", "us");
        proof {
            assert(history@ =~= "\nRecent exchange with this Telegram chat (newest last):\n"@
                + log_lines(rows@, "  "@, "them"@, "us"@));
        }
    }
    out.append(history.as_str());
    out.append("\nCandidate arcs to consider:\n");
    let mut lines = String::new();
    let mut i: usize = 0;
    while i < candidates.len()
        invariant
            i <= candidates@.len(),
            lines@ == candidate_lines(candidates@.take(i as int)),
        decreases candidates@.len() - i,
    {
        let s = &candidates[i];
        let snippet = match &s.last_message {
            Some(m) => take_chars(m.as_str(), 200),
            None => String::new(),
        };
        lines.append("- id: \"");
        lines.append(s.id.as_str());
        lines.append("\" | name: \"");
        lines.append(s.name.as_str());
        lines.append("\" | last: \"");
        lines.append(snippet.as_str());
        lines.append("\"\n");
        proof {
            assert(candidates@.take(i + 1).drop_last() =~= candidates@.take(i as int));
            assert(candidates@.take(i + 1).last() == candidates@[i as int]);
        }
        i += 1;
    }
    proof {
        assert(candidates@.take(i as int) =~= candidates@);
    }
    out.append(lines.as_str());
    out.append(
        "\nDecide whether this new message continues one of the candidate arcs or starts something new. Use the recent exchange to judge continuity — if the user's last reply to us was \"yes\", \"ok\", \"do it\", or a one-word follow-up, they're almost certainly continuing whatever we last said. Otherwise lean on topic match.\n\nRespond with ONLY one of:\n- The arc id (just the id, exactly as shown above) if it continues one of them\n- The literal word NEW if it's a different topic\n\nNo explanation. No markdown.",
    );
    Some(out)
}

/// The answer of the model without what it wraps it in.
pub open spec fn bare_answer(answer: Seq<char>) -> Seq<char> {
    trimmed(trim_spec(answer), CharClass::QuoteOrSpace)
}

/// Some candidate has that id.
pub open spec fn offers(ids: Seq<String>, id: Seq<char>) -> bool {
    exists|i: int| 0 <= i < ids.len() && (#[trigger] ids[i])@ == id
}

/// The arc that the answer of the model picks.
pub open spec fn picked_arc(answer: Seq<char>, ids: Seq<String>) -> Option<Seq<char>> {
    let a = bare_answer(answer);
    if lowered(a) == lowered("new"@) || a.len() == 0 || !offers(ids, a) {
        None
    } else {
        Some(a)
    }
}

/// The arc that the answer of the model picks: only one that was offered.
pub fn pick_arc_with_llm(answer: Option<&str>, candidate_ids: &Vec<String>) -> (r: Option<String>)
    ensures
        r.deep_view() == match answer {
            Some(a) => picked_arc(a@, candidate_ids@),
            None => None,
        },
{
    let a = match answer {
        Some(a) => a,
        None => {
            return None;
        },
    };
    let outer = trim(a);
    let bare = trim_class(outer.as_str(), CharClass::QuoteOrSpace);
    if eq_ignore_case(bare.as_str(), "new") || bare.as_str().is_empty() {
        return None;
    }
    let mut i: usize = 0;
    while i < candidate_ids.len()
        invariant
            answer == Some(a),
            bare@ == bare_answer(a@),
            i <= candidate_ids@.len(),
            lowered(bare@) != lowered("new"@),
            bare@.len() > 0,
            forall|j: int| 0 <= j < i ==> (#[trigger] candidate_ids@[j])@ != bare@,
        decreases candidate_ids@.len() - i,
    {
        if str_eq(candidate_ids[i].as_str(), bare.as_str()) {
            proof {
                assert(offers(candidate_ids@, bare@));
            }
            return Some(bare);
        }
        i += 1;
    }
    None
}

/// The model cannot invent an arc: what it picks was offered.
pub proof fn picked_arcs_were_offered(answer: Seq<char>, ids: Seq<String>)
    ensures
        picked_arc(answer, ids) matches Some(id) ==> offers(ids, id),
{
}

// ---------------------------------------------------------------------------
// The conversation so far
// ---------------------------------------------------------------------------

/// Who says something in a conversation.
#[derive(Clone, Copy, Debug, PartialEq, Eq, Structural)]
pub enum Role {
    User,
    Assistant,
    System,
    Tool,
}

/// An entry of an arc.
#[derive(Clone, Debug)]
pub struct ArcEntry {
    /// It is a message, not the trace of a tool.
    pub is_message: bool,
    pub source: String,
    pub content: String,
}

/// A message of a conversation.
#[derive(Clone, Debug, PartialEq, Eq)]
pub struct ChatMessage {
    pub role: Role,
    pub content: String,
}

/// The role that a source stands for.
pub open spec fn role_of(source: Seq<char>) -> Option<Role> {
    if source == "user"@ {
        Some(Role::User)
    } else if source == "assistant"@ {
        Some(Role::Assistant)
    } else if source == "system"@ {
        Some(Role::System)
    } else {
        None
    }
}

/// The role that a source stands for when an arc is opened again: that of a
/// tool too, and the user's for anything else.
pub open spec fn restored_role(source: Seq<char>) -> Role {
    match role_of(source) {
        Some(r) => r,
        None => if source == "tool"@ {
            Role::Tool
        } else {
            Role::User
        },
    }
}

fn parse_role(source: &str) -> (r: Option<Role>)
    ensures
        r == role_of(source@),
{
    if str_eq(source, "user") {
        Some(Role::User)
    } else if str_eq(source, "assistant") {
        Some(Role::Assistant)
    } else if str_eq(source, "system") {
        Some(Role::System)
    } else {
        None
    }
}

pub open spec fn message_views(v: Seq<ChatMessage>) -> Seq<(Role, Seq<char>)> {
    v.map_values(|m: ChatMessage| (m.role, m.content@))
}

/// The messages among the entries whose source is known.
pub open spec fn conversation(entries: Seq<ArcEntry>) -> Seq<(Role, Seq<char>)>
    decreases entries.len(),
{
    if entries.len() == 0 {
        Seq::empty()
    } else {
        let before = conversation(entries.drop_last());
        let e = entries.last();
        match role_of(e.source@) {
            Some(role) => if e.is_message {
                before.push((role, e.content@))
            } else {
                before
            },
            None => before,
        }
    }
}

/// The messages among the entries, as an arc that is opened again shows them.
pub open spec fn restored(entries: Seq<ArcEntry>) -> Seq<(Role, Seq<char>)>
    decreases entries.len(),
{
    if entries.len() == 0 {
        Seq::empty()
    } else {
        let before = restored(entries.drop_last());
        let e = entries.last();
        if e.is_message {
            before.push((restored_role(e.source@), e.content@))
        } else {
            before
        }
    }
}

/// The conversation so far, for the agent.
pub fn conversation_context(entries: &Vec<ArcEntry>) -> (r: Vec<ChatMessage>)
    ensures
        message_views(r@) == conversation(entries@),
{
    let mut out: Vec<ChatMessage> = Vec::new();
    let mut i: usize = 0;
    proof {
        assert(message_views(out@) =~= conversation(entries@.take(0)));
    }
    while i < entries.len()
        invariant
            i <= entries@.len(),
            message_views(out@) == conversation(entries@.take(i as int)),
        decreases entries@.len() - i,
    {
        proof {
            assert(entries@.take(i + 1).drop_last() =~= entries@.take(i as int));
            assert(entries@.take(i + 1).last() == entries@[i as int]);
        }
        if entries[i].is_message {
            if let Some(role) = parse_role(entries[i].source.as_str()) {
                let ghost before = message_views(out@);
                let content = entries[i].content.clone();
                out.push(ChatMessage { role, content });
                proof {
                    assert(message_views(out@) =~= before.push((role, content@)));
                }
            }
        }
        i += 1;
    }
    proof {
        assert(entries@.take(i as int) =~= entries@);
    }
    out
}

/// The history of an arc that is opened again.
pub fn restored_history(entries: &Vec<ArcEntry>) -> (r: Vec<ChatMessage>)
    ensures
        message_views(r@) == restored(entries@),
{
    let mut out: Vec<ChatMessage> = Vec::new();
    let mut i: usize = 0;
    proof {
        assert(message_views(out@) =~= restored(entries@.take(0)));
    }
    while i < entries.len()
        invariant
            i <= entries@.len(),
            message_views(out@) == restored(entries@.take(i as int)),
        decreases entries@.len() - i,
    {
        proof {
            assert(entries@.take(i + 1).drop_last() =~= entries@.take(i as int));
            assert(entries@.take(i + 1).last() == entries@[i as int]);
        }
        if entries[i].is_message {
            let role = match parse_role(entries[i].source.as_str()) {
                Some(r) => r,
                None => if str_eq(entries[i].source.as_str(), "tool") {
                    Role::Tool
                } else {
                    Role::User
                },
            };
            let ghost before = message_views(out@);
            let content = entries[i].content.clone();
            out.push(ChatMessage { role, content });
            proof {
                assert(message_views(out@) =~= before.push((role, content@)));
            }
        }
        i += 1;
    }
    proof {
        assert(entries@.take(i as int) =~= entries@);
    }
    out
}

/// What the agent is told of the chat before this message.
pub open spec fn chat_context(rows: Seq<ChatLogRow>) -> Seq<char> {
    "<CONTEXT type=\"telegram-chat-history\">\nRecent messages with this Telegram chat (newest last). Use for conversational continuity — the user may be referring back to one of these.\n"@
        + log_lines(rows, ""@, "user"@, "assistant"@) + "</CONTEXT>"@
}

/// What the agent is told of the chat before this message: something only in
/// a fresh arc, which has no history of its own, and only where there is any.
pub fn chat_history_context(arc_was_reused: bool, rows: &Vec<ChatLogRow>) -> (r: Option<String>)
    ensures
        r.deep_view() == if arc_was_reused || rows@.len() == 0 {
            None
        } else {
            Some(chat_context(rows@))
        },
{
    if arc_was_reused || rows.len() == 0 {
        return None;
    }
    let mut out = owned(
        "<CONTEXT type=\"telegram-chat-history\">\nRecent messages with this Telegram chat (newest last). Use for conversational continuity — the user may be referring back to one of these.\n",
    );
    push_log(&mut out, rows, "", "user", "assistant");
    out.append("</CONTEXT>");
    Some(out)
}

/// What becomes of a goal that was blocked.
#[derive(Clone, Copy, Debug, PartialEq, Eq, Structural)]
pub enum GoalUpdate {
    Keep,
    Abandon,
    Reactivate,
}

/// Whether the message has to be judged against the arc's goal: the goal is
/// blocked, and both it and the reason are known.
pub fn goal_needs_triage(
    goal_status: &Option<String>,
    goal: &Option<String>,
    reason: &Option<String>,
) -> (r: bool)
    ensures
        r == ((goal_status matches Some(s) && s@ == "blocked"@) && goal is Some && reason is Some),
{
    let blocked = match goal_status {
        Some(s) => str_eq(s.as_str(), "blocked"),
        None => false,
    };
    blocked && goal.is_some() && reason.is_some()
}

/// What becomes of the goal once the message is judged, where it has to be.
pub fn goal_update(needs_triage: bool, abandons: bool) -> (r: GoalUpdate)
    ensures
        r == if !needs_triage {
            GoalUpdate::Keep
        } else if abandons {
            GoalUpdate::Abandon
        } else {
            GoalUpdate::Reactivate
        },
{
    if !needs_triage {
        GoalUpdate::Keep
    } else if abandons {
        GoalUpdate::Abandon
    } else {
        GoalUpdate::Reactivate
    }
}

// ---------------------------------------------------------------------------
// Finding the arc, step by step
// ---------------------------------------------------------------------------

/// The last message among the entries.
pub open spec fn last_said(entries: Seq<ArcEntry>) -> Option<Seq<char>>
    decreases entries.len(),
{
    if entries.len() == 0 {
        None
    } else if entries.last().is_message {
        Some(entries.last().content@)
    } else {
        last_said(entries.drop_last())
    }
}

/// The last message among the entries of an arc, if there is one.
pub fn last_message(entries: &Vec<ArcEntry>) -> (r: Option<String>)
    ensures
        r.deep_view() == last_said(entries@),
{
    let mut n: usize = entries.len();
    proof {
        assert(entries@.take(n as int) =~= entries@);
    }
    while n > 0
        invariant
            n <= entries@.len(),
            last_said(entries@) == last_said(entries@.take(n as int)),
        decreases n,
    {
        proof {
            assert(entries@.take(n as int).last() == entries@[n - 1]);
            assert(entries@.take(n as int).drop_last() =~= entries@.take(n - 1));
        }
        n -= 1;
        if entries[n].is_message {
            return Some(entries[n].content.clone());
        }
    }
    None
}

/// What is needed next to find the arc of a message.
pub enum RouteStep {
    /// Look up the arc of the last notification.
    CheckHint { arc_id: String },
    /// Read the list of arcs.
    ListArcs,
    /// Ask the model which of the candidates, given by their places in the
    /// list, the message continues.
    AskModel { candidates: Vec<usize> },
    /// The arc is found; there is none where no arcs are kept.
    Settled { choice: Option<ArcChoice> },
    /// The arcs cannot be read: the owner is told so, and nothing else is
    /// done.
    Refuse,
}

/// The model of a step.
pub enum RouteModel {
    CheckHint(Seq<char>),
    ListArcs,
    AskModel(Seq<int>),
    Settled(Option<ChoiceModel>),
    Refuse,
}

impl View for RouteStep {
    type V = RouteModel;

    open spec fn view(&self) -> RouteModel {
        match self {
            RouteStep::CheckHint { arc_id } => RouteModel::CheckHint(arc_id@),
            RouteStep::ListArcs => RouteModel::ListArcs,
            RouteStep::AskModel { candidates } => RouteModel::AskModel(
                candidates@.map_values(|i: usize| i as int),
            ),
            RouteStep::Settled { choice } => RouteModel::Settled(
                match choice {
                    Some(c) => Some(c@),
                    None => None,
                },
            ),
            RouteStep::Refuse => RouteModel::Refuse,
        }
    }
}

/// The arc of the last outgoing notification, where that is recent.
pub open spec fn hinted_arc(hint: Option<(String, Timestamp)>, now: Timestamp) -> Option<Seq<char>> {
    match hint {
        Some(h) => if seconds_between(now, h.1) < 120 {
            Some(h.0@)
        } else {
            None
        },
        None => None,
    }
}

/// The first step. Without a store of arcs there is nothing to find, and a
/// wish for a fresh arc makes the notification irrelevant.
pub fn begin_routing(
    force_new: bool,
    has_store: bool,
    hint: &Option<(String, Timestamp)>,
    now: Timestamp,
) -> (r: RouteStep)
    ensures
        r@ == if !has_store {
            RouteModel::Settled(None)
        } else if force_new {
            RouteModel::ListArcs
        } else {
            match hinted_arc(*hint, now) {
                Some(id) => RouteModel::CheckHint(id),
                None => RouteModel::ListArcs,
            }
        },
{
    if !has_store {
        return RouteStep::Settled { choice: None };
    }
    if !force_new {
        if let Some(arc_id) = fresh_hint(hint, now) {
            return RouteStep::CheckHint { arc_id };
        }
    }
    RouteStep::ListArcs
}

/// The step after the arc of the last notification was looked up. It is taken
/// where it is still there and active.
pub fn after_hint_check(arc_id: String, active: Option<bool>) -> (r: RouteStep)
    ensures
        r@ == if active == Some(true) {
            RouteModel::Settled(
                Some(ChoiceModel::Reuse(arc_id@, MatchReason::NotificationHint)),
            )
        } else {
            RouteModel::ListArcs
        },
{
    match active {
        Some(true) => RouteStep::Settled {
            choice: Some(ArcChoice::Reuse { arc_id, reason: MatchReason::NotificationHint }),
        },
        _ => RouteStep::ListArcs,
    }
}

/// The step after the arcs were listed. The model is only asked where the
/// message may continue something.
pub fn after_listing(
    force_new: bool,
    arcs: &Option<Vec<ArcMeta>>,
    now: Timestamp,
    text: &str,
) -> (r: RouteStep)
    ensures
        r@ == match arcs {
            None => RouteModel::Refuse,
            Some(v) => if !force_new && candidates_from(v@, now, 0, 6).len() > 0 {
                RouteModel::AskModel(candidates_from(v@, now, 0, 6))
            } else {
                RouteModel::Settled(Some(arc_for(force_new, None, None, v@, now, text@)))
            },
        },
{
    match arcs {
        None => RouteStep::Refuse,
        Some(v) => {
            if !force_new {
                let candidates = arc_candidates(v, now);
                proof {
                    assert(candidates@.map_values(|i: usize| i as int).len() == candidates@.len());
                }
                if candidates.len() > 0 {
                    return RouteStep::AskModel { candidates };
                }
            }
            RouteStep::Settled { choice: Some(choose_arc(force_new, None, None, v, now, text)) }
        },
    }
}

/// The ids of the arcs at those places.
pub open spec fn ids_at(arcs: Seq<ArcMeta>, places: Seq<int>) -> Seq<String> {
    places.map_values(|i: int| arcs[i].id)
}

/// The step after the model was asked: its pick is taken where it was offered,
/// otherwise the other signs decide.
pub fn after_answer(answer: Option<&str>, arcs: &Vec<ArcMeta>, now: Timestamp, text: &str) -> (r:
    RouteStep)
    ensures
        r@ == RouteModel::Settled(
            Some(
                arc_for(
                    false,
                    None,
                    match answer {
                        Some(a) => picked_arc(a@, ids_at(arcs@, candidates_from(arcs@, now, 0, 6))),
                        None => None,
                    },
                    arcs@,
                    now,
                    text@,
                ),
            ),
        ),
{
    let places = arc_candidates(arcs, now);
    let mut ids: Vec<String> = Vec::new();
    let mut i: usize = 0;
    while i < places.len()
        invariant
            i <= places@.len(),
            ids@.len() == i,
            forall|j: int| 0 <= j < places@.len() ==> (#[trigger] places@[j]) < arcs@.len(),
            forall|j: int| 0 <= j < i ==> (#[trigger] ids@[j]) == arcs@[places@[j] as int].id,
        decreases places@.len() - i,
    {
        let id = arcs[places[i]].id.clone();
        ids.push(id);
        i += 1;
    }
    proof {
        let all = candidates_from(arcs@, now, 0, 6);
        assert(ids@ =~= ids_at(arcs@, all)) by {
            assert(all.len() == places@.len());
            assert forall|j: int| 0 <= j < ids@.len() implies ids@[j] == ids_at(arcs@, all)[j] by {
                assert(all[j] == places@[j] as int);
            }
        }
    }
    let picked = pick_arc_with_llm(answer, &ids);
    RouteStep::Settled { choice: Some(choose_arc(false, None, picked, arcs, now, text)) }
}

proof fn lemma_candidates(arcs: Seq<ArcMeta>, now: Timestamp, i: int, left: nat)
    requires
        0 <= i <= arcs.len(),
    ensures
        forall|k: int|
            0 <= k < candidates_from(arcs, now, i, left).len() ==> {
                let j = #[trigger] candidates_from(arcs, now, i, left)[k];
                0 <= j < arcs.len() && passes(ArcTest::Candidate, arcs[j], now)
            },
    decreases arcs.len() - i,
{
    if i < arcs.len() && left > 0 {
        if passes(ArcTest::Candidate, arcs[i], now) {
            lemma_candidates(arcs, now, i + 1, (left - 1) as nat);
            let rest = candidates_from(arcs, now, i + 1, (left - 1) as nat);
            let all = candidates_from(arcs, now, i, left);
            assert(all == seq![i] + rest);
            assert forall|k: int| 0 <= k < all.len() implies {
                let j = #[trigger] all[k];
                0 <= j < arcs.len() && passes(ArcTest::Candidate, arcs[j], now)
            } by {
                if k > 0 {
                    assert(all[k] == rest[k - 1]);
                }
            }
        } else {
            lemma_candidates(arcs, now, i + 1, left);
            assert(candidates_from(arcs, now, i, left) == candidates_from(arcs, now, i + 1, left));
        }
    }
}

/// Some active arc of the list has that id.
pub open spec fn is_active_arc(arcs: Seq<ArcMeta>, id: Seq<char>) -> bool {
    exists|j: int| 0 <= j < arcs.len() && (#[trigger] arcs[j]).active && arcs[j].id@ == id
}

/// A message never goes to an arc that is no longer active: whatever the model
/// answers, an arc that is taken up from the list is an active one.
pub proof fn reused_arcs_are_active(
    answer: Seq<char>,
    arcs: Seq<ArcMeta>,
    now: Timestamp,
    text: Seq<char>,
)
    ensures
        ({
            let picked = picked_arc(answer, ids_at(arcs, candidates_from(arcs, now, 0, 6)));
            arc_for(false, None, picked, arcs, now, text) matches ChoiceModel::Reuse(id, _)
                ==> is_active_arc(arcs, id)
        }),
        arc_for(false, None, None, arcs, now, text) matches ChoiceModel::Reuse(id, _)
            ==> is_active_arc(arcs, id),
{
    lemma_first_passing(arcs, ArcTest::Thread, now, 0);
    lemma_first_passing(arcs, ArcTest::Messaging, now, 0);
    let all = candidates_from(arcs, now, 0, 6);
    lemma_candidates(arcs, now, 0, 6);
    let picked = picked_arc(answer, ids_at(arcs, all));
    if picked is Some {
        let id = picked->0;
        let k = choose|k: int| 0 <= k < ids_at(arcs, all).len() && (#[trigger] ids_at(arcs, all)[k])@ == id;
        assert(passes(ArcTest::Candidate, arcs[all[k]], now));
        assert(arcs[all[k]].active && arcs[all[k]].id@ == id);
    }
    match first_passing(arcs, ArcTest::Thread, now, 0) {
        Some(id) => {
            let j = choose|j: int|
                0 <= j < arcs.len() && passes(ArcTest::Thread, #[trigger] arcs[j], now)
                    && arcs[j].id@ == id;
            assert(arcs[j].active);
        },
        None => {
            if let Some(id) = first_passing(arcs, ArcTest::Messaging, now, 0) {
                let j = choose|j: int|
                    0 <= j < arcs.len() && passes(ArcTest::Messaging, #[trigger] arcs[j], now)
                        && arcs[j].id@ == id;
                assert(arcs[j].active);
            }
        },
    }
}

// ---------------------------------------------------------------------------
// The reply
// ---------------------------------------------------------------------------

/// What the owner is told where the agent failed.
pub fn failure_message(raw: &str, simplified: &str) -> (r: String)
    ensures
        r@ == if contains_text(raw@, "Timeout"@) {
            "Sorry, the task took too long and timed out. Try a simpler request or break it into smaller steps."@
        } else {
            "Sorry, the task failed: "@ + simplified@
        },
{
    if contains(raw, "Timeout") {
        owned(
            "Sorry, the task took too long and timed out. Try a simpler request or break it into smaller steps.",
        )
    } else {
        cat2("Sorry, the task failed: ", simplified)
    }
}

/// The reply of the agent, from the parts of its output.
pub open spec fn reply_from(
    success: bool,
    steps: nat,
    reason: Option<Seq<char>>,
    response: Option<Seq<char>>,
    whole: Option<Seq<char>>,
) -> Seq<char> {
    if !success {
        if reason == Some("cancelled"@) {
            "Task cancelled."@
        } else {
            "Ran out of steps ("@ + decimal(steps) + " used) before finishing."@
        }
    } else {
        match non_empty_text(response) {
            Some(s) => s,
            None => match whole {
                Some(w) => w,
                None => "Task completed."@,
            },
        }
    }
}

/// The reply of the agent, from the parts of its output.
pub fn reply_content_from(
    success: bool,
    steps: u32,
    reason: Option<String>,
    response: Option<String>,
    whole: Option<String>,
) -> (r: String)
    ensures
        r@ == reply_from(
            success,
            steps as nat,
            reason.deep_view(),
            response.deep_view(),
            whole.deep_view(),
        ),
{
    if !success {
        let cancelled = match &reason {
            Some(s) => str_eq(s.as_str(), "cancelled"),
            None => false,
        };
        if cancelled {
            return owned("Task cancelled.");
        }
        let n = decimal_u64(steps as u64);
        return cat3("Ran out of steps (", n.as_str(), " used) before finishing.");
    }
    if let Some(s) = response {
        if !s.as_str().is_empty() {
            return s;
        }
    }
    match whole {
        Some(w) => w,
        None => owned("Task completed."),
    }
}

/// The reply of the agent, from its output in JSON.
pub open spec fn reply_of(success: bool, steps: nat, output: Option<Seq<char>>) -> Seq<char> {
    match output {
        Some(o) => reply_from(
            success,
            steps,
            json_string(o, "reason"@),
            json_string(o, "response"@),
            Some(json_pretty(o)),
        ),
        None => reply_from(success, steps, None, None, None),
    }
}

/// The reply of the agent, from its output in JSON.
pub fn reply_content(success: bool, steps: u32, output: &Option<String>) -> (r: String)
    ensures
        r@ == reply_of(success, steps as nat, output.deep_view()),
{
    match output {
        Some(o) => reply_content_from(
            success,
            steps,
            string_at(o.as_str(), "reason"),
            string_at(o.as_str(), "response"),
            Some(pretty(o.as_str())),
        ),
        None => reply_content_from(success, steps, None, None, None),
    }
}

/// How an arc was found, in words.
pub open spec fn reason_label(reason: MatchReason) -> Seq<char> {
    match reason {
        MatchReason::NotificationHint => "matched recent notification"@,
        MatchReason::PrimaryReplyChannel => "ongoing Telegram thread"@,
        MatchReason::RecentMessaging => "recent message fallback"@,
        MatchReason::LlmPick => "reused"@,
    }
}

/// The note on which arc a message went to.
pub fn arc_footer(name: &str, reason: MatchReason) -> (r: String)
    ensures
        r@ == "📍 Arc: \""@ + name@ + "\" ("@ + reason_label(reason)
            + "). Send /newarc to start fresh."@,
{
    let label = match reason {
        MatchReason::NotificationHint => "matched recent notification",
        MatchReason::PrimaryReplyChannel => "ongoing Telegram thread",
        MatchReason::RecentMessaging => "recent message fallback",
        MatchReason::LlmPick => "reused",
    };
    cat5("📍 Arc: \"", name, "\" (", label, "). Send /newarc to start fresh.")
}

/// The note on the arc: only where one was taken up, and its name is known.
pub open spec fn arc_note_of(reason: Option<MatchReason>, name: Option<Seq<char>>) -> Option<Seq<char>> {
    match (reason, name) {
        (Some(r), Some(n)) => Some(
            "📍 Arc: \""@ + n + "\" ("@ + reason_label(r) + "). Send /newarc to start fresh."@,
        ),
        _ => None,
    }
}

/// The note on the arc of a message. A fresh arc needs none.
pub fn arc_note(reason: Option<MatchReason>, name: &Option<String>) -> (r: Option<String>)
    ensures
        r.deep_view() == arc_note_of(reason, name.deep_view()),
{
    if let Some(why) = reason {
        if let Some(n) = name {
            return Some(arc_footer(n.as_str(), why));
        }
    }
    None
}

/// The message that goes out: the reply, then the tools where any ran, then
/// the note on the arc where one was taken up.
pub open spec fn outbound_text(content: Seq<char>, tools: Seq<char>, arc: Option<Seq<char>>) -> Seq<
    char,
> {
    content + (if tools.len() > 0 {
        "\n\n"@ + tools
    } else {
        Seq::empty()
    }) + (match arc {
        Some(a) => "\n\n"@ + a,
        None => Seq::empty(),
    })
}

/// The message that goes out.
pub fn outbound_message(content: &str, tools: &str, arc: &Option<String>) -> (r: String)
    ensures
        r@ == outbound_text(content@, tools@, arc.deep_view()),
{
    let mut out = owned(content);
    if !tools.is_empty() {
        out.append("\n\n");
        out.append(tools);
        proof {
            assert(out@ =~= content@ + ("\n\n"@ + tools@));
        }
    } else {
        proof {
            assert(out@ =~= content@ + Seq::<char>::empty());
        }
    }
    let ghost so_far = out@;
    if let Some(a) = arc {
        out.append("\n\n");
        out.append(a.as_str());
        proof {
            assert(out@ =~= so_far + ("\n\n"@ + a@));
        }
    } else {
        proof {
            assert(out@ =~= so_far + Seq::<char>::empty());
        }
    }
    out
}

/// What the owner is told where their arcs cannot be read.
pub fn routing_failure_notice() -> (r: &'static str)
    ensures
        r@
            == "⚠️ Sorry, I couldn't process that just now (internal error reading your conversations). Please try again."@,
{
    "⚠️ Sorry, I couldn't process that just now (internal error reading your conversations). Please try again."
}

/// What the owner is told of a fresh arc without a message.
pub fn newarc_ack() -> (r: &'static str)
    ensures
        r@ == "📍 New arc started. Send your message."@,
{
    "📍 New arc started. Send your message."
}

// ---------------------------------------------------------------------------
// The arc to begin with
// ---------------------------------------------------------------------------

/// The arc to open again at startup: the first active one, if the list could
/// be read.
pub open spec fn first_active(arcs: Seq<ArcMeta>, i: int) -> Option<Seq<char>>
    decreases arcs.len() - i,
{
    if i < 0 || i >= arcs.len() {
        None
    } else if arcs[i].active {
        Some(arcs[i].id@)
    } else {
        first_active(arcs, i + 1)
    }
}

/// The arc to open again at startup, if there is one.
pub fn arc_to_restore(arcs: &Vec<ArcMeta>) -> (r: Option<String>)
    ensures
        r.deep_view() == first_active(arcs@, 0),
{
    let mut i: usize = 0;
    while i < arcs.len()
        invariant
            i <= arcs@.len(),
            first_active(arcs@, 0) == first_active(arcs@, i as int),
        decreases arcs@.len() - i,
    {
        if arcs[i].active {
            return Some(arcs[i].id.clone());
        }
        i += 1;
    }
    None
}

/// The arc to begin with, and its history: the one that was restored with its
/// entries, else a fresh one with none. The third part says that the arc has
/// to be created.
pub fn restore_or_create_arc(
    restored_id: Option<String>,
    entries: Option<&Vec<ArcEntry>>,
    fresh_id: String,
) -> (r: (String, Vec<ChatMessage>, bool))
    ensures
        match (restored_id, entries) {
            (Some(id), Some(e)) => r.0 == id && message_views(r.1@) == restored(e@) && !r.2,
            _ => r.0 == fresh_id && r.1@.len() == 0 && r.2,
        },
{
    if let Some(id) = restored_id {
        if let Some(e) = entries {
            return (id, restored_history(e), false);
        }
    }
    (fresh_id, Vec::new(), true)
}

// ---------------------------------------------------------------------------
// The turn
// ---------------------------------------------------------------------------

/// What a turn has at hand.
#[derive(Clone, Copy, Debug, PartialEq, Eq, Structural)]
pub struct TurnFacts {
    pub has_notifier: bool,
    /// There is a store of arcs.
    pub has_store: bool,
    /// The message has an arc.
    pub has_arc: bool,
    pub arc_was_reused: bool,
    pub has_attachment_store: bool,
    pub has_chat_log: bool,
}

/// A step of a turn.
#[derive(Clone, Copy, Debug, PartialEq, Eq, Structural)]
pub enum TurnStep {
    /// The arc's notifications count as read.
    MarkArcRead,
    /// Follow-up questions go to Telegram.
    SetReplyChannel,
    TriageGoal,
    LoadHistory,
    StoreAttachments,
    /// The chat before this message is told to the agent.
    InjectChatHistory,
    /// This message is added to the chat's log.
    LogInbound,
    SurfaceAttachments,
    StartProgress,
    EmitProgress,
    StoreUserEntry,
    Execute,
    StoreReply,
    TouchArc,
    EmitArcUpdated,
    FinalizeProgress,
}

pub open spec fn step_if(b: bool, s: TurnStep) -> Seq<TurnStep> {
    if b {
        seq![s]
    } else {
        Seq::empty()
    }
}

/// The steps up to the agent's run.
pub open spec fn steps_before(f: TurnFacts) -> Seq<TurnStep> {
    let stored = f.has_store && f.has_arc;
    step_if(f.has_notifier && f.has_arc, TurnStep::MarkArcRead) + step_if(
        stored,
        TurnStep::SetReplyChannel,
    ) + step_if(stored, TurnStep::TriageGoal) + step_if(stored, TurnStep::LoadHistory) + step_if(
        f.has_attachment_store,
        TurnStep::StoreAttachments,
    ) + step_if(!f.arc_was_reused && f.has_chat_log, TurnStep::InjectChatHistory) + step_if(
        f.has_chat_log,
        TurnStep::LogInbound,
    ) + step_if(f.has_attachment_store, TurnStep::SurfaceAttachments) + step_if(
        true,
        TurnStep::StartProgress,
    ) + step_if(f.has_arc, TurnStep::EmitProgress) + step_if(stored, TurnStep::StoreUserEntry)
        + step_if(true, TurnStep::Execute)
}

/// The steps after the agent's run. Where it failed, the reply is the error,
/// and listeners are not told.
pub open spec fn steps_after(f: TurnFacts, ran: bool) -> Seq<TurnStep> {
    let stored = f.has_store && f.has_arc;
    step_if(stored, TurnStep::StoreReply) + step_if(stored, TurnStep::TouchArc) + step_if(
        f.has_arc && ran,
        TurnStep::EmitArcUpdated,
    ) + step_if(true, TurnStep::FinalizeProgress)
}

fn add_step(v: &mut Vec<TurnStep>, b: bool, s: TurnStep)
    ensures
        final(v)@ == old(v)@ + step_if(b, s),
{
    if b {
        v.push(s);
    }
    proof {
        assert(v@ =~= old(v)@ + step_if(b, s));
    }
}

/// The steps of a turn up to the agent's run, in order.
pub fn execute_owner_telegram_message(f: TurnFacts) -> (r: Vec<TurnStep>)
    ensures
        r@ == steps_before(f),
{
    let stored = f.has_store && f.has_arc;
    let mut v: Vec<TurnStep> = Vec::new();
    add_step(&mut v, f.has_notifier && f.has_arc, TurnStep::MarkArcRead);
    proof {
        assert(v@ =~= step_if(f.has_notifier && f.has_arc, TurnStep::MarkArcRead));
    }
    add_step(&mut v, stored, TurnStep::SetReplyChannel);
    add_step(&mut v, stored, TurnStep::TriageGoal);
    add_step(&mut v, stored, TurnStep::LoadHistory);
    add_step(&mut v, f.has_attachment_store, TurnStep::StoreAttachments);
    add_step(&mut v, !f.arc_was_reused && f.has_chat_log, TurnStep::InjectChatHistory);
    add_step(&mut v, f.has_chat_log, TurnStep::LogInbound);
    add_step(&mut v, f.has_attachment_store, TurnStep::SurfaceAttachments);
    add_step(&mut v, true, TurnStep::StartProgress);
    add_step(&mut v, f.has_arc, TurnStep::EmitProgress);
    add_step(&mut v, stored, TurnStep::StoreUserEntry);
    add_step(&mut v, true, TurnStep::Execute);
    v
}

/// The steps of a turn after the agent's run, in order.
pub fn finish_owner_turn(f: TurnFacts, ran: bool) -> (r: Vec<TurnStep>)
    ensures
        r@ == steps_after(f, ran),
{
    let stored = f.has_store && f.has_arc;
    let mut v: Vec<TurnStep> = Vec::new();
    add_step(&mut v, stored, TurnStep::StoreReply);
    proof {
        assert(v@ =~= step_if(stored, TurnStep::StoreReply));
    }
    add_step(&mut v, stored, TurnStep::TouchArc);
    add_step(&mut v, f.has_arc && ran, TurnStep::EmitArcUpdated);
    add_step(&mut v, true, TurnStep::FinalizeProgress);
    v
}

/// What listeners are told when a turn begins.
#[derive(Clone, Debug, PartialEq, Eq)]
pub struct TurnProgress {
    pub step: u32,
    pub tool_name: String,
    pub status: String,
    /// The start of the message.
    pub detail: String,
    pub arc_id: String,
}

/// What listeners are told when a turn begins in an arc.
pub fn turn_started(arc_id: &str, text: &str) -> (r: TurnProgress)
    ensures
        r.step == 0,
        r.tool_name@ == "Processing Telegram message..."@,
        r.status@ == "InProgress"@,
        r.detail@ == first_chars(text@, 200),
        r.arc_id@ == arc_id@,
{
    TurnProgress {
        step: 0,
        tool_name: owned("Processing Telegram message..."),
        status: owned("InProgress"),
        detail: take_chars(text, 200),
        arc_id: owned(arc_id),
    }
}

/// Why the list of running agents shows this one as failed, where the run came
/// to an end without success.
pub fn run_failure(success: bool) -> (r: Option<&'static str>)
    ensures
        r.deep_view() == if success {
            None
        } else {
            Some("agent stopped before finishing"@)
        },
{
    if success {
        None
    } else {
        Some("agent stopped before finishing")
    }
}

/// The owner's message is stored right before the agent runs, so that its
/// entry precedes those of the tools.
pub proof fn message_is_stored_before_the_run(f: TurnFacts)
    requires
        f.has_store,
        f.has_arc,
    ensures
        ({
            let v = steps_before(f);
            v.len() >= 2 && v[v.len() - 2] == TurnStep::StoreUserEntry && v.last()
                == TurnStep::Execute
        }),
{
}

/// The chat's history is read before this message is added to it.
pub proof fn history_is_read_before_logging(f: TurnFacts)
    requires
        f.has_chat_log,
        !f.arc_was_reused,
    ensures
        exists|i: int|
            #![trigger steps_before(f)[i]]
            0 <= i && i + 1 < steps_before(f).len() && steps_before(f)[i]
                == TurnStep::InjectChatHistory && steps_before(f)[i + 1] == TurnStep::LogInbound,
{
    let stored = f.has_store && f.has_arc;
    let front = step_if(f.has_notifier && f.has_arc, TurnStep::MarkArcRead) + step_if(
        stored,
        TurnStep::SetReplyChannel,
    ) + step_if(stored, TurnStep::TriageGoal) + step_if(stored, TurnStep::LoadHistory) + step_if(
        f.has_attachment_store,
        TurnStep::StoreAttachments,
    );
    let i = front.len() as int;
    assert(steps_before(f)[i] == TurnStep::InjectChatHistory);
    assert(steps_before(f)[i + 1] == TurnStep::LogInbound);
}

// ---------------------------------------------------------------------------
// What routing promises
// ---------------------------------------------------------------------------

/// An arc counts as the owner's thread, or as a recent arc of a message, only
/// while it is active and was changed less than five minutes ago; as a
/// candidate, less than half an hour ago. A thread is replied to on Telegram, a
/// recent arc began with a message, and a candidate is one or the other.
pub proof fn tests_look_at_state_kind_and_age(test: ArcTest, a: ArcMeta, now: Timestamp)
    ensures
        passes(test, a, now) ==> a.active,
        passes(test, a, now) ==> (instant_of(rfc3339_instant(a.updated_at@)) matches Some(t)
            && seconds_between(now, t) < 1800 && (test != ArcTest::Candidate ==> seconds_between(
            now,
            t,
        ) < 300)),
        ({
            let telegram = a.primary_reply_channel.deep_view() == Some("telegram"@);
            let age = instant_of(rfc3339_instant(a.updated_at@));
            &&& passes(ArcTest::Thread, a, now) ==> telegram
            &&& passes(ArcTest::Messaging, a, now) ==> a.from_messaging
            &&& passes(ArcTest::Candidate, a, now) ==> telegram || a.from_messaging
            &&& a.active && age is Some && seconds_between(now, age->0) < 300 ==> {
                &&& telegram ==> passes(ArcTest::Thread, a, now)
                &&& a.from_messaging ==> passes(ArcTest::Messaging, a, now)
            }
            &&& a.active && age is Some && seconds_between(now, age->0) < 1800 && (telegram
                || a.from_messaging) ==> passes(ArcTest::Candidate, a, now)
        }),
{
}

/// The arc at `j` comes first: it passes, and no arc listed before it does.
pub open spec fn comes_first(arcs: Seq<ArcMeta>, test: ArcTest, now: Timestamp, j: int) -> bool {
    &&& 0 <= j < arcs.len()
    &&& passes(test, arcs[j], now)
    &&& forall|k: int| 0 <= k < j ==> !passes(test, #[trigger] arcs[k], now)
}

proof fn lemma_first_listed(arcs: Seq<ArcMeta>, test: ArcTest, now: Timestamp, i: int)
    requires
        0 <= i <= arcs.len(),
        forall|k: int| 0 <= k < i ==> !passes(test, #[trigger] arcs[k], now),
    ensures
        match first_passing(arcs, test, now, i) {
            Some(id) => exists|j: int| #[trigger]
                comes_first(arcs, test, now, j) && arcs[j].id@ == id,
            None => forall|k: int| 0 <= k < arcs.len() ==> !passes(test, #[trigger] arcs[k], now),
        },
    decreases arcs.len() - i,
{
    if i < arcs.len() {
        if passes(test, arcs[i], now) {
            assert(comes_first(arcs, test, now, i));
        } else {
            lemma_first_listed(arcs, test, now, i + 1);
        }
    }
}

/// Of the arcs that pass a test, the first in the list is taken, and one is
/// taken wherever any passes.
pub proof fn the_first_listed_arc_is_taken(arcs: Seq<ArcMeta>, test: ArcTest, now: Timestamp)
    ensures
        match first_passing(arcs, test, now, 0) {
            Some(id) => exists|j: int| #[trigger]
                comes_first(arcs, test, now, j) && arcs[j].id@ == id,
            None => forall|k: int| 0 <= k < arcs.len() ==> !passes(test, #[trigger] arcs[k], now),
        },
{
    lemma_first_listed(arcs, test, now, 0);
}

/// Without a wish for a fresh arc, a notification's arc is taken before all
/// else, then the model's pick. Without either, the first ongoing thread of the
/// list is taken; only where there is none, the first recent arc of a message;
/// and a fresh arc is made only where no arc of the list is either.
pub proof fn signs_are_followed_in_order(
    hint: Seq<char>,
    picked: Seq<char>,
    other: Option<Seq<char>>,
    arcs: Seq<ArcMeta>,
    now: Timestamp,
    text: Seq<char>,
)
    ensures
        arc_for(false, Some(hint), other, arcs, now, text) == ChoiceModel::Reuse(
            hint,
            MatchReason::NotificationHint,
        ),
        arc_for(false, None, Some(picked), arcs, now, text) == ChoiceModel::Reuse(
            picked,
            MatchReason::LlmPick,
        ),
        match arc_for(false, None, None, arcs, now, text) {
            ChoiceModel::Reuse(id, reason) => {
                &&& reason == MatchReason::PrimaryReplyChannel || reason
                    == MatchReason::RecentMessaging
                &&& reason == MatchReason::PrimaryReplyChannel ==> exists|j: int| #[trigger]
                    comes_first(arcs, ArcTest::Thread, now, j) && arcs[j].id@ == id
                &&& reason == MatchReason::RecentMessaging ==> (forall|k: int|
                    0 <= k < arcs.len() ==> !passes(ArcTest::Thread, #[trigger] arcs[k], now)) && (
                exists|j: int| #[trigger]
                    comes_first(arcs, ArcTest::Messaging, now, j) && arcs[j].id@ == id)
            },
            ChoiceModel::Create(_) => forall|k: int|
                0 <= k < arcs.len() ==> !passes(ArcTest::Thread, #[trigger] arcs[k], now)
                    && !passes(ArcTest::Messaging, arcs[k], now),
        },
{
    lemma_first_listed(arcs, ArcTest::Thread, now, 0);
    lemma_first_listed(arcs, ArcTest::Messaging, now, 0);
}

/// The name of a fresh arc says what the message is about: it is the message
/// itself where that takes at most thirty bytes; a longer one is cut, never
/// beyond thirty bytes, and begins as the message does; only an empty message
/// gets a name of its own.
pub proof fn fresh_arcs_are_named_after_the_message(text: Seq<char>)
    ensures
        0 < text.len() && bytes_len(text) <= 30 ==> fresh_arc_name(text) == text,
        text.len() == 0 ==> fresh_arc_name(text) == "New Telegram arc"@,
        bytes_len(text) > 30 ==> bytes_len(fresh_arc_name(text)) <= 30 && (exists|n: int|
            0 <= n <= text.len() && fresh_arc_name(text) == #[trigger] text.take(n) + "..."@ && (
            n == text.len() || bytes_len(text.take(n + 1)) > 27)),
{
    reveal_strlit("...");
    reveal_with_fuel(bytes_len, 5);
    if text.len() == 0 {
        assert(bytes_len(text) == 0);
    }
    if bytes_len(text) > 30 {
        let n = fit_from(text, 0, 27);
        lemma_fit(text, 0, 27);
        assert(text.subrange(0, n) =~= text.take(n));
        if n < text.len() {
            assert(text.subrange(0, n + 1) =~= text.take(n + 1));
        }
        lemma_bytes_len_add(text.take(n), "..."@);
        assert("..."@ =~= seq!['.', '.', '.']);
        assert(bytes_len("..."@) == 3) by {
            let d = "..."@;
            assert(d.drop_last() =~= seq!['.', '.']);
            assert(d.drop_last().drop_last() =~= seq!['.']);
            assert(d.drop_last().drop_last().drop_last() =~= Seq::<char>::empty());
        }
        assert(fresh_arc_name(text) == text.take(n) + "..."@);
    }
}

proof fn lemma_candidate_places(arcs: Seq<ArcMeta>, now: Timestamp, i: int, left: nat)
    requires
        0 <= i <= arcs.len(),
    ensures
        ({
            let c = candidates_from(arcs, now, i, left);
            &&& c.len() <= left
            &&& forall|k: int| 0 <= k < c.len() ==> i <= #[trigger] c[k] < arcs.len()
            &&& forall|k: int, m: int| 0 <= k < m < c.len() ==> #[trigger] c[k] < #[trigger] c[m]
            &&& forall|j: int|
                i <= j < arcs.len() && passes(ArcTest::Candidate, #[trigger] arcs[j], now)
                    ==> c.contains(j) || (c.len() == left && (forall|k: int|
                    0 <= k < c.len() ==> #[trigger] c[k] < j))
        }),
    decreases arcs.len() - i,
{
    if i < arcs.len() && left > 0 {
        let c = candidates_from(arcs, now, i, left);
        if passes(ArcTest::Candidate, arcs[i], now) {
            let rest = candidates_from(arcs, now, i + 1, (left - 1) as nat);
            lemma_candidate_places(arcs, now, i + 1, (left - 1) as nat);
            assert(c == seq![i] + rest);
            assert(c[0] == i);
            assert forall|k: int| 0 <= k < c.len() implies i <= #[trigger] c[k] < arcs.len() by {
                if k > 0 {
                    assert(c[k] == rest[k - 1]);
                }
            }
            assert forall|k: int, m: int| 0 <= k < m < c.len() implies #[trigger] c[k]
                < #[trigger] c[m] by {
                assert(c[m] == rest[m - 1]);
                if k > 0 {
                    assert(c[k] == rest[k - 1]);
                }
            }
            assert forall|j: int|
                i <= j < arcs.len() && passes(ArcTest::Candidate, #[trigger] arcs[j], now) implies
                c.contains(j) || (c.len() == left && (forall|k: int|
                    0 <= k < c.len() ==> #[trigger] c[k] < j)) by {
                if j > i {
                    if rest.contains(j) {
                        let k = choose|k: int| 0 <= k < rest.len() && rest[k] == j;
                        assert(c[k + 1] == j);
                    } else {
                        assert forall|k: int| 0 <= k < c.len() implies #[trigger] c[k] < j by {
                            if k > 0 {
                                assert(c[k] == rest[k - 1]);
                            }
                        }
                    }
                }
            }
        } else {
            lemma_candidate_places(arcs, now, i + 1, left);
        }
    }
}

/// The model is offered the first six candidates of the list, in the list's
/// order: none twice, and none is passed over for a later one.
pub proof fn the_first_six_candidates_are_offered(arcs: Seq<ArcMeta>, now: Timestamp)
    ensures
        ({
            let c = candidates_from(arcs, now, 0, 6);
            &&& c.len() <= 6
            &&& forall|k: int|
                0 <= k < c.len() ==> 0 <= #[trigger] c[k] < arcs.len() && passes(
                    ArcTest::Candidate,
                    arcs[c[k]],
                    now,
                )
            &&& forall|k: int, m: int| 0 <= k < m < c.len() ==> #[trigger] c[k] < #[trigger] c[m]
            &&& forall|j: int|
                0 <= j < arcs.len() && passes(ArcTest::Candidate, #[trigger] arcs[j], now)
                    ==> c.contains(j) || (c.len() == 6 && (forall|k: int|
                    0 <= k < c.len() ==> #[trigger] c[k] < j))
        }),
{
    lemma_candidates(arcs, now, 0, 6);
    lemma_candidate_places(arcs, now, 0, 6);
}

/// An answer that is the id of an offered arc picks that arc, also where it
/// comes wrapped in quotes, backticks or white space; the word for a fresh
/// arc, in any case, and an answer that is nothing but wrapping pick none.
pub proof fn answers_pick_what_they_name(
    before: Seq<char>,
    id: Seq<char>,
    after: Seq<char>,
    ids: Seq<String>,
)
    requires
        forall|i: int| 0 <= i < before.len() ==> CharClass::QuoteOrSpace.has(#[trigger] before[i]),
        forall|i: int| 0 <= i < after.len() ==> CharClass::QuoteOrSpace.has(#[trigger] after[i]),
        id.len() > 0 ==> !CharClass::QuoteOrSpace.has(id[0]) && !CharClass::QuoteOrSpace.has(
            id.last(),
        ),
    ensures
        id.len() > 0 && lowered(id) != "new"@ && offers(ids, id) ==> picked_arc(
            before + id + after,
            ids,
        ) == Some(id),
        id.len() == 0 || lowered(id) == "new"@ || !offers(ids, id) ==> picked_arc(
            before + id + after,
            ids,
        ) is None,
{
    let s = before + id + after;
    let t = trim_spec(s);
    let k = CharClass::QuoteOrSpace;
    let w = CharClass::WhiteSpace;
    lemma_skip_from(s, w, 0);
    lemma_tail_before(s, w, s.len() as int);
    let a = skip_from(s, w, 0);
    let b = tail_before(s, w, s.len() as int);
    if id.len() > 0 {
        let n = before.len() as int;
        let m = n + id.len();
        assert(s[n] == id[0] && s[m - 1] == id.last());
        assert(a <= n) by {
            if a > n {
                assert(w.has(s[n]));
            }
        }
        assert(b >= m) by {
            if b < m {
                assert(w.has(s[m - 1]));
            }
        }
        assert(t == s.subrange(a, b));
        lemma_skip_from(t, k, 0);
        lemma_tail_before(t, k, t.len() as int);
        let c = skip_from(t, k, 0);
        let d = tail_before(t, k, t.len() as int);
        assert(t[n - a] == id[0] && t[m - a - 1] == id.last());
        assert(c == n - a) by {
            if c > n - a {
                assert(k.has(t[n - a]));
            } else if c < n - a {
                assert(t[c] == before[a + c]);
                assert(!k.has(t[c]));
            }
        }
        assert(d == m - a) by {
            if d < m - a {
                assert(k.has(t[m - a - 1]));
            } else if d > m - a {
                assert(t[d - 1] == after[a + d - 1 - m]);
                assert(!k.has(t[d - 1]));
            }
        }
        assert(bare_answer(s) =~= id);
    } else {
        lemma_trimmed(t, k);
        assert forall|i: int| 0 <= i < t.len() implies k.has(#[trigger] t[i]) by {
            let x = a + i;
            if x < before.len() {
                assert(t[i] == before[x]);
            } else {
                assert(t[i] == after[x - before.len()]);
            }
        }
        assert(bare_answer(s).len() == 0);
    }
    reveal_strlit("new");
    assert(lowered("new"@) =~= "new"@);
}

/// A message asks for a fresh arc exactly where the command leads it, after
/// white space at most, and ends there or is followed by white space. What is
/// left is what follows, without the white space before it.
pub proof fn newarc_leads_the_message(lead: Seq<char>, rest: Seq<char>)
    requires
        forall|i: int| 0 <= i < lead.len() ==> is_white_space(#[trigger] lead[i]),
    ensures
        newarc_of(lead + "/newarc"@ + rest).0 == (rest.len() == 0 || is_white_space(rest[0])),
        newarc_of(lead + "/newarc"@ + rest).0 ==> newarc_of(lead + "/newarc"@ + rest).1
            == trimmed_start(rest, CharClass::WhiteSpace),
{
    let text = lead + "/newarc"@ + rest;
    let w = CharClass::WhiteSpace;
    reveal_strlit("/newarc");
    lemma_skip_from(text, w, 0);
    let a = skip_from(text, w, 0);
    assert(text[lead.len() as int] == '/');
    assert(a == lead.len()) by {
        if a < lead.len() {
            assert(text[a] == lead[a]);
        } else if a > lead.len() {
            assert(w.has(text[lead.len() as int]));
        }
    }
    let t = trimmed_start(text, w);
    assert(t =~= "/newarc"@ + rest);
    assert(t.subrange(0, 7) =~= "/newarc"@);
    assert(t.subrange(7, t.len() as int) =~= rest);
}

/// Where the command does not lead, the message asks for no fresh arc.
pub proof fn newarc_needs_the_command(text: Seq<char>)
    requires
        newarc_of(text).0,
    ensures
        exists|n: int|
            0 <= n && n + 7 <= text.len() && #[trigger] text.subrange(n, n + 7) == "/newarc"@ && (
            forall|i: int| 0 <= i < n ==> is_white_space(#[trigger] text[i])),
{
    let w = CharClass::WhiteSpace;
    reveal_strlit("/newarc");
    lemma_skip_from(text, w, 0);
    let n = skip_from(text, w, 0);
    let t = trimmed_start(text, w);
    assert(t.subrange(0, 7) == "/newarc"@);
    assert(text.subrange(n, n + 7) =~= t.subrange(0, 7));
}

/// Research on a topic is asked for by the command, in any case, with or
/// without the bot's name, at the head of the message. The topic is all that
/// follows the first word, trimmed.
pub proof fn research_commands_name_their_topic(
    lead: Seq<char>,
    command: Seq<char>,
    bot: Seq<char>,
    gap: char,
    topic: Seq<char>,
)
    requires
        forall|i: int| 0 <= i < lead.len() ==> is_white_space(#[trigger] lead[i]),
        lowered(command) == "/deepresearch"@ || lowered(command) == "/deep_research"@,
        bot.len() > 0 ==> bot[0] == '@',
        forall|i: int| 0 <= i < bot.len() ==> !is_white_space(#[trigger] bot[i]),
        is_white_space(gap),
    ensures
        research_topic_of(lead + command + bot + seq![gap] + topic) == Some(trim_spec(topic)),
{
    let text = lead + command + bot + seq![gap] + topic;
    let w = CharClass::WhiteSpace;
    reveal_strlit("/deepresearch");
    reveal_strlit("/deep_research");
    assert(command.len() == lowered(command).len());
    assert forall|i: int| 0 <= i < command.len() implies !is_white_space(#[trigger] command[i])
        && command[i] != '@' && (i == 0 ==> command[i] == '/') by {
        assert(lowered(command)[i] == lower(command[i]));
    }
    lemma_skip_from(text, w, 0);
    let a = skip_from(text, w, 0);
    let n = lead.len() as int;
    assert(text[n] == command[0]);
    assert(a == n) by {
        if a < n {
            assert(text[a] == lead[a]);
        } else if a > n {
            assert(w.has(text[n]));
        }
    }
    let t = trimmed_start(text, w);
    assert(t =~= command + bot + seq![gap] + topic);
    lemma_first_from(t, w, 0);
    let space = first_from(t, w, 0);
    let m = (command.len() + bot.len()) as int;
    assert(t[m] == gap);
    assert(space == m) by {
        if space < m {
            if space < command.len() {
                assert(t[space] == command[space]);
            } else {
                assert(t[space] == bot[space - command.len()]);
            }
        } else if space > m {
            assert(!w.has(t[m]));
        }
    }
    let head = t.subrange(0, space);
    assert(head =~= command + bot);
    let at = CharClass::Is('@');
    lemma_first_from(head, at, 0);
    let e = first_from(head, at, 0);
    assert(e == command.len()) by {
        if e < command.len() {
            assert(head[e] == command[e]);
        } else if e > command.len() {
            assert(head[command.len() as int] == bot[0]);
            assert(!at.has(head[command.len() as int]));
        }
    }
    assert(head.subrange(0, e) =~= command);
    assert(t.subrange(space + 1, t.len() as int) =~= topic);
}

/// Entries are read one by one, in order: what an arc says is what its first
/// entries say, followed by what the others say.
pub proof fn conversations_are_read_in_order(a: Seq<ArcEntry>, b: Seq<ArcEntry>)
    ensures
        conversation(a + b) == conversation(a) + conversation(b),
        restored(a + b) == restored(a) + restored(b),
    decreases b.len(),
{
    if b.len() == 0 {
        assert(a + b =~= a);
        assert(conversation(a) + conversation(b) =~= conversation(a));
        assert(restored(a) + restored(b) =~= restored(a));
    } else {
        conversations_are_read_in_order(a, b.drop_last());
        assert((a + b).drop_last() =~= a + b.drop_last());
        assert((a + b).last() == b.last());
        assert(conversation(a + b) =~= conversation(a) + conversation(b));
        assert(restored(a + b) =~= restored(a) + restored(b));
    }
}

/// One entry says something only where it is a message, and then says its own
/// content. The agent is told what the user, the assistant and the system said;
/// the user sees tools too, and anything else as their own.
pub proof fn entries_say_their_content(e: ArcEntry)
    ensures
        !e.is_message ==> conversation(seq![e]).len() == 0 && restored(seq![e]).len() == 0,
        e.is_message ==> restored(seq![e]).len() == 1 && restored(seq![e])[0].1 == e.content@,
        conversation(seq![e]).len() > 0 ==> conversation(seq![e]) == restored(seq![e]),
        e.is_message ==> {
            let s = e.source@;
            let role = restored(seq![e])[0].0;
            &&& role == Role::Assistant <==> s == "assistant"@
            &&& role == Role::System <==> s == "system"@
            &&& role == Role::Tool <==> s == "tool"@
            &&& conversation(seq![e]).len() > 0 <==> s == "user"@ || s == "assistant"@ || s
                == "system"@
        },
{
    reveal_strlit("user");
    reveal_strlit("assistant");
    reveal_strlit("system");
    reveal_strlit("tool");
    let s = e.source@;
    assert("user"@.len() == 4 && "assistant"@.len() == 9 && "system"@.len() == 6 && "tool"@.len()
        == 4);
    assert("user"@[0] == 'u' && "tool"@[0] == 't');
    assert(seq![e].drop_last() =~= Seq::<ArcEntry>::empty());
    assert(seq![e].last() == e);
    reveal_with_fuel(conversation, 2);
    reveal_with_fuel(restored, 2);
    if conversation(seq![e]).len() > 0 {
        assert(conversation(seq![e]) =~= restored(seq![e]));
    }
}

/// The last message of an arc is shown: the entries after it are no messages.
pub proof fn the_last_message_is_the_last(entries: Seq<ArcEntry>)
    ensures
        match last_said(entries) {
            Some(c) => exists|j: int|
                0 <= j < entries.len() && (#[trigger] entries[j]).is_message && entries[j].content@
                    == c && (forall|k: int|
                    j < k < entries.len() ==> !(#[trigger] entries[k]).is_message),
            None => forall|k: int| 0 <= k < entries.len() ==> !(#[trigger] entries[k]).is_message,
        },
    decreases entries.len(),
{
    if entries.len() > 0 {
        let n = entries.len() - 1;
        if entries.last().is_message {
            assert(entries[n].is_message && entries[n].content@ == last_said(entries)->0);
        } else {
            let front = entries.drop_last();
            the_last_message_is_the_last(front);
            assert forall|k: int| 0 <= k < front.len() implies front[k] == #[trigger] entries[k] by {}
            if let Some(c) = last_said(front) {
                let j = choose|j: int|
                    0 <= j < front.len() && (#[trigger] front[j]).is_message && front[j].content@
                        == c && (forall|k: int|
                        j < k < front.len() ==> !(#[trigger] front[k]).is_message);
                assert(entries[j].is_message && entries[j].content@ == c);
                assert forall|k: int| j < k < entries.len() implies !(
                #[trigger] entries[k]).is_message by {
                    if k < n {
                        assert(front[k] == entries[k]);
                    }
                }
            } else {
                assert forall|k: int| 0 <= k < entries.len() implies !(
                #[trigger] entries[k]).is_message by {
                    if k < n {
                        assert(front[k] == entries[k]);
                    }
                }
            }
        }
    }
}

/// The arc that is opened again at startup is the first active one listed.
pub proof fn the_first_active_arc_is_restored(arcs: Seq<ArcMeta>)
    ensures
        match first_active(arcs, 0) {
            Some(id) => exists|j: int|
                0 <= j < arcs.len() && (#[trigger] arcs[j]).active && arcs[j].id@ == id && (
                forall|k: int| 0 <= k < j ==> !(#[trigger] arcs[k]).active),
            None => forall|k: int| 0 <= k < arcs.len() ==> !(#[trigger] arcs[k]).active,
        },
{
    lemma_first_active(arcs, 0);
}

proof fn lemma_first_active(arcs: Seq<ArcMeta>, i: int)
    requires
        0 <= i <= arcs.len(),
        forall|k: int| 0 <= k < i ==> !(#[trigger] arcs[k]).active,
    ensures
        match first_active(arcs, i) {
            Some(id) => exists|j: int|
                0 <= j < arcs.len() && (#[trigger] arcs[j]).active && arcs[j].id@ == id && (
                forall|k: int| 0 <= k < j ==> !(#[trigger] arcs[k]).active),
            None => forall|k: int| 0 <= k < arcs.len() ==> !(#[trigger] arcs[k]).active,
        },
    decreases arcs.len() - i,
{
    if i < arcs.len() {
        if arcs[i].active {
            assert(arcs[i].id@ == first_active(arcs, i)->0);
        } else {
            lemma_first_active(arcs, i + 1);
        }
    }
}

/// A notification's arc is looked up only within two minutes of it.
pub proof fn hints_expire(id: String, sent: Timestamp, now: Timestamp)
    ensures
        seconds_between(now, sent) < 120 ==> hinted_arc(Some((id, sent)), now) == Some(id@),
        seconds_between(now, sent) >= 120 ==> hinted_arc(Some((id, sent)), now) is None,
        hinted_arc(None, now) is None,
{
}

/// A message is read for its own text before its summary.
pub proof fn own_text_comes_first(body: Seq<char>, summary: Seq<char>)
    ensures
        body.len() > 0 ==> event_text(Some(body), Some(summary)) == body && event_text(
            Some(body),
            None,
        ) == body,
        event_text(None, Some(summary)) == summary,
        event_text(Some(Seq::empty()), Some(summary)) == summary,
        event_text(None, None).len() == 0,
{
    if summary.len() == 0 {
        assert(summary =~= Seq::<char>::empty());
    }
}

/// A run that succeeded is answered with the agent's own words wherever it has
/// any, else with its whole output, else with a plain note. One that did not
/// never passes for a success: it is said to be cancelled or to have run out
/// of steps.
pub proof fn replies_tell_how_the_run_ended(
    steps: nat,
    reason: Option<Seq<char>>,
    response: Seq<char>,
    whole: Seq<char>,
    any: Option<Seq<char>>,
)
    ensures
        response.len() > 0 ==> reply_from(true, steps, reason, Some(response), any) == response,
        reply_from(true, steps, reason, None, Some(whole)) == whole,
        reply_from(true, steps, reason, Some(Seq::empty()), Some(whole)) == whole,
        reply_from(true, steps, reason, None, None) == "Task completed."@,
        reply_from(false, steps, Some("cancelled"@), any, any) == "Task cancelled."@,
        reason != Some("cancelled"@) ==> reply_from(false, steps, reason, any, any)
            == "Ran out of steps ("@ + decimal(steps) + " used) before finishing."@,
{
}

/// The message that goes out begins with the reply, whole. The tools follow
/// where there are any, and then the note on the arc where there is one, each
/// after a blank line.
pub proof fn outgoing_messages_begin_with_the_reply(
    content: Seq<char>,
    tools: Seq<char>,
    note: Seq<char>,
)
    ensures
        outbound_text(content, Seq::empty(), None) == content,
        tools.len() > 0 ==> outbound_text(content, tools, None) == content + "\n\n"@ + tools,
        outbound_text(content, tools, Some(note)) == outbound_text(content, tools, None) + "\n\n"@
            + note,
{
    assert(outbound_text(content, Seq::empty(), None) =~= content);
    if tools.len() > 0 {
        assert(outbound_text(content, tools, None) =~= content + "\n\n"@ + tools);
    }
    assert(outbound_text(content, tools, Some(note)) =~= outbound_text(content, tools, None)
        + "\n\n"@ + note);
}

/// Only an arc that was taken up again is noted, under its own name, and each
/// way of finding it reads differently.
pub proof fn notes_name_the_arc(reason: MatchReason, other: MatchReason, name: Seq<char>)
    ensures
        arc_note_of(None, Some(name)) is None,
        arc_note_of(Some(reason), None) is None,
        arc_note_of(Some(reason), Some(name)) matches Some(note) && begins_with(
            note,
            "📍 Arc: \""@ + name + "\" ("@ + reason_label(reason),
        ),
        reason_label(reason) == reason_label(other) ==> reason == other,
{
    let head = "📍 Arc: \""@ + name + "\" ("@ + reason_label(reason);
    let note = head + "). Send /newarc to start fresh."@;
    assert(note.subrange(0, head.len() as int) =~= head);
    reveal_strlit("matched recent notification");
    reveal_strlit("ongoing Telegram thread");
    reveal_strlit("recent message fallback");
    reveal_strlit("reused");
    assert("matched recent notification"@.len() == 27);
    assert("ongoing Telegram thread"@.len() == 23 && "ongoing Telegram thread"@[0] == 'o');
    assert("recent message fallback"@.len() == 23 && "recent message fallback"@[0] == 'r');
    assert("reused"@.len() == 6);
}

/// A log is told row by row, in order, each row with its time, its side and its
/// text.
pub proof fn logs_are_told_in_order(
    a: Seq<ChatLogRow>,
    b: Seq<ChatLogRow>,
    row: ChatLogRow,
    indent: Seq<char>,
    them: Seq<char>,
    us: Seq<char>,
)
    ensures
        log_lines(a + b, indent, them, us) == log_lines(a, indent, them, us) + log_lines(
            b,
            indent,
            them,
            us,
        ),
        row.inbound ==> log_lines(seq![row], indent, them, us) == indent + "["@ + row.ts@ + "] "@
            + them + ": "@ + row.text@ + "\n"@,
        !row.inbound ==> log_lines(seq![row], indent, them, us) == indent + "["@ + row.ts@ + "] "@
            + us + ": "@ + row.text@ + "\n"@,
{
    lemma_log_lines_join(a, b, indent, them, us);
    assert(seq![row].drop_last() =~= Seq::<ChatLogRow>::empty());
    assert(seq![row].last() == row);
    assert(log_lines(Seq::<ChatLogRow>::empty(), indent, them, us) =~= Seq::<char>::empty());
    let who = if row.inbound {
        them
    } else {
        us
    };
    let line = indent + "["@ + row.ts@ + "] "@ + who + ": "@ + row.text@ + "\n"@;
    assert(log_lines(seq![row], indent, them, us) =~= line);
}

spec fn log_line(row: ChatLogRow, indent: Seq<char>, them: Seq<char>, us: Seq<char>) -> Seq<char> {
    indent + "["@ + row.ts@ + "] "@ + (if row.inbound {
        them
    } else {
        us
    }) + ": "@ + row.text@ + "\n"@
}

proof fn lemma_log_step(rows: Seq<ChatLogRow>, indent: Seq<char>, them: Seq<char>, us: Seq<char>)
    requires
        rows.len() > 0,
    ensures
        log_lines(rows, indent, them, us) == log_lines(rows.drop_last(), indent, them, us)
            + log_line(rows.last(), indent, them, us),
{
    assert(log_lines(rows, indent, them, us) =~= log_lines(rows.drop_last(), indent, them, us)
        + log_line(rows.last(), indent, them, us));
}

proof fn lemma_log_lines_join(
    a: Seq<ChatLogRow>,
    b: Seq<ChatLogRow>,
    indent: Seq<char>,
    them: Seq<char>,
    us: Seq<char>,
)
    ensures
        log_lines(a + b, indent, them, us) == log_lines(a, indent, them, us) + log_lines(
            b,
            indent,
            them,
            us,
        ),
    decreases b.len(),
{
    if b.len() == 0 {
        assert(a + b =~= a);
        assert(log_lines(a, indent, them, us) + log_lines(b, indent, them, us) =~= log_lines(
            a,
            indent,
            them,
            us,
        ));
    } else {
        lemma_log_lines_join(a, b.drop_last(), indent, them, us);
        lemma_log_step(b, indent, them, us);
        lemma_log_step(a + b, indent, them, us);
        assert((a + b).drop_last() =~= a + b.drop_last());
        assert((a + b).last() == b.last());
        let x = log_lines(a, indent, them, us);
        let y = log_lines(b.drop_last(), indent, them, us);
        let z = log_line(b.last(), indent, them, us);
        assert((x + y) + z =~= x + (y + z));
    }
}

/// The candidates are listed in order, each with its id, its name and the start
/// of its last message.
pub proof fn candidates_are_listed_in_order(a: Seq<ArcSnippet>, b: Seq<ArcSnippet>, s: ArcSnippet)
    ensures
        candidate_lines(a + b) == candidate_lines(a) + candidate_lines(b),
        s.last_message matches Some(m) ==> candidate_lines(seq![s]) == "- id: \""@ + s.id@
            + "\" | name: \""@ + s.name@ + "\" | last: \""@ + first_chars(m@, 200) + "\"\n"@,
        s.last_message is None ==> candidate_lines(seq![s]) == "- id: \""@ + s.id@
            + "\" | name: \""@ + s.name@ + "\" | last: \"\"\n"@,
    decreases b.len(),
{
    if b.len() == 0 {
        assert(a + b =~= a);
        assert(candidate_lines(a) + candidate_lines(b) =~= candidate_lines(a));
    } else {
        candidates_are_listed_in_order(a, b.drop_last(), s);
        assert((a + b).drop_last() =~= a + b.drop_last());
        assert((a + b).last() == b.last());
        assert(candidate_lines(a + b) =~= candidate_lines(a) + candidate_lines(b));
    }
    assert(seq![s].drop_last() =~= Seq::<ArcSnippet>::empty());
    assert(seq![s].last() == s);
    reveal_with_fuel(candidate_lines, 2);
    let head = "- id: \""@ + s.id@ + "\" | name: \""@ + s.name@;
    match s.last_message {
        Some(m) => {
            assert(candidate_lines(seq![s]) =~= head + "\" | last: \""@ + first_chars(m@, 200)
                + "\"\n"@);
        },
        None => {
            reveal_strlit("\" | last: \"");
            reveal_strlit("\"\n");
            reveal_strlit("\" | last: \"\"\n");
            assert("\" | last: \""@ + "\"\n"@ =~= "\" | last: \"\"\n"@);
            assert(candidate_lines(seq![s]) =~= head + "\" | last: \"\"\n"@);
        },
    }
}

/// The question to the model holds the message, what was said before it where
/// anything was, and every candidate, in this order.
pub proof fn the_model_sees_message_log_and_candidates(
    text: Seq<char>,
    rows: Seq<ChatLogRow>,
    v: Seq<ArcSnippet>,
)
    ensures
        exists|a: Seq<char>, b: Seq<char>, c: Seq<char>, d: Seq<char>|
            pick_prompt(text, rows, v) == #[trigger] (a + text + b + log_lines(
                rows,
                "  "@,
                "them"@,
                "us"@,
            ) + c + candidate_lines(v) + d),
{
    let log = log_lines(rows, "  "@, "them"@, "us"@);
    let a = "You route incoming Telegram messages to the right ongoing conversation thread (arc).\n\nNew incoming message from the user:\n\""@;
    let mid = "\nRecent exchange with this Telegram chat (newest last):\n"@;
    let b = if rows.len() > 0 {
        "\"\n"@ + mid
    } else {
        "\"\n"@
    };
    let c = "\nCandidate arcs to consider:\n"@;
    let d = "\nDecide whether this new message continues one of the candidate arcs or starts something new. Use the recent exchange to judge continuity — if the user's last reply to us was \"yes\", \"ok\", \"do it\", or a one-word follow-up, they're almost certainly continuing whatever we last said. Otherwise lean on topic match.\n\nRespond with ONLY one of:\n- The arc id (just the id, exactly as shown above) if it continues one of them\n- The literal word NEW if it's a different topic\n\nNo explanation. No markdown."@;
    if rows.len() > 0 {
        assert(pick_prompt(text, rows, v) =~= a + text + "\"\n"@ + (mid + log) + c
            + candidate_lines(v) + d);
        assert(a + text + "\"\n"@ + (mid + log) =~= a + text + b + log);
    } else {
        assert(log.len() == 0);
        assert(pick_prompt(text, rows, v) =~= a + text + b + log + c + candidate_lines(v) + d);
    }
    assert(pick_prompt(text, rows, v) == a + text + b + log + c + candidate_lines(v) + d);
}

/// The place of a step in a turn.
pub open spec fn step_place(s: TurnStep) -> int {
    match s {
        TurnStep::MarkArcRead => 0,
        TurnStep::SetReplyChannel => 1,
        TurnStep::TriageGoal => 2,
        TurnStep::LoadHistory => 3,
        TurnStep::StoreAttachments => 4,
        TurnStep::InjectChatHistory => 5,
        TurnStep::LogInbound => 6,
        TurnStep::SurfaceAttachments => 7,
        TurnStep::StartProgress => 8,
        TurnStep::EmitProgress => 9,
        TurnStep::StoreUserEntry => 10,
        TurnStep::Execute => 11,
        TurnStep::StoreReply => 12,
        TurnStep::TouchArc => 13,
        TurnStep::EmitArcUpdated => 14,
        TurnStep::FinalizeProgress => 15,
    }
}

/// The steps of `v` come in the order of their places.
pub open spec fn steps_in_order(v: Seq<TurnStep>) -> bool {
    forall|i: int, j: int|
        0 <= i < j < v.len() ==> step_place(#[trigger] v[i]) < step_place(#[trigger] v[j])
}

#[verifier::opaque]
spec fn steps_are(v: Seq<TurnStep>, taken: Set<TurnStep>, top: int) -> bool {
    &&& steps_in_order(v)
    &&& forall|i: int| 0 <= i < v.len() ==> step_place(#[trigger] v[i]) <= top
    &&& forall|t: TurnStep| #[trigger] v.contains(t) <==> taken.contains(t)
}

spec fn taken_with(taken: Set<TurnStep>, b: bool, s: TurnStep) -> Set<TurnStep> {
    if b {
        taken.insert(s)
    } else {
        taken
    }
}

proof fn lemma_append_step(
    v: Seq<TurnStep>,
    taken: Set<TurnStep>,
    top: int,
    b: bool,
    s: TurnStep,
)
    requires
        steps_are(v, taken, top),
        top < step_place(s),
    ensures
        steps_are(v + step_if(b, s), taken_with(taken, b, s), step_place(s)),
{
    reveal(steps_are);
    let w = v + step_if(b, s);
    assert forall|t: TurnStep| #[trigger] w.contains(t) <==> taken_with(
        taken,
        b,
        s,
    ).contains(t) by {
        if v.contains(t) {
            let i = choose|i: int| 0 <= i < v.len() && v[i] == t;
            assert(w[i] == t);
        }
        if b && t == s {
            assert(w[v.len() as int] == t);
        }
        if w.contains(t) {
            let i = choose|i: int| 0 <= i < w.len() && w[i] == t;
            if i < v.len() {
                assert(v[i] == t);
            }
        }
    }
}

/// Up to the agent's run, a turn takes its steps in one order, each once, and
/// exactly those for which it has what they need: what touches the arc's row
/// needs the store and the arc, and the chat's past is told only in an arc that
/// is fresh.
pub proof fn turns_take_the_steps_they_can(f: TurnFacts)
    ensures
        ({
            let v = steps_before(f);
            let stored = f.has_store && f.has_arc;
            &&& steps_in_order(v)
            &&& v.contains(TurnStep::MarkArcRead) <==> f.has_notifier && f.has_arc
            &&& v.contains(TurnStep::SetReplyChannel) <==> stored
            &&& v.contains(TurnStep::TriageGoal) <==> stored
            &&& v.contains(TurnStep::LoadHistory) <==> stored
            &&& v.contains(TurnStep::StoreAttachments) <==> f.has_attachment_store
            &&& v.contains(TurnStep::InjectChatHistory) <==> !f.arc_was_reused && f.has_chat_log
            &&& v.contains(TurnStep::LogInbound) <==> f.has_chat_log
            &&& v.contains(TurnStep::SurfaceAttachments) <==> f.has_attachment_store
            &&& v.contains(TurnStep::StartProgress)
            &&& v.contains(TurnStep::EmitProgress) <==> f.has_arc
            &&& v.contains(TurnStep::StoreUserEntry) <==> stored
            &&& v.contains(TurnStep::Execute)
        }),
{
    let stored = f.has_store && f.has_arc;
    let v0 = Seq::<TurnStep>::empty();
    let p0 = Set::<TurnStep>::empty();
    assert(steps_are(v0, p0, -1)) by {
        reveal(steps_are);
    }
    lemma_append_step(v0, p0, -1, f.has_notifier && f.has_arc, TurnStep::MarkArcRead);
    let v1 = v0 + step_if(f.has_notifier && f.has_arc, TurnStep::MarkArcRead);
    let p1 = taken_with(p0, f.has_notifier && f.has_arc, TurnStep::MarkArcRead);
    assert(v1 =~= step_if(f.has_notifier && f.has_arc, TurnStep::MarkArcRead));
    lemma_append_step(v1, p1, step_place(TurnStep::MarkArcRead), stored, TurnStep::SetReplyChannel);
    let v2 = v1 + step_if(stored, TurnStep::SetReplyChannel);
    let p2 = taken_with(p1, stored, TurnStep::SetReplyChannel);
    lemma_append_step(v2, p2, step_place(TurnStep::SetReplyChannel), stored, TurnStep::TriageGoal);
    let v3 = v2 + step_if(stored, TurnStep::TriageGoal);
    let p3 = taken_with(p2, stored, TurnStep::TriageGoal);
    lemma_append_step(v3, p3, step_place(TurnStep::TriageGoal), stored, TurnStep::LoadHistory);
    let v4 = v3 + step_if(stored, TurnStep::LoadHistory);
    let p4 = taken_with(p3, stored, TurnStep::LoadHistory);
    lemma_append_step(v4, p4, step_place(TurnStep::LoadHistory), f.has_attachment_store, TurnStep::StoreAttachments);
    let v5 = v4 + step_if(f.has_attachment_store, TurnStep::StoreAttachments);
    let p5 = taken_with(p4, f.has_attachment_store, TurnStep::StoreAttachments);
    lemma_append_step(v5, p5, step_place(TurnStep::StoreAttachments), !f.arc_was_reused && f.has_chat_log, TurnStep::InjectChatHistory);
    let v6 = v5 + step_if(!f.arc_was_reused && f.has_chat_log, TurnStep::InjectChatHistory);
    let p6 = taken_with(p5, !f.arc_was_reused && f.has_chat_log, TurnStep::InjectChatHistory);
    lemma_append_step(v6, p6, step_place(TurnStep::InjectChatHistory), f.has_chat_log, TurnStep::LogInbound);
    let v7 = v6 + step_if(f.has_chat_log, TurnStep::LogInbound);
    let p7 = taken_with(p6, f.has_chat_log, TurnStep::LogInbound);
    lemma_append_step(v7, p7, step_place(TurnStep::LogInbound), f.has_attachment_store, TurnStep::SurfaceAttachments);
    let v8 = v7 + step_if(f.has_attachment_store, TurnStep::SurfaceAttachments);
    let p8 = taken_with(p7, f.has_attachment_store, TurnStep::SurfaceAttachments);
    lemma_append_step(v8, p8, step_place(TurnStep::SurfaceAttachments), true, TurnStep::StartProgress);
    let v9 = v8 + step_if(true, TurnStep::StartProgress);
    let p9 = taken_with(p8, true, TurnStep::StartProgress);
    lemma_append_step(v9, p9, step_place(TurnStep::StartProgress), f.has_arc, TurnStep::EmitProgress);
    let v10 = v9 + step_if(f.has_arc, TurnStep::EmitProgress);
    let p10 = taken_with(p9, f.has_arc, TurnStep::EmitProgress);
    lemma_append_step(v10, p10, step_place(TurnStep::EmitProgress), stored, TurnStep::StoreUserEntry);
    let v11 = v10 + step_if(stored, TurnStep::StoreUserEntry);
    let p11 = taken_with(p10, stored, TurnStep::StoreUserEntry);
    lemma_append_step(v11, p11, step_place(TurnStep::StoreUserEntry), true, TurnStep::Execute);
    let v12 = v11 + step_if(true, TurnStep::Execute);
    let p12 = taken_with(p11, true, TurnStep::Execute);
    assert(steps_before(f) == v12);
    reveal(steps_are);
}

/// After the run the reply is stored and the arc touched where they can be,
/// listeners are told only of a run that went through, and the reply always
/// goes out, last of all.
pub proof fn turns_end_with_the_reply(f: TurnFacts, ran: bool)
    ensures
        ({
            let v = steps_after(f, ran);
            let stored = f.has_store && f.has_arc;
            &&& steps_in_order(v)
            &&& v.contains(TurnStep::StoreReply) <==> stored
            &&& v.contains(TurnStep::TouchArc) <==> stored
            &&& v.contains(TurnStep::EmitArcUpdated) <==> f.has_arc && ran
            &&& v.len() > 0 && v.last() == TurnStep::FinalizeProgress
        }),
{
    let stored = f.has_store && f.has_arc;
    let v0 = Seq::<TurnStep>::empty();
    let p0 = Set::<TurnStep>::empty();
    assert(steps_are(v0, p0, -1)) by {
        reveal(steps_are);
    }
    lemma_append_step(v0, p0, -1, stored, TurnStep::StoreReply);
    let v1 = v0 + step_if(stored, TurnStep::StoreReply);
    let p1 = taken_with(p0, stored, TurnStep::StoreReply);
    assert(v1 =~= step_if(stored, TurnStep::StoreReply));
    lemma_append_step(v1, p1, step_place(TurnStep::StoreReply), stored, TurnStep::TouchArc);
    let v2 = v1 + step_if(stored, TurnStep::TouchArc);
    let p2 = taken_with(p1, stored, TurnStep::TouchArc);
    lemma_append_step(v2, p2, step_place(TurnStep::TouchArc), f.has_arc && ran, TurnStep::EmitArcUpdated);
    let v3 = v2 + step_if(f.has_arc && ran, TurnStep::EmitArcUpdated);
    let p3 = taken_with(p2, f.has_arc && ran, TurnStep::EmitArcUpdated);
    lemma_append_step(v3, p3, step_place(TurnStep::EmitArcUpdated), true, TurnStep::FinalizeProgress);
    let v4 = v3 + step_if(true, TurnStep::FinalizeProgress);
    let p4 = taken_with(p3, true, TurnStep::FinalizeProgress);
    assert(steps_after(f, ran) == v4);
    reveal(steps_are);
    assert(v4[v4.len() - 1] == TurnStep::FinalizeProgress);
}

/// A fresh arc is told what was said in the chat before, as the user's and the
/// assistant's words, between the marks of a context.
pub proof fn past_messages_are_told_as_context(rows: Seq<ChatLogRow>)
    ensures
        chat_context(rows)
            == "<CONTEXT type=\"telegram-chat-history\">\nRecent messages with this Telegram chat (newest last). Use for conversational continuity — the user may be referring back to one of these.\n"@
            + log_lines(rows, ""@, "user"@, "assistant"@) + "</CONTEXT>"@,
{
}

/// What a run hands back is read for its reason and its response; without
/// anything to read, only success and steps are told.
pub proof fn replies_are_read_from_the_output(success: bool, steps: nat, output: Seq<char>)
    ensures
        reply_of(success, steps, Some(output)) == reply_from(
            success,
            steps,
            json_string(output, "reason"@),
            json_string(output, "response"@),
            Some(json_pretty(output)),
        ),
        reply_of(true, steps, None) == "Task completed."@,
        reply_of(false, steps, None) == "Ran out of steps ("@ + decimal(steps)
            + " used) before finishing."@,
{
}

/// A conversation is seen message by message, each with its role and its text.
pub proof fn conversations_are_seen_whole(v: Seq<ChatMessage>, i: int)
    requires
        0 <= i < v.len(),
    ensures
        message_views(v).len() == v.len(),
        message_views(v)[i] == (v[i].role, v[i].content@),
{
}

/// An id is that of an active arc exactly where some listed arc bears it and
/// is active.
pub proof fn active_arcs_are_listed(arcs: Seq<ArcMeta>, id: Seq<char>, j: int)
    ensures
        0 <= j < arcs.len() && arcs[j].id@ == id && arcs[j].active ==> is_active_arc(arcs, id),
        (forall|k: int| 0 <= k < arcs.len() ==> !((#[trigger] arcs[k]).id@ == id && arcs[k].active))
            ==> !is_active_arc(arcs, id),
{
}

} // verus!
