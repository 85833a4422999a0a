//! Deep research requests from Telegram: asking for a depth, keeping the
//! request until one is chosen, and reporting the result.

use vstd::prelude::*;
use vstd::string::*;
use crate::models::Timestamp;
use crate::text::{
    CharClass, bytes_len, cat2, cat3, cat4, cat5, chars_of, decimal, decimal_u64, ellipsize,
    ellipsized, first_from, first_index, lemma_first_from, owned, shortened_texts_keep_what_fits,
    str_eq, string_of, trim, trim_spec,
};
use crate::time::{seconds_between, younger_than};

verus! {

/// A request that waits for its depth.
#[derive(Clone, Debug)]
pub struct PendingDeepResearch {
    pub arc_id: String,
    pub chat_id: i64,
    pub question: String,
    pub created_at: Timestamp,
}

/// A waiting request under its token.
#[derive(Clone, Debug)]
pub struct PendingEntry {
    pub token: String,
    pub pending: PendingDeepResearch,
}

/// The requests that wait for their depth.
pub struct PendingRequests {
    pub entries: Vec<PendingEntry>,
}

/// The entries that are younger than an hour.
pub open spec fn still_waiting(v: Seq<PendingEntry>, now: Timestamp) -> Seq<PendingEntry>
    decreases v.len(),
{
    if v.len() == 0 {
        Seq::empty()
    } else {
        let before = still_waiting(v.drop_last(), now);
        if seconds_between(now, v.last().pending.created_at) < 3600 {
            before.push(v.last())
        } else {
            before
        }
    }
}

/// The index of the entry of that token, or `-1`.
pub open spec fn token_index(v: Seq<PendingEntry>, token: Seq<char>) -> int
    decreases v.len(),
{
    if v.len() == 0 {
        -1
    } else {
        let before = token_index(v.drop_last(), token);
        if before >= 0 {
            before
        } else if v.last().token@ == token {
            v.len() - 1
        } else {
            -1
        }
    }
}

/// No two entries share a token.
pub open spec fn tokens_distinct(v: Seq<PendingEntry>) -> bool {
    forall|i: int, j: int|
        0 <= i < j < v.len() ==> (#[trigger] v[i]).token@ != (#[trigger] v[j]).token@
}

proof fn lemma_token_index(v: Seq<PendingEntry>, token: Seq<char>)
    ensures
        -1 <= token_index(v, token) < v.len(),
        token_index(v, token) >= 0 ==> v[token_index(v, token)].token@ == token,
        token_index(v, token) < 0 ==> forall|i: int|
            0 <= i < v.len() ==> (#[trigger] v[i]).token@ != token,
    decreases v.len(),
{
    if v.len() > 0 {
        let init = v.drop_last();
        lemma_token_index(init, token);
        if token_index(v, token) < 0 {
            assert forall|i: int| 0 <= i < v.len() implies (#[trigger] v[i]).token@ != token by {
                if i < init.len() {
                    assert(init[i] == v[i]);
                }
            }
        }
    }
}

proof fn lemma_waiting_members(v: Seq<PendingEntry>, now: Timestamp, i: int)
    requires
        0 <= i < still_waiting(v, now).len(),
    ensures
        exists|j: int| 0 <= j < v.len() && #[trigger] v[j] == still_waiting(v, now)[i],
        seconds_between(now, still_waiting(v, now)[i].pending.created_at) < 3600,
    decreases v.len(),
{
    let init = v.drop_last();
    let before = still_waiting(init, now);
    if i < before.len() {
        lemma_waiting_members(init, now, i);
        let j = choose|j: int| 0 <= j < init.len() && #[trigger] init[j] == before[i];
        assert(v[j] == before[i]);
    } else {
        assert(v[v.len() - 1] == still_waiting(v, now)[i]);
    }
}

proof fn lemma_waiting_distinct(v: Seq<PendingEntry>, now: Timestamp)
    requires
        tokens_distinct(v),
    ensures
        tokens_distinct(still_waiting(v, now)),
    decreases v.len(),
{
    if v.len() > 0 {
        let init = v.drop_last();
        let before = still_waiting(init, now);
        assert(tokens_distinct(init)) by {
            assert forall|i: int, j: int| 0 <= i < j < init.len() implies (
            #[trigger] init[i]).token@ != (#[trigger] init[j]).token@ by {
                assert(init[i] == v[i] && init[j] == v[j]);
            }
        }
        lemma_waiting_distinct(init, now);
        let all = still_waiting(v, now);
        assert forall|i: int, j: int| 0 <= i < j < all.len() implies (#[trigger] all[i]).token@ != (
        #[trigger] all[j]).token@ by {
            if j < before.len() {
                assert(all[i] == before[i] && all[j] == before[j]);
            } else {
                lemma_waiting_members(init, now, i);
                let k = choose|k: int| 0 <= k < init.len() && #[trigger] init[k] == before[i];
                assert(v[k] == all[i]);
                assert(all[j] == v[v.len() - 1]);
            }
        }
    }
}

impl PendingRequests {
    /// No two requests share a token.
    pub open spec fn wf(self) -> bool {
        tokens_distinct(self.entries@)
    }

    /// The request under a token.
    pub open spec fn waiting(self, token: Seq<char>) -> Option<PendingDeepResearch> {
        let i = token_index(self.entries@, token);
        if i >= 0 {
            Some(self.entries@[i].pending)
        } else {
            None
        }
    }

    pub fn new() -> (r: Self)
        ensures
            r.wf(),
            r.entries@.len() == 0,
    {
        PendingRequests { entries: Vec::new() }
    }

    fn position(&self, token: &str) -> (r: Option<usize>)
        ensures
            match r {
                Some(i) => i < self.entries@.len() && self.entries@[i as int].token@ == token@,
                None => token_index(self.entries@, token@) < 0,
            },
    {
        let mut i: usize = 0;
        while i < self.entries.len()
            invariant
                i <= self.entries@.len(),
                forall|j: int| 0 <= j < i ==> (#[trigger] self.entries@[j]).token@ != token@,
            decreases self.entries@.len() - i,
        {
            if str_eq(self.entries[i].token.as_str(), token) {
                return Some(i);
            }
            i += 1;
        }
        proof {
            lemma_token_index(self.entries@, token@);
        }
        None
    }

    fn prune(&mut self, now: Timestamp)
        requires
            old(self).wf(),
        ensures
            final(self).wf(),
            final(self).entries@ == still_waiting(old(self).entries@, now),
    {
        let ghost all = self.entries@;
        proof {
            lemma_waiting_distinct(all, now);
        }
        let mut out: Vec<PendingEntry> = Vec::new();
        let mut rest: Vec<PendingEntry> = Vec::new();
        core::mem::swap(&mut rest, &mut self.entries);
        let mut i: usize = 0;
        proof {
            assert(out@ =~= still_waiting(all.take(0), now));
        }
        while i < rest.len()
            invariant
                rest@ == all,
                i <= all.len(),
                out@ == still_waiting(all.take(i as int), now),
            decreases all.len() - i,
        {
            proof {
                assert(all.take(i + 1).drop_last() =~= all.take(i as int));
                assert(all.take(i + 1).last() == all[i as int]);
            }
            if younger_than(now, rest[i].pending.created_at, 3600) {
                let e = PendingEntry {
                    token: rest[i].token.clone(),
                    pending: PendingDeepResearch {
                        arc_id: rest[i].pending.arc_id.clone(),
                        chat_id: rest[i].pending.chat_id,
                        question: rest[i].pending.question.clone(),
                        created_at: rest[i].pending.created_at,
                    },
                };
                proof {
                    assert(e == all[i as int]);
                }
                out.push(e);
            }
            i += 1;
        }
        proof {
            assert(all.take(i as int) =~= all);
        }
        self.entries = out;
    }

    /// Keeps a request under its token; requests that have waited an hour are
    /// dropped.
    pub fn stash_pending_deep_research(
        &mut self,
        token: String,
        pending: PendingDeepResearch,
        now: Timestamp,
    )
        requires
            old(self).wf(),
        ensures
            final(self).wf(),
            final(self).waiting(token@) == Some(pending),
            ({
                let kept = still_waiting(old(self).entries@, now);
                let i = token_index(kept, token@);
                if i >= 0 {
                    final(self).entries@ == kept.update(i, final(self).entries@[i])
                } else {
                    final(self).entries@ == kept.push(final(self).entries@.last())
                }
            }),
    {
        self.prune(now);
        let ghost kept = self.entries@;
        proof {
            lemma_token_index(kept, token@);
        }
        match self.position(token.as_str()) {
            Some(i) => {
                proof {
                    let k = token_index(kept, token@);
                    assert(k == i) by {
                        if k >= 0 {
                            if k < i {
                                assert(kept[k].token@ != kept[i as int].token@);
                            }
                            if i < k {
                                assert(kept[i as int].token@ != kept[k].token@);
                            }
                        }
                    }
                }
                let e = PendingEntry { token, pending };
                self.entries.set(i, e);
                proof {
                    let after = self.entries@;
                    assert(after =~= kept.update(i as int, after[i as int]));
                    assert forall|a: int, b: int| 0 <= a < b < after.len() implies (
                    #[trigger] after[a]).token@ != (#[trigger] after[b]).token@ by {
                        assert(after[a].token@ == kept[a].token@);
                        assert(after[b].token@ == kept[b].token@);
                    }
                    lemma_token_index(after, token@);
                    let q = token_index(after, token@);
                    if q < i && q >= 0 {
                        assert(after[q].token@ != after[i as int].token@);
                    }
                    if i < q {
                        assert(after[i as int].token@ != after[q].token@);
                    }
                    if q < 0 {
                        assert(after[i as int].token@ != token@);
                    }
                }
            },
            None => {
                let e = PendingEntry { token, pending };
                self.entries.push(e);
                proof {
                    let after = self.entries@;
                    assert(after =~= kept.push(after.last()));
                    assert(after.drop_last() =~= kept);
                    assert forall|a: int, b: int| 0 <= a < b < after.len() implies (
                    #[trigger] after[a]).token@ != (#[trigger] after[b]).token@ by {
                        assert(after[a] == kept[a]);
                        if b < kept.len() {
                            assert(after[b] == kept[b]);
                        }
                    }
                }
            },
        }
    }

    /// Takes the request of a token, which is then gone.
    pub fn take_pending_deep_research(&mut self, token: &str) -> (r: Option<PendingDeepResearch>)
        requires
            old(self).wf(),
        ensures
            final(self).wf(),
            r == old(self).waiting(token@),
            final(self).waiting(token@) is None,
            match r {
                Some(_) => final(self).entries@ == old(self).entries@.remove(
                    token_index(old(self).entries@, token@),
                ),
                None => final(self).entries@ == old(self).entries@,
            },
    {
        let ghost before = self.entries@;
        proof {
            lemma_token_index(before, token@);
        }
        match self.position(token) {
            Some(i) => {
                proof {
                    let k = token_index(before, token@);
                    assert(k == i) by {
                        if k >= 0 {
                            if k < i {
                                assert(before[k].token@ != before[i as int].token@);
                            }
                            if i < k {
                                assert(before[i as int].token@ != before[k].token@);
                            }
                        }
                    }
                }
                let e = self.entries.remove(i);
                proof {
                    let after = self.entries@;
                    assert forall|a: int, b: int| 0 <= a < b < after.len() implies (
                    #[trigger] after[a]).token@ != (#[trigger] after[b]).token@ by {
                        let a0 = if a < i { a } else { a + 1 };
                        let b0 = if b < i { b } else { b + 1 };
                        assert(after[a] == before[a0]);
                        assert(after[b] == before[b0]);
                    }
                    lemma_token_index(after, token@);
                    let q = token_index(after, token@);
                    if q >= 0 {
                        let q0 = if q < i { q } else { q + 1 };
                        assert(after[q] == before[q0]);
                        if q0 < i {
                            assert(before[q0].token@ != before[i as int].token@);
                        } else {
                            assert(before[i as int].token@ != before[q0].token@);
                        }
                    }
                }
                Some(e.pending)
            },
            None => None,
        }
    }
}

/// A request that is kept can be taken once, and then it is gone.
pub proof fn requests_are_taken_once(
    kept: PendingRequests,
    taken: PendingRequests,
    token: Seq<char>,
    pending: PendingDeepResearch,
)
    requires
        kept.wf(),
        kept.waiting(token) == Some(pending),
        taken.entries@ == kept.entries@.remove(token_index(kept.entries@, token)),
    ensures
        taken.waiting(token) is None,
{
    let before = kept.entries@;
    let after = taken.entries@;
    let i = token_index(before, token);
    lemma_token_index(before, token);
    lemma_token_index(after, token);
    let q = token_index(after, token);
    if q >= 0 {
        let q0 = if q < i { q } else { q + 1 };
        assert(after[q] == before[q0]);
        if q0 < i {
            assert(before[q0].token@ != before[i].token@);
        } else {
            assert(before[i].token@ != before[q0].token@);
        }
    }
}

// ---------------------------------------------------------------------------
// Asking for a depth
// ---------------------------------------------------------------------------

/// What a research command leads to.
pub enum ResearchStart {
    /// Tell the owner this, and nothing else.
    Tell(String),
    /// Begin an arc of that name on the topic.
    Begin { arc_name: String, topic: String },
}

/// The name of a research arc: the topic, shortened where it is long.
pub open spec fn research_arc_name(topic: Seq<char>) -> Seq<char> {
    if topic.len() > 40 {
        ellipsized(topic, 37)
    } else {
        topic
    }
}

/// What a research command leads to.
pub fn handle_telegram_deepresearch_command(topic: &str, has_store: bool) -> (r: ResearchStart)
    ensures
        ({
            let t = trim_spec(topic@);
            if t.len() == 0 {
                r matches ResearchStart::Tell(m) && m@
                    == "Usage: /deepresearch <topic>\n\nExample:\n/deepresearch state of EU right-to-repair law vs California"@
            } else if !has_store {
                r matches ResearchStart::Tell(m) && m@
                    == "⚠️ Research is unavailable right now (no conversation store)."@
            } else {
                r matches ResearchStart::Begin { arc_name, topic: q } && q@ == t && arc_name@
                    == research_arc_name(t)
            }
        }),
{
    let t = trim(topic);
    if t.as_str().is_empty() {
        return ResearchStart::Tell(
            owned(
                "Usage: /deepresearch <topic>\n\nExample:\n/deepresearch state of EU right-to-repair law vs California",
            ),
        );
    }
    if !has_store {
        return ResearchStart::Tell(
            owned("⚠️ Research is unavailable right now (no conversation store)."),
        );
    }
    let v = chars_of(t.as_str());
    let arc_name = if v.len() > 40 {
        ellipsize(t.as_str(), 37)
    } else {
        t.clone()
    };
    ResearchStart::Begin { arc_name, topic: t }
}

/// The question for a depth.
pub fn depth_prompt(topic: &str) -> (r: String)
    ensures
        r@ == "🔎 Deep Research: \""@ + topic@
            + "\"\n\nChoose a depth:\n• ⚡ Quick — fastest, 3 angles\n• 📚 Standard — balanced, 6 angles\n• 🔬 Deep — most thorough, 10 angles + a gap-fill pass (slowest)"@,
{
    cat3(
        "🔎 Deep Research: \"",
        topic,
        "\"\n\nChoose a depth:\n• ⚡ Quick — fastest, 3 angles\n• 📚 Standard — balanced, 6 angles\n• 🔬 Deep — most thorough, 10 angles + a gap-fill pass (slowest)",
    )
}

/// What a button carries.
pub open spec fn button_data(token: Seq<char>, depth: Seq<char>) -> Seq<char> {
    "dr|"@ + token + "|"@ + depth
}

/// The buttons under the question: their label, and what they carry.
pub fn depth_buttons(token: &str) -> (r: Vec<(&'static str, String)>)
    ensures
        r@.len() == 3,
        r@[0].0@ == "⚡ Quick"@ && r@[0].1@ == button_data(token@, "quick"@),
        r@[1].0@ == "📚 Standard"@ && r@[1].1@ == button_data(token@, "standard"@),
        r@[2].0@ == "🔬 Deep"@ && r@[2].1@ == button_data(token@, "deep"@),
{
    let mut v: Vec<(&'static str, String)> = Vec::new();
    v.push(("⚡ Quick", cat4("dr|", token, "|", "quick")));
    v.push(("📚 Standard", cat4("dr|", token, "|", "standard")));
    v.push(("🔬 Deep", cat4("dr|", token, "|", "deep")));
    v
}

/// The token and the depth that a button carries: what stands between the
/// first two bars, and behind the second.
pub open spec fn button_of(data: Seq<char>) -> Option<(Seq<char>, Seq<char>)> {
    let a = first_from(data, CharClass::Is('|'), 0);
    let b = first_from(data, CharClass::Is('|'), a + 1);
    if a < data.len() && b < data.len() {
        Some((data.subrange(a + 1, b), data.subrange(b + 1, data.len() as int)))
    } else {
        None
    }
}

/// The token and the depth that a button carries, if it does.
pub fn parse_button(data: &str) -> (r: Option<(String, String)>)
    ensures
        match r {
            Some(p) => button_of(data@) == Some((p.0@, p.1@)),
            None => button_of(data@) is None,
        },
{
    let v = chars_of(data);
    let a: usize = first_index(&v, CharClass::Is('|'), 0);
    if a >= v.len() {
        return None;
    }
    let b: usize = first_index(&v, CharClass::Is('|'), a + 1);
    if b >= v.len() {
        return None;
    }
    Some((string_of(&v, a + 1, b), string_of(&v, b + 1, v.len())))
}

/// A button gives back the token and the depth it was made of, where the
/// token holds no bar.
pub proof fn buttons_are_read_back(token: Seq<char>, depth: Seq<char>)
    requires
        first_from(token, CharClass::Is('|'), 0) == token.len(),
    ensures
        button_of(button_data(token, depth)) == Some((token, depth)),
{
    reveal_strlit("dr|");
    reveal_strlit("|");
    let d = button_data(token, depth);
    let k = CharClass::Is('|');
    lemma_first_from(token, k, 0);
    lemma_first_from(d, k, 0);
    assert(d[0] == 'd' && d[1] == 'r' && d[2] == '|');
    let a = first_from(d, k, 0);
    assert(a == 2) by {
        if a > 2 {
            assert(!k.has(d[2]));
        }
        if a < 2 {
            assert(k.has(d[a]));
        }
    }
    lemma_first_from(d, k, 3);
    let b = first_from(d, k, 3);
    let n = 3 + token.len() as int;
    assert(d[n] == '|');
    assert(b == n) by {
        if b > n {
            assert(!k.has(d[n]));
        }
        if b < n {
            assert(d[b] == token[b - 3]);
            assert(!k.has(token[b - 3]));
        }
    }
    assert(d.subrange(3, n) =~= token);
    assert(d.subrange(n + 1, d.len() as int) =~= depth);
}

/// What the owner is told where the arc of a request cannot be created.
pub fn arc_not_created() -> (r: &'static str)
    ensures
        r@ == "⚠️ Couldn't start research (failed to create a conversation)."@,
{
    "⚠️ Couldn't start research (failed to create a conversation)."
}

/// The question for a depth could not be sent: the request is withdrawn, since
/// nobody can answer it. The result is what the owner is told.
pub fn depth_prompt_not_sent(requests: &mut PendingRequests, token: &str) -> (r: &'static str)
    requires
        old(requests).wf(),
    ensures
        final(requests).wf(),
        final(requests).waiting(token@) is None,
        match old(requests).waiting(token@) {
            Some(_) => final(requests).entries@ == old(requests).entries@.remove(
                token_index(old(requests).entries@, token@),
            ),
            None => final(requests).entries@ == old(requests).entries@,
        },
        r@ == "⚠️ Couldn't send the depth options. Please try again."@,
{
    let _ = requests.take_pending_deep_research(token);
    "⚠️ Couldn't send the depth options. Please try again."
}

// ---------------------------------------------------------------------------
// Running and reporting
// ---------------------------------------------------------------------------

/// The note while research runs.
pub open spec fn note_text(depth: Seq<char>, question: Seq<char>) -> Seq<char> {
    "🔬 Researching ("@ + depth + "): \""@ + question
        + "\"\n\nThis can take a few minutes — I'll send the paper when it's ready."@
}

/// The note while research runs.
pub fn running_note(depth: &str, question: &str) -> (r: String)
    ensures
        r@ == note_text(depth@, question@),
{
    cat5(
        "🔬 Researching (",
        depth,
        "): \"",
        question,
        "\"\n\nThis can take a few minutes — I'll send the paper when it's ready.",
    )
}

/// A finished run.
#[derive(Clone, Debug)]
pub struct DeepResearchResult {
    pub arc_id: String,
    pub question: String,
    pub depth: String,
    pub paper_path: String,
    pub workers_ok: usize,
    pub workers_total: usize,
    pub extended: bool,
}

/// Whether a paper is new or was extended.
pub open spec fn run_kind(extended: bool) -> Seq<char> {
    if extended {
        "extended"@
    } else {
        "complete"@
    }
}

fn kind_text(extended: bool) -> (r: &'static str)
    ensures
        r@ == run_kind(extended),
{
    if extended {
        "extended"
    } else {
        "complete"
    }
}

/// The caption of a finished paper.
pub fn paper_caption(r: &DeepResearchResult) -> (t: String)
    ensures
        t@ == "✅ Research "@ + run_kind(r.extended) + ": \""@ + r.question@ + "\"\n"@ + decimal(
            r.workers_ok as nat,
        ) + " of "@ + decimal(r.workers_total as nat) + " researchers reported · depth: "@
            + r.depth@
            + "\n\nFull paper attached. Reply here to ask follow-up questions about it."@,
{
    let ok = decimal_u64(r.workers_ok as u64);
    let total = decimal_u64(r.workers_total as u64);
    let head = cat5("✅ Research ", kind_text(r.extended), ": \"", r.question.as_str(), "\"\n");
    let mid = cat4(head.as_str(), ok.as_str(), " of ", total.as_str());
    cat4(
        mid.as_str(),
        " researchers reported · depth: ",
        r.depth.as_str(),
        "\n\nFull paper attached. Reply here to ask follow-up questions about it.",
    )
}

/// The note where the paper itself could not be sent.
pub fn paper_fallback(r: &DeepResearchResult) -> (t: String)
    ensures
        t@ == "✅ Research "@ + run_kind(r.extended) + ": \""@ + r.question@
            + "\". The paper is saved at "@ + r.paper_path@ + " — ask me about it here."@,
{
    let head = cat4("✅ Research ", kind_text(r.extended), ": \"", r.question.as_str());
    cat4(
        head.as_str(),
        "\". The paper is saved at ",
        r.paper_path.as_str(),
        " — ask me about it here.",
    )
}

/// How a run ended without a paper.
pub enum ResearchEnd<'a> {
    Failed(&'a str),
    Crashed,
}

/// What the owner is told of a run that ended without a paper.
pub fn research_failure(end: &ResearchEnd) -> (r: String)
    ensures
        r@ == match end {
            ResearchEnd::Failed(e) => "⚠️ Research failed: "@ + e@,
            ResearchEnd::Crashed => "⚠️ Research crashed unexpectedly. Please try again."@,
        },
{
    match end {
        ResearchEnd::Failed(e) => cat2("⚠️ Research failed: ", e),
        ResearchEnd::Crashed => owned("⚠️ Research crashed unexpectedly. Please try again."),
    }
}

/// Whether the user has to decide between a new paper and extending the one
/// that the arc has: a paper is there, and the request does not say.
pub fn needs_decision(mode_given: bool, paper_exists: bool) -> (r: bool)
    ensures
        r == (!mode_given && paper_exists),
{
    !mode_given && paper_exists
}

/// Why research cannot run, if it cannot: the first reason that holds.
pub fn research_unavailable(has_profiles: bool, has_arcs: bool) -> (r: Option<String>)
    ensures
        r.deep_view() == if !has_profiles {
            Some("Deep research unavailable: profile store not configured"@)
        } else if !has_arcs {
            Some("Deep research unavailable: arc store not configured"@)
        } else {
            None
        },
{
    if !has_profiles {
        Some(owned("Deep research unavailable: profile store not configured"))
    } else if !has_arcs {
        Some(owned("Deep research unavailable: arc store not configured"))
    } else {
        None
    }
}

/// What a worker contributes: nothing where it did not succeed.
pub fn worker_contribution(success: bool, content: String) -> (r: String)
    ensures
        r@ == if success {
            content@
        } else {
            Seq::empty()
        },
{
    if success {
        content
    } else {
        String::new()
    }
}

/// What a tapped depth leads to.
pub enum DepthChosen {
    /// Nothing: the button is not a depth.
    Ignored,
    /// The request waits no longer; the owner is told so.
    Expired(String),
    /// Research begins; the button is answered, and the note is shown.
    Begin { pending: PendingDeepResearch, depth: String, answer: String, note: String },
}

/// A depth was tapped. The request it belongs to is taken, so a second tap
/// finds nothing.
pub fn handle_telegram_deepresearch_callback(requests: &mut PendingRequests, data: &str) -> (r:
    DepthChosen)
    requires
        old(requests).wf(),
    ensures
        final(requests).wf(),
        match button_of(data@) {
            None => r is Ignored && *final(requests) == *old(requests),
            Some(b) => {
                &&& final(requests).waiting(b.0) is None
                &&& match old(requests).waiting(b.0) {
                    None => {
                        &&& final(requests).entries@ == old(requests).entries@
                        &&& r matches DepthChosen::Expired(m) && m@
                            == "That research request expired — send /deepresearch again."@
                    },
                    Some(p) => {
                        &&& final(requests).entries@ == old(requests).entries@.remove(
                            token_index(old(requests).entries@, b.0),
                        )
                        &&& r matches DepthChosen::Begin { pending, depth, answer, note }
                            && pending == p && depth@ == b.1 && answer@ == "Starting…"@ && note@
                            == note_text(b.1, p.question@)
                    },
                }
            },
        },
{
    let (token, depth) = match parse_button(data) {
        Some(b) => b,
        None => {
            return DepthChosen::Ignored;
        },
    };
    match requests.take_pending_deep_research(token.as_str()) {
        Some(pending) => {
            let note = running_note(depth.as_str(), pending.question.as_str());
            DepthChosen::Begin { pending, depth, answer: owned("Starting…"), note }
        },
        None => DepthChosen::Expired(
            owned("That research request expired — send /deepresearch again."),
        ),
    }
}

// ---------------------------------------------------------------------------
// What waiting requests promise
// ---------------------------------------------------------------------------

/// Requests are dropped one by one, an hour after they were made; the others
/// stay, in order.
pub proof fn requests_wait_for_an_hour(
    a: Seq<PendingEntry>,
    b: Seq<PendingEntry>,
    one: PendingEntry,
    now: Timestamp,
)
    ensures
        still_waiting(a + b, now) == still_waiting(a, now) + still_waiting(b, now),
        seconds_between(now, one.pending.created_at) < 3600 ==> still_waiting(seq![one], now)
            == seq![one],
        seconds_between(now, one.pending.created_at) >= 3600 ==> still_waiting(
            seq![one],
            now,
        ).len() == 0,
    decreases b.len(),
{
    if b.len() == 0 {
        assert(a + b =~= a);
        assert(still_waiting(a, now) + still_waiting(b, now) =~= still_waiting(a, now));
    } else {
        requests_wait_for_an_hour(a, b.drop_last(), one, now);
        assert((a + b).drop_last() =~= a + b.drop_last());
        assert(still_waiting(a + b, now) =~= still_waiting(a, now) + still_waiting(b, now));
    }
    assert(seq![one].drop_last() =~= Seq::<PendingEntry>::empty());
    assert(seq![one].last() == one);
    reveal_with_fuel(still_waiting, 2);
    if seconds_between(now, one.pending.created_at) < 3600 {
        assert(still_waiting(seq![one], now) =~= seq![one]);
    }
}

/// A request is found under its own token, the first one under it, and under
/// no other.
pub proof fn requests_are_found_by_token(r: PendingRequests, token: Seq<char>, i: int)
    ensures
        0 <= i < r.entries@.len() && r.entries@[i].token@ == token && (forall|j: int|
            0 <= j < i ==> (#[trigger] r.entries@[j]).token@ != token) ==> r.waiting(token) == Some(
            r.entries@[i].pending,
        ),
        (forall|j: int| 0 <= j < r.entries@.len() ==> (#[trigger] r.entries@[j]).token@ != token)
            ==> r.waiting(token) is None,
{
    lemma_token_place(r.entries@, token);
}

proof fn lemma_token_place(v: Seq<PendingEntry>, token: Seq<char>)
    ensures
        -1 <= token_index(v, token) < v.len(),
        token_index(v, token) >= 0 ==> v[token_index(v, token)].token@ == token,
        forall|j: int|
            0 <= j < v.len() && (token_index(v, token) < 0 || j < token_index(v, token)) ==> (
            #[trigger] v[j]).token@ != token,
    decreases v.len(),
{
    if v.len() > 0 {
        let init = v.drop_last();
        lemma_token_place(init, token);
        assert forall|j: int|
            0 <= j < v.len() && (token_index(v, token) < 0 || j < token_index(v, token)) implies (
        #[trigger] v[j]).token@ != token by {
            if j < init.len() {
                assert(init[j] == v[j]);
            }
        }
    }
}

/// The arc of a research bears its topic, the whole of it up to forty
/// characters, and a shortened one beyond.
pub proof fn research_arcs_bear_their_topic(topic: Seq<char>)
    ensures
        topic.len() <= 40 ==> research_arc_name(topic) == topic,
        topic.len() > 40 ==> exists|n: int|
            0 <= n <= topic.len() && research_arc_name(topic) == #[trigger] topic.subrange(0, n)
                + "..."@ && bytes_len(topic.subrange(0, n)) <= 37,
{
    shortened_texts_keep_what_fits(topic, 37);
}

/// A button carries its token and its depth, and the note on a run names the
/// depth and the question.
pub proof fn buttons_carry_token_and_depth(token: Seq<char>, depth: Seq<char>, question: Seq<char>)
    ensures
        button_data(token, depth) == "dr|"@ + token + "|"@ + depth,
        note_text(depth, question) == "🔬 Researching ("@ + depth + "): \""@ + question
            + "\"\n\nThis can take a few minutes — I'll send the paper when it's ready."@,
        run_kind(true) == "extended"@,
        run_kind(false) == "complete"@,
{
}

/// Data without two bars is that of no button.
pub proof fn buttons_have_two_bars(data: Seq<char>, rest: Seq<char>)
    requires
        forall|i: int| 0 <= i < data.len() ==> #[trigger] data[i] != '|',
        forall|i: int| 0 <= i < rest.len() ==> #[trigger] rest[i] != '|',
    ensures
        button_of(data) is None,
        button_of(data + seq!['|'] + rest) is None,
{
    let k = CharClass::Is('|');
    lemma_first_from(data, k, 0);
    let s = data + seq!['|'] + rest;
    let n = data.len() as int;
    lemma_first_from(s, k, 0);
    let a = first_from(s, k, 0);
    assert(s[n] == '|');
    if a < n {
        assert(s[a] == data[a]);
    }
    assert(a == n);
    lemma_first_from(s, k, n + 1);
    let b = first_from(s, k, n + 1);
    if b < s.len() {
        assert(s[b] == rest[b - n - 1]);
    }
}

} // verus!
