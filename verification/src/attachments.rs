//! Attachment policy settings: file categories, size limits and trust levels.

use vstd::prelude::*;
use vstd::string::*;
use crate::telegram_progress::{holds, with_label};
use crate::text::{ascii_lowercase, cat2, lower, lowered, owned, str_eq};

verus! {

/// How far a sender is trusted, in ascending order.
#[derive(Clone, Copy, Debug, PartialEq, Eq, Structural)]
pub enum TrustLevel {
    Unknown,
    Neutral,
    Known,
    Trusted,
    AuthUser,
}

/// Which attachments are taken in.
#[derive(Clone, Debug, PartialEq, Eq)]
pub struct AttachmentPolicy {
    pub mime_allowlist: Vec<String>,
    pub max_attachment_bytes: u64,
    pub max_event_bytes: u64,
    pub min_inline_trust: TrustLevel,
    pub min_download_trust: TrustLevel,
    pub byte_ttl_days: u32,
}

/// The attachment policy, as the settings show it: sizes in megabytes, file
/// types in named categories.
#[derive(Debug, Clone)]
pub struct AttachmentPolicySettings {
    pub mime_bundles: Vec<String>,
    pub max_attachment_mb: u64,
    pub max_event_mb: u64,
    pub min_inline_trust: String,
    pub min_download_trust: String,
    pub byte_ttl_days: u32,
}

// ---------------------------------------------------------------------------
// File categories
// ---------------------------------------------------------------------------

/// The categories, each with the type prefixes that it stands for.
pub open spec fn mime_bundles() -> Seq<(Seq<char>, Seq<Seq<char>>)> {
    seq![
        ("images"@, seq!["image/"@]),
        ("pdfs"@, seq!["application/pdf"@]),
        ("text"@, seq!["text/"@]),
        (
            "office"@,
            seq![
                "application/vnd.openxmlformats-officedocument"@,
                "application/msword"@,
                "application/vnd.ms-excel"@,
                "application/vnd.ms-powerpoint"@,
            ],
        ),
        ("data"@, seq!["application/json"@, "application/xml"@]),
    ]
}

/// One category.
pub struct MimeBundle {
    pub id: &'static str,
    pub members: Vec<&'static str>,
}

pub open spec fn bundle_view(b: MimeBundle) -> (Seq<char>, Seq<Seq<char>>) {
    (b.id@, b.members.deep_view())
}

fn bundle1(id: &'static str, a: &'static str) -> (r: MimeBundle)
    ensures
        bundle_view(r) == (id@, seq![a@]),
{
    let mut members: Vec<&'static str> = Vec::new();
    members.push(a);
    proof {
        assert(members.deep_view() =~= seq![a@]);
    }
    MimeBundle { id, members }
}

/// The categories, each with the type prefixes that it stands for.
pub fn mime_bundle_table() -> (r: Vec<MimeBundle>)
    ensures
        r@.map_values(|b: MimeBundle| bundle_view(b)) == mime_bundles(),
{
    let mut office: Vec<&'static str> = Vec::new();
    office.push("application/vnd.openxmlformats-officedocument");
    office.push("application/msword");
    office.push("application/vnd.ms-excel");
    office.push("application/vnd.ms-powerpoint");
    let mut data: Vec<&'static str> = Vec::new();
    data.push("application/json");
    data.push("application/xml");
    let mut v: Vec<MimeBundle> = Vec::new();
    v.push(bundle1("images", "image/"));
    v.push(bundle1("pdfs", "application/pdf"));
    v.push(bundle1("text", "text/"));
    v.push(MimeBundle { id: "office", members: office });
    v.push(MimeBundle { id: "data", members: data });
    proof {
        assert(office.deep_view() =~= mime_bundles()[3].1);
        assert(data.deep_view() =~= mime_bundles()[4].1);
        assert(v@.map_values(|b: MimeBundle| bundle_view(b)) =~= mime_bundles());
    }
    v
}

/// The prefixes in lower case.
pub open spec fn lowered_all(v: Seq<Seq<char>>) -> Seq<Seq<char>> {
    v.map_values(|s: Seq<char>| lowered(s))
}

/// Some member of the category is among the prefixes, in any case.
pub open spec fn category_present(members: Seq<Seq<char>>, prefixes: Seq<Seq<char>>) -> bool {
    exists|i: int|
        0 <= i < members.len() && lowered_all(prefixes).contains(lowered(#[trigger] members[i]))
}

/// The categories of `table` that the prefixes name, in order.
pub open spec fn categories_of(
    table: Seq<(Seq<char>, Seq<Seq<char>>)>,
    prefixes: Seq<Seq<char>>,
) -> Seq<Seq<char>>
    decreases table.len(),
{
    if table.len() == 0 {
        Seq::empty()
    } else {
        let before = categories_of(table.drop_last(), prefixes);
        if category_present(table.last().1, prefixes) {
            before.push(table.last().0)
        } else {
            before
        }
    }
}

/// `out`, then those of the members that are not in it yet.
pub open spec fn with_members(out: Seq<Seq<char>>, members: Seq<Seq<char>>) -> Seq<Seq<char>>
    decreases members.len(),
{
    if members.len() == 0 {
        out
    } else {
        with_label(with_members(out, members.drop_last()), members.last())
    }
}

/// The prefixes of the chosen categories of `table`, in order, each once.
pub open spec fn prefixes_of(
    table: Seq<(Seq<char>, Seq<Seq<char>>)>,
    chosen: Seq<Seq<char>>,
) -> Seq<Seq<char>>
    decreases table.len(),
{
    if table.len() == 0 {
        Seq::empty()
    } else {
        let before = prefixes_of(table.drop_last(), chosen);
        if chosen.contains(table.last().0) {
            with_members(before, table.last().1)
        } else {
            before
        }
    }
}

fn lower_all(v: &Vec<String>) -> (r: Vec<String>)
    ensures
        r.deep_view() == lowered_all(v.deep_view()),
{
    let mut out: Vec<String> = Vec::new();
    let mut i: usize = 0;
    let ghost all = lowered_all(v.deep_view());
    while i < v.len()
        invariant
            all == lowered_all(v.deep_view()),
            i <= v@.len(),
            out.deep_view() == all.take(i as int),
        decreases v@.len() - i,
    {
        let low = ascii_lowercase(v[i].as_str());
        let ghost before = out.deep_view();
        out.push(low);
        proof {
            assert(out.deep_view() =~= before.push(low@));
            assert(all.take(i + 1) =~= all.take(i as int).push(all[i as int]));
        }
        i += 1;
    }
    proof {
        assert(all.take(i as int) =~= all);
    }
    out
}

fn any_member(members: &Vec<&'static str>, low: &Vec<String>, Ghost(prefixes): Ghost<
    Seq<Seq<char>>,
>) -> (r: bool)
    requires
        low.deep_view() == lowered_all(prefixes),
    ensures
        r == category_present(members.deep_view(), prefixes),
{
    let mut i: usize = 0;
    let ghost all = members.deep_view();
    while i < members.len()
        invariant
            all == members.deep_view(),
            low.deep_view() == lowered_all(prefixes),
            i <= members@.len(),
            forall|j: int|
                0 <= j < i ==> !lowered_all(prefixes).contains(lowered(#[trigger] all[j])),
        decreases members@.len() - i,
    {
        let m = ascii_lowercase(members[i]);
        proof {
            assert(all[i as int] == members@[i as int]@);
        }
        if holds(low, m.as_str()) {
            return true;
        }
        i += 1;
    }
    false
}

/// The categories that the prefixes name.
pub fn prefixes_to_bundles(prefixes: &Vec<String>) -> (r: Vec<String>)
    ensures
        r.deep_view() == categories_of(mime_bundles(), prefixes.deep_view()),
{
    let low = lower_all(prefixes);
    let table = mime_bundle_table();
    let ghost t = mime_bundles();
    let ghost p = prefixes.deep_view();
    let mut out: Vec<String> = Vec::new();
    let mut i: usize = 0;
    proof {
        assert(out.deep_view() =~= categories_of(t.take(0), p));
    }
    while i < table.len()
        invariant
            t == mime_bundles(),
            table@.map_values(|b: MimeBundle| bundle_view(b)) == t,
            low.deep_view() == lowered_all(p),
            i <= table@.len(),
            out.deep_view() == categories_of(t.take(i as int), p),
        decreases table@.len() - i,
    {
        proof {
            assert(t[i as int] == bundle_view(table@[i as int]));
            assert(t.take(i + 1).drop_last() =~= t.take(i as int));
            assert(t.take(i + 1).last() == t[i as int]);
        }
        if any_member(&table[i].members, &low, Ghost(p)) {
            let id = owned(table[i].id);
            let ghost before = out.deep_view();
            out.push(id);
            proof {
                assert(out.deep_view() =~= before.push(id@));
            }
        }
        i += 1;
    }
    proof {
        assert(t.len() == table@.len());
        assert(t.take(i as int) =~= t);
    }
    out
}

fn push_members(out: &mut Vec<String>, members: &Vec<&'static str>)
    ensures
        final(out).deep_view() == with_members(old(out).deep_view(), members.deep_view()),
{
    let ghost start = out.deep_view();
    let ghost all = members.deep_view();
    let mut i: usize = 0;
    proof {
        assert(all.take(0) =~= Seq::<Seq<char>>::empty());
    }
    while i < members.len()
        invariant
            all == members.deep_view(),
            i <= members@.len(),
            out.deep_view() == with_members(start, all.take(i as int)),
        decreases members@.len() - i,
    {
        proof {
            assert(all[i as int] == members@[i as int]@);
            assert(all.take(i + 1).drop_last() =~= all.take(i as int));
            assert(all.take(i + 1).last() == all[i as int]);
        }
        if !holds(out, members[i]) {
            let ghost before = out.deep_view();
            out.push(owned(members[i]));
            proof {
                assert(out.deep_view() =~= before.push(all[i as int]));
            }
        }
        i += 1;
    }
    proof {
        assert(all.take(i as int) =~= all);
    }
}

/// The prefixes of the chosen categories; an unknown category stands for
/// none.
pub fn bundles_to_prefixes(bundles: &Vec<String>) -> (r: Vec<String>)
    ensures
        r.deep_view() == prefixes_of(mime_bundles(), bundles.deep_view()),
{
    let table = mime_bundle_table();
    let ghost t = mime_bundles();
    let ghost chosen = bundles.deep_view();
    let mut out: Vec<String> = Vec::new();
    let mut i: usize = 0;
    proof {
        assert(out.deep_view() =~= prefixes_of(t.take(0), chosen));
    }
    while i < table.len()
        invariant
            t == mime_bundles(),
            table@.map_values(|b: MimeBundle| bundle_view(b)) == t,
            chosen == bundles.deep_view(),
            i <= table@.len(),
            out.deep_view() == prefixes_of(t.take(i as int), chosen),
        decreases table@.len() - i,
    {
        proof {
            assert(t[i as int] == bundle_view(table@[i as int]));
            assert(t.take(i + 1).drop_last() =~= t.take(i as int));
            assert(t.take(i + 1).last() == t[i as int]);
        }
        if holds(bundles, table[i].id) {
            push_members(&mut out, &table[i].members);
        }
        i += 1;
    }
    proof {
        assert(t.len() == table@.len());
        assert(t.take(i as int) =~= t);
    }
    out
}

/// The chosen categories of `table`, in its order.
pub open spec fn chosen_categories(
    table: Seq<(Seq<char>, Seq<Seq<char>>)>,
    chosen: Seq<Seq<char>>,
) -> Seq<Seq<char>>
    decreases table.len(),
{
    if table.len() == 0 {
        Seq::empty()
    } else {
        let before = chosen_categories(table.drop_last(), chosen);
        if chosen.contains(table.last().0) {
            before.push(table.last().0)
        } else {
            before
        }
    }
}

proof fn lemma_with_label_contains(v: Seq<Seq<char>>, x: Seq<char>, y: Seq<char>)
    ensures
        with_label(v, x).contains(y) <==> v.contains(y) || x == y,
{
    if v.contains(y) {
        let i = choose|i: int| 0 <= i < v.len() && v[i] == y;
        assert(with_label(v, x)[i] == y);
    }
    if x == y && !v.contains(x) {
        assert(v.push(x)[v.len() as int] == y);
    }
    if with_label(v, x).contains(y) && x != y {
        let i = choose|i: int| 0 <= i < with_label(v, x).len() && with_label(v, x)[i] == y;
        assert(v[i] == y);
    }
}

proof fn lemma_with_members_contains(out: Seq<Seq<char>>, members: Seq<Seq<char>>, y: Seq<char>)
    ensures
        with_members(out, members).contains(y) <==> out.contains(y) || members.contains(y),
    decreases members.len(),
{
    if members.len() > 0 {
        let init = members.drop_last();
        lemma_with_members_contains(out, init, y);
        lemma_with_label_contains(with_members(out, init), members.last(), y);
        if members.contains(y) {
            let i = choose|i: int| 0 <= i < members.len() && members[i] == y;
            if i < init.len() {
                assert(init[i] == y);
            }
        }
        if init.contains(y) {
            let i = choose|i: int| 0 <= i < init.len() && init[i] == y;
            assert(members[i] == y);
        }
        if members.last() == y {
            assert(members[members.len() - 1] == y);
        }
    }
}

/// A prefix is saved exactly when a chosen category has it.
pub proof fn lemma_prefixes_of(
    table: Seq<(Seq<char>, Seq<Seq<char>>)>,
    chosen: Seq<Seq<char>>,
    y: Seq<char>,
)
    ensures
        prefixes_of(table, chosen).contains(y) <==> exists|i: int|
            0 <= i < table.len() && chosen.contains((#[trigger] table[i]).0) && table[i].1.contains(
                y,
            ),
    decreases table.len(),
{
    if table.len() > 0 {
        let init = table.drop_last();
        let last = table.last();
        lemma_prefixes_of(init, chosen, y);
        lemma_with_members_contains(prefixes_of(init, chosen), last.1, y);
        if prefixes_of(table, chosen).contains(y) {
            if prefixes_of(init, chosen).contains(y) {
                let i = choose|i: int|
                    0 <= i < init.len() && chosen.contains((#[trigger] init[i]).0)
                        && init[i].1.contains(y);
                assert(table[i] == init[i]);
            } else {
                assert(table[table.len() - 1] == last);
            }
        }
        if exists|i: int|
            0 <= i < table.len() && chosen.contains((#[trigger] table[i]).0)
                && table[i].1.contains(y) {
            let i = choose|i: int|
                0 <= i < table.len() && chosen.contains((#[trigger] table[i]).0)
                    && table[i].1.contains(y);
            if i < init.len() {
                assert(init[i] == table[i]);
            }
        }
    }
}

/// Two members of different categories differ, whatever their case.
pub open spec fn categories_are_apart(table: Seq<(Seq<char>, Seq<Seq<char>>)>) -> bool {
    forall|i: int, j: int, a: int, b: int|
        #![trigger table[i].1[a], table[j].1[b]]
        0 <= i < table.len() && 0 <= j < table.len() && i != j && 0 <= a < table[i].1.len() && 0
            <= b < table[j].1.len() ==> lowered(table[i].1[a]) != lowered(table[j].1[b])
}

proof fn lemma_table_is_apart()
    ensures
        categories_are_apart(mime_bundles()),
        forall|i: int| 0 <= i < mime_bundles().len() ==> (#[trigger] mime_bundles()[i]).1.len() > 0,
{
    reveal_strlit("image/");
    reveal_strlit("application/pdf");
    reveal_strlit("text/");
    reveal_strlit("application/vnd.openxmlformats-officedocument");
    reveal_strlit("application/msword");
    reveal_strlit("application/vnd.ms-excel");
    reveal_strlit("application/vnd.ms-powerpoint");
    reveal_strlit("application/json");
    reveal_strlit("application/xml");
    let t = mime_bundles();
    let pdf = t[1].1[0];
    let xml = t[4].1[1];
    assert(lowered(pdf)[12] == 'p' && lowered(xml)[12] == 'x');
    assert(t[0].1[0].len() == 6);
    assert(t[1].1[0].len() == 15);
    assert(t[2].1[0].len() == 5);
    assert(t[3].1[0].len() == 45);
    assert(t[3].1[1].len() == 18);
    assert(t[3].1[2].len() == 24);
    assert(t[3].1[3].len() == 29);
    assert(t[4].1[0].len() == 16);
    assert(t[4].1[1].len() == 15);
    assert forall|i: int, j: int, a: int, b: int|
        #![trigger t[i].1[a], t[j].1[b]]
        0 <= i < t.len() && 0 <= j < t.len() && i != j && 0 <= a < t[i].1.len() && 0 <= b
            < t[j].1.len() implies lowered(t[i].1[a]) != lowered(t[j].1[b]) by {
        assert(lowered(t[i].1[a]).len() == t[i].1[a].len());
        assert(lowered(t[j].1[b]).len() == t[j].1[b].len());
    }
}

proof fn lemma_category_present(chosen: Seq<Seq<char>>, k: int)
    requires
        0 <= k < mime_bundles().len(),
    ensures
        category_present(mime_bundles()[k].1, prefixes_of(mime_bundles(), chosen))
            <==> chosen.contains(mime_bundles()[k].0),
{
    let t = mime_bundles();
    let out = prefixes_of(t, chosen);
    let low = lowered_all(out);
    lemma_table_is_apart();
    if chosen.contains(t[k].0) {
        let m = t[k].1[0];
        assert(t[k].1.contains(m));
        lemma_prefixes_of(t, chosen, m);
        let i = choose|i: int| 0 <= i < out.len() && out[i] == m;
        assert(low[i] == lowered(m));
        assert(low.contains(lowered(t[k].1[0])));
    }
    if category_present(t[k].1, out) {
        let a = choose|a: int|
            0 <= a < t[k].1.len() && low.contains(lowered(#[trigger] t[k].1[a]));
        let i = choose|i: int| 0 <= i < low.len() && low[i] == lowered(t[k].1[a]);
        let y = out[i];
        assert(out.contains(y));
        lemma_prefixes_of(t, chosen, y);
        let j = choose|j: int|
            0 <= j < t.len() && chosen.contains((#[trigger] t[j]).0) && t[j].1.contains(y);
        let b = choose|b: int| 0 <= b < t[j].1.len() && t[j].1[b] == y;
        if j != k {
            assert(lowered(t[k].1[a]) != lowered(t[j].1[b]));
        }
    }
}

proof fn lemma_round_trip(chosen: Seq<Seq<char>>, n: int)
    requires
        0 <= n <= mime_bundles().len(),
    ensures
        categories_of(mime_bundles().take(n), prefixes_of(mime_bundles(), chosen))
            == chosen_categories(mime_bundles().take(n), chosen),
    decreases n,
{
    let t = mime_bundles();
    if n > 0 {
        lemma_round_trip(chosen, n - 1);
        assert(t.take(n).drop_last() =~= t.take(n - 1));
        assert(t.take(n).last() == t[n - 1]);
        lemma_category_present(chosen, n - 1);
    }
}

/// Saving categories and reading them back gives the chosen ones, in the
/// order of the settings; unknown ones are dropped.
pub proof fn categories_are_read_back(chosen: Seq<Seq<char>>)
    ensures
        categories_of(mime_bundles(), prefixes_of(mime_bundles(), chosen)) == chosen_categories(
            mime_bundles(),
            chosen,
        ),
{
    let t = mime_bundles();
    lemma_round_trip(chosen, t.len() as int);
    assert(t.take(t.len() as int) =~= t);
}

// ---------------------------------------------------------------------------
// Trust levels
// ---------------------------------------------------------------------------

/// The place of a trust level in ascending order.
pub open spec fn trust_rank(t: TrustLevel) -> int {
    match t {
        TrustLevel::Unknown => 0,
        TrustLevel::Neutral => 1,
        TrustLevel::Known => 2,
        TrustLevel::Trusted => 3,
        TrustLevel::AuthUser => 4,
    }
}

fn rank_of_trust(t: TrustLevel) -> (r: u8)
    ensures
        r == trust_rank(t),
{
    match t {
        TrustLevel::Unknown => 0,
        TrustLevel::Neutral => 1,
        TrustLevel::Known => 2,
        TrustLevel::Trusted => 3,
        TrustLevel::AuthUser => 4,
    }
}

/// The name of a trust level.
pub open spec fn trust_name(t: TrustLevel) -> Seq<char> {
    match t {
        TrustLevel::Unknown => "Unknown"@,
        TrustLevel::Neutral => "Neutral"@,
        TrustLevel::Known => "Known"@,
        TrustLevel::Trusted => "Trusted"@,
        TrustLevel::AuthUser => "AuthUser"@,
    }
}

/// The name of a trust level.
pub fn trust_level_to_string(t: TrustLevel) -> (r: &'static str)
    ensures
        r@ == trust_name(t),
{
    match t {
        TrustLevel::Unknown => "Unknown",
        TrustLevel::Neutral => "Neutral",
        TrustLevel::Known => "Known",
        TrustLevel::Trusted => "Trusted",
        TrustLevel::AuthUser => "AuthUser",
    }
}

/// The trust level of that name.
pub open spec fn trust_of_name(s: Seq<char>) -> Option<TrustLevel> {
    if s == "Unknown"@ {
        Some(TrustLevel::Unknown)
    } else if s == "Neutral"@ {
        Some(TrustLevel::Neutral)
    } else if s == "Known"@ {
        Some(TrustLevel::Known)
    } else if s == "Trusted"@ {
        Some(TrustLevel::Trusted)
    } else if s == "AuthUser"@ {
        Some(TrustLevel::AuthUser)
    } else {
        None
    }
}

/// The trust level of that name, if it is one.
pub fn trust_level_from_string(s: &str) -> (r: Option<TrustLevel>)
    ensures
        r == trust_of_name(s@),
{
    if str_eq(s, "Unknown") {
        Some(TrustLevel::Unknown)
    } else if str_eq(s, "Neutral") {
        Some(TrustLevel::Neutral)
    } else if str_eq(s, "Known") {
        Some(TrustLevel::Known)
    } else if str_eq(s, "Trusted") {
        Some(TrustLevel::Trusted)
    } else if str_eq(s, "AuthUser") {
        Some(TrustLevel::AuthUser)
    } else {
        None
    }
}

/// A trust level is read back from its name.
pub proof fn trust_names_are_read_back(t: TrustLevel)
    ensures
        trust_of_name(trust_name(t)) == Some(t),
{
    reveal_strlit("Unknown");
    reveal_strlit("Neutral");
    reveal_strlit("Known");
    reveal_strlit("Trusted");
    reveal_strlit("AuthUser");
    assert("Unknown"@[0] == 'U' && "Neutral"@[0] == 'N' && "Known"@[0] == 'K');
    assert("Trusted"@[0] == 'T' && "AuthUser"@[0] == 'A');
}

// ---------------------------------------------------------------------------
// Reading and saving
// ---------------------------------------------------------------------------

/// The bytes of so many megabytes, as far as they can be counted.
pub open spec fn megabytes(mb: u64) -> u64 {
    if mb * 1_048_576 > u64::MAX {
        u64::MAX
    } else {
        (mb * 1_048_576) as u64
    }
}

fn megabytes_of(mb: u64) -> (r: u64)
    ensures
        r == megabytes(mb),
{
    if mb > 0xfff_ffff_ffff {
        u64::MAX
    } else {
        mb * 1_048_576
    }
}

/// `s` shows the policy.
pub open spec fn shows_policy(s: AttachmentPolicySettings, p: AttachmentPolicy) -> bool {
    &&& s.mime_bundles.deep_view() == categories_of(mime_bundles(), p.mime_allowlist.deep_view())
    &&& s.max_attachment_mb == p.max_attachment_bytes / 1_048_576
    &&& s.max_event_mb == p.max_event_bytes / 1_048_576
    &&& s.min_inline_trust@ == trust_name(p.min_inline_trust)
    &&& s.min_download_trust@ == trust_name(p.min_download_trust)
    &&& s.byte_ttl_days == p.byte_ttl_days
}

/// The attachment policy, as the settings show it.
pub fn get_attachment_policy_settings(p: &AttachmentPolicy) -> (r: AttachmentPolicySettings)
    ensures
        shows_policy(r, *p),
{
    AttachmentPolicySettings {
        mime_bundles: prefixes_to_bundles(&p.mime_allowlist),
        max_attachment_mb: p.max_attachment_bytes / 1_048_576,
        max_event_mb: p.max_event_bytes / 1_048_576,
        min_inline_trust: owned(trust_level_to_string(p.min_inline_trust)),
        min_download_trust: owned(trust_level_to_string(p.min_download_trust)),
        byte_ttl_days: p.byte_ttl_days,
    }
}

/// Why a policy is refused, if it is: the first of these that holds.
pub open spec fn policy_refusal(
    chosen: Seq<Seq<char>>,
    attachment_mb: u64,
    event_mb: u64,
    inline: Seq<char>,
    download: Seq<char>,
    ttl_days: u32,
) -> Option<Seq<char>> {
    if prefixes_of(mime_bundles(), chosen).len() == 0 {
        Some(
            "Pick at least one file category — leaving everything off would drop every attachment Athen ever sees."@,
        )
    } else if trust_of_name(inline) is None {
        Some("Invalid min_inline_trust: "@ + inline)
    } else if trust_of_name(download) is None {
        Some("Invalid min_download_trust: "@ + download)
    } else if trust_rank(trust_of_name(inline)->0) < trust_rank(trust_of_name(download)->0) {
        Some(
            "Inline trust must be at or above download trust — auto-inlining a sender we wouldn't even download from is incoherent."@,
        )
    } else if event_mb < attachment_mb {
        Some("Per-message total must be at least as large as the per-file cap."@)
    } else if ttl_days == 0 {
        Some("TTL must be at least 1 day. Use a long value to effectively disable."@)
    } else {
        None
    }
}

/// The policy to save, or why it is refused.
pub fn save_attachment_policy_settings(
    mime_bundle_ids: &Vec<String>,
    max_attachment_mb: u64,
    max_event_mb: u64,
    min_inline_trust: &str,
    min_download_trust: &str,
    byte_ttl_days: u32,
) -> (r: Result<AttachmentPolicy, String>)
    ensures
        match r {
            Ok(p) => {
                &&& policy_refusal(
                    mime_bundle_ids.deep_view(),
                    max_attachment_mb,
                    max_event_mb,
                    min_inline_trust@,
                    min_download_trust@,
                    byte_ttl_days,
                ) is None
                &&& p.mime_allowlist.deep_view() == prefixes_of(
                    mime_bundles(),
                    mime_bundle_ids.deep_view(),
                )
                &&& p.max_attachment_bytes == megabytes(max_attachment_mb)
                &&& p.max_event_bytes == megabytes(max_event_mb)
                &&& trust_of_name(min_inline_trust@) == Some(p.min_inline_trust)
                &&& trust_of_name(min_download_trust@) == Some(p.min_download_trust)
                &&& p.byte_ttl_days == byte_ttl_days
            },
            Err(e) => policy_refusal(
                mime_bundle_ids.deep_view(),
                max_attachment_mb,
                max_event_mb,
                min_inline_trust@,
                min_download_trust@,
                byte_ttl_days,
            ) == Some(e@),
        },
{
    let allowlist = bundles_to_prefixes(mime_bundle_ids);
    proof {
        assert(allowlist.deep_view().len() == allowlist@.len());
    }
    if allowlist.len() == 0 {
        return Err(
            owned(
                "Pick at least one file category — leaving everything off would drop every attachment Athen ever sees.",
            ),
        );
    }
    let inline = match trust_level_from_string(min_inline_trust) {
        Some(t) => t,
        None => {
            return Err(cat2("Invalid min_inline_trust: ", min_inline_trust));
        },
    };
    let download = match trust_level_from_string(min_download_trust) {
        Some(t) => t,
        None => {
            return Err(cat2("Invalid min_download_trust: ", min_download_trust));
        },
    };
    if rank_of_trust(inline) < rank_of_trust(download) {
        return Err(
            owned(
                "Inline trust must be at or above download trust — auto-inlining a sender we wouldn't even download from is incoherent.",
            ),
        );
    }
    if max_event_mb < max_attachment_mb {
        return Err(owned("Per-message total must be at least as large as the per-file cap."));
    }
    if byte_ttl_days == 0 {
        return Err(
            owned("TTL must be at least 1 day. Use a long value to effectively disable."),
        );
    }
    Ok(
        AttachmentPolicy {
            mime_allowlist: allowlist,
            max_attachment_bytes: megabytes_of(max_attachment_mb),
            max_event_bytes: megabytes_of(max_event_mb),
            min_inline_trust: inline,
            min_download_trust: download,
            byte_ttl_days,
        },
    )
}

/// A size that can be counted in bytes is shown as it was saved.
pub proof fn sizes_are_read_back(mb: u64)
    requires
        mb * 1_048_576 <= u64::MAX,
    ensures
        megabytes(mb) / 1_048_576 == mb,
{
    assert((mb * 1_048_576) / 1_048_576 == mb) by (nonlinear_arith);
}

/// A saved policy never inlines from senders that it would not download from,
/// and a whole message may be at least as large as a file.
pub proof fn saved_policies_are_coherent(
    chosen: Seq<Seq<char>>,
    attachment_mb: u64,
    event_mb: u64,
    inline: TrustLevel,
    download: TrustLevel,
    ttl_days: u32,
)
    requires
        policy_refusal(
            chosen,
            attachment_mb,
            event_mb,
            trust_name(inline),
            trust_name(download),
            ttl_days,
        ) is None,
    ensures
        trust_rank(inline) >= trust_rank(download),
        megabytes(event_mb) >= megabytes(attachment_mb),
        ttl_days > 0,
{
    trust_names_are_read_back(inline);
    trust_names_are_read_back(download);
    assert(event_mb >= attachment_mb);
    assert(event_mb * 1_048_576 >= attachment_mb * 1_048_576) by (nonlinear_arith)
        requires
            event_mb >= attachment_mb,
    ;
}

// ---------------------------------------------------------------------------
// What the attachment settings promise
// ---------------------------------------------------------------------------

/// The categories are told table row by table row, in order: one is on exactly
/// where some prefix of it is allowed, in any case.
pub proof fn categories_are_told_in_order(
    a: Seq<(Seq<char>, Seq<Seq<char>>)>,
    b: Seq<(Seq<char>, Seq<Seq<char>>)>,
    row: (Seq<char>, Seq<Seq<char>>),
    prefixes: Seq<Seq<char>>,
)
    ensures
        categories_of(a + b, prefixes) == categories_of(a, prefixes) + categories_of(b, prefixes),
        (exists|i: int, j: int|
            0 <= i < row.1.len() && 0 <= j < prefixes.len() && lowered(#[trigger] row.1[i])
                == lowered(#[trigger] prefixes[j])) ==> categories_of(seq![row], prefixes) == seq![
            row.0,
        ],
        !(exists|i: int, j: int|
            0 <= i < row.1.len() && 0 <= j < prefixes.len() && lowered(#[trigger] row.1[i])
                == lowered(#[trigger] prefixes[j])) ==> categories_of(seq![row], prefixes).len()
            == 0,
    decreases b.len(),
{
    if b.len() == 0 {
        assert(a + b =~= a);
        assert(categories_of(a, prefixes) + categories_of(b, prefixes) =~= categories_of(
            a,
            prefixes,
        ));
    } else {
        categories_are_told_in_order(a, b.drop_last(), row, prefixes);
        assert((a + b).drop_last() =~= a + b.drop_last());
        assert(categories_of(a + b, prefixes) =~= categories_of(a, prefixes) + categories_of(
            b,
            prefixes,
        ));
    }
    assert(seq![row].drop_last() =~= Seq::<(Seq<char>, Seq<Seq<char>>)>::empty());
    reveal_with_fuel(categories_of, 2);
    let low = lowered_all(prefixes);
    if exists|i: int, j: int|
        0 <= i < row.1.len() && 0 <= j < prefixes.len() && lowered(#[trigger] row.1[i]) == lowered(
            #[trigger] prefixes[j],
        ) {
        let (i, j) = choose|i: int, j: int|
            0 <= i < row.1.len() && 0 <= j < prefixes.len() && lowered(#[trigger] row.1[i])
                == lowered(#[trigger] prefixes[j]);
        assert(low[j] == lowered(row.1[i]));
        assert(low.contains(lowered(row.1[i])));
        assert(category_present(row.1, prefixes));
        assert(categories_of(seq![row], prefixes) =~= seq![row.0]);
    } else if category_present(row.1, prefixes) {
        let i = choose|i: int| 0 <= i < row.1.len() && low.contains(lowered(#[trigger] row.1[i]));
        let j = choose|j: int| 0 <= j < low.len() && low[j] == lowered(row.1[i]);
        assert(lowered(row.1[i]) == lowered(prefixes[j]));
    }
}

/// A prefix is allowed exactly where a category that was chosen has it.
pub proof fn chosen_categories_allow_their_prefixes(
    table: Seq<(Seq<char>, Seq<Seq<char>>)>,
    chosen: Seq<Seq<char>>,
    prefix: Seq<char>,
)
    ensures
        prefixes_of(table, chosen).contains(prefix) <==> exists|i: int|
            0 <= i < table.len() && chosen.contains((#[trigger] table[i]).0)
                && table[i].1.contains(prefix),
{
    lemma_prefixes_of(table, chosen, prefix);
}

/// Trust grows from an unknown sender over a neutral, a known and a trusted
/// one to the owner, and each level is read by its name alone.
pub proof fn trust_grows_by_level(s: Seq<char>)
    ensures
        trust_rank(TrustLevel::Unknown) < trust_rank(TrustLevel::Neutral) < trust_rank(
            TrustLevel::Known,
        ) < trust_rank(TrustLevel::Trusted) < trust_rank(TrustLevel::AuthUser),
        trust_of_name(s) == Some(TrustLevel::Unknown) <==> s == "Unknown"@,
        trust_of_name(s) == Some(TrustLevel::Neutral) <==> s == "Neutral"@,
        trust_of_name(s) == Some(TrustLevel::Known) <==> s == "Known"@,
        trust_of_name(s) == Some(TrustLevel::Trusted) <==> s == "Trusted"@,
        trust_of_name(s) == Some(TrustLevel::AuthUser) <==> s == "AuthUser"@,
{
    reveal_strlit("Unknown");
    reveal_strlit("Neutral");
    reveal_strlit("Known");
    reveal_strlit("Trusted");
    reveal_strlit("AuthUser");
    assert("Unknown"@[0] == 'U' && "Neutral"@[0] == 'N' && "Known"@[0] == 'K' && "Trusted"@[0]
        == 'T' && "AuthUser"@[0] == 'A');
}

/// A size in megabytes is that many times two to the twentieth, as long as a
/// number of bytes can hold it, and else the greatest number.
pub proof fn sizes_are_binary_megabytes(mb: u64)
    ensures
        mb * 1_048_576 <= u64::MAX ==> megabytes(mb) == mb * 1_048_576,
        mb * 1_048_576 > u64::MAX ==> megabytes(mb) == u64::MAX,
{
}

/// The page shows the policy in whole megabytes, with the names of its trust
/// levels.
pub proof fn policies_are_shown(s: AttachmentPolicySettings, p: AttachmentPolicy)
    requires
        shows_policy(s, p),
    ensures
        s.mime_bundles.deep_view() == categories_of(mime_bundles(), p.mime_allowlist.deep_view()),
        s.max_attachment_mb * 1_048_576 <= p.max_attachment_bytes < (s.max_attachment_mb + 1)
            * 1_048_576,
        s.max_event_mb * 1_048_576 <= p.max_event_bytes < (s.max_event_mb + 1) * 1_048_576,
        trust_of_name(s.min_inline_trust@) == Some(p.min_inline_trust),
        trust_of_name(s.min_download_trust@) == Some(p.min_download_trust),
        s.byte_ttl_days == p.byte_ttl_days,
{
    trust_names_are_read_back(p.min_inline_trust);
    trust_names_are_read_back(p.min_download_trust);
}

/// A policy is accepted exactly where some category is on, both trust levels
/// are known, inlining asks for at least as much trust as downloading, a
/// message may hold at least one file, and files are kept for a day at least.
pub proof fn policies_are_accepted_where_they_make_sense(
    chosen: Seq<Seq<char>>,
    attachment_mb: u64,
    event_mb: u64,
    inline: Seq<char>,
    download: Seq<char>,
    ttl_days: u32,
)
    ensures
        ({
            let r = policy_refusal(chosen, attachment_mb, event_mb, inline, download, ttl_days);
            let some_category = prefixes_of(mime_bundles(), chosen).len() > 0;
            let known = trust_of_name(inline) is Some && trust_of_name(download) is Some;
            let coherent = known && trust_rank(trust_of_name(inline)->0) >= trust_rank(
                trust_of_name(download)->0,
            );
            &&& r is None <==> some_category && coherent && event_mb >= attachment_mb && ttl_days
                > 0
            &&& some_category && trust_of_name(inline) is None ==> r == Some(
                "Invalid min_inline_trust: "@ + inline,
            )
            &&& some_category && trust_of_name(inline) is Some && trust_of_name(download) is None
                ==> r == Some("Invalid min_download_trust: "@ + download)
            &&& some_category && coherent && event_mb < attachment_mb ==> r == Some(
                "Per-message total must be at least as large as the per-file cap."@,
            )
            &&& some_category && coherent && event_mb >= attachment_mb && ttl_days == 0 ==> r
                == Some("TTL must be at least 1 day. Use a long value to effectively disable."@)
        }),
{
}

/// The categories that can be chosen, each with the prefixes it stands for.
pub proof fn categories_stand_for_prefixes(i: int)
    requires
        0 <= i < mime_bundles().len(),
    ensures
        mime_bundles().len() == 5,
        i == 0 ==> mime_bundles()[i] == ("images"@, seq!["image/"@]),
        i == 1 ==> mime_bundles()[i] == ("pdfs"@, seq!["application/pdf"@]),
        i == 2 ==> mime_bundles()[i] == ("text"@, seq!["text/"@]),
        i == 3 ==> mime_bundles()[i] == (
            "office"@,
            seq![
                "application/vnd.openxmlformats-officedocument"@,
                "application/msword"@,
                "application/vnd.ms-excel"@,
                "application/vnd.ms-powerpoint"@,
            ],
        ),
        i == 4 ==> mime_bundles()[i] == ("data"@, seq!["application/json"@, "application/xml"@]),
{
}

/// What was chosen is told back in the order of the table, without what the
/// table does not have.
pub proof fn choices_follow_the_table(
    a: Seq<(Seq<char>, Seq<Seq<char>>)>,
    b: Seq<(Seq<char>, Seq<Seq<char>>)>,
    row: (Seq<char>, Seq<Seq<char>>),
    chosen: Seq<Seq<char>>,
)
    ensures
        chosen_categories(a + b, chosen) == chosen_categories(a, chosen) + chosen_categories(
            b,
            chosen,
        ),
        chosen.contains(row.0) ==> chosen_categories(seq![row], chosen) == seq![row.0],
        !chosen.contains(row.0) ==> chosen_categories(seq![row], chosen).len() == 0,
    decreases b.len(),
{
    if b.len() == 0 {
        assert(a + b =~= a);
        assert(chosen_categories(a, chosen) + chosen_categories(b, chosen) =~= chosen_categories(
            a,
            chosen,
        ));
    } else {
        choices_follow_the_table(a, b.drop_last(), row, chosen);
        assert((a + b).drop_last() =~= a + b.drop_last());
        assert(chosen_categories(a + b, chosen) =~= chosen_categories(a, chosen)
            + chosen_categories(b, chosen));
    }
    assert(seq![row].drop_last() =~= Seq::<(Seq<char>, Seq<Seq<char>>)>::empty());
    assert(seq![row].last() == row);
    reveal_with_fuel(chosen_categories, 2);
    if chosen.contains(row.0) {
        assert(chosen_categories(seq![row], chosen) =~= seq![row.0]);
    }
}

} // verus!
