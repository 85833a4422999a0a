//! Text operations on `Seq<char>` models: searching, trimming, splitting,
//! joining, ASCII case folding, decimal numerals and UTF-8 byte budgets.

use vstd::prelude::*;
use vstd::string::*;
use vstd::utf8::{char_is_scalar, encode_scalar, encode_utf8, encode_utf8_decode_utf8};

verus! {

/// `String::push` appends the given character to the end of the string.
pub assume_specification[ String::push ](s: &mut String, c: char)
    ensures
        final(s)@ == old(s)@.push(c),
;

// ---------------------------------------------------------------------------
// Character classes
// ---------------------------------------------------------------------------

/// The Unicode `White_Space` property.
pub open spec fn is_white_space(c: char) -> bool {
    let v = c as u32;
    ||| 0x9 <= v <= 0xd
    ||| v == 0x20
    ||| v == 0x85
    ||| v == 0xa0
    ||| v == 0x1680
    ||| 0x2000 <= v <= 0x200a
    ||| v == 0x2028
    ||| v == 0x2029
    ||| v == 0x202f
    ||| v == 0x205f
    ||| v == 0x3000
}

/// A set of characters to search for or to trim.
#[derive(Clone, Copy, Debug)]
pub enum CharClass {
    /// Unicode white space.
    WhiteSpace,
    /// Exactly one character.
    Is(char),
    /// White space, double quotes, single quotes and backticks.
    QuoteOrSpace,
}

impl CharClass {
    pub open spec fn has(self, c: char) -> bool {
        match self {
            CharClass::WhiteSpace => is_white_space(c),
            CharClass::Is(x) => c == x,
            CharClass::QuoteOrSpace => c == '"' || c == '`' || c == '\'' || is_white_space(c),
        }
    }

    /// Does the class hold `c`?
    pub fn test(&self, c: char) -> (r: bool)
        ensures
            r == self.has(c),
    {
        match self {
            CharClass::WhiteSpace => white_space(c),
            CharClass::Is(x) => c == *x,
            CharClass::QuoteOrSpace => c == '"' || c == '`' || c == '\'' || white_space(c),
        }
    }
}

/// Does `c` have the Unicode `White_Space` property?
pub fn white_space(c: char) -> (r: bool)
    ensures
        r == is_white_space(c),
{
    let v: u32 = c as u32;
    (0x9 <= v && v <= 0xd) || v == 0x20 || v == 0x85 || v == 0xa0 || v == 0x1680 || (0x2000 <= v
        && v <= 0x200a) || v == 0x2028 || v == 0x2029 || v == 0x202f || v == 0x205f || v == 0x3000
}

// ---------------------------------------------------------------------------
// Between strings and character vectors
// ---------------------------------------------------------------------------

/// The characters of `s`, in order.
pub fn chars_of(s: &str) -> (r: Vec<char>)
    ensures
        r@ == s@,
{
    let mut out: Vec<char> = Vec::new();
    for c in it: s.chars()
        invariant
            it.seq() == s@,
            out@ == s@.take(it.index()),
    {
        proof {
            assert(s@.take(it.index() + 1) =~= s@.take(it.index()).push(s@[it.index()]));
        }
        out.push(c);
    }
    proof {
        assert(s@.take(s@.len() as int) =~= s@);
    }
    out
}

/// The string made of the characters `v[a..b]`.
pub fn string_of(v: &Vec<char>, a: usize, b: usize) -> (r: String)
    requires
        a <= b <= v@.len(),
    ensures
        r@ == v@.subrange(a as int, b as int),
{
    let mut out = String::new();
    let mut i: usize = a;
    while i < b
        invariant
            a <= i <= b <= v@.len(),
            out@ == v@.subrange(a as int, i as int),
        decreases b - i,
    {
        out.push(v[i]);
        i += 1;
        proof {
            assert(v@.subrange(a as int, i as int) =~= v@.subrange(a as int, i - 1).push(v@[i - 1]));
        }
    }
    proof {
        assert(v@.subrange(a as int, a as int) =~= Seq::<char>::empty());
    }
    out
}

/// Two strings are equal exactly when they hold the same characters.
pub fn str_eq(a: &str, b: &str) -> (r: bool)
    ensures
        r == (a@ == b@),
{
    let x = a.as_bytes();
    let y = b.as_bytes();
    proof {
        encode_utf8_decode_utf8(a@);
        encode_utf8_decode_utf8(b@);
    }
    if x.len() != y.len() {
        return false;
    }
    let mut i: usize = 0;
    while i < x.len()
        invariant
            i <= x@.len(),
            x@.len() == y@.len(),
            x@ == encode_utf8(a@),
            y@ == encode_utf8(b@),
            forall|j: int| 0 <= j < i ==> x@[j] == y@[j],
        decreases x@.len() - i,
    {
        if x[i] != y[i] {
            return false;
        }
        i += 1;
    }
    proof {
        assert(x@ =~= y@);
    }
    true
}

/// An owned copy of `s`.
pub fn owned(s: &str) -> (r: String)
    ensures
        r@ == s@,
{
    s.to_owned()
}

/// Two, three or four pieces put one after the other.
pub fn cat2(a: &str, b: &str) -> (r: String)
    ensures
        r@ == a@ + b@,
{
    let mut r = a.to_owned();
    r.append(b);
    r
}

pub fn cat3(a: &str, b: &str, c: &str) -> (r: String)
    ensures
        r@ == a@ + b@ + c@,
{
    let mut r = a.to_owned();
    r.append(b);
    r.append(c);
    r
}

pub fn cat4(a: &str, b: &str, c: &str, d: &str) -> (r: String)
    ensures
        r@ == a@ + b@ + c@ + d@,
{
    let mut r = a.to_owned();
    r.append(b);
    r.append(c);
    r.append(d);
    r
}

pub fn cat5(a: &str, b: &str, c: &str, d: &str, e: &str) -> (r: String)
    ensures
        r@ == a@ + b@ + c@ + d@ + e@,
{
    let mut r = a.to_owned();
    r.append(b);
    r.append(c);
    r.append(d);
    r.append(e);
    r
}

// ---------------------------------------------------------------------------
// Searching
// ---------------------------------------------------------------------------

/// The first index from `i` on whose character is in `k`, or the length.
pub open spec fn first_from(s: Seq<char>, k: CharClass, i: int) -> int
    decreases s.len() - i,
{
    if i >= s.len() || i < 0 {
        s.len() as int
    } else if k.has(s[i]) {
        i
    } else {
        first_from(s, k, i + 1)
    }
}

/// The first index from `i` on whose character is not in `k`, or the length.
pub open spec fn skip_from(s: Seq<char>, k: CharClass, i: int) -> int
    decreases s.len() - i,
{
    if i >= s.len() || i < 0 {
        s.len() as int
    } else if !k.has(s[i]) {
        i
    } else {
        skip_from(s, k, i + 1)
    }
}

/// The greatest index below `j` whose character is in `k`, or `-1`.
pub open spec fn last_before(s: Seq<char>, k: CharClass, j: int) -> int
    decreases j,
{
    if j <= 0 || j > s.len() {
        -1
    } else if k.has(s[j - 1]) {
        j - 1
    } else {
        last_before(s, k, j - 1)
    }
}

/// The least `e` such that `s[e..j]` lies in `k`.
pub open spec fn tail_before(s: Seq<char>, k: CharClass, j: int) -> int
    decreases j,
{
    if j <= 0 || j > s.len() {
        0
    } else if !k.has(s[j - 1]) {
        j
    } else {
        tail_before(s, k, j - 1)
    }
}

/// The first index from `i` on at which `p` occurs, or `-1`.
pub open spec fn find_from(s: Seq<char>, p: Seq<char>, i: int) -> int
    decreases s.len() - i + 1,
{
    if i < 0 || i + p.len() > s.len() {
        -1
    } else if s.subrange(i, i + p.len()) == p {
        i
    } else {
        find_from(s, p, i + 1)
    }
}

/// Where `first_from` ends up.
pub proof fn lemma_first_from(s: Seq<char>, k: CharClass, i: int)
    requires
        0 <= i <= s.len(),
    ensures
        i <= first_from(s, k, i) <= s.len(),
        forall|j: int| i <= j < first_from(s, k, i) ==> !k.has(#[trigger] s[j]),
        first_from(s, k, i) < s.len() ==> k.has(s[first_from(s, k, i)]),
    decreases s.len() - i,
{
    if i < s.len() && !k.has(s[i]) {
        lemma_first_from(s, k, i + 1);
    }
}

/// Where `skip_from` ends up.
pub proof fn lemma_skip_from(s: Seq<char>, k: CharClass, i: int)
    requires
        0 <= i <= s.len(),
    ensures
        i <= skip_from(s, k, i) <= s.len(),
        forall|j: int| i <= j < skip_from(s, k, i) ==> k.has(#[trigger] s[j]),
        skip_from(s, k, i) < s.len() ==> !k.has(s[skip_from(s, k, i)]),
    decreases s.len() - i,
{
    if i < s.len() && k.has(s[i]) {
        lemma_skip_from(s, k, i + 1);
    }
}

/// Where `last_before` ends up.
pub proof fn lemma_last_before(s: Seq<char>, k: CharClass, j: int)
    requires
        0 <= j <= s.len(),
    ensures
        -1 <= last_before(s, k, j) < j || (j == 0 && last_before(s, k, j) == -1),
        forall|i: int| last_before(s, k, j) < i < j ==> !k.has(#[trigger] s[i]),
        last_before(s, k, j) >= 0 ==> k.has(s[last_before(s, k, j)]),
    decreases j,
{
    if j > 0 && !k.has(s[j - 1]) {
        lemma_last_before(s, k, j - 1);
    }
}

/// Where `tail_before` ends up.
pub proof fn lemma_tail_before(s: Seq<char>, k: CharClass, j: int)
    requires
        0 <= j <= s.len(),
    ensures
        0 <= tail_before(s, k, j) <= j,
        forall|i: int| tail_before(s, k, j) <= i < j ==> k.has(#[trigger] s[i]),
        tail_before(s, k, j) > 0 ==> !k.has(s[tail_before(s, k, j) - 1]),
    decreases j,
{
    if j > 0 && k.has(s[j - 1]) {
        lemma_tail_before(s, k, j - 1);
    }
}

/// Where `find_from` ends up.
pub proof fn lemma_find_from(s: Seq<char>, p: Seq<char>, i: int)
    requires
        0 <= i,
    ensures
        find_from(s, p, i) == -1 || i <= find_from(s, p, i) <= s.len() - p.len(),
        find_from(s, p, i) >= 0 ==> s.subrange(find_from(s, p, i), find_from(s, p, i) + p.len())
            == p,
    decreases s.len() - i + 1,
{
    if i + p.len() <= s.len() && s.subrange(i, i + p.len()) != p {
        lemma_find_from(s, p, i + 1);
    }
}

/// The first index from `i` on whose character is in `k`, or the length.
pub fn first_index(v: &Vec<char>, k: CharClass, i: usize) -> (r: usize)
    requires
        i <= v@.len(),
    ensures
        r == first_from(v@, k, i as int),
        i <= r <= v@.len(),
{
    let mut j: usize = i;
    while j < v.len() && !k.test(v[j])
        invariant
            i <= j <= v@.len(),
            first_from(v@, k, i as int) == first_from(v@, k, j as int),
        decreases v@.len() - j,
    {
        j += 1;
    }
    j
}

/// The first index from `i` on whose character is not in `k`, or the length.
pub fn skip_index(v: &Vec<char>, k: CharClass, i: usize) -> (r: usize)
    requires
        i <= v@.len(),
    ensures
        r == skip_from(v@, k, i as int),
        i <= r <= v@.len(),
{
    let mut j: usize = i;
    while j < v.len() && k.test(v[j])
        invariant
            i <= j <= v@.len(),
            skip_from(v@, k, i as int) == skip_from(v@, k, j as int),
        decreases v@.len() - j,
    {
        j += 1;
    }
    j
}

/// The least `e` such that `v[e..j]` lies in `k`.
pub fn tail_index(v: &Vec<char>, k: CharClass, j: usize) -> (r: usize)
    requires
        j <= v@.len(),
    ensures
        r == tail_before(v@, k, j as int),
        r <= j,
{
    let mut e: usize = j;
    while e > 0 && k.test(v[e - 1])
        invariant
            e <= j <= v@.len(),
            tail_before(v@, k, j as int) == tail_before(v@, k, e as int),
        decreases e,
    {
        e -= 1;
    }
    e
}

/// The greatest index in `a..b` whose character is in `k`.
pub fn last_index(v: &Vec<char>, k: CharClass, a: usize, b: usize) -> (r: Option<usize>)
    requires
        a <= b <= v@.len(),
    ensures
        match r {
            Some(i) => a <= i < b && i == last_before(v@, k, b as int),
            None => last_before(v@, k, b as int) < a,
        },
{
    let mut j: usize = b;
    while j > a
        invariant
            a <= j <= b <= v@.len(),
            last_before(v@, k, b as int) == last_before(v@, k, j as int),
        decreases j,
    {
        if k.test(v[j - 1]) {
            return Some(j - 1);
        }
        j -= 1;
    }
    proof {
        lemma_last_before(v@, k, a as int);
    }
    None
}

/// Does `p` occur in `v` at index `i`?
pub fn occurs_at(v: &Vec<char>, p: &Vec<char>, i: usize) -> (r: bool)
    requires
        i + p@.len() <= v@.len(),
    ensures
        r == (v@.subrange(i as int, i + p@.len()) == p@),
{
    let mut j: usize = 0;
    while j < p.len()
        invariant
            j <= p@.len(),
            i + p@.len() <= v@.len(),
            forall|m: int| 0 <= m < j ==> v@[i + m] == p@[m],
        decreases p@.len() - j,
    {
        proof {
            assert(i + j < v.len());
        }
        if v[i + j] != p[j] {
            proof {
                assert(v@.subrange(i as int, i + p@.len())[j as int] != p@[j as int]);
            }
            return false;
        }
        j += 1;
    }
    proof {
        assert(v@.subrange(i as int, i + p@.len()) =~= p@);
    }
    true
}

/// The first index at which `p` occurs in `v`.
pub fn find(v: &Vec<char>, p: &Vec<char>) -> (r: Option<usize>)
    ensures
        match r {
            Some(i) => i == find_from(v@, p@, 0) && i + p@.len() <= v@.len(),
            None => find_from(v@, p@, 0) == -1,
        },
{
    let mut i: usize = 0;
    if p.len() > v.len() {
        return None;
    }
    let last: usize = v.len() - p.len();
    loop
        invariant
            i <= last,
            last + p@.len() == v@.len(),
            find_from(v@, p@, 0) == find_from(v@, p@, i as int),
        decreases last - i,
    {
        if occurs_at(v, p, i) {
            return Some(i);
        }
        if i == last {
            proof {
                assert(find_from(v@, p@, i + 1) == -1);
            }
            return None;
        }
        i += 1;
    }
}

/// `p` occurs somewhere in `s`.
pub open spec fn contains_text(s: Seq<char>, p: Seq<char>) -> bool {
    find_from(s, p, 0) >= 0
}

/// Does `p` occur in `s`?
pub fn contains(s: &str, p: &str) -> (r: bool)
    ensures
        r == contains_text(s@, p@),
{
    let v = chars_of(s);
    let q = chars_of(p);
    match find(&v, &q) {
        Some(_) => true,
        None => false,
    }
}

/// `s` begins with `p`.
pub open spec fn begins_with(s: Seq<char>, p: Seq<char>) -> bool {
    p.len() <= s.len() && s.subrange(0, p.len() as int) == p
}

/// Does `s` begin with `p`?
pub fn starts_with(s: &str, p: &str) -> (r: bool)
    ensures
        r == begins_with(s@, p@),
{
    let v = chars_of(s);
    let q = chars_of(p);
    q.len() <= v.len() && occurs_at(&v, &q, 0)
}

/// What follows the prefix `p`, if `s` begins with it.
pub fn strip_prefix(s: &str, p: &str) -> (r: Option<String>)
    ensures
        match r {
            Some(rest) => begins_with(s@, p@) && rest@ == s@.subrange(
                p@.len() as int,
                s@.len() as int,
            ),
            None => !begins_with(s@, p@),
        },
{
    let v = chars_of(s);
    let q = chars_of(p);
    if q.len() <= v.len() && occurs_at(&v, &q, 0) {
        Some(string_of(&v, q.len(), v.len()))
    } else {
        None
    }
}

// ---------------------------------------------------------------------------
// Trimming
// ---------------------------------------------------------------------------

/// `s` without the leading characters that lie in `k`.
pub open spec fn trimmed_start(s: Seq<char>, k: CharClass) -> Seq<char> {
    s.subrange(skip_from(s, k, 0), s.len() as int)
}

/// `s` without the trailing characters that lie in `k`.
pub open spec fn trimmed_end(s: Seq<char>, k: CharClass) -> Seq<char> {
    s.subrange(0, tail_before(s, k, s.len() as int))
}

/// `s` without the leading and trailing characters that lie in `k`.
pub open spec fn trimmed(s: Seq<char>, k: CharClass) -> Seq<char> {
    let a = skip_from(s, k, 0);
    let b = tail_before(s, k, s.len() as int);
    if a <= b {
        s.subrange(a, b)
    } else {
        Seq::empty()
    }
}

/// `s` without leading and trailing white space.
pub open spec fn trim_spec(s: Seq<char>) -> Seq<char> {
    trimmed(s, CharClass::WhiteSpace)
}

pub fn trim_start_class(s: &str, k: CharClass) -> (r: String)
    ensures
        r@ == trimmed_start(s@, k),
{
    let v = chars_of(s);
    let a: usize = skip_index(&v, k, 0);
    string_of(&v, a, v.len())
}

pub fn trim_end_class(s: &str, k: CharClass) -> (r: String)
    ensures
        r@ == trimmed_end(s@, k),
{
    let v = chars_of(s);
    let b: usize = tail_index(&v, k, v.len());
    string_of(&v, 0, b)
}

pub fn trim_class(s: &str, k: CharClass) -> (r: String)
    ensures
        r@ == trimmed(s@, k),
{
    let v = chars_of(s);
    let a: usize = skip_index(&v, k, 0);
    let b: usize = tail_index(&v, k, v.len());
    if a <= b {
        string_of(&v, a, b)
    } else {
        String::new()
    }
}

/// `s` without leading and trailing white space.
pub fn trim(s: &str) -> (r: String)
    ensures
        r@ == trim_spec(s@),
{
    trim_class(s, CharClass::WhiteSpace)
}

/// `s` without leading white space.
pub fn trim_start(s: &str) -> (r: String)
    ensures
        r@ == trimmed_start(s@, CharClass::WhiteSpace),
{
    trim_start_class(s, CharClass::WhiteSpace)
}

/// Is nothing left of `s` once white space is trimmed?
pub fn is_blank(s: &str) -> (r: bool)
    ensures
        r == (trim_spec(s@).len() == 0),
{
    let t = trim(s);
    t.as_str().is_empty()
}

/// What `trimmed` leaves neither begins nor ends with a trimmed character,
/// and it is empty exactly when every character is trimmed.
pub proof fn lemma_trimmed(s: Seq<char>, k: CharClass)
    ensures
        trimmed(s, k).len() > 0 ==> !k.has(trimmed(s, k)[0]) && !k.has(trimmed(s, k).last()),
        trimmed(s, k).len() == 0 <==> (forall|i: int| 0 <= i < s.len() ==> k.has(#[trigger] s[i])),
        trimmed(s, k).len() <= s.len(),
{
    lemma_skip_from(s, k, 0);
    lemma_tail_before(s, k, s.len() as int);
    let a = skip_from(s, k, 0);
    let b = tail_before(s, k, s.len() as int);
    if a < s.len() {
        assert(!k.has(s[a]));
        assert(a < b);
    } else {
        assert(b == 0) by {
            if b > 0 {
                assert(k.has(s[b - 1]));
            }
        }
    }
}

/// Trimming text that neither begins nor ends with a trimmed character
/// changes nothing.
pub proof fn lemma_trim_id(s: Seq<char>, k: CharClass)
    requires
        s.len() > 0 ==> !k.has(s[0]) && !k.has(s.last()),
    ensures
        trimmed(s, k) == s,
{
    lemma_skip_from(s, k, 0);
    lemma_tail_before(s, k, s.len() as int);
    assert(trimmed(s, k) =~= s);
}

/// Trimming twice is trimming once.
pub proof fn trim_is_idempotent(s: Seq<char>, k: CharClass)
    ensures
        trimmed(trimmed(s, k), k) == trimmed(s, k),
{
    lemma_trimmed(s, k);
    lemma_trim_id(trimmed(s, k), k);
}

// ---------------------------------------------------------------------------
// Splitting and joining
// ---------------------------------------------------------------------------

/// `s[from..]` cut at every character of `k`.
pub open spec fn split_from(s: Seq<char>, k: CharClass, from: int) -> Seq<Seq<char>>
    decreases s.len() - from,
{
    let j = first_from(s, k, from);
    if from < 0 || from > s.len() || j >= s.len() || j < from {
        seq![s.subrange(from, s.len() as int)]
    } else {
        seq![s.subrange(from, j)] + split_from(s, k, j + 1)
    }
}

/// `s` cut at every character of `k`.
pub fn split(s: &str, k: CharClass) -> (r: Vec<String>)
    ensures
        r.deep_view() == split_from(s@, k, 0),
        r@.len() >= 1,
{
    let v = chars_of(s);
    let mut out: Vec<String> = Vec::new();
    let mut from: usize = 0;
    loop
        invariant
            v@ == s@,
            from <= v@.len(),
            split_from(s@, k, 0) == out.deep_view() + split_from(s@, k, from as int),
        decreases v@.len() - from,
    {
        let j: usize = first_index(&v, k, from);
        let piece = string_of(&v, from, j);
        let ghost before = out.deep_view();
        proof {
            assert(out.deep_view() =~= before);
        }
        out.push(piece);
        proof {
            assert(out.deep_view() =~= before.push(piece@));
        }
        if j >= v.len() {
            proof {
                assert(out.deep_view() =~= before + split_from(s@, k, from as int));
            }
            return out;
        }
        proof {
            assert(before + (seq![piece@] + split_from(s@, k, j + 1)) =~= before.push(piece@)
                + split_from(s@, k, j + 1));
        }
        from = j + 1;
    }
}

/// What stands before and after the first character of `k`.
pub fn split_once(s: &str, k: CharClass) -> (r: Option<(String, String)>)
    ensures
        match r {
            Some((a, b)) => first_from(s@, k, 0) < s@.len() && a@ == s@.subrange(
                0,
                first_from(s@, k, 0),
            ) && b@ == s@.subrange(first_from(s@, k, 0) + 1, s@.len() as int),
            None => first_from(s@, k, 0) == s@.len(),
        },
{
    let v = chars_of(s);
    let j: usize = first_index(&v, k, 0);
    if j < v.len() {
        Some((string_of(&v, 0, j), string_of(&v, j + 1, v.len())))
    } else {
        None
    }
}

/// The texts of pairs of strings.
pub open spec fn pair_views(v: Seq<(String, String)>) -> Seq<(Seq<char>, Seq<char>)> {
    v.map_values(|p: (String, String)| (p.0@, p.1@))
}

/// The parts with `sep` between each two.
pub open spec fn joined(parts: Seq<Seq<char>>, sep: Seq<char>) -> Seq<char>
    decreases parts.len(),
{
    if parts.len() == 0 {
        Seq::empty()
    } else if parts.len() == 1 {
        parts[0]
    } else {
        joined(parts.drop_last(), sep) + sep + parts.last()
    }
}

/// The parts with `sep` between each two.
pub fn join(parts: &Vec<String>, sep: &str) -> (r: String)
    ensures
        r@ == joined(parts.deep_view(), sep@),
{
    let mut out = String::new();
    let mut i: usize = 0;
    let ghost p = parts.deep_view();
    while i < parts.len()
        invariant
            p == parts.deep_view(),
            i <= parts@.len(),
            out@ == joined(p.take(i as int), sep@),
        decreases parts@.len() - i,
    {
        if i > 0 {
            out.append(sep);
        }
        out.append(parts[i].as_str());
        proof {
            assert(p.take(i + 1).drop_last() =~= p.take(i as int));
            assert(p.take(i + 1).last() == p[i as int]);
            if i == 0 {
                assert(out@ =~= p[0]);
            }
        }
        i += 1;
    }
    proof {
        assert(p.take(i as int) =~= p);
    }
    out
}

/// `s` with every `a` replaced by `b`.
pub open spec fn replaced(s: Seq<char>, a: char, b: char) -> Seq<char> {
    s.map_values(|c: char| if c == a { b } else { c })
}

/// `s` with every `a` replaced by `b`.
pub fn replace_char(s: &str, a: char, b: char) -> (r: String)
    ensures
        r@ == replaced(s@, a, b),
{
    let v = chars_of(s);
    let mut out = String::new();
    let mut i: usize = 0;
    while i < v.len()
        invariant
            v@ == s@,
            i <= v@.len(),
            out@ == replaced(s@, a, b).take(i as int),
        decreases v@.len() - i,
    {
        out.push(if v[i] == a { b } else { v[i] });
        i += 1;
        proof {
            assert(replaced(s@, a, b).take(i as int) =~= replaced(s@, a, b).take(i - 1).push(
                replaced(s@, a, b)[i - 1],
            ));
        }
    }
    proof {
        assert(replaced(s@, a, b).take(i as int) =~= replaced(s@, a, b));
    }
    out
}

/// The first `n` characters of `s`, or all of them.
pub open spec fn first_chars(s: Seq<char>, n: int) -> Seq<char> {
    if n < s.len() {
        s.subrange(0, n)
    } else {
        s
    }
}

/// The first `n` characters of `s`, or all of them.
pub fn take_chars(s: &str, n: usize) -> (r: String)
    ensures
        r@ == first_chars(s@, n as int),
{
    let v = chars_of(s);
    if n < v.len() {
        string_of(&v, 0, n)
    } else {
        owned(s)
    }
}

// ---------------------------------------------------------------------------
// ASCII case
// ---------------------------------------------------------------------------

pub open spec fn is_upper(c: char) -> bool {
    'A' <= c && c <= 'Z'
}

pub open spec fn is_lower(c: char) -> bool {
    'a' <= c && c <= 'z'
}

pub open spec fn is_digit(c: char) -> bool {
    '0' <= c && c <= '9'
}

pub open spec fn is_alphanumeric(c: char) -> bool {
    is_upper(c) || is_lower(c) || is_digit(c)
}

/// An ASCII upper-case letter becomes its lower-case letter.
pub open spec fn lower(c: char) -> char {
    if is_upper(c) {
        (c as u8 + 32) as u8 as char
    } else {
        c
    }
}

/// An ASCII lower-case letter becomes its upper-case letter.
pub open spec fn upper(c: char) -> char {
    if is_lower(c) {
        (c as u8 - 32) as u8 as char
    } else {
        c
    }
}

/// `s` with its ASCII letters in upper case.
pub open spec fn uppered(s: Seq<char>) -> Seq<char> {
    s.map_values(|c: char| upper(c))
}

/// `s` with its ASCII letters in lower case.
pub open spec fn lowered(s: Seq<char>) -> Seq<char> {
    s.map_values(|c: char| lower(c))
}

pub fn to_lower(c: char) -> (r: char)
    ensures
        r == lower(c),
{
    if 'A' <= c && c <= 'Z' {
        let b: u8 = c as u8;
        (b + 32) as char
    } else {
        c
    }
}

/// `s` with its ASCII letters in lower case.
pub fn ascii_lowercase(s: &str) -> (r: String)
    ensures
        r@ == lowered(s@),
{
    let v = chars_of(s);
    let mut out = String::new();
    let mut i: usize = 0;
    while i < v.len()
        invariant
            v@ == s@,
            i <= v@.len(),
            out@ == lowered(s@).take(i as int),
        decreases v@.len() - i,
    {
        out.push(to_lower(v[i]));
        i += 1;
        proof {
            assert(lowered(s@).take(i as int) =~= lowered(s@).take(i - 1).push(lowered(s@)[i - 1]));
        }
    }
    proof {
        assert(lowered(s@).take(i as int) =~= lowered(s@));
    }
    out
}

/// Are the two strings equal up to ASCII case?
pub fn eq_ignore_case(a: &str, b: &str) -> (r: bool)
    ensures
        r == (lowered(a@) == lowered(b@)),
{
    let x = ascii_lowercase(a);
    let y = ascii_lowercase(b);
    x == y
}

/// `s` in lower case, as `str::to_lowercase` gives it.
pub uninterp spec fn str_lowercase(s: Seq<char>) -> Seq<char>;

/// Every character is an ASCII one.
pub open spec fn all_ascii(s: Seq<char>) -> bool {
    forall|i: int| 0 <= i < s.len() ==> (#[trigger] s[i]) as u32 <= 0x7f
}

/// `s` in lower case.
pub open spec fn lower_text(s: Seq<char>) -> Seq<char> {
    if all_ascii(s) {
        lowered(s)
    } else {
        str_lowercase(s)
    }
}

/// `str::to_lowercase`. On ASCII text the result is the ASCII lower case; on
/// other text, where it follows the Unicode tables, the contract only names
/// it.
#[verifier::external_body]
pub(crate) fn lowercase(s: &str) -> (r: String)
    ensures
        r@ == if all_ascii(s@) {
            lowered(s@)
        } else {
            str_lowercase(s@)
        },
{
    s.to_lowercase()
}

// ---------------------------------------------------------------------------
// Decimal numerals
// ---------------------------------------------------------------------------

/// The decimal digit `d`.
pub open spec fn digit_char(d: nat) -> char {
    (48 + d) as u8 as char
}

/// The decimal numeral of `n`.
pub open spec fn decimal(n: nat) -> Seq<char>
    decreases n,
{
    if n < 10 {
        seq![digit_char(n)]
    } else {
        decimal(n / 10).push(digit_char(n % 10))
    }
}

/// The decimal numeral of `n`, with a minus sign below zero.
pub open spec fn decimal_int(n: int) -> Seq<char> {
    if n < 0 {
        seq!['-'] + decimal((-n) as nat)
    } else {
        decimal(n as nat)
    }
}

fn push_decimal(out: &mut String, n: u64)
    ensures
        final(out)@ == old(out)@ + decimal(n as nat),
    decreases n,
{
    if n >= 10 {
        push_decimal(out, n / 10);
    }
    let d: u8 = (n % 10) as u8;
    out.push((48 + d) as char);
    proof {
        let base = old(out)@;
        if n >= 10 {
            assert(base + decimal(n as nat / 10).push(digit_char(n as nat % 10)) =~= (base
                + decimal(n as nat / 10)).push(digit_char(n as nat % 10)));
        } else {
            assert(base + seq![digit_char(n as nat)] =~= base.push(digit_char(n as nat)));
        }
    }
}

/// The decimal numeral of `n`.
pub fn decimal_u64(n: u64) -> (r: String)
    ensures
        r@ == decimal(n as nat),
{
    let mut out = String::new();
    push_decimal(&mut out, n);
    proof {
        assert(Seq::<char>::empty() + decimal(n as nat) =~= decimal(n as nat));
    }
    out
}

/// The decimal numeral of `n`.
pub fn decimal_i64(n: i64) -> (r: String)
    ensures
        r@ == decimal_int(n as int),
{
    let mut out = String::new();
    if n >= 0 {
        push_decimal(&mut out, n as u64);
        proof {
            assert(Seq::<char>::empty() + decimal(n as nat) =~= decimal(n as nat));
        }
    } else {
        out.push('-');
        let m: u64 = if n == i64::MIN { 0x8000_0000_0000_0000u64 } else { (-n) as u64 };
        push_decimal(&mut out, m);
        proof {
            assert(Seq::<char>::empty().push('-') =~= seq!['-']);
        }
    }
    out
}

/// Every character is a decimal digit.
pub open spec fn all_digits(s: Seq<char>) -> bool {
    forall|i: int| 0 <= i < s.len() ==> is_digit(#[trigger] s[i])
}

/// The number that a string of decimal digits denotes.
pub open spec fn digits_value(s: Seq<char>) -> nat
    decreases s.len(),
{
    if s.len() == 0 {
        0
    } else {
        digits_value(s.drop_last()) * 10 + (s.last() as u32 - 48) as nat
    }
}

/// The integer that `s` denotes: an optional sign, then one or more digits.
pub open spec fn signed_value(s: Seq<char>) -> Option<int> {
    let signed = s.len() > 0 && (s[0] == '-' || s[0] == '+');
    let digits = if signed {
        s.subrange(1, s.len() as int)
    } else {
        s
    };
    if digits.len() == 0 || !all_digits(digits) {
        None
    } else if signed && s[0] == '-' {
        Some(-(digits_value(digits) as int))
    } else {
        Some(digits_value(digits) as int)
    }
}

/// `s` read as an `i64`: absent where it is no numeral or out of range.
pub open spec fn i64_value(s: Seq<char>) -> Option<i64> {
    match signed_value(s) {
        Some(n) => if i64::MIN <= n <= i64::MAX {
            Some(n as i64)
        } else {
            None
        },
        None => None,
    }
}

proof fn lemma_digits_value_grows(s: Seq<char>, n: int)
    requires
        0 <= n <= s.len(),
        all_digits(s),
    ensures
        digits_value(s.take(n)) <= digits_value(s),
    decreases s.len() - n,
{
    if n < s.len() {
        lemma_digits_value_grows(s, n + 1);
        assert(s.take(n + 1).drop_last() =~= s.take(n));
        assert(is_digit(s[n]));
    } else {
        assert(s.take(n) =~= s);
    }
}

/// `s` read as an `i64`: absent where it is no numeral or out of range.
pub fn parse_i64(s: &str) -> (r: Option<i64>)
    ensures
        r == i64_value(s@),
{
    let v = chars_of(s);
    let signed = v.len() > 0 && (v[0] == '-' || v[0] == '+');
    let negative = signed && v[0] == '-';
    let from: usize = if signed { 1 } else { 0 };
    if v.len() == from {
        return None;
    }
    let ghost digits = if signed { s@.subrange(1, s@.len() as int) } else { s@ };
    let mut acc: u64 = 0;
    let mut i: usize = from;
    let mut over = false;
    while i < v.len()
        invariant
            v@ == s@,
            from == if signed { 1usize } else { 0usize },
            digits == if signed { s@.subrange(1, s@.len() as int) } else { s@ },
            signed == (s@.len() > 0 && (s@[0] == '-' || s@[0] == '+')),
            from <= i <= v@.len(),
            forall|j: int| 0 <= j < i - from ==> is_digit(#[trigger] digits[j]),
            !over ==> acc == digits_value(digits.take(i - from)),
            !over ==> acc <= 0x8000_0000_0000_0000u64,
            over ==> digits_value(digits.take(i - from)) > 0x8000_0000_0000_0000,
        decreases v@.len() - i,
    {
        let c = v[i];
        proof {
            assert(digits[i - from] == c);
        }
        if !('0' <= c && c <= '9') {
            proof {
                assert(!is_digit(digits[i - from]));
            }
            return None;
        }
        proof {
            assert(digits.take(i - from + 1).drop_last() =~= digits.take(i - from));
        }
        if !over {
            let d: u64 = (c as u32 - 48) as u64;
            if acc > 0x0ccc_cccc_cccc_cccc {
                over = true;
            } else {
                acc = acc * 10 + d;
                if acc > 0x8000_0000_0000_0000u64 {
                    over = true;
                }
            }
        }
        i += 1;
    }
    proof {
        assert(digits.take(i - from) =~= digits);
    }
    if over {
        return None;
    }
    if negative {
        if acc == 0x8000_0000_0000_0000u64 {
            Some(i64::MIN)
        } else {
            Some(-(acc as i64))
        }
    } else if acc == 0x8000_0000_0000_0000u64 {
        None
    } else {
        Some(acc as i64)
    }
}

// ---------------------------------------------------------------------------
// UTF-8 byte budgets
// ---------------------------------------------------------------------------

/// The number of bytes that UTF-8 spends on `c`.
pub open spec fn width(c: char) -> nat {
    let v = c as u32;
    if v < 0x80 {
        1
    } else if v < 0x800 {
        2
    } else if v < 0x10000 {
        3
    } else {
        4
    }
}

/// The number of bytes that UTF-8 spends on `s`.
pub open spec fn bytes_len(s: Seq<char>) -> nat
    decreases s.len(),
{
    if s.len() == 0 {
        0
    } else {
        bytes_len(s.drop_last()) + width(s.last())
    }
}

pub proof fn lemma_bytes_len_add(a: Seq<char>, b: Seq<char>)
    ensures
        bytes_len(a + b) == bytes_len(a) + bytes_len(b),
    decreases b.len(),
{
    if b.len() == 0 {
        assert(a + b =~= a);
    } else {
        assert((a + b).drop_last() =~= a + b.drop_last());
        lemma_bytes_len_add(a, b.drop_last());
    }
}

/// The length of the UTF-8 encoding is the sum of the widths.
pub proof fn lemma_bytes_len(s: Seq<char>)
    ensures
        encode_utf8(s).len() == bytes_len(s),
        s.len() <= bytes_len(s),
    decreases s.len(),
{
    if s.len() > 0 {
        let head = seq![s[0]];
        let tail = s.drop_first();
        assert(s =~= head + tail);
        lemma_bytes_len(tail);
        lemma_bytes_len_add(head, tail);
        assert(head.drop_last() =~= Seq::<char>::empty());
        assert(bytes_len(head) == width(s[0])) by {
            reveal_with_fuel(bytes_len, 2);
        }
        char_is_scalar(s[0]);
        assert(encode_scalar(s[0] as u32).len() == width(s[0]));
    }
}

pub fn char_width(c: char) -> (r: usize)
    ensures
        r == width(c),
{
    let v: u32 = c as u32;
    if v < 0x80 {
        1
    } else if v < 0x800 {
        2
    } else if v < 0x10000 {
        3
    } else {
        4
    }
}

/// The number of bytes of `s`.
pub fn byte_len(s: &str) -> (r: usize)
    ensures
        r == bytes_len(s@),
        s@.len() <= r,
{
    proof {
        lemma_bytes_len(s@);
    }
    s.as_bytes().len()
}

/// The end of the longest run `s[i..]` whose bytes stay within `budget`.
pub open spec fn fit_from(s: Seq<char>, i: int, budget: int) -> int
    decreases s.len() - i,
{
    if i < 0 || i >= s.len() {
        i
    } else if width(s[i]) > budget {
        i
    } else {
        fit_from(s, i + 1, budget - width(s[i]))
    }
}

/// The end of the longest run `v[i..]` whose bytes stay within `budget`.
pub fn fit(v: &Vec<char>, i: usize, budget: usize) -> (r: usize)
    requires
        i <= v@.len(),
    ensures
        r == fit_from(v@, i as int, budget as int),
        i <= r <= v@.len(),
{
    let mut j: usize = i;
    let mut left: usize = budget;
    while j < v.len() && char_width(v[j]) <= left
        invariant
            i <= j <= v@.len(),
            fit_from(v@, i as int, budget as int) == fit_from(v@, j as int, left as int),
        decreases v@.len() - j,
    {
        left -= char_width(v[j]);
        j += 1;
    }
    j
}

/// What `fit_from` spends: the run fits, and one more character would not.
pub proof fn lemma_fit(s: Seq<char>, i: int, budget: int)
    requires
        0 <= i <= s.len(),
        0 <= budget,
    ensures
        i <= fit_from(s, i, budget) <= s.len(),
        bytes_len(s.subrange(i, fit_from(s, i, budget))) <= budget,
        fit_from(s, i, budget) < s.len() ==> bytes_len(
            s.subrange(i, fit_from(s, i, budget) + 1),
        ) > budget,
        fit_from(s, i, budget) == i ==> i == s.len() || width(s[i]) > budget,
    decreases s.len() - i,
{
    assert(s.subrange(i, i) =~= Seq::<char>::empty());
    if i < s.len() {
        let one = s.subrange(i, i + 1);
        assert(one.drop_last() =~= Seq::<char>::empty());
        assert(bytes_len(one) == width(s[i])) by {
            reveal_with_fuel(bytes_len, 2);
        }
        if width(s[i]) <= budget {
            let b = budget - width(s[i]);
            lemma_fit(s, i + 1, b);
            let e = fit_from(s, i + 1, b);
            assert(s.subrange(i, e) =~= one + s.subrange(i + 1, e));
            lemma_bytes_len_add(one, s.subrange(i + 1, e));
            if e < s.len() {
                assert(s.subrange(i, e + 1) =~= one + s.subrange(i + 1, e + 1));
                lemma_bytes_len_add(one, s.subrange(i + 1, e + 1));
            }
        }
    }
}

/// The longest prefix of at most `keep` bytes, followed by three dots.
pub open spec fn ellipsized(s: Seq<char>, keep: int) -> Seq<char> {
    s.subrange(0, fit_from(s, 0, keep)) + "..."@
}

/// The longest prefix of at most `keep` bytes, followed by three dots.
pub fn ellipsize(s: &str, keep: usize) -> (r: String)
    ensures
        r@ == ellipsized(s@, keep as int),
{
    let v = chars_of(s);
    let e: usize = fit(&v, 0, keep);
    let mut r = string_of(&v, 0, e);
    r.append("...");
    r
}

// ---------------------------------------------------------------------------
// Lexicographic order
// ---------------------------------------------------------------------------

/// `a[i..]` comes before `b[i..]` in the lexicographic order of characters.
pub open spec fn less_from(a: Seq<char>, b: Seq<char>, i: int) -> bool
    decreases b.len() - i,
{
    if i < 0 || i >= b.len() {
        false
    } else if i >= a.len() {
        true
    } else if a[i] != b[i] {
        a[i] < b[i]
    } else {
        less_from(a, b, i + 1)
    }
}

/// `a` comes before `b` in the lexicographic order of characters.
pub open spec fn less(a: Seq<char>, b: Seq<char>) -> bool {
    less_from(a, b, 0)
}

pub proof fn lemma_less_trans(a: Seq<char>, b: Seq<char>, c: Seq<char>, i: int)
    requires
        0 <= i,
        less_from(a, b, i),
        less_from(b, c, i),
    ensures
        less_from(a, c, i),
    decreases c.len() - i,
{
    if i < a.len() && i < b.len() && i < c.len() && a[i] == b[i] && b[i] == c[i] {
        lemma_less_trans(a, b, c, i + 1);
    }
}

pub proof fn lemma_less_irreflexive(a: Seq<char>, i: int)
    requires
        0 <= i,
    ensures
        !less_from(a, a, i),
    decreases a.len() - i,
{
    if i < a.len() {
        lemma_less_irreflexive(a, i + 1);
    }
}

/// Of two different texts, one comes before the other.
pub proof fn lemma_less_total(a: Seq<char>, b: Seq<char>, i: int)
    requires
        0 <= i <= a.len(),
        i <= b.len(),
        forall|j: int| 0 <= j < i ==> a[j] == b[j],
        !less_from(a, b, i),
        !less_from(b, a, i),
    ensures
        a == b,
    decreases a.len() - i,
{
    if i < a.len() && i < b.len() {
        lemma_less_total(a, b, i + 1);
    } else {
        assert(a =~= b);
    }
}

/// Does `a` come before `b` in the lexicographic order of characters?
pub fn str_less(a: &str, b: &str) -> (r: bool)
    ensures
        r == less(a@, b@),
{
    let x = chars_of(a);
    let y = chars_of(b);
    let mut i: usize = 0;
    while i < x.len() && i < y.len() && x[i] == y[i]
        invariant
            x@ == a@,
            y@ == b@,
            i <= x@.len(),
            i <= y@.len(),
            less(a@, b@) == less_from(a@, b@, i as int),
        decreases x@.len() - i,
    {
        i += 1;
    }
    if i >= y.len() {
        false
    } else if i >= x.len() {
        true
    } else {
        x[i] < y[i]
    }
}

// ---------------------------------------------------------------------------
// What the operations on text promise
// ---------------------------------------------------------------------------

/// Trimming takes characters of the class away from the ends, all of them, and
/// nothing else.
pub proof fn trimming_takes_the_ends(s: Seq<char>, k: CharClass)
    ensures
        exists|a: int, b: int|
            0 <= a <= b <= s.len() && trimmed(s, k) == #[trigger] s.subrange(a, b) && (forall|i:
                int|
                0 <= i < a ==> k.has(#[trigger] s[i])) && (forall|i: int|
                b <= i < s.len() ==> k.has(#[trigger] s[i])),
        trimmed(s, k).len() > 0 ==> !k.has(trimmed(s, k)[0]) && !k.has(trimmed(s, k).last()),
        trim_spec(s) == trimmed(s, CharClass::WhiteSpace),
{
    lemma_skip_from(s, k, 0);
    lemma_tail_before(s, k, s.len() as int);
    lemma_trimmed(s, k);
    let a = skip_from(s, k, 0);
    let b = tail_before(s, k, s.len() as int);
    if a <= b {
        assert(trimmed(s, k) == s.subrange(a, b));
    } else {
        assert(trimmed(s, k) =~= s.subrange(a, a));
    }
}

/// Trimming at one end leaves the other alone.
pub proof fn trimming_one_end(s: Seq<char>, k: CharClass)
    ensures
        exists|a: int|
            0 <= a <= s.len() && trimmed_start(s, k) == #[trigger] s.subrange(a, s.len() as int)
                && (forall|i: int| 0 <= i < a ==> k.has(#[trigger] s[i])),
        trimmed_start(s, k).len() > 0 ==> !k.has(trimmed_start(s, k)[0]),
        exists|b: int|
            0 <= b <= s.len() && trimmed_end(s, k) == #[trigger] s.subrange(0, b) && (forall|i: int|
                b <= i < s.len() ==> k.has(#[trigger] s[i])),
        trimmed_end(s, k).len() > 0 ==> !k.has(trimmed_end(s, k).last()),
{
    lemma_skip_from(s, k, 0);
    lemma_tail_before(s, k, s.len() as int);
    let a = skip_from(s, k, 0);
    let b = tail_before(s, k, s.len() as int);
    assert(trimmed_start(s, k) == s.subrange(a, s.len() as int));
    assert(trimmed_end(s, k) == s.subrange(0, b));
}

/// A class holds the characters that it is named after.
pub proof fn classes_hold_their_characters(c: char, x: char)
    ensures
        CharClass::Is(x).has(c) <==> c == x,
        CharClass::WhiteSpace.has(' ') && CharClass::WhiteSpace.has('\n')
            && CharClass::WhiteSpace.has('\t') && CharClass::WhiteSpace.has('\r'),
        '!' <= c <= '~' ==> !CharClass::WhiteSpace.has(c),
        CharClass::QuoteOrSpace.has(c) <==> c == '"' || c == '\'' || c == '`'
            || CharClass::WhiteSpace.has(c),
{
}

/// A text is found at its first occurrence, and wherever it occurs at all.
pub proof fn the_first_occurrence_is_found(s: Seq<char>, p: Seq<char>, from: int, i: int)
    requires
        0 <= from <= i,
        i + p.len() <= s.len(),
        s.subrange(i, i + p.len()) == p,
    ensures
        from <= find_from(s, p, from) <= i,
        from == 0 ==> contains_text(s, p),
    decreases i - from,
{
    if from < i && s.subrange(from, from + p.len()) != p {
        the_first_occurrence_is_found(s, p, from + 1, i);
    }
}

/// A text holds another exactly where it is that text with something before
/// and after it.
pub proof fn texts_hold_their_parts(a: Seq<char>, p: Seq<char>, b: Seq<char>, s: Seq<char>)
    ensures
        contains_text(a + p + b, p),
        contains_text(s, p) ==> exists|i: int|
            0 <= i && i + p.len() <= s.len() && p == #[trigger] s.subrange(i, i + p.len()),
        begins_with(p + b, p),
        begins_with(s, p) ==> s == p + s.subrange(p.len() as int, s.len() as int),
{
    let t = a + p + b;
    let i = a.len() as int;
    assert(t.subrange(i, i + p.len()) =~= p);
    the_first_occurrence_is_found(t, p, 0, i);
    lemma_find_from(s, p, 0);
    assert((p + b).subrange(0, p.len() as int) =~= p);
    if begins_with(s, p) {
        assert(s =~= s.subrange(0, p.len() as int) + s.subrange(p.len() as int, s.len() as int));
    }
}

proof fn lemma_joined_front(first: Seq<char>, rest: Seq<Seq<char>>, sep: Seq<char>)
    requires
        rest.len() > 0,
    ensures
        joined(seq![first] + rest, sep) == first + sep + joined(rest, sep),
    decreases rest.len(),
{
    let all = seq![first] + rest;
    assert(all.last() == rest.last());
    if rest.len() == 1 {
        assert(all.drop_last() =~= seq![first]);
        assert(rest[0] == rest.last());
        assert(joined(all.drop_last(), sep) == first);
        assert(joined(all, sep) =~= first + sep + joined(rest, sep));
    } else {
        assert(all.drop_last() =~= seq![first] + rest.drop_last());
        lemma_joined_front(first, rest.drop_last(), sep);
        assert(joined(all, sep) =~= first + sep + joined(rest, sep));
    }
}

/// Joining puts the separator between each two parts, and nowhere else.
pub proof fn joining_puts_separators_between(
    first: Seq<char>,
    rest: Seq<Seq<char>>,
    sep: Seq<char>,
)
    ensures
        joined(Seq::empty(), sep) == Seq::<char>::empty(),
        joined(seq![first], sep) == first,
        rest.len() > 0 ==> joined(seq![first] + rest, sep) == first + sep + joined(rest, sep),
{
    if rest.len() > 0 {
        lemma_joined_front(first, rest, sep);
    }
}

/// The text from `from` on, with `c` in place of every character of `k`.
pub open spec fn marked(s: Seq<char>, k: CharClass, from: int, c: char) -> Seq<char> {
    Seq::new(
        (s.len() - from) as nat,
        |i: int|
            if k.has(s[from + i]) {
                c
            } else {
                s[from + i]
            },
    )
}

proof fn lemma_split(s: Seq<char>, k: CharClass, from: int, c: char)
    requires
        0 <= from <= s.len(),
    ensures
        split_from(s, k, from).len() > 0,
        forall|i: int, j: int|
            0 <= i < split_from(s, k, from).len() && 0 <= j < split_from(s, k, from)[i].len()
                ==> !k.has(#[trigger] split_from(s, k, from)[i][j]),
        joined(split_from(s, k, from), seq![c]) == marked(s, k, from, c),
    decreases s.len() - from,
{
    let n = first_from(s, k, from);
    lemma_first_from(s, k, from);
    let v = split_from(s, k, from);
    if n >= s.len() {
        assert(v =~= seq![s.subrange(from, s.len() as int)]);
        assert(joined(v, seq![c]) =~= marked(s, k, from, c));
    } else {
        let rest = split_from(s, k, n + 1);
        let head = s.subrange(from, n);
        lemma_split(s, k, n + 1, c);
        lemma_joined_front(head, rest, seq![c]);
        assert(v == seq![head] + rest);
        let m = marked(s, k, n + 1, c);
        assert(head + seq![c] + m =~= marked(s, k, from, c)) by {
            assert forall|i: int| 0 <= i < s.len() - from implies (head + seq![c] + m)[i] == marked(
                s,
                k,
                from,
                c,
            )[i] by {
                if i < n - from {
                    assert(!k.has(s[from + i]));
                } else if i > n - from {
                    assert(m[i - (n - from) - 1] == marked(s, k, from, c)[i]);
                }
            }
        }
        assert forall|i: int, j: int| 0 <= i < v.len() && 0 <= j < v[i].len() implies !k.has(
            #[trigger] v[i][j],
        ) by {
            if i == 0 {
                assert(v[0] == head);
                assert(v[i][j] == s[from + j]);
            } else {
                assert(v[i] == rest[i - 1]);
                assert(!k.has(rest[i - 1][j]));
            }
        }
    }
}

/// Splitting loses nothing but the characters it splits at: no part holds one
/// of them, and joining the parts again with a mark gives the text with that
/// mark in their place.
pub proof fn splitting_loses_only_the_marks(s: Seq<char>, k: CharClass, c: char)
    ensures
        split_from(s, k, 0).len() > 0,
        forall|i: int, j: int|
            0 <= i < split_from(s, k, 0).len() && 0 <= j < split_from(s, k, 0)[i].len() ==> !k.has(
                #[trigger] split_from(s, k, 0)[i][j],
            ),
        joined(split_from(s, k, 0), seq![c]).len() == s.len(),
        forall|i: int|
            0 <= i < s.len() ==> #[trigger] joined(split_from(s, k, 0), seq![c])[i] == (if k.has(
                s[i],
            ) {
                c
            } else {
                s[i]
            }),
        joined(split_from(s, CharClass::Is(c), 0), seq![c]) == s,
{
    lemma_split(s, k, 0, c);
    lemma_split(s, CharClass::Is(c), 0, c);
    assert(marked(s, CharClass::Is(c), 0, c) =~= s);
    assert forall|i: int| 0 <= i < s.len() implies #[trigger] joined(
        split_from(s, k, 0),
        seq![c],
    )[i] == (if k.has(s[i]) {
        c
    } else {
        s[i]
    }) by {
        assert(marked(s, k, 0, c)[i] == (if k.has(s[0 + i]) {
            c
        } else {
            s[0 + i]
        }));
    }
}

/// Replacing a character touches that character alone.
pub proof fn replacing_touches_one_character(s: Seq<char>, a: char, b: char, i: int)
    requires
        0 <= i < s.len(),
    ensures
        replaced(s, a, b).len() == s.len(),
        s[i] == a ==> replaced(s, a, b)[i] == b,
        s[i] != a ==> replaced(s, a, b)[i] == s[i],
{
}

/// The first characters of a text are a prefix of it, as long as was asked
/// for, or the whole of it.
pub proof fn first_chars_are_a_prefix(s: Seq<char>, n: int)
    requires
        0 <= n,
    ensures
        n <= s.len() ==> first_chars(s, n).len() == n,
        n >= s.len() ==> first_chars(s, n) == s,
        begins_with(s, first_chars(s, n)),
{
    if n <= s.len() {
        assert(s.subrange(0, n).subrange(0, n) =~= s.subrange(0, n));
        assert(n == s.len() ==> s.subrange(0, n) =~= s);
    }
    assert(s.subrange(0, s.len() as int) =~= s);
}

/// Changing the case moves ASCII letters by thirty-two code points and leaves
/// every other character alone.
pub proof fn case_changes_move_letters(s: Seq<char>, i: int)
    requires
        0 <= i < s.len(),
    ensures
        lowered(s).len() == s.len(),
        uppered(s).len() == s.len(),
        'A' <= s[i] <= 'Z' ==> lowered(s)[i] as u32 == s[i] as u32 + 32,
        !('A' <= s[i] <= 'Z') ==> lowered(s)[i] == s[i],
        'a' <= s[i] <= 'z' ==> uppered(s)[i] as u32 == s[i] as u32 - 32,
        !('a' <= s[i] <= 'z') ==> uppered(s)[i] == s[i],
        all_ascii(s) ==> lower_text(s) == lowered(s),
{
}

/// The numeral of a number is made of digits, has no needless zero in front,
/// and spells that number.
pub proof fn numerals_spell_their_number(n: nat)
    ensures
        decimal(n).len() > 0,
        all_digits(decimal(n)),
        digits_value(decimal(n)) == n,
        n > 0 ==> decimal(n)[0] != '0',
    decreases n,
{
    reveal_with_fuel(digits_value, 3);
    if n < 10 {
        assert(decimal(n).drop_last() =~= Seq::<char>::empty());
        assert(decimal(n).last() == digit_char(n));
        assert(digit_char(n) as u32 == 48 + n);
    } else {
        numerals_spell_their_number(n / 10);
        let init = decimal(n / 10);
        assert(decimal(n).drop_last() =~= init);
        assert(decimal(n).last() == digit_char(n % 10));
        assert(digit_char(n % 10) as u32 == 48 + n % 10);
        assert(decimal(n)[0] == init[0]);
    }
}

/// A numeral with a sign is the number with that sign, and what holds anything
/// but digits behind it is none.
pub proof fn signs_are_read(d: Seq<char>, n: nat)
    ensures
        d.len() > 0 && all_digits(d) ==> {
            &&& signed_value(d) == Some(digits_value(d) as int)
            &&& signed_value(seq!['-'] + d) == Some(-(digits_value(d) as int))
            &&& signed_value(seq!['+'] + d) == Some(digits_value(d) as int)
        },
        d.len() == 0 || !all_digits(d) ==> {
            &&& signed_value(seq!['-'] + d) is None
            &&& signed_value(seq!['+'] + d) is None
            &&& d.len() == 0 || (d[0] != '-' && d[0] != '+') ==> signed_value(d) is None
        },
        n <= i64::MAX ==> i64_value(decimal(n)) == Some(n as i64),
        n > i64::MAX ==> i64_value(decimal(n)) is None,
        decimal_int(n as int) == decimal(n),
        n > 0 ==> decimal_int(-(n as int)) == seq!['-'] + decimal(n),
{
    let a = seq!['-'] + d;
    let b = seq!['+'] + d;
    assert(a.subrange(1, a.len() as int) =~= d);
    assert(b.subrange(1, b.len() as int) =~= d);
    if d.len() > 0 && all_digits(d) {
        assert(is_digit(d[0]));
    }
    numerals_spell_their_number(n);
    assert(is_digit(decimal(n)[0]));
    lemma_signless(decimal(n));
}

proof fn lemma_signless(d: Seq<char>)
    requires
        d.len() > 0,
        all_digits(d),
    ensures
        signed_value(d) == Some(digits_value(d) as int),
{
    assert(is_digit(d[0]));
}

/// A shortened text is the longest prefix that fits into the given bytes,
/// followed by three dots.
pub proof fn shortened_texts_keep_what_fits(s: Seq<char>, keep: int)
    requires
        0 <= keep,
    ensures
        exists|n: int|
            0 <= n <= s.len() && ellipsized(s, keep) == #[trigger] s.subrange(0, n) + "..."@
                && bytes_len(s.subrange(0, n)) <= keep && (n < s.len() ==> bytes_len(
                s.subrange(0, n + 1),
            ) > keep),
{
    lemma_fit(s, 0, keep);
    let n = fit_from(s, 0, keep);
    assert(ellipsized(s, keep) == s.subrange(0, n) + "..."@);
}

/// The first character that differs decides which text comes first, and a
/// proper prefix comes before the whole.
pub proof fn the_first_difference_decides(a: Seq<char>, b: Seq<char>, n: int)
    requires
        0 <= n <= a.len(),
        n <= b.len(),
        forall|i: int| 0 <= i < n ==> a[i] == b[i],
    ensures
        n < a.len() && n < b.len() && a[n] != b[n] ==> (less(a, b) <==> a[n] < b[n]),
        n == a.len() && n < b.len() ==> less(a, b),
        n == b.len() ==> !less(a, b),
{
    lemma_less_skips(a, b, 0, n);
}

proof fn lemma_less_skips(a: Seq<char>, b: Seq<char>, from: int, n: int)
    requires
        0 <= from <= n <= a.len(),
        n <= b.len(),
        forall|i: int| 0 <= i < n ==> a[i] == b[i],
    ensures
        less_from(a, b, from) == less_from(a, b, n),
    decreases n - from,
{
    if from < n {
        lemma_less_skips(a, b, from + 1, n);
    }
}

/// A text is ASCII exactly where each of its characters is.
pub proof fn ascii_texts_hold_ascii_characters(s: Seq<char>, c: char)
    ensures
        all_ascii(Seq::empty()),
        all_ascii(s.push(c)) <==> all_ascii(s) && c as u32 <= 0x7f,
        all_digits(Seq::empty()),
        all_digits(s.push(c)) <==> all_digits(s) && '0' <= c <= '9',
{
    let t = s.push(c);
    if all_ascii(t) {
        assert forall|i: int| 0 <= i < s.len() implies (#[trigger] s[i]) as u32 <= 0x7f by {
            assert(t[i] == s[i]);
        }
        assert(t[s.len() as int] == c);
    }
    if all_digits(t) {
        assert forall|i: int| 0 <= i < s.len() implies is_digit(#[trigger] s[i]) by {
            assert(t[i] == s[i]);
        }
        assert(t[s.len() as int] == c);
        assert(is_digit(t[s.len() as int]));
    }
}

} // verus!
