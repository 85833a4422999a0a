//! Points in time: reading and writing them, and how far apart they are.

use vstd::prelude::*;
use vstd::string::*;
use crate::models::Timestamp;

verus! {

/// The point in time that an RFC 3339 text spells: seconds since the Unix
/// epoch, and nanoseconds.
pub uninterp spec fn rfc3339_instant(text: Seq<char>) -> Option<(i64, u32)>;

/// The RFC 3339 text of a point in time in UTC.
pub uninterp spec fn rfc3339_text(secs: i64, nanos: u32) -> Option<Seq<char>>;

/// A point in time in UTC, written after a pattern.
pub uninterp spec fn formatted_instant(secs: i64, nanos: u32, pattern: Seq<char>) -> Option<
    Seq<char>,
>;

/// `chrono::DateTime::parse_from_rfc3339`: the point in time, absent where
/// the text is no RFC 3339 date and time. The contract only names the result.
#[verifier::external_body]
fn parse_instant(text: &str) -> (r: Option<(i64, u32)>)
    ensures
        r == rfc3339_instant(text@),
{
    let t = chrono::DateTime::parse_from_rfc3339(text).ok()?;
    Some((t.timestamp(), t.timestamp_subsec_nanos()))
}

/// `chrono::DateTime::to_rfc3339` of the point in time that
/// `chrono::DateTime::from_timestamp` makes of the arguments, absent where it
/// makes none. The contract only names the result.
#[verifier::external_body]
fn instant_text(secs: i64, nanos: u32) -> (r: Option<String>)
    ensures
        r.deep_view() == rfc3339_text(secs, nanos),
{
    chrono::DateTime::from_timestamp(secs, nanos).map(|t| t.to_rfc3339())
}

/// A percent sign that stands for a part of a date: the year, the month, the
/// day, the hour, the minute or the second follows.
pub open spec fn is_date_part(c: char) -> bool {
    c == 'Y' || c == 'm' || c == 'd' || c == 'H' || c == 'M' || c == 'S'
}

/// From `i` on, every percent sign is followed by a part of a date.
pub open spec fn is_date_pattern(pattern: Seq<char>, i: int) -> bool
    decreases pattern.len() - i,
{
    if i < 0 || i >= pattern.len() {
        true
    } else if pattern[i] == '%' {
        i + 1 < pattern.len() && is_date_part(pattern[i + 1]) && is_date_pattern(pattern, i + 2)
    } else {
        is_date_pattern(pattern, i + 1)
    }
}

/// `chrono::DateTime::format` on the point in time that
/// `chrono::DateTime::from_timestamp` makes of the arguments, absent where it
/// makes none. Only patterns that chrono knows how to write are handed to it.
/// The contract only names the result.
#[verifier::external_body]
fn instant_format(secs: i64, nanos: u32, pattern: &str) -> (r: Option<String>)
    requires
        is_date_pattern(pattern@, 0),
    ensures
        r.deep_view() == formatted_instant(secs, nanos, pattern@),
{
    chrono::DateTime::from_timestamp(secs, nanos).map(|t| t.format(pattern).to_string())
}

/// The point in time of a pair of seconds and nanoseconds.
pub open spec fn instant_of(pair: Option<(i64, u32)>) -> Option<Timestamp> {
    match pair {
        Some(p) => Some(Timestamp { secs: p.0, nanos: p.1 }),
        None => None,
    }
}

/// The point in time that an RFC 3339 text spells.
pub fn parse_rfc3339(text: &str) -> (r: Option<Timestamp>)
    ensures
        r == instant_of(rfc3339_instant(text@)),
{
    match parse_instant(text) {
        Some(p) => Some(Timestamp { secs: p.0, nanos: p.1 }),
        None => None,
    }
}

/// The RFC 3339 text of a point in time; empty where it lies out of range.
pub open spec fn shown_instant(t: Timestamp) -> Seq<char> {
    match rfc3339_text(t.secs, t.nanos) {
        Some(s) => s,
        None => Seq::empty(),
    }
}

/// The RFC 3339 text of a point in time; empty where it lies out of range.
pub fn to_rfc3339(t: Timestamp) -> (r: String)
    ensures
        r@ == shown_instant(t),
{
    match instant_text(t.secs, t.nanos) {
        Some(s) => s,
        None => String::new(),
    }
}

/// A readable arc id such as `arc_20260513_101500`, absent where the time
/// lies out of range.
pub fn generate_arc_id(now: Timestamp) -> (r: Option<String>)
    ensures
        r.deep_view() == formatted_instant(now.secs, now.nanos, "arc_%Y%m%d_%H%M%S"@),
{
    proof {
        reveal_strlit("arc_%Y%m%d_%H%M%S");
        reveal_with_fuel(is_date_pattern, 18);
    }
    instant_format(now.secs, now.nanos, "arc_%Y%m%d_%H%M%S")
}

// ---------------------------------------------------------------------------
// How far apart
// ---------------------------------------------------------------------------

/// The second of the day.
pub open spec fn second_of_day(t: Timestamp) -> int {
    (t.secs as int) % 86_400
}

/// A point within a leap second carries more than a second's nanoseconds.
pub open spec fn in_leap_second(t: Timestamp) -> bool {
    t.nanos >= 1_000_000_000
}

/// The nanoseconds from `then` to `now`. A leap second that lies between the
/// two times of day counts.
pub open spec fn nanos_between(now: Timestamp, then: Timestamp) -> int {
    let leap = if second_of_day(now) > second_of_day(then) && in_leap_second(then) {
        1int
    } else if second_of_day(now) < second_of_day(then) && in_leap_second(now) {
        -1int
    } else {
        0int
    };
    (now.secs - then.secs + leap) * 1_000_000_000 + now.nanos - then.nanos
}

/// Whole seconds from `then` to `now`, towards zero.
pub open spec fn seconds_between(now: Timestamp, then: Timestamp) -> int {
    let n = nanos_between(now, then);
    if n >= 0 {
        n / 1_000_000_000
    } else {
        -((-n) / 1_000_000_000)
    }
}

/// Did fewer than `limit` seconds pass from `then` to `now`?
pub fn younger_than(now: Timestamp, then: Timestamp, limit: u32) -> (r: bool)
    ensures
        r == (seconds_between(now, then) < limit),
{
    let a: i128 = now.secs as i128;
    let b: i128 = then.secs as i128;
    let day_a: i128 = if a % 86_400 < 0 { a % 86_400 + 86_400 } else { a % 86_400 };
    let day_b: i128 = if b % 86_400 < 0 { b % 86_400 + 86_400 } else { b % 86_400 };
    let leap: i128 = if day_a > day_b && then.nanos >= 1_000_000_000 {
        1
    } else if day_a < day_b && now.nanos >= 1_000_000_000 {
        -1
    } else {
        0
    };
    let n: i128 = (a - b + leap) * 1_000_000_000 + now.nanos as i128 - then.nanos as i128;
    proof {
        assert(n == nanos_between(now, then));
    }
    if n < 0 {
        limit > 0 || n <= -1_000_000_000
    } else {
        n < limit as i128 * 1_000_000_000
    }
}

/// Of two points outside leap seconds, the seconds between them are those of
/// their distance on the time line.
pub proof fn distance_without_leap_seconds(now: Timestamp, then: Timestamp)
    requires
        !in_leap_second(now),
        !in_leap_second(then),
        now.secs >= then.secs,
    ensures
        now.nanos >= then.nanos ==> seconds_between(now, then) == now.secs - then.secs,
        now.secs > then.secs && now.nanos < then.nanos ==> seconds_between(now, then) == now.secs
            - then.secs - 1,
{
    let d = now.secs - then.secs;
    let f = now.nanos - then.nanos;
    let n = nanos_between(now, then);
    assert(n == d * 1_000_000_000 + f);
    if f >= 0 {
        assert(n / 1_000_000_000 == d) by (nonlinear_arith)
            requires
                n == d * 1_000_000_000 + f,
                0 <= f < 1_000_000_000,
        ;
        assert(n >= 0) by (nonlinear_arith)
            requires
                n == d * 1_000_000_000 + f,
                d >= 0,
                f >= 0,
        ;
    } else if d > 0 {
        assert(n / 1_000_000_000 == d - 1) by (nonlinear_arith)
            requires
                n == d * 1_000_000_000 + f,
                -1_000_000_000 < f < 0,
        ;
        assert(n >= 0) by (nonlinear_arith)
            requires
                n == d * 1_000_000_000 + f,
                d >= 1,
                f > -1_000_000_000,
        ;
    }
}

/// The distance between two points in time has a direction: backwards it is as
/// far as forwards. A leap second lies between its own second and any later
/// one of the day.
pub proof fn distances_have_a_direction(now: Timestamp, then: Timestamp)
    ensures
        nanos_between(then, now) == -nanos_between(now, then),
        seconds_between(then, now) == -seconds_between(now, then),
        !in_leap_second(now) && !in_leap_second(then) ==> nanos_between(now, then) == (now.secs
            - then.secs) * 1_000_000_000 + now.nanos - then.nanos,
        in_leap_second(then) && !in_leap_second(now) && second_of_day(now) > second_of_day(then)
            ==> nanos_between(now, then) == (now.secs - then.secs + 1) * 1_000_000_000 + now.nanos
            - then.nanos,
        in_leap_second(then) && !in_leap_second(now) && second_of_day(now) <= second_of_day(then)
            ==> nanos_between(now, then) == (now.secs - then.secs) * 1_000_000_000 + now.nanos
            - then.nanos,
        nanos_between(now, then) >= 0 ==> seconds_between(now, then) * 1_000_000_000
            <= nanos_between(now, then) < (seconds_between(now, then) + 1) * 1_000_000_000,
{
}

/// A point in time is shown as its text, and what was read is the point that
/// was spelled.
pub proof fn instants_are_shown_and_read(t: Timestamp, secs: i64, nanos: u32)
    ensures
        rfc3339_text(t.secs, t.nanos) matches Some(s) ==> shown_instant(t) == s,
        rfc3339_text(t.secs, t.nanos) is None ==> shown_instant(t).len() == 0,
        instant_of(Some((secs, nanos))) == Some(Timestamp { secs, nanos }),
        instant_of(None) is None,
{
}

/// The second of the day counts from midnight.
pub proof fn days_begin_at_midnight(t: Timestamp)
    ensures
        0 <= second_of_day(t) < 86_400,
        (t.secs - second_of_day(t)) % 86_400 == 0,
        in_leap_second(t) <==> t.nanos >= 1_000_000_000,
{
}

} // verus!
