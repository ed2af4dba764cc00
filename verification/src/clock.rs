//! Instants read from RFC 3339 text and from the system clock.
//!
//! An instant is a pair `(seconds, nanoseconds)` since the Unix epoch, as chrono's
//! `timestamp` and `timestamp_subsec_nanos` give it; instants are ordered
//! lexicographically, as chrono orders date-times.

use vstd::prelude::*;

verus! {

/// What chrono's `DateTime::parse_from_rfc3339` yields for a text, as an instant
/// (`None` when the text is refused); a function of the text alone.
pub uninterp spec fn rfc3339_instant(s: Seq<char>) -> Option<(i64, u32)>;

/// Calls `chrono::DateTime::parse_from_rfc3339` and reads the instant with `timestamp`
/// and `timestamp_subsec_nanos`. The contract claims that the result is a function of
/// the text, named `rfc3339_instant`, and that the nanosecond part stays below two
/// seconds (chrono documents up to 1,999,999,999 for a leap second). Which texts parse,
/// and to what, is not restated.
#[verifier::external_body]
pub(crate) fn parse_rfc3339(s: &str) -> (r: Option<(i64, u32)>)
    ensures
        r == rfc3339_instant(s@),
        r matches Some(t) ==> t.1 < 2_000_000_000,
{
    chrono::DateTime::parse_from_rfc3339(s).ok().map(|d| (d.timestamp(), d.timestamp_subsec_nanos()))
}

/// What chrono writes for an RFC 3339 text with a strftime pattern (`None` when the
/// text is refused, or when the pattern holds an item chrono cannot write); a function
/// of the text and the pattern alone.
pub uninterp spec fn rfc3339_formatted(s: Seq<char>, pattern: Seq<char>) -> Option<Seq<char>>;

/// Calls `chrono::DateTime::parse_from_rfc3339` and writes the result with `format`
/// and `DelayedFormat::write_to`. The contract claims that the result is a function of
/// the text and the pattern, named `rfc3339_formatted`; that a text chrono refuses to
/// parse gives `None`; and that a parsed text always writes with the pattern
/// `%B %d, %Y at %I:%M %p`, whose items (month name, day, year, 12-hour clock, minute,
/// AM/PM) chrono can all write for a date-time. What is written is not restated.
#[verifier::external_body]
pub(crate) fn format_rfc3339(s: &str, pattern: &str) -> (r: Option<String>)
    ensures
        r matches Some(t) ==> rfc3339_formatted(s@, pattern@) == Some(t@),
        r is None ==> rfc3339_formatted(s@, pattern@) is None,
        rfc3339_instant(s@) is None ==> r is None,
        rfc3339_instant(s@) is Some && pattern@ == "%B %d, %Y at %I:%M %p"@ ==> r is Some,
{
    let mut out = String::new();
    match chrono::DateTime::parse_from_rfc3339(s) {
        Ok(d) => match d.format(pattern).write_to(&mut out) {
            Ok(()) => Some(out),
            Err(_) => None,
        },
        Err(_) => None,
    }
}

/// Calls `chrono::Utc::now`. The contract claims only that the nanosecond part stays
/// below two seconds; the time itself is whatever the clock says.
#[verifier::external_body]
pub(crate) fn now_instant() -> (r: (i64, u32))
    ensures
        r.1 < 2_000_000_000,
{
    let now = chrono::Utc::now();
    (now.timestamp(), now.timestamp_subsec_nanos())
}

/// `a` comes strictly before `b`.
pub open spec fn instant_before(a: (i64, u32), b: (i64, u32)) -> bool {
    a.0 < b.0 || (a.0 == b.0 && a.1 < b.1)
}

/// Nanoseconds from `a` to `b`.
pub open spec fn nanos_between(a: (i64, u32), b: (i64, u32)) -> int {
    (b.0 - a.0) * 1_000_000_000 + (b.1 - a.1)
}

/// Whether `a` comes strictly before `b`.
pub fn is_before(a: (i64, u32), b: (i64, u32)) -> (r: bool)
    ensures
        r == instant_before(a, b),
{
    a.0 < b.0 || (a.0 == b.0 && a.1 < b.1)
}

/// Whether at least `secs` whole seconds separate `a` from the later `b`, i.e. whether
/// the duration `b - a`, counted in whole seconds toward zero, is at least `secs`.
pub fn at_least_seconds_between(a: (i64, u32), b: (i64, u32), secs: i64) -> (r: bool)
    ensures
        r == (nanos_between(a, b) >= secs * 1_000_000_000),
{
    let d: i128 = (b.0 as i128 - a.0 as i128) * 1_000_000_000i128 + (b.1 as i128 - a.1 as i128);
    d >= (secs as i128) * 1_000_000_000i128
}

} // verus!
