//! The machine's clock, of which nothing is known but what it was asked.

use std::time::Instant;
use vstd::prelude::*;

verus! {

/// A point in time, as std hands it out. Nothing inside it is ever looked at.
#[verifier::external_type_specification]
#[verifier::external_body]
pub struct ExInstant(Instant);

/// `Instant::now` reads the clock. Any reading may come back.
pub assume_specification[ Instant::now ]() -> (now: Instant)
;

/// The nanoseconds from the earlier of two moments to the later one, as
/// `Instant::saturating_duration_since` counts them.
pub uninterp spec fn nanos_apart(later: Instant, earlier: Instant) -> u128;

/// `Instant::saturating_duration_since`, in nanoseconds: what lies between two
/// moments rests on the two alone, and nothing lies between a moment and
/// itself.
#[verifier::external_body]
pub(crate) fn nanos_between(later: &Instant, earlier: &Instant) -> (nanos: u128)
    ensures
        nanos == nanos_apart(*later, *earlier),
        *later == *earlier ==> nanos == 0,
{
    later.saturating_duration_since(*earlier).as_nanos()
}

/// `SystemTime::now`, as the low bits of the nanoseconds since the epoch, for a
/// number nobody can foresee; nothing if the clock stands before the epoch. Any
/// number may come back.
#[verifier::external_body]
pub(crate) fn seed_now() -> (seed: Option<u64>) {
    let since = std::time::SystemTime::now().duration_since(std::time::UNIX_EPOCH).ok()?;
    Some(since.as_nanos() as u64)
}

/// A character that a year may begin with: a digit, or the sign of one that is
/// not of four digits.
pub open spec fn begins_a_year(c: char) -> bool {
    ('0' <= c && c <= '9') || c == '+' || c == '-'
}

/// A moment as `20260131-235959` names it: the year, the month and the day, a
/// hyphen, and the hour, the minute and the second. The year is the only part
/// that may be longer, or signed.
pub open spec fn names_a_moment(s: Seq<char>) -> bool {
    &&& s.len() >= 15
    &&& s[s.len() - 7] == '-'
    &&& forall|i: int|
        0 < i < s.len() && i != s.len() - 7 ==> '0' <= #[trigger] s[i] && s[i] <= '9'
    &&& begins_a_year(s[0])
}

/// A moment as `2026-01-31 23:59:59` tells it, the year as above.
pub open spec fn tells_a_moment(s: Seq<char>) -> bool {
    let n = s.len() as int;
    &&& n >= 19
    &&& s[n - 15] == '-' && s[n - 12] == '-' && s[n - 9] == ' ' && s[n - 6] == ':' && s[n - 3]
        == ':'
    &&& forall|i: int|
        0 < i < n && i != n - 15 && i != n - 12 && i != n - 9 && i != n - 6 && i != n - 3 ==> '0'
            <= #[trigger] s[i] && s[i] <= '9'
    &&& begins_a_year(s[0])
}

/// `chrono::Local::now`, written in one of two formats. Which moment comes back
/// is up to the clock; how it is written is not: two digits each for the month,
/// the day, the hour, the minute and the second, and the year in four, or signed
/// and perhaps longer where four do not hold it.
#[verifier::external_body]
pub(crate) fn now_stamp(format: &str) -> (stamp: String)
    requires
        format@ == "%Y%m%d-%H%M%S"@ || format@ == "%Y-%m-%d %H:%M:%S"@,
    ensures
        format@ == "%Y%m%d-%H%M%S"@ ==> names_a_moment(stamp@),
        format@ == "%Y-%m-%d %H:%M:%S"@ ==> tells_a_moment(stamp@),
{
    chrono::Local::now().format(format).to_string()
}

} // verus!
