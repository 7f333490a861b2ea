//! Points in time, and how far apart they are.

use crate::system::{clock_showed, clock_showed_text};
use chrono::{DateTime, Local, Utc};
use vstd::prelude::*;

verus! {

/// A reading of the system clock: whole seconds since the Unix epoch and the
/// nanoseconds past them.
#[derive(Clone, Copy, Debug, PartialEq, Eq, Structural)]
pub struct Timestamp {
    pub secs: i64,
    pub nanos: u32,
}

/// The first second of the calendar: January 1 of the year -262143.
pub const MIN_SECS: i64 = -8_334_601_228_800;

/// The last second of the calendar: the end of December 31, 262142.
pub const MAX_SECS: i64 = 8_210_266_876_799;

/// No two timestamps are further apart than this many milliseconds.
pub const MAX_ELAPSED_MS: i64 = 16_544_868_105_599_999;

impl Timestamp {
    /// The second lies in the calendar, and the nanoseconds are less than a second.
    pub open spec fn valid(self) -> bool {
        &&& MIN_SECS <= self.secs <= MAX_SECS
        &&& self.nanos < 1_000_000_000
    }

    /// A time that the system clock can show: not before the Unix epoch.
    pub open spec fn is_reading(self) -> bool {
        &&& self.valid()
        &&& self.secs >= 0
    }

    /// Nanoseconds since the Unix epoch.
    pub open spec fn instant(self) -> int {
        self.secs * 1_000_000_000 + self.nanos
    }
}

/// The quotient of `n` by a positive `d`, rounded towards zero.
pub open spec fn whole(n: int, d: int) -> int {
    if n >= 0 {
        n / d
    } else {
        -((-n) / d)
    }
}

/// Whole milliseconds from `earlier` to `later`; negative if the clock went back.
pub open spec fn elapsed_ms(later: Timestamp, earlier: Timestamp) -> int {
    whole(later.instant() - earlier.instant(), 1_000_000)
}

/// Whole seconds from `earlier` to `later`; negative if the clock went back.
pub open spec fn elapsed_secs(later: Timestamp, earlier: Timestamp) -> int {
    whole(later.instant() - earlier.instant(), 1_000_000_000)
}

/// Whole minutes from `earlier` to `later`; negative if the clock went back.
pub open spec fn elapsed_mins(later: Timestamp, earlier: Timestamp) -> int {
    whole(later.instant() - earlier.instant(), 60_000_000_000)
}

/// Reads the clock with `chrono::Local::now`, and takes the reading apart with
/// `timestamp` and `timestamp_subsec_nanos`.
///
/// Taken on trust: the reading is a date of chrono's calendar at or after the
/// Unix epoch, and never inside a leap second, because chrono makes it from
/// the system time since the epoch. Which time it is, nothing says. chrono
/// panics if the system clock is set before the epoch, or if it cannot use the
/// rules of the machine's time zone. `clock_showed` marks the result as a
/// reading, and adds nothing to what is trusted.
#[verifier::external_body]
pub(crate) fn local_now() -> (now: Timestamp)
    ensures
        now.is_reading(),
        clock_showed(now),
{
    let now = Local::now();
    Timestamp { secs: now.timestamp(), nanos: now.timestamp_subsec_nanos() }
}

/// A decimal digit.
pub open spec fn is_digit(c: char) -> bool {
    48 <= c as int <= 57
}

/// Two digits stand at `i`, and make a number from `low` to `high`.
pub open spec fn has_number(text: Seq<char>, i: int, low: int, high: int) -> bool {
    &&& is_digit(text[i])
    &&& is_digit(text[i + 1])
    &&& low <= (text[i] as int - 48) * 10 + (text[i + 1] as int - 48) <= high
}

/// A date and a time of day, as in `2024-05-06 07:08:09`. The year has at least
/// four digits, and from the year 10000 on a plus sign in front.
pub open spec fn is_local_time(text: Seq<char>) -> bool {
    let n = text.len() as int;
    &&& n >= 19
    &&& is_digit(text[0]) || text[0] == '+'
    &&& forall|i: int| 1 <= i < n - 15 ==> is_digit(#[trigger] text[i])
    &&& text[n - 15] == '-'
    &&& has_number(text, n - 14, 1, 12)
    &&& text[n - 12] == '-'
    &&& has_number(text, n - 11, 1, 31)
    &&& text[n - 9] == ' '
    &&& has_number(text, n - 8, 0, 23)
    &&& text[n - 6] == ':'
    &&& has_number(text, n - 5, 0, 59)
    &&& text[n - 3] == ':'
    &&& has_number(text, n - 2, 0, 59)
}

/// Writes out the local time, as `chrono::Local::now` gives it, with
/// `chrono::DateTime::format`.
///
/// Taken on trust: the text is a date and a time of day. Which ones depends on
/// the clock and on the time zone of the machine, and nothing is said of it.
/// Only the one format is admitted, because chrono panics on a malformed one.
/// `clock_showed_text` marks the text as this function's.
#[verifier::external_body]
pub(crate) fn local_time_text(format: &str) -> (text: String)
    requires
        format@ == "%Y-%m-%d %H:%M:%S"@,
    ensures
        is_local_time(text@),
        clock_showed_text(text@),
{
    Local::now().format(format).to_string()
}

/// Calls `chrono::DateTime::signed_duration_since` and
/// `chrono::TimeDelta::num_milliseconds` on the difference.
///
/// Taken on trust: the result is the difference of the two instants in
/// milliseconds, the fraction dropped. chrono's `DateTime::from_timestamp`, by
/// which the timestamps are handed over, accepts every valid one.
#[verifier::external_body]
pub(crate) fn milliseconds_since(later: Timestamp, earlier: Timestamp) -> (ms: i64)
    requires
        later.valid(),
        earlier.valid(),
    ensures
        ms == elapsed_ms(later, earlier),
{
    let later = DateTime::<Utc>::from_timestamp(later.secs, later.nanos).unwrap();
    let earlier = DateTime::<Utc>::from_timestamp(earlier.secs, earlier.nanos).unwrap();
    later.signed_duration_since(earlier).num_milliseconds()
}

/// Calls `chrono::DateTime::signed_duration_since` and
/// `chrono::TimeDelta::num_seconds` on the difference.
///
/// Taken on trust: the result is the difference of the two instants in
/// seconds, the fraction dropped. chrono's `DateTime::from_timestamp`, by
/// which the timestamps are handed over, accepts every valid one.
#[verifier::external_body]
pub(crate) fn seconds_since(later: Timestamp, earlier: Timestamp) -> (secs: i64)
    requires
        later.valid(),
        earlier.valid(),
    ensures
        secs == elapsed_secs(later, earlier),
{
    let later = DateTime::<Utc>::from_timestamp(later.secs, later.nanos).unwrap();
    let earlier = DateTime::<Utc>::from_timestamp(earlier.secs, earlier.nanos).unwrap();
    later.signed_duration_since(earlier).num_seconds()
}

/// Calls `chrono::DateTime::signed_duration_since` and
/// `chrono::TimeDelta::num_minutes` on the difference.
///
/// Taken on trust: the result is the difference of the two instants in
/// minutes, the fraction dropped. chrono's `DateTime::from_timestamp`, by
/// which the timestamps are handed over, accepts every valid one.
#[verifier::external_body]
pub(crate) fn minutes_since(later: Timestamp, earlier: Timestamp) -> (mins: i64)
    requires
        later.valid(),
        earlier.valid(),
    ensures
        mins == elapsed_mins(later, earlier),
{
    let later = DateTime::<Utc>::from_timestamp(later.secs, later.nanos).unwrap();
    let earlier = DateTime::<Utc>::from_timestamp(earlier.secs, earlier.nanos).unwrap();
    later.signed_duration_since(earlier).num_minutes()
}

/// Two timestamps are at most `MAX_ELAPSED_MS` milliseconds apart.
pub proof fn lemma_elapsed_bounded(later: Timestamp, earlier: Timestamp)
    requires
        later.valid(),
        earlier.valid(),
    ensures
        -MAX_ELAPSED_MS <= elapsed_ms(later, earlier) <= MAX_ELAPSED_MS,
{
}

} // verus!
