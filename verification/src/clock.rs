//! The clock, and the notation of times.
use vstd::prelude::*;

use crate::text::{dec, digit_char};

verus! {

/// A time in UTC: the seconds since the start of 1970, and what is beyond them
/// in nanoseconds.
#[derive(Debug, Clone, Copy, PartialEq, Eq, Structural)]
pub struct UtcTime {
    pub secs: i64,
    pub nanos: u32,
}

/// The last second that the calendar shows: the end of the year 262142.
pub open spec fn last_second() -> int {
    8210266876799
}

/// The times that a calendar shows.
pub open spec fn valid_time(t: UtcTime) -> bool {
    0 <= t.secs <= last_second() && t.nanos < 1000000000
}

// ---------------------------------------------------------------------------
// Days
// ---------------------------------------------------------------------------

/// A day of the Gregorian calendar. The months and their days count from one.
pub struct Day {
    pub year: nat,
    pub month: nat,
    pub day: nat,
}

/// Every fourth year is a leap year, but of the hundreds only every fourth.
pub open spec fn is_leap(year: nat) -> bool {
    year % 4 == 0 && (year % 100 != 0 || year % 400 == 0)
}

pub open spec fn month_length(year: nat, month: nat) -> nat {
    if month == 2 {
        if is_leap(year) {
            29
        } else {
            28
        }
    } else if month == 4 || month == 6 || month == 9 || month == 11 {
        30
    } else {
        31
    }
}

pub open spec fn next_day(d: Day) -> Day {
    if d.day < month_length(d.year, d.month) {
        Day { day: d.day + 1, ..d }
    } else if d.month < 12 {
        Day { year: d.year, month: d.month + 1, day: 1 }
    } else {
        Day { year: d.year + 1, month: 1, day: 1 }
    }
}

/// The day that comes `n` days after the first of January 1970.
pub open spec fn day_after(n: nat) -> Day
    decreases n,
{
    if n == 0 {
        Day { year: 1970, month: 1, day: 1 }
    } else {
        next_day(day_after((n - 1) as nat))
    }
}

/// Every day that comes is a day of its month.
pub proof fn lemma_day_of_month(n: nat)
    ensures
        1 <= day_after(n).month <= 12,
        1 <= day_after(n).day <= month_length(day_after(n).year, day_after(n).month),
        day_after(n).year >= 1970,
    decreases n,
{
    if n > 0 {
        lemma_day_of_month((n - 1) as nat);
    }
}

// ---------------------------------------------------------------------------
// Notation
// ---------------------------------------------------------------------------

/// The last `width` decimal digits of `n`, with zeros in front.
pub open spec fn padded(n: nat, width: nat) -> Seq<char>
    decreases width,
{
    if width == 0 {
        Seq::empty()
    } else {
        padded(n / 10, (width - 1) as nat).push(digit_char(n % 10))
    }
}

/// A year in four digits; one that has more, with a plus sign in front.
pub open spec fn year_text(year: nat) -> Seq<char> {
    if year <= 9999 {
        padded(year, 4)
    } else {
        "+"@ + dec(year)
    }
}

/// The year, the month and the day of the month.
pub open spec fn date_text(secs: nat) -> Seq<char> {
    let d = day_after(secs / 86400);
    year_text(d.year) + "-"@ + padded(d.month, 2) + "-"@ + padded(d.day, 2)
}

/// The hour, the minute and the second.
pub open spec fn time_text(secs: nat) -> Seq<char> {
    padded(secs / 3600 % 24, 2) + ":"@ + padded(secs / 60 % 60, 2) + ":"@ + padded(secs % 60, 2)
}

/// What is beyond the second, in as many thousandths as it takes; nothing where
/// nothing is.
pub open spec fn fraction_text(nanos: nat) -> Seq<char> {
    if nanos == 0 {
        Seq::empty()
    } else if nanos % 1000000 == 0 {
        "."@ + padded(nanos / 1000000, 3)
    } else if nanos % 1000 == 0 {
        "."@ + padded(nanos / 1000, 6)
    } else {
        "."@ + padded(nanos, 9)
    }
}

// ---------------------------------------------------------------------------
// The clock
// ---------------------------------------------------------------------------

/// `chrono::Utc::now`: the time that the clock of the system shows. It is not
/// before 1970, and not beyond what `chrono` can hold; which time it is
/// depends on the clock.
#[verifier::external_body]
pub(crate) fn utc_now() -> (r: UtcTime)
    ensures
        valid_time(r),
{
    let now = chrono::Utc::now();
    UtcTime { secs: now.timestamp(), nanos: now.timestamp_subsec_nanos() }
}

/// The patterns that times are written by: the date, and the time of day.
pub open spec fn is_pattern(p: Seq<char>) -> bool {
    p == "%Y-%m-%d"@ || p == "%H:%M:%S"@
}

/// `chrono::DateTime::format` writes the date or the time of day by its
/// pattern: every number with zeros in front, and a year past 9999 with a plus
/// sign.
#[verifier::external_body]
fn write_by_pattern(secs: i64, nanos: u32, pattern: &str) -> (r: String)
    requires
        valid_time(UtcTime { secs, nanos }),
        is_pattern(pattern@),
    ensures
        pattern@ == "%Y-%m-%d"@ ==> r@ == date_text(secs as nat),
        pattern@ == "%H:%M:%S"@ ==> r@ == time_text(secs as nat),
{
    chrono::DateTime::from_timestamp(secs, nanos).unwrap_or_default().format(pattern).to_string()
}

/// `chrono::DateTime::to_rfc3339` writes a time in the form of RFC 3339: the
/// date, a `T`, the time of day with its fraction, and how far the zone is off
/// UTC, which is not at all.
#[verifier::external_body]
fn write_rfc3339(secs: i64, nanos: u32) -> (r: String)
    requires
        valid_time(UtcTime { secs, nanos }),
    ensures
        r@ == date_text(secs as nat) + "T"@ + time_text(secs as nat) + fraction_text(nanos as nat)
            + "+00:00"@,
{
    chrono::DateTime::from_timestamp(secs, nanos).unwrap_or_default().to_rfc3339()
}

/// The seconds of the time that a text writes in the form of RFC 3339; nothing
/// where it writes none.
pub uninterp spec fn rfc3339_secs(text: Seq<char>) -> Option<i64>;

/// `chrono::DateTime::parse_from_rfc3339` reads a time in the form of RFC 3339,
/// and fails on any other text. The outcome depends on the text alone.
#[verifier::external_body]
pub(crate) fn read_rfc3339(text: &str) -> (r: Option<i64>)
    ensures
        r == rfc3339_secs(text@),
{
    chrono::DateTime::parse_from_rfc3339(text).ok().map(|t| t.timestamp())
}

/// The date, the time of day, and both together, in UTC.
#[derive(Debug, PartialEq, Eq)]
pub struct Stamp {
    pub date: String,
    pub time: String,
    pub datetime: String,
}

pub struct StampView {
    pub date: Seq<char>,
    pub time: Seq<char>,
    pub datetime: Seq<char>,
}

impl Stamp {
    pub open spec fn view(&self) -> StampView {
        StampView { date: self.date@, time: self.time@, datetime: self.datetime@ }
    }
}

/// What is written of a time: the date, the time of day, and both together in
/// the form of RFC 3339.
pub open spec fn stamped(t: UtcTime) -> StampView {
    let secs = t.secs as nat;
    StampView {
        date: date_text(secs),
        time: time_text(secs),
        datetime: date_text(secs) + "T"@ + time_text(secs) + fraction_text(t.nanos as nat)
            + "+00:00"@,
    }
}

/// What is written of a time.
pub fn stamp_at(t: UtcTime) -> (r: Stamp)
    requires
        valid_time(t),
    ensures
        r@ == stamped(t),
{
    Stamp {
        date: write_by_pattern(t.secs, t.nanos, "%Y-%m-%d"),
        time: write_by_pattern(t.secs, t.nanos, "%H:%M:%S"),
        datetime: write_rfc3339(t.secs, t.nanos),
    }
}

} // verus!
