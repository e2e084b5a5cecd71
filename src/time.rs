//! Instants, local calendar days and the calls into chrono that read and write them.
//!
//! An instant is a count of seconds since 1970-01-01T00:00:00 UTC. A wall-clock
//! reading is the same count taken on the local clock's face, so that its day
//! number is `wall / 86400` (rounded down) and its time of day is the remainder.
use chrono::{DateTime, Local, NaiveDate, NaiveDateTime, NaiveTime, Utc};
use crate::text::digit_char;
use vstd::prelude::*;

verus! {

/// Seconds in a day.
pub const DAY_SECS: i64 = 86400;

/// What `NaiveDate::parse_from_str(text, fmt)` reads, as the seconds of that day's midnight.
pub uninterp spec fn date_parse(text: Seq<char>, fmt: Seq<char>) -> Option<i64>;

/// What `NaiveDateTime::parse_from_str(text, fmt)` reads, in seconds.
pub uninterp spec fn datetime_parse(text: Seq<char>, fmt: Seq<char>) -> Option<i64>;

/// What `DateTime::parse_from_rfc3339(text)` reads, as an instant.
pub uninterp spec fn rfc3339_parse(text: Seq<char>) -> Option<i64>;

/// What chrono's `format(fmt)` writes for a wall-clock reading.
pub uninterp spec fn wall_text(wall: i64, fmt: Seq<char>) -> Seq<char>;

/// A reading's time of day as `%H:%M` writes it: hour and minute, two digits each.
pub open spec fn clock_text(wall: int) -> Seq<char> {
    let secs = wall % (DAY_SECS as int);
    let h = secs / 3600;
    let m = (secs % 3600) / 60;
    seq![digit_char(h / 10), digit_char(h % 10), ':', digit_char(m / 10), digit_char(m % 10)]
}

/// A span of seconds that chrono's dates and times never leave.
pub open spec fn chrono_span(t: int) -> bool {
    -9_000_000_000_000 < t < 9_000_000_000_000
}

/// A span of seconds that chrono can always format.
pub open spec fn printable(t: int) -> bool {
    -8_000_000_000_000 <= t <= 8_000_000_000_000
}

/// The formats that this library hands to chrono for writing.
pub open spec fn known_format(fmt: Seq<char>) -> bool {
    fmt == "%H:%M"@ || fmt == "%b %-d"@ || fmt == "%Y-%m-%dT%H:%M:%SZ"@ || fmt == "%Y-%m-%d"@
        || fmt == "%Y-%m-%dT%H:%M:%S+00:00"@
}

/// The day that a wall-clock reading falls on.
pub open spec fn day_of(wall: int) -> int {
    wall / (DAY_SECS as int)
}

/// Relies on `NaiveDate::parse_from_str`: the date that `text` writes in `fmt`, if any.
/// chrono's dates lie within about 262 000 years of 1970.
#[verifier::external_body]
pub(crate) fn parse_date(text: &str, fmt: &str) -> (r: Option<i64>)
    ensures
        r == date_parse(text@, fmt@),
        r matches Some(w) ==> chrono_span(w as int) && (w as int) % (DAY_SECS as int) == 0,
{
    NaiveDate::parse_from_str(text, fmt).ok().map(|d| d.and_time(NaiveTime::MIN).and_utc().timestamp())
}

/// Relies on `NaiveDateTime::parse_from_str`: the date and time that `text` writes in `fmt`.
#[verifier::external_body]
pub(crate) fn parse_datetime(text: &str, fmt: &str) -> (r: Option<i64>)
    ensures
        r == datetime_parse(text@, fmt@),
        r matches Some(w) ==> chrono_span(w as int),
{
    NaiveDateTime::parse_from_str(text, fmt).ok().map(|t| t.and_utc().timestamp())
}

/// Relies on `DateTime::parse_from_rfc3339`: the instant that an RFC 3339 text names.
#[verifier::external_body]
pub(crate) fn parse_rfc3339(text: &str) -> (r: Option<i64>)
    ensures
        r == rfc3339_parse(text@),
        r matches Some(u) ==> chrono_span(u as int),
{
    DateTime::parse_from_rfc3339(text).ok().map(|t| t.timestamp())
}

/// Relies on `NaiveDateTime::format`: writes a wall-clock reading in one of the known
/// formats; `%H:%M` is the zero-padded hour and minute.
#[verifier::external_body]
pub(crate) fn format_wall(wall: i64, fmt: &str) -> (r: String)
    requires
        printable(wall as int),
        known_format(fmt@),
    ensures
        r@ == wall_text(wall, fmt@),
        fmt@ == "%H:%M"@ ==> r@ == clock_text(wall as int),
{
    match DateTime::from_timestamp(wall, 0) {
        Some(t) => t.naive_utc().format(fmt).to_string(),
        None => String::new(),
    }
}

/// Relies on `NaiveDateTime::and_local_timezone(Local)` and `earliest()`: the first
/// instant at which the local clock shows `wall`, if it ever does, with the clock's
/// offset from UTC then. chrono writes that instant as the reading less the offset,
/// and an offset is always less than a day.
#[verifier::external_body]
pub(crate) fn local_wall_to_instant(wall: i64) -> (r: Option<(i64, i32)>)
    ensures
        r matches Some((u, o)) ==> u + o == wall && -DAY_SECS < o < DAY_SECS && chrono_span(u as int),
{
    let naive = DateTime::from_timestamp(wall, 0)?.naive_utc();
    let t = naive.and_local_timezone(Local).earliest()?;
    Some((t.timestamp(), t.offset().local_minus_utc()))
}

/// Relies on `DateTime::with_timezone(&Local)`: how far the local clock is ahead of
/// UTC at an instant, in seconds; always less than a day either way. chrono has
/// no instant outside its span.
#[verifier::external_body]
pub(crate) fn local_offset_at(utc: i64) -> (r: Option<i32>)
    ensures
        r matches Some(o) ==> -DAY_SECS < o < DAY_SECS && chrono_span(utc as int),
{
    DateTime::from_timestamp(utc, 0).map(|t| t.with_timezone(&Local).offset().local_minus_utc())
}

/// Relies on `Utc::now`: the current instant, which chrono keeps within its span.
#[verifier::external_body]
pub(crate) fn now_instant() -> (r: i64)
    ensures
        chrono_span(r as int),
{
    Utc::now().timestamp()
}

/// An instant together with what the local clock showed at it.
#[derive(Clone, Copy, Debug, PartialEq, Eq)]
pub struct LocalInstant {
    pub utc: i64,
    pub wall: i64,
}

impl LocalInstant {
    pub open spec fn wf(self) -> bool {
        chrono_span(self.utc as int) && self.utc - DAY_SECS < self.wall < self.utc + DAY_SECS
    }

    /// The local calendar day of this instant.
    pub open spec fn day(self) -> int {
        day_of(self.wall as int)
    }
}

/// The moment a computation runs at: the instant and the local day it falls on.
#[derive(Clone, Copy, Debug, PartialEq, Eq)]
pub struct Clock {
    pub now: i64,
    pub today: i64,
}

impl Clock {
    pub open spec fn wf(self) -> bool {
        chrono_span(self.now as int) && -200_000_000 < self.today < 200_000_000
    }

    /// A clock at instant `now` whose local clock shows `wall`.
    pub fn at(now: LocalInstant) -> (r: Clock)
        requires
            now.wf(),
        ensures
            r.now == now.utc,
            r.today == now.day(),
            r.wf(),
    {
        Clock { now: now.utc, today: day_number(now.wall) }
    }

    /// The clock of this moment, read from the system.
    pub fn current() -> (r: Option<Clock>)
        ensures
            r matches Some(c) ==> c.wf(),
    {
        let now = now_instant();
        match local_instant(now) {
            Some(li) => Some(Clock::at(li)),
            None => None,
        }
    }
}

/// The day that a wall-clock reading falls on.
pub fn day_number(wall: i64) -> (r: i64)
    requires
        -10_000_000_000_000 < wall < 10_000_000_000_000,
    ensures
        r == day_of(wall as int),
        -200_000_000 < r < 200_000_000,
{
    let shifted = (wall + 17_280_000_000_000) as u64;
    let q = (shifted / 86400) as i64;
    proof {
        vstd::arithmetic::div_mod::lemma_hoist_over_denominator(wall as int, 200_000_000, 86400);
    }
    q - 200_000_000
}

/// The instant `utc` with the local clock's reading at it.
pub fn local_instant(utc: i64) -> (r: Option<LocalInstant>)
    requires
        -4_000_000_000_000_000 < utc < 4_000_000_000_000_000,
    ensures
        r matches Some(li) ==> li.utc == utc && li.wf(),
{
    match local_offset_at(utc) {
        Some(offset) => Some(LocalInstant { utc, wall: utc + offset as i64 }),
        None => None,
    }
}

/// `text` when the reading can be written, else nothing.
pub open spec fn shown(wall: int, fmt: Seq<char>) -> Seq<char> {
    if printable(wall) {
        wall_text(wall as i64, fmt)
    } else {
        Seq::empty()
    }
}

/// The time of day of a reading, where it can be written; else nothing.
pub open spec fn clock_shown(wall: int) -> Seq<char> {
    if printable(wall) {
        clock_text(wall)
    } else {
        Seq::empty()
    }
}

/// Writes a wall-clock reading in a known format; empty where chrono could not.
pub fn show_wall(wall: i64, fmt: &str) -> (r: String)
    requires
        known_format(fmt@),
    ensures
        r@ == shown(wall as int, fmt@),
        fmt@ == "%H:%M"@ ==> r@ == clock_shown(wall as int),
{
    if -8_000_000_000_000 <= wall && wall <= 8_000_000_000_000 {
        format_wall(wall, fmt)
    } else {
        String::new()
    }
}

/// The first instant at which the local clock shows `wall`, with that reading.
pub fn local_reading(wall: i64) -> (r: Option<LocalInstant>)
    ensures
        r matches Some(li) ==> li.wall == wall && li.wf(),
{
    match local_wall_to_instant(wall) {
        Some((u, _)) => Some(LocalInstant { utc: u, wall }),
        None => None,
    }
}

/// The first instant of a local calendar day, if the local clock shows its midnight.
pub fn local_midnight(day: i64) -> (r: Option<LocalInstant>)
    requires
        -200_000_000 < day < 200_000_000,
    ensures
        r matches Some(li) ==> li.wall == day * DAY_SECS && li.wf(),
{
    local_reading(day * DAY_SECS)
}

} // verus!
