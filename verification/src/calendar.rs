//! Instants, calendar dates, and the local wall clock.
//!
//! A task starts at an instant. The form shows and takes that instant as a
//! date, an hour and a minute on the wall clock of the machine's time zone.
//! Going from one to the other is left to `chrono`; this module gives the
//! plain values that the rest of the library works on.

use vstd::prelude::*;
use chrono::{DateTime, Datelike, Local, NaiveDate, TimeZone, Utc};

verus! {

/// A point in time: whole seconds since 1970-01-01 00:00:00 UTC, and the
/// nanoseconds since the last whole second.
#[derive(Clone, Copy, Debug, PartialEq, Eq, Structural)]
pub struct Instant {
    pub seconds: i64,
    pub nanos: u32,
}

/// A day of the calendar.
#[derive(Clone, Copy, Debug, PartialEq, Eq, Structural)]
pub struct Date {
    pub year: i32,
    pub month: u32,
    pub day: u32,
}

/// An instant as the local wall clock shows it: the day, and the day, the
/// hour and the minute as the form writes them.
pub struct LocalStart {
    pub date: Date,
    /// The day as year, month and day with hyphens between.
    pub date_text: String,
    /// The hour of the day, in two digits.
    pub hour_text: String,
    /// The minute of the hour, in two digits.
    pub minute_text: String,
}

/// A `LocalStart` with its texts as sequences of characters.
pub struct LocalView {
    pub date: Date,
    pub date_text: Seq<char>,
    pub hour_text: Seq<char>,
    pub minute_text: Seq<char>,
}

impl LocalStart {
    /// The value with its texts as sequences of characters.
    pub open spec fn view(&self) -> LocalView {
        LocalView {
            date: self.date,
            date_text: self.date_text@,
            hour_text: self.hour_text@,
            minute_text: self.minute_text@,
        }
    }
}

/// The value of `local`, if there is one, with its texts as sequences of
/// characters.
pub open spec fn local_of(local: Option<LocalStart>) -> Option<LocalView> {
    match local {
        Some(l) => Some(l@),
        None => None,
    }
}

/// The values of `v` with their texts as sequences of characters.
pub open spec fn locals_of(v: Seq<Option<LocalStart>>) -> Seq<Option<LocalView>> {
    Seq::new(v.len(), |i: int| local_of(v[i]))
}

/// Whether `a` is earlier than `b`.
pub open spec fn earlier(a: Instant, b: Instant) -> bool {
    a.seconds < b.seconds || (a.seconds == b.seconds && a.nanos < b.nanos)
}

impl Instant {
    /// Whether this instant is earlier than `other`.
    pub fn is_before(&self, other: &Instant) -> (b: bool)
        ensures
            b == earlier(*self, *other),
    {
        self.seconds < other.seconds || (self.seconds == other.seconds && self.nanos
            < other.nanos)
    }
}

/// The furthest that an instant may lie from 1970, in seconds, for the local
/// wall clock to be asked about it: some 253,000 years.
pub const CLOCK_RANGE_SECONDS: i64 = 8_000_000_000_000;

/// Whether the local wall clock can be asked about `at`.
pub open spec fn in_clock_range(at: Instant) -> bool {
    -CLOCK_RANGE_SECONDS <= at.seconds <= CLOCK_RANGE_SECONDS
}

/// The day that `text` names, as `chrono` reads it with the format
/// `%Y-%m-%d`; `None` where `chrono` does not read a day in it.
pub uninterp spec fn date_of_text(text: Seq<char>) -> Option<Date>;

/// Reads a day written as year, month and day with hyphens between.
///
/// Calls `chrono::NaiveDate::parse_from_str` with the format `%Y-%m-%d`. The
/// result is a function of the text alone, and that is all that is claimed:
/// it is the day that `date_of_text` names.
#[verifier::external_body]
pub(crate) fn parse_date(text: &str) -> (r: Option<Date>)
    ensures
        r == date_of_text(text@),
{
    let day = NaiveDate::parse_from_str(text, "%Y-%m-%d").ok()?;
    Some(Date { year: day.year(), month: day.month(), day: day.day() })
}

/// Whether the nanoseconds of `at` are those of a second that `chrono`
/// knows: fewer than a thousand million, or, for a leap second, fewer than
/// two thousand million in the last second of a minute.
pub open spec fn is_instant(at: Instant) -> bool {
    at.nanos < 1_000_000_000 || (at.nanos < 2_000_000_000 && at.seconds % 60 == 59)
}

/// How the local wall clock shows `at`.
///
/// Calls `chrono::DateTime::from_timestamp`, `DateTime::with_timezone` with
/// `chrono::Local`, and `DateTime::format` with `%Y-%m-%d`, `%H` and `%M`.
/// Within the clock's range `from_timestamp` gives a time exactly for the
/// nanoseconds that `is_instant` admits, and the steps after it always give
/// their result: that is what is claimed. What the clock shows depends on
/// the time zone of the machine, so nothing is claimed of it. Instants out
/// of the clock's range are left out because `chrono` cannot show those
/// close to the ends of its calendar.
#[verifier::external_body]
pub(crate) fn local_start(at: Instant) -> (r: Option<LocalStart>)
    requires
        in_clock_range(at),
    ensures
        r is Some <==> is_instant(at),
{
    let local = DateTime::<Utc>::from_timestamp(at.seconds, at.nanos)?.with_timezone(&Local);
    let day = local.date_naive();
    Some(
        LocalStart {
            date: Date { year: day.year(), month: day.month(), day: day.day() },
            date_text: local.format("%Y-%m-%d").to_string(),
            hour_text: local.format("%H").to_string(),
            minute_text: local.format("%M").to_string(),
        },
    )
}

/// The instant at which the local wall clock shows `hour`:`minute` on `date`.
///
/// Calls `chrono::NaiveDate::from_ymd_opt`, `NaiveDate::and_hms_opt` with no
/// seconds, and `TimeZone::from_local_datetime` on `chrono::Local`. There is
/// no instant where the day, the hour or the minute does not exist, and none
/// is given where the clock shows the time twice or skips it. Which instant
/// it is depends on the time zone of the machine. Claimed is what holds in
/// every time zone: `and_hms_opt` gives nothing for an hour from 24 on or a
/// minute from 60 on, and the time that it makes has no nanoseconds, which
/// the offset of the time zone, counted in whole seconds, leaves as they
/// are.
#[verifier::external_body]
pub(crate) fn instant_of_local(date: Date, hour: u32, minute: u32) -> (r: Option<Instant>)
    ensures
        hour >= 24 || minute >= 60 ==> r is None,
        r matches Some(at) ==> at.nanos == 0,
{
    let day = NaiveDate::from_ymd_opt(date.year, date.month, date.day)?;
    let local = Local.from_local_datetime(&day.and_hms_opt(hour, minute, 0)?).single()?;
    Some(Instant { seconds: local.timestamp(), nanos: local.timestamp_subsec_nanos() })
}

/// The day that the local wall clock shows now.
///
/// Calls `chrono::Local::now` and `DateTime::date_naive`. The answer depends
/// on the time and on the time zone of the machine, so nothing is claimed of
/// it.
#[verifier::external_body]
pub(crate) fn today() -> (date: Date) {
    let day = Local::now().date_naive();
    Date { year: day.year(), month: day.month(), day: day.day() }
}

/// Whether the local wall clock shows `at`: it shows every instant within
/// its range whose nanoseconds are those of a second that `chrono` knows,
/// and no other.
pub open spec fn clock_shows(at: Instant) -> bool {
    in_clock_range(at) && is_instant(at)
}

/// How the local wall clock shows `at`, where it shows it.
pub fn local_start_of(at: Instant) -> (r: Option<LocalStart>)
    ensures
        r is Some <==> clock_shows(at),
{
    if -CLOCK_RANGE_SECONDS <= at.seconds && at.seconds <= CLOCK_RANGE_SECONDS {
        local_start(at)
    } else {
        None
    }
}

} // verus!
