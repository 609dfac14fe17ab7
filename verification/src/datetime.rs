//! Points in time with a fixed offset from UTC.
//!
//! The calendar is `chrono`'s: this module hands it texts and numbers and
//! keeps what comes back as a number of seconds and an offset.

use vstd::prelude::*;
use std::fmt::Write;
use chrono::{Datelike, Offset, TimeZone, Timelike};

verus! {

/// Year, month and day that `chrono` reads from a text under a format.
pub uninterp spec fn date_of_text(text: Seq<char>, format: Seq<char>) -> Option<(i32, u32, u32)>;

/// Hour, minute and second that `chrono` reads from a text under a format.
pub uninterp spec fn time_of_text(text: Seq<char>, format: Seq<char>) -> Option<(u32, u32, u32)>;

/// Seconds since the Unix epoch of a local date and time of day at an offset
/// from UTC, where `chrono` has such a point in time.
pub uninterp spec fn timestamp_of_local(
    year: i32,
    month: u32,
    day: u32,
    hour: u32,
    minute: u32,
    second: u32,
    offset_seconds: i32,
) -> Option<i64>;

/// The text that `chrono` writes for a point in time, seen at an offset from
/// UTC, under a format; `None` where it has none.
pub uninterp spec fn time_text_of(timestamp: i64, offset_seconds: i32, format: Seq<char>) -> Option<
    Seq<char>,
>;

/// Whether a number of seconds is an offset from UTC: less than a day either
/// way.
pub open spec fn is_offset(seconds: int) -> bool {
    -86400 < seconds < 86400
}

/// `chrono::NaiveDate::parse_from_str`, with the date handed back as its
/// year, month and day. The result depends on text and format alone; a month
/// is 1 to 12 and a day 1 to 31.
#[verifier::external_body]
pub(crate) fn naive_date_from_str(text: &str, format: &str) -> (r: Option<(i32, u32, u32)>)
    ensures
        r == date_of_text(text@, format@),
        match r {
            Some((_, month, day)) => 1 <= month <= 12 && 1 <= day <= 31,
            None => true,
        },
{
    match chrono::NaiveDate::parse_from_str(text, format) {
        Ok(date) => Some((date.year(), date.month(), date.day())),
        Err(_) => None,
    }
}

/// `chrono::NaiveTime::parse_from_str`, with the time handed back as its
/// hour, minute and second. The result depends on text and format alone; an
/// hour is below 24, a minute and a second below 60.
#[verifier::external_body]
pub(crate) fn naive_time_from_str(text: &str, format: &str) -> (r: Option<(u32, u32, u32)>)
    ensures
        r == time_of_text(text@, format@),
        match r {
            Some((hour, minute, second)) => hour < 24 && minute < 60 && second < 60,
            None => true,
        },
{
    match chrono::NaiveTime::parse_from_str(text, format) {
        Ok(time) => Some((time.hour(), time.minute(), time.second())),
        Err(_) => None,
    }
}

/// The offset of `chrono::Local::now()`: what the machine's time zone is
/// ahead of UTC at this moment, in seconds. It is less than a day either way;
/// nothing else is known of it.
#[verifier::external_body]
pub(crate) fn local_offset_now() -> (r: i32)
    ensures
        is_offset(r as int),
{
    chrono::Local::now().offset().fix().local_minus_utc()
}

/// `chrono::TimeZone::from_local_datetime` on a `FixedOffset`, followed by
/// `DateTime::timestamp`. The date, the time of day and the offset are built
/// from the numbers given; `None` where one of them does not exist or the
/// point in time is out of `chrono`'s range.
#[verifier::external_body]
fn local_to_timestamp(
    year: i32,
    month: u32,
    day: u32,
    hour: u32,
    minute: u32,
    second: u32,
    offset_seconds: i32,
) -> (r: Option<i64>)
    ensures
        r == timestamp_of_local(year, month, day, hour, minute, second, offset_seconds),
        r is Some ==> is_offset(offset_seconds as int),
{
    let date = chrono::NaiveDate::from_ymd_opt(year, month, day)?;
    let local = date.and_hms_opt(hour, minute, second)?;
    let zone = chrono::FixedOffset::east_opt(offset_seconds)?;
    zone.from_local_datetime(&local).single().map(|at| at.timestamp())
}

/// `chrono::DateTime::format`, written to a string, for the point in time
/// `timestamp` seen at `offset_seconds`. `None` where the offset or the
/// timestamp is out of range or the format is not one that `chrono` accepts.
#[verifier::external_body]
fn format_timestamp(timestamp: i64, offset_seconds: i32, format: &str) -> (r: Option<String>)
    ensures
        match r {
            Some(text) => time_text_of(timestamp, offset_seconds, format@) == Some(text@),
            None => time_text_of(timestamp, offset_seconds, format@) is None,
        },
{
    let zone = chrono::FixedOffset::east_opt(offset_seconds)?;
    let at = chrono::DateTime::from_timestamp(timestamp, 0)?.with_timezone(&zone);
    let mut text = String::new();
    write!(text, "{}", at.format(format)).ok()?;
    Some(text)
}

/// A point in time, with the offset from UTC at which it was written down.
#[derive(Debug, Clone, Copy, PartialEq, Eq)]
pub struct DateTimeValue {
    /// Seconds since 1970-01-01 00:00:00 UTC.
    pub timestamp: i64,
    /// What local time is ahead of UTC, in seconds.
    pub offset_seconds: i32,
}

impl DateTimeValue {
    /// The point in time of a local date and time of day at an offset.
    pub fn from_local(
        year: i32,
        month: u32,
        day: u32,
        hour: u32,
        minute: u32,
        second: u32,
        offset_seconds: i32,
    ) -> (r: Option<Self>)
        ensures
            match r {
                Some(at) => timestamp_of_local(
                    year,
                    month,
                    day,
                    hour,
                    minute,
                    second,
                    offset_seconds,
                ) == Some(at.timestamp) && at.offset_seconds == offset_seconds && is_offset(
                    offset_seconds as int,
                ),
                None => timestamp_of_local(year, month, day, hour, minute, second, offset_seconds)
                    is None,
            },
    {
        match local_to_timestamp(year, month, day, hour, minute, second, offset_seconds) {
            Some(timestamp) => Some(DateTimeValue { timestamp, offset_seconds }),
            None => None,
        }
    }

    /// The text of this point in time under a format, seen at its own offset;
    /// empty where there is none.
    pub open spec fn text(self, format: Seq<char>) -> Seq<char> {
        match time_text_of(self.timestamp, self.offset_seconds, format) {
            Some(text) => text,
            None => Seq::empty(),
        }
    }

    /// Writes this point in time under a format, seen at its own offset.
    pub fn format(&self, format: &str) -> (r: String)
        ensures
            r@ == self.text(format@),
    {
        match format_timestamp(self.timestamp, self.offset_seconds, format) {
            Some(text) => text,
            None => String::new(),
        }
    }
}

} // verus!
