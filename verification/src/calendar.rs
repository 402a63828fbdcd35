//! What the calendar says of a number of seconds since the Unix epoch.

use vstd::prelude::*;
use chrono::{Datelike, TimeZone};
use crate::dates::DATE_FORMAT;
use crate::model::Timestamp;

verus! {

/// The first second of the first day that `chrono` has a date for,
/// `NaiveDate::MIN`, the first of January of the year -262143.
pub const FIRST_CALENDAR_SECOND: i64 = -8_334_601_228_800;

/// The last second of the last day that `chrono` has a date for,
/// `NaiveDate::MAX`, the last of December of the year 262142.
pub const LAST_CALENDAR_SECOND: i64 = 8_210_266_876_799;

/// Whether `chrono` has a date and time for `secs` seconds since the Unix
/// epoch, that is whether `timestamp_opt` gives one for them: it does for
/// the seconds of the days from `NaiveDate::MIN` to `NaiveDate::MAX`.
pub open spec fn is_calendar_time(secs: i64) -> bool {
    FIRST_CALENDAR_SECOND <= secs <= LAST_CALENDAR_SECOND
}

/// Asks `chrono::TimeZone::timestamp_opt`, for the time zone UTC, whether
/// `secs` whole seconds since the Unix epoch are a date and time. The answer
/// is the one that `is_calendar_time` names.
#[verifier::external_body]
pub(crate) fn timestamp_exists(secs: i64) -> (exists: bool)
    ensures
        exists == is_calendar_time(secs),
{
    chrono::Utc.timestamp_opt(secs, 0).single().is_some()
}

/// The instant that a text in the format of RFC 3339 stands for, as
/// `chrono::DateTime::parse_from_rfc3339` reads it, or `None` where the text
/// is not in that format.
pub uninterp spec fn rfc3339_instant(text: Seq<char>) -> Option<Timestamp>;

/// The day that a text stands for when `chrono::NaiveDate::parse_from_str`
/// reads it in the format `format`, or `None` where it does not fit. Days
/// are counted as `chrono` counts them from the start of the common era,
/// where 1970-01-01 is day 719163.
pub uninterp spec fn date_day_number(text: Seq<char>, format: Seq<char>) -> Option<i32>;

/// Reads a date and time in the format of RFC 3339 with
/// `chrono::DateTime::parse_from_rfc3339`. The result is the instant that
/// `rfc3339_instant` names: its whole seconds since the Unix epoch, from
/// `DateTime::timestamp`, and the nanoseconds beyond them, from
/// `DateTime::timestamp_subsec_nanos`.
#[verifier::external_body]
pub(crate) fn parse_rfc3339(text: &str) -> (r: Option<Timestamp>)
    ensures
        r == rfc3339_instant(text@),
{
    match chrono::DateTime::parse_from_rfc3339(text) {
        Ok(dt) => Some(Timestamp { secs: dt.timestamp(), nanos: dt.timestamp_subsec_nanos() }),
        Err(_) => None,
    }
}

/// Reads a date in the format `format`, year, month and day in numbers
/// with hyphens between them, with `chrono::NaiveDate::parse_from_str`. The
/// result is the day number that `date_day_number` names, which
/// `chrono::Datelike::num_days_from_ce` gives for the date.
#[verifier::external_body]
pub(crate) fn parse_date(text: &str, format: &str) -> (r: Option<i32>)
    requires
        format@ == DATE_FORMAT@,
    ensures
        r == date_day_number(text@, format@),
{
    match chrono::NaiveDate::parse_from_str(text, format) {
        Ok(date) => Some(date.num_days_from_ce()),
        Err(_) => None,
    }
}

/// The calendar year in which an instant falls in UTC, as
/// `chrono::Datelike::year` gives it.
pub uninterp spec fn calendar_year(secs: i64) -> i32;

/// The month, from 1 to 12, in which an instant falls in UTC, as
/// `chrono::Datelike::month` gives it.
pub uninterp spec fn calendar_month(secs: i64) -> u32;

/// The number of the ISO 8601 week in which an instant falls in UTC, as
/// `chrono::IsoWeek::week` gives it.
pub uninterp spec fn calendar_week(secs: i64) -> u32;

/// The calendar year of the date and time that
/// `chrono::TimeZone::timestamp_opt` gives in UTC for `secs` seconds since
/// the Unix epoch, from `chrono::Datelike::year`; `None` where it gives none.
#[verifier::external_body]
pub(crate) fn year_of(secs: i64) -> (r: Option<i32>)
    ensures
        r is Some <==> is_calendar_time(secs),
        r matches Some(year) ==> year == calendar_year(secs),
{
    match chrono::Utc.timestamp_opt(secs, 0).single() {
        Some(dt) => Some(dt.year()),
        None => None,
    }
}

/// The month of the date and time that `chrono::TimeZone::timestamp_opt`
/// gives in UTC for `secs` seconds since the Unix epoch, from
/// `chrono::Datelike::month`; `None` where it gives none.
#[verifier::external_body]
pub(crate) fn month_of(secs: i64) -> (r: Option<u32>)
    ensures
        r is Some <==> is_calendar_time(secs),
        r matches Some(month) ==> month == calendar_month(secs),
{
    match chrono::Utc.timestamp_opt(secs, 0).single() {
        Some(dt) => Some(dt.month()),
        None => None,
    }
}

/// The ISO week number of the date and time that
/// `chrono::TimeZone::timestamp_opt` gives in UTC for `secs` seconds since
/// the Unix epoch, from `chrono::Datelike::iso_week` and
/// `chrono::IsoWeek::week`; `None` where it gives none.
#[verifier::external_body]
pub(crate) fn week_of(secs: i64) -> (r: Option<u32>)
    ensures
        r is Some <==> is_calendar_time(secs),
        r matches Some(week) ==> week == calendar_week(secs),
{
    match chrono::Utc.timestamp_opt(secs, 0).single() {
        Some(dt) => Some(dt.iso_week().week()),
        None => None,
    }
}

/// The seconds since the Unix epoch of the date and time `months` months
/// before that of `secs` in UTC, as `chrono::DateTime::checked_sub_months`
/// gives it, or `None` where `chrono` has no date and time for `secs` or
/// for the result.
pub uninterp spec fn months_before(secs: i64, months: u32) -> Option<i64>;

/// Goes `months` months back from the date and time that
/// `chrono::TimeZone::timestamp_opt` gives in UTC for `secs` seconds since
/// the Unix epoch, with `chrono::DateTime::checked_sub_months`. The result,
/// in seconds since the Unix epoch, is the one that `months_before` names.
#[verifier::external_body]
pub(crate) fn sub_months(secs: i64, months: u32) -> (r: Option<i64>)
    ensures
        r == months_before(secs, months),
{
    match chrono::Utc.timestamp_opt(secs, 0).single() {
        Some(dt) => match dt.checked_sub_months(chrono::Months::new(months)) {
            Some(earlier) => Some(earlier.timestamp()),
            None => None,
        },
        None => None,
    }
}

} // verus!
