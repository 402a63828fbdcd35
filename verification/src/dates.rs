//! The bounds of a range of dates, from what the user wrote.
//!
//! A bound is written as a date and time in the format of RFC 3339, as a
//! date `YYYY-MM-DD`, as a number of days, weeks or months ago, or as a
//! revision. The library reads the first three; a text that is none of them
//! is left to the caller, who owns the repository, to resolve as a revision.

use vstd::prelude::*;
use crate::calendar::{
    date_day_number, is_calendar_time, months_before, parse_date, parse_rfc3339,
    rfc3339_instant, sub_months, timestamp_exists,
};
use crate::error::GmapError;
use crate::model::{DateRange, Timestamp};
use crate::number::{parse_i64, parsed_i64};
use crate::text::{lowercase, strip_suffix, to_lowercase, trim, trimmed, without_suffix};

verus! {

/// Seconds in a day.
pub const SECONDS_PER_DAY: i64 = 86_400;

/// The day number of 1970-01-01, counted from the start of the common era.
pub const UNIX_EPOCH_DAY: i64 = 719_163;

/// Days in a week.
pub const DAYS_PER_WEEK: i64 = 7;

/// Days that a month ago counts for.
pub const DAYS_PER_MONTH: i64 = 30;

/// The format of a date without a time.
pub const DATE_FORMAT: &'static str = "%Y-%m-%d";

/// The number of days that `text` stands for where it is a number followed
/// by `suffix`, the unit counting `factor` days.
pub open spec fn days_with_unit(text: Seq<char>, suffix: Seq<char>, factor: int) -> Option<int> {
    match without_suffix(text, suffix) {
        Some(number) => match parsed_i64(trimmed(number)) {
            Some(n) => Some(n * factor),
            None => None,
        },
        None => None,
    }
}

/// The first of two readings that succeeds.
pub open spec fn or_else(first: Option<int>, second: Option<int>) -> Option<int> {
    if first is Some {
        first
    } else {
        second
    }
}

/// The number of days ago that a text stands for: a number and one of
/// `days ago`, `day ago`, `weeks ago`, `week ago`, `months ago`, `month ago`,
/// in any letter case and with white space around it. A week counts 7 days
/// and a month 30.
pub open spec fn natural_days(input: Seq<char>) -> Option<int> {
    let text = lowercase(trimmed(input));
    or_else(
        days_with_unit(text, " days ago"@, 1),
        or_else(
            days_with_unit(text, " day ago"@, 1),
            or_else(
                days_with_unit(text, " weeks ago"@, DAYS_PER_WEEK as int),
                or_else(
                    days_with_unit(text, " week ago"@, DAYS_PER_WEEK as int),
                    or_else(
                        days_with_unit(text, " months ago"@, DAYS_PER_MONTH as int),
                        days_with_unit(text, " month ago"@, DAYS_PER_MONTH as int),
                    ),
                ),
            ),
        ),
    )
}

/// The number of seconds since the Unix epoch at which day `day` begins.
pub open spec fn midnight_secs(day: i32) -> int {
    (day - UNIX_EPOCH_DAY) * SECONDS_PER_DAY
}

/// The number of seconds since the Unix epoch `days` days before `now`.
pub open spec fn secs_days_before(now: Timestamp, days: int) -> int {
    now.secs - days * SECONDS_PER_DAY
}

/// A number of seconds, if it fits 64 bits.
pub open spec fn secs_in_reach(secs: int) -> Option<i64> {
    if i64::MIN <= secs <= i64::MAX {
        Some(secs as i64)
    } else {
        None
    }
}

/// The instant `days` days before `now`, where its seconds fit 64 bits and
/// `exists` says that they are a date and time.
pub open spec fn instant_before(now: Timestamp, days: int, exists: bool) -> Option<Timestamp> {
    match secs_in_reach(secs_days_before(now, days)) {
        Some(secs) => if exists {
            Some(Timestamp { secs, nanos: now.nanos })
        } else {
            None
        },
        None => None,
    }
}

/// The instant `days` days before `now`, if the calendar reaches that far.
pub open spec fn days_before(now: Timestamp, days: int) -> Option<Timestamp> {
    match secs_in_reach(secs_days_before(now, days)) {
        Some(secs) => instant_before(now, days, is_calendar_time(secs)),
        None => None,
    }
}

/// The instant that a text stands for at the time `now`, if it is a date.
/// The three ways to write a date are tried in this order: date and time in
/// the format of RFC 3339; date `YYYY-MM-DD`, which stands for the start of
/// that day; a number of days, weeks or months ago.
pub open spec fn date_of(input: Seq<char>, now: Timestamp) -> Option<Timestamp> {
    match rfc3339_instant(input) {
        Some(t) => Some(t),
        None => match date_day_number(input, DATE_FORMAT@) {
            Some(day) => Some(Timestamp { secs: midnight_secs(day) as i64, nanos: 0 }),
            None => match natural_days(input) {
                Some(days) => days_before(now, days),
                None => None,
            },
        },
    }
}

/// What became of reading a text as a number of days ago.
#[derive(Clone, Copy, Debug, PartialEq, Eq, Structural)]
pub enum NaturalDays {
    /// The text is no number of days, weeks or months ago.
    NoDuration,
    /// The text is one, but the number of days does not fit 64 bits.
    TooLong,
    /// The text stands for this many days ago.
    Days(i64),
}

/// What `natural_days` is as a `NaturalDays`.
pub open spec fn natural_days_read(days: Option<int>) -> NaturalDays {
    match days {
        None => NaturalDays::NoDuration,
        Some(d) => if i64::MIN <= d <= i64::MAX {
            NaturalDays::Days(d as i64)
        } else {
            NaturalDays::TooLong
        },
    }
}

/// Reads `text` as a number followed by `suffix`, the unit of which counts
/// `factor` days.
fn try_unit(text: &str, suffix: &str, factor: i64) -> (r: NaturalDays)
    ensures
        r == natural_days_read(days_with_unit(text@, suffix@, factor as int)),
{
    match strip_suffix(text, suffix) {
        Some(number) => match parse_i64(trim(number)) {
            Some(n) => match n.checked_mul(factor) {
                Some(days) => NaturalDays::Days(days),
                None => NaturalDays::TooLong,
            },
            None => NaturalDays::NoDuration,
        },
        None => NaturalDays::NoDuration,
    }
}

/// Reads a text as a number of days, weeks or months ago.
pub fn parse_natural_duration(input: &str) -> (r: NaturalDays)
    ensures
        r == natural_days_read(natural_days(input@)),
{
    let lower = to_lowercase(trim(input));
    let text = lower.as_str();
    let days = try_unit(text, " days ago", 1);
    if days != NaturalDays::NoDuration {
        return days;
    }
    let day = try_unit(text, " day ago", 1);
    if day != NaturalDays::NoDuration {
        return day;
    }
    let weeks = try_unit(text, " weeks ago", DAYS_PER_WEEK);
    if weeks != NaturalDays::NoDuration {
        return weeks;
    }
    let week = try_unit(text, " week ago", DAYS_PER_WEEK);
    if week != NaturalDays::NoDuration {
        return week;
    }
    let months = try_unit(text, " months ago", DAYS_PER_MONTH);
    if months != NaturalDays::NoDuration {
        return months;
    }
    try_unit(text, " month ago", DAYS_PER_MONTH)
}

/// The instant `days` days before `now`, given what the calendar says of
/// its seconds: `exists` tells whether they are a date and time, and is not
/// looked at where they do not fit 64 bits.
pub fn instant_days_before(now: Timestamp, days: i64, exists: bool) -> (r: Option<Timestamp>)
    ensures
        r == instant_before(now, days as int, exists),
{
    match secs_before(now, days) {
        Some(secs) => if exists {
            Some(Timestamp { secs, nanos: now.nanos })
        } else {
            None
        },
        None => None,
    }
}

/// The seconds since the Unix epoch `days` days before `now`, if they fit 64 bits.
pub fn secs_before(now: Timestamp, days: i64) -> (r: Option<i64>)
    ensures
        r == secs_in_reach(secs_days_before(now, days as int)),
{
    assert(-0x8000_0000_0000_0000 * 86_400 <= days * 86_400 <= 0x8000_0000_0000_0000 * 86_400)
        by (nonlinear_arith)
        requires
            -0x8000_0000_0000_0000 <= days <= 0x8000_0000_0000_0000,
    ;
    let span: i128 = days as i128 * SECONDS_PER_DAY as i128;
    let wide: i128 = now.secs as i128 - span;
    if wide < i64::MIN as i128 || wide > i64::MAX as i128 {
        None
    } else {
        Some(wide as i64)
    }
}

/// The start of day `day`, counted from the start of the common era.
pub fn midnight(day: i32) -> (t: Timestamp)
    ensures
        t.secs == midnight_secs(day),
        t.nanos == 0,
{
    Timestamp::from_secs((day as i64 - UNIX_EPOCH_DAY) * SECONDS_PER_DAY)
}

/// The instant that a text stands for, given what became of reading it in
/// each of the three ways: the first reading that succeeded decides. A date
/// stands for the start of its day, and a number of days ago for `days_ago`.
pub open spec fn chosen_date(
    rfc3339: Option<Timestamp>,
    day: Option<i32>,
    natural: NaturalDays,
    days_ago: Option<Timestamp>,
) -> Option<Timestamp> {
    match rfc3339 {
        Some(t) => Some(t),
        None => match day {
            Some(day) => Some(Timestamp { secs: midnight_secs(day) as i64, nanos: 0 }),
            None => match natural {
                NaturalDays::Days(_) => days_ago,
                _ => None,
            },
        },
    }
}

/// The instant that a text stands for, given what became of reading it in
/// each of the three ways, and the instant that many days ago where it is a
/// number of days ago.
pub fn choose_date(
    rfc3339: Option<Timestamp>,
    day: Option<i32>,
    natural: NaturalDays,
    days_ago: Option<Timestamp>,
) -> (r: Option<Timestamp>)
    ensures
        r == chosen_date(rfc3339, day, natural, days_ago),
{
    match rfc3339 {
        Some(t) => Some(t),
        None => match day {
            Some(day) => Some(midnight(day)),
            None => match natural {
                NaturalDays::Days(_) => days_ago,
                _ => None,
            },
        },
    }
}

/// Reads a bound of a range at the time `now`. Returns the instant that the
/// text stands for if it is a date, and `None` if it is not: then it may be
/// a revision. A number of days ago that leads out of the calendar is no date.
pub fn parse_date_text(input: &str, now: Timestamp) -> (r: Option<Timestamp>)
    ensures
        r == date_of(input@, now),
{
    let rfc3339 = parse_rfc3339(input);
    if rfc3339.is_some() {
        return rfc3339;
    }
    let day = parse_date(input, DATE_FORMAT);
    if day.is_some() {
        return choose_date(None, day, NaturalDays::NoDuration, None);
    }
    let natural = parse_natural_duration(input);
    let days_ago = match natural {
        NaturalDays::Days(days) => match secs_before(now, days) {
            Some(secs) => instant_days_before(now, days, timestamp_exists(secs)),
            None => None,
        },
        _ => None,
    };
    choose_date(None, None, natural, days_ago)
}

/// The instant of a commit whose time is `secs` seconds since the Unix
/// epoch, given whether the calendar has a date and time for them.
pub fn commit_instant(secs: i64, exists: bool) -> (r: Result<Timestamp, GmapError>)
    ensures
        exists ==> r == Ok::<Timestamp, GmapError>(Timestamp { secs, nanos: 0 }),
        !exists ==> r == Err::<Timestamp, GmapError>(GmapError::InvalidTimestamp(secs)),
{
    if exists {
        Ok(Timestamp::from_secs(secs))
    } else {
        Err(GmapError::InvalidTimestamp(secs))
    }
}

/// The instant of a commit whose time is `secs` seconds since the Unix
/// epoch. Seconds for which the calendar has no date and time are an error.
pub fn commit_time(secs: i64) -> (r: Result<Timestamp, GmapError>)
    ensures
        is_calendar_time(secs) ==> r == Ok::<Timestamp, GmapError>(Timestamp { secs, nanos: 0 }),
        !is_calendar_time(secs) ==> r == Err::<Timestamp, GmapError>(
            GmapError::InvalidTimestamp(secs),
        ),
{
    commit_instant(secs, timestamp_exists(secs))
}

/// The range between two bounds, each of which may be absent. A range whose
/// start lies after its end is an error.
pub fn resolve_range(since: Option<Timestamp>, until: Option<Timestamp>) -> (r: Result<
    DateRange,
    GmapError,
>)
    ensures
        match (since, until) {
            (Some(s), Some(u)) => if u.is_before(s) {
                r == Err::<DateRange, GmapError>(GmapError::InvalidRange)
            } else {
                r == Ok::<DateRange, GmapError>(DateRange { since, until })
            },
            _ => r == Ok::<DateRange, GmapError>(DateRange { since, until }),
        },
{
    if let (Some(s), Some(u)) = (since, until) {
        if u.before(&s) {
            return Err(GmapError::InvalidRange);
        }
    }
    let mut range = DateRange::new();
    if let Some(s) = since {
        range = range.with_since(s);
    }
    if let Some(u) = until {
        range = range.with_until(u);
    }
    Ok(range)
}

/// The instant `months_back` months before `now`, given the seconds that
/// the calendar found for it: `now` itself where it found none.
pub fn cutoff_from(now: Timestamp, earlier: Option<i64>) -> (cutoff: Timestamp)
    ensures
        cutoff == match earlier {
            Some(secs) => Timestamp { secs, nanos: now.nanos },
            None => now,
        },
{
    match earlier {
        Some(secs) => Timestamp { secs, nanos: now.nanos },
        None => now,
    }
}

/// The instant `months_back` months before `now`, or `now` itself where the
/// calendar does not reach that far.
pub fn cutoff_timestamp(now: Timestamp, months_back: u32) -> (cutoff: Timestamp)
    ensures
        cutoff == match months_before(now.secs, months_back) {
            Some(secs) => Timestamp { secs, nanos: now.nanos },
            None => now,
        },
{
    cutoff_from(now, sub_months(now.secs, months_back))
}

} // verus!
