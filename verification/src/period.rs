//! The week or month in which a commit falls, written as a key under which
//! commits are grouped.

use vstd::prelude::*;
use crate::calendar::{
    calendar_month, calendar_week, calendar_year, is_calendar_time, month_of, week_of, year_of,
};
use crate::digits::{push_signed_decimal, push_two_digits, signed_decimal, two_digits};
use crate::model::Timestamp;

verus! {

/// The key of a week: the calendar year, `-W`, and the number of the ISO
/// week in two digits.
pub open spec fn week_key_text(year: i32, week: u32) -> Seq<char> {
    signed_decimal(year as int) + seq!['-', 'W'] + two_digits(week as nat)
}

/// The key of a month: the calendar year, `-`, and the month in two digits.
pub open spec fn month_key_text(year: i32, month: u32) -> Seq<char> {
    signed_decimal(year as int) + seq!['-'] + two_digits(month as nat)
}

/// The key of the week in which an instant falls, for an instant that the
/// calendar has.
pub open spec fn week_key_of(t: Timestamp) -> Seq<char> {
    week_key_text(calendar_year(t.secs), calendar_week(t.secs))
}

/// The key of the month in which an instant falls, for an instant that the
/// calendar has.
pub open spec fn month_key_of(t: Timestamp) -> Seq<char> {
    month_key_text(calendar_year(t.secs), calendar_month(t.secs))
}

/// The key of the month or of the week in which an instant falls.
pub open spec fn period_key_of(t: Timestamp, monthly: bool) -> Seq<char> {
    if monthly {
        month_key_of(t)
    } else {
        week_key_of(t)
    }
}

/// The key of week `week` of the year `year`.
pub fn format_week_key(year: i32, week: u32) -> (key: String)
    ensures
        key@ == week_key_text(year, week),
{
    let mut key = String::new();
    push_signed_decimal(&mut key, year as i64);
    key.push('-');
    key.push('W');
    push_two_digits(&mut key, week as u64);
    assert(key@ =~= week_key_text(year, week));
    key
}

/// The key of month `month` of the year `year`.
pub fn format_month_key(year: i32, month: u32) -> (key: String)
    ensures
        key@ == month_key_text(year, month),
{
    let mut key = String::new();
    push_signed_decimal(&mut key, year as i64);
    key.push('-');
    push_two_digits(&mut key, month as u64);
    assert(key@ =~= month_key_text(year, month));
    key
}

/// The key of the week in which `timestamp` falls, or `None` where the
/// calendar has no date for it.
pub fn week_key(timestamp: &Timestamp) -> (key: Option<String>)
    ensures
        key is Some <==> is_calendar_time(timestamp.secs),
        key matches Some(k) ==> k@ == week_key_of(*timestamp),
{
    match (year_of(timestamp.secs), week_of(timestamp.secs)) {
        (Some(year), Some(week)) => Some(format_week_key(year, week)),
        _ => None,
    }
}

/// The key of the month in which `timestamp` falls, or `None` where the
/// calendar has no date for it.
pub fn month_key(timestamp: &Timestamp) -> (key: Option<String>)
    ensures
        key is Some <==> is_calendar_time(timestamp.secs),
        key matches Some(k) ==> k@ == month_key_of(*timestamp),
{
    match (year_of(timestamp.secs), month_of(timestamp.secs)) {
        (Some(year), Some(month)) => Some(format_month_key(year, month)),
        _ => None,
    }
}

/// The key of the month in which `timestamp` falls where `monthly` is set,
/// and of its week otherwise.
pub fn period_key(timestamp: &Timestamp, monthly: bool) -> (key: Option<String>)
    ensures
        key is Some <==> is_calendar_time(timestamp.secs),
        key matches Some(k) ==> k@ == period_key_of(*timestamp, monthly),
{
    if monthly {
        month_key(timestamp)
    } else {
        week_key(timestamp)
    }
}

} // verus!
