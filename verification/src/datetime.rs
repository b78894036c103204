//! What the `chrono` crate tells the library about dates and times. Nothing
//! here is proved: each item below states what it takes of `chrono`.

use vstd::prelude::*;
use chrono::{Days, Local, Months, NaiveDate, NaiveDateTime, NaiveTime, TimeDelta};

verus! {

/// Whether `NaiveDate::parse_from_str(s, "%Y-%m-%d")` accepts `s`.
pub uninterp spec fn chrono_accepts_date(s: Seq<char>) -> bool;

/// Whether `NaiveTime::parse_from_str(s, "%H:%M")` accepts `s`.
pub uninterp spec fn chrono_accepts_time(s: Seq<char>) -> bool;

/// Whether `NaiveDateTime::parse_from_str(s, "%Y-%m-%d %H:%M")` accepts `s`.
pub uninterp spec fn chrono_accepts_datetime(s: Seq<char>) -> bool;

/// The date (`%Y-%m-%d`) and time (`%H:%M`) that chrono gives `minutes` minutes
/// after the date and time `s` (`%Y-%m-%d %H:%M`), if it reads `s` and the
/// result is in its range.
pub uninterp spec fn chrono_plus_minutes(s: Seq<char>, minutes: u32) -> Option<(Seq<char>, Seq<char>)>;

/// As `chrono_plus_minutes`, for a number of hours.
pub uninterp spec fn chrono_plus_hours(s: Seq<char>, hours: u32) -> Option<(Seq<char>, Seq<char>)>;

/// As `chrono_plus_minutes`, for a number of days added to the date.
pub uninterp spec fn chrono_plus_days(s: Seq<char>, days: u64) -> Option<(Seq<char>, Seq<char>)>;

/// As `chrono_plus_minutes`, for a number of months added to the date (the
/// day is cut back to the last day of a shorter month).
pub uninterp spec fn chrono_plus_months(s: Seq<char>, months: u32) -> Option<(Seq<char>, Seq<char>)>;

/// The date and time a shift gives, as strings compared by their characters.
pub open spec fn shift_matches(r: Option<(String, String)>, named: Option<(Seq<char>, Seq<char>)>) -> bool {
    match r {
        Some(p) => named == Some((p.0@, p.1@)),
        None => named is None,
    }
}

/// `NaiveDate::parse_from_str(s, "%Y-%m-%d")`: whether chrono reads `s` as a
/// date. Its answer is named, not described.
#[verifier::external_body]
pub(crate) fn date_is_valid(s: &str) -> (b: bool)
    ensures
        b == chrono_accepts_date(s@),
{
    NaiveDate::parse_from_str(s, "%Y-%m-%d").is_ok()
}

/// `NaiveTime::parse_from_str(s, "%H:%M")`: whether chrono reads `s` as a
/// time of day. Its answer is named, not described.
#[verifier::external_body]
pub(crate) fn time_is_valid(s: &str) -> (b: bool)
    ensures
        b == chrono_accepts_time(s@),
{
    NaiveTime::parse_from_str(s, "%H:%M").is_ok()
}

/// `NaiveDateTime::parse_from_str(s, "%Y-%m-%d %H:%M")`: whether chrono reads
/// `s` as a date and time. Its answer is named, not described.
#[verifier::external_body]
pub(crate) fn datetime_is_valid(s: &str) -> (b: bool)
    ensures
        b == chrono_accepts_datetime(s@),
{
    NaiveDateTime::parse_from_str(s, "%Y-%m-%d %H:%M").is_ok()
}

/// `NaiveDateTime::checked_add_signed` with `TimeDelta::minutes`: the date and
/// time `minutes` minutes after `datetime`, written back in the same formats.
/// The result is named, not described.
#[verifier::external_body]
pub(crate) fn shift_minutes(datetime: &str, minutes: u32) -> (r: Option<(String, String)>)
    ensures
        shift_matches(r, chrono_plus_minutes(datetime@, minutes)),
{
    let start = match NaiveDateTime::parse_from_str(datetime, "%Y-%m-%d %H:%M") {
        Ok(dt) => dt,
        Err(_) => return None,
    };
    match start.checked_add_signed(TimeDelta::minutes(i64::from(minutes))) {
        Some(end) => Some((end.format("%Y-%m-%d").to_string(), end.format("%H:%M").to_string())),
        None => None,
    }
}

/// `NaiveDateTime::checked_add_signed` with `TimeDelta::hours`: the date and
/// time `hours` hours after `datetime`. The result is named, not described.
#[verifier::external_body]
pub(crate) fn shift_hours(datetime: &str, hours: u32) -> (r: Option<(String, String)>)
    ensures
        shift_matches(r, chrono_plus_hours(datetime@, hours)),
{
    let start = match NaiveDateTime::parse_from_str(datetime, "%Y-%m-%d %H:%M") {
        Ok(dt) => dt,
        Err(_) => return None,
    };
    match start.checked_add_signed(TimeDelta::hours(i64::from(hours))) {
        Some(end) => Some((end.format("%Y-%m-%d").to_string(), end.format("%H:%M").to_string())),
        None => None,
    }
}

/// `NaiveDateTime::checked_add_days`: the date and time `days` days after
/// `datetime`. The result is named, not described.
#[verifier::external_body]
pub(crate) fn shift_days(datetime: &str, days: u64) -> (r: Option<(String, String)>)
    ensures
        shift_matches(r, chrono_plus_days(datetime@, days)),
{
    let start = match NaiveDateTime::parse_from_str(datetime, "%Y-%m-%d %H:%M") {
        Ok(dt) => dt,
        Err(_) => return None,
    };
    match start.checked_add_days(Days::new(days)) {
        Some(end) => Some((end.format("%Y-%m-%d").to_string(), end.format("%H:%M").to_string())),
        None => None,
    }
}

/// `NaiveDateTime::checked_add_months`: the date and time `months` months
/// after `datetime`. The result is named, not described.
#[verifier::external_body]
pub(crate) fn shift_months(datetime: &str, months: u32) -> (r: Option<(String, String)>)
    ensures
        shift_matches(r, chrono_plus_months(datetime@, months)),
{
    let start = match NaiveDateTime::parse_from_str(datetime, "%Y-%m-%d %H:%M") {
        Ok(dt) => dt,
        Err(_) => return None,
    };
    match start.checked_add_months(Months::new(months)) {
        Some(end) => Some((end.format("%Y-%m-%d").to_string(), end.format("%H:%M").to_string())),
        None => None,
    }
}

/// `chrono::Local::now()`: today's local date as `NaiveDate` writes it and the
/// local time of day as `NaiveTime` writes it (with seconds and fractions).
/// Nothing is stated of them: they depend on the clock and the time zone.
#[verifier::external_body]
pub(crate) fn local_now() -> (String, String) {
    let now = Local::now();
    (now.date_naive().to_string(), now.time().to_string())
}

} // verus!
