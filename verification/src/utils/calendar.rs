//! Calendar dates as day numbers. A day number counts the days of the
//! proleptic Gregorian calendar, with 1 for the first of January of the
//! year 1.
use vstd::prelude::*;

verus! {

/// The day number of the first of January 1970.
pub const EPOCH_DAY: i64 = 719163;

/// The day number of the date that a text of the form `YYYY-MM-DD` names,
/// as the crate `chrono` reads it; `None` where it reads no date.
pub uninterp spec fn ymd_day(text: Seq<char>) -> Option<i32>;

/// Reads a date of the form `YYYY-MM-DD` with `NaiveDate::parse_from_str` of
/// the crate `chrono` and takes its day number with
/// `Datelike::num_days_from_ce`. The result is named, not described.
#[verifier::external_body]
pub(crate) fn parse_ymd(text: &str) -> (day: Option<i32>)
    ensures
        day == ymd_day(text@),
{
    match chrono::NaiveDate::parse_from_str(text, "%Y-%m-%d") {
        Ok(date) => Some(chrono::Datelike::num_days_from_ce(&date)),
        Err(_) => None,
    }
}

/// The date with a given day number, written as `YYYY-MM-DD` by the crate
/// `chrono`; `None` for a day outside the years the crate covers.
pub uninterp spec fn ymd_text(day: i32) -> Option<Seq<char>>;

/// Makes the date of a day number with
/// `NaiveDate::from_num_days_from_ce_opt` of the crate `chrono` and writes
/// it as `YYYY-MM-DD` with `NaiveDate::format`. The result is named, not
/// described.
#[verifier::external_body]
fn format_ymd(day: i32) -> (text: Option<String>)
    ensures
        match text {
            Some(t) => ymd_text(day) == Some(t@),
            None => ymd_text(day) is None,
        },
{
    match chrono::NaiveDate::from_num_days_from_ce_opt(day) {
        Some(date) => Some(date.format("%Y-%m-%d").to_string()),
        None => None,
    }
}

/// The date of a day number as text: none for a number that does not fit
/// in 32 bits or lies outside the years the calendar covers.
pub open spec fn date_text(day: int) -> Option<Seq<char>> {
    if i32::MIN <= day <= i32::MAX {
        ymd_text(day as i32)
    } else {
        None
    }
}

/// Writes the date of a day number as `YYYY-MM-DD`.
pub fn date_of_day(day: i64) -> (text: Option<String>)
    ensures
        match text {
            Some(t) => date_text(day as int) == Some(t@),
            None => date_text(day as int) is None,
        },
{
    if day < -2147483648 || day > 2147483647 {
        None
    } else {
        format_ymd(day as i32)
    }
}

} // verus!
