//! Calendar dates as day numbers, with chrono doing the date work.
//!
//! A date is held as its day number in the proleptic Gregorian calendar,
//! counted so that January 1 of year 1 is day 1 (chrono's `num_days_from_ce`).
use vstd::prelude::*;

use chrono::Datelike;
use chrono::Days;
use chrono::NaiveDate;

verus! {

/// Day number of the earliest date chrono represents (January 1, 262143 BCE).
pub const MIN_DAY_NUMBER: i32 = -95_746_129;

/// Day number of the latest date chrono represents (December 31, 262142 CE).
pub const MAX_DAY_NUMBER: i32 = 95_745_399;

/// The day number that chrono reads from a `YYYY-MM-DD` string, or `None`
/// where the string is no valid date.
pub uninterp spec fn date_days_of(s: Seq<char>) -> Option<i32>;

/// Relies on chrono's `NaiveDate::parse_from_str` with the format `%Y-%m-%d`
/// and on `num_days_from_ce`; every `NaiveDate` lies between chrono's
/// `NaiveDate::MIN` and `NaiveDate::MAX`.
#[verifier::external_body]
pub(crate) fn parse_date_days(s: &str) -> (r: Option<i32>)
    ensures
        r == date_days_of(s@),
        r is Some ==> MIN_DAY_NUMBER <= r->Some_0 <= MAX_DAY_NUMBER,
{
    match NaiveDate::parse_from_str(s, "%Y-%m-%d") {
        Ok(d) => Some(d.num_days_from_ce()),
        Err(_) => None,
    }
}

/// Relies on chrono's `NaiveDate::from_num_days_from_ce_opt` and
/// `NaiveDate::checked_add_days`: both give `None` outside chrono's range.
#[verifier::external_body]
fn next_day_number(days: i32) -> (r: Option<i32>)
    ensures
        r == (if MIN_DAY_NUMBER <= days < MAX_DAY_NUMBER { Some((days + 1) as i32) } else { None::<i32> }),
{
    match NaiveDate::from_num_days_from_ce_opt(days) {
        Some(d) => match d.checked_add_days(Days::new(1)) {
            Some(n) => Some(n.num_days_from_ce()),
            None => None,
        },
        None => None,
    }
}

/// The day after `days`, or `days` itself at the last date chrono represents.
pub(crate) fn following_day(days: i32) -> (r: i32)
    requires
        MIN_DAY_NUMBER <= days <= MAX_DAY_NUMBER,
    ensures
        r == (if days < MAX_DAY_NUMBER { days + 1 } else { days as int }),
{
    match next_day_number(days) {
        Some(n) => n,
        None => days,
    }
}

} // verus!
