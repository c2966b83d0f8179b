//! The proleptic Gregorian calendar as chrono implements it, and the last
//! day of a month found by stepping back from the first of the next one.

use chrono::Datelike;
use vstd::prelude::*;
use vstd::string::*;

use crate::model::{result_view, CalendarDate, DateStrFailure, ParseDateStrError};
use crate::numtext::{decimal_text, int_text};

verus! {

/// The first year that chrono's `NaiveDate` can hold.
pub const MIN_YEAR: i32 = -262143;

/// The last year that chrono's `NaiveDate` can hold.
pub const MAX_YEAR: i32 = 262142;

pub open spec fn is_leap_year(y: int) -> bool {
    y % 4 == 0 && (y % 100 != 0 || y % 400 == 0)
}

pub open spec fn days_in_month(y: int, m: int) -> int {
    if m == 2 {
        if is_leap_year(y) { 29 } else { 28 }
    } else if m == 4 || m == 6 || m == 9 || m == 11 {
        30
    } else {
        31
    }
}

/// A real day of the calendar, within chrono's range of years.
pub open spec fn is_valid_date(y: int, m: int, d: int) -> bool {
    &&& MIN_YEAR <= y <= MAX_YEAR
    &&& 1 <= m <= 12
    &&& 1 <= d <= days_in_month(y, m)
}

/// The day before a valid date, if chrono can hold it.
pub open spec fn day_before_spec(date: CalendarDate) -> Option<CalendarDate> {
    if date.day > 1 {
        Some(CalendarDate { year: date.year, month: date.month, day: (date.day - 1) as u32 })
    } else if date.month > 1 {
        Some(
            CalendarDate {
                year: date.year,
                month: (date.month - 1) as u32,
                day: days_in_month(date.year as int, date.month - 1) as u32,
            },
        )
    } else if date.year > MIN_YEAR {
        Some(CalendarDate { year: (date.year - 1) as i32, month: 12, day: 31 })
    } else {
        None
    }
}

/// The text `M/Y` of a month and a year.
pub open spec fn month_year_text(month: int, year: int) -> Seq<char> {
    int_text(month) + seq!['/'] + int_text(year)
}

/// Whether the first day of the month after `month` of `year` is a date
/// that chrono can hold, which `last_day_of_month` needs.
pub open spec fn has_month_end(year: int, month: int) -> bool {
    &&& 1 <= month <= 12
    &&& MIN_YEAR <= year
    &&& if month == 12 { year + 1 <= MAX_YEAR } else { year <= MAX_YEAR }
}

/// What `last_day_of_month` gives: the number of days of the month, or
/// `Date("M/Y")` where the month has no end that chrono can reach.
pub open spec fn month_end(year: int, month: int) -> Result<u32, DateStrFailure> {
    if has_month_end(year, month) {
        Ok(days_in_month(year, month) as u32)
    } else {
        Err(DateStrFailure::Date(month_year_text(month, year)))
    }
}

/// Relies on `chrono::NaiveDate::from_ymd_opt`: a date exactly when the
/// month is 1 to 12, the day exists in that month of that year (proleptic
/// Gregorian leap years), and the year is in chrono's range.
#[verifier::external_body]
pub(crate) fn date_from_ymd(year: i32, month: u32, day: u32) -> (r: Option<CalendarDate>)
    ensures
        r == (if is_valid_date(year as int, month as int, day as int) {
            Some(CalendarDate { year, month, day })
        } else {
            None
        }),
{
    match chrono::NaiveDate::from_ymd_opt(year, month, day) {
        Some(d) => Some(CalendarDate { year: d.year(), month: d.month(), day: d.day() }),
        None => None,
    }
}

/// Relies on `chrono::NaiveDate::pred_opt`: the calendar day before, and
/// nothing only for the first day that chrono can hold.
#[verifier::external_body]
pub(crate) fn day_before(date: CalendarDate) -> (r: Option<CalendarDate>)
    requires
        is_valid_date(date.year as int, date.month as int, date.day as int),
    ensures
        r == day_before_spec(date),
{
    let d = chrono::NaiveDate::from_ymd_opt(date.year, date.month, date.day).unwrap();
    match d.pred_opt() {
        Some(p) => Some(CalendarDate { year: p.year(), month: p.month(), day: p.day() }),
        None => None,
    }
}

/// The error for a month and year that have no month end: `Date("M/Y")`.
pub(crate) fn month_year_error(month: u32, year: i32) -> (e: ParseDateStrError)
    ensures
        e@ == DateStrFailure::Date(month_year_text(month as int, year as int)),
{
    let mut s = decimal_text(month as i64);
    s.append("/");
    let y = decimal_text(year as i64);
    s.append(y.as_str());
    proof {
        reveal_strlit("/");
        assert("/"@ =~= seq!['/']);
    }
    ParseDateStrError::Date(s)
}

/// The number of the last day of `month` in `year`: the day before the first
/// of the next month. Fails with `Date("M/Y")` where that first day cannot be
/// formed (a month outside 1 to 12, a year outside chrono's range).
pub fn last_day_of_month(year: i32, month: u32) -> (r: Result<u32, ParseDateStrError>)
    ensures
        result_view(r) == month_end(year as int, month as int),
{
    if month < 1 || month > 12 {
        return Err(month_year_error(month, year));
    }
    let (next_year, next_month) = if month == 12 {
        if year == i32::MAX {
            return Err(month_year_error(month, year));
        }
        (year + 1, 1u32)
    } else {
        (year, month + 1)
    };
    match date_from_ymd(next_year, next_month, 1) {
        Some(first) => match day_before(first) {
            Some(last) => Ok(last.day),
            None => Err(month_year_error(month, year)),
        },
        None => Err(month_year_error(month, year)),
    }
}

} // verus!
