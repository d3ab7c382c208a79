//! Calendar dates of the proleptic Gregorian calendar, as chrono's `NaiveDate`
//! holds them, and the chrono calls the library makes on them.

use chrono::Datelike;
use chrono::NaiveDate;
use vstd::prelude::*;

verus! {

/// A calendar date (year, month 1..=12, day of month 1..=31).
///
/// Dates read from the database stand at midnight UTC of this day.
#[derive(Debug, Clone, Copy, PartialEq, Eq, Structural)]
pub struct CalendarDate {
    pub year: i32,
    pub month: u32,
    pub day: u32,
}

/// The first year chrono's `NaiveDate` can hold.
pub open spec fn min_year() -> int {
    -262143
}

/// The last year chrono's `NaiveDate` can hold.
pub open spec fn max_year() -> int {
    262142
}

/// Leap years of the proleptic Gregorian calendar.
pub open spec fn is_leap_year(year: int) -> bool {
    year % 4 == 0 && (year % 100 != 0 || year % 400 == 0)
}

/// The number of days of `month` in `year`.
pub open spec fn days_in_month(year: int, month: int) -> int {
    if month == 2 {
        if is_leap_year(year) {
            29
        } else {
            28
        }
    } else if month == 4 || month == 6 || month == 9 || month == 11 {
        30
    } else {
        31
    }
}

/// The calendar day exists and lies within the years chrono can hold.
pub open spec fn is_valid_date(year: int, month: int, day: int) -> bool {
    &&& min_year() <= year <= max_year()
    &&& 1 <= month <= 12
    &&& 1 <= day <= days_in_month(year, month)
}

/// The day before `date`, if chrono can hold it.
pub open spec fn previous_date_spec(date: CalendarDate) -> Option<CalendarDate> {
    if date.day > 1 {
        Some(CalendarDate { year: date.year, month: date.month, day: (date.day - 1) as u32 })
    } else if date.month > 1 {
        Some(
            CalendarDate {
                year: date.year,
                month: (date.month - 1) as u32,
                day: days_in_month(date.year as int, date.month - 1) as u32,
            },
        )
    } else if date.year > min_year() {
        Some(CalendarDate { year: (date.year - 1) as i32, month: 12, day: 31 })
    } else {
        None
    }
}

/// Calls chrono's `NaiveDate::from_ymd_opt` and reads the date back.
///
/// Claims, as chrono documents it, that a date comes back exactly when the
/// calendar day exists and its year lies within chrono's range, and that it is
/// the day that was asked for.
#[verifier::external_body]
pub(crate) fn calendar_date(year: i32, month: u32, day: u32) -> (r: Option<CalendarDate>)
    ensures
        r is Some <==> is_valid_date(year as int, month as int, day as int),
        r is Some ==> r->0 == (CalendarDate { year, month, day }),
{
    match NaiveDate::from_ymd_opt(year, month, day) {
        Some(d) => Some(CalendarDate { year: d.year(), month: d.month(), day: d.day() }),
        None => None,
    }
}

/// Calls chrono's `NaiveDate::pred_opt` on a valid date.
///
/// Claims, as chrono documents it, that the result is the previous calendar
/// day, and that it is `None` only for the first date chrono can hold.
#[verifier::external_body]
pub(crate) fn previous_date(date: CalendarDate) -> (r: Option<CalendarDate>)
    requires
        is_valid_date(date.year as int, date.month as int, date.day as int),
    ensures
        r == previous_date_spec(date),
{
    match NaiveDate::from_ymd_opt(date.year, date.month, date.day) {
        Some(d) => match d.pred_opt() {
            Some(p) => Some(CalendarDate { year: p.year(), month: p.month(), day: p.day() }),
            None => None,
        },
        None => None,
    }
}

} // verus!
