//! Proleptic Gregorian calendar dates.

use vstd::prelude::*;

verus! {

/// Earliest year a [`Date`] can carry.
pub const MIN_YEAR: i32 = -262143;

/// Latest year a [`Date`] can carry.
pub const MAX_YEAR: i32 = 262142;

/// The Gregorian leap-year rule: divisible by 4, and not by 100 unless by 400.
pub open spec fn spec_is_leap_year(year: int) -> bool {
    year % 4 == 0 && (year % 100 != 0 || year % 400 == 0)
}

/// Number of days of `month` (1 to 12) in `year`; 0 for any other month number.
pub open spec fn spec_days_in_month(year: int, month: int) -> int {
    if month == 2 {
        if spec_is_leap_year(year) {
            29
        } else {
            28
        }
    } else if month == 4 || month == 6 || month == 9 || month == 11 {
        30
    } else if 1 <= month <= 12 {
        31
    } else {
        0
    }
}

/// Whether `(year, month, day)` names a day of the calendar in a year from
/// [`MIN_YEAR`] to [`MAX_YEAR`].
pub open spec fn valid_ymd(year: int, month: int, day: int) -> bool {
    &&& MIN_YEAR <= year <= MAX_YEAR
    &&& 1 <= month <= 12
    &&& 1 <= day <= spec_days_in_month(year, month)
}

/// Whether `year` is a leap year.
pub fn is_leap_year(year: i32) -> (leap: bool)
    ensures
        leap == spec_is_leap_year(year as int),
{
    // Shifting by a multiple of 400 keeps every remainder and makes the year positive.
    let shifted: i64 = year as i64 + 2147484000;
    shifted % 4 == 0 && (shifted % 100 != 0 || shifted % 400 == 0)
}

/// Number of days of `month` in `year`, 0 when `month` is not within 1 to 12.
pub fn days_in_month(year: i32, month: u32) -> (days: u32)
    ensures
        days == spec_days_in_month(year as int, month as int),
{
    if month == 2 {
        if is_leap_year(year) {
            29
        } else {
            28
        }
    } else if month == 4 || month == 6 || month == 9 || month == 11 {
        30
    } else if 1 <= month && month <= 12 {
        31
    } else {
        0
    }
}

/// A calendar day.
#[derive(Clone, Copy, Debug, PartialEq, Eq, Structural)]
pub struct Date {
    pub year: i32,
    pub month: u8,
    pub day: u8,
}

impl Date {
    /// The day exists in the calendar.
    pub open spec fn valid(self) -> bool {
        valid_ymd(self.year as int, self.month as int, self.day as int)
    }

    /// The date of `(year, month, day)` if there is such a day, else nothing.
    pub open spec fn spec_from_ymd(year: int, month: int, day: int) -> Option<Date> {
        if valid_ymd(year, month, day) {
            Some(Date { year: year as i32, month: month as u8, day: day as u8 })
        } else {
            None
        }
    }

    /// Builds a date, refusing day numbers the month does not have, month
    /// numbers outside 1 to 12 and years before [`MIN_YEAR`] or after [`MAX_YEAR`].
    pub fn from_ymd(year: i32, month: u32, day: u32) -> (date: Option<Date>)
        ensures
            date == Date::spec_from_ymd(year as int, month as int, day as int),
            date matches Some(d) ==> d.valid(),
    {
        if year < MIN_YEAR || year > MAX_YEAR {
            return None;
        }
        if month < 1 || month > 12 {
            return None;
        }
        if day < 1 || day > days_in_month(year, month) {
            return None;
        }
        Some(Date { year, month: month as u8, day: day as u8 })
    }
}

} // verus!
