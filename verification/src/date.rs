//! Calendar dates as plain numbers, and their `YYYY-MM-DD` form.

use crate::text::{digit_char, spec_decimal};
use vstd::prelude::*;

verus! {

/// Whether `year` has a 29th of February.
pub open spec fn is_leap_year(year: int) -> bool {
    year % 4 == 0 && (year % 100 != 0 || year % 400 == 0)
}

/// The number of days of a month.
pub open spec fn days_in_month(year: int, month: int) -> int {
    if month == 2 {
        if is_leap_year(year) {
            29
        } else {
            28
        }
    } else if month == 4 || month == 6 || month == 9 || month == 11 {
        30
    } else {
        31
    }
}

/// The first year that a date can lie in.
pub const MIN_YEAR: i32 = -262143;

/// The last year that a date can lie in.
pub const MAX_YEAR: i32 = 262142;

/// A day of the proleptic Gregorian calendar, in the years that a date can
/// lie in.
pub open spec fn is_calendar_day(year: int, month: int, day: int) -> bool {
    &&& MIN_YEAR <= year <= MAX_YEAR
    &&& 1 <= month <= 12
    &&& 1 <= day <= days_in_month(year, month)
}

/// A number below 100, written with two digits.
pub open spec fn two_digits(n: int) -> Seq<char> {
    seq![digit_char(n / 10), digit_char(n % 10)]
}

/// A number that is not negative, written with at least four digits.
pub open spec fn four_digits(n: int) -> Seq<char> {
    if n <= 9999 {
        two_digits(n / 100) + two_digits(n % 100)
    } else {
        spec_decimal(n as nat)
    }
}

/// A year as it is written: with four digits from 0 to 9999; before and
/// after, with its sign and at least four digits.
pub open spec fn year_text(year: int) -> Seq<char> {
    if 0 <= year <= 9999 {
        four_digits(year)
    } else if year < 0 {
        seq!['-'] + four_digits(-year)
    } else {
        seq!['+'] + four_digits(year)
    }
}

/// A day written as `YYYY-MM-DD`.
pub open spec fn iso_date(year: int, month: int, day: int) -> Seq<char> {
    year_text(year) + seq!['-'] + two_digits(month) + seq!['-'] + two_digits(day)
}

/// Whether the first day comes strictly before the second.
pub open spec fn day_precedes(a: (int, int, int), b: (int, int, int)) -> bool {
    a.0 < b.0 || (a.0 == b.0 && (a.1 < b.1 || (a.1 == b.1 && a.2 < b.2)))
}

/// Calls `chrono::NaiveDate::from_ymd_opt` and formats the date with
/// `%Y-%m-%d`. Trusted: every day of the calendar in the years from
/// `MIN_YEAR` to `MAX_YEAR` is a date of chrono, and its text is the year,
/// the two-digit month and the two-digit day, joined by hyphens. The year
/// has four digits from 0 to 9999, and a sign and at least four digits
/// outside of that.
#[verifier::external_body]
fn format_ymd(year: i32, month: u32, day: u32) -> (text: String)
    requires
        is_calendar_day(year as int, month as int, day as int),
    ensures
        text@ == iso_date(year as int, month as int, day as int),
{
    chrono::NaiveDate::from_ymd_opt(year, month, day).unwrap().format("%Y-%m-%d").to_string()
}

/// A day of the calendar.
#[derive(Clone, Copy, Debug, PartialEq, Eq)]
pub struct Date {
    year: i32,
    month: u32,
    day: u32,
}

impl Date {
    #[verifier::type_invariant]
    spec fn on_calendar(self) -> bool {
        is_calendar_day(self.year as int, self.month as int, self.day as int)
    }

    /// Year, month and day.
    pub closed spec fn ymd(self) -> (int, int, int) {
        (self.year as int, self.month as int, self.day as int)
    }

    /// The day with these numbers, if the calendar has it.
    pub fn new(year: i32, month: u32, day: u32) -> (date: Option<Date>)
        ensures
            date is Some <==> is_calendar_day(year as int, month as int, day as int),
            date matches Some(d) ==> d.ymd() == (year as int, month as int, day as int),
    {
        if year < MIN_YEAR || year > MAX_YEAR || month < 1 || month > 12 || day < 1 {
            return None;
        }
        // Leap years repeat every 400 years, so the year may be moved by a
        // multiple of 400 to where remainders are taken of a positive number.
        let moved: i32 = year + 262400;
        let leap = moved % 4 == 0 && (moved % 100 != 0 || moved % 400 == 0);
        assert(leap == is_leap_year(year as int));
        let days: u32 = if month == 2 {
            if leap {
                29
            } else {
                28
            }
        } else if month == 4 || month == 6 || month == 9 || month == 11 {
            30
        } else {
            31
        };
        if day > days {
            None
        } else {
            Some(Date { year, month, day })
        }
    }

    pub fn year(&self) -> (year: i32)
        ensures
            year == self.ymd().0,
    {
        self.year
    }

    pub fn month(&self) -> (month: u32)
        ensures
            month == self.ymd().1,
    {
        self.month
    }

    pub fn day(&self) -> (day: u32)
        ensures
            day == self.ymd().2,
    {
        self.day
    }

    /// Whether this day comes strictly before `other`.
    pub fn is_before(&self, other: &Date) -> (before: bool)
        ensures
            before == day_precedes(self.ymd(), other.ymd()),
    {
        self.year < other.year || (self.year == other.year && (self.month < other.month || (
        self.month == other.month && self.day < other.day)))
    }

    /// The day written as `YYYY-MM-DD`.
    pub fn format(&self) -> (text: String)
        ensures
            text@ == iso_date(self.ymd().0, self.ymd().1, self.ymd().2),
    {
        proof {
            use_type_invariant(self);
        }
        format_ymd(self.year, self.month, self.day)
    }
}

/// A moment in universal time: the day, the second of that day and the
/// nanosecond of that second.
#[derive(Clone, Copy, Debug, PartialEq, Eq)]
pub struct Timestamp {
    pub date: Date,
    pub second_of_day: u32,
    pub nanosecond: u32,
}

} // verus!
