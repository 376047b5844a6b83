//! Calendar dates and times of day as plain numbers, and the keys under
//! which a date is counted.

use vstd::prelude::*;

verus! {

/// Whether February has 29 days in the year.
pub open spec fn is_leap_year(year: int) -> bool {
    year % 4 == 0 && (year % 100 != 0 || year % 400 == 0)
}

/// The number of days of the month, for a month from 1 to 12.
pub open spec fn days_in_month(year: int, month: int) -> int {
    if month == 2 {
        if is_leap_year(year) {
            29
        } else {
            28
        }
    } else if month == 4 || month == 6 || month == 9 || month == 11 {
        30
    } else {
        31
    }
}

/// Whether the numbers name a day of the Gregorian calendar in the years
/// from -9999 to 9999.
pub open spec fn valid_date(year: int, month: int, day: int) -> bool {
    &&& -9999 <= year <= 9999
    &&& 1 <= month <= 12
    &&& 1 <= day <= days_in_month(year, month)
}

/// The number of the ISO 8601 week that the day falls in, as the calendar
/// library computes it.
pub uninterp spec fn iso_week_number(year: i16, month: i8, day: i8) -> i8;

/// Calls `jiff::civil::date`, `Date::iso_week_date` and `ISOWeekDate::week`.
/// Claimed of them: on a valid date they do not panic, the week they give
/// depends on the date alone, and it lies between 1 and 53.
#[verifier::external_body]
fn iso_week_of(year: i16, month: i8, day: i8) -> (week: i8)
    requires
        valid_date(year as int, month as int, day as int),
    ensures
        week == iso_week_number(year, month, day),
        1 <= week <= 53,
{
    jiff::civil::date(year, month, day).iso_week_date().week()
}

/// A day of the calendar.
#[derive(Debug, Clone, Copy, PartialEq, Eq, Structural)]
pub struct Date {
    pub year: i16,
    pub month: i8,
    pub day: i8,
}

/// A day and a time of day, to the nanosecond.
#[derive(Debug, Clone, Copy, PartialEq, Eq, Structural)]
pub struct DateTime {
    pub date: Date,
    pub hour: i8,
    pub minute: i8,
    pub second: i8,
    pub subsec_nanosecond: i32,
}

/// A year as a bucket of the statistics: the year number, taken modulo
/// 65536 where it is negative.
#[derive(Debug, Clone, Copy, PartialEq, Eq, Structural)]
pub struct Year(pub u16);

/// A month of a year.
#[derive(Debug, Clone, Copy, PartialEq, Eq, Structural)]
pub struct Month {
    pub year: Year,
    pub month: u8,
}

/// An ISO week, filed under the calendar year of the day it was taken from.
#[derive(Debug, Clone, Copy, PartialEq, Eq, Structural)]
pub struct Week {
    pub year: Year,
    pub iso_week: u8,
}

/// The year number as an unsigned number: itself, or 65536 more where it is
/// negative.
pub open spec fn year_code(year: i16) -> u16 {
    if year >= 0 {
        year as u16
    } else {
        (year + 65536) as u16
    }
}

impl Date {
    /// Whether this is a day of the calendar.
    pub open spec fn wf(self) -> bool {
        valid_date(self.year as int, self.month as int, self.day as int)
    }

    /// The year that the date is counted under.
    pub open spec fn year_bucket(self) -> Year {
        Year(year_code(self.year))
    }

    /// The month that the date is counted under.
    pub open spec fn month_bucket(self) -> Month {
        Month { year: self.year_bucket(), month: self.month as u8 }
    }

    /// The week that the date is counted under.
    pub open spec fn week_bucket(self) -> Week {
        Week {
            year: self.year_bucket(),
            iso_week: iso_week_number(self.year, self.month, self.day) as u8,
        }
    }

    /// The key of the date itself: year, month and day as the decimal
    /// number `yyyyymmdd`.
    pub open spec fn key(self) -> u64 {
        (year_code(self.year) * 10000 + self.month * 100 + self.day) as u64
    }

    /// Whether this day comes before the other.
    pub open spec fn before(self, other: Date) -> bool {
        self.year < other.year || (self.year == other.year && (self.month < other.month || (
            self.month == other.month && self.day < other.day)))
    }

    /// Whether this day comes before the other.
    pub fn is_before(&self, other: &Date) -> (earlier: bool)
        ensures
            earlier == self.before(*other),
    {
        self.year < other.year || (self.year == other.year && (self.month < other.month || (
            self.month == other.month && self.day < other.day)))
    }

    /// The date with the given numbers, if there is such a day.
    pub fn new(year: i16, month: i8, day: i8) -> (date: Option<Date>)
        ensures
            date == if valid_date(year as int, month as int, day as int) {
                Some(Date { year, month, day })
            } else {
                None
            },
    {
        let date = Date { year, month, day };
        if date.is_valid() {
            Some(date)
        } else {
            None
        }
    }

    /// Whether this is a day of the calendar.
    pub fn is_valid(&self) -> (valid: bool)
        ensures
            valid == self.wf(),
    {
        if self.year < -9999 || self.year > 9999 || self.month < 1 || self.month > 12
            || self.day < 1 {
            return false;
        }
        let leap = self.year % 4 == 0 && (self.year % 100 != 0 || self.year % 400 == 0);
        let days: i8 = if self.month == 2 {
            if leap {
                29
            } else {
                28
            }
        } else if self.month == 4 || self.month == 6 || self.month == 9 || self.month == 11 {
            30
        } else {
            31
        };
        self.day <= days
    }

    /// The number of the ISO 8601 week that the date falls in.
    pub fn iso_week(&self) -> (week: u8)
        requires
            self.wf(),
        ensures
            week == iso_week_number(self.year, self.month, self.day) as u8,
            1 <= week <= 53,
    {
        iso_week_of(self.year, self.month, self.day) as u8
    }

    /// The key of the date itself.
    pub fn day_key(&self) -> (key: u64)
        requires
            self.wf(),
        ensures
            key == self.key(),
    {
        Year::from_number(self.year).0 as u64 * 10000 + self.month as u64 * 100 + self.day as u64
    }
}

impl DateTime {
    /// Whether this is a day of the calendar and a time of that day.
    pub open spec fn wf(self) -> bool {
        &&& self.date.wf()
        &&& 0 <= self.hour <= 23
        &&& 0 <= self.minute <= 59
        &&& 0 <= self.second <= 59
        &&& 0 <= self.subsec_nanosecond <= 999_999_999
    }

    /// Whether this is a day of the calendar and a time of that day.
    pub fn is_valid(&self) -> (valid: bool)
        ensures
            valid == self.wf(),
    {
        self.date.is_valid() && 0 <= self.hour && self.hour <= 23 && 0 <= self.minute
            && self.minute <= 59 && 0 <= self.second && self.second <= 59 && 0
            <= self.subsec_nanosecond && self.subsec_nanosecond <= 999_999_999
    }
}

impl Year {
    /// The key of the year.
    pub open spec fn key(self) -> u64 {
        self.0 as u64
    }

    /// The bucket of the year with the given number.
    pub fn from_number(year: i16) -> (bucket: Year)
        ensures
            bucket == Year(year_code(year)),
    {
        if year >= 0 {
            Year(year as u16)
        } else {
            Year((year as i32 + 65536) as u16)
        }
    }

    /// The key of the year.
    pub fn to_key(&self) -> (key: u64)
        ensures
            key == self.key(),
    {
        self.0 as u64
    }
}

impl Month {
    /// The key of the month: year and month as the decimal number `yyyyymm`.
    pub open spec fn key(self) -> u64 {
        (self.year.0 * 100 + self.month) as u64
    }

    /// The month of the given day.
    pub fn of(date: Date) -> (month: Month)
        requires
            date.wf(),
        ensures
            month == date.month_bucket(),
            1 <= month.month <= 12,
    {
        Month { year: Year::from_number(date.year), month: date.month as u8 }
    }

    /// The key of the month.
    pub fn to_key(&self) -> (key: u64)
        ensures
            key == self.key(),
    {
        self.year.0 as u64 * 100 + self.month as u64
    }
}

impl Week {
    /// The key of the week: year and week as the decimal number `yyyyyww`.
    pub open spec fn key(self) -> u64 {
        (self.year.0 * 100 + self.iso_week) as u64
    }

    /// The week of the given day, from the number of its ISO week.
    pub fn from_parts(date: Date, iso_week: u8) -> (week: Week)
        ensures
            week == (Week { year: date.year_bucket(), iso_week }),
    {
        Week { year: Year::from_number(date.year), iso_week }
    }

    /// The week of the given day.
    pub fn of(date: Date) -> (week: Week)
        requires
            date.wf(),
        ensures
            week == date.week_bucket(),
            1 <= week.iso_week <= 53,
    {
        Week::from_parts(date, date.iso_week())
    }

    /// The key of the week.
    pub fn to_key(&self) -> (key: u64)
        ensures
            key == self.key(),
    {
        self.year.0 as u64 * 100 + self.iso_week as u64
    }
}

/// Different days have different keys.
pub proof fn lemma_day_key_injective(one: Date, other: Date)
    requires
        one.wf(),
        other.wf(),
        one.key() == other.key(),
    ensures
        one == other,
{
}

/// Different years have different codes.
pub proof fn lemma_year_code_injective(one: i16, other: i16)
    requires
        year_code(one) == year_code(other),
    ensures
        one == other,
{
}

/// Different months have different keys.
pub proof fn lemma_month_key_injective(one: Month, other: Month)
    requires
        one.month < 100,
        other.month < 100,
        one.key() == other.key(),
    ensures
        one == other,
{
}

/// Different weeks have different keys.
pub proof fn lemma_week_key_injective(one: Week, other: Week)
    requires
        one.iso_week < 100,
        other.iso_week < 100,
        one.key() == other.key(),
    ensures
        one == other,
{
}

impl From<Date> for Year {
    fn from(value: Date) -> (bucket: Year) {
        Year::from_number(value.year)
    }
}

impl vstd::std_specs::convert::FromSpecImpl<Date> for Year {
    open spec fn obeys_from_spec() -> bool {
        true
    }

    open spec fn from_spec(value: Date) -> Year {
        value.year_bucket()
    }
}

} // verus!
