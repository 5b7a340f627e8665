//! Dates of the proleptic Gregorian calendar.

use chrono::Datelike;
use chrono::NaiveDate;
use vstd::prelude::*;

verus! {

/// First year that a date can fall in.
pub const MIN_YEAR: i32 = -262143;

/// Last year that a date can fall in.
pub const MAX_YEAR: i32 = 262142;

/// Whether `year` has a 29th of February.
pub open spec fn is_leap_year(year: int) -> bool {
    year % 4 == 0 && (year % 100 != 0 || year % 400 == 0)
}

/// The number of days of the month `month` of `year`.
pub open spec fn days_in_month(year: int, month: int) -> int {
    if month == 2 {
        if is_leap_year(year) {
            29
        } else {
            28
        }
    } else if month == 4 || month == 6 || month == 9 || month == 11 {
        30
    } else {
        31
    }
}

/// Whether the three numbers name a day of the calendar.
pub open spec fn is_calendar_date(year: int, month: int, day: int) -> bool {
    &&& MIN_YEAR <= year <= MAX_YEAR
    &&& 1 <= month <= 12
    &&& 1 <= day <= days_in_month(year, month)
}

/// Whether the date is the last one of the calendar.
pub open spec fn is_last_date(year: int, month: int, day: int) -> bool {
    year == MAX_YEAR && month == 12 && day == 31
}

/// The day after the given one, as year, month and day.
pub open spec fn day_after(year: int, month: int, day: int) -> (int, int, int) {
    if day < days_in_month(year, month) {
        (year, month, day + 1)
    } else if month < 12 {
        (year, month + 1, 1)
    } else {
        (year + 1, 1, 1)
    }
}

/// The year, month and day of the day after the given one, or `None` after
/// the last date of the calendar.
pub open spec fn successor_parts(year: i32, month: u32, day: u32) -> Option<(i32, u32, u32)> {
    if is_last_date(year as int, month as int, day as int) {
        None
    } else {
        let (y, m, d) = day_after(year as int, month as int, day as int);
        Some((y as i32, m as u32, d as u32))
    }
}

/// A calendar date.
#[derive(Clone, Copy, Debug, PartialEq, Eq, Structural)]
pub struct Date {
    year: i32,
    month: u32,
    day: u32,
}

impl Date {
    /// Every date names a day of the calendar.
    #[verifier::type_invariant]
    pub open spec fn valid(self) -> bool {
        is_calendar_date(
            self.spec_year() as int,
            self.spec_month() as int,
            self.spec_day() as int,
        )
    }

    /// The year.
    pub closed spec fn spec_year(&self) -> i32 {
        self.year
    }

    /// The month, from 1 to 12.
    pub closed spec fn spec_month(&self) -> u32 {
        self.month
    }

    /// The day of the month, from 1 to 31.
    pub closed spec fn spec_day(&self) -> u32 {
        self.day
    }

    /// The date of the given year, month and day.
    pub closed spec fn from_ymd(year: int, month: int, day: int) -> Date {
        Date { year: year as i32, month: month as u32, day: day as u32 }
    }

    /// The date of the next day, or `None` after the last date of the
    /// calendar.
    pub open spec fn successor(self) -> Option<Date> {
        match successor_parts(self.spec_year(), self.spec_month(), self.spec_day()) {
            Some((y, m, d)) => Some(Date::from_ymd(y as int, m as int, d as int)),
            None => None,
        }
    }

    /// Makes the date of the given year, month and day, or `None` where the
    /// calendar has no such day.
    pub fn new(year: i32, month: u32, day: u32) -> (r: Option<Date>)
        ensures
            r is Some <==> is_calendar_date(year as int, month as int, day as int),
            r matches Some(d) ==> d == Date::from_ymd(year as int, month as int, day as int)
                && d.spec_year() == year && d.spec_month() == month && d.spec_day() == day,
    {
        if year < MIN_YEAR || year > MAX_YEAR || month < 1 || month > 12 || day < 1 {
            return None;
        }
        // 262400 is a multiple of 400 that lifts every year above zero.
        let lifted: u32 = (year + 262400) as u32;
        let leap = lifted % 4 == 0 && (lifted % 100 != 0 || lifted % 400 == 0);
        let length: u32 = if month == 2 {
            if leap {
                29
            } else {
                28
            }
        } else if month == 4 || month == 6 || month == 9 || month == 11 {
            30
        } else {
            31
        };
        if day <= length {
            Some(Date { year, month, day })
        } else {
            None
        }
    }

    /// The year.
    #[verifier::when_used_as_spec(spec_year)]
    pub fn year(&self) -> (r: i32)
        ensures
            r == self.spec_year(),
    {
        self.year
    }

    /// The month, from 1 to 12.
    #[verifier::when_used_as_spec(spec_month)]
    pub fn month(&self) -> (r: u32)
        ensures
            r == self.spec_month(),
    {
        self.month
    }

    /// The day of the month, from 1 to 31.
    #[verifier::when_used_as_spec(spec_day)]
    pub fn day(&self) -> (r: u32)
        ensures
            r == self.spec_day(),
            1 <= r <= 31,
    {
        proof {
            use_type_invariant(self);
        }
        self.day
    }

    /// The date of the next day, or `None` after the last date of the
    /// calendar.
    pub fn succ(&self) -> (r: Option<Date>)
        ensures
            r == self.successor(),
    {
        proof {
            use_type_invariant(self);
        }
        match naive_successor(self.year, self.month, self.day) {
            Some((year, month, day)) => Some(Date { year, month, day }),
            None => None,
        }
    }

    /// The day after a date is the next day of the same month, or the first
    /// day of the next month, or of the next year after December; only the
    /// last date of the calendar has none.
    pub proof fn law_successor_is_next_day(self)
        requires
            self.valid(),
        ensures
            self.successor() is None <==> is_last_date(
                self.spec_year() as int,
                self.spec_month() as int,
                self.spec_day() as int,
            ),
            self.successor() matches Some(next) ==> {
                &&& next.valid()
                &&& (next.spec_year() as int, next.spec_month() as int, next.spec_day() as int)
                    == day_after(
                    self.spec_year() as int,
                    self.spec_month() as int,
                    self.spec_day() as int,
                )
                &&& next.spec_day() == self.spec_day() + 1 || next.spec_day() == 1
            },
    {
        let (y, m, d) = day_after(
            self.spec_year() as int,
            self.spec_month() as int,
            self.spec_day() as int,
        );
        if self.successor() is Some {
            Date::lemma_from_ymd(y, m, d);
        }
    }

    /// A date made of the parts of a calendar date has those parts.
    pub proof fn lemma_from_ymd(year: int, month: int, day: int)
        requires
            is_calendar_date(year, month, day),
        ensures
            Date::from_ymd(year, month, day).spec_year() == year,
            Date::from_ymd(year, month, day).spec_month() == month,
            Date::from_ymd(year, month, day).spec_day() == day,
            Date::from_ymd(year, month, day).valid(),
    {
    }

}

/// `NaiveDate::succ_opt` on the date that `NaiveDate::from_ymd_opt` makes of
/// the three numbers, read back with `Datelike::year`, `month` and `day`.
///
/// Not proved, but taken from the crate: `from_ymd_opt` makes a date of every
/// day of the proleptic Gregorian calendar from the year -262143 to the year
/// 262142, and `succ_opt` gives the next calendar date, or nothing after the
/// last date that the crate represents, the 31st of December of the year
/// 262142.
#[verifier::external_body]
fn naive_successor(year: i32, month: u32, day: u32) -> (r: Option<(i32, u32, u32)>)
    requires
        is_calendar_date(year as int, month as int, day as int),
    ensures
        r == successor_parts(year, month, day),
{
    let next = NaiveDate::from_ymd_opt(year, month, day)?.succ_opt()?;
    Some((next.year(), next.month(), next.day()))
}

} // verus!
