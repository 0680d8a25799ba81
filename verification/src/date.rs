//! Calendar dates as plain year, month and day numbers.

use vstd::prelude::*;

verus! {

/// The pattern under which dates are read from text: year, month and day,
/// separated by hyphens.
pub const DATE_PATTERN: &'static str = "%Y-%m-%d";

/// A day of the proleptic Gregorian calendar.
#[derive(Clone, Copy, Debug, PartialEq, Eq, Structural)]
pub struct Date {
    pub year: i32,
    pub month: u32,
    pub day: u32,
}

/// The ways in which reading a date can fail.
#[derive(Clone, Copy, Debug, PartialEq, Eq, Structural)]
pub enum DateError {
    /// The text is not a date under the pattern, or names a day that the calendar lacks.
    InvalidDateFormat,
}

/// Whether `year` is a leap year.
pub open spec fn is_leap_year(year: int) -> bool {
    year % 4 == 0 && (year % 100 != 0 || year % 400 == 0)
}

/// The number of days of the given month; 0 for a month outside 1..=12.
pub open spec fn days_in_month(year: int, month: int) -> int {
    if month == 2 {
        if is_leap_year(year) {
            29
        } else {
            28
        }
    } else if month == 4 || month == 6 || month == 9 || month == 11 {
        30
    } else if 1 <= month <= 12 {
        31
    } else {
        0
    }
}

/// Whether the three numbers name a day that exists.
pub open spec fn is_calendar_date(year: int, month: int, day: int) -> bool {
    1 <= month <= 12 && 1 <= day <= days_in_month(year, month)
}

/// Chronological order on dates: `a` is strictly before `b`.
pub open spec fn date_before(a: Date, b: Date) -> bool {
    a.year < b.year || (a.year == b.year && (a.month < b.month || (a.month == b.month && a.day
        < b.day)))
}

/// What `chrono::NaiveDate::parse_from_str` makes of `text` under `pattern`:
/// the year, month and day of the date it reads, or `None` where it reports an error.
pub uninterp spec fn calendar_reading(text: Seq<char>, pattern: Seq<char>) -> Option<
    (i32, u32, u32),
>;

/// Calls `chrono::NaiveDate::parse_from_str` and takes the date apart with
/// `Datelike::year`, `month` and `day`. The contract only names the outcome:
/// the same text and pattern always give the same reading.
#[verifier::external_body]
fn read_calendar_date(text: &str, pattern: &str) -> (r: Option<(i32, u32, u32)>)
    ensures
        r == calendar_reading(text@, pattern@),
{
    match chrono::NaiveDate::parse_from_str(text, pattern) {
        Ok(date) => Some(
            (
                chrono::Datelike::year(&date),
                chrono::Datelike::month(&date),
                chrono::Datelike::day(&date),
            ),
        ),
        Err(_) => None,
    }
}

fn leap_year(year: i32) -> (r: bool)
    ensures
        r == is_leap_year(year as int),
{
    // Shift into the non-negative range by a multiple of 400, which keeps every remainder.
    let shifted: i64 = year as i64 + 2_400_000_000;
    assert(shifted % 4 == 0 <==> (year as int) % 4 == 0);
    assert(shifted % 100 == 0 <==> (year as int) % 100 == 0);
    assert(shifted % 400 == 0 <==> (year as int) % 400 == 0);
    shifted % 4 == 0 && (shifted % 100 != 0 || shifted % 400 == 0)
}

impl Date {
    /// Whether this value names a day that exists.
    pub open spec fn valid(self) -> bool {
        is_calendar_date(self.year as int, self.month as int, self.day as int)
    }

    /// The date with the given numbers, if the calendar has such a day.
    pub fn new(year: i32, month: u32, day: u32) -> (r: Option<Date>)
        ensures
            r == (if is_calendar_date(year as int, month as int, day as int) {
                Some(Date { year, month, day })
            } else {
                None
            }),
    {
        if month < 1 || month > 12 || day < 1 {
            return None;
        }
        let length: u32 = if month == 2 {
            if leap_year(year) {
                29
            } else {
                28
            }
        } else if month == 4 || month == 6 || month == 9 || month == 11 {
            30
        } else {
            31
        };
        if day <= length {
            Some(Date { year, month, day })
        } else {
            None
        }
    }

    /// The date that a reading holds: `parts` is what the calendar reader made of a text.
    pub fn from_reading(parts: Option<(i32, u32, u32)>) -> (r: Result<Date, DateError>)
        ensures
            r == date_of_reading(parts),
    {
        match parts {
            Some((year, month, day)) => match Date::new(year, month, day) {
                Some(date) => Ok(date),
                None => Err(DateError::InvalidDateFormat),
            },
            None => Err(DateError::InvalidDateFormat),
        }
    }

    /// Reads a date written as year, month and day with hyphens between them.
    pub fn parse(text: &str) -> (r: Result<Date, DateError>)
        ensures
            r == date_of_reading(calendar_reading(text@, DATE_PATTERN@)),
            r matches Ok(date) ==> date.valid(),
    {
        Date::from_reading(read_calendar_date(text, DATE_PATTERN))
    }

    /// Whether `self` is strictly before `other`.
    pub fn is_before(&self, other: &Date) -> (r: bool)
        ensures
            r == date_before(*self, *other),
    {
        self.year < other.year || (self.year == other.year && (self.month < other.month || (
        self.month == other.month && self.day < other.day)))
    }
}

/// The date or error that a reading stands for.
pub open spec fn date_of_reading(parts: Option<(i32, u32, u32)>) -> Result<Date, DateError> {
    match parts {
        Some((year, month, day)) => if is_calendar_date(year as int, month as int, day as int) {
            Ok(Date { year, month, day })
        } else {
            Err(DateError::InvalidDateFormat)
        },
        None => Err(DateError::InvalidDateFormat),
    }
}

} // verus!
