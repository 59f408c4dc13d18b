//! The valid time of a record: a calendar day and a time of day, in UTC.
use vstd::prelude::*;

verus! {

/// Whether `year` has a 29th of February in the Gregorian calendar.
pub open spec fn is_leap_year(year: int) -> bool {
    year % 4 == 0 && (year % 100 != 0 || year % 400 == 0)
}

/// The number of days of `month` in `year`, for a month from 1 to 12.
pub open spec fn days_in_month(year: int, month: int) -> int {
    if month == 2 {
        if is_leap_year(year) {
            29
        } else {
            28
        }
    } else if month == 4 || month == 6 || month == 9 || month == 11 {
        30
    } else {
        31
    }
}

/// Whether the Gregorian calendar has the given day.
pub open spec fn is_calendar_day(year: int, month: int, day: int) -> bool {
    1 <= month <= 12 && 1 <= day <= days_in_month(year, month)
}

/// Whether a day has the given hour and minute.
pub open spec fn is_clock_time(hour: int, minute: int) -> bool {
    0 <= hour < 24 && 0 <= minute < 60
}

/// Asks `chrono::NaiveDate::from_ymd_opt` whether a calendar day exists.
///
/// The contract takes chrono at its word: for a year that chrono can hold, a
/// date is made exactly when the month is one of the twelve and the day is one
/// of that month in that year of the Gregorian calendar. Nothing of this is
/// proved here.
#[verifier::external_body]
fn calendar_day_exists(year: i32, month: u32, day: u32) -> (r: bool)
    requires
        0 <= year <= 9999,
    ensures
        r == is_calendar_day(year as int, month as int, day as int),
{
    chrono::NaiveDate::from_ymd_opt(year, month, day).is_some()
}

/// Asks `chrono::NaiveTime::from_hms_opt` whether a time of day exists, with
/// zero seconds.
///
/// The contract takes chrono at its word: a time is made exactly when the hour
/// is under 24 and the minute under 60. Nothing of this is proved here.
#[verifier::external_body]
fn clock_time_exists(hour: u32, minute: u32) -> (r: bool)
    ensures
        r == is_clock_time(hour as int, minute as int),
{
    chrono::NaiveTime::from_hms_opt(hour, minute, 0).is_some()
}

/// A valid time to the minute, always taken as UTC.
#[derive(Debug, Clone, Copy, PartialEq, Eq, Structural)]
pub struct ValidTime {
    /// The year of the Gregorian calendar.
    pub year: i32,
    /// The month, from 1 to 12.
    pub month: u32,
    /// The day of the month, from 1.
    pub day: u32,
    /// The hour, from 0 to 23.
    pub hour: u32,
    /// The minute, from 0 to 59.
    pub minute: u32,
}

impl ValidTime {
    /// Whether the fields name a day of the calendar and a time of that day.
    pub open spec fn wf(&self) -> bool {
        &&& is_calendar_day(self.year as int, self.month as int, self.day as int)
        &&& is_clock_time(self.hour as int, self.minute as int)
    }

    /// Whether `self` is strictly earlier than `other`.
    pub open spec fn spec_is_before(&self, other: &ValidTime) -> bool {
        ||| self.year < other.year
        ||| self.year == other.year && self.month < other.month
        ||| self.year == other.year && self.month == other.month && self.day < other.day
        ||| self.year == other.year && self.month == other.month && self.day == other.day
            && self.hour < other.hour
        ||| self.year == other.year && self.month == other.month && self.day == other.day
            && self.hour == other.hour && self.minute < other.minute
    }

    /// The time with the given fields, where they name a real day and time of
    /// a year from 0 to 9999; nothing otherwise.
    pub fn new(year: i32, month: u32, day: u32, hour: u32, minute: u32) -> (r: Option<ValidTime>)
        ensures
            r == if 0 <= year <= 9999 && (ValidTime { year, month, day, hour, minute }).wf() {
                Some(ValidTime { year, month, day, hour, minute })
            } else {
                None
            },
    {
        if 0 <= year && year <= 9999 && calendar_day_exists(year, month, day) && clock_time_exists(
            hour,
            minute,
        ) {
            Some(ValidTime { year, month, day, hour, minute })
        } else {
            None
        }
    }

    /// Whether `self` is strictly earlier than `other`.
    #[verifier::when_used_as_spec(spec_is_before)]
    pub fn is_before(&self, other: &ValidTime) -> (r: bool)
        ensures
            r == self.spec_is_before(other),
    {
        if self.year != other.year {
            self.year < other.year
        } else if self.month != other.month {
            self.month < other.month
        } else if self.day != other.day {
            self.day < other.day
        } else if self.hour != other.hour {
            self.hour < other.hour
        } else {
            self.minute < other.minute
        }
    }
}

} // verus!
