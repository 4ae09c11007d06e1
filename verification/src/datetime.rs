//! Calendar timestamps as the clock hardware understands them.
//!
//! The hardware real-time clock stores a plain calendar value and rejects one
//! whose fields are out of range.  `DateTime` models that value; the
//! validation mirrors the register limits the clock enforces, with a typed
//! error naming the first invalid field.

use vstd::prelude::*;

verus! {

#[derive(Clone, Copy, Debug, PartialEq, Eq, Structural)]
pub enum DayOfWeek {
    Sunday,
    Monday,
    Tuesday,
    Wednesday,
    Thursday,
    Friday,
    Saturday,
}

/// A calendar timestamp: date, day of week, and time of day.
#[derive(Clone, Copy, Debug, PartialEq, Eq, Structural)]
pub struct DateTime {
    pub year: u16,
    pub month: u8,
    pub day: u8,
    pub day_of_week: DayOfWeek,
    pub hour: u8,
    pub minute: u8,
    pub second: u8,
}

/// The field that made the clock reject a timestamp.
#[derive(Clone, Copy, Debug, PartialEq, Eq, Structural)]
pub enum DateTimeError {
    InvalidYear,
    InvalidMonth,
    InvalidDay,
    InvalidHour,
    InvalidMinute,
    InvalidSecond,
}

/// A timestamp the clock hardware accepts: every field within register range.
pub open spec fn spec_valid_datetime(dt: DateTime) -> bool {
    &&& dt.year <= 4095
    &&& 1 <= dt.month <= 12
    &&& 1 <= dt.day <= 31
    &&& dt.hour <= 23
    &&& dt.minute <= 59
    &&& dt.second <= 59
}

/// The first out-of-range field of `dt`, checked in the order the clock
/// driver checks them; `None` when the timestamp is acceptable.
pub open spec fn spec_datetime_fault(dt: DateTime) -> Option<DateTimeError> {
    if dt.year > 4095 {
        Some(DateTimeError::InvalidYear)
    } else if dt.month < 1 || dt.month > 12 {
        Some(DateTimeError::InvalidMonth)
    } else if dt.day < 1 || dt.day > 31 {
        Some(DateTimeError::InvalidDay)
    } else if dt.hour > 23 {
        Some(DateTimeError::InvalidHour)
    } else if dt.minute > 59 {
        Some(DateTimeError::InvalidMinute)
    } else if dt.second > 59 {
        Some(DateTimeError::InvalidSecond)
    } else {
        None
    }
}

/// Decides whether the clock hardware would accept `dt`, returning the first
/// invalid field otherwise.
pub fn validate_datetime(dt: &DateTime) -> (r: Result<(), DateTimeError>)
    ensures
        r is Ok <==> spec_valid_datetime(*dt),
        r matches Err(e) ==> spec_datetime_fault(*dt) == Some(e),
{
    if dt.year > 4095 {
        Err(DateTimeError::InvalidYear)
    } else if dt.month < 1 || dt.month > 12 {
        Err(DateTimeError::InvalidMonth)
    } else if dt.day < 1 || dt.day > 31 {
        Err(DateTimeError::InvalidDay)
    } else if dt.hour > 23 {
        Err(DateTimeError::InvalidHour)
    } else if dt.minute > 59 {
        Err(DateTimeError::InvalidMinute)
    } else if dt.second > 59 {
        Err(DateTimeError::InvalidSecond)
    } else {
        Ok(())
    }
}

/// The line logged when the clock rejects a timestamp, one per field.
pub open spec fn spec_datetime_error_message(e: DateTimeError) -> Seq<char> {
    match e {
        DateTimeError::InvalidYear => "Invalid year"@,
        DateTimeError::InvalidMonth => "Invalid month"@,
        DateTimeError::InvalidDay => "Invalid day"@,
        DateTimeError::InvalidHour => "Invalid hour"@,
        DateTimeError::InvalidMinute => "Invalid minute"@,
        DateTimeError::InvalidSecond => "Invalid second"@,
    }
}

/// Names the field the clock rejected, for the log.
pub fn datetime_error_message(e: DateTimeError) -> (r: &'static str)
    ensures
        r@ == spec_datetime_error_message(e),
{
    match e {
        DateTimeError::InvalidYear => "Invalid year",
        DateTimeError::InvalidMonth => "Invalid month",
        DateTimeError::InvalidDay => "Invalid day",
        DateTimeError::InvalidHour => "Invalid hour",
        DateTimeError::InvalidMinute => "Invalid minute",
        DateTimeError::InvalidSecond => "Invalid second",
    }
}

/// Index of a day of week, Sunday first, as the time service numbers them.
pub open spec fn spec_day_of_week_index(d: DayOfWeek) -> u8 {
    match d {
        DayOfWeek::Sunday => 0,
        DayOfWeek::Monday => 1,
        DayOfWeek::Tuesday => 2,
        DayOfWeek::Wednesday => 3,
        DayOfWeek::Thursday => 4,
        DayOfWeek::Friday => 5,
        DayOfWeek::Saturday => 6,
    }
}

pub fn day_of_week_index(d: DayOfWeek) -> (r: u8)
    ensures
        r == spec_day_of_week_index(d),
        r <= 6,
{
    match d {
        DayOfWeek::Sunday => 0,
        DayOfWeek::Monday => 1,
        DayOfWeek::Tuesday => 2,
        DayOfWeek::Wednesday => 3,
        DayOfWeek::Thursday => 4,
        DayOfWeek::Friday => 5,
        DayOfWeek::Saturday => 6,
    }
}

/// The day of week the time service's numbering stands for; an out-of-range
/// number falls back to Sunday, as the device always has.
pub open spec fn spec_day_of_week_from_index(n: u8) -> DayOfWeek {
    if n == 1 {
        DayOfWeek::Monday
    } else if n == 2 {
        DayOfWeek::Tuesday
    } else if n == 3 {
        DayOfWeek::Wednesday
    } else if n == 4 {
        DayOfWeek::Thursday
    } else if n == 5 {
        DayOfWeek::Friday
    } else if n == 6 {
        DayOfWeek::Saturday
    } else {
        DayOfWeek::Sunday
    }
}

pub fn day_of_week_from_index(n: u8) -> (r: DayOfWeek)
    ensures
        r == spec_day_of_week_from_index(n),
{
    match n {
        1 => DayOfWeek::Monday,
        2 => DayOfWeek::Tuesday,
        3 => DayOfWeek::Wednesday,
        4 => DayOfWeek::Thursday,
        5 => DayOfWeek::Friday,
        6 => DayOfWeek::Saturday,
        _ => DayOfWeek::Sunday,
    }
}

} // verus!
