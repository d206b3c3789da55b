use vstd::prelude::*;
use crate::err::EdError;

verus! {

/// A normalized calendar timestamp, decoded from the packed FAT-style
/// date/time fields of a directory/file record.
#[derive(Clone, Copy, Debug, PartialEq, Eq, Structural)]
pub struct DateTime {
    pub year: u16,
    pub month: u8,
    pub day: u8,
    pub hour: u8,
    pub minute: u8,
    pub second: u8,
}

/// Whether a year is a leap year in the Gregorian calendar.
pub open spec fn spec_is_leap_year(y: u16) -> bool {
    y % 4 == 0 && (y % 100 != 0 || y % 400 == 0)
}

/// Leap-year test.
pub fn is_leap_year(y: u16) -> (r: bool)
    ensures
        r == spec_is_leap_year(y),
{
    y % 4 == 0 && (y % 100 != 0 || y % 400 == 0)
}

/// How many days the given month of the given year has.
pub open spec fn spec_days_in_month(y: u16, m: u8) -> u8 {
    if m == 2 {
        if spec_is_leap_year(y) {
            29
        } else {
            28
        }
    } else if m == 4 || m == 6 || m == 9 || m == 11 {
        30
    } else {
        31
    }
}

/// Days in a month.
pub fn days_in_month(y: u16, m: u8) -> (r: u8)
    ensures
        r == spec_days_in_month(y, m),
{
    if m == 2 {
        if is_leap_year(y) {
            29
        } else {
            28
        }
    } else if m == 4 || m == 6 || m == 9 || m == 11 {
        30
    } else {
        31
    }
}

/// Whether the fields form a valid calendar timestamp.
pub open spec fn valid_datetime(dt: DateTime) -> bool {
    &&& 1 <= dt.month <= 12
    &&& 1 <= dt.day <= spec_days_in_month(dt.year, dt.month)
    &&& dt.hour <= 23
    &&& dt.minute <= 59
    &&& dt.second <= 59
}

// Packed-date bit layout (MS-DOS/FAT convention): bits 0-4 day of month,
// bits 5-8 month, bits 9-15 years since 1980. Packed-time layout: bits 0-4
// seconds divided by two, bits 5-10 minutes, bits 11-15 hours.

/// Year encoded by a packed date field.
pub open spec fn packed_year(d: u16) -> u16 {
    ((d >> 9) + 1980) as u16
}

/// Month encoded by a packed date field.
pub open spec fn packed_month(d: u16) -> u8 {
    ((d >> 5) & 15) as u8
}

/// Day of month encoded by a packed date field.
pub open spec fn packed_day(d: u16) -> u8 {
    (d & 31) as u8
}

/// Hour encoded by a packed time field.
pub open spec fn packed_hour(t: u16) -> u8 {
    (t >> 11) as u8
}

/// Minute encoded by a packed time field.
pub open spec fn packed_minute(t: u16) -> u8 {
    ((t >> 5) & 63) as u8
}

/// Second encoded by a packed time field: twice the stored half-seconds.
pub open spec fn packed_second(t: u16) -> u8 {
    (2 * (t & 31)) as u8
}

/// The timestamp a packed date/time pair encodes, field by field.
pub open spec fn packed_datetime(d: u16, t: u16) -> DateTime {
    DateTime {
        year: packed_year(d),
        month: packed_month(d),
        day: packed_day(d),
        hour: packed_hour(t),
        minute: packed_minute(t),
        second: packed_second(t),
    }
}

/// Decode a packed date/time pair into a calendar timestamp. Succeeds exactly
/// when the bit pattern encodes a valid calendar date and time of day; an
/// invalid pattern is an unrecoverable decode failure, `BadDate`.
pub fn decode_datetime(date: u16, time: u16) -> (r: Result<DateTime, EdError>)
    ensures
        r matches Ok(dt) ==> dt == packed_datetime(date, time) && valid_datetime(dt),
        r is Err ==> r == Err::<DateTime, EdError>(EdError::BadDate) && !valid_datetime(
            packed_datetime(date, time),
        ),
{
    proof {
        assert(date >> 9 <= 127) by (bit_vector);
        assert((date >> 5) & 15 <= 15) by (bit_vector);
        assert(date & 31 <= 31) by (bit_vector);
        assert(time >> 11 <= 31) by (bit_vector);
        assert((time >> 5) & 63 <= 63) by (bit_vector);
        assert(time & 31 <= 31) by (bit_vector);
    }
    let year: u16 = (date >> 9) + 1980;
    let month: u8 = ((date >> 5) & 15) as u8;
    let day: u8 = (date & 31) as u8;
    let hour: u8 = (time >> 11) as u8;
    let minute: u8 = ((time >> 5) & 63) as u8;
    let second: u8 = 2 * ((time & 31) as u8);
    let dt = DateTime { year, month, day, hour, minute, second };
    if month < 1 || month > 12 {
        return Err(EdError::BadDate);
    }
    if day < 1 || day > days_in_month(year, month) {
        return Err(EdError::BadDate);
    }
    if hour > 23 || minute > 59 || second > 59 {
        return Err(EdError::BadDate);
    }
    Ok(dt)
}

} // verus!
