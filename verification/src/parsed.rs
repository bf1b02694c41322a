//! The fields that a text gave, and the date and time they name.
//!
//! Reading a text after a pattern fills a set of fields: a year, a week, an
//! hour on a twelve-hour clock, whatever the pattern asked for. The fields
//! name a date and time when enough of them are there and none of them
//! contradicts another.

use vstd::prelude::*;
use crate::calendar::{
    day_of_days, days_from_isoywd, days_from_yo, days_from_ymd, iso_week_of_days,
    iso_year_of_days, month_of_days, ordinal_of_days, valid_days, valid_isoywd, valid_year,
    valid_ymd, valid_yo, weekday_index, year_of_days,
};
use crate::date::{NaiveDate, Weekday};
use crate::datetime::{DateTimeModel, NaiveDateTime};
use crate::duration::Duration;
use crate::format::{days_from_sunday, week_from_monday, week_from_sunday};
use crate::numeric::{i64_to_i32, i64_to_u32};
use crate::scan::ParseError;
use crate::time::{NaiveTime, TimeModel};

verus! {

/// The fields that a text gave. A field that the text did not give is
/// `None`.
#[derive(Clone, Copy, PartialEq, Eq, Structural, Debug)]
pub struct Parsed {
    /// The year.
    pub year: Option<i32>,
    /// The year divided by 100. It implies a year that is not negative.
    pub year_div_100: Option<i32>,
    /// The year modulo 100. It implies a year that is not negative.
    pub year_mod_100: Option<i32>,
    /// The ISO 8601 week-numbering year.
    pub isoyear: Option<i32>,
    /// The week-numbering year divided by 100.
    pub isoyear_div_100: Option<i32>,
    /// The week-numbering year modulo 100.
    pub isoyear_mod_100: Option<i32>,
    /// The month, counted from 1.
    pub month: Option<u32>,
    /// The week of the year, where week 1 starts on the first Sunday.
    pub week_from_sun: Option<u32>,
    /// The week of the year, where week 1 starts on the first Monday.
    pub week_from_mon: Option<u32>,
    /// The ISO 8601 week, counted from 1.
    pub isoweek: Option<u32>,
    /// The day of the week.
    pub weekday: Option<Weekday>,
    /// The day of the year, counted from 1.
    pub ordinal: Option<u32>,
    /// The day of the month, counted from 1.
    pub day: Option<u32>,
    /// The half of the day: 0 before noon, 1 after.
    pub hour_div_12: Option<u32>,
    /// The hour within the half of the day, 0 to 11.
    pub hour_mod_12: Option<u32>,
    /// The minute.
    pub minute: Option<u32>,
    /// The second, 60 for a leap second.
    pub second: Option<u32>,
    /// The nanoseconds since the last whole second.
    pub nanosecond: Option<u32>,
    /// The seconds since midnight of January 1, 1970.
    pub timestamp: Option<i64>,
    /// The offset from UTC in seconds.
    pub offset: Option<i32>,
}

/// A field after a value was given for it: the value where the field was
/// empty or held the same value, and `Impossible` where it held another.
pub open spec fn merged<T>(old: Option<T>, new: T) -> Result<Option<T>, ParseError> {
    match old {
        None => Ok(Some(new)),
        Some(value) => if value == new {
            Ok(old)
        } else {
            Err(ParseError::Impossible)
        },
    }
}

/// Gives a value for a field of a signed number.
fn merge_i32(old: Option<i32>, new: i32) -> (r: Result<Option<i32>, ParseError>)
    ensures
        r == merged(old, new),
{
    match old {
        None => Ok(Some(new)),
        Some(value) => if value == new {
            Ok(old)
        } else {
            Err(ParseError::Impossible)
        },
    }
}

/// Gives a value for a field of an unsigned number.
fn merge_u32(old: Option<u32>, new: u32) -> (r: Result<Option<u32>, ParseError>)
    ensures
        r == merged(old, new),
{
    match old {
        None => Ok(Some(new)),
        Some(value) => if value == new {
            Ok(old)
        } else {
            Err(ParseError::Impossible)
        },
    }
}

impl Parsed {
    /// The fields of which none is given.
    pub open spec fn empty() -> Parsed {
        Parsed {
            year: None,
            year_div_100: None,
            year_mod_100: None,
            isoyear: None,
            isoyear_div_100: None,
            isoyear_mod_100: None,
            month: None,
            week_from_sun: None,
            week_from_mon: None,
            isoweek: None,
            weekday: None,
            ordinal: None,
            day: None,
            hour_div_12: None,
            hour_mod_12: None,
            minute: None,
            second: None,
            nanosecond: None,
            timestamp: None,
            offset: None,
        }
    }

    /// The fields of which none is given.
    pub fn new() -> (r: Parsed)
        ensures
            r == Parsed::empty(),
    {
        Parsed {
            year: None,
            year_div_100: None,
            year_mod_100: None,
            isoyear: None,
            isoyear_div_100: None,
            isoyear_mod_100: None,
            month: None,
            week_from_sun: None,
            week_from_mon: None,
            isoweek: None,
            weekday: None,
            ordinal: None,
            day: None,
            hour_div_12: None,
            hour_mod_12: None,
            minute: None,
            second: None,
            nanosecond: None,
            timestamp: None,
            offset: None,
        }
    }

    /// The fields with the year set. Fails with `OutOfRange`
    /// where the number does not fit, and with `Impossible` where the field
    /// holds another number already.
    pub open spec fn year_set(self, value: int) -> Result<Parsed, ParseError> {
        if value < i32::MIN || value > i32::MAX {
            Err(ParseError::OutOfRange)
        } else {
            match merged(self.year, value as i32) {
                Err(e) => Err(e),
                Ok(field) => Ok(Parsed { year: field, ..self }),
            }
        }
    }

    /// Sets the year: see `year_set`.
    pub fn set_year(self, value: i64) -> (r: Result<Parsed, ParseError>)
        ensures
            r == self.year_set(value as int),
    {
        let value = match i64_to_i32(value) {
            Some(value) => value,
            None => return Err(ParseError::OutOfRange),
        };
        match merge_i32(self.year, value) {
            Ok(field) => Ok(Parsed { year: field, ..self }),
            Err(e) => Err(e),
        }
    }

    /// The fields with the year divided by 100 set. It must not be negative.
    /// Fails with `OutOfRange` where the number does not fit, and with
    /// `Impossible` where the field holds another number already.
    pub open spec fn year_div_100_set(self, value: int) -> Result<Parsed, ParseError> {
        if value < 0 || value > i32::MAX {
            Err(ParseError::OutOfRange)
        } else {
            match merged(self.year_div_100, value as i32) {
                Err(e) => Err(e),
                Ok(field) => Ok(Parsed { year_div_100: field, ..self }),
            }
        }
    }

    /// Sets the year divided by 100: see `year_div_100_set`.
    pub fn set_year_div_100(self, value: i64) -> (r: Result<Parsed, ParseError>)
        ensures
            r == self.year_div_100_set(value as int),
    {
        if value < 0 {
            return Err(ParseError::OutOfRange);
        }
        let value = match i64_to_i32(value) {
            Some(value) => value,
            None => return Err(ParseError::OutOfRange),
        };
        match merge_i32(self.year_div_100, value) {
            Ok(field) => Ok(Parsed { year_div_100: field, ..self }),
            Err(e) => Err(e),
        }
    }

    /// The fields with the year modulo 100 set. It must not be negative.
    /// Fails with `OutOfRange` where the number does not fit, and with
    /// `Impossible` where the field holds another number already.
    pub open spec fn year_mod_100_set(self, value: int) -> Result<Parsed, ParseError> {
        if value < 0 || value > i32::MAX {
            Err(ParseError::OutOfRange)
        } else {
            match merged(self.year_mod_100, value as i32) {
                Err(e) => Err(e),
                Ok(field) => Ok(Parsed { year_mod_100: field, ..self }),
            }
        }
    }

    /// Sets the year modulo 100: see `year_mod_100_set`.
    pub fn set_year_mod_100(self, value: i64) -> (r: Result<Parsed, ParseError>)
        ensures
            r == self.year_mod_100_set(value as int),
    {
        if value < 0 {
            return Err(ParseError::OutOfRange);
        }
        let value = match i64_to_i32(value) {
            Some(value) => value,
            None => return Err(ParseError::OutOfRange),
        };
        match merge_i32(self.year_mod_100, value) {
            Ok(field) => Ok(Parsed { year_mod_100: field, ..self }),
            Err(e) => Err(e),
        }
    }

    /// The fields with the week-numbering year set. Fails with `OutOfRange`
    /// where the number does not fit, and with `Impossible` where the field
    /// holds another number already.
    pub open spec fn isoyear_set(self, value: int) -> Result<Parsed, ParseError> {
        if value < i32::MIN || value > i32::MAX {
            Err(ParseError::OutOfRange)
        } else {
            match merged(self.isoyear, value as i32) {
                Err(e) => Err(e),
                Ok(field) => Ok(Parsed { isoyear: field, ..self }),
            }
        }
    }

    /// Sets the week-numbering year: see `isoyear_set`.
    pub fn set_isoyear(self, value: i64) -> (r: Result<Parsed, ParseError>)
        ensures
            r == self.isoyear_set(value as int),
    {
        let value = match i64_to_i32(value) {
            Some(value) => value,
            None => return Err(ParseError::OutOfRange),
        };
        match merge_i32(self.isoyear, value) {
            Ok(field) => Ok(Parsed { isoyear: field, ..self }),
            Err(e) => Err(e),
        }
    }

    /// The fields with the week-numbering year divided by 100 set. It must not be negative.
    /// Fails with `OutOfRange` where the number does not fit, and with
    /// `Impossible` where the field holds another number already.
    pub open spec fn isoyear_div_100_set(self, value: int) -> Result<Parsed, ParseError> {
        if value < 0 || value > i32::MAX {
            Err(ParseError::OutOfRange)
        } else {
            match merged(self.isoyear_div_100, value as i32) {
                Err(e) => Err(e),
                Ok(field) => Ok(Parsed { isoyear_div_100: field, ..self }),
            }
        }
    }

    /// Sets the week-numbering year divided by 100: see `isoyear_div_100_set`.
    pub fn set_isoyear_div_100(self, value: i64) -> (r: Result<Parsed, ParseError>)
        ensures
            r == self.isoyear_div_100_set(value as int),
    {
        if value < 0 {
            return Err(ParseError::OutOfRange);
        }
        let value = match i64_to_i32(value) {
            Some(value) => value,
            None => return Err(ParseError::OutOfRange),
        };
        match merge_i32(self.isoyear_div_100, value) {
            Ok(field) => Ok(Parsed { isoyear_div_100: field, ..self }),
            Err(e) => Err(e),
        }
    }

    /// The fields with the week-numbering year modulo 100 set. It must not be negative.
    /// Fails with `OutOfRange` where the number does not fit, and with
    /// `Impossible` where the field holds another number already.
    pub open spec fn isoyear_mod_100_set(self, value: int) -> Result<Parsed, ParseError> {
        if value < 0 || value > i32::MAX {
            Err(ParseError::OutOfRange)
        } else {
            match merged(self.isoyear_mod_100, value as i32) {
                Err(e) => Err(e),
                Ok(field) => Ok(Parsed { isoyear_mod_100: field, ..self }),
            }
        }
    }

    /// Sets the week-numbering year modulo 100: see `isoyear_mod_100_set`.
    pub fn set_isoyear_mod_100(self, value: i64) -> (r: Result<Parsed, ParseError>)
        ensures
            r == self.isoyear_mod_100_set(value as int),
    {
        if value < 0 {
            return Err(ParseError::OutOfRange);
        }
        let value = match i64_to_i32(value) {
            Some(value) => value,
            None => return Err(ParseError::OutOfRange),
        };
        match merge_i32(self.isoyear_mod_100, value) {
            Ok(field) => Ok(Parsed { isoyear_mod_100: field, ..self }),
            Err(e) => Err(e),
        }
    }

    /// The fields with the offset from UTC in seconds set. Fails with `OutOfRange`
    /// where the number does not fit, and with `Impossible` where the field
    /// holds another number already.
    pub open spec fn offset_set(self, value: int) -> Result<Parsed, ParseError> {
        if value < i32::MIN || value > i32::MAX {
            Err(ParseError::OutOfRange)
        } else {
            match merged(self.offset, value as i32) {
                Err(e) => Err(e),
                Ok(field) => Ok(Parsed { offset: field, ..self }),
            }
        }
    }

    /// Sets the offset from UTC in seconds: see `offset_set`.
    pub fn set_offset(self, value: i64) -> (r: Result<Parsed, ParseError>)
        ensures
            r == self.offset_set(value as int),
    {
        let value = match i64_to_i32(value) {
            Some(value) => value,
            None => return Err(ParseError::OutOfRange),
        };
        match merge_i32(self.offset, value) {
            Ok(field) => Ok(Parsed { offset: field, ..self }),
            Err(e) => Err(e),
        }
    }

    /// The fields with the month set. Fails with `OutOfRange` where the
    /// number is negative or does not fit, and with `Impossible` where the
    /// field holds another number already.
    pub open spec fn month_set(self, value: int) -> Result<Parsed, ParseError> {
        if value < 0 || value > u32::MAX {
            Err(ParseError::OutOfRange)
        } else {
            match merged(self.month, value as u32) {
                Err(e) => Err(e),
                Ok(field) => Ok(Parsed { month: field, ..self }),
            }
        }
    }

    /// Sets the month: see `month_set`.
    pub fn set_month(self, value: i64) -> (r: Result<Parsed, ParseError>)
        ensures
            r == self.month_set(value as int),
    {
        let value = match i64_to_u32(value) {
            Some(value) => value,
            None => return Err(ParseError::OutOfRange),
        };
        match merge_u32(self.month, value) {
            Ok(field) => Ok(Parsed { month: field, ..self }),
            Err(e) => Err(e),
        }
    }

    /// The fields with the week of the year counted from the first Sunday
    /// set. Fails with `OutOfRange` where the number is negative or does not
    /// fit, and with `Impossible` where the field holds another number
    /// already.
    pub open spec fn week_from_sun_set(self, value: int) -> Result<Parsed, ParseError> {
        if value < 0 || value > u32::MAX {
            Err(ParseError::OutOfRange)
        } else {
            match merged(self.week_from_sun, value as u32) {
                Err(e) => Err(e),
                Ok(field) => Ok(Parsed { week_from_sun: field, ..self }),
            }
        }
    }

    /// Sets the week of the year counted from the first Sunday: see `week_from_sun_set`.
    pub fn set_week_from_sun(self, value: i64) -> (r: Result<Parsed, ParseError>)
        ensures
            r == self.week_from_sun_set(value as int),
    {
        let value = match i64_to_u32(value) {
            Some(value) => value,
            None => return Err(ParseError::OutOfRange),
        };
        match merge_u32(self.week_from_sun, value) {
            Ok(field) => Ok(Parsed { week_from_sun: field, ..self }),
            Err(e) => Err(e),
        }
    }

    /// The fields with the week of the year counted from the first Monday
    /// set. Fails with `OutOfRange` where the number is negative or does not
    /// fit, and with `Impossible` where the field holds another number
    /// already.
    pub open spec fn week_from_mon_set(self, value: int) -> Result<Parsed, ParseError> {
        if value < 0 || value > u32::MAX {
            Err(ParseError::OutOfRange)
        } else {
            match merged(self.week_from_mon, value as u32) {
                Err(e) => Err(e),
                Ok(field) => Ok(Parsed { week_from_mon: field, ..self }),
            }
        }
    }

    /// Sets the week of the year counted from the first Monday: see `week_from_mon_set`.
    pub fn set_week_from_mon(self, value: i64) -> (r: Result<Parsed, ParseError>)
        ensures
            r == self.week_from_mon_set(value as int),
    {
        let value = match i64_to_u32(value) {
            Some(value) => value,
            None => return Err(ParseError::OutOfRange),
        };
        match merge_u32(self.week_from_mon, value) {
            Ok(field) => Ok(Parsed { week_from_mon: field, ..self }),
            Err(e) => Err(e),
        }
    }

    /// The fields with the ISO 8601 week set. Fails with `OutOfRange` where
    /// the number is negative or does not fit, and with `Impossible` where
    /// the field holds another number already.
    pub open spec fn isoweek_set(self, value: int) -> Result<Parsed, ParseError> {
        if value < 0 || value > u32::MAX {
            Err(ParseError::OutOfRange)
        } else {
            match merged(self.isoweek, value as u32) {
                Err(e) => Err(e),
                Ok(field) => Ok(Parsed { isoweek: field, ..self }),
            }
        }
    }

    /// Sets the ISO 8601 week: see `isoweek_set`.
    pub fn set_isoweek(self, value: i64) -> (r: Result<Parsed, ParseError>)
        ensures
            r == self.isoweek_set(value as int),
    {
        let value = match i64_to_u32(value) {
            Some(value) => value,
            None => return Err(ParseError::OutOfRange),
        };
        match merge_u32(self.isoweek, value) {
            Ok(field) => Ok(Parsed { isoweek: field, ..self }),
            Err(e) => Err(e),
        }
    }

    /// The fields with the day of the year set. Fails with `OutOfRange` where
    /// the number is negative or does not fit, and with `Impossible` where
    /// the field holds another number already.
    pub open spec fn ordinal_set(self, value: int) -> Result<Parsed, ParseError> {
        if value < 0 || value > u32::MAX {
            Err(ParseError::OutOfRange)
        } else {
            match merged(self.ordinal, value as u32) {
                Err(e) => Err(e),
                Ok(field) => Ok(Parsed { ordinal: field, ..self }),
            }
        }
    }

    /// Sets the day of the year: see `ordinal_set`.
    pub fn set_ordinal(self, value: i64) -> (r: Result<Parsed, ParseError>)
        ensures
            r == self.ordinal_set(value as int),
    {
        let value = match i64_to_u32(value) {
            Some(value) => value,
            None => return Err(ParseError::OutOfRange),
        };
        match merge_u32(self.ordinal, value) {
            Ok(field) => Ok(Parsed { ordinal: field, ..self }),
            Err(e) => Err(e),
        }
    }

    /// The fields with the day of the month set. Fails with `OutOfRange`
    /// where the number is negative or does not fit, and with `Impossible`
    /// where the field holds another number already.
    pub open spec fn day_set(self, value: int) -> Result<Parsed, ParseError> {
        if value < 0 || value > u32::MAX {
            Err(ParseError::OutOfRange)
        } else {
            match merged(self.day, value as u32) {
                Err(e) => Err(e),
                Ok(field) => Ok(Parsed { day: field, ..self }),
            }
        }
    }

    /// Sets the day of the month: see `day_set`.
    pub fn set_day(self, value: i64) -> (r: Result<Parsed, ParseError>)
        ensures
            r == self.day_set(value as int),
    {
        let value = match i64_to_u32(value) {
            Some(value) => value,
            None => return Err(ParseError::OutOfRange),
        };
        match merge_u32(self.day, value) {
            Ok(field) => Ok(Parsed { day: field, ..self }),
            Err(e) => Err(e),
        }
    }

    /// The fields with the minute set. Fails with `OutOfRange` where the
    /// number is negative or does not fit, and with `Impossible` where the
    /// field holds another number already.
    pub open spec fn minute_set(self, value: int) -> Result<Parsed, ParseError> {
        if value < 0 || value > u32::MAX {
            Err(ParseError::OutOfRange)
        } else {
            match merged(self.minute, value as u32) {
                Err(e) => Err(e),
                Ok(field) => Ok(Parsed { minute: field, ..self }),
            }
        }
    }

    /// Sets the minute: see `minute_set`.
    pub fn set_minute(self, value: i64) -> (r: Result<Parsed, ParseError>)
        ensures
            r == self.minute_set(value as int),
    {
        let value = match i64_to_u32(value) {
            Some(value) => value,
            None => return Err(ParseError::OutOfRange),
        };
        match merge_u32(self.minute, value) {
            Ok(field) => Ok(Parsed { minute: field, ..self }),
            Err(e) => Err(e),
        }
    }

    /// The fields with the second set. Fails with `OutOfRange` where the
    /// number is negative or does not fit, and with `Impossible` where the
    /// field holds another number already.
    pub open spec fn second_set(self, value: int) -> Result<Parsed, ParseError> {
        if value < 0 || value > u32::MAX {
            Err(ParseError::OutOfRange)
        } else {
            match merged(self.second, value as u32) {
                Err(e) => Err(e),
                Ok(field) => Ok(Parsed { second: field, ..self }),
            }
        }
    }

    /// Sets the second: see `second_set`.
    pub fn set_second(self, value: i64) -> (r: Result<Parsed, ParseError>)
        ensures
            r == self.second_set(value as int),
    {
        let value = match i64_to_u32(value) {
            Some(value) => value,
            None => return Err(ParseError::OutOfRange),
        };
        match merge_u32(self.second, value) {
            Ok(field) => Ok(Parsed { second: field, ..self }),
            Err(e) => Err(e),
        }
    }

    /// The fields with the nanoseconds set. Fails with `OutOfRange` where the
    /// number is negative or does not fit, and with `Impossible` where the
    /// field holds another number already.
    pub open spec fn nanosecond_set(self, value: int) -> Result<Parsed, ParseError> {
        if value < 0 || value > u32::MAX {
            Err(ParseError::OutOfRange)
        } else {
            match merged(self.nanosecond, value as u32) {
                Err(e) => Err(e),
                Ok(field) => Ok(Parsed { nanosecond: field, ..self }),
            }
        }
    }

    /// Sets the nanoseconds: see `nanosecond_set`.
    pub fn set_nanosecond(self, value: i64) -> (r: Result<Parsed, ParseError>)
        ensures
            r == self.nanosecond_set(value as int),
    {
        let value = match i64_to_u32(value) {
            Some(value) => value,
            None => return Err(ParseError::OutOfRange),
        };
        match merge_u32(self.nanosecond, value) {
            Ok(field) => Ok(Parsed { nanosecond: field, ..self }),
            Err(e) => Err(e),
        }
    }

    /// The fields with the day of the week set. Fails with `Impossible`
    /// where the field holds another day already.
    pub open spec fn weekday_set(self, value: Weekday) -> Result<Parsed, ParseError> {
        match merged(self.weekday, value) {
            Err(e) => Err(e),
            Ok(field) => Ok(Parsed { weekday: field, ..self }),
        }
    }

    /// Sets the day of the week: see `weekday_set`.
    pub fn set_weekday(self, value: Weekday) -> (r: Result<Parsed, ParseError>)
        ensures
            r == self.weekday_set(value),
    {
        match self.weekday {
            None => Ok(Parsed { weekday: Some(value), ..self }),
            Some(old) => if old.num_days_from_monday() == value.num_days_from_monday() {
                Ok(self)
            } else {
                Err(ParseError::Impossible)
            },
        }
    }

    /// The fields with the half of the day set: before noon or after it.
    /// Fails with `Impossible` where the field holds the other half already.
    pub open spec fn ampm_set(self, pm: bool) -> Result<Parsed, ParseError> {
        match merged(
            self.hour_div_12,
            if pm {
                1u32
            } else {
                0u32
            },
        ) {
            Err(e) => Err(e),
            Ok(field) => Ok(Parsed { hour_div_12: field, ..self }),
        }
    }

    /// Sets the half of the day: see `ampm_set`.
    pub fn set_ampm(self, pm: bool) -> (r: Result<Parsed, ParseError>)
        ensures
            r == self.ampm_set(pm),
    {
        match merge_u32(
            self.hour_div_12,
            if pm {
                1
            } else {
                0
            },
        ) {
            Ok(field) => Ok(Parsed { hour_div_12: field, ..self }),
            Err(e) => Err(e),
        }
    }

    /// The fields with the hour on a twelve-hour clock set, 1 to 12. Fails
    /// with `OutOfRange` on another number, and with `Impossible` where the
    /// field holds another hour already.
    pub open spec fn hour12_set(self, value: int) -> Result<Parsed, ParseError> {
        if value < 1 || value > 12 {
            Err(ParseError::OutOfRange)
        } else {
            match merged(self.hour_mod_12, (value % 12) as u32) {
                Err(e) => Err(e),
                Ok(field) => Ok(Parsed { hour_mod_12: field, ..self }),
            }
        }
    }

    /// Sets the hour on a twelve-hour clock: see `hour12_set`.
    pub fn set_hour12(self, value: i64) -> (r: Result<Parsed, ParseError>)
        ensures
            r == self.hour12_set(value as int),
    {
        if value < 1 || value > 12 {
            return Err(ParseError::OutOfRange);
        }
        match merge_u32(self.hour_mod_12, (value % 12) as u32) {
            Ok(field) => Ok(Parsed { hour_mod_12: field, ..self }),
            Err(e) => Err(e),
        }
    }

    /// The fields with the hour of the day set, as the half of the day and
    /// the hour within it. Fails with `OutOfRange` where the number is
    /// negative or does not fit, and with `Impossible` where one of the two
    /// fields holds another number already.
    pub open spec fn hour_set(self, value: int) -> Result<Parsed, ParseError> {
        if value < 0 || value > u32::MAX {
            Err(ParseError::OutOfRange)
        } else {
            match merged(self.hour_div_12, (value / 12) as u32) {
                Err(e) => Err(e),
                Ok(half) => match merged(self.hour_mod_12, (value % 12) as u32) {
                    Err(e) => Err(e),
                    Ok(hour) => Ok(Parsed { hour_div_12: half, hour_mod_12: hour, ..self }),
                },
            }
        }
    }

    /// Sets the hour of the day: see `hour_set`.
    pub fn set_hour(self, value: i64) -> (r: Result<Parsed, ParseError>)
        ensures
            r == self.hour_set(value as int),
    {
        let value = match i64_to_u32(value) {
            Some(value) => value,
            None => return Err(ParseError::OutOfRange),
        };
        let half = match merge_u32(self.hour_div_12, value / 12) {
            Ok(field) => field,
            Err(e) => return Err(e),
        };
        let hour = match merge_u32(self.hour_mod_12, value % 12) {
            Ok(field) => field,
            Err(e) => return Err(e),
        };
        Ok(Parsed { hour_div_12: half, hour_mod_12: hour, ..self })
    }

    /// The fields with the timestamp set. Fails with `Impossible` where the
    /// field holds another timestamp already.
    pub open spec fn timestamp_set(self, value: i64) -> Result<Parsed, ParseError> {
        match merged(self.timestamp, value) {
            Err(e) => Err(e),
            Ok(field) => Ok(Parsed { timestamp: field, ..self }),
        }
    }

    /// Sets the timestamp: see `timestamp_set`.
    pub fn set_timestamp(self, value: i64) -> (r: Result<Parsed, ParseError>)
        ensures
            r == self.timestamp_set(value),
    {
        match self.timestamp {
            None => Ok(Parsed { timestamp: Some(value), ..self }),
            Some(old) => if old == value {
                Ok(self)
            } else {
                Err(ParseError::Impossible)
            },
        }
    }
}

/// The year that a year, its hundreds and its last two digits name, as far
/// as they are given.
///
/// A year alone stands for itself. Hundreds or last two digits beside it
/// must agree with it, and imply that it is not negative. Without a year,
/// hundreds and last two digits together make one, and last two digits
/// alone name a year from 1970 to 2069. Hundreds alone are `NotEnough`.
pub open spec fn resolved_year(year: Option<i32>, div: Option<i32>, rem: Option<i32>) -> Result<
    Option<int>,
    ParseError,
> {
    if div is None && rem is None {
        Ok(
            match year {
                Some(y) => Some(y as int),
                None => None,
            },
        )
    } else if rem is Some && !(0 <= rem->0 <= 99) {
        Err(ParseError::OutOfRange)
    } else if year is Some {
        let y = year->0 as int;
        if y < 0 {
            Err(ParseError::OutOfRange)
        } else if (div is Some ==> div->0 == y / 100) && (rem is Some ==> rem->0 == y % 100) {
            Ok(Some(y))
        } else {
            Err(ParseError::Impossible)
        }
    } else if div is Some {
        if rem is None {
            Err(ParseError::NotEnough)
        } else if div->0 < 0 || div->0 * 100 + rem->0 > i32::MAX {
            Err(ParseError::OutOfRange)
        } else {
            Ok(Some(div->0 * 100 + rem->0))
        }
    } else {
        Ok(
            Some(
                rem->0 + if rem->0 < 70 {
                    2000int
                } else {
                    1900int
                },
            ),
        )
    }
}

/// The year that a year, its hundreds and its last two digits name.
fn resolve_year(year: Option<i32>, div: Option<i32>, rem: Option<i32>) -> (r: Result<
    Option<i32>,
    ParseError,
>)
    ensures
        match r {
            Ok(Some(y)) => resolved_year(year, div, rem) == Ok::<Option<int>, ParseError>(
                Some(y as int),
            ),
            Ok(None) => resolved_year(year, div, rem) == Ok::<Option<int>, ParseError>(None),
            Err(e) => resolved_year(year, div, rem) == Err::<Option<int>, ParseError>(e),
        },
{
    if div.is_none() && rem.is_none() {
        return Ok(year);
    }
    if let Some(r) = rem {
        if r < 0 || r > 99 {
            return Err(ParseError::OutOfRange);
        }
    }
    match year {
        Some(y) => {
            if y < 0 {
                return Err(ParseError::OutOfRange);
            }
            let div_agrees = match div {
                Some(q) => q == y / 100,
                None => true,
            };
            let rem_agrees = match rem {
                Some(r) => r == y % 100,
                None => true,
            };
            if div_agrees && rem_agrees {
                Ok(Some(y))
            } else {
                Err(ParseError::Impossible)
            }
        },
        None => match div {
            Some(q) => match rem {
                None => Err(ParseError::NotEnough),
                Some(r) => {
                    if q < 0 || q > (i32::MAX - r) / 100 {
                        Err(ParseError::OutOfRange)
                    } else {
                        Ok(Some(q * 100 + r))
                    }
                },
            },
            None => match rem {
                Some(r) => Ok(
                    Some(
                        r + if r < 70 {
                            2000
                        } else {
                            1900
                        },
                    ),
                ),
                None => Ok(None),
            },
        },
    }
}

/// Whether a field, if given, holds a number.
pub open spec fn agrees(given: Option<u32>, actual: int) -> bool {
    given is Some ==> given->0 == actual
}

/// Whether the hundreds and last two digits of a year, if given, are those
/// of a year. A negative year has neither.
pub open spec fn century_agrees(div: Option<i32>, rem: Option<i32>, year: int) -> bool {
    if year >= 0 {
        (div is Some ==> div->0 == year / 100) && (rem is Some ==> rem->0 == year % 100)
    } else {
        div is None && rem is None
    }
}

/// The day that a year, a week counted from the first given day of the
/// week in the year, and a day of that week name. `first` is the number of
/// days from January 1 to the start of week 1, `offset` the number of days
/// from the start of a week to the day. Fails with `OutOfRange` where the
/// week is past 53, or the day falls into another year or out of range.
pub open spec fn week_day(year: int, week: int, first: int, offset: int) -> Result<
    int,
    ParseError,
> {
    let days = days_from_yo(year, 1) + first + (week - 1) * 7 + offset;
    if !valid_year(year) || week > 53 || !valid_days(days) || year_of_days(days) != year {
        Err(ParseError::OutOfRange)
    } else {
        Ok(days)
    }
}

impl Parsed {
    /// Whether every date field that is given holds what a day number says.
    pub open spec fn agrees_with(self, days: int) -> bool {
        &&& self.year is Some ==> self.year->0 == year_of_days(days)
        &&& century_agrees(self.year_div_100, self.year_mod_100, year_of_days(days))
        &&& agrees(self.month, month_of_days(days))
        &&& agrees(self.day, day_of_days(days))
        &&& self.isoyear is Some ==> self.isoyear->0 == iso_year_of_days(days)
        &&& century_agrees(self.isoyear_div_100, self.isoyear_mod_100, iso_year_of_days(days))
        &&& agrees(self.isoweek, iso_week_of_days(days))
        &&& self.weekday is Some ==> self.weekday->0 == Weekday::from_index(weekday_index(days))
        &&& agrees(self.ordinal, ordinal_of_days(days))
        &&& agrees(self.week_from_sun, week_from_sunday(days))
        &&& agrees(self.week_from_mon, week_from_monday(days))
    }

    /// The day that the fields name before they are held against one
    /// another: by year, month and day, or else by year and day of the year,
    /// or by year, week from Sunday and day of the week, or by year, week
    /// from Monday and day of the week, or by week-numbering year, week and
    /// day of the week. `NotEnough` where none of these is given whole.
    pub open spec fn candidate(self, year: Option<int>, isoyear: Option<int>) -> Result<
        int,
        ParseError,
    > {
        if year is Some && self.month is Some && self.day is Some {
            if valid_ymd(year->0, self.month->0 as int, self.day->0 as int) {
                Ok(days_from_ymd(year->0, self.month->0 as int, self.day->0 as int))
            } else {
                Err(ParseError::OutOfRange)
            }
        } else if year is Some && self.ordinal is Some {
            if valid_yo(year->0, self.ordinal->0 as int) {
                Ok(days_from_yo(year->0, self.ordinal->0 as int))
            } else {
                Err(ParseError::OutOfRange)
            }
        } else if year is Some && self.week_from_sun is Some && self.weekday is Some {
            week_day(
                year->0,
                self.week_from_sun->0 as int,
                (7 - days_from_sunday(days_from_yo(year->0, 1))) % 7,
                (self.weekday->0.index() + 1) % 7,
            )
        } else if year is Some && self.week_from_mon is Some && self.weekday is Some {
            week_day(
                year->0,
                self.week_from_mon->0 as int,
                (7 - weekday_index(days_from_yo(year->0, 1))) % 7,
                self.weekday->0.index(),
            )
        } else if isoyear is Some && self.isoweek is Some && self.weekday is Some {
            if valid_isoywd(isoyear->0, self.isoweek->0 as int, self.weekday->0.index()) {
                Ok(days_from_isoywd(isoyear->0, self.isoweek->0 as int, self.weekday->0.index()))
            } else {
                Err(ParseError::OutOfRange)
            }
        } else {
            Err(ParseError::NotEnough)
        }
    }

    /// The day number that the date fields name.
    ///
    /// Fails with the error of the year or the week-numbering year where
    /// one of them cannot be resolved, with the error of the candidate where
    /// there is none, and with `Impossible` where a given field does not
    /// hold what the candidate says.
    pub open spec fn date(self) -> Result<int, ParseError> {
        match resolved_year(self.year, self.year_div_100, self.year_mod_100) {
            Err(e) => Err(e),
            Ok(year) => match resolved_year(
                self.isoyear,
                self.isoyear_div_100,
                self.isoyear_mod_100,
            ) {
                Err(e) => Err(e),
                Ok(isoyear) => match self.candidate(year, isoyear) {
                    Err(e) => Err(e),
                    Ok(days) => if self.agrees_with(days) {
                        Ok(days)
                    } else {
                        Err(ParseError::Impossible)
                    },
                },
            },
        }
    }

    /// The time of day that the time fields name.
    ///
    /// The hour, as the half of the day and the hour within it, and the
    /// minute must be given: `NotEnough` otherwise. The second is zero where
    /// it is not given, and 60 names the leap second after second 59.
    /// Nanoseconds without a second are `NotEnough`. A number that no time
    /// has is `OutOfRange`.
    pub open spec fn time(self) -> Result<TimeModel, ParseError> {
        if self.hour_div_12 is None {
            Err(ParseError::NotEnough)
        } else if self.hour_div_12->0 > 1 {
            Err(ParseError::OutOfRange)
        } else if self.hour_mod_12 is None {
            Err(ParseError::NotEnough)
        } else if self.hour_mod_12->0 > 11 {
            Err(ParseError::OutOfRange)
        } else if self.minute is None {
            Err(ParseError::NotEnough)
        } else if self.minute->0 > 59 {
            Err(ParseError::OutOfRange)
        } else if self.second is Some && self.second->0 > 60 {
            Err(ParseError::OutOfRange)
        } else if self.nanosecond is Some && self.nanosecond->0 > 999_999_999 {
            Err(ParseError::OutOfRange)
        } else if self.nanosecond is Some && self.second is None {
            Err(ParseError::NotEnough)
        } else {
            let hour = self.hour_div_12->0 * 12 + self.hour_mod_12->0;
            let second: int = if self.second is Some {
                self.second->0 as int
            } else {
                0
            };
            let nano: int = if self.nanosecond is Some {
                self.nanosecond->0 as int
            } else {
                0
            };
            if second == 60 {
                Ok(
                    TimeModel {
                        secs: hour * 3_600 + self.minute->0 * 60 + 59,
                        frac: 1_000_000_000 + nano,
                    },
                )
            } else {
                Ok(TimeModel { secs: hour * 3_600 + self.minute->0 * 60 + second, frac: nano })
            }
        }
    }

    /// Whether the timestamp field, if given, is that of a date and time
    /// under an offset. The timestamp of a leap second may be that of the
    /// second after it.
    pub open spec fn timestamp_agrees(self, datetime: DateTimeModel, offset: int) -> bool {
        self.timestamp is Some ==> {
            let timestamp = datetime.timestamp() - offset;
            self.timestamp->0 == timestamp || (datetime.time.is_leap() && self.timestamp->0
                == timestamp + 1)
        }
    }

    /// The fields with the year, the day of the year, the hour, the minute
    /// and the second of a date and time added. The second is left alone
    /// where the fields hold a leap second.
    pub open spec fn filled_from(self, datetime: DateTimeModel) -> Result<Parsed, ParseError> {
        let with_second = if self.second == Some(60u32) {
            Ok(self)
        } else {
            self.second_set(datetime.time.second())
        };
        match with_second {
            Err(e) => Err(e),
            Ok(p) => match p.year_set(year_of_days(datetime.date)) {
                Err(e) => Err(e),
                Ok(p) => match p.ordinal_set(ordinal_of_days(datetime.date)) {
                    Err(e) => Err(e),
                    Ok(p) => match p.hour_set(datetime.time.hour()) {
                        Err(e) => Err(e),
                        Ok(p) => p.minute_set(datetime.time.minute()),
                    },
                },
            },
        }
    }

    /// The date and time that a timestamp names for fields that hold a
    /// given second. Where the fields hold a leap second, the timestamp
    /// names second 59, or the second after the leap second: then the date
    /// and time is one second earlier. Any other second is `Impossible`.
    pub open spec fn timestamp_base(self, timestamp: int) -> Result<DateTimeModel, ParseError> {
        match DateTimeModel::from_timestamp(timestamp, 0) {
            None => Err(ParseError::OutOfRange),
            Some(datetime) => if self.second == Some(60u32) {
                if datetime.time.second() == 59 {
                    Ok(datetime)
                } else if datetime.time.second() == 0 {
                    match datetime.checked_sub(1_000_000_000) {
                        Some(earlier) => Ok(earlier),
                        None => Err(ParseError::OutOfRange),
                    }
                } else {
                    Err(ParseError::Impossible)
                }
            } else {
                Ok(datetime)
            },
        }
    }

    /// The date and time that fields with a timestamp name when the date
    /// and time fields alone do not name one: the date and time of the
    /// timestamp, where the given fields agree with it.
    pub open spec fn datetime_from_timestamp(self, offset: int) -> Result<
        DateTimeModel,
        ParseError,
    > {
        let timestamp = self.timestamp->0 + offset;
        if timestamp < i64::MIN || timestamp > i64::MAX {
            Err(ParseError::OutOfRange)
        } else {
            match self.timestamp_base(timestamp) {
                Err(e) => Err(e),
                Ok(base) => match self.filled_from(base) {
                    Err(e) => Err(e),
                    Ok(filled) => match filled.date() {
                        Err(e) => Err(e),
                        Ok(date) => match filled.time() {
                            Err(e) => Err(e),
                            Ok(time) => Ok(DateTimeModel { date, time }),
                        },
                    },
                },
            }
        }
    }

    /// The date and time that the fields name, under an offset from UTC in
    /// seconds that the timestamp field is held against.
    ///
    /// Where the date fields name a date and the time fields a time, the
    /// two are the result, unless a given timestamp contradicts them:
    /// `Impossible`. Where they do not, a given timestamp names the date and
    /// time, unless a field is out of range or contradicts another. Without
    /// a timestamp the error is that of the date, or else that of the time.
    pub open spec fn datetime(self, offset: int) -> Result<DateTimeModel, ParseError> {
        let date = self.date();
        let time = self.time();
        if date is Ok && time is Ok {
            let datetime = DateTimeModel { date: date->Ok_0, time: time->Ok_0 };
            if self.timestamp_agrees(datetime, offset) {
                Ok(datetime)
            } else {
                Err(ParseError::Impossible)
            }
        } else if self.timestamp is Some {
            if date == Err::<int, ParseError>(ParseError::OutOfRange) || time == Err::<
                TimeModel,
                ParseError,
            >(ParseError::OutOfRange) {
                Err(ParseError::OutOfRange)
            } else if date == Err::<int, ParseError>(ParseError::Impossible) || time == Err::<
                TimeModel,
                ParseError,
            >(ParseError::Impossible) {
                Err(ParseError::Impossible)
            } else {
                self.datetime_from_timestamp(offset)
            }
        } else if date is Err {
            Err(date->Err_0)
        } else {
            Err(time->Err_0)
        }
    }

    /// Whether every date field that is given holds what a date says.
    fn agrees_with_date(&self, date: &NaiveDate) -> (r: bool)
        ensures
            r == self.agrees_with(date@),
    {
        let (year, month, day) = date.ymd();
        let (isoyear, isoweek, weekday) = date.isoweekdate();
        let ordinal = date.ordinal();
        let from_monday = weekday.num_days_from_monday();
        let from_sunday = weekday.num_days_from_sunday();
        let week_sun = (ordinal + 6 - from_sunday) / 7;
        let week_mon = (ordinal + 6 - from_monday) / 7;
        let year_ok = match self.year {
            Some(y) => y == year,
            None => true,
        };
        let isoyear_ok = match self.isoyear {
            Some(y) => y == isoyear,
            None => true,
        };
        let weekday_ok = match self.weekday {
            Some(w) => w.num_days_from_monday() == from_monday,
            None => true,
        };
        year_ok && century_ok(self.year_div_100, self.year_mod_100, year) && field_ok(
            self.month,
            month,
        ) && field_ok(self.day, day) && isoyear_ok && century_ok(
            self.isoyear_div_100,
            self.isoyear_mod_100,
            isoyear,
        ) && field_ok(self.isoweek, isoweek) && weekday_ok && field_ok(self.ordinal, ordinal)
            && field_ok(self.week_from_sun, week_sun) && field_ok(self.week_from_mon, week_mon)
    }

    /// The day that the fields name before they are held against one
    /// another.
    fn candidate_date(&self, year: Option<i32>, isoyear: Option<i32>) -> (r: Result<
        NaiveDate,
        ParseError,
    >)
        ensures
            match r {
                Ok(date) => self.candidate(int_of(year), int_of(isoyear)) == Ok::<int, ParseError>(
                    date@,
                ),
                Err(e) => self.candidate(int_of(year), int_of(isoyear)) == Err::<int, ParseError>(
                    e,
                ),
            },
    {
        if let (Some(year), Some(month), Some(day)) = (year, self.month, self.day) {
            return match NaiveDate::from_ymd_opt(year, month, day) {
                Some(date) => Ok(date),
                None => Err(ParseError::OutOfRange),
            };
        }
        if let (Some(year), Some(ordinal)) = (year, self.ordinal) {
            return match NaiveDate::from_yo_opt(year, ordinal) {
                Some(date) => Ok(date),
                None => Err(ParseError::OutOfRange),
            };
        }
        if let (Some(year), Some(week), Some(weekday)) = (year, self.week_from_sun, self.weekday) {
            return week_date(year, week, true, weekday);
        }
        if let (Some(year), Some(week), Some(weekday)) = (year, self.week_from_mon, self.weekday) {
            return week_date(year, week, false, weekday);
        }
        if let (Some(isoyear), Some(week), Some(weekday)) = (isoyear, self.isoweek, self.weekday) {
            return match NaiveDate::from_isoywd_opt(isoyear, week, weekday) {
                Some(date) => Ok(date),
                None => Err(ParseError::OutOfRange),
            };
        }
        Err(ParseError::NotEnough)
    }

    /// The date that the date fields name: see `date`.
    pub fn to_naive_date(&self) -> (r: Result<NaiveDate, ParseError>)
        ensures
            match r {
                Ok(date) => self.date() == Ok::<int, ParseError>(date@),
                Err(e) => self.date() == Err::<int, ParseError>(e),
            },
    {
        let year = match resolve_year(self.year, self.year_div_100, self.year_mod_100) {
            Ok(year) => year,
            Err(e) => return Err(e),
        };
        let isoyear = match resolve_year(self.isoyear, self.isoyear_div_100, self.isoyear_mod_100) {
            Ok(year) => year,
            Err(e) => return Err(e),
        };
        let date = match self.candidate_date(year, isoyear) {
            Ok(date) => date,
            Err(e) => return Err(e),
        };
        if self.agrees_with_date(&date) {
            Ok(date)
        } else {
            Err(ParseError::Impossible)
        }
    }

    /// The time of day that the time fields name: see `time`.
    pub fn to_naive_time(&self) -> (r: Result<NaiveTime, ParseError>)
        ensures
            match r {
                Ok(time) => self.time() == Ok::<TimeModel, ParseError>(time@),
                Err(e) => self.time() == Err::<TimeModel, ParseError>(e),
            },
    {
        let half = match self.hour_div_12 {
            Some(v) => if v <= 1 {
                v
            } else {
                return Err(ParseError::OutOfRange);
            },
            None => return Err(ParseError::NotEnough),
        };
        let hour = match self.hour_mod_12 {
            Some(v) => if v <= 11 {
                v
            } else {
                return Err(ParseError::OutOfRange);
            },
            None => return Err(ParseError::NotEnough),
        };
        let minute = match self.minute {
            Some(v) => if v <= 59 {
                v
            } else {
                return Err(ParseError::OutOfRange);
            },
            None => return Err(ParseError::NotEnough),
        };
        let (second, leap): (u32, u32) = match self.second {
            Some(v) => if v <= 59 {
                (v, 0)
            } else if v == 60 {
                (59, 1_000_000_000)
            } else {
                return Err(ParseError::OutOfRange);
            },
            None => (0, 0),
        };
        let nano: u32 = match self.nanosecond {
            Some(v) => if v > 999_999_999 {
                return Err(ParseError::OutOfRange);
            } else if self.second.is_none() {
                return Err(ParseError::NotEnough);
            } else {
                v
            },
            None => 0,
        };
        match NaiveTime::from_hms_nano_opt(half * 12 + hour, minute, second, leap + nano) {
            Some(time) => Ok(time),
            None => Err(ParseError::OutOfRange),
        }
    }

    /// The date and time that a timestamp names for these fields: see
    /// `timestamp_base`.
    fn base_of_timestamp(&self, timestamp: i64) -> (r: Result<NaiveDateTime, ParseError>)
        ensures
            match r {
                Ok(datetime) => self.timestamp_base(timestamp as int) == Ok::<
                    DateTimeModel,
                    ParseError,
                >(datetime@),
                Err(e) => self.timestamp_base(timestamp as int) == Err::<DateTimeModel, ParseError>(
                    e,
                ),
            },
    {
        let datetime = match NaiveDateTime::from_timestamp_opt(timestamp, 0) {
            Some(datetime) => datetime,
            None => return Err(ParseError::OutOfRange),
        };
        let leap = match self.second {
            Some(second) => second == 60,
            None => false,
        };
        if !leap {
            return Ok(datetime);
        }
        let second = datetime.second();
        if second == 59 {
            Ok(datetime)
        } else if second == 0 {
            match datetime.checked_sub_signed(Duration::seconds(1)) {
                Some(earlier) => Ok(earlier),
                None => Err(ParseError::OutOfRange),
            }
        } else {
            Err(ParseError::Impossible)
        }
    }

    /// The fields with those of a date and time added: see `filled_from`.
    fn fill_from(&self, datetime: &NaiveDateTime) -> (r: Result<Parsed, ParseError>)
        ensures
            r == self.filled_from(datetime@),
    {
        let leap = match self.second {
            Some(second) => second == 60,
            None => false,
        };
        let parsed = if leap {
            *self
        } else {
            match self.set_second(datetime.second() as i64) {
                Ok(parsed) => parsed,
                Err(e) => return Err(e),
            }
        };
        let parsed = match parsed.set_year(datetime.year() as i64) {
            Ok(parsed) => parsed,
            Err(e) => return Err(e),
        };
        let parsed = match parsed.set_ordinal(datetime.ordinal() as i64) {
            Ok(parsed) => parsed,
            Err(e) => return Err(e),
        };
        let parsed = match parsed.set_hour(datetime.hour() as i64) {
            Ok(parsed) => parsed,
            Err(e) => return Err(e),
        };
        parsed.set_minute(datetime.minute() as i64)
    }

    /// The date and time that the timestamp field names: see
    /// `datetime_from_timestamp`.
    fn from_timestamp_field(&self, given: i64, offset: i32) -> (r: Result<
        NaiveDateTime,
        ParseError,
    >)
        requires
            self.timestamp == Some(given),
        ensures
            match r {
                Ok(datetime) => self.datetime_from_timestamp(offset as int) == Ok::<
                    DateTimeModel,
                    ParseError,
                >(datetime@),
                Err(e) => self.datetime_from_timestamp(offset as int) == Err::<
                    DateTimeModel,
                    ParseError,
                >(e),
            },
    {
        let timestamp = match given.checked_add(offset as i64) {
            Some(timestamp) => timestamp,
            None => return Err(ParseError::OutOfRange),
        };
        let base = match self.base_of_timestamp(timestamp) {
            Ok(base) => base,
            Err(e) => return Err(e),
        };
        let filled = match self.fill_from(&base) {
            Ok(filled) => filled,
            Err(e) => return Err(e),
        };
        let date = match filled.to_naive_date() {
            Ok(date) => date,
            Err(e) => return Err(e),
        };
        let time = match filled.to_naive_time() {
            Ok(time) => time,
            Err(e) => return Err(e),
        };
        Ok(NaiveDateTime::new(date, time))
    }

    /// The date and time that the fields name, under an offset from UTC in
    /// seconds that the timestamp field is held against: see `datetime`.
    pub fn to_naive_datetime_with_offset(&self, offset: i32) -> (r: Result<
        NaiveDateTime,
        ParseError,
    >)
        ensures
            match r {
                Ok(datetime) => self.datetime(offset as int) == Ok::<DateTimeModel, ParseError>(
                    datetime@,
                ),
                Err(e) => self.datetime(offset as int) == Err::<DateTimeModel, ParseError>(e),
            },
    {
        let date = self.to_naive_date();
        let time = self.to_naive_time();
        match (date, time) {
            (Ok(date), Ok(time)) => {
                let datetime = NaiveDateTime::new(date, time);
                if let Some(given) = self.timestamp {
                    let timestamp = datetime.timestamp() - offset as i64;
                    if given != timestamp && !(datetime.nanosecond() >= 1_000_000_000 && given
                        == timestamp + 1) {
                        return Err(ParseError::Impossible);
                    }
                }
                Ok(datetime)
            },
            (date, time) => {
                let given = match self.timestamp {
                    Some(given) => given,
                    None => {
                        return match date {
                            Err(e) => Err(e),
                            Ok(_) => match time {
                                Err(e) => Err(e),
                                Ok(_) => Err(ParseError::NotEnough),
                            },
                        };
                    },
                };
                if is_error(&date, ParseError::OutOfRange) || is_time_error(
                    &time,
                    ParseError::OutOfRange,
                ) {
                    return Err(ParseError::OutOfRange);
                }
                if is_error(&date, ParseError::Impossible) || is_time_error(
                    &time,
                    ParseError::Impossible,
                ) {
                    return Err(ParseError::Impossible);
                }
                self.from_timestamp_field(given, offset)
            },
        }
    }
}

/// A year as an integer.
pub open spec fn int_of(year: Option<i32>) -> Option<int> {
    match year {
        Some(y) => Some(y as int),
        None => None,
    }
}

/// Whether a date could not be made for a given reason.
fn is_error(date: &Result<NaiveDate, ParseError>, error: ParseError) -> (r: bool)
    ensures
        r == (date matches Err(e) && e == error),
{
    match date {
        Err(e) => *e == error,
        Ok(_) => false,
    }
}

/// Whether a time could not be made for a given reason.
fn is_time_error(time: &Result<NaiveTime, ParseError>, error: ParseError) -> (r: bool)
    ensures
        r == (time matches Err(e) && e == error),
{
    match time {
        Err(e) => *e == error,
        Ok(_) => false,
    }
}

/// Whether a field, if given, holds a number.
fn field_ok(given: Option<u32>, actual: u32) -> (r: bool)
    ensures
        r == agrees(given, actual as int),
{
    match given {
        Some(value) => value == actual,
        None => true,
    }
}

/// Whether the hundreds and last two digits of a year, if given, are those
/// of a year.
fn century_ok(div: Option<i32>, rem: Option<i32>, year: i32) -> (r: bool)
    ensures
        r == century_agrees(div, rem, year as int),
{
    if year >= 0 {
        let div_ok = match div {
            Some(q) => q == year / 100,
            None => true,
        };
        let rem_ok = match rem {
            Some(r) => r == year % 100,
            None => true,
        };
        div_ok && rem_ok
    } else {
        div.is_none() && rem.is_none()
    }
}

/// The day that a year, a week counted from the first Sunday or Monday of
/// the year, and a day of the week name.
fn week_date(year: i32, week: u32, from_sunday: bool, weekday: Weekday) -> (r: Result<
    NaiveDate,
    ParseError,
>)
    ensures
        match r {
            Ok(date) => week_day(
                year as int,
                week as int,
                first_offset(year as int, from_sunday),
                day_offset(weekday, from_sunday),
            ) == Ok::<int, ParseError>(date@),
            Err(e) => week_day(
                year as int,
                week as int,
                first_offset(year as int, from_sunday),
                day_offset(weekday, from_sunday),
            ) == Err::<int, ParseError>(e),
        },
{
    let newyear = match NaiveDate::from_yo_opt(year, 1) {
        Some(date) => date,
        None => return Err(ParseError::OutOfRange),
    };
    if week > 53 {
        return Err(ParseError::OutOfRange);
    }
    let start = newyear.weekday();
    let (first, offset): (u32, u32) = if from_sunday {
        ((7 - start.num_days_from_sunday()) % 7, weekday.num_days_from_sunday())
    } else {
        ((7 - start.num_days_from_monday()) % 7, weekday.num_days_from_monday())
    };
    let ndays: i64 = first as i64 + (week as i64 - 1) * 7 + offset as i64;
    let date = match newyear.checked_add_days(ndays) {
        Some(date) => date,
        None => return Err(ParseError::OutOfRange),
    };
    if date.year() != year {
        return Err(ParseError::OutOfRange);
    }
    Ok(date)
}

/// The number of days from January 1 of a year to the start of its week 1,
/// where weeks start on Sunday or on Monday.
pub open spec fn first_offset(year: int, from_sunday: bool) -> int {
    if from_sunday {
        (7 - days_from_sunday(days_from_yo(year, 1))) % 7
    } else {
        (7 - weekday_index(days_from_yo(year, 1))) % 7
    }
}

/// The number of days from the start of a week to a day of the week, where
/// weeks start on Sunday or on Monday.
pub open spec fn day_offset(weekday: Weekday, from_sunday: bool) -> int {
    if from_sunday {
        (weekday.index() + 1) % 7
    } else {
        weekday.index()
    }
}

} // verus!
