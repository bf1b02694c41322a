//! The proleptic Gregorian calendar as arithmetic on day numbers.
//!
//! A day is identified by its day number: day 1 is January 1 of year 1, and
//! the numbers run on without gaps in both directions. Everything a calendar
//! says of a day (its year, month, day of month, weekday, ISO week) is a
//! function of that number.

use vstd::prelude::*;
use crate::numeric::floor_div_mod;

verus! {

/// The earliest supported year.
pub const MIN_YEAR: i32 = -262_144;

/// The latest supported year.
pub const MAX_YEAR: i32 = 262_143;

/// The day number of January 1 of [`MIN_YEAR`].
pub const MIN_DAYS: i32 = -95_746_495;

/// The day number of December 31 of [`MAX_YEAR`].
pub const MAX_DAYS: i32 = 95_745_764;

/// The day number of January 1, 1970, the day on which epoch timestamps
/// start counting.
pub const UNIX_EPOCH_DAYS: i32 = 719_163;

/// Whether a year has a February 29.
pub open spec fn is_leap_year(year: int) -> bool {
    year % 4 == 0 && (year % 100 != 0 || year % 400 == 0)
}

/// The number of days in a year.
pub open spec fn days_in_year(year: int) -> int {
    if is_leap_year(year) {
        366
    } else {
        365
    }
}

/// The day number of the last day before January 1 of a year.
pub open spec fn days_before_year(year: int) -> int {
    365 * (year - 1) + (year - 1) / 4 - (year - 1) / 100 + (year - 1) / 400
}

/// The number of days of a year that lie before the first day of a month.
/// Month 13 stands for the end of the year.
pub open spec fn days_before_month(leap: bool, month: int) -> int {
    let extra: int = if leap && month > 2 {
        1
    } else {
        0
    };
    if month <= 1 {
        0
    } else if month == 2 {
        31
    } else if month == 3 {
        59 + extra
    } else if month == 4 {
        90 + extra
    } else if month == 5 {
        120 + extra
    } else if month == 6 {
        151 + extra
    } else if month == 7 {
        181 + extra
    } else if month == 8 {
        212 + extra
    } else if month == 9 {
        243 + extra
    } else if month == 10 {
        273 + extra
    } else if month == 11 {
        304 + extra
    } else if month == 12 {
        334 + extra
    } else {
        365 + extra
    }
}

/// The number of days in a month.
pub open spec fn days_in_month(leap: bool, month: int) -> int {
    days_before_month(leap, month + 1) - days_before_month(leap, month)
}

/// The month in which a day of the year falls.
pub open spec fn month_of_ordinal(leap: bool, ordinal: int) -> int {
    if ordinal <= days_before_month(leap, 2) {
        1
    } else if ordinal <= days_before_month(leap, 3) {
        2
    } else if ordinal <= days_before_month(leap, 4) {
        3
    } else if ordinal <= days_before_month(leap, 5) {
        4
    } else if ordinal <= days_before_month(leap, 6) {
        5
    } else if ordinal <= days_before_month(leap, 7) {
        6
    } else if ordinal <= days_before_month(leap, 8) {
        7
    } else if ordinal <= days_before_month(leap, 9) {
        8
    } else if ordinal <= days_before_month(leap, 10) {
        9
    } else if ordinal <= days_before_month(leap, 11) {
        10
    } else if ordinal <= days_before_month(leap, 12) {
        11
    } else {
        12
    }
}

/// Whether a year lies in the supported range.
pub open spec fn valid_year(year: int) -> bool {
    MIN_YEAR <= year <= MAX_YEAR
}

/// Whether a year and a day of the year name a supported date.
pub open spec fn valid_yo(year: int, ordinal: int) -> bool {
    valid_year(year) && 1 <= ordinal <= days_in_year(year)
}

/// Whether a year, a month and a day of the month name a supported date.
pub open spec fn valid_ymd(year: int, month: int, day: int) -> bool {
    valid_year(year) && 1 <= month <= 12 && 1 <= day <= days_in_month(is_leap_year(year), month)
}

/// The day number of a day of a year.
pub open spec fn days_from_yo(year: int, ordinal: int) -> int {
    days_before_year(year) + ordinal
}

/// The day number of a day of a month of a year.
pub open spec fn days_from_ymd(year: int, month: int, day: int) -> int {
    days_before_year(year) + days_before_month(is_leap_year(year), month) + day
}

/// Whether a day number lies in the supported range.
pub open spec fn valid_days(days: int) -> bool {
    MIN_DAYS <= days <= MAX_DAYS
}

/// Whether a day number falls in a year.
pub open spec fn in_year(days: int, year: int) -> bool {
    days_before_year(year) < days <= days_before_year(year + 1)
}

/// The year in which a day number falls.
pub open spec fn year_of_days(days: int) -> int {
    choose|year: int| in_year(days, year)
}

/// The day of the year of a day number, counted from 1.
pub open spec fn ordinal_of_days(days: int) -> int {
    days - days_before_year(year_of_days(days))
}

/// The month of a day number, counted from 1.
pub open spec fn month_of_days(days: int) -> int {
    month_of_ordinal(is_leap_year(year_of_days(days)), ordinal_of_days(days))
}

/// The day of the month of a day number, counted from 1.
pub open spec fn day_of_days(days: int) -> int {
    ordinal_of_days(days) - days_before_month(
        is_leap_year(year_of_days(days)),
        month_of_days(days),
    )
}

/// The weekday of a day number, counted from 0 for Monday to 6 for Sunday.
pub open spec fn weekday_index(days: int) -> int {
    (days - 1) % 7
}

/// The day number of the Thursday of the week, Monday to Sunday, in which a
/// day number falls.
pub open spec fn week_thursday(days: int) -> int {
    days - weekday_index(days) + 3
}

/// The ISO 8601 week-numbering year of a day number: the year of the
/// Thursday of its week.
pub open spec fn iso_year_of_days(days: int) -> int {
    year_of_days(week_thursday(days))
}

/// The ISO 8601 week of a day number, counted from 1: week 1 is the week
/// that holds the first Thursday of the year.
pub open spec fn iso_week_of_days(days: int) -> int {
    (ordinal_of_days(week_thursday(days)) - 1) / 7 + 1
}

/// The day number of a day of an ISO 8601 week of a week-numbering year. The
/// week is counted from 1, the day from 0 for Monday. Week 1 is the week in
/// which January 4 falls.
pub open spec fn days_from_isoywd(year: int, week: int, weekday: int) -> int {
    let jan4 = days_from_ymd(year, 1, 4);
    jan4 - weekday_index(jan4) + (week - 1) * 7 + weekday
}

/// Whether a week-numbering year, a week and a day of the week name a
/// supported date: the week-numbering year has such a week, and the day
/// lies in the supported range.
pub open spec fn valid_isoywd(year: int, week: int, weekday: int) -> bool {
    &&& 1 <= week <= 53
    &&& 0 <= weekday <= 6
    &&& iso_year_of_days(days_from_isoywd(year, week, weekday)) == year
    &&& valid_days(days_from_isoywd(year, week, weekday))
}

/// The constants of the calendar are the day numbers they are named for.
pub proof fn lemma_calendar_constants()
    ensures
        UNIX_EPOCH_DAYS == days_from_ymd(1970, 1, 1),
        MIN_DAYS == days_from_ymd(MIN_YEAR as int, 1, 1),
        MAX_DAYS == days_from_ymd(MAX_YEAR as int, 12, 31),
{
}

/// Each year starts where the year before it ends.
pub proof fn lemma_days_before_next_year(year: int)
    ensures
        days_before_year(year + 1) == days_before_year(year) + days_in_year(year),
{
}

/// Later years start later.
pub proof fn lemma_days_before_year_monotonic(a: int, b: int)
    requires
        a <= b,
    ensures
        days_before_year(a) <= days_before_year(b),
        a < b ==> days_before_year(a) + 365 <= days_before_year(b),
    decreases b - a,
{
    if a < b {
        lemma_days_before_year_monotonic(a, b - 1);
        lemma_days_before_next_year(b - 1);
    }
}

/// A day number falls in one year only.
pub proof fn lemma_year_unique(days: int, year: int)
    requires
        in_year(days, year),
    ensures
        year_of_days(days) == year,
{
    let y = year_of_days(days);
    assert(in_year(days, y));
    if y < year {
        lemma_days_before_year_monotonic(y + 1, year);
    } else if y > year {
        lemma_days_before_year_monotonic(year + 1, y);
    }
}

/// A day of a year has the year and the day of the year it was made from.
pub proof fn lemma_yo_round_trip(year: int, ordinal: int)
    requires
        1 <= ordinal <= days_in_year(year),
    ensures
        year_of_days(days_from_yo(year, ordinal)) == year,
        ordinal_of_days(days_from_yo(year, ordinal)) == ordinal,
{
    lemma_days_before_next_year(year);
    lemma_year_unique(days_from_yo(year, ordinal), year);
}

/// The month of a day of the year, and the day within it, lie in range and
/// give the day of the year back.
pub proof fn lemma_month_of_ordinal(leap: bool, ordinal: int)
    requires
        1 <= ordinal <= (if leap { 366int } else { 365int }),
    ensures
        1 <= month_of_ordinal(leap, ordinal) <= 12,
        1 <= ordinal - days_before_month(leap, month_of_ordinal(leap, ordinal)) <= days_in_month(
            leap,
            month_of_ordinal(leap, ordinal),
        ),
{
}

/// A day of a month falls in that month.
pub proof fn lemma_ordinal_of_month_day(leap: bool, month: int, day: int)
    requires
        1 <= month <= 12,
        1 <= day <= days_in_month(leap, month),
    ensures
        1 <= days_before_month(leap, month) + day <= (if leap { 366int } else { 365int }),
        month_of_ordinal(leap, days_before_month(leap, month) + day) == month,
{
}

/// A day of a month of a year has the year, the month and the day it was
/// made from.
pub proof fn lemma_ymd_round_trip(year: int, month: int, day: int)
    requires
        1 <= month <= 12,
        1 <= day <= days_in_month(is_leap_year(year), month),
    ensures
        year_of_days(days_from_ymd(year, month, day)) == year,
        month_of_days(days_from_ymd(year, month, day)) == month,
        day_of_days(days_from_ymd(year, month, day)) == day,
{
    let leap = is_leap_year(year);
    lemma_ordinal_of_month_day(leap, month, day);
    lemma_yo_round_trip(year, days_before_month(leap, month) + day);
}

/// The supported day numbers are those of the supported years.
pub proof fn lemma_valid_days_valid_year(days: int)
    ensures
        valid_days(days) <==> valid_year(year_of_days(days)) && in_year(days, year_of_days(days)),
        in_year(days, year_of_days(days)),
{
    lemma_year_exists(days);
    let y = year_of_days(days);
    assert(in_year(days, y));
    assert(days_before_year(MIN_YEAR as int) + 1 == MIN_DAYS);
    assert(days_before_year(MAX_YEAR + 1) == MAX_DAYS);
    if y < MIN_YEAR {
        lemma_days_before_year_monotonic(y + 1, MIN_YEAR as int);
    } else {
        lemma_days_before_year_monotonic(MIN_YEAR as int, y);
    }
    if y > MAX_YEAR {
        lemma_days_before_year_monotonic(MAX_YEAR + 1, y);
    } else {
        lemma_days_before_year_monotonic(y + 1, MAX_YEAR + 1);
    }
}

/// The year, month and day of a supported day number name a supported date,
/// and that date is the day number.
pub proof fn lemma_fields_of_days(days: int)
    requires
        valid_days(days),
    ensures
        valid_ymd(year_of_days(days), month_of_days(days), day_of_days(days)),
        valid_yo(year_of_days(days), ordinal_of_days(days)),
        days_from_ymd(year_of_days(days), month_of_days(days), day_of_days(days)) == days,
        days_from_yo(year_of_days(days), ordinal_of_days(days)) == days,
{
    lemma_valid_days_valid_year(days);
    let year = year_of_days(days);
    lemma_days_before_next_year(year);
    lemma_month_of_ordinal(is_leap_year(year), ordinal_of_days(days));
}

/// The parts into which the four-hundred-year cycle splits a day number.
pub open spec fn cycle_year(q400: int, q100: int, q4: int, q1: int) -> int {
    400 * q400 + 100 * q100 + 4 * q4 + q1 + 1
}

/// The year that the cycle counts name starts after the days that the counts
/// stand for.
pub proof fn lemma_cycle_year(q400: int, q100: int, q4: int, q1: int)
    requires
        0 <= q100 <= 3,
        0 <= q4 <= 24,
        0 <= q1 <= 3,
    ensures
        days_before_year(cycle_year(q400, q100, q4, q1)) == 146_097 * q400 + 36_524 * q100 + 1_461
            * q4 + 365 * q1,
        is_leap_year(cycle_year(q400, q100, q4, q1)) <==> q1 == 3 && (q4 != 24 || q100 == 3),
{
    let y1 = 400 * q400 + 100 * q100 + 4 * q4 + q1;
    assert(y1 / 4 == 100 * q400 + 25 * q100 + q4);
    assert(y1 / 100 == 4 * q400 + q100);
    assert(y1 / 400 == q400);
    assert((y1 + 1) % 4 == 0 <==> q1 == 3);
    assert((y1 + 1) % 100 == 0 <==> q1 == 3 && q4 == 24);
    assert((y1 + 1) % 400 == 0 <==> q1 == 3 && q4 == 24 && q100 == 3);
}

/// Every day number falls in some year.
pub proof fn lemma_year_exists(days: int)
    ensures
        in_year(days, year_of_days(days)),
{
    let n0 = days - 1;
    let q400 = n0 / 146_097;
    let r = n0 % 146_097;
    let q100 = if r / 36_524 == 4 {
        3
    } else {
        r / 36_524
    };
    let r1 = r - q100 * 36_524;
    let q4 = r1 / 1_461;
    let r2 = r1 - q4 * 1_461;
    let q1 = if r2 / 365 == 4 {
        3
    } else {
        r2 / 365
    };
    let r3 = r2 - q1 * 365;
    lemma_cycle_year(q400, q100, q4, q1);
    let year = cycle_year(q400, q100, q4, q1);
    lemma_days_before_next_year(year);
    assert(in_year(days, year));
}

/// Whether a year has a February 29.
pub fn leap_year(year: i32) -> (r: bool)
    ensures
        r == is_leap_year(year as int),
{
    year % 4 == 0 && (year % 100 != 0 || year % 400 == 0)
}

/// The number of days in a year.
pub fn year_length(year: i32) -> (r: u32)
    ensures
        r == days_in_year(year as int),
{
    if leap_year(year) {
        366
    } else {
        365
    }
}

/// The number of days of a year that lie before the first day of a month.
pub fn month_start(leap: bool, month: u32) -> (r: u32)
    requires
        1 <= month <= 13,
    ensures
        r == days_before_month(leap, month as int),
{
    let extra: u32 = if leap && month > 2 {
        1
    } else {
        0
    };
    if month == 1 {
        0
    } else if month == 2 {
        31
    } else if month == 3 {
        59 + extra
    } else if month == 4 {
        90 + extra
    } else if month == 5 {
        120 + extra
    } else if month == 6 {
        151 + extra
    } else if month == 7 {
        181 + extra
    } else if month == 8 {
        212 + extra
    } else if month == 9 {
        243 + extra
    } else if month == 10 {
        273 + extra
    } else if month == 11 {
        304 + extra
    } else if month == 12 {
        334 + extra
    } else {
        365 + extra
    }
}

/// The number of days in a month.
pub fn month_length(leap: bool, month: u32) -> (r: u32)
    requires
        1 <= month <= 12,
    ensures
        r == days_in_month(leap, month as int),
        28 <= r <= 31,
{
    month_start(leap, month + 1) - month_start(leap, month)
}

/// The month in which a day of the year falls, and the day within that month.
pub fn month_day_of_ordinal(leap: bool, ordinal: u32) -> (r: (u32, u32))
    requires
        1 <= ordinal <= (if leap { 366int } else { 365int }),
    ensures
        r.0 == month_of_ordinal(leap, ordinal as int),
        r.1 == ordinal - days_before_month(leap, r.0 as int),
        1 <= r.0 <= 12,
        1 <= r.1 <= days_in_month(leap, r.0 as int),
{
    let mut month: u32 = 1;
    while month < 12 && ordinal > month_start(leap, month + 1)
        invariant
            1 <= month <= 12,
            1 <= ordinal <= (if leap { 366int } else { 365int }),
            days_before_month(leap, month as int) < ordinal,
        decreases 12 - month,
    {
        month = month + 1;
    }
    (month, ordinal - month_start(leap, month))
}

/// The day number of the last day before January 1 of a year.
pub fn year_start(year: i32) -> (r: i64)
    requires
        -6_000_000 <= year <= 6_000_000,
    ensures
        r == days_before_year(year as int),
{
    let y: i64 = year as i64 - 1;
    let (q4, _) = floor_div_mod(y, 4);
    let (q100, _) = floor_div_mod(y, 100);
    let (q400, _) = floor_div_mod(y, 400);
    365 * y + q4 - q100 + q400
}

/// The year in which a day number falls, and its day of the year.
pub fn year_ordinal_of_days(days: i32) -> (r: (i32, u32))
    ensures
        r.0 == year_of_days(days as int),
        r.1 == ordinal_of_days(days as int),
        in_year(days as int, r.0 as int),
        1 <= r.1 <= days_in_year(r.0 as int),
        -5_900_000 <= r.0 <= 5_900_000,
{
    let n0: i64 = days as i64 - 1;
    let (q400, r) = floor_div_mod(n0, 146_097);
    let mut q100: i64 = r / 36_524;
    if q100 == 4 {
        q100 = 3;
    }
    let r1: i64 = r - q100 * 36_524;
    let q4: i64 = r1 / 1_461;
    let r2: i64 = r1 - q4 * 1_461;
    let mut q1: i64 = r2 / 365;
    if q1 == 4 {
        q1 = 3;
    }
    let r3: i64 = r2 - q1 * 365;
    let year: i64 = 400 * q400 + 100 * q100 + 4 * q4 + q1 + 1;
    proof {
        lemma_cycle_year(q400 as int, q100 as int, q4 as int, q1 as int);
        lemma_days_before_next_year(year as int);
        lemma_year_unique(days as int, year as int);
    }
    (year as i32, (r3 + 1) as u32)
}

/// The weekday of a day number, counted from 0 for Monday to 6 for Sunday.
pub fn weekday_index_of_days(days: i32) -> (r: u32)
    ensures
        r == weekday_index(days as int),
        r < 7,
{
    let (_, m) = floor_div_mod(days as i64 - 1, 7);
    m as u32
}

} // verus!
