//! A calendar date in the proleptic Gregorian calendar.
//!
//! The mathematical model of a [`NaiveDate`] is its day number: an integer
//! that grows by one from each day to the next, with 1 for January 1 of
//! year 1. The fields of a date are the functions of that number which
//! [`crate::calendar`] defines.

use vstd::prelude::*;
use crate::calendar::{
    day_of_days, days_before_year, days_from_isoywd, days_from_yo, days_from_ymd, days_in_year,
    iso_week_of_days, iso_year_of_days, lemma_days_before_year_monotonic, valid_isoywd,
    leap_year, lemma_valid_days_valid_year, lemma_ymd_round_trip, lemma_yo_round_trip,
    month_day_of_ordinal, month_length, month_of_days, month_start, ordinal_of_days, valid_days,
    valid_year, valid_ymd, valid_yo, weekday_index, weekday_index_of_days, year_length,
    year_of_days, year_ordinal_of_days, year_start, MAX_DAYS, MAX_YEAR, MIN_DAYS, MIN_YEAR,
};
use crate::duration::{nanos_per_day, trunc_div, Duration};

verus! {

/// A day of the week.
#[derive(Clone, Copy, PartialEq, Eq, Structural, Hash, Debug)]
pub enum Weekday {
    /// Monday.
    Mon,
    /// Tuesday.
    Tue,
    /// Wednesday.
    Wed,
    /// Thursday.
    Thu,
    /// Friday.
    Fri,
    /// Saturday.
    Sat,
    /// Sunday.
    Sun,
}

impl Weekday {
    /// The weekday a number of days after Monday. Numbers past 6 stand for
    /// Sunday.
    pub open spec fn from_index(index: int) -> Weekday {
        if index <= 0 {
            Weekday::Mon
        } else if index == 1 {
            Weekday::Tue
        } else if index == 2 {
            Weekday::Wed
        } else if index == 3 {
            Weekday::Thu
        } else if index == 4 {
            Weekday::Fri
        } else if index == 5 {
            Weekday::Sat
        } else {
            Weekday::Sun
        }
    }

    /// The number of days after Monday, as a specification.
    pub open spec fn index(self) -> int {
        match self {
            Weekday::Mon => 0,
            Weekday::Tue => 1,
            Weekday::Wed => 2,
            Weekday::Thu => 3,
            Weekday::Fri => 4,
            Weekday::Sat => 5,
            Weekday::Sun => 6,
        }
    }

    /// The number of days after Monday: 0 for Monday to 6 for Sunday.
    pub fn num_days_from_monday(&self) -> (r: u32)
        ensures
            r == self.index(),
    {
        match self {
            Weekday::Mon => 0,
            Weekday::Tue => 1,
            Weekday::Wed => 2,
            Weekday::Thu => 3,
            Weekday::Fri => 4,
            Weekday::Sat => 5,
            Weekday::Sun => 6,
        }
    }

    /// The number of days after Sunday: 0 for Sunday to 6 for Saturday.
    pub fn num_days_from_sunday(&self) -> (r: u32)
        ensures
            r == (self.index() + 1) % 7,
    {
        match self {
            Weekday::Mon => 1,
            Weekday::Tue => 2,
            Weekday::Wed => 3,
            Weekday::Thu => 4,
            Weekday::Fri => 5,
            Weekday::Sat => 6,
            Weekday::Sun => 0,
        }
    }

    /// The weekday a number of days after Monday, 0 to 6.
    pub fn from_num_days_from_monday(index: u32) -> (r: Weekday)
        requires
            index < 7,
        ensures
            r == Weekday::from_index(index as int),
            r.index() == index,
    {
        if index == 0 {
            Weekday::Mon
        } else if index == 1 {
            Weekday::Tue
        } else if index == 2 {
            Weekday::Wed
        } else if index == 3 {
            Weekday::Thu
        } else if index == 4 {
            Weekday::Fri
        } else if index == 5 {
            Weekday::Sat
        } else {
            Weekday::Sun
        }
    }
}

/// A calendar date without a time zone.
#[derive(Clone, Copy, PartialEq, Eq, Structural, Ord, Hash, Debug)]
pub struct NaiveDate {
    days: i32,
}

impl View for NaiveDate {
    type V = int;

    /// The day number.
    closed spec fn view(&self) -> int {
        self.days as int
    }
}

impl NaiveDate {
    /// Well-formedness: the day number lies in the supported range.
    #[verifier::type_invariant]
    pub open spec fn wf(self) -> bool {
        valid_days(self@)
    }

    /// Two dates with the same day number are the same value.
    pub proof fn lemma_view_injective(a: NaiveDate, b: NaiveDate)
        requires
            a@ == b@,
        ensures
            a == b,
    {
    }

    /// The date with a given day number.
    pub closed spec fn from_model(days: int) -> NaiveDate {
        NaiveDate { days: days as i32 }
    }

    /// `from_model` builds the date that has the day number.
    pub proof fn lemma_from_model(days: int)
        requires
            valid_days(days),
        ensures
            NaiveDate::from_model(days)@ == days,
            NaiveDate::from_model(days).wf(),
    {
    }

    /// The earliest supported date: January 1 of [`MIN_YEAR`].
    pub fn min_value() -> (r: NaiveDate)
        ensures
            r@ == MIN_DAYS,
            r@ == days_from_ymd(MIN_YEAR as int, 1, 1),
    {
        NaiveDate { days: MIN_DAYS }
    }

    /// The latest supported date: December 31 of [`MAX_YEAR`].
    pub fn max_value() -> (r: NaiveDate)
        ensures
            r@ == MAX_DAYS,
            r@ == days_from_ymd(MAX_YEAR as int, 12, 31),
    {
        NaiveDate { days: MAX_DAYS }
    }

    /// The date with a given day number, or `None` when it is out of range.
    pub fn from_num_days_from_ce_opt(days: i32) -> (r: Option<NaiveDate>)
        ensures
            r is Some <==> valid_days(days as int),
            r matches Some(d) ==> d@ == days,
    {
        if days < MIN_DAYS || days > MAX_DAYS {
            return None;
        }
        Some(NaiveDate { days })
    }

    /// The date with a given day number, which must be in range.
    pub fn from_num_days_from_ce(days: i32) -> (r: NaiveDate)
        requires
            valid_days(days as int),
        ensures
            r@ == days,
    {
        NaiveDate { days }
    }

    /// The date of a day of a year, or `None` when there is no such day or
    /// the year is out of range.
    pub fn from_yo_opt(year: i32, ordinal: u32) -> (r: Option<NaiveDate>)
        ensures
            r is Some <==> valid_yo(year as int, ordinal as int),
            r matches Some(d) ==> {
                &&& d@ == days_from_yo(year as int, ordinal as int)
                &&& year_of_days(d@) == year
                &&& ordinal_of_days(d@) == ordinal
            },
    {
        if year < MIN_YEAR || year > MAX_YEAR || ordinal < 1 || ordinal > year_length(year) {
            return None;
        }
        let days: i64 = year_start(year) + ordinal as i64;
        proof {
            lemma_yo_round_trip(year as int, ordinal as int);
            lemma_valid_days_valid_year(days as int);
        }
        Some(NaiveDate { days: days as i32 })
    }

    /// The date of a day of a year, which must exist and be in range.
    pub fn from_yo(year: i32, ordinal: u32) -> (r: NaiveDate)
        requires
            valid_yo(year as int, ordinal as int),
        ensures
            r@ == days_from_yo(year as int, ordinal as int),
            year_of_days(r@) == year,
            ordinal_of_days(r@) == ordinal,
    {
        match NaiveDate::from_yo_opt(year, ordinal) {
            Some(d) => d,
            None => vstd::pervasive::unreached(),
        }
    }

    /// The date of a day of a month of a year, or `None` when there is no
    /// such day or the year is out of range.
    pub fn from_ymd_opt(year: i32, month: u32, day: u32) -> (r: Option<NaiveDate>)
        ensures
            r is Some <==> valid_ymd(year as int, month as int, day as int),
            r matches Some(d) ==> {
                &&& d@ == days_from_ymd(year as int, month as int, day as int)
                &&& year_of_days(d@) == year
                &&& month_of_days(d@) == month
                &&& day_of_days(d@) == day
            },
    {
        if year < MIN_YEAR || year > MAX_YEAR || month < 1 || month > 12 || day < 1 {
            return None;
        }
        let leap = leap_year(year);
        if day > month_length(leap, month) {
            return None;
        }
        let days: i64 = year_start(year) + month_start(leap, month) as i64 + day as i64;
        proof {
            lemma_ymd_round_trip(year as int, month as int, day as int);
            lemma_valid_days_valid_year(days as int);
        }
        Some(NaiveDate { days: days as i32 })
    }

    /// The date of a day of a month of a year, which must exist and be in
    /// range.
    pub fn from_ymd(year: i32, month: u32, day: u32) -> (r: NaiveDate)
        requires
            valid_ymd(year as int, month as int, day as int),
        ensures
            r@ == days_from_ymd(year as int, month as int, day as int),
            year_of_days(r@) == year,
            month_of_days(r@) == month,
            day_of_days(r@) == day,
    {
        match NaiveDate::from_ymd_opt(year, month, day) {
            Some(d) => d,
            None => vstd::pervasive::unreached(),
        }
    }

    /// The date of a day of an ISO 8601 week of a week-numbering year, or
    /// `None` when the year has no such week or the date is out of range.
    /// The week is counted from 1.
    pub fn from_isoywd_opt(year: i32, week: u32, weekday: Weekday) -> (r: Option<NaiveDate>)
        ensures
            r is Some <==> valid_isoywd(year as int, week as int, weekday.index()),
            r matches Some(d) ==> d@ == days_from_isoywd(year as int, week as int, weekday.index()),
    {
        if week < 1 || week > 53 {
            return None;
        }
        if year < MIN_YEAR - 1 || year > MAX_YEAR + 1 {
            proof {
                if year < MIN_YEAR - 1 {
                    lemma_days_before_year_monotonic(year + 1, MIN_YEAR - 1);
                } else {
                    lemma_days_before_year_monotonic(MAX_YEAR + 2, year as int);
                }
                assert(days_before_year(MIN_YEAR - 1) + 365 == MIN_DAYS - 1);
                assert(days_before_year(MAX_YEAR + 2) == MAX_DAYS + 366);
                crate::calendar::lemma_days_before_next_year(year as int);
            }
            return None;
        }
        let jan4: i64 = year_start(year) + 4;
        let index: i64 = weekday_index_of_days(jan4 as i32) as i64;
        let offset: i64 = weekday.num_days_from_monday() as i64;
        let days: i64 = jan4 - index + (week as i64 - 1) * 7 + offset;
        if days < MIN_DAYS as i64 || days > MAX_DAYS as i64 {
            return None;
        }
        let date = NaiveDate { days: days as i32 };
        if date.isoweekdate().0 != year {
            return None;
        }
        Some(date)
    }

    /// The day number: 1 for January 1 of year 1.
    pub fn num_days_from_ce(&self) -> (r: i32)
        ensures
            r == self@,
            valid_days(r as int),
    {
        proof {
            use_type_invariant(self);
        }
        self.days
    }

    /// The year.
    pub fn year(&self) -> (r: i32)
        ensures
            r == year_of_days(self@),
            valid_year(r as int),
    {
        proof {
            use_type_invariant(self);
            lemma_valid_days_valid_year(self@);
        }
        year_ordinal_of_days(self.days).0
    }

    /// The day of the year, counted from 1.
    pub fn ordinal(&self) -> (r: u32)
        ensures
            r == ordinal_of_days(self@),
            1 <= r <= days_in_year(year_of_days(self@)),
    {
        year_ordinal_of_days(self.days).1
    }

    /// The day of the year, counted from 0.
    pub fn ordinal0(&self) -> (r: u32)
        ensures
            r == ordinal_of_days(self@) - 1,
    {
        self.ordinal() - 1
    }

    /// The year, the month and the day of the month, the last two counted
    /// from 1.
    pub fn ymd(&self) -> (r: (i32, u32, u32))
        ensures
            r.0 == year_of_days(self@),
            r.1 == month_of_days(self@),
            r.2 == day_of_days(self@),
            valid_ymd(r.0 as int, r.1 as int, r.2 as int),
            days_from_ymd(r.0 as int, r.1 as int, r.2 as int) == self@,
    {
        proof {
            use_type_invariant(self);
            lemma_valid_days_valid_year(self@);
        }
        let (year, ordinal) = year_ordinal_of_days(self.days);
        let (month, day) = month_day_of_ordinal(leap_year(year), ordinal);
        (year, month, day)
    }

    /// The month, counted from 1.
    pub fn month(&self) -> (r: u32)
        ensures
            r == month_of_days(self@),
            1 <= r <= 12,
    {
        self.ymd().1
    }

    /// The month, counted from 0.
    pub fn month0(&self) -> (r: u32)
        ensures
            r == month_of_days(self@) - 1,
            r <= 11,
    {
        self.ymd().1 - 1
    }

    /// The day of the month, counted from 1.
    pub fn day(&self) -> (r: u32)
        ensures
            r == day_of_days(self@),
            1 <= r <= 31,
    {
        self.ymd().2
    }

    /// The day of the month, counted from 0.
    pub fn day0(&self) -> (r: u32)
        ensures
            r == day_of_days(self@) - 1,
            r <= 30,
    {
        self.ymd().2 - 1
    }

    /// The day of the week.
    pub fn weekday(&self) -> (r: Weekday)
        ensures
            r == Weekday::from_index(weekday_index(self@)),
    {
        Weekday::from_num_days_from_monday(weekday_index_of_days(self.days))
    }

    /// The ISO 8601 week date: the week-numbering year, the week counted
    /// from 1, and the day of the week.
    pub fn isoweekdate(&self) -> (r: (i32, u32, Weekday))
        ensures
            r.0 == iso_year_of_days(self@),
            r.1 == iso_week_of_days(self@),
            r.2 == Weekday::from_index(weekday_index(self@)),
            1 <= r.1 <= 53,
    {
        proof {
            use_type_invariant(self);
        }
        let index = weekday_index_of_days(self.days);
        let thursday: i32 = self.days - index as i32 + 3;
        let (year, ordinal) = year_ordinal_of_days(thursday);
        (year, (ordinal - 1) / 7 + 1, Weekday::from_num_days_from_monday(index))
    }

    /// The same day of the same month in another year, or `None` when that
    /// year has no such day or is out of range.
    pub fn with_year(&self, year: i32) -> (r: Option<NaiveDate>)
        ensures
            r is Some <==> valid_ymd(year as int, month_of_days(self@), day_of_days(self@)),
            r matches Some(d) ==> d@ == days_from_ymd(
                year as int,
                month_of_days(self@),
                day_of_days(self@),
            ),
    {
        let (_, month, day) = self.ymd();
        NaiveDate::from_ymd_opt(year, month, day)
    }

    /// The same day of another month of the same year, counted from 1, or
    /// `None` when that month has no such day.
    pub fn with_month(&self, month: u32) -> (r: Option<NaiveDate>)
        ensures
            r is Some <==> valid_ymd(year_of_days(self@), month as int, day_of_days(self@)),
            r matches Some(d) ==> d@ == days_from_ymd(
                year_of_days(self@),
                month as int,
                day_of_days(self@),
            ),
    {
        let (year, _, day) = self.ymd();
        NaiveDate::from_ymd_opt(year, month, day)
    }

    /// The same day of another month of the same year, counted from 0, or
    /// `None` when that month has no such day.
    pub fn with_month0(&self, month0: u32) -> (r: Option<NaiveDate>)
        ensures
            r is Some <==> valid_ymd(year_of_days(self@), month0 + 1, day_of_days(self@)),
            r matches Some(d) ==> d@ == days_from_ymd(
                year_of_days(self@),
                month0 + 1,
                day_of_days(self@),
            ),
    {
        if month0 >= 12 {
            return None;
        }
        self.with_month(month0 + 1)
    }

    /// Another day of the same month, counted from 1, or `None` when the
    /// month has no such day.
    pub fn with_day(&self, day: u32) -> (r: Option<NaiveDate>)
        ensures
            r is Some <==> valid_ymd(year_of_days(self@), month_of_days(self@), day as int),
            r matches Some(d) ==> d@ == days_from_ymd(
                year_of_days(self@),
                month_of_days(self@),
                day as int,
            ),
    {
        let (year, month, _) = self.ymd();
        NaiveDate::from_ymd_opt(year, month, day)
    }

    /// Another day of the same month, counted from 0, or `None` when the
    /// month has no such day.
    pub fn with_day0(&self, day0: u32) -> (r: Option<NaiveDate>)
        ensures
            r is Some <==> valid_ymd(year_of_days(self@), month_of_days(self@), day0 + 1),
            r matches Some(d) ==> d@ == days_from_ymd(
                year_of_days(self@),
                month_of_days(self@),
                day0 + 1,
            ),
    {
        if day0 >= 31 {
            return None;
        }
        self.with_day(day0 + 1)
    }

    /// Another day of the same year, counted from 1, or `None` when the year
    /// has no such day.
    pub fn with_ordinal(&self, ordinal: u32) -> (r: Option<NaiveDate>)
        ensures
            r is Some <==> valid_yo(year_of_days(self@), ordinal as int),
            r matches Some(d) ==> d@ == days_from_yo(year_of_days(self@), ordinal as int),
    {
        NaiveDate::from_yo_opt(self.year(), ordinal)
    }

    /// Another day of the same year, counted from 0, or `None` when the year
    /// has no such day.
    pub fn with_ordinal0(&self, ordinal0: u32) -> (r: Option<NaiveDate>)
        ensures
            r is Some <==> valid_yo(year_of_days(self@), ordinal0 + 1),
            r matches Some(d) ==> d@ == days_from_yo(year_of_days(self@), ordinal0 + 1),
    {
        if ordinal0 >= 366 {
            return None;
        }
        self.with_ordinal(ordinal0 + 1)
    }

    /// The date a signed number of days later, or `None` when it is out of
    /// range.
    pub fn checked_add_days(self, days: i64) -> (r: Option<NaiveDate>)
        ensures
            r is Some <==> valid_days(self@ + days),
            r matches Some(d) ==> d@ == self@ + days,
    {
        proof {
            use_type_invariant(self);
        }
        if days < -200_000_000 || days > 200_000_000 {
            return None;
        }
        let sum: i64 = self.days as i64 + days;
        if sum < MIN_DAYS as i64 || sum > MAX_DAYS as i64 {
            return None;
        }
        Some(NaiveDate { days: sum as i32 })
    }

    /// The date later by the whole days of a duration, or `None` when it is
    /// out of range. What the duration holds beyond whole days is dropped.
    pub fn checked_add_signed(self, rhs: Duration) -> (r: Option<NaiveDate>)
        ensures
            r is Some <==> valid_days(self@ + trunc_div(rhs@, nanos_per_day())),
            r matches Some(d) ==> d@ == self@ + trunc_div(rhs@, nanos_per_day()),
    {
        self.checked_add_days(rhs.num_days())
    }

    /// The date earlier by the whole days of a duration, or `None` when it
    /// is out of range. What the duration holds beyond whole days is dropped.
    pub fn checked_sub_signed(self, rhs: Duration) -> (r: Option<NaiveDate>)
        ensures
            r is Some <==> valid_days(self@ - trunc_div(rhs@, nanos_per_day())),
            r matches Some(d) ==> d@ == self@ - trunc_div(rhs@, nanos_per_day()),
    {
        let days = rhs.num_days();
        proof {
            use_type_invariant(rhs);
        }
        self.checked_add_days(-days)
    }

    /// The duration from another date to this one: a whole number of days.
    pub fn signed_duration_since(self, rhs: NaiveDate) -> (r: Duration)
        ensures
            r@ == (self@ - rhs@) * nanos_per_day(),
    {
        proof {
            use_type_invariant(self);
            use_type_invariant(rhs);
        }
        Duration::days(self.days as i64 - rhs.days as i64)
    }
}

} // verus!
