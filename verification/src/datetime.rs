//! A calendar date and a time of day taken together.
//!
//! The mathematical model of a [`NaiveDateTime`] is a [`DateTimeModel`]: the
//! day number of its date and the model of its time of day. Timestamps and
//! arithmetic with durations are integer arithmetic on that model.

use vstd::prelude::*;
use vstd::std_specs::ops::{AddSpecImpl, SubSpecImpl};
use crate::calendar::{
    day_of_days, days_from_yo, days_from_ymd, iso_week_of_days, iso_year_of_days, month_of_days,
    ordinal_of_days, valid_days, valid_ymd, valid_yo, weekday_index, year_of_days,
    UNIX_EPOCH_DAYS,
};
use crate::date::{NaiveDate, Weekday};
use crate::duration::{nanos_per_day, Duration};
use crate::numeric::{div_mod_floor, i64_to_i32};
use crate::time::{NaiveTime, TimeModel};

verus! {

/// The number of bits that hold every count of seconds by which a date can
/// move: a carry of `2^MAX_SECS_BITS` seconds or more takes any date out of
/// the supported range. Carries are held against this bound before they are
/// turned into a duration, which cannot hold every `i64` count of seconds.
pub const MAX_SECS_BITS: u32 = 44;

/// The bound that [`MAX_SECS_BITS`] stands for: `2^44` seconds.
pub const MAX_SECS: i64 = 17_592_186_044_416;

/// The mathematical model of a date and time.
pub struct DateTimeModel {
    /// The day number of the date.
    pub date: int,
    /// The time of day.
    pub time: TimeModel,
}

impl DateTimeModel {
    /// Whether the model is that of a supported date and time.
    pub open spec fn wf(self) -> bool {
        valid_days(self.date) && self.time.wf()
    }

    /// The whole seconds since midnight of January 1, 1970, not counting
    /// leap seconds.
    pub open spec fn timestamp(self) -> int {
        (self.date - UNIX_EPOCH_DAYS) * 86_400 + self.time.secs
    }

    /// The date and time a number of seconds after midnight of January 1,
    /// 1970, with a nanosecond part that may name a leap second. `None` when
    /// the day is out of range or the nanosecond part is two billion or
    /// more.
    pub open spec fn from_timestamp(secs: int, nsecs: int) -> Option<DateTimeModel> {
        let date = secs / 86_400 + UNIX_EPOCH_DAYS;
        if valid_days(date) && 0 <= nsecs < 2_000_000_000 {
            Some(DateTimeModel { date, time: TimeModel { secs: secs % 86_400, frac: nsecs } })
        } else {
            None
        }
    }

    /// The date and time a signed number of nanoseconds later, or `None`
    /// when the date would leave the supported range.
    pub open spec fn checked_add(self, nanos: int) -> Option<DateTimeModel> {
        let (time, carry) = self.time.add(nanos);
        let date = self.date + carry / 86_400;
        if valid_days(date) {
            Some(DateTimeModel { date, time })
        } else {
            None
        }
    }

    /// The date and time a signed number of nanoseconds earlier, or `None`
    /// when the date would leave the supported range.
    pub open spec fn checked_sub(self, nanos: int) -> Option<DateTimeModel> {
        let (time, carry) = self.time.sub(nanos);
        let date = self.date - carry / 86_400;
        if valid_days(date) {
            Some(DateTimeModel { date, time })
        } else {
            None
        }
    }

    /// The nanoseconds from another date and time to this one. Of leap
    /// seconds only those count in which one of the two lies.
    pub open spec fn since(self, other: DateTimeModel) -> int {
        (self.date - other.date) * nanos_per_day() + self.time.since(other.time)
    }
}

/// The bound on carries is the power of two that the number of bits names.
pub proof fn lemma_max_secs()
    ensures
        MAX_SECS == 1i64 << MAX_SECS_BITS,
{
    assert(MAX_SECS == 1i64 << MAX_SECS_BITS) by (bit_vector);
}

/// The seconds from the first to the last supported day stay below the
/// bound on carries: two supported dates are never that far apart.
pub proof fn lemma_span_below_max_secs(a: int, b: int)
    requires
        valid_days(a),
        valid_days(b),
    ensures
        -MAX_SECS < (a - b) * 86_400 < MAX_SECS,
{
}

/// A carry of `2^44` seconds or more in either direction takes every
/// supported date out of the supported range, so that turning such a carry
/// away before adding it loses nothing.
pub proof fn lemma_carry_bound(date: int, carry: int)
    requires
        valid_days(date),
        carry <= -MAX_SECS || carry >= MAX_SECS,
    ensures
        !valid_days(date + carry / 86_400),
{
}

/// A date and time without a time zone.
#[derive(Clone, Copy, PartialEq, Eq, Structural, Ord, Hash, Debug)]
pub struct NaiveDateTime {
    date: NaiveDate,
    time: NaiveTime,
}

impl View for NaiveDateTime {
    type V = DateTimeModel;

    closed spec fn view(&self) -> DateTimeModel {
        DateTimeModel { date: self.date@, time: self.time@ }
    }
}

impl NaiveDateTime {
    /// Well-formedness: the model is that of a supported date and time.
    pub open spec fn wf(self) -> bool {
        self@.wf()
    }

    /// The date and time of a model.
    pub closed spec fn from_model(model: DateTimeModel) -> NaiveDateTime {
        NaiveDateTime {
            date: NaiveDate::from_model(model.date),
            time: NaiveTime::from_model(model.time),
        }
    }

    /// `from_model` builds the value that has the model.
    pub proof fn lemma_from_model(model: DateTimeModel)
        requires
            model.wf(),
        ensures
            NaiveDateTime::from_model(model)@ == model,
    {
        NaiveDate::lemma_from_model(model.date);
        NaiveTime::lemma_from_model(model.time);
    }

    /// Two values with the same model are the same value.
    pub proof fn lemma_view_injective(a: NaiveDateTime, b: NaiveDateTime)
        requires
            a@ == b@,
        ensures
            a == b,
    {
        NaiveDate::lemma_view_injective(a.date, b.date);
        NaiveTime::lemma_view_injective(a.time, b.time);
    }

    /// The date and time made of a date and a time of day.
    pub fn new(date: NaiveDate, time: NaiveTime) -> (r: NaiveDateTime)
        ensures
            r@ == (DateTimeModel { date: date@, time: time@ }),
    {
        NaiveDateTime { date, time }
    }

    /// The date and time a number of seconds after midnight of January 1,
    /// 1970, not counting leap seconds, with a nanosecond part that may name
    /// a leap second. The result must exist: see `from_timestamp_opt`.
    pub fn from_timestamp(secs: i64, nsecs: u32) -> (r: NaiveDateTime)
        requires
            DateTimeModel::from_timestamp(secs as int, nsecs as int) is Some,
        ensures
            Some(r@) == DateTimeModel::from_timestamp(secs as int, nsecs as int),
    {
        match NaiveDateTime::from_timestamp_opt(secs, nsecs) {
            Some(datetime) => datetime,
            None => vstd::pervasive::unreached(),
        }
    }

    /// The date and time a number of seconds after midnight of January 1,
    /// 1970, not counting leap seconds, with a nanosecond part that may name
    /// a leap second. `None` when the day is out of range or the nanosecond
    /// part is two billion or more.
    pub fn from_timestamp_opt(secs: i64, nsecs: u32) -> (r: Option<NaiveDateTime>)
        ensures
            r is Some <==> DateTimeModel::from_timestamp(secs as int, nsecs as int) is Some,
            r matches Some(datetime) ==> Some(datetime@) == DateTimeModel::from_timestamp(
                secs as int,
                nsecs as int,
            ),
    {
        let (days, secs_of_day) = div_mod_floor(secs, 86_400);
        let date = match i64_to_i32(days) {
            Some(days) => match days.checked_add(UNIX_EPOCH_DAYS) {
                Some(days_ce) => NaiveDate::from_num_days_from_ce_opt(days_ce),
                None => None,
            },
            None => None,
        };
        let time = NaiveTime::from_num_seconds_from_midnight_opt(secs_of_day as u32, nsecs);
        match (date, time) {
            (Some(date), Some(time)) => Some(NaiveDateTime { date, time }),
            (_, _) => None,
        }
    }

    /// The date.
    pub fn date(&self) -> (r: NaiveDate)
        ensures
            r@ == self@.date,
    {
        self.date
    }

    /// The time of day.
    pub fn time(&self) -> (r: NaiveTime)
        ensures
            r@ == self@.time,
    {
        self.time
    }

    /// The whole seconds since midnight of January 1, 1970, not counting
    /// leap seconds.
    pub fn timestamp(&self) -> (r: i64)
        ensures
            r == self@.timestamp(),
    {
        let ndays: i64 = self.date.num_days_from_ce() as i64;
        let nseconds: i64 = self.time.num_seconds_from_midnight() as i64;
        (ndays - UNIX_EPOCH_DAYS as i64) * 86_400 + nseconds
    }

    /// The milliseconds since the last whole second: up to 999, and up to
    /// 1999 in a leap second.
    pub fn timestamp_subsec_millis(&self) -> (r: u32)
        ensures
            r == self@.time.frac / 1_000_000,
            r <= 1_999,
    {
        self.timestamp_subsec_nanos() / 1_000_000
    }

    /// The microseconds since the last whole second: up to 999,999, and up
    /// to 1,999,999 in a leap second.
    pub fn timestamp_subsec_micros(&self) -> (r: u32)
        ensures
            r == self@.time.frac / 1_000,
            r <= 1_999_999,
    {
        self.timestamp_subsec_nanos() / 1_000
    }

    /// The nanoseconds since the last whole second: up to 999,999,999, and
    /// up to 1,999,999,999 in a leap second.
    pub fn timestamp_subsec_nanos(&self) -> (r: u32)
        ensures
            r == self@.time.frac,
            r <= 1_999_999_999,
    {
        self.time.nanosecond()
    }

    /// The date and time later by a duration, or `None` when the date would
    /// leave the supported range.
    ///
    /// No leap second is taken to exist but the one, if any, that the time
    /// of day itself lies in.
    pub fn checked_add_signed(self, rhs: Duration) -> (r: Option<NaiveDateTime>)
        ensures
            r is Some <==> self@.checked_add(rhs@) is Some,
            r matches Some(datetime) ==> Some(datetime@) == self@.checked_add(rhs@),
    {
        let (time, carry) = self.time.overflowing_add_signed(rhs);
        proof {
            use_type_invariant(self.date);
            lemma_max_secs();
        }
        // a carry this large takes the date out of range, and could not be
        // made a duration
        let limit: i64 = 1i64 << MAX_SECS_BITS;
        if carry <= -limit || carry >= limit {
            proof {
                lemma_carry_bound(self.date@, carry as int);
            }
            return None;
        }
        match self.date.checked_add_signed(Duration::seconds(carry)) {
            Some(date) => Some(NaiveDateTime { date, time }),
            None => None,
        }
    }

    /// The date and time earlier by a duration, or `None` when the date
    /// would leave the supported range.
    ///
    /// No leap second is taken to exist but the one, if any, that the time
    /// of day itself lies in.
    pub fn checked_sub_signed(self, rhs: Duration) -> (r: Option<NaiveDateTime>)
        ensures
            r is Some <==> self@.checked_sub(rhs@) is Some,
            r matches Some(datetime) ==> Some(datetime@) == self@.checked_sub(rhs@),
    {
        let (time, carry) = self.time.overflowing_sub_signed(rhs);
        proof {
            use_type_invariant(self.date);
            lemma_max_secs();
        }
        // a carry this large takes the date out of range, and could not be
        // made a duration
        let limit: i64 = 1i64 << MAX_SECS_BITS;
        if carry <= -limit || carry >= limit {
            proof {
                lemma_carry_bound(self.date@, -carry as int);
            }
            return None;
        }
        match self.date.checked_sub_signed(Duration::seconds(carry)) {
            Some(date) => Some(NaiveDateTime { date, time }),
            None => None,
        }
    }

    /// The duration from another date and time to this one. It never
    /// overflows.
    ///
    /// No leap second is taken to exist but those, if any, that the two
    /// times of day themselves lie in.
    pub fn signed_duration_since(self, rhs: NaiveDateTime) -> (r: Duration)
        ensures
            r@ == self@.since(rhs@),
    {
        let days = self.date.signed_duration_since(rhs.date);
        let rest = self.time.signed_duration_since(rhs.time);
        proof {
            use_type_invariant(self.date);
            use_type_invariant(self.time);
            use_type_invariant(rhs.date);
            use_type_invariant(rhs.time);
            Duration::lemma_from_nanos(days@ + rest@);
        }
        days + rest
    }

    /// The year.
    pub fn year(&self) -> (r: i32)
        ensures
            r == year_of_days(self@.date),
    {
        self.date.year()
    }

    /// The month, counted from 1.
    pub fn month(&self) -> (r: u32)
        ensures
            r == month_of_days(self@.date),
    {
        self.date.month()
    }

    /// The month, counted from 0.
    pub fn month0(&self) -> (r: u32)
        ensures
            r == month_of_days(self@.date) - 1,
    {
        self.date.month0()
    }

    /// The day of the month, counted from 1.
    pub fn day(&self) -> (r: u32)
        ensures
            r == day_of_days(self@.date),
    {
        self.date.day()
    }

    /// The day of the month, counted from 0.
    pub fn day0(&self) -> (r: u32)
        ensures
            r == day_of_days(self@.date) - 1,
    {
        self.date.day0()
    }

    /// The day of the year, counted from 1.
    pub fn ordinal(&self) -> (r: u32)
        ensures
            r == ordinal_of_days(self@.date),
    {
        self.date.ordinal()
    }

    /// The day of the year, counted from 0.
    pub fn ordinal0(&self) -> (r: u32)
        ensures
            r == ordinal_of_days(self@.date) - 1,
    {
        self.date.ordinal0()
    }

    /// The day of the week.
    pub fn weekday(&self) -> (r: Weekday)
        ensures
            r == Weekday::from_index(weekday_index(self@.date)),
    {
        self.date.weekday()
    }

    /// The ISO 8601 week date: the week-numbering year, the week counted
    /// from 1, and the day of the week.
    pub fn isoweekdate(&self) -> (r: (i32, u32, Weekday))
        ensures
            r.0 == iso_year_of_days(self@.date),
            r.1 == iso_week_of_days(self@.date),
            r.2 == Weekday::from_index(weekday_index(self@.date)),
    {
        self.date.isoweekdate()
    }

    /// The same time on the same day of the same month in another year, or
    /// `None` when that year has no such day or is out of range.
    pub fn with_year(&self, year: i32) -> (r: Option<NaiveDateTime>)
        ensures
            r is Some <==> valid_ymd(
                year as int,
                month_of_days(self@.date),
                day_of_days(self@.date),
            ),
            r matches Some(datetime) ==> datetime@ == (DateTimeModel {
                date: days_from_ymd(
                    year as int,
                    month_of_days(self@.date),
                    day_of_days(self@.date),
                ),
                time: self@.time,
            }),
    {
        match self.date.with_year(year) {
            Some(date) => Some(NaiveDateTime { date, time: self.time }),
            None => None,
        }
    }

    /// The same time on the same day of another month, counted from 1, or
    /// `None` when that month has no such day.
    pub fn with_month(&self, month: u32) -> (r: Option<NaiveDateTime>)
        ensures
            r is Some <==> valid_ymd(
                year_of_days(self@.date),
                month as int,
                day_of_days(self@.date),
            ),
            r matches Some(datetime) ==> datetime@ == (DateTimeModel {
                date: days_from_ymd(
                    year_of_days(self@.date),
                    month as int,
                    day_of_days(self@.date),
                ),
                time: self@.time,
            }),
    {
        match self.date.with_month(month) {
            Some(date) => Some(NaiveDateTime { date, time: self.time }),
            None => None,
        }
    }

    /// The same time on the same day of another month, counted from 0, or
    /// `None` when that month has no such day.
    pub fn with_month0(&self, month0: u32) -> (r: Option<NaiveDateTime>)
        ensures
            r is Some <==> valid_ymd(year_of_days(self@.date), month0 + 1, day_of_days(self@.date)),
            r matches Some(datetime) ==> datetime@ == (DateTimeModel {
                date: days_from_ymd(year_of_days(self@.date), month0 + 1, day_of_days(self@.date)),
                time: self@.time,
            }),
    {
        match self.date.with_month0(month0) {
            Some(date) => Some(NaiveDateTime { date, time: self.time }),
            None => None,
        }
    }

    /// The same time on another day of the month, counted from 1, or `None`
    /// when the month has no such day.
    pub fn with_day(&self, day: u32) -> (r: Option<NaiveDateTime>)
        ensures
            r is Some <==> valid_ymd(
                year_of_days(self@.date),
                month_of_days(self@.date),
                day as int,
            ),
            r matches Some(datetime) ==> datetime@ == (DateTimeModel {
                date: days_from_ymd(
                    year_of_days(self@.date),
                    month_of_days(self@.date),
                    day as int,
                ),
                time: self@.time,
            }),
    {
        match self.date.with_day(day) {
            Some(date) => Some(NaiveDateTime { date, time: self.time }),
            None => None,
        }
    }

    /// The same time on another day of the month, counted from 0, or `None`
    /// when the month has no such day.
    pub fn with_day0(&self, day0: u32) -> (r: Option<NaiveDateTime>)
        ensures
            r is Some <==> valid_ymd(year_of_days(self@.date), month_of_days(self@.date), day0 + 1),
            r matches Some(datetime) ==> datetime@ == (DateTimeModel {
                date: days_from_ymd(year_of_days(self@.date), month_of_days(self@.date), day0 + 1),
                time: self@.time,
            }),
    {
        match self.date.with_day0(day0) {
            Some(date) => Some(NaiveDateTime { date, time: self.time }),
            None => None,
        }
    }

    /// The same time on another day of the year, counted from 1, or `None`
    /// when the year has no such day.
    pub fn with_ordinal(&self, ordinal: u32) -> (r: Option<NaiveDateTime>)
        ensures
            r is Some <==> valid_yo(year_of_days(self@.date), ordinal as int),
            r matches Some(datetime) ==> datetime@ == (DateTimeModel {
                date: days_from_yo(year_of_days(self@.date), ordinal as int),
                time: self@.time,
            }),
    {
        match self.date.with_ordinal(ordinal) {
            Some(date) => Some(NaiveDateTime { date, time: self.time }),
            None => None,
        }
    }

    /// The same time on another day of the year, counted from 0, or `None`
    /// when the year has no such day.
    pub fn with_ordinal0(&self, ordinal0: u32) -> (r: Option<NaiveDateTime>)
        ensures
            r is Some <==> valid_yo(year_of_days(self@.date), ordinal0 + 1),
            r matches Some(datetime) ==> datetime@ == (DateTimeModel {
                date: days_from_yo(year_of_days(self@.date), ordinal0 + 1),
                time: self@.time,
            }),
    {
        match self.date.with_ordinal0(ordinal0) {
            Some(date) => Some(NaiveDateTime { date, time: self.time }),
            None => None,
        }
    }

    /// The hour of the day, 0 to 23.
    pub fn hour(&self) -> (r: u32)
        ensures
            r == self@.time.hour(),
    {
        self.time.hour()
    }

    /// The minute of the hour, 0 to 59.
    pub fn minute(&self) -> (r: u32)
        ensures
            r == self@.time.minute(),
    {
        self.time.minute()
    }

    /// The second of the minute, 0 to 59. A leap second reports the second
    /// before it.
    pub fn second(&self) -> (r: u32)
        ensures
            r == self@.time.second(),
    {
        self.time.second()
    }

    /// The nanoseconds since the start of the second: a billion or more in a
    /// leap second.
    pub fn nanosecond(&self) -> (r: u32)
        ensures
            r == self@.time.frac,
    {
        self.time.nanosecond()
    }

    /// The same date and time at another hour, or `None` when the hour is
    /// out of range.
    pub fn with_hour(&self, hour: u32) -> (r: Option<NaiveDateTime>)
        ensures
            r is Some <==> hour < 24,
            r matches Some(datetime) ==> datetime@ == (DateTimeModel {
                date: self@.date,
                time: TimeModel {
                    secs: hour * 3_600 + self@.time.secs % 3_600,
                    frac: self@.time.frac,
                },
            }),
    {
        match self.time.with_hour(hour) {
            Some(time) => Some(NaiveDateTime { date: self.date, time }),
            None => None,
        }
    }

    /// The same date and time at another minute, or `None` when the minute
    /// is out of range.
    pub fn with_minute(&self, min: u32) -> (r: Option<NaiveDateTime>)
        ensures
            r is Some <==> min < 60,
            r matches Some(datetime) ==> datetime@ == (DateTimeModel {
                date: self@.date,
                time: TimeModel {
                    secs: self@.time.hour() * 3_600 + min * 60 + self@.time.second(),
                    frac: self@.time.frac,
                },
            }),
    {
        match self.time.with_minute(min) {
            Some(time) => Some(NaiveDateTime { date: self.date, time }),
            None => None,
        }
    }

    /// The same date and time at another second, or `None` when the second
    /// is out of range. The nanoseconds stay, a leap second stays a leap
    /// second.
    pub fn with_second(&self, sec: u32) -> (r: Option<NaiveDateTime>)
        ensures
            r is Some <==> sec < 60,
            r matches Some(datetime) ==> datetime@ == (DateTimeModel {
                date: self@.date,
                time: TimeModel {
                    secs: self@.time.secs - self@.time.second() + sec,
                    frac: self@.time.frac,
                },
            }),
    {
        match self.time.with_second(sec) {
            Some(time) => Some(NaiveDateTime { date: self.date, time }),
            None => None,
        }
    }

    /// The same date and time with other nanoseconds, or `None` when they
    /// are out of range. A billion or more makes the time a leap second.
    pub fn with_nanosecond(&self, nano: u32) -> (r: Option<NaiveDateTime>)
        ensures
            r is Some <==> nano < 2_000_000_000,
            r matches Some(datetime) ==> datetime@ == (DateTimeModel {
                date: self@.date,
                time: TimeModel { secs: self@.time.secs, frac: nano as int },
            }),
    {
        match self.time.with_nanosecond(nano) {
            Some(time) => Some(NaiveDateTime { date: self.date, time }),
            None => None,
        }
    }
}

impl core::ops::Add<Duration> for NaiveDateTime {
    type Output = NaiveDateTime;

    /// The date and time later by a duration. The result must be in range:
    /// see `checked_add_signed`.
    fn add(self, rhs: Duration) -> (r: NaiveDateTime) {
        match self.checked_add_signed(rhs) {
            Some(datetime) => {
                proof {
                    use_type_invariant(datetime.date);
                    use_type_invariant(datetime.time);
                    NaiveDateTime::lemma_from_model(datetime@);
                    NaiveDateTime::lemma_view_injective(
                        datetime,
                        NaiveDateTime::from_model(datetime@),
                    );
                }
                datetime
            },
            None => vstd::pervasive::unreached(),
        }
    }
}

impl AddSpecImpl<Duration> for NaiveDateTime {
    open spec fn obeys_add_spec() -> bool {
        true
    }

    open spec fn add_req(self, rhs: Duration) -> bool {
        self@.checked_add(rhs@) is Some
    }

    open spec fn add_spec(self, rhs: Duration) -> NaiveDateTime {
        NaiveDateTime::from_model(self@.checked_add(rhs@)->0)
    }
}

impl core::ops::Sub<Duration> for NaiveDateTime {
    type Output = NaiveDateTime;

    /// The date and time earlier by a duration. The result must be in range:
    /// see `checked_sub_signed`.
    fn sub(self, rhs: Duration) -> (r: NaiveDateTime) {
        match self.checked_sub_signed(rhs) {
            Some(datetime) => {
                proof {
                    use_type_invariant(datetime.date);
                    use_type_invariant(datetime.time);
                    NaiveDateTime::lemma_from_model(datetime@);
                    NaiveDateTime::lemma_view_injective(
                        datetime,
                        NaiveDateTime::from_model(datetime@),
                    );
                }
                datetime
            },
            None => vstd::pervasive::unreached(),
        }
    }
}

impl SubSpecImpl<Duration> for NaiveDateTime {
    open spec fn obeys_sub_spec() -> bool {
        true
    }

    open spec fn sub_req(self, rhs: Duration) -> bool {
        self@.checked_sub(rhs@) is Some
    }

    open spec fn sub_spec(self, rhs: Duration) -> NaiveDateTime {
        NaiveDateTime::from_model(self@.checked_sub(rhs@)->0)
    }
}

impl NaiveDate {
    /// The date together with a time of day.
    pub fn and_time(&self, time: NaiveTime) -> (r: NaiveDateTime)
        ensures
            r@ == (DateTimeModel { date: self@, time: time@ }),
    {
        NaiveDateTime::new(*self, time)
    }

    /// The date at an hour, minute and second, or `None` when one of them
    /// is out of range.
    pub fn and_hms_opt(&self, hour: u32, min: u32, sec: u32) -> (r: Option<NaiveDateTime>)
        ensures
            r is Some <==> hour < 24 && min < 60 && sec < 60,
            r matches Some(datetime) ==> datetime@ == (DateTimeModel {
                date: self@,
                time: TimeModel { secs: hour * 3_600 + min * 60 + sec, frac: 0 },
            }),
    {
        match NaiveTime::from_hms_opt(hour, min, sec) {
            Some(time) => Some(self.and_time(time)),
            None => None,
        }
    }

    /// The date at an hour, minute and second, which must be in range.
    pub fn and_hms(&self, hour: u32, min: u32, sec: u32) -> (r: NaiveDateTime)
        requires
            hour < 24,
            min < 60,
            sec < 60,
        ensures
            r@ == (DateTimeModel {
                date: self@,
                time: TimeModel { secs: hour * 3_600 + min * 60 + sec, frac: 0 },
            }),
    {
        self.and_time(NaiveTime::from_hms(hour, min, sec))
    }

    /// The date at an hour, minute, second and millisecond, or `None` when
    /// one of them is out of range. A millisecond of 1000 to 1999 names the
    /// leap second.
    pub fn and_hms_milli_opt(&self, hour: u32, min: u32, sec: u32, milli: u32) -> (r: Option<
        NaiveDateTime,
    >)
        ensures
            r is Some <==> hour < 24 && min < 60 && sec < 60 && milli < 2_000,
            r matches Some(datetime) ==> datetime@ == (DateTimeModel {
                date: self@,
                time: TimeModel {
                    secs: hour * 3_600 + min * 60 + sec,
                    frac: milli * 1_000_000,
                },
            }),
    {
        match NaiveTime::from_hms_milli_opt(hour, min, sec, milli) {
            Some(time) => Some(self.and_time(time)),
            None => None,
        }
    }

    /// The date at an hour, minute, second and millisecond, which must be in
    /// range.
    pub fn and_hms_milli(&self, hour: u32, min: u32, sec: u32, milli: u32) -> (r: NaiveDateTime)
        requires
            hour < 24,
            min < 60,
            sec < 60,
            milli < 2_000,
        ensures
            r@ == (DateTimeModel {
                date: self@,
                time: TimeModel {
                    secs: hour * 3_600 + min * 60 + sec,
                    frac: milli * 1_000_000,
                },
            }),
    {
        self.and_time(NaiveTime::from_hms_milli(hour, min, sec, milli))
    }

    /// The date at an hour, minute, second and microsecond, or `None` when
    /// one of them is out of range. A microsecond of 1,000,000 to 1,999,999
    /// names the leap second.
    pub fn and_hms_micro_opt(&self, hour: u32, min: u32, sec: u32, micro: u32) -> (r: Option<
        NaiveDateTime,
    >)
        ensures
            r is Some <==> hour < 24 && min < 60 && sec < 60 && micro < 2_000_000,
            r matches Some(datetime) ==> datetime@ == (DateTimeModel {
                date: self@,
                time: TimeModel { secs: hour * 3_600 + min * 60 + sec, frac: micro * 1_000 },
            }),
    {
        match NaiveTime::from_hms_micro_opt(hour, min, sec, micro) {
            Some(time) => Some(self.and_time(time)),
            None => None,
        }
    }

    /// The date at an hour, minute, second and microsecond, which must be in
    /// range.
    pub fn and_hms_micro(&self, hour: u32, min: u32, sec: u32, micro: u32) -> (r: NaiveDateTime)
        requires
            hour < 24,
            min < 60,
            sec < 60,
            micro < 2_000_000,
        ensures
            r@ == (DateTimeModel {
                date: self@,
                time: TimeModel { secs: hour * 3_600 + min * 60 + sec, frac: micro * 1_000 },
            }),
    {
        self.and_time(NaiveTime::from_hms_micro(hour, min, sec, micro))
    }

    /// The date at an hour, minute, second and nanosecond, or `None` when
    /// one of them is out of range. A nanosecond of a billion or more names
    /// the leap second.
    pub fn and_hms_nano_opt(&self, hour: u32, min: u32, sec: u32, nano: u32) -> (r: Option<
        NaiveDateTime,
    >)
        ensures
            r is Some <==> hour < 24 && min < 60 && sec < 60 && nano < 2_000_000_000,
            r matches Some(datetime) ==> datetime@ == (DateTimeModel {
                date: self@,
                time: TimeModel { secs: hour * 3_600 + min * 60 + sec, frac: nano as int },
            }),
    {
        match NaiveTime::from_hms_nano_opt(hour, min, sec, nano) {
            Some(time) => Some(self.and_time(time)),
            None => None,
        }
    }

    /// The date at an hour, minute, second and nanosecond, which must be in
    /// range.
    pub fn and_hms_nano(&self, hour: u32, min: u32, sec: u32, nano: u32) -> (r: NaiveDateTime)
        requires
            hour < 24,
            min < 60,
            sec < 60,
            nano < 2_000_000_000,
        ensures
            r@ == (DateTimeModel {
                date: self@,
                time: TimeModel { secs: hour * 3_600 + min * 60 + sec, frac: nano as int },
            }),
    {
        self.and_time(NaiveTime::from_hms_nano(hour, min, sec, nano))
    }
}

/// A date and time is the one that its own timestamp and nanoseconds name:
/// taking the timestamp and building the value again from it changes
/// nothing, whether the time lies in a leap second or not.
pub proof fn lemma_timestamp_round_trip(x: NaiveDateTime)
    requires
        x.wf(),
    ensures
        DateTimeModel::from_timestamp(x@.timestamp(), x@.time.frac) == Some(x@),
{
}

/// Seconds and nanoseconds that name a date and time are the timestamp and
/// the nanoseconds of that date and time, which is well-formed.
pub proof fn lemma_from_timestamp_round_trip(secs: int, nsecs: int)
    requires
        DateTimeModel::from_timestamp(secs, nsecs) is Some,
    ensures
        DateTimeModel::from_timestamp(secs, nsecs)->0.wf(),
        DateTimeModel::from_timestamp(secs, nsecs)->0.timestamp() == secs,
        DateTimeModel::from_timestamp(secs, nsecs)->0.time.frac == nsecs,
{
}

/// Adding and subtracting a duration give well-formed values.
pub proof fn lemma_checked_wf(x: NaiveDateTime, d: Duration)
    requires
        x.wf(),
    ensures
        x@.checked_add(d@) matches Some(y) ==> y.wf(),
        x@.checked_sub(d@) matches Some(y) ==> y.wf(),
{
}

/// Whether subtracting a duration undoes adding it. It does from every time
/// outside a leap second, and from a time in a leap second when the sum
/// lies in that leap second too. A sum that has left the leap second no
/// longer tells that there was one.
pub open spec fn add_is_undone(x: DateTimeModel, nanos: int) -> bool {
    !x.time.is_leap() || 1_000_000_000 <= x.time.frac + nanos < 2_000_000_000
}

/// Subtracting a duration from the sum that adding it gave leads back to the
/// start, wherever `add_is_undone` holds and the sum is in range.
pub proof fn lemma_add_then_sub(x: NaiveDateTime, d: Duration)
    requires
        x.wf(),
        x@.checked_add(d@) is Some,
        add_is_undone(x@, d@),
    ensures
        x@.checked_add(d@)->0.checked_sub(d@) == Some(x@),
{
}

/// Where `add_is_undone` does not hold, subtracting a duration from the sum
/// that adding it gave leads elsewhere: to a time outside the leap second.
pub proof fn lemma_add_then_sub_leaves_leap_second(x: NaiveDateTime, d: Duration)
    requires
        x.wf(),
        x@.checked_add(d@) is Some,
        !add_is_undone(x@, d@),
    ensures
        x@.checked_add(d@)->0.checked_sub(d@) != Some(x@),
{
}

/// The duration from `b` to `a` is the negation of the duration from `a` to
/// `b`.
pub proof fn lemma_since_antisymmetric(a: NaiveDateTime, b: NaiveDateTime)
    ensures
        a@.since(b@) == -b@.since(a@),
{
}

/// Adding to a date and time the duration that leads from it to another one
/// gives that other one, when neither lies in a leap second.
pub proof fn lemma_add_since(a: NaiveDateTime, b: NaiveDateTime)
    requires
        a.wf(),
        b.wf(),
        !a@.time.is_leap(),
        !b@.time.is_leap(),
    ensures
        b@.checked_add(a@.since(b@)) == Some(a@),
{
}

} // verus!
