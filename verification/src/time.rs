//! A time of day with nanosecond resolution and room for a leap second.
//!
//! The mathematical model of a [`NaiveTime`] is a [`TimeModel`]: the whole
//! seconds since midnight, and the nanoseconds since the start of that
//! second. A nanosecond count of a billion or more stands for a leap second:
//! the second that follows the one named by the whole seconds.

use vstd::prelude::*;
use crate::duration::Duration;
use crate::numeric::floor_div_mod;
use core::ops::Neg;

verus! {

/// The mathematical model of a time of day.
pub struct TimeModel {
    /// Whole seconds since midnight.
    pub secs: int,
    /// Nanoseconds since the start of the second, a billion or more in a
    /// leap second.
    pub frac: int,
}

impl TimeModel {
    /// Whether the model is that of a time of day.
    pub open spec fn wf(self) -> bool {
        0 <= self.secs < 86_400 && 0 <= self.frac < 2_000_000_000
    }

    /// Whether the time lies in a leap second.
    pub open spec fn is_leap(self) -> bool {
        self.frac >= 1_000_000_000
    }

    /// The hour of the day.
    pub open spec fn hour(self) -> int {
        self.secs / 3_600
    }

    /// The minute of the hour.
    pub open spec fn minute(self) -> int {
        (self.secs / 60) % 60
    }

    /// The second of the minute.
    pub open spec fn second(self) -> int {
        self.secs % 60
    }

    /// The time a signed number of nanoseconds later, wrapped around
    /// midnight, and the seconds that the wrapping took off: a multiple of
    /// the length of a day.
    ///
    /// A leap second counts as elapsed time only for a time that lies in it.
    /// From there, a duration that stays within the named second and its leap
    /// second only moves the nanoseconds; a longer one forward leaves the
    /// leap second behind, and with it one second of the duration.
    pub open spec fn add(self, nanos: int) -> (TimeModel, int) {
        let x = self.frac + nanos;
        if self.is_leap() && 0 <= x < 2_000_000_000 {
            (TimeModel { secs: self.secs, frac: x }, 0)
        } else {
            let skipped: int = if self.is_leap() && x >= 2_000_000_000 {
                1_000_000_000
            } else {
                0
            };
            let total = self.secs * 1_000_000_000 + x - skipped;
            let secs = total / 1_000_000_000;
            (TimeModel { secs: secs % 86_400, frac: total % 1_000_000_000 }, secs - secs % 86_400)
        }
    }

    /// The time a signed number of nanoseconds earlier, wrapped around
    /// midnight, and the seconds that the wrapping added.
    pub open spec fn sub(self, nanos: int) -> (TimeModel, int) {
        let (time, carry) = self.add(-nanos);
        (time, -carry)
    }

    /// The nanoseconds from another time of the same day to this one. A leap
    /// second in which the earlier of the two lies, while the later lies in
    /// another second, has passed in between and is counted.
    pub open spec fn since(self, other: TimeModel) -> int {
        let passed: int = if self.secs > other.secs && other.is_leap() {
            1
        } else if self.secs < other.secs && self.is_leap() {
            -1
        } else {
            0
        };
        (self.secs - other.secs + passed) * 1_000_000_000 + (self.frac - other.frac)
    }
}

/// A time of day without a time zone.
#[derive(Clone, Copy, PartialEq, Eq, Structural, Ord, Hash, Debug)]
pub struct NaiveTime {
    secs: u32,
    frac: u32,
}

impl View for NaiveTime {
    type V = TimeModel;

    closed spec fn view(&self) -> TimeModel {
        TimeModel { secs: self.secs as int, frac: self.frac as int }
    }
}

impl NaiveTime {
    /// Well-formedness: the model is that of a time of day.
    #[verifier::type_invariant]
    pub open spec fn wf(self) -> bool {
        self@.wf()
    }

    /// Two times with the same model are the same value.
    pub proof fn lemma_view_injective(a: NaiveTime, b: NaiveTime)
        requires
            a@ == b@,
        ensures
            a == b,
    {
    }

    /// The time of day of a well-formed model.
    pub closed spec fn from_model(model: TimeModel) -> NaiveTime {
        NaiveTime { secs: model.secs as u32, frac: model.frac as u32 }
    }

    /// `from_model` builds the time that has the model.
    pub proof fn lemma_from_model(model: TimeModel)
        requires
            model.wf(),
        ensures
            NaiveTime::from_model(model)@ == model,
            NaiveTime::from_model(model).wf(),
    {
    }

    /// The time at an hour, minute and second, or `None` when one of them is
    /// out of range.
    pub fn from_hms_opt(hour: u32, min: u32, sec: u32) -> (r: Option<NaiveTime>)
        ensures
            r is Some <==> hour < 24 && min < 60 && sec < 60,
            r matches Some(t) ==> t@ == (TimeModel {
                secs: hour * 3_600 + min * 60 + sec,
                frac: 0,
            }),
    {
        NaiveTime::from_hms_nano_opt(hour, min, sec, 0)
    }

    /// The time at an hour, minute and second, which must be in range.
    pub fn from_hms(hour: u32, min: u32, sec: u32) -> (r: NaiveTime)
        requires
            hour < 24,
            min < 60,
            sec < 60,
        ensures
            r@ == (TimeModel { secs: hour * 3_600 + min * 60 + sec, frac: 0 }),
    {
        NaiveTime { secs: hour * 3_600 + min * 60 + sec, frac: 0 }
    }

    /// The time at an hour, minute, second and millisecond, or `None` when
    /// one of them is out of range. A millisecond of 1000 to 1999 names the
    /// leap second.
    pub fn from_hms_milli_opt(hour: u32, min: u32, sec: u32, milli: u32) -> (r: Option<NaiveTime>)
        ensures
            r is Some <==> hour < 24 && min < 60 && sec < 60 && milli < 2_000,
            r matches Some(t) ==> t@ == (TimeModel {
                secs: hour * 3_600 + min * 60 + sec,
                frac: milli * 1_000_000,
            }),
    {
        if milli < 2_000 {
            NaiveTime::from_hms_nano_opt(hour, min, sec, milli * 1_000_000)
        } else {
            None
        }
    }

    /// The time at an hour, minute, second and millisecond, which must be in
    /// range.
    pub fn from_hms_milli(hour: u32, min: u32, sec: u32, milli: u32) -> (r: NaiveTime)
        requires
            hour < 24,
            min < 60,
            sec < 60,
            milli < 2_000,
        ensures
            r@ == (TimeModel {
                secs: hour * 3_600 + min * 60 + sec,
                frac: milli * 1_000_000,
            }),
    {
        NaiveTime { secs: hour * 3_600 + min * 60 + sec, frac: milli * 1_000_000 }
    }

    /// The time at an hour, minute, second and microsecond, or `None` when
    /// one of them is out of range. A microsecond of 1,000,000 to 1,999,999
    /// names the leap second.
    pub fn from_hms_micro_opt(hour: u32, min: u32, sec: u32, micro: u32) -> (r: Option<NaiveTime>)
        ensures
            r is Some <==> hour < 24 && min < 60 && sec < 60 && micro < 2_000_000,
            r matches Some(t) ==> t@ == (TimeModel {
                secs: hour * 3_600 + min * 60 + sec,
                frac: micro * 1_000,
            }),
    {
        if micro < 2_000_000 {
            NaiveTime::from_hms_nano_opt(hour, min, sec, micro * 1_000)
        } else {
            None
        }
    }

    /// The time at an hour, minute, second and microsecond, which must be in
    /// range.
    pub fn from_hms_micro(hour: u32, min: u32, sec: u32, micro: u32) -> (r: NaiveTime)
        requires
            hour < 24,
            min < 60,
            sec < 60,
            micro < 2_000_000,
        ensures
            r@ == (TimeModel { secs: hour * 3_600 + min * 60 + sec, frac: micro * 1_000 }),
    {
        NaiveTime { secs: hour * 3_600 + min * 60 + sec, frac: micro * 1_000 }
    }

    /// The time at an hour, minute, second and nanosecond, or `None` when one
    /// of them is out of range. A nanosecond of a billion or more names the
    /// leap second.
    pub fn from_hms_nano_opt(hour: u32, min: u32, sec: u32, nano: u32) -> (r: Option<NaiveTime>)
        ensures
            r is Some <==> hour < 24 && min < 60 && sec < 60 && nano < 2_000_000_000,
            r matches Some(t) ==> t@ == (TimeModel {
                secs: hour * 3_600 + min * 60 + sec,
                frac: nano as int,
            }),
    {
        if hour >= 24 || min >= 60 || sec >= 60 || nano >= 2_000_000_000 {
            return None;
        }
        Some(NaiveTime { secs: hour * 3_600 + min * 60 + sec, frac: nano })
    }

    /// The time at an hour, minute, second and nanosecond, which must be in
    /// range.
    pub fn from_hms_nano(hour: u32, min: u32, sec: u32, nano: u32) -> (r: NaiveTime)
        requires
            hour < 24,
            min < 60,
            sec < 60,
            nano < 2_000_000_000,
        ensures
            r@ == (TimeModel { secs: hour * 3_600 + min * 60 + sec, frac: nano as int }),
    {
        NaiveTime { secs: hour * 3_600 + min * 60 + sec, frac: nano }
    }

    /// The time a number of seconds after midnight, with a nanosecond part,
    /// or `None` when one of them is out of range.
    pub fn from_num_seconds_from_midnight_opt(secs: u32, nano: u32) -> (r: Option<NaiveTime>)
        ensures
            r is Some <==> secs < 86_400 && nano < 2_000_000_000,
            r matches Some(t) ==> t@ == (TimeModel { secs: secs as int, frac: nano as int }),
    {
        if secs >= 86_400 || nano >= 2_000_000_000 {
            return None;
        }
        Some(NaiveTime { secs, frac: nano })
    }

    /// The time a number of seconds after midnight, with a nanosecond part.
    /// Both must be in range.
    pub fn from_num_seconds_from_midnight(secs: u32, nano: u32) -> (r: NaiveTime)
        requires
            secs < 86_400,
            nano < 2_000_000_000,
        ensures
            r@ == (TimeModel { secs: secs as int, frac: nano as int }),
    {
        NaiveTime { secs, frac: nano }
    }

    /// The hour of the day, 0 to 23.
    pub fn hour(&self) -> (r: u32)
        ensures
            r == self@.hour(),
            r < 24,
    {
        proof {
            use_type_invariant(self);
        }
        self.secs / 3_600
    }

    /// The minute of the hour, 0 to 59.
    pub fn minute(&self) -> (r: u32)
        ensures
            r == self@.minute(),
            r < 60,
    {
        (self.secs / 60) % 60
    }

    /// The second of the minute, 0 to 59. A leap second reports the second
    /// before it.
    pub fn second(&self) -> (r: u32)
        ensures
            r == self@.second(),
            r < 60,
    {
        self.secs % 60
    }

    /// The nanoseconds since the start of the second: a billion or more in a
    /// leap second.
    pub fn nanosecond(&self) -> (r: u32)
        ensures
            r == self@.frac,
            r < 2_000_000_000,
    {
        proof {
            use_type_invariant(self);
        }
        self.frac
    }

    /// The whole seconds since midnight.
    pub fn num_seconds_from_midnight(&self) -> (r: u32)
        ensures
            r == self@.secs,
            r < 86_400,
    {
        proof {
            use_type_invariant(self);
        }
        self.secs
    }

    /// The same time at another hour, or `None` when the hour is out of
    /// range.
    pub fn with_hour(&self, hour: u32) -> (r: Option<NaiveTime>)
        ensures
            r is Some <==> hour < 24,
            r matches Some(t) ==> t@ == (TimeModel {
                secs: hour * 3_600 + self@.secs % 3_600,
                frac: self@.frac,
            }),
    {
        proof {
            use_type_invariant(self);
        }
        if hour >= 24 {
            return None;
        }
        Some(NaiveTime { secs: hour * 3_600 + self.secs % 3_600, frac: self.frac })
    }

    /// The same time at another minute, or `None` when the minute is out of
    /// range.
    pub fn with_minute(&self, min: u32) -> (r: Option<NaiveTime>)
        ensures
            r is Some <==> min < 60,
            r matches Some(t) ==> t@ == (TimeModel {
                secs: self@.hour() * 3_600 + min * 60 + self@.second(),
                frac: self@.frac,
            }),
    {
        proof {
            use_type_invariant(self);
        }
        if min >= 60 {
            return None;
        }
        Some(
            NaiveTime {
                secs: self.secs / 3_600 * 3_600 + min * 60 + self.secs % 60,
                frac: self.frac,
            },
        )
    }

    /// The same time at another second, or `None` when the second is out of
    /// range. The nanoseconds stay, a leap second stays a leap second.
    pub fn with_second(&self, sec: u32) -> (r: Option<NaiveTime>)
        ensures
            r is Some <==> sec < 60,
            r matches Some(t) ==> t@ == (TimeModel {
                secs: self@.secs - self@.second() + sec,
                frac: self@.frac,
            }),
    {
        proof {
            use_type_invariant(self);
        }
        if sec >= 60 {
            return None;
        }
        Some(NaiveTime { secs: self.secs / 60 * 60 + sec, frac: self.frac })
    }

    /// The same time with other nanoseconds, or `None` when they are out of
    /// range. A billion or more makes the time a leap second.
    pub fn with_nanosecond(&self, nano: u32) -> (r: Option<NaiveTime>)
        ensures
            r is Some <==> nano < 2_000_000_000,
            r matches Some(t) ==> t@ == (TimeModel { secs: self@.secs, frac: nano as int }),
    {
        proof {
            use_type_invariant(self);
        }
        if nano >= 2_000_000_000 {
            return None;
        }
        Some(NaiveTime { secs: self.secs, frac: nano })
    }

    /// Adds a duration, wrapping around midnight. Returns the new time and
    /// the whole seconds to carry over to the date: a multiple of the length
    /// of a day.
    pub fn overflowing_add_signed(&self, rhs: Duration) -> (r: (NaiveTime, i64))
        ensures
            r.0@ == self@.add(rhs@).0,
            r.1 == self@.add(rhs@).1,
            r.1 % 86_400 == 0,
    {
        proof {
            use_type_invariant(self);
        }
        let (dsecs, dnanos) = rhs.floor_parts();
        let frac: i64 = self.frac as i64;
        let leap = frac >= 1_000_000_000;
        if leap && -2 <= dsecs && dsecs <= 0 {
            let x: i64 = frac + dsecs * 1_000_000_000 + dnanos as i64;
            if 0 <= x && x < 2_000_000_000 {
                return (NaiveTime { secs: self.secs, frac: x as u32 }, 0);
            }
        }
        let skipped: i64 = if leap && dsecs >= 0 {
            1_000_000_000
        } else {
            0
        };
        let low: i64 = frac + dnanos as i64 - skipped;
        let secs: i64 = self.secs as i64 + dsecs + low / 1_000_000_000;
        let nano: i64 = low % 1_000_000_000;
        let (_, secs_of_day) = floor_div_mod(secs, 86_400);
        proof {
            let total = self@.secs * 1_000_000_000 + self@.frac + rhs@ - skipped;
            assert(total == (self.secs + dsecs) * 1_000_000_000 + low);
            assert(total / 1_000_000_000 == secs);
            assert(total % 1_000_000_000 == nano);
        }
        (NaiveTime { secs: secs_of_day as u32, frac: nano as u32 }, secs - secs_of_day)
    }

    /// Subtracts a duration, wrapping around midnight. Returns the new time
    /// and the whole seconds to take off the date: a multiple of the length
    /// of a day.
    pub fn overflowing_sub_signed(&self, rhs: Duration) -> (r: (NaiveTime, i64))
        ensures
            r.0@ == self@.sub(rhs@).0,
            r.1 == self@.sub(rhs@).1,
            r.1 % 86_400 == 0,
    {
        proof {
            use_type_invariant(rhs);
        }
        let (time, carry) = self.overflowing_add_signed(rhs.neg());
        proof {
            Duration::lemma_from_nanos(-rhs@);
        }
        (time, -carry)
    }

    /// The duration from another time of the same day to this one.
    pub fn signed_duration_since(self, rhs: NaiveTime) -> (r: Duration)
        ensures
            r@ == self@.since(rhs@),
    {
        proof {
            use_type_invariant(self);
            use_type_invariant(rhs);
        }
        let secs: i64 = self.secs as i64 - rhs.secs as i64;
        let frac: i64 = self.frac as i64 - rhs.frac as i64;
        let passed: i64 = if self.secs > rhs.secs {
            if rhs.frac >= 1_000_000_000 {
                1
            } else {
                0
            }
        } else if self.secs < rhs.secs {
            if self.frac >= 1_000_000_000 {
                -1
            } else {
                0
            }
        } else {
            0
        };
        let whole = Duration::seconds(secs + passed);
        let part = Duration::nanoseconds(frac);
        proof {
            Duration::lemma_from_nanos(whole@ + part@);
        }
        whole + part
    }
}

} // verus!
