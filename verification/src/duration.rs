//! A signed span of time with nanosecond resolution.
//!
//! The mathematical model of a [`Duration`] is a single integer: its length
//! in nanoseconds. Every operation is specified as integer arithmetic on that
//! number.

use vstd::prelude::*;
use vstd::std_specs::ops::{AddSpecImpl, NegSpecImpl, SubSpecImpl};
use crate::numeric::floor_div_mod;

verus! {

/// Nanoseconds in one second.
pub const NANOS_PER_SEC: i64 = 1_000_000_000;

/// Nanoseconds in one microsecond.
pub const NANOS_PER_MICRO: i64 = 1_000;

/// Nanoseconds in one millisecond.
pub const NANOS_PER_MILLI: i64 = 1_000_000;

/// Seconds in one day.
pub const SECS_PER_DAY: i64 = 86_400;

/// The largest count of whole seconds that a duration built by
/// [`Duration::seconds`] may hold: `i64::MAX / 1000`.
pub const MAX_SECONDS: i64 = 9_223_372_036_854_775;

/// Nanoseconds in one day.
pub open spec fn nanos_per_day() -> int {
    86_400_000_000_000
}

/// The shortest duration that arithmetic produces, in nanoseconds:
/// `i64::MIN` milliseconds.
pub open spec fn min_nanos() -> int {
    -9_223_372_036_854_775_808int * 1_000_000
}

/// The longest duration that arithmetic produces, in nanoseconds:
/// `i64::MAX` milliseconds.
pub open spec fn max_nanos() -> int {
    9_223_372_036_854_775_807int * 1_000_000
}

/// The largest magnitude a duration value can hold, in nanoseconds. It is the
/// magnitude of [`min_nanos`], so that every duration can be negated.
pub open spec fn limit_nanos() -> int {
    9_223_372_036_854_775_808int * 1_000_000
}

/// Whether a length in nanoseconds lies between the shortest and the longest
/// duration.
pub open spec fn in_bounds(nanos: int) -> bool {
    min_nanos() <= nanos <= max_nanos()
}

/// Whether a length in nanoseconds can be held at all.
pub open spec fn representable(nanos: int) -> bool {
    -limit_nanos() <= nanos <= limit_nanos()
}

/// Division that rounds toward zero.
pub open spec fn trunc_div(a: int, b: int) -> int
    recommends
        b > 0,
{
    if a >= 0 {
        a / b
    } else {
        -((-a) / b)
    }
}

/// A signed span of time, counted in whole seconds and nanoseconds.
#[derive(Clone, Copy, PartialEq, Eq, Structural, PartialOrd, Ord, Hash, Debug)]
pub struct Duration {
    secs: i64,
    nanos: i32,  // 0 <= nanos < NANOS_PER_SEC; the value is secs + nanos / 10^9
}

impl View for Duration {
    type V = int;

    /// The length in nanoseconds.
    closed spec fn view(&self) -> int {
        self.secs * 1_000_000_000 + self.nanos
    }
}

impl Duration {
    /// The nanosecond part lies in `[0, 10^9)`.
    pub closed spec fn normalized(self) -> bool {
        0 <= self.nanos < 1_000_000_000
    }

    /// Well-formedness: the fields are normalized and the length can be held.
    #[verifier::type_invariant]
    pub open spec fn wf(self) -> bool {
        self.normalized() && representable(self@)
    }

    /// The one well-formed duration of a given length.
    pub closed spec fn from_nanos(n: int) -> Duration {
        Duration { secs: (n / 1_000_000_000) as i64, nanos: (n % 1_000_000_000) as i32 }
    }

    /// Two well-formed durations of the same length are the same value.
    pub proof fn lemma_view_injective(a: Duration, b: Duration)
        requires
            a.wf(),
            b.wf(),
            a@ == b@,
        ensures
            a == b,
    {
    }

    /// `from_nanos` builds a well-formed duration of the requested length.
    pub proof fn lemma_from_nanos(n: int)
        requires
            representable(n),
        ensures
            Duration::from_nanos(n).wf(),
            Duration::from_nanos(n)@ == n,
    {
    }

    /// The duration of no time.
    pub fn zero() -> (r: Duration)
        ensures
            r@ == 0,
    {
        Duration { secs: 0, nanos: 0 }
    }

    /// The shortest duration that arithmetic produces: `i64::MIN` milliseconds.
    pub fn min_value() -> (r: Duration)
        ensures
            r@ == min_nanos(),
    {
        Duration { secs: -9_223_372_036_854_776, nanos: 192_000_000 }
    }

    /// The longest duration that arithmetic produces: `i64::MAX` milliseconds.
    pub fn max_value() -> (r: Duration)
        ensures
            r@ == max_nanos(),
    {
        Duration { secs: 9_223_372_036_854_775, nanos: 807_000_000 }
    }

    /// A duration of whole seconds. The count must not exceed
    /// [`MAX_SECONDS`] in magnitude.
    pub fn seconds(seconds: i64) -> (r: Duration)
        requires
            -MAX_SECONDS <= seconds <= MAX_SECONDS,
        ensures
            r@ == seconds * 1_000_000_000,
    {
        Duration { secs: seconds, nanos: 0 }
    }

    /// A duration of whole days. The equivalent count of seconds must not
    /// exceed [`MAX_SECONDS`] in magnitude.
    pub fn days(days: i64) -> (r: Duration)
        requires
            -MAX_SECONDS <= days * 86_400 <= MAX_SECONDS,
        ensures
            r@ == days * nanos_per_day(),
    {
        let secs: i64 = days * SECS_PER_DAY;
        Duration { secs, nanos: 0 }
    }

    /// A duration of whole milliseconds.
    pub fn milliseconds(milliseconds: i64) -> (r: Duration)
        ensures
            r@ == milliseconds * 1_000_000,
    {
        let (secs, millis) = floor_div_mod(milliseconds, 1_000);
        Duration { secs, nanos: (millis * NANOS_PER_MILLI) as i32 }
    }

    /// A duration of whole microseconds.
    pub fn microseconds(microseconds: i64) -> (r: Duration)
        ensures
            r@ == microseconds * 1_000,
    {
        let (secs, micros) = floor_div_mod(microseconds, 1_000_000);
        Duration { secs, nanos: (micros * NANOS_PER_MICRO) as i32 }
    }

    /// A duration of nanoseconds.
    pub fn nanoseconds(nanos: i64) -> (r: Duration)
        ensures
            r@ == nanos,
    {
        let (secs, nanos) = floor_div_mod(nanos, NANOS_PER_SEC);
        Duration { secs, nanos: nanos as i32 }
    }

    /// Whether the duration is zero.
    pub fn is_zero(&self) -> (r: bool)
        ensures
            r == (self@ == 0),
    {
        proof {
            use_type_invariant(self);
        }
        self.secs == 0 && self.nanos == 0
    }

    /// The number of whole seconds, rounded toward zero.
    pub fn num_seconds(&self) -> (r: i64)
        ensures
            r == trunc_div(self@, 1_000_000_000),
    {
        proof {
            use_type_invariant(self);
        }
        if self.secs < 0 && self.nanos > 0 {
            self.secs + 1
        } else {
            self.secs
        }
    }

    /// The number of whole days, rounded toward zero.
    pub fn num_days(&self) -> (r: i64)
        ensures
            r == trunc_div(self@, nanos_per_day()),
    {
        let secs = self.num_seconds();
        proof {
            use_type_invariant(self);
        }
        secs / SECS_PER_DAY
    }

    /// The whole seconds, rounded toward negative infinity, and the
    /// nanoseconds above them.
    pub(crate) fn floor_parts(&self) -> (r: (i64, i32))
        ensures
            r.0 == self@ / 1_000_000_000,
            r.1 == self@ % 1_000_000_000,
            -9_223_372_036_854_776 <= r.0 <= 9_223_372_036_854_775,
            0 <= r.1 < 1_000_000_000,
    {
        proof {
            use_type_invariant(self);
        }
        (self.secs, self.nanos)
    }

    /// The part of the duration below one second, with the sign of the
    /// duration: what is left after `num_seconds` whole seconds.
    fn subsec_nanos(&self) -> (r: i64)
        ensures
            r == self@ - trunc_div(self@, 1_000_000_000) * 1_000_000_000,
            -1_000_000_000 < r < 1_000_000_000,
    {
        proof {
            use_type_invariant(self);
        }
        if self.secs < 0 && self.nanos > 0 {
            self.nanos as i64 - NANOS_PER_SEC
        } else {
            self.nanos as i64
        }
    }

    /// The number of whole microseconds, rounded toward zero, or `None` when
    /// that number does not fit in an `i64`.
    pub fn num_microseconds(&self) -> (r: Option<i64>)
        ensures
            r == (if i64::MIN <= trunc_div(self@, 1_000) <= i64::MAX {
                Some(trunc_div(self@, 1_000) as i64)
            } else {
                None
            }),
    {
        let secs = self.num_seconds();
        let sub = self.subsec_nanos();
        let micros = sub / NANOS_PER_MICRO;
        match secs.checked_mul(1_000_000) {
            Some(secs_part) => secs_part.checked_add(micros),
            None => None,
        }
    }

    /// The length in nanoseconds, or `None` when it does not fit in an `i64`.
    pub fn num_nanoseconds(&self) -> (r: Option<i64>)
        ensures
            r == (if i64::MIN <= self@ <= i64::MAX {
                Some(self@ as i64)
            } else {
                None
            }),
    {
        let secs = self.num_seconds();
        let sub = self.subsec_nanos();
        match secs.checked_mul(NANOS_PER_SEC) {
            Some(secs_part) => secs_part.checked_add(sub),
            None => None,
        }
    }

    /// The sum of two durations, or `None` when it is out of bounds.
    pub fn checked_add(&self, rhs: &Duration) -> (r: Option<Duration>)
        ensures
            match r {
                Some(d) => in_bounds(self@ + rhs@) && d@ == self@ + rhs@,
                None => !in_bounds(self@ + rhs@),
            },
    {
        proof {
            use_type_invariant(self);
            use_type_invariant(rhs);
        }
        let mut secs: i64 = self.secs + rhs.secs;
        let mut nanos: i32 = self.nanos + rhs.nanos;
        if nanos >= 1_000_000_000 {
            nanos -= 1_000_000_000;
            secs += 1;
        }
        if fits_bounds(secs, nanos) {
            Some(Duration { secs, nanos })
        } else {
            None
        }
    }

    /// The difference of two durations, or `None` when it is out of bounds.
    pub fn checked_sub(&self, rhs: &Duration) -> (r: Option<Duration>)
        ensures
            match r {
                Some(d) => in_bounds(self@ - rhs@) && d@ == self@ - rhs@,
                None => !in_bounds(self@ - rhs@),
            },
    {
        proof {
            use_type_invariant(self);
            use_type_invariant(rhs);
        }
        let mut secs: i64 = self.secs - rhs.secs;
        let mut nanos: i32 = self.nanos - rhs.nanos;
        if nanos < 0 {
            nanos += 1_000_000_000;
            secs -= 1;
        }
        if fits_bounds(secs, nanos) {
            Some(Duration { secs, nanos })
        } else {
            None
        }
    }
}

/// Whether `secs` seconds and `nanos` nanoseconds lie between the shortest
/// and the longest duration.
fn fits_bounds(secs: i64, nanos: i32) -> (r: bool)
    requires
        0 <= nanos < 1_000_000_000,
    ensures
        r == in_bounds(secs * 1_000_000_000 + nanos),
{
    let below = secs < -9_223_372_036_854_776 || (secs == -9_223_372_036_854_776 && nanos
        < 192_000_000);
    let above = secs > 9_223_372_036_854_775 || (secs == 9_223_372_036_854_775 && nanos
        > 807_000_000);
    !below && !above
}

impl core::ops::Neg for Duration {
    type Output = Duration;

    /// The duration of the same length in the other direction.
    fn neg(self) -> (r: Duration) {
        proof {
            use_type_invariant(self);
        }
        if self.nanos == 0 {
            Duration { secs: -self.secs, nanos: 0 }
        } else {
            Duration { secs: -self.secs - 1, nanos: 1_000_000_000 - self.nanos }
        }
    }
}

impl NegSpecImpl for Duration {
    open spec fn obeys_neg_spec() -> bool {
        true
    }

    open spec fn neg_req(self) -> bool {
        true
    }

    open spec fn neg_spec(self) -> Duration {
        Duration::from_nanos(-self@)
    }
}

impl core::ops::Add for Duration {
    type Output = Duration;

    /// The sum of two durations. It must be representable.
    fn add(self, rhs: Duration) -> (r: Duration) {
        proof {
            use_type_invariant(self);
            use_type_invariant(rhs);
        }
        let mut secs: i64 = self.secs + rhs.secs;
        let mut nanos: i32 = self.nanos + rhs.nanos;
        if nanos >= 1_000_000_000 {
            nanos -= 1_000_000_000;
            secs += 1;
        }
        Duration { secs, nanos }
    }
}

impl AddSpecImpl for Duration {
    open spec fn obeys_add_spec() -> bool {
        true
    }

    open spec fn add_req(self, rhs: Duration) -> bool {
        representable(self@ + rhs@)
    }

    open spec fn add_spec(self, rhs: Duration) -> Duration {
        Duration::from_nanos(self@ + rhs@)
    }
}

impl core::ops::Sub for Duration {
    type Output = Duration;

    /// The difference of two durations. It must be representable.
    fn sub(self, rhs: Duration) -> (r: Duration) {
        proof {
            use_type_invariant(self);
            use_type_invariant(rhs);
        }
        let mut secs: i64 = self.secs - rhs.secs;
        let mut nanos: i32 = self.nanos - rhs.nanos;
        if nanos < 0 {
            nanos += 1_000_000_000;
            secs -= 1;
        }
        Duration { secs, nanos }
    }
}

impl SubSpecImpl for Duration {
    open spec fn obeys_sub_spec() -> bool {
        true
    }

    open spec fn sub_req(self, rhs: Duration) -> bool {
        representable(self@ - rhs@)
    }

    open spec fn sub_spec(self, rhs: Duration) -> Duration {
        Duration::from_nanos(self@ - rhs@)
    }
}

} // verus!
