//! The order of dates, times of day, and dates with times.
//!
//! Dates are ordered by day number, times of day by their seconds and then
//! their nanoseconds, and a date with a time by its date and then its time.
//! A leap second therefore comes after every time in the second before it,
//! and before the second that follows.

use core::cmp::Ordering;
use vstd::prelude::*;
use vstd::std_specs::cmp::PartialOrdSpecImpl;
use crate::date::NaiveDate;
use crate::datetime::{DateTimeModel, NaiveDateTime};
use crate::time::{NaiveTime, TimeModel};

verus! {

/// The order of two integers.
pub open spec fn int_ordering(a: int, b: int) -> Ordering {
    if a < b {
        Ordering::Less
    } else if a == b {
        Ordering::Equal
    } else {
        Ordering::Greater
    }
}

/// The order of two times of day: by seconds, then by nanoseconds.
pub open spec fn time_ordering(a: TimeModel, b: TimeModel) -> Ordering {
    if a.secs != b.secs {
        int_ordering(a.secs, b.secs)
    } else {
        int_ordering(a.frac, b.frac)
    }
}

/// The order of two dates with times: by date, then by time of day.
pub open spec fn datetime_ordering(a: DateTimeModel, b: DateTimeModel) -> Ordering {
    if a.date != b.date {
        int_ordering(a.date, b.date)
    } else {
        time_ordering(a.time, b.time)
    }
}

/// The order of two numbers.
fn order_u32(a: u32, b: u32) -> (r: Ordering)
    ensures
        a < b ==> r == Ordering::Less,
        a == b ==> r == Ordering::Equal,
        a > b ==> r == Ordering::Greater,
{
    if a < b {
        Ordering::Less
    } else if a == b {
        Ordering::Equal
    } else {
        Ordering::Greater
    }
}

/// The order of two day numbers.
fn order_i32(a: i32, b: i32) -> (r: Ordering)
    ensures
        a < b ==> r == Ordering::Less,
        a == b ==> r == Ordering::Equal,
        a > b ==> r == Ordering::Greater,
{
    if a < b {
        Ordering::Less
    } else if a == b {
        Ordering::Equal
    } else {
        Ordering::Greater
    }
}

impl PartialOrd for NaiveDate {
    fn partial_cmp(&self, other: &NaiveDate) -> (r: Option<Ordering>) {
        Some(order_i32(self.num_days_from_ce(), other.num_days_from_ce()))
    }
}

impl PartialOrdSpecImpl for NaiveDate {
    open spec fn obeys_partial_cmp_spec() -> bool {
        true
    }

    open spec fn partial_cmp_spec(&self, other: &NaiveDate) -> Option<Ordering> {
        Some(int_ordering(self@, other@))
    }
}

impl PartialOrd for NaiveTime {
    fn partial_cmp(&self, other: &NaiveTime) -> (r: Option<Ordering>) {
        let a = self.num_seconds_from_midnight();
        let b = other.num_seconds_from_midnight();
        if a != b {
            Some(order_u32(a, b))
        } else {
            Some(order_u32(self.nanosecond(), other.nanosecond()))
        }
    }
}

impl PartialOrdSpecImpl for NaiveTime {
    open spec fn obeys_partial_cmp_spec() -> bool {
        true
    }

    open spec fn partial_cmp_spec(&self, other: &NaiveTime) -> Option<Ordering> {
        Some(time_ordering(self@, other@))
    }
}

impl PartialOrd for NaiveDateTime {
    fn partial_cmp(&self, other: &NaiveDateTime) -> (r: Option<Ordering>) {
        let a = self.date().num_days_from_ce();
        let b = other.date().num_days_from_ce();
        if a != b {
            Some(order_i32(a, b))
        } else {
            self.time().partial_cmp(&other.time())
        }
    }
}

impl PartialOrdSpecImpl for NaiveDateTime {
    open spec fn obeys_partial_cmp_spec() -> bool {
        true
    }

    open spec fn partial_cmp_spec(&self, other: &NaiveDateTime) -> Option<Ordering> {
        Some(datetime_ordering(self@, other@))
    }
}

/// The order of dates with times is total: of two values one comes first,
/// or they are the same value.
pub proof fn lemma_order_total(a: NaiveDateTime, b: NaiveDateTime)
    ensures
        datetime_ordering(a@, b@) == Ordering::Equal <==> a == b,
        datetime_ordering(a@, b@) == Ordering::Less <==> datetime_ordering(b@, a@)
            == Ordering::Greater,
{
    if a@ == b@ {
        NaiveDateTime::lemma_view_injective(a, b);
    }
}

/// The order of dates with times is transitive.
pub proof fn lemma_order_transitive(a: DateTimeModel, b: DateTimeModel, c: DateTimeModel)
    requires
        datetime_ordering(a, b) == Ordering::Less,
        datetime_ordering(b, c) == Ordering::Less,
    ensures
        datetime_ordering(a, c) == Ordering::Less,
{
}

} // verus!
