//! What a date and time is in a structured encoding, and how it is taken
//! back from one.
//!
//! A date and time is encoded as its canonical text. It is decoded from
//! that text, or from a bare integer, which then counts the seconds since
//! midnight of January 1, 1970. The decisions are made here; handing the
//! values to an encoder and taking them from a decoder is left to the
//! caller.

use vstd::prelude::*;
use crate::canonical::parse_datetime;
use crate::datetime::{DateTimeModel, NaiveDateTime};
use crate::scan::ParseError;

verus! {

/// Why a value that a decoder handed over is no date and time.
#[derive(Clone, Copy, PartialEq, Eq, Structural, Hash, Debug)]
pub enum VisitError {
    /// The text could not be read.
    Text(ParseError),
    /// The integer is the timestamp of no supported date.
    Timestamp(i64),
    /// The unsigned integer is the timestamp of no supported date.
    UnsignedTimestamp(u64),
}

/// The date and time that a text hands over.
pub open spec fn visited_str(value: Seq<char>) -> Result<DateTimeModel, VisitError> {
    match parse_datetime(value) {
        Ok(datetime) => Ok(datetime),
        Err(e) => Err(VisitError::Text(e)),
    }
}

/// The date and time that a signed integer hands over: the one so many
/// whole seconds after midnight of January 1, 1970.
pub open spec fn visited_i64(value: i64) -> Result<DateTimeModel, VisitError> {
    match DateTimeModel::from_timestamp(value as int, 0) {
        Some(datetime) => Ok(datetime),
        None => Err(VisitError::Timestamp(value)),
    }
}

/// The date and time that an unsigned integer hands over: the one so many
/// whole seconds after midnight of January 1, 1970. A count past the last
/// supported date is an error, however large it is.
pub open spec fn visited_u64(value: u64) -> Result<DateTimeModel, VisitError> {
    match DateTimeModel::from_timestamp(value as int, 0) {
        Some(datetime) => Ok(datetime),
        None => Err(VisitError::UnsignedTimestamp(value)),
    }
}

/// An unsigned count hands over what the signed count of the same number
/// hands over, and a count that no signed integer holds hands over nothing.
pub proof fn lemma_visited_u64(value: u64)
    ensures
        value > i64::MAX ==> visited_u64(value) == Err::<DateTimeModel, VisitError>(
            VisitError::UnsignedTimestamp(value),
        ),
        value <= i64::MAX ==> (visited_u64(value) is Ok <==> visited_i64(value as i64) is Ok),
        value <= i64::MAX && visited_u64(value) is Ok ==> visited_u64(value) == visited_i64(
            value as i64,
        ),
{
}

/// Whether a decoded result is the one that its specification names.
pub open spec fn visit_is(
    r: Result<NaiveDateTime, VisitError>,
    spec: Result<DateTimeModel, VisitError>,
) -> bool {
    match r {
        Ok(datetime) => spec == Ok::<DateTimeModel, VisitError>(datetime@),
        Err(e) => spec == Err::<DateTimeModel, VisitError>(e),
    }
}

/// Takes a date and time from what a decoder hands over.
#[derive(Clone, Copy, Debug)]
pub struct NaiveDateTimeVisitor;

impl NaiveDateTimeVisitor {
    /// What the visitor can take a date and time from, in words.
    pub fn expecting(&self) -> (r: &'static str)
        ensures
            r@ == "a formatted date and time string or a unix timestamp"@,
    {
        "a formatted date and time string or a unix timestamp"
    }

    /// Takes a date and time from its canonical text.
    pub fn visit_str(&self, value: &str) -> (r: Result<NaiveDateTime, VisitError>)
        ensures
            visit_is(r, visited_str(value@)),
    {
        match NaiveDateTime::from_str(value) {
            Ok(datetime) => Ok(datetime),
            Err(e) => Err(VisitError::Text(e)),
        }
    }

    /// Takes a date and time from a signed count of seconds since midnight
    /// of January 1, 1970.
    pub fn visit_i64(&self, value: i64) -> (r: Result<NaiveDateTime, VisitError>)
        ensures
            visit_is(r, visited_i64(value)),
    {
        match NaiveDateTime::from_timestamp_opt(value, 0) {
            Some(datetime) => Ok(datetime),
            None => Err(VisitError::Timestamp(value)),
        }
    }

    /// Takes a date and time from an unsigned count of seconds since
    /// midnight of January 1, 1970. A count that no signed integer holds is
    /// past every supported date, and is refused like any other such count.
    pub fn visit_u64(&self, value: u64) -> (r: Result<NaiveDateTime, VisitError>)
        ensures
            visit_is(r, visited_u64(value)),
    {
        if value > 0x7FFF_FFFF_FFFF_FFFF {
            return Err(VisitError::UnsignedTimestamp(value));
        }
        match NaiveDateTime::from_timestamp_opt(value as i64, 0) {
            Some(datetime) => Ok(datetime),
            None => Err(VisitError::UnsignedTimestamp(value)),
        }
    }
}

} // verus!
