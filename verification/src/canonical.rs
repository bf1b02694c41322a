//! The canonical text of dates, times of day and dates with times.
//!
//! A date is written `YYYY-MM-DD`, with a sign and more digits where the
//! year has no four-digit form. A time of day is written `HH:MM:SS`,
//! followed by a point and three, six or nine digits where it has a
//! fraction; the seconds of a leap second are one more than those of the
//! second before it. A date with a time is the two joined by `T`.

use vstd::prelude::*;
use crate::calendar::{
    day_of_days, days_from_ymd, lemma_fields_of_days, month_of_days, valid_year, valid_ymd,
    year_of_days,
};
use crate::date::NaiveDate;
use crate::datetime::{DateTimeModel, NaiveDateTime};
use crate::scan::{
    fraction_scale, lemma_decimal_value_push, lemma_digit_run_bound, read_char,
    read_nanosecond, read_number, read_signed, scan_char, scan_nanosecond, scan_number,
    scan_signed, skip_spaces, trim_digits, trim_start, ParseError, Scanned,
};
use crate::text::{
    all_digits, chars_of, decimal, decimal_value, digit_char, digit_run, is_digit, pow10,
    push_decimal,
};
use crate::time::{NaiveTime, TimeModel};

verus! {

/// The text of a year: four digits for the years 0 to 9999, and a sign
/// followed by four digits or more for any other year.
pub open spec fn year_text(year: int) -> Seq<char> {
    if 0 <= year <= 9999 {
        decimal(year as nat, 4)
    } else if year < 0 {
        seq!['-'] + decimal((-year) as nat, 4)
    } else {
        seq!['+'] + decimal(year as nat, 4)
    }
}

/// The text of a date, by its day number.
pub open spec fn date_text(days: int) -> Seq<char> {
    year_text(year_of_days(days)) + seq!['-'] + decimal(month_of_days(days) as nat, 2) + seq!['-']
        + decimal(day_of_days(days) as nat, 2)
}

/// The text of the fraction of a second: nothing where there is none, else a
/// point and the milliseconds, microseconds or nanoseconds, whichever is the
/// shortest that loses nothing.
pub open spec fn fraction_text(nano: int) -> Seq<char> {
    if nano == 0 {
        Seq::<char>::empty()
    } else if nano % 1_000_000 == 0 {
        seq!['.'] + decimal((nano / 1_000_000) as nat, 3)
    } else if nano % 1_000 == 0 {
        seq!['.'] + decimal((nano / 1_000) as nat, 6)
    } else {
        seq!['.'] + decimal(nano as nat, 9)
    }
}

/// The seconds that the text of a time of day shows: in a leap second, one
/// more than the second before it.
pub open spec fn shown_second(time: TimeModel) -> int {
    if time.is_leap() {
        time.second() + 1
    } else {
        time.second()
    }
}

/// The nanoseconds that the text of a time of day shows: in a leap second,
/// those since the leap second started.
pub open spec fn shown_nano(time: TimeModel) -> int {
    if time.is_leap() {
        time.frac - 1_000_000_000
    } else {
        time.frac
    }
}

/// The text of a time of day.
pub open spec fn time_text(time: TimeModel) -> Seq<char> {
    decimal(time.hour() as nat, 2) + seq![':'] + decimal(time.minute() as nat, 2) + seq![':']
        + decimal(shown_second(time) as nat, 2) + fraction_text(shown_nano(time))
}

/// The canonical text of a date with a time: the two texts joined by `T`.
pub open spec fn datetime_text(datetime: DateTimeModel) -> Seq<char> {
    date_text(datetime.date) + seq!['T'] + time_text(datetime.time)
}

/// The text of a date with a time for display: the two texts with a blank
/// between them.
pub open spec fn datetime_display_text(datetime: DateTimeModel) -> Seq<char> {
    date_text(datetime.date) + seq![' '] + time_text(datetime.time)
}

/// Writes the text of a date at the end of a text.
fn push_date(out: &mut String, date: &NaiveDate)
    ensures
        final(out)@ == old(out)@ + date_text(date@),
{
    let (year, month, day) = date.ymd();
    proof {
        reveal_strlit("-");
        reveal_strlit("+");
    }
    if 0 <= year && year <= 9999 {
        push_decimal(out, year as u64, 4);
    } else if year < 0 {
        out.append("-");
        push_decimal(out, (-year) as u64, 4);
    } else {
        out.append("+");
        push_decimal(out, year as u64, 4);
    }
    assert(out@ =~= old(out)@ + year_text(year as int));
    out.append("-");
    push_decimal(out, month as u64, 2);
    out.append("-");
    push_decimal(out, day as u64, 2);
    assert(out@ =~= old(out)@ + date_text(date@));
}

/// Writes the text of a time of day at the end of a text.
fn push_time(out: &mut String, time: &NaiveTime)
    ensures
        final(out)@ == old(out)@ + time_text(time@),
{
    let hour = time.hour();
    let minute = time.minute();
    let frac = time.nanosecond();
    let (sec, nano) = if frac >= 1_000_000_000 {
        (time.second() + 1, frac - 1_000_000_000)
    } else {
        (time.second(), frac)
    };
    proof {
        reveal_strlit(":");
        reveal_strlit(".");
    }
    push_decimal(out, hour as u64, 2);
    out.append(":");
    push_decimal(out, minute as u64, 2);
    out.append(":");
    push_decimal(out, sec as u64, 2);
    let ghost shown = out@;
    if nano == 0 {
    } else if nano % 1_000_000 == 0 {
        out.append(".");
        push_decimal(out, (nano / 1_000_000) as u64, 3);
    } else if nano % 1_000 == 0 {
        out.append(".");
        push_decimal(out, (nano / 1_000) as u64, 6);
    } else {
        out.append(".");
        push_decimal(out, nano as u64, 9);
    }
    assert(out@ =~= shown + fraction_text(nano as int));
    assert(out@ =~= old(out)@ + time_text(time@));
}

impl NaiveDate {
    /// The text of the date: `YYYY-MM-DD`, with a sign and more digits where
    /// the year has no four-digit form.
    pub fn to_string(&self) -> (r: String)
        ensures
            r@ == date_text(self@),
    {
        let mut out = String::new();
        push_date(&mut out, self);
        assert(out@ =~= date_text(self@));
        out
    }
}

impl NaiveTime {
    /// The text of the time of day: `HH:MM:SS`, followed by a point and
    /// three, six or nine digits where it has a fraction.
    pub fn to_string(&self) -> (r: String)
        ensures
            r@ == time_text(self@),
    {
        let mut out = String::new();
        push_time(&mut out, self);
        assert(out@ =~= time_text(self@));
        out
    }
}

impl NaiveDateTime {
    /// The canonical text of the date and time: the text of the date, `T`,
    /// and the text of the time of day. `from_str` reads it back.
    pub fn to_canonical_string(&self) -> (r: String)
        ensures
            r@ == datetime_text(self@),
    {
        let mut out = String::new();
        proof {
            reveal_strlit("T");
        }
        push_date(&mut out, &self.date());
        out.append("T");
        push_time(&mut out, &self.time());
        assert(out@ =~= datetime_text(self@));
        out
    }

    /// The text of the date and time for display: the text of the date, a
    /// blank, and the text of the time of day.
    pub fn to_string(&self) -> (r: String)
        ensures
            r@ == datetime_display_text(self@),
    {
        let mut out = String::new();
        proof {
            reveal_strlit(" ");
        }
        push_date(&mut out, &self.date());
        out.append(" ");
        push_time(&mut out, &self.time());
        assert(out@ =~= datetime_display_text(self@));
        out
    }
}

/// The numbers that the text of a date holds, and what follows them.
pub struct DateFields {
    /// The year.
    pub year: int,
    /// The month.
    pub month: int,
    /// The day of the month.
    pub day: int,
    /// What is left to read.
    pub rest: Seq<char>,
}

/// The numbers that the text of a time of day holds, and what follows them.
pub struct TimeFields {
    /// The hour.
    pub hour: int,
    /// The minute.
    pub minute: int,
    /// The second, 60 for a leap second.
    pub second: int,
    /// The nanoseconds, where the text has a fraction.
    pub nanosecond: Option<int>,
    /// What is left to read.
    pub rest: Seq<char>,
}

/// Reads a number of at most `width` digits that white space may precede.
pub open spec fn scan_field(s: Seq<char>, width: nat) -> Result<Scanned, ParseError> {
    scan_number(trim_start(s), 1, width)
}

/// Reads a given character that white space may precede.
pub open spec fn scan_mark(s: Seq<char>, c: char) -> Result<Seq<char>, ParseError> {
    scan_char(trim_start(s), c)
}

/// Reads a year, a month and a day with `-` between them. White space may
/// stand before each of the five. The year may carry a sign, and then has
/// any number of digits; without one it has at most four. It must fit in an
/// `i32`.
pub open spec fn scan_date(s: Seq<char>) -> Result<DateFields, ParseError> {
    match scan_signed(trim_start(s), 4) {
        Err(e) => Err(e),
        Ok(year) => if !(i32::MIN <= year.value <= i32::MAX) {
            Err(ParseError::OutOfRange)
        } else {
            match scan_mark(year.rest, '-') {
                Err(e) => Err(e),
                Ok(rest) => match scan_field(rest, 2) {
                    Err(e) => Err(e),
                    Ok(month) => match scan_mark(month.rest, '-') {
                        Err(e) => Err(e),
                        Ok(rest) => match scan_field(rest, 2) {
                            Err(e) => Err(e),
                            Ok(day) => Ok(
                                DateFields {
                                    year: year.value,
                                    month: month.value,
                                    day: day.value,
                                    rest: day.rest,
                                },
                            ),
                        },
                    },
                },
            }
        },
    }
}

/// Reads the fraction of a second, if the text goes on with a point.
pub open spec fn scan_fraction(s: Seq<char>) -> Result<(Option<int>, Seq<char>), ParseError> {
    if s.len() > 0 && s[0] == '.' {
        match scan_nanosecond(s.drop_first()) {
            Err(e) => Err(e),
            Ok(nano) => Ok((Some(nano.value), nano.rest)),
        }
    } else {
        Ok((None, s))
    }
}

/// Reads an hour, a minute and a second with `:` between them, and a
/// fraction of a second if one follows at once. White space may stand before
/// each of the first five.
pub open spec fn scan_time(s: Seq<char>) -> Result<TimeFields, ParseError> {
    match scan_field(s, 2) {
        Err(e) => Err(e),
        Ok(hour) => match scan_mark(hour.rest, ':') {
            Err(e) => Err(e),
            Ok(rest) => match scan_field(rest, 2) {
                Err(e) => Err(e),
                Ok(minute) => match scan_mark(minute.rest, ':') {
                    Err(e) => Err(e),
                    Ok(rest) => match scan_field(rest, 2) {
                        Err(e) => Err(e),
                        Ok(second) => match scan_fraction(second.rest) {
                            Err(e) => Err(e),
                            Ok((nanosecond, rest)) => Ok(
                                TimeFields {
                                    hour: hour.value,
                                    minute: minute.value,
                                    second: second.value,
                                    nanosecond,
                                    rest,
                                },
                            ),
                        },
                    },
                },
            },
        },
    }
}

/// The day number that a year, a month and a day name, or `OutOfRange` when
/// there is no such date.
pub open spec fn resolve_date(year: int, month: int, day: int) -> Result<int, ParseError> {
    if valid_ymd(year, month, day) {
        Ok(days_from_ymd(year, month, day))
    } else {
        Err(ParseError::OutOfRange)
    }
}

/// The time of day that an hour, a minute, a second and nanoseconds name, or
/// `OutOfRange` when there is no such time. A second of 60 names the leap
/// second after second 59.
pub open spec fn resolve_time(
    hour: int,
    minute: int,
    second: int,
    nanosecond: Option<int>,
) -> Result<TimeModel, ParseError> {
    let nano: int = match nanosecond {
        Some(n) => n,
        None => 0,
    };
    if !(0 <= hour < 24 && 0 <= minute < 60 && 0 <= second <= 60 && 0 <= nano < 1_000_000_000) {
        Err(ParseError::OutOfRange)
    } else if second == 60 {
        Ok(TimeModel { secs: hour * 3_600 + minute * 60 + 59, frac: 1_000_000_000 + nano })
    } else {
        Ok(TimeModel { secs: hour * 3_600 + minute * 60 + second, frac: nano })
    }
}

/// The date and time that a canonical text names.
///
/// The text holds a date, `T` and a time of day, with white space allowed
/// around each number and mark but not before the fraction. It fails with
/// the error of the first part that cannot be read, with `TooLong` where
/// anything but white space follows, and with `OutOfRange` where the
/// numbers name no date or no time.
pub open spec fn parse_datetime(s: Seq<char>) -> Result<DateTimeModel, ParseError> {
    match scan_date(s) {
        Err(e) => Err(e),
        Ok(date) => match scan_mark(date.rest, 'T') {
            Err(e) => Err(e),
            Ok(rest) => match scan_time(rest) {
                Err(e) => Err(e),
                Ok(time) => if trim_start(time.rest).len() > 0 {
                    Err(ParseError::TooLong)
                } else {
                    match resolve_date(date.year, date.month, date.day) {
                        Err(e) => Err(e),
                        Ok(days) => match resolve_time(
                            time.hour,
                            time.minute,
                            time.second,
                            time.nanosecond,
                        ) {
                            Err(e) => Err(e),
                            Ok(time) => Ok(DateTimeModel { date: days, time }),
                        },
                    }
                },
            },
        },
    }
}

/// Reads a number of at most `width` digits that white space may precede,
/// from a position.
fn read_field(v: &Vec<char>, pos: usize, width: usize) -> (r: Result<(u32, usize), ParseError>)
    requires
        pos <= v.len(),
        width <= 9,
    ensures
        match r {
            Ok((value, next)) => pos <= next <= v.len() && scan_field(
                v@.skip(pos as int),
                width as nat,
            ) == Ok::<Scanned, ParseError>(
                Scanned { value: value as int, rest: v@.skip(next as int) },
            ),
            Err(e) => scan_field(v@.skip(pos as int), width as nat) == Err::<Scanned, ParseError>(
                e,
            ),
        },
{
    let start = skip_spaces(v, pos);
    match read_number(v, start, 1, width) {
        Ok((value, next)) => {
            proof {
                let s = v@.skip(start as int);
                let n = crate::text::digit_run(s, width as nat);
                crate::scan::lemma_digit_run_bound(s, width as nat);
                crate::scan::lemma_digit_run_digits(s, width as nat);
                crate::scan::lemma_decimal_value_bound(s.take(n as int));
                reveal_with_fuel(pow10, 10);
            }
            Ok((value as u32, next))
        },
        Err(e) => Err(e),
    }
}

/// Reads a given character that white space may precede, from a position.
fn read_mark(v: &Vec<char>, pos: usize, c: char) -> (r: Result<usize, ParseError>)
    requires
        pos <= v.len(),
    ensures
        match r {
            Ok(next) => pos <= next <= v.len() && scan_mark(v@.skip(pos as int), c) == Ok::<
                Seq<char>,
                ParseError,
            >(v@.skip(next as int)),
            Err(e) => scan_mark(v@.skip(pos as int), c) == Err::<Seq<char>, ParseError>(e),
        },
{
    let start = skip_spaces(v, pos);
    read_char(v, start, c)
}

/// Reads a year, a month and a day from a position.
fn read_date(v: &Vec<char>, pos: usize) -> (r: Result<(i32, u32, u32, usize), ParseError>)
    requires
        pos <= v.len(),
    ensures
        match r {
            Ok((year, month, day, next)) => pos <= next <= v.len() && scan_date(
                v@.skip(pos as int),
            ) == Ok::<DateFields, ParseError>(
                DateFields {
                    year: year as int,
                    month: month as int,
                    day: day as int,
                    rest: v@.skip(next as int),
                },
            ),
            Err(e) => scan_date(v@.skip(pos as int)) == Err::<DateFields, ParseError>(e),
        },
{
    let start = skip_spaces(v, pos);
    let (year, next) = match read_signed(v, start, 4) {
        Ok(read) => read,
        Err(e) => return Err(e),
    };
    if year < i32::MIN as i64 || year > i32::MAX as i64 {
        return Err(ParseError::OutOfRange);
    }
    let next = match read_mark(v, next, '-') {
        Ok(next) => next,
        Err(e) => return Err(e),
    };
    let (month, next) = match read_field(v, next, 2) {
        Ok(read) => read,
        Err(e) => return Err(e),
    };
    let next = match read_mark(v, next, '-') {
        Ok(next) => next,
        Err(e) => return Err(e),
    };
    let (day, next) = match read_field(v, next, 2) {
        Ok(read) => read,
        Err(e) => return Err(e),
    };
    Ok((year as i32, month, day, next))
}

/// Reads an hour, a minute, a second and a fraction from a position.
fn read_time(v: &Vec<char>, pos: usize) -> (r: Result<
    (u32, u32, u32, Option<u32>, usize),
    ParseError,
>)
    requires
        pos <= v.len(),
    ensures
        match r {
            Ok((hour, minute, second, nanosecond, next)) => pos <= next <= v.len() && scan_time(
                v@.skip(pos as int),
            ) == Ok::<TimeFields, ParseError>(
                TimeFields {
                    hour: hour as int,
                    minute: minute as int,
                    second: second as int,
                    nanosecond: match nanosecond {
                        Some(n) => Some(n as int),
                        None => None,
                    },
                    rest: v@.skip(next as int),
                },
            ) && (nanosecond matches Some(n) ==> n <= 999_999_999),
            Err(e) => scan_time(v@.skip(pos as int)) == Err::<TimeFields, ParseError>(e),
        },
{
    let (hour, next) = match read_field(v, pos, 2) {
        Ok(read) => read,
        Err(e) => return Err(e),
    };
    let next = match read_mark(v, next, ':') {
        Ok(next) => next,
        Err(e) => return Err(e),
    };
    let (minute, next) = match read_field(v, next, 2) {
        Ok(read) => read,
        Err(e) => return Err(e),
    };
    let next = match read_mark(v, next, ':') {
        Ok(next) => next,
        Err(e) => return Err(e),
    };
    let (second, next) = match read_field(v, next, 2) {
        Ok(read) => read,
        Err(e) => return Err(e),
    };
    if next < v.len() && v[next] == '.' {
        proof {
            crate::scan::lemma_skip_drop_first(v@, next as int);
        }
        match read_nanosecond(v, next + 1) {
            Ok((nano, next)) => Ok((hour, minute, second, Some(nano as u32), next)),
            Err(e) => Err(e),
        }
    } else {
        proof {
            if next < v.len() {
                crate::scan::lemma_skip_drop_first(v@, next as int);
            }
        }
        Ok((hour, minute, second, None, next))
    }
}

/// The date that a year, a month and a day name.
fn date_of_fields(year: i32, month: u32, day: u32) -> (r: Result<NaiveDate, ParseError>)
    ensures
        match r {
            Ok(date) => resolve_date(year as int, month as int, day as int) == Ok::<
                int,
                ParseError,
            >(date@),
            Err(e) => resolve_date(year as int, month as int, day as int) == Err::<int, ParseError>(
                e,
            ),
        },
{
    match NaiveDate::from_ymd_opt(year, month, day) {
        Some(date) => Ok(date),
        None => Err(ParseError::OutOfRange),
    }
}

/// The time of day that an hour, a minute, a second and nanoseconds name.
fn time_of_fields(hour: u32, minute: u32, second: u32, nanosecond: Option<u32>) -> (r: Result<
    NaiveTime,
    ParseError,
>)
    requires
        nanosecond matches Some(n) ==> n <= 999_999_999,
    ensures
        match r {
            Ok(time) => resolve_time(
                hour as int,
                minute as int,
                second as int,
                match nanosecond {
                    Some(n) => Some(n as int),
                    None => None,
                },
            ) == Ok::<TimeModel, ParseError>(time@),
            Err(e) => resolve_time(
                hour as int,
                minute as int,
                second as int,
                match nanosecond {
                    Some(n) => Some(n as int),
                    None => None,
                },
            ) == Err::<TimeModel, ParseError>(e),
        },
{
    let nano: u32 = match nanosecond {
        Some(n) => n,
        None => 0,
    };
    let (second, nano) = if second < 60 {
        (second, nano)
    } else if second == 60 {
        (59, 1_000_000_000 + nano)
    } else {
        return Err(ParseError::OutOfRange);
    };
    match NaiveTime::from_hms_nano_opt(hour, minute, second, nano) {
        Some(time) => Ok(time),
        None => Err(ParseError::OutOfRange),
    }
}

impl NaiveDateTime {
    /// Reads a date and time from its canonical text: a date, `T` and a time
    /// of day, as `to_canonical_string` writes them. White space may stand
    /// around the numbers and marks, fields may have fewer digits, and a
    /// second of 60 names a leap second.
    pub fn from_str(s: &str) -> (r: Result<NaiveDateTime, ParseError>)
        ensures
            match r {
                Ok(datetime) => parse_datetime(s@) == Ok::<DateTimeModel, ParseError>(datetime@),
                Err(e) => parse_datetime(s@) == Err::<DateTimeModel, ParseError>(e),
            },
    {
        let v = chars_of(s);
        assert(v@.skip(0) =~= s@);
        let (year, month, day, next) = match read_date(&v, 0) {
            Ok(read) => read,
            Err(e) => return Err(e),
        };
        let next = match read_mark(&v, next, 'T') {
            Ok(next) => next,
            Err(e) => return Err(e),
        };
        let (hour, minute, second, nanosecond, next) = match read_time(&v, next) {
            Ok(read) => read,
            Err(e) => return Err(e),
        };
        let end = skip_spaces(&v, next);
        if end < v.len() {
            return Err(ParseError::TooLong);
        }
        let date = match date_of_fields(year, month, day) {
            Ok(date) => date,
            Err(e) => return Err(e),
        };
        let time = match time_of_fields(hour, minute, second, nanosecond) {
            Ok(time) => time,
            Err(e) => return Err(e),
        };
        Ok(NaiveDateTime::new(date, time))
    }
}

impl core::str::FromStr for NaiveDateTime {
    type Err = ParseError;

    fn from_str(s: &str) -> (r: Result<NaiveDateTime, ParseError>)
        ensures
            match r {
                Ok(datetime) => parse_datetime(s@) == Ok::<DateTimeModel, ParseError>(datetime@),
                Err(e) => parse_datetime(s@) == Err::<DateTimeModel, ParseError>(e),
            },
    {
        NaiveDateTime::from_str(s)
    }
}

/// The decimal digits of a number are digits, at least as many as asked
/// for and exactly as many where the number has no more, and they stand for
/// the number.
pub proof fn lemma_decimal(n: nat, width: nat)
    ensures
        decimal(n, width).len() >= 1,
        decimal(n, width).len() >= width,
        all_digits(decimal(n, width)),
        decimal_value(decimal(n, width)) == n,
        width >= 1 && n < pow10(width) ==> decimal(n, width).len() == width,
    decreases n, width,
{
    if n < 10 && width <= 1 {
        let c = digit_char(n as int);
        assert(decimal(n, width) =~= Seq::<char>::empty().push(c));
        lemma_decimal_value_push(Seq::<char>::empty(), c);
        reveal_with_fuel(pow10, 2);
    } else {
        let rest: nat = if width > 0 {
            (width - 1) as nat
        } else {
            0
        };
        lemma_decimal(n / 10, rest);
        let c = digit_char((n % 10) as int);
        lemma_decimal_value_push(decimal(n / 10, rest), c);
    }
}

/// A run of digits that ends where the limit, the text or another
/// character ends it is read whole.
pub proof fn lemma_digit_run_prefix(digits: Seq<char>, rest: Seq<char>, limit: nat)
    requires
        all_digits(digits),
        digits.len() <= limit,
        digits.len() == limit || rest.len() == 0 || !is_digit(rest[0]),
    ensures
        digit_run(digits + rest, limit) == digits.len(),
    decreases digits.len(),
{
    if digits.len() == 0 {
        assert(digits + rest =~= rest);
    } else {
        assert((digits + rest).drop_first() =~= digits.drop_first() + rest);
        assert(is_digit(digits[0]));
        assert(all_digits(digits.drop_first())) by {
            assert forall|i: int| 0 <= i < digits.drop_first().len() implies is_digit(
                #[trigger] digits.drop_first()[i],
            ) by {
                assert(digits.drop_first()[i] == digits[i + 1]);
            }
        }
        lemma_digit_run_prefix(digits.drop_first(), rest, (limit - 1) as nat);
    }
}

/// Reading a number from its own digits gives the number and leaves what
/// follows the digits.
pub proof fn lemma_scan_decimal(n: nat, width: nat, rest: Seq<char>, limit: nat)
    requires
        n <= i64::MAX,
        decimal(n, width).len() <= limit,
        decimal(n, width).len() == limit || rest.len() == 0 || !is_digit(rest[0]),
    ensures
        scan_number(decimal(n, width) + rest, 1, limit) == Ok::<Scanned, ParseError>(
            Scanned { value: n as int, rest },
        ),
{
    let digits = decimal(n, width);
    lemma_decimal(n, width);
    lemma_digit_run_prefix(digits, rest, limit);
    assert((digits + rest).take(digits.len() as int) =~= digits);
    assert((digits + rest).skip(digits.len() as int) =~= rest);
}

/// Reading a number of one or two digits from its two digits gives the
/// number.
pub proof fn lemma_scan_field(n: int, rest: Seq<char>)
    requires
        0 <= n < 100,
    ensures
        scan_field(decimal(n as nat, 2) + rest, 2) == Ok::<Scanned, ParseError>(
            Scanned { value: n, rest },
        ),
{
    let digits = decimal(n as nat, 2);
    lemma_decimal(n as nat, 2);
    reveal_with_fuel(pow10, 3);
    assert(is_digit(digits[0]));
    assert((digits + rest)[0] == digits[0]);
    lemma_scan_decimal(n as nat, 2, rest, 2);
}

/// Reading a mark from a text that starts with it leaves what follows.
pub proof fn lemma_scan_mark(c: char, rest: Seq<char>)
    requires
        !crate::scan::is_space(c),
    ensures
        scan_mark(seq![c] + rest, c) == Ok::<Seq<char>, ParseError>(rest),
{
    let s = seq![c] + rest;
    assert(s[0] == c);
    assert(s.drop_first() =~= rest);
}

/// Reading a year from its text gives the year.
pub proof fn lemma_scan_year(year: int, rest: Seq<char>)
    requires
        valid_year(year),
        rest.len() > 0,
        !is_digit(rest[0]),
    ensures
        scan_signed(trim_start(year_text(year) + rest), 4) == Ok::<Scanned, ParseError>(
            Scanned { value: year, rest },
        ),
{
    let s = year_text(year) + rest;
    if 0 <= year <= 9999 {
        let digits = decimal(year as nat, 4);
        lemma_decimal(year as nat, 4);
        reveal_with_fuel(pow10, 5);
        assert(is_digit(digits[0]));
        assert(s[0] == digits[0]);
        lemma_scan_decimal(year as nat, 4, rest, 4);
    } else {
        let size: nat = if year < 0 {
            (-year) as nat
        } else {
            year as nat
        };
        let digits = decimal(size, 4);
        lemma_decimal(size, 4);
        let sign = if year < 0 {
            '-'
        } else {
            '+'
        };
        assert(s[0] == sign);
        assert(s.drop_first() =~= digits + rest);
        lemma_scan_decimal(size, 4, rest, s.len());
    }
}

/// Reading a date from its text gives its year, month and day.
pub proof fn lemma_scan_date(year: int, month: int, day: int, rest: Seq<char>)
    requires
        valid_year(year),
        0 <= month < 100,
        0 <= day < 100,
    ensures
        scan_date(
            year_text(year) + seq!['-'] + decimal(month as nat, 2) + seq!['-'] + decimal(
                day as nat,
                2,
            ) + rest,
        ) == Ok::<DateFields, ParseError>(DateFields { year, month, day, rest }),
{
    let r4 = decimal(day as nat, 2) + rest;
    let r3 = seq!['-'] + r4;
    let r2 = decimal(month as nat, 2) + r3;
    let r1 = seq!['-'] + r2;
    let s = year_text(year) + seq!['-'] + decimal(month as nat, 2) + seq!['-'] + decimal(
        day as nat,
        2,
    ) + rest;
    assert(s =~= year_text(year) + r1);
    assert(r1[0] == '-');
    lemma_scan_year(year, r1);
    lemma_scan_mark('-', r2);
    lemma_scan_field(month, r3);
    lemma_scan_mark('-', r4);
    lemma_scan_field(day, rest);
}

/// Reading a fraction from its text gives its nanoseconds and leaves
/// nothing.
pub proof fn lemma_scan_fraction(nano: int)
    requires
        0 <= nano < 1_000_000_000,
    ensures
        scan_fraction(fraction_text(nano)) == Ok::<(Option<int>, Seq<char>), ParseError>(
            (
                if nano == 0 {
                    None
                } else {
                    Some(nano)
                },
                Seq::<char>::empty(),
            ),
        ),
{
    let none = Seq::<char>::empty();
    if nano == 0 {
    } else {
        let (value, width): (nat, nat) = if nano % 1_000_000 == 0 {
            ((nano / 1_000_000) as nat, 3)
        } else if nano % 1_000 == 0 {
            ((nano / 1_000) as nat, 6)
        } else {
            (nano as nat, 9)
        };
        let digits = decimal(value, width);
        let s = fraction_text(nano);
        assert(s == seq!['.'] + digits);
        assert(s[0] == '.');
        assert(s.drop_first() =~= digits);
        assert(digits =~= digits + none);
        lemma_decimal(value, width);
        reveal_with_fuel(pow10, 10);
        lemma_scan_decimal(value, width, none, 9);
        crate::canonical::lemma_digit_run_prefix(digits, none, 9);
        assert(trim_digits(none) =~= none);
        assert(value * fraction_scale(width as int) == nano);
    }
}

/// Reading a time of day from its text gives its hour, its minute, the
/// second and the nanoseconds that the text shows, and leaves nothing.
pub proof fn lemma_scan_time(hour: int, minute: int, second: int, nano: int)
    requires
        0 <= hour < 100,
        0 <= minute < 100,
        0 <= second < 100,
        0 <= nano < 1_000_000_000,
    ensures
        scan_time(
            decimal(hour as nat, 2) + seq![':'] + decimal(minute as nat, 2) + seq![':'] + decimal(
                second as nat,
                2,
            ) + fraction_text(nano),
        ) == Ok::<TimeFields, ParseError>(
            TimeFields {
                hour,
                minute,
                second,
                nanosecond: if nano == 0 {
                    None
                } else {
                    Some(nano)
                },
                rest: Seq::<char>::empty(),
            },
        ),
{
    let r5 = fraction_text(nano);
    let r4 = decimal(second as nat, 2) + r5;
    let r3 = seq![':'] + r4;
    let r2 = decimal(minute as nat, 2) + r3;
    let r1 = seq![':'] + r2;
    let s = decimal(hour as nat, 2) + seq![':'] + decimal(minute as nat, 2) + seq![':'] + decimal(
        second as nat,
        2,
    ) + fraction_text(nano);
    assert(s =~= decimal(hour as nat, 2) + r1);
    lemma_scan_field(hour, r1);
    lemma_scan_mark(':', r2);
    lemma_scan_field(minute, r3);
    lemma_scan_mark(':', r4);
    lemma_scan_field(second, r5);
    lemma_scan_fraction(nano);
}

/// Whether the canonical text of a date and time names it. It does for
/// every time outside a leap second, and for the leap second that follows
/// second 59 of a minute. The text of any other leap second shows the
/// second after it.
pub open spec fn text_names(datetime: DateTimeModel) -> bool {
    !datetime.time.is_leap() || datetime.time.second() == 59
}

/// The date and time that the canonical text of a date and time names: the
/// date and time itself wherever `text_names` holds, and else the time one
/// second later without its leap second.
pub open spec fn text_value(datetime: DateTimeModel) -> DateTimeModel {
    if text_names(datetime) {
        datetime
    } else {
        DateTimeModel {
            date: datetime.date,
            time: TimeModel {
                secs: datetime.time.secs + 1,
                frac: datetime.time.frac - 1_000_000_000,
            },
        }
    }
}

/// The nanoseconds that the text of a time of day holds: none where it
/// shows no fraction.
pub open spec fn shown_fraction(time: TimeModel) -> Option<int> {
    if shown_nano(time) == 0 {
        None
    } else {
        Some(shown_nano(time))
    }
}

/// Reading the canonical text of a date and time finds the numbers that the
/// text shows, and gives the date and time that they name.
pub proof fn lemma_parse_datetime_text_fields(x: NaiveDateTime)
    requires
        x.wf(),
    ensures
        parse_datetime(datetime_text(x@)) == (match resolve_date(
            year_of_days(x@.date),
            month_of_days(x@.date),
            day_of_days(x@.date),
        ) {
            Err(e) => Err(e),
            Ok(days) => match resolve_time(
                x@.time.hour(),
                x@.time.minute(),
                shown_second(x@.time),
                shown_fraction(x@.time),
            ) {
                Err(e) => Err(e),
                Ok(time) => Ok(DateTimeModel { date: days, time }),
            },
        }),
{
    let date = x@.date;
    let time = x@.time;
    lemma_fields_of_days(date);
    let year = year_of_days(date);
    let month = month_of_days(date);
    let day = day_of_days(date);
    let t2 = time_text(time);
    let t1 = seq!['T'] + t2;
    assert(datetime_text(x@) =~= year_text(year) + seq!['-'] + decimal(month as nat, 2) + seq!['-']
        + decimal(day as nat, 2) + t1);
    lemma_scan_date(year, month, day, t1);
    lemma_scan_mark('T', t2);
    lemma_scan_time(time.hour(), time.minute(), shown_second(time), shown_nano(time));
    assert(trim_start(Seq::<char>::empty()) =~= Seq::<char>::empty());
}

/// Reading the canonical text of a date and time gives the date and time
/// that the text names.
pub proof fn lemma_parse_datetime_text_value(x: NaiveDateTime)
    requires
        x.wf(),
    ensures
        parse_datetime(datetime_text(x@)) == Ok::<DateTimeModel, ParseError>(text_value(x@)),
{
    lemma_parse_datetime_text_fields(x);
    lemma_fields_of_days(x@.date);
}

/// Reading the canonical text of a date and time gives that date and time
/// back, wherever `text_names` holds.
pub proof fn lemma_parse_datetime_text(x: NaiveDateTime)
    requires
        x.wf(),
        text_names(x@),
    ensures
        parse_datetime(datetime_text(x@)) == Ok::<DateTimeModel, ParseError>(x@),
{
    lemma_parse_datetime_text_value(x);
}

/// Where `text_names` does not hold, reading the canonical text of a date
/// and time gives another date and time: one outside the leap second.
pub proof fn lemma_parse_datetime_text_leaves_leap_second(x: NaiveDateTime)
    requires
        x.wf(),
        !text_names(x@),
    ensures
        parse_datetime(datetime_text(x@)) != Ok::<DateTimeModel, ParseError>(x@),
        parse_datetime(datetime_text(x@)) matches Ok(read) && !read.time.is_leap(),
{
    lemma_parse_datetime_text_value(x);
}

} // verus!
