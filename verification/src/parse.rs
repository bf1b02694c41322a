//! Reading a date and time after a pattern.
//!
//! The items of a pattern are read one after another from the start of a
//! text. Each takes what it stands for from the text and records it in the
//! fields. The text must end where the pattern ends.

use vstd::prelude::*;
use crate::date::Weekday;
use crate::datetime::{DateTimeModel, NaiveDateTime};
use crate::item::{items_view, numeric_width, Fixed, Item, ItemModel, Numeric};
use crate::names::{
    read_ampm, read_long_month, read_long_weekday, read_offset, read_offset_zulu,
    read_short_month, read_short_weekday, scan_ampm, scan_long_month, scan_long_weekday,
    scan_offset, scan_offset_zulu, scan_short_month, scan_short_weekday, utf8_len, width, Colon,
};
use crate::parsed::Parsed;
use crate::scan::{
    lemma_digit_run_limit, lemma_skip_drop_first, lemma_skip_skip, read_char, read_nanosecond,
    read_number, read_signed, scan_char, scan_nanosecond, scan_number, scan_signed, skip_spaces,
    trim_start, ParseError, Scanned,
};
use crate::strftime::{pattern_items, strftime_items};
use crate::text::chars_of;

verus! {

/// The fields after an item was read, and what is left to read.
pub struct Step {
    /// The fields.
    pub parsed: Parsed,
    /// What is left to read.
    pub rest: Seq<char>,
}

/// Whether a text starts with a given text.
pub open spec fn is_prefix(prefix: Seq<char>, s: Seq<char>) -> bool {
    prefix.len() <= s.len() && forall|i: int| 0 <= i < prefix.len() ==> s[i] == prefix[i]
}

/// Reads a text that stands for itself. What is left to read must be at
/// least as long in bytes, else it is `TooShort`, and must start with the
/// text, else it is `Invalid`.
pub open spec fn scan_literal(s: Seq<char>, prefix: Seq<char>) -> Result<Seq<char>, ParseError> {
    if utf8_len(s) < utf8_len(prefix) {
        Err(ParseError::TooShort)
    } else if !is_prefix(prefix, s) {
        Err(ParseError::Invalid)
    } else {
        Ok(s.skip(prefix.len() as int))
    }
}

/// Reads the number of a numeric item. White space may precede it. A year
/// may carry a sign, and then has any number of digits; a timestamp has any
/// number of digits; any other number has at most the digits of its width.
pub open spec fn scan_numeric(kind: Numeric, s: Seq<char>) -> Result<Scanned, ParseError> {
    let t = trim_start(s);
    match kind {
        Numeric::Year => scan_signed(t, 4),
        Numeric::IsoYear => scan_signed(t, 4),
        Numeric::Timestamp => scan_number(t, 1, t.len()),
        _ => scan_number(t, 1, numeric_width(kind)),
    }
}

/// The fields with the number of a numeric item recorded.
pub open spec fn numeric_set(kind: Numeric, parsed: Parsed, value: int) -> Result<
    Parsed,
    ParseError,
> {
    match kind {
        Numeric::Year => parsed.year_set(value),
        Numeric::YearDiv100 => parsed.year_div_100_set(value),
        Numeric::YearMod100 => parsed.year_mod_100_set(value),
        Numeric::IsoYear => parsed.isoyear_set(value),
        Numeric::IsoYearDiv100 => parsed.isoyear_div_100_set(value),
        Numeric::IsoYearMod100 => parsed.isoyear_mod_100_set(value),
        Numeric::Month => parsed.month_set(value),
        Numeric::Day => parsed.day_set(value),
        Numeric::WeekFromSun => parsed.week_from_sun_set(value),
        Numeric::WeekFromMon => parsed.week_from_mon_set(value),
        Numeric::IsoWeek => parsed.isoweek_set(value),
        Numeric::NumDaysFromSun => if 0 <= value <= 6 {
            parsed.weekday_set(Weekday::from_index((value + 6) % 7))
        } else {
            Err(ParseError::OutOfRange)
        },
        Numeric::WeekdayFromMon => if 1 <= value <= 7 {
            parsed.weekday_set(Weekday::from_index(value - 1))
        } else {
            Err(ParseError::OutOfRange)
        },
        Numeric::Ordinal => parsed.ordinal_set(value),
        Numeric::Hour => parsed.hour_set(value),
        Numeric::Hour12 => parsed.hour12_set(value),
        Numeric::Minute => parsed.minute_set(value),
        Numeric::Second => parsed.second_set(value),
        Numeric::Nanosecond => parsed.nanosecond_set(value),
        Numeric::Timestamp => parsed.timestamp_set(value as i64),
    }
}

/// Reads a numeric item and records its number.
pub open spec fn parse_numeric(kind: Numeric, s: Seq<char>, parsed: Parsed) -> Result<
    Step,
    ParseError,
> {
    match scan_numeric(kind, s) {
        Err(e) => Err(e),
        Ok(scanned) => match numeric_set(kind, parsed, scanned.value) {
            Err(e) => Err(e),
            Ok(parsed) => Ok(Step { parsed, rest: scanned.rest }),
        },
    }
}

/// Records what a reader took with a setter's result.
pub open spec fn recorded(scanned: Result<Scanned, ParseError>, set: spec_fn(int) -> Result<
    Parsed,
    ParseError,
>) -> Result<Step, ParseError> {
    match scanned {
        Err(e) => Err(e),
        Ok(scanned) => match set(scanned.value) {
            Err(e) => Err(e),
            Ok(parsed) => Ok(Step { parsed, rest: scanned.rest }),
        },
    }
}

/// Reads the fraction of a second, if the text goes on with a point, and
/// records it.
pub open spec fn parse_fraction(s: Seq<char>, parsed: Parsed) -> Result<Step, ParseError> {
    if s.len() > 0 && s[0] == '.' {
        recorded(scan_nanosecond(s.drop_first()), |value: int| parsed.nanosecond_set(value))
    } else {
        Ok(Step { parsed, rest: s })
    }
}

/// Reads a date and time with an offset as RFC 3339 writes it: a year of
/// four digits, a month, a day, `T`, an hour, a minute and a second of two
/// digits each, a fraction if there is one, and an offset of less than a
/// day or `Z`.
pub open spec fn parse_rfc3339(s: Seq<char>, parsed: Parsed) -> Result<Step, ParseError> {
    match date_rfc3339(s, parsed) {
        Err(e) => Err(e),
        Ok(date) => if date.rest.len() == 0 {
            Err(ParseError::TooShort)
        } else if date.rest[0] != 't' && date.rest[0] != 'T' {
            Err(ParseError::Invalid)
        } else {
            match time_rfc3339(date.rest.drop_first(), date.parsed) {
                Err(e) => Err(e),
                Ok(time) => match parse_fraction(time.rest, time.parsed) {
                    Err(e) => Err(e),
                    Ok(fraction) => match scan_offset_zulu(fraction.rest, Colon::Strict) {
                        Err(e) => Err(e),
                        Ok(offset) => if offset.value <= -86_400 || offset.value >= 86_400 {
                            Err(ParseError::OutOfRange)
                        } else {
                            match fraction.parsed.offset_set(offset.value) {
                                Err(e) => Err(e),
                                Ok(parsed) => Ok(Step { parsed, rest: offset.rest }),
                            }
                        },
                    },
                },
            }
        },
    }
}

/// Reads two numbers of fixed widths with a mark between them and after
/// them, and a third number, and records them with three setters.
pub open spec fn parse_three(
    s: Seq<char>,
    width: nat,
    mark: char,
    set1: spec_fn(int) -> Result<Parsed, ParseError>,
    set2: spec_fn(Parsed, int) -> Result<Parsed, ParseError>,
    set3: spec_fn(Parsed, int) -> Result<Parsed, ParseError>,
) -> Result<Step, ParseError> {
    match recorded(scan_number(s, width, width), set1) {
        Err(e) => Err(e),
        Ok(first) => match scan_char(first.rest, mark) {
            Err(e) => Err(e),
            Ok(rest) => match recorded(
                scan_number(rest, 2, 2),
                |value: int| set2(first.parsed, value),
            ) {
                Err(e) => Err(e),
                Ok(second) => match scan_char(second.rest, mark) {
                    Err(e) => Err(e),
                    Ok(rest) => recorded(
                        scan_number(rest, 2, 2),
                        |value: int| set3(second.parsed, value),
                    ),
                },
            },
        },
    }
}

/// Reads a year of four digits, a month and a day of two digits each, with
/// `-` between them.
pub open spec fn date_rfc3339(s: Seq<char>, parsed: Parsed) -> Result<Step, ParseError> {
    parse_three(
        s,
        4,
        '-',
        |value: int| parsed.year_set(value),
        |p: Parsed, value: int| p.month_set(value),
        |p: Parsed, value: int| p.day_set(value),
    )
}

/// Reads an hour, a minute and a second of two digits each, with `:`
/// between them.
pub open spec fn time_rfc3339(s: Seq<char>, parsed: Parsed) -> Result<Step, ParseError> {
    parse_three(
        s,
        2,
        ':',
        |value: int| parsed.hour_set(value),
        |p: Parsed, value: int| p.minute_set(value),
        |p: Parsed, value: int| p.second_set(value),
    )
}

/// Reads an item that has a text of its own and records what it stands
/// for. The name of a time zone cannot be read: `BadFormat`. An offset is
/// read and recorded, white space may precede it.
pub open spec fn parse_fixed(kind: Fixed, s: Seq<char>, parsed: Parsed) -> Result<
    Step,
    ParseError,
> {
    match kind {
        Fixed::ShortMonthName => recorded(
            scan_short_month(s),
            |value: int| parsed.month_set(value + 1),
        ),
        Fixed::LongMonthName => recorded(
            scan_long_month(s),
            |value: int| parsed.month_set(value + 1),
        ),
        Fixed::ShortWeekdayName => recorded(
            scan_short_weekday(s),
            |value: int| parsed.weekday_set(Weekday::from_index(value)),
        ),
        Fixed::LongWeekdayName => recorded(
            scan_long_weekday(s),
            |value: int| parsed.weekday_set(Weekday::from_index(value)),
        ),
        Fixed::LowerAmPm => recorded(scan_ampm(s), |value: int| parsed.ampm_set(value == 1)),
        Fixed::UpperAmPm => recorded(scan_ampm(s), |value: int| parsed.ampm_set(value == 1)),
        Fixed::Nanosecond => parse_fraction(s, parsed),
        Fixed::Nanosecond3 => parse_fraction(s, parsed),
        Fixed::Nanosecond6 => parse_fraction(s, parsed),
        Fixed::Nanosecond9 => parse_fraction(s, parsed),
        Fixed::TimezoneName => Err(ParseError::BadFormat),
        Fixed::TimezoneOffsetColon => recorded(
            scan_offset(trim_start(s), Colon::Lenient),
            |value: int| parsed.offset_set(value),
        ),
        Fixed::TimezoneOffset => recorded(
            scan_offset(trim_start(s), Colon::Lenient),
            |value: int| parsed.offset_set(value),
        ),
        Fixed::TimezoneOffsetColonZ => recorded(
            scan_offset_zulu(trim_start(s), Colon::Lenient),
            |value: int| parsed.offset_set(value),
        ),
        Fixed::TimezoneOffsetZ => recorded(
            scan_offset_zulu(trim_start(s), Colon::Lenient),
            |value: int| parsed.offset_set(value),
        ),
        Fixed::RFC3339 => parse_rfc3339(s, parsed),
    }
}

/// Reads one item. A literal must stand in the text as it is; white space
/// stands for any white space or none; an `Error` item is `BadFormat`.
pub open spec fn parse_item(item: ItemModel, s: Seq<char>, parsed: Parsed) -> Result<
    Step,
    ParseError,
> {
    match item {
        ItemModel::Literal(text) => match scan_literal(s, text) {
            Err(e) => Err(e),
            Ok(rest) => Ok(Step { parsed, rest }),
        },
        ItemModel::Space(_) => Ok(Step { parsed, rest: trim_start(s) }),
        ItemModel::Numeric(kind, _) => parse_numeric(kind, s, parsed),
        ItemModel::Fixed(kind) => parse_fixed(kind, s, parsed),
        ItemModel::Error => Err(ParseError::BadFormat),
    }
}

/// Reads the items of a pattern one after another, and gives the fields
/// they recorded. Fails with the error of the first item that cannot be
/// read, and with `TooLong` where text is left after the last item.
pub open spec fn parse_items(items: Seq<ItemModel>, s: Seq<char>, parsed: Parsed) -> Result<
    Parsed,
    ParseError,
>
    decreases items.len(),
{
    if items.len() == 0 {
        if s.len() > 0 {
            Err(ParseError::TooLong)
        } else {
            Ok(parsed)
        }
    } else {
        match parse_item(items[0], s, parsed) {
            Err(e) => Err(e),
            Ok(step) => parse_items(items.drop_first(), step.rest, step.parsed),
        }
    }
}

/// The date and time that a text names after the items of a pattern: the
/// one that the fields name which the items record, without an offset.
pub open spec fn parse_text(items: Seq<ItemModel>, s: Seq<char>) -> Result<
    DateTimeModel,
    ParseError,
> {
    match parse_items(items, s, Parsed::empty()) {
        Err(e) => Err(e),
        Ok(parsed) => parsed.datetime(0),
    }
}

/// The exact relation between what an executable reader returns and what
/// its specification says.
pub open spec fn step_is(
    r: Result<(Parsed, usize), ParseError>,
    v: Seq<char>,
    spec: Result<Step, ParseError>,
) -> bool {
    match r {
        Ok((parsed, next)) => next <= v.len() && spec == Ok::<Step, ParseError>(
            Step { parsed, rest: v.skip(next as int) },
        ),
        Err(e) => spec == Err::<Step, ParseError>(e),
    }
}

/// The number of bytes that a text takes in UTF-8.
fn byte_len(v: &Vec<char>) -> (r: u128)
    ensures
        r == utf8_len(v@),
        r <= 4 * v.len(),
{
    let mut total: u128 = 0;
    let mut i: usize = v.len();
    assert(v@.skip(i as int) =~= Seq::<char>::empty());
    while i > 0
        invariant
            i <= v.len(),
            total == utf8_len(v@.skip(i as int)),
            total <= 4 * (v.len() - i),
        decreases i,
    {
        i = i - 1;
        proof {
            lemma_skip_drop_first(v@, i as int);
        }
        total = total + width(v[i]) as u128;
    }
    assert(v@.skip(0) =~= v@);
    total
}

/// Whether what is left of a text from a position on takes fewer bytes in
/// UTF-8 than a given number.
fn shorter_than(v: &Vec<char>, pos: usize, target: u128) -> (r: bool)
    requires
        pos <= v.len(),
        target <= 0x8_0000_0000_0000_0000,
    ensures
        r == (utf8_len(v@.skip(pos as int)) < target),
{
    let mut total: u128 = 0;
    let mut i: usize = pos;
    while i < v.len() && total < target
        invariant
            pos <= i <= v.len(),
            total + utf8_len(v@.skip(i as int)) == utf8_len(v@.skip(pos as int)),
            total <= target + 4,
            target <= 0x8_0000_0000_0000_0000,
        decreases v.len() - i,
    {
        proof {
            lemma_skip_drop_first(v@, i as int);
        }
        total = total + width(v[i]) as u128;
        i = i + 1;
    }
    total < target
}

/// Reads a text that stands for itself from a position. Returns the
/// position after it.
fn read_literal(v: &Vec<char>, pos: usize, text: &str) -> (r: Result<usize, ParseError>)
    requires
        pos <= v.len(),
    ensures
        match r {
            Ok(next) => pos <= next <= v.len() && scan_literal(v@.skip(pos as int), text@) == Ok::<
                Seq<char>,
                ParseError,
            >(v@.skip(next as int)),
            Err(e) => scan_literal(v@.skip(pos as int), text@) == Err::<Seq<char>, ParseError>(e),
        },
{
    let prefix = chars_of(text);
    let ghost s = v@.skip(pos as int);
    if shorter_than(v, pos, byte_len(&prefix)) {
        return Err(ParseError::TooShort);
    }
    if v.len() - pos < prefix.len() {
        return Err(ParseError::Invalid);
    }
    let mut i: usize = 0;
    while i < prefix.len()
        invariant
            i <= prefix.len(),
            pos + prefix.len() <= v.len(),
            s == v@.skip(pos as int),
            prefix@ == text@,
            utf8_len(s) >= utf8_len(text@),
            forall|k: int| 0 <= k < i ==> s[k] == prefix@[k],
        decreases prefix.len() - i,
    {
        if v[pos + i] != prefix[i] {
            assert(s[i as int] != prefix@[i as int]);
            return Err(ParseError::Invalid);
        }
        i = i + 1;
    }
    proof {
        lemma_skip_skip(v@, pos as int, prefix.len() as int);
    }
    Ok(pos + prefix.len())
}

/// Records the number of a numeric item in the fields.
fn set_numeric(kind: Numeric, parsed: Parsed, value: i64) -> (r: Result<Parsed, ParseError>)
    ensures
        r == numeric_set(kind, parsed, value as int),
{
    match kind {
        Numeric::Year => parsed.set_year(value),
        Numeric::YearDiv100 => parsed.set_year_div_100(value),
        Numeric::YearMod100 => parsed.set_year_mod_100(value),
        Numeric::IsoYear => parsed.set_isoyear(value),
        Numeric::IsoYearDiv100 => parsed.set_isoyear_div_100(value),
        Numeric::IsoYearMod100 => parsed.set_isoyear_mod_100(value),
        Numeric::Month => parsed.set_month(value),
        Numeric::Day => parsed.set_day(value),
        Numeric::WeekFromSun => parsed.set_week_from_sun(value),
        Numeric::WeekFromMon => parsed.set_week_from_mon(value),
        Numeric::IsoWeek => parsed.set_isoweek(value),
        Numeric::NumDaysFromSun => if 0 <= value && value <= 6 {
            parsed.set_weekday(Weekday::from_num_days_from_monday(((value + 6) % 7) as u32))
        } else {
            Err(ParseError::OutOfRange)
        },
        Numeric::WeekdayFromMon => if 1 <= value && value <= 7 {
            parsed.set_weekday(Weekday::from_num_days_from_monday((value - 1) as u32))
        } else {
            Err(ParseError::OutOfRange)
        },
        Numeric::Ordinal => parsed.set_ordinal(value),
        Numeric::Hour => parsed.set_hour(value),
        Numeric::Hour12 => parsed.set_hour12(value),
        Numeric::Minute => parsed.set_minute(value),
        Numeric::Second => parsed.set_second(value),
        Numeric::Nanosecond => parsed.set_nanosecond(value),
        Numeric::Timestamp => parsed.set_timestamp(value),
    }
}

/// Reads a numeric item from a position and records its number.
fn read_numeric(kind: Numeric, v: &Vec<char>, pos: usize, parsed: Parsed) -> (r: Result<
    (Parsed, usize),
    ParseError,
>)
    requires
        pos <= v.len(),
    ensures
        step_is(r, v@, parse_numeric(kind, v@.skip(pos as int), parsed)),
{
    let start = skip_spaces(v, pos);
    let read = match kind {
        Numeric::Year => read_signed(v, start, 4),
        Numeric::IsoYear => read_signed(v, start, 4),
        Numeric::Timestamp => {
            proof {
                let t = v@.skip(start as int);
                lemma_digit_run_limit(t, t.len(), usize::MAX as nat);
            }
            read_number(v, start, 1, usize::MAX)
        },
        _ => read_number(v, start, 1, crate::item::width_of(kind) as usize),
    };
    match read {
        Ok((value, next)) => match set_numeric(kind, parsed, value) {
            Ok(parsed) => Ok((parsed, next)),
            Err(e) => Err(e),
        },
        Err(e) => Err(e),
    }
}

/// Reads the fraction of a second from a position, if the text goes on
/// with a point, and records it.
fn read_fraction(v: &Vec<char>, pos: usize, parsed: Parsed) -> (r: Result<
    (Parsed, usize),
    ParseError,
>)
    requires
        pos <= v.len(),
    ensures
        step_is(r, v@, parse_fraction(v@.skip(pos as int), parsed)),
{
    if pos < v.len() && v[pos] == '.' {
        proof {
            lemma_skip_drop_first(v@, pos as int);
        }
        match read_nanosecond(v, pos + 1) {
            Ok((value, next)) => match parsed.set_nanosecond(value) {
                Ok(parsed) => Ok((parsed, next)),
                Err(e) => Err(e),
            },
            Err(e) => Err(e),
        }
    } else {
        proof {
            if pos < v.len() {
                lemma_skip_drop_first(v@, pos as int);
            }
        }
        Ok((parsed, pos))
    }
}

/// Reads a number of exactly `width` digits from a position.
fn read_exact(v: &Vec<char>, pos: usize, width: usize) -> (r: Result<(i64, usize), ParseError>)
    requires
        pos <= v.len(),
    ensures
        match r {
            Ok((value, next)) => pos <= next <= v.len() && scan_number(
                v@.skip(pos as int),
                width as nat,
                width as nat,
            ) == Ok::<Scanned, ParseError>(
                Scanned { value: value as int, rest: v@.skip(next as int) },
            ),
            Err(e) => scan_number(v@.skip(pos as int), width as nat, width as nat) == Err::<
                Scanned,
                ParseError,
            >(e),
        },
{
    read_number(v, pos, width, width)
}

/// Reads a year, a month and a day as RFC 3339 writes them, from a
/// position.
fn read_date_rfc3339(v: &Vec<char>, pos: usize, parsed: Parsed) -> (r: Result<
    (Parsed, usize),
    ParseError,
>)
    requires
        pos <= v.len(),
    ensures
        step_is(r, v@, date_rfc3339(v@.skip(pos as int), parsed)),
{
    let (year, next) = match read_exact(v, pos, 4) {
        Ok(read) => read,
        Err(e) => return Err(e),
    };
    let parsed = match parsed.set_year(year) {
        Ok(parsed) => parsed,
        Err(e) => return Err(e),
    };
    let next = match read_char(v, next, '-') {
        Ok(next) => next,
        Err(e) => return Err(e),
    };
    let (month, next) = match read_exact(v, next, 2) {
        Ok(read) => read,
        Err(e) => return Err(e),
    };
    let parsed = match parsed.set_month(month) {
        Ok(parsed) => parsed,
        Err(e) => return Err(e),
    };
    let next = match read_char(v, next, '-') {
        Ok(next) => next,
        Err(e) => return Err(e),
    };
    let (day, next) = match read_exact(v, next, 2) {
        Ok(read) => read,
        Err(e) => return Err(e),
    };
    match parsed.set_day(day) {
        Ok(parsed) => Ok((parsed, next)),
        Err(e) => Err(e),
    }
}

/// Reads an hour, a minute and a second as RFC 3339 writes them, from a
/// position.
fn read_time_rfc3339(v: &Vec<char>, pos: usize, parsed: Parsed) -> (r: Result<
    (Parsed, usize),
    ParseError,
>)
    requires
        pos <= v.len(),
    ensures
        step_is(r, v@, time_rfc3339(v@.skip(pos as int), parsed)),
{
    let (hour, next) = match read_exact(v, pos, 2) {
        Ok(read) => read,
        Err(e) => return Err(e),
    };
    let parsed = match parsed.set_hour(hour) {
        Ok(parsed) => parsed,
        Err(e) => return Err(e),
    };
    let next = match read_char(v, next, ':') {
        Ok(next) => next,
        Err(e) => return Err(e),
    };
    let (minute, next) = match read_exact(v, next, 2) {
        Ok(read) => read,
        Err(e) => return Err(e),
    };
    let parsed = match parsed.set_minute(minute) {
        Ok(parsed) => parsed,
        Err(e) => return Err(e),
    };
    let next = match read_char(v, next, ':') {
        Ok(next) => next,
        Err(e) => return Err(e),
    };
    let (second, next) = match read_exact(v, next, 2) {
        Ok(read) => read,
        Err(e) => return Err(e),
    };
    match parsed.set_second(second) {
        Ok(parsed) => Ok((parsed, next)),
        Err(e) => Err(e),
    }
}

/// Reads a date and time with an offset as RFC 3339 writes it, from a
/// position.
fn read_rfc3339(v: &Vec<char>, pos: usize, parsed: Parsed) -> (r: Result<
    (Parsed, usize),
    ParseError,
>)
    requires
        pos <= v.len(),
    ensures
        step_is(r, v@, parse_rfc3339(v@.skip(pos as int), parsed)),
{
    let (parsed, next) = match read_date_rfc3339(v, pos, parsed) {
        Ok(read) => read,
        Err(e) => return Err(e),
    };
    if next == v.len() {
        return Err(ParseError::TooShort);
    }
    if v[next] != 't' && v[next] != 'T' {
        proof {
            lemma_skip_drop_first(v@, next as int);
        }
        return Err(ParseError::Invalid);
    }
    proof {
        lemma_skip_drop_first(v@, next as int);
    }
    let (parsed, next) = match read_time_rfc3339(v, next + 1, parsed) {
        Ok(read) => read,
        Err(e) => return Err(e),
    };
    let (parsed, next) = match read_fraction(v, next, parsed) {
        Ok(read) => read,
        Err(e) => return Err(e),
    };
    let (offset, next) = match read_offset_zulu(v, next, true) {
        Ok(read) => read,
        Err(e) => return Err(e),
    };
    if offset <= -86_400 || offset >= 86_400 {
        return Err(ParseError::OutOfRange);
    }
    match parsed.set_offset(offset as i64) {
        Ok(parsed) => Ok((parsed, next)),
        Err(e) => Err(e),
    }
}

/// Reads an item that has a text of its own from a position, and records
/// what it stands for.
fn read_fixed(kind: Fixed, v: &Vec<char>, pos: usize, parsed: Parsed) -> (r: Result<
    (Parsed, usize),
    ParseError,
>)
    requires
        pos <= v.len(),
    ensures
        step_is(r, v@, parse_fixed(kind, v@.skip(pos as int), parsed)),
{
    match kind {
        Fixed::ShortMonthName => match read_short_month(v, pos) {
            Ok((month0, next)) => match parsed.set_month(month0 as i64 + 1) {
                Ok(parsed) => Ok((parsed, next)),
                Err(e) => Err(e),
            },
            Err(e) => Err(e),
        },
        Fixed::LongMonthName => match read_long_month(v, pos) {
            Ok((month0, next)) => match parsed.set_month(month0 as i64 + 1) {
                Ok(parsed) => Ok((parsed, next)),
                Err(e) => Err(e),
            },
            Err(e) => Err(e),
        },
        Fixed::ShortWeekdayName => match read_short_weekday(v, pos) {
            Ok((index, next)) => match parsed.set_weekday(
                Weekday::from_num_days_from_monday(index),
            ) {
                Ok(parsed) => Ok((parsed, next)),
                Err(e) => Err(e),
            },
            Err(e) => Err(e),
        },
        Fixed::LongWeekdayName => match read_long_weekday(v, pos) {
            Ok((index, next)) => match parsed.set_weekday(
                Weekday::from_num_days_from_monday(index),
            ) {
                Ok(parsed) => Ok((parsed, next)),
                Err(e) => Err(e),
            },
            Err(e) => Err(e),
        },
        Fixed::LowerAmPm | Fixed::UpperAmPm => match read_ampm(v, pos) {
            Ok((pm, next)) => match parsed.set_ampm(pm) {
                Ok(parsed) => Ok((parsed, next)),
                Err(e) => Err(e),
            },
            Err(e) => Err(e),
        },
        Fixed::Nanosecond | Fixed::Nanosecond3 | Fixed::Nanosecond6 | Fixed::Nanosecond9 => {
            read_fraction(v, pos, parsed)
        },
        Fixed::TimezoneName => Err(ParseError::BadFormat),
        Fixed::TimezoneOffsetColon | Fixed::TimezoneOffset => {
            let start = skip_spaces(v, pos);
            match read_offset(v, start, false) {
                Ok((offset, next)) => match parsed.set_offset(offset as i64) {
                    Ok(parsed) => Ok((parsed, next)),
                    Err(e) => Err(e),
                },
                Err(e) => Err(e),
            }
        },
        Fixed::TimezoneOffsetColonZ | Fixed::TimezoneOffsetZ => {
            let start = skip_spaces(v, pos);
            match read_offset_zulu(v, start, false) {
                Ok((offset, next)) => match parsed.set_offset(offset as i64) {
                    Ok(parsed) => Ok((parsed, next)),
                    Err(e) => Err(e),
                },
                Err(e) => Err(e),
            }
        },
        Fixed::RFC3339 => read_rfc3339(v, pos, parsed),
    }
}

/// Reads one item from a position.
fn read_item(item: &Item, v: &Vec<char>, pos: usize, parsed: Parsed) -> (r: Result<
    (Parsed, usize),
    ParseError,
>)
    requires
        pos <= v.len(),
    ensures
        step_is(r, v@, parse_item(item@, v@.skip(pos as int), parsed)),
{
    match item {
        Item::Literal(text) => match read_literal(v, pos, text.as_str()) {
            Ok(next) => Ok((parsed, next)),
            Err(e) => Err(e),
        },
        Item::Space(_) => Ok((parsed, skip_spaces(v, pos))),
        Item::Numeric(kind, _) => read_numeric(*kind, v, pos, parsed),
        Item::Fixed(kind) => read_fixed(*kind, v, pos, parsed),
        Item::Error => Err(ParseError::BadFormat),
    }
}

/// Reads a text after the items of a pattern, and adds what they record to
/// the fields.
pub fn parse(parsed: Parsed, s: &str, items: &Vec<Item>) -> (r: Result<Parsed, ParseError>)
    ensures
        r == parse_items(items_view(items@), s@, parsed),
{
    let v = chars_of(s);
    let ghost all = items_view(items@);
    let mut fields = parsed;
    let mut pos: usize = 0;
    let mut i: usize = 0;
    assert(v@.skip(0) =~= s@);
    assert(all.skip(0) =~= all);
    while i < items.len()
        invariant
            i <= items.len(),
            pos <= v.len(),
            v@ == s@,
            all == items_view(items@),
            parse_items(all.skip(i as int), v@.skip(pos as int), fields) == parse_items(
                all,
                s@,
                parsed,
            ),
        decreases items.len() - i,
    {
        proof {
            assert(all.skip(i as int).drop_first() =~= all.skip(i + 1));
            assert(all.skip(i as int)[0] == items@[i as int]@);
        }
        match read_item(&items[i], &v, pos, fields) {
            Ok((next_parsed, next)) => {
                fields = next_parsed;
                pos = next;
            },
            Err(e) => {
                proof {
                    let rest = all.skip(i as int);
                    assert(rest.len() > 0);
                    assert(parse_item(rest[0], v@.skip(pos as int), fields) == Err::<
                        Step,
                        ParseError,
                    >(e));
                    assert(parse_items(rest, v@.skip(pos as int), fields) == Err::<
                        Parsed,
                        ParseError,
                    >(e));
                }
                return Err(e);
            },
        }
        i = i + 1;
    }
    assert(all.skip(i as int).len() == 0);
    if pos < v.len() {
        Err(ParseError::TooLong)
    } else {
        Ok(fields)
    }
}

impl NaiveDateTime {
    /// Reads a date and time from a text after a pattern. An offset from
    /// UTC that the pattern asks for is read and then left aside.
    pub fn parse_from_str(s: &str, fmt: &str) -> (r: Result<NaiveDateTime, ParseError>)
        ensures
            match r {
                Ok(datetime) => parse_text(pattern_items(fmt@), s@) == Ok::<
                    DateTimeModel,
                    ParseError,
                >(datetime@),
                Err(e) => parse_text(pattern_items(fmt@), s@) == Err::<
                    DateTimeModel,
                    ParseError,
                >(e),
            },
    {
        let items = strftime_items(fmt);
        match parse(Parsed::new(), s, &items) {
            Ok(parsed) => parsed.to_naive_datetime_with_offset(0),
            Err(e) => Err(e),
        }
    }
}

} // verus!
