//! The canonical text as a pattern.
//!
//! The canonical text of a date and time is what one fixed sequence of
//! items writes, and reading a canonical text is reading after the same
//! items. This module names the sequence and proves both.

use vstd::prelude::*;
use crate::calendar::{
    day_of_days, lemma_fields_of_days, lemma_ymd_round_trip, month_of_days, year_of_days,
};
use crate::canonical::{
    datetime_text, parse_datetime, resolve_date, resolve_time, scan_date, scan_field,
    scan_fraction, scan_mark, scan_time, DateFields, TimeFields,
};
use crate::datetime::{DateTimeModel, NaiveDateTime};
use crate::format::items_text;
use crate::item::{items_view, Fixed, Item, ItemModel, Numeric, Pad};
use crate::names::utf8_len;
use crate::parse::{
    parse_fraction, parse_items, parse_numeric, parse_text, scan_literal, Step,
};
use crate::parsed::Parsed;
use crate::scan::{is_space, scan_char, scan_number, scan_signed, trim_start, ParseError};
use crate::strftime::lemma_items_view_push;
use crate::text::decimal;

verus! {

/// White space of no length: it writes nothing and reads any white space.
pub open spec fn gap() -> ItemModel {
    ItemModel::Space(Seq::<char>::empty())
}

/// A number filled with zeros that white space may precede.
pub open spec fn field(kind: Numeric) -> Seq<ItemModel> {
    seq![gap(), ItemModel::Numeric(kind, Pad::Zero)]
}

/// A character that white space may precede.
pub open spec fn mark(c: char) -> Seq<ItemModel> {
    seq![gap(), ItemModel::Literal(seq![c])]
}

/// The end of the canonical pattern: the fraction of the second, and white
/// space.
pub open spec fn canonical_tail() -> Seq<ItemModel> {
    seq![ItemModel::Fixed(Fixed::Nanosecond), gap()]
}

/// The items of the canonical pattern for the time of day.
pub open spec fn canonical_time_items() -> Seq<ItemModel> {
    field(Numeric::Hour) + (mark(':') + (field(Numeric::Minute) + (mark(':') + (field(
        Numeric::Second,
    ) + canonical_tail()))))
}

/// The items of the canonical pattern: year, month and day with `-`
/// between them, `T`, hour, minute and second with `:` between them, and
/// the fraction of the second. White space of no length stands before each
/// number and mark, and at the end.
pub open spec fn canonical_items() -> Seq<ItemModel> {
    field(Numeric::Year) + (mark('-') + (field(Numeric::Month) + (mark('-') + (field(
        Numeric::Day,
    ) + (mark('T') + canonical_time_items())))))
}

/// Trimming white space twice is trimming it once.
pub proof fn lemma_trim_start_twice(s: Seq<char>)
    ensures
        trim_start(trim_start(s)) == trim_start(s),
    decreases s.len(),
{
    if s.len() > 0 && is_space(s[0]) {
        lemma_trim_start_twice(s.drop_first());
    }
}

/// Reading a literal of one character of one byte is reading that
/// character.
pub proof fn lemma_scan_literal_char(s: Seq<char>, c: char)
    requires
        (c as u32) < 0x80,
    ensures
        match scan_char(s, c) {
            Ok(rest) => scan_literal(s, seq![c]) == Ok::<Seq<char>, ParseError>(rest),
            Err(e) => scan_literal(s, seq![c]) == Err::<Seq<char>, ParseError>(e),
        },
{
    let text = seq![c];
    reveal_with_fuel(utf8_len, 2);
    assert(text.drop_first() =~= Seq::<char>::empty());
    assert(utf8_len(text) == 1);
    if s.len() > 0 {
        assert(s.skip(1) =~= s.drop_first());
    }
}

/// Reading the items of a number that white space may precede, and then
/// more items, is reading the number and then the items.
pub proof fn lemma_parse_field(kind: Numeric, more: Seq<ItemModel>, s: Seq<char>, parsed: Parsed)
    ensures
        parse_items(field(kind) + more, s, parsed) == (match parse_numeric(kind, s, parsed) {
            Err(e) => Err(e),
            Ok(step) => parse_items(more, step.rest, step.parsed),
        }),
{
    let items = field(kind) + more;
    let after = seq![ItemModel::Numeric(kind, Pad::Zero)] + more;
    assert(items.drop_first() =~= after);
    assert(after.drop_first() =~= more);
    assert(items[0] == gap());
    assert(after[0] == ItemModel::Numeric(kind, Pad::Zero));
    lemma_trim_start_twice(s);
    reveal_with_fuel(parse_items, 3);
}

/// Reading the items of a character that white space may precede, and then
/// more items, is reading the character and then the items.
pub proof fn lemma_parse_mark(c: char, more: Seq<ItemModel>, s: Seq<char>, parsed: Parsed)
    requires
        (c as u32) < 0x80,
    ensures
        parse_items(mark(c) + more, s, parsed) == (match scan_mark(s, c) {
            Err(e) => Err(e),
            Ok(rest) => parse_items(more, rest, parsed),
        }),
{
    let items = mark(c) + more;
    let after = seq![ItemModel::Literal(seq![c])] + more;
    assert(items.drop_first() =~= after);
    assert(after.drop_first() =~= more);
    assert(items[0] == gap());
    assert(after[0] == ItemModel::Literal(seq![c]));
    lemma_scan_literal_char(trim_start(s), c);
    reveal_with_fuel(parse_items, 3);
}

/// The fields that reading a date after the canonical pattern records.
pub open spec fn date_fields(parsed: Parsed, date: DateFields) -> Parsed {
    Parsed {
        year: Some(date.year as i32),
        month: Some(date.month as u32),
        day: Some(date.day as u32),
        ..parsed
    }
}

/// The fields that reading a time of day after the canonical pattern
/// records.
pub open spec fn time_fields(parsed: Parsed, time: TimeFields) -> Parsed {
    Parsed {
        hour_div_12: Some((time.hour / 12) as u32),
        hour_mod_12: Some((time.hour % 12) as u32),
        minute: Some(time.minute as u32),
        second: Some(time.second as u32),
        nanosecond: match time.nanosecond {
            Some(nano) => Some(nano as u32),
            None => parsed.nanosecond,
        },
        ..parsed
    }
}

/// A number of at most nine digits is smaller than a billion.
pub proof fn lemma_scan_number_bound(s: Seq<char>, min: nat, limit: nat)
    requires
        limit <= 9,
    ensures
        scan_number(s, min, limit) matches Ok(scanned) ==> 0 <= scanned.value < 1_000_000_000
            && (limit <= 2 ==> scanned.value < 100),
{
    let n = crate::text::digit_run(s, limit);
    crate::scan::lemma_digit_run_bound(s, limit);
    crate::scan::lemma_digit_run_digits(s, limit);
    crate::scan::lemma_decimal_value_bound(s.take(n as int));
    reveal_with_fuel(crate::text::pow10, 10);
}

/// Reading the part of the canonical pattern for the date, and then more
/// items, is reading a date as the canonical text holds it and then the
/// items.
pub proof fn lemma_parse_date_items(more: Seq<ItemModel>, s: Seq<char>)
    ensures
        parse_items(
            field(Numeric::Year) + (mark('-') + (field(Numeric::Month) + (mark('-') + (field(
                Numeric::Day,
            ) + more)))),
            s,
            Parsed::empty(),
        ) == (match scan_date(s) {
            Err(e) => Err(e),
            Ok(date) => parse_items(more, date.rest, date_fields(Parsed::empty(), date)),
        }),
{
    let empty = Parsed::empty();
    let i5 = field(Numeric::Day) + more;
    let i4 = mark('-') + i5;
    let i3 = field(Numeric::Month) + i4;
    let i2 = mark('-') + i3;
    lemma_parse_field(Numeric::Year, i2, s, empty);
    match scan_signed(trim_start(s), 4) {
        Err(e) => {},
        Ok(year) => {
            if i32::MIN <= year.value <= i32::MAX {
                let with_year = Parsed { year: Some(year.value as i32), ..empty };
                lemma_parse_mark('-', i3, year.rest, with_year);
                match scan_mark(year.rest, '-') {
                    Err(e) => {},
                    Ok(rest) => {
                        lemma_parse_field(Numeric::Month, i4, rest, with_year);
                        lemma_scan_number_bound(trim_start(rest), 1, 2);
                        match scan_field(rest, 2) {
                            Err(e) => {},
                            Ok(month) => {
                                let with_month = Parsed {
                                    month: Some(month.value as u32),
                                    ..with_year
                                };
                                lemma_parse_mark('-', i5, month.rest, with_month);
                                match scan_mark(month.rest, '-') {
                                    Err(e) => {},
                                    Ok(rest) => {
                                        lemma_parse_field(Numeric::Day, more, rest, with_month);
                                        lemma_scan_number_bound(trim_start(rest), 1, 2);
                                    },
                                }
                            },
                        }
                    },
                }
            }
        },
    }
}

/// Reading the fraction of the second after the canonical pattern records
/// what reading it for the canonical text gives.
pub proof fn lemma_parse_fraction(s: Seq<char>, parsed: Parsed)
    requires
        parsed.nanosecond is None,
    ensures
        match scan_fraction(s) {
            Err(e) => parse_fraction(s, parsed) == Err::<Step, ParseError>(e),
            Ok((nanosecond, rest)) => parse_fraction(s, parsed) == Ok::<Step, ParseError>(
                Step {
                    parsed: Parsed {
                        nanosecond: match nanosecond {
                            Some(nano) => Some(nano as u32),
                            None => None,
                        },
                        ..parsed
                    },
                    rest,
                },
            ) && (nanosecond matches Some(nano) ==> 0 <= nano <= 999_999_999),
        },
{
    if s.len() > 0 && s[0] == '.' {
        let t = s.drop_first();
        lemma_scan_number_bound(t, 1, 9);
        let n = crate::text::digit_run(t, 9);
        crate::scan::lemma_digit_run_bound(t, 9);
        crate::scan::lemma_digit_run_digits(t, 9);
        crate::scan::lemma_decimal_value_bound(t.take(n as int));
        reveal_with_fuel(crate::text::pow10, 10);
        match scan_number(t, 1, 9) {
            Err(e) => {},
            Ok(scanned) => {
                let scale = crate::scan::fraction_scale(n as int);
                assert(0 <= scanned.value * scale <= 999_999_999) by {
                    if n <= 1 {
                        assert(scale == 100_000_000);
                    } else if n == 2 {
                        assert(scale == 10_000_000);
                    } else if n == 3 {
                        assert(scale == 1_000_000);
                    } else if n == 4 {
                        assert(scale == 100_000);
                    } else if n == 5 {
                        assert(scale == 10_000);
                    } else if n == 6 {
                        assert(scale == 1_000);
                    } else if n == 7 {
                        assert(scale == 100);
                    } else if n == 8 {
                        assert(scale == 10);
                    } else {
                        assert(scale == 1);
                    }
                }
            },
        }
    }
}

/// Reading the end of the canonical pattern is reading a fraction as the
/// canonical text holds it, with nothing but white space after it.
pub proof fn lemma_parse_tail(s: Seq<char>, parsed: Parsed)
    requires
        parsed.nanosecond is None,
    ensures
        parse_items(canonical_tail(), s, parsed) == (match scan_fraction(s) {
            Err(e) => Err(e),
            Ok((nanosecond, rest)) => if trim_start(rest).len() > 0 {
                Err(ParseError::TooLong)
            } else {
                Ok(
                    Parsed {
                        nanosecond: match nanosecond {
                            Some(nano) => Some(nano as u32),
                            None => None,
                        },
                        ..parsed
                    },
                )
            },
        }),
{
    let items = canonical_tail();
    lemma_parse_fraction(s, parsed);
    assert(items.drop_first() =~= seq![gap()]);
    assert(seq![gap()].drop_first() =~= Seq::<ItemModel>::empty());
    assert(items[0] == ItemModel::Fixed(Fixed::Nanosecond));
    reveal_with_fuel(parse_items, 4);
}

/// Reading the part of the canonical pattern for the time of day, up to
/// the end of the pattern, is reading a time of day as the canonical text
/// holds it, with nothing but white space after it.
pub proof fn lemma_parse_time_items(s: Seq<char>, parsed: Parsed)
    requires
        parsed.hour_div_12 is None,
        parsed.hour_mod_12 is None,
        parsed.minute is None,
        parsed.second is None,
        parsed.nanosecond is None,
    ensures
        parse_items(canonical_time_items(), s, parsed) == (match scan_time(s) {
            Err(e) => Err(e),
            Ok(time) => if trim_start(time.rest).len() > 0 {
                Err(ParseError::TooLong)
            } else {
                Ok(time_fields(parsed, time))
            },
        }),
{
    let i5 = canonical_tail();
    let i4 = field(Numeric::Second) + i5;
    let i3 = mark(':') + i4;
    let i2 = field(Numeric::Minute) + i3;
    let i1 = mark(':') + i2;
    lemma_parse_field(Numeric::Hour, i1, s, parsed);
    lemma_scan_number_bound(trim_start(s), 1, 2);
    match scan_field(s, 2) {
        Err(e) => {},
        Ok(hour) => {
            let with_hour = Parsed {
                hour_div_12: Some((hour.value / 12) as u32),
                hour_mod_12: Some((hour.value % 12) as u32),
                ..parsed
            };
            lemma_parse_mark(':', i2, hour.rest, with_hour);
            match scan_mark(hour.rest, ':') {
                Err(e) => {},
                Ok(rest) => {
                    lemma_parse_field(Numeric::Minute, i3, rest, with_hour);
                    lemma_scan_number_bound(trim_start(rest), 1, 2);
                    match scan_field(rest, 2) {
                        Err(e) => {},
                        Ok(minute) => {
                            let with_minute = Parsed {
                                minute: Some(minute.value as u32),
                                ..with_hour
                            };
                            lemma_parse_mark(':', i4, minute.rest, with_minute);
                            match scan_mark(minute.rest, ':') {
                                Err(e) => {},
                                Ok(rest) => {
                                    lemma_parse_field(Numeric::Second, i5, rest, with_minute);
                                    lemma_scan_number_bound(trim_start(rest), 1, 2);
                                    match scan_field(rest, 2) {
                                        Err(e) => {},
                                        Ok(second) => {
                                            let with_second = Parsed {
                                                second: Some(second.value as u32),
                                                ..with_minute
                                            };
                                            lemma_parse_tail(second.rest, with_second);
                                        },
                                    }
                                },
                            }
                        },
                    }
                },
            }
        },
    }
}

/// The date and time that the fields name which reading after the
/// canonical pattern records is the one that the canonical text names.
pub proof fn lemma_resolve_fields(date: DateFields, time: TimeFields)
    requires
        i32::MIN <= date.year <= i32::MAX,
        0 <= date.month < 100,
        0 <= date.day < 100,
        0 <= time.hour < 100,
        0 <= time.minute < 100,
        0 <= time.second < 100,
        time.nanosecond matches Some(nano) ==> 0 <= nano <= 999_999_999,
    ensures
        time_fields(date_fields(Parsed::empty(), date), time).datetime(0) == (match resolve_date(
            date.year,
            date.month,
            date.day,
        ) {
            Err(e) => Err(e),
            Ok(days) => match resolve_time(time.hour, time.minute, time.second, time.nanosecond) {
                Err(e) => Err(e),
                Ok(time) => Ok(DateTimeModel { date: days, time }),
            },
        }),
{
    let parsed = time_fields(date_fields(Parsed::empty(), date), time);
    if crate::calendar::valid_ymd(date.year, date.month, date.day) {
        lemma_ymd_round_trip(date.year, date.month, date.day);
    }
}

/// Reading a text after the canonical pattern gives what reading it as a
/// canonical text gives: the same date and time, or the same error.
pub proof fn lemma_canonical_items_parse(s: Seq<char>)
    ensures
        parse_text(canonical_items(), s) == parse_datetime(s),
{
    let empty = Parsed::empty();
    let more = mark('T') + canonical_time_items();
    lemma_parse_date_items(more, s);
    match scan_date(s) {
        Err(e) => {},
        Ok(date) => {
            let with_date = date_fields(empty, date);
            lemma_parse_mark('T', canonical_time_items(), date.rest, with_date);
            match scan_mark(date.rest, 'T') {
                Err(e) => {},
                Ok(rest) => {
                    lemma_parse_time_items(rest, with_date);
                    match scan_time(rest) {
                        Err(e) => {},
                        Ok(time) => {
                            if trim_start(time.rest).len() == 0 {
                                lemma_scan_fields_bound(s);
                                lemma_scan_time_bound(rest);
                                lemma_resolve_fields(date, time);
                            }
                        },
                    }
                },
            }
        },
    }
}

/// The numbers of a date that was read lie within the digits they were
/// read from.
pub proof fn lemma_scan_fields_bound(s: Seq<char>)
    ensures
        scan_date(s) matches Ok(date) ==> i32::MIN <= date.year <= i32::MAX && 0 <= date.month < 100
            && 0 <= date.day < 100,
{
    match scan_signed(trim_start(s), 4) {
        Err(e) => {},
        Ok(year) => {
            match scan_mark(year.rest, '-') {
                Err(e) => {},
                Ok(rest) => {
                    lemma_scan_number_bound(trim_start(rest), 1, 2);
                    match scan_field(rest, 2) {
                        Err(e) => {},
                        Ok(month) => {
                            match scan_mark(month.rest, '-') {
                                Err(e) => {},
                                Ok(rest) => {
                                    lemma_scan_number_bound(trim_start(rest), 1, 2);
                                },
                            }
                        },
                    }
                },
            }
        },
    }
}

/// The numbers of a time of day that was read lie within the digits they
/// were read from.
pub proof fn lemma_scan_time_bound(s: Seq<char>)
    ensures
        scan_time(s) matches Ok(time) ==> 0 <= time.hour < 100 && 0 <= time.minute < 100 && 0
            <= time.second < 100 && (time.nanosecond matches Some(nano) ==> 0 <= nano
            <= 999_999_999),
{
    lemma_scan_number_bound(trim_start(s), 1, 2);
    match scan_field(s, 2) {
        Err(e) => {},
        Ok(hour) => {
            match scan_mark(hour.rest, ':') {
                Err(e) => {},
                Ok(rest) => {
                    lemma_scan_number_bound(trim_start(rest), 1, 2);
                    match scan_field(rest, 2) {
                        Err(e) => {},
                        Ok(minute) => {
                            match scan_mark(minute.rest, ':') {
                                Err(e) => {},
                                Ok(rest) => {
                                    lemma_scan_number_bound(trim_start(rest), 1, 2);
                                    match scan_field(rest, 2) {
                                        Err(e) => {},
                                        Ok(second) => {
                                            lemma_parse_fraction(second.rest, Parsed::empty());
                                        },
                                    }
                                },
                            }
                        },
                    }
                },
            }
        },
    }
}

/// The text of two sequences of items one after the other is the text of
/// the first and then the text of the second.
pub proof fn lemma_items_text_concat(a: Seq<ItemModel>, b: Seq<ItemModel>, datetime: DateTimeModel)
    ensures
        items_text(a + b, datetime) == (match items_text(a, datetime) {
            None => None,
            Some(first) => match items_text(b, datetime) {
                None => None,
                Some(second) => Some(first + second),
            },
        }),
    decreases b.len(),
{
    if b.len() == 0 {
        assert(a + b =~= a);
        if items_text(a, datetime) is Some {
            assert(items_text(a, datetime)->0 + Seq::<char>::empty() =~= items_text(
                a,
                datetime,
            )->0);
        }
    } else {
        assert((a + b).drop_last() =~= a + b.drop_last());
        assert((a + b).last() == b.last());
        lemma_items_text_concat(a, b.drop_last(), datetime);
        if items_text(a, datetime) is Some && items_text(b.drop_last(), datetime) is Some
            && crate::format::item_text(b.last(), datetime) is Some {
            let first = items_text(a, datetime)->0;
            let middle = items_text(b.drop_last(), datetime)->0;
            let last = crate::format::item_text(b.last(), datetime)->0;
            assert((first + middle) + last =~= first + (middle + last));
        }
    }
}

/// The text of a number filled with zeros that white space of no length
/// precedes is the text of the number.
pub proof fn lemma_field_text(kind: Numeric, datetime: DateTimeModel)
    ensures
        items_text(field(kind), datetime) == Some(
            crate::format::numeric_text(kind, Pad::Zero, datetime),
        ),
{
    let items = field(kind);
    assert(items.drop_last() =~= seq![gap()]);
    assert(seq![gap()].drop_last() =~= Seq::<ItemModel>::empty());
    reveal_with_fuel(items_text, 3);
    let text = crate::format::numeric_text(kind, Pad::Zero, datetime);
    assert((Seq::<char>::empty() + Seq::<char>::empty()) + text =~= text);
}

/// The text of a character that white space of no length precedes is the
/// character.
pub proof fn lemma_mark_text(c: char, datetime: DateTimeModel)
    ensures
        items_text(mark(c), datetime) == Some(seq![c]),
{
    let items = mark(c);
    assert(items.drop_last() =~= seq![gap()]);
    assert(seq![gap()].drop_last() =~= Seq::<ItemModel>::empty());
    reveal_with_fuel(items_text, 3);
    assert((Seq::<char>::empty() + Seq::<char>::empty()) + seq![c] =~= seq![c]);
}

/// The text of the end of the canonical pattern is the fraction of the
/// second.
pub proof fn lemma_tail_text(datetime: DateTimeModel)
    ensures
        items_text(canonical_tail(), datetime) == Some(
            crate::canonical::fraction_text(datetime.time.frac % 1_000_000_000),
        ),
{
    let items = canonical_tail();
    assert(items.drop_last() =~= seq![ItemModel::Fixed(Fixed::Nanosecond)]);
    assert(seq![ItemModel::Fixed(Fixed::Nanosecond)].drop_last() =~= Seq::<ItemModel>::empty());
    reveal_with_fuel(items_text, 3);
    let text = crate::canonical::fraction_text(datetime.time.frac % 1_000_000_000);
    assert((Seq::<char>::empty() + text) + Seq::<char>::empty() =~= text);
}

/// The text of the time of day that the canonical pattern writes is the
/// canonical text of the time of day.
pub proof fn lemma_time_items_text(x: NaiveDateTime)
    requires
        x.wf(),
    ensures
        items_text(canonical_time_items(), x@) == Some(crate::canonical::time_text(x@.time)),
{
    let d = x@;
    let i5 = canonical_tail();
    let i4 = field(Numeric::Second) + i5;
    let i3 = mark(':') + i4;
    let i2 = field(Numeric::Minute) + i3;
    let i1 = mark(':') + i2;
    lemma_tail_text(d);
    lemma_field_text(Numeric::Second, d);
    lemma_items_text_concat(field(Numeric::Second), i5, d);
    lemma_mark_text(':', d);
    lemma_items_text_concat(mark(':'), i4, d);
    lemma_field_text(Numeric::Minute, d);
    lemma_items_text_concat(field(Numeric::Minute), i3, d);
    lemma_items_text_concat(mark(':'), i2, d);
    lemma_field_text(Numeric::Hour, d);
    lemma_items_text_concat(field(Numeric::Hour), i1, d);
    let empty = Seq::<char>::empty();
    let hour = decimal(d.time.hour() as nat, 2);
    let minute = decimal(d.time.minute() as nat, 2);
    let second = decimal(crate::canonical::shown_second(d.time) as nat, 2);
    assert(crate::format::numeric_text(Numeric::Hour, Pad::Zero, d) =~= hour);
    assert(crate::format::numeric_text(Numeric::Minute, Pad::Zero, d) =~= minute);
    assert(crate::format::numeric_text(Numeric::Second, Pad::Zero, d) =~= second);
    let fraction = crate::canonical::fraction_text(crate::canonical::shown_nano(d.time));
    assert(hour + (seq![':'] + (minute + (seq![':'] + (second + fraction))))
        =~= crate::canonical::time_text(d.time));
}

/// The text that the canonical pattern writes is the canonical text.
pub proof fn lemma_canonical_items_text(x: NaiveDateTime)
    requires
        x.wf(),
    ensures
        items_text(canonical_items(), x@) == Some(datetime_text(x@)),
{
    let d = x@;
    lemma_fields_of_days(d.date);
    let i6 = canonical_time_items();
    let i5 = mark('T') + i6;
    let i4 = field(Numeric::Day) + i5;
    let i3 = mark('-') + i4;
    let i2 = field(Numeric::Month) + i3;
    let i1 = mark('-') + i2;
    lemma_time_items_text(x);
    lemma_mark_text('T', d);
    lemma_items_text_concat(mark('T'), i6, d);
    lemma_field_text(Numeric::Day, d);
    lemma_items_text_concat(field(Numeric::Day), i5, d);
    lemma_mark_text('-', d);
    lemma_items_text_concat(mark('-'), i4, d);
    lemma_field_text(Numeric::Month, d);
    lemma_items_text_concat(field(Numeric::Month), i3, d);
    lemma_items_text_concat(mark('-'), i2, d);
    lemma_field_text(Numeric::Year, d);
    lemma_items_text_concat(field(Numeric::Year), i1, d);
    let year = crate::canonical::year_text(year_of_days(d.date));
    let month = decimal(month_of_days(d.date) as nat, 2);
    let day = decimal(day_of_days(d.date) as nat, 2);
    let time = crate::canonical::time_text(d.time);
    crate::text::lemma_decimal_width_zero(crate::format::magnitude(year_of_days(d.date)));
    assert(crate::format::numeric_text(Numeric::Year, Pad::Zero, d) =~= year);
    assert(crate::format::numeric_text(Numeric::Month, Pad::Zero, d) =~= month);
    assert(crate::format::numeric_text(Numeric::Day, Pad::Zero, d) =~= day);
    assert(year + (seq!['-'] + (month + (seq!['-'] + (day + (seq!['T'] + time)))))
        =~= datetime_text(d));
}

/// Reading after the canonical pattern the text that the canonical pattern
/// writes gives the date and time back, wherever its canonical text names
/// it.
pub proof fn lemma_canonical_items_round_trip(x: NaiveDateTime)
    requires
        x.wf(),
        crate::canonical::text_names(x@),
    ensures
        items_text(canonical_items(), x@) is Some,
        parse_text(canonical_items(), items_text(canonical_items(), x@)->0) == Ok::<
            DateTimeModel,
            ParseError,
        >(x@),
{
    lemma_canonical_items_text(x);
    lemma_canonical_items_parse(datetime_text(x@));
    crate::canonical::lemma_parse_datetime_text(x);
}

/// Adds white space of no length to the items.
fn push_gap(items: &mut Vec<Item>)
    ensures
        items_view(final(items)@) == items_view(old(items)@).push(gap()),
{
    let item = Item::Space(String::new());
    proof {
        lemma_items_view_push(items@, item);
    }
    items.push(item);
}

/// Adds a number filled with zeros that white space may precede to the
/// items.
fn push_field(items: &mut Vec<Item>, kind: Numeric)
    ensures
        items_view(final(items)@) == items_view(old(items)@) + field(kind),
{
    push_gap(items);
    let item = Item::Numeric(kind, Pad::Zero);
    proof {
        lemma_items_view_push(items@, item);
    }
    items.push(item);
    assert(items_view(items@) =~= items_view(old(items)@) + field(kind));
}

/// Adds `-`, `:` or `T`, which white space may precede, to the items.
fn push_mark(items: &mut Vec<Item>, c: char)
    requires
        c == '-' || c == ':' || c == 'T',
    ensures
        items_view(final(items)@) == items_view(old(items)@) + mark(c),
{
    push_gap(items);
    proof {
        reveal_strlit("-");
        reveal_strlit(":");
        reveal_strlit("T");
    }
    let text = if c == '-' {
        "-"
    } else if c == ':' {
        ":"
    } else {
        "T"
    };
    assert(text@ =~= seq![c]);
    let item = Item::Literal(text.to_owned());
    proof {
        lemma_items_view_push(items@, item);
    }
    items.push(item);
    assert(items_view(items@) =~= items_view(old(items)@) + mark(c));
}

/// The items of the canonical pattern.
pub fn canonical_pattern() -> (r: Vec<Item>)
    ensures
        items_view(r@) == canonical_items(),
{
    let mut items: Vec<Item> = Vec::new();
    assert(items_view(items@) =~= Seq::<ItemModel>::empty());
    push_field(&mut items, Numeric::Year);
    push_mark(&mut items, '-');
    push_field(&mut items, Numeric::Month);
    push_mark(&mut items, '-');
    push_field(&mut items, Numeric::Day);
    push_mark(&mut items, 'T');
    push_field(&mut items, Numeric::Hour);
    push_mark(&mut items, ':');
    push_field(&mut items, Numeric::Minute);
    push_mark(&mut items, ':');
    push_field(&mut items, Numeric::Second);
    let item = Item::Fixed(Fixed::Nanosecond);
    proof {
        lemma_items_view_push(items@, item);
    }
    items.push(item);
    push_gap(&mut items);
    assert(items_view(items@) =~= canonical_items());
    items
}

} // verus!
