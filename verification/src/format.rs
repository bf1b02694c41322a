//! Writing a date and time after a pattern.
//!
//! Each item of a pattern has a text for a given date and time, or none:
//! an item that asks for a time zone has none, since the date and time has
//! no time zone, nor has an `Error` item. The text of a pattern is the texts
//! of its items one after another, and there is none if one item has none.

use vstd::prelude::*;
use crate::calendar::{
    day_of_days, iso_week_of_days, iso_year_of_days, month_of_days, ordinal_of_days,
    weekday_index, year_of_days,
};
use crate::canonical::fraction_text;
use crate::datetime::{DateTimeModel, NaiveDateTime};
use crate::item::{items_view, numeric_width, width_of, Fixed, Item, ItemModel, Numeric, Pad};
use crate::numeric::floor_div_mod;
use crate::strftime::{pattern_items, strftime_items};
use crate::text::{decimal, decimal_len, lemma_decimal_width_zero, push_decimal};

verus! {

/// The error of a pattern that cannot be written for a date and time.
#[derive(Clone, Copy, PartialEq, Eq, Structural, Hash, Debug)]
pub struct FormatError;

/// A number of blanks.
pub open spec fn blanks(count: int) -> Seq<char> {
    Seq::new(
        if count > 0 {
            count as nat
        } else {
            0
        },
        |i: int| ' ',
    )
}

/// The sign that a number is written with: `-` below zero, and `+` from
/// zero on where a sign is asked for.
pub open spec fn sign_text(value: int, plus: bool) -> Seq<char> {
    if value < 0 {
        seq!['-']
    } else if plus {
        seq!['+']
    } else {
        Seq::<char>::empty()
    }
}

/// The magnitude of a number.
pub open spec fn magnitude(value: int) -> nat {
    if value < 0 {
        (-value) as nat
    } else {
        value as nat
    }
}

/// The text of a number that is filled up to a width. The sign counts
/// toward the width. Zeros stand between the sign and the digits, blanks
/// before the sign.
pub open spec fn padded_text(value: int, width: int, pad: Pad, plus: bool) -> Seq<char> {
    let sign = sign_text(value, plus);
    let digits = decimal(magnitude(value), 0);
    match pad {
        Pad::Unpadded => sign + digits,
        Pad::Zero => sign + decimal(
            magnitude(value),
            if width > sign.len() {
                (width - sign.len()) as nat
            } else {
                0
            },
        ),
        Pad::Space => blanks(width - sign.len() - digits.len()) + sign + digits,
    }
}

/// The hour on a twelve-hour clock, 1 to 12.
pub open spec fn hour12(hour: int) -> int {
    if hour % 12 == 0 {
        12
    } else {
        hour % 12
    }
}

/// The day of the week of a day number, counted from 0 for Sunday.
pub open spec fn days_from_sunday(days: int) -> int {
    (weekday_index(days) + 1) % 7
}

/// The week of the year of a day number, where week 1 starts on the first
/// Sunday of the year and the days before it are week 0.
pub open spec fn week_from_sunday(days: int) -> int {
    (ordinal_of_days(days) - days_from_sunday(days) + 6) / 7
}

/// The week of the year of a day number, where week 1 starts on the first
/// Monday of the year and the days before it are week 0.
pub open spec fn week_from_monday(days: int) -> int {
    (ordinal_of_days(days) - weekday_index(days) + 6) / 7
}

/// The number that a numeric item stands for.
pub open spec fn numeric_value(kind: Numeric, datetime: DateTimeModel) -> int {
    let date = datetime.date;
    let time = datetime.time;
    match kind {
        Numeric::Year => year_of_days(date),
        Numeric::YearDiv100 => year_of_days(date) / 100,
        Numeric::YearMod100 => year_of_days(date) % 100,
        Numeric::IsoYear => iso_year_of_days(date),
        Numeric::IsoYearDiv100 => iso_year_of_days(date) / 100,
        Numeric::IsoYearMod100 => iso_year_of_days(date) % 100,
        Numeric::Month => month_of_days(date),
        Numeric::Day => day_of_days(date),
        Numeric::WeekFromSun => week_from_sunday(date),
        Numeric::WeekFromMon => week_from_monday(date),
        Numeric::IsoWeek => iso_week_of_days(date),
        Numeric::NumDaysFromSun => days_from_sunday(date),
        Numeric::WeekdayFromMon => weekday_index(date) + 1,
        Numeric::Ordinal => ordinal_of_days(date),
        Numeric::Hour => time.hour(),
        Numeric::Hour12 => hour12(time.hour()),
        Numeric::Minute => time.minute(),
        Numeric::Second => time.second() + time.frac / 1_000_000_000,
        Numeric::Nanosecond => time.frac % 1_000_000_000,
        Numeric::Timestamp => datetime.timestamp(),
    }
}

/// Whether a number is a year that has no four-digit form, and is written
/// with a sign and one more place.
pub open spec fn is_long_year(kind: Numeric, value: int) -> bool {
    (kind == Numeric::Year || kind == Numeric::IsoYear) && !(0 <= value < 10_000)
}

/// The text of a numeric item.
pub open spec fn numeric_text(kind: Numeric, pad: Pad, datetime: DateTimeModel) -> Seq<char> {
    let value = numeric_value(kind, datetime);
    if is_long_year(kind, value) {
        padded_text(value, numeric_width(kind) as int + 1, pad, true)
    } else {
        padded_text(value, numeric_width(kind) as int, pad, false)
    }
}

/// The name of a month in three letters. The month is counted from 1.
pub open spec fn short_month_name(month: int) -> Seq<char> {
    if month <= 1 {
        "Jan"@
    } else if month == 2 {
        "Feb"@
    } else if month == 3 {
        "Mar"@
    } else if month == 4 {
        "Apr"@
    } else if month == 5 {
        "May"@
    } else if month == 6 {
        "Jun"@
    } else if month == 7 {
        "Jul"@
    } else if month == 8 {
        "Aug"@
    } else if month == 9 {
        "Sep"@
    } else if month == 10 {
        "Oct"@
    } else if month == 11 {
        "Nov"@
    } else {
        "Dec"@
    }
}

/// The full name of a month. The month is counted from 1.
pub open spec fn long_month_name(month: int) -> Seq<char> {
    if month <= 1 {
        "January"@
    } else if month == 2 {
        "February"@
    } else if month == 3 {
        "March"@
    } else if month == 4 {
        "April"@
    } else if month == 5 {
        "May"@
    } else if month == 6 {
        "June"@
    } else if month == 7 {
        "July"@
    } else if month == 8 {
        "August"@
    } else if month == 9 {
        "September"@
    } else if month == 10 {
        "October"@
    } else if month == 11 {
        "November"@
    } else {
        "December"@
    }
}

/// The name of a day of the week in three letters. The day is counted from
/// 0 for Monday.
pub open spec fn short_weekday_name(index: int) -> Seq<char> {
    if index <= 0 {
        "Mon"@
    } else if index == 1 {
        "Tue"@
    } else if index == 2 {
        "Wed"@
    } else if index == 3 {
        "Thu"@
    } else if index == 4 {
        "Fri"@
    } else if index == 5 {
        "Sat"@
    } else {
        "Sun"@
    }
}

/// The full name of a day of the week. The day is counted from 0 for
/// Monday.
pub open spec fn long_weekday_name(index: int) -> Seq<char> {
    if index <= 0 {
        "Monday"@
    } else if index == 1 {
        "Tuesday"@
    } else if index == 2 {
        "Wednesday"@
    } else if index == 3 {
        "Thursday"@
    } else if index == 4 {
        "Friday"@
    } else if index == 5 {
        "Saturday"@
    } else {
        "Sunday"@
    }
}

/// The text of an item that has a text of its own, or `None` for an item
/// that asks for a time zone.
pub open spec fn fixed_text(kind: Fixed, datetime: DateTimeModel) -> Option<Seq<char>> {
    let date = datetime.date;
    let time = datetime.time;
    let nano = time.frac % 1_000_000_000;
    match kind {
        Fixed::ShortMonthName => Some(short_month_name(month_of_days(date))),
        Fixed::LongMonthName => Some(long_month_name(month_of_days(date))),
        Fixed::ShortWeekdayName => Some(short_weekday_name(weekday_index(date))),
        Fixed::LongWeekdayName => Some(long_weekday_name(weekday_index(date))),
        Fixed::LowerAmPm => Some(
            if time.hour() >= 12 {
                "pm"@
            } else {
                "am"@
            },
        ),
        Fixed::UpperAmPm => Some(
            if time.hour() >= 12 {
                "PM"@
            } else {
                "AM"@
            },
        ),
        Fixed::Nanosecond => Some(fraction_text(nano)),
        Fixed::Nanosecond3 => Some(seq!['.'] + decimal((nano / 1_000_000) as nat, 3)),
        Fixed::Nanosecond6 => Some(seq!['.'] + decimal((nano / 1_000) as nat, 6)),
        Fixed::Nanosecond9 => Some(seq!['.'] + decimal(nano as nat, 9)),
        Fixed::TimezoneName => None,
        Fixed::TimezoneOffsetColon => None,
        Fixed::TimezoneOffsetColonZ => None,
        Fixed::TimezoneOffset => None,
        Fixed::TimezoneOffsetZ => None,
        Fixed::RFC3339 => None,
    }
}

/// The text of one item, or `None` where it has none.
pub open spec fn item_text(item: ItemModel, datetime: DateTimeModel) -> Option<Seq<char>> {
    match item {
        ItemModel::Literal(text) => Some(text),
        ItemModel::Space(text) => Some(text),
        ItemModel::Numeric(kind, pad) => Some(numeric_text(kind, pad, datetime)),
        ItemModel::Fixed(kind) => fixed_text(kind, datetime),
        ItemModel::Error => None,
    }
}

/// The text of a sequence of items: their texts one after another, or
/// `None` where one of them has none.
pub open spec fn items_text(items: Seq<ItemModel>, datetime: DateTimeModel) -> Option<Seq<char>>
    decreases items.len(),
{
    if items.len() == 0 {
        Some(Seq::<char>::empty())
    } else {
        match items_text(items.drop_last(), datetime) {
            None => None,
            Some(text) => match item_text(items.last(), datetime) {
                None => None,
                Some(last) => Some(text + last),
            },
        }
    }
}

/// Items after one without a text do not bring the text back.
pub proof fn lemma_items_text_none(items: Seq<ItemModel>, datetime: DateTimeModel, count: int)
    requires
        0 <= count <= items.len(),
        items_text(items.take(count), datetime) is None,
    ensures
        items_text(items, datetime) is None,
    decreases items.len() - count,
{
    if count < items.len() {
        assert(items.take(count + 1).drop_last() =~= items.take(count));
        lemma_items_text_none(items, datetime, count + 1);
    } else {
        assert(items.take(count) =~= items);
    }
}

/// Writes a number of blanks at the end of a text.
fn push_blanks(out: &mut String, count: u32)
    ensures
        final(out)@ == old(out)@ + blanks(count as int),
{
    let mut i: u32 = 0;
    assert(out@ =~= old(out)@ + blanks(0));
    while i < count
        invariant
            i <= count,
            out@ == old(out)@ + blanks(i as int),
        decreases count - i,
    {
        out.append(" ");
        i = i + 1;
        proof {
            reveal_strlit(" ");
        }
        assert(" "@ =~= seq![' ']);
        assert(blanks(i as int) =~= blanks(i - 1) + seq![' ']);
        assert(out@ =~= old(out)@ + blanks(i as int));
    }
}

/// Writes a number that is filled up to a width at the end of a text.
fn push_padded(out: &mut String, value: i64, width: u32, pad: Pad, plus: bool)
    requires
        value > i64::MIN,
        width <= 10,
    ensures
        final(out)@ == old(out)@ + padded_text(value as int, width as int, pad, plus),
{
    let size: u64 = if value < 0 {
        (-value) as u64
    } else {
        value as u64
    };
    let signed = value < 0 || plus;
    let sign_len: u32 = if signed {
        1
    } else {
        0
    };
    proof {
        reveal_strlit("-");
        reveal_strlit("+");
        lemma_decimal_width_zero(size as nat);
    }
    if let Pad::Space = pad {
        let used = sign_len + decimal_len(size);
        if width > used {
            push_blanks(out, width - used);
        } else {
            assert(out@ =~= old(out)@ + blanks(width - used));
        }
    }
    if value < 0 {
        out.append("-");
    } else if plus {
        out.append("+");
    }
    match pad {
        Pad::Zero => {
            let rest: u32 = if width > sign_len {
                width - sign_len
            } else {
                0
            };
            push_decimal(out, size, rest);
        },
        _ => {
            push_decimal(out, size, 0);
        },
    }
    assert(out@ =~= old(out)@ + padded_text(value as int, width as int, pad, plus));
}

/// The number that a numeric item stands for.
fn numeric_of(kind: Numeric, datetime: &NaiveDateTime) -> (r: i64)
    ensures
        r == numeric_value(kind, datetime@),
        -100_000_000_000_000 <= r <= 100_000_000_000_000,
{
    let date = datetime.date();
    let time = datetime.time();
    proof {
        use_type_invariant(date);
        use_type_invariant(time);
    }
    match kind {
        Numeric::Year => date.year() as i64,
        Numeric::YearDiv100 => floor_div_mod(date.year() as i64, 100).0,
        Numeric::YearMod100 => floor_div_mod(date.year() as i64, 100).1,
        Numeric::IsoYear => date.isoweekdate().0 as i64,
        Numeric::IsoYearDiv100 => floor_div_mod(date.isoweekdate().0 as i64, 100).0,
        Numeric::IsoYearMod100 => floor_div_mod(date.isoweekdate().0 as i64, 100).1,
        Numeric::Month => date.month() as i64,
        Numeric::Day => date.day() as i64,
        Numeric::WeekFromSun => {
            let offset = date.weekday().num_days_from_sunday() as i64;
            (date.ordinal() as i64 - offset + 6) / 7
        },
        Numeric::WeekFromMon => {
            let offset = date.weekday().num_days_from_monday() as i64;
            (date.ordinal() as i64 - offset + 6) / 7
        },
        Numeric::IsoWeek => date.isoweekdate().1 as i64,
        Numeric::NumDaysFromSun => date.weekday().num_days_from_sunday() as i64,
        Numeric::WeekdayFromMon => date.weekday().num_days_from_monday() as i64 + 1,
        Numeric::Ordinal => date.ordinal() as i64,
        Numeric::Hour => time.hour() as i64,
        Numeric::Hour12 => {
            let hour = time.hour() % 12;
            if hour == 0 {
                12
            } else {
                hour as i64
            }
        },
        Numeric::Minute => time.minute() as i64,
        Numeric::Second => (time.second() + time.nanosecond() / 1_000_000_000) as i64,
        Numeric::Nanosecond => (time.nanosecond() % 1_000_000_000) as i64,
        Numeric::Timestamp => datetime.timestamp(),
    }
}

/// The name of a month in three letters. The month is counted from 1.
pub fn short_month(month: u32) -> (r: &'static str)
    ensures
        r@ == short_month_name(month as int),
{
    if month <= 1 {
        "Jan"
    } else if month == 2 {
        "Feb"
    } else if month == 3 {
        "Mar"
    } else if month == 4 {
        "Apr"
    } else if month == 5 {
        "May"
    } else if month == 6 {
        "Jun"
    } else if month == 7 {
        "Jul"
    } else if month == 8 {
        "Aug"
    } else if month == 9 {
        "Sep"
    } else if month == 10 {
        "Oct"
    } else if month == 11 {
        "Nov"
    } else {
        "Dec"
    }
}

/// The full name of a month. The month is counted from 1.
pub fn long_month(month: u32) -> (r: &'static str)
    ensures
        r@ == long_month_name(month as int),
{
    if month <= 1 {
        "January"
    } else if month == 2 {
        "February"
    } else if month == 3 {
        "March"
    } else if month == 4 {
        "April"
    } else if month == 5 {
        "May"
    } else if month == 6 {
        "June"
    } else if month == 7 {
        "July"
    } else if month == 8 {
        "August"
    } else if month == 9 {
        "September"
    } else if month == 10 {
        "October"
    } else if month == 11 {
        "November"
    } else {
        "December"
    }
}

/// The name of a day of the week in three letters. The day is counted from
/// 0 for Monday.
pub fn short_weekday(index: u32) -> (r: &'static str)
    ensures
        r@ == short_weekday_name(index as int),
{
    if index == 0 {
        "Mon"
    } else if index == 1 {
        "Tue"
    } else if index == 2 {
        "Wed"
    } else if index == 3 {
        "Thu"
    } else if index == 4 {
        "Fri"
    } else if index == 5 {
        "Sat"
    } else {
        "Sun"
    }
}

/// The full name of a day of the week. The day is counted from 0 for
/// Monday.
pub fn long_weekday(index: u32) -> (r: &'static str)
    ensures
        r@ == long_weekday_name(index as int),
{
    if index == 0 {
        "Monday"
    } else if index == 1 {
        "Tuesday"
    } else if index == 2 {
        "Wednesday"
    } else if index == 3 {
        "Thursday"
    } else if index == 4 {
        "Friday"
    } else if index == 5 {
        "Saturday"
    } else {
        "Sunday"
    }
}

/// Writes the text of an item that has a text of its own at the end of a
/// text. Writes nothing where the item has none.
fn push_fixed_text(out: &mut String, kind: Fixed, datetime: &NaiveDateTime) -> (r: Result<
    (),
    FormatError,
>)
    ensures
        match r {
            Ok(_) => fixed_text(kind, datetime@) is Some && final(out)@ == old(out)@ + fixed_text(
                kind,
                datetime@,
            )->0,
            Err(_) => fixed_text(kind, datetime@) is None && final(out)@ == old(out)@,
        },
{
    let date = datetime.date();
    let time = datetime.time();
    let nano = time.nanosecond() % 1_000_000_000;
    proof {
        reveal_strlit(".");
    }
    match kind {
        Fixed::ShortMonthName => out.append(short_month(date.month())),
        Fixed::LongMonthName => out.append(long_month(date.month())),
        Fixed::ShortWeekdayName => out.append(short_weekday(date.weekday().num_days_from_monday())),
        Fixed::LongWeekdayName => out.append(long_weekday(date.weekday().num_days_from_monday())),
        Fixed::LowerAmPm => out.append(
            if time.hour() >= 12 {
                "pm"
            } else {
                "am"
            },
        ),
        Fixed::UpperAmPm => out.append(
            if time.hour() >= 12 {
                "PM"
            } else {
                "AM"
            },
        ),
        Fixed::Nanosecond => {
            if nano == 0 {
            } else if nano % 1_000_000 == 0 {
                out.append(".");
                push_decimal(out, (nano / 1_000_000) as u64, 3);
            } else if nano % 1_000 == 0 {
                out.append(".");
                push_decimal(out, (nano / 1_000) as u64, 6);
            } else {
                out.append(".");
                push_decimal(out, nano as u64, 9);
            }
            assert(out@ =~= old(out)@ + fraction_text(nano as int));
        },
        Fixed::Nanosecond3 => {
            out.append(".");
            push_decimal(out, (nano / 1_000_000) as u64, 3);
            assert(out@ =~= old(out)@ + (seq!['.'] + decimal((nano / 1_000_000) as nat, 3)));
        },
        Fixed::Nanosecond6 => {
            out.append(".");
            push_decimal(out, (nano / 1_000) as u64, 6);
            assert(out@ =~= old(out)@ + (seq!['.'] + decimal((nano / 1_000) as nat, 6)));
        },
        Fixed::Nanosecond9 => {
            out.append(".");
            push_decimal(out, nano as u64, 9);
            assert(out@ =~= old(out)@ + (seq!['.'] + decimal(nano as nat, 9)));
        },
        _ => {
            return Err(FormatError);
        },
    }
    Ok(())
}

/// A request to write a date and time after a pattern.
///
/// Nothing is written, and no mistake in the pattern is found, before the
/// request is rendered. It can be rendered any number of times.
#[derive(Clone, Debug)]
pub struct DelayedFormat {
    datetime: NaiveDateTime,
    items: Vec<Item>,
}

impl DelayedFormat {
    /// The date and time to write.
    pub closed spec fn datetime(self) -> DateTimeModel {
        self.datetime@
    }

    /// The items of the pattern.
    pub closed spec fn items(self) -> Seq<ItemModel> {
        items_view(self.items@)
    }

    /// The text that the request renders to, or `None` where the pattern
    /// cannot be written.
    pub open spec fn text(self) -> Option<Seq<char>> {
        items_text(self.items(), self.datetime())
    }

    /// A request to write a date and time after the items of a pattern.
    pub fn new(datetime: NaiveDateTime, items: Vec<Item>) -> (r: DelayedFormat)
        ensures
            r.datetime() == datetime@,
            r.items() == items_view(items@),
    {
        DelayedFormat { datetime, items }
    }

    /// Writes the date and time after the pattern. Fails where the pattern
    /// holds an `Error` item or an item that asks for a time zone.
    pub fn render(&self) -> (r: Result<String, FormatError>)
        ensures
            match r {
                Ok(text) => self.text() == Some(text@),
                Err(_) => self.text() is None,
            },
    {
        let mut out = String::new();
        let ghost items = items_view(self.items@);
        let ghost datetime = self.datetime@;
        let mut i: usize = 0;
        assert(items.take(0) =~= Seq::<ItemModel>::empty());
        while i < self.items.len()
            invariant
                i <= self.items.len(),
                items == items_view(self.items@),
                datetime == self.datetime@,
                items_text(items.take(i as int), datetime) == Some(out@),
            decreases self.items.len() - i,
        {
            let ghost before = out@;
            proof {
                assert(items.take(i + 1).drop_last() =~= items.take(i as int));
                assert(items.take(i + 1).last() == self.items@[i as int]@);
            }
            match &self.items[i] {
                Item::Literal(text) => {
                    out.append(text.as_str());
                },
                Item::Space(text) => {
                    out.append(text.as_str());
                },
                Item::Numeric(kind, pad) => {
                    let value = numeric_of(*kind, &self.datetime);
                    let width = width_of(*kind);
                    let long_year = (matches!(kind, Numeric::Year) || matches!(
                        kind,
                        Numeric::IsoYear
                    )) && !(0 <= value && value < 10_000);
                    if long_year {
                        push_padded(&mut out, value, width + 1, *pad, true);
                    } else {
                        push_padded(&mut out, value, width, *pad, false);
                    }
                },
                Item::Fixed(kind) => {
                    match push_fixed_text(&mut out, *kind, &self.datetime) {
                        Ok(_) => {},
                        Err(e) => {
                            proof {
                                lemma_items_text_none(items, datetime, i + 1);
                            }
                            return Err(e);
                        },
                    }
                },
                Item::Error => {
                    proof {
                        lemma_items_text_none(items, datetime, i + 1);
                    }
                    return Err(FormatError);
                },
            }
            i = i + 1;
        }
        assert(items.take(i as int) =~= items);
        Ok(out)
    }

    /// The text of the date and time after the pattern. The pattern must be
    /// one that can be written: see `render`.
    pub fn to_string(&self) -> (r: String)
        requires
            self.text() is Some,
        ensures
            self.text() == Some(r@),
    {
        match self.render() {
            Ok(text) => text,
            Err(_) => vstd::pervasive::unreached(),
        }
    }
}

impl NaiveDateTime {
    /// A request to write the date and time after the items of a pattern.
    pub fn format_with_items(&self, items: Vec<Item>) -> (r: DelayedFormat)
        ensures
            r.datetime() == self@,
            r.items() == items_view(items@),
    {
        DelayedFormat::new(*self, items)
    }

    /// A request to write the date and time after a pattern. A mistake in
    /// the pattern is not found here: it fails when the request is
    /// rendered.
    pub fn format(&self, fmt: &str) -> (r: DelayedFormat)
        ensures
            r.datetime() == self@,
            r.items() == pattern_items(fmt@),
    {
        self.format_with_items(strftime_items(fmt))
    }
}

} // verus!
