//! The items that a pattern for formatting and parsing is made of.

use vstd::prelude::*;

verus! {

/// How a number is filled up to its width.
#[derive(Clone, Copy, PartialEq, Eq, Structural, Hash, Debug)]
pub enum Pad {
    /// Not at all.
    Unpadded,
    /// With zeros, after the sign.
    Zero,
    /// With blanks, before the sign.
    Space,
}

/// The numbers that an item can stand for.
#[derive(Clone, Copy, PartialEq, Eq, Structural, Hash, Debug)]
pub enum Numeric {
    /// The year.
    Year,
    /// The year divided by 100, rounded down.
    YearDiv100,
    /// The year modulo 100, never negative.
    YearMod100,
    /// The ISO 8601 week-numbering year.
    IsoYear,
    /// The week-numbering year divided by 100, rounded down.
    IsoYearDiv100,
    /// The week-numbering year modulo 100, never negative.
    IsoYearMod100,
    /// The month, 1 to 12.
    Month,
    /// The day of the month, 1 to 31.
    Day,
    /// The week of the year, where week 1 starts on the first Sunday.
    WeekFromSun,
    /// The week of the year, where week 1 starts on the first Monday.
    WeekFromMon,
    /// The ISO 8601 week, 1 to 53.
    IsoWeek,
    /// The day of the week, 0 for Sunday to 6 for Saturday.
    NumDaysFromSun,
    /// The day of the week, 1 for Monday to 7 for Sunday.
    WeekdayFromMon,
    /// The day of the year, 1 to 366.
    Ordinal,
    /// The hour, 0 to 23.
    Hour,
    /// The hour on a twelve-hour clock, 1 to 12.
    Hour12,
    /// The minute, 0 to 59.
    Minute,
    /// The second, 0 to 60.
    Second,
    /// The nanoseconds since the last whole second.
    Nanosecond,
    /// The seconds since midnight of January 1, 1970.
    Timestamp,
}

/// The items with a text of their own.
#[derive(Clone, Copy, PartialEq, Eq, Structural, Hash, Debug)]
pub enum Fixed {
    /// The name of the month in three letters.
    ShortMonthName,
    /// The full name of the month.
    LongMonthName,
    /// The name of the day of the week in three letters.
    ShortWeekdayName,
    /// The full name of the day of the week.
    LongWeekdayName,
    /// `am` or `pm`.
    LowerAmPm,
    /// `AM` or `PM`.
    UpperAmPm,
    /// A point and the fraction of the second in three, six or nine digits,
    /// or nothing where the fraction is zero.
    Nanosecond,
    /// A point and the milliseconds in three digits.
    Nanosecond3,
    /// A point and the microseconds in six digits.
    Nanosecond6,
    /// A point and the nanoseconds in nine digits.
    Nanosecond9,
    /// The name of a time zone.
    TimezoneName,
    /// The offset of a time zone as `+09:00`.
    TimezoneOffsetColon,
    /// The offset of a time zone as `+09:00`, or `Z`.
    TimezoneOffsetColonZ,
    /// The offset of a time zone as `+0900`.
    TimezoneOffset,
    /// The offset of a time zone as `+0900`, or `Z`.
    TimezoneOffsetZ,
    /// A date and time with an offset as RFC 3339 writes it.
    RFC3339,
}

/// One item of a pattern.
#[derive(Clone, PartialEq, Eq, Hash, Debug)]
pub enum Item {
    /// A text that stands for itself.
    Literal(String),
    /// White space: written as it is, read as any white space or none.
    Space(String),
    /// A number and its padding.
    Numeric(Numeric, Pad),
    /// An item with a text of its own.
    Fixed(Fixed),
    /// A mistake in the pattern. It fails when the pattern is used.
    Error,
}

/// The mathematical model of an item: its texts are sequences of characters.
pub enum ItemModel {
    /// A text that stands for itself.
    Literal(Seq<char>),
    /// White space.
    Space(Seq<char>),
    /// A number and its padding.
    Numeric(Numeric, Pad),
    /// An item with a text of its own.
    Fixed(Fixed),
    /// A mistake in the pattern.
    Error,
}

impl View for Item {
    type V = ItemModel;

    open spec fn view(&self) -> ItemModel {
        match self {
            Item::Literal(s) => ItemModel::Literal(s@),
            Item::Space(s) => ItemModel::Space(s@),
            Item::Numeric(kind, pad) => ItemModel::Numeric(*kind, *pad),
            Item::Fixed(kind) => ItemModel::Fixed(*kind),
            Item::Error => ItemModel::Error,
        }
    }
}

/// The models of a sequence of items.
pub open spec fn items_view(items: Seq<Item>) -> Seq<ItemModel> {
    Seq::new(items.len(), |i: int| items[i]@)
}

/// The width to which an item fills its number.
pub open spec fn numeric_width(kind: Numeric) -> nat {
    match kind {
        Numeric::Year => 4,
        Numeric::YearDiv100 => 2,
        Numeric::YearMod100 => 2,
        Numeric::IsoYear => 4,
        Numeric::IsoYearDiv100 => 2,
        Numeric::IsoYearMod100 => 2,
        Numeric::Month => 2,
        Numeric::Day => 2,
        Numeric::WeekFromSun => 2,
        Numeric::WeekFromMon => 2,
        Numeric::IsoWeek => 2,
        Numeric::NumDaysFromSun => 1,
        Numeric::WeekdayFromMon => 1,
        Numeric::Ordinal => 3,
        Numeric::Hour => 2,
        Numeric::Hour12 => 2,
        Numeric::Minute => 2,
        Numeric::Second => 2,
        Numeric::Nanosecond => 9,
        Numeric::Timestamp => 1,
    }
}

/// The width to which an item fills its number.
pub fn width_of(kind: Numeric) -> (r: u32)
    ensures
        r == numeric_width(kind),
{
    match kind {
        Numeric::Year => 4,
        Numeric::YearDiv100 => 2,
        Numeric::YearMod100 => 2,
        Numeric::IsoYear => 4,
        Numeric::IsoYearDiv100 => 2,
        Numeric::IsoYearMod100 => 2,
        Numeric::Month => 2,
        Numeric::Day => 2,
        Numeric::WeekFromSun => 2,
        Numeric::WeekFromMon => 2,
        Numeric::IsoWeek => 2,
        Numeric::NumDaysFromSun => 1,
        Numeric::WeekdayFromMon => 1,
        Numeric::Ordinal => 3,
        Numeric::Hour => 2,
        Numeric::Hour12 => 2,
        Numeric::Minute => 2,
        Numeric::Second => 2,
        Numeric::Nanosecond => 9,
        Numeric::Timestamp => 1,
    }
}

} // verus!
