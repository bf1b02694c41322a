//! Patterns written as text, in the manner of `strftime`.
//!
//! A pattern is a text in which `%` and a letter stand for a field of a date
//! and time, white space stands for white space, and everything else for
//! itself. This module turns such a text into the items it stands for. A
//! conversion that does not exist becomes an `Error` item: the pattern is
//! not refused here, it fails when it is used.

use vstd::prelude::*;
use crate::item::{items_view, Fixed, Item, ItemModel, Numeric, Pad};
use crate::scan::{is_space, lemma_skip_drop_first, skip_spaces, space, trim_start};
use crate::text::chars_of;

verus! {

/// What a conversion stands for, and the characters it takes up after the
/// `%`.
pub struct Conversion {
    /// The items that the conversion stands for.
    pub items: Seq<ItemModel>,
    /// The number of characters after the `%` that belong to it.
    pub taken: int,
}

/// A number filled with zeros.
pub open spec fn num0(kind: Numeric) -> ItemModel {
    ItemModel::Numeric(kind, Pad::Zero)
}

/// A number filled with blanks.
pub open spec fn nums(kind: Numeric) -> ItemModel {
    ItemModel::Numeric(kind, Pad::Space)
}

/// A number that is not filled.
pub open spec fn num(kind: Numeric) -> ItemModel {
    ItemModel::Numeric(kind, Pad::Unpadded)
}

/// An item with a text of its own.
pub open spec fn fix(kind: Fixed) -> ItemModel {
    ItemModel::Fixed(kind)
}

/// A character that stands for itself.
pub open spec fn lit(c: char) -> ItemModel {
    ItemModel::Literal(seq![c])
}

/// A character of white space.
pub open spec fn sp(c: char) -> ItemModel {
    ItemModel::Space(seq![c])
}

/// The items that hours, minutes and seconds with `:` between them are made
/// of.
pub open spec fn hms_items() -> Seq<ItemModel> {
    seq![
        num0(Numeric::Hour),
        lit(':'),
        num0(Numeric::Minute),
        lit(':'),
        num0(Numeric::Second),
    ]
}

/// The items that month, day and two-digit year with `/` between them are
/// made of.
pub open spec fn mdy_items() -> Seq<ItemModel> {
    seq![
        num0(Numeric::Month),
        lit('/'),
        num0(Numeric::Day),
        lit('/'),
        num0(Numeric::YearMod100),
    ]
}

/// The items that a conversion of one letter stands for. A letter that
/// names no conversion stands for an `Error` item.
pub open spec fn letter_items(c: char) -> Seq<ItemModel> {
    if c == 'A' {
        seq![fix(Fixed::LongWeekdayName)]
    } else if c == 'B' {
        seq![fix(Fixed::LongMonthName)]
    } else if c == 'C' {
        seq![num0(Numeric::YearDiv100)]
    } else if c == 'D' {
        mdy_items()
    } else if c == 'F' {
        seq![
            num0(Numeric::Year),
            lit('-'),
            num0(Numeric::Month),
            lit('-'),
            num0(Numeric::Day),
        ]
    } else if c == 'G' {
        seq![num0(Numeric::IsoYear)]
    } else if c == 'H' {
        seq![num0(Numeric::Hour)]
    } else if c == 'I' {
        seq![num0(Numeric::Hour12)]
    } else if c == 'M' {
        seq![num0(Numeric::Minute)]
    } else if c == 'P' {
        seq![fix(Fixed::LowerAmPm)]
    } else if c == 'R' {
        seq![num0(Numeric::Hour), lit(':'), num0(Numeric::Minute)]
    } else if c == 'S' {
        seq![num0(Numeric::Second)]
    } else if c == 'T' {
        hms_items()
    } else if c == 'U' {
        seq![num0(Numeric::WeekFromSun)]
    } else if c == 'V' {
        seq![num0(Numeric::IsoWeek)]
    } else if c == 'W' {
        seq![num0(Numeric::WeekFromMon)]
    } else if c == 'X' {
        hms_items()
    } else if c == 'Y' {
        seq![num0(Numeric::Year)]
    } else if c == 'Z' {
        seq![fix(Fixed::TimezoneName)]
    } else if c == 'a' {
        seq![fix(Fixed::ShortWeekdayName)]
    } else if c == 'b' {
        seq![fix(Fixed::ShortMonthName)]
    } else if c == 'c' {
        seq![
            fix(Fixed::ShortWeekdayName),
            sp(' '),
            fix(Fixed::ShortMonthName),
            sp(' '),
            nums(Numeric::Day),
            sp(' '),
            num0(Numeric::Hour),
            lit(':'),
            num0(Numeric::Minute),
            lit(':'),
            num0(Numeric::Second),
            sp(' '),
            num0(Numeric::Year),
        ]
    } else if c == 'd' {
        seq![num0(Numeric::Day)]
    } else if c == 'e' {
        seq![nums(Numeric::Day)]
    } else if c == 'f' {
        seq![num0(Numeric::Nanosecond)]
    } else if c == 'g' {
        seq![num0(Numeric::IsoYearMod100)]
    } else if c == 'h' {
        seq![fix(Fixed::ShortMonthName)]
    } else if c == 'j' {
        seq![num0(Numeric::Ordinal)]
    } else if c == 'k' {
        seq![nums(Numeric::Hour)]
    } else if c == 'l' {
        seq![nums(Numeric::Hour12)]
    } else if c == 'm' {
        seq![num0(Numeric::Month)]
    } else if c == 'n' {
        seq![sp('\n')]
    } else if c == 'p' {
        seq![fix(Fixed::UpperAmPm)]
    } else if c == 'r' {
        seq![
            num0(Numeric::Hour12),
            lit(':'),
            num0(Numeric::Minute),
            lit(':'),
            num0(Numeric::Second),
            sp(' '),
            fix(Fixed::UpperAmPm),
        ]
    } else if c == 's' {
        seq![num(Numeric::Timestamp)]
    } else if c == 't' {
        seq![sp('\t')]
    } else if c == 'u' {
        seq![num(Numeric::WeekdayFromMon)]
    } else if c == 'v' {
        seq![
            nums(Numeric::Day),
            lit('-'),
            fix(Fixed::ShortMonthName),
            lit('-'),
            num0(Numeric::Year),
        ]
    } else if c == 'w' {
        seq![num(Numeric::NumDaysFromSun)]
    } else if c == 'x' {
        mdy_items()
    } else if c == 'y' {
        seq![num0(Numeric::YearMod100)]
    } else if c == 'z' {
        seq![fix(Fixed::TimezoneOffset)]
    } else if c == '+' {
        seq![fix(Fixed::RFC3339)]
    } else if c == '%' {
        seq![lit('%')]
    } else {
        seq![ItemModel::Error]
    }
}

/// What the text after a `%`, and after a padding mark if there is one,
/// stands for. `:z` and `.f`, `.3f`, `.6f`, `.9f` take more than one
/// character; a text that ends too early, or goes on otherwise, stands for
/// an `Error` item.
pub open spec fn plain_conversion(s: Seq<char>) -> Conversion {
    let error = seq![ItemModel::Error];
    if s.len() == 0 {
        Conversion { items: error, taken: 0 }
    } else if s[0] == ':' {
        if s.len() < 2 {
            Conversion { items: error, taken: 1 }
        } else if s[1] == 'z' {
            Conversion { items: seq![fix(Fixed::TimezoneOffsetColon)], taken: 2 }
        } else {
            Conversion { items: error, taken: 2 }
        }
    } else if s[0] == '.' {
        if s.len() < 2 {
            Conversion { items: error, taken: 1 }
        } else if s[1] == 'f' {
            Conversion { items: seq![fix(Fixed::Nanosecond)], taken: 2 }
        } else if s[1] == '3' || s[1] == '6' || s[1] == '9' {
            if s.len() < 3 {
                Conversion { items: error, taken: 2 }
            } else if s[2] != 'f' {
                Conversion { items: error, taken: 3 }
            } else if s[1] == '3' {
                Conversion { items: seq![fix(Fixed::Nanosecond3)], taken: 3 }
            } else if s[1] == '6' {
                Conversion { items: seq![fix(Fixed::Nanosecond6)], taken: 3 }
            } else {
                Conversion { items: seq![fix(Fixed::Nanosecond9)], taken: 3 }
            }
        } else {
            Conversion { items: error, taken: 2 }
        }
    } else {
        Conversion { items: letter_items(s[0]), taken: 1 }
    }
}

/// The padding that a mark after the `%` asks for.
pub open spec fn pad_mark(c: char) -> Option<Pad> {
    if c == '-' {
        Some(Pad::Unpadded)
    } else if c == '0' {
        Some(Pad::Zero)
    } else if c == '_' {
        Some(Pad::Space)
    } else {
        None
    }
}

/// The items of a conversion under a padding mark. Only a single number
/// takes one; anything else turns its first item into an `Error` item.
pub open spec fn with_pad(items: Seq<ItemModel>, pad: Pad) -> Seq<ItemModel> {
    if items.len() == 1 && items[0] is Numeric {
        seq![ItemModel::Numeric(items[0]->Numeric_0, pad)]
    } else {
        seq![ItemModel::Error] + items.drop_first()
    }
}

/// What the text after a `%` stands for.
pub open spec fn conversion(s: Seq<char>) -> Conversion {
    if s.len() > 0 && pad_mark(s[0]) is Some {
        let inner = plain_conversion(s.drop_first());
        Conversion { items: with_pad(inner.items, pad_mark(s[0])->0), taken: inner.taken + 1 }
    } else {
        plain_conversion(s)
    }
}

/// A text without the characters at its start that stand for themselves:
/// those that are neither white space nor `%`.
pub open spec fn trim_literal(s: Seq<char>) -> Seq<char>
    decreases s.len(),
{
    if s.len() > 0 && !is_space(s[0]) && s[0] != '%' {
        trim_literal(s.drop_first())
    } else {
        s
    }
}

/// What is left of a text after its white space is a part of its end.
pub proof fn lemma_trim_start_suffix(s: Seq<char>)
    ensures
        trim_start(s).len() <= s.len(),
        s.len() > 0 && is_space(s[0]) ==> trim_start(s).len() < s.len(),
        trim_start(s) == s.skip(s.len() - trim_start(s).len()),
    decreases s.len(),
{
    if s.len() > 0 && is_space(s[0]) {
        lemma_trim_start_suffix(s.drop_first());
        let rest = s.drop_first();
        assert(rest.skip(rest.len() - trim_start(rest).len()) =~= s.skip(
            s.len() - trim_start(s).len(),
        ));
    } else {
        assert(s.skip(0) =~= s);
    }
}

/// What is left of a text after its literal characters is a part of its
/// end.
pub proof fn lemma_trim_literal(s: Seq<char>)
    ensures
        trim_literal(s).len() <= s.len(),
        s.len() > 0 && !is_space(s[0]) && s[0] != '%' ==> trim_literal(s).len() < s.len(),
        trim_literal(s) == s.skip(s.len() - trim_literal(s).len()),
    decreases s.len(),
{
    if s.len() > 0 && !is_space(s[0]) && s[0] != '%' {
        lemma_trim_literal(s.drop_first());
        let rest = s.drop_first();
        assert(rest.skip(rest.len() - trim_literal(rest).len()) =~= s.skip(
            s.len() - trim_literal(s).len(),
        ));
    } else {
        assert(s.skip(0) =~= s);
    }
}

/// The items that a pattern stands for.
///
/// A `%` starts a conversion. A run of white space is one `Space` item, and
/// a run of other characters one `Literal` item.
pub open spec fn pattern_items(s: Seq<char>) -> Seq<ItemModel>
    decreases s.len(),
{
    if s.len() == 0 {
        Seq::<ItemModel>::empty()
    } else if s[0] == '%' {
        proof {
            lemma_conversion_taken(s.drop_first());
        }
        let c = conversion(s.drop_first());
        c.items + pattern_items(s.skip(1 + c.taken))
    } else if is_space(s[0]) {
        proof {
            lemma_trim_start_suffix(s);
        }
        let rest = trim_start(s);
        seq![ItemModel::Space(s.take(s.len() - rest.len()))] + pattern_items(rest)
    } else {
        proof {
            lemma_trim_literal(s);
        }
        let rest = trim_literal(s);
        seq![ItemModel::Literal(s.take(s.len() - rest.len()))] + pattern_items(rest)
    }
}

/// A conversion takes up no more characters than there are.
pub proof fn lemma_conversion_taken(s: Seq<char>)
    ensures
        0 <= conversion(s).taken <= s.len(),
        conversion(s).items.len() >= 1,
{
}

/// Adding an item to a vector adds its model to the models.
pub proof fn lemma_items_view_push(items: Seq<Item>, item: Item)
    ensures
        items_view(items.push(item)) == items_view(items).push(item@),
{
    assert(items_view(items.push(item)) =~= items_view(items).push(item@));
}

/// Adds a number to the items.
fn push_numeric(items: &mut Vec<Item>, kind: Numeric, pad: Pad)
    ensures
        items_view(final(items)@) == items_view(old(items)@).push(ItemModel::Numeric(kind, pad)),
{
    proof {
        lemma_items_view_push(items@, Item::Numeric(kind, pad));
    }
    items.push(Item::Numeric(kind, pad));
}

/// Adds an item with a text of its own to the items.
fn push_fixed(items: &mut Vec<Item>, kind: Fixed)
    ensures
        items_view(final(items)@) == items_view(old(items)@).push(ItemModel::Fixed(kind)),
{
    proof {
        lemma_items_view_push(items@, Item::Fixed(kind));
    }
    items.push(Item::Fixed(kind));
}

/// Adds an `Error` item to the items.
fn push_error(items: &mut Vec<Item>)
    ensures
        items_view(final(items)@) == items_view(old(items)@).push(ItemModel::Error),
{
    proof {
        lemma_items_view_push(items@, Item::Error);
    }
    items.push(Item::Error);
}

/// Adds a text that stands for itself to the items.
fn push_literal(items: &mut Vec<Item>, text: &str)
    ensures
        items_view(final(items)@) == items_view(old(items)@).push(ItemModel::Literal(text@)),
{
    let item = Item::Literal(text.to_owned());
    proof {
        lemma_items_view_push(items@, item);
    }
    items.push(item);
}

/// Adds white space to the items.
fn push_space(items: &mut Vec<Item>, text: &str)
    ensures
        items_view(final(items)@) == items_view(old(items)@).push(ItemModel::Space(text@)),
{
    let item = Item::Space(text.to_owned());
    proof {
        lemma_items_view_push(items@, item);
    }
    items.push(item);
}

/// Adds hours, minutes and seconds with `:` between them to the items.
fn push_hms(items: &mut Vec<Item>)
    ensures
        items_view(final(items)@) == items_view(old(items)@) + hms_items(),
{
    proof {
        reveal_strlit(":");
    }
    push_numeric(items, Numeric::Hour, Pad::Zero);
    push_literal(items, ":");
    push_numeric(items, Numeric::Minute, Pad::Zero);
    push_literal(items, ":");
    push_numeric(items, Numeric::Second, Pad::Zero);
    assert(":"@ =~= seq![':']);
    assert(items_view(items@) =~= items_view(old(items)@) + hms_items());
}

/// Adds month, day and two-digit year with `/` between them to the items.
fn push_mdy(items: &mut Vec<Item>)
    ensures
        items_view(final(items)@) == items_view(old(items)@) + mdy_items(),
{
    proof {
        reveal_strlit("/");
    }
    push_numeric(items, Numeric::Month, Pad::Zero);
    push_literal(items, "/");
    push_numeric(items, Numeric::Day, Pad::Zero);
    push_literal(items, "/");
    push_numeric(items, Numeric::YearMod100, Pad::Zero);
    assert("/"@ =~= seq!['/']);
    assert(items_view(items@) =~= items_view(old(items)@) + mdy_items());
}

/// Adds the items of a conversion of one letter to the items.
fn push_letter(items: &mut Vec<Item>, c: char)
    ensures
        items_view(final(items)@) == items_view(old(items)@) + letter_items(c),
{
    proof {
        reveal_strlit(":");
        reveal_strlit("-");
        reveal_strlit(" ");
        reveal_strlit("\n");
        reveal_strlit("\t");
        reveal_strlit("%");
        assert(":"@ =~= seq![':']);
        assert("-"@ =~= seq!['-']);
        assert(" "@ =~= seq![' ']);
        assert("\n"@ =~= seq!['\n']);
        assert("\t"@ =~= seq!['\t']);
        assert("%"@ =~= seq!['%']);
    }
    if c == 'A' {
        push_fixed(items, Fixed::LongWeekdayName);
    } else if c == 'B' {
        push_fixed(items, Fixed::LongMonthName);
    } else if c == 'C' {
        push_numeric(items, Numeric::YearDiv100, Pad::Zero);
    } else if c == 'D' {
        push_mdy(items);
    } else if c == 'F' {
        push_numeric(items, Numeric::Year, Pad::Zero);
        push_literal(items, "-");
        push_numeric(items, Numeric::Month, Pad::Zero);
        push_literal(items, "-");
        push_numeric(items, Numeric::Day, Pad::Zero);
    } else if c == 'G' {
        push_numeric(items, Numeric::IsoYear, Pad::Zero);
    } else if c == 'H' {
        push_numeric(items, Numeric::Hour, Pad::Zero);
    } else if c == 'I' {
        push_numeric(items, Numeric::Hour12, Pad::Zero);
    } else if c == 'M' {
        push_numeric(items, Numeric::Minute, Pad::Zero);
    } else if c == 'P' {
        push_fixed(items, Fixed::LowerAmPm);
    } else if c == 'R' {
        push_numeric(items, Numeric::Hour, Pad::Zero);
        push_literal(items, ":");
        push_numeric(items, Numeric::Minute, Pad::Zero);
    } else if c == 'S' {
        push_numeric(items, Numeric::Second, Pad::Zero);
    } else if c == 'T' {
        push_hms(items);
    } else if c == 'U' {
        push_numeric(items, Numeric::WeekFromSun, Pad::Zero);
    } else if c == 'V' {
        push_numeric(items, Numeric::IsoWeek, Pad::Zero);
    } else if c == 'W' {
        push_numeric(items, Numeric::WeekFromMon, Pad::Zero);
    } else if c == 'X' {
        push_hms(items);
    } else if c == 'Y' {
        push_numeric(items, Numeric::Year, Pad::Zero);
    } else if c == 'Z' {
        push_fixed(items, Fixed::TimezoneName);
    } else if c == 'a' {
        push_fixed(items, Fixed::ShortWeekdayName);
    } else if c == 'b' {
        push_fixed(items, Fixed::ShortMonthName);
    } else if c == 'c' {
        push_fixed(items, Fixed::ShortWeekdayName);
        push_space(items, " ");
        push_fixed(items, Fixed::ShortMonthName);
        push_space(items, " ");
        push_numeric(items, Numeric::Day, Pad::Space);
        push_space(items, " ");
        push_numeric(items, Numeric::Hour, Pad::Zero);
        push_literal(items, ":");
        push_numeric(items, Numeric::Minute, Pad::Zero);
        push_literal(items, ":");
        push_numeric(items, Numeric::Second, Pad::Zero);
        push_space(items, " ");
        push_numeric(items, Numeric::Year, Pad::Zero);
    } else if c == 'd' {
        push_numeric(items, Numeric::Day, Pad::Zero);
    } else if c == 'e' {
        push_numeric(items, Numeric::Day, Pad::Space);
    } else if c == 'f' {
        push_numeric(items, Numeric::Nanosecond, Pad::Zero);
    } else if c == 'g' {
        push_numeric(items, Numeric::IsoYearMod100, Pad::Zero);
    } else if c == 'h' {
        push_fixed(items, Fixed::ShortMonthName);
    } else if c == 'j' {
        push_numeric(items, Numeric::Ordinal, Pad::Zero);
    } else if c == 'k' {
        push_numeric(items, Numeric::Hour, Pad::Space);
    } else if c == 'l' {
        push_numeric(items, Numeric::Hour12, Pad::Space);
    } else if c == 'm' {
        push_numeric(items, Numeric::Month, Pad::Zero);
    } else if c == 'n' {
        push_space(items, "\n");
    } else if c == 'p' {
        push_fixed(items, Fixed::UpperAmPm);
    } else if c == 'r' {
        push_numeric(items, Numeric::Hour12, Pad::Zero);
        push_literal(items, ":");
        push_numeric(items, Numeric::Minute, Pad::Zero);
        push_literal(items, ":");
        push_numeric(items, Numeric::Second, Pad::Zero);
        push_space(items, " ");
        push_fixed(items, Fixed::UpperAmPm);
    } else if c == 's' {
        push_numeric(items, Numeric::Timestamp, Pad::Unpadded);
    } else if c == 't' {
        push_space(items, "\t");
    } else if c == 'u' {
        push_numeric(items, Numeric::WeekdayFromMon, Pad::Unpadded);
    } else if c == 'v' {
        push_numeric(items, Numeric::Day, Pad::Space);
        push_literal(items, "-");
        push_fixed(items, Fixed::ShortMonthName);
        push_literal(items, "-");
        push_numeric(items, Numeric::Year, Pad::Zero);
    } else if c == 'w' {
        push_numeric(items, Numeric::NumDaysFromSun, Pad::Unpadded);
    } else if c == 'x' {
        push_mdy(items);
    } else if c == 'y' {
        push_numeric(items, Numeric::YearMod100, Pad::Zero);
    } else if c == 'z' {
        push_fixed(items, Fixed::TimezoneOffset);
    } else if c == '+' {
        push_fixed(items, Fixed::RFC3339);
    } else if c == '%' {
        push_literal(items, "%");
    } else {
        push_error(items);
    }
    assert(items_view(items@) =~= items_view(old(items)@) + letter_items(c));
}

/// The position after the characters that stand for themselves and start at
/// a position.
fn skip_literal(v: &Vec<char>, pos: usize) -> (r: usize)
    requires
        pos <= v.len(),
    ensures
        pos <= r <= v.len(),
        v@.skip(r as int) == trim_literal(v@.skip(pos as int)),
{
    let mut i: usize = pos;
    while i < v.len() && !space(v[i]) && v[i] != '%'
        invariant
            pos <= i <= v.len(),
            trim_literal(v@.skip(i as int)) == trim_literal(v@.skip(pos as int)),
        decreases v.len() - i,
    {
        proof {
            lemma_skip_drop_first(v@, i as int);
        }
        i = i + 1;
    }
    proof {
        if i < v.len() {
            lemma_skip_drop_first(v@, i as int);
        }
    }
    i
}

/// Adds the items of the conversion that starts at a position, after the
/// `%` and a padding mark if there is one. Returns the position after it.
fn push_plain_conversion(items: &mut Vec<Item>, v: &Vec<char>, pos: usize) -> (next: usize)
    requires
        pos <= v.len(),
    ensures
        items_view(final(items)@) == items_view(old(items)@) + plain_conversion(
            v@.skip(pos as int),
        ).items,
        next == pos + plain_conversion(v@.skip(pos as int)).taken,
        next <= v.len(),
        final(items)@.len() > old(items)@.len(),
        final(items)@.len() - old(items)@.len() == plain_conversion(
            v@.skip(pos as int),
        ).items.len(),
{
    let ghost before = items_view(items@);
    let ghost s = v@.skip(pos as int);
    let ghost count = items@.len();
    if pos == v.len() {
        push_error(items);
        assert(items_view(items@) =~= before + plain_conversion(s).items);
        assert(items@.len() == items_view(items@).len());
        return pos;
    }
    let c = v[pos];
    let next: usize;
    if c == ':' {
        if pos + 1 == v.len() {
            push_error(items);
            next = pos + 1;
        } else if v[pos + 1] == 'z' {
            push_fixed(items, Fixed::TimezoneOffsetColon);
            next = pos + 2;
        } else {
            push_error(items);
            next = pos + 2;
        }
    } else if c == '.' {
        if pos + 1 == v.len() {
            push_error(items);
            next = pos + 1;
        } else if v[pos + 1] == 'f' {
            push_fixed(items, Fixed::Nanosecond);
            next = pos + 2;
        } else if v[pos + 1] == '3' || v[pos + 1] == '6' || v[pos + 1] == '9' {
            if pos + 2 == v.len() {
                push_error(items);
                next = pos + 2;
            } else if v[pos + 2] != 'f' {
                push_error(items);
                next = pos + 3;
            } else if v[pos + 1] == '3' {
                push_fixed(items, Fixed::Nanosecond3);
                next = pos + 3;
            } else if v[pos + 1] == '6' {
                push_fixed(items, Fixed::Nanosecond6);
                next = pos + 3;
            } else {
                push_fixed(items, Fixed::Nanosecond9);
                next = pos + 3;
            }
        } else {
            push_error(items);
            next = pos + 2;
        }
    } else {
        push_letter(items, c);
        next = pos + 1;
    }
    assert(items_view(items@) =~= before + plain_conversion(s).items);
    assert(items@.len() == items_view(items@).len());
    assert(count == before.len());
    next
}

/// Adds the items of the conversion that starts at a position, after the
/// `%`. Returns the position after it.
fn push_conversion(items: &mut Vec<Item>, v: &Vec<char>, pos: usize) -> (next: usize)
    requires
        pos <= v.len(),
    ensures
        items_view(final(items)@) == items_view(old(items)@) + conversion(
            v@.skip(pos as int),
        ).items,
        next == pos + conversion(v@.skip(pos as int)).taken,
        next <= v.len(),
{
    let ghost before = items_view(items@);
    let ghost s = v@.skip(pos as int);
    if pos < v.len() && (v[pos] == '-' || v[pos] == '0' || v[pos] == '_') {
        let pad = if v[pos] == '-' {
            Pad::Unpadded
        } else if v[pos] == '0' {
            Pad::Zero
        } else {
            Pad::Space
        };
        proof {
            lemma_skip_drop_first(v@, pos as int);
        }
        let first = items.len();
        let next = push_plain_conversion(items, v, pos + 1);
        let ghost inner = plain_conversion(s.drop_first()).items;
        let ghost pushed = items@;
        assert(items_view(pushed)[first as int] == inner[0]);
        let single = items.len() == first + 1;
        let replacement = match &items[first] {
            Item::Numeric(kind, _) => if single {
                Item::Numeric(*kind, pad)
            } else {
                Item::Error
            },
            _ => Item::Error,
        };
        items.set(first, replacement);
        assert(items_view(items@) =~= before + with_pad(inner, pad)) by {
            assert(items_view(pushed) =~= before + inner);
            assert forall|i: int| 0 <= i < items@.len() implies items_view(items@)[i] == (before
                + with_pad(inner, pad))[i] by {
                if i != first {
                    assert(items@[i] == pushed[i]);
                    assert(items_view(pushed)[i] == (before + inner)[i]);
                }
            }
        }
        next
    } else {
        push_plain_conversion(items, v, pos)
    }
}

/// The items that a pattern stands for. A mistake in the pattern is not
/// refused: it becomes an `Error` item.
pub fn strftime_items(fmt: &str) -> (r: Vec<Item>)
    ensures
        items_view(r@) == pattern_items(fmt@),
{
    let v = chars_of(fmt);
    let mut items: Vec<Item> = Vec::new();
    let mut pos: usize = 0;
    assert(v@.skip(0) =~= v@);
    assert(items_view(items@) =~= Seq::<ItemModel>::empty());
    while pos < v.len()
        invariant
            pos <= v.len(),
            v@ == fmt@,
            items_view(items@) + pattern_items(v@.skip(pos as int)) == pattern_items(v@),
        decreases v.len() - pos,
    {
        let ghost s = v@.skip(pos as int);
        let ghost before = items_view(items@);
        proof {
            lemma_skip_drop_first(v@, pos as int);
        }
        let c = v[pos];
        if c == '%' {
            let next = push_conversion(&mut items, &v, pos + 1);
            proof {
                let conv = conversion(s.drop_first());
                assert(s.skip(1 + conv.taken) =~= v@.skip(next as int));
                assert(before + (conv.items + pattern_items(v@.skip(next as int))) =~= (before
                    + conv.items) + pattern_items(v@.skip(next as int)));
            }
            pos = next;
        } else if space(c) {
            let end = skip_spaces(&v, pos);
            proof {
                lemma_trim_start_suffix(s);
                assert(v@.skip(end as int).len() == trim_start(s).len());
                assert(fmt@.subrange(pos as int, end as int) =~= s.take(
                    s.len() - trim_start(s).len(),
                ));
            }
            push_space(&mut items, fmt.substring_char(pos, end));
            proof {
                let item = ItemModel::Space(s.take(s.len() - trim_start(s).len()));
                assert(before.push(item) + pattern_items(trim_start(s)) =~= before + (seq![item]
                    + pattern_items(trim_start(s))));
            }
            pos = end;
        } else {
            let end = skip_literal(&v, pos);
            proof {
                lemma_trim_literal(s);
                assert(v@.skip(end as int).len() == trim_literal(s).len());
                assert(fmt@.subrange(pos as int, end as int) =~= s.take(
                    s.len() - trim_literal(s).len(),
                ));
            }
            push_literal(&mut items, fmt.substring_char(pos, end));
            proof {
                let item = ItemModel::Literal(s.take(s.len() - trim_literal(s).len()));
                assert(before.push(item) + pattern_items(trim_literal(s)) =~= before + (seq![item]
                    + pattern_items(trim_literal(s))));
            }
            pos = end;
        }
    }
    assert(items_view(items@) + Seq::<ItemModel>::empty() =~= items_view(items@));
    items
}

} // verus!
