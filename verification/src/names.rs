//! Reading names, marks of the half of the day, and offsets from UTC.
//!
//! Names are read without regard to upper and lower case. Where a text is
//! too short to hold what is read, its length is counted in the bytes of
//! its UTF-8 form: a text of fewer bytes than the shortest match is
//! `TooShort`, any other text that does not match is `Invalid`.

use vstd::prelude::*;
use crate::scan::{
    digit, is_space, lemma_skip_drop_first, lemma_skip_skip, space, ParseError, Scanned,
};
use crate::text::{digit_value, is_digit};

verus! {

/// The number of bytes that a character takes in UTF-8.
pub open spec fn utf8_width(c: char) -> nat {
    if (c as u32) < 0x80 {
        1
    } else if (c as u32) < 0x800 {
        2
    } else if (c as u32) < 0x1_0000 {
        3
    } else {
        4
    }
}

/// The number of bytes that a text takes in UTF-8.
pub open spec fn utf8_len(s: Seq<char>) -> nat
    decreases s.len(),
{
    if s.len() == 0 {
        0
    } else {
        utf8_width(s[0]) + utf8_len(s.drop_first())
    }
}

/// The number of bytes that a text takes in UTF-8 is the length of its
/// UTF-8 encoding.
pub proof fn lemma_utf8_len_is_encoded_len(s: Seq<char>)
    ensures
        utf8_len(s) == vstd::utf8::encode_utf8(s).len(),
    decreases s.len(),
{
    if s.len() > 0 {
        vstd::utf8::char_is_scalar(s[0]);
        lemma_utf8_len_is_encoded_len(s.drop_first());
    }
}

/// The code of a character, and of the lower-case letter for an upper-case
/// letter of the Latin alphabet.
pub open spec fn lower_code(c: char) -> int {
    if 0x41 <= c as u32 <= 0x5A {
        c as u32 + 32
    } else {
        c as u32 as int
    }
}

/// Whether a text starts with a given text, without regard to the case of
/// its letters. The given text is in lower case.
pub open spec fn starts_with_lower(s: Seq<char>, name: Seq<char>) -> bool {
    s.len() >= name.len() && forall|i: int|
        0 <= i < name.len() ==> lower_code(#[trigger] s[i]) == name[i] as u32
}

/// Whether a text starts with three given letters, without regard to case.
pub open spec fn starts_with_3(s: Seq<char>, a: char, b: char, c: char) -> bool {
    s.len() >= 3 && lower_code(s[0]) == a as u32 && lower_code(s[1]) == b as u32 && lower_code(
        s[2],
    ) == c as u32
}

/// The month, counted from 0, whose name in three letters a text starts
/// with.
pub open spec fn short_month_index(s: Seq<char>) -> Option<int> {
    if starts_with_3(s, 'j', 'a', 'n') {
        Some(0)
    } else if starts_with_3(s, 'f', 'e', 'b') {
        Some(1)
    } else if starts_with_3(s, 'm', 'a', 'r') {
        Some(2)
    } else if starts_with_3(s, 'a', 'p', 'r') {
        Some(3)
    } else if starts_with_3(s, 'm', 'a', 'y') {
        Some(4)
    } else if starts_with_3(s, 'j', 'u', 'n') {
        Some(5)
    } else if starts_with_3(s, 'j', 'u', 'l') {
        Some(6)
    } else if starts_with_3(s, 'a', 'u', 'g') {
        Some(7)
    } else if starts_with_3(s, 's', 'e', 'p') {
        Some(8)
    } else if starts_with_3(s, 'o', 'c', 't') {
        Some(9)
    } else if starts_with_3(s, 'n', 'o', 'v') {
        Some(10)
    } else if starts_with_3(s, 'd', 'e', 'c') {
        Some(11)
    } else {
        None
    }
}

/// The day of the week, counted from 0 for Monday, whose name in three
/// letters a text starts with.
pub open spec fn short_weekday_index(s: Seq<char>) -> Option<int> {
    if starts_with_3(s, 'm', 'o', 'n') {
        Some(0)
    } else if starts_with_3(s, 't', 'u', 'e') {
        Some(1)
    } else if starts_with_3(s, 'w', 'e', 'd') {
        Some(2)
    } else if starts_with_3(s, 't', 'h', 'u') {
        Some(3)
    } else if starts_with_3(s, 'f', 'r', 'i') {
        Some(4)
    } else if starts_with_3(s, 's', 'a', 't') {
        Some(5)
    } else if starts_with_3(s, 's', 'u', 'n') {
        Some(6)
    } else {
        None
    }
}

/// What follows the first three letters in the full name of a month,
/// counted from 0.
pub open spec fn month_suffix(month0: int) -> Seq<char> {
    if month0 <= 0 {
        "uary"@
    } else if month0 == 1 {
        "ruary"@
    } else if month0 == 2 {
        "ch"@
    } else if month0 == 3 {
        "il"@
    } else if month0 == 4 {
        ""@
    } else if month0 == 5 {
        "e"@
    } else if month0 == 6 {
        "y"@
    } else if month0 == 7 {
        "ust"@
    } else if month0 == 8 {
        "tember"@
    } else if month0 == 9 {
        "ober"@
    } else {
        "ember"@
    }
}

/// What follows the first three letters in the full name of a day of the
/// week, counted from 0 for Monday.
pub open spec fn weekday_suffix(index: int) -> Seq<char> {
    if index <= 0 {
        "day"@
    } else if index == 1 {
        "sday"@
    } else if index == 2 {
        "nesday"@
    } else if index == 3 {
        "rsday"@
    } else if index == 4 {
        "day"@
    } else if index == 5 {
        "urday"@
    } else {
        "day"@
    }
}

/// Reads the name of a month in three letters. The number read is the
/// month counted from 0.
pub open spec fn scan_short_month(s: Seq<char>) -> Result<Scanned, ParseError> {
    if utf8_len(s) < 3 {
        Err(ParseError::TooShort)
    } else {
        match short_month_index(s) {
            Some(month0) => Ok(Scanned { value: month0, rest: s.skip(3) }),
            None => Err(ParseError::Invalid),
        }
    }
}

/// Reads the name of a day of the week in three letters. The number read is
/// the day counted from 0 for Monday.
pub open spec fn scan_short_weekday(s: Seq<char>) -> Result<Scanned, ParseError> {
    if utf8_len(s) < 3 {
        Err(ParseError::TooShort)
    } else {
        match short_weekday_index(s) {
            Some(index) => Ok(Scanned { value: index, rest: s.skip(3) }),
            None => Err(ParseError::Invalid),
        }
    }
}

/// A text without a given text at its start, if it starts with it without
/// regard to case, and the text itself if it does not.
pub open spec fn skip_suffix(s: Seq<char>, suffix: Seq<char>) -> Seq<char> {
    if starts_with_lower(s, suffix) {
        s.skip(suffix.len() as int)
    } else {
        s
    }
}

/// Reads the name of a month, in three letters or in full. The number read
/// is the month counted from 0.
pub open spec fn scan_long_month(s: Seq<char>) -> Result<Scanned, ParseError> {
    match scan_short_month(s) {
        Err(e) => Err(e),
        Ok(month) => Ok(
            Scanned {
                value: month.value,
                rest: skip_suffix(month.rest, month_suffix(month.value)),
            },
        ),
    }
}

/// Reads the name of a day of the week, in three letters or in full. The
/// number read is the day counted from 0 for Monday.
pub open spec fn scan_long_weekday(s: Seq<char>) -> Result<Scanned, ParseError> {
    match scan_short_weekday(s) {
        Err(e) => Err(e),
        Ok(day) => Ok(
            Scanned { value: day.value, rest: skip_suffix(day.rest, weekday_suffix(day.value)) },
        ),
    }
}

/// Reads `am` or `pm`, without regard to case. The number read is 0 for
/// `am` and 1 for `pm`.
pub open spec fn scan_ampm(s: Seq<char>) -> Result<Scanned, ParseError> {
    if utf8_len(s) < 2 {
        Err(ParseError::TooShort)
    } else if s.len() >= 2 && lower_code(s[0]) == 'a' as u32 && lower_code(s[1]) == 'm' as u32 {
        Ok(Scanned { value: 0, rest: s.skip(2) })
    } else if s.len() >= 2 && lower_code(s[0]) == 'p' as u32 && lower_code(s[1]) == 'm' as u32 {
        Ok(Scanned { value: 1, rest: s.skip(2) })
    } else {
        Err(ParseError::Invalid)
    }
}

/// A text without the colons and the white space at its start.
pub open spec fn trim_colons(s: Seq<char>) -> Seq<char>
    decreases s.len(),
{
    if s.len() > 0 && (s[0] == ':' || is_space(s[0])) {
        trim_colons(s.drop_first())
    } else {
        s
    }
}

/// What may stand between the hours and the minutes of an offset.
pub enum Colon {
    /// Any number of colons and white space, or nothing.
    Lenient,
    /// Exactly one colon.
    Strict,
}

/// Reads what stands between the hours and the minutes of an offset.
pub open spec fn scan_colon(s: Seq<char>, colon: Colon) -> Result<Seq<char>, ParseError> {
    match colon {
        Colon::Lenient => Ok(trim_colons(s)),
        Colon::Strict => if s.len() == 0 {
            Err(ParseError::TooShort)
        } else if s[0] != ':' {
            Err(ParseError::Invalid)
        } else {
            Ok(s.drop_first())
        },
    }
}

/// Reads two decimal digits as a number up to 99.
pub open spec fn scan_two_digits(s: Seq<char>) -> Result<Scanned, ParseError> {
    if utf8_len(s) < 2 {
        Err(ParseError::TooShort)
    } else if s.len() >= 2 && is_digit(s[0]) && is_digit(s[1]) {
        Ok(Scanned { value: digit_value(s[0]) * 10 + digit_value(s[1]), rest: s.skip(2) })
    } else {
        Err(ParseError::Invalid)
    }
}

/// Reads an offset from UTC: a sign, two digits of hours, what may stand
/// between, and two digits of minutes up to 59. The number read is the
/// offset in seconds.
pub open spec fn scan_offset(s: Seq<char>, colon: Colon) -> Result<Scanned, ParseError> {
    if s.len() == 0 {
        Err(ParseError::TooShort)
    } else if s[0] != '+' && s[0] != '-' {
        Err(ParseError::Invalid)
    } else {
        match scan_two_digits(s.drop_first()) {
            Err(e) => Err(e),
            Ok(hours) => match scan_colon(hours.rest, colon) {
                Err(e) => Err(e),
                Ok(rest) => match scan_two_digits(rest) {
                    Err(e) => Err(e),
                    Ok(minutes) => if minutes.value >= 60 {
                        Err(ParseError::OutOfRange)
                    } else {
                        let seconds = hours.value * 3_600 + minutes.value * 60;
                        Ok(
                            Scanned {
                                value: if s[0] == '-' {
                                    -seconds
                                } else {
                                    seconds
                                },
                                rest: minutes.rest,
                            },
                        )
                    },
                },
            },
        }
    }
}

/// Reads an offset from UTC, or `Z` for no offset.
pub open spec fn scan_offset_zulu(s: Seq<char>, colon: Colon) -> Result<Scanned, ParseError> {
    if s.len() > 0 && (s[0] == 'z' || s[0] == 'Z') {
        Ok(Scanned { value: 0, rest: s.drop_first() })
    } else {
        scan_offset(s, colon)
    }
}

/// The code of a character, and of the lower-case letter for an upper-case
/// letter of the Latin alphabet.
pub fn lower(c: char) -> (r: u32)
    ensures
        r == lower_code(c),
{
    let u: u32 = c as u32;
    if 0x41 <= u && u <= 0x5A {
        u + 32
    } else {
        u
    }
}

/// Whether what is left of a text from a position on takes fewer than two
/// or three bytes in UTF-8.
pub fn fewer_bytes(v: &Vec<char>, pos: usize, count: u32) -> (r: bool)
    requires
        pos <= v.len(),
        count == 2 || count == 3,
    ensures
        r == (utf8_len(v@.skip(pos as int)) < count),
{
    let ghost s = v@.skip(pos as int);
    proof {
        if pos < v.len() {
            lemma_skip_drop_first(v@, pos as int);
            if pos + 1 < v.len() {
                lemma_skip_drop_first(v@, pos + 1);
                if pos + 2 < v.len() {
                    lemma_skip_drop_first(v@, pos + 2);
                }
            }
        }
        reveal_with_fuel(utf8_len, 4);
    }
    if pos == v.len() {
        return true;
    }
    let first = width(v[pos]);
    if first >= count {
        return false;
    }
    if pos + 1 == v.len() {
        return true;
    }
    let second = first + width(v[pos + 1]);
    if second >= count {
        return false;
    }
    if pos + 2 == v.len() {
        return true;
    }
    false
}

/// The number of bytes that a character takes in UTF-8.
pub fn width(c: char) -> (r: u32)
    ensures
        r == utf8_width(c),
        1 <= r <= 4,
{
    let u: u32 = c as u32;
    if u < 0x80 {
        1
    } else if u < 0x800 {
        2
    } else if u < 0x1_0000 {
        3
    } else {
        4
    }
}

/// Whether the text from a position on starts with three given letters,
/// without regard to case.
fn three_letters(v: &Vec<char>, pos: usize, a: char, b: char, c: char) -> (r: bool)
    requires
        pos <= v.len(),
    ensures
        r == starts_with_3(v@.skip(pos as int), a, b, c),
{
    if v.len() - pos < 3 {
        return false;
    }
    lower(v[pos]) == a as u32 && lower(v[pos + 1]) == b as u32 && lower(v[pos + 2]) == c as u32
}

/// Reads the name of a month in three letters from a position. Returns the
/// month counted from 0 and the position after the name.
pub fn read_short_month(v: &Vec<char>, pos: usize) -> (r: Result<(u32, usize), ParseError>)
    requires
        pos <= v.len(),
    ensures
        match r {
            Ok((value, next)) => pos <= next <= v.len() && value < 12 && scan_short_month(
                v@.skip(pos as int),
            ) == Ok::<Scanned, ParseError>(
                Scanned { value: value as int, rest: v@.skip(next as int) },
            ),
            Err(e) => scan_short_month(v@.skip(pos as int)) == Err::<Scanned, ParseError>(e),
        },
{
    if fewer_bytes(v, pos, 3) {
        return Err(ParseError::TooShort);
    }
    let month0: u32 = if three_letters(v, pos, 'j', 'a', 'n') {
        0
    } else if three_letters(v, pos, 'f', 'e', 'b') {
        1
    } else if three_letters(v, pos, 'm', 'a', 'r') {
        2
    } else if three_letters(v, pos, 'a', 'p', 'r') {
        3
    } else if three_letters(v, pos, 'm', 'a', 'y') {
        4
    } else if three_letters(v, pos, 'j', 'u', 'n') {
        5
    } else if three_letters(v, pos, 'j', 'u', 'l') {
        6
    } else if three_letters(v, pos, 'a', 'u', 'g') {
        7
    } else if three_letters(v, pos, 's', 'e', 'p') {
        8
    } else if three_letters(v, pos, 'o', 'c', 't') {
        9
    } else if three_letters(v, pos, 'n', 'o', 'v') {
        10
    } else if three_letters(v, pos, 'd', 'e', 'c') {
        11
    } else {
        return Err(ParseError::Invalid);
    };
    proof {
        lemma_skip_skip(v@, pos as int, 3);
    }
    Ok((month0, pos + 3))
}

/// Reads the name of a day of the week in three letters from a position.
/// Returns the day counted from 0 for Monday and the position after the
/// name.
pub fn read_short_weekday(v: &Vec<char>, pos: usize) -> (r: Result<(u32, usize), ParseError>)
    requires
        pos <= v.len(),
    ensures
        match r {
            Ok((value, next)) => pos <= next <= v.len() && value < 7 && scan_short_weekday(
                v@.skip(pos as int),
            ) == Ok::<Scanned, ParseError>(
                Scanned { value: value as int, rest: v@.skip(next as int) },
            ),
            Err(e) => scan_short_weekday(v@.skip(pos as int)) == Err::<Scanned, ParseError>(e),
        },
{
    if fewer_bytes(v, pos, 3) {
        return Err(ParseError::TooShort);
    }
    let index: u32 = if three_letters(v, pos, 'm', 'o', 'n') {
        0
    } else if three_letters(v, pos, 't', 'u', 'e') {
        1
    } else if three_letters(v, pos, 'w', 'e', 'd') {
        2
    } else if three_letters(v, pos, 't', 'h', 'u') {
        3
    } else if three_letters(v, pos, 'f', 'r', 'i') {
        4
    } else if three_letters(v, pos, 's', 'a', 't') {
        5
    } else if three_letters(v, pos, 's', 'u', 'n') {
        6
    } else {
        return Err(ParseError::Invalid);
    };
    proof {
        lemma_skip_skip(v@, pos as int, 3);
    }
    Ok((index, pos + 3))
}

/// What follows the first three letters in the full name of a month,
/// counted from 0.
fn month_suffix_str(month0: u32) -> (r: &'static str)
    ensures
        r@ == month_suffix(month0 as int),
{
    if month0 == 0 {
        "uary"
    } else if month0 == 1 {
        "ruary"
    } else if month0 == 2 {
        "ch"
    } else if month0 == 3 {
        "il"
    } else if month0 == 4 {
        ""
    } else if month0 == 5 {
        "e"
    } else if month0 == 6 {
        "y"
    } else if month0 == 7 {
        "ust"
    } else if month0 == 8 {
        "tember"
    } else if month0 == 9 {
        "ober"
    } else {
        "ember"
    }
}

/// What follows the first three letters in the full name of a day of the
/// week, counted from 0 for Monday.
fn weekday_suffix_str(index: u32) -> (r: &'static str)
    ensures
        r@ == weekday_suffix(index as int),
{
    if index == 0 {
        "day"
    } else if index == 1 {
        "sday"
    } else if index == 2 {
        "nesday"
    } else if index == 3 {
        "rsday"
    } else if index == 4 {
        "day"
    } else if index == 5 {
        "urday"
    } else {
        "day"
    }
}

/// The position after a given text, if the text from a position on starts
/// with it without regard to case, and the position itself if it does not.
pub fn skip_lower(v: &Vec<char>, pos: usize, suffix: &str) -> (r: usize)
    requires
        pos <= v.len(),
    ensures
        pos <= r <= v.len(),
        v@.skip(r as int) == skip_suffix(v@.skip(pos as int), suffix@),
{
    let ghost s = v@.skip(pos as int);
    let count = suffix.unicode_len();
    if v.len() - pos < count {
        assert(v@.skip(pos as int) =~= s);
        return pos;
    }
    let mut i: usize = 0;
    while i < count
        invariant
            i <= count,
            count == suffix@.len(),
            pos + count <= v.len(),
            s == v@.skip(pos as int),
            forall|k: int| 0 <= k < i ==> lower_code(#[trigger] s[k]) == suffix@[k] as u32,
        decreases count - i,
    {
        if lower(v[pos + i]) != suffix.get_char(i) as u32 {
            assert(lower_code(s[i as int]) != suffix@[i as int] as u32);
            return pos;
        }
        i = i + 1;
    }
    proof {
        lemma_skip_skip(v@, pos as int, count as int);
    }
    pos + count
}

/// Reads the name of a month, in three letters or in full, from a
/// position. Returns the month counted from 0 and the position after the
/// name.
pub fn read_long_month(v: &Vec<char>, pos: usize) -> (r: Result<(u32, usize), ParseError>)
    requires
        pos <= v.len(),
    ensures
        match r {
            Ok((value, next)) => pos <= next <= v.len() && value < 12 && scan_long_month(
                v@.skip(pos as int),
            ) == Ok::<Scanned, ParseError>(
                Scanned { value: value as int, rest: v@.skip(next as int) },
            ),
            Err(e) => scan_long_month(v@.skip(pos as int)) == Err::<Scanned, ParseError>(e),
        },
{
    match read_short_month(v, pos) {
        Ok((month0, next)) => Ok((month0, skip_lower(v, next, month_suffix_str(month0)))),
        Err(e) => Err(e),
    }
}

/// Reads the name of a day of the week, in three letters or in full, from
/// a position. Returns the day counted from 0 for Monday and the position
/// after the name.
pub fn read_long_weekday(v: &Vec<char>, pos: usize) -> (r: Result<(u32, usize), ParseError>)
    requires
        pos <= v.len(),
    ensures
        match r {
            Ok((value, next)) => pos <= next <= v.len() && value < 7 && scan_long_weekday(
                v@.skip(pos as int),
            ) == Ok::<Scanned, ParseError>(
                Scanned { value: value as int, rest: v@.skip(next as int) },
            ),
            Err(e) => scan_long_weekday(v@.skip(pos as int)) == Err::<Scanned, ParseError>(e),
        },
{
    match read_short_weekday(v, pos) {
        Ok((index, next)) => Ok((index, skip_lower(v, next, weekday_suffix_str(index)))),
        Err(e) => Err(e),
    }
}

/// Reads `am` or `pm` from a position. Returns whether it is `pm`, and the
/// position after it.
pub fn read_ampm(v: &Vec<char>, pos: usize) -> (r: Result<(bool, usize), ParseError>)
    requires
        pos <= v.len(),
    ensures
        match r {
            Ok((pm, next)) => pos <= next <= v.len() && scan_ampm(v@.skip(pos as int)) == Ok::<
                Scanned,
                ParseError,
            >(
                Scanned {
                    value: if pm {
                        1int
                    } else {
                        0int
                    },
                    rest: v@.skip(next as int),
                },
            ),
            Err(e) => scan_ampm(v@.skip(pos as int)) == Err::<Scanned, ParseError>(e),
        },
{
    if fewer_bytes(v, pos, 2) {
        return Err(ParseError::TooShort);
    }
    if v.len() - pos < 2 {
        return Err(ParseError::Invalid);
    }
    proof {
        lemma_skip_skip(v@, pos as int, 2);
    }
    let first = lower(v[pos]);
    let second = lower(v[pos + 1]);
    if first == 'a' as u32 && second == 'm' as u32 {
        Ok((false, pos + 2))
    } else if first == 'p' as u32 && second == 'm' as u32 {
        Ok((true, pos + 2))
    } else {
        Err(ParseError::Invalid)
    }
}

/// Reads two decimal digits from a position. Returns the number and the
/// position after them.
fn read_two_digits(v: &Vec<char>, pos: usize) -> (r: Result<(i32, usize), ParseError>)
    requires
        pos <= v.len(),
    ensures
        match r {
            Ok((value, next)) => pos <= next <= v.len() && 0 <= value <= 99 && scan_two_digits(
                v@.skip(pos as int),
            ) == Ok::<Scanned, ParseError>(
                Scanned { value: value as int, rest: v@.skip(next as int) },
            ),
            Err(e) => scan_two_digits(v@.skip(pos as int)) == Err::<Scanned, ParseError>(e),
        },
{
    if fewer_bytes(v, pos, 2) {
        return Err(ParseError::TooShort);
    }
    if v.len() - pos < 2 || !digit(v[pos]) || !digit(v[pos + 1]) {
        return Err(ParseError::Invalid);
    }
    proof {
        lemma_skip_skip(v@, pos as int, 2);
    }
    let tens: i32 = (v[pos] as u32 - 0x30) as i32;
    let ones: i32 = (v[pos + 1] as u32 - 0x30) as i32;
    Ok((tens * 10 + ones, pos + 2))
}

/// Reads what stands between the hours and the minutes of an offset from a
/// position. Returns the position after it.
fn read_colon(v: &Vec<char>, pos: usize, strict: bool) -> (r: Result<usize, ParseError>)
    requires
        pos <= v.len(),
    ensures
        match r {
            Ok(next) => pos <= next <= v.len() && scan_colon(
                v@.skip(pos as int),
                colon_of(strict),
            ) == Ok::<Seq<char>, ParseError>(v@.skip(next as int)),
            Err(e) => scan_colon(v@.skip(pos as int), colon_of(strict)) == Err::<
                Seq<char>,
                ParseError,
            >(e),
        },
{
    if strict {
        if pos == v.len() {
            return Err(ParseError::TooShort);
        }
        if v[pos] != ':' {
            return Err(ParseError::Invalid);
        }
        proof {
            lemma_skip_drop_first(v@, pos as int);
        }
        return Ok(pos + 1);
    }
    let mut i: usize = pos;
    while i < v.len() && (v[i] == ':' || space(v[i]))
        invariant
            pos <= i <= v.len(),
            trim_colons(v@.skip(i as int)) == trim_colons(v@.skip(pos as int)),
        decreases v.len() - i,
    {
        proof {
            lemma_skip_drop_first(v@, i as int);
        }
        i = i + 1;
    }
    proof {
        if i < v.len() {
            lemma_skip_drop_first(v@, i as int);
        }
    }
    Ok(i)
}

/// What may stand between the hours and the minutes of an offset.
pub open spec fn colon_of(strict: bool) -> Colon {
    if strict {
        Colon::Strict
    } else {
        Colon::Lenient
    }
}

/// Reads an offset from UTC from a position. Returns the offset in seconds
/// and the position after it.
pub fn read_offset(v: &Vec<char>, pos: usize, strict: bool) -> (r: Result<(i32, usize), ParseError>)
    requires
        pos <= v.len(),
    ensures
        match r {
            Ok((value, next)) => pos <= next <= v.len() && scan_offset(
                v@.skip(pos as int),
                colon_of(strict),
            ) == Ok::<Scanned, ParseError>(
                Scanned { value: value as int, rest: v@.skip(next as int) },
            ),
            Err(e) => scan_offset(v@.skip(pos as int), colon_of(strict)) == Err::<
                Scanned,
                ParseError,
            >(e),
        },
{
    if pos == v.len() {
        return Err(ParseError::TooShort);
    }
    let sign = v[pos];
    if sign != '+' && sign != '-' {
        return Err(ParseError::Invalid);
    }
    proof {
        lemma_skip_drop_first(v@, pos as int);
    }
    let (hours, next) = match read_two_digits(v, pos + 1) {
        Ok(read) => read,
        Err(e) => return Err(e),
    };
    let next = match read_colon(v, next, strict) {
        Ok(next) => next,
        Err(e) => return Err(e),
    };
    let (minutes, next) = match read_two_digits(v, next) {
        Ok(read) => read,
        Err(e) => return Err(e),
    };
    if minutes >= 60 {
        return Err(ParseError::OutOfRange);
    }
    let seconds = hours * 3_600 + minutes * 60;
    if sign == '-' {
        Ok((-seconds, next))
    } else {
        Ok((seconds, next))
    }
}

/// Reads an offset from UTC, or `Z` for no offset, from a position.
/// Returns the offset in seconds and the position after it.
pub fn read_offset_zulu(v: &Vec<char>, pos: usize, strict: bool) -> (r: Result<
    (i32, usize),
    ParseError,
>)
    requires
        pos <= v.len(),
    ensures
        match r {
            Ok((value, next)) => pos <= next <= v.len() && scan_offset_zulu(
                v@.skip(pos as int),
                colon_of(strict),
            ) == Ok::<Scanned, ParseError>(
                Scanned { value: value as int, rest: v@.skip(next as int) },
            ),
            Err(e) => scan_offset_zulu(v@.skip(pos as int), colon_of(strict)) == Err::<
                Scanned,
                ParseError,
            >(e),
        },
{
    if pos < v.len() && (v[pos] == 'z' || v[pos] == 'Z') {
        proof {
            lemma_skip_drop_first(v@, pos as int);
        }
        Ok((0, pos + 1))
    } else {
        read_offset(v, pos, strict)
    }
}

} // verus!
