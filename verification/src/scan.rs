//! Reading numbers, blanks and marks from the start of a text.
//!
//! Each reader is specified on the sequence of characters that is left to
//! read, and says what it took and what it left. The executable readers walk
//! a vector of characters with a position; what is left to read is the part
//! of the vector from that position on.

use vstd::prelude::*;
use crate::text::{decimal_value, digit_run, digit_value, is_digit, pow10};

verus! {

/// Why a text could not be read as a date and time.
#[derive(Clone, Copy, PartialEq, Eq, Structural, Hash, Debug)]
pub enum ParseError {
    /// A field holds a number that no date or time has.
    OutOfRange,
    /// The fields contradict one another.
    Impossible,
    /// The fields do not determine a date and time.
    NotEnough,
    /// The text holds a character that cannot stand where it stands.
    Invalid,
    /// The text ends before the pattern does.
    TooShort,
    /// The text goes on after the pattern has ended.
    TooLong,
    /// The pattern itself is malformed.
    BadFormat,
}

impl ParseError {
    /// A sentence that describes the error, as a specification.
    pub open spec fn sentence(self) -> Seq<char> {
        match self {
            ParseError::OutOfRange => "input is out of range"@,
            ParseError::Impossible => "no possible date and time matching input"@,
            ParseError::NotEnough => "input is not enough for unique date and time"@,
            ParseError::Invalid => "input contains invalid characters"@,
            ParseError::TooShort => "premature end of input"@,
            ParseError::TooLong => "trailing input"@,
            ParseError::BadFormat => "bad or unsupported format string"@,
        }
    }

    /// A sentence that describes the error.
    pub fn description(&self) -> (r: &'static str)
        ensures
            r@ == self.sentence(),
    {
        match self {
            ParseError::OutOfRange => "input is out of range",
            ParseError::Impossible => "no possible date and time matching input",
            ParseError::NotEnough => "input is not enough for unique date and time",
            ParseError::Invalid => "input contains invalid characters",
            ParseError::TooShort => "premature end of input",
            ParseError::TooLong => "trailing input",
            ParseError::BadFormat => "bad or unsupported format string",
        }
    }
}

/// Whether a character is white space: a blank, a tab, a line break, or one
/// of the other characters that Unicode lists as white space.
pub open spec fn is_space(c: char) -> bool {
    let u = c as u32;
    ||| 0x09 <= u <= 0x0D
    ||| u == 0x20
    ||| u == 0x85
    ||| u == 0xA0
    ||| u == 0x1680
    ||| 0x2000 <= u <= 0x200A
    ||| u == 0x2028
    ||| u == 0x2029
    ||| u == 0x202F
    ||| u == 0x205F
    ||| u == 0x3000
}

/// A text without the white space at its start.
pub open spec fn trim_start(s: Seq<char>) -> Seq<char>
    decreases s.len(),
{
    if s.len() > 0 && is_space(s[0]) {
        trim_start(s.drop_first())
    } else {
        s
    }
}

/// A text without the decimal digits at its start.
pub open spec fn trim_digits(s: Seq<char>) -> Seq<char> {
    s.skip(digit_run(s, s.len()) as int)
}

/// What a reader took from a text, and the text it left.
pub struct Scanned {
    /// The number that was read.
    pub value: int,
    /// What is left to read.
    pub rest: Seq<char>,
}

/// Reads a number of at least `min` and at most `limit` decimal digits.
///
/// Fails with `TooShort` on an empty text, with `Invalid` where fewer than
/// `min` digits stand, and with `OutOfRange` where the number is larger than
/// an `i64`.
pub open spec fn scan_number(s: Seq<char>, min: nat, limit: nat) -> Result<Scanned, ParseError> {
    let n = digit_run(s, limit) as int;
    if n < min {
        if s.len() == 0 {
            Err(ParseError::TooShort)
        } else {
            Err(ParseError::Invalid)
        }
    } else if decimal_value(s.take(n)) > i64::MAX {
        Err(ParseError::OutOfRange)
    } else {
        Ok(Scanned { value: decimal_value(s.take(n)) as int, rest: s.skip(n) })
    }
}

/// Reads a number that may carry a sign. With a sign it has any number of
/// digits, without one at most `width`.
pub open spec fn scan_signed(s: Seq<char>, width: nat) -> Result<Scanned, ParseError> {
    if s.len() > 0 && s[0] == '-' {
        match scan_number(s.drop_first(), 1, s.len()) {
            Ok(scanned) => Ok(Scanned { value: -scanned.value, rest: scanned.rest }),
            Err(e) => Err(e),
        }
    } else if s.len() > 0 && s[0] == '+' {
        scan_number(s.drop_first(), 1, s.len())
    } else {
        scan_number(s, 1, width)
    }
}

/// Reads one given character.
///
/// Fails with `TooShort` on an empty text and with `Invalid` on another
/// character.
pub open spec fn scan_char(s: Seq<char>, c: char) -> Result<Seq<char>, ParseError> {
    if s.len() == 0 {
        Err(ParseError::TooShort)
    } else if s[0] != c {
        Err(ParseError::Invalid)
    } else {
        Ok(s.drop_first())
    }
}

/// The nanoseconds that one unit of the last of a number of digits after
/// the point is worth.
pub open spec fn fraction_scale(digits: int) -> int {
    if digits <= 1 {
        100_000_000
    } else if digits == 2 {
        10_000_000
    } else if digits == 3 {
        1_000_000
    } else if digits == 4 {
        100_000
    } else if digits == 5 {
        10_000
    } else if digits == 6 {
        1_000
    } else if digits == 7 {
        100
    } else if digits == 8 {
        10
    } else {
        1
    }
}

/// Reads the digits after the point as nanoseconds: up to nine digits count,
/// any digits after them are passed over.
pub open spec fn scan_nanosecond(s: Seq<char>) -> Result<Scanned, ParseError> {
    match scan_number(s, 1, 9) {
        Ok(scanned) => Ok(
            Scanned {
                value: scanned.value * fraction_scale(digit_run(s, 9) as int),
                rest: trim_digits(scanned.rest),
            },
        ),
        Err(e) => Err(e),
    }
}

/// Dropping one character from what is left moves the position by one.
pub proof fn lemma_skip_drop_first(s: Seq<char>, pos: int)
    requires
        0 <= pos < s.len(),
    ensures
        s.skip(pos).drop_first() == s.skip(pos + 1),
        s.skip(pos)[0] == s[pos],
        s.skip(pos).len() == s.len() - pos,
{
    assert(s.skip(pos).drop_first() =~= s.skip(pos + 1));
}

/// Skipping twice is skipping the sum.
pub proof fn lemma_skip_skip(s: Seq<char>, a: int, b: int)
    requires
        0 <= a,
        0 <= b,
        a + b <= s.len(),
    ensures
        s.skip(a).skip(b) == s.skip(a + b),
        s.skip(a).take(b) == s.subrange(a, a + b),
{
    assert(s.skip(a).skip(b) =~= s.skip(a + b));
    assert(s.skip(a).take(b) =~= s.subrange(a, a + b));
}

/// A run of digits is no longer than the text or the limit.
pub proof fn lemma_digit_run_bound(s: Seq<char>, limit: nat)
    ensures
        digit_run(s, limit) <= s.len(),
        digit_run(s, limit) <= limit,
    decreases s.len(),
{
    if limit == 0 || s.len() == 0 || !is_digit(s[0]) {
    } else {
        lemma_digit_run_bound(s.drop_first(), (limit - 1) as nat);
    }
}

/// The characters of a run of digits are digits.
pub proof fn lemma_digit_run_digits(s: Seq<char>, limit: nat)
    ensures
        forall|i: int| 0 <= i < digit_run(s, limit) ==> is_digit(#[trigger] s[i]),
        forall|i: int|
            0 <= i < digit_run(s, limit) ==> is_digit(
                #[trigger] s.take(digit_run(s, limit) as int)[i],
            ),
    decreases s.len(),
{
    lemma_digit_run_bound(s, limit);
    if limit == 0 || s.len() == 0 || !is_digit(s[0]) {
    } else {
        lemma_digit_run_digits(s.drop_first(), (limit - 1) as nat);
        assert forall|i: int| 0 <= i < digit_run(s, limit) implies is_digit(#[trigger] s[i]) by {
            if i > 0 {
                assert(s[i] == s.drop_first()[i - 1]);
            }
        }
    }
}

/// A limit past the end of the text is no limit.
pub proof fn lemma_digit_run_limit(s: Seq<char>, a: nat, b: nat)
    requires
        a >= s.len(),
        b >= s.len(),
    ensures
        digit_run(s, a) == digit_run(s, b),
    decreases s.len(),
{
    if s.len() == 0 || !is_digit(s[0]) {
    } else {
        lemma_digit_run_limit(s.drop_first(), (a - 1) as nat, (b - 1) as nat);
    }
}

/// A number read from more digits is no smaller.
pub proof fn lemma_decimal_value_push(s: Seq<char>, c: char)
    requires
        is_digit(c),
    ensures
        decimal_value(s.push(c)) == decimal_value(s) * 10 + digit_value(c),
        decimal_value(s.push(c)) >= decimal_value(s),
{
    assert(s.push(c).drop_last() =~= s);
}

/// Whether a character is white space.
pub fn space(c: char) -> (r: bool)
    ensures
        r == is_space(c),
{
    let u: u32 = c as u32;
    (0x09 <= u && u <= 0x0D) || u == 0x20 || u == 0x85 || u == 0xA0 || u == 0x1680 || (0x2000 <= u
        && u <= 0x200A) || u == 0x2028 || u == 0x2029 || u == 0x202F || u == 0x205F || u
        == 0x3000
}

/// Whether a character is a decimal digit.
pub fn digit(c: char) -> (r: bool)
    ensures
        r == is_digit(c),
{
    let u: u32 = c as u32;
    0x30 <= u && u <= 0x39
}

/// The position after the white space that starts at a position.
pub fn skip_spaces(v: &Vec<char>, pos: usize) -> (r: usize)
    requires
        pos <= v.len(),
    ensures
        pos <= r <= v.len(),
        v@.skip(r as int) == trim_start(v@.skip(pos as int)),
{
    let mut i: usize = pos;
    while i < v.len() && space(v[i])
        invariant
            pos <= i <= v.len(),
            trim_start(v@.skip(i as int)) == trim_start(v@.skip(pos as int)),
        decreases v.len() - i,
    {
        proof {
            lemma_skip_drop_first(v@, i as int);
        }
        i = i + 1;
    }
    proof {
        if i < v.len() {
            lemma_skip_drop_first(v@, i as int);
        }
    }
    i
}

/// The position after the decimal digits that start at a position.
pub fn skip_digits(v: &Vec<char>, pos: usize) -> (r: usize)
    requires
        pos <= v.len(),
    ensures
        pos <= r <= v.len(),
        v@.skip(r as int) == trim_digits(v@.skip(pos as int)),
{
    let ghost s = v@.skip(pos as int);
    let mut i: usize = pos;
    while i < v.len() && digit(v[i])
        invariant
            pos <= i <= v.len(),
            s == v@.skip(pos as int),
            digit_run(s, s.len()) == (i - pos) + digit_run(
                v@.skip(i as int),
                (s.len() - (i - pos)) as nat,
            ),
        decreases v.len() - i,
    {
        proof {
            lemma_skip_drop_first(v@, i as int);
        }
        i = i + 1;
    }
    proof {
        if i < v.len() {
            lemma_skip_drop_first(v@, i as int);
        }
        lemma_skip_skip(v@, pos as int, (i - pos) as int);
    }
    i
}

/// Reads a number of at least `min` and at most `limit` decimal digits from
/// a position. Returns the number and the position after it.
pub fn read_number(v: &Vec<char>, pos: usize, min: usize, limit: usize) -> (r: Result<
    (i64, usize),
    ParseError,
>)
    requires
        pos <= v.len(),
    ensures
        match r {
            Ok((value, next)) => pos <= next <= v.len() && scan_number(
                v@.skip(pos as int),
                min as nat,
                limit as nat,
            ) == Ok::<Scanned, ParseError>(
                Scanned { value: value as int, rest: v@.skip(next as int) },
            ),
            Err(e) => scan_number(v@.skip(pos as int), min as nat, limit as nat) == Err::<
                Scanned,
                ParseError,
            >(e),
        },
{
    let ghost s = v@.skip(pos as int);
    let mut i: usize = pos;
    let mut value: i64 = 0;
    let mut overflow = false;
    while i < v.len() && i - pos < limit && digit(v[i])
        invariant
            pos <= i <= v.len(),
            i - pos <= limit,
            s == v@.skip(pos as int),
            digit_run(s, limit as nat) == (i - pos) + digit_run(
                v@.skip(i as int),
                (limit - (i - pos)) as nat,
            ),
            0 <= value,
            !overflow ==> value == decimal_value(v@.subrange(pos as int, i as int)),
            overflow ==> decimal_value(v@.subrange(pos as int, i as int)) > i64::MAX,
        decreases v.len() - i,
    {
        let d: i64 = (v[i] as u32 - 0x30) as i64;
        proof {
            lemma_skip_drop_first(v@, i as int);
            lemma_decimal_value_push(v@.subrange(pos as int, i as int), v@[i as int]);
            assert(v@.subrange(pos as int, i as int).push(v@[i as int]) =~= v@.subrange(
                pos as int,
                i + 1,
            ));
        }
        if !overflow {
            if value > (i64::MAX - d) / 10 {
                overflow = true;
            } else {
                value = value * 10 + d;
            }
        }
        i = i + 1;
    }
    proof {
        if i < v.len() {
            lemma_skip_drop_first(v@, i as int);
        }
        lemma_skip_skip(v@, pos as int, (i - pos) as int);
    }
    if i - pos < min {
        if pos == v.len() {
            Err(ParseError::TooShort)
        } else {
            Err(ParseError::Invalid)
        }
    } else if overflow {
        Err(ParseError::OutOfRange)
    } else {
        Ok((value, i))
    }
}

/// Reads a number that may carry a sign from a position. With a sign it has
/// any number of digits, without one at most `width`. Returns the number and
/// the position after it.
pub fn read_signed(v: &Vec<char>, pos: usize, width: usize) -> (r: Result<(i64, usize), ParseError>)
    requires
        pos <= v.len(),
    ensures
        match r {
            Ok((value, next)) => pos <= next <= v.len() && scan_signed(
                v@.skip(pos as int),
                width as nat,
            ) == Ok::<Scanned, ParseError>(
                Scanned { value: value as int, rest: v@.skip(next as int) },
            ),
            Err(e) => scan_signed(v@.skip(pos as int), width as nat) == Err::<Scanned, ParseError>(
                e,
            ),
        },
{
    let ghost s = v@.skip(pos as int);
    if pos < v.len() && (v[pos] == '-' || v[pos] == '+') {
        proof {
            lemma_skip_drop_first(v@, pos as int);
            lemma_digit_run_limit(s.drop_first(), s.len(), usize::MAX as nat);
        }
        match read_number(v, pos + 1, 1, usize::MAX) {
            Ok((value, next)) => if v[pos] == '-' {
                Ok((-value, next))
            } else {
                Ok((value, next))
            },
            Err(e) => Err(e),
        }
    } else {
        read_number(v, pos, 1, width)
    }
}

/// Reads one given character from a position. Returns the position after
/// it.
pub fn read_char(v: &Vec<char>, pos: usize, c: char) -> (r: Result<usize, ParseError>)
    requires
        pos <= v.len(),
    ensures
        match r {
            Ok(next) => pos <= next <= v.len() && scan_char(v@.skip(pos as int), c) == Ok::<
                Seq<char>,
                ParseError,
            >(v@.skip(next as int)),
            Err(e) => scan_char(v@.skip(pos as int), c) == Err::<Seq<char>, ParseError>(e),
        },
{
    if pos == v.len() {
        Err(ParseError::TooShort)
    } else if v[pos] != c {
        Err(ParseError::Invalid)
    } else {
        proof {
            lemma_skip_drop_first(v@, pos as int);
        }
        Ok(pos + 1)
    }
}

/// Reads the digits after the point as nanoseconds from a position. Returns
/// the nanoseconds and the position after the digits.
pub fn read_nanosecond(v: &Vec<char>, pos: usize) -> (r: Result<(i64, usize), ParseError>)
    requires
        pos <= v.len(),
    ensures
        match r {
            Ok((value, next)) => pos <= next <= v.len() && 0 <= value <= 999_999_999
                && scan_nanosecond(v@.skip(pos as int)) == Ok::<Scanned, ParseError>(
                Scanned { value: value as int, rest: v@.skip(next as int) },
            ),
            Err(e) => scan_nanosecond(v@.skip(pos as int)) == Err::<Scanned, ParseError>(e),
        },
{
    match read_number(v, pos, 1, 9) {
        Ok((value, next)) => {
            proof {
                let s = v@.skip(pos as int);
                let n = digit_run(s, 9);
                lemma_digit_run_bound(s, 9);
                lemma_digit_run_digits(s, 9);
                assert(s.skip(n as int).len() == v@.skip(next as int).len());
                assert(n == next - pos);
                lemma_decimal_value_bound(s.take(n as int));
                reveal_with_fuel(pow10, 10);
            }
            let consumed = next - pos;
            let ghost scale = fraction_scale(consumed as int);
            let nanos: i64 = if consumed <= 1 {
                assert(scale == 100_000_000);
                value * 100_000_000
            } else if consumed == 2 {
                assert(scale == 10_000_000);
                value * 10_000_000
            } else if consumed == 3 {
                assert(scale == 1_000_000);
                value * 1_000_000
            } else if consumed == 4 {
                assert(scale == 100_000);
                value * 100_000
            } else if consumed == 5 {
                assert(scale == 10_000);
                value * 10_000
            } else if consumed == 6 {
                assert(scale == 1_000);
                value * 1_000
            } else if consumed == 7 {
                assert(scale == 100);
                value * 100
            } else if consumed == 8 {
                assert(scale == 10);
                value * 10
            } else {
                assert(scale == 1);
                value
            };
            assert(nanos == value * scale);
            Ok((nanos, skip_digits(v, next)))
        },
        Err(e) => Err(e),
    }
}

/// A number read from digits is smaller than the power of ten with as many
/// zeros.
pub proof fn lemma_decimal_value_bound(s: Seq<char>)
    requires
        forall|i: int| 0 <= i < s.len() ==> is_digit(#[trigger] s[i]),
    ensures
        decimal_value(s) < pow10(s.len()),
    decreases s.len(),
{
    if s.len() > 0 {
        lemma_decimal_value_bound(s.drop_last());
    }
}

} // verus!
