//! Characters and decimal numbers in text.
//!
//! Text is modelled as a sequence of characters. This module says what the
//! decimal digits of a number are, and what number a run of digits stands
//! for, and holds the executable counterparts of both.

use vstd::prelude::*;

verus! {

/// The character of a decimal digit. Numbers past 9 stand for `'9'`.
pub open spec fn digit_char(d: int) -> char {
    if d <= 0 {
        '0'
    } else if d == 1 {
        '1'
    } else if d == 2 {
        '2'
    } else if d == 3 {
        '3'
    } else if d == 4 {
        '4'
    } else if d == 5 {
        '5'
    } else if d == 6 {
        '6'
    } else if d == 7 {
        '7'
    } else if d == 8 {
        '8'
    } else {
        '9'
    }
}

/// Whether a character is one of the decimal digits `'0'` to `'9'`.
pub open spec fn is_digit(c: char) -> bool {
    0x30 <= c as u32 <= 0x39
}

/// The number a decimal digit stands for.
pub open spec fn digit_value(c: char) -> int {
    c as u32 - 0x30
}

/// The decimal digits of a number, with zeros in front where there are fewer
/// than `width` of them.
pub open spec fn decimal(n: nat, width: nat) -> Seq<char>
    decreases n, width,
{
    if n < 10 && width <= 1 {
        seq![digit_char(n as int)]
    } else {
        decimal(n / 10, if width > 0 { (width - 1) as nat } else { 0 }).push(
            digit_char((n % 10) as int),
        )
    }
}

/// The number that a run of decimal digits stands for.
pub open spec fn decimal_value(s: Seq<char>) -> nat
    decreases s.len(),
{
    if s.len() == 0 {
        0
    } else {
        decimal_value(s.drop_last()) * 10 + digit_value(s.last()) as nat
    }
}

/// Whether every character of a text is a decimal digit.
pub open spec fn all_digits(s: Seq<char>) -> bool {
    forall|i: int| 0 <= i < s.len() ==> is_digit(#[trigger] s[i])
}

/// The number of decimal digits at the start of a text, counted up to a
/// limit.
pub open spec fn digit_run(s: Seq<char>, limit: nat) -> nat
    decreases s.len(),
{
    if limit == 0 || s.len() == 0 || !is_digit(s[0]) {
        0
    } else {
        1 + digit_run(s.drop_first(), (limit - 1) as nat)
    }
}

/// The power of ten with a number of zeros.
pub open spec fn pow10(zeros: nat) -> nat
    decreases zeros,
{
    if zeros == 0 {
        1
    } else {
        10 * pow10((zeros - 1) as nat)
    }
}

/// The characters of a string, in order.
pub fn chars_of(s: &str) -> (v: Vec<char>)
    ensures
        v@ == s@,
{
    let mut v: Vec<char> = Vec::new();
    for c in it: s.chars()
        invariant
            v@ == it.seq().take(it.index() as int),
            it.seq() == s@,
    {
        v.push(c);
    }
    v
}

/// The text of one decimal digit.
pub fn digit_str(d: u64) -> (s: &'static str)
    requires
        d < 10,
    ensures
        s@ == seq![digit_char(d as int)],
{
    proof {
        reveal_strlit("0");
        reveal_strlit("1");
        reveal_strlit("2");
        reveal_strlit("3");
        reveal_strlit("4");
        reveal_strlit("5");
        reveal_strlit("6");
        reveal_strlit("7");
        reveal_strlit("8");
        reveal_strlit("9");
    }
    let s = if d == 0 {
        "0"
    } else if d == 1 {
        "1"
    } else if d == 2 {
        "2"
    } else if d == 3 {
        "3"
    } else if d == 4 {
        "4"
    } else if d == 5 {
        "5"
    } else if d == 6 {
        "6"
    } else if d == 7 {
        "7"
    } else if d == 8 {
        "8"
    } else {
        "9"
    };
    assert(s@ =~= seq![digit_char(d as int)]);
    s
}

/// Writes the decimal digits of a number at the end of a text, with zeros in
/// front where there are fewer than `width` of them.
pub fn push_decimal(out: &mut String, n: u64, width: u32)
    ensures
        final(out)@ == old(out)@ + decimal(n as nat, width as nat),
    decreases n, width,
{
    if n < 10 && width <= 1 {
        out.append(digit_str(n));
        assert(out@ =~= old(out)@ + decimal(n as nat, width as nat));
    } else {
        let rest: u32 = if width > 0 {
            width - 1
        } else {
            0
        };
        push_decimal(out, n / 10, rest);
        out.append(digit_str(n % 10));
        assert(out@ =~= old(out)@ + decimal(n as nat, width as nat));
    }
}

/// A width of zero asks for one digit, as a width of one does.
pub proof fn lemma_decimal_width_zero(n: nat)
    ensures
        decimal(n, 0) == decimal(n, 1),
{
}

/// The number of decimal digits of a number.
pub fn decimal_len(n: u64) -> (r: u32)
    ensures
        r == decimal(n as nat, 0).len(),
        1 <= r <= 20,
{
    let mut rest: u64 = n;
    let mut count: u32 = 1;
    proof {
        assert(pow10(0) == 1);
        assert(rest as nat * pow10(0) == n) by (nonlinear_arith)
            requires
                rest == n,
                pow10(0) == 1,
        ;
    }
    while rest >= 10
        invariant
            1 <= count,
            count + decimal(rest as nat, 0).len() == 1 + decimal(n as nat, 0).len(),
            rest as nat * pow10((count - 1) as nat) <= n,
            count <= 20,
        decreases rest,
    {
        proof {
            lemma_pow10_step(rest as nat, (count - 1) as nat, n as nat);
        }
        rest = rest / 10;
        count = count + 1;
    }
    count
}

/// A number of at least two digits, times a power of ten that stays within
/// 64 bits, leaves room for at most twenty digits.
proof fn lemma_pow10_step(rest: nat, zeros: nat, n: nat)
    requires
        rest >= 10,
        rest * pow10(zeros) <= n,
        n <= u64::MAX,
        zeros <= 19,
    ensures
        (rest / 10) * pow10(zeros + 1) <= n,
        zeros + 1 <= 19,
{
    assert((rest / 10) * pow10(zeros + 1) == (rest / 10) * 10 * pow10(zeros))
        by (nonlinear_arith)
        requires
            pow10(zeros + 1) == 10 * pow10(zeros),
    ;
    assert((rest / 10) * 10 * pow10(zeros) <= rest * pow10(zeros)) by (nonlinear_arith)
        requires
            (rest / 10) * 10 <= rest,
            pow10(zeros) >= 0,
    ;
    if zeros + 1 > 19 {
        reveal_with_fuel(pow10, 21);
        assert(pow10(19) == 10_000_000_000_000_000_000);
        assert(rest * pow10(zeros) >= 10 * pow10(19)) by (nonlinear_arith)
            requires
                rest >= 10,
                zeros == 19,
                pow10(19) >= 0,
        ;
    }
}

} // verus!
