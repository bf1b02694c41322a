//! Division and conversion of integers.
//!
//! The conversions between integer types, and the floored division of a
//! timestamp into days and seconds, are those of the `num` crate; what is
//! stated of them is believed, not proved. The floored division that the
//! rest of the library uses is its own, and proved.

use vstd::prelude::*;

verus! {

/// Floored division and remainder, as computed by `num::integer::div_mod_floor`
/// on `i64`.
///
/// Trusted: for a positive divisor `num` returns the quotient rounded toward
/// negative infinity together with a remainder in `[0, y)`. Those are exactly
/// the mathematical `/` and `%` of specifications.
#[verifier::external_body]
pub(crate) fn div_mod_floor(x: i64, y: i64) -> (r: (i64, i64))
    requires
        y > 0,
    ensures
        r.0 == x as int / y as int,
        r.1 == x as int % y as int,
{
    num::integer::div_mod_floor(x, y)
}

/// Narrowing conversion, as computed by `num::ToPrimitive::to_i32` on `i64`.
///
/// Trusted: `num` returns the same number as an `i32` when it fits, and
/// `None` when it does not.
#[verifier::external_body]
pub(crate) fn i64_to_i32(x: i64) -> (r: Option<i32>)
    ensures
        r == (if i32::MIN <= x <= i32::MAX { Some(x as i32) } else { None }),
{
    num::ToPrimitive::to_i32(&x)
}

/// Conversion to an unsigned number, as computed by
/// `num::ToPrimitive::to_u32` on `i64`.
///
/// Trusted: `num` returns the same number as a `u32` when it fits, and
/// `None` when it is negative or too large.
#[verifier::external_body]
pub(crate) fn i64_to_u32(x: i64) -> (r: Option<u32>)
    ensures
        r == (if 0 <= x <= u32::MAX { Some(x as u32) } else { None }),
{
    num::ToPrimitive::to_u32(&x)
}

/// Division that rounds toward negative infinity, with the matching
/// remainder, by a positive divisor.
pub(crate) fn floor_div_mod(x: i64, y: i64) -> (r: (i64, i64))
    requires
        y > 1,
    ensures
        r.0 == x as int / y as int,
        r.1 == x as int % y as int,
        0 <= r.1 < y,
{
    let q: i64 = x / y;
    let m: i64 = x % y;
    proof {
        lemma_floor_from_trunc(x as int, y as int, q as int, m as int);
    }
    if m < 0 {
        (q - 1, m + y)
    } else {
        (q, m)
    }
}

/// A quotient and remainder that round toward zero determine the ones that
/// round toward negative infinity.
proof fn lemma_floor_from_trunc(x: int, y: int, q: int, m: int)
    requires
        y > 1,
        x >= 0 ==> q == x / y && m == x % y,
        x < 0 ==> q == -((-x) / y) && m == -((-x) % y),
    ensures
        -y < m < y,
        x >= 0 ==> 0 <= q <= x,
        x < 0 ==> x < q <= 0,
        m < 0 ==> x / y == q - 1 && x % y == m + y,
        m >= 0 ==> x / y == q && x % y == m,
{
    let a = if x >= 0 { x } else { -x };
    vstd::arithmetic::div_mod::lemma_fundamental_div_mod(a, y);
    vstd::arithmetic::div_mod::lemma_mod_bound(a, y);
    vstd::arithmetic::div_mod::lemma_div_pos_is_pos(a, y);
    vstd::arithmetic::div_mod::lemma_div_is_ordered_by_denominator(a, 2, y);
    let k = a / y;
    let r = a % y;
    assert(a == k * y + r) by (nonlinear_arith)
        requires
            a == y * k + r,
    ;
    if x >= 0 {
        vstd::arithmetic::div_mod::lemma_fundamental_div_mod_converse(x, y, q, m);
    } else if r == 0 {
        assert(x == q * y + 0) by (nonlinear_arith)
            requires
                -x == k * y + r,
                r == 0,
                q == -k,
        ;
        vstd::arithmetic::div_mod::lemma_fundamental_div_mod_converse(x, y, q, 0);
    } else {
        assert(x == (q - 1) * y + (m + y)) by (nonlinear_arith)
            requires
                -x == k * y + r,
                m == -r,
                q == -k,
        ;
        vstd::arithmetic::div_mod::lemma_fundamental_div_mod_converse(x, y, q - 1, m + y);
    }
}

} // verus!
