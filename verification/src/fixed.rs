//! Decimal fixed-point arithmetic.
//!
//! Every length, position, speed and ratio of the game is an `i64` that counts
//! thousandths of a unit, so `1500` stands for one and a half. Results that
//! leave the range of `i64` stop at its nearest end, and quotients drop what an
//! `i64` cannot hold by rounding toward zero.

use vstd::prelude::*;

verus! {

/// Raw steps in one whole unit.
pub const SCALE: i64 = 1000;

/// One whole unit.
pub const ONE: i64 = 1000;

/// The value of the raw range that lies nearest to `v`.
pub open spec fn saturate(v: int) -> int {
    if v < i64::MIN as int {
        i64::MIN as int
    } else if v > i64::MAX as int {
        i64::MAX as int
    } else {
        v
    }
}

/// The quotient of `a` by a positive `b`, rounded toward zero.
pub open spec fn trunc_div(a: int, b: int) -> int
    recommends
        b > 0,
{
    if a >= 0 {
        a / b
    } else {
        -((-a) / b)
    }
}

/// The distance of `v` from zero.
pub open spec fn magnitude(v: int) -> int {
    if v < 0 {
        -v
    } else {
        v
    }
}

/// The product of two fixed-point numbers before it is fitted to the raw range.
pub open spec fn scaled_product(a: int, b: int) -> int {
    trunc_div(a * b, SCALE as int)
}

/// Fits a wide intermediate result to the raw range.
pub fn clamp(v: i128) -> (r: i64)
    ensures
        r == saturate(v as int),
{
    if v < i64::MIN as i128 {
        i64::MIN
    } else if v > i64::MAX as i128 {
        i64::MAX
    } else {
        v as i64
    }
}

/// The fixed-point number that stands for `n` whole units.
pub fn from_units(n: i32) -> (r: i64)
    ensures
        r == n * SCALE,
{
    (n as i64) * SCALE
}

/// Saturating sum.
pub fn sat_add(a: i64, b: i64) -> (r: i64)
    ensures
        r == saturate(a + b),
{
    clamp(a as i128 + b as i128)
}

/// Saturating difference.
pub fn sat_sub(a: i64, b: i64) -> (r: i64)
    ensures
        r == saturate(a - b),
{
    clamp(a as i128 - b as i128)
}

/// Saturating distance from zero.
pub fn sat_abs(a: i64) -> (r: i64)
    ensures
        r == saturate(magnitude(a as int)),
{
    if a < 0 {
        clamp(-(a as i128))
    } else {
        a
    }
}

/// Quotient of a wide value by a positive divisor, rounded toward zero.
pub(crate) fn div_toward_zero(a: i128, b: i128) -> (r: i128)
    requires
        b > 0,
        a > i128::MIN,
    ensures
        r == trunc_div(a as int, b as int),
{
    if a >= 0 {
        a / b
    } else {
        -((-a) / b)
    }
}

/// Saturating fixed-point product.
pub fn sat_mul(a: i64, b: i64) -> (r: i64)
    ensures
        r == saturate(scaled_product(a as int, b as int)),
{
    assert(-0x4000_0000_0000_0000_0000_0000_0000_0000 <= (a as int) * (b as int)
        <= 0x4000_0000_0000_0000_0000_0000_0000_0000) by (nonlinear_arith)
        requires
            -0x8000_0000_0000_0000 <= a as int <= 0x8000_0000_0000_0000,
            -0x8000_0000_0000_0000 <= b as int <= 0x8000_0000_0000_0000,
    ;
    let wide: i128 = (a as i128) * (b as i128);
    clamp(div_toward_zero(wide, SCALE as i128))
}

} // verus!
