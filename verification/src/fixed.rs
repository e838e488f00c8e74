//! Fixed-point scalars: `i64` counts of thousandths, with saturating arithmetic.

use vstd::prelude::*;

verus! {

/// Raw steps in one whole unit.
pub const UNIT: i64 = 1000;

/// The representable value nearest to `v`.
pub open spec fn sat(v: int) -> int {
    if v < i64::MIN {
        i64::MIN as int
    } else if v > i64::MAX {
        i64::MAX as int
    } else {
        v
    }
}

/// The product of two fixed-point values, rounded down to a whole step.
pub open spec fn scaled(a: int, b: int) -> int {
    sat((a * b) / (UNIT as int))
}

/// `v` limited to the interval from `low` to `high`.
pub open spec fn clamped(v: int, low: int, high: int) -> int {
    if v < low {
        low
    } else if v > high {
        high
    } else {
        v
    }
}

/// Narrows a wide intermediate result, saturating at the ends of the range.
pub fn saturate(v: i128) -> (r: i64)
    ensures
        r == sat(v as int),
{
    if v < i64::MIN as i128 {
        i64::MIN
    } else if v > i64::MAX as i128 {
        i64::MAX
    } else {
        v as i64
    }
}

/// Saturating sum.
pub fn sum(a: i64, b: i64) -> (r: i64)
    ensures
        r == sat(a + b),
{
    saturate(a as i128 + b as i128)
}

/// Saturating difference.
pub fn difference(a: i64, b: i64) -> (r: i64)
    ensures
        r == sat(a - b),
{
    saturate(a as i128 - b as i128)
}

/// Saturating negation.
pub fn opposite(a: i64) -> (r: i64)
    ensures
        r == sat(-a),
{
    saturate(-(a as i128))
}

/// The mean of two values, rounded down to a whole step.
pub fn mean(a: i64, b: i64) -> (r: i64)
    ensures
        r == (a + b) / 2,
{
    let total: i128 = a as i128 + b as i128;
    match total.checked_div_euclid(2) {
        Some(half) => half as i64,
        None => unreached(),
    }
}

/// Fixed-point product, rounded down and saturating.
pub fn product(a: i64, b: i64) -> (r: i64)
    ensures
        r == scaled(a as int, b as int),
{
    let left: i128 = a as i128;
    let right: i128 = b as i128;
    assert(-0x4000_0000_0000_0000_0000_0000_0000_0000 <= left * right
        <= 0x4000_0000_0000_0000_0000_0000_0000_0000) by (nonlinear_arith)
        requires
            -0x8000_0000_0000_0000 <= left <= 0x7fff_ffff_ffff_ffff,
            -0x8000_0000_0000_0000 <= right <= 0x7fff_ffff_ffff_ffff,
    ;
    let wide: i128 = left * right;
    match wide.checked_div_euclid(UNIT as i128) {
        Some(quotient) => saturate(quotient),
        None => unreached(),
    }
}

/// `v` limited to the interval from `low` to `high`.
pub fn clamp(v: i64, low: i64, high: i64) -> (r: i64)
    requires
        low <= high,
    ensures
        r == clamped(v as int, low as int, high as int),
{
    if v < low {
        low
    } else if v > high {
        high
    } else {
        v
    }
}

} // verus!
