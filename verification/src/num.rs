//! Truncating fixed-point arithmetic helpers.
//!
//! Font-unit values are scaled to a requested size by `v * num / den` with
//! the quotient rounded toward zero, matching how a scale factor would be
//! applied to signed metrics. Spec-level `/` is Euclidean, so the truncating
//! forms are defined by a sign split and the executable code mirrors it on
//! magnitudes.

use vstd::prelude::*;

verus! {

/// `v * num / den` rounded toward zero.
pub open spec fn scale_trunc(v: int, num: int, den: int) -> int {
    if v >= 0 {
        (v * num) / den
    } else {
        -(((-v) * num) / den)
    }
}

/// `v / 2` rounded toward zero.
pub open spec fn half_trunc(v: int) -> int {
    if v >= 0 {
        v / 2
    } else {
        -((-v) / 2)
    }
}

/// The magnitude of a truncating scale is bounded by `|v| * num` when the
/// divisor is at least one.
pub proof fn lemma_scale_trunc_bound(v: int, num: int, den: int)
    requires
        num >= 0,
        den >= 1,
    ensures
        -(vstd::math::abs(v) * num) <= scale_trunc(v, num, den) <= vstd::math::abs(v) * num,
{
    if v >= 0 {
        vstd::arithmetic::mul::lemma_mul_nonnegative(v, num);
        vstd::arithmetic::div_mod::lemma_div_nonincreasing(v * num, den);
        vstd::arithmetic::div_mod::lemma_div_pos_is_pos(v * num, den);
    } else {
        vstd::arithmetic::mul::lemma_mul_nonnegative(-v, num);
        vstd::arithmetic::div_mod::lemma_div_nonincreasing((-v) * num, den);
        vstd::arithmetic::div_mod::lemma_div_pos_is_pos((-v) * num, den);
    }
}

/// Scale a signed font-unit value: `v * num / den` rounded toward zero.
pub fn scale_i32(v: i32, num: u16, den: u16) -> (r: i64)
    requires
        den > 0,
    ensures
        r as int == scale_trunc(v as int, num as int, den as int),
        -0x8000_0000_0000 <= r <= 0x8000_0000_0000,
{
    proof {
        if v >= 0 {
            vstd::arithmetic::mul::lemma_mul_upper_bound(v as int, 0x8000_0000, num as int, 0xffff);
        } else {
            vstd::arithmetic::mul::lemma_mul_upper_bound(-(v as int), 0x8000_0000, num as int, 0xffff);
        }
        lemma_scale_trunc_bound(v as int, num as int, den as int);
    }
    if v >= 0 {
        let prod: u64 = (v as u64) * (num as u64);
        (prod / (den as u64)) as i64
    } else {
        let mag: u64 = ((-(v as i64)) as u64) * (num as u64);
        let q: u64 = mag / (den as u64);
        -(q as i64)
    }
}

/// Halve a signed value, rounding toward zero.
pub fn half_i64(v: i64) -> (r: i64)
    requires
        v > i64::MIN,
    ensures
        r as int == half_trunc(v as int),
{
    if v >= 0 {
        ((v as u64) / 2) as i64
    } else {
        let q: u64 = ((-v) as u64) / 2;
        -(q as i64)
    }
}

/// Halve a signed wide value, rounding toward zero.
pub fn half_i128(v: i128) -> (r: i128)
    requires
        v > i128::MIN,
    ensures
        r as int == half_trunc(v as int),
{
    if v >= 0 {
        ((v as u128) / 2) as i128
    } else {
        let q: u128 = ((-v) as u128) / 2;
        -(q as i128)
    }
}

} // verus!
