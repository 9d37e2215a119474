//! Saturating fixed-point arithmetic on amounts.
//!
//! An amount is an `i64` counting thousandths of a unit (1000 == 1.0).
//! Every operation saturates at `AMT_MAX` in magnitude, so all operations
//! are total and no verified function can overflow or panic.

use vstd::prelude::*;

verus! {

/// One whole unit expressed in fixed-point thousandths.
pub const SCALE: i64 = 1000;

/// Largest magnitude any simulated amount may take; arithmetic saturates here.
pub const AMT_MAX: i64 = 1_000_000_000_000_000_000;

/// `AMT_MAX` expressed in whole units: `AMT_UNIT_MAX * SCALE == AMT_MAX`.
pub const AMT_UNIT_MAX: i64 = 1_000_000_000_000_000;

/// Magnitude of an integer.
pub open spec fn mag(x: int) -> int {
    if x >= 0 {
        x
    } else {
        -x
    }
}

/// Saturate a mathematical result into the representable amount range.
pub open spec fn clamp_amt(x: int) -> int {
    if x > AMT_MAX as int {
        AMT_MAX as int
    } else if x < -(AMT_MAX as int) {
        -(AMT_MAX as int)
    } else {
        x
    }
}

/// Saturate into `[0, AMT_MAX]`, for quantities that cannot go negative.
pub open spec fn clamp0_amt(x: int) -> int {
    if x < 0 {
        0
    } else if x > AMT_MAX as int {
        AMT_MAX as int
    } else {
        x
    }
}

/// Truncating (round-toward-zero) division, the semantics of machine division.
pub open spec fn tdiv(a: int, b: int) -> int
    recommends
        b != 0,
{
    if (a >= 0) == (b >= 0) {
        mag(a) / mag(b)
    } else {
        -(mag(a) / mag(b))
    }
}

/// Saturating addition of two amounts.
pub open spec fn add_amt(a: int, b: int) -> int {
    clamp_amt(a + b)
}

/// Saturating `v * num / den` with truncating division.
pub open spec fn mul_div_amt(v: int, num: int, den: int) -> int
    recommends
        den != 0,
{
    clamp_amt(tdiv(v * num, den))
}

/// Nearest whole-unit count for a doubly-scaled product (millis * millis),
/// rounding halves away from zero.
pub open spec fn round_unit(x: int) -> int {
    if x >= 0 {
        (x + 500_000) / 1_000_000
    } else {
        -((-x + 500_000) / 1_000_000)
    }
}

/// `round(m * d)` as an amount: the product of two millis values rounded to
/// the nearest whole unit, re-expressed in millis, saturated.
pub open spec fn round_mul_amt(m: int, d: int) -> int {
    clamp_amt(round_unit(m * d) * (SCALE as int))
}

/// Magnitudes multiply: `|a * b| == |a| * |b|`, and the product is negative
/// exactly when the signs differ and neither factor is zero.
pub proof fn lemma_mag_mul(a: int, b: int) by (nonlinear_arith)
    ensures
        mag(a * b) == mag(a) * mag(b),
        (a * b < 0) <==> (((a < 0) != (b < 0)) && a != 0 && b != 0),
{
}

/// The product of two magnitudes of `i64` values fits comfortably in `u128`.
pub proof fn lemma_mag_mul_bound(a: u128, b: u128) by (nonlinear_arith)
    requires
        a <= 0x8000_0000_0000_0000,
        b <= 0x8000_0000_0000_0000,
    ensures
        a * b <= 0x4000_0000_0000_0000_0000_0000_0000_0000,
{
}

/// Magnitude of an `i64`, widened so that `i64::MIN` is representable.
pub fn mag_u128(x: i64) -> (r: u128)
    ensures
        r as int == mag(x as int),
{
    if x >= 0 {
        x as u128
    } else {
        (-(x as i128)) as u128
    }
}

/// Saturating addition.
pub fn amt_add(a: i64, b: i64) -> (r: i64)
    ensures
        r as int == add_amt(a as int, b as int),
{
    let s: i128 = (a as i128) + (b as i128);
    if s > (AMT_MAX as i128) {
        AMT_MAX
    } else if s < -(AMT_MAX as i128) {
        -AMT_MAX
    } else {
        s as i64
    }
}

/// Addition saturating into `[0, AMT_MAX]`.
pub fn amt_add_clamp0(a: i64, b: i64) -> (r: i64)
    ensures
        r as int == clamp0_amt(a as int + b as int),
{
    let s: i128 = (a as i128) + (b as i128);
    if s < 0 {
        0
    } else if s > (AMT_MAX as i128) {
        AMT_MAX
    } else {
        s as i64
    }
}

/// Saturating subtraction.
pub fn amt_sub(a: i64, b: i64) -> (r: i64)
    ensures
        r as int == clamp_amt(a - b),
{
    let s: i128 = (a as i128) - (b as i128);
    if s > (AMT_MAX as i128) {
        AMT_MAX
    } else if s < -(AMT_MAX as i128) {
        -AMT_MAX
    } else {
        s as i64
    }
}

/// Subtraction saturating into `[0, AMT_MAX]`.
pub fn amt_sub_clamp0(a: i64, b: i64) -> (r: i64)
    ensures
        r as int == clamp0_amt(a as int - b as int),
{
    let s: i128 = (a as i128) - (b as i128);
    if s < 0 {
        0
    } else if s > (AMT_MAX as i128) {
        AMT_MAX
    } else {
        s as i64
    }
}

/// Truncating division by a positive divisor.
pub fn amt_div(x: i64, d: i64) -> (r: i64)
    requires
        d > 0,
    ensures
        r as int == tdiv(x as int, d as int),
{
    let m = mag_u128(x);
    let q: u128 = m / (d as u128);
    if x < 0 {
        (-(q as i128)) as i64
    } else {
        q as i64
    }
}

/// Saturating `v * num / den` with truncating division.
pub fn amt_mul_div(v: i64, num: i64, den: i64) -> (r: i64)
    requires
        den != 0,
    ensures
        r as int == mul_div_amt(v as int, num as int, den as int),
{
    let vm = mag_u128(v);
    let nm = mag_u128(num);
    let dm = mag_u128(den);
    proof {
        lemma_mag_mul(v as int, num as int);
        lemma_mag_mul_bound(vm, nm);
    }
    let q: u128 = (vm * nm) / dm;
    let neg: bool = ((v < 0) != (num < 0)) != (den < 0);
    let qc: u128 = if q > (AMT_MAX as u128) {
        AMT_MAX as u128
    } else {
        q
    };
    if neg {
        -(qc as i64)
    } else {
        qc as i64
    }
}

/// `round(m * d)` to the nearest whole unit, returned in millis, saturated.
pub fn amt_round_mul(m: i64, d: i64) -> (r: i64)
    ensures
        r as int == round_mul_amt(m as int, d as int),
{
    let mm = mag_u128(m);
    let dm = mag_u128(d);
    proof {
        lemma_mag_mul(m as int, d as int);
        lemma_mag_mul_bound(mm, dm);
    }
    let u: u128 = (mm * dm + 500_000) / 1_000_000;
    let uc: u128 = if u > (AMT_UNIT_MAX as u128) {
        AMT_UNIT_MAX as u128
    } else {
        u
    };
    let r0: i64 = (uc as i64) * 1000;
    if (m < 0) != (d < 0) {
        -r0
    } else {
        r0
    }
}

/// Exact inverse of multiplication under truncating division:
/// `tdiv(a * b, b) == a` whenever `b != 0`.
pub proof fn lemma_tdiv_exact(a: int, b: int)
    requires
        b != 0,
    ensures
        tdiv(a * b, b) == a,
{
    lemma_mag_mul(a, b);
    vstd::arithmetic::div_mod::lemma_div_by_multiple(mag(a), mag(b));
}

} // verus!
