//! Fixed-point arithmetic: every real-valued quantity in this crate is an
//! `i64` counting millionths, so `1_000_000` stands for `1.0`.
//!
//! The executable operators saturate at the `i64` range instead of wrapping,
//! and each one is specified exactly by a spec-level twin over `int`.

use vstd::prelude::*;

verus! {

/// Number of fixed-point units in `1.0`.
pub const SCALE: i64 = 1000000;

/// Truncating (round-toward-zero) division, the semantics of Rust's `/`
/// on signed integers, expressed with Verus's Euclidean `/`.
pub open spec fn tdiv(a: int, b: int) -> int
    recommends
        b != 0,
{
    if a == 0 {
        0
    } else if a > 0 && b > 0 {
        a / b
    } else if a < 0 && b < 0 {
        (a * -1) / (b * -1)
    } else if a < 0 {
        ((a * -1) / b) * -1
    } else {
        (a / (b * -1)) * -1
    }
}

/// Clamp a mathematical integer into the `i64` range.
pub open spec fn clamp64(x: int) -> int {
    if x > i64::MAX {
        i64::MAX as int
    } else if x < i64::MIN {
        i64::MIN as int
    } else {
        x
    }
}

/// Saturating addition.
pub open spec fn sat_add(a: int, b: int) -> int {
    clamp64(a + b)
}

/// Saturating subtraction.
pub open spec fn sat_sub(a: int, b: int) -> int {
    clamp64(a - b)
}

/// Fixed-point product: `a * b / SCALE`, truncated, saturated.
pub open spec fn fxmul(a: int, b: int) -> int {
    clamp64(tdiv(a * b, SCALE as int))
}

/// Fixed-point quotient: `a * SCALE / b`, truncated, saturated.
pub open spec fn fxdiv(a: int, b: int) -> int
    recommends
        b != 0,
{
    clamp64(tdiv(a * (SCALE as int), b))
}

/// Magnitude of an integer.
pub open spec fn iabs(a: int) -> int {
    if a < 0 {
        -a
    } else {
        a
    }
}

/// Smaller of two integers.
pub open spec fn imin(a: int, b: int) -> int {
    if a < b {
        a
    } else {
        b
    }
}

/// Larger of two integers.
pub open spec fn imax(a: int, b: int) -> int {
    if a > b {
        a
    } else {
        b
    }
}

pub fn fx_add(a: i64, b: i64) -> (r: i64)
    ensures
        r == sat_add(a as int, b as int),
{
    match a.checked_add(b) {
        Some(v) => v,
        None => {
            if a > 0 {
                i64::MAX
            } else {
                i64::MIN
            }
        },
    }
}

pub fn fx_sub(a: i64, b: i64) -> (r: i64)
    ensures
        r == sat_sub(a as int, b as int),
{
    match a.checked_sub(b) {
        Some(v) => v,
        None => {
            if a >= 0 {
                i64::MAX
            } else {
                i64::MIN
            }
        },
    }
}

/// The product of two `i64` values always fits in `i128`.
proof fn lemma_i64_mul_fits(a: int, b: int)
    requires
        i64::MIN <= a <= i64::MAX,
        i64::MIN <= b <= i64::MAX,
    ensures
        i128::MIN <= a * b <= i128::MAX,
{
    assert(i128::MIN <= a * b <= i128::MAX) by (nonlinear_arith)
        requires
            -0x8000000000000000 <= a <= 0x7fffffffffffffff,
            -0x8000000000000000 <= b <= 0x7fffffffffffffff,
    ;
}

/// Truncating division never grows the magnitude (for `|b| >= 1`).
proof fn lemma_tdiv_magnitude(a: int, b: int)
    requires
        b != 0,
    ensures
        iabs(tdiv(a, b)) <= iabs(a),
        a >= 0 && b > 0 ==> 0 <= tdiv(a, b) <= a,
{
    if a != 0 {
        let m = iabs(a);
        let n = iabs(b);
        assert(m / n <= m && m / n >= 0) by (nonlinear_arith)
            requires
                m > 0,
                n >= 1,
        ;
    }
}

fn clamp_i128(q: i128) -> (r: i64)
    ensures
        r == clamp64(q as int),
{
    if q > i64::MAX as i128 {
        i64::MAX
    } else if q < i64::MIN as i128 {
        i64::MIN
    } else {
        q as i64
    }
}

pub fn fx_mul(a: i64, b: i64) -> (r: i64)
    ensures
        r == fxmul(a as int, b as int),
{
    proof {
        lemma_i64_mul_fits(a as int, b as int);
    }
    let p: i128 = (a as i128) * (b as i128);
    proof {
        lemma_tdiv_magnitude(p as int, SCALE as int);
    }
    let q: i128 = match p.checked_div(SCALE as i128) {
        Some(v) => v,
        None => 0,
    };
    clamp_i128(q)
}

pub fn fx_div(a: i64, b: i64) -> (r: i64)
    requires
        b != 0,
    ensures
        r == fxdiv(a as int, b as int),
{
    proof {
        lemma_i64_mul_fits(a as int, SCALE as int);
    }
    let p: i128 = (a as i128) * (SCALE as i128);
    proof {
        assert((i64::MIN as int) * (SCALE as int) <= (a as int) * (SCALE as int)
            <= (i64::MAX as int) * (SCALE as int)) by (nonlinear_arith)
            requires
                i64::MIN as int <= a as int <= i64::MAX as int,
        ;
        lemma_tdiv_magnitude(p as int, b as int);
    }
    let q: i128 = match p.checked_div(b as i128) {
        Some(v) => v,
        None => 0,
    };
    clamp_i128(q)
}

pub fn fx_abs(a: i64) -> (r: i64)
    ensures
        r == clamp64(iabs(a as int)),
{
    if a == i64::MIN {
        i64::MAX
    } else if a < 0 {
        -a
    } else {
        a
    }
}

pub fn fx_min(a: i64, b: i64) -> (r: i64)
    ensures
        r == imin(a as int, b as int),
{
    if a < b {
        a
    } else {
        b
    }
}

pub fn fx_max(a: i64, b: i64) -> (r: i64)
    ensures
        r == imax(a as int, b as int),
{
    if a > b {
        a
    } else {
        b
    }
}

} // verus!
