//! Exact summation, means, variance, square roots and the exponential
//! kernel used by the statistical models.
//!
//! Sums are accumulated in `i128`, where they cannot overflow, so means and
//! variances are specified exactly; only the final narrowing back to the
//! fixed-point `i64` saturates.

use vstd::prelude::*;

use crate::fixed::{fxmul, iabs, sat_sub, tdiv, SCALE};
use crate::fixed::{fx_mul, fx_sub};
use vstd::arithmetic::div_mod::{
    lemma_div_is_ordered, lemma_div_multiples_vanish, lemma_div_pos_is_pos,
};

verus! {

/// Sum of a sequence of mathematical integers.
pub open spec fn seq_sum(s: Seq<int>) -> int
    decreases s.len(),
{
    if s.len() == 0 {
        0
    } else {
        seq_sum(s.drop_last()) + s.last()
    }
}

/// A sequence of `i64` values seen as mathematical integers.
pub open spec fn ints_of(s: Seq<i64>) -> Seq<int> {
    s.map_values(|x: i64| x as int)
}

/// Truncated mean of a sequence (0 for an empty one).
pub open spec fn mean_spec(s: Seq<int>) -> int {
    if s.len() == 0 {
        0
    } else {
        tdiv(seq_sum(s), s.len() as int)
    }
}

pub proof fn lemma_seq_sum_take_step(s: Seq<int>, i: int)
    requires
        0 <= i < s.len(),
    ensures
        seq_sum(s.take(i + 1)) == seq_sum(s.take(i)) + s[i],
{
    assert(s.take(i + 1).drop_last() =~= s.take(i));
    assert(s.take(i + 1).last() == s[i]);
}

pub proof fn lemma_seq_sum_bounds(s: Seq<int>, lo: int, hi: int)
    requires
        forall|i: int| 0 <= i < s.len() ==> lo <= #[trigger] s[i] <= hi,
    ensures
        s.len() * lo <= seq_sum(s) <= s.len() * hi,
    decreases s.len(),
{
    if s.len() == 0 {
    } else {
        let n = s.len() as int;
        lemma_seq_sum_bounds(s.drop_last(), lo, hi);
        assert((n - 1) * lo + lo == n * lo && (n - 1) * hi + hi == n * hi)
            by (nonlinear_arith);
    }
}

/// A truncated quotient of a sum of `n` values, each within `[lo, hi]`,
/// stays within `[lo, hi]`.
pub proof fn lemma_tdiv_in_range(s: int, n: int, lo: int, hi: int)
    requires
        n >= 1,
        n * lo <= s,
        s <= n * hi,
    ensures
        lo <= tdiv(s, n) <= hi,
{
    if s == 0 {
        assert(lo <= 0) by (nonlinear_arith)
            requires
                n >= 1,
                n * lo <= 0,
        ;
        assert(hi >= 0) by (nonlinear_arith)
            requires
                n >= 1,
                0 <= n * hi,
        ;
    } else if s > 0 {
        lemma_div_pos_is_pos(s, n);
        assert(s <= n * hi);
        lemma_div_is_ordered(s, n * hi, n);
        assert(n * hi == hi * n) by (nonlinear_arith);
        lemma_div_multiples_vanish(hi, n);
        if lo > 0 {
            lemma_div_is_ordered(n * lo, s, n);
            lemma_div_multiples_vanish(lo, n);
        }
    } else {
        lemma_div_pos_is_pos(-s, n);
        if hi < 0 {
            assert(-s >= n * (-hi)) by (nonlinear_arith)
                requires
                    s <= n * hi,
            ;
            lemma_div_is_ordered(n * (-hi), -s, n);
            lemma_div_multiples_vanish(-hi, n);
        }
        assert(-s <= n * (-lo)) by (nonlinear_arith)
            requires
                n * lo <= s,
        ;
        lemma_div_is_ordered(-s, n * (-lo), n);
        lemma_div_multiples_vanish(-lo, n);
    }
}

/// The truncated mean of a sequence lies between any bounds that hold for
/// every element.
pub proof fn lemma_mean_in_range(s: Seq<int>, lo: int, hi: int)
    requires
        s.len() > 0,
        forall|i: int| 0 <= i < s.len() ==> lo <= #[trigger] s[i] <= hi,
    ensures
        lo <= mean_spec(s) <= hi,
{
    lemma_seq_sum_bounds(s, lo, hi);
    lemma_tdiv_in_range(seq_sum(s), s.len() as int, lo, hi);
}

/// Exact sum of a vector, in `i128`.
pub fn sum_i128(v: &Vec<i64>) -> (s: i128)
    ensures
        s as int == seq_sum(ints_of(v@)),
{
    let mut s: i128 = 0;
    let mut i: usize = 0;
    while i < v.len()
        invariant
            0 <= i <= v@.len(),
            s as int == seq_sum(ints_of(v@).take(i as int)),
            -((i as int) * 0x8000_0000_0000_0000) <= s as int,
            s as int <= (i as int) * 0x8000_0000_0000_0000,
        decreases v@.len() - i,
    {
        proof {
            lemma_seq_sum_take_step(ints_of(v@), i as int);
        }
        s = s + (v[i] as i128);
        i = i + 1;
    }
    proof {
        assert(ints_of(v@).take(v@.len() as int) =~= ints_of(v@));
    }
    s
}

/// Truncated mean of a non-empty vector; always within the range spanned by
/// the elements.
pub fn mean_of(v: &Vec<i64>) -> (m: i64)
    requires
        v@.len() > 0,
    ensures
        m as int == mean_spec(ints_of(v@)),
{
    let s = sum_i128(v);
    proof {
        lemma_mean_in_range(ints_of(v@), i64::MIN as int, i64::MAX as int);
        lemma_tdiv_shrinks(s as int, v@.len() as int);
    }
    let q: i128 = match s.checked_div(v.len() as i128) {
        Some(q) => q,
        None => 0,
    };
    q as i64
}

/// Squared fixed-point deviation of `x` from `m`.
pub open spec fn dev_sq(x: int, m: int) -> int {
    fxmul(sat_sub(x, m), sat_sub(x, m))
}

/// Truncated mean of the squared deviations from `m` (population variance,
/// with each squared deviation saturated at the `i64` range).
pub open spec fn variance_spec(s: Seq<int>, m: int) -> int {
    mean_spec(s.map_values(|x: int| dev_sq(x, m)))
}

/// Population variance about `m` of the values in `v`.
pub fn variance_of(v: &Vec<i64>, m: i64) -> (r: i64)
    requires
        v@.len() > 0,
    ensures
        r as int == variance_spec(ints_of(v@), m as int),
{
    let mut sq: Vec<i64> = Vec::new();
    let mut i: usize = 0;
    while i < v.len()
        invariant
            0 <= i <= v@.len(),
            sq@.len() == i,
            forall|j: int|
                0 <= j < i ==> sq@[j] as int == dev_sq(ints_of(v@)[j], m as int),
        decreases v@.len() - i,
    {
        let d = fx_sub(v[i], m);
        sq.push(fx_mul(d, d));
        i = i + 1;
    }
    proof {
        assert(ints_of(sq@) =~= ints_of(v@).map_values(|x: int| dev_sq(x, m as int)));
    }
    mean_of(&sq)
}

/// `r` is the integer square root of `n`.
pub open spec fn is_isqrt(n: int, r: int) -> bool {
    0 <= r && r * r <= n && n < (r + 1) * (r + 1)
}

/// The integer square root, as a spec-level function.
pub open spec fn isqrt_spec(n: int) -> int {
    choose|r: int| is_isqrt(n, r)
}

pub proof fn lemma_isqrt_unique(n: int, a: int, b: int)
    requires
        is_isqrt(n, a),
        is_isqrt(n, b),
    ensures
        a == b,
{
    assert(a == b) by (nonlinear_arith)
        requires
            0 <= a && a * a <= n && n < (a + 1) * (a + 1),
            0 <= b && b * b <= n && n < (b + 1) * (b + 1),
    ;
}

/// Binary-search integer square root.
pub fn isqrt_u128(n: u128) -> (r: u128)
    ensures
        is_isqrt(n as int, r as int),
        r as int == isqrt_spec(n as int),
{
    let mut lo: u128 = 0;
    let mut hi: u128 = 0x1_0000_0000_0000_0000;
    proof {
        assert((0x1_0000_0000_0000_0000 as int) * (0x1_0000_0000_0000_0000 as int)
            > u128::MAX as int) by (nonlinear_arith);
    }
    while lo + 1 < hi
        invariant
            0 <= lo < hi <= 0x1_0000_0000_0000_0000,
            (lo as int) * (lo as int) <= n as int,
            (hi as int) * (hi as int) > n as int,
        decreases hi - lo,
    {
        let mid = lo + (hi - lo) / 2;
        assert(lo < mid < hi);
        match mid.checked_mul(mid) {
            Some(sq) => {
                if sq <= n {
                    lo = mid;
                } else {
                    hi = mid;
                }
            },
            None => {
                proof {
                    assert((mid as int) * (mid as int) > u128::MAX as int);
                }
                hi = mid;
            },
        }
    }
    proof {
        assert(is_isqrt(n as int, lo as int));
        let w = isqrt_spec(n as int);
        assert(is_isqrt(n as int, w));
        lemma_isqrt_unique(n as int, lo as int, w);
    }
    lo
}

/// Fixed-point square root: `sqrt(x)` where `x` and the result are both
/// in millionths; 0 for non-positive `x`.
pub open spec fn fx_sqrt_spec(x: int) -> int {
    if x <= 0 {
        0
    } else {
        isqrt_spec(x * SCALE)
    }
}

pub fn fx_sqrt(x: i64) -> (r: i64)
    ensures
        r as int == fx_sqrt_spec(x as int),
        r >= 0,
{
    if x <= 0 {
        0
    } else {
        proof {
            assert((x as int) * (SCALE as int) <= u128::MAX as int) by (nonlinear_arith)
                requires
                    0 < x as int <= i64::MAX as int,
            ;
        }
        let n: u128 = (x as u128) * (SCALE as u128);
        let r = isqrt_u128(n);
        proof {
            assert((r as int) * (r as int) <= n as int);
            assert(n as int <= 0x7fff_ffff_ffff_ffffint * 1000000int);
            assert(r as int <= i64::MAX as int) by (nonlinear_arith)
                requires
                    0 <= r as int,
                    (r as int) * (r as int) <= 0x7fff_ffff_ffff_ffffint * 1000000int,
            ;
        }
        r as i64
    }
}

/// One step of the alternating Taylor series for `exp(-f)`:
/// `term * f / (i + 1)`, in fixed point.
pub open spec fn exp_term_next(term: int, f: int, i: int) -> int {
    tdiv(fxmul(term, f), i + 1)
}

/// Partial alternating sum `sum_{k<=j} (-1)^k f^k / k!` in fixed point,
/// evaluated with truncation at every step.
pub open spec fn exp_frac_partial(f: int, j: int) -> (int, int)
    recommends
        j >= 0,
    decreases j,
{
    if j <= 0 {
        (SCALE as int, SCALE as int)
    } else {
        let (acc, term) = exp_frac_partial(f, j - 1);
        let t = exp_term_next(term, f, j - 1);
        if j % 2 == 1 {
            (acc - t, t)
        } else {
            (acc + t, t)
        }
    }
}

/// Fixed-point `exp(-f)` for a fractional `0 <= f < 1`, by eight terms of
/// the alternating series, clamped into `[0, 1]`.
pub open spec fn exp_frac_spec(f: int) -> int {
    let (acc, _) = exp_frac_partial(f, 8);
    if acc < 0 {
        0
    } else if acc > SCALE {
        SCALE as int
    } else {
        acc
    }
}

fn exp_frac(f: i64) -> (r: i64)
    requires
        0 <= f < SCALE,
    ensures
        r as int == exp_frac_spec(f as int),
        0 <= r <= SCALE,
{
    let mut acc: i64 = SCALE;
    let mut term: i64 = SCALE;
    let mut j: usize = 1;
    while j <= 8
        invariant
            1 <= j <= 9,
            0 <= f < SCALE,
            (acc as int, term as int) == exp_frac_partial(f as int, j - 1),
            iabs(term as int) <= SCALE as int,
            iabs(acc as int) <= (j as int) * (SCALE as int),
        decreases 9 - j,
    {
        proof {
            lemma_tdiv_shrinks(fxmul(term as int, f as int), j as int);
            lemma_fxmul_shrinks(term as int, f as int);
        }
        let prod = fx_mul(term, f);
        let t: i64 = match prod.checked_div(j as i64) {
            Some(v) => v,
            None => 0,
        };
        if j % 2 == 1 {
            acc = acc - t;
        } else {
            acc = acc + t;
        }
        term = t;
        j = j + 1;
    }
    if acc < 0 {
        0
    } else if acc > SCALE {
        SCALE
    } else {
        acc
    }
}

/// Truncating division by a positive divisor shrinks magnitudes and keeps
/// signs.
pub proof fn lemma_tdiv_shrinks(a: int, b: int)
    requires
        b >= 1,
    ensures
        iabs(tdiv(a, b)) <= iabs(a),
        a >= 0 ==> 0 <= tdiv(a, b) <= a,
{
    if a != 0 {
        let m = iabs(a);
        assert(m / b <= m && m / b >= 0) by (nonlinear_arith)
            requires
                m > 0,
                b >= 1,
        ;
    }
}

/// A fixed-point product with a factor in `[0, 1)` shrinks magnitudes.
proof fn lemma_fxmul_shrinks(a: int, f: int)
    requires
        0 <= f < SCALE,
        iabs(a) <= SCALE,
    ensures
        iabs(fxmul(a, f)) <= iabs(a),
        iabs(fxmul(a, f)) <= SCALE,
{
    let p = a * f;
    if a >= 0 {
        assert(0 <= a * f && a * f <= a * 1000000) by (nonlinear_arith)
            requires
                0 <= f < 1000000,
                a >= 0,
        ;
    } else {
        assert(a * 1000000 <= a * f && a * f <= 0) by (nonlinear_arith)
            requires
                0 <= f < 1000000,
                a < 0,
        ;
    }
    assert(iabs(p) <= iabs(a) * 1000000);
    if p != 0 {
        let m = iabs(p);
        lemma_div_pos_is_pos(m, 1000000int);
        lemma_div_is_ordered(m, iabs(a) * 1000000, 1000000int);
        lemma_div_multiples_vanish(iabs(a), 1000000int);
    }
}

/// Truncating division of `i64` values by a positive divisor.
pub fn tdiv_i64(a: i64, b: i64) -> (r: i64)
    requires
        b >= 1,
    ensures
        r as int == tdiv(a as int, b as int),
{
    proof {
        lemma_tdiv_shrinks(a as int, b as int);
    }
    match a.checked_div(b) {
        Some(v) => v,
        None => 0,
    }
}

/// Truncating division of an `i64` by a positive length.
pub fn tdiv_i64_by_usize(a: i64, b: usize) -> (r: i64)
    requires
        b >= 1,
    ensures
        r as int == tdiv(a as int, b as int),
{
    proof {
        lemma_tdiv_shrinks(a as int, b as int);
    }
    match (a as i128).checked_div(b as i128) {
        Some(v) => v as i64,
        None => 0,
    }
}

/// Mapping a pushed sequence pushes the mapped value.
pub proof fn lemma_map_values_push<A, B>(s: Seq<A>, f: spec_fn(A) -> B, e: A)
    ensures
        s.push(e).map_values(f) == s.map_values(f).push(f(e)),
{
    assert(s.push(e).map_values(f) =~= s.map_values(f).push(f(e)));
}

/// Euclidean remainder of `w` modulo `n`: always in `[0, n)`.
pub fn emod(w: i64, n: u64) -> (r: u64)
    requires
        1 <= n <= 0x7fff_ffff_ffff_ffff,
        w > i64::MIN,
    ensures
        r as int == (w as int) % (n as int),
        r < n,
{
    if w >= 0 {
        (w as u64) % n
    } else {
        let m = ((-w) as u64) % n;
        proof {
            let wi = w as int;
            let ni = n as int;
            let q = (-wi) / ni;
            let r0 = (-wi) % ni;
            vstd::arithmetic::div_mod::lemma_fundamental_div_mod(-wi, ni);
            assert(m as int == r0);
            if m == 0 {
                assert(wi == (-q) * ni) by (nonlinear_arith)
                    requires
                        -wi == ni * q,
                ;
                vstd::arithmetic::div_mod::lemma_mod_multiples_basic(-q, ni);
            } else {
                assert(wi == (-q - 1) * ni + (ni - r0)) by (nonlinear_arith)
                    requires
                        -wi == ni * q + r0,
                ;
                vstd::arithmetic::div_mod::lemma_fundamental_div_mod_converse_mod(
                    wi,
                    ni,
                    -q - 1,
                    ni - r0,
                );
            }
        }
        if m == 0 {
            0
        } else {
            n - m
        }
    }
}

/// `exp(-1)` in millionths.
pub const EXP_NEG_ONE: i64 = 367879;

/// Repeated fixed-point multiplication by `exp(-1)`.
pub open spec fn exp_pow_spec(base: int, k: int) -> int
    recommends
        k >= 0,
    decreases k,
{
    if k <= 0 {
        base
    } else {
        fxmul(exp_pow_spec(base, k - 1), EXP_NEG_ONE as int)
    }
}

/// Fixed-point `exp(-x)` for `x >= 0`: split into integer and fractional
/// parts; 0 for `x` of 20 or more, where the true value is below the
/// fixed-point resolution.
pub open spec fn exp_neg_spec(x: int) -> int
    recommends
        x >= 0,
{
    if x >= 20 * SCALE {
        0
    } else {
        exp_pow_spec(exp_frac_spec(x % (SCALE as int)), x / (SCALE as int))
    }
}

pub fn exp_neg(x: i64) -> (r: i64)
    requires
        x >= 0,
    ensures
        r as int == exp_neg_spec(x as int),
        0 <= r <= SCALE,
{
    if x >= 20 * SCALE {
        0
    } else {
        let k: i64 = ((x as u64) / (SCALE as u64)) as i64;
        let f: i64 = ((x as u64) % (SCALE as u64)) as i64;
        let base = exp_frac(f);
        let mut r: i64 = base;
        let mut i: i64 = 0;
        while i < k
            invariant
                0 <= i <= k < 20,
                r as int == exp_pow_spec(base as int, i as int),
                0 <= r <= SCALE,
            decreases k - i,
        {
            proof {
                lemma_fxmul_nonneg_le_scale(r as int);
            }
            r = fx_mul(r, EXP_NEG_ONE);
            i = i + 1;
        }
        r
    }
}

/// Multiplying a value of `[0, 1]` by `exp(-1)` keeps it in `[0, 1]`.
proof fn lemma_fxmul_nonneg_le_scale(a: int)
    requires
        0 <= a <= SCALE,
    ensures
        0 <= fxmul(a, EXP_NEG_ONE as int) <= SCALE,
{
    let p = a * (EXP_NEG_ONE as int);
    assert(0 <= a * 367879 && a * 367879 <= 1000000 * 1000000) by (nonlinear_arith)
        requires
            0 <= a <= 1000000,
    ;
    if p > 0 {
        lemma_div_pos_is_pos(p, 1000000int);
        lemma_div_is_ordered(p, 1000000int * 1000000int, 1000000int);
        lemma_div_multiples_vanish(1000000int, 1000000int);
    }
}

} // verus!
