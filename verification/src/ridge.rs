//! Ridge regression on the normal equations: `(X^T X + alpha I) w = X^T y`,
//! solved by Gaussian elimination with partial pivoting, all in fixed point.
//!
//! The solver's result is pinned exactly by spec-level twins of each phase
//! (pivot scan, row swap, elimination, back substitution), and it fails with
//! `SingularMatrix` exactly when a pivot vanishes at the fixed-point
//! resolution.

use vstd::prelude::*;

use crate::errors::MlError;
use crate::fixed::{clamp64, fxdiv, fxmul, iabs, sat_add, sat_sub, SCALE};
use crate::fixed::{fx_abs, fx_add, fx_div, fx_mul, fx_sub};
use crate::matrix::{copy_values, Matrix};
use crate::normalize::{col_mean_spec, col_of};
use crate::numeric::{ints_of, mean_of, mean_spec};

verus! {

/// Magnitude as the executable comparison sees it (saturated at `i64`).
pub open spec fn cabs(x: int) -> int {
    clamp64(iabs(x))
}

/// A sequence of integer rows, each one entry wider than the row count:
/// a square system with its right-hand side appended.
pub open spec fn square_aug(m: Seq<Seq<int>>) -> bool {
    forall|j: int| 0 <= j < m.len() ==> (#[trigger] m[j]).len() == m.len() + 1
}

/// The view of a vector of rows.
pub open spec fn rows_of(s: Seq<Vec<i64>>) -> Seq<Seq<int>> {
    s.map_values(|r: Vec<i64>| ints_of(r@))
}

/// Scan rows `j..` for the row with the largest magnitude in column `col`,
/// starting from candidate `best`.
pub open spec fn pivot_scan(m: Seq<Seq<int>>, col: int, j: int, best: int) -> int
    decreases m.len() - j,
{
    if j < 0 || j >= m.len() {
        best
    } else {
        pivot_scan(
            m,
            col,
            j + 1,
            if cabs(m[j][col]) > cabs(m[best][col]) {
                j
            } else {
                best
            },
        )
    }
}

pub proof fn lemma_pivot_scan_range(m: Seq<Seq<int>>, col: int, j: int, best: int)
    requires
        0 <= best < m.len(),
    ensures
        0 <= pivot_scan(m, col, j, best) < m.len(),
        pivot_scan(m, col, j, best) == best || j <= pivot_scan(m, col, j, best),
    decreases m.len() - j,
{
    if j < 0 || j >= m.len() {
    } else {
        lemma_pivot_scan_range(
            m,
            col,
            j + 1,
            if cabs(m[j][col]) > cabs(m[best][col]) {
                j
            } else {
                best
            },
        );
    }
}

/// Rows `i` and `p` exchanged.
pub open spec fn swap_rows(m: Seq<Seq<int>>, i: int, p: int) -> Seq<Seq<int>> {
    m.update(i, m[p]).update(p, m[i])
}

/// Row `rowk` with `factor * rowi` subtracted from position `start` on.
pub open spec fn elim_row(rowk: Seq<int>, rowi: Seq<int>, factor: int, start: int) -> Seq<
    int,
> {
    Seq::new(
        rowk.len(),
        |j: int|
            if j < start {
                rowk[j]
            } else {
                sat_sub(rowk[j], fxmul(factor, rowi[j]))
            },
    )
}

/// Eliminate column `i` from rows `k..` using pivot row `i`.
pub open spec fn elim_below(m: Seq<Seq<int>>, i: int, k: int) -> Seq<Seq<int>>
    decreases m.len() - k,
{
    if k < 0 || k >= m.len() {
        m
    } else {
        elim_below(
            m.update(k, elim_row(m[k], m[i], fxdiv(m[k][i], m[i][i]), i)),
            i,
            k + 1,
        )
    }
}

proof fn lemma_elim_below_frame(m: Seq<Seq<int>>, i: int, k: int)
    ensures
        elim_below(m, i, k).len() == m.len(),
        forall|j: int|
            0 <= j < m.len() ==> (#[trigger] elim_below(m, i, k)[j]).len() == m[j].len(),
        forall|j: int| 0 <= j < m.len() && j < k ==> elim_below(m, i, k)[j] == m[j],
    decreases m.len() - k,
{
    if k < 0 || k >= m.len() {
    } else {
        lemma_elim_below_frame(
            m.update(k, elim_row(m[k], m[i], fxdiv(m[k][i], m[i][i]), i)),
            i,
            k + 1,
        );
    }
}

/// Forward elimination from row `i` on: `None` when a pivot vanishes.
pub open spec fn forward(m: Seq<Seq<int>>, i: int) -> Option<Seq<Seq<int>>>
    decreases m.len() - i,
        via forward_decreases
{
    if i < 0 || i >= m.len() {
        Some(m)
    } else {
        let p = pivot_scan(m, i, i + 1, i);
        let m1 = swap_rows(m, i, p);
        if m1[i][i] == 0 {
            None
        } else {
            forward(elim_below(m1, i, i + 1), i + 1)
        }
    }
}

#[via_fn]
proof fn forward_decreases(m: Seq<Seq<int>>, i: int) {
    if !(i < 0 || i >= m.len()) {
        let p = pivot_scan(m, i, i + 1, i);
        lemma_pivot_scan_range(m, i, i + 1, i);
        let m1 = swap_rows(m, i, p);
        if m1[i][i] != 0 {
            lemma_elim_below_frame(m1, i, i + 1);
            assert(elim_below(m1, i, i + 1).len() == m.len());
        }
    }
}

/// After a successful forward phase from row `i`: shape is preserved, rows
/// before `i` are untouched, and every diagonal entry from `i` on is
/// non-zero.
proof fn lemma_forward_props(m: Seq<Seq<int>>, i: int, r: Seq<Seq<int>>)
    requires
        0 <= i,
        square_aug(m),
        forward(m, i) == Some(r),
    ensures
        r.len() == m.len(),
        square_aug(r),
        forall|j: int| 0 <= j < i && j < m.len() ==> r[j] == m[j],
        forall|j: int| i <= j < m.len() ==> (#[trigger] r[j])[j] != 0,
    decreases m.len() - i,
{
    if i >= m.len() {
    } else {
        let p = pivot_scan(m, i, i + 1, i);
        lemma_pivot_scan_range(m, i, i + 1, i);
        let m1 = swap_rows(m, i, p);
        let m2 = elim_below(m1, i, i + 1);
        lemma_elim_below_frame(m1, i, i + 1);
        assert(square_aug(m1));
        assert forall|j: int| 0 <= j < m2.len() implies (#[trigger] m2[j]).len()
            == m2.len() + 1 by {
            assert(m2[j].len() == m1[j].len());
        }
        lemma_forward_props(m2, i + 1, r);
        assert(r[i as int] == m2[i as int]);
        assert(m2[i as int] == m1[i as int]);
        assert(r[i as int][i as int] != 0);
        assert forall|j: int| 0 <= j < i && j < m.len() implies r[j] == m[j] by {
            assert(r[j] == m2[j]);
            assert(m2[j] == m1[j]);
            assert(m1[j] == m[j]);
        }
    }
}

/// Accumulate `acc - sum_{t in [j, n)} row[t] * x[t]` in fixed point.
pub open spec fn back_acc(row: Seq<int>, x: Seq<int>, j: int, n: int, acc: int) -> int
    decreases n - j,
{
    if j < 0 || j >= n {
        acc
    } else {
        back_acc(row, x, j + 1, n, sat_sub(acc, fxmul(row[j], x[j])))
    }
}

/// Back substitution: fill `x` from row `i` down to row 0.
pub open spec fn back_fill(m: Seq<Seq<int>>, i: int, x: Seq<int>) -> Seq<int>
    decreases i + 1,
{
    if i < 0 {
        x
    } else {
        let n = m.len() as int;
        let v = fxdiv(back_acc(m[i], x, i + 1, n, m[i][n]), m[i][i]);
        back_fill(m, i - 1, x.update(i, v))
    }
}

proof fn lemma_back_fill_len(m: Seq<Seq<int>>, i: int, x: Seq<int>)
    requires
        i < x.len(),
    ensures
        back_fill(m, i, x).len() == x.len(),
    decreases i + 1,
{
    if i < 0 {
    } else {
        let n = m.len() as int;
        let v = fxdiv(back_acc(m[i], x, i + 1, n, m[i][n]), m[i][i]);
        lemma_back_fill_len(m, i - 1, x.update(i, v));
    }
}

/// All-zero vector of length `n`.
pub open spec fn zero_seq(n: int) -> Seq<int> {
    Seq::new(n as nat, |i: int| 0int)
}

/// The whole solver: forward elimination with partial pivoting, then back
/// substitution; `None` exactly when some pivot vanishes.
pub open spec fn gauss_spec(m: Seq<Seq<int>>) -> Option<Seq<int>> {
    match forward(m, 0) {
        Some(r) => Some(back_fill(r, m.len() - 1, zero_seq(m.len() as int))),
        None => None,
    }
}

/// Solve the augmented system in place. The result is exactly
/// `gauss_spec` of the input.
fn solve_aug(aug: Vec<Vec<i64>>) -> (r: Result<Vec<i64>, MlError>)
    requires
        square_aug(rows_of(aug@)),
        aug@.len() < usize::MAX,
    ensures
        match r {
            Ok(v) => v@.len() == aug@.len(),
            Err(_) => true,
        },
        match gauss_spec(rows_of(aug@)) {
            Some(x) => match r {
                Ok(v) => ints_of(v@) == x,
                Err(_) => false,
            },
            None => r == Err::<Vec<i64>, MlError>(MlError::SingularMatrix),
        },
{
    let ghost m0 = rows_of(aug@);
    let mut aug = aug;
    let n = aug.len();
    let cols = n + 1;

    let mut i: usize = 0;
    while i < n
        invariant
            0 <= i <= n,
            aug@.len() == n,
            n < usize::MAX,
            cols == n + 1,
            square_aug(rows_of(aug@)),
            forward(m0, 0) == forward(rows_of(aug@), i as int),
        decreases n - i,
    {
        let ghost mcur = rows_of(aug@);
        // Partial pivoting: find the largest magnitude in column i.
        let mut best: usize = i;
        let mut j: usize = i + 1;
        while j < n
            invariant
                i < n,
                i <= best < n,
                i + 1 <= j <= n,
                aug@.len() == n,
                cols == n + 1,
                square_aug(rows_of(aug@)),
                mcur == rows_of(aug@),
                pivot_scan(mcur, i as int, j as int, best as int) == pivot_scan(
                    mcur,
                    i as int,
                    i + 1,
                    i as int,
                ),
            decreases n - j,
        {
            proof {
                assert(mcur[j as int] == ints_of(aug@[j as int]@));
                assert(mcur[best as int] == ints_of(aug@[best as int]@));
            }
            if fx_abs(aug[j][i]) > fx_abs(aug[best][i]) {
                best = j;
            }
            j = j + 1;
        }
        let p = best;

        // Swap rows i and p.
        let tmp = copy_values(&aug[i]);
        let prow = copy_values(&aug[p]);
        aug[i] = prow;
        aug[p] = tmp;
        let ghost m1 = swap_rows(mcur, i as int, p as int);
        proof {
            assert(rows_of(aug@) =~= m1);
        }

        // A vanished pivot means a singular system.
        proof {
            assert(m1[i as int] == ints_of(aug@[i as int]@));
        }
        let piv = aug[i][i];
        if piv == 0 {
            proof {
                assert(forward(mcur, i as int) == None::<Seq<Seq<int>>>);
            }
            return Err(MlError::SingularMatrix);
        }

        // Eliminate column i below the pivot.
        let mut k: usize = i + 1;
        while k < n
            invariant
                i < n,
                i + 1 <= k <= n,
                aug@.len() == n,
                cols == n + 1,
                square_aug(rows_of(aug@)),
                rows_of(aug@)[i as int] == m1[i as int],
                ints_of(aug@[i as int]@) == m1[i as int],
                m1[i as int][i as int] == piv as int,
                piv != 0,
                elim_below(rows_of(aug@), i as int, k as int) == elim_below(m1, i as int, i + 1),
            decreases n - k,
        {
            let ghost mk = rows_of(aug@);
            proof {
                assert(mk[k as int] == ints_of(aug@[k as int]@));
            }
            let factor = fx_div(aug[k][i], piv);
            let mut nr: Vec<i64> = Vec::new();
            let mut t: usize = 0;
            while t < cols
                invariant
                    0 <= t <= cols,
                    i < n,
                    k < n,
                    cols == n + 1,
                    aug@.len() == n,
                    mk == rows_of(aug@),
                    square_aug(mk),
                    nr@.len() == t,
                    forall|u: int|
                        0 <= u < t ==> (#[trigger] nr@[u]) as int == elim_row(
                            mk[k as int],
                            mk[i as int],
                            factor as int,
                            i as int,
                        )[u],
                decreases cols - t,
            {
                proof {
                    assert(mk[k as int] == ints_of(aug@[k as int]@));
                    assert(mk[i as int] == ints_of(aug@[i as int]@));
                }
                if t < i {
                    nr.push(aug[k][t]);
                } else {
                    nr.push(fx_sub(aug[k][t], fx_mul(factor, aug[i][t])));
                }
                t = t + 1;
            }
            proof {
                assert(ints_of(nr@) =~= elim_row(
                    mk[k as int],
                    mk[i as int],
                    factor as int,
                    i as int,
                ));
            }
            aug[k] = nr;
            proof {
                assert(rows_of(aug@) =~= mk.update(
                    k as int,
                    elim_row(mk[k as int], mk[i as int], factor as int, i as int),
                ));
            }
            k = k + 1;
        }
        proof {
            assert(forward(mcur, i as int) == forward(rows_of(aug@), i + 1));
        }
        i = i + 1;
    }

    // The forward phase succeeded: every diagonal entry is non-zero.
    let ghost mfin = rows_of(aug@);
    proof {
        assert(forward(mfin, n as int) == Some(mfin));
        lemma_forward_props(m0, 0, mfin);
    }

    // Back substitution.
    let mut x: Vec<i64> = Vec::new();
    let mut z: usize = 0;
    while z < n
        invariant
            0 <= z <= n,
            x@.len() == z,
            forall|u: int| 0 <= u < z ==> (#[trigger] x@[u]) == 0i64,
        decreases n - z,
    {
        x.push(0);
        z = z + 1;
    }
    proof {
        assert(ints_of(x@) =~= zero_seq(n as int));
    }

    let mut irev: usize = n;
    while irev > 0
        invariant
            0 <= irev <= n,
            aug@.len() == n,
            cols == n + 1,
            mfin == rows_of(aug@),
            square_aug(mfin),
            forall|j: int| 0 <= j < n ==> (#[trigger] mfin[j])[j] != 0,
            x@.len() == n,
            back_fill(mfin, irev - 1, ints_of(x@)) == back_fill(
                mfin,
                n - 1,
                zero_seq(n as int),
            ),
        decreases irev,
    {
        let i = irev - 1;
        proof {
            assert(mfin[i as int] == ints_of(aug@[i as int]@));
        }
        let mut acc = aug[i][n];
        let mut j: usize = i + 1;
        while j < n
            invariant
                i < n,
                i + 1 <= j <= n,
                aug@.len() == n,
                cols == n + 1,
                mfin == rows_of(aug@),
                square_aug(mfin),
                x@.len() == n,
                back_acc(mfin[i as int], ints_of(x@), j as int, n as int, acc as int)
                    == back_acc(
                    mfin[i as int],
                    ints_of(x@),
                    i + 1,
                    n as int,
                    mfin[i as int][n as int],
                ),
            decreases n - j,
        {
            proof {
                assert(mfin[i as int] == ints_of(aug@[i as int]@));
            }
            acc = fx_sub(acc, fx_mul(aug[i][j], x[j]));
            j = j + 1;
        }
        let v = fx_div(acc, aug[i][i]);
        let ghost xold = ints_of(x@);
        x[i] = v;
        proof {
            assert(ints_of(x@) =~= xold.update(i as int, v as int));
            assert(back_fill(mfin, i as int, xold) == back_fill(
                mfin,
                i - 1,
                ints_of(x@),
            ));
        }
        irev = irev - 1;
    }
    proof {
        lemma_back_fill_len(mfin, n - 1, zero_seq(n as int));
    }
    Ok(x)
}

/// Saturating fixed-point dot product of columns `ci` and `cj`, folded over
/// rows `k..`.
pub open spec fn dot_cols_acc(m: Seq<Seq<int>>, ci: int, cj: int, k: int, acc: int) -> int
    decreases m.len() - k,
{
    if k < 0 || k >= m.len() {
        acc
    } else {
        dot_cols_acc(m, ci, cj, k + 1, sat_add(acc, fxmul(m[k][ci], m[k][cj])))
    }
}

/// Entry `(i, j)` of `X^T X + alpha I`.
pub open spec fn xtx_entry(m: Seq<Seq<int>>, alpha: int, i: int, j: int) -> int {
    let s = dot_cols_acc(m, i, j, 0, 0);
    if i == j {
        sat_add(s, alpha)
    } else {
        s
    }
}

/// Saturating fixed-point fold of `sum_k m[k][ci] * y[k]` over rows `k..`.
pub open spec fn xty_acc(m: Seq<Seq<int>>, y: Seq<int>, ci: int, k: int, acc: int) -> int
    decreases m.len() - k,
{
    if k < 0 || k >= m.len() {
        acc
    } else {
        xty_acc(m, y, ci, k + 1, sat_add(acc, fxmul(m[k][ci], y[k])))
    }
}

/// The augmented normal-equations system `[X^T X + alpha I | X^T y]`.
pub open spec fn ridge_aug(m: Seq<Seq<int>>, y: Seq<int>, alpha: int, f: int) -> Seq<
    Seq<int>,
> {
    Seq::new(
        f as nat,
        |i: int|
            Seq::new(
                (f + 1) as nat,
                |j: int|
                    if j < f {
                        xtx_entry(m, alpha, i, j)
                    } else {
                        xty_acc(m, y, i, 0, 0)
                    },
            ),
    )
}

/// Saturating fixed-point fold of `sum_j a[j] * b[j]` from `j` on.
pub open spec fn dot_acc(a: Seq<int>, b: Seq<int>, j: int, acc: int) -> int
    decreases a.len() - j,
{
    if j < 0 || j >= a.len() {
        acc
    } else {
        dot_acc(a, b, j + 1, sat_add(acc, fxmul(a[j], b[j])))
    }
}

/// The derived intercept: `mean(y) - mean-row(X) . w`.
pub open spec fn bias_spec(m: Seq<Seq<int>>, y: Seq<int>, w: Seq<int>, f: int) -> int {
    let means = Seq::new(f as nat, |j: int| col_mean_spec(m, j));
    sat_sub(mean_spec(y), dot_acc(means, w, 0, 0))
}

/// One prediction: `bias + row . w`.
pub open spec fn ridge_pred_spec(row: Seq<int>, w: Seq<int>, bias: int) -> int {
    dot_acc(w, row, 0, bias)
}

/// A linear model with L2 regularization, fitted via the normal equations.
pub struct RidgeRegressor {
    /// Regularization strength, in millionths.
    pub alpha: i64,
    pub weights: Vec<i64>,
    pub bias: i64,
    pub is_trained: bool,
}

impl RidgeRegressor {
    pub fn new(alpha: i64) -> (r: RidgeRegressor)
        ensures
            r.alpha == alpha,
            !r.is_trained,
    {
        RidgeRegressor { alpha, weights: Vec::new(), bias: 0, is_trained: false }
    }

    /// Solve `A x = b` by Gaussian elimination with partial pivoting. Fails
    /// with `SingularMatrix` exactly when a pivot vanishes at the
    /// fixed-point resolution.
    pub fn solve_linear_system(&self, a: &Matrix, b: &Vec<i64>) -> (r: Result<
        Vec<i64>,
        MlError,
    >)
        requires
            a.wf(),
            a.cols_spec() == a@.len(),
            b@.len() == a@.len(),
            a@.len() < usize::MAX,
        ensures
            match gauss_spec(aug_of(a@, ints_of(b@))) {
                Some(x) => match r {
                    Ok(v) => ints_of(v@) == x,
                    Err(_) => false,
                },
                None => r == Err::<Vec<i64>, MlError>(MlError::SingularMatrix),
            },
    {
        let n = a.nrows();
        let mut aug: Vec<Vec<i64>> = Vec::new();
        let mut i: usize = 0;
        while i < n
            invariant
                0 <= i <= n,
                aug@.len() == i,
                forall|k: int|
                    0 <= k < i ==> ints_of((#[trigger] aug@[k])@) == aug_of(
                        a@,
                        ints_of(b@),
                    )[k],
            decreases n - i,
        {
            let mut row = copy_values(a.row(i));
            row.push(b[i]);
            proof {
                assert(ints_of(row@) =~= aug_of(a@, ints_of(b@))[i as int]);
            }
            aug.push(row);
            i = i + 1;
        }
        proof {
            assert(rows_of(aug@) =~= aug_of(a@, ints_of(b@)));
        }
        solve_aug(aug)
    }

    /// Fit `(X^T X + alpha I) w = X^T y`, then derive the intercept from the
    /// column means. Fails with `EmptyInput` on a zero-row or zero-column
    /// input and with `SingularMatrix` exactly when the system degenerates.
    pub fn fit(&mut self, x: &Matrix, y: &Vec<i64>) -> (r: Result<(), MlError>)
        requires
            x.wf(),
            y@.len() == x@.len(),
            x.cols_spec() < usize::MAX,
        ensures
            final(self).alpha == old(self).alpha,
            (x@.len() == 0 || x.cols_spec() == 0) ==> r == Err::<(), MlError>(
                MlError::EmptyInput,
            ) && *final(self) == *old(self),
            x@.len() > 0 && x.cols_spec() > 0 ==> match gauss_spec(
                ridge_aug(x@, ints_of(y@), old(self).alpha as int, x.cols_spec()),
            ) {
                Some(w) => {
                    &&& r == Ok::<(), MlError>(())
                    &&& final(self).is_trained
                    &&& final(self).weights@.len() == x.cols_spec()
                    &&& ints_of(final(self).weights@) == w
                    &&& final(self).bias as int == bias_spec(
                        x@,
                        ints_of(y@),
                        w,
                        x.cols_spec(),
                    )
                },
                None => r == Err::<(), MlError>(MlError::SingularMatrix) && *final(self)
                    == *old(self),
            },
    {
        let n = x.nrows();
        let f = x.ncols();
        if n == 0 || f == 0 {
            return Err(MlError::EmptyInput);
        }
        let ghost m = x@;
        let ghost yv = ints_of(y@);
        let alpha = self.alpha;

        // Build the augmented normal-equations system.
        let mut aug: Vec<Vec<i64>> = Vec::new();
        let mut i: usize = 0;
        while i < f
            invariant
                0 <= i <= f,
                aug@.len() == i,
                forall|k: int|
                    0 <= k < i ==> ints_of((#[trigger] aug@[k])@) == ridge_aug(
                        m,
                        yv,
                        alpha as int,
                        f as int,
                    )[k],
            decreases f - i,
        {
            let mut row: Vec<i64> = Vec::new();
            let mut j: usize = 0;
            while j < f
                invariant
                    0 <= j <= f,
                    i < f,
                    row@.len() == j,
                    forall|u: int|
                        0 <= u < j ==> (#[trigger] row@[u]) as int == xtx_entry(
                            m,
                            alpha as int,
                            i as int,
                            u,
                        ),
                decreases f - j,
            {
                let mut acc: i64 = 0;
                let mut k: usize = 0;
                while k < n
                    invariant
                        0 <= k <= n,
                        i < f,
                        j < f,
                        dot_cols_acc(m, i as int, j as int, k as int, acc as int)
                            == dot_cols_acc(m, i as int, j as int, 0, 0),
                    decreases n - k,
                {
                    acc = fx_add(acc, fx_mul(x.at(k, i), x.at(k, j)));
                    k = k + 1;
                }
                if i == j {
                    acc = fx_add(acc, alpha);
                }
                row.push(acc);
                j = j + 1;
            }
            let mut acc: i64 = 0;
            let mut k: usize = 0;
            while k < n
                invariant
                    0 <= k <= n,
                    i < f,
                    xty_acc(m, yv, i as int, k as int, acc as int) == xty_acc(
                        m,
                        yv,
                        i as int,
                        0,
                        0,
                    ),
                decreases n - k,
            {
                acc = fx_add(acc, fx_mul(x.at(k, i), y[k]));
                k = k + 1;
            }
            row.push(acc);
            proof {
                assert(ints_of(row@) =~= ridge_aug(m, yv, alpha as int, f as int)[i as int]);
            }
            aug.push(row);
            i = i + 1;
        }
        proof {
            assert(rows_of(aug@) =~= ridge_aug(m, yv, alpha as int, f as int));
        }

        let w = match solve_aug(aug) {
            Ok(w) => w,
            Err(e) => {
                return Err(e);
            },
        };

        // Intercept from the column means.
        let y_mean = mean_of(y);
        let mut means: Vec<i64> = Vec::new();
        let mut j: usize = 0;
        while j < f
            invariant
                0 <= j <= f,
                means@.len() == j,
                forall|u: int|
                    0 <= u < j ==> (#[trigger] means@[u]) as int == col_mean_spec(m, u),
            decreases f - j,
        {
            let c = x.col(j);
            proof {
                assert(ints_of(c@) =~= col_of(m, j as int));
            }
            means.push(mean_of(&c));
            j = j + 1;
        }
        let ghost meansv = Seq::new(f as nat, |u: int| col_mean_spec(m, u));
        proof {
            assert(ints_of(means@) =~= meansv);
        }
        let mut pred: i64 = 0;
        let mut j: usize = 0;
        while j < f
            invariant
                0 <= j <= f,
                means@.len() == f,
                w@.len() == f,
                dot_acc(meansv, ints_of(w@), j as int, pred as int) == dot_acc(
                    meansv,
                    ints_of(w@),
                    0,
                    0,
                ),
            decreases f - j,
        {
            pred = fx_add(pred, fx_mul(means[j], w[j]));
            j = j + 1;
        }
        self.bias = fx_sub(y_mean, pred);
        self.weights = w;
        self.is_trained = true;
        Ok(())
    }

    /// Predict one value per row: `bias + row . w`. Fails exactly when the
    /// model has not been trained.
    pub fn predict(&self, x: &Matrix) -> (r: Result<Vec<i64>, MlError>)
        requires
            x.wf(),
            self.is_trained ==> x.cols_spec() == self.weights@.len(),
        ensures
            !self.is_trained ==> r == Err::<Vec<i64>, MlError>(MlError::NotTrained),
            self.is_trained ==> match r {
                Ok(p) => {
                    &&& p@.len() == x@.len()
                    &&& forall|i: int|
                        0 <= i < x@.len() ==> (#[trigger] p@[i]) as int == ridge_pred_spec(
                            x@[i],
                            ints_of(self.weights@),
                            self.bias as int,
                        )
                },
                Err(_) => false,
            },
    {
        if !self.is_trained {
            return Err(MlError::NotTrained);
        }
        let n = x.nrows();
        let f = x.ncols();
        let ghost wv = ints_of(self.weights@);
        let mut out: Vec<i64> = Vec::new();
        let mut i: usize = 0;
        while i < n
            invariant
                0 <= i <= n,
                out@.len() == i,
                forall|k: int|
                    0 <= k < i ==> (#[trigger] out@[k]) as int == ridge_pred_spec(
                        x@[k],
                        wv,
                        self.bias as int,
                    ),
            decreases n - i,
        {
            let mut acc: i64 = self.bias;
            let mut j: usize = 0;
            while j < f
                invariant
                    0 <= j <= f,
                    i < n,
                    dot_acc(wv, x@[i as int], j as int, acc as int) == dot_acc(
                        wv,
                        x@[i as int],
                        0,
                        self.bias as int,
                    ),
                decreases f - j,
            {
                acc = fx_add(acc, fx_mul(self.weights[j], x.at(i, j)));
                j = j + 1;
            }
            out.push(acc);
            i = i + 1;
        }
        Ok(out)
    }
}

/// A square system with its right-hand side appended.
pub open spec fn aug_of(m: Seq<Seq<int>>, b: Seq<int>) -> Seq<Seq<int>> {
    Seq::new(m.len(), |i: int| m[i].push(b[i]))
}

/// A one-equation system solves to the plain quotient.
proof fn lemma_gauss_one_equation(d: int, t: int)
    requires
        d != 0,
    ensures
        gauss_spec(seq![seq![d, t]]) == Some(seq![fxdiv(t, d)]),
{
    let m = seq![seq![d, t]];
    assert(pivot_scan(m, 0, 1, 0) == 0);
    let m1 = swap_rows(m, 0, 0);
    assert(m1 =~= m);
    assert(elim_below(m1, 0, 1) == m1);
    assert(forward(m1, 1) == Some(m1));
    assert(forward(m, 0) == Some(m1));
    let zs = zero_seq(1);
    assert(back_acc(m[0], zs, 1, 1, m[0][1]) == t);
    assert(back_fill(m, -1, zs.update(0, fxdiv(t, d))) == zs.update(0, fxdiv(t, d)));
    assert(back_fill(m, 0, zs) == zs.update(0, fxdiv(t, d)));
    assert(zs.update(0, fxdiv(t, d)) =~= seq![fxdiv(t, d)]);
}

/// A larger positive divisor never grows the magnitude of a saturated
/// fixed-point quotient.
proof fn lemma_fxdiv_denominator_monotone(t: int, d1: int, d2: int)
    requires
        0 < d1 <= d2,
    ensures
        iabs(fxdiv(t, d2)) <= iabs(fxdiv(t, d1)),
{
    let c = t * (SCALE as int);
    if t >= 0 {
        vstd::arithmetic::div_mod::lemma_div_pos_is_pos(c, d1);
        vstd::arithmetic::div_mod::lemma_div_pos_is_pos(c, d2);
        vstd::arithmetic::div_mod::lemma_div_is_ordered_by_denominator(c, d1, d2);
    } else {
        vstd::arithmetic::div_mod::lemma_div_pos_is_pos(-c, d1);
        vstd::arithmetic::div_mod::lemma_div_pos_is_pos(-c, d2);
        vstd::arithmetic::div_mod::lemma_div_is_ordered_by_denominator(-c, d1, d2);
    }
}

/// Law (a provable slice of ridge shrinkage): with a single feature, a
/// larger regularization strength never grows the weight magnitude. For
/// fixed data, the solved weight is `X^T y / (X^T X + alpha)`, and the
/// magnitude of that quotient is non-increasing in `alpha`.
pub proof fn lemma_ridge_weight_shrinks_single_feature(
    m: Seq<Seq<int>>,
    y: Seq<int>,
    a1: int,
    a2: int,
)
    requires
        0 <= a1 <= a2,
        sat_add(dot_cols_acc(m, 0, 0, 0, 0), a1) > 0,
    ensures
        ({
            let w1 = gauss_spec(ridge_aug(m, y, a1, 1));
            let w2 = gauss_spec(ridge_aug(m, y, a2, 1));
            &&& w1 is Some
            &&& w2 is Some
            &&& iabs(w2->Some_0[0]) <= iabs(w1->Some_0[0])
        }),
{
    let s = dot_cols_acc(m, 0, 0, 0, 0);
    let t = xty_acc(m, y, 0, 0, 0);
    let d1 = sat_add(s, a1);
    let d2 = sat_add(s, a2);
    assert(0 < d1 <= d2);
    assert(ridge_aug(m, y, a1, 1) =~~= seq![seq![d1, t]]);
    assert(ridge_aug(m, y, a2, 1) =~~= seq![seq![d2, t]]);
    lemma_gauss_one_equation(d1, t);
    lemma_gauss_one_equation(d2, t);
    lemma_fxdiv_denominator_monotone(t, d1, d2);
}

} // verus!
