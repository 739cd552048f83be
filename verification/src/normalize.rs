//! Per-column standardization with a fit/transform discipline: `fit`
//! records each column's mean and population standard deviation, `transform`
//! maps each entry `x` to `(x - mean) / std`.
//!
//! A standard deviation that vanishes at the fixed-point resolution is
//! clamped to `1.0`, so `transform` never divides by zero.

use vstd::prelude::*;

use crate::errors::MlError;
use crate::fixed::{clamp64, fxdiv, iabs, sat_sub, tdiv, SCALE};
use crate::fixed::{fx_div, fx_sub};
use crate::matrix::Matrix;
use crate::numeric::{
    fx_sqrt, fx_sqrt_spec, ints_of, lemma_mean_in_range, lemma_seq_sum_bounds, mean_of,
    mean_spec, seq_sum, variance_of, variance_spec,
};

verus! {

/// Column `j` of a matrix view.
pub open spec fn col_of(m: Seq<Seq<int>>, j: int) -> Seq<int> {
    Seq::new(m.len(), |i: int| m[i][j])
}

/// The fitted mean of column `j`.
pub open spec fn col_mean_spec(m: Seq<Seq<int>>, j: int) -> int {
    mean_spec(col_of(m, j))
}

/// The fitted standard deviation of column `j`, clamped to `1.0` where it
/// vanishes.
pub open spec fn col_std_spec(m: Seq<Seq<int>>, j: int) -> int {
    let s = fx_sqrt_spec(variance_spec(col_of(m, j), col_mean_spec(m, j)));
    if s == 0 {
        SCALE as int
    } else {
        s
    }
}

/// One standardized entry.
pub open spec fn std_entry_spec(x: int, mean: int, std: int) -> int {
    fxdiv(sat_sub(x, mean), std)
}

/// The whole standardized matrix.
pub open spec fn transform_spec(m: Seq<Seq<int>>, means: Seq<int>, stds: Seq<int>) -> Seq<
    Seq<int>,
> {
    Seq::new(m.len(), |i: int| Seq::new(means.len(), |j: int| std_entry_spec(m[i][j], means[j], stds[j])))
}

pub struct DataNormalizer {
    pub means: Vec<i64>,
    pub stds: Vec<i64>,
    pub is_fitted: bool,
}

impl DataNormalizer {
    /// A fitted normalizer has one mean and one positive deviation per
    /// column.
    pub open spec fn wf(&self) -> bool {
        self.is_fitted ==> {
            &&& self.stds@.len() == self.means@.len()
            &&& forall|j: int| 0 <= j < self.stds@.len() ==> (#[trigger] self.stds@[j]) > 0
        }
    }

    /// The fitted state matches matrix `m`.
    pub open spec fn fitted_to(&self, m: Seq<Seq<int>>, cols: int) -> bool {
        &&& self.is_fitted
        &&& self.means@.len() == cols
        &&& self.stds@.len() == cols
        &&& forall|j: int|
            0 <= j < cols ==> (#[trigger] self.means@[j]) as int == col_mean_spec(m, j)
        &&& forall|j: int| 0 <= j < cols ==> (#[trigger] self.stds@[j]) as int == col_std_spec(m, j)
    }

    pub fn new() -> (r: DataNormalizer)
        ensures
            r.wf(),
            !r.is_fitted,
    {
        DataNormalizer { means: Vec::new(), stds: Vec::new(), is_fitted: false }
    }

    /// Record per-column means and clamped standard deviations of `x`.
    /// Fails exactly on a zero-row input.
    pub fn fit(&mut self, x: &Matrix) -> (r: Result<(), MlError>)
        requires
            old(self).wf(),
            x.wf(),
        ensures
            final(self).wf(),
            x@.len() == 0 ==> r == Err::<(), MlError>(MlError::EmptyInput) && *final(self)
                == *old(self),
            x@.len() > 0 ==> r == Ok::<(), MlError>(()) && final(self).fitted_to(
                x@,
                x.cols_spec(),
            ),
    {
        if x.nrows() == 0 {
            return Err(MlError::EmptyInput);
        }
        let cols = x.ncols();
        let mut means: Vec<i64> = Vec::new();
        let mut stds: Vec<i64> = Vec::new();
        let mut j: usize = 0;
        while j < cols
            invariant
                0 <= j <= cols,
                x.wf(),
                x@.len() > 0,
                cols == x.cols_spec(),
                means@.len() == j,
                stds@.len() == j,
                forall|k: int|
                    0 <= k < j ==> (#[trigger] means@[k]) as int == col_mean_spec(x@, k),
                forall|k: int| 0 <= k < j ==> (#[trigger] stds@[k]) as int == col_std_spec(x@, k),
                forall|k: int| 0 <= k < j ==> (#[trigger] stds@[k]) > 0,
            decreases cols - j,
        {
            let c = x.col(j);
            proof {
                assert(ints_of(c@) =~= col_of(x@, j as int));
            }
            let m = mean_of(&c);
            let v = variance_of(&c, m);
            let s = fx_sqrt(v);
            let s = if s == 0 {
                SCALE
            } else {
                s
            };
            means.push(m);
            stds.push(s);
            j = j + 1;
        }
        self.means = means;
        self.stds = stds;
        self.is_fitted = true;
        Ok(())
    }

    /// Standardize `x` with the fitted state. Fails exactly when no fit has
    /// succeeded yet.
    pub fn transform(&self, x: &Matrix) -> (r: Result<Matrix, MlError>)
        requires
            self.wf(),
            x.wf(),
            self.is_fitted ==> x.cols_spec() == self.means@.len(),
        ensures
            !self.is_fitted ==> r == Err::<Matrix, MlError>(MlError::NotFitted),
            self.is_fitted ==> match r {
                Ok(m) => {
                    &&& m.wf()
                    &&& m.cols_spec() == x.cols_spec()
                    &&& m@ == transform_spec(x@, ints_of(self.means@), ints_of(self.stds@))
                },
                Err(_) => false,
            },
    {
        if !self.is_fitted {
            return Err(MlError::NotFitted);
        }
        let rows = x.nrows();
        let cols = x.ncols();
        let ghost means = ints_of(self.means@);
        let ghost stds = ints_of(self.stds@);
        let mut out = Matrix::new(cols);
        let mut i: usize = 0;
        while i < rows
            invariant
                0 <= i <= rows,
                self.wf(),
                self.is_fitted,
                x.wf(),
                rows == x@.len(),
                cols == x.cols_spec(),
                cols == self.means@.len(),
                means == ints_of(self.means@),
                stds == ints_of(self.stds@),
                out.wf(),
                out.cols_spec() == cols,
                out@ =~= transform_spec(x@, means, stds).take(i as int),
            decreases rows - i,
        {
            let mut row: Vec<i64> = Vec::new();
            let mut j: usize = 0;
            while j < cols
                invariant
                    0 <= j <= cols,
                    0 <= i < rows,
                    self.wf(),
                    self.is_fitted,
                    x.wf(),
                    rows == x@.len(),
                    cols == x.cols_spec(),
                    cols == self.means@.len(),
                    means == ints_of(self.means@),
                    stds == ints_of(self.stds@),
                    row@.len() == j,
                    forall|k: int|
                        0 <= k < j ==> (#[trigger] row@[k]) as int == std_entry_spec(
                            x@[i as int][k],
                            means[k],
                            stds[k],
                        ),
                decreases cols - j,
            {
                let v = x.at(i, j);
                let d = fx_sub(v, self.means[j]);
                let e = fx_div(d, self.stds[j]);
                row.push(e);
                j = j + 1;
            }
            proof {
                assert(ints_of(row@) =~= transform_spec(x@, means, stds)[i as int]);
            }
            out.push_row(row);
            proof {
                assert(out@ =~= transform_spec(x@, means, stds).take(i + 1));
            }
            i = i + 1;
        }
        proof {
            assert(transform_spec(x@, means, stds).take(rows as int) =~= transform_spec(
                x@,
                means,
                stds,
            ));
        }
        Ok(out)
    }

    /// `fit` then `transform` on the same matrix.
    pub fn fit_transform(&mut self, x: &Matrix) -> (r: Result<Matrix, MlError>)
        requires
            old(self).wf(),
            x.wf(),
        ensures
            final(self).wf(),
            x@.len() == 0 ==> r == Err::<Matrix, MlError>(MlError::EmptyInput) && *final(self)
                == *old(self),
            x@.len() > 0 ==> {
                &&& final(self).fitted_to(x@, x.cols_spec())
                &&& match r {
                    Ok(m) => {
                        &&& m.wf()
                        &&& m.cols_spec() == x.cols_spec()
                        &&& m@ == transform_spec(
                            x@,
                            ints_of(final(self).means@),
                            ints_of(final(self).stds@),
                        )
                    },
                    Err(_) => false,
                }
            },
    {
        match self.fit(x) {
            Ok(()) => self.transform(x),
            Err(e) => Err(e),
        }
    }
}

/// The truncation remainder `a - b * tdiv(a, b)` is smaller than `b` in
/// magnitude.
proof fn lemma_trem(a: int, b: int)
    requires
        b > 0,
    ensures
        -b < a - b * tdiv(a, b) < b,
{
    if a >= 0 {
        vstd::arithmetic::div_mod::lemma_fundamental_div_mod(a, b);
        vstd::arithmetic::div_mod::lemma_mod_division_less_than_divisor(a, b);
    } else {
        vstd::arithmetic::div_mod::lemma_fundamental_div_mod(-a, b);
        vstd::arithmetic::div_mod::lemma_mod_division_less_than_divisor(-a, b);
        let q = (-a) / b;
        let r = (-a) % b;
        assert(a - b * (-1 * q) == -r) by (nonlinear_arith)
            requires
                -a == b * q + r,
        ;
        assert(tdiv(a, b) == -1 * q || a == 0);
    }
}

/// Sums of pointwise-affine sequences are affine: if every `a[i]` is
/// `m * b[i] + c[i]`, the sums relate the same way.
proof fn lemma_sum_linear(a: Seq<int>, b: Seq<int>, c: Seq<int>, m: int)
    requires
        a.len() == b.len(),
        a.len() == c.len(),
        forall|i: int| 0 <= i < a.len() ==> #[trigger] a[i] == m * b[i] + c[i],
    ensures
        seq_sum(a) == m * seq_sum(b) + seq_sum(c),
    decreases a.len(),
{
    if a.len() == 0 {
    } else {
        lemma_sum_linear(a.drop_last(), b.drop_last(), c.drop_last(), m);
        assert(a.last() == m * b.last() + c.last());
        assert(m * (seq_sum(b.drop_last()) + b.last()) == m * seq_sum(b.drop_last()) + m
            * b.last()) by (nonlinear_arith);
    }
}

/// The sum of `x - mu` over a sequence is the sum minus `len * mu`.
proof fn lemma_sum_affine(s: Seq<int>, mu: int)
    ensures
        seq_sum(s.map_values(|x: int| x - mu)) == seq_sum(s) - s.len() * mu,
    decreases s.len(),
{
    if s.len() == 0 {
    } else {
        lemma_sum_affine(s.drop_last(), mu);
        assert(s.map_values(|x: int| x - mu).drop_last() =~= s.drop_last().map_values(
            |x: int| x - mu,
        ));
        let n = s.len() as int;
        assert((n - 1) * mu + mu == n * mu) by (nonlinear_arith);
    }
}

/// Law: standardization centers each column. For a fitted normalizer and
/// the matrix it was fitted on, with entries of moderate magnitude, the
/// standardized entries of every column sum to less than one fixed-point
/// unit per row (measured against the column's deviation): the per-column
/// mean of `transform(X)` vanishes up to truncation.
pub proof fn lemma_standardized_column_mean(nz: DataNormalizer, m: Seq<Seq<int>>, j: int)
    requires
        nz.wf(),
        nz.fitted_to(m, nz.means@.len() as int),
        0 <= j < nz.means@.len(),
        m.len() > 0,
        forall|i: int| 0 <= i < m.len() ==> (#[trigger] m[i]).len() == nz.means@.len(),
        forall|i: int|
            0 <= i < m.len() ==> -0x100_0000_0000 <= #[trigger] m[i][j] <= 0x100_0000_0000,
    ensures
        ({
            let t = transform_spec(m, ints_of(nz.means@), ints_of(nz.stds@));
            let std = nz.stds@[j] as int;
            iabs(seq_sum(col_of(t, j))) * std < m.len() * (SCALE + std)
        }),
{
    let n = m.len() as int;
    let col = col_of(m, j);
    let mu = nz.means@[j] as int;
    let std = nz.stds@[j] as int;
    let t = transform_spec(m, ints_of(nz.means@), ints_of(nz.stds@));
    let tc = col_of(t, j);
    let b = 0x100_0000_0000int;

    assert(std > 0);
    assert(forall|i: int| 0 <= i < n ==> -b <= #[trigger] col[i] <= b);
    assert(mu == col_mean_spec(m, j));
    lemma_mean_in_range(col, -b, b);
    assert(-b <= mu <= b);

    // Each standardized entry is an unsaturated truncating quotient.
    let ds = col.map_values(|x: int| (x - mu) * (SCALE as int));
    assert forall|i: int| 0 <= i < n implies #[trigger] tc[i] == tdiv(ds[i], std) by {
        assert(tc[i] == std_entry_spec(m[i][j], mu, std));
        assert(sat_sub(m[i][j], mu) == m[i][j] - mu);
        let dd = m[i][j] - mu;
        let p = dd * (SCALE as int);
        assert(-2 * b <= dd <= 2 * b);
        assert(-2 * b * 1000000 <= p <= 2 * b * 1000000);
        crate::numeric::lemma_tdiv_shrinks(p, std);
        assert(clamp64(tdiv(p, std)) == tdiv(p, std));
        assert(ds[i] == p);
    }

    // Decompose each quotient: ds[i] == std * tc[i] + rem[i], |rem[i]| < std.
    let rem = Seq::new(n as nat, |i: int| ds[i] - std * tc[i]);
    assert forall|i: int| 0 <= i < n implies #[trigger] ds[i] == std * tc[i] + rem[i] by {
    }
    assert forall|i: int| 0 <= i < n implies -(std - 1) <= #[trigger] rem[i] <= std - 1 by {
        lemma_trem(ds[i], std);
    }
    assert(tc.len() == n);
    lemma_sum_linear(ds, tc, rem, std);

    // The deviations sum to the truncation remainder of the column mean.
    let d = col.map_values(|x: int| x - mu);
    let zeros = Seq::new(n as nat, |i: int| 0int);
    assert forall|i: int| 0 <= i < n implies #[trigger] ds[i] == (SCALE as int) * d[i]
        + zeros[i] by {
    }
    assert(seq_sum(zeros) == 0) by {
        lemma_seq_sum_bounds(zeros, 0, 0);
    }
    lemma_sum_linear(ds, d, zeros, SCALE as int);
    lemma_sum_affine(col, mu);
    lemma_trem(seq_sum(col), n);
    let rho = seq_sum(col) - n * mu;
    assert(mu == tdiv(seq_sum(col), n));
    assert(-(n - 1) <= rho <= n - 1);
    assert(seq_sum(ds) == (SCALE as int) * rho);

    // Combine: std * sum(tc) == SCALE * rho - sum(rem).
    lemma_seq_sum_bounds(rem, -(std - 1), std - 1);
    let sq = seq_sum(tc);
    assert(std * sq == (SCALE as int) * rho - seq_sum(rem));
    assert(iabs(std * sq) < n * (SCALE as int) + n * std) by (nonlinear_arith)
        requires
            std * sq == (SCALE as int) * rho - seq_sum(rem),
            -(n - 1) <= rho <= n - 1,
            n * (-(std - 1)) <= seq_sum(rem) <= n * (std - 1),
            n >= 1,
            std >= 1,
    ;
    assert(iabs(sq) * std == iabs(std * sq)) by (nonlinear_arith)
        requires
            std >= 1,
    ;
    assert(n * ((SCALE as int) + std) == n * (SCALE as int) + n * std) by (nonlinear_arith);
}

impl Default for DataNormalizer {
    /// An unfitted normalizer.
    fn default() -> (r: DataNormalizer)
        ensures
            r.wf(),
            !r.is_fitted,
    {
        DataNormalizer::new()
    }
}

/// Law: `transform` is pure. Its result is pinned, entry by entry, by the
/// fitted state and the input alone, so repeated calls on the same fitted
/// state and input return identical matrices.
pub proof fn lemma_transform_idempotent(
    n: DataNormalizer,
    x: Matrix,
    y1: Matrix,
    y2: Matrix,
)
    requires
        y1@ == transform_spec(x@, ints_of(n.means@), ints_of(n.stds@)),
        y2@ == transform_spec(x@, ints_of(n.means@), ints_of(n.stds@)),
    ensures
        y1@ == y2@,
{
}

} // verus!
