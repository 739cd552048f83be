//! The forecasting ensemble: temporal features from weekly aggregates, a
//! normalizer fitted on the chronological 80% training prefix, a decision
//! tree and a ridge regressor fitted on the normalized prefix, and a blended
//! prediction `0.7 * tree + 0.3 * ridge` with an agreement-based confidence
//! and a trend classification.

use vstd::prelude::*;

use vstd::string::StringExecFns;

use crate::errors::MlError;
use crate::features::{hours_of, temporal_row_spec, FeatureEngineer};
use crate::fixed::{fxdiv, fxmul, iabs, imin, sat_add, sat_sub, SCALE};
use crate::fixed::{fx_abs, fx_add, fx_div, fx_min, fx_mul, fx_sub};
use crate::normalize::{std_entry_spec, transform_spec, DataNormalizer};
use crate::numeric::{ints_of, mean_spec};
use crate::ridge::{gauss_spec, ridge_aug, ridge_pred_spec, RidgeRegressor};
use crate::rng::RandomSource;
use crate::tree::{seq_max, seq_min, tree_pred, DecisionTreeRegressor};
use crate::types::{ForecastingOutput, WeekData};

verus! {

/// The whole temporal feature matrix of a run of weeks.
pub open spec fn temporal_matrix(weeks: Seq<WeekData>) -> Seq<Seq<int>> {
    Seq::new(weeks.len(), |i: int| temporal_row_spec(weeks, i))
}

/// The chronological 80% split point.
pub open spec fn train_split(n: int) -> int {
    (4 * n) / 5
}

/// The last temporal feature row, standardized by a fitted normalizer.
pub open spec fn scaled_last_row(weeks: Seq<WeekData>, means: Seq<int>, stds: Seq<int>) -> Seq<
    int,
> {
    Seq::new(
        means.len(),
        |j: int|
            std_entry_spec(temporal_row_spec(weeks, weeks.len() - 1)[j], means[j], stds[j]),
    )
}

/// The ensemble blend: `0.7 * tree + 0.3 * ridge`.
pub open spec fn blend_spec(t: int, l: int) -> int {
    sat_add(fxmul(t, 700000), fxmul(l, 300000))
}

/// Agreement-based confidence: `min(1 / (1 + |tree - ridge|), 1)`.
pub open spec fn confidence_spec(t: int, l: int) -> int {
    imin(fxdiv(SCALE as int, sat_add(SCALE as int, clamp_abs(sat_sub(t, l)))), SCALE as int)
}

/// Saturated magnitude.
pub open spec fn clamp_abs(x: int) -> int {
    crate::fixed::clamp64(iabs(x))
}

/// The trend over the last two weeks: more than 2 hours up, more than 2
/// hours down, or stable.
pub open spec fn trend_str(weeks: Seq<WeekData>) -> Seq<char> {
    if weeks.len() >= 2 {
        let d = sat_sub(
            weeks[weeks.len() - 1].total_hours as int,
            weeks[weeks.len() - 2].total_hours as int,
        );
        if d > 2 * SCALE {
            "increasing"@
        } else if d < -(2 * SCALE) {
            "decreasing"@
        } else {
            "stable"@
        }
    } else {
        "stable"@
    }
}

/// The per-project share of the blended total, proportional to each
/// project's share of the last week's hours.
pub open spec fn project_share(weeks: Seq<WeekData>, blend: int) -> Seq<(i32, int)> {
    let last = weeks[weeks.len() - 1];
    if last.total_hours > 0 {
        last.project_stats@.map_values(
            |s: crate::types::ProjectStats|
                (s.project_id, fxmul(blend, fxdiv(s.hours as int, last.total_hours as int))),
        )
    } else {
        Seq::empty()
    }
}

/// The fitted per-column means of a matrix prefix.
pub open spec fn fitted_means(m: Seq<Seq<int>>, cols: int) -> Seq<int> {
    Seq::new(cols as nat, |j: int| crate::normalize::col_mean_spec(m, j))
}

/// The fitted per-column deviations of a matrix prefix.
pub open spec fn fitted_stds(m: Seq<Seq<int>>, cols: int) -> Seq<int> {
    Seq::new(cols as nat, |j: int| crate::normalize::col_std_spec(m, j))
}

pub struct ForecastingModel {
    pub tree_model: Option<DecisionTreeRegressor>,
    pub linear_model: Option<RidgeRegressor>,
    pub normalizer: DataNormalizer,
    pub is_trained: bool,
}

impl ForecastingModel {
    /// A trained model holds a grown tree and a fitted ridge regressor and
    /// normalizer, all on the 13 temporal features.
    pub open spec fn wf(&self) -> bool {
        &&& self.normalizer.wf()
        &&& self.is_trained ==> {
            &&& match self.tree_model {
                Some(t) => t.wf() && t.root is Some && t.n_features == 13,
                None => false,
            }
            &&& match self.linear_model {
                Some(l) => l.is_trained && l.weights@.len() == 13,
                None => false,
            }
            &&& self.normalizer.is_fitted
            &&& self.normalizer.means@.len() == 13
        }
    }

    pub fn new() -> (r: ForecastingModel)
        ensures
            r.wf(),
            !r.is_trained,
    {
        ForecastingModel {
            tree_model: None,
            linear_model: None,
            normalizer: DataNormalizer::new(),
            is_trained: false,
        }
    }

    /// Train on at least 8 weeks: split 80/20 chronologically, fit the
    /// normalizer on the training prefix, then the tree (depth 10, split 5)
    /// and the ridge regressor (alpha 1) on the normalized prefix. Fails
    /// with `InsufficientData` below 8 weeks and with `SingularMatrix`
    /// exactly when the normal equations degenerate.
    #[verifier::rlimit(100)]
    pub fn train(&mut self, weeks: &Vec<WeekData>, rng: &mut RandomSource) -> (r: Result<
        (),
        MlError,
    >)
        requires
            old(self).wf(),
        ensures
            final(self).wf(),
            weeks@.len() < 8 ==> r == Err::<(), MlError>(MlError::InsufficientData)
                && *final(self) == *old(self),
            weeks@.len() >= 8 ==> {
                let xtr = temporal_matrix(weeks@).subrange(0, train_split(weeks@.len() as int));
                let ytr = hours_of(weeks@).subrange(0, train_split(weeks@.len() as int));
                let xs = transform_spec(xtr, fitted_means(xtr, 13), fitted_stds(xtr, 13));
                match gauss_spec(ridge_aug(xs, ytr, SCALE as int, 13)) {
                    Some(w) => {
                        &&& r == Ok::<(), MlError>(())
                        &&& final(self).is_trained
                        &&& final(self).normalizer.fitted_to(xtr, 13)
                        &&& match final(self).tree_model {
                            Some(t) => {
                                &&& t.max_depth == 10
                                &&& t.min_samples_split == 5
                                &&& match t.root {
                                    Some(root) => crate::tree::values_in(
                                        root,
                                        seq_min(ytr),
                                        seq_max(ytr),
                                    ),
                                    None => false,
                                }
                            },
                            None => false,
                        }
                        &&& match final(self).linear_model {
                            Some(l) => l.alpha == SCALE && ints_of(l.weights@) == w
                                && l.bias as int == crate::ridge::bias_spec(xs, ytr, w, 13),
                            None => false,
                        }
                    },
                    None => r == Err::<(), MlError>(MlError::SingularMatrix),
                }
            },
    {
        if weeks.len() < 8 {
            return Err(MlError::InsufficientData);
        }
        let n = weeks.len();
        let (x, y) = match FeatureEngineer::extract_temporal_features(weeks) {
            Ok(p) => p,
            Err(e) => {
                return Err(e);
            },
        };
        proof {
            assert(x@ =~= temporal_matrix(weeks@));
            assert(ints_of(y@).len() == y@.len());
            assert(hours_of(weeks@).len() == weeks@.len());
            assert(y@.len() == weeks@.len());
        }

        let q = n / 5;
        let rem = n % 5;
        let split = q * 4 + (rem * 4) / 5;
        proof {
            vstd::arithmetic::div_mod::lemma_fundamental_div_mod(n as int, 5);
            assert((n as int) * 4 == (n as int / 5) * 5 * 4 + (n as int % 5) * 4)
                by (nonlinear_arith)
                requires
                    n as int == (n as int / 5) * 5 + n as int % 5,
            ;
            assert(((n as int / 5) * 5 * 4 + (n as int % 5) * 4) / 5 == (n as int / 5) * 4 + ((
            n as int % 5) * 4) / 5) by (nonlinear_arith);
            assert(split as int == train_split(n as int));
            vstd::arithmetic::div_mod::lemma_div_is_ordered(32, 4 * (n as int), 5);
            vstd::arithmetic::div_mod::lemma_div_is_ordered(
                4 * (n as int),
                5 * (n as int),
                5,
            );
            vstd::arithmetic::div_mod::lemma_div_multiples_vanish(n as int, 5);
        }
        let x_train = x.slice_rows(0, split);
        let y_train = sub_vec(&y, 0, split);
        let ghost xtr = temporal_matrix(weeks@).subrange(0, train_split(weeks@.len() as int));
        let ghost ytr = hours_of(weeks@).subrange(0, train_split(weeks@.len() as int));
        proof {
            assert(x_train@ =~= xtr);
            assert(ints_of(y_train@).len() == ytr.len());
            assert forall|k: int| 0 <= k < ints_of(y_train@).len() implies ints_of(
                y_train@,
            )[k] == ytr[k] by {
                assert(y_train@[k] == y@[k]);
                assert(ints_of(y_train@)[k] == y@[k] as int);
                assert(ints_of(y@)[k] == y@[k] as int);
                assert(ytr[k] == hours_of(weeks@)[k]);
            }
            assert(ints_of(y_train@) =~= ytr);
        }

        let xs = match self.normalizer.fit_transform(&x_train) {
            Ok(m) => m,
            Err(e) => {
                return Err(e);
            },
        };
        proof {
            assert(ints_of(self.normalizer.means@) =~= fitted_means(xtr, 13));
            assert(ints_of(self.normalizer.stds@) =~= fitted_stds(xtr, 13));
            assert(xs@ == transform_spec(xtr, fitted_means(xtr, 13), fitted_stds(xtr, 13)));
        }

        let mut tree = DecisionTreeRegressor::new(10, 5);
        match tree.fit(&xs, &y_train, rng) {
            Ok(()) => {},
            Err(e) => {
                return Err(e);
            },
        }
        self.tree_model = Some(tree);

        let mut linear = RidgeRegressor::new(SCALE);
        match linear.fit(&xs, &y_train) {
            Ok(()) => {},
            Err(e) => {
                return Err(e);
            },
        }
        self.linear_model = Some(linear);
        self.is_trained = true;
        Ok(())
    }

    /// Predict the next week. Fails with `NotTrained` before a successful
    /// train. Fewer than 4 weeks of history fall back to the plain average
    /// of the supplied weeks with fixed confidence 0.3; otherwise the last
    /// week's features are standardized with the already-fitted normalizer
    /// and the tree and ridge predictions are blended.
    pub fn predict(&self, weeks: &Vec<WeekData>) -> (r: Result<ForecastingOutput, MlError>)
        requires
            self.wf(),
        ensures
            !self.is_trained ==> r == Err::<ForecastingOutput, MlError>(MlError::NotTrained),
            self.is_trained && weeks@.len() < 4 ==> match r {
                Ok(out) => {
                    let avg = mean_spec(hours_of(weeks@));
                    &&& out.weekly_hours as int == avg
                    &&& out.weekly_hours_by_project@.len() == 0
                    &&& out.monthly_hours as int == fxmul(avg, 4 * SCALE)
                    &&& out.confidence == 300000i64
                    &&& out.trend@ == "stable"@
                },
                Err(_) => false,
            },
            self.is_trained && weeks@.len() >= 4 ==> match r {
                Ok(out) => {
                    let row = scaled_last_row(
                        weeks@,
                        ints_of(self.normalizer.means@),
                        ints_of(self.normalizer.stds@),
                    );
                    let t = tree_pred(self.tree_model->Some_0.root->Some_0, row);
                    let l = ridge_pred_spec(
                        row,
                        ints_of(self.linear_model->Some_0.weights@),
                        self.linear_model->Some_0.bias as int,
                    );
                    let blend = blend_spec(t, l);
                    &&& out.weekly_hours as int == blend
                    &&& out.monthly_hours as int == fxmul(blend, 4 * SCALE)
                    &&& out.confidence as int == confidence_spec(t, l)
                    &&& out.trend@ == trend_str(weeks@)
                    &&& out.weekly_hours_by_project@.map_values(|p: (i32, i64)| (p.0, p.1 as int))
                        == project_share(weeks@, blend)
                },
                Err(_) => false,
            },
    {
        if !self.is_trained {
            return Err(MlError::NotTrained);
        }
        if weeks.len() < 4 {
            let avg: i64 = if weeks.len() == 0 {
                0
            } else {
                let hours = week_hours(weeks);
                crate::numeric::mean_of(&hours)
            };
            return Ok(
                ForecastingOutput {
                    weekly_hours: avg,
                    weekly_hours_by_project: Vec::new(),
                    monthly_hours: fx_mul(avg, 4 * SCALE),
                    confidence: 300000,
                    trend: String::from_str("stable"),
                },
            );
        }
        let n = weeks.len();
        let (x, _y) = match FeatureEngineer::extract_temporal_features(weeks) {
            Ok(p) => p,
            Err(e) => {
                return Err(e);
            },
        };
        let last = x.slice_rows(n - 1, n);
        let xs = match self.normalizer.transform(&last) {
            Ok(m) => m,
            Err(e) => {
                return Err(e);
            },
        };
        let ghost row = scaled_last_row(
            weeks@,
            ints_of(self.normalizer.means@),
            ints_of(self.normalizer.stds@),
        );
        proof {
            assert(xs@[0] =~= row);
        }

        let tree = match &self.tree_model {
            Some(t) => t,
            None => {
                return Err(MlError::NotTrained);
            },
        };
        let linear = match &self.linear_model {
            Some(l) => l,
            None => {
                return Err(MlError::NotTrained);
            },
        };
        let tp = match tree.predict(&xs) {
            Ok(p) => p,
            Err(e) => {
                return Err(e);
            },
        };
        let lp = match linear.predict(&xs) {
            Ok(p) => p,
            Err(e) => {
                return Err(e);
            },
        };
        let t = tp[0];
        let l = lp[0];
        let blend = fx_add(fx_mul(t, 700000), fx_mul(l, 300000));
        let confidence = fx_min(fx_div(SCALE, fx_add(SCALE, fx_abs(fx_sub(t, l)))), SCALE);

        let d = fx_sub(weeks[n - 1].total_hours, weeks[n - 2].total_hours);
        let trend = if d > 2 * SCALE {
            String::from_str("increasing")
        } else if d < -(2 * SCALE) {
            String::from_str("decreasing")
        } else {
            String::from_str("stable")
        };

        let mut by_project: Vec<(i32, i64)> = Vec::new();
        let lw = &weeks[n - 1];
        if lw.total_hours > 0 {
            let mut k: usize = 0;
            while k < lw.project_stats.len()
                invariant
                    0 <= k <= lw.project_stats@.len(),
                    lw == weeks@[n - 1],
                    lw.total_hours > 0,
                    n == weeks@.len(),
                    by_project@.len() == k,
                    forall|u: int|
                        0 <= u < k ==> (#[trigger] by_project@[u]).0
                            == lw.project_stats@[u].project_id && by_project@[u].1 as int
                            == fxmul(
                            blend as int,
                            fxdiv(
                                lw.project_stats@[u].hours as int,
                                lw.total_hours as int,
                            ),
                        ),
                decreases lw.project_stats@.len() - k,
            {
                let s = &lw.project_stats[k];
                let ratio = fx_div(s.hours, lw.total_hours);
                by_project.push((s.project_id, fx_mul(blend, ratio)));
                k = k + 1;
            }
        }
        proof {
            assert(by_project@.map_values(|p: (i32, i64)| (p.0, p.1 as int)) =~= project_share(
                weeks@,
                blend as int,
            ));
        }

        Ok(
            ForecastingOutput {
                weekly_hours: blend,
                weekly_hours_by_project: by_project,
                monthly_hours: fx_mul(blend, 4 * SCALE),
                confidence,
                trend,
            },
        )
    }
}

impl Default for ForecastingModel {
    /// An untrained model.
    fn default() -> (r: ForecastingModel)
        ensures
            r.wf(),
            !r.is_trained,
    {
        ForecastingModel::new()
    }
}

/// The weekly hours of a run of weeks.
fn week_hours(weeks: &Vec<WeekData>) -> (r: Vec<i64>)
    ensures
        r@.len() == weeks@.len(),
        ints_of(r@) == hours_of(weeks@),
{
    let mut r: Vec<i64> = Vec::new();
    let mut i: usize = 0;
    while i < weeks.len()
        invariant
            0 <= i <= weeks@.len(),
            r@.len() == i,
            forall|k: int| 0 <= k < i ==> (#[trigger] r@[k]) == weeks@[k].total_hours,
        decreases weeks@.len() - i,
    {
        r.push(weeks[i].total_hours);
        i = i + 1;
    }
    proof {
        assert(ints_of(r@) =~= hours_of(weeks@));
    }
    r
}

/// Copy of `v[lo..hi]`.
fn sub_vec(v: &Vec<i64>, lo: usize, hi: usize) -> (r: Vec<i64>)
    requires
        lo <= hi <= v@.len(),
    ensures
        r@ == v@.subrange(lo as int, hi as int),
{
    let mut r: Vec<i64> = Vec::new();
    let mut i: usize = lo;
    while i < hi
        invariant
            lo <= i <= hi <= v@.len(),
            r@ =~= v@.subrange(lo as int, i as int),
        decreases hi - i,
    {
        r.push(v[i]);
        proof {
            assert(r@ =~= v@.subrange(lo as int, i + 1));
        }
        i = i + 1;
    }
    r
}

} // verus!
