//! The feedback module: a bounded, FIFO-evicted history of prediction
//! errors, a multiplicative correction factor derived from systematic bias,
//! and a confidence scaling derived from error volatility.

use vstd::prelude::*;

use crate::fixed::{clamp64, fxdiv, iabs, imax, imin, sat_add, sat_sub, SCALE};
use crate::fixed::{fx_abs, fx_add, fx_div, fx_max, fx_min, fx_sub};
use crate::numeric::{
    fx_sqrt, fx_sqrt_spec, ints_of, lemma_mean_in_range, lemma_seq_sum_bounds,
    lemma_tdiv_in_range, mean_of, mean_spec, seq_sum, variance_of, variance_spec,
};
use crate::strings::{copy_string, str_eq};
use crate::types::PredictionError;

verus! {

/// The records of one category, in input order.
pub open spec fn matching(errs: Seq<PredictionError>, cat: Seq<char>) -> Seq<
    PredictionError,
>
    decreases errs.len(),
{
    if errs.len() == 0 {
        Seq::empty()
    } else {
        let rest = matching(errs.drop_last(), cat);
        if errs.last().prediction_type@ == cat {
            rest.push(errs.last())
        } else {
            rest
        }
    }
}

/// The signed errors of a run of records.
pub open spec fn errs_of(rel: Seq<PredictionError>) -> Seq<int> {
    rel.map_values(|e: PredictionError| e.error as int)
}

/// The saturated magnitudes of the errors.
pub open spec fn abs_errs(rel: Seq<PredictionError>) -> Seq<int> {
    rel.map_values(|e: PredictionError| clamp64(iabs(e.error as int)))
}

/// The magnitudes of the relative errors of the records with a non-zero
/// actual value, within one category.
pub open spec fn pct_errs(errs: Seq<PredictionError>, cat: Seq<char>) -> Seq<int>
    decreases errs.len(),
{
    if errs.len() == 0 {
        Seq::empty()
    } else {
        let rest = pct_errs(errs.drop_last(), cat);
        let e = errs.last();
        if e.prediction_type@ == cat && e.actual_value != 0 {
            rest.push(clamp64(iabs(fxdiv(e.error as int, e.actual_value as int))))
        } else {
            rest
        }
    }
}

/// The correction factor: `1`, unless the mean signed error is systematic
/// (its magnitude above a tenth of the mean absolute error), in which case
/// the mean percentage error, capped at `0.2`, is taken off (or added, for
/// an underestimating bias).
pub open spec fn correction_spec(errs: Seq<PredictionError>, cat: Seq<char>) -> int {
    let rel = matching(errs, cat);
    if rel.len() == 0 {
        SCALE as int
    } else {
        let avg = mean_spec(abs_errs(rel));
        let mpe = mean_spec(pct_errs(errs, cat));
        let bias = mean_spec(errs_of(rel));
        if clamp64(iabs(bias)) * 10 > avg {
            let m = imin(mpe, 200000);
            if bias < 0 {
                sat_add(SCALE as int, m)
            } else {
                sat_sub(SCALE as int, m)
            }
        } else {
            SCALE as int
        }
    }
}

/// The confidence adjustment: `1` for an empty or zero-error history, else
/// `1 / (1 + coefficient of variation)` clamped into `[0.5, 1]`.
pub open spec fn confidence_spec(errs: Seq<PredictionError>, cat: Seq<char>) -> int {
    let rel = matching(errs, cat);
    if rel.len() == 0 {
        SCALE as int
    } else {
        let avg = mean_spec(abs_errs(rel));
        let std = fx_sqrt_spec(variance_spec(abs_errs(rel), avg));
        if avg > 0 {
            imin(imax(fxdiv(SCALE as int, sat_add(SCALE as int, fxdiv(std, avg))), 500000), SCALE as int)
        } else {
            SCALE as int
        }
    }
}

/// The distinct categories of a history, in first-appearance order.
pub open spec fn distinct_types(errs: Seq<PredictionError>) -> Seq<Seq<char>>
    decreases errs.len(),
{
    if errs.len() == 0 {
        Seq::empty()
    } else {
        let rest = distinct_types(errs.drop_last());
        if rest.contains(errs.last().prediction_type@) {
            rest
        } else {
            rest.push(errs.last().prediction_type@)
        }
    }
}

/// One step of the `matching` and `pct_errs` recursions, phrased over a
/// growing prefix.
proof fn lemma_filter_step(errs: Seq<PredictionError>, cat: Seq<char>, i: int)
    requires
        0 <= i < errs.len(),
    ensures
        matching(errs.take(i + 1), cat) == if errs[i].prediction_type@ == cat {
            matching(errs.take(i), cat).push(errs[i])
        } else {
            matching(errs.take(i), cat)
        },
        pct_errs(errs.take(i + 1), cat) == if errs[i].prediction_type@ == cat
            && errs[i].actual_value != 0 {
            pct_errs(errs.take(i), cat).push(
                clamp64(iabs(fxdiv(errs[i].error as int, errs[i].actual_value as int))),
            )
        } else {
            pct_errs(errs.take(i), cat)
        },
{
    assert(errs.take(i + 1).drop_last() =~= errs.take(i));
    assert(errs.take(i + 1).last() == errs[i]);
}

/// Mapping a pushed sequence pushes the mapped value.
proof fn lemma_map_push<A, B>(s: Seq<A>, f: spec_fn(A) -> B, e: A)
    ensures
        s.push(e).map_values(f) == s.map_values(f).push(f(e)),
{
    assert(s.push(e).map_values(f) =~= s.map_values(f).push(f(e)));
}

/// A bounded, insertion-ordered, FIFO-evicted history of prediction errors.
pub struct LearningModule {
    pub errors: Vec<PredictionError>,
    pub max_errors: usize,
}

impl LearningModule {
    pub fn new(max_errors: usize) -> (r: LearningModule)
        ensures
            r.errors@.len() == 0,
            r.max_errors == max_errors,
    {
        LearningModule { errors: Vec::new(), max_errors }
    }

    /// Append one record; evict the oldest when the cap is exceeded.
    pub fn record_error(&mut self, error: PredictionError)
        ensures
            final(self).max_errors == old(self).max_errors,
            old(self).errors@.len() + 1 > old(self).max_errors ==> final(self).errors@
                == old(self).errors@.push(error).subrange(
                1,
                old(self).errors@.len() as int + 1,
            ),
            old(self).errors@.len() + 1 <= old(self).max_errors ==> final(self).errors@
                == old(self).errors@.push(error),
    {
        self.errors.push(error);
        if self.errors.len() > self.max_errors {
            self.errors.remove(0);
            proof {
                assert(self.errors@ =~= old(self).errors@.push(error).subrange(
                    1,
                    old(self).errors@.len() as int + 1,
                ));
            }
        }
    }

    /// The multiplicative correction factor for one category.
    pub fn get_correction_factor(&self, prediction_type: &str) -> (r: i64)
        ensures
            r as int == correction_spec(self.errors@, prediction_type@),
    {
        let ghost cat = prediction_type@;
        let mut signed: Vec<i64> = Vec::new();
        let mut absv: Vec<i64> = Vec::new();
        let mut pctv: Vec<i64> = Vec::new();
        let mut i: usize = 0;
        while i < self.errors.len()
            invariant
                0 <= i <= self.errors@.len(),
                cat == prediction_type@,
                ints_of(signed@) == errs_of(matching(self.errors@.take(i as int), cat)),
                ints_of(absv@) == abs_errs(matching(self.errors@.take(i as int), cat)),
                ints_of(pctv@) == pct_errs(self.errors@.take(i as int), cat),
            decreases self.errors@.len() - i,
        {
            proof {
                assert(self.errors@.take(i + 1).drop_last() =~= self.errors@.take(i as int));
                assert(self.errors@.take(i + 1).last() == self.errors@[i as int]);
            }
            let e = &self.errors[i];
            if str_eq(e.prediction_type.as_str(), prediction_type) {
                signed.push(e.error);
                absv.push(fx_abs(e.error));
                if e.actual_value != 0 {
                    pctv.push(fx_abs(fx_div(e.error, e.actual_value)));
                }
            }
            proof {
                lemma_filter_step(self.errors@, cat, i as int);
                let rel0 = matching(self.errors@.take(i as int), cat);
                let el = self.errors@[i as int];
                if el.prediction_type@ == cat {
                    lemma_map_push(rel0, |e: PredictionError| e.error as int, el);
                    lemma_map_push(
                        rel0,
                        |e: PredictionError| clamp64(iabs(e.error as int)),
                        el,
                    );
                }
                let rel1 = matching(self.errors@.take(i + 1), cat);
                assert(ints_of(signed@) =~= errs_of(rel1));
                assert(ints_of(absv@) =~= abs_errs(rel1));
                assert(ints_of(pctv@) =~= pct_errs(self.errors@.take(i + 1), cat));
            }
            i = i + 1;
        }
        proof {
            assert(self.errors@.take(self.errors@.len() as int) =~= self.errors@);
        }
        if signed.len() == 0 {
            return SCALE;
        }
        let avg = mean_of(&absv);
        let mpe = if pctv.len() > 0 {
            mean_of(&pctv)
        } else {
            0
        };
        let bias = mean_of(&signed);
        if (fx_abs(bias) as i128) * 10 > avg as i128 {
            let m = fx_min(mpe, 200000);
            if bias < 0 {
                fx_add(SCALE, m)
            } else {
                fx_sub(SCALE, m)
            }
        } else {
            SCALE
        }
    }

    /// The confidence scaling factor for one category.
    pub fn get_confidence_adjustment(&self, prediction_type: &str) -> (r: i64)
        ensures
            r as int == confidence_spec(self.errors@, prediction_type@),
    {
        let ghost cat = prediction_type@;
        let mut absv: Vec<i64> = Vec::new();
        let mut i: usize = 0;
        while i < self.errors.len()
            invariant
                0 <= i <= self.errors@.len(),
                cat == prediction_type@,
                ints_of(absv@) == abs_errs(matching(self.errors@.take(i as int), cat)),
            decreases self.errors@.len() - i,
        {
            proof {
                assert(self.errors@.take(i + 1).drop_last() =~= self.errors@.take(i as int));
                assert(self.errors@.take(i + 1).last() == self.errors@[i as int]);
            }
            let e = &self.errors[i];
            if str_eq(e.prediction_type.as_str(), prediction_type) {
                absv.push(fx_abs(e.error));
            }
            proof {
                lemma_filter_step(self.errors@, cat, i as int);
                let rel0 = matching(self.errors@.take(i as int), cat);
                let el = self.errors@[i as int];
                if el.prediction_type@ == cat {
                    lemma_map_push(
                        rel0,
                        |e: PredictionError| clamp64(iabs(e.error as int)),
                        el,
                    );
                }
                assert(ints_of(absv@) =~= abs_errs(
                    matching(self.errors@.take(i + 1), cat),
                ));
            }
            i = i + 1;
        }
        proof {
            assert(self.errors@.take(self.errors@.len() as int) =~= self.errors@);
        }
        if absv.len() == 0 {
            return SCALE;
        }
        let avg = mean_of(&absv);
        let v = variance_of(&absv, avg);
        let std = fx_sqrt(v);
        if avg > 0 {
            fx_min(fx_max(fx_div(SCALE, fx_add(SCALE, fx_div(std, avg))), 500000), SCALE)
        } else {
            SCALE
        }
    }

    /// The mean absolute error of each category seen so far, in
    /// first-appearance order.
    pub fn analyze_patterns(&self) -> (r: Vec<(String, i64)>)
        ensures
            r@.len() == distinct_types(self.errors@).len(),
            forall|k: int|
                0 <= k < r@.len() ==> (#[trigger] r@[k]).0@ == distinct_types(
                    self.errors@,
                )[k],
            forall|k: int|
                0 <= k < r@.len() ==> (#[trigger] r@[k]).1 as int == mean_spec(
                    abs_errs(matching(self.errors@, distinct_types(self.errors@)[k])),
                ),
    {
        let ghost types = distinct_types(self.errors@);
        // Collect the distinct categories.
        let mut cats: Vec<String> = Vec::new();
        let mut i: usize = 0;
        while i < self.errors.len()
            invariant
                0 <= i <= self.errors@.len(),
                cats@.map_values(|c: String| c@) == distinct_types(
                    self.errors@.take(i as int),
                ),
            decreases self.errors@.len() - i,
        {
            proof {
                assert(self.errors@.take(i + 1).drop_last() =~= self.errors@.take(i as int));
                assert(self.errors@.take(i + 1).last() == self.errors@[i as int]);
            }
            let e = &self.errors[i];
            let mut seen = false;
            let mut j: usize = 0;
            while j < cats.len()
                invariant
                    0 <= j <= cats@.len(),
                    i < self.errors@.len(),
                    seen == exists|u: int|
                        0 <= u < j && (#[trigger] cats@[u])@ == self.errors@[i as int].prediction_type@,
                decreases cats@.len() - j,
            {
                if str_eq(cats[j].as_str(), e.prediction_type.as_str()) {
                    seen = true;
                }
                j = j + 1;
            }
            proof {
                let views = cats@.map_values(|c: String| c@);
                let pt = self.errors@[i as int].prediction_type@;
                if seen {
                    let u = choose|u: int|
                        0 <= u < cats@.len() && (#[trigger] cats@[u])@ == pt;
                    assert(views[u] == pt);
                    assert(views.contains(pt));
                } else if views.contains(pt) {
                    let u = choose|u: int| 0 <= u < views.len() && views[u] == pt;
                    assert((cats@[u])@ == pt);
                    assert(false);
                }
                assert(seen == views.contains(pt));
            }
            if !seen {
                cats.push(copy_string(&e.prediction_type));
                proof {
                    assert(cats@.map_values(|c: String| c@) =~= distinct_types(
                        self.errors@.take(i + 1),
                    ));
                }
            } else {
                proof {
                    assert(cats@.map_values(|c: String| c@) =~= distinct_types(
                        self.errors@.take(i + 1),
                    ));
                }
            }
            i = i + 1;
        }
        proof {
            assert(self.errors@.take(self.errors@.len() as int) =~= self.errors@);
        }

        // One mean absolute error per category.
        let mut out: Vec<(String, i64)> = Vec::new();
        let mut k: usize = 0;
        while k < cats.len()
            invariant
                0 <= k <= cats@.len(),
                cats@.map_values(|c: String| c@) == types,
                types == distinct_types(self.errors@),
                out@.len() == k,
                forall|u: int| 0 <= u < k ==> (#[trigger] out@[u]).0@ == types[u],
                forall|u: int|
                    0 <= u < k ==> (#[trigger] out@[u]).1 as int == mean_spec(
                        abs_errs(matching(self.errors@, types[u])),
                    ),
            decreases cats@.len() - k,
        {
            let cat = &cats[k];
            let ghost catv = cats@[k as int]@;
            let mut absv: Vec<i64> = Vec::new();
            let mut i: usize = 0;
            while i < self.errors.len()
                invariant
                    0 <= i <= self.errors@.len(),
                    k < cats@.len(),
                    catv == cats@[k as int]@,
                    ints_of(absv@) == abs_errs(
                        matching(self.errors@.take(i as int), catv),
                    ),
                decreases self.errors@.len() - i,
            {
                proof {
                    assert(self.errors@.take(i + 1).drop_last() =~= self.errors@.take(
                        i as int,
                    ));
                    assert(self.errors@.take(i + 1).last() == self.errors@[i as int]);
                }
                let e = &self.errors[i];
                if str_eq(e.prediction_type.as_str(), cat.as_str()) {
                    absv.push(fx_abs(e.error));
                }
                proof {
                    lemma_filter_step(self.errors@, catv, i as int);
                    let rel0 = matching(self.errors@.take(i as int), catv);
                    let el = self.errors@[i as int];
                    if el.prediction_type@ == catv {
                        lemma_map_push(
                            rel0,
                            |e: PredictionError| clamp64(iabs(e.error as int)),
                            el,
                        );
                    }
                    assert(ints_of(absv@) =~= abs_errs(
                        matching(self.errors@.take(i + 1), catv),
                    ));
                }
                i = i + 1;
            }
            proof {
                assert(self.errors@.take(self.errors@.len() as int) =~= self.errors@);
            }
            let avg = if absv.len() > 0 {
                mean_of(&absv)
            } else {
                0
            };
            out.push((copy_string(cat), avg));
            k = k + 1;
        }
        out
    }
}

impl Default for LearningModule {
    /// The default history keeps the last 1000 records.
    fn default() -> (r: LearningModule)
        ensures
            r.errors@.len() == 0,
            r.max_errors == 1000,
    {
        LearningModule::new(1000)
    }
}

/// Law: a category whose recorded signed errors cancel exactly gets the
/// neutral correction factor `1`: with no net bias, nothing is corrected.
pub proof fn lemma_correction_neutral_without_bias(
    errs: Seq<PredictionError>,
    cat: Seq<char>,
)
    requires
        matching(errs, cat).len() > 0,
        seq_sum(errs_of(matching(errs, cat))) == 0,
    ensures
        correction_spec(errs, cat) == SCALE as int,
{
    let rel = matching(errs, cat);
    assert(mean_spec(errs_of(rel)) == 0) by {
        assert(errs_of(rel).len() == rel.len());
        assert(crate::fixed::tdiv(0, rel.len() as int) == 0);
    }
    assert forall|i: int| 0 <= i < abs_errs(rel).len() implies 0 <= #[trigger] abs_errs(
        rel,
    )[i] <= i64::MAX as int by {
        assert(abs_errs(rel)[i] == clamp64(iabs(rel[i].error as int)));
    }
    lemma_mean_in_range(abs_errs(rel), 0, i64::MAX as int);
}

/// When every matching record has a non-zero actual value, the percentage
/// errors are exactly the relative-error magnitudes of the matching
/// records.
proof fn lemma_pct_is_map(errs: Seq<PredictionError>, cat: Seq<char>)
    requires
        forall|i: int|
            0 <= i < matching(errs, cat).len() ==> (#[trigger] matching(
                errs,
                cat,
            )[i]).actual_value != 0,
    ensures
        pct_errs(errs, cat) == matching(errs, cat).map_values(
            |e: PredictionError| clamp64(iabs(fxdiv(e.error as int, e.actual_value as int))),
        ),
    decreases errs.len(),
{
    let f = |e: PredictionError| clamp64(iabs(fxdiv(e.error as int, e.actual_value as int)));
    if errs.len() == 0 {
        assert(pct_errs(errs, cat) =~= matching(errs, cat).map_values(f));
    } else {
        let rel = matching(errs, cat);
        let relp = matching(errs.drop_last(), cat);
        assert forall|i: int| 0 <= i < relp.len() implies (#[trigger] relp[i]).actual_value
            != 0 by {
            if errs.last().prediction_type@ == cat {
                assert(relp[i] == rel[i]);
            } else {
                assert(relp[i] == rel[i]);
            }
        }
        lemma_pct_is_map(errs.drop_last(), cat);
        if errs.last().prediction_type@ == cat {
            assert(rel[rel.len() - 1] == errs.last());
            assert(errs.last().actual_value != 0);
            assert(pct_errs(errs, cat) =~= rel.map_values(f));
        } else {
            assert(pct_errs(errs, cat) =~= rel.map_values(f));
        }
    }
}

/// Law: a category whose recorded errors all overestimate (each error
/// positive, and at least one fixed-point unit relative to its positive
/// actual value) gets a correction factor strictly below `1`.
pub proof fn lemma_correction_shrinks_on_overestimate(
    errs: Seq<PredictionError>,
    cat: Seq<char>,
)
    requires
        matching(errs, cat).len() > 0,
        forall|i: int|
            0 <= i < matching(errs, cat).len() ==> (#[trigger] matching(errs, cat)[i]).error
                > 0,
        forall|i: int|
            0 <= i < matching(errs, cat).len() ==> (#[trigger] matching(errs, cat)[i]).actual_value
                > 0,
        forall|i: int|
            0 <= i < matching(errs, cat).len() ==> (#[trigger] matching(
                errs,
                cat,
            )[i]).error * SCALE >= matching(errs, cat)[i].actual_value,
    ensures
        correction_spec(errs, cat) < SCALE as int,
{
    let rel = matching(errs, cat);
    let n = rel.len() as int;
    lemma_pct_is_map(errs, cat);

    // Signed and absolute errors coincide: all errors are positive.
    assert(errs_of(rel) =~= abs_errs(rel));

    // The mean signed error is at least one unit.
    assert forall|i: int| 0 <= i < errs_of(rel).len() implies 1 <= #[trigger] errs_of(
        rel,
    )[i] <= i64::MAX as int by {
        assert(errs_of(rel)[i] == rel[i].error as int);
    }
    lemma_seq_sum_bounds(errs_of(rel), 1, i64::MAX as int);
    lemma_tdiv_in_range(seq_sum(errs_of(rel)), n, 1, i64::MAX as int);
    let bias = mean_spec(errs_of(rel));
    assert(bias >= 1);

    // The bias condition holds: |bias| * 10 > avg since avg == bias >= 1.
    let avg = mean_spec(abs_errs(rel));
    assert(avg == bias);
    assert(clamp64(iabs(bias)) == bias);

    // Every percentage error is at least one unit, so their mean is too.
    assert forall|i: int| 0 <= i < pct_errs(errs, cat).len() implies 1 <= #[trigger] pct_errs(
        errs,
        cat,
    )[i] <= i64::MAX as int by {
        let e = rel[i];
        assert(pct_errs(errs, cat)[i] == clamp64(
            iabs(fxdiv(e.error as int, e.actual_value as int)),
        ));
        let q = crate::fixed::tdiv(e.error as int * (SCALE as int), e.actual_value as int);
        assert(e.error as int * (SCALE as int) >= e.actual_value as int);
        assert((e.actual_value as int) * 1 <= e.error as int * (SCALE as int));
        assert(e.error as int * (SCALE as int) <= (e.actual_value as int) * (e.error as int
            * (SCALE as int))) by (nonlinear_arith)
            requires
                e.actual_value as int >= 1,
                e.error as int * (SCALE as int) >= 1,
        ;
        lemma_tdiv_in_range(
            e.error as int * (SCALE as int),
            e.actual_value as int,
            1,
            e.error as int * (SCALE as int),
        );
        assert(q >= 1);
    }
    assert(pct_errs(errs, cat).len() == n);
    lemma_seq_sum_bounds(pct_errs(errs, cat), 1, i64::MAX as int);
    lemma_tdiv_in_range(seq_sum(pct_errs(errs, cat)), n, 1, i64::MAX as int);
    let mpe = mean_spec(pct_errs(errs, cat));
    assert(mpe >= 1);
    assert(imin(mpe, 200000) >= 1);
}

} // verus!
