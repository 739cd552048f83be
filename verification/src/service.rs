//! Request-level orchestration: the decisions each inbound call makes once
//! the transport layer has handed over plain values. Forecasting retrains
//! from the supplied weeks on every call and folds in the learning module's
//! feedback; anomaly detection retrains when enough entries arrive.

use vstd::prelude::*;

use crate::anomaly::{report_matches, AnomalyDetector};
use crate::errors::MlError;
use crate::features::hours_of;
use crate::fixed::{fxdiv, fxmul, sat_add, sat_sub, SCALE};
use crate::fixed::{fx_add, fx_div, fx_mul, fx_sub};
use crate::forecasting::{blend_spec, scaled_last_row, trend_str, ForecastingModel};
use crate::learning::{correction_spec, LearningModule};
use crate::numeric::{ints_of, mean_spec};
use crate::ridge::ridge_pred_spec;
use crate::rng::RandomSource;
use vstd::string::StringExecFns;
use crate::tree::tree_pred;
use crate::types::{
    AnomalyOutput, ForecastingOutput, PredictionError, ProductivityOutput, TimesheetEntry,
    UserPreferences, WeekData,
};

verus! {

/// The saturated total of the per-project weekly goals.
pub open spec fn goals_total(goals: Seq<(i32, i64)>) -> int
    decreases goals.len(),
{
    if goals.len() == 0 {
        0
    } else {
        sat_add(goals_total(goals.drop_last()), goals.last().1 as int)
    }
}

/// The per-project breakdown proportional to each goal's share of the sum
/// of all goals.
pub open spec fn goal_share(goals: Seq<(i32, i64)>, total: int, weekly: int) -> Seq<(
    i32,
    int,
)> {
    goals.map_values(|g: (i32, i64)| (g.0, fxmul(weekly, fxdiv(g.1 as int, total))))
}

/// The goals of the preferences, or none.
pub open spec fn goals_of(prefs: Option<UserPreferences>) -> Seq<(i32, i64)> {
    match prefs {
        Some(p) => p.project_goals@,
        None => Seq::empty(),
    }
}

/// One forecasting request: below 8 weeks a plain average with the goal
/// breakdown; otherwise retrain from the supplied weeks (a failed retrain
/// is ignored), predict, scale by the learning module's correction and
/// confidence factors, and override the breakdown with the goal shares.
pub fn predict_request(
    model: &mut ForecastingModel,
    learning: &LearningModule,
    weeks: &Vec<WeekData>,
    prefs: &Option<UserPreferences>,
    rng: &mut RandomSource,
) -> (r: Result<ForecastingOutput, MlError>)
    requires
        old(model).wf(),
    ensures
        final(model).wf(),
        weeks@.len() < 8 ==> *final(model) == *old(model) && match r {
            Ok(out) => {
                let avg = mean_spec(hours_of(weeks@));
                let gt = goals_total(goals_of(*prefs));
                &&& out.weekly_hours as int == avg
                &&& out.monthly_hours as int == fxmul(avg, 4 * SCALE)
                &&& out.confidence == 300000i64
                &&& out.trend@ == "stable"@
                &&& out.weekly_hours_by_project@.map_values(|p: (i32, i64)| (p.0, p.1 as int))
                    == if gt > 0 {
                    goal_share(goals_of(*prefs), gt, avg)
                } else {
                    Seq::<(i32, int)>::empty()
                }
            },
            Err(_) => false,
        },
        weeks@.len() >= 8 ==> match r {
            Ok(out) => {
                let row = scaled_last_row(
                    weeks@,
                    ints_of(final(model).normalizer.means@),
                    ints_of(final(model).normalizer.stds@),
                );
                let t = tree_pred(final(model).tree_model->Some_0.root->Some_0, row);
                let l = ridge_pred_spec(
                    row,
                    ints_of(final(model).linear_model->Some_0.weights@),
                    final(model).linear_model->Some_0.bias as int,
                );
                let blend = blend_spec(t, l);
                let cf = correction_spec(learning.errors@, "forecasting"@);
                let ca = crate::learning::confidence_spec(learning.errors@, "forecasting"@);
                let weekly = fxmul(blend, cf);
                let gt = goals_total(goals_of(*prefs));
                &&& final(model).is_trained
                &&& out.weekly_hours as int == weekly
                &&& out.monthly_hours as int == fxmul(fxmul(blend, 4 * SCALE), cf)
                &&& out.confidence as int == fxmul(
                    crate::forecasting::confidence_spec(t, l),
                    ca,
                )
                &&& out.trend@ == trend_str(weeks@)
                &&& out.weekly_hours_by_project@.map_values(|p: (i32, i64)| (p.0, p.1 as int))
                    == if gt > 0 {
                    goal_share(goals_of(*prefs), gt, weekly)
                } else {
                    crate::forecasting::project_share(weeks@, blend)
                }
            },
            Err(e) => e == MlError::NotTrained && !final(model).is_trained,
        },
{
    if weeks.len() < 8 {
        let avg: i64 = if weeks.len() == 0 {
            0
        } else {
            let hours = collect_hours(weeks);
            crate::numeric::mean_of(&hours)
        };
        let by_project = goal_breakdown(prefs, avg);
        return Ok(
            ForecastingOutput {
                weekly_hours: avg,
                weekly_hours_by_project: by_project,
                monthly_hours: fx_mul(avg, 4 * SCALE),
                confidence: 300000,
                trend: String::from_str("stable"),
            },
        );
    }

    // Retrain unconditionally; a failure leaves whatever state exists.
    let _ = model.train(weeks, rng);

    let mut out = match model.predict(weeks) {
        Ok(o) => o,
        Err(e) => {
            return Err(e);
        },
    };

    let cf = learning.get_correction_factor("forecasting");
    let ca = learning.get_confidence_adjustment("forecasting");
    out.weekly_hours = fx_mul(out.weekly_hours, cf);
    out.monthly_hours = fx_mul(out.monthly_hours, cf);
    out.confidence = fx_mul(out.confidence, ca);

    let goals_sum = match prefs {
        Some(p) => sum_goals(&p.project_goals),
        None => 0,
    };
    if goals_sum > 0 {
        out.weekly_hours_by_project = goal_breakdown(prefs, out.weekly_hours);
    }
    Ok(out)
}

/// One anomaly-detection request: an empty list yields an empty report
/// untouched; 20 entries or more retrain the detector first; then the
/// detector classifies whatever state it holds.
pub fn detect_request(
    detector: &mut AnomalyDetector,
    entries: &Vec<TimesheetEntry>,
    rng: &mut RandomSource,
) -> (r: Result<Vec<AnomalyOutput>, MlError>)
    requires
        old(detector).wf(),
    ensures
        final(detector).wf(),
        final(detector).contamination == old(detector).contamination,
        entries@.len() == 0 ==> *final(detector) == *old(detector) && match r {
            Ok(v) => v@.len() == 0,
            Err(_) => false,
        },
        0 < entries@.len() < 20 ==> *final(detector) == *old(detector) && (if old(
            detector,
        ).is_trained {
            match r {
                Ok(v) => report_matches(*old(detector), entries@, v@),
                Err(_) => false,
            }
        } else {
            r == Err::<Vec<AnomalyOutput>, MlError>(MlError::NotTrained)
        }),
        entries@.len() >= 20 ==> final(detector).is_trained && match r {
            Ok(v) => report_matches(*final(detector), entries@, v@),
            Err(_) => false,
        },
{
    if entries.len() == 0 {
        return Ok(Vec::new());
    }
    if entries.len() >= 20 {
        let _ = detector.train(entries, rng);
    }
    detector.detect(entries)
}

/// One feedback request: record the `(predicted, actual)` pair and return
/// the category's fresh correction and confidence factors.
pub fn learn_request(
    learning: &mut LearningModule,
    prediction_type: &str,
    predicted_value: i64,
    actual_value: i64,
    context: String,
) -> (r: (i64, i64))
    ensures
        final(learning).max_errors == old(learning).max_errors,
        old(learning).max_errors > 0 ==> final(learning).errors@.len() > 0 && ({
            let e = final(learning).errors@.last();
            &&& e.prediction_type@ == prediction_type@
            &&& e.predicted_value == predicted_value
            &&& e.actual_value == actual_value
            &&& e.error as int == sat_sub(predicted_value as int, actual_value as int)
            &&& e.context@ == context@
        }),
        r.0 as int == correction_spec(final(learning).errors@, prediction_type@),
        r.1 as int == crate::learning::confidence_spec(
            final(learning).errors@,
            prediction_type@,
        ),
{
    let error = fx_sub(predicted_value, actual_value);
    let record = PredictionError {
        prediction_type: String::from_str(prediction_type),
        predicted_value,
        actual_value,
        error,
        context,
    };
    learning.record_error(record);
    let cf = learning.get_correction_factor(prediction_type);
    let ca = learning.get_confidence_adjustment(prediction_type);
    (cf, ca)
}

/// One productivity request: reject an empty entry list, otherwise analyze
/// with the caller's preferences.
pub fn productivity_request(
    preferences: &Option<UserPreferences>,
    entries: &Vec<TimesheetEntry>,
) -> (r: Result<ProductivityOutput, MlError>)
    ensures
        entries@.len() == 0 ==> r == Err::<ProductivityOutput, MlError>(MlError::EmptyInput),
        entries@.len() > 0 ==> match r {
            Ok(out) => {
                &&& out.efficiency_by_time@.len() == 24
                &&& forall|h: int|
                    0 <= h < 24 ==> (#[trigger] out.efficiency_by_time@[h]).hour == h
                        && out.efficiency_by_time@[h].efficiency as int
                        == crate::productivity::hour_eff_spec(entries@, h)
                &&& out.optimal_work_hours.days@.len() > 0
            },
            Err(_) => false,
        },
{
    if entries.len() == 0 {
        return Err(MlError::EmptyInput);
    }
    let prefs_copy = match preferences {
        Some(p) => Some(copy_prefs(p)),
        None => None,
    };
    let analyzer = crate::productivity::ProductivityAnalyzer::with_preferences(prefs_copy);
    Ok(analyzer.analyze(entries))
}

/// A field-for-field copy of the preferences.
fn copy_prefs(p: &UserPreferences) -> (r: UserPreferences)
    ensures
        r.sleep_start_hour == p.sleep_start_hour,
        r.sleep_end_hour == p.sleep_end_hour,
        r.no_work_before_sleep_hours == p.no_work_before_sleep_hours,
        r.work_on_weekends == p.work_on_weekends,
        r.project_goals@ == p.project_goals@,
{
    let mut goals: Vec<(i32, i64)> = Vec::new();
    let mut i: usize = 0;
    while i < p.project_goals.len()
        invariant
            0 <= i <= p.project_goals@.len(),
            goals@ =~= p.project_goals@.take(i as int),
        decreases p.project_goals@.len() - i,
    {
        goals.push(p.project_goals[i]);
        proof {
            assert(goals@ =~= p.project_goals@.take(i + 1));
        }
        i = i + 1;
    }
    proof {
        assert(p.project_goals@.take(p.project_goals@.len() as int) =~= p.project_goals@);
    }
    UserPreferences {
        sleep_start_hour: p.sleep_start_hour,
        sleep_end_hour: p.sleep_end_hour,
        no_work_before_sleep_hours: p.no_work_before_sleep_hours,
        work_on_weekends: p.work_on_weekends,
        project_goals: goals,
    }
}

/// The weekly hours of a run of weeks.
fn collect_hours(weeks: &Vec<WeekData>) -> (r: Vec<i64>)
    ensures
        r@.len() == weeks@.len(),
        ints_of(r@) == hours_of(weeks@),
{
    let mut r: Vec<i64> = Vec::new();
    let mut i: usize = 0;
    while i < weeks.len()
        invariant
            0 <= i <= weeks@.len(),
            r@.len() == i,
            forall|k: int| 0 <= k < i ==> (#[trigger] r@[k]) == weeks@[k].total_hours,
        decreases weeks@.len() - i,
    {
        r.push(weeks[i].total_hours);
        i = i + 1;
    }
    proof {
        assert(ints_of(r@) =~= hours_of(weeks@));
    }
    r
}

/// The saturated goal total.
fn sum_goals(goals: &Vec<(i32, i64)>) -> (r: i64)
    ensures
        r as int == goals_total(goals@),
{
    let mut r: i64 = 0;
    let mut i: usize = 0;
    while i < goals.len()
        invariant
            0 <= i <= goals@.len(),
            r as int == goals_total(goals@.take(i as int)),
        decreases goals@.len() - i,
    {
        proof {
            assert(goals@.take(i + 1).drop_last() =~= goals@.take(i as int));
        }
        r = fx_add(r, goals[i].1);
        i = i + 1;
    }
    proof {
        assert(goals@.take(goals@.len() as int) =~= goals@);
    }
    r
}

/// The goal-proportional breakdown of `weekly`, or none when the goals sum
/// to nothing.
fn goal_breakdown(prefs: &Option<UserPreferences>, weekly: i64) -> (r: Vec<(i32, i64)>)
    ensures
        r@.map_values(|p: (i32, i64)| (p.0, p.1 as int)) == if goals_total(goals_of(*prefs))
            > 0 {
            goal_share(goals_of(*prefs), goals_total(goals_of(*prefs)), weekly as int)
        } else {
            Seq::<(i32, int)>::empty()
        },
{
    let goals = match prefs {
        Some(p) => &p.project_goals,
        None => {
            let empty: Vec<(i32, i64)> = Vec::new();
            proof {
                assert(empty@.map_values(|p: (i32, i64)| (p.0, p.1 as int)) =~= Seq::<(
                    i32,
                    int,
                )>::empty());
            }
            return empty;
        },
    };
    let total = sum_goals(goals);
    let mut r: Vec<(i32, i64)> = Vec::new();
    if total > 0 {
        let ghost gv = goals@;
        let mut i: usize = 0;
        while i < goals.len()
            invariant
                0 <= i <= goals@.len(),
                gv == goals@,
                total as int == goals_total(gv),
                total > 0,
                r@.map_values(|p: (i32, i64)| (p.0, p.1 as int)) =~= goal_share(
                    gv,
                    total as int,
                    weekly as int,
                ).take(i as int),
            decreases goals@.len() - i,
        {
            let (pid, goal) = goals[i];
            let v = fx_mul(weekly, fx_div(goal, total));
            let ghost r_old = r@;
            r.push((pid, v));
            proof {
                crate::numeric::lemma_map_values_push(
                    r_old,
                    |p: (i32, i64)| (p.0, p.1 as int),
                    (pid, v),
                );
                assert(r@.map_values(|p: (i32, i64)| (p.0, p.1 as int)) =~= goal_share(
                    gv,
                    total as int,
                    weekly as int,
                ).take(i + 1));
            }
            i = i + 1;
        }
        proof {
            assert(goal_share(gv, total as int, weekly as int).take(gv.len() as int)
                =~= goal_share(gv, total as int, weekly as int));
        }
    } else {
        proof {
            assert(r@.map_values(|p: (i32, i64)| (p.0, p.1 as int)) =~= Seq::<(
                i32,
                int,
            )>::empty());
        }
    }
    r
}

} // verus!
