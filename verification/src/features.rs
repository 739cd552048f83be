//! Feature engineering: weekly aggregates become a 13-column temporal
//! feature matrix with a parallel target vector, and raw time entries become
//! a 5-column anomaly feature matrix.

use vstd::prelude::*;

use crate::cyclic::{cos12, cos12_spec, cos52, cos52_spec, sin12, sin12_spec, sin52, sin52_spec};
use crate::errors::MlError;
use crate::fixed::{clamp64, fxdiv, imin, sat_sub, tdiv, SCALE};
use crate::fixed::{fx_div, fx_min, fx_sub};
use crate::matrix::Matrix;
use crate::numeric::{
    emod, fx_sqrt, fx_sqrt_spec, ints_of, mean_of, mean_spec, tdiv_i64, variance_of,
    variance_spec,
};
use crate::types::{TimesheetEntry, WeekData};

verus! {

/// The weekly hours, in millionths, of a run of weeks.
pub open spec fn hours_of(weeks: Seq<WeekData>) -> Seq<int> {
    weeks.map_values(|w: WeekData| w.total_hours as int)
}

/// Approximate month of a week number: `(week - 1) / 4 + 1`, truncating.
pub open spec fn month_approx(week: int) -> int {
    tdiv(week - 1, 4) + 1
}

/// Trailing average of the `w` hours before index `i`; 0 without enough
/// history.
pub open spec fn avg_window(h: Seq<int>, i: int, w: int) -> int {
    if i >= w {
        mean_spec(h.subrange(i - w, i))
    } else {
        0
    }
}

/// Simple trend over the 4 weeks before `i`: `(last - first) / 4`.
pub open spec fn trend_stat(h: Seq<int>, i: int) -> int {
    if i >= 4 {
        tdiv(sat_sub(h[i - 1], h[i - 4]), 4)
    } else {
        0
    }
}

/// Standard deviation of the 4 weeks before `i`.
pub open spec fn volatility_stat(h: Seq<int>, i: int) -> int {
    if i >= 4 {
        let seg = h.subrange(i - 4, i);
        fx_sqrt_spec(variance_spec(seg, mean_spec(seg)))
    } else {
        0
    }
}

/// Row `i` of the temporal feature matrix.
pub open spec fn temporal_row_spec(weeks: Seq<WeekData>, i: int) -> Seq<int> {
    let w = weeks[i].week as int;
    let h = hours_of(weeks);
    let m = month_approx(w);
    seq![
        w * (SCALE as int),
        (weeks[i].year as int) * (SCALE as int),
        m * (SCALE as int),
        sin52_spec(w % 52),
        cos52_spec(w % 52),
        sin12_spec(m % 12),
        cos12_spec(m % 12),
        if i > 0 {
            h[i - 1]
        } else {
            0
        },
        avg_window(h, i, 4),
        avg_window(h, i, 8),
        trend_stat(h, i),
        volatility_stat(h, i),
        0int,
    ]
}

pub struct FeatureEngineer;

impl FeatureEngineer {
    /// The 13-column temporal feature matrix and the weekly-hours target
    /// vector. Fails exactly on an empty run of weeks.
    pub fn extract_temporal_features(weeks: &Vec<WeekData>) -> (r: Result<
        (Matrix, Vec<i64>),
        MlError,
    >)
        ensures
            weeks@.len() == 0 ==> r == Err::<(Matrix, Vec<i64>), MlError>(
                MlError::InsufficientData,
            ),
            weeks@.len() > 0 ==> match r {
                Ok((m, y)) => {
                    &&& m.wf()
                    &&& m.cols_spec() == 13
                    &&& m@.len() == weeks@.len()
                    &&& forall|i: int|
                        0 <= i < weeks@.len() ==> m@[i] == temporal_row_spec(weeks@, i)
                    &&& ints_of(y@) == hours_of(weeks@)
                },
                Err(_) => false,
            },
    {
        if weeks.len() == 0 {
            return Err(MlError::InsufficientData);
        }
        let n = weeks.len();

        // Target vector: each week's hours.
        let mut targets: Vec<i64> = Vec::new();
        let mut i: usize = 0;
        while i < n
            invariant
                0 <= i <= n,
                n == weeks@.len(),
                targets@.len() == i,
                forall|k: int| 0 <= k < i ==> (#[trigger] targets@[k]) == weeks@[k].total_hours,
            decreases n - i,
        {
            targets.push(weeks[i].total_hours);
            i = i + 1;
        }
        proof {
            assert(ints_of(targets@) =~= hours_of(weeks@));
        }

        let mut m = Matrix::new(13);
        let mut i: usize = 0;
        while i < n
            invariant
                0 <= i <= n,
                n == weeks@.len(),
                ints_of(targets@) == hours_of(weeks@),
                targets@.len() == n,
                m.wf(),
                m.cols_spec() == 13,
                m@.len() == i,
                forall|k: int| 0 <= k < i ==> m@[k] == temporal_row_spec(weeks@, k),
            decreases n - i,
        {
            let ghost h = hours_of(weeks@);
            let week = weeks[i].week as i64;
            let year = weeks[i].year as i64;
            let month = tdiv_i64(week - 1, 4) + 1;
            let wk = emod(week, 52);
            let mk = emod(month, 12);
            let mut row: Vec<i64> = Vec::new();
            row.push(week * SCALE);
            row.push(year * SCALE);
            row.push(month * SCALE);
            row.push(sin52(wk));
            row.push(cos52(wk));
            row.push(sin12(mk));
            row.push(cos12(mk));
            if i > 0 {
                row.push(targets[i - 1]);
            } else {
                row.push(0);
            }
            if i >= 4 {
                let wnd = window(&targets, i - 4, i);
                proof {
                    assert(ints_of(wnd@) =~= h.subrange(i - 4, i as int));
                }
                row.push(mean_of(&wnd));
            } else {
                row.push(0);
            }
            if i >= 8 {
                let wnd = window(&targets, i - 8, i);
                proof {
                    assert(ints_of(wnd@) =~= h.subrange(i - 8, i as int));
                }
                row.push(mean_of(&wnd));
            } else {
                row.push(0);
            }
            if i >= 4 {
                row.push(tdiv_i64(fx_sub(targets[i - 1], targets[i - 4]), 4));
            } else {
                row.push(0);
            }
            if i >= 4 {
                let wnd = window(&targets, i - 4, i);
                proof {
                    assert(ints_of(wnd@) =~= h.subrange(i - 4, i as int));
                }
                let mu = mean_of(&wnd);
                let v = variance_of(&wnd, mu);
                row.push(fx_sqrt(v));
            } else {
                row.push(0);
            }
            row.push(0);
            proof {
                assert(ints_of(row@) =~= temporal_row_spec(weeks@, i as int));
            }
            m.push_row(row);
            i = i + 1;
        }
        Ok((m, targets))
    }
}

/// Durations, in fixed-point minutes, of the entries booked on project
/// `pid`, in input order.
pub open spec fn durs_for(entries: Seq<TimesheetEntry>, pid: i32) -> Seq<int>
    decreases entries.len(),
{
    if entries.len() == 0 {
        Seq::empty()
    } else {
        let rest = durs_for(entries.drop_last(), pid);
        if entries.last().project_id == Some(pid) {
            rest.push((entries.last().duration as int) * (SCALE as int))
        } else {
            rest
        }
    }
}

/// The duration an entry's ratio feature is measured against: the mean
/// duration of its project, or its own duration without a project.
pub open spec fn ratio_base(entries: Seq<TimesheetEntry>, e: TimesheetEntry) -> int {
    match e.project_id {
        Some(pid) => {
            if durs_for(entries, pid).len() > 0 {
                mean_spec(durs_for(entries, pid))
            } else {
                (e.duration as int) * (SCALE as int)
            }
        },
        None => (e.duration as int) * (SCALE as int),
    }
}

/// Row `i` of the anomaly feature matrix.
pub open spec fn anomaly_row_spec(entries: Seq<TimesheetEntry>, i: int) -> Seq<int> {
    let e = entries[i];
    let d = (e.duration as int) * (SCALE as int);
    let base = ratio_base(entries, e);
    seq![
        imin(tdiv(d, 480), SCALE as int),
        tdiv((e.hour_of_day as int) * (SCALE as int), 23),
        tdiv((e.day_of_week as int) * (SCALE as int), 6),
        if base > 0 {
            imin(fxdiv(d, base), 5 * (SCALE as int))
        } else {
            SCALE as int
        },
        clamp64((e.tags@.len() as int) * (SCALE as int)),
    ]
}

impl FeatureEngineer {
    /// The 5-column anomaly feature matrix: one row per entry, zero rows for
    /// an empty input.
    pub fn extract_anomaly_features(entries: &Vec<TimesheetEntry>) -> (r: Matrix)
        ensures
            r.wf(),
            r.cols_spec() == 5,
            r@.len() == entries@.len(),
            forall|i: int| 0 <= i < entries@.len() ==> r@[i] == anomaly_row_spec(entries@, i),
    {
        let n = entries.len();
        let mut m = Matrix::new(5);
        let mut i: usize = 0;
        while i < n
            invariant
                0 <= i <= n,
                n == entries@.len(),
                m.wf(),
                m.cols_spec() == 5,
                m@.len() == i,
                forall|k: int| 0 <= k < i ==> m@[k] == anomaly_row_spec(entries@, k),
            decreases n - i,
        {
            let d = (entries[i].duration as i64) * SCALE;
            let base: i64 = match entries[i].project_id {
                Some(pid) => {
                    let durs = project_durs(entries, pid);
                    if durs.len() > 0 {
                        mean_of(&durs)
                    } else {
                        d
                    }
                },
                None => d,
            };
            let mut row: Vec<i64> = Vec::new();
            row.push(fx_min(tdiv_i64(d, 480), SCALE));
            row.push(tdiv_i64((entries[i].hour_of_day as i64) * SCALE, 23));
            row.push(tdiv_i64((entries[i].day_of_week as i64) * SCALE, 6));
            if base > 0 {
                row.push(fx_min(fx_div(d, base), 5 * SCALE));
            } else {
                row.push(SCALE);
            }
            let t = entries[i].tags.len();
            if (t as u64) >= 9223372036855u64 {
                row.push(i64::MAX);
            } else {
                row.push((t as i64) * SCALE);
            }
            proof {
                assert(ints_of(row@) =~= anomaly_row_spec(entries@, i as int));
            }
            m.push_row(row);
            i = i + 1;
        }
        m
    }
}

/// The fixed-point durations of all entries on project `pid`.
fn project_durs(entries: &Vec<TimesheetEntry>, pid: i32) -> (r: Vec<i64>)
    ensures
        ints_of(r@) == durs_for(entries@, pid),
{
    let mut r: Vec<i64> = Vec::new();
    let mut j: usize = 0;
    while j < entries.len()
        invariant
            0 <= j <= entries@.len(),
            ints_of(r@) == durs_for(entries@.take(j as int), pid),
        decreases entries@.len() - j,
    {
        let matches = match entries[j].project_id {
            Some(p) => p == pid,
            None => false,
        };
        if matches {
            r.push((entries[j].duration as i64) * SCALE);
        }
        proof {
            assert(entries@.take(j + 1).drop_last() =~= entries@.take(j as int));
            assert(entries@.take(j + 1).last() == entries@[j as int]);
            assert(ints_of(r@) =~= durs_for(entries@.take(j + 1), pid));
        }
        j = j + 1;
    }
    proof {
        assert(entries@.take(entries@.len() as int) =~= entries@);
    }
    r
}

/// Copy of `v[lo..hi]`.
fn window(v: &Vec<i64>, lo: usize, hi: usize) -> (r: Vec<i64>)
    requires
        lo <= hi <= v@.len(),
    ensures
        r@ == v@.subrange(lo as int, hi as int),
{
    let mut r: Vec<i64> = Vec::new();
    let mut i: usize = lo;
    while i < hi
        invariant
            lo <= i <= hi <= v@.len(),
            r@ =~= v@.subrange(lo as int, i as int),
        decreases hi - i,
    {
        r.push(v[i]);
        proof {
            assert(r@ =~= v@.subrange(lo as int, i + 1));
        }
        i = i + 1;
    }
    r
}

} // verus!
