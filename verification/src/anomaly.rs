//! Anomaly detection over time entries: an isolation forest scores each
//! entry, the scores are min-max normalized and inverted, and entries whose
//! final score exceeds the contamination threshold are reported with a
//! severity, a type and a human-readable reason.

use vstd::prelude::*;

use vstd::string::StringExecFns;

use crate::errors::MlError;
use crate::features::{anomaly_row_spec, FeatureEngineer};
use crate::fixed::{fxdiv, imax, sat_add, sat_sub, SCALE};
use crate::fixed::{fx_add, fx_div, fx_max, fx_sub};
use crate::isolation::{iso_score_spec, IsolationForest};
use crate::numeric::ints_of;
use crate::rng::RandomSource;
use crate::strings::{join_or, join_parts};
use crate::tree::{seq_max, seq_min};
use crate::types::{AnomalyOutput, TimesheetEntry};

verus! {

/// The raw isolation score of every entry.
pub open spec fn raw_scores(
    trees: Seq<crate::isolation::IsoTree>,
    n_trees: int,
    entries: Seq<TimesheetEntry>,
) -> Seq<int> {
    Seq::new(entries.len(), |i: int| iso_score_spec(trees, anomaly_row_spec(entries, i), n_trees))
}

/// Min-max normalized and inverted: `1 - (s - min) / range`, the range
/// floored at one fixed-point unit.
pub open spec fn final_scores(raw: Seq<int>) -> Seq<int> {
    let mn = seq_min(raw);
    let range = imax(sat_sub(seq_max(raw), mn), 1);
    Seq::new(raw.len(), |i: int| sat_sub(SCALE as int, fxdiv(sat_sub(raw[i], mn), range)))
}

/// Indices whose score exceeds the contamination threshold, in order.
pub open spec fn flagged(scores: Seq<int>, c: int) -> Seq<int>
    decreases scores.len(),
{
    if scores.len() == 0 {
        Seq::empty()
    } else {
        let rest = flagged(scores.drop_last(), c);
        if scores.last() > c {
            rest.push(scores.len() - 1)
        } else {
            rest
        }
    }
}

pub proof fn lemma_flagged_range(scores: Seq<int>, c: int)
    ensures
        forall|k: int|
            0 <= k < flagged(scores, c).len() ==> 0 <= #[trigger] flagged(scores, c)[k]
                < scores.len(),
    decreases scores.len(),
{
    if scores.len() > 0 {
        lemma_flagged_range(scores.drop_last(), c);
        let rest = flagged(scores.drop_last(), c);
        assert forall|k: int| 0 <= k < flagged(scores, c).len() implies 0 <= #[trigger] flagged(
            scores,
            c,
        )[k] < scores.len() by {
            if scores.last() > c {
                if k < rest.len() {
                    assert(flagged(scores, c)[k] == rest[k]);
                } else {
                    assert(flagged(scores, c)[k] == scores.len() - 1);
                }
            } else {
                assert(flagged(scores, c)[k] == rest[k]);
            }
        }
    }
}

/// The severity score: the final score plus bonuses for extreme durations
/// and night hours.
pub open spec fn severity_score(e: TimesheetEntry, score: int) -> int {
    let s1 = if e.duration > 600 {
        sat_add(score, 200000)
    } else if e.duration < 5 {
        sat_add(score, 100000)
    } else {
        score
    };
    if e.hour_of_day < 5 || e.hour_of_day > 23 {
        sat_add(s1, 150000)
    } else {
        s1
    }
}

/// The severity bucket as text.
pub open spec fn severity_str(e: TimesheetEntry, score: int) -> Seq<char> {
    let s = severity_score(e, score);
    if s > 800000 {
        "high"@
    } else if s > 500000 {
        "medium"@
    } else {
        "low"@
    }
}

/// The anomaly type as text.
pub open spec fn type_str(e: TimesheetEntry) -> Seq<char> {
    if e.duration > 480 || e.duration < 5 {
        "duration"@
    } else if e.hour_of_day < 6 || e.hour_of_day > 23 {
        "time"@
    } else {
        "pattern"@
    }
}

/// The triggered reason phrases, in reporting order.
pub open spec fn reason_parts(e: TimesheetEntry, score: int) -> Seq<Seq<char>> {
    let p0: Seq<Seq<char>> = Seq::empty();
    let p1 = if e.duration > 480 {
        p0.push("Very long session"@)
    } else if e.duration < 5 {
        p0.push("Very short session"@)
    } else {
        p0
    };
    let p2 = if e.hour_of_day < 6 {
        p1.push("Night-time work"@)
    } else if e.hour_of_day > 23 {
        p1.push("Late-evening work"@)
    } else {
        p1
    };
    if score > 700000 {
        p2.push("Unusual work pattern"@)
    } else {
        p2
    }
}

/// The explanation: the triggered phrases joined by `"; "`, or a generic
/// message when none triggered.
pub open spec fn reason_spec(e: TimesheetEntry, score: int) -> Seq<char> {
    join_or(reason_parts(e, score), "Anomaly detected"@)
}

/// One reported anomaly matches entry `e` at final score `score`.
pub open spec fn anomaly_matches(a: AnomalyOutput, e: TimesheetEntry, score: int) -> bool {
    &&& a.entry_id == e.id
    &&& a.kind@ == type_str(e)
    &&& a.severity@ == severity_str(e, score)
    &&& a.reason@ == reason_spec(e, score)
    &&& a.score as int == score
}

/// The report `v` is exactly what a detector in state `d` reports for
/// `entries`: one classified entry per flagged index, in order.
pub open spec fn report_matches(
    d: AnomalyDetector,
    entries: Seq<TimesheetEntry>,
    v: Seq<AnomalyOutput>,
) -> bool {
    match d.isolation_forest {
        Some(f) => {
            let finals = final_scores(raw_scores(f.trees@, f.n_trees as int, entries));
            let idx = flagged(finals, d.contamination as int);
            &&& v.len() == idx.len()
            &&& forall|k: int|
                0 <= k < idx.len() ==> anomaly_matches(
                    #[trigger] v[k],
                    entries[idx[k]],
                    finals[idx[k]],
                )
        },
        None => false,
    }
}

/// Wraps an isolation forest: trains it on entry features, normalizes its
/// scores and classifies the flagged entries.
pub struct AnomalyDetector {
    pub isolation_forest: Option<IsolationForest>,
    /// The decision threshold, in millionths.
    pub contamination: i64,
    pub is_trained: bool,
}

impl AnomalyDetector {
    /// A trained detector holds a forest grown on the 5 anomaly features.
    pub open spec fn wf(&self) -> bool {
        self.is_trained ==> match self.isolation_forest {
            Some(f) => f.wf(5),
            None => false,
        }
    }

    pub fn new(contamination: i64) -> (r: AnomalyDetector)
        ensures
            r.wf(),
            !r.is_trained,
            r.contamination == contamination,
    {
        AnomalyDetector { isolation_forest: None, contamination, is_trained: false }
    }

    /// Train an isolation forest of 100 trees, depth 10, on 80% subsamples.
    /// Fails exactly when fewer than 20 entries are supplied.
    pub fn train(&mut self, entries: &Vec<TimesheetEntry>, rng: &mut RandomSource) -> (r:
        Result<(), MlError>)
        requires
            old(self).wf(),
        ensures
            final(self).wf(),
            final(self).contamination == old(self).contamination,
            entries@.len() < 20 ==> r == Err::<(), MlError>(MlError::InsufficientData)
                && *final(self) == *old(self),
            entries@.len() >= 20 ==> {
                &&& r == Ok::<(), MlError>(())
                &&& final(self).is_trained
                &&& match final(self).isolation_forest {
                    Some(f) => f.trees@.len() == 100 && f.n_trees == 100 && f.max_depth
                        == 10 && f.max_samples == (entries@.len() * 4) / 5,
                    None => false,
                }
            },
    {
        if entries.len() < 20 {
            return Err(MlError::InsufficientData);
        }
        let features = FeatureEngineer::extract_anomaly_features(entries);
        let max_samples = (entries.len() / 5) * 4 + ((entries.len() % 5) * 4) / 5;
        proof {
            vstd::arithmetic::div_mod::lemma_fundamental_div_mod(entries@.len() as int, 5);
            assert((entries@.len() as int) * 4 == (entries@.len() as int / 5) * 5 * 4 + (
            entries@.len() as int % 5) * 4) by (nonlinear_arith)
                requires
                    entries@.len() as int == (entries@.len() as int / 5) * 5 + entries@.len()
                        as int % 5,
            ;
            assert(((entries@.len() as int / 5) * 5 * 4 + (entries@.len() as int % 5) * 4)
                / 5 == (entries@.len() as int / 5) * 4 + ((entries@.len() as int % 5) * 4)
                / 5) by (nonlinear_arith);
        }
        let mut forest = IsolationForest::new(100, max_samples, 10);
        forest.fit(&features, rng);
        self.isolation_forest = Some(forest);
        self.is_trained = true;
        Ok(())
    }

    /// Score and classify the entries. An empty input yields an empty
    /// report without requiring training; otherwise an untrained detector
    /// fails with `NotTrained`, and a trained one reports exactly the
    /// entries whose inverted, normalized score exceeds the contamination
    /// threshold.
    pub fn detect(&self, entries: &Vec<TimesheetEntry>) -> (r: Result<
        Vec<AnomalyOutput>,
        MlError,
    >)
        requires
            self.wf(),
        ensures
            entries@.len() == 0 ==> match r {
                Ok(v) => v@.len() == 0,
                Err(_) => false,
            },
            entries@.len() > 0 && !self.is_trained ==> r == Err::<
                Vec<AnomalyOutput>,
                MlError,
            >(MlError::NotTrained),
            entries@.len() > 0 && self.is_trained ==> match r {
                Ok(v) => report_matches(*self, entries@, v@),
                Err(_) => false,
            },
    {
        if entries.len() == 0 {
            return Ok(Vec::new());
        }
        if !self.is_trained {
            return Err(MlError::NotTrained);
        }
        let forest = match &self.isolation_forest {
            Some(f) => f,
            None => {
                return Err(MlError::NotTrained);
            },
        };
        let features = FeatureEngineer::extract_anomaly_features(entries);
        let scores = forest.predict(&features);
        let n = entries.len();
        let ghost raw = raw_scores(forest.trees@, forest.n_trees as int, entries@);
        proof {
            assert(ints_of(scores@) =~= raw);
        }

        // Min-max over the raw scores.
        let mut mn = scores[0];
        let mut mx = scores[0];
        let mut i: usize = 1;
        while i < n
            invariant
                1 <= i <= n,
                n == scores@.len(),
                raw == ints_of(scores@),
                mn as int == seq_min(raw.take(i as int)),
                mx as int == seq_max(raw.take(i as int)),
            decreases n - i,
        {
            proof {
                assert(raw.take(i + 1).drop_last() =~= raw.take(i as int));
            }
            let s = scores[i];
            mn = if s < mn {
                s
            } else {
                mn
            };
            mx = if s > mx {
                s
            } else {
                mx
            };
            i = i + 1;
        }
        proof {
            assert(raw.take(n as int) =~= raw);
        }
        let range = fx_max(fx_sub(mx, mn), 1);

        let ghost finals = final_scores(raw);
        let ghost c = self.contamination as int;
        proof {
            lemma_flagged_range(finals, c);
        }
        let mut out: Vec<AnomalyOutput> = Vec::new();
        let mut i: usize = 0;
        while i < n
            invariant
                0 <= i <= n,
                n == entries@.len(),
                n == scores@.len(),
                raw == ints_of(scores@),
                mn as int == seq_min(raw),
                range as int == imax(sat_sub(seq_max(raw), seq_min(raw)), 1),
                range >= 1,
                finals == final_scores(raw),
                c == self.contamination as int,
                out@.len() == flagged(finals.take(i as int), c).len(),
                forall|k: int|
                    0 <= k < flagged(finals.take(i as int), c).len() ==> anomaly_matches(
                        #[trigger] out@[k],
                        entries@[flagged(finals.take(i as int), c)[k]],
                        finals[flagged(finals.take(i as int), c)[k]],
                    ),
            decreases n - i,
        {
            proof {
                assert(finals.take(i + 1).drop_last() =~= finals.take(i as int));
                lemma_flagged_range(finals.take(i + 1), c);
                lemma_flagged_range(finals.take(i as int), c);
            }
            let score = fx_sub(SCALE, fx_div(fx_sub(scores[i], mn), range));
            proof {
                assert(score as int == finals[i as int]);
            }
            if score > self.contamination {
                let e = &entries[i];
                let severity = determine_severity(e, score);
                let kind = classify_anomaly_type(e);
                let reason = generate_reason(e, score);
                out.push(
                    AnomalyOutput {
                        entry_id: e.id,
                        kind,
                        severity,
                        reason,
                        score,
                    },
                );
            }
            i = i + 1;
        }
        proof {
            assert(finals.take(n as int) =~= finals);
        }
        Ok(out)
    }
}

impl Default for AnomalyDetector {
    /// The default contamination threshold is 0.1.
    fn default() -> (r: AnomalyDetector)
        ensures
            r.wf(),
            !r.is_trained,
            r.contamination == 100000i64,
    {
        AnomalyDetector::new(100000)
    }
}

/// The severity bucket: the final score plus duration and night-hour
/// bonuses, thresholded at 0.8 and 0.5.
fn determine_severity(e: &TimesheetEntry, score: i64) -> (r: String)
    ensures
        r@ == severity_str(*e, score as int),
{
    let mut sev = score;
    if e.duration > 600 {
        sev = fx_add(sev, 200000);
    } else if e.duration < 5 {
        sev = fx_add(sev, 100000);
    }
    if e.hour_of_day < 5 || e.hour_of_day > 23 {
        sev = fx_add(sev, 150000);
    }
    if sev > 800000 {
        String::from_str("high")
    } else if sev > 500000 {
        String::from_str("medium")
    } else {
        String::from_str("low")
    }
}

/// The anomaly type: extreme duration, then night hour, then pattern.
fn classify_anomaly_type(e: &TimesheetEntry) -> (r: String)
    ensures
        r@ == type_str(*e),
{
    if e.duration > 480 || e.duration < 5 {
        String::from_str("duration")
    } else if e.hour_of_day < 6 || e.hour_of_day > 23 {
        String::from_str("time")
    } else {
        String::from_str("pattern")
    }
}

/// The human-readable explanation.
fn generate_reason(e: &TimesheetEntry, score: i64) -> (r: String)
    ensures
        r@ == reason_spec(*e, score as int),
{
    let mut parts: Vec<String> = Vec::new();
    if e.duration > 480 {
        parts.push(String::from_str("Very long session"));
    } else if e.duration < 5 {
        parts.push(String::from_str("Very short session"));
    }
    if e.hour_of_day < 6 {
        parts.push(String::from_str("Night-time work"));
    } else if e.hour_of_day > 23 {
        parts.push(String::from_str("Late-evening work"));
    }
    if score > 700000 {
        parts.push(String::from_str("Unusual work pattern"));
    }
    proof {
        assert(parts@.map_values(|p: String| p@) =~= reason_parts(*e, score as int));
    }
    join_parts(&parts, "Anomaly detected")
}

} // verus!
