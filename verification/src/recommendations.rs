//! A rule-based recommendation generator over precomputed efficiency
//! numbers: per-project efficiency, a coarse size clustering, the average
//! weekly time distribution, and three families of textual recommendations.

use vstd::prelude::*;

use vstd::string::StringExecFns;

use crate::fixed::{fxdiv, fxmul, sat_add, tdiv, SCALE};
use crate::fixed::{fx_add, fx_div, fx_mul};
use crate::numeric::{ints_of, lemma_map_values_push, mean_of, mean_spec, tdiv_i64_by_usize};
use crate::strings::{copy_string, u64_to_string};
use crate::types::{MLInputData, Project, RecommendationOutput, WeekData};

verus! {

/// Per-project efficiency: hourly income, or 0 for a project without
/// recorded hours.
pub open spec fn efficiency_of(p: Project, rate_per_minute: int) -> int {
    if p.total_hours > 0 {
        fxdiv(fxmul(p.total_hours as int, fxmul(rate_per_minute, 60 * SCALE)), p.total_hours as int)
    } else {
        0
    }
}

/// The size cluster of one project: 0 below half the mean total, 2 above
/// one and a half times the mean, 1 between.
pub open spec fn cluster_of(total_hours: int, avg: int) -> int {
    if total_hours < fxmul(avg, 500000) {
        0
    } else if total_hours > fxmul(avg, 1500000) {
        2
    } else {
        1
    }
}

/// The total hours of each project, in project order.
pub open spec fn totals_of(projects: Seq<Project>) -> Seq<int> {
    projects.map_values(|p: Project| p.total_hours as int)
}

/// All `(project_id, hours)` pairs of a run of weeks, in order.
pub open spec fn flat_stats(weeks: Seq<WeekData>) -> Seq<(i32, int)>
    decreases weeks.len(),
{
    if weeks.len() == 0 {
        Seq::empty()
    } else {
        flat_stats(weeks.drop_last()) + weeks.last().project_stats@.map_values(
            |s: crate::types::ProjectStats| (s.project_id, s.hours as int),
        )
    }
}

/// The saturated total of the hours booked on `id`.
pub open spec fn hours_for(pairs: Seq<(i32, int)>, id: i32) -> int
    decreases pairs.len(),
{
    if pairs.len() == 0 {
        0
    } else {
        let rest = hours_for(pairs.drop_last(), id);
        if pairs.last().0 == id {
            sat_add(rest, pairs.last().1)
        } else {
            rest
        }
    }
}

/// The average weekly hours booked on `id`.
pub open spec fn weekly_hours_for(weeks: Seq<WeekData>, id: i32) -> int {
    if weeks.len() == 0 {
        0
    } else {
        tdiv(hours_for(flat_stats(weeks), id), weeks.len() as int)
    }
}

/// The heuristic recommendation generator.
pub struct RecommendationEngine {
}

impl RecommendationEngine {
    pub fn new() -> (r: RecommendationEngine) {
        RecommendationEngine {  }
    }

    /// All recommendations: time allocation, project priority, schedule
    /// optimization, in that order. Every entry carries one of the three
    /// kinds and a confidence in `(0, 1]`.
    pub fn generate_recommendations(&mut self, data: &MLInputData) -> (r: Vec<
        RecommendationOutput,
    >)
        ensures
            forall|k: int|
                0 <= k < r@.len() ==> 0 < (#[trigger] r@[k]).confidence <= SCALE,
            forall|k: int|
                0 <= k < r@.len() ==> ((#[trigger] r@[k]).kind@ == "time_allocation"@
                    || r@[k].kind@ == "project_priority"@ || r@[k].kind@
                    == "schedule_optimization"@),
    {
        let efficiency = self.calculate_project_efficiency(data);
        let _clusters = self.cluster_projects(&data.projects);
        let distribution = self.analyze_time_distribution(&data.weeks);

        let mut out: Vec<RecommendationOutput> = Vec::new();
        let ta = self.recommend_time_allocation(&efficiency, &distribution, data);
        let pp = self.recommend_project_priority(&efficiency, data);
        let so = self.recommend_schedule_optimization(data);
        extend_outputs(&mut out, ta);
        extend_outputs(&mut out, pp);
        extend_outputs(&mut out, so);
        out
    }

    /// Hourly income per project: `total amount / total hours`, 0 without
    /// recorded hours.
    fn calculate_project_efficiency(&self, data: &MLInputData) -> (r: Vec<(i32, i64)>)
        ensures
            r@.len() == data.projects@.len(),
            forall|k: int|
                0 <= k < r@.len() ==> (#[trigger] r@[k]).0
                    == data.projects@[k].id && r@[k].1 as int == efficiency_of(
                    data.projects@[k],
                    data.settings.rate_per_minute as int,
                ),
    {
        let rate_per_hour = fx_mul(data.settings.rate_per_minute, 60 * SCALE);
        let mut r: Vec<(i32, i64)> = Vec::new();
        let mut i: usize = 0;
        while i < data.projects.len()
            invariant
                0 <= i <= data.projects@.len(),
                rate_per_hour as int == fxmul(
                    data.settings.rate_per_minute as int,
                    60 * SCALE,
                ),
                r@.len() == i,
                forall|k: int|
                    0 <= k < i ==> (#[trigger] r@[k]).0 == data.projects@[k].id && r@[k].1
                        as int == efficiency_of(
                        data.projects@[k],
                        data.settings.rate_per_minute as int,
                    ),
            decreases data.projects@.len() - i,
        {
            let p = &data.projects[i];
            let eff: i64 = if p.total_hours > 0 {
                let amount = fx_mul(p.total_hours, rate_per_hour);
                fx_div(amount, p.total_hours)
            } else {
                0
            };
            r.push((p.id, eff));
            i = i + 1;
        }
        r
    }

    /// Size clusters: every project in one cluster when fewer than 3, else
    /// small/medium/large against the mean total hours.
    fn cluster_projects(&mut self, projects: &Vec<Project>) -> (r: Vec<(i32, usize)>)
        ensures
            r@.len() == projects@.len(),
            projects@.len() < 3 ==> forall|k: int|
                0 <= k < r@.len() ==> (#[trigger] r@[k]).1 == 0,
            projects@.len() >= 3 ==> forall|k: int|
                0 <= k < r@.len() ==> (#[trigger] r@[k]).1 as int == cluster_of(
                    projects@[k].total_hours as int,
                    mean_spec(totals_of(projects@)),
                ),
            forall|k: int| 0 <= k < r@.len() ==> (#[trigger] r@[k]).0 == projects@[k].id,
    {
        let mut r: Vec<(i32, usize)> = Vec::new();
        if projects.len() < 3 {
            let mut i: usize = 0;
            while i < projects.len()
                invariant
                    0 <= i <= projects@.len(),
                    r@.len() == i,
                    forall|k: int|
                        0 <= k < i ==> (#[trigger] r@[k]).0 == projects@[k].id && r@[k].1
                            == 0,
                decreases projects@.len() - i,
            {
                r.push((projects[i].id, 0));
                i = i + 1;
            }
            return r;
        }
        let mut totals: Vec<i64> = Vec::new();
        let mut i: usize = 0;
        while i < projects.len()
            invariant
                0 <= i <= projects@.len(),
                totals@.len() == i,
                forall|k: int|
                    0 <= k < i ==> (#[trigger] totals@[k]) == projects@[k].total_hours,
            decreases projects@.len() - i,
        {
            totals.push(projects[i].total_hours);
            i = i + 1;
        }
        proof {
            assert(ints_of(totals@) =~= totals_of(projects@));
        }
        let avg = mean_of(&totals);
        let lo = fx_mul(avg, 500000);
        let hi = fx_mul(avg, 1500000);
        let mut i: usize = 0;
        while i < projects.len()
            invariant
                0 <= i <= projects@.len(),
                lo as int == fxmul(mean_spec(totals_of(projects@)), 500000),
                hi as int == fxmul(mean_spec(totals_of(projects@)), 1500000),
                r@.len() == i,
                forall|k: int|
                    0 <= k < i ==> (#[trigger] r@[k]).0 == projects@[k].id && r@[k].1
                        as int == cluster_of(
                        projects@[k].total_hours as int,
                        mean_spec(totals_of(projects@)),
                    ),
            decreases projects@.len() - i,
        {
            let th = projects[i].total_hours;
            let c: usize = if th < lo {
                0
            } else if th > hi {
                2
            } else {
                1
            };
            r.push((projects[i].id, c));
            i = i + 1;
        }
        r
    }

    /// Average weekly hours per project, projects in first-appearance
    /// order over the weeks' statistics.
    fn analyze_time_distribution(&self, weeks: &Vec<WeekData>) -> (r: Vec<(i32, i64)>)
        ensures
            forall|k: int|
                0 <= k < r@.len() ==> (#[trigger] r@[k]).1 as int == weekly_hours_for(
                    weeks@,
                    r@[k].0,
                ),
    {
        // Flatten the per-week statistics.
        let mut pairs: Vec<(i32, i64)> = Vec::new();
        let mut i: usize = 0;
        while i < weeks.len()
            invariant
                0 <= i <= weeks@.len(),
                pairs@.map_values(|p: (i32, i64)| (p.0, p.1 as int)) == flat_stats(
                    weeks@.take(i as int),
                ),
            decreases weeks@.len() - i,
        {
            proof {
                assert(weeks@.take(i + 1).drop_last() =~= weeks@.take(i as int));
            }
            let w = &weeks[i];
            let mut j: usize = 0;
            while j < w.project_stats.len()
                invariant
                    0 <= j <= w.project_stats@.len(),
                    i < weeks@.len(),
                    w == weeks@[i as int],
                    pairs@.map_values(|p: (i32, i64)| (p.0, p.1 as int)) =~= flat_stats(
                        weeks@.take(i as int),
                    ) + w.project_stats@.map_values(
                        |s: crate::types::ProjectStats| (s.project_id, s.hours as int),
                    ).take(j as int),
                decreases w.project_stats@.len() - j,
            {
                let s = &w.project_stats[j];
                let ghost pairs_old = pairs@;
                pairs.push((s.project_id, s.hours));
                proof {
                    lemma_map_values_push(
                        pairs_old,
                        |p: (i32, i64)| (p.0, p.1 as int),
                        (s.project_id, s.hours),
                    );
                    assert(pairs@.map_values(|p: (i32, i64)| (p.0, p.1 as int))
                        =~= flat_stats(weeks@.take(i as int))
                        + w.project_stats@.map_values(
                        |s: crate::types::ProjectStats| (s.project_id, s.hours as int),
                    ).take(j + 1));
                }
                j = j + 1;
            }
            proof {
                assert(w.project_stats@.map_values(
                    |s: crate::types::ProjectStats| (s.project_id, s.hours as int),
                ).take(w.project_stats@.len() as int) =~= w.project_stats@.map_values(
                    |s: crate::types::ProjectStats| (s.project_id, s.hours as int),
                ));
                assert(pairs@.map_values(|p: (i32, i64)| (p.0, p.1 as int)) =~= flat_stats(
                    weeks@.take(i + 1),
                ));
            }
            i = i + 1;
        }
        proof {
            assert(weeks@.take(weeks@.len() as int) =~= weeks@);
        }
        if weeks.len() == 0 {
            return Vec::new();
        }

        // Group and average.
        let ghost fp = flat_stats(weeks@);
        let mut out: Vec<(i32, i64)> = Vec::new();
        let mut i: usize = 0;
        while i < pairs.len()
            invariant
                0 <= i <= pairs@.len(),
                weeks@.len() > 0,
                fp == pairs@.map_values(|p: (i32, i64)| (p.0, p.1 as int)),
                fp == flat_stats(weeks@),
                forall|k: int|
                    0 <= k < out@.len() ==> (#[trigger] out@[k]).1 as int
                        == weekly_hours_for(weeks@, out@[k].0),
            decreases pairs@.len() - i,
        {
            let id = pairs[i].0;
            let mut seen = false;
            let mut u: usize = 0;
            while u < out.len()
                invariant
                    0 <= u <= out@.len(),
                    seen ==> exists|t: int| 0 <= t < out@.len() && (#[trigger] out@[t]).0 == id,
                decreases out@.len() - u,
            {
                if out[u].0 == id {
                    seen = true;
                }
                u = u + 1;
            }
            if !seen {
                let total = sum_for(&pairs, id);
                proof {
                    assert(total as int == hours_for(fp, id));
                }
                let avg = tdiv_i64_by_usize(total, weeks.len());
                out.push((id, avg));
            }
            i = i + 1;
        }
        out
    }

    /// Time-allocation advice: projects behind their weekly goals first;
    /// with no goals, the most efficient project with recorded time.
    fn recommend_time_allocation(
        &self,
        efficiency: &Vec<(i32, i64)>,
        distribution: &Vec<(i32, i64)>,
        data: &MLInputData,
    ) -> (r: Vec<RecommendationOutput>)
        ensures
            forall|k: int|
                0 <= k < r@.len() ==> (#[trigger] r@[k]).kind@ == "time_allocation"@
                    && r@[k].priority@ == "high"@ && 0 < r@[k].confidence <= SCALE,
    {
        let mut out: Vec<RecommendationOutput> = Vec::new();
        if efficiency.len() < 2 {
            return out;
        }

        // Goals first: one recommendation per project behind its goal.
        let goals: Vec<(i32, i64)> = match &data.settings.user_preferences {
            Some(p) => copy_goals(&p.project_goals),
            None => Vec::new(),
        };
        if goals.len() > 0 {
            let mut g: usize = 0;
            while g < goals.len()
                invariant
                    0 <= g <= goals@.len(),
                    forall|k: int|
                        0 <= k < out@.len() ==> (#[trigger] out@[k]).kind@
                            == "time_allocation"@ && out@[k].priority@ == "high"@ && 0
                            < out@[k].confidence <= SCALE,
                decreases goals@.len() - g,
            {
                let (pid, goal_hours) = goals[g];
                let current = lookup(distribution, pid);
                if current < fx_mul(goal_hours, 900000) {
                    let name = self.get_project_name(data, pid);
                    let mut items: Vec<String> = Vec::new();
                    items.push(name);
                    items.push(
                        String::from_str("Spread the goal hours evenly across working days"),
                    );
                    out.push(
                        RecommendationOutput {
                            kind: String::from_str("time_allocation"),
                            priority: String::from_str("high"),
                            title: String::from_str("Increase time on a project behind its goal"),
                            description: String::from_str(
                                "The project is behind its weekly goal; spread the hours evenly across the week",
                            ),
                            action_items: items,
                            expected_impact: String::from_str(
                                "Reaching the project's weekly goal",
                            ),
                            confidence: 800000,
                        },
                    );
                }
                g = g + 1;
            }
            if out.len() > 0 {
                return out;
            }
        }

        // Otherwise point at the most efficient project with recorded time.
        let mut best: usize = 0;
        let mut b: usize = 1;
        while b < efficiency.len()
            invariant
                1 <= b <= efficiency@.len(),
                best < b,
            decreases efficiency@.len() - b,
        {
            if efficiency[b].1 > efficiency[best].1 {
                best = b;
            }
            b = b + 1;
        }
        let (top_id, top_eff) = efficiency[best];
        if top_eff > 0 {
            let current = lookup(distribution, top_id);
            if current > 0 {
                let name = self.get_project_name(data, top_id);
                let mut items: Vec<String> = Vec::new();
                items.push(name);
                items.push(
                    String::from_str("Shift 15-20% of time from less efficient projects"),
                );
                out.push(
                    RecommendationOutput {
                        kind: String::from_str("time_allocation"),
                        priority: String::from_str("high"),
                        title: String::from_str("Increase time on high-efficiency projects"),
                        description: String::from_str(
                            "The named project shows high efficiency",
                        ),
                        action_items: items,
                        expected_impact: String::from_str(
                            "A potential 10-15% income increase",
                        ),
                        confidence: 750000,
                    },
                );
            }
        }
        out
    }

    /// Priority advice: point at the least efficient project that still has
    /// positive efficiency.
    fn recommend_project_priority(
        &self,
        efficiency: &Vec<(i32, i64)>,
        data: &MLInputData,
    ) -> (r: Vec<RecommendationOutput>)
        ensures
            r@.len() <= 1,
            forall|k: int|
                0 <= k < r@.len() ==> (#[trigger] r@[k]).kind@ == "project_priority"@
                    && r@[k].priority@ == "medium"@ && r@[k].confidence == 600000i64,
    {
        let mut out: Vec<RecommendationOutput> = Vec::new();
        if efficiency.len() < 2 {
            return out;
        }
        // The three lowest efficiencies, by a stable ascending sort.
        let sorted = sort_by_value_asc(efficiency);
        let mut pick: Option<i32> = None;
        let mut i: usize = 0;
        while i < sorted.len() && i < 3
            invariant
                0 <= i <= sorted@.len(),
            decreases sorted@.len() - i,
        {
            if pick.is_none() && sorted[i].1 > 0 {
                pick = Some(sorted[i].0);
            }
            i = i + 1;
        }
        match pick {
            Some(pid) => {
                let name = self.get_project_name(data, pid);
                let mut items: Vec<String> = Vec::new();
                items.push(name);
                items.push(String::from_str("Consider redistributing its time"));
                out.push(
                    RecommendationOutput {
                        kind: String::from_str("project_priority"),
                        priority: String::from_str("medium"),
                        title: String::from_str("Revisit project priorities"),
                        description: String::from_str(
                            "Some projects show low efficiency",
                        ),
                        action_items: items,
                        expected_impact: String::from_str("Better use of time"),
                        confidence: 600000,
                    },
                );
            },
            None => {},
        }
        out
    }

    /// Schedule advice: the three hours of day with the most recorded
    /// minutes.
    fn recommend_schedule_optimization(&self, data: &MLInputData) -> (r: Vec<
        RecommendationOutput,
    >)
        ensures
            r@.len() == if data.timesheets@.len() == 0 {
                0int
            } else {
                1int
            },
            forall|k: int|
                0 <= k < r@.len() ==> (#[trigger] r@[k]).kind@ == "schedule_optimization"@
                    && r@[k].priority@ == "medium"@ && r@[k].confidence == 700000i64,
    {
        let mut out: Vec<RecommendationOutput> = Vec::new();
        if data.timesheets.len() == 0 {
            return out;
        }
        // Total minutes per hour of day.
        let mut hours: Vec<(i32, i64)> = Vec::new();
        let mut i: usize = 0;
        while i < data.timesheets.len()
            invariant
                0 <= i <= data.timesheets@.len(),
            decreases data.timesheets@.len() - i,
        {
            let e = &data.timesheets[i];
            let mut found = false;
            let mut u: usize = 0;
            while u < hours.len()
                invariant
                    0 <= u <= hours@.len(),
                decreases hours@.len() - u,
            {
                if hours[u].0 == e.hour_of_day && !found {
                    let cur = hours[u].1;
                    hours[u] = (e.hour_of_day, fx_add(cur, e.duration as i64));
                    found = true;
                }
                u = u + 1;
            }
            if !found {
                hours.push((e.hour_of_day, e.duration as i64));
            }
            i = i + 1;
        }
        let sorted = sort_by_value_desc(&hours);
        let mut top: Vec<String> = Vec::new();
        let mut t: usize = 0;
        while t < sorted.len() && t < 3
            invariant
                0 <= t <= sorted@.len(),
            decreases sorted@.len() - t,
        {
            let h = sorted[t].0;
            let hv: u64 = if h >= 0 {
                h as u64
            } else {
                0
            };
            top.push(u64_to_string(hv));
            t = t + 1;
        }
        let mut description = String::from_str("Most productive hours of day: ");
        let mut t: usize = 0;
        while t < top.len()
            invariant
                0 <= t <= top@.len(),
            decreases top@.len() - t,
        {
            if t > 0 {
                description.append(", ");
            }
            description.append(top[t].as_str());
            t = t + 1;
        }
        let mut items: Vec<String> = Vec::new();
        items.push(String::from_str("Plan important tasks in the most productive hours"));
        items.push(String::from_str("Use less productive hours for routine tasks"));
        out.push(
            RecommendationOutput {
                kind: String::from_str("schedule_optimization"),
                priority: String::from_str("medium"),
                title: String::from_str("Optimize the working schedule"),
                description,
                action_items: items,
                expected_impact: String::from_str("A 10-15% productivity improvement"),
                confidence: 700000,
            },
        );
        out
    }

    /// The display name of a project, or its id as text when unknown.
    fn get_project_name(&self, data: &MLInputData, project_id: i32) -> (r: String) {
        let mut i: usize = 0;
        while i < data.projects.len()
            invariant
                0 <= i <= data.projects@.len(),
            decreases data.projects@.len() - i,
        {
            if data.projects[i].id == project_id {
                return copy_string(&data.projects[i].name);
            }
            i = i + 1;
        }
        let mut s = String::from_str("Project ");
        let v: u64 = if project_id >= 0 {
            project_id as u64
        } else {
            0
        };
        s.append(u64_to_string(v).as_str());
        s
    }
}

impl Default for RecommendationEngine {
    fn default() -> (r: RecommendationEngine) {
        RecommendationEngine::new()
    }
}

/// The saturated total booked on `id` over the flattened pairs.
fn sum_for(pairs: &Vec<(i32, i64)>, id: i32) -> (r: i64)
    ensures
        r as int == hours_for(pairs@.map_values(|p: (i32, i64)| (p.0, p.1 as int)), id),
{
    let ghost fp = pairs@.map_values(|p: (i32, i64)| (p.0, p.1 as int));
    let mut r: i64 = 0;
    let mut i: usize = 0;
    while i < pairs.len()
        invariant
            0 <= i <= pairs@.len(),
            fp == pairs@.map_values(|p: (i32, i64)| (p.0, p.1 as int)),
            r as int == hours_for(fp.take(i as int), id),
        decreases pairs@.len() - i,
    {
        proof {
            assert(fp.take(i + 1).drop_last() =~= fp.take(i as int));
        }
        if pairs[i].0 == id {
            r = fx_add(r, pairs[i].1);
        }
        i = i + 1;
    }
    proof {
        assert(fp.take(fp.len() as int) =~= fp);
    }
    r
}

/// The recorded average weekly hours for one project id, 0 when absent.
fn lookup(distribution: &Vec<(i32, i64)>, id: i32) -> (r: i64) {
    let mut i: usize = 0;
    while i < distribution.len()
        invariant
            0 <= i <= distribution@.len(),
        decreases distribution@.len() - i,
    {
        if distribution[i].0 == id {
            return distribution[i].1;
        }
        i = i + 1;
    }
    0
}

/// A copy of the per-project goals.
fn copy_goals(goals: &Vec<(i32, i64)>) -> (r: Vec<(i32, i64)>)
    ensures
        r@ == goals@,
{
    let mut r: Vec<(i32, i64)> = Vec::new();
    let mut i: usize = 0;
    while i < goals.len()
        invariant
            0 <= i <= goals@.len(),
            r@ =~= goals@.take(i as int),
        decreases goals@.len() - i,
    {
        r.push(goals[i]);
        proof {
            assert(r@ =~= goals@.take(i + 1));
        }
        i = i + 1;
    }
    proof {
        assert(goals@.take(goals@.len() as int) =~= goals@);
    }
    r
}

/// Stable insertion sort, ascending by the second component.
fn sort_by_value_asc(v: &Vec<(i32, i64)>) -> (r: Vec<(i32, i64)>) {
    let mut r: Vec<(i32, i64)> = Vec::new();
    let mut i: usize = 0;
    while i < v.len()
        invariant
            0 <= i <= v@.len(),
        decreases v@.len() - i,
    {
        let x = v[i];
        let mut pos: usize = r.len();
        let mut j: usize = 0;
        while j < r.len()
            invariant
                0 <= j <= r@.len(),
                pos <= r@.len(),
            decreases r@.len() - j,
        {
            if r[j].1 > x.1 && pos == r.len() && pos > j {
                pos = j;
            }
            j = j + 1;
        }
        let p = if pos <= r.len() {
            pos
        } else {
            r.len()
        };
        r.insert(p, x);
        i = i + 1;
    }
    r
}

/// Stable insertion sort, descending by the second component.
fn sort_by_value_desc(v: &Vec<(i32, i64)>) -> (r: Vec<(i32, i64)>) {
    let mut r: Vec<(i32, i64)> = Vec::new();
    let mut i: usize = 0;
    while i < v.len()
        invariant
            0 <= i <= v@.len(),
        decreases v@.len() - i,
    {
        let x = v[i];
        let mut pos: usize = r.len();
        let mut j: usize = 0;
        while j < r.len()
            invariant
                0 <= j <= r@.len(),
                pos <= r@.len(),
            decreases r@.len() - j,
        {
            if r[j].1 < x.1 && pos == r.len() && pos > j {
                pos = j;
            }
            j = j + 1;
        }
        let p = if pos <= r.len() {
            pos
        } else {
            r.len()
        };
        r.insert(p, x);
        i = i + 1;
    }
    r
}

/// Move every output of `src` onto the end of `dst`.
fn extend_outputs(dst: &mut Vec<RecommendationOutput>, src: Vec<RecommendationOutput>) -> (u:
    ())
    ensures
        final(dst)@ == old(dst)@ + src@,
{
    let mut src = src;
    let ghost orig = src@;
    while src.len() > 0
        invariant
            src@.len() <= orig.len(),
            src@ == orig.skip(orig.len() - src@.len()),
            dst@ == old(dst)@ + orig.take(orig.len() - src@.len()),
        decreases src@.len(),
    {
        let ghost k = orig.len() - src@.len();
        let x = src.remove(0);
        proof {
            assert(src@ =~= orig.skip(k + 1));
        }
        dst.push(x);
        proof {
            assert(dst@ =~= old(dst)@ + orig.take(k + 1));
        }
    }
    proof {
        assert(orig.take(orig.len() as int) =~= orig);
        assert(dst@ =~= old(dst)@ + orig);
    }
}

} // verus!
