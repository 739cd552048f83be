//! Rule-based productivity analysis: hourly and daily efficiency from raw
//! entries, preference-aware optimal working hours, and break
//! recommendations derived from merged work sessions.

use vstd::prelude::*;

use vstd::string::{StrSliceExecFns, StringExecFns};

use crate::fixed::{fxdiv, sat_add, SCALE};
use crate::fixed::{fx_add, fx_div};
use crate::numeric::tdiv_i64_by_usize;
use crate::strings::str_eq;
use crate::types::{
    BreakRecommendations, EfficiencyPoint, OptimalWorkHours, ProductivityOutput,
    TimesheetEntry, UserPreferences,
};

verus! {

/// The epoch second count of an RFC 3339 timestamp, a function of the text
/// alone; `None` for unparsable text.
pub uninterp spec fn rfc3339_secs(s: Seq<char>) -> Option<i64>;

/// Relies on chrono's `DateTime::parse_from_rfc3339` and `timestamp`: both
/// are pure functions of the text, yielding the instant's epoch seconds.
#[verifier::external_body]
fn parse_rfc3339_secs(s: &str) -> (r: Option<i64>)
    ensures
        r == rfc3339_secs(s@),
{
    match chrono::DateTime::parse_from_rfc3339(s) {
        Ok(dt) => Some(dt.timestamp()),
        Err(_) => None,
    }
}

/// Saturated minutes worked and slot minutes available for hour `h`.
pub open spec fn hour_stats(entries: Seq<TimesheetEntry>, h: int) -> (int, int)
    decreases entries.len(),
{
    if entries.len() == 0 {
        (0, 0)
    } else {
        let (w, t) = hour_stats(entries.drop_last(), h);
        if entries.last().hour_of_day == h {
            (sat_add(w, entries.last().duration as int), sat_add(t, 60))
        } else {
            (w, t)
        }
    }
}

/// The efficiency of hour `h`: worked minutes over available minutes, 0
/// for an hour without entries.
pub open spec fn hour_eff_spec(entries: Seq<TimesheetEntry>, h: int) -> int {
    let (w, t) = hour_stats(entries, h);
    if t > 0 {
        fxdiv(w, t)
    } else {
        0
    }
}

/// The rule-based productivity and break analyzer.
pub struct ProductivityAnalyzer {
    pub preferences: Option<UserPreferences>,
}

impl ProductivityAnalyzer {
    pub fn new() -> (r: ProductivityAnalyzer)
        ensures
            r.preferences is None,
    {
        ProductivityAnalyzer { preferences: None }
    }

    pub fn with_preferences(preferences: Option<UserPreferences>) -> (r: ProductivityAnalyzer)
        ensures
            r.preferences == preferences,
    {
        ProductivityAnalyzer { preferences }
    }

    /// The full analysis: 24 hourly efficiency points, optimal working
    /// hours respecting the sleep and weekend preferences, and break
    /// advice.
    pub fn analyze(&self, entries: &Vec<TimesheetEntry>) -> (r: ProductivityOutput)
        ensures
            r.efficiency_by_time@.len() == 24,
            forall|h: int|
                0 <= h < 24 ==> (#[trigger] r.efficiency_by_time@[h]).hour == h
                    && r.efficiency_by_time@[h].efficiency as int == hour_eff_spec(
                    entries@,
                    h,
                ),
            0 <= r.optimal_work_hours.start <= 23,
            0 <= r.optimal_work_hours.end <= 23,
            r.optimal_work_hours.days@.len() > 0,
            r.break_recommendations.optimal_break_duration == 5
                || r.break_recommendations.optimal_break_duration == 10
                || r.break_recommendations.optimal_break_duration == 15,
            entries@.len() == 0 ==> r.break_recommendations.optimal_break_duration == 15
                && r.break_recommendations.break_frequency == 2 * SCALE,
    {
        let hourly = self.analyze_hourly_efficiency(entries);
        let daily = self.analyze_daily_efficiency(entries);
        let optimal = self.find_optimal_hours(&hourly, &daily);
        let breaks = self.analyze_breaks(entries);
        ProductivityOutput {
            optimal_work_hours: optimal,
            efficiency_by_time: hourly,
            break_recommendations: breaks,
        }
    }

    /// One efficiency point per hour of day.
    fn analyze_hourly_efficiency(&self, entries: &Vec<TimesheetEntry>) -> (r: Vec<
        EfficiencyPoint,
    >)
        ensures
            r@.len() == 24,
            forall|h: int|
                0 <= h < 24 ==> (#[trigger] r@[h]).hour == h && r@[h].efficiency as int
                    == hour_eff_spec(entries@, h),
            forall|h: int| 0 <= h < 24 ==> 0 <= (#[trigger] r@[h]).hour <= 23,
    {
        let mut r: Vec<EfficiencyPoint> = Vec::new();
        let mut h: i32 = 0;
        while h < 24
            invariant
                0 <= h <= 24,
                r@.len() == h,
                forall|u: int|
                    0 <= u < h ==> (#[trigger] r@[u]).hour == u && r@[u].efficiency
                        as int == hour_eff_spec(entries@, u),
            decreases 24 - h,
        {
            let mut work: i64 = 0;
            let mut total: i64 = 0;
            let mut i: usize = 0;
            while i < entries.len()
                invariant
                    0 <= i <= entries@.len(),
                    (work as int, total as int) == hour_stats(
                        entries@.take(i as int),
                        h as int,
                    ),
                decreases entries@.len() - i,
            {
                proof {
                    assert(entries@.take(i + 1).drop_last() =~= entries@.take(i as int));
                }
                if entries[i].hour_of_day == h {
                    work = fx_add(work, entries[i].duration as i64);
                    total = fx_add(total, 60);
                }
                i = i + 1;
            }
            proof {
                assert(entries@.take(entries@.len() as int) =~= entries@);
            }
            let eff = if total > 0 {
                fx_div(work, total)
            } else {
                0
            };
            r.push(EfficiencyPoint { hour: h, efficiency: eff });
            h = h + 1;
        }
        r
    }

    /// Average worked hours per day of week, keyed by the day values that
    /// occur, in first-appearance order.
    fn analyze_daily_efficiency(&self, entries: &Vec<TimesheetEntry>) -> (r: Vec<(
        i32,
        i64,
    )>) {
        let mut r: Vec<(i32, i64)> = Vec::new();
        let mut i: usize = 0;
        while i < entries.len()
            invariant
                0 <= i <= entries@.len(),
            decreases entries@.len() - i,
        {
            let day = entries[i].day_of_week;
            let mut seen = false;
            let mut u: usize = 0;
            while u < r.len()
                invariant
                    0 <= u <= r@.len(),
                decreases r@.len() - u,
            {
                if r[u].0 == day {
                    seen = true;
                }
                u = u + 1;
            }
            if !seen {
                // Total minutes and distinct dates for this day of week.
                let mut work: i64 = 0;
                let mut dates: Vec<String> = Vec::new();
                let mut j: usize = 0;
                while j < entries.len()
                    invariant
                        0 <= j <= entries@.len(),
                    decreases entries@.len() - j,
                {
                    if entries[j].day_of_week == day {
                        work = fx_add(work, entries[j].duration as i64);
                        let key = date_key(&entries[j].begin);
                        let mut have = false;
                        let mut d: usize = 0;
                        while d < dates.len()
                            invariant
                                0 <= d <= dates@.len(),
                            decreases dates@.len() - d,
                        {
                            if str_eq(dates[d].as_str(), key.as_str()) {
                                have = true;
                            }
                            d = d + 1;
                        }
                        if !have {
                            dates.push(key);
                        }
                    }
                    j = j + 1;
                }
                let n_days = if dates.len() > 0 {
                    dates.len()
                } else {
                    1
                };
                // Average hours per active day, in millionths.
                let avg = tdiv_i64_by_usize(fx_div(work, 60), n_days);
                r.push((day, avg));
            }
            i = i + 1;
        }
        r
    }

    /// Optimal start and end hours and working days: the most efficient
    /// hours outside the configured sleep window, and the most efficient
    /// days, excluding weekends unless weekend work is enabled.
    fn find_optimal_hours(
        &self,
        hourly_efficiency: &Vec<EfficiencyPoint>,
        daily_efficiency: &Vec<(i32, i64)>,
    ) -> (r: OptimalWorkHours)
        requires
            forall|h: int|
                0 <= h < hourly_efficiency@.len() ==> 0 <= (#[trigger] hourly_efficiency@[h]).hour
                    <= 23,
        ensures
            0 <= r.start <= 23,
            0 <= r.end <= 23,
            r.days@.len() > 0,
            (match self.preferences {
                Some(p) => !p.work_on_weekends,
                None => true,
            }) ==> forall|k: int|
                0 <= k < r.days@.len() ==> (#[trigger] r.days@[k]) != 0 && r.days@[k] != 6,
    {
        let (sleep_start, sleep_end, no_work_before, weekends) = match &self.preferences {
            Some(p) => (
                p.sleep_start_hour,
                p.sleep_end_hour,
                p.no_work_before_sleep_hours,
                p.work_on_weekends,
            ),
            None => (0, 8, 2, false),
        };

        // Hours allowed by the sleep preferences, most efficient first.
        let mut allowed: Vec<EfficiencyPoint> = Vec::new();
        let mut i: usize = 0;
        while i < hourly_efficiency.len()
            invariant
                0 <= i <= hourly_efficiency@.len(),
                forall|h: int|
                    0 <= h < hourly_efficiency@.len() ==> 0 <= (
                    #[trigger] hourly_efficiency@[h]).hour <= 23,
                forall|k: int|
                    0 <= k < allowed@.len() ==> 0 <= (#[trigger] allowed@[k]).hour <= 23,
            decreases hourly_efficiency@.len() - i,
        {
            let e = &hourly_efficiency[i];
            let mut keep = true;
            if e.hour >= sleep_start && e.hour < sleep_end {
                keep = false;
            }
            if keep && sleep_start > 0 {
                let no_work_start = crate::numeric::emod(
                    (sleep_start as i64) - (no_work_before as i64),
                    24,
                ) as i32;
                if no_work_start <= sleep_start {
                    if e.hour >= no_work_start && e.hour < sleep_start {
                        keep = false;
                    }
                } else {
                    if e.hour >= no_work_start || e.hour < sleep_start {
                        keep = false;
                    }
                }
            }
            if keep {
                allowed.push(EfficiencyPoint { hour: e.hour, efficiency: e.efficiency });
            }
            i = i + 1;
        }
        let sorted = sort_points_desc(&allowed);

        // Start and end from the up-to-8 most efficient active hours.
        let mut start: i32 = 24;
        let mut end: i32 = -1;
        let mut t: usize = 0;
        while t < sorted.len() && t < 8
            invariant
                0 <= t <= sorted@.len(),
                forall|k: int|
                    0 <= k < sorted@.len() ==> 0 <= (#[trigger] sorted@[k]).hour <= 23,
                start == 24 && end == -1 || (0 <= start <= 23 && 0 <= end <= 23),
            decreases sorted@.len() - t,
        {
            let e = &sorted[t];
            if e.efficiency > 0 {
                if e.hour < start || start == 24 {
                    start = e.hour;
                }
                if e.hour > end {
                    end = e.hour;
                }
            }
            t = t + 1;
        }
        let (start, end) = if start == 24 || end == -1 {
            (9, 18)
        } else {
            (start, end)
        };

        // The most efficient days, weekends excluded unless enabled.
        let sorted_days = sort_days_desc(daily_efficiency);
        let mut days: Vec<i32> = Vec::new();
        let mut t: usize = 0;
        while t < sorted_days.len()
            invariant
                0 <= t <= sorted_days@.len(),
                days@.len() <= t,
                !weekends ==> forall|k: int|
                    0 <= k < days@.len() ==> (#[trigger] days@[k]) != 0 && days@[k] != 6,
            decreases sorted_days@.len() - t,
        {
            if days.len() < 5 {
                let d = sorted_days[t].0;
                if weekends || (d != 0 && d != 6) {
                    days.push(d);
                }
            }
            t = t + 1;
        }
        if days.len() == 0 {
            if weekends {
                days.push(1);
                days.push(2);
                days.push(3);
                days.push(4);
                days.push(5);
                days.push(6);
                days.push(0);
            } else {
                days.push(1);
                days.push(2);
                days.push(3);
                days.push(4);
                days.push(5);
            }
        }
        OptimalWorkHours { start, end, days }
    }

    /// Break advice from the average merged-session length: 15 minutes
    /// every 2 hours for long sessions, 10 every 1.5 for medium, 5 every
    /// hour for short ones.
    fn analyze_breaks(&self, entries: &Vec<TimesheetEntry>) -> (r: BreakRecommendations)
        ensures
            r.optimal_break_duration == 5 || r.optimal_break_duration == 10
                || r.optimal_break_duration == 15,
            r.break_frequency == SCALE || r.break_frequency == SCALE + SCALE / 2
                || r.break_frequency == 2 * SCALE,
            entries@.len() == 0 ==> r.optimal_break_duration == 15 && r.break_frequency == 2
                * SCALE,
    {
        let sessions = self.extract_sessions(entries);
        if sessions.len() == 0 {
            return BreakRecommendations { optimal_break_duration: 15, break_frequency: 2 * SCALE };
        }
        let mut total: i64 = 0;
        let mut i: usize = 0;
        while i < sessions.len()
            invariant
                0 <= i <= sessions@.len(),
            decreases sessions@.len() - i,
        {
            total = fx_add(total, sessions[i].duration as i64);
            i = i + 1;
        }
        let avg = tdiv_i64_by_usize(total, sessions.len());
        if avg > 120 {
            BreakRecommendations { optimal_break_duration: 15, break_frequency: 2 * SCALE }
        } else if avg > 60 {
            BreakRecommendations {
                optimal_break_duration: 10,
                break_frequency: SCALE + SCALE / 2,
            }
        } else {
            BreakRecommendations { optimal_break_duration: 5, break_frequency: SCALE }
        }
    }

    /// Merge each day's entries, in order of their begin timestamps, into
    /// sessions separated by gaps of at least 30 minutes. Entries with
    /// unparsable timestamps extend the running session.
    fn extract_sessions(&self, entries: &Vec<TimesheetEntry>) -> (r: Vec<Session>)
        ensures
            entries@.len() == 0 ==> r@.len() == 0,
    {
        // Group entry indices by calendar date.
        let mut day_keys: Vec<String> = Vec::new();
        let mut day_groups: Vec<Vec<usize>> = Vec::new();
        let mut i: usize = 0;
        while i < entries.len()
            invariant
                0 <= i <= entries@.len(),
                day_keys@.len() == day_groups@.len(),
                forall|g: int|
                    0 <= g < day_groups@.len() ==> forall|k: int|
                        0 <= k < (#[trigger] day_groups@[g])@.len() ==> (
                        #[trigger] day_groups@[g]@[k]) < entries@.len(),
            decreases entries@.len() - i,
        {
            let key = date_key(&entries[i].begin);
            let mut found: usize = day_keys.len();
            let mut u: usize = 0;
            while u < day_keys.len()
                invariant
                    0 <= u <= day_keys@.len(),
                    found <= day_keys@.len(),
                decreases day_keys@.len() - u,
            {
                if found == day_keys.len() && str_eq(day_keys[u].as_str(), key.as_str()) {
                    found = u;
                }
                u = u + 1;
            }
            if found < day_groups.len() {
                let mut g = day_groups.remove(found);
                g.push(i);
                day_groups.insert(found, g);
            } else {
                day_keys.push(key);
                let mut g: Vec<usize> = Vec::new();
                g.push(i);
                day_groups.push(g);
            }
            i = i + 1;
        }

        let mut sessions: Vec<Session> = Vec::new();
        let mut g: usize = 0;
        while g < day_groups.len()
            invariant
                0 <= g <= day_groups@.len(),
                forall|t: int|
                    0 <= t < day_groups@.len() ==> forall|k: int|
                        0 <= k < (#[trigger] day_groups@[t])@.len() ==> (
                        #[trigger] day_groups@[t]@[k]) < entries@.len(),
                entries@.len() == 0 ==> sessions@.len() == 0,
            decreases day_groups@.len() - g,
        {
            let idxs = sort_by_begin(entries, &day_groups[g]);
            if idxs.len() > 0 {
                let first = &entries[idxs[0]];
                let mut cur = Session {
                    end_text: match &first.end {
                        Some(e) => crate::strings::copy_string(e),
                        None => crate::strings::copy_string(&first.begin),
                    },
                    duration: first.duration,
                };
                let mut k: usize = 1;
                while k < idxs.len()
                    invariant
                        1 <= k <= idxs@.len(),
                        forall|t: int|
                            0 <= t < idxs@.len() ==> (#[trigger] idxs@[t]) < entries@.len(),
                    decreases idxs@.len() - k,
                {
                    let e = &entries[idxs[k]];
                    let gap_small = match (
                        parse_rfc3339_secs(cur.end_text.as_str()),
                        parse_rfc3339_secs(e.begin.as_str()),
                    ) {
                        (Some(cur_end), Some(next_start)) => {
                            let d = crate::fixed::fx_sub(next_start, cur_end);
                            d < 1800
                        },
                        _ => true,
                    };
                    if gap_small {
                        cur = Session {
                            end_text: match &e.end {
                                Some(t) => crate::strings::copy_string(t),
                                None => crate::strings::copy_string(&e.begin),
                            },
                            duration: sat_i32(
                                crate::fixed::fx_add(cur.duration as i64, e.duration as i64),
                            ),
                        };
                    } else {
                        sessions.push(cur);
                        cur = Session {
                            end_text: match &e.end {
                                Some(t) => crate::strings::copy_string(t),
                                None => crate::strings::copy_string(&e.begin),
                            },
                            duration: e.duration,
                        };
                    }
                    k = k + 1;
                }
                sessions.push(cur);
            }
            g = g + 1;
        }
        sessions
    }
}

/// Saturate a 64-bit count of minutes into an `i32`.
fn sat_i32(v: i64) -> (r: i32) {
    if v > i32::MAX as i64 {
        i32::MAX
    } else if v < i32::MIN as i64 {
        i32::MIN
    } else {
        v as i32
    }
}

/// One merged run of work.
struct Session {
    end_text: String,
    /// Minutes.
    duration: i32,
}

/// The calendar-date prefix of a timestamp: everything before the first
/// `'T'`.
fn date_key(s: &String) -> (r: String) {
    let st = s.as_str();
    let n = st.unicode_len();
    let mut i: usize = 0;
    while i < n
        invariant
            0 <= i <= n,
            n == st@.len(),
        decreases n - i,
    {
        if st.get_char(i) == 'T' {
            return String::from_str(st.substring_char(0, i));
        }
        i = i + 1;
    }
    String::from_str(st)
}

/// Lexicographic comparison of two strings: `a <= b`.
fn str_le(a: &str, b: &str) -> (r: bool) {
    let la = a.unicode_len();
    let lb = b.unicode_len();
    let n = if la < lb {
        la
    } else {
        lb
    };
    let mut i: usize = 0;
    while i < n
        invariant
            0 <= i <= n,
            n <= a@.len(),
            n <= b@.len(),
        decreases n - i,
    {
        let ca = a.get_char(i);
        let cb = b.get_char(i);
        if ca < cb {
            return true;
        }
        if ca > cb {
            return false;
        }
        i = i + 1;
    }
    la <= lb
}

/// Stable insertion sort of entry indices by their begin timestamps.
fn sort_by_begin(entries: &Vec<TimesheetEntry>, idxs: &Vec<usize>) -> (r: Vec<usize>)
    requires
        forall|k: int| 0 <= k < idxs@.len() ==> (#[trigger] idxs@[k]) < entries@.len(),
    ensures
        r@.len() == idxs@.len(),
        forall|k: int| 0 <= k < r@.len() ==> (#[trigger] r@[k]) < entries@.len(),
{
    let mut r: Vec<usize> = Vec::new();
    let mut i: usize = 0;
    while i < idxs.len()
        invariant
            0 <= i <= idxs@.len(),
            r@.len() == i,
            forall|k: int| 0 <= k < idxs@.len() ==> (#[trigger] idxs@[k]) < entries@.len(),
            forall|k: int| 0 <= k < r@.len() ==> (#[trigger] r@[k]) < entries@.len(),
        decreases idxs@.len() - i,
    {
        let x = idxs[i];
        let mut pos: usize = r.len();
        let mut j: usize = 0;
        while j < r.len()
            invariant
                0 <= j <= r@.len(),
                pos <= r@.len(),
                x < entries@.len(),
                forall|k: int| 0 <= k < r@.len() ==> (#[trigger] r@[k]) < entries@.len(),
            decreases r@.len() - j,
        {
            if pos == r.len() && !str_le(entries[r[j]].begin.as_str(), entries[x].begin.as_str())
            {
                pos = j;
            }
            j = j + 1;
        }
        r.insert(pos, x);
        i = i + 1;
    }
    r
}

/// Stable insertion sort of efficiency points, descending.
fn sort_points_desc(v: &Vec<EfficiencyPoint>) -> (r: Vec<EfficiencyPoint>)
    requires
        forall|k: int| 0 <= k < v@.len() ==> 0 <= (#[trigger] v@[k]).hour <= 23,
    ensures
        forall|k: int| 0 <= k < r@.len() ==> 0 <= (#[trigger] r@[k]).hour <= 23,
{
    let mut r: Vec<EfficiencyPoint> = Vec::new();
    let mut i: usize = 0;
    while i < v.len()
        invariant
            0 <= i <= v@.len(),
            forall|k: int| 0 <= k < v@.len() ==> 0 <= (#[trigger] v@[k]).hour <= 23,
            forall|k: int| 0 <= k < r@.len() ==> 0 <= (#[trigger] r@[k]).hour <= 23,
        decreases v@.len() - i,
    {
        let x = EfficiencyPoint { hour: v[i].hour, efficiency: v[i].efficiency };
        let mut pos: usize = r.len();
        let mut j: usize = 0;
        while j < r.len()
            invariant
                0 <= j <= r@.len(),
                pos <= r@.len(),
                0 <= x.hour <= 23,
                forall|k: int| 0 <= k < r@.len() ==> 0 <= (#[trigger] r@[k]).hour <= 23,
            decreases r@.len() - j,
        {
            if pos == r.len() && r[j].efficiency < x.efficiency {
                pos = j;
            }
            j = j + 1;
        }
        r.insert(pos, x);
        i = i + 1;
    }
    r
}

/// Stable insertion sort of day averages, descending.
fn sort_days_desc(v: &Vec<(i32, i64)>) -> (r: Vec<(i32, i64)>) {
    let mut r: Vec<(i32, i64)> = Vec::new();
    let mut i: usize = 0;
    while i < v.len()
        invariant
            0 <= i <= v@.len(),
        decreases v@.len() - i,
    {
        let x = v[i];
        let mut pos: usize = r.len();
        let mut j: usize = 0;
        while j < r.len()
            invariant
                0 <= j <= r@.len(),
                pos <= r@.len(),
            decreases r@.len() - j,
        {
            if pos == r.len() && r[j].1 < x.1 {
                pos = j;
            }
            j = j + 1;
        }
        r.insert(pos, x);
        i = i + 1;
    }
    r
}

} // verus!
