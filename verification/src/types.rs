//! Data shapes exchanged with the engine. All real-valued fields are
//! fixed-point `i64` values in millionths (see [`crate::fixed`]).

use vstd::prelude::*;

verus! {

/// One recorded work session, immutable once ingested.
#[derive(Clone, Debug)]
pub struct TimesheetEntry {
    pub id: i32,
    pub begin: String,
    pub end: Option<String>,
    /// Minutes.
    pub duration: i32,
    pub project_id: Option<i32>,
    pub project_name: String,
    pub activity_id: Option<i32>,
    pub activity_name: String,
    pub description: Option<String>,
    pub tags: Vec<String>,
    pub day_of_week: i32,
    pub hour_of_day: i32,
    pub week_of_year: i32,
    pub month: i32,
    pub year: i32,
}

#[derive(Clone, Debug)]
pub struct Project {
    pub id: i32,
    pub name: String,
    /// Hours, in millionths.
    pub total_hours: i64,
    /// Hours, in millionths.
    pub avg_hours_per_week: i64,
    pub weeks_count: i32,
}

#[derive(Clone, Debug)]
pub struct ProjectStats {
    pub project_id: i32,
    pub minutes: i32,
    /// Hours, in millionths.
    pub hours: i64,
}

/// One calendar week's aggregate.
#[derive(Clone, Debug)]
pub struct WeekData {
    pub year: i32,
    pub week: i32,
    pub total_minutes: i32,
    /// Hours, in millionths.
    pub total_hours: i64,
    /// Amount, in millionths.
    pub total_amount: i64,
    pub project_stats: Vec<ProjectStats>,
}

#[derive(Clone, Debug)]
pub struct ProjectSettings {
    pub enabled: bool,
    /// Hours, in millionths.
    pub weekly_goal_hours: Option<i64>,
    pub payment_period_weeks: Option<i32>,
}

#[derive(Clone, Debug)]
pub struct Settings {
    /// Rate, in millionths.
    pub rate_per_minute: i64,
    pub project_settings: Vec<(i32, ProjectSettings)>,
    pub user_preferences: Option<UserPreferences>,
}

#[derive(Clone, Debug)]
pub struct UserPreferences {
    /// 0-23.
    pub sleep_start_hour: i32,
    /// 0-23.
    pub sleep_end_hour: i32,
    /// Hours before sleep kept free of work.
    pub no_work_before_sleep_hours: i32,
    pub work_on_weekends: bool,
    /// Project id to weekly goal hours, in millionths.
    pub project_goals: Vec<(i32, i64)>,
}

pub fn default_sleep_start() -> (r: i32)
    ensures
        r == 0,
{
    0
}

pub fn default_sleep_end() -> (r: i32)
    ensures
        r == 8,
{
    8
}

pub fn default_no_work_hours() -> (r: i32)
    ensures
        r == 2,
{
    2
}

pub fn default_work_on_weekends() -> (r: bool)
    ensures
        r == false,
{
    false
}

#[derive(Clone, Debug)]
pub struct Context {
    pub target_week: Option<i32>,
    pub target_year: Option<i32>,
    pub target_project_id: Option<i32>,
}

#[derive(Clone, Debug)]
pub struct MLInputData {
    pub timesheets: Vec<TimesheetEntry>,
    pub projects: Vec<Project>,
    pub weeks: Vec<WeekData>,
    pub settings: Settings,
    pub context: Option<Context>,
}

#[derive(Clone, Debug)]
pub struct ForecastingOutput {
    /// Hours, in millionths.
    pub weekly_hours: i64,
    /// Project id to hours, in millionths.
    pub weekly_hours_by_project: Vec<(i32, i64)>,
    /// Hours, in millionths.
    pub monthly_hours: i64,
    /// In `[0, 1]`, in millionths.
    pub confidence: i64,
    /// "increasing" | "decreasing" | "stable".
    pub trend: String,
}

#[derive(Clone, Debug)]
pub struct AnomalyOutput {
    pub entry_id: i32,
    /// "duration" | "time" | "pattern".
    pub kind: String,
    /// "low" | "medium" | "high".
    pub severity: String,
    pub reason: String,
    /// In `[0, 1]`, in millionths.
    pub score: i64,
}

#[derive(Clone, Debug)]
pub struct RecommendationOutput {
    /// "time_allocation" | "project_priority" | "schedule_optimization".
    pub kind: String,
    /// "low" | "medium" | "high".
    pub priority: String,
    pub title: String,
    pub description: String,
    pub action_items: Vec<String>,
    pub expected_impact: String,
    /// In `[0, 1]`, in millionths.
    pub confidence: i64,
}

#[derive(Clone, Debug)]
pub struct OptimalWorkHours {
    pub start: i32,
    pub end: i32,
    pub days: Vec<i32>,
}

#[derive(Clone, Debug)]
pub struct BreakRecommendations {
    /// Minutes.
    pub optimal_break_duration: i32,
    /// Breaks per hour span, in millionths.
    pub break_frequency: i64,
}

#[derive(Clone, Debug)]
pub struct EfficiencyPoint {
    pub hour: i32,
    /// In `[0, 1]`, in millionths.
    pub efficiency: i64,
}

#[derive(Clone, Debug)]
pub struct ProductivityOutput {
    pub optimal_work_hours: OptimalWorkHours,
    pub efficiency_by_time: Vec<EfficiencyPoint>,
    pub break_recommendations: BreakRecommendations,
}

#[derive(Clone, Debug)]
pub struct MLOutputData {
    pub forecasting: Option<ForecastingOutput>,
    pub anomalies: Option<Vec<AnomalyOutput>>,
    pub recommendations: Option<Vec<RecommendationOutput>>,
    pub productivity: Option<ProductivityOutput>,
}

/// One feedback record: a prediction, what actually happened, and their
/// signed difference.
#[derive(Clone, Debug)]
pub struct PredictionError {
    pub prediction_type: String,
    /// In millionths.
    pub predicted_value: i64,
    /// In millionths.
    pub actual_value: i64,
    /// `predicted_value - actual_value`, in millionths.
    pub error: i64,
    /// Free-form context, carried through unchanged.
    pub context: String,
}

} // verus!
