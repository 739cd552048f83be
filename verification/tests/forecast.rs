use kimai_ml::{ForecastingModel, MlError, ProjectStats, RandomSource, WeekData, SCALE};

fn week(year: i32, wk: i32, hours: i64) -> WeekData {
    WeekData {
        year,
        week: wk,
        total_minutes: ((hours / SCALE) * 60) as i32,
        total_hours: hours,
        total_amount: 0,
        project_stats: vec![],
    }
}

fn training_weeks() -> Vec<WeekData> {
    (0..10).map(|i| week(2024, i + 1, (10 + i as i64) * SCALE)).collect()
}

#[test]
fn training_needs_eight_weeks() {
    let mut m = ForecastingModel::new();
    let mut rng = RandomSource::new(1);
    let weeks: Vec<WeekData> = (0..7).map(|i| week(2024, i + 1, 10 * SCALE)).collect();
    assert_eq!(m.train(&weeks, &mut rng), Err(MlError::InsufficientData));
}

#[test]
fn predict_before_training_is_not_trained() {
    let m = ForecastingModel::new();
    assert!(matches!(m.predict(&training_weeks()), Err(MlError::NotTrained)));
}

#[test]
fn three_weeks_fall_back_to_the_plain_average() {
    let mut m = ForecastingModel::new();
    let mut rng = RandomSource::new(2);
    m.train(&training_weeks(), &mut rng).unwrap();
    let few = vec![week(2024, 1, 10 * SCALE), week(2024, 2, 20 * SCALE), week(2024, 3, 30 * SCALE)];
    let out = m.predict(&few).unwrap();
    assert_eq!(out.weekly_hours, 20 * SCALE);
    assert_eq!(out.monthly_hours, 80 * SCALE);
    assert_eq!(out.confidence, 300_000);
    assert_eq!(out.trend, "stable");
    assert!(out.weekly_hours_by_project.is_empty());
}

#[test]
fn full_prediction_blends_and_reports_the_trend() {
    let mut m = ForecastingModel::new();
    let mut rng = RandomSource::new(3);
    let weeks = training_weeks();
    m.train(&weeks, &mut rng).unwrap();
    let out = m.predict(&weeks).unwrap();
    // Hours grow by 1 per week: within the 2-hour band, the trend is stable.
    assert_eq!(out.trend, "stable");
    assert!(0 <= out.confidence && out.confidence <= SCALE);
    // The monthly figure is four weekly figures.
    assert_eq!(out.monthly_hours, out.weekly_hours.saturating_mul(4));
}

#[test]
fn a_steep_jump_reports_an_increasing_trend() {
    let mut m = ForecastingModel::new();
    let mut rng = RandomSource::new(4);
    let mut weeks = training_weeks();
    weeks.push(week(2024, 11, 40 * SCALE));
    m.train(&weeks, &mut rng).unwrap();
    let out = m.predict(&weeks).unwrap();
    assert_eq!(out.trend, "increasing");
}

#[test]
fn the_breakdown_follows_the_last_week_shares() {
    let mut m = ForecastingModel::new();
    let mut rng = RandomSource::new(5);
    let mut weeks = training_weeks();
    let last = weeks.len() - 1;
    weeks[last].project_stats = vec![
        ProjectStats { project_id: 1, minutes: 0, hours: weeks[last].total_hours / 2 },
        ProjectStats { project_id: 2, minutes: 0, hours: weeks[last].total_hours / 2 },
    ];
    m.train(&weeks, &mut rng).unwrap();
    let out = m.predict(&weeks).unwrap();
    assert_eq!(out.weekly_hours_by_project.len(), 2);
    assert_eq!(out.weekly_hours_by_project[0].0, 1);
    assert_eq!(out.weekly_hours_by_project[1].0, 2);
    // Each project gets half of the blended total, up to truncation.
    let half = out.weekly_hours / 2;
    assert!((out.weekly_hours_by_project[0].1 - half).abs() <= 2);
}
