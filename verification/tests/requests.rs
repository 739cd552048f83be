use kimai_ml::{
    default_no_work_hours, default_sleep_end, default_sleep_start, default_work_on_weekends,
    detect_request, learn_request, predict_request, productivity_request, AnomalyDetector,
    FeatureEngineer, ForecastingModel, LearningModule, Matrix, MlError, RandomSource,
    RecommendationEngine, TimesheetEntry, UserPreferences, WeekData, SCALE,
};

fn week(wk: i32, hours: i64) -> WeekData {
    WeekData {
        year: 2024,
        week: wk,
        total_minutes: 0,
        total_hours: hours,
        total_amount: 0,
        project_stats: vec![],
    }
}

fn entry(id: i32, duration: i32, hour: i32, begin: &str, end: Option<&str>) -> TimesheetEntry {
    TimesheetEntry {
        id,
        begin: String::from(begin),
        end: end.map(String::from),
        duration,
        project_id: None,
        project_name: String::from("p"),
        activity_id: None,
        activity_name: String::from("a"),
        description: None,
        tags: vec![],
        day_of_week: 1,
        hour_of_day: hour,
        week_of_year: 2,
        month: 1,
        year: 2024,
    }
}

#[test]
fn few_weeks_predict_request_averages_and_follows_goals() {
    let mut model = ForecastingModel::new();
    let learning = LearningModule::new(1000);
    let mut rng = RandomSource::new(1);
    let weeks = vec![week(1, 10 * SCALE), week(2, 30 * SCALE)];
    let prefs = Some(UserPreferences {
        sleep_start_hour: 0,
        sleep_end_hour: 8,
        no_work_before_sleep_hours: 2,
        work_on_weekends: false,
        project_goals: vec![(1, 30 * SCALE), (2, 10 * SCALE)],
    });
    let out = predict_request(&mut model, &learning, &weeks, &prefs, &mut rng).unwrap();
    assert_eq!(out.weekly_hours, 20 * SCALE);
    assert_eq!(out.monthly_hours, 80 * SCALE);
    assert_eq!(out.confidence, 300_000);
    assert_eq!(out.trend, "stable");
    // Goals split 3:1, so 15 and 5 hours.
    assert_eq!(out.weekly_hours_by_project, vec![(1, 15 * SCALE), (2, 5 * SCALE)]);
}

#[test]
fn predict_request_applies_the_correction_factor() {
    let mut model = ForecastingModel::new();
    let mut learning = LearningModule::new(1000);
    for _ in 0..5 {
        learn_request(&mut learning, "forecasting", 110 * SCALE, 100 * SCALE, String::new());
    }
    let mut rng = RandomSource::new(9);
    let weeks: Vec<WeekData> = (0..10).map(|i| week(i + 1, (10 + i as i64) * SCALE)).collect();
    let out = predict_request(&mut model, &learning, &weeks, &None, &mut rng).unwrap();
    // The plain model prediction for the same trained state.
    let plain = model.predict(&weeks).unwrap();
    // A 10% systematic overestimate scales the forecast by 0.9.
    let expected = ((plain.weekly_hours as i128) * 900_000 / (SCALE as i128)) as i64;
    assert_eq!(out.weekly_hours, expected);
}

#[test]
fn learn_request_returns_both_factors() {
    let mut learning = LearningModule::new(1000);
    let (cf, ca) = learn_request(
        &mut learning,
        "forecasting",
        110 * SCALE,
        100 * SCALE,
        String::from("ctx"),
    );
    assert_eq!(cf, SCALE - 100_000);
    assert_eq!(ca, SCALE);
    assert_eq!(learning.errors.len(), 1);
    assert_eq!(learning.errors[0].error, 10 * SCALE);
    assert_eq!(learning.errors[0].context, "ctx");
}

#[test]
fn detect_request_with_no_entries_reports_nothing() {
    let mut d = AnomalyDetector::new(100_000);
    let mut rng = RandomSource::new(2);
    let r = detect_request(&mut d, &vec![], &mut rng).unwrap();
    assert_eq!(r.len(), 0);
    assert!(!d.is_trained);
}

#[test]
fn detect_request_trains_once_enough_entries_arrive() {
    let mut d = AnomalyDetector::new(100_000);
    let mut rng = RandomSource::new(2);
    let entries: Vec<TimesheetEntry> = (0..25)
        .map(|i| entry(i, 60, 10, "2024-01-08T09:00:00+00:00", None))
        .collect();
    let r = detect_request(&mut d, &entries, &mut rng);
    assert!(d.is_trained);
    assert!(r.is_ok());
}

#[test]
fn productivity_request_rejects_an_empty_list() {
    assert!(matches!(productivity_request(&None, &vec![]), Err(MlError::EmptyInput)));
}

#[test]
fn productivity_request_reports_hourly_efficiency() {
    let entries = vec![entry(1, 30, 10, "2024-01-08T10:00:00+00:00", None)];
    let out = productivity_request(&None, &entries).unwrap();
    assert_eq!(out.efficiency_by_time.len(), 24);
    assert_eq!(out.efficiency_by_time[10].hour, 10);
    // 30 worked minutes in one 60-minute slot.
    assert_eq!(out.efficiency_by_time[10].efficiency, SCALE / 2);
    assert_eq!(out.efficiency_by_time[9].efficiency, 0);
    assert!(!out.optimal_work_hours.days.is_empty());
}

#[test]
fn close_sessions_merge_and_far_ones_split() {
    // Three 40-minute entries: a 20-minute gap merges, an 80-minute gap
    // starts a new session, so the average session is (80 + 40) / 2 = 60
    // minutes and the short-session advice applies.
    let entries = vec![
        entry(
            1,
            40,
            9,
            "2024-01-08T09:00:00+00:00",
            Some("2024-01-08T09:40:00+00:00"),
        ),
        entry(
            2,
            40,
            10,
            "2024-01-08T10:00:00+00:00",
            Some("2024-01-08T10:40:00+00:00"),
        ),
        entry(
            3,
            40,
            12,
            "2024-01-08T12:00:00+00:00",
            Some("2024-01-08T12:40:00+00:00"),
        ),
    ];
    let out = productivity_request(&None, &entries).unwrap();
    assert_eq!(out.break_recommendations.optimal_break_duration, 5);
    assert_eq!(out.break_recommendations.break_frequency, SCALE);
}

#[test]
fn random_draws_respect_their_ranges() {
    let mut rng = RandomSource::new(123);
    for _ in 0..100 {
        assert!(rng.below(10) < 10);
        let v = rng.between(-5 * SCALE, 5 * SCALE);
        assert!(-5 * SCALE <= v && v <= 5 * SCALE);
    }
    assert_eq!(rng.between(7, 7), 7);
}

#[test]
fn recommendations_have_known_kinds_and_confidences() {
    let mut engine = RecommendationEngine::new();
    let data = kimai_ml::MLInputData {
        timesheets: vec![entry(1, 60, 10, "2024-01-08T10:00:00+00:00", None)],
        projects: vec![
            kimai_ml::Project {
                id: 1,
                name: String::from("alpha"),
                total_hours: 100 * SCALE,
                avg_hours_per_week: 10 * SCALE,
                weeks_count: 10,
            },
            kimai_ml::Project {
                id: 2,
                name: String::from("beta"),
                total_hours: 50 * SCALE,
                avg_hours_per_week: 5 * SCALE,
                weeks_count: 10,
            },
        ],
        weeks: vec![WeekData {
            year: 2024,
            week: 1,
            total_minutes: 0,
            total_hours: 15 * SCALE,
            total_amount: 0,
            project_stats: vec![kimai_ml::ProjectStats {
                project_id: 1,
                minutes: 600,
                hours: 10 * SCALE,
            }],
        }],
        settings: kimai_ml::Settings {
            rate_per_minute: SCALE,
            project_settings: vec![],
            user_preferences: None,
        },
        context: None,
    };
    let recs = engine.generate_recommendations(&data);
    assert!(!recs.is_empty());
    for r in &recs {
        assert!(
            r.kind == "time_allocation" || r.kind == "project_priority"
                || r.kind == "schedule_optimization"
        );
        assert!(0 < r.confidence && r.confidence <= SCALE);
    }
}

#[test]
fn temporal_features_use_the_cyclic_tables() {
    let weeks = vec![week(1, 10 * SCALE), week(2, 20 * SCALE), week(3, 30 * SCALE)];
    let (m, y) = FeatureEngineer::extract_temporal_features(&weeks).unwrap();
    assert_eq!(y, vec![10 * SCALE, 20 * SCALE, 30 * SCALE]);
    assert_eq!(m.cols, 13);
    // Row 0: week 1, year 2024, month 1, sin/cos of week 1 and month 1.
    assert_eq!(m.data[0][0], SCALE);
    assert_eq!(m.data[0][1], 2024 * SCALE);
    assert_eq!(m.data[0][2], SCALE);
    assert_eq!(m.data[0][3], 120_537);
    assert_eq!(m.data[0][4], 992_709);
    assert_eq!(m.data[0][5], 500_000);
    assert_eq!(m.data[0][6], 866_025);
    // No history yet: the trailing features are zero.
    for j in 7..13 {
        assert_eq!(m.data[0][j], 0);
    }
    // Row 1 sees the previous week's hours.
    assert_eq!(m.data[1][7], 10 * SCALE);
    assert_eq!(m.data[1][3], 239_316);
}

#[test]
fn empty_weeks_are_insufficient_for_features() {
    assert!(matches!(
        FeatureEngineer::extract_temporal_features(&vec![]),
        Err(MlError::InsufficientData)
    ));
}

#[test]
fn anomaly_features_have_known_values() {
    let entries = vec![TimesheetEntry {
        tags: vec![String::from("x"), String::from("y")],
        day_of_week: 3,
        ..entry(1, 60, 10, "2024-01-08T10:00:00+00:00", None)
    }];
    let m = FeatureEngineer::extract_anomaly_features(&entries);
    assert_eq!(m.cols, 5);
    // 60 / 480 minutes, 10 / 23 hours, 3 / 6 days, own-duration ratio, 2 tags.
    assert_eq!(m.data[0][0], 125_000);
    assert_eq!(m.data[0][1], 434_782);
    assert_eq!(m.data[0][2], 500_000);
    assert_eq!(m.data[0][3], SCALE);
    assert_eq!(m.data[0][4], 2 * SCALE);
}

#[test]
fn serde_defaults_match_the_documented_values() {
    assert_eq!(default_sleep_start(), 0);
    assert_eq!(default_sleep_end(), 8);
    assert_eq!(default_no_work_hours(), 2);
    assert_eq!(default_work_on_weekends(), false);
}

#[test]
fn error_messages_name_each_failure() {
    assert_eq!(MlError::InsufficientData.message(), "insufficient data");
    assert_eq!(MlError::NotTrained.message(), "model not trained");
    assert_eq!(MlError::SingularMatrix.message(), "singular matrix");
    assert_eq!(MlError::EmptyInput.message(), "empty dataset");
    assert_eq!(MlError::NotFitted.message(), "normalizer not fitted");
}
