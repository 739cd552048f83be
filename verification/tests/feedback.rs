use kimai_ml::{LearningModule, PredictionError, SCALE};

fn record(cat: &str, predicted: i64, actual: i64) -> PredictionError {
    PredictionError {
        prediction_type: String::from(cat),
        predicted_value: predicted,
        actual_value: actual,
        error: predicted - actual,
        context: String::new(),
    }
}

#[test]
fn consistent_overestimates_shrink_the_correction_factor() {
    let mut m = LearningModule::new(1000);
    for _ in 0..5 {
        m.record_error(record("forecasting", 110 * SCALE, 100 * SCALE));
    }
    let cf = m.get_correction_factor("forecasting");
    // Mean percentage error is exactly 0.1, below the 0.2 cap.
    assert_eq!(cf, SCALE - 100_000);
    assert!(cf < SCALE);
}

#[test]
fn consistent_underestimates_grow_the_correction_factor() {
    let mut m = LearningModule::new(1000);
    for _ in 0..5 {
        m.record_error(record("forecasting", 90 * SCALE, 100 * SCALE));
    }
    let cf = m.get_correction_factor("forecasting");
    assert_eq!(cf, SCALE + 100_000);
}

#[test]
fn the_adjustment_is_capped_at_twenty_percent() {
    let mut m = LearningModule::new(1000);
    for _ in 0..5 {
        m.record_error(record("forecasting", 200 * SCALE, 100 * SCALE));
    }
    // The raw percentage error is 1.0; the cap keeps the factor at 0.8.
    assert_eq!(m.get_correction_factor("forecasting"), SCALE - 200_000);
}

#[test]
fn zero_net_bias_keeps_the_factor_neutral() {
    let mut m = LearningModule::new(1000);
    m.record_error(record("forecasting", 110 * SCALE, 100 * SCALE));
    m.record_error(record("forecasting", 90 * SCALE, 100 * SCALE));
    m.record_error(record("forecasting", 120 * SCALE, 100 * SCALE));
    m.record_error(record("forecasting", 80 * SCALE, 100 * SCALE));
    m.record_error(record("forecasting", 100 * SCALE, 100 * SCALE));
    assert_eq!(m.get_correction_factor("forecasting"), SCALE);
}

#[test]
fn an_unknown_category_is_left_alone() {
    let mut m = LearningModule::new(1000);
    m.record_error(record("forecasting", 110 * SCALE, 100 * SCALE));
    assert_eq!(m.get_correction_factor("anomaly"), SCALE);
    assert_eq!(m.get_confidence_adjustment("anomaly"), SCALE);
}

#[test]
fn stable_errors_keep_confidence_at_one() {
    let mut m = LearningModule::new(1000);
    for _ in 0..4 {
        m.record_error(record("forecasting", 110 * SCALE, 100 * SCALE));
    }
    assert_eq!(m.get_confidence_adjustment("forecasting"), SCALE);
}

#[test]
fn volatile_errors_shrink_confidence_toward_the_floor() {
    let mut m = LearningModule::new(1000);
    m.record_error(record("forecasting", 101 * SCALE, 100 * SCALE));
    m.record_error(record("forecasting", 200 * SCALE, 100 * SCALE));
    m.record_error(record("forecasting", 100 * SCALE + 1, 100 * SCALE));
    let ca = m.get_confidence_adjustment("forecasting");
    assert!(SCALE / 2 <= ca && ca < SCALE, "adjustment {}", ca);
}

#[test]
fn history_evicts_the_oldest_beyond_the_cap() {
    let mut m = LearningModule::new(3);
    m.record_error(record("old", 110 * SCALE, 100 * SCALE));
    m.record_error(record("keep", 110 * SCALE, 100 * SCALE));
    m.record_error(record("keep", 110 * SCALE, 100 * SCALE));
    m.record_error(record("keep", 110 * SCALE, 100 * SCALE));
    assert_eq!(m.errors.len(), 3);
    // The evicted category no longer influences anything.
    assert_eq!(m.get_correction_factor("old"), SCALE);
    assert!(m.get_correction_factor("keep") < SCALE);
}

#[test]
fn analyze_patterns_reports_mean_absolute_error_per_category() {
    let mut m = LearningModule::new(1000);
    m.record_error(record("a", 110 * SCALE, 100 * SCALE));
    m.record_error(record("b", 130 * SCALE, 100 * SCALE));
    m.record_error(record("a", 90 * SCALE, 100 * SCALE));
    let p = m.analyze_patterns();
    assert_eq!(p.len(), 2);
    assert_eq!(p[0].0, "a");
    assert_eq!(p[0].1, 10 * SCALE);
    assert_eq!(p[1].0, "b");
    assert_eq!(p[1].1, 30 * SCALE);
}

#[test]
fn the_default_history_keeps_a_thousand_records() {
    let m = LearningModule::default();
    assert_eq!(m.max_errors, 1000);
    assert_eq!(m.errors.len(), 0);
}
