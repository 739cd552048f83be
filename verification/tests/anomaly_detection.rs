use kimai_ml::{AnomalyDetector, MlError, RandomSource, TimesheetEntry, SCALE};

fn entry(id: i32, duration: i32, hour: i32) -> TimesheetEntry {
    TimesheetEntry {
        id,
        begin: String::from("2024-01-08T09:00:00+00:00"),
        end: None,
        duration,
        project_id: None,
        project_name: String::from("p"),
        activity_id: None,
        activity_name: String::from("a"),
        description: None,
        tags: vec![],
        day_of_week: 1,
        hour_of_day: hour,
        week_of_year: 2,
        month: 1,
        year: 2024,
    }
}

#[test]
fn the_default_detector_uses_a_tenth_contamination() {
    let d = AnomalyDetector::default();
    assert_eq!(d.contamination, SCALE / 10);
    assert!(!d.is_trained);
}

#[test]
fn empty_detect_on_untrained_detector_is_empty() {
    let d = AnomalyDetector::new(100_000);
    let r = d.detect(&vec![]).unwrap();
    assert_eq!(r.len(), 0);
}

#[test]
fn untrained_detector_rejects_nonempty_input() {
    let d = AnomalyDetector::new(100_000);
    let entries = vec![entry(1, 60, 10)];
    assert!(matches!(d.detect(&entries), Err(MlError::NotTrained)));
}

#[test]
fn training_needs_twenty_entries() {
    let mut d = AnomalyDetector::new(100_000);
    let mut rng = RandomSource::new(3);
    let entries: Vec<TimesheetEntry> = (0..19).map(|i| entry(i, 60, 10)).collect();
    assert_eq!(d.train(&entries, &mut rng), Err(MlError::InsufficientData));
}

#[test]
fn injected_outlier_is_flagged_with_duration_type_and_high_severity() {
    // 20 identical entries plus one long night-time entry. Every sample
    // isolates at the same depth, so all final scores coincide at 1.0 and
    // everything is flagged; the injected entry is classified by its
    // extreme duration, with the night-hour severity bonus.
    let mut entries: Vec<TimesheetEntry> = (0..20).map(|i| entry(i, 60, 10)).collect();
    entries.push(entry(999, 600, 2));
    let mut d = AnomalyDetector::new(100_000);
    let mut rng = RandomSource::new(5);
    d.train(&entries, &mut rng).unwrap();
    let report = d.detect(&entries).unwrap();
    let outlier = report.iter().find(|a| a.entry_id == 999).expect("outlier flagged");
    assert_eq!(outlier.kind, "duration");
    assert_eq!(outlier.severity, "high");
    assert!(outlier.reason.contains("Very long session"));
    assert!(outlier.reason.contains("Night-time work"));
    let normal = report.iter().find(|a| a.entry_id == 0).expect("normal flagged");
    assert_eq!(normal.kind, "pattern");
}

#[test]
fn scores_lie_in_the_unit_interval() {
    let mut entries: Vec<TimesheetEntry> = (0..20).map(|i| entry(i, 30 + i, 10)).collect();
    entries.push(entry(999, 600, 2));
    let mut d = AnomalyDetector::new(100_000);
    let mut rng = RandomSource::new(11);
    d.train(&entries, &mut rng).unwrap();
    let report = d.detect(&entries).unwrap();
    for a in &report {
        assert!(0 <= a.score && a.score <= SCALE);
        assert!(a.severity == "low" || a.severity == "medium" || a.severity == "high");
        assert!(a.kind == "duration" || a.kind == "time" || a.kind == "pattern");
    }
}
