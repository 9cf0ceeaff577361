//! End-to-end scenarios over the drivers, in thousandths of a gigawatt.
use windstats::analysis::{
    always_meets_demand, analyze_windows, find_required_backup, find_required_overbuild,
    find_required_storage, percent_of, scale_to_demand,
};
use windstats::ConfigError;

fn hour_labels(n: usize) -> Vec<String> {
    let mut dates = Vec::new();
    for i in 0..n {
        dates.push(format!("h{}", i));
    }
    dates
}

#[test]
fn scaling_rejects_empty_series() {
    let outputs: Vec<i64> = Vec::new();
    assert!(matches!(
        scale_to_demand(&outputs, 30_000),
        Err(ConfigError::EmptySeries)
    ));
}

#[test]
fn scaling_rejects_series_with_no_output() {
    let outputs: Vec<i64> = vec![0, 0, 0];
    assert!(matches!(
        scale_to_demand(&outputs, 30_000),
        Err(ConfigError::ValueOutOfRange)
    ));
}

#[test]
fn scaling_matches_average_to_demand() {
    // average 30 GW, demand 15 GW: every sample is halved
    let outputs: Vec<i64> = vec![20_000, 40_000, 30_000, 30_000];
    let scaled = scale_to_demand(&outputs, 15_000).unwrap();
    assert_eq!(scaled, vec![10_000, 20_000, 15_000, 15_000]);
}

#[test]
fn constant_output_meeting_demand_needs_no_overbuild_margin() {
    // constant 30 GW for 200 hours, demand 29.96 GW, no storage
    let outputs: Vec<i64> = vec![30_000; 200];
    let scaled = scale_to_demand(&outputs, 29_960).unwrap();
    assert_eq!(scaled[0], 29_960);

    // the feasibility boundary sits at a factor of exactly 1.0
    let ob = find_required_overbuild(0, &scaled, 29_960, 1);
    assert!((999..=1001).contains(&ob));

    // at a factor of 1.0 no backup at all is needed
    let dates = hour_labels(200);
    let backup = find_required_backup(0, &scaled, &dates, 29_960, 1_000);
    assert_eq!(backup, 0);
}

#[test]
fn alternating_output_with_no_storage_needs_full_backup() {
    // 0 GW and 60 GW alternating for 240 hours, demand 30 GW, no storage
    let mut outputs: Vec<i64> = Vec::new();
    for i in 0..240 {
        outputs.push(if i % 2 == 0 { 0 } else { 60_000 });
    }
    let dates = hour_labels(240);

    // every zero-output hour draws the whole demand unbuffered
    let backup = find_required_backup(0, &outputs, &dates, 30_000, 1_000);
    assert_eq!(backup, 30_000);

    // doubling generation cannot help a storage-free system through the
    // hours with no output at all
    let backup2 = find_required_backup(0, &outputs, &dates, 30_000, 2_000);
    assert_eq!(backup2, 30_000);

    // the worst hour is the very first zero-output hour
    assert!(!always_meets_demand(0, &outputs, 30_000, 1_000));
}

#[test]
fn alternating_output_needs_one_hour_of_storage() {
    let mut outputs: Vec<i64> = Vec::new();
    for i in 0..240 {
        outputs.push(if i % 2 == 0 { 0 } else { 60_000 });
    }
    // one hour of demand (30 GWh) carries every zero hour
    assert!(always_meets_demand(30_000, &outputs, 30_000, 1_000));
    assert!(!always_meets_demand(29_999, &outputs, 30_000, 1_000));

    let need = find_required_storage(&outputs, 30_000, 1_000, 100_000, 1);
    assert!((29_999..=30_001).contains(&need));
}

#[test]
fn windows_over_a_small_series() {
    let values: Vec<i64> = vec![10, 20, 30, 40];
    let dates = hour_labels(4);
    let ws = analyze_windows(&values, &dates, &vec![1, 2]).unwrap();
    assert_eq!(ws.len(), 2);

    assert_eq!(ws[0].window_size_hours(), 1);
    assert_eq!(ws[0].min_moving_average(), 10);
    assert_eq!(ws[0].max_moving_average(), 40);
    assert_eq!(ws[0].min_moving_date(), &Some("h0".to_string()));
    assert_eq!(ws[0].average_of_all_values(), 25);

    assert_eq!(ws[1].window_size_hours(), 2);
    assert_eq!(ws[1].min_moving_average(), 15);
    assert_eq!(ws[1].max_moving_average(), 35);
    assert_eq!(ws[1].min_moving_date(), &Some("h1".to_string()));
}

#[test]
fn windows_reject_a_zero_horizon() {
    let values: Vec<i64> = vec![10, 20];
    let dates = hour_labels(2);
    assert!(matches!(
        analyze_windows(&values, &dates, &vec![1, 0]),
        Err(ConfigError::ZeroWindowLength)
    ));
}

#[test]
fn percent_of_reports_hundredths() {
    // 15 GW against a 30 GW average: 50.00 percent
    assert_eq!(percent_of(15_000, 30_000), 5_000);
    // 10 against 30: 33.33 percent, truncated
    assert_eq!(percent_of(10_000, 30_000), 3_333);
}
