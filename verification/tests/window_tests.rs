use windstats::window::Window;
use windstats::ConfigError;

#[test]
fn rejects_zero_length_window() {
    let r = Window::new(0);
    assert!(matches!(r, Err(ConfigError::ZeroWindowLength)));
}

#[test]
fn moving_average_is_mean_of_ring_after_fill() {
    let mut w = Window::new(3).unwrap();
    w.push(1, "h0");
    w.push(2, "h1");
    w.push(3, "h2");
    // ring now holds exactly the three most recent values
    assert_eq!(w.current_moving_average(), 2);
    w.push(4, "h3");
    // the oldest value was evicted: ring is [2, 3, 4]
    assert_eq!(w.current_moving_average(), 3);
    assert_eq!(w.window_size_hours(), 3);
}

#[test]
fn overall_average_is_total_over_count() {
    let mut w = Window::new(3).unwrap();
    for (i, v) in [1i64, 2, 3, 4].iter().enumerate() {
        w.push(*v, &format!("h{}", i));
    }
    // independent of the window length: 10 / 4
    assert_eq!(w.average_of_all_values(), 2);

    let mut w1 = Window::new(1).unwrap();
    for (i, v) in [1i64, 2, 3, 4].iter().enumerate() {
        w1.push(*v, &format!("h{}", i));
    }
    assert_eq!(w1.average_of_all_values(), 2);
}

#[test]
fn min_max_averages_and_min_date() {
    let mut w = Window::new(3).unwrap();
    let series: [i64; 6] = [5, 1, 1, 9, 1, 1];
    for (i, v) in series.iter().enumerate() {
        w.push(*v, &format!("h{}", i));
    }
    // window sums once filled: 7, 11, 11, 11
    assert_eq!(w.min_moving_average(), 7 / 3);
    assert_eq!(w.max_moving_average(), 11 / 3);
    assert_eq!(w.min_moving_date(), &Some("h2".to_string()));
}

#[test]
fn min_date_keeps_first_of_equal_minima() {
    let mut w = Window::new(2).unwrap();
    for (i, v) in [3i64, 3, 3, 3].iter().enumerate() {
        w.push(*v, &format!("h{}", i));
    }
    // every window sums to 6: only the first fill recorded the date
    assert_eq!(w.min_moving_date(), &Some("h1".to_string()));
}

#[test]
fn max_not_updated_before_ring_fills() {
    let mut w = Window::new(3).unwrap();
    w.push(100, "h0");
    w.push(100, "h1");
    w.push(1, "h2");
    w.push(1, "h3");
    w.push(1, "h4");
    // the partial windows holding 100s never count; the first full window
    // is [100, 100, 1]
    assert_eq!(w.max_moving_average(), 201 / 3);
    assert_eq!(w.min_moving_average(), 1);
}

#[test]
fn min_average_at_most_overall_at_most_max() {
    let mut w = Window::new(2).unwrap();
    let series: [i64; 4] = [0, 10, 10, 0];
    for (i, v) in series.iter().enumerate() {
        w.push(*v, &format!("h{}", i));
    }
    // a non-constant series of whole windows: 5 <= 5 <= 10
    let min = w.min_moving_average();
    let avg = w.average_of_all_values();
    let max = w.max_moving_average();
    assert!(min <= avg);
    assert!(avg <= max);
    assert_eq!(min, 5);
    assert_eq!(avg, 5);
    assert_eq!(max, 10);
}

#[test]
fn window_of_one_tracks_raw_extremes() {
    let mut w = Window::new(1).unwrap();
    for (i, v) in [40i64, 10, 30, 20].iter().enumerate() {
        w.push(*v, &format!("h{}", i));
    }
    assert_eq!(w.min_moving_average(), 10);
    assert_eq!(w.max_moving_average(), 40);
    assert_eq!(w.min_moving_date(), &Some("h1".to_string()));
}
