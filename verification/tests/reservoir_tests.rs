use windstats::reservoir::Storage;
use windstats::ConfigError;

#[test]
fn rejects_negative_capacity() {
    let r = Storage::new(-1);
    assert!(matches!(r, Err(ConfigError::NegativeCapacity)));
}

#[test]
fn starts_full_and_clamps_to_bounds() {
    let mut s = Storage::new(100).unwrap();
    assert_eq!(s.current_level(), 100);

    assert!(s.add(-30, "d0"));
    assert_eq!(s.current_level(), 70);

    // drawing 80 from 70 leaves a shortfall of 10
    assert!(!s.add(-80, "d1"));
    assert_eq!(s.current_level(), 0);

    assert!(s.add(50, "d2"));
    assert_eq!(s.current_level(), 50);

    // charging past the capacity clamps without shortfall
    assert!(s.add(200, "d3"));
    assert_eq!(s.current_level(), 100);

    assert_eq!(s.max_shortfall(), 10);
    assert_eq!(s.max_shortfall_date(), &Some("d1".to_string()));
}

#[test]
fn level_stays_within_bounds_on_any_steps() {
    let mut s = Storage::new(50).unwrap();
    let deltas: [i64; 8] = [-60, 120, -10, -200, 5, 500, -49, -1];
    for (i, d) in deltas.iter().enumerate() {
        s.add(*d, &format!("d{}", i));
        let level = s.current_level();
        assert!(0 <= level && level <= 50);
    }
}

#[test]
fn zero_capacity_never_falls_short_on_charging() {
    let mut s = Storage::new(0).unwrap();
    assert!(s.add(5, "d0"));
    assert!(s.add(0, "d1"));
    assert!(s.add(123, "d2"));
    assert_eq!(s.max_shortfall(), 0);
    assert_eq!(s.max_shortfall_date(), &None);
}

#[test]
fn zero_capacity_draw_falls_short_by_the_whole_draw() {
    let mut s = Storage::new(0).unwrap();
    assert!(s.add(9, "d0"));
    assert!(!s.add(-7, "d1"));
    assert_eq!(s.max_shortfall(), 7);
    assert_eq!(s.max_shortfall_date(), &Some("d1".to_string()));
    // a milder draw later does not displace the worst one
    assert!(!s.add(-3, "d2"));
    assert_eq!(s.max_shortfall(), 7);
    assert_eq!(s.max_shortfall_date(), &Some("d1".to_string()));
    // a worse draw does
    assert!(!s.add(-8, "d3"));
    assert_eq!(s.max_shortfall(), 8);
    assert_eq!(s.max_shortfall_date(), &Some("d3".to_string()));
}
