use windstats::bisect::{find_threshold, find_using_bisection, ThresholdPredicate};
use windstats::ConfigError;

#[test]
fn rejects_bracket_that_is_not_an_interval() {
    let pred = ThresholdPredicate { threshold: 5 };
    assert!(matches!(
        find_using_bisection(10, 10, &pred, 1),
        Err(ConfigError::InvalidBracket)
    ));
    assert!(matches!(
        find_using_bisection(10, 0, &pred, 1),
        Err(ConfigError::InvalidBracket)
    ));
}

#[test]
fn lands_within_tolerance_of_the_threshold() {
    let v = find_threshold(637, 0, 1000, 5);
    assert!((637 - 5..=637 + 5).contains(&v));

    let v1 = find_threshold(637, 0, 1000, 1);
    assert!((636..=638).contains(&v1));

    let v2 = find_threshold(1, 0, 1000, 1);
    assert!((0..=2).contains(&v2));

    let v3 = find_threshold(1000, 0, 1000, 1);
    assert!((999..=1000).contains(&v3));
}

#[test]
fn bisection_brackets_the_boundary() {
    let pred = ThresholdPredicate { threshold: 250 };
    let v = find_using_bisection(0, 1000, &pred, 1).unwrap();
    // everything a tolerance above the answer holds, everything a
    // tolerance below does not
    assert!(v + 1 >= 250);
    assert!(v - 1 < 250);
}
