use falling_blocks::scoring::{ScoringPolicy, LEVEL_SPAN};

fn policy(base_interval_ms: u64, speed_numerator: u32, speed_denominator: u32) -> ScoringPolicy {
    ScoringPolicy { score_per_line: 100, base_interval_ms, speed_numerator, speed_denominator }
}

#[test]
fn standard_policy_has_the_design_constants() {
    let standard = ScoringPolicy::standard();
    assert_eq!(standard.score_per_line, 100);
    assert_eq!(standard.base_interval_ms, 1000);
    assert_eq!(standard.speed_numerator, 9);
    assert_eq!(standard.speed_denominator, 10);
    assert!(standard.is_valid());
    assert_eq!(LEVEL_SPAN, 1000);
}

#[test]
fn score_delta_is_a_hundred_a_row() {
    let standard = ScoringPolicy::standard();
    assert_eq!(standard.score_delta(0), 0);
    assert_eq!(standard.score_delta(1), 100);
    assert_eq!(standard.score_delta(2), 200);
    assert_eq!(standard.score_delta(4), 400);
}

#[test]
fn score_delta_does_not_overflow() {
    let rich = ScoringPolicy { score_per_line: u32::MAX, ..ScoringPolicy::standard() };
    assert_eq!(rich.score_delta(u32::MAX), 18446744065119617025);
    assert_eq!(rich.score_delta(0), 0);
    let poor = ScoringPolicy { score_per_line: 0, ..ScoringPolicy::standard() };
    assert_eq!(poor.score_delta(17), 0);
}

#[test]
fn fall_interval_starts_at_a_second() {
    let standard = ScoringPolicy::standard();
    assert_eq!(standard.fall_interval(0), 1000);
    assert_eq!(standard.fall_interval(900), 1000);
    assert_eq!(standard.fall_interval(999), 1000);
}

#[test]
fn fall_interval_loses_a_tenth_every_thousand_points() {
    let standard = ScoringPolicy::standard();
    let expected = [1000, 900, 810, 729, 656, 590, 531, 478, 430, 387, 348];
    for (level, ms) in expected.iter().enumerate() {
        let score = level as u64 * 1000;
        assert_eq!(standard.fall_interval(score), *ms);
        assert_eq!(standard.fall_interval(score + 999), *ms);
    }
    assert_eq!(standard.fall_interval(20_000), 121);
    assert_eq!(standard.fall_interval(30_000), 42);
    assert_eq!(standard.fall_interval(43_000), 10);
    assert_eq!(standard.fall_interval(44_000), 9);
    assert_eq!(standard.fall_interval(50_000), 5);
}

#[test]
fn fall_interval_has_no_floor_but_zero() {
    let standard = ScoringPolicy::standard();
    assert_eq!(standard.fall_interval(60_000), 1);
    assert_eq!(standard.fall_interval(65_999), 1);
    assert_eq!(standard.fall_interval(66_000), 0);
    assert_eq!(standard.fall_interval(100_000), 0);
    assert_eq!(standard.fall_interval(u64::MAX), 0);
}

#[test]
fn fall_interval_never_grows_with_the_score() {
    let standard = ScoringPolicy::standard();
    let mut last = standard.fall_interval(0);
    let mut score = 0;
    while score <= 80_000 {
        let ms = standard.fall_interval(score);
        assert!(ms <= last, "interval grew at score {}", score);
        last = ms;
        score += 250;
    }
    assert_eq!(last, 0);
}

#[test]
fn fall_interval_follows_the_configured_factor() {
    let halving = policy(1000, 1, 2);
    let expected = [1000, 500, 250, 125, 62, 31, 15, 7, 3, 1, 0, 0];
    for (level, ms) in expected.iter().enumerate() {
        assert_eq!(halving.fall_interval(level as u64 * 1000), *ms);
    }
    let thirds = policy(7, 2, 3);
    let expected = [7, 4, 3, 2, 1, 0, 0, 0];
    for (level, ms) in expected.iter().enumerate() {
        assert_eq!(thirds.fall_interval(level as u64 * 1000), *ms);
    }
}

#[test]
fn fall_interval_with_a_factor_of_one_stays() {
    let steady = policy(750, 5, 5);
    assert_eq!(steady.fall_interval(0), 750);
    assert_eq!(steady.fall_interval(123_456), 750);
    assert_eq!(steady.fall_interval(u64::MAX), 750);
}

#[test]
fn fall_interval_with_a_factor_of_zero_drops_at_once() {
    let cliff = policy(1000, 0, 4);
    assert_eq!(cliff.fall_interval(999), 1000);
    assert_eq!(cliff.fall_interval(1000), 0);
    assert_eq!(cliff.fall_interval(u64::MAX), 0);
}

#[test]
fn fall_interval_is_exact_at_the_limits() {
    let slow = policy(u64::MAX, u32::MAX - 1, u32::MAX);
    assert_eq!(slow.fall_interval(0), 18446744073709551615);
    assert_eq!(slow.fall_interval(1000), 18446744069414584318);
    assert_eq!(slow.fall_interval(2000), 18446744065119617022);
    let nothing = policy(0, 9, 10);
    assert_eq!(nothing.fall_interval(0), 0);
    assert_eq!(nothing.fall_interval(5000), 0);
}

#[test]
fn policy_is_valid_for_fractions_up_to_one() {
    assert!(policy(1000, 9, 10).is_valid());
    assert!(policy(1000, 10, 10).is_valid());
    assert!(policy(1000, 0, 1).is_valid());
    assert!(!policy(1000, 11, 10).is_valid());
    assert!(!policy(1000, 0, 0).is_valid());
    assert!(!policy(1000, 1, 0).is_valid());
}
