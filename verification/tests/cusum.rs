use change_point_algorithms::cusum::{CusumV0, CusumV1};

#[test]
fn v0_at_rest_reports_zero() {
    let mut tracker = CusumV0::new(0.0_f64, 1.0, 0.0, 0.1, 5.0);
    for _ in 0..10 {
        tracker.update(0.0);
        assert_eq!(tracker.predict(0.0), 0.0);
    }
}

#[test]
fn v0_without_a_shift_estimate_gives_observations_no_weight() {
    // With the running mean at the mean, the shift estimate stays zero, and
    // an observation weighs in proportion to it.
    let mut tracker = CusumV0::new(0.0_f64, 1.0, 0.0, 0.1, 5.0);
    for _ in 0..10 {
        tracker.update(0.0);
        assert_eq!(tracker.predict(0.0), 0.0);
    }
    for _ in 0..5 {
        tracker.update(10.0);
        assert_eq!(tracker.predict(10.0), 0.0);
    }
}

#[test]
fn v0_with_a_shift_estimate_exceeds_the_threshold_and_resets() {
    let mut tracker = CusumV0::new(0.0_f64, 1.0, 0.0, 0.1, 5.0);
    for _ in 0..10 {
        tracker.update(0.0);
        assert_eq!(tracker.predict(0.0), 0.0);
    }
    let mut fired = false;
    for _ in 0..5 {
        tracker.set_d(2.0);
        tracker.update(10.0);
        let out = tracker.predict(10.0);
        if out > 5.0 {
            fired = true;
            assert_eq!(tracker.predict(10.0), 0.0);
        }
    }
    assert!(fired);
}

#[test]
fn v0_mean_is_the_constructor_argument() {
    let tracker = CusumV0::new(1.25_f64, 2.0, 3.0, 0.5, 5.0);
    assert_eq!(tracker.mean(), 1.25);
}

#[test]
fn v0_update_follows_the_formulas() {
    // scalar = 1 + 0.5 / 2 = 1.25, weight_no_diff = 0.5 / 2 = 0.25
    let mut tracker = CusumV0::new(1.0_f64, 2.0, 3.0, 0.5, 100.0);
    tracker.set_d(2.0);
    // weight = 2 * 0.25 = 0.5
    // cp = max(0, 0 + 0.5 * (10 - 2 * 1.25)) = 3.75
    // cn = min(0, 0 - 0.5 * (10 + 2 * 1.25)) = -6.25
    tracker.update(10.0);
    assert_eq!(tracker.predict(10.0), 6.25);
    // d = mu.curr - mean = 3 - 1 = 2 again, so the same increments
    tracker.update(10.0);
    assert_eq!(tracker.predict(10.0), 12.5);
    // mu is now (1.5, 1.5), and the second step recorded d = 1.5 - 1 = 0.5
    // weight = 0.125, cp = 7.5 + 0.125 * (10 - 0.625) = 8.671875
    // cn = -12.5 - 0.125 * (10 + 0.625) = -13.828125
    tracker.update(10.0);
    assert_eq!(tracker.predict(10.0), 13.828125);
    // mu is now (1.5, 0.75), d = 0.5 once more
    tracker.update(10.0);
    assert_eq!(tracker.predict(10.0), 15.15625);
    // mu is now (0.75, 0.75), and the fourth step recorded d = 0.75 - 1 = -0.25
    // weight = -0.0625, shift = -0.3125
    // cn = -15.15625 + 0.0625 * (10 - 0.3125) = -14.55078125
    tracker.update(10.0);
    assert_eq!(tracker.predict(10.0), 14.55078125);
    // mu is now (0.75, 0.375), d = -0.25 once more
    tracker.update(10.0);
    assert_eq!(tracker.predict(10.0), 13.9453125);
}

#[test]
fn v0_alarm_returns_the_statistic_of_before_the_reset() {
    let mut tracker = CusumV0::new(1.0_f64, 2.0, 3.0, 0.5, 5.0);
    tracker.set_d(2.0);
    tracker.update(10.0);
    assert_eq!(tracker.predict(10.0), 6.25);
    assert_eq!(tracker.predict(10.0), 0.0);
    assert_eq!(tracker.predict(10.0), 0.0);
}

#[test]
fn v0_reset_clears_the_current_slots_only() {
    let mut tracker = CusumV0::new(1.0_f64, 2.0, 3.0, 0.5, 5.0);
    tracker.set_d(2.0);
    tracker.update(10.0);
    assert_eq!(tracker.predict(10.0), 6.25);
    // the accumulators restart from zero: the same increments as at first
    tracker.update(10.0);
    assert_eq!(tracker.predict(10.0), 6.25);
}

#[test]
fn v0_query_without_alarm_changes_nothing() {
    let mut tracker = CusumV0::new(1.0_f64, 2.0, 3.0, 0.5, 100.0);
    tracker.set_d(2.0);
    tracker.update(10.0);
    assert_eq!(tracker.predict(0.0), 6.25);
    assert_eq!(tracker.predict(-1.0), 6.25);
    tracker.update(10.0);
    assert_eq!(tracker.predict(0.0), 12.5);
}

#[test]
fn v0_accepts_a_zero_variance() {
    let mut tracker = CusumV0::new(0.0_f64, 0.0, 1.0, 0.5, 5.0);
    tracker.set_d(1.0);
    tracker.update(1.0);
    // weight = 1 * (0.5 / 0) is infinite, and so is the statistic
    assert_eq!(tracker.predict(1.0), f64::INFINITY);
    assert_eq!(tracker.predict(1.0), 0.0);
}

#[test]
fn v1_update_follows_the_formulas() {
    // threshold = 2 * 50 = 100, variance = 4
    let mut tracker = CusumV1::new(1.0_f64, 2.0, 50.0, 0.5);
    // dev_shift = (0 - 1) / 4 = -0.25, target = 0 + (0 + 1) / 2 = 0.5
    // cp = max(0, -0.25 * (-4 - 0.5)) = 1.125
    // cn = min(0, 0.25 * (-4 + 0.5)) = -0.875
    tracker.update(-4.0);
    assert_eq!(tracker.predict(0.0), 1.125);
    // mu is (0, 2): the previous slot is still zero
    tracker.update(-4.0);
    assert_eq!(tracker.predict(0.0), 2.25);
    // mu is (2, 2): dev_shift = 0.25, target = 2 + (1 + 1) / 2 = 3
    // cp = max(0, 2.25 + 0.25 * (-4 - 3)) = 0.5
    // cn = min(0, -1.75 - 0.25 * (-4 + 3)) = -1.5
    tracker.update(-4.0);
    assert_eq!(tracker.predict(0.0), 1.5);
    // mu is (2, 3): the same shift and target
    // cp = max(0, 0.5 - 1.75) = 0, cn = -1.5 + 0.25 = -1.25
    tracker.update(-4.0);
    assert_eq!(tracker.predict(0.0), 1.25);
    // mu is (3, 3): dev_shift = 0.5, target = 3 + (1.5 + 1) / 2 = 4.25
    // cp = max(0, 0 + 0.5 * (-4 - 4.25)) = 0
    // cn = min(0, -1.25 - 0.5 * (-4 + 4.25)) = -1.375
    tracker.update(-4.0);
    assert_eq!(tracker.predict(0.0), 1.375);
}

#[test]
fn v1_threshold_is_h_standard_deviations() {
    // threshold = 2 * 0.5 = 1
    let mut tracker = CusumV1::new(1.0_f64, 2.0, 0.5, 0.5);
    tracker.update(-4.0);
    assert_eq!(tracker.predict(0.0), 1.125);
    assert_eq!(tracker.predict(0.0), 0.0);
    // threshold = 2 * 0.5625 = 1.125 is not exceeded
    let mut tracker = CusumV1::new(1.0_f64, 2.0, 0.5625, 0.5);
    tracker.update(-4.0);
    assert_eq!(tracker.predict(0.0), 1.125);
    assert_eq!(tracker.predict(0.0), 1.125);
}

#[test]
fn v1_reset_clears_the_current_slots_only() {
    let mut tracker = CusumV1::new(1.0_f64, 2.0, 0.5, 0.5);
    tracker.update(-4.0);
    assert_eq!(tracker.predict(0.0), 1.125);
    // the accumulators restart from zero while the running mean goes on
    tracker.update(-4.0);
    assert_eq!(tracker.predict(0.0), 1.125);
    assert_eq!(tracker.predict(0.0), 0.0);
}

#[test]
fn v1_at_rest_reports_zero() {
    let mut tracker = CusumV1::new(0.0_f64, 1.0, 5.0, 0.1);
    for _ in 0..10 {
        tracker.update(0.0);
        assert_eq!(tracker.predict(0.0), 0.0);
    }
}

#[test]
fn second_query_after_an_alarm_reports_zero_also_under_a_negative_threshold() {
    let mut tracker = CusumV1::new(0.0_f64, 1.0, -1.0, 0.1);
    assert_eq!(tracker.predict(0.0), 0.0);
    assert_eq!(tracker.predict(0.0), 0.0);
}
