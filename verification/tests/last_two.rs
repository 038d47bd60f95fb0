use change_point_algorithms::cusum;
use change_point_algorithms::last_two::LastTwo;
use change_point_algorithms::scalar::{absolute, keep_negative, keep_positive, maximum};

#[test]
fn new_fills_both_slots() {
    let lag = LastTwo::new(1.5_f64, 2.5);
    assert_eq!(*lag.prev(), 1.5);
    assert_eq!(*lag.curr(), 2.5);
}

#[test]
fn setters_touch_one_slot_each() {
    let mut lag = LastTwo::new(1_i32, 2);
    lag.set_prev(7);
    assert_eq!((*lag.prev(), *lag.curr()), (7, 2));
    lag.set_curr(9);
    assert_eq!((*lag.prev(), *lag.curr()), (7, 9));
}

#[test]
fn append_returns_the_evicted_value() {
    let mut lag = LastTwo::new(1.5_f64, 2.5);
    let out = lag.append(4.0);
    assert_eq!(out, 1.5);
    assert_eq!(*lag.prev(), 2.5);
    assert_eq!(*lag.curr(), 4.0);
}

#[test]
fn append_keeps_one_step_of_history() {
    let mut lag = LastTwo::new(0.0_f64, 0.0);
    assert_eq!(lag.append(1.0), 0.0);
    assert_eq!(lag.append(2.0), 0.0);
    assert_eq!(lag.append(3.0), 1.0);
    assert_eq!(lag.append(4.0), 2.0);
    assert_eq!((*lag.prev(), *lag.curr()), (3.0, 4.0));
}

#[test]
fn append_moves_values_that_cannot_be_copied() {
    let mut lag = LastTwo::new(String::from("a"), String::from("b"));
    let out = lag.append(String::from("c"));
    assert_eq!(out, "a");
    assert_eq!(lag.prev(), "b");
    assert_eq!(lag.curr(), "c");
}

#[test]
fn default_is_zero_in_both_slots() {
    let lag: LastTwo<f64> = LastTwo::default();
    assert_eq!((*lag.prev(), *lag.curr()), (0.0, 0.0));
}

#[test]
fn last_two_is_reachable_through_the_cusum_module() {
    let lag = cusum::LastTwo::new(1_u8, 2);
    assert_eq!(*lag.curr(), 2);
}

#[test]
fn positive_part_clamps_from_below() {
    assert_eq!(keep_positive(-3.0_f64), 0.0);
    assert_eq!(keep_positive(0.0_f64), 0.0);
    assert_eq!(keep_positive(3.0_f64), 3.0);
    assert_eq!(keep_positive(f64::NAN), 0.0);
}

#[test]
fn negative_part_clamps_from_above() {
    assert_eq!(keep_negative(-3.0_f64), -3.0);
    assert_eq!(keep_negative(0.0_f64), 0.0);
    assert_eq!(keep_negative(3.0_f64), 0.0);
    assert_eq!(keep_negative(f64::NAN), 0.0);
}

#[test]
fn absolute_value_and_maximum() {
    assert_eq!(absolute(-3.0_f64), 3.0);
    assert_eq!(absolute(3.0_f64), 3.0);
    assert_eq!(absolute(0.0_f64), 0.0);
    assert_eq!(maximum(1.0_f64, 2.0), 2.0);
    assert_eq!(maximum(2.0_f64, 1.0), 2.0);
    assert_eq!(maximum(2.0_f64, 2.0), 2.0);
}
