use num_terminators::digits::{is_decreasing, last_digit};

#[test]
fn last_digit_of_positive_numbers() {
    assert_eq!(last_digit(954320), 0);
    assert_eq!(last_digit(7), 7);
    assert_eq!(last_digit(19), 9);
    assert_eq!(last_digit(10), 0);
    assert_eq!(last_digit(i64::MAX), 7);
}

#[test]
fn last_digit_of_zero() {
    assert_eq!(last_digit(0), 0);
}

#[test]
fn last_digit_of_negative_numbers_is_negated() {
    assert_eq!(last_digit(-7), -7);
    assert_eq!(last_digit(-123), -3);
    assert_eq!(last_digit(-120), 0);
    assert_eq!(last_digit(i64::MIN), -8);
}

#[test]
fn last_digit_lies_between_minus_ten_and_ten() {
    for x in [-1000, -999, -11, -10, -9, -1, 0, 1, 9, 10, 11, 999, 1000] {
        let d = last_digit(x);
        assert!(-10 < d && d < 10);
        assert_eq!(d, x % 10);
    }
}

#[test]
fn digits_that_go_down_pass() {
    assert!(is_decreasing(954320));
    assert!(is_decreasing(21));
    assert!(is_decreasing(9876543210));
}

#[test]
fn equal_neighbours_pass() {
    assert!(is_decreasing(1111));
    assert!(is_decreasing(5540));
    assert!(is_decreasing(100));
}

#[test]
fn one_digit_passes() {
    for x in 0..10 {
        assert!(is_decreasing(x));
    }
}

#[test]
fn a_digit_that_goes_up_fails() {
    assert!(!is_decreasing(12));
    assert!(!is_decreasing(954329));
    assert!(!is_decreasing(101));
    assert!(!is_decreasing(9540321));
    assert!(!is_decreasing(i64::MAX));
}

#[test]
fn a_rise_at_the_front_fails() {
    assert!(!is_decreasing(19000));
    assert!(!is_decreasing(8954320));
}

#[test]
fn numbers_that_are_not_positive_pass() {
    assert!(is_decreasing(0));
    assert!(is_decreasing(-1));
    assert!(is_decreasing(-12));
    assert!(is_decreasing(i64::MIN));
}
