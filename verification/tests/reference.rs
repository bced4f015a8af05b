use gpu_collatz::layout::ComputeResult;
use gpu_collatz::reference::{agrees_with_reference, collatz, collatz_within};

#[test]
fn one_takes_no_step() {
    assert_eq!(collatz(1), (0, 1));
}

#[test]
fn six_takes_eight_steps_and_peaks_at_sixteen() {
    assert_eq!(collatz(6), (8, 16));
}

#[test]
fn twenty_seven_takes_one_hundred_and_eleven_steps() {
    assert_eq!(collatz(27), (111, 9232));
}

#[test]
fn the_first_five_values_have_short_chains() {
    assert_eq!(collatz(1), (0, 1));
    assert_eq!(collatz(2), (1, 2));
    assert_eq!(collatz(3), (7, 16));
    assert_eq!(collatz(4), (2, 4));
    assert_eq!(collatz(5), (5, 16));
}

#[test]
fn a_power_of_two_only_halves() {
    assert_eq!(collatz(1u128 << 100), (100, 1u128 << 100));
    assert_eq!(collatz(1u128 << 127), (127, 1u128 << 127));
}

#[test]
fn the_limit_counts_steps() {
    assert_eq!(collatz_within(27, 111), Some((111, 9232)));
    assert_eq!(collatz_within(27, 110), None);
    assert_eq!(collatz_within(27, 0), None);
    assert_eq!(collatz_within(1, 0), Some((0, 1)));
    assert_eq!(collatz_within(2, 1), Some((1, 2)));
    assert_eq!(collatz_within(6, u128::MAX), Some((8, 16)));
}

#[test]
fn zero_never_stops() {
    assert_eq!(collatz_within(0, 0), None);
    assert_eq!(collatz_within(0, 10_000), None);
}

#[test]
fn a_trajectory_that_leaves_128_bits_is_given_up() {
    assert_eq!(collatz_within(u128::MAX, 1_000), None);
    let third = u128::MAX / 3;
    assert_eq!(third % 2, 1);
    assert_eq!(collatz_within(third, 1_000), None);
    assert_eq!(collatz_within(third * 2, 1_000), None);
}

#[test]
fn a_right_result_agrees_with_the_reference() {
    assert!(agrees_with_reference(&ComputeResult { input: 1, steps: 0, max_value: 1 }));
    assert!(agrees_with_reference(&ComputeResult { input: 6, steps: 8, max_value: 16 }));
    assert!(agrees_with_reference(&ComputeResult { input: 27, steps: 111, max_value: 9232 }));
}

#[test]
fn a_wrong_result_disagrees_with_the_reference() {
    assert!(!agrees_with_reference(&ComputeResult { input: 6, steps: 7, max_value: 16 }));
    assert!(!agrees_with_reference(&ComputeResult { input: 6, steps: 9, max_value: 16 }));
    assert!(!agrees_with_reference(&ComputeResult { input: 6, steps: 8, max_value: 6 }));
    assert!(!agrees_with_reference(&ComputeResult { input: 6, steps: 8, max_value: 17 }));
    assert!(!agrees_with_reference(&ComputeResult { input: 1, steps: 3, max_value: 4 }));
    assert!(!agrees_with_reference(&ComputeResult { input: 0, steps: 0, max_value: 0 }));
    assert!(!agrees_with_reference(&ComputeResult { input: u128::MAX, steps: 5, max_value: u128::MAX }));
}
