use sqs_replayer_lambda::backoff::backoff;
use sqs_replayer_lambda::backoff::backoff_with_jitter;
use sqs_replayer_lambda::backoff::draw;
use sqs_replayer_lambda::backoff::nanos_of_reading;
use sqs_replayer_lambda::backoff::random_int;

#[test]
fn backoff_doubles_per_attempt_and_caps_at_max() {
    let expected = [60, 120, 240, 480, 900, 900];
    for (attempt, expected_delay) in (1u32..=6).zip(expected) {
        assert_eq!(backoff(30, 900, attempt), expected_delay);
    }
}

#[test]
fn backoff_with_jitter_stays_within_upper_bound() {
    let mut counter = 0;
    for attempt in 1..=6 {
        for _ in 0..100 {
            let value = backoff_with_jitter(30, 900, attempt, &mut counter);
            assert!(value <= backoff(30, 900, attempt));
        }
    }
}

#[test]
fn backoff_of_attempt_zero_is_the_base() {
    assert_eq!(backoff(30, 900, 0), 30);
    assert_eq!(backoff(1000, 900, 0), 900);
}

#[test]
fn backoff_does_not_overflow() {
    assert_eq!(backoff(1, u32::MAX, 31), 1 << 31);
    assert_eq!(backoff(1, u32::MAX, 32), u32::MAX);
    assert_eq!(backoff(u32::MAX, u32::MAX, u32::MAX), u32::MAX);
    assert_eq!(backoff(u32::MAX, 900, 31), 900);
    assert_eq!(backoff(0, 900, 31), 0);
    assert_eq!(backoff(0, 900, 40), 0);
    assert_eq!(backoff(30, 0, 3), 0);
}

#[test]
fn later_attempts_never_wait_less() {
    let mut previous = 0;
    for attempt in 0..64 {
        let delay = backoff(7, 100_000, attempt);
        assert!(delay >= previous);
        assert!(delay <= 100_000);
        previous = delay;
    }
}

#[test]
fn draws_are_fixed_by_the_seed() {
    assert_eq!(draw(900, 1, 123_456_789), 608);
    assert_eq!(draw(900, 2, 123_456_789), 555);
    assert_eq!(draw(60, 0, 999_999_999), 26);
    assert_eq!(draw(u32::MAX, 7, 42), 3_572_644_640);
    assert_eq!(draw(0, 5, 6), 0);
    assert_eq!(draw(10, 0, 0), 0);
    assert_eq!(draw(900, 3, 0), 216);
}

#[test]
fn jitter_spreads_over_the_range() {
    let mut counter = 0;
    let values: Vec<u32> = (0..200)
        .map(|_| backoff_with_jitter(30, 900, 5, &mut counter))
        .collect();
    assert_eq!(counter, 200);
    assert!(values.iter().any(|value| *value != values[0]));
    assert!(values.iter().any(|value| *value < 450));
    assert!(values.iter().any(|value| *value >= 450));
}

#[test]
fn jitter_of_no_delay_is_no_delay() {
    let mut counter = 7;
    for _ in 0..20 {
        assert_eq!(backoff_with_jitter(0, 900, 4, &mut counter), 0);
        assert_eq!(backoff_with_jitter(30, 0, 4, &mut counter), 0);
    }
    assert_eq!(counter, 7);
}

#[test]
fn a_clock_before_the_epoch_counts_as_zero() {
    assert_eq!(nanos_of_reading(None), 0);
    assert_eq!(nanos_of_reading(Some(0)), 0);
    assert_eq!(nanos_of_reading(Some(123_456_789)), 123_456_789);
}

#[test]
fn each_draw_raises_the_counter_by_one() {
    let mut counter = u64::MAX - 1;
    assert!(random_int(10, &mut counter) <= 10);
    assert_eq!(counter, u64::MAX);
    assert!(random_int(10, &mut counter) <= 10);
    assert_eq!(counter, 0);
    assert_eq!(random_int(0, &mut counter), 0);
    assert_eq!(counter, 0);
}

#[test]
fn both_ends_of_the_range_are_drawn() {
    let numbers: Vec<u32> = (0..1000).map(|counter| draw(3, counter, 0)).collect();
    assert_eq!(numbers.iter().min(), Some(&0));
    assert_eq!(numbers.iter().max(), Some(&3));
}

#[test]
fn counters_at_one_reading_draw_different_numbers() {
    let first = draw(u32::MAX, 0, 123_456_789);
    let second = draw(u32::MAX, 1, 123_456_789);
    assert_ne!(first, second);
}
