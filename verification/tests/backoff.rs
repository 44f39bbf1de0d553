use chrono_machines::backoff::{
    BackoffStrategy, ConstantBackoff, ExponentialBackoff, FibonacciBackoff,
};
use chrono_machines::growth::fibonacci;
use chrono_machines::jitter::UNIT;
use rand::rngs::SmallRng;
use rand::SeedableRng;

#[test]
fn test_exponential_backoff_builder() {
    let backoff = ExponentialBackoff::new()
        .base_delay_ms(200)
        .multiplier(3 * UNIT)
        .max_delay_ms(5000)
        .max_attempts(5)
        .jitter_factor(UNIT / 2);

    assert_eq!(backoff.base_delay_ms, 200);
    assert_eq!(backoff.multiplier, 3 * UNIT);
    assert_eq!(backoff.max_delay_ms, 5000);
    assert_eq!(backoff.max_attempts, 5);
    assert_eq!(backoff.jitter_factor, UNIT / 2);
}

#[test]
fn test_exponential_delays() {
    let backoff = ExponentialBackoff::new()
        .base_delay_ms(100)
        .multiplier(2 * UNIT)
        .jitter_factor(0);

    let mut rng = SmallRng::seed_from_u64(42);

    assert_eq!(backoff.delay(1, &mut rng), Some(100));
    assert_eq!(backoff.delay(2, &mut rng), Some(200));
    assert_eq!(backoff.delay(3, &mut rng), None);
}

#[test]
fn test_constant_backoff() {
    let backoff = ConstantBackoff::new()
        .delay_ms(500)
        .max_attempts(4)
        .jitter_factor(0);

    let mut rng = SmallRng::seed_from_u64(42);

    assert_eq!(backoff.delay(1, &mut rng), Some(500));
    assert_eq!(backoff.delay(2, &mut rng), Some(500));
    assert_eq!(backoff.delay(3, &mut rng), Some(500));
    assert_eq!(backoff.delay(4, &mut rng), None);
}

#[test]
fn backoff_test_fibonacci_sequence() {
    assert_eq!(FibonacciBackoff::fibonacci(1), 1);
    assert_eq!(FibonacciBackoff::fibonacci(2), 1);
    assert_eq!(FibonacciBackoff::fibonacci(3), 2);
    assert_eq!(FibonacciBackoff::fibonacci(4), 3);
    assert_eq!(FibonacciBackoff::fibonacci(5), 5);
    assert_eq!(FibonacciBackoff::fibonacci(6), 8);
    assert_eq!(FibonacciBackoff::fibonacci(7), 13);
}

#[test]
fn lib_test_fibonacci_sequence() {
    assert_eq!(fibonacci(0), 0);
    assert_eq!(fibonacci(1), 1);
    assert_eq!(fibonacci(2), 1);
    assert_eq!(fibonacci(3), 2);
    assert_eq!(fibonacci(4), 3);
    assert_eq!(fibonacci(5), 5);
    assert_eq!(fibonacci(6), 8);
    assert_eq!(fibonacci(7), 13);
    assert_eq!(fibonacci(8), 21);
}

#[test]
fn test_fibonacci_backoff() {
    let backoff = FibonacciBackoff::new()
        .base_delay_ms(100)
        .max_attempts(5)
        .jitter_factor(0);

    let mut rng = SmallRng::seed_from_u64(42);

    assert_eq!(backoff.delay(1, &mut rng), Some(100));
    assert_eq!(backoff.delay(2, &mut rng), Some(100));
    assert_eq!(backoff.delay(3, &mut rng), Some(200));
    assert_eq!(backoff.delay(4, &mut rng), Some(300));
    assert_eq!(backoff.delay(5, &mut rng), None);
}

#[test]
fn test_jitter_application() {
    let backoff = ConstantBackoff::new().delay_ms(1000).jitter_factor(UNIT);

    let mut rng = SmallRng::seed_from_u64(42);
    let delays: Vec<u64> = (1..10).filter_map(|i| backoff.delay(i, &mut rng)).collect();

    let all_different = delays.windows(2).any(|w| w[0] != w[1]);
    assert!(all_different, "Full jitter should produce varying delays");

    assert!(delays.iter().all(|&d| d <= 1000));
}
