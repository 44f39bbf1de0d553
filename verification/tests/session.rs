use chrono_machines::backoff::{
    BackoffStrategy, ConstantBackoff, ExponentialBackoff, FibonacciBackoff,
};
use chrono_machines::jitter::UNIT;
use chrono_machines::retry::{RetryErrorKind, Retryable};
use chrono_machines::sleep::{FnSleeper, Sleeper};
use rand::rngs::SmallRng;
use std::cell::{Cell, RefCell};
use std::rc::Rc;

/// Allows `limit` attempts but declines to name a delay from `stop_at` on.
struct Reluctant {
    limit: u8,
    stop_at: u8,
}

impl BackoffStrategy for Reluctant {
    fn attempt_limit(&self) -> u8 {
        self.limit
    }

    fn delay(&self, attempt: u8, _rng: &mut SmallRng) -> Option<u64> {
        if attempt >= self.stop_at {
            None
        } else {
            Some(5)
        }
    }

    fn should_retry(&self, attempt: u8) -> bool {
        attempt < self.limit
    }

    fn max_attempts(&self) -> u8 {
        self.limit
    }
}

/// Adds up what it is asked to sleep.
struct Counting {
    total: Rc<Cell<u64>>,
    calls: Rc<Cell<u32>>,
}

impl Sleeper for Counting {
    fn sleep_ms(&self, ms: u64) {
        self.total.set(self.total.get() + ms);
        self.calls.set(self.calls.get() + 1);
    }
}

fn fails_until(successful_attempt: u32) -> impl FnMut() -> Result<u32, String> {
    let mut calls = 0u32;
    move || {
        calls += 1;
        if calls < successful_attempt {
            Err(format!("failure {}", calls))
        } else {
            Ok(calls)
        }
    }
}

#[test]
fn two_failures_then_success_sum_the_delays() {
    let exponential = ExponentialBackoff::new()
        .base_delay_ms(100)
        .multiplier(2 * UNIT)
        .max_attempts(3)
        .jitter_factor(0);
    let outcome = fails_until(3)
        .retry(exponential)
        .call_with_sleeper(FnSleeper(|_| {}))
        .expect("third attempt succeeds");
    assert_eq!(outcome.attempts(), 3);
    assert_eq!(outcome.cumulative_delay_ms(), 100 + 200);
    assert_eq!(*outcome.value(), 3);

    let fibonacci = FibonacciBackoff::new().base_delay_ms(100).max_attempts(8).jitter_factor(0);
    let outcome = fails_until(5)
        .retry(fibonacci)
        .call_with_sleeper(FnSleeper(|_| {}))
        .expect("fifth attempt succeeds");
    assert_eq!(outcome.attempts(), 5);
    assert_eq!(outcome.cumulative_delay_ms(), 100 + 100 + 200 + 300);

    let constant = ConstantBackoff::new().delay_ms(30).max_attempts(200);
    let outcome = fails_until(101)
        .retry(constant)
        .call_with_sleeper(FnSleeper(|_| {}))
        .expect("attempt 101 succeeds");
    assert_eq!(outcome.attempts(), 101);
    assert_eq!(outcome.cumulative_delay_ms(), 3000);
}

#[test]
fn rejected_failures_end_the_session_at_once() {
    let operation_calls = Cell::new(0u32);
    let predicate_calls = Cell::new(0u32);
    let slept = Cell::new(0u32);
    let result = (|| {
        operation_calls.set(operation_calls.get() + 1);
        Err::<(), &str>("fatal")
    })
    .retry(ConstantBackoff::new().delay_ms(10).max_attempts(5))
    .when(|_| {
        predicate_calls.set(predicate_calls.get() + 1);
        false
    })
    .call_with_sleeper(FnSleeper(|_| slept.set(slept.get() + 1)));

    let failure = result.expect_err("the predicate rejects every error");
    assert_eq!(failure.kind(), RetryErrorKind::PredicateRejected);
    assert_eq!(failure.attempts(), 1);
    assert_eq!(failure.max_attempts(), 5);
    assert_eq!(failure.cumulative_delay_ms(), 0);
    assert_eq!(failure.cause(), Some(&"fatal"));
    assert_eq!(operation_calls.get(), 1);
    assert_eq!(predicate_calls.get(), 1);
    assert_eq!(slept.get(), 0);
}

#[test]
fn the_predicate_is_asked_before_the_strategy() {
    // at the last attempt allowed, a rejected error is reported as rejected
    let result = (|| Err::<(), u8>(9))
        .retry(ConstantBackoff::new().max_attempts(1))
        .when(|_| false)
        .call_with_sleeper(FnSleeper(|_| {}));
    assert_eq!(result.expect_err("fails").kind(), RetryErrorKind::PredicateRejected);

    let result = (|| Err::<(), u8>(9))
        .retry(ConstantBackoff::new().max_attempts(1))
        .when(|_| true)
        .call_with_sleeper(FnSleeper(|_| {}));
    assert_eq!(result.expect_err("fails").kind(), RetryErrorKind::Exhausted);
}

#[test]
fn a_later_error_may_be_rejected() {
    let mut calls = 0u8;
    let result = (move || {
        calls += 1;
        Err::<(), u8>(calls)
    })
    .retry(ConstantBackoff::new().delay_ms(10).max_attempts(9))
    .when(|error| *error < 3)
    .call_with_sleeper(FnSleeper(|_| {}));
    let failure = result.expect_err("the third error is rejected");
    assert_eq!(failure.kind(), RetryErrorKind::PredicateRejected);
    assert_eq!(failure.attempts(), 3);
    assert_eq!(failure.cumulative_delay_ms(), 20);
    assert_eq!(failure.into_cause(), Some(3));
}

#[test]
fn always_failing_exhausts_at_the_limit() {
    let result = (|| Err::<(), &str>("down"))
        .retry(ConstantBackoff::new().delay_ms(10).max_attempts(3))
        .call_with_sleeper(FnSleeper(|_| {}));
    let failure = result.expect_err("never succeeds");
    assert_eq!(failure.kind(), RetryErrorKind::Exhausted);
    assert_eq!(failure.attempts(), 3);
    assert_eq!(failure.max_attempts(), 3);
    assert_eq!(failure.cumulative_delay_ms(), 20);
    assert!(failure.cause().is_some());
    assert_eq!(failure.into_cause(), Some("down"));
}

#[test]
fn the_last_cause_is_reported() {
    let mut calls = 0u32;
    let result = (move || {
        calls += 1;
        Err::<(), u32>(calls)
    })
    .retry(ConstantBackoff::new().delay_ms(1).max_attempts(4))
    .call_with_sleeper(FnSleeper(|_| {}));
    assert_eq!(result.expect_err("never succeeds").into_cause(), Some(4));
}

#[test]
fn a_limit_of_zero_fails_at_the_first_attempt() {
    let calls = Cell::new(0u32);
    let result = (|| {
        calls.set(calls.get() + 1);
        Err::<(), &str>("down")
    })
    .retry(ExponentialBackoff::new().max_attempts(0))
    .call_with_sleeper(FnSleeper(|_| {}));
    let failure = result.expect_err("never succeeds");
    assert_eq!(failure.kind(), RetryErrorKind::Exhausted);
    assert_eq!(failure.attempts(), 1);
    assert_eq!(failure.max_attempts(), 0);
    assert_eq!(failure.cumulative_delay_ms(), 0);
    assert_eq!(calls.get(), 1);

    let outcome = (|| Ok::<u8, &str>(1))
        .retry(ExponentialBackoff::new().max_attempts(0))
        .call_with_sleeper(FnSleeper(|_| {}))
        .expect("succeeds at once");
    assert_eq!(outcome.attempts(), 1);
}

#[test]
fn a_limit_of_255_is_reached_without_overflow() {
    let result = (|| Err::<(), ()>(()))
        .retry(ConstantBackoff::new().delay_ms(2).max_attempts(255))
        .call_with_sleeper(FnSleeper(|_| {}));
    let failure = result.expect_err("never succeeds");
    assert_eq!(failure.attempts(), 255);
    assert_eq!(failure.cumulative_delay_ms(), 2 * 254);
}

#[test]
fn the_cumulative_delay_saturates() {
    let result = (|| Err::<(), ()>(()))
        .retry(ConstantBackoff::new().delay_ms(u64::MAX - 1).max_attempts(4))
        .call_with_sleeper(FnSleeper(|_| {}));
    let failure = result.expect_err("never succeeds");
    assert_eq!(failure.attempts(), 4);
    assert_eq!(failure.cumulative_delay_ms(), u64::MAX);
}

#[test]
fn a_strategy_that_declines_early_exhausts_the_session() {
    let notified = Rc::new(Cell::new(0u32));
    let notified_clone = Rc::clone(&notified);
    let result = (|| Err::<(), &str>("down"))
        .retry(Reluctant { limit: 10, stop_at: 3 })
        .notify(move |_| notified_clone.set(notified_clone.get() + 1))
        .call_with_sleeper(FnSleeper(|_| {}));
    let failure = result.expect_err("never succeeds");
    assert_eq!(failure.kind(), RetryErrorKind::Exhausted);
    assert_eq!(failure.attempts(), 3);
    assert_eq!(failure.max_attempts(), 10);
    assert_eq!(failure.cumulative_delay_ms(), 10);
    assert_eq!(notified.get(), 2);
}

#[test]
fn the_sleeper_is_handed_each_delay() {
    let total = Rc::new(Cell::new(0u64));
    let calls = Rc::new(Cell::new(0u32));
    let sleeper = Counting { total: Rc::clone(&total), calls: Rc::clone(&calls) };
    let outcome = fails_until(4)
        .retry(
            ExponentialBackoff::new()
                .base_delay_ms(10)
                .multiplier(3 * UNIT)
                .max_attempts(5)
                .jitter_factor(0),
        )
        .call_with_sleeper(sleeper)
        .expect("fourth attempt succeeds");
    assert_eq!(calls.get(), 3);
    assert_eq!(total.get(), 10 + 30 + 90);
    assert_eq!(outcome.cumulative_delay_ms(), 130);
}

#[test]
fn with_jitter_the_sleeps_add_up_to_the_cumulative_delay() {
    for _ in 0..20 {
        let total = Rc::new(Cell::new(0u64));
        let calls = Rc::new(Cell::new(0u32));
        let sleeper = Counting { total: Rc::clone(&total), calls: Rc::clone(&calls) };
        let result = (|| Err::<(), ()>(()))
            .retry(
                ExponentialBackoff::new()
                    .base_delay_ms(1000)
                    .multiplier(2 * UNIT)
                    .max_delay_ms(3000)
                    .max_attempts(6)
                    .jitter_factor(UNIT / 2),
            )
            .call_with_sleeper(sleeper);
        let failure = result.expect_err("never succeeds");
        assert_eq!(failure.attempts(), 6);
        assert_eq!(calls.get(), 5);
        assert_eq!(failure.cumulative_delay_ms(), total.get());
        // bases 1000, 2000, 3000, 3000, 3000, of which at least half is kept
        assert!(total.get() <= 12_000);
        assert!(total.get() >= 6_000);
    }
}

#[test]
fn callbacks_run_in_order() {
    let log = Rc::new(RefCell::new(Vec::new()));
    let from_operation = Rc::clone(&log);
    let from_predicate = Rc::clone(&log);
    let from_notify = Rc::clone(&log);
    let from_sleeper = Rc::clone(&log);
    let from_success = Rc::clone(&log);
    let from_failure = Rc::clone(&log);
    let mut calls = 0u32;
    let outcome = (move || {
        calls += 1;
        from_operation.borrow_mut().push(format!("attempt {}", calls));
        if calls < 3 {
            Err(calls)
        } else {
            Ok("done")
        }
    })
    .retry(ConstantBackoff::new().delay_ms(5).max_attempts(3))
    .when(move |error| {
        from_predicate.borrow_mut().push(format!("judge {}", error));
        true
    })
    .notify(move |ctx| {
        from_notify.borrow_mut().push(format!(
            "notify {} {:?} {} {:?}",
            ctx.attempt, ctx.next_delay_ms, ctx.cumulative_delay_ms, ctx.error
        ));
    })
    .on_success(move |ctx| {
        from_success.borrow_mut().push(format!(
            "success {} {:?} {} {:?}",
            ctx.attempt, ctx.next_delay_ms, ctx.cumulative_delay_ms, ctx.error
        ));
    })
    .on_failure(move |_| from_failure.borrow_mut().push("failure".to_string()))
    .call_with_sleeper(FnSleeper(move |ms| {
        from_sleeper.borrow_mut().push(format!("sleep {}", ms))
    }))
    .expect("third attempt succeeds");
    assert_eq!(outcome.into_inner(), "done");
    let expected = vec![
        "attempt 1",
        "judge 1",
        "notify 1 Some(5) 0 Some(1)",
        "sleep 5",
        "attempt 2",
        "judge 2",
        "notify 2 Some(5) 5 Some(2)",
        "sleep 5",
        "attempt 3",
        "success 3 None 10 None",
    ];
    assert_eq!(*log.borrow(), expected);
}

#[test]
fn the_failure_callback_sees_the_error_returned() {
    let seen = Rc::new(RefCell::new(Vec::new()));
    let seen_clone = Rc::clone(&seen);
    let succeeded = Rc::new(Cell::new(false));
    let succeeded_clone = Rc::clone(&succeeded);
    let result = (|| Err::<(), &str>("down"))
        .retry(ConstantBackoff::new().delay_ms(5).max_attempts(2))
        .on_success(move |_| succeeded_clone.set(true))
        .on_failure(move |failure| {
            seen_clone.borrow_mut().push((
                failure.kind(),
                failure.attempts(),
                failure.max_attempts(),
                failure.cumulative_delay_ms(),
                failure.cause().copied(),
            ));
        })
        .call_with_sleeper(FnSleeper(|_| {}));
    assert!(result.is_err());
    assert!(!succeeded.get());
    assert_eq!(*seen.borrow(), vec![(RetryErrorKind::Exhausted, 2, 2, 5, Some("down"))]);
}

#[test]
fn a_later_setter_takes_the_place_of_an_earlier_one() {
    let first = Rc::new(Cell::new(0u32));
    let second = Rc::new(Cell::new(0u32));
    let first_clone = Rc::clone(&first);
    let second_clone = Rc::clone(&second);
    let result = (|| Err::<(), u8>(1))
        .retry(ConstantBackoff::new().delay_ms(1).max_attempts(3))
        .when(|_| false)
        .when(|_| true)
        .notify(move |_| first_clone.set(first_clone.get() + 1))
        .notify(move |_| second_clone.set(second_clone.get() + 1))
        .call_with_sleeper(FnSleeper(|_| {}));
    let failure = result.expect_err("never succeeds");
    assert_eq!(failure.kind(), RetryErrorKind::Exhausted);
    assert_eq!(failure.attempts(), 3);
    assert_eq!(first.get(), 0);
    assert_eq!(second.get(), 2);
}

#[test]
fn two_sessions_of_a_pure_operation_end_alike() {
    let strategy = FibonacciBackoff::new().base_delay_ms(7).max_attempts(6).jitter_factor(0);
    let run = || {
        (|| Err::<(), &str>("down"))
            .retry(strategy)
            .call_with_sleeper(FnSleeper(|_| {}))
            .expect_err("never succeeds")
    };
    let first = run();
    let second = run();
    assert_eq!(first.attempts(), second.attempts());
    assert_eq!(first.cumulative_delay_ms(), second.cumulative_delay_ms());
    assert_eq!(first.kind(), second.kind());
    assert_eq!(first.attempts(), 6);
    assert_eq!(first.cumulative_delay_ms(), 7 * (1 + 1 + 2 + 3 + 5));

    let run = || {
        (|| Ok::<u8, &str>(4))
            .retry(strategy)
            .call_with_sleeper(FnSleeper(|_| {}))
            .expect("succeeds at once")
    };
    let first = run();
    let second = run();
    assert_eq!(first.attempts(), second.attempts());
    assert_eq!(first.cumulative_delay_ms(), second.cumulative_delay_ms());
    assert_eq!(first.attempts(), 1);
    assert_eq!(first.cumulative_delay_ms(), 0);
}

#[test]
fn failure_messages() {
    let exhausted = (|| Err::<(), &str>("connection refused"))
        .retry(ConstantBackoff::new().delay_ms(10).max_attempts(3))
        .call_with_sleeper(FnSleeper(|_| {}))
        .expect_err("never succeeds");
    assert_eq!(
        exhausted.summary(),
        "retry exhausted after 3 of 3 attempts (cumulative delay 20ms)"
    );
    assert_eq!(
        exhausted.message(|cause| cause.to_string()),
        "retry exhausted after 3 of 3 attempts (cumulative delay 20ms): connection refused"
    );

    let rejected = (|| Err::<(), u32>(404))
        .retry(ConstantBackoff::new().delay_ms(10).max_attempts(3))
        .when(|_| false)
        .call_with_sleeper(FnSleeper(|_| {}))
        .expect_err("never succeeds");
    assert_eq!(
        rejected.summary(),
        "retry aborted by predicate on attempt 1 (cumulative delay 0ms)"
    );
    assert_eq!(
        rejected.message(|cause| format!("status {}", cause)),
        "retry aborted by predicate on attempt 1 (cumulative delay 0ms): status 404"
    );
}

#[test]
fn the_error_gives_up_its_cause() {
    let failure = (|| Err::<(), String>("down".to_string()))
        .retry(ConstantBackoff::new().max_attempts(1))
        .call_with_sleeper(FnSleeper(|_| {}))
        .expect_err("never succeeds");
    assert_eq!(failure.cause().map(|c| c.as_str()), Some("down"));
    let copy = failure.clone();
    assert_eq!(copy.attempts(), failure.attempts());
    assert_eq!(failure.into_cause(), Some("down".to_string()));
    assert_eq!(copy.into_cause(), Some("down".to_string()));
}
