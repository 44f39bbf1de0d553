use chrono_machines::backoff::{ConstantBackoff, ExponentialBackoff};
use chrono_machines::retry::{RetryErrorKind, Retryable, RetryableExt};
use chrono_machines::sleep::FnSleeper;
use std::cell::{Cell, RefCell};
use std::rc::Rc;

#[derive(Debug, PartialEq)]
enum TestError {
    Retryable,
    Fatal,
}

fn always_succeeds() -> Result<i32, TestError> {
    Ok(42)
}

fn always_fails() -> Result<i32, TestError> {
    Err(TestError::Retryable)
}

fn always_fails_unit() -> Result<(), TestError> {
    Err(TestError::Retryable)
}

fn fails_with_fatal() -> Result<i32, TestError> {
    Err(TestError::Fatal)
}

fn succeeds_with_99() -> Result<i32, TestError> {
    Ok(99)
}

fn succeeds_with_text() -> Result<String, TestError> {
    Ok("success".to_string())
}

#[test]
fn test_retry_success_on_first_attempt() {
    let result = always_succeeds
        .retry(ExponentialBackoff::default())
        .call_with_sleeper(FnSleeper(|_| {}));

    let outcome = result.expect("retry should succeed");
    assert_eq!(outcome.attempts(), 1);
    assert_eq!(outcome.into_inner(), 42);
}

#[test]
fn test_retry_success_after_failures() {
    let attempts = Cell::new(0);

    let operation = || {
        let current = attempts.get();
        attempts.set(current + 1);

        if current < 2 {
            Err(TestError::Retryable)
        } else {
            Ok(42)
        }
    };

    let result = operation
        .retry(ExponentialBackoff::default().max_attempts(3))
        .call_with_sleeper(FnSleeper(|_| {}));

    let outcome = result.expect("retry should succeed");
    assert_eq!(outcome.attempts(), 3);
    assert_eq!(outcome.into_inner(), 42);
    assert_eq!(attempts.get(), 3);
}

// Under full jitter a delay is drawn between zero and its base, so a session
// may by chance sleep for no time at all. Where the time slept is to be seen,
// the session is run again, up to this many times, until one has slept.
const SESSIONS: usize = 16;

#[test]
fn test_retry_exhausted() {
    let mut cumulative_delay_ms = 0;
    for _ in 0..SESSIONS {
        let result = always_fails
            .retry(ExponentialBackoff::default().max_attempts(3))
            .call_with_sleeper(FnSleeper(|_| {}));

        let err = result.expect_err("retry should exhaust");
        assert_eq!(err.kind(), RetryErrorKind::Exhausted);
        assert_eq!(err.attempts(), 3);
        assert_eq!(err.max_attempts(), 3);
        if let Some(cause) = err.cause() {
            assert_eq!(cause, &TestError::Retryable);
        } else {
            panic!("expected underlying cause");
        }
        cumulative_delay_ms = err.cumulative_delay_ms();
        if cumulative_delay_ms > 0 {
            break;
        }
    }
    assert!(cumulative_delay_ms > 0);
}

#[test]
fn test_retry_when_predicate() {
    let result = fails_with_fatal
        .retry(ExponentialBackoff::default())
        .when(|e| matches!(e, TestError::Retryable))
        .call_with_sleeper(FnSleeper(|_| {}));

    let err = result.expect_err("retry should stop due to predicate");
    assert_eq!(err.kind(), RetryErrorKind::PredicateRejected);
    if let Some(cause) = err.cause() {
        assert_eq!(cause, &TestError::Fatal);
    } else {
        panic!("expected underlying cause");
    }
}

#[test]
fn test_retry_notify_callback() {
    let attempts = Cell::new(0);
    let notify_calls = Rc::new(RefCell::new(Vec::new()));
    let notify_calls_clone = Rc::clone(&notify_calls);

    let operation = || {
        let current = attempts.get();
        attempts.set(current + 1);

        if current < 2 {
            Err(TestError::Retryable)
        } else {
            Ok(42)
        }
    };

    let result = operation
        .retry(ExponentialBackoff::default().max_attempts(3))
        .notify(move |ctx| {
            notify_calls_clone.borrow_mut().push((
                ctx.attempt,
                ctx.next_delay_ms,
                ctx.cumulative_delay_ms,
                ctx.error.is_some(),
            ));
            assert!(ctx.attempt >= 1);
            assert!(ctx.next_delay_ms.is_some());
            assert!(ctx.error.is_some());
        })
        .call_with_sleeper(FnSleeper(|_| {}));

    let outcome = result.expect("retry should succeed");
    assert_eq!(outcome.attempts(), 3);

    let calls = notify_calls.borrow();
    assert_eq!(calls.len(), 2);
    assert_eq!(calls[0].0, 1);
    assert_eq!(calls[1].0, 2);
}

#[test]
fn test_on_success_callback_invoked() {
    let mut cumulative_delay_seen = 0;
    for _ in 0..SESSIONS {
        let success_attempt = Rc::new(Cell::new(0usize));
        let success_cumulative_delay = Rc::new(Cell::new(0usize));
        let success_attempt_clone = Rc::clone(&success_attempt);
        let success_cumulative_delay_clone = Rc::clone(&success_cumulative_delay);

        let attempts = Cell::new(0);

        let operation = || {
            let current = attempts.get();
            attempts.set(current + 1);

            if current < 1 {
                Err(TestError::Retryable)
            } else {
                Ok(7)
            }
        };

        let outcome = operation
            .retry(ExponentialBackoff::default().max_attempts(3))
            .on_success(move |ctx| {
                success_attempt_clone.set(ctx.attempt as usize);
                success_cumulative_delay_clone.set(ctx.cumulative_delay_ms as usize);
                assert!(ctx.error.is_none());
                assert!(ctx.next_delay_ms.is_none());
            })
            .call_with_sleeper(FnSleeper(|_| {}))
            .expect("retry should succeed");

        assert_eq!(outcome.cumulative_delay_ms() as usize, success_cumulative_delay.get());
        assert_eq!(outcome.into_inner(), 7);
        assert_eq!(success_attempt.get(), 2);
        cumulative_delay_seen = success_cumulative_delay.get();
        if cumulative_delay_seen > 0 {
            break;
        }
    }
    assert!(cumulative_delay_seen > 0);
}

#[test]
fn test_on_failure_callback_invoked() {
    let mut cumulative_delay_seen = 0;
    for _ in 0..SESSIONS {
        let failure_kind = Rc::new(Cell::new(0usize));
        let failure_cumulative_delay = Rc::new(Cell::new(0usize));
        let failure_kind_clone = Rc::clone(&failure_kind);
        let failure_cumulative_delay_clone = Rc::clone(&failure_cumulative_delay);

        let result = always_fails_unit
            .retry(ExponentialBackoff::default().max_attempts(2))
            .on_failure(move |err| {
                let marker = match err.kind() {
                    RetryErrorKind::Exhausted => 1,
                    RetryErrorKind::PredicateRejected => 2,
                };
                failure_kind_clone.set(marker);
                failure_cumulative_delay_clone.set(err.cumulative_delay_ms() as usize);
            })
            .call_with_sleeper(FnSleeper(|_| {}));

        assert!(result.is_err());
        assert_eq!(failure_kind.get(), 1);
        cumulative_delay_seen = failure_cumulative_delay.get();
        if cumulative_delay_seen > 0 {
            break;
        }
    }
    assert!(cumulative_delay_seen > 0);
}

#[test]
fn test_constant_backoff_retry() {
    let attempts = Cell::new(0);

    let operation = || {
        let current = attempts.get();
        attempts.set(current + 1);

        if current < 1 {
            Err(TestError::Retryable)
        } else {
            Ok(42)
        }
    };

    let result = operation
        .retry(ConstantBackoff::new().delay_ms(10).max_attempts(2))
        .call_with_sleeper(FnSleeper(|_| {}));

    let outcome = result.expect("retry should succeed");
    assert_eq!(outcome.attempts(), 2);
    assert_eq!(outcome.into_inner(), 42);
    assert_eq!(attempts.get(), 2);
}

#[test]
fn test_retry_context_comprehensive() {
    let attempts = Cell::new(0);
    let notify_contexts = Rc::new(RefCell::new(Vec::new()));
    let notify_contexts_clone = Rc::clone(&notify_contexts);

    let operation = || {
        let current = attempts.get();
        attempts.set(current + 1);

        if current < 3 {
            Err(TestError::Retryable)
        } else {
            Ok(42)
        }
    };

    let result = operation
        .retry(
            ConstantBackoff::new()
                .delay_ms(100)
                .max_attempts(5)
                .jitter_factor(0),
        )
        .notify(move |ctx| {
            notify_contexts_clone.borrow_mut().push((
                ctx.attempt,
                ctx.next_delay_ms,
                ctx.cumulative_delay_ms,
            ));

            assert!(ctx.error.is_some());
            if let Some(err) = ctx.error {
                assert_eq!(err, &TestError::Retryable);
            }
        })
        .call_with_sleeper(FnSleeper(|_| {}));

    let outcome = result.expect("retry should succeed");
    assert_eq!(outcome.attempts(), 4);

    let contexts = notify_contexts.borrow();
    assert_eq!(contexts.len(), 3);

    assert_eq!(contexts[0].0, 1);
    assert_eq!(contexts[0].1, Some(100));
    assert_eq!(contexts[0].2, 0);

    assert_eq!(contexts[1].0, 2);
    assert_eq!(contexts[1].1, Some(100));
    assert_eq!(contexts[1].2, 100);

    assert_eq!(contexts[2].0, 3);
    assert_eq!(contexts[2].1, Some(100));
    assert_eq!(contexts[2].2, 200);
}

#[test]
fn test_retry_context_on_success() {
    let attempts = Cell::new(0);
    let success_context = Rc::new(RefCell::new(None));
    let success_context_clone = Rc::clone(&success_context);

    let operation = || {
        let current = attempts.get();
        attempts.set(current + 1);

        if current < 2 {
            Err(TestError::Retryable)
        } else {
            Ok(100)
        }
    };

    let result = operation
        .retry(
            ConstantBackoff::new()
                .delay_ms(50)
                .max_attempts(5)
                .jitter_factor(0),
        )
        .on_success(move |ctx| {
            success_context_clone.borrow_mut().replace((
                ctx.attempt,
                ctx.next_delay_ms,
                ctx.cumulative_delay_ms,
                ctx.error.is_none(),
            ));
        })
        .call_with_sleeper(FnSleeper(|_| {}));

    let outcome = result.expect("retry should succeed");
    assert_eq!(outcome.attempts(), 3);
    assert_eq!(outcome.cumulative_delay_ms(), 100);

    let ctx = success_context.borrow();
    assert!(ctx.is_some());
    let (attempt, next_delay, cumulative, no_error) = ctx.unwrap();
    assert_eq!(attempt, 3);
    assert_eq!(next_delay, None);
    assert_eq!(cumulative, 100);
    assert!(no_error);
}

#[test]
fn test_retry_context_cumulative_accuracy() {
    let attempts = Cell::new(0);
    let cumulative_progression = Rc::new(RefCell::new(Vec::new()));
    let cumulative_progression_clone = Rc::clone(&cumulative_progression);

    let operation = || {
        let current = attempts.get();
        attempts.set(current + 1);
        Err::<(), TestError>(TestError::Retryable)
    };

    let _result = operation
        .retry(
            ConstantBackoff::new()
                .delay_ms(25)
                .max_attempts(4)
                .jitter_factor(0),
        )
        .notify(move |ctx| {
            cumulative_progression_clone
                .borrow_mut()
                .push(ctx.cumulative_delay_ms);
        })
        .call_with_sleeper(FnSleeper(|_| {}));

    let progression = cumulative_progression.borrow();
    assert_eq!(progression.len(), 3);
    assert_eq!(progression[0], 0);
    assert_eq!(progression[1], 25);
    assert_eq!(progression[2], 50);
}

#[test]
fn test_with_exponential_success() {
    let result = always_succeeds
        .with_exponential()
        .call_with_sleeper(FnSleeper(|_| {}));

    let outcome = result.expect("retry should succeed");
    assert_eq!(outcome.attempts(), 1);
    assert_eq!(outcome.into_inner(), 42);
}

#[test]
fn test_with_exponential_retry_behavior() {
    let attempts = Cell::new(0);

    let operation = || {
        let current = attempts.get();
        attempts.set(current + 1);

        if current < 2 {
            Err(TestError::Retryable)
        } else {
            Ok(100)
        }
    };

    let result = operation
        .with_exponential()
        .call_with_sleeper(FnSleeper(|_| {}));

    let outcome = result.expect("retry should succeed");
    assert_eq!(outcome.attempts(), 3);
    assert_eq!(outcome.into_inner(), 100);
    assert_eq!(attempts.get(), 3);
}

#[test]
fn test_with_exponential_exhausted() {
    let result = always_fails
        .with_exponential()
        .call_with_sleeper(FnSleeper(|_| {}));

    let err = result.expect_err("retry should exhaust");
    assert_eq!(err.kind(), RetryErrorKind::Exhausted);
    assert_eq!(err.attempts(), 3);
    assert_eq!(err.max_attempts(), 3);
}

#[test]
fn test_with_exponential_chaining() {
    let attempts = Cell::new(0);

    let operation = || {
        let current = attempts.get();
        attempts.set(current + 1);

        if current < 1 {
            Err(TestError::Retryable)
        } else {
            Ok(7)
        }
    };

    let result = operation
        .with_exponential()
        .when(|e| matches!(e, TestError::Retryable))
        .call_with_sleeper(FnSleeper(|_| {}));

    let outcome = result.expect("retry should succeed");
    assert_eq!(outcome.attempts(), 2);
    assert_eq!(outcome.into_inner(), 7);
}

#[test]
fn test_with_constant_success() {
    let result = succeeds_with_99
        .with_constant(250)
        .call_with_sleeper(FnSleeper(|_| {}));

    let outcome = result.expect("retry should succeed");
    assert_eq!(outcome.attempts(), 1);
    assert_eq!(outcome.into_inner(), 99);
}

#[test]
fn test_with_constant_uses_correct_delay() {
    let attempts = Cell::new(0);
    let delays = Rc::new(RefCell::new(Vec::new()));
    let delays_clone = Rc::clone(&delays);

    let operation = || {
        let current = attempts.get();
        attempts.set(current + 1);

        if current < 2 {
            Err(TestError::Retryable)
        } else {
            Ok(42)
        }
    };

    let result = operation
        .with_constant(500)
        .notify(move |ctx| {
            if let Some(delay) = ctx.next_delay_ms {
                delays_clone.borrow_mut().push(delay);
            }
        })
        .call_with_sleeper(FnSleeper(|_| {}));

    let outcome = result.expect("retry should succeed");
    assert_eq!(outcome.attempts(), 3);

    let recorded_delays = delays.borrow();
    assert_eq!(recorded_delays.len(), 2);
    assert_eq!(recorded_delays[0], 500);
    assert_eq!(recorded_delays[1], 500);
}

#[test]
fn test_with_constant_chaining() {
    let attempts = Cell::new(0);

    let operation = || {
        let current = attempts.get();
        attempts.set(current + 1);

        if current < 1 {
            Err(TestError::Fatal)
        } else {
            Ok(123)
        }
    };

    let result = operation
        .with_constant(100)
        .when(|e| matches!(e, TestError::Retryable))
        .call_with_sleeper(FnSleeper(|_| {}));

    let err = result.expect_err("retry should fail due to predicate");
    assert_eq!(err.kind(), RetryErrorKind::PredicateRejected);
    assert_eq!(err.attempts(), 1);
}

#[test]
fn test_with_fibonacci_success() {
    let result = succeeds_with_text
        .with_fibonacci()
        .call_with_sleeper(FnSleeper(|_| {}));

    let outcome = result.expect("retry should succeed");
    assert_eq!(outcome.attempts(), 1);
    assert_eq!(outcome.into_inner(), "success");
}

#[test]
fn test_with_fibonacci_retry_behavior() {
    let attempts = Cell::new(0);

    let operation = || {
        let current = attempts.get();
        attempts.set(current + 1);

        if current < 3 {
            Err(TestError::Retryable)
        } else {
            Ok(777)
        }
    };

    let result = operation
        .with_fibonacci()
        .call_with_sleeper(FnSleeper(|_| {}));

    let outcome = result.expect("retry should succeed");
    assert_eq!(outcome.attempts(), 4);
    assert_eq!(outcome.into_inner(), 777);
}

#[test]
fn test_with_fibonacci_exhausted() {
    let result = always_fails
        .with_fibonacci()
        .call_with_sleeper(FnSleeper(|_| {}));

    let err = result.expect_err("retry should exhaust");
    assert_eq!(err.kind(), RetryErrorKind::Exhausted);
    assert_eq!(err.attempts(), 8);
    assert_eq!(err.max_attempts(), 8);
}

#[test]
fn test_with_fibonacci_chaining() {
    let success_count = Rc::new(Cell::new(0usize));
    let success_count_clone = Rc::clone(&success_count);
    let attempts = Cell::new(0);

    let operation = || {
        let current = attempts.get();
        attempts.set(current + 1);

        if current < 2 {
            Err(TestError::Retryable)
        } else {
            Ok(555)
        }
    };

    let result = operation
        .with_fibonacci()
        .on_success(move |_ctx| {
            success_count_clone.set(success_count_clone.get() + 1);
        })
        .call_with_sleeper(FnSleeper(|_| {}));

    let outcome = result.expect("retry should succeed");
    assert_eq!(outcome.attempts(), 3);
    assert_eq!(outcome.into_inner(), 555);
    assert_eq!(success_count.get(), 1);
}

#[test]
fn test_all_extension_methods_produce_working_retries() {
    let attempts_exp = Cell::new(0);
    let op_exp = || {
        let current = attempts_exp.get();
        attempts_exp.set(current + 1);
        if current < 1 {
            Err(TestError::Retryable)
        } else {
            Ok(1)
        }
    };

    let attempts_const = Cell::new(0);
    let op_const = || {
        let current = attempts_const.get();
        attempts_const.set(current + 1);
        if current < 1 {
            Err(TestError::Retryable)
        } else {
            Ok(2)
        }
    };

    let attempts_fib = Cell::new(0);
    let op_fib = || {
        let current = attempts_fib.get();
        attempts_fib.set(current + 1);
        if current < 1 {
            Err(TestError::Retryable)
        } else {
            Ok(3)
        }
    };

    let r1 = op_exp
        .with_exponential()
        .call_with_sleeper(FnSleeper(|_| {}))
        .expect("exponential retry works");

    let r2 = op_const
        .with_constant(100)
        .call_with_sleeper(FnSleeper(|_| {}))
        .expect("constant retry works");

    let r3 = op_fib
        .with_fibonacci()
        .call_with_sleeper(FnSleeper(|_| {}))
        .expect("fibonacci retry works");

    assert_eq!(r1.into_inner(), 1);
    assert_eq!(r2.into_inner(), 2);
    assert_eq!(r3.into_inner(), 3);
}
