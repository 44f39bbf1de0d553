//! What follows from the result of a retry session.

use crate::backoff::BackoffStrategy;
use crate::retry::{
    capped_total,
    ends_with,
    retried,
    retried_at,
    session,
    RetryError,
    RetryErrorKind,
    RetryFilter,
    RetryOutcome,
};
use vstd::prelude::*;

verus! {

/// The attempt at which a session ended.
pub open spec fn attempts_of<T, E>(result: Result<RetryOutcome<T>, RetryError<E>>) -> u8 {
    match result {
        Ok(outcome) => outcome@.attempts,
        Err(failure) => failure@.attempts,
    }
}

/// The milliseconds slept before a session ended.
pub open spec fn delay_of<T, E>(result: Result<RetryOutcome<T>, RetryError<E>>) -> u64 {
    match result {
        Ok(outcome) => outcome@.cumulative_delay_ms,
        Err(failure) => failure@.cumulative_delay_ms,
    }
}

/// The delays that `schedule` gives to the attempts from the first to `count`.
pub open spec fn scheduled(schedule: spec_fn(u8) -> u64, count: nat) -> Seq<u64> {
    Seq::new(count, |i: int| schedule((i + 1) as u8))
}

/// A session ends at an attempt between one and 255 and never beyond the
/// strategy's limit, unless that limit is zero; a failure carries its cause
/// and the strategy's limit.
pub proof fn lemma_session_counts<F, B, T, E, W>(
    op: F,
    strategy: B,
    filter: W,
    result: Result<RetryOutcome<T>, RetryError<E>>,
) where F: FnMut() -> Result<T, E>, B: BackoffStrategy, W: RetryFilter<E>
    requires
        session(op, strategy, filter, result),
    ensures
        1 <= attempts_of(result),
        attempts_of(result) <= strategy.attempt_limit() || attempts_of(result) == 1,
        result matches Err(failure) ==> failure@.cause is Some && failure@.max_attempts
            == strategy.attempt_limit(),
{
    let (errors, delays) = choose|errors: Seq<E>, delays: Seq<u64>|
        #[trigger] retried::<F, B, T, E, W>(op, strategy, filter, errors, delays) && ends_with(
            op,
            strategy,
            filter,
            errors,
            delays,
            result,
        );
    if errors.len() > 0 {
        let last = errors.len() - 1;
        assert(retried_at::<F, B, T, E, W>(op, strategy, filter, last, errors[last], delays[last]));
    }
}

/// Where the predicate accepts none of the errors that the operation can
/// fail with, the session ends at the first attempt and without a sleep:
/// with success, or rejected by the predicate.
pub proof fn lemma_rejected_at_first_attempt<F, B, T, E, W>(
    op: F,
    strategy: B,
    filter: W,
    result: Result<RetryOutcome<T>, RetryError<E>>,
) where F: FnMut() -> Result<T, E>, B: BackoffStrategy, W: RetryFilter<E>
    requires
        session(op, strategy, filter, result),
        forall|e: E| call_ensures(op, (), Err::<T, E>(e)) ==> !filter.decides(&e, true),
    ensures
        attempts_of(result) == 1,
        delay_of(result) == 0,
        result matches Err(failure) ==> failure@.kind == RetryErrorKind::PredicateRejected,
{
    let (errors, delays) = choose|errors: Seq<E>, delays: Seq<u64>|
        #[trigger] retried::<F, B, T, E, W>(op, strategy, filter, errors, delays) && ends_with(
            op,
            strategy,
            filter,
            errors,
            delays,
            result,
        );
    if errors.len() > 0 {
        assert(retried_at::<F, B, T, E, W>(op, strategy, filter, 0, errors[0], delays[0]));
    }
    assert(delays =~= Seq::<u64>::empty());
}

/// Where the operation never succeeds, the predicate rejects nothing and the
/// strategy declines only at its limit, the session ends exhausted, with the
/// last cause, at the attempt that reaches the limit (at the first attempt
/// where the limit is zero).
pub proof fn lemma_exhausted_at_limit<F, B, T, E, W>(
    op: F,
    strategy: B,
    filter: W,
    result: Result<RetryOutcome<T>, RetryError<E>>,
) where F: FnMut() -> Result<T, E>, B: BackoffStrategy, W: RetryFilter<E>
    requires
        session(op, strategy, filter, result),
        forall|v: T| !call_ensures(op, (), Ok::<T, E>(v)),
        forall|e: E| !filter.decides(&e, false),
        forall|a: u8| a < strategy.attempt_limit() ==> !strategy.may_delay(a, None),
    ensures
        result matches Err(failure) && {
            &&& failure@.kind == RetryErrorKind::Exhausted
            &&& failure@.cause is Some
            &&& failure@.max_attempts == strategy.attempt_limit()
            &&& failure@.attempts == if strategy.attempt_limit() == 0 {
                1
            } else {
                strategy.attempt_limit()
            }
        },
{
    let (errors, delays) = choose|errors: Seq<E>, delays: Seq<u64>|
        #[trigger] retried::<F, B, T, E, W>(op, strategy, filter, errors, delays) && ends_with(
            op,
            strategy,
            filter,
            errors,
            delays,
            result,
        );
    if errors.len() > 0 {
        let last = errors.len() - 1;
        assert(retried_at::<F, B, T, E, W>(op, strategy, filter, last, errors[last], delays[last]));
    }
}

/// Where the strategy's delays are fixed by `schedule`, as they are without
/// jitter, the cumulative delay of a session is the sum of the scheduled
/// delays of all attempts before the last.
pub proof fn lemma_cumulative_delay<F, B, T, E, W>(
    op: F,
    strategy: B,
    filter: W,
    result: Result<RetryOutcome<T>, RetryError<E>>,
    schedule: spec_fn(u8) -> u64,
) where F: FnMut() -> Result<T, E>, B: BackoffStrategy, W: RetryFilter<E>
    requires
        session(op, strategy, filter, result),
        forall|a: u8, d: u64| strategy.may_delay(a, Some(d)) ==> d == schedule(a),
    ensures
        delay_of(result) == capped_total(scheduled(schedule, (attempts_of(result) - 1) as nat)),
{
    let (errors, delays) = choose|errors: Seq<E>, delays: Seq<u64>|
        #[trigger] retried::<F, B, T, E, W>(op, strategy, filter, errors, delays) && ends_with(
            op,
            strategy,
            filter,
            errors,
            delays,
            result,
        );
    let expected = scheduled(schedule, errors.len());
    assert forall|i: int| 0 <= i < delays.len() implies delays[i] == expected[i] by {
        assert(retried_at::<F, B, T, E, W>(op, strategy, filter, i, errors[i], delays[i]));
    }
    assert(delays =~= expected);
}

/// A session that the retried attempts `longer` describe cannot have gone on
/// beyond the end of another session of the same pure operation, predicate
/// and strategy.
proof fn lemma_not_longer<F, B, T, E, W>(
    op: F,
    strategy: B,
    filter: W,
    errors: Seq<E>,
    delays: Seq<u64>,
    result: Result<RetryOutcome<T>, RetryError<E>>,
    longer: Seq<E>,
    longer_delays: Seq<u64>,
) where F: FnMut() -> Result<T, E>, B: BackoffStrategy, W: RetryFilter<E>
    requires
        retried::<F, B, T, E, W>(op, strategy, filter, errors, delays),
        ends_with(op, strategy, filter, errors, delays, result),
        retried::<F, B, T, E, W>(op, strategy, filter, longer, longer_delays),
        forall|r1: Result<T, E>, r2: Result<T, E>|
            call_ensures(op, (), r1) && call_ensures(op, (), r2) ==> r1 == r2,
        forall|e: E, a: bool, b: bool| filter.decides(&e, a) && filter.decides(&e, b) ==> a == b,
        forall|a: u8, x: Option<u64>, y: Option<u64>|
            strategy.may_delay(a, x) && strategy.may_delay(a, y) ==> x == y,
    ensures
        longer.len() <= errors.len(),
{
    if longer.len() > errors.len() {
        let k = errors.len() as int;
        assert(retried_at::<F, B, T, E, W>(op, strategy, filter, k, longer[k], longer_delays[k]));
        let retried_result = Err::<T, E>(longer[k]);
        match result {
            Ok(outcome) => {
                assert(Ok::<T, E>(outcome@.value) == retried_result);
            },
            Err(failure) => {
                let cause = failure@.cause->Some_0;
                assert(Err::<T, E>(cause) == retried_result);
                assert(cause == longer[k]);
            },
        }
    }
}

/// Two sessions of the same pure operation, under a predicate with one answer
/// per error and a strategy with one answer per attempt (as it has without
/// jitter), end alike: at the same attempt, after the same cumulative delay,
/// both in success or both in failures of the same kind.
pub proof fn lemma_sessions_agree<F, B, T, E, W>(
    op: F,
    strategy: B,
    filter: W,
    first: Result<RetryOutcome<T>, RetryError<E>>,
    second: Result<RetryOutcome<T>, RetryError<E>>,
) where F: FnMut() -> Result<T, E>, B: BackoffStrategy, W: RetryFilter<E>
    requires
        session(op, strategy, filter, first),
        session(op, strategy, filter, second),
        forall|r1: Result<T, E>, r2: Result<T, E>|
            call_ensures(op, (), r1) && call_ensures(op, (), r2) ==> r1 == r2,
        forall|e: E, a: bool, b: bool| filter.decides(&e, a) && filter.decides(&e, b) ==> a == b,
        forall|a: u8, x: Option<u64>, y: Option<u64>|
            strategy.may_delay(a, x) && strategy.may_delay(a, y) ==> x == y,
    ensures
        attempts_of(first) == attempts_of(second),
        delay_of(first) == delay_of(second),
        first is Ok <==> second is Ok,
        first matches Err(f1) ==> second matches Err(f2) && f1@.kind == f2@.kind && f1@.cause
            == f2@.cause,
        first matches Ok(o1) ==> second matches Ok(o2) && o1@.value == o2@.value,
{
    let (e1, d1) = choose|errors: Seq<E>, delays: Seq<u64>|
        #[trigger] retried::<F, B, T, E, W>(op, strategy, filter, errors, delays) && ends_with(
            op,
            strategy,
            filter,
            errors,
            delays,
            first,
        );
    let (e2, d2) = choose|errors: Seq<E>, delays: Seq<u64>|
        #[trigger] retried::<F, B, T, E, W>(op, strategy, filter, errors, delays) && ends_with(
            op,
            strategy,
            filter,
            errors,
            delays,
            second,
        );
    lemma_not_longer(op, strategy, filter, e1, d1, first, e2, d2);
    lemma_not_longer(op, strategy, filter, e2, d2, second, e1, d1);
    assert forall|i: int| 0 <= i < d1.len() implies d1[i] == d2[i] by {
        assert(retried_at::<F, B, T, E, W>(op, strategy, filter, i, e1[i], d1[i]));
        assert(retried_at::<F, B, T, E, W>(op, strategy, filter, i, e2[i], d2[i]));
        assert(Some(d1[i]) == Some(d2[i]));
    }
    assert(d1 =~= d2);
    match (first, second) {
        (Ok(o1), Ok(o2)) => {
            assert(Ok::<T, E>(o1@.value) == Ok::<T, E>(o2@.value));
        },
        (Ok(o1), Err(f2)) => {
            assert(Ok::<T, E>(o1@.value) == Err::<T, E>(f2@.cause->Some_0));
        },
        (Err(f1), Ok(o2)) => {
            assert(Ok::<T, E>(o2@.value) == Err::<T, E>(f1@.cause->Some_0));
        },
        (Err(f1), Err(f2)) => {
            assert(Err::<T, E>(f1@.cause->Some_0) == Err::<T, E>(f2@.cause->Some_0));
        },
    }
}

} // verus!
