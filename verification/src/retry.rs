//! The retry engine: runs an operation until it succeeds, its error is judged
//! not worth a retry, or the backoff strategy allows no further attempt.

use crate::backoff::{BackoffStrategy, ConstantBackoff, ExponentialBackoff, FibonacciBackoff};
use crate::random::session_rng;
use crate::sleep::Sleeper;
use crate::text::{decimal, decimal_text};
use core::marker::PhantomData;
use rand::rngs::SmallRng;
use vstd::prelude::*;
use vstd::string::StringExecFns;

verus! {

/// Why a retry session ended in failure.
#[derive(Debug, Clone, Copy, PartialEq, Eq, Structural)]
pub enum RetryErrorKind {
    /// The backoff strategy allowed no further attempt.
    Exhausted,
    /// The retry predicate judged the error not worth a retry.
    PredicateRejected,
}

/// What a callback is shown of the session.
#[derive(Debug)]
pub struct RetryContext<'a, E> {
    /// The current attempt, counted from one.
    pub attempt: u8,
    /// The delay about to be slept; absent on success.
    pub next_delay_ms: Option<u64>,
    /// The milliseconds slept between attempts so far.
    pub cumulative_delay_ms: u64,
    /// The error that caused the retry; absent on success.
    pub error: Option<&'a E>,
}

/// What a [`RetryError`] holds.
pub struct RetryFailure<E> {
    pub kind: RetryErrorKind,
    pub attempts: u8,
    pub max_attempts: u8,
    pub cumulative_delay_ms: u64,
    pub cause: Option<E>,
}

/// How a failed session ended and after what delay, in words.
pub open spec fn headline<E>(failure: RetryFailure<E>) -> Seq<char> {
    (match failure.kind {
        RetryErrorKind::Exhausted => "retry exhausted after "@ + decimal(failure.attempts as nat)
            + " of "@ + decimal(failure.max_attempts as nat) + " attempts"@,
        RetryErrorKind::PredicateRejected => "retry aborted by predicate on attempt "@ + decimal(
            failure.attempts as nat,
        ),
    }) + " (cumulative delay "@ + decimal(failure.cumulative_delay_ms as nat) + "ms)"@
}

/// The failure of a retry session, with the last cause and the session's counts.
#[derive(Debug, Clone)]
pub struct RetryError<E> {
    kind: RetryErrorKind,
    attempts: u8,
    max_attempts: u8,
    cumulative_delay_ms: u64,
    cause: Option<E>,
}

impl<E> View for RetryError<E> {
    type V = RetryFailure<E>;

    closed spec fn view(&self) -> RetryFailure<E> {
        RetryFailure {
            kind: self.kind,
            attempts: self.attempts,
            max_attempts: self.max_attempts,
            cumulative_delay_ms: self.cumulative_delay_ms,
            cause: self.cause,
        }
    }
}

impl<E> RetryError<E> {
    pub(crate) fn new(
        kind: RetryErrorKind,
        attempts: u8,
        max_attempts: u8,
        cumulative_delay_ms: u64,
        cause: Option<E>,
    ) -> (r: Self)
        ensures
            r@ == (RetryFailure { kind, attempts, max_attempts, cumulative_delay_ms, cause }),
    {
        RetryError { kind, attempts, max_attempts, cumulative_delay_ms, cause }
    }

    /// How the session ended and after what delay, in words.
    pub fn summary(&self) -> (text: String)
        ensures
            text@ == headline(self@),
    {
        let mut text: String = match self.kind {
            RetryErrorKind::Exhausted => {
                let mut line: String = String::from_str("retry exhausted after ");
                line.append(decimal_text(self.attempts as u64).as_str());
                line.append(" of ");
                line.append(decimal_text(self.max_attempts as u64).as_str());
                line.append(" attempts");
                line
            },
            RetryErrorKind::PredicateRejected => {
                let mut line: String = String::from_str("retry aborted by predicate on attempt ");
                line.append(decimal_text(self.attempts as u64).as_str());
                line
            },
        };
        text.append(" (cumulative delay ");
        text.append(decimal_text(self.cumulative_delay_ms).as_str());
        text.append("ms)");
        assert(text@ =~= headline(self@));
        text
    }

    /// The summary, followed by a colon and the cause as `show` words it.
    pub fn message<R: Fn(&E) -> String>(&self, show: R) -> (text: String)
        requires
            self@.cause matches Some(cause) ==> call_requires(show, (&cause,)),
        ensures
            match self@.cause {
                Some(cause) => exists|shown: String|
                    call_ensures(show, (&cause,), shown) && text@ == headline(self@) + ": "@
                        + shown@,
                None => text@ == headline(self@),
            },
    {
        let mut text: String = self.summary();
        match &self.cause {
            Some(cause) => {
                let shown: String = show(cause);
                text.append(": ");
                text.append(shown.as_str());
                assert(call_ensures(show, (cause,), shown) && text@ == headline(self@) + ": "@
                    + shown@);
            },
            None => {},
        }
        text
    }

    /// The error of the last attempt.
    pub fn cause(&self) -> (r: Option<&E>)
        ensures
            r == match self@.cause {
                Some(c) => Some(&c),
                None => None,
            },
    {
        self.cause.as_ref()
    }

    /// Gives up the session's counts and keeps the error of the last attempt.
    pub fn into_cause(self) -> (r: Option<E>)
        ensures
            r == self@.cause,
    {
        self.cause
    }

    /// The attempt at which the session ended, counted from one.
    pub fn attempts(&self) -> (r: u8)
        ensures
            r == self@.attempts,
    {
        self.attempts
    }

    /// The most attempts that the strategy allowed.
    pub fn max_attempts(&self) -> (r: u8)
        ensures
            r == self@.max_attempts,
    {
        self.max_attempts
    }

    /// The milliseconds slept between attempts before the session ended.
    pub fn cumulative_delay_ms(&self) -> (r: u64)
        ensures
            r == self@.cumulative_delay_ms,
    {
        self.cumulative_delay_ms
    }

    /// Why the session ended.
    pub fn kind(&self) -> (r: RetryErrorKind)
        ensures
            r == self@.kind,
    {
        self.kind
    }
}

/// What a [`RetryOutcome`] holds.
pub struct RetrySuccess<T> {
    pub value: T,
    pub attempts: u8,
    pub cumulative_delay_ms: u64,
}

/// The success of a retry session, with the value and the session's counts.
#[derive(Debug)]
pub struct RetryOutcome<T> {
    value: T,
    attempts: u8,
    cumulative_delay_ms: u64,
}

impl<T> View for RetryOutcome<T> {
    type V = RetrySuccess<T>;

    closed spec fn view(&self) -> RetrySuccess<T> {
        RetrySuccess {
            value: self.value,
            attempts: self.attempts,
            cumulative_delay_ms: self.cumulative_delay_ms,
        }
    }
}

impl<T> RetryOutcome<T> {
    pub(crate) fn new(value: T, attempts: u8, cumulative_delay_ms: u64) -> (r: Self)
        ensures
            r@ == (RetrySuccess { value, attempts, cumulative_delay_ms }),
    {
        RetryOutcome { value, attempts, cumulative_delay_ms }
    }

    /// The attempt that succeeded, counted from one.
    pub fn attempts(&self) -> (r: u8)
        ensures
            r == self@.attempts,
    {
        self.attempts
    }

    /// The milliseconds slept between attempts.
    pub fn cumulative_delay_ms(&self) -> (r: u64)
        ensures
            r == self@.cumulative_delay_ms,
    {
        self.cumulative_delay_ms
    }

    /// The value that the operation produced.
    pub fn value(&self) -> (r: &T)
        ensures
            *r == self@.value,
    {
        &self.value
    }

    /// Gives up the session's counts and keeps the value.
    pub fn into_inner(self) -> (r: T)
        ensures
            r == self@.value,
    {
        self.value
    }
}

/// Stands where no predicate or callback was set.
#[derive(Debug, Clone, Copy)]
pub struct Unset;

/// The retry predicate of a session: judges whether an error is worth a retry.
pub trait RetryFilter<E> {
    /// Whether `allows` may be called, whatever the error.
    spec fn ready(&self) -> bool;

    /// Whether `allows` may answer `retry` for `error`.
    spec fn decides(&self, error: &E, retry: bool) -> bool;

    /// Whether `error` is worth a retry.
    fn allows(&self, error: &E) -> (retry: bool)
        requires
            self.ready(),
        ensures
            self.decides(error, retry),
    ;
}

/// Without a predicate every error is worth a retry.
impl<E> RetryFilter<E> for Unset {
    open spec fn ready(&self) -> bool {
        true
    }

    open spec fn decides(&self, error: &E, retry: bool) -> bool {
        retry
    }

    fn allows(&self, error: &E) -> (retry: bool) {
        true
    }
}

impl<E, P: Fn(&E) -> bool> RetryFilter<E> for P {
    open spec fn ready(&self) -> bool {
        forall|error: &E| call_requires(*self, (error,))
    }

    open spec fn decides(&self, error: &E, retry: bool) -> bool {
        call_ensures(*self, (error,), retry)
    }

    fn allows(&self, error: &E) -> (retry: bool) {
        self(error)
    }
}

/// A callback that is shown a [`RetryContext`].
pub trait ContextHook<E>: Sized {
    /// Whether `observe` may be called, whatever the context.
    spec fn ready(&self) -> bool;

    /// Whether the callback has been shown `ctx` and has returned.
    spec fn saw(&self, ctx: &RetryContext<'_, E>) -> bool;

    /// Shows `ctx` to the callback.
    fn observe(&mut self, ctx: &RetryContext<'_, E>)
        requires
            old(self).ready(),
        ensures
            old(self).saw(ctx),
            *final(self) == *old(self),
    ;
}

impl<E> ContextHook<E> for Unset {
    open spec fn ready(&self) -> bool {
        true
    }

    open spec fn saw(&self, ctx: &RetryContext<'_, E>) -> bool {
        true
    }

    fn observe(&mut self, ctx: &RetryContext<'_, E>) {
    }
}

impl<E, C: FnMut(&RetryContext<'_, E>)> ContextHook<E> for C {
    open spec fn ready(&self) -> bool {
        forall|ctx: &RetryContext<'_, E>| call_requires(*self, (ctx,))
    }

    open spec fn saw(&self, ctx: &RetryContext<'_, E>) -> bool {
        call_ensures(*self, (ctx,), ())
    }

    fn observe(&mut self, ctx: &RetryContext<'_, E>) {
        self(ctx)
    }
}

/// A callback that is shown the [`RetryError`] a session ends with.
pub trait FailureHook<E>: Sized {
    /// Whether `observe` may be called, whatever the error.
    spec fn ready(&self) -> bool;

    /// Whether the callback has been shown `failure` and has returned.
    spec fn saw(&self, failure: &RetryError<E>) -> bool;

    /// Shows `failure` to the callback.
    fn observe(&mut self, failure: &RetryError<E>)
        requires
            old(self).ready(),
        ensures
            old(self).saw(failure),
            *final(self) == *old(self),
    ;
}

impl<E> FailureHook<E> for Unset {
    open spec fn ready(&self) -> bool {
        true
    }

    open spec fn saw(&self, failure: &RetryError<E>) -> bool {
        true
    }

    fn observe(&mut self, failure: &RetryError<E>) {
    }
}

impl<E, C: FnMut(&RetryError<E>)> FailureHook<E> for C {
    open spec fn ready(&self) -> bool {
        forall|failure: &RetryError<E>| call_requires(*self, (failure,))
    }

    open spec fn saw(&self, failure: &RetryError<E>) -> bool {
        call_ensures(*self, (failure,), ())
    }

    fn observe(&mut self, failure: &RetryError<E>) {
        self(failure)
    }
}

/// The sum of a sequence of delays.
pub open spec fn delay_sum(delays: Seq<u64>) -> nat
    decreases delays.len(),
{
    if delays.len() == 0 {
        0
    } else {
        delay_sum(delays.drop_last()) + delays.last() as nat
    }
}

/// The sum of a sequence of delays, or `u64::MAX` where it no longer fits.
pub open spec fn capped_total(delays: Seq<u64>) -> u64 {
    if delay_sum(delays) > u64::MAX {
        u64::MAX
    } else {
        delay_sum(delays) as u64
    }
}

/// Attempt `index + 1` failed with `error`, was allowed a retry by the filter
/// and by the strategy, and was followed by a sleep of `delay` milliseconds.
pub open spec fn retried_at<F, B, T, E, W>(
    op: F,
    strategy: B,
    filter: W,
    index: int,
    error: E,
    delay: u64,
) -> bool where F: FnMut() -> Result<T, E>, B: BackoffStrategy, W: RetryFilter<E> {
    &&& call_ensures(op, (), Err::<T, E>(error))
    &&& filter.decides(&error, true)
    &&& index + 1 < strategy.attempt_limit()
    &&& strategy.may_delay((index + 1) as u8, Some(delay))
}

/// Each of `errors` is a failed attempt that was retried after the delay at
/// the same index.
pub open spec fn retried<F, B, T, E, W>(
    op: F,
    strategy: B,
    filter: W,
    errors: Seq<E>,
    delays: Seq<u64>,
) -> bool where F: FnMut() -> Result<T, E>, B: BackoffStrategy, W: RetryFilter<E> {
    &&& errors.len() == delays.len()
    &&& forall|i: int|
        0 <= i < errors.len() ==> retried_at::<F, B, T, E, W>(
            op,
            strategy,
            filter,
            i,
            #[trigger] errors[i],
            delays[i],
        )
}

/// After the retried attempts `errors`, the next attempt ended the session with `result`.
pub open spec fn ends_with<F, B, T, E, W>(
    op: F,
    strategy: B,
    filter: W,
    errors: Seq<E>,
    delays: Seq<u64>,
    result: Result<RetryOutcome<T>, RetryError<E>>,
) -> bool where F: FnMut() -> Result<T, E>, B: BackoffStrategy, W: RetryFilter<E> {
    let attempts = errors.len() + 1;
    match result {
        Ok(outcome) => {
            &&& outcome@.attempts == attempts
            &&& outcome@.cumulative_delay_ms == capped_total(delays)
            &&& call_ensures(op, (), Ok::<T, E>(outcome@.value))
        },
        Err(failure) => {
            &&& failure@.attempts == attempts
            &&& failure@.max_attempts == strategy.attempt_limit()
            &&& failure@.cumulative_delay_ms == capped_total(delays)
            &&& failure@.cause matches Some(cause) && {
                &&& call_ensures(op, (), Err::<T, E>(cause))
                &&& match failure@.kind {
                    RetryErrorKind::PredicateRejected => filter.decides(&cause, false),
                    RetryErrorKind::Exhausted => {
                        &&& filter.decides(&cause, true)
                        &&& (attempts >= strategy.attempt_limit() || strategy.may_delay(
                            attempts as u8,
                            None,
                        ))
                    },
                }
            }
        },
    }
}

/// `result` is a possible end of a session that runs `op` under `strategy` and `filter`.
pub open spec fn session<F, B, T, E, W>(
    op: F,
    strategy: B,
    filter: W,
    result: Result<RetryOutcome<T>, RetryError<E>>,
) -> bool where F: FnMut() -> Result<T, E>, B: BackoffStrategy, W: RetryFilter<E> {
    exists|errors: Seq<E>, delays: Seq<u64>|
        #[trigger] retried::<F, B, T, E, W>(op, strategy, filter, errors, delays) && ends_with(
            op,
            strategy,
            filter,
            errors,
            delays,
            result,
        )
}

/// Before the retry after attempt `index + 1`, the notifier was shown the
/// attempt, its error, the delay to come and the delays slept so far; then the
/// sleeper slept the delay.
pub open spec fn announced_at<E, N, Sl>(
    notifier: N,
    sleeper: Sl,
    errors: Seq<E>,
    delays: Seq<u64>,
    index: int,
) -> bool where N: ContextHook<E>, Sl: Sleeper {
    &&& notifier.saw(
        &RetryContext {
            attempt: (index + 1) as u8,
            next_delay_ms: Some(delays[index]),
            cumulative_delay_ms: capped_total(delays.take(index)),
            error: Some(&errors[index]),
        },
    )
    &&& sleeper.slept(delays[index])
}

/// The callbacks and the sleeper have seen the session: the notifier and the
/// sleeper each retry, and at the end the callback for success the last
/// attempt and the delays slept, or the callback for failure the error that
/// is returned.
pub open spec fn observed<T, E, N, S, X, Sl>(
    notifier: N,
    success_hook: S,
    failure_hook: X,
    sleeper: Sl,
    errors: Seq<E>,
    delays: Seq<u64>,
    result: Result<RetryOutcome<T>, RetryError<E>>,
) -> bool where N: ContextHook<E>, S: ContextHook<E>, X: FailureHook<E>, Sl: Sleeper {
    &&& forall|i: int|
        0 <= i < errors.len() ==> #[trigger] announced_at(notifier, sleeper, errors, delays, i)
    &&& match result {
        Ok(outcome) => success_hook.saw(
            &RetryContext {
                attempt: outcome@.attempts,
                next_delay_ms: None,
                cumulative_delay_ms: outcome@.cumulative_delay_ms,
                error: None,
            },
        ),
        Err(failure) => failure_hook.saw(&failure),
    }
}

/// `result` is a possible end of a session that runs `op` under `strategy`
/// and `filter`, and the callbacks and the sleeper have seen that session as
/// it went.
pub open spec fn witnessed<F, B, T, E, W, N, S, X, Sl>(
    op: F,
    strategy: B,
    filter: W,
    notifier: N,
    success_hook: S,
    failure_hook: X,
    sleeper: Sl,
    result: Result<RetryOutcome<T>, RetryError<E>>,
) -> bool where
    F: FnMut() -> Result<T, E>,
    B: BackoffStrategy,
    W: RetryFilter<E>,
    N: ContextHook<E>,
    S: ContextHook<E>,
    X: FailureHook<E>,
    Sl: Sleeper,
 {
    exists|errors: Seq<E>, delays: Seq<u64>|
        {
            &&& #[trigger] retried::<F, B, T, E, W>(op, strategy, filter, errors, delays)
            &&& ends_with(op, strategy, filter, errors, delays, result)
            &&& observed(notifier, success_hook, failure_hook, sleeper, errors, delays, result)
        }
}

/// What the callbacks and the sleeper have seen is a session.
pub proof fn lemma_witnessed_session<F, B, T, E, W, N, S, X, Sl>(
    op: F,
    strategy: B,
    filter: W,
    notifier: N,
    success_hook: S,
    failure_hook: X,
    sleeper: Sl,
    result: Result<RetryOutcome<T>, RetryError<E>>,
) where
    F: FnMut() -> Result<T, E>,
    B: BackoffStrategy,
    W: RetryFilter<E>,
    N: ContextHook<E>,
    S: ContextHook<E>,
    X: FailureHook<E>,
    Sl: Sleeper,

    requires
        witnessed(op, strategy, filter, notifier, success_hook, failure_hook, sleeper, result),
    ensures
        session(op, strategy, filter, result),
{
    let (errors, delays) = choose|errors: Seq<E>, delays: Seq<u64>|
        {
            &&& #[trigger] retried::<F, B, T, E, W>(op, strategy, filter, errors, delays)
            &&& ends_with(op, strategy, filter, errors, delays, result)
            &&& observed(notifier, success_hook, failure_hook, sleeper, errors, delays, result)
        };
    assert(retried::<F, B, T, E, W>(op, strategy, filter, errors, delays) && ends_with(
        op,
        strategy,
        filter,
        errors,
        delays,
        result,
    ));
}

/// A builder on which no predicate and no callback has been set yet.
pub type DefaultRetryBuilder<F, B, T, E> = RetryBuilder<F, B, T, E, Unset, Unset, Unset, Unset>;

/// Gives every operation, that is every function without arguments that
/// returns a `Result`, the method `retry`.
pub trait Retryable<T, E> {
    /// Starts a retry session for this operation under `backoff`.
    fn retry<B: BackoffStrategy>(self, backoff: B) -> (r: DefaultRetryBuilder<Self, B, T, E>) where
        Self: Sized,

        ensures
            r.operation() == self,
            r.strategy() == backoff,
    ;
}

impl<F, T, E> Retryable<T, E> for F where F: FnMut() -> Result<T, E> {
    fn retry<B: BackoffStrategy>(self, backoff: B) -> (r: DefaultRetryBuilder<Self, B, T, E>) {
        RetryBuilder {
            operation: self,
            backoff,
            filter: Unset,
            notify: Unset,
            on_success: Unset,
            on_failure: Unset,
            _phantom_t: PhantomData,
            _phantom_e: PhantomData,
        }
    }
}

/// Shorthands that start a session under one of the three strategies.
pub trait RetryableExt<T, E>: Retryable<T, E> {
    /// Starts a session under the default exponential backoff.
    fn with_exponential(self) -> (r: DefaultRetryBuilder<Self, ExponentialBackoff, T, E>) where
        Self: Sized,

        ensures
            r.operation() == self,
            r.strategy() == ExponentialBackoff::default_value(),
    {
        self.retry(ExponentialBackoff::new())
    }

    /// Starts a session under a constant backoff of `delay_ms`, with its
    /// default attempts and no jitter.
    fn with_constant(self, delay_ms: u64) -> (r: DefaultRetryBuilder<Self, ConstantBackoff, T, E>) where
        Self: Sized,

        ensures
            r.operation() == self,
            r.strategy() == (ConstantBackoff { delay_ms, ..ConstantBackoff::default_value() }),
    {
        self.retry(ConstantBackoff::new().delay_ms(delay_ms))
    }

    /// Starts a session under the default Fibonacci backoff.
    fn with_fibonacci(self) -> (r: DefaultRetryBuilder<Self, FibonacciBackoff, T, E>) where
        Self: Sized,

        ensures
            r.operation() == self,
            r.strategy() == FibonacciBackoff::default_value(),
    {
        self.retry(FibonacciBackoff::new())
    }
}

impl<F, T, E> RetryableExt<T, E> for F where F: Retryable<T, E> {
}

/// An operation with the strategy, predicate and callbacks to retry it under.
pub struct RetryBuilder<F, B, T, E, W, N, S, X> {
    operation: F,
    backoff: B,
    filter: W,
    notify: N,
    on_success: S,
    on_failure: X,
    _phantom_t: PhantomData<T>,
    _phantom_e: PhantomData<E>,
}

impl<F, B, T, E, W, N, S, X> RetryBuilder<F, B, T, E, W, N, S, X> {
    /// The operation to run.
    pub closed spec fn operation(&self) -> F {
        self.operation
    }

    /// The backoff strategy.
    pub closed spec fn strategy(&self) -> B {
        self.backoff
    }

    /// The retry predicate.
    pub closed spec fn filter(&self) -> W {
        self.filter
    }

    /// The callback before each sleep.
    pub closed spec fn notifier(&self) -> N {
        self.notify
    }

    /// The callback on success.
    pub closed spec fn success_hook(&self) -> S {
        self.on_success
    }

    /// The callback on failure.
    pub closed spec fn failure_hook(&self) -> X {
        self.on_failure
    }

}

impl<F, B, T, E, W, N, S, X> RetryBuilder<F, B, T, E, W, N, S, X> where
    F: FnMut() -> Result<T, E>,
    B: BackoffStrategy,
    W: RetryFilter<E>,
    N: ContextHook<E>,
    S: ContextHook<E>,
    X: FailureHook<E>,
 {
    /// The operation, the predicate and the callbacks may be called.
    pub open spec fn ready(&self) -> bool {
        &&& call_requires(self.operation(), ())
        &&& self.filter().ready()
        &&& self.notifier().ready()
        &&& self.success_hook().ready()
        &&& self.failure_hook().ready()
    }

    /// Sets the retry predicate: only errors for which it gives `true` are
    /// retried. It takes the place of one set before.
    pub fn when<P>(self, predicate: P) -> (r: RetryBuilder<F, B, T, E, P, N, S, X>) where
        P: Fn(&E) -> bool,

        ensures
            r.operation() == self.operation(),
            r.strategy() == self.strategy(),
            r.filter() == predicate,
            r.notifier() == self.notifier(),
            r.success_hook() == self.success_hook(),
            r.failure_hook() == self.failure_hook(),
            r.filter().ready() <==> forall|error: &E| call_requires(predicate, (error,)),
            forall|error: E, retry: bool|
                r.filter().decides(&error, retry) <==> call_ensures(predicate, (&error,), retry),
    {
        RetryBuilder {
            operation: self.operation,
            backoff: self.backoff,
            filter: predicate,
            notify: self.notify,
            on_success: self.on_success,
            on_failure: self.on_failure,
            _phantom_t: PhantomData,
            _phantom_e: PhantomData,
        }
    }

    /// Sets the callback that is called before each sleep. It takes the place
    /// of one set before.
    pub fn notify<C>(self, callback: C) -> (r: RetryBuilder<F, B, T, E, W, C, S, X>) where
        C: FnMut(&RetryContext<'_, E>),

        ensures
            r.operation() == self.operation(),
            r.strategy() == self.strategy(),
            r.filter() == self.filter(),
            r.notifier() == callback,
            r.success_hook() == self.success_hook(),
            r.failure_hook() == self.failure_hook(),
            r.notifier().ready() <==> forall|ctx: &RetryContext<'_, E>|
                call_requires(callback, (ctx,)),
            forall|ctx: &RetryContext<'_, E>|
                r.notifier().saw(ctx) <==> call_ensures(callback, (ctx,), ()),
    {
        RetryBuilder {
            operation: self.operation,
            backoff: self.backoff,
            filter: self.filter,
            notify: callback,
            on_success: self.on_success,
            on_failure: self.on_failure,
            _phantom_t: PhantomData,
            _phantom_e: PhantomData,
        }
    }

    /// Sets the callback that is called after the attempt that succeeds. It
    /// takes the place of one set before.
    pub fn on_success<C>(self, callback: C) -> (r: RetryBuilder<F, B, T, E, W, N, C, X>) where
        C: FnMut(&RetryContext<'_, E>),

        ensures
            r.operation() == self.operation(),
            r.strategy() == self.strategy(),
            r.filter() == self.filter(),
            r.notifier() == self.notifier(),
            r.success_hook() == callback,
            r.failure_hook() == self.failure_hook(),
            r.success_hook().ready() <==> forall|ctx: &RetryContext<'_, E>|
                call_requires(callback, (ctx,)),
            forall|ctx: &RetryContext<'_, E>|
                r.success_hook().saw(ctx) <==> call_ensures(callback, (ctx,), ()),
    {
        RetryBuilder {
            operation: self.operation,
            backoff: self.backoff,
            filter: self.filter,
            notify: self.notify,
            on_success: callback,
            on_failure: self.on_failure,
            _phantom_t: PhantomData,
            _phantom_e: PhantomData,
        }
    }

    /// Sets the callback that is called when the session ends in failure. It
    /// takes the place of one set before.
    pub fn on_failure<C>(self, callback: C) -> (r: RetryBuilder<F, B, T, E, W, N, S, C>) where
        C: FnMut(&RetryError<E>),

        ensures
            r.operation() == self.operation(),
            r.strategy() == self.strategy(),
            r.filter() == self.filter(),
            r.notifier() == self.notifier(),
            r.success_hook() == self.success_hook(),
            r.failure_hook() == callback,
            r.failure_hook().ready() <==> forall|failure: &RetryError<E>|
                call_requires(callback, (failure,)),
            forall|failure: &RetryError<E>|
                r.failure_hook().saw(failure) <==> call_ensures(callback, (failure,), ()),
    {
        RetryBuilder {
            operation: self.operation,
            backoff: self.backoff,
            filter: self.filter,
            notify: self.notify,
            on_success: self.on_success,
            on_failure: callback,
            _phantom_t: PhantomData,
            _phantom_e: PhantomData,
        }
    }

    /// `result` is a possible end of this session, run with `sleeper`, and the
    /// callbacks and the sleeper have seen the session as it went.
    pub open spec fn explains<Sl: Sleeper>(
        &self,
        sleeper: Sl,
        result: Result<RetryOutcome<T>, RetryError<E>>,
    ) -> bool {
        witnessed(
            self.operation(),
            self.strategy(),
            self.filter(),
            self.notifier(),
            self.success_hook(),
            self.failure_hook(),
            sleeper,
            result,
        )
    }

    /// Runs the session, pausing through `sleeper` between attempts.
    ///
    /// Attempts are counted from one. After a failure the predicate is asked
    /// first, then the strategy; a retry sleeps the strategy's delay, adds it to
    /// the cumulative delay and counts one more attempt.
    pub fn call_with_sleeper<Sl: Sleeper>(self, sleeper: Sl) -> (result: Result<
        RetryOutcome<T>,
        RetryError<E>,
    >)
        requires
            self.ready(),
            forall|ms: u64| sleeper.can_sleep(ms),
        ensures
            self.explains(sleeper, result),
            session(self.operation(), self.strategy(), self.filter(), result),
    {
        let mut rng: SmallRng = session_rng();
        let RetryBuilder {
            mut operation,
            backoff,
            filter,
            mut notify,
            mut on_success,
            mut on_failure,
            _phantom_t,
            _phantom_e,
        } = self;
        let mut attempt: u8 = 1;
        let max_attempts: u8 = backoff.max_attempts();
        let mut cumulative_delay_ms: u64 = 0;
        let ghost mut errors: Seq<E> = Seq::empty();
        let ghost mut delays: Seq<u64> = Seq::empty();
        loop
            invariant
                operation == self.operation(),
                backoff == self.strategy(),
                filter == self.filter(),
                notify == self.notifier(),
                on_success == self.success_hook(),
                on_failure == self.failure_hook(),
                call_requires(operation, ()),
                filter.ready(),
                notify.ready(),
                on_success.ready(),
                on_failure.ready(),
                forall|ms: u64| sleeper.can_sleep(ms),
                max_attempts == backoff.attempt_limit(),
                attempt == errors.len() + 1,
                retried::<F, B, T, E, W>(operation, backoff, filter, errors, delays),
                errors.len() == delays.len(),
                forall|i: int|
                    0 <= i < errors.len() ==> #[trigger] announced_at(
                        notify,
                        sleeper,
                        errors,
                        delays,
                        i,
                    ),
                cumulative_delay_ms == capped_total(delays),
            decreases 255 - attempt,
        {
            match operation() {
                Ok(value) => {
                    let ctx = RetryContext {
                        attempt,
                        next_delay_ms: None,
                        cumulative_delay_ms,
                        error: None,
                    };
                    on_success.observe(&ctx);
                    let outcome = RetryOutcome::new(value, attempt, cumulative_delay_ms);
                    assert(ends_with(operation, backoff, filter, errors, delays, Ok(outcome)));
                    assert(observed(
                        notify,
                        on_success,
                        on_failure,
                        sleeper,
                        errors,
                        delays,
                        Ok::<RetryOutcome<T>, RetryError<E>>(outcome),
                    ));
                    return Ok(outcome);
                },
                Err(error) => {
                    if !filter.allows(&error) {
                        let failure = RetryError::new(
                            RetryErrorKind::PredicateRejected,
                            attempt,
                            max_attempts,
                            cumulative_delay_ms,
                            Some(error),
                        );
                        on_failure.observe(&failure);
                        assert(ends_with(operation, backoff, filter, errors, delays, Err(failure)));
                        assert(observed(
                            notify,
                            on_success,
                            on_failure,
                            sleeper,
                            errors,
                            delays,
                            Err::<RetryOutcome<T>, RetryError<E>>(failure),
                        ));
                        return Err(failure);
                    }
                    if !backoff.should_retry(attempt) {
                        let failure = RetryError::new(
                            RetryErrorKind::Exhausted,
                            attempt,
                            max_attempts,
                            cumulative_delay_ms,
                            Some(error),
                        );
                        on_failure.observe(&failure);
                        assert(ends_with(operation, backoff, filter, errors, delays, Err(failure)));
                        assert(observed(
                            notify,
                            on_success,
                            on_failure,
                            sleeper,
                            errors,
                            delays,
                            Err::<RetryOutcome<T>, RetryError<E>>(failure),
                        ));
                        return Err(failure);
                    }
                    match backoff.delay(attempt, &mut rng) {
                        Some(delay_ms) => {
                            let ctx = RetryContext {
                                attempt,
                                next_delay_ms: Some(delay_ms),
                                cumulative_delay_ms,
                                error: Some(&error),
                            };
                            notify.observe(&ctx);
                            sleeper.sleep_ms(delay_ms);
                            proof {
                                let ghost before = delays;
                                let ghost failed = errors;
                                errors = errors.push(error);
                                delays = delays.push(delay_ms);
                                assert(delays.drop_last() == before);
                                assert(delays.take(failed.len() as int) == before);
                                assert forall|i: int| 0 <= i < errors.len() implies #[trigger] announced_at(
                                    notify,
                                    sleeper,
                                    errors,
                                    delays,
                                    i,
                                ) by {
                                    if i < failed.len() {
                                        assert(announced_at(notify, sleeper, failed, before, i));
                                        assert(delays.take(i) == before.take(i));
                                    }
                                }
                            }
                            cumulative_delay_ms = cumulative_delay_ms.saturating_add(delay_ms);
                            attempt = attempt.saturating_add(1);
                        },
                        None => {
                            let failure = RetryError::new(
                                RetryErrorKind::Exhausted,
                                attempt,
                                max_attempts,
                                cumulative_delay_ms,
                                Some(error),
                            );
                            on_failure.observe(&failure);
                            assert(ends_with(
                                operation,
                                backoff,
                                filter,
                                errors,
                                delays,
                                Err(failure),
                            ));
                            assert(observed(
                                notify,
                                on_success,
                                on_failure,
                                sleeper,
                                errors,
                                delays,
                                Err::<RetryOutcome<T>, RetryError<E>>(failure),
                            ));
                            return Err(failure);
                        },
                    }
                },
            }
        }
    }
}

} // verus!
