//! Backoff strategies: how long to wait before the next attempt.
//!
//! Fractions (jitter factors, multipliers) are fixed-point numbers counted in
//! millionths, see [`UNIT`]. Delays are whole milliseconds.

use crate::growth::{
    exponential_base,
    exponential_delay,
    exponential_delay_ms,
    fib_capped,
    fibonacci,
    fibonacci_base,
    fibonacci_delay_ms,
    lemma_exponential_bounds,
};
use crate::jitter::{apply_jitter, clamp_unit, jittered, lemma_jittered_bounds, normalize_jitter, UNIT};
use crate::random::draw_scalar;
use rand::rngs::SmallRng;
use vstd::prelude::*;

verus! {

/// What every backoff strategy offers: a delay per attempt, or none where the
/// attempts have run out.
pub trait BackoffStrategy {
    /// The most attempts this strategy allows: what `max_attempts` returns.
    spec fn attempt_limit(&self) -> u8;

    /// Whether `delay` may answer `outcome` when asked about `attempt`: any
    /// answer, unless a strategy says more.
    open spec fn may_delay(&self, attempt: u8, outcome: Option<u64>) -> bool {
        true
    }

    /// The delay in milliseconds to wait after the failed `attempt` (counted
    /// from one), or `None` where no further attempt should be made.
    fn delay(&self, attempt: u8, rng: &mut SmallRng) -> (r: Option<u64>)
        ensures
            self.may_delay(attempt, r),
    ;

    /// Whether another attempt may follow `attempt`.
    fn should_retry(&self, attempt: u8) -> (r: bool)
        ensures
            r == (attempt < self.attempt_limit()),
    ;

    /// The most attempts this strategy allows.
    fn max_attempts(&self) -> (r: u8)
        ensures
            r == self.attempt_limit(),
    ;
}

/// The same delay before every retry.
#[derive(Debug, Clone, Copy)]
pub struct ConstantBackoff {
    /// The delay in milliseconds.
    pub delay_ms: u64,
    /// The most attempts allowed; the first try counts.
    pub max_attempts: u8,
    /// The jitter factor in millionths: 0 for none, `UNIT` for full jitter.
    pub jitter_factor: i64,
}

impl ConstantBackoff {
    /// The default: 100 ms, three attempts, no jitter.
    pub open spec fn default_value() -> Self {
        ConstantBackoff { delay_ms: 100, max_attempts: 3, jitter_factor: 0 }
    }

    /// A constant backoff with the default values.
    pub fn new() -> (r: Self)
        ensures
            r == Self::default_value(),
    {
        ConstantBackoff { delay_ms: 100, max_attempts: 3, jitter_factor: 0 }
    }

    /// Sets the delay in milliseconds.
    pub fn delay_ms(self, ms: u64) -> (r: Self)
        ensures
            r == (ConstantBackoff { delay_ms: ms, ..self }),
    {
        ConstantBackoff { delay_ms: ms, ..self }
    }

    /// Sets the most attempts allowed.
    pub fn max_attempts(self, attempts: u8) -> (r: Self)
        ensures
            r == (ConstantBackoff { max_attempts: attempts, ..self }),
    {
        ConstantBackoff { max_attempts: attempts, ..self }
    }

    /// Sets the jitter factor, clamped to the range from 0.0 to 1.0.
    pub fn jitter_factor(self, factor: i64) -> (r: Self)
        ensures
            r == (ConstantBackoff { jitter_factor: clamp_unit(factor), ..self }),
    {
        ConstantBackoff { jitter_factor: normalize_jitter(factor), ..self }
    }

    /// The delay before jitter: the configured delay, whatever the attempt.
    pub open spec fn base_delay(&self, attempt: u8) -> u64 {
        self.delay_ms
    }

    /// The answer of `delay` when the random scalar drawn is `scalar`.
    pub open spec fn delay_for(&self, attempt: u8, scalar: i64) -> Option<u64> {
        if attempt >= self.max_attempts {
            None
        } else {
            Some(jittered(self.base_delay(attempt), self.jitter_factor, scalar) as u64)
        }
    }

    /// The delay after `attempt` for a given random `scalar` between 0 and `UNIT`.
    pub fn delay_with(&self, attempt: u8, scalar: i64) -> (r: Option<u64>)
        ensures
            r == self.delay_for(attempt, scalar),
            r matches Some(d) ==> d <= self.base_delay(attempt),
    {
        if attempt >= self.max_attempts {
            return None;
        }
        Some(apply_jitter(self.delay_ms, self.jitter_factor, scalar))
    }

    /// Whatever `delay` may answer: nothing exactly where the attempts have
    /// run out, else a delay that is at most the delay before jitter, and the
    /// delay before jitter itself where the jitter factor is zero.
    pub proof fn lemma_delay_outcomes(&self, attempt: u8, outcome: Option<u64>)
        requires
            self.may_delay(attempt, outcome),
        ensures
            outcome is None <==> attempt >= self.max_attempts,
            outcome matches Some(d) ==> d <= self.base_delay(attempt),
            self.jitter_factor <= 0 ==> (outcome matches Some(d) ==> d == self.base_delay(attempt)),
    {
        let scalar = choose|scalar: i64|
            0 <= scalar <= UNIT && outcome == #[trigger] self.delay_for(attempt, scalar);
        lemma_jittered_bounds(self.base_delay(attempt), self.jitter_factor, scalar);
    }

    /// Below its limit the strategy always names a delay.
    pub proof fn lemma_declines_only_at_limit(&self)
        ensures
            forall|attempt: u8| attempt < self.attempt_limit() ==> !self.may_delay(attempt, None),
    {
        assert forall|attempt: u8| attempt < self.attempt_limit() implies !self.may_delay(
            attempt,
            None,
        ) by {
            if self.may_delay(attempt, None) {
                self.lemma_delay_outcomes(attempt, None);
            }
        }
    }

    /// Without jitter the strategy has one answer for each attempt: the delay
    /// before jitter, or nothing where the attempts have run out.
    pub proof fn lemma_one_answer_without_jitter(&self)
        requires
            self.jitter_factor <= 0,
        ensures
            forall|attempt: u8, d: u64|
                self.may_delay(attempt, Some(d)) ==> d == self.base_delay(attempt),
            forall|attempt: u8, x: Option<u64>, y: Option<u64>|
                self.may_delay(attempt, x) && self.may_delay(attempt, y) ==> x == y,
    {
        assert forall|attempt: u8, d: u64| self.may_delay(attempt, Some(d)) implies d
            == self.base_delay(attempt) by {
            self.lemma_delay_outcomes(attempt, Some(d));
        }
        assert forall|attempt: u8, x: Option<u64>, y: Option<u64>|
            self.may_delay(attempt, x) && self.may_delay(attempt, y) implies x == y by {
            self.lemma_delay_outcomes(attempt, x);
            self.lemma_delay_outcomes(attempt, y);
        }
    }
}

impl Default for ConstantBackoff {
    fn default() -> (r: Self)
        ensures
            r == Self::default_value(),
    {
        ConstantBackoff::new()
    }
}

impl BackoffStrategy for ConstantBackoff {
    open spec fn attempt_limit(&self) -> u8 {
        self.max_attempts
    }

    open spec fn may_delay(&self, attempt: u8, outcome: Option<u64>) -> bool {
        exists|scalar: i64| 0 <= scalar <= UNIT && outcome == #[trigger] self.delay_for(attempt, scalar)
    }

    fn delay(&self, attempt: u8, rng: &mut SmallRng) -> (r: Option<u64>)
        ensures
            r is None <==> attempt >= self.max_attempts,
            r matches Some(d) ==> d <= self.base_delay(attempt),
    {
        let scalar: i64 = draw_scalar(rng);
        self.delay_with(attempt, scalar)
    }

    fn should_retry(&self, attempt: u8) -> (r: bool) {
        attempt < self.max_attempts
    }

    fn max_attempts(&self) -> (r: u8) {
        self.max_attempts
    }
}

/// Delays that grow with the Fibonacci numbers, up to a cap.
#[derive(Debug, Clone, Copy)]
pub struct FibonacciBackoff {
    /// The delay in milliseconds that the Fibonacci number multiplies.
    pub base_delay_ms: u64,
    /// The cap on the delay in milliseconds, before jitter.
    pub max_delay_ms: u64,
    /// The most attempts allowed; the first try counts.
    pub max_attempts: u8,
    /// The jitter factor in millionths: 0 for none, `UNIT` for full jitter.
    pub jitter_factor: i64,
}

impl FibonacciBackoff {
    /// The default: 100 ms, capped at 10 s, eight attempts, full jitter.
    pub open spec fn default_value() -> Self {
        FibonacciBackoff {
            base_delay_ms: 100,
            max_delay_ms: 10_000,
            max_attempts: 8,
            jitter_factor: UNIT,
        }
    }

    /// A Fibonacci backoff with the default values.
    pub fn new() -> (r: Self)
        ensures
            r == Self::default_value(),
    {
        FibonacciBackoff {
            base_delay_ms: 100,
            max_delay_ms: 10_000,
            max_attempts: 8,
            jitter_factor: UNIT,
        }
    }

    /// Sets the delay in milliseconds that the Fibonacci number multiplies.
    pub fn base_delay_ms(self, ms: u64) -> (r: Self)
        ensures
            r == (FibonacciBackoff { base_delay_ms: ms, ..self }),
    {
        FibonacciBackoff { base_delay_ms: ms, ..self }
    }

    /// Sets the cap on the delay in milliseconds.
    pub fn max_delay_ms(self, ms: u64) -> (r: Self)
        ensures
            r == (FibonacciBackoff { max_delay_ms: ms, ..self }),
    {
        FibonacciBackoff { max_delay_ms: ms, ..self }
    }

    /// Sets the most attempts allowed.
    pub fn max_attempts(self, attempts: u8) -> (r: Self)
        ensures
            r == (FibonacciBackoff { max_attempts: attempts, ..self }),
    {
        FibonacciBackoff { max_attempts: attempts, ..self }
    }

    /// Sets the jitter factor, clamped to the range from 0.0 to 1.0.
    pub fn jitter_factor(self, factor: i64) -> (r: Self)
        ensures
            r == (FibonacciBackoff { jitter_factor: clamp_unit(factor), ..self }),
    {
        FibonacciBackoff { jitter_factor: normalize_jitter(factor), ..self }
    }

    /// The `n`-th Fibonacci number, saturating at `u64::MAX`.
    pub fn fibonacci(n: u8) -> (r: u64)
        ensures
            r == fib_capped(n as nat),
    {
        fibonacci(n)
    }

    /// The delay before jitter: the base delay times the Fibonacci number of
    /// the attempt, or the cap where that is less.
    pub open spec fn base_delay(&self, attempt: u8) -> u64 {
        fibonacci_base(self.base_delay_ms, attempt as nat, self.max_delay_ms)
    }

    /// The answer of `delay` when the random scalar drawn is `scalar`.
    pub open spec fn delay_for(&self, attempt: u8, scalar: i64) -> Option<u64> {
        if attempt >= self.max_attempts {
            None
        } else {
            Some(jittered(self.base_delay(attempt), self.jitter_factor, scalar) as u64)
        }
    }

    /// The delay after `attempt` for a given random `scalar` between 0 and `UNIT`.
    pub fn delay_with(&self, attempt: u8, scalar: i64) -> (r: Option<u64>)
        ensures
            r == self.delay_for(attempt, scalar),
            r matches Some(d) ==> d <= self.base_delay(attempt),
    {
        if attempt >= self.max_attempts {
            return None;
        }
        Some(
            fibonacci_delay_ms(
                self.base_delay_ms,
                attempt,
                self.max_delay_ms,
                self.jitter_factor,
                scalar,
            ),
        )
    }

    /// Whatever `delay` may answer: nothing exactly where the attempts have
    /// run out, else a delay that is at most the delay before jitter, and the
    /// delay before jitter itself where the jitter factor is zero.
    pub proof fn lemma_delay_outcomes(&self, attempt: u8, outcome: Option<u64>)
        requires
            self.may_delay(attempt, outcome),
        ensures
            outcome is None <==> attempt >= self.max_attempts,
            outcome matches Some(d) ==> d <= self.base_delay(attempt),
            self.jitter_factor <= 0 ==> (outcome matches Some(d) ==> d == self.base_delay(attempt)),
    {
        let scalar = choose|scalar: i64|
            0 <= scalar <= UNIT && outcome == #[trigger] self.delay_for(attempt, scalar);
        lemma_jittered_bounds(self.base_delay(attempt), self.jitter_factor, scalar);
    }

    /// Below its limit the strategy always names a delay.
    pub proof fn lemma_declines_only_at_limit(&self)
        ensures
            forall|attempt: u8| attempt < self.attempt_limit() ==> !self.may_delay(attempt, None),
    {
        assert forall|attempt: u8| attempt < self.attempt_limit() implies !self.may_delay(
            attempt,
            None,
        ) by {
            if self.may_delay(attempt, None) {
                self.lemma_delay_outcomes(attempt, None);
            }
        }
    }

    /// Without jitter the strategy has one answer for each attempt: the delay
    /// before jitter, or nothing where the attempts have run out.
    pub proof fn lemma_one_answer_without_jitter(&self)
        requires
            self.jitter_factor <= 0,
        ensures
            forall|attempt: u8, d: u64|
                self.may_delay(attempt, Some(d)) ==> d == self.base_delay(attempt),
            forall|attempt: u8, x: Option<u64>, y: Option<u64>|
                self.may_delay(attempt, x) && self.may_delay(attempt, y) ==> x == y,
    {
        assert forall|attempt: u8, d: u64| self.may_delay(attempt, Some(d)) implies d
            == self.base_delay(attempt) by {
            self.lemma_delay_outcomes(attempt, Some(d));
        }
        assert forall|attempt: u8, x: Option<u64>, y: Option<u64>|
            self.may_delay(attempt, x) && self.may_delay(attempt, y) implies x == y by {
            self.lemma_delay_outcomes(attempt, x);
            self.lemma_delay_outcomes(attempt, y);
        }
    }
}

impl Default for FibonacciBackoff {
    fn default() -> (r: Self)
        ensures
            r == Self::default_value(),
    {
        FibonacciBackoff::new()
    }
}

impl BackoffStrategy for FibonacciBackoff {
    open spec fn attempt_limit(&self) -> u8 {
        self.max_attempts
    }

    open spec fn may_delay(&self, attempt: u8, outcome: Option<u64>) -> bool {
        exists|scalar: i64| 0 <= scalar <= UNIT && outcome == #[trigger] self.delay_for(attempt, scalar)
    }

    fn delay(&self, attempt: u8, rng: &mut SmallRng) -> (r: Option<u64>)
        ensures
            r is None <==> attempt >= self.max_attempts,
            r matches Some(d) ==> d <= self.base_delay(attempt),
    {
        let scalar: i64 = draw_scalar(rng);
        self.delay_with(attempt, scalar)
    }

    fn should_retry(&self, attempt: u8) -> (r: bool) {
        attempt < self.max_attempts
    }

    fn max_attempts(&self) -> (r: u8) {
        self.max_attempts
    }
}

/// Delays that grow by a constant factor from one attempt to the next, up to a cap.
#[derive(Debug, Clone, Copy)]
pub struct ExponentialBackoff {
    /// The most attempts allowed; the first try counts.
    pub max_attempts: u8,
    /// The delay in milliseconds after the first attempt.
    pub base_delay_ms: u64,
    /// The growth factor in millionths: `2 * UNIT` doubles the delay each time.
    pub multiplier: i64,
    /// The cap on the delay in milliseconds, before jitter.
    pub max_delay_ms: u64,
    /// The jitter factor in millionths: 0 for none, `UNIT` for full jitter.
    pub jitter_factor: i64,
}

impl ExponentialBackoff {
    /// The default: three attempts, 100 ms doubling up to 10 s, full jitter.
    pub open spec fn default_value() -> Self {
        ExponentialBackoff {
            max_attempts: 3,
            base_delay_ms: 100,
            multiplier: 2_000_000,
            max_delay_ms: 10_000,
            jitter_factor: UNIT,
        }
    }

    /// An exponential backoff with the default values.
    pub fn new() -> (r: Self)
        ensures
            r == Self::default_value(),
    {
        ExponentialBackoff {
            max_attempts: 3,
            base_delay_ms: 100,
            multiplier: 2 * UNIT,
            max_delay_ms: 10_000,
            jitter_factor: UNIT,
        }
    }

    /// Sets the delay in milliseconds after the first attempt.
    pub fn base_delay_ms(self, ms: u64) -> (r: Self)
        ensures
            r == (ExponentialBackoff { base_delay_ms: ms, ..self }),
    {
        ExponentialBackoff { base_delay_ms: ms, ..self }
    }

    /// Sets the growth factor, in millionths.
    pub fn multiplier(self, multiplier: i64) -> (r: Self)
        ensures
            r == (ExponentialBackoff { multiplier, ..self }),
    {
        ExponentialBackoff { multiplier, ..self }
    }

    /// Sets the cap on the delay in milliseconds.
    pub fn max_delay_ms(self, ms: u64) -> (r: Self)
        ensures
            r == (ExponentialBackoff { max_delay_ms: ms, ..self }),
    {
        ExponentialBackoff { max_delay_ms: ms, ..self }
    }

    /// Sets the most attempts allowed.
    pub fn max_attempts(self, attempts: u8) -> (r: Self)
        ensures
            r == (ExponentialBackoff { max_attempts: attempts, ..self }),
    {
        ExponentialBackoff { max_attempts: attempts, ..self }
    }

    /// Sets the jitter factor, clamped to the range from 0.0 to 1.0.
    pub fn jitter_factor(self, factor: i64) -> (r: Self)
        ensures
            r == (ExponentialBackoff { jitter_factor: clamp_unit(factor), ..self }),
    {
        ExponentialBackoff { jitter_factor: normalize_jitter(factor), ..self }
    }

    /// The exponent for `attempt`: one less, and zero for attempt zero.
    pub open spec fn exponent(attempt: u8) -> nat {
        if attempt == 0 {
            0
        } else {
            (attempt - 1) as nat
        }
    }

    /// The delay before jitter: the base delay times the multiplier to the
    /// power of the attempts before, or the cap where that is less.
    pub open spec fn base_delay(&self, attempt: u8) -> u64 {
        exponential_base(
            self.base_delay_ms,
            self.multiplier,
            Self::exponent(attempt),
            self.max_delay_ms,
        ) as u64
    }

    /// The answer of `delay` when the random scalar drawn is `scalar`.
    pub open spec fn delay_for(&self, attempt: u8, scalar: i64) -> Option<u64> {
        if attempt >= self.max_attempts {
            None
        } else {
            Some(
                exponential_delay(
                    self.base_delay_ms,
                    self.multiplier,
                    Self::exponent(attempt),
                    self.max_delay_ms,
                    self.jitter_factor,
                    scalar,
                ) as u64,
            )
        }
    }

    /// The delay after `attempt` for a given random `scalar` between 0 and `UNIT`.
    pub fn delay_with(&self, attempt: u8, scalar: i64) -> (r: Option<u64>)
        ensures
            r == self.delay_for(attempt, scalar),
            r matches Some(d) ==> d <= self.base_delay(attempt),
    {
        if attempt >= self.max_attempts {
            return None;
        }
        let exponent: u8 = attempt.saturating_sub(1);
        proof {
            lemma_exponential_bounds(
                self.base_delay_ms,
                self.multiplier,
                exponent as nat,
                self.max_delay_ms,
                self.jitter_factor,
                scalar,
            );
        }
        Some(
            exponential_delay_ms(
                self.base_delay_ms,
                self.multiplier,
                exponent,
                self.max_delay_ms,
                self.jitter_factor,
                scalar,
            ),
        )
    }

    /// Whatever `delay` may answer: nothing exactly where the attempts have
    /// run out, else a delay that is at most the delay before jitter, and the
    /// delay before jitter itself where the jitter factor is zero.
    pub proof fn lemma_delay_outcomes(&self, attempt: u8, outcome: Option<u64>)
        requires
            self.may_delay(attempt, outcome),
        ensures
            outcome is None <==> attempt >= self.max_attempts,
            outcome matches Some(d) ==> d <= self.base_delay(attempt),
            self.jitter_factor <= 0 ==> (outcome matches Some(d) ==> d == self.base_delay(attempt)),
    {
        let scalar = choose|scalar: i64|
            0 <= scalar <= UNIT && outcome == #[trigger] self.delay_for(attempt, scalar);
        lemma_exponential_bounds(
            self.base_delay_ms,
            self.multiplier,
            Self::exponent(attempt),
            self.max_delay_ms,
            self.jitter_factor,
            scalar,
        );
    }

    /// Below its limit the strategy always names a delay.
    pub proof fn lemma_declines_only_at_limit(&self)
        ensures
            forall|attempt: u8| attempt < self.attempt_limit() ==> !self.may_delay(attempt, None),
    {
        assert forall|attempt: u8| attempt < self.attempt_limit() implies !self.may_delay(
            attempt,
            None,
        ) by {
            if self.may_delay(attempt, None) {
                self.lemma_delay_outcomes(attempt, None);
            }
        }
    }

    /// Without jitter the strategy has one answer for each attempt: the delay
    /// before jitter, or nothing where the attempts have run out.
    pub proof fn lemma_one_answer_without_jitter(&self)
        requires
            self.jitter_factor <= 0,
        ensures
            forall|attempt: u8, d: u64|
                self.may_delay(attempt, Some(d)) ==> d == self.base_delay(attempt),
            forall|attempt: u8, x: Option<u64>, y: Option<u64>|
                self.may_delay(attempt, x) && self.may_delay(attempt, y) ==> x == y,
    {
        assert forall|attempt: u8, d: u64| self.may_delay(attempt, Some(d)) implies d
            == self.base_delay(attempt) by {
            self.lemma_delay_outcomes(attempt, Some(d));
        }
        assert forall|attempt: u8, x: Option<u64>, y: Option<u64>|
            self.may_delay(attempt, x) && self.may_delay(attempt, y) implies x == y by {
            self.lemma_delay_outcomes(attempt, x);
            self.lemma_delay_outcomes(attempt, y);
        }
    }
}

impl Default for ExponentialBackoff {
    fn default() -> (r: Self)
        ensures
            r == Self::default_value(),
    {
        ExponentialBackoff::new()
    }
}

impl BackoffStrategy for ExponentialBackoff {
    open spec fn attempt_limit(&self) -> u8 {
        self.max_attempts
    }

    open spec fn may_delay(&self, attempt: u8, outcome: Option<u64>) -> bool {
        exists|scalar: i64| 0 <= scalar <= UNIT && outcome == #[trigger] self.delay_for(attempt, scalar)
    }

    fn delay(&self, attempt: u8, rng: &mut SmallRng) -> (r: Option<u64>)
        ensures
            r is None <==> attempt >= self.max_attempts,
            r matches Some(d) ==> d <= self.base_delay(attempt),
    {
        let scalar: i64 = draw_scalar(rng);
        self.delay_with(attempt, scalar)
    }

    fn should_retry(&self, attempt: u8) -> (r: bool) {
        attempt < self.max_attempts
    }

    fn max_attempts(&self) -> (r: u8) {
        self.max_attempts
    }
}

/// Any one of the three strategies, as plain data.
#[derive(Debug, Clone, Copy)]
pub enum BackoffPolicy {
    /// An exponential backoff.
    Exponential(ExponentialBackoff),
    /// A constant backoff.
    Constant(ConstantBackoff),
    /// A Fibonacci backoff.
    Fibonacci(FibonacciBackoff),
}

impl BackoffPolicy {
    /// The most attempts that the strategy inside allows.
    pub fn max_attempts(&self) -> (r: u8)
        ensures
            r == self.attempt_limit(),
    {
        match self {
            BackoffPolicy::Exponential(policy) => policy.max_attempts,
            BackoffPolicy::Constant(policy) => policy.max_attempts,
            BackoffPolicy::Fibonacci(policy) => policy.max_attempts,
        }
    }

    /// The jitter factor of the strategy inside.
    pub open spec fn jitter(&self) -> i64 {
        match self {
            BackoffPolicy::Exponential(policy) => policy.jitter_factor,
            BackoffPolicy::Constant(policy) => policy.jitter_factor,
            BackoffPolicy::Fibonacci(policy) => policy.jitter_factor,
        }
    }

    /// The delay before jitter of the strategy inside.
    pub open spec fn base_delay(&self, attempt: u8) -> u64 {
        match self {
            BackoffPolicy::Exponential(policy) => policy.base_delay(attempt),
            BackoffPolicy::Constant(policy) => policy.base_delay(attempt),
            BackoffPolicy::Fibonacci(policy) => policy.base_delay(attempt),
        }
    }

    /// The answer of `delay` when the random scalar drawn is `scalar`.
    pub open spec fn delay_for(&self, attempt: u8, scalar: i64) -> Option<u64> {
        match self {
            BackoffPolicy::Exponential(policy) => policy.delay_for(attempt, scalar),
            BackoffPolicy::Constant(policy) => policy.delay_for(attempt, scalar),
            BackoffPolicy::Fibonacci(policy) => policy.delay_for(attempt, scalar),
        }
    }

    /// The delay after `attempt` for a given random `scalar` between 0 and `UNIT`.
    pub fn delay_with(&self, attempt: u8, scalar: i64) -> (r: Option<u64>)
        ensures
            r == self.delay_for(attempt, scalar),
            r matches Some(d) ==> d <= self.base_delay(attempt),
    {
        match self {
            BackoffPolicy::Exponential(policy) => policy.delay_with(attempt, scalar),
            BackoffPolicy::Constant(policy) => policy.delay_with(attempt, scalar),
            BackoffPolicy::Fibonacci(policy) => policy.delay_with(attempt, scalar),
        }
    }

    /// Whatever `delay` may answer: nothing exactly where the attempts have
    /// run out, else a delay that is at most the delay before jitter, and the
    /// delay before jitter itself where the jitter factor is zero.
    pub proof fn lemma_delay_outcomes(&self, attempt: u8, outcome: Option<u64>)
        requires
            self.may_delay(attempt, outcome),
        ensures
            outcome is None <==> attempt >= self.attempt_limit(),
            outcome matches Some(d) ==> d <= self.base_delay(attempt),
            self.jitter() <= 0 ==> (outcome matches Some(d) ==> d == self.base_delay(attempt)),
    {
        match self {
            BackoffPolicy::Exponential(policy) => policy.lemma_delay_outcomes(attempt, outcome),
            BackoffPolicy::Constant(policy) => policy.lemma_delay_outcomes(attempt, outcome),
            BackoffPolicy::Fibonacci(policy) => policy.lemma_delay_outcomes(attempt, outcome),
        }
    }

    /// Below its limit the strategy always names a delay.
    pub proof fn lemma_declines_only_at_limit(&self)
        ensures
            forall|attempt: u8| attempt < self.attempt_limit() ==> !self.may_delay(attempt, None),
    {
        assert forall|attempt: u8| attempt < self.attempt_limit() implies !self.may_delay(
            attempt,
            None,
        ) by {
            if self.may_delay(attempt, None) {
                self.lemma_delay_outcomes(attempt, None);
            }
        }
    }

    /// Without jitter the strategy has one answer for each attempt: the delay
    /// before jitter, or nothing where the attempts have run out.
    pub proof fn lemma_one_answer_without_jitter(&self)
        requires
            self.jitter() <= 0,
        ensures
            forall|attempt: u8, d: u64|
                self.may_delay(attempt, Some(d)) ==> d == self.base_delay(attempt),
            forall|attempt: u8, x: Option<u64>, y: Option<u64>|
                self.may_delay(attempt, x) && self.may_delay(attempt, y) ==> x == y,
    {
        assert forall|attempt: u8, d: u64| self.may_delay(attempt, Some(d)) implies d
            == self.base_delay(attempt) by {
            self.lemma_delay_outcomes(attempt, Some(d));
        }
        assert forall|attempt: u8, x: Option<u64>, y: Option<u64>|
            self.may_delay(attempt, x) && self.may_delay(attempt, y) implies x == y by {
            self.lemma_delay_outcomes(attempt, x);
            self.lemma_delay_outcomes(attempt, y);
        }
    }
}

impl BackoffStrategy for BackoffPolicy {
    open spec fn attempt_limit(&self) -> u8 {
        match self {
            BackoffPolicy::Exponential(policy) => policy.max_attempts,
            BackoffPolicy::Constant(policy) => policy.max_attempts,
            BackoffPolicy::Fibonacci(policy) => policy.max_attempts,
        }
    }

    open spec fn may_delay(&self, attempt: u8, outcome: Option<u64>) -> bool {
        match self {
            BackoffPolicy::Exponential(policy) => policy.may_delay(attempt, outcome),
            BackoffPolicy::Constant(policy) => policy.may_delay(attempt, outcome),
            BackoffPolicy::Fibonacci(policy) => policy.may_delay(attempt, outcome),
        }
    }

    fn delay(&self, attempt: u8, rng: &mut SmallRng) -> (r: Option<u64>)
        ensures
            r is None <==> attempt >= self.attempt_limit(),
            r matches Some(d) ==> d <= self.base_delay(attempt),
    {
        match self {
            BackoffPolicy::Exponential(policy) => policy.delay(attempt, rng),
            BackoffPolicy::Constant(policy) => policy.delay(attempt, rng),
            BackoffPolicy::Fibonacci(policy) => policy.delay(attempt, rng),
        }
    }

    fn should_retry(&self, attempt: u8) -> (r: bool) {
        match self {
            BackoffPolicy::Exponential(policy) => policy.should_retry(attempt),
            BackoffPolicy::Constant(policy) => policy.should_retry(attempt),
            BackoffPolicy::Fibonacci(policy) => policy.should_retry(attempt),
        }
    }

    fn max_attempts(&self) -> (r: u8) {
        match self {
            BackoffPolicy::Exponential(policy) => policy.max_attempts,
            BackoffPolicy::Constant(policy) => policy.max_attempts,
            BackoffPolicy::Fibonacci(policy) => policy.max_attempts,
        }
    }
}

impl From<ExponentialBackoff> for BackoffPolicy {
    fn from(value: ExponentialBackoff) -> (r: Self) {
        BackoffPolicy::Exponential(value)
    }
}

impl vstd::std_specs::convert::FromSpecImpl<ExponentialBackoff> for BackoffPolicy {
    open spec fn obeys_from_spec() -> bool {
        true
    }

    open spec fn from_spec(value: ExponentialBackoff) -> Self {
        BackoffPolicy::Exponential(value)
    }
}

impl From<ConstantBackoff> for BackoffPolicy {
    fn from(value: ConstantBackoff) -> (r: Self) {
        BackoffPolicy::Constant(value)
    }
}

impl vstd::std_specs::convert::FromSpecImpl<ConstantBackoff> for BackoffPolicy {
    open spec fn obeys_from_spec() -> bool {
        true
    }

    open spec fn from_spec(value: ConstantBackoff) -> Self {
        BackoffPolicy::Constant(value)
    }
}

impl From<FibonacciBackoff> for BackoffPolicy {
    fn from(value: FibonacciBackoff) -> (r: Self) {
        BackoffPolicy::Fibonacci(value)
    }
}

impl vstd::std_specs::convert::FromSpecImpl<FibonacciBackoff> for BackoffPolicy {
    open spec fn obeys_from_spec() -> bool {
        true
    }

    open spec fn from_spec(value: FibonacciBackoff) -> Self {
        BackoffPolicy::Fibonacci(value)
    }
}

} // verus!
