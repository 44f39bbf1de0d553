//! Retry with backoff: delay schedules, a retry engine and a named-policy registry.

pub mod backoff;
pub mod dsl;
pub mod growth;
pub mod jitter;
pub mod policy;
pub mod random;
pub mod retry;
pub mod session;
pub mod sleep;
pub mod text;
pub mod wide;

pub use crate::backoff::{
    BackoffPolicy,
    BackoffStrategy,
    ConstantBackoff,
    ExponentialBackoff,
    FibonacciBackoff,
};
pub use crate::dsl::{builder_for_policy, retry_with_policy, DslError};
pub use crate::policy::PolicyRegistry;
pub use crate::retry::{RetryBuilder, RetryError, RetryOutcome, Retryable, RetryableExt};
pub use crate::sleep::{FnSleeper, Sleeper};

use crate::growth::{
    exponential_base,
    exponential_delay,
    exponential_delay_ms,
    lemma_exponential_bounds,
};
use crate::jitter::UNIT;
use crate::random::{draw_scalar, session_rng};
use rand::rngs::SmallRng;
use vstd::prelude::*;

verus! {

/// An exponential schedule without a jitter factor of its own: the caller
/// names the jitter with each delay it asks for.
#[derive(Debug, Clone, Copy)]
pub struct Policy {
    /// The most attempts allowed; the first try counts.
    pub max_attempts: u8,
    /// The delay in milliseconds after the first attempt.
    pub base_delay_ms: u64,
    /// The growth factor in millionths: `2 * UNIT` doubles the delay each time.
    pub multiplier: i64,
    /// The cap on the delay in milliseconds, before jitter.
    pub max_delay_ms: u64,
}

impl Policy {
    /// The default: three attempts, 100 ms doubling up to 10 s.
    pub open spec fn default_value() -> Self {
        Policy { max_attempts: 3, base_delay_ms: 100, multiplier: 2_000_000, max_delay_ms: 10_000 }
    }

    /// A policy with the default values.
    pub fn new() -> (r: Self)
        ensures
            r == Self::default_value(),
    {
        Policy { max_attempts: 3, base_delay_ms: 100, multiplier: 2 * UNIT, max_delay_ms: 10_000 }
    }

    /// The exponent for `attempt`: one less, and zero for attempt zero.
    pub open spec fn exponent(attempt: u8) -> nat {
        if attempt == 0 {
            0
        } else {
            (attempt - 1) as nat
        }
    }

    /// The delay before jitter: the base delay times the multiplier to the
    /// power of the attempts before, or the cap where that is less.
    pub open spec fn base_delay(&self, attempt: u8) -> u64 {
        exponential_base(
            self.base_delay_ms,
            self.multiplier,
            Self::exponent(attempt),
            self.max_delay_ms,
        ) as u64
    }

    /// The delay after `attempt` under `jitter_factor` when the random scalar
    /// drawn is `scalar`.
    pub open spec fn delay_for(&self, attempt: u8, jitter_factor: i64, scalar: i64) -> u64 {
        exponential_delay(
            self.base_delay_ms,
            self.multiplier,
            Self::exponent(attempt),
            self.max_delay_ms,
            jitter_factor,
            scalar,
        ) as u64
    }

    /// The delay after `attempt` under `jitter_factor` for a given random
    /// `scalar` between 0 and `UNIT`. A jitter factor below 0.0 counts as 0.0,
    /// one above 1.0 as 1.0.
    pub fn calculate_delay_with(&self, attempt: u8, jitter_factor: i64, scalar: i64) -> (r: u64)
        ensures
            r == self.delay_for(attempt, jitter_factor, scalar),
            r <= self.base_delay(attempt),
            jitter_factor <= 0 ==> r == self.base_delay(attempt),
    {
        let exponent: u8 = attempt.saturating_sub(1);
        proof {
            lemma_exponential_bounds(
                self.base_delay_ms,
                self.multiplier,
                exponent as nat,
                self.max_delay_ms,
                jitter_factor,
                scalar,
            );
        }
        exponential_delay_ms(
            self.base_delay_ms,
            self.multiplier,
            exponent,
            self.max_delay_ms,
            jitter_factor,
            scalar,
        )
    }

    /// The delay after `attempt` under `jitter_factor`, with a scalar drawn
    /// from a generator of its own.
    pub fn calculate_delay(&self, attempt: u8, jitter_factor: i64) -> (r: u64)
        ensures
            exists|scalar: i64|
                0 <= scalar <= UNIT && r == #[trigger] self.delay_for(attempt, jitter_factor, scalar),
            r <= self.base_delay(attempt),
            jitter_factor <= 0 ==> r == self.base_delay(attempt),
    {
        let mut rng: SmallRng = session_rng();
        self.calculate_delay_with_rng(attempt, jitter_factor, &mut rng)
    }

    /// The delay after `attempt` under `jitter_factor`, with a scalar drawn from `rng`.
    pub fn calculate_delay_with_rng(&self, attempt: u8, jitter_factor: i64, rng: &mut SmallRng) -> (r:
        u64)
        ensures
            exists|scalar: i64|
                0 <= scalar <= UNIT && r == #[trigger] self.delay_for(attempt, jitter_factor, scalar),
            r <= self.base_delay(attempt),
            jitter_factor <= 0 ==> r == self.base_delay(attempt),
    {
        let scalar: i64 = draw_scalar(rng);
        self.calculate_delay_with(attempt, jitter_factor, scalar)
    }

    /// Whether another attempt may follow `current_attempt`.
    pub fn should_retry(&self, current_attempt: u8) -> (r: bool)
        ensures
            r == (current_attempt < self.max_attempts),
    {
        current_attempt < self.max_attempts
    }
}

impl Default for Policy {
    fn default() -> (r: Self)
        ensures
            r == Self::default_value(),
    {
        Policy::new()
    }
}

} // verus!
