//! Pausing between attempts.

use vstd::prelude::*;

verus! {

/// The capability to pause the caller for a number of milliseconds.
pub trait Sleeper {
    /// Whether `sleep_ms` may be called with `ms`: always, unless a sleeper
    /// says otherwise.
    open spec fn can_sleep(&self, ms: u64) -> bool {
        true
    }

    /// Whether the sleeper has been asked to pause for `ms` and has returned.
    open spec fn slept(&self, ms: u64) -> bool {
        true
    }

    /// Pauses for `ms` milliseconds.
    fn sleep_ms(&self, ms: u64)
        requires
            self.can_sleep(ms),
        ensures
            self.slept(ms),
    ;
}

/// A sleeper made of a function that takes the milliseconds to pause for.
#[derive(Clone, Copy)]
pub struct FnSleeper<F: Fn(u64)>(pub F);

impl<F: Fn(u64)> FnSleeper<F> {
    /// A sleeper that pauses by calling `pause`.
    pub fn new(pause: F) -> (r: Self)
        ensures
            r.0 == pause,
            forall|ms: u64| r.can_sleep(ms) <==> call_requires(pause, (ms,)),
            forall|ms: u64| r.slept(ms) <==> call_ensures(pause, (ms,), ()),
    {
        FnSleeper(pause)
    }
}

impl<F: Fn(u64)> Sleeper for FnSleeper<F> {
    open spec fn can_sleep(&self, ms: u64) -> bool {
        call_requires(self.0, (ms,))
    }

    open spec fn slept(&self, ms: u64) -> bool {
        call_ensures(self.0, (ms,), ())
    }

    fn sleep_ms(&self, ms: u64) {
        (self.0)(ms)
    }
}

} // verus!
