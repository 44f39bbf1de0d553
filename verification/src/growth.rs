//! The arithmetic of growing delays: Fibonacci numbers and powers of a
//! multiplier, capped, jittered and rounded down once to whole milliseconds.

use crate::jitter::{
    apply_jitter,
    blend,
    blend_weight,
    jittered,
    lemma_blend_bounds,
    lemma_jittered_bounds,
    UNIT,
};
use crate::wide::{lemma_pow_step, Wide};
use vstd::arithmetic::div_mod::{
    lemma_div_denominator,
    lemma_div_is_ordered,
    lemma_div_multiples_vanish,
    lemma_fundamental_div_mod,
};
use vstd::arithmetic::power::{lemma_pow0, lemma_pow_positive, pow};
use vstd::prelude::*;

verus! {

/// The Fibonacci numbers, counted from one: 1, 1, 2, 3, 5, ... (and 0 at index 0).
pub open spec fn fib(n: nat) -> nat
    decreases n,
{
    if n == 0 {
        0
    } else if n <= 2 {
        1
    } else {
        fib((n - 1) as nat) + fib((n - 2) as nat)
    }
}

/// The Fibonacci number at `n`, or `u64::MAX` where it no longer fits.
pub open spec fn fib_capped(n: nat) -> nat {
    if fib(n) <= u64::MAX {
        fib(n)
    } else {
        u64::MAX as nat
    }
}

/// The `n`-th Fibonacci number, saturating at `u64::MAX`.
pub fn fibonacci(n: u8) -> (r: u64)
    ensures
        r == fib_capped(n as nat),
{
    if n == 0 {
        return 0;
    }
    if n <= 2 {
        return 1;
    }
    let mut a: u64 = 1;
    let mut b: u64 = 1;
    let mut i: u8 = 2;
    while i < n
        invariant
            2 <= i <= n,
            a == fib_capped((i - 1) as nat),
            b == fib_capped(i as nat),
        decreases n - i,
    {
        let next: u64 = a.saturating_add(b);
        a = b;
        b = next;
        i = i + 1;
    }
    b
}

/// The Fibonacci delay before jitter, in whole milliseconds:
/// `min(base * fib(attempt), cap)`.
pub open spec fn fibonacci_base(base: u64, attempt: nat, cap: u64) -> u64 {
    let product = base * fib(attempt);
    if product >= cap {
        cap
    } else {
        product as u64
    }
}

/// The Fibonacci delay for a given random `scalar`: `min(base * fib(attempt), cap)`
/// times the blend of `jitter_factor` and `scalar`, rounded down to whole
/// milliseconds.
pub fn fibonacci_delay_ms(base: u64, attempt: u8, cap: u64, jitter_factor: i64, scalar: i64) -> (delay:
    u64)
    ensures
        delay == jittered(fibonacci_base(base, attempt as nat, cap), jitter_factor, scalar),
        delay <= fibonacci_base(base, attempt as nat, cap),
        jitter_factor <= 0 ==> delay == fibonacci_base(base, attempt as nat, cap),
{
    let number: u64 = fibonacci(attempt);
    assert(base * number <= u64::MAX * u64::MAX) by (nonlinear_arith)
        requires
            0 <= base <= u64::MAX,
            0 <= number <= u64::MAX,
    ;
    let product: u128 = (base as u128) * (number as u128);
    let capped: u64 = if product >= cap as u128 {
        cap
    } else {
        product as u64
    };
    proof {
        let exact = fib(attempt as nat);
        if exact > u64::MAX {
            if base > 0 {
                assert(base * number >= number) by (nonlinear_arith)
                    requires
                        base >= 1,
                        number >= 0,
                ;
                assert(base * exact >= exact) by (nonlinear_arith)
                    requires
                        base >= 1,
                        exact >= 0,
                ;
            } else {
                assert(base * number == 0) by (nonlinear_arith)
                    requires
                        base == 0,
                ;
                assert(base * exact == 0) by (nonlinear_arith)
                    requires
                        base == 0,
                ;
            }
        }
        assert(capped == fibonacci_base(base, attempt as nat, cap));
    }
    apply_jitter(capped, jitter_factor, scalar)
}

/// `base * multiplier^exponent` as a fraction: this numerator over `growth_denom`.
pub open spec fn growth_numer(base: u64, multiplier: i64, exponent: nat) -> int {
    base * pow(multiplier as int, exponent)
}

/// The denominator that goes with `growth_numer`: `UNIT^exponent`.
pub open spec fn growth_denom(exponent: nat) -> int {
    pow(UNIT as int, exponent)
}

/// Whether `base * multiplier^exponent` reaches `cap`.
pub open spec fn growth_capped(base: u64, multiplier: i64, exponent: nat, cap: u64) -> bool {
    growth_numer(base, multiplier, exponent) >= cap * growth_denom(exponent)
}

/// The exponential delay before jitter, in whole milliseconds:
/// `min(base * multiplier^exponent, cap)`, rounded down. A negative
/// multiplier makes the product negative at every other attempt; a negative
/// delay counts as zero.
pub open spec fn exponential_base(base: u64, multiplier: i64, exponent: nat, cap: u64) -> int {
    if growth_capped(base, multiplier, exponent, cap) {
        cap as int
    } else if growth_numer(base, multiplier, exponent) < 0 {
        0
    } else {
        growth_numer(base, multiplier, exponent) / growth_denom(exponent)
    }
}

/// The exponential delay after jitter, in whole milliseconds:
/// `min(base * multiplier^exponent, cap)` times the blend, rounded down
/// once; zero where the product is negative.
pub open spec fn exponential_delay(
    base: u64,
    multiplier: i64,
    exponent: nat,
    cap: u64,
    jitter_factor: i64,
    scalar: i64,
) -> int {
    if growth_capped(base, multiplier, exponent, cap) {
        jittered(cap, jitter_factor, scalar)
    } else if growth_numer(base, multiplier, exponent) < 0 {
        0
    } else {
        growth_numer(base, multiplier, exponent) * blend(jitter_factor, scalar) / (growth_denom(
            exponent,
        ) * (UNIT * UNIT))
    }
}

/// An exponential delay is never negative and never above the delay before
/// jitter; without jitter the two are the same.
pub proof fn lemma_exponential_bounds(
    base: u64,
    multiplier: i64,
    exponent: nat,
    cap: u64,
    jitter_factor: i64,
    scalar: i64,
)
    ensures
        0 <= exponential_delay(base, multiplier, exponent, cap, jitter_factor, scalar)
            <= exponential_base(base, multiplier, exponent, cap) <= cap,
        jitter_factor <= 0 ==> exponential_delay(
            base,
            multiplier,
            exponent,
            cap,
            jitter_factor,
            scalar,
        ) == exponential_base(base, multiplier, exponent, cap),
{
    let n = growth_numer(base, multiplier, exponent);
    let d = growth_denom(exponent);
    let w = blend(jitter_factor, scalar);
    let u = UNIT * UNIT;
    lemma_pow_positive(UNIT as int, exponent);
    lemma_blend_bounds(jitter_factor, scalar);
    lemma_jittered_bounds(cap, jitter_factor, scalar);
    if !growth_capped(base, multiplier, exponent, cap) && n >= 0 {
        lemma_whole_part_below(n, d, cap as int);
        assert(0 <= n * w <= n * u) by (nonlinear_arith)
            requires
                0 <= w <= u,
                0 <= n,
        ;
        assert(d * u > 0) by (nonlinear_arith)
            requires
                d > 0,
                u > 0,
        ;
        lemma_div_is_ordered(n * w, n * u, d * u);
        lemma_div_is_ordered(0, n * w, d * u);
        assert((n * u) / (d * u) == n / d) by {
            assert(n * u == u * n) by (nonlinear_arith);
            assert(d * u == u * d) by (nonlinear_arith);
            lemma_div_denominator(u * n, u, d);
            lemma_div_multiples_vanish(n, u);
        }
    }
}

/// A power of a negated number: the power itself for an even exponent, the
/// negated power for an odd one.
pub proof fn lemma_pow_negated(a: int, e: nat)
    ensures
        pow(-a, e) == if e % 2 == 0 {
            pow(a, e)
        } else {
            -pow(a, e)
        },
    decreases e,
{
    reveal(pow);
    if e > 0 {
        lemma_pow_negated(a, (e - 1) as nat);
        let x = pow(a, (e - 1) as nat);
        assert((-a) * x == -(a * x)) by (nonlinear_arith);
        assert((-a) * (-x) == a * x) by (nonlinear_arith);
    }
}

/// A power of a number that is not negative is not negative.
pub proof fn lemma_pow_nonnegative(b: int, e: nat)
    requires
        b >= 0,
    ensures
        pow(b, e) >= 0,
    decreases e,
{
    reveal(pow);
    if e > 0 {
        lemma_pow_nonnegative(b, (e - 1) as nat);
        assert(b * pow(b, (e - 1) as nat) >= 0) by (nonlinear_arith)
            requires
                b >= 0,
                pow(b, (e - 1) as nat) >= 0,
        ;
    }
}

/// The whole part of `n / d` is below `cap` exactly where `n` is below `cap * d`.
pub proof fn lemma_whole_part_below(n: int, d: int, cap: int)
    requires
        n >= 0,
        d > 0,
        cap >= 0,
    ensures
        n / d < cap <==> n < cap * d,
        0 <= n / d,
{
    lemma_fundamental_div_mod(n, d);
    let q = n / d;
    let r = n % d;
    assert(0 <= r < d);
    assert(q < cap <==> d * q + r < cap * d) by (nonlinear_arith)
        requires
            0 <= r < d,
            d > 0,
    ;
    assert(0 <= q) by (nonlinear_arith)
        requires
            d * q + r >= 0,
            0 <= r < d,
            d > 0,
    ;
}

/// The size of a multiplier, without its sign.
pub fn magnitude(multiplier: i64) -> (r: u64)
    ensures
        r == if multiplier < 0 {
            -multiplier
        } else {
            multiplier as int
        },
{
    if multiplier < 0 {
        (-(multiplier + 1)) as u64 + 1
    } else {
        multiplier as u64
    }
}

/// The exponential delay for a given random `scalar`:
/// `min(base * multiplier^exponent, cap)` times the blend of `jitter_factor`
/// and `scalar`, computed exactly and rounded down to whole milliseconds;
/// zero where the product is negative.
pub fn exponential_delay_ms(
    base: u64,
    multiplier: i64,
    exponent: u8,
    cap: u64,
    jitter_factor: i64,
    scalar: i64,
) -> (delay: u64)
    ensures
        delay == exponential_delay(base, multiplier, exponent as nat, cap, jitter_factor, scalar),
        delay <= exponential_base(base, multiplier, exponent as nat, cap),
        jitter_factor <= 0 ==> delay == exponential_base(base, multiplier, exponent as nat, cap),
{
    let size: u64 = magnitude(multiplier);
    let ghost m = size as int;
    let ghost u = UNIT as int;
    let ghost n = growth_numer(base, multiplier, exponent as nat);
    let ghost d = growth_denom(exponent as nat);
    proof {
        lemma_pow0(m);
        lemma_pow_positive(u, exponent as nat);
        lemma_pow_nonnegative(m, exponent as nat);
        lemma_exponential_bounds(base, multiplier, exponent as nat, cap, jitter_factor, scalar);
        if multiplier < 0 {
            lemma_pow_negated(m, exponent as nat);
        }
        assert(base * pow(m, exponent as nat) >= 0) by (nonlinear_arith)
            requires
                base >= 0,
                pow(m, exponent as nat) >= 0,
        ;
        assert(base * (-pow(m, exponent as nat)) == -(base * pow(m, exponent as nat)))
            by (nonlinear_arith);
        assert(cap * d >= 0) by (nonlinear_arith)
            requires
                cap >= 0,
                d > 0,
        ;
    }
    if multiplier < 0 && exponent % 2 == 1 {
        proof {
            lemma_jittered_bounds(cap, jitter_factor, scalar);
            if n == 0 {
                assert(0 * blend(jitter_factor, scalar) == 0);
                assert(d * (UNIT * UNIT) > 0) by (nonlinear_arith)
                    requires
                        d > 0,
                ;
                assert(0int / (d * (UNIT * UNIT)) == 0) by (nonlinear_arith)
                    requires
                        d * (UNIT * UNIT) > 0,
                ;
                assert(cap * d >= cap) by (nonlinear_arith)
                    requires
                        cap >= 0,
                        d >= 1,
                ;
            }
        }
        return 0;
    }
    assert(n == base * pow(m, exponent as nat));
    let mut numer: Wide = Wide::from_u64(base);
    let mut i: u8 = 0;
    while i < exponent
        invariant
            0 <= i <= exponent,
            m == size,
            numer@ == base * pow(m, i as nat),
        decreases exponent - i,
    {
        proof {
            lemma_pow_step(m, i as nat);
            assert(base * pow(m, i as nat) * m == base * (m * pow(m, i as nat)))
                by (nonlinear_arith);
        }
        numer.mul_small(size);
        i = i + 1;
    }
    assert(numer@ == n);
    let mut whole: Wide = numer.duplicate();
    i = 0;
    proof {
        lemma_pow0(u);
    }
    while i < exponent
        invariant
            0 <= i <= exponent,
            u == UNIT,
            n >= 0,
            whole@ == n / pow(u, i as nat),
        decreases exponent - i,
    {
        proof {
            lemma_pow_step(u, i as nat);
            lemma_pow_positive(u, i as nat);
            lemma_div_denominator(n, pow(u, i as nat), u);
            assert(pow(u, i as nat) * u == u * pow(u, i as nat)) by (nonlinear_arith);
        }
        whole.div_small(UNIT as u64);
        i = i + 1;
    }
    proof {
        lemma_whole_part_below(n, d, cap as int);
    }
    let under_cap: bool = match whole.to_u64() {
        Some(q) => q < cap,
        None => false,
    };
    if !under_cap {
        return apply_jitter(cap, jitter_factor, scalar);
    }
    let weight: u64 = blend_weight(jitter_factor, scalar);
    numer.mul_small(weight);
    let ghost scaled = n * weight;
    i = 0;
    proof {
        assert(scaled >= 0) by (nonlinear_arith)
            requires
                scaled == n * weight,
                n >= 0,
                weight >= 0,
        ;
    }
    while i < exponent
        invariant
            0 <= i <= exponent,
            u == UNIT,
            scaled >= 0,
            numer@ == scaled / pow(u, i as nat),
        decreases exponent - i,
    {
        proof {
            lemma_pow_step(u, i as nat);
            lemma_pow_positive(u, i as nat);
            lemma_div_denominator(scaled, pow(u, i as nat), u);
            assert(pow(u, i as nat) * u == u * pow(u, i as nat)) by (nonlinear_arith);
        }
        numer.div_small(UNIT as u64);
        i = i + 1;
    }
    numer.div_small(1_000_000_000_000u64);
    proof {
        lemma_div_denominator(scaled, d, u * u);
    }
    let delay: Option<u64> = numer.to_u64();
    assert(delay is Some);
    delay.unwrap()
}

} // verus!
