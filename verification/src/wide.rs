//! Natural numbers of any size, for products that outgrow a machine word.

use vstd::arithmetic::div_mod::lemma_fundamental_div_mod_converse;
use vstd::arithmetic::power::{lemma_pow0, lemma_pow_positive, pow};
use vstd::prelude::*;

verus! {

/// The base of the digits of a [`Wide`]: 2 to the power of 32.
pub const LIMB_BASE: u64 = 0x1_0000_0000;

/// The number that `limbs` spell in base `LIMB_BASE`, least significant digit first.
pub open spec fn limbs_value(limbs: Seq<u32>) -> nat
    decreases limbs.len(),
{
    if limbs.len() == 0 {
        0
    } else {
        limbs[0] as nat + LIMB_BASE as nat * limbs_value(limbs.drop_first())
    }
}

/// No digits spell zero.
pub proof fn lemma_value_empty()
    ensures
        limbs_value(Seq::<u32>::empty()) == 0,
{
}

/// One more factor of `b`.
pub proof fn lemma_pow_step(b: int, e: nat)
    ensures
        pow(b, e + 1) == b * pow(b, e),
{
    reveal(pow);
}

/// A digit appended at the top adds the digit times the weight of its place.
pub proof fn lemma_value_push(limbs: Seq<u32>, digit: u32)
    ensures
        limbs_value(limbs.push(digit)) == limbs_value(limbs) + digit * pow(
            LIMB_BASE as int,
            limbs.len(),
        ),
    decreases limbs.len(),
{
    let b = LIMB_BASE as int;
    if limbs.len() == 0 {
        assert(limbs.push(digit).drop_first() =~= Seq::<u32>::empty());
        lemma_value_empty();
        lemma_pow0(b);
    } else {
        let rest = limbs.drop_first();
        assert(limbs.push(digit).drop_first() =~= rest.push(digit));
        lemma_value_push(rest, digit);
        lemma_pow_step(b, rest.len());
        let w = pow(b, rest.len());
        assert(b * (limbs_value(rest) + digit * w) == b * limbs_value(rest) + digit * (b * w))
            by (nonlinear_arith);
    }
}

/// The value of the lowest `n + 1` digits, from that of the lowest `n`.
pub proof fn lemma_value_take(limbs: Seq<u32>, n: int)
    requires
        0 <= n < limbs.len(),
    ensures
        limbs_value(limbs.take(n + 1)) == limbs_value(limbs.take(n)) + limbs[n] * pow(
            LIMB_BASE as int,
            n as nat,
        ),
{
    assert(limbs.take(n + 1) =~= limbs.take(n).push(limbs[n]));
    lemma_value_push(limbs.take(n), limbs[n]);
}

/// The value of the digits from place `n` up, from that of the digits above.
pub proof fn lemma_value_skip(limbs: Seq<u32>, n: int)
    requires
        0 <= n < limbs.len(),
    ensures
        limbs_value(limbs.skip(n)) == limbs[n] + LIMB_BASE * limbs_value(limbs.skip(n + 1)),
{
    assert(limbs.skip(n).drop_first() =~= limbs.skip(n + 1));
}

/// A natural number held as digits in base `LIMB_BASE`.
#[derive(Debug)]
pub struct Wide {
    limbs: Vec<u32>,
}

impl View for Wide {
    type V = nat;

    closed spec fn view(&self) -> nat {
        limbs_value(self.limbs@)
    }
}

impl Wide {
    /// The number `x`.
    pub fn from_u64(x: u64) -> (r: Wide)
        ensures
            r@ == x,
    {
        let mut limbs: Vec<u32> = Vec::new();
        let low: u32 = (x % LIMB_BASE) as u32;
        let high: u32 = (x / LIMB_BASE) as u32;
        limbs.push(low);
        limbs.push(high);
        proof {
            let s = limbs@;
            assert(s.drop_first().drop_first() =~= Seq::<u32>::empty());
            lemma_value_empty();
            assert(limbs_value(s.drop_first()) == high);
        }
        Wide { limbs }
    }

    /// A second copy of the number.
    pub fn duplicate(&self) -> (r: Wide)
        ensures
            r@ == self@,
    {
        let limbs: Vec<u32> = self.limbs.clone();
        assert(limbs@ =~= self.limbs@);
        Wide { limbs }
    }

    /// Multiplies the number by `factor`.
    pub fn mul_small(&mut self, factor: u64)
        ensures
            final(self)@ == old(self)@ * factor,
    {
        let n: usize = self.limbs.len();
        let mut out: Vec<u32> = Vec::new();
        let mut carry: u64 = 0;
        let mut i: usize = 0;
        let ghost b = LIMB_BASE as int;
        proof {
            lemma_pow0(b);
            lemma_value_empty();
            assert(self.limbs@.take(0) =~= Seq::<u32>::empty());
        }
        while i < n
            invariant
                n == self.limbs.len(),
                b == LIMB_BASE,
                0 <= i <= n,
                out.len() == i,
                carry <= factor,
                factor > 0 ==> carry < factor,
                limbs_value(out@) + carry * pow(b, i as nat) == limbs_value(self.limbs@.take(i as int))
                    * factor,
            decreases n - i,
        {
            let digit: u32 = self.limbs[i];
            assert(digit * factor + carry <= (LIMB_BASE - 1) * factor + carry) by (nonlinear_arith)
                requires
                    digit <= LIMB_BASE - 1,
                    0 <= factor,
            ;
            assert((LIMB_BASE - 1) * factor + carry < LIMB_BASE * 0x1_0000_0000_0000_0000int)
                by (nonlinear_arith)
                requires
                    0 <= factor < 0x1_0000_0000_0000_0000int,
                    0 <= carry < 0x1_0000_0000_0000_0000int,
                    LIMB_BASE == 0x1_0000_0000,
            ;
            let cur: u128 = (digit as u128) * (factor as u128) + (carry as u128);
            let low: u32 = (cur % (LIMB_BASE as u128)) as u32;
            let high: u128 = cur / (LIMB_BASE as u128);
            proof {
                assert(cur == high * b + low) by {
                    vstd::arithmetic::div_mod::lemma_fundamental_div_mod(cur as int, b);
                    assert(b * (cur as int / b) == (cur as int / b) * b) by (nonlinear_arith);
                }
                assert(high <= factor && (factor > 0 ==> high < factor)) by (nonlinear_arith)
                    requires
                        cur == high * b + low,
                        cur <= (b - 1) * factor + carry,
                        carry <= factor,
                        factor > 0 ==> carry < factor,
                        0 <= low,
                        0 <= high,
                        b == 0x1_0000_0000,
                        0 <= factor,
                ;
                let w = pow(b, i as nat);
                lemma_value_push(out@, low);
                lemma_value_take(self.limbs@, i as int);
                lemma_pow_step(b, i as nat);
                let v = limbs_value(self.limbs@.take(i as int));
                assert(limbs_value(out@) + low * w + high * (b * w) == (v + digit * w) * factor)
                    by (nonlinear_arith)
                    requires
                        limbs_value(out@) + carry * w == v * factor,
                        digit * factor + carry == high * b + low,
                ;
            }
            out.push(low);
            carry = high as u64;
            i = i + 1;
        }
        let low: u32 = (carry % LIMB_BASE) as u32;
        let high: u32 = (carry / LIMB_BASE) as u32;
        proof {
            assert(self.limbs@.take(n as int) =~= self.limbs@);
            let w = pow(b, n as nat);
            lemma_value_push(out@, low);
            lemma_value_push(out@.push(low), high);
            lemma_pow_step(b, n as nat);
            assert(low * w + high * (b * w) == carry * w) by (nonlinear_arith)
                requires
                    carry == high * b + low,
            ;
        }
        out.push(low);
        out.push(high);
        self.limbs = out;
    }

    /// Divides the number by `divisor`, rounding down.
    pub fn div_small(&mut self, divisor: u64)
        requires
            divisor > 0,
        ensures
            final(self)@ == old(self)@ / (divisor as nat),
    {
        let n: usize = self.limbs.len();
        let ghost before = self.limbs@;
        let ghost b = LIMB_BASE as int;
        let mut rem: u64 = 0;
        let mut i: usize = n;
        proof {
            lemma_value_empty();
            assert(before.skip(n as int) =~= Seq::<u32>::empty());
        }
        while i > 0
            invariant
                n == self.limbs.len(),
                before.len() == n,
                b == LIMB_BASE,
                0 <= i <= n,
                divisor > 0,
                rem < divisor,
                self.limbs@.take(i as int) == before.take(i as int),
                limbs_value(before.skip(i as int)) == limbs_value(self.limbs@.skip(i as int))
                    * divisor + rem,
            decreases i,
        {
            i = i - 1;
            let digit: u32 = self.limbs[i];
            assert(self.limbs@[i as int] == self.limbs@.take(i + 1)[i as int]);
            assert(before[i as int] == before.take(i + 1)[i as int]);
            assert(rem * LIMB_BASE + digit < divisor * LIMB_BASE) by (nonlinear_arith)
                requires
                    rem + 1 <= divisor,
                    digit < LIMB_BASE,
            ;
            assert(divisor * LIMB_BASE < 0x1_0000_0000_0000_0000int * 0x1_0000_0000int)
                by (nonlinear_arith)
                requires
                    divisor < 0x1_0000_0000_0000_0000int,
                    LIMB_BASE == 0x1_0000_0000,
            ;
            let cur: u128 = (rem as u128) * (LIMB_BASE as u128) + (digit as u128);
            let quot: u128 = cur / (divisor as u128);
            let next: u128 = cur % (divisor as u128);
            proof {
                assert(cur == quot * divisor + next) by {
                    vstd::arithmetic::div_mod::lemma_fundamental_div_mod(cur as int, divisor as int);
                    assert(divisor * (cur as int / divisor as int) == (cur as int / divisor as int)
                        * divisor) by (nonlinear_arith);
                }
                assert(quot < b) by (nonlinear_arith)
                    requires
                        cur == quot * divisor + next,
                        cur < divisor * b,
                        0 <= next,
                        divisor > 0,
                ;
            }
            let ghost prior = self.limbs@;
            self.limbs.set(i, quot as u32);
            proof {
                let now = self.limbs@;
                assert(now.take(i as int) =~= before.take(i as int)) by {
                    assert(prior.take(i as int) =~= prior.take(i + 1).take(i as int));
                    assert(before.take(i as int) =~= before.take(i + 1).take(i as int));
                }
                assert(now.skip(i + 1) =~= prior.skip(i + 1));
                lemma_value_skip(now, i as int);
                lemma_value_skip(before, i as int);
                let hi_q = limbs_value(prior.skip(i + 1));
                let hi_b = limbs_value(before.skip(i + 1));
                assert(digit + b * hi_b == (quot + b * hi_q) * divisor + next) by (nonlinear_arith)
                    requires
                        hi_b == hi_q * divisor + rem,
                        rem * b + digit == quot * divisor + next,
                ;
            }
            rem = next as u64;
        }
        proof {
            assert(before.skip(0) =~= before);
            assert(self.limbs@.skip(0) =~= self.limbs@);
            lemma_fundamental_div_mod_converse(
                limbs_value(before) as int,
                divisor as int,
                limbs_value(self.limbs@) as int,
                rem as int,
            );
        }
    }

    /// The number as a `u64`, where it fits.
    pub fn to_u64(&self) -> (r: Option<u64>)
        ensures
            r is Some <==> self@ <= u64::MAX,
            r matches Some(v) ==> v == self@,
    {
        let n: usize = self.limbs.len();
        let ghost b = LIMB_BASE as int;
        let mut i: usize = n;
        proof {
            assert(self.limbs@.take(n as int) =~= self.limbs@);
        }
        while i > 2 && self.limbs[i - 1] == 0
            invariant
                n == self.limbs.len(),
                0 <= i <= n,
                limbs_value(self.limbs@) == limbs_value(self.limbs@.take(i as int)),
            decreases i,
        {
            proof {
                lemma_value_take(self.limbs@, i - 1);
            }
            i = i - 1;
        }
        if i > 2 {
            proof {
                lemma_value_take(self.limbs@, i - 1);
                lemma_pow_positive(b, (i - 3) as nat);
                lemma_pow_step(b, (i - 3) as nat);
                lemma_pow_step(b, (i - 2) as nat);
                let w = pow(b, (i - 3) as nat);
                let top = self.limbs@[i - 1];
                assert(top * (b * (b * w)) >= 0x1_0000_0000_0000_0000int) by (nonlinear_arith)
                    requires
                        top >= 1,
                        w >= 1,
                        b == 0x1_0000_0000,
                ;
            }
            return None;
        }
        let low: u64 = if i > 0 {
            self.limbs[0] as u64
        } else {
            0
        };
        let high: u64 = if i > 1 {
            self.limbs[1] as u64
        } else {
            0
        };
        proof {
            let s = self.limbs@;
            lemma_pow0(b);
            vstd::arithmetic::power::lemma_pow1(b);
            assert(s.take(0) =~= Seq::<u32>::empty());
            if i > 0 {
                lemma_value_take(s, 0);
            }
            if i > 1 {
                lemma_value_take(s, 1);
            }
            assert(limbs_value(s) == low + high * b);
        }
        Some(high * LIMB_BASE + low)
    }
}

} // verus!
