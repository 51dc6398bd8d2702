//! Retry policy and the exponential backoff it prescribes after consecutive
//! failures: `base * multiplier^(failures - 1)`, capped at `cap`.

use vstd::prelude::*;

verus! {

/// How a subscription is retried after failures: at most `max_attempts`
/// retries at backoff spacing, after which the normal interval cadence
/// resumes.
#[derive(Clone, Copy, Debug, PartialEq, Eq, Structural)]
pub struct RetryPolicy {
    pub max_attempts: u32,
    pub base_ms: u64,
    pub multiplier: u64,
    pub cap_ms: u64,
}

impl RetryPolicy {
    /// A policy is well formed when the backoff actually grows: a zero base
    /// or multiplier would schedule immediate retries forever.
    pub open spec fn valid(self) -> bool {
        &&& self.base_ms >= 1
        &&& self.multiplier >= 1
    }

    /// Runtime form of `valid`.
    pub fn is_valid(&self) -> (r: bool)
        ensures
            r == self.valid(),
    {
        self.base_ms >= 1 && self.multiplier >= 1
    }
}

/// `base * mult^k`, the uncapped backoff after `k + 1` consecutive failures.
pub open spec fn geometric(base: int, mult: int, k: nat) -> int
    decreases k,
{
    if k == 0 {
        base
    } else {
        geometric(base, mult, (k - 1) as nat) * mult
    }
}

/// The delay before the retry that follows the `failures`-th consecutive
/// failure: geometric growth from the base, capped at `cap_ms`.
pub open spec fn backoff_spec(p: RetryPolicy, failures: u32) -> int
    recommends
        1 <= failures,
{
    let raw = geometric(p.base_ms as int, p.multiplier as int, (failures - 1) as nat);
    if raw >= p.cap_ms as int {
        p.cap_ms as int
    } else {
        raw
    }
}

/// With a nonnegative base and a multiplier of at least one, each step of the
/// geometric sequence is at least the one before it, and never negative.
proof fn lemma_geometric_step(base: int, mult: int, k: nat)
    requires
        base >= 0,
        mult >= 1,
    ensures
        geometric(base, mult, k) >= 0,
        geometric(base, mult, k + 1) >= geometric(base, mult, k),
    decreases k,
{
    if k == 0 {
        assert(geometric(base, mult, 0) == base);
        assert(geometric(base, mult, 1) == geometric(base, mult, 0) * mult);
        assert(base * mult >= base) by (nonlinear_arith)
            requires
                base >= 0,
                mult >= 1,
        ;
    } else {
        lemma_geometric_step(base, mult, (k - 1) as nat);
        let prev = geometric(base, mult, k);
        assert(prev >= 0) by {
            assert(geometric(base, mult, (k - 1) as nat) >= 0);
            assert(prev == geometric(base, mult, (k - 1) as nat) * mult);
            assert(geometric(base, mult, (k - 1) as nat) * mult >= 0) by (nonlinear_arith)
                requires
                    geometric(base, mult, (k - 1) as nat) >= 0,
                    mult >= 1,
            ;
        }
        assert(geometric(base, mult, k + 1) == prev * mult);
        assert(prev * mult >= prev) by (nonlinear_arith)
            requires
                prev >= 0,
                mult >= 1,
        ;
    }
}

/// The geometric sequence is monotonically non-decreasing in the exponent.
proof fn lemma_geometric_mono(base: int, mult: int, k1: nat, k2: nat)
    requires
        base >= 0,
        mult >= 1,
        k1 <= k2,
    ensures
        geometric(base, mult, k1) <= geometric(base, mult, k2),
        geometric(base, mult, k1) >= 0,
    decreases k2 - k1,
{
    lemma_geometric_step(base, mult, k1);
    if k1 < k2 {
        lemma_geometric_mono(base, mult, (k1 + 1) as nat, k2);
    }
}

impl RetryPolicy {
    /// The delay in milliseconds before the retry that follows the
    /// `failures`-th consecutive failure.
    pub fn backoff_ms(&self, failures: u32) -> (r: u64)
        requires
            self.valid(),
            1 <= failures,
        ensures
            r == backoff_spec(*self, failures),
    {
        let base = self.base_ms;
        let mult = self.multiplier;
        let cap = self.cap_ms;
        let mut acc: u64 = base;
        let mut i: u32 = 1;
        while i < failures
            invariant
                1 <= i <= failures,
                acc == geometric(base as int, mult as int, (i - 1) as nat),
                mult >= 1,
                base >= 1,
                base == self.base_ms,
                mult == self.multiplier,
                cap == self.cap_ms,
            decreases failures - i,
        {
            if acc >= cap {
                proof {
                    lemma_geometric_mono(base as int, mult as int, (i - 1) as nat, (
                    failures - 1) as nat);
                }
                return cap;
            }
            acc = match acc.checked_mul(mult) {
                Some(v) => v,
                None => {
                    proof {
                        assert(geometric(base as int, mult as int, i as nat) == acc * mult);
                        lemma_geometric_mono(base as int, mult as int, i as nat, (
                        failures - 1) as nat);
                    }
                    return cap;
                },
            };
            i = i + 1;
        }
        if acc >= cap {
            cap
        } else {
            acc
        }
    }
}

} // verus!
