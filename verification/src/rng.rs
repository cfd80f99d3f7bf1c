//! Deterministic, seedable randomness source.
//!
//! Test fixtures must be reproducible: given the same seed, every derived
//! key, one-time output key and key image is the same on every run.  The
//! generator is a linear-congruential step over the 64-bit state space; its
//! whole behaviour is pinned down by `lcg_step` and `lcg_iter`.

use vstd::prelude::*;

verus! {

/// Multiplier of the linear-congruential step.
pub const LCG_MUL: u64 = 6364136223846793005;

/// Increment of the linear-congruential step.
pub const LCG_INC: u64 = 1442695040888963407;

/// One step of the generator: `(s * LCG_MUL + LCG_INC) mod 2^64`.  The
/// stepping rule is kept closed: callers reason about draws as an opaque
/// function of the state.
pub closed spec fn lcg_step(s: u64) -> u64 {
    ((s * LCG_MUL + LCG_INC) % 0x1_0000_0000_0000_0000) as u64
}

/// The state after `n` steps from `s`.
pub open spec fn lcg_iter(s: u64, n: nat) -> u64
    decreases n,
{
    if n == 0 {
        s
    } else {
        lcg_step(lcg_iter(s, (n - 1) as nat))
    }
}

/// Iterating `a + b` steps is iterating `a` steps, then `b` more.
pub proof fn lemma_lcg_iter_add(s: u64, a: nat, b: nat)
    ensures
        lcg_iter(s, a + b) == lcg_iter(lcg_iter(s, a), b),
    decreases b,
{
    if b > 0 {
        lemma_lcg_iter_add(s, a, (b - 1) as nat);
    }
}

/// Seedable generator whose draws are a pure function of the seed.
pub struct TestRng {
    pub state: u64,
}

impl TestRng {
    /// A generator whose first draw is `lcg_step(seed)`.
    pub fn from_seed(seed: u64) -> (r: TestRng)
        ensures
            r.state == seed,
    {
        TestRng { state: seed }
    }

    /// Draw the next value; the value drawn is also the new state.
    pub fn next_u64(&mut self) -> (r: u64)
        ensures
            final(self).state == lcg_step(old(self).state),
            r == lcg_step(old(self).state),
    {
        let s = self.state;
        proof {
            assert(s * LCG_MUL + LCG_INC < 0x1_0000_0000_0000_0000_0000_0000_0000_0000)
                by (nonlinear_arith)
                requires
                    s <= 0xFFFF_FFFF_FFFF_FFFFu64,
            ;
        }
        let wide: u128 = (s as u128) * (LCG_MUL as u128) + (LCG_INC as u128);
        let low: u128 = wide % 0x1_0000_0000_0000_0000u128;
        let r: u64 = low as u64;
        self.state = r;
        r
    }
}

} // verus!
