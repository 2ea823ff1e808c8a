//! A small deterministic pseudo-random generator.

use vstd::prelude::*;

verus! {

/// Multiplier of the linear congruential step.
pub const LCG_MULTIPLIER: u64 = 6364136223846793005;

/// The state that follows `s`: `s * LCG_MULTIPLIER + 1`, reduced modulo 2^64.
pub open spec fn next_state(s: u64) -> u64 {
    ((s as int * LCG_MULTIPLIER as int + 1) % 0x1_0000_0000_0000_0000) as u64
}

/// The number a state gives out: its upper 32 bits.
pub open spec fn output_of(s: u64) -> u32 {
    (s as int / 0x1_0000_0000) as u32
}

/// Linear congruential generator over 64-bit states.
pub struct Rng {
    state: u64,
}

impl Rng {
    /// The current state.
    pub closed spec fn state(&self) -> u64 {
        self.state
    }

    /// Starts a generator from `seed`; a zero seed is replaced by one.
    pub fn new(seed: u64) -> (r: Rng)
        ensures
            r.state() == (if seed == 0 { 1u64 } else { seed }),
    {
        Rng { state: if seed == 0 { 1 } else { seed } }
    }

    /// Advances the state by one step and returns the upper half of the new state.
    pub fn next_u32(&mut self) -> (out: u32)
        ensures
            final(self).state() == next_state(old(self).state()),
            out == output_of(final(self).state()),
    {
        let prod: u64 = self.state.wrapping_mul(LCG_MULTIPLIER);
        let s: u64 = prod.wrapping_add(1);
        proof {
            lemma_step(self.state, prod, s);
        }
        self.state = s;
        let hi: u64 = s >> 32;
        assert(hi == s / 0x1_0000_0000 && hi <= 0xffff_ffff) by (bit_vector)
            requires
                hi == s >> 32,
        ;
        hi as u32
    }
}

proof fn lemma_step(s0: u64, prod: u64, s: u64)
    requires
        prod == vstd::wrapping::u64_specs::wrapping_mul(s0, LCG_MULTIPLIER),
        s == vstd::wrapping::u64_specs::wrapping_add(prod, 1),
    ensures
        s == next_state(s0),
{
    let m: int = 0x1_0000_0000_0000_0000;
    let p: int = s0 as int * LCG_MULTIPLIER as int;
    assert(prod as int == p % m);
    assert(s as int == (prod as int + 1) % m);
    assert((p % m + 1) % m == (p + 1) % m) by {
        vstd::arithmetic::div_mod::lemma_add_mod_noop(p, 1, m);
    }
}

} // verus!
