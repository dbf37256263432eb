//! Deterministic pseudo-random generator (xorshift64) shared by combat
//! rolls. The same state always yields the same sequence, so saves and
//! tests replay identically.

use vstd::prelude::*;

verus! {

pub struct Rng {
    state: u64,
}

/// One xorshift64 step.
pub open spec fn rng_step(s: u64) -> u64 {
    let a = s ^ (s << 13u64);
    let b = a ^ (a >> 7u64);
    b ^ (b << 17u64)
}

/// The 32-bit output drawn from state `s` (the high half of the next state).
pub open spec fn rng_output(s: u64) -> u32 {
    (rng_step(s) >> 32u64) as u32
}

/// State a generator seeded with `seed` starts from (xorshift needs a
/// non-zero state).
pub open spec fn seeded_state(seed: u64) -> u64 {
    if seed == 0 {
        0x9E37_79B9_7F4A_7C15
    } else {
        seed
    }
}

/// SplitMix64 finaliser used to spread a world seed.
pub open spec fn mix64(z: u64) -> u64 {
    let a = (z ^ (z >> 30u64)).wrapping_mul(0xBF58_476D_1CE4_E5B9u64);
    let b = (a ^ (a >> 27u64)).wrapping_mul(0x94D0_49BB_1331_11EBu64);
    b ^ (b >> 31u64)
}

impl Rng {
    pub closed spec fn state(&self) -> u64 {
        self.state
    }

    /// A generator whose state is `seed` (0 is replaced by a fixed
    /// non-zero constant).
    pub fn from_state(seed: u64) -> (r: Self)
        ensures
            r.state() == seeded_state(seed),
    {
        Rng { state: if seed == 0 { 0x9E37_79B9_7F4A_7C15 } else { seed } }
    }

    /// A generator for a world seed, spread with the SplitMix64 finaliser.
    pub fn from_world_seed(seed: u64) -> (r: Self)
        ensures
            r.state() == seeded_state(mix64(seed)),
    {
        let z = seed;
        let a = (z ^ (z >> 30u64)).wrapping_mul(0xBF58_476D_1CE4_E5B9u64);
        let b = (a ^ (a >> 27u64)).wrapping_mul(0x94D0_49BB_1331_11EBu64);
        let m = b ^ (b >> 31u64);
        Self::from_state(m)
    }

    /// Next 32 random bits.
    pub fn next_u32(&mut self) -> (r: u32)
        ensures
            r == rng_output(old(self).state()),
            final(self).state() == rng_step(old(self).state()),
    {
        let s = self.state;
        let a = s ^ (s << 13u64);
        let b = a ^ (a >> 7u64);
        let n = b ^ (b << 17u64);
        self.state = n;
        (n >> 32u64) as u32
    }

    /// A d100 roll: 1..=100.
    pub fn d100(&mut self) -> (r: u32)
        ensures
            r == rng_output(old(self).state()) % 100 + 1,
            1 <= r <= 100,
            final(self).state() == rng_step(old(self).state()),
    {
        self.next_u32() % 100 + 1
    }
}

} // verus!
