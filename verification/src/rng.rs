//! The deterministic random source of the screening engine: a xoroshiro64*
//! generator seeded through one splitmix64 step. Every draw is pinned to a
//! spec-level state transition, so a screening run is reproducible from the
//! seed alone.

use vstd::prelude::*;

verus! {

/// The splitmix64 increment.
pub const SEED_INCREMENT: u64 = 0x9e3779b97f4a7c15;

/// Left rotation of a 32-bit word.
pub open spec fn spec_rotl32(x: u32, k: u32) -> u32
    recommends
        0 < k < 32,
{
    (x << k) | (x >> (32 - k) as u32)
}

/// The splitmix64 output mix applied to an already advanced state word.
pub open spec fn spec_mix64(z: u64) -> u64 {
    let a = vstd::wrapping::u64_specs::wrapping_mul(z ^ (z >> 30), 0xbf58476d1ce4e5b9);
    let b = vstd::wrapping::u64_specs::wrapping_mul(a ^ (a >> 27), 0x94d049bb133111eb);
    b ^ (b >> 31)
}

/// The 64-bit word one splitmix64 step derives from a seed.
pub open spec fn spec_seed_word(seed: u64) -> u64 {
    spec_mix64(vstd::wrapping::u64_specs::wrapping_add(seed, SEED_INCREMENT))
}

/// The state pair a 64-bit seed expands to: the splitmix64 word, split into
/// its low and high halves, with an all-zero word replaced by the word the
/// zero seed yields.
pub open spec fn spec_state_of_seed(seed: u64) -> (u32, u32) {
    let z = if spec_seed_word(seed) == 0 {
        spec_seed_word(0)
    } else {
        spec_seed_word(seed)
    };
    ((z & 0xffff_ffff) as u32, (z >> 32) as u32)
}

/// The xoroshiro64* state transition.
pub open spec fn spec_step(s: (u32, u32)) -> (u32, u32) {
    let mixed = s.1 ^ s.0;
    (spec_rotl32(s.0, 26) ^ mixed ^ (mixed << 9), spec_rotl32(mixed, 13))
}

/// The xoroshiro64* output for a state: the first word, scrambled.
pub open spec fn spec_output(s: (u32, u32)) -> u32 {
    vstd::wrapping::u32_specs::wrapping_mul(s.0, 0x9e3779bb)
}

/// A xoroshiro64* random number generator.
pub struct Xoroshiro64Star {
    s0: u32,
    s1: u32,
}

impl View for Xoroshiro64Star {
    type V = (u32, u32);

    closed spec fn view(&self) -> (u32, u32) {
        (self.s0, self.s1)
    }
}

impl Xoroshiro64Star {
    /// Expands a 64-bit seed into a generator state with one splitmix64
    /// step, mapping the (never drawn in practice) all-zero word to the
    /// word of the zero seed, as an all-zero xoroshiro state is a fixed
    /// point.
    pub fn seed_from_u64(seed: u64) -> (r: Xoroshiro64Star)
        ensures
            r@ == spec_state_of_seed(seed),
    {
        let advanced = seed.wrapping_add(SEED_INCREMENT);
        let a = (advanced ^ (advanced >> 30)).wrapping_mul(0xbf58476d1ce4e5b9);
        let b = (a ^ (a >> 27)).wrapping_mul(0x94d049bb133111eb);
        let z = b ^ (b >> 31);
        let z = if z == 0 {
            let advanced0 = 0u64.wrapping_add(SEED_INCREMENT);
            let a0 = (advanced0 ^ (advanced0 >> 30)).wrapping_mul(0xbf58476d1ce4e5b9);
            let b0 = (a0 ^ (a0 >> 27)).wrapping_mul(0x94d049bb133111eb);
            b0 ^ (b0 >> 31)
        } else {
            z
        };
        Xoroshiro64Star { s0: (z & 0xffff_ffff) as u32, s1: (z >> 32) as u32 }
    }

    /// Draws the next 32-bit word and advances the state.
    pub fn next_u32(&mut self) -> (r: u32)
        ensures
            r == spec_output(old(self)@),
            final(self)@ == spec_step(old(self)@),
    {
        let r = self.s0.wrapping_mul(0x9e3779bb);
        let mixed = self.s1 ^ self.s0;
        self.s0 = ((self.s0 << 26) | (self.s0 >> 6)) ^ mixed ^ (mixed << 9);
        self.s1 = (mixed << 13) | (mixed >> 19);
        r
    }

    /// Draws a uniform 8-bit threshold from the top bits of the next word.
    pub fn next_threshold(&mut self) -> (r: u8)
        ensures
            r == spec_output(old(self)@) >> 24,
            final(self)@ == spec_step(old(self)@),
    {
        let word = self.next_u32();
        proof {
            assert(word >> 24 < 256) by (bit_vector);
        }
        (word >> 24) as u8
    }
}

} // verus!
