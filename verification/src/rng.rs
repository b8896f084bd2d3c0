//! Deterministic random stream.
//!
//! A chunk generation derives a reproducible pseudo-random sequence from the
//! world seed and a spatial position.  The derivation mixes the seed and the
//! position into a well-distributed 128-bit state; the stream then steps that
//! state with exact 32-bit word operations, so repeated calls with the same
//! inputs reproduce the same sequence on every machine.

use vstd::prelude::*;

verus! {

/// 128-bit stream state, stepped four 32-bit words at a time.
#[derive(Clone, Copy, PartialEq, Eq, Structural, Debug)]
pub struct RandomStream {
    /// First state word.
    pub s0: u32,
    /// Second state word.
    pub s1: u32,
    /// Third state word.
    pub s2: u32,
    /// Fourth state word.
    pub s3: u32,
}

/// 64-bit avalanche mix (xor-shift and odd-constant multiplies).
pub open spec fn spec_mix64(v: u64) -> u64 {
    let a = vstd::wrapping::u64_specs::wrapping_add(v, 0x9E37_79B9_7F4A_7C15);
    let b = vstd::wrapping::u64_specs::wrapping_mul(a ^ (a >> 30), 0xBF58_476D_1CE4_E5B9);
    let c = vstd::wrapping::u64_specs::wrapping_mul(b ^ (b >> 27), 0x94D0_49BB_1331_11EB);
    c ^ (c >> 31)
}

/// Executable avalanche mix.
pub fn mix64(v: u64) -> (r: u64)
    ensures
        r == spec_mix64(v),
{
    let a: u64 = v.wrapping_add(0x9E37_79B9_7F4A_7C15);
    let b: u64 = (a ^ (a >> 30)).wrapping_mul(0xBF58_476D_1CE4_E5B9);
    let c: u64 = (b ^ (b >> 27)).wrapping_mul(0x94D0_49BB_1331_11EB);
    c ^ (c >> 31)
}

/// An `i64` coordinate shifted into unsigned range, for use as mix input.
pub open spec fn spec_coord_bits(x: int) -> u64 {
    (x + 0x8000_0000_0000_0000) as u64
}

/// Executable coordinate-to-bits conversion.
pub fn coord_bits(x: i64) -> (r: u64)
    ensures
        r == spec_coord_bits(x as int),
{
    ((x as i128) + 0x8000_0000_0000_0000) as u64
}

/// Low 32 bits of a 64-bit word.
pub open spec fn spec_lo32(v: u64) -> u32 {
    (v & 0xFFFF_FFFF) as u32
}

/// High 32 bits of a 64-bit word.
pub open spec fn spec_hi32(v: u64) -> u32 {
    (v >> 32) as u32
}

/// The stream state derived from a world seed and a horizontal position.
pub open spec fn spec_seed_for(world_seed: u64, x: int, z: int) -> RandomStream {
    let a = spec_mix64(world_seed ^ 0x6C62_272E_07BB_0142);
    let b = spec_mix64(a ^ spec_coord_bits(x));
    let c = spec_mix64(b ^ spec_coord_bits(z));
    RandomStream { s0: spec_lo32(b), s1: spec_hi32(b), s2: spec_lo32(c), s3: spec_hi32(c) }
}

impl RandomStream {
    /// Derive the stream for a (seed, position) pair; a pure function of its
    /// inputs, so nearby chunks get independent but reproducible streams.
    pub fn seed_for(world_seed: u64, x: i64, z: i64) -> (r: RandomStream)
        ensures
            r == spec_seed_for(world_seed, x as int, z as int),
    {
        let a: u64 = mix64(world_seed ^ 0x6C62_272E_07BB_0142);
        let b: u64 = mix64(a ^ coord_bits(x));
        let c: u64 = mix64(b ^ coord_bits(z));
        proof {
            assert(b & 0xFFFF_FFFF <= 0xFFFF_FFFFu64 && b >> 32 <= 0xFFFF_FFFFu64
                && c & 0xFFFF_FFFF <= 0xFFFF_FFFFu64 && c >> 32 <= 0xFFFF_FFFFu64)
                by (bit_vector);
        }
        RandomStream {
            s0: (b & 0xFFFF_FFFF) as u32,
            s1: (b >> 32) as u32,
            s2: (c & 0xFFFF_FFFF) as u32,
            s3: (c >> 32) as u32,
        }
    }
}

/// 32-bit left rotation.
pub open spec fn spec_rotl32(x: u32, k: u32) -> u32 {
    (x << k) | (x >> ((32 - k) as u32))
}

/// Executable 32-bit left rotation.
pub fn rotl32(x: u32, k: u32) -> (r: u32)
    requires
        0 < k < 32,
    ensures
        r == spec_rotl32(x, k),
{
    (x << k) | (x >> (32 - k))
}

/// One step of the stream: the output word and the follow-on state.
pub open spec fn spec_next(s: RandomStream) -> (u32, RandomStream) {
    let out = vstd::wrapping::u32_specs::wrapping_mul(
        spec_rotl32(vstd::wrapping::u32_specs::wrapping_mul(s.s1, 5), 7),
        9,
    );
    let t = s.s1 << 9u32;
    let s2a = s.s2 ^ s.s0;
    let s3a = s.s3 ^ s.s1;
    let s1b = s.s1 ^ s2a;
    let s0b = s.s0 ^ s3a;
    let s2b = s2a ^ t;
    let s3b = spec_rotl32(s3a, 11);
    (out, RandomStream { s0: s0b, s1: s1b, s2: s2b, s3: s3b })
}

impl RandomStream {
    /// Draw the next 32-bit word, advancing the state.
    pub fn next_u32(&mut self) -> (r: u32)
        ensures
            r == spec_next(*old(self)).0,
            *final(self) == spec_next(*old(self)).1,
    {
        let out: u32 = rotl32(self.s1.wrapping_mul(5), 7).wrapping_mul(9);
        let t: u32 = self.s1 << 9u32;
        self.s2 = self.s2 ^ self.s0;
        self.s3 = self.s3 ^ self.s1;
        self.s1 = self.s1 ^ self.s2;
        self.s0 = self.s0 ^ self.s3;
        self.s2 = self.s2 ^ t;
        self.s3 = rotl32(self.s3, 11);
        out
    }

    /// Draw a value below `n`, advancing the state once.  The reduction is
    /// a modulo of one stream word: a deliberate, total choice whose bias
    /// against exact uniformity is below `n` in `2^32` — exact rejection
    /// sampling has no termination bound a verified function could carry.
    pub fn next_below(&mut self, n: u32) -> (r: u32)
        requires
            n > 0,
        ensures
            r == spec_next(*old(self)).0 as int % n as int,
            *final(self) == spec_next(*old(self)).1,
            r < n,
    {
        let w: u32 = self.next_u32();
        w % n
    }
}

} // verus!
