//! Fractal (multi-octave) noise stack over a deterministic lattice source.
//!
//! Each octave samples an independent value-noise source seeded by a
//! deterministic permutation of the base seed; the samples are summed with
//! per-octave strength multipliers and geometric attenuation, then scaled by
//! a precomputed normalization factor so that the total output stays within
//! one fixed-point unit.  Everything is exact integer arithmetic, so a noise
//! value is a pure function of (seed, point).

use vstd::prelude::*;

use crate::fixed::{FP_ONE, fdiv, spec_fp_mul, spec_clamp, spec_fade, spec_lerp, div_floor,
    fp_mul, clamp_i64, fade, lerp, Vec2, lemma_fdiv_bounds, lemma_abs_mul_le};
use crate::rng::{spec_mix64, mix64, spec_coord_bits, coord_bits, spec_lo32};

verus! {

/// Largest admissible octave strength / frequency / lacunarity, fixed point.
pub const NOISE_PARAM_MAX: i64 = 16384;

/// Saturation bound for octave-scaled sample coordinates.
pub const POINT_SAT: i64 = 0x1_0000_0000_0000;

/// Bound on points handed to noise evaluation.
pub const POINT_BOUND: i64 = 0x4000_0000_0000;

/// Number of lattice steps per half-range of a cell value.
pub const CELL_RANGE: u64 = 2049;

/// One independent value-noise source.
#[derive(Clone, Copy, PartialEq, Eq, Structural, Debug)]
pub struct LatticeSource {
    /// Seed of this source; determines every lattice value.
    pub seed: u32,
}

/// Pseudo-random lattice value in `[-FP_ONE, FP_ONE]` for an integer cell.
#[verifier::opaque]
pub open spec fn spec_cell_val(seed: u32, xi: int, zi: int) -> int {
    let h = spec_mix64(
        (seed as u64) ^ vstd::wrapping::u64_specs::wrapping_mul(
            spec_coord_bits(xi), 0x8CB9_2BA7_2F3D_8DD7)
            ^ vstd::wrapping::u64_specs::wrapping_mul(spec_coord_bits(zi), 0xD6E8_FEB8_6659_FD93),
    );
    (h % CELL_RANGE) as int - FP_ONE as int
}

/// Executable lattice cell value.
pub fn cell_val(seed: u32, xi: i64, zi: i64) -> (r: i64)
    ensures
        r == spec_cell_val(seed, xi as int, zi as int),
        -FP_ONE <= r <= FP_ONE,
{
    proof {
        reveal(spec_cell_val);
    }
    let h: u64 = mix64(
        (seed as u64) ^ coord_bits(xi).wrapping_mul(0x8CB9_2BA7_2F3D_8DD7)
            ^ coord_bits(zi).wrapping_mul(0xD6E8_FEB8_6659_FD93),
    );
    (h % CELL_RANGE) as i64 - FP_ONE
}

/// Smoothly interpolated value noise at a fixed-point point.
#[verifier::opaque]
pub open spec fn spec_lattice2(seed: u32, x: int, z: int) -> int {
    let xi = fdiv(x, FP_ONE as int);
    let zi = fdiv(z, FP_ONE as int);
    let wx = spec_fade(x - xi * FP_ONE);
    let wz = spec_fade(z - zi * FP_ONE);
    let a = spec_lerp(spec_cell_val(seed, xi, zi), spec_cell_val(seed, xi + 1, zi), wx);
    let b = spec_lerp(spec_cell_val(seed, xi, zi + 1), spec_cell_val(seed, xi + 1, zi + 1), wx);
    spec_lerp(a, b, wz)
}

/// Executable interpolated value noise; output stays in `[-FP_ONE, FP_ONE]`.
pub fn lattice2(seed: u32, x: i64, z: i64) -> (r: i64)
    requires
        -POINT_SAT <= x <= POINT_SAT,
        -POINT_SAT <= z <= POINT_SAT,
    ensures
        r == spec_lattice2(seed, x as int, z as int),
        -FP_ONE <= r <= FP_ONE,
{
    let xi: i64 = div_floor(x, FP_ONE);
    let zi: i64 = div_floor(z, FP_ONE);
    proof {
        reveal(spec_lattice2);
        lemma_fdiv_bounds(x as int, FP_ONE as int, -POINT_SAT as int, POINT_SAT as int);
        lemma_fdiv_bounds(z as int, FP_ONE as int, -POINT_SAT as int, POINT_SAT as int);
        vstd::arithmetic::div_mod::lemma_fundamental_div_mod(x as int, FP_ONE as int);
        vstd::arithmetic::div_mod::lemma_mod_bound(x as int, FP_ONE as int);
        vstd::arithmetic::div_mod::lemma_fundamental_div_mod(z as int, FP_ONE as int);
        vstd::arithmetic::div_mod::lemma_mod_bound(z as int, FP_ONE as int);
    }
    let fx: i64 = x - xi * FP_ONE;
    let fz: i64 = z - zi * FP_ONE;
    let wx: i64 = fade(fx);
    let wz: i64 = fade(fz);
    let v00: i64 = cell_val(seed, xi, zi);
    let v10: i64 = cell_val(seed, xi + 1, zi);
    let v01: i64 = cell_val(seed, xi, zi + 1);
    let v11: i64 = cell_val(seed, xi + 1, zi + 1);
    let a: i64 = lerp(v00, v10, wx);
    let b: i64 = lerp(v01, v11, wx);
    lerp(a, b, wz)
}


/// Pseudo-random lattice value in `[-FP_ONE, FP_ONE]` for a 3-D cell.
#[verifier::opaque]
pub open spec fn spec_cell_val3(seed: u32, xi: int, yi: int, zi: int) -> int {
    let h = spec_mix64(
        (seed as u64) ^ vstd::wrapping::u64_specs::wrapping_mul(
            spec_coord_bits(xi), 0x8CB9_2BA7_2F3D_8DD7)
            ^ vstd::wrapping::u64_specs::wrapping_mul(spec_coord_bits(yi),
                0xD6E8_FEB8_6659_FD93)
            ^ vstd::wrapping::u64_specs::wrapping_mul(spec_coord_bits(zi),
                0x9FB2_1C65_1E98_DF25),
    );
    (h % CELL_RANGE) as int - FP_ONE as int
}

/// Executable 3-D lattice cell value.
pub fn cell_val3(seed: u32, xi: i64, yi: i64, zi: i64) -> (r: i64)
    ensures
        r == spec_cell_val3(seed, xi as int, yi as int, zi as int),
        -FP_ONE <= r <= FP_ONE,
{
    proof {
        reveal(spec_cell_val3);
    }
    let h: u64 = mix64(
        (seed as u64) ^ coord_bits(xi).wrapping_mul(0x8CB9_2BA7_2F3D_8DD7)
            ^ coord_bits(yi).wrapping_mul(0xD6E8_FEB8_6659_FD93)
            ^ coord_bits(zi).wrapping_mul(0x9FB2_1C65_1E98_DF25),
    );
    (h % CELL_RANGE) as i64 - FP_ONE
}

/// Smoothly interpolated 3-D value noise at a fixed-point point.
#[verifier::opaque]
pub open spec fn spec_lattice3(seed: u32, x: int, y: int, z: int) -> int {
    let xi = fdiv(x, FP_ONE as int);
    let yi = fdiv(y, FP_ONE as int);
    let zi = fdiv(z, FP_ONE as int);
    let wx = spec_fade(x - xi * FP_ONE);
    let wy = spec_fade(y - yi * FP_ONE);
    let wz = spec_fade(z - zi * FP_ONE);
    let a00 = spec_lerp(spec_cell_val3(seed, xi, yi, zi),
        spec_cell_val3(seed, xi + 1, yi, zi), wx);
    let a10 = spec_lerp(spec_cell_val3(seed, xi, yi + 1, zi),
        spec_cell_val3(seed, xi + 1, yi + 1, zi), wx);
    let a01 = spec_lerp(spec_cell_val3(seed, xi, yi, zi + 1),
        spec_cell_val3(seed, xi + 1, yi, zi + 1), wx);
    let a11 = spec_lerp(spec_cell_val3(seed, xi, yi + 1, zi + 1),
        spec_cell_val3(seed, xi + 1, yi + 1, zi + 1), wx);
    let b0 = spec_lerp(a00, a10, wy);
    let b1 = spec_lerp(a01, a11, wy);
    spec_lerp(b0, b1, wz)
}

/// Executable 3-D interpolated value noise.
pub fn lattice3(seed: u32, x: i64, y: i64, z: i64) -> (r: i64)
    requires
        -POINT_SAT <= x <= POINT_SAT,
        -POINT_SAT <= y <= POINT_SAT,
        -POINT_SAT <= z <= POINT_SAT,
    ensures
        r == spec_lattice3(seed, x as int, y as int, z as int),
        -FP_ONE <= r <= FP_ONE,
{
    let xi: i64 = div_floor(x, FP_ONE);
    let yi: i64 = div_floor(y, FP_ONE);
    let zi: i64 = div_floor(z, FP_ONE);
    proof {
        reveal(spec_lattice3);
        lemma_fdiv_bounds(x as int, FP_ONE as int, -POINT_SAT as int, POINT_SAT as int);
        lemma_fdiv_bounds(y as int, FP_ONE as int, -POINT_SAT as int, POINT_SAT as int);
        lemma_fdiv_bounds(z as int, FP_ONE as int, -POINT_SAT as int, POINT_SAT as int);
        vstd::arithmetic::div_mod::lemma_fundamental_div_mod(x as int, FP_ONE as int);
        vstd::arithmetic::div_mod::lemma_mod_bound(x as int, FP_ONE as int);
        vstd::arithmetic::div_mod::lemma_fundamental_div_mod(y as int, FP_ONE as int);
        vstd::arithmetic::div_mod::lemma_mod_bound(y as int, FP_ONE as int);
        vstd::arithmetic::div_mod::lemma_fundamental_div_mod(z as int, FP_ONE as int);
        vstd::arithmetic::div_mod::lemma_mod_bound(z as int, FP_ONE as int);
    }
    let wx: i64 = fade(x - xi * FP_ONE);
    let wy: i64 = fade(y - yi * FP_ONE);
    let wz: i64 = fade(z - zi * FP_ONE);
    let a00: i64 = lerp(cell_val3(seed, xi, yi, zi), cell_val3(seed, xi + 1, yi, zi), wx);
    let a10: i64 = lerp(cell_val3(seed, xi, yi + 1, zi), cell_val3(seed, xi + 1, yi + 1, zi),
        wx);
    let a01: i64 = lerp(cell_val3(seed, xi, yi, zi + 1), cell_val3(seed, xi + 1, yi, zi + 1),
        wx);
    let a11: i64 = lerp(cell_val3(seed, xi, yi + 1, zi + 1),
        cell_val3(seed, xi + 1, yi + 1, zi + 1), wx);
    let b0: i64 = lerp(a00, a10, wy);
    let b1: i64 = lerp(a01, a11, wy);
    lerp(b0, b1, wz)
}

/// Pseudo-random lattice value in `[-FP_ONE, FP_ONE]` for a 4-D cell.
#[verifier::opaque]
pub open spec fn spec_cell_val4(seed: u32, xi: int, yi: int, zi: int, wi: int) -> int {
    let h = spec_mix64(
        (seed as u64) ^ vstd::wrapping::u64_specs::wrapping_mul(
            spec_coord_bits(xi), 0x8CB9_2BA7_2F3D_8DD7)
            ^ vstd::wrapping::u64_specs::wrapping_mul(spec_coord_bits(yi),
                0xD6E8_FEB8_6659_FD93)
            ^ vstd::wrapping::u64_specs::wrapping_mul(spec_coord_bits(zi),
                0x9FB2_1C65_1E98_DF25)
            ^ vstd::wrapping::u64_specs::wrapping_mul(spec_coord_bits(wi),
                0xC2B2_AE3D_27D4_EB4F),
    );
    (h % CELL_RANGE) as int - FP_ONE as int
}

/// Executable 4-D lattice cell value.
pub fn cell_val4(seed: u32, xi: i64, yi: i64, zi: i64, wi: i64) -> (r: i64)
    ensures
        r == spec_cell_val4(seed, xi as int, yi as int, zi as int, wi as int),
        -FP_ONE <= r <= FP_ONE,
{
    proof {
        reveal(spec_cell_val4);
    }
    let h: u64 = mix64(
        (seed as u64) ^ coord_bits(xi).wrapping_mul(0x8CB9_2BA7_2F3D_8DD7)
            ^ coord_bits(yi).wrapping_mul(0xD6E8_FEB8_6659_FD93)
            ^ coord_bits(zi).wrapping_mul(0x9FB2_1C65_1E98_DF25)
            ^ coord_bits(wi).wrapping_mul(0xC2B2_AE3D_27D4_EB4F),
    );
    (h % CELL_RANGE) as i64 - FP_ONE
}

/// Smoothly interpolated 4-D value noise at a fixed-point point.
#[verifier::opaque]
pub open spec fn spec_lattice4(seed: u32, x: int, y: int, z: int, w: int) -> int {
    let xi = fdiv(x, FP_ONE as int);
    let yi = fdiv(y, FP_ONE as int);
    let zi = fdiv(z, FP_ONE as int);
    let wi = fdiv(w, FP_ONE as int);
    let fx = spec_fade(x - xi * FP_ONE);
    let fy = spec_fade(y - yi * FP_ONE);
    let fz = spec_fade(z - zi * FP_ONE);
    let fw = spec_fade(w - wi * FP_ONE);
    let a000 = spec_lerp(spec_cell_val4(seed, xi, yi, zi, wi),
        spec_cell_val4(seed, xi + 1, yi, zi, wi), fx);
    let a100 = spec_lerp(spec_cell_val4(seed, xi, yi + 1, zi, wi),
        spec_cell_val4(seed, xi + 1, yi + 1, zi, wi), fx);
    let a010 = spec_lerp(spec_cell_val4(seed, xi, yi, zi + 1, wi),
        spec_cell_val4(seed, xi + 1, yi, zi + 1, wi), fx);
    let a110 = spec_lerp(spec_cell_val4(seed, xi, yi + 1, zi + 1, wi),
        spec_cell_val4(seed, xi + 1, yi + 1, zi + 1, wi), fx);
    let a001 = spec_lerp(spec_cell_val4(seed, xi, yi, zi, wi + 1),
        spec_cell_val4(seed, xi + 1, yi, zi, wi + 1), fx);
    let a101 = spec_lerp(spec_cell_val4(seed, xi, yi + 1, zi, wi + 1),
        spec_cell_val4(seed, xi + 1, yi + 1, zi, wi + 1), fx);
    let a011 = spec_lerp(spec_cell_val4(seed, xi, yi, zi + 1, wi + 1),
        spec_cell_val4(seed, xi + 1, yi, zi + 1, wi + 1), fx);
    let a111 = spec_lerp(spec_cell_val4(seed, xi, yi + 1, zi + 1, wi + 1),
        spec_cell_val4(seed, xi + 1, yi + 1, zi + 1, wi + 1), fx);
    let b00 = spec_lerp(a000, a100, fy);
    let b10 = spec_lerp(a010, a110, fy);
    let b01 = spec_lerp(a001, a101, fy);
    let b11 = spec_lerp(a011, a111, fy);
    let c0 = spec_lerp(b00, b10, fz);
    let c1 = spec_lerp(b01, b11, fz);
    spec_lerp(c0, c1, fw)
}

/// Executable 4-D interpolated value noise.
pub fn lattice4(seed: u32, x: i64, y: i64, z: i64, w: i64) -> (r: i64)
    requires
        -POINT_SAT <= x <= POINT_SAT,
        -POINT_SAT <= y <= POINT_SAT,
        -POINT_SAT <= z <= POINT_SAT,
        -POINT_SAT <= w <= POINT_SAT,
    ensures
        r == spec_lattice4(seed, x as int, y as int, z as int, w as int),
        -FP_ONE <= r <= FP_ONE,
{
    let xi: i64 = div_floor(x, FP_ONE);
    let yi: i64 = div_floor(y, FP_ONE);
    let zi: i64 = div_floor(z, FP_ONE);
    let wi: i64 = div_floor(w, FP_ONE);
    proof {
        reveal(spec_lattice4);
        lemma_fdiv_bounds(x as int, FP_ONE as int, -POINT_SAT as int, POINT_SAT as int);
        lemma_fdiv_bounds(y as int, FP_ONE as int, -POINT_SAT as int, POINT_SAT as int);
        lemma_fdiv_bounds(z as int, FP_ONE as int, -POINT_SAT as int, POINT_SAT as int);
        lemma_fdiv_bounds(w as int, FP_ONE as int, -POINT_SAT as int, POINT_SAT as int);
        vstd::arithmetic::div_mod::lemma_fundamental_div_mod(x as int, FP_ONE as int);
        vstd::arithmetic::div_mod::lemma_mod_bound(x as int, FP_ONE as int);
        vstd::arithmetic::div_mod::lemma_fundamental_div_mod(y as int, FP_ONE as int);
        vstd::arithmetic::div_mod::lemma_mod_bound(y as int, FP_ONE as int);
        vstd::arithmetic::div_mod::lemma_fundamental_div_mod(z as int, FP_ONE as int);
        vstd::arithmetic::div_mod::lemma_mod_bound(z as int, FP_ONE as int);
        vstd::arithmetic::div_mod::lemma_fundamental_div_mod(w as int, FP_ONE as int);
        vstd::arithmetic::div_mod::lemma_mod_bound(w as int, FP_ONE as int);
    }
    let fx: i64 = fade(x - xi * FP_ONE);
    let fy: i64 = fade(y - yi * FP_ONE);
    let fz: i64 = fade(z - zi * FP_ONE);
    let fw: i64 = fade(w - wi * FP_ONE);
    let a000: i64 = lerp(cell_val4(seed, xi, yi, zi, wi),
        cell_val4(seed, xi + 1, yi, zi, wi), fx);
    let a100: i64 = lerp(cell_val4(seed, xi, yi + 1, zi, wi),
        cell_val4(seed, xi + 1, yi + 1, zi, wi), fx);
    let a010: i64 = lerp(cell_val4(seed, xi, yi, zi + 1, wi),
        cell_val4(seed, xi + 1, yi, zi + 1, wi), fx);
    let a110: i64 = lerp(cell_val4(seed, xi, yi + 1, zi + 1, wi),
        cell_val4(seed, xi + 1, yi + 1, zi + 1, wi), fx);
    let a001: i64 = lerp(cell_val4(seed, xi, yi, zi, wi + 1),
        cell_val4(seed, xi + 1, yi, zi, wi + 1), fx);
    let a101: i64 = lerp(cell_val4(seed, xi, yi + 1, zi, wi + 1),
        cell_val4(seed, xi + 1, yi + 1, zi, wi + 1), fx);
    let a011: i64 = lerp(cell_val4(seed, xi, yi, zi + 1, wi + 1),
        cell_val4(seed, xi + 1, yi, zi + 1, wi + 1), fx);
    let a111: i64 = lerp(cell_val4(seed, xi, yi + 1, zi + 1, wi + 1),
        cell_val4(seed, xi + 1, yi + 1, zi + 1, wi + 1), fx);
    let b00: i64 = lerp(a000, a100, fy);
    let b10: i64 = lerp(a010, a110, fy);
    let b01: i64 = lerp(a001, a101, fy);
    let b11: i64 = lerp(a011, a111, fy);
    let c0: i64 = lerp(b00, b10, fz);
    let c1: i64 = lerp(b01, b11, fz);
    lerp(c0, c1, fw)
}

/// The per-octave source seed: a deterministic permutation of the base seed.
pub open spec fn spec_source_seed(seed: u32, i: int) -> u32 {
    spec_lo32(spec_mix64(
        (seed as u64) ^ vstd::wrapping::u64_specs::wrapping_mul(
            (i + 1) as u64, 0x9E37_79B9_7F4A_7C15),
    ))
}

/// Build one source per octave, each with a permuted seed.
pub fn build_sources(seed: u32, count: usize) -> (r: Vec<LatticeSource>)
    requires
        count <= 32,
    ensures
        r@.len() == count,
        forall|k: int| 0 <= k < count ==> r@[k].seed == spec_source_seed(seed, k),
{
    let mut v: Vec<LatticeSource> = Vec::new();
    let mut i: usize = 0;
    while i < count
        invariant
            i <= count <= 32,
            v@.len() == i,
            forall|k: int| 0 <= k < i ==> v@[k].seed == spec_source_seed(seed, k),
        decreases count - i,
    {
        let bits: u64 = mix64((seed as u64) ^ ((i as u64) + 1).wrapping_mul(0x9E37_79B9_7F4A_7C15));
        proof {
            assert(bits & 0xFFFF_FFFF <= 0xFFFF_FFFFu64) by (bit_vector);
        }
        v.push(LatticeSource { seed: (bits & 0xFFFF_FFFF) as u32 });
        i = i + 1;
    }
    v
}

/// Attenuated strength total used by the normalization factor.
pub open spec fn spec_amp_total(octaves: Seq<i64>, persistence: int, i: int, att: int) -> int
    decreases octaves.len() - i,
{
    if i < 0 || i >= octaves.len() {
        0
    } else {
        let o = octaves[i];
        let mag = if o >= 0 { o as int } else { -(o as int) };
        spec_fp_mul(mag, att) + spec_amp_total(octaves, persistence, i + 1,
            spec_fp_mul(att, persistence))
    }
}

/// The normalization factor for a stack of octave strengths.
pub open spec fn spec_scale_factor(octaves: Seq<i64>, persistence: int) -> int {
    let total = spec_amp_total(octaves, persistence, 0, persistence);
    if total <= 0 {
        FP_ONE as int
    } else {
        fdiv(FP_ONE as int * FP_ONE as int, total)
    }
}

/// Fixed-point octave strengths are admissible when bounded.
pub open spec fn octaves_ok(octaves: Seq<i64>) -> bool {
    &&& octaves.len() <= 32
    &&& forall|k: int| 0 <= k < octaves.len()
        ==> -NOISE_PARAM_MAX <= #[trigger] octaves[k] <= NOISE_PARAM_MAX
}

/// Attenuations stay within `[0, FP_ONE]` across the recursion.
proof fn lemma_amp_total_bounds(octaves: Seq<i64>, persistence: int, i: int, att: int)
    requires
        octaves_ok(octaves),
        0 <= persistence <= FP_ONE,
        0 <= att <= FP_ONE,
        0 <= i <= octaves.len(),
    ensures
        0 <= spec_amp_total(octaves, persistence, i, att) <= (octaves.len() - i) * NOISE_PARAM_MAX,
    decreases octaves.len() - i,
{
    if i < octaves.len() {
        let o = octaves[i];
        let mag = if o >= 0 { o as int } else { -(o as int) };
        assert(0 <= mag * att <= NOISE_PARAM_MAX as int * FP_ONE as int) by (nonlinear_arith)
            requires
                0 <= mag <= NOISE_PARAM_MAX,
                0 <= att <= FP_ONE,
        {}
        lemma_fdiv_bounds(mag * att, FP_ONE as int, 0, NOISE_PARAM_MAX as int * FP_ONE as int);
        assert(0 <= att * persistence <= FP_ONE as int * FP_ONE as int) by (nonlinear_arith)
            requires
                0 <= att <= FP_ONE,
                0 <= persistence <= FP_ONE,
        {}
        lemma_fdiv_bounds(att * persistence, FP_ONE as int, 0, FP_ONE as int * FP_ONE as int);
        lemma_amp_total_bounds(octaves, persistence, i + 1, spec_fp_mul(att, persistence));
    }
}

/// Compute the normalization factor for the given octave strengths.
pub fn calc_scale_factor(octaves: &Vec<i64>, persistence: i64) -> (r: i64)
    requires
        octaves_ok(octaves@),
        0 <= persistence <= FP_ONE,
    ensures
        r == spec_scale_factor(octaves@, persistence as int),
        0 <= r <= FP_ONE * FP_ONE,
{
    let mut total: i64 = 0;
    let mut att: i64 = persistence;
    let mut i: usize = 0;
    proof {
        lemma_amp_total_bounds(octaves@, persistence as int, 0, persistence as int);
    }
    while i < octaves.len()
        invariant
            octaves_ok(octaves@),
            0 <= persistence <= FP_ONE,
            i <= octaves@.len(),
            0 <= att <= FP_ONE,
            0 <= total <= i * NOISE_PARAM_MAX,
            spec_amp_total(octaves@, persistence as int, 0, persistence as int) == total
                + spec_amp_total(octaves@, persistence as int, i as int, att as int),
        decreases octaves@.len() - i,
    {
        proof {
            lemma_amp_total_bounds(octaves@, persistence as int, i as int, att as int);
            let o = octaves@[i as int];
            let mag: int = if o >= 0 { o as int } else { -(o as int) };
            assert(0 <= mag * att <= NOISE_PARAM_MAX as int * FP_ONE as int) by (nonlinear_arith)
                requires
                    0 <= mag <= NOISE_PARAM_MAX,
                    0 <= att <= FP_ONE,
            {}
            lemma_fdiv_bounds(mag * att, FP_ONE as int,
                0, NOISE_PARAM_MAX as int * FP_ONE as int);
            assert(0 <= att * persistence <= FP_ONE as int * FP_ONE as int) by (nonlinear_arith)
                requires
                    0 <= att <= FP_ONE,
                    0 <= persistence <= FP_ONE,
            {}
            lemma_fdiv_bounds(att as int * persistence as int, FP_ONE as int, 0,
                FP_ONE as int * FP_ONE as int);
            lemma_amp_total_bounds(octaves@, persistence as int, i + 1,
                spec_fp_mul(att as int, persistence as int));
        }
        let o: i64 = octaves[i];
        let mag: i64 = if o >= 0 { o } else { -o };
        total = total + fp_mul(mag, att);
        att = fp_mul(att, persistence);
        i = i + 1;
    }
    if total <= 0 {
        FP_ONE
    } else {
        div_floor(FP_ONE * FP_ONE, total)
    }
}


/// Signal contribution of one octave.
pub open spec fn spec_octave_signal(source: LatticeSource, strength: i64, att: int, px: int,
    pz: int) -> int {
    if strength != 0 {
        spec_fp_mul(spec_fp_mul(spec_lattice2(source.seed, px, pz), strength as int), att)
    } else {
        0
    }
}

/// Accumulated fractal sum from octave `i` onwards, starting from the given
/// per-octave state (scaled point, attenuation, running sum).
pub open spec fn spec_fbm_acc(sources: Seq<LatticeSource>, octaves: Seq<i64>, lac: int,
    pers: int, i: int, px: int, pz: int, att: int, acc: int) -> int
    decreases octaves.len() - i,
{
    if i < 0 || i >= octaves.len() || octaves.len() != sources.len() {
        acc
    } else {
        spec_fbm_acc(sources, octaves, lac, pers, i + 1,
            spec_clamp(spec_fp_mul(px, lac), -POINT_SAT as int, POINT_SAT as int),
            spec_clamp(spec_fp_mul(pz, lac), -POINT_SAT as int, POINT_SAT as int),
            spec_fp_mul(att, pers),
            acc + spec_octave_signal(sources[i], octaves[i], att, px, pz))
    }
}

/// The full fractal noise value at a point: the octave sum, normalized and
/// clamped into `[-FP_ONE, FP_ONE]`.
pub open spec fn spec_fbm_value(sources: Seq<LatticeSource>, octaves: Seq<i64>, freq: int,
    lac: int, pers: int, scale: int, x: int, z: int) -> int {
    let px = spec_clamp(spec_fp_mul(x, freq), -POINT_SAT as int, POINT_SAT as int);
    let pz = spec_clamp(spec_fp_mul(z, freq), -POINT_SAT as int, POINT_SAT as int);
    let acc = spec_fbm_acc(sources, octaves, lac, pers, 0, px, pz, pers, 0);
    spec_clamp(spec_fp_mul(acc, scale), -FP_ONE as int, FP_ONE as int)
}


/// Signal contribution of one octave in three dimensions.
pub open spec fn spec_octave_signal3(source: LatticeSource, strength: i64, att: int,
    px: int, py: int, pz: int) -> int {
    if strength != 0 {
        spec_fp_mul(spec_fp_mul(spec_lattice3(source.seed, px, py, pz), strength as int),
            att)
    } else {
        0
    }
}

/// Accumulated 3-D fractal sum from octave `i` onwards.
pub open spec fn spec_fbm_acc3(sources: Seq<LatticeSource>, octaves: Seq<i64>, lac: int,
    pers: int, i: int, px: int, py: int, pz: int, att: int, acc: int) -> int
    decreases octaves.len() - i,
{
    if i < 0 || i >= octaves.len() || octaves.len() != sources.len() {
        acc
    } else {
        spec_fbm_acc3(sources, octaves, lac, pers, i + 1,
            spec_clamp(spec_fp_mul(px, lac), -POINT_SAT as int, POINT_SAT as int),
            spec_clamp(spec_fp_mul(py, lac), -POINT_SAT as int, POINT_SAT as int),
            spec_clamp(spec_fp_mul(pz, lac), -POINT_SAT as int, POINT_SAT as int),
            spec_fp_mul(att, pers),
            acc + spec_octave_signal3(sources[i], octaves[i], att, px, py, pz))
    }
}

/// The full 3-D fractal noise value at a point.
pub open spec fn spec_fbm_value3(sources: Seq<LatticeSource>, octaves: Seq<i64>, freq: int,
    lac: int, pers: int, scale: int, x: int, y: int, z: int) -> int {
    let px = spec_clamp(spec_fp_mul(x, freq), -POINT_SAT as int, POINT_SAT as int);
    let py = spec_clamp(spec_fp_mul(y, freq), -POINT_SAT as int, POINT_SAT as int);
    let pz = spec_clamp(spec_fp_mul(z, freq), -POINT_SAT as int, POINT_SAT as int);
    let acc = spec_fbm_acc3(sources, octaves, lac, pers, 0, px, py, pz, pers, 0);
    spec_clamp(spec_fp_mul(acc, scale), -FP_ONE as int, FP_ONE as int)
}

/// Signal contribution of one octave in four dimensions.
pub open spec fn spec_octave_signal4(source: LatticeSource, strength: i64, att: int,
    px: int, py: int, pz: int, pw: int) -> int {
    if strength != 0 {
        spec_fp_mul(spec_fp_mul(spec_lattice4(source.seed, px, py, pz, pw),
            strength as int), att)
    } else {
        0
    }
}

/// Accumulated 4-D fractal sum from octave `i` onwards.
pub open spec fn spec_fbm_acc4(sources: Seq<LatticeSource>, octaves: Seq<i64>, lac: int,
    pers: int, i: int, px: int, py: int, pz: int, pw: int, att: int, acc: int) -> int
    decreases octaves.len() - i,
{
    if i < 0 || i >= octaves.len() || octaves.len() != sources.len() {
        acc
    } else {
        spec_fbm_acc4(sources, octaves, lac, pers, i + 1,
            spec_clamp(spec_fp_mul(px, lac), -POINT_SAT as int, POINT_SAT as int),
            spec_clamp(spec_fp_mul(py, lac), -POINT_SAT as int, POINT_SAT as int),
            spec_clamp(spec_fp_mul(pz, lac), -POINT_SAT as int, POINT_SAT as int),
            spec_clamp(spec_fp_mul(pw, lac), -POINT_SAT as int, POINT_SAT as int),
            spec_fp_mul(att, pers),
            acc + spec_octave_signal4(sources[i], octaves[i], att, px, py, pz, pw))
    }
}

/// The full 4-D fractal noise value at a point.
pub open spec fn spec_fbm_value4(sources: Seq<LatticeSource>, octaves: Seq<i64>, freq: int,
    lac: int, pers: int, scale: int, x: int, y: int, z: int, w: int) -> int {
    let px = spec_clamp(spec_fp_mul(x, freq), -POINT_SAT as int, POINT_SAT as int);
    let py = spec_clamp(spec_fp_mul(y, freq), -POINT_SAT as int, POINT_SAT as int);
    let pz = spec_clamp(spec_fp_mul(z, freq), -POINT_SAT as int, POINT_SAT as int);
    let pw = spec_clamp(spec_fp_mul(w, freq), -POINT_SAT as int, POINT_SAT as int);
    let acc = spec_fbm_acc4(sources, octaves, lac, pers, 0, px, py, pz, pw, pers, 0);
    spec_clamp(spec_fp_mul(acc, scale), -FP_ONE as int, FP_ONE as int)
}

/// Noise function that outputs fractal (multi-octave) noise with
/// configurable per-octave strength.
///
/// The result of several noise sources of ever-increasing frequency and
/// ever-decreasing amplitude summed together, yielding detail at several
/// scales while remaining a pure function of (seed, point).
#[derive(Clone, PartialEq, Debug)]
pub struct Fbm {
    /// Strength of each frequency octave, fixed point.  The number of
    /// octaves controls the amount of detail in the noise.
    pub octaves: Vec<i64>,
    /// Cycles per unit length that the noise function outputs, fixed point.
    pub frequency: i64,
    /// Multiplier on the sample frequency of each successive octave, fixed
    /// point; about two is a good value.
    pub lacunarity: i64,
    /// Multiplier on the amplitude of each successive octave, fixed point
    /// in `[0, FP_ONE]`.
    pub persistence: i64,
    /// Base seed; each octave's source seed is a permutation of it.
    pub seed: u32,
    /// Per-octave noise sources.
    pub sources: Vec<LatticeSource>,
    /// Precomputed normalization factor for the octave sum.
    pub scale_factor: i64,
}

/// Default seed for fractal noise.
pub const DEFAULT_SEED: u32 = 0;
/// Default number of octaves for fractal noise.
pub const DEFAULT_OCTAVE_COUNT: usize = 6;
/// Default frequency for fractal noise (one cycle per unit).
pub const DEFAULT_FREQUENCY: i64 = FP_ONE;
/// Default lacunarity for fractal noise: near two-pi thirds.
pub const DEFAULT_LACUNARITY: i64 = 2145;
/// Default persistence for fractal noise (one half).
pub const DEFAULT_PERSISTENCE: i64 = 512;
/// Maximum number of octaves for fractal noise.
pub const MAX_OCTAVES: usize = 32;

impl Fbm {
    /// Well-formedness: bounded parameters, one source per octave, and a
    /// normalization factor that matches the octave strengths.
    pub open spec fn wf(&self) -> bool {
        &&& octaves_ok(self.octaves@)
        &&& self.sources@.len() == self.octaves@.len()
        &&& 0 < self.frequency <= NOISE_PARAM_MAX
        &&& 0 < self.lacunarity <= NOISE_PARAM_MAX
        &&& 0 <= self.persistence <= FP_ONE
        &&& self.scale_factor == spec_scale_factor(self.octaves@,
            self.persistence as int)
        &&& 0 <= self.scale_factor <= FP_ONE * FP_ONE
    }

    /// The noise value at a point, as a function of the configuration.
    pub open spec fn spec_value_at(&self, x: int, z: int) -> int {
        spec_fbm_value(self.sources@, self.octaves@, self.frequency as int,
            self.lacunarity as int, self.persistence as int, self.scale_factor as int, x, z)
    }

    /// Creates a new fractal noise stack with default parameters.
    pub fn new(seed: u32) -> (r: Fbm)
        ensures
            r.wf(),
            r.seed == seed,
            r.octaves@.len() == DEFAULT_OCTAVE_COUNT,
            forall|k: int| 0 <= k < DEFAULT_OCTAVE_COUNT ==> r.octaves@[k] == FP_ONE,
            forall|k: int| 0 <= k < DEFAULT_OCTAVE_COUNT
                ==> r.sources@[k].seed == spec_source_seed(seed, k),
            r.frequency == DEFAULT_FREQUENCY,
            r.lacunarity == DEFAULT_LACUNARITY,
            r.persistence == DEFAULT_PERSISTENCE,
    {
        let mut octaves: Vec<i64> = Vec::new();
        let mut i: usize = 0;
        while i < DEFAULT_OCTAVE_COUNT
            invariant
                i <= DEFAULT_OCTAVE_COUNT,
                octaves@.len() == i,
                forall|k: int| 0 <= k < i ==> octaves@[k] == FP_ONE,
            decreases DEFAULT_OCTAVE_COUNT - i,
        {
            octaves.push(FP_ONE);
            i = i + 1;
        }
        let sources = build_sources(seed, DEFAULT_OCTAVE_COUNT);
        let scale_factor = calc_scale_factor(&octaves, DEFAULT_PERSISTENCE);
        Fbm {
            octaves,
            frequency: DEFAULT_FREQUENCY,
            lacunarity: DEFAULT_LACUNARITY,
            persistence: DEFAULT_PERSISTENCE,
            seed,
            sources,
            scale_factor,
        }
    }

    /// Sets the octave strengths and returns a new noise stack; sources and
    /// the normalization factor are rebuilt to match.
    pub fn set_octaves(&self, octaves: Vec<i64>) -> (r: Fbm)
        requires
            self.wf(),
            octaves_ok(octaves@),
        ensures
            r.wf(),
            r.octaves@ == octaves@,
            r.seed == self.seed,
            forall|k: int| 0 <= k < octaves@.len()
                ==> r.sources@[k].seed == spec_source_seed(self.seed, k),
            r.frequency == self.frequency,
            r.lacunarity == self.lacunarity,
            r.persistence == self.persistence,
    {
        let sources = build_sources(self.seed, octaves.len());
        let scale_factor = calc_scale_factor(&octaves, self.persistence);
        Fbm {
            octaves,
            frequency: self.frequency,
            lacunarity: self.lacunarity,
            persistence: self.persistence,
            seed: self.seed,
            sources,
            scale_factor,
        }
    }

    /// Sets the per-octave sources directly and returns the noise stack.
    pub fn set_sources(self, sources: Vec<LatticeSource>) -> (r: Fbm)
        requires
            self.wf(),
            sources@.len() == self.octaves@.len(),
        ensures
            r.wf(),
            r.sources@ == sources@,
            r == (Fbm { sources, ..self }),
    {
        Fbm { sources, ..self }
    }

    /// Sets the frequency and returns the noise stack.
    pub fn set_frequency(self, frequency: i64) -> (r: Fbm)
        requires
            self.wf(),
            0 < frequency <= NOISE_PARAM_MAX,
        ensures
            r.wf(),
            r == (Fbm { frequency, ..self }),
    {
        Fbm { frequency, ..self }
    }

    /// Sets the lacunarity and returns the noise stack.
    pub fn set_lacunarity(self, lacunarity: i64) -> (r: Fbm)
        requires
            self.wf(),
            0 < lacunarity <= NOISE_PARAM_MAX,
        ensures
            r.wf(),
            r == (Fbm { lacunarity, ..self }),
    {
        Fbm { lacunarity, ..self }
    }

    /// Sets the persistence and returns the noise stack; the normalization
    /// factor is rebuilt to match.
    pub fn set_persistence(self, persistence: i64) -> (r: Fbm)
        requires
            self.wf(),
            0 <= persistence <= FP_ONE,
        ensures
            r.wf(),
            r.persistence == persistence,
            r.octaves@ == self.octaves@,
            r.sources@ == self.sources@,
            r.frequency == self.frequency,
            r.lacunarity == self.lacunarity,
            r.seed == self.seed,
    {
        let scale_factor = calc_scale_factor(&self.octaves, persistence);
        Fbm { persistence, scale_factor, ..self }
    }

    /// Re-seeds the noise stack; an identical seed is a no-op, otherwise the
    /// per-octave source list is rebuilt.
    pub fn set_seed(&mut self, seed: u32)
        requires
            old(self).wf(),
        ensures
            final(self).wf(),
            final(self).seed == seed,
            final(self).octaves@ == old(self).octaves@,
            final(self).frequency == old(self).frequency,
            final(self).lacunarity == old(self).lacunarity,
            final(self).persistence == old(self).persistence,
            final(self).scale_factor == old(self).scale_factor,
            old(self).seed == seed ==> *final(self) == *old(self),
            old(self).seed != seed ==> forall|k: int| 0 <= k < old(self).octaves@.len()
                ==> final(self).sources@[k].seed == spec_source_seed(seed, k),
    {
        if self.seed == seed {
            return;
        }
        self.seed = seed;
        let sources = build_sources(seed, self.octaves.len());
        self.sources = sources;
    }

    /// Returns the base seed.
    pub fn seed(&self) -> (r: u32)
        ensures
            r == self.seed,
    {
        self.seed
    }


    /// The 3-D noise value at a point, as a function of the configuration.
    pub open spec fn spec_value_at_3d(&self, x: int, y: int, z: int) -> int {
        spec_fbm_value3(self.sources@, self.octaves@, self.frequency as int,
            self.lacunarity as int, self.persistence as int, self.scale_factor as int, x, y,
            z)
    }

    /// Evaluate the fractal noise at a 3-D fixed-point point: the same
    /// octave algorithm generalized over vector arity.
    #[verifier::rlimit(100)]
    pub fn get_3d(&self, x: i64, y: i64, z: i64) -> (r: i64)
        requires
            self.wf(),
            -POINT_SAT <= x <= POINT_SAT,
            -POINT_SAT <= y <= POINT_SAT,
            -POINT_SAT <= z <= POINT_SAT,
        ensures
            r == self.spec_value_at_3d(x as int, y as int, z as int),
            -FP_ONE <= r <= FP_ONE,
    {
        proof {
            lemma_abs_mul_le(x as int, self.frequency as int, POINT_SAT as int,
                NOISE_PARAM_MAX as int);
            lemma_abs_mul_le(y as int, self.frequency as int, POINT_SAT as int,
                NOISE_PARAM_MAX as int);
            lemma_abs_mul_le(z as int, self.frequency as int, POINT_SAT as int,
                NOISE_PARAM_MAX as int);
        }
        let mut px: i64 = clamp_i64(fp_mul(x, self.frequency), -POINT_SAT, POINT_SAT);
        let mut py: i64 = clamp_i64(fp_mul(y, self.frequency), -POINT_SAT, POINT_SAT);
        let mut pz: i64 = clamp_i64(fp_mul(z, self.frequency), -POINT_SAT, POINT_SAT);
        let ghost px0: int = px as int;
        let ghost py0: int = py as int;
        let ghost pz0: int = pz as int;
        let mut att: i64 = self.persistence;
        let mut acc: i64 = 0;
        let mut i: usize = 0;
        let n: usize = self.octaves.len();
        while i < n
            invariant
                self.wf(),
                n == self.octaves@.len(),
                i <= n,
                -POINT_SAT <= px <= POINT_SAT,
                -POINT_SAT <= py <= POINT_SAT,
                -POINT_SAT <= pz <= POINT_SAT,
                0 <= att <= FP_ONE,
                -(i as int) * NOISE_PARAM_MAX <= acc <= i as int * NOISE_PARAM_MAX,
                spec_fbm_acc3(self.sources@, self.octaves@, self.lacunarity as int,
                    self.persistence as int, i as int, px as int, py as int, pz as int,
                    att as int, acc as int)
                    == spec_fbm_acc3(self.sources@, self.octaves@, self.lacunarity as int,
                        self.persistence as int, 0, px0, py0, pz0,
                        self.persistence as int, 0),
            decreases n - i,
        {
            let strength: i64 = self.octaves[i];
            let sig: i64 = if strength != 0 {
                let raw: i64 = lattice3(self.sources[i].seed, px, py, pz);
                proof {
                    lemma_abs_mul_le(raw as int, strength as int, FP_ONE as int,
                        NOISE_PARAM_MAX as int);
                    lemma_fdiv_bounds(raw as int * strength as int, FP_ONE as int,
                        -(FP_ONE as int) * NOISE_PARAM_MAX, FP_ONE as int * NOISE_PARAM_MAX);
                }
                let s1: i64 = fp_mul(raw, strength);
                proof {
                    lemma_abs_mul_le(s1 as int, att as int, NOISE_PARAM_MAX as int,
                        FP_ONE as int);
                    lemma_fdiv_bounds(s1 as int * att as int, FP_ONE as int,
                        -(NOISE_PARAM_MAX as int) * FP_ONE, NOISE_PARAM_MAX as int * FP_ONE);
                }
                fp_mul(s1, att)
            } else {
                0
            };
            proof {
                lemma_abs_mul_le(px as int, self.lacunarity as int, POINT_SAT as int,
                    NOISE_PARAM_MAX as int);
                lemma_abs_mul_le(py as int, self.lacunarity as int, POINT_SAT as int,
                    NOISE_PARAM_MAX as int);
                lemma_abs_mul_le(pz as int, self.lacunarity as int, POINT_SAT as int,
                    NOISE_PARAM_MAX as int);
                assert(0 <= att as int * self.persistence as int
                    && att as int * self.persistence as int <= FP_ONE as int * FP_ONE as int)
                    by (nonlinear_arith)
                    requires
                        0 <= att <= FP_ONE,
                        0 <= self.persistence <= FP_ONE,
                {}
                lemma_fdiv_bounds(att as int * self.persistence as int, FP_ONE as int, 0,
                    FP_ONE as int * FP_ONE as int);
            }
            let ghost pre: (int, int, int, int, int, int) =
                (i as int, px as int, py as int, pz as int, att as int, acc as int);
            px = clamp_i64(fp_mul(px, self.lacunarity), -POINT_SAT, POINT_SAT);
            py = clamp_i64(fp_mul(py, self.lacunarity), -POINT_SAT, POINT_SAT);
            pz = clamp_i64(fp_mul(pz, self.lacunarity), -POINT_SAT, POINT_SAT);
            att = fp_mul(att, self.persistence);
            acc = acc + sig;
            proof {
                assert(spec_fbm_acc3(self.sources@, self.octaves@, self.lacunarity as int,
                    self.persistence as int, pre.0, pre.1, pre.2, pre.3, pre.4, pre.5)
                    == spec_fbm_acc3(self.sources@, self.octaves@, self.lacunarity as int,
                        self.persistence as int, pre.0 + 1, px as int, py as int, pz as int,
                        att as int, acc as int));
            }
            i = i + 1;
        }
        proof {
            lemma_abs_mul_le(acc as int, self.scale_factor as int,
                32 * NOISE_PARAM_MAX as int, FP_ONE as int * FP_ONE as int);
        }
        clamp_i64(fp_mul(acc, self.scale_factor), -FP_ONE, FP_ONE)
    }

    /// The 4-D noise value at a point, as a function of the configuration.
    pub open spec fn spec_value_at_4d(&self, x: int, y: int, z: int, w: int) -> int {
        spec_fbm_value4(self.sources@, self.octaves@, self.frequency as int,
            self.lacunarity as int, self.persistence as int, self.scale_factor as int, x, y,
            z, w)
    }

    /// Evaluate the fractal noise at a 4-D fixed-point point: the same
    /// octave algorithm generalized over vector arity.
    #[verifier::rlimit(100)]
    pub fn get_4d(&self, x: i64, y: i64, z: i64, w: i64) -> (r: i64)
        requires
            self.wf(),
            -POINT_SAT <= x <= POINT_SAT,
            -POINT_SAT <= y <= POINT_SAT,
            -POINT_SAT <= z <= POINT_SAT,
            -POINT_SAT <= w <= POINT_SAT,
        ensures
            r == self.spec_value_at_4d(x as int, y as int, z as int, w as int),
            -FP_ONE <= r <= FP_ONE,
    {
        proof {
            lemma_abs_mul_le(x as int, self.frequency as int, POINT_SAT as int,
                NOISE_PARAM_MAX as int);
            lemma_abs_mul_le(y as int, self.frequency as int, POINT_SAT as int,
                NOISE_PARAM_MAX as int);
            lemma_abs_mul_le(z as int, self.frequency as int, POINT_SAT as int,
                NOISE_PARAM_MAX as int);
            lemma_abs_mul_le(w as int, self.frequency as int, POINT_SAT as int,
                NOISE_PARAM_MAX as int);
        }
        let mut px: i64 = clamp_i64(fp_mul(x, self.frequency), -POINT_SAT, POINT_SAT);
        let mut py: i64 = clamp_i64(fp_mul(y, self.frequency), -POINT_SAT, POINT_SAT);
        let mut pz: i64 = clamp_i64(fp_mul(z, self.frequency), -POINT_SAT, POINT_SAT);
        let mut pw: i64 = clamp_i64(fp_mul(w, self.frequency), -POINT_SAT, POINT_SAT);
        let ghost px0: int = px as int;
        let ghost py0: int = py as int;
        let ghost pz0: int = pz as int;
        let ghost pw0: int = pw as int;
        let mut att: i64 = self.persistence;
        let mut acc: i64 = 0;
        let mut i: usize = 0;
        let n: usize = self.octaves.len();
        while i < n
            invariant
                self.wf(),
                n == self.octaves@.len(),
                i <= n,
                -POINT_SAT <= px <= POINT_SAT,
                -POINT_SAT <= py <= POINT_SAT,
                -POINT_SAT <= pz <= POINT_SAT,
                -POINT_SAT <= pw <= POINT_SAT,
                0 <= att <= FP_ONE,
                -(i as int) * NOISE_PARAM_MAX <= acc <= i as int * NOISE_PARAM_MAX,
                spec_fbm_acc4(self.sources@, self.octaves@, self.lacunarity as int,
                    self.persistence as int, i as int, px as int, py as int, pz as int,
                    pw as int, att as int, acc as int)
                    == spec_fbm_acc4(self.sources@, self.octaves@, self.lacunarity as int,
                        self.persistence as int, 0, px0, py0, pz0, pw0,
                        self.persistence as int, 0),
            decreases n - i,
        {
            let strength: i64 = self.octaves[i];
            let sig: i64 = if strength != 0 {
                let raw: i64 = lattice4(self.sources[i].seed, px, py, pz, pw);
                proof {
                    lemma_abs_mul_le(raw as int, strength as int, FP_ONE as int,
                        NOISE_PARAM_MAX as int);
                    lemma_fdiv_bounds(raw as int * strength as int, FP_ONE as int,
                        -(FP_ONE as int) * NOISE_PARAM_MAX, FP_ONE as int * NOISE_PARAM_MAX);
                }
                let s1: i64 = fp_mul(raw, strength);
                proof {
                    lemma_abs_mul_le(s1 as int, att as int, NOISE_PARAM_MAX as int,
                        FP_ONE as int);
                    lemma_fdiv_bounds(s1 as int * att as int, FP_ONE as int,
                        -(NOISE_PARAM_MAX as int) * FP_ONE, NOISE_PARAM_MAX as int * FP_ONE);
                }
                fp_mul(s1, att)
            } else {
                0
            };
            proof {
                lemma_abs_mul_le(px as int, self.lacunarity as int, POINT_SAT as int,
                    NOISE_PARAM_MAX as int);
                lemma_abs_mul_le(py as int, self.lacunarity as int, POINT_SAT as int,
                    NOISE_PARAM_MAX as int);
                lemma_abs_mul_le(pz as int, self.lacunarity as int, POINT_SAT as int,
                    NOISE_PARAM_MAX as int);
                lemma_abs_mul_le(pw as int, self.lacunarity as int, POINT_SAT as int,
                    NOISE_PARAM_MAX as int);
                assert(0 <= att as int * self.persistence as int
                    && att as int * self.persistence as int <= FP_ONE as int * FP_ONE as int)
                    by (nonlinear_arith)
                    requires
                        0 <= att <= FP_ONE,
                        0 <= self.persistence <= FP_ONE,
                {}
                lemma_fdiv_bounds(att as int * self.persistence as int, FP_ONE as int, 0,
                    FP_ONE as int * FP_ONE as int);
            }
            let ghost pre: (int, int, int, int, int, int, int) =
                (i as int, px as int, py as int, pz as int, pw as int, att as int,
                acc as int);
            px = clamp_i64(fp_mul(px, self.lacunarity), -POINT_SAT, POINT_SAT);
            py = clamp_i64(fp_mul(py, self.lacunarity), -POINT_SAT, POINT_SAT);
            pz = clamp_i64(fp_mul(pz, self.lacunarity), -POINT_SAT, POINT_SAT);
            pw = clamp_i64(fp_mul(pw, self.lacunarity), -POINT_SAT, POINT_SAT);
            att = fp_mul(att, self.persistence);
            acc = acc + sig;
            proof {
                assert(spec_fbm_acc4(self.sources@, self.octaves@, self.lacunarity as int,
                    self.persistence as int, pre.0, pre.1, pre.2, pre.3, pre.4, pre.5,
                    pre.6)
                    == spec_fbm_acc4(self.sources@, self.octaves@, self.lacunarity as int,
                        self.persistence as int, pre.0 + 1, px as int, py as int, pz as int,
                        pw as int, att as int, acc as int));
            }
            i = i + 1;
        }
        proof {
            lemma_abs_mul_le(acc as int, self.scale_factor as int,
                32 * NOISE_PARAM_MAX as int, FP_ONE as int * FP_ONE as int);
        }
        clamp_i64(fp_mul(acc, self.scale_factor), -FP_ONE, FP_ONE)
    }

    /// Evaluate the fractal noise at a fixed-point point.  The result is a
    /// pure function of the configuration and the point, and stays within
    /// one unit of zero.
    #[verifier::rlimit(100)]
    pub fn get(&self, point: Vec2) -> (r: i64)
        requires
            self.wf(),
            -POINT_SAT <= point.x <= POINT_SAT,
            -POINT_SAT <= point.z <= POINT_SAT,
        ensures
            r == self.spec_value_at(point.x as int, point.z as int),
            -FP_ONE <= r <= FP_ONE,
    {
        proof {
            assert(point.x * self.frequency <= POINT_SAT as int * NOISE_PARAM_MAX as int
                && point.x * self.frequency >= -(POINT_SAT as int) * NOISE_PARAM_MAX as int
                && point.z * self.frequency <= POINT_SAT as int * NOISE_PARAM_MAX as int
                && point.z * self.frequency >= -(POINT_SAT as int) * NOISE_PARAM_MAX as int)
                by (nonlinear_arith)
                requires
                    -POINT_SAT <= point.x <= POINT_SAT,
                    -POINT_SAT <= point.z <= POINT_SAT,
                    0 < self.frequency <= NOISE_PARAM_MAX,
            {}
        }
        let mut px: i64 = clamp_i64(fp_mul(point.x, self.frequency), -POINT_SAT, POINT_SAT);
        let mut pz: i64 = clamp_i64(fp_mul(point.z, self.frequency), -POINT_SAT, POINT_SAT);
        let ghost px0: int = px as int;
        let ghost pz0: int = pz as int;
        let mut att: i64 = self.persistence;
        let mut acc: i64 = 0;
        let mut i: usize = 0;
        let n: usize = self.octaves.len();
        while i < n
            invariant
                self.wf(),
                n == self.octaves@.len(),
                i <= n,
                -POINT_SAT <= px <= POINT_SAT,
                -POINT_SAT <= pz <= POINT_SAT,
                0 <= att <= FP_ONE,
                -(i as int) * NOISE_PARAM_MAX <= acc <= i as int * NOISE_PARAM_MAX,
                spec_fbm_acc(self.sources@, self.octaves@, self.lacunarity as int,
                    self.persistence as int, i as int, px as int, pz as int, att as int,
                    acc as int)
                    == spec_fbm_acc(self.sources@, self.octaves@, self.lacunarity as int,
                        self.persistence as int, 0, px0, pz0, self.persistence as int, 0),
            decreases n - i,
        {
            let strength: i64 = self.octaves[i];
            let sig: i64 = if strength != 0 {
                let raw: i64 = lattice2(self.sources[i].seed, px, pz);
                proof {
                    assert(-(FP_ONE as int) * NOISE_PARAM_MAX <= raw * strength
                        && raw * strength <= FP_ONE as int * NOISE_PARAM_MAX)
                        by (nonlinear_arith)
                        requires
                            -FP_ONE <= raw <= FP_ONE,
                            -NOISE_PARAM_MAX <= strength <= NOISE_PARAM_MAX,
                    {}
                    lemma_fdiv_bounds(raw as int * strength as int, FP_ONE as int,
                        -(FP_ONE as int) * NOISE_PARAM_MAX, FP_ONE as int * NOISE_PARAM_MAX);
                }
                let s1: i64 = fp_mul(raw, strength);
                proof {
                    assert(-(NOISE_PARAM_MAX as int) * FP_ONE <= s1 * att
                        && s1 * att <= NOISE_PARAM_MAX as int * FP_ONE)
                        by (nonlinear_arith)
                        requires
                            -NOISE_PARAM_MAX <= s1 <= NOISE_PARAM_MAX,
                            0 <= att <= FP_ONE,
                    {}
                    lemma_fdiv_bounds(s1 as int * att as int, FP_ONE as int,
                        -(NOISE_PARAM_MAX as int) * FP_ONE, NOISE_PARAM_MAX as int * FP_ONE);
                }
                fp_mul(s1, att)
            } else {
                0
            };
            proof {
                assert(-NOISE_PARAM_MAX <= sig <= NOISE_PARAM_MAX);
                assert(px as int * self.lacunarity as int <= POINT_SAT as int
                    * NOISE_PARAM_MAX as int
                    && px as int * self.lacunarity as int >= -(POINT_SAT as int)
                        * NOISE_PARAM_MAX as int
                    && pz as int * self.lacunarity as int <= POINT_SAT as int
                        * NOISE_PARAM_MAX as int
                    && pz as int * self.lacunarity as int >= -(POINT_SAT as int)
                        * NOISE_PARAM_MAX as int)
                    by (nonlinear_arith)
                    requires
                        -POINT_SAT <= px <= POINT_SAT,
                        -POINT_SAT <= pz <= POINT_SAT,
                        0 < self.lacunarity <= NOISE_PARAM_MAX,
                {}
                assert(0 <= att as int * self.persistence as int
                    && att as int * self.persistence as int <= FP_ONE as int * FP_ONE as int)
                    by (nonlinear_arith)
                    requires
                        0 <= att <= FP_ONE,
                        0 <= self.persistence <= FP_ONE,
                {}
                lemma_fdiv_bounds(att as int * self.persistence as int, FP_ONE as int, 0,
                    FP_ONE as int * FP_ONE as int);
            }
            let ghost old_state: (int, int, int, int, int) =
                (i as int, px as int, pz as int, att as int, acc as int);
            px = clamp_i64(fp_mul(px, self.lacunarity), -POINT_SAT, POINT_SAT);
            pz = clamp_i64(fp_mul(pz, self.lacunarity), -POINT_SAT, POINT_SAT);
            att = fp_mul(att, self.persistence);
            acc = acc + sig;
            proof {
                assert(spec_fbm_acc(self.sources@, self.octaves@, self.lacunarity as int,
                    self.persistence as int, old_state.0, old_state.1, old_state.2,
                    old_state.3, old_state.4)
                    == spec_fbm_acc(self.sources@, self.octaves@, self.lacunarity as int,
                        self.persistence as int, old_state.0 + 1, px as int, pz as int,
                        att as int, acc as int));
            }
            i = i + 1;
        }
        proof {
            assert(acc as int * self.scale_factor as int
                <= 32 * NOISE_PARAM_MAX as int * (FP_ONE as int * FP_ONE as int)
                && acc as int * self.scale_factor as int
                    >= -(32 * NOISE_PARAM_MAX as int) * (FP_ONE as int * FP_ONE as int))
                by (nonlinear_arith)
                requires
                    -32 * NOISE_PARAM_MAX <= acc <= 32 * NOISE_PARAM_MAX,
                    0 <= self.scale_factor <= FP_ONE * FP_ONE,
            {}
        }
        clamp_i64(fp_mul(acc, self.scale_factor), -FP_ONE, FP_ONE)
    }
}

impl Default for Fbm {
    /// The default noise stack: default parameters under the default seed.
    fn default() -> (r: Fbm)
        ensures
            r.wf(),
            r.seed == DEFAULT_SEED,
    {
        Fbm::new(DEFAULT_SEED)
    }
}


} // verus!
