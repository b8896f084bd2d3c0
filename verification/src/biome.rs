//! Biome definitions and climate parameters.
//!
//! A biome declares climate ranges (elevation, temperature, moisture), a
//! block-placement rule, a surface-shaping noise expression and blending
//! influences.  Rules and surface shapes are declarative data evaluated by
//! the generator, so a biome's behaviour is a pure function of its
//! definition.

use vstd::prelude::*;

use crate::fixed::{FP_ONE, fdiv, spec_fp_mul, spec_clamp, div_floor, fp_mul, clamp_i64, Vec2,
    lemma_fdiv_bounds};
use crate::fbm_noise::{Fbm, NOISE_PARAM_MAX, POINT_SAT, POINT_BOUND};
use crate::registry::{Registry, RegistryId, RegistryName, RegistryObject};
use crate::voxeltypes::{BlockEntry, ColorRgba};

verus! {

/// Upper end of the normalized climate scale, fixed point (five units).
pub const CLIMATE_MAX: i64 = 5120;

/// Sentinel for a range unbounded below.
pub const CLIMATE_LO_OPEN: i64 = -0x1_0000_0000;

/// Sentinel for a range unbounded above.
pub const CLIMATE_HI_OPEN: i64 = 0x1_0000_0000;

/// Largest admissible surface height magnitude, fixed point.
pub const SURFACE_HEIGHT_MAX: i64 = 262144;

/// The climate-noise triple cached per partition cell, each component in
/// `[0, CLIMATE_MAX]`.
#[derive(Clone, Copy, PartialEq, Eq, Structural, Debug)]
pub struct NoiseValues {
    /// Elevation parameter, fixed point.
    pub elevation: i64,
    /// Temperature parameter, fixed point.
    pub temperature: i64,
    /// Moisture parameter, fixed point.
    pub moisture: i64,
}

impl NoiseValues {
    /// Components stay on the normalized climate scale.
    pub open spec fn wf(&self) -> bool {
        &&& 0 <= self.elevation <= CLIMATE_MAX
        &&& 0 <= self.temperature <= CLIMATE_MAX
        &&& 0 <= self.moisture <= CLIMATE_MAX
    }
}

/// A half-open climate interval: minimum inclusive, maximum exclusive.
#[derive(Clone, Copy, PartialEq, Eq, Structural, Debug)]
pub struct ClimateRange {
    /// Inclusive lower bound, fixed point.
    pub lo: i64,
    /// Exclusive upper bound, fixed point.
    pub hi: i64,
}

/// Whether a value lies in a climate range.
pub open spec fn spec_in_range(r: ClimateRange, v: int) -> bool {
    r.lo <= v < r.hi
}

impl ClimateRange {
    /// A bounded range.
    pub fn between(lo: i64, hi: i64) -> (r: ClimateRange)
        ensures
            r == (ClimateRange { lo, hi }),
    {
        ClimateRange { lo, hi }
    }

    /// The range containing the whole climate scale.
    pub fn full() -> (r: ClimateRange)
        ensures
            r == (ClimateRange { lo: CLIMATE_LO_OPEN, hi: CLIMATE_HI_OPEN }),
    {
        ClimateRange { lo: CLIMATE_LO_OPEN, hi: CLIMATE_HI_OPEN }
    }

    /// A range open below (everything under `hi`).
    pub fn below(hi: i64) -> (r: ClimateRange)
        ensures
            r == (ClimateRange { lo: CLIMATE_LO_OPEN, hi }),
    {
        ClimateRange { lo: CLIMATE_LO_OPEN, hi }
    }

    /// A range open above (everything from `lo` upward).
    pub fn at_least(lo: i64) -> (r: ClimateRange)
        ensures
            r == (ClimateRange { lo, hi: CLIMATE_HI_OPEN }),
    {
        ClimateRange { lo, hi: CLIMATE_HI_OPEN }
    }

    /// Test a value for membership.
    pub fn contains(&self, v: i64) -> (r: bool)
        ensures
            r == spec_in_range(*self, v as int),
    {
        self.lo <= v && v < self.hi
    }
}

/// A declarative block-placement rule, with block types given by name.
#[derive(Clone, Debug)]
pub enum BlockRule {
    /// A soil profile: a surface block (or a snowy variant at high
    /// altitude), a band of shallow soil beneath it, and deep rock below.
    LayeredSurface {
        /// Block at the ground level itself.
        surface: RegistryName,
        /// Block at the ground level at or above `snow_min_y`.
        snow: RegistryName,
        /// Altitude from which the snowy surface variant is used.
        snow_min_y: i64,
        /// Block in the shallow band under the surface.
        shallow: RegistryName,
        /// Thickness of the shallow band.
        shallow_depth: i64,
        /// Block anywhere deeper below the ground.
        deep: RegistryName,
    },
    /// A flooded profile: below sea level, solid under the ground and fluid
    /// above it; nothing above sea level.
    Flooded {
        /// Block under the ground.
        solid: RegistryName,
        /// Block between ground and sea level.
        fluid: RegistryName,
    },
}

/// A block-placement rule with names resolved to registry ids.
#[derive(Clone, Copy, PartialEq, Eq, Structural, Debug)]
pub enum ResolvedBlockRule {
    /// See [`BlockRule::LayeredSurface`].
    LayeredSurface {
        /// Block at the ground level itself.
        surface: RegistryId,
        /// Block at the ground level at or above `snow_min_y`.
        snow: RegistryId,
        /// Altitude from which the snowy surface variant is used.
        snow_min_y: i64,
        /// Block in the shallow band under the surface.
        shallow: RegistryId,
        /// Thickness of the shallow band.
        shallow_depth: i64,
        /// Block anywhere deeper below the ground.
        deep: RegistryId,
    },
    /// See [`BlockRule::Flooded`].
    Flooded {
        /// Block under the ground.
        solid: RegistryId,
        /// Block between ground and sea level.
        fluid: RegistryId,
    },
}

/// What a resolved rule places at altitude `y` for a column with the given
/// ground height and sea level: `None` leaves the voxel untouched.
pub open spec fn spec_rule_block(rule: ResolvedBlockRule, y: int, ground_y: int, sea_level: int)
    -> Option<BlockEntry> {
    match rule {
        ResolvedBlockRule::LayeredSurface {
            surface, snow, snow_min_y, shallow, shallow_depth, deep } => {
            if y == ground_y {
                if y >= snow_min_y {
                    Some(BlockEntry { id: snow, metadata: 0 })
                } else {
                    Some(BlockEntry { id: surface, metadata: 0 })
                }
            } else if y <= ground_y && y > ground_y - shallow_depth {
                Some(BlockEntry { id: shallow, metadata: 0 })
            } else if ground_y > y {
                Some(BlockEntry { id: deep, metadata: 0 })
            } else {
                None
            }
        },
        ResolvedBlockRule::Flooded { solid, fluid } => {
            if sea_level > y {
                if ground_y > y {
                    Some(BlockEntry { id: solid, metadata: 0 })
                } else {
                    Some(BlockEntry { id: fluid, metadata: 0 })
                }
            } else {
                None
            }
        },
    }
}

/// Bounded parameters of a named rule.
pub open spec fn block_rule_bounds(rule: BlockRule) -> bool {
    match rule {
        BlockRule::LayeredSurface { snow_min_y, shallow_depth, .. } => {
            &&& -0x1_0000_0000 <= snow_min_y <= 0x1_0000_0000
            &&& 0 <= shallow_depth <= 0x1_0000_0000
        },
        BlockRule::Flooded { .. } => true,
    }
}

/// Bounded rule parameters, so rule evaluation is exact.
pub open spec fn rule_wf(rule: ResolvedBlockRule) -> bool {
    match rule {
        ResolvedBlockRule::LayeredSurface { snow_min_y, shallow_depth, .. } => {
            &&& -0x1_0000_0000 <= snow_min_y <= 0x1_0000_0000
            &&& 0 <= shallow_depth <= 0x1_0000_0000
        },
        ResolvedBlockRule::Flooded { .. } => true,
    }
}

/// Evaluate a resolved rule at one voxel.
pub fn rule_block(rule: &ResolvedBlockRule, y: i64, ground_y: i64, sea_level: i64)
    -> (r: Option<BlockEntry>)
    requires
        rule_wf(*rule),
        -0x1_0000_0000 <= y <= 0x1_0000_0000,
        -0x1_0000_0000 <= ground_y <= 0x1_0000_0000,
        -0x1_0000_0000 <= sea_level <= 0x1_0000_0000,
    ensures
        r == spec_rule_block(*rule, y as int, ground_y as int, sea_level as int),
{
    match rule {
        ResolvedBlockRule::LayeredSurface {
            surface, snow, snow_min_y, shallow, shallow_depth, deep } => {
            if y == ground_y {
                if y >= *snow_min_y {
                    Some(BlockEntry { id: *snow, metadata: 0 })
                } else {
                    Some(BlockEntry { id: *surface, metadata: 0 })
                }
            } else if y <= ground_y && y > ground_y - *shallow_depth {
                Some(BlockEntry { id: *shallow, metadata: 0 })
            } else if ground_y > y {
                Some(BlockEntry { id: *deep, metadata: 0 })
            } else {
                None
            }
        },
        ResolvedBlockRule::Flooded { solid, fluid } => {
            if sea_level > y {
                if ground_y > y {
                    Some(BlockEntry { id: *solid, metadata: 0 })
                } else {
                    Some(BlockEntry { id: *fluid, metadata: 0 })
                }
            } else {
                None
            }
        },
    }
}

/// One additive term of a surface-shaping expression.
#[derive(Clone, Copy, PartialEq, Eq, Structural, Debug)]
pub struct SurfaceTerm {
    /// Frequency multiplier applied to the sample point, fixed point.
    pub freq: i64,
    /// Amplitude of this term, fixed point.
    pub amp: i64,
    /// Whether the sample is folded into a ridge before weighting.
    pub ridged: bool,
}

/// A declarative surface-shaping expression: a weighted sum of base-noise
/// samples at scaled frequencies, then scaled and offset.
#[derive(Clone, Debug, PartialEq)]
pub struct SurfaceNoise {
    /// Scale applied to the point before sampling, fixed point.
    pub input_scale: i64,
    /// The additive terms.
    pub terms: Vec<SurfaceTerm>,
    /// Output scale, fixed point.
    pub out_scale: i64,
    /// Output offset, fixed point.
    pub out_offset: i64,
}

impl SurfaceNoise {
    /// Bounded parameters and few terms.
    pub open spec fn wf(&self) -> bool {
        &&& 0 < self.input_scale <= NOISE_PARAM_MAX
        &&& self.terms@.len() <= 8
        &&& forall|k: int| 0 <= k < self.terms@.len()
            ==> 0 < (#[trigger] self.terms@[k]).freq <= NOISE_PARAM_MAX
                && -NOISE_PARAM_MAX <= self.terms@[k].amp <= NOISE_PARAM_MAX
        &&& 0 < self.out_scale <= NOISE_PARAM_MAX
        &&& -SURFACE_HEIGHT_MAX <= self.out_offset <= SURFACE_HEIGHT_MAX
    }
}

/// Ridge fold of a noise sample: high near the middle of the range, low at
/// both ends.
pub open spec fn spec_ridge(s: int) -> int {
    let h = FP_ONE as int / 2;
    let c = if s >= h { s - h } else { h - s };
    2 * (h - c)
}

/// Accumulated surface terms from index `i` onwards.
pub open spec fn spec_surface_acc(noise: Fbm, terms: Seq<SurfaceTerm>, px: int, pz: int,
    i: int, acc: int) -> int
    decreases terms.len() - i,
{
    if i < 0 || i >= terms.len() {
        acc
    } else {
        let sx = spec_clamp(spec_fp_mul(px, terms[i].freq as int),
            -POINT_SAT as int, POINT_SAT as int);
        let sz = spec_clamp(spec_fp_mul(pz, terms[i].freq as int),
            -POINT_SAT as int, POINT_SAT as int);
        let raw = noise.spec_value_at(sx, sz);
        let folded = if terms[i].ridged { spec_ridge(raw) } else { raw };
        spec_surface_acc(noise, terms, px, pz, i + 1,
            acc + spec_fp_mul(folded, terms[i].amp as int))
    }
}

/// The surface height contribution of a biome at a point, fixed point,
/// clamped into `[-SURFACE_HEIGHT_MAX, SURFACE_HEIGHT_MAX]`.
pub open spec fn spec_surface_value(sn: SurfaceNoise, noise: Fbm, x: int, z: int) -> int {
    let px = spec_clamp(spec_fp_mul(x, sn.input_scale as int),
        -POINT_SAT as int, POINT_SAT as int);
    let pz = spec_clamp(spec_fp_mul(z, sn.input_scale as int),
        -POINT_SAT as int, POINT_SAT as int);
    let acc = spec_surface_acc(noise, sn.terms@, px, pz, 0, 0);
    spec_clamp(spec_fp_mul(acc, sn.out_scale as int) + sn.out_offset as int,
        -SURFACE_HEIGHT_MAX as int, SURFACE_HEIGHT_MAX as int)
}

/// Evaluate a surface expression against the shared base terrain noise.
#[verifier::rlimit(100)]
pub fn surface_value(sn: &SurfaceNoise, noise: &Fbm, point: Vec2) -> (r: i64)
    requires
        sn.wf(),
        noise.wf(),
        -POINT_BOUND <= point.x <= POINT_BOUND,
        -POINT_BOUND <= point.z <= POINT_BOUND,
    ensures
        r == spec_surface_value(*sn, *noise, point.x as int, point.z as int),
        -SURFACE_HEIGHT_MAX <= r <= SURFACE_HEIGHT_MAX,
{
    proof {
        assert(-(POINT_BOUND as int) * NOISE_PARAM_MAX <= point.x * sn.input_scale
            && point.x * sn.input_scale <= POINT_BOUND as int * NOISE_PARAM_MAX
            && -(POINT_BOUND as int) * NOISE_PARAM_MAX <= point.z * sn.input_scale
            && point.z * sn.input_scale <= POINT_BOUND as int * NOISE_PARAM_MAX)
            by (nonlinear_arith)
            requires
                -POINT_BOUND <= point.x <= POINT_BOUND,
                -POINT_BOUND <= point.z <= POINT_BOUND,
                0 < sn.input_scale <= NOISE_PARAM_MAX,
        {}
    }
    let px: i64 = clamp_i64(fp_mul(point.x, sn.input_scale), -POINT_SAT, POINT_SAT);
    let pz: i64 = clamp_i64(fp_mul(point.z, sn.input_scale), -POINT_SAT, POINT_SAT);
    let mut acc: i64 = 0;
    let mut i: usize = 0;
    let n: usize = sn.terms.len();
    while i < n
        invariant
            i <= n,
            -(i as int) * 2 * NOISE_PARAM_MAX <= acc <= i as int * 2 * NOISE_PARAM_MAX,
            spec_surface_acc(*noise, sn.terms@, px as int, pz as int, i as int, acc as int)
                == spec_surface_acc(*noise, sn.terms@, px as int, pz as int, 0, 0),
        decreases n - i,
    {
        let t: SurfaceTerm = sn.terms[i];
        proof {
            assert(-(POINT_SAT as int) * NOISE_PARAM_MAX <= px * t.freq
                && px * t.freq <= POINT_SAT as int * NOISE_PARAM_MAX
                && -(POINT_SAT as int) * NOISE_PARAM_MAX <= pz * t.freq
                && pz * t.freq <= POINT_SAT as int * NOISE_PARAM_MAX)
                by (nonlinear_arith)
                requires
                    -POINT_SAT <= px <= POINT_SAT,
                    -POINT_SAT <= pz <= POINT_SAT,
                    0 < t.freq <= NOISE_PARAM_MAX,
            {}
        }
        let sx: i64 = clamp_i64(fp_mul(px, t.freq), -POINT_SAT, POINT_SAT);
        let sz: i64 = clamp_i64(fp_mul(pz, t.freq), -POINT_SAT, POINT_SAT);
        let raw: i64 = noise.get(Vec2 { x: sx, z: sz });
        let folded: i64 = if t.ridged {
            let h: i64 = FP_ONE / 2;
            let c: i64 = if raw >= h { raw - h } else { h - raw };
            2 * (h - c)
        } else {
            raw
        };
        proof {
            assert(-2 * FP_ONE <= folded <= FP_ONE + FP_ONE);
            assert(-2 * (FP_ONE as int) * NOISE_PARAM_MAX <= folded * t.amp
                && folded * t.amp <= 2 * (FP_ONE as int) * NOISE_PARAM_MAX)
                by (nonlinear_arith)
                requires
                    -2 * FP_ONE <= folded <= 2 * FP_ONE,
                    -NOISE_PARAM_MAX <= t.amp <= NOISE_PARAM_MAX,
            {}
            lemma_fdiv_bounds(folded as int * t.amp as int, FP_ONE as int,
                -2 * (FP_ONE as int) * NOISE_PARAM_MAX, 2 * (FP_ONE as int) * NOISE_PARAM_MAX);
        }
        let term_value: i64 = fp_mul(folded, t.amp);
        acc = acc + term_value;
        i = i + 1;
    }
    proof {
        assert(-16 * NOISE_PARAM_MAX <= acc <= 16 * NOISE_PARAM_MAX);
        assert(-16 * (NOISE_PARAM_MAX as int) * NOISE_PARAM_MAX <= acc * sn.out_scale
            && acc * sn.out_scale <= 16 * (NOISE_PARAM_MAX as int) * NOISE_PARAM_MAX)
            by (nonlinear_arith)
            requires
                -16 * NOISE_PARAM_MAX <= acc <= 16 * NOISE_PARAM_MAX,
                0 < sn.out_scale <= NOISE_PARAM_MAX,
        {}
        lemma_fdiv_bounds(acc as int * sn.out_scale as int, FP_ONE as int,
            -16 * (NOISE_PARAM_MAX as int) * NOISE_PARAM_MAX,
            16 * (NOISE_PARAM_MAX as int) * NOISE_PARAM_MAX);
    }
    let scaled: i64 = fp_mul(acc, sn.out_scale);
    clamp_i64(scaled + sn.out_offset, -SURFACE_HEIGHT_MAX, SURFACE_HEIGHT_MAX)
}

/// A declarative biome definition.
#[derive(Clone, Debug)]
pub struct BiomeDefinition {
    /// The unique registry name.
    pub name: RegistryName,
    /// A color that can represent the biome on maps and debug views.
    pub representative_color: ColorRgba,
    /// Elevation range in which this biome generates.
    pub elevation: ClimateRange,
    /// Temperature range in which this biome generates.
    pub temperature: ClimateRange,
    /// Moisture range in which this biome generates.
    pub moisture: ClimateRange,
    /// The block-placement rule of this biome.
    pub rule_source: BlockRule,
    /// The surface-shaping expression of this biome.
    pub surface_noise: SurfaceNoise,
    /// Weight of this biome's surface height in blending, fixed point.
    pub blend_influence: i64,
    /// Weight of this biome's block rule in placement, fixed point.
    pub block_influence: i64,
    /// Whether climate matching may pick this biome.
    pub can_generate: bool,
}

impl BiomeDefinition {
    /// Bounded influences and a well-formed surface expression.
    pub open spec fn wf(&self) -> bool {
        &&& self.surface_noise.wf()
        &&& 0 < self.blend_influence <= NOISE_PARAM_MAX
        &&& 0 <= self.block_influence <= NOISE_PARAM_MAX
        &&& block_rule_bounds(self.rule_source)
    }
}

impl RegistryObject for BiomeDefinition {
    open spec fn spec_name(&self) -> Seq<char> {
        self.name.key@
    }

    fn registry_name(&self) -> (r: &RegistryName) {
        &self.name
    }
}

/// A named registry of biome definitions.
pub type BiomeRegistry = Registry<BiomeDefinition>;

/// Every registered biome is well formed.
pub open spec fn biomes_wf(s: Seq<BiomeDefinition>) -> bool {
    forall|k: int| 0 <= k < s.len() ==> (#[trigger] s[k]).wf()
}

/// A (biome id, blend weight) pair: one entry of a blended biome list.
/// The weight is a non-negative contribution; entries of one point need not
/// sum to a fixed total.
#[derive(Clone, Copy, PartialEq, Eq, Structural, Debug)]
pub struct BiomeEntry {
    /// The biome id.
    pub id: RegistryId,
    /// The accumulated blend weight, fixed point.
    pub weight: i64,
}

impl BiomeEntry {
    /// Helper to look up the biome definition corresponding to this entry.
    pub fn lookup<'a>(&self, registry: &'a BiomeRegistry) -> (r: Option<&'a BiomeDefinition>)
        ensures
            1 <= self.id.raw <= registry@.len()
                ==> (r matches Some(obj) && *obj == registry@[self.id.raw - 1]),
            !(1 <= self.id.raw <= registry@.len()) ==> r is None,
    {
        registry.lookup_id_to_object(self.id)
    }
}

/// Whether a biome's three climate ranges all contain the given triple.
pub open spec fn spec_climate_match(b: BiomeDefinition, noise: NoiseValues) -> bool {
    &&& spec_in_range(b.elevation, noise.elevation as int)
    &&& spec_in_range(b.temperature, noise.temperature as int)
    &&& spec_in_range(b.moisture, noise.moisture as int)
}

/// A generatable biome's matching data: its id and climate ranges.
#[derive(Clone, Copy, PartialEq, Eq, Structural, Debug)]
pub struct GeneratableBiome {
    /// The biome's id in the registry.
    pub id: RegistryId,
    /// Elevation range in which this biome generates.
    pub elevation: ClimateRange,
    /// Temperature range in which this biome generates.
    pub temperature: ClimateRange,
    /// Moisture range in which this biome generates.
    pub moisture: ClimateRange,
}

/// Whether a generatable biome's ranges all contain the given triple.
pub open spec fn spec_ranges_match(b: GeneratableBiome, noise: NoiseValues) -> bool {
    &&& spec_in_range(b.elevation, noise.elevation as int)
    &&& spec_in_range(b.temperature, noise.temperature as int)
    &&& spec_in_range(b.moisture, noise.moisture as int)
}

/// The first generatable biome (in registry order) whose ranges contain the
/// triple, from index `i` on.
pub open spec fn spec_first_matching(biomes: Seq<GeneratableBiome>,
    noise: NoiseValues, i: int) -> Option<RegistryId>
    decreases biomes.len() - i,
{
    if i < 0 || i >= biomes.len() {
        None
    } else if spec_ranges_match(biomes[i], noise) {
        Some(biomes[i].id)
    } else {
        spec_first_matching(biomes, noise, i + 1)
    }
}

/// Find the first matching biome in a generatable list; first match wins,
/// not best match.
pub fn first_matching(biomes: &Vec<GeneratableBiome>, noise: NoiseValues)
    -> (r: Option<RegistryId>)
    ensures
        r == spec_first_matching(biomes@, noise, 0),
{
    let mut i: usize = 0;
    let n: usize = biomes.len();
    while i < n
        invariant
            i <= n,
            spec_first_matching(biomes@, noise, i as int)
                == spec_first_matching(biomes@, noise, 0),
        decreases n - i,
    {
        let b: GeneratableBiome = biomes[i];
        if b.elevation.contains(noise.elevation) && b.temperature.contains(noise.temperature)
            && b.moisture.contains(noise.moisture) {
            return Some(b.id);
        }
        i = i + 1;
    }
    None
}


/// The four noise stacks a generator samples.
#[derive(Clone, Debug)]
pub struct Noises {
    /// Shared base terrain noise that surface expressions sample.
    pub base_terrain_noise: Fbm,
    /// Climate elevation noise.
    pub elevation_noise: Fbm,
    /// Climate temperature noise.
    pub temperature_noise: Fbm,
    /// Climate moisture noise.
    pub moisture_noise: Fbm,
}

impl Noises {
    /// All four stacks are well formed.
    pub open spec fn wf(&self) -> bool {
        &&& self.base_terrain_noise.wf()
        &&& self.elevation_noise.wf()
        &&& self.temperature_noise.wf()
        &&& self.moisture_noise.wf()
    }
}

/// Blocks per climate-noise unit: the global biome scale.
pub const GLOBAL_BIOME_SCALE: i64 = 64;

/// Remap a raw noise value from `[-1.5, 1.5]` units onto the climate scale
/// `[0, CLIMATE_MAX]`, clamping.
pub open spec fn spec_remap_climate(v: int) -> int {
    spec_clamp(fdiv((v + 1536) * 5, 3), 0, CLIMATE_MAX as int)
}

/// Executable climate remap.
pub fn remap_climate(v: i64) -> (r: i64)
    requires
        -0x1_0000_0000 <= v <= 0x1_0000_0000,
    ensures
        r == spec_remap_climate(v as int),
        0 <= r <= CLIMATE_MAX,
{
    let scaled: i64 = div_floor((v + 1536) * 5, 3);
    clamp_i64(scaled, 0, CLIMATE_MAX)
}

/// The climate triple at an absolute point: each climate noise sampled at
/// the point shrunk by the global biome scale, remapped onto the climate
/// scale.
#[verifier::opaque]
pub open spec fn spec_point_noise(noises: Noises, x: int, z: int) -> NoiseValues {
    let sx = fdiv(x, GLOBAL_BIOME_SCALE as int);
    let sz = fdiv(z, GLOBAL_BIOME_SCALE as int);
    NoiseValues {
        elevation: spec_remap_climate(noises.elevation_noise.spec_value_at(sx, sz)) as i64,
        temperature: spec_remap_climate(noises.temperature_noise.spec_value_at(sx, sz)) as i64,
        moisture: spec_remap_climate(noises.moisture_noise.spec_value_at(sx, sz)) as i64,
    }
}

/// Sample the cached climate triple for a point; a pure function of the
/// noise configuration and the absolute position.
pub fn point_noise(noises: &Noises, point: Vec2) -> (r: NoiseValues)
    requires
        noises.wf(),
        -0x100_0000_0000 <= point.x <= 0x100_0000_0000,
        -0x100_0000_0000 <= point.z <= 0x100_0000_0000,
    ensures
        r == spec_point_noise(*noises, point.x as int, point.z as int),
        r.wf(),
{
    let sx: i64 = div_floor(point.x, GLOBAL_BIOME_SCALE);
    let sz: i64 = div_floor(point.z, GLOBAL_BIOME_SCALE);
    proof {
        reveal(spec_point_noise);
        lemma_fdiv_bounds(point.x as int, GLOBAL_BIOME_SCALE as int,
            -0x100_0000_0000, 0x100_0000_0000);
        lemma_fdiv_bounds(point.z as int, GLOBAL_BIOME_SCALE as int,
            -0x100_0000_0000, 0x100_0000_0000);
    }
    let p = Vec2 { x: sx, z: sz };
    let elevation: i64 = remap_climate(noises.elevation_noise.get(p));
    let temperature: i64 = remap_climate(noises.temperature_noise.get(p));
    let moisture: i64 = remap_climate(noises.moisture_noise.get(p));
    NoiseValues { elevation, temperature, moisture }
}


} // verus!
