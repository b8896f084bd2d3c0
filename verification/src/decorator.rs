//! Decorator placement.
//!
//! Decorative features (trees and the like) are placed over fixed-size
//! spatial groups covering the chunk and a one-group margin.  Each
//! (decorator, group) pair draws a stochastic count and positions from a
//! biome-independent group-random stream seeded purely by (world seed,
//! decorator salt, group coordinate), so neighbouring chunks agree on the
//! features near their shared border.  Placement fails silently on voxels
//! that are already occupied.

use vstd::prelude::*;

use crate::fixed::{FP_ONE, Vec2};
use crate::registry::{Registry, RegistryId, RegistryName, RegistryObject};
use crate::voxeltypes::BlockEntry;
use crate::biome::{NoiseValues, ClimateRange, spec_in_range};
use crate::partition::{Center, CellCore, spec_core};
use crate::blending::spec_blended_climate;
use crate::chunk::{ChunkBlocks, ChunkPos, CHUNK_DIM, CHUNK_VOLUME};
use crate::rng::{RandomStream, spec_next, spec_seed_for};

verus! {

/// The edge length of a decorator group, in blocks.
pub const GROUP_SIZE: i64 = 16;

/// Half the edge length of a decorator group.
pub const GROUP_SIZE_HALF: i64 = 8;

/// A declarative decorator definition: a feature with its own count rule
/// and placement shape, distinct from terrain blocks.
#[derive(Clone, Debug)]
pub struct DecoratorDefinition {
    /// The unique registry name.
    pub name: RegistryName,
    /// The block the feature is built from, by name.
    pub block: RegistryName,
    /// Elevation range in which the feature appears.
    pub elevation: ClimateRange,
    /// Temperature range in which the feature appears.
    pub temperature: ClimateRange,
    /// Moisture range in which the feature appears.
    pub moisture: ClimateRange,
    /// How many placements each group draws when the climate matches.
    pub density: u32,
    /// Height of the placed column, in blocks.
    pub height: i64,
    /// Placement radius around a group's reference point, in blocks.
    pub radius: i64,
    /// Stream discriminator, so different decorators draw independently.
    pub salt: u32,
}

impl DecoratorDefinition {
    /// Bounded parameters.
    pub open spec fn wf(&self) -> bool {
        &&& self.density <= 8
        &&& 1 <= self.height <= 8
        &&& 0 <= self.radius <= 2 * GROUP_SIZE
    }
}

impl RegistryObject for DecoratorDefinition {
    open spec fn spec_name(&self) -> Seq<char> {
        self.name.key@
    }

    fn registry_name(&self) -> (r: &RegistryName) {
        &self.name
    }
}

/// A named registry of decorator definitions.
pub type DecoratorRegistry = Registry<DecoratorDefinition>;

/// Every registered decorator is well formed.
pub open spec fn decorators_wf(s: Seq<DecoratorDefinition>) -> bool {
    forall|k: int| 0 <= k < s.len() ==> (#[trigger] s[k]).wf()
}

/// A decorator with its block name resolved.
#[derive(Clone, Copy, PartialEq, Eq, Structural, Debug)]
pub struct ResolvedDecorator {
    /// The block the feature is built from.
    pub block: BlockEntry,
    /// See [`DecoratorDefinition`].
    pub elevation: ClimateRange,
    /// See [`DecoratorDefinition`].
    pub temperature: ClimateRange,
    /// See [`DecoratorDefinition`].
    pub moisture: ClimateRange,
    /// See [`DecoratorDefinition`].
    pub density: u32,
    /// See [`DecoratorDefinition`].
    pub height: i64,
    /// See [`DecoratorDefinition`].
    pub radius: i64,
    /// See [`DecoratorDefinition`].
    pub salt: u32,
}

impl ResolvedDecorator {
    /// Bounded parameters.
    pub open spec fn wf(&self) -> bool {
        &&& self.density <= 8
        &&& 1 <= self.height <= 8
        &&& 0 <= self.radius <= 2 * GROUP_SIZE
    }
}

/// The count a decorator draws for a group, informed by the blended
/// climate at the group's reference point.
pub open spec fn spec_count_for(d: ResolvedDecorator, climate: NoiseValues) -> int {
    if spec_in_range(d.elevation, climate.elevation as int)
        && spec_in_range(d.temperature, climate.temperature as int)
        && spec_in_range(d.moisture, climate.moisture as int) {
        d.density as int
    } else {
        0
    }
}

/// Place a vertical run of one block type, skipping voxels outside the
/// chunk and voxels already holding anything but the fill block.
pub open spec fn spec_place_column(blocks: Seq<BlockEntry>, air: BlockEntry, x: int, y: int,
    z: int, h: int, blk: BlockEntry) -> Seq<BlockEntry>
    decreases h,
{
    if h <= 0 {
        blocks
    } else {
        let idx = y * CHUNK_DIM * CHUNK_DIM + z * CHUNK_DIM + x;
        let after = if 0 <= x < CHUNK_DIM && 0 <= y < CHUNK_DIM && 0 <= z < CHUNK_DIM
            && blocks[idx] == air {
            blocks.update(idx, blk)
        } else {
            blocks
        };
        spec_place_column(after, air, x, y + 1, z, h - 1, blk)
    }
}

/// One group's draws: each draw takes two stream words for an offset in
/// the group, skips exact-position collisions, keeps positions within the
/// decorator's radius of the group's reference point and inside the chunk
/// footprint, and places a column on the ground there.
pub open spec fn spec_group_draws(blocks: Seq<BlockEntry>, air: BlockEntry,
    heights: Seq<i64>, cpos: ChunkPos, d: ResolvedDecorator, gbx: int, gbz: int,
    seen: Seq<(i64, i64)>, stream: RandomStream, c: int) -> (Seq<BlockEntry>, RandomStream)
    decreases c,
{
    if c <= 0 {
        (blocks, stream)
    } else {
        let (v1, s1) = spec_next(stream);
        let (v2, s2) = spec_next(s1);
        let px = gbx * GROUP_SIZE + (v1 as int % GROUP_SIZE as int);
        let pz = gbz * GROUP_SIZE + (v2 as int % GROUP_SIZE as int);
        if seen.contains(((px as i64), (pz as i64))) {
            spec_group_draws(blocks, air, heights, cpos, d, gbx, gbz, seen, s2, c - 1)
        } else {
            let rx = gbx * GROUP_SIZE + GROUP_SIZE_HALF;
            let rz = gbz * GROUP_SIZE + GROUP_SIZE_HALF;
            let lx = px - cpos.x * CHUNK_DIM;
            let lz = pz - cpos.z * CHUNK_DIM;
            let in_radius = (px - rx) * (px - rx) + (pz - rz) * (pz - rz)
                <= d.radius * d.radius;
            let in_chunk = 0 <= lx < CHUNK_DIM && 0 <= lz < CHUNK_DIM;
            let after = if in_radius && in_chunk {
                let ground = heights[lx + lz * CHUNK_DIM] as int;
                spec_place_column(blocks, air, lx, ground + 1 - cpos.y * CHUNK_DIM, lz,
                    d.height as int, d.block)
            } else {
                blocks
            };
            spec_group_draws(after, air, heights, cpos, d, gbx, gbz,
                seen.push(((px as i64), (pz as i64))), s2, c - 1)
        }
    }
}

/// One (decorator, group) pair: the blended climate at the group's
/// reference point decides the count, a group-random stream seeded purely
/// by (seed, salt, group coordinate) decides the positions.
pub open spec fn spec_decorate_group(blocks: Seq<BlockEntry>, air: BlockEntry,
    heights: Seq<i64>, centers: Seq<CellCore>, cpos: ChunkPos, d: ResolvedDecorator,
    seed: u64, gbx: int, gbz: int) -> Seq<BlockEntry> {
    let rx = gbx * GROUP_SIZE + GROUP_SIZE_HALF;
    let rz = gbz * GROUP_SIZE + GROUP_SIZE_HALF;
    let climate = spec_blended_climate(centers,
        Vec2 { x: (rx * FP_ONE) as i64, z: (rz * FP_ONE) as i64 });
    let count = spec_count_for(d, climate);
    let stream = spec_seed_for(seed ^ (d.salt as u64), gbx, gbz);
    spec_group_draws(blocks, air, heights, cpos, d, gbx, gbz, Seq::empty(), stream, count).0
}

/// All 16 groups of one decorator, in row-major group order over the
/// chunk's footprint plus a one-group margin.
pub open spec fn spec_decorate_groups(blocks: Seq<BlockEntry>, air: BlockEntry,
    heights: Seq<i64>, centers: Seq<CellCore>, cpos: ChunkPos, d: ResolvedDecorator,
    seed: u64, g: int) -> Seq<BlockEntry>
    decreases 16 - g,
{
    if g < 0 || g >= 16 {
        blocks
    } else {
        let gbx = 2 * cpos.x - 1 + g / 4;
        let gbz = 2 * cpos.z - 1 + g % 4;
        let after = spec_decorate_group(blocks, air, heights, centers, cpos, d, seed, gbx,
            gbz);
        spec_decorate_groups(after, air, heights, centers, cpos, d, seed, g + 1)
    }
}

/// All decorators applied in registry order.
pub open spec fn spec_decorate_all(blocks: Seq<BlockEntry>, air: BlockEntry,
    heights: Seq<i64>, centers: Seq<CellCore>, cpos: ChunkPos,
    decos: Seq<ResolvedDecorator>, seed: u64, di: int) -> Seq<BlockEntry>
    decreases decos.len() - di,
{
    if di < 0 || di >= decos.len() {
        blocks
    } else {
        let after = spec_decorate_groups(blocks, air, heights, centers, cpos, decos[di],
            seed, 0);
        spec_decorate_all(after, air, heights, centers, cpos, decos, seed, di + 1)
    }
}


/// Whether a position list contains a position.
fn contains_pair(v: &Vec<(i64, i64)>, x: i64, z: i64) -> (r: bool)
    ensures
        r == v@.contains((x, z)),
{
    let mut i: usize = 0;
    let n: usize = v.len();
    while i < n
        invariant
            i <= n,
            forall|k: int| 0 <= k < i ==> v@[k] != (x, z),
        decreases n - i,
    {
        let p = v[i];
        if p.0 == x && p.1 == z {
            return true;
        }
        i = i + 1;
    }
    proof {
        assert(!v@.contains((x, z)));
    }
    false
}

/// All cached column heights are small block values.
pub open spec fn heights_ok(heights: Seq<i64>) -> bool {
    &&& heights.len() == CHUNK_DIM * CHUNK_DIM
    &&& forall|k: int| 0 <= k < heights.len() ==> -257 <= (#[trigger] heights[k]) <= 256
}

/// Place a vertical run of the decorator's block, skipping voxels outside
/// the chunk and voxels already occupied by anything but the fill block.
fn place_column(chunk: &mut ChunkBlocks, air: BlockEntry, x: i64, y: i64, z: i64, h: i64,
    blk: BlockEntry)
    requires
        old(chunk).wf(),
        0 <= x < CHUNK_DIM,
        0 <= z < CHUNK_DIM,
        -0x800_0000 <= y <= 0x800_0000,
        0 <= h <= 8,
    ensures
        final(chunk).wf(),
        final(chunk)@ == spec_place_column(old(chunk)@, air, x as int, y as int, z as int,
            h as int, blk),
{
    let mut k: i64 = 0;
    while k < h
        invariant
            0 <= k <= h,
            chunk.wf(),
            spec_place_column(chunk@, air, x as int, y as int + k, z as int, h as int - k,
                blk)
                == spec_place_column(old(chunk)@, air, x as int, y as int, z as int,
                    h as int, blk),
        decreases h - k,
    {
        let yy: i64 = y + k;
        let ghost pre = chunk@;
        if 0 <= yy && yy < CHUNK_DIM {
            let pos = crate::chunk::InChunkPos { x, y: yy, z };
            if chunk.get(pos) == air {
                chunk.put(pos, blk);
            }
        }
        proof {
            assert(spec_place_column(pre, air, x as int, yy as int, z as int,
                h as int - k, blk)
                == spec_place_column(chunk@, air, x as int, yy as int + 1, z as int,
                    h as int - k - 1, blk));
        }
        k = k + 1;
    }
}

/// Run one decorator over one group: sample a count from the blended
/// climate, draw positions from the group-random stream, deduplicate,
/// filter by radius, and place each retained feature.
#[verifier::rlimit(100)]
fn decorate_group(chunk: &mut ChunkBlocks, air: BlockEntry, heights: &Vec<i64>,
    centers: &Vec<Center>, cpos: ChunkPos, d: ResolvedDecorator, seed: u64, gbx: i64,
    gbz: i64, default: RegistryId, Ghost(nbiomes): Ghost<int>)
    requires
        old(chunk).wf(),
        heights_ok(heights@),
        crate::partition::centers_in_box(centers@, cpos),
        crate::blending::centers_noise_wf(centers@),
        crate::blending::centers_biomes_valid(spec_core(centers@), nbiomes),
        cpos.wf(),
        centers@.len() <= 32,
        1 <= default.raw <= nbiomes,
        d.wf(),
        2 * cpos.x - 1 <= gbx <= 2 * cpos.x + 2,
        2 * cpos.z - 1 <= gbz <= 2 * cpos.z + 2,
    ensures
        final(chunk).wf(),
        final(chunk)@ == spec_decorate_group(old(chunk)@, air, heights@, spec_core(centers@), cpos, d,
            seed, gbx as int, gbz as int),
{
    let rx: i64 = gbx * GROUP_SIZE + GROUP_SIZE_HALF;
    let rz: i64 = gbz * GROUP_SIZE + GROUP_SIZE_HALF;
    let ref_pt = Vec2 { x: rx * FP_ONE, z: rz * FP_ONE };
    proof {
        assert(crate::blending::point_in_box(ref_pt, cpos));
    }
    let blend = crate::blending::find_biomes_at_point(centers, ref_pt, default, Ghost(cpos),
        Ghost(nbiomes));
    let climate: NoiseValues = blend.1;
    let count: u32 = if d.elevation.contains(climate.elevation)
        && d.temperature.contains(climate.temperature)
        && d.moisture.contains(climate.moisture) {
        d.density
    } else {
        0
    };
    let mut stream = RandomStream::seed_for(seed ^ (d.salt as u64), gbx, gbz);
    let mut seen: Vec<(i64, i64)> = Vec::new();
    let mut c: u32 = count;
    while c > 0
        invariant
            chunk.wf(),
            c <= count,
            spec_group_draws(chunk@, air, heights@, cpos, d, gbx as int, gbz as int, seen@,
                stream, c as int)
                == spec_group_draws(old(chunk)@, air, heights@, cpos, d, gbx as int,
                    gbz as int, Seq::<(i64, i64)>::empty(),
                    spec_seed_for(seed ^ (d.salt as u64), gbx as int, gbz as int),
                    count as int),
        decreases c,
    {
        let ghost pre = chunk@;
        let ghost pre_seen = seen@;
        let ghost pre_stream = stream;
        let v1: u32 = stream.next_below(GROUP_SIZE as u32);
        let v2: u32 = stream.next_below(GROUP_SIZE as u32);
        let px: i64 = gbx * GROUP_SIZE + v1 as i64;
        let pz: i64 = gbz * GROUP_SIZE + v2 as i64;
        if !contains_pair(&seen, px, pz) {
            let lx: i64 = px - cpos.x * CHUNK_DIM;
            let lz: i64 = pz - cpos.z * CHUNK_DIM;
            proof {
                crate::fixed::lemma_abs_mul_le((px - rx) as int, (px - rx) as int, 8, 8);
                crate::fixed::lemma_abs_mul_le((pz - rz) as int, (pz - rz) as int, 8, 8);
                crate::fixed::lemma_abs_mul_le(d.radius as int, d.radius as int,
                    2 * GROUP_SIZE as int, 2 * GROUP_SIZE as int);
            }
            let in_radius: bool = (px - rx) * (px - rx) + (pz - rz) * (pz - rz)
                <= d.radius * d.radius;
            let in_chunk: bool = 0 <= lx && lx < CHUNK_DIM && 0 <= lz && lz < CHUNK_DIM;
            if in_radius && in_chunk {
                proof {
                    assert(-257 <= heights@[lx + lz * CHUNK_DIM] <= 256);
                }
                let ground: i64 = heights[(lx + lz * CHUNK_DIM) as usize];
                place_column(chunk, air, lx, ground + 1 - cpos.y * CHUNK_DIM, lz, d.height,
                    d.block);
            }
            seen.push((px, pz));
        }
        proof {
            assert(spec_group_draws(pre, air, heights@, cpos, d, gbx as int, gbz as int,
                pre_seen, pre_stream, c as int)
                == spec_group_draws(chunk@, air, heights@, cpos, d, gbx as int, gbz as int,
                    seen@, stream, c as int - 1));
        }
        c = c - 1;
    }
}

/// Place every decorator's features over the chunk's group neighbourhood.
pub fn place_decorators(chunk: &mut ChunkBlocks, air: BlockEntry, heights: &Vec<i64>,
    centers: &Vec<Center>, cpos: ChunkPos, decos: &Vec<ResolvedDecorator>, seed: u64,
    default: RegistryId, Ghost(nbiomes): Ghost<int>)
    requires
        old(chunk).wf(),
        heights_ok(heights@),
        crate::partition::centers_in_box(centers@, cpos),
        crate::blending::centers_noise_wf(centers@),
        crate::blending::centers_biomes_valid(spec_core(centers@), nbiomes),
        cpos.wf(),
        centers@.len() <= 32,
        1 <= default.raw <= nbiomes,
        forall|k: int| 0 <= k < decos@.len() ==> (#[trigger] decos@[k]).wf(),
    ensures
        final(chunk).wf(),
        final(chunk)@ == spec_decorate_all(old(chunk)@, air, heights@, spec_core(centers@), cpos,
            decos@, seed, 0),
{
    let mut di: usize = 0;
    let nd: usize = decos.len();
    while di < nd
        invariant
            di <= nd,
            nd == decos@.len(),
            chunk.wf(),
            spec_decorate_all(chunk@, air, heights@, spec_core(centers@), cpos, decos@, seed, di as int)
                == spec_decorate_all(old(chunk)@, air, heights@, spec_core(centers@), cpos, decos@,
                    seed, 0),
        decreases nd - di,
    {
        let d: ResolvedDecorator = decos[di];
        let ghost pre = chunk@;
        let mut g: usize = 0;
        while g < 16
            invariant
                g <= 16,
                chunk.wf(),
                d == decos@[di as int],
                di < nd == decos@.len(),
                spec_decorate_groups(chunk@, air, heights@, spec_core(centers@), cpos, d, seed, g as int)
                    == spec_decorate_groups(pre, air, heights@, spec_core(centers@), cpos, d, seed, 0),
            decreases 16 - g,
        {
            let gbx: i64 = 2 * cpos.x - 1 + (g / 4) as i64;
            let gbz: i64 = 2 * cpos.z - 1 + (g % 4) as i64;
            let ghost pre_g = chunk@;
            decorate_group(chunk, air, heights, centers, cpos, d, seed, gbx, gbz, default,
                Ghost(nbiomes));
            proof {
                assert(spec_decorate_groups(pre_g, air, heights@, spec_core(centers@), cpos, d, seed,
                    g as int)
                    == spec_decorate_groups(chunk@, air, heights@, spec_core(centers@), cpos, d, seed,
                        g as int + 1));
            }
            g = g + 1;
        }
        proof {
            assert(spec_decorate_all(pre, air, heights@, spec_core(centers@), cpos, decos@, seed,
                di as int)
                == spec_decorate_all(chunk@, air, heights@, spec_core(centers@), cpos, decos@, seed,
                    di as int + 1));
        }
        di = di + 1;
    }
}


} // verus!
