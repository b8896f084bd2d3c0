//! The multi-noise chunk generator.
//!
//! Ties the components together: partition building, biome assignment,
//! blending, column synthesis and decorator placement.  Given a world seed,
//! a chunk coordinate and the read-only registries, the generated chunk is
//! a pure function of those inputs, stated by the contracts below.

use vstd::prelude::*;

use crate::fixed::{FP_ONE, fdiv, spec_fp_mul, fp_mul, div_floor, Vec2, lemma_fdiv_bounds,
    lemma_abs_mul_le};
use crate::fbm_noise::{Fbm, NOISE_PARAM_MAX, DEFAULT_FREQUENCY, DEFAULT_LACUNARITY,
    DEFAULT_PERSISTENCE, spec_source_seed, spec_scale_factor, spec_fbm_value};
use crate::registry::{Registry, RegistryId, RegistryName, RegistryObject, spec_find_name};
use crate::voxeltypes::{BlockEntry, BlockDefinition, BlockRegistry};
use crate::biome::{NoiseValues, BiomeEntry, BiomeDefinition, BiomeRegistry, BlockRule,
    ResolvedBlockRule, rule_wf, spec_rule_block, rule_block, spec_first_matching,
    first_matching, biomes_wf, Noises, GeneratableBiome, spec_ranges_match};
use crate::partition::{Center, CellCore, spec_core, build_partition, spec_cells, Partition};
use crate::decorator::{DecoratorDefinition, DecoratorRegistry, ResolvedDecorator,
    decorators_wf, place_decorators, spec_decorate_all, heights_ok};
use crate::rng::{RandomStream, spec_next, spec_seed_for, spec_mix64, spec_lo32, mix64};
use crate::chunk::{Chunk, ChunkBlocks, ChunkPos, InChunkPos, CHUNK_DIM, CHUNK_VOLUME,
    spec_voxel_index};
use crate::blending::{find_biomes_at_point, elevation_noise, spec_blended,
    spec_blended_climate, spec_height_blocks, entries_ok, centers_biomes_valid,
    point_in_box};

verus! {

/// A reportable anomaly: no declared biome matched a cell's climate, and a
/// uniform-random fallback was used.  Unresolved gaps indicate incomplete
/// biome configuration rather than a generator defect.
#[derive(Clone, Copy, PartialEq, Eq, Structural, Debug)]
pub struct BiomeFallbackWarning {
    /// Site position of the cell, fixed point.
    pub position: Vec2,
    /// The climate triple that no biome matched.
    pub noise: NoiseValues,
    /// The biome picked at random instead.
    pub chosen: RegistryId,
}

/// A fatal generation error: a compiled-in name is expected to be
/// registered during setup, and a miss indicates broken registry
/// initialization.
#[derive(Clone, Debug, PartialEq, Eq)]
pub enum GenError {
    /// A block name was not found in the block registry.
    MissingBlock(RegistryName),
    /// A biome name was not found in the biome registry.
    MissingBiome(RegistryName),
    /// The biome registry holds no generatable biome.
    NoGeneratableBiomes,
}

/// The forced biome a cell's hydrology flags demand, if any: water and
/// ocean cells force the ocean biome, coast cells the beach biome.  The
/// outer option says whether the cell is forced at all, the inner one
/// whether the forced biome is registered.
pub open spec fn spec_forced_biome(c: CellCore, ocean: Option<RegistryId>,
    beach: Option<RegistryId>) -> Option<Option<RegistryId>> {
    if c.ocean || c.water {
        Some(ocean)
    } else if c.coast {
        Some(beach)
    } else {
        None
    }
}

/// What biome assignment decides for one unforced cell: the biome, the
/// follow-on random stream, and whether the random fallback was used.
pub open spec fn spec_assign_biome(generatable: Seq<GeneratableBiome>, c: CellCore,
    stream: RandomStream) -> (RegistryId, RandomStream, bool) {
    match spec_first_matching(generatable, c.noise, 0) {
        Some(id) => (id, stream, false),
        None => {
            let (v, s2) = spec_next(stream);
            (generatable[v as int % generatable.len() as int].id, s2, true)
        },
    }
}

/// Assign a biome to a cell.  The hydrology flags take precedence and
/// force a fixed biome: water and ocean cells get the ocean biome, coast
/// cells the beach biome, ignoring the cell's climate and leaving the
/// stream untouched; a flagged cell whose forced biome is not registered
/// is a fatal error.  Otherwise the first generatable biome whose ranges
/// all contain the cached climate triple wins; if none match, a
/// uniform-random fallback from the chunk's stream is used and reported.
/// Idempotent: an already assigned cell is returned unchanged.
pub fn assign_biome(centers: &mut Vec<Center>, index: usize,
    generatable: &Vec<GeneratableBiome>, ocean_biome: Option<RegistryId>,
    beach_biome: Option<RegistryId>, stream: &mut RandomStream)
    -> (r: Result<bool, GenError>)
    requires
        index < old(centers)@.len(),
        generatable@.len() >= 1,
        generatable@.len() < 0xFFFF_FFFF,
    ensures
        final(centers)@.len() == old(centers)@.len(),
        forall|k: int| 0 <= k < old(centers)@.len() && k != index
            ==> final(centers)@[k] == old(centers)@[k],
        old(centers)@[index as int].biome is Some ==> {
            &&& final(centers)@ == old(centers)@
            &&& *final(stream) == *old(stream)
            &&& r == Result::<bool, GenError>::Ok(false)
        },
        old(centers)@[index as int].biome is None ==> match spec_forced_biome(
            spec_core(old(centers)@)[index as int], ocean_biome, beach_biome) {
            Some(forced) => match forced {
                Some(id) => {
                    &&& final(centers)@[index as int] == (Center {
                        biome: Some(id),
                        ..old(centers)@[index as int]
                    })
                    &&& *final(stream) == *old(stream)
                    &&& r == Result::<bool, GenError>::Ok(false)
                },
                None => {
                    &&& final(centers)@ == old(centers)@
                    &&& *final(stream) == *old(stream)
                    &&& (r matches Err(e) && e matches GenError::MissingBiome(_))
                },
            },
            None => {
                let a = spec_assign_biome(generatable@,
                    spec_core(old(centers)@)[index as int], *old(stream));
                &&& final(centers)@[index as int] == (Center {
                    biome: Some(a.0),
                    ..old(centers)@[index as int]
                })
                &&& *final(stream) == a.1
                &&& r == Result::<bool, GenError>::Ok(a.2)
            },
        },
{
    if centers[index].biome.is_some() {
        return Ok(false);
    }
    if centers[index].ocean || centers[index].water {
        match ocean_biome {
            Some(id) => {
                let c: &mut Center = &mut centers[index];
                c.biome = Some(id);
                return Ok(false);
            },
            None => {
                return Err(GenError::MissingBiome(RegistryName::of("ocean")));
            },
        }
    }
    if centers[index].coast {
        match beach_biome {
            Some(id) => {
                let c: &mut Center = &mut centers[index];
                c.biome = Some(id);
                return Ok(false);
            },
            None => {
                return Err(GenError::MissingBiome(RegistryName::of("beach")));
            },
        }
    }
    let noise: NoiseValues = centers[index].noise;
    let picked: (RegistryId, bool) = match first_matching(generatable, noise) {
        Some(id) => (id, false),
        None => {
            let v: u32 = stream.next_below(generatable.len() as u32);
            (generatable[v as usize].id, true)
        },
    };
    let c: &mut Center = &mut centers[index];
    c.biome = Some(picked.0);
    Ok(picked.1)
}

/// Resolve a block name to its id, or fail with the missing name.
pub fn resolve_block(reg: &BlockRegistry, name: &RegistryName)
    -> (r: Result<RegistryId, GenError>)
    requires
        reg@.len() < 0xFFFF_FFFF,
    ensures
        match spec_find_name(reg@, name.key@, 0) {
            Some(j) => (r matches Ok(id) && id.raw == j + 1),
            None => (r matches Err(e) && (e matches GenError::MissingBlock(n)
                && n.key@ == name.key@)),
        },
{
    match reg.lookup_name_to_object(name.key.as_str()) {
        Some((id, _)) => Ok(id),
        None => Err(GenError::MissingBlock(RegistryName { key: name.key.as_str().to_owned() })),
    }
}


/// The id a name resolves to in a block list, if registered.
pub open spec fn spec_name_id(blocks: Seq<BlockDefinition>, name: Seq<char>)
    -> Option<RegistryId> {
    match spec_find_name(blocks, name, 0) {
        Some(j) => Some(RegistryId { raw: (j + 1) as u32 }),
        None => None,
    }
}

/// What a named rule resolves to, when every block name it uses is
/// registered.
pub open spec fn spec_resolve_rule(rule: BlockRule, blocks: Seq<BlockDefinition>)
    -> Option<ResolvedBlockRule> {
    match rule {
        BlockRule::LayeredSurface { surface, snow, snow_min_y, shallow, shallow_depth, deep } => {
            if spec_name_id(blocks, surface.key@) is Some
                && spec_name_id(blocks, snow.key@) is Some
                && spec_name_id(blocks, shallow.key@) is Some
                && spec_name_id(blocks, deep.key@) is Some {
                Some(ResolvedBlockRule::LayeredSurface {
                    surface: spec_name_id(blocks, surface.key@).unwrap(),
                    snow: spec_name_id(blocks, snow.key@).unwrap(),
                    snow_min_y,
                    shallow: spec_name_id(blocks, shallow.key@).unwrap(),
                    shallow_depth,
                    deep: spec_name_id(blocks, deep.key@).unwrap(),
                })
            } else {
                None
            }
        },
        BlockRule::Flooded { solid, fluid } => {
            if spec_name_id(blocks, solid.key@) is Some
                && spec_name_id(blocks, fluid.key@) is Some {
                Some(ResolvedBlockRule::Flooded {
                    solid: spec_name_id(blocks, solid.key@).unwrap(),
                    fluid: spec_name_id(blocks, fluid.key@).unwrap(),
                })
            } else {
                None
            }
        },
    }
}

/// Resolve a rule's block names against the block registry; fails with the
/// first missing name, exactly when one is missing.
pub fn resolve_rule(rule: &BlockRule, reg: &BlockRegistry)
    -> (r: Result<ResolvedBlockRule, GenError>)
    requires
        reg@.len() < 0xFFFF_FFFF,
        crate::biome::block_rule_bounds(*rule),
    ensures
        match spec_resolve_rule(*rule, reg@) {
            Some(res) => r == Result::<ResolvedBlockRule, GenError>::Ok(res),
            None => (r matches Err(e) && e matches GenError::MissingBlock(_)),
        },
        r matches Ok(res) ==> rule_wf(res),
{
    match rule {
        BlockRule::LayeredSurface { surface, snow, snow_min_y, shallow, shallow_depth, deep } => {
            let surface_id = resolve_block(reg, surface)?;
            let snow_id = resolve_block(reg, snow)?;
            let shallow_id = resolve_block(reg, shallow)?;
            let deep_id = resolve_block(reg, deep)?;
            Ok(ResolvedBlockRule::LayeredSurface {
                surface: surface_id,
                snow: snow_id,
                snow_min_y: *snow_min_y,
                shallow: shallow_id,
                shallow_depth: *shallow_depth,
                deep: deep_id,
            })
        },
        BlockRule::Flooded { solid, fluid } => {
            let solid_id = resolve_block(reg, solid)?;
            let fluid_id = resolve_block(reg, fluid)?;
            Ok(ResolvedBlockRule::Flooded { solid: solid_id, fluid: fluid_id })
        },
    }
}

/// What resolving every biome's rule yields, when all succeed.
pub open spec fn spec_resolve_rules(biomes: Seq<BiomeDefinition>, blocks: Seq<BlockDefinition>,
    i: int) -> Option<Seq<ResolvedBlockRule>>
    decreases biomes.len() - i,
{
    if i < 0 || i >= biomes.len() {
        Some(Seq::empty())
    } else {
        match (spec_resolve_rule(biomes[i].rule_source, blocks),
            spec_resolve_rules(biomes, blocks, i + 1)) {
            (Some(r), Some(rest)) => Some(seq![r].add(rest)),
            _ => None,
        }
    }
}

/// Resolve the block rules of every registered biome, in registry order;
/// fails exactly when some biome names an unregistered block.
pub fn resolve_rules(biome_registry: &BiomeRegistry, block_registry: &BlockRegistry)
    -> (r: Result<Vec<ResolvedBlockRule>, GenError>)
    requires
        biome_registry@.len() < 0xFFFF_FFFF,
        block_registry@.len() < 0xFFFF_FFFF,
        biomes_wf(biome_registry@),
    ensures
        match spec_resolve_rules(biome_registry@, block_registry@, 0) {
            Some(rules) => (r matches Ok(v) && v@ == rules),
            None => (r matches Err(e) && e matches GenError::MissingBlock(_)),
        },
        r matches Ok(v) ==> v@.len() == biome_registry@.len()
            && forall|k: int| 0 <= k < v@.len() ==> rule_wf(#[trigger] v@[k]),
{
    let mut rules: Vec<ResolvedBlockRule> = Vec::new();
    let mut i: usize = 0;
    let n: usize = biome_registry.len();
    while i < n
        invariant
            i <= n,
            n == biome_registry@.len() < 0xFFFF_FFFF,
            block_registry@.len() < 0xFFFF_FFFF,
            biomes_wf(biome_registry@),
            rules@.len() == i,
            forall|k: int| 0 <= k < i ==> rule_wf(#[trigger] rules@[k]),
            spec_resolve_rules(biome_registry@, block_registry@, 0) is Some
                <==> spec_resolve_rules(biome_registry@, block_registry@, i as int) is Some,
            spec_resolve_rules(biome_registry@, block_registry@, 0) matches Some(full)
                ==> (spec_resolve_rules(biome_registry@, block_registry@, i as int)
                    matches Some(rest) && full =~= rules@ + rest),
        decreases n - i,
    {
        let b: &BiomeDefinition = biome_registry.get_at(i);
        proof {
            assert(biome_registry@[i as int].wf());
        }
        let resolved = match resolve_rule(&b.rule_source, block_registry) {
            Ok(x) => x,
            Err(e) => {
                proof {
                    assert(spec_resolve_rules(biome_registry@, block_registry@, i as int)
                        is None);
                }
                return Err(e);
            },
        };
        rules.push(resolved);
        proof {
            let full0 = spec_resolve_rules(biome_registry@, block_registry@, 0);
            let at_i = spec_resolve_rules(biome_registry@, block_registry@, i as int);
            let at_i1 = spec_resolve_rules(biome_registry@, block_registry@, i + 1);
            if at_i1 is Some {
                assert(at_i matches Some(s) && s =~= seq![resolved].add(at_i1.unwrap()));
            } else {
                assert(at_i is None);
            }
        }
        i = i + 1;
    }
    proof {
        assert(spec_resolve_rules(biome_registry@, block_registry@, n as int)
            matches Some(s) && s =~= Seq::<ResolvedBlockRule>::empty());
        if spec_resolve_rules(biome_registry@, block_registry@, 0) is Some {
            let full = spec_resolve_rules(biome_registry@, block_registry@, 0).unwrap();
            assert(full =~= rules@ + Seq::<ResolvedBlockRule>::empty());
            assert(full =~= rules@);
        }
    }
    Ok(rules)
}



/// The placement score of a blended entry: its weight times its biome's
/// block influence.  Rules are conceptually applied in ascending score
/// order (ties broken by registry id), each non-empty result overwriting
/// the last, so the highest-scoring biome's decision wins for any voxel
/// both attempt to set.
pub open spec fn spec_block_score(e: BiomeEntry, b: BiomeDefinition) -> int {
    spec_fp_mul(e.weight as int, b.block_influence as int)
}

/// The best (score, id, block) seen so far after considering entries from
/// index `i` on: a non-empty rule result replaces the running best when its
/// (score, id) pair is lexicographically greater.
pub open spec fn spec_winner(entries: Seq<BiomeEntry>, biomes: Seq<BiomeDefinition>,
    rules: Seq<ResolvedBlockRule>, y: int, ground: int, sea: int, i: int,
    best: Option<(int, int, BlockEntry)>) -> Option<(int, int, BlockEntry)>
    decreases entries.len() - i,
{
    if i < 0 || i >= entries.len() {
        best
    } else {
        let e = entries[i];
        let idr = e.id.raw as int;
        let b = biomes[idr - 1];
        let nb = match spec_rule_block(rules[idr - 1], y, ground, sea) {
            Some(blk) => {
                let score = spec_block_score(e, b);
                match best {
                    None => Some((score, idr, blk)),
                    Some(cur) => if score > cur.0 || (score == cur.0 && idr > cur.1) {
                        Some((score, idr, blk))
                    } else {
                        best
                    },
                }
            },
            None => best,
        };
        spec_winner(entries, biomes, rules, y, ground, sea, i + 1, nb)
    }
}

/// What one voxel of a column holds before decorators: the block of the
/// winning rule, or nothing when every rule abstains.
pub open spec fn spec_column_block(entries: Seq<BiomeEntry>, biomes: Seq<BiomeDefinition>,
    rules: Seq<ResolvedBlockRule>, y: int, ground: int, sea: int) -> Option<BlockEntry> {
    match spec_winner(entries, biomes, rules, y, ground, sea, 0, None) {
        Some(w) => Some(w.2),
        None => None,
    }
}

/// Decide one voxel: evaluate each contributing biome's placement rule and
/// keep the result of the highest-influence biome.
pub fn column_block(entries: &Vec<BiomeEntry>, biome_registry: &BiomeRegistry,
    rules: &Vec<ResolvedBlockRule>, y: i64, ground: i64, sea: i64) -> (r: Option<BlockEntry>)
    requires
        crate::blending::entries_ok(entries@, biome_registry@.len() as int),
        biomes_wf(biome_registry@),
        rules@.len() == biome_registry@.len() < 0xFFFF_FFFF,
        forall|k: int| 0 <= k < rules@.len() ==> rule_wf(#[trigger] rules@[k]),
        -0x1_0000_0000 <= y <= 0x1_0000_0000,
        -0x1_0000_0000 <= ground <= 0x1_0000_0000,
        -0x1_0000_0000 <= sea <= 0x1_0000_0000,
    ensures
        r == spec_column_block(entries@, biome_registry@, rules@, y as int, ground as int,
            sea as int),
{
    let ghost biomes = biome_registry@;
    let mut best: Option<(i64, u32, BlockEntry)> = None;
    let ghost gbest: Option<(int, int, BlockEntry)> = None;
    let mut i: usize = 0;
    let n: usize = entries.len();
    proof {
        assert(gbest == spec_option_view(best));
    }
    while i < n
        invariant
            i <= n,
            n == entries@.len(),
            gbest == spec_option_view(best),
            spec_winner(entries@, biomes, rules@, y as int, ground as int, sea as int,
                i as int, gbest)
                == spec_winner(entries@, biomes, rules@, y as int, ground as int, sea as int,
                    0, None),
            biomes == biome_registry@,
        decreases n - i,
    {
        let e: BiomeEntry = entries[i];
        proof {
            assert(1 <= e.id.raw <= biomes.len());
            let b = biomes[e.id.raw - 1];
            assert(b.wf());
            lemma_abs_mul_le(e.weight as int, b.block_influence as int, 32 * FP_ONE as int,
                NOISE_PARAM_MAX as int);
            lemma_fdiv_bounds(e.weight as int * b.block_influence as int, FP_ONE as int,
                -32 * (FP_ONE as int) * NOISE_PARAM_MAX, 32 * (FP_ONE as int)
                    * NOISE_PARAM_MAX);
        }
        let idx: usize = (e.id.raw - 1) as usize;
        let b: &BiomeDefinition = biome_registry.get_at(idx);
        let blk: Option<BlockEntry> = rule_block(&rules[idx], y, ground, sea);
        let ghost pre = gbest;
        match blk {
            Some(block) => {
                let score: i64 = fp_mul(e.weight, b.block_influence);
                let replace: bool = match &best {
                    None => true,
                    Some(cur) => score > cur.0 || (score == cur.0 && e.id.raw > cur.1),
                };
                if replace {
                    best = Some((score, e.id.raw, block));
                    proof {
                        gbest = Some((score as int, e.id.raw as int, block));
                    }
                }
            },
            None => {},
        }
        proof {
            assert(spec_winner(entries@, biomes, rules@, y as int, ground as int, sea as int,
                i as int, pre)
                == spec_winner(entries@, biomes, rules@, y as int, ground as int, sea as int,
                    i + 1, gbest));
        }
        i = i + 1;
    }
    match best {
        Some(w) => Some(w.2),
        None => None,
    }
}

/// The specification-level shadow of an executable best candidate.
pub open spec fn spec_option_view(o: Option<(i64, u32, BlockEntry)>)
    -> Option<(int, int, BlockEntry)> {
    match o {
        Some(t) => Some((t.0 as int, t.1 as int, t.2)),
        None => None,
    }
}

/// Block-rule precedence: when two distinct entries both produce a block
/// for the same voxel and one strictly out-scores every other producing
/// entry, the stored block is that entry's.
pub proof fn lemma_block_rule_precedence(entries: Seq<BiomeEntry>,
    biomes: Seq<BiomeDefinition>, rules: Seq<ResolvedBlockRule>, y: int, ground: int,
    sea: int, hi: int)
    requires
        0 <= hi < entries.len(),
        forall|k: int| 0 <= k < entries.len()
            ==> 1 <= (#[trigger] entries[k]).id.raw <= biomes.len(),
        rules.len() == biomes.len(),
        spec_rule_block(rules[entries[hi].id.raw - 1], y, ground, sea) is Some,
        forall|k: int| 0 <= k < entries.len() && k != hi
            && spec_rule_block(rules[(#[trigger] entries[k]).id.raw - 1], y, ground, sea)
                is Some
            ==> spec_block_score(entries[k], biomes[entries[k].id.raw - 1])
                < spec_block_score(entries[hi], biomes[entries[hi].id.raw - 1]),
    ensures
        spec_column_block(entries, biomes, rules, y, ground, sea)
            == Some(spec_rule_block(rules[entries[hi].id.raw - 1], y, ground, sea).unwrap()),
{
    let target_score = spec_block_score(entries[hi], biomes[entries[hi].id.raw - 1]);
    let target_blk = spec_rule_block(rules[entries[hi].id.raw - 1], y, ground, sea).unwrap();
    lemma_winner_from(entries, biomes, rules, y, ground, sea, hi, 0, None, target_score,
        target_blk);
}

/// Helper induction for the precedence law: folding from index `i` with a
/// best candidate that is either absent or strictly below the champion's
/// score yields the champion's block.
proof fn lemma_winner_from(entries: Seq<BiomeEntry>, biomes: Seq<BiomeDefinition>,
    rules: Seq<ResolvedBlockRule>, y: int, ground: int, sea: int, hi: int, i: int,
    best: Option<(int, int, BlockEntry)>, target_score: int, target_blk: BlockEntry)
    requires
        0 <= i <= hi < entries.len(),
        forall|k: int| 0 <= k < entries.len()
            ==> 1 <= (#[trigger] entries[k]).id.raw <= biomes.len(),
        rules.len() == biomes.len(),
        spec_rule_block(rules[entries[hi].id.raw - 1], y, ground, sea) is Some,
        target_score == spec_block_score(entries[hi], biomes[entries[hi].id.raw - 1]),
        target_blk == spec_rule_block(rules[entries[hi].id.raw - 1], y, ground, sea).unwrap(),
        forall|k: int| 0 <= k < entries.len() && k != hi
            && spec_rule_block(rules[(#[trigger] entries[k]).id.raw - 1], y, ground, sea)
                is Some
            ==> spec_block_score(entries[k], biomes[entries[k].id.raw - 1]) < target_score,
        best matches Some(cur) ==> cur.0 < target_score,
    ensures
        spec_winner(entries, biomes, rules, y, ground, sea, i, best)
            matches Some(w) && w.2 == target_blk && w.0 == target_score,
    decreases entries.len() - i,
{
    let e = entries[i];
    let idr = e.id.raw as int;
    let nb = match spec_rule_block(rules[idr - 1], y, ground, sea) {
        Some(blk) => {
            let score = spec_block_score(e, biomes[idr - 1]);
            match best {
                None => Some((score, idr, blk)),
                Some(cur) => if score > cur.0 || (score == cur.0 && idr > cur.1) {
                    Some((score, idr, blk))
                } else {
                    best
                },
            }
        },
        None => best,
    };
    if i < hi {
        lemma_winner_from(entries, biomes, rules, y, ground, sea, hi, i + 1, nb,
            target_score, target_blk);
    } else {
        lemma_winner_tail(entries, biomes, rules, y, ground, sea, hi, i + 1, nb,
            target_score, target_blk);
    }
}

/// After the champion has been folded in, every later entry scores
/// strictly lower, so the champion's block survives to the end.
proof fn lemma_winner_tail(entries: Seq<BiomeEntry>, biomes: Seq<BiomeDefinition>,
    rules: Seq<ResolvedBlockRule>, y: int, ground: int, sea: int, hi: int, i: int,
    best: Option<(int, int, BlockEntry)>, target_score: int, target_blk: BlockEntry)
    requires
        0 <= hi < i,
        i <= entries.len(),
        forall|k: int| 0 <= k < entries.len()
            ==> 1 <= (#[trigger] entries[k]).id.raw <= biomes.len(),
        rules.len() == biomes.len(),
        target_score == spec_block_score(entries[hi], biomes[entries[hi].id.raw - 1]),
        forall|k: int| 0 <= k < entries.len() && k != hi
            && spec_rule_block(rules[(#[trigger] entries[k]).id.raw - 1], y, ground, sea)
                is Some
            ==> spec_block_score(entries[k], biomes[entries[k].id.raw - 1]) < target_score,
        best matches Some(cur) ==> cur.2 == target_blk && cur.0 == target_score,
        best is Some,
    ensures
        spec_winner(entries, biomes, rules, y, ground, sea, i, best)
            matches Some(w) && w.2 == target_blk && w.0 == target_score,
    decreases entries.len() - i,
{
    if i < entries.len() {
        let e = entries[i];
        let idr = e.id.raw as int;
        let nb = match spec_rule_block(rules[idr - 1], y, ground, sea) {
            Some(blk) => {
                let score = spec_block_score(e, biomes[idr - 1]);
                match best {
                    None => Some((score, idr, blk)),
                    Some(cur) => if score > cur.0 || (score == cur.0 && idr > cur.1) {
                        Some((score, idr, blk))
                    } else {
                        best
                    },
                }
            },
            None => best,
        };
        lemma_winner_tail(entries, biomes, rules, y, ground, sea, hi, i + 1, nb,
            target_score, target_blk);
    }
}



/// Every generatable pair carries a valid id for a registry of `n` biomes.
pub open spec fn generatable_ok(generatable: Seq<GeneratableBiome>, n: int)
    -> bool {
    forall|k: int| 0 <= k < generatable.len()
        ==> 1 <= (#[trigger] generatable[k]).id.raw <= n
}

/// A successful climate match yields an id from the generatable list.
proof fn lemma_first_matching_valid(generatable: Seq<GeneratableBiome>,
    noise: NoiseValues, i: int, id: RegistryId, n: int)
    requires
        spec_first_matching(generatable, noise, i) == Some(id),
        generatable_ok(generatable, n),
        0 <= i,
    ensures
        1 <= id.raw <= n,
    decreases generatable.len() - i,
{
    if i < generatable.len() && !spec_ranges_match(generatable[i], noise) {
        lemma_first_matching_valid(generatable, noise, i + 1, id, n);
    }
}

/// Biome assignment folded over every cell in order: hydrology flags force
/// the fixed ocean or beach biome, otherwise each unassigned cell gets its
/// first-match biome or a reported random fallback.  The final component
/// says whether assignment succeeded; it is false exactly when some flagged
/// cell's forced biome is not registered, and the fold stops there.
pub open spec fn spec_assign_fold(generatable: Seq<GeneratableBiome>,
    cells: Seq<CellCore>, ocean: Option<RegistryId>, beach: Option<RegistryId>,
    stream: RandomStream, i: int)
    -> (Seq<CellCore>, RandomStream, Seq<BiomeFallbackWarning>, bool)
    decreases cells.len() - i,
{
    if i < 0 || i >= cells.len() || generatable.len() == 0 {
        (cells, stream, Seq::empty(), true)
    } else {
        let c = cells[i];
        if c.biome is Some {
            spec_assign_fold(generatable, cells, ocean, beach, stream, i + 1)
        } else {
            match spec_forced_biome(c, ocean, beach) {
                Some(forced) => match forced {
                    Some(id) => spec_assign_fold(generatable,
                        cells.update(i, CellCore { biome: Some(id), ..c }), ocean, beach,
                        stream, i + 1),
                    None => (cells, stream, Seq::empty(), false),
                },
                None => {
                    let r = spec_assign_biome(generatable, c, stream);
                    let cells2 = cells.update(i, CellCore { biome: Some(r.0), ..c });
                    let rest = spec_assign_fold(generatable, cells2, ocean, beach, r.1,
                        i + 1);
                    if r.2 {
                        (rest.0, rest.1, seq![BiomeFallbackWarning {
                            position: c.point,
                            noise: c.noise,
                            chosen: r.0,
                        }].add(rest.2), rest.3)
                    } else {
                        rest
                    }
                },
            }
        }
    }
}

/// Run biome assignment over every cell of the partition, collecting the
/// fallback warnings; fails exactly when a flagged cell's forced biome is
/// not registered, and otherwise every cell ends up with a valid biome.
pub fn assign_biomes(centers: &mut Vec<Center>, generatable: &Vec<GeneratableBiome>,
    ocean_biome: Option<RegistryId>, beach_biome: Option<RegistryId>,
    stream: &mut RandomStream, Ghost(nbiomes): Ghost<int>)
    -> (r: Result<Vec<BiomeFallbackWarning>, GenError>)
    requires
        1 <= generatable@.len() < 0xFFFF_FFFF,
        generatable_ok(generatable@, nbiomes),
        ocean_biome matches Some(id) ==> 1 <= id.raw <= nbiomes,
        beach_biome matches Some(id) ==> 1 <= id.raw <= nbiomes,
    ensures
        ({
            let full = spec_assign_fold(generatable@, spec_core(old(centers)@), ocean_biome,
                beach_biome, *old(stream), 0);
            &&& (r is Ok <==> full.3)
            &&& (r matches Ok(warnings) ==> {
                &&& spec_core(final(centers)@) == full.0
                &&& *final(stream) == full.1
                &&& warnings@ == full.2
            })
            &&& (r matches Err(e) ==> e matches GenError::MissingBiome(_))
        }),
        final(centers)@.len() == old(centers)@.len(),
        forall|k: int| 0 <= k < old(centers)@.len() ==> {
            &&& (#[trigger] final(centers)@[k]).point == old(centers)@[k].point
            &&& final(centers)@[k].noise == old(centers)@[k].noise
        },
        r is Ok ==> forall|k: int| 0 <= k < old(centers)@.len()
            ==> (old(centers)@[k].biome is None
                || (old(centers)@[k].biome matches Some(id) && 1 <= id.raw <= nbiomes))
                ==> ((#[trigger] final(centers)@[k]).biome matches Some(id2)
                    && 1 <= id2.raw <= nbiomes),
{
    let ghost full = spec_assign_fold(generatable@, spec_core(old(centers)@), ocean_biome,
        beach_biome, *old(stream), 0);
    let mut warnings: Vec<BiomeFallbackWarning> = Vec::new();
    let mut i: usize = 0;
    let n: usize = centers.len();
    while i < n
        invariant
            i <= n,
            n == centers@.len() == old(centers)@.len(),
            1 <= generatable@.len() < 0xFFFF_FFFF,
            generatable_ok(generatable@, nbiomes),
            ocean_biome matches Some(id) ==> 1 <= id.raw <= nbiomes,
            beach_biome matches Some(id) ==> 1 <= id.raw <= nbiomes,
            ({
                let rest = spec_assign_fold(generatable@, spec_core(centers@), ocean_biome,
                    beach_biome, *stream, i as int);
                &&& rest.0 == full.0
                &&& rest.1 == full.1
                &&& warnings@ + rest.2 == full.2
                &&& rest.3 == full.3
            }),
            forall|k: int| 0 <= k < n ==> {
                &&& (#[trigger] centers@[k]).point == old(centers)@[k].point
                &&& centers@[k].noise == old(centers)@[k].noise
            },
            forall|k: int| 0 <= k < i
                ==> (old(centers)@[k].biome is None
                    || (old(centers)@[k].biome matches Some(id) && 1 <= id.raw <= nbiomes))
                    ==> ((#[trigger] centers@[k]).biome matches Some(id2)
                        && 1 <= id2.raw <= nbiomes),
            forall|k: int| i <= k < n
                ==> (#[trigger] centers@[k]).biome == old(centers)@[k].biome,
        decreases n - i,
    {
        let ghost pre_cells = spec_core(centers@);
        let ghost pre_stream = *stream;
        let ghost pre_warnings = warnings@;
        let already: bool = centers[i].biome.is_some();
        let ghost c = spec_core(centers@)[i as int];
        let step = assign_biome(centers, i, generatable, ocean_biome, beach_biome, stream);
        let warned: bool = match step {
            Ok(w) => w,
            Err(e) => {
                proof {
                    assert(spec_assign_fold(generatable@, pre_cells, ocean_biome,
                        beach_biome, pre_stream, i as int).3 == false);
                    assert(warnings@ + spec_assign_fold(generatable@, pre_cells,
                        ocean_biome, beach_biome, pre_stream, i as int).2 =~= warnings@);
                }
                return Err(e);
            },
        };
        if warned {
            let cc: &Center = &centers[i];
            let chosen: RegistryId = match cc.biome {
                Some(id) => id,
                None => RegistryId { raw: 1 },
            };
            warnings.push(BiomeFallbackWarning {
                position: cc.point,
                noise: cc.noise,
                chosen,
            });
        }
        proof {
            let a = spec_assign_biome(generatable@, c, pre_stream);
            if !already {
                match spec_forced_biome(c, ocean_biome, beach_biome) {
                    Some(forced) => {
                        assert(forced is Some);
                        assert(spec_core(centers@) =~= pre_cells.update(i as int,
                            CellCore { biome: Some(forced.unwrap()), ..c }));
                    },
                    None => {
                        assert(spec_core(centers@) =~= pre_cells.update(i as int,
                            CellCore { biome: Some(a.0), ..c }));
                        match spec_first_matching(generatable@, c.noise, 0) {
                            Some(id) => {
                                lemma_first_matching_valid(generatable@, c.noise, 0, id,
                                    nbiomes);
                            },
                            None => {},
                        }
                    },
                }
            } else {
                assert(spec_core(centers@) =~= pre_cells);
            }
            assert(spec_assign_fold(generatable@, pre_cells, ocean_biome, beach_biome,
                pre_stream, i as int)
                == ({
                    let rest = spec_assign_fold(generatable@, spec_core(centers@),
                        ocean_biome, beach_biome, *stream, i + 1);
                    if !already && spec_forced_biome(c, ocean_biome, beach_biome) is None
                        && a.2 {
                        (rest.0, rest.1, seq![BiomeFallbackWarning {
                            position: c.point,
                            noise: c.noise,
                            chosen: a.0,
                        }].add(rest.2), rest.3)
                    } else {
                        rest
                    }
                }));
            if !already && spec_forced_biome(c, ocean_biome, beach_biome) is None && a.2 {
                assert(warnings@ =~= pre_warnings.push(BiomeFallbackWarning {
                    position: c.point,
                    noise: c.noise,
                    chosen: a.0,
                }));
                let rest2 = spec_assign_fold(generatable@, spec_core(centers@),
                    ocean_biome, beach_biome, *stream, i + 1).2;
                assert(warnings@ + rest2 =~= pre_warnings + seq![BiomeFallbackWarning {
                    position: c.point,
                    noise: c.noise,
                    chosen: a.0,
                }].add(rest2));
            }
        }
        i = i + 1;
    }
    proof {
        assert(warnings@ + spec_assign_fold(generatable@, spec_core(centers@), ocean_biome,
            beach_biome, *stream, n as int).2 =~= warnings@);
    }
    Ok(warnings)
}

/// The generatable biomes: every registered biome with `can_generate`,
/// paired with its id, in registry order.
pub open spec fn spec_generatable(biomes: Seq<BiomeDefinition>, i: int)
    -> Seq<GeneratableBiome>
    decreases biomes.len() - i,
{
    if i < 0 || i >= biomes.len() {
        Seq::empty()
    } else {
        let rest = spec_generatable(biomes, i + 1);
        if biomes[i].can_generate {
            seq![GeneratableBiome {
                id: RegistryId { raw: (i + 1) as u32 },
                elevation: biomes[i].elevation,
                temperature: biomes[i].temperature,
                moisture: biomes[i].moisture,
            }].add(rest)
        } else {
            rest
        }
    }
}

/// There are at most as many generatable biomes as registered biomes.
pub proof fn lemma_generatable_len(biomes: Seq<BiomeDefinition>, i: int)
    requires
        0 <= i <= biomes.len(),
    ensures
        spec_generatable(biomes, i).len() <= biomes.len() - i,
    decreases biomes.len() - i,
{
    if i < biomes.len() {
        lemma_generatable_len(biomes, i + 1);
    }
}

/// Every generatable id is a valid id of the registry it came from.
pub proof fn lemma_generatable_ok(biomes: Seq<BiomeDefinition>, i: int)
    requires
        0 <= i <= biomes.len(),
        biomes.len() < 0xFFFF_FFFF,
    ensures
        generatable_ok(spec_generatable(biomes, i), biomes.len() as int),
    decreases biomes.len() - i,
{
    if i < biomes.len() {
        lemma_generatable_ok(biomes, i + 1);
    }
}

/// Collect the generatable biomes from the registry.
pub fn collect_generatable(biome_registry: &BiomeRegistry)
    -> (r: Vec<GeneratableBiome>)
    requires
        biome_registry@.len() < 0xFFFF_FFFF,
    ensures
        r@ == spec_generatable(biome_registry@, 0),
        generatable_ok(r@, biome_registry@.len() as int),
{
    let mut r: Vec<GeneratableBiome> = Vec::new();
    let mut i: usize = 0;
    let n: usize = biome_registry.len();
    while i < n
        invariant
            i <= n,
            n == biome_registry@.len() < 0xFFFF_FFFF,
            spec_generatable(biome_registry@, 0) =~= r@ + spec_generatable(biome_registry@,
                i as int),
            generatable_ok(r@, biome_registry@.len() as int),
        decreases n - i,
    {
        let b: &BiomeDefinition = biome_registry.get_at(i);
        let ghost pre = r@;
        if b.can_generate {
            let g = GeneratableBiome {
                id: RegistryId { raw: (i as u32) + 1 },
                elevation: b.elevation,
                temperature: b.temperature,
                moisture: b.moisture,
            };
            r.push(g);
            proof {
                assert(spec_generatable(biome_registry@, i as int)
                    =~= seq![g].add(spec_generatable(biome_registry@, i + 1)));
                assert(pre + seq![g].add(spec_generatable(biome_registry@, i + 1))
                    =~= r@ + spec_generatable(biome_registry@, i + 1));
            }
        } else {
            proof {
                assert(spec_generatable(biome_registry@, i as int)
                    == spec_generatable(biome_registry@, i + 1));
            }
        }
        i = i + 1;
    }
    proof {
        assert(spec_generatable(biome_registry@, n as int)
            =~= Seq::<GeneratableBiome>::empty());
        assert(r@ + Seq::<GeneratableBiome>::empty() =~= r@);
    }
    r
}

/// What resolving every decorator yields, when all block names resolve.
pub open spec fn spec_resolve_decorators(decos: Seq<DecoratorDefinition>,
    blocks: Seq<BlockDefinition>, i: int) -> Option<Seq<ResolvedDecorator>>
    decreases decos.len() - i,
{
    if i < 0 || i >= decos.len() {
        Some(Seq::empty())
    } else {
        let d = decos[i];
        match (spec_name_id(blocks, d.block.key@), spec_resolve_decorators(decos, blocks,
            i + 1)) {
            (Some(id), Some(rest)) => Some(seq![ResolvedDecorator {
                block: BlockEntry { id, metadata: 0 },
                elevation: d.elevation,
                temperature: d.temperature,
                moisture: d.moisture,
                density: d.density,
                height: d.height,
                radius: d.radius,
                salt: d.salt,
            }].add(rest)),
            _ => None,
        }
    }
}

/// Resolve every decorator's block name against the block registry.
pub fn resolve_decorators(decorator_registry: &DecoratorRegistry,
    block_registry: &BlockRegistry) -> (r: Result<Vec<ResolvedDecorator>, GenError>)
    requires
        decorator_registry@.len() < 0xFFFF_FFFF,
        block_registry@.len() < 0xFFFF_FFFF,
        decorators_wf(decorator_registry@),
    ensures
        match spec_resolve_decorators(decorator_registry@, block_registry@, 0) {
            Some(ds) => (r matches Ok(v) && v@ == ds),
            None => (r matches Err(e) && e matches GenError::MissingBlock(_)),
        },
        r matches Ok(v) ==> forall|k: int| 0 <= k < v@.len()
            ==> (#[trigger] v@[k]).wf(),
{
    let mut out: Vec<ResolvedDecorator> = Vec::new();
    let mut i: usize = 0;
    let n: usize = decorator_registry.len();
    while i < n
        invariant
            i <= n,
            n == decorator_registry@.len() < 0xFFFF_FFFF,
            block_registry@.len() < 0xFFFF_FFFF,
            decorators_wf(decorator_registry@),
            out@.len() == i,
            forall|k: int| 0 <= k < i ==> (#[trigger] out@[k]).wf(),
            spec_resolve_decorators(decorator_registry@, block_registry@, 0) is Some
                <==> spec_resolve_decorators(decorator_registry@, block_registry@, i as int)
                    is Some,
            spec_resolve_decorators(decorator_registry@, block_registry@, 0)
                matches Some(full)
                ==> (spec_resolve_decorators(decorator_registry@, block_registry@, i as int)
                    matches Some(rest) && full =~= out@ + rest),
        decreases n - i,
    {
        let d: &DecoratorDefinition = decorator_registry.get_at(i);
        proof {
            assert(decorator_registry@[i as int].wf());
        }
        let id = match resolve_block(block_registry, &d.block) {
            Ok(id) => id,
            Err(e) => {
                proof {
                    assert(spec_resolve_decorators(decorator_registry@, block_registry@,
                        i as int) is None);
                }
                return Err(e);
            },
        };
        let resolved = ResolvedDecorator {
            block: BlockEntry { id, metadata: 0 },
            elevation: d.elevation,
            temperature: d.temperature,
            moisture: d.moisture,
            density: d.density,
            height: d.height,
            radius: d.radius,
            salt: d.salt,
        };
        out.push(resolved);
        proof {
            let at_i = spec_resolve_decorators(decorator_registry@, block_registry@,
                i as int);
            let at_i1 = spec_resolve_decorators(decorator_registry@, block_registry@, i + 1);
            if at_i1 is Some {
                assert(at_i matches Some(s) && s =~= seq![resolved].add(at_i1.unwrap()));
            } else {
                assert(at_i is None);
            }
        }
        i = i + 1;
    }
    proof {
        assert(spec_resolve_decorators(decorator_registry@, block_registry@, n as int)
            matches Some(s) && s =~= Seq::<ResolvedDecorator>::empty());
        if spec_resolve_decorators(decorator_registry@, block_registry@, 0) is Some {
            let full = spec_resolve_decorators(decorator_registry@, block_registry@,
                0).unwrap();
            assert(full =~= out@ + Seq::<ResolvedDecorator>::empty());
            assert(full =~= out@);
        }
    }
    Ok(out)
}



/// A deterministic permutation of the world seed, used to seed one of the
/// generator's noise stacks.
pub open spec fn spec_derived_seed(seed: u64, k: u64) -> u32 {
    spec_lo32(spec_mix64(seed ^ vstd::wrapping::u64_specs::wrapping_mul(k,
        0x9E37_79B9_7F4A_7C15)))
}

/// Executable derived seed.
pub fn derived_seed(seed: u64, k: u64) -> (r: u32)
    ensures
        r == spec_derived_seed(seed, k),
{
    let bits: u64 = mix64(seed ^ k.wrapping_mul(0x9E37_79B9_7F4A_7C15));
    proof {
        assert(bits & 0xFFFF_FFFF <= 0xFFFF_FFFFu64) by (bit_vector);
    }
    (bits & 0xFFFF_FFFF) as u32
}

/// Build a four-octave strength list.
fn octaves4(a: i64, b: i64, c: i64, d: i64) -> (r: Vec<i64>)
    ensures
        r@ =~= seq![a, b, c, d],
{
    let mut v: Vec<i64> = Vec::new();
    v.push(a);
    v.push(b);
    v.push(c);
    v.push(d);
    v
}

/// A noise stack is pinned down to a seed and octave strengths: default
/// parameters, sources derived from the seed, and the matching
/// normalization factor.  Two stacks pinned to the same values compute the
/// same noise at every point, in every process.
pub open spec fn stack_pinned(f: Fbm, seed32: u32, octaves: Seq<i64>) -> bool {
    &&& f.wf()
    &&& f.seed == seed32
    &&& f.octaves@ == octaves
    &&& f.sources@.len() == octaves.len()
    &&& forall|k: int| 0 <= k < octaves.len()
        ==> (#[trigger] f.sources@[k]).seed == spec_source_seed(seed32, k)
    &&& f.frequency == DEFAULT_FREQUENCY
    &&& f.lacunarity == DEFAULT_LACUNARITY
    &&& f.persistence == DEFAULT_PERSISTENCE
}

/// The field views of two noise stacks agree.
pub open spec fn fbm_fields_eq(a: Fbm, b: Fbm) -> bool {
    &&& a.octaves@ == b.octaves@
    &&& a.sources@ == b.sources@
    &&& a.frequency == b.frequency
    &&& a.lacunarity == b.lacunarity
    &&& a.persistence == b.persistence
    &&& a.scale_factor == b.scale_factor
}

/// The field views of two noise configurations agree.
pub open spec fn noises_fields_eq(a: Noises, b: Noises) -> bool {
    &&& fbm_fields_eq(a.base_terrain_noise, b.base_terrain_noise)
    &&& fbm_fields_eq(a.elevation_noise, b.elevation_noise)
    &&& fbm_fields_eq(a.temperature_noise, b.temperature_noise)
    &&& fbm_fields_eq(a.moisture_noise, b.moisture_noise)
}

/// Two stacks pinned to the same seed and octaves have equal field views:
/// pinning determines the stack's behaviour across processes.
pub proof fn lemma_pinned_stacks_eq(a: Fbm, b: Fbm, seed32: u32, octaves: Seq<i64>)
    requires
        stack_pinned(a, seed32, octaves),
        stack_pinned(b, seed32, octaves),
    ensures
        fbm_fields_eq(a, b),
{
    assert(a.sources@ =~= b.sources@);
}

/// A noise stack's value at a point depends only on its field views.
pub proof fn lemma_stack_value_determined(a: Fbm, b: Fbm, x: int, z: int)
    requires
        fbm_fields_eq(a, b),
    ensures
        a.spec_value_at(x, z) == b.spec_value_at(x, z),
{
}

/// A climate sample depends only on the noise configuration's field views.
pub proof fn lemma_point_noise_determined(a: Noises, b: Noises, x: int, z: int)
    requires
        noises_fields_eq(a, b),
    ensures
        crate::biome::spec_point_noise(a, x, z) == crate::biome::spec_point_noise(b, x, z),
{
    reveal(crate::biome::spec_point_noise);
    let sx = fdiv(x, crate::biome::GLOBAL_BIOME_SCALE as int);
    let sz = fdiv(z, crate::biome::GLOBAL_BIOME_SCALE as int);
    lemma_stack_value_determined(a.elevation_noise, b.elevation_noise, sx, sz);
    lemma_stack_value_determined(a.temperature_noise, b.temperature_noise, sx, sz);
    lemma_stack_value_determined(a.moisture_noise, b.moisture_noise, sx, sz);
}

/// The partition cells of a chunk depend only on the jitter seed and the
/// noise configuration's field views: two generators agreeing on those
/// derive identical cells, in every process.
pub proof fn lemma_cells_determined(jseed: u32, a: Noises, b: Noises, cpos: ChunkPos)
    requires
        noises_fields_eq(a, b),
    ensures
        spec_cells(jseed, a, cpos) == spec_cells(jseed, b, cpos),
{
    reveal(crate::partition::spec_cells);
    let pts = crate::partition::spec_sites(jseed, cpos,
        crate::partition::SITE_COUNT as int).0;
    assert forall|k: int| 0 <= k < spec_cells(jseed, a, cpos).len() implies
        spec_cells(jseed, a, cpos)[k] == spec_cells(jseed, b, cpos)[k] by {
        lemma_point_noise_determined(a, b, pts[k].x as int, pts[k].z as int);
    }
    assert(spec_cells(jseed, a, cpos) =~= spec_cells(jseed, b, cpos));
}

/// Standard multi-noise world generator: a pure function of
/// (seed, chunk coordinate, registries) to a populated chunk.
#[derive(Clone, Debug)]
pub struct MultiNoiseGenerator {
    /// The read-only biome registry.
    pub biome_registry: BiomeRegistry,
    /// The read-only block registry.
    pub block_registry: BlockRegistry,
    /// The read-only decorator registry.
    pub decorator_registry: DecoratorRegistry,
    /// The world seed.
    pub seed: u64,
    /// The climate and terrain noise stacks.
    pub noises: Noises,
    /// Seed of the site-jitter noise.
    pub point_offset_seed: u32,
    /// The generatable biomes, precomputed from the registry.
    pub generatable_biomes: Vec<GeneratableBiome>,
}

impl MultiNoiseGenerator {
    /// The generator's configuration is consistent: well-formed noise
    /// stacks, well-formed registries, and a generatable list that matches
    /// the biome registry.
    pub open spec fn wf(&self) -> bool {
        &&& self.noises.wf()
        &&& biomes_wf(self.biome_registry@)
        &&& decorators_wf(self.decorator_registry@)
        &&& self.biome_registry@.len() < 0xFFFF_FFFF
        &&& self.block_registry@.len() < 0xFFFF_FFFF
        &&& self.decorator_registry@.len() < 0xFFFF_FFFF
        &&& self.generatable_biomes@ == spec_generatable(self.biome_registry@, 0)
    }

    /// Create a new generator over the given registries.  The noise stacks
    /// are seeded by deterministic permutations of the world seed.
    pub fn new(seed: u64, biome_registry: BiomeRegistry, block_registry: BlockRegistry,
        decorator_registry: DecoratorRegistry) -> (r: MultiNoiseGenerator)
        requires
            biomes_wf(biome_registry@),
            decorators_wf(decorator_registry@),
            biome_registry@.len() < 0xFFFF_FFFF,
            block_registry@.len() < 0xFFFF_FFFF,
            decorator_registry@.len() < 0xFFFF_FFFF,
        ensures
            r.wf(),
            r.seed == seed,
            r.biome_registry == biome_registry,
            r.block_registry == block_registry,
            r.decorator_registry == decorator_registry,
            r.point_offset_seed == spec_derived_seed(seed, 4),
            stack_pinned(r.noises.base_terrain_noise, spec_derived_seed(seed, 0),
                seq![(-4 * FP_ONE) as i64, FP_ONE, FP_ONE, 0i64]),
            stack_pinned(r.noises.elevation_noise, spec_derived_seed(seed, 1),
                seq![FP_ONE, (2 * FP_ONE) as i64, (2 * FP_ONE) as i64, FP_ONE]),
            stack_pinned(r.noises.temperature_noise, spec_derived_seed(seed, 2),
                seq![FP_ONE, (2 * FP_ONE) as i64, (2 * FP_ONE) as i64, FP_ONE]),
            stack_pinned(r.noises.moisture_noise, spec_derived_seed(seed, 3),
                seq![FP_ONE, (2 * FP_ONE) as i64, (2 * FP_ONE) as i64, FP_ONE]),
    {
        let generatable_biomes = collect_generatable(&biome_registry);
        let base = Fbm::new(derived_seed(seed, 0));
        let base_terrain_noise = base.set_octaves(octaves4(-4 * FP_ONE, FP_ONE, FP_ONE, 0));
        let elev = Fbm::new(derived_seed(seed, 1));
        let elevation_noise = elev.set_octaves(octaves4(FP_ONE, 2 * FP_ONE, 2 * FP_ONE,
            FP_ONE));
        let temp = Fbm::new(derived_seed(seed, 2));
        let temperature_noise = temp.set_octaves(octaves4(FP_ONE, 2 * FP_ONE, 2 * FP_ONE,
            FP_ONE));
        let moist = Fbm::new(derived_seed(seed, 3));
        let moisture_noise = moist.set_octaves(octaves4(FP_ONE, 2 * FP_ONE, 2 * FP_ONE,
            FP_ONE));
        MultiNoiseGenerator {
            biome_registry,
            block_registry,
            decorator_registry,
            seed,
            noises: Noises {
                base_terrain_noise,
                elevation_noise,
                temperature_noise,
                moisture_noise,
            },
            point_offset_seed: derived_seed(seed, 4),
            generatable_biomes,
        }
    }

    /// The chunk's own random stream, derived from the seed and the block
    /// position of the chunk's middle column.
    pub open spec fn spec_chunk_stream(&self, cpos: ChunkPos) -> RandomStream {
        spec_seed_for(self.seed, cpos.x * CHUNK_DIM + CHUNK_DIM / 2,
            cpos.z * CHUNK_DIM + CHUNK_DIM / 2)
    }

    /// The id the ocean biome name resolves to in this generator's biome
    /// registry, if registered; the forced biome of water and ocean cells.
    pub open spec fn spec_ocean_id(&self) -> Option<RegistryId> {
        match spec_find_name(self.biome_registry@, "ocean"@, 0) {
            Some(j) => Some(RegistryId { raw: (j + 1) as u32 }),
            None => None,
        }
    }

    /// The id the beach biome name resolves to, if registered; the forced
    /// biome of coast cells.
    pub open spec fn spec_beach_id(&self) -> Option<RegistryId> {
        match spec_find_name(self.biome_registry@, "beach"@, 0) {
            Some(j) => Some(RegistryId { raw: (j + 1) as u32 }),
            None => None,
        }
    }

    /// The partition cells of a chunk after biome assignment.
    #[verifier::opaque]
    pub open spec fn spec_assigned_cells(&self, cpos: ChunkPos) -> Seq<CellCore> {
        spec_assign_fold(self.generatable_biomes@,
            spec_cells(self.point_offset_seed, self.noises, cpos), self.spec_ocean_id(),
            self.spec_beach_id(), self.spec_chunk_stream(cpos), 0).0
    }

    /// The fallback warnings a chunk's generation reports.
    #[verifier::opaque]
    pub open spec fn spec_gen_warnings(&self, cpos: ChunkPos) -> Seq<BiomeFallbackWarning> {
        spec_assign_fold(self.generatable_biomes@,
            spec_cells(self.point_offset_seed, self.noises, cpos), self.spec_ocean_id(),
            self.spec_beach_id(), self.spec_chunk_stream(cpos), 0).2
    }

    /// Whether biome assignment succeeds for a chunk: false exactly when
    /// some flagged cell's forced biome is not registered.
    #[verifier::opaque]
    pub open spec fn spec_assign_ok(&self, cpos: ChunkPos) -> bool {
        spec_assign_fold(self.generatable_biomes@,
            spec_cells(self.point_offset_seed, self.noises, cpos), self.spec_ocean_id(),
            self.spec_beach_id(), self.spec_chunk_stream(cpos), 0).3
    }

    /// The absolute position of a chunk column, fixed point.
    pub open spec fn spec_column_point(cpos: ChunkPos, col: int) -> Vec2 {
        Vec2 {
            x: ((cpos.x * CHUNK_DIM + col % (CHUNK_DIM as int)) * FP_ONE) as i64,
            z: ((cpos.z * CHUNK_DIM + col / (CHUNK_DIM as int)) * FP_ONE) as i64,
        }
    }

    /// The blended biome list of a chunk column.
    #[verifier::opaque]
    pub open spec fn spec_column_entries(&self, cpos: ChunkPos, col: int, void: RegistryId)
        -> Seq<BiomeEntry> {
        spec_blended(self.spec_assigned_cells(cpos), Self::spec_column_point(cpos, col), void)
    }

    /// The ground height of a chunk column, in blocks.
    #[verifier::opaque]
    pub open spec fn spec_column_ground(&self, cpos: ChunkPos, col: int, void: RegistryId)
        -> int {
        let p = Self::spec_column_point(cpos, col);
        spec_height_blocks(self.spec_column_entries(cpos, col, void), self.biome_registry@,
            self.noises.base_terrain_noise, fdiv(p.x as int, crate::biome::GLOBAL_BIOME_SCALE
                as int), fdiv(p.z as int, crate::biome::GLOBAL_BIOME_SCALE as int))
    }

    /// The per-column ground heights of a chunk.
    #[verifier::opaque]
    pub open spec fn spec_heights(&self, cpos: ChunkPos, void: RegistryId) -> Seq<i64> {
        Seq::new((CHUNK_DIM * CHUNK_DIM) as nat, |col: int|
            self.spec_column_ground(cpos, col, void) as i64)
    }

    /// What one voxel holds before decorators.
    #[verifier::opaque]
    pub open spec fn spec_fill_voxel(&self, cpos: ChunkPos, rules: Seq<ResolvedBlockRule>,
        void: RegistryId, air: BlockEntry, v: int) -> BlockEntry {
        let y = v / (CHUNK_DIM as int * CHUNK_DIM as int);
        let col = v % (CHUNK_DIM as int * CHUNK_DIM as int);
        let gy = cpos.y * CHUNK_DIM + y;
        match spec_column_block(self.spec_column_entries(cpos, col, void),
            self.biome_registry@, rules, gy, self.spec_column_ground(cpos, col, void), 0) {
            Some(b) => b,
            None => air,
        }
    }

    /// The chunk contents after column synthesis, before decorators.
    #[verifier::opaque]
    pub open spec fn spec_filled(&self, cpos: ChunkPos, rules: Seq<ResolvedBlockRule>,
        void: RegistryId, air: BlockEntry) -> Seq<BlockEntry> {
        Seq::new(CHUNK_VOLUME as nat, |v: int| self.spec_fill_voxel(cpos, rules, void, air,
            v))
    }

    /// The full chunk contents: columns synthesized, then decorators
    /// placed.
    #[verifier::opaque]
    pub open spec fn spec_generate_blocks(&self, cpos: ChunkPos,
        rules: Seq<ResolvedBlockRule>, decos: Seq<ResolvedDecorator>, void: RegistryId,
        air: BlockEntry) -> Seq<BlockEntry> {
        spec_decorate_all(self.spec_filled(cpos, rules, void, air), air,
            self.spec_heights(cpos, void), self.spec_assigned_cells(cpos), cpos, decos,
            self.seed, 0)
    }
}

/// The registry name of the void biome, the blending default.
pub fn void_biome_name() -> (r: RegistryName)
    ensures
        r.key@ == "void"@,
{
    RegistryName::of("void")
}



impl MultiNoiseGenerator {
    /// Synthesize the blended biome list and ground height of every column.
    fn synthesize_columns(&self, centers: &Vec<Center>, position: ChunkPos,
        void_id: RegistryId) -> (r: (Vec<Vec<BiomeEntry>>, Vec<i64>))
        requires
            self.wf(),
            position.wf(),
            crate::partition::centers_in_box(centers@, position),
            crate::blending::centers_noise_wf(centers@),
            centers_biomes_valid(spec_core(centers@), self.biome_registry@.len() as int),
            centers@.len() <= 32,
            spec_core(centers@) == self.spec_assigned_cells(position),
            1 <= void_id.raw <= self.biome_registry@.len(),
        ensures
            r.0@.len() == CHUNK_DIM * CHUNK_DIM,
            r.1@.len() == CHUNK_DIM * CHUNK_DIM,
            forall|col: int| 0 <= col < CHUNK_DIM * CHUNK_DIM ==> {
                &&& (#[trigger] r.0@[col])@ == self.spec_column_entries(position, col,
                    void_id)
                &&& entries_ok(r.0@[col]@, self.biome_registry@.len() as int)
                &&& r.1@[col] == self.spec_column_ground(position, col, void_id)
                &&& -257 <= r.1@[col] <= 256
            },
            heights_ok(r.1@),
    {
        proof {
            reveal(MultiNoiseGenerator::spec_column_entries);
            reveal(MultiNoiseGenerator::spec_column_ground);
        }
        let mut blended: Vec<Vec<BiomeEntry>> = Vec::new();
        let mut heights: Vec<i64> = Vec::new();
        let mut col: usize = 0;
        let ghost nbiomes: int = self.biome_registry@.len() as int;
        while col < (CHUNK_DIM * CHUNK_DIM) as usize
            invariant
                col <= CHUNK_DIM * CHUNK_DIM,
                blended@.len() == col,
                heights@.len() == col,
                forall|c: int| 0 <= c < col ==> {
                    &&& (#[trigger] blended@[c])@ == self.spec_column_entries(position, c,
                        void_id)
                    &&& entries_ok(blended@[c]@, self.biome_registry@.len() as int)
                    &&& heights@[c] == self.spec_column_ground(position, c, void_id)
                    &&& -257 <= heights@[c] <= 256
                },
            decreases CHUNK_DIM * CHUNK_DIM - col,
        {
            let cx: i64 = (col % (CHUNK_DIM as usize)) as i64;
            let cz: i64 = (col / (CHUNK_DIM as usize)) as i64;
            let point = Vec2 {
                x: (position.x * CHUNK_DIM + cx) * FP_ONE,
                z: (position.z * CHUNK_DIM + cz) * FP_ONE,
            };
            proof {
                assert(point == Self::spec_column_point(position, col as int));
                assert(point_in_box(point, position));
            }
            let blend = find_biomes_at_point(centers, point, void_id, Ghost(position),
                Ghost(nbiomes));
            let sp = Vec2 {
                x: div_floor(point.x, crate::biome::GLOBAL_BIOME_SCALE),
                z: div_floor(point.z, crate::biome::GLOBAL_BIOME_SCALE),
            };
            proof {
                lemma_fdiv_bounds(point.x as int, crate::biome::GLOBAL_BIOME_SCALE as int,
                    -0x100_0000_0000, 0x100_0000_0000);
                lemma_fdiv_bounds(point.z as int, crate::biome::GLOBAL_BIOME_SCALE as int,
                    -0x100_0000_0000, 0x100_0000_0000);
            }
            let h: i64 = elevation_noise(&blend.0, &self.biome_registry, &self.noises, sp);
            blended.push(blend.0);
            heights.push(h);
            col = col + 1;
        }
        proof {
            assert forall|k: int| 0 <= k < heights@.len() implies -257
                <= (#[trigger] heights@[k]) <= 256 by {
                assert(blended@[k]@ == self.spec_column_entries(position, k, void_id));
            }
        }
        (blended, heights)
    }

    /// Generate a single chunk's blocks for the world: build the local
    /// partition, assign biomes, synthesize every column, and place the
    /// decorators.  The resulting chunk is a pure function of the
    /// generator's configuration and the chunk coordinate; it carries the
    /// opaque payload through unchanged, together with any biome-coverage
    /// warnings.  Fails exactly when a compiled-in registry name is missing
    /// or no biome can generate.
    #[verifier::rlimit(100)]
    pub fn generate_chunk<ED>(&self, position: ChunkPos, extra_data: ED)
        -> (r: Result<(Chunk<ED>, Vec<BiomeFallbackWarning>), GenError>)
        requires
            self.wf(),
            position.wf(),
        ensures
            ({
                let air = spec_name_id(self.block_registry@, "empty"@);
                let voidj = spec_find_name(self.biome_registry@, "void"@, 0);
                let rules = spec_resolve_rules(self.biome_registry@, self.block_registry@,
                    0);
                let decos = spec_resolve_decorators(self.decorator_registry@,
                    self.block_registry@, 0);
                &&& (r is Ok <==> air is Some && voidj is Some
                    && self.generatable_biomes@.len() >= 1 && rules is Some
                    && decos is Some && self.spec_assign_ok(position))
                &&& (r matches Ok(out) ==> {
                    &&& out.0.blocks.wf()
                    &&& out.0.blocks@ == self.spec_generate_blocks(position, rules.unwrap(),
                        decos.unwrap(), RegistryId { raw: (voidj.unwrap() + 1) as u32 },
                        BlockEntry { id: air.unwrap(), metadata: 0 })
                    &&& out.0.extra_data == extra_data
                    &&& out.1@ == self.spec_gen_warnings(position)
                })
            }),
    {
        let ghost nbiomes: int = self.biome_registry@.len() as int;
        // Resolve the compiled-in names; a miss aborts generation.
        let air_id: RegistryId = match self.block_registry.lookup_name_to_object("empty") {
            Some((id, _)) => id,
            None => {
                return Err(GenError::MissingBlock(RegistryName::of("empty")));
            },
        };
        let void_id: RegistryId = match self.biome_registry.lookup_name_to_object("void") {
            Some((id, _)) => id,
            None => {
                return Err(GenError::MissingBiome(RegistryName::of("void")));
            },
        };
        proof {
            lemma_generatable_len(self.biome_registry@, 0);
            lemma_generatable_ok(self.biome_registry@, 0);
            match spec_find_name(self.biome_registry@, "void"@, 0) {
                Some(j) => {
                    crate::registry::lemma_find_name_props(self.biome_registry@, "void"@, 0,
                        j);
                },
                None => {},
            }
        }
        if self.generatable_biomes.len() == 0 {
            return Err(GenError::NoGeneratableBiomes);
        }
        let rules: Vec<ResolvedBlockRule> = resolve_rules(&self.biome_registry,
            &self.block_registry)?;
        let decos: Vec<ResolvedDecorator> = resolve_decorators(&self.decorator_registry,
            &self.block_registry)?;
        let air_entry = BlockEntry { id: air_id, metadata: 0 };

        // Resolve the hydrology-forced biomes on demand: they are needed
        // only for flagged cells, whose assignment fails without them.
        let ocean_biome: Option<RegistryId> = match self.biome_registry
            .lookup_name_to_object("ocean") {
            Some((id, _)) => Some(id),
            None => None,
        };
        let beach_biome: Option<RegistryId> = match self.biome_registry
            .lookup_name_to_object("beach") {
            Some((id, _)) => Some(id),
            None => None,
        };
        proof {
            assert(ocean_biome == self.spec_ocean_id());
            assert(beach_biome == self.spec_beach_id());
            match spec_find_name(self.biome_registry@, "ocean"@, 0) {
                Some(j) => {
                    crate::registry::lemma_find_name_props(self.biome_registry@, "ocean"@,
                        0, j);
                },
                None => {},
            }
            match spec_find_name(self.biome_registry@, "beach"@, 0) {
                Some(j) => {
                    crate::registry::lemma_find_name_props(self.biome_registry@, "beach"@,
                        0, j);
                },
                None => {},
            }
        }

        // Build the local partition and assign biomes to its cells.
        let partition: Partition = build_partition(self.point_offset_seed, &self.noises,
            position);
        let mut centers: Vec<Center> = partition.centers;
        let mut stream: RandomStream = RandomStream::seed_for(self.seed,
            position.x * CHUNK_DIM + CHUNK_DIM / 2, position.z * CHUNK_DIM + CHUNK_DIM / 2);
        proof {
            assert(stream == self.spec_chunk_stream(position));
        }
        let warnings: Vec<BiomeFallbackWarning> = match assign_biomes(&mut centers,
            &self.generatable_biomes, ocean_biome, beach_biome, &mut stream,
            Ghost(nbiomes)) {
            Ok(w) => w,
            Err(e) => {
                proof {
                    reveal(MultiNoiseGenerator::spec_assign_ok);
                }
                return Err(e);
            },
        };
        proof {
            reveal(MultiNoiseGenerator::spec_assigned_cells);
            reveal(MultiNoiseGenerator::spec_gen_warnings);
            reveal(MultiNoiseGenerator::spec_assign_ok);
            assert(spec_core(centers@) == self.spec_assigned_cells(position));
            assert(crate::partition::centers_in_box(centers@, position));
            assert(crate::blending::centers_noise_wf(centers@));
            assert forall|k: int| 0 <= k < spec_core(centers@).len() implies
                ((#[trigger] spec_core(centers@)[k]).biome matches Some(id)
                    ==> 1 <= id.raw <= nbiomes) by {
                assert(centers@[k].biome == spec_core(centers@)[k].biome);
            }
            assert(centers_biomes_valid(spec_core(centers@), nbiomes));
        }

        // Synthesize the columns, then fill the voxels and place the
        // decorators.
        let chunk: Chunk<ED> = self.fill_and_decorate(&centers, position, void_id,
            air_entry, &rules, &decos, extra_data, Ghost(nbiomes));
        Ok((chunk, warnings))
    }
}



impl MultiNoiseGenerator {
    /// Fill every voxel from the winning block rules, then place the
    /// decorators; yields the final chunk contents.
    #[verifier::rlimit(100)]
    #[verifier::loop_isolation(true)]
    fn fill_and_decorate<ED>(&self, centers: &Vec<Center>, position: ChunkPos,
        void_id: RegistryId, air_entry: BlockEntry, rules: &Vec<ResolvedBlockRule>,
        decos: &Vec<ResolvedDecorator>, extra_data: ED, Ghost(nbiomes): Ghost<int>)
        -> (chunk: Chunk<ED>)
        requires
            self.wf(),
            position.wf(),
            crate::partition::centers_in_box(centers@, position),
            crate::blending::centers_noise_wf(centers@),
            centers_biomes_valid(spec_core(centers@), nbiomes),
            centers@.len() <= 32,
            spec_core(centers@) == self.spec_assigned_cells(position),
            1 <= void_id.raw <= self.biome_registry@.len(),
            nbiomes == self.biome_registry@.len(),
            rules@.len() == self.biome_registry@.len(),
            forall|k: int| 0 <= k < rules@.len() ==> rule_wf(#[trigger] rules@[k]),
            forall|k: int| 0 <= k < decos@.len() ==> (#[trigger] decos@[k]).wf(),
        ensures
            chunk.blocks.wf(),
            chunk.blocks@ == self.spec_generate_blocks(position, rules@, decos@, void_id,
                air_entry),
            chunk.extra_data == extra_data,
    {
        let cols = self.synthesize_columns(centers, position, void_id);
        let blended: Vec<Vec<BiomeEntry>> = cols.0;
        let heights: Vec<i64> = cols.1;
        let mut chunk: Chunk<ED> = Chunk::new(air_entry, extra_data);
        let mut v: usize = 0;
        while v < CHUNK_VOLUME
            invariant
                v <= CHUNK_VOLUME,
                chunk.blocks.wf(),
                chunk.extra_data == extra_data,
                self.wf(),
                position.wf(),
                nbiomes == self.biome_registry@.len(),
                blended@.len() == CHUNK_DIM * CHUNK_DIM,
                heights@.len() == CHUNK_DIM * CHUNK_DIM,
                forall|col: int| 0 <= col < CHUNK_DIM * CHUNK_DIM ==> {
                    &&& (#[trigger] blended@[col])@ == self.spec_column_entries(position,
                        col, void_id)
                    &&& entries_ok(blended@[col]@, self.biome_registry@.len() as int)
                    &&& heights@[col] == self.spec_column_ground(position, col, void_id)
                    &&& -257 <= heights@[col] <= 256
                },
                rules@.len() == self.biome_registry@.len(),
                forall|k: int| 0 <= k < rules@.len() ==> rule_wf(#[trigger] rules@[k]),
                forall|w: int| 0 <= w < v ==> chunk.blocks@[w] == self.spec_fill_voxel(
                    position, rules@, void_id, air_entry, w),
                forall|w: int| v <= w < CHUNK_VOLUME ==> chunk.blocks@[w] == air_entry,
            decreases CHUNK_VOLUME - v,
        {
            let y: usize = v / ((CHUNK_DIM * CHUNK_DIM) as usize);
            let rem: usize = v % ((CHUNK_DIM * CHUNK_DIM) as usize);
            let x: usize = rem % (CHUNK_DIM as usize);
            let z: usize = rem / (CHUNK_DIM as usize);
            let gy: i64 = position.y * CHUNK_DIM + y as i64;
            let ground: i64 = heights[rem];
            let blk: Option<BlockEntry> = column_block(&blended[rem], &self.biome_registry,
                rules, gy, ground, 0);
            proof {
                vstd::arithmetic::div_mod::lemma_fundamental_div_mod(v as int,
                    (CHUNK_DIM * CHUNK_DIM) as int);
                vstd::arithmetic::div_mod::lemma_fundamental_div_mod(rem as int,
                    CHUNK_DIM as int);
            }
            match blk {
                Some(b) => {
                    let pos = InChunkPos { x: x as i64, y: y as i64, z: z as i64 };
                    proof {
                        assert(spec_voxel_index(pos) == v);
                    }
                    chunk.blocks.put(pos, b);
                },
                None => {},
            }
            proof {
                reveal(MultiNoiseGenerator::spec_fill_voxel);
                assert(chunk.blocks@[v as int] == self.spec_fill_voxel(position, rules@,
                    void_id, air_entry, v as int));
            }
            v = v + 1;
        }
        proof {
            reveal(MultiNoiseGenerator::spec_filled);
            assert(chunk.blocks@ =~= self.spec_filled(position, rules@, void_id, air_entry));
        }
        place_decorators(&mut chunk.blocks, air_entry, &heights, centers, position, decos,
            self.seed, void_id, Ghost(nbiomes));
        proof {
            reveal(MultiNoiseGenerator::spec_heights);
            reveal(MultiNoiseGenerator::spec_generate_blocks);
            assert forall|col: int| 0 <= col < CHUNK_DIM * CHUNK_DIM implies
                heights@[col] == self.spec_heights(position, void_id)[col] by {
                assert(blended@[col]@ == self.spec_column_entries(position, col, void_id));
            }
            assert(heights@ =~= self.spec_heights(position, void_id));
            assert(chunk.blocks@ == self.spec_generate_blocks(position, rules@, decos@,
                void_id, air_entry));
        }
        chunk
    }
}



/// Determinism: for a fixed generator configuration and chunk coordinate,
/// the generated contents and warnings are unique — any two chunks that
/// satisfy the generation contract for the same inputs are byte-identical,
/// across repeated invocations and across process runs.
pub proof fn lemma_generate_chunk_deterministic(g: MultiNoiseGenerator, cpos: ChunkPos,
    rules: Seq<ResolvedBlockRule>, decos: Seq<ResolvedDecorator>, void: RegistryId,
    air: BlockEntry, blocks1: Seq<BlockEntry>, warnings1: Seq<BiomeFallbackWarning>,
    blocks2: Seq<BlockEntry>, warnings2: Seq<BiomeFallbackWarning>)
    requires
        blocks1 == g.spec_generate_blocks(cpos, rules, decos, void, air),
        warnings1 == g.spec_gen_warnings(cpos),
        blocks2 == g.spec_generate_blocks(cpos, rules, decos, void, air),
        warnings2 == g.spec_gen_warnings(cpos),
    ensures
        blocks1 == blocks2,
        warnings1 == warnings2,
{
}

/// Seam continuity at shared sites: two chunks that both cover a grid site
/// independently derive bit-identical site positions and climate samples
/// for it, because jitter and climate sampling are pure functions of the
/// absolute site position, never of chunk-local state.
pub proof fn lemma_shared_site_agreement(jseed: u32, noises: Noises, c1: ChunkPos,
    c2: ChunkPos, g1: int, g2: int)
    requires
        0 <= g1 < 25,
        0 <= g2 < 25,
        c1.x + g1 / 5 == c2.x + g2 / 5,
        c1.z + g1 % 5 == c2.z + g2 % 5,
    ensures
        crate::partition::spec_site_point(jseed, c1, g1)
            == crate::partition::spec_site_point(jseed, c2, g2),
        ({
            let p = crate::partition::spec_site_point(jseed, c1, g1);
            crate::biome::spec_point_noise(noises, p.x as int, p.z as int)
                == crate::biome::spec_point_noise(noises,
                    crate::partition::spec_site_point(jseed, c2, g2).x as int,
                    crate::partition::spec_site_point(jseed, c2, g2).z as int)
        }),
{
    assert(crate::partition::spec_site_base(c1.x as int, g1 / 5)
        == crate::partition::spec_site_base(c2.x as int, g2 / 5));
    assert(crate::partition::spec_site_base(c1.z as int, g1 % 5)
        == crate::partition::spec_site_base(c2.z as int, g2 % 5));
}

/// Seam continuity for features: a decorator group that two chunks both
/// cover draws from the same group-random stream in either chunk, because
/// the stream is seeded purely by (world seed, decorator salt, absolute
/// group coordinate).
pub proof fn lemma_shared_group_stream(seed: u64, salt: u32, c1: ChunkPos, c2: ChunkPos,
    g1: int, g2: int)
    requires
        0 <= g1 < 16,
        0 <= g2 < 16,
        2 * c1.x - 1 + g1 / 4 == 2 * c2.x - 1 + g2 / 4,
        2 * c1.z - 1 + g1 % 4 == 2 * c2.z - 1 + g2 % 4,
    ensures
        spec_seed_for(seed ^ (salt as u64), 2 * c1.x - 1 + g1 / 4, 2 * c1.z - 1 + g1 % 4)
            == spec_seed_for(seed ^ (salt as u64), 2 * c2.x - 1 + g2 / 4,
                2 * c2.z - 1 + g2 % 4),
{
}

/// Biome range coverage: assignment of unflagged cells is total.  For any
/// climate triple, either some generatable biome matches and the first
/// match is chosen without consuming randomness, or none matches and the
/// random fallback picks some generatable biome and reports the gap —
/// generation always completes with a biome.  Flagged cells never reach
/// this path: `spec_forced_biome` fixes their biome first.
pub proof fn lemma_biome_assignment_total(generatable: Seq<GeneratableBiome>, c: CellCore,
    stream: RandomStream)
    requires
        generatable.len() >= 1,
    ensures
        ({
            let r = spec_assign_biome(generatable, c, stream);
            &&& (spec_first_matching(generatable, c.noise, 0) matches Some(id)
                ==> r == (id, stream, false))
            &&& (spec_first_matching(generatable, c.noise, 0) is None ==> {
                &&& exists|k: int| 0 <= k < generatable.len()
                    && r.0 == (#[trigger] generatable[k]).id
                &&& r.2
            })
        }),
{
    if spec_first_matching(generatable, c.noise, 0) is None {
        let (v, s2) = spec_next(stream);
        let k = v as int % generatable.len() as int;
        vstd::arithmetic::div_mod::lemma_mod_bound(v as int, generatable.len() as int);
        assert(0 <= k < generatable.len()
            && spec_assign_biome(generatable, c, stream).0 == generatable[k].id);
    }
}



impl MultiNoiseGenerator {
    /// Sample the blended biome list and interpolated climate at one
    /// column near a chunk, identified by local block offsets from the
    /// chunk origin (up to one chunk outside its footprint).  Builds the
    /// chunk's partition and biome assignment exactly as generation does,
    /// so the result agrees with what `generate_chunk` uses.
    #[verifier::rlimit(100)]
    pub fn sample_blended(&self, position: ChunkPos, lx: i64, lz: i64)
        -> (r: Result<(Vec<BiomeEntry>, NoiseValues), GenError>)
        requires
            self.wf(),
            position.wf(),
            -CHUNK_DIM <= lx < 2 * CHUNK_DIM,
            -CHUNK_DIM <= lz < 2 * CHUNK_DIM,
        ensures
            ({
                let voidj = spec_find_name(self.biome_registry@, "void"@, 0);
                let point = Vec2 {
                    x: ((position.x * CHUNK_DIM + lx) * FP_ONE) as i64,
                    z: ((position.z * CHUNK_DIM + lz) * FP_ONE) as i64,
                };
                &&& (r is Ok <==> voidj is Some && self.generatable_biomes@.len() >= 1
                    && self.spec_assign_ok(position))
                &&& (r matches Ok(out) ==> {
                    &&& out.0@ == spec_blended(self.spec_assigned_cells(position), point,
                        RegistryId { raw: (voidj.unwrap() + 1) as u32 })
                    &&& out.1 == spec_blended_climate(self.spec_assigned_cells(position),
                        point)
                    &&& out.1.wf()
                })
            }),
    {
        let ghost nbiomes: int = self.biome_registry@.len() as int;
        let void_id: RegistryId = match self.biome_registry.lookup_name_to_object("void") {
            Some((id, _)) => id,
            None => {
                return Err(GenError::MissingBiome(RegistryName::of("void")));
            },
        };
        proof {
            lemma_generatable_len(self.biome_registry@, 0);
            lemma_generatable_ok(self.biome_registry@, 0);
            match spec_find_name(self.biome_registry@, "void"@, 0) {
                Some(j) => {
                    crate::registry::lemma_find_name_props(self.biome_registry@, "void"@, 0,
                        j);
                },
                None => {},
            }
        }
        if self.generatable_biomes.len() == 0 {
            return Err(GenError::NoGeneratableBiomes);
        }
        let ocean_biome: Option<RegistryId> = match self.biome_registry
            .lookup_name_to_object("ocean") {
            Some((id, _)) => Some(id),
            None => None,
        };
        let beach_biome: Option<RegistryId> = match self.biome_registry
            .lookup_name_to_object("beach") {
            Some((id, _)) => Some(id),
            None => None,
        };
        proof {
            assert(ocean_biome == self.spec_ocean_id());
            assert(beach_biome == self.spec_beach_id());
            match spec_find_name(self.biome_registry@, "ocean"@, 0) {
                Some(j) => {
                    crate::registry::lemma_find_name_props(self.biome_registry@, "ocean"@,
                        0, j);
                },
                None => {},
            }
            match spec_find_name(self.biome_registry@, "beach"@, 0) {
                Some(j) => {
                    crate::registry::lemma_find_name_props(self.biome_registry@, "beach"@,
                        0, j);
                },
                None => {},
            }
        }
        let partition: Partition = build_partition(self.point_offset_seed, &self.noises,
            position);
        let mut centers: Vec<Center> = partition.centers;
        let mut stream: RandomStream = RandomStream::seed_for(self.seed,
            position.x * CHUNK_DIM + CHUNK_DIM / 2, position.z * CHUNK_DIM + CHUNK_DIM / 2);
        let _ = match assign_biomes(&mut centers, &self.generatable_biomes, ocean_biome,
            beach_biome, &mut stream, Ghost(nbiomes)) {
            Ok(w) => w,
            Err(e) => {
                proof {
                    reveal(MultiNoiseGenerator::spec_assign_ok);
                }
                return Err(e);
            },
        };
        proof {
            reveal(MultiNoiseGenerator::spec_assigned_cells);
            reveal(MultiNoiseGenerator::spec_assign_ok);
            assert(spec_core(centers@) == self.spec_assigned_cells(position));
            assert forall|k: int| 0 <= k < spec_core(centers@).len() implies
                ((#[trigger] spec_core(centers@)[k]).biome matches Some(id)
                    ==> 1 <= id.raw <= nbiomes) by {
                assert(centers@[k].biome == spec_core(centers@)[k].biome);
            }
        }
        let point = Vec2 {
            x: (position.x * CHUNK_DIM + lx) * FP_ONE,
            z: (position.z * CHUNK_DIM + lz) * FP_ONE,
        };
        proof {
            assert(point_in_box(point, position));
        }
        let blend = find_biomes_at_point(&centers, point, void_id, Ghost(position),
            Ghost(nbiomes));
        Ok(blend)
    }
}



/// The generation-relevant field views of two biome definitions agree:
/// climate ranges, influences, surface expression and resolved-rule shape
/// do not depend on which process built them.
pub open spec fn biome_view_eq(a: BiomeDefinition, b: BiomeDefinition) -> bool {
    &&& a.spec_name() == b.spec_name()
    &&& a.elevation == b.elevation
    &&& a.temperature == b.temperature
    &&& a.moisture == b.moisture
    &&& a.blend_influence == b.blend_influence
    &&& a.block_influence == b.block_influence
    &&& a.can_generate == b.can_generate
    &&& a.surface_noise.input_scale == b.surface_noise.input_scale
    &&& a.surface_noise.terms@ == b.surface_noise.terms@
    &&& a.surface_noise.out_scale == b.surface_noise.out_scale
    &&& a.surface_noise.out_offset == b.surface_noise.out_offset
}

/// Two biome registries agree in every generation-relevant field view.
pub open spec fn biomes_view_eq(a: Seq<BiomeDefinition>, b: Seq<BiomeDefinition>) -> bool {
    &&& a.len() == b.len()
    &&& forall|k: int| 0 <= k < a.len() ==> biome_view_eq(#[trigger] a[k], b[k])
}

/// Name search agrees between registries whose name views agree.
proof fn lemma_find_name_view_eq(a: Seq<BiomeDefinition>, b: Seq<BiomeDefinition>,
    name: Seq<char>, i: int)
    requires
        biomes_view_eq(a, b),
    ensures
        spec_find_name(a, name, i) == spec_find_name(b, name, i),
    decreases a.len() - i,
{
    if 0 <= i < a.len() {
        lemma_find_name_view_eq(a, b, name, i + 1);
    }
}

/// A surface fold depends only on the terms and the base stack's views.
proof fn lemma_surface_acc_eq(n1: Fbm, n2: Fbm, terms: Seq<crate::biome::SurfaceTerm>,
    px: int, pz: int, i: int, acc: int)
    requires
        fbm_fields_eq(n1, n2),
    ensures
        crate::biome::spec_surface_acc(n1, terms, px, pz, i, acc)
            == crate::biome::spec_surface_acc(n2, terms, px, pz, i, acc),
    decreases terms.len() - i,
{
    if 0 <= i < terms.len() {
        let sx = crate::fixed::spec_clamp(spec_fp_mul(px, terms[i].freq as int),
            -crate::fbm_noise::POINT_SAT as int, crate::fbm_noise::POINT_SAT as int);
        let sz = crate::fixed::spec_clamp(spec_fp_mul(pz, terms[i].freq as int),
            -crate::fbm_noise::POINT_SAT as int, crate::fbm_noise::POINT_SAT as int);
        lemma_stack_value_determined(n1, n2, sx, sz);
        let raw = n1.spec_value_at(sx, sz);
        let folded = if terms[i].ridged { crate::biome::spec_ridge(raw) } else { raw };
        lemma_surface_acc_eq(n1, n2, terms, px, pz, i + 1,
            acc + spec_fp_mul(folded, terms[i].amp as int));
    }
}

/// A surface sample depends only on the expression's and base stack's
/// views.
proof fn lemma_surface_value_eq(a: BiomeDefinition, b: BiomeDefinition, n1: Fbm, n2: Fbm,
    x: int, z: int)
    requires
        biome_view_eq(a, b),
        fbm_fields_eq(n1, n2),
    ensures
        crate::biome::spec_surface_value(a.surface_noise, n1, x, z)
            == crate::biome::spec_surface_value(b.surface_noise, n2, x, z),
{
    let px = crate::fixed::spec_clamp(spec_fp_mul(x, a.surface_noise.input_scale as int),
        -crate::fbm_noise::POINT_SAT as int, crate::fbm_noise::POINT_SAT as int);
    let pz = crate::fixed::spec_clamp(spec_fp_mul(z, a.surface_noise.input_scale as int),
        -crate::fbm_noise::POINT_SAT as int, crate::fbm_noise::POINT_SAT as int);
    lemma_surface_acc_eq(n1, n2, a.surface_noise.terms@, px, pz, 0, 0);
}

/// The height folds depend only on field views.
proof fn lemma_height_folds_eq(entries: Seq<BiomeEntry>, b1: Seq<BiomeDefinition>,
    b2: Seq<BiomeDefinition>, n1: Fbm, n2: Fbm, x: int, z: int, i: int)
    requires
        biomes_view_eq(b1, b2),
        fbm_fields_eq(n1, n2),
        forall|k: int| 0 <= k < entries.len()
            ==> 1 <= (#[trigger] entries[k]).id.raw <= b1.len(),
    ensures
        crate::blending::spec_height_num(entries, b1, n1, x, z, i)
            == crate::blending::spec_height_num(entries, b2, n2, x, z, i),
        crate::blending::spec_height_total(entries, b1, i)
            == crate::blending::spec_height_total(entries, b2, i),
    decreases entries.len() - i,
{
    if 0 <= i < entries.len() {
        lemma_surface_value_eq(b1[entries[i].id.raw - 1], b2[entries[i].id.raw - 1], n1, n2,
            x, z);
        lemma_height_folds_eq(entries, b1, b2, n1, n2, x, z, i + 1);
    }
}

/// The winning-rule fold depends only on field views.
proof fn lemma_winner_eq(entries: Seq<BiomeEntry>, b1: Seq<BiomeDefinition>,
    b2: Seq<BiomeDefinition>, rules: Seq<ResolvedBlockRule>, y: int, ground: int, sea: int,
    i: int, best: Option<(int, int, BlockEntry)>)
    requires
        biomes_view_eq(b1, b2),
        forall|k: int| 0 <= k < entries.len()
            ==> 1 <= (#[trigger] entries[k]).id.raw <= b1.len(),
    ensures
        spec_winner(entries, b1, rules, y, ground, sea, i, best)
            == spec_winner(entries, b2, rules, y, ground, sea, i, best),
    decreases entries.len() - i,
{
    if 0 <= i < entries.len() {
        let e = entries[i];
        let idr = e.id.raw as int;
        let nb = match spec_rule_block(rules[idr - 1], y, ground, sea) {
            Some(blk) => {
                let score = spec_block_score(e, b1[idr - 1]);
                match best {
                    None => Some((score, idr, blk)),
                    Some(cur) => if score > cur.0 || (score == cur.0 && idr > cur.1) {
                        Some((score, idr, blk))
                    } else {
                        best
                    },
                }
            },
            None => best,
        };
        lemma_winner_eq(entries, b1, b2, rules, y, ground, sea, i + 1, nb);
    }
}

/// Cross-process determinism: two generators that agree on the seed, the
/// derived noise views, the generatable list and the registries' field
/// views generate identical chunk contents and warnings for every chunk
/// coordinate.  `MultiNoiseGenerator::new` pins all of these to
/// (seed, registry contents), so repeated runs agree byte for byte.
pub proof fn lemma_generate_chunk_cross_process(g1: MultiNoiseGenerator,
    g2: MultiNoiseGenerator, cpos: ChunkPos, rules: Seq<ResolvedBlockRule>,
    decos: Seq<ResolvedDecorator>, void: RegistryId, air: BlockEntry)
    requires
        g1.seed == g2.seed,
        g1.point_offset_seed == g2.point_offset_seed,
        noises_fields_eq(g1.noises, g2.noises),
        g1.generatable_biomes@ == g2.generatable_biomes@,
        biomes_view_eq(g1.biome_registry@, g2.biome_registry@),
        forall|col: int| 0 <= col < CHUNK_DIM * CHUNK_DIM ==> entries_ok(
            #[trigger] g1.spec_column_entries(cpos, col, void),
            g1.biome_registry@.len() as int),
    ensures
        g1.spec_generate_blocks(cpos, rules, decos, void, air)
            == g2.spec_generate_blocks(cpos, rules, decos, void, air),
        g1.spec_gen_warnings(cpos) == g2.spec_gen_warnings(cpos),
{
    reveal(MultiNoiseGenerator::spec_assigned_cells);
    reveal(MultiNoiseGenerator::spec_gen_warnings);
    reveal(MultiNoiseGenerator::spec_generate_blocks);
    reveal(MultiNoiseGenerator::spec_filled);
    reveal(MultiNoiseGenerator::spec_fill_voxel);
    reveal(MultiNoiseGenerator::spec_heights);
    reveal(MultiNoiseGenerator::spec_column_entries);
    reveal(MultiNoiseGenerator::spec_column_ground);
    lemma_cells_determined(g1.point_offset_seed, g1.noises, g2.noises, cpos);
    lemma_find_name_view_eq(g1.biome_registry@, g2.biome_registry@, "ocean"@, 0);
    lemma_find_name_view_eq(g1.biome_registry@, g2.biome_registry@, "beach"@, 0);
    assert(g1.spec_ocean_id() == g2.spec_ocean_id());
    assert(g1.spec_beach_id() == g2.spec_beach_id());
    assert(g1.spec_assigned_cells(cpos) == g2.spec_assigned_cells(cpos));
    assert(g1.spec_gen_warnings(cpos) == g2.spec_gen_warnings(cpos));
    assert forall|col: int| 0 <= col < CHUNK_DIM * CHUNK_DIM implies
        g1.spec_column_ground(cpos, col, void) == g2.spec_column_ground(cpos, col, void)
            && #[trigger] g1.spec_column_entries(cpos, col, void)
                == g2.spec_column_entries(cpos, col, void) by {
        let p = MultiNoiseGenerator::spec_column_point(cpos, col);
        let entries = g1.spec_column_entries(cpos, col, void);
        lemma_height_folds_eq(entries, g1.biome_registry@, g2.biome_registry@,
            g1.noises.base_terrain_noise, g2.noises.base_terrain_noise,
            fdiv(p.x as int, crate::biome::GLOBAL_BIOME_SCALE as int),
            fdiv(p.z as int, crate::biome::GLOBAL_BIOME_SCALE as int), 0);
    }
    assert(g1.spec_heights(cpos, void) =~= g2.spec_heights(cpos, void));
    assert forall|v: int| 0 <= v < CHUNK_VOLUME implies
        #[trigger] g1.spec_fill_voxel(cpos, rules, void, air, v)
            == g2.spec_fill_voxel(cpos, rules, void, air, v) by {
        let col = v % (CHUNK_DIM as int * CHUNK_DIM as int);
        let y = v / (CHUNK_DIM as int * CHUNK_DIM as int);
        vstd::arithmetic::div_mod::lemma_mod_bound(v, CHUNK_DIM as int * CHUNK_DIM as int);
        let entries = g1.spec_column_entries(cpos, col, void);
        lemma_winner_eq(entries, g1.biome_registry@, g2.biome_registry@, rules,
            cpos.y * CHUNK_DIM + y, g1.spec_column_ground(cpos, col, void), 0, 0, None);
    }
    assert(g1.spec_filled(cpos, rules, void, air) =~= g2.spec_filled(cpos, rules, void,
        air));
}


} // verus!
