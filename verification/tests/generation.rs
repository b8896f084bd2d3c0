//! End-to-end generation: determinism, seams, coverage, blending and
//! block-rule precedence.

use worldgen::biome::{BiomeDefinition, BiomeEntry, BiomeRegistry, BlockRule, ClimateRange,
    ResolvedBlockRule, SurfaceNoise, SurfaceTerm};
use worldgen::biomes::setup_basic_biomes;
use worldgen::blocks::setup_basic_blocks;
use worldgen::chunk::ChunkPos;
use worldgen::decorator::{DecoratorDefinition, DecoratorRegistry};
use worldgen::biome::{GeneratableBiome, NoiseValues};
use worldgen::fixed::Vec2;
use worldgen::generator::{assign_biome, column_block, GenError, MultiNoiseGenerator};
use worldgen::partition::Center;
use worldgen::rng::RandomStream;
use worldgen::registry::{Registry, RegistryId, RegistryName};
use worldgen::voxeltypes::{BlockRegistry, ColorRgba};

fn basic_blocks() -> BlockRegistry {
    let mut reg = Registry::new();
    setup_basic_blocks(&mut reg).unwrap();
    reg
}

fn flat_surface() -> SurfaceNoise {
    SurfaceNoise {
        input_scale: 1024,
        terms: vec![SurfaceTerm { freq: 1024, amp: 768, ridged: false }],
        out_scale: 2048,
        out_offset: 1024,
    }
}

fn soil_rule() -> BlockRule {
    BlockRule::LayeredSurface {
        surface: RegistryName::of("grass"),
        snow: RegistryName::of("snowy_grass"),
        snow_min_y: 80,
        shallow: RegistryName::of("dirt"),
        shallow_depth: 5,
        deep: RegistryName::of("stone"),
    }
}

fn flooded_rule() -> BlockRule {
    BlockRule::Flooded {
        solid: RegistryName::of("stone"),
        fluid: RegistryName::of("water"),
    }
}

fn biome(name: &str, elevation: ClimateRange, moisture: ClimateRange, rule: BlockRule,
    can_generate: bool) -> BiomeDefinition {
    BiomeDefinition {
        name: RegistryName::of(name),
        representative_color: ColorRgba::new(9, 9, 9, 255),
        elevation,
        temperature: ClimateRange::full(),
        moisture,
        rule_source: rule,
        surface_noise: flat_surface(),
        blend_influence: 1024,
        block_influence: 1024,
        can_generate,
    }
}

fn void_biome() -> BiomeDefinition {
    biome("void", ClimateRange::full(), ClimateRange::full(), flooded_rule(), false)
}

fn tree_decorators() -> DecoratorRegistry {
    let mut reg = Registry::new();
    reg.push_object(DecoratorDefinition {
        name: RegistryName::of("tree"),
        block: RegistryName::of("stone"),
        elevation: ClimateRange::full(),
        temperature: ClimateRange::full(),
        moisture: ClimateRange::full(),
        density: 3,
        height: 3,
        radius: 12,
        salt: 7,
    })
    .unwrap();
    reg
}

fn standard_generator(seed: u64) -> MultiNoiseGenerator {
    let mut biomes: BiomeRegistry = Registry::new();
    setup_basic_biomes(&mut biomes).unwrap();
    MultiNoiseGenerator::new(seed, biomes, basic_blocks(), tree_decorators())
}

#[test]
fn generation_is_deterministic() {
    let g1 = standard_generator(1234);
    let g2 = standard_generator(1234);
    let pos = ChunkPos::new(3, 0, -2);
    let (c1, w1) = g1.generate_chunk(pos, ()).unwrap();
    let (c2, w2) = g1.generate_chunk(pos, ()).unwrap();
    let (c3, w3) = g2.generate_chunk(pos, ()).unwrap();
    assert_eq!(c1.blocks.blocks, c2.blocks.blocks);
    assert_eq!(c1.blocks.blocks, c3.blocks.blocks);
    assert_eq!(w1, w2);
    assert_eq!(w1, w3);
}

#[test]
fn different_seeds_differ() {
    let g1 = standard_generator(1);
    let g2 = standard_generator(2);
    let pos = ChunkPos::new(0, 0, 0);
    let (c1, _) = g1.generate_chunk(pos, ()).unwrap();
    let (c2, _) = g2.generate_chunk(pos, ()).unwrap();
    assert_ne!(c1.blocks.blocks, c2.blocks.blocks);
}

#[test]
fn extra_data_is_passed_through() {
    let g = standard_generator(5);
    let (c, _) = g.generate_chunk(ChunkPos::new(0, 0, 0), 0xC0FFEEu64).unwrap();
    assert_eq!(c.extra_data, 0xC0FFEE);
}

#[test]
fn seam_climate_is_continuous_across_chunks() {
    // Two adjacent chunks independently rebuild their partitions; the
    // blended climate at a shared boundary column must agree up to the
    // small error from differing candidate margins.
    let g = standard_generator(77);
    let eps: i64 = 256;
    for lz in [0i64, 7, 16, 25, 31] {
        let (_, a) = g.sample_blended(ChunkPos::new(0, 0, 0), 32, lz).unwrap();
        let (_, b) = g.sample_blended(ChunkPos::new(1, 0, 0), 0, lz).unwrap();
        assert!((a.elevation - b.elevation).abs() <= eps, "elevation seam {} vs {}",
            a.elevation, b.elevation);
        assert!((a.temperature - b.temperature).abs() <= eps);
        assert!((a.moisture - b.moisture).abs() <= eps);
    }
}

#[test]
fn coverage_gap_reaches_fallback_without_panicking() {
    // A registry whose only generatable biome matches no climate at all:
    // every cell takes the reported random-fallback path, and generation
    // still completes.
    let mut biomes: BiomeRegistry = Registry::new();
    biomes.push_object(void_biome()).unwrap();
    biomes
        .push_object(biome("nowhere", ClimateRange::between(0, 0), ClimateRange::full(),
            soil_rule(), true))
        .unwrap();
    let g = MultiNoiseGenerator::new(9, biomes, basic_blocks(), Registry::new());
    let (_, warnings) = g.generate_chunk(ChunkPos::new(0, 0, 0), ()).unwrap();
    assert!(!warnings.is_empty());
    for w in &warnings {
        assert_eq!(w.chosen.raw, 2);
    }
}

#[test]
fn full_coverage_produces_no_warnings() {
    let mut biomes: BiomeRegistry = Registry::new();
    biomes.push_object(void_biome()).unwrap();
    biomes
        .push_object(biome("everywhere", ClimateRange::full(), ClimateRange::full(),
            soil_rule(), true))
        .unwrap();
    let g = MultiNoiseGenerator::new(11, biomes, basic_blocks(), Registry::new());
    let (_, warnings) = g.generate_chunk(ChunkPos::new(0, 0, 0), ()).unwrap();
    assert!(warnings.is_empty());
}

#[test]
fn merging_biomes_never_drops_weight() {
    // The same seed builds the same partition geometry under two
    // registries.  One maps every cell to a single biome; the other splits
    // the cells between two biomes by elevation.  The merged entry weights
    // must sum to the same total.
    let mut one: BiomeRegistry = Registry::new();
    one.push_object(void_biome()).unwrap();
    one.push_object(biome("all", ClimateRange::full(), ClimateRange::full(), soil_rule(),
        true)).unwrap();
    let mut two: BiomeRegistry = Registry::new();
    two.push_object(void_biome()).unwrap();
    two.push_object(biome("low", ClimateRange::below(2560), ClimateRange::full(),
        soil_rule(), true)).unwrap();
    two.push_object(biome("high", ClimateRange::at_least(2560), ClimateRange::full(),
        soil_rule(), true)).unwrap();
    let ga = MultiNoiseGenerator::new(31337, one, basic_blocks(), Registry::new());
    let gb = MultiNoiseGenerator::new(31337, two, basic_blocks(), Registry::new());
    for (lx, lz) in [(0i64, 0i64), (16, 16), (31, 5), (9, 28)] {
        let (ea, _) = ga.sample_blended(ChunkPos::new(0, 0, 0), lx, lz).unwrap();
        let (eb, _) = gb.sample_blended(ChunkPos::new(0, 0, 0), lx, lz).unwrap();
        let sa: i64 = ea.iter().map(|e| e.weight).sum();
        let sb: i64 = eb.iter().map(|e| e.weight).sum();
        assert_eq!(sa, sb);
        assert_eq!(ea.len(), 1);
    }
}

#[test]
fn higher_block_influence_wins_the_voxel() {
    // Two biomes both produce a block for the same voxel; the one with
    // block influence 0.9 must beat the one with 0.2, whichever order the
    // entries arrive in.
    let mut biomes: BiomeRegistry = Registry::new();
    let mut weak = biome("weak", ClimateRange::full(), ClimateRange::full(), flooded_rule(),
        true);
    weak.block_influence = 205;
    let mut strong = biome("strong", ClimateRange::full(), ClimateRange::full(),
        flooded_rule(), true);
    strong.block_influence = 921;
    biomes.push_object(weak).unwrap();
    biomes.push_object(strong).unwrap();
    let stone = RegistryId { raw: 2 };
    let water = RegistryId { raw: 6 };
    let sand = RegistryId { raw: 7 };
    let rules = vec![
        ResolvedBlockRule::Flooded { solid: stone, fluid: water },
        ResolvedBlockRule::Flooded { solid: stone, fluid: sand },
    ];
    let entries = vec![
        BiomeEntry { id: RegistryId { raw: 1 }, weight: 1024 },
        BiomeEntry { id: RegistryId { raw: 2 }, weight: 1024 },
    ];
    // Below sea level, above the ground: each rule places its fluid.
    let got = column_block(&entries, &biomes, &rules, -1, -5, 0).unwrap();
    assert_eq!(got.id, sand);
    // With the influences swapped, the other fluid wins.
    let mut biomes2: BiomeRegistry = Registry::new();
    let mut strong2 = biome("weak", ClimateRange::full(), ClimateRange::full(),
        flooded_rule(), true);
    strong2.block_influence = 921;
    let mut weak2 = biome("strong", ClimateRange::full(), ClimateRange::full(),
        flooded_rule(), true);
    weak2.block_influence = 205;
    biomes2.push_object(strong2).unwrap();
    biomes2.push_object(weak2).unwrap();
    let got2 = column_block(&entries, &biomes2, &rules, -1, -5, 0).unwrap();
    assert_eq!(got2.id, water);
}

#[test]
fn two_biome_scenario_yields_only_their_blocks() {
    // Seed 42, chunk (0,0,0), a two-biome registry: plains for elevation
    // in [1, 2.5), ocean below 1.  Every voxel holds a plains-surface or
    // ocean-surface block (or stays empty), and water never appears at or
    // above sea level zero.  Cells whose elevation falls outside both
    // ranges take the reported fallback, which still picks one of the two.
    let mut biomes: BiomeRegistry = Registry::new();
    biomes.push_object(void_biome()).unwrap();
    biomes
        .push_object(biome("plains", ClimateRange::between(1024, 2560),
            ClimateRange::full(), soil_rule(), true))
        .unwrap();
    biomes
        .push_object(biome("ocean", ClimateRange::below(1024), ClimateRange::full(),
            flooded_rule(), true))
        .unwrap();
    let blocks = basic_blocks();
    let empty = blocks.lookup_name_to_object("empty").unwrap().0;
    let stone = blocks.lookup_name_to_object("stone").unwrap().0;
    let dirt = blocks.lookup_name_to_object("dirt").unwrap().0;
    let grass = blocks.lookup_name_to_object("grass").unwrap().0;
    let snowy = blocks.lookup_name_to_object("snowy_grass").unwrap().0;
    let water = blocks.lookup_name_to_object("water").unwrap().0;
    let g = MultiNoiseGenerator::new(42, biomes, blocks, Registry::new());
    let (chunk, warnings) = g.generate_chunk(ChunkPos::new(0, 0, 0), ()).unwrap();
    for e in &chunk.blocks.blocks {
        let id = e.id;
        assert!(
            id == empty || id == stone || id == dirt || id == grass || id == snowy
                || id == water,
            "unexpected block id {:?}", id
        );
        // This chunk lies entirely at or above sea level zero, where the
        // ocean rule never places fluid.
        assert_ne!(id, water);
    }
    for w in &warnings {
        assert!(w.chosen.raw == 2 || w.chosen.raw == 3);
    }
    // Below sea level, the same scenario may flood non-solid voxels.
    let (deep, _) = g.generate_chunk(ChunkPos::new(0, -2, 0), ()).unwrap();
    for e in &deep.blocks.blocks {
        let id = e.id;
        assert!(
            id == empty || id == stone || id == dirt || id == grass || id == snowy
                || id == water
        );
    }
}

#[test]
fn missing_void_biome_is_a_fatal_error() {
    let mut biomes: BiomeRegistry = Registry::new();
    biomes
        .push_object(biome("plains", ClimateRange::full(), ClimateRange::full(),
            soil_rule(), true))
        .unwrap();
    let g = MultiNoiseGenerator::new(1, biomes, basic_blocks(), Registry::new());
    let err = g.generate_chunk(ChunkPos::new(0, 0, 0), ()).unwrap_err();
    assert!(matches!(err, worldgen::generator::GenError::MissingBiome(_)));
}

#[test]
fn missing_block_name_is_a_fatal_error() {
    let mut biomes: BiomeRegistry = Registry::new();
    biomes.push_object(void_biome()).unwrap();
    biomes
        .push_object(biome("odd", ClimateRange::full(), ClimateRange::full(),
            BlockRule::Flooded {
                solid: RegistryName::of("unobtainium"),
                fluid: RegistryName::of("water"),
            }, true))
        .unwrap();
    let g = MultiNoiseGenerator::new(1, biomes, basic_blocks(), Registry::new());
    let err = g.generate_chunk(ChunkPos::new(0, 0, 0), ()).unwrap_err();
    assert!(matches!(err, worldgen::generator::GenError::MissingBlock(_)));
}

#[test]
fn no_generatable_biome_is_a_fatal_error() {
    let mut biomes: BiomeRegistry = Registry::new();
    biomes.push_object(void_biome()).unwrap();
    let g = MultiNoiseGenerator::new(1, biomes, basic_blocks(), Registry::new());
    let err = g.generate_chunk(ChunkPos::new(0, 0, 0), ()).unwrap_err();
    assert!(matches!(err, worldgen::generator::GenError::NoGeneratableBiomes));
}

fn flagged_center(water: bool, ocean: bool, coast: bool) -> Center {
    Center {
        point: Vec2::new(0, 0),
        noise: NoiseValues { elevation: 2000, temperature: 2000, moisture: 2000 },
        biome: None,
        water,
        ocean,
        coast,
        neighbors: vec![],
        borders: vec![],
        corners: vec![],
    }
}

fn catch_all() -> Vec<GeneratableBiome> {
    vec![GeneratableBiome {
        id: RegistryId { raw: 7 },
        elevation: ClimateRange::full(),
        temperature: ClimateRange::full(),
        moisture: ClimateRange::full(),
    }]
}

#[test]
fn hydrology_flags_force_their_biomes() {
    // Water/ocean/coast take precedence over climate matching: the forced
    // biome is assigned, the climate is ignored, and the stream does not
    // advance.
    let ocean_id = Some(RegistryId { raw: 3 });
    let beach_id = Some(RegistryId { raw: 4 });
    for (water, ocean, coast, expected) in [
        (false, true, false, 3u32),
        (true, false, false, 3),
        (false, false, true, 4),
    ] {
        let mut centers = vec![flagged_center(water, ocean, coast)];
        let mut stream = RandomStream::seed_for(1, 2, 3);
        let before = stream;
        let warned = assign_biome(&mut centers, 0, &catch_all(), ocean_id, beach_id,
            &mut stream)
            .unwrap();
        assert!(!warned);
        assert_eq!(centers[0].biome, Some(RegistryId { raw: expected }));
        assert_eq!(stream, before);
    }
    // An unflagged cell takes the climate path and matches the catch-all.
    let mut centers = vec![flagged_center(false, false, false)];
    let mut stream = RandomStream::seed_for(1, 2, 3);
    let warned = assign_biome(&mut centers, 0, &catch_all(), ocean_id, beach_id,
        &mut stream)
        .unwrap();
    assert!(!warned);
    assert_eq!(centers[0].biome, Some(RegistryId { raw: 7 }));
}

#[test]
fn missing_forced_biome_is_fatal() {
    let mut centers = vec![flagged_center(false, false, true)];
    let mut stream = RandomStream::seed_for(1, 2, 3);
    let err = assign_biome(&mut centers, 0, &catch_all(), Some(RegistryId { raw: 3 }),
        None, &mut stream)
        .unwrap_err();
    assert!(matches!(err, GenError::MissingBiome(_)));
    assert_eq!(centers[0].biome, None);
    let mut centers2 = vec![flagged_center(false, true, false)];
    let err2 = assign_biome(&mut centers2, 0, &catch_all(), None, None, &mut stream)
        .unwrap_err();
    assert!(matches!(err2, GenError::MissingBiome(_)));
}

#[test]
fn assignment_is_idempotent() {
    let mut centers = vec![flagged_center(false, true, false)];
    centers[0].biome = Some(RegistryId { raw: 9 });
    let mut stream = RandomStream::seed_for(4, 5, 6);
    let before = stream;
    let warned = assign_biome(&mut centers, 0, &catch_all(), None, None, &mut stream)
        .unwrap();
    assert!(!warned);
    assert_eq!(centers[0].biome, Some(RegistryId { raw: 9 }));
    assert_eq!(stream, before);
}
