//! Block entry packing and registry behaviour.

use worldgen::biome::{BiomeDefinition, BlockRule};
use worldgen::registry::{Registry, RegistryError, RegistryId, RegistryName};
use worldgen::voxeltypes::{BlockDefinition, BlockEntry, BlockShapeSet, ColorRgba,
    empty_block};

fn stone_alpha(reg: &Registry<BlockDefinition>) -> u8 {
    reg.lookup_name_to_object("stone").unwrap().1.representative_color.a
}

fn block(name: &str) -> BlockDefinition {
    BlockDefinition {
        name: RegistryName::of(name),
        shape_set: BlockShapeSet::StandardShapedMaterial,
        representative_color: ColorRgba::new(1, 2, 3, 255),
        has_collision_box: true,
        has_drawable_mesh: true,
    }
}

#[test]
fn packed_round_trip() {
    let e = BlockEntry::new(RegistryId { raw: 7 }, 0xAB_CDEF);
    let packed = e.as_packed();
    assert_eq!(packed, (7u64 << 32) | 0xAB_CDEFu64);
    let back = BlockEntry::from_packed(packed).unwrap();
    assert_eq!(back, e);
}

#[test]
fn packed_zero_id_is_invalid() {
    assert!(BlockEntry::from_packed(0).is_none());
    assert!(BlockEntry::from_packed(0xFFFF_FFFF).is_none());
    assert!(BlockEntry::from_packed(1u64 << 32).is_some());
}

#[test]
fn packed_max_values() {
    let e = BlockEntry::new(RegistryId { raw: u32::MAX }, u32::MAX);
    let back = BlockEntry::from_packed(e.as_packed()).unwrap();
    assert_eq!(back.id.raw, u32::MAX);
    assert_eq!(back.metadata, u32::MAX);
}

#[test]
fn registry_ids_are_dense_from_one() {
    let mut reg: Registry<BlockDefinition> = Registry::new();
    let a = reg.push_object(block("a")).unwrap();
    let b = reg.push_object(block("b")).unwrap();
    assert_eq!(a.raw, 1);
    assert_eq!(b.raw, 2);
    assert_eq!(reg.lookup_name_to_object("b").unwrap().0.raw, 2);
    assert!(reg.lookup_name_to_object("c").is_none());
    assert!(reg.lookup_id_to_object(RegistryId { raw: 0 }).is_none());
    assert!(reg.lookup_id_to_object(RegistryId { raw: 3 }).is_none());
    assert_eq!(reg.lookup_id_to_object(a).unwrap().name.key, "a");
}

#[test]
fn registry_rejects_duplicate_names() {
    let mut reg: Registry<BlockDefinition> = Registry::new();
    reg.push_object(block("a")).unwrap();
    let dup = reg.push_object(block("a"));
    assert_eq!(dup, Err(RegistryError::DuplicateName));
    assert_eq!(reg.len(), 1);
}

#[test]
fn basic_blocks_register_under_well_known_names() {
    let mut reg: Registry<BlockDefinition> = Registry::new();
    worldgen::blocks::setup_basic_blocks(&mut reg).unwrap();
    assert_eq!(reg.len(), 7);
    for (i, name) in ["empty", "stone", "dirt", "grass", "snowy_grass", "water", "sand"]
        .iter()
        .enumerate()
    {
        let (id, def) = reg.lookup_name_to_object(name).unwrap();
        assert_eq!(id.raw as usize, i + 1);
        assert_eq!(def.name.key, *name);
    }
    assert_eq!(empty_block().name.key, "empty");
    // The registered definitions carry the intended shapes and flags.
    let water = reg.lookup_name_to_object("water").unwrap().1;
    assert!(!water.has_collision_box && water.has_drawable_mesh);
    // Water is the one translucent block.
    assert_eq!(water.representative_color.a, 100);
    assert_eq!(stone_alpha(&reg), 255);
    let empty = reg.lookup_name_to_object("empty").unwrap().1;
    assert!(!empty.has_collision_box && !empty.has_drawable_mesh);
    assert!(matches!(empty.shape_set, BlockShapeSet::FullCubeOnly));
    let stone = reg.lookup_name_to_object("stone").unwrap().1;
    assert!(stone.has_collision_box && stone.has_drawable_mesh);
    assert!(matches!(stone.shape_set, BlockShapeSet::StandardShapedMaterial));
}

#[test]
fn basic_biomes_register_with_their_ranges_and_rules() {
    let mut reg: Registry<BiomeDefinition> = Registry::new();
    worldgen::biomes::setup_basic_biomes(&mut reg).unwrap();
    assert_eq!(reg.len(), 5);
    let void = reg.lookup_name_to_object("void").unwrap().1;
    assert!(!void.can_generate);
    assert_eq!(void.block_influence, 0);
    let plains = reg.lookup_name_to_object("plains").unwrap().1;
    assert!(plains.can_generate);
    assert_eq!((plains.elevation.lo, plains.elevation.hi), (1024, 2560));
    assert_eq!(plains.blend_influence, 512);
    assert!(matches!(plains.rule_source, BlockRule::LayeredSurface { .. }));
    let ocean = reg.lookup_name_to_object("ocean").unwrap().1;
    assert_eq!(ocean.elevation.hi, 1024);
    assert_eq!(ocean.moisture.lo, 2560);
    assert!(matches!(ocean.rule_source, BlockRule::Flooded { .. }));
    let mountains = reg.lookup_name_to_object("mountains").unwrap().1;
    assert_eq!(mountains.elevation.lo, 3584);
}
