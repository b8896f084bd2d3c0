//! Descriptors for in-game voxel/block types.

use vstd::prelude::*;

use crate::registry::{Registry, RegistryId, RegistryName, RegistryObject};

verus! {

/// The type for metadata attached to a block entry, used for determining the
/// shape to render and/or collide with.
pub type BlockMetadata = u32;

/// A block type reference (id + metadata) stored in a chunk, used to
/// uniquely identify a registered block variant.
#[derive(Clone, Copy, PartialEq, Eq, Structural, Debug, Hash)]
pub struct BlockEntry {
    /// The block id in the registry; never zero for a registered block.
    pub id: RegistryId,
    /// Metadata, controlled by the game engine for standard-shape blocks and
    /// by the block itself for custom shapes.
    pub metadata: BlockMetadata,
}

/// A named registry of block definitions.
pub type BlockRegistry = Registry<BlockDefinition>;

/// The packed form of a block entry: id in the high half, metadata low.
pub open spec fn spec_as_packed(e: BlockEntry) -> u64 {
    ((e.id.raw as u64) << 32u64) | (e.metadata as u64)
}

/// The entry a packed word decodes to, when its id half is nonzero.
pub open spec fn spec_from_packed(packed: u64) -> Option<BlockEntry> {
    let id = (packed >> 32u64) & 0xFFFF_FFFF;
    let meta = packed & 0xFFFF_FFFF;
    if id == 0 {
        None
    } else {
        Some(BlockEntry { id: RegistryId { raw: id as u32 }, metadata: meta as u32 })
    }
}

impl BlockEntry {
    /// Helper to construct a new block entry.
    pub fn new(id: RegistryId, metadata: u32) -> (r: Self)
        ensures
            r.id == id && r.metadata == metadata,
    {
        Self { id, metadata }
    }

    /// Helper to look up the block definition corresponding to this id.
    pub fn lookup(self, registry: &BlockRegistry) -> (r: Option<&BlockDefinition>)
        ensures
            1 <= self.id.raw <= registry@.len()
                ==> (r matches Some(obj) && *obj == registry@[self.id.raw - 1]),
            !(1 <= self.id.raw <= registry@.len()) ==> r is None,
    {
        registry.lookup_id_to_object(self.id)
    }

    /// Packs the block entry into a single word for serialization.
    pub fn as_packed(self) -> (r: u64)
        ensures
            r == spec_as_packed(self),
    {
        let id: u64 = self.id.raw as u64;
        let meta: u64 = self.metadata as u64;
        (id << 32) | meta
    }

    /// Unpacks a block entry from a serialized word.  Returns `None` exactly
    /// when the id half is an invalid zero.
    pub fn from_packed(packed: u64) -> (r: Option<Self>)
        ensures
            r == spec_from_packed(packed),
    {
        let id: u64 = (packed >> 32) & 0xFFFF_FFFF;
        let meta: u64 = packed & 0xFFFF_FFFF;
        proof {
            assert((packed >> 32u64) & 0xFFFF_FFFF <= 0xFFFF_FFFFu64
                && packed & 0xFFFF_FFFF <= 0xFFFF_FFFFu64) by (bit_vector);
        }
        if id == 0 {
            None
        } else {
            Some(Self::new(RegistryId { raw: id as u32 }, meta as u32))
        }
    }
}

/// Packing then unpacking gives the entry back whenever the id is valid
/// (nonzero), and fails exactly on the invalid zero id.
pub proof fn lemma_packed_round_trip(e: BlockEntry)
    ensures
        e.id.raw != 0 ==> spec_from_packed(spec_as_packed(e)) == Some(e),
        e.id.raw == 0 ==> spec_from_packed(spec_as_packed(e)) is None,
{
    let idbits: u64 = e.id.raw as u64;
    let meta: u64 = e.metadata as u64;
    assert(idbits <= 0xFFFF_FFFF && meta <= 0xFFFF_FFFF ==> {
        &&& ((idbits << 32u64) | meta) >> 32u64 & 0xFFFF_FFFF == idbits
        &&& ((idbits << 32u64) | meta) & 0xFFFF_FFFF == meta
    }) by (bit_vector);
}

/// The type of the block definition's shape variants.
#[derive(Clone, Debug, Default, PartialEq, Eq, Hash)]
pub enum BlockShapeSet {
    /// All the standard shapes available (cube, slope, corner, and so on).
    #[default]
    StandardShapedMaterial,
    /// A cube filling the entire voxel.
    FullCubeOnly,
    /// A block type with its own defined shapes rather than standard ones.
    Custom {},
}

/// A color that can represent a block or biome on maps and debug views.
#[derive(Clone, Copy, PartialEq, Eq, Structural, Debug)]
pub struct ColorRgba {
    /// Red component.
    pub r: u8,
    /// Green component.
    pub g: u8,
    /// Blue component.
    pub b: u8,
    /// Alpha component.
    pub a: u8,
}

impl ColorRgba {
    /// Construct a color from its four components.
    pub fn new(r: u8, g: u8, b: u8, a: u8) -> (c: ColorRgba)
        ensures
            c == (ColorRgba { r, g, b, a }),
    {
        ColorRgba { r, g, b, a }
    }
}

/// A definition of a block type, specifying properties such as registry
/// name, shape and color.
#[derive(Clone, Debug)]
pub struct BlockDefinition {
    /// The unique registry name.
    pub name: RegistryName,
    /// The set of shapes available.
    pub shape_set: BlockShapeSet,
    /// A color that can represent the block on maps and debug views.
    pub representative_color: ColorRgba,
    /// Whether the block can be collided with.
    pub has_collision_box: bool,
    /// Whether the block has a mesh that can be rendered.
    pub has_drawable_mesh: bool,
}

impl RegistryObject for BlockDefinition {
    open spec fn spec_name(&self) -> Seq<char> {
        self.name.key@
    }

    fn registry_name(&self) -> (r: &RegistryName) {
        &self.name
    }
}

/// The registry name of the empty block.
pub fn empty_block_name() -> (r: RegistryName)
    ensures
        r.key@ == "empty"@,
{
    RegistryName::of("empty")
}

/// The empty block definition, used where no specific block was generated.
pub fn empty_block() -> (r: BlockDefinition)
    ensures
        r.spec_name() == "empty"@,
        r.shape_set == BlockShapeSet::FullCubeOnly,
        !r.has_collision_box,
        !r.has_drawable_mesh,
        r.representative_color == (ColorRgba { r: 0, g: 0, b: 0, a: 0 }),
{
    BlockDefinition {
        name: empty_block_name(),
        shape_set: BlockShapeSet::FullCubeOnly,
        representative_color: ColorRgba::new(0, 0, 0, 0),
        has_collision_box: false,
        has_drawable_mesh: false,
    }
}

} // verus!
