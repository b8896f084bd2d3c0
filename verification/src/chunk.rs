//! Chunk coordinates and the voxel storage a generator fills.

use vstd::prelude::*;

use crate::voxeltypes::BlockEntry;

verus! {

/// Blocks per chunk edge.
pub const CHUNK_DIM: i64 = 32;

/// Blocks per chunk edge, as a count.
pub const CHUNK_DIM_USIZE: usize = 32;

/// Blocks per chunk (the cube of the edge length).
pub const CHUNK_VOLUME: usize = 32768;

/// Largest chunk coordinate magnitude the generator accepts.
pub const CHUNK_POS_MAX: i64 = 0x10_0000;

/// An absolute chunk coordinate.
#[derive(Clone, Copy, PartialEq, Eq, Structural, Debug)]
pub struct ChunkPos {
    /// East-west chunk coordinate.
    pub x: i64,
    /// Vertical chunk coordinate.
    pub y: i64,
    /// North-south chunk coordinate.
    pub z: i64,
}

impl ChunkPos {
    /// Coordinates the generator accepts.
    pub open spec fn wf(&self) -> bool {
        &&& -CHUNK_POS_MAX <= self.x <= CHUNK_POS_MAX
        &&& -CHUNK_POS_MAX <= self.y <= CHUNK_POS_MAX
        &&& -CHUNK_POS_MAX <= self.z <= CHUNK_POS_MAX
    }

    /// Construct a chunk coordinate.
    pub fn new(x: i64, y: i64, z: i64) -> (r: ChunkPos)
        ensures
            r == (ChunkPos { x, y, z }),
    {
        ChunkPos { x, y, z }
    }
}

/// A position inside a chunk, each coordinate in `[0, CHUNK_DIM)`.
#[derive(Clone, Copy, PartialEq, Eq, Structural, Debug)]
pub struct InChunkPos {
    /// East-west offset.
    pub x: i64,
    /// Vertical offset.
    pub y: i64,
    /// North-south offset.
    pub z: i64,
}

impl InChunkPos {
    /// All coordinates lie inside the chunk.
    pub open spec fn wf(&self) -> bool {
        &&& 0 <= self.x < CHUNK_DIM
        &&& 0 <= self.y < CHUNK_DIM
        &&& 0 <= self.z < CHUNK_DIM
    }

    /// Construct an in-chunk position; `Some` exactly when in bounds.
    pub fn try_new(x: i64, y: i64, z: i64) -> (r: Option<InChunkPos>)
        ensures
            (InChunkPos { x, y, z }).wf() ==> r == Some(InChunkPos { x, y, z }),
            !(InChunkPos { x, y, z }).wf() ==> r is None,
    {
        if 0 <= x && x < CHUNK_DIM && 0 <= y && y < CHUNK_DIM && 0 <= z && z < CHUNK_DIM {
            Some(InChunkPos { x, y, z })
        } else {
            None
        }
    }
}

/// The storage index of an in-chunk position.
pub open spec fn spec_voxel_index(pos: InChunkPos) -> int {
    pos.y * CHUNK_DIM * CHUNK_DIM + pos.z * CHUNK_DIM + pos.x
}

/// Index bounds: well-formed positions map into the chunk volume.
pub proof fn lemma_voxel_index_bounds(pos: InChunkPos)
    requires
        pos.wf(),
    ensures
        0 <= spec_voxel_index(pos) < CHUNK_VOLUME,
{
}

/// The dense voxel storage of one chunk.
#[derive(Clone, Debug)]
pub struct ChunkBlocks {
    /// The blocks, indexed by `spec_voxel_index`.
    pub blocks: Vec<BlockEntry>,
}

impl View for ChunkBlocks {
    type V = Seq<BlockEntry>;

    open spec fn view(&self) -> Seq<BlockEntry> {
        self.blocks@
    }
}

impl ChunkBlocks {
    /// The storage holds exactly one entry per voxel.
    pub open spec fn wf(&self) -> bool {
        self@.len() == CHUNK_VOLUME
    }

    /// A chunk uniformly filled with one block entry.
    pub fn filled(fill: BlockEntry) -> (r: ChunkBlocks)
        ensures
            r.wf(),
            forall|i: int| 0 <= i < CHUNK_VOLUME ==> r@[i] == fill,
    {
        let mut blocks: Vec<BlockEntry> = Vec::new();
        let mut i: usize = 0;
        while i < CHUNK_VOLUME
            invariant
                i <= CHUNK_VOLUME,
                blocks@.len() == i,
                forall|k: int| 0 <= k < i ==> blocks@[k] == fill,
            decreases CHUNK_VOLUME - i,
        {
            blocks.push(fill);
            i = i + 1;
        }
        ChunkBlocks { blocks }
    }

    /// Write one voxel.
    pub fn put(&mut self, pos: InChunkPos, entry: BlockEntry)
        requires
            old(self).wf(),
            pos.wf(),
        ensures
            final(self).wf(),
            final(self)@ == old(self)@.update(spec_voxel_index(pos), entry),
    {
        proof {
            lemma_voxel_index_bounds(pos);
        }
        let index: usize = (pos.y * CHUNK_DIM * CHUNK_DIM + pos.z * CHUNK_DIM + pos.x) as usize;
        self.blocks.set(index, entry);
    }

    /// Read one voxel.
    pub fn get(&self, pos: InChunkPos) -> (r: BlockEntry)
        requires
            self.wf(),
            pos.wf(),
        ensures
            r == self@[spec_voxel_index(pos)],
    {
        proof {
            lemma_voxel_index_bounds(pos);
        }
        let index: usize = (pos.y * CHUNK_DIM * CHUNK_DIM + pos.z * CHUNK_DIM + pos.x) as usize;
        self.blocks[index]
    }
}

/// A fully populated chunk: its blocks and an opaque per-chunk payload that
/// the generator passes through unchanged.
#[derive(Clone, Debug)]
pub struct Chunk<ED> {
    /// The voxel contents.
    pub blocks: ChunkBlocks,
    /// The opaque payload.
    pub extra_data: ED,
}

impl<ED> Chunk<ED> {
    /// A chunk uniformly filled with one block entry, holding the payload.
    pub fn new(fill: BlockEntry, extra_data: ED) -> (r: Chunk<ED>)
        ensures
            r.blocks.wf(),
            forall|i: int| 0 <= i < CHUNK_VOLUME ==> r.blocks@[i] == fill,
            r.extra_data == extra_data,
    {
        Chunk { blocks: ChunkBlocks::filled(fill), extra_data }
    }
}

} // verus!
