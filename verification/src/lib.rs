//! A deterministic procedural terrain and biome synthesis engine.
//!
//! Given a world seed and a target chunk coordinate, the generator produces
//! the full voxel content of that chunk, blended seamlessly with its
//! neighbours: a local Voronoi partition of jittered sites is built around
//! the chunk, each cell is assigned a biome from its climate sample, the
//! cells' influence is blended per column, block rules fill the voxels and
//! decorators place features.  All arithmetic is exact fixed-point integer
//! arithmetic, so chunk contents are bit-reproducible for a given seed and
//! identical across runs and machines.

#![verifier::loop_isolation(false)]

use vstd::prelude::*;

pub mod biome;
pub mod biomes;
pub mod blending;
pub mod blocks;
pub mod chunk;
pub mod decorator;
pub mod fbm_noise;
pub mod fixed;
pub mod generator;
pub mod partition;
pub mod registry;
pub mod rng;
pub mod voxeltypes;

verus! {

} // verus!
