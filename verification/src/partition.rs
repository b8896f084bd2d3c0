//! Local spatial partition builder.
//!
//! Around a target chunk, 25 candidate sites on a 5-by-5 chunk-aligned grid
//! are perturbed by a deterministic jitter noise and become the cells
//! ("centers") of a local Voronoi partition; its vertices ("corners") and
//! boundaries ("edges") are derived from a triangulation of the sites, with
//! adjacency recorded in all directions.  Jitter and climate sampling are
//! pure functions of a site's absolute position, so two neighbouring chunks
//! independently derive identical centers for any site they share.

use vstd::prelude::*;

use crate::fixed::{FP_ONE, fdiv, spec_fp_mul, fp_mul, div_floor, Vec2, lemma_fdiv_bounds,
    lemma_abs_mul_le};
use crate::fbm_noise::{spec_lattice2, lattice2, POINT_SAT};
use crate::biome::{NoiseValues, Noises, spec_point_noise, point_noise};
use crate::chunk::{ChunkPos, CHUNK_DIM};
use crate::registry::RegistryId;

verus! {

/// Sites per partition edge.
pub const GRID_DIM: usize = 5;

/// Sites in one partition.
pub const SITE_COUNT: usize = 25;

/// Jitter amplitude: three quarters of a chunk edge, fixed point.
pub const JITTER_AMPLITUDE: i64 = 24576;

/// Bound on the distance of a center from the middle of its chunk, fixed
/// point (128 blocks).
pub const CENTER_BOX: i64 = 131072;

/// Center of a Voronoi cell, corner of a triangulation triangle.
#[derive(Clone, Debug)]
pub struct Center {
    /// Site position of the cell, fixed point.
    pub point: Vec2,
    /// Cached climate triple sampled at the site.
    pub noise: NoiseValues,
    /// Assigned biome, filled in by biome assignment.
    pub biome: Option<RegistryId>,
    /// Hydrology flag: inland water (reserved, not yet set).
    pub water: bool,
    /// Hydrology flag: ocean (reserved, not yet set).
    pub ocean: bool,
    /// Hydrology flag: coast (reserved, not yet set).
    pub coast: bool,
    /// Indices of neighbouring centers.
    pub neighbors: Vec<usize>,
    /// Indices of bordering edges.
    pub borders: Vec<usize>,
    /// Indices of touching corners.
    pub corners: Vec<usize>,
}

impl Center {
    /// A fresh cell at a site with its climate sample; no adjacency yet.
    pub fn new(point: Vec2, noise: NoiseValues) -> (r: Center)
        ensures
            r.point == point,
            r.noise == noise,
            r.biome is None,
            !r.water && !r.ocean && !r.coast,
            r.neighbors@.len() == 0 && r.borders@.len() == 0 && r.corners@.len() == 0,
    {
        Center {
            point,
            noise,
            biome: None,
            water: false,
            ocean: false,
            coast: false,
            neighbors: Vec::new(),
            borders: Vec::new(),
            corners: Vec::new(),
        }
    }
}

/// Corner of a Voronoi cell, circumcenter of a triangulation triangle.
#[derive(Clone, Debug)]
pub struct Corner {
    /// Position of the corner, fixed point.
    pub point: Vec2,
    /// Indices of adjacent centers.
    pub touches: Vec<usize>,
    /// Indices of protruding edges.
    pub protrudes: Vec<usize>,
    /// Indices of adjacent corners.
    pub adjacent: Vec<usize>,
}

impl Corner {
    /// A fresh corner at a position; no adjacency yet.
    pub fn new(point: Vec2) -> (r: Corner)
        ensures
            r.point == point,
            r.touches@.len() == 0 && r.protrudes@.len() == 0 && r.adjacent@.len() == 0,
    {
        Corner { point, touches: Vec::new(), protrudes: Vec::new(), adjacent: Vec::new() }
    }
}

/// Edge of a Voronoi cell and its dual triangulation edge.  A missing
/// reference denotes the partition boundary; every edge keeps at least one
/// center and one corner reference.
#[derive(Clone, Copy, PartialEq, Eq, Structural, Debug)]
pub struct Edge {
    /// Index of the center on one side of the dual edge.
    pub d0: Option<usize>,
    /// Index of the center on the other side.
    pub d1: Option<usize>,
    /// Index of the corner where the Voronoi segment starts.
    pub v0: Option<usize>,
    /// Index of the corner where the Voronoi segment ends.
    pub v1: Option<usize>,
    /// Halfway between the two corners, fixed point.
    pub midpoint: Vec2,
}

impl Edge {
    /// A fresh edge with no references.
    pub fn new() -> (r: Edge)
        ensures
            r.d0 is None && r.d1 is None && r.v0 is None && r.v1 is None,
            r.midpoint == (Vec2 { x: 0, z: 0 }),
    {
        Edge { d0: None, d1: None, v0: None, v1: None, midpoint: Vec2 { x: 0, z: 0 } }
    }
}

/// A sequence of indices with no repetitions.
pub open spec fn nodup(s: Seq<usize>) -> bool {
    forall|i: int, j: int| 0 <= i < j < s.len() ==> s[i] != s[j]
}

/// All indices in a sequence lie below a bound.
pub open spec fn indices_below(s: Seq<usize>, bound: int) -> bool {
    forall|i: int| 0 <= i < s.len() ==> (#[trigger] s[i]) < bound
}

/// Whether a vector contains a value.
pub fn contains_usize(v: &Vec<usize>, x: usize) -> (r: bool)
    ensures
        r == v@.contains(x),
{
    let mut i: usize = 0;
    let n: usize = v.len();
    while i < n
        invariant
            i <= n,
            forall|k: int| 0 <= k < i ==> v@[k] != x,
        decreases n - i,
    {
        if v[i] == x {
            return true;
        }
        i = i + 1;
    }
    proof {
        assert(!v@.contains(x));
    }
    false
}

/// Append an optional index to an adjacency list unless it is absent or
/// already present; keeps the list free of repetitions.
pub fn add_to_list(v: &mut Vec<usize>, x: &Option<usize>)
    ensures
        final(v)@ == if x is Some && !old(v)@.contains(x.unwrap()) {
            old(v)@.push(x.unwrap())
        } else {
            old(v)@
        },
        nodup(old(v)@) ==> nodup(final(v)@),
        forall|b: int| indices_below(old(v)@, b) && x is Some && x.unwrap() < b
            ==> indices_below(final(v)@, b),
        x is Some ==> final(v)@.contains(x.unwrap()),
{
    match x {
        Some(val) => {
            if !contains_usize(v, *val) {
                let ghost oldv = v@;
                v.push(*val);
                proof {
                    assert(v@[oldv.len() as int] == *val);
                    assert forall|i: int, j: int|
                        nodup(oldv) && 0 <= i < j < v@.len() implies v@[i] != v@[j] by {
                        if j == v@.len() - 1 {
                            assert(!oldv.contains(v@[j]));
                            assert(oldv[i] == v@[i]);
                        }
                    }
                }
            }
        },
        None => {},
    }
}

/// The grid base position of site `(gx, gz)` of a chunk's partition: an
/// absolute block coordinate, fixed point.
pub open spec fn spec_site_base(cc: int, g: int) -> int {
    (cc + g - 2) * CHUNK_DIM * FP_ONE
}

/// The diagonal jitter offset at an absolute base position: a pure function
/// of that position, never of chunk-local state.
pub open spec fn spec_jitter(jseed: u32, bx: int, bz: int) -> int {
    spec_fp_mul(JITTER_AMPLITUDE as int, spec_lattice2(jseed, bx, bz))
}

/// The jittered site position for grid slot `g` (row-major in a 5-by-5
/// grid) of the chunk at `cpos`.
pub open spec fn spec_site_point(jseed: u32, cpos: ChunkPos, g: int) -> Vec2 {
    let bx = spec_site_base(cpos.x as int, g / (GRID_DIM as int));
    let bz = spec_site_base(cpos.z as int, g % (GRID_DIM as int));
    let j = spec_jitter(jseed, bx, bz);
    Vec2 { x: (bx + j) as i64, z: (bz + j) as i64 }
}

/// The rounded-to-block deduplication key of a site position.
pub open spec fn spec_site_key(p: Vec2) -> (int, int) {
    (fdiv(p.x + FP_ONE as int / 2, FP_ONE as int), fdiv(p.z + FP_ONE as int / 2, FP_ONE as int))
}

/// First existing site position with the given key, if any.
pub open spec fn spec_find_key(points: Seq<Vec2>, key: (int, int), i: int) -> Option<int>
    decreases points.len() - i,
{
    if i < 0 || i >= points.len() {
        None
    } else if spec_site_key(points[i]) == key {
        Some(i)
    } else {
        spec_find_key(points, key, i + 1)
    }
}

/// The site positions and the grid-to-center map after processing the first
/// `g` grid slots: a new center per site unless an existing center occupies
/// the same rounded block position.
pub open spec fn spec_sites(jseed: u32, cpos: ChunkPos, g: int) -> (Seq<Vec2>, Seq<int>)
    decreases g,
{
    if g <= 0 {
        (Seq::empty(), Seq::empty())
    } else {
        let prev = spec_sites(jseed, cpos, g - 1);
        let p = spec_site_point(jseed, cpos, g - 1);
        match spec_find_key(prev.0, spec_site_key(p), 0) {
            Some(j) => (prev.0, prev.1.push(j)),
            None => (prev.0.push(p), prev.1.push(prev.0.len() as int)),
        }
    }
}

/// Lengths of the site-synthesis result: one map entry per grid slot, at
/// most one center per slot.
pub proof fn lemma_sites_len(jseed: u32, cpos: ChunkPos, g: int)
    requires
        g >= 0,
    ensures
        spec_sites(jseed, cpos, g).1.len() == g,
        spec_sites(jseed, cpos, g).0.len() <= g,
    decreases g,
{
    if g > 0 {
        lemma_sites_len(jseed, cpos, g - 1);
    }
}

/// Site positions stay within the chunk's local box.
pub proof fn lemma_site_point_bounds(jseed: u32, cpos: ChunkPos, g: int)
    requires
        cpos.wf(),
        0 <= g < 25,
    ensures
        ({
            let p = spec_site_point(jseed, cpos, g);
            let ccx = (cpos.x * CHUNK_DIM + CHUNK_DIM / 2) * FP_ONE;
            let ccz = (cpos.z * CHUNK_DIM + CHUNK_DIM / 2) * FP_ONE;
            -CENTER_BOX <= p.x - ccx <= CENTER_BOX && -CENTER_BOX <= p.z - ccz <= CENTER_BOX
        }),
{
    let bx = spec_site_base(cpos.x as int, g / (GRID_DIM as int));
    let bz = spec_site_base(cpos.z as int, g % (GRID_DIM as int));
    let j = spec_jitter(jseed, bx, bz);
    assert(-FP_ONE <= spec_lattice2(jseed, bx, bz) <= FP_ONE) by {
        lemma_lattice2_range(jseed, bx, bz);
    };
    assert(-(JITTER_AMPLITUDE as int) * FP_ONE <= JITTER_AMPLITUDE as int * spec_lattice2(
        jseed, bx, bz) <= JITTER_AMPLITUDE as int * FP_ONE) by (nonlinear_arith)
        requires
            -FP_ONE <= spec_lattice2(jseed, bx, bz) <= FP_ONE,
            JITTER_AMPLITUDE == 24576,
    {}
    lemma_fdiv_bounds(JITTER_AMPLITUDE as int * spec_lattice2(jseed, bx, bz), FP_ONE as int,
        -(JITTER_AMPLITUDE as int) * FP_ONE, JITTER_AMPLITUDE as int * FP_ONE);
}

/// The interpolated lattice noise stays within one unit; restates the
/// executable bound at the specification level.
pub proof fn lemma_lattice2_range(seed: u32, x: int, z: int)
    ensures
        -FP_ONE <= spec_lattice2(seed, x, z) <= FP_ONE,
{
    reveal(crate::fbm_noise::spec_lattice2);
    reveal(crate::fbm_noise::spec_cell_val);
    vstd::arithmetic::div_mod::lemma_fundamental_div_mod(x, FP_ONE as int);
    vstd::arithmetic::div_mod::lemma_mod_bound(x, FP_ONE as int);
    vstd::arithmetic::div_mod::lemma_fundamental_div_mod(z, FP_ONE as int);
    vstd::arithmetic::div_mod::lemma_mod_bound(z, FP_ONE as int);
    let xi = fdiv(x, FP_ONE as int);
    let zi = fdiv(z, FP_ONE as int);
    let fx = x - xi * FP_ONE;
    let fz = z - zi * FP_ONE;
    lemma_fade_range(fx);
    lemma_fade_range(fz);
    let wx = crate::fixed::spec_fade(fx);
    let wz = crate::fixed::spec_fade(fz);
    lemma_cell_val_range(seed, xi, zi);
    lemma_cell_val_range(seed, xi + 1, zi);
    lemma_cell_val_range(seed, xi, zi + 1);
    lemma_cell_val_range(seed, xi + 1, zi + 1);
    let v00 = crate::fbm_noise::spec_cell_val(seed, xi, zi);
    let v10 = crate::fbm_noise::spec_cell_val(seed, xi + 1, zi);
    let v01 = crate::fbm_noise::spec_cell_val(seed, xi, zi + 1);
    let v11 = crate::fbm_noise::spec_cell_val(seed, xi + 1, zi + 1);
    lemma_lerp_range(v00, v10, wx);
    lemma_lerp_range(v01, v11, wx);
    let a = crate::fixed::spec_lerp(v00, v10, wx);
    let b = crate::fixed::spec_lerp(v01, v11, wx);
    lemma_lerp_range(a, b, wz);
}

/// A cell value is within one unit.
proof fn lemma_cell_val_range(seed: u32, xi: int, zi: int)
    ensures
        -FP_ONE <= crate::fbm_noise::spec_cell_val(seed, xi, zi) <= FP_ONE,
{
    reveal(crate::fbm_noise::spec_cell_val);
}

/// The fade of an in-cell offset is within `[0, FP_ONE]`.
proof fn lemma_fade_range(t: int)
    requires
        0 <= t < FP_ONE,
    ensures
        0 <= crate::fixed::spec_fade(t) <= FP_ONE,
{
    assert(0 <= t * t * (3 * FP_ONE - 2 * t)
        && t * t * (3 * FP_ONE - 2 * t) <= FP_ONE as int * FP_ONE as int * FP_ONE as int)
        by (nonlinear_arith)
        requires
            0 <= t <= FP_ONE,
            FP_ONE == 1024,
    {
        assert((FP_ONE - t) * (FP_ONE - t) * (FP_ONE + 2 * t) >= 0);
    }
    lemma_fdiv_bounds(t * t * (3 * FP_ONE - 2 * t), FP_ONE as int * FP_ONE as int, 0,
        FP_ONE as int * FP_ONE as int * FP_ONE as int);
}

/// A linear interpolation with weight in `[0, FP_ONE]` stays between its
/// endpoints.
proof fn lemma_lerp_range(a: int, b: int, w: int)
    requires
        0 <= w <= FP_ONE,
    ensures
        a <= b ==> a <= crate::fixed::spec_lerp(a, b, w) <= b,
        b <= a ==> b <= crate::fixed::spec_lerp(a, b, w) <= a,
{
    let d = b - a;
    if d >= 0 {
        assert(0 <= d * w <= d * 1024) by (nonlinear_arith)
            requires
                d >= 0,
                0 <= w <= 1024,
        {}
        lemma_fdiv_bounds(d * w, FP_ONE as int, 0, d * 1024);
        assert(fdiv(d * 1024, 1024) == d) by {
            vstd::arithmetic::div_mod::lemma_div_multiples_vanish(d, 1024);
            assert(d * 1024 == 1024 * d);
        };
    } else {
        assert(d * 1024 <= d * w <= 0) by (nonlinear_arith)
            requires
                d < 0,
                0 <= w <= 1024,
        {}
        lemma_fdiv_bounds(d * w, FP_ONE as int, d * 1024, 0);
        assert(fdiv(d * 1024, 1024) == d) by {
            vstd::arithmetic::div_mod::lemma_div_multiples_vanish(d, 1024);
            assert(d * 1024 == 1024 * d);
        };
    }
}


/// Executable jitter offset for a base position.
pub fn site_jitter(jseed: u32, bx: i64, bz: i64) -> (r: i64)
    requires
        -POINT_SAT <= bx <= POINT_SAT,
        -POINT_SAT <= bz <= POINT_SAT,
    ensures
        r == spec_jitter(jseed, bx as int, bz as int),
        -JITTER_AMPLITUDE <= r <= JITTER_AMPLITUDE,
{
    let n: i64 = lattice2(jseed, bx, bz);
    proof {
        assert(-(JITTER_AMPLITUDE as int) * FP_ONE <= JITTER_AMPLITUDE as int * n
            && JITTER_AMPLITUDE as int * n <= JITTER_AMPLITUDE as int * FP_ONE)
            by (nonlinear_arith)
            requires
                -FP_ONE <= n <= FP_ONE,
                JITTER_AMPLITUDE == 24576,
        {}
        lemma_fdiv_bounds(JITTER_AMPLITUDE as int * n as int, FP_ONE as int,
            -(JITTER_AMPLITUDE as int) * FP_ONE, JITTER_AMPLITUDE as int * FP_ONE);
    }
    fp_mul(JITTER_AMPLITUDE, n)
}

/// The identifying fields of one Voronoi cell: its site position, cached
/// climate sample, hydrology flags and assigned biome.  A plain value, so
/// whole-pipeline specifications can be stated over sequences of it.
#[derive(Clone, Copy, PartialEq, Eq, Structural, Debug)]
pub struct CellCore {
    /// Site position of the cell, fixed point.
    pub point: Vec2,
    /// Cached climate triple sampled at the site.
    pub noise: NoiseValues,
    /// Assigned biome, if assignment has run.
    pub biome: Option<RegistryId>,
    /// Hydrology flag: inland water (reserved, not yet set by building).
    pub water: bool,
    /// Hydrology flag: ocean (reserved, not yet set by building).
    pub ocean: bool,
    /// Hydrology flag: coast (reserved, not yet set by building).
    pub coast: bool,
}

/// The identifying fields of every cell, in order.
pub open spec fn spec_core(centers: Seq<Center>) -> Seq<CellCore> {
    centers.map_values(|c: Center| CellCore {
        point: c.point,
        noise: c.noise,
        biome: c.biome,
        water: c.water,
        ocean: c.ocean,
        coast: c.coast,
    })
}

/// The cells a chunk's partition derives, before biome assignment: one per
/// distinct jittered site, each with its climate sample and no hydrology.
#[verifier::opaque]
pub open spec fn spec_cells(jseed: u32, noises: Noises, cpos: ChunkPos) -> Seq<CellCore> {
    spec_sites(jseed, cpos, SITE_COUNT as int).0.map_values(|p: Vec2| CellCore {
        point: p,
        noise: spec_point_noise(noises, p.x as int, p.z as int),
        biome: None,
        water: false,
        ocean: false,
        coast: false,
    })
}

/// The identifying fields of the cells match the site-synthesis
/// specification: positions, climate samples, no biome yet, no hydrology.
pub open spec fn centers_core_sites(centers: Seq<Center>, jseed: u32, noises: Noises,
    cpos: ChunkPos) -> bool {
    let shape = spec_sites(jseed, cpos, SITE_COUNT as int);
    &&& centers.len() == shape.0.len() <= SITE_COUNT
    &&& spec_core(centers) == spec_cells(jseed, noises, cpos)
    &&& forall|k: int| 0 <= k < centers.len() ==> {
        &&& (#[trigger] centers[k]).point == shape.0[k]
        &&& centers[k].noise == spec_point_noise(noises, shape.0[k].x as int,
            shape.0[k].z as int)
        &&& centers[k].noise.wf()
        &&& centers[k].biome is None
        &&& !centers[k].water && !centers[k].ocean && !centers[k].coast
    }
}

/// What the site-synthesis stage guarantees about its output.
pub open spec fn centers_match_sites(centers: Seq<Center>, site_map: Seq<usize>,
    jseed: u32, noises: Noises, cpos: ChunkPos) -> bool {
    let shape = spec_sites(jseed, cpos, SITE_COUNT as int);
    &&& centers_core_sites(centers, jseed, noises, cpos)
    &&& forall|k: int| 0 <= k < centers.len() ==> {
        &&& (#[trigger] centers[k]).neighbors@.len() == 0
        &&& centers[k].borders@.len() == 0
        &&& centers[k].corners@.len() == 0
    }
    &&& site_map.len() == SITE_COUNT
    &&& forall|k: int| 0 <= k < SITE_COUNT
        ==> (#[trigger] site_map[k]) < centers.len() && site_map[k] as int == shape.1[k]
}

/// Every center lies within the chunk's local box.
pub open spec fn centers_in_box(centers: Seq<Center>, cpos: ChunkPos) -> bool {
    let ccx = (cpos.x * CHUNK_DIM + CHUNK_DIM / 2) * FP_ONE;
    let ccz = (cpos.z * CHUNK_DIM + CHUNK_DIM / 2) * FP_ONE;
    forall|k: int| 0 <= k < centers.len() ==> {
        &&& -CENTER_BOX <= (#[trigger] centers[k]).point.x - ccx <= CENTER_BOX
        &&& -CENTER_BOX <= centers[k].point.z - ccz <= CENTER_BOX
    }
}

/// Place the 25 candidate sites of a chunk's partition and create one
/// center per distinct rounded block position, each with its climate sample
/// computed immediately.  Returns the centers and the grid-to-center map.
#[verifier::rlimit(100)]
pub fn make_centers(jseed: u32, noises: &Noises, cpos: ChunkPos)
    -> (r: (Vec<Center>, Vec<usize>))
    requires
        noises.wf(),
        cpos.wf(),
    ensures
        centers_match_sites(r.0@, r.1@, jseed, *noises, cpos),
        centers_in_box(r.0@, cpos),
        r.0@.len() >= 1,
{
    proof {
        lemma_sites_len(jseed, cpos, SITE_COUNT as int);
    }
    let mut centers: Vec<Center> = Vec::new();
    let mut keys: Vec<(i64, i64)> = Vec::new();
    let mut site_map: Vec<usize> = Vec::new();
    let mut g: usize = 0;
    while g < SITE_COUNT
        invariant
            g <= SITE_COUNT,
            keys@.len() == centers@.len(),
            site_map@.len() == g,
            centers@.len() <= g,
            ({
                let shape = spec_sites(jseed, cpos, g as int);
                &&& centers@.len() == shape.0.len()
                &&& forall|k: int| 0 <= k < centers@.len() ==> {
                    &&& (#[trigger] centers@[k]).point == shape.0[k]
                    &&& centers@[k].noise == spec_point_noise(*noises, shape.0[k].x as int,
                        shape.0[k].z as int)
                    &&& centers@[k].noise.wf()
                    &&& centers@[k].biome is None
                    &&& !centers@[k].water && !centers@[k].ocean && !centers@[k].coast
                    &&& centers@[k].neighbors@.len() == 0
                    &&& centers@[k].borders@.len() == 0
                    &&& centers@[k].corners@.len() == 0
                }
                &&& forall|k: int| 0 <= k < g
                    ==> (#[trigger] site_map@[k]) < centers@.len()
                        && site_map@[k] as int == shape.1[k]
            }),
            forall|k: int| 0 <= k < centers@.len() ==> {
                let key = spec_site_key((#[trigger] centers@[k]).point);
                keys@[k].0 as int == key.0 && keys@[k].1 as int == key.1
            },
            centers_in_box(centers@, cpos),
            g >= 1 ==> centers@.len() >= 1,
        decreases SITE_COUNT - g,
    {
        let gx: i64 = (g / GRID_DIM) as i64;
        let gz: i64 = (g % GRID_DIM) as i64;
        let bx: i64 = (cpos.x + gx - 2) * CHUNK_DIM * FP_ONE;
        let bz: i64 = (cpos.z + gz - 2) * CHUNK_DIM * FP_ONE;
        let j: i64 = site_jitter(jseed, bx, bz);
        let point = Vec2 { x: bx + j, z: bz + j };
        proof {
            assert(point == spec_site_point(jseed, cpos, g as int));
            lemma_site_point_bounds(jseed, cpos, g as int);
            lemma_sites_len(jseed, cpos, g as int);
            lemma_sites_len(jseed, cpos, g as int + 1);
        }
        let kx: i64 = div_floor(point.x + FP_ONE / 2, FP_ONE);
        let kz: i64 = div_floor(point.z + FP_ONE / 2, FP_ONE);
        let ghost pts = centers@.map_values(|c: Center| c.point);
        proof {
            let shape = spec_sites(jseed, cpos, g as int);
            assert(shape.0 =~= pts);
        }
        let mut found: usize = 0;
        let mut has_found: bool = false;
        let mut i: usize = 0;
        let n: usize = centers.len();
        while i < n
            invariant
                i <= n,
                !has_found ==> spec_find_key(pts, spec_site_key(point), 0)
                    == spec_find_key(pts, spec_site_key(point), i as int),
                has_found ==> spec_find_key(pts, spec_site_key(point), 0)
                    == Some(found as int) && found < n,
            decreases n - i,
        {
            let k = keys[i];
            if !has_found {
                if k.0 == kx && k.1 == kz {
                    found = i;
                    has_found = true;
                    proof {
                        assert(pts[i as int] == centers@[i as int].point);
                        assert(spec_site_key(pts[i as int]) == spec_site_key(point));
                        assert(spec_find_key(pts, spec_site_key(point), i as int)
                            == Some(i as int));
                    }
                } else {
                    proof {
                        assert(pts[i as int] == centers@[i as int].point);
                        assert(spec_site_key(pts[i as int]) != spec_site_key(point));
                        assert(spec_find_key(pts, spec_site_key(point), i as int)
                            == spec_find_key(pts, spec_site_key(point), i + 1));
                    }
                }
            }
            i = i + 1;
        }
        proof {
            if !has_found {
                assert(spec_find_key(pts, spec_site_key(point), n as int) is None);
            }
        }
        if has_found {
            site_map.push(found);
            proof {
                let shape = spec_sites(jseed, cpos, g as int);
                let shape1 = spec_sites(jseed, cpos, g as int + 1);
                assert(shape.0 =~= pts);
                assert(point == spec_site_point(jseed, cpos, (g as int + 1) - 1));
                assert(spec_find_key(shape.0, spec_site_key(point), 0)
                    == Some(found as int));
                assert(shape1.0 == shape.0 && shape1.1 == shape.1.push(found as int));
            }
        } else {
            let noise = point_noise(noises, point);
            let idx: usize = centers.len();
            centers.push(Center::new(point, noise));
            keys.push((kx, kz));
            site_map.push(idx);
            proof {
                let shape = spec_sites(jseed, cpos, g as int);
                let shape1 = spec_sites(jseed, cpos, g as int + 1);
                assert(shape1.0 == shape.0.push(point) && shape1.1
                    == shape.1.push(shape.0.len() as int));
            }
        }
        g = g + 1;
    }
    proof {
        reveal(spec_cells);
        assert(spec_core(centers@) =~= spec_cells(jseed, *noises, cpos));
    }
    (centers, site_map)
}



/// A local partition: cells, vertices and boundaries with adjacency
/// recorded in all directions.
#[derive(Clone, Debug)]
pub struct Partition {
    /// The Voronoi cells.
    pub centers: Vec<Center>,
    /// The Voronoi vertices.
    pub corners: Vec<Corner>,
    /// The boundaries, each with its dual triangulation edge.
    pub edges: Vec<Edge>,
}

/// Adjacency lists of all cells are in range and repetition free.
pub open spec fn centers_lists_wf(centers: Seq<Center>, n_centers: int, n_corners: int,
    n_edges: int) -> bool {
    forall|k: int| 0 <= k < centers.len() ==> {
        let c = #[trigger] centers[k];
        &&& nodup(c.neighbors@) && indices_below(c.neighbors@, n_centers)
        &&& nodup(c.borders@) && indices_below(c.borders@, n_edges)
        &&& nodup(c.corners@) && indices_below(c.corners@, n_corners)
    }
}

/// Adjacency lists of all vertices are in range and repetition free.
pub open spec fn corners_lists_wf(corners: Seq<Corner>, n_centers: int, n_corners: int,
    n_edges: int) -> bool {
    forall|k: int| 0 <= k < corners.len() ==> {
        let c = #[trigger] corners[k];
        &&& nodup(c.touches@) && indices_below(c.touches@, n_centers)
        &&& nodup(c.protrudes@) && indices_below(c.protrudes@, n_edges)
        &&& nodup(c.adjacent@) && indices_below(c.adjacent@, n_corners)
    }
}

/// Every edge keeps at least one center and one corner reference, all in
/// range.
pub open spec fn edges_wf(edges: Seq<Edge>, n_centers: int, n_corners: int) -> bool {
    forall|k: int| 0 <= k < edges.len() ==> {
        let e = #[trigger] edges[k];
        &&& (e.d0 is Some || e.d1 is Some)
        &&& (e.v0 is Some || e.v1 is Some)
        &&& (e.d0 is Some ==> e.d0.unwrap() < n_centers)
        &&& (e.d1 is Some ==> e.d1.unwrap() < n_centers)
        &&& (e.v0 is Some ==> e.v0.unwrap() < n_corners)
        &&& (e.v1 is Some ==> e.v1.unwrap() < n_corners)
    }
}

/// Structural soundness of the whole adjacency graph.
pub open spec fn graph_wf(centers: Seq<Center>, corners: Seq<Corner>, edges: Seq<Edge>) -> bool {
    &&& centers_lists_wf(centers, centers.len() as int, corners.len() as int,
        edges.len() as int)
    &&& corners_lists_wf(corners, centers.len() as int, corners.len() as int,
        edges.len() as int)
    &&& edges_wf(edges, centers.len() as int, corners.len() as int)
}

/// The identifying fields of every cell are unchanged between two center
/// sequences: only adjacency lists may differ.
pub open spec fn centers_core_eq(a: Seq<Center>, b: Seq<Center>) -> bool {
    &&& a.len() == b.len()
    &&& forall|k: int| 0 <= k < a.len() ==> {
        &&& (#[trigger] a[k]).point == b[k].point
        &&& a[k].noise == b[k].noise
        &&& a[k].biome == b[k].biome
        &&& a[k].water == b[k].water
        &&& a[k].ocean == b[k].ocean
        &&& a[k].coast == b[k].coast
    }
}

/// Pushing a value larger than everything present keeps a list repetition
/// free.
proof fn lemma_push_fresh(s: Seq<usize>, v: usize)
    requires
        nodup(s),
        indices_below(s, v as int),
    ensures
        nodup(s.push(v)),
        forall|b: int| v < b && indices_below(s, b) ==> indices_below(s.push(v), b),
{
    assert forall|i: int, j: int| 0 <= i < j < s.push(v).len() implies s.push(v)[i]
        != s.push(v)[j] by {
        if j == s.len() {
            assert(s.push(v)[i] == s[i]);
        }
    }
}

/// First stored corner at exactly the given position, if any.
pub open spec fn spec_find_corner(corners: Seq<Corner>, point: Vec2, i: int) -> Option<int>
    decreases corners.len() - i,
{
    if i < 0 || i >= corners.len() {
        None
    } else if corners[i].point == point {
        Some(i)
    } else {
        spec_find_corner(corners, point, i + 1)
    }
}

/// A position that no stored corner holds is not found.
proof fn lemma_find_corner_none(corners: Seq<Corner>, point: Vec2, i: int)
    requires
        0 <= i,
        spec_find_corner(corners, point, i) is None,
    ensures
        forall|j: int| i <= j < corners.len() ==> (#[trigger] corners[j]).point != point,
    decreases corners.len() - i,
{
    if i < corners.len() {
        lemma_find_corner_none(corners, point, i + 1);
    }
}

/// No two stored corners hold the same position.
pub open spec fn corners_points_distinct(corners: Seq<Corner>) -> bool {
    forall|i: int, j: int| 0 <= i < j < corners.len()
        ==> (#[trigger] corners[i]).point != (#[trigger] corners[j]).point
}

/// Resolve or create the corner at a position, deduplicated by exact
/// position: an existing corner at the position is reused unchanged,
/// otherwise a fresh corner is appended.  Never stores the same position
/// twice.
pub fn make_corner(point: Vec2, corners: &mut Vec<Corner>) -> (r: usize)
    ensures
        r < final(corners)@.len(),
        final(corners)@[r as int].point == point,
        forall|k: int| 0 <= k < old(corners)@.len()
            ==> final(corners)@[k] == old(corners)@[k],
        match spec_find_corner(old(corners)@, point, 0) {
            Some(j) => r == j && final(corners)@ == old(corners)@,
            None => {
                &&& final(corners)@.len() == old(corners)@.len() + 1
                &&& r == old(corners)@.len()
                &&& final(corners)@[r as int].touches@.len() == 0
                &&& final(corners)@[r as int].protrudes@.len() == 0
                &&& final(corners)@[r as int].adjacent@.len() == 0
            },
        },
        corners_points_distinct(old(corners)@) ==> corners_points_distinct(final(corners)@),
{
    let mut i: usize = 0;
    let n: usize = corners.len();
    while i < n
        invariant
            i <= n,
            spec_find_corner(corners@, point, 0) == spec_find_corner(corners@, point,
                i as int),
        decreases n - i,
    {
        let p = corners[i].point;
        if p.x == point.x && p.z == point.z {
            proof {
                assert(corners@[i as int].point == point);
                assert(spec_find_corner(corners@, point, i as int) == Some(i as int));
            }
            return i;
        }
        proof {
            assert(corners@[i as int].point != point);
            assert(spec_find_corner(corners@, point, i as int)
                == spec_find_corner(corners@, point, i + 1));
        }
        i = i + 1;
    }
    proof {
        assert(spec_find_corner(corners@, point, n as int) is None);
        lemma_find_corner_none(corners@, point, 0);
    }
    let index: usize = corners.len();
    corners.push(Corner::new(point));
    proof {
        if corners_points_distinct(old(corners)@) {
            assert forall|a: int, b: int| 0 <= a < b < corners@.len() implies
                (#[trigger] corners@[a]).point != (#[trigger] corners@[b]).point by {
                if b == index {
                    assert(corners@[a] == old(corners)@[a]);
                }
            }
        }
    }
    index
}

/// Register the full bidirectional adjacency that one boundary edge
/// induces: centers point to edges, corners and each other; corners point
/// to edges, centers and each other.  Must run exactly once per unique
/// edge, before that edge is appended at position `index`.
pub fn make_centers_corners_for_edge(edge: &Edge, index: usize, centers: &mut Vec<Center>,
    corners: &mut Vec<Corner>)
    requires
        edge.d0 is Some ==> edge.d0.unwrap() < old(centers)@.len(),
        edge.d1 is Some ==> edge.d1.unwrap() < old(centers)@.len(),
        edge.v0 is Some ==> edge.v0.unwrap() < old(corners)@.len(),
        edge.v1 is Some ==> edge.v1.unwrap() < old(corners)@.len(),
        centers_lists_wf(old(centers)@, old(centers)@.len() as int,
            old(corners)@.len() as int, index as int),
        corners_lists_wf(old(corners)@, old(centers)@.len() as int,
            old(corners)@.len() as int, index as int),
        index < usize::MAX,
    ensures
        final(centers)@.len() == old(centers)@.len(),
        final(corners)@.len() == old(corners)@.len(),
        centers_core_eq(final(centers)@, old(centers)@),
        forall|k: int| 0 <= k < old(corners)@.len()
            ==> (#[trigger] final(corners)@[k]).point == old(corners)@[k].point,
        centers_lists_wf(final(centers)@, old(centers)@.len() as int,
            old(corners)@.len() as int, index as int + 1),
        corners_lists_wf(final(corners)@, old(centers)@.len() as int,
            old(corners)@.len() as int, index as int + 1),
        // Centers and corners point to the new edge: the borders and
        // protrudes lists of the edge's references gain its index, once.
        edge.d0 matches Some(d0) ==> final(centers)@[d0 as int].borders@
            == old(centers)@[d0 as int].borders@.push(index),
        edge.d1 matches Some(d1) ==> (edge.d0 != edge.d1 ==> final(centers)@[d1 as int]
            .borders@ == old(centers)@[d1 as int].borders@.push(index)),
        edge.v0 matches Some(v0) ==> final(corners)@[v0 as int].protrudes@
            == old(corners)@[v0 as int].protrudes@.push(index),
        edge.v1 matches Some(v1) ==> (edge.v0 != edge.v1 ==> final(corners)@[v1 as int]
            .protrudes@ == old(corners)@[v1 as int].protrudes@.push(index)),
        // Centers point to centers: the edge's two cells become neighbors.
        edge.d0 matches Some(d0) ==> (edge.d1 matches Some(d1) ==> (d0 != d1 ==> {
            &&& final(centers)@[d0 as int].neighbors@.contains(d1)
            &&& final(centers)@[d1 as int].neighbors@.contains(d0)
        })),
        // Corners point to corners: the edge's two endpoints become
        // adjacent (the dual-endpoint pairing is linked deliberately).
        edge.v0 matches Some(v0) ==> (edge.v1 matches Some(v1) ==> (v0 != v1 ==> {
            &&& final(corners)@[v0 as int].adjacent@.contains(v1)
            &&& final(corners)@[v1 as int].adjacent@.contains(v0)
        })),
        // Centers point to corners, and corners point to centers, for
        // every (cell, endpoint) pair of the edge.
        edge.d0 matches Some(d0) ==> (edge.v0 matches Some(v0) ==> {
            &&& final(centers)@[d0 as int].corners@.contains(v0)
            &&& final(corners)@[v0 as int].touches@.contains(d0)
        }),
        edge.d0 matches Some(d0) ==> (edge.v1 matches Some(v1) ==> {
            &&& final(centers)@[d0 as int].corners@.contains(v1)
            &&& final(corners)@[v1 as int].touches@.contains(d0)
        }),
        edge.d1 matches Some(d1) ==> (edge.v0 matches Some(v0) ==> {
            &&& final(centers)@[d1 as int].corners@.contains(v0)
            &&& final(corners)@[v0 as int].touches@.contains(d1)
        }),
        edge.d1 matches Some(d1) ==> (edge.v1 matches Some(v1) ==> {
            &&& final(centers)@[d1 as int].corners@.contains(v1)
            &&& final(corners)@[v1 as int].touches@.contains(d1)
        }),
{
    // Each referenced cell and corner is updated in one place, so the
    // linking runs exactly once per unique edge even when the edge's two
    // cell or corner references coincide.
    if let Some(d0) = edge.d0 {
        let nb: Option<usize> = if edge.d1.is_some() && edge.d1.unwrap() != d0 {
            Some(edge.d1.unwrap())
        } else {
            None
        };
        link_cell(centers, d0, index, nb, edge.v0, edge.v1,
            Ghost(old(corners)@.len() as int));
    }
    if edge.d1.is_some() && edge.d0 != edge.d1 {
        let d1 = edge.d1.unwrap();
        let nb: Option<usize> = edge.d0;
        link_cell(centers, d1, index, nb, edge.v0, edge.v1,
            Ghost(old(corners)@.len() as int));
    }
    if let Some(v0) = edge.v0 {
        let adj: Option<usize> = if edge.v1.is_some() && edge.v1.unwrap() != v0 {
            Some(edge.v1.unwrap())
        } else {
            None
        };
        link_corner(corners, v0, index, adj, edge.d0, edge.d1,
            Ghost(old(centers)@.len() as int));
    }
    if edge.v1.is_some() && edge.v0 != edge.v1 {
        let v1 = edge.v1.unwrap();
        let adj: Option<usize> = edge.v0;
        link_corner(corners, v1, index, adj, edge.d0, edge.d1,
            Ghost(old(centers)@.len() as int));
    }
}

/// Register one cell's share of an edge's adjacency: the edge index joins
/// its borders, the opposite cell (if distinct) its neighbors, and the
/// edge's corners its corner list.
#[verifier::rlimit(100)]
fn link_cell(centers: &mut Vec<Center>, i: usize, index: usize, neighbor: Option<usize>,
    v0: Option<usize>, v1: Option<usize>, Ghost(ncorn): Ghost<int>)
    requires
        i < old(centers)@.len(),
        index < usize::MAX,
        neighbor matches Some(nb) ==> nb < old(centers)@.len(),
        v0 matches Some(v) ==> v < ncorn,
        v1 matches Some(v) ==> v < ncorn,
        nodup(old(centers)@[i as int].neighbors@),
        indices_below(old(centers)@[i as int].neighbors@, old(centers)@.len() as int),
        nodup(old(centers)@[i as int].borders@),
        indices_below(old(centers)@[i as int].borders@, index as int),
        nodup(old(centers)@[i as int].corners@),
        indices_below(old(centers)@[i as int].corners@, ncorn),
    ensures
        final(centers)@.len() == old(centers)@.len(),
        forall|k: int| 0 <= k < old(centers)@.len() && k != i
            ==> final(centers)@[k] == old(centers)@[k],
        ({
            let oldc = old(centers)@[i as int];
            let newc = final(centers)@[i as int];
            &&& newc.point == oldc.point
            &&& newc.noise == oldc.noise
            &&& newc.biome == oldc.biome
            &&& newc.water == oldc.water
            &&& newc.ocean == oldc.ocean
            &&& newc.coast == oldc.coast
            &&& newc.borders@ == oldc.borders@.push(index)
            &&& (neighbor matches Some(nb) ==> newc.neighbors@.contains(nb))
            &&& (v0 matches Some(v) ==> newc.corners@.contains(v))
            &&& (v1 matches Some(v) ==> newc.corners@.contains(v))
            &&& nodup(newc.neighbors@)
            &&& indices_below(newc.neighbors@, old(centers)@.len() as int)
            &&& nodup(newc.borders@)
            &&& indices_below(newc.borders@, index as int + 1)
            &&& nodup(newc.corners@)
            &&& indices_below(newc.corners@, ncorn)
        }),
{
    proof {
        assert(!old(centers)@[i as int].borders@.contains(index)) by {
            assert forall|k: int| 0 <= k < old(centers)@[i as int].borders@.len() implies
                (#[trigger] old(centers)@[i as int].borders@[k]) != index by {
                assert(old(centers)@[i as int].borders@[k] < index);
            }
        };
    }
    let c: &mut Center = &mut centers[i];
    add_to_list(&mut c.borders, &Some(index));
    proof {
        assert(c.borders@ == old(centers)@[i as int].borders@.push(index));
    }
    add_to_list(&mut c.neighbors, &neighbor);
    add_to_list(&mut c.corners, &v0);
    add_to_list(&mut c.corners, &v1);
    proof {
        let oldc = old(centers)@[i as int];
        assert(c.point == oldc.point && c.noise == oldc.noise && c.biome == oldc.biome);
        assert(c.water == oldc.water && c.ocean == oldc.ocean && c.coast == oldc.coast);
        assert(c.borders@ == oldc.borders@.push(index));
        assert(neighbor matches Some(nb) ==> c.neighbors@.contains(nb));
        assert(v0 matches Some(v) ==> c.corners@.contains(v));
        assert(v1 matches Some(v) ==> c.corners@.contains(v));
        assert(nodup(c.neighbors@) && indices_below(c.neighbors@,
            old(centers)@.len() as int));
        assert(nodup(c.borders@) && indices_below(c.borders@, index as int + 1));
        assert(nodup(c.corners@) && indices_below(c.corners@, ncorn));
    }
}

/// Register one corner's share of an edge's adjacency: the edge index
/// joins its protrudes, the opposite corner (if distinct) its adjacent
/// list, and the edge's cells its touches.
#[verifier::rlimit(100)]
fn link_corner(corners: &mut Vec<Corner>, i: usize, index: usize, adjacent: Option<usize>,
    d0: Option<usize>, d1: Option<usize>, Ghost(nc): Ghost<int>)
    requires
        i < old(corners)@.len(),
        index < usize::MAX,
        adjacent matches Some(a) ==> a < old(corners)@.len(),
        d0 matches Some(d) ==> d < nc,
        d1 matches Some(d) ==> d < nc,
        nodup(old(corners)@[i as int].touches@),
        indices_below(old(corners)@[i as int].touches@, nc),
        nodup(old(corners)@[i as int].protrudes@),
        indices_below(old(corners)@[i as int].protrudes@, index as int),
        nodup(old(corners)@[i as int].adjacent@),
        indices_below(old(corners)@[i as int].adjacent@, old(corners)@.len() as int),
    ensures
        final(corners)@.len() == old(corners)@.len(),
        forall|k: int| 0 <= k < old(corners)@.len() && k != i
            ==> final(corners)@[k] == old(corners)@[k],
        ({
            let oldc = old(corners)@[i as int];
            let newc = final(corners)@[i as int];
            &&& newc.point == oldc.point
            &&& newc.protrudes@ == oldc.protrudes@.push(index)
            &&& (adjacent matches Some(a) ==> newc.adjacent@.contains(a))
            &&& (d0 matches Some(d) ==> newc.touches@.contains(d))
            &&& (d1 matches Some(d) ==> newc.touches@.contains(d))
            &&& nodup(newc.touches@)
            &&& indices_below(newc.touches@, nc)
            &&& nodup(newc.protrudes@)
            &&& indices_below(newc.protrudes@, index as int + 1)
            &&& nodup(newc.adjacent@)
            &&& indices_below(newc.adjacent@, old(corners)@.len() as int)
        }),
{
    proof {
        assert(!old(corners)@[i as int].protrudes@.contains(index)) by {
            assert forall|k: int| 0 <= k < old(corners)@[i as int].protrudes@.len() implies
                (#[trigger] old(corners)@[i as int].protrudes@[k]) != index by {
                assert(old(corners)@[i as int].protrudes@[k] < index);
            }
        };
    }
    let c: &mut Corner = &mut corners[i];
    add_to_list(&mut c.protrudes, &Some(index));
    proof {
        assert(c.protrudes@ == old(corners)@[i as int].protrudes@.push(index));
    }
    add_to_list(&mut c.adjacent, &adjacent);
    add_to_list(&mut c.touches, &d0);
    add_to_list(&mut c.touches, &d1);
    proof {
        let oldc = old(corners)@[i as int];
        assert(c.point == oldc.point);
        assert(c.protrudes@ == oldc.protrudes@.push(index));
        assert(adjacent matches Some(a) ==> c.adjacent@.contains(a));
        assert(d0 matches Some(d) ==> c.touches@.contains(d));
        assert(d1 matches Some(d) ==> c.touches@.contains(d));
        assert(nodup(c.touches@) && indices_below(c.touches@, nc));
        assert(nodup(c.protrudes@) && indices_below(c.protrudes@, index as int + 1));
        assert(nodup(c.adjacent@) && indices_below(c.adjacent@,
            old(corners)@.len() as int));
    }
}

/// Coordinate-difference bound for the exact geometric predicates.
pub const GEOM_DIFF: i64 = 0x8_0000;

/// Bound on corner coordinates after clamping.
pub const CORNER_COORD_MAX: i64 = 0x1000_0000_0000;

/// Whether `p` lies strictly inside the circumcircle of the triangle
/// `(a, b, c)`: the sign of the lifted determinant, corrected by the
/// triangle's orientation.
#[verifier::opaque]
pub open spec fn spec_in_circumcircle(a: Vec2, b: Vec2, c: Vec2, p: Vec2) -> bool {
    let adx = a.x - p.x;
    let adz = a.z - p.z;
    let bdx = b.x - p.x;
    let bdz = b.z - p.z;
    let cdx = c.x - p.x;
    let cdz = c.z - p.z;
    let ad2 = adx * adx + adz * adz;
    let bd2 = bdx * bdx + bdz * bdz;
    let cd2 = cdx * cdx + cdz * cdz;
    let det = adx * (bdz * cd2 - cdz * bd2) - adz * (bdx * cd2 - cdx * bd2)
        + ad2 * (bdx * cdz - cdx * bdz);
    let orient = (b.x - a.x) * (c.z - a.z) - (b.z - a.z) * (c.x - a.x);
    if orient > 0 {
        det > 0
    } else if orient < 0 {
        det < 0
    } else {
        false
    }
}

/// Whether `p` lies strictly inside the circumcircle of the triangle
/// `(a, b, c)`; exact integer arithmetic, orientation independent.
fn in_circumcircle(a: Vec2, b: Vec2, c: Vec2, p: Vec2) -> (r: bool)
    requires
        -GEOM_DIFF <= a.x - p.x <= GEOM_DIFF,
        -GEOM_DIFF <= a.z - p.z <= GEOM_DIFF,
        -GEOM_DIFF <= b.x - p.x <= GEOM_DIFF,
        -GEOM_DIFF <= b.z - p.z <= GEOM_DIFF,
        -GEOM_DIFF <= c.x - p.x <= GEOM_DIFF,
        -GEOM_DIFF <= c.z - p.z <= GEOM_DIFF,
    ensures
        r == spec_in_circumcircle(a, b, c, p),
{
    proof {
        reveal(spec_in_circumcircle);
    }
    let adx: i64 = a.x - p.x;
    let adz: i64 = a.z - p.z;
    let bdx: i64 = b.x - p.x;
    let bdz: i64 = b.z - p.z;
    let cdx: i64 = c.x - p.x;
    let cdz: i64 = c.z - p.z;
    proof {
        assert(0 <= adx * adx <= GEOM_DIFF as int * GEOM_DIFF
            && 0 <= adz * adz <= GEOM_DIFF as int * GEOM_DIFF
            && 0 <= bdx * bdx <= GEOM_DIFF as int * GEOM_DIFF
            && 0 <= bdz * bdz <= GEOM_DIFF as int * GEOM_DIFF
            && 0 <= cdx * cdx <= GEOM_DIFF as int * GEOM_DIFF
            && 0 <= cdz * cdz <= GEOM_DIFF as int * GEOM_DIFF) by (nonlinear_arith)
            requires
                -GEOM_DIFF <= adx <= GEOM_DIFF,
                -GEOM_DIFF <= adz <= GEOM_DIFF,
                -GEOM_DIFF <= bdx <= GEOM_DIFF,
                -GEOM_DIFF <= bdz <= GEOM_DIFF,
                -GEOM_DIFF <= cdx <= GEOM_DIFF,
                -GEOM_DIFF <= cdz <= GEOM_DIFF,
        {}
    }
    let ad2: i64 = adx * adx + adz * adz;
    let bd2: i64 = bdx * bdx + bdz * bdz;
    let cd2: i64 = cdx * cdx + cdz * cdz;
    proof {
        let big: int = 0x80_0000_0000_0000_0000;
        assert(-big <= bdz * cd2 <= big && -big <= cdz * bd2 <= big
            && -big <= bdx * cd2 <= big && -big <= cdx * bd2 <= big
            && -big <= bdx * cdz <= big && -big <= cdx * bdz <= big)
            by (nonlinear_arith)
            requires
                big == 0x80_0000_0000_0000_0000,
                -GEOM_DIFF <= bdx <= GEOM_DIFF,
                -GEOM_DIFF <= bdz <= GEOM_DIFF,
                -GEOM_DIFF <= cdx <= GEOM_DIFF,
                -GEOM_DIFF <= cdz <= GEOM_DIFF,
                0 <= bd2 <= 2 * (GEOM_DIFF as int) * GEOM_DIFF,
                0 <= cd2 <= 2 * (GEOM_DIFF as int) * GEOM_DIFF,
                GEOM_DIFF == 0x8_0000,
        {}
    }
    let m0: i128 = (bdz as i128) * (cd2 as i128) - (cdz as i128) * (bd2 as i128);
    let m1: i128 = (bdx as i128) * (cd2 as i128) - (cdx as i128) * (bd2 as i128);
    let m2: i128 = (bdx as i128) * (cdz as i128) - (cdx as i128) * (bdz as i128);
    proof {
        lemma_abs_mul_le(adx as int, m0 as int, GEOM_DIFF as int, 0x100_0000_0000_0000_0000);
        lemma_abs_mul_le(adz as int, m1 as int, GEOM_DIFF as int, 0x100_0000_0000_0000_0000);
        lemma_abs_mul_le(ad2 as int, m2 as int, 2 * (GEOM_DIFF as int) * GEOM_DIFF,
            0x100_0000_0000_0000_0000);
    }
    let det: i128 = (adx as i128) * m0 - (adz as i128) * m1 + (ad2 as i128) * m2;
    proof {
        lemma_abs_mul_le((b.x - a.x) as int, (c.z - a.z) as int, 2 * (GEOM_DIFF as int),
            2 * (GEOM_DIFF as int));
        lemma_abs_mul_le((b.z - a.z) as int, (c.x - a.x) as int, 2 * (GEOM_DIFF as int),
            2 * (GEOM_DIFF as int));
    }
    let orient: i64 = (b.x - a.x) * (c.z - a.z) - (b.z - a.z) * (c.x - a.x);
    if orient > 0 {
        det > 0
    } else if orient < 0 {
        det < 0
    } else {
        false
    }
}

/// Floor division by a nonzero divisor of either sign: the quotient is
/// floored toward the divisor's sign convention below.
pub open spec fn spec_div_any(a: int, b: int) -> int {
    if b > 0 {
        fdiv(a, b)
    } else {
        fdiv(-a, -b)
    }
}

/// Floor division by a nonzero divisor of either sign.
fn div_floor_any(a: i64, b: i64) -> (r: i64)
    requires
        b != 0,
        -0x4000_0000_0000_0000 < a < 0x4000_0000_0000_0000,
        -0x4000_0000_0000_0000 < b < 0x4000_0000_0000_0000,
    ensures
        r == spec_div_any(a as int, b as int),
{
    if b > 0 {
        div_floor(a, b)
    } else {
        div_floor(-a, -b)
    }
}

/// The circumcenter of a triangle, rounded to fixed point and clamped into
/// the safe coordinate box; a central point for degenerate triangles.
#[verifier::opaque]
pub open spec fn spec_circumcenter(a: Vec2, b: Vec2, c: Vec2) -> Vec2 {
    let bx = b.x - a.x;
    let bz = b.z - a.z;
    let cx = c.x - a.x;
    let cz = c.z - a.z;
    let d = 2 * (bx * cz - bz * cx);
    if d == 0 {
        Vec2 {
            x: crate::fixed::spec_clamp(a.x + fdiv(bx + cx, 3), -CORNER_COORD_MAX as int,
                CORNER_COORD_MAX as int) as i64,
            z: crate::fixed::spec_clamp(a.z + fdiv(bz + cz, 3), -CORNER_COORD_MAX as int,
                CORNER_COORD_MAX as int) as i64,
        }
    } else {
        let b2 = bx * bx + bz * bz;
        let c2 = cx * cx + cz * cz;
        let ux = crate::fixed::spec_clamp(spec_div_any(cz * b2 - bz * c2, d),
            -CORNER_COORD_MAX as int / 2, CORNER_COORD_MAX as int / 2);
        let uz = crate::fixed::spec_clamp(spec_div_any(bx * c2 - cx * b2, d),
            -CORNER_COORD_MAX as int / 2, CORNER_COORD_MAX as int / 2);
        Vec2 {
            x: crate::fixed::spec_clamp(a.x + ux, -CORNER_COORD_MAX as int,
                CORNER_COORD_MAX as int) as i64,
            z: crate::fixed::spec_clamp(a.z + uz, -CORNER_COORD_MAX as int,
                CORNER_COORD_MAX as int) as i64,
        }
    }
}

/// The circumcenter of a triangle of nearby sites, clamped into a safe
/// coordinate box; for degenerate (collinear) sites, a central point.
fn circumcenter(a: Vec2, b: Vec2, c: Vec2) -> (r: Vec2)
    requires
        -GEOM_DIFF <= b.x - a.x <= GEOM_DIFF,
        -GEOM_DIFF <= b.z - a.z <= GEOM_DIFF,
        -GEOM_DIFF <= c.x - a.x <= GEOM_DIFF,
        -GEOM_DIFF <= c.z - a.z <= GEOM_DIFF,
        -0x4000_0000_0000 <= a.x <= 0x4000_0000_0000,
        -0x4000_0000_0000 <= a.z <= 0x4000_0000_0000,
    ensures
        r == spec_circumcenter(a, b, c),
        -CORNER_COORD_MAX <= r.x <= CORNER_COORD_MAX,
        -CORNER_COORD_MAX <= r.z <= CORNER_COORD_MAX,
{
    proof {
        reveal(spec_circumcenter);
    }
    let bx: i64 = b.x - a.x;
    let bz: i64 = b.z - a.z;
    let cx: i64 = c.x - a.x;
    let cz: i64 = c.z - a.z;
    proof {
        assert(-(GEOM_DIFF as int) * GEOM_DIFF <= bx * cz <= GEOM_DIFF as int * GEOM_DIFF
            && -(GEOM_DIFF as int) * GEOM_DIFF <= bz * cx <= GEOM_DIFF as int * GEOM_DIFF
            && 0 <= bx * bx <= GEOM_DIFF as int * GEOM_DIFF
            && 0 <= bz * bz <= GEOM_DIFF as int * GEOM_DIFF
            && 0 <= cx * cx <= GEOM_DIFF as int * GEOM_DIFF
            && 0 <= cz * cz <= GEOM_DIFF as int * GEOM_DIFF)
            by (nonlinear_arith)
            requires
                -GEOM_DIFF <= bx <= GEOM_DIFF,
                -GEOM_DIFF <= bz <= GEOM_DIFF,
                -GEOM_DIFF <= cx <= GEOM_DIFF,
                -GEOM_DIFF <= cz <= GEOM_DIFF,
        {}
    }
    let d: i64 = 2 * (bx * cz - bz * cx);
    if d == 0 {
        let mx: i64 = a.x + div_floor(bx + cx, 3);
        let mz: i64 = a.z + div_floor(bz + cz, 3);
        proof {
            lemma_fdiv_bounds((bx + cx) as int, 3, -2 * (GEOM_DIFF as int),
                2 * (GEOM_DIFF as int));
            lemma_fdiv_bounds((bz + cz) as int, 3, -2 * (GEOM_DIFF as int),
                2 * (GEOM_DIFF as int));
        }
        Vec2 { x: clamp_box(mx), z: clamp_box(mz) }
    } else {
        let b2: i64 = bx * bx + bz * bz;
        let c2: i64 = cx * cx + cz * cz;
        proof {
            let big: int = 0x1000_0000_0000_0000;
            assert(-big <= cz * b2 <= big && -big <= bz * c2 <= big && -big <= bx * c2 <= big
                && -big <= cx * b2 <= big) by (nonlinear_arith)
                requires
                    big == 0x1000_0000_0000_0000,
                    -GEOM_DIFF <= bx <= GEOM_DIFF,
                    -GEOM_DIFF <= bz <= GEOM_DIFF,
                    -GEOM_DIFF <= cx <= GEOM_DIFF,
                    -GEOM_DIFF <= cz <= GEOM_DIFF,
                    0 <= b2 <= 2 * (GEOM_DIFF as int) * GEOM_DIFF,
                    0 <= c2 <= 2 * (GEOM_DIFF as int) * GEOM_DIFF,
                    GEOM_DIFF == 0x8_0000,
            {}
        }
        let ux_num: i64 = cz * b2 - bz * c2;
        let uz_num: i64 = bx * c2 - cx * b2;
        let ux: i64 = clamp_half_box(div_floor_any(ux_num, d));
        let uz: i64 = clamp_half_box(div_floor_any(uz_num, d));
        Vec2 { x: clamp_box(a.x + ux), z: clamp_box(a.z + uz) }
    }
}

/// Clamp into the corner coordinate box.
fn clamp_box(v: i64) -> (r: i64)
    ensures
        r == crate::fixed::spec_clamp(v as int, -CORNER_COORD_MAX as int,
            CORNER_COORD_MAX as int),
        -CORNER_COORD_MAX <= r <= CORNER_COORD_MAX,
{
    if v < -CORNER_COORD_MAX {
        -CORNER_COORD_MAX
    } else if v > CORNER_COORD_MAX {
        CORNER_COORD_MAX
    } else {
        v
    }
}

/// Clamp into half the corner coordinate box.
fn clamp_half_box(v: i64) -> (r: i64)
    ensures
        r == crate::fixed::spec_clamp(v as int, -CORNER_COORD_MAX as int / 2,
            CORNER_COORD_MAX as int / 2),
        -CORNER_COORD_MAX / 2 <= r <= CORNER_COORD_MAX / 2,
{
    if v < -(CORNER_COORD_MAX / 2) {
        -(CORNER_COORD_MAX / 2)
    } else if v > CORNER_COORD_MAX / 2 {
        CORNER_COORD_MAX / 2
    } else {
        v
    }
}


/// First position in a point list equal to `p`, if any.
pub open spec fn spec_find_pt(pts: Seq<Vec2>, p: Vec2, i: int) -> Option<int>
    decreases pts.len() - i,
{
    if i < 0 || i >= pts.len() {
        None
    } else if pts[i] == p {
        Some(i)
    } else {
        spec_find_pt(pts, p, i + 1)
    }
}

/// Corner search agrees with position search over the corners' points.
proof fn lemma_find_corner_pt(corners: Seq<Corner>, p: Vec2, i: int)
    requires
        0 <= i,
    ensures
        spec_find_corner(corners, p, i) == spec_find_pt(
            corners.map_values(|c: Corner| c.point), p, i),
    decreases corners.len() - i,
{
    if i < corners.len() {
        lemma_find_corner_pt(corners, p, i + 1);
    }
}

/// The index of the site at grid coordinates `(gx, gz)` of a chunk's
/// partition.
pub open spec fn spec_site_at(jseed: u32, cpos: ChunkPos, gx: int, gz: int) -> int {
    spec_sites(jseed, cpos, SITE_COUNT as int).1[gx * 5 + gz]
}

/// The position of the site at grid coordinates `(gx, gz)`.
pub open spec fn spec_site_pt(jseed: u32, cpos: ChunkPos, gx: int, gz: int) -> Vec2 {
    spec_sites(jseed, cpos, SITE_COUNT as int).0[spec_site_at(jseed, cpos, gx, gz)]
}

/// Whether cell `ci` (row-major in the 4-by-4 cell grid) splits along its
/// main diagonal: true when the opposite corner lies outside the
/// circumcircle of the main-diagonal triangle.
#[verifier::opaque]
pub open spec fn spec_cell_diag(jseed: u32, cpos: ChunkPos, ci: int) -> bool {
    let gx = ci / 4;
    let gz = ci % 4;
    !spec_in_circumcircle(spec_site_pt(jseed, cpos, gx, gz),
        spec_site_pt(jseed, cpos, gx + 1, gz), spec_site_pt(jseed, cpos, gx + 1, gz + 1),
        spec_site_pt(jseed, cpos, gx, gz + 1))
}

/// The two circumcenters cell `ci` contributes, in creation order.
#[verifier::opaque]
pub open spec fn spec_cell_corner_pts(jseed: u32, cpos: ChunkPos, ci: int) -> (Vec2, Vec2) {
    let gx = ci / 4;
    let gz = ci % 4;
    let pa = spec_site_pt(jseed, cpos, gx, gz);
    let pb = spec_site_pt(jseed, cpos, gx + 1, gz);
    let pc = spec_site_pt(jseed, cpos, gx, gz + 1);
    let pd = spec_site_pt(jseed, cpos, gx + 1, gz + 1);
    if spec_cell_diag(jseed, cpos, ci) {
        (spec_circumcenter(pa, pb, pd), spec_circumcenter(pa, pd, pc))
    } else {
        (spec_circumcenter(pa, pb, pc), spec_circumcenter(pb, pd, pc))
    }
}

/// Corner positions and per-cell corner indices after processing the first
/// `ci` cells, deduplicated by exact position.
#[verifier::opaque]
pub open spec fn spec_corner_fold(jseed: u32, cpos: ChunkPos, ci: int)
    -> (Seq<Vec2>, Seq<int>, Seq<int>)
    decreases ci,
{
    if ci <= 0 {
        (Seq::empty(), Seq::empty(), Seq::empty())
    } else {
        let prev = spec_corner_fold(jseed, cpos, ci - 1);
        let pair = spec_cell_corner_pts(jseed, cpos, ci - 1);
        let step1 = match spec_find_pt(prev.0, pair.0, 0) {
            Some(j) => (prev.0, j),
            None => (prev.0.push(pair.0), prev.0.len() as int),
        };
        let step2 = match spec_find_pt(step1.0, pair.1, 0) {
            Some(j) => (step1.0, j),
            None => (step1.0.push(pair.1), step1.0.len() as int),
        };
        (step2.0, prev.1.push(step1.1), prev.2.push(step2.1))
    }
}

/// Lengths and index ranges of the corner fold.
pub proof fn lemma_corner_fold_len(jseed: u32, cpos: ChunkPos, ci: int)
    requires
        ci >= 0,
    ensures
        spec_corner_fold(jseed, cpos, ci).1.len() == ci,
        spec_corner_fold(jseed, cpos, ci).2.len() == ci,
        spec_corner_fold(jseed, cpos, ci).0.len() <= 2 * ci,
        forall|k: int| 0 <= k < ci ==> 0 <= #[trigger] spec_corner_fold(jseed, cpos,
            ci).1[k] < spec_corner_fold(jseed, cpos, ci).0.len(),
        forall|k: int| 0 <= k < ci ==> 0 <= #[trigger] spec_corner_fold(jseed, cpos,
            ci).2[k] < spec_corner_fold(jseed, cpos, ci).0.len(),
    decreases ci,
{
    reveal(spec_corner_fold);
    if ci > 0 {
        lemma_corner_fold_len(jseed, cpos, ci - 1);
        let prev = spec_corner_fold(jseed, cpos, ci - 1);
        let pair = spec_cell_corner_pts(jseed, cpos, ci - 1);
        match spec_find_pt(prev.0, pair.0, 0) {
            Some(j) => {
                lemma_find_pt_props(prev.0, pair.0, 0, j);
            },
            None => {},
        }
        let step1 = match spec_find_pt(prev.0, pair.0, 0) {
            Some(j) => (prev.0, j),
            None => (prev.0.push(pair.0), prev.0.len() as int),
        };
        match spec_find_pt(step1.0, pair.1, 0) {
            Some(j) => {
                lemma_find_pt_props(step1.0, pair.1, 0, j);
            },
            None => {},
        }
        let step2 = match spec_find_pt(step1.0, pair.1, 0) {
            Some(j) => (step1.0, j),
            None => (step1.0.push(pair.1), step1.0.len() as int),
        };
        let cur = spec_corner_fold(jseed, cpos, ci);
        assert(cur.0 == step2.0);
        assert(cur.1 == prev.1.push(step1.1));
        assert(cur.2 == prev.2.push(step2.1));
        assert(0 <= step1.1 < step1.0.len());
        assert(step1.0.len() <= step2.0.len());
        assert(0 <= step2.1 < step2.0.len());
        assert forall|k: int| 0 <= k < ci implies 0 <= #[trigger] spec_corner_fold(jseed,
            cpos, ci).1[k] < spec_corner_fold(jseed, cpos, ci).0.len() by {
            if k < ci - 1 {
                assert(cur.1[k] == prev.1[k]);
                assert(0 <= prev.1[k] < prev.0.len());
                assert(prev.0.len() <= cur.0.len());
            } else {
                assert(k == ci - 1);
            }
        }
        assert forall|k: int| 0 <= k < ci implies 0 <= #[trigger] spec_corner_fold(jseed,
            cpos, ci).2[k] < spec_corner_fold(jseed, cpos, ci).0.len() by {
            if k < ci - 1 {
                assert(cur.2[k] == prev.2[k]);
                assert(0 <= prev.2[k] < prev.0.len());
                assert(prev.0.len() <= cur.0.len());
            } else {
                assert(k == ci - 1);
            }
        }
    }
}

/// What a successful position search means.
proof fn lemma_find_pt_props(pts: Seq<Vec2>, p: Vec2, i: int, j: int)
    requires
        spec_find_pt(pts, p, i) == Some(j),
        0 <= i,
    ensures
        i <= j < pts.len(),
        pts[j] == p,
    decreases pts.len() - i,
{
    if i < pts.len() && pts[i] != p {
        lemma_find_pt_props(pts, p, i + 1, j);
    }
}

/// The edge record joining cells `d0` and `d1` across the corner positions
/// `v0` and `v1` of a point list.
pub open spec fn spec_mk_edge(pts: Seq<Vec2>, d0: int, d1: int, v0: int, v1: int) -> Edge {
    Edge {
        d0: Some(d0 as usize),
        d1: Some(d1 as usize),
        v0: Some(v0 as usize),
        v1: Some(v1 as usize),
        midpoint: Vec2 {
            x: fdiv(pts[v0].x + pts[v1].x, 2) as i64,
            z: fdiv(pts[v0].z + pts[v1].z, 2) as i64,
        },
    }
}

/// The record of edge `k` of a chunk's partition: the 16 cells contribute
/// their chosen diagonal first, then the 12 interior vertical and the 12
/// interior horizontal site edges, in row-major order.
#[verifier::opaque]
pub open spec fn spec_edge_at(jseed: u32, cpos: ChunkPos, k: int) -> Edge {
    let fold = spec_corner_fold(jseed, cpos, 16);
    if k < 16 {
        let gx = k / 4;
        let gz = k % 4;
        if spec_cell_diag(jseed, cpos, k) {
            spec_mk_edge(fold.0, spec_site_at(jseed, cpos, gx, gz),
                spec_site_at(jseed, cpos, gx + 1, gz + 1), fold.1[k], fold.2[k])
        } else {
            spec_mk_edge(fold.0, spec_site_at(jseed, cpos, gx + 1, gz),
                spec_site_at(jseed, cpos, gx, gz + 1), fold.1[k], fold.2[k])
        }
    } else if k < 28 {
        let vi = k - 16;
        let gx = vi / 4 + 1;
        let gz = vi % 4;
        let ci_l = (gx - 1) * 4 + gz;
        let ci_r = gx * 4 + gz;
        let v0 = if spec_cell_diag(jseed, cpos, ci_l) { fold.1[ci_l] } else { fold.2[ci_l] };
        let v1 = if spec_cell_diag(jseed, cpos, ci_r) { fold.2[ci_r] } else { fold.1[ci_r] };
        spec_mk_edge(fold.0, spec_site_at(jseed, cpos, gx, gz),
            spec_site_at(jseed, cpos, gx, gz + 1), v0, v1)
    } else {
        let hi = k - 28;
        let gz = hi / 4 + 1;
        let gx = hi % 4;
        spec_mk_edge(fold.0, spec_site_at(jseed, cpos, gx, gz),
            spec_site_at(jseed, cpos, gx + 1, gz), fold.2[gx * 4 + (gz - 1)],
            fold.1[gx * 4 + gz])
    }
}

/// All corner positions lie within the safe coordinate box.
pub open spec fn corners_box(corners: Seq<Corner>) -> bool {
    forall|k: int| 0 <= k < corners.len() ==> {
        &&& -CORNER_COORD_MAX <= (#[trigger] corners[k]).point.x <= CORNER_COORD_MAX
        &&& -CORNER_COORD_MAX <= corners[k].point.z <= CORNER_COORD_MAX
    }
}

/// The edge record that joins two cells across two corners: all four
/// references set, the midpoint halfway between the two corner positions.
pub open spec fn spec_edge_between(corners: Seq<Corner>, d0: usize, d1: usize, v0: usize,
    v1: usize) -> Edge {
    Edge {
        d0: Some(d0),
        d1: Some(d1),
        v0: Some(v0),
        v1: Some(v1),
        midpoint: Vec2 {
            x: fdiv(corners[v0 as int].point.x + corners[v1 as int].point.x, 2) as i64,
            z: fdiv(corners[v0 as int].point.z + corners[v1 as int].point.z, 2) as i64,
        },
    }
}

/// Every edge keeps all four of its references, with the midpoint of its
/// two corners cached.
pub open spec fn edges_complete(edges: Seq<Edge>, corners: Seq<Corner>) -> bool {
    forall|k: int| 0 <= k < edges.len() ==> {
        let e = #[trigger] edges[k];
        &&& e.d0 is Some && e.d1 is Some && e.v0 is Some && e.v1 is Some
        &&& e.v0.unwrap() < corners.len() && e.v1.unwrap() < corners.len()
        &&& e == spec_edge_between(corners, e.d0.unwrap(), e.d1.unwrap(), e.v0.unwrap(),
            e.v1.unwrap())
    }
}

/// Edge completeness only reads corner positions, so it transfers between
/// corner sequences whose positions agree.
proof fn lemma_edges_complete_step(edges: Seq<Edge>, a: Seq<Corner>, b: Seq<Corner>)
    requires
        a.len() == b.len(),
        forall|k: int| 0 <= k < a.len() ==> (#[trigger] a[k]).point == b[k].point,
        edges_complete(edges, a) || edges.len() >= 1 && edges_complete(edges.drop_last(), a)
            && edges.last().v0 is Some && edges.last().v1 is Some
            && edges.last().v0.unwrap() < a.len() && edges.last().v1.unwrap() < a.len()
            && edges.last().d0 is Some && edges.last().d1 is Some
            && edges.last() == spec_edge_between(a, edges.last().d0.unwrap(),
                edges.last().d1.unwrap(), edges.last().v0.unwrap(),
                edges.last().v1.unwrap()),
    ensures
        edges_complete(edges, b),
{
    assert forall|k: int| 0 <= k < edges.len() implies {
        let e = #[trigger] edges[k];
        &&& e.d0 is Some && e.d1 is Some && e.v0 is Some && e.v1 is Some
        &&& e.v0.unwrap() < b.len() && e.v1.unwrap() < b.len()
        &&& e == spec_edge_between(b, e.d0.unwrap(), e.d1.unwrap(), e.v0.unwrap(),
            e.v1.unwrap())
    } by {
        let e = edges[k];
        if edges_complete(edges, a) {
            assert(e == spec_edge_between(a, e.d0.unwrap(), e.d1.unwrap(), e.v0.unwrap(),
                e.v1.unwrap()));
        } else if k < edges.len() - 1 {
            assert(edges.drop_last()[k] == e);
            assert(e == spec_edge_between(a, e.d0.unwrap(), e.d1.unwrap(), e.v0.unwrap(),
                e.v1.unwrap()));
        } else {
            assert(e == edges.last());
        }
        assert(spec_edge_between(a, e.d0.unwrap(), e.d1.unwrap(), e.v0.unwrap(),
            e.v1.unwrap()) == spec_edge_between(b, e.d0.unwrap(), e.d1.unwrap(),
            e.v0.unwrap(), e.v1.unwrap()));
    }
}

/// Create the boundary edge between two cells, register its adjacency in
/// all directions, and append it.
fn push_edge(centers: &mut Vec<Center>, corners: &mut Vec<Corner>, edges: &mut Vec<Edge>,
    d0: usize, d1: usize, v0: usize, v1: usize)
    requires
        d0 < old(centers)@.len(),
        d1 < old(centers)@.len(),
        v0 < old(corners)@.len(),
        v1 < old(corners)@.len(),
        centers_lists_wf(old(centers)@, old(centers)@.len() as int, old(corners)@.len() as int,
            old(edges)@.len() as int),
        corners_lists_wf(old(corners)@, old(centers)@.len() as int, old(corners)@.len() as int,
            old(edges)@.len() as int),
        edges_wf(old(edges)@, old(centers)@.len() as int, old(corners)@.len() as int),
        corners_box(old(corners)@),
        old(edges)@.len() < 0x1000_0000,
    ensures
        final(centers)@.len() == old(centers)@.len(),
        final(corners)@.len() == old(corners)@.len(),
        final(edges)@.len() == old(edges)@.len() + 1,
        centers_core_eq(final(centers)@, old(centers)@),
        forall|k: int| 0 <= k < old(corners)@.len()
            ==> (#[trigger] final(corners)@[k]).point == old(corners)@[k].point,
        centers_lists_wf(final(centers)@, old(centers)@.len() as int,
            old(corners)@.len() as int, final(edges)@.len() as int),
        corners_lists_wf(final(corners)@, old(centers)@.len() as int,
            old(corners)@.len() as int, final(edges)@.len() as int),
        edges_wf(final(edges)@, old(centers)@.len() as int, old(corners)@.len() as int),
        corners_box(final(corners)@),
        final(edges)@ == old(edges)@.push(spec_edge_between(old(corners)@, d0, d1, v0, v1)),
{
    let p0: Vec2 = corners[v0].point;
    let p1: Vec2 = corners[v1].point;
    let midpoint = Vec2 {
        x: div_floor(p0.x + p1.x, 2),
        z: div_floor(p0.z + p1.z, 2),
    };
    let e = Edge { d0: Some(d0), d1: Some(d1), v0: Some(v0), v1: Some(v1), midpoint };
    let index: usize = edges.len();
    make_centers_corners_for_edge(&e, index, centers, corners);
    edges.push(e);
}

/// Build the full local partition of a chunk: jittered sites, their
/// triangulation by the empty-circumcircle criterion, the dual Voronoi
/// corners and edges, and bidirectional adjacency, linked exactly once per
/// unique edge.
#[verifier::rlimit(100)]
pub fn build_partition(jseed: u32, noises: &Noises, cpos: ChunkPos) -> (p: Partition)
    requires
        noises.wf(),
        cpos.wf(),
    ensures
        centers_core_sites(p.centers@, jseed, *noises, cpos),
        centers_in_box(p.centers@, cpos),
        graph_wf(p.centers@, p.corners@, p.edges@),
        p.centers@.len() >= 1,
        p.edges@.len() == 40,
        1 <= p.corners@.len() <= 32,
        edges_complete(p.edges@, p.corners@),
        corners_points_distinct(p.corners@),
        p.corners@.map_values(|c: Corner| c.point) == spec_corner_fold(jseed, cpos, 16).0,
        forall|k: int| 0 <= k < 40 ==> #[trigger] p.edges@[k] == spec_edge_at(jseed, cpos,
            k),
{
    let mc = make_centers(jseed, noises, cpos);
    let mut centers: Vec<Center> = mc.0;
    let site_map: Vec<usize> = mc.1;
    let ghost centers0 = centers@;
    let nc: usize = centers.len();
    let mut corners: Vec<Corner> = Vec::new();
    let mut cell_diag: Vec<bool> = Vec::new();
    let mut cell_c1: Vec<usize> = Vec::new();
    let mut cell_c2: Vec<usize> = Vec::new();
    let ghost ccx: int = (cpos.x * CHUNK_DIM + CHUNK_DIM / 2) * FP_ONE;
    let ghost ccz: int = (cpos.z * CHUNK_DIM + CHUNK_DIM / 2) * FP_ONE;
    proof {
        reveal(spec_corner_fold);
        assert(corners@.map_values(|c: Corner| c.point)
            =~= spec_corner_fold(jseed, cpos, 0).0);
    }
    let mut ci: usize = 0;
    while ci < 16
        invariant
            ci <= 16,
            centers@ == centers0,
            nc == centers@.len(),
            cell_diag@.len() == ci,
            cell_c1@.len() == ci,
            cell_c2@.len() == ci,
            indices_below(cell_c1@, corners@.len() as int),
            indices_below(cell_c2@, corners@.len() as int),
            forall|k: int| 0 <= k < corners@.len() ==> {
                let c = #[trigger] corners@[k];
                c.touches@.len() == 0 && c.protrudes@.len() == 0 && c.adjacent@.len() == 0
            },
            corners_box(corners@),
            corners@.len() <= 2 * ci,
            ci >= 1 ==> corners@.len() >= 1,
            corners_points_distinct(corners@),
            corners@.map_values(|c: Corner| c.point)
                == spec_corner_fold(jseed, cpos, ci as int).0,
            forall|k: int| 0 <= k < ci ==> (#[trigger] cell_c1@[k]) as int
                == spec_corner_fold(jseed, cpos, ci as int).1[k],
            forall|k: int| 0 <= k < ci ==> (#[trigger] cell_c2@[k]) as int
                == spec_corner_fold(jseed, cpos, ci as int).2[k],
            forall|k: int| 0 <= k < ci
                ==> (#[trigger] cell_diag@[k]) == spec_cell_diag(jseed, cpos, k),
        decreases 16 - ci,
    {
        let gx: usize = ci / 4;
        let gz: usize = ci % 4;
        let sa: usize = site_map[gx * 5 + gz];
        let sb: usize = site_map[(gx + 1) * 5 + gz];
        let sc: usize = site_map[gx * 5 + gz + 1];
        let sd: usize = site_map[(gx + 1) * 5 + gz + 1];
        let pa: Vec2 = centers[sa].point;
        let pb: Vec2 = centers[sb].point;
        let pc: Vec2 = centers[sc].point;
        let pd: Vec2 = centers[sd].point;
        proof {
            assert(-CENTER_BOX <= centers@[sa as int].point.x - ccx <= CENTER_BOX);
            assert(-CENTER_BOX <= centers@[sb as int].point.x - ccx <= CENTER_BOX);
            assert(-CENTER_BOX <= centers@[sc as int].point.x - ccx <= CENTER_BOX);
            assert(-CENTER_BOX <= centers@[sd as int].point.x - ccx <= CENTER_BOX);
        }
        proof {
            lemma_sites_len(jseed, cpos, SITE_COUNT as int);
            assert(sa as int == spec_site_at(jseed, cpos, gx as int, gz as int));
            assert(sb as int == spec_site_at(jseed, cpos, gx as int + 1, gz as int));
            assert(sc as int == spec_site_at(jseed, cpos, gx as int, gz as int + 1));
            assert(sd as int == spec_site_at(jseed, cpos, gx as int + 1, gz as int + 1));
            assert(pa == spec_site_pt(jseed, cpos, gx as int, gz as int));
            assert(pb == spec_site_pt(jseed, cpos, gx as int + 1, gz as int));
            assert(pc == spec_site_pt(jseed, cpos, gx as int, gz as int + 1));
            assert(pd == spec_site_pt(jseed, cpos, gx as int + 1, gz as int + 1));
        }
        let diag_ad: bool = !in_circumcircle(pa, pb, pd, pc);
        proof {
            reveal(spec_cell_diag);
            assert(diag_ad == spec_cell_diag(jseed, cpos, ci as int));
        }
        let o1: Vec2 = if diag_ad {
            circumcenter(pa, pb, pd)
        } else {
            circumcenter(pa, pb, pc)
        };
        let o2: Vec2 = if diag_ad {
            circumcenter(pa, pd, pc)
        } else {
            circumcenter(pb, pd, pc)
        };
        proof {
            reveal(spec_cell_corner_pts);
            assert((o1, o2) == spec_cell_corner_pts(jseed, cpos, ci as int));
        }
        let ghost pre_cs = corners@;
        let ghost pre_pts = corners@.map_values(|c: Corner| c.point);
        let c1: usize = make_corner(o1, &mut corners);
        let ghost mid_cs = corners@;
        let ghost mid_pts = corners@.map_values(|c: Corner| c.point);
        proof {
            lemma_find_corner_pt(pre_cs, o1, 0);
            match spec_find_pt(pre_pts, o1, 0) {
                Some(j) => {
                    assert(mid_pts =~= pre_pts);
                },
                None => {
                    assert(mid_pts =~= pre_pts.push(o1));
                },
            }
        }
        let c2: usize = make_corner(o2, &mut corners);
        proof {
            lemma_find_corner_pt(mid_cs, o2, 0);
            let ghost end_pts = corners@.map_values(|c: Corner| c.point);
            match spec_find_pt(mid_pts, o2, 0) {
                Some(j) => {
                    assert(end_pts =~= mid_pts);
                },
                None => {
                    assert(end_pts =~= mid_pts.push(o2));
                },
            }
            assert(c1 < corners@.len());
            assert(c2 < corners@.len());
        }
        let ghost old_c1 = cell_c1@;
        let ghost old_c2 = cell_c2@;
        let ghost old_corners_len = corners@.len();
        cell_diag.push(diag_ad);
        cell_c1.push(c1);
        cell_c2.push(c2);
        proof {
            assert forall|k: int| 0 <= k < cell_c1@.len() implies (#[trigger] cell_c1@[k])
                < corners@.len() by {
                if k < old_c1.len() {
                    assert(cell_c1@[k] == old_c1[k]);
                }
            }
            assert forall|k: int| 0 <= k < cell_c2@.len() implies (#[trigger] cell_c2@[k])
                < corners@.len() by {
                if k < old_c2.len() {
                    assert(cell_c2@[k] == old_c2[k]);
                }
            }
            // One fold step: the new corners and per-cell indices match.
            reveal(spec_corner_fold);
            lemma_corner_fold_len(jseed, cpos, ci as int);
            lemma_corner_fold_len(jseed, cpos, ci as int + 1);
            let prevf = spec_corner_fold(jseed, cpos, ci as int);
            let fold1 = spec_corner_fold(jseed, cpos, ci as int + 1);
            assert(spec_corner_fold(jseed, cpos, (ci as int + 1) - 1) == prevf);
            assert(prevf.0 == pre_pts);
            assert(fold1.0 == corners@.map_values(|c: Corner| c.point));
            assert(fold1.1 == prevf.1.push(c1 as int));
            assert(fold1.2 == prevf.2.push(c2 as int));
            assert forall|k: int| 0 <= k < ci + 1 implies (#[trigger] cell_c1@[k]) as int
                == fold1.1[k] && (#[trigger] cell_c2@[k]) as int == fold1.2[k] by {
                if k < ci {
                    assert(cell_c1@[k] == old_c1[k]);
                    assert(cell_c2@[k] == old_c2[k]);
                    assert(fold1.1[k] == prevf.1[k]);
                    assert(fold1.2[k] == prevf.2[k]);
                } else {
                    assert(cell_c1@[k] == c1);
                    assert(cell_c2@[k] == c2);
                    assert(fold1.1[k] == c1 as int);
                    assert(fold1.2[k] == c2 as int);
                }
            }
        }
        ci = ci + 1;
    }
    let ncorn: usize = corners.len();
    let ghost corners1 = corners@;
    let ghost fold16 = spec_corner_fold(jseed, cpos, 16);
    proof {
        lemma_corner_fold_len(jseed, cpos, 16);
        lemma_sites_len(jseed, cpos, SITE_COUNT as int);
        assert(corners1.map_values(|c: Corner| c.point) == fold16.0);
    }
    let mut edges: Vec<Edge> = Vec::new();
    // Diagonal edges: both triangles lie within one cell.
    let mut ci2: usize = 0;
    while ci2 < 16
        invariant
            ci2 <= 16,
            nc == centers@.len(),
            ncorn == corners@.len(),
            cell_diag@.len() == 16,
            cell_c1@.len() == 16,
            cell_c2@.len() == 16,
            indices_below(cell_c1@, ncorn as int),
            indices_below(cell_c2@, ncorn as int),
            centers_core_eq(centers@, centers0),
            centers_lists_wf(centers@, nc as int, ncorn as int, edges@.len() as int),
            corners_lists_wf(corners@, nc as int, ncorn as int, edges@.len() as int),
            edges_wf(edges@, nc as int, ncorn as int),
            corners_box(corners@),
            forall|k: int| 0 <= k < ncorn
                ==> (#[trigger] corners@[k]).point == corners1[k].point,
            corners_points_distinct(corners@),
            edges_complete(edges@, corners@),
            forall|j: int| 0 <= j < edges@.len()
                ==> #[trigger] edges@[j] == spec_edge_at(jseed, cpos, j),
            edges@.len() == ci2,
        decreases 16 - ci2,
    {
        let gx: usize = ci2 / 4;
        let gz: usize = ci2 % 4;
        let sa: usize = site_map[gx * 5 + gz];
        let sb: usize = site_map[(gx + 1) * 5 + gz];
        let sc: usize = site_map[gx * 5 + gz + 1];
        let sd: usize = site_map[(gx + 1) * 5 + gz + 1];
        let ghost pre = centers@;
        let ghost pre_corners = corners@;
        let ghost pre_edges = edges@;
        if cell_diag[ci2] {
            push_edge(&mut centers, &mut corners, &mut edges, sa, sd, cell_c1[ci2],
                cell_c2[ci2]);
        } else {
            push_edge(&mut centers, &mut corners, &mut edges, sb, sc, cell_c1[ci2],
                cell_c2[ci2]);
        }
        proof {
            assert(centers_core_eq(centers@, centers0));
            lemma_edges_complete_step(edges@, pre_corners, corners@);
            reveal(spec_edge_at);
            let k = ci2 as int;
            assert(sa as int == spec_site_at(jseed, cpos, gx as int, gz as int));
            assert(sb as int == spec_site_at(jseed, cpos, gx as int + 1, gz as int));
            assert(sc as int == spec_site_at(jseed, cpos, gx as int, gz as int + 1));
            assert(sd as int == spec_site_at(jseed, cpos, gx as int + 1, gz as int + 1));
            assert(cell_diag@[k] == spec_cell_diag(jseed, cpos, k));
            let v0 = cell_c1@[k];
            let v1 = cell_c2@[k];
            assert(pre_corners[v0 as int].point == fold16.0[v0 as int]);
            assert(pre_corners[v1 as int].point == fold16.0[v1 as int]);
            assert(edges@[k] == spec_edge_at(jseed, cpos, k));
            assert forall|j: int| 0 <= j < edges@.len() implies #[trigger] edges@[j]
                == spec_edge_at(jseed, cpos, j) by {
                if j < k {
                    assert(edges@[j] == pre_edges[j]);
                }
            }
        }
        ci2 = ci2 + 1;
    }
    // Interior vertical site edges, shared by a left and a right cell.
    let mut vi: usize = 0;
    while vi < 12
        invariant
            vi <= 12,
            nc == centers@.len(),
            ncorn == corners@.len(),
            cell_diag@.len() == 16,
            cell_c1@.len() == 16,
            cell_c2@.len() == 16,
            indices_below(cell_c1@, ncorn as int),
            indices_below(cell_c2@, ncorn as int),
            centers_core_eq(centers@, centers0),
            centers_lists_wf(centers@, nc as int, ncorn as int, edges@.len() as int),
            corners_lists_wf(corners@, nc as int, ncorn as int, edges@.len() as int),
            edges_wf(edges@, nc as int, ncorn as int),
            corners_box(corners@),
            forall|k: int| 0 <= k < ncorn
                ==> (#[trigger] corners@[k]).point == corners1[k].point,
            corners_points_distinct(corners@),
            edges_complete(edges@, corners@),
            forall|j: int| 0 <= j < edges@.len()
                ==> #[trigger] edges@[j] == spec_edge_at(jseed, cpos, j),
            edges@.len() == 16 + vi,
        decreases 12 - vi,
    {
        let gx: usize = vi / 4 + 1;
        let gz: usize = vi % 4;
        let d0: usize = site_map[gx * 5 + gz];
        let d1: usize = site_map[gx * 5 + gz + 1];
        let ci_l: usize = (gx - 1) * 4 + gz;
        let ci_r: usize = gx * 4 + gz;
        let v0: usize = if cell_diag[ci_l] { cell_c1[ci_l] } else { cell_c2[ci_l] };
        let v1: usize = if cell_diag[ci_r] { cell_c2[ci_r] } else { cell_c1[ci_r] };
        let ghost pre_corners = corners@;
        let ghost pre_edges = edges@;
        push_edge(&mut centers, &mut corners, &mut edges, d0, d1, v0, v1);
        proof {
            assert(centers_core_eq(centers@, centers0));
            lemma_edges_complete_step(edges@, pre_corners, corners@);
            reveal(spec_edge_at);
            let k = 16 + vi as int;
            assert(d0 as int == spec_site_at(jseed, cpos, gx as int, gz as int));
            assert(d1 as int == spec_site_at(jseed, cpos, gx as int, gz as int + 1));
            assert(cell_diag@[ci_l as int] == spec_cell_diag(jseed, cpos, ci_l as int));
            assert(cell_diag@[ci_r as int] == spec_cell_diag(jseed, cpos, ci_r as int));
            assert(pre_corners[v0 as int].point == fold16.0[v0 as int]);
            assert(pre_corners[v1 as int].point == fold16.0[v1 as int]);
            assert(edges@[k] == spec_edge_at(jseed, cpos, k));
            assert forall|j: int| 0 <= j < edges@.len() implies #[trigger] edges@[j]
                == spec_edge_at(jseed, cpos, j) by {
                if j < k {
                    assert(edges@[j] == pre_edges[j]);
                }
            }
        }
        vi = vi + 1;
    }
    // Interior horizontal site edges, shared by a lower and an upper cell.
    let mut hi: usize = 0;
    while hi < 12
        invariant
            hi <= 12,
            nc == centers@.len(),
            ncorn == corners@.len(),
            cell_diag@.len() == 16,
            cell_c1@.len() == 16,
            cell_c2@.len() == 16,
            indices_below(cell_c1@, ncorn as int),
            indices_below(cell_c2@, ncorn as int),
            centers_core_eq(centers@, centers0),
            centers_lists_wf(centers@, nc as int, ncorn as int, edges@.len() as int),
            corners_lists_wf(corners@, nc as int, ncorn as int, edges@.len() as int),
            edges_wf(edges@, nc as int, ncorn as int),
            corners_box(corners@),
            forall|k: int| 0 <= k < ncorn
                ==> (#[trigger] corners@[k]).point == corners1[k].point,
            corners_points_distinct(corners@),
            edges_complete(edges@, corners@),
            forall|j: int| 0 <= j < edges@.len()
                ==> #[trigger] edges@[j] == spec_edge_at(jseed, cpos, j),
            edges@.len() == 28 + hi,
        decreases 12 - hi,
    {
        let gz: usize = hi / 4 + 1;
        let gx: usize = hi % 4;
        let d0: usize = site_map[gx * 5 + gz];
        let d1: usize = site_map[(gx + 1) * 5 + gz];
        let ci_b: usize = gx * 4 + (gz - 1);
        let ci_a: usize = gx * 4 + gz;
        let v0: usize = cell_c2[ci_b];
        let v1: usize = cell_c1[ci_a];
        let ghost pre_corners = corners@;
        let ghost pre_edges = edges@;
        push_edge(&mut centers, &mut corners, &mut edges, d0, d1, v0, v1);
        proof {
            assert(centers_core_eq(centers@, centers0));
            lemma_edges_complete_step(edges@, pre_corners, corners@);
            reveal(spec_edge_at);
            let k = 28 + hi as int;
            assert(d0 as int == spec_site_at(jseed, cpos, gx as int, gz as int));
            assert(d1 as int == spec_site_at(jseed, cpos, gx as int + 1, gz as int));
            assert(pre_corners[v0 as int].point == fold16.0[v0 as int]);
            assert(pre_corners[v1 as int].point == fold16.0[v1 as int]);
            assert(edges@[k] == spec_edge_at(jseed, cpos, k));
            assert forall|j: int| 0 <= j < edges@.len() implies #[trigger] edges@[j]
                == spec_edge_at(jseed, cpos, j) by {
                if j < k {
                    assert(edges@[j] == pre_edges[j]);
                }
            }
        }
        hi = hi + 1;
    }
    proof {
        reveal(spec_cells);
        assert(spec_core(centers@) =~= spec_cells(jseed, *noises, cpos));
        assert(centers_core_sites(centers@, jseed, *noises, cpos));
        assert(centers_in_box(centers@, cpos));
    }
    Partition { centers, corners, edges }
}



/// Whether every edge of a convex polygon keeps the point on its inner
/// side: the perpendicular product of each edge with the offset to the
/// point is non-positive, checked from edge `i` on.
pub open spec fn spec_inside_from(point: Vec2, polygon: Seq<Vec2>, i: int) -> bool
    decreases polygon.len() - i,
{
    if i < 0 || i >= polygon.len() {
        true
    } else {
        let v1x = polygon[i].x - point.x;
        let v1z = polygon[i].z - point.z;
        let nxt = if i + 1 == polygon.len() { 0 } else { i + 1 };
        let v2x = polygon[nxt].x - point.x;
        let v2z = polygon[nxt].z - point.z;
        let ex = v1x - v2x;
        let ez = v1z - v2z;
        &&& ex * v1z - ez * v1x <= 0
        &&& spec_inside_from(point, polygon, i + 1)
    }
}

/// Whether a point lies inside a convex polygon given in clockwise order.
pub fn is_inside(point: Vec2, polygon: &Vec<Vec2>) -> (r: bool)
    requires
        -COORD_LIMIT <= point.x <= COORD_LIMIT,
        -COORD_LIMIT <= point.z <= COORD_LIMIT,
        forall|k: int| 0 <= k < polygon@.len() ==> {
            &&& -COORD_LIMIT <= (#[trigger] polygon@[k]).x <= COORD_LIMIT
            &&& -COORD_LIMIT <= polygon@[k].z <= COORD_LIMIT
        },
    ensures
        r == spec_inside_from(point, polygon@, 0),
{
    let len: usize = polygon.len();
    let mut i: usize = 0;
    while i < len
        invariant
            i <= len,
            len == polygon@.len(),
            spec_inside_from(point, polygon@, 0) == spec_inside_from(point, polygon@,
                i as int),
        decreases len - i,
    {
        let p1: Vec2 = polygon[i];
        let nxt: usize = if i + 1 == len { 0 } else { i + 1 };
        let p2: Vec2 = polygon[nxt];
        let v1x: i64 = p1.x - point.x;
        let v1z: i64 = p1.z - point.z;
        let v2x: i64 = p2.x - point.x;
        let v2z: i64 = p2.z - point.z;
        let ex: i64 = v1x - v2x;
        let ez: i64 = v1z - v2z;
        proof {
            lemma_abs_mul_le(ex as int, v1z as int, 4 * COORD_LIMIT as int,
                2 * COORD_LIMIT as int);
            lemma_abs_mul_le(ez as int, v1x as int, 4 * COORD_LIMIT as int,
                2 * COORD_LIMIT as int);
        }
        let x: i64 = ex * v1z - ez * v1x;
        if x > 0 {
            return false;
        }
        i = i + 1;
    }
    true
}

/// Bound under which the polygon test stays exact.
pub const COORD_LIMIT: i64 = 0x2000_0000;


} // verus!
