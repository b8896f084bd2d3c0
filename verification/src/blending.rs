//! Point blending sampler.
//!
//! For an arbitrary horizontal point, the sampler keeps the partition cells
//! within a blend radius of the nearest cell, splits a fade weight across
//! every unordered pair of kept cells by projecting the point onto their
//! perpendicular bisector direction, and folds the per-cell weights into a
//! weighted biome list with weight-averaged climate values.  Merging cells
//! of one biome adds their weights, so no weight is ever dropped.

use vstd::prelude::*;

use crate::fixed::{FP_ONE, fdiv, spec_fp_mul, spec_clamp, spec_fade, spec_dist2, spec_isqrt,
    div_floor, fp_mul, clamp_i64, fade, isqrt, dist2, Vec2, lemma_fdiv_bounds, lemma_abs_mul_le};
use crate::biome::{NoiseValues, BiomeEntry, BiomeDefinition, BiomeRegistry, biomes_wf,
    spec_surface_value, surface_value, CLIMATE_MAX, SURFACE_HEIGHT_MAX};
use crate::fbm_noise::{Fbm, NOISE_PARAM_MAX, POINT_BOUND};
use crate::partition::{Center, CellCore, spec_core, CENTER_BOX, centers_in_box};
use crate::chunk::{ChunkPos, CHUNK_DIM};
use crate::registry::RegistryId;

verus! {

/// The blend radius: the distance over which two cells' influence is
/// smoothly interpolated, fixed point (32 blocks).
pub const BIOME_BLEND_RADIUS: i64 = 32768;

/// A distance larger than any that occurs inside one partition.
pub const FAR_DIST2: i64 = 0x4000_0000_0000;

/// The least squared distance from the query point to a center, folded
/// from index `i` with the best value so far.
pub open spec fn spec_closest_d2_from(centers: Seq<CellCore>, p: Vec2, i: int, best: int) -> int
    decreases centers.len() - i,
{
    if i < 0 || i >= centers.len() {
        best
    } else {
        let d = spec_dist2(p, centers[i].point);
        spec_closest_d2_from(centers, p, i + 1, if d < best { d } else { best })
    }
}

/// The squared distance from the query point to its nearest center.
pub open spec fn spec_closest_d2(centers: Seq<CellCore>, p: Vec2) -> int {
    spec_closest_d2_from(centers, p, 0, FAR_DIST2 as int)
}

/// The cutoff distance: four blend radii past the nearest center.
pub open spec fn spec_cutoff(centers: Seq<CellCore>, p: Vec2) -> int {
    4 * BIOME_BLEND_RADIUS + spec_isqrt(spec_closest_d2(centers, p))
}

/// Indices of the centers kept for blending, in center order.
pub open spec fn spec_kept(centers: Seq<CellCore>, p: Vec2, cutoff: int, i: int) -> Seq<int>
    decreases centers.len() - i,
{
    if i < 0 || i >= centers.len() {
        Seq::empty()
    } else {
        let rest = spec_kept(centers, p, cutoff, i + 1);
        if spec_dist2(p, centers[i].point) <= cutoff * cutoff {
            seq![i].add(rest)
        } else {
            rest
        }
    }
}

/// The pairwise fade weight that the pair `(a, b)` assigns toward `b` for
/// the query point `p`.
pub open spec fn spec_pair_weight(p: Vec2, a: Vec2, b: Vec2) -> int {
    let dx = b.x - a.x;
    let dz = b.z - a.z;
    let len2 = dx * dx + dz * dz;
    let len = spec_isqrt(len2);
    let num = (2 * p.x - a.x - b.x) * dx + (2 * p.z - a.z - b.z) * dz;
    let dfm = fdiv(num, 2 * len);
    let t = spec_clamp(dfm + BIOME_BLEND_RADIUS as int, 0, 2 * BIOME_BLEND_RADIUS as int);
    let u = fdiv(t * FP_ONE, 2 * BIOME_BLEND_RADIUS as int);
    spec_fade(u)
}

/// One pair step of the weight accumulation: the pair `(i, j)` multiplies
/// weight `i` by the complement of its fade weight and weight `j` by the
/// fade weight itself; a degenerate pair (coincident points) changes
/// nothing.
pub open spec fn spec_apply_pair(pts: Seq<Vec2>, p: Vec2, w: Seq<i64>, i: int, j: int)
    -> Seq<i64> {
    let a = pts[i];
    let b = pts[j];
    let dx = b.x - a.x;
    let dz = b.z - a.z;
    if dx * dx + dz * dz == 0 {
        w
    } else {
        let wgt = spec_pair_weight(p, a, b);
        w.update(i, spec_fp_mul(w[i] as int, FP_ONE - wgt) as i64).update(j,
            spec_fp_mul(w[j] as int, wgt) as i64)
    }
}

/// The weights after processing all pairs from `(i, j)` onwards in
/// lexicographic order.
pub open spec fn spec_weights_from(pts: Seq<Vec2>, p: Vec2, w: Seq<i64>, i: int, j: int)
    -> Seq<i64>
    decreases pts.len() - i, pts.len() - j,
{
    if i < 0 || j < i || i >= pts.len() {
        w
    } else if j >= pts.len() {
        spec_weights_from(pts, p, w, i + 1, i + 2)
    } else {
        spec_weights_from(pts, p, spec_apply_pair(pts, p, w, i, j), i, j + 1)
    }
}

/// The final per-cell weights: all pairs applied to unit start weights.
pub open spec fn spec_weights(pts: Seq<Vec2>, p: Vec2) -> Seq<i64> {
    spec_weights_from(pts, p, Seq::new(pts.len(), |k: int| FP_ONE), 0, 1)
}

/// The sum of a weight sequence from index `i`.
pub open spec fn spec_weight_sum(w: Seq<i64>, i: int) -> int
    decreases w.len() - i,
{
    if i < 0 || i >= w.len() {
        0
    } else {
        w[i] + spec_weight_sum(w, i + 1)
    }
}

/// The sum of the weights of a biome entry list from index `i`.
pub open spec fn spec_entry_weight_sum(entries: Seq<BiomeEntry>, i: int) -> int
    decreases entries.len() - i,
{
    if i < 0 || i >= entries.len() {
        0
    } else {
        entries[i].weight + spec_entry_weight_sum(entries, i + 1)
    }
}

/// First entry with the given biome id, if any.
pub open spec fn spec_find_entry(entries: Seq<BiomeEntry>, id: RegistryId, i: int)
    -> Option<int>
    decreases entries.len() - i,
{
    if i < 0 || i >= entries.len() {
        None
    } else if entries[i].id == id {
        Some(i)
    } else {
        spec_find_entry(entries, id, i + 1)
    }
}

/// The biome id a cell contributes: its assigned biome, or the default.
pub open spec fn spec_cell_biome(c: CellCore, default: RegistryId) -> RegistryId {
    match c.biome {
        Some(id) => id,
        None => default,
    }
}

/// Accumulate per-cell weights into per-biome entries: a cell of an already
/// listed biome adds its weight to that entry, otherwise a new entry is
/// appended.
pub open spec fn spec_merge(centers: Seq<CellCore>, kept: Seq<int>, w: Seq<i64>,
    default: RegistryId, i: int, acc: Seq<BiomeEntry>) -> Seq<BiomeEntry>
    decreases kept.len() - i,
{
    if i < 0 || i >= kept.len() || kept.len() != w.len() {
        acc
    } else {
        let id = spec_cell_biome(centers[kept[i]], default);
        let next = match spec_find_entry(acc, id, 0) {
            Some(j) => acc.update(j, BiomeEntry {
                id,
                weight: (acc[j].weight + w[i]) as i64,
            }),
            None => acc.push(BiomeEntry { id, weight: w[i] }),
        };
        spec_merge(centers, kept, w, default, i + 1, next)
    }
}

/// One climate component weighted sum over the kept cells.
pub open spec fn spec_climate_num(vals: Seq<i64>, w: Seq<i64>, i: int) -> int
    decreases vals.len() - i,
{
    if i < 0 || i >= vals.len() || vals.len() != w.len() {
        0
    } else {
        spec_fp_mul(vals[i] as int, w[i] as int) + spec_climate_num(vals, w, i + 1)
    }
}

/// A weight-averaged climate component, clamped onto the climate scale.
pub open spec fn spec_climate_avg(num: int, total: int) -> int {
    if total <= 0 {
        0
    } else {
        spec_clamp(fdiv(num * FP_ONE, total), 0, CLIMATE_MAX as int)
    }
}


/// Every cell's cached climate triple is on the climate scale.
pub open spec fn centers_noise_wf(centers: Seq<Center>) -> bool {
    forall|k: int| 0 <= k < centers.len() ==> (#[trigger] centers[k]).noise.wf()
}

/// The query point is local to the chunk whose partition is used.
pub open spec fn point_in_box(p: Vec2, cpos: ChunkPos) -> bool {
    let ccx = (cpos.x * CHUNK_DIM + CHUNK_DIM / 2) * FP_ONE;
    let ccz = (cpos.z * CHUNK_DIM + CHUNK_DIM / 2) * FP_ONE;
    &&& -CENTER_BOX <= p.x - ccx <= CENTER_BOX
    &&& -CENTER_BOX <= p.z - ccz <= CENTER_BOX
}

/// Find the squared distance to the nearest center.
fn closest_d2(centers: &Vec<Center>, p: Vec2, Ghost(cpos): Ghost<ChunkPos>) -> (r: i64)
    requires
        centers_in_box(centers@, cpos),
        point_in_box(p, cpos),
        cpos.wf(),
    ensures
        r == spec_closest_d2(spec_core(centers@), p),
        0 <= r <= FAR_DIST2,
{
    let mut best: i64 = FAR_DIST2;
    let mut i: usize = 0;
    let n: usize = centers.len();
    while i < n
        invariant
            i <= n,
            0 <= best <= FAR_DIST2,
            spec_closest_d2_from(spec_core(centers@), p, i as int, best as int)
                == spec_closest_d2(spec_core(centers@), p),
        decreases n - i,
    {
        let q: Vec2 = centers[i].point;
        proof {
            assert(-CENTER_BOX <= centers@[i as int].point.x
                - (cpos.x * CHUNK_DIM + CHUNK_DIM / 2) * FP_ONE <= CENTER_BOX);
        }
        let d2: u64 = dist2(p, q);
        let d: i64 = d2 as i64;
        proof {
            lemma_abs_mul_le((p.x - q.x) as int, (p.x - q.x) as int, 2 * CENTER_BOX as int,
                2 * CENTER_BOX as int);
            lemma_abs_mul_le((p.z - q.z) as int, (p.z - q.z) as int, 2 * CENTER_BOX as int,
                2 * CENTER_BOX as int);
        }
        if d < best {
            best = d;
        }
        i = i + 1;
    }
    best
}

/// The kept cells for a query point: indices, positions and climate
/// components, in center order.
struct KeptCells {
    /// Indices into the center list.
    idx: Vec<usize>,
    /// Positions of the kept cells.
    pts: Vec<Vec2>,
    /// Elevation of each kept cell.
    elev: Vec<i64>,
    /// Temperature of each kept cell.
    temp: Vec<i64>,
    /// Moisture of each kept cell.
    moist: Vec<i64>,
}

/// Collect the centers within the cutoff distance of the query point.
fn collect_kept(centers: &Vec<Center>, p: Vec2, cutoff: i64, Ghost(cpos): Ghost<ChunkPos>)
    -> (r: KeptCells)
    requires
        centers_in_box(centers@, cpos),
        centers_noise_wf(centers@),
        point_in_box(p, cpos),
        cpos.wf(),
        0 <= cutoff <= 0x100_0000,
    ensures
        r.idx@.map_values(|u: usize| u as int) == spec_kept(spec_core(centers@), p, cutoff as int, 0),
        r.pts@.len() == r.idx@.len(),
        r.elev@.len() == r.idx@.len(),
        r.temp@.len() == r.idx@.len(),
        r.moist@.len() == r.idx@.len(),
        r.idx@.len() <= centers@.len(),
        forall|k: int| 0 <= k < r.idx@.len() ==> {
            &&& (#[trigger] r.idx@[k]) < centers@.len()
            &&& r.pts@[k] == centers@[r.idx@[k] as int].point
            &&& r.elev@[k] == centers@[r.idx@[k] as int].noise.elevation
            &&& r.temp@[k] == centers@[r.idx@[k] as int].noise.temperature
            &&& r.moist@[k] == centers@[r.idx@[k] as int].noise.moisture
        },
{
    let mut idx: Vec<usize> = Vec::new();
    let mut pts: Vec<Vec2> = Vec::new();
    let mut elev: Vec<i64> = Vec::new();
    let mut temp: Vec<i64> = Vec::new();
    let mut moist: Vec<i64> = Vec::new();
    let mut i: usize = 0;
    let n: usize = centers.len();
    while i < n
        invariant
            i <= n,
            idx@.len() <= i,
            pts@.len() == idx@.len(),
            elev@.len() == idx@.len(),
            temp@.len() == idx@.len(),
            moist@.len() == idx@.len(),
            spec_kept(spec_core(centers@), p, cutoff as int, 0)
                =~= idx@.map_values(|u: usize| u as int)
                    + spec_kept(spec_core(centers@), p, cutoff as int, i as int),
            forall|k: int| 0 <= k < idx@.len() ==> {
                &&& (#[trigger] idx@[k]) < centers@.len()
                &&& pts@[k] == centers@[idx@[k] as int].point
                &&& elev@[k] == centers@[idx@[k] as int].noise.elevation
                &&& temp@[k] == centers@[idx@[k] as int].noise.temperature
                &&& moist@[k] == centers@[idx@[k] as int].noise.moisture
            },
        decreases n - i,
    {
        let q: Vec2 = centers[i].point;
        proof {
            assert(-CENTER_BOX <= centers@[i as int].point.x
                - (cpos.x * CHUNK_DIM + CHUNK_DIM / 2) * FP_ONE <= CENTER_BOX);
            lemma_abs_mul_le(cutoff as int, cutoff as int, 0x100_0000, 0x100_0000);
        }
        let d2: u64 = dist2(p, q);
        let ghost pre = idx@;
        if d2 <= (cutoff as u64) * (cutoff as u64) {
            idx.push(i);
            pts.push(q);
            elev.push(centers[i].noise.elevation);
            temp.push(centers[i].noise.temperature);
            moist.push(centers[i].noise.moisture);
            proof {
                assert(spec_kept(spec_core(centers@), p, cutoff as int, i as int)
                    =~= seq![i as int].add(spec_kept(spec_core(centers@), p, cutoff as int, i + 1)));
                assert(idx@.map_values(|u: usize| u as int)
                    =~= pre.map_values(|u: usize| u as int).push(i as int));
                assert(pre.map_values(|u: usize| u as int).push(i as int)
                    + spec_kept(spec_core(centers@), p, cutoff as int, i + 1)
                    =~= pre.map_values(|u: usize| u as int)
                        + seq![i as int].add(spec_kept(spec_core(centers@), p, cutoff as int, i + 1)));
            }
        } else {
            proof {
                assert(spec_kept(spec_core(centers@), p, cutoff as int, i as int)
                    == spec_kept(spec_core(centers@), p, cutoff as int, i + 1));
            }
        }
        i = i + 1;
    }
    proof {
        assert(spec_kept(spec_core(centers@), p, cutoff as int, n as int) =~= Seq::<int>::empty());
        assert(idx@.map_values(|u: usize| u as int) + Seq::<int>::empty()
            =~= idx@.map_values(|u: usize| u as int));
    }
    KeptCells { idx, pts, elev, temp, moist }
}



/// All kept positions lie in the chunk's local box.
pub open spec fn pts_in_box(pts: Seq<Vec2>, cpos: ChunkPos) -> bool {
    let ccx = (cpos.x * CHUNK_DIM + CHUNK_DIM / 2) * FP_ONE;
    let ccz = (cpos.z * CHUNK_DIM + CHUNK_DIM / 2) * FP_ONE;
    forall|k: int| 0 <= k < pts.len() ==> {
        &&& -CENTER_BOX <= (#[trigger] pts[k]).x - ccx <= CENTER_BOX
        &&& -CENTER_BOX <= pts[k].z - ccz <= CENTER_BOX
    }
}

/// All weights lie within one fixed-point unit.
pub open spec fn weights_in_unit(w: Seq<i64>) -> bool {
    forall|k: int| 0 <= k < w.len() ==> 0 <= (#[trigger] w[k]) <= FP_ONE
}

/// Apply one pair's fade weight to the running weights.
fn apply_pair(pts: &Vec<Vec2>, p: Vec2, w: &mut Vec<i64>, i: usize, j: usize,
    Ghost(cpos): Ghost<ChunkPos>) -> (applied: bool)
    requires
        i < j < pts@.len(),
        old(w)@.len() == pts@.len(),
        weights_in_unit(old(w)@),
        pts_in_box(pts@, cpos),
        point_in_box(p, cpos),
        cpos.wf(),
    ensures
        final(w)@ == spec_apply_pair(pts@, p, old(w)@, i as int, j as int),
        final(w)@.len() == old(w)@.len(),
        weights_in_unit(final(w)@),
{
    let a: Vec2 = pts[i];
    let b: Vec2 = pts[j];
    proof {
        assert(-CENTER_BOX <= pts@[i as int].x - (cpos.x * CHUNK_DIM + CHUNK_DIM / 2) * FP_ONE
            <= CENTER_BOX);
        assert(-CENTER_BOX <= pts@[j as int].x - (cpos.x * CHUNK_DIM + CHUNK_DIM / 2) * FP_ONE
            <= CENTER_BOX);
        lemma_abs_mul_le((b.x - a.x) as int, (b.x - a.x) as int, 2 * CENTER_BOX as int,
            2 * CENTER_BOX as int);
        lemma_abs_mul_le((b.z - a.z) as int, (b.z - a.z) as int, 2 * CENTER_BOX as int,
            2 * CENTER_BOX as int);
    }
    let dx: i64 = b.x - a.x;
    let dz: i64 = b.z - a.z;
    proof {
        assert(0 <= dx * dx && 0 <= dz * dz) by (nonlinear_arith) {}
    }
    let len2: i64 = dx * dx + dz * dz;
    if len2 == 0 {
        return false;
    }
    let len: i64 = isqrt(len2 as u64) as i64;
    proof {
        assert(crate::fixed::is_isqrt(len2 as int, len as int));
        assert(len >= 1) by (nonlinear_arith)
            requires
                0 <= len,
                len2 < (len as int + 1) * (len as int + 1),
                len2 >= 1,
        {}
    }
    proof {
        lemma_abs_mul_le((2 * p.x - a.x - b.x) as int, dx as int, 4 * CENTER_BOX as int,
            2 * CENTER_BOX as int);
        lemma_abs_mul_le((2 * p.z - a.z - b.z) as int, dz as int, 4 * CENTER_BOX as int,
            2 * CENTER_BOX as int);
    }
    let num: i64 = (2 * p.x - a.x - b.x) * dx + (2 * p.z - a.z - b.z) * dz;
    let dfm: i64 = div_floor(num, 2 * len);
    proof {
        lemma_fdiv_bounds(num as int, 2 * len as int,
            -16 * (CENTER_BOX as int) * CENTER_BOX, 16 * (CENTER_BOX as int) * CENTER_BOX);
        lemma_fdiv_bounds(num as int, 2 * len as int, num as int, num as int);
    }
    let t: i64 = clamp_i64(dfm + BIOME_BLEND_RADIUS, 0, 2 * BIOME_BLEND_RADIUS);
    let u: i64 = div_floor(t * FP_ONE, 2 * BIOME_BLEND_RADIUS);
    proof {
        lemma_fdiv_bounds(t as int * FP_ONE as int, 2 * BIOME_BLEND_RADIUS as int, 0,
            2 * (BIOME_BLEND_RADIUS as int) * FP_ONE);
        assert(fdiv(2 * (BIOME_BLEND_RADIUS as int) * FP_ONE, 2 * BIOME_BLEND_RADIUS as int)
            == FP_ONE as int) by {
            vstd::arithmetic::div_mod::lemma_div_multiples_vanish(FP_ONE as int,
                2 * BIOME_BLEND_RADIUS as int);
            assert(2 * (BIOME_BLEND_RADIUS as int) * FP_ONE
                == (2 * BIOME_BLEND_RADIUS as int) * (FP_ONE as int));
        };
    }
    let wgt: i64 = fade(u);
    let wi_old: i64 = w[i];
    let wj_old: i64 = w[j];
    proof {
        lemma_abs_mul_le(wi_old as int, (FP_ONE - wgt) as int, FP_ONE as int, FP_ONE as int);
        lemma_abs_mul_le(wj_old as int, wgt as int, FP_ONE as int, FP_ONE as int);
        lemma_fdiv_bounds(wi_old as int * (FP_ONE - wgt) as int, FP_ONE as int, 0,
            FP_ONE as int * FP_ONE as int);
        lemma_fdiv_bounds(wj_old as int * wgt as int, FP_ONE as int, 0,
            FP_ONE as int * FP_ONE as int);
        assert(0 <= wi_old * (FP_ONE - wgt)) by (nonlinear_arith)
            requires
                0 <= wi_old,
                0 <= FP_ONE - wgt,
        {}
        assert(0 <= wj_old * wgt) by (nonlinear_arith)
            requires
                0 <= wj_old,
                0 <= wgt,
        {}
    }
    let wi_new: i64 = fp_mul(wi_old, FP_ONE - wgt);
    let wj_new: i64 = fp_mul(wj_old, wgt);
    w.set(i, wi_new);
    w.set(j, wj_new);
    proof {
        assert(final(w)@ =~= spec_apply_pair(pts@, p, old(w)@, i as int, j as int));
    }
    true
}

/// Compute the per-cell blend weights by pairwise accumulation over every
/// unordered pair of kept cells.
fn compute_weights(pts: &Vec<Vec2>, p: Vec2, Ghost(cpos): Ghost<ChunkPos>) -> (w: Vec<i64>)
    requires
        pts_in_box(pts@, cpos),
        point_in_box(p, cpos),
        cpos.wf(),
    ensures
        w@ == spec_weights(pts@, p),
        w@.len() == pts@.len(),
        weights_in_unit(w@),
{
    let m: usize = pts.len();
    let mut w: Vec<i64> = Vec::new();
    let mut k: usize = 0;
    while k < m
        invariant
            k <= m,
            w@.len() == k,
            forall|q: int| 0 <= q < k ==> w@[q] == FP_ONE,
        decreases m - k,
    {
        w.push(FP_ONE);
        k = k + 1;
    }
    proof {
        assert(w@ =~= Seq::new(pts@.len(), |q: int| FP_ONE));
    }
    let mut i: usize = 0;
    while i < m
        invariant
            i <= m,
            w@.len() == m == pts@.len(),
            weights_in_unit(w@),
            spec_weights_from(pts@, p, w@, i as int, i as int + 1) == spec_weights(pts@, p),
        decreases m - i,
    {
        let mut j: usize = i + 1;
        while j < m
            invariant
                i < j <= m || (i + 1 > m && j == i + 1),
                i < m,
                w@.len() == m == pts@.len(),
                weights_in_unit(w@),
                spec_weights_from(pts@, p, w@, i as int, j as int) == spec_weights(pts@, p),
            decreases m - j,
        {
            let ghost pre = w@;
            apply_pair(pts, p, &mut w, i, j, Ghost(cpos));
            proof {
                assert(spec_weights_from(pts@, p, pre, i as int, j as int)
                    == spec_weights_from(pts@, p, w@, i as int, j as int + 1));
            }
            j = j + 1;
        }
        proof {
            assert(spec_weights_from(pts@, p, w@, i as int, m as int)
                == spec_weights_from(pts@, p, w@, i as int + 1, i as int + 2));
        }
        i = i + 1;
    }
    proof {
        assert(spec_weights_from(pts@, p, w@, m as int, m as int + 1) == w@);
    }
    w
}



/// Updating one entry's weight shifts the entry-list sum by the difference.
proof fn lemma_sum_update(entries: Seq<BiomeEntry>, j: int, e: BiomeEntry, i: int)
    requires
        0 <= j < entries.len(),
        0 <= i <= entries.len(),
        e.id == entries[j].id,
    ensures
        spec_entry_weight_sum(entries.update(j, e), i) == spec_entry_weight_sum(entries, i)
            + if i <= j { e.weight - entries[j].weight } else { 0 },
    decreases entries.len() - i,
{
    if i < entries.len() {
        lemma_sum_update(entries, j, e, i + 1);
    }
}

/// Appending an entry adds its weight to the entry-list sum.
proof fn lemma_sum_push(entries: Seq<BiomeEntry>, e: BiomeEntry, i: int)
    requires
        0 <= i <= entries.len(),
    ensures
        spec_entry_weight_sum(entries.push(e), i) == spec_entry_weight_sum(entries, i)
            + e.weight,
    decreases entries.len() - i,
{
    if i < entries.len() {
        assert(entries.push(e)[i] == entries[i]);
        lemma_sum_push(entries, e, i + 1);
    } else {
        assert(entries.push(e)[i] == e);
        assert(spec_entry_weight_sum(entries.push(e), i + 1) == 0);
    }
}

/// In a list of non-negative weights, each entry is at most the total.
proof fn lemma_entry_le_sum(entries: Seq<BiomeEntry>, j: int, i: int)
    requires
        0 <= i <= j < entries.len(),
        forall|k: int| 0 <= k < entries.len() ==> (#[trigger] entries[k]).weight >= 0,
    ensures
        entries[j].weight <= spec_entry_weight_sum(entries, i),
    decreases entries.len() - i,
{
    if i < j {
        lemma_entry_le_sum(entries, j, i + 1);
    } else {
        lemma_sum_nonneg(entries, i + 1);
    }
}

/// The sum of non-negative weights is non-negative.
proof fn lemma_sum_nonneg(entries: Seq<BiomeEntry>, i: int)
    requires
        forall|k: int| 0 <= k < entries.len() ==> (#[trigger] entries[k]).weight >= 0,
    ensures
        spec_entry_weight_sum(entries, i) >= 0,
    decreases entries.len() - i,
{
    if 0 <= i < entries.len() {
        lemma_sum_nonneg(entries, i + 1);
    }
}

/// What a successful entry search means: the index is in range and holds
/// the id searched for.
proof fn lemma_find_entry_props(entries: Seq<BiomeEntry>, id: RegistryId, i: int, j: int)
    requires
        spec_find_entry(entries, id, i) == Some(j),
        0 <= i,
    ensures
        i <= j < entries.len(),
        entries[j].id == id,
    decreases entries.len() - i,
{
    if i < entries.len() && entries[i].id != id {
        lemma_find_entry_props(entries, id, i + 1, j);
    }
}

/// Cells carry only biome ids that a registry of `n` biomes knows.
pub open spec fn centers_biomes_valid(centers: Seq<CellCore>, n: int) -> bool {
    forall|k: int| 0 <= k < centers.len()
        ==> ((#[trigger] centers[k]).biome matches Some(id) ==> 1 <= id.raw <= n)
}

/// Merge per-cell weights into per-biome entries; merging never drops
/// weight: the entry-list total equals the sum of the merged weights.
fn merge_entries(centers: &Vec<Center>, idx: &Vec<usize>, w: &Vec<i64>, default: RegistryId,
    Ghost(nbiomes): Ghost<int>) -> (entries: Vec<BiomeEntry>)
    requires
        idx@.len() == w@.len() <= 32,
        weights_in_unit(w@),
        forall|k: int| 0 <= k < idx@.len() ==> (#[trigger] idx@[k]) < centers@.len(),
        centers_biomes_valid(spec_core(centers@), nbiomes),
        1 <= default.raw <= nbiomes,
    ensures
        entries@ == spec_merge(spec_core(centers@), idx@.map_values(|u: usize| u as int), w@, default, 0,
            Seq::empty()),
        spec_entry_weight_sum(entries@, 0) == spec_weight_sum(w@, 0),
        forall|k: int| 0 <= k < entries@.len()
            ==> (#[trigger] entries@[k]).weight >= 0
                && entries@[k].weight <= 32 * FP_ONE
                && 1 <= entries@[k].id.raw <= nbiomes,
        entries@.len() <= idx@.len(),
{
    let ghost kept = idx@.map_values(|u: usize| u as int);
    let mut entries: Vec<BiomeEntry> = Vec::new();
    let mut k: usize = 0;
    let m: usize = idx.len();
    proof {
        lemma_weight_sum_bounds(w@, 0);
    }
    while k < m
        invariant
            k <= m,
            m == idx@.len() == w@.len(),
            spec_merge(spec_core(centers@), kept, w@, default, k as int, entries@)
                == spec_merge(spec_core(centers@), kept, w@, default, 0, Seq::empty()),
            spec_entry_weight_sum(entries@, 0) + spec_weight_sum(w@, k as int)
                == spec_weight_sum(w@, 0),
            forall|q: int| 0 <= q < entries@.len()
                ==> (#[trigger] entries@[q]).weight >= 0
                    && 1 <= entries@[q].id.raw <= nbiomes,
            entries@.len() <= k,
        decreases m - k,
    {
        let ci: usize = idx[k];
        let id: RegistryId = match centers[ci].biome {
            Some(bid) => bid,
            None => default,
        };
        let wk: i64 = w[k];
        let ghost pre = entries@;
        // find the first entry with this id
        let mut j: usize = 0;
        let n: usize = entries.len();
        let mut found: usize = 0;
        let mut has_found: bool = false;
        while j < n
            invariant
                j <= n,
                n == entries@.len(),
                !has_found ==> spec_find_entry(entries@, id, 0)
                    == spec_find_entry(entries@, id, j as int),
                has_found ==> spec_find_entry(entries@, id, 0) == Some(found as int)
                    && found < n,
            decreases n - j,
        {
            if !has_found {
                if entries[j].id.raw == id.raw {
                    found = j;
                    has_found = true;
                    proof {
                        assert(entries@[j as int].id == id);
                        assert(spec_find_entry(entries@, id, j as int) == Some(j as int));
                    }
                } else {
                    proof {
                        assert(entries@[j as int].id != id);
                        assert(spec_find_entry(entries@, id, j as int)
                            == spec_find_entry(entries@, id, j + 1));
                    }
                }
            }
            j = j + 1;
        }
        proof {
            if !has_found {
                assert(spec_find_entry(entries@, id, n as int) is None);
            }
            lemma_weight_sum_bounds(w@, k as int);
            lemma_weight_sum_bounds(w@, k + 1);
            lemma_sum_nonneg(entries@, 0);
        }
        if has_found {
            proof {
                lemma_entry_le_sum(entries@, found as int, 0);
            }
            proof {
                lemma_find_entry_props(entries@, id, 0, found as int);
            }
            let old_e: BiomeEntry = entries[found];
            let new_e = BiomeEntry { id: old_e.id, weight: old_e.weight + wk };
            entries.set(found, new_e);
            proof {
                lemma_sum_update(pre, found as int, new_e, 0);
            }
        } else {
            entries.push(BiomeEntry { id, weight: wk });
            proof {
                lemma_sum_push(pre, BiomeEntry { id, weight: wk }, 0);
            }
        }
        proof {
            assert(spec_merge(spec_core(centers@), kept, w@, default, k as int, pre)
                == spec_merge(spec_core(centers@), kept, w@, default, k + 1, entries@));
        }
        k = k + 1;
    }
    proof {
        assert(spec_merge(spec_core(centers@), kept, w@, default, m as int, entries@) == entries@);
        assert(spec_weight_sum(w@, m as int) == 0);
        assert forall|q: int| 0 <= q < entries@.len() implies (#[trigger] entries@[q]).weight
            <= 32 * FP_ONE by {
            lemma_entry_le_sum(entries@, q, 0);
            lemma_weight_sum_bounds(w@, 0);
        }
    }
    entries
}

/// A sum of unit-bounded weights is bounded by the count.
proof fn lemma_weight_sum_bounds(w: Seq<i64>, i: int)
    requires
        weights_in_unit(w),
        0 <= i <= w.len(),
    ensures
        0 <= spec_weight_sum(w, i) <= (w.len() - i) * FP_ONE,
    decreases w.len() - i,
{
    if i < w.len() {
        lemma_weight_sum_bounds(w, i + 1);
    }
}

/// Sum the blend weights.
fn weight_sum(w: &Vec<i64>) -> (total: i64)
    requires
        weights_in_unit(w@),
        w@.len() <= 32,
    ensures
        total == spec_weight_sum(w@, 0),
        0 <= total <= 32 * FP_ONE,
{
    let mut total: i64 = 0;
    let mut k: usize = 0;
    let m: usize = w.len();
    proof {
        lemma_weight_sum_bounds(w@, 0);
    }
    while k < m
        invariant
            k <= m,
            m == w@.len(),
            total + spec_weight_sum(w@, k as int) == spec_weight_sum(w@, 0),
            0 <= total <= k * FP_ONE,
        decreases m - k,
    {
        proof {
            lemma_weight_sum_bounds(w@, k as int);
            lemma_weight_sum_bounds(w@, k + 1);
        }
        total = total + w[k];
        k = k + 1;
    }
    total
}

/// Climate components of all kept cells are on the climate scale.
pub open spec fn vals_on_scale(vals: Seq<i64>) -> bool {
    forall|k: int| 0 <= k < vals.len() ==> 0 <= (#[trigger] vals[k]) <= CLIMATE_MAX
}

/// A climate weighted sum is bounded by the count of terms.
proof fn lemma_climate_num_bounds(vals: Seq<i64>, w: Seq<i64>, i: int)
    requires
        vals_on_scale(vals),
        weights_in_unit(w),
        vals.len() == w.len(),
        0 <= i <= vals.len(),
    ensures
        0 <= spec_climate_num(vals, w, i) <= (vals.len() - i) * CLIMATE_MAX,
    decreases vals.len() - i,
{
    if i < vals.len() {
        lemma_abs_mul_le(vals[i] as int, w[i] as int, CLIMATE_MAX as int, FP_ONE as int);
        lemma_fdiv_bounds(vals[i] as int * w[i] as int, FP_ONE as int, 0,
            CLIMATE_MAX as int * FP_ONE as int);
        assert(0 <= vals[i] * w[i]) by (nonlinear_arith)
            requires
                0 <= vals[i],
                0 <= w[i],
        {}
        lemma_climate_num_bounds(vals, w, i + 1);
    }
}

/// The weighted sum of one climate component over the kept cells.
fn climate_num(vals: &Vec<i64>, w: &Vec<i64>) -> (num: i64)
    requires
        vals_on_scale(vals@),
        weights_in_unit(w@),
        vals@.len() == w@.len() <= 32,
    ensures
        num == spec_climate_num(vals@, w@, 0),
        0 <= num <= 32 * CLIMATE_MAX,
{
    let mut num: i64 = 0;
    let mut k: usize = 0;
    let m: usize = vals.len();
    proof {
        lemma_climate_num_bounds(vals@, w@, 0);
    }
    while k < m
        invariant
            k <= m,
            m == vals@.len() == w@.len(),
            num + spec_climate_num(vals@, w@, k as int) == spec_climate_num(vals@, w@, 0),
            0 <= num <= k * CLIMATE_MAX,
        decreases m - k,
    {
        proof {
            lemma_climate_num_bounds(vals@, w@, k as int);
            lemma_climate_num_bounds(vals@, w@, k + 1);
            lemma_abs_mul_le(vals@[k as int] as int, w@[k as int] as int, CLIMATE_MAX as int,
                FP_ONE as int);
            lemma_fdiv_bounds(vals@[k as int] as int * w@[k as int] as int, FP_ONE as int,
                -(CLIMATE_MAX as int) * FP_ONE, CLIMATE_MAX as int * FP_ONE);
            assert(0 <= vals@[k as int] * w@[k as int]) by (nonlinear_arith)
                requires
                    0 <= vals@[k as int],
                    0 <= w@[k as int],
            {}
        }
        num = num + fp_mul(vals[k], w[k]);
        k = k + 1;
    }
    num
}

/// One weight-averaged climate component.
fn climate_avg(num: i64, total: i64) -> (r: i64)
    requires
        0 <= num <= 32 * CLIMATE_MAX,
        0 <= total <= 32 * FP_ONE,
    ensures
        r == spec_climate_avg(num as int, total as int),
        0 <= r <= CLIMATE_MAX,
{
    if total <= 0 {
        0
    } else {
        let scaled: i64 = num * FP_ONE;
        clamp_i64(div_floor(scaled, total), 0, CLIMATE_MAX)
    }
}



/// The positions of the kept cells, in kept order.
pub open spec fn spec_kept_pts(centers: Seq<CellCore>, p: Vec2) -> Seq<Vec2> {
    spec_kept(centers, p, spec_cutoff(centers, p), 0).map_values(|k: int| centers[k].point)
}

/// The blended biome list at a point: per-cell fade weights accumulated by
/// biome id.
#[verifier::opaque]
pub open spec fn spec_blended(centers: Seq<CellCore>, p: Vec2, default: RegistryId)
    -> Seq<BiomeEntry> {
    let kept = spec_kept(centers, p, spec_cutoff(centers, p), 0);
    let w = spec_weights(spec_kept_pts(centers, p), p);
    spec_merge(centers, kept, w, default, 0, Seq::empty())
}

/// The interpolated climate triple at a point: each component the
/// weight-average of the kept cells' cached values.
#[verifier::opaque]
pub open spec fn spec_blended_climate(centers: Seq<CellCore>, p: Vec2) -> NoiseValues {
    let kept = spec_kept(centers, p, spec_cutoff(centers, p), 0);
    let w = spec_weights(spec_kept_pts(centers, p), p);
    let total = spec_weight_sum(w, 0);
    let elev = kept.map_values(|k: int| centers[k].noise.elevation);
    let temp = kept.map_values(|k: int| centers[k].noise.temperature);
    let moist = kept.map_values(|k: int| centers[k].noise.moisture);
    NoiseValues {
        elevation: spec_climate_avg(spec_climate_num(elev, w, 0), total) as i64,
        temperature: spec_climate_avg(spec_climate_num(temp, w, 0), total) as i64,
        moisture: spec_climate_avg(spec_climate_num(moist, w, 0), total) as i64,
    }
}

/// The weighted biome list and interpolated climate values for a point.
///
/// The distance to the nearest cell bounds which cells are kept; the kept
/// cells are then folded in cell order, so the result is a pure function
/// of the cells and the point.  The returned entry weights sum to exactly
/// the sum of the per-cell weights before biome-merging: merging never
/// drops weight.
pub fn find_biomes_at_point(centers: &Vec<Center>, point: Vec2, default: RegistryId,
    Ghost(cpos): Ghost<ChunkPos>, Ghost(nbiomes): Ghost<int>)
    -> (r: (Vec<BiomeEntry>, NoiseValues))
    requires
        centers_in_box(centers@, cpos),
        centers_noise_wf(centers@),
        centers_biomes_valid(spec_core(centers@), nbiomes),
        point_in_box(point, cpos),
        cpos.wf(),
        centers@.len() <= 32,
        1 <= default.raw <= nbiomes,
    ensures
        r.0@ == spec_blended(spec_core(centers@), point, default),
        r.1 == spec_blended_climate(spec_core(centers@), point),
        spec_entry_weight_sum(r.0@, 0)
            == spec_weight_sum(spec_weights(spec_kept_pts(spec_core(centers@), point), point), 0),
        forall|k: int| 0 <= k < r.0@.len()
            ==> (#[trigger] r.0@[k]).weight >= 0 && r.0@[k].weight <= 32 * FP_ONE
                && 1 <= r.0@[k].id.raw <= nbiomes,
        r.0@.len() <= centers@.len(),
        r.1.wf(),
{
    proof {
        reveal(spec_blended);
        reveal(spec_blended_climate);
    }
    let d2min: i64 = closest_d2(centers, point, Ghost(cpos));
    let d0: i64 = isqrt(d2min as u64) as i64;
    proof {
        assert(d0 <= 0x80_0000) by {
            assert(crate::fixed::is_isqrt(d2min as int, d0 as int));
            assert(d0 > 0x80_0000 ==> d0 * d0 > FAR_DIST2) by (nonlinear_arith)
                requires
                    FAR_DIST2 == 0x4000_0000_0000,
            {}
        };
    }
    let cutoff: i64 = 4 * BIOME_BLEND_RADIUS + d0;
    let kept = collect_kept(centers, point, cutoff, Ghost(cpos));
    proof {
        assert(kept.pts@ =~= spec_kept_pts(spec_core(centers@), point));
        assert(pts_in_box(kept.pts@, cpos));
        assert forall|k: int| 0 <= k < kept.elev@.len() implies 0 <= (#[trigger] kept.elev@[k])
            <= CLIMATE_MAX by {
            assert(centers@[kept.idx@[k] as int].noise.wf());
        }
        assert forall|k: int| 0 <= k < kept.temp@.len() implies 0 <= (#[trigger] kept.temp@[k])
            <= CLIMATE_MAX by {
            assert(centers@[kept.idx@[k] as int].noise.wf());
        }
        assert forall|k: int| 0 <= k < kept.moist@.len() implies 0
            <= (#[trigger] kept.moist@[k]) <= CLIMATE_MAX by {
            assert(centers@[kept.idx@[k] as int].noise.wf());
        }
        assert(vals_on_scale(kept.elev@));
        assert(vals_on_scale(kept.temp@));
        assert(vals_on_scale(kept.moist@));
    }
    let w = compute_weights(&kept.pts, point, Ghost(cpos));
    let entries = merge_entries(centers, &kept.idx, &w, default, Ghost(nbiomes));
    let total: i64 = weight_sum(&w);
    let ne: i64 = climate_num(&kept.elev, &w);
    let nt: i64 = climate_num(&kept.temp, &w);
    let nm: i64 = climate_num(&kept.moist, &w);
    let climate = NoiseValues {
        elevation: climate_avg(ne, total),
        temperature: climate_avg(nt, total),
        moisture: climate_avg(nm, total),
    };
    proof {
        assert(kept.elev@ =~= spec_kept(spec_core(centers@), point,
            spec_cutoff(spec_core(centers@), point), 0)
            .map_values(|k: int| spec_core(centers@)[k].noise.elevation));
        assert(kept.temp@ =~= spec_kept(spec_core(centers@), point,
            spec_cutoff(spec_core(centers@), point), 0)
            .map_values(|k: int| spec_core(centers@)[k].noise.temperature));
        assert(kept.moist@ =~= spec_kept(spec_core(centers@), point,
            spec_cutoff(spec_core(centers@), point), 0)
            .map_values(|k: int| spec_core(centers@)[k].noise.moisture));
    }
    (entries, climate)
}



/// Every entry of a blended list carries a valid biome id and a bounded
/// non-negative weight.
pub open spec fn entries_ok(entries: Seq<BiomeEntry>, nbiomes: int) -> bool {
    forall|k: int| 0 <= k < entries.len() ==> {
        &&& (#[trigger] entries[k]).weight >= 0
        &&& entries[k].weight <= 32 * FP_ONE
        &&& 1 <= entries[k].id.raw <= nbiomes
    }
}

/// The normalized surface sample of one biome at a point, shifted from a
/// signed value onto a non-negative scale around one half.
pub open spec fn spec_surface_nf(b: BiomeDefinition, base: Fbm, x: int, z: int) -> int {
    fdiv(spec_surface_value(b.surface_noise, base, x, z) + FP_ONE, 2)
}

/// The blend strength of one entry: its weight times its biome's blend
/// influence.
pub open spec fn spec_blend_strength(e: BiomeEntry, b: BiomeDefinition) -> int {
    spec_fp_mul(e.weight as int, b.blend_influence as int)
}

/// Weighted surface-sample sum over the blended entries from index `i`.
pub open spec fn spec_height_num(entries: Seq<BiomeEntry>, biomes: Seq<BiomeDefinition>,
    base: Fbm, x: int, z: int, i: int) -> int
    decreases entries.len() - i,
{
    if i < 0 || i >= entries.len() {
        0
    } else {
        let b = biomes[entries[i].id.raw - 1];
        spec_fp_mul(spec_surface_nf(b, base, x, z), spec_blend_strength(entries[i], b))
            + spec_height_num(entries, biomes, base, x, z, i + 1)
    }
}

/// Total blend strength over the blended entries from index `i`.
pub open spec fn spec_height_total(entries: Seq<BiomeEntry>, biomes: Seq<BiomeDefinition>,
    i: int) -> int
    decreases entries.len() - i,
{
    if i < 0 || i >= entries.len() {
        0
    } else {
        let b = biomes[entries[i].id.raw - 1];
        spec_blend_strength(entries[i], b) + spec_height_total(entries, biomes, i + 1)
    }
}

/// The blended terrain height at a point, fixed point: the strength-
/// weighted average of the contributing biomes' surface samples.
pub open spec fn spec_height_fp(entries: Seq<BiomeEntry>, biomes: Seq<BiomeDefinition>,
    base: Fbm, x: int, z: int) -> int {
    let num = spec_height_num(entries, biomes, base, x, z, 0);
    let total = spec_height_total(entries, biomes, 0);
    if total <= 0 {
        0
    } else {
        spec_clamp(fdiv(num * FP_ONE, total), -SURFACE_HEIGHT_MAX as int,
            SURFACE_HEIGHT_MAX as int)
    }
}

/// The column's ground height in blocks: the blended height rounded to the
/// nearest whole block.
pub open spec fn spec_height_blocks(entries: Seq<BiomeEntry>, biomes: Seq<BiomeDefinition>,
    base: Fbm, x: int, z: int) -> int {
    fdiv(spec_height_fp(entries, biomes, base, x, z) + FP_ONE / 2, FP_ONE as int)
}

/// Bounds of the height folds.
proof fn lemma_height_fold_bounds(entries: Seq<BiomeEntry>, biomes: Seq<BiomeDefinition>,
    base: Fbm, x: int, z: int, i: int)
    requires
        entries_ok(entries, biomes.len() as int),
        biomes_wf(biomes),
        0 <= i <= entries.len(),
    ensures
        -(entries.len() - i) * 0x80_0000_0000 <= spec_height_num(entries, biomes, base, x, z,
            i) <= (entries.len() - i) * 0x80_0000_0000,
        0 <= spec_height_total(entries, biomes, i) <= (entries.len() - i) * 0x80_0000,
    decreases entries.len() - i,
{
    if i < entries.len() {
        let b = biomes[entries[i].id.raw - 1];
        assert(b.wf());
        lemma_abs_mul_le(entries[i].weight as int, b.blend_influence as int,
            32 * FP_ONE as int, NOISE_PARAM_MAX as int);
        lemma_fdiv_bounds(entries[i].weight as int * b.blend_influence as int, FP_ONE as int,
            -32 * (FP_ONE as int) * NOISE_PARAM_MAX, 32 * (FP_ONE as int) * NOISE_PARAM_MAX);
        assert(0 <= entries[i].weight * b.blend_influence) by (nonlinear_arith)
            requires
                0 <= entries[i].weight,
                0 <= b.blend_influence,
        {}
        let nf = spec_surface_nf(b, base, x, z);
        lemma_surface_nf_bounds(b, base, x, z);
        lemma_abs_mul_le(nf, spec_blend_strength(entries[i], b), 0x4_0000int, 0x80_0000int);
        lemma_fdiv_bounds(nf * spec_blend_strength(entries[i], b), FP_ONE as int,
            -(0x4_0000int * 0x80_0000), 0x4_0000int * 0x80_0000);
        lemma_height_fold_bounds(entries, biomes, base, x, z, i + 1);
    }
}

/// The normalized surface sample is bounded.
proof fn lemma_surface_nf_bounds(b: BiomeDefinition, base: Fbm, x: int, z: int)
    requires
        b.wf(),
    ensures
        -0x4_0000 <= spec_surface_nf(b, base, x, z) <= 0x4_0000,
{
    lemma_surface_value_bounds(b, base, x, z);
    lemma_fdiv_bounds(spec_surface_value(b.surface_noise, base, x, z) + FP_ONE, 2,
        -(SURFACE_HEIGHT_MAX as int) + FP_ONE, SURFACE_HEIGHT_MAX as int + FP_ONE);
}

/// A surface expression's value is clamped by construction.
proof fn lemma_surface_value_bounds(b: BiomeDefinition, base: Fbm, x: int, z: int)
    ensures
        -SURFACE_HEIGHT_MAX <= spec_surface_value(b.surface_noise, base, x, z)
            <= SURFACE_HEIGHT_MAX,
{
}

/// Compute a column's blended ground height from each contributing biome's
/// surface expression, weighted by blend influence, rounded to the nearest
/// block.
pub fn elevation_noise(blended: &Vec<BiomeEntry>, biome_registry: &BiomeRegistry,
    noises: &crate::biome::Noises, point: Vec2) -> (h: i64)
    requires
        entries_ok(blended@, biome_registry@.len() as int),
        biomes_wf(biome_registry@),
        noises.wf(),
        blended@.len() <= 32,
        biome_registry@.len() < 0xFFFF_FFFF,
        -POINT_BOUND <= point.x <= POINT_BOUND,
        -POINT_BOUND <= point.z <= POINT_BOUND,
    ensures
        h == spec_height_blocks(blended@, biome_registry@, noises.base_terrain_noise,
            point.x as int, point.z as int),
        -257 <= h <= 256,
{
    let ghost biomes = biome_registry@;
    let ghost base = noises.base_terrain_noise;
    let mut num: i64 = 0;
    let mut total: i64 = 0;
    let mut i: usize = 0;
    let n: usize = blended.len();
    proof {
        lemma_height_fold_bounds(blended@, biomes, base, point.x as int, point.z as int, 0);
    }
    while i < n
        invariant
            i <= n,
            n == blended@.len(),
            num + spec_height_num(blended@, biomes, base, point.x as int, point.z as int,
                i as int)
                == spec_height_num(blended@, biomes, base, point.x as int, point.z as int, 0),
            total + spec_height_total(blended@, biomes, i as int)
                == spec_height_total(blended@, biomes, 0),
            -(i as int) * 0x80_0000_0000 <= num <= i as int * 0x80_0000_0000,
            0 <= total <= i as int * 0x80_0000,
            base == noises.base_terrain_noise,
            biomes == biome_registry@,
        decreases n - i,
    {
        let e: BiomeEntry = blended[i];
        let bopt = e.lookup(biome_registry);
        let b: &BiomeDefinition = bopt.unwrap();
        proof {
            assert(*b == biomes[e.id.raw - 1]);
            assert(b.wf());
            lemma_height_fold_bounds(blended@, biomes, base, point.x as int, point.z as int,
                i as int);
            lemma_height_fold_bounds(blended@, biomes, base, point.x as int, point.z as int,
                i + 1);
            lemma_surface_nf_bounds(*b, base, point.x as int, point.z as int);
            lemma_abs_mul_le(e.weight as int, b.blend_influence as int, 32 * FP_ONE as int,
                NOISE_PARAM_MAX as int);
            lemma_fdiv_bounds(e.weight as int * b.blend_influence as int, FP_ONE as int,
                -32 * (FP_ONE as int) * NOISE_PARAM_MAX, 32 * (FP_ONE as int)
                    * NOISE_PARAM_MAX);
            assert(0 <= e.weight * b.blend_influence) by (nonlinear_arith)
                requires
                    0 <= e.weight,
                    0 <= b.blend_influence,
            {}
        }
        let sv: i64 = surface_value(&b.surface_noise, &noises.base_terrain_noise, point);
        let nf: i64 = div_floor(sv + FP_ONE, 2);
        proof {
            lemma_fdiv_bounds(sv as int + FP_ONE, 2, -(SURFACE_HEIGHT_MAX as int) + FP_ONE,
                SURFACE_HEIGHT_MAX as int + FP_ONE);
        }
        let strength: i64 = fp_mul(e.weight, b.blend_influence);
        proof {
            lemma_abs_mul_le(nf as int, strength as int, 0x4_0000int, 0x80_0000int);
            lemma_fdiv_bounds(nf as int * strength as int, FP_ONE as int,
                -(0x4_0000int * 0x80_0000), 0x4_0000int * 0x80_0000);
        }
        num = num + fp_mul(nf, strength);
        total = total + strength;
        i = i + 1;
    }
    let hfp: i64 = if total <= 0 {
        0
    } else {
        proof {
            lemma_abs_mul_le(num as int, FP_ONE as int, 32int * 0x80_0000_0000, FP_ONE as int);
        }
        clamp_i64(div_floor(num * FP_ONE, total), -SURFACE_HEIGHT_MAX, SURFACE_HEIGHT_MAX)
    };
    proof {
        lemma_fdiv_bounds(hfp as int + FP_ONE / 2, FP_ONE as int,
            -(SURFACE_HEIGHT_MAX as int) + FP_ONE / 2, SURFACE_HEIGHT_MAX as int
                + FP_ONE / 2);
    }
    div_floor(hfp + FP_ONE / 2, FP_ONE)
}


} // verus!
