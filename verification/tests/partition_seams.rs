//! The local spatial partition: structure, determinism and shared sites.

use worldgen::biome::Noises;
use worldgen::chunk::ChunkPos;
use worldgen::fbm_noise::Fbm;
use worldgen::partition::build_partition;

fn test_noises(seed: u32) -> Noises {
    Noises {
        base_terrain_noise: Fbm::new(seed),
        elevation_noise: Fbm::new(seed.wrapping_add(1)),
        temperature_noise: Fbm::new(seed.wrapping_add(2)),
        moisture_noise: Fbm::new(seed.wrapping_add(3)),
    }
}

#[test]
fn partition_has_expected_shape() {
    let noises = test_noises(900);
    let p = build_partition(17, &noises, ChunkPos::new(0, 0, 0));
    // 25 jittered sites (fewer only if two round to the same block).
    assert!(p.centers.len() >= 20 && p.centers.len() <= 25);
    // 16 cells each contribute a diagonal edge, plus 12 interior vertical
    // and 12 interior horizontal grid edges.
    assert_eq!(p.edges.len(), 40);
    assert!(!p.corners.is_empty() && p.corners.len() <= 32);
    for (idx, e) in p.edges.iter().enumerate() {
        let d0 = e.d0.unwrap();
        let d1 = e.d1.unwrap();
        let v0 = e.v0.unwrap();
        let v1 = e.v1.unwrap();
        assert!(d0 < p.centers.len() && d1 < p.centers.len());
        assert!(v0 < p.corners.len() && v1 < p.corners.len());
        // The mutual linking ran for this edge in all directions.
        assert!(p.centers[d0].borders.contains(&idx));
        assert!(p.centers[d1].borders.contains(&idx));
        assert!(p.corners[v0].protrudes.contains(&idx));
        assert!(p.corners[v1].protrudes.contains(&idx));
        assert!(p.corners[v0].touches.contains(&d0));
        assert!(p.corners[v1].touches.contains(&d1));
        if d0 != d1 {
            assert!(p.centers[d0].neighbors.contains(&d1));
            assert!(p.centers[d1].neighbors.contains(&d0));
        }
        if v0 != v1 {
            assert!(p.corners[v0].adjacent.contains(&v1));
            assert!(p.corners[v1].adjacent.contains(&v0));
        }
        assert!(p.centers[d0].corners.contains(&v0));
        assert!(p.centers[d1].corners.contains(&v1));
        // The cached midpoint is the floor midpoint of the corner pair.
        let pa = p.corners[v0].point;
        let pb = p.corners[v1].point;
        assert_eq!(e.midpoint.x, (pa.x + pb.x).div_euclid(2));
        assert_eq!(e.midpoint.z, (pa.z + pb.z).div_euclid(2));
    }
    for c in &p.centers {
        for n in &c.neighbors {
            assert!(*n < p.centers.len());
        }
        for b in &c.borders {
            assert!(*b < p.edges.len());
        }
        // No adjacency list repeats an entry.
        for (i, a) in c.neighbors.iter().enumerate() {
            assert!(!c.neighbors[i + 1..].contains(a));
        }
    }
}

#[test]
fn partition_is_deterministic() {
    let noises = test_noises(4242);
    let a = build_partition(99, &noises, ChunkPos::new(5, 0, -3));
    let b = build_partition(99, &noises, ChunkPos::new(5, 0, -3));
    assert_eq!(a.centers.len(), b.centers.len());
    for (ca, cb) in a.centers.iter().zip(b.centers.iter()) {
        assert_eq!(ca.point, cb.point);
        assert_eq!(ca.noise, cb.noise);
    }
    assert_eq!(a.corners.len(), b.corners.len());
    for (ka, kb) in a.corners.iter().zip(b.corners.iter()) {
        assert_eq!(ka.point, kb.point);
    }
    assert_eq!(a.edges, b.edges);
}

#[test]
fn adjacent_chunks_agree_on_shared_sites() {
    // Chunks (0,0,0) and (1,0,0) cover overlapping 5-by-5 site grids; the
    // twenty shared sites must come out bit-identical in both partitions,
    // positions and climate samples alike.
    let noises = test_noises(31);
    let a = build_partition(7, &noises, ChunkPos::new(0, 0, 0));
    let b = build_partition(7, &noises, ChunkPos::new(1, 0, 0));
    let mut shared = 0;
    for ca in &a.centers {
        for cb in &b.centers {
            if ca.point == cb.point {
                assert_eq!(ca.noise, cb.noise);
                shared += 1;
            }
        }
    }
    assert!(shared >= 15, "expected many shared sites, found {}", shared);
}
