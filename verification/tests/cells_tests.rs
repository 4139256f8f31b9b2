use fluid_sim::cells::{build_cell_index_pass, BuildCellIndexConstants, EMPTY_CELL};
use fluid_sim::config::Aabb;
use fluid_sim::fixed::Vec3Fx;
use fluid_sim::integrate::{predict_position_pass, PredictPositionConstants};
use fluid_sim::morton::{morton_hash_pass, MortonHashConstants};
use fluid_sim::pipeline::DescriptorCache;
use fluid_sim::sort::RadixSortSystem;
use fluid_sim::store::{ParticleInitData, Particles};

fn particle(x: i64, y: i64, z: i64) -> ParticleInitData {
    ParticleInitData {
        position: Vec3Fx::new(x, y, z),
        velocity: Vec3Fx::new(0, 0, 0),
    }
}

fn unit_aabb() -> Aabb {
    Aabb::new(
        Vec3Fx::new(-1_000_000, -1_000_000, -1_000_000),
        Vec3Fx::new(1_000_000, 1_000_000, 1_000_000),
    )
}

#[test]
fn test_build_cell_index() {
    let mut particles = Particles::new(64, 32);
    particles.add_particles(&vec![
        particle(0, 0, 0),
        particle(100_000, 0, 0), // Same cell
        particle(1_000_000, 0, 0), // Different cell
    ]);

    let n = particles.count;
    predict_position_pass(
        &mut particles,
        PredictPositionConstants::new(n, 16_000, unit_aabb()),
    );
    let n = particles.count;
    morton_hash_pass(&mut particles, MortonHashConstants::new(n, 1_000_000));

    let mut sort_system = RadixSortSystem::new();
    let mut cache = DescriptorCache::new();
    sort_system.sort_morton_codes(&mut particles, &mut cache);

    let n = particles.count;
    build_cell_index_pass(&mut particles, BuildCellIndexConstants::new(n));

    assert_eq!(particles.cell_start.len(), 65536);
    assert_eq!(particles.cell_end.len(), 65536);

    // The two co-located particles share a cell of width two; the third
    // sits alone. Summed over all non-sentinel cells, the ranges cover
    // every particle exactly once.
    let mut covered = 0u64;
    for c in 0..65536usize {
        let s = particles.cell_start[c];
        let e = particles.cell_end[c];
        if s != EMPTY_CELL {
            assert!(s < e, "cell {} has an empty or inverted range", c);
            assert!(e <= particles.count);
            covered += (e - s) as u64;
        } else {
            assert_eq!(e, EMPTY_CELL);
        }
    }
    assert_eq!(covered, particles.count as u64);
}
