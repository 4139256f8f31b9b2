use fluid_sim::cells::{build_cell_index_pass, BuildCellIndexConstants};
use fluid_sim::config::Aabb;
use fluid_sim::fixed::Vec3Fx;
use fluid_sim::integrate::{predict_position_pass, PredictPositionConstants};
use fluid_sim::morton::{morton_hash_pass, MortonHashConstants};
use fluid_sim::neighbors::{neighbor_search_pass, NeighborSearchConstants};
use fluid_sim::pipeline::DescriptorCache;
use fluid_sim::sort::RadixSortSystem;
use fluid_sim::store::{ParticleInitData, Particles};

fn unit_aabb() -> Aabb {
    Aabb::new(
        Vec3Fx::new(-1_000_000, -1_000_000, -1_000_000),
        Vec3Fx::new(1_000_000, 1_000_000, 1_000_000),
    )
}

#[test]
fn test_neighbor_search() {
    // A dense 10x10 sheet with 0.1 spacing, scanned with a 0.2 radius
    // over a 0.2 cell grid and rows of width 96.
    let mut particles = Particles::new(256, 96);
    let mut batch = Vec::new();
    for i in 0..100i64 {
        let x = (i % 10) * 100_000;
        let y = (i / 10) * 100_000;
        batch.push(ParticleInitData {
            position: Vec3Fx::new(x, y, 0),
            velocity: Vec3Fx::new(0, 0, 0),
        });
    }
    particles.add_particles(&batch);

    let n = particles.count;
    predict_position_pass(
        &mut particles,
        PredictPositionConstants::new(n, 16_000, unit_aabb()),
    );
    let n = particles.count;
    morton_hash_pass(&mut particles, MortonHashConstants::new(n, 200_000));

    let mut sort_system = RadixSortSystem::new();
    let mut cache = DescriptorCache::new();
    sort_system.sort_morton_codes(&mut particles, &mut cache);

    let n = particles.count;
    build_cell_index_pass(&mut particles, BuildCellIndexConstants::new(n));

    let constants = NeighborSearchConstants::new(particles.count, 200_000, 200_000, 96);
    neighbor_search_pass(&mut particles, constants);

    let count = particles.count as usize;
    let mut total_neighbors = 0u64;
    let mut particles_with_neighbors = 0u64;
    for i in 0..count {
        let neighbor_count = particles.contact_counts[i];
        assert!(neighbor_count <= 96, "count {} exceeds row width", neighbor_count);
        if neighbor_count > 0 {
            particles_with_neighbors += 1;
            total_neighbors += neighbor_count as u64;

            for t in 0..neighbor_count as usize {
                let neighbor_id = particles.contacts[i * 96 + t];
                assert!(
                    (neighbor_id as usize) < count,
                    "neighbor index out of range: {} >= {}",
                    neighbor_id,
                    count
                );
                assert_ne!(neighbor_id as usize, i, "a particle must not be its own neighbor");
            }
        }
    }
    assert!(
        particles_with_neighbors > 0,
        "some particles should have found neighbors"
    );
    assert!(total_neighbors > 0);
}
