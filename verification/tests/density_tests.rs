use fluid_sim::cells::{build_cell_index_pass, BuildCellIndexConstants};
use fluid_sim::config::{Aabb, SimulationConfig};
use fluid_sim::density::{density_pass, SpikySphConstants};
use fluid_sim::fixed::Vec3Fx;
use fluid_sim::integrate::{predict_position_pass, PredictPositionConstants};
use fluid_sim::morton::{morton_hash_pass, MortonHashConstants};
use fluid_sim::neighbors::{neighbor_search_pass, NeighborSearchConstants};
use fluid_sim::pipeline::DescriptorCache;
use fluid_sim::sort::RadixSortSystem;
use fluid_sim::store::{ParticleInitData, Particles};

fn unit_aabb() -> Aabb {
    Aabb::new(
        Vec3Fx::new(-1_000_000, -1_000_000, -1_000_000),
        Vec3Fx::new(1_000_000, 1_000_000, 1_000_000),
    )
}

#[test]
fn test_spiky_sph_density_calculation() {
    let mut particles = Particles::new(64, 64);
    particles.add_particles(&vec![
        ParticleInitData {
            position: Vec3Fx::new(0, 0, 0),
            velocity: Vec3Fx::new(0, 0, 0),
        },
        ParticleInitData {
            position: Vec3Fx::new(100_000, 0, 0),
            velocity: Vec3Fx::new(0, 0, 0),
        },
        ParticleInitData {
            position: Vec3Fx::new(0, 100_000, 0),
            velocity: Vec3Fx::new(0, 0, 0),
        },
    ]);

    let n = particles.count;
    predict_position_pass(
        &mut particles,
        PredictPositionConstants::new(n, 16_000, unit_aabb()),
    );
    let n = particles.count;
    morton_hash_pass(&mut particles, MortonHashConstants::new(n, 100_000));

    let mut sort_system = RadixSortSystem::new();
    let mut cache = DescriptorCache::new();
    sort_system.sort_morton_codes(&mut particles, &mut cache);

    let n = particles.count;
    build_cell_index_pass(&mut particles, BuildCellIndexConstants::new(n));

    // The estimator sums over precomputed neighbor lists, so the search
    // runs first.
    let nb = NeighborSearchConstants::new(particles.count, 200_000, 100_000, particles.max_neighbors);
    neighbor_search_pass(&mut particles, nb);

    // mass 0.02, radius 0.2, grid 0.1
    let constants = SpikySphConstants::new(particles.count, 20_000, 200_000, 100_000);
    density_pass(&mut particles, constants);

    assert!(particles.density.len() >= particles.count as usize);
    for i in 0..particles.count as usize {
        assert!(
            particles.density[i] > 0,
            "Density should be positive for particle {}",
            i
        );
    }
    // The center particle has both others in reach, so it is at least
    // as dense as either of them.
    assert!(particles.density[0] >= particles.density[1]);
    assert!(particles.density[0] >= particles.density[2]);
}

#[test]
fn test_cell_index_debug() {
    // A 10x10 sheet with 0.1 spacing hashed over a 0.2 grid: the cell
    // table must bracket every particle, and a density pass over a 0.2
    // radius must then find mass everywhere.
    let mut particles = Particles::new(256, 96);
    let mut batch = Vec::new();
    for i in 0..100i64 {
        let x = (i % 10) * 100_000;
        let y = (i / 10 % 10) * 100_000;
        batch.push(ParticleInitData {
            position: Vec3Fx::new(x, y, 0),
            velocity: Vec3Fx::new(0, 0, 0),
        });
    }
    particles.add_particles(&batch);

    let n = particles.count;
    predict_position_pass(
        &mut particles,
        PredictPositionConstants::new(n, 16_000, unit_aabb()),
    );
    let n = particles.count;
    morton_hash_pass(&mut particles, MortonHashConstants::new(n, 200_000));

    let mut sort_system = RadixSortSystem::new();
    let mut cache = DescriptorCache::new();
    sort_system.sort_morton_codes(&mut particles, &mut cache);

    let n = particles.count;
    build_cell_index_pass(&mut particles, BuildCellIndexConstants::new(n));

    let mut used_cells = 0u32;
    let mut covered = 0u64;
    for c in 0..65536usize {
        let s = particles.cell_start[c];
        let e = particles.cell_end[c];
        if s != 0xffff_ffff && e != 0xffff_ffff {
            used_cells += 1;
            covered += (e - s) as u64;
        }
    }
    assert!(used_cells > 0);
    assert_eq!(covered, particles.count as u64);

    // The estimator sums over precomputed neighbor lists, so the search
    // runs first: radius 0.2, matching the hash grid.
    let nb = NeighborSearchConstants::new(particles.count, 200_000, 200_000, particles.max_neighbors);
    neighbor_search_pass(&mut particles, nb);
    let constants = SpikySphConstants::new(particles.count, 20_000, 200_000, 200_000);
    density_pass(&mut particles, constants);

    let mut non_zero_count = 0u32;
    for i in 0..particles.count as usize {
        if particles.density[i] > 0 {
            non_zero_count += 1;
        }
    }
    assert!(
        non_zero_count > 0,
        "At least some particles should have non-zero density"
    );
}

#[test]
fn test_large_scale_density() {
    // The high-quality preset over a cubic lattice with 0.02 spacing;
    // a modest count keeps the scan quick while the lattice and the
    // configuration stay as the preset sets them.
    let particle_count: usize = 1000;
    let side: i64 = 10;
    let config = SimulationConfig::high_quality();

    let mut particles = Particles::new(4096, config.max_neighbors);
    let mut batch = Vec::new();
    for i in 0..particle_count as i64 {
        let x = (i % side) * 20_000;
        let y = ((i / side) % side) * 20_000;
        let z = (i / (side * side)) * 20_000;
        batch.push(ParticleInitData {
            position: Vec3Fx::new(x, y, z),
            velocity: Vec3Fx::new(0, 0, 0),
        });
    }
    particles.add_particles(&batch);

    let n = particles.count;
    predict_position_pass(
        &mut particles,
        PredictPositionConstants::new(n, 16_000, unit_aabb()),
    );
    let n = particles.count;
    morton_hash_pass(&mut particles, MortonHashConstants::new(n, config.grid_size));

    let mut sort_system = RadixSortSystem::new();
    let mut cache = DescriptorCache::new();
    sort_system.sort_morton_codes(&mut particles, &mut cache);

    let n = particles.count;
    build_cell_index_pass(&mut particles, BuildCellIndexConstants::new(n));

    let nb = NeighborSearchConstants::new(
        particles.count,
        config.sph_params.smoothing_radius,
        config.grid_size,
        particles.max_neighbors,
    );
    neighbor_search_pass(&mut particles, nb);

    let constants = SpikySphConstants::new(
        particles.count,
        config.sph_params.particle_mass,
        config.sph_params.smoothing_radius,
        config.grid_size,
    );
    density_pass(&mut particles, constants);

    let mut non_zero_count = 0u32;
    let mut zero_count = 0u32;
    for i in 0..particles.count as usize {
        if particles.density[i] > 0 {
            non_zero_count += 1;
        } else {
            zero_count += 1;
        }
    }
    assert!(
        non_zero_count > 0,
        "Large scale test should produce non-zero density"
    );
    // With the self term always counted, no particle is left at zero.
    assert_eq!(zero_count, 0);
}

#[test]
fn test_isolated_particle_density_is_self_term() {
    // One particle alone: its density is exactly the self contribution,
    // which a second isolated run reproduces.
    let mut a = Particles::new(8, 32);
    a.add_particles(&vec![ParticleInitData {
        position: Vec3Fx::new(0, 0, 0),
        velocity: Vec3Fx::new(0, 0, 0),
    }]);
    a.copy_position_to_predicted();
    let constants = SpikySphConstants::new(a.count, 20_000, 150_000, 112_500);
    density_pass(&mut a, constants);
    let lone = a.density[0];
    assert!(lone > 0);

    let mut b = Particles::new(8, 32);
    b.add_particles(&vec![ParticleInitData {
        position: Vec3Fx::new(500_000, -250_000, 125_000),
        velocity: Vec3Fx::new(0, 0, 0),
    }]);
    b.copy_position_to_predicted();
    let constants_b = SpikySphConstants::new(b.count, 20_000, 150_000, 112_500);
    density_pass(&mut b, constants_b);
    assert_eq!(
        b.density[0], lone,
        "an isolated particle's density is position independent"
    );
}
