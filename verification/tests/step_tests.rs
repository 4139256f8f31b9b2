use fluid_sim::cells::{build_cell_index_pass, BuildCellIndexConstants};
use fluid_sim::config::SimulationConfig;
use fluid_sim::density::{density_pass, SpikySphConstants};
use fluid_sim::fixed::Vec3Fx;
use fluid_sim::integrate::{
    apply_gravity_pass, predict_position_pass, ApplyGravityConstants, PredictPositionConstants,
};
use fluid_sim::morton::{morton_hash_pass, MortonHashConstants};
use fluid_sim::neighbors::{neighbor_search_pass, NeighborSearchConstants};
use fluid_sim::pipeline::{next_state, DescriptorCache, SimStage, StepState};
use fluid_sim::solver::{pbd_solve, PbdDensityConstraintConstants};
use fluid_sim::sort::RadixSortSystem;
use fluid_sim::step::{AdaptiveSortSystem, SimulationStepTiming, SimulationTasks};
use fluid_sim::store::{ParticleInitData, Particles};

fn dense_store() -> Particles {
    let mut particles = Particles::new(64, 32);
    let mut batch = Vec::new();
    for i in 0..27i64 {
        batch.push(ParticleInitData {
            position: Vec3Fx::new((i % 3) * 100_000, ((i / 3) % 3) * 100_000, (i / 9) * 100_000),
            velocity: Vec3Fx::new(0, 0, 0),
        });
    }
    particles.add_particles(&batch);
    particles
}

#[test]
fn test_pbd_zero_iterations_is_identity() {
    // Run the pipeline up to the solver, snapshot the predicted
    // positions, then solve with zero iterations: nothing may move.
    let config = SimulationConfig::default();
    let mut particles = dense_store();

    let n = particles.count;
    predict_position_pass(
        &mut particles,
        PredictPositionConstants::new(n, 16_000, config.simulation_aabb),
    );
    let n = particles.count;
    morton_hash_pass(&mut particles, MortonHashConstants::new(n, config.grid_size));
    let mut sort_system = RadixSortSystem::new();
    let mut cache = DescriptorCache::new();
    sort_system.sort_morton_codes(&mut particles, &mut cache);
    let n = particles.count;
    build_cell_index_pass(&mut particles, BuildCellIndexConstants::new(n));
    let nb = NeighborSearchConstants::new(
        particles.count,
        config.sph_params.smoothing_radius,
        config.grid_size,
        particles.max_neighbors,
    );
    neighbor_search_pass(&mut particles, nb);
    let sph = SpikySphConstants::new(
        particles.count,
        config.sph_params.particle_mass,
        config.sph_params.smoothing_radius,
        config.grid_size,
    );
    density_pass(&mut particles, sph);

    let snapshot = particles.predicted_position.clone();
    let constants = PbdDensityConstraintConstants::new(
        particles.count,
        config.sph_params.rest_density,
        config.sph_params.smoothing_radius,
        config.sph_params.pbd_constraint_epsilon,
        config.sph_params.pbd_relaxation_factor,
        config.grid_size,
        config.simulation_aabb,
    );
    pbd_solve(&mut particles, constants, 0);
    assert_eq!(particles.predicted_position, snapshot);

    // One iteration is allowed to move things, but keeps everything in
    // the simulation volume.
    pbd_solve(&mut particles, constants, 1);
    for i in 0..particles.count as usize {
        let p = particles.predicted_position[i];
        assert!(p.x >= config.simulation_aabb.min.x && p.x <= config.simulation_aabb.max.x);
        assert!(p.y >= config.simulation_aabb.min.y && p.y <= config.simulation_aabb.max.y);
        assert!(p.z >= config.simulation_aabb.min.z && p.z <= config.simulation_aabb.max.z);
    }
}

#[test]
fn test_full_step_executes_in_order() {
    let config = SimulationConfig::default();
    let mut particles = dense_store();
    let mut cache = DescriptorCache::new();

    let dt = config.clamp_time_step(16_000);
    let mut tasks = SimulationTasks::set_constants_from_config(
        &config,
        particles.count,
        dt,
        particles.max_neighbors,
    );
    tasks.execute(&mut particles, &mut cache, &config, dt);

    assert_eq!(particles.count, 27);
    for i in 0..particles.count as usize {
        let p = particles.position[i];
        assert!(p.x >= config.simulation_aabb.min.x && p.x <= config.simulation_aabb.max.x);
        assert!(p.y >= config.simulation_aabb.min.y && p.y <= config.simulation_aabb.max.y);
        assert!(p.z >= config.simulation_aabb.min.z && p.z <= config.simulation_aabb.max.z);
        assert!(particles.density[i] > 0);
    }
    // Gravity pulled everything downward over the step.
    assert!(particles.velocity[0].y < 0);
}

#[test]
fn test_step_zero_iterations_keeps_prediction() {
    // With zero solver iterations the commit consumes exactly what the
    // predict stage produced: replaying gravity and predict alone on an
    // identical store reproduces the step's predicted positions.
    let mut config = SimulationConfig::default();
    config.sph_params.pbd_iterations = 0;

    let mut stepped = dense_store();
    let mut replay = dense_store();
    let mut cache = DescriptorCache::new();

    let dt = config.clamp_time_step(16_000);
    let mut tasks = SimulationTasks::set_constants_from_config(
        &config,
        stepped.count,
        dt,
        stepped.max_neighbors,
    );
    tasks.execute(&mut stepped, &mut cache, &config, dt);

    let n = replay.count;
    apply_gravity_pass(&mut replay, ApplyGravityConstants::new(n, dt, config.gravity));
    let n = replay.count;
    predict_position_pass(
        &mut replay,
        PredictPositionConstants::new(n, dt, config.simulation_aabb),
    );
    assert_eq!(stepped.predicted_position, replay.predicted_position);
}

#[test]
fn test_adaptive_sort_sorts_the_pairs() {
    // When the decision fires, the particles really are sorted and the
    // cache really is cleared.
    let mut adaptive = AdaptiveSortSystem::new();
    let mut particles = dense_store();
    let mut cache = DescriptorCache::new();
    particles.copy_position_to_predicted();
    let n = particles.count;
    morton_hash_pass(&mut particles, MortonHashConstants::new(n, 100_000));
    cache.bind(SimStage::BuildCellIndex, particles.buffer_generation);

    assert!(adaptive.update_sort(&mut particles, &mut cache, 4, false));
    let count = particles.count as usize;
    for i in 1..count {
        assert!(particles.hash[i - 1] <= particles.hash[i]);
    }
    assert_eq!(cache.lookup(SimStage::BuildCellIndex), None);
}

#[test]
fn test_step_state_machine_order() {
    // The arcs of one step with two solver iterations, in order.
    let iters = 2u32;
    let mut s = StepState::Idle;
    let expected = vec![
        StepState::GravityApplied,
        StepState::Predicted,
        StepState::Hashed,
        StepState::Sorted,
        StepState::CellIndexed,
        StepState::NeighborsFound,
        StepState::DensityComputed,
        StepState::Solving(0),
        StepState::Solving(1),
        StepState::Committed,
        StepState::Idle,
    ];
    for e in expected {
        s = next_state(s, iters);
        assert_eq!(s, e);
    }

    // With zero iterations the solver loop is skipped entirely.
    let s = next_state(StepState::DensityComputed, 0);
    assert_eq!(s, StepState::Committed);
}

#[test]
fn test_descriptor_cache_invalidation() {
    let mut cache = DescriptorCache::new();
    assert_eq!(cache.lookup(SimStage::MortonHash), None);
    cache.bind(SimStage::MortonHash, 7);
    cache.bind_if_missing(SimStage::MortonHash, 8);
    assert_eq!(cache.lookup(SimStage::MortonHash), Some(7));
    cache.clear();
    assert_eq!(cache.lookup(SimStage::MortonHash), None);

    // A sort invalidates every binding: rebinding afterwards picks up
    // the new buffer generation.
    let mut particles = dense_store();
    let generation_before = particles.buffer_generation;
    cache.bind(SimStage::BuildCellIndex, generation_before);
    let mut sort_system = RadixSortSystem::new();
    sort_system.sort_morton_codes(&mut particles, &mut cache);
    assert_eq!(cache.lookup(SimStage::BuildCellIndex), None);
    assert_ne!(particles.buffer_generation, generation_before);
}

#[test]
fn test_adaptive_sort_interval() {
    let mut adaptive = AdaptiveSortSystem::new();
    let mut particles = dense_store();
    let mut cache = DescriptorCache::new();
    particles.copy_position_to_predicted();
    let n = particles.count;
    morton_hash_pass(&mut particles, MortonHashConstants::new(n, 100_000));

    assert_eq!(adaptive.sort_interval(), 4);
    assert!(!adaptive.update_sort(&mut particles, &mut cache, 1, false));
    assert!(!adaptive.update_sort(&mut particles, &mut cache, 3, false));
    assert!(adaptive.update_sort(&mut particles, &mut cache, 4, false));
    assert!(!adaptive.update_sort(&mut particles, &mut cache, 5, false));
    assert!(adaptive.update_sort(&mut particles, &mut cache, 5, true));
    adaptive.set_sort_interval(1);
    assert!(adaptive.update_sort(&mut particles, &mut cache, 6, false));
}

#[test]
fn test_timing_record_starts_empty() {
    let t = SimulationStepTiming::new();
    assert_eq!(t.total_time, 0);
    assert_eq!(t.radix_sort_time, 0);
}
