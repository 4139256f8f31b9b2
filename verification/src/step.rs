//! One simulation step: the strict stage order, from gravity to commit.
//!
//! The step is a fixed pipeline — forces, prediction, hashing, sorting,
//! cell indexing, neighbor search, density estimation, the constraint
//! iterations, and the final commit. Each stage's preconditions are
//! discharged by the postconditions of the stage before it; no stage
//! may be skipped or reordered.

use vstd::prelude::*;

use crate::cells::{build_cell_index_pass, end_entry, start_entry, BuildCellIndexConstants};
use crate::config::{Aabb, SimulationConfig, POS_LIMIT, VEL_LIMIT};
use crate::density::{density_of, density_pass, SpikySphConstants};
use crate::fixed::{fx_clamp_spec, fx_mul_spec, Vec3Fx};
use crate::integrate::{
    apply_gravity_pass, commit_velocity_spec, gravity_step_spec, predict_position_pass,
    predict_spec, update_position_pass, ApplyGravityConstants, PredictPositionConstants,
    UpdatePositionConstants,
};
use crate::morton::{morton_hash_pass, morton_hash_spec, MortonHashConstants};
use crate::neighbors::{neighbor_search_pass, scan_accepted, NeighborSearchConstants};
use crate::pipeline::DescriptorCache;
use crate::solver::{pbd_solve, pbd_solve_spec, PbdDensityConstraintConstants};
use crate::sort::{pairs_upto, radix_sort_spec, RadixSortSystem};
use crate::store::Particles;

verus! {

/// The velocity column after the gravity stage.
pub open spec fn step_velocities(v0: Seq<Vec3Fx>, g: Vec3Fx, dt: int, n: int) -> Seq<Vec3Fx> {
    Seq::new(
        v0.len(),
        |i: int|
            if 0 <= i < n {
                Vec3Fx {
                    x: gravity_step_spec(v0[i].x as int, g.x as int, dt) as i64,
                    y: gravity_step_spec(v0[i].y as int, g.y as int, dt) as i64,
                    z: gravity_step_spec(v0[i].z as int, g.z as int, dt) as i64,
                }
            } else {
                v0[i]
            },
    )
}

/// The predicted-position column after the prediction stage.
pub open spec fn step_predicted(
    p0: Seq<Vec3Fx>,
    v1: Seq<Vec3Fx>,
    dt: int,
    aabb: Aabb,
    pred0: Seq<Vec3Fx>,
    n: int,
) -> Seq<Vec3Fx> {
    Seq::new(
        pred0.len(),
        |i: int|
            if 0 <= i < n {
                Vec3Fx {
                    x: predict_spec(
                        p0[i].x as int,
                        v1[i].x as int,
                        dt,
                        aabb.min.x as int,
                        aabb.max.x as int,
                    ) as i64,
                    y: predict_spec(
                        p0[i].y as int,
                        v1[i].y as int,
                        dt,
                        aabb.min.y as int,
                        aabb.max.y as int,
                    ) as i64,
                    z: predict_spec(
                        p0[i].z as int,
                        v1[i].z as int,
                        dt,
                        aabb.min.z as int,
                        aabb.max.z as int,
                    ) as i64,
                }
            } else {
                pred0[i]
            },
    )
}

/// The `(hash, slot)` pairs the sort consumes: each live particle's
/// Morton code paired with the identity index.
pub open spec fn step_hash_pairs(pred1: Seq<Vec3Fx>, grid: int, n: int) -> Seq<(u32, u32)> {
    Seq::new(n as nat, |i: int| (morton_hash_spec(pred1[i], grid), i as u32))
}

/// Wall-clock cost of each stage of one step, in microseconds.
///
/// Collected by the embedding around the dispatches; the core itself
/// keeps no clock.
#[derive(Clone, Copy, Debug, PartialEq, Eq, Structural)]
pub struct SimulationStepTiming {
    pub morton_hash_time: u64,
    pub radix_sort_time: u64,
    pub neighbor_search_time: u64,
    pub sph_density_time: u64,
    pub pbd_constraint_time: u64,
    pub gravity_time: u64,
    pub position_update_time: u64,
    pub total_time: u64,
}

impl SimulationStepTiming {
    /// An all-zero record, ready to fill in.
    pub fn new() -> (t: SimulationStepTiming)
        ensures
            t == (SimulationStepTiming {
                morton_hash_time: 0,
                radix_sort_time: 0,
                neighbor_search_time: 0,
                sph_density_time: 0,
                pbd_constraint_time: 0,
                gravity_time: 0,
                position_update_time: 0,
                total_time: 0,
            }),
    {
        SimulationStepTiming {
            morton_hash_time: 0,
            radix_sort_time: 0,
            neighbor_search_time: 0,
            sph_density_time: 0,
            pbd_constraint_time: 0,
            gravity_time: 0,
            position_update_time: 0,
            total_time: 0,
        }
    }
}

/// The per-stage constant blocks of one step, set from a configuration
/// and consumed by the dispatches in pipeline order.
pub struct SimulationTasks {
    pub apply_gravity: ApplyGravityConstants,
    pub predict_position: PredictPositionConstants,
    pub morton_hash: MortonHashConstants,
    pub build_cell_index: BuildCellIndexConstants,
    pub neighbor_search: NeighborSearchConstants,
    pub update_position: UpdatePositionConstants,
    pub spiky_sph: SpikySphConstants,
    pub radix_sort: RadixSortSystem,
    pub pbd_density_constraint: PbdDensityConstraintConstants,
}

impl SimulationTasks {
    /// The constants are exactly those a configuration derives for a
    /// given live count, time step and neighbor row width.
    pub open spec fn configured_for(
        &self,
        config: SimulationConfig,
        particle_count: u32,
        dt: i64,
        max_neighbors: u32,
    ) -> bool {
        &&& self.apply_gravity == (ApplyGravityConstants {
            gravity: config.gravity,
            particle_count,
            dt,
        })
        &&& self.predict_position.aabb == config.simulation_aabb
        &&& self.predict_position.particle_count == particle_count
        &&& self.predict_position.dt == dt
        &&& self.morton_hash.particle_count == particle_count
        &&& self.morton_hash.grid_size == config.grid_size
        &&& self.build_cell_index.particle_count == particle_count
        &&& self.neighbor_search.particle_count == particle_count
        &&& self.neighbor_search.smoothing_radius == config.sph_params.smoothing_radius
        &&& self.neighbor_search.smoothing_radius_sq as int == crate::fixed::fx_mul_spec(
            config.sph_params.smoothing_radius as int,
            config.sph_params.smoothing_radius as int,
        )
        &&& self.neighbor_search.grid_size == config.grid_size
        &&& self.neighbor_search.max_neighbors == max_neighbors
        &&& self.update_position.aabb == config.simulation_aabb
        &&& self.update_position.particle_count == particle_count
        &&& self.update_position.dt == dt
        &&& self.spiky_sph.particle_count == particle_count
        &&& self.spiky_sph.mass == config.sph_params.particle_mass
        &&& self.spiky_sph.smoothing_radius == config.sph_params.smoothing_radius
        &&& self.spiky_sph.spiky_kernel_factor as int == crate::kernel::spiky_factor_of(
            config.sph_params.smoothing_radius as int,
        )
        &&& self.spiky_sph.smoothing_radius_sq as int == crate::kernel::h2_of(
            config.sph_params.smoothing_radius as int,
        )
        &&& self.spiky_sph.grid_size == config.grid_size
        &&& self.spiky_sph.max_neighbors == 64
        &&& self.pbd_density_constraint.aabb == config.simulation_aabb
        &&& self.pbd_density_constraint.particle_count == particle_count
        &&& self.pbd_density_constraint.rest_density == config.sph_params.rest_density
        &&& self.pbd_density_constraint.smoothing_radius == config.sph_params.smoothing_radius
        &&& self.pbd_density_constraint.constraint_epsilon
            == config.sph_params.pbd_constraint_epsilon
        &&& self.pbd_density_constraint.relaxation_factor
            == config.sph_params.pbd_relaxation_factor
        &&& self.pbd_density_constraint.spiky_grad_kernel_factor as int
            == -crate::kernel::spiky_grad_factor_of(config.sph_params.smoothing_radius as int)
        &&& self.pbd_density_constraint.spiky_kernel_factor as int
            == crate::kernel::spiky_factor_of(config.sph_params.smoothing_radius as int)
        &&& self.pbd_density_constraint.smoothing_radius_sq as int == crate::kernel::h2_of(
            config.sph_params.smoothing_radius as int,
        )
        &&& self.pbd_density_constraint.grid_size == config.grid_size
        &&& self.pbd_density_constraint.max_neighbors == 96
    }

    /// Derives every stage's constants from a configuration.
    pub fn set_constants_from_config(
        config: &SimulationConfig,
        particle_count: u32,
        dt: i64,
        max_neighbors: u32,
    ) -> (tasks: SimulationTasks)
        requires
            crate::kernel::h_in_range(config.sph_params.smoothing_radius as int),
        ensures
            tasks.configured_for(*config, particle_count, dt, max_neighbors),
    {
        let apply_gravity = ApplyGravityConstants::new(particle_count, dt, config.gravity);
        let predict_position = PredictPositionConstants::new(
            particle_count,
            dt,
            config.simulation_aabb,
        );
        let morton_hash = MortonHashConstants::new(particle_count, config.grid_size);
        let build_cell_index = BuildCellIndexConstants::new(particle_count);
        let neighbor_search = NeighborSearchConstants::new(
            particle_count,
            config.sph_params.smoothing_radius,
            config.grid_size,
            max_neighbors,
        );
        let update_position = UpdatePositionConstants::new(
            config.simulation_aabb,
            particle_count,
            dt,
        );
        let spiky_sph = SpikySphConstants::new(
            particle_count,
            config.sph_params.particle_mass,
            config.sph_params.smoothing_radius,
            config.grid_size,
        );
        let pbd_density_constraint = PbdDensityConstraintConstants::new(
            particle_count,
            config.sph_params.rest_density,
            config.sph_params.smoothing_radius,
            config.sph_params.pbd_constraint_epsilon,
            config.sph_params.pbd_relaxation_factor,
            config.grid_size,
            config.simulation_aabb,
        );
        SimulationTasks {
            apply_gravity,
            predict_position,
            morton_hash,
            build_cell_index,
            neighbor_search,
            update_position,
            spiky_sph,
            radix_sort: RadixSortSystem::new(),
            pbd_density_constraint,
        }
    }

    /// Executes one full simulation step in the fixed stage order:
    /// gravity, prediction, hashing, the four-round sort, cell indexing,
    /// neighbor search, density estimation, the constraint iterations,
    /// and the commit.
    pub fn execute(
        &mut self,
        particles: &mut Particles,
        cache: &mut DescriptorCache,
        config: &SimulationConfig,
        dt: i64,
    )
        requires
            old(particles).wf(),
            old(cache).wf(),
            config.within_limits(),
            old(self).configured_for(
                *config,
                old(particles).count,
                dt,
                old(particles).max_neighbors,
            ),
            config.min_time_step <= dt <= config.max_time_step,
            forall|i: int|
                0 <= i < old(particles).count as int ==> (#[trigger] old(particles).position@[i]).bounded(POS_LIMIT as int),
            forall|i: int|
                0 <= i < old(particles).count as int ==> (#[trigger] old(particles).velocity@[i]).bounded(VEL_LIMIT as int),
        ensures
            final(particles).wf(),
            final(cache).wf(),
            final(particles).count == old(particles).count,
            final(particles).cursor == old(particles).cursor,
            final(particles).capacity == old(particles).capacity,
            final(particles).max_neighbors == old(particles).max_neighbors,
            forall|i: int|
                0 <= i < old(particles).count as int ==> (#[trigger] final(particles).position@[i]).bounded(POS_LIMIT as int),
            forall|i: int|
                0 <= i < old(particles).count as int ==> (#[trigger] final(particles).velocity@[i]).bounded(VEL_LIMIT as int),
            forall|i: int|
                0 <= i < old(particles).count as int ==> ({
                    let p = #[trigger] final(particles).position@[i];
                    &&& config.simulation_aabb.min.x <= p.x <= config.simulation_aabb.max.x
                    &&& config.simulation_aabb.min.y <= p.y <= config.simulation_aabb.max.y
                    &&& config.simulation_aabb.min.z <= p.z <= config.simulation_aabb.max.z
                }),
            config.sph_params.particle_mass >= 1000 ==> forall|i: int|
                0 <= i < old(particles).count as int ==> #[trigger] final(particles).density@[i]
                    > 0,
            ({
                let n = old(particles).count as int;
                let mn = old(particles).max_neighbors as int;
                let h = config.sph_params.smoothing_radius as int;
                let grid = config.grid_size as int;
                let v1 = step_velocities(old(particles).velocity@, config.gravity, dt as int, n);
                let pred1 = step_predicted(
                    old(particles).position@,
                    v1,
                    dt as int,
                    config.simulation_aabb,
                    old(particles).predicted_position@,
                    n,
                );
                let spairs = radix_sort_spec(step_hash_pairs(pred1, grid, n));
                let sorted_hashes = Seq::new(n as nat, |k: int| spairs[k].0);
                let solved = pbd_solve_spec(
                    pred1,
                    old(particles).lambda@,
                    old(particles).delta_position@,
                    final(particles).contacts@,
                    final(particles).contact_counts@,
                    final(particles).density@,
                    mn,
                    n,
                    old(self).pbd_density_constraint,
                    config.sph_params.pbd_iterations as int,
                );
                &&& final(particles).velocity@ == Seq::new(
                    old(particles).velocity@.len(),
                    |i: int|
                        if 0 <= i < n {
                            Vec3Fx {
                                x: commit_velocity_spec(
                                    solved.0[i].x as int,
                                    old(particles).position@[i].x as int,
                                    dt as int,
                                ) as i64,
                                y: commit_velocity_spec(
                                    solved.0[i].y as int,
                                    old(particles).position@[i].y as int,
                                    dt as int,
                                ) as i64,
                                z: commit_velocity_spec(
                                    solved.0[i].z as int,
                                    old(particles).position@[i].z as int,
                                    dt as int,
                                ) as i64,
                            }
                        } else {
                            old(particles).velocity@[i]
                        },
                )
                &&& final(particles).position@ == Seq::new(
                    old(particles).position@.len(),
                    |i: int|
                        if 0 <= i < n {
                            Vec3Fx {
                                x: fx_clamp_spec(
                                    solved.0[i].x as int,
                                    config.simulation_aabb.min.x as int,
                                    config.simulation_aabb.max.x as int,
                                ) as i64,
                                y: fx_clamp_spec(
                                    solved.0[i].y as int,
                                    config.simulation_aabb.min.y as int,
                                    config.simulation_aabb.max.y as int,
                                ) as i64,
                                z: fx_clamp_spec(
                                    solved.0[i].z as int,
                                    config.simulation_aabb.min.z as int,
                                    config.simulation_aabb.max.z as int,
                                ) as i64,
                            }
                        } else {
                            old(particles).position@[i]
                        },
                )
                &&& final(particles).predicted_position@ == solved.0
                &&& final(particles).lambda@ == solved.1
                &&& final(particles).delta_position@ == solved.2
                &&& config.sph_params.pbd_iterations == 0 ==> final(particles).predicted_position@ == pred1
                &&& pairs_upto(final(particles).hash@, final(particles).index@, n) == spairs
                &&& forall|c: int|
                    0 <= c < 65536 ==> #[trigger] final(particles).cell_start@[c] == start_entry(
                        sorted_hashes,
                        c as u32,
                        n,
                    ) && final(particles).cell_end@[c] == end_entry(sorted_hashes, c as u32, n)
                &&& forall|i: int|
                    0 <= i < n ==> #[trigger] final(particles).contact_counts@[i] as int
                        == vstd::math::min(
                        scan_accepted(
                            pred1,
                            final(particles).index@,
                            final(particles).cell_start@,
                            final(particles).cell_end@,
                            i,
                            grid,
                            fx_mul_spec(h, h),
                            n,
                            27,
                        ).len() as int,
                        mn,
                    )
                &&& forall|i: int, t: int|
                    0 <= i < n && 0 <= t < final(particles).contact_counts@[i] as int
                        ==> #[trigger] final(particles).contacts@[i * mn + t] == scan_accepted(
                        pred1,
                        final(particles).index@,
                        final(particles).cell_start@,
                        final(particles).cell_end@,
                        i,
                        grid,
                        fx_mul_spec(h, h),
                        n,
                        27,
                    )[t]
                &&& forall|i: int|
                    0 <= i < n ==> #[trigger] final(particles).density@[i] as int == density_of(
                        pred1,
                        final(particles).contacts@,
                        final(particles).contact_counts@,
                        mn,
                        i,
                        config.sph_params.particle_mass as int,
                        h,
                    )
            }),
    {
        proof {
            crate::kernel::lemma_kernel_ranges(config.sph_params.smoothing_radius as int);
        }
        let ghost n = particles.count as int;
        let ghost mn = particles.max_neighbors as int;
        let ghost hg = config.sph_params.smoothing_radius as int;
        let ghost gridg = config.grid_size as int;
        let ghost p0 = particles.position@;
        let ghost v0 = particles.velocity@;
        let ghost lambda0 = particles.lambda@;
        let ghost delta0 = particles.delta_position@;
        apply_gravity_pass(particles, self.apply_gravity);
        let ghost v1 = step_velocities(v0, config.gravity, dt as int, n);
        proof {
            assert(particles.velocity@ =~= v1);
        }
        predict_position_pass(particles, self.predict_position);
        let ghost pred1 = step_predicted(
            p0,
            v1,
            dt as int,
            config.simulation_aabb,
            old(particles).predicted_position@,
            n,
        );
        proof {
            assert(particles.predicted_position@ =~= pred1);
        }
        morton_hash_pass(particles, self.morton_hash);
        proof {
            assert(pairs_upto(particles.hash@, particles.index@, n) =~= step_hash_pairs(
                pred1,
                gridg,
                n,
            ));
        }
        self.radix_sort.sort_morton_codes(particles, cache);
        let ghost spairs = radix_sort_spec(step_hash_pairs(pred1, gridg, n));
        let ghost sorted_hashes = Seq::new(n as nat, |k: int| spairs[k].0);
        proof {
            assert(pairs_upto(particles.hash@, particles.index@, n) == spairs);
            assert(particles.hash@.take(n) =~= sorted_hashes);
        }
        build_cell_index_pass(particles, self.build_cell_index);
        neighbor_search_pass(particles, self.neighbor_search);
        density_pass(particles, self.spiky_sph);
        proof {
            if config.sph_params.particle_mass >= 1000 {
                assert forall|i: int|
                    0 <= i < particles.count as int implies #[trigger] particles.density@[i]
                    > 0 by {
                    crate::density::lemma_density_positive(
                        particles.predicted_position@,
                        particles.contacts@,
                        particles.contact_counts@,
                        particles.max_neighbors as int,
                        i,
                        config.sph_params.particle_mass as int,
                        config.sph_params.smoothing_radius as int,
                    );
                }
            }
        }
        let ghost post_density = particles.density@;
        pbd_solve(particles, self.pbd_density_constraint, config.sph_params.pbd_iterations);
        let ghost solved = pbd_solve_spec(
            pred1,
            lambda0,
            delta0,
            particles.contacts@,
            particles.contact_counts@,
            post_density,
            mn,
            n,
            self.pbd_density_constraint,
            config.sph_params.pbd_iterations as int,
        );
        proof {
            assert(particles.density@ == post_density);
            assert(particles.predicted_position@ == solved.0);
        }
        update_position_pass(particles, self.update_position);
        proof {
            assert(particles.density@ == post_density);
            assert(particles.velocity@ =~= Seq::new(
                v0.len(),
                |i: int|
                    if 0 <= i < n {
                        Vec3Fx {
                            x: commit_velocity_spec(
                                solved.0[i].x as int,
                                p0[i].x as int,
                                dt as int,
                            ) as i64,
                            y: commit_velocity_spec(
                                solved.0[i].y as int,
                                p0[i].y as int,
                                dt as int,
                            ) as i64,
                            z: commit_velocity_spec(
                                solved.0[i].z as int,
                                p0[i].z as int,
                                dt as int,
                            ) as i64,
                        }
                    } else {
                        v0[i]
                    },
            ));
            assert(particles.position@ =~= Seq::new(
                p0.len(),
                |i: int|
                    if 0 <= i < n {
                        Vec3Fx {
                            x: fx_clamp_spec(
                                solved.0[i].x as int,
                                config.simulation_aabb.min.x as int,
                                config.simulation_aabb.max.x as int,
                            ) as i64,
                            y: fx_clamp_spec(
                                solved.0[i].y as int,
                                config.simulation_aabb.min.y as int,
                                config.simulation_aabb.max.y as int,
                            ) as i64,
                            z: fx_clamp_spec(
                                solved.0[i].z as int,
                                config.simulation_aabb.min.z as int,
                                config.simulation_aabb.max.z as int,
                            ) as i64,
                        }
                    } else {
                        p0[i]
                    },
            ));
        }
    }
}

/// Decides, frame by frame, whether the spatial sort runs: at least
/// every `sort_interval` frames, or on demand.
pub struct AdaptiveSortSystem {
    pub sort_system: RadixSortSystem,
    pub last_sort_frame: u32,
    pub sort_interval: u32,
    /// Fraction of a cell a particle may move before a sort is due.
    pub movement_threshold: i64,
}

impl AdaptiveSortSystem {
    /// Sorts every fourth frame by default.
    pub fn new() -> (s: AdaptiveSortSystem)
        ensures
            s.last_sort_frame == 0,
            s.sort_interval == 4,
            s.movement_threshold == 100_000,
    {
        AdaptiveSortSystem {
            sort_system: RadixSortSystem::new(),
            last_sort_frame: 0,
            sort_interval: 4,
            movement_threshold: 100_000,
        }
    }

    /// Sorts when forced or when the interval has elapsed; reports
    /// whether a sort ran.
    pub fn update_sort(
        &mut self,
        particles: &mut Particles,
        cache: &mut DescriptorCache,
        current_frame: u32,
        force_sort: bool,
    ) -> (sorted: bool)
        requires
            old(particles).wf(),
            old(cache).wf(),
            old(self).last_sort_frame <= current_frame,
        ensures
            final(particles).wf(),
            final(cache).wf(),
            sorted == (force_sort || current_frame - old(self).last_sort_frame >= old(self).sort_interval),
            sorted ==> *final(self) == (AdaptiveSortSystem {
                last_sort_frame: current_frame,
                ..*old(self)
            }),
            !sorted ==> *final(particles) == *old(particles) && *final(self) == *old(self)
                && *final(cache) == *old(cache),
            sorted ==> *final(particles) == (Particles {
                hash: final(particles).hash,
                index: final(particles).index,
                hash_temp: final(particles).hash_temp,
                index_temp: final(particles).index_temp,
                histograms: final(particles).histograms,
                prefix_sums: final(particles).prefix_sums,
                buffer_generation: final(particles).buffer_generation,
                ..*old(particles)
            }),
            sorted ==> crate::sort::pairs_upto(
                final(particles).hash@,
                final(particles).index@,
                old(particles).count as int,
            ) == crate::sort::radix_sort_spec(
                crate::sort::pairs_upto(
                    old(particles).hash@,
                    old(particles).index@,
                    old(particles).count as int,
                ),
            ),
            sorted ==> crate::sort::sorted_pairs(
                crate::sort::pairs_upto(
                    final(particles).hash@,
                    final(particles).index@,
                    old(particles).count as int,
                ),
            ),
            sorted ==> forall|i: int|
                0 <= i < final(cache).bindings@.len() ==> #[trigger] final(cache).bindings@[i] is None,
    {
        let should_sort: bool = force_sort || current_frame - self.last_sort_frame
            >= self.sort_interval;
        if should_sort {
            self.sort_system.sort_morton_codes(particles, cache);
            self.last_sort_frame = current_frame;
            true
        } else {
            false
        }
    }

    /// Sets the interval between sorts, in frames.
    pub fn set_sort_interval(&mut self, interval: u32)
        ensures
            *final(self) == (AdaptiveSortSystem { sort_interval: interval, ..*old(self) }),
    {
        self.sort_interval = interval;
    }

    /// The current interval between sorts.
    pub fn sort_interval(&self) -> (r: u32)
        ensures
            r == self.sort_interval,
    {
        self.sort_interval
    }
}

} // verus!
