//! Simulation configuration: bounds, gravity, time-step limits, grid
//! cell size and the SPH parameters, with validation and presets.

use vstd::prelude::*;

use crate::error::{ConfigFault, SimulationError};
use crate::fixed::{fx_clamp_spec, Vec3Fx};

verus! {

/// Largest coordinate magnitude the fixed-point integrator admits.
pub const POS_LIMIT: i64 = 2_000_000_000_000;

/// Largest gravity-component magnitude the integrator admits.
pub const GRAV_LIMIT: i64 = 1_000_000_000_000;

/// Largest velocity magnitude fed into a prediction step.
pub const VEL_LIMIT: i64 = 4_600_000_000_000_000_000;

/// Largest time step, one whole second, keeping products in range.
pub const DT_LIMIT: i64 = 1_000_000;

/// An axis-aligned box, the simulation volume.
#[derive(Clone, Copy, Debug, PartialEq, Eq, Structural)]
pub struct Aabb {
    pub min: Vec3Fx,
    pub max: Vec3Fx,
}

impl Aabb {
    /// An ordered, bounded box.
    pub open spec fn wf(self) -> bool {
        &&& self.min.x <= self.max.x
        &&& self.min.y <= self.max.y
        &&& self.min.z <= self.max.z
        &&& self.min.bounded(POS_LIMIT as int)
        &&& self.max.bounded(POS_LIMIT as int)
    }

    /// Builds a box from its two corners.
    pub fn new(min: Vec3Fx, max: Vec3Fx) -> (b: Aabb)
        ensures
            b == (Aabb { min, max }),
    {
        Aabb { min, max }
    }
}

/// The SPH and constraint-solver parameters.
#[derive(Clone, Copy, Debug, PartialEq, Eq, Structural)]
pub struct SphParams {
    /// Particle mass.
    pub particle_mass: i64,
    /// Kernel smoothing radius.
    pub smoothing_radius: i64,
    /// Rest density the solver drives toward.
    pub rest_density: i64,
    /// Viscosity coefficient.
    pub viscosity: i64,
    /// Surface tension coefficient.
    pub surface_tension: i64,
    /// Number of constraint-solver passes per step.
    pub pbd_iterations: u32,
    /// Stabilizer added to the constraint denominator.
    pub pbd_constraint_epsilon: i64,
    /// Scale on the positional correction.
    pub pbd_relaxation_factor: i64,
}

impl SphParams {
    /// The ranges within which the fixed-point kernel and solver
    /// arithmetic is proven free of overflow.
    pub open spec fn within_limits(self) -> bool {
        &&& 0 < self.particle_mass <= 1_000_000_000
        &&& 100_000 <= self.smoothing_radius <= 10_000_000
        &&& 1_000_000 <= self.rest_density <= 1_000_000_000_000
        &&& 1 <= self.pbd_constraint_epsilon <= 1_000_000_000_000
        &&& 0 <= self.pbd_relaxation_factor <= 2_000_000
    }
}

impl Default for SphParams {
    /// Water-like defaults.
    fn default() -> (p: SphParams)
        ensures
            p == default_sph_params(),
            p.within_limits(),
    {
        SphParams {
            particle_mass: 20_000,
            smoothing_radius: 150_000,
            rest_density: 1_000_000_000,
            viscosity: 1_000,
            surface_tension: 73_000,
            pbd_iterations: 1,
            pbd_constraint_epsilon: 100,
            pbd_relaxation_factor: 500_000,
        }
    }
}

/// The default SPH parameter set.
pub open spec fn default_sph_params() -> SphParams {
    SphParams {
        particle_mass: 20_000,
        smoothing_radius: 150_000,
        rest_density: 1_000_000_000,
        viscosity: 1_000,
        surface_tension: 73_000,
        pbd_iterations: 1,
        pbd_constraint_epsilon: 100,
        pbd_relaxation_factor: 500_000,
    }
}

/// Everything the solver consumes on construction or update.
#[derive(Clone, Copy, Debug, PartialEq, Eq, Structural)]
pub struct SimulationConfig {
    /// The simulation volume particles are clamped into.
    pub simulation_aabb: Aabb,
    /// External acceleration.
    pub gravity: Vec3Fx,
    /// Largest admitted time step.
    pub max_time_step: i64,
    /// Smallest admitted time step.
    pub min_time_step: i64,
    /// Edge length of one spatial hash cell.
    pub grid_size: i64,
    /// Kernel and solver parameters.
    pub sph_params: SphParams,
    /// Neighbor-list row width.
    pub max_neighbors: u32,
}

/// The default configuration.
pub open spec fn default_config() -> SimulationConfig {
    SimulationConfig {
        simulation_aabb: Aabb {
            min: Vec3Fx { x: -2_000_000i64, y: -2_000_000i64, z: -2_000_000i64 },
            max: Vec3Fx { x: 2_000_000, y: 2_000_000, z: 2_000_000 },
        },
        gravity: Vec3Fx { x: 0, y: -9_810_000i64, z: 0 },
        max_time_step: 33_333,
        min_time_step: 4_166,
        grid_size: 112_500,
        sph_params: default_sph_params(),
        max_neighbors: 32,
    }
}

impl Default for SimulationConfig {
    /// Stable water-like defaults; the cell size is three quarters of
    /// the smoothing radius.
    fn default() -> (c: SimulationConfig)
        ensures
            c == default_config(),
            c.validate_spec() is Ok,
    {
        SimulationConfig {
            simulation_aabb: Aabb {
                min: Vec3Fx { x: -2_000_000, y: -2_000_000, z: -2_000_000 },
                max: Vec3Fx { x: 2_000_000, y: 2_000_000, z: 2_000_000 },
            },
            gravity: Vec3Fx { x: 0, y: -9_810_000, z: 0 },
            max_time_step: 33_333,
            min_time_step: 4_166,
            grid_size: 112_500,
            sph_params: SphParams::default(),
            max_neighbors: 32,
        }
    }
}

impl SimulationConfig {
    /// What validation returns, clause by clause, first fault first.
    pub open spec fn validate_spec(self) -> Result<(), SimulationError> {
        if self.grid_size <= 0 {
            Err(SimulationError::InvalidConfig(ConfigFault::NonPositiveGridSize))
        } else if self.sph_params.smoothing_radius <= 0 {
            Err(SimulationError::InvalidConfig(ConfigFault::NonPositiveSmoothingRadius))
        } else if self.grid_size > self.sph_params.smoothing_radius {
            Err(SimulationError::InvalidConfig(ConfigFault::GridLargerThanSmoothingRadius))
        } else if self.min_time_step <= 0 || self.max_time_step <= 0 {
            Err(SimulationError::InvalidConfig(ConfigFault::NonPositiveTimeStep))
        } else if self.min_time_step >= self.max_time_step {
            Err(SimulationError::InvalidConfig(ConfigFault::TimeStepOrder))
        } else {
            Ok(())
        }
    }

    /// Rejects an unusable configuration before any dispatch: the cell
    /// size and smoothing radius must be positive with the cell no
    /// larger than the radius, and the time-step limits must be
    /// positive and ordered.
    pub fn validate(&self) -> (r: Result<(), SimulationError>)
        ensures
            r == self.validate_spec(),
            r is Ok <==> {
                &&& self.grid_size > 0
                &&& self.sph_params.smoothing_radius > 0
                &&& self.grid_size <= self.sph_params.smoothing_radius
                &&& self.min_time_step > 0
                &&& self.max_time_step > 0
                &&& self.min_time_step < self.max_time_step
            },
    {
        if self.grid_size <= 0 {
            Err(SimulationError::InvalidConfig(ConfigFault::NonPositiveGridSize))
        } else if self.sph_params.smoothing_radius <= 0 {
            Err(SimulationError::InvalidConfig(ConfigFault::NonPositiveSmoothingRadius))
        } else if self.grid_size > self.sph_params.smoothing_radius {
            Err(SimulationError::InvalidConfig(ConfigFault::GridLargerThanSmoothingRadius))
        } else if self.min_time_step <= 0 || self.max_time_step <= 0 {
            Err(SimulationError::InvalidConfig(ConfigFault::NonPositiveTimeStep))
        } else if self.min_time_step >= self.max_time_step {
            Err(SimulationError::InvalidConfig(ConfigFault::TimeStepOrder))
        } else {
            Ok(())
        }
    }

    /// Clamps a raw frame delta into `[min_time_step, max_time_step]`;
    /// a delta already inside the range is returned unchanged.
    pub fn clamp_time_step(&self, dt: i64) -> (r: i64)
        requires
            self.min_time_step <= self.max_time_step,
        ensures
            r as int == fx_clamp_spec(
                dt as int,
                self.min_time_step as int,
                self.max_time_step as int,
            ),
            self.min_time_step <= r <= self.max_time_step,
            self.min_time_step <= dt <= self.max_time_step ==> r == dt,
    {
        if dt < self.min_time_step {
            self.min_time_step
        } else if dt > self.max_time_step {
            self.max_time_step
        } else {
            dt
        }
    }

    /// Fewer particles, high frame rate: a tighter time-step band and a
    /// coarser cell relative to the radius.
    pub fn high_performance() -> (c: SimulationConfig)
        ensures
            c.validate_spec() is Ok,
            c.sph_params.within_limits(),
            c.sph_params.smoothing_radius == 150_000,
            c.grid_size == 120_000,
            c.max_neighbors == 32,
    {
        SimulationConfig {
            max_time_step: 16_666,
            min_time_step: 3_333,
            sph_params: SphParams { smoothing_radius: 150_000, ..SphParams::default() },
            grid_size: 120_000,
            max_neighbors: 32,
            ..SimulationConfig::default()
        }
    }

    /// More particles, lower frame rate: a wider kernel and room for
    /// more neighbors.
    pub fn high_quality() -> (c: SimulationConfig)
        ensures
            c.validate_spec() is Ok,
            c.sph_params.within_limits(),
            c.sph_params.smoothing_radius == 250_000,
            c.grid_size == 175_000,
            c.max_neighbors == 128,
    {
        SimulationConfig {
            max_time_step: 50_000,
            min_time_step: 8_333,
            sph_params: SphParams { smoothing_radius: 250_000, ..SphParams::default() },
            grid_size: 175_000,
            max_neighbors: 128,
            ..SimulationConfig::default()
        }
    }

    /// Million-particle scale: a wider volume and a smaller radius.
    pub fn large_scale() -> (c: SimulationConfig)
        ensures
            c.validate_spec() is Ok,
            c.sph_params.within_limits(),
            c.sph_params.smoothing_radius == 100_000,
            c.grid_size == 80_000,
            c.max_neighbors == 64,
            c.simulation_aabb == (Aabb {
                min: Vec3Fx { x: -5_000_000i64, y: -5_000_000i64, z: -5_000_000i64 },
                max: Vec3Fx { x: 5_000_000, y: 5_000_000, z: 5_000_000 },
            }),
            c.max_time_step == 50_000,
            c.min_time_step == 8_333,
    {
        SimulationConfig {
            simulation_aabb: Aabb {
                min: Vec3Fx { x: -5_000_000, y: -5_000_000, z: -5_000_000 },
                max: Vec3Fx { x: 5_000_000, y: 5_000_000, z: 5_000_000 },
            },
            max_time_step: 50_000,
            min_time_step: 8_333,
            sph_params: SphParams { smoothing_radius: 100_000, ..SphParams::default() },
            grid_size: 80_000,
            max_neighbors: 64,
            ..SimulationConfig::default()
        }
    }

    /// The bounds under which every stage's arithmetic stays in range.
    pub open spec fn within_limits(self) -> bool {
        &&& self.sph_params.within_limits()
        &&& self.simulation_aabb.wf()
        &&& self.gravity.bounded(GRAV_LIMIT as int)
        &&& 0 < self.grid_size <= self.sph_params.smoothing_radius
        &&& 0 < self.min_time_step <= self.max_time_step <= DT_LIMIT as int
        &&& 1 <= self.max_neighbors <= 256
    }
}

} // verus!
