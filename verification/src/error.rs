//! The error taxonomy of the solver core.

use vstd::prelude::*;

verus! {

/// Why a configuration was rejected.
#[derive(Clone, Copy, Debug, PartialEq, Eq, Structural)]
pub enum ConfigFault {
    /// `grid_size` must be greater than zero.
    NonPositiveGridSize,
    /// `smoothing_radius` must be greater than zero.
    NonPositiveSmoothingRadius,
    /// `grid_size` must not exceed `smoothing_radius`, or neighbor
    /// search would have to scan more than one cell ring.
    GridLargerThanSmoothingRadius,
    /// Both time step limits must be greater than zero.
    NonPositiveTimeStep,
    /// `min_time_step` must be less than `max_time_step`.
    TimeStepOrder,
}

/// A recoverable or fatal failure surfaced to the caller.
#[derive(Clone, Copy, Debug, PartialEq, Eq, Structural)]
pub enum SimulationError {
    /// Adding the batch would exceed the store's fixed capacity.
    CapacityExceeded,
    /// A device buffer or binding set could not be created.
    AllocationError,
    /// A wait on submitted device work exceeded its bound repeatedly.
    SyncTimeoutError,
    /// The configuration was rejected before any dispatch.
    InvalidConfig(ConfigFault),
}

impl SimulationError {
    /// A short description, suitable for diagnostics.
    pub fn message(&self) -> (r: &'static str)
        ensures
            r@.len() > 0,
    {
        let r: &'static str = match self {
            SimulationError::CapacityExceeded => "particle capacity exceeded",
            SimulationError::AllocationError => "buffer allocation failed",
            SimulationError::SyncTimeoutError => "device synchronization timed out",
            SimulationError::InvalidConfig(ConfigFault::NonPositiveGridSize) => {
                "grid_size must be greater than 0"
            },
            SimulationError::InvalidConfig(ConfigFault::NonPositiveSmoothingRadius) => {
                "smoothing_radius must be greater than 0"
            },
            SimulationError::InvalidConfig(ConfigFault::GridLargerThanSmoothingRadius) => {
                "grid_size should not be greater than smoothing_radius"
            },
            SimulationError::InvalidConfig(ConfigFault::NonPositiveTimeStep) => {
                "time step limits must be greater than 0"
            },
            SimulationError::InvalidConfig(ConfigFault::TimeStepOrder) => {
                "min_time_step must be less than max_time_step"
            },
        };
        proof {
            reveal_strlit("particle capacity exceeded");
            reveal_strlit("buffer allocation failed");
            reveal_strlit("device synchronization timed out");
            reveal_strlit("grid_size must be greater than 0");
            reveal_strlit("smoothing_radius must be greater than 0");
            reveal_strlit("grid_size should not be greater than smoothing_radius");
            reveal_strlit("time step limits must be greater than 0");
            reveal_strlit("min_time_step must be less than max_time_step");
        }
        r
    }
}

/// Decides what happens after a wait on submitted device work failed:
/// while attempts remain the wait is retried, counting the attempt;
/// past the bound the stalled device is surfaced as fatal, never
/// silently ignored.
pub fn sync_wait_policy(attempts_so_far: u32, retry_limit: u32) -> (r: Result<
    u32,
    SimulationError,
>)
    requires
        retry_limit < u32::MAX,
    ensures
        attempts_so_far < retry_limit ==> r == Result::<u32, SimulationError>::Ok(
            (attempts_so_far + 1) as u32,
        ),
        attempts_so_far >= retry_limit ==> r == Result::<u32, SimulationError>::Err(
            SimulationError::SyncTimeoutError,
        ),
{
    if attempts_so_far < retry_limit {
        Ok(attempts_so_far + 1)
    } else {
        Err(SimulationError::SyncTimeoutError)
    }
}

} // verus!
