//! The integrator: external forces, position prediction, and the final
//! commit that reconciles the solver's corrections back into velocity.

use vstd::prelude::*;

use crate::config::{Aabb, DT_LIMIT, GRAV_LIMIT, POS_LIMIT, VEL_LIMIT};
use crate::fixed::{
    fx_abs, fx_clamp, fx_clamp_spec, fx_div, fx_div_spec, fx_mul, fx_mul_spec, fx_scale,
    lemma_fx_div_bound, lemma_fx_mul_bound, Vec3Fx,
};
use crate::store::Particles;

verus! {

/// The scalar constants of the gravity dispatch.
#[derive(Clone, Copy, Debug, PartialEq, Eq, Structural)]
pub struct ApplyGravityConstants {
    pub gravity: Vec3Fx,
    pub particle_count: u32,
    pub dt: i64,
}

impl ApplyGravityConstants {
    /// Packs the dispatch constants.
    pub fn new(particle_count: u32, dt: i64, gravity: Vec3Fx) -> (c: ApplyGravityConstants)
        ensures
            c == (ApplyGravityConstants { gravity, particle_count, dt }),
    {
        ApplyGravityConstants { gravity, particle_count, dt }
    }
}

/// One Euler substep of a velocity component: `v + g * dt`.
pub open spec fn gravity_step_spec(v: int, g: int, dt: int) -> int {
    v + fx_mul_spec(g, dt)
}

/// The gravity dispatch: `velocity[i] += gravity * dt` for every live
/// particle.
pub fn apply_gravity_pass(particles: &mut Particles, constants: ApplyGravityConstants)
    requires
        old(particles).wf(),
        constants.particle_count == old(particles).count,
        constants.gravity.bounded(GRAV_LIMIT as int),
        0 < constants.dt <= DT_LIMIT,
        forall|i: int|
            0 <= i < old(particles).count as int ==> (#[trigger] old(particles).velocity@[i]).bounded(VEL_LIMIT as int),
    ensures
        final(particles).wf(),
        *final(particles) == (Particles { velocity: final(particles).velocity, ..*old(particles) }),
        forall|i: int|
            0 <= i < old(particles).count as int ==> #[trigger] final(particles).velocity@[i]
                == (Vec3Fx {
                x: gravity_step_spec(
                    old(particles).velocity@[i].x as int,
                    constants.gravity.x as int,
                    constants.dt as int,
                ) as i64,
                y: gravity_step_spec(
                    old(particles).velocity@[i].y as int,
                    constants.gravity.y as int,
                    constants.dt as int,
                ) as i64,
                z: gravity_step_spec(
                    old(particles).velocity@[i].z as int,
                    constants.gravity.z as int,
                    constants.dt as int,
                ) as i64,
            }),
        forall|i: int|
            0 <= i < old(particles).count as int ==> (#[trigger] final(particles).velocity@[i]).bounded(VEL_LIMIT as int + GRAV_LIMIT as int),
        forall|i: int|
            old(particles).count as int <= i < old(particles).capacity as int ==> final(particles).velocity@[i] == old(particles).velocity@[i],
{
    let n: usize = particles.count as usize;
    let mut i: usize = 0;
    while i < n
        invariant
            i <= n,
            n == particles.count as usize,
            particles.wf(),
            constants.gravity.bounded(GRAV_LIMIT as int),
            0 < constants.dt <= DT_LIMIT,
            *particles == (Particles { velocity: particles.velocity, ..*old(particles) }),
            forall|j: int|
                i <= j < particles.capacity as int ==> #[trigger] particles.velocity@[j] == old(particles).velocity@[j],
            forall|j: int|
                0 <= j < i ==> #[trigger] particles.velocity@[j] == (Vec3Fx {
                    x: gravity_step_spec(
                        old(particles).velocity@[j].x as int,
                        constants.gravity.x as int,
                        constants.dt as int,
                    ) as i64,
                    y: gravity_step_spec(
                        old(particles).velocity@[j].y as int,
                        constants.gravity.y as int,
                        constants.dt as int,
                    ) as i64,
                    z: gravity_step_spec(
                        old(particles).velocity@[j].z as int,
                        constants.gravity.z as int,
                        constants.dt as int,
                    ) as i64,
                }),
            forall|j: int|
                0 <= j < i ==> (#[trigger] particles.velocity@[j]).bounded(
                    VEL_LIMIT as int + GRAV_LIMIT as int,
                ),
            forall|j: int|
                0 <= j < n ==> (#[trigger] old(particles).velocity@[j]).bounded(VEL_LIMIT as int),
        decreases n - i,
    {
        let v = particles.velocity[i];
        proof {
            lemma_fx_mul_bound(
                constants.gravity.x as int,
                constants.dt as int,
                GRAV_LIMIT as int,
                DT_LIMIT as int,
            );
            lemma_fx_mul_bound(
                constants.gravity.y as int,
                constants.dt as int,
                GRAV_LIMIT as int,
                DT_LIMIT as int,
            );
            lemma_fx_mul_bound(
                constants.gravity.z as int,
                constants.dt as int,
                GRAV_LIMIT as int,
                DT_LIMIT as int,
            );
            assert(old(particles).velocity@[i as int].bounded(VEL_LIMIT as int));
        }
        let nv = Vec3Fx {
            x: v.x + fx_mul(constants.gravity.x, constants.dt),
            y: v.y + fx_mul(constants.gravity.y, constants.dt),
            z: v.z + fx_mul(constants.gravity.z, constants.dt),
        };
        particles.velocity[i] = nv;
        i += 1;
    }
}

/// The scalar constants of the prediction dispatch.
#[derive(Clone, Copy, Debug, PartialEq, Eq, Structural)]
pub struct PredictPositionConstants {
    pub aabb: Aabb,
    pub particle_count: u32,
    pub dt: i64,
}

impl PredictPositionConstants {
    /// Packs the dispatch constants.
    pub fn new(particle_count: u32, dt: i64, aabb: Aabb) -> (c: PredictPositionConstants)
        ensures
            c == (PredictPositionConstants { aabb, particle_count, dt }),
    {
        PredictPositionConstants { aabb, particle_count, dt }
    }
}

/// One predicted coordinate: `clamp(pos + vel * dt, lo, hi)`.
pub open spec fn predict_spec(pos: int, vel: int, dt: int, lo: int, hi: int) -> int {
    fx_clamp_spec(pos + fx_mul_spec(vel, dt), lo, hi)
}

/// The prediction dispatch: an explicit Euler position estimate,
/// clamped into the simulation volume.
pub fn predict_position_pass(particles: &mut Particles, constants: PredictPositionConstants)
    requires
        old(particles).wf(),
        constants.particle_count == old(particles).count,
        constants.aabb.wf(),
        0 < constants.dt <= DT_LIMIT,
        forall|i: int|
            0 <= i < old(particles).count as int ==> (#[trigger] old(particles).position@[i]).bounded(POS_LIMIT as int),
        forall|i: int|
            0 <= i < old(particles).count as int ==> (#[trigger] old(particles).velocity@[i]).bounded(VEL_LIMIT as int + GRAV_LIMIT as int),
    ensures
        final(particles).wf(),
        *final(particles) == (Particles {
            predicted_position: final(particles).predicted_position,
            ..*old(particles)
        }),
        forall|i: int|
            0 <= i < old(particles).count as int ==> #[trigger] final(particles).predicted_position@[i] == (Vec3Fx {
                x: predict_spec(
                    old(particles).position@[i].x as int,
                    old(particles).velocity@[i].x as int,
                    constants.dt as int,
                    constants.aabb.min.x as int,
                    constants.aabb.max.x as int,
                ) as i64,
                y: predict_spec(
                    old(particles).position@[i].y as int,
                    old(particles).velocity@[i].y as int,
                    constants.dt as int,
                    constants.aabb.min.y as int,
                    constants.aabb.max.y as int,
                ) as i64,
                z: predict_spec(
                    old(particles).position@[i].z as int,
                    old(particles).velocity@[i].z as int,
                    constants.dt as int,
                    constants.aabb.min.z as int,
                    constants.aabb.max.z as int,
                ) as i64,
            }),
        forall|i: int|
            0 <= i < old(particles).count as int ==> (#[trigger] final(particles).predicted_position@[i]).bounded(POS_LIMIT as int),
        forall|i: int|
            old(particles).count as int <= i < old(particles).capacity as int ==> final(particles).predicted_position@[i] == old(particles).predicted_position@[i],
{
    let n: usize = particles.count as usize;
    let mut i: usize = 0;
    while i < n
        invariant
            i <= n,
            n == particles.count as usize,
            particles.wf(),
            constants.aabb.wf(),
            0 < constants.dt <= DT_LIMIT,
            *particles == (Particles {
                predicted_position: particles.predicted_position,
                ..*old(particles)
            }),
            forall|j: int|
                i <= j < particles.capacity as int ==> #[trigger] particles.predicted_position@[j]
                    == old(particles).predicted_position@[j],
            forall|j: int|
                0 <= j < i ==> #[trigger] particles.predicted_position@[j] == (Vec3Fx {
                    x: predict_spec(
                        old(particles).position@[j].x as int,
                        old(particles).velocity@[j].x as int,
                        constants.dt as int,
                        constants.aabb.min.x as int,
                        constants.aabb.max.x as int,
                    ) as i64,
                    y: predict_spec(
                        old(particles).position@[j].y as int,
                        old(particles).velocity@[j].y as int,
                        constants.dt as int,
                        constants.aabb.min.y as int,
                        constants.aabb.max.y as int,
                    ) as i64,
                    z: predict_spec(
                        old(particles).position@[j].z as int,
                        old(particles).velocity@[j].z as int,
                        constants.dt as int,
                        constants.aabb.min.z as int,
                        constants.aabb.max.z as int,
                    ) as i64,
                }),
            forall|j: int|
                0 <= j < i ==> (#[trigger] particles.predicted_position@[j]).bounded(
                    POS_LIMIT as int,
                ),
            forall|j: int|
                0 <= j < n ==> (#[trigger] old(particles).position@[j]).bounded(POS_LIMIT as int),
            forall|j: int|
                0 <= j < n ==> (#[trigger] old(particles).velocity@[j]).bounded(
                    VEL_LIMIT as int + GRAV_LIMIT as int,
                ),
        decreases n - i,
    {
        let p = particles.position[i];
        let v = particles.velocity[i];
        proof {
            assert(old(particles).position@[i as int].bounded(POS_LIMIT as int));
            assert(old(particles).velocity@[i as int].bounded(VEL_LIMIT as int + GRAV_LIMIT as int));
            lemma_fx_mul_bound(
                v.x as int,
                constants.dt as int,
                VEL_LIMIT as int + GRAV_LIMIT as int,
                DT_LIMIT as int,
            );
            lemma_fx_mul_bound(
                v.y as int,
                constants.dt as int,
                VEL_LIMIT as int + GRAV_LIMIT as int,
                DT_LIMIT as int,
            );
            lemma_fx_mul_bound(
                v.z as int,
                constants.dt as int,
                VEL_LIMIT as int + GRAV_LIMIT as int,
                DT_LIMIT as int,
            );
        }
        let np = Vec3Fx {
            x: fx_clamp(
                p.x + fx_mul(v.x, constants.dt),
                constants.aabb.min.x,
                constants.aabb.max.x,
            ),
            y: fx_clamp(
                p.y + fx_mul(v.y, constants.dt),
                constants.aabb.min.y,
                constants.aabb.max.y,
            ),
            z: fx_clamp(
                p.z + fx_mul(v.z, constants.dt),
                constants.aabb.min.z,
                constants.aabb.max.z,
            ),
        };
        particles.predicted_position[i] = np;
        i += 1;
    }
}

/// The scalar constants of the commit dispatch.
#[derive(Clone, Copy, Debug, PartialEq, Eq, Structural)]
pub struct UpdatePositionConstants {
    pub aabb: Aabb,
    pub particle_count: u32,
    pub dt: i64,
}

impl UpdatePositionConstants {
    /// Packs the dispatch constants.
    pub fn new(aabb: Aabb, particle_count: u32, dt: i64) -> (c: UpdatePositionConstants)
        ensures
            c == (UpdatePositionConstants { aabb, particle_count, dt }),
    {
        UpdatePositionConstants { aabb, particle_count, dt }
    }
}

/// The committed velocity component: `(predicted - before) / dt`.
pub open spec fn commit_velocity_spec(pred: int, before: int, dt: int) -> int {
    fx_div_spec(pred - before, dt)
}

/// The commit dispatch: the position becomes the solved predicted
/// position clamped into the volume, and the velocity becomes the
/// positional change over `dt`, folding the solver's corrections back
/// into the motion.
pub fn update_position_pass(particles: &mut Particles, constants: UpdatePositionConstants)
    requires
        old(particles).wf(),
        constants.particle_count == old(particles).count,
        constants.aabb.wf(),
        0 < constants.dt <= DT_LIMIT,
        forall|i: int|
            0 <= i < old(particles).count as int ==> (#[trigger] old(particles).position@[i]).bounded(POS_LIMIT as int),
        forall|i: int|
            0 <= i < old(particles).count as int ==> (#[trigger] old(particles).predicted_position@[i]).bounded(POS_LIMIT as int),
    ensures
        final(particles).wf(),
        *final(particles) == (Particles {
            position: final(particles).position,
            velocity: final(particles).velocity,
            ..*old(particles)
        }),
        forall|i: int|
            0 <= i < old(particles).count as int ==> #[trigger] final(particles).position@[i]
                == (Vec3Fx {
                x: fx_clamp_spec(
                    old(particles).predicted_position@[i].x as int,
                    constants.aabb.min.x as int,
                    constants.aabb.max.x as int,
                ) as i64,
                y: fx_clamp_spec(
                    old(particles).predicted_position@[i].y as int,
                    constants.aabb.min.y as int,
                    constants.aabb.max.y as int,
                ) as i64,
                z: fx_clamp_spec(
                    old(particles).predicted_position@[i].z as int,
                    constants.aabb.min.z as int,
                    constants.aabb.max.z as int,
                ) as i64,
            }),
        forall|i: int|
            0 <= i < old(particles).count as int ==> #[trigger] final(particles).velocity@[i]
                == (Vec3Fx {
                x: commit_velocity_spec(
                    old(particles).predicted_position@[i].x as int,
                    old(particles).position@[i].x as int,
                    constants.dt as int,
                ) as i64,
                y: commit_velocity_spec(
                    old(particles).predicted_position@[i].y as int,
                    old(particles).position@[i].y as int,
                    constants.dt as int,
                ) as i64,
                z: commit_velocity_spec(
                    old(particles).predicted_position@[i].z as int,
                    old(particles).position@[i].z as int,
                    constants.dt as int,
                ) as i64,
            }),
        forall|i: int|
            0 <= i < old(particles).count as int ==> (#[trigger] final(particles).position@[i]).bounded(POS_LIMIT as int) && (#[trigger] final(particles).velocity@[i]).bounded(VEL_LIMIT as int),
        forall|i: int|
            old(particles).count as int <= i < old(particles).capacity as int ==> final(particles).position@[i] == old(particles).position@[i] && final(particles).velocity@[i] == old(particles).velocity@[i],
{
    let n: usize = particles.count as usize;
    let mut i: usize = 0;
    while i < n
        invariant
            i <= n,
            n == particles.count as usize,
            particles.wf(),
            constants.aabb.wf(),
            0 < constants.dt <= DT_LIMIT,
            *particles == (Particles {
                position: particles.position,
                velocity: particles.velocity,
                ..*old(particles)
            }),
            forall|j: int|
                i <= j < particles.capacity as int ==> #[trigger] particles.position@[j] == old(
                    particles,
                ).position@[j],
            forall|j: int|
                i <= j < particles.capacity as int ==> #[trigger] particles.velocity@[j] == old(
                    particles,
                ).velocity@[j],
            forall|j: int|
                0 <= j < i ==> #[trigger] particles.position@[j] == (Vec3Fx {
                    x: fx_clamp_spec(
                        old(particles).predicted_position@[j].x as int,
                        constants.aabb.min.x as int,
                        constants.aabb.max.x as int,
                    ) as i64,
                    y: fx_clamp_spec(
                        old(particles).predicted_position@[j].y as int,
                        constants.aabb.min.y as int,
                        constants.aabb.max.y as int,
                    ) as i64,
                    z: fx_clamp_spec(
                        old(particles).predicted_position@[j].z as int,
                        constants.aabb.min.z as int,
                        constants.aabb.max.z as int,
                    ) as i64,
                }),
            forall|j: int|
                0 <= j < i ==> #[trigger] particles.velocity@[j] == (Vec3Fx {
                    x: commit_velocity_spec(
                        old(particles).predicted_position@[j].x as int,
                        old(particles).position@[j].x as int,
                        constants.dt as int,
                    ) as i64,
                    y: commit_velocity_spec(
                        old(particles).predicted_position@[j].y as int,
                        old(particles).position@[j].y as int,
                        constants.dt as int,
                    ) as i64,
                    z: commit_velocity_spec(
                        old(particles).predicted_position@[j].z as int,
                        old(particles).position@[j].z as int,
                        constants.dt as int,
                    ) as i64,
                }),
            forall|j: int|
                0 <= j < i ==> (#[trigger] particles.position@[j]).bounded(POS_LIMIT as int) && (
                #[trigger] particles.velocity@[j]).bounded(VEL_LIMIT as int),
            forall|j: int|
                0 <= j < n ==> (#[trigger] old(particles).position@[j]).bounded(POS_LIMIT as int),
            forall|j: int|
                0 <= j < n ==> (#[trigger] old(particles).predicted_position@[j]).bounded(
                    POS_LIMIT as int,
                ),
        decreases n - i,
    {
        let pred = particles.predicted_position[i];
        let before = particles.position[i];
        proof {
            assert(pred == old(particles).predicted_position@[i as int]);
            assert(before == old(particles).position@[i as int]);
            assert(old(particles).position@[i as int].bounded(POS_LIMIT as int));
            assert(old(particles).predicted_position@[i as int].bounded(POS_LIMIT as int));
            assert(fx_abs(pred.x as int) <= 2_000_000_000_000);
            assert(fx_abs(before.x as int) <= 2_000_000_000_000);
            assert(fx_abs(pred.x as int - before.x as int) <= 4_000_000_000_000);
            assert(fx_abs(pred.y as int - before.y as int) <= 4_000_000_000_000);
            assert(fx_abs(pred.z as int - before.z as int) <= 4_000_000_000_000);
            lemma_fx_div_bound(pred.x as int - before.x as int, constants.dt as int);
            lemma_fx_div_bound(pred.y as int - before.y as int, constants.dt as int);
            lemma_fx_div_bound(pred.z as int - before.z as int, constants.dt as int);
            assert(fx_abs(pred.x as int - before.x as int) * fx_scale() <= 4_000_000_000_000_000_000)
                by (nonlinear_arith)
                requires
                    fx_abs(pred.x as int - before.x as int) <= 4_000_000_000_000,
            ;
            assert(fx_abs(pred.y as int - before.y as int) * fx_scale() <= 4_000_000_000_000_000_000)
                by (nonlinear_arith)
                requires
                    fx_abs(pred.y as int - before.y as int) <= 4_000_000_000_000,
            ;
            assert(fx_abs(pred.z as int - before.z as int) * fx_scale() <= 4_000_000_000_000_000_000)
                by (nonlinear_arith)
                requires
                    fx_abs(pred.z as int - before.z as int) <= 4_000_000_000_000,
            ;
        }
        let nv = Vec3Fx {
            x: fx_div(pred.x - before.x, constants.dt),
            y: fx_div(pred.y - before.y, constants.dt),
            z: fx_div(pred.z - before.z, constants.dt),
        };
        let np = Vec3Fx {
            x: fx_clamp(pred.x, constants.aabb.min.x, constants.aabb.max.x),
            y: fx_clamp(pred.y, constants.aabb.min.y, constants.aabb.max.y),
            z: fx_clamp(pred.z, constants.aabb.min.z, constants.aabb.max.z),
        };
        particles.position[i] = np;
        particles.velocity[i] = nv;
        i += 1;
    }
}

} // verus!
