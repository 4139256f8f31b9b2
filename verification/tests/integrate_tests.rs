use fluid_sim::config::Aabb;
use fluid_sim::fixed::Vec3Fx;
use fluid_sim::integrate::{
    apply_gravity_pass, predict_position_pass, update_position_pass, ApplyGravityConstants,
    PredictPositionConstants, UpdatePositionConstants,
};
use fluid_sim::store::{ParticleInitData, Particles};

fn unit_aabb() -> Aabb {
    Aabb::new(
        Vec3Fx::new(-1_000_000, -1_000_000, -1_000_000),
        Vec3Fx::new(1_000_000, 1_000_000, 1_000_000),
    )
}

fn with_velocities(velocities: &[Vec3Fx]) -> Particles {
    let mut particles = Particles::new(64, 32);
    particles.add_particles(
        &velocities
            .iter()
            .map(|v| ParticleInitData {
                position: Vec3Fx::new(0, 0, 0),
                velocity: *v,
            })
            .collect::<Vec<_>>(),
    );
    particles
}

#[test]
fn test_apply_gravity() {
    // Unit velocities along each axis, gravity (1, 2, 3), dt = 0.1:
    // exact Euler integration, component by component.
    let mut particles = with_velocities(&[
        Vec3Fx::new(1_000_000, 0, 0),
        Vec3Fx::new(0, 1_000_000, 0),
        Vec3Fx::new(0, 0, 1_000_000),
    ]);

    let constants = ApplyGravityConstants::new(
        particles.count,
        100_000,
        Vec3Fx::new(1_000_000, 2_000_000, 3_000_000),
    );
    apply_gravity_pass(&mut particles, constants);

    let expected = vec![
        Vec3Fx::new(1_100_000, 200_000, 300_000),
        Vec3Fx::new(100_000, 1_200_000, 300_000),
        Vec3Fx::new(100_000, 200_000, 1_300_000),
    ];
    assert_eq!(particles.count as usize, expected.len());
    for (r, e) in particles.velocity.iter().zip(expected.iter()) {
        assert_eq!(r, e);
    }
}

#[test]
fn apply_gravity_test_apply_gravity() {
    // Negative unit velocities under a strong pull, gravity (10, 20, 30),
    // dt = 0.02.
    let mut particles = with_velocities(&[
        Vec3Fx::new(-1_000_000, 0, 0),
        Vec3Fx::new(0, -1_000_000, 0),
        Vec3Fx::new(0, 0, -1_000_000),
    ]);

    let constants = ApplyGravityConstants::new(
        particles.count,
        20_000,
        Vec3Fx::new(10_000_000, 20_000_000, 30_000_000),
    );
    apply_gravity_pass(&mut particles, constants);

    let expected = vec![
        Vec3Fx::new(-800_000, 400_000, 600_000),
        Vec3Fx::new(200_000, -600_000, 600_000),
        Vec3Fx::new(200_000, 400_000, -400_000),
    ];
    for (r, e) in particles.velocity.iter().zip(expected.iter()) {
        assert_eq!(r, e);
    }
}

#[test]
fn test_update_position() {
    let mut particles = with_velocities(&[
        Vec3Fx::new(1_000_000, 0, 0),
        Vec3Fx::new(0, 1_000_000, 0),
        Vec3Fx::new(0, 0, 1_000_000),
    ]);
    particles.copy_position_to_predicted();

    // Nudge each predicted position by 0.1 along its axis, as a solver
    // iteration would have.
    particles.predicted_position[0].x = 100_000;
    particles.predicted_position[1].y = 100_000;
    particles.predicted_position[2].z = 100_000;

    let constants = UpdatePositionConstants::new(unit_aabb(), particles.count, 100_000);
    update_position_pass(&mut particles, constants);

    let expected_positions = vec![
        Vec3Fx::new(100_000, 0, 0),
        Vec3Fx::new(0, 100_000, 0),
        Vec3Fx::new(0, 0, 100_000),
    ];
    for (r, e) in particles.position.iter().zip(expected_positions.iter()) {
        assert_eq!(r, e);
    }

    // The commit folds the 0.1 move over dt = 0.1 back into a unit
    // velocity along each axis.
    assert_eq!(particles.velocity[0].x, 1_000_000);
    assert_eq!(particles.velocity[1].y, 1_000_000);
    assert_eq!(particles.velocity[2].z, 1_000_000);
}

#[test]
fn test_predict_clamps_to_volume() {
    // A fast particle predicted past the wall stops at the wall.
    let mut particles = with_velocities(&[Vec3Fx::new(30_000_000, 0, 0)]);
    let constants = PredictPositionConstants::new(particles.count, 100_000, unit_aabb());
    predict_position_pass(&mut particles, constants);
    assert_eq!(particles.predicted_position[0].x, 1_000_000);
    assert_eq!(particles.predicted_position[0].y, 0);
}
