use fluid_sim::config::Aabb;
use fluid_sim::fixed::Vec3Fx;
use fluid_sim::integrate::{predict_position_pass, PredictPositionConstants};
use fluid_sim::morton::{morton_hash, morton_hash_pass, MortonHashConstants};
use fluid_sim::store::{ParticleInitData, Particles};

fn unit_aabb() -> Aabb {
    Aabb::new(
        Vec3Fx::new(-1_000_000, -1_000_000, -1_000_000),
        Vec3Fx::new(1_000_000, 1_000_000, 1_000_000),
    )
}

#[test]
fn test_morton_hash() {
    let mut particles = Particles::new(1024, 32);
    particles.add_particles(&vec![
        ParticleInitData {
            position: Vec3Fx::new(-1_000_000, 0, 0),
            velocity: Vec3Fx::new(0, 0, 0),
        },
        ParticleInitData {
            position: Vec3Fx::new(0, -1_000_000, 0),
            velocity: Vec3Fx::new(0, 0, 0),
        },
        ParticleInitData {
            position: Vec3Fx::new(0, 0, -1_000_000),
            velocity: Vec3Fx::new(0, 0, 0),
        },
    ]);

    // Predict with zero velocities: the predicted positions equal the
    // committed ones, clamped into the unit volume.
    let predict = PredictPositionConstants::new(particles.count, 100_000, unit_aabb());
    predict_position_pass(&mut particles, predict);

    let constants = MortonHashConstants::new(particles.count, 1_000_000);
    morton_hash_pass(&mut particles, constants);

    let expected = vec![
        0b0100_1001_0010_0100_1001_0010_0100_1001u32,
        0b1001_0010_0100_1001_0010_0100_1001_0010u32,
        0b0010_0100_1001_0010_0100_1001_0010_0100u32,
    ];
    assert_eq!(particles.count as usize, expected.len());
    for (r, e) in particles.hash.iter().zip(expected.iter()) {
        assert_eq!(r, e);
    }
}

#[test]
fn morton_hash_test_morton_hash() {
    // The same three axis positions, hashed directly, with the identity
    // index attached by the hashing pass.
    let positions = vec![
        Vec3Fx::new(-1_000_000, 0, 0),
        Vec3Fx::new(0, -1_000_000, 0),
        Vec3Fx::new(0, 0, -1_000_000),
    ];
    let expected_hashes = vec![
        0b0100_1001_0010_0100_1001_0010_0100_1001u32,
        0b1001_0010_0100_1001_0010_0100_1001_0010u32,
        0b0010_0100_1001_0010_0100_1001_0010_0100u32,
    ];
    for (p, e) in positions.iter().zip(expected_hashes.iter()) {
        assert_eq!(morton_hash(*p, 1_000_000), *e);
    }

    let mut particles = Particles::new(8, 32);
    particles.add_particles(
        &positions
            .iter()
            .map(|p| ParticleInitData {
                position: *p,
                velocity: Vec3Fx::new(0, 0, 0),
            })
            .collect::<Vec<_>>(),
    );
    particles.copy_position_to_predicted();
    let n = particles.count;
    morton_hash_pass(&mut particles, MortonHashConstants::new(n, 1_000_000));
    for i in 0..3usize {
        assert_eq!(particles.hash[i], expected_hashes[i]);
        assert_eq!(particles.index[i], i as u32);
    }
}

#[test]
fn test_morton_determinism_across_runs() {
    // The same position hashes to the same fixed pattern on every call;
    // the three axis patterns are pairwise distinct.
    let a = morton_hash(Vec3Fx::new(-1_000_000, 0, 0), 1_000_000);
    let b = morton_hash(Vec3Fx::new(0, -1_000_000, 0), 1_000_000);
    let c = morton_hash(Vec3Fx::new(0, 0, -1_000_000), 1_000_000);
    for _ in 0..8 {
        assert_eq!(morton_hash(Vec3Fx::new(-1_000_000, 0, 0), 1_000_000), a);
        assert_eq!(morton_hash(Vec3Fx::new(0, -1_000_000, 0), 1_000_000), b);
        assert_eq!(morton_hash(Vec3Fx::new(0, 0, -1_000_000), 1_000_000), c);
    }
    assert_eq!(a, 0b0100_1001_0010_0100_1001_0010_0100_1001u32);
    assert_ne!(a, b);
    assert_ne!(a, c);
    assert_ne!(b, c);
}
