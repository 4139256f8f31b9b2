use fluid_sim::error::SimulationError;
use fluid_sim::fixed::Vec3Fx;
use fluid_sim::store::{ParticleInitData, ParticlePingPongBuffer, Particles};

fn particle(x: i64) -> ParticleInitData {
    ParticleInitData {
        position: Vec3Fx::new(x, 0, 0),
        velocity: Vec3Fx::new(0, 0, 0),
    }
}

#[test]
fn test_ring_buffer_wraparound() {
    // Capacity four; six appends wrap the cursor to the front and clamp
    // the count at the capacity, never beyond it.
    let mut particles = Particles::new(4, 32);
    particles.add_particles(&vec![particle(1), particle(2), particle(3)]);
    assert_eq!(particles.count, 3);
    assert_eq!(particles.cursor, 3);

    particles.add_particles(&vec![particle(4), particle(5), particle(6)]);
    assert_eq!(particles.count, 4);
    assert_eq!(particles.cursor, 2);

    // Slot 3 took the head of the second batch; slots 0 and 1 took its
    // wrapped tail, overwriting the oldest entries.
    assert_eq!(particles.position[3].x, 4);
    assert_eq!(particles.position[0].x, 5);
    assert_eq!(particles.position[1].x, 6);
    assert_eq!(particles.position[2].x, 3);
}

#[test]
fn test_try_add_reports_capacity() {
    let mut particles = Particles::new(4, 32);
    assert!(particles.try_add_particles(&vec![particle(1), particle(2)]).is_ok());
    assert_eq!(particles.count, 2);

    let r = particles.try_add_particles(&vec![particle(3), particle(4), particle(5)]);
    assert_eq!(r, Err(SimulationError::CapacityExceeded));
    assert_eq!(particles.count, 2, "a refused batch leaves the store alone");

    assert!(particles.try_add_particles(&vec![particle(3), particle(4)]).is_ok());
    assert_eq!(particles.count, 4);
    assert_eq!(particles.position[2].x, 3);
    assert_eq!(particles.position[3].x, 4);
}

#[test]
fn test_replace_particles_from_particles() {
    let mut front = Particles::new(8, 32);
    let mut back = Particles::new(8, 32);
    front.add_particles(&vec![particle(1)]);
    back.add_particles(&vec![particle(10), particle(20), particle(30)]);

    front.replace_particles_from_particles(&back);
    assert_eq!(front.count, 3);
    assert_eq!(front.cursor, back.cursor);
    assert_eq!(front.position[0].x, 10);
    assert_eq!(front.position[1].x, 20);
    assert_eq!(front.position[2].x, 30);

    // An empty source adopts the zero count without copying anything.
    let empty = Particles::new(8, 32);
    front.replace_particles_from_particles(&empty);
    assert_eq!(front.count, 0);
}

#[test]
fn test_ping_pong_swap() {
    let mut buffers = ParticlePingPongBuffer::new(8, 32);
    buffers.dst().add_particles(&vec![particle(42), particle(43)]);
    assert_eq!(buffers.src().count, 0);

    buffers.swap();
    assert_eq!(buffers.src().count, 2);
    assert_eq!(buffers.src().cursor, buffers.dst.cursor);
    assert_eq!(buffers.src().position[0].x, 42);
    assert_eq!(buffers.src().position[1].x, 43);
    // The back set stays intact, ready for the next spawn batch.
    assert_eq!(buffers.dst.count, 2);
}

#[test]
fn test_swap_scratch_buffers() {
    let mut particles = Particles::new(4, 32);
    particles.hash[0] = 7;
    particles.hash_temp[0] = 9;
    let generation = particles.buffer_generation;
    particles.swap_hash_buffers();
    assert_eq!(particles.hash[0], 9);
    assert_eq!(particles.hash_temp[0], 7);
    assert_ne!(particles.buffer_generation, generation);
}

#[test]
fn test_particle_count_accessor() {
    let mut particles = Particles::new(4, 32);
    assert_eq!(particles.particle_count(), 0);
    particles.add_particles(&vec![particle(1), particle(2)]);
    assert_eq!(particles.particle_count(), 2);
}
