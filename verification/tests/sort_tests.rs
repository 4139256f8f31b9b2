use fluid_sim::fixed::Vec3Fx;
use fluid_sim::morton::{morton_hash_pass, MortonHashConstants};
use fluid_sim::pipeline::DescriptorCache;
use fluid_sim::sort::{
    counting_sort_round, radix_histogram, radix_prefix_sums, PrefixSumConstants,
    RadixSortConstants, RadixSortCountConstants, RadixSortSystem,
};
use fluid_sim::store::{ParticleInitData, Particles};

fn particle(x: i64, y: i64, z: i64) -> ParticleInitData {
    ParticleInitData {
        position: Vec3Fx::new(x, y, z),
        velocity: Vec3Fx::new(0, 0, 0),
    }
}

#[test]
fn test_radix_sort_count() {
    let mut particles = Particles::new(256, 32);
    particles.add_particles(&vec![
        particle(0, 0, -1_000_000),
        particle(0, -1_000_000, 0),
        particle(-1_000_000, 0, 0),
        particle(0, -1_000_000, -1_000_000),
        particle(-1_000_000, 0, -1_000_000),
    ]);
    particles.copy_position_to_predicted();
    let n = particles.count;
    morton_hash_pass(&mut particles, MortonHashConstants::new(n, 1_000_000));

    let count = particles.count as usize;
    radix_histogram(
        &particles.hash,
        &particles.index,
        count,
        0,
        &mut particles.histograms,
    );

    let expected_bins: Vec<u32> = particles.hash[..count].iter().map(|&h| h & 0xff).collect();

    for &bin in &expected_bins {
        assert_eq!(
            particles.histograms[bin as usize], 1,
            "Bin {} should have count 1",
            bin
        );
    }

    let non_zero_count = particles.histograms.iter().filter(|&&v| v != 0).count();
    assert_eq!(non_zero_count, count);

    let total: u32 = particles.histograms.iter().take(256).sum();
    assert_eq!(total, particles.count);
}

#[test]
fn test_radix_sort() {
    let mut particles = Particles::new(256, 32);
    particles.add_particles(&vec![
        particle(1_000_000, 0, 0),
        particle(0, 1_000_000, 0),
        particle(0, 0, 1_000_000),
        particle(-1_000_000, 0, 0),
        particle(0, -1_000_000, 0),
    ]);
    particles.copy_position_to_predicted();
    let n = particles.count;
    morton_hash_pass(&mut particles, MortonHashConstants::new(n, 1_000_000));

    let count = particles.count as usize;
    radix_histogram(
        &particles.hash,
        &particles.index,
        count,
        0,
        &mut particles.histograms,
    );
    radix_prefix_sums(&particles.histograms, &mut particles.prefix_sums);
    counting_sort_round(
        &particles.hash,
        &particles.index,
        RadixSortCountConstants::new(particles.count, 0, 1, 1),
        PrefixSumConstants::new(1, 256),
        RadixSortConstants::new(particles.count, 0, 1, 1),
        &mut particles.histograms,
        &mut particles.prefix_sums,
        &mut particles.hash_temp,
        &mut particles.index_temp,
    );

    // After one round the low 8 bits are in order in the scratch buffer.
    let hash_slice = &particles.hash_temp[..count];
    for i in 1..count {
        let prev = hash_slice[i - 1] & 0xff;
        let curr = hash_slice[i] & 0xff;
        assert!(
            prev <= curr,
            "Radix sort failed: hash[{}] & 0xff = {} > hash[{}] & 0xff = {}",
            i - 1,
            prev,
            i,
            curr
        );
    }
}

#[test]
fn test_complete_radix_sort() {
    let mut particles = Particles::new(256, 32);
    particles.add_particles(&vec![
        particle(2_000_000, 0, 0),
        particle(1_000_000, 1_000_000, 0),
        particle(0, 2_000_000, 0),
        particle(0, 0, 2_000_000),
        particle(-1_000_000, -1_000_000, -1_000_000),
    ]);
    particles.copy_position_to_predicted();
    let n = particles.count;
    morton_hash_pass(&mut particles, MortonHashConstants::new(n, 1_000_000));

    let mut sort_system = RadixSortSystem::new();
    let mut cache = DescriptorCache::new();
    sort_system.sort_morton_codes(&mut particles, &mut cache);

    let count = particles.count as usize;
    let hash_slice = &particles.hash[..count];
    let index_slice = &particles.index[..count];

    for i in 1..count {
        assert!(
            hash_slice[i - 1] <= hash_slice[i],
            "Morton codes not sorted: hash[{}] = {} > hash[{}] = {}",
            i - 1,
            hash_slice[i - 1],
            i,
            hash_slice[i]
        );
    }

    let mut found = vec![false; count];
    for &index in index_slice {
        if (index as usize) < count {
            found[index as usize] = true;
        }
    }
    assert!(
        found.iter().all(|&f| f),
        "Not all original indices found after sorting"
    );
}

#[test]
fn test_sort_permutation_large_batch() {
    // A larger, wrap-heavy key set: the sorted keys are non-decreasing
    // and the index column is a permutation.
    let mut particles = Particles::new(512, 32);
    let mut batch = Vec::new();
    for i in 0..500i64 {
        let x = (i % 17 - 8) * 300_000;
        let y = (i % 23 - 11) * 500_000;
        let z = (i % 29 - 14) * 700_000;
        batch.push(particle(x, y, z));
    }
    particles.add_particles(&batch);
    particles.copy_position_to_predicted();
    let n = particles.count;
    morton_hash_pass(&mut particles, MortonHashConstants::new(n, 250_000));

    let mut sort_system = RadixSortSystem::new();
    let mut cache = DescriptorCache::new();
    sort_system.sort_morton_codes(&mut particles, &mut cache);

    let count = particles.count as usize;
    for i in 1..count {
        assert!(particles.hash[i - 1] <= particles.hash[i]);
    }
    let mut seen = vec![0u32; count];
    for &ix in &particles.index[..count] {
        assert!((ix as usize) < count);
        seen[ix as usize] += 1;
    }
    assert!(seen.iter().all(|&c| c == 1));
}
