//! The particle store: every per-particle column, plus capacity, count
//! and ring-cursor bookkeeping.
//!
//! The store is created once with a fixed capacity. Batches of new
//! particles are appended at the cursor; a batch that straddles the end
//! of the buffer wraps to the front in a second region, overwriting the
//! oldest entries, and `count` clamps at the capacity.

use vstd::prelude::*;

use crate::error::SimulationError;
use crate::fixed::{Vec3Fx, Vec3Wide};

verus! {

/// Number of entries in the per-cell index tables.
pub const CELL_TABLE_SIZE: usize = 65536;

/// One particle's initial state, as handed in by callers.
#[derive(Clone, Copy, Debug, PartialEq, Eq, Structural)]
pub struct ParticleInitData {
    pub position: Vec3Fx,
    pub velocity: Vec3Fx,
}

/// All per-particle buffers of one simulation set.
pub struct Particles {
    /// Number of live particles, at most the capacity.
    pub count: u32,
    /// Next ring write offset.
    pub cursor: u32,
    /// Fixed number of slots.
    pub capacity: usize,
    /// Committed positions.
    pub position: Vec<Vec3Fx>,
    /// Velocities.
    pub velocity: Vec<Vec3Fx>,
    /// Positions predicted by the integrator and refined by the solver.
    pub predicted_position: Vec<Vec3Fx>,
    /// Densities, valid after the density estimator ran.
    pub density: Vec<i64>,
    /// Morton codes.
    pub hash: Vec<u32>,
    /// Sorted-order to original-slot permutation.
    pub index: Vec<u32>,
    /// Sort scratch for `hash`.
    pub hash_temp: Vec<u32>,
    /// Sort scratch for `index`.
    pub index_temp: Vec<u32>,
    /// Radix-sort digit counts.
    pub histograms: Vec<u32>,
    /// Radix-sort digit offsets.
    pub prefix_sums: Vec<u32>,
    /// First sorted slot of each cell, or the empty sentinel.
    pub cell_start: Vec<u32>,
    /// One past the last sorted slot of each cell, or the sentinel.
    pub cell_end: Vec<u32>,
    /// Neighbor lists, row-major with fixed row width `max_neighbors`.
    pub contacts: Vec<u32>,
    /// Number of valid entries in each neighbor row.
    pub contact_counts: Vec<u32>,
    /// Row width of `contacts`.
    pub max_neighbors: u32,
    /// Solver scratch: one Lagrange multiplier per particle.
    pub lambda: Vec<i128>,
    /// Solver scratch: one positional correction per particle.
    pub delta_position: Vec<Vec3Wide>,
    /// Bumped whenever a buffer swap changes which underlying buffer a
    /// role names; cached bindings from older generations are stale.
    pub buffer_generation: u64,
}

impl Particles {
    /// Well-formedness: every column has its fixed length, the counters
    /// stay in range, and while the store is not full the cursor equals
    /// the count (nothing is ever removed).
    pub open spec fn wf(&self) -> bool {
        &&& 1 <= self.capacity <= u32::MAX as int
        &&& self.count as int <= self.capacity as int
        &&& (self.cursor as int) < self.capacity as int
        &&& ((self.count as int) < self.capacity as int ==> self.cursor == self.count)
        &&& 1 <= self.max_neighbors <= 256
        &&& self.position@.len() == self.capacity
        &&& self.velocity@.len() == self.capacity
        &&& self.predicted_position@.len() == self.capacity
        &&& self.density@.len() == self.capacity
        &&& self.hash@.len() == self.capacity
        &&& self.index@.len() == self.capacity
        &&& self.hash_temp@.len() == self.capacity
        &&& self.index_temp@.len() == self.capacity
        &&& self.histograms@.len() == 256
        &&& self.prefix_sums@.len() == 256
        &&& self.cell_start@.len() == CELL_TABLE_SIZE as int
        &&& self.cell_end@.len() == CELL_TABLE_SIZE as int
        &&& self.contacts@.len() == self.capacity as int * self.max_neighbors as int
        &&& self.contact_counts@.len() == self.capacity
        &&& self.lambda@.len() == self.capacity
        &&& self.delta_position@.len() == self.capacity
    }

    /// Creates an empty store with `capacity` slots and neighbor rows of
    /// width `max_neighbors`.
    pub fn new(capacity: usize, max_neighbors: u32) -> (s: Particles)
        requires
            1 <= capacity <= u32::MAX as usize,
            1 <= max_neighbors <= 256,
            capacity * max_neighbors as usize <= usize::MAX,
        ensures
            s.wf(),
            s.count == 0,
            s.cursor == 0,
            s.buffer_generation == 0,
            s.capacity == capacity,
            s.max_neighbors == max_neighbors,
    {
        let zero3 = Vec3Fx { x: 0, y: 0, z: 0 };
        let wide3 = Vec3Wide { x: 0, y: 0, z: 0 };
        Particles {
            count: 0,
            cursor: 0,
            capacity,
            position: fill(capacity, zero3),
            velocity: fill(capacity, zero3),
            predicted_position: fill(capacity, zero3),
            density: fill(capacity, 0i64),
            hash: fill(capacity, 0u32),
            index: fill(capacity, 0u32),
            hash_temp: fill(capacity, 0u32),
            index_temp: fill(capacity, 0u32),
            histograms: fill(256, 0u32),
            prefix_sums: fill(256, 0u32),
            cell_start: fill(CELL_TABLE_SIZE, 0u32),
            cell_end: fill(CELL_TABLE_SIZE, 0u32),
            contacts: fill(capacity * max_neighbors as usize, 0u32),
            contact_counts: fill(capacity, 0u32),
            max_neighbors,
            lambda: fill(capacity, 0i128),
            delta_position: fill(capacity, wide3),
            buffer_generation: 0,
        }
    }

    /// Number of live particles.
    pub fn particle_count(&self) -> (n: u32)
        ensures
            n == self.count,
    {
        self.count
    }

    /// Appends a batch at the cursor, wrapping past the end of the ring
    /// and clamping `count` at the capacity.
    ///
    /// Slot `(cursor + t) % capacity` receives batch entry `t`; when the
    /// batch straddles the end of the buffer this is exactly a head
    /// region at the cursor and a tail region at the front.
    pub fn add_particles(&mut self, batch: &Vec<ParticleInitData>)
        requires
            old(self).wf(),
            batch@.len() <= old(self).capacity as int,
        ensures
            final(self).wf(),
            final(self).capacity == old(self).capacity,
            final(self).max_neighbors == old(self).max_neighbors,
            final(self).count as int == vstd::math::min(
                old(self).count as int + batch@.len() as int,
                old(self).capacity as int,
            ),
            final(self).cursor as int == (old(self).cursor as int + batch@.len()) % (
            old(self).capacity as int),
            forall|t: int|
                0 <= t < batch@.len() ==> final(self).position@[(old(self).cursor as int + t) % (
                old(self).capacity as int)] == batch@[t].position,
            forall|t: int|
                0 <= t < batch@.len() ==> final(self).velocity@[(old(self).cursor as int + t) % (
                old(self).capacity as int)] == batch@[t].velocity,
            forall|j: int|
                0 <= j < old(self).capacity as int && !ring_written(
                    old(self).cursor as int,
                    batch@.len() as int,
                    old(self).capacity as int,
                    j,
                ) ==> final(self).position@[j] == old(self).position@[j] && final(self).velocity@[j] == old(self).velocity@[j],
            final(self).predicted_position == old(self).predicted_position,
            final(self).density == old(self).density,
            final(self).hash == old(self).hash,
            final(self).index == old(self).index,
            final(self).hash_temp == old(self).hash_temp,
            final(self).index_temp == old(self).index_temp,
            final(self).cell_start == old(self).cell_start,
            final(self).cell_end == old(self).cell_end,
            final(self).contacts == old(self).contacts,
            final(self).contact_counts == old(self).contact_counts,
            final(self).buffer_generation == old(self).buffer_generation,
    {
        let len: usize = batch.len();
        let cap: usize = self.capacity;
        let ghost cur0 = self.cursor as int;
        let mut t: usize = 0;
        while t < len
            invariant
                t <= len,
                len == batch@.len(),
                self.capacity == cap,
                cur0 == self.cursor as int,
                self.wf(),
                len <= cap,
                forall|u: int|
                    0 <= u < t ==> self.position@[(cur0 + u) % (cap as int)] == batch@[u].position,
                forall|u: int|
                    0 <= u < t ==> self.velocity@[(cur0 + u) % (cap as int)] == batch@[u].velocity,
                forall|j: int|
                    0 <= j < cap as int && !ring_written(cur0, t as int, cap as int, j)
                        ==> self.position@[j] == old(self).position@[j] && self.velocity@[j] == old(self).velocity@[j],
                self.count == old(self).count,
                self.cursor == old(self).cursor,
                self.max_neighbors == old(self).max_neighbors,
                self.predicted_position == old(self).predicted_position,
                self.density == old(self).density,
                self.hash == old(self).hash,
                self.index == old(self).index,
                self.hash_temp == old(self).hash_temp,
                self.index_temp == old(self).index_temp,
                self.histograms == old(self).histograms,
                self.prefix_sums == old(self).prefix_sums,
                self.cell_start == old(self).cell_start,
                self.cell_end == old(self).cell_end,
                self.contacts == old(self).contacts,
                self.contact_counts == old(self).contact_counts,
                self.lambda == old(self).lambda,
                self.delta_position == old(self).delta_position,
                self.buffer_generation == old(self).buffer_generation,
            decreases len - t,
        {
            let off: u64 = self.cursor as u64 + t as u64;
            let idx: usize = if off >= cap as u64 {
                (off - cap as u64) as usize
            } else {
                off as usize
            };
            proof {
                lemma_ring_index(cur0, t as int, cap as int);
                assert(idx as int == (cur0 + t as int) % (cap as int));
                assert forall|u: int|
                    0 <= u < t implies #[trigger] ((cur0 + u) % (cap as int)) != idx as int by {
                    lemma_ring_index(cur0, u, cap as int);
                    lemma_ring_distinct(cur0, u, t as int, cap as int);
                }
            }
            let p = batch[t];
            self.position[idx] = p.position;
            self.velocity[idx] = p.velocity;
            proof {
                assert forall|u: int|
                    0 <= u < t + 1 implies self.position@[(cur0 + u) % (cap as int)]
                    == batch@[u].position && self.velocity@[(cur0 + u) % (cap as int)]
                    == batch@[u].velocity by {
                    lemma_ring_index(cur0, u, cap as int);
                    if u < t {
                        lemma_ring_distinct(cur0, u, t as int, cap as int);
                    }
                }
                assert forall|j: int|
                    0 <= j < cap as int && !ring_written(cur0, t as int + 1, cap as int, j)
                        implies self.position@[j] == old(self).position@[j] && self.velocity@[j]
                    == old(self).velocity@[j] by {
                    assert((cur0 + t as int) % (cap as int) == idx as int);
                    assert(j != idx as int);
                    assert(!ring_written(cur0, t as int, cap as int, j));
                }
            }
            t += 1;
        }
        let grown: u64 = self.count as u64 + len as u64;
        self.count = if grown >= cap as u64 {
            cap as u32
        } else {
            grown as u32
        };
        let moved: u64 = self.cursor as u64 + len as u64;
        let new_cursor: u64 = if moved >= cap as u64 {
            moved - cap as u64
        } else {
            moved
        };
        proof {
            lemma_ring_index(cur0, len as int, cap as int);
        }
        self.cursor = new_cursor as u32;
    }

    /// Appends a batch only when it fits in the remaining capacity;
    /// otherwise reports `CapacityExceeded` and leaves the store alone.
    pub fn try_add_particles(&mut self, batch: &Vec<ParticleInitData>) -> (r: Result<
        (),
        SimulationError,
    >)
        requires
            old(self).wf(),
        ensures
            final(self).wf(),
            r.is_err() <==> batch@.len() > old(self).capacity as int - old(self).count as int,
            r.is_err() ==> *final(self) == *old(self) && r == Result::<(), SimulationError>::Err(
                SimulationError::CapacityExceeded,
            ),
            r.is_ok() ==> {
                &&& final(self).count as int == old(self).count as int + batch@.len()
                &&& forall|t: int|
                    0 <= t < batch@.len() ==> final(self).position@[old(self).count as int + t]
                        == batch@[t].position && final(self).velocity@[old(self).count as int + t]
                        == batch@[t].velocity
            },
    {
        if batch.len() > self.capacity - self.count as usize {
            return Err(SimulationError::CapacityExceeded);
        }
        let ghost cur0 = self.cursor as int;
        let ghost cap = self.capacity as int;
        self.add_particles(batch);
        proof {
            if old(self).count as int == cap {
                assert(batch@.len() == 0);
            }
            assert forall|t: int| 0 <= t < batch@.len() implies #[trigger] ((cur0 + t) % cap)
                == old(self).count as int + t by {
                vstd::arithmetic::div_mod::lemma_small_mod((cur0 + t) as nat, cap as nat);
            }
            if batch@.len() > 0 {
                vstd::arithmetic::div_mod::lemma_small_mod((cur0 + batch@.len()) as nat % (
                cap as nat), cap as nat);
            }
        }
        Ok(())
    }

    /// Adopts another store's particles: copies its active region onto
    /// this one and takes over its `count` and `cursor`.
    pub fn replace_particles_from_particles(&mut self, src: &Particles)
        requires
            old(self).wf(),
            src.wf(),
            src.capacity == old(self).capacity,
        ensures
            final(self).wf(),
            final(self).capacity == old(self).capacity,
            final(self).max_neighbors == old(self).max_neighbors,
            final(self).count == src.count,
            final(self).cursor == src.cursor,
            forall|i: int|
                0 <= i < src.count as int ==> final(self).position@[i] == src.position@[i]
                    && final(self).velocity@[i] == src.velocity@[i],
            forall|i: int|
                src.count as int <= i < final(self).capacity as int ==> final(self).position@[i] == old(self).position@[i] && final(self).velocity@[i] == old(self).velocity@[i],
            final(self).buffer_generation == old(self).buffer_generation,
    {
        self.count = src.count;
        self.cursor = src.cursor;
        let n: usize = src.count as usize;
        let mut i: usize = 0;
        while i < n
            invariant
                i <= n,
                n == src.count as usize,
                src.wf(),
                self.capacity == old(self).capacity,
                src.capacity == self.capacity,
                self.count == src.count,
                self.cursor == src.cursor,
                self.max_neighbors == old(self).max_neighbors,
                self.position@.len() == self.capacity,
                self.velocity@.len() == self.capacity,
                forall|j: int|
                    0 <= j < i ==> self.position@[j] == src.position@[j] && self.velocity@[j]
                        == src.velocity@[j],
                forall|j: int|
                    i <= j < self.capacity as int ==> self.position@[j] == old(self).position@[j]
                        && self.velocity@[j] == old(self).velocity@[j],
                self.predicted_position == old(self).predicted_position,
                self.density == old(self).density,
                self.hash == old(self).hash,
                self.index == old(self).index,
                self.hash_temp == old(self).hash_temp,
                self.index_temp == old(self).index_temp,
                self.histograms == old(self).histograms,
                self.prefix_sums == old(self).prefix_sums,
                self.cell_start == old(self).cell_start,
                self.cell_end == old(self).cell_end,
                self.contacts == old(self).contacts,
                self.contact_counts == old(self).contact_counts,
                self.lambda == old(self).lambda,
                self.delta_position == old(self).delta_position,
                self.buffer_generation == old(self).buffer_generation,
            decreases n - i,
        {
            self.position[i] = src.position[i];
            self.velocity[i] = src.velocity[i];
            i += 1;
        }
    }

    /// Seeds the predicted positions from the committed positions.
    pub fn copy_position_to_predicted(&mut self)
        requires
            old(self).wf(),
        ensures
            final(self).wf(),
            *final(self) == (Particles { predicted_position: final(self).predicted_position, ..*old(self) }),
            forall|i: int|
                0 <= i < old(self).count as int ==> final(self).predicted_position@[i] == old(self).position@[i],
            forall|i: int|
                old(self).count as int <= i < old(self).capacity as int
                    ==> final(self).predicted_position@[i] == old(self).predicted_position@[i],
    {
        let n: usize = self.count as usize;
        let mut i: usize = 0;
        while i < n
            invariant
                i <= n,
                n == self.count as usize,
                self.count == old(self).count,
                self.wf(),
                *self == (Particles { predicted_position: self.predicted_position, ..*old(self) }),
                forall|j: int| 0 <= j < i ==> self.predicted_position@[j] == self.position@[j],
                forall|j: int|
                    i <= j < self.capacity as int ==> self.predicted_position@[j] == old(self).predicted_position@[j],
            decreases n - i,
        {
            self.predicted_position[i] = self.position[i];
            i += 1;
        }
    }

    /// Swaps the primary and scratch hash buffers and retires every
    /// binding made against the old buffer assignment.
    pub fn swap_hash_buffers(&mut self)
        ensures
            *final(self) == (Particles {
                hash: old(self).hash_temp,
                hash_temp: old(self).hash,
                buffer_generation: wrap_inc(old(self).buffer_generation),
                ..*old(self)
            }),
    {
        core::mem::swap(&mut self.hash, &mut self.hash_temp);
        self.buffer_generation = bump_generation(self.buffer_generation);
    }

    /// Swaps the primary and scratch index buffers and retires every
    /// binding made against the old buffer assignment.
    pub fn swap_index_buffers(&mut self)
        ensures
            *final(self) == (Particles {
                index: old(self).index_temp,
                index_temp: old(self).index,
                buffer_generation: wrap_inc(old(self).buffer_generation),
                ..*old(self)
            }),
    {
        core::mem::swap(&mut self.index, &mut self.index_temp);
        self.buffer_generation = bump_generation(self.buffer_generation);
    }
}

/// A front/back pair of particle sets.
///
/// The front holds the stable state consumed by rendering; the back is
/// populated with newly spawned particles. The swap copies the back's
/// active region onto the front, and is only safe to read at the next
/// frame boundary.
pub struct ParticlePingPongBuffer {
    /// The stable, readable set.
    pub src: Particles,
    /// The set being populated.
    pub dst: Particles,
}

impl ParticlePingPongBuffer {
    /// Both sets are healthy and share one capacity.
    pub open spec fn wf(&self) -> bool {
        &&& self.src.wf()
        &&& self.dst.wf()
        &&& self.src.capacity == self.dst.capacity
    }

    /// Two empty sets of the same shape.
    pub fn new(capacity: usize, max_neighbors: u32) -> (b: ParticlePingPongBuffer)
        requires
            1 <= capacity <= u32::MAX as usize,
            1 <= max_neighbors <= 256,
            capacity * max_neighbors as usize <= usize::MAX,
        ensures
            b.wf(),
            b.src.count == 0,
            b.dst.count == 0,
    {
        ParticlePingPongBuffer {
            src: Particles::new(capacity, max_neighbors),
            dst: Particles::new(capacity, max_neighbors),
        }
    }

    /// Adopts the back set's particles into the front set.
    pub fn swap(&mut self)
        requires
            old(self).wf(),
        ensures
            final(self).wf(),
            final(self).dst == old(self).dst,
            final(self).src.count == old(self).dst.count,
            final(self).src.cursor == old(self).dst.cursor,
            forall|i: int|
                0 <= i < old(self).dst.count as int ==> final(self).src.position@[i] == old(
                    self,
                ).dst.position@[i] && final(self).src.velocity@[i] == old(self).dst.velocity@[i],
    {
        let back = &self.dst;
        self.src.replace_particles_from_particles(back);
    }

    /// The stable set, for reading.
    pub fn src(&self) -> (r: &Particles)
        ensures
            *r == self.src,
    {
        &self.src
    }

    /// The set being populated, for writing.
    pub fn dst(&mut self) -> (r: &mut Particles)
        ensures
            *r == old(self).dst,
            *final(self) == (ParticlePingPongBuffer { src: old(self).src, dst: *final(r) }),
    {
        &mut self.dst
    }
}

/// The successor of a buffer generation, wrapping at the top.
pub open spec fn wrap_inc(g: u64) -> u64 {
    if g == u64::MAX {
        0
    } else {
        (g + 1) as u64
    }
}

fn bump_generation(g: u64) -> (r: u64)
    ensures
        r == wrap_inc(g),
{
    if g == u64::MAX {
        0
    } else {
        g + 1
    }
}

/// True when ring slot `j` is among the `len` slots written starting at
/// `cursor` in a ring of `cap` slots.
pub open spec fn ring_written(cursor: int, len: int, cap: int, j: int) -> bool {
    exists|t: int| 0 <= t < len && #[trigger] ((cursor + t) % cap) == j
}

proof fn lemma_ring_index(cursor: int, t: int, cap: int)
    requires
        0 <= cursor < cap,
        0 <= t <= cap,
    ensures
        (cursor + t) % cap == if cursor + t >= cap {
            cursor + t - cap
        } else {
            cursor + t
        },
{
    if cursor + t >= cap {
        vstd::arithmetic::div_mod::lemma_mod_multiples_vanish(1, cursor + t - cap, cap);
        vstd::arithmetic::div_mod::lemma_small_mod((cursor + t - cap) as nat, cap as nat);
    } else {
        vstd::arithmetic::div_mod::lemma_small_mod((cursor + t) as nat, cap as nat);
    }
}

proof fn lemma_ring_distinct(cursor: int, u: int, t: int, cap: int)
    requires
        0 <= cursor < cap,
        0 <= u < t <= cap,
        t < cap || u > 0,
    ensures
        (cursor + u) % cap != (cursor + t) % cap,
{
    lemma_ring_index(cursor, u, cap);
    lemma_ring_index(cursor, t, cap);
}

/// A vector of `n` copies of `val`.
fn fill<T: Copy>(n: usize, val: T) -> (v: Vec<T>)
    ensures
        v@.len() == n,
        forall|i: int| 0 <= i < n ==> v@[i] == val,
{
    let mut v: Vec<T> = Vec::new();
    let mut i: usize = 0;
    while i < n
        invariant
            i <= n,
            v@.len() == i,
            forall|j: int| 0 <= j < i ==> v@[j] == val,
        decreases n - i,
    {
        v.push(val);
        i += 1;
    }
    v
}

} // verus!
