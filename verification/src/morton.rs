//! Morton (Z-order) codes for spatial hashing.
//!
//! A particle's predicted position is quantized per axis by flooring
//! `pos / grid_size`; the three cell coordinates, reduced to two's
//! complement 32-bit words, are then interleaved bit by bit into a single
//! 32-bit code: bit `k` of the x coordinate lands at bit `3k`, of the y
//! coordinate at bit `3k + 1`, and of the z coordinate at bit `3k + 2`,
//! as far as 32 bits allow. Nearby cells thus receive nearby codes, and
//! negative coordinates wrap to large words so ordering stays consistent
//! across the simulation volume.

use vstd::prelude::*;

use crate::fixed::{floor_div, Vec3Fx};
use crate::store::Particles;

verus! {

/// The scalar constants of the hashing dispatch.
#[derive(Clone, Copy, Debug, PartialEq, Eq, Structural)]
pub struct MortonHashConstants {
    pub particle_count: u32,
    pub grid_size: i64,
}

impl MortonHashConstants {
    /// Packs the dispatch constants.
    pub fn new(particle_count: u32, grid_size: i64) -> (c: MortonHashConstants)
        ensures
            c == (MortonHashConstants { particle_count, grid_size }),
    {
        MortonHashConstants { particle_count, grid_size }
    }
}

/// The 3-way bit interleave of three 32-bit cell coordinates.
///
/// Eleven bits of `x`, eleven of `y` and ten of `z` fit in the result.
pub open spec fn morton_interleave(x: u32, y: u32, z: u32) -> u32 {
    ((x & 1) << 0) | (((x >> 1) & 1) << 3) | (((x >> 2) & 1) << 6) | (((x >> 3) & 1) << 9) | (((x
        >> 4) & 1) << 12) | (((x >> 5) & 1) << 15) | (((x >> 6) & 1) << 18) | (((x >> 7) & 1)
        << 21) | (((x >> 8) & 1) << 24) | (((x >> 9) & 1) << 27) | (((x >> 10) & 1) << 30) | (((y
        & 1) << 1) | (((y >> 1) & 1) << 4) | (((y >> 2) & 1) << 7) | (((y >> 3) & 1) << 10) | (((y
        >> 4) & 1) << 13) | (((y >> 5) & 1) << 16) | (((y >> 6) & 1) << 19) | (((y >> 7) & 1)
        << 22) | (((y >> 8) & 1) << 25) | (((y >> 9) & 1) << 28) | (((y >> 10) & 1) << 31)) | (((z
        & 1) << 2) | (((z >> 1) & 1) << 5) | (((z >> 2) & 1) << 8) | (((z >> 3) & 1) << 11) | (((z
        >> 4) & 1) << 14) | (((z >> 5) & 1) << 17) | (((z >> 6) & 1) << 20) | (((z >> 7) & 1)
        << 23) | (((z >> 8) & 1) << 26) | (((z >> 9) & 1) << 29))
}

/// A signed cell coordinate reduced to its 32-bit two's complement word.
pub open spec fn wrap32(c: int) -> u32 {
    (c % 0x1_0000_0000) as u32
}

/// The Morton code of a position: per-axis floor quantization by
/// `grid_size`, 32-bit wrap, then the bit interleave.
pub open spec fn morton_hash_spec(p: Vec3Fx, grid_size: int) -> u32
    recommends
        grid_size > 0,
{
    morton_interleave(
        wrap32(p.x as int / grid_size),
        wrap32(p.y as int / grid_size),
        wrap32(p.z as int / grid_size),
    )
}

/// Reduces a signed cell coordinate to its 32-bit word.
fn wrap_coord(c: i64) -> (w: u32)
    ensures
        w == wrap32(c as int),
{
    let m: u128 = 0x1_0000_0000;
    if c >= 0 {
        let r: u128 = (c as u128) % m;
        proof {
            vstd::arithmetic::div_mod::lemma_mod_bound(c as int, m as int);
        }
        r as u32
    } else {
        let pm: u128 = (-(c as i128)) as u128;
        let r: u128 = pm % m;
        proof {
            vstd::arithmetic::div_mod::lemma_mod_bound(pm as int, m as int);
            vstd::arithmetic::div_mod::lemma_fundamental_div_mod(pm as int, m as int);
            let d = pm as int / m as int;
            if r == 0 {
                assert(c as int == m as int * (-d) + 0) by (nonlinear_arith)
                    requires
                        pm as int == m as int * d + 0 && c as int == -(pm as int),
                ;
                vstd::arithmetic::div_mod::lemma_mod_multiples_vanish(-d, 0, m as int);
                vstd::arithmetic::div_mod::lemma_small_mod(0, m as nat);
            } else {
                assert(c as int == m as int * (-d - 1) + (m as int - r as int))
                    by (nonlinear_arith)
                    requires
                        pm as int == m as int * d + r as int && c as int == -(pm as int),
                ;
                vstd::arithmetic::div_mod::lemma_mod_multiples_vanish(
                    -d - 1,
                    m as int - r as int,
                    m as int,
                );
                vstd::arithmetic::div_mod::lemma_small_mod(
                    (m as int - r as int) as nat,
                    m as nat,
                );
            }
        }
        if r == 0 {
            0u32
        } else {
            (m - r) as u32
        }
    }
}

/// Interleaves the bits of three 32-bit cell coordinates.
fn interleave_coords(x: u32, y: u32, z: u32) -> (h: u32)
    ensures
        h == morton_interleave(x, y, z),
{
    ((x & 1) << 0u32) | (((x >> 1u32) & 1) << 3u32) | (((x >> 2u32) & 1) << 6u32) | (((x >> 3u32)
        & 1) << 9u32) | (((x >> 4u32) & 1) << 12u32) | (((x >> 5u32) & 1) << 15u32) | (((x
        >> 6u32) & 1) << 18u32) | (((x >> 7u32) & 1) << 21u32) | (((x >> 8u32) & 1) << 24u32) | (((
    x >> 9u32) & 1) << 27u32) | (((x >> 10u32) & 1) << 30u32) | (((y & 1) << 1u32) | (((y >> 1u32)
        & 1) << 4u32) | (((y >> 2u32) & 1) << 7u32) | (((y >> 3u32) & 1) << 10u32) | (((y >> 4u32)
        & 1) << 13u32) | (((y >> 5u32) & 1) << 16u32) | (((y >> 6u32) & 1) << 19u32) | (((y
        >> 7u32) & 1) << 22u32) | (((y >> 8u32) & 1) << 25u32) | (((y >> 9u32) & 1) << 28u32) | (((
    y >> 10u32) & 1) << 31u32)) | (((z & 1) << 2u32) | (((z >> 1u32) & 1) << 5u32) | (((z >> 2u32)
        & 1) << 8u32) | (((z >> 3u32) & 1) << 11u32) | (((z >> 4u32) & 1) << 14u32) | (((z
        >> 5u32) & 1) << 17u32) | (((z >> 6u32) & 1) << 20u32) | (((z >> 7u32) & 1) << 23u32) | (((
    z >> 8u32) & 1) << 26u32) | (((z >> 9u32) & 1) << 29u32))
}

/// The Morton code of one position.
///
/// Identical inputs always give identical codes: the result is a pure
/// function of the position and the cell size.
pub fn morton_hash(p: Vec3Fx, grid_size: i64) -> (h: u32)
    requires
        grid_size > 0,
    ensures
        h == morton_hash_spec(p, grid_size as int),
{
    let cx = wrap_coord(floor_div(p.x, grid_size));
    let cy = wrap_coord(floor_div(p.y, grid_size));
    let cz = wrap_coord(floor_div(p.z, grid_size));
    interleave_coords(cx, cy, cz)
}

/// The Morton code of three signed cell coordinates.
pub fn morton_of_cell_coords(cx: i64, cy: i64, cz: i64) -> (h: u32)
    ensures
        h == morton_interleave(wrap32(cx as int), wrap32(cy as int), wrap32(cz as int)),
{
    interleave_coords(wrap_coord(cx), wrap_coord(cy), wrap_coord(cz))
}

/// The hashing dispatch: writes each live particle's Morton code from
/// its predicted position and resets `index` to the identity
/// permutation, ready for the sort.
pub fn morton_hash_pass(particles: &mut Particles, constants: MortonHashConstants)
    requires
        old(particles).wf(),
        constants.grid_size > 0,
        constants.particle_count == old(particles).count,
    ensures
        final(particles).wf(),
        *final(particles) == (Particles {
            hash: final(particles).hash,
            index: final(particles).index,
            ..*old(particles)
        }),
        forall|i: int|
            0 <= i < old(particles).count as int ==> final(particles).hash@[i]
                == morton_hash_spec(
                old(particles).predicted_position@[i],
                constants.grid_size as int,
            ) && final(particles).index@[i] == i as u32,
        forall|i: int|
            old(particles).count as int <= i < old(particles).capacity as int ==> final(particles).hash@[i] == old(particles).hash@[i] && final(particles).index@[i] == old(particles).index@[i],
{
    let n: usize = particles.count as usize;
    let mut i: usize = 0;
    while i < n
        invariant
            i <= n,
            n == particles.count as usize,
            particles.wf(),
            constants.grid_size > 0,
            *particles == (Particles {
                hash: particles.hash,
                index: particles.index,
                ..*old(particles)
            }),
            forall|j: int|
                0 <= j < i ==> particles.hash@[j] == morton_hash_spec(
                    particles.predicted_position@[j],
                    constants.grid_size as int,
                ) && particles.index@[j] == j as u32,
            forall|j: int|
                i <= j < particles.capacity as int ==> particles.hash@[j] == old(particles).hash@[j] && particles.index@[j] == old(particles).index@[j],
        decreases n - i,
    {
        let h = morton_hash(particles.predicted_position[i], constants.grid_size);
        particles.hash[i] = h;
        particles.index[i] = i as u32;
        i += 1;
    }
}

} // verus!
