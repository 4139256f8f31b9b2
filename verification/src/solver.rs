//! The iterative density-constraint solver.
//!
//! Each pass runs three dispatches over all particles: a Lagrange
//! multiplier from the density error against the gradient magnitudes, a
//! positional correction from the multipliers of each contact pair, and
//! the application of the correction to the predicted positions, clamped
//! into the simulation volume. The density is deliberately not
//! recomputed between passes. Contact pairs closer than a thousandth of
//! a unit carry no usable direction and contribute nothing.

use vstd::prelude::*;

use crate::config::{Aabb, POS_LIMIT};
use crate::density::{pair_dist, DENSITY_LIMIT};
use crate::fixed::{
    fx_abs, fx_clamp_spec, fx_div_spec, fx_div_wide, fx_mul_spec, fx_mul_wide, lemma_fx_div_bound,
    lemma_fx_mul_bound, trunc_ratio, Vec3Fx, Vec3Wide,
};
use crate::kernel::{
    h_in_range, lemma_grad_value_bound, lemma_kernel_ranges, spiky_grad_factor_of, sqrt_floor,
    PI_FX,
};
use crate::density::{pair_distance, spiky_factor};
use crate::neighbors::dist2_spec;
use crate::store::Particles;

verus! {

/// Bound on one Lagrange multiplier.
pub const LAMBDA_LIMIT: i128 = 3_200_000_000_000_000_000_000i128;

/// Bound on one displacement component.
pub const DELTA_LIMIT: i128 = 4_000_000_000_000_000_000_000_000_000_000i128;

/// The gradient magnitude of the Spiky kernel for a contact pair, zero
/// past the reach or below the direction cutoff.
pub open spec fn pair_grad_scalar(pred: Seq<Vec3Fx>, i: int, c: int, h: int) -> int {
    let r = pair_dist(pred, i, c);
    if r >= h || r < 1000 {
        0
    } else {
        fx_mul_spec(spiky_grad_factor_of(h), fx_mul_spec(h - r, h - r))
    }
}

/// The gradient vector of the Spiky kernel for a contact pair: the
/// magnitude along the unit direction from the contact toward the
/// particle, negated as the kernel falls off with distance.
pub open spec fn pair_grad_vec(pred: Seq<Vec3Fx>, i: int, c: int, h: int) -> (int, int, int) {
    let r = pair_dist(pred, i, c);
    if r >= h || r < 1000 {
        (0, 0, 0)
    } else {
        let gs = fx_mul_spec(spiky_grad_factor_of(h), fx_mul_spec(h - r, h - r));
        (
            fx_mul_spec(-gs, trunc_ratio((pred[i].x - pred[c].x) * 1_000_000, r)),
            fx_mul_spec(-gs, trunc_ratio((pred[i].y - pred[c].y) * 1_000_000, r)),
            fx_mul_spec(-gs, trunc_ratio((pred[i].z - pred[c].z) * 1_000_000, r)),
        )
    }
}

/// Accumulated gradient data over the first `t` contacts of particle
/// `i`: the summed gradient vector and the summed squared magnitudes.
pub open spec fn row_grad(
    pred: Seq<Vec3Fx>,
    contacts: Seq<u32>,
    mn: int,
    i: int,
    h: int,
    t: int,
) -> (int, int, int, int)
    decreases t,
{
    if t <= 0 {
        (0, 0, 0, 0)
    } else {
        let prev = row_grad(pred, contacts, mn, i, h, t - 1);
        let c = contacts[i * mn + (t - 1)] as int;
        let g = pair_grad_vec(pred, i, c, h);
        let gs = pair_grad_scalar(pred, i, c, h);
        (prev.0 + g.0, prev.1 + g.1, prev.2 + g.2, prev.3 + fx_mul_spec(gs, gs))
    }
}

/// The Lagrange multiplier of particle `i`: the negated density error
/// over the gradient energy plus the stabilizer.
pub open spec fn lambda_of(
    pred: Seq<Vec3Fx>,
    contacts: Seq<u32>,
    counts: Seq<u32>,
    density: Seq<i64>,
    mn: int,
    i: int,
    rest: int,
    eps: int,
    h: int,
) -> int {
    let c_err = fx_div_spec(density[i] as int, rest) - 1_000_000;
    let g = row_grad(pred, contacts, mn, i, h, counts[i] as int);
    let denom = fx_mul_spec(g.0, g.0) + fx_mul_spec(g.1, g.1) + fx_mul_spec(g.2, g.2) + g.3 + eps;
    -fx_div_spec(c_err, denom)
}

/// The summed pairwise correction over the first `t` contacts.
pub open spec fn row_disp(
    pred: Seq<Vec3Fx>,
    contacts: Seq<u32>,
    lambda: Seq<i128>,
    mn: int,
    i: int,
    h: int,
    t: int,
) -> (int, int, int)
    decreases t,
{
    if t <= 0 {
        (0, 0, 0)
    } else {
        let prev = row_disp(pred, contacts, lambda, mn, i, h, t - 1);
        let c = contacts[i * mn + (t - 1)] as int;
        let g = pair_grad_vec(pred, i, c, h);
        let l = lambda[i] as int + lambda[c] as int;
        (
            prev.0 + fx_mul_spec(l, g.0),
            prev.1 + fx_mul_spec(l, g.1),
            prev.2 + fx_mul_spec(l, g.2),
        )
    }
}

/// The positional correction of particle `i`, scaled by the relaxation
/// factor.
pub open spec fn delta_of(
    pred: Seq<Vec3Fx>,
    contacts: Seq<u32>,
    counts: Seq<u32>,
    lambda: Seq<i128>,
    mn: int,
    i: int,
    relax: int,
    h: int,
) -> (int, int, int) {
    let s = row_disp(pred, contacts, lambda, mn, i, h, counts[i] as int);
    (fx_mul_spec(relax, s.0), fx_mul_spec(relax, s.1), fx_mul_spec(relax, s.2))
}

/// The scalar constants shared by the three constraint dispatches.
#[derive(Clone, Copy, Debug, PartialEq, Eq, Structural)]
pub struct PbdDensityConstraintConstants {
    pub aabb: Aabb,
    pub particle_count: u32,
    pub rest_density: i64,
    pub smoothing_radius: i64,
    pub smoothing_radius_sq: i64,
    pub spiky_kernel_factor: i64,
    pub spiky_grad_kernel_factor: i64,
    pub constraint_epsilon: i64,
    pub relaxation_factor: i64,
    pub grid_size: i64,
    pub max_neighbors: u32,
}

impl PbdDensityConstraintConstants {
    /// Packs the dispatch constants, deriving the squared radius and
    /// both kernel factors.
    pub fn new(
        particle_count: u32,
        rest_density: i64,
        smoothing_radius: i64,
        constraint_epsilon: i64,
        relaxation_factor: i64,
        grid_size: i64,
        aabb: Aabb,
    ) -> (c: PbdDensityConstraintConstants)
        requires
            h_in_range(smoothing_radius as int),
        ensures
            c.aabb == aabb,
            c.particle_count == particle_count,
            c.rest_density == rest_density,
            c.smoothing_radius == smoothing_radius,
            c.constraint_epsilon == constraint_epsilon,
            c.relaxation_factor == relaxation_factor,
            c.grid_size == grid_size,
            c.spiky_kernel_factor as int == crate::kernel::spiky_factor_of(
                smoothing_radius as int,
            ),
            c.spiky_grad_kernel_factor as int == -spiky_grad_factor_of(smoothing_radius as int),
            c.smoothing_radius_sq as int == crate::kernel::h2_of(smoothing_radius as int),
            c.max_neighbors == 96,
    {
        let factor = spiky_factor(smoothing_radius);
        let grad_mag = spiky_grad_magnitude(smoothing_radius);
        proof {
            lemma_fx_mul_bound(smoothing_radius as int, smoothing_radius as int, 10_000_000, 10_000_000);
        }
        let smoothing_radius_sq = crate::fixed::fx_mul(smoothing_radius, smoothing_radius);
        PbdDensityConstraintConstants {
            aabb,
            particle_count,
            rest_density,
            smoothing_radius,
            smoothing_radius_sq,
            spiky_kernel_factor: factor,
            spiky_grad_kernel_factor: -grad_mag,
            constraint_epsilon,
            relaxation_factor,
            grid_size,
            max_neighbors: 96,
        }
    }
}

/// Computes the Spiky gradient magnitude factor `45 / (pi h^6)`.
pub fn spiky_grad_magnitude(h: i64) -> (f: i64)
    requires
        h_in_range(h as int),
    ensures
        f as int == spiky_grad_factor_of(h as int),
        0 <= f <= 15_000_000_000_000,
{
    proof {
        lemma_kernel_ranges(h as int);
        lemma_fx_mul_bound(h as int, h as int, 10_000_000, 10_000_000);
    }
    let h2 = crate::fixed::fx_mul(h, h);
    let h3 = crate::fixed::fx_mul(h2, h);
    let h6 = crate::fixed::fx_mul(h3, h3);
    let pih6 = crate::fixed::fx_mul(PI_FX, h6);
    crate::fixed::fx_div(45_000_000, pih6)
}

/// One unit-direction component toward the particle stays bounded.
proof fn lemma_dir_bound(dxc: int, d2: int, r: int)
    requires
        d2 >= 0,
        r == sqrt_floor(d2 * 1_000_000),
        dxc * dxc <= d2 * 1_000_000 + 999_999,
        r >= 1000,
    ensures
        fx_abs(trunc_ratio(dxc * 1_000_000, r)) <= 2_100_000,
{
    crate::kernel::lemma_sqrt_floor(d2 * 1_000_000);
    assert((r + 1) * (r + 1) > d2 * 1_000_000);
    assert(dxc * dxc < (r + 1001) * (r + 1001)) by (nonlinear_arith)
        requires
            dxc * dxc <= d2 * 1_000_000 + 999_999 && (r + 1) * (r + 1) > d2 * 1_000_000 && r
                >= 0,
    ;
    assert(fx_abs(dxc) <= r + 1000) by (nonlinear_arith)
        requires
            dxc * dxc < (r + 1001) * (r + 1001) && r + 1001 > 0,
    ;
    crate::fixed::lemma_abs_mul(dxc, 1_000_000);
    let q = trunc_ratio(dxc * 1_000_000, r);
    assert(fx_abs(q) == fx_abs(dxc) * 1_000_000 / r) by {
        crate::fixed::lemma_trunc_ratio_magnitude(dxc * 1_000_000, r);
        assert(fx_abs(dxc * 1_000_000) == fx_abs(dxc) * 1_000_000);
    }
    assert(fx_abs(dxc) * 1_000_000 / r <= 2_100_000) by (nonlinear_arith)
        requires
            0 <= fx_abs(dxc) <= r + 1000 && r >= 1000,
    ;
}

/// Computes the gradient data of one contact pair.
///
/// Returns the gradient magnitude and the three components of the
/// gradient vector.
pub fn pair_gradient(pred: &Vec<Vec3Fx>, i: usize, c: usize, h: i64, grad_mag: i64) -> (r: (
    i64,
    i128,
    i128,
    i128,
))
    requires
        i < pred@.len(),
        c < pred@.len(),
        h_in_range(h as int),
        grad_mag as int == spiky_grad_factor_of(h as int),
        pred@[i as int].bounded(POS_LIMIT as int),
        pred@[c as int].bounded(POS_LIMIT as int),
    ensures
        r.0 as int == pair_grad_scalar(pred@, i as int, c as int, h as int),
        (r.1 as int, r.2 as int, r.3 as int) == pair_grad_vec(pred@, i as int, c as int, h as int),
        0 <= r.0 <= 400_000_000_000,
        fx_abs(r.1 as int) <= 1_000_000_000_000,
        fx_abs(r.2 as int) <= 1_000_000_000_000,
        fx_abs(r.3 as int) <= 1_000_000_000_000,
{
    let a = pred[i];
    let b = pred[c];
    let dist: i64 = pair_distance(a, b);
    if dist >= h || dist < 1000 {
        (0, 0, 0, 0)
    } else {
        let reach: i64 = h - dist;
        proof {
            lemma_kernel_ranges(h as int);
            lemma_grad_value_bound(h as int, reach as int);
            lemma_fx_mul_bound(reach as int, reach as int, 10_000_000, 10_000_000);
            lemma_fx_mul_bound(
                grad_mag as int,
                fx_mul_spec(reach as int, reach as int),
                15_000_000_000_000,
                100_000_000,
            );
        }
        let rr = crate::fixed::fx_mul(reach, reach);
        let gs = crate::fixed::fx_mul(grad_mag, rr);
        proof {
            assert(gs as int == pair_grad_scalar(pred@, i as int, c as int, h as int));
            assert(0 <= gs as int <= 400_000_000_000) by {
                lemma_grad_value_bound(h as int, reach as int);
            }
            let d2 = dist2_spec(a, b);
            let dxi = a.x as int - b.x as int;
            let dyi = a.y as int - b.y as int;
            let dzi = a.z as int - b.z as int;
            assert(dxi * dxi >= 0 && dyi * dyi >= 0 && dzi * dzi >= 0) by (nonlinear_arith);
            assert(d2 >= 0) by (nonlinear_arith)
                requires
                    d2 == (dxi * dxi + dyi * dyi + dzi * dzi) / 1_000_000 && dxi * dxi + dyi * dyi
                        + dzi * dzi >= 0,
            ;
            assert(dxi * dxi <= d2 * 1_000_000 + 999_999 && dyi * dyi <= d2 * 1_000_000 + 999_999
                && dzi * dzi <= d2 * 1_000_000 + 999_999) by (nonlinear_arith)
                requires
                    d2 == (dxi * dxi + dyi * dyi + dzi * dzi) / 1_000_000 && dxi * dxi >= 0 && dyi
                        * dyi >= 0 && dzi * dzi >= 0,
            ;
            lemma_dir_bound(dxi, d2, dist as int);
            lemma_dir_bound(dyi, d2, dist as int);
            lemma_dir_bound(dzi, d2, dist as int);
        }
        let dx: i128 = a.x as i128 - b.x as i128;
        let dy: i128 = a.y as i128 - b.y as i128;
        let dz: i128 = a.z as i128 - b.z as i128;
        let ux: i128 = fx_div_wide(dx, dist as i128);
        let uy: i128 = fx_div_wide(dy, dist as i128);
        let uz: i128 = fx_div_wide(dz, dist as i128);
        proof {
            assert(fx_abs(ux as int) <= 2_100_000 && fx_abs(uy as int) <= 2_100_000 && fx_abs(
                uz as int,
            ) <= 2_100_000);
            lemma_fx_mul_bound(-(gs as int), ux as int, 400_000_000_000, 2_100_000);
            lemma_fx_mul_bound(-(gs as int), uy as int, 400_000_000_000, 2_100_000);
            lemma_fx_mul_bound(-(gs as int), uz as int, 400_000_000_000, 2_100_000);
            assert(400_000_000_000int * 2_100_000 == 840_000_000_000_000_000);
        }
        let gx: i128 = fx_mul_wide(-(gs as i128), ux);
        let gy: i128 = fx_mul_wide(-(gs as i128), uy);
        let gz: i128 = fx_mul_wide(-(gs as i128), uz);
        (gs, gx, gy, gz)
    }
}

/// The lambda dispatch: one Lagrange multiplier per live particle.
pub fn lambda_pass(particles: &mut Particles, constants: PbdDensityConstraintConstants)
    requires
        old(particles).wf(),
        constants.particle_count == old(particles).count,
        h_in_range(constants.smoothing_radius as int),
        1_000_000 <= constants.rest_density <= 1_000_000_000_000,
        1 <= constants.constraint_epsilon <= 1_000_000_000_000,
        constants.spiky_grad_kernel_factor as int == -spiky_grad_factor_of(
            constants.smoothing_radius as int,
        ),
        forall|i: int|
            0 <= i < old(particles).count as int ==> (#[trigger] old(particles).predicted_position@[i]).bounded(POS_LIMIT as int),
        forall|i: int|
            0 <= i < old(particles).count as int ==> 0 <= #[trigger] old(particles).density@[i]
                <= DENSITY_LIMIT,
        forall|i: int|
            0 <= i < old(particles).count as int ==> #[trigger] old(particles).contact_counts@[i]
                <= old(particles).max_neighbors,
        forall|i: int, t: int|
            0 <= i < old(particles).count as int && 0 <= t < old(particles).contact_counts@[i] as int ==> #[trigger] old(particles).contacts@[i * old(particles).max_neighbors as int + t] < old(particles).count,
    ensures
        final(particles).wf(),
        *final(particles) == (Particles { lambda: final(particles).lambda, ..*old(particles) }),
        forall|i: int|
            0 <= i < old(particles).count as int ==> #[trigger] final(particles).lambda@[i] as int
                == lambda_of(
                old(particles).predicted_position@,
                old(particles).contacts@,
                old(particles).contact_counts@,
                old(particles).density@,
                old(particles).max_neighbors as int,
                i,
                constants.rest_density as int,
                constants.constraint_epsilon as int,
                constants.smoothing_radius as int,
            ),
        forall|i: int|
            0 <= i < old(particles).count as int ==> fx_abs(
                #[trigger] final(particles).lambda@[i] as int,
            ) <= LAMBDA_LIMIT as int,
        forall|i: int|
            old(particles).count as int <= i < old(particles).capacity as int ==> #[trigger] final(particles).lambda@[i] == old(particles).lambda@[i],
{
    let ghost pred0 = particles.predicted_position@;
    let ghost contacts0 = particles.contacts@;
    let ghost counts0 = particles.contact_counts@;
    let ghost dens0 = particles.density@;
    let ghost hg = constants.smoothing_radius as int;
    let ghost restg = constants.rest_density as int;
    let ghost epsg = constants.constraint_epsilon as int;
    let n: usize = particles.count as usize;
    let mn: usize = particles.max_neighbors as usize;
    let h: i64 = constants.smoothing_radius;
    proof {
        lemma_kernel_ranges(constants.smoothing_radius as int);
    }
    let grad_mag: i64 = -constants.spiky_grad_kernel_factor;
    let mut i: usize = 0;
    while i < n
        invariant
            i <= n,
            n == particles.count as usize,
            mn == particles.max_neighbors as usize,
            particles.wf(),
            h == constants.smoothing_radius,
            hg == h as int,
            h_in_range(hg),
            restg == constants.rest_density as int,
            1_000_000 <= restg <= 1_000_000_000_000,
            epsg == constants.constraint_epsilon as int,
            1 <= epsg <= 1_000_000_000_000,
            grad_mag as int == spiky_grad_factor_of(hg),
            pred0 == particles.predicted_position@,
            contacts0 == particles.contacts@,
            counts0 == particles.contact_counts@,
            dens0 == particles.density@,
            forall|j: int| 0 <= j < n ==> (#[trigger] pred0[j]).bounded(POS_LIMIT as int),
            forall|j: int| 0 <= j < n ==> 0 <= #[trigger] dens0[j] <= DENSITY_LIMIT,
            forall|j: int| 0 <= j < n ==> #[trigger] counts0[j] <= particles.max_neighbors,
            forall|j: int, t: int|
                0 <= j < n && 0 <= t < counts0[j] as int ==> #[trigger] contacts0[j * mn as int
                    + t] < particles.count,
            *particles == (Particles { lambda: particles.lambda, ..*old(particles) }),
            forall|j: int|
                0 <= j < i ==> #[trigger] particles.lambda@[j] as int == lambda_of(
                    pred0,
                    contacts0,
                    counts0,
                    dens0,
                    mn as int,
                    j,
                    restg,
                    epsg,
                    hg,
                ),
            forall|j: int|
                0 <= j < i ==> fx_abs(#[trigger] particles.lambda@[j] as int)
                    <= LAMBDA_LIMIT as int,
            forall|j: int|
                i <= j < particles.capacity as int ==> #[trigger] particles.lambda@[j] == old(particles).lambda@[j],
        decreases n - i,
    {
        let cnt: u32 = particles.contact_counts[i];
        let clen: usize = particles.contacts.len();
        proof {
            assert(i as int * mn as int + mn as int <= particles.capacity as int
                * particles.max_neighbors as int) by (nonlinear_arith)
                requires
                    0 <= i as int && i as int + 1 <= particles.capacity as int && mn as int
                        == particles.max_neighbors as int && mn as int >= 0,
            ;
            assert(particles.capacity as int * particles.max_neighbors as int == clen as int);
            assert(i as int * mn as int + mn as int <= usize::MAX as int);
        }
        let base: usize = i * mn;
        let mut sx: i128 = 0;
        let mut sy: i128 = 0;
        let mut sz: i128 = 0;
        let mut ssq: i128 = 0;
        let mut t: usize = 0;
        while t < cnt as usize
            invariant
                t <= cnt as usize,
                cnt == counts0[i as int],
                cnt as usize <= mn,
                mn <= 256,
                base == i * mn,
                base as int + mn as int <= usize::MAX as int,
                base + mn <= particles.contacts@.len(),
                i < n,
                n == particles.count as usize,
                mn == particles.max_neighbors as usize,
                particles.wf(),
                h_in_range(hg),
                hg == h as int,
                grad_mag as int == spiky_grad_factor_of(hg),
                pred0 == particles.predicted_position@,
                contacts0 == particles.contacts@,
                counts0 == particles.contact_counts@,
                forall|j: int| 0 <= j < n ==> (#[trigger] pred0[j]).bounded(POS_LIMIT as int),
                forall|j: int, u: int|
                    0 <= j < n && 0 <= u < counts0[j] as int ==> #[trigger] contacts0[j * mn as int
                        + u] < particles.count,
                (sx as int, sy as int, sz as int, ssq as int) == row_grad(
                    pred0,
                    contacts0,
                    mn as int,
                    i as int,
                    hg,
                    t as int,
                ),
                fx_abs(sx as int) <= t as int * 1_000_000_000_000,
                fx_abs(sy as int) <= t as int * 1_000_000_000_000,
                fx_abs(sz as int) <= t as int * 1_000_000_000_000,
                0 <= ssq as int <= t as int * 160_000_000_000_000_000,
            decreases cnt as usize - t,
        {
            let c: u32 = particles.contacts[base + t];
            proof {
                assert(contacts0[i as int * mn as int + t as int] < particles.count);
            }
            let g = pair_gradient(
                &particles.predicted_position,
                i,
                c as usize,
                h,
                grad_mag,
            );
            proof {
                lemma_fx_mul_bound(g.0 as int, g.0 as int, 400_000_000_000, 400_000_000_000);
                assert(t as int * 1_000_000_000_000 + 1_000_000_000_000 <= 257
                    * 1_000_000_000_000) by (nonlinear_arith)
                    requires
                        0 <= t as int <= 256,
                ;
                assert(t as int * 160_000_000_000_000_000 + 160_000_000_000_000_000 <= 257
                    * 160_000_000_000_000_000) by (nonlinear_arith)
                    requires
                        0 <= t as int <= 256,
                ;
                assert(fx_mul_spec(g.0 as int, g.0 as int) >= 0) by (nonlinear_arith)
                    requires
                        g.0 as int >= 0 && fx_mul_spec(g.0 as int, g.0 as int) == g.0 as int
                            * g.0 as int / 1_000_000,
                ;
            }
            let gsq: i128 = fx_mul_wide(g.0 as i128, g.0 as i128);
            sx = sx + g.1;
            sy = sy + g.2;
            sz = sz + g.3;
            ssq = ssq + gsq;
            t += 1;
        }
        let dens: i64 = particles.density[i];
        proof {
            assert(fx_abs(sx as int) <= 256_000_000_000_000) by (nonlinear_arith)
                requires
                    fx_abs(sx as int) <= cnt as int * 1_000_000_000_000 && cnt as int <= 256,
            ;
            assert(fx_abs(sy as int) <= 256_000_000_000_000) by (nonlinear_arith)
                requires
                    fx_abs(sy as int) <= cnt as int * 1_000_000_000_000 && cnt as int <= 256,
            ;
            assert(fx_abs(sz as int) <= 256_000_000_000_000) by (nonlinear_arith)
                requires
                    fx_abs(sz as int) <= cnt as int * 1_000_000_000_000 && cnt as int <= 256,
            ;
            assert(0 <= ssq as int <= 256 * 160_000_000_000_000_000) by (nonlinear_arith)
                requires
                    0 <= ssq as int <= cnt as int * 160_000_000_000_000_000 && cnt as int <= 256,
            ;
            lemma_fx_mul_bound(sx as int, sx as int, 256_000_000_000_000, 256_000_000_000_000);
            lemma_fx_mul_bound(sy as int, sy as int, 256_000_000_000_000, 256_000_000_000_000);
            lemma_fx_mul_bound(sz as int, sz as int, 256_000_000_000_000, 256_000_000_000_000);
            assert(sx as int * sx as int >= 0 && sy as int * sy as int >= 0 && sz as int
                * sz as int >= 0) by (nonlinear_arith);
            crate::fixed::lemma_trunc_div_sign(sx as int * sx as int);
            crate::fixed::lemma_trunc_div_sign(sy as int * sy as int);
            crate::fixed::lemma_trunc_div_sign(sz as int * sz as int);
        }
        let gx2: i128 = fx_mul_wide(sx, sx);
        let gy2: i128 = fx_mul_wide(sy, sy);
        let gz2: i128 = fx_mul_wide(sz, sz);
        let denom: i128 = gx2 + gy2 + gz2 + ssq + constants.constraint_epsilon as i128;
        let c_err: i128 = {
            proof {
                lemma_fx_div_bound(dens as int, restg);
            }
            (crate::fixed::fx_div(dens, constants.rest_density) - 1_000_000) as i128
        };
        proof {
            assert(denom >= 1);
            lemma_fx_div_bound(c_err as int, denom as int);
            assert(fx_abs(c_err as int) <= DENSITY_LIMIT as int + 1_000_000);
            assert(fx_abs(c_err as int) * 1_000_000 <= LAMBDA_LIMIT as int) by (nonlinear_arith)
                requires
                    fx_abs(c_err as int) <= 3_000_000_001_000_000i128 as int,
            ;
        }
        let lam: i128 = -fx_div_wide(c_err, denom);
        particles.lambda[i] = lam;
        i += 1;
    }
}

/// The displacement dispatch: one positional correction per particle
/// from the multipliers of its contact pairs.
pub fn displacement_pass(particles: &mut Particles, constants: PbdDensityConstraintConstants)
    requires
        old(particles).wf(),
        constants.particle_count == old(particles).count,
        h_in_range(constants.smoothing_radius as int),
        0 <= constants.relaxation_factor <= 2_000_000,
        constants.spiky_grad_kernel_factor as int == -spiky_grad_factor_of(
            constants.smoothing_radius as int,
        ),
        forall|i: int|
            0 <= i < old(particles).count as int ==> (#[trigger] old(particles).predicted_position@[i]).bounded(POS_LIMIT as int),
        forall|i: int|
            0 <= i < old(particles).count as int ==> fx_abs(
                #[trigger] old(particles).lambda@[i] as int,
            ) <= LAMBDA_LIMIT as int,
        forall|i: int|
            0 <= i < old(particles).count as int ==> #[trigger] old(particles).contact_counts@[i]
                <= old(particles).max_neighbors,
        forall|i: int, t: int|
            0 <= i < old(particles).count as int && 0 <= t < old(particles).contact_counts@[i] as int ==> #[trigger] old(particles).contacts@[i * old(particles).max_neighbors as int + t] < old(particles).count,
    ensures
        final(particles).wf(),
        *final(particles) == (Particles {
            delta_position: final(particles).delta_position,
            ..*old(particles)
        }),
        forall|i: int|
            0 <= i < old(particles).count as int ==> ({
                let d = delta_of(
                    old(particles).predicted_position@,
                    old(particles).contacts@,
                    old(particles).contact_counts@,
                    old(particles).lambda@,
                    old(particles).max_neighbors as int,
                    i,
                    constants.relaxation_factor as int,
                    constants.smoothing_radius as int,
                );
                #[trigger] final(particles).delta_position@[i] == (Vec3Wide {
                    x: d.0 as i128,
                    y: d.1 as i128,
                    z: d.2 as i128,
                })
            }),
        forall|i: int|
            0 <= i < old(particles).count as int ==> fx_abs(
                #[trigger] final(particles).delta_position@[i].x as int,
            ) <= DELTA_LIMIT as int && fx_abs(final(particles).delta_position@[i].y as int)
                <= DELTA_LIMIT as int && fx_abs(final(particles).delta_position@[i].z as int)
                <= DELTA_LIMIT as int,
        forall|i: int|
            old(particles).count as int <= i < old(particles).capacity as int ==> #[trigger] final(particles).delta_position@[i] == old(particles).delta_position@[i],
{
    let ghost pred0 = particles.predicted_position@;
    let ghost contacts0 = particles.contacts@;
    let ghost counts0 = particles.contact_counts@;
    let ghost lambda0 = particles.lambda@;
    let ghost hg = constants.smoothing_radius as int;
    let ghost relaxg = constants.relaxation_factor as int;
    let n: usize = particles.count as usize;
    let mn: usize = particles.max_neighbors as usize;
    let h: i64 = constants.smoothing_radius;
    proof {
        lemma_kernel_ranges(constants.smoothing_radius as int);
    }
    let grad_mag: i64 = -constants.spiky_grad_kernel_factor;
    let mut i: usize = 0;
    while i < n
        invariant
            i <= n,
            n == particles.count as usize,
            mn == particles.max_neighbors as usize,
            particles.wf(),
            hg == h as int,
            h_in_range(hg),
            relaxg == constants.relaxation_factor as int,
            0 <= relaxg <= 2_000_000,
            grad_mag as int == spiky_grad_factor_of(hg),
            pred0 == particles.predicted_position@,
            contacts0 == particles.contacts@,
            counts0 == particles.contact_counts@,
            lambda0 == particles.lambda@,
            forall|j: int| 0 <= j < n ==> (#[trigger] pred0[j]).bounded(POS_LIMIT as int),
            forall|j: int|
                0 <= j < n ==> fx_abs(#[trigger] lambda0[j] as int) <= LAMBDA_LIMIT as int,
            forall|j: int| 0 <= j < n ==> #[trigger] counts0[j] <= particles.max_neighbors,
            forall|j: int, t: int|
                0 <= j < n && 0 <= t < counts0[j] as int ==> #[trigger] contacts0[j * mn as int
                    + t] < particles.count,
            *particles == (Particles {
                delta_position: particles.delta_position,
                ..*old(particles)
            }),
            forall|j: int|
                0 <= j < i ==> ({
                    let d = delta_of(
                        pred0,
                        contacts0,
                        counts0,
                        lambda0,
                        mn as int,
                        j,
                        relaxg,
                        hg,
                    );
                    #[trigger] particles.delta_position@[j] == (Vec3Wide {
                        x: d.0 as i128,
                        y: d.1 as i128,
                        z: d.2 as i128,
                    })
                }),
            forall|j: int|
                0 <= j < i ==> fx_abs(#[trigger] particles.delta_position@[j].x as int)
                    <= DELTA_LIMIT as int && fx_abs(particles.delta_position@[j].y as int)
                    <= DELTA_LIMIT as int && fx_abs(particles.delta_position@[j].z as int)
                    <= DELTA_LIMIT as int,
            forall|j: int|
                i <= j < particles.capacity as int ==> #[trigger] particles.delta_position@[j]
                    == old(particles).delta_position@[j],
        decreases n - i,
    {
        let cnt: u32 = particles.contact_counts[i];
        let clen: usize = particles.contacts.len();
        proof {
            assert(i as int * mn as int + mn as int <= particles.capacity as int
                * particles.max_neighbors as int) by (nonlinear_arith)
                requires
                    0 <= i as int && i as int + 1 <= particles.capacity as int && mn as int
                        == particles.max_neighbors as int && mn as int >= 0,
            ;
            assert(particles.capacity as int * particles.max_neighbors as int == clen as int);
            assert(i as int * mn as int + mn as int <= usize::MAX as int);
        }
        let base: usize = i * mn;
        let li: i128 = particles.lambda[i];
        let mut sx: i128 = 0;
        let mut sy: i128 = 0;
        let mut sz: i128 = 0;
        let mut t: usize = 0;
        while t < cnt as usize
            invariant
                t <= cnt as usize,
                cnt == counts0[i as int],
                cnt as usize <= mn,
                mn <= 256,
                base == i * mn,
                base as int + mn as int <= usize::MAX as int,
                base + mn <= particles.contacts@.len(),
                i < n,
                n == particles.count as usize,
                mn == particles.max_neighbors as usize,
                particles.wf(),
                h_in_range(hg),
                hg == h as int,
                grad_mag as int == spiky_grad_factor_of(hg),
                li == lambda0[i as int],
                pred0 == particles.predicted_position@,
                contacts0 == particles.contacts@,
                counts0 == particles.contact_counts@,
                lambda0 == particles.lambda@,
                forall|j: int| 0 <= j < n ==> (#[trigger] pred0[j]).bounded(POS_LIMIT as int),
                forall|j: int|
                    0 <= j < n ==> fx_abs(#[trigger] lambda0[j] as int) <= LAMBDA_LIMIT as int,
                forall|j: int, u: int|
                    0 <= j < n && 0 <= u < counts0[j] as int ==> #[trigger] contacts0[j * mn as int
                        + u] < particles.count,
                (sx as int, sy as int, sz as int) == row_disp(
                    pred0,
                    contacts0,
                    lambda0,
                    mn as int,
                    i as int,
                    hg,
                    t as int,
                ),
                fx_abs(sx as int) <= t as int * 7_000_000_000_000_000_000_000_000_000i128 as int,
                fx_abs(sy as int) <= t as int * 7_000_000_000_000_000_000_000_000_000i128 as int,
                fx_abs(sz as int) <= t as int * 7_000_000_000_000_000_000_000_000_000i128 as int,
            decreases cnt as usize - t,
        {
            let c: u32 = particles.contacts[base + t];
            proof {
                assert(contacts0[i as int * mn as int + t as int] < particles.count);
            }
            let g = pair_gradient(
                &particles.predicted_position,
                i,
                c as usize,
                h,
                grad_mag,
            );
            let lc: i128 = particles.lambda[c as usize];
            let l: i128 = li + lc;
            proof {
                assert(fx_abs(l as int) <= 6_400_000_000_000_000_000_000i128 as int);
                lemma_fx_mul_bound(
                    l as int,
                    g.1 as int,
                    6_400_000_000_000_000_000_000i128 as int,
                    1_000_000_000_000,
                );
                lemma_fx_mul_bound(
                    l as int,
                    g.2 as int,
                    6_400_000_000_000_000_000_000i128 as int,
                    1_000_000_000_000,
                );
                lemma_fx_mul_bound(
                    l as int,
                    g.3 as int,
                    6_400_000_000_000_000_000_000i128 as int,
                    1_000_000_000_000,
                );
                assert(t as int * 7_000_000_000_000_000_000_000_000_000i128 as int
                    + 7_000_000_000_000_000_000_000_000_000i128 as int <= 257
                    * 7_000_000_000_000_000_000_000_000_000i128 as int) by (nonlinear_arith)
                    requires
                        0 <= t as int <= 256,
                ;
            }
            let tx: i128 = fx_mul_wide(l, g.1);
            let ty: i128 = fx_mul_wide(l, g.2);
            let tz: i128 = fx_mul_wide(l, g.3);
            sx = sx + tx;
            sy = sy + ty;
            sz = sz + tz;
            t += 1;
        }
        proof {
            assert(fx_abs(sx as int) <= 256 * 7_000_000_000_000_000_000_000_000_000i128 as int
                && fx_abs(sy as int) <= 256 * 7_000_000_000_000_000_000_000_000_000i128 as int
                && fx_abs(sz as int) <= 256 * 7_000_000_000_000_000_000_000_000_000i128 as int)
                by (nonlinear_arith)
                requires
                    fx_abs(sx as int) <= cnt as int * 7_000_000_000_000_000_000_000_000_000i128 as int
                        && fx_abs(sy as int) <= cnt as int
                        * 7_000_000_000_000_000_000_000_000_000i128 as int && fx_abs(sz as int)
                        <= cnt as int * 7_000_000_000_000_000_000_000_000_000i128 as int
                        && cnt as int <= 256,
            ;
            lemma_fx_mul_bound(
                relaxg,
                sx as int,
                2_000_000,
                1_792_000_000_000_000_000_000_000_000_000i128 as int,
            );
            lemma_fx_mul_bound(
                relaxg,
                sy as int,
                2_000_000,
                1_792_000_000_000_000_000_000_000_000_000i128 as int,
            );
            lemma_fx_mul_bound(
                relaxg,
                sz as int,
                2_000_000,
                1_792_000_000_000_000_000_000_000_000_000i128 as int,
            );
        }
        let dx: i128 = fx_mul_wide(constants.relaxation_factor as i128, sx);
        let dy: i128 = fx_mul_wide(constants.relaxation_factor as i128, sy);
        let dz: i128 = fx_mul_wide(constants.relaxation_factor as i128, sz);
        particles.delta_position[i] = Vec3Wide { x: dx, y: dy, z: dz };
        i += 1;
    }
}

/// The apply dispatch: adds each correction to the predicted position
/// and clamps the result into the simulation volume.
pub fn apply_displacement_pass(particles: &mut Particles, constants: PbdDensityConstraintConstants)
    requires
        old(particles).wf(),
        constants.particle_count == old(particles).count,
        constants.aabb.wf(),
        forall|i: int|
            0 <= i < old(particles).count as int ==> fx_abs(
                #[trigger] old(particles).delta_position@[i].x as int,
            ) <= DELTA_LIMIT as int && fx_abs(old(particles).delta_position@[i].y as int)
                <= DELTA_LIMIT as int && fx_abs(old(particles).delta_position@[i].z as int)
                <= DELTA_LIMIT as int,
    ensures
        final(particles).wf(),
        *final(particles) == (Particles {
            predicted_position: final(particles).predicted_position,
            ..*old(particles)
        }),
        forall|i: int|
            0 <= i < old(particles).count as int ==> #[trigger] final(particles).predicted_position@[i] == (Vec3Fx {
                x: fx_clamp_spec(
                    old(particles).predicted_position@[i].x as int + old(particles).delta_position@[i].x as int,
                    constants.aabb.min.x as int,
                    constants.aabb.max.x as int,
                ) as i64,
                y: fx_clamp_spec(
                    old(particles).predicted_position@[i].y as int + old(particles).delta_position@[i].y as int,
                    constants.aabb.min.y as int,
                    constants.aabb.max.y as int,
                ) as i64,
                z: fx_clamp_spec(
                    old(particles).predicted_position@[i].z as int + old(particles).delta_position@[i].z as int,
                    constants.aabb.min.z as int,
                    constants.aabb.max.z as int,
                ) as i64,
            }),
        forall|i: int|
            0 <= i < old(particles).count as int ==> (#[trigger] final(particles).predicted_position@[i]).bounded(POS_LIMIT as int),
        forall|i: int|
            old(particles).count as int <= i < old(particles).capacity as int ==> final(particles).predicted_position@[i] == old(particles).predicted_position@[i],
{
    let n: usize = particles.count as usize;
    let mut i: usize = 0;
    while i < n
        invariant
            i <= n,
            n == particles.count as usize,
            particles.wf(),
            constants.aabb.wf(),
            *particles == (Particles {
                predicted_position: particles.predicted_position,
                ..*old(particles)
            }),
            forall|j: int|
                0 <= j < n ==> fx_abs(#[trigger] old(particles).delta_position@[j].x as int)
                    <= DELTA_LIMIT as int && fx_abs(old(particles).delta_position@[j].y as int)
                    <= DELTA_LIMIT as int && fx_abs(old(particles).delta_position@[j].z as int)
                    <= DELTA_LIMIT as int,
            forall|j: int|
                i <= j < particles.capacity as int ==> #[trigger] particles.predicted_position@[j]
                    == old(particles).predicted_position@[j],
            forall|j: int|
                0 <= j < i ==> #[trigger] particles.predicted_position@[j] == (Vec3Fx {
                    x: fx_clamp_spec(
                        old(particles).predicted_position@[j].x as int + old(particles).delta_position@[j].x as int,
                        constants.aabb.min.x as int,
                        constants.aabb.max.x as int,
                    ) as i64,
                    y: fx_clamp_spec(
                        old(particles).predicted_position@[j].y as int + old(particles).delta_position@[j].y as int,
                        constants.aabb.min.y as int,
                        constants.aabb.max.y as int,
                    ) as i64,
                    z: fx_clamp_spec(
                        old(particles).predicted_position@[j].z as int + old(particles).delta_position@[j].z as int,
                        constants.aabb.min.z as int,
                        constants.aabb.max.z as int,
                    ) as i64,
                }),
            forall|j: int|
                0 <= j < i ==> (#[trigger] particles.predicted_position@[j]).bounded(
                    POS_LIMIT as int,
                ),
        decreases n - i,
    {
        let p = particles.predicted_position[i];
        let d = particles.delta_position[i];
        let np = Vec3Fx {
            x: clamp_wide(p.x, d.x, constants.aabb.min.x, constants.aabb.max.x),
            y: clamp_wide(p.y, d.y, constants.aabb.min.y, constants.aabb.max.y),
            z: clamp_wide(p.z, d.z, constants.aabb.min.z, constants.aabb.max.z),
        };
        particles.predicted_position[i] = np;
        i += 1;
    }
}

/// Adds a wide correction to a coordinate and clamps into `[lo, hi]`.
fn clamp_wide(p: i64, d: i128, lo: i64, hi: i64) -> (r: i64)
    requires
        lo <= hi,
        fx_abs(d as int) <= DELTA_LIMIT as int,
    ensures
        r as int == fx_clamp_spec(p as int + d as int, lo as int, hi as int),
        lo <= r <= hi,
{
    let s: i128 = p as i128 + d;
    if s < lo as i128 {
        lo
    } else if s > hi as i128 {
        hi
    } else {
        s as i64
    }
}

/// The lambda column after one multiplier dispatch: every live slot is
/// set from the constraint formula, the rest stay as they were.
pub open spec fn lambda_pass_spec(
    pred: Seq<Vec3Fx>,
    contacts: Seq<u32>,
    counts: Seq<u32>,
    density: Seq<i64>,
    lambda0: Seq<i128>,
    mn: int,
    count: int,
    rest: int,
    eps: int,
    h: int,
) -> Seq<i128> {
    Seq::new(
        lambda0.len(),
        |i: int|
            if 0 <= i < count {
                lambda_of(pred, contacts, counts, density, mn, i, rest, eps, h) as i128
            } else {
                lambda0[i]
            },
    )
}

/// The correction column after one displacement dispatch.
pub open spec fn delta_pass_spec(
    pred: Seq<Vec3Fx>,
    contacts: Seq<u32>,
    counts: Seq<u32>,
    lambda: Seq<i128>,
    delta0: Seq<Vec3Wide>,
    mn: int,
    count: int,
    relax: int,
    h: int,
) -> Seq<Vec3Wide> {
    Seq::new(
        delta0.len(),
        |i: int|
            if 0 <= i < count {
                let d = delta_of(pred, contacts, counts, lambda, mn, i, relax, h);
                Vec3Wide { x: d.0 as i128, y: d.1 as i128, z: d.2 as i128 }
            } else {
                delta0[i]
            },
    )
}

/// The predicted positions after one apply dispatch.
pub open spec fn apply_pass_spec(
    pred0: Seq<Vec3Fx>,
    delta: Seq<Vec3Wide>,
    count: int,
    aabb: Aabb,
) -> Seq<Vec3Fx> {
    Seq::new(
        pred0.len(),
        |i: int|
            if 0 <= i < count {
                Vec3Fx {
                    x: fx_clamp_spec(
                        pred0[i].x as int + delta[i].x as int,
                        aabb.min.x as int,
                        aabb.max.x as int,
                    ) as i64,
                    y: fx_clamp_spec(
                        pred0[i].y as int + delta[i].y as int,
                        aabb.min.y as int,
                        aabb.max.y as int,
                    ) as i64,
                    z: fx_clamp_spec(
                        pred0[i].z as int + delta[i].z as int,
                        aabb.min.z as int,
                        aabb.max.z as int,
                    ) as i64,
                }
            } else {
                pred0[i]
            },
    )
}

/// One full constraint iteration on the solver state: new multipliers
/// from the current predicted positions, new corrections from those
/// multipliers, and the corrected, clamped predicted positions.
pub open spec fn pbd_iteration_spec(
    pred: Seq<Vec3Fx>,
    lambda0: Seq<i128>,
    delta0: Seq<Vec3Wide>,
    contacts: Seq<u32>,
    counts: Seq<u32>,
    density: Seq<i64>,
    mn: int,
    count: int,
    c: PbdDensityConstraintConstants,
) -> (Seq<Vec3Fx>, Seq<i128>, Seq<Vec3Wide>) {
    let l = lambda_pass_spec(
        pred,
        contacts,
        counts,
        density,
        lambda0,
        mn,
        count,
        c.rest_density as int,
        c.constraint_epsilon as int,
        c.smoothing_radius as int,
    );
    let d = delta_pass_spec(
        pred,
        contacts,
        counts,
        l,
        delta0,
        mn,
        count,
        c.relaxation_factor as int,
        c.smoothing_radius as int,
    );
    let p = apply_pass_spec(pred, d, count, c.aabb);
    (p, l, d)
}

/// `k` constraint iterations folded over the solver state; the density
/// field is deliberately held fixed throughout.
pub open spec fn pbd_solve_spec(
    pred: Seq<Vec3Fx>,
    lambda: Seq<i128>,
    delta: Seq<Vec3Wide>,
    contacts: Seq<u32>,
    counts: Seq<u32>,
    density: Seq<i64>,
    mn: int,
    count: int,
    c: PbdDensityConstraintConstants,
    k: int,
) -> (Seq<Vec3Fx>, Seq<i128>, Seq<Vec3Wide>)
    decreases k,
{
    if k <= 0 {
        (pred, lambda, delta)
    } else {
        let prev = pbd_solve_spec(pred, lambda, delta, contacts, counts, density, mn, count, c, k - 1);
        pbd_iteration_spec(prev.0, prev.1, prev.2, contacts, counts, density, mn, count, c)
    }
}

/// One constraint iteration: multipliers, corrections, application.
pub fn pbd_iteration(particles: &mut Particles, constants: PbdDensityConstraintConstants)
    requires
        old(particles).wf(),
        constants.particle_count == old(particles).count,
        constants.aabb.wf(),
        h_in_range(constants.smoothing_radius as int),
        1_000_000 <= constants.rest_density <= 1_000_000_000_000,
        1 <= constants.constraint_epsilon <= 1_000_000_000_000,
        0 <= constants.relaxation_factor <= 2_000_000,
        constants.spiky_grad_kernel_factor as int == -spiky_grad_factor_of(
            constants.smoothing_radius as int,
        ),
        forall|i: int|
            0 <= i < old(particles).count as int ==> (#[trigger] old(particles).predicted_position@[i]).bounded(POS_LIMIT as int),
        forall|i: int|
            0 <= i < old(particles).count as int ==> 0 <= #[trigger] old(particles).density@[i]
                <= DENSITY_LIMIT,
        forall|i: int|
            0 <= i < old(particles).count as int ==> #[trigger] old(particles).contact_counts@[i]
                <= old(particles).max_neighbors,
        forall|i: int, t: int|
            0 <= i < old(particles).count as int && 0 <= t < old(particles).contact_counts@[i] as int ==> #[trigger] old(particles).contacts@[i * old(particles).max_neighbors as int + t] < old(particles).count,
    ensures
        final(particles).wf(),
        *final(particles) == (Particles {
            predicted_position: final(particles).predicted_position,
            lambda: final(particles).lambda,
            delta_position: final(particles).delta_position,
            ..*old(particles)
        }),
        forall|i: int|
            0 <= i < old(particles).count as int ==> (#[trigger] final(particles).predicted_position@[i]).bounded(POS_LIMIT as int),
        forall|i: int|
            old(particles).count as int <= i < old(particles).capacity as int ==> final(particles).predicted_position@[i] == old(particles).predicted_position@[i],
        ({
            let r = pbd_iteration_spec(
                old(particles).predicted_position@,
                old(particles).lambda@,
                old(particles).delta_position@,
                old(particles).contacts@,
                old(particles).contact_counts@,
                old(particles).density@,
                old(particles).max_neighbors as int,
                old(particles).count as int,
                constants,
            );
            &&& final(particles).predicted_position@ == r.0
            &&& final(particles).lambda@ == r.1
            &&& final(particles).delta_position@ == r.2
        }),
{
    let ghost pred0 = particles.predicted_position@;
    let ghost lambda0 = particles.lambda@;
    let ghost delta0 = particles.delta_position@;
    let ghost contacts0 = particles.contacts@;
    let ghost counts0 = particles.contact_counts@;
    let ghost dens0 = particles.density@;
    let ghost mng = particles.max_neighbors as int;
    let ghost ng = particles.count as int;
    lambda_pass(particles, constants);
    let ghost l1 = particles.lambda@;
    proof {
        assert(l1 =~= lambda_pass_spec(
            pred0,
            contacts0,
            counts0,
            dens0,
            lambda0,
            mng,
            ng,
            constants.rest_density as int,
            constants.constraint_epsilon as int,
            constants.smoothing_radius as int,
        ));
    }
    displacement_pass(particles, constants);
    let ghost d1 = particles.delta_position@;
    proof {
        assert(d1 =~= delta_pass_spec(
            pred0,
            contacts0,
            counts0,
            l1,
            delta0,
            mng,
            ng,
            constants.relaxation_factor as int,
            constants.smoothing_radius as int,
        ));
    }
    apply_displacement_pass(particles, constants);
    proof {
        assert(particles.predicted_position@ =~= apply_pass_spec(pred0, d1, ng, constants.aabb));
    }
}

/// The solver loop: `iterations` constraint passes.
///
/// Zero iterations leave the predicted positions exactly as the
/// prediction step set them: the whole store is untouched.
pub fn pbd_solve(particles: &mut Particles, constants: PbdDensityConstraintConstants, iterations: u32)
    requires
        old(particles).wf(),
        constants.particle_count == old(particles).count,
        constants.aabb.wf(),
        h_in_range(constants.smoothing_radius as int),
        1_000_000 <= constants.rest_density <= 1_000_000_000_000,
        1 <= constants.constraint_epsilon <= 1_000_000_000_000,
        0 <= constants.relaxation_factor <= 2_000_000,
        constants.spiky_grad_kernel_factor as int == -spiky_grad_factor_of(
            constants.smoothing_radius as int,
        ),
        forall|i: int|
            0 <= i < old(particles).count as int ==> (#[trigger] old(particles).predicted_position@[i]).bounded(POS_LIMIT as int),
        forall|i: int|
            0 <= i < old(particles).count as int ==> 0 <= #[trigger] old(particles).density@[i]
                <= DENSITY_LIMIT,
        forall|i: int|
            0 <= i < old(particles).count as int ==> #[trigger] old(particles).contact_counts@[i]
                <= old(particles).max_neighbors,
        forall|i: int, t: int|
            0 <= i < old(particles).count as int && 0 <= t < old(particles).contact_counts@[i] as int ==> #[trigger] old(particles).contacts@[i * old(particles).max_neighbors as int + t] < old(particles).count,
    ensures
        final(particles).wf(),
        *final(particles) == (Particles {
            predicted_position: final(particles).predicted_position,
            lambda: final(particles).lambda,
            delta_position: final(particles).delta_position,
            ..*old(particles)
        }),
        iterations == 0 ==> *final(particles) == *old(particles),
        forall|i: int|
            0 <= i < old(particles).count as int ==> (#[trigger] final(particles).predicted_position@[i]).bounded(POS_LIMIT as int),
        forall|i: int|
            old(particles).count as int <= i < old(particles).capacity as int ==> final(particles).predicted_position@[i] == old(particles).predicted_position@[i],
        ({
            let r = pbd_solve_spec(
                old(particles).predicted_position@,
                old(particles).lambda@,
                old(particles).delta_position@,
                old(particles).contacts@,
                old(particles).contact_counts@,
                old(particles).density@,
                old(particles).max_neighbors as int,
                old(particles).count as int,
                constants,
                iterations as int,
            );
            &&& final(particles).predicted_position@ == r.0
            &&& final(particles).lambda@ == r.1
            &&& final(particles).delta_position@ == r.2
        }),
{
    let mut k: u32 = 0;
    while k < iterations
        invariant
            k <= iterations,
            particles.wf(),
            constants.particle_count == particles.count,
            constants.aabb.wf(),
            h_in_range(constants.smoothing_radius as int),
            1_000_000 <= constants.rest_density <= 1_000_000_000_000,
            1 <= constants.constraint_epsilon <= 1_000_000_000_000,
            0 <= constants.relaxation_factor <= 2_000_000,
            constants.spiky_grad_kernel_factor as int == -spiky_grad_factor_of(
                constants.smoothing_radius as int,
            ),
            *particles == (Particles {
                predicted_position: particles.predicted_position,
                lambda: particles.lambda,
                delta_position: particles.delta_position,
                ..*old(particles)
            }),
            k == 0 ==> *particles == *old(particles),
            ({
                let r = pbd_solve_spec(
                    old(particles).predicted_position@,
                    old(particles).lambda@,
                    old(particles).delta_position@,
                    old(particles).contacts@,
                    old(particles).contact_counts@,
                    old(particles).density@,
                    old(particles).max_neighbors as int,
                    old(particles).count as int,
                    constants,
                    k as int,
                );
                &&& particles.predicted_position@ == r.0
                &&& particles.lambda@ == r.1
                &&& particles.delta_position@ == r.2
            }),
            forall|i: int|
                0 <= i < particles.count as int ==> (#[trigger] particles.predicted_position@[i]).bounded(
                    POS_LIMIT as int,
                ) || k == 0,
            forall|i: int|
                0 <= i < old(particles).count as int ==> 0 <= #[trigger] old(particles).density@[i] <= DENSITY_LIMIT,
            forall|i: int|
                0 <= i < old(particles).count as int ==> (#[trigger] old(particles).predicted_position@[i]).bounded(POS_LIMIT as int),
            forall|i: int|
                0 <= i < old(particles).count as int ==> #[trigger] old(particles).contact_counts@[i] <= old(particles).max_neighbors,
            forall|i: int, t: int|
                0 <= i < old(particles).count as int && 0 <= t < old(particles).contact_counts@[i] as int ==> #[trigger] old(particles).contacts@[i * old(particles).max_neighbors as int + t] < old(particles).count,
            forall|i: int|
                old(particles).count as int <= i < old(particles).capacity as int
                    ==> #[trigger] particles.predicted_position@[i] == old(particles).predicted_position@[i],
        decreases iterations - k,
    {
        proof {
            assert(forall|i: int|
                0 <= i < particles.count as int ==> (
                #[trigger] particles.predicted_position@[i]).bounded(POS_LIMIT as int));
        }
        pbd_iteration(particles, constants);
        k += 1;
    }
}

} // verus!
