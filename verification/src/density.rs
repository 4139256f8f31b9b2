//! The density estimator: a Spiky-kernel weighted mass sum over each
//! particle's neighbor list, plus the particle's own contribution.

use vstd::prelude::*;

use crate::config::POS_LIMIT;
use crate::fixed::{fx_div, fx_mul, fx_mul_spec, lemma_fx_mul_bound, Vec3Fx};
use crate::kernel::{
    cube_spec, dist_of_d2, h2_of, h3_of, h6_of, h_in_range, isqrt, lemma_kernel_ranges,
    lemma_kernel_value_bounds, lemma_sqrt_floor, pih6_of, spiky_factor_of, spiky_w_spec,
    sqrt_floor, PI_FX,
};
use crate::neighbors::{dist2, dist2_spec};
use crate::store::Particles;

verus! {

/// Densities stay below this bound: at most 257 contributions of mass
/// at most `10^9` times a kernel value at most `10^10`.
pub const DENSITY_LIMIT: i64 = 3_000_000_000_000_000;

/// The kernel-space distance between two stored particles.
pub open spec fn pair_dist(pred: Seq<Vec3Fx>, i: int, c: int) -> int {
    dist_of_d2(dist2_spec(pred[i], pred[c]))
}

/// The summed neighbor contributions of the first `t` recorded contacts
/// of particle `i`.
pub open spec fn row_density(
    pred: Seq<Vec3Fx>,
    contacts: Seq<u32>,
    mn: int,
    i: int,
    mass: int,
    h: int,
    t: int,
) -> int
    decreases t,
{
    if t <= 0 {
        0
    } else {
        row_density(pred, contacts, mn, i, mass, h, t - 1) + fx_mul_spec(
            mass,
            spiky_w_spec(pair_dist(pred, i, contacts[i * mn + (t - 1)] as int), h),
        )
    }
}

/// A particle's own kernel contribution.
pub open spec fn self_density(mass: int, h: int) -> int {
    fx_mul_spec(mass, spiky_w_spec(0, h))
}

/// The estimated density of particle `i`: its own contribution plus the
/// weighted sum over its recorded contacts.
pub open spec fn density_of(
    pred: Seq<Vec3Fx>,
    contacts: Seq<u32>,
    counts: Seq<u32>,
    mn: int,
    i: int,
    mass: int,
    h: int,
) -> int {
    self_density(mass, h) + row_density(pred, contacts, mn, i, mass, h, counts[i] as int)
}

/// The scalar constants of the density dispatch.
#[derive(Clone, Copy, Debug, PartialEq, Eq, Structural)]
pub struct SpikySphConstants {
    pub particle_count: u32,
    pub mass: i64,
    pub smoothing_radius: i64,
    pub smoothing_radius_sq: i64,
    pub spiky_kernel_factor: i64,
    pub grid_size: i64,
    pub max_neighbors: u32,
}

impl SpikySphConstants {
    /// Packs the dispatch constants, deriving the squared radius and
    /// the Spiky normalization `15 / (pi h^6)`.
    pub fn new(particle_count: u32, mass: i64, smoothing_radius: i64, grid_size: i64) -> (c:
        SpikySphConstants)
        requires
            h_in_range(smoothing_radius as int),
        ensures
            c.particle_count == particle_count,
            c.mass == mass,
            c.smoothing_radius == smoothing_radius,
            c.grid_size == grid_size,
            c.smoothing_radius_sq as int == h2_of(smoothing_radius as int),
            c.spiky_kernel_factor as int == spiky_factor_of(smoothing_radius as int),
            c.max_neighbors == 64,
    {
        let factor = spiky_factor(smoothing_radius);
        proof {
            lemma_fx_mul_bound(smoothing_radius as int, smoothing_radius as int, 10_000_000, 10_000_000);
        }
        let smoothing_radius_sq = fx_mul(smoothing_radius, smoothing_radius);
        SpikySphConstants {
            particle_count,
            mass,
            smoothing_radius,
            smoothing_radius_sq,
            spiky_kernel_factor: factor,
            grid_size,
            max_neighbors: 64,
        }
    }
}

/// Computes the Spiky normalization factor for a radius in range.
pub fn spiky_factor(h: i64) -> (f: i64)
    requires
        h_in_range(h as int),
    ensures
        f as int == spiky_factor_of(h as int),
        0 <= f <= 5_000_000_000_000,
{
    proof {
        lemma_kernel_ranges(h as int);
        lemma_fx_mul_bound(h as int, h as int, 10_000_000, 10_000_000);
    }
    let h2 = fx_mul(h, h);
    let h3 = fx_mul(h2, h);
    let h6 = fx_mul(h3, h3);
    let pih6 = fx_mul(PI_FX, h6);
    fx_div(15_000_000, pih6)
}

/// Evaluates the Spiky kernel at fixed-point distance `dist`.
pub fn spiky_w(dist: i64, h: i64, factor: i64) -> (w: i64)
    requires
        h_in_range(h as int),
        dist >= 0,
        factor as int == spiky_factor_of(h as int),
    ensures
        w as int == spiky_w_spec(dist as int, h as int),
        0 <= w <= 10_000_000_000,
{
    proof {
        lemma_kernel_ranges(h as int);
        lemma_kernel_value_bounds(h as int, dist as int);
    }
    if dist >= h {
        0
    } else {
        let d = h - dist;
        proof {
            lemma_fx_mul_bound(d as int, d as int, 10_000_000, 10_000_000);
            lemma_fx_mul_bound(
                fx_mul_spec(d as int, d as int),
                d as int,
                100_000_000,
                10_000_000,
            );
            lemma_fx_mul_bound(factor as int, cube_spec(d as int), 5_000_000_000_000, 1_000_000_000);
            assert(0 <= cube_spec(d as int) <= h3_of(h as int)) by {
                lemma_kernel_value_bounds(h as int, dist as int);
                assert(fx_mul_spec(d as int, d as int) == d as int * d as int / 1_000_000
                    && d as int * d as int >= 0) by (nonlinear_arith)
                    requires
                        d >= 0,
                ;
                assert(0 <= fx_mul_spec(d as int, d as int) <= h2_of(h as int))
                    by (nonlinear_arith)
                    requires
                        0 < d as int <= h as int && fx_mul_spec(d as int, d as int) == d as int
                            * d as int / 1_000_000 && h2_of(h as int) == h as int * h as int
                            / 1_000_000 && h as int <= 10_000_000,
                ;
                assert(0 <= cube_spec(d as int) <= h3_of(h as int)) by (nonlinear_arith)
                    requires
                        0 <= fx_mul_spec(d as int, d as int) <= h2_of(h as int) && 0 < d as int
                            <= h as int && cube_spec(d as int) == fx_mul_spec(d as int, d as int)
                            * d as int / 1_000_000 && h3_of(h as int) == h2_of(h as int)
                            * h as int / 1_000_000 && h2_of(h as int) >= 0,
                ;
            }
        }
        let dd = fx_mul(d, d);
        let c = fx_mul(dd, d);
        fx_mul(factor, c)
    }
}

/// Computes the kernel-space distance of two bounded points.
pub fn pair_distance(a: Vec3Fx, b: Vec3Fx) -> (r: i64)
    requires
        a.bounded(POS_LIMIT as int),
        b.bounded(POS_LIMIT as int),
    ensures
        r as int == dist_of_d2(dist2_spec(a, b)),
        r >= 0,
{
    let d2: i128 = dist2(a, b);
    proof {
        assert(d2 as int * 1_000_000 <= 0x1_0000_0000_0000_0000_0000_0000_0000i128 as int) by {
            assert(d2 as int <= 48_000_000_000_000_000_000_000_000 + 3) by {
                let dx = a.x as int - b.x as int;
                let dy = a.y as int - b.y as int;
                let dz = a.z as int - b.z as int;
                assert(dx * dx + dy * dy + dz * dz <= 48_000_000_000_000_000_000_000_000)
                    by (nonlinear_arith)
                    requires
                        crate::fixed::fx_abs(dx) <= 4_000_000_000_000 && crate::fixed::fx_abs(dy)
                            <= 4_000_000_000_000 && crate::fixed::fx_abs(dz)
                            <= 4_000_000_000_000,
                ;
                assert(d2 as int <= dx * dx + dy * dy + dz * dz) by (nonlinear_arith)
                    requires
                        d2 as int == (dx * dx + dy * dy + dz * dz) / 1_000_000 && dx * dx + dy * dy
                            + dz * dz >= 0,
                ;
            }
        }
        lemma_sqrt_floor(d2 as int * 1_000_000);
        assert(sqrt_floor(d2 as int * 1_000_000) <= 0xffff_ffff_ffff_ffff) by (nonlinear_arith)
            requires
                sqrt_floor(d2 as int * 1_000_000) >= 0 && sqrt_floor(d2 as int * 1_000_000)
                    * sqrt_floor(d2 as int * 1_000_000) <= d2 as int * 1_000_000 && d2 as int
                    * 1_000_000 <= 0x1_0000_0000_0000_0000_0000_0000_0000i128 as int,
        ;
        assert(sqrt_floor(d2 as int * 1_000_000) <= i64::MAX as int) by (nonlinear_arith)
            requires
                sqrt_floor(d2 as int * 1_000_000) >= 0 && sqrt_floor(d2 as int * 1_000_000)
                    * sqrt_floor(d2 as int * 1_000_000) <= d2 as int * 1_000_000 && d2 as int
                    * 1_000_000 <= 0x1_0000_0000_0000_0000_0000_0000_0000i128 as int,
        ;
    }
    let n: u128 = (d2 as u128) * 1_000_000u128;
    let r: u64 = isqrt(n);
    r as i64
}

/// The density dispatch: for every live particle, sums the Spiky kernel
/// contributions of its recorded contacts and its own term.
pub fn density_pass(particles: &mut Particles, constants: SpikySphConstants)
    requires
        old(particles).wf(),
        constants.particle_count == old(particles).count,
        h_in_range(constants.smoothing_radius as int),
        0 < constants.mass <= 1_000_000_000,
        constants.spiky_kernel_factor as int == spiky_factor_of(constants.smoothing_radius as int),
        forall|i: int|
            0 <= i < old(particles).count as int ==> (#[trigger] old(particles).predicted_position@[i]).bounded(POS_LIMIT as int),
        forall|i: int|
            0 <= i < old(particles).count as int ==> #[trigger] old(particles).contact_counts@[i] <= old(particles).max_neighbors,
        forall|i: int, t: int|
            0 <= i < old(particles).count as int && 0 <= t < old(particles).contact_counts@[i] as int ==> #[trigger] old(particles).contacts@[i * old(particles).max_neighbors as int + t] < old(particles).count,
    ensures
        final(particles).wf(),
        *final(particles) == (Particles { density: final(particles).density, ..*old(particles) }),
        forall|i: int|
            0 <= i < old(particles).count as int ==> #[trigger] final(particles).density@[i] as int
                == density_of(
                old(particles).predicted_position@,
                old(particles).contacts@,
                old(particles).contact_counts@,
                old(particles).max_neighbors as int,
                i,
                constants.mass as int,
                constants.smoothing_radius as int,
            ),
        forall|i: int|
            0 <= i < old(particles).count as int ==> 0 <= #[trigger] final(particles).density@[i] <= DENSITY_LIMIT,
        forall|i: int|
            old(particles).count as int <= i < old(particles).capacity as int ==> final(particles).density@[i] == old(particles).density@[i],
{
    let ghost pred0 = particles.predicted_position@;
    let ghost contacts0 = particles.contacts@;
    let ghost counts0 = particles.contact_counts@;
    let ghost massg = constants.mass as int;
    let ghost hg = constants.smoothing_radius as int;
    let n: usize = particles.count as usize;
    let mn: usize = particles.max_neighbors as usize;
    let h: i64 = constants.smoothing_radius;
    let factor: i64 = constants.spiky_kernel_factor;
    let self_term: i64 = {
        let w0 = spiky_w(0, h, factor);
        proof {
            lemma_fx_mul_bound(constants.mass as int, w0 as int, 1_000_000_000, 10_000_000_000);
        }
        fx_mul(constants.mass, w0)
    };
    proof {
        assert(self_term as int == self_density(massg, hg));
        assert(0 <= self_term as int <= 10_000_000_000_000) by {
            lemma_kernel_value_bounds(hg, 0);
            assert(0 <= fx_mul_spec(massg, spiky_w_spec(0, hg)) <= 10_000_000_000_000)
                by (nonlinear_arith)
                requires
                    0 < massg <= 1_000_000_000 && 0 <= spiky_w_spec(0, hg) <= 10_000_000_000
                        && fx_mul_spec(massg, spiky_w_spec(0, hg)) == massg * spiky_w_spec(0, hg)
                        / 1_000_000,
            ;
        }
    }
    let mut i: usize = 0;
    while i < n
        invariant
            i <= n,
            n == particles.count as usize,
            mn == particles.max_neighbors as usize,
            particles.wf(),
            h == constants.smoothing_radius,
            factor == constants.spiky_kernel_factor,
            h_in_range(hg),
            hg == h as int,
            massg == constants.mass as int,
            0 < constants.mass <= 1_000_000_000,
            factor as int == spiky_factor_of(hg),
            self_term as int == self_density(massg, hg),
            0 <= self_term as int <= 10_000_000_000_000,
            pred0 == particles.predicted_position@,
            contacts0 == particles.contacts@,
            counts0 == particles.contact_counts@,
            forall|j: int| 0 <= j < n ==> (#[trigger] pred0[j]).bounded(POS_LIMIT as int),
            forall|j: int| 0 <= j < n ==> #[trigger] counts0[j] <= particles.max_neighbors,
            forall|j: int, t: int|
                0 <= j < n && 0 <= t < counts0[j] as int ==> #[trigger] contacts0[j * mn as int
                    + t] < particles.count,
            *particles == (Particles { density: particles.density, ..*old(particles) }),
            forall|j: int|
                0 <= j < i ==> #[trigger] particles.density@[j] as int == density_of(
                    pred0,
                    contacts0,
                    counts0,
                    mn as int,
                    j,
                    massg,
                    hg,
                ),
            forall|j: int|
                0 <= j < i ==> 0 <= #[trigger] particles.density@[j] <= DENSITY_LIMIT,
            forall|j: int|
                i <= j < particles.capacity as int ==> #[trigger] particles.density@[j] == old(particles).density@[j],
        decreases n - i,
    {
        let own = particles.predicted_position[i];
        let cnt: u32 = particles.contact_counts[i];
        let clen: usize = particles.contacts.len();
        proof {
            assert(i as int * mn as int + mn as int <= particles.capacity as int
                * particles.max_neighbors as int) by (nonlinear_arith)
                requires
                    0 <= i as int && i as int + 1 <= particles.capacity as int && mn as int
                        == particles.max_neighbors as int && mn as int >= 0,
            ;
            assert(particles.capacity as int * particles.max_neighbors as int == clen as int);
            assert(i as int * mn as int + mn as int <= usize::MAX as int);
        }
        let base: usize = i * mn;
        let mut acc: i64 = 0;
        let mut t: usize = 0;
        while t < cnt as usize
            invariant
                t <= cnt as usize,
                cnt == counts0[i as int],
                cnt as usize <= mn,
                base == i * mn,
                base as int + mn as int <= usize::MAX as int,
                base + mn <= particles.contacts@.len(),
                i < n,
                n == particles.count as usize,
                mn == particles.max_neighbors as usize,
                particles.wf(),
                h_in_range(hg),
                hg == h as int,
                massg == constants.mass as int,
                0 < constants.mass <= 1_000_000_000,
                factor as int == spiky_factor_of(hg),
                pred0 == particles.predicted_position@,
                contacts0 == particles.contacts@,
                counts0 == particles.contact_counts@,
                own == pred0[i as int],
                forall|j: int| 0 <= j < n ==> (#[trigger] pred0[j]).bounded(POS_LIMIT as int),
                forall|j: int, u: int|
                    0 <= j < n && 0 <= u < counts0[j] as int ==> #[trigger] contacts0[j * mn as int
                        + u] < particles.count,
                acc as int == row_density(pred0, contacts0, mn as int, i as int, massg, hg, t as int),
                0 <= acc as int <= t as int * 10_000_000_000_000,
            decreases cnt as usize - t,
        {
            let c: u32 = particles.contacts[base + t];
            proof {
                assert(contacts0[i as int * mn as int + t as int] < particles.count);
                assert(c == contacts0[i as int * mn as int + t as int]);
            }
            let other = particles.predicted_position[c as usize];
            let dist: i64 = pair_distance(own, other);
            let w: i64 = spiky_w(dist, h, factor);
            proof {
                lemma_fx_mul_bound(massg, w as int, 1_000_000_000, 10_000_000_000);
                assert(0 <= fx_mul_spec(massg, w as int) <= 10_000_000_000_000)
                    by (nonlinear_arith)
                    requires
                        0 < massg <= 1_000_000_000 && 0 <= w as int <= 10_000_000_000
                            && fx_mul_spec(massg, w as int) == massg * w as int / 1_000_000,
                ;
                assert(t as int * 10_000_000_000_000 + 10_000_000_000_000 <= 257
                    * 10_000_000_000_000) by (nonlinear_arith)
                    requires
                        0 <= t as int <= 256,
                ;
            }
            let term: i64 = fx_mul(constants.mass, w);
            acc = acc + term;
            t += 1;
        }
        proof {
            assert(0 <= acc as int <= 256 * 10_000_000_000_000) by (nonlinear_arith)
                requires
                    0 <= acc as int <= cnt as int * 10_000_000_000_000 && cnt as int <= 256,
            ;
        }
        let d: i64 = self_term + acc;
        particles.density[i] = d;
        i += 1;
    }
}

/// Density positivity: with the mass at least a thousandth of a unit and
/// the radius in range, every estimated density is strictly positive —
/// the particle's own kernel term alone already is.
pub proof fn lemma_density_positive(
    pred: Seq<Vec3Fx>,
    contacts: Seq<u32>,
    counts: Seq<u32>,
    mn: int,
    i: int,
    mass: int,
    h: int,
)
    requires
        h_in_range(h),
        1_000 <= mass,
        0 <= counts[i],
    ensures
        density_of(pred, contacts, counts, mn, i, mass, h) > 0,
{
    lemma_self_density_positive(mass, h);
    lemma_row_density_nonneg(pred, contacts, mn, i, mass, h, counts[i] as int);
}

/// The particle's own kernel contribution is strictly positive for any
/// mass of at least a thousandth of a unit.
pub proof fn lemma_self_density_positive(mass: int, h: int)
    requires
        h_in_range(h),
        1_000 <= mass,
    ensures
        self_density(mass, h) >= 1,
{
    lemma_kernel_ranges(h);
    let h2 = h2_of(h);
    let h3 = h3_of(h);
    let h6 = h6_of(h);
    let pih6 = pih6_of(h);
    let f = spiky_factor_of(h);
    assert(cube_spec(h) == h3);
    let w0 = spiky_w_spec(0, h);
    assert(w0 == fx_mul_spec(f, h3));
    // pih6 * 1e12 <= 3141593 * h3 * h3
    assert(pih6 * 1_000_000 <= 3_141_593 * h6) by (nonlinear_arith)
        requires
            h6 >= 0 && pih6 == 3_141_593 * h6 / 1_000_000,
    ;
    assert(h6 * 1_000_000 <= h3 * h3) by (nonlinear_arith)
        requires
            h3 >= 0 && h6 == h3 * h3 / 1_000_000,
    ;
    assert(pih6 * 1_000_000_000_000 <= 3_141_593 * (h3 * h3)) by (nonlinear_arith)
        requires
            pih6 * 1_000_000 <= 3_141_593 * h6 && h6 * 1_000_000 <= h3 * h3,
    ;
    // (f + 1) * pih6 > 15e12
    assert(f == 15_000_000_000_000int / pih6) by {
        assert(f == crate::fixed::trunc_div(15_000_000int * 1_000_000, pih6));
    }
    assert((f + 1) * pih6 > 15_000_000_000_000) by (nonlinear_arith)
        requires
            pih6 >= 3 && f == 15_000_000_000_000int / pih6,
    ;
    assert(0 < h3 * h3 <= 1_000_000_000_000_000_000) by (nonlinear_arith)
        requires
            1_000 <= h3 <= 1_000_000_000,
    ;
    // (f + 1) * h3 * h3 > 4e18
    assert((f + 1) * (h3 * h3) > 4_000_000_000_000_000_000) by (nonlinear_arith)
        requires
            (f + 1) * pih6 > 15_000_000_000_000 && pih6 * 1_000_000_000_000 <= 3_141_593 * (h3
                * h3) && pih6 >= 3 && h3 * h3 > 0 && f >= 0,
    ;
    // f * h3 >= 3e9
    assert(f * (h3 * h3) >= 3_000_000_000_000_000_000) by (nonlinear_arith)
        requires
            (f + 1) * (h3 * h3) > 4_000_000_000_000_000_000 && 0 < h3 * h3
                <= 1_000_000_000_000_000_000,
    ;
    assert(f * h3 >= 3_000_000_000) by (nonlinear_arith)
        requires
            f * (h3 * h3) >= 3_000_000_000_000_000_000 && 0 < h3 <= 1_000_000_000 && f >= 0,
    ;
    assert(w0 >= 2_999) by (nonlinear_arith)
        requires
            f * h3 >= 3_000_000_000 && w0 == f * h3 / 1_000_000,
    ;
    assert(self_density(mass, h) >= 1) by (nonlinear_arith)
        requires
            mass >= 1_000 && w0 >= 2_999 && self_density(mass, h) == mass * w0 / 1_000_000,
    ;
}

/// Every neighbor contribution is nonnegative.
pub proof fn lemma_row_density_nonneg(
    pred: Seq<Vec3Fx>,
    contacts: Seq<u32>,
    mn: int,
    i: int,
    mass: int,
    h: int,
    t: int,
)
    requires
        h_in_range(h),
        0 < mass,
    ensures
        row_density(pred, contacts, mn, i, mass, h, t) >= 0,
    decreases t,
{
    if t > 0 {
        lemma_row_density_nonneg(pred, contacts, mn, i, mass, h, t - 1);
        let dist = pair_dist(pred, i, contacts[i * mn + (t - 1)] as int);
        crate::kernel::lemma_sqrt_nonneg(dist2_spec(pred[i], pred[contacts[i * mn + (t - 1)] as int]) * 1_000_000);
        let w = spiky_w_spec(dist, h);
        lemma_kernel_value_bounds(h, dist);
        assert(fx_mul_spec(mass, w) >= 0) by (nonlinear_arith)
            requires
                mass > 0 && w >= 0 && fx_mul_spec(mass, w) == mass * w / 1_000_000,
        ;
    }
}

} // verus!
