//! Neighbor search: for each particle, scan the 3x3x3 block of cells
//! around its own cell and record the indices of nearby particles, up
//! to the fixed row width.
//!
//! A candidate is accepted when it is a live particle other than the one
//! being scanned and its predicted position lies within the smoothing
//! radius. Accepted candidates fill the particle's contact row in scan
//! order until the row is full; the recorded count is the number of
//! accepted candidates, clamped to the row width and never beyond it.

use vstd::prelude::*;

use crate::cells::{cell_of, lemma_cell_bound, EMPTY_CELL};
use crate::config::POS_LIMIT;
use crate::fixed::{floor_div, fx_abs, fx_mul, fx_mul_spec, Vec3Fx};
use crate::morton::{morton_interleave, morton_of_cell_coords, wrap32};
use crate::store::Particles;

verus! {

/// The squared fixed-point distance between two points: the dot product
/// of the difference with itself, rescaled once.
pub open spec fn dist2_spec(a: Vec3Fx, b: Vec3Fx) -> int {
    let dx = a.x as int - b.x as int;
    let dy = a.y as int - b.y as int;
    let dz = a.z as int - b.z as int;
    (dx * dx + dy * dy + dz * dz) / 1_000_000
}

/// The `t`-th offset of the 3x3x3 scan block, `t` in `0 .. 27`.
pub open spec fn block_offset(t: int) -> (int, int, int) {
    (t / 9 - 1, (t / 3) % 3 - 1, t % 3 - 1)
}

/// The cell id scanned for a particle at position `p`, block slot `t`.
pub open spec fn neighbor_cell(p: Vec3Fx, grid: int, t: int) -> u32
    recommends
        grid > 0,
{
    let o = block_offset(t);
    cell_of(
        morton_interleave(
            wrap32(p.x as int / grid + o.0),
            wrap32(p.y as int / grid + o.1),
            wrap32(p.z as int / grid + o.2),
        ),
    )
}

/// Whether sorted slot `k` holds an accepted neighbor of particle `i`.
pub open spec fn accepted(
    pred: Seq<Vec3Fx>,
    idx: Seq<u32>,
    i: int,
    k: int,
    h2: int,
    count: int,
) -> bool {
    let cand = idx[k] as int;
    &&& cand < count
    &&& cand != i
    &&& dist2_spec(pred[i], pred[cand]) <= h2
}

/// The accepted candidates among sorted slots `s .. e`, in scan order.
pub open spec fn range_accepted(
    pred: Seq<Vec3Fx>,
    idx: Seq<u32>,
    i: int,
    s: int,
    e: int,
    h2: int,
    count: int,
) -> Seq<u32>
    decreases e - s,
{
    if e <= s {
        Seq::empty()
    } else {
        let prefix = range_accepted(pred, idx, i, s, e - 1, h2, count);
        if accepted(pred, idx, i, e - 1, h2, count) {
            prefix.push(idx[e - 1])
        } else {
            prefix
        }
    }
}

/// The sorted-slot range scanned for one cell: empty when the cell
/// carries the sentinel, else `[start, min(end, count))`.
pub open spec fn cell_range(cs: Seq<u32>, ce: Seq<u32>, cell: u32, count: int) -> (int, int) {
    if cs[cell as int] == EMPTY_CELL {
        (0, 0)
    } else {
        (cs[cell as int] as int, vstd::math::min(ce[cell as int] as int, count))
    }
}

/// All accepted candidates of particle `i` over block slots `0 .. t`.
pub open spec fn scan_accepted(
    pred: Seq<Vec3Fx>,
    idx: Seq<u32>,
    cs: Seq<u32>,
    ce: Seq<u32>,
    i: int,
    grid: int,
    h2: int,
    count: int,
    t: int,
) -> Seq<u32>
    decreases t,
{
    if t <= 0 {
        Seq::empty()
    } else {
        let cell = neighbor_cell(pred[i], grid, t - 1);
        let r = cell_range(cs, ce, cell, count);
        scan_accepted(pred, idx, cs, ce, i, grid, h2, count, t - 1) + range_accepted(
            pred,
            idx,
            i,
            r.0,
            r.1,
            h2,
            count,
        )
    }
}

proof fn lemma_range_accepted_len(
    pred: Seq<Vec3Fx>,
    idx: Seq<u32>,
    i: int,
    s: int,
    e: int,
    h2: int,
    count: int,
)
    ensures
        range_accepted(pred, idx, i, s, e, h2, count).len() <= if e <= s {
            0
        } else {
            e - s
        },
    decreases e - s,
{
    if e > s {
        lemma_range_accepted_len(pred, idx, i, s, e - 1, h2, count);
    }
}

proof fn lemma_range_accepted_sound(
    pred: Seq<Vec3Fx>,
    idx: Seq<u32>,
    i: int,
    s: int,
    e: int,
    h2: int,
    count: int,
    u: int,
)
    requires
        0 <= u < range_accepted(pred, idx, i, s, e, h2, count).len(),
    ensures
        ({
            let c = range_accepted(pred, idx, i, s, e, h2, count)[u] as int;
            c < count && c != i && dist2_spec(pred[i], pred[c]) <= h2
        }),
    decreases e - s,
{
    if e > s {
        let prefix = range_accepted(pred, idx, i, s, e - 1, h2, count);
        if u < prefix.len() {
            lemma_range_accepted_sound(pred, idx, i, s, e - 1, h2, count, u);
        }
    }
}

proof fn lemma_scan_accepted_sound(
    pred: Seq<Vec3Fx>,
    idx: Seq<u32>,
    cs: Seq<u32>,
    ce: Seq<u32>,
    i: int,
    grid: int,
    h2: int,
    count: int,
    t: int,
    u: int,
)
    requires
        0 <= u < scan_accepted(pred, idx, cs, ce, i, grid, h2, count, t).len(),
        0 <= t,
    ensures
        ({
            let c = scan_accepted(pred, idx, cs, ce, i, grid, h2, count, t)[u] as int;
            c < count && c != i && dist2_spec(pred[i], pred[c]) <= h2
        }),
    decreases t,
{
    let prev = scan_accepted(pred, idx, cs, ce, i, grid, h2, count, t - 1);
    if t > 0 {
        if u < prev.len() {
            lemma_scan_accepted_sound(pred, idx, cs, ce, i, grid, h2, count, t - 1, u);
        } else {
            let cell = neighbor_cell(pred[i], grid, t - 1);
            let r = cell_range(cs, ce, cell, count);
            lemma_range_accepted_sound(pred, idx, i, r.0, r.1, h2, count, u - prev.len());
        }
    }
}

proof fn lemma_scan_accepted_len(
    pred: Seq<Vec3Fx>,
    idx: Seq<u32>,
    cs: Seq<u32>,
    ce: Seq<u32>,
    i: int,
    grid: int,
    h2: int,
    count: int,
    t: int,
)
    requires
        0 <= t,
        0 <= count,
    ensures
        scan_accepted(pred, idx, cs, ce, i, grid, h2, count, t).len() <= t * count,
    decreases t,
{
    if t > 0 {
        lemma_scan_accepted_len(pred, idx, cs, ce, i, grid, h2, count, t - 1);
        let cell = neighbor_cell(pred[i], grid, t - 1);
        let r = cell_range(cs, ce, cell, count);
        lemma_range_accepted_len(pred, idx, i, r.0, r.1, h2, count);
        assert(r.1 <= count);
        assert(range_accepted(pred, idx, i, r.0, r.1, h2, count).len() <= count);
        assert((t - 1) * count + count == t * count) by (nonlinear_arith);
    }
}

proof fn lemma_take_grow(s: Seq<u32>, x: u32, m: int)
    requires
        0 <= m,
    ensures
        s.push(x).take(vstd::math::min(s.len() as int + 1, m)) == if s.len() < m {
            s.take(vstd::math::min(s.len() as int, m)).push(x)
        } else {
            s.take(vstd::math::min(s.len() as int, m))
        },
{
    if s.len() < m {
        assert(s.push(x).take(s.len() as int + 1) =~= s.take(s.len() as int).push(x));
    } else {
        assert(s.push(x).take(m) =~= s.take(m));
    }
}

/// The scalar constants of the neighbor search dispatch.
#[derive(Clone, Copy, Debug, PartialEq, Eq, Structural)]
pub struct NeighborSearchConstants {
    pub particle_count: u32,
    pub smoothing_radius: i64,
    pub smoothing_radius_sq: i64,
    pub grid_size: i64,
    pub max_neighbors: u32,
}

impl NeighborSearchConstants {
    /// Packs the dispatch constants; the squared radius is derived once.
    pub fn new(particle_count: u32, smoothing_radius: i64, grid_size: i64, max_neighbors: u32) -> (c:
        NeighborSearchConstants)
        requires
            0 <= smoothing_radius <= 100_000_000,
        ensures
            c == (NeighborSearchConstants {
                particle_count,
                smoothing_radius,
                smoothing_radius_sq: fx_mul_spec(
                    smoothing_radius as int,
                    smoothing_radius as int,
                ) as i64,
                grid_size,
                max_neighbors,
            }),
            c.smoothing_radius_sq as int == fx_mul_spec(
                smoothing_radius as int,
                smoothing_radius as int,
            ),
            c.smoothing_radius_sq >= 0,
    {
        proof {
            crate::fixed::lemma_fx_mul_bound(
                smoothing_radius as int,
                smoothing_radius as int,
                100_000_000,
                100_000_000,
            );
            assert(smoothing_radius as int * smoothing_radius as int >= 0) by (nonlinear_arith);
            crate::fixed::lemma_trunc_div_sign(
                smoothing_radius as int * smoothing_radius as int,
            );
        }
        let smoothing_radius_sq = fx_mul(smoothing_radius, smoothing_radius);
        NeighborSearchConstants {
            particle_count,
            smoothing_radius,
            smoothing_radius_sq,
            grid_size,
            max_neighbors,
        }
    }
}

/// Computes the truncated squared distance between two bounded points.
pub fn dist2(a: Vec3Fx, b: Vec3Fx) -> (r: i128)
    requires
        a.bounded(4_000_000_000_000_000),
        b.bounded(4_000_000_000_000_000),
    ensures
        r as int == dist2_spec(a, b),
        r >= 0,
{
    let dx: i128 = a.x as i128 - b.x as i128;
    let dy: i128 = a.y as i128 - b.y as i128;
    let dz: i128 = a.z as i128 - b.z as i128;
    proof {
        assert(dx * dx >= 0 && dx * dx <= 0x1_0000_0000_0000_0000_0000_0000_0000i128)
            by (nonlinear_arith)
            requires
                fx_abs(dx as int) <= 8_000_000_000_000_000,
        ;
        assert(dy * dy >= 0 && dy * dy <= 0x1_0000_0000_0000_0000_0000_0000_0000i128)
            by (nonlinear_arith)
            requires
                fx_abs(dy as int) <= 8_000_000_000_000_000,
        ;
        assert(dz * dz >= 0 && dz * dz <= 0x1_0000_0000_0000_0000_0000_0000_0000i128)
            by (nonlinear_arith)
            requires
                fx_abs(dz as int) <= 8_000_000_000_000_000,
        ;
    }
    let sum: i128 = dx * dx + dy * dy + dz * dz;
    let q: i128 = sum / 1_000_000;
    proof {
        assert(q >= 0 && q <= sum) by (nonlinear_arith)
            requires
                sum >= 0 && q == sum / 1_000_000,
        ;
    }
    q
}

/// The neighbor search dispatch.
pub fn neighbor_search_pass(particles: &mut Particles, constants: NeighborSearchConstants)
    requires
        old(particles).wf(),
        constants.particle_count == old(particles).count,
        constants.max_neighbors == old(particles).max_neighbors,
        constants.grid_size > 0,
        constants.smoothing_radius_sq >= 0,
        forall|i: int|
            0 <= i < old(particles).count as int ==> (#[trigger] old(particles).predicted_position@[i]).bounded(POS_LIMIT as int),
    ensures
        final(particles).wf(),
        *final(particles) == (Particles {
            contacts: final(particles).contacts,
            contact_counts: final(particles).contact_counts,
            ..*old(particles)
        }),
        forall|i: int|
            0 <= i < old(particles).count as int ==> #[trigger] final(particles).contact_counts@[i] as int == vstd::math::min(
                scan_accepted(
                    old(particles).predicted_position@,
                    old(particles).index@,
                    old(particles).cell_start@,
                    old(particles).cell_end@,
                    i,
                    constants.grid_size as int,
                    constants.smoothing_radius_sq as int,
                    old(particles).count as int,
                    27,
                ).len() as int,
                old(particles).max_neighbors as int,
            ),
        forall|i: int, t: int|
            0 <= i < old(particles).count as int && 0 <= t < final(particles).contact_counts@[i] as int ==> #[trigger] final(particles).contacts@[i * old(particles).max_neighbors as int + t] == scan_accepted(
                old(particles).predicted_position@,
                old(particles).index@,
                old(particles).cell_start@,
                old(particles).cell_end@,
                i,
                constants.grid_size as int,
                constants.smoothing_radius_sq as int,
                old(particles).count as int,
                27,
            )[t],
        forall|i: int|
            0 <= i < old(particles).count as int ==> #[trigger] final(particles).contact_counts@[i] <= old(particles).max_neighbors,
        forall|i: int, t: int|
            0 <= i < old(particles).count as int && 0 <= t < final(particles).contact_counts@[i] as int ==> ({
                let c = #[trigger] final(particles).contacts@[i * old(particles).max_neighbors as int + t] as int;
                c < old(particles).count as int && c != i && dist2_spec(
                    old(particles).predicted_position@[i],
                    old(particles).predicted_position@[c],
                ) <= constants.smoothing_radius_sq as int
            }),
{
    let ghost pred0 = particles.predicted_position@;
    let ghost idx0 = particles.index@;
    let ghost cs0 = particles.cell_start@;
    let ghost ce0 = particles.cell_end@;
    let ghost h2g = constants.smoothing_radius_sq as int;
    let ghost gridg = constants.grid_size as int;
    let ghost countg = particles.count as int;
    let n: usize = particles.count as usize;
    let mn: usize = particles.max_neighbors as usize;
    let mut i: usize = 0;
    while i < n
        invariant
            i <= n,
            n == particles.count as usize,
            mn == particles.max_neighbors as usize,
            1 <= mn,
            particles.wf(),
            constants.particle_count == particles.count,
            constants.max_neighbors == particles.max_neighbors,
            constants.grid_size > 0,
            constants.smoothing_radius_sq >= 0,
            pred0 == particles.predicted_position@,
            idx0 == particles.index@,
            cs0 == particles.cell_start@,
            ce0 == particles.cell_end@,
            h2g == constants.smoothing_radius_sq as int,
            gridg == constants.grid_size as int,
            countg == particles.count as int,
            forall|j: int| 0 <= j < n ==> (#[trigger] pred0[j]).bounded(POS_LIMIT as int),
            *particles == (Particles {
                contacts: particles.contacts,
                contact_counts: particles.contact_counts,
                ..*old(particles)
            }),
            forall|j: int|
                0 <= j < i ==> #[trigger] particles.contact_counts@[j] as int == vstd::math::min(
                    scan_accepted(pred0, idx0, cs0, ce0, j, gridg, h2g, countg, 27).len() as int,
                    mn as int,
                ),
            forall|j: int, t: int|
                0 <= j < i && 0 <= t < particles.contact_counts@[j] as int
                    ==> #[trigger] particles.contacts@[j * mn as int + t] == scan_accepted(
                    pred0,
                    idx0,
                    cs0,
                    ce0,
                    j,
                    gridg,
                    h2g,
                    countg,
                    27,
                )[t],
        decreases n - i,
    {
        let ghost contacts_snap = particles.contacts@;
        let ghost counts_snap = particles.contact_counts@;
        let own = particles.predicted_position[i];
        let cx = floor_div(own.x, constants.grid_size);
        let cy = floor_div(own.y, constants.grid_size);
        let cz = floor_div(own.z, constants.grid_size);
        let mut row: Vec<u32> = Vec::new();
        let mut total: u64 = 0;
        let mut t: usize = 0;
        proof {
            assert(own.bounded(POS_LIMIT as int));
        }
        while t < 27
            invariant
                t <= 27,
                i < n,
                n == particles.count as usize,
                mn == particles.max_neighbors as usize,
                particles.wf(),
                particles.contacts@ == contacts_snap,
                particles.contact_counts@ == counts_snap,
                *particles == (Particles {
                    contacts: particles.contacts,
                    contact_counts: particles.contact_counts,
                    ..*old(particles)
                }),
                constants.grid_size > 0,
                constants.smoothing_radius_sq >= 0,
                pred0 == particles.predicted_position@,
                idx0 == particles.index@,
                cs0 == particles.cell_start@,
                ce0 == particles.cell_end@,
                h2g == constants.smoothing_radius_sq as int,
                gridg == constants.grid_size as int,
                countg == particles.count as int,
                forall|j: int| 0 <= j < n ==> (#[trigger] pred0[j]).bounded(POS_LIMIT as int),
                own == pred0[i as int],
                own.bounded(POS_LIMIT as int),
                cx as int == own.x as int / gridg,
                cy as int == own.y as int / gridg,
                cz as int == own.z as int / gridg,
                fx_abs(cx as int) <= POS_LIMIT as int,
                fx_abs(cy as int) <= POS_LIMIT as int,
                fx_abs(cz as int) <= POS_LIMIT as int,
                total as int == scan_accepted(
                    pred0,
                    idx0,
                    cs0,
                    ce0,
                    i as int,
                    gridg,
                    h2g,
                    countg,
                    t as int,
                ).len(),
                row@ == scan_accepted(
                    pred0,
                    idx0,
                    cs0,
                    ce0,
                    i as int,
                    gridg,
                    h2g,
                    countg,
                    t as int,
                ).take(vstd::math::min(total as int, mn as int)),
                row@.len() <= mn,
            decreases 27 - t,
        {
            let ox: i64 = (t / 9) as i64 - 1;
            let oy: i64 = ((t / 3) % 3) as i64 - 1;
            let oz: i64 = (t % 3) as i64 - 1;
            let code: u32 = morton_of_cell_coords(cx + ox, cy + oy, cz + oz);
            let cell: u32 = code & 0xffff;
            proof {
                lemma_cell_bound(code);
                assert(block_offset(t as int) == (ox as int, oy as int, oz as int));
                assert(cell == neighbor_cell(pred0[i as int], gridg, t as int));
            }
            let ghost r = cell_range(cs0, ce0, cell, countg);
            let ghost scan_prev = scan_accepted(
                pred0,
                idx0,
                cs0,
                ce0,
                i as int,
                gridg,
                h2g,
                countg,
                t as int,
            );
            let s_raw: u32 = particles.cell_start[cell as usize];
            if s_raw != EMPTY_CELL {
                let e_raw: u32 = particles.cell_end[cell as usize];
                let e_clamped: u32 = if e_raw > particles.count {
                    particles.count
                } else {
                    e_raw
                };
                proof {
                    assert(r.0 == s_raw as int);
                    assert(r.1 == e_clamped as int);
                }
                let mut k: u32 = s_raw;
                while k < e_clamped
                    invariant
                        s_raw <= k,
                        k <= e_clamped || k == s_raw,
                        e_clamped <= particles.count,
                        i < n,
                        t < 27,
                        n == particles.count as usize,
                        mn == particles.max_neighbors as usize,
                        particles.wf(),
                        particles.contacts@ == contacts_snap,
                        particles.contact_counts@ == counts_snap,
                        *particles == (Particles {
                            contacts: particles.contacts,
                            contact_counts: particles.contact_counts,
                            ..*old(particles)
                        }),
                        constants.smoothing_radius_sq >= 0,
                        pred0 == particles.predicted_position@,
                        idx0 == particles.index@,
                        h2g == constants.smoothing_radius_sq as int,
                        countg == particles.count as int,
                        forall|j: int|
                            0 <= j < n ==> (#[trigger] pred0[j]).bounded(POS_LIMIT as int),
                        own == pred0[i as int],
                        r.0 == s_raw as int,
                        r.1 == e_clamped as int,
                        total as int == scan_prev.len() + range_accepted(
                            pred0,
                            idx0,
                            i as int,
                            r.0,
                            k as int,
                            h2g,
                            countg,
                        ).len(),
                        row@ == (scan_prev + range_accepted(
                            pred0,
                            idx0,
                            i as int,
                            r.0,
                            k as int,
                            h2g,
                            countg,
                        )).take(vstd::math::min(total as int, mn as int)),
                        row@.len() <= mn,
                        scan_prev == scan_accepted(
                            pred0,
                            idx0,
                            cs0,
                            ce0,
                            i as int,
                            gridg,
                            h2g,
                            countg,
                            t as int,
                        ),
                    decreases e_clamped as int - k as int,
                {
                    let cand: u32 = particles.index[k as usize];
                    let ghost prev_range = range_accepted(
                        pred0,
                        idx0,
                        i as int,
                        r.0,
                        k as int,
                        h2g,
                        countg,
                    );
                    let mut take_it: bool = false;
                    if cand < particles.count && cand as usize != i {
                        let other = particles.predicted_position[cand as usize];
                        proof {
                            assert(other.bounded(POS_LIMIT as int));
                        }
                        let d2: i128 = dist2(own, other);
                        if d2 <= constants.smoothing_radius_sq as i128 {
                            take_it = true;
                        }
                    }
                    proof {
                        assert(take_it == accepted(pred0, idx0, i as int, k as int, h2g, countg));
                        assert(range_accepted(pred0, idx0, i as int, r.0, k + 1, h2g, countg)
                            == if accepted(pred0, idx0, i as int, k as int, h2g, countg) {
                            prev_range.push(idx0[k as int])
                        } else {
                            prev_range
                        });
                        lemma_scan_accepted_len(
                            pred0,
                            idx0,
                            cs0,
                            ce0,
                            i as int,
                            gridg,
                            h2g,
                            countg,
                            t as int,
                        );
                        lemma_range_accepted_len(pred0, idx0, i as int, r.0, k + 1, h2g, countg);
                        assert(27 * countg <= 27 * 0x1_0000_0000) by (nonlinear_arith)
                            requires
                                0 <= countg <= 0x1_0000_0000,
                        ;
                        assert(scan_prev.len() <= 27 * countg) by {
                            assert(t as int * countg <= 27 * countg) by (nonlinear_arith)
                                requires
                                    0 <= t as int <= 27 && countg >= 0,
                            ;
                        }
                    }
                    if take_it {
                        if row.len() < mn {
                            row.push(cand);
                        }
                        proof {
                            lemma_take_grow(scan_prev + prev_range, cand, mn as int);
                            assert((scan_prev + prev_range).push(cand) =~= scan_prev
                                + prev_range.push(cand));
                        }
                        total = total + 1;
                    }
                    k = k + 1;
                }
                proof {
                    if k != e_clamped {
                        assert(k == s_raw && s_raw as int >= e_clamped as int);
                        assert(range_accepted(pred0, idx0, i as int, r.0, k as int, h2g, countg)
                            =~= range_accepted(pred0, idx0, i as int, r.0, r.1, h2g, countg));
                    }
                }
            } else {
                proof {
                    assert(r.0 == 0 && r.1 == 0);
                }
            }
            proof {
                assert(scan_accepted(pred0, idx0, cs0, ce0, i as int, gridg, h2g, countg, t + 1)
                    == scan_prev + range_accepted(pred0, idx0, i as int, r.0, r.1, h2g, countg));
                if s_raw == EMPTY_CELL || (s_raw as int >= cell_range(
                    cs0,
                    ce0,
                    cell,
                    countg,
                ).1) {
                    assert(range_accepted(pred0, idx0, i as int, r.0, r.1, h2g, countg).len()
                        <= 0);
                    assert(scan_prev + range_accepted(pred0, idx0, i as int, r.0, r.1, h2g, countg)
                        =~= scan_prev);
                }
            }
            t += 1;
        }
        let cnt: u32 = if total > mn as u64 {
            mn as u32
        } else {
            total as u32
        };
        proof {
            lemma_scan_accepted_len(pred0, idx0, cs0, ce0, i as int, gridg, h2g, countg, 27);
            assert(27 * countg <= 27 * 0x1_0000_0000) by (nonlinear_arith)
                requires
                    0 <= countg <= 0x1_0000_0000,
            ;
            assert(cnt as int == vstd::math::min(total as int, mn as int));
            assert(row@.len() == cnt as int);
        }
        particles.contact_counts[i] = cnt;
        let clen: usize = particles.contacts.len();
        proof {
            assert(i as int * mn as int + mn as int <= particles.capacity as int
                * particles.max_neighbors as int) by (nonlinear_arith)
                requires
                    0 <= i as int && i as int + 1 <= particles.capacity as int && mn as int
                        == particles.max_neighbors as int && mn as int >= 0,
            ;
            assert(particles.capacity as int * particles.max_neighbors as int == clen as int);
            assert(i as int * mn as int + mn as int <= usize::MAX as int);
        }
        let base: usize = i * mn;
        let mut t2: usize = 0;
        while t2 < row.len()
            invariant
                t2 <= row@.len(),
                row@.len() <= mn,
                base == i * mn,
                base as int + mn as int <= usize::MAX as int,
                base + mn <= particles.contacts@.len(),
                i < n,
                n == particles.count as usize,
                mn == particles.max_neighbors as usize,
                particles.wf(),
                pred0 == particles.predicted_position@,
                idx0 == particles.index@,
                cs0 == particles.cell_start@,
                ce0 == particles.cell_end@,
                countg == particles.count as int,
                *particles == (Particles {
                    contacts: particles.contacts,
                    contact_counts: particles.contact_counts,
                    ..*old(particles)
                }),
                forall|j: int|
                    0 <= j <= i ==> #[trigger] particles.contact_counts@[j] as int
                        == vstd::math::min(
                        scan_accepted(pred0, idx0, cs0, ce0, j, gridg, h2g, countg, 27).len() as int,
                        mn as int,
                    ),
                forall|j: int, u: int|
                    0 <= j < i && 0 <= u < particles.contact_counts@[j] as int
                        ==> #[trigger] particles.contacts@[j * mn as int + u] == scan_accepted(
                        pred0,
                        idx0,
                        cs0,
                        ce0,
                        j,
                        gridg,
                        h2g,
                        countg,
                        27,
                    )[u],
                forall|u: int|
                    0 <= u < t2 ==> #[trigger] particles.contacts@[base as int + u] == row@[u],
                row@ == scan_accepted(pred0, idx0, cs0, ce0, i as int, gridg, h2g, countg, 27).take(
                    particles.contact_counts@[i as int] as int,
                ),
            decreases row@.len() - t2,
        {
            let val: u32 = row[t2];
            let ghost pre_contacts = particles.contacts@;
            let ghost pos = base as int + t2 as int;
            particles.contacts[base + t2] = val;
            proof {
                assert(particles.contacts@ == pre_contacts.update(pos, val));
                assert forall|j: int, u: int|
                    0 <= j < i && 0 <= u < particles.contact_counts@[j] as int
                    implies #[trigger] particles.contacts@[j * mn as int + u] == scan_accepted(
                    pred0,
                    idx0,
                    cs0,
                    ce0,
                    j,
                    gridg,
                    h2g,
                    countg,
                    27,
                )[u] by {
                    assert(particles.contact_counts@[j] as int <= mn as int);
                    assert(j * mn as int + u < i as int * mn as int) by (nonlinear_arith)
                        requires
                            0 <= j && j < i as int && 0 <= u && u < mn as int && mn as int >= 1,
                    ;
                    assert(j * mn as int + u != pos);
                    assert(particles.contacts@[j * mn as int + u] == pre_contacts[j * mn as int
                        + u]);
                }
            }
            t2 += 1;
        }
        i += 1;
    }
    proof {
        assert forall|i: int, t: int|
            0 <= i < old(particles).count as int && 0 <= t < particles.contact_counts@[i] as int
            implies ({
                let c = #[trigger] particles.contacts@[i * old(particles).max_neighbors as int
                    + t] as int;
                c < old(particles).count as int && c != i && dist2_spec(pred0[i], pred0[c]) <= h2g
            }) by {
            lemma_scan_accepted_sound(pred0, idx0, cs0, ce0, i, gridg, h2g, countg, 27, t);
        }
    }
}

} // verus!
