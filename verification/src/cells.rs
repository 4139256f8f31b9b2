//! The cell index builder: turns the sorted hash array into a dense
//! per-cell `[start, end)` lookup table.
//!
//! A hash's cell id is its low 16 bits, indexing a table of fixed size.
//! Every table entry is first reset to the empty sentinel; then, for
//! each sorted position, the position where a cell id's run begins is
//! recorded as its start and one past where the run ends as its end.
//! When equal cell ids sit contiguously in the sorted array — which
//! holds whenever the sorted hashes collide on their low 16 bits only
//! within runs — the table then delimits exactly the positions carrying
//! that cell.

use vstd::prelude::*;

use crate::store::{Particles, CELL_TABLE_SIZE};

verus! {

broadcast use {
    vstd::seq_lib::group_seq_properties,
    vstd::seq_lib::group_filter_ensures,
    Seq::<u32>::lemma_filter_len_push,
    Seq::<u32>::lemma_take_succ_push,
};

/// Marks a cell with no particles.
pub const EMPTY_CELL: u32 = 0xFFFF_FFFF;

/// The cell id of a hash: its low 16 bits.
pub open spec fn cell_of(h: u32) -> u32 {
    h & 0xffff
}

/// A cell id always indexes the fixed table.
pub proof fn lemma_cell_bound(h: u32)
    ensures
        cell_of(h) < 65536,
{
    assert(h & 0xffff < 65536) by (bit_vector);
}

/// Position `i` begins a run of its cell id.
pub open spec fn run_start(hs: Seq<u32>, i: int) -> bool {
    i == 0 || cell_of(hs[i]) != cell_of(hs[i - 1])
}

/// Position `i` ends a run of its cell id.
pub open spec fn run_end(hs: Seq<u32>, i: int) -> bool {
    i == hs.len() - 1 || cell_of(hs[i]) != cell_of(hs[i + 1])
}

/// The start-table entry for cell `c` after the first `i` positions
/// were processed: the latest run start carrying `c`, else the sentinel.
pub open spec fn start_entry(hs: Seq<u32>, c: u32, i: int) -> u32
    decreases i,
{
    if i <= 0 {
        EMPTY_CELL
    } else if cell_of(hs[i - 1]) == c && run_start(hs, i - 1) {
        (i - 1) as u32
    } else {
        start_entry(hs, c, i - 1)
    }
}

/// The end-table entry for cell `c` after the first `i` positions.
pub open spec fn end_entry(hs: Seq<u32>, c: u32, i: int) -> u32
    decreases i,
{
    if i <= 0 {
        EMPTY_CELL
    } else if cell_of(hs[i - 1]) == c && run_end(hs, i - 1) {
        i as u32
    } else {
        end_entry(hs, c, i - 1)
    }
}

/// The scalar constants of the cell index dispatch.
#[derive(Clone, Copy, Debug, PartialEq, Eq, Structural)]
pub struct BuildCellIndexConstants {
    pub particle_count: u32,
}

impl BuildCellIndexConstants {
    /// Packs the dispatch constants.
    pub fn new(particle_count: u32) -> (c: BuildCellIndexConstants)
        ensures
            c == (BuildCellIndexConstants { particle_count }),
    {
        BuildCellIndexConstants { particle_count }
    }
}

/// The cell index dispatch: resets both tables to the sentinel, then
/// records each cell id's run boundaries over the sorted hashes.
pub fn build_cell_index_pass(particles: &mut Particles, constants: BuildCellIndexConstants)
    requires
        old(particles).wf(),
        constants.particle_count == old(particles).count,
    ensures
        final(particles).wf(),
        *final(particles) == (Particles {
            cell_start: final(particles).cell_start,
            cell_end: final(particles).cell_end,
            ..*old(particles)
        }),
        forall|c: int|
            0 <= c < CELL_TABLE_SIZE as int ==> final(particles).cell_start@[c] == start_entry(
                old(particles).hash@.take(old(particles).count as int),
                c as u32,
                old(particles).count as int,
            ) && final(particles).cell_end@[c] == end_entry(
                old(particles).hash@.take(old(particles).count as int),
                c as u32,
                old(particles).count as int,
            ),
{
    let ghost hs = particles.hash@.take(particles.count as int);
    let mut c: usize = 0;
    while c < CELL_TABLE_SIZE
        invariant
            c <= CELL_TABLE_SIZE,
            particles.wf(),
            *particles == (Particles {
                cell_start: particles.cell_start,
                cell_end: particles.cell_end,
                ..*old(particles)
            }),
            forall|e: int|
                0 <= e < c ==> particles.cell_start@[e] == EMPTY_CELL
                    && particles.cell_end@[e] == EMPTY_CELL,
        decreases CELL_TABLE_SIZE - c,
    {
        particles.cell_start[c] = EMPTY_CELL;
        particles.cell_end[c] = EMPTY_CELL;
        c += 1;
    }
    let n: usize = particles.count as usize;
    let mut i: usize = 0;
    while i < n
        invariant
            i <= n,
            n == particles.count as usize,
            particles.wf(),
            hs == particles.hash@.take(particles.count as int),
            hs.len() == n,
            *particles == (Particles {
                cell_start: particles.cell_start,
                cell_end: particles.cell_end,
                ..*old(particles)
            }),
            forall|e: int|
                0 <= e < CELL_TABLE_SIZE as int ==> particles.cell_start@[e] == start_entry(
                    hs,
                    e as u32,
                    i as int,
                ) && particles.cell_end@[e] == end_entry(hs, e as u32, i as int),
        decreases n - i,
    {
        let h: u32 = particles.hash[i];
        let cell: usize = (h & 0xffff) as usize;
        proof {
            lemma_cell_bound(h);
            assert(hs[i as int] == h);
        }
        let is_start: bool = if i == 0 {
            true
        } else {
            let prev: u32 = particles.hash[i - 1];
            proof {
                assert(hs[i as int - 1] == prev);
            }
            (h & 0xffff) != (prev & 0xffff)
        };
        if is_start {
            particles.cell_start[cell] = i as u32;
        }
        let is_end: bool = if i == n - 1 {
            true
        } else {
            let next: u32 = particles.hash[i + 1];
            proof {
                assert(hs[i as int + 1] == next);
            }
            (h & 0xffff) != (next & 0xffff)
        };
        if is_end {
            particles.cell_end[cell] = (i + 1) as u32;
        }
        proof {
            assert(run_start(hs, i as int) == is_start);
            assert(run_end(hs, i as int) == is_end);
            assert forall|e: int| 0 <= e < CELL_TABLE_SIZE as int implies particles.cell_start@[e]
                == start_entry(hs, e as u32, i + 1) && particles.cell_end@[e] == end_entry(
                hs,
                e as u32,
                i + 1,
            ) by {}
        }
        i += 1;
    }
    proof {
        assert(hs == old(particles).hash@.take(old(particles).count as int));
    }
}

/// Equal cell ids sit in one contiguous block of the array.
///
/// This holds of the sorted hash array whenever low-16-bit collisions
/// between distinct hashes do not interleave runs.
pub open spec fn cells_clustered(hs: Seq<u32>) -> bool {
    forall|i: int, k: int, j: int|
        0 <= i <= k <= j < hs.len() && cell_of(#[trigger] hs[i]) == cell_of(#[trigger] hs[j])
            ==> cell_of(#[trigger] hs[k]) == cell_of(hs[i])
}

/// Sorted hashes that fit in the table width are always clustered: the
/// cell id is then the hash itself, and equal hashes sit together in a
/// sorted array. Larger hashes can collide on their low bits across
/// distinct runs, and such an array may not be clustered.
pub proof fn lemma_sorted_small_hashes_clustered(hs: Seq<u32>)
    requires
        forall|i: int, j: int| 0 <= i <= j < hs.len() ==> #[trigger] hs[i] <= #[trigger] hs[j],
        forall|i: int| 0 <= i < hs.len() ==> #[trigger] hs[i] < 65536,
    ensures
        cells_clustered(hs),
{
    assert forall|i: int, k: int, j: int|
        0 <= i <= k <= j < hs.len() && cell_of(#[trigger] hs[i]) == cell_of(#[trigger] hs[j])
        implies cell_of(#[trigger] hs[k]) == cell_of(hs[i]) by {
        lemma_small_cell_is_hash(hs[i]);
        lemma_small_cell_is_hash(hs[j]);
        lemma_small_cell_is_hash(hs[k]);
        assert(hs[i] <= hs[k] && hs[k] <= hs[j]);
    }
}

proof fn lemma_small_cell_is_hash(h: u32)
    requires
        h < 65536,
    ensures
        cell_of(h) == h,
{
    assert(h < 65536 ==> (h & 0xffff) == h) by (bit_vector);
}

/// The predicate "this hash lies in cell `c`".
pub open spec fn cell_pred(c: u32) -> spec_fn(u32) -> bool {
    |h: u32| cell_of(h) == c
}

/// The predicate "this hash lies in a cell below `c`".
pub open spec fn cell_below_pred(c: int) -> spec_fn(u32) -> bool {
    |h: u32| (cell_of(h) as int) < c
}

/// How many of the sorted entries lie in cell `c`.
pub open spec fn cell_count(hs: Seq<u32>, c: u32) -> int {
    hs.filter(cell_pred(c)).len() as int
}

proof fn lemma_filter_block(hs: Seq<u32>, c: u32, a: int, b: int)
    requires
        0 <= a <= b < hs.len(),
        forall|k: int| 0 <= k < hs.len() ==> (cell_of(#[trigger] hs[k]) == c <==> a <= k <= b),
    ensures
        cell_count(hs, c) == b - a + 1,
    decreases hs.len(),
{
    let dl = hs.drop_last();
    assert(hs =~= dl.push(hs.last()));
    assert(dl.push(hs.last()).filter(cell_pred(c)).len() == dl.filter(cell_pred(c)).len() + (
    if cell_pred(c)(hs.last()) {
        1int
    } else {
        0int
    }));
    if b == hs.len() - 1 {
        if a == b {
            lemma_filter_none(dl, c);
        } else {
            lemma_filter_block(dl, c, a, b - 1);
        }
    } else {
        lemma_filter_block(dl, c, a, b);
    }
}

proof fn lemma_filter_none(hs: Seq<u32>, c: u32)
    requires
        forall|k: int| 0 <= k < hs.len() ==> cell_of(#[trigger] hs[k]) != c,
    ensures
        cell_count(hs, c) == 0,
{
    hs.lemma_all_neg_filter_empty(cell_pred(c));
}

proof fn lemma_start_entry_none(hs: Seq<u32>, c: u32, i: int)
    requires
        forall|k: int| 0 <= k < hs.len() ==> cell_of(#[trigger] hs[k]) != c,
        i <= hs.len(),
    ensures
        start_entry(hs, c, i) == EMPTY_CELL,
        end_entry(hs, c, i) == EMPTY_CELL,
    decreases i,
{
    if i > 0 {
        lemma_start_entry_none(hs, c, i - 1);
    }
}

proof fn lemma_start_entry_block(hs: Seq<u32>, c: u32, a: int, b: int, i: int)
    requires
        0 <= a <= b < hs.len(),
        forall|k: int| 0 <= k < hs.len() ==> (cell_of(#[trigger] hs[k]) == c <==> a <= k <= b),
        a < i <= hs.len(),
    ensures
        start_entry(hs, c, i) == a as u32,
    decreases i,
{
    if i - 1 == a {
        assert(run_start(hs, a));
    } else if i - 1 <= b {
        assert(!run_start(hs, i - 1));
        lemma_start_entry_block(hs, c, a, b, i - 1);
    } else {
        assert(cell_of(hs[i - 1]) != c);
        lemma_start_entry_block(hs, c, a, b, i - 1);
    }
}

proof fn lemma_end_entry_block(hs: Seq<u32>, c: u32, a: int, b: int, i: int)
    requires
        0 <= a <= b < hs.len(),
        forall|k: int| 0 <= k < hs.len() ==> (cell_of(#[trigger] hs[k]) == c <==> a <= k <= b),
        b < i <= hs.len(),
    ensures
        end_entry(hs, c, i) == (b + 1) as u32,
    decreases i,
{
    if i - 1 == b {
        assert(run_end(hs, b));
    } else {
        assert(cell_of(hs[i - 1]) != c);
        lemma_end_entry_block(hs, c, a, b, i - 1);
    }
}

/// Cell index consistency, per cell: with equal cell ids contiguous, the
/// built table brackets exactly the entries of each cell, so
/// `end - start` equals the number of sorted entries in that cell; a
/// cell with no entries keeps both sentinels.
pub proof fn lemma_cell_index_consistency(hs: Seq<u32>, c: u32)
    requires
        cells_clustered(hs),
        hs.len() < 0xffff_ffff,
    ensures
        cell_count(hs, c) == 0 ==> start_entry(hs, c, hs.len() as int) == EMPTY_CELL && end_entry(
            hs,
            c,
            hs.len() as int,
        ) == EMPTY_CELL,
        cell_count(hs, c) > 0 ==> {
            let s = start_entry(hs, c, hs.len() as int);
            let e = end_entry(hs, c, hs.len() as int);
            &&& (s as int) < (e as int) <= hs.len()
            &&& e as int - s as int == cell_count(hs, c)
            &&& forall|k: int|
                0 <= k < hs.len() ==> (cell_of(#[trigger] hs[k]) == c <==> s as int <= k < e as int)
        },
{
    if exists|k: int| 0 <= k < hs.len() && cell_of(#[trigger] hs[k]) == c {
        let w = choose|k: int| 0 <= k < hs.len() && cell_of(#[trigger] hs[k]) == c;
        let a = choose|a: int|
            0 <= a < hs.len() && cell_of(#[trigger] hs[a]) == c && forall|k: int|
                0 <= k < a ==> cell_of(#[trigger] hs[k]) != c;
        assert(exists|a: int|
            0 <= a < hs.len() && cell_of(#[trigger] hs[a]) == c && forall|k: int|
                0 <= k < a ==> cell_of(#[trigger] hs[k]) != c) by {
            lemma_first_occurrence(hs, c, w);
        }
        let b = choose|b: int|
            0 <= b < hs.len() && cell_of(#[trigger] hs[b]) == c && forall|k: int|
                b < k < hs.len() ==> cell_of(#[trigger] hs[k]) != c;
        assert(exists|b: int|
            0 <= b < hs.len() && cell_of(#[trigger] hs[b]) == c && forall|k: int|
                b < k < hs.len() ==> cell_of(#[trigger] hs[k]) != c) by {
            lemma_last_occurrence(hs, c, w);
        }
        assert(a <= b);
        assert forall|k: int| 0 <= k < hs.len() implies (cell_of(#[trigger] hs[k]) == c <==> a <= k
            <= b) by {
            if a <= k <= b {
                assert(cell_of(hs[a]) == cell_of(hs[b]));
            }
        }
        lemma_filter_block(hs, c, a, b);
        lemma_start_entry_block(hs, c, a, b, hs.len() as int);
        lemma_end_entry_block(hs, c, a, b, hs.len() as int);
    } else {
        lemma_start_entry_none(hs, c, hs.len() as int);
        lemma_filter_none(hs, c);
    }
}

proof fn lemma_first_occurrence(hs: Seq<u32>, c: u32, w: int)
    requires
        0 <= w < hs.len(),
        cell_of(hs[w]) == c,
    ensures
        exists|a: int|
            0 <= a < hs.len() && cell_of(#[trigger] hs[a]) == c && forall|k: int|
                0 <= k < a ==> cell_of(#[trigger] hs[k]) != c,
    decreases w,
{
    if forall|k: int| 0 <= k < w ==> cell_of(#[trigger] hs[k]) != c {
        assert(cell_of(hs[w]) == c && forall|k: int| 0 <= k < w ==> cell_of(#[trigger] hs[k]) != c);
    } else {
        let w2 = choose|k: int| 0 <= k < w && cell_of(#[trigger] hs[k]) == c;
        lemma_first_occurrence(hs, c, w2);
    }
}

proof fn lemma_last_occurrence(hs: Seq<u32>, c: u32, w: int)
    requires
        0 <= w < hs.len(),
        cell_of(hs[w]) == c,
    ensures
        exists|b: int|
            0 <= b < hs.len() && cell_of(#[trigger] hs[b]) == c && forall|k: int|
                b < k < hs.len() ==> cell_of(#[trigger] hs[k]) != c,
    decreases hs.len() - w,
{
    if forall|k: int| w < k < hs.len() ==> cell_of(#[trigger] hs[k]) != c {
        assert(cell_of(hs[w]) == c && forall|k: int|
            w < k < hs.len() ==> cell_of(#[trigger] hs[k]) != c);
    } else {
        let w2 = choose|k: int| w < k < hs.len() && cell_of(#[trigger] hs[k]) == c;
        lemma_last_occurrence(hs, c, w2);
    }
}

/// The per-cell counts of the built table, summed over cells `0 .. c`.
pub open spec fn table_total(hs: Seq<u32>, c: int) -> int
    decreases c,
{
    if c <= 0 {
        0
    } else {
        table_total(hs, c - 1) + cell_count(hs, (c - 1) as u32)
    }
}

proof fn lemma_cell_split(hs: Seq<u32>, c: int)
    requires
        1 <= c <= 65536,
    ensures
        hs.filter(cell_below_pred(c)).len() == hs.filter(cell_below_pred(c - 1)).len() + cell_count(
            hs,
            (c - 1) as u32,
        ),
    decreases hs.len(),
{
    if hs.len() == 0 {
        assert(hs.filter(cell_below_pred(c)).len() <= 0);
        assert(hs.filter(cell_below_pred(c - 1)).len() <= 0);
        assert(hs.filter(cell_pred((c - 1) as u32)).len() <= 0);
    } else {
        let dl = hs.drop_last();
        let last = hs.last();
        lemma_cell_split(dl, c);
        lemma_cell_bound(last);
        assert(hs =~= dl.push(last));
        assert(dl.push(last).filter(cell_below_pred(c)).len() == dl.filter(
            cell_below_pred(c),
        ).len() + (if cell_below_pred(c)(last) {
            1int
        } else {
            0int
        }));
        assert(dl.push(last).filter(cell_below_pred(c - 1)).len() == dl.filter(
            cell_below_pred(c - 1),
        ).len() + (if cell_below_pred(c - 1)(last) {
            1int
        } else {
            0int
        }));
        assert(dl.push(last).filter(cell_pred((c - 1) as u32)).len() == dl.filter(
            cell_pred((c - 1) as u32),
        ).len() + (if cell_pred((c - 1) as u32)(last) {
            1int
        } else {
            0int
        }));
    }
}

proof fn lemma_table_total_below(hs: Seq<u32>, c: int)
    requires
        0 <= c <= 65536,
    ensures
        table_total(hs, c) == hs.filter(cell_below_pred(c)).len(),
    decreases c,
{
    if c == 0 {
        hs.lemma_all_neg_filter_empty(cell_below_pred(0));
    } else {
        lemma_table_total_below(hs, c - 1);
        lemma_cell_split(hs, c);
    }
}

/// The `[start, end)` widths of the built table, summed over cells
/// `0 .. c`; a sentinel cell contributes nothing.
pub open spec fn table_coverage(hs: Seq<u32>, c: int) -> int
    decreases c,
{
    if c <= 0 {
        0
    } else {
        let s = start_entry(hs, (c - 1) as u32, hs.len() as int);
        let e = end_entry(hs, (c - 1) as u32, hs.len() as int);
        table_coverage(hs, c - 1) + if s == EMPTY_CELL {
            0
        } else {
            e as int - s as int
        }
    }
}

/// Cell index consistency, summed over the table itself: with equal
/// cell ids contiguous, the widths of all recorded `[start, end)`
/// ranges add up to the number of sorted entries.
pub proof fn lemma_cell_table_covers_count(hs: Seq<u32>)
    requires
        cells_clustered(hs),
        hs.len() < 0xffff_ffff,
    ensures
        table_coverage(hs, 65536) == hs.len(),
{
    lemma_table_coverage_matches_counts(hs, 65536);
    lemma_cell_index_total(hs);
}

proof fn lemma_table_coverage_matches_counts(hs: Seq<u32>, c: int)
    requires
        cells_clustered(hs),
        hs.len() < 0xffff_ffff,
        0 <= c <= 65536,
    ensures
        table_coverage(hs, c) == table_total(hs, c),
    decreases c,
{
    if c > 0 {
        lemma_table_coverage_matches_counts(hs, c - 1);
        lemma_cell_index_consistency(hs, (c - 1) as u32);
    }
}

/// Cell index consistency, summed: over all cells the per-cell counts
/// add up to the number of sorted entries.
pub proof fn lemma_cell_index_total(hs: Seq<u32>)
    ensures
        table_total(hs, 65536) == hs.len(),
{
    lemma_table_total_below(hs, 65536);
    assert forall|x: u32| #[trigger] cell_below_pred(65536)(x) by {
        lemma_cell_bound(x);
    }
    lemma_cell_filter_all(hs, cell_below_pred(65536));
}

proof fn lemma_cell_filter_all(hs: Seq<u32>, p: spec_fn(u32) -> bool)
    requires
        forall|x: u32| #[trigger] p(x),
    ensures
        hs.filter(p) == hs,
    decreases hs.len(),
{
    reveal(Seq::filter);
    if hs.len() > 0 {
        lemma_cell_filter_all(hs.drop_last(), p);
        assert(hs.filter(p) =~= hs);
    } else {
        assert(hs.filter(p) =~= hs);
    }
}

} // verus!
