//! A 4-round least-significant-digit radix sort for `(hash, index)` pairs.
//!
//! Each round handles one 8-bit window of the 32-bit Morton hash: a
//! histogram counts the 256 possible digit values, an exclusive prefix sum
//! turns the counts into starting offsets, and a scatter pass rewrites the
//! pairs into scratch buffers in digit order, preserving the relative
//! order of equal digits. Stability is what lets four byte-wise rounds
//! sort the full 32-bit key.
//!
//! The result of a round is specified as the concatenation of the 256
//! digit buckets, each bucket being the subsequence of pairs carrying that
//! digit; everything else — that a round permutes its input, that four
//! rounds sort — is proved from that single description.

use vstd::multiset::Multiset;
use vstd::prelude::*;

use crate::pipeline::DescriptorCache;
use crate::store::Particles;

verus! {

broadcast use {
    vstd::seq_lib::group_seq_properties,
    vstd::seq_lib::group_filter_ensures,
    Seq::<(u32, u32)>::lemma_filter_len_push,
    Seq::<(u32, u32)>::lemma_filter_push,
    Seq::<(u32, u32)>::lemma_take_succ_push,
    vstd::multiset::group_multiset_axioms,
};

/// The number of distinct 8-bit digit values.
pub const RADIX: usize = 256;

/// True for the four window offsets a 32-bit key is split into.
pub open spec fn valid_shift(shift: u32) -> bool {
    shift == 0 || shift == 8 || shift == 16 || shift == 24
}

/// The 8-bit digit of `k` selected by `shift`.
pub open spec fn digit_of(k: u32, shift: u32) -> u32
    recommends
        valid_shift(shift),
{
    (k >> shift) & 0xff
}

/// The low `bits` bits of `k`, widened to 64 bits.
pub open spec fn low_bits(k: u32, bits: u32) -> u64
    recommends
        bits <= 32,
{
    (k as u64) & (((1u64 << bits) - 1) as u64)
}

/// The pairs whose key digit at `shift` equals `d`.
pub open spec fn digit_pred(shift: u32, d: u32) -> spec_fn((u32, u32)) -> bool {
    |p: (u32, u32)| digit_of(p.0, shift) == d
}

/// The pairs whose key digit at `shift` is below `d`.
pub open spec fn below_pred(shift: u32, d: int) -> spec_fn((u32, u32)) -> bool {
    |p: (u32, u32)| (digit_of(p.0, shift) as int) < d
}

/// The subsequence of `s` carrying digit `d`, in input order.
pub open spec fn bucket(s: Seq<(u32, u32)>, shift: u32, d: u32) -> Seq<(u32, u32)> {
    s.filter(digit_pred(shift, d))
}

/// The concatenation of the buckets for digits `0 .. d`.
pub open spec fn buckets_concat(s: Seq<(u32, u32)>, shift: u32, d: int) -> Seq<(u32, u32)>
    decreases d,
{
    if d <= 0 {
        Seq::empty()
    } else {
        buckets_concat(s, shift, d - 1) + bucket(s, shift, (d - 1) as u32)
    }
}

/// One stable counting-sort round: the input rearranged into digit order.
pub open spec fn counting_sort_spec(s: Seq<(u32, u32)>, shift: u32) -> Seq<(u32, u32)> {
    buckets_concat(s, shift, 256)
}

/// Four rounds over successive 8-bit windows: the full radix sort.
pub open spec fn radix_sort_spec(s: Seq<(u32, u32)>) -> Seq<(u32, u32)> {
    counting_sort_spec(
        counting_sort_spec(counting_sort_spec(counting_sort_spec(s, 0), 8), 16),
        24,
    )
}

/// The first `n` entries of two columns, zipped into pairs.
pub open spec fn pairs_upto(ks: Seq<u32>, vs: Seq<u32>, n: int) -> Seq<(u32, u32)>
    recommends
        0 <= n <= ks.len(),
        n <= vs.len(),
{
    Seq::new(n as nat, |i: int| (ks[i], vs[i]))
}

/// Keys are non-decreasing when compared on their low `bits` bits.
pub open spec fn sorted_low(s: Seq<(u32, u32)>, bits: u32) -> bool {
    forall|i: int, j: int|
        0 <= i <= j < s.len() ==> low_bits(#[trigger] s[i].0, bits) <= low_bits(
            #[trigger] s[j].0,
            bits,
        )
}

/// Keys are non-decreasing.
pub open spec fn sorted_pairs(s: Seq<(u32, u32)>) -> bool {
    forall|i: int, j: int| 0 <= i <= j < s.len() ==> #[trigger] s[i].0 <= #[trigger] s[j].0
}

/// A digit is always below 256.
pub proof fn lemma_digit_bound(k: u32, shift: u32)
    ensures
        digit_of(k, shift) < 256,
{
    assert((k >> shift) & 0xff < 256) by (bit_vector);
}

/// Sum of the first `d` histogram slots.
pub open spec fn hist_sum(h: Seq<u32>, d: int) -> int
    decreases d,
{
    if d <= 0 {
        0
    } else {
        hist_sum(h, d - 1) + h[d - 1]
    }
}

/// Splitting a "digit below `d`" filter at `d - 1`.
proof fn lemma_below_split(s: Seq<(u32, u32)>, shift: u32, d: int)
    requires
        1 <= d <= 256,
    ensures
        s.filter(below_pred(shift, d)).len() == s.filter(below_pred(shift, d - 1)).len() + bucket(
            s,
            shift,
            (d - 1) as u32,
        ).len(),
    decreases s.len(),
{
    if s.len() == 0 {
        assert(s.filter(below_pred(shift, d)).len() <= 0);
        assert(s.filter(below_pred(shift, d - 1)).len() <= 0);
        assert(s.filter(digit_pred(shift, (d - 1) as u32)).len() <= 0);
    } else {
        let dl = s.drop_last();
        let last = s.last();
        lemma_below_split(dl, shift, d);
        lemma_digit_bound(last.0, shift);
        assert(s =~= dl.push(last));
        assert(dl.push(last).filter(below_pred(shift, d)).len() == dl.filter(
            below_pred(shift, d),
        ).len() + (if below_pred(shift, d)(last) {
            1int
        } else {
            0int
        }));
        assert(dl.push(last).filter(below_pred(shift, d - 1)).len() == dl.filter(
            below_pred(shift, d - 1),
        ).len() + (if below_pred(shift, d - 1)(last) {
            1int
        } else {
            0int
        }));
        assert(dl.push(last).filter(digit_pred(shift, (d - 1) as u32)).len() == dl.filter(
            digit_pred(shift, (d - 1) as u32),
        ).len() + (if digit_pred(shift, (d - 1) as u32)(last) {
            1int
        } else {
            0int
        }));
    }
}

/// The concatenated buckets below `d` are exactly the pairs with digit
/// below `d`, in particular never more than all of `s`.
proof fn lemma_concat_below_len(s: Seq<(u32, u32)>, shift: u32, d: int)
    requires
        0 <= d <= 256,
    ensures
        buckets_concat(s, shift, d).len() == s.filter(below_pred(shift, d)).len(),
        buckets_concat(s, shift, d).len() <= s.len(),
    decreases d,
{
    if d == 0 {
        s.lemma_all_neg_filter_empty(below_pred(shift, 0));
    } else {
        lemma_concat_below_len(s, shift, d - 1);
        lemma_below_split(s, shift, d);
    }
}

/// With `d = 256` every pair is below `d`, so a round keeps the length.
proof fn lemma_concat_full_len(s: Seq<(u32, u32)>, shift: u32)
    ensures
        counting_sort_spec(s, shift).len() == s.len(),
{
    lemma_concat_below_len(s, shift, 256);
    assert forall|x: (u32, u32)| #[trigger] below_pred(shift, 256)(x) by {
        lemma_digit_bound(x.0, shift);
    }
    lemma_filter_all_true(s, below_pred(shift, 256));
}

/// How often a pair occurs in one bucket: as often as in `s` when its
/// digit matches, else not at all.
proof fn lemma_bucket_count(s: Seq<(u32, u32)>, shift: u32, d: u32, p: (u32, u32))
    ensures
        bucket(s, shift, d).to_multiset().count(p) == if digit_of(p.0, shift) == d {
            s.to_multiset().count(p)
        } else {
            0
        },
    decreases s.len(),
{
    broadcast use Seq::<(u32, u32)>::to_multiset_ensures;

    reveal(Seq::filter);
    if s.len() == 0 {
        assert(s.to_multiset() =~= Multiset::empty());
        assert(bucket(s, shift, d).to_multiset() =~= Multiset::empty());
    } else {
        let dl = s.drop_last();
        let last = s.last();
        lemma_bucket_count(dl, shift, d, p);
        assert(s =~= dl.push(last));
        assert(s.to_multiset() == dl.to_multiset().insert(last));
        if digit_pred(shift, d)(last) {
            assert(bucket(s, shift, d) == bucket(dl, shift, d).push(last));
        } else {
            assert(bucket(s, shift, d) == bucket(dl, shift, d));
        }
    }
}

/// How often a pair occurs in the buckets below `d`.
proof fn lemma_concat_count(s: Seq<(u32, u32)>, shift: u32, d: int, p: (u32, u32))
    requires
        0 <= d <= 256,
    ensures
        buckets_concat(s, shift, d).to_multiset().count(p) == if (digit_of(p.0, shift) as int)
            < d {
            s.to_multiset().count(p)
        } else {
            0
        },
    decreases d,
{
    broadcast use Seq::<(u32, u32)>::to_multiset_ensures;

    if d == 0 {
        assert(buckets_concat(s, shift, 0).to_multiset() =~= Multiset::empty());
    } else {
        let prev = buckets_concat(s, shift, d - 1);
        let bkt = bucket(s, shift, (d - 1) as u32);
        lemma_concat_count(s, shift, d - 1, p);
        lemma_bucket_count(s, shift, (d - 1) as u32, p);
        lemma_digit_bound(p.0, shift);
        vstd::seq_lib::lemma_multiset_commutative(prev, bkt);
        assert(buckets_concat(s, shift, d) == prev + bkt);
        assert((prev + bkt).to_multiset().count(p) == prev.to_multiset().count(p)
            + bkt.to_multiset().count(p));
    }
}

/// A counting-sort round permutes its input: same pairs, same counts.
pub proof fn lemma_counting_sort_permutes(s: Seq<(u32, u32)>, shift: u32)
    ensures
        counting_sort_spec(s, shift).to_multiset() == s.to_multiset(),
        counting_sort_spec(s, shift).len() == s.len(),
{
    lemma_concat_full_len(s, shift);
    assert forall|p: (u32, u32)|
        counting_sort_spec(s, shift).to_multiset().count(p) == s.to_multiset().count(
            p,
        ) by {
        lemma_digit_bound(p.0, shift);
        lemma_concat_count(s, shift, 256, p);
    }
    assert(counting_sort_spec(s, shift).to_multiset() =~= s.to_multiset());
}

/// The whole radix sort permutes its input.
pub proof fn lemma_radix_sort_permutes(s: Seq<(u32, u32)>)
    ensures
        radix_sort_spec(s).to_multiset() == s.to_multiset(),
        radix_sort_spec(s).len() == s.len(),
{
    let s1 = counting_sort_spec(s, 0);
    let s2 = counting_sort_spec(s1, 8);
    let s3 = counting_sort_spec(s2, 16);
    lemma_counting_sort_permutes(s, 0);
    lemma_counting_sort_permutes(s1, 8);
    lemma_counting_sort_permutes(s2, 16);
    lemma_counting_sort_permutes(s3, 24);
    broadcast use Seq::<(u32, u32)>::to_multiset_ensures;

}

/// Ordering facts connecting a digit window to the low-bit prefixes on
/// either side of it.
proof fn lemma_digit_orders(a: u32, b: u32, shift: u32)
    requires
        valid_shift(shift),
    ensures
        digit_of(a, shift) < digit_of(b, shift) ==> low_bits(a, (shift + 8) as u32) < low_bits(
            b,
            (shift + 8) as u32,
        ),
        digit_of(a, shift) == digit_of(b, shift) && low_bits(a, shift) <= low_bits(b, shift)
            ==> low_bits(a, (shift + 8) as u32) <= low_bits(b, (shift + 8) as u32),
{
    if shift == 0 {
        assert(((a >> 0u32) & 0xff < (b >> 0u32) & 0xff ==> (a as u64) & (((1u64 << 8u32) - 1) as u64)
            < (b as u64) & (((1u64 << 8u32) - 1) as u64)) && ((a >> 0u32) & 0xff == (b >> 0u32) & 0xff
            && (a as u64) & (((1u64 << 0u32) - 1) as u64) <= (b as u64) & (((1u64 << 0u32) - 1) as u64) ==> (
        a as u64) & (((1u64 << 8u32) - 1) as u64) <= (b as u64) & (((1u64 << 8u32) - 1) as u64))) by (bit_vector);
    } else if shift == 8 {
        assert(((a >> 8u32) & 0xff < (b >> 8u32) & 0xff ==> (a as u64) & (((1u64 << 16u32) - 1) as u64)
            < (b as u64) & (((1u64 << 16u32) - 1) as u64)) && ((a >> 8u32) & 0xff == (b >> 8u32) & 0xff
            && (a as u64) & (((1u64 << 8u32) - 1) as u64) <= (b as u64) & (((1u64 << 8u32) - 1) as u64) ==> (
        a as u64) & (((1u64 << 16u32) - 1) as u64) <= (b as u64) & (((1u64 << 16u32) - 1) as u64))) by (bit_vector);
    } else if shift == 16 {
        assert(((a >> 16u32) & 0xff < (b >> 16u32) & 0xff ==> (a as u64) & (((1u64 << 24u32) - 1) as u64)
            < (b as u64) & (((1u64 << 24u32) - 1) as u64)) && ((a >> 16u32) & 0xff == (b >> 16u32) & 0xff
            && (a as u64) & (((1u64 << 16u32) - 1) as u64) <= (b as u64) & (((1u64 << 16u32) - 1) as u64) ==> (
        a as u64) & (((1u64 << 24u32) - 1) as u64) <= (b as u64) & (((1u64 << 24u32) - 1) as u64))) by (bit_vector);
    } else {
        assert(((a >> 24u32) & 0xff < (b >> 24u32) & 0xff ==> (a as u64) & (((1u64 << 32u32) - 1) as u64)
            < (b as u64) & (((1u64 << 32u32) - 1) as u64)) && ((a >> 24u32) & 0xff == (b >> 24u32) & 0xff
            && (a as u64) & (((1u64 << 24u32) - 1) as u64) <= (b as u64) & (((1u64 << 24u32) - 1) as u64) ==> (
        a as u64) & (((1u64 << 32u32) - 1) as u64) <= (b as u64) & (((1u64 << 32u32) - 1) as u64))) by (bit_vector);
    }
}

/// Every element of a filtered sequence occurs in the original.
proof fn lemma_filter_element_in(s: Seq<(u32, u32)>, p: spec_fn((u32, u32)) -> bool, i: int)
    requires
        0 <= i < s.filter(p).len(),
    ensures
        s.contains(s.filter(p)[i]),
    decreases s.len(),
{
    reveal(Seq::filter);
    broadcast use Seq::<(u32, u32)>::to_multiset_ensures;

    if s.len() > 0 {
        let dl = s.drop_last();
        if i < dl.filter(p).len() {
            lemma_filter_element_in(dl, p, i);
            let e = dl.filter(p)[i];
            let j = choose|j: int| 0 <= j < dl.len() && dl[j] == e;
            assert(s[j] == e);
        } else {
            assert(s.filter(p)[i] == s.last());
        }
    }
}

/// Filtering keeps a low-bit sorted sequence sorted.
proof fn lemma_bucket_keeps_sorted(s: Seq<(u32, u32)>, shift: u32, d: u32, bits: u32)
    requires
        sorted_low(s, bits),
    ensures
        sorted_low(bucket(s, shift, d), bits),
    decreases s.len(),
{
    reveal(Seq::filter);
    if s.len() > 0 {
        let dl = s.drop_last();
        let last = s.last();
        assert(sorted_low(dl, bits));
        lemma_bucket_keeps_sorted(dl, shift, d, bits);
        if digit_pred(shift, d)(last) {
            let b = bucket(dl, shift, d).push(last);
            assert forall|i: int, j: int| 0 <= i <= j < b.len() implies low_bits(
                #[trigger] b[i].0,
                bits,
            ) <= low_bits(#[trigger] b[j].0, bits) by {
                if j < b.len() - 1 {
                    assert(sorted_low(bucket(dl, shift, d), bits));
                } else if i < b.len() - 1 {
                    lemma_filter_element_in(dl, digit_pred(shift, d), i);
                    let e = bucket(dl, shift, d)[i];
                    let k = choose|k: int| 0 <= k < dl.len() && dl[k] == e;
                    assert(low_bits(s[k].0, bits) <= low_bits(s[s.len() - 1].0, bits));
                }
            }
        }
    }
}

/// The concatenated buckets are sorted on the widened prefix, and every
/// element below `d` carries a digit below `d`.
proof fn lemma_concat_sorted(s: Seq<(u32, u32)>, shift: u32, d: int)
    requires
        valid_shift(shift),
        sorted_low(s, shift),
        0 <= d <= 256,
    ensures
        sorted_low(buckets_concat(s, shift, d), (shift + 8) as u32),
        forall|i: int|
            0 <= i < buckets_concat(s, shift, d).len() ==> (digit_of(
                #[trigger] buckets_concat(s, shift, d)[i].0,
                shift,
            ) as int) < d,
    decreases d,
{
    if d > 0 {
        let prev = buckets_concat(s, shift, d - 1);
        let bkt = bucket(s, shift, (d - 1) as u32);
        let cur = buckets_concat(s, shift, d);
        lemma_concat_sorted(s, shift, d - 1);
        lemma_bucket_keeps_sorted(s, shift, (d - 1) as u32, shift);
        assert forall|i: int| 0 <= i < cur.len() implies (digit_of(
            #[trigger] cur[i].0,
            shift,
        ) as int) < d by {
            if i < prev.len() {
                assert(cur[i] == prev[i]);
            } else {
                assert(cur[i] == bkt[i - prev.len()]);
                assert(digit_pred(shift, (d - 1) as u32)(bkt[i - prev.len()]));
            }
        }
        assert forall|i: int, j: int| 0 <= i <= j < cur.len() implies low_bits(
            #[trigger] cur[i].0,
            (shift + 8) as u32,
        ) <= low_bits(#[trigger] cur[j].0, (shift + 8) as u32) by {
            lemma_digit_orders(cur[i].0, cur[j].0, shift);
            if j < prev.len() {
                assert(cur[i] == prev[i] && cur[j] == prev[j]);
            } else if i >= prev.len() {
                assert(cur[i] == bkt[i - prev.len()] && cur[j] == bkt[j - prev.len()]);
                assert(digit_pred(shift, (d - 1) as u32)(bkt[i - prev.len()]));
                assert(digit_pred(shift, (d - 1) as u32)(bkt[j - prev.len()]));
                assert(low_bits(bkt[i - prev.len()].0, shift) <= low_bits(
                    bkt[j - prev.len()].0,
                    shift,
                ));
            } else {
                assert(cur[i] == prev[i]);
                assert(cur[j] == bkt[j - prev.len()]);
                assert(digit_pred(shift, (d - 1) as u32)(bkt[j - prev.len()]));
                assert((digit_of(prev[i].0, shift) as int) < d - 1);
            }
        }
    }
}

/// An empty prefix and a full key are the two ends of the low-bit order.
proof fn lemma_low_bits_ends(a: u32, b: u32)
    ensures
        low_bits(a, 0) <= low_bits(b, 0),
        low_bits(a, 32) <= low_bits(b, 32) ==> a <= b,
{
    assert((a as u64) & (((1u64 << 0u32) - 1) as u64) == 0 && (b as u64) & (((1u64 << 0u32) - 1) as u64) == 0)
        by (bit_vector);
    assert((a as u64) & (((1u64 << 32u32) - 1) as u64) == a as u64 && (b as u64) & (((1u64 << 32u32) - 1) as u64)
        == b as u64) by (bit_vector);
}

/// Four stable byte rounds sort the full 32-bit keys.
pub proof fn lemma_radix_sort_sorts(s: Seq<(u32, u32)>)
    ensures
        sorted_pairs(radix_sort_spec(s)),
{
    let s1 = counting_sort_spec(s, 0);
    let s2 = counting_sort_spec(s1, 8);
    let s3 = counting_sort_spec(s2, 16);
    let s4 = counting_sort_spec(s3, 24);
    assert(sorted_low(s, 0)) by {
        assert forall|i: int, j: int| 0 <= i <= j < s.len() implies low_bits(
            #[trigger] s[i].0,
            0,
        ) <= low_bits(#[trigger] s[j].0, 0) by {
            lemma_low_bits_ends(s[i].0, s[j].0);
        }
    }
    lemma_concat_sorted(s, 0, 256);
    lemma_concat_sorted(s1, 8, 256);
    lemma_concat_sorted(s2, 16, 256);
    lemma_concat_sorted(s3, 24, 256);
    assert forall|i: int, j: int| 0 <= i <= j < s4.len() implies #[trigger] s4[i].0
        <= #[trigger] s4[j].0 by {
        assert(low_bits(s4[i].0, 32) <= low_bits(s4[j].0, 32));
        lemma_low_bits_ends(s4[i].0, s4[j].0);
    }
}

proof fn lemma_filter_all_true(s: Seq<(u32, u32)>, p: spec_fn((u32, u32)) -> bool)
    requires
        forall|x: (u32, u32)| #[trigger] p(x),
    ensures
        s.filter(p) == s,
    decreases s.len(),
{
    reveal(Seq::filter);
    if s.len() > 0 {
        lemma_filter_all_true(s.drop_last(), p);
        assert(s.filter(p) =~= s);
    } else {
        assert(s.filter(p) =~= s);
    }
}

/// Bucket lengths accumulate into concatenation lengths.
proof fn lemma_hist_sum_is_concat_len(h: Seq<u32>, s: Seq<(u32, u32)>, shift: u32, d: int)
    requires
        h.len() == 256,
        0 <= d <= 256,
        forall|e: int| 0 <= e < 256 ==> #[trigger] h[e] as int == bucket(s, shift, e as u32).len(),
    ensures
        hist_sum(h, d) == buckets_concat(s, shift, d).len(),
    decreases d,
{
    if d > 0 {
        lemma_hist_sum_is_concat_len(h, s, shift, d - 1);
    }
}

/// Prefix sums of nonnegative slots are monotone.
proof fn lemma_hist_sum_monotone(h: Seq<u32>, d1: int, d2: int)
    requires
        0 <= d1 <= d2 <= h.len(),
    ensures
        hist_sum(h, d1) <= hist_sum(h, d2),
    decreases d2,
{
    if d1 < d2 {
        lemma_hist_sum_monotone(h, d1, d2 - 1);
    }
}

/// Longer bucket concatenations are never shorter.
proof fn lemma_concat_len_monotone(s: Seq<(u32, u32)>, shift: u32, d1: int, d2: int)
    requires
        0 <= d1 <= d2,
    ensures
        buckets_concat(s, shift, d1).len() <= buckets_concat(s, shift, d2).len(),
    decreases d2,
{
    if d1 < d2 {
        lemma_concat_len_monotone(s, shift, d1, d2 - 1);
    }
}

/// Counts how many keys among the first `count` carry each digit value.
///
/// `vals` is the index column riding along with the keys; the counts do
/// not depend on it, but the contract speaks of the pairs that the
/// scatter pass will move.
pub fn radix_histogram(
    keys: &Vec<u32>,
    vals: &Vec<u32>,
    count: usize,
    shift: u32,
    hist: &mut Vec<u32>,
)
    requires
        valid_shift(shift),
        count <= keys@.len(),
        count <= vals@.len(),
        count <= u32::MAX as usize,
        old(hist)@.len() == 256,
    ensures
        final(hist)@.len() == 256,
        forall|d: int|
            0 <= d < 256 ==> #[trigger] final(hist)@[d] as int == bucket(
                pairs_upto(keys@, vals@, count as int),
                shift,
                d as u32,
            ).len(),
{
    let ghost s = pairs_upto(keys@, vals@, count as int);
    let mut d: usize = 0;
    while d < RADIX
        invariant
            d <= 256,
            hist@.len() == 256,
            forall|e: int| 0 <= e < d ==> #[trigger] hist@[e] == 0,
        decreases 256 - d,
    {
        hist[d] = 0;
        d += 1;
    }
    proof {
        assert forall|e: int| 0 <= e < 256 implies #[trigger] hist@[e] as int == bucket(
            s.take(0),
            shift,
            e as u32,
        ).len() by {
            assert(s.take(0) =~= Seq::empty());
            assert(bucket(s.take(0), shift, e as u32).len() <= 0);
        }
    }
    let mut i: usize = 0;
    while i < count
        invariant
            valid_shift(shift),
            i <= count,
            count <= keys@.len(),
            count <= vals@.len(),
            count <= u32::MAX as usize,
            hist@.len() == 256,
            s == pairs_upto(keys@, vals@, count as int),
            forall|e: int|
                0 <= e < 256 ==> #[trigger] hist@[e] as int == bucket(
                    s.take(i as int),
                    shift,
                    e as u32,
                ).len(),
        decreases count - i,
    {
        let k: u32 = keys[i];
        let dd: usize = ((k >> shift) & 0xff) as usize;
        proof {
            lemma_digit_bound(k, shift);
            let si = s.take(i as int);
            let sj = s.take(i + 1);
            assert(s[i as int] == (keys@[i as int], vals@[i as int]));
            assert(sj =~= si.push(s[i as int]));
            assert forall|e: int| 0 <= e < 256 implies #[trigger] bucket(sj, shift, e as u32).len()
                == bucket(si, shift, e as u32).len() + (if e == dd {
                1int
            } else {
                0int
            }) by {
                assert(si.push(s[i as int]).filter(digit_pred(shift, e as u32)).len() == si.filter(
                    digit_pred(shift, e as u32),
                ).len() + (if digit_pred(shift, e as u32)(s[i as int]) {
                    1int
                } else {
                    0int
                }));
            }
            assert(bucket(si, shift, dd as u32).len() <= si.len());
        }
        let c: u32 = hist[dd];
        hist[dd] = c + 1;
        i += 1;
    }
    proof {
        assert(s.take(count as int) =~= s);
    }
}

/// Exclusive prefix sums over the 256 histogram slots: each digit's
/// starting offset in the scattered output.
pub fn radix_prefix_sums(hist: &Vec<u32>, prefix: &mut Vec<u32>)
    requires
        hist@.len() == 256,
        old(prefix)@.len() == 256,
        hist_sum(hist@, 256) <= u32::MAX as int,
    ensures
        final(prefix)@.len() == 256,
        forall|d: int| 0 <= d < 256 ==> #[trigger] final(prefix)@[d] as int == hist_sum(hist@, d),
{
    let mut acc: u32 = 0;
    let mut d: usize = 0;
    while d < RADIX
        invariant
            d <= 256,
            hist@.len() == 256,
            prefix@.len() == 256,
            hist_sum(hist@, 256) <= u32::MAX as int,
            acc as int == hist_sum(hist@, d as int),
            forall|e: int| 0 <= e < d ==> #[trigger] prefix@[e] as int == hist_sum(hist@, e),
        decreases 256 - d,
    {
        prefix[d] = acc;
        proof {
            lemma_hist_sum_monotone(hist@, d + 1, 256);
        }
        acc = acc + hist[d];
        d += 1;
    }
}

/// Pairs of two equally long columns.
pub open spec fn col_pairs(ks: Seq<u32>, vs: Seq<u32>) -> Seq<(u32, u32)> {
    pairs_upto(ks, vs, ks.len() as int)
}

/// A fully scattered output assembles into the bucket concatenation.
proof fn lemma_scatter_assemble(
    pout: Seq<(u32, u32)>,
    s: Seq<(u32, u32)>,
    shift: u32,
    offs: Seq<u32>,
    d: int,
)
    requires
        0 <= d <= 256,
        offs.len() == 256,
        s.len() <= pout.len(),
        forall|e: int|
            0 <= e < 256 ==> #[trigger] offs[e] as int == buckets_concat(s, shift, e).len(),
        forall|e: int|
            0 <= e < 256 ==> pout.subrange(
                #[trigger] offs[e] as int,
                offs[e] as int + bucket(s, shift, e as u32).len() as int,
            ) == bucket(s, shift, e as u32),
    ensures
        pout.take(buckets_concat(s, shift, d).len() as int) == buckets_concat(s, shift, d),
    decreases d,
{
    if d == 0 {
        assert(pout.take(0) =~= buckets_concat(s, shift, 0));
    } else {
        lemma_scatter_assemble(pout, s, shift, offs, d - 1);
        lemma_concat_below_len(s, shift, d);
        let a = buckets_concat(s, shift, d - 1).len() as int;
        let b = buckets_concat(s, shift, d).len() as int;
        assert(b == a + bucket(s, shift, (d - 1) as u32).len());
        assert(offs[d - 1] as int == a);
        assert(pout.subrange(a, b) == bucket(s, shift, (d - 1) as u32));
        assert(pout.take(b) =~= pout.take(a) + pout.subrange(a, b));
        assert(pout.take(b) =~= buckets_concat(s, shift, d));
    }
}

/// One scatter pass: rewrites the first `count` pairs into the scratch
/// columns at their digit's offset, preserving the order of equal digits.
pub fn radix_scatter(
    keys_in: &Vec<u32>,
    vals_in: &Vec<u32>,
    count: usize,
    shift: u32,
    prefix: &Vec<u32>,
    keys_out: &mut Vec<u32>,
    vals_out: &mut Vec<u32>,
)
    requires
        valid_shift(shift),
        count <= keys_in@.len(),
        count <= vals_in@.len(),
        count <= u32::MAX as usize,
        count <= old(keys_out)@.len(),
        old(keys_out)@.len() == old(vals_out)@.len(),
        prefix@.len() == 256,
        forall|d: int|
            0 <= d < 256 ==> #[trigger] prefix@[d] as int == buckets_concat(
                pairs_upto(keys_in@, vals_in@, count as int),
                shift,
                d,
            ).len(),
    ensures
        final(keys_out)@.len() == old(keys_out)@.len(),
        final(vals_out)@.len() == old(vals_out)@.len(),
        pairs_upto(final(keys_out)@, final(vals_out)@, count as int) == counting_sort_spec(
            pairs_upto(keys_in@, vals_in@, count as int),
            shift,
        ),
{
    let ghost s = pairs_upto(keys_in@, vals_in@, count as int);
    let mut cursors: Vec<u32> = Vec::new();
    let mut d: usize = 0;
    while d < RADIX
        invariant
            d <= 256,
            prefix@.len() == 256,
            cursors@.len() == d,
            forall|e: int| 0 <= e < d ==> #[trigger] cursors@[e] == prefix@[e],
        decreases 256 - d,
    {
        cursors.push(prefix[d]);
        d += 1;
    }
    proof {
        assert forall|e: int| 0 <= e < 256 implies col_pairs(keys_out@, vals_out@).subrange(
            #[trigger] prefix@[e] as int,
            cursors@[e] as int,
        ) == bucket(s.take(0), shift, e as u32) by {
            lemma_concat_below_len(s, shift, e);
            assert(prefix@[e] as int <= s.len());
            assert(s.take(0) =~= Seq::<(u32, u32)>::empty());
            assert(bucket(s.take(0), shift, e as u32).len() <= 0);
            assert(col_pairs(keys_out@, vals_out@).subrange(
                prefix@[e] as int,
                cursors@[e] as int,
            ) =~= bucket(s.take(0), shift, e as u32));
        }
        lemma_concat_full_len(s, shift);
    }
    let mut i: usize = 0;
    while i < count
        invariant
            valid_shift(shift),
            i <= count,
            count <= keys_in@.len(),
            count <= vals_in@.len(),
            count <= u32::MAX as usize,
            count <= keys_out@.len(),
            keys_out@.len() == old(keys_out)@.len(),
            vals_out@.len() == old(vals_out)@.len(),
            keys_out@.len() == vals_out@.len(),
            prefix@.len() == 256,
            cursors@.len() == 256,
            s == pairs_upto(keys_in@, vals_in@, count as int),
            s.len() == count,
            counting_sort_spec(s, shift).len() == count,
            forall|e: int|
                0 <= e < 256 ==> #[trigger] prefix@[e] as int == buckets_concat(
                    s,
                    shift,
                    e,
                ).len(),
            forall|e: int|
                0 <= e < 256 ==> #[trigger] cursors@[e] as int == prefix@[e] as int + bucket(
                    s.take(i as int),
                    shift,
                    e as u32,
                ).len(),
            forall|e: int|
                0 <= e < 256 ==> col_pairs(keys_out@, vals_out@).subrange(
                    #[trigger] prefix@[e] as int,
                    cursors@[e] as int,
                ) == bucket(s.take(i as int), shift, e as u32),
        decreases count - i,
    {
        let k: u32 = keys_in[i];
        let v: u32 = vals_in[i];
        let dd: usize = ((k >> shift) & 0xff) as usize;
        proof {
            lemma_digit_bound(k, shift);
            let si = s.take(i as int);
            let sj = s.take(i + 1);
            assert(s[i as int] == (keys_in@[i as int], vals_in@[i as int]));
            assert(sj =~= si.push(s[i as int]));
            assert forall|e: int| 0 <= e < 256 implies #[trigger] bucket(sj, shift, e as u32).len()
                == bucket(si, shift, e as u32).len() + (if e == dd {
                1int
            } else {
                0int
            }) by {
                assert(si.push(s[i as int]).filter(digit_pred(shift, e as u32)).len() == si.filter(
                    digit_pred(shift, e as u32),
                ).len() + (if digit_pred(shift, e as u32)(s[i as int]) {
                    1int
                } else {
                    0int
                }));
            }
            s.lemma_filter_take_len(digit_pred(shift, dd as u32), i + 1);
            lemma_concat_below_len(s, shift, dd + 1);
            assert((cursors@[dd as int] as int) < (prefix@[dd as int] as int) + bucket(
                s,
                shift,
                dd as u32,
            ).len());
            assert(prefix@[dd as int] as int + bucket(s, shift, dd as u32).len()
                == buckets_concat(s, shift, dd + 1).len());
        }
        let ghost pre_cursors = cursors@;
        let ghost old_keys = keys_out@;
        let ghost old_vals = vals_out@;
        let pos: usize = cursors[dd] as usize;
        keys_out[pos] = k;
        vals_out[pos] = v;
        let c: u32 = cursors[dd];
        cursors[dd] = c + 1;
        i += 1;
        proof {
            let si = s.take(i - 1);
            let sj = s.take(i as int);
            let colp = col_pairs(keys_out@, vals_out@);
            let cold = col_pairs(old_keys, old_vals);
            assert(colp =~= cold.update(pos as int, (k, v)));
            assert(cursors@ =~= pre_cursors.update(dd as int, (c + 1) as u32));
            assert(sj =~= si.push((k, v)));
            assert(pos as int == (prefix@[dd as int] as int) + bucket(si, shift, dd as u32).len());
            assert(pos + 1 <= buckets_concat(s, shift, dd + 1).len());
            assert forall|e: int| 0 <= e < 256 implies colp.subrange(
                #[trigger] prefix@[e] as int,
                cursors@[e] as int,
            ) == bucket(sj, shift, e as u32) by {
                lemma_concat_below_len(s, shift, e);
                lemma_concat_below_len(s, shift, e + 1);
                s.lemma_filter_take_len(digit_pred(shift, e as u32), i - 1);
                assert((pre_cursors[e] as int) <= (prefix@[e] as int) + bucket(
                    s,
                    shift,
                    e as u32,
                ).len());
                assert((prefix@[e] as int) + bucket(s, shift, e as u32).len() == buckets_concat(
                    s,
                    shift,
                    e + 1,
                ).len());
                assert(pre_cursors[e] as int <= count as int);
                if e == dd {
                    assert(digit_pred(shift, e as u32)((k, v)));
                    assert(bucket(sj, shift, e as u32) == bucket(si, shift, e as u32).push(
                        (k, v),
                    ));
                    assert(cold.subrange(prefix@[e] as int, pos as int) == bucket(
                        si,
                        shift,
                        e as u32,
                    ));
                    assert(cursors@[e] as int == pos + 1);
                    assert(colp.subrange(prefix@[e] as int, cursors@[e] as int) =~= cold.subrange(
                        prefix@[e] as int,
                        pos as int,
                    ).push((k, v)));
                } else {
                    assert(!digit_pred(shift, e as u32)((k, v)));
                    assert(bucket(sj, shift, e as u32) == bucket(si, shift, e as u32));
                    assert(cursors@[e] == pre_cursors[e]);
                    if e < dd {
                        lemma_concat_len_monotone(s, shift, e + 1, dd as int);
                        assert((pre_cursors[e] as int) <= (prefix@[e] as int) + bucket(
                            s,
                            shift,
                            e as u32,
                        ).len());
                        assert((pre_cursors[e] as int) <= (prefix@[dd as int] as int));
                        assert((pre_cursors[e] as int) <= pos as int);
                    } else {
                        lemma_concat_len_monotone(s, shift, dd + 1, e);
                        assert((pos as int) < (prefix@[e] as int));
                    }
                    assert(colp.subrange(prefix@[e] as int, cursors@[e] as int) =~= cold.subrange(
                        prefix@[e] as int,
                        pre_cursors[e] as int,
                    ));
                }
            }
        }
    }
    proof {
        assert(s.take(count as int) =~= s);
        let colp = col_pairs(keys_out@, vals_out@);
        assert forall|e: int| 0 <= e < 256 implies colp.subrange(
            #[trigger] cursors@[e] as int - bucket(s, shift, e as u32).len(),
            cursors@[e] as int,
        ) == bucket(s, shift, e as u32) by {}
        lemma_scatter_assemble(colp, s, shift, prefix@, 256);
        lemma_concat_full_len(s, shift);
        assert(pairs_upto(keys_out@, vals_out@, count as int) =~= colp.take(count as int));
    }
}

/// One complete counting-sort round: histogram, exclusive prefix sum,
/// stable scatter into the scratch columns, each dispatch framed by its
/// own constant block.
pub fn counting_sort_round(
    keys_in: &Vec<u32>,
    vals_in: &Vec<u32>,
    hist_constants: RadixSortCountConstants,
    prefix_constants: PrefixSumConstants,
    sort_constants: RadixSortConstants,
    hist: &mut Vec<u32>,
    prefix: &mut Vec<u32>,
    keys_out: &mut Vec<u32>,
    vals_out: &mut Vec<u32>,
)
    requires
        valid_shift(hist_constants.shift_bits),
        sort_constants.shift_bits == hist_constants.shift_bits,
        sort_constants.num_particles == hist_constants.num_particles,
        prefix_constants.total_bins == 256,
        hist_constants.num_particles as int <= keys_in@.len(),
        hist_constants.num_particles as int <= vals_in@.len(),
        hist_constants.num_particles as int <= old(keys_out)@.len(),
        old(keys_out)@.len() == old(vals_out)@.len(),
        old(hist)@.len() == 256,
        old(prefix)@.len() == 256,
    ensures
        final(hist)@.len() == 256,
        final(prefix)@.len() == 256,
        final(keys_out)@.len() == old(keys_out)@.len(),
        final(vals_out)@.len() == old(vals_out)@.len(),
        pairs_upto(
            final(keys_out)@,
            final(vals_out)@,
            hist_constants.num_particles as int,
        ) == counting_sort_spec(
            pairs_upto(keys_in@, vals_in@, hist_constants.num_particles as int),
            hist_constants.shift_bits,
        ),
{
    let count: usize = hist_constants.num_particles as usize;
    let shift: u32 = hist_constants.shift_bits;
    let ghost s = pairs_upto(keys_in@, vals_in@, count as int);
    radix_histogram(keys_in, vals_in, count, shift, hist);
    proof {
        lemma_hist_sum_is_concat_len(hist@, s, shift, 256);
        lemma_concat_full_len(s, shift);
    }
    radix_prefix_sums(hist, prefix);
    proof {
        assert forall|d: int| 0 <= d < 256 implies #[trigger] prefix@[d] as int == buckets_concat(
            s,
            shift,
            d,
        ).len() by {
            lemma_hist_sum_is_concat_len(hist@, s, shift, d);
        }
    }
    radix_scatter(keys_in, vals_in, count, shift, prefix, keys_out, vals_out);
}

/// The scalar constants of one histogram dispatch.
#[derive(Clone, Copy, Debug, PartialEq, Eq, Structural)]
pub struct RadixSortCountConstants {
    pub num_particles: u32,
    pub shift_bits: u32,
    pub num_work_groups: u32,
    pub num_blocks_per_work_group: u32,
}

impl RadixSortCountConstants {
    /// Packs the dispatch constants.
    pub fn new(
        num_particles: u32,
        shift_bits: u32,
        num_work_groups: u32,
        num_blocks_per_work_group: u32,
    ) -> (c: RadixSortCountConstants)
        ensures
            c == (RadixSortCountConstants {
                num_particles,
                shift_bits,
                num_work_groups,
                num_blocks_per_work_group,
            }),
    {
        RadixSortCountConstants { num_particles, shift_bits, num_work_groups, num_blocks_per_work_group }
    }
}

/// The scalar constants of one prefix-sum dispatch.
#[derive(Clone, Copy, Debug, PartialEq, Eq, Structural)]
pub struct PrefixSumConstants {
    pub num_work_groups: u32,
    pub total_bins: u32,
}

impl PrefixSumConstants {
    /// Packs the dispatch constants.
    pub fn new(num_work_groups: u32, total_bins: u32) -> (c: PrefixSumConstants)
        ensures
            c == (PrefixSumConstants { num_work_groups, total_bins }),
    {
        PrefixSumConstants { num_work_groups, total_bins }
    }
}

/// The scalar constants of one scatter dispatch.
#[derive(Clone, Copy, Debug, PartialEq, Eq, Structural)]
pub struct RadixSortConstants {
    pub num_particles: u32,
    pub shift_bits: u32,
    pub num_work_groups: u32,
    pub num_blocks_per_work_group: u32,
}

impl RadixSortConstants {
    /// Packs the dispatch constants.
    pub fn new(
        num_particles: u32,
        shift_bits: u32,
        num_work_groups: u32,
        num_blocks_per_work_group: u32,
    ) -> (c: RadixSortConstants)
        ensures
            c == (RadixSortConstants {
                num_particles,
                shift_bits,
                num_work_groups,
                num_blocks_per_work_group,
            }),
    {
        RadixSortConstants { num_particles, shift_bits, num_work_groups, num_blocks_per_work_group }
    }
}

/// The sort engine: three dispatches per round, four rounds per sort.
pub struct RadixSortSystem {
    /// Frames the work distribution: with few particles one thread per
    /// element, with many a fixed thread count handling several each.
    /// Either shape sorts the same; only scheduling differs.
    pub small_batch_threshold: u32,
}

impl RadixSortSystem {
    /// Builds the engine with the default work-distribution threshold.
    pub fn new() -> (s: RadixSortSystem)
        ensures
            s.small_batch_threshold == 25000,
    {
        RadixSortSystem { small_batch_threshold: 25000 }
    }

    /// How many blocks each work group handles for a given count.
    pub fn blocks_per_work_group(&self, particle_count: u32) -> (b: u32)
        ensures
            particle_count < self.small_batch_threshold ==> b as int == (particle_count as int
                + 255) / 256,
            particle_count >= self.small_batch_threshold ==> b as int == (particle_count as int
                + 1023) / 1024,
    {
        if particle_count < self.small_batch_threshold {
            ((particle_count as u64 + 255) / 256) as u32
        } else {
            ((particle_count as u64 + 1023) / 1024) as u32
        }
    }

    /// Sorts the live `(hash, index)` pairs by hash: four rounds of
    /// 8-bit counting sort, swapping the primary and scratch buffers
    /// after each round and invalidating every cached binding, since the
    /// underlying buffer identities changed.
    ///
    /// After the four rounds (an even number) the sorted data lies in
    /// the primary buffers: the hashes are non-decreasing and the pairs
    /// are a permutation of what was there before.
    pub fn sort_morton_codes(
        &mut self,
        particles: &mut Particles,
        cache: &mut DescriptorCache,
    )
        requires
            old(particles).wf(),
            old(cache).wf(),
        ensures
            *final(self) == *old(self),
            final(particles).wf(),
            final(cache).wf(),
            *final(particles) == (Particles {
                hash: final(particles).hash,
                index: final(particles).index,
                hash_temp: final(particles).hash_temp,
                index_temp: final(particles).index_temp,
                histograms: final(particles).histograms,
                prefix_sums: final(particles).prefix_sums,
                buffer_generation: final(particles).buffer_generation,
                ..*old(particles)
            }),
            pairs_upto(
                final(particles).hash@,
                final(particles).index@,
                old(particles).count as int,
            ) == radix_sort_spec(
                pairs_upto(old(particles).hash@, old(particles).index@, old(particles).count as int),
            ),
            sorted_pairs(
                pairs_upto(
                    final(particles).hash@,
                    final(particles).index@,
                    old(particles).count as int,
                ),
            ),
            pairs_upto(
                final(particles).hash@,
                final(particles).index@,
                old(particles).count as int,
            ).to_multiset() == pairs_upto(
                old(particles).hash@,
                old(particles).index@,
                old(particles).count as int,
            ).to_multiset(),
            forall|i: int|
                0 <= i < final(cache).bindings@.len() ==> #[trigger] final(cache).bindings@[i] is None,
    {
        let count32: u32 = particles.count;
        let count: usize = count32 as usize;
        let ghost s0 = pairs_upto(particles.hash@, particles.index@, count as int);
        let blocks = self.blocks_per_work_group(count32);

        let prefix_constants = PrefixSumConstants::new(1, 256);
        let hist_constants = RadixSortCountConstants::new(count32, 0, 1, blocks);
        let scatter_constants = RadixSortConstants::new(count32, 0, 1, blocks);
        counting_sort_round(
            &particles.hash,
            &particles.index,
            hist_constants,
            prefix_constants,
            scatter_constants,
            &mut particles.histograms,
            &mut particles.prefix_sums,
            &mut particles.hash_temp,
            &mut particles.index_temp,
        );
        particles.swap_hash_buffers();
        particles.swap_index_buffers();
        cache.clear();
        let ghost s1 = counting_sort_spec(s0, 0);
        proof {
            assert(pairs_upto(particles.hash@, particles.index@, count as int) == s1);
        }

        let hist_constants = RadixSortCountConstants::new(count32, 8, 1, blocks);
        let scatter_constants = RadixSortConstants::new(count32, 8, 1, blocks);
        counting_sort_round(
            &particles.hash,
            &particles.index,
            hist_constants,
            prefix_constants,
            scatter_constants,
            &mut particles.histograms,
            &mut particles.prefix_sums,
            &mut particles.hash_temp,
            &mut particles.index_temp,
        );
        particles.swap_hash_buffers();
        particles.swap_index_buffers();
        cache.clear();
        let ghost s2 = counting_sort_spec(s1, 8);

        let hist_constants = RadixSortCountConstants::new(count32, 16, 1, blocks);
        let scatter_constants = RadixSortConstants::new(count32, 16, 1, blocks);
        counting_sort_round(
            &particles.hash,
            &particles.index,
            hist_constants,
            prefix_constants,
            scatter_constants,
            &mut particles.histograms,
            &mut particles.prefix_sums,
            &mut particles.hash_temp,
            &mut particles.index_temp,
        );
        particles.swap_hash_buffers();
        particles.swap_index_buffers();
        cache.clear();
        let ghost s3 = counting_sort_spec(s2, 16);

        let hist_constants = RadixSortCountConstants::new(count32, 24, 1, blocks);
        let scatter_constants = RadixSortConstants::new(count32, 24, 1, blocks);
        counting_sort_round(
            &particles.hash,
            &particles.index,
            hist_constants,
            prefix_constants,
            scatter_constants,
            &mut particles.histograms,
            &mut particles.prefix_sums,
            &mut particles.hash_temp,
            &mut particles.index_temp,
        );
        particles.swap_hash_buffers();
        particles.swap_index_buffers();
        cache.clear();
        proof {
            assert(pairs_upto(particles.hash@, particles.index@, count as int) == radix_sort_spec(
                s0,
            ));
            lemma_radix_sort_sorts(s0);
            lemma_radix_sort_permutes(s0);
        }
    }
}

/// The index column of a pair sequence.
pub open spec fn vals_of(s: Seq<(u32, u32)>) -> Seq<u32> {
    s.map_values(|p: (u32, u32)| p.1)
}

/// Sequences holding the same pairs hold the same index values.
pub proof fn lemma_pair_multiset_preserves_vals(s1: Seq<(u32, u32)>, s2: Seq<(u32, u32)>)
    requires
        s1.to_multiset() == s2.to_multiset(),
    ensures
        vals_of(s1).to_multiset() == vals_of(s2).to_multiset(),
    decreases s1.len(),
{
    broadcast use Seq::<(u32, u32)>::to_multiset_ensures;
    broadcast use Seq::<u32>::to_multiset_ensures;

    assert(s1.len() == s1.to_multiset().len());
    assert(s2.len() == s2.to_multiset().len());
    if s1.len() == 0 {
        assert(s2.len() == 0);
        assert(vals_of(s1) =~= Seq::empty());
        assert(vals_of(s2) =~= Seq::empty());
        assert(vals_of(s1).to_multiset() =~= vals_of(s2).to_multiset());
    } else {
        let a = s1.last();
        let dl = s1.drop_last();
        assert(s1 =~= dl.push(a));
        assert(s1.to_multiset().count(a) > 0);
        assert(s2.contains(a));
        let j = choose|j: int| 0 <= j < s2.len() && s2[j] == a;
        let s2r = s2.remove(j);
        assert(s2r.to_multiset() =~= s2.to_multiset().remove(a));
        assert(dl.to_multiset() =~= s1.to_multiset().remove(a));
        lemma_pair_multiset_preserves_vals(dl, s2r);
        assert(vals_of(s2r) =~= vals_of(s2).remove(j)) by {
            assert(vals_of(s2r).len() == s2.len() - 1);
            assert(vals_of(s2).remove(j).len() == s2.len() - 1);
            assert forall|t: int| 0 <= t < s2.len() - 1 implies vals_of(s2r)[t] == vals_of(
                s2,
            ).remove(j)[t] by {
                if t < j {
                    assert(s2r[t] == s2[t]);
                } else {
                    assert(s2r[t] == s2[t + 1]);
                }
            }
        }
        assert(vals_of(s2).remove(j).to_multiset() =~= vals_of(s2).to_multiset().remove(
            vals_of(s2)[j],
        ));
        assert(vals_of(s2)[j] == a.1);
        assert(vals_of(s1) =~= vals_of(dl).push(a.1));
        assert(vals_of(s1).to_multiset() =~= vals_of(dl).to_multiset().insert(a.1));
        assert(vals_of(s2).to_multiset().contains(a.1)) by {
            assert(vals_of(s2).contains(vals_of(s2)[j]));
        }
        assert(vals_of(s2).to_multiset() =~= vals_of(s2).to_multiset().remove(a.1).insert(a.1));
        assert(vals_of(s1).to_multiset() =~= vals_of(s2).to_multiset());
    }
}

/// The identity index column `0, 1, ..., n-1`.
pub open spec fn identity_indices(n: int) -> Seq<u32>
    recommends
        0 <= n <= u32::MAX as int + 1,
{
    Seq::new(n as nat, |i: int| i as u32)
}

/// Sorting pairs whose index column starts as the identity yields an
/// index column that is a permutation of `0 .. n`: every slot value
/// occurs exactly once, and each output hash is the input hash the
/// recorded index points at.
pub proof fn lemma_sort_yields_permutation(ks: Seq<u32>, n: int)
    requires
        0 <= n == ks.len() <= u32::MAX as int,
    ensures
        sorted_pairs(radix_sort_spec(pairs_upto(ks, identity_indices(n), n))),
        vals_of(radix_sort_spec(pairs_upto(ks, identity_indices(n), n))).to_multiset()
            == identity_indices(n).to_multiset(),
        forall|v: int|
            0 <= v < n ==> identity_indices(n).to_multiset().count(#[trigger] (v as u32)) == 1,
        forall|j: int|
            0 <= j < n ==> #[trigger] radix_sort_spec(pairs_upto(ks, identity_indices(n), n))[j]
                == (ks[radix_sort_spec(pairs_upto(ks, identity_indices(n), n))[j].1 as int],
            radix_sort_spec(pairs_upto(ks, identity_indices(n), n))[j].1),
{
    broadcast use Seq::<(u32, u32)>::to_multiset_ensures;
    broadcast use Seq::<u32>::to_multiset_ensures;

    let ident = identity_indices(n);
    let s0 = pairs_upto(ks, ident, n);
    let out = radix_sort_spec(s0);
    lemma_radix_sort_sorts(s0);
    lemma_radix_sort_permutes(s0);
    lemma_pair_multiset_preserves_vals(out, s0);
    assert(vals_of(s0) =~= ident);
    assert(ident.no_duplicates());
    ident.lemma_multiset_has_no_duplicates();
    assert forall|v: int| 0 <= v < n implies ident.to_multiset().count(#[trigger] (v as u32))
        == 1 by {
        assert(ident[v] == v as u32);
        assert(ident.contains(v as u32));
        assert(ident.to_multiset().contains(v as u32));
    }
    assert forall|j: int| 0 <= j < n implies #[trigger] out[j] == (
    ks[out[j].1 as int],
    out[j].1,
    ) by {
        assert(out.contains(out[j]));
        assert(out.to_multiset().count(out[j]) > 0);
        assert(s0.to_multiset().count(out[j]) > 0);
        assert(s0.contains(out[j]));
        let t = choose|t: int| 0 <= t < s0.len() && s0[t] == out[j];
        assert(s0[t] == (ks[t], ident[t]));
        assert(ident[t] == t as u32);
    }
}

} // verus!
