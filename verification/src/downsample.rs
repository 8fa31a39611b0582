//! Down-sampling of data series for display (Largest-Triangle-Three-Buckets).
//!
//! A series longer than the budget of `max_points` keeps its first and its last point;
//! the points between them are cut into `max_points - 2` buckets of consecutive points,
//! and from each bucket the point that forms the largest triangle with the point kept
//! before it and the next bucket's middle point (the last point, after the last bucket)
//! is kept. The triangle areas are doubles: the caller computes them, and they are
//! compared here by their bit patterns.
use vstd::prelude::*;

use vstd::arithmetic::div_mod::{lemma_div_is_ordered, lemma_div_multiples_vanish_fancy, lemma_fundamental_div_mod};

use crate::fdr_reader::DataPoint;
use crate::float_bits::{f64_lt, lt};

verus! {

/// The bit pattern of -1.0: below every area, so the first area that is a number wins a
/// bucket unless a later one is larger.
pub const NEG_ONE_BITS: u64 = 0xBFF0_0000_0000_0000u64;

/// The first index of bucket `k` when `n` interior points (indices `1..=n`) are cut into
/// `m` buckets.
pub open spec fn bucket_lo(k: int, n: int, m: int) -> int {
    1 + (k * n) / m
}

/// The point a bucket's triangles are closed with: the middle point of the next bucket,
/// or the last point after the last bucket.
pub open spec fn next_point(input: Seq<DataPoint>, k: int, n: int, m: int) -> DataPoint {
    if k + 1 < m {
        input[(bucket_lo(k + 1, n, m) + bucket_lo(k + 2, n, m)) / 2]
    } else {
        input[input.len() - 1]
    }
}

/// The winner among a bucket's areas, as (offset in the bucket, area): scanning in
/// order, an area replaces the current best only when it is larger (so the first of
/// equal areas wins, and a NaN never wins); the best starts at offset 0 with -1.
pub open spec fn running_best(areas: Seq<u64>) -> (int, u64)
    decreases areas.len(),
{
    if areas.len() == 0 {
        (0, NEG_ONE_BITS)
    } else {
        let prev = running_best(areas.drop_last());
        if f64_lt(prev.1, areas.last()) {
            (areas.len() - 1, areas.last())
        } else {
            prev
        }
    }
}

/// Bucket `k` was reduced correctly: `areas[k]` holds, for each point of the bucket in
/// order, an area that `area` gives for the triangle of the point kept before
/// (`ix[k]`), that point and the bucket's closing point; and the point kept next
/// (`ix[k + 1]`) is the winner of those areas.
pub open spec fn bucket_pick_ok<F: Fn(DataPoint, DataPoint, DataPoint) -> u64>(
    input: Seq<DataPoint>,
    n: int,
    m: int,
    area: F,
    ix: Seq<int>,
    areas: Seq<Seq<u64>>,
    k: int,
) -> bool {
    let lo = bucket_lo(k, n, m);
    let hi = bucket_lo(k + 1, n, m);
    &&& areas[k].len() == hi - lo
    &&& forall|t: int|
        0 <= t < hi - lo ==> call_ensures(
            area,
            (input[ix[k]], input[lo + t], next_point(input, k, n, m)),
            #[trigger] areas[k][t],
        )
    &&& ix[k + 1] == lo + running_best(areas[k]).0
}

/// The indices `ix` kept when `input` (longer than `max_points`, with `max_points` at
/// least 2) is reduced, given the areas `areas` that `area` gave for each bucket: the
/// first point, one point per bucket, and the last point.
pub open spec fn lttb_picks<F: Fn(DataPoint, DataPoint, DataPoint) -> u64>(
    input: Seq<DataPoint>,
    max_points: int,
    area: F,
    ix: Seq<int>,
    areas: Seq<Seq<u64>>,
) -> bool {
    let n = input.len() - 2;
    let m = max_points - 2;
    &&& ix.len() == max_points
    &&& areas.len() == m
    &&& ix[0] == 0
    &&& ix[max_points - 1] == input.len() - 1
    &&& forall|k: int| 0 <= k < m ==> #[trigger] bucket_pick_ok(input, n, m, area, ix, areas, k)
}

/// The points of `input` at the indices `ix`.
pub open spec fn points_at(input: Seq<DataPoint>, ix: Seq<int>) -> Seq<DataPoint> {
    Seq::new(ix.len(), |i: int| input[ix[i]])
}

/// `r` is a reduction of `input` to `max_points` points (see `lttb`): the input when it
/// fits; nothing for a budget of 0; the first point for a budget of 1; otherwise the
/// points at indices picked bucket by bucket with the areas that `area` gave.
pub open spec fn lttb_result<F: Fn(DataPoint, DataPoint, DataPoint) -> u64>(
    input: Seq<DataPoint>,
    max_points: int,
    area: F,
    r: Seq<DataPoint>,
) -> bool {
    &&& input.len() <= max_points ==> r == input
    &&& input.len() > max_points && max_points == 0 ==> r.len() == 0
    &&& input.len() > max_points && max_points == 1 ==> r == seq![input[0]]
    &&& input.len() > max_points && max_points >= 2 ==> exists|ix: Seq<int>, areas: Seq<Seq<u64>>|
        #[trigger] lttb_picks(input, max_points, area, ix, areas) && r == points_at(input, ix)
}

/// Bucket `k` of `m` over `n` interior points is not empty and lies within them.
pub proof fn lemma_bucket_bounds(k: int, n: int, m: int)
    requires
        0 <= k < m <= n,
    ensures
        1 <= bucket_lo(k, n, m) < bucket_lo(k + 1, n, m) <= n + 1,
{
    let a = k * n;
    assert(0 <= a) by (nonlinear_arith)
        requires
            a == k * n,
            0 <= k,
            0 <= n,
    ;
    assert((k + 1) * n == a + n) by (nonlinear_arith)
        requires
            a == k * n,
    ;
    assert((k + 1) * n <= m * n) by (nonlinear_arith)
        requires
            k + 1 <= m,
            0 <= n,
    ;
    lemma_fundamental_div_mod(a, m);
    let q = a / m;
    let r = a % m;
    assert(0 <= r < m);
    assert(a + m == m * (q + 1) + r) by (nonlinear_arith)
        requires
            a == m * q + r,
    ;
    lemma_div_multiples_vanish_fancy(q + 1, r, m);
    lemma_div_is_ordered(a + m, a + n, m);
    assert(0 <= q) by (nonlinear_arith)
        requires
            q == a / m,
            0 <= a,
            0 < m,
    ;
    lemma_div_is_ordered((k + 1) * n, m * n, m);
    assert((m * n) / m == n) by (nonlinear_arith)
        requires
            0 < m,
    {
        lemma_div_multiples_vanish_fancy(n, 0, m);
    }
}

/// Bucket starts never decrease.
pub proof fn lemma_bucket_lo_monotone(a: int, b: int, n: int, m: int)
    requires
        0 <= a <= b,
        0 <= n,
        0 < m,
    ensures
        bucket_lo(a, n, m) <= bucket_lo(b, n, m),
{
    assert(a * n <= b * n) by (nonlinear_arith)
        requires
            a <= b,
            0 <= n,
    ;
    lemma_div_is_ordered(a * n, b * n, m);
}

/// The first bucket starts right after the first point, and the last one ends right
/// before the last point.
pub proof fn lemma_bucket_ends(n: int, m: int)
    requires
        0 < m,
        0 <= n,
    ensures
        bucket_lo(0, n, m) == 1,
        bucket_lo(m, n, m) == n + 1,
{
    assert(0 * n == 0);
    assert(m * n == m * n + 0);
    lemma_div_multiples_vanish_fancy(0, 0, m);
    lemma_div_multiples_vanish_fancy(n, 0, m);
}

/// The winner's offset lies within a non-empty bucket.
proof fn lemma_running_best_in_range(areas: Seq<u64>)
    ensures
        0 <= running_best(areas).0,
        areas.len() > 0 ==> running_best(areas).0 < areas.len(),
    decreases areas.len(),
{
    if areas.len() > 0 {
        lemma_running_best_in_range(areas.drop_last());
    }
}

/// Start of bucket `k` (see `bucket_lo`).
fn bucket_start(k: usize, n: usize, m: usize) -> (r: usize)
    requires
        0 < m <= n < usize::MAX,
        k <= m,
    ensures
        r == bucket_lo(k as int, n as int, m as int),
        r <= n + 1,
{
    assert((k as int) * (n as int) <= 0xFFFF_FFFF_FFFF_FFFF_FFFF_FFFF_FFFF_FFFFint) by (nonlinear_arith)
        requires
            0 <= k <= 0xFFFF_FFFF_FFFF_FFFFint,
            0 <= n <= 0xFFFF_FFFF_FFFF_FFFFint,
    ;
    let p: u128 = (k as u128) * (n as u128);
    proof {
        assert(k * n <= m * n) by (nonlinear_arith)
            requires
                k <= m,
        ;
        lemma_div_is_ordered(k * n, m * n, m as int);
        lemma_div_multiples_vanish_fancy(n as int, 0, m as int);
        assert(m * n == m * n + 0);
        assert((k as int) * (n as int) >= 0) by (nonlinear_arith);
        lemma_div_is_ordered(0, k * n, m as int);
    }
    let q: u128 = p / (m as u128);
    assert(q <= n);
    let qs: usize = q as usize;
    1 + qs
}

/// Largest-Triangle-Three-Buckets: reduces `input` to at most `max_points` points. A
/// series that fits is returned as it is; with a budget of 0 nothing is kept and with a
/// budget of 1 only the first point. Otherwise the first and the last point are kept,
/// and between them one point of each of the `max_points - 2` buckets: the one whose
/// triangle with the point kept before it and the bucket's closing point (see
/// `next_point`) has the largest area, as `area` reports it.
pub fn lttb<F: Fn(DataPoint, DataPoint, DataPoint) -> u64>(input: &Vec<DataPoint>, max_points: usize, area: F) -> (r: Vec<DataPoint>)
    requires
        forall|a: DataPoint, b: DataPoint, c: DataPoint| call_requires(area, (a, b, c)),
    ensures
        lttb_result(input@, max_points as int, area, r@),
{
    let len = input.len();
    if len <= max_points {
        return input.clone();
    }
    let mut result: Vec<DataPoint> = Vec::new();
    if max_points == 0 {
        return result;
    }
    result.push(input[0]);
    if max_points == 1 {
        assert(result@ =~= seq![input@[0]]);
        return result;
    }
    let n: usize = len - 2;
    let m: usize = max_points - 2;
    let ghost mut ix: Seq<int> = seq![0int];
    let ghost mut all_areas: Seq<Seq<u64>> = Seq::empty();
    let mut prev_idx: usize = 0;
    let mut k: usize = 0;
    assert(result@ =~= points_at(input@, ix));
    while k < m
        invariant
            len == input.len(),
            2 <= max_points < len,
            n == len - 2,
            m == max_points - 2,
            k <= m,
            forall|a: DataPoint, b: DataPoint, c: DataPoint| call_requires(area, (a, b, c)),
            ix.len() == k + 1,
            all_areas.len() == k,
            ix[0] == 0,
            ix[k as int] == prev_idx as int,
            prev_idx < len,
            result@ == points_at(input@, ix),
            forall|kk: int| 0 <= kk < k ==> #[trigger] bucket_pick_ok(input@, n as int, m as int, area, ix, all_areas, kk),
        decreases m - k,
    {
        proof {
            lemma_bucket_bounds(k as int, n as int, m as int);
        }
        let lo = bucket_start(k, n, m);
        let hi = bucket_start(k + 1, n, m);
        let next = if k + 1 < m {
            proof {
                lemma_bucket_bounds((k + 1) as int, n as int, m as int);
            }
            let hi2 = bucket_start(k + 2, n, m);
            let mid = hi + (hi2 - hi) / 2;
            assert(mid == (hi + hi2) / 2);
            input[mid]
        } else {
            input[len - 1]
        };
        assert(next == next_point(input@, k as int, n as int, m as int));
        let ghost prev_point = input@[prev_idx as int];
        let mut best: u64 = NEG_ONE_BITS;
        let mut best_idx: usize = lo;
        let ghost mut areas_k: Seq<u64> = Seq::empty();
        let mut i: usize = lo;
        while i < hi
            invariant
                len == input.len(),
                1 <= lo < hi <= len - 1,
                lo <= i <= hi,
                prev_idx < len,
                prev_point == input@[prev_idx as int],
                forall|a: DataPoint, b: DataPoint, c: DataPoint| call_requires(area, (a, b, c)),
                areas_k.len() == i - lo,
                forall|t: int|
                    0 <= t < i - lo ==> call_ensures(area, (prev_point, input@[lo + t], next), #[trigger] areas_k[t]),
                best_idx as int == lo + running_best(areas_k).0,
                best == running_best(areas_k).1,
                lo <= best_idx < hi,
            decreases hi - i,
        {
            let a = area(input[prev_idx], input[i], next);
            let ghost old_areas = areas_k;
            proof {
                areas_k = areas_k.push(a);
                assert(areas_k.drop_last() =~= old_areas);
            }
            if lt(best, a) {
                best = a;
                best_idx = i;
            }
            i = i + 1;
        }
        result.push(input[best_idx]);
        let ghost old_ix = ix;
        let ghost old_all = all_areas;
        proof {
            ix = ix.push(best_idx as int);
            all_areas = all_areas.push(areas_k);
            assert forall|kk: int| 0 <= kk < k + 1 implies #[trigger] bucket_pick_ok(
                input@,
                n as int,
                m as int,
                area,
                ix,
                all_areas,
                kk,
            ) by {
                assert(ix[kk] == if kk <= k { old_ix[kk] } else { best_idx as int });
                assert(ix[kk + 1] == if kk + 1 <= k { old_ix[kk + 1] } else { best_idx as int });
                if kk < k {
                    assert(bucket_pick_ok(input@, n as int, m as int, area, old_ix, old_all, kk));
                    assert(all_areas[kk] == old_all[kk]);
                } else {
                    assert(all_areas[kk] == areas_k);
                    assert(ix[kk] == prev_idx as int);
                }
            }
            assert(result@ =~= points_at(input@, ix));
        }
        prev_idx = best_idx;
        k = k + 1;
    }
    result.push(input[len - 1]);
    proof {
        let old_ix = ix;
        ix = ix.push((len - 1) as int);
        assert forall|kk: int| 0 <= kk < m implies #[trigger] bucket_pick_ok(
            input@,
            n as int,
            m as int,
            area,
            ix,
            all_areas,
            kk,
        ) by {
            assert(bucket_pick_ok(input@, n as int, m as int, area, old_ix, all_areas, kk));
            assert(ix[kk] == old_ix[kk]);
            assert(ix[kk + 1] == old_ix[kk + 1]);
        }
        assert(result@ =~= points_at(input@, ix));
        assert(lttb_picks(input@, max_points as int, area, ix, all_areas));
    }
    result
}

/// A reduction keeps exactly `max_points` points, at strictly increasing indices of the
/// input, starting with the first point and ending with the last.
pub proof fn lemma_lttb_picks_in_order<F: Fn(DataPoint, DataPoint, DataPoint) -> u64>(
    input: Seq<DataPoint>,
    max_points: int,
    area: F,
    ix: Seq<int>,
    areas: Seq<Seq<u64>>,
)
    requires
        2 <= max_points < input.len(),
        lttb_picks(input, max_points, area, ix, areas),
    ensures
        ix.len() == max_points,
        ix[0] == 0,
        ix[max_points - 1] == input.len() - 1,
        forall|i: int, j: int| 0 <= i < j < max_points ==> 0 <= #[trigger] ix[i] < #[trigger] ix[j] < input.len(),
{
    let n = input.len() - 2;
    let m = max_points - 2;
    // Every kept point after the first lies in its bucket: ix[k + 1] is in bucket k.
    assert forall|k: int| 0 <= k < m implies bucket_lo(k, n, m) <= #[trigger] ix[k + 1] < bucket_lo(k + 1, n, m) by {
        assert(bucket_pick_ok(input, n, m, area, ix, areas, k));
        lemma_bucket_bounds(k, n, m);
        lemma_running_best_in_range(areas[k]);
    }
    if m > 0 {
        lemma_bucket_ends(n, m);
    }
    assert forall|i: int, j: int| 0 <= i < j < max_points implies 0 <= #[trigger] ix[i] < #[trigger] ix[j] < input.len() by {
        // ix[i] lies below the start of bucket i (or is the first point), and ix[j] at or
        // above the start of bucket j - 1 (or is the last point).
        if i > 0 {
            assert(bucket_lo(i - 1, n, m) <= ix[i] < bucket_lo(i, n, m)) by {
                if i - 1 < m {
                    assert(bucket_lo(i - 1, n, m) <= ix[(i - 1) + 1] < bucket_lo((i - 1) + 1, n, m));
                }
            }
            lemma_bucket_bounds(i - 1, n, m);
        }
        if j < max_points - 1 {
            assert(bucket_lo(j - 1, n, m) <= ix[(j - 1) + 1] < bucket_lo((j - 1) + 1, n, m));
            lemma_bucket_lo_monotone(i, j - 1, n, m);
            lemma_bucket_bounds(j - 1, n, m);
        } else {
            if i > 0 {
                lemma_bucket_lo_monotone(i, m, n, m);
            }
        }
    }
}

} // verus!
