//! Geometric helpers of the normalizer: unit conversion, bounding-box
//! midpoints, centroids, and the sanity-distance test. All arithmetic is
//! exact fixed-point; divisions are defined precisely (floor for
//! midpoints, truncation toward zero for centroids).

use vstd::prelude::*;
use crate::numbers::FIXED_ABS_LIMIT;

verus! {

/// Nanometers per thousandth of a source unit: one source unit is
/// 0.254 mm.
pub const NM_PER_MILLI_UNIT: i64 = 254;

/// Coordinates this far from the computed center (squared comparison, in
/// nanometers) count as spurious frame data: 150 mm.
pub const SANITY_RADIUS_NM: i64 = 150_000_000;

/// Largest circle radius kept as footprint graphics: 50 mm.
pub const MAX_CIRCLE_RADIUS_NM: i64 = 50_000_000;

/// Magnitude bound that decoded entity fields satisfy, in milli-units.
pub open spec fn in_milli_range(v: int) -> bool {
    -(FIXED_ABS_LIMIT as int) <= v <= FIXED_ABS_LIMIT as int
}

/// Magnitude bound on sums and differences of a few parsed values, still
/// safely convertible to nanometers.
pub open spec fn in_diff_range(v: int) -> bool {
    -4_000_000_000_000_000 <= v <= 4_000_000_000_000_000
}

/// Converts a length in milli-units to nanometers: the unit conversion of
/// the pipeline, applied exactly once per scalar.
pub fn ee_to_mm(v: i64) -> (r: i64)
    requires
        in_diff_range(v as int),
    ensures
        r as int == v * NM_PER_MILLI_UNIT,
{
    v * NM_PER_MILLI_UNIT
}

/// Floor of the half of `m`: the midpoint division.
pub open spec fn spec_half_floor(m: int) -> int {
    m / 2
}

/// Floor division by two, matching `spec_half_floor` on every input.
pub fn half_floor(m: i64) -> (r: i64)
    requires
        -4_000_000_000_000_000_000 <= m <= 4_000_000_000_000_000_000,
    ensures
        r as int == spec_half_floor(m as int),
{
    if m >= 0 {
        m / 2
    } else {
        -((-m + 1) / 2)
    }
}

/// Truncating division of a sum by a positive count: the centroid
/// division.
pub open spec fn spec_div_trunc(a: int, b: int) -> int {
    if a >= 0 {
        a / b
    } else {
        -((-a) / b)
    }
}

/// The squared distance of a point from the origin stays within the
/// sanity radius.
pub open spec fn spec_in_range(x: int, y: int) -> bool {
    x * x + y * y <= (SANITY_RADIUS_NM as int) * (SANITY_RADIUS_NM as int)
}

/// Magnitude bound that centered nanometer coordinates satisfy.
pub open spec fn in_nm_range(v: int) -> bool {
    -2_000_000_000_000_000_000 <= v <= 2_000_000_000_000_000_000
}

/// Decides the sanity-distance test exactly.
pub fn in_range(x: i64, y: i64) -> (r: bool)
    requires
        in_nm_range(x as int),
        in_nm_range(y as int),
    ensures
        r == spec_in_range(x as int, y as int),
{
    proof {
        assert(0 <= (x as int) * (x as int) <= 2_000_000_000_000_000_000int
            * 2_000_000_000_000_000_000int) by (nonlinear_arith)
            requires
                in_nm_range(x as int),
        ;
        assert(0 <= (y as int) * (y as int) <= 2_000_000_000_000_000_000int
            * 2_000_000_000_000_000_000int) by (nonlinear_arith)
            requires
                in_nm_range(y as int),
        ;
        assert((SANITY_RADIUS_NM as int) * (SANITY_RADIUS_NM as int) == 22_500_000_000_000_000int)
            by (nonlinear_arith);
    }
    let xx = (x as i128) * (x as i128);
    let yy = (y as i128) * (y as i128);
    let rr: i128 = 22_500_000_000_000_000;
    xx + yy <= rr
}

/// Smallest value of a nonempty integer sequence.
pub open spec fn spec_seq_min(s: Seq<int>) -> int
    decreases s.len(),
{
    if s.len() <= 1 {
        s[0]
    } else {
        let m = spec_seq_min(s.drop_last());
        if s.last() < m {
            s.last()
        } else {
            m
        }
    }
}

/// Largest value of a nonempty integer sequence.
pub open spec fn spec_seq_max(s: Seq<int>) -> int
    decreases s.len(),
{
    if s.len() <= 1 {
        s[0]
    } else {
        let m = spec_seq_max(s.drop_last());
        if s.last() > m {
            s.last()
        } else {
            m
        }
    }
}

/// The minimum of a nonempty sequence lies between the bounds of its
/// elements.
pub proof fn lemma_seq_min_max_bounds(s: Seq<int>, lo: int, hi: int)
    requires
        s.len() >= 1,
        forall|i: int| 0 <= i < s.len() ==> lo <= #[trigger] s[i] <= hi,
    ensures
        lo <= spec_seq_min(s) <= hi,
        lo <= spec_seq_max(s) <= hi,
    decreases s.len(),
{
    if s.len() > 1 {
        lemma_seq_min_max_bounds(s.drop_last(), lo, hi);
    }
}

/// The views of a vector of coordinate pairs, in nanometers.
pub open spec fn pt_views(v: Seq<(i64, i64)>) -> Seq<(int, int)> {
    v.map_values(|p: (i64, i64)| (p.0 as int, p.1 as int))
}

/// The abscissas of a point sequence.
pub open spec fn spec_xs(pts: Seq<(int, int)>) -> Seq<int> {
    pts.map_values(|p: (int, int)| p.0)
}

/// The ordinates of a point sequence.
pub open spec fn spec_ys(pts: Seq<(int, int)>) -> Seq<int> {
    pts.map_values(|p: (int, int)| p.1)
}

/// The center of a point collection's bounding box: the midpoint of the
/// extremes on each axis, the origin for an empty collection.
pub open spec fn spec_bbox_center(pts: Seq<(int, int)>) -> (int, int) {
    if pts.len() == 0 {
        (0, 0)
    } else {
        (
            spec_half_floor(spec_seq_min(spec_xs(pts)) + spec_seq_max(spec_xs(pts))),
            spec_half_floor(spec_seq_min(spec_ys(pts)) + spec_seq_max(spec_ys(pts))),
        )
    }
}

/// Computes the bounding-box center of a point collection whose
/// coordinates are within the nanometer range.
pub fn bbox_center(pts: &Vec<(i64, i64)>) -> (c: (i64, i64))
    requires
        forall|i: int|
            0 <= i < pts@.len() ==> in_nm_range(#[trigger] pts@[i].0 as int) && in_nm_range(
                pts@[i].1 as int,
            ),
    ensures
        (c.0 as int, c.1 as int) == spec_bbox_center(pt_views(pts@)),
        in_nm_range(c.0 as int),
        in_nm_range(c.1 as int),
{
    let ghost pv = pt_views(pts@);
    if pts.len() == 0 {
        return (0, 0);
    }
    let mut min_x: i64 = pts[0].0;
    let mut max_x: i64 = pts[0].0;
    let mut min_y: i64 = pts[0].1;
    let mut max_y: i64 = pts[0].1;
    let mut i: usize = 1;
    proof {
        assert(spec_xs(pv).take(1) =~= seq![pv[0].0]);
        assert(spec_ys(pv).take(1) =~= seq![pv[0].1]);
    }
    while i < pts.len()
        invariant
            1 <= i <= pts@.len(),
            pv == pt_views(pts@),
            forall|j: int|
                0 <= j < pts@.len() ==> in_nm_range(#[trigger] pts@[j].0 as int) && in_nm_range(
                    pts@[j].1 as int,
                ),
            min_x as int == spec_seq_min(spec_xs(pv).take(i as int)),
            max_x as int == spec_seq_max(spec_xs(pv).take(i as int)),
            min_y as int == spec_seq_min(spec_ys(pv).take(i as int)),
            max_y as int == spec_seq_max(spec_ys(pv).take(i as int)),
            in_nm_range(min_x as int) && in_nm_range(max_x as int),
            in_nm_range(min_y as int) && in_nm_range(max_y as int),
        decreases pts@.len() - i,
    {
        let (x, y) = pts[i];
        proof {
            assert(spec_xs(pv).take(i as int + 1).drop_last() =~= spec_xs(pv).take(i as int));
            assert(spec_xs(pv).take(i as int + 1).last() == pv[i as int].0);
            assert(spec_ys(pv).take(i as int + 1).drop_last() =~= spec_ys(pv).take(i as int));
            assert(spec_ys(pv).take(i as int + 1).last() == pv[i as int].1);
            assert(pv[i as int] == (pts@[i as int].0 as int, pts@[i as int].1 as int));
        }
        if x < min_x {
            min_x = x;
        }
        if x > max_x {
            max_x = x;
        }
        if y < min_y {
            min_y = y;
        }
        if y > max_y {
            max_y = y;
        }
        i += 1;
    }
    proof {
        assert(spec_xs(pv).take(pts@.len() as int) =~= spec_xs(pv));
        assert(spec_ys(pv).take(pts@.len() as int) =~= spec_ys(pv));
    }
    let cx = half_floor(min_x + max_x);
    let cy = half_floor(min_y + max_y);
    (cx, cy)
}

/// The centroid of a point collection: the truncated mean on each axis,
/// the origin for an empty collection.
pub open spec fn spec_centroid(pts: Seq<(int, int)>) -> (int, int) {
    if pts.len() == 0 {
        (0, 0)
    } else {
        (
            spec_div_trunc(spec_sum(spec_xs(pts)), pts.len() as int),
            spec_div_trunc(spec_sum(spec_ys(pts)), pts.len() as int),
        )
    }
}

/// The sum of an integer sequence.
pub open spec fn spec_sum(s: Seq<int>) -> int
    decreases s.len(),
{
    if s.len() == 0 {
        0
    } else {
        spec_sum(s.drop_last()) + s.last()
    }
}

/// A sum of bounded values is bounded by the count times the bound.
pub proof fn lemma_sum_bound(s: Seq<int>, m: int)
    requires
        forall|i: int| 0 <= i < s.len() ==> -m <= #[trigger] s[i] <= m,
        0 <= m,
    ensures
        -((s.len() as int) * m) <= spec_sum(s) <= (s.len() as int) * m,
    decreases s.len(),
{
    if s.len() == 0 {
    } else {
        assert(forall|i: int|
            0 <= i < s.drop_last().len() ==> #[trigger] s.drop_last()[i] == s[i]);
        lemma_sum_bound(s.drop_last(), m);
        assert(-m <= s.last() <= m);
        assert(s.drop_last().len() as int * m + m == s.len() as int * m) by (nonlinear_arith)
            requires
                s.drop_last().len() == s.len() - 1,
        ;
    }
}

/// Computes the centroid of a point collection whose coordinates are
/// within the nanometer range.
pub fn centroid(pts: &Vec<(i64, i64)>) -> (c: (i64, i64))
    requires
        forall|i: int|
            0 <= i < pts@.len() ==> in_nm_range(#[trigger] pts@[i].0 as int) && in_nm_range(
                pts@[i].1 as int,
            ),
    ensures
        (c.0 as int, c.1 as int) == spec_centroid(pt_views(pts@)),
        in_nm_range(c.0 as int),
        in_nm_range(c.1 as int),
{
    let ghost pv = pt_views(pts@);
    if pts.len() == 0 {
        return (0, 0);
    }
    let mut sum_x: i128 = 0;
    let mut sum_y: i128 = 0;
    let mut i: usize = 0;
    proof {
        assert(spec_xs(pv).take(0) =~= Seq::<int>::empty());
        assert(spec_ys(pv).take(0) =~= Seq::<int>::empty());
    }
    while i < pts.len()
        invariant
            i <= pts@.len(),
            pv == pt_views(pts@),
            forall|j: int|
                0 <= j < pts@.len() ==> in_nm_range(#[trigger] pts@[j].0 as int) && in_nm_range(
                    pts@[j].1 as int,
                ),
            sum_x as int == spec_sum(spec_xs(pv).take(i as int)),
            sum_y as int == spec_sum(spec_ys(pv).take(i as int)),
            -((i as int) * 2_000_000_000_000_000_000) <= sum_x as int <= (i as int)
                * 2_000_000_000_000_000_000,
            -((i as int) * 2_000_000_000_000_000_000) <= sum_y as int <= (i as int)
                * 2_000_000_000_000_000_000,
        decreases pts@.len() - i,
    {
        let (x, y) = pts[i];
        proof {
            assert(spec_xs(pv).take(i as int + 1).drop_last() =~= spec_xs(pv).take(i as int));
            assert(spec_xs(pv).take(i as int + 1).last() == pv[i as int].0);
            assert(spec_ys(pv).take(i as int + 1).drop_last() =~= spec_ys(pv).take(i as int));
            assert(spec_ys(pv).take(i as int + 1).last() == pv[i as int].1);
            assert(pv[i as int] == (pts@[i as int].0 as int, pts@[i as int].1 as int));
            assert((i as int + 1) * 2_000_000_000_000_000_000 == (i as int)
                * 2_000_000_000_000_000_000 + 2_000_000_000_000_000_000) by (nonlinear_arith);
            assert((i as int) * 2_000_000_000_000_000_000 <= 18446744073709551615int
                * 2_000_000_000_000_000_000) by (nonlinear_arith)
                requires
                    0 <= i as int <= 18446744073709551615int,
            ;
        }
        sum_x = sum_x + x as i128;
        sum_y = sum_y + y as i128;
        i += 1;
    }
    proof {
        assert(spec_xs(pv).take(pts@.len() as int) =~= spec_xs(pv));
        assert(spec_ys(pv).take(pts@.len() as int) =~= spec_ys(pv));
        assert((pts@.len() as int) * 2_000_000_000_000_000_000 <= 18446744073709551615int
            * 2_000_000_000_000_000_000) by (nonlinear_arith)
            requires
                0 <= pts@.len() as int <= 18446744073709551615int,
        ;
    }
    let n = pts.len() as i128;
    let cx128: i128 = if sum_x >= 0 {
        sum_x / n
    } else {
        -((-sum_x) / n)
    };
    let cy128: i128 = if sum_y >= 0 {
        sum_y / n
    } else {
        -((-sum_y) / n)
    };
    proof {
        lemma_div_trunc_bound(sum_x as int, n as int, 2_000_000_000_000_000_000);
        lemma_div_trunc_bound(sum_y as int, n as int, 2_000_000_000_000_000_000);
    }
    (cx128 as i64, cy128 as i64)
}

/// Truncating division of a sum of `b` bounded values stays within the
/// bound.
pub proof fn lemma_div_trunc_bound(a: int, b: int, m: int)
    requires
        1 <= b,
        0 <= m,
        -(b * m) <= a <= b * m,
    ensures
        -m <= spec_div_trunc(a, b) <= m,
{
    if a >= 0 {
        assert(a / b <= m) by (nonlinear_arith)
            requires
                1 <= b && 0 <= a <= b * m && 0 <= m,
        ;
        assert(a / b >= 0) by (nonlinear_arith)
            requires
                1 <= b && 0 <= a,
        ;
    } else {
        assert((-a) / b <= m) by (nonlinear_arith)
            requires
                1 <= b && 0 <= -a <= b * m && 0 <= m,
        ;
        assert((-a) / b >= 0) by (nonlinear_arith)
            requires
                1 <= b && 0 <= -a,
        ;
    }
}

/// The centroid of points with bounded coordinates has bounded
/// coordinates.
pub proof fn lemma_centroid_bounds(pts: Seq<(int, int)>, m: int)
    requires
        0 <= m,
        forall|i: int|
            0 <= i < pts.len() ==> -m <= (#[trigger] pts[i]).0 <= m && -m <= pts[i].1 <= m,
    ensures
        -m <= spec_centroid(pts).0 <= m,
        -m <= spec_centroid(pts).1 <= m,
{
    if pts.len() == 0 {
    } else {
        assert(forall|i: int|
            0 <= i < pts.len() ==> -m <= #[trigger] spec_xs(pts)[i] <= m && -m <= spec_ys(pts)[i]
                <= m);
        lemma_sum_bound(spec_xs(pts), m);
        lemma_sum_bound(spec_ys(pts), m);
        lemma_div_trunc_bound(spec_sum(spec_xs(pts)), pts.len() as int, m);
        lemma_div_trunc_bound(spec_sum(spec_ys(pts)), pts.len() as int, m);
    }
}

/// The points shifted by a common offset on each axis.
pub open spec fn spec_recenter(pts: Seq<(int, int)>, c: (int, int)) -> Seq<(int, int)> {
    Seq::new(pts.len(), |i: int| (pts[i].0 - c.0, pts[i].1 - c.1))
}

/// A sequence of integers shifted by a common offset.
pub open spec fn spec_shift(s: Seq<int>, d: int) -> Seq<int> {
    Seq::new(s.len(), |i: int| s[i] - d)
}

/// Shifting every value moves the sum by the count times the offset.
pub proof fn lemma_sum_shift(s: Seq<int>, d: int)
    ensures
        spec_sum(spec_shift(s, d)) == spec_sum(s) - s.len() * d,
    decreases s.len(),
{
    if s.len() == 0 {
    } else {
        lemma_sum_shift(s.drop_last(), d);
        assert(spec_shift(s, d).drop_last() =~= spec_shift(s.drop_last(), d));
        assert(spec_shift(s, d).last() == s.last() - d);
        assert((s.len() - 1) * d + d == s.len() * d) by (nonlinear_arith);
    }
}

/// The truncated mean of values whose sum has magnitude below the count
/// is zero.
proof fn lemma_div_trunc_small(a: int, n: int)
    requires
        n >= 1,
        -n < a < n,
    ensures
        spec_div_trunc(a, n) == 0,
{
    if a >= 0 {
        assert(a / n == 0) by (nonlinear_arith)
            requires
                0 <= a < n && n >= 1,
        ;
    } else {
        assert((-a) / n == 0) by (nonlinear_arith)
            requires
                0 <= -a < n && n >= 1,
        ;
    }
}

/// After a shift by the truncated mean, the remaining sum has magnitude
/// below the count.
proof fn lemma_trunc_remainder(s: int, n: int)
    requires
        n >= 1,
    ensures
        -n < s - n * spec_div_trunc(s, n) < n,
{
    if s >= 0 {
        assert(s - n * (s / n) == s % n) by (nonlinear_arith)
            requires
                n >= 1,
        ;
        assert(0 <= s % n < n) by (nonlinear_arith)
            requires
                n >= 1 && s >= 0,
        ;
    } else {
        let t = -s;
        assert(t - n * (t / n) == t % n) by (nonlinear_arith)
            requires
                n >= 1,
        ;
        assert(0 <= t % n < n) by (nonlinear_arith)
            requires
                n >= 1 && t >= 0,
        ;
        assert(s - n * (-(t / n)) == -(t - n * (t / n))) by (nonlinear_arith)
            requires
                t == -s,
        ;
    }
}

/// Normalizing already-normalized points a second time is a no-op: once
/// a point collection has been recentered on its own centroid, the
/// centroid of the result is the origin, so recentering again leaves
/// every position unchanged.
pub proof fn lemma_centroid_recenter_idempotent(pts: Seq<(int, int)>)
    ensures
        spec_centroid(spec_recenter(pts, spec_centroid(pts))) == (0int, 0int),
        spec_recenter(
            spec_recenter(pts, spec_centroid(pts)),
            spec_centroid(spec_recenter(pts, spec_centroid(pts))),
        ) =~= spec_recenter(pts, spec_centroid(pts)),
{
    let c = spec_centroid(pts);
    let rts = spec_recenter(pts, c);
    if pts.len() == 0 {
        assert(rts.len() == 0);
    } else {
        let n = pts.len() as int;
        assert(spec_xs(rts) =~= spec_shift(spec_xs(pts), c.0));
        assert(spec_ys(rts) =~= spec_shift(spec_ys(pts), c.1));
        lemma_sum_shift(spec_xs(pts), c.0);
        lemma_sum_shift(spec_ys(pts), c.1);
        assert(spec_xs(pts).len() == n);
        assert(spec_ys(pts).len() == n);
        let sx = spec_sum(spec_xs(pts));
        let sy = spec_sum(spec_ys(pts));
        assert(c.0 == spec_div_trunc(sx, n));
        assert(c.1 == spec_div_trunc(sy, n));
        lemma_trunc_remainder(sx, n);
        lemma_trunc_remainder(sy, n);
        lemma_div_trunc_small(sx - n * spec_div_trunc(sx, n), n);
        lemma_div_trunc_small(sy - n * spec_div_trunc(sy, n), n);
        assert(rts.len() == pts.len());
    }
}

} // verus!
