//! Exact integer plane geometry for the overmap: distance from a point to
//! a segment, ray-cast point-in-polygon, Liang-Barsky segment/rectangle
//! clipping, and the chunk trail a polyline leaves on the chunk grid.
//!
//! Every quantity is computed exactly in 128-bit integers; where the
//! geometry needs a quotient, the comparison is made between products
//! instead, so no result depends on rounding.

use vstd::prelude::*;
use vstd::arithmetic::div_mod::{
    lemma_div_multiples_vanish, lemma_fundamental_div_mod, lemma_fundamental_div_mod_converse,
};

use crate::world::{CHUNK_H, CHUNK_W};

verus! {

/// Bound on the coordinates of authored map vertices (2^20 cells).
pub const MAP_BOUND: i64 = 0x10_0000;

/// Bound on the coordinates of query points (2^40 cells); every chunk
/// center lies well inside it.
pub const QUERY_BOUND: i64 = 0x100_0000_0000;

/// Bound under which products of coordinate differences fit in 128 bits
/// (2^60).
pub const WIDE_BOUND: i64 = 0x1000_0000_0000_0000;

/// A point as a pair of mathematical integers.
pub open spec fn ipt(p: (i64, i64)) -> (int, int) {
    (p.0 as int, p.1 as int)
}

/// Both coordinates of `p` lie in `[-bound, bound]`.
pub open spec fn within(p: (i64, i64), bound: int) -> bool {
    -bound <= p.0 <= bound && -bound <= p.1 <= bound
}

/// Every point of `s` lies within `bound`.
pub open spec fn all_within(s: Seq<(i64, i64)>, bound: int) -> bool {
    forall|k: int| 0 <= k < s.len() ==> within(#[trigger] s[k], bound)
}

/// `x`, capped at `i64::MAX`.
pub open spec fn saturate_i64(x: int) -> i64 {
    if x > i64::MAX {
        i64::MAX
    } else {
        x as i64
    }
}

/// 2^61: bound on differences of coordinates within `WIDE_BOUND`.
pub open spec fn wide_diff() -> int {
    0x2000_0000_0000_0000
}

pub open spec fn min_int(x: int, y: int) -> int {
    if x <= y {
        x
    } else {
        y
    }
}

proof fn lemma_mul_abs_bound(x: int, y: int, bx: int, by: int)
    requires
        0 <= bx,
        0 <= by,
        -bx <= x <= bx,
        -by <= y <= by,
    ensures
        -(bx * by) <= x * y <= bx * by,
{
    assert(-(bx * by) <= x * y <= bx * by) by (nonlinear_arith)
        requires
            0 <= bx,
            0 <= by,
            -bx <= x <= bx,
            -by <= y <= by,
    ;
}

proof fn lemma_square_bound(x: int, bx: int)
    requires
        0 <= bx,
        -bx <= x <= bx,
    ensures
        0 <= x * x <= bx * bx,
{
    assert(0 <= x * x <= bx * bx) by (nonlinear_arith)
        requires
            0 <= bx,
            -bx <= x <= bx,
    ;
}

// ---------------------------------------------------------------------
// Distance from a point to a segment
// ---------------------------------------------------------------------

/// Squared distance, rounded down, from `p` to the closest point of the
/// segment `ab`. The closest point is the projection of `p` on the line
/// through `a` and `b`, clamped to the segment: `a` when the projection
/// falls before `a` (or the segment is a single point), `b` when it falls
/// past `b`. In between, the squared distance to the line is
/// `cross^2 / |ab|^2`, `cross` being the cross product of `ap` and `ab`.
pub open spec fn seg_dist_sq(p: (int, int), a: (int, int), b: (int, int)) -> int {
    let abx = b.0 - a.0;
    let aby = b.1 - a.1;
    let apx = p.0 - a.0;
    let apy = p.1 - a.1;
    let len2 = abx * abx + aby * aby;
    let dot = apx * abx + apy * aby;
    if len2 == 0 || dot <= 0 {
        apx * apx + apy * apy
    } else if dot >= len2 {
        (p.0 - b.0) * (p.0 - b.0) + (p.1 - b.1) * (p.1 - b.1)
    } else {
        let cross = apx * aby - apy * abx;
        (cross * cross) / len2
    }
}

/// Squared distance from `p` to the segment `ab`, rounded down and capped
/// at `i64::MAX`.
pub fn point_to_segment_dist_sq(p: (i64, i64), a: (i64, i64), b: (i64, i64)) -> (r: i64)
    requires
        within(p, QUERY_BOUND as int),
        within(a, MAP_BOUND as int),
        within(b, MAP_BOUND as int),
    ensures
        r == saturate_i64(seg_dist_sq(ipt(p), ipt(a), ipt(b))),
        r >= 0,
{
    let abx = b.0 as i128 - a.0 as i128;
    let aby = b.1 as i128 - a.1 as i128;
    let apx = p.0 as i128 - a.0 as i128;
    let apy = p.1 as i128 - a.1 as i128;
    let bpx = p.0 as i128 - b.0 as i128;
    let bpy = p.1 as i128 - b.1 as i128;
    let ghost small: int = 0x20_0000;
    let ghost big: int = 0x200_0000_0000;
    proof {
        lemma_square_bound(abx as int, small);
        lemma_square_bound(aby as int, small);
        lemma_square_bound(apx as int, big);
        lemma_square_bound(apy as int, big);
        lemma_square_bound(bpx as int, big);
        lemma_square_bound(bpy as int, big);
        lemma_mul_abs_bound(apx as int, abx as int, big, small);
        lemma_mul_abs_bound(apy as int, aby as int, big, small);
        lemma_mul_abs_bound(apx as int, aby as int, big, small);
        lemma_mul_abs_bound(apy as int, abx as int, big, small);
    }
    let len2 = abx * abx + aby * aby;
    let dot = apx * abx + apy * aby;
    let exact: i128 = if len2 == 0 || dot <= 0 {
        apx * apx + apy * apy
    } else if dot >= len2 {
        bpx * bpx + bpy * bpy
    } else {
        let cross = apx * aby - apy * abx;
        proof {
            lemma_square_bound(cross as int, 2 * big * small);
        }
        (cross * cross) / len2
    };
    if exact > i64::MAX as i128 {
        i64::MAX
    } else {
        exact as i64
    }
}

proof fn lemma_seg_dist_nonneg(p: (int, int), a: (int, int), b: (int, int))
    ensures
        seg_dist_sq(p, a, b) >= 0,
{
    let abx = b.0 - a.0;
    let aby = b.1 - a.1;
    let apx = p.0 - a.0;
    let apy = p.1 - a.1;
    let len2 = abx * abx + aby * aby;
    let cross = apx * aby - apy * abx;
    assert(apx * apx >= 0 && apy * apy >= 0 && abx * abx >= 0 && aby * aby >= 0) by (nonlinear_arith);
    assert((p.0 - b.0) * (p.0 - b.0) >= 0 && (p.1 - b.1) * (p.1 - b.1) >= 0) by (nonlinear_arith);
    assert(cross * cross >= 0) by (nonlinear_arith);
    if len2 > 0 {
        assert((cross * cross) / len2 >= 0) by (nonlinear_arith)
            requires
                len2 > 0,
                cross * cross >= 0,
        ;
    }
}

pub(crate) proof fn lemma_min_seg_dist_nonneg(p: (int, int), pts: Seq<(i64, i64)>, n: int)
    ensures
        min_seg_dist(p, pts, n) >= 0,
    decreases n,
{
    lemma_seg_dist_nonneg(p, ipt(pts[0]), ipt(pts[1]));
    if n > 1 {
        lemma_min_seg_dist_nonneg(p, pts, n - 1);
        lemma_seg_dist_nonneg(p, ipt(pts[n - 1]), ipt(pts[n]));
    }
}

/// Smallest squared distance from `p` to the first `n` segments of the
/// polyline `pts` (`n >= 1`).
pub open spec fn min_seg_dist(p: (int, int), pts: Seq<(i64, i64)>, n: int) -> int
    decreases n,
{
    if n <= 1 {
        seg_dist_sq(p, ipt(pts[0]), ipt(pts[1]))
    } else {
        min_int(min_seg_dist(p, pts, n - 1), seg_dist_sq(p, ipt(pts[n - 1]), ipt(pts[n])))
    }
}

/// Squared distance from `p` to the polyline `pts` (at least two points):
/// the smallest over its segments.
pub open spec fn polyline_dist_sq(p: (int, int), pts: Seq<(i64, i64)>) -> int {
    min_seg_dist(p, pts, pts.len() - 1)
}

/// Squared distance from `p` to the nearest segment of the polyline
/// `pts`, rounded down and capped at `i64::MAX`.
pub fn min_polyline_dist_sq(p: (i64, i64), pts: &[(i64, i64)]) -> (r: i64)
    requires
        within(p, QUERY_BOUND as int),
        all_within(pts@, MAP_BOUND as int),
        pts@.len() >= 2,
    ensures
        r == saturate_i64(polyline_dist_sq(ipt(p), pts@)),
{
    let mut best = i64::MAX;
    let last = pts.len() - 1;
    let mut k: usize = 0;
    while k < last
        invariant
            within(p, QUERY_BOUND as int),
            all_within(pts@, MAP_BOUND as int),
            last == pts@.len() - 1,
            last >= 1,
            k <= last,
            k == 0 ==> best == i64::MAX,
            k >= 1 ==> best == saturate_i64(min_seg_dist(ipt(p), pts@, k as int)),
        decreases last - k,
    {
        assert(within(pts@[k as int], MAP_BOUND as int));
        assert(within(pts@[k + 1], MAP_BOUND as int));
        let d = point_to_segment_dist_sq(p, pts[k], pts[k + 1]);
        let ghost seg = seg_dist_sq(ipt(p), ipt(pts@[k as int]), ipt(pts@[k + 1]));
        if d < best {
            best = d;
        }
        proof {
            assert(d == saturate_i64(seg));
            lemma_seg_dist_nonneg(ipt(p), ipt(pts@[k as int]), ipt(pts@[k + 1]));
            if k >= 1 {
                let prev = min_seg_dist(ipt(p), pts@, k as int);
                lemma_min_seg_dist_nonneg(ipt(p), pts@, k as int);
                assert(min_seg_dist(ipt(p), pts@, k + 1) == min_int(prev, seg));
                assert(saturate_i64(min_int(prev, seg)) == if saturate_i64(prev) <= saturate_i64(seg) {
                    saturate_i64(prev)
                } else {
                    saturate_i64(seg)
                });
            } else {
                assert(min_seg_dist(ipt(p), pts@, 1) == seg);
            }
        }
        k = k + 1;
    }
    best
}

/// Lagrange's identity in the plane: the squared cross product plus the
/// squared dot product of two vectors is the product of their squared
/// lengths.
proof fn lemma_lagrange(x1: int, y1: int, x2: int, y2: int)
    ensures
        (x1 * y2 - y1 * x2) * (x1 * y2 - y1 * x2) == (x1 * x1 + y1 * y1) * (x2 * x2 + y2 * y2) - (x1 * x2 + y1
            * y2) * (x1 * x2 + y1 * y2),
{
    let u = x1 * y2;
    let v = y1 * x2;
    let s1 = x1 * x2;
    let s2 = y1 * y2;
    assert((x1 * x1) * (x2 * x2) == s1 * s1) by (nonlinear_arith)
        requires
            s1 == x1 * x2,
    ;
    assert((x1 * x1) * (y2 * y2) == u * u) by (nonlinear_arith)
        requires
            u == x1 * y2,
    ;
    assert((y1 * y1) * (x2 * x2) == v * v) by (nonlinear_arith)
        requires
            v == y1 * x2,
    ;
    assert((y1 * y1) * (y2 * y2) == s2 * s2) by (nonlinear_arith)
        requires
            s2 == y1 * y2,
    ;
    assert(u * v == s1 * s2) by (nonlinear_arith)
        requires
            u == x1 * y2,
            v == y1 * x2,
            s1 == x1 * x2,
            s2 == y1 * y2,
    ;
    let a = x1 * x1;
    let b = y1 * y1;
    let c = x2 * x2;
    let d = y2 * y2;
    assert((a + b) * (c + d) == a * c + a * d + b * c + b * d) by (nonlinear_arith);
    assert((u - v) * (u - v) == u * u - 2 * (u * v) + v * v) by (nonlinear_arith);
    assert((s1 + s2) * (s1 + s2) == s1 * s1 + 2 * (s1 * s2) + s2 * s2) by (nonlinear_arith);
}

/// A point beyond `QUERY_BOUND` lies more than two cells from any segment
/// with both ends within `MAP_BOUND`.
proof fn lemma_far_seg(p: (int, int), a: (int, int), b: (int, int))
    requires
        -0x10_0000 <= a.0 <= 0x10_0000,
        -0x10_0000 <= a.1 <= 0x10_0000,
        -0x10_0000 <= b.0 <= 0x10_0000,
        -0x10_0000 <= b.1 <= 0x10_0000,
        p.0 > 0x100_0000_0000 || p.0 < -0x100_0000_0000 || p.1 > 0x100_0000_0000 || p.1 < -0x100_0000_0000,
    ensures
        seg_dist_sq(p, a, b) > 4,
{
    let abx = b.0 - a.0;
    let aby = b.1 - a.1;
    let apx = p.0 - a.0;
    let apy = p.1 - a.1;
    let bpx = p.0 - b.0;
    let bpy = p.1 - b.1;
    let len2 = abx * abx + aby * aby;
    let dot = apx * abx + apy * aby;
    let m = apx * apx + apy * apy;
    assert(m > 0x4000_0000_0000_0000_0000) by (nonlinear_arith)
        requires
            apx > 0x80_0000_0000 || apx < -0x80_0000_0000 || apy > 0x80_0000_0000 || apy < -0x80_0000_0000,
            m == apx * apx + apy * apy,
    ;
    assert(bpx * bpx + bpy * bpy > 4) by (nonlinear_arith)
        requires
            bpx > 0x80_0000_0000 || bpx < -0x80_0000_0000 || bpy > 0x80_0000_0000 || bpy < -0x80_0000_0000,
    ;
    if len2 == 0 || dot <= 0 {
    } else if dot >= len2 {
    } else {
        let cross = apx * aby - apy * abx;
        lemma_square_bound(abx, 0x20_0000);
        lemma_square_bound(aby, 0x20_0000);
        lemma_lagrange(apx, apy, abx, aby);
        assert(dot * dot < len2 * len2) by (nonlinear_arith)
            requires
                0 < dot < len2,
        ;
        assert(cross * cross >= 5 * len2) by (nonlinear_arith)
            requires
                cross * cross == m * len2 - dot * dot,
                dot * dot < len2 * len2,
                0 < len2 <= 0x800_0000_0000,
                m > 0x4000_0000_0000_0000_0000,
        ;
        lemma_div_ge(cross * cross, len2, 5);
    }
}

/// A point beyond `QUERY_BOUND` lies more than two cells from a polyline
/// whose points lie within `MAP_BOUND`.
pub(crate) proof fn lemma_far_polyline(p: (int, int), pts: Seq<(i64, i64)>, n: int)
    requires
        all_within(pts, MAP_BOUND as int),
        1 <= n < pts.len(),
        p.0 > 0x100_0000_0000 || p.0 < -0x100_0000_0000 || p.1 > 0x100_0000_0000 || p.1 < -0x100_0000_0000,
    ensures
        min_seg_dist(p, pts, n) > 4,
    decreases n,
{
    assert(within(pts[n - 1], MAP_BOUND as int));
    assert(within(pts[n], MAP_BOUND as int));
    assert(within(pts[0], MAP_BOUND as int));
    assert(within(pts[1], MAP_BOUND as int));
    lemma_far_seg(p, ipt(pts[0]), ipt(pts[1]));
    lemma_far_seg(p, ipt(pts[n - 1]), ipt(pts[n]));
    if n > 1 {
        lemma_far_polyline(p, pts, n - 1);
    }
}

// ---------------------------------------------------------------------
// Point in polygon
// ---------------------------------------------------------------------

/// The edge from `vi` to `vj` straddles the horizontal line through `p`
/// and meets it strictly to the right of `p`. The meeting point's x is
/// `vi.0 + (p.1 - vi.1) * (vj.0 - vi.0) / (vj.1 - vi.1)`; the comparison is
/// made on the exact fraction.
pub open spec fn edge_toggles(p: (int, int), vi: (int, int), vj: (int, int)) -> bool {
    let den = vj.1 - vi.1;
    let num = (p.1 - vi.1) * (vj.0 - vi.0);
    &&& (vi.1 > p.1) != (vj.1 > p.1)
    &&& if den > 0 {
        (p.0 - vi.0) * den < num
    } else {
        (p.0 - vi.0) * den > num
    }
}

/// Index of the vertex before vertex `i` of a closed polygon with `n`
/// vertices.
pub open spec fn prev_vertex(i: int, n: int) -> int {
    if i == 0 {
        n - 1
    } else {
        i - 1
    }
}

/// Number of edges among the first `i` (edge `k` runs from vertex `k` to
/// the vertex before it) that toggle for `p`.
pub open spec fn toggles_upto(p: (int, int), poly: Seq<(i64, i64)>, i: int) -> int
    decreases i,
{
    if i <= 0 {
        0
    } else {
        toggles_upto(p, poly, i - 1) + if edge_toggles(
            p,
            ipt(poly[i - 1]),
            ipt(poly[prev_vertex(i - 1, poly.len() as int)]),
        ) {
            1int
        } else {
            0int
        }
    }
}

/// Ray casting: `p` lies inside the closed polygon `poly` when a ray from
/// `p` towards +x crosses its boundary an odd number of times. A polygon
/// of fewer than three vertices holds no point.
pub open spec fn in_polygon(p: (int, int), poly: Seq<(i64, i64)>) -> bool {
    poly.len() >= 3 && toggles_upto(p, poly, poly.len() as int) % 2 == 1
}

/// Ray-casting point-in-polygon test; the polygon closes from its last
/// vertex back to its first.
pub fn point_in_polygon(p: (i64, i64), poly: &[(i64, i64)]) -> (r: bool)
    requires
        within(p, WIDE_BOUND as int),
        all_within(poly@, WIDE_BOUND as int),
    ensures
        r == in_polygon(ipt(p), poly@),
{
    let n = poly.len();
    if n < 3 {
        return false;
    }
    let mut inside = false;
    let mut j: usize = n - 1;
    let mut i: usize = 0;
    while i < n
        invariant
            n == poly@.len(),
            n >= 3,
            within(p, WIDE_BOUND as int),
            all_within(poly@, WIDE_BOUND as int),
            i <= n,
            j == prev_vertex(i as int, n as int),
            inside == (toggles_upto(ipt(p), poly@, i as int) % 2 == 1),
        decreases n - i,
    {
        let vi = poly[i];
        let vj = poly[j];
        assert(within(poly@[i as int], WIDE_BOUND as int));
        assert(within(poly@[j as int], WIDE_BOUND as int));
        let crosses = (vi.1 > p.1) != (vj.1 > p.1);
        if crosses {
            let den = vj.1 as i128 - vi.1 as i128;
            let dxp = p.0 as i128 - vi.0 as i128;
            let dyp = p.1 as i128 - vi.1 as i128;
            let dxe = vj.0 as i128 - vi.0 as i128;
            proof {
                lemma_mul_abs_bound(dxp as int, den as int, wide_diff(), wide_diff());
                lemma_mul_abs_bound(dyp as int, dxe as int, wide_diff(), wide_diff());
            }
            let lhs = dxp * den;
            let num = dyp * dxe;
            let right_of_p = if den > 0 {
                lhs < num
            } else {
                lhs > num
            };
            if right_of_p {
                inside = !inside;
            }
        }
        j = i;
        i = i + 1;
    }
    inside
}

// ---------------------------------------------------------------------
// Segment against rectangle
// ---------------------------------------------------------------------

/// `p` lies in the half-open rectangle `[xmin, xmax) x [ymin, ymax)`: a
/// chunk owns its lower corner but not its upper one.
pub open spec fn in_half_open_rect(p: (int, int), xmin: int, ymin: int, xmax: int, ymax: int) -> bool {
    xmin <= p.0 < xmax && ymin <= p.1 < ymax
}

/// Liang-Barsky: the points `a + t (b - a)` of the segment inside the
/// closed rectangle are those whose `t` meets `lb_p(k) * t <= lb_q(k)` for
/// the four edges `k` (left, right, bottom, top).
pub open spec fn lb_p(a: (int, int), b: (int, int), k: int) -> int {
    if k == 0 {
        -(b.0 - a.0)
    } else if k == 1 {
        b.0 - a.0
    } else if k == 2 {
        -(b.1 - a.1)
    } else {
        b.1 - a.1
    }
}

pub open spec fn lb_q(a: (int, int), xmin: int, ymin: int, xmax: int, ymax: int, k: int) -> int {
    if k == 0 {
        a.0 - xmin
    } else if k == 1 {
        xmax - a.0
    } else if k == 2 {
        a.1 - ymin
    } else {
        ymax - a.1
    }
}

/// The parameters `t` in `[0, 1]` that keep the segment inside the closed
/// rectangle form an interval of positive length: no edge parallel to the
/// segment excludes it, and every entering bound `q/p` (`p < 0`) lies below
/// every exiting bound (`p > 0`), below 1 and above 0 as the case may be.
/// The fractions are compared exactly, by cross-multiplying.
pub open spec fn clip_keeps_interior(a: (int, int), b: (int, int), xmin: int, ymin: int, xmax: int, ymax: int) -> bool {
    &&& forall|k: int|
        0 <= k < 4 && #[trigger] lb_p(a, b, k) == 0 ==> lb_q(a, xmin, ymin, xmax, ymax, k) >= 0
    &&& forall|k: int|
        0 <= k < 4 && #[trigger] lb_p(a, b, k) < 0 ==> lb_q(a, xmin, ymin, xmax, ymax, k) > lb_p(a, b, k)
    &&& forall|k: int| 0 <= k < 4 && #[trigger] lb_p(a, b, k) > 0 ==> lb_q(a, xmin, ymin, xmax, ymax, k) > 0
    &&& forall|i: int, j: int|
        0 <= i < 4 && 0 <= j < 4 && #[trigger] lb_p(a, b, i) < 0 && #[trigger] lb_p(a, b, j) > 0
            ==> lb_q(a, xmin, ymin, xmax, ymax, i) * lb_p(a, b, j) > lb_q(a, xmin, ymin, xmax, ymax, j) * lb_p(a, b, i)
}

/// The segment `ab` passes through the chunk rectangle: an endpoint lies in
/// the half-open rectangle, or a stretch of positive length lies in the
/// closed one (touching a corner alone does not count).
pub open spec fn segment_crosses_rect(a: (int, int), b: (int, int), xmin: int, ymin: int, xmax: int, ymax: int) -> bool {
    in_half_open_rect(a, xmin, ymin, xmax, ymax) || in_half_open_rect(b, xmin, ymin, xmax, ymax)
        || clip_keeps_interior(a, b, xmin, ymin, xmax, ymax)
}

/// Liang-Barsky segment/rectangle test, on exact fractions.
pub fn segment_intersects_rect(
    a: (i64, i64),
    b: (i64, i64),
    xmin: i64,
    ymin: i64,
    xmax: i64,
    ymax: i64,
) -> (r: bool)
    requires
        within(a, WIDE_BOUND as int),
        within(b, WIDE_BOUND as int),
        within((xmin, ymin), WIDE_BOUND as int),
        within((xmax, ymax), WIDE_BOUND as int),
    ensures
        r == segment_crosses_rect(ipt(a), ipt(b), xmin as int, ymin as int, xmax as int, ymax as int),
{
    if (a.0 >= xmin && a.0 < xmax && a.1 >= ymin && a.1 < ymax) || (b.0 >= xmin && b.0 < xmax && b.1
        >= ymin && b.1 < ymax) {
        return true;
    }
    let ghost ga = ipt(a);
    let ghost gb = ipt(b);
    assert(!in_half_open_rect(ga, xmin as int, ymin as int, xmax as int, ymax as int));
    assert(!in_half_open_rect(gb, xmin as int, ymin as int, xmax as int, ymax as int));
    let dx = b.0 as i128 - a.0 as i128;
    let dy = b.1 as i128 - a.1 as i128;
    let ps: [i128; 4] = [-dx, dx, -dy, dy];
    let qs: [i128; 4] = [
        a.0 as i128 - xmin as i128,
        xmax as i128 - a.0 as i128,
        a.1 as i128 - ymin as i128,
        ymax as i128 - a.1 as i128,
    ];
    assert forall|k: int| 0 <= k < 4 implies ps@[k] == lb_p(ga, gb, k) && qs@[k] == lb_q(
        ga,
        xmin as int,
        ymin as int,
        xmax as int,
        ymax as int,
        k,
    ) && -wide_diff() <= ps@[k] <= wide_diff() && -wide_diff() <= qs@[k] <= wide_diff() by {}
    let mut k: usize = 0;
    while k < 4
        invariant
            ga == ipt(a),
            gb == ipt(b),
            !in_half_open_rect(ga, xmin as int, ymin as int, xmax as int, ymax as int),
            !in_half_open_rect(gb, xmin as int, ymin as int, xmax as int, ymax as int),
            k <= 4,
            forall|m: int|
                0 <= m < 4 ==> ps@[m] == lb_p(ga, gb, m) && qs@[m] == lb_q(
                    ga,
                    xmin as int,
                    ymin as int,
                    xmax as int,
                    ymax as int,
                    m,
                ),
            forall|m: int| 0 <= m < k ==> {
                &&& (lb_p(ga, gb, m) == 0 ==> lb_q(ga, xmin as int, ymin as int, xmax as int, ymax as int, m) >= 0)
                &&& (lb_p(ga, gb, m) < 0 ==> lb_q(ga, xmin as int, ymin as int, xmax as int, ymax as int, m) > lb_p(ga, gb, m))
                &&& (lb_p(ga, gb, m) > 0 ==> lb_q(ga, xmin as int, ymin as int, xmax as int, ymax as int, m) > 0)
            },
        decreases 4 - k,
    {
        let p = ps[k];
        let q = qs[k];
        let ghost rect_q = lb_q(ga, xmin as int, ymin as int, xmax as int, ymax as int, k as int);
        assert(p == lb_p(ga, gb, k as int));
        assert(q == rect_q);
        if p == 0 && q < 0 {
            assert(!clip_keeps_interior(ga, gb, xmin as int, ymin as int, xmax as int, ymax as int));
            return false;
        }
        if p < 0 && q <= p {
            assert(!clip_keeps_interior(ga, gb, xmin as int, ymin as int, xmax as int, ymax as int));
            return false;
        }
        if p > 0 && q <= 0 {
            assert(!clip_keeps_interior(ga, gb, xmin as int, ymin as int, xmax as int, ymax as int));
            return false;
        }
        k = k + 1;
    }
    let mut i: usize = 0;
    while i < 4
        invariant
            ga == ipt(a),
            gb == ipt(b),
            !in_half_open_rect(ga, xmin as int, ymin as int, xmax as int, ymax as int),
            !in_half_open_rect(gb, xmin as int, ymin as int, xmax as int, ymax as int),
            i <= 4,
            forall|m: int|
                0 <= m < 4 ==> ps@[m] == lb_p(ga, gb, m) && qs@[m] == lb_q(
                    ga,
                    xmin as int,
                    ymin as int,
                    xmax as int,
                    ymax as int,
                    m,
                ) && -wide_diff() <= ps@[m] <= wide_diff() && -wide_diff() <= qs@[m] <= wide_diff(),
            forall|m: int, n: int|
                0 <= m < i && 0 <= n < 4 && lb_p(ga, gb, m) < 0 && lb_p(ga, gb, n) > 0 ==> lb_q(
                    ga,
                    xmin as int,
                    ymin as int,
                    xmax as int,
                    ymax as int,
                    m,
                ) * lb_p(ga, gb, n) > lb_q(ga, xmin as int, ymin as int, xmax as int, ymax as int, n)
                    * lb_p(ga, gb, m),
        decreases 4 - i,
    {
        let mut j: usize = 0;
        while j < 4
            invariant
                ga == ipt(a),
                gb == ipt(b),
                !in_half_open_rect(ga, xmin as int, ymin as int, xmax as int, ymax as int),
                !in_half_open_rect(gb, xmin as int, ymin as int, xmax as int, ymax as int),
                i < 4,
                j <= 4,
                forall|m: int|
                    0 <= m < 4 ==> ps@[m] == lb_p(ga, gb, m) && qs@[m] == lb_q(
                        ga,
                        xmin as int,
                        ymin as int,
                        xmax as int,
                        ymax as int,
                        m,
                    ) && -wide_diff() <= ps@[m] <= wide_diff() && -wide_diff() <= qs@[m] <= wide_diff(),
                forall|m: int, n: int|
                    0 <= m < i && 0 <= n < 4 && lb_p(ga, gb, m) < 0 && lb_p(ga, gb, n) > 0 ==> lb_q(
                        ga,
                        xmin as int,
                        ymin as int,
                        xmax as int,
                        ymax as int,
                        m,
                    ) * lb_p(ga, gb, n) > lb_q(ga, xmin as int, ymin as int, xmax as int, ymax as int, n)
                        * lb_p(ga, gb, m),
                forall|n: int|
                    0 <= n < j && lb_p(ga, gb, i as int) < 0 && lb_p(ga, gb, n) > 0 ==> lb_q(
                        ga,
                        xmin as int,
                        ymin as int,
                        xmax as int,
                        ymax as int,
                        i as int,
                    ) * lb_p(ga, gb, n) > lb_q(ga, xmin as int, ymin as int, xmax as int, ymax as int, n)
                        * lb_p(ga, gb, i as int),
            decreases 4 - j,
        {
            if ps[i] < 0 && ps[j] > 0 {
                proof {
                    lemma_mul_abs_bound(qs@[i as int] as int, ps@[j as int] as int, wide_diff(), wide_diff());
                    lemma_mul_abs_bound(qs@[j as int] as int, ps@[i as int] as int, wide_diff(), wide_diff());
                }
                if qs[i] * ps[j] <= qs[j] * ps[i] {
                    assert(lb_p(ga, gb, i as int) < 0 && lb_p(ga, gb, j as int) > 0);
                    assert(qs@[i as int] == lb_q(ga, xmin as int, ymin as int, xmax as int, ymax as int, i as int));
                    assert(qs@[j as int] == lb_q(ga, xmin as int, ymin as int, xmax as int, ymax as int, j as int));
                    assert(!clip_keeps_interior(ga, gb, xmin as int, ymin as int, xmax as int, ymax as int));
                    return false;
                }
            }
            j = j + 1;
        }
        i = i + 1;
    }
    true
}

// ---------------------------------------------------------------------
// The chunk trail of a polyline
// ---------------------------------------------------------------------

/// `s` is the smallest natural number whose square reaches `n`: the square
/// root of `n`, rounded up.
pub open spec fn is_ceil_sqrt(n: int, s: int) -> bool {
    0 <= s && n <= s * s && (s == 0 || (s - 1) * (s - 1) < n)
}

pub open spec fn ceil_sqrt(n: int) -> int {
    choose|s: int| is_ceil_sqrt(n, s)
}

/// Squared length of the segment `ab`.
pub open spec fn sq_len(a: (int, int), b: (int, int)) -> int {
    (b.0 - a.0) * (b.0 - a.0) + (b.1 - a.1) * (b.1 - a.1)
}

/// Number of steps of the walk along `ab`: its length rounded up, and at
/// least one, so that no step moves more than one cell along either axis.
pub open spec fn walk_steps(a: (int, int), b: (int, int)) -> int {
    let s = ceil_sqrt(sq_len(a, b));
    if s < 1 {
        1
    } else {
        s
    }
}

/// The cell reached after `i` of the walk's steps: `a + (i / steps) (b - a)`,
/// each coordinate rounded down.
pub open spec fn walk_point(a: (int, int), b: (int, int), i: int) -> (int, int) {
    let s = walk_steps(a, b);
    (a.0 + (i * (b.0 - a.0)) / s, a.1 + (i * (b.1 - a.1)) / s)
}

/// The chunk holding a cell (floor division by the chunk size).
pub open spec fn chunk_of(c: (int, int)) -> (int, int) {
    (c.0 / (CHUNK_W as int), c.1 / (CHUNK_H as int))
}

pub open spec fn walk_chunk(a: (int, int), b: (int, int), i: int) -> (int, int) {
    chunk_of(walk_point(a, b, i))
}

/// The walk along `ab` stands in chunk `c` at one of its steps.
pub open spec fn seg_visits(a: (int, int), b: (int, int), c: (int, int)) -> bool {
    exists|i: int| 0 <= i <= walk_steps(a, b) && #[trigger] walk_chunk(a, b, i) == c
}

/// Step `i` of the walk moves diagonally from one chunk to the next, and
/// `c` is the chunk that bridges the move: at the new column and the old
/// row, so that the trail stays 4-connected.
pub open spec fn is_bridge(a: (int, int), b: (int, int), i: int, c: (int, int)) -> bool {
    let c0 = walk_chunk(a, b, i - 1);
    let c1 = walk_chunk(a, b, i);
    &&& (c1.0 - c0.0 == 1 || c0.0 - c1.0 == 1)
    &&& (c1.1 - c0.1 == 1 || c0.1 - c1.1 == 1)
    &&& c == (c1.0, c0.1)
}

pub open spec fn seg_bridges(a: (int, int), b: (int, int), c: (int, int)) -> bool {
    exists|i: int| 1 <= i <= walk_steps(a, b) && #[trigger] is_bridge(a, b, i, c)
}

/// Chunk `c` belongs to the trail of the segment `ab`: the walk visits it,
/// or it bridges one of the walk's diagonal moves.
pub open spec fn seg_marks(a: (int, int), b: (int, int), c: (int, int)) -> bool {
    seg_visits(a, b, c) || seg_bridges(a, b, c)
}

/// Chunk `c` belongs to the trail of one of the segments of `pts`.
pub open spec fn polyline_marks(pts: Seq<(i64, i64)>, c: (int, int)) -> bool {
    exists|k: int| 0 <= k < pts.len() - 1 && #[trigger] seg_marks(ipt(pts[k]), ipt(pts[k + 1]), c)
}

/// Along one axis: after step `i` of a walk that starts at `a0` and moves
/// `d` in `s` steps, the walk's coordinate lies in the chunk column (or
/// row) `c` of width `w`.
pub open spec fn axis_hit(a0: int, d: int, s: int, w: int, c: int, i: int) -> bool {
    (a0 + (i * d) / s) / w == c
}

/// `i * d`, named so that it can trigger quantifiers.
pub open spec fn scaled(i: int, d: int) -> int {
    i * d
}

proof fn lemma_ceil_sqrt_unique(n: int, s1: int, s2: int)
    requires
        is_ceil_sqrt(n, s1),
        is_ceil_sqrt(n, s2),
    ensures
        s1 == s2,
{
    if s1 < s2 {
        assert(s1 * s1 <= (s2 - 1) * (s2 - 1)) by (nonlinear_arith)
            requires
                0 <= s1 <= s2 - 1,
        ;
    }
    if s2 < s1 {
        assert(s2 * s2 <= (s1 - 1) * (s1 - 1)) by (nonlinear_arith)
            requires
                0 <= s2 <= s1 - 1,
        ;
    }
}

proof fn lemma_ceil_sqrt_is(n: int, s: int)
    requires
        is_ceil_sqrt(n, s),
    ensures
        ceil_sqrt(n) == s,
{
    assert(is_ceil_sqrt(n, ceil_sqrt(n)));
    lemma_ceil_sqrt_unique(n, s, ceil_sqrt(n));
}

/// Floor division against a lower bound: `x / s >= l` exactly when
/// `x >= l * s`.
proof fn lemma_div_ge(x: int, s: int, l: int)
    requires
        s > 0,
    ensures
        (x / s >= l) <==> (x >= l * s),
        (x / s <= l) <==> (x <= l * s + s - 1),
{
    lemma_fundamental_div_mod(x, s);
    let q = x / s;
    let r = x % s;
    assert(0 <= r < s);
    assert((q >= l) <==> (x >= l * s)) by (nonlinear_arith)
        requires
            x == s * q + r,
            0 <= r < s,
            s > 0,
    ;
    assert((q <= l) <==> (x <= l * s + s - 1)) by (nonlinear_arith)
        requires
            x == s * q + r,
            0 <= r < s,
            s > 0,
    ;
}

/// Moving by at most one divisor moves the quotient by at most one.
proof fn lemma_div_step(u: int, d: int, s: int)
    requires
        s > 0,
        -s <= d <= s,
    ensures
        -1 <= (u + d) / s - u / s <= 1,
{
    let q = u / s;
    lemma_div_ge(u, s, q);
    lemma_div_ge(u + d, s, q - 1);
    lemma_div_ge(u + d, s, q + 1);
    assert((q - 1) * s == q * s - s) by (nonlinear_arith);
    assert((q + 1) * s == q * s + s) by (nonlinear_arith);
}

/// Exact floor division of a signed 64-bit value by a positive one.
pub(crate) fn floor_div_i64(x: i64, d: i64) -> (r: i64)
    requires
        d > 0,
        x > i64::MIN,
    ensures
        r == x / d,
{
    if x >= 0 {
        x / d
    } else {
        let y = -x - 1;
        let q = y / d;
        proof {
            lemma_fundamental_div_mod(y as int, d as int);
            let rr = (y as int) % (d as int);
            assert(0 <= rr < d);
            assert(x as int == (-(q as int) - 1) * (d as int) + (d - 1 - rr)) by (nonlinear_arith)
                requires
                    y as int == (d as int) * (q as int) + rr,
                    x as int == -(y as int) - 1,
            ;
            lemma_fundamental_div_mod_converse(x as int, d as int, -(q as int) - 1, d - 1 - rr);
        }
        -q - 1
    }
}

/// The steps `i` in `[0, s]` at which the walk's coordinate lies in chunk
/// column `c`: exactly those in `[lo, hi]` (none when `lo > hi`).
fn axis_interval(a0: i64, d: i64, s: i64, w: i64, c: i64) -> (r: (i64, i64))
    requires
        -0x10_0000 <= a0 <= 0x10_0000,
        -0x20_0000 <= d <= 0x20_0000,
        1 <= s <= 0x40_0000,
        1 <= w <= 64,
        -0x1_0000_0000 <= c <= 0x1_0000_0000,
    ensures
        0 <= r.0,
        r.1 <= s,
        forall|i: int| 0 <= i <= s ==> (#[trigger] axis_hit(a0 as int, d as int, s as int, w as int, c as int, i) <==> r.0 <= i <= r.1),
{
    let ghost ga0 = a0 as int;
    let ghost gd = d as int;
    let ghost gs = s as int;
    let ghost gw = w as int;
    let ghost gc = c as int;
    proof {
        lemma_mul_abs_bound(c as int, w as int, 0x1_0000_0000, 64);
    }
    let l = c * w - a0;
    proof {
        lemma_mul_abs_bound(l as int, s as int, 0x80_0000_0000, 0x40_0000);
        lemma_mul_abs_bound((l + w) as int, s as int, 0x80_0000_0000, 0x40_0000);
    }
    let lo_d = l * s;
    let hi_d = (l + w) * s - 1;
    // For every step i: the coordinate lies in column c exactly when
    // lo_d <= i * d <= hi_d.
    assert forall|i: int| 0 <= i <= s implies (#[trigger] axis_hit(ga0, gd, gs, gw, gc, i) <==> lo_d <= scaled(i, gd)
        <= hi_d) by {
        let q = (i * gd) / gs;
        lemma_div_ge(ga0 + q, gw, gc);
        lemma_div_ge(ga0 + q, gw, gc);
        lemma_div_ge(i * gd, gs, l as int);
        lemma_div_ge(i * gd, gs, (l + w - 1) as int);
        assert((l + w - 1) * gs + gs - 1 == (l + w) * gs - 1) by (nonlinear_arith);
        assert((ga0 + q) / gw == gc <==> (ga0 + q >= gc * gw && ga0 + q <= gc * gw + gw - 1));
    }
    let (raw_lo, raw_hi) = if d > 0 {
        let lo = floor_div_i64(lo_d + d - 1, d);
        let hi = floor_div_i64(hi_d, d);
        assert forall|i: int| 0 <= i <= s implies (lo_d <= #[trigger] scaled(i, gd) <= hi_d <==> lo <= i <= hi) by {
            lemma_div_ge(lo_d + gd - 1, gd, i);
            lemma_div_ge(hi_d as int, gd, i);
        }
        (lo, hi)
    } else if d < 0 {
        let nd = -d;
        let lo = floor_div_i64(-hi_d + nd - 1, nd);
        let hi = floor_div_i64(-lo_d, nd);
        assert forall|i: int| 0 <= i <= s implies (lo_d <= #[trigger] scaled(i, gd) <= hi_d <==> lo <= i <= hi) by {
            assert(i * (nd as int) == -(i * gd)) by (nonlinear_arith)
                requires
                    nd == -gd,
            ;
            lemma_div_ge(-hi_d + nd - 1, nd as int, i);
            lemma_div_ge(-lo_d, nd as int, i);
        }
        (lo, hi)
    } else {
        assert forall|i: int| 0 <= i <= s implies #[trigger] scaled(i, gd) == 0 by {
            assert(i * gd == 0) by (nonlinear_arith)
                requires
                    gd == 0,
            ;
        }
        if lo_d <= 0 && 0 <= hi_d {
            (0i64, s)
        } else {
            (1i64, 0i64)
        }
    };
    let lo = if raw_lo < 0 {
        0
    } else {
        raw_lo
    };
    let hi = if raw_hi > s {
        s
    } else {
        raw_hi
    };
    (lo, hi)
}

/// Square root, rounded up, of a value below 2^44.
fn ceil_sqrt_u44(n: i64) -> (s: i64)
    requires
        0 <= n <= 0x1000_0000_0000,
    ensures
        is_ceil_sqrt(n as int, s as int),
        s <= 0x40_0000,
{
    if n == 0 {
        return 0;
    }
    let mut lo: i64 = 0;
    let mut hi: i64 = 0x40_0000;
    assert(0x40_0000 * 0x40_0000 == 0x1000_0000_0000);
    while hi - lo > 1
        invariant
            0 <= lo < hi <= 0x40_0000,
            lo * lo < n,
            n <= hi * hi,
        decreases hi - lo,
    {
        let mid = lo + (hi - lo) / 2;
        proof {
            lemma_square_bound(mid as int, 0x40_0000);
        }
        if mid * mid >= n {
            hi = mid;
        } else {
            lo = mid;
        }
    }
    hi
}

/// The walk's chunk after step `i` is `c` exactly when both axes agree.
proof fn lemma_walk_chunk_axes(a: (int, int), b: (int, int), i: int, c: (int, int))
    ensures
        (walk_chunk(a, b, i) == c) <==> (axis_hit(a.0, b.0 - a.0, walk_steps(a, b), CHUNK_W as int, c.0, i)
            && axis_hit(a.1, b.1 - a.1, walk_steps(a, b), CHUNK_H as int, c.1, i)),
{
}

/// One step of the walk moves at most one chunk along each axis.
proof fn lemma_walk_chunk_step(a: (int, int), b: (int, int), i: int)
    requires
        1 <= i,
        walk_steps(a, b) * walk_steps(a, b) >= sq_len(a, b),
    ensures
        -1 <= walk_chunk(a, b, i).0 - walk_chunk(a, b, i - 1).0 <= 1,
        -1 <= walk_chunk(a, b, i).1 - walk_chunk(a, b, i - 1).1 <= 1,
{
    let s = walk_steps(a, b);
    let dx = b.0 - a.0;
    let dy = b.1 - a.1;
    assert(-s <= dx <= s && -s <= dy <= s) by (nonlinear_arith)
        requires
            s >= 1,
            s * s >= dx * dx + dy * dy,
    ;
    assert(i * dx == (i - 1) * dx + dx) by (nonlinear_arith);
    assert(i * dy == (i - 1) * dy + dy) by (nonlinear_arith);
    lemma_div_step((i - 1) * dx, dx, s);
    lemma_div_step((i - 1) * dy, dy, s);
    let qx0 = ((i - 1) * dx) / s;
    let qx1 = (i * dx) / s;
    let qy0 = ((i - 1) * dy) / s;
    let qy1 = (i * dy) / s;
    lemma_div_step(a.0 + qx0, qx1 - qx0, CHUNK_W as int);
    lemma_div_step(a.1 + qy0, qy1 - qy0, CHUNK_H as int);
}

/// Chunk `c` belongs to the trail of the segment `ab`.
pub fn segment_marks_chunk(a: (i64, i64), b: (i64, i64), c: (i32, i32)) -> (r: bool)
    requires
        within(a, MAP_BOUND as int),
        within(b, MAP_BOUND as int),
    ensures
        r == seg_marks(ipt(a), ipt(b), (c.0 as int, c.1 as int)),
{
    let ghost ga = ipt(a);
    let ghost gb = ipt(b);
    let ghost gc = (c.0 as int, c.1 as int);
    let dx = b.0 - a.0;
    let dy = b.1 - a.1;
    proof {
        lemma_square_bound(dx as int, 0x20_0000);
        lemma_square_bound(dy as int, 0x20_0000);
    }
    let n = dx * dx + dy * dy;
    let root = ceil_sqrt_u44(n);
    let s = if root < 1 {
        1
    } else {
        root
    };
    proof {
        lemma_ceil_sqrt_is(n as int, root as int);
        assert(s == walk_steps(ga, gb));
        assert(s * s >= sq_len(ga, gb)) by (nonlinear_arith)
            requires
                s >= root >= 0,
                root * root >= sq_len(ga, gb),
        ;
    }
    let (xlo, xhi) = axis_interval(a.0, dx, s, CHUNK_W as i64, c.0 as i64);
    let (ylo, yhi) = axis_interval(a.1, dy, s, CHUNK_H as i64, c.1 as i64);
    proof {
        assert forall|i: int| 0 <= i <= s implies ((#[trigger] walk_chunk(ga, gb, i) == gc) <==> (xlo <= i <= xhi && ylo
            <= i <= yhi)) by {
            lemma_walk_chunk_axes(ga, gb, i, gc);
        }
    }
    if xlo > xhi || ylo > yhi {
        proof {
            assert(!seg_visits(ga, gb, gc));
            assert forall|i: int| 1 <= i <= s implies !#[trigger] is_bridge(ga, gb, i, gc) by {
                lemma_walk_chunk_axes(ga, gb, i, (gc.0, walk_chunk(ga, gb, i).1));
                lemma_walk_chunk_axes(ga, gb, i - 1, (walk_chunk(ga, gb, i - 1).0, gc.1));
            }
        }
        return false;
    }
    let lo = if xlo > ylo {
        xlo
    } else {
        ylo
    };
    let hi = if xhi < yhi {
        xhi
    } else {
        yhi
    };
    let visits = lo <= hi;
    let bridges = xlo >= 1 && yhi == xlo - 1;
    proof {
        if visits {
            assert(walk_chunk(ga, gb, lo as int) == gc);
        }
        if seg_visits(ga, gb, gc) {
            let i = choose|i: int| 0 <= i <= walk_steps(ga, gb) && #[trigger] walk_chunk(ga, gb, i) == gc;
            assert(lo <= i <= hi);
        }
        if bridges {
            let i = xlo as int;
            lemma_walk_chunk_step(ga, gb, i);
            lemma_walk_chunk_axes(ga, gb, i, (gc.0, walk_chunk(ga, gb, i).1));
            lemma_walk_chunk_axes(ga, gb, i - 1, (walk_chunk(ga, gb, i - 1).0, gc.1));
            lemma_walk_chunk_axes(ga, gb, i - 1, (gc.0, walk_chunk(ga, gb, i - 1).1));
            lemma_walk_chunk_axes(ga, gb, i, (walk_chunk(ga, gb, i).0, gc.1));
            assert(is_bridge(ga, gb, i, gc));
        }
        if seg_bridges(ga, gb, gc) {
            let i = choose|i: int| 1 <= i <= walk_steps(ga, gb) && #[trigger] is_bridge(ga, gb, i, gc);
            lemma_walk_chunk_axes(ga, gb, i, (gc.0, walk_chunk(ga, gb, i).1));
            lemma_walk_chunk_axes(ga, gb, i - 1, (walk_chunk(ga, gb, i - 1).0, gc.1));
            lemma_walk_chunk_axes(ga, gb, i - 1, (gc.0, walk_chunk(ga, gb, i - 1).1));
            lemma_walk_chunk_axes(ga, gb, i, (walk_chunk(ga, gb, i).0, gc.1));
            assert(xlo == i);
            assert(yhi == i - 1);
        }
    }
    visits || bridges
}

// ---------------------------------------------------------------------
// The trail is 4-connected
// ---------------------------------------------------------------------

/// `c` and `d` share an edge on the chunk grid.
pub open spec fn orth_adjacent(c: (int, int), d: (int, int)) -> bool {
    ||| c.0 == d.0 && (c.1 - d.1 == 1 || d.1 - c.1 == 1)
    ||| c.1 == d.1 && (c.0 - d.0 == 1 || d.0 - c.0 == 1)
}

/// Every natural number has a square root rounded up.
proof fn lemma_ceil_sqrt_exists(n: int)
    requires
        n >= 0,
    ensures
        is_ceil_sqrt(n, ceil_sqrt(n)),
    decreases n,
{
    if n == 0 {
        assert(is_ceil_sqrt(0, 0));
    } else {
        lemma_ceil_sqrt_exists(n - 1);
        let r = ceil_sqrt(n - 1);
        if r * r >= n {
            assert(is_ceil_sqrt(n, r));
        } else {
            assert((r + 1) * (r + 1) == r * r + 2 * r + 1) by (nonlinear_arith);
            assert(r * r >= 0) by (nonlinear_arith);
            assert(is_ceil_sqrt(n, r + 1));
        }
    }
}

/// The walk starts in the chunk of `a`, ends in the chunk of `b`, and
/// moves at most one chunk per step along each axis.
proof fn lemma_walk_ends(a: (int, int), b: (int, int))
    ensures
        walk_chunk(a, b, 0) == chunk_of(a),
        walk_chunk(a, b, walk_steps(a, b)) == chunk_of(b),
        walk_steps(a, b) * walk_steps(a, b) >= sq_len(a, b),
        walk_steps(a, b) >= 1,
{
    let n = sq_len(a, b);
    assert(n >= 0) by (nonlinear_arith)
        requires
            n == (b.0 - a.0) * (b.0 - a.0) + (b.1 - a.1) * (b.1 - a.1),
    ;
    lemma_ceil_sqrt_exists(n);
    let s = walk_steps(a, b);
    assert(s * s >= n) by (nonlinear_arith)
        requires
            s >= ceil_sqrt(n) >= 0,
            ceil_sqrt(n) * ceil_sqrt(n) >= n,
    ;
    lemma_div_multiples_vanish(b.0 - a.0, s);
    lemma_div_multiples_vanish(b.1 - a.1, s);
    assert(s * (b.0 - a.0) == (b.0 - a.0) * s) by (nonlinear_arith);
    assert(s * (b.1 - a.1) == (b.1 - a.1) * s) by (nonlinear_arith);
    assert(0 * (b.0 - a.0) == 0 && 0 * (b.1 - a.1) == 0);
}

/// From a step in chunk `m`, walking on, the walk leaves `m` if it ends
/// elsewhere.
proof fn lemma_walk_leaves(a: (int, int), b: (int, int), m: (int, int), i: int) -> (t: int)
    requires
        0 <= i <= walk_steps(a, b),
        walk_chunk(a, b, i) == m,
        walk_chunk(a, b, walk_steps(a, b)) != m,
    ensures
        i < t <= walk_steps(a, b),
        walk_chunk(a, b, t - 1) == m,
        walk_chunk(a, b, t) != m,
    decreases walk_steps(a, b) - i,
{
    if walk_chunk(a, b, i + 1) != m {
        i + 1
    } else {
        lemma_walk_leaves(a, b, m, i + 1)
    }
}

/// Walking back from a step in chunk `m`, the walk enters `m` somewhere
/// if it starts elsewhere.
proof fn lemma_walk_enters(a: (int, int), b: (int, int), m: (int, int), i: int) -> (t: int)
    requires
        0 <= i <= walk_steps(a, b),
        walk_chunk(a, b, i) == m,
        walk_chunk(a, b, 0) != m,
    ensures
        0 < t <= i,
        walk_chunk(a, b, t) == m,
        walk_chunk(a, b, t - 1) != m,
    decreases i,
{
    if walk_chunk(a, b, i - 1) != m {
        i
    } else {
        lemma_walk_enters(a, b, m, i - 1)
    }
}

/// The trail of a segment whose ends lie in different chunks is
/// 4-connected: each of its chunks has a neighbour across an edge that
/// belongs to the trail too. (Diagonal moves of the walk are bridged, so
/// the overmap's road and river glyphs always find an orthogonal partner.)
pub proof fn law_segment_trail_is_4_connected(a: (int, int), b: (int, int), c: (int, int))
    requires
        chunk_of(a) != chunk_of(b),
        seg_marks(a, b, c),
    ensures
        exists|d: (int, int)| orth_adjacent(c, d) && #[trigger] seg_marks(a, b, d),
{
    lemma_walk_ends(a, b);
    let s = walk_steps(a, b);
    if seg_visits(a, b, c) {
        let i = choose|i: int| 0 <= i <= s && #[trigger] walk_chunk(a, b, i) == c;
        if walk_chunk(a, b, s) != c {
            let t = lemma_walk_leaves(a, b, c, i);
            lemma_walk_chunk_step(a, b, t);
            let c1 = walk_chunk(a, b, t);
            if c1.0 != c.0 && c1.1 != c.1 {
                let d = (c1.0, c.1);
                assert(is_bridge(a, b, t, d));
                assert(seg_marks(a, b, d));
                assert(orth_adjacent(c, d));
            } else {
                assert(seg_visits(a, b, c1));
                assert(seg_marks(a, b, c1));
                assert(orth_adjacent(c, c1));
            }
        } else {
            let t = lemma_walk_enters(a, b, c, i);
            lemma_walk_chunk_step(a, b, t);
            let c0 = walk_chunk(a, b, t - 1);
            if c0.0 != c.0 && c0.1 != c.1 {
                let d = (c.0, c0.1);
                assert(is_bridge(a, b, t, d));
                assert(seg_marks(a, b, d));
                assert(orth_adjacent(c, d));
            } else {
                assert(walk_chunk(a, b, t - 1) == c0);
                assert(seg_visits(a, b, c0));
                assert(seg_marks(a, b, c0));
                assert(orth_adjacent(c, c0));
            }
        }
    } else {
        let t = choose|t: int| 1 <= t <= s && #[trigger] is_bridge(a, b, t, c);
        let c0 = walk_chunk(a, b, t - 1);
        assert(walk_chunk(a, b, t - 1) == c0);
        assert(seg_visits(a, b, c0));
        assert(seg_marks(a, b, c0));
        assert(orth_adjacent(c, c0));
    }
}

/// Chunk `c` belongs to the trail of one of the segments of `pts`.
pub fn polyline_marks_chunk(pts: &[(i64, i64)], c: (i32, i32)) -> (r: bool)
    requires
        all_within(pts@, MAP_BOUND as int),
    ensures
        r == polyline_marks(pts@, (c.0 as int, c.1 as int)),
{
    let ghost gc = (c.0 as int, c.1 as int);
    if pts.len() < 2 {
        return false;
    }
    let last = pts.len() - 1;
    let mut k: usize = 0;
    while k < last
        invariant
            all_within(pts@, MAP_BOUND as int),
            last == pts@.len() - 1,
            k <= last,
            gc == (c.0 as int, c.1 as int),
            forall|m: int| 0 <= m < k ==> !#[trigger] seg_marks(ipt(pts@[m]), ipt(pts@[m + 1]), gc),
        decreases last - k,
    {
        assert(within(pts@[k as int], MAP_BOUND as int));
        assert(within(pts@[k + 1], MAP_BOUND as int));
        if segment_marks_chunk(pts[k], pts[k + 1], c) {
            return true;
        }
        k = k + 1;
    }
    false
}

} // verus!
