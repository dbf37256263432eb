//! Recursive shadowcasting for grid line of sight.
//!
//! Each of the eight octants is scanned row by row outward from the origin;
//! when a row hits a blocker the scan recurses past it with a narrowed
//! slope window, so the cone behind the blocker stays dark. Slopes are
//! compared exactly, as fractions of integers. The caller supplies the
//! blocker test; this module knows nothing about chunks or items.

use vstd::prelude::*;

verus! {

/// Lexicographic order on cells: by x, then by y.
pub open spec fn cell_lt(a: (i32, i32), b: (i32, i32)) -> bool {
    a.0 < b.0 || (a.0 == b.0 && a.1 < b.1)
}

/// Strictly increasing in lexicographic order (so also free of repeats).
pub open spec fn strictly_sorted(s: Seq<(i32, i32)>) -> bool {
    forall|i: int, j: int| 0 <= i < j < s.len() ==> cell_lt(s[i], s[j])
}

/// `p` lies within `radius` of `origin` (Euclidean, boundary included).
pub open spec fn in_disc(origin: (i32, i32), radius: int, p: (i32, i32)) -> bool {
    (p.0 - origin.0) * (p.0 - origin.0) + (p.1 - origin.1) * (p.1 - origin.1) <= radius * radius
}

/// Every cell of the square of half-width `radius` around `origin` has
/// coordinates that fit in an `i32`.
pub open spec fn fov_fits(origin: (i32, i32), radius: i32) -> bool {
    radius > 0 ==> {
        &&& origin.0 - radius >= i32::MIN
        &&& origin.0 + radius <= i32::MAX
        &&& origin.1 - radius >= i32::MIN
        &&& origin.1 + radius <= i32::MAX
    }
}

/// A slope `n / d` with `d > 0`.
#[derive(Clone, Copy)]
struct Slope {
    n: i64,
    d: i64,
}

spec fn slope_ok(s: Slope) -> bool {
    &&& -0x1_0000_0002 <= s.n <= 0x1_0000_0002
    &&& 1 <= s.d <= 0x1_0000_0002
}

/// `a < b` as exact fractions.
fn slope_lt(a: Slope, b: Slope) -> (r: bool)
    requires
        slope_ok(a),
        slope_ok(b),
    ensures
        r == (a.n * b.d < b.n * a.d),
{
    proof {
        lemma_product_bound(a.n as int, b.d as int);
        lemma_product_bound(b.n as int, a.d as int);
    }
    (a.n as i128) * (b.d as i128) < (b.n as i128) * (a.d as i128)
}

proof fn lemma_product_bound(x: int, y: int)
    requires
        -0x1_0000_0002 <= x <= 0x1_0000_0002,
        -0x1_0000_0002 <= y <= 0x1_0000_0002,
    ensures
        -0x1_0000_0004_0000_0004 <= x * y <= 0x1_0000_0004_0000_0004,
{
    assert(-0x1_0000_0004_0000_0004 <= x * y <= 0x1_0000_0004_0000_0004) by (nonlinear_arith)
        requires
            -0x1_0000_0002 <= x <= 0x1_0000_0002,
            -0x1_0000_0002 <= y <= 0x1_0000_0002,
    ;
}

/// Offset of octant-local `(dx, dy)` in world terms.
pub open spec fn octant_offset(dx: int, dy: int, octant: int) -> (int, int) {
    if octant == 0 {
        (dx, dy)
    } else if octant == 1 {
        (dy, dx)
    } else if octant == 2 {
        (-dy, dx)
    } else if octant == 3 {
        (-dx, dy)
    } else if octant == 4 {
        (-dx, -dy)
    } else if octant == 5 {
        (-dy, -dx)
    } else if octant == 6 {
        (dy, -dx)
    } else {
        (dx, -dy)
    }
}

proof fn lemma_offset_norm(dx: int, dy: int, octant: int)
    ensures
        ({
            let (a, b) = octant_offset(dx, dy, octant);
            a * a + b * b == dx * dx + dy * dy
        }),
{
    assert((-dx) * (-dx) == dx * dx) by (nonlinear_arith);
    assert((-dy) * (-dy) == dy * dy) by (nonlinear_arith);
}

fn transform(origin: (i32, i32), dx: i32, dy: i32, octant: usize) -> (r: (i32, i32))
    requires
        octant < 8,
        dx <= 0,
        dy < 0,
        -dy >= -dx,
        origin.0 + dy >= i32::MIN,
        origin.0 - dy <= i32::MAX,
        origin.1 + dy >= i32::MIN,
        origin.1 - dy <= i32::MAX,
    ensures
        (r.0 - origin.0, r.1 - origin.1) == octant_offset(dx as int, dy as int, octant as int),
{
    let (ox, oy) = origin;
    match octant {
        0 => (ox + dx, oy + dy),
        1 => (ox + dy, oy + dx),
        2 => (ox - dy, oy + dx),
        3 => (ox - dx, oy + dy),
        4 => (ox - dx, oy - dy),
        5 => (ox - dy, oy - dx),
        6 => (ox + dy, oy - dx),
        _ => (ox + dx, oy - dy),
    }
}

fn cell_less(a: (i32, i32), b: (i32, i32)) -> (r: bool)
    ensures
        r == cell_lt(a, b),
{
    a.0 < b.0 || (a.0 == b.0 && a.1 < b.1)
}

/// Inserts `p` into the strictly sorted `v`, keeping it strictly sorted;
/// nothing changes when `p` is already present.
fn insert_cell(v: &mut Vec<(i32, i32)>, p: (i32, i32))
    requires
        strictly_sorted(old(v)@),
    ensures
        strictly_sorted(final(v)@),
        forall|q: (i32, i32)| #![all_triggers] final(v)@.contains(q) <==> (old(v)@.contains(q) || q == p),
{
    let mut i: usize = 0;
    while i < v.len() && cell_less(v[i], p)
        invariant
            v@ == old(v)@,
            strictly_sorted(v@),
            i <= v.len(),
            forall|k: int| 0 <= k < i ==> cell_lt(v@[k], p),
        decreases v.len() - i,
    {
        i += 1;
    }
    if i < v.len() && v[i].0 == p.0 && v[i].1 == p.1 {
        proof {
            assert(v@[i as int] == p);
        }
        return;
    }
    let ghost before = v@;
    v.insert(i, p);
    proof {
        assert(before == old(v)@);
        assert(v@ == before.insert(i as int, p));
        assert forall|a: int, b: int| 0 <= a < b < v@.len() implies cell_lt(v@[a], v@[b]) by {
            if b < i {
            } else if b == i {
            } else if a < i {
                assert(cell_lt(before[a], p));
                assert(!cell_lt(before[i as int], p));
            } else if a == i {
                assert(!cell_lt(before[i as int], p));
                assert(before[i as int] != p);
                if b > i + 1 {
                    assert(cell_lt(before[i as int], before[b - 1]));
                }
            } else {
            }
        }
        assert forall|q: (i32, i32)| #![all_triggers] v@.contains(q) <==> (before.contains(q) || q == p) by {
            if v@.contains(q) {
                let k = choose|k: int| 0 <= k < v@.len() && v@[k] == q;
                if k < i {
                    assert(before[k] == q);
                } else if k > i {
                    assert(before[k - 1] == q);
                }
            }
            if before.contains(q) {
                let k = choose|k: int| 0 <= k < before.len() && before[k] == q;
                if k < i {
                    assert(v@[k] == q);
                } else {
                    assert(v@[k + 1] == q);
                }
            }
            if q == p {
                assert(v@[i as int] == p);
            }
        }
    }
}

/// No cell blocks sight: every answer `blocks` can give is `false`.
pub open spec fn open_field<F: Fn(i32, i32) -> bool>(blocks: F) -> bool {
    forall|x: i32, y: i32, r: bool| #[trigger] blocks.ensures((x, y), r) ==> !r
}

/// The world cell at octant-local `(dx, dy)`.
pub open spec fn octant_cell(origin: (i32, i32), dx: int, dy: int, octant: int) -> (i32, i32) {
    let off = octant_offset(dx, dy, octant);
    ((origin.0 + off.0) as i32, (origin.1 + off.1) as i32)
}

/// Every cell of rows `first..=last` of `octant` that lies in the disc is
/// in `v`.
spec fn rows_seen(origin: (i32, i32), radius: i32, octant: int, first: int, last: int, v: Seq<(i32, i32)>) -> bool {
    forall|d: int, dx: int|
        first <= d <= last && -d <= dx <= 0 && dx * dx + d * d <= radius * radius ==> v.contains(
            #[trigger] octant_cell(origin, dx, -d, octant),
        )
}

/// Row `d` of `octant` holds every disc cell with `dx` from `-d` up to (not
/// including) `upto`.
spec fn row_seen_upto(origin: (i32, i32), radius: i32, octant: int, d: int, upto: int, v: Seq<(i32, i32)>) -> bool {
    forall|dx: int|
        -d <= dx < upto && dx * dx + d * d <= radius * radius ==> v.contains(
            #[trigger] octant_cell(origin, dx, -d, octant),
        )
}

/// `a / ad <= b / bd` (denominators positive).
pub open spec fn frac_le(a: int, ad: int, b: int, bd: int) -> bool {
    a * bd <= b * ad
}

/// `a / ad < b / bd` (denominators positive).
pub open spec fn frac_lt(a: int, ad: int, b: int, bd: int) -> bool {
    a * bd < b * ad
}

/// Octant cell `(dx, -d)` (row `d`, `-d <= dx <= 0`) lies in the slope
/// window from `end` up to `start`: its right edge `(-2dx - 1) / (2d + 1)`
/// is at most `start` and its left edge `(-2dx + 1) / (2d - 1)` at least
/// `end`.
pub open spec fn in_window(start: (int, int), end: (int, int), d: int, dx: int) -> bool {
    frac_le(-2 * dx - 1, 2 * d + 1, start.0, start.1) && frac_le(end.0, end.1, -2 * dx + 1, 2 * d - 1)
}

/// Octant cell `(bx, -db)` casts a shadow over the farther cell `(qx, -dq)`:
/// the latter's slope span lies strictly inside the former's.
pub open spec fn shadows(db: int, bx: int, dq: int, qx: int) -> bool {
    &&& db < dq
    &&& frac_lt(-2 * bx - 1, 2 * db + 1, -2 * qx - 1, 2 * dq + 1)
    &&& frac_lt(-2 * qx + 1, 2 * dq - 1, -2 * bx + 1, 2 * db - 1)
}

/// Every answer `blocks` can give for cell `p` is `true`.
pub open spec fn surely_blocks<F: Fn(i32, i32) -> bool>(blocks: F, p: (i32, i32)) -> bool {
    forall|res: bool| #[trigger] blocks.ensures((p.0, p.1), res) ==> res
}

/// Octant cell `(bx, -db)` surely blocks sight.
pub open spec fn blocker_at<F: Fn(i32, i32) -> bool>(blocks: F, origin: (i32, i32), octant: int, db: int, bx: int) -> bool {
    surely_blocks(blocks, octant_cell(origin, bx, -db, octant))
}

/// No cell of rows `row..d` of `octant` that surely blocks sight shadows
/// octant cell `(dx, -d)`.
pub open spec fn lit<F: Fn(i32, i32) -> bool>(
    blocks: F,
    origin: (i32, i32),
    octant: int,
    row: int,
    d: int,
    dx: int,
) -> bool {
    forall|db: int, bx: int|
        row <= db < d && -db <= bx <= 0 && #[trigger] blocker_at(blocks, origin, octant, db, bx) ==> !shadows(
            db,
            bx,
            d,
            dx,
        )
}

/// Every cell of `v` not in `old` is an octant cell of rows `row..=radius`
/// in the window from `end` to `start`, lit from row `row` on.
spec fn new_lit<F: Fn(i32, i32) -> bool>(
    blocks: F,
    origin: (i32, i32),
    radius: i32,
    octant: int,
    row: int,
    start: (int, int),
    end: (int, int),
    old: Seq<(i32, i32)>,
    v: Seq<(i32, i32)>,
) -> bool {
    forall|q: (i32, i32)|
        v.contains(q) && !old.contains(q) ==> exists|d: int, dx: int|
            row <= d <= radius && -d <= dx <= 0 && q == #[trigger] octant_cell(origin, dx, -d, octant) && in_window(
                start,
                end,
                d,
                dx,
            ) && lit(blocks, origin, octant, row, d, dx)
}

proof fn lemma_frac_le_trans(a: int, ad: int, b: int, bd: int, c: int, cd: int)
    requires
        ad > 0,
        bd > 0,
        cd > 0,
        frac_le(a, ad, b, bd),
        frac_le(b, bd, c, cd),
    ensures
        frac_le(a, ad, c, cd),
{
    assert(a * cd * bd <= c * ad * bd) by (nonlinear_arith)
        requires
            ad > 0,
            bd > 0,
            cd > 0,
            a * bd <= b * ad,
            b * cd <= c * bd,
    ;
    assert(a * cd <= c * ad) by (nonlinear_arith)
        requires
            bd > 0,
            a * cd * bd <= c * ad * bd,
    ;
}

proof fn lemma_frac_le_lt(a: int, ad: int, b: int, bd: int, c: int, cd: int)
    requires
        ad > 0,
        bd > 0,
        cd > 0,
        frac_le(a, ad, b, bd),
        frac_lt(b, bd, c, cd),
    ensures
        frac_lt(a, ad, c, cd),
{
    assert(a * cd * bd < c * ad * bd) by (nonlinear_arith)
        requires
            ad > 0,
            bd > 0,
            cd > 0,
            a * bd <= b * ad,
            b * cd < c * bd,
    ;
    assert(a * cd < c * ad) by (nonlinear_arith)
        requires
            bd > 0,
            a * cd * bd < c * ad * bd,
    ;
}

proof fn lemma_frac_lt_le(a: int, ad: int, b: int, bd: int, c: int, cd: int)
    requires
        ad > 0,
        bd > 0,
        cd > 0,
        frac_lt(a, ad, b, bd),
        frac_le(b, bd, c, cd),
    ensures
        frac_lt(a, ad, c, cd),
{
    assert(a * cd * bd < c * ad * bd) by (nonlinear_arith)
        requires
            ad > 0,
            bd > 0,
            cd > 0,
            a * bd < b * ad,
            b * cd <= c * bd,
    ;
    assert(a * cd < c * ad) by (nonlinear_arith)
        requires
            bd > 0,
            a * cd * bd < c * ad * bd,
    ;
}

proof fn lemma_same_den(x: int, y: int, dd: int)
    requires
        dd > 0,
    ensures
        x <= y ==> frac_le(x, dd, y, dd),
        x < y ==> frac_lt(x, dd, y, dd),
{
    assert(x <= y ==> x * dd <= y * dd) by (nonlinear_arith)
        requires
            dd > 0,
    ;
    assert(x < y ==> x * dd < y * dd) by (nonlinear_arith)
        requires
            dd > 0,
    ;
}

spec fn cast_ok(origin: (i32, i32), radius: i32, v: Seq<(i32, i32)>) -> bool {
    &&& strictly_sorted(v)
    &&& forall|q: (i32, i32)| v.contains(q) ==> in_disc(origin, radius as int, q)
}

/// A cell met in the window at row `d` is lit: the shadows of earlier
/// rows miss the window.
proof fn lemma_window_entry<F: Fn(i32, i32) -> bool>(
    blocks: F,
    origin: (i32, i32),
    radius: i32,
    o: int,
    row: int,
    start0: Slope,
    end: Slope,
    start: Slope,
    d: int,
    dx: int,
    old: Seq<(i32, i32)>,
    before: Seq<(i32, i32)>,
    after: Seq<(i32, i32)>,
    p: (i32, i32),
)
    requires
        slope_ok(start0),
        slope_ok(end),
        slope_ok(start),
        1 <= row <= d <= radius,
        -d <= dx <= 0,
        frac_le(-2 * dx - 1, 2 * d + 1, start.n as int, start.d as int),
        frac_le(end.n as int, end.d as int, -2 * dx + 1, 2 * d - 1),
        frac_le(start.n as int, start.d as int, start0.n as int, start0.d as int),
        new_lit(blocks, origin, radius, o, row, (start0.n as int, start0.d as int), (end.n as int, end.d as int), old, before),
        forall|dq: int, qx: int, db: int, bx: int|
            #![trigger in_window((start.n as int, start.d as int), (end.n as int, end.d as int), dq, qx), blocker_at(blocks, origin, o, db, bx)]
            d <= dq <= radius && -dq <= qx <= 0 && in_window((start.n as int, start.d as int), (end.n as int, end.d as int), dq, qx)
                && row <= db < d && -db <= bx <= 0 && blocker_at(blocks, origin, o, db, bx) ==> !shadows(db, bx, dq, qx),
        p == octant_cell(origin, dx, -d, o),
        forall|q: (i32, i32)| after.contains(q) ==> before.contains(q) || q == p,
    ensures
        new_lit(blocks, origin, radius, o, row, (start0.n as int, start0.d as int), (end.n as int, end.d as int), old, after),
{
    lemma_frac_le_trans(-2 * dx - 1, 2 * d + 1, start.n as int, start.d as int, start0.n as int, start0.d as int);
    assert(in_window((start.n as int, start.d as int), (end.n as int, end.d as int), d, dx));
    assert(lit(blocks, origin, o, row, d, dx));
    assert forall|q: (i32, i32)| after.contains(q) && !old.contains(q) implies exists|dd: int, xx: int|
        row <= dd <= radius && -dd <= xx <= 0 && q == #[trigger] octant_cell(origin, xx, -dd, o) && in_window(
            (start0.n as int, start0.d as int),
            (end.n as int, end.d as int),
            dd,
            xx,
        ) && lit(blocks, origin, o, row, dd, xx) by {
        if !before.contains(q) {
            assert(q == octant_cell(origin, dx, -d, o));
        }
    }
}

/// Closing a run of blockers narrows the window to the run's last right
/// edge; what held of the wider window holds of the narrower.
proof fn lemma_narrowed<F: Fn(i32, i32) -> bool>(
    blocks: F,
    origin: (i32, i32),
    radius: i32,
    o: int,
    row: int,
    start0: Slope,
    end: Slope,
    old_start: Slope,
    start: Slope,
    d: int,
    dx: int,
)
    requires
        slope_ok(start0),
        slope_ok(end),
        slope_ok(start),
        slope_ok(old_start),
        d >= 1,
        -d <= dx <= 0,
        start.n == 1 - 2 * dx,
        start.d == 2 * d + 1,
        frac_le(start.n as int, start.d as int, old_start.n as int, old_start.d as int),
        frac_le(old_start.n as int, old_start.d as int, start0.n as int, start0.d as int),
        forall|dq: int, qx: int, db: int, bx: int|
            #![trigger in_window((old_start.n as int, old_start.d as int), (end.n as int, end.d as int), dq, qx), blocker_at(blocks, origin, o, db, bx)]
            d <= dq <= radius && -dq <= qx <= 0 && in_window((old_start.n as int, old_start.d as int), (end.n as int, end.d as int), dq, qx)
                && row <= db < d && -db <= bx <= 0 && blocker_at(blocks, origin, o, db, bx) ==> !shadows(db, bx, dq, qx),
    ensures
        frac_le(start.n as int, start.d as int, start0.n as int, start0.d as int),
        forall|dq: int, qx: int, db: int, bx: int|
            #![trigger in_window((start.n as int, start.d as int), (end.n as int, end.d as int), dq, qx), blocker_at(blocks, origin, o, db, bx)]
            d <= dq <= radius && -dq <= qx <= 0 && in_window((start.n as int, start.d as int), (end.n as int, end.d as int), dq, qx)
                && row <= db < d && -db <= bx <= 0 && blocker_at(blocks, origin, o, db, bx) ==> !shadows(db, bx, dq, qx),
        forall|bx: int|
            -d <= bx < dx ==> #[trigger] frac_le(start.n as int, start.d as int, -2 * bx - 1, 2 * d + 1),
{
    lemma_frac_le_trans(start.n as int, start.d as int, old_start.n as int, old_start.d as int, start0.n as int, start0.d as int);
    assert forall|dq: int, qx: int| #![trigger in_window((start.n as int, start.d as int), (end.n as int, end.d as int), dq, qx)]
        d <= dq <= radius && -dq <= qx <= 0 && in_window((start.n as int, start.d as int), (end.n as int, end.d as int), dq, qx)
        implies in_window((old_start.n as int, old_start.d as int), (end.n as int, end.d as int), dq, qx) by {
        lemma_frac_le_trans(-2 * qx - 1, 2 * dq + 1, start.n as int, start.d as int, old_start.n as int, old_start.d as int);
    }
    assert forall|bx: int| -d <= bx < dx implies #[trigger] frac_le(start.n as int, start.d as int, -2 * bx - 1, 2 * d + 1) by {
        lemma_same_den(1 - 2 * dx, -2 * bx - 1, 2 * d + 1);
    }
}

/// The cells a recursive scan behind a blocker adds are lit: earlier
/// rows' shadows miss the window, the blockers of the blocker's row lie
/// outside the recursive window, and later rows are the recursion's own.
proof fn lemma_lift_shadowed<F: Fn(i32, i32) -> bool>(
    blocks: F,
    origin: (i32, i32),
    radius: i32,
    o: int,
    row: int,
    start0: Slope,
    end: Slope,
    start: Slope,
    l: Slope,
    d: int,
    dx: int,
    old: Seq<(i32, i32)>,
    before: Seq<(i32, i32)>,
    after: Seq<(i32, i32)>,
)
    requires
        slope_ok(start0),
        slope_ok(end),
        slope_ok(start),
        1 <= row <= d < radius,
        -d <= dx <= 0,
        l.n == -2 * dx + 1,
        l.d == 2 * d - 1,
        frac_le(end.n as int, end.d as int, -2 * dx + 1, 2 * d - 1),
        frac_le(start.n as int, start.d as int, start0.n as int, start0.d as int),
        new_lit(blocks, origin, radius, o, row, (start0.n as int, start0.d as int), (end.n as int, end.d as int), old, before),
        new_lit(blocks, origin, radius, o, d + 1, (start.n as int, start.d as int), (l.n as int, l.d as int), before, after),
        forall|dq: int, qx: int, db: int, bx: int|
            #![trigger in_window((start.n as int, start.d as int), (end.n as int, end.d as int), dq, qx), blocker_at(blocks, origin, o, db, bx)]
            d <= dq <= radius && -dq <= qx <= 0 && in_window((start.n as int, start.d as int), (end.n as int, end.d as int), dq, qx)
                && row <= db < d && -db <= bx <= 0 && blocker_at(blocks, origin, o, db, bx) ==> !shadows(db, bx, dq, qx),
        forall|bx: int|
            -d <= bx < dx && d < radius && #[trigger] blocker_at(blocks, origin, o, d, bx) ==> frac_le(
                start.n as int,
                start.d as int,
                -2 * bx - 1,
                2 * d + 1,
            ),
    ensures
        new_lit(blocks, origin, radius, o, row, (start0.n as int, start0.d as int), (end.n as int, end.d as int), old, after),
{
    let s0 = (start0.n as int, start0.d as int);
    let e = (end.n as int, end.d as int);
    let sc = (start.n as int, start.d as int);
    assert forall|q: (i32, i32)| after.contains(q) && !old.contains(q) implies exists|dd: int, xx: int|
        row <= dd <= radius && -dd <= xx <= 0 && q == #[trigger] octant_cell(origin, xx, -dd, o) && in_window(s0, e, dd, xx)
            && lit(blocks, origin, o, row, dd, xx) by {
        if !before.contains(q) {
            let (d2, x2) = choose|dd: int, xx: int|
                d + 1 <= dd <= radius && -dd <= xx <= 0 && q == #[trigger] octant_cell(origin, xx, -dd, o) && in_window(
                    sc,
                    (l.n as int, l.d as int),
                    dd,
                    xx,
                ) && lit(blocks, origin, o, d + 1, dd, xx);
            lemma_frac_le_trans(-2 * x2 - 1, 2 * d2 + 1, start.n as int, start.d as int, start0.n as int, start0.d as int);
            lemma_frac_le_trans(end.n as int, end.d as int, -2 * dx + 1, 2 * d - 1, -2 * x2 + 1, 2 * d2 - 1);
            assert(in_window(sc, e, d2, x2));
            assert forall|db: int, bx: int|
                row <= db < d2 && -db <= bx <= 0 && #[trigger] blocker_at(blocks, origin, o, db, bx) implies !shadows(
                db,
                bx,
                d2,
                x2,
            ) by {
                if db == d {
                    if bx < dx {
                        lemma_frac_le_trans(-2 * x2 - 1, 2 * d2 + 1, start.n as int, start.d as int, -2 * bx - 1, 2 * d + 1);
                    } else if bx > dx {
                        lemma_same_den(-2 * bx + 1, -2 * dx + 1, 2 * d - 1);
                        lemma_frac_lt_le(-2 * bx + 1, 2 * d - 1, -2 * dx + 1, 2 * d - 1, -2 * x2 + 1, 2 * d2 - 1);
                    }
                }
            }
            assert(q == octant_cell(origin, x2, -d2, o));
        }
    }
}

/// A row scanned to its end without a blocker at its end: its blockers
/// lie outside the window left for later rows.
proof fn lemma_row_done<F: Fn(i32, i32) -> bool>(
    blocks: F,
    origin: (i32, i32),
    radius: i32,
    o: int,
    row: int,
    start: Slope,
    end: Slope,
    d: int,
)
    requires
        slope_ok(start),
        slope_ok(end),
        d >= 1,
        forall|dq: int, qx: int, db: int, bx: int|
            #![trigger in_window((start.n as int, start.d as int), (end.n as int, end.d as int), dq, qx), blocker_at(blocks, origin, o, db, bx)]
            d <= dq <= radius && -dq <= qx <= 0 && in_window((start.n as int, start.d as int), (end.n as int, end.d as int), dq, qx)
                && row <= db < d && -db <= bx <= 0 && blocker_at(blocks, origin, o, db, bx) ==> !shadows(db, bx, dq, qx),
        forall|bx: int|
            -d <= bx <= 0 && d < radius && #[trigger] blocker_at(blocks, origin, o, d, bx) ==> frac_le(
                start.n as int,
                start.d as int,
                -2 * bx - 1,
                2 * d + 1,
            ) || frac_lt(-2 * bx + 1, 2 * d - 1, end.n as int, end.d as int),
    ensures
        forall|dq: int, qx: int, db: int, bx: int|
            #![trigger in_window((start.n as int, start.d as int), (end.n as int, end.d as int), dq, qx), blocker_at(blocks, origin, o, db, bx)]
            d + 1 <= dq <= radius && -dq <= qx <= 0 && in_window((start.n as int, start.d as int), (end.n as int, end.d as int), dq, qx)
                && row <= db < d + 1 && -db <= bx <= 0 && blocker_at(blocks, origin, o, db, bx) ==> !shadows(db, bx, dq, qx),
{
    assert forall|dq: int, qx: int, db: int, bx: int|
        #![trigger in_window((start.n as int, start.d as int), (end.n as int, end.d as int), dq, qx), blocker_at(blocks, origin, o, db, bx)]
        d + 1 <= dq <= radius && -dq <= qx <= 0 && in_window((start.n as int, start.d as int), (end.n as int, end.d as int), dq, qx)
            && row <= db < d + 1 && -db <= bx <= 0 && blocker_at(blocks, origin, o, db, bx) implies !shadows(db, bx, dq, qx) by {
        if db == d {
            if frac_le(start.n as int, start.d as int, -2 * bx - 1, 2 * d + 1) {
                lemma_frac_le_trans(-2 * qx - 1, 2 * dq + 1, start.n as int, start.d as int, -2 * bx - 1, 2 * d + 1);
            } else {
                lemma_frac_lt_le(-2 * bx + 1, 2 * d - 1, end.n as int, end.d as int, -2 * qx + 1, 2 * dq - 1);
            }
        }
    }
}

/// Slope `s = s.0 / s.1` lies in the slope span of octant cell `(dx, -d)`:
/// from its right edge `(-2dx - 1) / (2d + 1)` to its left edge
/// `(-2dx + 1) / (2d - 1)`.
pub open spec fn ray_through(s: (int, int), d: int, dx: int) -> bool {
    frac_le(-2 * dx - 1, 2 * d + 1, s.0, s.1) && frac_le(s.0, s.1, -2 * dx + 1, 2 * d - 1)
}

/// Every answer `blocks` can give for cell `p` is `false`.
pub open spec fn surely_clear<F: Fn(i32, i32) -> bool>(blocks: F, p: (i32, i32)) -> bool {
    forall|res: bool| #[trigger] blocks.ensures((p.0, p.1), res) ==> !res
}

/// Every cell of rows `row..d` of `octant` whose span holds slope `s` is
/// surely clear: the ray along `s` is open up to row `d`.
pub open spec fn ray_clear<F: Fn(i32, i32) -> bool>(blocks: F, origin: (i32, i32), octant: int, row: int, d: int, s: (int, int)) -> bool {
    forall|db: int, bx: int|
        row <= db < d && -db <= bx <= 0 && #[trigger] ray_through(s, db, bx) ==> surely_clear(
            blocks,
            octant_cell(origin, bx, -db, octant),
        )
}

/// Octant cell `(qx, -dq)` of rows `row..=radius`, inside the disc, is
/// reached by an open ray `s` that lies in the window from `end` up to
/// `start`.
pub open spec fn ray_sees<F: Fn(i32, i32) -> bool>(
    blocks: F,
    origin: (i32, i32),
    radius: int,
    octant: int,
    row: int,
    start: (int, int),
    end: (int, int),
    dq: int,
    qx: int,
    s: (int, int),
) -> bool {
    &&& row <= dq <= radius
    &&& -dq <= qx <= 0
    &&& qx * qx + dq * dq <= radius * radius
    &&& s.1 > 0
    &&& frac_le(end.0, end.1, s.0, s.1)
    &&& frac_le(s.0, s.1, start.0, start.1)
    &&& ray_through(s, dq, qx)
    &&& ray_clear(blocks, origin, octant, row, dq, s)
}

/// Every cell an open ray reaches on rows before `d` is in `v`.
#[verifier::opaque]
spec fn seen_before<F: Fn(i32, i32) -> bool>(
    blocks: F, origin: (i32, i32), radius: int, o: int, row: int, s0: (int, int), e: (int, int), d: int, v: Seq<(i32, i32)>,
) -> bool {
    forall|dq: int, qx: int, s: (int, int)|
        #[trigger] ray_sees(blocks, origin, radius, o, row, s0, e, dq, qx, s) && dq < d ==> v.contains(
            octant_cell(origin, qx, -dq, o),
        )
}

/// Every cell an open ray reaches on row `d` left of `upto` is in `v`.
#[verifier::opaque]
spec fn row_seen_before<F: Fn(i32, i32) -> bool>(
    blocks: F, origin: (i32, i32), radius: int, o: int, row: int, s0: (int, int), e: (int, int), d: int, upto: int,
    v: Seq<(i32, i32)>,
) -> bool {
    forall|qx: int, s: (int, int)|
        #[trigger] ray_sees(blocks, origin, radius, o, row, s0, e, d, qx, s) && qx < upto ==> v.contains(
            octant_cell(origin, qx, -d, o),
        )
}

/// Every cell an open ray reaches on row `d` from `from` on is in `v`, or
/// its ray is at most `st`.
#[verifier::opaque]
spec fn row_waiting<F: Fn(i32, i32) -> bool>(
    blocks: F, origin: (i32, i32), radius: int, o: int, row: int, s0: (int, int), e: (int, int), d: int, from: int,
    st: (int, int), v: Seq<(i32, i32)>,
) -> bool {
    forall|qx: int, s: (int, int)|
        #[trigger] ray_sees(blocks, origin, radius, o, row, s0, e, d, qx, s) && qx >= from ==> v.contains(
            octant_cell(origin, qx, -d, o),
        ) || frac_le(s.0, s.1, st.0, st.1)
}

/// Every cell an open ray reaches beyond row `d` is in `v`, or its ray is
/// at most `st` and, in a blocked run, below the run's left edge `run_l`.
#[verifier::opaque]
spec fn later_waiting<F: Fn(i32, i32) -> bool>(
    blocks: F, origin: (i32, i32), radius: int, o: int, row: int, s0: (int, int), e: (int, int), d: int,
    st: (int, int), blocked: bool, run_l: (int, int), v: Seq<(i32, i32)>,
) -> bool {
    forall|dq: int, qx: int, s: (int, int)|
        #[trigger] ray_sees(blocks, origin, radius, o, row, s0, e, dq, qx, s) && dq > d ==> v.contains(
            octant_cell(origin, qx, -dq, o),
        ) || (frac_le(s.0, s.1, st.0, st.1) && (blocked ==> frac_lt(s.0, s.1, run_l.0, run_l.1)))
}

/// Cells `first..upto` of row `d` answered that they block sight.
spec fn run_blocked<F: Fn(i32, i32) -> bool>(blocks: F, origin: (i32, i32), o: int, d: int, first: int, upto: int) -> bool {
    forall|bx: int|
        first <= bx < upto ==> #[trigger] blocks.ensures(
            (octant_cell(origin, bx, -d, o).0, octant_cell(origin, bx, -d, o).1),
            true,
        )
}

/// A slope between the right edge of the last cell and the left edge of
/// the first cell of a stretch of row `d` lies in the span of one of them.
proof fn lemma_ray_in_stretch(s: (int, int), d: int, first: int, last: int) -> (bx: int)
    requires
        d >= 1,
        -d <= first <= last <= 0,
        s.1 > 0,
        frac_le(-2 * last - 1, 2 * d + 1, s.0, s.1),
        frac_le(s.0, s.1, -2 * first + 1, 2 * d - 1),
    ensures
        first <= bx <= last,
        ray_through(s, d, bx),
    decreases last - first,
{
    if frac_le(-2 * first - 1, 2 * d + 1, s.0, s.1) {
        first
    } else {
        assert(first < last) by {
            if first == last {
                assert(frac_le(-2 * first - 1, 2 * d + 1, s.0, s.1));
            }
        }
        lemma_nested_edges(-2 * first - 1, d);
        lemma_frac_lt_le(s.0, s.1, -2 * first - 1, 2 * d + 1, -2 * first - 1, 2 * d - 1);
        lemma_ray_in_stretch(s, d, first + 1, last)
    }
}

/// For a non-negative numerator, the right edge over `2d + 1` is at most
/// the left edge over `2d - 1`.
proof fn lemma_nested_edges(a: int, d: int)
    requires
        a >= 0,
        d >= 1,
    ensures
        frac_le(a, 2 * d + 1, a, 2 * d - 1),
{
    assert(a * (2 * d - 1) <= a * (2 * d + 1)) by (nonlinear_arith)
        requires
            a >= 0,
            d >= 1,
    ;
}

/// The left edge of cell `dx + 1` is at most the right edge of cell
/// `dx - 1` on row `d`.
proof fn lemma_left_of_next(d: int, dx: int)
    requires
        d >= 1,
        -d <= dx <= 0,
    ensures
        frac_le(-2 * dx - 1, 2 * d - 1, -2 * dx + 1, 2 * d + 1),
{
    assert((-2 * dx - 1) * (2 * d + 1) <= (-2 * dx + 1) * (2 * d - 1)) by (nonlinear_arith)
        requires
            d >= 1,
            -d <= dx <= 0,
    ;
}

/// The left edge of a cell bounds the left edges of the cells right of it.
proof fn lemma_left_edge_mono(d: int, a: int, b: int)
    requires
        d >= 1,
        a <= b,
    ensures
        frac_le(-2 * b + 1, 2 * d - 1, -2 * a + 1, 2 * d - 1),
{
    lemma_same_den(-2 * b + 1, -2 * a + 1, 2 * d - 1);
}

/// The visible set only grows: every waiting fact carries over.
proof fn lemma_waiting_grow<F: Fn(i32, i32) -> bool>(
    blocks: F, origin: (i32, i32), radius: int, o: int, row: int, s0: (int, int), e: (int, int), d: int, dx: int,
    st: (int, int), blocked: bool, run_l: (int, int), v1: Seq<(i32, i32)>, v2: Seq<(i32, i32)>,
)
    requires
        forall|q: (i32, i32)| v1.contains(q) ==> v2.contains(q),
        seen_before(blocks, origin, radius, o, row, s0, e, d, v1),
        row_seen_before(blocks, origin, radius, o, row, s0, e, d, dx, v1),
        row_waiting(blocks, origin, radius, o, row, s0, e, d, dx, st, v1),
        later_waiting(blocks, origin, radius, o, row, s0, e, d, st, blocked, run_l, v1),
    ensures
        seen_before(blocks, origin, radius, o, row, s0, e, d, v2),
        row_seen_before(blocks, origin, radius, o, row, s0, e, d, dx, v2),
        row_waiting(blocks, origin, radius, o, row, s0, e, d, dx, st, v2),
        later_waiting(blocks, origin, radius, o, row, s0, e, d, st, blocked, run_l, v2),
{
    reveal(seen_before);
    reveal(row_seen_before);
    reveal(row_waiting);
    reveal(later_waiting);
}

/// The state a cast starts from.
proof fn lemma_waiting_init<F: Fn(i32, i32) -> bool>(
    blocks: F, origin: (i32, i32), radius: int, o: int, row: int, s0: (int, int), e: (int, int), v: Seq<(i32, i32)>,
    run_l: (int, int),
)
    ensures
        seen_before(blocks, origin, radius, o, row, s0, e, row, v),
        row_seen_before(blocks, origin, radius, o, row, s0, e, row, -row, v),
        row_waiting(blocks, origin, radius, o, row, s0, e, row, -row, s0, v),
        later_waiting(blocks, origin, radius, o, row, s0, e, row, s0, false, run_l, v),
{
    reveal(seen_before);
    reveal(row_seen_before);
    reveal(row_waiting);
    reveal(later_waiting);
}

/// Cell `dx` of row `d` was taken in (when inside the disc): the row is
/// seen through `dx`.
proof fn lemma_cell_taken<F: Fn(i32, i32) -> bool>(
    blocks: F, origin: (i32, i32), radius: int, o: int, row: int, s0: (int, int), e: (int, int), d: int, dx: int,
    st: (int, int), v: Seq<(i32, i32)>,
)
    requires
        row_seen_before(blocks, origin, radius, o, row, s0, e, d, dx, v),
        row_waiting(blocks, origin, radius, o, row, s0, e, d, dx, st, v),
        dx * dx + d * d <= radius * radius ==> v.contains(octant_cell(origin, dx, -d, o)),
    ensures
        row_seen_before(blocks, origin, radius, o, row, s0, e, d, dx + 1, v),
        row_waiting(blocks, origin, radius, o, row, s0, e, d, dx + 1, st, v),
{
    reveal(row_seen_before);
    reveal(row_waiting);
}

/// Cell `dx` of row `d` lies right of the window's start: no open ray
/// in the window reaches it.
proof fn lemma_cell_skipped<F: Fn(i32, i32) -> bool>(
    blocks: F, origin: (i32, i32), radius: int, o: int, row: int, s0: (int, int), e: (int, int), d: int, dx: int,
    st: (int, int), v: Seq<(i32, i32)>,
)
    requires
        st.1 > 0,
        d >= 1,
        row_seen_before(blocks, origin, radius, o, row, s0, e, d, dx, v),
        row_waiting(blocks, origin, radius, o, row, s0, e, d, dx, st, v),
        frac_lt(st.0, st.1, -2 * dx - 1, 2 * d + 1),
    ensures
        row_seen_before(blocks, origin, radius, o, row, s0, e, d, dx + 1, v),
        row_waiting(blocks, origin, radius, o, row, s0, e, d, dx + 1, st, v),
{
    reveal(row_seen_before);
    reveal(row_waiting);
    assert forall|qx: int, s: (int, int)|
        #[trigger] ray_sees(blocks, origin, radius, o, row, s0, e, d, qx, s) && qx < dx + 1 implies v.contains(
            octant_cell(origin, qx, -d, o),
        ) by {
        if qx == dx && !v.contains(octant_cell(origin, qx, -d, o)) {
            lemma_frac_le_lt(s.0, s.1, st.0, st.1, -2 * dx - 1, 2 * d + 1);
        }
    }
}

/// A blocker opens a run at cell `dx`: the rays at or left of its left
/// edge were handed to the recursive cast, which saw their cells; the
/// others wait below that edge.
proof fn lemma_run_opens<F: Fn(i32, i32) -> bool>(
    blocks: F, origin: (i32, i32), radius: int, o: int, row: int, s0: (int, int), e: (int, int), d: int, dx: int,
    st: (int, int), old_l: (int, int), v1: Seq<(i32, i32)>, v2: Seq<(i32, i32)>,
)
    requires
        row <= d,
        d >= 1,
        forall|q: (i32, i32)| v1.contains(q) ==> v2.contains(q),
        later_waiting(blocks, origin, radius, o, row, s0, e, d, st, false, old_l, v1),
        seen_before(blocks, origin, radius, o, d + 1, st, (-2 * dx + 1, 2 * d - 1), radius + 1, v2),
    ensures
        later_waiting(blocks, origin, radius, o, row, s0, e, d, st, true, (-2 * dx + 1, 2 * d - 1), v2),
{
    reveal(later_waiting);
    reveal(seen_before);
    let l = (-2 * dx + 1, 2 * d - 1);
    assert forall|dq: int, qx: int, s: (int, int)|
        #[trigger] ray_sees(blocks, origin, radius, o, row, s0, e, dq, qx, s) && dq > d implies v2.contains(
            octant_cell(origin, qx, -dq, o),
        ) || (frac_le(s.0, s.1, st.0, st.1) && frac_lt(s.0, s.1, l.0, l.1)) by {
        if !v2.contains(octant_cell(origin, qx, -dq, o)) {
            assert(!v1.contains(octant_cell(origin, qx, -dq, o)));
            if !frac_lt(s.0, s.1, l.0, l.1) {
                assert forall|db: int, bx: int|
                    d + 1 <= db < dq && -db <= bx <= 0 && #[trigger] ray_through(s, db, bx) implies surely_clear(
                    blocks,
                    octant_cell(origin, bx, -db, o),
                ) by {
                    assert(row <= db);
                }
                assert(ray_sees(blocks, origin, radius, o, d + 1, st, l, dq, qx, s));
            }
        }
    }
}

/// A run of blockers from cell `first` to cell `dx - 1` ends: no open ray
/// crosses it, so every waiting ray lies right of the run, at most its
/// right edge, which is the new start.
proof fn lemma_run_closes<F: Fn(i32, i32) -> bool>(
    blocks: F, origin: (i32, i32), radius: int, o: int, row: int, s0: (int, int), e: (int, int), d: int, dx: int,
    first: int, st: (int, int), v: Seq<(i32, i32)>,
)
    requires
        row <= d,
        d >= 1,
        -d <= first < dx <= 0,
        later_waiting(blocks, origin, radius, o, row, s0, e, d, st, true, (-2 * first + 1, 2 * d - 1), v),
        run_blocked(blocks, origin, o, d, first, dx),
    ensures
        later_waiting(blocks, origin, radius, o, row, s0, e, d, (-2 * dx + 1, 2 * d + 1), false, (-2 * first + 1, 2 * d - 1), v),
{
    reveal(later_waiting);
    assert forall|dq: int, qx: int, s: (int, int)|
        #[trigger] ray_sees(blocks, origin, radius, o, row, s0, e, dq, qx, s) && dq > d implies v.contains(
            octant_cell(origin, qx, -dq, o),
        ) || frac_le(s.0, s.1, -2 * dx + 1, 2 * d + 1) by {
        if !v.contains(octant_cell(origin, qx, -dq, o)) && !frac_le(s.0, s.1, -2 * dx + 1, 2 * d + 1) {
            let bx = lemma_ray_in_stretch(s, d, first, dx - 1);
            let p = octant_cell(origin, bx, -d, o);
            assert(blocks.ensures((p.0, p.1), true));
            assert(surely_clear(blocks, p));
        }
    }
}

/// After the start moves to the right edge of cell `dx - 1`, the cells of
/// the row right of `dx` still wait within it.
proof fn lemma_row_restart<F: Fn(i32, i32) -> bool>(
    blocks: F, origin: (i32, i32), radius: int, o: int, row: int, s0: (int, int), e: (int, int), d: int, dx: int,
    st: (int, int), v: Seq<(i32, i32)>,
)
    requires
        d >= 1,
        -d <= dx <= 0,
        row_waiting(blocks, origin, radius, o, row, s0, e, d, dx + 1, st, v),
    ensures
        row_waiting(blocks, origin, radius, o, row, s0, e, d, dx + 1, (-2 * dx + 1, 2 * d + 1), v),
{
    reveal(row_waiting);
    assert forall|qx: int, s: (int, int)|
        #[trigger] ray_sees(blocks, origin, radius, o, row, s0, e, d, qx, s) && qx >= dx + 1 implies v.contains(
            octant_cell(origin, qx, -d, o),
        ) || frac_le(s.0, s.1, -2 * dx + 1, 2 * d + 1) by {
        lemma_left_edge_mono(d, dx + 1, qx);
        lemma_left_of_next(d, dx);
        lemma_frac_le_trans(s.0, s.1, -2 * qx + 1, 2 * d - 1, -2 * dx - 1, 2 * d - 1);
        lemma_frac_le_trans(s.0, s.1, -2 * dx - 1, 2 * d - 1, -2 * dx + 1, 2 * d + 1);
    }
}

/// Relabels the run edge of a state with no run.
proof fn lemma_later_relabel<F: Fn(i32, i32) -> bool>(
    blocks: F, origin: (i32, i32), radius: int, o: int, row: int, s0: (int, int), e: (int, int), d: int,
    st: (int, int), l1: (int, int), l2: (int, int), v: Seq<(i32, i32)>,
)
    requires
        later_waiting(blocks, origin, radius, o, row, s0, e, d, st, false, l1, v),
    ensures
        later_waiting(blocks, origin, radius, o, row, s0, e, d, st, false, l2, v),
{
    reveal(later_waiting);
}

/// End of row `d`, left at cell `dx`: either every cell was walked, or
/// cell `dx` lay left of the window's end. Every open ray of the row met
/// its cell. A run still open at the row's end covers every ray left in
/// the window, so those cells were all handed down; otherwise the next
/// row starts waiting on the same start.
proof fn lemma_row_end<F: Fn(i32, i32) -> bool>(
    blocks: F, origin: (i32, i32), radius: int, o: int, row: int, s0: (int, int), e: (int, int), d: int, dx: int,
    first: int, st: (int, int), blocked: bool, v: Seq<(i32, i32)>,
)
    requires
        row <= d,
        d >= 1,
        -d <= dx <= 1,
        e.1 > 0,
        e.0 >= 0,
        dx == 1 || frac_lt(-2 * dx + 1, 2 * d - 1, e.0, e.1),
        seen_before(blocks, origin, radius, o, row, s0, e, d, v),
        row_seen_before(blocks, origin, radius, o, row, s0, e, d, dx, v),
        row_waiting(blocks, origin, radius, o, row, s0, e, d, dx, st, v),
        later_waiting(blocks, origin, radius, o, row, s0, e, d, st, blocked, (-2 * first + 1, 2 * d - 1), v),
        blocked ==> -d <= first < dx && run_blocked(blocks, origin, o, d, first, dx),
    ensures
        seen_before(blocks, origin, radius, o, row, s0, e, d + 1, v),
        blocked ==> seen_before(blocks, origin, radius, o, row, s0, e, radius + 1, v),
        !blocked ==> row_seen_before(blocks, origin, radius, o, row, s0, e, d + 1, -(d + 1), v),
        !blocked ==> row_waiting(blocks, origin, radius, o, row, s0, e, d + 1, -(d + 1), st, v),
        !blocked ==> later_waiting(blocks, origin, radius, o, row, s0, e, d + 1, st, false, (0, 1), v),
{
    reveal(seen_before);
    reveal(row_seen_before);
    reveal(row_waiting);
    reveal(later_waiting);
    assert forall|dq: int, qx: int, s: (int, int)|
        #[trigger] ray_sees(blocks, origin, radius, o, row, s0, e, dq, qx, s) && dq < d + 1 implies v.contains(
            octant_cell(origin, qx, -dq, o),
        ) by {
        if dq == d && qx >= dx && dx <= 0 {
            lemma_left_edge_mono(d, dx, qx);
            lemma_frac_le_trans(s.0, s.1, -2 * qx + 1, 2 * d - 1, -2 * dx + 1, 2 * d - 1);
            lemma_frac_le_lt(s.0, s.1, -2 * dx + 1, 2 * d - 1, e.0, e.1);
            lemma_frac_le_lt(e.0, e.1, s.0, s.1, e.0, e.1);
        }
    }
    if blocked {
        assert forall|dq: int, qx: int, s: (int, int)|
            #[trigger] ray_sees(blocks, origin, radius, o, row, s0, e, dq, qx, s) && dq < radius + 1 implies v.contains(
                octant_cell(origin, qx, -dq, o),
            ) by {
            if dq > d && !v.contains(octant_cell(origin, qx, -dq, o)) {
                if dx == 1 {
                    assert(s.0 >= 0) by (nonlinear_arith)
                        requires
                            e.0 * s.1 <= s.0 * e.1,
                            e.0 >= 0,
                            e.1 > 0,
                            s.1 > 0,
                    ;
                    assert(-1 * s.1 <= s.0 * (2 * d + 1)) by (nonlinear_arith)
                        requires
                            s.0 >= 0,
                            s.1 > 0,
                            d >= 1,
                    ;
                } else {
                    lemma_nested_edges(-2 * dx + 1, d);
                    lemma_frac_le_lt(-2 * dx + 1, 2 * d + 1, -2 * dx + 1, 2 * d - 1, e.0, e.1);
                    lemma_frac_lt_le(-2 * dx + 1, 2 * d + 1, e.0, e.1, s.0, s.1);
                }
                let bx = lemma_ray_in_stretch(s, d, first, dx - 1);
                let p = octant_cell(origin, bx, -d, o);
                assert(blocks.ensures((p.0, p.1), true));
                assert(surely_clear(blocks, p));
            }
        }
    }
}

/// A window that closed before it opened reaches nothing.
proof fn lemma_empty_window<F: Fn(i32, i32) -> bool>(
    blocks: F, origin: (i32, i32), radius: int, o: int, row: int, s0: (int, int), e: (int, int), v: Seq<(i32, i32)>,
)
    requires
        s0.1 > 0,
        e.1 > 0,
        frac_lt(s0.0, s0.1, e.0, e.1),
    ensures
        seen_before(blocks, origin, radius, o, row, s0, e, radius + 1, v),
{
    reveal(seen_before);
    assert forall|dq: int, qx: int, s: (int, int)|
        #[trigger] ray_sees(blocks, origin, radius, o, row, s0, e, dq, qx, s) && dq < radius + 1 implies v.contains(
            octant_cell(origin, qx, -dq, o),
        ) by {
        lemma_frac_le_trans(e.0, e.1, s.0, s.1, s0.0, s0.1);
    }
}

/// What one octant saw stays seen as the set grows.
proof fn lemma_seen_grow<F: Fn(i32, i32) -> bool>(
    blocks: F, origin: (i32, i32), radius: int, o: int, row: int, s0: (int, int), e: (int, int), d: int,
    v1: Seq<(i32, i32)>, v2: Seq<(i32, i32)>,
)
    requires
        forall|q: (i32, i32)| v1.contains(q) ==> v2.contains(q),
        seen_before(blocks, origin, radius, o, row, s0, e, d, v1),
    ensures
        seen_before(blocks, origin, radius, o, row, s0, e, d, v2),
{
    reveal(seen_before);
}

/// The rays a full octant cast reaches are seen.
proof fn lemma_seen_all<F: Fn(i32, i32) -> bool>(
    blocks: F, origin: (i32, i32), radius: int, o: int, v: Seq<(i32, i32)>,
)
    requires
        seen_before(blocks, origin, radius, o, 1, (1, 1), (0, 1), radius + 1, v),
    ensures
        forall|d: int, dx: int, s: (int, int)|
            #[trigger] ray_sees(blocks, origin, radius, o, 1, (1, 1), (0, 1), d, dx, s) ==> v.contains(
                octant_cell(origin, dx, -d, o),
            ),
{
    reveal(seen_before);
}

fn cast<F: Fn(i32, i32) -> bool>(
    blocks: &F,
    origin: (i32, i32),
    radius: i32,
    visible: &mut Vec<(i32, i32)>,
    octant: usize,
    row: i32,
    start0: Slope,
    end: Slope,
)
    requires
        octant < 8,
        1 <= row <= radius,
        fov_fits(origin, radius),
        slope_ok(start0),
        slope_ok(end),
        end.n >= 0,
        cast_ok(origin, radius, old(visible)@),
        forall|x: i32, y: i32| blocks.requires((x, y)),
    ensures
        cast_ok(origin, radius, final(visible)@),
        seen_before(*blocks, origin, radius as int, octant as int, row as int, (start0.n as int, start0.d as int), (end.n as int, end.d as int), radius + 1, final(visible)@),
        forall|q: (i32, i32)| old(visible)@.contains(q) ==> final(visible)@.contains(q),
        open_field(*blocks) && start0.n >= start0.d && end.n <= 0 ==> rows_seen(
            origin,
            radius,
            octant as int,
            row as int,
            radius as int,
            final(visible)@,
        ),
        new_lit(*blocks, origin, radius, octant as int, row as int, (start0.n as int, start0.d as int), (end.n as int, end.d as int), old(visible)@, final(visible)@),
    decreases radius - row,
{
    let ghost open = open_field(*blocks) && start0.n >= start0.d && end.n <= 0;
    let mut start = start0;
    if slope_lt(start, end) {
        proof {
            if open {
                assert(start.n * end.d >= end.n * start.d) by (nonlinear_arith)
                    requires
                        start.n >= start.d >= 1,
                        end.n <= 0,
                        end.d >= 1,
                ;
            }
            lemma_empty_window(*blocks, origin, radius as int, octant as int, row as int, (start0.n as int, start0.d as int), (end.n as int, end.d as int), visible@);
        }
        return;
    }
    let mut new_start = Slope { n: 0, d: 1 };
    let mut distance: i64 = row as i64;
    let ghost s0 = (start0.n as int, start0.d as int);
    let ghost e = (end.n as int, end.d as int);
    let ghost o = octant as int;
    let ghost rr = radius as int;
    let ghost row_i = row as int;
    proof {
        lemma_waiting_init(*blocks, origin, rr, o, row_i, s0, e, visible@, (0, 1));
    }
    while distance <= radius as i64
        invariant_except_break
            row_seen_before(*blocks, origin, rr, o, row_i, s0, e, distance as int, -distance, visible@),
            row_waiting(*blocks, origin, rr, o, row_i, s0, e, distance as int, -distance, (start.n as int, start.d as int), visible@),
            later_waiting(*blocks, origin, rr, o, row_i, s0, e, distance as int, (start.n as int, start.d as int), false, (0, 1), visible@),
        invariant
            end.n >= 0,
            s0 == (start0.n as int, start0.d as int),
            e == (end.n as int, end.d as int),
            o == octant as int,
            rr == radius as int,
            row_i == row as int,
            seen_before(*blocks, origin, rr, o, row_i, s0, e, distance as int, visible@),
            octant < 8,
            1 <= row <= distance,
            distance <= radius + 1,
            fov_fits(origin, radius),
            slope_ok(start),
            slope_ok(end),
            slope_ok(new_start),
            cast_ok(origin, radius, visible@),
            forall|q: (i32, i32)| old(visible)@.contains(q) ==> visible@.contains(q),
            forall|x: i32, y: i32| blocks.requires((x, y)),
            open == (open_field(*blocks) && start0.n >= start0.d && end.n <= 0),
            open ==> start == start0,
            open ==> rows_seen(origin, radius, octant as int, row as int, distance - 1, visible@),
            slope_ok(start0),
            frac_le(start.n as int, start.d as int, start0.n as int, start0.d as int),
            new_lit(*blocks, origin, radius, octant as int, row as int, (start0.n as int, start0.d as int), (end.n as int, end.d as int), old(visible)@, visible@),
            forall|dq: int, qx: int, db: int, bx: int|
                #![trigger in_window((start.n as int, start.d as int), (end.n as int, end.d as int), dq, qx), blocker_at(*blocks, origin, octant as int, db, bx)]
                distance <= dq <= radius && -dq <= qx <= 0 && in_window((start.n as int, start.d as int), (end.n as int, end.d as int), dq, qx) && row <= db < distance && -db
                    <= bx <= 0 && blocker_at(*blocks, origin, octant as int, db, bx) ==> !shadows(db, bx, dq, qx),
        ensures
            cast_ok(origin, radius, visible@),
            forall|q: (i32, i32)| old(visible)@.contains(q) ==> visible@.contains(q),
            seen_before(*blocks, origin, rr, o, row_i, s0, e, rr + 1, visible@),
            open ==> rows_seen(origin, radius, octant as int, row as int, radius as int, visible@),
            new_lit(*blocks, origin, radius, octant as int, row as int, (start0.n as int, start0.d as int), (end.n as int, end.d as int), old(visible)@, visible@),
        decreases radius - distance + 1,
    {
        let dy: i32 = -(distance as i32);
        let mut blocked = false;
        let mut dx: i32 = dy;
        let ghost mut run_first: int = 0;
        proof {
            lemma_later_relabel(*blocks, origin, rr, o, row_i, s0, e, distance as int, (start.n as int, start.d as int), (0, 1), (-2 * run_first + 1, 2 * distance - 1), visible@);
        }
        while dx <= 0
            invariant
                end.n >= 0,
                s0 == (start0.n as int, start0.d as int),
                e == (end.n as int, end.d as int),
                o == octant as int,
                rr == radius as int,
                row_i == row as int,
                seen_before(*blocks, origin, rr, o, row_i, s0, e, distance as int, visible@),
                row_seen_before(*blocks, origin, rr, o, row_i, s0, e, distance as int, dx as int, visible@),
                row_waiting(*blocks, origin, rr, o, row_i, s0, e, distance as int, dx as int, (start.n as int, start.d as int), visible@),
                later_waiting(*blocks, origin, rr, o, row_i, s0, e, distance as int, (start.n as int, start.d as int), blocked, (-2 * run_first + 1, 2 * distance - 1), visible@),
                blocked ==> -distance <= run_first < dx && run_blocked(*blocks, origin, o, distance as int, run_first, dx as int),
                octant < 8,
                1 <= row <= distance <= radius,
                dy == -distance,
                -distance <= dx <= 1,
                fov_fits(origin, radius),
                slope_ok(start),
                slope_ok(end),
                slope_ok(new_start),
                cast_ok(origin, radius, visible@),
                forall|q: (i32, i32)| old(visible)@.contains(q) ==> visible@.contains(q),
                forall|x: i32, y: i32| blocks.requires((x, y)),
                open == (open_field(*blocks) && start0.n >= start0.d && end.n <= 0),
                open ==> start == start0 && !blocked,
                open ==> rows_seen(origin, radius, octant as int, row as int, distance - 1, visible@),
                open ==> row_seen_upto(origin, radius, octant as int, distance as int, dx as int, visible@),
                slope_ok(start0),
                frac_le(start.n as int, start.d as int, start0.n as int, start0.d as int),
                new_lit(*blocks, origin, radius, octant as int, row as int, (start0.n as int, start0.d as int), (end.n as int, end.d as int), old(visible)@, visible@),
                forall|dq: int, qx: int, db: int, bx: int|
                #![trigger in_window((start.n as int, start.d as int), (end.n as int, end.d as int), dq, qx), blocker_at(*blocks, origin, octant as int, db, bx)]
                distance <= dq <= radius && -dq <= qx <= 0 && in_window((start.n as int, start.d as int), (end.n as int, end.d as int), dq, qx) && row <= db < distance && -db
                    <= bx <= 0 && blocker_at(*blocks, origin, octant as int, db, bx) ==> !shadows(db, bx, dq, qx),
                blocked ==> new_start.n == 1 - 2 * dx && new_start.d == 2 * distance + 1,
                blocked ==> frac_le(new_start.n as int, new_start.d as int, start.n as int, start.d as int),
                forall|bx: int|
                    -distance <= bx < dx && distance < radius && #[trigger] blocker_at(*blocks, origin, octant as int, distance as int, bx)
                        ==> frac_le(start.n as int, start.d as int, -2 * bx - 1, 2 * distance + 1) || blocked,
            ensures
                1 <= row <= distance <= radius,
                -distance <= dx <= 1,
                dx == 1 || frac_lt(-2 * dx + 1, 2 * distance - 1, end.n as int, end.d as int),
                seen_before(*blocks, origin, rr, o, row_i, s0, e, distance as int, visible@),
                row_seen_before(*blocks, origin, rr, o, row_i, s0, e, distance as int, dx as int, visible@),
                row_waiting(*blocks, origin, rr, o, row_i, s0, e, distance as int, dx as int, (start.n as int, start.d as int), visible@),
                later_waiting(*blocks, origin, rr, o, row_i, s0, e, distance as int, (start.n as int, start.d as int), blocked, (-2 * run_first + 1, 2 * distance - 1), visible@),
                blocked ==> -distance <= run_first < dx && run_blocked(*blocks, origin, o, distance as int, run_first, dx as int),
                slope_ok(start),
                slope_ok(new_start),
                cast_ok(origin, radius, visible@),
                forall|q: (i32, i32)| old(visible)@.contains(q) ==> visible@.contains(q),
                open ==> start == start0 && !blocked,
                open ==> rows_seen(origin, radius, octant as int, row as int, distance as int, visible@),
                frac_le(start.n as int, start.d as int, start0.n as int, start0.d as int),
                new_lit(*blocks, origin, radius, octant as int, row as int, (start0.n as int, start0.d as int), (end.n as int, end.d as int), old(visible)@, visible@),
                forall|dq: int, qx: int, db: int, bx: int|
                #![trigger in_window((start.n as int, start.d as int), (end.n as int, end.d as int), dq, qx), blocker_at(*blocks, origin, octant as int, db, bx)]
                distance <= dq <= radius && -dq <= qx <= 0 && in_window((start.n as int, start.d as int), (end.n as int, end.d as int), dq, qx) && row <= db < distance && -db
                    <= bx <= 0 && blocker_at(*blocks, origin, octant as int, db, bx) ==> !shadows(db, bx, dq, qx),
                forall|bx: int|
                    -distance <= bx <= 0 && distance < radius && #[trigger] blocker_at(*blocks, origin, octant as int, distance as int, bx)
                        ==> frac_le(start.n as int, start.d as int, -2 * bx - 1, 2 * distance + 1) || blocked || frac_lt(
                        -2 * bx + 1,
                        2 * distance - 1,
                        end.n as int,
                        end.d as int,
                    ),
            decreases 1 - dx,
        {
            let ndx: i64 = -(dx as i64);
            let l_slope = Slope { n: 2 * ndx + 1, d: 2 * distance - 1 };
            let r_slope = Slope { n: 2 * ndx - 1, d: 2 * distance + 1 };
            if slope_lt(start, r_slope) {
                proof {
                    if open {
                        assert(start.n * r_slope.d >= r_slope.n * start.d) by (nonlinear_arith)
                            requires
                                start.n >= start.d >= 1,
                                r_slope.n < r_slope.d,
                                r_slope.d >= 1,
                        ;
                    }
                    if blocked {
                        lemma_frac_le_lt(
                            new_start.n as int,
                            new_start.d as int,
                            start.n as int,
                            start.d as int,
                            -2 * dx - 1,
                            2 * distance + 1,
                        );
                        lemma_same_den(-2 * dx - 1, 1 - 2 * dx, 2 * distance + 1);
                        assert(false);
                    }
                    lemma_cell_skipped(*blocks, origin, rr, o, row_i, s0, e, distance as int, dx as int, (start.n as int, start.d as int), visible@);
                }
                dx += 1;
                continue;
            }
            if slope_lt(l_slope, end) {
                proof {
                    if open {
                        assert(l_slope.n * end.d >= end.n * l_slope.d) by (nonlinear_arith)
                            requires
                                l_slope.n >= 1,
                                end.d >= 1,
                                end.n <= 0,
                                l_slope.d >= 1,
                        ;
                    }
                    assert forall|bx: int|
                        -distance <= bx <= 0 && distance < radius && #[trigger] blocker_at(*blocks, origin, octant as int, distance as int, bx)
                            implies frac_le(start.n as int, start.d as int, -2 * bx - 1, 2 * distance + 1) || blocked || frac_lt(
                        -2 * bx + 1,
                        2 * distance - 1,
                        end.n as int,
                        end.d as int,
                    ) by {
                        if bx >= dx {
                            lemma_same_den(-2 * bx + 1, -2 * dx + 1, 2 * distance - 1);
                            lemma_frac_le_lt(-2 * bx + 1, 2 * distance - 1, -2 * dx + 1, 2 * distance - 1, end.n as int, end.d as int);
                        }
                    }
                }
                break;
            }
            let (x, y) = transform(origin, dx, dy, octant);
            let dx64 = dx as i64;
            let dy64 = dy as i64;
            let r64 = radius as i64;
            proof {
                lemma_offset_norm(dx as int, dy as int, octant as int);
                assert(0 <= dx64 * dx64 <= 0x3fff_ffff_0000_0001) by (nonlinear_arith)
                    requires
                        -0x7fff_ffff <= dx64 <= 0,
                ;
                assert(0 <= dy64 * dy64 <= 0x3fff_ffff_0000_0001) by (nonlinear_arith)
                    requires
                        -0x7fff_ffff <= dy64 <= 0,
                ;
                assert(0 <= r64 * r64 <= 0x3fff_ffff_0000_0001) by (nonlinear_arith)
                    requires
                        0 <= r64 <= 0x7fff_ffff,
                ;
            }
            let ghost before_insert = visible@;
            if dx64 * dx64 + dy64 * dy64 <= r64 * r64 {
                insert_cell(visible, (x, y));
            }
            proof {
                assert((x, y) == octant_cell(origin, dx as int, dy as int, octant as int));
                if open {
                    assert forall|dd: int, ddx: int|
                        row <= dd <= distance - 1 && -dd <= ddx <= 0 && ddx * ddx + dd * dd <= radius * radius implies visible@.contains(
                        #[trigger] octant_cell(origin, ddx, -dd, octant as int),
                    ) by {
                        assert(before_insert.contains(octant_cell(origin, ddx, -dd, octant as int)));
                    }
                    assert forall|ddx: int|
                        -distance <= ddx < dx + 1 && ddx * ddx + distance * distance <= radius * radius implies visible@.contains(
                        #[trigger] octant_cell(origin, ddx, -distance, octant as int),
                    ) by {
                        if ddx < dx {
                            assert(before_insert.contains(octant_cell(origin, ddx, -distance, octant as int)));
                        } else {
                            assert(ddx * ddx == dx64 * dx64);
                            assert(distance * distance == dy64 * dy64) by (nonlinear_arith)
                                requires
                                    dy64 == -distance,
                            ;
                        }
                    }
                }
            }
            proof {
                assert(distance * distance == dy64 * dy64) by (nonlinear_arith)
                    requires
                        dy64 == -distance,
                ;
                lemma_waiting_grow(*blocks, origin, rr, o, row_i, s0, e, distance as int, dx as int, (start.n as int, start.d as int), blocked, (-2 * run_first + 1, 2 * distance - 1), before_insert, visible@);
                lemma_cell_taken(*blocks, origin, rr, o, row_i, s0, e, distance as int, dx as int, (start.n as int, start.d as int), visible@);
            }
            proof {
                lemma_window_entry(
                    *blocks, origin, radius, octant as int, row as int, start0, end, start, distance as int, dx as int,
                    old(visible)@, before_insert, visible@, (x, y),
                );
            }
            let is_blocker = blocks(x, y);
            proof {
                if blocker_at(*blocks, origin, octant as int, distance as int, dx as int) {
                    assert(blocks.ensures((x, y), is_blocker));
                }
            }
            if blocked {
                if is_blocker {
                    new_start = r_slope;
                    proof {
                        assert(blocks.ensures((x, y), true));
                        assert(run_blocked(*blocks, origin, o, distance as int, run_first, dx + 1));
                    }
                    dx += 1;
                    continue;
                } else {
                    let ghost old_start = start;
                    blocked = false;
                    start = new_start;
                    proof {
                        lemma_narrowed(*blocks, origin, radius, octant as int, row as int, start0, end, old_start, start, distance as int, dx as int);
                        lemma_run_closes(*blocks, origin, rr, o, row_i, s0, e, distance as int, dx as int, run_first, (old_start.n as int, old_start.d as int), visible@);
                        lemma_row_restart(*blocks, origin, rr, o, row_i, s0, e, distance as int, dx as int, (old_start.n as int, old_start.d as int), visible@);
                    }
                }
            } else if is_blocker && distance < radius as i64 {
                blocked = true;
                let ghost before_rec = visible@;
                cast(blocks, origin, radius, visible, octant, (distance + 1) as i32, start, l_slope);
                proof {
                    lemma_lift_shadowed(
                        *blocks, origin, radius, octant as int, row as int, start0, end, start, l_slope,
                        distance as int, dx as int, old(visible)@, before_rec, visible@,
                    );
                    lemma_waiting_grow(*blocks, origin, rr, o, row_i, s0, e, distance as int, dx + 1, (start.n as int, start.d as int), false, (-2 * run_first + 1, 2 * distance - 1), before_rec, visible@);
                    lemma_run_opens(*blocks, origin, rr, o, row_i, s0, e, distance as int, dx as int, (start.n as int, start.d as int), (-2 * run_first + 1, 2 * distance - 1), before_rec, visible@);
                    run_first = dx as int;
                    assert(blocks.ensures((x, y), true));
                    assert(run_blocked(*blocks, origin, o, distance as int, run_first, dx + 1));
                }
                new_start = r_slope;
            }
            dx += 1;
        }
        proof {
            lemma_row_end(*blocks, origin, rr, o, row_i, s0, e, distance as int, dx as int, run_first, (start.n as int, start.d as int), blocked, visible@);
        }
        if blocked {
            break;
        }
        proof {
            lemma_row_done(*blocks, origin, radius, octant as int, row as int, start, end, distance as int);
        }
        distance += 1;
    }
}

/// Every cell of the disc but the origin sits in some octant row `d`
/// (`1 <= d <= radius`) at some `dx` in `-d..=0`.
proof fn lemma_disc_cell_in_octant(origin: (i32, i32), radius: i32, q: (i32, i32)) -> (r: (int, int, int))
    requires
        radius >= 1,
        q != origin,
        in_disc(origin, radius as int, q),
    ensures
        0 <= r.0 < 8,
        1 <= r.1 <= radius,
        -r.1 <= r.2 <= 0,
        r.2 * r.2 + r.1 * r.1 <= radius * radius,
        octant_cell(origin, r.2, -r.1, r.0) == q,
{
    let a = q.0 - origin.0;
    let b = q.1 - origin.1;
    let aa = if a < 0 {
        -a
    } else {
        a
    };
    let bb = if b < 0 {
        -b
    } else {
        b
    };
    let (o, d, dx): (int, int, int) = if aa <= bb {
        if b < 0 {
            if a <= 0 {
                (0, bb, a)
            } else {
                (3, bb, -a)
            }
        } else {
            if a <= 0 {
                (7, bb, a)
            } else {
                (4, bb, -a)
            }
        }
    } else {
        if a < 0 {
            if b <= 0 {
                (1, aa, b)
            } else {
                (6, aa, -b)
            }
        } else {
            if b <= 0 {
                (2, aa, b)
            } else {
                (5, aa, -b)
            }
        }
    };
    assert(octant_offset(dx, -d, o) == (a, b));
    lemma_offset_norm(dx, -d, o);
    assert((-d) * (-d) == d * d) by (nonlinear_arith);
    assert(d >= 1);
    assert(d <= radius) by (nonlinear_arith)
        requires
            d >= 1,
            radius >= 1,
            dx * dx + d * d <= radius * radius,
    ;
    (o, d, dx)
}

/// Cells visible from `origin` within `radius`, each once, in
/// lexicographic order. `blocks(x, y)` says whether a cell stops sight; a
/// blocking cell is itself visible. With nothing blocking, the whole disc
/// of a nonnegative radius is seen. Behind a blocker the cone stays dark:
/// every cell seen but the origin is, in some octant, lit, so that no cell
/// which surely blocks sight (every answer `blocks` can give for it is
/// `true`) lies nearer in that octant with a slope span strictly
/// containing the seen cell's. Conversely, a cell of the disc is seen
/// when some ray from the origin reaches it open: a slope from 0 to 1 in
/// the cell's span, in some octant, such that every nearer cell of that
/// octant whose span holds the slope surely lets sight through.
pub fn compute_visible<F: Fn(i32, i32) -> bool>(origin: (i32, i32), radius: i32, blocks: F) -> (r: Vec<
    (i32, i32),
>)
    requires
        fov_fits(origin, radius),
        forall|x: i32, y: i32| blocks.requires((x, y)),
    ensures
        strictly_sorted(r@),
        r@.contains(origin),
        forall|q: (i32, i32)| r@.contains(q) ==> q == origin || in_disc(origin, radius as int, q),
        open_field(blocks) && radius >= 0 ==> forall|q: (i32, i32)| in_disc(origin, radius as int, q) ==> r@.contains(q),
        forall|q: (i32, i32)|
            r@.contains(q) && q != origin ==> exists|o: int, d: int, dx: int|
                0 <= o < 8 && 1 <= d <= radius && -d <= dx <= 0 && q == #[trigger] octant_cell(origin, dx, -d, o) && lit(
                    blocks,
                    origin,
                    o,
                    1,
                    d,
                    dx,
                ),
        forall|o: int, d: int, dx: int, s: (int, int)|
            0 <= o < 8 && #[trigger] ray_sees(blocks, origin, radius as int, o, 1, (1, 1), (0, 1), d, dx, s) ==> r@.contains(
                octant_cell(origin, dx, -d, o),
            ),
{
    let mut visible: Vec<(i32, i32)> = Vec::new();
    visible.push(origin);
    if radius < 1 {
        proof {
            assert(visible@[0] == origin);
            if radius == 0 {
                assert forall|q: (i32, i32)| in_disc(origin, radius as int, q) implies visible@.contains(q) by {
                    let a = q.0 - origin.0;
                    let b = q.1 - origin.1;
                    assert(a * a >= 0 && b * b >= 0) by (nonlinear_arith);
                    assert(a == 0 && b == 0) by (nonlinear_arith)
                        requires
                            a * a + b * b <= 0,
                    ;
                }
            }
        }
        return visible;
    }
    proof {
        assert(visible@[0] == origin);
        assert forall|q: (i32, i32)| visible@.contains(q) implies in_disc(origin, radius as int, q) by {
            assert(q == origin);
            assert(0 * 0 + 0 * 0 <= (radius as int) * (radius as int)) by (nonlinear_arith);
        }
    }
    let mut octant: usize = 0;
    while octant < 8
        invariant
            radius >= 1,
            octant <= 8,
            fov_fits(origin, radius),
            cast_ok(origin, radius, visible@),
            visible@.contains(origin),
            forall|x: i32, y: i32| blocks.requires((x, y)),
            open_field(blocks) ==> forall|o: int| 0 <= o < octant ==> #[trigger] rows_seen(origin, radius, o, 1, radius as int, visible@),
            forall|o: int| 0 <= o < octant ==> #[trigger] seen_before(blocks, origin, radius as int, o, 1, (1, 1), (0, 1), radius + 1, visible@),
            forall|q: (i32, i32)|
            visible@.contains(q) && q != origin ==> exists|o: int, d: int, dx: int|
                0 <= o < 8 && 1 <= d <= radius && -d <= dx <= 0 && q == #[trigger] octant_cell(origin, dx, -d, o) && lit(
                    blocks,
                    origin,
                    o,
                    1,
                    d,
                    dx,
                ),
        decreases 8 - octant,
    {
        let ghost before = visible@;
        cast(&blocks, origin, radius, &mut visible, octant, 1, Slope { n: 1, d: 1 }, Slope { n: 0, d: 1 });
        proof {
            assert forall|q: (i32, i32)| visible@.contains(q) && q != origin implies exists|o: int, d: int, dx: int|
                0 <= o < 8 && 1 <= d <= radius && -d <= dx <= 0 && q == #[trigger] octant_cell(origin, dx, -d, o) && lit(
                    blocks,
                    origin,
                    o,
                    1,
                    d,
                    dx,
                ) by {
                if !before.contains(q) {
                    let (d, dx) = choose|d: int, dx: int|
                        1 <= d <= radius && -d <= dx <= 0 && q == #[trigger] octant_cell(origin, dx, -d, octant as int)
                            && in_window((1, 1), (0, 1), d, dx) && lit(blocks, origin, octant as int, 1, d, dx);
                    assert(q == octant_cell(origin, dx, -d, octant as int));
                }
            }
            assert forall|o: int| 0 <= o < octant + 1 implies #[trigger] seen_before(blocks, origin, radius as int, o, 1, (1, 1), (0, 1), radius + 1, visible@) by {
                if o < octant {
                    lemma_seen_grow(blocks, origin, radius as int, o, 1, (1, 1), (0, 1), radius + 1, before, visible@);
                }
            }
            if open_field(blocks) {
                assert forall|o: int| 0 <= o < octant + 1 implies #[trigger] rows_seen(origin, radius, o, 1, radius as int, visible@) by {
                    if o < octant {
                        assert(rows_seen(origin, radius, o, 1, radius as int, before));
                        assert forall|d: int, dx: int|
                            1 <= d <= radius && -d <= dx <= 0 && dx * dx + d * d <= radius * radius implies visible@.contains(
                            #[trigger] octant_cell(origin, dx, -d, o),
                        ) by {
                            assert(before.contains(octant_cell(origin, dx, -d, o)));
                        }
                    }
                }
            }
        }
        octant += 1;
    }
    proof {
        assert forall|o: int, d: int, dx: int, s: (int, int)|
            0 <= o < 8 && #[trigger] ray_sees(blocks, origin, radius as int, o, 1, (1, 1), (0, 1), d, dx, s) implies visible@.contains(
                octant_cell(origin, dx, -d, o),
            ) by {
            assert(seen_before(blocks, origin, radius as int, o, 1, (1, 1), (0, 1), radius + 1, visible@));
            lemma_seen_all(blocks, origin, radius as int, o, visible@);
        }
        if open_field(blocks) {
            assert forall|q: (i32, i32)| in_disc(origin, radius as int, q) implies visible@.contains(q) by {
                if q != origin {
                    let (o, d, dx) = lemma_disc_cell_in_octant(origin, radius, q);
                    assert(rows_seen(origin, radius, o, 1, radius as int, visible@));
                    assert(visible@.contains(octant_cell(origin, dx, -d, o)));
                }
            }
        }
    }
    visible
}

} // verus!
