//! Lines of cells: Bresenham's walk between two cells, the cells it
//! visits, and the facts that make it usable in proofs (it is unique,
//! stays between its ends and visits no cell twice).

use vstd::prelude::*;

use crate::geometry::{ipt, within};

verus! {

/// Absolute value.
pub open spec fn iabs(x: int) -> int {
    if x < 0 {
        -x
    } else {
        x
    }
}

/// One step of Bresenham's walk from `a` to `b`, taken at cell `p`. The
/// error term after `i` steps along x and `j` along y is
/// `|dx| (1 + j) - |dy| (1 + i)`; twice it decides whether the step moves
/// along x (at least `-|dy|`), along y (at most `|dx|`), or both.
#[verifier::opaque]
pub open spec fn bres_step(a: (int, int), b: (int, int), p: (int, int)) -> (int, int) {
    let adx = iabs(b.0 - a.0);
    let ady = iabs(b.1 - a.1);
    let i = iabs(p.0 - a.0);
    let j = iabs(p.1 - a.1);
    let err = bres_err(adx, ady, i, j);
    let sx: int = if a.0 < b.0 {
        1
    } else {
        -1
    };
    let sy: int = if a.1 < b.1 {
        1
    } else {
        -1
    };
    (p.0 + if 2 * err >= -ady {
        sx
    } else {
        0
    }, p.1 + if 2 * err <= adx {
        sy
    } else {
        0
    })
}

/// `cells` is Bresenham's line from `a` to `b`: it starts at `a`, each
/// cell follows from the one before by `bres_step`, and it stops the
/// first time it reaches `b`.
pub open spec fn is_line(a: (int, int), b: (int, int), cells: Seq<(i64, i64)>) -> bool {
    &&& cells.len() >= 1
    &&& ipt(cells[0]) == a
    &&& ipt(cells[cells.len() - 1]) == b
    &&& forall|k: int|
        0 <= k < cells.len() - 1 ==> ipt(#[trigger] cells[k]) != b && ipt(cells[k + 1]) == bres_step(
            a,
            b,
            ipt(cells[k]),
        )
}

/// Each coordinate of `p` lies between those of `a` and `b`.
pub open spec fn in_span(a: (int, int), b: (int, int), p: (int, int)) -> bool {
    &&& (a.0 <= p.0 <= b.0 || b.0 <= p.0 <= a.0)
    &&& (a.1 <= p.1 <= b.1 || b.1 <= p.1 <= a.1)
}

/// Bound on coordinates (2^60) under which the line arithmetic is exact
/// in 128 bits.
pub open spec fn city_bound() -> int {
    0x1000_0000_0000_0000
}

/// Bresenham's error term after `i` steps along x and `j` along y.
#[verifier::opaque]
pub open spec fn bres_err(adx: int, ady: int, i: int, j: int) -> int {
    adx * (1 + j) - ady * (1 + i)
}

/// Steps, along x and along y, from `a` to cell `p`.
pub open spec fn steps_from(a: (int, int), p: (i64, i64)) -> int {
    iabs(p.0 - a.0) + iabs(p.1 - a.1)
}

/// Coordinate `x0` moved `i` steps in direction `s` (`1` or `-1`).
pub open spec fn walk_to(x0: int, s: int, i: int) -> int {
    if s == 1 {
        x0 + i
    } else {
        x0 - i
    }
}

proof fn lemma_bres_err_start(adx: int, ady: int)
    ensures
        bres_err(adx, ady, 0, 0) == adx - ady,
{
    reveal(bres_err);
}

proof fn lemma_bres_err_step_x(adx: int, ady: int, i: int, j: int)
    ensures
        bres_err(adx, ady, i + 1, j) == bres_err(adx, ady, i, j) - ady,
{
    reveal(bres_err);
    assert(ady * (1 + (i + 1)) == ady * (1 + i) + ady) by (nonlinear_arith);
}

proof fn lemma_bres_err_step_y(adx: int, ady: int, i: int, j: int)
    ensures
        bres_err(adx, ady, i, j + 1) == bres_err(adx, ady, i, j) + adx,
{
    reveal(bres_err);
    assert(adx * (1 + (j + 1)) == adx * (1 + j) + adx) by (nonlinear_arith);
}

/// While the walk has not reached its end, the step it takes keeps it
/// inside the box of the line, and twice the error term fits in 128 bits.
proof fn lemma_bres_bounds(adx: int, ady: int, i: int, j: int)
    requires
        0 <= i <= adx <= 0x2000_0000_0000_0000,
        0 <= j <= ady <= 0x2000_0000_0000_0000,
        !(i == adx && j == ady),
    ensures
        i == adx ==> 2 * bres_err(adx, ady, i, j) < -ady,
        j == ady ==> 2 * bres_err(adx, ady, i, j) > adx,
        -0x1000_0000_0000_0000_0000_0000_0000_0000 < bres_err(adx, ady, i, j)
            < 0x1000_0000_0000_0000_0000_0000_0000_0000,
{
    reveal(bres_err);
    let err = bres_err(adx, ady, i, j);
    if i == adx {
        assert(2 * err < -ady) by (nonlinear_arith)
            requires
                i == adx,
                0 <= j < ady,
                err == adx * (1 + j) - ady * (1 + i),
                adx >= 0,
        ;
    }
    if j == ady {
        assert(2 * err > adx) by (nonlinear_arith)
            requires
                j == ady,
                0 <= i < adx,
                err == adx * (1 + j) - ady * (1 + i),
                ady >= 0,
        ;
    }
    assert(-0x1000_0000_0000_0000_0000_0000_0000_0000 < err < 0x1000_0000_0000_0000_0000_0000_0000_0000)
        by (nonlinear_arith)
        requires
            0 <= i <= adx <= 0x2000_0000_0000_0000,
            0 <= j <= ady <= 0x2000_0000_0000_0000,
            err == adx * (1 + j) - ady * (1 + i),
    ;
}

/// The cells of Bresenham's line from `a` to `b`, both included, each
/// once.
pub fn line_cells(a: (i64, i64), b: (i64, i64)) -> (r: Vec<(i64, i64)>)
    requires
        within(a, city_bound()),
        within(b, city_bound()),
    ensures
        is_line(ipt(a), ipt(b), r@),
        r@ == line_of(ipt(a), ipt(b)),
        forall|k: int| 0 <= k < r@.len() ==> in_span(ipt(a), ipt(b), ipt(#[trigger] r@[k])),
        forall|i: int, j: int| 0 <= i < j < r@.len() ==> #[trigger] r@[i] != #[trigger] r@[j],
{
    let r = bresenham(a, b);
    proof {
        assert forall|i: int, j: int| 0 <= i < j < r@.len() implies #[trigger] r@[i] != #[trigger] r@[j] by {
            assert(steps_from(ipt(a), r@[i]) < steps_from(ipt(a), r@[j]));
        }
    }
    proof {
        lemma_line_unique(ipt(a), ipt(b), r@, line_of(ipt(a), ipt(b)));
    }
    r
}

/// `s` is the start of Bresenham's walk from `a` to `b`: it begins at
/// `a`, follows `bres_step` without passing `b`, stays between the ends,
/// and every cell is further from `a` than the one before, the last at
/// most `n` steps away.
#[verifier::opaque]
spec fn walk_ok(a: (int, int), b: (int, int), s: Seq<(i64, i64)>, n: int) -> bool {
    &&& s.len() >= 1
    &&& ipt(s[0]) == a
    &&& forall|k: int|
        0 <= k < s.len() - 1 ==> ipt(#[trigger] s[k]) != b && ipt(s[k + 1]) == bres_step(a, b, ipt(s[k]))
    &&& forall|k: int| 0 <= k < s.len() ==> in_span(a, b, ipt(#[trigger] s[k]))
    &&& forall|k: int| 0 <= k < s.len() ==> steps_from(a, #[trigger] s[k]) <= n
    &&& forall|p: int, q: int| 0 <= p < q < s.len() ==> steps_from(a, #[trigger] s[p]) < steps_from(a, #[trigger] s[q])
}

proof fn lemma_walk_start(a: (i64, i64), b: (int, int))
    ensures
        walk_ok(ipt(a), b, seq![a], 0),
{
    reveal(walk_ok);
}

proof fn lemma_walk_extend(a: (int, int), b: (int, int), s: Seq<(i64, i64)>, n: int, next: (i64, i64))
    requires
        walk_ok(a, b, s, n),
        ipt(s.last()) != b,
        ipt(next) == bres_step(a, b, ipt(s.last())),
        in_span(a, b, ipt(next)),
        steps_from(a, next) > n,
    ensures
        walk_ok(a, b, s.push(next), steps_from(a, next)),
{
    reveal(walk_ok);
    let t = s.push(next);
    assert forall|k: int| 0 <= k < t.len() - 1 implies ipt(#[trigger] t[k]) != b && ipt(t[k + 1]) == bres_step(
        a,
        b,
        ipt(t[k]),
    ) by {
        if k < s.len() - 1 {
            assert(t[k] == s[k] && t[k + 1] == s[k + 1]);
        } else {
            assert(t[k] == s.last());
        }
    }
    assert forall|k: int| 0 <= k < t.len() implies in_span(a, b, ipt(#[trigger] t[k])) && steps_from(a, t[k])
        <= steps_from(a, next) by {
        if k < s.len() {
            assert(t[k] == s[k]);
        }
    }
    assert forall|p: int, q: int| 0 <= p < q < t.len() implies steps_from(a, #[trigger] t[p]) < steps_from(
        a,
        #[trigger] t[q],
    ) by {
        assert(t[p] == s[p]);
        if q < s.len() {
            assert(t[q] == s[q]);
        }
    }
}

proof fn lemma_walk_done(a: (int, int), b: (int, int), s: Seq<(i64, i64)>, n: int)
    requires
        walk_ok(a, b, s, n),
        ipt(s.last()) == b,
    ensures
        is_line(a, b, s),
        forall|k: int| 0 <= k < s.len() ==> in_span(a, b, ipt(#[trigger] s[k])),
        forall|p: int, q: int| 0 <= p < q < s.len() ==> steps_from(a, #[trigger] s[p]) < steps_from(a, #[trigger] s[q]),
{
    reveal(walk_ok);
}

fn bresenham(a: (i64, i64), b: (i64, i64)) -> (r: Vec<(i64, i64)>)
    requires
        within(a, city_bound()),
        within(b, city_bound()),
    ensures
        is_line(ipt(a), ipt(b), r@),
        forall|k: int| 0 <= k < r@.len() ==> in_span(ipt(a), ipt(b), ipt(#[trigger] r@[k])),
        forall|i: int, j: int|
            0 <= i < j < r@.len() ==> steps_from(ipt(a), #[trigger] r@[i]) < steps_from(ipt(a), #[trigger] r@[j]),
{
    let ghost ga = ipt(a);
    let ghost gb = ipt(b);
    let x0 = a.0 as i128;
    let y0 = a.1 as i128;
    let x1 = b.0 as i128;
    let y1 = b.1 as i128;
    let adx: i128 = if x1 >= x0 {
        x1 - x0
    } else {
        x0 - x1
    };
    let ady: i128 = if y1 >= y0 {
        y1 - y0
    } else {
        y0 - y1
    };
    let sx: i128 = if x0 < x1 {
        1
    } else {
        -1
    };
    let sy: i128 = if y0 < y1 {
        1
    } else {
        -1
    };
    let mut err: i128 = adx - ady;
    let mut x = x0;
    let mut y = y0;
    let ghost mut i: int = 0;
    let ghost mut j: int = 0;
    let mut out: Vec<(i64, i64)> = Vec::new();
    out.push(a);
    proof {
        lemma_bres_err_start(adx as int, ady as int);
        lemma_walk_start(a, gb);
        assert(out@ =~= seq![a]);
    }
    while !(x == x1 && y == y1)
        invariant
            ga == ipt(a),
            gb == ipt(b),
            x0 == a.0 && y0 == a.1 && x1 == b.0 && y1 == b.1,
            adx == iabs(gb.0 - ga.0),
            ady == iabs(gb.1 - ga.1),
            sx == (if ga.0 < gb.0 {
                1int
            } else {
                -1int
            }),
            sy == (if ga.1 < gb.1 {
                1int
            } else {
                -1int
            }),
            0 <= adx <= 0x2000_0000_0000_0000,
            0 <= ady <= 0x2000_0000_0000_0000,
            0 <= i <= adx,
            0 <= j <= ady,
            x == walk_to(x0 as int, sx as int, i),
            y == walk_to(y0 as int, sy as int, j),
            err == bres_err(adx as int, ady as int, i, j),
            walk_ok(ga, gb, out@, i + j),
            ipt(out@.last()) == (x as int, y as int),
        decreases (adx - i) + (ady - j),
    {
        proof {
            lemma_bres_bounds(adx as int, ady as int, i, j);
        }
        let ghost prev = (x as int, y as int);
        let e2 = 2 * err;
        let ghost i0 = i;
        let ghost j0 = j;
        if e2 >= -ady {
            err = err - ady;
            x = x + sx;
            proof {
                lemma_bres_err_step_x(adx as int, ady as int, i, j);
                i = i + 1;
            }
        }
        if e2 <= adx {
            err = err + adx;
            y = y + sy;
            proof {
                lemma_bres_err_step_y(adx as int, ady as int, i, j);
                j = j + 1;
            }
        }
        let next = (x as i64, y as i64);
        proof {
            assert(ipt(next) == bres_step(ga, gb, prev)) by {
                reveal(bres_step);
                assert(iabs(prev.0 - ga.0) == i0 && iabs(prev.1 - ga.1) == j0);
            }
            assert(in_span(ga, gb, ipt(next)));
            assert(steps_from(ga, next) == i + j);
            lemma_walk_extend(ga, gb, out@, i0 + j0, next);
        }
        out.push(next);
    }
    proof {
        lemma_walk_done(ga, gb, out@, i + j);
    }
    out
}

/// Two walks that both satisfy `is_line` agree cell by cell.
proof fn lemma_line_agree(a: (int, int), b: (int, int), s1: Seq<(i64, i64)>, s2: Seq<(i64, i64)>, k: int)
    requires
        is_line(a, b, s1),
        is_line(a, b, s2),
        0 <= k < s1.len(),
        k < s2.len(),
    ensures
        s1[k] == s2[k],
    decreases k,
{
    if k > 0 {
        lemma_line_agree(a, b, s1, s2, k - 1);
        assert(ipt(s1[k - 1]) != b);
        assert(ipt(s2[k - 1]) != b);
    }
    assert(s1[k].0 == s2[k].0 && s1[k].1 == s2[k].1);
}

/// Bresenham's line between two cells is unique.
pub proof fn lemma_line_unique(a: (int, int), b: (int, int), s1: Seq<(i64, i64)>, s2: Seq<(i64, i64)>)
    requires
        is_line(a, b, s1),
        is_line(a, b, s2),
    ensures
        s1 == s2,
{
    if s1.len() < s2.len() {
        let k = s1.len() - 1;
        lemma_line_agree(a, b, s1, s2, k);
        assert(ipt(s2[k]) != b);
    }
    if s2.len() < s1.len() {
        let k = s2.len() - 1;
        lemma_line_agree(a, b, s1, s2, k);
        assert(ipt(s1[k]) != b);
    }
    assert forall|k: int| 0 <= k < s1.len() implies s1[k] == s2[k] by {
        lemma_line_agree(a, b, s1, s2, k);
    }
    assert(s1 =~= s2);
}

/// The cells of Bresenham's line from `a` to `b` (see `is_line`).
pub open spec fn line_of(a: (int, int), b: (int, int)) -> Seq<(i64, i64)> {
    choose|s: Seq<(i64, i64)>| #[trigger] is_line(a, b, s)
}

/// Steps still to go from `p` to `b` on a walk from `a`: along x and
/// along y together.
pub open spec fn steps_left(a: (int, int), b: (int, int), p: (int, int)) -> int {
    (iabs(b.0 - a.0) - iabs(p.0 - a.0)) + (iabs(b.1 - a.1) - iabs(p.1 - a.1))
}

/// Both ends lie within `city_bound()`.
pub open spec fn ends_fit(a: (int, int), b: (int, int)) -> bool {
    &&& -city_bound() <= a.0 <= city_bound()
    &&& -city_bound() <= a.1 <= city_bound()
    &&& -city_bound() <= b.0 <= city_bound()
    &&& -city_bound() <= b.1 <= city_bound()
}

/// From a cell between the ends, short of `b`, a step of the walk stays
/// between the ends and comes nearer to `b`.
proof fn lemma_step_progress(a: (int, int), b: (int, int), p: (int, int))
    requires
        ends_fit(a, b),
        in_span(a, b, p),
        p != b,
    ensures
        in_span(a, b, bres_step(a, b, p)),
        steps_left(a, b, bres_step(a, b, p)) < steps_left(a, b, p),
        0 <= steps_left(a, b, bres_step(a, b, p)),
{
    reveal(bres_step);
    let adx = iabs(b.0 - a.0);
    let ady = iabs(b.1 - a.1);
    let i = iabs(p.0 - a.0);
    let j = iabs(p.1 - a.1);
    lemma_bres_bounds(adx, ady, i, j);
}

/// Bresenham's walk from cell `p` on, taking at most `n` more steps and
/// stopping at `b`.
spec fn walk_from(a: (int, int), b: (int, int), p: (int, int), n: nat) -> Seq<(i64, i64)>
    decreases n,
{
    let c = (p.0 as i64, p.1 as i64);
    if p == b || n == 0 {
        seq![c]
    } else {
        seq![c] + walk_from(a, b, bres_step(a, b, p), (n - 1) as nat)
    }
}

proof fn lemma_walk_from(a: (int, int), b: (int, int), p: (int, int), n: nat)
    requires
        ends_fit(a, b),
        in_span(a, b, p),
        steps_left(a, b, p) <= n,
    ensures
        ({
            let w = walk_from(a, b, p, n);
            &&& w.len() >= 1
            &&& ipt(w[0]) == p
            &&& ipt(w[w.len() - 1]) == b
            &&& forall|k: int|
                0 <= k < w.len() - 1 ==> ipt(#[trigger] w[k]) != b && ipt(w[k + 1]) == bres_step(a, b, ipt(w[k]))
            &&& forall|k: int| 0 <= k < w.len() ==> in_span(a, b, ipt(#[trigger] w[k]))
        }),
    decreases n,
{
    let w = walk_from(a, b, p, n);
    if p == b {
    } else {
        lemma_step_progress(a, b, p);
        let q = bres_step(a, b, p);
        assert(n > 0);
        lemma_walk_from(a, b, q, (n - 1) as nat);
        let rest = walk_from(a, b, q, (n - 1) as nat);
        assert(w == seq![(p.0 as i64, p.1 as i64)] + rest);
        assert forall|k: int| 0 <= k < w.len() - 1 implies ipt(#[trigger] w[k]) != b && ipt(w[k + 1]) == bres_step(
            a,
            b,
            ipt(w[k]),
        ) by {
            if k > 0 {
                assert(w[k] == rest[k - 1] && w[k + 1] == rest[k]);
            } else {
                assert(w[1] == rest[0]);
            }
        }
        assert forall|k: int| 0 <= k < w.len() implies in_span(a, b, ipt(#[trigger] w[k])) by {
            if k > 0 {
                assert(w[k] == rest[k - 1]);
            }
        }
    }
}

/// Between ends within `city_bound()`, Bresenham's line exists, and all
/// its cells lie between the ends.
pub proof fn lemma_line_of(a: (int, int), b: (int, int))
    requires
        ends_fit(a, b),
    ensures
        is_line(a, b, line_of(a, b)),
        forall|k: int| 0 <= k < line_of(a, b).len() ==> in_span(a, b, ipt(#[trigger] line_of(a, b)[k])),
{
    let n = (iabs(b.0 - a.0) + iabs(b.1 - a.1)) as nat;
    lemma_walk_from(a, b, a, n);
    let w = walk_from(a, b, a, n);
    assert(is_line(a, b, w));
    lemma_line_unique(a, b, w, line_of(a, b));
}

} // verus!
