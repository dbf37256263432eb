//! Authored city skeletons (walls, gates, streets, landmark footprints)
//! and what is derived from them when a city is loaded: its bounding
//! boxes, the cells its streets cover, the district tags of its house
//! slots, and the overmap feature of every chunk it touches.
//!
//! Inside a `City`, cells are relative to the city's anchor (its named
//! site's anchor cell); adding the anchor gives world cells.

use std::collections::{HashMap, HashSet};

use vstd::arithmetic::div_mod::{lemma_div_is_ordered, lemma_fundamental_div_mod};
use vstd::prelude::*;

use crate::buildings::CityTier;
use crate::geometry::{all_within, floor_div_i64, in_polygon, ipt, point_in_polygon, within, WIDE_BOUND};
use crate::line::{in_span, lemma_line_of, line_cells, line_of};
use crate::text::{
    ascii_lower, has_sub, lemma_str_lt_irreflexive, lemma_str_lt_total, lemma_str_lt_transitive, str_contains,
    str_eq, str_less, str_lt, to_ascii_lowercase,
};
use crate::cornwall::{cc_int, cell_chunk, chunk_center, chunk_center_spec, chunk_for_cell};
use crate::world::{
    cell_key, cell_key_exec, chunk_key, chunk_key_exec, lemma_cell_key_injective, lemma_chunk_key_injective,
    ChunkCoord,
};

verus! {

broadcast use vstd::std_specs::hash::group_hash_axioms;

/// A city as authored.
pub struct City {
    pub name: String,
    /// Settlement size, which picks the prefab pool of its house slots.
    pub tier: CityTier,
    pub wall: Wall,
    pub streets: Vec<Street>,
    pub landmarks: Vec<Landmark>,
}

/// The city wall: a closed polygon (last vertex joins the first) and its
/// gates.
pub struct Wall {
    pub polygon: Vec<(i64, i64)>,
    pub gates: Vec<Gate>,
}

pub struct Gate {
    pub name: String,
    pub cell: (i64, i64),
    pub width: u16,
}

pub struct Street {
    pub name: String,
    pub polyline: Vec<(i64, i64)>,
    pub width: u16,
    /// District tags handed to nearby house slots, with their weights:
    /// a smiths' street might carry `[("smithy", 5), ("house", 5)]`.
    pub tag_weights: Vec<(String, u32)>,
}

pub struct Landmark {
    pub name: String,
    pub footprint: Footprint,
    pub kind: LandmarkKind,
}

pub enum Footprint {
    /// Axis-aligned rectangle between two corners, both included.
    Rect((i64, i64), (i64, i64)),
    /// Closed simple polygon; vertices listed once.
    Polygon(Vec<(i64, i64)>),
}

/// How a landmark's footprint is filled.
#[derive(Clone, Copy, Debug, PartialEq, Eq, Structural)]
pub enum LandmarkKind {
    /// Solid stone (cathedral, castle, guildhall).
    StoneMass,
    /// Walkable paving (cathedral close, quay).
    PavedArea,
    /// Kept for the bounding box; not stamped yet.
    Bridge,
    /// Kept for the bounding box; not stamped yet.
    WaterChannel,
}

impl Default for LandmarkKind {
    fn default() -> (r: Self)
        ensures
            r == LandmarkKind::StoneMass,
    {
        LandmarkKind::StoneMass
    }
}

/// Overmap tag of a chunk a city touches. When several apply, the later
/// in this list wins: building, street, wall edge, cathedral or castle,
/// gate.
#[derive(Clone, Copy, Debug, PartialEq, Eq, Structural)]
pub enum CityChunkFeature {
    Cathedral,
    Castle,
    WallEdge,
    Gate,
    Street,
    Building,
}

// ---------------------------------------------------------------------
// Small helpers
// ---------------------------------------------------------------------

/// The inclusive rectangles `(min_x, min_y, max_x, max_y)` overlap.
pub open spec fn rects_meet(a: (i64, i64, i64, i64), b: (i64, i64, i64, i64)) -> bool {
    !(a.2 < b.0 || a.0 > b.2 || a.3 < b.1 || a.1 > b.3)
}

pub fn rect_intersects(a: (i64, i64, i64, i64), b: (i64, i64, i64, i64)) -> (r: bool)
    ensures
        r == rects_meet(a, b),
{
    !(a.2 < b.0 || a.0 > b.2 || a.3 < b.1 || a.1 > b.3)
}

/// First offset of a run of `w` cells centred on 0; even runs lean to
/// the negative side.
pub open spec fn run_lo(w: int) -> int {
    -(w / 2)
}

/// Last offset of a run of `w` cells centred on 0.
pub open spec fn run_hi(w: int) -> int {
    -(w / 2) + w - 1
}

/// Offsets, across a street's line, of the cells a street of `width`
/// covers: `{0}` for width 1, `{-1, 0}` for 2, `{-1, 0, 1}` for 3; even
/// widths lean north-west.
pub fn street_half_extents(width: u16) -> (r: (i64, i64))
    ensures
        r.0 == run_lo(width as int),
        r.1 == run_hi(width as int),
{
    let w = width as i64;
    let lo = -(w / 2);
    let hi = lo + w - 1;
    (lo, hi)
}

/// Three-input SplitMix-style mixing hash, stable across hosts.
pub open spec fn hash3_spec(a: u64, b: u64, c: u64) -> u64 {
    let x0 = a.wrapping_mul(0x9E37_79B9_7F4A_7C15).wrapping_add(b.wrapping_mul(0xBF58_476D_1CE4_E5B9)).wrapping_add(
        c.wrapping_mul(0x94D0_49BB_1331_11EB),
    );
    let x1 = x0 ^ (x0 >> 30u64);
    let x2 = x1.wrapping_mul(0xBF58_476D_1CE4_E5B9);
    let x3 = x2 ^ (x2 >> 27u64);
    let x4 = x3.wrapping_mul(0x94D0_49BB_1331_11EB);
    x4 ^ (x4 >> 31u64)
}

pub fn hash3(a: u64, b: u64, c: u64) -> (r: u64)
    ensures
        r == hash3_spec(a, b, c),
{
    let mut x = a.wrapping_mul(0x9E37_79B9_7F4A_7C15).wrapping_add(b.wrapping_mul(0xBF58_476D_1CE4_E5B9)).wrapping_add(
        c.wrapping_mul(0x94D0_49BB_1331_11EB),
    );
    x = x ^ (x >> 30u64);
    x = x.wrapping_mul(0xBF58_476D_1CE4_E5B9);
    x = x ^ (x >> 27u64);
    x = x.wrapping_mul(0x94D0_49BB_1331_11EB);
    x = x ^ (x >> 31u64);
    x
}

/// Sum of the weights of the first `n` entries.
pub open spec fn weight_sum(pool: Seq<(String, u32)>, n: int) -> int
    decreases n,
{
    if n <= 0 {
        0
    } else {
        weight_sum(pool, n - 1) + pool[n - 1].1
    }
}

proof fn lemma_weight_sum_monotone(pool: Seq<(String, u32)>, m: int, n: int)
    requires
        0 <= m <= n,
    ensures
        weight_sum(pool, m) <= weight_sum(pool, n),
    decreases n - m,
{
    if m < n {
        lemma_weight_sum_monotone(pool, m, n - 1);
    }
}

/// Entry a roll lands on, searching from entry `k`: the first whose
/// running weight sum exceeds `roll` (the pool's length when none does).
pub open spec fn roll_index(pool: Seq<(String, u32)>, roll: int, k: int) -> int
    decreases pool.len() - k,
{
    if k >= pool.len() || k < 0 {
        pool.len() as int
    } else if roll < weight_sum(pool, k + 1) {
        k
    } else {
        roll_index(pool, roll, k + 1)
    }
}

proof fn lemma_roll_index(pool: Seq<(String, u32)>, roll: int, k: int, j: int)
    requires
        0 <= j <= k < pool.len(),
        weight_sum(pool, k) <= roll < weight_sum(pool, k + 1),
    ensures
        roll_index(pool, roll, j) == k,
    decreases k - j,
{
    if j < k {
        lemma_weight_sum_monotone(pool, j + 1, k);
        lemma_roll_index(pool, roll, k, j + 1);
    }
}

/// Weighted roulette over `(label, weight)` pairs: the roll
/// `hash % total` lands in entry `k` when the weights before `k` sum to
/// at most the roll and those up to `k` exceed it. `None` for an empty
/// pool or one whose weights are all 0.
pub fn roulette_pick<'a>(pool: &'a [(String, u32)], hash: u64) -> (r: Option<&'a str>)
    requires
        weight_sum(pool@, pool@.len() as int) <= u32::MAX,
    ensures
        r is None <==> (pool@.len() == 0 || weight_sum(pool@, pool@.len() as int) == 0),
        r matches Some(s) ==> exists|k: int|
            0 <= k < pool@.len() && s@ == pool@[k].0@ && weight_sum(pool@, k) <= (hash as int) % weight_sum(
                pool@,
                pool@.len() as int,
            ) < #[trigger] weight_sum(pool@, k + 1),
        r matches Some(s) ==> s@ == pool@[roll_index(
            pool@,
            (hash as int) % weight_sum(pool@, pool@.len() as int),
            0,
        )].0@,
{
    if pool.len() == 0 {
        return None;
    }
    let ghost n = pool@.len() as int;
    let mut total: u32 = 0;
    let mut k: usize = 0;
    while k < pool.len()
        invariant
            k <= pool@.len(),
            n == pool@.len(),
            weight_sum(pool@, n) <= u32::MAX,
            total == weight_sum(pool@, k as int),
        decreases pool@.len() - k,
    {
        proof {
            lemma_weight_sum_monotone(pool@, k + 1, n);
        }
        total = total + pool[k].1;
        k = k + 1;
    }
    if total == 0 {
        return None;
    }
    let ghost roll0 = (hash as int) % (total as int);
    let mut roll: u32 = (hash % (total as u64)) as u32;
    let mut k: usize = 0;
    while k < pool.len()
        invariant
            k <= pool@.len(),
            n == pool@.len(),
            total == weight_sum(pool@, n),
            total > 0,
            roll0 == (hash as int) % (total as int),
            0 <= roll0 < total,
            weight_sum(pool@, k as int) <= roll0,
            roll == roll0 - weight_sum(pool@, k as int),
        decreases pool@.len() - k,
    {
        if roll < pool[k].1 {
            proof {
                assert(weight_sum(pool@, k as int) <= roll0 < weight_sum(pool@, k + 1));
                lemma_roll_index(pool@, roll0, k as int, 0);
            }
            return Some(pool[k].0.as_str());
        }
        roll = roll - pool[k].1;
        k = k + 1;
    }
    proof {
        assert(weight_sum(pool@, n) <= roll0);
        assert(false);
    }
    None
}

// ---------------------------------------------------------------------
// Bounding boxes
// ---------------------------------------------------------------------

/// Bound on authored offsets and on anchors. World cells then stay
/// within 2^34, so their chunks fit in `i32` and every sum fits in `i64`.
pub const CITY_REACH: i64 = 0x2_0000_0000;

/// `p` moved by `a`.
pub open spec fn shifted(p: (i64, i64), a: (int, int)) -> (int, int) {
    (p.0 + a.0, p.1 + a.1)
}

pub open spec fn ibox(r: (i64, i64, i64, i64)) -> (int, int, int, int) {
    (r.0 as int, r.1 as int, r.2 as int, r.3 as int)
}

/// Inclusive box `(min_x, min_y, max_x, max_y)` grown to take in `p`.
pub open spec fn bbox_add(b: (int, int, int, int), p: (int, int)) -> (int, int, int, int) {
    (
        if p.0 < b.0 {
            p.0
        } else {
            b.0
        },
        if p.1 < b.1 {
            p.1
        } else {
            b.1
        },
        if p.0 > b.2 {
            p.0
        } else {
            b.2
        },
        if p.1 > b.3 {
            p.1
        } else {
            b.3
        },
    )
}

/// The box of no point: minima at `i64::MAX`, maxima at `i64::MIN`.
pub open spec fn no_bbox() -> (int, int, int, int) {
    (i64::MAX as int, i64::MAX as int, i64::MIN as int, i64::MIN as int)
}

/// `b` grown, in order, by every point of `pts` moved by `a`.
pub open spec fn bbox_of(b: (int, int, int, int), pts: Seq<(i64, i64)>, a: (int, int)) -> (int, int, int, int)
    decreases pts.len(),
{
    if pts.len() == 0 {
        b
    } else {
        bbox_add(bbox_of(b, pts.drop_last(), a), shifted(pts.last(), a))
    }
}

proof fn lemma_bbox_concat(b: (int, int, int, int), s: Seq<(i64, i64)>, t: Seq<(i64, i64)>, a: (int, int))
    ensures
        bbox_of(b, s + t, a) == bbox_of(bbox_of(b, s, a), t, a),
    decreases t.len(),
{
    if t.len() == 0 {
        assert(s + t =~= s);
    } else {
        lemma_bbox_concat(b, s, t.drop_last(), a);
        assert((s + t).drop_last() =~= s + t.drop_last());
        assert((s + t).last() == t.last());
    }
}

/// Every point, moved by `a`, lies inside the box grown from any start
/// `b` by all the points.
pub proof fn law_bbox_covers(b: (int, int, int, int), pts: Seq<(i64, i64)>, a: (int, int))
    ensures
        forall|k: int|
            #![trigger pts[k]]
            0 <= k < pts.len() ==> {
                let q = shifted(pts[k], a);
                let r = bbox_of(b, pts, a);
                r.0 <= q.0 <= r.2 && r.1 <= q.1 <= r.3
            },
    decreases pts.len(),
{
    if pts.len() > 0 {
        law_bbox_covers(b, pts.drop_last(), a);
        assert forall|k: int| 0 <= k < pts.len() - 1 implies pts.drop_last()[k] == pts[k] by {}
    }
}

/// Every shifted point fits in `i64`.
pub open spec fn fits_shift(pts: Seq<(i64, i64)>, a: (i64, i64)) -> bool {
    forall|k: int|
        0 <= k < pts.len() ==> i64::MIN <= #[trigger] pts[k].0 + a.0 <= i64::MAX && i64::MIN <= pts[k].1 + a.1
            <= i64::MAX
}

fn grow(b: (i64, i64, i64, i64), p: (i64, i64), anchor: (i64, i64)) -> (r: (i64, i64, i64, i64))
    requires
        i64::MIN <= p.0 + anchor.0 <= i64::MAX,
        i64::MIN <= p.1 + anchor.1 <= i64::MAX,
    ensures
        ibox(r) == bbox_add(ibox(b), shifted(p, ipt(anchor))),
{
    let x = p.0 + anchor.0;
    let y = p.1 + anchor.1;
    (if x < b.0 {
        x
    } else {
        b.0
    }, if y < b.1 {
        y
    } else {
        b.1
    }, if x > b.2 {
        x
    } else {
        b.2
    }, if y > b.3 {
        y
    } else {
        b.3
    })
}

fn grow_all(b: (i64, i64, i64, i64), pts: &[(i64, i64)], anchor: (i64, i64)) -> (r: (i64, i64, i64, i64))
    requires
        fits_shift(pts@, anchor),
    ensures
        ibox(r) == bbox_of(ibox(b), pts@, ipt(anchor)),
{
    let mut acc = b;
    let mut k: usize = 0;
    while k < pts.len()
        invariant
            k <= pts@.len(),
            fits_shift(pts@, anchor),
            ibox(acc) == bbox_of(ibox(b), pts@.take(k as int), ipt(anchor)),
        decreases pts@.len() - k,
    {
        proof {
            assert(pts@.take(k + 1).drop_last() =~= pts@.take(k as int));
            assert(pts@.take(k + 1).last() == pts@[k as int]);
        }
        acc = grow(acc, pts[k], anchor);
        k = k + 1;
    }
    proof {
        assert(pts@.take(pts@.len() as int) =~= pts@);
    }
    acc
}

/// Inclusive bounding box `(min_x, min_y, max_x, max_y)` of `points`;
/// `(i64::MAX, i64::MAX, i64::MIN, i64::MIN)` when there are none.
pub fn compute_bbox(points: &[(i64, i64)]) -> (r: (i64, i64, i64, i64))
    ensures
        ibox(r) == bbox_of(no_bbox(), points@, (0, 0)),
{
    assert(fits_shift(points@, (0, 0)));
    grow_all((i64::MAX, i64::MAX, i64::MIN, i64::MIN), points, (0, 0))
}

pub open spec fn fp_fits(fp: Footprint) -> bool {
    match fp {
        Footprint::Rect(a, b) => within(a, CITY_REACH as int) && within(b, CITY_REACH as int),
        Footprint::Polygon(v) => all_within(v@, CITY_REACH as int),
    }
}

impl City {
    /// The anchor and every authored coordinate lie within `CITY_REACH`.
    pub open spec fn fits(&self, anchor: (i64, i64)) -> bool {
        &&& within(anchor, CITY_REACH as int)
        &&& all_within(self.wall.polygon@, CITY_REACH as int)
        &&& forall|i: int|
            0 <= i < self.wall.gates@.len() ==> within(#[trigger] self.wall.gates@[i].cell, CITY_REACH as int)
        &&& forall|i: int|
            0 <= i < self.streets@.len() ==> all_within(#[trigger] self.streets@[i].polyline@, CITY_REACH as int)
        &&& forall|i: int| 0 <= i < self.landmarks@.len() ==> fp_fits(#[trigger] self.landmarks@[i].footprint)
    }
}

/// The vertices of the first `n` streets' polylines, in order.
pub open spec fn street_points(s: Seq<Street>, n: int) -> Seq<(i64, i64)>
    decreases n,
{
    if n <= 0 {
        seq![]
    } else {
        street_points(s, n - 1) + s[n - 1].polyline@
    }
}

/// The authored points of a footprint: a rectangle's two corners or a
/// polygon's vertices.
pub open spec fn footprint_points(fp: Footprint) -> Seq<(i64, i64)> {
    match fp {
        Footprint::Rect(a, b) => seq![a, b],
        Footprint::Polygon(v) => v@,
    }
}

/// The footprint points of the first `n` landmarks, in order.
pub open spec fn landmark_points(l: Seq<Landmark>, n: int) -> Seq<(i64, i64)>
    decreases n,
{
    if n <= 0 {
        seq![]
    } else {
        landmark_points(l, n - 1) + footprint_points(l[n - 1].footprint)
    }
}

/// Every authored point of a city: wall vertices, street vertices, then
/// landmark footprint points.
pub open spec fn city_points(c: &City) -> Seq<(i64, i64)> {
    c.wall.polygon@ + street_points(c.streets@, c.streets@.len() as int) + landmark_points(
        c.landmarks@,
        c.landmarks@.len() as int,
    )
}

proof fn lemma_reach_fits(pts: Seq<(i64, i64)>, a: (i64, i64))
    requires
        all_within(pts, CITY_REACH as int),
        within(a, CITY_REACH as int),
    ensures
        fits_shift(pts, a),
{
    assert forall|k: int| 0 <= k < pts.len() implies i64::MIN <= #[trigger] pts[k].0 + a.0 <= i64::MAX && i64::MIN
        <= pts[k].1 + a.1 <= i64::MAX by {
        assert(within(pts[k], CITY_REACH as int));
    }
}

/// Inclusive world-cell bounding box of every authored point of `city`
/// (wall, streets, landmark footprints), each moved by `anchor`.
pub fn compute_city_bbox(city: &City, anchor: (i64, i64)) -> (r: (i64, i64, i64, i64))
    requires
        city.fits(anchor),
    ensures
        ibox(r) == bbox_of(no_bbox(), city_points(city), ipt(anchor)),
{
    let ghost a = ipt(anchor);
    let ghost w = city.wall.polygon@;
    let ghost ss = city.streets@;
    let ghost ls = city.landmarks@;
    proof {
        lemma_reach_fits(w, anchor);
    }
    let mut acc = grow_all((i64::MAX, i64::MAX, i64::MIN, i64::MIN), city.wall.polygon.as_slice(), anchor);
    let mut i: usize = 0;
    while i < city.streets.len()
        invariant
            i <= ss.len(),
            ss == city.streets@,
            w == city.wall.polygon@,
            a == ipt(anchor),
            city.fits(anchor),
            ibox(acc) == bbox_of(no_bbox(), w + street_points(ss, i as int), a),
        decreases ss.len() - i,
    {
        let poly = city.streets[i].polyline.as_slice();
        proof {
            assert(all_within(ss[i as int].polyline@, CITY_REACH as int));
            lemma_reach_fits(poly@, anchor);
            lemma_bbox_concat(no_bbox(), w + street_points(ss, i as int), poly@, a);
            assert(w + street_points(ss, i + 1) =~= (w + street_points(ss, i as int)) + poly@);
        }
        acc = grow_all(acc, poly, anchor);
        i = i + 1;
    }
    let ghost sp = w + street_points(ss, ss.len() as int);
    let mut j: usize = 0;
    while j < city.landmarks.len()
        invariant
            j <= ls.len(),
            ls == city.landmarks@,
            a == ipt(anchor),
            sp == w + street_points(ss, ss.len() as int),
            city.fits(anchor),
            ibox(acc) == bbox_of(no_bbox(), sp + landmark_points(ls, j as int), a),
        decreases ls.len() - j,
    {
        let ghost before = sp + landmark_points(ls, j as int);
        proof {
            assert(fp_fits(ls[j as int].footprint));
            assert(sp + landmark_points(ls, j + 1) =~= before + footprint_points(ls[j as int].footprint));
            lemma_bbox_concat(no_bbox(), before, footprint_points(ls[j as int].footprint), a);
        }
        match &city.landmarks[j].footprint {
            Footprint::Rect(p, q) => {
                proof {
                    let t = footprint_points(ls[j as int].footprint);
                    assert(t.drop_last() =~= seq![*p]);
                    assert(t.drop_last().drop_last() =~= Seq::<(i64, i64)>::empty());
                }
                acc = grow(acc, *p, anchor);
                acc = grow(acc, *q, anchor);
                proof {
                    let t = footprint_points(ls[j as int].footprint);
                    let x = bbox_of(no_bbox(), before, a);
                    assert(bbox_of(x, t.drop_last().drop_last(), a) == x);
                    assert(bbox_of(x, t.drop_last(), a) == bbox_add(x, shifted(*p, a)));
                    assert(bbox_of(x, t, a) == bbox_add(bbox_add(x, shifted(*p, a)), shifted(*q, a)));
                }
            },
            Footprint::Polygon(v) => {
                proof {
                    lemma_reach_fits(v@, anchor);
                }
                acc = grow_all(acc, v.as_slice(), anchor);
            },
        }
        j = j + 1;
    }
    proof {
        assert(city_points(city) =~= sp + landmark_points(ls, ls.len() as int));
    }
    acc
}

/// `pts`, each moved by `anchor`.
pub open spec fn shift_all(pts: Seq<(i64, i64)>, anchor: (i64, i64)) -> Seq<(i64, i64)> {
    pts.map_values(|p: (i64, i64)| world_cell(p, anchor))
}

/// Anchor-relative cell `p` as a world cell.
pub open spec fn world_cell(p: (i64, i64), anchor: (i64, i64)) -> (i64, i64) {
    ((p.0 + anchor.0) as i64, (p.1 + anchor.1) as i64)
}

/// Each point moved by `anchor`: anchor-relative cells made world cells.
pub fn offset_points(pts: &[(i64, i64)], anchor: (i64, i64)) -> (r: Vec<(i64, i64)>)
    requires
        fits_shift(pts@, anchor),
    ensures
        r@ == shift_all(pts@, anchor),
        forall|k: int| 0 <= k < r@.len() ==> ipt(#[trigger] r@[k]) == shifted(pts@[k], ipt(anchor)),
{
    let mut out: Vec<(i64, i64)> = Vec::new();
    let mut k: usize = 0;
    while k < pts.len()
        invariant
            k <= pts@.len(),
            fits_shift(pts@, anchor),
            out@ =~= shift_all(pts@, anchor).take(k as int),
        decreases pts@.len() - k,
    {
        let p = pts[k];
        out.push((p.0 + anchor.0, p.1 + anchor.1));
        k += 1;
    }
    proof {
        assert(shift_all(pts@, anchor).take(pts@.len() as int) =~= shift_all(pts@, anchor));
    }
    out
}

proof fn lemma_bbox_within(b: (int, int, int, int), pts: Seq<(i64, i64)>, bound: int)
    requires
        all_within(pts, bound),
        0 <= bound < i64::MAX,
        pts.len() > 0 || (-bound <= b.0 <= bound && -bound <= b.1 <= bound && -bound <= b.2 <= bound && -bound
            <= b.3 <= bound),
        pts.len() > 0 ==> b == no_bbox(),
    ensures
        ({
            let r = bbox_of(b, pts, (0, 0));
            -bound <= r.0 <= bound && -bound <= r.1 <= bound && -bound <= r.2 <= bound && -bound <= r.3 <= bound
        }),
        pts.len() > 0 ==> bbox_of(b, pts, (0, 0)).0 <= bbox_of(b, pts, (0, 0)).2 && bbox_of(b, pts, (0, 0)).1
            <= bbox_of(b, pts, (0, 0)).3,
    decreases pts.len(),
{
    if pts.len() > 1 {
        lemma_bbox_within(b, pts.drop_last(), bound);
        assert(within(pts[pts.len() - 1], bound));
    } else if pts.len() == 1 {
        assert(pts.drop_last().len() == 0);
        assert(bbox_of(b, pts.drop_last(), (0, 0)) == b);
        assert(within(pts[0], bound));
    }
}

/// Row-major order on cells: by row, then by column.
pub open spec fn row_major_lt(p: (i64, i64), q: (i64, i64)) -> bool {
    p.1 < q.1 || (p.1 == q.1 && p.0 < q.0)
}

/// Cell `c` lies in the inclusive box `b`.
pub open spec fn in_box(b: (int, int, int, int), c: (int, int)) -> bool {
    b.0 <= c.0 <= b.2 && b.1 <= c.1 <= b.3
}

/// The cells of box `b` in row-major order; with `filter`, only those
/// inside `poly`.
fn scan_box(b: (i64, i64, i64, i64), poly: &[(i64, i64)], filter: bool) -> (r: Vec<(i64, i64)>)
    requires
        -0x8_0000_0000 <= b.0 <= 0x8_0000_0000,
        -0x8_0000_0000 <= b.1 <= 0x8_0000_0000,
        -0x8_0000_0000 <= b.2 <= 0x8_0000_0000,
        -0x8_0000_0000 <= b.3 <= 0x8_0000_0000,
        all_within(poly@, WIDE_BOUND as int),
    ensures
        forall|k: int|
            0 <= k < r@.len() ==> in_box(ibox(b), ipt(#[trigger] r@[k])) && (filter ==> in_polygon(ipt(r@[k]), poly@)),
        forall|i: int, j: int| 0 <= i < j < r@.len() ==> row_major_lt(#[trigger] r@[i], #[trigger] r@[j]),
        forall|c: (i64, i64)|
            in_box(ibox(b), #[trigger] ipt(c)) && (filter ==> in_polygon(ipt(c), poly@)) ==> exists|k: int|
                0 <= k < r@.len() && r@[k] == c,
{
    let ghost inside = |c: (int, int)| in_box(ibox(b), c) && (!filter || in_polygon(c, poly@));
    let mut out: Vec<(i64, i64)> = Vec::new();
    let mut y = b.1;
    while y <= b.3
        invariant
            -0x8_0000_0000 <= b.0 <= 0x8_0000_0000,
            -0x8_0000_0000 <= b.1 <= 0x8_0000_0000,
            -0x8_0000_0000 <= b.2 <= 0x8_0000_0000,
            -0x8_0000_0000 <= b.3 <= 0x8_0000_0000,
            b.1 <= y <= b.3 + 1 || (y == b.1 && b.1 > b.3),
            all_within(poly@, WIDE_BOUND as int),
            inside == (|c: (int, int)| in_box(ibox(b), c) && (!filter || in_polygon(c, poly@))),
            forall|k: int| 0 <= k < out@.len() ==> inside(ipt(#[trigger] out@[k])) && out@[k].1 < y,
            forall|i: int, j: int| 0 <= i < j < out@.len() ==> row_major_lt(#[trigger] out@[i], #[trigger] out@[j]),
            forall|c: (i64, i64)|
                #[trigger] inside(ipt(c)) && c.1 < y ==> exists|k: int| 0 <= k < out@.len() && out@[k] == c,
        decreases b.3 + 1 - y,
    {
        let mut x = b.0;
        while x <= b.2
            invariant
                -0x8_0000_0000 <= b.0 <= 0x8_0000_0000,
                -0x8_0000_0000 <= b.2 <= 0x8_0000_0000,
                -0x8_0000_0000 <= b.1 <= y <= b.3 <= 0x8_0000_0000,
                b.0 <= x <= b.2 + 1 || (x == b.0 && b.0 > b.2),
                all_within(poly@, WIDE_BOUND as int),
                inside == (|c: (int, int)| in_box(ibox(b), c) && (!filter || in_polygon(c, poly@))),
                forall|k: int|
                    0 <= k < out@.len() ==> inside(ipt(#[trigger] out@[k])) && row_major_lt(out@[k], (x, y)),
                forall|i: int, j: int|
                    0 <= i < j < out@.len() ==> row_major_lt(#[trigger] out@[i], #[trigger] out@[j]),
                forall|c: (i64, i64)|
                    #[trigger] inside(ipt(c)) && row_major_lt(c, (x, y)) ==> exists|k: int|
                        0 <= k < out@.len() && out@[k] == c,
            decreases b.2 + 1 - x,
        {
            let keep = if filter {
                point_in_polygon((x, y), poly)
            } else {
                true
            };
            let ghost before = out@;
            if keep {
                out.push((x, y));
            }
            proof {
                assert(keep == inside(ipt((x, y))));
                assert forall|k: int| 0 <= k < out@.len() implies inside(ipt(#[trigger] out@[k])) && row_major_lt(
                    out@[k],
                    ((x + 1) as i64, y),
                ) by {
                    if k < before.len() {
                        assert(out@[k] == before[k]);
                    }
                }
                assert forall|c: (i64, i64)|
                    #[trigger] inside(ipt(c)) && row_major_lt(c, ((x + 1) as i64, y)) implies exists|k: int|
                    0 <= k < out@.len() && out@[k] == c by {
                    if c == (x, y) {
                        assert(out@[out@.len() - 1] == c);
                    } else {
                        assert(row_major_lt(c, (x, y)));
                        let k = choose|k: int| 0 <= k < before.len() && before[k] == c;
                        assert(out@[k] == c);
                    }
                }
            }
            x = x + 1;
        }
        proof {
            assert forall|c: (i64, i64)| #[trigger] inside(ipt(c)) && c.1 < y + 1 implies exists|k: int|
                0 <= k < out@.len() && out@[k] == c by {
                if c.1 == y {
                    assert(row_major_lt(c, (x, y)));
                }
            }
        }
        y = y + 1;
    }
    proof {
        assert forall|c: (i64, i64)|
            in_box(ibox(b), #[trigger] ipt(c)) && (filter ==> in_polygon(ipt(c), poly@)) implies exists|k: int|
            0 <= k < out@.len() && out@[k] == c by {
            assert(inside(ipt(c)));
            assert(c.1 < y);
        }
        assert forall|k: int| 0 <= k < out@.len() implies in_box(ibox(b), ipt(#[trigger] out@[k])) && (filter
            ==> in_polygon(ipt(out@[k]), poly@)) by {
            assert(inside(ipt(out@[k])));
        }
    }
    out
}

/// World cell `c` lies in footprint `fp` anchored at `anchor`: inside the
/// rectangle between its corners, or, for a polygon of at least three
/// vertices, inside the vertices' bounding box and the polygon itself.
pub open spec fn in_footprint(fp: Footprint, anchor: (i64, i64), c: (int, int)) -> bool {
    match fp {
        Footprint::Rect(p, q) => {
            let a = ipt(anchor);
            let lo_x = if p.0 <= q.0 {
                p.0 as int
            } else {
                q.0 as int
            };
            let hi_x = if p.0 <= q.0 {
                q.0 as int
            } else {
                p.0 as int
            };
            let lo_y = if p.1 <= q.1 {
                p.1 as int
            } else {
                q.1 as int
            };
            let hi_y = if p.1 <= q.1 {
                q.1 as int
            } else {
                p.1 as int
            };
            in_box((lo_x + a.0, lo_y + a.1, hi_x + a.0, hi_y + a.1), c)
        },
        Footprint::Polygon(v) => {
            let wp = shift_all(v@, anchor);
            v@.len() >= 3 && in_box(bbox_of(no_bbox(), wp, (0, 0)), c) && in_polygon(c, wp)
        },
    }
}

/// Every world cell of a landmark footprint, each once, in row-major
/// order.
pub fn footprint_cells(fp: &Footprint, anchor: (i64, i64)) -> (r: Vec<(i64, i64)>)
    requires
        fp_fits(*fp),
        within(anchor, CITY_REACH as int),
    ensures
        forall|k: int| 0 <= k < r@.len() ==> in_footprint(*fp, anchor, ipt(#[trigger] r@[k])),
        forall|i: int, j: int| 0 <= i < j < r@.len() ==> row_major_lt(#[trigger] r@[i], #[trigger] r@[j]),
        forall|c: (i64, i64)|
            #[trigger] in_footprint(*fp, anchor, ipt(c)) ==> exists|k: int| 0 <= k < r@.len() && r@[k] == c,
{
    let empty: Vec<(i64, i64)> = Vec::new();
    match fp {
        Footprint::Rect(a, b) => {
            let lo_x = if a.0 <= b.0 {
                a.0
            } else {
                b.0
            };
            let hi_x = if a.0 <= b.0 {
                b.0
            } else {
                a.0
            };
            let lo_y = if a.1 <= b.1 {
                a.1
            } else {
                b.1
            };
            let hi_y = if a.1 <= b.1 {
                b.1
            } else {
                a.1
            };
            let bx = (lo_x + anchor.0, lo_y + anchor.1, hi_x + anchor.0, hi_y + anchor.1);
            let r = scan_box(bx, empty.as_slice(), false);
            proof {
                assert forall|c: (int, int)| in_footprint(*fp, anchor, c) == in_box(ibox(bx), c) by {}
            }
            r
        },
        Footprint::Polygon(verts) => {
            if verts.len() < 3 {
                proof {
                    assert forall|c: (i64, i64)| !in_footprint(*fp, anchor, #[trigger] ipt(c)) by {}
                }
                return empty;
            }
            proof {
                lemma_reach_fits(verts@, anchor);
            }
            let wp = offset_points(verts.as_slice(), anchor);
            proof {
                assert forall|k: int| 0 <= k < wp@.len() implies within(#[trigger] wp@[k], 0x4_0000_0000) by {
                    assert(within(verts@[k], CITY_REACH as int));
                    assert(ipt(wp@[k]) == shifted(verts@[k], ipt(anchor)));
                }
                assert(all_within(wp@, 0x4_0000_0000));
                lemma_bbox_within(no_bbox(), wp@, 0x4_0000_0000);
                assert forall|k: int| 0 <= k < wp@.len() implies within(#[trigger] wp@[k], WIDE_BOUND as int) by {
                    assert(within(wp@[k], 0x4_0000_0000));
                }
            }
            let bx = compute_bbox(wp.as_slice());
            let r = scan_box(bx, wp.as_slice(), true);
            proof {
                assert forall|c: (int, int)| in_footprint(*fp, anchor, c) == (in_box(ibox(bx), c) && in_polygon(c, wp@))
                    by {}
            }
            r
        },
    }
}

/// Overmap tag of a landmark, from its name in ASCII lowercase: a
/// cathedral (but not a cathedral close) or the castle of Rougemont.
/// Other landmarks do not show on the overmap.
pub open spec fn landmark_tag(name: Seq<char>) -> Option<CityChunkFeature> {
    let n = name.map_values(|c: char| ascii_lower(c));
    if has_sub(n, "cathedral"@) && !has_sub(n, "close"@) {
        Some(CityChunkFeature::Cathedral)
    } else if has_sub(n, "rougemont"@) {
        Some(CityChunkFeature::Castle)
    } else {
        None
    }
}

/// The overmap tag of the landmark called `name`, if it has one.
pub fn landmark_feature(name: &str) -> (r: Option<CityChunkFeature>)
    ensures
        r == landmark_tag(name@),
{
    let lower = to_ascii_lowercase(name);
    let n = lower.as_str();
    if str_contains(n, "cathedral") && !str_contains(n, "close") {
        Some(CityChunkFeature::Cathedral)
    } else if str_contains(n, "rougemont") {
        Some(CityChunkFeature::Castle)
    } else {
        None
    }
}

// ---------------------------------------------------------------------
// Sets of cells, keyed by `cell_key`
// ---------------------------------------------------------------------

proof fn lemma_key_insert(s: Set<u128>, p: (i64, i64))
    ensures
        forall|c: (i64, i64)| #[trigger] s.insert(cell_key(p)).contains(cell_key(c)) == (s.contains(cell_key(c)) || c == p),
{
    assert forall|c: (i64, i64)| #[trigger] s.insert(cell_key(p)).contains(cell_key(c)) == (s.contains(cell_key(c)) || c
        == p) by {
        if cell_key(c) == cell_key(p) {
            lemma_cell_key_injective(c, p);
        }
    }
}

/// Cell `c` lies in the opening that gate `g` makes in the wall: within
/// `g.width` cells, centred on `g.cell`, along its row or its column.
pub open spec fn in_gap(g: Gate, anchor: (i64, i64), c: (int, int)) -> bool {
    let p = shifted(g.cell, ipt(anchor));
    let lo = run_lo(g.width as int);
    let hi = run_hi(g.width as int);
    (c.1 == p.1 && lo <= c.0 - p.0 <= hi) || (c.0 == p.0 && lo <= c.1 - p.1 <= hi)
}

/// Cell `c` lies in the gap of one of the first `n` gates.
pub open spec fn in_gate_gaps(gates: Seq<Gate>, anchor: (i64, i64), n: int, c: (int, int)) -> bool {
    exists|g: int| 0 <= g < n && in_gap(#[trigger] gates[g], anchor, c)
}

impl City {
    /// World cells where the wall stays open for a gate: for each gate, a
    /// plus `width` cells across in both directions. On a gate's own wall
    /// that makes a gap; a wall crossing it keeps its cells.
    pub fn gate_skip_cells(&self, anchor: (i64, i64)) -> (r: HashSet<u128>)
        requires
            self.fits(anchor),
        ensures
            forall|c: (i64, i64)|
                #[trigger] r@.contains(cell_key(c)) == in_gate_gaps(
                    self.wall.gates@,
                    anchor,
                    self.wall.gates@.len() as int,
                    ipt(c),
                ),
    {
        let ghost gates = self.wall.gates@;
        let mut out: HashSet<u128> = HashSet::new();
        let mut g: usize = 0;
        while g < self.wall.gates.len()
            invariant
                g <= gates.len(),
                gates == self.wall.gates@,
                self.fits(anchor),
                forall|c: (i64, i64)|
                    #[trigger] out@.contains(cell_key(c)) == in_gate_gaps(gates, anchor, g as int, ipt(c)),
            decreases gates.len() - g,
        {
            let gate = &self.wall.gates[g];
            proof {
                assert(within(gates[g as int].cell, CITY_REACH as int));
            }
            let cx = gate.cell.0 + anchor.0;
            let cy = gate.cell.1 + anchor.1;
            let w = gate.width as i64;
            let lo = -(w / 2);
            let hi = lo + w - 1;
            let ghost p = shifted(gate.cell, ipt(anchor));
            let mut d = lo;
            while d <= hi
                invariant
                    g < gates.len(),
                    gates == self.wall.gates@,
                    *gate == gates[g as int],
                    p == shifted(gate.cell, ipt(anchor)),
                    cx == p.0 && cy == p.1,
                    -0x4_0000_0000 <= cx <= 0x4_0000_0000,
                    -0x4_0000_0000 <= cy <= 0x4_0000_0000,
                    lo == run_lo(gate.width as int),
                    hi == run_hi(gate.width as int),
                    lo <= d <= hi + 1,
                    forall|c: (i64, i64)|
                        #[trigger] out@.contains(cell_key(c)) == (in_gate_gaps(gates, anchor, g as int, ipt(c)) || (
                        c.1 == p.1 && lo <= c.0 - p.0 < d) || (c.0 == p.0 && lo <= c.1 - p.1 < d)),
                decreases hi + 1 - d,
            {
                let across = (cx + d, cy);
                let along = (cx, cy + d);
                let ghost s0 = out@;
                out.insert(cell_key_exec(across));
                let ghost s1 = out@;
                out.insert(cell_key_exec(along));
                proof {
                    lemma_key_insert(s0, across);
                    lemma_key_insert(s1, along);
                }
                d = d + 1;
            }
            proof {
                assert forall|c: (i64, i64)|
                    #[trigger] out@.contains(cell_key(c)) == in_gate_gaps(gates, anchor, g + 1, ipt(c)) by {
                    if in_gap(gates[g as int], anchor, ipt(c)) {
                        assert(out@.contains(cell_key(c)));
                    }
                    if in_gate_gaps(gates, anchor, g + 1, ipt(c)) && !in_gap(gates[g as int], anchor, ipt(c)) {
                        let k = choose|k: int| 0 <= k < g + 1 && in_gap(#[trigger] gates[k], anchor, ipt(c));
                        assert(in_gate_gaps(gates, anchor, g as int, ipt(c)));
                    }
                    if in_gate_gaps(gates, anchor, g as int, ipt(c)) {
                        let k = choose|k: int| 0 <= k < g && in_gap(#[trigger] gates[k], anchor, ipt(c));
                        assert(in_gate_gaps(gates, anchor, g + 1, ipt(c)));
                    }
                }
            }
            g = g + 1;
        }
        out
    }
}

/// Cell `c` lies in the square of offsets `[lo, hi]` around `p`.
pub open spec fn near(p: (i64, i64), lo: int, hi: int, c: (int, int)) -> bool {
    lo <= c.0 - p.0 <= hi && lo <= c.1 - p.1 <= hi
}

/// Cell `c` lies near one of the first `n` cells of `line`.
pub open spec fn near_line(line: Seq<(i64, i64)>, n: int, lo: int, hi: int, c: (int, int)) -> bool {
    exists|m: int| 0 <= m < n && near(#[trigger] line[m], lo, hi, c)
}

/// The line, in world cells, of segment `w` of an anchor-relative
/// polyline: from vertex `w` to vertex `w + 1`.
pub open spec fn seg_line(poly: Seq<(i64, i64)>, w: int, anchor: (i64, i64)) -> Seq<(i64, i64)> {
    line_of(shifted(poly[w], ipt(anchor)), shifted(poly[w + 1], ipt(anchor)))
}

/// One of the first `n` segments of street `st` passes within the
/// street's width of cell `c`.
pub open spec fn street_covers(st: Street, anchor: (i64, i64), n: int, c: (int, int)) -> bool {
    exists|w: int|
        #![trigger seg_line(st.polyline@, w, anchor)]
        0 <= w < n && near_line(
            seg_line(st.polyline@, w, anchor),
            seg_line(st.polyline@, w, anchor).len() as int,
            run_lo(st.width as int),
            run_hi(st.width as int),
            c,
        )
}

/// One of the first `n` streets covers cell `c`.
pub open spec fn on_streets(streets: Seq<Street>, anchor: (i64, i64), n: int, c: (int, int)) -> bool {
    exists|s: int|
        0 <= s < n && street_covers(#[trigger] streets[s], anchor, streets[s].polyline@.len() - 1, c)
}

/// `c` occurs in `v`.
pub open spec fn listed(v: Seq<(i64, i64)>, c: (i64, i64)) -> bool {
    exists|k: int| 0 <= k < v.len() && #[trigger] v[k] == c
}

pub(crate) proof fn lemma_listed_push(v: Seq<(i64, i64)>, x: (i64, i64))
    ensures
        forall|c: (i64, i64)| #[trigger] listed(v.push(x), c) == (listed(v, c) || c == x),
{
    assert forall|c: (i64, i64)| #[trigger] listed(v.push(x), c) == (listed(v, c) || c == x) by {
        if listed(v.push(x), c) {
            let k = choose|k: int| 0 <= k < v.push(x).len() && #[trigger] v.push(x)[k] == c;
            if k < v.len() {
                assert(v[k] == c);
            }
        }
        if listed(v, c) {
            let k = choose|k: int| 0 <= k < v.len() && #[trigger] v[k] == c;
            assert(v.push(x)[k] == c);
        }
        if c == x {
            assert(v.push(x)[v.len() as int] == c);
        }
    }
}

fn list_near(out: &mut Vec<(i64, i64)>, p: (i64, i64), lo: i64, hi: i64)
    requires
        within(p, 0x8_0000_0000),
        -0x8000 <= lo <= hi + 1,
        hi <= 0x8000,
        all_within(old(out)@, 0x9_0000_0000),
    ensures
        all_within(final(out)@, 0x9_0000_0000),
        forall|c: (i64, i64)|
            #[trigger] listed(final(out)@, c) == (listed(old(out)@, c) || near(
                p,
                lo as int,
                hi as int,
                ipt(c),
            )),
{
    let ghost init = out@;
    let mut dy = lo;
    while dy <= hi
        invariant
            within(p, 0x8_0000_0000),
            -0x8000 <= lo <= dy <= hi + 1,
            hi <= 0x8000,
            all_within(out@, 0x9_0000_0000),
            forall|c: (i64, i64)|
                #[trigger] listed(out@, c) == (listed(init, c) || (lo <= c.0 - p.0 <= hi && lo
                    <= c.1 - p.1 < dy)),
        decreases hi + 1 - dy,
    {
        let mut dx = lo;
        while dx <= hi
            invariant
                within(p, 0x8_0000_0000),
                -0x8000 <= lo <= dx <= hi + 1,
                lo <= dy <= hi,
                hi <= 0x8000,
                all_within(out@, 0x9_0000_0000),
                forall|c: (i64, i64)|
                    #[trigger] listed(out@, c) == (listed(init, c) || (lo <= c.0 - p.0 <= hi
                        && lo <= c.1 - p.1 < dy) || (c.1 - p.1 == dy && lo <= c.0 - p.0 < dx)),
            decreases hi + 1 - dx,
        {
            let cell = (p.0 + dx, p.1 + dy);
            let ghost s0 = out@;
            out.push(cell);
            proof {
                lemma_listed_push(s0, cell);
                assert forall|k: int| 0 <= k < out@.len() implies within(#[trigger] out@[k], 0x9_0000_0000) by {
                    if k < s0.len() {
                        assert(out@[k] == s0[k]);
                    }
                }
            }
            dx = dx + 1;
        }
        dy = dy + 1;
    }
}

fn list_line(out: &mut Vec<(i64, i64)>, a: (i64, i64), b: (i64, i64), lo: i64, hi: i64)
    requires
        within(a, 0x4_0000_0000),
        within(b, 0x4_0000_0000),
        -0x8000 <= lo <= hi + 1,
        hi <= 0x8000,
        all_within(old(out)@, 0x9_0000_0000),
    ensures
        all_within(final(out)@, 0x9_0000_0000),
        forall|c: (i64, i64)|
            #[trigger] listed(final(out)@, c) == (listed(old(out)@, c) || near_line(
                line_of(ipt(a), ipt(b)),
                line_of(ipt(a), ipt(b)).len() as int,
                lo as int,
                hi as int,
                ipt(c),
            )),
{
    let ghost init = out@;
    let line = line_cells(a, b);
    let mut m: usize = 0;
    while m < line.len()
        invariant
            m <= line@.len(),
            line@ == line_of(ipt(a), ipt(b)),
            within(a, 0x4_0000_0000),
            within(b, 0x4_0000_0000),
            forall|k: int| 0 <= k < line@.len() ==> in_span(ipt(a), ipt(b), ipt(#[trigger] line@[k])),
            -0x8000 <= lo <= hi + 1,
            hi <= 0x8000,
            all_within(out@, 0x9_0000_0000),
            forall|c: (i64, i64)|
                #[trigger] listed(out@, c) == (listed(init, c) || near_line(
                    line@,
                    m as int,
                    lo as int,
                    hi as int,
                    ipt(c),
                )),
        decreases line@.len() - m,
    {
        proof {
            assert(in_span(ipt(a), ipt(b), ipt(line@[m as int])));
        }
        let ghost s0 = out@;
        list_near(out, line[m], lo, hi);
        proof {
            assert forall|c: (i64, i64)|
                #[trigger] listed(out@, c) == (listed(init, c) || near_line(
                    line@,
                    m + 1,
                    lo as int,
                    hi as int,
                    ipt(c),
                )) by {
                if near_line(line@, m + 1, lo as int, hi as int, ipt(c)) && !near(
                    line@[m as int],
                    lo as int,
                    hi as int,
                    ipt(c),
                ) {
                    let k = choose|k: int| 0 <= k < m + 1 && near(#[trigger] line@[k], lo as int, hi as int, ipt(c));
                    assert(near_line(line@, m as int, lo as int, hi as int, ipt(c)));
                }
                if near_line(line@, m as int, lo as int, hi as int, ipt(c)) {
                    let k = choose|k: int| 0 <= k < m && near(#[trigger] line@[k], lo as int, hi as int, ipt(c));
                    assert(near_line(line@, m + 1, lo as int, hi as int, ipt(c)));
                }
            }
        }
        m = m + 1;
    }
}

pub(crate) fn list_street(out: &mut Vec<(i64, i64)>, st: &Street, anchor: (i64, i64))
    requires
        all_within(st.polyline@, CITY_REACH as int),
        within(anchor, CITY_REACH as int),
        all_within(old(out)@, 0x9_0000_0000),
    ensures
        all_within(final(out)@, 0x9_0000_0000),
        forall|c: (i64, i64)|
            #[trigger] listed(final(out)@, c) == (listed(old(out)@, c) || street_covers(
                *st,
                anchor,
                st.polyline@.len() - 1,
                ipt(c),
            )),
{
    let ghost init = out@;
    let ghost poly = st.polyline@;
    let (lo, hi) = street_half_extents(st.width);
    let n = st.polyline.len();
    let segs = if n >= 1 {
        n - 1
    } else {
        0
    };
    let mut w: usize = 0;
    while w < segs
        invariant
            poly == st.polyline@,
            n == poly.len(),
            segs == (if n >= 1 {
                n - 1
            } else {
                0
            }),
            w <= segs,
            all_within(poly, CITY_REACH as int),
            within(anchor, CITY_REACH as int),
            all_within(out@, 0x9_0000_0000),
            lo == run_lo(st.width as int),
            hi == run_hi(st.width as int),
            forall|c: (i64, i64)|
                #[trigger] listed(out@, c) == (listed(init, c) || street_covers(
                    *st,
                    anchor,
                    w as int,
                    ipt(c),
                )),
        decreases poly.len() - w,
    {
        let p = st.polyline[w];
        let q = st.polyline[w + 1];
        proof {
            assert(within(poly[w as int], CITY_REACH as int));
            assert(within(poly[w + 1], CITY_REACH as int));
        }
        let aw = (p.0 + anchor.0, p.1 + anchor.1);
        let bw = (q.0 + anchor.0, q.1 + anchor.1);
        list_line(out, aw, bw, lo, hi);
        proof {
            let lw = seg_line(poly, w as int, anchor);
            assert(lw == line_of(ipt(aw), ipt(bw)));
            assert forall|c: (i64, i64)|
                #[trigger] listed(out@, c) == (listed(init, c) || street_covers(
                    *st,
                    anchor,
                    w + 1,
                    ipt(c),
                )) by {
                if street_covers(*st, anchor, w + 1, ipt(c)) && !near_line(
                    lw,
                    lw.len() as int,
                    lo as int,
                    hi as int,
                    ipt(c),
                ) {
                    let k = choose|k: int|
                        #![trigger seg_line(poly, k, anchor)]
                        0 <= k < w + 1 && near_line(
                            seg_line(poly, k, anchor),
                            seg_line(poly, k, anchor).len() as int,
                            lo as int,
                            hi as int,
                            ipt(c),
                        );
                    assert(street_covers(*st, anchor, w as int, ipt(c)));
                }
                if street_covers(*st, anchor, w as int, ipt(c)) {
                    let k = choose|k: int|
                        #![trigger seg_line(poly, k, anchor)]
                        0 <= k < w && near_line(
                            seg_line(poly, k, anchor),
                            seg_line(poly, k, anchor).len() as int,
                            lo as int,
                            hi as int,
                            ipt(c),
                        );
                    assert(street_covers(*st, anchor, w + 1, ipt(c)));
                }
                if near_line(lw, lw.len() as int, lo as int, hi as int, ipt(c)) {
                    assert(street_covers(*st, anchor, w + 1, ipt(c)));
                }
            }
        }
        w = w + 1;
    }
    proof {
        assert forall|c: (i64, i64)|
            street_covers(*st, anchor, w as int, ipt(c)) == #[trigger] street_covers(
                *st,
                anchor,
                poly.len() - 1,
                ipt(c),
            ) by {
            if street_covers(*st, anchor, poly.len() - 1, ipt(c)) {
                let k = choose|k: int|
                    #![trigger seg_line(poly, k, anchor)]
                    0 <= k < poly.len() - 1 && near_line(
                        seg_line(poly, k, anchor),
                        seg_line(poly, k, anchor).len() as int,
                        lo as int,
                        hi as int,
                        ipt(c),
                    );
            }
        }
    }
}


fn add_street(out: &mut HashSet<u128>, st: &Street, anchor: (i64, i64))
    requires
        all_within(st.polyline@, CITY_REACH as int),
        within(anchor, CITY_REACH as int),
    ensures
        forall|c: (i64, i64)|
            #[trigger] final(out)@.contains(cell_key(c)) == (old(out)@.contains(cell_key(c)) || street_covers(
                *st,
                anchor,
                st.polyline@.len() - 1,
                ipt(c),
            )),
{
    let ghost init = out@;
    let mut cells: Vec<(i64, i64)> = Vec::new();
    list_street(&mut cells, st, anchor);
    let mut k: usize = 0;
    while k < cells.len()
        invariant
            k <= cells@.len(),
            forall|c: (i64, i64)|
                #[trigger] listed(cells@, c) == (listed(Seq::<(i64, i64)>::empty(), c) || street_covers(
                    *st,
                    anchor,
                    st.polyline@.len() - 1,
                    ipt(c),
                )),
            forall|c: (i64, i64)|
                #[trigger] out@.contains(cell_key(c)) == (init.contains(cell_key(c)) || listed(
                    cells@.take(k as int),
                    c,
                )),
        decreases cells@.len() - k,
    {
        let ghost s0 = out@;
        out.insert(cell_key_exec(cells[k]));
        proof {
            lemma_key_insert(s0, cells@[k as int]);
            assert(cells@.take(k + 1) =~= cells@.take(k as int).push(cells@[k as int]));
            lemma_listed_push(cells@.take(k as int), cells@[k as int]);
        }
        k = k + 1;
    }
    proof {
        assert(cells@.take(cells@.len() as int) =~= cells@);
        assert forall|c: (i64, i64)| !listed(Seq::<(i64, i64)>::empty(), c) by {}
    }
}

/// Every world cell a street covers, width included, as `cell_key`s.
pub fn compute_street_cells(city: &City, anchor: (i64, i64)) -> (r: HashSet<u128>)
    requires
        city.fits(anchor),
    ensures
        forall|c: (i64, i64)|
            #[trigger] r@.contains(cell_key(c)) == on_streets(
                city.streets@,
                anchor,
                city.streets@.len() as int,
                ipt(c),
            ),
{
    let ghost ss = city.streets@;
    let mut out: HashSet<u128> = HashSet::new();
    let mut s: usize = 0;
    while s < city.streets.len()
        invariant
            s <= ss.len(),
            ss == city.streets@,
            city.fits(anchor),
            forall|c: (i64, i64)| #[trigger] out@.contains(cell_key(c)) == on_streets(ss, anchor, s as int, ipt(c)),
        decreases ss.len() - s,
    {
        proof {
            assert(all_within(ss[s as int].polyline@, CITY_REACH as int));
        }
        add_street(&mut out, &city.streets[s], anchor);
        proof {
            assert forall|c: (i64, i64)| #[trigger] out@.contains(cell_key(c)) == on_streets(ss, anchor, s + 1, ipt(c))
                by {
                let cur = street_covers(ss[s as int], anchor, ss[s as int].polyline@.len() - 1, ipt(c));
                if on_streets(ss, anchor, s + 1, ipt(c)) && !cur {
                    let k = choose|k: int|
                        0 <= k < s + 1 && street_covers(
                            #[trigger] ss[k],
                            anchor,
                            ss[k].polyline@.len() - 1,
                            ipt(c),
                        );
                    assert(on_streets(ss, anchor, s as int, ipt(c)));
                }
                if on_streets(ss, anchor, s as int, ipt(c)) {
                    let k = choose|k: int|
                        0 <= k < s && street_covers(#[trigger] ss[k], anchor, ss[k].polyline@.len() - 1, ipt(c));
                    assert(on_streets(ss, anchor, s + 1, ipt(c)));
                }
            }
        }
        s = s + 1;
    }
    out
}

// ---------------------------------------------------------------------
// Overmap features of the chunks a city touches
// ---------------------------------------------------------------------

/// Feature a map keyed by `chunk_key` records for chunk `ch`.
pub open spec fn feature_in(m: Map<u64, CityChunkFeature>, ch: ChunkCoord) -> Option<CityChunkFeature> {
    if m.contains_key(chunk_key(ch)) {
        Some(m[chunk_key(ch)])
    } else {
        None
    }
}

proof fn lemma_feature_insert(m: Map<u64, CityChunkFeature>, c0: ChunkCoord, f: CityChunkFeature)
    ensures
        forall|ch: ChunkCoord|
            #[trigger] feature_in(m.insert(chunk_key(c0), f), ch) == if ch == c0 {
                Some(f)
            } else {
                feature_in(m, ch)
            },
{
    assert forall|ch: ChunkCoord|
        #[trigger] feature_in(m.insert(chunk_key(c0), f), ch) == if ch == c0 {
            Some(f)
        } else {
            feature_in(m, ch)
        } by {
        if chunk_key(ch) == chunk_key(c0) {
            lemma_chunk_key_injective(ch, c0);
        }
    }
}

/// One of the first `n` cells of `cells` lies in chunk `ch`.
pub open spec fn cells_meet(cells: Seq<(i64, i64)>, n: int, ch: ChunkCoord) -> bool {
    exists|m: int| 0 <= m < n && cell_chunk(#[trigger] cells[m]) == ch
}

/// One of the first `n` segments of street `st` has a line cell in `ch`.
pub open spec fn street_meets(st: Street, anchor: (i64, i64), n: int, ch: ChunkCoord) -> bool {
    exists|w: int|
        #![trigger seg_line(st.polyline@, w, anchor)]
        0 <= w < n && cells_meet(seg_line(st.polyline@, w, anchor), seg_line(st.polyline@, w, anchor).len() as int, ch)
}

/// One of the first `n` streets has a line cell in `ch`.
pub open spec fn streets_meet(streets: Seq<Street>, anchor: (i64, i64), n: int, ch: ChunkCoord) -> bool {
    exists|s: int| 0 <= s < n && street_meets(#[trigger] streets[s], anchor, streets[s].polyline@.len() - 1, ch)
}

/// The line, in world cells, of wall segment `i`: from vertex `i` to the
/// next, the last vertex joining the first.
pub open spec fn wall_line(poly: Seq<(i64, i64)>, i: int, anchor: (i64, i64)) -> Seq<(i64, i64)> {
    line_of(shifted(poly[i], ipt(anchor)), shifted(poly[(i + 1) % (poly.len() as int)], ipt(anchor)))
}

/// One of the first `n` wall segments has a line cell in `ch`.
pub open spec fn wall_meets(poly: Seq<(i64, i64)>, anchor: (i64, i64), n: int, ch: ChunkCoord) -> bool {
    exists|i: int|
        #![trigger wall_line(poly, i, anchor)]
        0 <= i < n && cells_meet(wall_line(poly, i, anchor), wall_line(poly, i, anchor).len() as int, ch)
}

/// A cell of footprint `fp` lies in chunk `ch`.
pub open spec fn footprint_meets(fp: Footprint, anchor: (i64, i64), ch: ChunkCoord) -> bool {
    exists|c: (i64, i64)| in_footprint(fp, anchor, #[trigger] ipt(c)) && cell_chunk(c) == ch
}

/// Tag of chunk `ch` from the first `n` landmarks: that of the last one
/// with an overmap tag whose footprint reaches `ch`.
pub open spec fn landmark_mark(ls: Seq<Landmark>, anchor: (i64, i64), n: int, ch: ChunkCoord) -> Option<
    CityChunkFeature,
>
    decreases n,
{
    if n <= 0 {
        None
    } else if landmark_tag(ls[n - 1].name@) is Some && footprint_meets(ls[n - 1].footprint, anchor, ch) {
        landmark_tag(ls[n - 1].name@)
    } else {
        landmark_mark(ls, anchor, n - 1, ch)
    }
}

/// One of the first `n` gates lies in chunk `ch`.
pub open spec fn gates_meet(gates: Seq<Gate>, anchor: (i64, i64), n: int, ch: ChunkCoord) -> bool {
    exists|g: int| 0 <= g < n && cell_chunk(world_cell(#[trigger] gates[g].cell, anchor)) == ch
}

/// Chunk `ch` lies in the chunk range of the wall's bounding box and its
/// centre inside the wall.
pub open spec fn building_chunk(wall: Seq<(i64, i64)>, wall_bbox: (i64, i64, i64, i64), ch: ChunkCoord) -> bool {
    let lo = cell_chunk((wall_bbox.0, wall_bbox.1));
    let hi = cell_chunk((wall_bbox.2, wall_bbox.3));
    &&& lo.cx <= ch.cx <= hi.cx
    &&& lo.cy <= ch.cy <= hi.cy
    &&& in_polygon(chunk_center_spec(cc_int(ch)), wall)
}

/// Overmap tag of chunk `ch`. Where several apply, the strongest wins:
/// gate, then cathedral or castle, then wall edge, then street, then
/// building.
pub open spec fn chunk_tag(
    city: &City,
    anchor: (i64, i64),
    wall: Seq<(i64, i64)>,
    wall_bbox: (i64, i64, i64, i64),
    ch: ChunkCoord,
) -> Option<CityChunkFeature> {
    let lm = landmark_mark(city.landmarks@, anchor, city.landmarks@.len() as int, ch);
    if gates_meet(city.wall.gates@, anchor, city.wall.gates@.len() as int, ch) {
        Some(CityChunkFeature::Gate)
    } else if lm is Some {
        lm
    } else if wall_meets(city.wall.polygon@, anchor, city.wall.polygon@.len() as int, ch) {
        Some(CityChunkFeature::WallEdge)
    } else if streets_meet(city.streets@, anchor, city.streets@.len() as int, ch) {
        Some(CityChunkFeature::Street)
    } else if building_chunk(wall, wall_bbox, ch) {
        Some(CityChunkFeature::Building)
    } else {
        None
    }
}

fn mark_cells(out: &mut HashMap<u64, CityChunkFeature>, cells: &Vec<(i64, i64)>, f: CityChunkFeature)
    ensures
        forall|ch: ChunkCoord|
            #[trigger] feature_in(final(out)@, ch) == if cells_meet(cells@, cells@.len() as int, ch) {
                Some(f)
            } else {
                feature_in(old(out)@, ch)
            },
{
    let ghost init = out@;
    let mut m: usize = 0;
    while m < cells.len()
        invariant
            m <= cells@.len(),
            forall|ch: ChunkCoord|
                #[trigger] feature_in(out@, ch) == if cells_meet(cells@, m as int, ch) {
                    Some(f)
                } else {
                    feature_in(init, ch)
                },
        decreases cells@.len() - m,
    {
        let cc = chunk_for_cell(cells[m]);
        let ghost before = out@;
        out.insert(chunk_key_exec(cc), f);
        proof {
            lemma_feature_insert(before, cc, f);
            assert forall|ch: ChunkCoord|
                #[trigger] feature_in(out@, ch) == if cells_meet(cells@, m + 1, ch) {
                    Some(f)
                } else {
                    feature_in(init, ch)
                } by {
                if ch == cc {
                    assert(cell_chunk(cells@[m as int]) == ch);
                } else {
                    if cells_meet(cells@, m + 1, ch) {
                        let k = choose|k: int| 0 <= k < m + 1 && cell_chunk(#[trigger] cells@[k]) == ch;
                        assert(cells_meet(cells@, m as int, ch));
                    }
                    if cells_meet(cells@, m as int, ch) {
                        let k = choose|k: int| 0 <= k < m && cell_chunk(#[trigger] cells@[k]) == ch;
                        assert(cells_meet(cells@, m + 1, ch));
                    }
                }
            }
        }
        m = m + 1;
    }
}

fn mark_street(out: &mut HashMap<u64, CityChunkFeature>, st: &Street, anchor: (i64, i64), f: CityChunkFeature)
    requires
        all_within(st.polyline@, CITY_REACH as int),
        within(anchor, CITY_REACH as int),
    ensures
        forall|ch: ChunkCoord|
            #[trigger] feature_in(final(out)@, ch) == if street_meets(*st, anchor, st.polyline@.len() - 1, ch) {
                Some(f)
            } else {
                feature_in(old(out)@, ch)
            },
{
    let ghost init = out@;
    let ghost poly = st.polyline@;
    let n = st.polyline.len();
    let segs = if n >= 1 {
        n - 1
    } else {
        0
    };
    let mut w: usize = 0;
    while w < segs
        invariant
            poly == st.polyline@,
            n == poly.len(),
            segs == (if n >= 1 {
                n - 1
            } else {
                0
            }),
            w <= segs,
            all_within(poly, CITY_REACH as int),
            within(anchor, CITY_REACH as int),
            forall|ch: ChunkCoord|
                #[trigger] feature_in(out@, ch) == if street_meets(*st, anchor, w as int, ch) {
                    Some(f)
                } else {
                    feature_in(init, ch)
                },
        decreases segs - w,
    {
        let p = st.polyline[w];
        let q = st.polyline[w + 1];
        proof {
            assert(within(poly[w as int], CITY_REACH as int));
            assert(within(poly[w + 1], CITY_REACH as int));
        }
        let aw = (p.0 + anchor.0, p.1 + anchor.1);
        let bw = (q.0 + anchor.0, q.1 + anchor.1);
        let line = line_cells(aw, bw);
        let ghost before = out@;
        mark_cells(out, &line, f);
        proof {
            let lw = seg_line(poly, w as int, anchor);
            assert(lw == line@);
            assert forall|ch: ChunkCoord|
                #[trigger] feature_in(out@, ch) == if street_meets(*st, anchor, w + 1, ch) {
                    Some(f)
                } else {
                    feature_in(init, ch)
                } by {
                if street_meets(*st, anchor, w + 1, ch) && !cells_meet(lw, lw.len() as int, ch) {
                    let k = choose|k: int|
                        #![trigger seg_line(poly, k, anchor)]
                        0 <= k < w + 1 && cells_meet(
                            seg_line(poly, k, anchor),
                            seg_line(poly, k, anchor).len() as int,
                            ch,
                        );
                    assert(street_meets(*st, anchor, w as int, ch));
                }
                if street_meets(*st, anchor, w as int, ch) {
                    let k = choose|k: int|
                        #![trigger seg_line(poly, k, anchor)]
                        0 <= k < w && cells_meet(seg_line(poly, k, anchor), seg_line(poly, k, anchor).len() as int, ch);
                    assert(street_meets(*st, anchor, w + 1, ch));
                }
                if cells_meet(lw, lw.len() as int, ch) {
                    assert(street_meets(*st, anchor, w + 1, ch));
                }
            }
        }
        w = w + 1;
    }
    proof {
        assert forall|ch: ChunkCoord|
            street_meets(*st, anchor, w as int, ch) == #[trigger] street_meets(*st, anchor, poly.len() - 1, ch) by {
            if street_meets(*st, anchor, poly.len() - 1, ch) {
                let k = choose|k: int|
                    #![trigger seg_line(poly, k, anchor)]
                    0 <= k < poly.len() - 1 && cells_meet(
                        seg_line(poly, k, anchor),
                        seg_line(poly, k, anchor).len() as int,
                        ch,
                    );
            }
        }
    }
}

proof fn lemma_chunk_range(x: int, y: int)
    requires
        -0x4_0000_0000 <= x <= y <= 0x4_0000_0000,
    ensures
        -0x4000_0000 < x / 40 <= y / 40 < 0x4000_0000,
        -0x4000_0000 < x / 30 <= y / 30 < 0x4000_0000,
{
    lemma_div_is_ordered(x, y, 40);
    lemma_div_is_ordered(x, y, 30);
}

/// The overmap tag of every chunk a city touches, keyed by `chunk_key`;
/// chunks it does not touch are absent. Each feature is written into
/// every chunk it reaches, weakest first (buildings, streets, wall edges,
/// cathedral or castle, gates), so the strongest wins.
pub fn classify_chunks(
    city: &City,
    anchor: (i64, i64),
    wall_world_polygon: &[(i64, i64)],
    wall_bbox: (i64, i64, i64, i64),
) -> (r: HashMap<u64, CityChunkFeature>)
    requires
        city.fits(anchor),
        wall_world_polygon@ == shift_all(city.wall.polygon@, anchor),
        ibox(wall_bbox) == bbox_of(no_bbox(), wall_world_polygon@, (0, 0)),
    ensures
        forall|ch: ChunkCoord|
            #[trigger] feature_in(r@, ch) == chunk_tag(city, anchor, wall_world_polygon@, wall_bbox, ch),
{
    let ghost wall = wall_world_polygon@;
    let ghost poly = city.wall.polygon@;
    let ghost ss = city.streets@;
    let ghost ls = city.landmarks@;
    let ghost gates = city.wall.gates@;
    let mut out: HashMap<u64, CityChunkFeature> = HashMap::new();
    // Buildings: chunks whose centre lies inside the wall.
    if wall_world_polygon.len() >= 3 {
        proof {
            assert forall|k: int| 0 <= k < wall.len() implies within(#[trigger] wall[k], 0x4_0000_0000) by {
                assert(within(poly[k], CITY_REACH as int));
            }
            lemma_bbox_within(no_bbox(), wall, 0x4_0000_0000);
        }
        let lo = chunk_for_cell((wall_bbox.0, wall_bbox.1));
        let hi = chunk_for_cell((wall_bbox.2, wall_bbox.3));
        proof {
            lemma_chunk_range(wall_bbox.0 as int, wall_bbox.2 as int);
            lemma_chunk_range(wall_bbox.1 as int, wall_bbox.3 as int);
        }
        let mut cy = lo.cy;
        while cy <= hi.cy
            invariant
                wall == wall_world_polygon@,
                wall.len() >= 3,
                forall|k: int| 0 <= k < wall.len() ==> within(#[trigger] wall[k], 0x4_0000_0000),
                lo == cell_chunk((wall_bbox.0, wall_bbox.1)),
                hi == cell_chunk((wall_bbox.2, wall_bbox.3)),
                -0x4000_0000 <= lo.cx <= hi.cx < 0x4000_0000,
                -0x4000_0000 <= lo.cy <= cy,
                cy <= hi.cy + 1,
                hi.cy < 0x4000_0000,
                forall|ch: ChunkCoord|
                    #[trigger] feature_in(out@, ch) == if building_chunk(wall, wall_bbox, ch) && ch.cy < cy {
                        Some(CityChunkFeature::Building)
                    } else {
                        None
                    },
            decreases hi.cy + 1 - cy,
        {
            let mut cx = lo.cx;
            while cx <= hi.cx
                invariant
                    wall == wall_world_polygon@,
                    wall.len() >= 3,
                    forall|k: int| 0 <= k < wall.len() ==> within(#[trigger] wall[k], 0x4_0000_0000),
                    lo == cell_chunk((wall_bbox.0, wall_bbox.1)),
                    hi == cell_chunk((wall_bbox.2, wall_bbox.3)),
                    lo.cy <= cy <= hi.cy,
                    -0x4000_0000 <= lo.cx <= cx,
                    cx <= hi.cx + 1,
                    hi.cx < 0x4000_0000,
                    forall|ch: ChunkCoord|
                        #[trigger] feature_in(out@, ch) == if building_chunk(wall, wall_bbox, ch) && (ch.cy < cy || (
                        ch.cy == cy && ch.cx < cx)) {
                            Some(CityChunkFeature::Building)
                        } else {
                            None
                        },
                decreases hi.cx + 1 - cx,
            {
                let cc = ChunkCoord { cx, cy };
                let center = chunk_center(cc);
                proof {
                    assert forall|k: int| 0 <= k < wall.len() implies within(
                        #[trigger] wall[k],
                        WIDE_BOUND as int,
                    ) by {
                        assert(within(wall[k], 0x4_0000_0000));
                    }
                }
                let inside = point_in_polygon(center, wall_world_polygon);
                let ghost before = out@;
                if inside {
                    out.insert(chunk_key_exec(cc), CityChunkFeature::Building);
                    proof {
                        lemma_feature_insert(before, cc, CityChunkFeature::Building);
                    }
                }
                proof {
                    assert(inside == building_chunk(wall, wall_bbox, cc));
                }
                cx = cx + 1;
            }
            cy = cy + 1;
        }
    }
    let ghost stage1 = out@;
    proof {
        assert forall|ch: ChunkCoord| #[trigger] feature_in(stage1, ch) == if building_chunk(wall, wall_bbox, ch) {
            Some(CityChunkFeature::Building)
        } else {
            None
        } by {
            if wall.len() < 3 {
                assert(!in_polygon(chunk_center_spec(cc_int(ch)), wall));
            }
        }
    }
    // Streets: every chunk a street's line passes through.
    let mut s: usize = 0;
    while s < city.streets.len()
        invariant
            s <= ss.len(),
            ss == city.streets@,
            city.fits(anchor),
            forall|ch: ChunkCoord|
                #[trigger] feature_in(out@, ch) == if streets_meet(ss, anchor, s as int, ch) {
                    Some(CityChunkFeature::Street)
                } else {
                    feature_in(stage1, ch)
                },
        decreases ss.len() - s,
    {
        proof {
            assert(all_within(ss[s as int].polyline@, CITY_REACH as int));
        }
        mark_street(&mut out, &city.streets[s], anchor, CityChunkFeature::Street);
        proof {
            assert forall|ch: ChunkCoord|
                #[trigger] feature_in(out@, ch) == if streets_meet(ss, anchor, s + 1, ch) {
                    Some(CityChunkFeature::Street)
                } else {
                    feature_in(stage1, ch)
                } by {
                let cur = street_meets(ss[s as int], anchor, ss[s as int].polyline@.len() - 1, ch);
                if streets_meet(ss, anchor, s + 1, ch) && !cur {
                    let k = choose|k: int|
                        0 <= k < s + 1 && street_meets(#[trigger] ss[k], anchor, ss[k].polyline@.len() - 1, ch);
                    assert(streets_meet(ss, anchor, s as int, ch));
                }
                if streets_meet(ss, anchor, s as int, ch) {
                    let k = choose|k: int|
                        0 <= k < s && street_meets(#[trigger] ss[k], anchor, ss[k].polyline@.len() - 1, ch);
                    assert(streets_meet(ss, anchor, s + 1, ch));
                }
            }
        }
        s = s + 1;
    }
    let ghost stage2 = out@;
    // Wall edges: every chunk a wall segment's line passes through.
    let n = city.wall.polygon.len();
    let mut i: usize = 0;
    while i < n
        invariant
            i <= n,
            n == poly.len(),
            poly == city.wall.polygon@,
            city.fits(anchor),
            forall|ch: ChunkCoord|
                #[trigger] feature_in(out@, ch) == if wall_meets(poly, anchor, i as int, ch) {
                    Some(CityChunkFeature::WallEdge)
                } else {
                    feature_in(stage2, ch)
                },
        decreases n - i,
    {
        let p = city.wall.polygon[i];
        let q = city.wall.polygon[(i + 1) % n];
        proof {
            assert(within(poly[i as int], CITY_REACH as int));
            assert(within(poly[(i + 1) % (n as int)], CITY_REACH as int));
        }
        let aw = (p.0 + anchor.0, p.1 + anchor.1);
        let bw = (q.0 + anchor.0, q.1 + anchor.1);
        let line = line_cells(aw, bw);
        mark_cells(&mut out, &line, CityChunkFeature::WallEdge);
        proof {
            let lw = wall_line(poly, i as int, anchor);
            assert(lw == line@);
            assert forall|ch: ChunkCoord|
                #[trigger] feature_in(out@, ch) == if wall_meets(poly, anchor, i + 1, ch) {
                    Some(CityChunkFeature::WallEdge)
                } else {
                    feature_in(stage2, ch)
                } by {
                if wall_meets(poly, anchor, i + 1, ch) && !cells_meet(lw, lw.len() as int, ch) {
                    let k = choose|k: int|
                        #![trigger wall_line(poly, k, anchor)]
                        0 <= k < i + 1 && cells_meet(wall_line(poly, k, anchor), wall_line(poly, k, anchor).len() as int, ch);
                    assert(wall_meets(poly, anchor, i as int, ch));
                }
                if wall_meets(poly, anchor, i as int, ch) {
                    let k = choose|k: int|
                        #![trigger wall_line(poly, k, anchor)]
                        0 <= k < i && cells_meet(wall_line(poly, k, anchor), wall_line(poly, k, anchor).len() as int, ch);
                    assert(wall_meets(poly, anchor, i + 1, ch));
                }
                if cells_meet(lw, lw.len() as int, ch) {
                    assert(wall_meets(poly, anchor, i + 1, ch));
                }
            }
        }
        i = i + 1;
    }
    let ghost stage3 = out@;
    // Cathedral and castle landmarks: every chunk their footprint covers.
    let mut j: usize = 0;
    while j < city.landmarks.len()
        invariant
            j <= ls.len(),
            ls == city.landmarks@,
            city.fits(anchor),
            forall|ch: ChunkCoord|
                #[trigger] feature_in(out@, ch) == if landmark_mark(ls, anchor, j as int, ch) is Some {
                    landmark_mark(ls, anchor, j as int, ch)
                } else {
                    feature_in(stage3, ch)
                },
        decreases ls.len() - j,
    {
        let lm = &city.landmarks[j];
        match landmark_feature(lm.name.as_str()) {
            Some(f) => {
                proof {
                    assert(fp_fits(ls[j as int].footprint));
                }
                let cells = footprint_cells(&lm.footprint, anchor);
                mark_cells(&mut out, &cells, f);
                proof {
                    assert forall|ch: ChunkCoord|
                        cells_meet(cells@, cells@.len() as int, ch) == #[trigger] footprint_meets(
                            lm.footprint,
                            anchor,
                            ch,
                        ) by {
                        if cells_meet(cells@, cells@.len() as int, ch) {
                            let k = choose|k: int| 0 <= k < cells@.len() && cell_chunk(#[trigger] cells@[k]) == ch;
                            assert(in_footprint(lm.footprint, anchor, ipt(cells@[k])));
                        }
                        if footprint_meets(lm.footprint, anchor, ch) {
                            let c = choose|c: (i64, i64)|
                                in_footprint(lm.footprint, anchor, #[trigger] ipt(c)) && cell_chunk(c) == ch;
                            let k = choose|k: int| 0 <= k < cells@.len() && cells@[k] == c;
                            assert(cell_chunk(cells@[k]) == ch);
                        }
                    }
                }
            },
            None => {},
        }
        j = j + 1;
    }
    let ghost stage4 = out@;
    // Gates: the chunk of each gate cell.
    let mut g: usize = 0;
    while g < city.wall.gates.len()
        invariant
            g <= gates.len(),
            gates == city.wall.gates@,
            city.fits(anchor),
            forall|ch: ChunkCoord|
                #[trigger] feature_in(out@, ch) == if gates_meet(gates, anchor, g as int, ch) {
                    Some(CityChunkFeature::Gate)
                } else {
                    feature_in(stage4, ch)
                },
        decreases gates.len() - g,
    {
        let cell = city.wall.gates[g].cell;
        proof {
            assert(within(gates[g as int].cell, CITY_REACH as int));
        }
        let cc = chunk_for_cell((cell.0 + anchor.0, cell.1 + anchor.1));
        let ghost before = out@;
        out.insert(chunk_key_exec(cc), CityChunkFeature::Gate);
        proof {
            lemma_feature_insert(before, cc, CityChunkFeature::Gate);
            assert forall|ch: ChunkCoord|
                #[trigger] feature_in(out@, ch) == if gates_meet(gates, anchor, g + 1, ch) {
                    Some(CityChunkFeature::Gate)
                } else {
                    feature_in(stage4, ch)
                } by {
                if ch == cc {
                    assert(cell_chunk(world_cell(gates[g as int].cell, anchor)) == ch);
                } else {
                    if gates_meet(gates, anchor, g + 1, ch) {
                        let k = choose|k: int|
                            0 <= k < g + 1 && cell_chunk(world_cell(#[trigger] gates[k].cell, anchor)) == ch;
                        assert(gates_meet(gates, anchor, g as int, ch));
                    }
                    if gates_meet(gates, anchor, g as int, ch) {
                        let k = choose|k: int|
                            0 <= k < g && cell_chunk(world_cell(#[trigger] gates[k].cell, anchor)) == ch;
                        assert(gates_meet(gates, anchor, g + 1, ch));
                    }
                }
            }
        }
        g = g + 1;
    }
    out
}

// ---------------------------------------------------------------------
// Weighted tag lists
// ---------------------------------------------------------------------

/// The tags of `v` strictly increase, so each occurs once.
pub open spec fn tags_sorted(v: Seq<(String, u32)>) -> bool {
    forall|i: int, j: int| 0 <= i < j < v.len() ==> str_lt(#[trigger] v[i].0@, #[trigger] v[j].0@)
}

/// `v` has an entry for tag `t`.
pub open spec fn has_tag(v: Seq<(String, u32)>, t: Seq<char>) -> bool {
    exists|i: int| 0 <= i < v.len() && #[trigger] v[i].0@ == t
}

/// Weight entry `e` gives tag `t`.
pub open spec fn entry_wt(e: (String, u32), t: Seq<char>) -> int {
    if e.0@ == t {
        e.1 as int
    } else {
        0
    }
}

/// Total weight `v` gives tag `t`: the sum of its entries for `t`, 0 when
/// there are none.
pub open spec fn tag_wt(v: Seq<(String, u32)>, t: Seq<char>) -> int
    decreases v.len(),
{
    if v.len() == 0 {
        0
    } else {
        tag_wt(v.drop_last(), t) + entry_wt(v.last(), t)
    }
}

proof fn lemma_tag_wt_update(v: Seq<(String, u32)>, p: int, e: (String, u32), t: Seq<char>)
    requires
        0 <= p < v.len(),
    ensures
        tag_wt(v.update(p, e), t) == tag_wt(v, t) - entry_wt(v[p], t) + entry_wt(e, t),
    decreases v.len(),
{
    let u = v.update(p, e);
    if p < v.len() - 1 {
        assert(u.drop_last() =~= v.drop_last().update(p, e));
        lemma_tag_wt_update(v.drop_last(), p, e, t);
    } else {
        assert(u.drop_last() =~= v.drop_last());
    }
}

proof fn lemma_tag_wt_insert(v: Seq<(String, u32)>, p: int, e: (String, u32), t: Seq<char>)
    requires
        0 <= p <= v.len(),
    ensures
        tag_wt(v.insert(p, e), t) == tag_wt(v, t) + entry_wt(e, t),
    decreases v.len(),
{
    let u = v.insert(p, e);
    if p < v.len() {
        assert(u.drop_last() =~= v.drop_last().insert(p, e));
        assert(u.last() == v.last());
        lemma_tag_wt_insert(v.drop_last(), p, e, t);
    } else {
        assert(u.drop_last() =~= v);
    }
}

/// A tag that sorts after every entry has weight 0.
proof fn lemma_tag_wt_absent(v: Seq<(String, u32)>, t: Seq<char>)
    requires
        forall|i: int| 0 <= i < v.len() ==> str_lt(#[trigger] v[i].0@, t),
    ensures
        tag_wt(v, t) == 0,
    decreases v.len(),
{
    if v.len() > 0 {
        lemma_tag_wt_absent(v.drop_last(), t);
        assert(str_lt(v[v.len() - 1].0@, t));
        lemma_str_lt_irreflexive(t);
    }
}

/// In a sorted list, a tag with an entry weighs what that entry does.
proof fn lemma_tag_wt_sorted(v: Seq<(String, u32)>, k: int)
    requires
        tags_sorted(v),
        0 <= k < v.len(),
    ensures
        tag_wt(v, v[k].0@) == v[k].1,
    decreases v.len(),
{
    let t = v[k].0@;
    if k < v.len() - 1 {
        assert(tags_sorted(v.drop_last()));
        lemma_tag_wt_sorted(v.drop_last(), k);
        assert(str_lt(v[k].0@, v.last().0@));
        lemma_str_lt_irreflexive(t);
    } else {
        assert forall|i: int| 0 <= i < v.drop_last().len() implies str_lt(#[trigger] v.drop_last()[i].0@, t) by {
            assert(str_lt(v[i].0@, v[k].0@));
        }
        lemma_tag_wt_absent(v.drop_last(), t);
    }
}

/// Adds weight `w` to tag `tag`, giving it an entry, in order, if it had
/// none.
fn add_tag(v: &mut Vec<(String, u32)>, tag: &String, w: u32)
    requires
        tags_sorted(old(v)@),
        tag_wt(old(v)@, tag@) + w <= u32::MAX,
    ensures
        tags_sorted(final(v)@),
        forall|t: Seq<char>| #[trigger] has_tag(final(v)@, t) == (has_tag(old(v)@, t) || t == tag@),
        forall|t: Seq<char>|
            #[trigger] tag_wt(final(v)@, t) == tag_wt(old(v)@, t) + if t == tag@ {
                w as int
            } else {
                0
            },
{
    let ghost v0 = v@;
    let mut p: usize = 0;
    while p < v.len() && str_less(v[p].0.as_str(), tag.as_str())
        invariant
            v@ == v0,
            p <= v@.len(),
            forall|i: int| 0 <= i < p ==> str_lt(#[trigger] v@[i].0@, tag@),
        decreases v@.len() - p,
    {
        p += 1;
    }
    if p < v.len() && str_eq(v[p].0.as_str(), tag.as_str()) {
        proof {
            lemma_tag_wt_sorted(v0, p as int);
        }
        let name = v[p].0.clone();
        let sum = v[p].1 + w;
        v.set(p, (name, sum));
        proof {
            assert(v@ == v0.update(p as int, (name, sum)));
            assert forall|i: int, j: int| 0 <= i < j < v@.len() implies str_lt(
                #[trigger] v@[i].0@,
                #[trigger] v@[j].0@,
            ) by {
                assert(v@[i].0@ == v0[i].0@ && v@[j].0@ == v0[j].0@);
            }
            assert forall|t: Seq<char>| #[trigger] has_tag(v@, t) == (has_tag(v0, t) || t == tag@) by {
                if has_tag(v@, t) {
                    let i = choose|i: int| 0 <= i < v@.len() && #[trigger] v@[i].0@ == t;
                    assert(v0[i].0@ == t);
                }
                if has_tag(v0, t) {
                    let i = choose|i: int| 0 <= i < v0.len() && #[trigger] v0[i].0@ == t;
                    assert(v@[i].0@ == t);
                }
                if t == tag@ {
                    assert(v@[p as int].0@ == t);
                }
            }
            assert forall|t: Seq<char>|
                #[trigger] tag_wt(v@, t) == tag_wt(v0, t) + if t == tag@ {
                    w as int
                } else {
                    0
                } by {
                lemma_tag_wt_update(v0, p as int, (name, sum), t);
            }
        }
    } else {
        proof {
            if p < v0.len() {
                lemma_str_lt_total(v0[p as int].0@, tag@);
            }
            assert forall|j: int| p <= j < v0.len() implies str_lt(tag@, #[trigger] v0[j].0@) by {
                if j > p {
                    assert(str_lt(v0[p as int].0@, v0[j].0@));
                    lemma_str_lt_transitive(tag@, v0[p as int].0@, v0[j].0@);
                }
            }
        }
        let name = tag.clone();
        v.insert(p, (name, w));
        proof {
            assert(v@ == v0.insert(p as int, (name, w)));
            assert forall|i: int, j: int| 0 <= i < j < v@.len() implies str_lt(
                #[trigger] v@[i].0@,
                #[trigger] v@[j].0@,
            ) by {
                if j < p {
                    assert(v@[i] == v0[i] && v@[j] == v0[j]);
                } else if j == p {
                    assert(v@[i] == v0[i]);
                } else if i < p {
                    assert(v@[i] == v0[i] && v@[j] == v0[j - 1]);
                    assert(str_lt(v0[i].0@, tag@));
                    assert(str_lt(tag@, v0[j - 1].0@));
                    lemma_str_lt_transitive(v0[i].0@, tag@, v0[j - 1].0@);
                } else if i == p {
                    assert(v@[j] == v0[j - 1]);
                } else {
                    assert(v@[i] == v0[i - 1] && v@[j] == v0[j - 1]);
                }
            }
            assert forall|t: Seq<char>| #[trigger] has_tag(v@, t) == (has_tag(v0, t) || t == tag@) by {
                if has_tag(v@, t) {
                    let i = choose|i: int| 0 <= i < v@.len() && #[trigger] v@[i].0@ == t;
                    if i < p {
                        assert(v0[i].0@ == t);
                    } else if i > p {
                        assert(v0[i - 1].0@ == t);
                    }
                }
                if has_tag(v0, t) {
                    let i = choose|i: int| 0 <= i < v0.len() && #[trigger] v0[i].0@ == t;
                    if i < p {
                        assert(v@[i].0@ == t);
                    } else {
                        assert(v@[i + 1].0@ == t);
                    }
                }
                if t == tag@ {
                    assert(v@[p as int].0@ == t);
                }
            }
            assert forall|t: Seq<char>|
                #[trigger] tag_wt(v@, t) == tag_wt(v0, t) + if t == tag@ {
                    w as int
                } else {
                    0
                } by {
                lemma_tag_wt_insert(v0, p as int, (name, w), t);
            }
        }
    }
}

// ---------------------------------------------------------------------
// District tags of house slots
// ---------------------------------------------------------------------

/// Side of a house slot, in cells; slots tile the plane from the anchor.
pub const HOUSE_PITCH: i64 = 8;

/// Chebyshev reach, in cells, of a street's district tags around it:
/// about one and a half slots, so a tag reaches the slots fronting the
/// street and the row behind them.
pub const STREET_TAG_RADIUS: i64 = 12;

/// World-cell centre of house slot `s`.
pub open spec fn slot_centre(s: (i64, i64), anchor: (i64, i64)) -> (int, int) {
    (s.0 * 8 + anchor.0 + 4, s.1 * 8 + anchor.1 + 4)
}

/// The centre of slot `s` lies within `STREET_TAG_RADIUS` of cell `c` on
/// both axes.
pub open spec fn slot_near(s: (i64, i64), anchor: (i64, i64), c: (int, int)) -> bool {
    let m = slot_centre(s, anchor);
    -12 <= c.0 - m.0 <= 12 && -12 <= c.1 - m.1 <= 12
}

/// A cell that street `st` covers lies near slot `s`.
pub open spec fn street_reaches(st: Street, anchor: (i64, i64), s: (i64, i64)) -> bool {
    exists|c: (i64, i64)|
        street_covers(st, anchor, st.polyline@.len() - 1, #[trigger] ipt(c)) && slot_near(s, anchor, ipt(c))
}

/// `t` holds, as keys, exactly the slots `o` lists.
pub open spec fn keys_agree(t: Set<u128>, o: Seq<(i64, i64)>) -> bool {
    forall|s: (i64, i64)| #[trigger] t.contains(cell_key(s)) == listed(o, s)
}

/// No slot occurs twice in `o`.
pub open spec fn distinct(o: Seq<(i64, i64)>) -> bool {
    forall|i: int, j: int| 0 <= i < j < o.len() ==> #[trigger] o[i] != #[trigger] o[j]
}

proof fn lemma_pitch_range(lo: int, hi: int, s: int)
    requires
        lo <= s * 8 <= hi,
    ensures
        lo / 8 <= s <= hi / 8,
{
    lemma_fundamental_div_mod(lo, 8);
    lemma_fundamental_div_mod(hi, 8);
}

/// Adds to `order` (and, as keys, to `touched`) every slot near cell `c`
/// not there yet.
fn slots_near(touched: &mut HashSet<u128>, order: &mut Vec<(i64, i64)>, c: (i64, i64), anchor: (i64, i64))
    requires
        within(c, 0x9_0000_0000),
        within(anchor, CITY_REACH as int),
        keys_agree(old(touched)@, old(order)@),
        distinct(old(order)@),
    ensures
        keys_agree(final(touched)@, final(order)@),
        distinct(final(order)@),
        forall|s: (i64, i64)|
            #[trigger] listed(final(order)@, s) == (listed(old(order)@, s) || slot_near(s, anchor, ipt(c))),
{
    let ghost init = order@;
    let bx = c.0 - anchor.0 - 4;
    let by = c.1 - anchor.1 - 4;
    let sx_lo = floor_div_i64(bx - 12, 8);
    let sx_hi = floor_div_i64(bx + 12, 8) + 1;
    let sy_lo = floor_div_i64(by - 12, 8);
    let sy_hi = floor_div_i64(by + 12, 8) + 1;
    proof {
        assert forall|s: (i64, i64)| slot_near(s, anchor, ipt(c)) implies sx_lo <= s.0 <= sx_hi && sy_lo <= s.1
            <= sy_hi by {
            lemma_pitch_range(bx - 12, bx + 12, s.0 as int);
            lemma_pitch_range(by - 12, by + 12, s.1 as int);
        }
        lemma_fundamental_div_mod(bx - 12, 8);
        lemma_fundamental_div_mod(by - 12, 8);
        lemma_fundamental_div_mod(bx + 12, 8);
        lemma_fundamental_div_mod(by + 12, 8);
    }
    let mut sy = sy_lo;
    while sy <= sy_hi
        invariant
            within(c, 0x9_0000_0000),
            within(anchor, CITY_REACH as int),
            -0x2_0000_0000 <= sy_lo <= sy <= sy_hi + 1,
            sy_hi <= 0x2_0000_0000,
            -0x2_0000_0000 <= sx_lo <= sx_hi <= 0x2_0000_0000,
            forall|s: (i64, i64)| slot_near(s, anchor, ipt(c)) ==> sx_lo <= s.0 <= sx_hi && sy_lo <= s.1 <= sy_hi,
            keys_agree(touched@, order@),
            distinct(order@),
            forall|s: (i64, i64)|
                #[trigger] listed(order@, s) == (listed(init, s) || (slot_near(s, anchor, ipt(c)) && s.1 < sy)),
        decreases sy_hi + 1 - sy,
    {
        let mut sx = sx_lo;
        while sx <= sx_hi
            invariant
                within(c, 0x9_0000_0000),
                within(anchor, CITY_REACH as int),
                -0x2_0000_0000 <= sy_lo <= sy <= sy_hi <= 0x2_0000_0000,
                -0x2_0000_0000 <= sx_lo <= sx <= sx_hi + 1,
                sx_hi <= 0x2_0000_0000,
                forall|s: (i64, i64)|
                    slot_near(s, anchor, ipt(c)) ==> sx_lo <= s.0 <= sx_hi && sy_lo <= s.1 <= sy_hi,
                keys_agree(touched@, order@),
                distinct(order@),
                forall|s: (i64, i64)|
                    #[trigger] listed(order@, s) == (listed(init, s) || (slot_near(s, anchor, ipt(c)) && (s.1 < sy
                        || (s.1 == sy && s.0 < sx)))),
            decreases sx_hi + 1 - sx,
        {
            let mx = sx * 8 + anchor.0 + 4;
            let my = sy * 8 + anchor.1 + 4;
            let slot = (sx, sy);
            if c.0 - mx >= -12 && c.0 - mx <= 12 && c.1 - my >= -12 && c.1 - my <= 12 {
                let ghost t0 = touched@;
                let ghost o0 = order@;
                let fresh = touched.insert(cell_key_exec(slot));
                if fresh {
                    order.push(slot);
                }
                proof {
                    lemma_key_insert(t0, slot);
                    lemma_listed_push(o0, slot);
                    if fresh {
                        assert(!listed(o0, slot));
                        assert forall|i: int, j: int| 0 <= i < j < order@.len() implies #[trigger] order@[i]
                            != #[trigger] order@[j] by {
                            if j == o0.len() {
                                assert(order@[i] == o0[i]);
                                assert(listed(o0, o0[i]));
                            } else {
                                assert(order@[i] == o0[i] && order@[j] == o0[j]);
                            }
                        }
                    } else {
                        assert(listed(o0, slot));
                        assert(touched@ =~= t0);
                    }
                }
            }
            sx = sx + 1;
        }
        sy = sy + 1;
    }
}

/// The house slots street `st` reaches, each once.
fn street_slots(st: &Street, anchor: (i64, i64)) -> (r: Vec<(i64, i64)>)
    requires
        all_within(st.polyline@, CITY_REACH as int),
        within(anchor, CITY_REACH as int),
    ensures
        distinct(r@),
        forall|s: (i64, i64)| #[trigger] listed(r@, s) == street_reaches(*st, anchor, s),
{
    let mut cells: Vec<(i64, i64)> = Vec::new();
    list_street(&mut cells, st, anchor);
    let mut touched: HashSet<u128> = HashSet::new();
    let mut order: Vec<(i64, i64)> = Vec::new();
    let mut k: usize = 0;
    while k < cells.len()
        invariant
            k <= cells@.len(),
            within(anchor, CITY_REACH as int),
            all_within(cells@, 0x9_0000_0000),
            forall|c: (i64, i64)|
                #[trigger] listed(cells@, c) == (listed(Seq::<(i64, i64)>::empty(), c) || street_covers(
                    *st,
                    anchor,
                    st.polyline@.len() - 1,
                    ipt(c),
                )),
            keys_agree(touched@, order@),
            distinct(order@),
            forall|s: (i64, i64)|
                #[trigger] listed(order@, s) == exists|j: int| 0 <= j < k && slot_near(s, anchor, ipt(#[trigger] cells@[j])),
        decreases cells@.len() - k,
    {
        proof {
            assert(within(cells@[k as int], 0x9_0000_0000));
        }
        let ghost o0 = order@;
        slots_near(&mut touched, &mut order, cells[k], anchor);
        proof {
            assert forall|s: (i64, i64)|
                #[trigger] listed(order@, s) == exists|j: int| 0 <= j < k + 1 && slot_near(s, anchor, ipt(#[trigger] cells@[j])) by {
                if slot_near(s, anchor, ipt(cells@[k as int])) {
                    assert(exists|j: int| 0 <= j < k + 1 && slot_near(s, anchor, ipt(#[trigger] cells@[j])));
                }
                if exists|j: int| 0 <= j < k + 1 && slot_near(s, anchor, ipt(#[trigger] cells@[j])) {
                    let j = choose|j: int| 0 <= j < k + 1 && slot_near(s, anchor, ipt(#[trigger] cells@[j]));
                    if j < k {
                        assert(listed(o0, s));
                    }
                }
            }
        }
        k = k + 1;
    }
    proof {
        assert forall|s: (i64, i64)| #[trigger] listed(order@, s) == street_reaches(*st, anchor, s) by {
            if listed(order@, s) {
                let j = choose|j: int| 0 <= j < cells@.len() && slot_near(s, anchor, ipt(#[trigger] cells@[j]));
                assert(listed(cells@, cells@[j]));
                assert(street_covers(*st, anchor, st.polyline@.len() - 1, ipt(cells@[j])));
            }
            if street_reaches(*st, anchor, s) {
                let c = choose|c: (i64, i64)|
                    street_covers(*st, anchor, st.polyline@.len() - 1, #[trigger] ipt(c)) && slot_near(
                        s,
                        anchor,
                        ipt(c),
                    );
                assert(listed(cells@, c));
                let j = choose|j: int| 0 <= j < cells@.len() && #[trigger] cells@[j] == c;
                assert(slot_near(s, anchor, ipt(cells@[j])));
            }
        }
    }
    order
}

/// Street `st` gives its tags to slot `s`: it has tags and reaches it.
pub open spec fn contributes(st: Street, anchor: (i64, i64), s: (i64, i64)) -> bool {
    st.tag_weights@.len() > 0 && street_reaches(st, anchor, s)
}

/// One of the first `n` streets gives its tags to slot `s`.
pub open spec fn slot_touched(ss: Seq<Street>, anchor: (i64, i64), s: (i64, i64), n: int) -> bool {
    exists|k: int| 0 <= k < n && contributes(#[trigger] ss[k], anchor, s)
}

/// One of the first `n` streets that give their tags to slot `s` has an
/// entry for tag `t`.
pub open spec fn slot_has_tag(ss: Seq<Street>, anchor: (i64, i64), s: (i64, i64), t: Seq<char>, n: int) -> bool {
    exists|k: int| 0 <= k < n && contributes(#[trigger] ss[k], anchor, s) && has_tag(ss[k].tag_weights@, t)
}

/// Weight of tag `t` at slot `s`: the sum, over the first `n` streets that
/// give their tags to `s`, of their weights for `t`.
pub open spec fn slot_weight(ss: Seq<Street>, anchor: (i64, i64), s: (i64, i64), t: Seq<char>, n: int) -> int
    decreases n,
{
    if n <= 0 {
        0
    } else {
        slot_weight(ss, anchor, s, t, n - 1) + if contributes(ss[n - 1], anchor, s) {
            tag_wt(ss[n - 1].tag_weights@, t)
        } else {
            0
        }
    }
}

/// `v` is the tag list of slot `s` after the first `n` streets: sorted by
/// tag, with an entry for each tag they give it, weighing its total.
pub open spec fn slot_list_ok(v: Seq<(String, u32)>, ss: Seq<Street>, anchor: (i64, i64), s: (i64, i64), n: int) -> bool {
    &&& tags_sorted(v)
    &&& forall|t: Seq<char>| #[trigger] has_tag(v, t) == slot_has_tag(ss, anchor, s, t, n)
    &&& forall|t: Seq<char>| #[trigger] tag_wt(v, t) == slot_weight(ss, anchor, s, t, n)
}

/// `m`, keyed by `cell_key` of the slot, holds the tag list of every slot
/// the first `n` streets give tags to, and of no other.
pub open spec fn slot_map_ok(m: Map<u128, Vec<(String, u32)>>, ss: Seq<Street>, anchor: (i64, i64), n: int) -> bool {
    forall|s: (i64, i64)|
        #![trigger m.contains_key(cell_key(s))]
        (m.contains_key(cell_key(s)) == slot_touched(ss, anchor, s, n)) && (m.contains_key(cell_key(s))
            ==> slot_list_ok(m[cell_key(s)]@, ss, anchor, s, n))
}

proof fn lemma_tag_wt_nonneg(v: Seq<(String, u32)>, t: Seq<char>)
    ensures
        tag_wt(v, t) >= 0,
    decreases v.len(),
{
    if v.len() > 0 {
        lemma_tag_wt_nonneg(v.drop_last(), t);
    }
}

proof fn lemma_tag_wt_take(v: Seq<(String, u32)>, e: int, t: Seq<char>)
    requires
        0 <= e < v.len(),
    ensures
        tag_wt(v.take(e + 1), t) == tag_wt(v.take(e), t) + entry_wt(v[e], t),
        has_tag(v.take(e + 1), t) == (has_tag(v.take(e), t) || v[e].0@ == t),
{
    assert(v.take(e + 1).drop_last() =~= v.take(e));
    if has_tag(v.take(e + 1), t) {
        let i = choose|i: int| 0 <= i < v.take(e + 1).len() && #[trigger] v.take(e + 1)[i].0@ == t;
        if i < e {
            assert(v.take(e)[i].0@ == t);
        }
    }
    if has_tag(v.take(e), t) {
        let i = choose|i: int| 0 <= i < v.take(e).len() && #[trigger] v.take(e)[i].0@ == t;
        assert(v.take(e + 1)[i].0@ == t);
    }
    if v[e].0@ == t {
        assert(v.take(e + 1)[e].0@ == t);
    }
}

proof fn lemma_tag_wt_take_le(v: Seq<(String, u32)>, e: int, t: Seq<char>)
    requires
        0 <= e <= v.len(),
    ensures
        tag_wt(v.take(e), t) <= tag_wt(v, t),
    decreases v.len() - e,
{
    if e < v.len() {
        lemma_tag_wt_take(v, e, t);
        lemma_tag_wt_take_le(v, e + 1, t);
    } else {
        assert(v.take(e) =~= v);
    }
}

proof fn lemma_slot_weight_le(ss: Seq<Street>, anchor: (i64, i64), s: (i64, i64), t: Seq<char>, k: int, n: int)
    requires
        0 <= k <= n,
    ensures
        slot_weight(ss, anchor, s, t, k) <= slot_weight(ss, anchor, s, t, n),
    decreases n - k,
{
    if k < n {
        lemma_slot_weight_le(ss, anchor, s, t, k, n - 1);
        lemma_tag_wt_nonneg(ss[n - 1].tag_weights@, t);
    }
}

proof fn lemma_slot_untouched(ss: Seq<Street>, anchor: (i64, i64), s: (i64, i64), k: int)
    requires
        !slot_touched(ss, anchor, s, k),
    ensures
        forall|t: Seq<char>| !slot_has_tag(ss, anchor, s, t, k) && #[trigger] slot_weight(ss, anchor, s, t, k) == 0,
    decreases k,
{
    if k > 0 {
        assert(!slot_touched(ss, anchor, s, k - 1)) by {
            if slot_touched(ss, anchor, s, k - 1) {
                let j = choose|j: int| 0 <= j < k - 1 && contributes(#[trigger] ss[j], anchor, s);
                assert(slot_touched(ss, anchor, s, k));
            }
        }
        lemma_slot_untouched(ss, anchor, s, k - 1);
        assert(!contributes(ss[k - 1], anchor, s)) by {
            if contributes(ss[k - 1], anchor, s) {
                assert(slot_touched(ss, anchor, s, k));
            }
        }
        assert forall|t: Seq<char>| #[trigger] slot_weight(ss, anchor, s, t, k) == 0 by {
            assert(slot_weight(ss, anchor, s, t, k - 1) == 0);
        }
    }
    assert forall|t: Seq<char>| !slot_has_tag(ss, anchor, s, t, k) by {
        if slot_has_tag(ss, anchor, s, t, k) {
            let j = choose|j: int|
                0 <= j < k && contributes(#[trigger] ss[j], anchor, s) && has_tag(ss[j].tag_weights@, t);
            assert(slot_touched(ss, anchor, s, k));
        }
    }
}

proof fn lemma_slot_step(ss: Seq<Street>, anchor: (i64, i64), s: (i64, i64), k: int)
    requires
        0 <= k,
    ensures
        slot_touched(ss, anchor, s, k + 1) == (slot_touched(ss, anchor, s, k) || contributes(ss[k], anchor, s)),
        forall|t: Seq<char>|
            #[trigger] slot_has_tag(ss, anchor, s, t, k + 1) == (slot_has_tag(ss, anchor, s, t, k) || (contributes(
                ss[k],
                anchor,
                s,
            ) && has_tag(ss[k].tag_weights@, t))),
{
    if slot_touched(ss, anchor, s, k + 1) && !contributes(ss[k], anchor, s) {
        let j = choose|j: int| 0 <= j < k + 1 && contributes(#[trigger] ss[j], anchor, s);
        assert(slot_touched(ss, anchor, s, k));
    }
    if slot_touched(ss, anchor, s, k) {
        let j = choose|j: int| 0 <= j < k && contributes(#[trigger] ss[j], anchor, s);
        assert(slot_touched(ss, anchor, s, k + 1));
    }
    if contributes(ss[k], anchor, s) {
        assert(slot_touched(ss, anchor, s, k + 1));
    }
    assert forall|t: Seq<char>|
        #[trigger] slot_has_tag(ss, anchor, s, t, k + 1) == (slot_has_tag(ss, anchor, s, t, k) || (contributes(
            ss[k],
            anchor,
            s,
        ) && has_tag(ss[k].tag_weights@, t))) by {
        if slot_has_tag(ss, anchor, s, t, k + 1) {
            let j = choose|j: int|
                0 <= j < k + 1 && contributes(#[trigger] ss[j], anchor, s) && has_tag(ss[j].tag_weights@, t);
            if j < k {
                assert(slot_has_tag(ss, anchor, s, t, k));
            }
        }
        if slot_has_tag(ss, anchor, s, t, k) {
            let j = choose|j: int|
                0 <= j < k && contributes(#[trigger] ss[j], anchor, s) && has_tag(ss[j].tag_weights@, t);
            assert(slot_has_tag(ss, anchor, s, t, k + 1));
        }
        if contributes(ss[k], anchor, s) && has_tag(ss[k].tag_weights@, t) {
            assert(slot_has_tag(ss, anchor, s, t, k + 1));
        }
    }
}

/// Adds every entry of `tw` to `v`.
fn add_tags(v: &mut Vec<(String, u32)>, tw: &Vec<(String, u32)>, Ghost(cap): Ghost<spec_fn(Seq<char>) -> int>)
    requires
        tags_sorted(old(v)@),
        forall|t: Seq<char>| tag_wt(old(v)@, t) + tag_wt(tw@, t) <= #[trigger] cap(t),
        forall|t: Seq<char>| #[trigger] cap(t) <= u32::MAX,
    ensures
        tags_sorted(final(v)@),
        forall|t: Seq<char>| #[trigger] has_tag(final(v)@, t) == (has_tag(old(v)@, t) || has_tag(tw@, t)),
        forall|t: Seq<char>| #[trigger] tag_wt(final(v)@, t) == tag_wt(old(v)@, t) + tag_wt(tw@, t),
{
    let ghost v0 = v@;
    let mut e: usize = 0;
    while e < tw.len()
        invariant
            e <= tw@.len(),
            tags_sorted(v@),
            forall|t: Seq<char>| tag_wt(v0, t) + tag_wt(tw@, t) <= #[trigger] cap(t),
            forall|t: Seq<char>| #[trigger] cap(t) <= u32::MAX,
            forall|t: Seq<char>| #[trigger] has_tag(v@, t) == (has_tag(v0, t) || has_tag(tw@.take(e as int), t)),
            forall|t: Seq<char>| #[trigger] tag_wt(v@, t) == tag_wt(v0, t) + tag_wt(tw@.take(e as int), t),
        decreases tw@.len() - e,
    {
        let ghost tag = tw@[e as int].0@;
        proof {
            lemma_tag_wt_take(tw@, e as int, tag);
            lemma_tag_wt_take_le(tw@, e + 1, tag);
            assert(cap(tag) <= u32::MAX);
        }
        add_tag(v, &tw[e].0, tw[e].1);
        proof {
            assert forall|t: Seq<char>|
                #[trigger] has_tag(v@, t) == (has_tag(v0, t) || has_tag(tw@.take(e + 1), t)) by {
                lemma_tag_wt_take(tw@, e as int, t);
            }
            assert forall|t: Seq<char>| #[trigger] tag_wt(v@, t) == tag_wt(v0, t) + tag_wt(tw@.take(e + 1), t) by {
                lemma_tag_wt_take(tw@, e as int, t);
            }
        }
        e = e + 1;
    }
    proof {
        assert(tw@.take(tw@.len() as int) =~= tw@);
    }
}

/// District tags of every house slot a tagged street reaches, keyed by
/// `cell_key` of the slot. A street reaches a slot when a cell it covers,
/// width included, lies within `STREET_TAG_RADIUS` of the slot's centre on
/// both axes; it then adds each of its `(tag, weight)` entries to the
/// slot once. Each list is sorted by tag.
pub fn compute_slot_tags(city: &City, anchor: (i64, i64)) -> (r: HashMap<u128, Vec<(String, u32)>>)
    requires
        city.fits(anchor),
        forall|s: (i64, i64), t: Seq<char>|
            #[trigger] slot_weight(city.streets@, anchor, s, t, city.streets@.len() as int) <= u32::MAX,
    ensures
        slot_map_ok(r@, city.streets@, anchor, city.streets@.len() as int),
{
    let ghost ss = city.streets@;
    let ghost n = ss.len() as int;
    let mut acc: HashMap<u128, Vec<(String, u32)>> = HashMap::new();
    let mut k: usize = 0;
    while k < city.streets.len()
        invariant
            k <= n,
            n == ss.len(),
            ss == city.streets@,
            city.fits(anchor),
            forall|s: (i64, i64), t: Seq<char>| #[trigger] slot_weight(ss, anchor, s, t, n) <= u32::MAX,
            slot_map_ok(acc@, ss, anchor, k as int),
        decreases n - k,
    {
        let st = &city.streets[k];
        let ghost acc0 = acc@;
        if st.tag_weights.len() > 0 {
            proof {
                assert(all_within(ss[k as int].polyline@, CITY_REACH as int));
            }
            let slots = street_slots(st, anchor);
            let mut q: usize = 0;
            while q < slots.len()
                invariant
                    q <= slots@.len(),
                    k < n,
                    n == ss.len(),
                    ss == city.streets@,
                    *st == ss[k as int],
                    st.tag_weights@.len() > 0,
                    forall|s: (i64, i64), t: Seq<char>| #[trigger] slot_weight(ss, anchor, s, t, n) <= u32::MAX,
                    slot_map_ok(acc0, ss, anchor, k as int),
                    distinct(slots@),
                    forall|s: (i64, i64)| #[trigger] listed(slots@, s) == street_reaches(*st, anchor, s),
                    forall|s: (i64, i64)|
                        #![trigger acc@.contains_key(cell_key(s))]
                        {
                            let done = listed(slots@.take(q as int), s);
                            &&& acc@.contains_key(cell_key(s)) == (slot_touched(ss, anchor, s, k as int) || done)
                            &&& acc@.contains_key(cell_key(s)) ==> slot_list_ok(
                                acc@[cell_key(s)]@,
                                ss,
                                anchor,
                                s,
                                if done {
                                    k + 1
                                } else {
                                    k as int
                                },
                            )
                        },
                decreases slots@.len() - q,
            {
                let slot = slots[q];
                let key = cell_key_exec(slot);
                let ghost before = acc@;
                proof {
                    assert(listed(slots@, slot));
                    assert(contributes(ss[k as int], anchor, slot));
                    assert(!listed(slots@.take(q as int), slot)) by {
                        if listed(slots@.take(q as int), slot) {
                            let i = choose|i: int|
                                0 <= i < slots@.take(q as int).len() && #[trigger] slots@.take(q as int)[i] == slot;
                            assert(slots@[i] == slots@[q as int]);
                        }
                    }
                    lemma_slot_step(ss, anchor, slot, k as int);
                    assert(before.contains_key(cell_key(slot)) == slot_touched(ss, anchor, slot, k as int));
                }
                let mut v = match acc.remove(&key) {
                    Some(v) => v,
                    None => Vec::new(),
                };
                proof {
                    if !before.contains_key(key) {
                        lemma_slot_untouched(ss, anchor, slot, k as int);
                        assert forall|t: Seq<char>| #[trigger] has_tag(v@, t) == slot_has_tag(ss, anchor, slot, t, k as int) by {}
                        assert forall|t: Seq<char>| #[trigger] tag_wt(v@, t) == slot_weight(ss, anchor, slot, t, k as int) by {
                            assert(slot_weight(ss, anchor, slot, t, k as int) == 0);
                        }
                    }
                    assert(slot_list_ok(v@, ss, anchor, slot, k as int));
                    assert forall|t: Seq<char>|
                        tag_wt(v@, t) + tag_wt(st.tag_weights@, t) <= #[trigger] slot_weight(ss, anchor, slot, t, n) by {
                        lemma_slot_weight_le(ss, anchor, slot, t, k + 1, n);
                    }
                }
                add_tags(&mut v, &st.tag_weights, Ghost(|t: Seq<char>| slot_weight(ss, anchor, slot, t, n)));
                proof {
                    assert(slot_list_ok(v@, ss, anchor, slot, k + 1));
                }
                let ghost mid = acc@;
                acc.insert(key, v);
                proof {
                    lemma_listed_push(slots@.take(q as int), slot);
                    assert(slots@.take(q + 1) =~= slots@.take(q as int).push(slot));
                    assert forall|s: (i64, i64)|
                        #![trigger acc@.contains_key(cell_key(s))]
                        {
                            let done = listed(slots@.take(q + 1), s);
                            &&& acc@.contains_key(cell_key(s)) == (slot_touched(ss, anchor, s, k as int) || done)
                            &&& acc@.contains_key(cell_key(s)) ==> slot_list_ok(
                                acc@[cell_key(s)]@,
                                ss,
                                anchor,
                                s,
                                if done {
                                    k + 1
                                } else {
                                    k as int
                                },
                            )
                        } by {
                        if s != slot {
                            if cell_key(s) == cell_key(slot) {
                                lemma_cell_key_injective(s, slot);
                            }
                            assert(before.contains_key(cell_key(s)) == acc@.contains_key(cell_key(s)));
                        }
                    }
                }
                q = q + 1;
            }
            proof {
                assert(slots@.take(slots@.len() as int) =~= slots@);
                assert forall|s: (i64, i64)| #![trigger acc@.contains_key(cell_key(s))]
                    (acc@.contains_key(cell_key(s)) == slot_touched(ss, anchor, s, k + 1)) && (acc@.contains_key(
                        cell_key(s),
                    ) ==> slot_list_ok(acc@[cell_key(s)]@, ss, anchor, s, k + 1)) by {
                    lemma_slot_step(ss, anchor, s, k as int);
                    if !listed(slots@, s) {
                        assert(!contributes(ss[k as int], anchor, s));
                        if acc@.contains_key(cell_key(s)) {
                            let v = acc@[cell_key(s)]@;
                            assert(slot_list_ok(v, ss, anchor, s, k as int));
                            assert forall|t: Seq<char>| #[trigger] tag_wt(v, t) == slot_weight(ss, anchor, s, t, k + 1) by {}
                        }
                    }
                }
            }
        } else {
            proof {
                assert forall|s: (i64, i64)| #![trigger acc@.contains_key(cell_key(s))]
                    (acc@.contains_key(cell_key(s)) == slot_touched(ss, anchor, s, k + 1)) && (acc@.contains_key(
                        cell_key(s),
                    ) ==> slot_list_ok(acc@[cell_key(s)]@, ss, anchor, s, k + 1)) by {
                    lemma_slot_step(ss, anchor, s, k as int);
                    assert(!contributes(ss[k as int], anchor, s));
                    if acc@.contains_key(cell_key(s)) {
                        let v = acc@[cell_key(s)]@;
                        assert(slot_list_ok(v, ss, anchor, s, k as int));
                        assert forall|t: Seq<char>| #[trigger] tag_wt(v, t) == slot_weight(ss, anchor, s, t, k + 1) by {}
                    }
                }
            }
        }
        k = k + 1;
    }
    acc
}

// ---------------------------------------------------------------------
// A loaded city
// ---------------------------------------------------------------------

/// A city placed at its world anchor, with what is derived from it once:
/// its bounding boxes, its wall in world cells, the cells of its streets
/// and the overmap tags of the chunks it touches.
pub struct LoadedCity {
    pub city: City,
    pub anchor: (i64, i64),
    /// Inclusive world-cell box `(min_x, min_y, max_x, max_y)` of every
    /// authored point.
    pub bbox: (i64, i64, i64, i64),
    /// The wall polygon in world cells.
    pub wall_world_polygon: Vec<(i64, i64)>,
    /// Inclusive world-cell box of the wall polygon alone.
    pub wall_bbox: (i64, i64, i64, i64),
    /// `cell_key` of every world cell a street covers, width included.
    pub street_cells: HashSet<u128>,
    /// District tags of every house slot a tagged street reaches, keyed by
    /// `cell_key` of the slot (anchor-relative slot coordinates).
    pub slot_tags: HashMap<u128, Vec<(String, u32)>>,
    /// Overmap tag of every chunk the city reaches, keyed by `chunk_key`.
    pub chunk_features: HashMap<u64, CityChunkFeature>,
}

/// Inclusive world-cell rectangle of chunk `c`.
pub open spec fn chunk_rect(c: ChunkCoord) -> (i64, i64, i64, i64) {
    (
        (c.cx * 40) as i64,
        (c.cy * 30) as i64,
        (c.cx * 40 + 39) as i64,
        (c.cy * 30 + 29) as i64,
    )
}

impl LoadedCity {
    /// The derived fields are those of `city` at `anchor`.
    pub open spec fn wf(&self) -> bool {
        &&& self.city.fits(self.anchor)
        &&& ibox(self.bbox) == bbox_of(no_bbox(), city_points(&self.city), ipt(self.anchor))
        &&& self.wall_world_polygon@ == shift_all(self.city.wall.polygon@, self.anchor)
        &&& ibox(self.wall_bbox) == bbox_of(no_bbox(), self.wall_world_polygon@, (0, 0))
        &&& forall|c: (i64, i64)|
            #[trigger] self.street_cells@.contains(cell_key(c)) == on_streets(
                self.city.streets@,
                self.anchor,
                self.city.streets@.len() as int,
                ipt(c),
            )
        &&& slot_map_ok(self.slot_tags@, self.city.streets@, self.anchor, self.city.streets@.len() as int)
        &&& forall|ch: ChunkCoord|
            #[trigger] feature_in(self.chunk_features@, ch) == chunk_tag(
                &self.city,
                self.anchor,
                self.wall_world_polygon@,
                self.wall_bbox,
                ch,
            )
    }

    /// Overmap tag of chunk `ch` for this city.
    pub open spec fn feature_of(&self, ch: ChunkCoord) -> Option<CityChunkFeature> {
        chunk_tag(&self.city, self.anchor, self.wall_world_polygon@, self.wall_bbox, ch)
    }

    /// Places `city` at world cell `anchor` and derives what the chunk
    /// code and the overmap need from it.
    pub fn new(city: City, anchor: (i64, i64)) -> (r: Self)
        requires
            city.fits(anchor),
            forall|s: (i64, i64), t: Seq<char>|
                #[trigger] slot_weight(city.streets@, anchor, s, t, city.streets@.len() as int) <= u32::MAX,
        ensures
            r.wf(),
            r.city == city,
            r.anchor == anchor,
            ibox(r.bbox) == bbox_of(no_bbox(), city_points(&city), ipt(anchor)),
            r.wall_world_polygon@ == shift_all(city.wall.polygon@, anchor),
            ibox(r.wall_bbox) == bbox_of(no_bbox(), r.wall_world_polygon@, (0, 0)),
            forall|c: (i64, i64)|
                #[trigger] r.street_cells@.contains(cell_key(c)) == on_streets(
                    city.streets@,
                    anchor,
                    city.streets@.len() as int,
                    ipt(c),
                ),
            slot_map_ok(r.slot_tags@, city.streets@, anchor, city.streets@.len() as int),
    {
        let bbox = compute_city_bbox(&city, anchor);
        proof {
            lemma_reach_fits(city.wall.polygon@, anchor);
        }
        let wall_world_polygon = offset_points(city.wall.polygon.as_slice(), anchor);
        let wall_bbox = compute_bbox(wall_world_polygon.as_slice());
        let street_cells = compute_street_cells(&city, anchor);
        let slot_tags = compute_slot_tags(&city, anchor);
        let chunk_features = classify_chunks(&city, anchor, wall_world_polygon.as_slice(), wall_bbox);
        LoadedCity { city, anchor, bbox, wall_world_polygon, wall_bbox, street_cells, slot_tags, chunk_features }
    }

    /// Overmap tag of chunk `coord`, if the city reaches it.
    pub fn chunk_feature(&self, coord: ChunkCoord) -> (r: Option<CityChunkFeature>)
        requires
            self.wf(),
        ensures
            r == self.feature_of(coord),
    {
        let key = chunk_key_exec(coord);
        proof {
            assert(feature_in(self.chunk_features@, coord) == self.feature_of(coord));
        }
        match self.chunk_features.get(&key) {
            Some(f) => Some(*f),
            None => None,
        }
    }

    /// The city's bounding box meets the cells of chunk `coord`.
    pub fn intersects_chunk(&self, coord: ChunkCoord) -> (r: bool)
        ensures
            r == rects_meet(self.bbox, chunk_rect(coord)),
    {
        let min_x = coord.cx as i64 * 40;
        let min_y = coord.cy as i64 * 30;
        let max_x = min_x + 40 - 1;
        let max_y = min_y + 30 - 1;
        rect_intersects(self.bbox, (min_x, min_y, max_x, max_y))
    }
}

// ---------------------------------------------------------------------
// Tagged chunks lie over the city
// ---------------------------------------------------------------------

proof fn lemma_street_point(ss: Seq<Street>, n: int, s: int, v: int) -> (idx: int)
    requires
        0 <= s < n,
        0 <= v < ss[s].polyline@.len(),
    ensures
        0 <= idx < street_points(ss, n).len(),
        street_points(ss, n)[idx] == ss[s].polyline@[v],
    decreases n,
{
    if s == n - 1 {
        street_points(ss, n - 1).len() + v
    } else {
        lemma_street_point(ss, n - 1, s, v)
    }
}

proof fn lemma_landmark_point(ls: Seq<Landmark>, n: int, j: int, v: int) -> (idx: int)
    requires
        0 <= j < n,
        0 <= v < footprint_points(ls[j].footprint).len(),
    ensures
        0 <= idx < landmark_points(ls, n).len(),
        landmark_points(ls, n)[idx] == footprint_points(ls[j].footprint)[v],
    decreases n,
{
    if j == n - 1 {
        landmark_points(ls, n - 1).len() + v
    } else {
        lemma_landmark_point(ls, n - 1, j, v)
    }
}

/// Point `idx` of `city_points`, moved by the anchor, lies in the box.
proof fn lemma_city_point_in_box(lc: &LoadedCity, idx: int)
    requires
        lc.wf(),
        0 <= idx < city_points(&lc.city).len(),
    ensures
        in_box(ibox(lc.bbox), shifted(city_points(&lc.city)[idx], ipt(lc.anchor))),
{
    law_bbox_covers(no_bbox(), city_points(&lc.city), ipt(lc.anchor));
    assert(city_points(&lc.city)[idx] == city_points(&lc.city)[idx]);
}

proof fn lemma_wall_point_in_box(lc: &LoadedCity, i: int)
    requires
        lc.wf(),
        0 <= i < lc.city.wall.polygon@.len(),
    ensures
        in_box(ibox(lc.bbox), shifted(lc.city.wall.polygon@[i], ipt(lc.anchor))),
        within(lc.city.wall.polygon@[i], CITY_REACH as int),
{
    lemma_city_point_in_box(lc, i);
    assert(city_points(&lc.city)[i] == lc.city.wall.polygon@[i]);
}

proof fn lemma_street_point_in_box(lc: &LoadedCity, s: int, v: int)
    requires
        lc.wf(),
        0 <= s < lc.city.streets@.len(),
        0 <= v < lc.city.streets@[s].polyline@.len(),
    ensures
        in_box(ibox(lc.bbox), shifted(lc.city.streets@[s].polyline@[v], ipt(lc.anchor))),
        within(lc.city.streets@[s].polyline@[v], CITY_REACH as int),
{
    let ss = lc.city.streets@;
    let k = lemma_street_point(ss, ss.len() as int, s, v);
    let w = lc.city.wall.polygon@;
    lemma_city_point_in_box(lc, w.len() + k);
    assert(city_points(&lc.city)[w.len() + k] == street_points(ss, ss.len() as int)[k]);
    assert(all_within(ss[s].polyline@, CITY_REACH as int));
}

proof fn lemma_landmark_point_in_box(lc: &LoadedCity, j: int, v: int)
    requires
        lc.wf(),
        0 <= j < lc.city.landmarks@.len(),
        0 <= v < footprint_points(lc.city.landmarks@[j].footprint).len(),
    ensures
        in_box(ibox(lc.bbox), shifted(footprint_points(lc.city.landmarks@[j].footprint)[v], ipt(lc.anchor))),
{
    let ls = lc.city.landmarks@;
    let ss = lc.city.streets@;
    let k = lemma_landmark_point(ls, ls.len() as int, j, v);
    let w = lc.city.wall.polygon@;
    let sp = street_points(ss, ss.len() as int);
    lemma_city_point_in_box(lc, w.len() + sp.len() + k);
    assert(city_points(&lc.city)[w.len() + sp.len() + k] == landmark_points(ls, ls.len() as int)[k]);
}

/// The box of points that all lie in box `bx` lies in `bx`.
proof fn lemma_bbox_inside(pts: Seq<(i64, i64)>, bx: (int, int, int, int))
    requires
        pts.len() > 0,
        forall|k: int| 0 <= k < pts.len() ==> in_box(bx, ipt(#[trigger] pts[k])),
    ensures
        in_box(bx, (bbox_of(no_bbox(), pts, (0, 0)).0, bbox_of(no_bbox(), pts, (0, 0)).1)),
        in_box(bx, (bbox_of(no_bbox(), pts, (0, 0)).2, bbox_of(no_bbox(), pts, (0, 0)).3)),
    decreases pts.len(),
{
    assert(in_box(bx, ipt(pts[pts.len() - 1])));
    if pts.len() > 1 {
        lemma_bbox_inside(pts.drop_last(), bx);
    } else {
        assert(bbox_of(no_bbox(), pts.drop_last(), (0, 0)) == no_bbox());
    }
}

/// A chunk holding a cell of the box overlaps the box.
proof fn lemma_cell_chunk_meets(bbox: (i64, i64, i64, i64), c: (i64, i64))
    requires
        in_box(ibox(bbox), ipt(c)),
        within(c, 0x8_0000_0000),
    ensures
        rects_meet(bbox, chunk_rect(cell_chunk(c))),
{
    lemma_fundamental_div_mod(c.0 as int, 40);
    lemma_fundamental_div_mod(c.1 as int, 30);
}

/// Tag of chunk `ch` from the first `n` landmarks comes from one whose
/// footprint reaches `ch`.
proof fn lemma_landmark_mark_source(ls: Seq<Landmark>, anchor: (i64, i64), n: int, ch: ChunkCoord) -> (j: int)
    requires
        landmark_mark(ls, anchor, n, ch) is Some,
    ensures
        0 <= j < n,
        footprint_meets(ls[j].footprint, anchor, ch),
    decreases n,
{
    if landmark_tag(ls[n - 1].name@) is Some && footprint_meets(ls[n - 1].footprint, anchor, ch) {
        n - 1
    } else {
        lemma_landmark_mark_source(ls, anchor, n - 1, ch)
    }
}

/// A cell of a landmark footprint lies in the city's box.
proof fn lemma_footprint_cell_in_box(lc: &LoadedCity, j: int, c: (i64, i64))
    requires
        lc.wf(),
        0 <= j < lc.city.landmarks@.len(),
        in_footprint(lc.city.landmarks@[j].footprint, lc.anchor, ipt(c)),
    ensures
        in_box(ibox(lc.bbox), ipt(c)),
        within(c, 0x8_0000_0000),
{
    let fp = lc.city.landmarks@[j].footprint;
    let a = ipt(lc.anchor);
    assert(fp_fits(fp));
    match fp {
        Footprint::Rect(p, q) => {
            lemma_landmark_point_in_box(lc, j, 0);
            lemma_landmark_point_in_box(lc, j, 1);
            assert(footprint_points(fp)[0] == p && footprint_points(fp)[1] == q);
            assert(within(p, CITY_REACH as int) && within(q, CITY_REACH as int));
            assert(within(lc.anchor, CITY_REACH as int));
        },
        Footprint::Polygon(v) => {
            let wp = shift_all(v@, lc.anchor);
            assert forall|k: int| 0 <= k < wp.len() implies in_box(ibox(lc.bbox), ipt(#[trigger] wp[k])) by {
                lemma_landmark_point_in_box(lc, j, k);
                assert(footprint_points(fp)[k] == v@[k]);
                assert(within(v@[k], CITY_REACH as int));
            }
            lemma_bbox_inside(wp, ibox(lc.bbox));
            assert(within(v@[0], CITY_REACH as int));
            assert(in_box(ibox(lc.bbox), ipt(wp[0])));
            assert forall|k: int| 0 <= k < wp.len() implies within(#[trigger] wp[k], 0x4_0000_0000) by {
                assert(within(v@[k], CITY_REACH as int));
            }
            lemma_bbox_within(no_bbox(), wp, 0x4_0000_0000);
        },
    }
}

/// A cell of the line between two points of the box lies in the box.
proof fn lemma_line_cell_in_box(bbox: (i64, i64, i64, i64), a: (int, int), b: (int, int), m: int)
    requires
        in_box(ibox(bbox), a),
        in_box(ibox(bbox), b),
        -0x4_0000_0000 <= a.0 <= 0x4_0000_0000,
        -0x4_0000_0000 <= a.1 <= 0x4_0000_0000,
        -0x4_0000_0000 <= b.0 <= 0x4_0000_0000,
        -0x4_0000_0000 <= b.1 <= 0x4_0000_0000,
        0 <= m < line_of(a, b).len(),
    ensures
        in_box(ibox(bbox), ipt(line_of(a, b)[m])),
        within(line_of(a, b)[m], 0x8_0000_0000),
{
    lemma_line_of(a, b);
    assert(in_span(a, b, ipt(line_of(a, b)[m])));
}

/// Every chunk a loaded city tags overlaps the city's bounding box, so
/// chunks away from the city carry no tag. Gates are not part of the
/// box, so this holds when every gate lies inside it.
pub proof fn law_tagged_chunks_meet_bbox(lc: &LoadedCity, ch: ChunkCoord)
    requires
        lc.wf(),
        forall|g: int|
            0 <= g < lc.city.wall.gates@.len() ==> in_box(
                ibox(lc.bbox),
                ipt(world_cell(#[trigger] lc.city.wall.gates@[g].cell, lc.anchor)),
            ),
        lc.feature_of(ch) is Some,
    ensures
        rects_meet(lc.bbox, chunk_rect(ch)),
{
    let city = &lc.city;
    let anchor = lc.anchor;
    let a = ipt(anchor);
    let gates = city.wall.gates@;
    let poly = city.wall.polygon@;
    let ss = city.streets@;
    let ls = city.landmarks@;
    let n = poly.len() as int;
    assert(within(anchor, CITY_REACH as int));
    if gates_meet(gates, anchor, gates.len() as int, ch) {
        let g = choose|g: int| 0 <= g < gates.len() && cell_chunk(world_cell(#[trigger] gates[g].cell, anchor)) == ch;
        assert(within(gates[g].cell, CITY_REACH as int));
        let c = world_cell(gates[g].cell, anchor);
        lemma_cell_chunk_meets(lc.bbox, c);
    } else if landmark_mark(ls, anchor, ls.len() as int, ch) is Some {
        let j = lemma_landmark_mark_source(ls, anchor, ls.len() as int, ch);
        let c = choose|c: (i64, i64)| in_footprint(ls[j].footprint, anchor, #[trigger] ipt(c)) && cell_chunk(c) == ch;
        lemma_footprint_cell_in_box(lc, j, c);
        lemma_cell_chunk_meets(lc.bbox, c);
    } else if wall_meets(poly, anchor, n, ch) {
        let i = choose|i: int|
            #![trigger wall_line(poly, i, anchor)]
            0 <= i < n && cells_meet(wall_line(poly, i, anchor), wall_line(poly, i, anchor).len() as int, ch);
        let line = wall_line(poly, i, anchor);
        let m = choose|m: int| 0 <= m < line.len() && cell_chunk(#[trigger] line[m]) == ch;
        let i2 = (i + 1) % n;
        lemma_wall_point_in_box(lc, i);
        lemma_wall_point_in_box(lc, i2);
        lemma_line_cell_in_box(lc.bbox, shifted(poly[i], a), shifted(poly[i2], a), m);
        lemma_cell_chunk_meets(lc.bbox, line[m]);
    } else if streets_meet(ss, anchor, ss.len() as int, ch) {
        let s = choose|s: int| 0 <= s < ss.len() && street_meets(#[trigger] ss[s], anchor, ss[s].polyline@.len() - 1, ch);
        let pl = ss[s].polyline@;
        let w = choose|w: int|
            #![trigger seg_line(pl, w, anchor)]
            0 <= w < pl.len() - 1 && cells_meet(seg_line(pl, w, anchor), seg_line(pl, w, anchor).len() as int, ch);
        let line = seg_line(pl, w, anchor);
        let m = choose|m: int| 0 <= m < line.len() && cell_chunk(#[trigger] line[m]) == ch;
        lemma_street_point_in_box(lc, s, w);
        lemma_street_point_in_box(lc, s, w + 1);
        lemma_line_cell_in_box(lc.bbox, shifted(pl[w], a), shifted(pl[w + 1], a), m);
        lemma_cell_chunk_meets(lc.bbox, line[m]);
    } else {
        let wall = lc.wall_world_polygon@;
        let wb = lc.wall_bbox;
        assert(building_chunk(wall, wb, ch));
        assert(wall.len() >= 3);
        assert forall|k: int| 0 <= k < wall.len() implies in_box(ibox(lc.bbox), ipt(#[trigger] wall[k])) by {
            lemma_wall_point_in_box(lc, k);
        }
        lemma_bbox_inside(wall, ibox(lc.bbox));
        lemma_wall_point_in_box(lc, 0);
        assert(in_box(ibox(lc.bbox), ipt(wall[0])));
        lemma_fundamental_div_mod(wb.0 as int, 40);
        lemma_fundamental_div_mod(wb.1 as int, 30);
        lemma_fundamental_div_mod(wb.2 as int, 40);
        lemma_fundamental_div_mod(wb.3 as int, 30);
    }
}

} // verus!
