//! Fast travel across the overmap: the chunk-level route planned when the
//! player picks a destination, and the time estimate shown while it runs.
//!
//! The route is found by a weighted A* over the 8-connected chunk grid:
//! sea chunks are walls, every other chunk costs its biome's per-cell
//! crossing time times a fixed number of cells per hop, roads cut that
//! cost to 40%, and diagonal hops cost 1.41 times as much.

use std::collections::{HashMap, VecDeque};

use vstd::multiset::Multiset;
use vstd::prelude::*;

use crate::cornwall::{
    biome_cell_cost, cc_int, chunk_center, chunk_center_spec, chunk_for_cell,
    on_road_trail, overmap_biome, overmap_info_at, Biome,
};
use crate::frontier::{entry_le, Entry, Frontier};
use crate::geometry::ipt;
use crate::world::{
    chunk_key, chunk_key_exec, lemma_chunk_key_injective, ChunkCoord, MOVES_PER_SECOND, MOVE_COST_TILE,
};

verus! {

broadcast use vstd::std_specs::hash::group_hash_axioms;

/// Cells crossed per chunk hop in the cost formula (a diagonal-ish path
/// across a 40 x 30 chunk).
pub const CELLS_PER_CHUNK_HOP: u32 = 36;

/// Entering a road chunk costs `ROAD_COST_MULT_NUM / ROAD_COST_MULT_DEN`
/// of the plain cost.
pub const ROAD_COST_MULT_NUM: u32 = 40;

pub const ROAD_COST_MULT_DEN: u32 = 100;

/// Game-seconds the player's clock advances per fast-travel cell step:
/// one tile move at baseline speed.
pub const CELL_STEP_CLOCK_SECS: u32 = MOVE_COST_TILE / MOVES_PER_SECOND;

/// Chunks the route search may expand before it gives up.
pub const MAX_CHUNK_NODES: u32 = 8_000_000;

/// Heuristic cost per chunk of Chebyshev distance. Above the cheapest
/// real hop, so the search is weighted: it expands far fewer chunks and
/// may return a route a few chunks longer than the cheapest.
pub const HEURISTIC_PER_CHUNK: u32 = 100;

/// A fast trip in progress.
#[derive(Debug)]
pub struct FastTravelQueue {
    /// Chunks not yet entered, next one first.
    pub chunk_path: VecDeque<ChunkCoord>,
    /// Cells of the current leg, walked one per step.
    pub leg_cells: VecDeque<(i64, i64)>,
    pub destination: ChunkCoord,
    pub destination_cell: (i64, i64),
}

/// Estimated seconds left: `CELLS_PER_CHUNK_HOP` cells per chunk still
/// to enter plus the cells of the current leg, each costing
/// `CELL_STEP_CLOCK_SECS`.
pub open spec fn remaining_secs(chunks: int, leg_cells: int) -> int {
    (chunks * CELLS_PER_CHUNK_HOP + leg_cells) * CELL_STEP_CLOCK_SECS
}

impl FastTravelQueue {
    /// Approximate remaining game-seconds, for the travel banner.
    pub fn remaining_est_secs(&self) -> (r: u32)
        requires
            remaining_secs(self.chunk_path@.len() as int, self.leg_cells@.len() as int) <= u32::MAX,
        ensures
            r == remaining_secs(self.chunk_path@.len() as int, self.leg_cells@.len() as int),
    {
        let chunks = self.chunk_path.len();
        let cells = self.leg_cells.len();
        assert(CELL_STEP_CLOCK_SECS == 1);
        let total = chunks as u32 * CELLS_PER_CHUNK_HOP + cells as u32;
        total * CELL_STEP_CLOCK_SECS
    }
}

// ---------------------------------------------------------------------
// Heuristics and cell helpers
// ---------------------------------------------------------------------

/// `|x - y|`, truncated to 32 bits.
pub open spec fn abs_diff_u32(x: int, y: int) -> u32 {
    (if x >= y {
        x - y
    } else {
        y - x
    }) as u32
}

/// Octile distance between two cells, matching step costs of 10 straight
/// and 14 diagonal.
pub open spec fn octile(dx: u32, dy: u32) -> int {
    let lo = if dx < dy {
        dx
    } else {
        dy
    };
    let hi = if dx < dy {
        dy
    } else {
        dx
    };
    14 * lo + 10 * (hi - lo)
}

/// Octile-distance heuristic of the cell-level path search.
pub fn heuristic_cell(a: (i64, i64), b: (i64, i64)) -> (r: u32)
    requires
        i64::MIN <= a.0 - b.0 <= i64::MAX,
        i64::MIN <= a.1 - b.1 <= i64::MAX,
        octile(abs_diff_u32(a.0 as int, b.0 as int), abs_diff_u32(a.1 as int, b.1 as int)) <= u32::MAX,
    ensures
        r == octile(abs_diff_u32(a.0 as int, b.0 as int), abs_diff_u32(a.1 as int, b.1 as int)),
{
    let dx64: u64 = if a.0 >= b.0 {
        (a.0 as i128 - b.0 as i128) as u64
    } else {
        (b.0 as i128 - a.0 as i128) as u64
    };
    let dy64: u64 = if a.1 >= b.1 {
        (a.1 as i128 - b.1 as i128) as u64
    } else {
        (b.1 as i128 - a.1 as i128) as u64
    };
    let dx = dx64 as u32;
    let dy = dy64 as u32;
    let (lo, hi) = if dx < dy {
        (dx, dy)
    } else {
        (dy, dx)
    };
    14 * lo + 10 * (hi - lo)
}

/// Weighted chunk-distance heuristic: `HEURISTIC_PER_CHUNK` per chunk of
/// Chebyshev distance, saturating.
pub open spec fn chunk_heuristic(a: ChunkCoord, b: ChunkCoord) -> u32 {
    let dx = if a.cx >= b.cx {
        a.cx - b.cx
    } else {
        b.cx - a.cx
    };
    let dy = if a.cy >= b.cy {
        a.cy - b.cy
    } else {
        b.cy - a.cy
    };
    let cheb = if dx >= dy {
        dx
    } else {
        dy
    };
    if cheb * HEURISTIC_PER_CHUNK > u32::MAX {
        u32::MAX
    } else {
        (cheb * HEURISTIC_PER_CHUNK) as u32
    }
}

pub fn heuristic_chunks(a: ChunkCoord, b: ChunkCoord) -> (r: u32)
    ensures
        r == chunk_heuristic(a, b),
{
    let dx = if a.cx >= b.cx {
        a.cx as i64 - b.cx as i64
    } else {
        b.cx as i64 - a.cx as i64
    };
    let dy = if a.cy >= b.cy {
        a.cy as i64 - b.cy as i64
    } else {
        b.cy as i64 - a.cy as i64
    };
    let cheb = if dx >= dy {
        dx
    } else {
        dy
    };
    if cheb > (u32::MAX / HEURISTIC_PER_CHUNK) as i64 {
        u32::MAX
    } else {
        (cheb as u32) * HEURISTIC_PER_CHUNK
    }
}

/// Center cell of a chunk: the target of a leg toward that chunk.
pub fn chunk_center_cell(cc: ChunkCoord) -> (r: (i64, i64))
    ensures
        ipt(r) == chunk_center_spec(cc_int(cc)),
{
    chunk_center(cc)
}

/// Chunk holding a cell.
pub fn chunk_coord_for_cell(cell: (i64, i64)) -> (r: ChunkCoord)
    ensures
        r == crate::cornwall::cell_chunk(cell),
{
    chunk_for_cell(cell)
}

// ---------------------------------------------------------------------
// Chunk routes
// ---------------------------------------------------------------------

/// A chunk the route may enter: anything but sea.
pub open spec fn passable(c: ChunkCoord) -> bool {
    overmap_biome(cc_int(c)) != Biome::Sea
}

/// `b` is one of the eight neighbours of `a`.
pub open spec fn chunk_adjacent(a: ChunkCoord, b: ChunkCoord) -> bool {
    &&& -1 <= b.cx - a.cx <= 1
    &&& -1 <= b.cy - a.cy <= 1
    &&& !(a.cx == b.cx && a.cy == b.cy)
}

/// `path` walks from `from` to `to` by single chunk hops and enters no
/// sea chunk.
pub open spec fn is_route(from: ChunkCoord, to: ChunkCoord, path: Seq<ChunkCoord>) -> bool {
    &&& path.len() >= 1
    &&& path[0] == from
    &&& path[path.len() - 1] == to
    &&& forall|i: int| 0 <= i < path.len() - 1 ==> chunk_adjacent(#[trigger] path[i], path[i + 1])
    &&& forall|i: int| 1 <= i < path.len() ==> passable(#[trigger] path[i])
}

/// Cost of entering chunk `n` from an 8-neighbour: the biome's per-cell
/// time over `CELLS_PER_CHUNK_HOP` cells, cut to 40% on a road, then
/// times 1.41 on a diagonal (each step rounded down).
pub open spec fn hop_cost(biome: Biome, has_road: bool, diagonal: bool) -> int {
    let base: int = biome_cell_cost(biome) * CELLS_PER_CHUNK_HOP;
    let roaded: int = if has_road {
        (base * ROAD_COST_MULT_NUM) / (ROAD_COST_MULT_DEN as int)
    } else {
        base
    };
    if diagonal {
        (roaded * 141) / 100
    } else {
        roaded
    }
}

fn hop_cost_exec(biome: Biome, has_road: bool, diagonal: bool) -> (r: u32)
    requires
        biome != Biome::Sea,
    ensures
        r == hop_cost(biome, has_road, diagonal),
        r > 0,
{
    let mut step = biome.cell_travel_cost_secs() * CELLS_PER_CHUNK_HOP;
    if has_road {
        step = step * ROAD_COST_MULT_NUM / ROAD_COST_MULT_DEN;
    }
    if diagonal {
        step = step * 141 / 100;
    }
    step
}

fn saturating_add_u32(a: u32, b: u32) -> (r: u32)
    ensures
        r == if a + b > u32::MAX {
            u32::MAX as int
        } else {
            a + b
        },
{
    if a > u32::MAX - b {
        u32::MAX
    } else {
        a + b
    }
}

/// The search's parent links are consistent: every reached chunk but the
/// start has a parent; a parent is a reached 8-neighbour with a strictly
/// smaller cost; every reached chunk but the start is passable.
#[verifier::opaque]
spec fn parents_ok(from: ChunkCoord, g: Map<u64, u32>, came: Map<u64, ChunkCoord>) -> bool {
    &&& g.contains_key(chunk_key(from))
    &&& g[chunk_key(from)] == 0
    &&& !came.contains_key(chunk_key(from))
    &&& forall|c: ChunkCoord| #[trigger]
        came.contains_key(chunk_key(c)) ==> {
            let p = came[chunk_key(c)];
            &&& g.contains_key(chunk_key(c))
            &&& g.contains_key(chunk_key(p))
            &&& chunk_adjacent(p, c)
            &&& passable(c)
            &&& g[chunk_key(c)] > g[chunk_key(p)]
        }
    &&& forall|c: ChunkCoord| #[trigger] g.contains_key(chunk_key(c)) && c != from ==> came.contains_key(chunk_key(c))
}

/// Every open entry names a reached chunk.
#[verifier::opaque]
spec fn open_ok(g: Map<u64, u32>, open: Seq<Entry>) -> bool {
    forall|e: Entry| #[trigger] open.contains(e) ==> g.contains_key(chunk_key(ChunkCoord { cx: e.1, cy: e.2 }))
}

proof fn lemma_parent_facts(from: ChunkCoord, g: Map<u64, u32>, came: Map<u64, ChunkCoord>, c: ChunkCoord)
    requires
        parents_ok(from, g, came),
        g.contains_key(chunk_key(c)),
    ensures
        g.contains_key(chunk_key(from)),
        g[chunk_key(from)] == 0,
        c == from <==> !came.contains_key(chunk_key(c)),
        came.contains_key(chunk_key(c)) ==> {
            let p = came[chunk_key(c)];
            &&& g.contains_key(chunk_key(p))
            &&& chunk_adjacent(p, c)
            &&& passable(c)
            &&& g[chunk_key(c)] > g[chunk_key(p)]
        },
{
    reveal(parents_ok);
}

proof fn lemma_open_entry_reached(g: Map<u64, u32>, open: Seq<Entry>, e: Entry)
    requires
        open_ok(g, open),
        open.contains(e),
    ensures
        g.contains_key(chunk_key(ChunkCoord { cx: e.1, cy: e.2 })),
{
    reveal(open_ok);
}

/// Walk the parent links back from `to` and return the route from `from`.
fn reconstruct_chunks(
    from: ChunkCoord,
    g: &HashMap<u64, u32>,
    came: &HashMap<u64, ChunkCoord>,
    to: ChunkCoord,
) -> (r: Vec<ChunkCoord>)
    requires
        parents_ok(from, g@, came@),
        g@.contains_key(chunk_key(to)),
    ensures
        is_route(from, to, r@),
        forall|i: int| 1 <= i < r@.len() ==> #[trigger] r@[i] != from,
{
    let mut rev: Vec<ChunkCoord> = Vec::new();
    rev.push(to);
    let mut cur = to;
    loop
        invariant
            parents_ok(from, g@, came@),
            g@.contains_key(chunk_key(cur)),
            rev@.len() >= 1,
            rev@[0] == to,
            rev@[rev@.len() - 1] == cur,
            forall|i: int|
                0 <= i < rev@.len() - 1 ==> {
                    &&& g@.contains_key(chunk_key(#[trigger] rev@[i]))
                    &&& came@.contains_key(chunk_key(rev@[i]))
                    &&& chunk_adjacent(rev@[i + 1], rev@[i])
                    &&& passable(rev@[i])
                },
        ensures
            rev@.len() >= 1,
            rev@[0] == to,
            rev@[rev@.len() - 1] == from,
            forall|i: int|
                0 <= i < rev@.len() - 1 ==> {
                    &&& g@.contains_key(chunk_key(#[trigger] rev@[i]))
                    &&& came@.contains_key(chunk_key(rev@[i]))
                    &&& chunk_adjacent(rev@[i + 1], rev@[i])
                    &&& passable(rev@[i])
                },
        decreases g@[chunk_key(cur)],
    {
        let key = chunk_key_exec(cur);
        proof {
            lemma_parent_facts(from, g@, came@, cur);
        }
        match came.get(&key) {
            Some(prev) => {
                let p = *prev;
                let ghost before = rev@;
                rev.push(p);
                proof {
                    assert forall|i: int| 0 <= i < rev@.len() - 1 implies {
                        &&& g@.contains_key(chunk_key(#[trigger] rev@[i]))
                        &&& came@.contains_key(chunk_key(rev@[i]))
                        &&& chunk_adjacent(rev@[i + 1], rev@[i])
                        &&& passable(rev@[i])
                    } by {
                        if i < before.len() - 1 {
                            assert(rev@[i] == before[i] && rev@[i + 1] == before[i + 1]);
                        } else {
                            assert(rev@[i] == cur && rev@[i + 1] == p);
                        }
                    }
                }
                cur = p;
            },
            None => {
                break;
            },
        }
    }
    let n = rev.len();
    let mut path: Vec<ChunkCoord> = Vec::new();
    let mut k: usize = n;
    while k > 0
        invariant
            n == rev@.len(),
            n >= 1,
            k <= n,
            path@.len() == n - k,
            rev@[0] == to,
            rev@[n - 1] == from,
            forall|i: int| 0 <= i < n - k ==> #[trigger] path@[i] == rev@[n - 1 - i],
            forall|i: int|
                0 <= i < rev@.len() - 1 ==> {
                    &&& g@.contains_key(chunk_key(#[trigger] rev@[i]))
                    &&& came@.contains_key(chunk_key(rev@[i]))
                    &&& chunk_adjacent(rev@[i + 1], rev@[i])
                    &&& passable(rev@[i])
                },
        decreases k,
    {
        k = k - 1;
        path.push(rev[k]);
    }
    proof {
        assert forall|i: int| 0 <= i < path@.len() - 1 implies chunk_adjacent(#[trigger] path@[i], path@[i + 1]) by {
            let j = n - 2 - i;
            assert(path@[i + 1] == rev@[j]);
            assert(path@[i] == rev@[j + 1]);
            assert(g@.contains_key(chunk_key(rev@[j])));
        }
        assert forall|i: int| 1 <= i < path@.len() implies passable(#[trigger] path@[i]) by {
            let j = n - 1 - i;
            assert(path@[i] == rev@[j]);
            assert(g@.contains_key(chunk_key(rev@[j])));
        }
        assert forall|i: int| 1 <= i < path@.len() implies #[trigger] path@[i] != from by {
            let j = n - 1 - i;
            assert(path@[i] == rev@[j]);
            assert(came@.contains_key(chunk_key(rev@[j])));
            reveal(parents_ok);
        }
    }
    path
}

/// Neighbour offsets, row by row.
pub const CHUNK_NEIGHBORS_8: [(i32, i32); 8] = [
    (-1, -1),
    (0, -1),
    (1, -1),
    (-1, 0),
    (1, 0),
    (-1, 1),
    (0, 1),
    (1, 1),
];

/// The chunk at neighbour offset `m` of `c`, and whether its coordinates
/// fit in 32 bits.
pub open spec fn neighbor_at(c: ChunkCoord, m: int) -> ChunkCoord {
    ChunkCoord {
        cx: (c.cx + CHUNK_NEIGHBORS_8[m].0) as i32,
        cy: (c.cy + CHUNK_NEIGHBORS_8[m].1) as i32,
    }
}

pub open spec fn neighbor_in_range(c: ChunkCoord, m: int) -> bool {
    &&& i32::MIN <= c.cx + CHUNK_NEIGHBORS_8[m].0 <= i32::MAX
    &&& i32::MIN <= c.cy + CHUNK_NEIGHBORS_8[m].1 <= i32::MAX
}

/// Some open-list entry stands for chunk `c`.
pub open spec fn queued(c: ChunkCoord, open: Seq<Entry>) -> bool {
    exists|e: Entry| #[trigger] open.contains(e) && e.1 == c.cx && e.2 == c.cy
}

/// Every passable neighbour of `c` has been reached.
pub open spec fn closed_at(c: ChunkCoord, g: Map<u64, u32>) -> bool {
    forall|n: ChunkCoord| chunk_adjacent(c, n) && passable(n) ==> #[trigger] g.contains_key(chunk_key(n))
}

/// Every reached chunk, `skip` aside, is queued or closed, unless a
/// neighbour was dropped because its cost hit the 32-bit cap; a reached
/// destination is queued.
#[verifier::opaque]
spec fn settled_except(skip: Option<ChunkCoord>, to: ChunkCoord, g: Map<u64, u32>, open: Seq<Entry>, capped: bool) -> bool {
    &&& forall|c: ChunkCoord| #[trigger]
        g.contains_key(chunk_key(c)) && skip != Some(c) ==> queued(c, open) || closed_at(c, g) || capped
    &&& g.contains_key(chunk_key(to)) ==> queued(to, open)
}

/// After popping `e` (not the destination), every reached chunk but the
/// popped one is still queued or closed, and every open entry is reached.
proof fn lemma_after_pop(
    to: ChunkCoord,
    g: Map<u64, u32>,
    o0: Seq<Entry>,
    o1: Seq<Entry>,
    e: Entry,
    capped: bool,
)
    requires
        settled_except(None, to, g, o0, capped),
        open_ok(g, o0),
        forall|x: Entry| o1.contains(x) ==> o0.contains(x),
        forall|x: Entry| o0.contains(x) ==> o1.contains(x) || x == e,
        !(e.1 == to.cx && e.2 == to.cy),
    ensures
        settled_except(Some(ChunkCoord { cx: e.1, cy: e.2 }), to, g, o1, capped),
        open_ok(g, o1),
{
    reveal(settled_except);
    reveal(open_ok);
    let cur = ChunkCoord { cx: e.1, cy: e.2 };
    assert forall|c: ChunkCoord| #[trigger]
        g.contains_key(chunk_key(c)) && Some(cur) != Some(c) implies queued(c, o1) || closed_at(c, g) || capped by {
        if queued(c, o0) && !closed_at(c, g) && !capped {
            let x = choose|x: Entry| #[trigger] o0.contains(x) && x.1 == c.cx && x.2 == c.cy;
            assert(x != e);
            assert(o1.contains(x));
        }
    }
    if g.contains_key(chunk_key(to)) {
        let x = choose|x: Entry| #[trigger] o0.contains(x) && x.1 == to.cx && x.2 == to.cy;
        assert(x != e);
        assert(o1.contains(x));
    }
}

/// Recording a cheaper cost for neighbour `n` of `current`, with `current`
/// as its parent and a new open entry for it, keeps the search state
/// consistent.
proof fn lemma_relax(
    from: ChunkCoord,
    to: ChunkCoord,
    current: ChunkCoord,
    n: ChunkCoord,
    tentative: u32,
    entry: Entry,
    capped: bool,
    g0: Map<u64, u32>,
    c0: Map<u64, ChunkCoord>,
    o0: Seq<Entry>,
    o1: Seq<Entry>,
)
    requires
        parents_ok(from, g0, c0),
        open_ok(g0, o0),
        settled_except(Some(current), to, g0, o0, capped),
        g0.contains_key(chunk_key(current)),
        tentative > g0[chunk_key(current)],
        chunk_adjacent(current, n),
        passable(n),
        g0.contains_key(chunk_key(n)) ==> tentative < g0[chunk_key(n)],
        entry.1 == n.cx && entry.2 == n.cy,
        forall|x: Entry| o1.contains(x) <==> (o0.contains(x) || x == entry),
    ensures
        parents_ok(from, g0.insert(chunk_key(n), tentative), c0.insert(chunk_key(n), current)),
        open_ok(g0.insert(chunk_key(n), tentative), o1),
        settled_except(Some(current), to, g0.insert(chunk_key(n), tentative), o1, capped),
{
    reveal(parents_ok);
    reveal(open_ok);
    reveal(settled_except);
    let g1 = g0.insert(chunk_key(n), tentative);
    let c1 = c0.insert(chunk_key(n), current);
    assert(n != from) by {
        if n == from {
            assert(g0[chunk_key(from)] == 0);
        }
    }
    assert(chunk_key(from) != chunk_key(n)) by {
        if chunk_key(from) == chunk_key(n) {
            lemma_chunk_key_injective(from, n);
        }
    }
    assert(chunk_key(current) != chunk_key(n)) by {
        if chunk_key(current) == chunk_key(n) {
            lemma_chunk_key_injective(current, n);
        }
    }
    assert forall|c: ChunkCoord| #[trigger] c1.contains_key(chunk_key(c)) implies {
        let p = c1[chunk_key(c)];
        &&& g1.contains_key(chunk_key(c))
        &&& g1.contains_key(chunk_key(p))
        &&& chunk_adjacent(p, c)
        &&& passable(c)
        &&& g1[chunk_key(c)] > g1[chunk_key(p)]
    } by {
        if c != n {
            assert(chunk_key(c) != chunk_key(n)) by {
                if chunk_key(c) == chunk_key(n) {
                    lemma_chunk_key_injective(c, n);
                }
            }
            let p = c0[chunk_key(c)];
            if chunk_key(p) == chunk_key(n) {
                lemma_chunk_key_injective(p, n);
                assert(g0.contains_key(chunk_key(n)));
            }
        }
    }
    assert forall|c: ChunkCoord| #[trigger] g1.contains_key(chunk_key(c)) && c != from implies c1.contains_key(
        chunk_key(c),
    ) by {
        if chunk_key(c) != chunk_key(n) {
            assert(g0.contains_key(chunk_key(c)));
        }
    }
    assert forall|x: Entry| #[trigger] o1.contains(x) implies g1.contains_key(
        chunk_key(ChunkCoord { cx: x.1, cy: x.2 }),
    ) by {
        if o0.contains(x) {
            assert(g0.contains_key(chunk_key(ChunkCoord { cx: x.1, cy: x.2 })));
        } else {
            assert(ChunkCoord { cx: x.1, cy: x.2 } == n);
        }
    }
    assert(o1.contains(entry));
    assert forall|c: ChunkCoord| #[trigger]
        g1.contains_key(chunk_key(c)) && Some(current) != Some(c) implies queued(c, o1) || closed_at(c, g1) || capped by {
        if c == n {
            assert(o1.contains(entry));
        } else {
            if chunk_key(c) == chunk_key(n) {
                lemma_chunk_key_injective(c, n);
            }
            assert(g0.contains_key(chunk_key(c)));
            if queued(c, o0) {
                let x = choose|x: Entry| #[trigger] o0.contains(x) && x.1 == c.cx && x.2 == c.cy;
                assert(o1.contains(x));
            } else if closed_at(c, g0) {
                assert forall|m: ChunkCoord| chunk_adjacent(c, m) && passable(m) implies #[trigger] g1.contains_key(
                    chunk_key(m),
                ) by {
                    assert(g0.contains_key(chunk_key(m)));
                }
            }
        }
    }
    if g1.contains_key(chunk_key(to)) {
        if to == n {
            assert(o1.contains(entry));
        } else {
            if chunk_key(to) == chunk_key(n) {
                lemma_chunk_key_injective(to, n);
            }
            let x = choose|x: Entry| #[trigger] o0.contains(x) && x.1 == to.cx && x.2 == to.cy;
            assert(o1.contains(x));
        }
    }
}

/// Once every neighbour of `current` has been handled, all reached chunks
/// are settled again.
proof fn lemma_close_current(
    to: ChunkCoord,
    current: ChunkCoord,
    g: Map<u64, u32>,
    open: Seq<Entry>,
    capped: bool,
)
    requires
        settled_except(Some(current), to, g, open, capped),
        forall|m: int|
            0 <= m < 8 && neighbor_in_range(current, m) && passable(#[trigger] neighbor_at(current, m))
                ==> g.contains_key(chunk_key(neighbor_at(current, m))) || capped,
    ensures
        settled_except(None, to, g, open, capped),
{
    reveal(settled_except);
    if !capped {
        assert forall|n: ChunkCoord| chunk_adjacent(current, n) && passable(n) implies #[trigger] g.contains_key(
            chunk_key(n),
        ) by {
            let dx = n.cx - current.cx;
            let dy = n.cy - current.cy;
            let m: int = if dy == -1 {
                dx + 1
            } else if dy == 0 {
                if dx == -1 {
                    3
                } else {
                    4
                }
            } else {
                dx + 6
            };
            assert(CHUNK_NEIGHBORS_8[m].0 == dx && CHUNK_NEIGHBORS_8[m].1 == dy);
            assert(neighbor_in_range(current, m));
            assert(neighbor_at(current, m) == n);
        }
        assert(closed_at(current, g));
    }
    assert forall|c: ChunkCoord| #[trigger] g.contains_key(chunk_key(c)) && None::<ChunkCoord> != Some(c) implies queued(
        c,
        open,
    ) || closed_at(c, g) || capped by {
        if c != current {
            assert(Some(current) != Some(c));
        }
    }
}

proof fn lemma_route_stays_reached(
    from: ChunkCoord,
    to: ChunkCoord,
    g: Map<u64, u32>,
    path: Seq<ChunkCoord>,
    i: int,
)
    requires
        g.contains_key(chunk_key(from)),
        forall|c: ChunkCoord| #[trigger] g.contains_key(chunk_key(c)) ==> closed_at(c, g),
        is_route(from, to, path),
        0 <= i < path.len(),
    ensures
        g.contains_key(chunk_key(path[i])),
    decreases i,
{
    if i > 0 {
        lemma_route_stays_reached(from, to, g, path, i - 1);
        assert(chunk_adjacent(path[i - 1], path[i]));
        assert(passable(path[i]));
        assert(closed_at(path[i - 1], g));
    }
}

/// When the open list runs dry with every reached chunk settled and no
/// neighbour dropped, the reached chunks form a region that holds `from`,
/// not `to`, and all passable neighbours of its chunks: no route joins
/// them.
proof fn lemma_exhausted_means_unreachable(
    from: ChunkCoord,
    to: ChunkCoord,
    g: Map<u64, u32>,
    came: Map<u64, ChunkCoord>,
    open: Seq<Entry>,
)
    requires
        parents_ok(from, g, came),
        settled_except(None, to, g, open, false),
        open.len() == 0,
    ensures
        forall|path: Seq<ChunkCoord>| !is_route(from, to, path),
{
    reveal(settled_except);
    reveal(parents_ok);
    assert forall|c: ChunkCoord| #[trigger] g.contains_key(chunk_key(c)) implies closed_at(c, g) by {
        if queued(c, open) {
            let x = choose|x: Entry| #[trigger] open.contains(x) && x.1 == c.cx && x.2 == c.cy;
        }
    }
    if g.contains_key(chunk_key(to)) {
        let x = choose|x: Entry| #[trigger] open.contains(x) && x.1 == to.cx && x.2 == to.cy;
    }
    assert forall|path: Seq<ChunkCoord>| !is_route(from, to, path) by {
        if is_route(from, to, path) {
            lemma_route_stays_reached(from, to, g, path, path.len() - 1);
        }
    }
}

/// How a chunk search ends.
#[derive(Clone, Copy, Debug, PartialEq, Eq, Structural)]
pub enum SearchEnd {
    Found,
    Unreachable,
    Budget,
}

/// The state of the chunk search between two expansions: the open
/// entries, each as often as it was queued; the best known cost of each
/// reached chunk, by chunk key; whether a neighbour was dropped because
/// its cost hit the 32-bit cap; and how many entries were expanded.
pub struct SearchState {
    pub open: Multiset<Entry>,
    pub g: Map<u64, u32>,
    pub capped: bool,
    pub popped: nat,
}

/// The least open entry in the order (priority, column, row).
pub open spec fn least_entry(m: Multiset<Entry>) -> Entry {
    choose|e: Entry| m.count(e) > 0 && forall|x: Entry| m.count(x) > 0 ==> entry_le(e, x)
}

/// The best known cost of `c`, or `u32::MAX` before it is reached.
pub open spec fn cost_of(g: Map<u64, u32>, c: ChunkCoord) -> u32 {
    if g.contains_key(chunk_key(c)) {
        g[chunk_key(c)]
    } else {
        u32::MAX
    }
}

/// `x` stopped at `u32::MAX`.
pub open spec fn sat32(x: int) -> u32 {
    if x > u32::MAX {
        u32::MAX
    } else {
        x as u32
    }
}

/// Relaxing neighbour `k` of `cur`, whose cost is `cur_g`: a land
/// neighbour on the 32-bit grid that gets cheaper takes the new cost and
/// is queued at that cost plus the heuristic; one left at the cap marks
/// the search capped.
pub open spec fn relax_one(st: SearchState, cur: ChunkCoord, cur_g: u32, to: ChunkCoord, k: int) -> SearchState {
    if !neighbor_in_range(cur, k) {
        st
    } else {
        let n = neighbor_at(cur, k);
        let b = overmap_biome(cc_int(n));
        if b == Biome::Sea {
            st
        } else {
            let diag = CHUNK_NEIGHBORS_8[k].0 != 0 && CHUNK_NEIGHBORS_8[k].1 != 0;
            let t = sat32(cur_g + hop_cost(b, on_road_trail(cc_int(n)), diag));
            let ex = cost_of(st.g, n);
            if t < ex {
                SearchState {
                    open: st.open.insert((sat32(t + chunk_heuristic(n, to)), n.cx, n.cy)),
                    g: st.g.insert(chunk_key(n), t),
                    ..st
                }
            } else if ex == u32::MAX {
                SearchState { capped: true, ..st }
            } else {
                st
            }
        }
    }
}

/// Relaxing neighbours `k..8` of `cur` in turn.
pub open spec fn relax_from(st: SearchState, cur: ChunkCoord, cur_g: u32, to: ChunkCoord, k: int) -> SearchState
    decreases 8 - k,
{
    if k >= 8 {
        st
    } else {
        relax_from(relax_one(st, cur, cur_g, to, k), cur, cur_g, to, k + 1)
    }
}

/// How the search goes on from `st`. With nothing open it ends, capped
/// or unreachable. Otherwise it expands the least entry: the destination
/// ends it found; past `MAX_CHUNK_NODES` expansions it ends out of
/// budget; else the entry's chunk has its neighbours relaxed and the
/// search goes on.
pub open spec fn search_end(to: ChunkCoord, st: SearchState) -> SearchEnd
    decreases MAX_CHUNK_NODES - st.popped,
{
    if st.open.len() == 0 {
        if st.capped {
            SearchEnd::Budget
        } else {
            SearchEnd::Unreachable
        }
    } else {
        let e = least_entry(st.open);
        if e.1 == to.cx && e.2 == to.cy {
            SearchEnd::Found
        } else if st.popped + 1 > MAX_CHUNK_NODES {
            SearchEnd::Budget
        } else {
            let cur = ChunkCoord { cx: e.1, cy: e.2 };
            let next = relax_from(
                SearchState { open: st.open.remove(e), popped: st.popped + 1, ..st },
                cur,
                cost_of(st.g, cur),
                to,
                0,
            );
            search_end(to, SearchState { popped: st.popped + 1, ..next })
        }
    }
}

/// The search's first state: `from` reached at cost 0 and queued at its
/// heuristic.
pub open spec fn search_start(from: ChunkCoord, to: ChunkCoord) -> SearchState {
    SearchState {
        open: Multiset::empty().insert((chunk_heuristic(from, to), from.cx, from.cy)),
        g: Map::empty().insert(chunk_key(from), 0u32),
        capped: false,
        popped: 0,
    }
}

/// How the search from `from` to `to` ends.
pub open spec fn search_outcome(from: ChunkCoord, to: ChunkCoord) -> SearchEnd {
    search_end(to, search_start(from, to))
}

/// An entry that is open and no larger than any open entry is the least.
proof fn lemma_least_entry(m: Multiset<Entry>, e: Entry)
    requires
        m.count(e) > 0,
        forall|x: Entry| m.count(x) > 0 ==> entry_le(e, x),
    ensures
        least_entry(m) == e,
{
    let l = least_entry(m);
    assert(entry_le(e, l) && entry_le(l, e));
}

/// Outcome of a chunk route search.
pub enum ChunkSearch {
    /// A route, `from` first and `to` last.
    Found(Vec<ChunkCoord>),
    /// The destination is sea.
    SeaDestination,
    /// The reachable land was searched to the end without meeting `to`.
    Unreachable,
    /// The search stopped at its node budget, or dropped a chunk whose cost
    /// overflowed 32 bits.
    BudgetExhausted,
}

/// Weighted A* over the chunk grid from `from` to `to`, expanding at most
/// `MAX_CHUNK_NODES` chunks. The open list pops the least (priority,
/// column, row) entry; a chunk is re-expanded whenever it is reached more
/// cheaply. Neighbours whose coordinates would leave the 32-bit range are
/// not considered. For a land destination the kind of result is the one
/// `search_end` gives for the search's first state: in particular the
/// budget runs out only after `MAX_CHUNK_NODES` expansions, or once the
/// open list empties after a neighbour was dropped at the cost cap.
#[verifier::rlimit(80)]
pub fn astar_chunks(from: ChunkCoord, to: ChunkCoord) -> (r: ChunkSearch)
    ensures
        (r is SeaDestination) <==> !passable(to),
        r matches ChunkSearch::Found(path) ==> is_route(from, to, path@),
        r matches ChunkSearch::Found(path) ==> forall|i: int| 1 <= i < path@.len() ==> #[trigger] path@[i] != from,
        r is Unreachable ==> forall|path: Seq<ChunkCoord>| !is_route(from, to, path),
        passable(to) ==> match r {
            ChunkSearch::Found(_) => search_outcome(from, to) == SearchEnd::Found,
            ChunkSearch::Unreachable => search_outcome(from, to) == SearchEnd::Unreachable,
            ChunkSearch::BudgetExhausted => search_outcome(from, to) == SearchEnd::Budget,
            ChunkSearch::SeaDestination => false,
        },
{
    let dest = overmap_info_at(to);
    if dest.biome == Biome::Sea {
        return ChunkSearch::SeaDestination;
    }
    let mut open = Frontier::new();
    let mut came_from: HashMap<u64, ChunkCoord> = HashMap::new();
    let mut g_score: HashMap<u64, u32> = HashMap::new();
    let mut capped = false;
    g_score.insert(chunk_key_exec(from), 0);
    let h0 = heuristic_chunks(from, to);
    open.push((h0, from.cx, from.cy));
    let ghost goal = search_outcome(from, to);
    proof {
        broadcast use vstd::seq_lib::group_to_multiset_ensures, vstd::multiset::group_multiset_axioms;
        assert(Seq::<Entry>::empty().to_multiset() =~= Multiset::<Entry>::empty());
        assert(open@.to_multiset() =~= search_start(from, to).open);
        assert(g_score@ =~= search_start(from, to).g);
        reveal(parents_ok);
        reveal(open_ok);
        reveal(settled_except);
        let start = (h0, from.cx, from.cy);
        assert(open@.contains(start));
        assert forall|c: ChunkCoord| #[trigger] g_score@.contains_key(chunk_key(c)) implies c == from by {
            lemma_chunk_key_injective(c, from);
        }
        assert forall|e: Entry| #[trigger] open@.contains(e) implies g_score@.contains_key(
            chunk_key(ChunkCoord { cx: e.1, cy: e.2 }),
        ) by {
            assert(e == start);
            assert(ChunkCoord { cx: e.1, cy: e.2 } == from);
        }
        assert(queued(from, open@));
        assert(parents_ok(from, g_score@, came_from@));
        assert(open_ok(g_score@, open@));
        assert(settled_except(None, to, g_score@, open@, capped));
    }
    let mut popped: u32 = 0;
    loop
        invariant
            open.wf(),
            parents_ok(from, g_score@, came_from@),
            open_ok(g_score@, open@),
            settled_except(None, to, g_score@, open@, capped),
            popped <= MAX_CHUNK_NODES,
            passable(to),
            goal == search_outcome(from, to),
            search_end(to, SearchState { open: open@.to_multiset(), g: g_score@, capped, popped: popped as nat }) == goal,
        decreases MAX_CHUNK_NODES - popped,
    {
        let ghost open_before = open@;
        let ghost st_before = SearchState { open: open@.to_multiset(), g: g_score@, capped, popped: popped as nat };
        let top = open.pop();
        proof {
            broadcast use vstd::seq_lib::group_to_multiset_ensures;
        }
        let e = match top {
            None => {
                proof {
                    assert(st_before.open.len() == 0);
                }
                if capped {
                    return ChunkSearch::BudgetExhausted;
                }
                proof {
                    lemma_exhausted_means_unreachable(from, to, g_score@, came_from@, open_before);
                }
                return ChunkSearch::Unreachable;
            },
            Some(e) => e,
        };
        let current = ChunkCoord { cx: e.1, cy: e.2 };
        proof {
            lemma_open_entry_reached(g_score@, open_before, e);
            broadcast use vstd::seq_lib::group_to_multiset_ensures;
            assert(st_before.open.len() > 0);
            assert forall|x: Entry| st_before.open.count(x) > 0 implies entry_le(e, x) by {
                assert(open_before.contains(x));
            }
            lemma_least_entry(st_before.open, e);
        }
        if current.cx == to.cx && current.cy == to.cy {
            let path = reconstruct_chunks(from, &g_score, &came_from, current);
            return ChunkSearch::Found(path);
        }
        popped = popped + 1;
        if popped > MAX_CHUNK_NODES {
            return ChunkSearch::BudgetExhausted;
        }
        proof {
            lemma_after_pop(to, g_score@, open_before, open@, e, capped);
        }
        let current_key = chunk_key_exec(current);
        let current_g = match g_score.get(&current_key) {
            Some(v) => *v,
            None => u32::MAX,
        };
        let ghost target = relax_from(
            SearchState { open: open@.to_multiset(), g: g_score@, capped, popped: popped as nat },
            current,
            current_g,
            to,
            0,
        );
        proof {
            assert(current_g == cost_of(st_before.g, current));
            assert(open@.to_multiset() == st_before.open.remove(e));
            assert(search_end(to, st_before) == search_end(to, SearchState { popped: popped as nat, ..target }));
        }
        let mut k: usize = 0;
        while k < 8
            invariant
                relax_from(SearchState { open: open@.to_multiset(), g: g_score@, capped, popped: popped as nat }, current, current_g, to, k as int) == target,
                open.wf(),
                parents_ok(from, g_score@, came_from@),
                open_ok(g_score@, open@),
                settled_except(Some(current), to, g_score@, open@, capped),
                g_score@.contains_key(chunk_key(current)),
                current_g == g_score@[chunk_key(current)],
                k <= 8,
                forall|m: int|
                    0 <= m < k && neighbor_in_range(current, m) && passable(#[trigger] neighbor_at(current, m))
                        ==> g_score@.contains_key(chunk_key(neighbor_at(current, m))) || capped,
            decreases 8 - k,
        {
            let ghost kk = k as int;
            let ghost st_k = SearchState { open: open@.to_multiset(), g: g_score@, capped, popped: popped as nat };
            proof {
                assert(relax_from(st_k, current, current_g, to, kk) == relax_from(relax_one(st_k, current, current_g, to, kk), current, current_g, to, kk + 1));
            }
            let (dx, dy) = CHUNK_NEIGHBORS_8[k];
            let nx = current.cx as i64 + dx as i64;
            let ny = current.cy as i64 + dy as i64;
            k = k + 1;
            if nx < i32::MIN as i64 || nx > i32::MAX as i64 || ny < i32::MIN as i64 || ny > i32::MAX as i64 {
                continue;
            }
            let n = ChunkCoord { cx: nx as i32, cy: ny as i32 };
            let info = overmap_info_at(n);
            if info.biome == Biome::Sea {
                continue;
            }
            let step = hop_cost_exec(info.biome, info.has_road, dx != 0 && dy != 0);
            let tentative_g = saturating_add_u32(current_g, step);
            let n_key = chunk_key_exec(n);
            let existing_g = match g_score.get(&n_key) {
                Some(v) => *v,
                None => u32::MAX,
            };
            proof {
                assert(n == neighbor_at(current, kk));
                assert(existing_g == cost_of(st_k.g, n));
            }
            if tentative_g < existing_g {
                let ghost g0 = g_score@;
                let ghost c0 = came_from@;
                let ghost o0 = open@;
                came_from.insert(n_key, current);
                g_score.insert(n_key, tentative_g);
                let f = saturating_add_u32(tentative_g, heuristic_chunks(n, to));
                open.push((f, n.cx, n.cy));
                proof {
                    assert(chunk_adjacent(current, n));
                    lemma_relax(from, to, current, n, tentative_g, (f, n.cx, n.cy), capped, g0, c0, o0, open@);
                    assert(g_score@ == g0.insert(chunk_key(n), tentative_g));
                    assert(came_from@ == c0.insert(chunk_key(n), current));
                    if chunk_key(current) == chunk_key(n) {
                        lemma_chunk_key_injective(current, n);
                    }
                    assert(SearchState { open: open@.to_multiset(), g: g_score@, capped, popped: popped as nat } == relax_one(st_k, current, current_g, to, kk));
                }
            } else if existing_g == u32::MAX {
                proof {
                    reveal(settled_except);
                }
                capped = true;
            }
            proof {
                assert(SearchState { open: open@.to_multiset(), g: g_score@, capped, popped: popped as nat } == relax_one(st_k, current, current_g, to, kk));
            }
        }
        proof {
            lemma_close_current(to, current, g_score@, open@, capped);
            assert(SearchState { open: open@.to_multiset(), g: g_score@, capped, popped: popped as nat } == target);
        }
    }
}

/// Plan a fast trip from chunk `from` to chunk `to`. `None` when the
/// destination is sea, or when `astar_chunks` finds no route (there is
/// none, or its budget ran out, as `search_outcome` says); otherwise the
/// trip with its chunk hops,
/// the starting chunk left out. Cell-level legs are planned later, as the
/// trip runs, from the player's cell.
pub fn plan_path(from: ChunkCoord, _cell_from: (i64, i64), to: ChunkCoord) -> (r: Option<FastTravelQueue>)
    ensures
        !passable(to) ==> r is None,
        passable(to) && from == to ==> r is Some,
        r is None && passable(to) ==> from != to,
        passable(to) && from != to ==> (r is Some <==> search_outcome(from, to) == SearchEnd::Found),
        passable(to) && from != to && search_outcome(from, to) == SearchEnd::Unreachable ==> forall|p: Seq<ChunkCoord>|
            !is_route(from, to, p),
        r is None && passable(to) ==> search_outcome(from, to) == SearchEnd::Unreachable || search_outcome(from, to)
            == SearchEnd::Budget,
        r matches Some(q) ==> {
            &&& q.destination == to
            &&& ipt(q.destination_cell) == chunk_center_spec(cc_int(to))
            &&& q.leg_cells@.len() == 0
            &&& from == to ==> q.chunk_path@.len() == 0
            &&& from != to ==> is_route(from, to, seq![from] + q.chunk_path@)
            &&& !q.chunk_path@.contains(from)
        },
{
    let dest = overmap_info_at(to);
    if dest.biome == Biome::Sea {
        return None;
    }
    let destination_cell = chunk_center_cell(to);
    if from.cx == to.cx && from.cy == to.cy {
        return Some(
            FastTravelQueue {
                chunk_path: VecDeque::new(),
                leg_cells: VecDeque::new(),
                destination: to,
                destination_cell,
            },
        );
    }
    let full = match astar_chunks(from, to) {
        ChunkSearch::Found(p) => p,
        _ => {
            return None;
        },
    };
    let mut chunk_path: VecDeque<ChunkCoord> = VecDeque::new();
    let mut k: usize = 1;
    while k < full.len()
        invariant
            is_route(from, to, full@),
            forall|i: int| 1 <= i < full@.len() ==> #[trigger] full@[i] != from,
            1 <= k <= full@.len(),
            chunk_path@ == full@.subrange(1, k as int),
        decreases full@.len() - k,
    {
        chunk_path.push_back(full[k]);
        k = k + 1;
    }
    proof {
        assert(seq![from] + chunk_path@ =~= full@);
        if chunk_path@.contains(from) {
            let j = choose|j: int| 0 <= j < chunk_path@.len() && chunk_path@[j] == from;
            assert(full@[j + 1] == from);
        }
    }
    Some(FastTravelQueue { chunk_path, leg_cells: VecDeque::new(), destination: to, destination_cell })
}

} // verus!
