//! Stamping a loaded city into the cells of one chunk: the countryside
//! cleared inside the wall, streets paved, landmarks filled, the wall
//! built round with its gates left open, and the house slots filled with
//! catalog buildings. Each pass is a function of the cell it writes.

use std::collections::{HashMap, HashSet};

use vstd::prelude::*;

use crate::buildings::{
    layer_char, pool_pos, pool_weight, prefab_cell, variant_index, BuildingCatalog, CityTier, Prefab, TagCatalog, TagRole,
};
use crate::city::{
    hash3, hash3_spec, in_footprint, in_gate_gaps, lemma_listed_push, list_street, listed, on_streets, rect_intersects,
    rects_meet, roll_index, roulette_pick, shifted, street_covers, wall_line, weight_sum, City, Footprint,
    Landmark, LandmarkKind, LoadedCity, Street, CITY_REACH, HOUSE_PITCH,
};
use crate::world::ChunkCoord;
use crate::line::line_cells;
use crate::chunkgen::{at, in_chunk, lemma_cell_index, stamped, CHUNK_CELLS};
use crate::flora::Decoration;
use crate::geometry::{all_within, in_polygon, ipt, point_in_polygon, within, WIDE_BOUND};
use crate::world::{cell_key, cell_key_exec, CellState, GroundCover, TerrainKind, CHUNK_H, CHUNK_W};

verus! {

/// Chunk corners this far from the origin keep every local-to-world
/// sum in range.
pub const ORIGIN_REACH: i64 = 0x100_0000_0000;

/// World cell of local cell `(x, y)` of the chunk whose corner is
/// `(ox, oy)`.
pub open spec fn world_at(ox: i64, oy: i64, x: int, y: int) -> (i64, i64) {
    ((ox + x) as i64, (oy + y) as i64)
}

/// A chunk corner `(ox, oy)` near enough to the origin.
pub open spec fn origin_ok(ox: i64, oy: i64) -> bool {
    -ORIGIN_REACH <= ox <= ORIGIN_REACH && -ORIGIN_REACH <= oy <= ORIGIN_REACH
}

/// Sets local cell `(lx, ly)` to terrain `t`, clearing its tree and
/// undergrowth, which no longer fit the new surface.
fn set_terrain(cells: &mut Vec<CellState>, lx: usize, ly: usize, t: TerrainKind)
    requires
        old(cells)@.len() == CHUNK_CELLS,
        lx < CHUNK_W,
        ly < CHUNK_H,
    ensures
        final(cells)@.len() == CHUNK_CELLS,
        stamped(at(old(cells)@, lx as int, ly as int), at(final(cells)@, lx as int, ly as int), t),
        forall|x: int, y: int|
            in_chunk(x, y) && !(x == lx && y == ly) ==> #[trigger] at(final(cells)@, x, y) == at(old(cells)@, x, y),
{
    proof {
        lemma_cell_index(lx as int, ly as int, lx as int, ly as int);
    }
    let idx = ly * (CHUNK_W as usize) + lx;
    cells[idx].terrain = t;
    cells[idx].tree_species = None;
    cells[idx].decoration = Decoration::Bare;
    proof {
        assert forall|x: int, y: int| in_chunk(x, y) && !(x == lx && y == ly) implies #[trigger] at(
            cells@,
            x,
            y,
        ) == at(old(cells)@, x, y) by {
            lemma_cell_index(x, y, lx as int, ly as int);
        }
    }
}

/// Stamps `t` on every cell of the chunk (corner `(ox, oy)`) that `list`
/// names; the list's other cells lie elsewhere and are skipped.
fn stamp_listed(cells: &mut Vec<CellState>, list: &Vec<(i64, i64)>, ox: i64, oy: i64, t: TerrainKind)
    requires
        old(cells)@.len() == CHUNK_CELLS,
        origin_ok(ox, oy),
    ensures
        final(cells)@.len() == CHUNK_CELLS,
        forall|x: int, y: int|
            in_chunk(x, y) ==> if listed(list@, world_at(ox, oy, x, y)) {
                stamped(at(old(cells)@, x, y), #[trigger] at(final(cells)@, x, y), t)
            } else {
                at(final(cells)@, x, y) == at(old(cells)@, x, y)
            },
{
    let mut k: usize = 0;
    while k < list.len()
        invariant
            k <= list@.len(),
            cells@.len() == CHUNK_CELLS,
            origin_ok(ox, oy),
            forall|x: int, y: int|
                in_chunk(x, y) ==> if listed(list@.take(k as int), world_at(ox, oy, x, y)) {
                    stamped(at(old(cells)@, x, y), #[trigger] at(cells@, x, y), t)
                } else {
                    at(cells@, x, y) == at(old(cells)@, x, y)
                },
        decreases list@.len() - k,
    {
        let (wx, wy) = list[k];
        proof {
            lemma_listed_push(list@.take(k as int), (wx, wy));
            assert(list@.take(k + 1) =~= list@.take(k as int).push((wx, wy)));
        }
        if ox <= wx && wx <= ox + 39 && oy <= wy && wy <= oy + 29 {
            let ghost before = cells@;
            set_terrain(cells, (wx - ox) as usize, (wy - oy) as usize, t);
            proof {
                assert(world_at(ox, oy, (wx - ox) as int, (wy - oy) as int) == (wx, wy));
            }
        } else {
            proof {
                assert forall|x: int, y: int| in_chunk(x, y) implies world_at(ox, oy, x, y) != (wx, wy) by {}
            }
        }
        k += 1;
    }
    proof {
        assert(list@.take(list@.len() as int) =~= list@);
    }
}

/// Stamps a wall stone on world cell `wcell` if it lies in the chunk
/// whose corner is `(ox, oy)`.
fn stamp_wall_cell(cells: &mut Vec<CellState>, wcell: (i64, i64), ox: i64, oy: i64)
    requires
        old(cells)@.len() == CHUNK_CELLS,
        origin_ok(ox, oy),
    ensures
        final(cells)@.len() == CHUNK_CELLS,
        forall|x: int, y: int|
            in_chunk(x, y) ==> if world_at(ox, oy, x, y) == wcell {
                stamped(at(old(cells)@, x, y), #[trigger] at(final(cells)@, x, y), TerrainKind::StoneWall)
            } else {
                at(final(cells)@, x, y) == at(old(cells)@, x, y)
            },
{
    if ox <= wcell.0 && wcell.0 <= ox + 39 && oy <= wcell.1 && wcell.1 <= oy + 29 {
        set_terrain(cells, (wcell.0 - ox) as usize, (wcell.1 - oy) as usize, TerrainKind::StoneWall);
    }
}

/// `n` is `o` with the countryside cleared: a tree becomes grass, and the
/// species, undergrowth, items and ground cover go.
pub open spec fn cleared(o: CellState, n: CellState) -> bool {
    &&& n.terrain == if o.terrain == TerrainKind::TreeTrunk {
        TerrainKind::Grass
    } else {
        o.terrain
    }
    &&& n.tree_species is None
    &&& n.decoration == Decoration::Bare
    &&& n.items@.len() == 0
    &&& n.ground_cover == GroundCover::Bare
}

/// World cell `c` lies in the wall's bounding box and inside the wall.
pub open spec fn inside_wall(poly: Seq<(i64, i64)>, wall_bbox: (i64, i64, i64, i64), c: (i64, i64)) -> bool {
    &&& wall_bbox.0 <= c.0 <= wall_bbox.2
    &&& wall_bbox.1 <= c.1 <= wall_bbox.3
    &&& in_polygon(ipt(c), poly)
}

impl City {
    /// Clears the countryside from every cell of the chunk (corner
    /// `(ox, oy)`) inside the wall, so streets and houses stand on swept
    /// ground.
    pub fn clear_natural_layer_inside_wall(
        &self,
        wall_world_polygon: &[(i64, i64)],
        wall_bbox: (i64, i64, i64, i64),
        ox: i64,
        oy: i64,
        cells: &mut Vec<CellState>,
    )
        requires
            old(cells)@.len() == CHUNK_CELLS,
            origin_ok(ox, oy),
            all_within(wall_world_polygon@, WIDE_BOUND as int),
        ensures
            final(cells)@.len() == CHUNK_CELLS,
            forall|x: int, y: int|
                in_chunk(x, y) ==> if inside_wall(wall_world_polygon@, wall_bbox, world_at(ox, oy, x, y)) {
                    cleared(at(old(cells)@, x, y), #[trigger] at(final(cells)@, x, y))
                } else {
                    at(final(cells)@, x, y) == at(old(cells)@, x, y)
                },
    {
        let mut ly: usize = 0;
        while ly < CHUNK_H as usize
            invariant
                ly <= CHUNK_H,
                cells@.len() == CHUNK_CELLS,
                origin_ok(ox, oy),
                all_within(wall_world_polygon@, WIDE_BOUND as int),
                forall|x: int, y: int|
                    in_chunk(x, y) ==> if y < ly && inside_wall(wall_world_polygon@, wall_bbox, world_at(ox, oy, x, y)) {
                        cleared(at(old(cells)@, x, y), #[trigger] at(cells@, x, y))
                    } else {
                        at(cells@, x, y) == at(old(cells)@, x, y)
                    },
            decreases CHUNK_H - ly,
        {
            let mut lx: usize = 0;
            while lx < CHUNK_W as usize
                invariant
                    ly < CHUNK_H,
                    lx <= CHUNK_W,
                    cells@.len() == CHUNK_CELLS,
                    origin_ok(ox, oy),
                    all_within(wall_world_polygon@, WIDE_BOUND as int),
                    forall|x: int, y: int|
                        in_chunk(x, y) ==> if (y < ly || (y == ly && x < lx)) && inside_wall(
                            wall_world_polygon@,
                            wall_bbox,
                            world_at(ox, oy, x, y),
                        ) {
                            cleared(at(old(cells)@, x, y), #[trigger] at(cells@, x, y))
                        } else {
                            at(cells@, x, y) == at(old(cells)@, x, y)
                        },
                decreases CHUNK_W - lx,
            {
                let wx = ox + lx as i64;
                let wy = oy + ly as i64;
                if wall_bbox.0 <= wx && wx <= wall_bbox.2 && wall_bbox.1 <= wy && wy <= wall_bbox.3 {
                    if point_in_polygon((wx, wy), wall_world_polygon) {
                        proof {
                            lemma_cell_index(lx as int, ly as int, lx as int, ly as int);
                        }
                        let idx = ly * (CHUNK_W as usize) + lx;
                        let ghost before = cells@;
                        if cells[idx].terrain == TerrainKind::TreeTrunk {
                            cells[idx].terrain = TerrainKind::Grass;
                        }
                        cells[idx].tree_species = None;
                        cells[idx].decoration = Decoration::Bare;
                        cells[idx].items.clear();
                        cells[idx].ground_cover = GroundCover::Bare;
                        proof {
                            assert(world_at(ox, oy, lx as int, ly as int) == (wx, wy));
                            assert forall|x: int, y: int| in_chunk(x, y) && !(x == lx && y == ly) implies at(
                                cells@,
                                x,
                                y,
                            ) == at(before, x, y) by {
                                lemma_cell_index(x, y, lx as int, ly as int);
                            }
                        }
                    }
                }
                lx += 1;
            }
            ly += 1;
        }
    }

    /// Paves every cell of the chunk (corner `(ox, oy)`) that `street`
    /// covers: within its width of one of its segments' lines.
    pub fn stamp_street(&self, street: &Street, anchor: (i64, i64), ox: i64, oy: i64, cells: &mut Vec<CellState>)
        requires
            old(cells)@.len() == CHUNK_CELLS,
            origin_ok(ox, oy),
            all_within(street.polyline@, crate::city::CITY_REACH as int),
            within(anchor, crate::city::CITY_REACH as int),
        ensures
            final(cells)@.len() == CHUNK_CELLS,
            forall|x: int, y: int|
                in_chunk(x, y) ==> if street_covers(
                    *street,
                    anchor,
                    street.polyline@.len() - 1,
                    ipt(world_at(ox, oy, x, y)),
                ) {
                    stamped(at(old(cells)@, x, y), #[trigger] at(final(cells)@, x, y), TerrainKind::CobbleRoad)
                } else {
                    at(final(cells)@, x, y) == at(old(cells)@, x, y)
                },
    {
        let mut covered: Vec<(i64, i64)> = Vec::new();
        proof {
            assert(all_within(covered@, 0x9_0000_0000));
        }
        list_street(&mut covered, street, anchor);
        stamp_listed(cells, &covered, ox, oy, TerrainKind::CobbleRoad);
        proof {
            assert forall|c: (i64, i64)| !#[trigger] listed(Seq::<(i64, i64)>::empty(), c) by {}
        }
    }

    /// Fills every cell of the chunk (corner `(ox, oy)`) inside
    /// landmark `lm`'s footprint with `terrain`.
    pub fn stamp_landmark_fill(
        &self,
        lm: &Landmark,
        terrain: TerrainKind,
        anchor: (i64, i64),
        ox: i64,
        oy: i64,
        cells: &mut Vec<CellState>,
    )
        requires
            old(cells)@.len() == CHUNK_CELLS,
            origin_ok(ox, oy),
            crate::city::fp_fits(lm.footprint),
            within(anchor, crate::city::CITY_REACH as int),
        ensures
            final(cells)@.len() == CHUNK_CELLS,
            forall|x: int, y: int|
                in_chunk(x, y) ==> if in_footprint(lm.footprint, anchor, ipt(world_at(ox, oy, x, y))) {
                    stamped(at(old(cells)@, x, y), #[trigger] at(final(cells)@, x, y), terrain)
                } else {
                    at(final(cells)@, x, y) == at(old(cells)@, x, y)
                },
    {
        let inside = crate::city::footprint_cells(&lm.footprint, anchor);
        stamp_listed(cells, &inside, ox, oy, terrain);
        proof {
            assert forall|c: (i64, i64)| #[trigger] listed(inside@, c) == in_footprint(lm.footprint, anchor, ipt(c)) by {
                if listed(inside@, c) {
                    let k = choose|k: int| 0 <= k < inside@.len() && #[trigger] inside@[k] == c;
                    assert(in_footprint(lm.footprint, anchor, ipt(inside@[k])));
                }
                if in_footprint(lm.footprint, anchor, ipt(c)) {
                    let k = choose|k: int| 0 <= k < inside@.len() && inside@[k] == c;
                    assert(inside@[k] == c);
                }
            }
        }
    }
}

/// The wall's line cells, segment after segment, over its first `i`
/// segments.
pub open spec fn wall_walk(poly: Seq<(i64, i64)>, anchor: (i64, i64), i: int) -> Seq<(i64, i64)>
    decreases i,
{
    if i <= 0 {
        Seq::empty()
    } else {
        wall_walk(poly, anchor, i - 1) + wall_line(poly, i - 1, anchor)
    }
}

/// Cells `p` and `q` touch only at a corner.
pub open spec fn diagonal(p: (i64, i64), q: (i64, i64)) -> bool {
    (q.0 - p.0 == 1 || p.0 - q.0 == 1) && (q.1 - p.1 == 1 || p.1 - q.1 == 1)
}

/// Cell `c` is on the walk `w`: one of its cells, or the bridge cell
/// (the earlier cell's column, the later cell's row) that joins two
/// consecutive cells touching only at a corner, so every wall cell meets
/// the next along a side.
pub open spec fn on_wall(w: Seq<(i64, i64)>, c: (i64, i64)) -> bool {
    exists|j: int|
        0 <= j < w.len() && (#[trigger] w[j] == c || (j > 0 && diagonal(w[j - 1], w[j]) && c == (w[j - 1].0, w[j].1)))
}

proof fn lemma_on_wall_push(w: Seq<(i64, i64)>, q: (i64, i64), c: (i64, i64))
    ensures
        on_wall(w.push(q), c) == (on_wall(w, c) || c == q || (w.len() > 0 && diagonal(w.last(), q) && c == (
        w.last().0, q.1))),
{
    let v = w.push(q);
    if on_wall(v, c) {
        let j = choose|j: int|
            0 <= j < v.len() && (#[trigger] v[j] == c || (j > 0 && diagonal(v[j - 1], v[j]) && c == (v[j - 1].0, v[j].1)));
        if j < w.len() {
            assert(w[j] == v[j]);
            if j > 0 {
                assert(w[j - 1] == v[j - 1]);
            }
            assert(on_wall(w, c));
        }
    }
    if on_wall(w, c) {
        let j = choose|j: int|
            0 <= j < w.len() && (#[trigger] w[j] == c || (j > 0 && diagonal(w[j - 1], w[j]) && c == (w[j - 1].0, w[j].1)));
        assert(v[j] == w[j]);
        if j > 0 {
            assert(v[j - 1] == w[j - 1]);
        }
        assert(on_wall(v, c));
    }
    if c == q || (w.len() > 0 && diagonal(w.last(), q) && c == (w.last().0, q.1)) {
        let j = w.len() as int;
        assert(v[j] == q);
        if j > 0 {
            assert(v[j - 1] == w.last());
        }
        assert(on_wall(v, c));
    }
}

/// Cell `c` stands in the wall: on the wall's walk round all its
/// segments, and not in a gate's opening.
pub open spec fn wall_stone(city: &City, anchor: (i64, i64), c: (i64, i64)) -> bool {
    &&& on_wall(wall_walk(city.wall.polygon@, anchor, city.wall.polygon@.len() as int), c)
    &&& !in_gate_gaps(city.wall.gates@, anchor, city.wall.gates@.len() as int, ipt(c))
}

impl City {
    /// Every cell of the wall with its corner bridges, gates left open,
    /// possibly more than once.
    fn wall_stones(&self, anchor: (i64, i64)) -> (r: Vec<(i64, i64)>)
        requires
            self.fits(anchor),
        ensures
            forall|c: (i64, i64)| #[trigger] listed(r@, c) == wall_stone(self, anchor, c),
    {
        let gate_skip = self.gate_skip_cells(anchor);
        let ghost poly = self.wall.polygon@;
        let n = self.wall.polygon.len();
        let mut out: Vec<(i64, i64)> = Vec::new();
        let mut prev: Option<(i64, i64)> = None;
        let mut i: usize = 0;
        proof {
            assert forall|c: (i64, i64)| !#[trigger] listed(out@, c) by {}
            assert(wall_walk(poly, anchor, 0) =~= Seq::<(i64, i64)>::empty());
        }
        while i < n
            invariant
                i <= n,
                n == poly.len(),
                poly == self.wall.polygon@,
                self.fits(anchor),
                forall|c: (i64, i64)|
                    #[trigger] gate_skip@.contains(cell_key(c)) == in_gate_gaps(
                        self.wall.gates@,
                        anchor,
                        self.wall.gates@.len() as int,
                        ipt(c),
                    ),
                prev == (if wall_walk(poly, anchor, i as int).len() > 0 {
                    Some(wall_walk(poly, anchor, i as int).last())
                } else {
                    None
                }),
                forall|c: (i64, i64)|
                    #[trigger] listed(out@, c) == (on_wall(wall_walk(poly, anchor, i as int), c)
                        && !in_gate_gaps(self.wall.gates@, anchor, self.wall.gates@.len() as int, ipt(c))),
            decreases n - i,
        {
            let a = self.wall.polygon[i];
            let b = self.wall.polygon[(i + 1) % n];
            proof {
                assert(crate::geometry::within(poly[i as int], CITY_REACH as int));
                assert(crate::geometry::within(poly[(i + 1) % (n as int)], CITY_REACH as int));
            }
            let aw = (a.0 + anchor.0, a.1 + anchor.1);
            let bw = (b.0 + anchor.0, b.1 + anchor.1);
            let line = line_cells(aw, bw);
            let ghost base = wall_walk(poly, anchor, i as int);
            assert(line@ == wall_line(poly, i as int, anchor));
            let mut m: usize = 0;
            while m < line.len()
                invariant
                    m <= line@.len(),
                    i < n,
                    base == wall_walk(poly, anchor, i as int),
                    forall|c: (i64, i64)|
                        #[trigger] gate_skip@.contains(cell_key(c)) == in_gate_gaps(
                            self.wall.gates@,
                            anchor,
                            self.wall.gates@.len() as int,
                            ipt(c),
                        ),
                    prev == (if (base + line@.take(m as int)).len() > 0 {
                        Some((base + line@.take(m as int)).last())
                    } else {
                        None
                    }),
                    forall|c: (i64, i64)|
                        #[trigger] listed(out@, c) == (on_wall(base + line@.take(m as int), c) && !in_gate_gaps(
                            self.wall.gates@,
                            anchor,
                            self.wall.gates@.len() as int,
                            ipt(c),
                        )),
                decreases line@.len() - m,
            {
                let (wx, wy) = line[m];
                let ghost walked = base + line@.take(m as int);
                assert(base + line@.take(m + 1) =~= walked.push((wx, wy)));
                let ghost o0 = out@;
                match prev {
                    Some((px, py)) => {
                        let ddx = wx as i128 - px as i128;
                        let ddy = wy as i128 - py as i128;
                        if (ddx == 1 || ddx == -1) && (ddy == 1 || ddy == -1) {
                            let bridge = (px, wy);
                            if !gate_skip.contains(&cell_key_exec(bridge)) {
                                out.push(bridge);
                            }
                        }
                    },
                    None => {},
                }
                let ghost o1 = out@;
                if !gate_skip.contains(&cell_key_exec((wx, wy))) {
                    out.push((wx, wy));
                }
                proof {
                    lemma_listed_push(o0, (px_of(prev), wy));
                    lemma_listed_push(o1, (wx, wy));
                    assert forall|c: (i64, i64)| #[trigger] listed(out@, c) == (on_wall(walked.push((wx, wy)), c)
                        && !in_gate_gaps(self.wall.gates@, anchor, self.wall.gates@.len() as int, ipt(c))) by {
                        lemma_on_wall_push(walked, (wx, wy), c);
                    }
                }
                prev = Some((wx, wy));
                m += 1;
            }
            proof {
                assert(line@.take(line@.len() as int) =~= line@);
                assert(wall_walk(poly, anchor, i + 1) == base + line@);
            }
            i += 1;
        }
        out
    }
}

/// Column of an optional cell (0 when there is none).
spec fn px_of(p: Option<(i64, i64)>) -> i64 {
    match p {
        Some(q) => q.0,
        None => 0,
    }
}

/// Share, out of 256, of house slots left as empty plots.
pub const EMPTY_SLOT_THRESHOLD: u64 = 50;

/// Salt of the empty-plot and placement roll of a slot.
pub const CITY_SEED_SALT: u64 = 0xE7E7_E7E7_E7E7_E7E7;

/// Salt of the district-tag roll of a slot.
pub const TAG_SEED_SALT: u64 = 0xCAFE_BABE_DEAD_BEEF;

/// Salt of the variant roll within a `(tag, tier)` pool.
pub const VARIANT_SEED_SALT: u64 = 0xF00D_F00D_F00D_F00D;

/// Bound on house-slot coordinates, keeping a slot's cells in range.
pub const SLOT_REACH: i64 = 0x40_0000_0000;

/// Inner box `(min_x, min_y, max_x, max_y)` of house slot `slot`: the
/// slot's `HOUSE_PITCH`-square less its first row and column.
pub open spec fn slot_inner(slot: (i64, i64), anchor: (i64, i64)) -> (int, int, int, int) {
    let ox = slot.0 * HOUSE_PITCH + anchor.0;
    let oy = slot.1 * HOUSE_PITCH + anchor.1;
    (ox + 1, oy + 1, ox + HOUSE_PITCH - 1, oy + HOUSE_PITCH - 1)
}

/// All four corners of the slot's inner box lie inside the wall.
pub open spec fn slot_walled(slot: (i64, i64), anchor: (i64, i64), poly: Seq<(i64, i64)>) -> bool {
    let b = slot_inner(slot, anchor);
    &&& in_polygon((b.0, b.1), poly)
    &&& in_polygon((b.2, b.1), poly)
    &&& in_polygon((b.0, b.3), poly)
    &&& in_polygon((b.2, b.3), poly)
}

/// The slot's own roll: its low byte decides an empty plot, higher bits
/// the building's offset.
pub open spec fn slot_roll(slot: (i64, i64), seed: u64) -> u64 {
    hash3_spec(slot.0 as u64, slot.1 as u64, seed ^ CITY_SEED_SALT)
}

/// District tag a slot rolls: from its street-tag list when it has one
/// (none when that list is empty or weighs nothing), else "house".
pub open spec fn slot_tag(slot: (i64, i64), seed: u64, tags: Map<u128, Vec<(String, u32)>>) -> Option<Seq<char>> {
    let h = hash3_spec(slot.0 as u64, slot.1 as u64, seed ^ TAG_SEED_SALT);
    if tags.contains_key(cell_key(slot)) {
        let pool = tags[cell_key(slot)]@;
        let total = weight_sum(pool, pool.len() as int);
        if pool.len() == 0 || total == 0 {
            None
        } else {
            Some(pool[roll_index(pool, (h as int) % total, 0)].0@)
        }
    } else {
        Some("house"@)
    }
}

/// Prefab the catalog's `(tag, tier)` pool gives roll `h` (see
/// `BuildingCatalog::pick_variant`).
pub open spec fn variant_pick(
    pools: Seq<((String, CityTier), Vec<Prefab>)>,
    tag: Seq<char>,
    tier: CityTier,
    h: u64,
) -> Option<Prefab> {
    let i = pool_pos(pools, tag, tier);
    if i == pools.len() {
        None
    } else {
        let pool = pools[i].1@;
        let total = pool_weight(pool, pool.len() as int);
        if pool.len() == 0 || total == 0 {
            None
        } else {
            Some(pool[variant_index(pool, (h as int) % total, 0)])
        }
    }
}

/// Building a slot rolls: a variant of its tag, falling back to the
/// tier's "house" pool.
pub open spec fn slot_prefab(
    slot: (i64, i64),
    seed: u64,
    tier: CityTier,
    tags: Map<u128, Vec<(String, u32)>>,
    pools: Seq<((String, CityTier), Vec<Prefab>)>,
) -> Option<Prefab> {
    match slot_tag(slot, seed, tags) {
        None => None,
        Some(t) => {
            let h = hash3_spec(slot.0 as u64, slot.1 as u64, seed ^ VARIANT_SEED_SALT);
            match variant_pick(pools, t, tier, h) {
                Some(p) => Some(p),
                None => variant_pick(pools, "house"@, tier, h),
            }
        },
    }
}

/// Footprint `(min_x, min_y, max_x, max_y)` of prefab `p` in slot
/// `slot`: the slot's inner corner, shifted by the slot's roll within
/// whatever room the prefab leaves.
pub open spec fn slot_box(slot: (i64, i64), anchor: (i64, i64), seed: u64, p: Prefab) -> (int, int, int, int) {
    let b = slot_inner(slot, anchor);
    let h = slot_roll(slot, seed);
    let pw = p.size.0 as int;
    let ph = p.size.1 as int;
    let slack_x = if HOUSE_PITCH - 1 - pw > 0 {
        HOUSE_PITCH - 1 - pw
    } else {
        0
    };
    let slack_y = if HOUSE_PITCH - 1 - ph > 0 {
        HOUSE_PITCH - 1 - ph
    } else {
        0
    };
    let off_x = if slack_x > 0 {
        ((h >> 24u64) as int) % slack_x
    } else {
        0
    };
    let off_y = if slack_y > 0 {
        ((h >> 32u64) as int) % slack_y
    } else {
        0
    };
    (b.0 + off_x, b.1 + off_y, b.0 + off_x + pw - 1, b.1 + off_y + ph - 1)
}

/// What slot `slot` builds, before streets are considered: nothing when
/// its inner box leaves the wall, when it rolls an empty plot, or when no
/// building fits its tag; else the building and its footprint.
pub open spec fn slot_choice(
    slot: (i64, i64),
    anchor: (i64, i64),
    seed: u64,
    tier: CityTier,
    poly: Seq<(i64, i64)>,
    tags: Map<u128, Vec<(String, u32)>>,
    pools: Seq<((String, CityTier), Vec<Prefab>)>,
) -> Option<(Prefab, (int, int, int, int))> {
    if !slot_walled(slot, anchor, poly) || slot_roll(slot, seed) % 256 < EMPTY_SLOT_THRESHOLD {
        None
    } else {
        match slot_prefab(slot, seed, tier, tags, pools) {
            None => None,
            Some(p) => Some((p, slot_box(slot, anchor, seed, p))),
        }
    }
}

/// Every pool of the catalog weighs at most `u32::MAX`, so a weighted
/// pick can total it.
pub open spec fn weights_fit(pools: Seq<((String, CityTier), Vec<Prefab>)>) -> bool {
    forall|i: int| 0 <= i < pools.len() ==> pool_weight(#[trigger] pools[i].1@, pools[i].1@.len() as int) <= u32::MAX
}

/// Every district-tag list weighs at most `u32::MAX`.
pub open spec fn tag_weights_fit(tags: Map<u128, Vec<(String, u32)>>) -> bool {
    forall|k: u128| #[trigger] tags.contains_key(k) ==> weight_sum(tags[k]@, tags[k]@.len() as int) <= u32::MAX
}

/// The building and footprint of house slot `(slot_x, slot_y)` (see
/// `slot_choice`).
pub fn slot_prefab_footprint<'a>(
    slot_x: i64,
    slot_y: i64,
    anchor: (i64, i64),
    world_seed: u64,
    tier: CityTier,
    wall_world_polygon: &[(i64, i64)],
    slot_tags: &HashMap<u128, Vec<(String, u32)>>,
    catalog: &'a BuildingCatalog,
) -> (r: Option<(&'a Prefab, (i64, i64, i64, i64))>)
    requires
        -SLOT_REACH <= slot_x <= SLOT_REACH,
        -SLOT_REACH <= slot_y <= SLOT_REACH,
        within(anchor, CITY_REACH as int),
        all_within(wall_world_polygon@, WIDE_BOUND as int),
        weights_fit(catalog.pools@),
        tag_weights_fit(slot_tags@),
    ensures
        match slot_choice(
            (slot_x, slot_y),
            anchor,
            world_seed,
            tier,
            wall_world_polygon@,
            slot_tags@,
            catalog.pools@,
        ) {
            None => r is None,
            Some((p, b)) => r matches Some((q, c)) && *q == p && c.0 == b.0 && c.1 == b.1 && c.2 == b.2 && c.3 == b.3,
        },
{
    let slot_origin_x = slot_x * HOUSE_PITCH + anchor.0;
    let slot_origin_y = slot_y * HOUSE_PITCH + anchor.1;
    let min_x = slot_origin_x + 1;
    let min_y = slot_origin_y + 1;
    let max_x = slot_origin_x + HOUSE_PITCH - 1;
    let max_y = slot_origin_y + HOUSE_PITCH - 1;
    // 1. The slot's inner box must lie inside the wall.
    if !(point_in_polygon((min_x, min_y), wall_world_polygon) && point_in_polygon((max_x, min_y), wall_world_polygon)
        && point_in_polygon((min_x, max_y), wall_world_polygon) && point_in_polygon(
        (max_x, max_y),
        wall_world_polygon,
    )) {
        return None;
    }
    // 2. Empty plot.
    let slot_hash = hash3(slot_x as u64, slot_y as u64, world_seed ^ CITY_SEED_SALT);
    if (slot_hash & 0xFF) < EMPTY_SLOT_THRESHOLD {
        proof {
            assert(slot_hash & 0xFF == slot_hash % 256) by (bit_vector);
        }
        return None;
    }
    proof {
        assert(slot_hash & 0xFF == slot_hash % 256) by (bit_vector);
    }
    // 3. District tag.
    let tag_hash = hash3(slot_x as u64, slot_y as u64, world_seed ^ TAG_SEED_SALT);
    let key = cell_key_exec((slot_x, slot_y));
    let picked: Option<&str> = match slot_tags.get(&key) {
        Some(pool) => {
            proof {
                assert(slot_tags@.contains_key(key));
            }
            roulette_pick(pool.as_slice(), tag_hash)
        },
        None => Some("house"),
    };
    proof {
        reveal_strlit("house");
    }
    let tag = match picked {
        Some(t) => t,
        None => return None,
    };
    // 4. Variant, falling back to the tier's houses.
    let variant_hash = hash3(slot_x as u64, slot_y as u64, world_seed ^ VARIANT_SEED_SALT);
    proof {
        lemma_pick_fits(catalog.pools@, tag@, tier);
        lemma_pick_fits(catalog.pools@, "house"@, tier);
    }
    let prefab = match catalog.pick_variant(tag, tier, variant_hash) {
        Some(p) => p,
        None => match catalog.pick_variant("house", tier, variant_hash) {
            Some(p) => p,
            None => return None,
        },
    };
    // 5. Offset within the room the prefab leaves.
    let pw = prefab.width() as i64;
    let ph = prefab.height() as i64;
    let slack_x: u64 = if HOUSE_PITCH - 1 - pw > 0 {
        (HOUSE_PITCH - 1 - pw) as u64
    } else {
        0
    };
    let slack_y: u64 = if HOUSE_PITCH - 1 - ph > 0 {
        (HOUSE_PITCH - 1 - ph) as u64
    } else {
        0
    };
    let off_x: i64 = if slack_x > 0 {
        ((slot_hash >> 24u64) % slack_x) as i64
    } else {
        0
    };
    let off_y: i64 = if slack_y > 0 {
        ((slot_hash >> 32u64) % slack_y) as i64
    } else {
        0
    };
    let pre_min_x = min_x + off_x;
    let pre_min_y = min_y + off_y;
    Some((prefab, (pre_min_x, pre_min_y, pre_min_x + pw - 1, pre_min_y + ph - 1)))
}

proof fn lemma_pool_pos_nonneg(pools: Seq<((String, CityTier), Vec<Prefab>)>, tag: Seq<char>, tier: CityTier)
    ensures
        0 <= pool_pos(pools, tag, tier) <= pools.len(),
    decreases pools.len(),
{
    if pools.len() > 0 && !(pools[0].0.0@ == tag && pools[0].0.1 == tier) {
        lemma_pool_pos_nonneg(pools.drop_first(), tag, tier);
    }
}

proof fn lemma_pick_fits(pools: Seq<((String, CityTier), Vec<Prefab>)>, tag: Seq<char>, tier: CityTier)
    requires
        weights_fit(pools),
    ensures
        pool_pos(pools, tag, tier) < pools.len() ==> pool_weight(
            pools[pool_pos(pools, tag, tier)].1@,
            pools[pool_pos(pools, tag, tier)].1@.len() as int,
        ) <= u32::MAX,
{
    lemma_pool_pos_nonneg(pools, tag, tier);
    let i = pool_pos(pools, tag, tier);
    if 0 <= i < pools.len() {
        assert(pool_weight(pools[i].1@, pools[i].1@.len() as int) <= u32::MAX);
    }
}

proof fn lemma_slot_box_bounds(slot: (i64, i64), anchor: (i64, i64), seed: u64, p: Prefab)
    requires
        -SLOT_REACH <= slot.0 <= SLOT_REACH,
        -SLOT_REACH <= slot.1 <= SLOT_REACH,
        within(anchor, CITY_REACH as int),
    ensures
        ({
            let b = slot_box(slot, anchor, seed, p);
            &&& -0x400_0000_0000 <= b.0 <= 0x400_0000_0000
            &&& -0x400_0000_0000 <= b.1 <= 0x400_0000_0000
            &&& b.2 == b.0 + p.size.0 - 1
            &&& b.3 == b.1 + p.size.1 - 1
        }),
{
    let h = slot_roll(slot, seed);
    let pw = p.size.0 as int;
    let ph = p.size.1 as int;
    if HOUSE_PITCH - 1 - pw > 0 {
        vstd::arithmetic::div_mod::lemma_mod_bound((h >> 24u64) as int, HOUSE_PITCH - 1 - pw);
    }
    if HOUSE_PITCH - 1 - ph > 0 {
        vstd::arithmetic::div_mod::lemma_mod_bound((h >> 32u64) as int, HOUSE_PITCH - 1 - ph);
    }
}

proof fn lemma_world_at(ox: i64, oy: i64)
    requires
        origin_ok(ox, oy),
    ensures
        forall|x: int, y: int|
            in_chunk(x, y) ==> (#[trigger] world_at(ox, oy, x, y)).0 == ox + x && world_at(ox, oy, x, y).1 == oy + y,
{
}

/// A footprint cell is a street cell.
pub open spec fn street_blocked(b: (int, int, int, int), streets: Set<u128>) -> bool {
    exists|c: (i64, i64)| b.0 <= c.0 <= b.2 && b.1 <= c.1 <= b.3 && #[trigger] streets.contains(cell_key(c))
}

/// Cell `cell` at world cell `w` after a slot with `choice` is stamped:
/// a building whose footprint crosses no street writes its terrain on
/// the grass cells of its footprint where its grid has some, clearing
/// tree and undergrowth; every other cell is unchanged.
pub open spec fn slot_cell(
    choice: Option<(Prefab, (int, int, int, int))>,
    streets: Set<u128>,
    tags: Seq<(String, TagRole)>,
    w: (i64, i64),
    cell: CellState,
) -> CellState {
    match choice {
        None => cell,
        Some((p, b)) => if street_blocked(b, streets) || !(b.0 <= w.0 <= b.2 && b.1 <= w.1 <= b.3) || cell.terrain
            != TerrainKind::Grass {
            cell
        } else {
            match prefab_cell(&p, tags, w.0 - b.0, w.1 - b.1) {
                None => cell,
                Some(t) => CellState { terrain: t, tree_species: None, decoration: Decoration::Bare, ..cell },
            }
        },
    }
}

/// Whether a cell of the box from `(a, b)` to `(c, d)` is a street cell.
fn crosses_street(street_cells: &HashSet<u128>, a: i64, b: i64, c: i64, d: i64) -> (r: bool)
    requires
        a <= c + 1,
        b <= d + 1,
        -0x400_0000_0000 <= a <= 0x400_0000_0000,
        -0x400_0000_0000 <= b <= 0x400_0000_0000,
        c - a < 0x10000,
        d - b < 0x10000,
    ensures
        r == street_blocked((a as int, b as int, c as int, d as int), street_cells@),
{
    let mut wy = b;
    while wy <= d
        invariant
            b <= wy <= d + 1,
            a <= c + 1,
            -0x400_0000_0000 <= a <= 0x400_0000_0000,
            -0x400_0000_0000 <= b <= 0x400_0000_0000,
            c - a < 0x10000,
            d - b < 0x10000,
            forall|q: (i64, i64)| a <= q.0 <= c && b <= q.1 < wy ==> !#[trigger] street_cells@.contains(cell_key(q)),
        decreases d + 1 - wy,
    {
        let mut wx = a;
        while wx <= c
            invariant
                b <= wy <= d,
                a <= wx <= c + 1,
                -0x400_0000_0000 <= a <= 0x400_0000_0000,
                c - a < 0x10000,
                forall|q: (i64, i64)|
                    a <= q.0 <= c && (b <= q.1 < wy || (q.1 == wy && q.0 < wx)) ==> !#[trigger] street_cells@.contains(
                        cell_key(q),
                    ),
            decreases c + 1 - wx,
        {
            let key = cell_key_exec((wx, wy));
            if street_cells.contains(&key) {
                assert(street_cells@.contains(cell_key((wx, wy))));
                return true;
            }
            wx += 1;
        }
        wy += 1;
    }
    false
}

/// Stamps house slot `(slot_x, slot_y)`'s building into the chunk whose
/// corner is `(ox, oy)` (see `slot_cell`).
pub fn stamp_one_prefab_slot(
    slot_x: i64,
    slot_y: i64,
    anchor: (i64, i64),
    world_seed: u64,
    tier: CityTier,
    wall_world_polygon: &[(i64, i64)],
    street_cells: &HashSet<u128>,
    slot_tags: &HashMap<u128, Vec<(String, u32)>>,
    catalog: &BuildingCatalog,
    tags: &TagCatalog,
    ox: i64,
    oy: i64,
    cells: &mut Vec<CellState>,
)
    requires
        old(cells)@.len() == CHUNK_CELLS,
        origin_ok(ox, oy),
        -SLOT_REACH <= slot_x <= SLOT_REACH,
        -SLOT_REACH <= slot_y <= SLOT_REACH,
        within(anchor, CITY_REACH as int),
        all_within(wall_world_polygon@, WIDE_BOUND as int),
        weights_fit(catalog.pools@),
        tag_weights_fit(slot_tags@),
    ensures
        final(cells)@.len() == CHUNK_CELLS,
        forall|x: int, y: int|
            in_chunk(x, y) ==> #[trigger] at(final(cells)@, x, y) == slot_cell(
                slot_choice((slot_x, slot_y), anchor, world_seed, tier, wall_world_polygon@, slot_tags@, catalog.pools@),
                street_cells@,
                tags.tags@,
                world_at(ox, oy, x, y),
                at(old(cells)@, x, y),
            ),
{
    let ghost choice = slot_choice((slot_x, slot_y), anchor, world_seed, tier, wall_world_polygon@, slot_tags@, catalog.pools@);
    let (prefab, (a, b, c, d)) = match slot_prefab_footprint(
        slot_x,
        slot_y,
        anchor,
        world_seed,
        tier,
        wall_world_polygon,
        slot_tags,
        catalog,
    ) {
        Some(found) => found,
        None => return,
    };
    let ghost bx = (a as int, b as int, c as int, d as int);
    assert(choice == Some((*prefab, bx)));
    proof {
        lemma_slot_box_bounds((slot_x, slot_y), anchor, world_seed, *prefab);
    }
    // A building crossing a street is not stamped.
    if crosses_street(street_cells, a, b, c, d) {
        return;
    }
    assert(!street_blocked(bx, street_cells@));
    proof {
        lemma_world_at(ox, oy);
    }
    // The footprint's part in this chunk.
    let cmin_x = if a > ox { a } else { ox };
    let cmin_y = if b > oy { b } else { oy };
    let cmax_x = if c < ox + 39 { c } else { ox + 39 };
    let cmax_y = if d < oy + 29 { d } else { oy + 29 };
    if cmin_x > cmax_x || cmin_y > cmax_y {
        proof {
            assert forall|x: int, y: int| in_chunk(x, y) implies #[trigger] at(cells@, x, y) == slot_cell(
                choice,
                street_cells@,
                tags.tags@,
                world_at(ox, oy, x, y),
                at(old(cells)@, x, y),
            ) by {}
        }
        return;
    }
    let mut wy = cmin_y;
    while wy <= cmax_y
        invariant
            cmin_y <= wy <= cmax_y + 1,
            cells@.len() == CHUNK_CELLS,
            origin_ok(ox, oy),
            a <= cmin_x <= cmax_x <= c,
            b <= cmin_y <= cmax_y <= d,
            ox <= cmin_x && cmax_x <= ox + 39,
            oy <= cmin_y && cmax_y <= oy + 29,
            cmin_x == a || cmin_x == ox,
            cmax_x == c || cmax_x == ox + 39,
            choice == Some((*prefab, bx)),
            bx == (a as int, b as int, c as int, d as int),
            !street_blocked(bx, street_cells@),
            c - a < 0x10000,
            d - b < 0x10000,
            -0x400_0000_0000 <= a <= 0x400_0000_0000,
            -0x400_0000_0000 <= b <= 0x400_0000_0000,
            forall|x: int, y: int|
                in_chunk(x, y) ==> (#[trigger] world_at(ox, oy, x, y)).0 == ox + x && world_at(ox, oy, x, y).1
                    == oy + y,
            forall|x: int, y: int|
                in_chunk(x, y) ==> #[trigger] at(cells@, x, y) == if oy + y < wy {
                    slot_cell(choice, street_cells@, tags.tags@, world_at(ox, oy, x, y), at(old(cells)@, x, y))
                } else {
                    at(old(cells)@, x, y)
                },
        decreases cmax_y + 1 - wy,
    {
        let mut wx = cmin_x;
        while wx <= cmax_x
            invariant
                cmin_y <= wy <= cmax_y,
                cmin_x <= wx <= cmax_x + 1,
                cells@.len() == CHUNK_CELLS,
                origin_ok(ox, oy),
                a <= cmin_x <= cmax_x <= c,
                b <= cmin_y <= cmax_y <= d,
                ox <= cmin_x && cmax_x <= ox + 39,
                oy <= cmin_y && cmax_y <= oy + 29,
                cmin_x == a || cmin_x == ox,
                cmax_x == c || cmax_x == ox + 39,
                choice == Some((*prefab, bx)),
                bx == (a as int, b as int, c as int, d as int),
                !street_blocked(bx, street_cells@),
                c - a < 0x10000,
                d - b < 0x10000,
                -0x400_0000_0000 <= a <= 0x400_0000_0000,
                -0x400_0000_0000 <= b <= 0x400_0000_0000,
                forall|x: int, y: int|
                    in_chunk(x, y) ==> (#[trigger] world_at(ox, oy, x, y)).0 == ox + x && world_at(ox, oy, x, y).1
                        == oy + y,
                forall|x: int, y: int|
                    in_chunk(x, y) ==> #[trigger] at(cells@, x, y) == if oy + y < wy || (oy + y == wy && cmin_x <= ox
                        + x < wx) {
                        slot_cell(choice, street_cells@, tags.tags@, world_at(ox, oy, x, y), at(old(cells)@, x, y))
                    } else {
                        at(old(cells)@, x, y)
                    },
            decreases cmax_x + 1 - wx,
        {
            let lx = (wx - ox) as usize;
            let ly = (wy - oy) as usize;
            proof {
                lemma_cell_index(lx as int, ly as int, lx as int, ly as int);
                assert(world_at(ox, oy, lx as int, ly as int) == (wx, wy));
            }
            let px = (wx - a) as u16;
            let py = (wy - b) as u16;
            let idx = ly * (CHUNK_W as usize) + lx;
            match prefab.cell_at(px, py, tags) {
                Some(t) => {
                    if cells[idx].terrain == TerrainKind::Grass {
                        set_terrain(cells, lx, ly, t);
                    }
                },
                None => {},
            }
            wx += 1;
        }
        proof {
            assert forall|x: int, y: int| in_chunk(x, y) implies #[trigger] at(cells@, x, y) == if oy + y < wy + 1 {
                slot_cell(choice, street_cells@, tags.tags@, world_at(ox, oy, x, y), at(old(cells)@, x, y))
            } else {
                at(old(cells)@, x, y)
            } by {
                if oy + y == wy && !(cmin_x <= ox + x < wx) {
                    assert(!(bx.0 <= ox + x <= bx.2));
                }
            }
        }
        wy += 1;
    }
    proof {
        assert forall|x: int, y: int| in_chunk(x, y) implies #[trigger] at(cells@, x, y) == slot_cell(
            choice,
            street_cells@,
            tags.tags@,
            world_at(ox, oy, x, y),
            at(old(cells)@, x, y),
        ) by {
            if !(oy + y < wy) {
                assert(!(bx.1 <= oy + y <= bx.3 && bx.0 <= ox + x <= bx.2 && cmin_y <= oy + y <= cmax_y));
            }
        }
    }
}

/// Cell `cell` at world cell `w` after the house slots of row `sy` from
/// column `sx_lo` to `sx_hi` are stamped in turn.
pub open spec fn fold_row(
    sy: int,
    sx_lo: int,
    sx_hi: int,
    anchor: (i64, i64),
    seed: u64,
    tier: CityTier,
    poly: Seq<(i64, i64)>,
    tags: Map<u128, Vec<(String, u32)>>,
    pools: Seq<((String, CityTier), Vec<Prefab>)>,
    streets: Set<u128>,
    roles: Seq<(String, TagRole)>,
    w: (i64, i64),
    cell: CellState,
) -> CellState
    decreases sx_hi - sx_lo + 1,
{
    if sx_hi < sx_lo {
        cell
    } else {
        slot_cell(
            slot_choice((sx_hi as i64, sy as i64), anchor, seed, tier, poly, tags, pools),
            streets,
            roles,
            w,
            fold_row(sy, sx_lo, sx_hi - 1, anchor, seed, tier, poly, tags, pools, streets, roles, w, cell),
        )
    }
}

/// Cell `cell` at world cell `w` after the house slots of rows `sy_lo`
/// to `sy_hi`, columns `sx_lo` to `sx_hi`, are stamped row by row.
pub open spec fn fold_rows(
    sy_lo: int,
    sy_hi: int,
    sx_lo: int,
    sx_hi: int,
    anchor: (i64, i64),
    seed: u64,
    tier: CityTier,
    poly: Seq<(i64, i64)>,
    tags: Map<u128, Vec<(String, u32)>>,
    pools: Seq<((String, CityTier), Vec<Prefab>)>,
    streets: Set<u128>,
    roles: Seq<(String, TagRole)>,
    w: (i64, i64),
    cell: CellState,
) -> CellState
    decreases sy_hi - sy_lo + 1,
{
    if sy_hi < sy_lo {
        cell
    } else {
        fold_row(
            sy_hi,
            sx_lo,
            sx_hi,
            anchor,
            seed,
            tier,
            poly,
            tags,
            pools,
            streets,
            roles,
            w,
            fold_rows(sy_lo, sy_hi - 1, sx_lo, sx_hi, anchor, seed, tier, poly, tags, pools, streets, roles, w, cell),
        )
    }
}

/// First slot column (or row) whose building can reach a chunk edge at
/// `o`, for an anchor coordinate `a`: one slot before the slot of `o`.
pub open spec fn slot_lo(o: int, a: int) -> int {
    (o - a) / (HOUSE_PITCH as int) - 1
}

/// Last slot column (or row) whose building can reach a chunk edge at
/// `o`: one slot after the slot of `o`.
pub open spec fn slot_hi(o: int, a: int) -> int {
    (o - a) / (HOUSE_PITCH as int) + 1
}

impl City {
    /// Stamps the house slots around the chunk whose corner is
    /// `(ox, oy)`, row by row: every slot from one before the chunk's
    /// first to one after its last, so buildings straddling chunks come
    /// out the same in each.
    pub fn stamp_block_fill(
        &self,
        anchor: (i64, i64),
        world_seed: u64,
        wall_world_polygon: &[(i64, i64)],
        street_cells: &HashSet<u128>,
        slot_tags: &HashMap<u128, Vec<(String, u32)>>,
        catalog: &BuildingCatalog,
        tags: &TagCatalog,
        ox: i64,
        oy: i64,
        cells: &mut Vec<CellState>,
    )
        requires
            old(cells)@.len() == CHUNK_CELLS,
            origin_ok(ox, oy),
            within(anchor, CITY_REACH as int),
            all_within(wall_world_polygon@, WIDE_BOUND as int),
            weights_fit(catalog.pools@),
            tag_weights_fit(slot_tags@),
        ensures
            final(cells)@.len() == CHUNK_CELLS,
            forall|x: int, y: int|
                in_chunk(x, y) ==> #[trigger] at(final(cells)@, x, y) == fold_rows(
                    slot_lo(oy as int, anchor.1 as int),
                    slot_hi(oy + 29, anchor.1 as int),
                    slot_lo(ox as int, anchor.0 as int),
                    slot_hi(ox + 39, anchor.0 as int),
                    anchor,
                    world_seed,
                    self.tier,
                    wall_world_polygon@,
                    slot_tags@,
                    catalog.pools@,
                    street_cells@,
                    tags.tags@,
                    world_at(ox, oy, x, y),
                    at(old(cells)@, x, y),
                ),
    {
        let smin_x = crate::geometry::floor_div_i64(ox - anchor.0, HOUSE_PITCH) - 1;
        let smin_y = crate::geometry::floor_div_i64(oy - anchor.1, HOUSE_PITCH) - 1;
        let smax_x = crate::geometry::floor_div_i64(ox + 39 - anchor.0, HOUSE_PITCH) + 1;
        let smax_y = crate::geometry::floor_div_i64(oy + 29 - anchor.1, HOUSE_PITCH) + 1;
        let ghost pools = catalog.pools@;
        let mut sy = smin_y;
        while sy <= smax_y
            invariant
                smin_y <= sy <= smax_y + 1,
                -SLOT_REACH <= smin_x <= smax_x <= SLOT_REACH,
                -SLOT_REACH <= smin_y <= smax_y <= SLOT_REACH,
                smin_x == slot_lo(ox as int, anchor.0 as int),
                smax_x == slot_hi(ox + 39, anchor.0 as int),
                smin_y == slot_lo(oy as int, anchor.1 as int),
                smax_y == slot_hi(oy + 29, anchor.1 as int),
                cells@.len() == CHUNK_CELLS,
                origin_ok(ox, oy),
                within(anchor, CITY_REACH as int),
                all_within(wall_world_polygon@, WIDE_BOUND as int),
                weights_fit(catalog.pools@),
                tag_weights_fit(slot_tags@),
                forall|x: int, y: int|
                    in_chunk(x, y) ==> #[trigger] at(cells@, x, y) == fold_rows(
                        smin_y as int,
                        sy - 1,
                        smin_x as int,
                        smax_x as int,
                        anchor,
                        world_seed,
                        self.tier,
                        wall_world_polygon@,
                        slot_tags@,
                        catalog.pools@,
                        street_cells@,
                        tags.tags@,
                        world_at(ox, oy, x, y),
                        at(old(cells)@, x, y),
                    ),
            decreases smax_y + 1 - sy,
        {
            let ghost row_start = cells@;
            let mut sx = smin_x;
            while sx <= smax_x
                invariant
                    smin_y <= sy <= smax_y,
                    smin_x <= sx <= smax_x + 1,
                    -SLOT_REACH <= smin_x <= smax_x <= SLOT_REACH,
                    -SLOT_REACH <= smin_y <= smax_y <= SLOT_REACH,
                    cells@.len() == CHUNK_CELLS,
                    origin_ok(ox, oy),
                    within(anchor, CITY_REACH as int),
                    all_within(wall_world_polygon@, WIDE_BOUND as int),
                    weights_fit(catalog.pools@),
                    tag_weights_fit(slot_tags@),
                    row_start.len() == CHUNK_CELLS,
                    forall|x: int, y: int|
                        in_chunk(x, y) ==> #[trigger] at(cells@, x, y) == fold_row(
                            sy as int,
                            smin_x as int,
                            sx - 1,
                            anchor,
                            world_seed,
                            self.tier,
                            wall_world_polygon@,
                            slot_tags@,
                            catalog.pools@,
                            street_cells@,
                            tags.tags@,
                            world_at(ox, oy, x, y),
                            at(row_start, x, y),
                        ),
                decreases smax_x + 1 - sx,
            {
                stamp_one_prefab_slot(
                    sx,
                    sy,
                    anchor,
                    world_seed,
                    self.tier,
                    wall_world_polygon,
                    street_cells,
                    slot_tags,
                    catalog,
                    tags,
                    ox,
                    oy,
                    cells,
                );
                sx += 1;
            }
            sy += 1;
        }
    }
}

/// `c` stamped with terrain `t`: no tree, no undergrowth, the rest kept.
pub open spec fn stamp_fn(c: CellState, t: TerrainKind) -> CellState {
    CellState { terrain: t, tree_species: None, decoration: Decoration::Bare, ..c }
}

/// Cells `a` and `b` agree on terrain, species, undergrowth and ground
/// cover, whatever lies on them.
pub open spec fn same_core(a: CellState, b: CellState) -> bool {
    a.terrain == b.terrain && a.tree_species == b.tree_species && a.decoration == b.decoration && a.ground_cover
        == b.ground_cover
}

proof fn lemma_fold_row_core(
    sy: int,
    sx_lo: int,
    sx_hi: int,
    anchor: (i64, i64),
    seed: u64,
    tier: CityTier,
    poly: Seq<(i64, i64)>,
    tags: Map<u128, Vec<(String, u32)>>,
    pools: Seq<((String, CityTier), Vec<Prefab>)>,
    streets: Set<u128>,
    roles: Seq<(String, TagRole)>,
    w: (i64, i64),
    a: CellState,
    b: CellState,
)
    requires
        same_core(a, b),
    ensures
        same_core(
            fold_row(sy, sx_lo, sx_hi, anchor, seed, tier, poly, tags, pools, streets, roles, w, a),
            fold_row(sy, sx_lo, sx_hi, anchor, seed, tier, poly, tags, pools, streets, roles, w, b),
        ),
        fold_row(sy, sx_lo, sx_hi, anchor, seed, tier, poly, tags, pools, streets, roles, w, b).items == b.items,
    decreases sx_hi - sx_lo + 1,
{
    if sx_hi >= sx_lo {
        lemma_fold_row_core(sy, sx_lo, sx_hi - 1, anchor, seed, tier, poly, tags, pools, streets, roles, w, a, b);
    }
}

proof fn lemma_fold_rows_core(
    sy_lo: int,
    sy_hi: int,
    sx_lo: int,
    sx_hi: int,
    anchor: (i64, i64),
    seed: u64,
    tier: CityTier,
    poly: Seq<(i64, i64)>,
    tags: Map<u128, Vec<(String, u32)>>,
    pools: Seq<((String, CityTier), Vec<Prefab>)>,
    streets: Set<u128>,
    roles: Seq<(String, TagRole)>,
    w: (i64, i64),
    a: CellState,
    b: CellState,
)
    requires
        same_core(a, b),
    ensures
        same_core(
            fold_rows(sy_lo, sy_hi, sx_lo, sx_hi, anchor, seed, tier, poly, tags, pools, streets, roles, w, a),
            fold_rows(sy_lo, sy_hi, sx_lo, sx_hi, anchor, seed, tier, poly, tags, pools, streets, roles, w, b),
        ),
        fold_rows(sy_lo, sy_hi, sx_lo, sx_hi, anchor, seed, tier, poly, tags, pools, streets, roles, w, b).items
            == b.items,
    decreases sy_hi - sy_lo + 1,
{
    if sy_hi >= sy_lo {
        lemma_fold_rows_core(sy_lo, sy_hi - 1, sx_lo, sx_hi, anchor, seed, tier, poly, tags, pools, streets, roles, w, a, b);
        lemma_fold_row_core(
            sy_hi,
            sx_lo,
            sx_hi,
            anchor,
            seed,
            tier,
            poly,
            tags,
            pools,
            streets,
            roles,
            w,
            fold_rows(sy_lo, sy_hi - 1, sx_lo, sx_hi, anchor, seed, tier, poly, tags, pools, streets, roles, w, a),
            fold_rows(sy_lo, sy_hi - 1, sx_lo, sx_hi, anchor, seed, tier, poly, tags, pools, streets, roles, w, b),
        );
    }
}

/// A landmark of kind `kind` among the first `n` covers world cell `w`.
pub open spec fn landmark_covers(ls: Seq<Landmark>, anchor: (i64, i64), kind: LandmarkKind, n: int, w: (i64, i64)) -> bool {
    exists|l: int| 0 <= l < n && (#[trigger] ls[l]).kind == kind && in_footprint(ls[l].footprint, anchor, ipt(w))
}

/// The chunk whose corner is `(ox, oy)` meets the wall's box, so the
/// wall's inside is cleared and its house slots filled there.
pub open spec fn wall_reaches(wall_bbox: (i64, i64, i64, i64), ox: i64, oy: i64) -> bool {
    rects_meet(wall_bbox, (ox, oy, (ox + 39) as i64, (oy + 29) as i64))
}

/// Terrain, species, undergrowth and ground cover a city leaves on the
/// cell at world cell `w`, whose state was `o`: cleared inside the wall
/// (where the wall's box meets the chunk), then paved under streets, then
/// paved and stone landmarks, then the wall's stones, then the house
/// slots' buildings (where the wall's box meets the chunk).
pub open spec fn city_cell(
    city: &City,
    anchor: (i64, i64),
    seed: u64,
    poly: Seq<(i64, i64)>,
    wall_bbox: (i64, i64, i64, i64),
    streets: Set<u128>,
    tags: Map<u128, Vec<(String, u32)>>,
    pools: Seq<((String, CityTier), Vec<Prefab>)>,
    roles: Seq<(String, TagRole)>,
    ox: i64,
    oy: i64,
    w: (i64, i64),
    o: CellState,
) -> CellState {
    let reach = wall_reaches(wall_bbox, ox, oy);
    let c1 = if reach && inside_wall(poly, wall_bbox, w) {
        CellState {
            terrain: if o.terrain == TerrainKind::TreeTrunk {
                TerrainKind::Grass
            } else {
                o.terrain
            },
            tree_species: None,
            decoration: Decoration::Bare,
            ground_cover: GroundCover::Bare,
            ..o
        }
    } else {
        o
    };
    let c2 = if on_streets(city.streets@, anchor, city.streets@.len() as int, ipt(w)) {
        stamp_fn(c1, TerrainKind::CobbleRoad)
    } else {
        c1
    };
    let c3 = if landmark_covers(city.landmarks@, anchor, LandmarkKind::PavedArea, city.landmarks@.len() as int, w) {
        stamp_fn(c2, TerrainKind::CobbleRoad)
    } else {
        c2
    };
    let c4 = if landmark_covers(city.landmarks@, anchor, LandmarkKind::StoneMass, city.landmarks@.len() as int, w) {
        stamp_fn(c3, TerrainKind::StoneWall)
    } else {
        c3
    };
    let c5 = if wall_stone(city, anchor, w) {
        stamp_fn(c4, TerrainKind::StoneWall)
    } else {
        c4
    };
    if reach {
        fold_rows(
            slot_lo(oy as int, anchor.1 as int),
            slot_hi(oy + 29, anchor.1 as int),
            slot_lo(ox as int, anchor.0 as int),
            slot_hi(ox + 39, anchor.0 as int),
            anchor,
            seed,
            city.tier,
            poly,
            tags,
            pools,
            streets,
            roles,
            w,
            c5,
        )
    } else {
        c5
    }
}

/// A cell carries a species only when it is a tree trunk.
pub open spec fn species_only_on_trunk(c: CellState) -> bool {
    c.tree_species is Some ==> c.terrain == TerrainKind::TreeTrunk
}

/// A cell is a tree trunk exactly when it carries a species.
pub open spec fn trunk_tagged(c: CellState) -> bool {
    c.terrain == TerrainKind::TreeTrunk <==> c.tree_species is Some
}

/// No legacy palette of prefab `p` stamps a tree trunk.
pub open spec fn no_trunk_palette(p: Prefab) -> bool {
    forall|k: u32| #[trigger] p.palette@.contains_key(k) ==> p.palette@[k] != TerrainKind::TreeTrunk
}

/// No prefab of the catalog stamps a tree trunk.
pub open spec fn no_trunk_pools(pools: Seq<((String, CityTier), Vec<Prefab>)>) -> bool {
    forall|i: int, j: int|
        0 <= i < pools.len() && 0 <= j < pools[i].1@.len() ==> no_trunk_palette(#[trigger] pools[i].1@[j])
}

proof fn lemma_pool_pos_bound(pools: Seq<((String, CityTier), Vec<Prefab>)>, tag: Seq<char>, tier: CityTier)
    ensures
        0 <= pool_pos(pools, tag, tier) <= pools.len(),
    decreases pools.len(),
{
    if pools.len() > 0 && !(pools[0].0.0@ == tag && pools[0].0.1 == tier) {
        lemma_pool_pos_bound(pools.drop_first(), tag, tier);
    }
}

proof fn lemma_variant_index_in(pool: Seq<Prefab>, roll: int, k: int)
    requires
        0 <= k <= pool.len(),
        pool_weight(pool, k) <= roll < pool_weight(pool, pool.len() as int),
    ensures
        k <= variant_index(pool, roll, k) < pool.len(),
    decreases pool.len() - k,
{
    if k < pool.len() && roll >= pool_weight(pool, k + 1) {
        lemma_variant_index_in(pool, roll, k + 1);
    }
}

proof fn lemma_variant_pick_no_trunk(
    pools: Seq<((String, CityTier), Vec<Prefab>)>,
    tag: Seq<char>,
    tier: CityTier,
    h: u64,
)
    requires
        no_trunk_pools(pools),
    ensures
        variant_pick(pools, tag, tier, h) matches Some(p) ==> no_trunk_palette(p),
{
    let i = pool_pos(pools, tag, tier);
    lemma_pool_pos_bound(pools, tag, tier);
    if i < pools.len() {
        let pool = pools[i].1@;
        let total = pool_weight(pool, pool.len() as int);
        if pool.len() > 0 && total != 0 {
            assert(pool_weight(pool, 0) == 0);
            assert(0 <= (h as int) % total < total) by {
                lemma_pool_weight_nonneg(pool, pool.len() as int);
            }
            lemma_variant_index_in(pool, (h as int) % total, 0);
            let j = variant_index(pool, (h as int) % total, 0);
            assert(no_trunk_palette(pools[i].1@[j]));
        }
    }
}

proof fn lemma_pool_weight_nonneg(pool: Seq<Prefab>, n: int)
    ensures
        pool_weight(pool, n) >= 0,
    decreases n,
{
    if n > 0 {
        lemma_pool_weight_nonneg(pool, n - 1);
    }
}

proof fn lemma_slot_cell_tags(
    choice: Option<(Prefab, (int, int, int, int))>,
    streets: Set<u128>,
    roles: Seq<(String, TagRole)>,
    w: (i64, i64),
    cell: CellState,
)
    ensures
        species_only_on_trunk(cell) ==> species_only_on_trunk(slot_cell(choice, streets, roles, w, cell)),
        trunk_tagged(cell) && (choice matches Some((p, b)) ==> no_trunk_palette(p)) ==> trunk_tagged(
            slot_cell(choice, streets, roles, w, cell),
        ),
{
    if let Some((p, b)) = choice {
        let t = prefab_cell(&p, roles, w.0 - b.0, w.1 - b.1);
        if no_trunk_palette(p) {
            if let Some(tt) = t {
                match layer_char(p.grid@, w.0 - b.0, w.1 - b.1) {
                    Some(ch) => {
                        if p.palette@.contains_key(ch as u32) {
                            assert(p.palette@[ch as u32] != TerrainKind::TreeTrunk);
                        }
                    },
                    None => {},
                }
            }
        }
    }
}

proof fn lemma_fold_row_tags(
    sy: int,
    sx_lo: int,
    sx_hi: int,
    anchor: (i64, i64),
    seed: u64,
    tier: CityTier,
    poly: Seq<(i64, i64)>,
    tags: Map<u128, Vec<(String, u32)>>,
    pools: Seq<((String, CityTier), Vec<Prefab>)>,
    streets: Set<u128>,
    roles: Seq<(String, TagRole)>,
    w: (i64, i64),
    cell: CellState,
)
    ensures
        species_only_on_trunk(cell) ==> species_only_on_trunk(
            fold_row(sy, sx_lo, sx_hi, anchor, seed, tier, poly, tags, pools, streets, roles, w, cell),
        ),
        trunk_tagged(cell) && no_trunk_pools(pools) ==> trunk_tagged(
            fold_row(sy, sx_lo, sx_hi, anchor, seed, tier, poly, tags, pools, streets, roles, w, cell),
        ),
    decreases sx_hi - sx_lo + 1,
{
    if sx_hi >= sx_lo {
        lemma_fold_row_tags(sy, sx_lo, sx_hi - 1, anchor, seed, tier, poly, tags, pools, streets, roles, w, cell);
        let slot = (sx_hi as i64, sy as i64);
        let prev = fold_row(sy, sx_lo, sx_hi - 1, anchor, seed, tier, poly, tags, pools, streets, roles, w, cell);
        let choice = slot_choice(slot, anchor, seed, tier, poly, tags, pools);
        lemma_slot_cell_tags(choice, streets, roles, w, prev);
        if no_trunk_pools(pools) {
            match slot_tag(slot, seed, tags) {
                None => {},
                Some(t) => {
                    let h = hash3_spec(slot.0 as u64, slot.1 as u64, seed ^ VARIANT_SEED_SALT);
                    lemma_variant_pick_no_trunk(pools, t, tier, h);
                    lemma_variant_pick_no_trunk(pools, "house"@, tier, h);
                },
            }
        }
    }
}

proof fn lemma_fold_rows_tags(
    sy_lo: int,
    sy_hi: int,
    sx_lo: int,
    sx_hi: int,
    anchor: (i64, i64),
    seed: u64,
    tier: CityTier,
    poly: Seq<(i64, i64)>,
    tags: Map<u128, Vec<(String, u32)>>,
    pools: Seq<((String, CityTier), Vec<Prefab>)>,
    streets: Set<u128>,
    roles: Seq<(String, TagRole)>,
    w: (i64, i64),
    cell: CellState,
)
    ensures
        species_only_on_trunk(cell) ==> species_only_on_trunk(
            fold_rows(sy_lo, sy_hi, sx_lo, sx_hi, anchor, seed, tier, poly, tags, pools, streets, roles, w, cell),
        ),
        trunk_tagged(cell) && no_trunk_pools(pools) ==> trunk_tagged(
            fold_rows(sy_lo, sy_hi, sx_lo, sx_hi, anchor, seed, tier, poly, tags, pools, streets, roles, w, cell),
        ),
    decreases sy_hi - sy_lo + 1,
{
    if sy_hi >= sy_lo {
        lemma_fold_rows_tags(sy_lo, sy_hi - 1, sx_lo, sx_hi, anchor, seed, tier, poly, tags, pools, streets, roles, w, cell);
        let prev = fold_rows(sy_lo, sy_hi - 1, sx_lo, sx_hi, anchor, seed, tier, poly, tags, pools, streets, roles, w, cell);
        lemma_fold_row_tags(sy_hi, sx_lo, sx_hi, anchor, seed, tier, poly, tags, pools, streets, roles, w, prev);
    }
}

/// Stamping a city gives no cell a species without a trunk; with no
/// prefab of the catalog stamping a trunk, a cell stays a trunk exactly
/// when it keeps a species.
pub proof fn lemma_city_cell_tags(
    city: &City,
    anchor: (i64, i64),
    seed: u64,
    poly: Seq<(i64, i64)>,
    wall_bbox: (i64, i64, i64, i64),
    streets: Set<u128>,
    tags: Map<u128, Vec<(String, u32)>>,
    pools: Seq<((String, CityTier), Vec<Prefab>)>,
    roles: Seq<(String, TagRole)>,
    ox: i64,
    oy: i64,
    w: (i64, i64),
    o: CellState,
)
    ensures
        species_only_on_trunk(o) ==> species_only_on_trunk(
            city_cell(city, anchor, seed, poly, wall_bbox, streets, tags, pools, roles, ox, oy, w, o),
        ),
        trunk_tagged(o) && no_trunk_pools(pools) ==> trunk_tagged(
            city_cell(city, anchor, seed, poly, wall_bbox, streets, tags, pools, roles, ox, oy, w, o),
        ),
{
    let reach = wall_reaches(wall_bbox, ox, oy);
    let c1 = if reach && inside_wall(poly, wall_bbox, w) {
        CellState {
            terrain: if o.terrain == TerrainKind::TreeTrunk {
                TerrainKind::Grass
            } else {
                o.terrain
            },
            tree_species: None,
            decoration: Decoration::Bare,
            ground_cover: GroundCover::Bare,
            ..o
        }
    } else {
        o
    };
    let c2 = if on_streets(city.streets@, anchor, city.streets@.len() as int, ipt(w)) {
        stamp_fn(c1, TerrainKind::CobbleRoad)
    } else {
        c1
    };
    let c3 = if landmark_covers(city.landmarks@, anchor, LandmarkKind::PavedArea, city.landmarks@.len() as int, w) {
        stamp_fn(c2, TerrainKind::CobbleRoad)
    } else {
        c2
    };
    let c4 = if landmark_covers(city.landmarks@, anchor, LandmarkKind::StoneMass, city.landmarks@.len() as int, w) {
        stamp_fn(c3, TerrainKind::StoneWall)
    } else {
        c3
    };
    let c5 = if wall_stone(city, anchor, w) {
        stamp_fn(c4, TerrainKind::StoneWall)
    } else {
        c4
    };
    lemma_fold_rows_tags(
        slot_lo(oy as int, anchor.1 as int),
        slot_hi(oy + 29, anchor.1 as int),
        slot_lo(ox as int, anchor.0 as int),
        slot_hi(ox + 39, anchor.0 as int),
        anchor,
        seed,
        city.tier,
        poly,
        tags,
        pools,
        streets,
        roles,
        w,
        c5,
    );
}

/// Stamping respects cores: cells that agree on terrain, species,
/// undergrowth and ground cover still agree after `city_cell`.
pub proof fn lemma_city_cell_core(
    city: &City,
    anchor: (i64, i64),
    seed: u64,
    poly: Seq<(i64, i64)>,
    wall_bbox: (i64, i64, i64, i64),
    streets: Set<u128>,
    tags: Map<u128, Vec<(String, u32)>>,
    pools: Seq<((String, CityTier), Vec<Prefab>)>,
    roles: Seq<(String, TagRole)>,
    ox: i64,
    oy: i64,
    w: (i64, i64),
    a: CellState,
    b: CellState,
)
    requires
        same_core(a, b),
    ensures
        same_core(
            city_cell(city, anchor, seed, poly, wall_bbox, streets, tags, pools, roles, ox, oy, w, a),
            city_cell(city, anchor, seed, poly, wall_bbox, streets, tags, pools, roles, ox, oy, w, b),
        ),
{
    let reach = wall_reaches(wall_bbox, ox, oy);
    let c1a = if reach && inside_wall(poly, wall_bbox, w) {
        CellState {
            terrain: if a.terrain == TerrainKind::TreeTrunk {
                TerrainKind::Grass
            } else {
                a.terrain
            },
            tree_species: None,
            decoration: Decoration::Bare,
            ground_cover: GroundCover::Bare,
            ..a
        }
    } else {
        a
    };
    let c1b = if reach && inside_wall(poly, wall_bbox, w) {
        CellState {
            terrain: if b.terrain == TerrainKind::TreeTrunk {
                TerrainKind::Grass
            } else {
                b.terrain
            },
            tree_species: None,
            decoration: Decoration::Bare,
            ground_cover: GroundCover::Bare,
            ..b
        }
    } else {
        b
    };
    let st = on_streets(city.streets@, anchor, city.streets@.len() as int, ipt(w));
    let pv = landmark_covers(city.landmarks@, anchor, LandmarkKind::PavedArea, city.landmarks@.len() as int, w);
    let sm = landmark_covers(city.landmarks@, anchor, LandmarkKind::StoneMass, city.landmarks@.len() as int, w);
    let ws = wall_stone(city, anchor, w);
    let c2a = if st { stamp_fn(c1a, TerrainKind::CobbleRoad) } else { c1a };
    let c2b = if st { stamp_fn(c1b, TerrainKind::CobbleRoad) } else { c1b };
    let c3a = if pv { stamp_fn(c2a, TerrainKind::CobbleRoad) } else { c2a };
    let c3b = if pv { stamp_fn(c2b, TerrainKind::CobbleRoad) } else { c2b };
    let c4a = if sm { stamp_fn(c3a, TerrainKind::StoneWall) } else { c3a };
    let c4b = if sm { stamp_fn(c3b, TerrainKind::StoneWall) } else { c3b };
    let c5a = if ws { stamp_fn(c4a, TerrainKind::StoneWall) } else { c4a };
    let c5b = if ws { stamp_fn(c4b, TerrainKind::StoneWall) } else { c4b };
    assert(same_core(c5a, c5b));
    lemma_fold_rows_core(
        slot_lo(oy as int, anchor.1 as int),
        slot_hi(oy + 29, anchor.1 as int),
        slot_lo(ox as int, anchor.0 as int),
        slot_hi(ox + 39, anchor.0 as int),
        anchor,
        seed,
        city.tier,
        poly,
        tags,
        pools,
        streets,
        roles,
        w,
        c5a,
        c5b,
    );
}

impl City {
    /// Stamps the city, anchored at `anchor`, into the cells of chunk
    /// `coord` (see `city_cell`); what lies on a cell is swept away
    /// exactly where its countryside is cleared.
    pub fn stamp_into_chunk_with_seed(
        &self,
        coord: ChunkCoord,
        cells: &mut Vec<CellState>,
        anchor: (i64, i64),
        world_seed: u64,
        wall_world_polygon: &[(i64, i64)],
        wall_bbox: (i64, i64, i64, i64),
        street_cells: &HashSet<u128>,
        slot_tags: &HashMap<u128, Vec<(String, u32)>>,
        catalog: &BuildingCatalog,
        tags: &TagCatalog,
    )
        requires
            old(cells)@.len() == CHUNK_CELLS,
            self.fits(anchor),
            all_within(wall_world_polygon@, WIDE_BOUND as int),
            weights_fit(catalog.pools@),
            tag_weights_fit(slot_tags@),
        ensures
            final(cells)@.len() == CHUNK_CELLS,
            forall|x: int, y: int|
                in_chunk(x, y) ==> {
                    let ox = (coord.cx * 40) as i64;
                    let oy = (coord.cy * 30) as i64;
                    let w = world_at(ox, oy, x, y);
                    let o = at(old(cells)@, x, y);
                    let n = #[trigger] at(final(cells)@, x, y);
                    &&& same_core(
                        n,
                        city_cell(
                            self,
                            anchor,
                            world_seed,
                            wall_world_polygon@,
                            wall_bbox,
                            street_cells@,
                            slot_tags@,
                            catalog.pools@,
                            tags.tags@,
                            ox,
                            oy,
                            w,
                            o,
                        ),
                    )
                    &&& n.items@ == if wall_reaches(wall_bbox, ox, oy) && inside_wall(wall_world_polygon@, wall_bbox, w) {
                        Seq::empty()
                    } else {
                        o.items@
                    }
                },
    {
        let ox = coord.cx as i64 * CHUNK_W as i64;
        let oy = coord.cy as i64 * CHUNK_H as i64;
        let reach = rect_intersects(wall_bbox, (ox, oy, ox + CHUNK_W as i64 - 1, oy + CHUNK_H as i64 - 1));
        let ghost s0 = cells@;
        // Pass 0: sweep the countryside from inside the wall.
        if reach {
            self.clear_natural_layer_inside_wall(wall_world_polygon, wall_bbox, ox, oy, cells);
        }
        let ghost s1 = cells@;
        // Pass 1: streets.
        let mut i: usize = 0;
        while i < self.streets.len()
            invariant
                i <= self.streets@.len(),
                self.fits(anchor),
                origin_ok(ox, oy),
                cells@.len() == CHUNK_CELLS,
                s1.len() == CHUNK_CELLS,
                forall|x: int, y: int|
                    in_chunk(x, y) ==> if on_streets(self.streets@, anchor, i as int, ipt(world_at(ox, oy, x, y))) {
                        stamped(at(s1, x, y), #[trigger] at(cells@, x, y), TerrainKind::CobbleRoad)
                    } else {
                        at(cells@, x, y) == at(s1, x, y)
                    },
            decreases self.streets@.len() - i,
        {
            proof {
                assert(all_within(self.streets@[i as int].polyline@, CITY_REACH as int));
            }
            self.stamp_street(&self.streets[i], anchor, ox, oy, cells);
            proof {
                assert forall|x: int, y: int| in_chunk(x, y) implies if on_streets(
                    self.streets@,
                    anchor,
                    i + 1,
                    ipt(world_at(ox, oy, x, y)),
                ) {
                    stamped(at(s1, x, y), #[trigger] at(cells@, x, y), TerrainKind::CobbleRoad)
                } else {
                    at(cells@, x, y) == at(s1, x, y)
                } by {
                    let c = ipt(world_at(ox, oy, x, y));
                    if street_covers(self.streets@[i as int], anchor, self.streets@[i as int].polyline@.len() - 1, c) {
                        assert(on_streets(self.streets@, anchor, i + 1, c));
                    } else if on_streets(self.streets@, anchor, i + 1, c) {
                        let s = choose|s: int|
                            0 <= s < i + 1 && street_covers(
                                #[trigger] self.streets@[s],
                                anchor,
                                self.streets@[s].polyline@.len() - 1,
                                c,
                            );
                        assert(on_streets(self.streets@, anchor, i as int, c));
                    }
                }
            }
            i += 1;
        }
        let ghost s2 = cells@;
        // Passes 2 and 3: paved landmarks, then stone ones.
        self.fill_landmarks(LandmarkKind::PavedArea, TerrainKind::CobbleRoad, anchor, ox, oy, cells);
        let ghost s3 = cells@;
        self.fill_landmarks(LandmarkKind::StoneMass, TerrainKind::StoneWall, anchor, ox, oy, cells);
        let ghost s4 = cells@;
        // Pass 4: the wall, gates left open, corners bridged.
        let stones = self.wall_stones(anchor);
        stamp_listed(cells, &stones, ox, oy, TerrainKind::StoneWall);
        let ghost s5 = cells@;
        // Pass 5: the house slots.
        if reach {
            self.stamp_block_fill(
                anchor,
                world_seed,
                wall_world_polygon,
                street_cells,
                slot_tags,
                catalog,
                tags,
                ox,
                oy,
                cells,
            );
        }
        proof {
            assert forall|x: int, y: int| in_chunk(x, y) implies {
                let w = world_at(ox, oy, x, y);
                let o = at(old(cells)@, x, y);
                let n = #[trigger] at(cells@, x, y);
                &&& same_core(
                    n,
                    city_cell(
                        self,
                        anchor,
                        world_seed,
                        wall_world_polygon@,
                        wall_bbox,
                        street_cells@,
                        slot_tags@,
                        catalog.pools@,
                        tags.tags@,
                        ox,
                        oy,
                        w,
                        o,
                    ),
                )
                &&& n.items@ == if wall_reaches(wall_bbox, ox, oy) && inside_wall(wall_world_polygon@, wall_bbox, w) {
                    Seq::empty()
                } else {
                    o.items@
                }
            } by {
                let w = world_at(ox, oy, x, y);
                let a0 = at(s0, x, y);
                let a1 = at(s1, x, y);
                let a2 = at(s2, x, y);
                let a3 = at(s3, x, y);
                let a4 = at(s4, x, y);
                let a5 = at(s5, x, y);
                let a6 = at(cells@, x, y);
                let clr = reach && inside_wall(wall_world_polygon@, wall_bbox, w);
                let c1 = if clr {
                    CellState {
                        terrain: if a0.terrain == TerrainKind::TreeTrunk {
                            TerrainKind::Grass
                        } else {
                            a0.terrain
                        },
                        tree_species: None,
                        decoration: Decoration::Bare,
                        ground_cover: GroundCover::Bare,
                        ..a0
                    }
                } else {
                    a0
                };
                assert(same_core(a1, c1));
                assert(a1.items@ == if clr { Seq::empty() } else { a0.items@ });
                let c2 = if on_streets(self.streets@, anchor, self.streets@.len() as int, ipt(w)) {
                    stamp_fn(c1, TerrainKind::CobbleRoad)
                } else {
                    c1
                };
                assert(same_core(a2, c2) && a2.items == a1.items);
                let c3 = if landmark_covers(self.landmarks@, anchor, LandmarkKind::PavedArea, self.landmarks@.len() as int, w) {
                    stamp_fn(c2, TerrainKind::CobbleRoad)
                } else {
                    c2
                };
                assert(same_core(a3, c3) && a3.items == a2.items);
                let c4 = if landmark_covers(self.landmarks@, anchor, LandmarkKind::StoneMass, self.landmarks@.len() as int, w) {
                    stamp_fn(c3, TerrainKind::StoneWall)
                } else {
                    c3
                };
                assert(same_core(a4, c4) && a4.items == a3.items);
                let c5 = if wall_stone(self, anchor, w) {
                    stamp_fn(c4, TerrainKind::StoneWall)
                } else {
                    c4
                };
                assert(listed(stones@, w) == wall_stone(self, anchor, w));
                assert(same_core(a5, c5) && a5.items == a4.items);
                if reach {
                    lemma_fold_rows_core(
                        slot_lo(oy as int, anchor.1 as int),
                        slot_hi(oy + 29, anchor.1 as int),
                        slot_lo(ox as int, anchor.0 as int),
                        slot_hi(ox + 39, anchor.0 as int),
                        anchor,
                        world_seed,
                        self.tier,
                        wall_world_polygon@,
                        slot_tags@,
                        catalog.pools@,
                        street_cells@,
                        tags.tags@,
                        w,
                        c5,
                        a5,
                    );
                }
            }
        }
    }

    /// Fills the chunk cells covered by landmarks of kind `kind` with
    /// `terrain`, landmark by landmark.
    fn fill_landmarks(
        &self,
        kind: LandmarkKind,
        terrain: TerrainKind,
        anchor: (i64, i64),
        ox: i64,
        oy: i64,
        cells: &mut Vec<CellState>,
    )
        requires
            old(cells)@.len() == CHUNK_CELLS,
            self.fits(anchor),
            origin_ok(ox, oy),
        ensures
            final(cells)@.len() == CHUNK_CELLS,
            forall|x: int, y: int|
                in_chunk(x, y) ==> if landmark_covers(
                    self.landmarks@,
                    anchor,
                    kind,
                    self.landmarks@.len() as int,
                    world_at(ox, oy, x, y),
                ) {
                    stamped(at(old(cells)@, x, y), #[trigger] at(final(cells)@, x, y), terrain)
                } else {
                    at(final(cells)@, x, y) == at(old(cells)@, x, y)
                },
    {
        let mut i: usize = 0;
        while i < self.landmarks.len()
            invariant
                i <= self.landmarks@.len(),
                self.fits(anchor),
                origin_ok(ox, oy),
                cells@.len() == CHUNK_CELLS,
                forall|x: int, y: int|
                    in_chunk(x, y) ==> if landmark_covers(self.landmarks@, anchor, kind, i as int, world_at(ox, oy, x, y)) {
                        stamped(at(old(cells)@, x, y), #[trigger] at(cells@, x, y), terrain)
                    } else {
                        at(cells@, x, y) == at(old(cells)@, x, y)
                    },
            decreases self.landmarks@.len() - i,
        {
            let ghost before = cells@;
            if self.landmarks[i].kind == kind {
                proof {
                    assert(crate::city::fp_fits(self.landmarks@[i as int].footprint));
                }
                self.stamp_landmark_fill(&self.landmarks[i], terrain, anchor, ox, oy, cells);
            }
            proof {
                assert forall|x: int, y: int| in_chunk(x, y) implies if landmark_covers(
                    self.landmarks@,
                    anchor,
                    kind,
                    i + 1,
                    world_at(ox, oy, x, y),
                ) {
                    stamped(at(old(cells)@, x, y), #[trigger] at(cells@, x, y), terrain)
                } else {
                    at(cells@, x, y) == at(old(cells)@, x, y)
                } by {
                    let w = world_at(ox, oy, x, y);
                    let mine = self.landmarks@[i as int].kind == kind && in_footprint(
                        self.landmarks@[i as int].footprint,
                        anchor,
                        ipt(w),
                    );
                    if mine {
                        assert(landmark_covers(self.landmarks@, anchor, kind, i + 1, w));
                    } else if landmark_covers(self.landmarks@, anchor, kind, i + 1, w) {
                        let l = choose|l: int|
                            0 <= l < i + 1 && (#[trigger] self.landmarks@[l]).kind == kind && in_footprint(
                                self.landmarks@[l].footprint,
                                anchor,
                                ipt(w),
                            );
                        assert(landmark_covers(self.landmarks@, anchor, kind, i as int, w));
                    } else {
                        if landmark_covers(self.landmarks@, anchor, kind, i as int, w) {
                            let l = choose|l: int|
                                0 <= l < i && (#[trigger] self.landmarks@[l]).kind == kind && in_footprint(
                                    self.landmarks@[l].footprint,
                                    anchor,
                                    ipt(w),
                                );
                            assert(landmark_covers(self.landmarks@, anchor, kind, i + 1, w));
                        }
                    }
                }
            }
            i += 1;
        }
    }
}

proof fn lemma_wall_polygon_within(city: &LoadedCity)
    requires
        city.wf(),
    ensures
        all_within(city.wall_world_polygon@, WIDE_BOUND as int),
{
    let poly = city.city.wall.polygon@;
    assert forall|k: int| 0 <= k < city.wall_world_polygon@.len() implies within(
        #[trigger] city.wall_world_polygon@[k],
        WIDE_BOUND as int,
    ) by {
        assert(within(poly[k], CITY_REACH as int));
        assert(city.wall_world_polygon@[k] == crate::city::world_cell(poly[k], city.anchor));
    }
}

impl LoadedCity {
    /// Stamps this city into the cells of chunk `coord`, with the
    /// buildings of `catalog` and the tag roles of `tags` (see
    /// `City::stamp_into_chunk_with_seed`).
    pub fn stamp_into_chunk(
        &self,
        coord: ChunkCoord,
        cells: &mut Vec<CellState>,
        world_seed: u64,
        catalog: &BuildingCatalog,
        tags: &TagCatalog,
    )
        requires
            old(cells)@.len() == CHUNK_CELLS,
            self.wf(),
            weights_fit(catalog.pools@),
            tag_weights_fit(self.slot_tags@),
        ensures
            final(cells)@.len() == CHUNK_CELLS,
            forall|x: int, y: int|
                in_chunk(x, y) ==> {
                    let ox = (coord.cx * 40) as i64;
                    let oy = (coord.cy * 30) as i64;
                    let w = world_at(ox, oy, x, y);
                    let o = at(old(cells)@, x, y);
                    let n = #[trigger] at(final(cells)@, x, y);
                    &&& same_core(
                        n,
                        city_cell(
                            &self.city,
                            self.anchor,
                            world_seed,
                            self.wall_world_polygon@,
                            self.wall_bbox,
                            self.street_cells@,
                            self.slot_tags@,
                            catalog.pools@,
                            tags.tags@,
                            ox,
                            oy,
                            w,
                            o,
                        ),
                    )
                    &&& n.items@ == if wall_reaches(self.wall_bbox, ox, oy) && inside_wall(
                        self.wall_world_polygon@,
                        self.wall_bbox,
                        w,
                    ) {
                        Seq::empty()
                    } else {
                        o.items@
                    }
                },
    {
        proof {
            lemma_wall_polygon_within(self);
        }
        self.city.stamp_into_chunk_with_seed(
            coord,
            cells,
            self.anchor,
            world_seed,
            self.wall_world_polygon.as_slice(),
            self.wall_bbox,
            &self.street_cells,
            &self.slot_tags,
            catalog,
            tags,
        );
    }
}

proof fn lemma_fold_row_keeps(
    sy: int,
    sx_lo: int,
    sx_hi: int,
    anchor: (i64, i64),
    seed: u64,
    tier: CityTier,
    poly: Seq<(i64, i64)>,
    tags: Map<u128, Vec<(String, u32)>>,
    pools: Seq<((String, CityTier), Vec<Prefab>)>,
    streets: Set<u128>,
    roles: Seq<(String, TagRole)>,
    w: (i64, i64),
    c: CellState,
)
    requires
        c.terrain != TerrainKind::Grass,
    ensures
        fold_row(sy, sx_lo, sx_hi, anchor, seed, tier, poly, tags, pools, streets, roles, w, c) == c,
    decreases sx_hi - sx_lo + 1,
{
    if sx_hi >= sx_lo {
        lemma_fold_row_keeps(sy, sx_lo, sx_hi - 1, anchor, seed, tier, poly, tags, pools, streets, roles, w, c);
    }
}

proof fn lemma_fold_rows_keeps(
    sy_lo: int,
    sy_hi: int,
    sx_lo: int,
    sx_hi: int,
    anchor: (i64, i64),
    seed: u64,
    tier: CityTier,
    poly: Seq<(i64, i64)>,
    tags: Map<u128, Vec<(String, u32)>>,
    pools: Seq<((String, CityTier), Vec<Prefab>)>,
    streets: Set<u128>,
    roles: Seq<(String, TagRole)>,
    w: (i64, i64),
    c: CellState,
)
    requires
        c.terrain != TerrainKind::Grass,
    ensures
        fold_rows(sy_lo, sy_hi, sx_lo, sx_hi, anchor, seed, tier, poly, tags, pools, streets, roles, w, c) == c,
    decreases sy_hi - sy_lo + 1,
{
    if sy_hi >= sy_lo {
        lemma_fold_rows_keeps(sy_lo, sy_hi - 1, sx_lo, sx_hi, anchor, seed, tier, poly, tags, pools, streets, roles, w, c);
        lemma_fold_row_keeps(sy_hi, sx_lo, sx_hi, anchor, seed, tier, poly, tags, pools, streets, roles, w, c);
    }
}

/// Houses never cover what was laid before them: a wall stone ends as
/// wall, a stone landmark as stone, and a street cell that neither
/// covers as paving.
pub proof fn law_houses_respect_walls_streets_and_landmarks(
    city: &City,
    anchor: (i64, i64),
    seed: u64,
    poly: Seq<(i64, i64)>,
    wall_bbox: (i64, i64, i64, i64),
    streets: Set<u128>,
    tags: Map<u128, Vec<(String, u32)>>,
    pools: Seq<((String, CityTier), Vec<Prefab>)>,
    roles: Seq<(String, TagRole)>,
    ox: i64,
    oy: i64,
    w: (i64, i64),
    o: CellState,
)
    ensures
        ({
            let n = city_cell(city, anchor, seed, poly, wall_bbox, streets, tags, pools, roles, ox, oy, w, o);
            let stone = landmark_covers(city.landmarks@, anchor, LandmarkKind::StoneMass, city.landmarks@.len() as int, w);
            &&& wall_stone(city, anchor, w) ==> n.terrain == TerrainKind::StoneWall
            &&& stone ==> n.terrain == TerrainKind::StoneWall
            &&& on_streets(city.streets@, anchor, city.streets@.len() as int, ipt(w)) && !stone && !wall_stone(
                city,
                anchor,
                w,
            ) ==> n.terrain == TerrainKind::CobbleRoad
        }),
{
    let reach = wall_reaches(wall_bbox, ox, oy);
    let c1 = if reach && inside_wall(poly, wall_bbox, w) {
        CellState {
            terrain: if o.terrain == TerrainKind::TreeTrunk {
                TerrainKind::Grass
            } else {
                o.terrain
            },
            tree_species: None,
            decoration: Decoration::Bare,
            ground_cover: GroundCover::Bare,
            ..o
        }
    } else {
        o
    };
    let c2 = if on_streets(city.streets@, anchor, city.streets@.len() as int, ipt(w)) {
        stamp_fn(c1, TerrainKind::CobbleRoad)
    } else {
        c1
    };
    let c3 = if landmark_covers(city.landmarks@, anchor, LandmarkKind::PavedArea, city.landmarks@.len() as int, w) {
        stamp_fn(c2, TerrainKind::CobbleRoad)
    } else {
        c2
    };
    let c4 = if landmark_covers(city.landmarks@, anchor, LandmarkKind::StoneMass, city.landmarks@.len() as int, w) {
        stamp_fn(c3, TerrainKind::StoneWall)
    } else {
        c3
    };
    let c5 = if wall_stone(city, anchor, w) {
        stamp_fn(c4, TerrainKind::StoneWall)
    } else {
        c4
    };
    if c5.terrain != TerrainKind::Grass {
        lemma_fold_rows_keeps(
            slot_lo(oy as int, anchor.1 as int),
            slot_hi(oy + 29, anchor.1 as int),
            slot_lo(ox as int, anchor.0 as int),
            slot_hi(ox + 39, anchor.0 as int),
            anchor,
            seed,
            city.tier,
            poly,
            tags,
            pools,
            streets,
            roles,
            w,
            c5,
        );
    }
}

/// A gate at least one cell wide leaves its centre cell open: no wall
/// stone stands there.
pub proof fn law_gate_centre_open(city: &City, anchor: (i64, i64), i: int)
    requires
        city.fits(anchor),
        0 <= i < city.wall.gates@.len(),
        city.wall.gates@[i].width >= 1,
    ensures
        !wall_stone(
            city,
            anchor,
            (
                (city.wall.gates@[i].cell.0 + anchor.0) as i64,
                (city.wall.gates@[i].cell.1 + anchor.1) as i64,
            ),
        ),
{
    let g = city.wall.gates@[i];
    assert(within(g.cell, CITY_REACH as int));
    let c = ((g.cell.0 + anchor.0) as i64, (g.cell.1 + anchor.1) as i64);
    assert(crate::city::in_gap(city.wall.gates@[i], anchor, ipt(c)));
}

} // verus!
