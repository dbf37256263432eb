//! The integer passes of chunk generation: per-chunk random seeding, the
//! species, undergrowth and debris tables that consume the generator,
//! the hand-placed stream, pond and trees of the spawn chunk, river and
//! road stamping, leaf litter, the near-water grid and the spawn-disc
//! clean-up. Cells are stored row by row, `CHUNK_W` to a row.

use vstd::pervasive::arbitrary;
use vstd::prelude::*;

use crate::buildings::{BuildingCatalog, CityTier, Prefab, TagCatalog, TagRole};
use crate::city::{chunk_rect, rects_meet, LoadedCity};
use crate::city_stamp::{
    city_cell, inside_wall, lemma_city_cell_core, lemma_city_cell_tags, no_trunk_pools, same_core,
    species_only_on_trunk, tag_weights_fit, trunk_tagged, wall_reaches, weights_fit, world_at,
};
use crate::cornwall::{cell_on_river, cell_on_road, near_river, near_road, Biome, OvermapInfo};
use crate::flora::{Decoration, PlantState, TreeSpecies};
use crate::items::{ItemInstance, ItemKind, ItemMetadata};
use crate::rng::{mix64, rng_output, rng_step, seeded_state, Rng};
use crate::world::{walkable_terrain, CellState, Chunk, ChunkCoord, GroundCover, TerrainKind, CHUNK_H, CHUNK_W};

verus! {

/// Lattice spacing of the value-noise field, in cells.
pub const NOISE_LATTICE_STEP: i32 = 8;

/// Half-width of the square around the spawn cell kept clear of trees
/// and gorse.
pub const SPAWN_DISC_RADIUS: i32 = 4;

/// Cells in a chunk.
pub const CHUNK_CELLS: usize = 1200;

/// Generator seed of a chunk: the world seed mixed with the chunk's
/// coordinates.
pub open spec fn chunk_hash(coord: ChunkCoord, world_seed: u64) -> u64 {
    let cx = coord.cx as u64;
    let cy = coord.cy as u64;
    world_seed.wrapping_add(cx.wrapping_mul(0x9E37_79B9_7F4A_7C15u64)).wrapping_add(
        cy.wrapping_mul(0xBF58_476D_1CE4_E5B9u64),
    ).wrapping_mul(0x94D0_49BB_1331_11EBu64)
}

/// The chunk's own generator: unique per chunk, the same every run.
pub fn chunk_rng(coord: ChunkCoord, world_seed: u64) -> (r: Rng)
    ensures
        r.state() == seeded_state(mix64(chunk_hash(coord, world_seed))),
{
    let cx = coord.cx as u64;
    let cy = coord.cy as u64;
    let hash = world_seed.wrapping_add(cx.wrapping_mul(0x9E37_79B9_7F4A_7C15u64)).wrapping_add(
        cy.wrapping_mul(0xBF58_476D_1CE4_E5B9u64),
    ).wrapping_mul(0x94D0_49BB_1331_11EBu64);
    Rng::from_world_seed(hash)
}

/// Index of the spawn cell `(CHUNK_W / 2, CHUNK_H / 2)` in a chunk's cells.
pub const SPAWN_IDX: usize = 620;

/// Index of local cell `(x, y)` in a chunk's cells.
pub fn cell_idx(x: u32, y: u32) -> (r: usize)
    requires
        y * CHUNK_W + x <= u32::MAX,
    ensures
        r == y * CHUNK_W + x,
{
    (y * CHUNK_W + x) as usize
}

/// Local cell `(lx, ly)` lies within `SPAWN_DISC_RADIUS` of the spawn
/// cell `(CHUNK_W / 2, CHUNK_H / 2)` on both axes.
pub open spec fn spawn_disc(lx: int, ly: int) -> bool {
    let dx = lx - CHUNK_W / 2;
    let dy = ly - CHUNK_H / 2;
    -SPAWN_DISC_RADIUS <= dx <= SPAWN_DISC_RADIUS && -SPAWN_DISC_RADIUS <= dy <= SPAWN_DISC_RADIUS
}

pub fn in_spawn_disc(lx: i32, ly: i32) -> (r: bool)
    requires
        lx > i32::MIN + 20,
        ly > i32::MIN + 15,
    ensures
        r == spawn_disc(lx as int, ly as int),
{
    let cx = (CHUNK_W / 2) as i32;
    let cy = (CHUNK_H / 2) as i32;
    let dx = lx - cx;
    let dy = ly - cy;
    let ax = if dx < 0 {
        -dx
    } else {
        dx
    };
    let ay = if dy < 0 {
        -dy
    } else {
        dy
    };
    ax <= SPAWN_DISC_RADIUS && ay <= SPAWN_DISC_RADIUS
}

/// Hash of a noise-lattice corner: the top byte of the mixed corner
/// coordinates and seed.
pub open spec fn corner_hash_of(x: i32, y: i32, seed: u64) -> u8 {
    let h = (x as i64 as u64).wrapping_mul(0x9E37_79B9_7F4A_7C15u64).wrapping_add(
        (y as i64 as u64).wrapping_mul(0xBF58_476D_1CE4_E5B9u64),
    ).wrapping_add(seed);
    let mixed = h.wrapping_mul(0x94D0_49BB_1331_11EBu64) ^ (h >> 31u64);
    (mixed >> 56u64) as u8
}

pub fn corner_hash(x: i32, y: i32, seed: u64) -> (r: u8)
    ensures
        r == corner_hash_of(x, y, seed),
{
    let h = (x as i64 as u64).wrapping_mul(0x9E37_79B9_7F4A_7C15u64).wrapping_add(
        (y as i64 as u64).wrapping_mul(0xBF58_476D_1CE4_E5B9u64),
    ).wrapping_add(seed);
    let mixed = h.wrapping_mul(0x94D0_49BB_1331_11EBu64) ^ (h >> 31u64);
    (mixed >> 56u64) as u8
}

/// Tree species for a biome and the cell's canopy and moisture noise,
/// given a percentile roll `r` in `0..100`.
pub open spec fn species_for(biome: Biome, canopy: u8, moisture: u8, r: int) -> TreeSpecies {
    match biome {
        Biome::OakWoodland => if canopy > 180 && moisture > 150 {
            if r < 40 {
                TreeSpecies::Hazel
            } else {
                TreeSpecies::Oak
            }
        } else if canopy > 140 {
            if r < 70 {
                TreeSpecies::Oak
            } else {
                TreeSpecies::Ash
            }
        } else if r < 55 {
            TreeSpecies::Oak
        } else {
            TreeSpecies::Hazel
        },
        Biome::BeechCombe => if canopy > 140 {
            if r < 60 {
                TreeSpecies::Beech
            } else {
                TreeSpecies::Hazel
            }
        } else if r < 50 {
            TreeSpecies::Hazel
        } else if r < 80 {
            TreeSpecies::Beech
        } else {
            TreeSpecies::Holly
        },
        Biome::LowlandFarm | Biome::TownEdge => if r < 30 {
            TreeSpecies::Oak
        } else if r < 55 {
            TreeSpecies::Hazel
        } else if r < 80 {
            TreeSpecies::Ash
        } else {
            TreeSpecies::Holly
        },
        Biome::RiverValley | Biome::EstuaryMarsh => if r < 60 {
            TreeSpecies::Hazel
        } else {
            TreeSpecies::Ash
        },
        Biome::CoastCliff | Biome::CoastBeach => if r < 60 {
            TreeSpecies::Holly
        } else {
            TreeSpecies::Rowan
        },
        Biome::DartmoorGranite | Biome::BodminMoorGranite | Biome::RuinHinterland => if r < 60 {
            TreeSpecies::Rowan
        } else {
            TreeSpecies::Holly
        },
        Biome::ExmoorHeath => if r < 55 {
            TreeSpecies::Ash
        } else {
            TreeSpecies::Rowan
        },
        Biome::Sea => TreeSpecies::Oak,
    }
}

/// Picks a tree species from the biome's table with one percentile roll
/// of the generator.
pub fn pick_species_for_biome(biome: Biome, canopy: u8, moisture: u8, rng: &mut Rng) -> (r: TreeSpecies)
    ensures
        r == species_for(biome, canopy, moisture, (rng_output(old(rng).state()) % 100) as int),
        final(rng).state() == rng_step(old(rng).state()),
{
    let r = rng.next_u32() % 100;
    match biome {
        Biome::OakWoodland => {
            if canopy > 180 && moisture > 150 {
                if r < 40 {
                    TreeSpecies::Hazel
                } else {
                    TreeSpecies::Oak
                }
            } else if canopy > 140 {
                if r < 70 {
                    TreeSpecies::Oak
                } else {
                    TreeSpecies::Ash
                }
            } else if r < 55 {
                TreeSpecies::Oak
            } else {
                TreeSpecies::Hazel
            }
        },
        Biome::BeechCombe => {
            if canopy > 140 {
                if r < 60 {
                    TreeSpecies::Beech
                } else {
                    TreeSpecies::Hazel
                }
            } else if r < 50 {
                TreeSpecies::Hazel
            } else if r < 80 {
                TreeSpecies::Beech
            } else {
                TreeSpecies::Holly
            }
        },
        Biome::LowlandFarm | Biome::TownEdge => {
            if r < 30 {
                TreeSpecies::Oak
            } else if r < 55 {
                TreeSpecies::Hazel
            } else if r < 80 {
                TreeSpecies::Ash
            } else {
                TreeSpecies::Holly
            }
        },
        Biome::RiverValley | Biome::EstuaryMarsh => {
            if r < 60 {
                TreeSpecies::Hazel
            } else {
                TreeSpecies::Ash
            }
        },
        Biome::CoastCliff | Biome::CoastBeach => {
            if r < 60 {
                TreeSpecies::Holly
            } else {
                TreeSpecies::Rowan
            }
        },
        Biome::DartmoorGranite | Biome::BodminMoorGranite | Biome::RuinHinterland => {
            if r < 60 {
                TreeSpecies::Rowan
            } else {
                TreeSpecies::Holly
            }
        },
        Biome::ExmoorHeath => {
            if r < 55 {
                TreeSpecies::Ash
            } else {
                TreeSpecies::Rowan
            }
        },
        Biome::Sea => TreeSpecies::Oak,
    }
}

/// Undergrowth for a cell's canopy and moisture noise, given a
/// percentile roll `r`: shaded and moist favours fern and moss, shaded
/// and dry bracken, open and moist bramble, open and dry gorse.
pub open spec fn decoration_for(canopy: u8, moisture: u8, r: int) -> Decoration {
    let mature = PlantState::Mature;
    let shaded = canopy > 130;
    let moist = moisture > 130;
    if shaded && moist {
        if r < 50 {
            Decoration::Fern { state: mature }
        } else if r < 85 {
            Decoration::Moss
        } else {
            Decoration::Bramble { state: mature }
        }
    } else if shaded {
        if r < 50 {
            Decoration::Bracken { state: mature }
        } else if r < 80 {
            Decoration::Bramble { state: mature }
        } else {
            Decoration::Fern { state: mature }
        }
    } else if moist {
        if r < 55 {
            Decoration::Bramble { state: mature }
        } else if r < 80 {
            Decoration::Moss
        } else {
            Decoration::Fern { state: mature }
        }
    } else if r < 50 {
        Decoration::Gorse { state: mature }
    } else if r < 80 {
        Decoration::Bracken { state: mature }
    } else {
        Decoration::Bramble { state: mature }
    }
}

/// Picks undergrowth with one percentile roll of the generator.
pub fn pick_decoration(canopy: u8, moisture: u8, rng: &mut Rng) -> (r: Decoration)
    ensures
        r == decoration_for(canopy, moisture, (rng_output(old(rng).state()) % 100) as int),
        final(rng).state() == rng_step(old(rng).state()),
{
    let r = rng.next_u32() % 100;
    let shaded = canopy > 130;
    let moist = moisture > 130;
    let mature = PlantState::Mature;
    if shaded && moist {
        if r < 50 {
            Decoration::Fern { state: mature }
        } else if r < 85 {
            Decoration::Moss
        } else {
            Decoration::Bramble { state: mature }
        }
    } else if shaded {
        if r < 50 {
            Decoration::Bracken { state: mature }
        } else if r < 80 {
            Decoration::Bramble { state: mature }
        } else {
            Decoration::Fern { state: mature }
        }
    } else if moist {
        if r < 55 {
            Decoration::Bramble { state: mature }
        } else if r < 80 {
            Decoration::Moss
        } else {
            Decoration::Fern { state: mature }
        }
    } else if r < 50 {
        Decoration::Gorse { state: mature }
    } else if r < 80 {
        Decoration::Bracken { state: mature }
    } else {
        Decoration::Bramble { state: mature }
    }
}

/// A plain stack of `n` debris items of `w` grams each.
pub open spec fn debris_item(kind: ItemKind, n: int, w: u32) -> ItemInstance {
    ItemInstance { kind, count: n as u16, weight_g_each: w, charges: None, metadata: ItemMetadata::Plain }
}

/// One debris roll from generator state `s`: a percentile roll under
/// `pct` drops a stack of `kind`, of `1..=most` items drawn with a second
/// roll when `most > 1`, else of one. Gives what dropped and the state
/// after.
pub open spec fn debris_roll(s: u64, pct: u32, most: u32, kind: ItemKind, w: u32) -> (Seq<ItemInstance>, u64) {
    if rng_output(s) % 100 < pct {
        if most > 1 {
            (seq![debris_item(kind, 1 + rng_output(rng_step(s)) % most, w)], rng_step(rng_step(s)))
        } else {
            (seq![debris_item(kind, 1, w)], rng_step(s))
        }
    } else {
        (Seq::empty(), rng_step(s))
    }
}

/// The debris a grass cell rolls from generator state `s`, and the state
/// after: twigs (25%, 1-3), sticks (15%, 1-2), firewood (12%, 1-2), grass
/// blades (20%, 1-2), a stone (10%), a moss patch (8%), and mud (5%,
/// kept only next to water).
pub open spec fn debris(s0: u64, near_water: bool) -> (Seq<ItemInstance>, u64) {
    let (a, s1) = debris_roll(s0, 25, 3, ItemKind::Twig, 5);
    let (b, s2) = debris_roll(s1, 15, 2, ItemKind::Stick, 50);
    let (c, s3) = debris_roll(s2, 12, 2, ItemKind::Firewood, 500);
    let (d, s4) = debris_roll(s3, 20, 2, ItemKind::GrassBlade, 2);
    let (e, s5) = debris_roll(s4, 10, 1, ItemKind::Stone, 200);
    let (f, s6) = debris_roll(s5, 8, 1, ItemKind::MossPatch, 10);
    let (g, s7) = debris_roll(s6, 5, 1, ItemKind::Mud, 300);
    (a + b + c + d + e + f + if near_water {
        g
    } else {
        Seq::empty()
    }, s7)
}

fn roll_stack(out: &mut Vec<ItemInstance>, rng: &mut Rng, pct: u32, most: u32, kind: ItemKind, w: u32, keep: bool)
    requires
        1 <= most <= 3,
    ensures
        ({
            let (dropped, s) = debris_roll(old(rng).state(), pct, most, kind, w);
            &&& final(out)@ == old(out)@ + if keep {
                dropped
            } else {
                Seq::empty()
            }
            &&& final(rng).state() == s
        }),
{
    if rng.next_u32() % 100 < pct {
        let n: u16 = if most > 1 {
            1 + (rng.next_u32() % most) as u16
        } else {
            1
        };
        if keep {
            out.push(ItemInstance::stack(kind, n, w, None, ItemMetadata::Plain));
        }
    }
    assert(out@ =~= old(out)@ + if keep {
        debris_roll(old(rng).state(), pct, most, kind, w).0
    } else {
        Seq::empty()
    });
}

/// Rolls one grass cell's debris into `out` (see `debris`).
pub fn roll_debris(out: &mut Vec<ItemInstance>, rng: &mut Rng, near_water: bool)
    ensures
        final(out)@ == old(out)@ + debris(old(rng).state(), near_water).0,
        final(rng).state() == debris(old(rng).state(), near_water).1,
{
    let ghost s0 = rng.state();
    let ghost o0 = out@;
    roll_stack(out, rng, 25, 3, ItemKind::Twig, 5, true);
    roll_stack(out, rng, 15, 2, ItemKind::Stick, 50, true);
    roll_stack(out, rng, 12, 2, ItemKind::Firewood, 500, true);
    roll_stack(out, rng, 20, 2, ItemKind::GrassBlade, 2, true);
    roll_stack(out, rng, 10, 1, ItemKind::Stone, 200, true);
    roll_stack(out, rng, 8, 1, ItemKind::MossPatch, 10, true);
    roll_stack(out, rng, 5, 1, ItemKind::Mud, 300, near_water);
    proof {
        let (a, s1) = debris_roll(s0, 25, 3, ItemKind::Twig, 5);
        let (b, s2) = debris_roll(s1, 15, 2, ItemKind::Stick, 50);
        let (c, s3) = debris_roll(s2, 12, 2, ItemKind::Firewood, 500);
        let (d, s4) = debris_roll(s3, 20, 2, ItemKind::GrassBlade, 2);
        let (e, s5) = debris_roll(s4, 10, 1, ItemKind::Stone, 200);
        let (f, s6) = debris_roll(s5, 8, 1, ItemKind::MossPatch, 10);
        let (g, s7) = debris_roll(s6, 5, 1, ItemKind::Mud, 300);
        assert(out@ =~= o0 + (a + b + c + d + e + f + if near_water {
            g
        } else {
            Seq::empty()
        }));
    }
}

/// Local cell `(x, y)` lies in the chunk.
pub open spec fn in_chunk(x: int, y: int) -> bool {
    0 <= x < CHUNK_W && 0 <= y < CHUNK_H
}

/// Local cell `(x, y)` of a chunk's cells.
pub open spec fn at(s: Seq<CellState>, x: int, y: int) -> CellState {
    s[y * CHUNK_W + x]
}

/// Cell `(x, y)` comes before cell `(cx, cy)` in row-major order.
pub open spec fn before(x: int, y: int, cx: int, cy: int) -> bool {
    y < cy || (y == cy && x < cx)
}

pub(crate) proof fn lemma_cell_index(x: int, y: int, x2: int, y2: int)
    requires
        in_chunk(x, y),
        in_chunk(x2, y2),
    ensures
        0 <= y * CHUNK_W + x < CHUNK_CELLS,
        (y * CHUNK_W + x == y2 * CHUNK_W + x2) <==> (x == x2 && y == y2),
{
}

/// Cells `o` and `n` agree but for terrain, species and decoration.
pub open spec fn same_ground(o: CellState, n: CellState) -> bool {
    n.ground_cover == o.ground_cover && n.items == o.items
}

/// `n` is `o` after the spawn-disc clean-up: a tree trunk becomes grass
/// with no species, gorse is cleared, and nothing else changes.
pub open spec fn disc_cleared(o: CellState, n: CellState) -> bool {
    let trunk = o.terrain == TerrainKind::TreeTrunk;
    &&& n.terrain == if trunk {
        TerrainKind::Grass
    } else {
        o.terrain
    }
    &&& n.tree_species == if trunk {
        None
    } else {
        o.tree_species
    }
    &&& n.decoration == if o.decoration is Gorse {
        Decoration::Bare
    } else {
        o.decoration
    }
    &&& same_ground(o, n)
}

/// Clears trees and gorse from the spawn disc so the player always lands
/// on walkable ground; cells outside it are untouched.
pub fn enforce_spawn_disc(cells: &mut Vec<CellState>)
    requires
        old(cells)@.len() == CHUNK_CELLS,
    ensures
        final(cells)@.len() == CHUNK_CELLS,
        forall|x: int, y: int|
            in_chunk(x, y) ==> if spawn_disc(x, y) {
                disc_cleared(at(old(cells)@, x, y), #[trigger] at(final(cells)@, x, y))
            } else {
                at(final(cells)@, x, y) == at(old(cells)@, x, y)
            },
{
    let mut ly: i32 = 0;
    while ly < CHUNK_H as i32
        invariant
            0 <= ly <= CHUNK_H,
            cells@.len() == CHUNK_CELLS,
            forall|x: int, y: int|
                in_chunk(x, y) ==> if before(x, y, 0, ly as int) && spawn_disc(x, y) {
                    disc_cleared(at(old(cells)@, x, y), #[trigger] at(cells@, x, y))
                } else {
                    at(cells@, x, y) == at(old(cells)@, x, y)
                },
        decreases CHUNK_H - ly,
    {
        let mut lx: i32 = 0;
        while lx < CHUNK_W as i32
            invariant
                0 <= ly < CHUNK_H,
                0 <= lx <= CHUNK_W,
                cells@.len() == CHUNK_CELLS,
                forall|x: int, y: int|
                    in_chunk(x, y) ==> if before(x, y, lx as int, ly as int) && spawn_disc(x, y) {
                        disc_cleared(at(old(cells)@, x, y), #[trigger] at(cells@, x, y))
                    } else {
                        at(cells@, x, y) == at(old(cells)@, x, y)
                    },
            decreases CHUNK_W - lx,
        {
            if in_spawn_disc(lx, ly) {
                let idx = cell_idx(lx as u32, ly as u32);
                let ghost before_cells = cells@;
                if cells[idx].terrain == TerrainKind::TreeTrunk {
                    cells[idx].terrain = TerrainKind::Grass;
                    cells[idx].tree_species = None;
                }
                if matches!(cells[idx].decoration, Decoration::Gorse { .. }) {
                    cells[idx].decoration = Decoration::Bare;
                }
                proof {
                    assert forall|x: int, y: int| in_chunk(x, y) && !(x == lx && y == ly) implies at(cells@, x, y)
                        == at(before_cells, x, y) by {
                        lemma_cell_index(x, y, lx as int, ly as int);
                    }
                }
            }
            lx += 1;
        }
        ly += 1;
    }
}

/// The hand-placed stream of the spawn chunk, from the north edge to the
/// pond.
pub open spec fn stream_path() -> Seq<(u32, u32)> {
    seq![
        (12, 0), (12, 1), (12, 2), (12, 3), (12, 4), (13, 4), (13, 5), (13, 6), (14, 6),
        (14, 7), (15, 7), (15, 8), (16, 8), (16, 9), (17, 9), (17, 10), (18, 10), (18, 11),
        (19, 11), (20, 11), (21, 11), (22, 11), (22, 12), (23, 12), (23, 13), (24, 13), (24, 14),
    ]
}

/// The six trees hand-placed on the pond's north-east shore.
pub open spec fn skeleton_trees() -> Seq<(u32, u32)> {
    seq![(33, 19), (34, 20), (34, 22), (33, 25), (31, 18), (26, 18)]
}

/// `n` is `o` with only its terrain set to `t`.
pub open spec fn terrain_set(o: CellState, n: CellState, t: TerrainKind) -> bool {
    n.terrain == t && n.tree_species == o.tree_species && n.decoration == o.decoration && same_ground(o, n)
}

/// Lays the stream's cells as stream water; nothing else changes.
pub fn apply_stream(cells: &mut Vec<CellState>)
    requires
        old(cells)@.len() == CHUNK_CELLS,
    ensures
        final(cells)@.len() == CHUNK_CELLS,
        forall|x: int, y: int|
            in_chunk(x, y) ==> if stream_path().contains((x as u32, y as u32)) {
                terrain_set(at(old(cells)@, x, y), #[trigger] at(final(cells)@, x, y), TerrainKind::StreamWater)
            } else {
                at(final(cells)@, x, y) == at(old(cells)@, x, y)
            },
{
    let path: [(u32, u32); 27] = [
        (12, 0), (12, 1), (12, 2), (12, 3), (12, 4), (13, 4), (13, 5), (13, 6), (14, 6),
        (14, 7), (15, 7), (15, 8), (16, 8), (16, 9), (17, 9), (17, 10), (18, 10), (18, 11),
        (19, 11), (20, 11), (21, 11), (22, 11), (22, 12), (23, 12), (23, 13), (24, 13), (24, 14),
    ];
    assert(path@ =~= stream_path());
    let mut k: usize = 0;
    while k < 27
        invariant
            k <= 27,
            path@ == stream_path(),
            cells@.len() == CHUNK_CELLS,
            forall|x: int, y: int|
                in_chunk(x, y) ==> if stream_path().take(k as int).contains((x as u32, y as u32)) {
                    terrain_set(at(old(cells)@, x, y), #[trigger] at(cells@, x, y), TerrainKind::StreamWater)
                } else {
                    at(cells@, x, y) == at(old(cells)@, x, y)
                },
        decreases 27 - k,
    {
        let (x, y) = path[k];
        let ghost before_cells = cells@;
        let ghost prev = stream_path().take(k as int);
        assert(stream_path().take(k + 1) =~= prev.push((x, y)));
        if x < CHUNK_W && y < CHUNK_H {
            let idx = cell_idx(x, y);
            cells[idx].terrain = TerrainKind::StreamWater;
            proof {
                assert forall|xx: int, yy: int| in_chunk(xx, yy) implies if stream_path().take(k + 1).contains(
                    (xx as u32, yy as u32),
                ) {
                    terrain_set(at(old(cells)@, xx, yy), #[trigger] at(cells@, xx, yy), TerrainKind::StreamWater)
                } else {
                    at(cells@, xx, yy) == at(old(cells)@, xx, yy)
                } by {
                    lemma_cell_index(xx, yy, x as int, y as int);
                    if xx == x && yy == y {
                        assert(stream_path().take(k + 1)[k as int] == (x, y));
                    } else {
                        assert(at(cells@, xx, yy) == at(before_cells, xx, yy));
                        if stream_path().take(k + 1).contains((xx as u32, yy as u32)) {
                            let next = stream_path().take(k + 1);
                            let j = choose|j: int| 0 <= j < k + 1 && #[trigger] next[j] == (xx as u32, yy as u32);
                            assert(j != k);
                            assert(prev[j] == (xx as u32, yy as u32));
                        } else {
                            if prev.contains((xx as u32, yy as u32)) {
                                let j = choose|j: int| 0 <= j < k && #[trigger] prev[j] == (xx as u32, yy as u32);
                                assert(stream_path().take(k + 1)[j] == (xx as u32, yy as u32));
                            }
                        }
                    }
                }
            }
        }
        k += 1;
    }
    assert(stream_path().take(27) =~= stream_path());
}

/// Plants the skeleton trees on the cells of them that are grass.
pub fn apply_skeleton_trees(cells: &mut Vec<CellState>)
    requires
        old(cells)@.len() == CHUNK_CELLS,
    ensures
        final(cells)@.len() == CHUNK_CELLS,
        forall|x: int, y: int|
            in_chunk(x, y) ==> if skeleton_trees().contains((x as u32, y as u32)) && at(old(cells)@, x, y).terrain
                == TerrainKind::Grass {
                terrain_set(at(old(cells)@, x, y), #[trigger] at(final(cells)@, x, y), TerrainKind::TreeTrunk)
            } else {
                at(final(cells)@, x, y) == at(old(cells)@, x, y)
            },
{
    let trees: [(u32, u32); 6] = [(33, 19), (34, 20), (34, 22), (33, 25), (31, 18), (26, 18)];
    assert(trees@ =~= skeleton_trees());
    let mut k: usize = 0;
    while k < 6
        invariant
            k <= 6,
            trees@ == skeleton_trees(),
            cells@.len() == CHUNK_CELLS,
            forall|x: int, y: int|
                in_chunk(x, y) ==> if skeleton_trees().take(k as int).contains((x as u32, y as u32)) && at(
                    old(cells)@,
                    x,
                    y,
                ).terrain == TerrainKind::Grass {
                    terrain_set(at(old(cells)@, x, y), #[trigger] at(cells@, x, y), TerrainKind::TreeTrunk)
                } else {
                    at(cells@, x, y) == at(old(cells)@, x, y)
                },
        decreases 6 - k,
    {
        let (x, y) = trees[k];
        let ghost before_cells = cells@;
        let ghost prev = skeleton_trees().take(k as int);
        let ghost next = skeleton_trees().take(k + 1);
        assert(next =~= prev.push((x, y)));
        if x < CHUNK_W && y < CHUNK_H {
            let idx = cell_idx(x, y);
            if cells[idx].terrain == TerrainKind::Grass {
                cells[idx].terrain = TerrainKind::TreeTrunk;
            }
        }
        proof {
            assert forall|xx: int, yy: int| in_chunk(xx, yy) implies if next.contains((xx as u32, yy as u32)) && at(
                old(cells)@,
                xx,
                yy,
            ).terrain == TerrainKind::Grass {
                terrain_set(at(old(cells)@, xx, yy), #[trigger] at(cells@, xx, yy), TerrainKind::TreeTrunk)
            } else {
                at(cells@, xx, yy) == at(old(cells)@, xx, yy)
            } by {
                lemma_cell_index(xx, yy, x as int, y as int);
                if xx == x && yy == y {
                    assert(next[k as int] == (x, y));
                } else {
                    if x < CHUNK_W && y < CHUNK_H {
                        assert(at(cells@, xx, yy) == at(before_cells, xx, yy));
                    }
                    if next.contains((xx as u32, yy as u32)) {
                        let j = choose|j: int| 0 <= j < k + 1 && #[trigger] next[j] == (xx as u32, yy as u32);
                        assert(j != k);
                        assert(prev[j] == (xx as u32, yy as u32));
                    } else if prev.contains((xx as u32, yy as u32)) {
                        let j = choose|j: int| 0 <= j < k && #[trigger] prev[j] == (xx as u32, yy as u32);
                        assert(next[j] == (xx as u32, yy as u32));
                    }
                }
            }
        }
        k += 1;
    }
    assert(skeleton_trees().take(6) =~= skeleton_trees());
}

/// Scaled squared distance of cell `(x, y)` from the pond's centre
/// `(28, 22)` on an ellipse of semi-axes 5 and 3: at most 225 inside the
/// pond.
pub open spec fn pond_dist(x: int, y: int) -> int {
    (x - 28) * (x - 28) * 9 + (y - 22) * (y - 22) * 25
}

/// Terrain after the pond pass: pond water inside the ellipse, sand
/// shore on grass in the ring out to semi-axes 6 and 4 (scaled bound
/// 576), else unchanged.
pub open spec fn pond_terrain(t: TerrainKind, x: int, y: int) -> TerrainKind {
    if pond_dist(x, y) <= 225 {
        TerrainKind::PondWater
    } else if pond_dist(x, y) <= 576 && t == TerrainKind::Grass {
        TerrainKind::SandShore
    } else {
        t
    }
}

/// Digs the spawn chunk's pond and its sandy shore.
pub fn apply_pond_and_shore(cells: &mut Vec<CellState>)
    requires
        old(cells)@.len() == CHUNK_CELLS,
    ensures
        final(cells)@.len() == CHUNK_CELLS,
        forall|x: int, y: int|
            in_chunk(x, y) ==> terrain_set(
                at(old(cells)@, x, y),
                #[trigger] at(final(cells)@, x, y),
                pond_terrain(at(old(cells)@, x, y).terrain, x, y),
            ),
{
    let (cx, cy) = (28i32, 22i32);
    let (rx, ry) = (5i32, 3i32);
    let mut y: i32 = 0;
    while y < CHUNK_H as i32
        invariant
            0 <= y <= CHUNK_H,
            cx == 28 && cy == 22 && rx == 5 && ry == 3,
            cells@.len() == CHUNK_CELLS,
            forall|xx: int, yy: int|
                in_chunk(xx, yy) ==> if before(xx, yy, 0, y as int) {
                    terrain_set(at(old(cells)@, xx, yy), #[trigger] at(cells@, xx, yy), pond_terrain(
                        at(old(cells)@, xx, yy).terrain,
                        xx,
                        yy,
                    ))
                } else {
                    at(cells@, xx, yy) == at(old(cells)@, xx, yy)
                },
        decreases CHUNK_H - y,
    {
        let mut x: i32 = 0;
        while x < CHUNK_W as i32
            invariant
                0 <= y < CHUNK_H,
                0 <= x <= CHUNK_W,
                cx == 28 && cy == 22 && rx == 5 && ry == 3,
                cells@.len() == CHUNK_CELLS,
                forall|xx: int, yy: int|
                    in_chunk(xx, yy) ==> if before(xx, yy, x as int, y as int) {
                        terrain_set(at(old(cells)@, xx, yy), #[trigger] at(cells@, xx, yy), pond_terrain(
                            at(old(cells)@, xx, yy).terrain,
                            xx,
                            yy,
                        ))
                    } else {
                        at(cells@, xx, yy) == at(old(cells)@, xx, yy)
                    },
            decreases CHUNK_W - x,
        {
            let dx = x - cx;
            let dy = y - cy;
            proof {
                assert(0 <= dx * dx <= 784 && 0 <= dy * dy <= 484) by (nonlinear_arith)
                    requires
                        -28 <= dx <= 11,
                        -22 <= dy <= 7,
                ;
            }
            proof {
                assert(rx * rx * ry * ry == 225 && (rx + 1) * (rx + 1) * (ry + 1) * (ry + 1) == 576) by (nonlinear_arith)
                    requires
                        rx == 5,
                        ry == 3,
                ;
                assert(dx * dx * ry * ry + dy * dy * rx * rx == pond_dist(x as int, y as int)) by (nonlinear_arith)
                    requires
                        rx == 5,
                        ry == 3,
                        dx == x - 28,
                        dy == y - 22,
                ;
            }
            let d = dx * dx * ry * ry + dy * dy * rx * rx;
            let inside = d <= rx * rx * ry * ry;
            let shore = !inside && d <= (rx + 1) * (rx + 1) * (ry + 1) * (ry + 1);
            let idx = cell_idx(x as u32, y as u32);
            let ghost before_cells = cells@;
            if inside {
                cells[idx].terrain = TerrainKind::PondWater;
            } else if shore && cells[idx].terrain == TerrainKind::Grass {
                cells[idx].terrain = TerrainKind::SandShore;
            }
            proof {
                assert forall|xx: int, yy: int| in_chunk(xx, yy) && !(xx == x && yy == y) implies at(cells@, xx, yy)
                    == at(before_cells, xx, yy) by {
                    lemma_cell_index(xx, yy, x as int, y as int);
                }
            }
            x += 1;
        }
        y += 1;
    }
}

/// Cell `(x, y)` lies in the chunk and is a tree trunk.
pub open spec fn trunk_at(s: Seq<CellState>, x: int, y: int) -> bool {
    in_chunk(x, y) && at(s, x, y).terrain == TerrainKind::TreeTrunk
}

/// One of the eight cells around `(x, y)` is a tree trunk.
pub open spec fn trunk_beside(s: Seq<CellState>, x: int, y: int) -> bool {
    ||| trunk_at(s, x - 1, y - 1)
    ||| trunk_at(s, x, y - 1)
    ||| trunk_at(s, x + 1, y - 1)
    ||| trunk_at(s, x - 1, y)
    ||| trunk_at(s, x + 1, y)
    ||| trunk_at(s, x - 1, y + 1)
    ||| trunk_at(s, x, y + 1)
    ||| trunk_at(s, x + 1, y + 1)
}

/// `n` is `o` with only its ground cover set to `g`.
pub open spec fn cover_set(o: CellState, n: CellState, g: GroundCover) -> bool {
    &&& n.terrain == o.terrain && n.tree_species == o.tree_species && n.decoration == o.decoration
    &&& n.ground_cover == g && n.items == o.items
}

fn trunk_at_exec(cells: &Vec<CellState>, x: i32, y: i32) -> (r: bool)
    requires
        cells@.len() == CHUNK_CELLS,
    ensures
        r == trunk_at(cells@, x as int, y as int),
{
    if x < 0 || y < 0 || x >= CHUNK_W as i32 || y >= CHUNK_H as i32 {
        return false;
    }
    proof {
        lemma_cell_index(x as int, y as int, x as int, y as int);
    }
    cells[cell_idx(x as u32, y as u32)].terrain == TerrainKind::TreeTrunk
}

proof fn lemma_trunk_beside_terrain(a: Seq<CellState>, b: Seq<CellState>, x: int, y: int)
    requires
        forall|xx: int, yy: int| in_chunk(xx, yy) ==> #[trigger] at(a, xx, yy).terrain == at(b, xx, yy).terrain,
    ensures
        trunk_beside(a, x, y) == trunk_beside(b, x, y),
{
    assert forall|xx: int, yy: int| trunk_at(a, xx, yy) == trunk_at(b, xx, yy) by {
        if in_chunk(xx, yy) {
            assert(at(a, xx, yy).terrain == at(b, xx, yy).terrain);
        }
    }
}

fn trunk_beside_exec(cells: &Vec<CellState>, x: i32, y: i32) -> (r: bool)
    requires
        cells@.len() == CHUNK_CELLS,
        0 <= x < CHUNK_W,
        0 <= y < CHUNK_H,
    ensures
        r == trunk_beside(cells@, x as int, y as int),
{
    trunk_at_exec(cells, x - 1, y - 1) || trunk_at_exec(cells, x, y - 1) || trunk_at_exec(cells, x + 1, y - 1)
        || trunk_at_exec(cells, x - 1, y) || trunk_at_exec(cells, x + 1, y) || trunk_at_exec(cells, x - 1, y + 1)
        || trunk_at_exec(cells, x, y + 1) || trunk_at_exec(cells, x + 1, y + 1)
}

/// Lays leaf litter on every grass cell with a tree trunk among its
/// eight neighbours.
pub fn apply_leaf_litter(cells: &mut Vec<CellState>)
    requires
        old(cells)@.len() == CHUNK_CELLS,
    ensures
        final(cells)@.len() == CHUNK_CELLS,
        forall|x: int, y: int|
            in_chunk(x, y) ==> {
                let o = at(old(cells)@, x, y);
                cover_set(o, #[trigger] at(final(cells)@, x, y), if o.terrain == TerrainKind::Grass && trunk_beside(
                    old(cells)@,
                    x,
                    y,
                ) {
                    GroundCover::LeafLitter
                } else {
                    o.ground_cover
                })
            },
{
    let mut y: i32 = 0;
    while y < CHUNK_H as i32
        invariant
            0 <= y <= CHUNK_H,
            cells@.len() == CHUNK_CELLS,
            forall|xx: int, yy: int|
                in_chunk(xx, yy) ==> {
                    let o = at(old(cells)@, xx, yy);
                    if before(xx, yy, 0, y as int) {
                        cover_set(o, #[trigger] at(cells@, xx, yy), if o.terrain == TerrainKind::Grass
                            && trunk_beside(old(cells)@, xx, yy) {
                            GroundCover::LeafLitter
                        } else {
                            o.ground_cover
                        })
                    } else {
                        at(cells@, xx, yy) == o
                    }
                },
        decreases CHUNK_H - y,
    {
        let mut x: i32 = 0;
        while x < CHUNK_W as i32
            invariant
                0 <= y < CHUNK_H,
                0 <= x <= CHUNK_W,
                cells@.len() == CHUNK_CELLS,
                forall|xx: int, yy: int|
                    in_chunk(xx, yy) ==> {
                        let o = at(old(cells)@, xx, yy);
                        if before(xx, yy, x as int, y as int) {
                            cover_set(o, #[trigger] at(cells@, xx, yy), if o.terrain == TerrainKind::Grass
                                && trunk_beside(old(cells)@, xx, yy) {
                                GroundCover::LeafLitter
                            } else {
                                o.ground_cover
                            })
                        } else {
                            at(cells@, xx, yy) == o
                        }
                    },
            decreases CHUNK_W - x,
        {
            let idx = cell_idx(x as u32, y as u32);
            proof {
                lemma_cell_index(x as int, y as int, x as int, y as int);
                assert forall|xx: int, yy: int| in_chunk(xx, yy) implies #[trigger] at(cells@, xx, yy).terrain == at(
                    old(cells)@,
                    xx,
                    yy,
                ).terrain by {
                    assert(at(cells@, xx, yy) == at(cells@, xx, yy));
                }
                lemma_trunk_beside_terrain(cells@, old(cells)@, x as int, y as int);
            }
            if cells[idx].terrain == TerrainKind::Grass && trunk_beside_exec(cells, x, y) {
                let ghost before_cells = cells@;
                cells[idx].ground_cover = GroundCover::LeafLitter;
                proof {
                    assert forall|xx: int, yy: int| in_chunk(xx, yy) && !(xx == x && yy == y) implies at(
                        cells@,
                        xx,
                        yy,
                    ) == at(before_cells, xx, yy) by {
                        lemma_cell_index(xx, yy, x as int, y as int);
                    }
                }
            }
            x += 1;
        }
        y += 1;
    }
}

/// Cell `(x, y)` lies in the chunk and holds stream or pond water.
pub open spec fn water_at(s: Seq<CellState>, x: int, y: int) -> bool {
    in_chunk(x, y) && (at(s, x, y).terrain == TerrainKind::StreamWater || at(s, x, y).terrain
        == TerrainKind::PondWater)
}

/// Cell `(x, y)` or one of its eight neighbours holds water.
pub open spec fn water_near(s: Seq<CellState>, x: int, y: int) -> bool {
    ||| water_at(s, x - 1, y - 1)
    ||| water_at(s, x, y - 1)
    ||| water_at(s, x + 1, y - 1)
    ||| water_at(s, x - 1, y)
    ||| water_at(s, x, y)
    ||| water_at(s, x + 1, y)
    ||| water_at(s, x - 1, y + 1)
    ||| water_at(s, x, y + 1)
    ||| water_at(s, x + 1, y + 1)
}

fn water_at_exec(cells: &Vec<CellState>, x: i32, y: i32) -> (r: bool)
    requires
        cells@.len() == CHUNK_CELLS,
    ensures
        r == water_at(cells@, x as int, y as int),
{
    if x < 0 || y < 0 || x >= CHUNK_W as i32 || y >= CHUNK_H as i32 {
        return false;
    }
    proof {
        lemma_cell_index(x as int, y as int, x as int, y as int);
    }
    let t = cells[cell_idx(x as u32, y as u32)].terrain;
    t == TerrainKind::StreamWater || t == TerrainKind::PondWater
}

/// For every cell, whether it or a neighbour holds water; one flag per
/// cell, in the cells' order.
pub fn compute_near_water_grid(cells: &Vec<CellState>) -> (r: Vec<bool>)
    requires
        cells@.len() == CHUNK_CELLS,
    ensures
        r@.len() == CHUNK_CELLS,
        forall|x: int, y: int| in_chunk(x, y) ==> #[trigger] r@[y * CHUNK_W + x] == water_near(cells@, x, y),
{
    let mut out: Vec<bool> = Vec::new();
    let mut y: i32 = 0;
    while y < CHUNK_H as i32
        invariant
            0 <= y <= CHUNK_H,
            cells@.len() == CHUNK_CELLS,
            out@.len() == y * CHUNK_W,
            forall|xx: int, yy: int|
                in_chunk(xx, yy) && yy < y ==> #[trigger] out@[yy * CHUNK_W + xx] == water_near(cells@, xx, yy),
        decreases CHUNK_H - y,
    {
        let mut x: i32 = 0;
        while x < CHUNK_W as i32
            invariant
                0 <= y < CHUNK_H,
                0 <= x <= CHUNK_W,
                cells@.len() == CHUNK_CELLS,
                out@.len() == y * CHUNK_W + x,
                forall|xx: int, yy: int|
                    in_chunk(xx, yy) && before(xx, yy, x as int, y as int) ==> #[trigger] out@[yy * CHUNK_W + xx]
                        == water_near(cells@, xx, yy),
            decreases CHUNK_W - x,
        {
            let near = water_at_exec(cells, x - 1, y - 1) || water_at_exec(cells, x, y - 1) || water_at_exec(
                cells,
                x + 1,
                y - 1,
            ) || water_at_exec(cells, x - 1, y) || water_at_exec(cells, x, y) || water_at_exec(cells, x + 1, y)
                || water_at_exec(cells, x - 1, y + 1) || water_at_exec(cells, x, y + 1) || water_at_exec(
                cells,
                x + 1,
                y + 1,
            );
            let ghost prev = out@;
            out.push(near);
            proof {
                assert forall|xx: int, yy: int|
                    in_chunk(xx, yy) && before(xx, yy, x + 1, y as int) implies #[trigger] out@[yy * CHUNK_W + xx]
                        == water_near(cells@, xx, yy) by {
                    lemma_cell_index(xx, yy, x as int, y as int);
                    if !(xx == x && yy == y) {
                        assert(yy * CHUNK_W + xx < prev.len());
                        assert(out@[yy * CHUNK_W + xx] == prev[yy * CHUNK_W + xx]);
                    }
                }
            }
            x += 1;
        }
        y += 1;
    }
    out
}

/// `n` is `o` stamped with terrain `t`: no tree, no undergrowth, the
/// ground and items kept.
pub open spec fn stamped(o: CellState, n: CellState, t: TerrainKind) -> bool {
    n.terrain == t && n.tree_species is None && n.decoration == Decoration::Bare && same_ground(o, n)
}

/// World coordinates of local cell `(x, y)` of chunk `coord`.
pub open spec fn world_of(coord: ChunkCoord, x: int, y: int) -> (int, int) {
    (coord.cx * CHUNK_W + x, coord.cy * CHUNK_H + y)
}

/// Stamps stream water on every cell of the chunk that lies on a river.
pub fn stamp_river(cells: &mut Vec<CellState>, coord: ChunkCoord)
    requires
        old(cells)@.len() == CHUNK_CELLS,
    ensures
        final(cells)@.len() == CHUNK_CELLS,
        forall|x: int, y: int|
            in_chunk(x, y) ==> if near_river(world_of(coord, x, y)) {
                stamped(at(old(cells)@, x, y), #[trigger] at(final(cells)@, x, y), TerrainKind::StreamWater)
            } else {
                at(final(cells)@, x, y) == at(old(cells)@, x, y)
            },
{
    let base_x = coord.cx as i64 * CHUNK_W as i64;
    let base_y = coord.cy as i64 * CHUNK_H as i64;
    let mut ly: u32 = 0;
    while ly < CHUNK_H
        invariant
            ly <= CHUNK_H,
            base_x == coord.cx * CHUNK_W,
            base_y == coord.cy * CHUNK_H,
            cells@.len() == CHUNK_CELLS,
            forall|x: int, y: int|
                in_chunk(x, y) ==> if before(x, y, 0, ly as int) && near_river(world_of(coord, x, y)) {
                    stamped(at(old(cells)@, x, y), #[trigger] at(cells@, x, y), TerrainKind::StreamWater)
                } else {
                    at(cells@, x, y) == at(old(cells)@, x, y)
                },
        decreases CHUNK_H - ly,
    {
        let mut lx: u32 = 0;
        while lx < CHUNK_W
            invariant
                ly < CHUNK_H,
                lx <= CHUNK_W,
                base_x == coord.cx * CHUNK_W,
                base_y == coord.cy * CHUNK_H,
                cells@.len() == CHUNK_CELLS,
                forall|x: int, y: int|
                    in_chunk(x, y) ==> if before(x, y, lx as int, ly as int) && near_river(world_of(coord, x, y)) {
                        stamped(at(old(cells)@, x, y), #[trigger] at(cells@, x, y), TerrainKind::StreamWater)
                    } else {
                        at(cells@, x, y) == at(old(cells)@, x, y)
                    },
            decreases CHUNK_W - lx,
        {
            let wx = base_x + lx as i64;
            let wy = base_y + ly as i64;
            if cell_on_river(wx, wy) {
                let idx = cell_idx(lx, ly);
                let ghost before_cells = cells@;
                cells[idx].terrain = TerrainKind::StreamWater;
                cells[idx].tree_species = None;
                cells[idx].decoration = Decoration::Bare;
                proof {
                    assert forall|x: int, y: int| in_chunk(x, y) && !(x == lx && y == ly) implies at(cells@, x, y)
                        == at(before_cells, x, y) by {
                        lemma_cell_index(x, y, lx as int, ly as int);
                    }
                }
            }
            lx += 1;
        }
        ly += 1;
    }
}

/// Stamps bare dirt on every cell of the chunk that lies on a road,
/// leaving water cells (a ford) as they are.
pub fn stamp_road(cells: &mut Vec<CellState>, coord: ChunkCoord)
    requires
        old(cells)@.len() == CHUNK_CELLS,
    ensures
        final(cells)@.len() == CHUNK_CELLS,
        forall|x: int, y: int|
            in_chunk(x, y) ==> if !water_at(old(cells)@, x, y) && near_road(world_of(coord, x, y)) {
                stamped(at(old(cells)@, x, y), #[trigger] at(final(cells)@, x, y), TerrainKind::BareDirt)
            } else {
                at(final(cells)@, x, y) == at(old(cells)@, x, y)
            },
{
    let base_x = coord.cx as i64 * CHUNK_W as i64;
    let base_y = coord.cy as i64 * CHUNK_H as i64;
    let mut ly: u32 = 0;
    while ly < CHUNK_H
        invariant
            ly <= CHUNK_H,
            base_x == coord.cx * CHUNK_W,
            base_y == coord.cy * CHUNK_H,
            cells@.len() == CHUNK_CELLS,
            forall|x: int, y: int|
                in_chunk(x, y) ==> if before(x, y, 0, ly as int) && !water_at(old(cells)@, x, y) && near_road(
                    world_of(coord, x, y),
                ) {
                    stamped(at(old(cells)@, x, y), #[trigger] at(cells@, x, y), TerrainKind::BareDirt)
                } else {
                    at(cells@, x, y) == at(old(cells)@, x, y)
                },
        decreases CHUNK_H - ly,
    {
        let mut lx: u32 = 0;
        while lx < CHUNK_W
            invariant
                ly < CHUNK_H,
                lx <= CHUNK_W,
                base_x == coord.cx * CHUNK_W,
                base_y == coord.cy * CHUNK_H,
                cells@.len() == CHUNK_CELLS,
                forall|x: int, y: int|
                    in_chunk(x, y) ==> if before(x, y, lx as int, ly as int) && !water_at(old(cells)@, x, y)
                        && near_road(world_of(coord, x, y)) {
                        stamped(at(old(cells)@, x, y), #[trigger] at(cells@, x, y), TerrainKind::BareDirt)
                    } else {
                        at(cells@, x, y) == at(old(cells)@, x, y)
                    },
            decreases CHUNK_W - lx,
        {
            let idx = cell_idx(lx, ly);
            proof {
                lemma_cell_index(lx as int, ly as int, lx as int, ly as int);
            }
            let t = cells[idx].terrain;
            if !(t == TerrainKind::StreamWater || t == TerrainKind::PondWater) {
                let wx = base_x + lx as i64;
                let wy = base_y + ly as i64;
                if cell_on_road(wx, wy) {
                    let ghost before_cells = cells@;
                    cells[idx].terrain = TerrainKind::BareDirt;
                    cells[idx].tree_species = None;
                    cells[idx].decoration = Decoration::Bare;
                    proof {
                        assert forall|x: int, y: int| in_chunk(x, y) && !(x == lx && y == ly) implies at(
                            cells@,
                            x,
                            y,
                        ) == at(before_cells, x, y) by {
                            lemma_cell_index(x, y, lx as int, ly as int);
                        }
                    }
                }
            }
            lx += 1;
        }
        ly += 1;
    }
}

/// Cell `k`, row by row, takes part in the undergrowth pass: grass with
/// no items, outside the spawn disc.
pub open spec fn undergrowth_eligible(s: Seq<CellState>, k: int) -> bool {
    &&& !spawn_disc(k % (CHUNK_W as int), k / (CHUNK_W as int))
    &&& s[k].terrain == TerrainKind::Grass
    &&& s[k].items@.len() == 0
}

/// Undergrowth chance of a cell, in percent, from its canopy noise.
pub open spec fn undergrowth_pct(canopy: u8) -> int {
    (canopy * 30) / 255
}

/// Generator state when the undergrowth pass reaches cell `k`, having
/// started from `s0`: each eligible cell draws one roll, and a second for
/// the plant when the first comes under its chance.
pub open spec fn undergrowth_state(s: Seq<CellState>, canopy: Seq<u8>, s0: u64, k: nat) -> u64
    decreases k,
{
    if k == 0 {
        s0
    } else {
        let j = k - 1;
        let st = undergrowth_state(s, canopy, s0, (k - 1) as nat);
        if undergrowth_eligible(s, j) {
            if rng_output(st) % 100 < undergrowth_pct(canopy[j]) {
                rng_step(rng_step(st))
            } else {
                rng_step(st)
            }
        } else {
            st
        }
    }
}

/// Cell `k` after the undergrowth pass: an eligible cell whose roll comes
/// under its chance gets the plant the next roll picks; every other cell
/// is unchanged.
pub open spec fn undergrowth_cell(s: Seq<CellState>, canopy: Seq<u8>, moisture: Seq<u8>, s0: u64, k: int) -> CellState {
    let st = undergrowth_state(s, canopy, s0, k as nat);
    if undergrowth_eligible(s, k) && rng_output(st) % 100 < undergrowth_pct(canopy[k]) {
        CellState {
            decoration: decoration_for(canopy[k], moisture[k], (rng_output(rng_step(st)) % 100) as int),
            ..s[k]
        }
    } else {
        s[k]
    }
}

/// Scatters undergrowth over the chunk's bare grass, denser under thick
/// canopy, the plant chosen by canopy and moisture (see
/// `decoration_for`).
pub fn apply_undergrowth(cells: &mut Vec<CellState>, canopy: &Vec<u8>, moisture: &Vec<u8>, rng: &mut Rng)
    requires
        old(cells)@.len() == CHUNK_CELLS,
        canopy@.len() == CHUNK_CELLS,
        moisture@.len() == CHUNK_CELLS,
    ensures
        final(cells)@.len() == CHUNK_CELLS,
        forall|k: int|
            0 <= k < CHUNK_CELLS ==> #[trigger] final(cells)@[k] == undergrowth_cell(
                old(cells)@,
                canopy@,
                moisture@,
                old(rng).state(),
                k,
            ),
        final(rng).state() == undergrowth_state(old(cells)@, canopy@, old(rng).state(), CHUNK_CELLS as nat),
{
    let ghost s = old(cells)@;
    let ghost s0 = rng.state();
    let mut k: usize = 0;
    while k < CHUNK_CELLS
        invariant
            k <= CHUNK_CELLS,
            s == old(cells)@,
            s0 == old(rng).state(),
            cells@.len() == CHUNK_CELLS,
            canopy@.len() == CHUNK_CELLS,
            moisture@.len() == CHUNK_CELLS,
            rng.state() == undergrowth_state(s, canopy@, s0, k as nat),
            forall|j: int| 0 <= j < k ==> #[trigger] cells@[j] == undergrowth_cell(s, canopy@, moisture@, s0, j),
            forall|j: int| k <= j < CHUNK_CELLS ==> #[trigger] cells@[j] == s[j],
        decreases CHUNK_CELLS - k,
    {
        let x = (k % 40) as i32;
        let y = (k / 40) as i32;
        let ghost st = rng.state();
        let ghost before_cells = cells@;
        assert(cells@[k as int] == s[k as int]);
        if !in_spawn_disc(x, y) && cells[k].terrain == TerrainKind::Grass && cells[k].items.len() == 0 {
            let cell_p = (canopy[k] as u32 * 30) / 255;
            if rng.next_u32() % 100 < cell_p {
                let d = pick_decoration(canopy[k], moisture[k], rng);
                cells[k].decoration = d;
            }
        }
        proof {
            assert(undergrowth_state(s, canopy@, s0, (k + 1) as nat) == rng.state());
            assert(cells@[k as int] == undergrowth_cell(s, canopy@, moisture@, s0, k as int));
            assert forall|j: int| 0 <= j < CHUNK_CELLS && j != k implies #[trigger] cells@[j] == before_cells[j] by {}
        }
        k += 1;
    }
}

/// Cell `(x, y)` and its eight neighbours all lie outside the spawn
/// disc, so the spawn clean-up leaves their terrain alone.
pub open spec fn clear_of_disc(x: int, y: int) -> bool {
    x < 15 || x > 25 || y < 10 || y > 20
}

/// Tree trunks carry a species and nothing else does.
pub open spec fn trees_tagged(s: Seq<CellState>) -> bool {
    forall|k: int|
        0 <= k < s.len() ==> ((#[trigger] s[k]).terrain == TerrainKind::TreeTrunk <==> s[k].tree_species is Some)
}

/// Only tree trunks carry a species.
pub open spec fn species_on_trunks(s: Seq<CellState>) -> bool {
    forall|k: int|
        0 <= k < s.len() ==> ((#[trigger] s[k]).tree_species is Some ==> s[k].terrain == TerrainKind::TreeTrunk)
}

/// Every cell's ground is bare.
spec fn all_bare(s: Seq<CellState>) -> bool {
    forall|k: int| 0 <= k < s.len() ==> (#[trigger] s[k]).ground_cover == GroundCover::Bare
}

/// No cell has a species or any ground cover yet.
spec fn fresh_xy(s: Seq<CellState>) -> bool {
    forall|x: int, y: int|
        in_chunk(x, y) ==> (#[trigger] at(s, x, y)).tree_species is None && at(s, x, y).ground_cover
            == GroundCover::Bare
}

/// Grass carries leaf litter exactly when a tree trunk is among its
/// eight neighbours.
pub open spec fn litter_law(s: Seq<CellState>, x: int, y: int) -> bool {
    at(s, x, y).terrain == TerrainKind::Grass ==> (at(s, x, y).ground_cover == GroundCover::LeafLitter
        <==> trunk_beside(s, x, y))
}

/// `n` keeps the terrain, species and ground cover of every cell of `o`.
spec fn same_land(o: Seq<CellState>, n: Seq<CellState>) -> bool {
    &&& n.len() == o.len()
    &&& forall|k: int|
        0 <= k < o.len() ==> (#[trigger] n[k]).terrain == o[k].terrain && n[k].tree_species == o[k].tree_species
            && n[k].ground_cover == o[k].ground_cover
}

proof fn lemma_k(s: Seq<CellState>, k: int)
    requires
        0 <= k < CHUNK_CELLS,
    ensures
        in_chunk(k % (CHUNK_W as int), k / (CHUNK_W as int)),
        s[k] == at(s, k % (CHUNK_W as int), k / (CHUNK_W as int)),
{
    assert((k / 40) * 40 + k % 40 == k);
}

proof fn lemma_same_land_laws(o: Seq<CellState>, n: Seq<CellState>)
    requires
        o.len() == CHUNK_CELLS,
        same_land(o, n),
        trees_tagged(o),
        forall|x: int, y: int| in_chunk(x, y) ==> #[trigger] litter_law(o, x, y),
    ensures
        trees_tagged(n),
        forall|x: int, y: int| in_chunk(x, y) ==> #[trigger] litter_law(n, x, y),
{
    assert forall|x: int, y: int| in_chunk(x, y) implies #[trigger] litter_law(n, x, y) by {
        assert forall|xx: int, yy: int| in_chunk(xx, yy) implies #[trigger] at(n, xx, yy).terrain == at(
            o,
            xx,
            yy,
        ).terrain by {
            lemma_cell_index(xx, yy, xx, yy);
            assert(n[yy * CHUNK_W + xx].terrain == o[yy * CHUNK_W + xx].terrain);
        }
        lemma_cell_index(x, y, x, y);
        lemma_trunk_beside_terrain(n, o, x, y);
        assert(litter_law(o, x, y));
        assert(n[y * CHUNK_W + x].ground_cover == o[y * CHUNK_W + x].ground_cover);
    }
}

/// Every cell grass, with nothing on it.
fn grass_cells() -> (r: Vec<CellState>)
    ensures
        r@.len() == CHUNK_CELLS,
        fresh_xy(r@),
        forall|k: int|
            0 <= k < CHUNK_CELLS ==> (#[trigger] r@[k]).terrain == TerrainKind::Grass && r@[k].decoration
                == Decoration::Bare && r@[k].items@.len() == 0,
{
    let mut cells: Vec<CellState> = Vec::new();
    while cells.len() < CHUNK_CELLS
        invariant
            cells@.len() <= CHUNK_CELLS,
            forall|k: int|
                0 <= k < cells@.len() ==> (#[trigger] cells@[k]).tree_species is None && cells@[k].ground_cover
                    == GroundCover::Bare && cells@[k].terrain == TerrainKind::Grass && cells@[k].decoration
                    == Decoration::Bare && cells@[k].items@.len() == 0,
        decreases CHUNK_CELLS - cells@.len(),
    {
        cells.push(CellState::with_terrain(TerrainKind::Grass));
    }
    proof {
        assert forall|x: int, y: int| in_chunk(x, y) implies (#[trigger] at(cells@, x, y)).tree_species is None
            && at(cells@, x, y).ground_cover == GroundCover::Bare by {
            lemma_cell_index(x, y, x, y);
        }
    }
    cells
}

/// The spawn chunk's hand-placed scene, then the chunk's roads and
/// rivers; none of them gives a species or touches the ground cover.
/// Ground of local cell `(x, y)` of chunk `coord` before any tree grows:
/// grass; on the spawn chunk the stream, the pond with its sandy shore and
/// the hand-placed trunks; then a road's dirt on dry ground near a road,
/// then stream water near a river.
pub open spec fn scene_terrain(coord: ChunkCoord, has_road: bool, has_river: bool, x: int, y: int) -> TerrainKind {
    let spawn = coord.cx == 0 && coord.cy == 0;
    let t1 = if spawn && stream_path().contains((x as u32, y as u32)) {
        TerrainKind::StreamWater
    } else {
        TerrainKind::Grass
    };
    let t2 = if spawn {
        pond_terrain(t1, x, y)
    } else {
        t1
    };
    let t3 = if spawn && skeleton_trees().contains((x as u32, y as u32)) && t2 == TerrainKind::Grass {
        TerrainKind::TreeTrunk
    } else {
        t2
    };
    let t4 = if has_road && !(t3 == TerrainKind::StreamWater || t3 == TerrainKind::PondWater) && near_road(
        world_of(coord, x, y),
    ) {
        TerrainKind::BareDirt
    } else {
        t3
    };
    if has_river && near_river(world_of(coord, x, y)) {
        TerrainKind::StreamWater
    } else {
        t4
    }
}

fn lay_scene_and_tracks(cells: &mut Vec<CellState>, coord: ChunkCoord, info: &OvermapInfo)
    requires
        old(cells)@.len() == CHUNK_CELLS,
        fresh_xy(old(cells)@),
        forall|k: int|
            0 <= k < CHUNK_CELLS ==> (#[trigger] old(cells)@[k]).terrain == TerrainKind::Grass && old(cells)@[k].decoration
                == Decoration::Bare && old(cells)@[k].items@.len() == 0,
    ensures
        forall|k: int|
            0 <= k < CHUNK_CELLS ==> (#[trigger] final(cells)@[k]).decoration == Decoration::Bare
                && final(cells)@[k].items@.len() == 0,
        forall|x: int, y: int|
            in_chunk(x, y) ==> (#[trigger] at(final(cells)@, x, y)).terrain == scene_terrain(
                coord,
                info.has_road,
                info.has_river,
                x,
                y,
            ),
        final(cells)@.len() == CHUNK_CELLS,
        all_bare(final(cells)@),
        species_on_trunks(final(cells)@),
        forall|k: int| 0 <= k < CHUNK_CELLS ==> (#[trigger] final(cells)@[k]).tree_species is None,
{
    let ghost g0 = cells@;
    let ghost spawn = coord.cx == 0 && coord.cy == 0;
    assert forall|x: int, y: int| in_chunk(x, y) implies (#[trigger] at(g0, x, y)).terrain == TerrainKind::Grass
        && at(g0, x, y).decoration == Decoration::Bare && at(g0, x, y).items@.len() == 0 by {
        lemma_cell_index(x, y, x, y);
    }
    if coord.cx == 0 && coord.cy == 0 {
        apply_stream(cells);
        assert(fresh_xy(cells@));
        apply_pond_and_shore(cells);
        assert(fresh_xy(cells@));
        apply_skeleton_trees(cells);
        assert(fresh_xy(cells@));
    }
    let ghost g3 = cells@;
    assert forall|x: int, y: int| in_chunk(x, y) implies (#[trigger] at(g3, x, y)).terrain == {
        let t1 = if spawn && stream_path().contains((x as u32, y as u32)) {
            TerrainKind::StreamWater
        } else {
            TerrainKind::Grass
        };
        let t2 = if spawn {
            pond_terrain(t1, x, y)
        } else {
            t1
        };
        if spawn && skeleton_trees().contains((x as u32, y as u32)) && t2 == TerrainKind::Grass {
            TerrainKind::TreeTrunk
        } else {
            t2
        }
    } by {}
    if info.has_road {
        stamp_road(cells, coord);
        assert(fresh_xy(cells@));
    }
    if info.has_river {
        stamp_river(cells, coord);
        assert(fresh_xy(cells@));
    }
    proof {
        assert forall|k: int| 0 <= k < CHUNK_CELLS implies (#[trigger] cells@[k]).tree_species is None
            && cells@[k].ground_cover == GroundCover::Bare && cells@[k].decoration == Decoration::Bare
            && cells@[k].items@.len() == 0 by {
            lemma_k(cells@, k);
        }
    }
}

/// The ground of every cell of `s`, in order.
pub open spec fn terrains(s: Seq<CellState>) -> Seq<TerrainKind> {
    Seq::new(s.len(), |k: int| s[k].terrain)
}

/// A cell's chance of a tree, in percent: its canopy noise scaled by
/// `target_p_max`.
pub open spec fn tree_chance(c: u8, target_p_max: u32) -> int {
    (c as int * target_p_max as int) / 255
}

/// Cell `j` of ground `t` may grow a tree: grass outside the spawn disc.
pub open spec fn tree_eligible(t: Seq<TerrainKind>, j: int) -> bool {
    t[j] == TerrainKind::Grass && !spawn_disc(j % (CHUNK_W as int), j / (CHUNK_W as int))
}

/// The generator's state when the tree pass reaches cell `k`, from `s0`:
/// each eligible cell draws its chance, and a tree that grows draws its
/// species.
pub open spec fn tree_state(t: Seq<TerrainKind>, canopy: Seq<u8>, target_p_max: u32, s0: u64, k: int) -> u64
    decreases k,
{
    if k <= 0 {
        s0
    } else {
        let s = tree_state(t, canopy, target_p_max, s0, k - 1);
        if tree_eligible(t, k - 1) {
            if rng_output(s) % 100 < tree_chance(canopy[k - 1], target_p_max) {
                rng_step(rng_step(s))
            } else {
                rng_step(s)
            }
        } else {
            s
        }
    }
}

/// A tree grows on cell `j`.
pub open spec fn planted(t: Seq<TerrainKind>, canopy: Seq<u8>, target_p_max: u32, s0: u64, j: int) -> bool {
    tree_eligible(t, j) && rng_output(tree_state(t, canopy, target_p_max, s0, j)) % 100 < tree_chance(
        canopy[j],
        target_p_max,
    )
}

/// The generator's state when the pass naming the hand-placed trunks
/// reaches cell `k`: it starts where the tree pass ended and draws once
/// per trunk that grew no tree.
pub open spec fn naming_state(t: Seq<TerrainKind>, canopy: Seq<u8>, target_p_max: u32, s0: u64, k: int) -> u64
    decreases k,
{
    if k <= 0 {
        tree_state(t, canopy, target_p_max, s0, CHUNK_CELLS as int)
    } else {
        let s = naming_state(t, canopy, target_p_max, s0, k - 1);
        if t[k - 1] == TerrainKind::TreeTrunk && !planted(t, canopy, target_p_max, s0, k - 1) {
            rng_step(s)
        } else {
            s
        }
    }
}

/// Ground of cell `j` after the tree pass.
pub open spec fn tree_terrain(t: Seq<TerrainKind>, canopy: Seq<u8>, target_p_max: u32, s0: u64, j: int) -> TerrainKind {
    if planted(t, canopy, target_p_max, s0, j) {
        TerrainKind::TreeTrunk
    } else {
        t[j]
    }
}

/// Species of cell `j` after the tree pass: drawn for a grown tree, then
/// for a hand-placed trunk; none elsewhere.
pub open spec fn tree_species(
    t: Seq<TerrainKind>,
    canopy: Seq<u8>,
    moisture: Seq<u8>,
    target_p_max: u32,
    biome: Biome,
    s0: u64,
    j: int,
) -> Option<TreeSpecies> {
    if planted(t, canopy, target_p_max, s0, j) {
        Some(
            species_for(
                biome,
                canopy[j],
                moisture[j],
                (rng_output(rng_step(tree_state(t, canopy, target_p_max, s0, j))) % 100) as int,
            ),
        )
    } else if t[j] == TerrainKind::TreeTrunk {
        Some(species_for(biome, canopy[j], moisture[j], (rng_output(naming_state(t, canopy, target_p_max, s0, j)) % 100) as int))
    } else {
        None
    }
}

/// Grows trees on grass outside the spawn disc, each cell's chance its
/// canopy noise scaled by `target_p_max`, then gives every tree without a
/// species (the hand-placed ones) a species.
fn place_trees(
    cells: &mut Vec<CellState>,
    canopy: &Vec<u8>,
    moisture: &Vec<u8>,
    target_p_max: u32,
    biome: Biome,
    rng: &mut Rng,
)
    requires
        old(cells)@.len() == CHUNK_CELLS,
        canopy@.len() == CHUNK_CELLS,
        moisture@.len() == CHUNK_CELLS,
        target_p_max <= 100,
        all_bare(old(cells)@),
        forall|k: int| 0 <= k < CHUNK_CELLS ==> (#[trigger] old(cells)@[k]).tree_species is None,
    ensures
        final(cells)@.len() == CHUNK_CELLS,
        all_bare(final(cells)@),
        trees_tagged(final(cells)@),
        forall|k: int|
            0 <= k < CHUNK_CELLS ==> {
                &&& (#[trigger] final(cells)@[k]).terrain == tree_terrain(
                    terrains(old(cells)@),
                    canopy@,
                    target_p_max,
                    old(rng).state(),
                    k,
                )
                &&& final(cells)@[k].tree_species == tree_species(
                    terrains(old(cells)@),
                    canopy@,
                    moisture@,
                    target_p_max,
                    biome,
                    old(rng).state(),
                    k,
                )
                &&& final(cells)@[k].decoration == old(cells)@[k].decoration
                &&& final(cells)@[k].ground_cover == old(cells)@[k].ground_cover
                &&& final(cells)@[k].items == old(cells)@[k].items
            },
        final(rng).state() == naming_state(
            terrains(old(cells)@),
            canopy@,
            target_p_max,
            old(rng).state(),
            CHUNK_CELLS as int,
        ),
{
    let ghost o = cells@;
    let ghost t = terrains(cells@);
    let ghost s0 = rng.state();
    let mut k: usize = 0;
    while k < CHUNK_CELLS
        invariant
            k <= CHUNK_CELLS,
            o == old(cells)@,
            t == terrains(o),
            s0 == old(rng).state(),
            o.len() == CHUNK_CELLS,
            cells@.len() == CHUNK_CELLS,
            canopy@.len() == CHUNK_CELLS,
            moisture@.len() == CHUNK_CELLS,
            target_p_max <= 100,
            rng.state() == tree_state(t, canopy@, target_p_max, s0, k as int),
            forall|j: int|
                0 <= j < k ==> {
                    &&& (#[trigger] cells@[j]).terrain == tree_terrain(t, canopy@, target_p_max, s0, j)
                    &&& cells@[j].tree_species == if planted(t, canopy@, target_p_max, s0, j) {
                        tree_species(t, canopy@, moisture@, target_p_max, biome, s0, j)
                    } else {
                        None
                    }
                    &&& cells@[j].decoration == o[j].decoration
                    &&& cells@[j].ground_cover == o[j].ground_cover
                    &&& cells@[j].items == o[j].items
                },
            forall|j: int| k <= j < CHUNK_CELLS ==> #[trigger] cells@[j] == o[j],
            forall|j: int| 0 <= j < CHUNK_CELLS ==> (#[trigger] o[j]).tree_species is None,
        decreases CHUNK_CELLS - k,
    {
        let x = (k % 40) as i32;
        let y = (k / 40) as i32;
        let ghost before = cells@;
        let ghost s = rng.state();
        assert(t[k as int] == o[k as int].terrain);
        if cells[k].terrain == TerrainKind::Grass && !in_spawn_disc(x, y) {
            let c = canopy[k] as u32;
            proof {
                assert(c * target_p_max <= 255 * 100) by (nonlinear_arith)
                    requires
                        c <= 255,
                        target_p_max <= 100,
                ;
            }
            let cell_p = (c * target_p_max) / 255;
            if rng.next_u32() % 100 < cell_p {
                let sp = pick_species_for_biome(biome, canopy[k], moisture[k], rng);
                cells[k].terrain = TerrainKind::TreeTrunk;
                cells[k].tree_species = Some(sp);
            }
        }
        proof {
            assert forall|j: int| 0 <= j < CHUNK_CELLS && j != k implies #[trigger] cells@[j] == before[j] by {}
        }
        k += 1;
    }
    let mut k: usize = 0;
    while k < CHUNK_CELLS
        invariant
            k <= CHUNK_CELLS,
            o == old(cells)@,
            t == terrains(o),
            s0 == old(rng).state(),
            o.len() == CHUNK_CELLS,
            cells@.len() == CHUNK_CELLS,
            canopy@.len() == CHUNK_CELLS,
            moisture@.len() == CHUNK_CELLS,
            rng.state() == naming_state(t, canopy@, target_p_max, s0, k as int),
            forall|j: int|
                0 <= j < CHUNK_CELLS ==> {
                    &&& (#[trigger] cells@[j]).terrain == tree_terrain(t, canopy@, target_p_max, s0, j)
                    &&& cells@[j].tree_species == if j < k || planted(t, canopy@, target_p_max, s0, j) {
                        tree_species(t, canopy@, moisture@, target_p_max, biome, s0, j)
                    } else {
                        None
                    }
                    &&& cells@[j].decoration == o[j].decoration
                    &&& cells@[j].ground_cover == o[j].ground_cover
                    &&& cells@[j].items == o[j].items
                },
        decreases CHUNK_CELLS - k,
    {
        let ghost before = cells@;
        if cells[k].terrain == TerrainKind::TreeTrunk && cells[k].tree_species.is_none() {
            let sp = pick_species_for_biome(biome, canopy[k], moisture[k], rng);
            cells[k].tree_species = Some(sp);
        }
        proof {
            assert forall|j: int| 0 <= j < CHUNK_CELLS && j != k implies #[trigger] cells@[j] == before[j] by {}
        }
        k += 1;
    }
    proof {
        assert forall|k: int| 0 <= k < CHUNK_CELLS implies (#[trigger] cells@[k]).ground_cover == GroundCover::Bare by {
            assert(o[k].ground_cover == GroundCover::Bare);
        }
    }
}

/// The herb patch laid on a chosen cell.
pub open spec fn herb_patch() -> ItemInstance {
    ItemInstance { kind: ItemKind::Herb, count: 1, weight_g_each: 10, charges: None, metadata: ItemMetadata::Plain }
}

/// The herb search from generator state `s`, with `placed` of `count`
/// patches laid on the cells `taken` after `tries` of 200 tries: each
/// try draws a column then a row, and lays a patch where that cell of
/// `o` is bare grass not yet taken. The cells taken in the end, and the
/// state left.
pub open spec fn herb_walk(o: Seq<CellState>, taken: Set<int>, s: u64, count: int, placed: int, tries: int) -> (
    Set<int>,
    u64,
)
    decreases 200 - tries,
{
    if placed < count && tries < 200 {
        let x = rng_output(s) % CHUNK_W;
        let s1 = rng_step(s);
        let y = rng_output(s1) % CHUNK_H;
        let s2 = rng_step(s1);
        let idx = y * CHUNK_W + x;
        if bare_grass(o[idx]) && !taken.contains(idx) {
            herb_walk(o, taken.insert(idx), s2, count, placed + 1, tries + 1)
        } else {
            herb_walk(o, taken, s2, count, placed, tries + 1)
        }
    } else {
        (taken, s)
    }
}

/// The whole herb pass from state `s0`: three to five patches wanted,
/// by the first draw.
pub open spec fn herb_pass(o: Seq<CellState>, s0: u64) -> (Set<int>, u64) {
    herb_walk(o, Set::empty(), rng_step(s0), 3 + rng_output(s0) % 3, 0, 0)
}

/// Lays three to five herb patches, each on a random grass cell with
/// nothing on it, giving up after 200 tries.
fn place_herbs(cells: &mut Vec<CellState>, rng: &mut Rng)
    requires
        old(cells)@.len() == CHUNK_CELLS,
    ensures
        final(cells)@.len() == CHUNK_CELLS,
        same_land(old(cells)@, final(cells)@),
        forall|j: int| 0 <= j < CHUNK_CELLS ==> (#[trigger] final(cells)@[j]).decoration == old(cells)@[j].decoration,
        forall|j: int|
            0 <= j < CHUNK_CELLS ==> (#[trigger] final(cells)@[j]).items@ == if herb_pass(
                old(cells)@,
                old(rng).state(),
            ).0.contains(j) {
                old(cells)@[j].items@.push(herb_patch())
            } else {
                old(cells)@[j].items@
            },
        final(rng).state() == herb_pass(old(cells)@, old(rng).state()).1,
{
    let ghost o = cells@;
    let ghost s0 = rng.state();
    let herb_count: u32 = 3 + rng.next_u32() % 3;
    let mut herb_placed: u32 = 0;
    let mut herb_attempts: u32 = 0;
    let ghost mut taken: Set<int> = Set::empty();
    while herb_placed < herb_count && herb_attempts < 200
        invariant
            herb_attempts <= 200,
            herb_placed <= herb_attempts,
            o == old(cells)@,
            s0 == old(rng).state(),
            herb_count == 3 + rng_output(s0) % 3,
            cells@.len() == CHUNK_CELLS,
            same_land(o, cells@),
            forall|j: int| 0 <= j < CHUNK_CELLS ==> (#[trigger] cells@[j]).decoration == o[j].decoration,
            forall|j: int| taken.contains(j) ==> 0 <= j < CHUNK_CELLS && bare_grass(o[j]),
            forall|j: int|
                0 <= j < CHUNK_CELLS ==> (#[trigger] cells@[j]).items@ == if taken.contains(j) {
                    o[j].items@.push(herb_patch())
                } else {
                    o[j].items@
                },
            herb_walk(o, taken, rng.state(), herb_count as int, herb_placed as int, herb_attempts as int)
                == herb_pass(o, s0),
        decreases 200 - herb_attempts,
    {
        let ghost s = rng.state();
        let ghost walk = herb_walk(o, taken, s, herb_count as int, herb_placed as int, herb_attempts as int);
        herb_attempts += 1;
        let x = rng.next_u32() % CHUNK_W;
        let y = rng.next_u32() % CHUNK_H;
        let idx = cell_idx(x, y);
        proof {
            lemma_cell_index(x as int, y as int, x as int, y as int);
        }
        let ghost before = cells@;
        if cells[idx].terrain == TerrainKind::Grass && cells[idx].items.len() == 0 {
            proof {
                if taken.contains(idx as int) {
                    assert(before[idx as int].items@.len() == o[idx as int].items@.len() + 1);
                }
                assert(!taken.contains(idx as int));
                assert(bare_grass(o[idx as int]));
            }
            cells[idx].items.push(ItemInstance::unique(ItemKind::Herb, 10, None, ItemMetadata::Plain));
            herb_placed += 1;
            proof {
                assert(o[idx as int].items@ =~= Seq::<ItemInstance>::empty());
                taken = taken.insert(idx as int);
                assert forall|j: int| 0 <= j < CHUNK_CELLS && j != idx implies #[trigger] cells@[j] == before[j] by {}
            }
        } else {
            proof {
                assert(!(bare_grass(o[idx as int]) && !taken.contains(idx as int)));
            }
        }
        proof {
            assert(herb_walk(o, taken, rng.state(), herb_count as int, herb_placed as int, herb_attempts as int) == walk);
        }
    }
}

/// A grass cell with nothing lying on it.
pub open spec fn bare_grass(c: CellState) -> bool {
    c.terrain == TerrainKind::Grass && c.items@.len() == 0
}

/// The generator's state when the debris pass reaches cell `k` of `o`,
/// having started from `s0`: each bare grass cell before it took one
/// `debris` roll.
pub open spec fn debris_state(o: Seq<CellState>, s0: u64, k: int) -> u64
    decreases k,
{
    if k <= 0 {
        s0
    } else {
        let s = debris_state(o, s0, k - 1);
        if bare_grass(o[k - 1]) {
            debris(s, water_near(o, (k - 1) % (CHUNK_W as int), (k - 1) / (CHUNK_W as int))).1
        } else {
            s
        }
    }
}

/// What cell `j` of `o` holds after the debris pass from `s0`.
pub open spec fn debris_items(o: Seq<CellState>, s0: u64, j: int) -> Seq<ItemInstance> {
    if bare_grass(o[j]) {
        debris(debris_state(o, s0, j), water_near(o, j % (CHUNK_W as int), j / (CHUNK_W as int))).0
    } else {
        o[j].items@
    }
}

/// Rolls debris on every grass cell with nothing on it yet, cell by cell
/// in order, each roll taking up where the last left the generator.
fn scatter_debris(cells: &mut Vec<CellState>, rng: &mut Rng)
    requires
        old(cells)@.len() == CHUNK_CELLS,
    ensures
        final(cells)@.len() == CHUNK_CELLS,
        same_land(old(cells)@, final(cells)@),
        forall|j: int| 0 <= j < CHUNK_CELLS ==> (#[trigger] final(cells)@[j]).decoration == old(cells)@[j].decoration,
        forall|j: int|
            0 <= j < CHUNK_CELLS ==> (#[trigger] final(cells)@[j]).items@ == debris_items(old(cells)@, old(rng).state(), j),
        final(rng).state() == debris_state(old(cells)@, old(rng).state(), CHUNK_CELLS as int),
{
    let ghost o = cells@;
    let ghost s0 = rng.state();
    let near_water = compute_near_water_grid(cells);
    let mut k: usize = 0;
    while k < CHUNK_CELLS
        invariant
            k <= CHUNK_CELLS,
            o == old(cells)@,
            s0 == old(rng).state(),
            o.len() == CHUNK_CELLS,
            cells@.len() == CHUNK_CELLS,
            near_water@.len() == CHUNK_CELLS,
            forall|x: int, y: int| in_chunk(x, y) ==> #[trigger] near_water@[y * CHUNK_W + x] == water_near(o, x, y),
            same_land(o, cells@),
            forall|j: int| 0 <= j < CHUNK_CELLS ==> (#[trigger] cells@[j]).decoration == o[j].decoration,
            forall|j: int| 0 <= j < k ==> (#[trigger] cells@[j]).items@ == debris_items(o, s0, j),
            forall|j: int| k <= j < CHUNK_CELLS ==> (#[trigger] cells@[j]).items@ == o[j].items@,
            rng.state() == debris_state(o, s0, k as int),
        decreases CHUNK_CELLS - k,
    {
        proof {
            lemma_k(o, k as int);
            let x = k as int % (CHUNK_W as int);
            let y = k as int / (CHUNK_W as int);
            assert(y * CHUNK_W + x == k as int);
            assert(near_water@[y * CHUNK_W + x] == water_near(o, x, y));
        }
        let ghost before = cells@;
        if cells[k].terrain == TerrainKind::Grass && cells[k].items.len() == 0 {
            roll_debris(&mut cells[k].items, rng, near_water[k]);
            proof {
                assert(before[k as int].items@ + Seq::<ItemInstance>::empty() =~= Seq::<ItemInstance>::empty());
                assert(cells@[k as int].items@ =~= debris_items(o, s0, k as int));
            }
        }
        proof {
            assert forall|j: int| 0 <= j < CHUNK_CELLS && j != k implies #[trigger] cells@[j] == before[j] by {}
        }
        k += 1;
    }
}

proof fn lemma_litter_laid(o: Seq<CellState>, n: Seq<CellState>)
    requires
        o.len() == CHUNK_CELLS,
        n.len() == CHUNK_CELLS,
        all_bare(o),
        trees_tagged(o),
        forall|x: int, y: int|
            in_chunk(x, y) ==> {
                let c = at(o, x, y);
                cover_set(c, #[trigger] at(n, x, y), if c.terrain == TerrainKind::Grass && trunk_beside(o, x, y) {
                    GroundCover::LeafLitter
                } else {
                    c.ground_cover
                })
            },
    ensures
        trees_tagged(n),
        forall|x: int, y: int| in_chunk(x, y) ==> #[trigger] litter_law(n, x, y),
{
    assert forall|x: int, y: int| in_chunk(x, y) implies #[trigger] at(n, x, y).terrain == at(o, x, y).terrain by {}
    assert forall|x: int, y: int| in_chunk(x, y) implies #[trigger] litter_law(n, x, y) by {
        lemma_trunk_beside_terrain(n, o, x, y);
        lemma_cell_index(x, y, x, y);
        assert(o[y * CHUNK_W + x].ground_cover == GroundCover::Bare);
    }
    assert forall|j: int| 0 <= j < CHUNK_CELLS implies ((#[trigger] n[j]).terrain == TerrainKind::TreeTrunk
        <==> n[j].tree_species is Some) by {
        assert(o[j].terrain == TerrainKind::TreeTrunk <==> o[j].tree_species is Some);
        lemma_k(n, j);
        lemma_k(o, j);
    }
}

proof fn lemma_undergrowth_land(o: Seq<CellState>, n: Seq<CellState>, canopy: Seq<u8>, moisture: Seq<u8>, s0: u64)
    requires
        o.len() == CHUNK_CELLS,
        n.len() == CHUNK_CELLS,
        forall|k: int| 0 <= k < CHUNK_CELLS ==> #[trigger] n[k] == undergrowth_cell(o, canopy, moisture, s0, k),
    ensures
        same_land(o, n),
{
    assert forall|j: int| 0 <= j < CHUNK_CELLS implies (#[trigger] n[j]).terrain == o[j].terrain && n[j].tree_species
        == o[j].tree_species && n[j].ground_cover == o[j].ground_cover by {
        assert(n[j] == undergrowth_cell(o, canopy, moisture, s0, j));
    }
}

/// Reopens the spawn cell `(CHUNK_W / 2, CHUNK_H / 2)` to grass when what
/// was stamped there (a city wall, water) would stop the player landing;
/// every other cell, and a walkable spawn cell, is left as it is.
pub fn reopen_spawn_cell(cells: &mut Vec<CellState>)
    requires
        old(cells)@.len() == CHUNK_CELLS,
    ensures
        final(cells)@.len() == CHUNK_CELLS,
        forall|k: int|
            0 <= k < CHUNK_CELLS && k != SPAWN_IDX ==> #[trigger] final(cells)@[k] == old(cells)@[k],
        walkable_terrain(old(cells)@[SPAWN_IDX as int].terrain) ==> final(cells)@[SPAWN_IDX as int]
            == old(cells)@[SPAWN_IDX as int],
        !walkable_terrain(old(cells)@[SPAWN_IDX as int].terrain) ==> final(cells)@[SPAWN_IDX as int] == (CellState {
            terrain: TerrainKind::Grass,
            tree_species: None,
            ..old(cells)@[SPAWN_IDX as int]
        }),
{
    let idx = cell_idx(CHUNK_W / 2, CHUNK_H / 2);
    if !cells[idx].terrain.walkable() {
        cells[idx].terrain = TerrainKind::Grass;
        cells[idx].tree_species = None;
    }
}

proof fn lemma_spawn_reopened(o: Seq<CellState>, n: Seq<CellState>)
    requires
        o.len() == CHUNK_CELLS,
        n.len() == CHUNK_CELLS,
        forall|k: int| 0 <= k < CHUNK_CELLS && k != SPAWN_IDX ==> #[trigger] n[k] == o[k],
        n[SPAWN_IDX as int].terrain != TerrainKind::TreeTrunk || n[SPAWN_IDX as int] == o[SPAWN_IDX as int],
        n[SPAWN_IDX as int].decoration == o[SPAWN_IDX as int].decoration,
        n[SPAWN_IDX as int].tree_species is None || n[SPAWN_IDX as int] == o[SPAWN_IDX as int],
    ensures
        forall|x: int, y: int| in_chunk(x, y) && !(x == 20 && y == 15) ==> #[trigger] at(n, x, y) == at(o, x, y),
        forall|x: int, y: int|
            in_chunk(x, y) && clear_of_disc(x, y) ==> (#[trigger] litter_law(n, x, y) <==> litter_law(o, x, y)),
        trees_tagged(o) ==> trees_tagged(n),
        species_on_trunks(o) ==> species_on_trunks(n),
        forall|x: int, y: int|
            in_chunk(x, y) && spawn_disc(x, y) && (#[trigger] at(o, x, y)).terrain != TerrainKind::TreeTrunk && !(at(
                o,
                x,
                y,
            ).decoration is Gorse) ==> at(n, x, y).terrain != TerrainKind::TreeTrunk && !(at(n, x, y).decoration is Gorse),
{
    assert forall|x: int, y: int| in_chunk(x, y) && !(x == 20 && y == 15) implies #[trigger] at(n, x, y) == at(o, x, y) by {
        lemma_cell_index(x, y, 20, 15);
    }
    assert forall|x: int, y: int| in_chunk(x, y) && clear_of_disc(x, y) implies (#[trigger] litter_law(n, x, y)
        <==> litter_law(o, x, y)) by {
        assert forall|xx: int, yy: int| in_chunk(xx, yy) && -1 <= xx - x <= 1 && -1 <= yy - y <= 1 implies #[trigger] at(
            n,
            xx,
            yy,
        ) == at(o, xx, yy) by {
            lemma_cell_index(xx, yy, 20, 15);
        }
        lemma_cell_index(x, y, 20, 15);
    }
    assert forall|x: int, y: int|
        in_chunk(x, y) && spawn_disc(x, y) && (#[trigger] at(o, x, y)).terrain != TerrainKind::TreeTrunk && !(at(
            o,
            x,
            y,
        ).decoration is Gorse) implies at(n, x, y).terrain != TerrainKind::TreeTrunk && !(at(n, x, y).decoration is Gorse) by {
        lemma_cell_index(x, y, 20, 15);
    }
}

proof fn lemma_disc_tags(o: Seq<CellState>, n: Seq<CellState>)
    requires
        o.len() == CHUNK_CELLS,
        n.len() == CHUNK_CELLS,
        forall|x: int, y: int|
            in_chunk(x, y) ==> if spawn_disc(x, y) {
                disc_cleared(at(o, x, y), #[trigger] at(n, x, y))
            } else {
                at(n, x, y) == at(o, x, y)
            },
    ensures
        species_on_trunks(o) ==> species_on_trunks(n),
        trees_tagged(o) ==> trees_tagged(n),
{
    if species_on_trunks(o) {
        assert forall|k: int| 0 <= k < CHUNK_CELLS implies ((#[trigger] n[k]).tree_species is Some ==> n[k].terrain
            == TerrainKind::TreeTrunk) by {
            lemma_k(o, k);
            lemma_k(n, k);
        }
    }
    if trees_tagged(o) {
        assert forall|k: int| 0 <= k < CHUNK_CELLS implies ((#[trigger] n[k]).terrain == TerrainKind::TreeTrunk
            <==> n[k].tree_species is Some) by {
            lemma_k(o, k);
            lemma_k(n, k);
        }
    }
}

proof fn lemma_disc_walkable(o: Seq<CellState>, n: Seq<CellState>)
    requires
        forall|x: int, y: int|
            in_chunk(x, y) ==> if spawn_disc(x, y) {
                disc_cleared(at(o, x, y), #[trigger] at(n, x, y))
            } else {
                at(n, x, y) == at(o, x, y)
            },
    ensures
        forall|x: int, y: int|
            in_chunk(x, y) && spawn_disc(x, y) ==> (#[trigger] at(n, x, y)).terrain != TerrainKind::TreeTrunk && !(at(
                n,
                x,
                y,
            ).decoration is Gorse),
{
}

/// No city in `cities` reaches chunk `coord`.
pub open spec fn no_city_reaches(cities: Seq<LoadedCity>, coord: ChunkCoord) -> bool {
    forall|i: int| 0 <= i < cities.len() ==> !rects_meet(#[trigger] cities[i].bbox, chunk_rect(coord))
}

proof fn lemma_disc_cleared_laws(o: Seq<CellState>, n: Seq<CellState>)
    requires
        o.len() == CHUNK_CELLS,
        n.len() == CHUNK_CELLS,
        trees_tagged(o),
        forall|x: int, y: int| in_chunk(x, y) ==> #[trigger] litter_law(o, x, y),
        forall|x: int, y: int|
            in_chunk(x, y) ==> if spawn_disc(x, y) {
                disc_cleared(at(o, x, y), #[trigger] at(n, x, y))
            } else {
                at(n, x, y) == at(o, x, y)
            },
    ensures
        trees_tagged(n),
        forall|x: int, y: int|
            in_chunk(x, y) && spawn_disc(x, y) ==> (#[trigger] at(n, x, y)).terrain != TerrainKind::TreeTrunk && !(at(
                n,
                x,
                y,
            ).decoration is Gorse),
        forall|x: int, y: int| in_chunk(x, y) && clear_of_disc(x, y) ==> #[trigger] litter_law(n, x, y),
{
    assert forall|j: int| 0 <= j < CHUNK_CELLS implies ((#[trigger] n[j]).terrain == TerrainKind::TreeTrunk
        <==> n[j].tree_species is Some) by {
        assert(o[j].terrain == TerrainKind::TreeTrunk <==> o[j].tree_species is Some);
        lemma_k(n, j);
        lemma_k(o, j);
    }
    assert forall|x: int, y: int| in_chunk(x, y) && clear_of_disc(x, y) implies #[trigger] litter_law(n, x, y) by {
        assert(litter_law(o, x, y));
        assert forall|xx: int, yy: int| in_chunk(xx, yy) implies #[trigger] trunk_at(n, xx, yy) == trunk_at(o, xx, yy)
            || (xx - x > 1 || x - xx > 1 || yy - y > 1 || y - yy > 1) by {
            if !(xx - x > 1 || x - xx > 1 || yy - y > 1 || y - yy > 1) {
                assert(!spawn_disc(xx, yy));
            }
        }
        assert(trunk_beside(n, x, y) == trunk_beside(o, x, y));
    }
}

/// Which cells of `o` are bare grass.
pub open spec fn bare_mask(o: Seq<CellState>) -> Seq<bool> {
    Seq::new(o.len(), |k: int| bare_grass(o[k]))
}

/// `herb_walk` over a mask of bare-grass cells.
pub open spec fn herb_walk_m(bare: Seq<bool>, taken: Set<int>, s: u64, count: int, placed: int, tries: int) -> (
    Set<int>,
    u64,
)
    decreases 200 - tries,
{
    if placed < count && tries < 200 {
        let x = rng_output(s) % CHUNK_W;
        let s1 = rng_step(s);
        let y = rng_output(s1) % CHUNK_H;
        let s2 = rng_step(s1);
        let idx = y * CHUNK_W + x;
        if bare[idx] && !taken.contains(idx) {
            herb_walk_m(bare, taken.insert(idx), s2, count, placed + 1, tries + 1)
        } else {
            herb_walk_m(bare, taken, s2, count, placed, tries + 1)
        }
    } else {
        (taken, s)
    }
}

proof fn lemma_herb_walk_mask(o: Seq<CellState>, taken: Set<int>, s: u64, count: int, placed: int, tries: int)
    requires
        o.len() == CHUNK_CELLS,
    ensures
        herb_walk(o, taken, s, count, placed, tries) == herb_walk_m(bare_mask(o), taken, s, count, placed, tries),
    decreases 200 - tries,
{
    if placed < count && tries < 200 {
        let x = rng_output(s) % CHUNK_W;
        let s1 = rng_step(s);
        let y = rng_output(s1) % CHUNK_H;
        let s2 = rng_step(s1);
        let idx = y * CHUNK_W + x;
        assert(0 <= idx < CHUNK_CELLS);
        assert(bare_mask(o)[idx] == bare_grass(o[idx]));
        lemma_herb_walk_mask(o, taken.insert(idx), s2, count, placed + 1, tries + 1);
        lemma_herb_walk_mask(o, taken, s2, count, placed, tries + 1);
    }
}

/// Cells of `o` the undergrowth pass may plant.
pub open spec fn free_mask(o: Seq<CellState>) -> Seq<bool> {
    Seq::new(o.len(), |k: int| undergrowth_eligible(o, k))
}

/// `undergrowth_state` over a mask of plantable cells.
pub open spec fn undergrowth_state_m(free: Seq<bool>, canopy: Seq<u8>, s0: u64, k: nat) -> u64
    decreases k,
{
    if k == 0 {
        s0
    } else {
        let j = k - 1;
        let st = undergrowth_state_m(free, canopy, s0, (k - 1) as nat);
        if free[j] {
            if rng_output(st) % 100 < undergrowth_pct(canopy[j]) {
                rng_step(rng_step(st))
            } else {
                rng_step(st)
            }
        } else {
            st
        }
    }
}

proof fn lemma_undergrowth_mask(o: Seq<CellState>, canopy: Seq<u8>, s0: u64, k: nat)
    requires
        k <= o.len(),
    ensures
        undergrowth_state(o, canopy, s0, k) == undergrowth_state_m(free_mask(o), canopy, s0, k),
    decreases k,
{
    if k > 0 {
        lemma_undergrowth_mask(o, canopy, s0, (k - 1) as nat);
        assert(free_mask(o)[k - 1] == undergrowth_eligible(o, k - 1));
    }
}

/// Ground `t` holds water at local cell `(x, y)`.
pub open spec fn water_at_t(t: Seq<TerrainKind>, x: int, y: int) -> bool {
    in_chunk(x, y) && (t[y * CHUNK_W + x] == TerrainKind::StreamWater || t[y * CHUNK_W + x] == TerrainKind::PondWater)
}

/// `water_near` over ground `t`.
pub open spec fn water_near_t(t: Seq<TerrainKind>, x: int, y: int) -> bool {
    ||| water_at_t(t, x - 1, y - 1)
    ||| water_at_t(t, x, y - 1)
    ||| water_at_t(t, x + 1, y - 1)
    ||| water_at_t(t, x - 1, y)
    ||| water_at_t(t, x, y)
    ||| water_at_t(t, x + 1, y)
    ||| water_at_t(t, x - 1, y + 1)
    ||| water_at_t(t, x, y + 1)
    ||| water_at_t(t, x + 1, y + 1)
}

/// Ground `t` has a trunk at local cell `(x, y)`.
pub open spec fn trunk_at_t(t: Seq<TerrainKind>, x: int, y: int) -> bool {
    in_chunk(x, y) && t[y * CHUNK_W + x] == TerrainKind::TreeTrunk
}

/// `trunk_beside` over ground `t`.
pub open spec fn trunk_beside_t(t: Seq<TerrainKind>, x: int, y: int) -> bool {
    ||| trunk_at_t(t, x - 1, y - 1)
    ||| trunk_at_t(t, x, y - 1)
    ||| trunk_at_t(t, x + 1, y - 1)
    ||| trunk_at_t(t, x - 1, y)
    ||| trunk_at_t(t, x + 1, y)
    ||| trunk_at_t(t, x - 1, y + 1)
    ||| trunk_at_t(t, x, y + 1)
    ||| trunk_at_t(t, x + 1, y + 1)
}

proof fn lemma_ground_views(o: Seq<CellState>, t: Seq<TerrainKind>, x: int, y: int)
    requires
        o.len() == CHUNK_CELLS,
        t.len() == CHUNK_CELLS,
        forall|k: int| 0 <= k < CHUNK_CELLS ==> (#[trigger] o[k]).terrain == t[k],
    ensures
        water_near(o, x, y) == water_near_t(t, x, y),
        trunk_beside(o, x, y) == trunk_beside_t(t, x, y),
{
    assert forall|xx: int, yy: int| in_chunk(xx, yy) implies #[trigger] at(o, xx, yy).terrain == t[yy * CHUNK_W + xx] by {
        lemma_cell_index(xx, yy, xx, yy);
    }
}

/// `debris_state` over a mask of bare-grass cells and their water flags.
pub open spec fn debris_state_m(bare: Seq<bool>, near: Seq<bool>, s0: u64, k: int) -> u64
    decreases k,
{
    if k <= 0 {
        s0
    } else {
        let s = debris_state_m(bare, near, s0, k - 1);
        if bare[k - 1] {
            debris(s, near[k - 1]).1
        } else {
            s
        }
    }
}

/// Water flags of every cell of ground `t`.
pub open spec fn near_mask(t: Seq<TerrainKind>) -> Seq<bool> {
    Seq::new(t.len(), |k: int| water_near_t(t, k % (CHUNK_W as int), k / (CHUNK_W as int)))
}

proof fn lemma_debris_mask(o: Seq<CellState>, s0: u64, k: int)
    requires
        o.len() == CHUNK_CELLS,
        0 <= k <= CHUNK_CELLS,
    ensures
        debris_state(o, s0, k) == debris_state_m(bare_mask(o), near_mask(terrains(o)), s0, k),
    decreases k,
{
    if k > 0 {
        lemma_debris_mask(o, s0, k - 1);
        lemma_ground_views(o, terrains(o), (k - 1) % (CHUNK_W as int), (k - 1) / (CHUNK_W as int));
    }
}

/// Ground of every cell of chunk `coord` before trees grow, in cell order.
pub open spec fn scene_seq(coord: ChunkCoord, has_road: bool, has_river: bool) -> Seq<TerrainKind> {
    Seq::new(
        CHUNK_CELLS as nat,
        |k: int| scene_terrain(coord, has_road, has_river, k % (CHUNK_W as int), k / (CHUNK_W as int)),
    )
}

/// Ground and species of cell `k` of a land chunk that no city reaches:
/// the tree pass over `scene` from generator state `s0`, trunks cleared
/// from the spawn disc, and the spawn cell reopened to grass if it is not
/// walkable.
pub open spec fn land_cell(
    scene: Seq<TerrainKind>,
    canopy: Seq<u8>,
    moisture: Seq<u8>,
    target_p_max: u32,
    biome: Biome,
    s0: u64,
    k: int,
) -> (TerrainKind, Option<TreeSpecies>) {
    let t = tree_terrain(scene, canopy, target_p_max, s0, k);
    let sp = tree_species(scene, canopy, moisture, target_p_max, biome, s0, k);
    let (t2, sp2) = if spawn_disc(k % (CHUNK_W as int), k / (CHUNK_W as int)) && t == TerrainKind::TreeTrunk {
        (TerrainKind::Grass, None)
    } else {
        (t, sp)
    };
    if k == SPAWN_IDX && !walkable_terrain(t2) {
        (TerrainKind::Grass, None)
    } else {
        (t2, sp2)
    }
}

/// Ground of every cell after the tree pass.
pub open spec fn grown_terrain(scene: Seq<TerrainKind>, canopy: Seq<u8>, target_p_max: u32, s0: u64) -> Seq<TerrainKind> {
    Seq::new(CHUNK_CELLS as nat, |k: int| tree_terrain(scene, canopy, target_p_max, s0, k))
}

/// The herb pass of a land chunk: the cells given a herb patch, and the
/// generator's state after it.
pub open spec fn land_herbs(scene: Seq<TerrainKind>, canopy: Seq<u8>, target_p_max: u32, s0: u64) -> (Set<int>, u64) {
    let t = grown_terrain(scene, canopy, target_p_max, s0);
    let st = naming_state(scene, canopy, target_p_max, s0, CHUNK_CELLS as int);
    herb_walk_m(
        Seq::new(CHUNK_CELLS as nat, |k: int| t[k] == TerrainKind::Grass),
        Set::empty(),
        rng_step(st),
        3 + rng_output(st) % 3,
        0,
        0,
    )
}

/// Grass cells with nothing on them after the herb pass.
pub open spec fn land_bare(scene: Seq<TerrainKind>, canopy: Seq<u8>, target_p_max: u32, s0: u64) -> Seq<bool> {
    let t = grown_terrain(scene, canopy, target_p_max, s0);
    let herbs = land_herbs(scene, canopy, target_p_max, s0).0;
    Seq::new(CHUNK_CELLS as nat, |k: int| t[k] == TerrainKind::Grass && !herbs.contains(k))
}

/// Cells the undergrowth pass may plant: bare grass outside the spawn
/// disc.
pub open spec fn land_free(scene: Seq<TerrainKind>, canopy: Seq<u8>, target_p_max: u32, s0: u64) -> Seq<bool> {
    let b = land_bare(scene, canopy, target_p_max, s0);
    Seq::new(
        CHUNK_CELLS as nat,
        |k: int| b[k] && !spawn_disc(k % (CHUNK_W as int), k / (CHUNK_W as int)),
    )
}

/// Decoration of cell `k` after the undergrowth pass.
pub open spec fn land_decoration(
    scene: Seq<TerrainKind>,
    canopy: Seq<u8>,
    moisture: Seq<u8>,
    target_p_max: u32,
    s0: u64,
    k: int,
) -> Decoration {
    let free = land_free(scene, canopy, target_p_max, s0);
    let st = undergrowth_state_m(free, canopy, land_herbs(scene, canopy, target_p_max, s0).1, k as nat);
    if free[k] && rng_output(st) % 100 < undergrowth_pct(canopy[k]) {
        decoration_for(canopy[k], moisture[k], (rng_output(rng_step(st)) % 100) as int)
    } else {
        Decoration::Bare
    }
}

/// What lies on cell `k` in the end: a herb patch, or the debris rolled
/// on bare grass, or nothing.
pub open spec fn land_items(
    scene: Seq<TerrainKind>,
    canopy: Seq<u8>,
    target_p_max: u32,
    s0: u64,
    k: int,
) -> Seq<ItemInstance> {
    let t = grown_terrain(scene, canopy, target_p_max, s0);
    let b = land_bare(scene, canopy, target_p_max, s0);
    let su = undergrowth_state_m(
        land_free(scene, canopy, target_p_max, s0),
        canopy,
        land_herbs(scene, canopy, target_p_max, s0).1,
        CHUNK_CELLS as nat,
    );
    if b[k] {
        debris(debris_state_m(b, near_mask(t), su, k), near_mask(t)[k]).0
    } else if land_herbs(scene, canopy, target_p_max, s0).0.contains(k) {
        seq![herb_patch()]
    } else {
        Seq::empty()
    }
}

/// Ground cover of cell `k`: leaf litter on grass beside a trunk.
pub open spec fn land_cover(scene: Seq<TerrainKind>, canopy: Seq<u8>, target_p_max: u32, s0: u64, k: int) -> GroundCover {
    let t = grown_terrain(scene, canopy, target_p_max, s0);
    if t[k] == TerrainKind::Grass && trunk_beside_t(t, k % (CHUNK_W as int), k / (CHUNK_W as int)) {
        GroundCover::LeafLitter
    } else {
        GroundCover::Bare
    }
}

proof fn lemma_land_herbs(
    g: Seq<CellState>,
    h: Seq<CellState>,
    scene: Seq<TerrainKind>,
    canopy: Seq<u8>,
    target_p_max: u32,
    s0: u64,
    sg: u64,
    sh: u64,
)
    requires
        g.len() == CHUNK_CELLS,
        h.len() == CHUNK_CELLS,
        sg == naming_state(scene, canopy, target_p_max, s0, CHUNK_CELLS as int),
        forall|k: int|
            0 <= k < CHUNK_CELLS ==> (#[trigger] g[k]).terrain == tree_terrain(scene, canopy, target_p_max, s0, k)
                && g[k].items@.len() == 0,
        forall|j: int|
            0 <= j < CHUNK_CELLS ==> (#[trigger] h[j]).items@ == if herb_pass(g, sg).0.contains(j) {
                g[j].items@.push(herb_patch())
            } else {
                g[j].items@
            },
        sh == herb_pass(g, sg).1,
    ensures
        forall|j: int|
            0 <= j < CHUNK_CELLS ==> (#[trigger] h[j]).items@ == if land_herbs(scene, canopy, target_p_max, s0).0.contains(j) {
                seq![herb_patch()]
            } else {
                Seq::empty()
            },
        sh == land_herbs(scene, canopy, target_p_max, s0).1,
        herb_pass(g, sg) == land_herbs(scene, canopy, target_p_max, s0),
{
    let t = grown_terrain(scene, canopy, target_p_max, s0);
    lemma_herb_walk_mask(g, Set::empty(), rng_step(sg), 3 + rng_output(sg) % 3, 0, 0);
    assert(bare_mask(g) =~= Seq::new(CHUNK_CELLS as nat, |k: int| t[k] == TerrainKind::Grass));
    assert forall|j: int| 0 <= j < CHUNK_CELLS implies (#[trigger] h[j]).items@ == if land_herbs(
        scene,
        canopy,
        target_p_max,
        s0,
    ).0.contains(j) {
        seq![herb_patch()]
    } else {
        Seq::empty()
    } by {
        assert(g[j].items@ =~= Seq::<ItemInstance>::empty());
        assert(Seq::<ItemInstance>::empty().push(herb_patch()) =~= seq![herb_patch()]);
    }
}

proof fn lemma_land_after_growth(
    l: Seq<CellState>,
    u: Seq<CellState>,
    scene: Seq<TerrainKind>,
    canopy: Seq<u8>,
    moisture: Seq<u8>,
    target_p_max: u32,
    s0: u64,
    sh: u64,
)
    requires
        l.len() == CHUNK_CELLS,
        u.len() == CHUNK_CELLS,
        canopy.len() == CHUNK_CELLS,
        sh == land_herbs(scene, canopy, target_p_max, s0).1,
        forall|k: int|
            0 <= k < CHUNK_CELLS ==> (#[trigger] l[k]).terrain == tree_terrain(scene, canopy, target_p_max, s0, k)
                && l[k].decoration == Decoration::Bare && l[k].items@ == if land_herbs(
                scene,
                canopy,
                target_p_max,
                s0,
            ).0.contains(k) {
                seq![herb_patch()]
            } else {
                Seq::<ItemInstance>::empty()
            },
        forall|k: int| 0 <= k < CHUNK_CELLS ==> #[trigger] u[k] == undergrowth_cell(l, canopy, moisture, sh, k),
    ensures
        forall|k: int|
            0 <= k < CHUNK_CELLS ==> (#[trigger] u[k]).decoration == land_decoration(
                scene,
                canopy,
                moisture,
                target_p_max,
                s0,
                k,
            ) && u[k].items == l[k].items && u[k].terrain == l[k].terrain,
        undergrowth_state(l, canopy, sh, CHUNK_CELLS as nat) == undergrowth_state_m(
            land_free(scene, canopy, target_p_max, s0),
            canopy,
            sh,
            CHUNK_CELLS as nat,
        ),
        bare_mask(u) == land_bare(scene, canopy, target_p_max, s0),
        terrains(u) == grown_terrain(scene, canopy, target_p_max, s0),
{
    let free = land_free(scene, canopy, target_p_max, s0);
    assert forall|k: int| 0 <= k < CHUNK_CELLS implies free_mask(l)[k] == free[k] by {
        if land_herbs(scene, canopy, target_p_max, s0).0.contains(k) {
            assert(l[k].items@.len() == 1);
        }
    }
    assert(free_mask(l) =~= free);
    assert forall|k: nat| k <= CHUNK_CELLS implies #[trigger] undergrowth_state(l, canopy, sh, k)
        == undergrowth_state_m(free, canopy, sh, k) by {
        lemma_undergrowth_mask(l, canopy, sh, k);
    }
    assert forall|k: int| 0 <= k < CHUNK_CELLS implies bare_mask(u)[k] == land_bare(scene, canopy, target_p_max, s0)[k] by {
        assert(u[k] == undergrowth_cell(l, canopy, moisture, sh, k));
        if land_herbs(scene, canopy, target_p_max, s0).0.contains(k) {
            assert(l[k].items@.len() == 1);
        }
    }
    assert(bare_mask(u) =~= land_bare(scene, canopy, target_p_max, s0));
    assert forall|k: int| 0 <= k < CHUNK_CELLS implies terrains(u)[k] == grown_terrain(scene, canopy, target_p_max, s0)[k] by {
        assert(u[k] == undergrowth_cell(l, canopy, moisture, sh, k));
    }
    assert(terrains(u) =~= grown_terrain(scene, canopy, target_p_max, s0));
    assert forall|k: int| 0 <= k < CHUNK_CELLS implies (#[trigger] u[k]).decoration == land_decoration(
        scene,
        canopy,
        moisture,
        target_p_max,
        s0,
        k,
    ) && u[k].items == l[k].items && u[k].terrain == l[k].terrain by {
        assert(u[k] == undergrowth_cell(l, canopy, moisture, sh, k));
        assert(undergrowth_state(l, canopy, sh, k as nat) == undergrowth_state_m(free, canopy, sh, k as nat));
        if land_herbs(scene, canopy, target_p_max, s0).0.contains(k) {
            assert(l[k].items@.len() == 1);
        }
    }
}

proof fn lemma_land_litter(
    h: Seq<CellState>,
    l: Seq<CellState>,
    scene: Seq<TerrainKind>,
    canopy: Seq<u8>,
    target_p_max: u32,
    s0: u64,
)
    requires
        h.len() == CHUNK_CELLS,
        l.len() == CHUNK_CELLS,
        forall|k: int|
            0 <= k < CHUNK_CELLS ==> (#[trigger] h[k]).terrain == tree_terrain(scene, canopy, target_p_max, s0, k)
                && h[k].ground_cover == GroundCover::Bare,
        forall|x: int, y: int|
            in_chunk(x, y) ==> {
                let c = at(h, x, y);
                cover_set(c, #[trigger] at(l, x, y), if c.terrain == TerrainKind::Grass && trunk_beside(h, x, y) {
                    GroundCover::LeafLitter
                } else {
                    c.ground_cover
                })
            },
    ensures
        forall|k: int|
            0 <= k < CHUNK_CELLS ==> {
                &&& (#[trigger] l[k]).ground_cover == land_cover(scene, canopy, target_p_max, s0, k)
                &&& l[k].terrain == h[k].terrain
                &&& l[k].tree_species == h[k].tree_species
                &&& l[k].decoration == h[k].decoration
                &&& l[k].items == h[k].items
            },
{
    let t = grown_terrain(scene, canopy, target_p_max, s0);
    assert forall|k: int| 0 <= k < CHUNK_CELLS implies (#[trigger] h[k]).terrain == t[k] by {}
    assert forall|k: int| 0 <= k < CHUNK_CELLS implies {
        &&& (#[trigger] l[k]).ground_cover == land_cover(scene, canopy, target_p_max, s0, k)
        &&& l[k].terrain == h[k].terrain
        &&& l[k].tree_species == h[k].tree_species
        &&& l[k].decoration == h[k].decoration
        &&& l[k].items == h[k].items
    } by {
        lemma_k(h, k);
        lemma_k(l, k);
        lemma_ground_views(h, t, k % (CHUNK_W as int), k / (CHUNK_W as int));
    }
}

proof fn lemma_land_debris(
    u: Seq<CellState>,
    d: Seq<CellState>,
    scene: Seq<TerrainKind>,
    canopy: Seq<u8>,
    target_p_max: u32,
    s0: u64,
    su: u64,
)
    requires
        u.len() == CHUNK_CELLS,
        d.len() == CHUNK_CELLS,
        bare_mask(u) == land_bare(scene, canopy, target_p_max, s0),
        terrains(u) == grown_terrain(scene, canopy, target_p_max, s0),
        su == undergrowth_state_m(
            land_free(scene, canopy, target_p_max, s0),
            canopy,
            land_herbs(scene, canopy, target_p_max, s0).1,
            CHUNK_CELLS as nat,
        ),
        forall|k: int|
            0 <= k < CHUNK_CELLS ==> (#[trigger] u[k]).items@ == if land_herbs(scene, canopy, target_p_max, s0).0.contains(k) {
                seq![herb_patch()]
            } else {
                Seq::<ItemInstance>::empty()
            },
        forall|j: int| 0 <= j < CHUNK_CELLS ==> (#[trigger] d[j]).items@ == debris_items(u, su, j),
    ensures
        forall|j: int| 0 <= j < CHUNK_CELLS ==> (#[trigger] d[j]).items@ == land_items(scene, canopy, target_p_max, s0, j),
{
    let t = grown_terrain(scene, canopy, target_p_max, s0);
    assert forall|j: int| 0 <= j < CHUNK_CELLS implies (#[trigger] d[j]).items@ == land_items(
        scene,
        canopy,
        target_p_max,
        s0,
        j,
    ) by {
        lemma_debris_mask(u, su, j);
        assert forall|k: int| 0 <= k < CHUNK_CELLS implies (#[trigger] u[k]).terrain == t[k] by {
            assert(terrains(u)[k] == t[k]);
        }
        lemma_ground_views(u, t, j % (CHUNK_W as int), j / (CHUNK_W as int));
        assert(bare_mask(u)[j] == bare_grass(u[j]));
    }
}

proof fn lemma_litter_same_land(o: Seq<CellState>, n: Seq<CellState>)
    requires
        o.len() == CHUNK_CELLS,
        n.len() == CHUNK_CELLS,
        forall|x: int, y: int|
            in_chunk(x, y) ==> {
                let c = at(o, x, y);
                cover_set(c, #[trigger] at(n, x, y), if c.terrain == TerrainKind::Grass && trunk_beside(o, x, y) {
                    GroundCover::LeafLitter
                } else {
                    c.ground_cover
                })
            },
    ensures
        forall|k: int|
            0 <= k < CHUNK_CELLS ==> (#[trigger] n[k]).terrain == o[k].terrain && n[k].tree_species == o[k].tree_species,
{
    assert forall|k: int| 0 <= k < CHUNK_CELLS implies (#[trigger] n[k]).terrain == o[k].terrain && n[k].tree_species
        == o[k].tree_species by {
        lemma_k(o, k);
        lemma_k(n, k);
    }
}

/// Two cell sequences agree on every cell's ground and species.
spec fn same_trees(a: Seq<CellState>, b: Seq<CellState>) -> bool {
    &&& a.len() == b.len()
    &&& forall|k: int|
        0 <= k < a.len() ==> (#[trigger] b[k]).terrain == a[k].terrain && b[k].tree_species == a[k].tree_species
}

proof fn lemma_same_land_trans(a: Seq<CellState>, b: Seq<CellState>, c: Seq<CellState>)
    requires
        a.len() == CHUNK_CELLS,
        same_trees(a, b) || same_land(a, b),
        b.len() == CHUNK_CELLS,
        c.len() == CHUNK_CELLS,
        forall|k: int|
            0 <= k < CHUNK_CELLS ==> (#[trigger] c[k]).terrain == b[k].terrain && c[k].tree_species == b[k].tree_species,
    ensures
        same_trees(a, c),
{
}

proof fn lemma_land_content(
    grown: Seq<CellState>,
    pre_disc: Seq<CellState>,
    post_disc: Seq<CellState>,
    fin: Seq<CellState>,
    scene: Seq<TerrainKind>,
    canopy: Seq<u8>,
    moisture: Seq<u8>,
    target_p_max: u32,
    biome: Biome,
    s0: u64,
)
    requires
        grown.len() == CHUNK_CELLS,
        pre_disc.len() == CHUNK_CELLS,
        post_disc.len() == CHUNK_CELLS,
        fin.len() == CHUNK_CELLS,
        forall|k: int|
            0 <= k < CHUNK_CELLS ==> (#[trigger] grown[k]).terrain == tree_terrain(scene, canopy, target_p_max, s0, k)
                && grown[k].tree_species == tree_species(scene, canopy, moisture, target_p_max, biome, s0, k),
        same_trees(grown, pre_disc),
        forall|x: int, y: int|
            in_chunk(x, y) ==> if spawn_disc(x, y) {
                disc_cleared(at(pre_disc, x, y), #[trigger] at(post_disc, x, y))
            } else {
                at(post_disc, x, y) == at(pre_disc, x, y)
            },
        forall|k: int| 0 <= k < CHUNK_CELLS && k != SPAWN_IDX ==> #[trigger] fin[k] == post_disc[k],
        walkable_terrain(post_disc[SPAWN_IDX as int].terrain) ==> fin[SPAWN_IDX as int] == post_disc[SPAWN_IDX as int],
        !walkable_terrain(post_disc[SPAWN_IDX as int].terrain) ==> fin[SPAWN_IDX as int].terrain == TerrainKind::Grass
            && fin[SPAWN_IDX as int].tree_species is None && fin[SPAWN_IDX as int].decoration == post_disc[SPAWN_IDX as int].decoration
            && fin[SPAWN_IDX as int].ground_cover == post_disc[SPAWN_IDX as int].ground_cover
            && fin[SPAWN_IDX as int].items == post_disc[SPAWN_IDX as int].items,
        forall|k: int|
            0 <= k < CHUNK_CELLS ==> {
                &&& (#[trigger] pre_disc[k]).decoration == land_decoration(scene, canopy, moisture, target_p_max, s0, k)
                &&& pre_disc[k].ground_cover == land_cover(scene, canopy, target_p_max, s0, k)
                &&& pre_disc[k].items@ == land_items(scene, canopy, target_p_max, s0, k)
            },
    ensures
        forall|k: int|
            0 <= k < CHUNK_CELLS ==> {
                &&& (#[trigger] fin[k]).decoration == if spawn_disc(k % (CHUNK_W as int), k / (CHUNK_W as int))
                    && land_decoration(scene, canopy, moisture, target_p_max, s0, k) is Gorse {
                    Decoration::Bare
                } else {
                    land_decoration(scene, canopy, moisture, target_p_max, s0, k)
                }
                &&& fin[k].ground_cover == land_cover(scene, canopy, target_p_max, s0, k)
                &&& fin[k].items@ == land_items(scene, canopy, target_p_max, s0, k)
            },
        forall|k: int|
            0 <= k < CHUNK_CELLS ==> ((#[trigger] fin[k]).terrain, fin[k].tree_species) == land_cell(
                scene,
                canopy,
                moisture,
                target_p_max,
                biome,
                s0,
                k,
            ),
{
    assert forall|k: int| 0 <= k < CHUNK_CELLS implies ((#[trigger] fin[k]).terrain, fin[k].tree_species) == land_cell(
        scene,
        canopy,
        moisture,
        target_p_max,
        biome,
        s0,
        k,
    ) by {
        lemma_k(post_disc, k);
        lemma_k(pre_disc, k);
        assert(pre_disc[k].terrain == grown[k].terrain && pre_disc[k].tree_species == grown[k].tree_species);
        assert(SPAWN_IDX == 15 * 40 + 20);
        if k == SPAWN_IDX {
            assert(k % 40 == 20 && k / 40 == 15);
        }
    }
    assert forall|k: int| 0 <= k < CHUNK_CELLS implies {
        &&& (#[trigger] fin[k]).decoration == if spawn_disc(k % (CHUNK_W as int), k / (CHUNK_W as int))
            && land_decoration(scene, canopy, moisture, target_p_max, s0, k) is Gorse {
            Decoration::Bare
        } else {
            land_decoration(scene, canopy, moisture, target_p_max, s0, k)
        }
        &&& fin[k].ground_cover == land_cover(scene, canopy, target_p_max, s0, k)
        &&& fin[k].items@ == land_items(scene, canopy, target_p_max, s0, k)
    } by {
        lemma_k(post_disc, k);
        lemma_k(pre_disc, k);
    }
}

/// The land pipeline of chunk generation, before any city is stamped:
/// grass, the scene and tracks, trees, herbs, leaf litter, undergrowth and
/// debris, each cell as `land_chunk` has it before the spawn disc is
/// cleared.
#[verifier::rlimit(80)]
fn land_cells(
    coord: ChunkCoord,
    world_seed: u64,
    info: &OvermapInfo,
    canopy: &Vec<u8>,
    moisture: &Vec<u8>,
    target_p_max: u32,
) -> (cells: Vec<CellState>)
    requires
        canopy@.len() == CHUNK_CELLS,
        moisture@.len() == CHUNK_CELLS,
        target_p_max <= 100,
    ensures
        cells@.len() == CHUNK_CELLS,
        trees_tagged(cells@),
        forall|x: int, y: int| in_chunk(x, y) ==> #[trigger] litter_law(cells@, x, y),
        forall|k: int|
            0 <= k < CHUNK_CELLS ==> {
                let scene = scene_seq(coord, info.has_road, info.has_river);
                let s0 = seeded_state(mix64(chunk_hash(coord, world_seed)));
                &&& (#[trigger] cells@[k]).terrain == tree_terrain(scene, canopy@, target_p_max, s0, k)
                &&& cells@[k].tree_species == tree_species(scene, canopy@, moisture@, target_p_max, info.biome, s0, k)
                &&& cells@[k].decoration == land_decoration(scene, canopy@, moisture@, target_p_max, s0, k)
                &&& cells@[k].ground_cover == land_cover(scene, canopy@, target_p_max, s0, k)
                &&& cells@[k].items@ == land_items(scene, canopy@, target_p_max, s0, k)
            },
{
    let mut rng = chunk_rng(coord, world_seed);
    let ghost s_init = rng.state();
    let mut cells = grass_cells();
    lay_scene_and_tracks(&mut cells, coord, info);
    let ghost scene = scene_seq(coord, info.has_road, info.has_river);
    proof {
        assert forall|k: int| 0 <= k < CHUNK_CELLS implies terrains(cells@)[k] == scene[k] by {
            lemma_k(cells@, k);
        }
        assert(terrains(cells@) =~= scene);
    }
    place_trees(&mut cells, canopy, moisture, target_p_max, info.biome, &mut rng);
    let ghost grown = cells@;
    let ghost s_grown = rng.state();
    let ghost pre_herbs = cells@;
    place_herbs(&mut cells, &mut rng);
    proof {
        assert forall|k: int| 0 <= k < CHUNK_CELLS implies (#[trigger] cells@[k]).ground_cover == GroundCover::Bare by {
            assert(pre_herbs[k].ground_cover == GroundCover::Bare);
        }
        assert forall|k: int| 0 <= k < CHUNK_CELLS implies ((#[trigger] cells@[k]).terrain == TerrainKind::TreeTrunk
            <==> cells@[k].tree_species is Some) by {
            assert(pre_herbs[k].terrain == TerrainKind::TreeTrunk <==> pre_herbs[k].tree_species is Some);
        }
    }
    let ghost pre_litter = cells@;
    apply_leaf_litter(&mut cells);
    proof {
        lemma_litter_laid(pre_litter, cells@);
        lemma_litter_same_land(pre_litter, cells@);
        lemma_same_land_trans(grown, pre_litter, cells@);
    }
    let ghost pre_growth = cells@;
    let ghost s0 = rng.state();
    apply_undergrowth(&mut cells, canopy, moisture, &mut rng);
    proof {
        lemma_undergrowth_land(pre_growth, cells@, canopy@, moisture@, s0);
        lemma_same_land_laws(pre_growth, cells@);
        lemma_same_land_trans(grown, pre_growth, cells@);
    }
    let ghost pre_debris = cells@;
    let ghost s_debris = rng.state();
    scatter_debris(&mut cells, &mut rng);
    proof {
        lemma_same_land_laws(pre_debris, cells@);
        lemma_same_land_trans(grown, pre_debris, cells@);
    }
    proof {
        let fin = cells@;
        lemma_land_herbs(grown, pre_litter, scene, canopy@, target_p_max, s_init, s_grown, s0);
        lemma_land_litter(pre_litter, pre_growth, scene, canopy@, target_p_max, s_init);
        lemma_land_after_growth(pre_growth, pre_debris, scene, canopy@, moisture@, target_p_max, s_init, s0);
        lemma_land_debris(pre_debris, fin, scene, canopy@, target_p_max, s_init, s_debris);
        assert forall|k: int| 0 <= k < CHUNK_CELLS implies {
            &&& (#[trigger] fin[k]).terrain == tree_terrain(scene, canopy@, target_p_max, s_init, k)
            &&& fin[k].tree_species == tree_species(scene, canopy@, moisture@, target_p_max, info.biome, s_init, k)
            &&& fin[k].decoration == land_decoration(scene, canopy@, moisture@, target_p_max, s_init, k)
            &&& fin[k].ground_cover == land_cover(scene, canopy@, target_p_max, s_init, k)
        } by {
            assert(pre_debris[k] == undergrowth_cell(pre_growth, canopy@, moisture@, s0, k));
        }
    }
    cells
}

/// Local cell `(x, y)` of chunk `coord` after city `lc` is stamped on
/// cell `c` (see `city_cell`).
pub open spec fn city_core_at(
    lc: LoadedCity,
    coord: ChunkCoord,
    seed: u64,
    pools: Seq<((String, CityTier), Vec<Prefab>)>,
    roles: Seq<(String, TagRole)>,
    x: int,
    y: int,
    c: CellState,
) -> CellState {
    let ox = (coord.cx * 40) as i64;
    let oy = (coord.cy * 30) as i64;
    city_cell(
        &lc.city,
        lc.anchor,
        seed,
        lc.wall_world_polygon@,
        lc.wall_bbox,
        lc.street_cells@,
        lc.slot_tags@,
        pools,
        roles,
        ox,
        oy,
        world_at(ox, oy, x, y),
        c,
    )
}

/// Cell `c` at local `(x, y)` after the first `n` of `cities` that reach
/// chunk `coord` are stamped in order.
pub open spec fn cities_core(
    cities: Seq<LoadedCity>,
    n: int,
    coord: ChunkCoord,
    seed: u64,
    pools: Seq<((String, CityTier), Vec<Prefab>)>,
    roles: Seq<(String, TagRole)>,
    x: int,
    y: int,
    c: CellState,
) -> CellState
    decreases n,
{
    if n <= 0 {
        c
    } else {
        let prev = cities_core(cities, n - 1, coord, seed, pools, roles, x, y, c);
        if rects_meet(cities[n - 1].bbox, chunk_rect(coord)) {
            city_core_at(cities[n - 1], coord, seed, pools, roles, x, y, prev)
        } else {
            prev
        }
    }
}

/// One of the first `n` of `cities` reaching chunk `coord` sweeps local
/// cell `(x, y)` clear: its wall reaches the chunk and the cell is inside
/// it.
pub open spec fn cities_clear(cities: Seq<LoadedCity>, n: int, coord: ChunkCoord, x: int, y: int) -> bool
    decreases n,
{
    if n <= 0 {
        false
    } else {
        let lc = cities[n - 1];
        let ox = (coord.cx * 40) as i64;
        let oy = (coord.cy * 30) as i64;
        cities_clear(cities, n - 1, coord, x, y) || (rects_meet(lc.bbox, chunk_rect(coord)) && wall_reaches(
            lc.wall_bbox,
            ox,
            oy,
        ) && inside_wall(lc.wall_world_polygon@, lc.wall_bbox, world_at(ox, oy, x, y)))
    }
}

proof fn lemma_city_step(
    before: Seq<CellState>,
    after: Seq<CellState>,
    pre: Seq<CellState>,
    cities: Seq<LoadedCity>,
    i: int,
    coord: ChunkCoord,
    seed: u64,
    pools: Seq<((String, CityTier), Vec<Prefab>)>,
    roles: Seq<(String, TagRole)>,
)
    requires
        0 <= i < cities.len(),
        forall|x: int, y: int|
            in_chunk(x, y) ==> same_core(#[trigger] at(before, x, y), cities_core(cities, i, coord, seed, pools, roles, x, y, at(pre, x, y)))
                && at(before, x, y).items@ == if cities_clear(cities, i, coord, x, y) {
                Seq::<ItemInstance>::empty()
            } else {
                at(pre, x, y).items@
            },
        rects_meet(cities[i].bbox, chunk_rect(coord)) ==> forall|x: int, y: int|
            in_chunk(x, y) ==> {
                let lc = cities[i];
                let ox = (coord.cx * 40) as i64;
                let oy = (coord.cy * 30) as i64;
                let w = world_at(ox, oy, x, y);
                let o = at(before, x, y);
                let n = #[trigger] at(after, x, y);
                &&& same_core(n, city_cell(&lc.city, lc.anchor, seed, lc.wall_world_polygon@, lc.wall_bbox, lc.street_cells@, lc.slot_tags@, pools, roles, ox, oy, w, o))
                &&& n.items@ == if wall_reaches(lc.wall_bbox, ox, oy) && inside_wall(lc.wall_world_polygon@, lc.wall_bbox, w) {
                    Seq::empty()
                } else {
                    o.items@
                }
            },
        !rects_meet(cities[i].bbox, chunk_rect(coord)) ==> after == before,
    ensures
        forall|x: int, y: int|
            in_chunk(x, y) ==> same_core(#[trigger] at(after, x, y), cities_core(cities, i + 1, coord, seed, pools, roles, x, y, at(pre, x, y)))
                && at(after, x, y).items@ == if cities_clear(cities, i + 1, coord, x, y) {
                Seq::<ItemInstance>::empty()
            } else {
                at(pre, x, y).items@
            },
{
    assert forall|x: int, y: int| in_chunk(x, y) implies same_core(#[trigger] at(after, x, y), cities_core(cities, i + 1, coord, seed, pools, roles, x, y, at(pre, x, y)))
        && at(after, x, y).items@ == if cities_clear(cities, i + 1, coord, x, y) {
        Seq::<ItemInstance>::empty()
    } else {
        at(pre, x, y).items@
    } by {
        let lc = cities[i];
        let ox = (coord.cx * 40) as i64;
        let oy = (coord.cy * 30) as i64;
        if rects_meet(lc.bbox, chunk_rect(coord)) {
            lemma_city_cell_core(
                &lc.city,
                lc.anchor,
                seed,
                lc.wall_world_polygon@,
                lc.wall_bbox,
                lc.street_cells@,
                lc.slot_tags@,
                pools,
                roles,
                ox,
                oy,
                world_at(ox, oy, x, y),
                at(before, x, y),
                cities_core(cities, i, coord, seed, pools, roles, x, y, at(pre, x, y)),
            );
        }
    }
}

proof fn lemma_cities_core_congruent(
    cities: Seq<LoadedCity>,
    n: int,
    coord: ChunkCoord,
    seed: u64,
    pools: Seq<((String, CityTier), Vec<Prefab>)>,
    roles: Seq<(String, TagRole)>,
    x: int,
    y: int,
    a: CellState,
    b: CellState,
)
    requires
        same_core(a, b),
    ensures
        same_core(
            cities_core(cities, n, coord, seed, pools, roles, x, y, a),
            cities_core(cities, n, coord, seed, pools, roles, x, y, b),
        ),
    decreases n,
{
    if n > 0 {
        lemma_cities_core_congruent(cities, n - 1, coord, seed, pools, roles, x, y, a, b);
        let lc = cities[n - 1];
        let ox = (coord.cx * 40) as i64;
        let oy = (coord.cy * 30) as i64;
        lemma_city_cell_core(
            &lc.city,
            lc.anchor,
            seed,
            lc.wall_world_polygon@,
            lc.wall_bbox,
            lc.street_cells@,
            lc.slot_tags@,
            pools,
            roles,
            ox,
            oy,
            world_at(ox, oy, x, y),
            cities_core(cities, n - 1, coord, seed, pools, roles, x, y, a),
            cities_core(cities, n - 1, coord, seed, pools, roles, x, y, b),
        );
    }
}

/// Cell `k` of a land chunk before cities are stamped, but for what lies
/// on it.
pub open spec fn land_core(
    scene: Seq<TerrainKind>,
    canopy: Seq<u8>,
    moisture: Seq<u8>,
    target_p_max: u32,
    biome: Biome,
    s0: u64,
    k: int,
) -> CellState {
    CellState {
        terrain: tree_terrain(scene, canopy, target_p_max, s0, k),
        tree_species: tree_species(scene, canopy, moisture, target_p_max, biome, s0, k),
        decoration: land_decoration(scene, canopy, moisture, target_p_max, s0, k),
        ground_cover: land_cover(scene, canopy, target_p_max, s0, k),
        items: arbitrary(),
    }
}

/// Cell `k` of land chunk `coord` in the end, but for what lies on it:
/// the land cell, the cities that reach the chunk stamped in order, trees
/// and gorse cleared from the spawn disc, and the spawn cell reopened to
/// grass if it is not walkable.
pub open spec fn chunk_core(
    coord: ChunkCoord,
    world_seed: u64,
    info: OvermapInfo,
    canopy: Seq<u8>,
    moisture: Seq<u8>,
    target_p_max: u32,
    cities: Seq<LoadedCity>,
    pools: Seq<((String, CityTier), Vec<Prefab>)>,
    roles: Seq<(String, TagRole)>,
    k: int,
) -> CellState {
    let scene = scene_seq(coord, info.has_road, info.has_river);
    let s0 = seeded_state(mix64(chunk_hash(coord, world_seed)));
    let x = k % (CHUNK_W as int);
    let y = k / (CHUNK_W as int);
    let c = cities_core(
        cities,
        cities.len() as int,
        coord,
        world_seed,
        pools,
        roles,
        x,
        y,
        land_core(scene, canopy, moisture, target_p_max, info.biome, s0, k),
    );
    let trunk = c.terrain == TerrainKind::TreeTrunk;
    let d = if spawn_disc(x, y) {
        CellState {
            terrain: if trunk {
                TerrainKind::Grass
            } else {
                c.terrain
            },
            tree_species: if trunk {
                None
            } else {
                c.tree_species
            },
            decoration: if c.decoration is Gorse {
                Decoration::Bare
            } else {
                c.decoration
            },
            ..c
        }
    } else {
        c
    };
    if k == SPAWN_IDX && !walkable_terrain(d.terrain) {
        CellState { terrain: TerrainKind::Grass, tree_species: None, ..d }
    } else {
        d
    }
}

/// What lies on cell `k` of land chunk `coord` in the end: nothing where a
/// city swept it, else what the land passes left there.
pub open spec fn chunk_items(
    coord: ChunkCoord,
    world_seed: u64,
    info: OvermapInfo,
    canopy: Seq<u8>,
    target_p_max: u32,
    cities: Seq<LoadedCity>,
    k: int,
) -> Seq<ItemInstance> {
    if cities_clear(cities, cities.len() as int, coord, k % (CHUNK_W as int), k / (CHUNK_W as int)) {
        Seq::empty()
    } else {
        land_items(
            scene_seq(coord, info.has_road, info.has_river),
            canopy,
            target_p_max,
            seeded_state(mix64(chunk_hash(coord, world_seed))),
            k,
        )
    }
}

/// `cells` is land chunk `coord` as generated with `cities` stamped on it:
/// every cell's ground, species, decoration and ground cover are those of
/// `chunk_core`, and what lies on it is `chunk_items`.
pub open spec fn chunk_cells(
    cells: Seq<CellState>,
    coord: ChunkCoord,
    world_seed: u64,
    info: OvermapInfo,
    canopy: Seq<u8>,
    moisture: Seq<u8>,
    target_p_max: u32,
    cities: Seq<LoadedCity>,
    pools: Seq<((String, CityTier), Vec<Prefab>)>,
    roles: Seq<(String, TagRole)>,
) -> bool {
    &&& cells.len() == CHUNK_CELLS
    &&& forall|k: int|
        0 <= k < CHUNK_CELLS ==> same_core(
            #[trigger] cells[k],
            chunk_core(coord, world_seed, info, canopy, moisture, target_p_max, cities, pools, roles, k),
        ) && cells[k].items@ == chunk_items(coord, world_seed, info, canopy, target_p_max, cities, k)
}

/// Chunk generation is deterministic: two land chunks generated from the
/// same coordinates, seed, overmap facts, noise, cities, buildings and tag
/// roles agree on every cell's ground, species, decoration, ground cover
/// and what lies on it.
pub proof fn law_chunk_deterministic(
    a: Seq<CellState>,
    b: Seq<CellState>,
    coord: ChunkCoord,
    world_seed: u64,
    info: OvermapInfo,
    canopy: Seq<u8>,
    moisture: Seq<u8>,
    target_p_max: u32,
    cities: Seq<LoadedCity>,
    pools: Seq<((String, CityTier), Vec<Prefab>)>,
    roles: Seq<(String, TagRole)>,
)
    requires
        chunk_cells(a, coord, world_seed, info, canopy, moisture, target_p_max, cities, pools, roles),
        chunk_cells(b, coord, world_seed, info, canopy, moisture, target_p_max, cities, pools, roles),
    ensures
        a.len() == b.len(),
        forall|k: int| 0 <= k < a.len() ==> same_core(#[trigger] a[k], b[k]) && a[k].items@ == b[k].items@,
{
    assert forall|k: int| 0 <= k < a.len() implies same_core(#[trigger] a[k], b[k]) && a[k].items@ == b[k].items@ by {
        assert(same_core(b[k], chunk_core(coord, world_seed, info, canopy, moisture, target_p_max, cities, pools, roles, k)));
    }
}

proof fn lemma_chunk_cells(
    pre_city: Seq<CellState>,
    pre_disc: Seq<CellState>,
    post_disc: Seq<CellState>,
    fin: Seq<CellState>,
    coord: ChunkCoord,
    world_seed: u64,
    info: OvermapInfo,
    canopy: Seq<u8>,
    moisture: Seq<u8>,
    target_p_max: u32,
    cities: Seq<LoadedCity>,
    pools: Seq<((String, CityTier), Vec<Prefab>)>,
    roles: Seq<(String, TagRole)>,
)
    requires
        pre_city.len() == CHUNK_CELLS,
        pre_disc.len() == CHUNK_CELLS,
        post_disc.len() == CHUNK_CELLS,
        fin.len() == CHUNK_CELLS,
        forall|k: int|
            0 <= k < CHUNK_CELLS ==> {
                let scene = scene_seq(coord, info.has_road, info.has_river);
                let s0 = seeded_state(mix64(chunk_hash(coord, world_seed)));
                &&& (#[trigger] pre_city[k]).terrain == tree_terrain(scene, canopy, target_p_max, s0, k)
                &&& pre_city[k].tree_species == tree_species(scene, canopy, moisture, target_p_max, info.biome, s0, k)
                &&& pre_city[k].decoration == land_decoration(scene, canopy, moisture, target_p_max, s0, k)
                &&& pre_city[k].ground_cover == land_cover(scene, canopy, target_p_max, s0, k)
                &&& pre_city[k].items@ == land_items(scene, canopy, target_p_max, s0, k)
            },
        forall|x: int, y: int|
            in_chunk(x, y) ==> same_core(
                #[trigger] at(pre_disc, x, y),
                cities_core(cities, cities.len() as int, coord, world_seed, pools, roles, x, y, at(pre_city, x, y)),
            ) && at(pre_disc, x, y).items@ == if cities_clear(cities, cities.len() as int, coord, x, y) {
                Seq::<ItemInstance>::empty()
            } else {
                at(pre_city, x, y).items@
            },
        forall|x: int, y: int|
            in_chunk(x, y) ==> if spawn_disc(x, y) {
                disc_cleared(at(pre_disc, x, y), #[trigger] at(post_disc, x, y))
            } else {
                at(post_disc, x, y) == at(pre_disc, x, y)
            },
        forall|k: int| 0 <= k < CHUNK_CELLS && k != SPAWN_IDX ==> #[trigger] fin[k] == post_disc[k],
        walkable_terrain(post_disc[SPAWN_IDX as int].terrain) ==> fin[SPAWN_IDX as int] == post_disc[SPAWN_IDX as int],
        !walkable_terrain(post_disc[SPAWN_IDX as int].terrain) ==> fin[SPAWN_IDX as int] == (CellState {
            terrain: TerrainKind::Grass,
            tree_species: None,
            ..post_disc[SPAWN_IDX as int]
        }),
    ensures
        chunk_cells(fin, coord, world_seed, info, canopy, moisture, target_p_max, cities, pools, roles),
{
    let scene = scene_seq(coord, info.has_road, info.has_river);
    let s0 = seeded_state(mix64(chunk_hash(coord, world_seed)));
    assert forall|k: int| 0 <= k < CHUNK_CELLS implies same_core(
        #[trigger] fin[k],
        chunk_core(coord, world_seed, info, canopy, moisture, target_p_max, cities, pools, roles, k),
    ) && fin[k].items@ == chunk_items(coord, world_seed, info, canopy, target_p_max, cities, k) by {
        let x = k % (CHUNK_W as int);
        let y = k / (CHUNK_W as int);
        lemma_k(pre_city, k);
        lemma_k(pre_disc, k);
        lemma_k(post_disc, k);
        lemma_cities_core_congruent(
            cities,
            cities.len() as int,
            coord,
            world_seed,
            pools,
            roles,
            x,
            y,
            pre_city[k],
            land_core(scene, canopy, moisture, target_p_max, info.biome, s0, k),
        );
        assert(SPAWN_IDX == 15 * 40 + 20);
        if k == SPAWN_IDX {
            assert(x == 20 && y == 15);
        }
    }
}

/// `cells` is the land chunk `coord` that no city reaches: every cell's
/// ground, species, decoration, ground cover and what lies on it are those
/// the generator's passes give from the chunk's scene, noise and seed.
pub open spec fn land_chunk(
    cells: Seq<CellState>,
    coord: ChunkCoord,
    world_seed: u64,
    info: OvermapInfo,
    canopy: Seq<u8>,
    moisture: Seq<u8>,
    target_p_max: u32,
) -> bool {
    let scene = scene_seq(coord, info.has_road, info.has_river);
    let s0 = seeded_state(mix64(chunk_hash(coord, world_seed)));
    &&& cells.len() == CHUNK_CELLS
    &&& forall|k: int|
        0 <= k < CHUNK_CELLS ==> {
            let deco = land_decoration(scene, canopy, moisture, target_p_max, s0, k);
            &&& ((#[trigger] cells[k]).terrain, cells[k].tree_species) == land_cell(
                scene,
                canopy,
                moisture,
                target_p_max,
                info.biome,
                s0,
                k,
            )
            &&& cells[k].decoration == if spawn_disc(k % (CHUNK_W as int), k / (CHUNK_W as int)) && deco is Gorse {
                Decoration::Bare
            } else {
                deco
            }
            &&& cells[k].ground_cover == land_cover(scene, canopy, target_p_max, s0, k)
            &&& cells[k].items@ == land_items(scene, canopy, target_p_max, s0, k)
        }
}

/// Chunk generation is deterministic: two land chunks that no city
/// reaches, generated from the same coordinates, seed, overmap facts and
/// noise, agree on every cell's ground, species, decoration, ground cover
/// and items.
pub proof fn law_land_chunk_deterministic(
    a: Seq<CellState>,
    b: Seq<CellState>,
    coord: ChunkCoord,
    world_seed: u64,
    info: OvermapInfo,
    canopy: Seq<u8>,
    moisture: Seq<u8>,
    target_p_max: u32,
)
    requires
        land_chunk(a, coord, world_seed, info, canopy, moisture, target_p_max),
        land_chunk(b, coord, world_seed, info, canopy, moisture, target_p_max),
    ensures
        a.len() == b.len(),
        forall|k: int|
            0 <= k < a.len() ==> {
                &&& (#[trigger] a[k]).terrain == b[k].terrain
                &&& a[k].tree_species == b[k].tree_species
                &&& a[k].decoration == b[k].decoration
                &&& a[k].ground_cover == b[k].ground_cover
                &&& a[k].items@ == b[k].items@
            },
{
    assert forall|k: int| 0 <= k < a.len() implies {
        &&& (#[trigger] a[k]).terrain == b[k].terrain
        &&& a[k].tree_species == b[k].tree_species
        &&& a[k].decoration == b[k].decoration
        &&& a[k].ground_cover == b[k].ground_cover
        &&& a[k].items@ == b[k].items@
    } by {
        assert(b[k] == b[k]);
    }
}

/// Generates a chunk from its overmap facts and its canopy and moisture
/// noise grids, with `target_p_max` the chunk's tree chance in percent at
/// full canopy. Open sea is all pond water. On land: grass; on the spawn
/// chunk the hand-placed stream, pond and trees; roads, then rivers;
/// trees by canopy, each given a species; three to five herb patches;
/// leaf litter; undergrowth; debris on bare grass; every city of
/// `cities` that reaches the chunk, with the buildings of `catalog` and
/// the tag roles of `tags`; the spawn disc cleared of trees and gorse;
/// and the spawn cell reopened to grass if it is left unwalkable, so the
/// player always lands on walkable ground. Only trunks carry a species,
/// and every trunk does unless a prefab's palette stamps a bare trunk.
/// Every land chunk is exactly `chunk_cells` of the arguments, cell by
/// cell: the scene (roads, rivers and the spawn chunk's stream, pond and
/// trunks), trees, herbs, litter, undergrowth and debris, then the cities
/// that reach it, the spawn disc and the spawn cell; one no city reaches
/// is `land_chunk`.
#[verifier::rlimit(80)]
pub fn generate_chunk(
    coord: ChunkCoord,
    world_seed: u64,
    info: &OvermapInfo,
    canopy: &Vec<u8>,
    moisture: &Vec<u8>,
    target_p_max: u32,
    cities: &Vec<LoadedCity>,
    catalog: &BuildingCatalog,
    tags: &TagCatalog,
) -> (r: Chunk)
    requires
        canopy@.len() == CHUNK_CELLS,
        moisture@.len() == CHUNK_CELLS,
        target_p_max <= 100,
        forall|i: int| 0 <= i < cities@.len() ==> (#[trigger] cities@[i]).wf() && tag_weights_fit(cities@[i].slot_tags@),
        weights_fit(catalog.pools@),
    ensures
        r.coord == coord,
        !r.dirty,
        r.cells@.len() == CHUNK_CELLS,
        info.biome == Biome::Sea ==> forall|k: int|
            0 <= k < CHUNK_CELLS ==> {
                &&& (#[trigger] r.cells@[k]).terrain == TerrainKind::PondWater
                &&& r.cells@[k].tree_species is None
                &&& r.cells@[k].decoration == Decoration::Bare
                &&& r.cells@[k].ground_cover == GroundCover::Bare
                &&& r.cells@[k].items@.len() == 0
            },
        info.biome != Biome::Sea ==> forall|x: int, y: int|
            in_chunk(x, y) && spawn_disc(x, y) ==> (#[trigger] at(r.cells@, x, y)).terrain != TerrainKind::TreeTrunk
                && !(at(r.cells@, x, y).decoration is Gorse),
        info.biome != Biome::Sea ==> walkable_terrain(r.cells@[SPAWN_IDX as int].terrain),
        species_on_trunks(r.cells@),
        no_trunk_pools(catalog.pools@) ==> trees_tagged(r.cells@),
        info.biome != Biome::Sea ==> chunk_cells(
            r.cells@,
            coord,
            world_seed,
            *info,
            canopy@,
            moisture@,
            target_p_max,
            cities@,
            catalog.pools@,
            tags.tags@,
        ),
        info.biome != Biome::Sea && no_city_reaches(cities@, coord) ==> land_chunk(
            r.cells@,
            coord,
            world_seed,
            *info,
            canopy@,
            moisture@,
            target_p_max,
        ),
{
    if info.biome == Biome::Sea {
        let mut cells: Vec<CellState> = Vec::new();
        while cells.len() < CHUNK_CELLS
            invariant
                cells@.len() <= CHUNK_CELLS,
                forall|k: int|
                    0 <= k < cells@.len() ==> {
                        &&& (#[trigger] cells@[k]).terrain == TerrainKind::PondWater
                        &&& cells@[k].tree_species is None
                        &&& cells@[k].decoration == Decoration::Bare
                        &&& cells@[k].ground_cover == GroundCover::Bare
                        &&& cells@[k].items@.len() == 0
                    },
            decreases CHUNK_CELLS - cells@.len(),
        {
            cells.push(CellState::with_terrain(TerrainKind::PondWater));
        }
        return Chunk { coord, cells, dirty: false };
    }
    let mut cells = land_cells(coord, world_seed, info, canopy, moisture, target_p_max);
    let ghost scene = scene_seq(coord, info.has_road, info.has_river);
    // Cities reaching the chunk.
    let ghost pre_city = cells@;
    let mut i: usize = 0;
    while i < cities.len()
        invariant
            i <= cities@.len(),
            cells@.len() == CHUNK_CELLS,
            weights_fit(catalog.pools@),
            forall|j: int| 0 <= j < cities@.len() ==> (#[trigger] cities@[j]).wf() && tag_weights_fit(cities@[j].slot_tags@),
            no_city_reaches(cities@, coord) ==> cells@ == pre_city,
            species_on_trunks(cells@),
            no_trunk_pools(catalog.pools@) ==> trees_tagged(cells@),
            pre_city.len() == CHUNK_CELLS,
            forall|x: int, y: int|
                in_chunk(x, y) ==> same_core(
                    #[trigger] at(cells@, x, y),
                    cities_core(cities@, i as int, coord, world_seed, catalog.pools@, tags.tags@, x, y, at(pre_city, x, y)),
                ) && at(cells@, x, y).items@ == if cities_clear(cities@, i as int, coord, x, y) {
                    Seq::<ItemInstance>::empty()
                } else {
                    at(pre_city, x, y).items@
                },
        decreases cities@.len() - i,
    {
        let ghost before_step = cells@;
        if cities[i].intersects_chunk(coord) {
            let ghost before = cells@;
            cities[i].stamp_into_chunk(coord, &mut cells, world_seed, catalog, tags);
            proof {
                let lc = cities@[i as int];
                let ox = (coord.cx * 40) as i64;
                let oy = (coord.cy * 30) as i64;
                assert forall|k: int| 0 <= k < CHUNK_CELLS implies species_only_on_trunk(#[trigger] cells@[k]) && (
                no_trunk_pools(catalog.pools@) ==> trunk_tagged(cells@[k])) by {
                    lemma_k(before, k);
                    lemma_k(cells@, k);
                    let x = k % (CHUNK_W as int);
                    let y = k / (CHUNK_W as int);
                    assert(species_only_on_trunk(before[k]));
                    lemma_city_cell_tags(
                        &lc.city,
                        lc.anchor,
                        world_seed,
                        lc.wall_world_polygon@,
                        lc.wall_bbox,
                        lc.street_cells@,
                        lc.slot_tags@,
                        catalog.pools@,
                        tags.tags@,
                        ox,
                        oy,
                        world_at(ox, oy, x, y),
                        at(before, x, y),
                    );
                }
            }
        }
        proof {
            lemma_city_step(before_step, cells@, pre_city, cities@, i as int, coord, world_seed, catalog.pools@, tags.tags@);
        }
        i += 1;
    }
    let ghost pre_disc = cells@;
    enforce_spawn_disc(&mut cells);
    proof {
        lemma_disc_tags(pre_disc, cells@);
        lemma_disc_walkable(pre_disc, cells@);
        if no_city_reaches(cities@, coord) {
            lemma_disc_cleared_laws(pre_disc, cells@);
        }
    }
    let ghost pre_open = cells@;
    reopen_spawn_cell(&mut cells);
    proof {
        lemma_spawn_reopened(pre_open, cells@);
        lemma_chunk_cells(
            pre_city,
            pre_disc,
            pre_open,
            cells@,
            coord,
            world_seed,
            *info,
            canopy@,
            moisture@,
            target_p_max,
            cities@,
            catalog.pools@,
            tags.tags@,
        );
        if no_city_reaches(cities@, coord) {
            assert(same_trees(pre_city, pre_disc));
            lemma_land_content(
                pre_city,
                pre_disc,
                pre_open,
                cells@,
                scene,
                canopy@,
                moisture@,
                target_p_max,
                info.biome,
                seeded_state(mix64(chunk_hash(coord, world_seed))),
            );
        }
    }
    Chunk { coord, cells, dirty: false }
}

/// Beech grows only in beech combes: no other biome ever picks it. The
/// granite moors and the ruin hinterland grow stunted rowan on rolls
/// below 60 and holly otherwise.
pub proof fn law_beech_only_in_combes(biome: Biome, canopy: u8, moisture: u8, r: int)
    requires
        0 <= r < 100,
    ensures
        biome != Biome::BeechCombe ==> species_for(biome, canopy, moisture, r) != TreeSpecies::Beech,
        (biome == Biome::DartmoorGranite || biome == Biome::BodminMoorGranite || biome == Biome::RuinHinterland)
            ==> species_for(biome, canopy, moisture, r) == (if r < 60 {
            TreeSpecies::Rowan
        } else {
            TreeSpecies::Holly
        }),
{
}

} // verus!
