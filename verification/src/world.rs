//! World-grid geometry shared by the overmap and the chunk code: chunks are
//! 40 x 30 cells, addressed by chunk coordinates.

use vstd::prelude::*;

use crate::flora::{Decoration, TreeSpecies};
use crate::items::ItemInstance;

verus! {

/// Chunk width in cells.
pub const CHUNK_W: u32 = 40;

/// Chunk height in cells.
pub const CHUNK_H: u32 = 30;

/// Moves a baseline-speed actor gets per game-second.
pub const MOVES_PER_SECOND: u32 = 100;

/// Move cost of one step onto a neighbouring tile.
pub const MOVE_COST_TILE: u32 = 100;

/// Coordinates of a chunk on the world grid.
#[derive(Clone, Copy, Debug, PartialEq, Eq, Hash, Structural)]
pub struct ChunkCoord {
    pub cx: i32,
    pub cy: i32,
}

/// Ground of a world cell.
#[derive(Clone, Copy, Debug, PartialEq, Eq, Hash, Structural)]
pub enum TerrainKind {
    Grass,
    TreeTrunk,
    StreamWater,
    PondWater,
    SandShore,
    BareDirt,
    CobbleRoad,
    StoneWall,
    WoodWall,
    Floor,
    Solid,
    Wall,
}

/// Ground a walker can stand on: open ground, roads and floors. Trunks,
/// water and every kind of wall or solid mass stop a walker.
pub open spec fn walkable_terrain(t: TerrainKind) -> bool {
    match t {
        TerrainKind::Grass | TerrainKind::BareDirt | TerrainKind::CobbleRoad | TerrainKind::Floor
        | TerrainKind::SandShore => true,
        _ => false,
    }
}

impl TerrainKind {
    /// Whether a walker can stand on this ground (see `walkable_terrain`).
    pub fn walkable(self) -> (r: bool)
        ensures
            r == walkable_terrain(self),
    {
        match self {
            TerrainKind::Grass | TerrainKind::BareDirt | TerrainKind::CobbleRoad | TerrainKind::Floor
            | TerrainKind::SandShore => true,
            _ => false,
        }
    }
}

/// What lies on the ground of a cell, under any decoration.
#[derive(Clone, Copy, Debug, PartialEq, Eq, Hash, Structural)]
pub enum GroundCover {
    Bare,
    LeafLitter,
}

/// One cell of a chunk, as chunk generation fills it.
pub struct CellState {
    pub terrain: TerrainKind,
    /// Species of the tree standing here, for a tree trunk.
    pub tree_species: Option<TreeSpecies>,
    pub decoration: Decoration,
    pub ground_cover: GroundCover,
    /// Items lying on the cell.
    pub items: Vec<ItemInstance>,
}

impl CellState {
    /// A cell of terrain `t` and nothing else.
    pub fn with_terrain(t: TerrainKind) -> (r: Self)
        ensures
            r.terrain == t,
            r.tree_species is None,
            r.decoration == Decoration::Bare,
            r.ground_cover == GroundCover::Bare,
            r.items@.len() == 0,
    {
        CellState {
            terrain: t,
            tree_species: None,
            decoration: Decoration::Bare,
            ground_cover: GroundCover::Bare,
            items: Vec::new(),
        }
    }
}

/// A generated chunk: its coordinates and its cells, row by row.
pub struct Chunk {
    pub coord: ChunkCoord,
    pub cells: Vec<CellState>,
    /// Changed since it was generated or loaded.
    pub dirty: bool,
}

/// Armament tier of a hostile bandit.
#[derive(Clone, Copy, Debug, PartialEq, Eq, Hash, Structural)]
pub enum BanditTier {
    Yeoman,
    Sergeant,
    Knight,
}

/// Map key of a chunk: its column in the high 32 bits, its row in the low.
pub open spec fn chunk_key(c: ChunkCoord) -> u64 {
    (((c.cx as u32) as u64) << 32u64) | ((c.cy as u32) as u64)
}

/// The map key of chunk `c` (see `chunk_key`).
pub fn chunk_key_exec(c: ChunkCoord) -> (r: u64)
    ensures
        r == chunk_key(c),
{
    (((c.cx as u32) as u64) << 32u64) | ((c.cy as u32) as u64)
}

pub(crate) proof fn lemma_chunk_key_injective(a: ChunkCoord, b: ChunkCoord)
    requires
        chunk_key(a) == chunk_key(b),
    ensures
        a == b,
{
    let (ax, ay, bx, by) = (a.cx, a.cy, b.cx, b.cy);
    assert(ax == bx && ay == by) by (bit_vector)
        requires
            (((ax as u32) as u64) << 32u64) | ((ay as u32) as u64) == (((bx as u32) as u64) << 32u64) | ((
            by as u32) as u64),
    ;
}

/// Set key of a cell: its column in the high 64 bits, its row in the low.
pub open spec fn cell_key(c: (i64, i64)) -> u128 {
    (((c.0 as u64) as u128) << 64u128) | ((c.1 as u64) as u128)
}

/// The set key of cell `c` (see `cell_key`).
pub fn cell_key_exec(c: (i64, i64)) -> (r: u128)
    ensures
        r == cell_key(c),
{
    (((c.0 as u64) as u128) << 64u128) | ((c.1 as u64) as u128)
}

pub(crate) proof fn lemma_cell_key_injective(a: (i64, i64), b: (i64, i64))
    requires
        cell_key(a) == cell_key(b),
    ensures
        a == b,
{
    let (ax, ay, bx, by) = (a.0, a.1, b.0, b.1);
    assert(ax == bx && ay == by) by (bit_vector)
        requires
            (((ax as u64) as u128) << 64u128) | ((ay as u64) as u128) == (((bx as u64) as u128) << 64u128) | ((
            by as u64) as u128),
    ;
}

} // verus!
