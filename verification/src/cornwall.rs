//! Cornwall and Devon overmap: the authored structure of the world
//! (coastline, biome polygons, rivers, roads and named sites) and the
//! per-chunk lookup that classifies a chunk from it. The tables are the
//! same in every save and every seed; only chunk contents vary by seed.
//!
//! Coordinates are cells, with cell (0, 0) at Exeter, x growing east and
//! y growing south. A chunk is 40 x 30 cells.

use vstd::prelude::*;
use vstd::arithmetic::div_mod::{lemma_fundamental_div_mod, lemma_fundamental_div_mod_converse};

use crate::geometry::{
    all_within, chunk_of, floor_div_i64, in_polygon, ipt, min_polyline_dist_sq, point_in_polygon,
    point_to_segment_dist_sq, polyline_dist_sq, polyline_marks, polyline_marks_chunk,
    saturate_i64, seg_dist_sq, segment_crosses_rect, segment_intersects_rect, within, MAP_BOUND,
    QUERY_BOUND, WIDE_BOUND,
};
use crate::world::{ChunkCoord, CHUNK_H, CHUNK_W};

verus! {

/// Overmap biome of a chunk.
#[derive(Clone, Copy, Debug, PartialEq, Eq, Hash, Structural)]
pub enum Biome {
    LowlandFarm,
    RiverValley,
    EstuaryMarsh,
    CoastCliff,
    CoastBeach,
    OakWoodland,
    BeechCombe,
    DartmoorGranite,
    BodminMoorGranite,
    ExmoorHeath,
    Sea,
    TownEdge,
    RuinHinterland,
}

/// Every biome, in declaration order, for tests and overmap scans.
pub const ALL_BIOMES: [Biome; 13] = [
    Biome::LowlandFarm,
    Biome::RiverValley,
    Biome::EstuaryMarsh,
    Biome::CoastCliff,
    Biome::CoastBeach,
    Biome::OakWoodland,
    Biome::BeechCombe,
    Biome::DartmoorGranite,
    Biome::BodminMoorGranite,
    Biome::ExmoorHeath,
    Biome::Sea,
    Biome::TownEdge,
    Biome::RuinHinterland,
];

/// CP437 glyph of a biome on the overmap.
pub open spec fn biome_glyph(b: Biome) -> u8 {
    match b {
        Biome::LowlandFarm => 46,
        Biome::RiverValley => 126,
        Biome::EstuaryMarsh => 58,
        Biome::CoastCliff => 0xB2,
        Biome::CoastBeach => 44,
        Biome::OakWoodland => 0x05,
        Biome::BeechCombe => 0x05,
        Biome::DartmoorGranite => 0x1E,
        Biome::BodminMoorGranite => 0x1E,
        Biome::ExmoorHeath => 0xF0,
        Biome::Sea => 0xF7,
        Biome::TownEdge => 46,
        Biome::RuinHinterland => 46,
    }
}

/// Foreground colour of a biome's overmap glyph.
pub open spec fn biome_fg(b: Biome) -> [u8; 3] {
    match b {
        Biome::LowlandFarm => [90, 130, 70],
        Biome::RiverValley => [120, 170, 220],
        Biome::EstuaryMarsh => [70, 100, 130],
        Biome::CoastCliff => [110, 110, 110],
        Biome::CoastBeach => [210, 200, 120],
        Biome::OakWoodland => [50, 110, 40],
        Biome::BeechCombe => [110, 170, 80],
        Biome::DartmoorGranite => [130, 125, 125],
        Biome::BodminMoorGranite => [130, 125, 125],
        Biome::ExmoorHeath => [140, 90, 150],
        Biome::Sea => [40, 80, 140],
        Biome::TownEdge => [110, 100, 80],
        Biome::RuinHinterland => [110, 100, 80],
    }
}

/// Label on the overmap's info line.
pub open spec fn biome_name(b: Biome) -> Seq<char> {
    match b {
        Biome::LowlandFarm => "Lowland farm"@,
        Biome::RiverValley => "River valley"@,
        Biome::EstuaryMarsh => "Estuary marsh"@,
        Biome::CoastCliff => "Coast cliff"@,
        Biome::CoastBeach => "Coast beach"@,
        Biome::OakWoodland => "Oak woodland"@,
        Biome::BeechCombe => "Beech combe"@,
        Biome::DartmoorGranite => "Dartmoor moor"@,
        Biome::BodminMoorGranite => "Bodmin moor"@,
        Biome::ExmoorHeath => "Exmoor heath"@,
        Biome::Sea => "Sea"@,
        Biome::TownEdge => "Town edge"@,
        Biome::RuinHinterland => "Ritual hinterland"@,
    }
}

/// Game-seconds a fast-travelling pilgrim takes to cross one cell: about
/// two on open ground, three in woods, valleys and on beaches, four on
/// moor, cliff and marsh. Sea cannot be walked; its cost is a large
/// finite sentinel.
pub open spec fn biome_cell_cost(b: Biome) -> u32 {
    match b {
        Biome::LowlandFarm => 2,
        Biome::BeechCombe => 3,
        Biome::OakWoodland => 3,
        Biome::TownEdge => 2,
        Biome::RiverValley => 3,
        Biome::CoastBeach => 3,
        Biome::DartmoorGranite => 4,
        Biome::BodminMoorGranite => 4,
        Biome::ExmoorHeath => 4,
        Biome::CoastCliff => 4,
        Biome::EstuaryMarsh => 4,
        Biome::RuinHinterland => 2,
        Biome::Sea => 9999,
    }
}

impl Biome {
    /// CP437 glyph for this biome on the overmap.
    pub fn overmap_glyph(self) -> (r: u8)
        ensures
            r == biome_glyph(self),
    {
        match self {
            Biome::LowlandFarm => 46,
            Biome::RiverValley => 126,
            Biome::EstuaryMarsh => 58,
            Biome::CoastCliff => 0xB2,
            Biome::CoastBeach => 44,
            Biome::OakWoodland => 0x05,
            Biome::BeechCombe => 0x05,
            Biome::DartmoorGranite => 0x1E,
            Biome::BodminMoorGranite => 0x1E,
            Biome::ExmoorHeath => 0xF0,
            Biome::Sea => 0xF7,
            Biome::TownEdge => 46,
            Biome::RuinHinterland => 46,
        }
    }

    /// Foreground RGB colour of the biome glyph on the overmap.
    pub fn overmap_fg(self) -> (r: [u8; 3])
        ensures
            r == biome_fg(self),
    {
        match self {
            Biome::LowlandFarm => [90, 130, 70],
            Biome::RiverValley => [120, 170, 220],
            Biome::EstuaryMarsh => [70, 100, 130],
            Biome::CoastCliff => [110, 110, 110],
            Biome::CoastBeach => [210, 200, 120],
            Biome::OakWoodland => [50, 110, 40],
            Biome::BeechCombe => [110, 170, 80],
            Biome::DartmoorGranite => [130, 125, 125],
            Biome::BodminMoorGranite => [130, 125, 125],
            Biome::ExmoorHeath => [140, 90, 150],
            Biome::Sea => [40, 80, 140],
            Biome::TownEdge => [110, 100, 80],
            Biome::RuinHinterland => [110, 100, 80],
        }
    }

    /// Human-readable label shown on the overmap's bottom info line.
    pub fn display_name(self) -> (r: &'static str)
        ensures
            r@ == biome_name(self),
    {
        match self {
            Biome::LowlandFarm => "Lowland farm",
            Biome::RiverValley => "River valley",
            Biome::EstuaryMarsh => "Estuary marsh",
            Biome::CoastCliff => "Coast cliff",
            Biome::CoastBeach => "Coast beach",
            Biome::OakWoodland => "Oak woodland",
            Biome::BeechCombe => "Beech combe",
            Biome::DartmoorGranite => "Dartmoor moor",
            Biome::BodminMoorGranite => "Bodmin moor",
            Biome::ExmoorHeath => "Exmoor heath",
            Biome::Sea => "Sea",
            Biome::TownEdge => "Town edge",
            Biome::RuinHinterland => "Ritual hinterland",
        }
    }

    /// Game-seconds to cross one cell of this biome when fast-travelling.
    pub fn cell_travel_cost_secs(self) -> (r: u32)
        ensures
            r == biome_cell_cost(self),
    {
        match self {
            Biome::LowlandFarm => 2,
            Biome::BeechCombe => 3,
            Biome::OakWoodland => 3,
            Biome::TownEdge => 2,
            Biome::RiverValley => 3,
            Biome::CoastBeach => 3,
            Biome::DartmoorGranite => 4,
            Biome::BodminMoorGranite => 4,
            Biome::ExmoorHeath => 4,
            Biome::CoastCliff => 4,
            Biome::EstuaryMarsh => 4,
            Biome::RuinHinterland => 2,
            Biome::Sea => 9_999,
        }
    }
}

/// Kind of a named site, which picks its overmap overlay glyph.
#[derive(Clone, Copy, Debug, PartialEq, Eq, Hash, Structural)]
pub enum SiteKind {
    Cathedral,
    Castle,
    Town,
    HolyWell,
    StoneCircle,
    SacredPool,
}

/// CP437 overlay glyph of a site kind.
pub open spec fn site_glyph(k: SiteKind) -> u8 {
    match k {
        SiteKind::Cathedral => 0xF0,
        SiteKind::Castle => 0xD7,
        SiteKind::Town => 0xFE,
        SiteKind::HolyWell => 111,
        SiteKind::StoneCircle => 0xEA,
        SiteKind::SacredPool => 79,
    }
}

/// Foreground colour of a site kind's overlay glyph.
pub open spec fn site_fg(k: SiteKind) -> [u8; 3] {
    match k {
        SiteKind::Cathedral => [240, 240, 240],
        SiteKind::Castle => [240, 220, 110],
        SiteKind::Town => [220, 200, 100],
        SiteKind::HolyWell => [120, 220, 220],
        SiteKind::StoneCircle => [220, 130, 220],
        SiteKind::SacredPool => [140, 220, 220],
    }
}

impl SiteKind {
    pub fn overmap_glyph(self) -> (r: u8)
        ensures
            r == site_glyph(self),
    {
        match self {
            SiteKind::Cathedral => 0xF0,
            SiteKind::Castle => 0xD7,
            SiteKind::Town => 0xFE,
            SiteKind::HolyWell => 111,
            SiteKind::StoneCircle => 0xEA,
            SiteKind::SacredPool => 79,
        }
    }

    pub fn overmap_fg(self) -> (r: [u8; 3])
        ensures
            r == site_fg(self),
    {
        match self {
            SiteKind::Cathedral => [240, 240, 240],
            SiteKind::Castle => [240, 220, 110],
            SiteKind::Town => [220, 200, 100],
            SiteKind::HolyWell => [120, 220, 220],
            SiteKind::StoneCircle => [220, 130, 220],
            SiteKind::SacredPool => [140, 220, 220],
        }
    }
}

/// A biome region of the overmap: a closed polygon of cells.
pub struct BiomePolygon {
    pub vertices: &'static [(i64, i64)],
    pub biome: Biome,
}

/// A river or road: an open polyline of cells.
pub struct Polyline {
    pub points: &'static [(i64, i64)],
    /// Width of the corridor around the line, in cells: rivers are about
    /// 120 m wide, minor roads about 40 m.
    pub width_cells: u16,
}

/// A named place on the overmap.
#[derive(Clone, Copy, Debug)]
pub struct NamedSite {
    pub name: &'static str,
    pub anchor_cell: (i64, i64),
    /// Chebyshev radius, in chunks, around the anchor chunk inside which
    /// the site's biome wins: 4 for Exeter, 2 for towns, 1 for ritual
    /// sites.
    pub anchor_radius_chunks: i32,
    pub biome_override: Biome,
    /// Drives the overlay glyph at the site's anchor chunk.
    pub kind: SiteKind,
}

/// What the overmap knows of one chunk.
#[derive(Clone, Copy, Debug)]
pub struct OvermapInfo {
    pub biome: Biome,
    pub has_river: bool,
    pub has_road: bool,
    /// The site whose radius holds this chunk, if any.
    pub named_site: Option<NamedSite>,
}

/// Player spawn cell inside the starting chunk (0, 0): the chunk's
/// center.
pub const EXETER_SPAWN_CELL: (i32, i32) = (20, 15);

/// Cells from the peninsula outline within which a land chunk outside
/// every biome polygon counts as coast (about 530 m).
pub const COAST_BAND_CELLS: i64 = 350;

/// Latitude (cell y) of Plymouth Sound: coast north of it is cliff, coast
/// south of it is beach.
pub const COAST_SPLIT_Y: i64 = 18_000;

/// A cell within this squared distance of a river's line shows stream
/// water (a 2-cell radius).
pub const STREAM_RADIUS_SQ: i64 = 4;

/// A cell within this squared distance of a road's line shows beaten
/// earth (about a 1.4-cell radius).
pub const ROAD_RADIUS_SQ: i64 = 2;

pub const BIOME_POLYGON_COUNT: usize = 8;

pub const RIVER_COUNT: usize = 9;

pub const ROAD_COUNT: usize = 6;

pub const NAMED_SITE_COUNT: usize = 26;

/// Peninsula outline, closed and clockwise. Every cell outside it is sea.
pub const PENINSULA_OUTLINE: [(i64, i64); 26] = [
    (15_000, 2_000),
    (15_000, -33_000),
    (5_000, -33_500),
    (-5_000, -33_500),
    (-15_000, -33_000),
    (-25_000, -30_000),
    (-40_000, -25_000),
    (-50_000, -18_000),
    (-55_000, -10_000),
    (-58_000, -2_000),
    (-65_000, 8_000),
    (-75_000, 15_000),
    (-90_000, 30_000),
    (-100_000, 38_000),
    (-103_000, 42_500),
    (-100_000, 47_000),
    (-90_000, 48_500),
    (-80_000, 50_500),
    (-72_000, 47_000),
    (-60_000, 38_000),
    (-50_000, 28_000),
    (-30_000, 27_500),
    (-15_000, 25_500),
    (0, 23_000),
    (8_000, 17_000),
    (12_000, 10_000),
];

/// Dartmoor: granite upland, about 30 km across.
pub const DARTMOOR: [(i64, i64); 6] = [
    (-30_800, 10_589),
    (-25_000, 2_000),
    (-13_000, 2_000),
    (-8_000, 10_589),
    (-13_000, 19_000),
    (-25_000, 19_000),
];

/// Bodmin Moor: granite upland.
pub const BODMIN_MOOR: [(i64, i64); 6] = [
    (-58_088, 9_206),
    (-55_000, 4_285),
    (-48_000, 4_285),
    (-44_966, 9_206),
    (-48_000, 14_128),
    (-55_000, 14_128),
];

/// Exmoor: royal forest, trimmed to the peninsula outline.
pub const EXMOOR: [(i64, i64); 6] = [
    (-20_300, -29_000),
    (-17_000, -32_500),
    (-3_908, -32_500),
    (-606, -29_000),
    (-3_908, -26_439),
    (-17_000, -26_439),
];

/// Penwith ritual zone: Men-an-Tol, Madron, Merry Maidens.
pub const PENWITH_RITUAL_ZONE: [(i64, i64); 6] = [
    (-101_500, 44_000),
    (-100_000, 40_000),
    (-96_500, 40_000),
    (-95_000, 44_000),
    (-96_500, 48_000),
    (-100_000, 48_000),
];

/// Tamar river-valley corridor, Bristol Channel to Plymouth Sound.
pub const TAMAR_VALLEY: [(i64, i64); 8] = [
    (-23_500, -25_000),
    (-21_000, 0),
    (-25_000, 15_000),
    (-29_000, 27_000),
    (-32_000, 27_000),
    (-30_000, 15_000),
    (-27_000, 0),
    (-26_500, -25_000),
];

/// Wistman's Wood on the east Dartmoor fringe.
pub const WISTMANS_WOOD: [(i64, i64); 5] = [
    (-18_000, 12_000),
    (-14_000, 9_000),
    (-10_000, 12_000),
    (-12_000, 16_000),
    (-16_000, 16_000),
];

/// East Devon hedgerow vales, east of Exeter.
pub const EAST_DEVON_VALES: [(i64, i64); 5] = [
    (-2_000, -5_000),
    (8_000, -5_000),
    (12_000, 5_000),
    (8_000, 12_000),
    (-2_000, 12_000),
];

/// Tamar estuary and Plymouth Sound.
pub const TAMAR_ESTUARY: [(i64, i64); 4] = [
    (-31_000, 23_000),
    (-25_000, 23_000),
    (-25_000, 27_500),
    (-31_000, 27_500),
];

/// Tamar: Bristol Channel headwaters to Plymouth Sound.
pub const TAMAR: [(i64, i64); 7] = [
    (-25_000, -25_000),
    (-24_500, -15_000),
    (-25_500, -5_000),
    (-26_500, 5_000),
    (-27_500, 15_000),
    (-28_000, 22_000),
    (-28_063, 26_029),
];

/// Fowey: Dozmary Pool down to Fowey and Lostwithiel.
pub const FOWEY: [(i64, i64); 4] = [
    (-50_130, 11_463),
    (-50_000, 17_000),
    (-52_000, 22_000),
    (-52_844, 22_912),
];

/// Camel: Bodmin Moor headwaters to Padstow.
pub const CAMEL: [(i64, i64); 4] = [
    (-50_000, 9_206),
    (-55_000, 6_000),
    (-62_000, 6_500),
    (-65_000, 7_000),
];

/// Fal: central Cornwall down to Truro and Carrick Roads.
pub const FAL: [(i64, i64); 4] = [
    (-65_000, 20_000),
    (-67_000, 25_000),
    (-70_000, 30_000),
    (-70_713, 33_442),
];

/// Lynher: Bodmin Moor across to the Tamar.
pub const LYNHER: [(i64, i64); 4] = [
    (-49_000, 11_000),
    (-40_000, 17_000),
    (-32_000, 22_000),
    (-29_000, 26_000),
];

/// Helford: a south Cornwall ria.
pub const HELFORD: [(i64, i64); 2] = [
    (-78_000, 44_000),
    (-81_264, 45_183),
];

/// Exe: Exmoor through Tiverton and Exeter to Exmouth, the water source nearest the spawn.
pub const EXE: [(i64, i64); 6] = [
    (-7_000, -32_000),
    (-3_000, -20_000),
    (5_000, -8_000),
    (0, 0),
    (4_000, 5_000),
    (8_000, 8_000),
];

/// Dart: Dartmoor down through Totnes to Dartmouth.
pub const DART: [(i64, i64); 4] = [
    (-20_000, 11_000),
    (-15_000, 16_000),
    (-7_272, 21_185),
    (-2_370, 27_122),
];

/// Teign: east Dartmoor to Teignmouth.
pub const TEIGN: [(i64, i64); 3] = [
    (-10_000, 11_000),
    (-5_000, 14_000),
    (2_000, 18_000),
];

/// King's Highway: Exeter, Tavistock, Launceston, Bodmin, Truro, Penzance.
pub const KINGS_HIGHWAY: [(i64, i64); 14] = [
    (0, 0),
    (-10_000, 5_000),
    (-20_000, 8_000),
    (-28_610, 12_600),
    (-35_000, 10_000),
    (-38_653, 6_241),
    (-45_000, 10_000),
    (-50_000, 14_000),
    (-55_546, 18_266),
    (-62_000, 25_000),
    (-70_713, 33_442),
    (-80_000, 40_000),
    (-90_000, 42_000),
    (-95_129, 42_440),
];

/// South Devon road: Exeter, Totnes, Plymouth.
pub const SOUTH_DEVON_ROAD: [(i64, i64); 6] = [
    (0, 0),
    (-3_000, 10_000),
    (-7_272, 21_185),
    (-15_000, 25_000),
    (-22_000, 26_000),
    (-28_063, 26_029),
];

/// Bodmin to Tintagel borough spur.
pub const TINTAGEL_SPUR: [(i64, i64); 3] = [
    (-55_546, 18_266),
    (-56_000, 12_000),
    (-57_190, 3_962),
];

/// Launceston to Lydford spur.
pub const LYDFORD_SPUR: [(i64, i64); 3] = [
    (-38_653, 6_241),
    (-32_000, 6_000),
    (-26_754, 5_739),
];

/// Truro to Helston south road.
pub const HELSTON_ROAD: [(i64, i64); 3] = [
    (-70_713, 33_442),
    (-76_000, 38_000),
    (-81_264, 45_183),
];

/// Bodmin, Lostwithiel, Restormel south spur.
pub const RESTORMEL_SPUR: [(i64, i64); 4] = [
    (-55_546, 18_266),
    (-53_500, 19_500),
    (-52_844, 22_912),
    (-52_940, 20_089),
];

/// Vertices of biome polygon `k`, in lookup order.
pub open spec fn polygon_vertices(k: int) -> Seq<(i64, i64)> {
    if k == 0 {
        DARTMOOR@
    } else if k == 1 {
        BODMIN_MOOR@
    } else if k == 2 {
        EXMOOR@
    } else if k == 3 {
        PENWITH_RITUAL_ZONE@
    } else if k == 4 {
        TAMAR_VALLEY@
    } else if k == 5 {
        WISTMANS_WOOD@
    } else if k == 6 {
        EAST_DEVON_VALES@
    } else if k == 7 {
        TAMAR_ESTUARY@
    } else {
        Seq::empty()
    }
}

/// Biome of polygon `k`.
pub open spec fn polygon_biome(k: int) -> Biome {
    if k == 0 {
        Biome::DartmoorGranite
    } else if k == 1 {
        Biome::BodminMoorGranite
    } else if k == 2 {
        Biome::ExmoorHeath
    } else if k == 3 {
        Biome::RuinHinterland
    } else if k == 4 {
        Biome::RiverValley
    } else if k == 5 {
        Biome::OakWoodland
    } else if k == 6 {
        Biome::BeechCombe
    } else if k == 7 {
        Biome::EstuaryMarsh
    } else {
        Biome::LowlandFarm
    }
}

/// Points of river `k`.
pub open spec fn river_points(k: int) -> Seq<(i64, i64)> {
    if k == 0 {
        TAMAR@
    } else if k == 1 {
        FOWEY@
    } else if k == 2 {
        CAMEL@
    } else if k == 3 {
        FAL@
    } else if k == 4 {
        LYNHER@
    } else if k == 5 {
        HELFORD@
    } else if k == 6 {
        EXE@
    } else if k == 7 {
        DART@
    } else if k == 8 {
        TEIGN@
    } else {
        Seq::empty()
    }
}

/// Corridor width of river `k`, in cells.
pub open spec fn river_width(k: int) -> u16 {
    if k == 0 {
        30
    } else if k == 1 {
        28
    } else if k == 2 {
        28
    } else if k == 3 {
        28
    } else if k == 4 {
        25
    } else if k == 5 {
        25
    } else if k == 6 {
        28
    } else if k == 7 {
        28
    } else if k == 8 {
        25
    } else {
        0
    }
}

/// Points of road `k`.
pub open spec fn road_points(k: int) -> Seq<(i64, i64)> {
    if k == 0 {
        KINGS_HIGHWAY@
    } else if k == 1 {
        SOUTH_DEVON_ROAD@
    } else if k == 2 {
        TINTAGEL_SPUR@
    } else if k == 3 {
        LYDFORD_SPUR@
    } else if k == 4 {
        HELSTON_ROAD@
    } else if k == 5 {
        RESTORMEL_SPUR@
    } else {
        Seq::empty()
    }
}

/// Corridor width of road `k`, in cells.
pub open spec fn road_width(k: int) -> u16 {
    if k == 0 {
        30
    } else if k == 1 {
        25
    } else if k == 2 {
        22
    } else if k == 3 {
        22
    } else if k == 4 {
        22
    } else if k == 5 {
        22
    } else {
        0
    }
}

/// Named site `k`, in lookup order.
pub open spec fn site_spec(k: int) -> NamedSite {
    if k == 0 {
        NamedSite { name: "Exeter", anchor_cell: (0i64, 0i64), anchor_radius_chunks: 4i32, biome_override: Biome::TownEdge, kind: SiteKind::Cathedral }
    } else if k == 1 {
        NamedSite { name: "Dartmouth", anchor_cell: (-2_370i64, 27_122i64), anchor_radius_chunks: 2i32, biome_override: Biome::TownEdge, kind: SiteKind::Town }
    } else if k == 2 {
        NamedSite { name: "Totnes", anchor_cell: (-7_272i64, 21_185i64), anchor_radius_chunks: 2i32, biome_override: Biome::TownEdge, kind: SiteKind::Town }
    } else if k == 3 {
        NamedSite { name: "Tavistock Abbey", anchor_cell: (-28_610i64, 12_600i64), anchor_radius_chunks: 2i32, biome_override: Biome::TownEdge, kind: SiteKind::Cathedral }
    } else if k == 4 {
        NamedSite { name: "Lydford Castle", anchor_cell: (-26_754i64, 5_739i64), anchor_radius_chunks: 2i32, biome_override: Biome::TownEdge, kind: SiteKind::Castle }
    } else if k == 5 {
        NamedSite { name: "Plymouth", anchor_cell: (-28_063i64, 26_029i64), anchor_radius_chunks: 2i32, biome_override: Biome::TownEdge, kind: SiteKind::Town }
    } else if k == 6 {
        NamedSite { name: "St Germans Priory", anchor_cell: (-36_264i64, 23_698i64), anchor_radius_chunks: 2i32, biome_override: Biome::TownEdge, kind: SiteKind::Cathedral }
    } else if k == 7 {
        NamedSite { name: "Launceston Castle", anchor_cell: (-38_653i64, 6_241i64), anchor_radius_chunks: 2i32, biome_override: Biome::TownEdge, kind: SiteKind::Castle }
    } else if k == 8 {
        NamedSite { name: "Liskeard", anchor_cell: (-43_443i64, 19_694i64), anchor_radius_chunks: 2i32, biome_override: Biome::TownEdge, kind: SiteKind::Town }
    } else if k == 9 {
        NamedSite { name: "The Hurlers", anchor_cell: (-43_196i64, 15_016i64), anchor_radius_chunks: 1i32, biome_override: Biome::RuinHinterland, kind: SiteKind::StoneCircle }
    } else if k == 10 {
        NamedSite { name: "Rillaton Barrow", anchor_cell: (-43_057i64, 14_660i64), anchor_radius_chunks: 1i32, biome_override: Biome::RuinHinterland, kind: SiteKind::StoneCircle }
    } else if k == 11 {
        NamedSite { name: "St Clether Well", anchor_cell: (-49_437i64, 5_928i64), anchor_radius_chunks: 1i32, biome_override: Biome::RuinHinterland, kind: SiteKind::HolyWell }
    } else if k == 12 {
        NamedSite { name: "Dozmary Pool", anchor_cell: (-50_130i64, 11_463i64), anchor_radius_chunks: 1i32, biome_override: Biome::RuinHinterland, kind: SiteKind::SacredPool }
    } else if k == 13 {
        NamedSite { name: "King Arthur's Hall", anchor_cell: (-53_851i64, 9_643i64), anchor_radius_chunks: 1i32, biome_override: Biome::RuinHinterland, kind: SiteKind::StoneCircle }
    } else if k == 14 {
        NamedSite { name: "St Nectan's Kieve", anchor_cell: (-53_943i64, 3_088i64), anchor_radius_chunks: 1i32, biome_override: Biome::RuinHinterland, kind: SiteKind::HolyWell }
    } else if k == 15 {
        NamedSite { name: "Lostwithiel", anchor_cell: (-52_844i64, 22_912i64), anchor_radius_chunks: 2i32, biome_override: Biome::TownEdge, kind: SiteKind::Town }
    } else if k == 16 {
        NamedSite { name: "Restormel Castle", anchor_cell: (-52_940i64, 20_089i64), anchor_radius_chunks: 2i32, biome_override: Biome::TownEdge, kind: SiteKind::Castle }
    } else if k == 17 {
        NamedSite { name: "Bodmin", anchor_cell: (-55_546i64, 18_266i64), anchor_radius_chunks: 2i32, biome_override: Biome::TownEdge, kind: SiteKind::Cathedral }
    } else if k == 18 {
        NamedSite { name: "Tintagel Castle", anchor_cell: (-57_190i64, 3_962i64), anchor_radius_chunks: 2i32, biome_override: Biome::TownEdge, kind: SiteKind::Castle }
    } else if k == 19 {
        NamedSite { name: "Merlin's Cave", anchor_cell: (-57_104i64, 4_020i64), anchor_radius_chunks: 1i32, biome_override: Biome::RuinHinterland, kind: SiteKind::SacredPool }
    } else if k == 20 {
        NamedSite { name: "Truro", anchor_cell: (-70_713i64, 33_442i64), anchor_radius_chunks: 2i32, biome_override: Biome::TownEdge, kind: SiteKind::Town }
    } else if k == 21 {
        NamedSite { name: "Helston", anchor_cell: (-81_264i64, 45_183i64), anchor_radius_chunks: 2i32, biome_override: Biome::TownEdge, kind: SiteKind::Town }
    } else if k == 22 {
        NamedSite { name: "Loe Pool", anchor_cell: (-82_379i64, 45_838i64), anchor_radius_chunks: 1i32, biome_override: Biome::RuinHinterland, kind: SiteKind::SacredPool }
    } else if k == 23 {
        NamedSite { name: "Madron Well", anchor_cell: (-95_129i64, 42_440i64), anchor_radius_chunks: 1i32, biome_override: Biome::RuinHinterland, kind: SiteKind::HolyWell }
    } else if k == 24 {
        NamedSite { name: "Men-an-Tol", anchor_cell: (-97_340i64, 42_126i64), anchor_radius_chunks: 1i32, biome_override: Biome::RuinHinterland, kind: SiteKind::StoneCircle }
    } else {
        NamedSite { name: "Merry Maidens", anchor_cell: (-97_851i64, 46_567i64), anchor_radius_chunks: 1i32, biome_override: Biome::RuinHinterland, kind: SiteKind::StoneCircle }
    }
}

/// Biome polygon `k` (`k < BIOME_POLYGON_COUNT`).
pub fn biome_polygon(k: usize) -> (r: BiomePolygon)
    requires
        k < BIOME_POLYGON_COUNT,
    ensures
        r.vertices@ == polygon_vertices(k as int),
        r.biome == polygon_biome(k as int),
{
    match k {
        0 => BiomePolygon { vertices: &DARTMOOR, biome: Biome::DartmoorGranite },
        1 => BiomePolygon { vertices: &BODMIN_MOOR, biome: Biome::BodminMoorGranite },
        2 => BiomePolygon { vertices: &EXMOOR, biome: Biome::ExmoorHeath },
        3 => BiomePolygon { vertices: &PENWITH_RITUAL_ZONE, biome: Biome::RuinHinterland },
        4 => BiomePolygon { vertices: &TAMAR_VALLEY, biome: Biome::RiverValley },
        5 => BiomePolygon { vertices: &WISTMANS_WOOD, biome: Biome::OakWoodland },
        6 => BiomePolygon { vertices: &EAST_DEVON_VALES, biome: Biome::BeechCombe },
        _ => BiomePolygon { vertices: &TAMAR_ESTUARY, biome: Biome::EstuaryMarsh },
    }
}

/// River `k` (`k < RIVER_COUNT`).
pub fn river(k: usize) -> (r: Polyline)
    requires
        k < RIVER_COUNT,
    ensures
        r.points@ == river_points(k as int),
        r.width_cells == river_width(k as int),
{
    match k {
        0 => Polyline { points: &TAMAR, width_cells: 30 },
        1 => Polyline { points: &FOWEY, width_cells: 28 },
        2 => Polyline { points: &CAMEL, width_cells: 28 },
        3 => Polyline { points: &FAL, width_cells: 28 },
        4 => Polyline { points: &LYNHER, width_cells: 25 },
        5 => Polyline { points: &HELFORD, width_cells: 25 },
        6 => Polyline { points: &EXE, width_cells: 28 },
        7 => Polyline { points: &DART, width_cells: 28 },
        _ => Polyline { points: &TEIGN, width_cells: 25 },
    }
}

/// Road `k` (`k < ROAD_COUNT`).
pub fn road(k: usize) -> (r: Polyline)
    requires
        k < ROAD_COUNT,
    ensures
        r.points@ == road_points(k as int),
        r.width_cells == road_width(k as int),
{
    match k {
        0 => Polyline { points: &KINGS_HIGHWAY, width_cells: 30 },
        1 => Polyline { points: &SOUTH_DEVON_ROAD, width_cells: 25 },
        2 => Polyline { points: &TINTAGEL_SPUR, width_cells: 22 },
        3 => Polyline { points: &LYDFORD_SPUR, width_cells: 22 },
        4 => Polyline { points: &HELSTON_ROAD, width_cells: 22 },
        _ => Polyline { points: &RESTORMEL_SPUR, width_cells: 22 },
    }
}

/// Named site `k` (`k < NAMED_SITE_COUNT`).
pub fn named_site(k: usize) -> (r: NamedSite)
    requires
        k < NAMED_SITE_COUNT,
    ensures
        r == site_spec(k as int),
{
    match k {
        0 => NamedSite { name: "Exeter", anchor_cell: (0i64, 0i64), anchor_radius_chunks: 4i32, biome_override: Biome::TownEdge, kind: SiteKind::Cathedral },
        1 => NamedSite { name: "Dartmouth", anchor_cell: (-2_370i64, 27_122i64), anchor_radius_chunks: 2i32, biome_override: Biome::TownEdge, kind: SiteKind::Town },
        2 => NamedSite { name: "Totnes", anchor_cell: (-7_272i64, 21_185i64), anchor_radius_chunks: 2i32, biome_override: Biome::TownEdge, kind: SiteKind::Town },
        3 => NamedSite { name: "Tavistock Abbey", anchor_cell: (-28_610i64, 12_600i64), anchor_radius_chunks: 2i32, biome_override: Biome::TownEdge, kind: SiteKind::Cathedral },
        4 => NamedSite { name: "Lydford Castle", anchor_cell: (-26_754i64, 5_739i64), anchor_radius_chunks: 2i32, biome_override: Biome::TownEdge, kind: SiteKind::Castle },
        5 => NamedSite { name: "Plymouth", anchor_cell: (-28_063i64, 26_029i64), anchor_radius_chunks: 2i32, biome_override: Biome::TownEdge, kind: SiteKind::Town },
        6 => NamedSite { name: "St Germans Priory", anchor_cell: (-36_264i64, 23_698i64), anchor_radius_chunks: 2i32, biome_override: Biome::TownEdge, kind: SiteKind::Cathedral },
        7 => NamedSite { name: "Launceston Castle", anchor_cell: (-38_653i64, 6_241i64), anchor_radius_chunks: 2i32, biome_override: Biome::TownEdge, kind: SiteKind::Castle },
        8 => NamedSite { name: "Liskeard", anchor_cell: (-43_443i64, 19_694i64), anchor_radius_chunks: 2i32, biome_override: Biome::TownEdge, kind: SiteKind::Town },
        9 => NamedSite { name: "The Hurlers", anchor_cell: (-43_196i64, 15_016i64), anchor_radius_chunks: 1i32, biome_override: Biome::RuinHinterland, kind: SiteKind::StoneCircle },
        10 => NamedSite { name: "Rillaton Barrow", anchor_cell: (-43_057i64, 14_660i64), anchor_radius_chunks: 1i32, biome_override: Biome::RuinHinterland, kind: SiteKind::StoneCircle },
        11 => NamedSite { name: "St Clether Well", anchor_cell: (-49_437i64, 5_928i64), anchor_radius_chunks: 1i32, biome_override: Biome::RuinHinterland, kind: SiteKind::HolyWell },
        12 => NamedSite { name: "Dozmary Pool", anchor_cell: (-50_130i64, 11_463i64), anchor_radius_chunks: 1i32, biome_override: Biome::RuinHinterland, kind: SiteKind::SacredPool },
        13 => NamedSite { name: "King Arthur's Hall", anchor_cell: (-53_851i64, 9_643i64), anchor_radius_chunks: 1i32, biome_override: Biome::RuinHinterland, kind: SiteKind::StoneCircle },
        14 => NamedSite { name: "St Nectan's Kieve", anchor_cell: (-53_943i64, 3_088i64), anchor_radius_chunks: 1i32, biome_override: Biome::RuinHinterland, kind: SiteKind::HolyWell },
        15 => NamedSite { name: "Lostwithiel", anchor_cell: (-52_844i64, 22_912i64), anchor_radius_chunks: 2i32, biome_override: Biome::TownEdge, kind: SiteKind::Town },
        16 => NamedSite { name: "Restormel Castle", anchor_cell: (-52_940i64, 20_089i64), anchor_radius_chunks: 2i32, biome_override: Biome::TownEdge, kind: SiteKind::Castle },
        17 => NamedSite { name: "Bodmin", anchor_cell: (-55_546i64, 18_266i64), anchor_radius_chunks: 2i32, biome_override: Biome::TownEdge, kind: SiteKind::Cathedral },
        18 => NamedSite { name: "Tintagel Castle", anchor_cell: (-57_190i64, 3_962i64), anchor_radius_chunks: 2i32, biome_override: Biome::TownEdge, kind: SiteKind::Castle },
        19 => NamedSite { name: "Merlin's Cave", anchor_cell: (-57_104i64, 4_020i64), anchor_radius_chunks: 1i32, biome_override: Biome::RuinHinterland, kind: SiteKind::SacredPool },
        20 => NamedSite { name: "Truro", anchor_cell: (-70_713i64, 33_442i64), anchor_radius_chunks: 2i32, biome_override: Biome::TownEdge, kind: SiteKind::Town },
        21 => NamedSite { name: "Helston", anchor_cell: (-81_264i64, 45_183i64), anchor_radius_chunks: 2i32, biome_override: Biome::TownEdge, kind: SiteKind::Town },
        22 => NamedSite { name: "Loe Pool", anchor_cell: (-82_379i64, 45_838i64), anchor_radius_chunks: 1i32, biome_override: Biome::RuinHinterland, kind: SiteKind::SacredPool },
        23 => NamedSite { name: "Madron Well", anchor_cell: (-95_129i64, 42_440i64), anchor_radius_chunks: 1i32, biome_override: Biome::RuinHinterland, kind: SiteKind::HolyWell },
        24 => NamedSite { name: "Men-an-Tol", anchor_cell: (-97_340i64, 42_126i64), anchor_radius_chunks: 1i32, biome_override: Biome::RuinHinterland, kind: SiteKind::StoneCircle },
        _ => NamedSite { name: "Merry Maidens", anchor_cell: (-97_851i64, 46_567i64), anchor_radius_chunks: 1i32, biome_override: Biome::RuinHinterland, kind: SiteKind::StoneCircle },
    }
}

/// Every authored vertex lies within `MAP_BOUND`.
pub proof fn lemma_map_data_within()
    ensures
        all_within(PENINSULA_OUTLINE@, MAP_BOUND as int),
        forall|k: int| 0 <= k < BIOME_POLYGON_COUNT ==> all_within(#[trigger] polygon_vertices(k), MAP_BOUND as int),
        forall|k: int| 0 <= k < RIVER_COUNT ==> all_within(#[trigger] river_points(k), MAP_BOUND as int),
        forall|k: int| 0 <= k < ROAD_COUNT ==> all_within(#[trigger] road_points(k), MAP_BOUND as int),
{
    assert(all_within(PENINSULA_OUTLINE@, MAP_BOUND as int));
    assert(all_within(DARTMOOR@, MAP_BOUND as int));
    assert(all_within(BODMIN_MOOR@, MAP_BOUND as int));
    assert(all_within(EXMOOR@, MAP_BOUND as int));
    assert(all_within(PENWITH_RITUAL_ZONE@, MAP_BOUND as int));
    assert(all_within(TAMAR_VALLEY@, MAP_BOUND as int));
    assert(all_within(WISTMANS_WOOD@, MAP_BOUND as int));
    assert(all_within(EAST_DEVON_VALES@, MAP_BOUND as int));
    assert(all_within(TAMAR_ESTUARY@, MAP_BOUND as int));
    assert(all_within(TAMAR@, MAP_BOUND as int));
    assert(all_within(FOWEY@, MAP_BOUND as int));
    assert(all_within(CAMEL@, MAP_BOUND as int));
    assert(all_within(FAL@, MAP_BOUND as int));
    assert(all_within(LYNHER@, MAP_BOUND as int));
    assert(all_within(HELFORD@, MAP_BOUND as int));
    assert(all_within(EXE@, MAP_BOUND as int));
    assert(all_within(DART@, MAP_BOUND as int));
    assert(all_within(TEIGN@, MAP_BOUND as int));
    assert(all_within(KINGS_HIGHWAY@, MAP_BOUND as int));
    assert(all_within(SOUTH_DEVON_ROAD@, MAP_BOUND as int));
    assert(all_within(TINTAGEL_SPUR@, MAP_BOUND as int));
    assert(all_within(LYDFORD_SPUR@, MAP_BOUND as int));
    assert(all_within(HELSTON_ROAD@, MAP_BOUND as int));
    assert(all_within(RESTORMEL_SPUR@, MAP_BOUND as int));
}

// ---------------------------------------------------------------------
// Chunk geometry
// ---------------------------------------------------------------------

/// A chunk coordinate as a pair of mathematical integers.
pub open spec fn cc_int(cc: ChunkCoord) -> (int, int) {
    (cc.cx as int, cc.cy as int)
}

/// World-cell center of chunk `c`.
pub open spec fn chunk_center_spec(c: (int, int)) -> (int, int) {
    (c.0 * (CHUNK_W as int) + (CHUNK_W as int) / 2, c.1 * (CHUNK_H as int) + (CHUNK_H as int) / 2)
}

/// World-cell center of `cc`, the point the biome lookups test.
pub fn chunk_center(cc: ChunkCoord) -> (r: (i64, i64))
    ensures
        ipt(r) == chunk_center_spec(cc_int(cc)),
        within(r, QUERY_BOUND as int),
{
    let x = cc.cx as i64 * 40 + 20;
    let y = cc.cy as i64 * 30 + 15;
    (x, y)
}

/// Chunk of a cell, each coordinate floor-divided by the chunk size and
/// truncated to 32 bits.
pub open spec fn cell_chunk(cell: (i64, i64)) -> ChunkCoord {
    ChunkCoord {
        cx: (chunk_of(ipt(cell)).0) as i32,
        cy: (chunk_of(ipt(cell)).1) as i32,
    }
}

fn floor_div_cell(x: i64, w: i64) -> (r: i64)
    requires
        1 <= w <= 64,
    ensures
        r == x / w,
{
    if x == i64::MIN {
        let q = floor_div_i64(x + w, w);
        proof {
            lemma_fundamental_div_mod(x + w, w as int);
            let rr = (x + w) % (w as int);
            assert(x as int == (q - 1) * (w as int) + rr) by (nonlinear_arith)
                requires
                    x + w == (w as int) * (q as int) + rr,
            ;
            lemma_fundamental_div_mod_converse(x as int, w as int, q - 1, rr);
            assert(q >= x + w) by (nonlinear_arith)
                requires
                    x + w == (w as int) * (q as int) + rr,
                    0 <= rr < w,
                    w >= 1,
                    x + w < 0,
            ;
        }
        q - 1
    } else {
        floor_div_i64(x, w)
    }
}

pub fn chunk_for_cell(cell: (i64, i64)) -> (r: ChunkCoord)
    ensures
        r == cell_chunk(cell),
{
    let cx = floor_div_cell(cell.0, CHUNK_W as i64);
    let cy = floor_div_cell(cell.1, CHUNK_H as i64);
    ChunkCoord { cx: cx as i32, cy: cy as i32 }
}

/// Chunk that a named site's anchor cell falls in, where the overmap
/// draws the site's overlay glyph.
pub fn chunk_for_anchor(site: &NamedSite) -> (r: ChunkCoord)
    ensures
        r == cell_chunk(site.anchor_cell),
{
    chunk_for_cell(site.anchor_cell)
}

// ---------------------------------------------------------------------
// Named sites
// ---------------------------------------------------------------------

/// Chunk `c` lies within the site's Chebyshev radius of its anchor chunk.
pub open spec fn site_covers(s: NamedSite, c: (int, int)) -> bool {
    let a = cell_chunk(s.anchor_cell);
    let r = s.anchor_radius_chunks as int;
    &&& -r <= c.0 - a.cx <= r
    &&& -r <= c.1 - a.cy <= r
}

/// The first site, from index `k` on, whose radius holds chunk `c`.
pub open spec fn first_site_from(c: (int, int), k: int) -> Option<NamedSite>
    decreases NAMED_SITE_COUNT - k,
{
    if k >= NAMED_SITE_COUNT {
        None
    } else if site_covers(site_spec(k), c) {
        Some(site_spec(k))
    } else {
        first_site_from(c, k + 1)
    }
}

fn site_covers_exec(site: &NamedSite, cc: ChunkCoord) -> (r: bool)
    ensures
        r == site_covers(*site, cc_int(cc)),
{
    let a = chunk_for_cell(site.anchor_cell);
    let dx = cc.cx as i64 - a.cx as i64;
    let dy = cc.cy as i64 - a.cy as i64;
    let rad = site.anchor_radius_chunks as i64;
    -rad <= dx && dx <= rad && -rad <= dy && dy <= rad
}

fn find_named_site(cc: ChunkCoord) -> (r: Option<NamedSite>)
    ensures
        r == first_site_from(cc_int(cc), 0),
{
    let mut k: usize = 0;
    while k < NAMED_SITE_COUNT
        invariant
            k <= NAMED_SITE_COUNT,
            first_site_from(cc_int(cc), 0) == first_site_from(cc_int(cc), k as int),
        decreases NAMED_SITE_COUNT - k,
    {
        let site = named_site(k);
        if site_covers_exec(&site, cc) {
            return Some(site);
        }
        k = k + 1;
    }
    None
}

/// All named sites, in lookup order.
pub fn named_sites() -> (r: Vec<NamedSite>)
    ensures
        r@.len() == NAMED_SITE_COUNT,
        forall|k: int| 0 <= k < NAMED_SITE_COUNT ==> r@[k] == site_spec(k),
{
    let mut v: Vec<NamedSite> = Vec::new();
    let mut k: usize = 0;
    while k < NAMED_SITE_COUNT
        invariant
            k <= NAMED_SITE_COUNT,
            v@.len() == k,
            forall|m: int| 0 <= m < k ==> v@[m] == site_spec(m),
        decreases NAMED_SITE_COUNT - k,
    {
        v.push(named_site(k));
        k = k + 1;
    }
    v
}

/// All biome polygons, in lookup order.
pub fn biome_polygons() -> (r: Vec<BiomePolygon>)
    ensures
        r@.len() == BIOME_POLYGON_COUNT,
        forall|k: int|
            0 <= k < BIOME_POLYGON_COUNT ==> r@[k].vertices@ == polygon_vertices(k) && r@[k].biome
                == polygon_biome(k),
{
    let mut v: Vec<BiomePolygon> = Vec::new();
    let mut k: usize = 0;
    while k < BIOME_POLYGON_COUNT
        invariant
            k <= BIOME_POLYGON_COUNT,
            v@.len() == k,
            forall|m: int|
                0 <= m < k ==> v@[m].vertices@ == polygon_vertices(m) && v@[m].biome == polygon_biome(m),
        decreases BIOME_POLYGON_COUNT - k,
    {
        v.push(biome_polygon(k));
        k = k + 1;
    }
    v
}

/// All rivers.
pub fn rivers() -> (r: Vec<Polyline>)
    ensures
        r@.len() == RIVER_COUNT,
        forall|k: int|
            0 <= k < RIVER_COUNT ==> r@[k].points@ == river_points(k) && r@[k].width_cells == river_width(k),
{
    let mut v: Vec<Polyline> = Vec::new();
    let mut k: usize = 0;
    while k < RIVER_COUNT
        invariant
            k <= RIVER_COUNT,
            v@.len() == k,
            forall|m: int| 0 <= m < k ==> v@[m].points@ == river_points(m) && v@[m].width_cells == river_width(m),
        decreases RIVER_COUNT - k,
    {
        v.push(river(k));
        k = k + 1;
    }
    v
}

/// All roads.
pub fn roads() -> (r: Vec<Polyline>)
    ensures
        r@.len() == ROAD_COUNT,
        forall|k: int|
            0 <= k < ROAD_COUNT ==> r@[k].points@ == road_points(k) && r@[k].width_cells == road_width(k),
{
    let mut v: Vec<Polyline> = Vec::new();
    let mut k: usize = 0;
    while k < ROAD_COUNT
        invariant
            k <= ROAD_COUNT,
            v@.len() == k,
            forall|m: int| 0 <= m < k ==> v@[m].points@ == road_points(m) && v@[m].width_cells == road_width(m),
        decreases ROAD_COUNT - k,
    {
        v.push(road(k));
        k = k + 1;
    }
    v
}

// ---------------------------------------------------------------------
// Biome lookup
// ---------------------------------------------------------------------

/// The biome of the first polygon, from index `k` on, that holds `p`.
pub open spec fn first_polygon_from(p: (int, int), k: int) -> Option<Biome>
    decreases BIOME_POLYGON_COUNT - k,
{
    if k >= BIOME_POLYGON_COUNT {
        None
    } else if in_polygon(p, polygon_vertices(k)) {
        Some(polygon_biome(k))
    } else {
        first_polygon_from(p, k + 1)
    }
}

/// Land outside every polygon: coast within the coast band of the
/// outline (cliff north of Plymouth Sound, beach south of it), farmland
/// further in.
pub open spec fn land_fallback(center: (int, int)) -> Biome {
    if polyline_dist_sq(center, PENINSULA_OUTLINE@) < COAST_BAND_CELLS * COAST_BAND_CELLS {
        if center.1 < COAST_SPLIT_Y {
            Biome::CoastCliff
        } else {
            Biome::CoastBeach
        }
    } else {
        Biome::LowlandFarm
    }
}

/// Biome of chunk `c`, by the cascade: a named site's override; sea
/// outside the peninsula outline; the first biome polygon holding the
/// chunk's center; coast or farmland.
pub open spec fn overmap_biome(c: (int, int)) -> Biome {
    let center = chunk_center_spec(c);
    match first_site_from(c, 0) {
        Some(s) => s.biome_override,
        None => if !in_polygon(center, PENINSULA_OUTLINE@) {
            Biome::Sea
        } else {
            match first_polygon_from(center, 0) {
                Some(b) => b,
                None => land_fallback(center),
            }
        },
    }
}

/// Chunk `c` belongs to the trail of some river.
pub open spec fn on_river_trail(c: (int, int)) -> bool {
    exists|k: int| 0 <= k < RIVER_COUNT && #[trigger] polyline_marks(river_points(k), c)
}

/// Chunk `c` belongs to the trail of some road.
pub open spec fn on_road_trail(c: (int, int)) -> bool {
    exists|k: int| 0 <= k < ROAD_COUNT && #[trigger] polyline_marks(road_points(k), c)
}

/// All authored polylines have at least two points.
proof fn lemma_polylines_long()
    ensures
        PENINSULA_OUTLINE@.len() >= 2,
        forall|k: int| 0 <= k < RIVER_COUNT ==> #[trigger] river_points(k).len() >= 2,
        forall|k: int| 0 <= k < ROAD_COUNT ==> #[trigger] road_points(k).len() >= 2,
{
}

fn find_polygon(center: (i64, i64)) -> (r: Option<Biome>)
    requires
        within(center, QUERY_BOUND as int),
    ensures
        r == first_polygon_from(ipt(center), 0),
{
    proof {
        lemma_map_data_within();
    }
    let mut k: usize = 0;
    while k < BIOME_POLYGON_COUNT
        invariant
            k <= BIOME_POLYGON_COUNT,
            within(center, QUERY_BOUND as int),
            forall|m: int| 0 <= m < BIOME_POLYGON_COUNT ==> all_within(#[trigger] polygon_vertices(m), MAP_BOUND as int),
            first_polygon_from(ipt(center), 0) == first_polygon_from(ipt(center), k as int),
        decreases BIOME_POLYGON_COUNT - k,
    {
        let poly = biome_polygon(k);
        assert(all_within(polygon_vertices(k as int), MAP_BOUND as int));
        if point_in_polygon(center, poly.vertices) {
            return Some(poly.biome);
        }
        k = k + 1;
    }
    None
}

fn on_any_river(cc: ChunkCoord) -> (r: bool)
    ensures
        r == on_river_trail(cc_int(cc)),
{
    proof {
        lemma_map_data_within();
    }
    let mut k: usize = 0;
    while k < RIVER_COUNT
        invariant
            k <= RIVER_COUNT,
            forall|m: int| 0 <= m < RIVER_COUNT ==> all_within(#[trigger] river_points(m), MAP_BOUND as int),
            forall|m: int| 0 <= m < k ==> !#[trigger] polyline_marks(river_points(m), cc_int(cc)),
        decreases RIVER_COUNT - k,
    {
        let line = river(k);
        assert(all_within(river_points(k as int), MAP_BOUND as int));
        if polyline_marks_chunk(line.points, (cc.cx, cc.cy)) {
            return true;
        }
        k = k + 1;
    }
    false
}

fn on_any_road(cc: ChunkCoord) -> (r: bool)
    ensures
        r == on_road_trail(cc_int(cc)),
{
    proof {
        lemma_map_data_within();
    }
    let mut k: usize = 0;
    while k < ROAD_COUNT
        invariant
            k <= ROAD_COUNT,
            forall|m: int| 0 <= m < ROAD_COUNT ==> all_within(#[trigger] road_points(m), MAP_BOUND as int),
            forall|m: int| 0 <= m < k ==> !#[trigger] polyline_marks(road_points(m), cc_int(cc)),
        decreases ROAD_COUNT - k,
    {
        let line = road(k);
        assert(all_within(road_points(k as int), MAP_BOUND as int));
        if polyline_marks_chunk(line.points, (cc.cx, cc.cy)) {
            return true;
        }
        k = k + 1;
    }
    false
}

/// Classify chunk `cc`. The biome follows the cascade of `overmap_biome`;
/// the river and road flags say whether the chunk lies on the 4-connected
/// chunk trail of a river or road, and are never set at sea. A named
/// site's chunks keep their flags, so a road is drawn through a town.
pub fn overmap_info_at(cc: ChunkCoord) -> (r: OvermapInfo)
    ensures
        r.named_site == first_site_from(cc_int(cc), 0),
        r.biome == overmap_biome(cc_int(cc)),
        r.has_river == (r.biome != Biome::Sea && on_river_trail(cc_int(cc))),
        r.has_road == (r.biome != Biome::Sea && on_road_trail(cc_int(cc))),
{
    proof {
        lemma_map_data_within();
        lemma_polylines_long();
    }
    let center = chunk_center(cc);
    let named_site = find_named_site(cc);
    let biome = match named_site {
        Some(site) => site.biome_override,
        None => {
            if !point_in_polygon(center, &PENINSULA_OUTLINE) {
                Biome::Sea
            } else {
                match find_polygon(center) {
                    Some(b) => b,
                    None => {
                        let d_sq = min_polyline_dist_sq(center, &PENINSULA_OUTLINE);
                        proof {
                            crate::geometry::lemma_min_seg_dist_nonneg(
                                ipt(center),
                                PENINSULA_OUTLINE@,
                                PENINSULA_OUTLINE@.len() - 1,
                            );
                        }
                        if d_sq < COAST_BAND_CELLS * COAST_BAND_CELLS {
                            if center.1 < COAST_SPLIT_Y {
                                Biome::CoastCliff
                            } else {
                                Biome::CoastBeach
                            }
                        } else {
                            Biome::LowlandFarm
                        }
                    },
                }
            }
        },
    };
    let has_river = biome != Biome::Sea && on_any_river(cc);
    let has_road = biome != Biome::Sea && on_any_road(cc);
    OvermapInfo { biome, has_river, has_road, named_site }
}

// ---------------------------------------------------------------------
// Cells on rivers and roads
// ---------------------------------------------------------------------

/// The cell `p` lies within `radius_sq` (squared) of river `k`'s line, or
/// of road `k`'s.
pub open spec fn near_river(p: (int, int)) -> bool {
    exists|k: int| 0 <= k < RIVER_COUNT && #[trigger] polyline_dist_sq(p, river_points(k)) <= STREAM_RADIUS_SQ
}

pub open spec fn near_road(p: (int, int)) -> bool {
    exists|k: int| 0 <= k < ROAD_COUNT && #[trigger] polyline_dist_sq(p, road_points(k)) <= ROAD_RADIUS_SQ
}

/// The cell at world coordinates `(wx, wy)` shows stream water: its
/// squared distance to some river's line is at most `STREAM_RADIUS_SQ`.
pub fn cell_on_river(wx: i64, wy: i64) -> (r: bool)
    ensures
        r == near_river((wx as int, wy as int)),
{
    proof {
        lemma_map_data_within();
        lemma_polylines_long();
    }
    let p = (wx, wy);
    let ghost gp = (wx as int, wy as int);
    assert(ipt(p) == gp);
    if !(-QUERY_BOUND <= wx && wx <= QUERY_BOUND && -QUERY_BOUND <= wy && wy <= QUERY_BOUND) {
        proof {
            assert forall|k: int| 0 <= k < RIVER_COUNT implies #[trigger] polyline_dist_sq(gp, river_points(k)) > 4 by {
                crate::geometry::lemma_far_polyline(gp, river_points(k), river_points(k).len() - 1);
            }
        }
        return false;
    }
    let mut k: usize = 0;
    while k < RIVER_COUNT
        invariant
            k <= RIVER_COUNT,
            within(p, QUERY_BOUND as int),
            p == (wx, wy),
            gp == ipt(p),
            forall|m: int| 0 <= m < RIVER_COUNT ==> all_within(#[trigger] river_points(m), MAP_BOUND as int),
            forall|m: int| 0 <= m < RIVER_COUNT ==> #[trigger] river_points(m).len() >= 2,
            forall|m: int| 0 <= m < k ==> #[trigger] polyline_dist_sq(gp, river_points(m)) > STREAM_RADIUS_SQ,
        decreases RIVER_COUNT - k,
    {
        let line = river(k);
        assert(all_within(river_points(k as int), MAP_BOUND as int));
        assert(river_points(k as int).len() >= 2);
        let d = min_polyline_dist_sq(p, line.points);
        proof {
            crate::geometry::lemma_min_seg_dist_nonneg(ipt(p), river_points(k as int), river_points(k as int).len() - 1);
        }
        if d <= STREAM_RADIUS_SQ {
            return true;
        }
        k = k + 1;
    }
    false
}

/// The cell at world coordinates `(wx, wy)` shows a beaten-earth road:
/// its squared distance to some road's line is at most `ROAD_RADIUS_SQ`.
pub fn cell_on_road(wx: i64, wy: i64) -> (r: bool)
    ensures
        r == near_road((wx as int, wy as int)),
{
    proof {
        lemma_map_data_within();
        lemma_polylines_long();
    }
    let p = (wx, wy);
    let ghost gp = (wx as int, wy as int);
    assert(ipt(p) == gp);
    if !(-QUERY_BOUND <= wx && wx <= QUERY_BOUND && -QUERY_BOUND <= wy && wy <= QUERY_BOUND) {
        proof {
            assert forall|k: int| 0 <= k < ROAD_COUNT implies #[trigger] polyline_dist_sq(gp, road_points(k)) > 4 by {
                crate::geometry::lemma_far_polyline(gp, road_points(k), road_points(k).len() - 1);
            }
        }
        return false;
    }
    let mut k: usize = 0;
    while k < ROAD_COUNT
        invariant
            k <= ROAD_COUNT,
            within(p, QUERY_BOUND as int),
            p == (wx, wy),
            gp == ipt(p),
            forall|m: int| 0 <= m < ROAD_COUNT ==> all_within(#[trigger] road_points(m), MAP_BOUND as int),
            forall|m: int| 0 <= m < ROAD_COUNT ==> #[trigger] road_points(m).len() >= 2,
            forall|m: int| 0 <= m < k ==> #[trigger] polyline_dist_sq(gp, road_points(m)) > ROAD_RADIUS_SQ,
        decreases ROAD_COUNT - k,
    {
        let line = road(k);
        assert(all_within(road_points(k as int), MAP_BOUND as int));
        assert(road_points(k as int).len() >= 2);
        let d = min_polyline_dist_sq(p, line.points);
        proof {
            crate::geometry::lemma_min_seg_dist_nonneg(ipt(p), road_points(k as int), road_points(k as int).len() - 1);
        }
        if d <= ROAD_RADIUS_SQ {
            return true;
        }
        k = k + 1;
    }
    false
}

// ---------------------------------------------------------------------
// Nearest road
// ---------------------------------------------------------------------

/// Segment `j` of road `k` exists.
pub open spec fn is_road_seg(k: int, j: int) -> bool {
    0 <= k < ROAD_COUNT && 0 <= j < road_points(k).len() - 1
}

/// Segment `(k1, j1)` comes before `(k2, j2)` in road order.
pub open spec fn road_seg_before(k1: int, j1: int, k2: int, j2: int) -> bool {
    k1 < k2 || (k1 == k2 && j1 < j2)
}

/// Squared distance from `p` to segment `j` of road `k`, capped at
/// `i64::MAX`.
pub open spec fn road_seg_dist(p: (int, int), k: int, j: int) -> int {
    saturate_i64(seg_dist_sq(p, ipt(road_points(k)[j]), ipt(road_points(k)[j + 1]))) as int
}

/// Direction vector of segment `j` of road `k`.
pub open spec fn road_seg_dir(k: int, j: int) -> (i64, i64) {
    let a = road_points(k)[j];
    let b = road_points(k)[j + 1];
    ((b.0 - a.0) as i64, (b.1 - a.1) as i64)
}

/// Segment `(k, j)` is the first road segment, in road order, at the
/// smallest capped distance from `p`.
pub open spec fn is_nearest_road_seg(p: (int, int), k: int, j: int) -> bool {
    &&& is_road_seg(k, j)
    &&& forall|k2: int, j2: int| #[trigger] is_road_seg(k2, j2) ==> road_seg_dist(p, k, j) <= road_seg_dist(p, k2, j2)
    &&& forall|k2: int, j2: int|
        #[trigger] is_road_seg(k2, j2) && road_seg_before(k2, j2, k, j) ==> road_seg_dist(p, k2, j2) > road_seg_dist(p, k, j)
}

/// Direction `(dx, dy)` of the road segment nearest to the center of
/// `cc`, the first in road order among equals, so that the overmap can
/// draw a road glyph along the segment's real orientation. `None` only
/// when no segment comes nearer than the cap `i64::MAX`.
pub fn nearest_road_direction(cc: ChunkCoord) -> (r: Option<(i64, i64)>)
    ensures
        match r {
            None => forall|k: int, j: int| #[trigger] is_road_seg(k, j) ==> road_seg_dist(chunk_center_spec(cc_int(cc)), k, j) == i64::MAX,
            Some(dir) => exists|k: int, j: int|
                #[trigger] is_nearest_road_seg(chunk_center_spec(cc_int(cc)), k, j) && dir == road_seg_dir(k, j)
                    && road_seg_dist(chunk_center_spec(cc_int(cc)), k, j) < i64::MAX,
        },
{
    proof {
        lemma_map_data_within();
        lemma_polylines_long();
    }
    let center = chunk_center(cc);
    let ghost gp = ipt(center);
    let mut best_dist_sq: i64 = i64::MAX;
    let mut best_dir: Option<(i64, i64)> = None;
    let ghost mut bk: int = 0;
    let ghost mut bj: int = 0;
    let mut k: usize = 0;
    while k < ROAD_COUNT
        invariant
            k <= ROAD_COUNT,
            within(center, QUERY_BOUND as int),
            gp == ipt(center),
            gp == chunk_center_spec(cc_int(cc)),
            forall|m: int| 0 <= m < ROAD_COUNT ==> all_within(#[trigger] road_points(m), MAP_BOUND as int),
            forall|m: int| 0 <= m < ROAD_COUNT ==> #[trigger] road_points(m).len() >= 2,
            best_dir is None ==> best_dist_sq == i64::MAX,
            best_dir is None ==> forall|k2: int, j2: int|
                #[trigger] is_road_seg(k2, j2) && k2 < k ==> road_seg_dist(gp, k2, j2) == i64::MAX,
            best_dir is Some ==> {
                &&& is_road_seg(bk, bj)
                &&& bk < k
                &&& best_dir == Some(road_seg_dir(bk, bj))
                &&& best_dist_sq == road_seg_dist(gp, bk, bj)
                &&& best_dist_sq < i64::MAX
                &&& forall|k2: int, j2: int|
                    #[trigger] is_road_seg(k2, j2) && k2 < k ==> best_dist_sq <= road_seg_dist(gp, k2, j2)
                &&& forall|k2: int, j2: int|
                    #[trigger] is_road_seg(k2, j2) && road_seg_before(k2, j2, bk, bj) ==> road_seg_dist(gp, k2, j2) > best_dist_sq
            },
        decreases ROAD_COUNT - k,
    {
        let line = road(k);
        let pts = line.points;
        assert(all_within(road_points(k as int), MAP_BOUND as int));
        let last = pts.len() - 1;
        let mut j: usize = 0;
        while j < last
            invariant
                k < ROAD_COUNT,
                pts@ == road_points(k as int),
                last == pts@.len() - 1,
                pts@.len() >= 2,
                j <= last,
                all_within(pts@, MAP_BOUND as int),
                within(center, QUERY_BOUND as int),
                gp == ipt(center),
                best_dir is None ==> best_dist_sq == i64::MAX,
                best_dir is None ==> forall|k2: int, j2: int|
                    #[trigger] is_road_seg(k2, j2) && road_seg_before(k2, j2, k as int, j as int) ==> road_seg_dist(gp, k2, j2) == i64::MAX,
                best_dir is Some ==> {
                    &&& is_road_seg(bk, bj)
                    &&& road_seg_before(bk, bj, k as int, j as int)
                    &&& best_dir == Some(road_seg_dir(bk, bj))
                    &&& best_dist_sq == road_seg_dist(gp, bk, bj)
                    &&& best_dist_sq < i64::MAX
                    &&& forall|k2: int, j2: int|
                        #[trigger] is_road_seg(k2, j2) && road_seg_before(k2, j2, k as int, j as int) ==> best_dist_sq <= road_seg_dist(gp, k2, j2)
                    &&& forall|k2: int, j2: int|
                        #[trigger] is_road_seg(k2, j2) && road_seg_before(k2, j2, bk, bj) ==> road_seg_dist(gp, k2, j2) > best_dist_sq
                },
            decreases last - j,
        {
            let a = pts[j];
            let b = pts[j + 1];
            assert(within(pts@[j as int], MAP_BOUND as int));
            assert(within(pts@[j + 1], MAP_BOUND as int));
            let d = point_to_segment_dist_sq(center, a, b);
            assert(d == road_seg_dist(gp, k as int, j as int));
            if d < best_dist_sq {
                best_dist_sq = d;
                best_dir = Some((b.0 - a.0, b.1 - a.1));
                proof {
                    bk = k as int;
                    bj = j as int;
                }
            }
            j = j + 1;
        }
        k = k + 1;
    }
    proof {
        if best_dir is Some {
            assert(is_nearest_road_seg(gp, bk, bj));
        }
    }
    best_dir
}

/// The polyline `pts` passes through chunk `cc`'s rectangle: some segment
/// has an endpoint in the chunk (lower corner owned, upper corner not) or
/// crosses it along a stretch of positive length.
pub fn polyline_crosses_chunk(cc: ChunkCoord, pts: &[(i64, i64)]) -> (r: bool)
    requires
        all_within(pts@, WIDE_BOUND as int),
    ensures
        r == exists|k: int|
            0 <= k < pts@.len() - 1 && #[trigger] segment_crosses_rect(
                ipt(pts@[k]),
                ipt(pts@[k + 1]),
                cc.cx * (CHUNK_W as int),
                cc.cy * (CHUNK_H as int),
                cc.cx * (CHUNK_W as int) + (CHUNK_W as int),
                cc.cy * (CHUNK_H as int) + (CHUNK_H as int),
            ),
{
    let x_min = cc.cx as i64 * 40;
    let y_min = cc.cy as i64 * 30;
    let x_max = x_min + 40;
    let y_max = y_min + 30;
    if pts.len() < 2 {
        return false;
    }
    let last = pts.len() - 1;
    let mut k: usize = 0;
    while k < last
        invariant
            all_within(pts@, WIDE_BOUND as int),
            last == pts@.len() - 1,
            k <= last,
            x_min == cc.cx * (CHUNK_W as int),
            y_min == cc.cy * (CHUNK_H as int),
            x_max == x_min + 40,
            y_max == y_min + 30,
            forall|m: int|
                0 <= m < k ==> !#[trigger] segment_crosses_rect(
                    ipt(pts@[m]),
                    ipt(pts@[m + 1]),
                    x_min as int,
                    y_min as int,
                    x_max as int,
                    y_max as int,
                ),
        decreases last - k,
    {
        assert(within(pts@[k as int], WIDE_BOUND as int));
        assert(within(pts@[k + 1], WIDE_BOUND as int));
        if segment_intersects_rect(pts[k], pts[k + 1], x_min, y_min, x_max, y_max) {
            return true;
        }
        k = k + 1;
    }
    false
}

/// A chunk inside site `k`'s radius is a named-site chunk: the lookup
/// finds some site at or before `k`.
proof fn lemma_first_site_found(c: (int, int), j: int, k: int)
    requires
        0 <= j <= k < NAMED_SITE_COUNT,
        site_covers(site_spec(k), c),
    ensures
        first_site_from(c, j) is Some,
    decreases k - j,
{
    if !site_covers(site_spec(j), c) {
        lemma_first_site_found(c, j + 1, k);
    }
}

/// Every named site's anchor chunk, where the overmap draws the site's
/// glyph, is a named-site chunk: its lookup reports a site.
pub proof fn law_site_anchor_chunk_is_named(k: int)
    requires
        0 <= k < NAMED_SITE_COUNT,
    ensures
        first_site_from(
            (cell_chunk(site_spec(k).anchor_cell).cx as int, cell_chunk(site_spec(k).anchor_cell).cy as int),
            0,
        ) is Some,
{
    let s = site_spec(k);
    assert(s.anchor_radius_chunks >= 0);
    lemma_first_site_found(
        (cell_chunk(s.anchor_cell).cx as int, cell_chunk(s.anchor_cell).cy as int),
        0,
        k,
    );
}

/// A land chunk in no named site's radius and no biome polygon is coast
/// when its centre lies closer than 350 cells to the peninsula outline
/// (squared distance below 350 * 350): cliff north of y = 18 000, beach
/// south of it; further inland it is farmland.
pub proof fn law_coast_band_is_350_cells(c: (int, int))
    requires
        first_site_from(c, 0) is None,
        in_polygon(chunk_center_spec(c), PENINSULA_OUTLINE@),
        first_polygon_from(chunk_center_spec(c), 0) is None,
    ensures
        ({
            let center = chunk_center_spec(c);
            let near = polyline_dist_sq(center, PENINSULA_OUTLINE@) < 350 * 350;
            &&& near && center.1 < 18_000 ==> overmap_biome(c) == Biome::CoastCliff
            &&& near && center.1 >= 18_000 ==> overmap_biome(c) == Biome::CoastBeach
            &&& !near ==> overmap_biome(c) == Biome::LowlandFarm
        }),
{
}

} // verus!
