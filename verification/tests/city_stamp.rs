use std::collections::HashMap;

use holyland::buildings::{BuildingCatalog, CityTier, Prefab, TagCatalog, TagRole};
use holyland::chunkgen::{cell_idx, CHUNK_CELLS};
use holyland::city::{City, Footprint, Gate, Landmark, LandmarkKind, LoadedCity, Street, Wall};
use holyland::city_stamp::slot_prefab_footprint;
use holyland::flora::{Decoration, PlantState, TreeSpecies};
use holyland::items::{ItemInstance, ItemKind, ItemMetadata};
use holyland::world::{CellState, ChunkCoord, GroundCover, TerrainKind};

fn town() -> City {
    City {
        name: "Testbury".to_string(),
        tier: CityTier::Urban,
        wall: Wall {
            polygon: vec![(-50, -50), (50, -50), (50, 50), (-50, 50)],
            gates: vec![Gate { name: "East Gate".to_string(), cell: (50, 0), width: 3 }],
        },
        streets: vec![Street {
            name: "High Street".to_string(),
            polyline: vec![(-40, 20), (40, 20)],
            width: 1,
            tag_weights: vec![("smithy".to_string(), 5), ("house".to_string(), 5)],
        }],
        landmarks: vec![
            Landmark {
                name: "St Peter's Cathedral".to_string(),
                footprint: Footprint::Rect((10, -20), (20, -10)),
                kind: LandmarkKind::StoneMass,
            },
            Landmark {
                name: "Cathedral Close".to_string(),
                footprint: Footprint::Rect((-30, -30), (-20, -20)),
                kind: LandmarkKind::PavedArea,
            },
        ],
    }
}

fn house(variant: &str, tag: &str) -> Prefab {
    let mut tag_palette = HashMap::new();
    tag_palette.insert('#' as u32, "stone_wall".to_string());
    tag_palette.insert('.' as u32, "cobble_floor".to_string());
    Prefab {
        tag: tag.to_string(),
        tier: CityTier::Urban,
        variant: variant.to_string(),
        weight: 1,
        size: (3, 3),
        palette: HashMap::new(),
        tag_palette,
        grid: vec!["###".to_string(), "#.#".to_string(), "###".to_string()],
        roof: Vec::new(),
        roof_palette: HashMap::new(),
        objects: Vec::new(),
        objects_palette: HashMap::new(),
    }
}

fn catalog() -> BuildingCatalog {
    BuildingCatalog::load(vec![house("cottage", "house"), house("forge", "smithy")]).unwrap()
}

fn tags() -> TagCatalog {
    TagCatalog {
        tags: vec![
            ("stone_wall".to_string(), TagRole::Terrain { passable: false }),
            ("cobble_floor".to_string(), TagRole::Terrain { passable: true }),
        ],
    }
}

fn forest() -> Vec<CellState> {
    (0..CHUNK_CELLS)
        .map(|_| {
            let mut c = CellState::with_terrain(TerrainKind::TreeTrunk);
            c.tree_species = Some(TreeSpecies::Oak);
            c.decoration = Decoration::Fern { state: PlantState::Mature };
            c.ground_cover = GroundCover::LeafLitter;
            c.items.push(ItemInstance::stack(ItemKind::Twig, 2, 5, None, ItemMetadata::Plain));
            c
        })
        .collect()
}

fn stamp(coord: ChunkCoord, cells: &mut Vec<CellState>) {
    let loaded = LoadedCity::new(town(), (0, 0));
    loaded.stamp_into_chunk(coord, cells, 7, &catalog(), &tags());
}

fn at(cells: &[CellState], x: u32, y: u32) -> &CellState {
    &cells[cell_idx(x, y)]
}

#[test]
fn inside_the_wall_the_forest_is_swept() {
    let mut cells = forest();
    stamp(ChunkCoord { cx: 0, cy: 0 }, &mut cells);
    for c in &cells {
        assert_ne!(c.terrain, TerrainKind::TreeTrunk);
        assert_eq!(c.tree_species, None);
        assert!(c.items.is_empty());
        assert_eq!(c.ground_cover, GroundCover::Bare);
    }
}

#[test]
fn streets_are_paved() {
    let mut cells = forest();
    stamp(ChunkCoord { cx: 0, cy: 0 }, &mut cells);
    for x in 0..40 {
        assert_eq!(at(&cells, x, 20).terrain, TerrainKind::CobbleRoad, "High Street at x = {x}");
    }
}

#[test]
fn landmarks_are_filled() {
    let mut cells = vec![];
    for _ in 0..CHUNK_CELLS {
        cells.push(CellState::with_terrain(TerrainKind::Grass));
    }
    stamp(ChunkCoord { cx: 0, cy: -1 }, &mut cells);
    // Cathedral (10..=20, -20..=-10) lies at local rows 10..=20.
    assert_eq!(at(&cells, 15, 15).terrain, TerrainKind::StoneWall);
    assert_eq!(at(&cells, 10, 10).terrain, TerrainKind::StoneWall);
    assert_eq!(at(&cells, 20, 20).terrain, TerrainKind::StoneWall);
    let mut close = vec![];
    for _ in 0..CHUNK_CELLS {
        close.push(CellState::with_terrain(TerrainKind::Grass));
    }
    stamp(ChunkCoord { cx: -1, cy: -1 }, &mut close);
    // Cathedral Close (-30..=-20, -30..=-20): local (10..=20, 0..=10).
    assert_eq!(at(&close, 15, 5).terrain, TerrainKind::CobbleRoad);
}

#[test]
fn the_wall_stands_with_its_gate_open() {
    let mut cells = vec![];
    for _ in 0..CHUNK_CELLS {
        cells.push(CellState::with_terrain(TerrainKind::Grass));
    }
    stamp(ChunkCoord { cx: 1, cy: 0 }, &mut cells);
    // The east wall runs down x = 50, local column 10.
    assert_eq!(at(&cells, 10, 5).terrain, TerrainKind::StoneWall);
    assert_eq!(at(&cells, 10, 29).terrain, TerrainKind::StoneWall);
    // East Gate at (50, 0), three cells wide, leaves rows 0 and 1 open.
    assert_ne!(at(&cells, 10, 0).terrain, TerrainKind::StoneWall);
    assert_ne!(at(&cells, 10, 1).terrain, TerrainKind::StoneWall);
    // Outside the wall nothing changes.
    assert_eq!(at(&cells, 30, 5).terrain, TerrainKind::Grass);
}

#[test]
fn far_chunks_are_untouched() {
    let mut cells = forest();
    stamp(ChunkCoord { cx: 5, cy: 5 }, &mut cells);
    assert!(cells.iter().all(|c| c.terrain == TerrainKind::TreeTrunk && c.items.len() == 1));
}

#[test]
fn houses_stand_in_their_slots() {
    let mut cells = vec![];
    for _ in 0..CHUNK_CELLS {
        cells.push(CellState::with_terrain(TerrainKind::Grass));
    }
    stamp(ChunkCoord { cx: 0, cy: 0 }, &mut cells);
    let walls = cells.iter().filter(|c| c.terrain == TerrainKind::Solid).count();
    let floors = cells.iter().filter(|c| c.terrain == TerrainKind::Floor).count();
    assert!(walls > 0 && floors > 0, "some house should stand in a 40 x 30 block of town");
    // Every 3 x 3 house is eight walls round one floor.
    for y in 1..29u32 {
        for x in 1..39u32 {
            if at(&cells, x, y).terrain == TerrainKind::Floor {
                for (dx, dy) in [(-1i32, -1i32), (0, -1), (1, -1), (-1, 0), (1, 0), (-1, 1), (0, 1), (1, 1)] {
                    let n = at(&cells, (x as i32 + dx) as u32, (y as i32 + dy) as u32);
                    assert_eq!(n.terrain, TerrainKind::Solid, "around the floor at ({x}, {y})");
                }
            }
        }
    }
}

#[test]
fn slot_footprints_stay_inside_the_slot() {
    let loaded = LoadedCity::new(town(), (0, 0));
    let cat = catalog();
    let mut built = 0;
    for sy in -5..5 {
        for sx in -5..5 {
            if let Some((p, (x0, y0, x1, y1))) = slot_prefab_footprint(
                sx,
                sy,
                (0, 0),
                7,
                CityTier::Urban,
                &loaded.wall_world_polygon,
                &loaded.slot_tags,
                &cat,
            ) {
                built += 1;
                assert_eq!((x1 - x0 + 1, y1 - y0 + 1), (3, 3));
                assert!(x0 > sx * 8 && x1 < sx * 8 + 8, "slot ({sx}, {sy})");
                assert!(y0 > sy * 8 && y1 < sy * 8 + 8, "slot ({sx}, {sy})");
                assert!(p.variant == "cottage" || p.variant == "forge");
            }
        }
    }
    assert!(built > 10);
}
