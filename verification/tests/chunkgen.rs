use holyland::chunkgen::{
    apply_leaf_litter, apply_pond_and_shore, apply_skeleton_trees, apply_stream, apply_undergrowth, cell_idx,
    chunk_rng, compute_near_water_grid, corner_hash, enforce_spawn_disc, in_spawn_disc, pick_decoration,
    pick_species_for_biome, reopen_spawn_cell, roll_debris, stamp_river, stamp_road, CHUNK_CELLS, SPAWN_IDX,
};
use holyland::cornwall::{cell_on_river, cell_on_road, Biome};
use holyland::flora::{Decoration, PlantState, TreeSpecies};
use holyland::items::ItemKind;
use holyland::rng::Rng;
use holyland::world::{CellState, ChunkCoord, GroundCover, TerrainKind};

fn chunk_of(t: TerrainKind) -> Vec<CellState> {
    (0..CHUNK_CELLS).map(|_| CellState::with_terrain(t)).collect()
}

fn at(cells: &[CellState], x: u32, y: u32) -> &CellState {
    &cells[cell_idx(x, y)]
}

#[test]
fn cell_index_is_row_major() {
    assert_eq!(cell_idx(0, 0), 0);
    assert_eq!(cell_idx(3, 2), 83);
    assert_eq!(cell_idx(39, 29), 1199);
}

#[test]
fn spawn_disc_is_nine_cells_square_around_spawn() {
    assert!(in_spawn_disc(20, 15));
    assert!(in_spawn_disc(16, 11));
    assert!(in_spawn_disc(24, 19));
    assert!(!in_spawn_disc(25, 15));
    assert!(!in_spawn_disc(20, 10));
    assert!(!in_spawn_disc(0, 0));
}

#[test]
fn chunk_rng_is_deterministic_and_per_chunk() {
    let mut a = chunk_rng(ChunkCoord { cx: 3, cy: -2 }, 42);
    let mut b = chunk_rng(ChunkCoord { cx: 3, cy: -2 }, 42);
    let mut c = chunk_rng(ChunkCoord { cx: 4, cy: -2 }, 42);
    let xa: Vec<u32> = (0..4).map(|_| a.next_u32()).collect();
    let xb: Vec<u32> = (0..4).map(|_| b.next_u32()).collect();
    let xc: Vec<u32> = (0..4).map(|_| c.next_u32()).collect();
    assert_eq!(xa, xb);
    assert_ne!(xa, xc);
}

#[test]
fn corner_hash_is_a_pure_function_of_its_corner() {
    assert_eq!(corner_hash(8, 16, 7), corner_hash(8, 16, 7));
    let distinct: std::collections::HashSet<u8> = (0..64).map(|i| corner_hash(i * 8, 0, 7)).collect();
    assert!(distinct.len() > 8, "corner hashes should vary along the lattice");
}

#[test]
fn species_follow_the_biome_tables() {
    let mut rng = Rng::from_state(12345);
    for _ in 0..200 {
        let s = pick_species_for_biome(Biome::OakWoodland, 100, 100, &mut rng);
        assert!(matches!(s, TreeSpecies::Oak | TreeSpecies::Hazel));
        let s = pick_species_for_biome(Biome::BeechCombe, 200, 0, &mut rng);
        assert!(matches!(s, TreeSpecies::Beech | TreeSpecies::Hazel));
        let s = pick_species_for_biome(Biome::CoastCliff, 0, 0, &mut rng);
        assert!(matches!(s, TreeSpecies::Holly | TreeSpecies::Rowan));
        assert_eq!(pick_species_for_biome(Biome::Sea, 0, 0, &mut rng), TreeSpecies::Oak);
    }
}

#[test]
fn species_roll_uses_one_draw() {
    let mut a = Rng::from_state(99);
    let mut b = Rng::from_state(99);
    let r = b.next_u32() % 100;
    let s = pick_species_for_biome(Biome::ExmoorHeath, 0, 0, &mut a);
    assert_eq!(s, if r < 55 { TreeSpecies::Ash } else { TreeSpecies::Rowan });
    assert_eq!(a.next_u32(), b.next_u32());
}

#[test]
fn decoration_follows_shade_and_moisture() {
    let mut rng = Rng::from_state(777);
    let mature = PlantState::Mature;
    for _ in 0..200 {
        let d = pick_decoration(200, 200, &mut rng);
        assert!(matches!(d, Decoration::Fern { .. } | Decoration::Moss | Decoration::Bramble { .. }));
        let d = pick_decoration(0, 0, &mut rng);
        assert!(
            d == Decoration::Gorse { state: mature }
                || d == Decoration::Bracken { state: mature }
                || d == Decoration::Bramble { state: mature }
        );
    }
}

#[test]
fn debris_rolls_only_known_items_and_mud_only_near_water() {
    let mut rng = Rng::from_state(2024);
    let mut saw_mud = false;
    for i in 0..2000 {
        let near = i % 2 == 0;
        let mut out = Vec::new();
        roll_debris(&mut out, &mut rng, near);
        for it in &out {
            match it.kind {
                ItemKind::Twig => assert!((1..=3).contains(&it.count) && it.weight_g_each == 5),
                ItemKind::Stick => assert!((1..=2).contains(&it.count) && it.weight_g_each == 50),
                ItemKind::Firewood => assert!((1..=2).contains(&it.count) && it.weight_g_each == 500),
                ItemKind::GrassBlade => assert!((1..=2).contains(&it.count) && it.weight_g_each == 2),
                ItemKind::Stone => assert!(it.count == 1 && it.weight_g_each == 200),
                ItemKind::MossPatch => assert!(it.count == 1 && it.weight_g_each == 10),
                ItemKind::Mud => {
                    assert!(near, "mud only next to water");
                    saw_mud = true;
                }
                other => panic!("unexpected debris {other:?}"),
            }
        }
        assert!(out.len() <= 7);
    }
    assert!(saw_mud);
}

#[test]
fn spawn_disc_is_cleared_of_trees_and_gorse() {
    let mut cells = chunk_of(TerrainKind::TreeTrunk);
    for c in cells.iter_mut() {
        c.tree_species = Some(TreeSpecies::Oak);
        c.decoration = Decoration::Gorse { state: PlantState::Mature };
    }
    enforce_spawn_disc(&mut cells);
    let spawn = at(&cells, 20, 15);
    assert_eq!(spawn.terrain, TerrainKind::Grass);
    assert_eq!(spawn.tree_species, None);
    assert_eq!(spawn.decoration, Decoration::Bare);
    assert_eq!(at(&cells, 24, 19).terrain, TerrainKind::Grass);
    assert_eq!(at(&cells, 25, 15).terrain, TerrainKind::TreeTrunk);
    assert_eq!(at(&cells, 25, 15).tree_species, Some(TreeSpecies::Oak));
}

#[test]
fn spawn_scene_has_stream_pond_shore_and_trees() {
    let mut cells = chunk_of(TerrainKind::Grass);
    apply_stream(&mut cells);
    apply_pond_and_shore(&mut cells);
    apply_skeleton_trees(&mut cells);
    assert_eq!(at(&cells, 12, 0).terrain, TerrainKind::StreamWater);
    assert_eq!(at(&cells, 24, 14).terrain, TerrainKind::StreamWater);
    let stream = cells.iter().filter(|c| c.terrain == TerrainKind::StreamWater).count();
    assert_eq!(stream, 27);
    assert_eq!(at(&cells, 28, 22).terrain, TerrainKind::PondWater);
    assert_eq!(at(&cells, 33, 22).terrain, TerrainKind::PondWater);
    assert_eq!(at(&cells, 34, 22).terrain, TerrainKind::SandShore);
    assert_eq!(at(&cells, 28, 18).terrain, TerrainKind::SandShore);
    assert_eq!(at(&cells, 28, 17).terrain, TerrainKind::Grass);
    // Every skeleton tree spot lies in the shore ring, and trees only
    // take grass.
    assert_eq!(at(&cells, 33, 19).terrain, TerrainKind::SandShore);
    assert_eq!(cells.iter().filter(|c| c.terrain == TerrainKind::TreeTrunk).count(), 0);
    let mut grass = chunk_of(TerrainKind::Grass);
    apply_skeleton_trees(&mut grass);
    assert_eq!(at(&grass, 33, 19).terrain, TerrainKind::TreeTrunk);
    assert_eq!(at(&grass, 26, 18).terrain, TerrainKind::TreeTrunk);
    assert_eq!(grass.iter().filter(|c| c.terrain == TerrainKind::TreeTrunk).count(), 6);
}

#[test]
fn leaf_litter_rings_each_trunk() {
    let mut cells = chunk_of(TerrainKind::Grass);
    cells[cell_idx(5, 5)].terrain = TerrainKind::TreeTrunk;
    cells[cell_idx(6, 6)].terrain = TerrainKind::BareDirt;
    apply_leaf_litter(&mut cells);
    assert_eq!(at(&cells, 4, 4).ground_cover, GroundCover::LeafLitter);
    assert_eq!(at(&cells, 5, 6).ground_cover, GroundCover::LeafLitter);
    assert_eq!(at(&cells, 5, 5).ground_cover, GroundCover::Bare, "the trunk itself is not grass");
    assert_eq!(at(&cells, 6, 6).ground_cover, GroundCover::Bare, "only grass takes litter");
    assert_eq!(at(&cells, 7, 7).ground_cover, GroundCover::Bare);
    let litter = cells.iter().filter(|c| c.ground_cover == GroundCover::LeafLitter).count();
    assert_eq!(litter, 7);
}

#[test]
fn near_water_grid_marks_water_and_its_neighbours() {
    let mut cells = chunk_of(TerrainKind::Grass);
    cells[cell_idx(0, 0)].terrain = TerrainKind::PondWater;
    cells[cell_idx(10, 10)].terrain = TerrainKind::StreamWater;
    let near = compute_near_water_grid(&cells);
    assert_eq!(near.len(), CHUNK_CELLS);
    assert!(near[cell_idx(0, 0)] && near[cell_idx(1, 1)] && near[cell_idx(0, 1)]);
    assert!(!near[cell_idx(2, 2)]);
    assert!(near[cell_idx(9, 11)] && near[cell_idx(11, 9)]);
    assert!(!near[cell_idx(12, 10)]);
    assert_eq!(near.iter().filter(|b| **b).count(), 4 + 9);
}

#[test]
fn rivers_stamp_water_and_roads_spare_it() {
    assert!(cell_on_river(0, 0) && cell_on_road(0, 0));
    let mut cells = chunk_of(TerrainKind::Grass);
    cells[0].tree_species = Some(TreeSpecies::Ash);
    stamp_river(&mut cells, ChunkCoord { cx: 0, cy: 0 });
    assert_eq!(cells[0].terrain, TerrainKind::StreamWater);
    assert_eq!(cells[0].tree_species, None);
    stamp_road(&mut cells, ChunkCoord { cx: 0, cy: 0 });
    assert_eq!(cells[0].terrain, TerrainKind::StreamWater, "a ford keeps its water");
    // Far out at sea nothing is stamped.
    let mut far = chunk_of(TerrainKind::Grass);
    stamp_river(&mut far, ChunkCoord { cx: 1_000_000, cy: 1_000_000 });
    stamp_road(&mut far, ChunkCoord { cx: 1_000_000, cy: 1_000_000 });
    assert!(far.iter().all(|c| c.terrain == TerrainKind::Grass));
}

#[test]
fn undergrowth_needs_canopy_and_skips_the_spawn_disc() {
    let mut cells = chunk_of(TerrainKind::Grass);
    let mut rng = Rng::from_state(5);
    let open = vec![0u8; CHUNK_CELLS];
    apply_undergrowth(&mut cells, &open, &open, &mut rng);
    assert!(cells.iter().all(|c| c.decoration == Decoration::Bare), "0% chance under open sky");
    let shade = vec![255u8; CHUNK_CELLS];
    apply_undergrowth(&mut cells, &shade, &shade, &mut rng);
    let planted = cells.iter().filter(|c| c.decoration != Decoration::Bare).count();
    assert!(planted > 100 && planted < 600, "about 30% of cells: {planted}");
    assert_eq!(at(&cells, 20, 15).decoration, Decoration::Bare);
    assert!(cells.iter().all(|c| matches!(
        c.decoration,
        Decoration::Bare | Decoration::Fern { .. } | Decoration::Moss | Decoration::Bramble { .. }
    )));
}

// ---- Whole chunks, with the canopy and moisture noise built here ----

fn value_noise_at(wx: i32, wy: i32, seed: u64) -> u8 {
    let step = holyland::chunkgen::NOISE_LATTICE_STEP;
    let xl = wx.div_euclid(step) * step;
    let yl = wy.div_euclid(step) * step;
    let dx = (wx - xl) as f32 / step as f32;
    let dy = (wy - yl) as f32 / step as f32;
    let c00 = corner_hash(xl, yl, seed) as f32;
    let c10 = corner_hash(xl + step, yl, seed) as f32;
    let c01 = corner_hash(xl, yl + step, seed) as f32;
    let c11 = corner_hash(xl + step, yl + step, seed) as f32;
    let top = c00 + (c10 - c00) * dx;
    let bot = c01 + (c11 - c01) * dx;
    (top + (bot - top) * dy).round().clamp(0.0, 255.0) as u8
}

fn noise_grid(coord: ChunkCoord, seed: u64) -> Vec<u8> {
    let mut out = Vec::new();
    for ly in 0..30 {
        for lx in 0..40 {
            out.push(value_noise_at(coord.cx * 40 + lx, coord.cy * 30 + ly, seed));
        }
    }
    out
}

fn coverage_band(biome: Biome) -> (f32, f32) {
    match biome {
        Biome::OakWoodland => (0.55, 0.80),
        Biome::BeechCombe => (0.45, 0.70),
        Biome::LowlandFarm => (0.20, 0.40),
        Biome::RiverValley => (0.25, 0.45),
        Biome::EstuaryMarsh => (0.05, 0.15),
        Biome::CoastCliff => (0.02, 0.10),
        Biome::CoastBeach => (0.02, 0.08),
        Biome::DartmoorGranite => (0.02, 0.08),
        Biome::BodminMoorGranite => (0.02, 0.08),
        Biome::ExmoorHeath => (0.05, 0.15),
        Biome::TownEdge => (0.45, 0.70),
        Biome::RuinHinterland => (0.05, 0.15),
        Biome::Sea => (0.0, 0.0),
    }
}

fn gen(coord: ChunkCoord, world_seed: u64) -> holyland::world::Chunk {
    let info = holyland::cornwall::overmap_info_at(coord);
    let canopy = noise_grid(coord, world_seed ^ 0xC4C0_BABE_DEAD_BEEF);
    let moisture = noise_grid(coord, world_seed ^ 0x_0157_E0FF_FACE_F00D);
    let mean: u32 = canopy.iter().map(|&v| v as u32).sum::<u32>() / canopy.len() as u32;
    let (lo, hi) = coverage_band(info.biome);
    let target = lo + (hi - lo) * (mean as f32 / 255.0);
    let p = (target * 100.0).round() as u32;
    holyland::chunkgen::generate_chunk(
        coord,
        world_seed,
        &info,
        &canopy,
        &moisture,
        p,
        &Vec::new(),
        &holyland::buildings::BuildingCatalog { pools: Vec::new() },
        &holyland::buildings::TagCatalog { tags: Vec::new() },
    )
}

#[test]
fn chunk_has_trees() {
    let chunk = gen(ChunkCoord { cx: 4, cy: 4 }, 0xC0FFEE);
    let tree_count = chunk.cells.iter().filter(|c| c.terrain == TerrainKind::TreeTrunk).count();
    assert!(tree_count >= 12, "expected >= 12 trees, got {}", tree_count);
}

#[test]
fn chunk_has_herbs() {
    let chunk = gen(ChunkCoord { cx: 0, cy: 0 }, 0xC0FFEE);
    let herb_count: usize =
        chunk.cells.iter().map(|c| c.items.iter().filter(|i| i.kind == ItemKind::Herb).count()).sum();
    assert!((3..=5).contains(&herb_count), "herb count out of range: {}", herb_count);
}

#[test]
fn chunk_has_firewood_somewhere() {
    let chunk = gen(ChunkCoord { cx: 0, cy: 0 }, 0xC0FFEE);
    let fw_total: u32 = chunk
        .cells
        .iter()
        .flat_map(|c| c.items.iter())
        .filter(|i| i.kind == ItemKind::Firewood)
        .map(|i| i.count as u32)
        .sum();
    assert!(fw_total >= 2, "first-fire requires >=2 firewood reachable; got {}", fw_total);
}

#[test]
fn generation_is_deterministic_for_same_seed() {
    let a = gen(ChunkCoord { cx: 0, cy: 0 }, 0xC0FFEE);
    let b = gen(ChunkCoord { cx: 0, cy: 0 }, 0xC0FFEE);
    for (ca, cb) in a.cells.iter().zip(b.cells.iter()) {
        assert_eq!(ca.terrain, cb.terrain);
        assert_eq!(ca.items.len(), cb.items.len());
        for (ia, ib) in ca.items.iter().zip(cb.items.iter()) {
            assert_eq!(ia.kind, ib.kind);
            assert_eq!(ia.count, ib.count);
        }
    }
}

#[test]
fn leaf_litter_placed_near_trees() {
    let chunk = gen(ChunkCoord { cx: 0, cy: 0 }, 0xC0FFEE);
    let cw = 40i32;
    let ch = 30i32;
    for y in 0..ch {
        for x in 0..cw {
            let idx = cell_idx(x as u32, y as u32);
            if chunk.cells[idx].terrain != TerrainKind::Grass {
                continue;
            }
            let mut near_tree = false;
            for dy in -1..=1_i32 {
                for dx in -1..=1_i32 {
                    if dx == 0 && dy == 0 {
                        continue;
                    }
                    let nx = x + dx;
                    let ny = y + dy;
                    if nx < 0 || ny < 0 || nx >= cw || ny >= ch {
                        continue;
                    }
                    if chunk.cells[cell_idx(nx as u32, ny as u32)].terrain == TerrainKind::TreeTrunk {
                        near_tree = true;
                    }
                }
            }
            let cover = chunk.cells[idx].ground_cover;
            if near_tree {
                assert_eq!(cover, GroundCover::LeafLitter, "({}, {}) is grass next to a tree but has cover={:?}", x, y, cover);
            } else {
                assert_eq!(cover, GroundCover::Bare, "({}, {}) is grass NOT next to a tree but has cover={:?}", x, y, cover);
            }
        }
    }
}

#[test]
fn every_tree_cell_has_a_species() {
    let chunk = gen(ChunkCoord { cx: 0, cy: 0 }, 0xC0FFEE);
    for c in chunk.cells.iter() {
        if c.terrain == TerrainKind::TreeTrunk {
            assert!(c.tree_species.is_some(), "TreeTrunk cell missing tree_species");
        } else {
            assert!(c.tree_species.is_none(), "non-tree cell has tree_species = {:?}", c.tree_species);
        }
    }
}

#[test]
fn species_round_trips_with_same_seed() {
    let a = gen(ChunkCoord { cx: 0, cy: 0 }, 0xC0FFEE);
    let b = gen(ChunkCoord { cx: 0, cy: 0 }, 0xC0FFEE);
    for (ca, cb) in a.cells.iter().zip(b.cells.iter()) {
        assert_eq!(ca.tree_species, cb.tree_species);
    }
}

#[test]
fn ground_cover_round_trips_with_same_seed() {
    let a = gen(ChunkCoord { cx: 0, cy: 0 }, 0xC0FFEE);
    let b = gen(ChunkCoord { cx: 0, cy: 0 }, 0xC0FFEE);
    for (ca, cb) in a.cells.iter().zip(b.cells.iter()) {
        assert_eq!(ca.ground_cover, cb.ground_cover);
    }
}

#[test]
fn different_seeds_produce_different_chunks() {
    let a = gen(ChunkCoord { cx: 0, cy: 0 }, 1);
    let b = gen(ChunkCoord { cx: 0, cy: 0 }, 2);
    let mut diff = 0;
    for (ca, cb) in a.cells.iter().zip(b.cells.iter()) {
        if ca.terrain != cb.terrain {
            diff += 1;
        }
        if ca.items.len() != cb.items.len() {
            diff += 1;
        }
    }
    assert!(diff > 5, "different seeds should produce different layouts");
}

#[test]
fn coverage_band_holds_on_average_across_seeds() {
    let mut total_trees = 0_u32;
    let mut total_eligible = 0_u32;
    for seed_offset in 0..100_u64 {
        let chunk = gen(ChunkCoord { cx: 4, cy: 4 }, 0xC0FFEE ^ seed_offset);
        for c in chunk.cells.iter() {
            match c.terrain {
                TerrainKind::Grass | TerrainKind::BareDirt => total_eligible += 1,
                TerrainKind::TreeTrunk => {
                    total_trees += 1;
                    total_eligible += 1;
                }
                _ => {}
            }
        }
    }
    let mean = total_trees as f32 / total_eligible.max(1) as f32;
    assert!(mean >= 0.20 && mean <= 0.75, "tree coverage mean across 100 seeds is {} (expected 0.20..=0.75)", mean);
}

#[test]
fn species_distribution_covers_all_biome_palettes() {
    let probes: &[ChunkCoord] =
        &[ChunkCoord { cx: 4, cy: 4 }, ChunkCoord { cx: -524, cy: 353 }, ChunkCoord { cx: 100, cy: 100 }];
    let all = [
        TreeSpecies::Oak,
        TreeSpecies::Hazel,
        TreeSpecies::Holly,
        TreeSpecies::Ash,
        TreeSpecies::Rowan,
        TreeSpecies::Beech,
    ];
    let mut seen = [false; 6];
    for &cc in probes {
        for seed_offset in 0..40_u64 {
            let chunk = gen(cc, 0xC0FFEE ^ seed_offset);
            for c in chunk.cells.iter() {
                if let Some(sp) = c.tree_species {
                    seen[all.iter().position(|s| *s == sp).unwrap()] = true;
                }
            }
            if seen.iter().all(|&b| b) {
                return;
            }
        }
    }
    panic!("not every species appeared across probe biomes: {:?}", seen);
}

#[test]
fn spawn_disc_is_free_of_trees_and_gorse_across_many_seeds() {
    for seed_offset in 0..200_u64 {
        let chunk = gen(ChunkCoord { cx: 0, cy: 0 }, 0xC0FFEE ^ seed_offset);
        for dy in -1..=1_i64 {
            for dx in -1..=1_i64 {
                let c = &chunk.cells[cell_idx((20 + dx) as u32, (15 + dy) as u32)];
                assert!(!matches!(c.decoration, Decoration::Gorse { .. }));
                assert!(c.terrain != TerrainKind::TreeTrunk);
            }
        }
    }
}

#[test]
fn open_sea_chunk_is_all_water() {
    let info = holyland::cornwall::OvermapInfo { biome: Biome::Sea, has_river: false, has_road: false, named_site: None };
    let grid = vec![255u8; CHUNK_CELLS];
    let chunk = holyland::chunkgen::generate_chunk(
        ChunkCoord { cx: 9, cy: 9 },
        1,
        &info,
        &grid,
        &grid,
        80,
        &Vec::new(),
        &holyland::buildings::BuildingCatalog { pools: Vec::new() },
        &holyland::buildings::TagCatalog { tags: Vec::new() },
    );
    assert_eq!(chunk.cells.len(), CHUNK_CELLS);
    assert!(chunk.cells.iter().all(|c| c.terrain == TerrainKind::PondWater && c.items.is_empty()));
    assert_eq!(chunk.coord, ChunkCoord { cx: 9, cy: 9 });
    assert!(!chunk.dirty);
}

/// Terrain a player can stand on.
fn walkable(t: TerrainKind) -> bool {
    t.walkable()
}

#[test]
fn chunk_zero_zero_has_walkable_spawn() {
    let chunk = gen(ChunkCoord { cx: 0, cy: 0 }, 0xC0FFEE);
    let t = chunk.cells[cell_idx(20, 15)].terrain;
    assert!(walkable(t), "spawn terrain {t:?} must be walkable");
}

#[test]
fn spawn_disc_is_walkable_across_many_seeds() {
    for seed_offset in 0..200_u64 {
        let chunk = gen(ChunkCoord { cx: 0, cy: 0 }, 0xC0FFEE ^ seed_offset);
        let idx = cell_idx(20, 15);
        assert!(walkable(chunk.cells[idx].terrain), "spawn terrain not walkable on seed offset {}", seed_offset);
        for dy in -1..=1_i64 {
            for dx in -1..=1_i64 {
                let c = &chunk.cells[cell_idx((20 + dx) as u32, (15 + dy) as u32)];
                assert!(!matches!(c.decoration, Decoration::Gorse { .. }), "Gorse in spawn 3x3 on seed offset {}", seed_offset);
                assert!(c.terrain != TerrainKind::TreeTrunk, "TreeTrunk in spawn 3x3 on seed offset {}", seed_offset);
            }
        }
    }
}

#[test]
fn value_noise_is_deterministic_for_same_seed() {
    let a = value_noise_at(7, 13, 0xC0FFEE);
    let b = value_noise_at(7, 13, 0xC0FFEE);
    assert_eq!(a, b);
    let c = value_noise_at(7, 13, 0xC0FFEE ^ 0xFF);
    assert!(a != c || a == 0, "two seeds should sample differently");
}

#[test]
fn value_noise_continuous_across_chunk_seam() {
    let seed = 0xDEADBEEF;
    let step = holyland::chunkgen::NOISE_LATTICE_STEP;
    let v_left = value_noise_at(step, 0, seed);
    let v_right = value_noise_at(step, 0, seed);
    assert_eq!(v_left, v_right);
    let corner = corner_hash(step, 0, seed);
    assert_eq!(v_left, corner);
}

#[test]
fn walkable_ground_is_open_ground_roads_and_floors() {
    for t in [TerrainKind::Grass, TerrainKind::BareDirt, TerrainKind::CobbleRoad, TerrainKind::Floor, TerrainKind::SandShore] {
        assert!(t.walkable(), "{t:?}");
    }
    for t in [
        TerrainKind::TreeTrunk,
        TerrainKind::StreamWater,
        TerrainKind::PondWater,
        TerrainKind::StoneWall,
        TerrainKind::WoodWall,
        TerrainKind::Solid,
        TerrainKind::Wall,
    ] {
        assert!(!t.walkable(), "{t:?}");
    }
}

#[test]
fn a_walled_spawn_cell_is_reopened_to_grass() {
    let mut cells = chunk_of(TerrainKind::StoneWall);
    reopen_spawn_cell(&mut cells);
    assert_eq!(SPAWN_IDX, cell_idx(20, 15));
    assert_eq!(cells[SPAWN_IDX].terrain, TerrainKind::Grass);
    assert_eq!(cells[cell_idx(21, 15)].terrain, TerrainKind::StoneWall);
    let mut road = chunk_of(TerrainKind::CobbleRoad);
    reopen_spawn_cell(&mut road);
    assert_eq!(road[SPAWN_IDX].terrain, TerrainKind::CobbleRoad);
}

#[test]
fn every_generated_trunk_has_a_species_and_nothing_else_does() {
    for cx in -2..=2 {
        let chunk = gen(ChunkCoord { cx, cy: 0 }, 0xC0FFEE);
        for c in chunk.cells.iter() {
            assert_eq!(c.terrain == TerrainKind::TreeTrunk, c.tree_species.is_some());
        }
    }
}
