use holyland::buildings::CityTier;
use holyland::city::{
    classify_chunks, compute_bbox, compute_city_bbox, compute_slot_tags, compute_street_cells,
    footprint_cells, hash3, landmark_feature, offset_points, rect_intersects, roulette_pick,
    street_half_extents, City, CityChunkFeature, Footprint, Gate, Landmark, LandmarkKind,
    LoadedCity, Street, Wall,
};
use holyland::line::line_cells;
use holyland::world::{cell_key_exec, chunk_key_exec, ChunkCoord};

fn street(name: &str, polyline: Vec<(i64, i64)>, width: u16, tags: &[(&str, u32)]) -> Street {
    Street {
        name: name.to_string(),
        polyline,
        width,
        tag_weights: tags.iter().map(|(t, w)| (t.to_string(), *w)).collect(),
    }
}

/// A walled square town 100 cells across with one gate on its east wall,
/// a tagged street, a cathedral inside and a castle outside the wall.
fn test_town() -> City {
    City {
        name: "Testbury".to_string(),
        tier: CityTier::default(),
        wall: Wall {
            polygon: vec![(-50, -50), (50, -50), (50, 50), (-50, 50)],
            gates: vec![Gate { name: "East Gate".to_string(), cell: (50, 0), width: 3 }],
        },
        streets: vec![street("High Street", vec![(-40, 20), (40, 20)], 1, &[("smithy", 5), ("house", 5)])],
        landmarks: vec![
            Landmark {
                name: "St Peter's Cathedral".to_string(),
                footprint: Footprint::Rect((10, -20), (20, -10)),
                kind: LandmarkKind::StoneMass,
            },
            Landmark {
                name: "Rougemont Castle".to_string(),
                footprint: Footprint::Polygon(vec![(60, -60), (70, -60), (60, -50)]),
                kind: LandmarkKind::StoneMass,
            },
            Landmark {
                name: "Cathedral Close".to_string(),
                footprint: Footprint::Rect((-30, -30), (-20, -20)),
                kind: LandmarkKind::PavedArea,
            },
        ],
    }
}

#[test]
fn street_half_extents_lean_north_west() {
    assert_eq!(street_half_extents(1), (0, 0));
    assert_eq!(street_half_extents(2), (-1, 0));
    assert_eq!(street_half_extents(3), (-1, 1));
    assert_eq!(street_half_extents(4), (-2, 1));
    assert_eq!(street_half_extents(0), (0, -1));
}

#[test]
fn rect_intersection_is_inclusive() {
    assert!(rect_intersects((0, 0, 10, 10), (10, 10, 20, 20)));
    assert!(!rect_intersects((0, 0, 10, 10), (11, 0, 20, 10)));
    assert!(!rect_intersects((0, 0, 10, 10), (0, 11, 10, 20)));
    assert!(rect_intersects((0, 0, 10, 10), (2, 2, 3, 3)));
}

#[test]
fn hash3_matches_known_values() {
    assert_eq!(hash3(0, 0, 0), 0);
    assert_eq!(hash3(1, 2, 3), 0xba2c_3f7c_48f0_6983);
    assert_eq!(hash3(u64::MAX, 5, 7), 0x6ec0_0f0e_380e_f45c);
}

#[test]
fn roulette_pick_walks_the_weights() {
    let pool = vec![("a".to_string(), 1u32), ("b".to_string(), 3u32)];
    assert_eq!(roulette_pick(&pool, 0), Some("a"));
    assert_eq!(roulette_pick(&pool, 1), Some("b"));
    assert_eq!(roulette_pick(&pool, 3), Some("b"));
    assert_eq!(roulette_pick(&pool, 4), Some("a"));
    assert_eq!(roulette_pick(&[], 7), None);
    let zero = vec![("a".to_string(), 0u32), ("b".to_string(), 0u32)];
    assert_eq!(roulette_pick(&zero, 7), None);
    // Same pool and hash, same pick.
    assert_eq!(roulette_pick(&pool, 42), roulette_pick(&pool, 42));
}

#[test]
fn line_cells_follow_bresenham() {
    assert_eq!(line_cells((0, 0), (3, 1)), vec![(0, 0), (1, 0), (2, 1), (3, 1)]);
    assert_eq!(line_cells((0, 0), (2, 2)), vec![(0, 0), (1, 1), (2, 2)]);
    assert_eq!(line_cells((5, 5), (5, 5)), vec![(5, 5)]);
    assert_eq!(line_cells((2, 0), (-1, 0)), vec![(2, 0), (1, 0), (0, 0), (-1, 0)]);
    assert_eq!(line_cells((0, 0), (1, -3)), vec![(0, 0), (0, -1), (1, -2), (1, -3)]);
}

#[test]
fn line_cells_visit_each_cell_once() {
    let cells = line_cells((-7, 3), (12, -9));
    for i in 0..cells.len() {
        for j in (i + 1)..cells.len() {
            assert_ne!(cells[i], cells[j]);
        }
    }
    assert_eq!(cells[0], (-7, 3));
    assert_eq!(*cells.last().unwrap(), (12, -9));
}

#[test]
fn bbox_of_points_and_of_nothing() {
    assert_eq!(compute_bbox(&[(3, -2), (-1, 4), (0, 0)]), (-1, -2, 3, 4));
    assert_eq!(compute_bbox(&[]), (i64::MAX, i64::MAX, i64::MIN, i64::MIN));
}

#[test]
fn city_bbox_covers_every_authored_point() {
    let town = test_town();
    assert_eq!(compute_city_bbox(&town, (0, 0)), (-50, -60, 70, 50));
    assert_eq!(compute_city_bbox(&town, (100, -200)), (50, -260, 170, -150));
}

#[test]
fn rect_footprint_lists_cells_row_major() {
    let cells = footprint_cells(&Footprint::Rect((2, 1), (0, 0)), (10, 20));
    assert_eq!(cells, vec![(10, 20), (11, 20), (12, 20), (10, 21), (11, 21), (12, 21)]);
}

#[test]
fn polygon_footprint_lists_inside_cells() {
    let cells = footprint_cells(&Footprint::Polygon(vec![(0, 0), (4, 0), (4, 4), (0, 4)]), (0, 0));
    assert!(cells.contains(&(1, 1)));
    assert!(cells.contains(&(3, 3)));
    assert!(!cells.contains(&(5, 5)));
    assert!(!cells.is_empty());
    for w in cells.windows(2) {
        assert!(w[0].1 < w[1].1 || (w[0].1 == w[1].1 && w[0].0 < w[1].0));
    }
    assert!(footprint_cells(&Footprint::Polygon(vec![(0, 0), (4, 0)]), (0, 0)).is_empty());
}

#[test]
fn landmark_names_pick_overmap_tags() {
    assert_eq!(landmark_feature("St Peter's Cathedral"), Some(CityChunkFeature::Cathedral));
    assert_eq!(landmark_feature("Cathedral Close"), None);
    assert_eq!(landmark_feature("Rougemont Castle"), Some(CityChunkFeature::Castle));
    assert_eq!(landmark_feature("ROUGEMONT"), Some(CityChunkFeature::Castle));
    assert_eq!(landmark_feature("Guildhall"), None);
}

#[test]
fn gate_gap_is_a_plus_across_the_gate() {
    let town = test_town();
    let gaps = town.gate_skip_cells((0, 0));
    assert_eq!(gaps.len(), 5);
    for c in [(49, 0), (50, 0), (51, 0), (50, -1), (50, 1)] {
        assert!(gaps.contains(&cell_key_exec(c)));
    }
    assert!(!gaps.contains(&cell_key_exec((50, 2))));
}

#[test]
fn street_cells_include_width() {
    let mut town = test_town();
    town.streets = vec![street("Fore Street", vec![(0, 0), (4, 0)], 3, &[])];
    let cells = compute_street_cells(&town, (0, 0));
    assert_eq!(cells.len(), 21);
    assert!(cells.contains(&cell_key_exec((5, 1))));
    assert!(cells.contains(&cell_key_exec((-1, -1))));
    assert!(!cells.contains(&cell_key_exec((6, 0))));
    assert!(!cells.contains(&cell_key_exec((2, 2))));

    town.streets = vec![street("Fore Street", vec![(0, 0), (4, 0)], 2, &[])];
    let cells = compute_street_cells(&town, (0, 0));
    assert_eq!(cells.len(), 12);
    assert!(cells.contains(&cell_key_exec((2, -1))));
    assert!(!cells.contains(&cell_key_exec((2, 1))));
}

#[test]
fn chunk_tags_follow_priority() {
    let town = test_town();
    let wall = offset_points(&town.wall.polygon, (0, 0));
    let wall_bbox = compute_bbox(&wall);
    let tags = classify_chunks(&town, (0, 0), &wall, wall_bbox);
    let at = |cx: i32, cy: i32| tags.get(&chunk_key_exec(ChunkCoord { cx, cy })).copied();
    assert_eq!(at(0, -1), Some(CityChunkFeature::Cathedral));
    assert_eq!(at(1, -2), Some(CityChunkFeature::Castle));
    assert_eq!(at(1, 0), Some(CityChunkFeature::Gate));
    assert_eq!(at(-2, -2), Some(CityChunkFeature::WallEdge));
    assert_eq!(at(-1, -1), Some(CityChunkFeature::Building));
    assert_eq!(at(-1, 0), Some(CityChunkFeature::Street));
    assert_eq!(at(0, 0), Some(CityChunkFeature::Street));
    assert_eq!(at(5, 5), None);
}

#[test]
fn slot_tags_sum_and_sort() {
    let mut town = test_town();
    town.streets.push(street("Smith Row", vec![(4, 10), (4, 30)], 1, &[("smithy", 1)]));
    let slots = compute_slot_tags(&town, (0, 0));
    let at = |s: (i64, i64)| slots.get(&cell_key_exec(s)).cloned();
    assert_eq!(
        at((0, 2)),
        Some(vec![("house".to_string(), 5), ("smithy".to_string(), 6)])
    );
    assert_eq!(
        at((-3, 2)),
        Some(vec![("house".to_string(), 5), ("smithy".to_string(), 5)])
    );
    assert_eq!(at((0, 3)), Some(vec![("house".to_string(), 5), ("smithy".to_string(), 6)]));
    assert_eq!(at((0, 4)), Some(vec![("smithy".to_string(), 1)]));
    assert_eq!(at((0, 5)), None);
    assert_eq!(at((10, 2)), None);
}

#[test]
fn untagged_streets_give_no_slot_tags() {
    let mut town = test_town();
    town.streets = vec![street("Back Lane", vec![(0, 0), (10, 0)], 1, &[])];
    assert!(compute_slot_tags(&town, (0, 0)).is_empty());
}

#[test]
fn loaded_city_derives_its_fields() {
    let town = test_town();
    let loaded = LoadedCity::new(town, (100, -200));
    assert_eq!(loaded.anchor, (100, -200));
    assert_eq!(loaded.bbox, (50, -260, 170, -150));
    assert_eq!(loaded.wall_world_polygon, vec![(50, -250), (150, -250), (150, -150), (50, -150)]);
    assert_eq!(loaded.wall_bbox, (50, -250, 150, -150));
    assert!(loaded.street_cells.contains(&cell_key_exec((100, -180))));
    assert!(!loaded.street_cells.contains(&cell_key_exec((100, -181))));
    // The east gate at (150, -200) sits in chunk (3, -7).
    assert_eq!(loaded.chunk_feature(ChunkCoord { cx: 3, cy: -7 }), Some(CityChunkFeature::Gate));
    assert_eq!(loaded.chunk_feature(ChunkCoord { cx: 30, cy: 30 }), None);
    assert!(loaded.intersects_chunk(ChunkCoord { cx: 3, cy: -7 }));
    assert!(!loaded.intersects_chunk(ChunkCoord { cx: 30, cy: 30 }));
    assert!(!loaded.intersects_chunk(ChunkCoord { cx: 0, cy: -200 }));
}

#[test]
fn tagged_chunks_meet_the_city_box() {
    let loaded = LoadedCity::new(test_town(), (0, 0));
    for cy in -10..10 {
        for cx in -10..10 {
            let c = ChunkCoord { cx, cy };
            if loaded.chunk_feature(c).is_some() {
                assert!(loaded.intersects_chunk(c), "chunk {cx},{cy} tagged outside the box");
            }
        }
    }
}

#[test]
fn intersects_chunk_checks_the_bbox_against_the_chunk_cells() {
    let loaded = LoadedCity::new(test_town(), (100, -200));
    assert_eq!(loaded.bbox, (50, -260, 170, -150));
    assert!(loaded.intersects_chunk(ChunkCoord { cx: 1, cy: -9 }));
    assert!(loaded.intersects_chunk(ChunkCoord { cx: 4, cy: -5 }));
    assert!(!loaded.intersects_chunk(ChunkCoord { cx: 5, cy: -9 }));
    assert!(!loaded.intersects_chunk(ChunkCoord { cx: 0, cy: -9 }));
    assert!(!loaded.intersects_chunk(ChunkCoord { cx: 4, cy: -4 }));
    assert!(!loaded.intersects_chunk(ChunkCoord { cx: 1, cy: -10 }));
}
