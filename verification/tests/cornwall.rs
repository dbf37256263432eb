use holyland::cornwall::{
    cell_on_river, cell_on_road, chunk_center, chunk_for_anchor, named_sites, nearest_road_direction,
    overmap_info_at, polyline_crosses_chunk, rivers, roads, Biome, SiteKind, ALL_BIOMES,
};
use holyland::geometry::{point_in_polygon, segment_intersects_rect};
use holyland::world::ChunkCoord;

fn cc(cx: i32, cy: i32) -> ChunkCoord {
    ChunkCoord { cx, cy }
}

#[test]
fn exeter_chunk_is_town_edge() {
    let info = overmap_info_at(cc(0, 0));
    assert_eq!(info.biome, Biome::TownEdge);
    assert!(info.named_site.is_some());
    assert_eq!(info.named_site.unwrap().name, "Exeter");
}

#[test]
fn far_offshore_chunk_is_sea() {
    // South of the Lizard by hundreds of km: open ocean.
    let info = overmap_info_at(cc(-2_000, 4_000));
    assert_eq!(info.biome, Biome::Sea);
    assert!(!info.has_river);
    assert!(!info.has_road);
}

#[test]
fn dartmoor_centroid_is_dartmoor_granite() {
    let info = overmap_info_at(cc(-524, 353));
    assert_eq!(info.biome, Biome::DartmoorGranite);
}

#[test]
fn bodmin_moor_centroid_is_bodmin_moor_granite() {
    // Outside King Arthur's Hall's and Dozmary Pool's radii, inside the
    // Bodmin Moor polygon.
    let info = overmap_info_at(cc(-1_300, 307));
    assert_eq!(info.biome, Biome::BodminMoorGranite);
}

#[test]
fn tintagel_chunk_is_town_edge() {
    let info = overmap_info_at(cc(-1_430, 132));
    assert_eq!(info.biome, Biome::TownEdge);
    assert_eq!(info.named_site.unwrap().name, "Tintagel Castle");
}

#[test]
fn segment_intersects_rect_handles_corners_and_diagonals() {
    // Endpoint inside the rect: accept.
    assert!(segment_intersects_rect((5, 5), (100, 100), 0, 0, 10, 10));
    // Both endpoints outside but the segment crosses: accept.
    assert!(segment_intersects_rect((-5, 5), (15, 5), 0, 0, 10, 10));
    // Diagonal segment clipping a corner.
    assert!(segment_intersects_rect((-5, -5), (20, 20), 0, 0, 10, 10));
    // Both endpoints outside on the same side: reject.
    assert!(!segment_intersects_rect((20, 0), (30, 30), 0, 0, 10, 10));
    // Parallel to an edge, outside.
    assert!(!segment_intersects_rect((0, 20), (10, 20), 0, 0, 10, 10));
    // Parallel to an edge, inside.
    assert!(segment_intersects_rect((0, 5), (10, 5), 0, 0, 10, 10));
}

#[test]
fn road_chunk_trail_is_4_connected() {
    let mut visited = 0;
    for dy in -10..=10 {
        for dx in -10..=10 {
            let here = cc(dx, dy);
            if !overmap_info_at(here).has_road {
                continue;
            }
            visited += 1;
            let has_orth_neighbor = [(-1i32, 0i32), (1, 0), (0, -1), (0, 1)]
                .iter()
                .any(|(ndx, ndy)| overmap_info_at(cc(here.cx + ndx, here.cy + ndy)).has_road);
            assert!(
                has_orth_neighbor,
                "road chunk {:?} has no orthogonal road neighbor",
                here
            );
        }
    }
    assert!(visited > 5, "expected several road chunks in the sampled region");
}

#[test]
fn polyline_endpoint_on_grid_corner_does_not_cluster_four_chunks() {
    assert!(overmap_info_at(cc(0, 0)).has_road);
    assert!(
        !overmap_info_at(cc(-1, -1)).has_road,
        "chunk (-1, -1) only touches the polyline at its corner"
    );
    assert!(
        !overmap_info_at(cc(0, -1)).has_road,
        "chunk (0, -1) only touches the polyline at its corner"
    );
    assert!(
        overmap_info_at(cc(-1, 0)).has_road,
        "chunk (-1, 0) is on the polyline's first segment"
    );
}

#[test]
fn road_chunks_flag_along_kings_highway() {
    let on_path = overmap_info_at(cc(0, 0));
    assert!(on_path.has_road, "Exeter origin chunk must be on a road");
    let off_path = overmap_info_at(cc(-2, -5));
    assert!(!off_path.has_road, "off-polyline chunk at (-2, -5) should not flag has_road");
}

#[test]
fn road_corridor_flag_at_exeter() {
    let info = overmap_info_at(cc(0, 0));
    assert!(info.has_road, "Exeter must be on a road");
}

#[test]
fn tamar_corridor_chunk_has_river() {
    let info = overmap_info_at(cc(-688, 500));
    assert!(info.has_river, "Tamar corridor chunk must flag has_river");
}

#[test]
fn point_in_polygon_basic() {
    let square: &[(i64, i64)] = &[(0, 0), (10, 0), (10, 10), (0, 10)];
    assert!(point_in_polygon((5, 5), square));
    assert!(!point_in_polygon((15, 5), square));
    assert!(!point_in_polygon((-1, 5), square));
}

#[test]
fn every_biome_has_glyph_color_name_cost() {
    for b in ALL_BIOMES.iter() {
        assert!(b.overmap_glyph() != 0, "biome {:?} missing glyph", b);
        let fg = b.overmap_fg();
        assert!(fg != [0, 0, 0], "biome {:?} has black overmap_fg", b);
        assert!(!b.display_name().is_empty(), "biome {:?} missing display_name", b);
        let cost = b.cell_travel_cost_secs();
        assert!(cost > 0, "biome {:?} has zero travel cost", b);
    }
}

#[test]
fn every_named_site_has_kind_and_glyph() {
    for site in named_sites() {
        assert!(site.kind.overmap_glyph() != 0, "{} missing glyph", site.name);
        assert!(!site.name.is_empty());
    }
}

#[test]
fn site_kinds_have_distinct_glyphs() {
    let kinds = [
        SiteKind::Cathedral,
        SiteKind::Castle,
        SiteKind::Town,
        SiteKind::HolyWell,
        SiteKind::StoneCircle,
        SiteKind::SacredPool,
    ];
    let mut seen = std::collections::HashSet::new();
    for k in kinds {
        assert!(seen.insert(k.overmap_glyph()), "duplicate SiteKind glyph for {:?}", k);
    }
}

#[test]
fn lookup_perf_smoke() {
    let start = std::time::Instant::now();
    let mut acc: u64 = 0;
    for cx in -100..100 {
        for cy in -50..50 {
            let info = overmap_info_at(cc(cx, cy));
            acc = acc.wrapping_add(info.biome as u64);
        }
    }
    let elapsed = start.elapsed();
    assert!(acc < u64::MAX, "use acc so the call isn't optimized out");
    assert!(
        elapsed < std::time::Duration::from_millis(200),
        "overmap_info_at x 20k took {:?}",
        elapsed
    );
}

#[test]
fn chunk_centers_are_mid_chunk() {
    assert_eq!(chunk_center(cc(0, 0)), (20, 15));
    assert_eq!(chunk_center(cc(-1, -1)), (-20, -15));
    assert_eq!(chunk_center(cc(3, -2)), (140, -45));
}

#[test]
fn bodmin_anchor_chunk_rounds_down() {
    let bodmin = named_sites().into_iter().find(|s| s.name == "Bodmin").unwrap();
    assert_eq!(chunk_for_anchor(&bodmin), cc(-1_389, 608));
    let info = overmap_info_at(cc(-1_389, 608));
    assert_eq!(info.named_site.unwrap().name, "Bodmin");
    assert_eq!(info.biome, Biome::TownEdge);
}

#[test]
fn nearest_road_at_exeter_is_the_south_devon_road() {
    // From Exeter's chunk center (20, 15) the South Devon road's first
    // segment (squared distance 550) is nearer than the King's Highway's
    // start (625).
    assert_eq!(nearest_road_direction(cc(0, 0)), Some((-3_000, 10_000)));
}

#[test]
fn exeter_cell_is_on_river_and_road() {
    assert!(cell_on_river(0, 0));
    assert!(cell_on_road(0, 0));
    assert!(cell_on_road(1, 0));
    assert!(!cell_on_road(5, 5));
    assert!(!cell_on_river(1_000_000_000_000_000, 0));
    assert!(!cell_on_road(i64::MIN, i64::MAX));
}

#[test]
fn sea_chunks_never_carry_river_or_road() {
    for cx in -2_600..-2_550 {
        let info = overmap_info_at(cc(cx, 1_500));
        assert_eq!(info.biome, Biome::Sea);
        assert!(!info.has_river && !info.has_road);
    }
}

#[test]
fn exe_crosses_the_exeter_chunk() {
    let exe = &rivers()[6];
    assert!(polyline_crosses_chunk(cc(0, 0), exe.points));
    assert!(!polyline_crosses_chunk(cc(100, 100), exe.points));
    assert_eq!(roads().len(), 6);
}

#[test]
fn coast_and_farm_fallbacks() {
    // Far inland of every polygon and the coast band: farmland.
    let mid = overmap_info_at(cc(-800, -300));
    assert!(mid.named_site.is_none());
    assert_eq!(mid.biome, Biome::LowlandFarm);
}

