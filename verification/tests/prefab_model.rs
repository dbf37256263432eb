use std::collections::HashMap;

use holyland::buildings::CityTier;
use holyland::prefab_model::legacy_tag;
use holyland::world::TerrainKind;
use holyland::prefab_model::{
    browse_row_at, cell_at_xy, cycle_tier, erase, paint_left, rect_hit, tier_name, Brushes, Layer, Model,
};

#[test]
fn resize_preserves_overlap() {
    let mut m = Model::blank("r".into(), 3, 3);
    let i = m.idx(1, 1);
    m.roof[i] = Some((6, 2));
    m.terrain[i] = Some("stone_wall".into());
    m.resize(5, 5);
    assert_eq!(m.roof[m.idx(1, 1)], Some((6, 2)));
    assert_eq!(m.terrain[m.idx(1, 1)].as_deref(), Some("stone_wall"));
    m.resize(2, 2);
    assert_eq!((m.w, m.h), (2, 2));
}

#[test]
fn blank_model_is_an_urban_house() {
    let m = Model::blank("cottage".into(), 4, 2);
    assert_eq!(m.variant, "cottage");
    assert_eq!(m.tag, "house");
    assert_eq!(m.tier, CityTier::Urban);
    assert_eq!(m.weight, 3);
    assert_eq!(m.terrain.len(), 8);
    assert!(m.terrain.iter().all(|c| c.is_none()));
    assert!(m.roof.iter().all(|c| c.is_none()));
    assert!(m.objects.iter().all(|c| c.is_none()));
    assert_eq!(m.idx(3, 1), 7);
}

#[test]
fn resize_clamps_and_drops_cells_outside() {
    let mut m = Model::blank("r".into(), 2, 2);
    let far = m.idx(1, 1);
    m.objects[far] = Some("brazier".into());
    m.resize(0, 100);
    assert_eq!((m.w, m.h), (1, 40));
    assert_eq!(m.objects.len(), 40);
    assert!(m.objects.iter().all(|c| c.is_none()));
    m.resize(3, 1);
    assert_eq!((m.w, m.h), (3, 1));
    assert_eq!(m.terrain.len(), 3);
}

#[test]
fn tiers_name_and_cycle() {
    assert_eq!(tier_name(CityTier::Village), "Village");
    assert_eq!(cycle_tier(CityTier::Urban), CityTier::Town);
    assert_eq!(cycle_tier(CityTier::Hamlet), CityTier::Urban);
    assert_eq!(Layer::Terrain.next(), Layer::Roof);
    assert_eq!(Layer::Object.next(), Layer::Terrain);
    assert_eq!(Layer::Roof.label(), "ROOF");
}

#[test]
fn clicks_map_to_grid_cells_and_rows() {
    let m = Model::blank("r".into(), 3, 2);
    assert_eq!(cell_at_xy(512, 84, &m), Some((0, 0)));
    assert_eq!(cell_at_xy(512 + 2 * 40 + 39, 84 + 40, &m), Some((2, 1)));
    assert_eq!(cell_at_xy(511, 84, &m), None);
    assert_eq!(cell_at_xy(512 + 3 * 40, 84, &m), None);
    assert!(rect_hit(5, 5, 0, 0, 10, 10));
    assert!(!rect_hit(10, 5, 0, 0, 10, 10));
    assert_eq!(browse_row_at(48, 120, 3), Some(0));
    assert_eq!(browse_row_at(100, 120 + 3 * 30, 3), Some(3));
    assert_eq!(browse_row_at(100, 120 + 4 * 30, 3), None);
    assert_eq!(browse_row_at(47, 200, 3), None);
    assert_eq!(browse_row_at(469, 200, 3), None);
}

#[test]
fn painting_and_erasing_touch_one_layer() {
    let mut m = Model::blank("r".into(), 3, 2);
    let brushes = Brushes {
        active: Layer::Terrain,
        terrain_brush: Some("stone_wall".into()),
        object_brush: Some("rug".into()),
        roof_brush: Some((1, 2)),
    };
    paint_left(512 + 45, 84 + 5, &brushes, &mut m);
    assert_eq!(m.terrain[1].as_deref(), Some("stone_wall"));
    assert!(m.roof[1].is_none() && m.objects[1].is_none());
    let roofing = Brushes { active: Layer::Roof, ..brushes };
    paint_left(512 + 45, 84 + 5, &roofing, &mut m);
    assert_eq!(m.roof[1], Some((1, 2)));
    erase(512 + 45, 84 + 5, Layer::Terrain, &mut m);
    assert!(m.terrain[1].is_none());
    assert_eq!(m.roof[1], Some((1, 2)));
    // Off the grid nothing changes.
    paint_left(0, 0, &roofing, &mut m);
    assert_eq!(m.roof.iter().filter(|c| c.is_some()).count(), 1);
}

#[test]
fn catalog_text_lists_palettes_and_grids() {
    let mut m = Model::blank("r".into(), 2, 1);
    m.terrain[0] = Some("stone_wall".into());
    m.roof[1] = Some((6, 2));
    let expected = [
        "// Edited with the prefab-editor tool.\n",
        "Prefab(\n",
        "    tag: \"house\",\n",
        "    tier: Urban,\n",
        "    variant: \"r\",\n",
        "    weight: 3,\n",
        "    size: (2, 1),\n",
        "    palette: {},\n",
        "    tag_palette: {\n",
        "        '#': \"stone_wall\",\n",
        "    },\n",
        "    grid: [\n",
        "        \"# \",\n",
        "    ],\n",
        "    roof_palette: {\n",
        "        '#': (6, 2),\n",
        "    },\n",
        "    roof: [\n",
        "        \" #\",\n",
        "    ],\n",
        ")\n",
    ]
    .concat();
    assert_eq!(m.to_ron(), expected);
}

#[test]
fn catalog_text_shares_palette_entries() {
    let mut m = Model::blank("a\"b".into(), 3, 2);
    m.terrain[0] = Some("wall".into());
    m.terrain[1] = Some("floor".into());
    m.terrain[4] = Some("wall".into());
    m.objects[5] = Some("rug".into());
    m.tier = CityTier::Village;
    let text = m.to_ron();
    assert!(text.contains("    variant: \"a\\\"b\",\n"));
    assert!(text.contains("    tier: Village,\n"));
    assert!(text.contains("        '#': \"wall\",\n        '.': \"floor\",\n"));
    assert!(text.contains("    grid: [\n        \"#. \",\n        \" # \",\n    ],\n"));
    assert!(!text.contains("roof_palette"));
    assert!(text.contains("    objects_palette: {\n        '#': \"rug\",\n    },\n"));
    assert!(text.contains("    objects: [\n        \"   \",\n        \"  #\",\n    ],\n)\n"));
}

fn legacy_workshop() -> holyland::buildings::Prefab {
    let mut palette = HashMap::new();
    palette.insert('#' as u32, TerrainKind::StoneWall);
    palette.insert('.' as u32, TerrainKind::Floor);
    palette.insert('~' as u32, TerrainKind::StreamWater);
    let mut tag_palette = HashMap::new();
    tag_palette.insert('o' as u32, "oak_door".to_string());
    let mut roof_palette = HashMap::new();
    roof_palette.insert('A' as u32, (5u8, 1u8));
    let mut objects_palette = HashMap::new();
    objects_palette.insert('B' as u32, "brazier".to_string());
    holyland::buildings::Prefab {
        tag: "smithy".to_string(),
        tier: CityTier::Town,
        variant: "workshop".to_string(),
        weight: 2,
        size: (3, 2),
        palette,
        tag_palette,
        grid: vec!["#o#".to_string(), ".~ ".to_string()],
        roof: vec!["A A".to_string(), "AAA".to_string()],
        roof_palette,
        objects: vec!["   ".to_string(), "B  ".to_string()],
        objects_palette,
    }
}

#[test]
fn legacy_prefab_opens_as_seed_tags() {
    let p = legacy_workshop();
    let m = Model::from_prefab("house_town_workshop".into(), &p);
    assert_eq!((m.w, m.h), (3, 2));
    assert_eq!(m.tag, "smithy");
    assert_eq!(m.tier, CityTier::Town);
    assert_eq!(m.variant, "workshop");
    assert_eq!(m.weight, 2);
    assert_eq!(m.stem, "house_town_workshop");
    let t = |x: u16, y: u16| m.terrain[m.idx(x, y)].clone();
    assert_eq!(t(0, 0).as_deref(), Some("stone_wall"));
    assert_eq!(t(1, 0).as_deref(), Some("oak_door"), "the tag palette wins");
    assert_eq!(t(0, 1).as_deref(), Some("cobble_floor"));
    assert_eq!(t(1, 1), None, "water has no seed tag");
    assert_eq!(t(2, 1), None, "space stays empty");
    assert_eq!(m.roof[m.idx(0, 0)], Some((5, 1)));
    assert_eq!(m.roof[m.idx(1, 0)], None);
    assert_eq!(m.objects[m.idx(0, 1)].as_deref(), Some("brazier"));
    assert_eq!(m.objects[m.idx(0, 0)], None);
    let emitted = m.to_ron();
    assert!(emitted.contains("tag_palette"));
}

#[test]
fn legacy_terrain_maps_to_seed_tags() {
    assert_eq!(legacy_tag(TerrainKind::WoodWall).as_deref(), Some("wood_wall"));
    assert_eq!(legacy_tag(TerrainKind::Wall).as_deref(), Some("stone_wall"));
    assert_eq!(legacy_tag(TerrainKind::CobbleRoad).as_deref(), Some("cobble_floor"));
    assert_eq!(legacy_tag(TerrainKind::BareDirt).as_deref(), Some("dirt_floor"));
    assert_eq!(legacy_tag(TerrainKind::Grass).as_deref(), Some("grass_floor"));
    assert_eq!(legacy_tag(TerrainKind::TreeTrunk), None);
}
