use std::collections::HashMap;

use holyland::buildings::{BuildingCatalog, CityTier, Prefab, PrefabDefect, PrefabLayer, TagCatalog, TagRole, validate_prefab};
use holyland::world::TerrainKind;

fn code(c: char) -> u32 {
    c as u32
}

/// A prefab with a legacy palette: `#` wood wall, `.` floor.
fn legacy(tag: &str, tier: CityTier, variant: &str, weight: u32, grid: &[&str]) -> Prefab {
    let mut palette = HashMap::new();
    palette.insert(code('#'), TerrainKind::WoodWall);
    palette.insert(code('.'), TerrainKind::Floor);
    let w = grid.first().map(|r| r.chars().count()).unwrap_or(0) as u16;
    Prefab {
        tag: tag.to_string(),
        tier,
        variant: variant.to_string(),
        weight,
        size: (w, grid.len() as u16),
        palette,
        tag_palette: HashMap::new(),
        grid: grid.iter().map(|s| s.to_string()).collect(),
        roof: Vec::new(),
        roof_palette: HashMap::new(),
        objects: Vec::new(),
        objects_palette: HashMap::new(),
    }
}

/// A small bundle standing in for the shipped prefabs: two urban smithy
/// variants, a village farrier and two urban houses.
fn bundle() -> Vec<Prefab> {
    vec![
        legacy("smithy", CityTier::Urban, "weaponsmith", 2, &["##", "#."]),
        legacy("house", CityTier::Urban, "terrace", 3, &["#"]),
        legacy("smithy", CityTier::Urban, "armorer", 1, &["#.", "##"]),
        legacy("smithy", CityTier::Village, "farrier", 1, &["#."]),
        legacy("house", CityTier::Urban, "cottage", 3, &["."]),
    ]
}

fn catalog() -> BuildingCatalog {
    BuildingCatalog::load(bundle()).expect("bundle loads")
}

#[test]
fn catalog_loads_every_bundled_prefab() {
    let cat = catalog();
    let total: usize = cat.pools.iter().map(|(_, v)| v.len()).sum();
    assert_eq!(total, bundle().len());
}

#[test]
fn catalog_indexes_urban_smithy_pool() {
    let cat = catalog();
    let pool = cat.pool("smithy", CityTier::Urban).expect("Urban smithy pool exists");
    assert!(pool.iter().any(|p| p.variant == "armorer"), "Urban smithy pool must contain armorer");
    assert!(pool.iter().any(|p| p.variant == "weaponsmith"), "Urban smithy pool must contain weaponsmith");
}

#[test]
fn catalog_indexes_village_smithy_pool() {
    let cat = catalog();
    let pool = cat.pool("smithy", CityTier::Village).expect("Village smithy pool exists");
    assert!(pool.iter().any(|p| p.variant == "farrier"), "Village smithy pool must contain farrier");
}

#[test]
fn pick_variant_is_deterministic() {
    let cat = catalog();
    for h in [0u64, 1, 42, 0xDEADBEEF, 0xFFFF_FFFF_FFFF_FFFF] {
        let a = cat.pick_variant("smithy", CityTier::Urban, h).map(|p| p.variant.clone());
        let b = cat.pick_variant("smithy", CityTier::Urban, h).map(|p| p.variant.clone());
        assert_eq!(a, b, "pick_variant(hash={h:#x}) is not deterministic");
    }
}

#[test]
fn pick_variant_misses_unknown_tag() {
    let cat = catalog();
    assert!(cat.pick_variant("zoo", CityTier::Urban, 0).is_none());
}

#[test]
fn pools_are_sorted_by_variant_in_first_appearance_order() {
    let cat = catalog();
    let keys: Vec<(String, CityTier)> = cat.pools.iter().map(|(k, _)| k.clone()).collect();
    assert_eq!(
        keys,
        vec![
            ("smithy".to_string(), CityTier::Urban),
            ("house".to_string(), CityTier::Urban),
            ("smithy".to_string(), CityTier::Village),
        ]
    );
    let smithy: Vec<&str> = cat.pools[0].1.iter().map(|p| p.variant.as_str()).collect();
    assert_eq!(smithy, vec!["armorer", "weaponsmith"]);
    let houses: Vec<&str> = cat.pools[1].1.iter().map(|p| p.variant.as_str()).collect();
    assert_eq!(houses, vec!["cottage", "terrace"]);
}

#[test]
fn equal_variants_keep_their_input_order() {
    let cat = BuildingCatalog::load(vec![
        legacy("house", CityTier::Town, "b", 1, &["#"]),
        legacy("house", CityTier::Town, "a", 2, &["#"]),
        legacy("house", CityTier::Town, "b", 3, &["#"]),
    ])
    .unwrap();
    let w: Vec<(&str, u32)> = cat.pools[0].1.iter().map(|p| (p.variant.as_str(), p.weight)).collect();
    assert_eq!(w, vec![("a", 2), ("b", 1), ("b", 3)]);
}

#[test]
fn pick_variant_walks_the_weights() {
    // Sorted pool: armorer (weight 1), weaponsmith (weight 2); total 3.
    let cat = catalog();
    let pick = |h: u64| cat.pick_variant("smithy", CityTier::Urban, h).map(|p| p.variant.clone());
    assert_eq!(pick(0).as_deref(), Some("armorer"));
    assert_eq!(pick(1).as_deref(), Some("weaponsmith"));
    assert_eq!(pick(2).as_deref(), Some("weaponsmith"));
    assert_eq!(pick(3).as_deref(), Some("armorer"));
    assert_eq!(pick(0xFFFF_FFFF_FFFF_FFFF).as_deref(), Some("armorer"));
}

#[test]
fn pick_variant_is_none_when_every_weight_is_zero() {
    let cat = BuildingCatalog::load(vec![legacy("shed", CityTier::Hamlet, "lean_to", 0, &["#"])]).unwrap();
    assert!(cat.pick_variant("shed", CityTier::Hamlet, 7).is_none());
    assert!(cat.pick_variant("shed", CityTier::Urban, 7).is_none());
}

#[test]
fn load_reports_the_first_invalid_prefab() {
    let mut bad = legacy("house", CityTier::Urban, "x", 1, &["#?"]);
    bad.size = (2, 1);
    let err = BuildingCatalog::load(vec![legacy("house", CityTier::Urban, "ok", 1, &["#"]), bad]).err();
    assert_eq!(
        err,
        Some((1, PrefabDefect::MissingChar { layer: PrefabLayer::Grid, col: 1, row: 0, ch: '?' }))
    );
}

#[test]
fn validate_reports_row_count_then_width() {
    let mut p = legacy("house", CityTier::Urban, "x", 1, &["##", "##"]);
    p.size = (2, 3);
    assert_eq!(validate_prefab(&p), Err(PrefabDefect::RowCount { layer: PrefabLayer::Grid, rows: 2 }));
    p.size = (3, 2);
    assert_eq!(validate_prefab(&p), Err(PrefabDefect::RowWidth { layer: PrefabLayer::Grid, row: 0, width: 2 }));
    p.size = (2, 2);
    assert_eq!(validate_prefab(&p), Ok(()));
}

#[test]
fn roof_layer_parses_validates_and_resolves() {
    let mut p = legacy("house", CityTier::Urban, "t", 1, &["#.#", "###"]);
    p.roof_palette.insert(code('A'), (5, 1));
    p.roof_palette.insert(code('D'), (0, 42));
    p.roof = vec!["A A".to_string(), "ADA".to_string()];
    assert_eq!(validate_prefab(&p), Ok(()));
    assert_eq!(p.roof_at(0, 0), Some((5, 1)));
    assert_eq!(p.roof_at(1, 0), None, "space char = no roof");
    assert_eq!(p.roof_at(1, 1), Some((0, 42)));
}

#[test]
fn roof_with_unknown_char_is_a_roof_defect() {
    let mut p = legacy("house", CityTier::Urban, "t", 1, &["##"]);
    p.roof = vec!["AB".to_string()];
    p.roof_palette.insert(code('A'), (5, 1));
    assert_eq!(
        validate_prefab(&p),
        Err(PrefabDefect::MissingChar { layer: PrefabLayer::Roof, col: 1, row: 0, ch: 'B' })
    );
}

#[test]
fn objects_layer_must_match_the_footprint() {
    let mut p = legacy("house", CityTier::Urban, "t", 1, &["##"]);
    p.objects = vec!["B".to_string()];
    p.objects_palette.insert(code('B'), "brazier".to_string());
    assert_eq!(
        validate_prefab(&p),
        Err(PrefabDefect::RowWidth { layer: PrefabLayer::Objects, row: 0, width: 1 })
    );
    assert_eq!(p.objects_palette_name(0, 0), Some("brazier"));
    assert_eq!(p.objects_palette_name(1, 0), None);
}

#[test]
fn roofless_prefab_has_no_roof_cells() {
    let p = legacy("house", CityTier::Urban, "t", 1, &["##", "##"]);
    assert!(p.roof.is_empty());
    assert_eq!(p.roof_at(0, 0), None);
}

#[test]
fn tag_palette_names_cells_and_legacy_palette_gives_terrain() {
    let mut p = legacy("house", CityTier::Urban, "t", 1, &["#.", "x "]);
    p.tag_palette.insert(code('x'), "stone_wall".to_string());
    assert_eq!(validate_prefab(&p), Ok(()));
    assert_eq!(p.tag_palette_name(0, 1), Some("stone_wall"));
    assert_eq!(p.tag_palette_name(0, 0), None);
    assert_eq!(p.palette_cell(0, 0), Some(TerrainKind::WoodWall));
    assert_eq!(p.palette_cell(1, 0), Some(TerrainKind::Floor));
    assert_eq!(p.palette_cell(1, 1), None, "space = don't stamp");
    assert_eq!(p.palette_cell(5, 5), None);
    assert_eq!((p.width(), p.height()), (2, 2));
}

#[test]
fn default_tier_is_urban() {
    assert_eq!(CityTier::default(), CityTier::Urban);
}

#[test]
fn resolve_cell_gives_terrain_and_the_sprite_tag() {
    let mut p = legacy("house", CityTier::Urban, "t", 1, &["#xyz", ". q "]);
    p.tag_palette.insert(code('x'), "stone_wall".to_string());
    p.tag_palette.insert(code('y'), "flagstones".to_string());
    p.tag_palette.insert(code('z'), "lantern".to_string());
    p.tag_palette.insert(code('q'), "nowhere".to_string());
    let tags = TagCatalog {
        tags: vec![
            ("flagstones".to_string(), TagRole::Terrain { passable: true }),
            ("stone_wall".to_string(), TagRole::Terrain { passable: false }),
            ("lantern".to_string(), TagRole::Other),
            ("stone_wall".to_string(), TagRole::Terrain { passable: true }),
        ],
    };
    assert_eq!(p.resolve_cell(0, 0, &tags), Some((TerrainKind::WoodWall, None)));
    assert_eq!(p.resolve_cell(1, 0, &tags), Some((TerrainKind::Solid, Some(1))));
    assert_eq!(p.resolve_cell(2, 0, &tags), Some((TerrainKind::Floor, Some(0))));
    assert_eq!(p.resolve_cell(3, 0, &tags), Some((TerrainKind::Solid, Some(2))));
    assert_eq!(p.resolve_cell(0, 1, &tags), Some((TerrainKind::Floor, None)));
    assert_eq!(p.resolve_cell(1, 1, &tags), None, "space = don't stamp");
    assert_eq!(p.resolve_cell(2, 1, &tags), None, "unknown tag = don't stamp");
    assert_eq!(p.resolve_cell(9, 9, &tags), None);
    assert_eq!(p.cell_at(1, 0, &tags), Some(TerrainKind::Solid));
}
