use holyland::calendar::Season;
use holyland::flora::{all_tree_species, forage_in_season, Decoration, MushroomKind, PlantState, TreeSpecies};
use holyland::items::ItemKind;

#[test]
fn holly_is_evergreen_others_deciduous() {
    for s in all_tree_species() {
        let dec = s.is_deciduous();
        let expected = !matches!(s, TreeSpecies::Holly);
        assert_eq!(dec, expected, "{:?}", s);
    }
}

#[test]
fn canopy_fg_changes_with_season_for_deciduous() {
    let oak = TreeSpecies::Oak;
    assert_ne!(oak.canopy_fg(Season::Summer), oak.canopy_fg(Season::Autumn), "Oak should color-shift Summer → Autumn");
    let holly = TreeSpecies::Holly;
    assert_eq!(holly.canopy_fg(Season::Spring), holly.canopy_fg(Season::Autumn), "Holly Autumn must match Spring — no copper shift");
    assert_eq!(holly.canopy_fg(Season::Spring), holly.canopy_fg(Season::Winter), "Holly Winter must match Spring — evergreen");
}

#[test]
fn gorse_blocks_movement_and_sight() {
    let g = Decoration::Gorse { state: PlantState::Mature };
    assert!(g.blocks_pass());
    assert!(g.blocks_sight());
    let f = Decoration::Fern { state: PlantState::Mature };
    assert!(!f.blocks_pass());
    assert!(!f.blocks_sight());
}

#[test]
fn tree_species_save_key_round_trips() {
    for s in all_tree_species() {
        assert_eq!(TreeSpecies::from_save_key(s.save_key()), Some(s));
    }
    assert_eq!(TreeSpecies::from_save_key("willow"), None);
}

#[test]
fn mast_and_regrowth() {
    assert_eq!(TreeSpecies::Oak.mast_item(), Some(ItemKind::Acorn));
    assert_eq!(TreeSpecies::Holly.mast_item(), None);
    assert_eq!(TreeSpecies::Hazel.sapling_days_to_mature(), 30);
    assert_eq!(TreeSpecies::Beech.sapling_days_to_mature(), 90);
    assert_eq!(TreeSpecies::Rowan.canopy_glyph(), 0x18);
}

#[test]
fn decoration_glyphs_and_tints() {
    assert_eq!(Decoration::Bare.glyph(), 0);
    assert_eq!(Decoration::default(), Decoration::Bare);
    assert_eq!(PlantState::default(), PlantState::Mature);
    assert_eq!(Decoration::Moss.fg(Season::Winter), [80, 130, 130]);
    assert_eq!(Decoration::Gorse { state: PlantState::Mature }.fg(Season::Summer), [220, 200, 70]);
    let sap = Decoration::Sapling { species: TreeSpecies::Rowan, planted_day: 3 };
    assert_eq!(sap.fg(Season::Autumn), TreeSpecies::Rowan.canopy_fg(Season::Autumn));
    assert_eq!(Decoration::Mushroom { kind: MushroomKind::Toxic, expires_day: 1 }.fg(Season::Spring), [200, 80, 70]);
}

#[test]
fn forage_tables() {
    assert_eq!(forage_in_season(Season::Spring), vec![ItemKind::Herb, ItemKind::FernFrond]);
    assert_eq!(forage_in_season(Season::Winter), vec![ItemKind::Moss, ItemKind::GorseFaggot]);
    assert_eq!(forage_in_season(Season::Autumn).len(), 4);
}
