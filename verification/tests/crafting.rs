use holyland::action::ActionId;
use holyland::crafting::{
    cook_progress, recipes, CookProgress, CookableKind, CookedState, ModifierTag, Seasonings,
};

#[test]
fn seasonings_bitfield_set_and_has() {
    let mut s = Seasonings::empty();
    assert!(!s.has(ModifierTag::Herb));
    s.set(ModifierTag::Herb);
    assert!(s.has(ModifierTag::Herb));
}

#[test]
fn cook_progress_thresholds_fish() {
    assert_eq!(cook_progress(CookableKind::Fish, 0), CookProgress::Raw);
    assert_eq!(cook_progress(CookableKind::Fish, 119), CookProgress::Raw);
    assert_eq!(cook_progress(CookableKind::Fish, 120), CookProgress::Done);
    assert_eq!(cook_progress(CookableKind::Fish, 239), CookProgress::Done);
    assert_eq!(cook_progress(CookableKind::Fish, 240), CookProgress::Burnt);
    assert_eq!(cook_progress(CookableKind::Fish, 9999), CookProgress::Burnt);
}

#[test]
fn recipes_table_includes_cook_fish_and_season_pan() {
    let rows = recipes();
    assert!(rows.iter().any(|r| r.action == ActionId::CookFish));
    assert!(rows.iter().any(|r| r.action == ActionId::SeasonPan));
}

#[test]
fn burn_is_twice_target() {
    assert_eq!(CookableKind::Fish.target_secs(), 120);
    assert_eq!(CookableKind::Fish.burn_secs(), 240);
}

#[test]
fn cooking_keys_round_trip() {
    assert_eq!(CookableKind::from_save_key(CookableKind::Fish.save_key()), Some(CookableKind::Fish));
    assert_eq!(CookedState::from_save_key("ok"), Some(CookedState::Good));
    assert_eq!(CookedState::from_save_key("burnt"), Some(CookedState::Burnt));
    assert_eq!(CookedState::from_save_key("raw"), None);
    assert_eq!(CookableKind::from_save_key("bread"), None);
}

#[test]
fn default_seasonings_are_empty() {
    let s = Seasonings::default();
    assert_eq!(s, Seasonings(0));
    assert!(!s.has(ModifierTag::Herb));
}
