use holyland::crafting::{CookableKind, CookedState, PanContents, Seasonings};
use holyland::items::{all_kinds, starting_pack, ItemInstance, ItemKind, ItemMetadata, Pack};
use holyland::save::{ItemInstanceSave, ItemMetadataSave, PackSave};

#[test]
fn save_key_round_trip_for_every_kind() {
    for k in all_kinds() {
        let key = k.save_key();
        assert_eq!(
            ItemKind::from_save_key(key),
            Some(k),
            "round-trip failed for {:?} via key {}",
            k,
            key
        );
    }
}

#[test]
fn unknown_save_key_returns_none() {
    assert_eq!(ItemKind::from_save_key("definitely_not_a_thing"), None);
}

#[test]
fn starting_pack_weighs_13200g() {
    assert_eq!(starting_pack().total_weight_g(), 13_200);
}

#[test]
fn starting_pack_has_two_waterskins_as_distinct_uniques() {
    let p = starting_pack();
    let ws_count = p.contents.iter().filter(|i| i.kind == ItemKind::Waterskin).count();
    assert_eq!(ws_count, 2);
}

#[test]
fn fungible_items_stack_in_pack() {
    let mut pack = Pack::empty(1_000);
    let twigs1 = ItemInstance::stack(ItemKind::Twig, 3, 5, None, ItemMetadata::Plain);
    let twigs2 = ItemInstance::stack(ItemKind::Twig, 2, 5, None, ItemMetadata::Plain);
    assert!(pack.try_add(twigs1).is_ok());
    assert!(pack.try_add(twigs2).is_ok());
    assert_eq!(pack.contents.len(), 1);
    assert_eq!(pack.contents[0].count, 5);
    assert_eq!(pack.total_weight_g(), 25);
}

#[test]
fn unique_items_dont_stack() {
    let mut pack = Pack::empty(10_000);
    let ws1 = ItemInstance::unique(
        ItemKind::Waterskin,
        1_200,
        Some(4),
        ItemMetadata::Waterskin { water_uses: 4 },
    );
    let ws2 = ItemInstance::unique(
        ItemKind::Waterskin,
        1_200,
        Some(4),
        ItemMetadata::Waterskin { water_uses: 4 },
    );
    assert!(pack.try_add(ws1).is_ok());
    assert!(pack.try_add(ws2).is_ok());
    assert_eq!(pack.contents.len(), 2);
}

#[test]
fn has_stack_finds_rations_in_starting_pack() {
    let p = starting_pack();
    assert!(p.has_stack(ItemKind::Ration));
    assert!(p.has_stack(ItemKind::Axe));
    assert!(!p.has_stack(ItemKind::Twig));
}

#[test]
fn take_one_from_stack_decrements_and_removes_on_zero() {
    let mut p = Pack::empty(10_000);
    p.contents.push(ItemInstance::stack(ItemKind::Ration, 2, 500, None, ItemMetadata::Plain));
    assert!(p.take_one_from_stack(ItemKind::Ration));
    assert_eq!(p.contents[0].count, 1);
    assert!(p.take_one_from_stack(ItemKind::Ration));
    assert!(p.contents.is_empty());
    assert!(!p.take_one_from_stack(ItemKind::Ration));
}

#[test]
fn take_one_from_stack_works_for_unique_items() {
    let mut p = Pack::empty(10_000);
    p.contents.push(ItemInstance::unique(ItemKind::Knife, 200, None, ItemMetadata::Plain));
    assert!(p.take_one_from_stack(ItemKind::Knife));
    assert!(p.contents.is_empty());
}

#[test]
fn has_waterskin_with_water_reflects_metadata() {
    let mut p = Pack::empty(10_000);
    p.contents.push(ItemInstance::unique(
        ItemKind::Waterskin,
        1_200,
        Some(4),
        ItemMetadata::Waterskin { water_uses: 4 },
    ));
    assert!(p.has_waterskin_with_water());
    p.contents[0].metadata = ItemMetadata::Waterskin { water_uses: 0 };
    p.contents[0].weight_g_each = 200;
    assert!(!p.has_waterskin_with_water());
}

#[test]
fn drink_one_water_use_decrements_uses_and_weight() {
    let mut p = Pack::empty(10_000);
    p.contents.push(ItemInstance::unique(
        ItemKind::Waterskin,
        1_200,
        Some(4),
        ItemMetadata::Waterskin { water_uses: 4 },
    ));
    assert!(p.drink_one_water_use());
    match p.contents[0].metadata {
        ItemMetadata::Waterskin { water_uses } => assert_eq!(water_uses, 3),
        other => panic!("expected Waterskin metadata, got {:?}", other),
    }
    assert_eq!(p.contents[0].weight_g_each, 950);
}

#[test]
fn drink_one_water_use_returns_false_when_no_water() {
    let mut p = Pack::empty(10_000);
    p.contents.push(ItemInstance::unique(
        ItemKind::Waterskin,
        200,
        Some(0),
        ItemMetadata::Waterskin { water_uses: 0 },
    ));
    assert!(!p.drink_one_water_use());
}

#[test]
fn drink_one_water_use_picks_first_with_water_then_second() {
    let mut p = Pack::empty(10_000);
    p.contents.push(ItemInstance::unique(
        ItemKind::Waterskin,
        200,
        Some(0),
        ItemMetadata::Waterskin { water_uses: 0 },
    ));
    p.contents.push(ItemInstance::unique(
        ItemKind::Waterskin,
        1_200,
        Some(4),
        ItemMetadata::Waterskin { water_uses: 4 },
    ));
    assert!(p.drink_one_water_use());
    match p.contents[1].metadata {
        ItemMetadata::Waterskin { water_uses } => assert_eq!(water_uses, 3),
        other => panic!("got {:?}", other),
    }
}

#[test]
fn make_default_instance_fungible_uses_count_and_weight() {
    let inst = ItemKind::Firewood.make_default_instance(4);
    assert_eq!(inst.kind, ItemKind::Firewood);
    assert_eq!(inst.count, 4);
    assert_eq!(inst.weight_g_each, 500);
    assert_eq!(inst.total_weight_g(), 2_000);
    assert!(matches!(inst.metadata, ItemMetadata::Plain));
}

#[test]
fn make_default_instance_unique_count_always_one() {
    let inst = ItemKind::Axe.make_default_instance(5);
    assert_eq!(inst.count, 1);
    assert_eq!(inst.weight_g_each, 1_000);
}

#[test]
fn make_default_instance_waterskin_is_empty() {
    let inst = ItemKind::Waterskin.make_default_instance(1);
    assert_eq!(inst.weight_g_each, 200, "empty waterskin");
    assert!(matches!(inst.metadata, ItemMetadata::Waterskin { water_uses: 0 }));
}

#[test]
fn over_capacity_bounces_entire_item() {
    let mut pack = Pack::empty(1_000);
    let heavy = ItemInstance::unique(ItemKind::Tent, 5_000, None, ItemMetadata::Plain);
    let result = pack.try_add(heavy);
    assert!(result.is_err());
    assert_eq!(pack.contents.len(), 0);
    assert_eq!(pack.total_weight_g(), 0);
}

#[test]
fn bounced_item_comes_back_unchanged() {
    let mut pack = Pack::empty(100);
    let stones = ItemInstance::stack(ItemKind::Stone, 3, 200, None, ItemMetadata::Plain);
    match pack.try_add(stones) {
        Err(back) => {
            assert_eq!(back.kind, ItemKind::Stone);
            assert_eq!(back.count, 3);
            assert_eq!(back.weight_g_each, 200);
        }
        Ok(()) => panic!("600 g must not fit in a 100 g pack"),
    }
}

#[test]
fn make_default_fungible_zero_count_becomes_one() {
    let inst = ItemKind::Twig.make_default_instance(0);
    assert_eq!(inst.count, 1);
}

#[test]
fn different_weights_do_not_merge() {
    let mut pack = Pack::empty(10_000);
    assert!(pack.try_add(ItemInstance::stack(ItemKind::Twig, 1, 5, None, ItemMetadata::Plain)).is_ok());
    assert!(pack.try_add(ItemInstance::stack(ItemKind::Twig, 1, 6, None, ItemMetadata::Plain)).is_ok());
    assert_eq!(pack.contents.len(), 2);
}

#[test]
fn stack_weight_saturates() {
    let i = ItemInstance::stack(ItemKind::Stone, u16::MAX, u32::MAX, None, ItemMetadata::Plain);
    assert_eq!(i.total_weight_g(), u32::MAX);
}

#[test]
fn display_labels() {
    let plain = ItemInstance::stack(ItemKind::Twig, 3, 5, None, ItemMetadata::Plain);
    assert_eq!(plain.display_label(), "twig (3)");
    let one = ItemInstance::unique(ItemKind::Axe, 1_000, None, ItemMetadata::Plain);
    assert_eq!(one.display_label(), "axe");
    let tent = ItemInstance::unique(ItemKind::Tent, 5_000, None, ItemMetadata::Pitched);
    assert_eq!(tent.display_label(), "tent (pitched)");
    let fire = ItemInstance::unique(ItemKind::Firewood, 500, None, ItemMetadata::Lit { fuel_seconds: 3600 });
    assert_eq!(fire.display_label(), "firewood (lit, 60m)");
    let empty = ItemInstance::unique(ItemKind::Waterskin, 200, None, ItemMetadata::Waterskin { water_uses: 0 });
    assert_eq!(empty.display_label(), "waterskin (empty)");
    let full = ItemInstance::unique(ItemKind::Waterskin, 1_200, None, ItemMetadata::Waterskin { water_uses: 4 });
    assert_eq!(full.display_label(), "waterskin (4/4)");
    let pan = ItemInstance::unique(
        ItemKind::CookingPan,
        1_000,
        None,
        ItemMetadata::PannedOnFire { contents: PanContents::Empty, fuel_seconds: 150 },
    );
    assert_eq!(pan.display_label(), "pan-on-fire (2m fuel)");
    let cooking = ItemInstance::unique(
        ItemKind::CookingPan,
        1_000,
        None,
        ItemMetadata::PannedOnFire {
            contents: PanContents::Cooking { input: CookableKind::Fish, elapsed_secs: 60, seasonings: Seasonings(0) },
            fuel_seconds: 1800,
        },
    );
    assert_eq!(cooking.display_label(), "pan-on-fire (cooking fish (50%), 30m fuel)");
    let done = ItemInstance::unique(
        ItemKind::CookingPan,
        1_000,
        None,
        ItemMetadata::PannedOnFire {
            contents: PanContents::Cooking { input: CookableKind::Fish, elapsed_secs: 130, seasonings: Seasonings(0) },
            fuel_seconds: 60,
        },
    );
    assert_eq!(done.display_label(), "pan-on-fire (done fish, 1m fuel)");
    let burnt_pan = ItemInstance::unique(
        ItemKind::CookingPan,
        1_000,
        None,
        ItemMetadata::PannedOnFire {
            contents: PanContents::Cooking { input: CookableKind::Fish, elapsed_secs: 500, seasonings: Seasonings(0) },
            fuel_seconds: 0,
        },
    );
    assert_eq!(burnt_pan.display_label(), "pan-on-fire (BURNT fish, 0m fuel)");
    let herbed = ItemInstance::unique(
        ItemKind::Cooked,
        400,
        None,
        ItemMetadata::Cooked { base: CookableKind::Fish, state: CookedState::Good, seasonings: Seasonings(1) },
    );
    assert_eq!(herbed.display_label(), "herbed cooked fish");
    let plain_cooked = ItemInstance::unique(
        ItemKind::Cooked,
        400,
        None,
        ItemMetadata::Cooked { base: CookableKind::Fish, state: CookedState::Good, seasonings: Seasonings(0) },
    );
    assert_eq!(plain_cooked.display_label(), "cooked fish");
    let burnt = ItemInstance::unique(
        ItemKind::Cooked,
        400,
        None,
        ItemMetadata::Cooked { base: CookableKind::Fish, state: CookedState::Burnt, seasonings: Seasonings(1) },
    );
    assert_eq!(burnt.display_label(), "burnt fish");
}

#[test]
fn pack_save_round_trip_keeps_every_entry() {
    let mut p = starting_pack();
    p.contents.push(ItemInstance::unique(
        ItemKind::CookingPan,
        1_000,
        None,
        ItemMetadata::PannedOnFire {
            contents: PanContents::Cooking { input: CookableKind::Fish, elapsed_secs: 42, seasonings: Seasonings(1) },
            fuel_seconds: 77,
        },
    ));
    let back = Pack::from_save(&p.to_save());
    assert_eq!(back.capacity_g, p.capacity_g);
    assert_eq!(back.contents.len(), p.contents.len());
    for (a, b) in back.contents.iter().zip(p.contents.iter()) {
        assert_eq!(a.kind, b.kind);
        assert_eq!(a.count, b.count);
        assert_eq!(a.weight_g_each, b.weight_g_each);
        assert_eq!(a.charges, b.charges);
        assert_eq!(a.metadata, b.metadata);
    }
}

#[test]
fn pack_load_drops_unknown_kinds_and_fixes_zero_count() {
    let save = PackSave {
        capacity_g: 500,
        contents: vec![
            ItemInstanceSave {
                kind: "unobtainium".to_string(),
                count: 1,
                weight_g_each: 1,
                charges: None,
                metadata: ItemMetadataSave::Plain,
            },
            ItemInstanceSave {
                kind: "stick".to_string(),
                count: 0,
                weight_g_each: 50,
                charges: None,
                metadata: ItemMetadataSave::Plain,
            },
        ],
    };
    let p = Pack::from_save(&save);
    assert_eq!(p.capacity_g, 500);
    assert_eq!(p.contents.len(), 1);
    assert_eq!(p.contents[0].kind, ItemKind::Stick);
    assert_eq!(p.contents[0].count, 1);
}

#[test]
fn unknown_cooking_keys_load_as_fallbacks() {
    let pan = ItemMetadata::from_save(&ItemMetadataSave::PannedOnFire {
        contents_kind: "cooking".to_string(),
        input: "bread".to_string(),
        elapsed_secs: 5,
        seasonings: 0,
        fuel_seconds: 9,
    });
    assert_eq!(pan, ItemMetadata::PannedOnFire { contents: PanContents::Empty, fuel_seconds: 9 });
    let cooked = ItemMetadata::from_save(&ItemMetadataSave::Cooked {
        base: "bread".to_string(),
        state: "charred".to_string(),
        seasonings: 1,
    });
    assert_eq!(
        cooked,
        ItemMetadata::Cooked { base: CookableKind::Fish, state: CookedState::Good, seasonings: Seasonings(1) }
    );
}

#[test]
fn glyph_color_and_name() {
    assert_eq!(ItemKind::Axe.glyph_color(), (b'P', [180, 180, 200]));
    assert_eq!(ItemKind::CookingPan.name(), "cooking pan");
    assert!(ItemKind::Twig.is_fungible());
    assert!(!ItemKind::Spear.is_fungible());
    assert!(ItemKind::Mud.def().blends_with_terrain);
}
