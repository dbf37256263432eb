use holyland::action::{all_actions, evaluate, ActionFacts, ActionId, Availability, ExecuteOutcome, FoeFacts};
use holyland::crafting::PanContents;
use holyland::flora::{Decoration, PlantState};
use holyland::items::{starting_pack, ItemInstance, ItemKind, ItemMetadata, Pack};
use holyland::world::{CellState, TerrainKind, MOVES_PER_SECOND};

#[test]
fn catalog_listed_in_render_order() {
    let catalog = all_actions();
    assert_eq!(catalog.first().map(|a| a.id), Some(ActionId::Pickup));
    let count = catalog.len();
    assert!(count >= 13);
}

#[test]
fn every_catalog_verb_key_round_trips() {
    for a in all_actions() {
        assert_eq!(ActionId::from_save_key(a.id.save_key()), Some(a.id));
    }
    assert_eq!(ActionId::from_save_key("dance"), None);
}

#[test]
fn setup_camp_costs_tent_plus_bedroll() {
    assert_eq!(
        ActionId::SetupCamp.move_cost(),
        ActionId::PitchTent.move_cost() + ActionId::UnrollBedroll.move_cost()
    );
    assert_eq!(ActionId::SetupCamp.move_cost(), 33_000);
    assert_eq!(ActionId::Fishing.move_cost(), 60_000);
    assert_eq!(ActionId::Aim.move_cost(), 0);
}

#[test]
fn availability_from_has() {
    match Availability::from_has(true, 7, "nothing") {
        Availability::Available { cost_game_seconds } => assert_eq!(cost_game_seconds, 7),
        other => panic!("got {:?}", other),
    }
    match Availability::from_has(false, 7, "no rations in pack") {
        Availability::Unavailable { reason } => assert_eq!(reason, "no rations in pack"),
        other => panic!("got {:?}", other),
    }
}

#[test]
fn outcome_message() {
    assert_eq!(ExecuteOutcome::Done("picked up 2 stack(s)".to_string()).message(), "picked up 2 stack(s)");
    assert_eq!(ExecuteOutcome::OpenAim.message(), "");
}

fn grass() -> Option<CellState> {
    Some(CellState::with_terrain(TerrainKind::Grass))
}

fn facts(pack: Vec<ItemInstance>) -> ActionFacts {
    let mut p = Pack::empty(20_000);
    p.contents = pack;
    ActionFacts {
        pack: p,
        near: (0..9).map(|_| grass()).collect(),
        tiles: vec![TerrainKind::Grass; 9],
        stamina_for_heavy: true,
        foe: None,
        ranged_ammo: None,
    }
}

fn stack(kind: ItemKind, n: u16) -> ItemInstance {
    ItemInstance::stack(kind, n, 10, None, ItemMetadata::Plain)
}

fn reason(a: Availability) -> &'static str {
    match a {
        Availability::Unavailable { reason } => reason,
        Availability::Available { .. } => "available",
    }
}

#[test]
fn eating_needs_the_food_in_the_pack() {
    assert_eq!(reason(evaluate(&facts(vec![]), ActionId::EatRation, 5)), "no rations in pack");
    assert!(matches!(
        evaluate(&facts(vec![stack(ItemKind::Ration, 1)]), ActionId::EatRation, 5),
        Availability::Available { cost_game_seconds: 5 }
    ));
}

#[test]
fn start_fire_checks_flint_then_tinder_kindling_fuel_within_reach() {
    assert_eq!(reason(evaluate(&facts(vec![]), ActionId::StartFire, 9)), "no flint and steel");
    let mut f = facts(vec![stack(ItemKind::FlintAndSteel, 1)]);
    assert_eq!(reason(evaluate(&f, ActionId::StartFire, 9)), "need tinder (twig or grass)");
    f.pack.contents.push(stack(ItemKind::Twig, 1));
    assert_eq!(reason(evaluate(&f, ActionId::StartFire, 9)), "need 3 sticks");
    // Sticks lying on a neighbouring cell count.
    if let Some(c) = f.near[0].as_mut() {
        c.items.push(stack(ItemKind::Stick, 3));
    }
    assert_eq!(reason(evaluate(&f, ActionId::StartFire, 9)), "need 2 firewood");
    if let Some(c) = f.near[8].as_mut() {
        c.items.push(stack(ItemKind::Firewood, 2));
    }
    assert!(matches!(evaluate(&f, ActionId::StartFire, 9), Availability::Available { cost_game_seconds: 9 }));
}

#[test]
fn burning_firewood_is_no_reserve() {
    let mut f = facts(vec![]);
    if let Some(c) = f.near[4].as_mut() {
        c.items.push(ItemInstance::stack(ItemKind::Firewood, 3, 10, None, ItemMetadata::Lit { fuel_seconds: 60 }));
    }
    assert_eq!(reason(evaluate(&f, ActionId::FeedFire, 1)), "no firewood within reach");
    f.pack.contents.push(stack(ItemKind::Firewood, 1));
    assert!(matches!(evaluate(&f, ActionId::FeedFire, 1), Availability::Available { .. }));
    assert_eq!(reason(evaluate(&facts(vec![]), ActionId::FeedFire, 1)), "no fire here to feed");
}

#[test]
fn water_and_trees_must_be_beside_the_player() {
    let mut f = facts(vec![]);
    f.tiles[4] = TerrainKind::StreamWater;
    assert_eq!(reason(evaluate(&f, ActionId::DrinkFromStream, 1)), "no water adjacent");
    f.tiles[1] = TerrainKind::PondWater;
    assert!(matches!(evaluate(&f, ActionId::DrinkFromStream, 1), Availability::Available { .. }));
    assert!(matches!(evaluate(&f, ActionId::Fishing, 1), Availability::Available { .. }));
    assert_eq!(reason(evaluate(&f, ActionId::ChopTree, 1)), "need an axe");
    f.pack.contents.push(stack(ItemKind::Axe, 1));
    assert_eq!(reason(evaluate(&f, ActionId::ChopTree, 1)), "no tree adjacent");
}

#[test]
fn pickup_weighs_the_cell_against_the_pack() {
    let mut f = facts(vec![]);
    f.near[4] = None;
    assert_eq!(reason(evaluate(&f, ActionId::Pickup, 3)), "off the map");
    f.near[4] = grass();
    assert_eq!(reason(evaluate(&f, ActionId::Pickup, 3)), "nothing here");
    if let Some(c) = f.near[4].as_mut() {
        c.items.push(ItemInstance::stack(ItemKind::Stone, 1, 30_000, None, ItemMetadata::Plain));
    }
    assert_eq!(reason(evaluate(&f, ActionId::Pickup, 3)), "pack too full");
    if let Some(c) = f.near[4].as_mut() {
        c.items.clear();
        c.items.push(ItemInstance::stack(ItemKind::Twig, 2, 20, None, ItemMetadata::Plain));
    }
    assert_eq!(reason(evaluate(&f, ActionId::Pickup, 3)), "available");
    assert!(matches!(evaluate(&f, ActionId::Pickup, 3), Availability::Available { .. }));
}

#[test]
fn harvest_needs_the_tool_then_the_plant_within_reach() {
    let mut f = facts(vec![stack(ItemKind::Knife, 1)]);
    assert_eq!(reason(evaluate(&f, ActionId::CutFern, 1)), "no fern adjacent");
    if let Some(c) = f.near[4].as_mut() {
        c.decoration = Decoration::Fern { state: PlantState::Mature };
    }
    assert!(matches!(evaluate(&f, ActionId::CutFern, 1), Availability::Available { .. }));
    assert_eq!(reason(evaluate(&f, ActionId::CutGorse, 1)), "need an axe");
}

#[test]
fn pans_on_fires_drive_the_cooking_verbs() {
    let mut f = facts(vec![]);
    assert_eq!(reason(evaluate(&f, ActionId::PickUpPan, 1)), "no empty pan-on-fire to lift");
    if let Some(c) = f.near[2].as_mut() {
        c.items.push(ItemInstance::unique(
            ItemKind::CookingPan,
            800,
            None,
            ItemMetadata::PannedOnFire { contents: PanContents::Empty, fuel_seconds: 0 },
        ));
    }
    assert!(matches!(evaluate(&f, ActionId::PickUpPan, 1), Availability::Available { .. }));
    f.pack.contents.push(stack(ItemKind::Fish, 1));
    assert_eq!(reason(evaluate(&f, ActionId::CookFish, 1)), "need empty pan-on-fire");
}

#[test]
fn fighting_moves_need_breath_and_a_foe() {
    let mut f = facts(vec![]);
    assert_eq!(reason(evaluate(&f, ActionId::Grapple, 1)), "no foe adjacent");
    f.foe = Some(FoeFacts { wielded: false, grappled: false });
    assert!(matches!(evaluate(&f, ActionId::Grapple, 1), Availability::Available { cost_game_seconds: 0 }));
    assert_eq!(reason(evaluate(&f, ActionId::Disarm, 1)), "foe is unarmed");
    assert_eq!(reason(evaluate(&f, ActionId::Throw, 1)), "grapple them first");
    f.stamina_for_heavy = false;
    assert_eq!(reason(evaluate(&f, ActionId::Throw, 1)), "winded");
}

#[test]
fn aiming_needs_a_ranged_weapon_and_its_ammo() {
    let mut f = facts(vec![]);
    assert_eq!(reason(evaluate(&f, ActionId::Aim, 1)), "no ranged weapon equipped");
    f.ranged_ammo = Some(String::new());
    assert!(matches!(evaluate(&f, ActionId::Aim, 1), Availability::Available { cost_game_seconds: 0 }));
    f.ranged_ammo = Some("moonbeam".to_string());
    assert_eq!(reason(evaluate(&f, ActionId::Aim, 1)), "ammo kind unknown");
}

fn spawn_facts() -> ActionFacts {
    let mut f = facts(vec![]);
    f.pack = starting_pack();
    f
}

fn seconds(id: ActionId) -> u32 {
    id.move_cost() / MOVES_PER_SECOND
}

#[test]
fn pickup_available_on_seeded_debris_cell() {
    let mut f = spawn_facts();
    if let Some(c) = f.near[4].as_mut() {
        c.items.clear();
        c.items.push(ItemInstance::stack(ItemKind::Twig, 3, 5, None, ItemMetadata::Plain));
    }
    match evaluate(&f, ActionId::Pickup, seconds(ActionId::Pickup)) {
        Availability::Available { cost_game_seconds } => assert_eq!(cost_game_seconds, seconds(ActionId::Pickup)),
        other => panic!("expected Available, got {:?}", other),
    }
}

#[test]
fn pickup_unavailable_on_empty_cell() {
    let f = spawn_facts();
    assert!(matches!(
        evaluate(&f, ActionId::Pickup, seconds(ActionId::Pickup)),
        Availability::Unavailable { reason: "nothing here" }
    ));
}

#[test]
fn pickup_unavailable_when_pack_full() {
    let mut f = spawn_facts();
    if let Some(c) = f.near[4].as_mut() {
        c.items.clear();
        c.items.push(ItemInstance::stack(ItemKind::Stone, 1, 10_000, None, ItemMetadata::Plain));
    }
    assert!(matches!(
        evaluate(&f, ActionId::Pickup, seconds(ActionId::Pickup)),
        Availability::Unavailable { reason: "pack too full" }
    ));
}

#[test]
fn every_verb_evaluates_to_a_real_reason_or_available() {
    let f = spawn_facts();
    for action in all_actions() {
        match evaluate(&f, action.id, seconds(action.id)) {
            Availability::Available { .. } => {}
            Availability::Unavailable { reason } => {
                assert!(!reason.is_empty(), "{:?} returned an empty unavail reason", action.id)
            }
        }
    }
}

#[test]
fn eat_ration_available_at_spawn() {
    let f = spawn_facts();
    match evaluate(&f, ActionId::EatRation, seconds(ActionId::EatRation)) {
        Availability::Available { cost_game_seconds } => assert_eq!(cost_game_seconds, seconds(ActionId::EatRation)),
        other => panic!("expected Available, got {:?}", other),
    }
}

#[test]
fn start_fire_unavailable_without_materials() {
    let f = spawn_facts();
    match evaluate(&f, ActionId::StartFire, seconds(ActionId::StartFire)) {
        Availability::Unavailable { reason } => assert!(!reason.is_empty()),
        other => panic!("expected Unavailable, got {:?}", other),
    }
}

#[test]
fn start_fire_available_with_full_materials_and_flint() {
    let mut f = spawn_facts();
    if let Some(c) = f.near[4].as_mut() {
        c.items.clear();
        c.items.push(ItemInstance::stack(ItemKind::Twig, 3, 5, None, ItemMetadata::Plain));
        c.items.push(ItemInstance::stack(ItemKind::Stick, 5, 50, None, ItemMetadata::Plain));
        c.items.push(ItemInstance::stack(ItemKind::Firewood, 3, 500, None, ItemMetadata::Plain));
    }
    match evaluate(&f, ActionId::StartFire, seconds(ActionId::StartFire)) {
        Availability::Available { cost_game_seconds } => assert_eq!(cost_game_seconds, seconds(ActionId::StartFire)),
        other => panic!("expected Available, got {:?}", other),
    }
}

#[test]
fn feed_fire_unavailable_without_lit_fire_on_cell() {
    let mut f = spawn_facts();
    if let Some(c) = f.near[4].as_mut() {
        c.items.clear();
        c.items.push(ItemInstance::stack(ItemKind::Firewood, 3, 500, None, ItemMetadata::Plain));
    }
    match evaluate(&f, ActionId::FeedFire, seconds(ActionId::FeedFire)) {
        Availability::Unavailable { reason } => assert_eq!(reason, "no fire here to feed"),
        other => panic!("expected Unavailable, got {:?}", other),
    }
}

#[test]
fn fishing_unavailable_without_adjacent_pond() {
    let f = spawn_facts();
    match evaluate(&f, ActionId::Fishing, seconds(ActionId::Fishing)) {
        Availability::Unavailable { reason } => assert_eq!(reason, "no pond adjacent"),
        other => panic!("expected Unavailable, got {:?}", other),
    }
}

#[test]
fn eat_herb_unavailable_until_pickup_lands() {
    let f = spawn_facts();
    match evaluate(&f, ActionId::EatHerb, seconds(ActionId::EatHerb)) {
        Availability::Unavailable { reason } => assert_eq!(reason, "no herbs in pack"),
        other => panic!("got {:?}", other),
    }
}
