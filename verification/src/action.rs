//! Context-action registry: the verbs the player picks from the command
//! menu, their base costs in moves, their save keys, and the availability
//! verdict the menu shows for each.

use vstd::prelude::*;

use crate::crafting::{
    cook_progress, seasonings_has, spec_cook_progress, CookProgress, ModifierTag, PanContents,
};
use crate::flora::Decoration;
use crate::items::{holds_kind, has_water, instance_weight, contents_weight, item_from_key, stack_sum, ItemInstance, ItemKind, ItemMetadata, Pack};
use crate::text::str_eq;
use crate::world::{CellState, TerrainKind};

verus! {

#[derive(Clone, Copy, Debug, PartialEq, Eq, Structural)]
pub enum ActionId {
    Pickup,
    DrinkFromStream,
    FillWaterskin,
    DrinkWaterskin,
    EatRation,
    EatHerb,
    ChopTree,
    PickHerb,
    PitchTent,
    UnrollBedroll,
    SetupCamp,
    StartFire,
    FeedFire,
    Sleep,
    Fishing,
    /// Move a cooking pan from the pack onto an adjacent lit fire; the fire's fuel
    /// moves into a single pan-on-fire item on that cell.
    PlacePan,
    /// Reverse of `PlacePan`: lift an empty pan-on-fire back into the pack; the
    /// remaining fuel becomes lit firewood on the cell.
    PickUpPan,
    /// 5 s setup that puts a fish from the pack into a reachable empty pan-on-fire.
    CookFish,
    /// Add a herb to a pan that is cooking; sets the herb seasoning bit.
    SeasonPan,
    /// Lift a finished cook out of the pan into the pack (or onto the player's
    /// cell when the pack is full); the pan returns to empty.
    TakeFromPan,
    HarvestMoss,
    CutFern,
    DigFern,
    CutGorse,
    CutBracken,
    /// Open the ranged-targeting cursor; the shot itself is resolved elsewhere.
    Aim,
    /// Wrestling grapple on an adjacent hostile.
    Grapple,
    /// Throw a grappled hostile to the ground.
    Throw,
    /// Knock the wielded weapon out of an adjacent hostile's hand.
    Disarm,
}

/// Base cost of a verb in moves (100 moves = 1 game-second at baseline speed).
pub open spec fn action_cost(a: ActionId) -> int {
    match a {
        ActionId::Pickup => 300,
        ActionId::DrinkFromStream => 1000,
        ActionId::FillWaterskin => 2000,
        ActionId::DrinkWaterskin => 500,
        ActionId::EatRation => 1000,
        ActionId::EatHerb => 500,
        ActionId::ChopTree => 12000,
        ActionId::PickHerb => 1000,
        ActionId::PitchTent => 30000,
        ActionId::UnrollBedroll => 3000,
        ActionId::SetupCamp => 33_000,
        ActionId::StartFire => 6000,
        ActionId::FeedFire => 1500,
        ActionId::Sleep => 0,
        ActionId::Fishing => 60000,
        ActionId::PlacePan => 500,
        ActionId::PickUpPan => 500,
        ActionId::CookFish => 500,
        ActionId::SeasonPan => 500,
        ActionId::TakeFromPan => 500,
        ActionId::HarvestMoss => 3000,
        ActionId::CutFern => 1000,
        ActionId::DigFern => 6000,
        ActionId::CutGorse => 12000,
        ActionId::CutBracken => 2000,
        ActionId::Aim => 0,
        ActionId::Grapple => 200,
        ActionId::Throw => 150,
        ActionId::Disarm => 150,
    }
}

/// Save key of a verb.
pub open spec fn action_key(a: ActionId) -> Seq<char> {
    match a {
        ActionId::Pickup => "pickup"@,
        ActionId::DrinkFromStream => "drink_from_stream"@,
        ActionId::FillWaterskin => "fill_waterskin"@,
        ActionId::DrinkWaterskin => "drink_waterskin"@,
        ActionId::EatRation => "eat_ration"@,
        ActionId::EatHerb => "eat_herb"@,
        ActionId::ChopTree => "chop_tree"@,
        ActionId::PickHerb => "pick_herb"@,
        ActionId::PitchTent => "pitch_tent"@,
        ActionId::UnrollBedroll => "unroll_bedroll"@,
        ActionId::SetupCamp => "setup_camp"@,
        ActionId::StartFire => "start_fire"@,
        ActionId::FeedFire => "feed_fire"@,
        ActionId::Sleep => "sleep"@,
        ActionId::Fishing => "fishing"@,
        ActionId::PlacePan => "place_pan"@,
        ActionId::PickUpPan => "pick_up_pan"@,
        ActionId::CookFish => "cook_fish"@,
        ActionId::SeasonPan => "season_pan"@,
        ActionId::TakeFromPan => "take_from_pan"@,
        ActionId::HarvestMoss => "harvest_moss"@,
        ActionId::CutFern => "cut_fern"@,
        ActionId::DigFern => "dig_fern"@,
        ActionId::CutGorse => "cut_gorse"@,
        ActionId::CutBracken => "cut_bracken"@,
        ActionId::Aim => "aim"@,
        ActionId::Grapple => "grapple"@,
        ActionId::Throw => "throw"@,
        ActionId::Disarm => "disarm"@,
    }
}

/// The verb whose save key is `s`, if any.
pub open spec fn action_from_key(s: Seq<char>) -> Option<ActionId> {
    if s == "pickup"@ {
        Some(ActionId::Pickup)
    } else if s == "drink_from_stream"@ {
        Some(ActionId::DrinkFromStream)
    } else if s == "fill_waterskin"@ {
        Some(ActionId::FillWaterskin)
    } else if s == "drink_waterskin"@ {
        Some(ActionId::DrinkWaterskin)
    } else if s == "eat_ration"@ {
        Some(ActionId::EatRation)
    } else if s == "eat_herb"@ {
        Some(ActionId::EatHerb)
    } else if s == "chop_tree"@ {
        Some(ActionId::ChopTree)
    } else if s == "pick_herb"@ {
        Some(ActionId::PickHerb)
    } else if s == "pitch_tent"@ {
        Some(ActionId::PitchTent)
    } else if s == "unroll_bedroll"@ {
        Some(ActionId::UnrollBedroll)
    } else if s == "setup_camp"@ {
        Some(ActionId::SetupCamp)
    } else if s == "start_fire"@ {
        Some(ActionId::StartFire)
    } else if s == "feed_fire"@ {
        Some(ActionId::FeedFire)
    } else if s == "sleep"@ {
        Some(ActionId::Sleep)
    } else if s == "fishing"@ {
        Some(ActionId::Fishing)
    } else if s == "place_pan"@ {
        Some(ActionId::PlacePan)
    } else if s == "pick_up_pan"@ {
        Some(ActionId::PickUpPan)
    } else if s == "cook_fish"@ {
        Some(ActionId::CookFish)
    } else if s == "season_pan"@ {
        Some(ActionId::SeasonPan)
    } else if s == "take_from_pan"@ {
        Some(ActionId::TakeFromPan)
    } else if s == "harvest_moss"@ {
        Some(ActionId::HarvestMoss)
    } else if s == "cut_fern"@ {
        Some(ActionId::CutFern)
    } else if s == "dig_fern"@ {
        Some(ActionId::DigFern)
    } else if s == "cut_gorse"@ {
        Some(ActionId::CutGorse)
    } else if s == "cut_bracken"@ {
        Some(ActionId::CutBracken)
    } else if s == "aim"@ {
        Some(ActionId::Aim)
    } else if s == "grapple"@ {
        Some(ActionId::Grapple)
    } else if s == "throw"@ {
        Some(ActionId::Throw)
    } else if s == "disarm"@ {
        Some(ActionId::Disarm)
    } else {
        None
    }
}

impl ActionId {
    /// Base cost in moves before need penalties. `SetupCamp` costs the sum
    /// of `PitchTent` and `UnrollBedroll`; `Sleep` and `Aim` cost nothing
    /// here (sleep works out its own duration, aim is free).
    pub fn move_cost(self) -> (r: u32)
        ensures
            r == action_cost(self),
        decreases (if self is SetupCamp { 1nat } else { 0nat }),
    {
        match self {
            ActionId::Pickup => 300,
            ActionId::DrinkFromStream => 1000,
            ActionId::FillWaterskin => 2000,
            ActionId::DrinkWaterskin => 500,
            ActionId::EatRation => 1000,
            ActionId::EatHerb => 500,
            ActionId::ChopTree => 12000,
            ActionId::PickHerb => 1000,
            ActionId::PitchTent => 30000,
            ActionId::UnrollBedroll => 3000,
            ActionId::SetupCamp => Self::PitchTent.move_cost() + Self::UnrollBedroll.move_cost(),
            ActionId::StartFire => 6000,
            ActionId::FeedFire => 1500,
            ActionId::Sleep => 0,
            ActionId::Fishing => 60000,
            ActionId::PlacePan => 500,
            ActionId::PickUpPan => 500,
            ActionId::CookFish => 500,
            ActionId::SeasonPan => 500,
            ActionId::TakeFromPan => 500,
            ActionId::HarvestMoss => 3000,
            ActionId::CutFern => 1000,
            ActionId::DigFern => 6000,
            ActionId::CutGorse => 12000,
            ActionId::CutBracken => 2000,
            ActionId::Aim => 0,
            ActionId::Grapple => 200,
            ActionId::Throw => 150,
            ActionId::Disarm => 150,
        }
    }

    /// Stable key for save round-tripping.
    pub fn save_key(self) -> (r: &'static str)
        ensures
            r@ == action_key(self),
    {
        match self {
            ActionId::Pickup => "pickup",
            ActionId::DrinkFromStream => "drink_from_stream",
            ActionId::FillWaterskin => "fill_waterskin",
            ActionId::DrinkWaterskin => "drink_waterskin",
            ActionId::EatRation => "eat_ration",
            ActionId::EatHerb => "eat_herb",
            ActionId::ChopTree => "chop_tree",
            ActionId::PickHerb => "pick_herb",
            ActionId::PitchTent => "pitch_tent",
            ActionId::UnrollBedroll => "unroll_bedroll",
            ActionId::SetupCamp => "setup_camp",
            ActionId::StartFire => "start_fire",
            ActionId::FeedFire => "feed_fire",
            ActionId::Sleep => "sleep",
            ActionId::Fishing => "fishing",
            ActionId::PlacePan => "place_pan",
            ActionId::PickUpPan => "pick_up_pan",
            ActionId::CookFish => "cook_fish",
            ActionId::SeasonPan => "season_pan",
            ActionId::TakeFromPan => "take_from_pan",
            ActionId::HarvestMoss => "harvest_moss",
            ActionId::CutFern => "cut_fern",
            ActionId::DigFern => "dig_fern",
            ActionId::CutGorse => "cut_gorse",
            ActionId::CutBracken => "cut_bracken",
            ActionId::Aim => "aim",
            ActionId::Grapple => "grapple",
            ActionId::Throw => "throw",
            ActionId::Disarm => "disarm",
        }
    }

    /// The verb saved under `s`; `None` for an unknown key.
    pub fn from_save_key(s: &str) -> (r: Option<Self>)
        ensures
            r == action_from_key(s@),
    {
        if str_eq(s, "pickup") {
            return Some(ActionId::Pickup);
        }
        if str_eq(s, "drink_from_stream") {
            return Some(ActionId::DrinkFromStream);
        }
        if str_eq(s, "fill_waterskin") {
            return Some(ActionId::FillWaterskin);
        }
        if str_eq(s, "drink_waterskin") {
            return Some(ActionId::DrinkWaterskin);
        }
        if str_eq(s, "eat_ration") {
            return Some(ActionId::EatRation);
        }
        if str_eq(s, "eat_herb") {
            return Some(ActionId::EatHerb);
        }
        if str_eq(s, "chop_tree") {
            return Some(ActionId::ChopTree);
        }
        if str_eq(s, "pick_herb") {
            return Some(ActionId::PickHerb);
        }
        if str_eq(s, "pitch_tent") {
            return Some(ActionId::PitchTent);
        }
        if str_eq(s, "unroll_bedroll") {
            return Some(ActionId::UnrollBedroll);
        }
        if str_eq(s, "setup_camp") {
            return Some(ActionId::SetupCamp);
        }
        if str_eq(s, "start_fire") {
            return Some(ActionId::StartFire);
        }
        if str_eq(s, "feed_fire") {
            return Some(ActionId::FeedFire);
        }
        if str_eq(s, "sleep") {
            return Some(ActionId::Sleep);
        }
        if str_eq(s, "fishing") {
            return Some(ActionId::Fishing);
        }
        if str_eq(s, "place_pan") {
            return Some(ActionId::PlacePan);
        }
        if str_eq(s, "pick_up_pan") {
            return Some(ActionId::PickUpPan);
        }
        if str_eq(s, "cook_fish") {
            return Some(ActionId::CookFish);
        }
        if str_eq(s, "season_pan") {
            return Some(ActionId::SeasonPan);
        }
        if str_eq(s, "take_from_pan") {
            return Some(ActionId::TakeFromPan);
        }
        if str_eq(s, "harvest_moss") {
            return Some(ActionId::HarvestMoss);
        }
        if str_eq(s, "cut_fern") {
            return Some(ActionId::CutFern);
        }
        if str_eq(s, "dig_fern") {
            return Some(ActionId::DigFern);
        }
        if str_eq(s, "cut_gorse") {
            return Some(ActionId::CutGorse);
        }
        if str_eq(s, "cut_bracken") {
            return Some(ActionId::CutBracken);
        }
        if str_eq(s, "aim") {
            return Some(ActionId::Aim);
        }
        if str_eq(s, "grapple") {
            return Some(ActionId::Grapple);
        }
        if str_eq(s, "throw") {
            return Some(ActionId::Throw);
        }
        if str_eq(s, "disarm") {
            return Some(ActionId::Disarm);
        }
        None
    }
}

/// Every verb's save key leads back to that verb.
pub proof fn law_action_key_round_trip(a: ActionId)
    ensures
        action_from_key(action_key(a)) == Some(a),
{
    match a {
        ActionId::Pickup => {
            reveal_strlit("pickup");
        },
        ActionId::DrinkFromStream => {
            reveal_strlit("drink_from_stream");
            reveal_strlit("pickup");
            assert("drink_from_stream"@.len() != "pickup"@.len());
        },
        ActionId::FillWaterskin => {
            reveal_strlit("fill_waterskin");
            reveal_strlit("pickup");
            assert("fill_waterskin"@.len() != "pickup"@.len());
            reveal_strlit("drink_from_stream");
            assert("fill_waterskin"@.len() != "drink_from_stream"@.len());
        },
        ActionId::DrinkWaterskin => {
            reveal_strlit("drink_waterskin");
            reveal_strlit("pickup");
            assert("drink_waterskin"@.len() != "pickup"@.len());
            reveal_strlit("drink_from_stream");
            assert("drink_waterskin"@.len() != "drink_from_stream"@.len());
            reveal_strlit("fill_waterskin");
            assert("drink_waterskin"@.len() != "fill_waterskin"@.len());
        },
        ActionId::EatRation => {
            reveal_strlit("eat_ration");
            reveal_strlit("pickup");
            assert("eat_ration"@.len() != "pickup"@.len());
            reveal_strlit("drink_from_stream");
            assert("eat_ration"@.len() != "drink_from_stream"@.len());
            reveal_strlit("fill_waterskin");
            assert("eat_ration"@.len() != "fill_waterskin"@.len());
            reveal_strlit("drink_waterskin");
            assert("eat_ration"@.len() != "drink_waterskin"@.len());
        },
        ActionId::EatHerb => {
            reveal_strlit("eat_herb");
            reveal_strlit("pickup");
            assert("eat_herb"@.len() != "pickup"@.len());
            reveal_strlit("drink_from_stream");
            assert("eat_herb"@.len() != "drink_from_stream"@.len());
            reveal_strlit("fill_waterskin");
            assert("eat_herb"@.len() != "fill_waterskin"@.len());
            reveal_strlit("drink_waterskin");
            assert("eat_herb"@.len() != "drink_waterskin"@.len());
            reveal_strlit("eat_ration");
            assert("eat_herb"@.len() != "eat_ration"@.len());
        },
        ActionId::ChopTree => {
            reveal_strlit("chop_tree");
            reveal_strlit("pickup");
            assert("chop_tree"@.len() != "pickup"@.len());
            reveal_strlit("drink_from_stream");
            assert("chop_tree"@.len() != "drink_from_stream"@.len());
            reveal_strlit("fill_waterskin");
            assert("chop_tree"@.len() != "fill_waterskin"@.len());
            reveal_strlit("drink_waterskin");
            assert("chop_tree"@.len() != "drink_waterskin"@.len());
            reveal_strlit("eat_ration");
            assert("chop_tree"@.len() != "eat_ration"@.len());
            reveal_strlit("eat_herb");
            assert("chop_tree"@.len() != "eat_herb"@.len());
        },
        ActionId::PickHerb => {
            reveal_strlit("pick_herb");
            reveal_strlit("pickup");
            assert("pick_herb"@.len() != "pickup"@.len());
            reveal_strlit("drink_from_stream");
            assert("pick_herb"@.len() != "drink_from_stream"@.len());
            reveal_strlit("fill_waterskin");
            assert("pick_herb"@.len() != "fill_waterskin"@.len());
            reveal_strlit("drink_waterskin");
            assert("pick_herb"@.len() != "drink_waterskin"@.len());
            reveal_strlit("eat_ration");
            assert("pick_herb"@.len() != "eat_ration"@.len());
            reveal_strlit("eat_herb");
            assert("pick_herb"@.len() != "eat_herb"@.len());
            reveal_strlit("chop_tree");
            assert("pick_herb"@[0] != "chop_tree"@[0]);
        },
        ActionId::PitchTent => {
            reveal_strlit("pitch_tent");
            reveal_strlit("pickup");
            assert("pitch_tent"@.len() != "pickup"@.len());
            reveal_strlit("drink_from_stream");
            assert("pitch_tent"@.len() != "drink_from_stream"@.len());
            reveal_strlit("fill_waterskin");
            assert("pitch_tent"@.len() != "fill_waterskin"@.len());
            reveal_strlit("drink_waterskin");
            assert("pitch_tent"@.len() != "drink_waterskin"@.len());
            reveal_strlit("eat_ration");
            assert("pitch_tent"@[0] != "eat_ration"@[0]);
            reveal_strlit("eat_herb");
            assert("pitch_tent"@.len() != "eat_herb"@.len());
            reveal_strlit("chop_tree");
            assert("pitch_tent"@.len() != "chop_tree"@.len());
            reveal_strlit("pick_herb");
            assert("pitch_tent"@.len() != "pick_herb"@.len());
        },
        ActionId::UnrollBedroll => {
            reveal_strlit("unroll_bedroll");
            reveal_strlit("pickup");
            assert("unroll_bedroll"@.len() != "pickup"@.len());
            reveal_strlit("drink_from_stream");
            assert("unroll_bedroll"@.len() != "drink_from_stream"@.len());
            reveal_strlit("fill_waterskin");
            assert("unroll_bedroll"@[0] != "fill_waterskin"@[0]);
            reveal_strlit("drink_waterskin");
            assert("unroll_bedroll"@.len() != "drink_waterskin"@.len());
            reveal_strlit("eat_ration");
            assert("unroll_bedroll"@.len() != "eat_ration"@.len());
            reveal_strlit("eat_herb");
            assert("unroll_bedroll"@.len() != "eat_herb"@.len());
            reveal_strlit("chop_tree");
            assert("unroll_bedroll"@.len() != "chop_tree"@.len());
            reveal_strlit("pick_herb");
            assert("unroll_bedroll"@.len() != "pick_herb"@.len());
            reveal_strlit("pitch_tent");
            assert("unroll_bedroll"@.len() != "pitch_tent"@.len());
        },
        ActionId::SetupCamp => {
            reveal_strlit("setup_camp");
            reveal_strlit("pickup");
            assert("setup_camp"@.len() != "pickup"@.len());
            reveal_strlit("drink_from_stream");
            assert("setup_camp"@.len() != "drink_from_stream"@.len());
            reveal_strlit("fill_waterskin");
            assert("setup_camp"@.len() != "fill_waterskin"@.len());
            reveal_strlit("drink_waterskin");
            assert("setup_camp"@.len() != "drink_waterskin"@.len());
            reveal_strlit("eat_ration");
            assert("setup_camp"@[0] != "eat_ration"@[0]);
            reveal_strlit("eat_herb");
            assert("setup_camp"@.len() != "eat_herb"@.len());
            reveal_strlit("chop_tree");
            assert("setup_camp"@.len() != "chop_tree"@.len());
            reveal_strlit("pick_herb");
            assert("setup_camp"@.len() != "pick_herb"@.len());
            reveal_strlit("pitch_tent");
            assert("setup_camp"@[0] != "pitch_tent"@[0]);
            reveal_strlit("unroll_bedroll");
            assert("setup_camp"@.len() != "unroll_bedroll"@.len());
        },
        ActionId::StartFire => {
            reveal_strlit("start_fire");
            reveal_strlit("pickup");
            assert("start_fire"@.len() != "pickup"@.len());
            reveal_strlit("drink_from_stream");
            assert("start_fire"@.len() != "drink_from_stream"@.len());
            reveal_strlit("fill_waterskin");
            assert("start_fire"@.len() != "fill_waterskin"@.len());
            reveal_strlit("drink_waterskin");
            assert("start_fire"@.len() != "drink_waterskin"@.len());
            reveal_strlit("eat_ration");
            assert("start_fire"@[0] != "eat_ration"@[0]);
            reveal_strlit("eat_herb");
            assert("start_fire"@.len() != "eat_herb"@.len());
            reveal_strlit("chop_tree");
            assert("start_fire"@.len() != "chop_tree"@.len());
            reveal_strlit("pick_herb");
            assert("start_fire"@.len() != "pick_herb"@.len());
            reveal_strlit("pitch_tent");
            assert("start_fire"@[0] != "pitch_tent"@[0]);
            reveal_strlit("unroll_bedroll");
            assert("start_fire"@.len() != "unroll_bedroll"@.len());
            reveal_strlit("setup_camp");
            assert("start_fire"@[1] != "setup_camp"@[1]);
        },
        ActionId::FeedFire => {
            reveal_strlit("feed_fire");
            reveal_strlit("pickup");
            assert("feed_fire"@.len() != "pickup"@.len());
            reveal_strlit("drink_from_stream");
            assert("feed_fire"@.len() != "drink_from_stream"@.len());
            reveal_strlit("fill_waterskin");
            assert("feed_fire"@.len() != "fill_waterskin"@.len());
            reveal_strlit("drink_waterskin");
            assert("feed_fire"@.len() != "drink_waterskin"@.len());
            reveal_strlit("eat_ration");
            assert("feed_fire"@.len() != "eat_ration"@.len());
            reveal_strlit("eat_herb");
            assert("feed_fire"@.len() != "eat_herb"@.len());
            reveal_strlit("chop_tree");
            assert("feed_fire"@[0] != "chop_tree"@[0]);
            reveal_strlit("pick_herb");
            assert("feed_fire"@[0] != "pick_herb"@[0]);
            reveal_strlit("pitch_tent");
            assert("feed_fire"@.len() != "pitch_tent"@.len());
            reveal_strlit("unroll_bedroll");
            assert("feed_fire"@.len() != "unroll_bedroll"@.len());
            reveal_strlit("setup_camp");
            assert("feed_fire"@.len() != "setup_camp"@.len());
            reveal_strlit("start_fire");
            assert("feed_fire"@.len() != "start_fire"@.len());
        },
        ActionId::Sleep => {
            reveal_strlit("sleep");
            reveal_strlit("pickup");
            assert("sleep"@.len() != "pickup"@.len());
            reveal_strlit("drink_from_stream");
            assert("sleep"@.len() != "drink_from_stream"@.len());
            reveal_strlit("fill_waterskin");
            assert("sleep"@.len() != "fill_waterskin"@.len());
            reveal_strlit("drink_waterskin");
            assert("sleep"@.len() != "drink_waterskin"@.len());
            reveal_strlit("eat_ration");
            assert("sleep"@.len() != "eat_ration"@.len());
            reveal_strlit("eat_herb");
            assert("sleep"@.len() != "eat_herb"@.len());
            reveal_strlit("chop_tree");
            assert("sleep"@.len() != "chop_tree"@.len());
            reveal_strlit("pick_herb");
            assert("sleep"@.len() != "pick_herb"@.len());
            reveal_strlit("pitch_tent");
            assert("sleep"@.len() != "pitch_tent"@.len());
            reveal_strlit("unroll_bedroll");
            assert("sleep"@.len() != "unroll_bedroll"@.len());
            reveal_strlit("setup_camp");
            assert("sleep"@.len() != "setup_camp"@.len());
            reveal_strlit("start_fire");
            assert("sleep"@.len() != "start_fire"@.len());
            reveal_strlit("feed_fire");
            assert("sleep"@.len() != "feed_fire"@.len());
        },
        ActionId::Fishing => {
            reveal_strlit("fishing");
            reveal_strlit("pickup");
            assert("fishing"@.len() != "pickup"@.len());
            reveal_strlit("drink_from_stream");
            assert("fishing"@.len() != "drink_from_stream"@.len());
            reveal_strlit("fill_waterskin");
            assert("fishing"@.len() != "fill_waterskin"@.len());
            reveal_strlit("drink_waterskin");
            assert("fishing"@.len() != "drink_waterskin"@.len());
            reveal_strlit("eat_ration");
            assert("fishing"@.len() != "eat_ration"@.len());
            reveal_strlit("eat_herb");
            assert("fishing"@.len() != "eat_herb"@.len());
            reveal_strlit("chop_tree");
            assert("fishing"@.len() != "chop_tree"@.len());
            reveal_strlit("pick_herb");
            assert("fishing"@.len() != "pick_herb"@.len());
            reveal_strlit("pitch_tent");
            assert("fishing"@.len() != "pitch_tent"@.len());
            reveal_strlit("unroll_bedroll");
            assert("fishing"@.len() != "unroll_bedroll"@.len());
            reveal_strlit("setup_camp");
            assert("fishing"@.len() != "setup_camp"@.len());
            reveal_strlit("start_fire");
            assert("fishing"@.len() != "start_fire"@.len());
            reveal_strlit("feed_fire");
            assert("fishing"@.len() != "feed_fire"@.len());
            reveal_strlit("sleep");
            assert("fishing"@.len() != "sleep"@.len());
        },
        ActionId::PlacePan => {
            reveal_strlit("place_pan");
            reveal_strlit("pickup");
            assert("place_pan"@.len() != "pickup"@.len());
            reveal_strlit("drink_from_stream");
            assert("place_pan"@.len() != "drink_from_stream"@.len());
            reveal_strlit("fill_waterskin");
            assert("place_pan"@.len() != "fill_waterskin"@.len());
            reveal_strlit("drink_waterskin");
            assert("place_pan"@.len() != "drink_waterskin"@.len());
            reveal_strlit("eat_ration");
            assert("place_pan"@.len() != "eat_ration"@.len());
            reveal_strlit("eat_herb");
            assert("place_pan"@.len() != "eat_herb"@.len());
            reveal_strlit("chop_tree");
            assert("place_pan"@[0] != "chop_tree"@[0]);
            reveal_strlit("pick_herb");
            assert("place_pan"@[1] != "pick_herb"@[1]);
            reveal_strlit("pitch_tent");
            assert("place_pan"@.len() != "pitch_tent"@.len());
            reveal_strlit("unroll_bedroll");
            assert("place_pan"@.len() != "unroll_bedroll"@.len());
            reveal_strlit("setup_camp");
            assert("place_pan"@.len() != "setup_camp"@.len());
            reveal_strlit("start_fire");
            assert("place_pan"@.len() != "start_fire"@.len());
            reveal_strlit("feed_fire");
            assert("place_pan"@[0] != "feed_fire"@[0]);
            reveal_strlit("sleep");
            assert("place_pan"@.len() != "sleep"@.len());
            reveal_strlit("fishing");
            assert("place_pan"@.len() != "fishing"@.len());
        },
        ActionId::PickUpPan => {
            reveal_strlit("pick_up_pan");
            reveal_strlit("pickup");
            assert("pick_up_pan"@.len() != "pickup"@.len());
            reveal_strlit("drink_from_stream");
            assert("pick_up_pan"@.len() != "drink_from_stream"@.len());
            reveal_strlit("fill_waterskin");
            assert("pick_up_pan"@.len() != "fill_waterskin"@.len());
            reveal_strlit("drink_waterskin");
            assert("pick_up_pan"@.len() != "drink_waterskin"@.len());
            reveal_strlit("eat_ration");
            assert("pick_up_pan"@.len() != "eat_ration"@.len());
            reveal_strlit("eat_herb");
            assert("pick_up_pan"@.len() != "eat_herb"@.len());
            reveal_strlit("chop_tree");
            assert("pick_up_pan"@.len() != "chop_tree"@.len());
            reveal_strlit("pick_herb");
            assert("pick_up_pan"@.len() != "pick_herb"@.len());
            reveal_strlit("pitch_tent");
            assert("pick_up_pan"@.len() != "pitch_tent"@.len());
            reveal_strlit("unroll_bedroll");
            assert("pick_up_pan"@.len() != "unroll_bedroll"@.len());
            reveal_strlit("setup_camp");
            assert("pick_up_pan"@.len() != "setup_camp"@.len());
            reveal_strlit("start_fire");
            assert("pick_up_pan"@.len() != "start_fire"@.len());
            reveal_strlit("feed_fire");
            assert("pick_up_pan"@.len() != "feed_fire"@.len());
            reveal_strlit("sleep");
            assert("pick_up_pan"@.len() != "sleep"@.len());
            reveal_strlit("fishing");
            assert("pick_up_pan"@.len() != "fishing"@.len());
            reveal_strlit("place_pan");
            assert("pick_up_pan"@.len() != "place_pan"@.len());
        },
        ActionId::CookFish => {
            reveal_strlit("cook_fish");
            reveal_strlit("pickup");
            assert("cook_fish"@.len() != "pickup"@.len());
            reveal_strlit("drink_from_stream");
            assert("cook_fish"@.len() != "drink_from_stream"@.len());
            reveal_strlit("fill_waterskin");
            assert("cook_fish"@.len() != "fill_waterskin"@.len());
            reveal_strlit("drink_waterskin");
            assert("cook_fish"@.len() != "drink_waterskin"@.len());
            reveal_strlit("eat_ration");
            assert("cook_fish"@.len() != "eat_ration"@.len());
            reveal_strlit("eat_herb");
            assert("cook_fish"@.len() != "eat_herb"@.len());
            reveal_strlit("chop_tree");
            assert("cook_fish"@[1] != "chop_tree"@[1]);
            reveal_strlit("pick_herb");
            assert("cook_fish"@[0] != "pick_herb"@[0]);
            reveal_strlit("pitch_tent");
            assert("cook_fish"@.len() != "pitch_tent"@.len());
            reveal_strlit("unroll_bedroll");
            assert("cook_fish"@.len() != "unroll_bedroll"@.len());
            reveal_strlit("setup_camp");
            assert("cook_fish"@.len() != "setup_camp"@.len());
            reveal_strlit("start_fire");
            assert("cook_fish"@.len() != "start_fire"@.len());
            reveal_strlit("feed_fire");
            assert("cook_fish"@[0] != "feed_fire"@[0]);
            reveal_strlit("sleep");
            assert("cook_fish"@.len() != "sleep"@.len());
            reveal_strlit("fishing");
            assert("cook_fish"@.len() != "fishing"@.len());
            reveal_strlit("place_pan");
            assert("cook_fish"@[0] != "place_pan"@[0]);
            reveal_strlit("pick_up_pan");
            assert("cook_fish"@.len() != "pick_up_pan"@.len());
        },
        ActionId::SeasonPan => {
            reveal_strlit("season_pan");
            reveal_strlit("pickup");
            assert("season_pan"@.len() != "pickup"@.len());
            reveal_strlit("drink_from_stream");
            assert("season_pan"@.len() != "drink_from_stream"@.len());
            reveal_strlit("fill_waterskin");
            assert("season_pan"@.len() != "fill_waterskin"@.len());
            reveal_strlit("drink_waterskin");
            assert("season_pan"@.len() != "drink_waterskin"@.len());
            reveal_strlit("eat_ration");
            assert("season_pan"@[0] != "eat_ration"@[0]);
            reveal_strlit("eat_herb");
            assert("season_pan"@.len() != "eat_herb"@.len());
            reveal_strlit("chop_tree");
            assert("season_pan"@.len() != "chop_tree"@.len());
            reveal_strlit("pick_herb");
            assert("season_pan"@.len() != "pick_herb"@.len());
            reveal_strlit("pitch_tent");
            assert("season_pan"@[0] != "pitch_tent"@[0]);
            reveal_strlit("unroll_bedroll");
            assert("season_pan"@.len() != "unroll_bedroll"@.len());
            reveal_strlit("setup_camp");
            assert("season_pan"@[2] != "setup_camp"@[2]);
            reveal_strlit("start_fire");
            assert("season_pan"@[1] != "start_fire"@[1]);
            reveal_strlit("feed_fire");
            assert("season_pan"@.len() != "feed_fire"@.len());
            reveal_strlit("sleep");
            assert("season_pan"@.len() != "sleep"@.len());
            reveal_strlit("fishing");
            assert("season_pan"@.len() != "fishing"@.len());
            reveal_strlit("place_pan");
            assert("season_pan"@.len() != "place_pan"@.len());
            reveal_strlit("pick_up_pan");
            assert("season_pan"@.len() != "pick_up_pan"@.len());
            reveal_strlit("cook_fish");
            assert("season_pan"@.len() != "cook_fish"@.len());
        },
        ActionId::TakeFromPan => {
            reveal_strlit("take_from_pan");
            reveal_strlit("pickup");
            assert("take_from_pan"@.len() != "pickup"@.len());
            reveal_strlit("drink_from_stream");
            assert("take_from_pan"@.len() != "drink_from_stream"@.len());
            reveal_strlit("fill_waterskin");
            assert("take_from_pan"@.len() != "fill_waterskin"@.len());
            reveal_strlit("drink_waterskin");
            assert("take_from_pan"@.len() != "drink_waterskin"@.len());
            reveal_strlit("eat_ration");
            assert("take_from_pan"@.len() != "eat_ration"@.len());
            reveal_strlit("eat_herb");
            assert("take_from_pan"@.len() != "eat_herb"@.len());
            reveal_strlit("chop_tree");
            assert("take_from_pan"@.len() != "chop_tree"@.len());
            reveal_strlit("pick_herb");
            assert("take_from_pan"@.len() != "pick_herb"@.len());
            reveal_strlit("pitch_tent");
            assert("take_from_pan"@.len() != "pitch_tent"@.len());
            reveal_strlit("unroll_bedroll");
            assert("take_from_pan"@.len() != "unroll_bedroll"@.len());
            reveal_strlit("setup_camp");
            assert("take_from_pan"@.len() != "setup_camp"@.len());
            reveal_strlit("start_fire");
            assert("take_from_pan"@.len() != "start_fire"@.len());
            reveal_strlit("feed_fire");
            assert("take_from_pan"@.len() != "feed_fire"@.len());
            reveal_strlit("sleep");
            assert("take_from_pan"@.len() != "sleep"@.len());
            reveal_strlit("fishing");
            assert("take_from_pan"@.len() != "fishing"@.len());
            reveal_strlit("place_pan");
            assert("take_from_pan"@.len() != "place_pan"@.len());
            reveal_strlit("pick_up_pan");
            assert("take_from_pan"@.len() != "pick_up_pan"@.len());
            reveal_strlit("cook_fish");
            assert("take_from_pan"@.len() != "cook_fish"@.len());
            reveal_strlit("season_pan");
            assert("take_from_pan"@.len() != "season_pan"@.len());
        },
        ActionId::HarvestMoss => {
            reveal_strlit("harvest_moss");
            reveal_strlit("pickup");
            assert("harvest_moss"@.len() != "pickup"@.len());
            reveal_strlit("drink_from_stream");
            assert("harvest_moss"@.len() != "drink_from_stream"@.len());
            reveal_strlit("fill_waterskin");
            assert("harvest_moss"@.len() != "fill_waterskin"@.len());
            reveal_strlit("drink_waterskin");
            assert("harvest_moss"@.len() != "drink_waterskin"@.len());
            reveal_strlit("eat_ration");
            assert("harvest_moss"@.len() != "eat_ration"@.len());
            reveal_strlit("eat_herb");
            assert("harvest_moss"@.len() != "eat_herb"@.len());
            reveal_strlit("chop_tree");
            assert("harvest_moss"@.len() != "chop_tree"@.len());
            reveal_strlit("pick_herb");
            assert("harvest_moss"@.len() != "pick_herb"@.len());
            reveal_strlit("pitch_tent");
            assert("harvest_moss"@.len() != "pitch_tent"@.len());
            reveal_strlit("unroll_bedroll");
            assert("harvest_moss"@.len() != "unroll_bedroll"@.len());
            reveal_strlit("setup_camp");
            assert("harvest_moss"@.len() != "setup_camp"@.len());
            reveal_strlit("start_fire");
            assert("harvest_moss"@.len() != "start_fire"@.len());
            reveal_strlit("feed_fire");
            assert("harvest_moss"@.len() != "feed_fire"@.len());
            reveal_strlit("sleep");
            assert("harvest_moss"@.len() != "sleep"@.len());
            reveal_strlit("fishing");
            assert("harvest_moss"@.len() != "fishing"@.len());
            reveal_strlit("place_pan");
            assert("harvest_moss"@.len() != "place_pan"@.len());
            reveal_strlit("pick_up_pan");
            assert("harvest_moss"@.len() != "pick_up_pan"@.len());
            reveal_strlit("cook_fish");
            assert("harvest_moss"@.len() != "cook_fish"@.len());
            reveal_strlit("season_pan");
            assert("harvest_moss"@.len() != "season_pan"@.len());
            reveal_strlit("take_from_pan");
            assert("harvest_moss"@.len() != "take_from_pan"@.len());
        },
        ActionId::CutFern => {
            reveal_strlit("cut_fern");
            reveal_strlit("pickup");
            assert("cut_fern"@.len() != "pickup"@.len());
            reveal_strlit("drink_from_stream");
            assert("cut_fern"@.len() != "drink_from_stream"@.len());
            reveal_strlit("fill_waterskin");
            assert("cut_fern"@.len() != "fill_waterskin"@.len());
            reveal_strlit("drink_waterskin");
            assert("cut_fern"@.len() != "drink_waterskin"@.len());
            reveal_strlit("eat_ration");
            assert("cut_fern"@.len() != "eat_ration"@.len());
            reveal_strlit("eat_herb");
            assert("cut_fern"@[0] != "eat_herb"@[0]);
            reveal_strlit("chop_tree");
            assert("cut_fern"@.len() != "chop_tree"@.len());
            reveal_strlit("pick_herb");
            assert("cut_fern"@.len() != "pick_herb"@.len());
            reveal_strlit("pitch_tent");
            assert("cut_fern"@.len() != "pitch_tent"@.len());
            reveal_strlit("unroll_bedroll");
            assert("cut_fern"@.len() != "unroll_bedroll"@.len());
            reveal_strlit("setup_camp");
            assert("cut_fern"@.len() != "setup_camp"@.len());
            reveal_strlit("start_fire");
            assert("cut_fern"@.len() != "start_fire"@.len());
            reveal_strlit("feed_fire");
            assert("cut_fern"@.len() != "feed_fire"@.len());
            reveal_strlit("sleep");
            assert("cut_fern"@.len() != "sleep"@.len());
            reveal_strlit("fishing");
            assert("cut_fern"@.len() != "fishing"@.len());
            reveal_strlit("place_pan");
            assert("cut_fern"@.len() != "place_pan"@.len());
            reveal_strlit("pick_up_pan");
            assert("cut_fern"@.len() != "pick_up_pan"@.len());
            reveal_strlit("cook_fish");
            assert("cut_fern"@.len() != "cook_fish"@.len());
            reveal_strlit("season_pan");
            assert("cut_fern"@.len() != "season_pan"@.len());
            reveal_strlit("take_from_pan");
            assert("cut_fern"@.len() != "take_from_pan"@.len());
            reveal_strlit("harvest_moss");
            assert("cut_fern"@.len() != "harvest_moss"@.len());
        },
        ActionId::DigFern => {
            reveal_strlit("dig_fern");
            reveal_strlit("pickup");
            assert("dig_fern"@.len() != "pickup"@.len());
            reveal_strlit("drink_from_stream");
            assert("dig_fern"@.len() != "drink_from_stream"@.len());
            reveal_strlit("fill_waterskin");
            assert("dig_fern"@.len() != "fill_waterskin"@.len());
            reveal_strlit("drink_waterskin");
            assert("dig_fern"@.len() != "drink_waterskin"@.len());
            reveal_strlit("eat_ration");
            assert("dig_fern"@.len() != "eat_ration"@.len());
            reveal_strlit("eat_herb");
            assert("dig_fern"@[0] != "eat_herb"@[0]);
            reveal_strlit("chop_tree");
            assert("dig_fern"@.len() != "chop_tree"@.len());
            reveal_strlit("pick_herb");
            assert("dig_fern"@.len() != "pick_herb"@.len());
            reveal_strlit("pitch_tent");
            assert("dig_fern"@.len() != "pitch_tent"@.len());
            reveal_strlit("unroll_bedroll");
            assert("dig_fern"@.len() != "unroll_bedroll"@.len());
            reveal_strlit("setup_camp");
            assert("dig_fern"@.len() != "setup_camp"@.len());
            reveal_strlit("start_fire");
            assert("dig_fern"@.len() != "start_fire"@.len());
            reveal_strlit("feed_fire");
            assert("dig_fern"@.len() != "feed_fire"@.len());
            reveal_strlit("sleep");
            assert("dig_fern"@.len() != "sleep"@.len());
            reveal_strlit("fishing");
            assert("dig_fern"@.len() != "fishing"@.len());
            reveal_strlit("place_pan");
            assert("dig_fern"@.len() != "place_pan"@.len());
            reveal_strlit("pick_up_pan");
            assert("dig_fern"@.len() != "pick_up_pan"@.len());
            reveal_strlit("cook_fish");
            assert("dig_fern"@.len() != "cook_fish"@.len());
            reveal_strlit("season_pan");
            assert("dig_fern"@.len() != "season_pan"@.len());
            reveal_strlit("take_from_pan");
            assert("dig_fern"@.len() != "take_from_pan"@.len());
            reveal_strlit("harvest_moss");
            assert("dig_fern"@.len() != "harvest_moss"@.len());
            reveal_strlit("cut_fern");
            assert("dig_fern"@[0] != "cut_fern"@[0]);
        },
        ActionId::CutGorse => {
            reveal_strlit("cut_gorse");
            reveal_strlit("pickup");
            assert("cut_gorse"@.len() != "pickup"@.len());
            reveal_strlit("drink_from_stream");
            assert("cut_gorse"@.len() != "drink_from_stream"@.len());
            reveal_strlit("fill_waterskin");
            assert("cut_gorse"@.len() != "fill_waterskin"@.len());
            reveal_strlit("drink_waterskin");
            assert("cut_gorse"@.len() != "drink_waterskin"@.len());
            reveal_strlit("eat_ration");
            assert("cut_gorse"@.len() != "eat_ration"@.len());
            reveal_strlit("eat_herb");
            assert("cut_gorse"@.len() != "eat_herb"@.len());
            reveal_strlit("chop_tree");
            assert("cut_gorse"@[1] != "chop_tree"@[1]);
            reveal_strlit("pick_herb");
            assert("cut_gorse"@[0] != "pick_herb"@[0]);
            reveal_strlit("pitch_tent");
            assert("cut_gorse"@.len() != "pitch_tent"@.len());
            reveal_strlit("unroll_bedroll");
            assert("cut_gorse"@.len() != "unroll_bedroll"@.len());
            reveal_strlit("setup_camp");
            assert("cut_gorse"@.len() != "setup_camp"@.len());
            reveal_strlit("start_fire");
            assert("cut_gorse"@.len() != "start_fire"@.len());
            reveal_strlit("feed_fire");
            assert("cut_gorse"@[0] != "feed_fire"@[0]);
            reveal_strlit("sleep");
            assert("cut_gorse"@.len() != "sleep"@.len());
            reveal_strlit("fishing");
            assert("cut_gorse"@.len() != "fishing"@.len());
            reveal_strlit("place_pan");
            assert("cut_gorse"@[0] != "place_pan"@[0]);
            reveal_strlit("pick_up_pan");
            assert("cut_gorse"@.len() != "pick_up_pan"@.len());
            reveal_strlit("cook_fish");
            assert("cut_gorse"@[1] != "cook_fish"@[1]);
            reveal_strlit("season_pan");
            assert("cut_gorse"@.len() != "season_pan"@.len());
            reveal_strlit("take_from_pan");
            assert("cut_gorse"@.len() != "take_from_pan"@.len());
            reveal_strlit("harvest_moss");
            assert("cut_gorse"@.len() != "harvest_moss"@.len());
            reveal_strlit("cut_fern");
            assert("cut_gorse"@.len() != "cut_fern"@.len());
            reveal_strlit("dig_fern");
            assert("cut_gorse"@.len() != "dig_fern"@.len());
        },
        ActionId::CutBracken => {
            reveal_strlit("cut_bracken");
            reveal_strlit("pickup");
            assert("cut_bracken"@.len() != "pickup"@.len());
            reveal_strlit("drink_from_stream");
            assert("cut_bracken"@.len() != "drink_from_stream"@.len());
            reveal_strlit("fill_waterskin");
            assert("cut_bracken"@.len() != "fill_waterskin"@.len());
            reveal_strlit("drink_waterskin");
            assert("cut_bracken"@.len() != "drink_waterskin"@.len());
            reveal_strlit("eat_ration");
            assert("cut_bracken"@.len() != "eat_ration"@.len());
            reveal_strlit("eat_herb");
            assert("cut_bracken"@.len() != "eat_herb"@.len());
            reveal_strlit("chop_tree");
            assert("cut_bracken"@.len() != "chop_tree"@.len());
            reveal_strlit("pick_herb");
            assert("cut_bracken"@.len() != "pick_herb"@.len());
            reveal_strlit("pitch_tent");
            assert("cut_bracken"@.len() != "pitch_tent"@.len());
            reveal_strlit("unroll_bedroll");
            assert("cut_bracken"@.len() != "unroll_bedroll"@.len());
            reveal_strlit("setup_camp");
            assert("cut_bracken"@.len() != "setup_camp"@.len());
            reveal_strlit("start_fire");
            assert("cut_bracken"@.len() != "start_fire"@.len());
            reveal_strlit("feed_fire");
            assert("cut_bracken"@.len() != "feed_fire"@.len());
            reveal_strlit("sleep");
            assert("cut_bracken"@.len() != "sleep"@.len());
            reveal_strlit("fishing");
            assert("cut_bracken"@.len() != "fishing"@.len());
            reveal_strlit("place_pan");
            assert("cut_bracken"@.len() != "place_pan"@.len());
            reveal_strlit("pick_up_pan");
            assert("cut_bracken"@[0] != "pick_up_pan"@[0]);
            reveal_strlit("cook_fish");
            assert("cut_bracken"@.len() != "cook_fish"@.len());
            reveal_strlit("season_pan");
            assert("cut_bracken"@.len() != "season_pan"@.len());
            reveal_strlit("take_from_pan");
            assert("cut_bracken"@.len() != "take_from_pan"@.len());
            reveal_strlit("harvest_moss");
            assert("cut_bracken"@.len() != "harvest_moss"@.len());
            reveal_strlit("cut_fern");
            assert("cut_bracken"@.len() != "cut_fern"@.len());
            reveal_strlit("dig_fern");
            assert("cut_bracken"@.len() != "dig_fern"@.len());
            reveal_strlit("cut_gorse");
            assert("cut_bracken"@.len() != "cut_gorse"@.len());
        },
        ActionId::Aim => {
            reveal_strlit("aim");
            reveal_strlit("pickup");
            assert("aim"@.len() != "pickup"@.len());
            reveal_strlit("drink_from_stream");
            assert("aim"@.len() != "drink_from_stream"@.len());
            reveal_strlit("fill_waterskin");
            assert("aim"@.len() != "fill_waterskin"@.len());
            reveal_strlit("drink_waterskin");
            assert("aim"@.len() != "drink_waterskin"@.len());
            reveal_strlit("eat_ration");
            assert("aim"@.len() != "eat_ration"@.len());
            reveal_strlit("eat_herb");
            assert("aim"@.len() != "eat_herb"@.len());
            reveal_strlit("chop_tree");
            assert("aim"@.len() != "chop_tree"@.len());
            reveal_strlit("pick_herb");
            assert("aim"@.len() != "pick_herb"@.len());
            reveal_strlit("pitch_tent");
            assert("aim"@.len() != "pitch_tent"@.len());
            reveal_strlit("unroll_bedroll");
            assert("aim"@.len() != "unroll_bedroll"@.len());
            reveal_strlit("setup_camp");
            assert("aim"@.len() != "setup_camp"@.len());
            reveal_strlit("start_fire");
            assert("aim"@.len() != "start_fire"@.len());
            reveal_strlit("feed_fire");
            assert("aim"@.len() != "feed_fire"@.len());
            reveal_strlit("sleep");
            assert("aim"@.len() != "sleep"@.len());
            reveal_strlit("fishing");
            assert("aim"@.len() != "fishing"@.len());
            reveal_strlit("place_pan");
            assert("aim"@.len() != "place_pan"@.len());
            reveal_strlit("pick_up_pan");
            assert("aim"@.len() != "pick_up_pan"@.len());
            reveal_strlit("cook_fish");
            assert("aim"@.len() != "cook_fish"@.len());
            reveal_strlit("season_pan");
            assert("aim"@.len() != "season_pan"@.len());
            reveal_strlit("take_from_pan");
            assert("aim"@.len() != "take_from_pan"@.len());
            reveal_strlit("harvest_moss");
            assert("aim"@.len() != "harvest_moss"@.len());
            reveal_strlit("cut_fern");
            assert("aim"@.len() != "cut_fern"@.len());
            reveal_strlit("dig_fern");
            assert("aim"@.len() != "dig_fern"@.len());
            reveal_strlit("cut_gorse");
            assert("aim"@.len() != "cut_gorse"@.len());
            reveal_strlit("cut_bracken");
            assert("aim"@.len() != "cut_bracken"@.len());
        },
        ActionId::Grapple => {
            reveal_strlit("grapple");
            reveal_strlit("pickup");
            assert("grapple"@.len() != "pickup"@.len());
            reveal_strlit("drink_from_stream");
            assert("grapple"@.len() != "drink_from_stream"@.len());
            reveal_strlit("fill_waterskin");
            assert("grapple"@.len() != "fill_waterskin"@.len());
            reveal_strlit("drink_waterskin");
            assert("grapple"@.len() != "drink_waterskin"@.len());
            reveal_strlit("eat_ration");
            assert("grapple"@.len() != "eat_ration"@.len());
            reveal_strlit("eat_herb");
            assert("grapple"@.len() != "eat_herb"@.len());
            reveal_strlit("chop_tree");
            assert("grapple"@.len() != "chop_tree"@.len());
            reveal_strlit("pick_herb");
            assert("grapple"@.len() != "pick_herb"@.len());
            reveal_strlit("pitch_tent");
            assert("grapple"@.len() != "pitch_tent"@.len());
            reveal_strlit("unroll_bedroll");
            assert("grapple"@.len() != "unroll_bedroll"@.len());
            reveal_strlit("setup_camp");
            assert("grapple"@.len() != "setup_camp"@.len());
            reveal_strlit("start_fire");
            assert("grapple"@.len() != "start_fire"@.len());
            reveal_strlit("feed_fire");
            assert("grapple"@.len() != "feed_fire"@.len());
            reveal_strlit("sleep");
            assert("grapple"@.len() != "sleep"@.len());
            reveal_strlit("fishing");
            assert("grapple"@[0] != "fishing"@[0]);
            reveal_strlit("place_pan");
            assert("grapple"@.len() != "place_pan"@.len());
            reveal_strlit("pick_up_pan");
            assert("grapple"@.len() != "pick_up_pan"@.len());
            reveal_strlit("cook_fish");
            assert("grapple"@.len() != "cook_fish"@.len());
            reveal_strlit("season_pan");
            assert("grapple"@.len() != "season_pan"@.len());
            reveal_strlit("take_from_pan");
            assert("grapple"@.len() != "take_from_pan"@.len());
            reveal_strlit("harvest_moss");
            assert("grapple"@.len() != "harvest_moss"@.len());
            reveal_strlit("cut_fern");
            assert("grapple"@.len() != "cut_fern"@.len());
            reveal_strlit("dig_fern");
            assert("grapple"@.len() != "dig_fern"@.len());
            reveal_strlit("cut_gorse");
            assert("grapple"@.len() != "cut_gorse"@.len());
            reveal_strlit("cut_bracken");
            assert("grapple"@.len() != "cut_bracken"@.len());
            reveal_strlit("aim");
            assert("grapple"@.len() != "aim"@.len());
        },
        ActionId::Throw => {
            reveal_strlit("throw");
            reveal_strlit("pickup");
            assert("throw"@.len() != "pickup"@.len());
            reveal_strlit("drink_from_stream");
            assert("throw"@.len() != "drink_from_stream"@.len());
            reveal_strlit("fill_waterskin");
            assert("throw"@.len() != "fill_waterskin"@.len());
            reveal_strlit("drink_waterskin");
            assert("throw"@.len() != "drink_waterskin"@.len());
            reveal_strlit("eat_ration");
            assert("throw"@.len() != "eat_ration"@.len());
            reveal_strlit("eat_herb");
            assert("throw"@.len() != "eat_herb"@.len());
            reveal_strlit("chop_tree");
            assert("throw"@.len() != "chop_tree"@.len());
            reveal_strlit("pick_herb");
            assert("throw"@.len() != "pick_herb"@.len());
            reveal_strlit("pitch_tent");
            assert("throw"@.len() != "pitch_tent"@.len());
            reveal_strlit("unroll_bedroll");
            assert("throw"@.len() != "unroll_bedroll"@.len());
            reveal_strlit("setup_camp");
            assert("throw"@.len() != "setup_camp"@.len());
            reveal_strlit("start_fire");
            assert("throw"@.len() != "start_fire"@.len());
            reveal_strlit("feed_fire");
            assert("throw"@.len() != "feed_fire"@.len());
            reveal_strlit("sleep");
            assert("throw"@[0] != "sleep"@[0]);
            reveal_strlit("fishing");
            assert("throw"@.len() != "fishing"@.len());
            reveal_strlit("place_pan");
            assert("throw"@.len() != "place_pan"@.len());
            reveal_strlit("pick_up_pan");
            assert("throw"@.len() != "pick_up_pan"@.len());
            reveal_strlit("cook_fish");
            assert("throw"@.len() != "cook_fish"@.len());
            reveal_strlit("season_pan");
            assert("throw"@.len() != "season_pan"@.len());
            reveal_strlit("take_from_pan");
            assert("throw"@.len() != "take_from_pan"@.len());
            reveal_strlit("harvest_moss");
            assert("throw"@.len() != "harvest_moss"@.len());
            reveal_strlit("cut_fern");
            assert("throw"@.len() != "cut_fern"@.len());
            reveal_strlit("dig_fern");
            assert("throw"@.len() != "dig_fern"@.len());
            reveal_strlit("cut_gorse");
            assert("throw"@.len() != "cut_gorse"@.len());
            reveal_strlit("cut_bracken");
            assert("throw"@.len() != "cut_bracken"@.len());
            reveal_strlit("aim");
            assert("throw"@.len() != "aim"@.len());
            reveal_strlit("grapple");
            assert("throw"@.len() != "grapple"@.len());
        },
        ActionId::Disarm => {
            reveal_strlit("disarm");
            reveal_strlit("pickup");
            assert("disarm"@[0] != "pickup"@[0]);
            reveal_strlit("drink_from_stream");
            assert("disarm"@.len() != "drink_from_stream"@.len());
            reveal_strlit("fill_waterskin");
            assert("disarm"@.len() != "fill_waterskin"@.len());
            reveal_strlit("drink_waterskin");
            assert("disarm"@.len() != "drink_waterskin"@.len());
            reveal_strlit("eat_ration");
            assert("disarm"@.len() != "eat_ration"@.len());
            reveal_strlit("eat_herb");
            assert("disarm"@.len() != "eat_herb"@.len());
            reveal_strlit("chop_tree");
            assert("disarm"@.len() != "chop_tree"@.len());
            reveal_strlit("pick_herb");
            assert("disarm"@.len() != "pick_herb"@.len());
            reveal_strlit("pitch_tent");
            assert("disarm"@.len() != "pitch_tent"@.len());
            reveal_strlit("unroll_bedroll");
            assert("disarm"@.len() != "unroll_bedroll"@.len());
            reveal_strlit("setup_camp");
            assert("disarm"@.len() != "setup_camp"@.len());
            reveal_strlit("start_fire");
            assert("disarm"@.len() != "start_fire"@.len());
            reveal_strlit("feed_fire");
            assert("disarm"@.len() != "feed_fire"@.len());
            reveal_strlit("sleep");
            assert("disarm"@.len() != "sleep"@.len());
            reveal_strlit("fishing");
            assert("disarm"@.len() != "fishing"@.len());
            reveal_strlit("place_pan");
            assert("disarm"@.len() != "place_pan"@.len());
            reveal_strlit("pick_up_pan");
            assert("disarm"@.len() != "pick_up_pan"@.len());
            reveal_strlit("cook_fish");
            assert("disarm"@.len() != "cook_fish"@.len());
            reveal_strlit("season_pan");
            assert("disarm"@.len() != "season_pan"@.len());
            reveal_strlit("take_from_pan");
            assert("disarm"@.len() != "take_from_pan"@.len());
            reveal_strlit("harvest_moss");
            assert("disarm"@.len() != "harvest_moss"@.len());
            reveal_strlit("cut_fern");
            assert("disarm"@.len() != "cut_fern"@.len());
            reveal_strlit("dig_fern");
            assert("disarm"@.len() != "dig_fern"@.len());
            reveal_strlit("cut_gorse");
            assert("disarm"@.len() != "cut_gorse"@.len());
            reveal_strlit("cut_bracken");
            assert("disarm"@.len() != "cut_bracken"@.len());
            reveal_strlit("aim");
            assert("disarm"@.len() != "aim"@.len());
            reveal_strlit("grapple");
            assert("disarm"@.len() != "grapple"@.len());
            reveal_strlit("throw");
            assert("disarm"@.len() != "throw"@.len());
        },
    }
}

pub struct ContextAction {
    pub id: ActionId,
    pub name: &'static str,
    pub description: &'static str,
}

/// The verbs of the command menu, in menu order.
pub open spec fn menu_ids() -> Seq<ActionId> {
    seq![
        ActionId::Pickup,
        ActionId::DrinkFromStream,
        ActionId::FillWaterskin,
        ActionId::DrinkWaterskin,
        ActionId::EatRation,
        ActionId::EatHerb,
        ActionId::ChopTree,
        ActionId::PickHerb,
        ActionId::PitchTent,
        ActionId::UnrollBedroll,
        ActionId::SetupCamp,
        ActionId::StartFire,
        ActionId::FeedFire,
        ActionId::Sleep,
        ActionId::Fishing,
        ActionId::HarvestMoss,
        ActionId::CutFern,
        ActionId::DigFern,
        ActionId::CutGorse,
        ActionId::CutBracken,
        ActionId::Aim,
        ActionId::Grapple,
        ActionId::Throw,
        ActionId::Disarm,
    ]
}

/// The full verb catalog in menu render order (render order = priority).
pub fn all_actions() -> (r: Vec<ContextAction>)
    ensures
        r.len() == 24,
        forall|i: int| 0 <= i < 24 ==> #[trigger] r[i].id == menu_ids()[i],
        r[0].id == ActionId::Pickup,
        r[1].id == ActionId::DrinkFromStream,
        r[2].id == ActionId::FillWaterskin,
        r[3].id == ActionId::DrinkWaterskin,
        r[4].id == ActionId::EatRation,
        r[5].id == ActionId::EatHerb,
        r[6].id == ActionId::ChopTree,
        r[7].id == ActionId::PickHerb,
        r[8].id == ActionId::PitchTent,
        r[9].id == ActionId::UnrollBedroll,
        r[10].id == ActionId::SetupCamp,
        r[11].id == ActionId::StartFire,
        r[12].id == ActionId::FeedFire,
        r[13].id == ActionId::Sleep,
        r[14].id == ActionId::Fishing,
        r[15].id == ActionId::HarvestMoss,
        r[16].id == ActionId::CutFern,
        r[17].id == ActionId::DigFern,
        r[18].id == ActionId::CutGorse,
        r[19].id == ActionId::CutBracken,
        r[20].id == ActionId::Aim,
        r[21].id == ActionId::Grapple,
        r[22].id == ActionId::Throw,
        r[23].id == ActionId::Disarm,
{
    let mut v: Vec<ContextAction> = Vec::new();
    v.push(ContextAction { id: ActionId::Pickup, name: "Pick up", description: "Take items from this cell." });
    v.push(ContextAction { id: ActionId::DrinkFromStream, name: "Drink from stream", description: "Drink directly from an adjacent stream or pond." });
    v.push(ContextAction { id: ActionId::FillWaterskin, name: "Fill waterskin", description: "Top up an empty waterskin from a water source." });
    v.push(ContextAction { id: ActionId::DrinkWaterskin, name: "Drink waterskin", description: "Sip from a carried waterskin." });
    v.push(ContextAction { id: ActionId::EatRation, name: "Eat ration", description: "Consume one packed ration." });
    v.push(ContextAction { id: ActionId::EatHerb, name: "Eat herb", description: "Eat a fresh herb raw for a small hunger restore." });
    v.push(ContextAction { id: ActionId::ChopTree, name: "Chop tree", description: "Fell an adjacent tree (requires axe)." });
    v.push(ContextAction { id: ActionId::PickHerb, name: "Pick herb", description: "Harvest an adjacent herb patch (requires knife)." });
    v.push(ContextAction { id: ActionId::PitchTent, name: "Pitch tent", description: "Set up a tent on the current cell." });
    v.push(ContextAction { id: ActionId::UnrollBedroll, name: "Unroll bedroll", description: "Lay out a bedroll inside a tent." });
    v.push(ContextAction { id: ActionId::SetupCamp, name: "Setup camp", description: "Pitch the tent, then unroll the bedroll inside." });
    v.push(ContextAction { id: ActionId::StartFire, name: "Start fire", description: "Strike flint and steel over gathered kindling." });
    v.push(ContextAction { id: ActionId::FeedFire, name: "Feed fire", description: "Add a piece of firewood to a lit fire here." });
    v.push(ContextAction { id: ActionId::Sleep, name: "Sleep", description: "Sleep until dawn or for 8 game-hours." });
    v.push(ContextAction { id: ActionId::Fishing, name: "Try fishing", description: "Cast a hand-line into an adjacent pond." });
    v.push(ContextAction { id: ActionId::HarvestMoss, name: "Harvest moss", description: "Scrape moss from a stone or root (knife)." });
    v.push(ContextAction { id: ActionId::CutFern, name: "Cut fern", description: "Slice fern fronds (knife)." });
    v.push(ContextAction { id: ActionId::DigFern, name: "Dig fern", description: "Dig the fern up for root + fronds (knife)." });
    v.push(ContextAction { id: ActionId::CutGorse, name: "Cut gorse", description: "Hack gorse into a faggot of kindling (axe)." });
    v.push(ContextAction { id: ActionId::CutBracken, name: "Cut bracken", description: "Cut bracken straw for bedding (knife)." });
    v.push(ContextAction { id: ActionId::Aim, name: "Aim", description: "Raise your bow and pick a target." });
    v.push(ContextAction { id: ActionId::Grapple, name: "Grapple", description: "Lock up the adjacent foe — they can't act." });
    v.push(ContextAction { id: ActionId::Throw, name: "Throw", description: "Slam a grappled foe to the ground (Prone)." });
    v.push(ContextAction { id: ActionId::Disarm, name: "Disarm", description: "Strike an adjacent foe's weapon free." });
    v
}

/// What the menu shows for a verb: its cost, or why it cannot run.
#[derive(Clone, Debug)]
pub enum Availability {
    Available { cost_game_seconds: u32 },
    Unavailable { reason: &'static str },
}

impl Availability {
    /// Available with `cost_game_seconds` when `has`, else unavailable with
    /// `missing_reason`.
    pub fn from_has(has: bool, cost_game_seconds: u32, missing_reason: &'static str) -> (r: Self)
        ensures
            has ==> r == (Availability::Available { cost_game_seconds }),
            has == false ==> r == (Availability::Unavailable { reason: missing_reason }),
    {
        if has {
            Self::Available { cost_game_seconds }
        } else {
            Self::Unavailable { reason: missing_reason }
        }
    }
}

#[derive(Debug)]
pub enum ExecuteOutcome {
    /// The action ran; the message is suitable for the log.
    Done(String),
    /// The action wants the ranged-targeting cursor opened instead.
    OpenAim,
}

impl ExecuteOutcome {
    /// The log message, or the empty string for `OpenAim`.
    pub fn message(&self) -> (r: &str)
        ensures
            self matches ExecuteOutcome::Done(s) ==> r@ == s@,
            self is OpenAim ==> r@ == Seq::<char>::empty(),
    {
        match self {
            ExecuteOutcome::Done(s) => s.as_str(),
            ExecuteOutcome::OpenAim => {
                proof {
                    reveal_strlit("");
                }
                ""
            },
        }
    }
}


// ---------------------------------------------------------------------
// Availability
// ---------------------------------------------------------------------

/// Minimum tinder (twigs or grass blades) to light a fire.
pub const FIRE_MIN_TINDER: u32 = 1;

/// Minimum kindling (sticks) to light a fire.
pub const FIRE_MIN_KINDLING: u32 = 3;

/// Minimum fuel (firewood) to light a fire.
pub const FIRE_MIN_FUEL: u32 = 2;

/// What the menu knows of an adjacent foe.
#[derive(Clone, Copy, Debug, PartialEq, Eq, Structural)]
pub struct FoeFacts {
    /// The foe holds a weapon.
    pub wielded: bool,
    /// The player has the foe grappled.
    pub grappled: bool,
}

/// What the availability verdicts read of the world around the player.
pub struct ActionFacts {
    /// The player's pack.
    pub pack: Pack,
    /// The 3 x 3 cells centred on the player, row by row from the
    /// north-west; index 4 is the player's own cell. `None` is off the map.
    pub near: Vec<Option<CellState>>,
    /// The ground of the same nine cells as the world reports it (off-map
    /// cells included).
    pub tiles: Vec<TerrainKind>,
    /// The player has the stamina for a heavy move.
    pub stamina_for_heavy: bool,
    /// An adjacent hostile, if any.
    pub foe: Option<FoeFacts>,
    /// The wielded ranged weapon's ammunition key (empty when it needs
    /// none); `None` when no ranged weapon is wielded.
    pub ranged_ammo: Option<String>,
}

impl ActionFacts {
    /// Nine cells and nine grounds.
    pub open spec fn wf(&self) -> bool {
        self.near@.len() == 9 && self.tiles@.len() == 9
    }
}

/// Tests on an item that the verdicts look for nearby.
#[derive(Clone, Copy, Debug, PartialEq, Eq, Structural)]
pub enum ItemTest {
    LitFire,
    Herb,
    EmptyPan,
    FueledEmptyPan,
    UnseasonedCook,
    ReadyCook,
    PartialWaterskin,
}

pub open spec fn passes(t: ItemTest, i: ItemInstance) -> bool {
    match t {
        ItemTest::LitFire => i.metadata is Lit,
        ItemTest::Herb => i.kind == ItemKind::Herb,
        ItemTest::EmptyPan => i.kind == ItemKind::CookingPan && (i.metadata matches ItemMetadata::PannedOnFire {
            contents,
            ..
        } && contents == PanContents::Empty),
        ItemTest::FueledEmptyPan => i.kind == ItemKind::CookingPan && (i.metadata matches ItemMetadata::PannedOnFire {
            contents,
            fuel_seconds,
        } && contents == PanContents::Empty && fuel_seconds > 0),
        ItemTest::UnseasonedCook => i.kind == ItemKind::CookingPan && (i.metadata matches ItemMetadata::PannedOnFire {
            contents,
            ..
        } && (contents matches PanContents::Cooking { seasonings, .. } && !seasonings_has(
            seasonings,
            ModifierTag::Herb,
        ))),
        ItemTest::ReadyCook => i.kind == ItemKind::CookingPan && (i.metadata matches ItemMetadata::PannedOnFire {
            contents,
            ..
        } && (contents matches PanContents::Cooking { input, elapsed_secs, .. } && spec_cook_progress(input, elapsed_secs)
            != CookProgress::Raw)),
        ItemTest::PartialWaterskin => i.kind == ItemKind::Waterskin && (i.metadata matches ItemMetadata::Waterskin {
            water_uses,
        } && water_uses < 4),
    }
}

fn passes_exec(t: ItemTest, i: &ItemInstance) -> (r: bool)
    ensures
        r == passes(t, *i),
{
    match t {
        ItemTest::LitFire => matches!(i.metadata, ItemMetadata::Lit { .. }),
        ItemTest::Herb => i.kind == ItemKind::Herb,
        ItemTest::PartialWaterskin => i.kind == ItemKind::Waterskin && match i.metadata {
            ItemMetadata::Waterskin { water_uses } => water_uses < 4,
            _ => false,
        },
        _ => {
            if i.kind != ItemKind::CookingPan {
                return false;
            }
            match i.metadata {
                ItemMetadata::PannedOnFire { contents, fuel_seconds } => match t {
                    ItemTest::EmptyPan => contents == PanContents::Empty,
                    ItemTest::FueledEmptyPan => contents == PanContents::Empty && fuel_seconds > 0,
                    ItemTest::UnseasonedCook => match contents {
                        PanContents::Cooking { seasonings, .. } => !seasonings.has(ModifierTag::Herb),
                        PanContents::Empty => false,
                    },
                    _ => match contents {
                        PanContents::Cooking { input, elapsed_secs, .. } => match cook_progress(input, elapsed_secs) {
                            CookProgress::Raw => false,
                            _ => true,
                        },
                        PanContents::Empty => false,
                    },
                },
                _ => false,
            }
        },
    }
}

/// Some item of `s` passes `t`.
pub open spec fn any_passes(s: Seq<ItemInstance>, t: ItemTest) -> bool {
    exists|k: int| 0 <= k < s.len() && passes(t, #[trigger] s[k])
}

fn any_passes_exec(items: &Vec<ItemInstance>, t: ItemTest) -> (r: bool)
    ensures
        r == any_passes(items@, t),
{
    let mut k: usize = 0;
    while k < items.len()
        invariant
            k <= items@.len(),
            forall|j: int| 0 <= j < k ==> !passes(t, #[trigger] items@[j]),
        decreases items@.len() - k,
    {
        if passes_exec(t, &items[k]) {
            return true;
        }
        k += 1;
    }
    false
}

/// Some cell of the nine (the player's own only when `centre`) holds an
/// item passing `t`.
pub open spec fn near_item(near: Seq<Option<CellState>>, t: ItemTest, centre: bool) -> bool {
    exists|j: int|
        0 <= j < 9 && (centre || j != 4) && (#[trigger] near[j] matches Some(c) && any_passes(c.items@, t))
}

fn near_item_exec(near: &Vec<Option<CellState>>, t: ItemTest, centre: bool) -> (r: bool)
    requires
        near@.len() == 9,
    ensures
        r == near_item(near@, t, centre),
{
    let mut j: usize = 0;
    while j < 9
        invariant
            j <= 9,
            near@.len() == 9,
            forall|m: int|
                0 <= m < j && (centre || m != 4) ==> !(#[trigger] near@[m] matches Some(c) && any_passes(c.items@, t)),
        decreases 9 - j,
    {
        if centre || j != 4 {
            match &near[j] {
                Some(c) => {
                    if any_passes_exec(&c.items, t) {
                        return true;
                    }
                },
                None => {},
            }
        }
        j += 1;
    }
    false
}

/// Decorations the harvest verbs look for.
#[derive(Clone, Copy, Debug, PartialEq, Eq, Structural)]
pub enum DecorationTest {
    Moss,
    Fern,
    Gorse,
    Bracken,
}

pub open spec fn deco_passes(t: DecorationTest, d: Decoration) -> bool {
    match t {
        DecorationTest::Moss => d is Moss,
        DecorationTest::Fern => d is Fern,
        DecorationTest::Gorse => d is Gorse,
        DecorationTest::Bracken => d is Bracken,
    }
}

/// Some of the nine cells, the player's own included, bears a decoration
/// passing `t`.
pub open spec fn near_decoration(near: Seq<Option<CellState>>, t: DecorationTest) -> bool {
    exists|j: int| 0 <= j < 9 && (#[trigger] near[j] matches Some(c) && deco_passes(t, c.decoration))
}

fn near_decoration_exec(near: &Vec<Option<CellState>>, t: DecorationTest) -> (r: bool)
    requires
        near@.len() == 9,
    ensures
        r == near_decoration(near@, t),
{
    let mut j: usize = 0;
    while j < 9
        invariant
            j <= 9,
            near@.len() == 9,
            forall|m: int| 0 <= m < j ==> !(#[trigger] near@[m] matches Some(c) && deco_passes(t, c.decoration)),
        decreases 9 - j,
    {
        match &near[j] {
            Some(c) => {
                let hit = match t {
                    DecorationTest::Moss => matches!(c.decoration, Decoration::Moss),
                    DecorationTest::Fern => matches!(c.decoration, Decoration::Fern { .. }),
                    DecorationTest::Gorse => matches!(c.decoration, Decoration::Gorse { .. }),
                    DecorationTest::Bracken => matches!(c.decoration, Decoration::Bracken { .. }),
                };
                if hit {
                    return true;
                }
            },
            None => {},
        }
        j += 1;
    }
    false
}

/// Grounds the verbs look for beside the player.
#[derive(Clone, Copy, Debug, PartialEq, Eq, Structural)]
pub enum GroundTest {
    Pond,
    Water,
    Trunk,
}

pub open spec fn ground_passes(t: GroundTest, g: TerrainKind) -> bool {
    match t {
        GroundTest::Pond => g == TerrainKind::PondWater,
        GroundTest::Water => g == TerrainKind::PondWater || g == TerrainKind::StreamWater,
        GroundTest::Trunk => g == TerrainKind::TreeTrunk,
    }
}

/// One of the eight cells around the player has ground passing `t`.
pub open spec fn beside_ground(tiles: Seq<TerrainKind>, t: GroundTest) -> bool {
    exists|j: int| 0 <= j < 9 && j != 4 && ground_passes(t, #[trigger] tiles[j])
}

fn beside_ground_exec(tiles: &Vec<TerrainKind>, t: GroundTest) -> (r: bool)
    requires
        tiles@.len() == 9,
    ensures
        r == beside_ground(tiles@, t),
{
    let mut j: usize = 0;
    while j < 9
        invariant
            j <= 9,
            tiles@.len() == 9,
            forall|m: int| 0 <= m < j && m != 4 ==> !ground_passes(t, #[trigger] tiles@[m]),
        decreases 9 - j,
    {
        if j != 4 {
            let g = tiles[j];
            let hit = match t {
                GroundTest::Pond => g == TerrainKind::PondWater,
                GroundTest::Water => g == TerrainKind::PondWater || g == TerrainKind::StreamWater,
                GroundTest::Trunk => g == TerrainKind::TreeTrunk,
            };
            if hit {
                return true;
            }
        }
        j += 1;
    }
    false
}

/// What a count of reachable items adds up.
#[derive(Clone, Copy, Debug, PartialEq, Eq, Structural)]
pub enum Tally {
    /// Units of this kind with no metadata.
    Plain(ItemKind),
    /// Twigs and grass blades.
    Tinder,
    /// Sticks.
    Kindling,
    /// Firewood.
    Fuel,
}

/// Units item `i` adds to tally `t`; a lit fire adds nothing when
/// `skip_lit`.
pub open spec fn tally_of(t: Tally, i: ItemInstance, skip_lit: bool) -> int {
    if skip_lit && i.metadata is Lit {
        0
    } else {
        let hit = match t {
            Tally::Plain(k) => i.kind == k && i.metadata is Plain,
            Tally::Tinder => i.kind == ItemKind::Twig || i.kind == ItemKind::GrassBlade,
            Tally::Kindling => i.kind == ItemKind::Stick,
            Tally::Fuel => i.kind == ItemKind::Firewood,
        };
        if hit {
            i.count as int
        } else {
            0
        }
    }
}

pub open spec fn tally(s: Seq<ItemInstance>, t: Tally, skip_lit: bool) -> int
    decreases s.len(),
{
    if s.len() == 0 {
        0
    } else {
        tally(s.drop_last(), t, skip_lit) + tally_of(t, s.last(), skip_lit)
    }
}

/// Tally `t` over the first `n` of the nine cells (lit fires skipped).
pub open spec fn near_tally(near: Seq<Option<CellState>>, t: Tally, n: int) -> int
    decreases n,
{
    if n <= 0 {
        0
    } else {
        near_tally(near, t, n - 1) + match near[n - 1] {
            Some(c) => tally(c.items@, t, true),
            None => 0,
        }
    }
}

/// Tally `t` over the pack and the nine cells: what a verb can reach.
pub open spec fn reach_tally(f: ActionFacts, t: Tally) -> int {
    tally(f.pack.contents@, t, false) + near_tally(f.near@, t, 9)
}

pub open spec fn cap32(x: int) -> int {
    if x > u32::MAX {
        u32::MAX as int
    } else {
        x
    }
}

proof fn lemma_tally_nonneg(s: Seq<ItemInstance>, t: Tally, skip_lit: bool)
    ensures
        tally(s, t, skip_lit) >= 0,
    decreases s.len(),
{
    if s.len() > 0 {
        lemma_tally_nonneg(s.drop_last(), t, skip_lit);
    }
}

proof fn lemma_near_tally_nonneg(near: Seq<Option<CellState>>, t: Tally, n: int)
    ensures
        near_tally(near, t, n) >= 0,
    decreases n,
{
    if n > 0 {
        lemma_near_tally_nonneg(near, t, n - 1);
        if let Some(c) = near[n - 1] {
            lemma_tally_nonneg(c.items@, t, true);
        }
    }
}

fn tally_exec(items: &Vec<ItemInstance>, t: Tally, skip_lit: bool) -> (r: u32)
    ensures
        r == cap32(tally(items@, t, skip_lit)),
{
    let mut acc: u32 = 0;
    let mut k: usize = 0;
    while k < items.len()
        invariant
            k <= items@.len(),
            acc == cap32(tally(items@.take(k as int), t, skip_lit)),
        decreases items@.len() - k,
    {
        let i = &items[k];
        let lit = matches!(i.metadata, ItemMetadata::Lit { .. });
        let hit = if skip_lit && lit {
            false
        } else {
            match t {
                Tally::Plain(kind) => i.kind == kind && matches!(i.metadata, ItemMetadata::Plain),
                Tally::Tinder => i.kind == ItemKind::Twig || i.kind == ItemKind::GrassBlade,
                Tally::Kindling => i.kind == ItemKind::Stick,
                Tally::Fuel => i.kind == ItemKind::Firewood,
            }
        };
        proof {
            assert(items@.take(k + 1).drop_last() =~= items@.take(k as int));
            lemma_tally_nonneg(items@.take(k as int), t, skip_lit);
        }
        if hit {
            acc = acc.saturating_add(i.count as u32);
        }
        k += 1;
    }
    assert(items@.take(items@.len() as int) =~= items@);
    acc
}

/// How much of tally `t` the player can reach, capped at `u32::MAX`.
fn reach_tally_exec(f: &ActionFacts, t: Tally) -> (r: u32)
    requires
        f.wf(),
    ensures
        r == cap32(reach_tally(*f, t)),
{
    let mut acc = tally_exec(&f.pack.contents, t, false);
    proof {
        lemma_tally_nonneg(f.pack.contents@, t, false);
    }
    let mut j: usize = 0;
    while j < 9
        invariant
            j <= 9,
            f.wf(),
            acc == cap32(tally(f.pack.contents@, t, false) + near_tally(f.near@, t, j as int)),
            tally(f.pack.contents@, t, false) >= 0,
        decreases 9 - j,
    {
        proof {
            lemma_near_tally_nonneg(f.near@, t, j as int);
        }
        match &f.near[j] {
            Some(c) => {
                let part = tally_exec(&c.items, t, true);
                proof {
                    lemma_tally_nonneg(c.items@, t, true);
                }
                acc = acc.saturating_add(part);
            },
            None => {},
        }
        j += 1;
    }
    acc
}

/// Total weight of `items`, when it fits in a `u32`.
fn items_weight(items: &Vec<ItemInstance>) -> (r: u32)
    requires
        stack_sum(items@) <= u32::MAX,
    ensures
        r == stack_sum(items@),
{
    let mut acc: u32 = 0;
    let mut k: usize = 0;
    while k < items.len()
        invariant
            k <= items@.len(),
            stack_sum(items@) <= u32::MAX,
            acc == stack_sum(items@.take(k as int)),
        decreases items@.len() - k,
    {
        proof {
            assert(items@.take(k + 1).drop_last() =~= items@.take(k as int));
            lemma_stack_sum_prefix(items@, k + 1);
        }
        let w = items[k].total_weight_g();
        acc = acc + w;
        k += 1;
    }
    assert(items@.take(items@.len() as int) =~= items@);
    acc
}

proof fn lemma_stack_sum_prefix(s: Seq<ItemInstance>, n: int)
    requires
        0 <= n <= s.len(),
    ensures
        0 <= stack_sum(s.take(n)) <= stack_sum(s),
    decreases s.len(),
{
    if n == s.len() {
        assert(s.take(n) =~= s);
        lemma_stack_sum_nonneg(s);
    } else {
        lemma_stack_sum_prefix(s.drop_last(), n);
        assert(s.drop_last().take(n) =~= s.take(n));
        assert(instance_weight(s.last()) >= 0);
    }
}

proof fn lemma_stack_sum_nonneg(s: Seq<ItemInstance>)
    ensures
        stack_sum(s) >= 0,
    decreases s.len(),
{
    if s.len() > 0 {
        lemma_stack_sum_nonneg(s.drop_last());
    }
}

/// `from_has` as a value.
pub open spec fn verdict(has: bool, cost: u32, reason: &'static str) -> Availability {
    if has {
        Availability::Available { cost_game_seconds: cost }
    } else {
        Availability::Unavailable { reason }
    }
}

/// The verdict on picking up what lies on the player's cell.
pub open spec fn pickup_verdict(f: ActionFacts, cost: u32) -> Availability {
    match f.near@[4] {
        None => Availability::Unavailable { reason: "off the map" },
        Some(c) => if c.items@.len() == 0 {
            Availability::Unavailable { reason: "nothing here" }
        } else if cap32(contents_weight(f.pack.contents@) + stack_sum(c.items@)) > f.pack.capacity_g {
            Availability::Unavailable { reason: "pack too full" }
        } else {
            Availability::Available { cost_game_seconds: cost }
        },
    }
}

/// The verdict on lighting a fire.
pub open spec fn start_fire_verdict(f: ActionFacts, cost: u32) -> Availability {
    if !holds_kind(f.pack.contents@, ItemKind::FlintAndSteel) {
        Availability::Unavailable { reason: "no flint and steel" }
    } else if reach_tally(f, Tally::Tinder) < FIRE_MIN_TINDER {
        Availability::Unavailable { reason: "need tinder (twig or grass)" }
    } else if reach_tally(f, Tally::Kindling) < FIRE_MIN_KINDLING {
        Availability::Unavailable { reason: "need 3 sticks" }
    } else if reach_tally(f, Tally::Fuel) < FIRE_MIN_FUEL {
        Availability::Unavailable { reason: "need 2 firewood" }
    } else {
        Availability::Available { cost_game_seconds: cost }
    }
}

/// The verdict on feeding the fire the player stands on.
pub open spec fn feed_fire_verdict(f: ActionFacts, cost: u32) -> Availability {
    if !(f.near@[4] matches Some(c) && any_passes(c.items@, ItemTest::LitFire)) {
        Availability::Unavailable { reason: "no fire here to feed" }
    } else if reach_tally(f, Tally::Fuel) < 1 {
        Availability::Unavailable { reason: "no firewood within reach" }
    } else {
        Availability::Available { cost_game_seconds: cost }
    }
}

/// The verdict on a harvest that needs a knife (`axe` false) or an axe.
pub open spec fn harvest_verdict(
    f: ActionFacts,
    t: DecorationTest,
    axe: bool,
    cost: u32,
    missing: &'static str,
) -> Availability {
    if !holds_kind(f.pack.contents@, if axe { ItemKind::Axe } else { ItemKind::Knife }) {
        Availability::Unavailable { reason: if axe { "need an axe" } else { "need a knife" } }
    } else {
        verdict(near_decoration(f.near@, t), cost, missing)
    }
}

/// The verdict on aiming the wielded ranged weapon.
pub open spec fn aim_verdict(f: ActionFacts) -> Availability {
    match f.ranged_ammo {
        None => Availability::Unavailable { reason: "no ranged weapon equipped" },
        Some(key) => if key@.len() == 0 {
            Availability::Available { cost_game_seconds: 0 }
        } else {
            match item_from_key(key@) {
                None => Availability::Unavailable { reason: "ammo kind unknown" },
                Some(ammo) => if holds_kind(f.pack.contents@, ammo) {
                    Availability::Available { cost_game_seconds: 0 }
                } else {
                    Availability::Unavailable { reason: "no ammo in pack" }
                },
            }
        },
    }
}

/// The verdict on a grapple (`disarm` false) or a disarm.
pub open spec fn grapple_verdict(f: ActionFacts, disarm: bool) -> Availability {
    if !f.stamina_for_heavy {
        Availability::Unavailable { reason: "winded" }
    } else {
        match f.foe {
            None => Availability::Unavailable { reason: "no foe adjacent" },
            Some(foe) => if disarm && !foe.wielded {
                Availability::Unavailable { reason: "foe is unarmed" }
            } else {
                Availability::Available { cost_game_seconds: 0 }
            },
        }
    }
}

/// The verdict on throwing a grappled foe.
pub open spec fn throw_verdict(f: ActionFacts) -> Availability {
    if !f.stamina_for_heavy {
        Availability::Unavailable { reason: "winded" }
    } else {
        match f.foe {
            None => Availability::Unavailable { reason: "no foe adjacent" },
            Some(foe) => if !foe.grappled {
                Availability::Unavailable { reason: "grapple them first" }
            } else {
                Availability::Available { cost_game_seconds: 0 }
            },
        }
    }
}

/// What the menu shows for verb `id` given `f`, with `cost` the verb's
/// cost in game-seconds at the player's speed.
pub open spec fn availability(f: ActionFacts, id: ActionId, cost: u32) -> Availability {
    let pack = f.pack.contents@;
    match id {
        ActionId::Pickup => pickup_verdict(f, cost),
        ActionId::EatRation => verdict(holds_kind(pack, ItemKind::Ration), cost, "no rations in pack"),
        ActionId::EatHerb => verdict(holds_kind(pack, ItemKind::Herb), cost, "no herbs in pack"),
        ActionId::DrinkWaterskin => verdict(
            exists|i: int| 0 <= i < pack.len() && has_water(#[trigger] pack[i]),
            cost,
            "no water in waterskins",
        ),
        ActionId::DrinkFromStream => verdict(beside_ground(f.tiles@, GroundTest::Water), cost, "no water adjacent"),
        ActionId::FillWaterskin => if !beside_ground(f.tiles@, GroundTest::Water) {
            Availability::Unavailable { reason: "no water adjacent" }
        } else {
            verdict(any_passes(pack, ItemTest::PartialWaterskin), cost, "waterskins already full")
        },
        ActionId::ChopTree => if !holds_kind(pack, ItemKind::Axe) {
            Availability::Unavailable { reason: "need an axe" }
        } else {
            verdict(beside_ground(f.tiles@, GroundTest::Trunk), cost, "no tree adjacent")
        },
        ActionId::PickHerb => if !holds_kind(pack, ItemKind::Knife) {
            Availability::Unavailable { reason: "need a knife" }
        } else {
            verdict(near_item(f.near@, ItemTest::Herb, false), cost, "no herb adjacent")
        },
        ActionId::PitchTent => verdict(holds_kind(pack, ItemKind::Tent), cost, "no tent in pack"),
        ActionId::UnrollBedroll => verdict(holds_kind(pack, ItemKind::Bedroll), cost, "no bedroll in pack"),
        ActionId::SetupCamp => verdict(
            holds_kind(pack, ItemKind::Tent) && holds_kind(pack, ItemKind::Bedroll),
            cost,
            "need tent + bedroll in pack",
        ),
        ActionId::StartFire => start_fire_verdict(f, cost),
        ActionId::FeedFire => feed_fire_verdict(f, cost),
        ActionId::Sleep => Availability::Available { cost_game_seconds: cost },
        ActionId::Fishing => verdict(beside_ground(f.tiles@, GroundTest::Pond), cost, "no pond adjacent"),
        ActionId::PlacePan => if !holds_kind(pack, ItemKind::CookingPan) && cap32(
            reach_tally(f, Tally::Plain(ItemKind::CookingPan)),
        ) == 0 {
            Availability::Unavailable { reason: "no cooking pan" }
        } else if !near_item(f.near@, ItemTest::LitFire, false) {
            Availability::Unavailable { reason: "no lit fire adjacent" }
        } else {
            Availability::Available { cost_game_seconds: cost }
        },
        ActionId::PickUpPan => verdict(
            near_item(f.near@, ItemTest::EmptyPan, true),
            cost,
            "no empty pan-on-fire to lift",
        ),
        ActionId::CookFish => if cap32(reach_tally(f, Tally::Plain(ItemKind::Fish))) == 0 {
            Availability::Unavailable { reason: "no fish in reach" }
        } else if !near_item(f.near@, ItemTest::FueledEmptyPan, true) {
            Availability::Unavailable { reason: "need empty pan-on-fire" }
        } else {
            Availability::Available { cost_game_seconds: cost }
        },
        ActionId::SeasonPan => if cap32(reach_tally(f, Tally::Plain(ItemKind::Herb))) == 0 {
            Availability::Unavailable { reason: "no herb in reach" }
        } else if !near_item(f.near@, ItemTest::UnseasonedCook, true) {
            Availability::Unavailable { reason: "no fresh cook to season" }
        } else {
            Availability::Available { cost_game_seconds: cost }
        },
        ActionId::TakeFromPan => verdict(
            near_item(f.near@, ItemTest::ReadyCook, true),
            cost,
            "nothing done in the pan",
        ),
        ActionId::HarvestMoss => harvest_verdict(f, DecorationTest::Moss, false, cost, "no moss adjacent"),
        ActionId::CutFern => harvest_verdict(f, DecorationTest::Fern, false, cost, "no fern adjacent"),
        ActionId::DigFern => harvest_verdict(f, DecorationTest::Fern, false, cost, "no fern adjacent"),
        ActionId::CutGorse => harvest_verdict(f, DecorationTest::Gorse, true, cost, "no gorse adjacent"),
        ActionId::CutBracken => harvest_verdict(f, DecorationTest::Bracken, false, cost, "no bracken adjacent"),
        ActionId::Aim => aim_verdict(f),
        ActionId::Grapple => grapple_verdict(f, false),
        ActionId::Disarm => grapple_verdict(f, true),
        ActionId::Throw => throw_verdict(f),
    }
}

/// The inputs on which the verdicts' sums do not overflow: the
/// fire verbs add up every reachable tinder, kindling and fuel, and a
/// pickup adds up what lies on the player's cell.
pub open spec fn evaluate_fits(f: ActionFacts, id: ActionId) -> bool {
    &&& (id == ActionId::StartFire || id == ActionId::FeedFire) ==> {
        &&& reach_tally(f, Tally::Tinder) <= u32::MAX
        &&& reach_tally(f, Tally::Kindling) <= u32::MAX
        &&& reach_tally(f, Tally::Fuel) <= u32::MAX
    }
    &&& id == ActionId::Pickup ==> (f.near@[4] matches Some(c) ==> stack_sum(c.items@) <= u32::MAX)
}

fn harvest(f: &ActionFacts, t: DecorationTest, axe: bool, cost: u32, missing: &'static str) -> (r: Availability)
    requires
        f.wf(),
    ensures
        r == harvest_verdict(*f, t, axe, cost, missing),
{
    let has_tool = if axe {
        f.pack.has_stack(ItemKind::Axe)
    } else {
        f.pack.has_stack(ItemKind::Knife)
    };
    if !has_tool {
        return Availability::Unavailable { reason: if axe { "need an axe" } else { "need a knife" } };
    }
    Availability::from_has(near_decoration_exec(&f.near, t), cost, missing)
}

fn grapple(f: &ActionFacts, disarm: bool) -> (r: Availability)
    ensures
        r == grapple_verdict(*f, disarm),
{
    if !f.stamina_for_heavy {
        return Availability::Unavailable { reason: "winded" };
    }
    match f.foe {
        None => Availability::Unavailable { reason: "no foe adjacent" },
        Some(foe) => if disarm && !foe.wielded {
            Availability::Unavailable { reason: "foe is unarmed" }
        } else {
            Availability::Available { cost_game_seconds: 0 }
        },
    }
}

/// What the menu shows for verb `id` (see `availability`), `cost` being
/// the verb's cost in game-seconds at the player's speed.
pub fn evaluate(f: &ActionFacts, id: ActionId, cost: u32) -> (r: Availability)
    requires
        f.wf(),
        evaluate_fits(*f, id),
    ensures
        r == availability(*f, id, cost),
{
    let pack = &f.pack;
    match id {
        ActionId::Pickup => match &f.near[4] {
            None => Availability::Unavailable { reason: "off the map" },
            Some(c) => {
                if c.items.len() == 0 {
                    return Availability::Unavailable { reason: "nothing here" };
                }
                let stack_weight = items_weight(&c.items);
                let carried = pack.total_weight_g();
                if carried.saturating_add(stack_weight) > pack.capacity_g {
                    return Availability::Unavailable { reason: "pack too full" };
                }
                Availability::Available { cost_game_seconds: cost }
            },
        },
        ActionId::EatRation => Availability::from_has(pack.has_stack(ItemKind::Ration), cost, "no rations in pack"),
        ActionId::EatHerb => Availability::from_has(pack.has_stack(ItemKind::Herb), cost, "no herbs in pack"),
        ActionId::DrinkWaterskin => Availability::from_has(
            pack.has_waterskin_with_water(),
            cost,
            "no water in waterskins",
        ),
        ActionId::DrinkFromStream => Availability::from_has(
            beside_ground_exec(&f.tiles, GroundTest::Water),
            cost,
            "no water adjacent",
        ),
        ActionId::FillWaterskin => {
            if !beside_ground_exec(&f.tiles, GroundTest::Water) {
                return Availability::Unavailable { reason: "no water adjacent" };
            }
            Availability::from_has(
                any_passes_exec(&pack.contents, ItemTest::PartialWaterskin),
                cost,
                "waterskins already full",
            )
        },
        ActionId::ChopTree => {
            if !pack.has_stack(ItemKind::Axe) {
                return Availability::Unavailable { reason: "need an axe" };
            }
            Availability::from_has(beside_ground_exec(&f.tiles, GroundTest::Trunk), cost, "no tree adjacent")
        },
        ActionId::PickHerb => {
            if !pack.has_stack(ItemKind::Knife) {
                return Availability::Unavailable { reason: "need a knife" };
            }
            Availability::from_has(near_item_exec(&f.near, ItemTest::Herb, false), cost, "no herb adjacent")
        },
        ActionId::PitchTent => Availability::from_has(pack.has_stack(ItemKind::Tent), cost, "no tent in pack"),
        ActionId::UnrollBedroll => Availability::from_has(
            pack.has_stack(ItemKind::Bedroll),
            cost,
            "no bedroll in pack",
        ),
        ActionId::SetupCamp => Availability::from_has(
            pack.has_stack(ItemKind::Tent) && pack.has_stack(ItemKind::Bedroll),
            cost,
            "need tent + bedroll in pack",
        ),
        ActionId::StartFire => {
            if !pack.has_stack(ItemKind::FlintAndSteel) {
                return Availability::Unavailable { reason: "no flint and steel" };
            }
            let tinder = reach_tally_exec(f, Tally::Tinder);
            let kindling = reach_tally_exec(f, Tally::Kindling);
            let fuel = reach_tally_exec(f, Tally::Fuel);
            if tinder < FIRE_MIN_TINDER {
                return Availability::Unavailable { reason: "need tinder (twig or grass)" };
            }
            if kindling < FIRE_MIN_KINDLING {
                return Availability::Unavailable { reason: "need 3 sticks" };
            }
            if fuel < FIRE_MIN_FUEL {
                return Availability::Unavailable { reason: "need 2 firewood" };
            }
            Availability::Available { cost_game_seconds: cost }
        },
        ActionId::FeedFire => {
            let lit_here = match &f.near[4] {
                Some(c) => any_passes_exec(&c.items, ItemTest::LitFire),
                None => false,
            };
            if !lit_here {
                return Availability::Unavailable { reason: "no fire here to feed" };
            }
            let fuel = reach_tally_exec(f, Tally::Fuel);
            if fuel < 1 {
                return Availability::Unavailable { reason: "no firewood within reach" };
            }
            Availability::Available { cost_game_seconds: cost }
        },
        ActionId::Sleep => Availability::Available { cost_game_seconds: cost },
        ActionId::Fishing => Availability::from_has(
            beside_ground_exec(&f.tiles, GroundTest::Pond),
            cost,
            "no pond adjacent",
        ),
        ActionId::PlacePan => {
            if !pack.has_stack(ItemKind::CookingPan) && reach_tally_exec(f, Tally::Plain(ItemKind::CookingPan)) == 0 {
                return Availability::Unavailable { reason: "no cooking pan" };
            }
            if !near_item_exec(&f.near, ItemTest::LitFire, false) {
                return Availability::Unavailable { reason: "no lit fire adjacent" };
            }
            Availability::Available { cost_game_seconds: cost }
        },
        ActionId::PickUpPan => Availability::from_has(
            near_item_exec(&f.near, ItemTest::EmptyPan, true),
            cost,
            "no empty pan-on-fire to lift",
        ),
        ActionId::CookFish => {
            if reach_tally_exec(f, Tally::Plain(ItemKind::Fish)) == 0 {
                return Availability::Unavailable { reason: "no fish in reach" };
            }
            if !near_item_exec(&f.near, ItemTest::FueledEmptyPan, true) {
                return Availability::Unavailable { reason: "need empty pan-on-fire" };
            }
            Availability::Available { cost_game_seconds: cost }
        },
        ActionId::SeasonPan => {
            if reach_tally_exec(f, Tally::Plain(ItemKind::Herb)) == 0 {
                return Availability::Unavailable { reason: "no herb in reach" };
            }
            if !near_item_exec(&f.near, ItemTest::UnseasonedCook, true) {
                return Availability::Unavailable { reason: "no fresh cook to season" };
            }
            Availability::Available { cost_game_seconds: cost }
        },
        ActionId::TakeFromPan => Availability::from_has(
            near_item_exec(&f.near, ItemTest::ReadyCook, true),
            cost,
            "nothing done in the pan",
        ),
        ActionId::HarvestMoss => harvest(f, DecorationTest::Moss, false, cost, "no moss adjacent"),
        ActionId::CutFern => harvest(f, DecorationTest::Fern, false, cost, "no fern adjacent"),
        ActionId::DigFern => harvest(f, DecorationTest::Fern, false, cost, "no fern adjacent"),
        ActionId::CutGorse => harvest(f, DecorationTest::Gorse, true, cost, "no gorse adjacent"),
        ActionId::CutBracken => harvest(f, DecorationTest::Bracken, false, cost, "no bracken adjacent"),
        ActionId::Aim => match &f.ranged_ammo {
            None => Availability::Unavailable { reason: "no ranged weapon equipped" },
            Some(key) => {
                if key.unicode_len() == 0 {
                    return Availability::Available { cost_game_seconds: 0 };
                }
                match ItemKind::from_save_key(key.as_str()) {
                    None => Availability::Unavailable { reason: "ammo kind unknown" },
                    Some(ammo) => if pack.has_stack(ammo) {
                        Availability::Available { cost_game_seconds: 0 }
                    } else {
                        Availability::Unavailable { reason: "no ammo in pack" }
                    },
                }
            },
        },
        ActionId::Grapple => grapple(f, false),
        ActionId::Disarm => grapple(f, true),
        ActionId::Throw => {
            if !f.stamina_for_heavy {
                return Availability::Unavailable { reason: "winded" };
            }
            match f.foe {
                None => Availability::Unavailable { reason: "no foe adjacent" },
                Some(foe) => if !foe.grappled {
                    Availability::Unavailable { reason: "grapple them first" }
                } else {
                    Availability::Available { cost_game_seconds: 0 }
                },
            }
        },
    }
}

/// Setting up camp needs both a tent and a bedroll with a positive count
/// in the pack: it is offered exactly then, at the cost given, and
/// otherwise refused saying both are needed.
pub proof fn law_setup_camp_needs_tent_and_bedroll(f: ActionFacts, cost: u32)
    ensures
        ({
            let pack = f.pack.contents@;
            let tent = exists|i: int| 0 <= i < pack.len() && pack[i].kind == ItemKind::Tent && pack[i].count > 0;
            let bedroll = exists|i: int|
                0 <= i < pack.len() && pack[i].kind == ItemKind::Bedroll && pack[i].count > 0;
            &&& tent && bedroll ==> availability(f, ActionId::SetupCamp, cost) == (Availability::Available {
                cost_game_seconds: cost,
            })
            &&& !(tent && bedroll) ==> availability(f, ActionId::SetupCamp, cost) == (Availability::Unavailable {
                reason: "need tent + bedroll in pack",
            })
        }),
{
}

/// Camp is offered exactly when both pitching the tent and unrolling
/// the bedroll are.
pub proof fn law_setup_camp_is_tent_and_bedroll(f: ActionFacts, cost: u32)
    ensures
        (availability(f, ActionId::SetupCamp, cost) is Available) == ((availability(f, ActionId::PitchTent, cost) is Available)
            && (availability(f, ActionId::UnrollBedroll, cost) is Available)),
{
}

} // verus!

