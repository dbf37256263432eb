//! Crafting data: what can be cooked, seasonings, pan contents, cook
//! progress thresholds, and the recipe rows the crafting tab lists.

use vstd::prelude::*;

use crate::action::ActionId;
use crate::text::str_eq;

verus! {

/// Things that can be cooked in a pan.
#[derive(Clone, Copy, Debug, PartialEq, Eq, Structural)]
pub enum CookableKind {
    Fish,
}

pub open spec fn cookable_key(k: CookableKind) -> Seq<char> {
    match k {
        CookableKind::Fish => "fish"@,
    }
}

pub open spec fn cookable_from_key(s: Seq<char>) -> Option<CookableKind> {
    if s == "fish"@ {
        Some(CookableKind::Fish)
    } else {
        None
    }
}

/// Seconds until a cookable is done.
pub open spec fn cook_target_secs(k: CookableKind) -> u32 {
    match k {
        CookableKind::Fish => 120,
    }
}

/// Seconds until a cookable burns: twice the target, saturating.
pub open spec fn cook_burn_secs(k: CookableKind) -> u32 {
    if cook_target_secs(k) * 2 > u32::MAX {
        u32::MAX
    } else {
        (cook_target_secs(k) * 2) as u32
    }
}

impl CookableKind {
    pub fn save_key(self) -> (r: &'static str)
        ensures
            r@ == cookable_key(self),
    {
        match self {
            CookableKind::Fish => "fish",
        }
    }

    pub fn from_save_key(s: &str) -> (r: Option<Self>)
        ensures
            r == cookable_from_key(s@),
    {
        if str_eq(s, "fish") {
            Some(CookableKind::Fish)
        } else {
            None
        }
    }

    pub fn raw_name(self) -> (r: &'static str)
        ensures
            r@ == cookable_key(self),
    {
        match self {
            CookableKind::Fish => "fish",
        }
    }

    /// When "ok" first appears.
    pub fn target_secs(self) -> (r: u32)
        ensures
            r == cook_target_secs(self),
    {
        match self {
            CookableKind::Fish => 120,
        }
    }

    /// When the state flips to burnt: twice the target.
    pub fn burn_secs(self) -> (r: u32)
        ensures
            r == cook_burn_secs(self),
    {
        let t = self.target_secs();
        if t > u32::MAX / 2 {
            u32::MAX
        } else {
            t * 2
        }
    }
}

#[derive(Clone, Copy, Debug, PartialEq, Eq, Structural)]
/// Outcome of a finished cook. `Good` is saved under the key "ok".
pub enum CookedState {
    Good,
    Burnt,
}

pub open spec fn cooked_state_key(s: CookedState) -> Seq<char> {
    match s {
        CookedState::Good => "ok"@,
        CookedState::Burnt => "burnt"@,
    }
}

pub open spec fn cooked_state_from_key(s: Seq<char>) -> Option<CookedState> {
    if s == "ok"@ {
        Some(CookedState::Good)
    } else if s == "burnt"@ {
        Some(CookedState::Burnt)
    } else {
        None
    }
}

impl CookedState {
    pub fn save_key(self) -> (r: &'static str)
        ensures
            r@ == cooked_state_key(self),
    {
        match self {
            CookedState::Good => "ok",
            CookedState::Burnt => "burnt",
        }
    }

    pub fn from_save_key(s: &str) -> (r: Option<Self>)
        ensures
            r == cooked_state_from_key(s@),
    {
        if str_eq(s, "ok") {
            Some(CookedState::Good)
        } else if str_eq(s, "burnt") {
            Some(CookedState::Burnt)
        } else {
            None
        }
    }
}

/// Each cooking save key leads back to its value.
pub proof fn law_cooking_keys_round_trip(k: CookableKind, s: CookedState)
    ensures
        cookable_from_key(cookable_key(k)) == Some(k),
        cooked_state_from_key(cooked_state_key(s)) == Some(s),
{
    reveal_strlit("ok");
    reveal_strlit("burnt");
    assert("burnt"@.len() != "ok"@.len());
}

/// Composable seasoning tags, stored as bits of `Seasonings`.
#[derive(Clone, Copy, Debug, PartialEq, Eq, Structural)]
pub enum ModifierTag {
    Herb,
}

/// The bit a tag occupies in `Seasonings`.
pub open spec fn tag_bit(t: ModifierTag) -> u8 {
    match t {
        ModifierTag::Herb => 0,
    }
}

fn tag_bit_exec(t: ModifierTag) -> (r: u8)
    ensures
        r == tag_bit(t),
        r < 8,
{
    match t {
        ModifierTag::Herb => 0,
    }
}

/// 8-bit modifier bitfield. The default has no modifiers.
#[derive(Clone, Copy, Debug, PartialEq, Eq, Structural)]
pub struct Seasonings(pub u8);

pub open spec fn seasonings_has(s: Seasonings, t: ModifierTag) -> bool {
    s.0 & (1u8 << tag_bit(t)) != 0
}

impl Default for Seasonings {
    fn default() -> (r: Self)
        ensures
            r.0 == 0,
    {
        Seasonings(0)
    }
}

impl Seasonings {
    pub fn empty() -> (r: Self)
        ensures
            r.0 == 0,
    {
        Self(0)
    }

    pub fn has(self, t: ModifierTag) -> (r: bool)
        ensures
            r == seasonings_has(self, t),
    {
        let b = tag_bit_exec(t);
        (self.0 & (1u8 << b)) != 0
    }

    pub fn set(&mut self, t: ModifierTag)
        ensures
            final(self).0 == old(self).0 | (1u8 << tag_bit(t)),
    {
        let b = tag_bit_exec(t);
        self.0 = self.0 | (1u8 << b);
    }
}

/// A tag that is set reads back as present; an empty set holds no tag.
pub proof fn law_set_then_has(s: Seasonings, t: ModifierTag)
    ensures
        seasonings_has(Seasonings(s.0 | (1u8 << tag_bit(t))), t),
        !seasonings_has(Seasonings(0), t),
{
    let b = tag_bit(t);
    let v = s.0;
    assert(b < 8);
    assert((v | (1u8 << b)) & (1u8 << b) != 0) by (bit_vector)
        requires
            b < 8,
    ;
    assert(0u8 & (1u8 << b) == 0) by (bit_vector);
}

/// What is inside a pan that stands on a fire.
#[derive(Clone, Copy, Debug, PartialEq, Eq, Structural)]
pub enum PanContents {
    Empty,
    Cooking { input: CookableKind, elapsed_secs: u32, seasonings: Seasonings },
}

/// Cook state of an in-flight cook.
#[derive(Clone, Copy, Debug, PartialEq, Eq, Structural)]
pub enum CookProgress {
    Raw,
    Done,
    Burnt,
}

pub open spec fn spec_cook_progress(input: CookableKind, elapsed_secs: u32) -> CookProgress {
    if elapsed_secs >= cook_burn_secs(input) {
        CookProgress::Burnt
    } else if elapsed_secs >= cook_target_secs(input) {
        CookProgress::Done
    } else {
        CookProgress::Raw
    }
}

/// Order of the cook states: raw, then ok, then burnt.
pub open spec fn progress_rank(p: CookProgress) -> int {
    match p {
        CookProgress::Raw => 0,
        CookProgress::Done => 1,
        CookProgress::Burnt => 2,
    }
}

pub fn cook_progress(input: CookableKind, elapsed_secs: u32) -> (r: CookProgress)
    ensures
        r == spec_cook_progress(input, elapsed_secs),
{
    if elapsed_secs >= input.burn_secs() {
        CookProgress::Burnt
    } else if elapsed_secs >= input.target_secs() {
        CookProgress::Done
    } else {
        CookProgress::Raw
    }
}

/// Cooking only moves forward: more elapsed time never gives an earlier
/// state.
pub proof fn law_cook_progress_monotone(input: CookableKind, a: u32, b: u32)
    requires
        a <= b,
    ensures
        progress_rank(spec_cook_progress(input, a)) <= progress_rank(spec_cook_progress(input, b)),
{
}

/// A crafting-tab row: the verb it triggers, its label, and the station
/// skill it needs (`None` = craftable anywhere).
pub struct Recipe {
    pub action: ActionId,
    pub name: &'static str,
    pub station: Option<&'static str>,
}

/// The verbs of the crafting tab's rows, in row order.
pub open spec fn recipe_ids() -> Seq<ActionId> {
    seq![
        ActionId::PlacePan,
        ActionId::PickUpPan,
        ActionId::CookFish,
        ActionId::SeasonPan,
        ActionId::TakeFromPan,
        ActionId::EatHerb,
    ]
}

/// The recipe rows the crafting tab iterates, in order.
pub fn recipes() -> (r: Vec<Recipe>)
    ensures
        r.len() == 6,
        forall|i: int| 0 <= i < 6 ==> #[trigger] r[i].action == recipe_ids()[i],
        r[0].action == ActionId::PlacePan,
        r[1].action == ActionId::PickUpPan,
        r[2].action == ActionId::CookFish,
        r[3].action == ActionId::SeasonPan,
        r[4].action == ActionId::TakeFromPan,
        r[5].action == ActionId::EatHerb,
        forall|i: int| 0 <= i < 6 ==> r[i].station is None,
{
    let mut v: Vec<Recipe> = Vec::new();
    v.push(Recipe { action: ActionId::PlacePan, name: "Place pan on fire", station: None });
    v.push(Recipe { action: ActionId::PickUpPan, name: "Pick up pan", station: None });
    v.push(Recipe { action: ActionId::CookFish, name: "Cook fish", station: None });
    v.push(Recipe { action: ActionId::SeasonPan, name: "Season pan w/ herb", station: None });
    v.push(Recipe { action: ActionId::TakeFromPan, name: "Take from pan", station: None });
    v.push(Recipe { action: ActionId::EatHerb, name: "Eat herb", station: None });
    v
}

} // verus!
