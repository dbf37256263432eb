//! Item identity, weights, metadata and the player's pack.
//!
//! `ItemKind`s are fungible (twigs, sticks, ...) or unique (axe,
//! waterskin, ...). Fungibles stack into one `ItemInstance` with a count;
//! uniques have count 1 and carry per-instance metadata. Weight is per
//! unit; a stack weighs `count * weight_g_each`. Saves use stable string
//! keys; unknown kinds are dropped on load.

use vstd::prelude::*;

use crate::crafting::{
    cook_progress, cook_target_secs, cookable_from_key, cookable_key, cooked_state_from_key,
    cooked_state_key, seasonings_has, spec_cook_progress, CookProgress, CookableKind,
    CookedState, ModifierTag, PanContents, Seasonings,
};
use crate::save::{
    InstanceRecord, ItemInstanceSave, ItemMetadataSave, MetadataRecord, PackSave,
};
use crate::text::{decimal, owned, push, str_eq, u32_to_decimal};

verus! {

#[derive(Clone, Copy, Debug, PartialEq, Eq, Hash, Structural)]
pub enum ItemKind {
    Axe,
    Knife,
    Pack,
    Tent,
    Bedroll,
    CookingPan,
    Waterskin,
    FlintAndSteel,
    Herb,
    Twig,
    Stick,
    Firewood,
    GrassBlade,
    Stone,
    MossPatch,
    Mud,
    Ration,
    Fish,
    Cooked,
    Moss,
    FernFrond,
    FernRoot,
    GorseFaggot,
    BrackenStraw,
    BrambleFruit,
    Hazelnut,
    Acorn,
    RowanBerry,
    Spear,
}

/// Per-kind metadata, all in one place.
pub struct ItemDef {
    pub save_key: &'static str,
    pub name: &'static str,
    pub is_fungible: bool,
    pub glyph: u8,
    pub color: [u8; 3],
    /// Weight per unit in grams of a freshly made default instance
    /// (waterskins are empty here).
    pub default_weight_g: u32,
    /// Organic detritus that reads as part of the floor when drawn.
    pub blends_with_terrain: bool,
}

/// Stable save key of a kind.
pub open spec fn item_key(k: ItemKind) -> Seq<char> {
    match k {
        ItemKind::Axe => "axe"@,
        ItemKind::Knife => "knife"@,
        ItemKind::Pack => "pack"@,
        ItemKind::Tent => "tent"@,
        ItemKind::Bedroll => "bedroll"@,
        ItemKind::CookingPan => "cooking_pan"@,
        ItemKind::Waterskin => "waterskin"@,
        ItemKind::FlintAndSteel => "flint_and_steel"@,
        ItemKind::Herb => "herb"@,
        ItemKind::Twig => "twig"@,
        ItemKind::Stick => "stick"@,
        ItemKind::Firewood => "firewood"@,
        ItemKind::GrassBlade => "grass_blade"@,
        ItemKind::Stone => "stone"@,
        ItemKind::MossPatch => "moss_patch"@,
        ItemKind::Mud => "mud"@,
        ItemKind::Ration => "ration"@,
        ItemKind::Fish => "fish"@,
        ItemKind::Cooked => "cooked"@,
        ItemKind::Moss => "moss"@,
        ItemKind::FernFrond => "fern_frond"@,
        ItemKind::FernRoot => "fern_root"@,
        ItemKind::GorseFaggot => "gorse_faggot"@,
        ItemKind::BrackenStraw => "bracken_straw"@,
        ItemKind::BrambleFruit => "bramble_fruit"@,
        ItemKind::Hazelnut => "hazelnut"@,
        ItemKind::Acorn => "acorn"@,
        ItemKind::RowanBerry => "rowan_berry"@,
        ItemKind::Spear => "spear"@,
    }
}

/// Display name of a kind.
pub open spec fn item_name(k: ItemKind) -> Seq<char> {
    match k {
        ItemKind::Axe => "axe"@,
        ItemKind::Knife => "knife"@,
        ItemKind::Pack => "pack"@,
        ItemKind::Tent => "tent"@,
        ItemKind::Bedroll => "bedroll"@,
        ItemKind::CookingPan => "cooking pan"@,
        ItemKind::Waterskin => "waterskin"@,
        ItemKind::FlintAndSteel => "flint and steel"@,
        ItemKind::Herb => "herb"@,
        ItemKind::Twig => "twig"@,
        ItemKind::Stick => "stick"@,
        ItemKind::Firewood => "firewood"@,
        ItemKind::GrassBlade => "grass blade"@,
        ItemKind::Stone => "stone"@,
        ItemKind::MossPatch => "moss patch"@,
        ItemKind::Mud => "mud"@,
        ItemKind::Ration => "ration"@,
        ItemKind::Fish => "fish"@,
        ItemKind::Cooked => "cooked food"@,
        ItemKind::Moss => "moss"@,
        ItemKind::FernFrond => "fern frond"@,
        ItemKind::FernRoot => "fern root"@,
        ItemKind::GorseFaggot => "gorse faggot"@,
        ItemKind::BrackenStraw => "bracken straw"@,
        ItemKind::BrambleFruit => "bramble fruit"@,
        ItemKind::Hazelnut => "hazelnut"@,
        ItemKind::Acorn => "acorn"@,
        ItemKind::RowanBerry => "rowan berry"@,
        ItemKind::Spear => "spear"@,
    }
}

/// Whether units of a kind stack.
pub open spec fn item_fungible(k: ItemKind) -> bool {
    match k {
        ItemKind::Axe => false,
        ItemKind::Knife => false,
        ItemKind::Pack => false,
        ItemKind::Tent => false,
        ItemKind::Bedroll => false,
        ItemKind::CookingPan => false,
        ItemKind::Waterskin => false,
        ItemKind::FlintAndSteel => false,
        ItemKind::Herb => false,
        ItemKind::Twig => true,
        ItemKind::Stick => true,
        ItemKind::Firewood => true,
        ItemKind::GrassBlade => true,
        ItemKind::Stone => true,
        ItemKind::MossPatch => true,
        ItemKind::Mud => true,
        ItemKind::Ration => true,
        ItemKind::Fish => true,
        ItemKind::Cooked => false,
        ItemKind::Moss => true,
        ItemKind::FernFrond => true,
        ItemKind::FernRoot => true,
        ItemKind::GorseFaggot => true,
        ItemKind::BrackenStraw => true,
        ItemKind::BrambleFruit => true,
        ItemKind::Hazelnut => true,
        ItemKind::Acorn => true,
        ItemKind::RowanBerry => true,
        ItemKind::Spear => false,
    }
}

/// Atlas glyph of a kind.
pub open spec fn item_glyph(k: ItemKind) -> u8 {
    match k {
        ItemKind::Axe => 0x50,
        ItemKind::Knife => 0x2d,
        ItemKind::Pack => 0x5b,
        ItemKind::Tent => 0x1E,
        ItemKind::Bedroll => 0x3d,
        ItemKind::CookingPan => 0x4f,
        ItemKind::Waterskin => 0x75,
        ItemKind::FlintAndSteel => 0x21,
        ItemKind::Herb => 0xE7,
        ItemKind::Twig => 0x2c,
        ItemKind::Stick => 0x2f,
        ItemKind::Firewood => 0x16,
        ItemKind::GrassBlade => 0x22,
        ItemKind::Stone => 0x07,
        ItemKind::MossPatch => 0x25,
        ItemKind::Mud => 0x25,
        ItemKind::Ration => 0xE0,
        ItemKind::Fish => 0x66,
        ItemKind::Cooked => 0x25,
        ItemKind::Moss => 0x07,
        ItemKind::FernFrond => 0xF0,
        ItemKind::FernRoot => 0x2f,
        ItemKind::GorseFaggot => 0x16,
        ItemKind::BrackenStraw => 0x22,
        ItemKind::BrambleFruit => 0xFA,
        ItemKind::Hazelnut => 0x6f,
        ItemKind::Acorn => 0x6f,
        ItemKind::RowanBerry => 0xFA,
        ItemKind::Spear => 0x2f,
    }
}

/// Foreground colour of a kind.
pub open spec fn item_color(k: ItemKind) -> Seq<u8> {
    match k {
        ItemKind::Axe => seq![180, 180, 200],
        ItemKind::Knife => seq![180, 180, 200],
        ItemKind::Pack => seq![130, 90, 50],
        ItemKind::Tent => seq![200, 180, 140],
        ItemKind::Bedroll => seq![220, 200, 160],
        ItemKind::CookingPan => seq![80, 80, 90],
        ItemKind::Waterskin => seq![100, 140, 200],
        ItemKind::FlintAndSteel => seq![230, 140, 60],
        ItemKind::Herb => seq![100, 165, 75],
        ItemKind::Twig => seq![200, 170, 110],
        ItemKind::Stick => seq![200, 170, 110],
        ItemKind::Firewood => seq![150, 100, 55],
        ItemKind::GrassBlade => seq![80, 160, 70],
        ItemKind::Stone => seq![165, 165, 175],
        ItemKind::MossPatch => seq![50, 100, 50],
        ItemKind::Mud => seq![110, 80, 50],
        ItemKind::Ration => seq![225, 180, 110],
        ItemKind::Fish => seq![140, 170, 210],
        ItemKind::Cooked => seq![200, 150, 90],
        ItemKind::Moss => seq![80, 130, 80],
        ItemKind::FernFrond => seq![90, 145, 70],
        ItemKind::FernRoot => seq![140, 100, 60],
        ItemKind::GorseFaggot => seq![200, 170, 60],
        ItemKind::BrackenStraw => seq![160, 110, 50],
        ItemKind::BrambleFruit => seq![140, 60, 95],
        ItemKind::Hazelnut => seq![180, 130, 70],
        ItemKind::Acorn => seq![150, 110, 60],
        ItemKind::RowanBerry => seq![200, 70, 50],
        ItemKind::Spear => seq![170, 140, 90],
    }
}

/// Per-unit weight of a default instance, in grams.
pub open spec fn item_default_weight(k: ItemKind) -> u32 {
    match k {
        ItemKind::Axe => 1000,
        ItemKind::Knife => 200,
        ItemKind::Pack => 1000,
        ItemKind::Tent => 5000,
        ItemKind::Bedroll => 2000,
        ItemKind::CookingPan => 1000,
        ItemKind::Waterskin => 200,
        ItemKind::FlintAndSteel => 100,
        ItemKind::Herb => 10,
        ItemKind::Twig => 5,
        ItemKind::Stick => 50,
        ItemKind::Firewood => 500,
        ItemKind::GrassBlade => 2,
        ItemKind::Stone => 200,
        ItemKind::MossPatch => 10,
        ItemKind::Mud => 300,
        ItemKind::Ration => 500,
        ItemKind::Fish => 400,
        ItemKind::Cooked => 400,
        ItemKind::Moss => 10,
        ItemKind::FernFrond => 15,
        ItemKind::FernRoot => 40,
        ItemKind::GorseFaggot => 250,
        ItemKind::BrackenStraw => 5,
        ItemKind::BrambleFruit => 25,
        ItemKind::Hazelnut => 8,
        ItemKind::Acorn => 12,
        ItemKind::RowanBerry => 10,
        ItemKind::Spear => 1800,
    }
}

/// Whether a kind blends into the floor when drawn.
pub open spec fn item_blends(k: ItemKind) -> bool {
    match k {
        ItemKind::Axe => false,
        ItemKind::Knife => false,
        ItemKind::Pack => false,
        ItemKind::Tent => false,
        ItemKind::Bedroll => false,
        ItemKind::CookingPan => false,
        ItemKind::Waterskin => false,
        ItemKind::FlintAndSteel => false,
        ItemKind::Herb => false,
        ItemKind::Twig => true,
        ItemKind::Stick => true,
        ItemKind::Firewood => false,
        ItemKind::GrassBlade => true,
        ItemKind::Stone => false,
        ItemKind::MossPatch => true,
        ItemKind::Mud => true,
        ItemKind::Ration => false,
        ItemKind::Fish => false,
        ItemKind::Cooked => false,
        ItemKind::Moss => true,
        ItemKind::FernFrond => true,
        ItemKind::FernRoot => false,
        ItemKind::GorseFaggot => false,
        ItemKind::BrackenStraw => true,
        ItemKind::BrambleFruit => false,
        ItemKind::Hazelnut => false,
        ItemKind::Acorn => false,
        ItemKind::RowanBerry => false,
        ItemKind::Spear => false,
    }
}

/// The kind saved under `s`, if any.
pub open spec fn item_from_key(s: Seq<char>) -> Option<ItemKind> {
    if s == "axe"@ {
        Some(ItemKind::Axe)
    } else if s == "knife"@ {
        Some(ItemKind::Knife)
    } else if s == "pack"@ {
        Some(ItemKind::Pack)
    } else if s == "tent"@ {
        Some(ItemKind::Tent)
    } else if s == "bedroll"@ {
        Some(ItemKind::Bedroll)
    } else if s == "cooking_pan"@ {
        Some(ItemKind::CookingPan)
    } else if s == "waterskin"@ {
        Some(ItemKind::Waterskin)
    } else if s == "flint_and_steel"@ {
        Some(ItemKind::FlintAndSteel)
    } else if s == "herb"@ {
        Some(ItemKind::Herb)
    } else if s == "twig"@ {
        Some(ItemKind::Twig)
    } else if s == "stick"@ {
        Some(ItemKind::Stick)
    } else if s == "firewood"@ {
        Some(ItemKind::Firewood)
    } else if s == "grass_blade"@ {
        Some(ItemKind::GrassBlade)
    } else if s == "stone"@ {
        Some(ItemKind::Stone)
    } else if s == "moss_patch"@ {
        Some(ItemKind::MossPatch)
    } else if s == "mud"@ {
        Some(ItemKind::Mud)
    } else if s == "ration"@ {
        Some(ItemKind::Ration)
    } else if s == "fish"@ {
        Some(ItemKind::Fish)
    } else if s == "cooked"@ {
        Some(ItemKind::Cooked)
    } else if s == "moss"@ {
        Some(ItemKind::Moss)
    } else if s == "fern_frond"@ {
        Some(ItemKind::FernFrond)
    } else if s == "fern_root"@ {
        Some(ItemKind::FernRoot)
    } else if s == "gorse_faggot"@ {
        Some(ItemKind::GorseFaggot)
    } else if s == "bracken_straw"@ {
        Some(ItemKind::BrackenStraw)
    } else if s == "bramble_fruit"@ {
        Some(ItemKind::BrambleFruit)
    } else if s == "hazelnut"@ {
        Some(ItemKind::Hazelnut)
    } else if s == "acorn"@ {
        Some(ItemKind::Acorn)
    } else if s == "rowan_berry"@ {
        Some(ItemKind::RowanBerry)
    } else if s == "spear"@ {
        Some(ItemKind::Spear)
    } else {
        None
    }
}

/// Every kind's save key leads back to that kind.
pub proof fn law_item_key_round_trip(a: ItemKind)
    ensures
        item_from_key(item_key(a)) == Some(a),
{
    match a {
        ItemKind::Axe => {
            reveal_strlit("axe");
        },
        ItemKind::Knife => {
            reveal_strlit("knife");
            reveal_strlit("axe");
            assert("knife"@.len() != "axe"@.len());
        },
        ItemKind::Pack => {
            reveal_strlit("pack");
            reveal_strlit("axe");
            assert("pack"@.len() != "axe"@.len());
            reveal_strlit("knife");
            assert("pack"@.len() != "knife"@.len());
        },
        ItemKind::Tent => {
            reveal_strlit("tent");
            reveal_strlit("axe");
            assert("tent"@.len() != "axe"@.len());
            reveal_strlit("knife");
            assert("tent"@.len() != "knife"@.len());
            reveal_strlit("pack");
            assert("tent"@[0] != "pack"@[0]);
        },
        ItemKind::Bedroll => {
            reveal_strlit("bedroll");
            reveal_strlit("axe");
            assert("bedroll"@.len() != "axe"@.len());
            reveal_strlit("knife");
            assert("bedroll"@.len() != "knife"@.len());
            reveal_strlit("pack");
            assert("bedroll"@.len() != "pack"@.len());
            reveal_strlit("tent");
            assert("bedroll"@.len() != "tent"@.len());
        },
        ItemKind::CookingPan => {
            reveal_strlit("cooking_pan");
            reveal_strlit("axe");
            assert("cooking_pan"@.len() != "axe"@.len());
            reveal_strlit("knife");
            assert("cooking_pan"@.len() != "knife"@.len());
            reveal_strlit("pack");
            assert("cooking_pan"@.len() != "pack"@.len());
            reveal_strlit("tent");
            assert("cooking_pan"@.len() != "tent"@.len());
            reveal_strlit("bedroll");
            assert("cooking_pan"@.len() != "bedroll"@.len());
        },
        ItemKind::Waterskin => {
            reveal_strlit("waterskin");
            reveal_strlit("axe");
            assert("waterskin"@.len() != "axe"@.len());
            reveal_strlit("knife");
            assert("waterskin"@.len() != "knife"@.len());
            reveal_strlit("pack");
            assert("waterskin"@.len() != "pack"@.len());
            reveal_strlit("tent");
            assert("waterskin"@.len() != "tent"@.len());
            reveal_strlit("bedroll");
            assert("waterskin"@.len() != "bedroll"@.len());
            reveal_strlit("cooking_pan");
            assert("waterskin"@.len() != "cooking_pan"@.len());
        },
        ItemKind::FlintAndSteel => {
            reveal_strlit("flint_and_steel");
            reveal_strlit("axe");
            assert("flint_and_steel"@.len() != "axe"@.len());
            reveal_strlit("knife");
            assert("flint_and_steel"@.len() != "knife"@.len());
            reveal_strlit("pack");
            assert("flint_and_steel"@.len() != "pack"@.len());
            reveal_strlit("tent");
            assert("flint_and_steel"@.len() != "tent"@.len());
            reveal_strlit("bedroll");
            assert("flint_and_steel"@.len() != "bedroll"@.len());
            reveal_strlit("cooking_pan");
            assert("flint_and_steel"@.len() != "cooking_pan"@.len());
            reveal_strlit("waterskin");
            assert("flint_and_steel"@.len() != "waterskin"@.len());
        },
        ItemKind::Herb => {
            reveal_strlit("herb");
            reveal_strlit("axe");
            assert("herb"@.len() != "axe"@.len());
            reveal_strlit("knife");
            assert("herb"@.len() != "knife"@.len());
            reveal_strlit("pack");
            assert("herb"@[0] != "pack"@[0]);
            reveal_strlit("tent");
            assert("herb"@[0] != "tent"@[0]);
            reveal_strlit("bedroll");
            assert("herb"@.len() != "bedroll"@.len());
            reveal_strlit("cooking_pan");
            assert("herb"@.len() != "cooking_pan"@.len());
            reveal_strlit("waterskin");
            assert("herb"@.len() != "waterskin"@.len());
            reveal_strlit("flint_and_steel");
            assert("herb"@.len() != "flint_and_steel"@.len());
        },
        ItemKind::Twig => {
            reveal_strlit("twig");
            reveal_strlit("axe");
            assert("twig"@.len() != "axe"@.len());
            reveal_strlit("knife");
            assert("twig"@.len() != "knife"@.len());
            reveal_strlit("pack");
            assert("twig"@[0] != "pack"@[0]);
            reveal_strlit("tent");
            assert("twig"@[1] != "tent"@[1]);
            reveal_strlit("bedroll");
            assert("twig"@.len() != "bedroll"@.len());
            reveal_strlit("cooking_pan");
            assert("twig"@.len() != "cooking_pan"@.len());
            reveal_strlit("waterskin");
            assert("twig"@.len() != "waterskin"@.len());
            reveal_strlit("flint_and_steel");
            assert("twig"@.len() != "flint_and_steel"@.len());
            reveal_strlit("herb");
            assert("twig"@[0] != "herb"@[0]);
        },
        ItemKind::Stick => {
            reveal_strlit("stick");
            reveal_strlit("axe");
            assert("stick"@.len() != "axe"@.len());
            reveal_strlit("knife");
            assert("stick"@[0] != "knife"@[0]);
            reveal_strlit("pack");
            assert("stick"@.len() != "pack"@.len());
            reveal_strlit("tent");
            assert("stick"@.len() != "tent"@.len());
            reveal_strlit("bedroll");
            assert("stick"@.len() != "bedroll"@.len());
            reveal_strlit("cooking_pan");
            assert("stick"@.len() != "cooking_pan"@.len());
            reveal_strlit("waterskin");
            assert("stick"@.len() != "waterskin"@.len());
            reveal_strlit("flint_and_steel");
            assert("stick"@.len() != "flint_and_steel"@.len());
            reveal_strlit("herb");
            assert("stick"@.len() != "herb"@.len());
            reveal_strlit("twig");
            assert("stick"@.len() != "twig"@.len());
        },
        ItemKind::Firewood => {
            reveal_strlit("firewood");
            reveal_strlit("axe");
            assert("firewood"@.len() != "axe"@.len());
            reveal_strlit("knife");
            assert("firewood"@.len() != "knife"@.len());
            reveal_strlit("pack");
            assert("firewood"@.len() != "pack"@.len());
            reveal_strlit("tent");
            assert("firewood"@.len() != "tent"@.len());
            reveal_strlit("bedroll");
            assert("firewood"@.len() != "bedroll"@.len());
            reveal_strlit("cooking_pan");
            assert("firewood"@.len() != "cooking_pan"@.len());
            reveal_strlit("waterskin");
            assert("firewood"@.len() != "waterskin"@.len());
            reveal_strlit("flint_and_steel");
            assert("firewood"@.len() != "flint_and_steel"@.len());
            reveal_strlit("herb");
            assert("firewood"@.len() != "herb"@.len());
            reveal_strlit("twig");
            assert("firewood"@.len() != "twig"@.len());
            reveal_strlit("stick");
            assert("firewood"@.len() != "stick"@.len());
        },
        ItemKind::GrassBlade => {
            reveal_strlit("grass_blade");
            reveal_strlit("axe");
            assert("grass_blade"@.len() != "axe"@.len());
            reveal_strlit("knife");
            assert("grass_blade"@.len() != "knife"@.len());
            reveal_strlit("pack");
            assert("grass_blade"@.len() != "pack"@.len());
            reveal_strlit("tent");
            assert("grass_blade"@.len() != "tent"@.len());
            reveal_strlit("bedroll");
            assert("grass_blade"@.len() != "bedroll"@.len());
            reveal_strlit("cooking_pan");
            assert("grass_blade"@[0] != "cooking_pan"@[0]);
            reveal_strlit("waterskin");
            assert("grass_blade"@.len() != "waterskin"@.len());
            reveal_strlit("flint_and_steel");
            assert("grass_blade"@.len() != "flint_and_steel"@.len());
            reveal_strlit("herb");
            assert("grass_blade"@.len() != "herb"@.len());
            reveal_strlit("twig");
            assert("grass_blade"@.len() != "twig"@.len());
            reveal_strlit("stick");
            assert("grass_blade"@.len() != "stick"@.len());
            reveal_strlit("firewood");
            assert("grass_blade"@.len() != "firewood"@.len());
        },
        ItemKind::Stone => {
            reveal_strlit("stone");
            reveal_strlit("axe");
            assert("stone"@.len() != "axe"@.len());
            reveal_strlit("knife");
            assert("stone"@[0] != "knife"@[0]);
            reveal_strlit("pack");
            assert("stone"@.len() != "pack"@.len());
            reveal_strlit("tent");
            assert("stone"@.len() != "tent"@.len());
            reveal_strlit("bedroll");
            assert("stone"@.len() != "bedroll"@.len());
            reveal_strlit("cooking_pan");
            assert("stone"@.len() != "cooking_pan"@.len());
            reveal_strlit("waterskin");
            assert("stone"@.len() != "waterskin"@.len());
            reveal_strlit("flint_and_steel");
            assert("stone"@.len() != "flint_and_steel"@.len());
            reveal_strlit("herb");
            assert("stone"@.len() != "herb"@.len());
            reveal_strlit("twig");
            assert("stone"@.len() != "twig"@.len());
            reveal_strlit("stick");
            assert("stone"@[2] != "stick"@[2]);
            reveal_strlit("firewood");
            assert("stone"@.len() != "firewood"@.len());
            reveal_strlit("grass_blade");
            assert("stone"@.len() != "grass_blade"@.len());
        },
        ItemKind::MossPatch => {
            reveal_strlit("moss_patch");
            reveal_strlit("axe");
            assert("moss_patch"@.len() != "axe"@.len());
            reveal_strlit("knife");
            assert("moss_patch"@.len() != "knife"@.len());
            reveal_strlit("pack");
            assert("moss_patch"@.len() != "pack"@.len());
            reveal_strlit("tent");
            assert("moss_patch"@.len() != "tent"@.len());
            reveal_strlit("bedroll");
            assert("moss_patch"@.len() != "bedroll"@.len());
            reveal_strlit("cooking_pan");
            assert("moss_patch"@.len() != "cooking_pan"@.len());
            reveal_strlit("waterskin");
            assert("moss_patch"@.len() != "waterskin"@.len());
            reveal_strlit("flint_and_steel");
            assert("moss_patch"@.len() != "flint_and_steel"@.len());
            reveal_strlit("herb");
            assert("moss_patch"@.len() != "herb"@.len());
            reveal_strlit("twig");
            assert("moss_patch"@.len() != "twig"@.len());
            reveal_strlit("stick");
            assert("moss_patch"@.len() != "stick"@.len());
            reveal_strlit("firewood");
            assert("moss_patch"@.len() != "firewood"@.len());
            reveal_strlit("grass_blade");
            assert("moss_patch"@.len() != "grass_blade"@.len());
            reveal_strlit("stone");
            assert("moss_patch"@.len() != "stone"@.len());
        },
        ItemKind::Mud => {
            reveal_strlit("mud");
            reveal_strlit("axe");
            assert("mud"@[0] != "axe"@[0]);
            reveal_strlit("knife");
            assert("mud"@.len() != "knife"@.len());
            reveal_strlit("pack");
            assert("mud"@.len() != "pack"@.len());
            reveal_strlit("tent");
            assert("mud"@.len() != "tent"@.len());
            reveal_strlit("bedroll");
            assert("mud"@.len() != "bedroll"@.len());
            reveal_strlit("cooking_pan");
            assert("mud"@.len() != "cooking_pan"@.len());
            reveal_strlit("waterskin");
            assert("mud"@.len() != "waterskin"@.len());
            reveal_strlit("flint_and_steel");
            assert("mud"@.len() != "flint_and_steel"@.len());
            reveal_strlit("herb");
            assert("mud"@.len() != "herb"@.len());
            reveal_strlit("twig");
            assert("mud"@.len() != "twig"@.len());
            reveal_strlit("stick");
            assert("mud"@.len() != "stick"@.len());
            reveal_strlit("firewood");
            assert("mud"@.len() != "firewood"@.len());
            reveal_strlit("grass_blade");
            assert("mud"@.len() != "grass_blade"@.len());
            reveal_strlit("stone");
            assert("mud"@.len() != "stone"@.len());
            reveal_strlit("moss_patch");
            assert("mud"@.len() != "moss_patch"@.len());
        },
        ItemKind::Ration => {
            reveal_strlit("ration");
            reveal_strlit("axe");
            assert("ration"@.len() != "axe"@.len());
            reveal_strlit("knife");
            assert("ration"@.len() != "knife"@.len());
            reveal_strlit("pack");
            assert("ration"@.len() != "pack"@.len());
            reveal_strlit("tent");
            assert("ration"@.len() != "tent"@.len());
            reveal_strlit("bedroll");
            assert("ration"@.len() != "bedroll"@.len());
            reveal_strlit("cooking_pan");
            assert("ration"@.len() != "cooking_pan"@.len());
            reveal_strlit("waterskin");
            assert("ration"@.len() != "waterskin"@.len());
            reveal_strlit("flint_and_steel");
            assert("ration"@.len() != "flint_and_steel"@.len());
            reveal_strlit("herb");
            assert("ration"@.len() != "herb"@.len());
            reveal_strlit("twig");
            assert("ration"@.len() != "twig"@.len());
            reveal_strlit("stick");
            assert("ration"@.len() != "stick"@.len());
            reveal_strlit("firewood");
            assert("ration"@.len() != "firewood"@.len());
            reveal_strlit("grass_blade");
            assert("ration"@.len() != "grass_blade"@.len());
            reveal_strlit("stone");
            assert("ration"@.len() != "stone"@.len());
            reveal_strlit("moss_patch");
            assert("ration"@.len() != "moss_patch"@.len());
            reveal_strlit("mud");
            assert("ration"@.len() != "mud"@.len());
        },
        ItemKind::Fish => {
            reveal_strlit("fish");
            reveal_strlit("axe");
            assert("fish"@.len() != "axe"@.len());
            reveal_strlit("knife");
            assert("fish"@.len() != "knife"@.len());
            reveal_strlit("pack");
            assert("fish"@[0] != "pack"@[0]);
            reveal_strlit("tent");
            assert("fish"@[0] != "tent"@[0]);
            reveal_strlit("bedroll");
            assert("fish"@.len() != "bedroll"@.len());
            reveal_strlit("cooking_pan");
            assert("fish"@.len() != "cooking_pan"@.len());
            reveal_strlit("waterskin");
            assert("fish"@.len() != "waterskin"@.len());
            reveal_strlit("flint_and_steel");
            assert("fish"@.len() != "flint_and_steel"@.len());
            reveal_strlit("herb");
            assert("fish"@[0] != "herb"@[0]);
            reveal_strlit("twig");
            assert("fish"@[0] != "twig"@[0]);
            reveal_strlit("stick");
            assert("fish"@.len() != "stick"@.len());
            reveal_strlit("firewood");
            assert("fish"@.len() != "firewood"@.len());
            reveal_strlit("grass_blade");
            assert("fish"@.len() != "grass_blade"@.len());
            reveal_strlit("stone");
            assert("fish"@.len() != "stone"@.len());
            reveal_strlit("moss_patch");
            assert("fish"@.len() != "moss_patch"@.len());
            reveal_strlit("mud");
            assert("fish"@.len() != "mud"@.len());
            reveal_strlit("ration");
            assert("fish"@.len() != "ration"@.len());
        },
        ItemKind::Cooked => {
            reveal_strlit("cooked");
            reveal_strlit("axe");
            assert("cooked"@.len() != "axe"@.len());
            reveal_strlit("knife");
            assert("cooked"@.len() != "knife"@.len());
            reveal_strlit("pack");
            assert("cooked"@.len() != "pack"@.len());
            reveal_strlit("tent");
            assert("cooked"@.len() != "tent"@.len());
            reveal_strlit("bedroll");
            assert("cooked"@.len() != "bedroll"@.len());
            reveal_strlit("cooking_pan");
            assert("cooked"@.len() != "cooking_pan"@.len());
            reveal_strlit("waterskin");
            assert("cooked"@.len() != "waterskin"@.len());
            reveal_strlit("flint_and_steel");
            assert("cooked"@.len() != "flint_and_steel"@.len());
            reveal_strlit("herb");
            assert("cooked"@.len() != "herb"@.len());
            reveal_strlit("twig");
            assert("cooked"@.len() != "twig"@.len());
            reveal_strlit("stick");
            assert("cooked"@.len() != "stick"@.len());
            reveal_strlit("firewood");
            assert("cooked"@.len() != "firewood"@.len());
            reveal_strlit("grass_blade");
            assert("cooked"@.len() != "grass_blade"@.len());
            reveal_strlit("stone");
            assert("cooked"@.len() != "stone"@.len());
            reveal_strlit("moss_patch");
            assert("cooked"@.len() != "moss_patch"@.len());
            reveal_strlit("mud");
            assert("cooked"@.len() != "mud"@.len());
            reveal_strlit("ration");
            assert("cooked"@[0] != "ration"@[0]);
            reveal_strlit("fish");
            assert("cooked"@.len() != "fish"@.len());
        },
        ItemKind::Moss => {
            reveal_strlit("moss");
            reveal_strlit("axe");
            assert("moss"@.len() != "axe"@.len());
            reveal_strlit("knife");
            assert("moss"@.len() != "knife"@.len());
            reveal_strlit("pack");
            assert("moss"@[0] != "pack"@[0]);
            reveal_strlit("tent");
            assert("moss"@[0] != "tent"@[0]);
            reveal_strlit("bedroll");
            assert("moss"@.len() != "bedroll"@.len());
            reveal_strlit("cooking_pan");
            assert("moss"@.len() != "cooking_pan"@.len());
            reveal_strlit("waterskin");
            assert("moss"@.len() != "waterskin"@.len());
            reveal_strlit("flint_and_steel");
            assert("moss"@.len() != "flint_and_steel"@.len());
            reveal_strlit("herb");
            assert("moss"@[0] != "herb"@[0]);
            reveal_strlit("twig");
            assert("moss"@[0] != "twig"@[0]);
            reveal_strlit("stick");
            assert("moss"@.len() != "stick"@.len());
            reveal_strlit("firewood");
            assert("moss"@.len() != "firewood"@.len());
            reveal_strlit("grass_blade");
            assert("moss"@.len() != "grass_blade"@.len());
            reveal_strlit("stone");
            assert("moss"@.len() != "stone"@.len());
            reveal_strlit("moss_patch");
            assert("moss"@.len() != "moss_patch"@.len());
            reveal_strlit("mud");
            assert("moss"@.len() != "mud"@.len());
            reveal_strlit("ration");
            assert("moss"@.len() != "ration"@.len());
            reveal_strlit("fish");
            assert("moss"@[0] != "fish"@[0]);
            reveal_strlit("cooked");
            assert("moss"@.len() != "cooked"@.len());
        },
        ItemKind::FernFrond => {
            reveal_strlit("fern_frond");
            reveal_strlit("axe");
            assert("fern_frond"@.len() != "axe"@.len());
            reveal_strlit("knife");
            assert("fern_frond"@.len() != "knife"@.len());
            reveal_strlit("pack");
            assert("fern_frond"@.len() != "pack"@.len());
            reveal_strlit("tent");
            assert("fern_frond"@.len() != "tent"@.len());
            reveal_strlit("bedroll");
            assert("fern_frond"@.len() != "bedroll"@.len());
            reveal_strlit("cooking_pan");
            assert("fern_frond"@.len() != "cooking_pan"@.len());
            reveal_strlit("waterskin");
            assert("fern_frond"@.len() != "waterskin"@.len());
            reveal_strlit("flint_and_steel");
            assert("fern_frond"@.len() != "flint_and_steel"@.len());
            reveal_strlit("herb");
            assert("fern_frond"@.len() != "herb"@.len());
            reveal_strlit("twig");
            assert("fern_frond"@.len() != "twig"@.len());
            reveal_strlit("stick");
            assert("fern_frond"@.len() != "stick"@.len());
            reveal_strlit("firewood");
            assert("fern_frond"@.len() != "firewood"@.len());
            reveal_strlit("grass_blade");
            assert("fern_frond"@.len() != "grass_blade"@.len());
            reveal_strlit("stone");
            assert("fern_frond"@.len() != "stone"@.len());
            reveal_strlit("moss_patch");
            assert("fern_frond"@[0] != "moss_patch"@[0]);
            reveal_strlit("mud");
            assert("fern_frond"@.len() != "mud"@.len());
            reveal_strlit("ration");
            assert("fern_frond"@.len() != "ration"@.len());
            reveal_strlit("fish");
            assert("fern_frond"@.len() != "fish"@.len());
            reveal_strlit("cooked");
            assert("fern_frond"@.len() != "cooked"@.len());
            reveal_strlit("moss");
            assert("fern_frond"@.len() != "moss"@.len());
        },
        ItemKind::FernRoot => {
            reveal_strlit("fern_root");
            reveal_strlit("axe");
            assert("fern_root"@.len() != "axe"@.len());
            reveal_strlit("knife");
            assert("fern_root"@.len() != "knife"@.len());
            reveal_strlit("pack");
            assert("fern_root"@.len() != "pack"@.len());
            reveal_strlit("tent");
            assert("fern_root"@.len() != "tent"@.len());
            reveal_strlit("bedroll");
            assert("fern_root"@.len() != "bedroll"@.len());
            reveal_strlit("cooking_pan");
            assert("fern_root"@.len() != "cooking_pan"@.len());
            reveal_strlit("waterskin");
            assert("fern_root"@[0] != "waterskin"@[0]);
            reveal_strlit("flint_and_steel");
            assert("fern_root"@.len() != "flint_and_steel"@.len());
            reveal_strlit("herb");
            assert("fern_root"@.len() != "herb"@.len());
            reveal_strlit("twig");
            assert("fern_root"@.len() != "twig"@.len());
            reveal_strlit("stick");
            assert("fern_root"@.len() != "stick"@.len());
            reveal_strlit("firewood");
            assert("fern_root"@.len() != "firewood"@.len());
            reveal_strlit("grass_blade");
            assert("fern_root"@.len() != "grass_blade"@.len());
            reveal_strlit("stone");
            assert("fern_root"@.len() != "stone"@.len());
            reveal_strlit("moss_patch");
            assert("fern_root"@.len() != "moss_patch"@.len());
            reveal_strlit("mud");
            assert("fern_root"@.len() != "mud"@.len());
            reveal_strlit("ration");
            assert("fern_root"@.len() != "ration"@.len());
            reveal_strlit("fish");
            assert("fern_root"@.len() != "fish"@.len());
            reveal_strlit("cooked");
            assert("fern_root"@.len() != "cooked"@.len());
            reveal_strlit("moss");
            assert("fern_root"@.len() != "moss"@.len());
            reveal_strlit("fern_frond");
            assert("fern_root"@.len() != "fern_frond"@.len());
        },
        ItemKind::GorseFaggot => {
            reveal_strlit("gorse_faggot");
            reveal_strlit("axe");
            assert("gorse_faggot"@.len() != "axe"@.len());
            reveal_strlit("knife");
            assert("gorse_faggot"@.len() != "knife"@.len());
            reveal_strlit("pack");
            assert("gorse_faggot"@.len() != "pack"@.len());
            reveal_strlit("tent");
            assert("gorse_faggot"@.len() != "tent"@.len());
            reveal_strlit("bedroll");
            assert("gorse_faggot"@.len() != "bedroll"@.len());
            reveal_strlit("cooking_pan");
            assert("gorse_faggot"@.len() != "cooking_pan"@.len());
            reveal_strlit("waterskin");
            assert("gorse_faggot"@.len() != "waterskin"@.len());
            reveal_strlit("flint_and_steel");
            assert("gorse_faggot"@.len() != "flint_and_steel"@.len());
            reveal_strlit("herb");
            assert("gorse_faggot"@.len() != "herb"@.len());
            reveal_strlit("twig");
            assert("gorse_faggot"@.len() != "twig"@.len());
            reveal_strlit("stick");
            assert("gorse_faggot"@.len() != "stick"@.len());
            reveal_strlit("firewood");
            assert("gorse_faggot"@.len() != "firewood"@.len());
            reveal_strlit("grass_blade");
            assert("gorse_faggot"@.len() != "grass_blade"@.len());
            reveal_strlit("stone");
            assert("gorse_faggot"@.len() != "stone"@.len());
            reveal_strlit("moss_patch");
            assert("gorse_faggot"@.len() != "moss_patch"@.len());
            reveal_strlit("mud");
            assert("gorse_faggot"@.len() != "mud"@.len());
            reveal_strlit("ration");
            assert("gorse_faggot"@.len() != "ration"@.len());
            reveal_strlit("fish");
            assert("gorse_faggot"@.len() != "fish"@.len());
            reveal_strlit("cooked");
            assert("gorse_faggot"@.len() != "cooked"@.len());
            reveal_strlit("moss");
            assert("gorse_faggot"@.len() != "moss"@.len());
            reveal_strlit("fern_frond");
            assert("gorse_faggot"@.len() != "fern_frond"@.len());
            reveal_strlit("fern_root");
            assert("gorse_faggot"@.len() != "fern_root"@.len());
        },
        ItemKind::BrackenStraw => {
            reveal_strlit("bracken_straw");
            reveal_strlit("axe");
            assert("bracken_straw"@.len() != "axe"@.len());
            reveal_strlit("knife");
            assert("bracken_straw"@.len() != "knife"@.len());
            reveal_strlit("pack");
            assert("bracken_straw"@.len() != "pack"@.len());
            reveal_strlit("tent");
            assert("bracken_straw"@.len() != "tent"@.len());
            reveal_strlit("bedroll");
            assert("bracken_straw"@.len() != "bedroll"@.len());
            reveal_strlit("cooking_pan");
            assert("bracken_straw"@.len() != "cooking_pan"@.len());
            reveal_strlit("waterskin");
            assert("bracken_straw"@.len() != "waterskin"@.len());
            reveal_strlit("flint_and_steel");
            assert("bracken_straw"@.len() != "flint_and_steel"@.len());
            reveal_strlit("herb");
            assert("bracken_straw"@.len() != "herb"@.len());
            reveal_strlit("twig");
            assert("bracken_straw"@.len() != "twig"@.len());
            reveal_strlit("stick");
            assert("bracken_straw"@.len() != "stick"@.len());
            reveal_strlit("firewood");
            assert("bracken_straw"@.len() != "firewood"@.len());
            reveal_strlit("grass_blade");
            assert("bracken_straw"@.len() != "grass_blade"@.len());
            reveal_strlit("stone");
            assert("bracken_straw"@.len() != "stone"@.len());
            reveal_strlit("moss_patch");
            assert("bracken_straw"@.len() != "moss_patch"@.len());
            reveal_strlit("mud");
            assert("bracken_straw"@.len() != "mud"@.len());
            reveal_strlit("ration");
            assert("bracken_straw"@.len() != "ration"@.len());
            reveal_strlit("fish");
            assert("bracken_straw"@.len() != "fish"@.len());
            reveal_strlit("cooked");
            assert("bracken_straw"@.len() != "cooked"@.len());
            reveal_strlit("moss");
            assert("bracken_straw"@.len() != "moss"@.len());
            reveal_strlit("fern_frond");
            assert("bracken_straw"@.len() != "fern_frond"@.len());
            reveal_strlit("fern_root");
            assert("bracken_straw"@.len() != "fern_root"@.len());
            reveal_strlit("gorse_faggot");
            assert("bracken_straw"@.len() != "gorse_faggot"@.len());
        },
        ItemKind::BrambleFruit => {
            reveal_strlit("bramble_fruit");
            reveal_strlit("axe");
            assert("bramble_fruit"@.len() != "axe"@.len());
            reveal_strlit("knife");
            assert("bramble_fruit"@.len() != "knife"@.len());
            reveal_strlit("pack");
            assert("bramble_fruit"@.len() != "pack"@.len());
            reveal_strlit("tent");
            assert("bramble_fruit"@.len() != "tent"@.len());
            reveal_strlit("bedroll");
            assert("bramble_fruit"@.len() != "bedroll"@.len());
            reveal_strlit("cooking_pan");
            assert("bramble_fruit"@.len() != "cooking_pan"@.len());
            reveal_strlit("waterskin");
            assert("bramble_fruit"@.len() != "waterskin"@.len());
            reveal_strlit("flint_and_steel");
            assert("bramble_fruit"@.len() != "flint_and_steel"@.len());
            reveal_strlit("herb");
            assert("bramble_fruit"@.len() != "herb"@.len());
            reveal_strlit("twig");
            assert("bramble_fruit"@.len() != "twig"@.len());
            reveal_strlit("stick");
            assert("bramble_fruit"@.len() != "stick"@.len());
            reveal_strlit("firewood");
            assert("bramble_fruit"@.len() != "firewood"@.len());
            reveal_strlit("grass_blade");
            assert("bramble_fruit"@.len() != "grass_blade"@.len());
            reveal_strlit("stone");
            assert("bramble_fruit"@.len() != "stone"@.len());
            reveal_strlit("moss_patch");
            assert("bramble_fruit"@.len() != "moss_patch"@.len());
            reveal_strlit("mud");
            assert("bramble_fruit"@.len() != "mud"@.len());
            reveal_strlit("ration");
            assert("bramble_fruit"@.len() != "ration"@.len());
            reveal_strlit("fish");
            assert("bramble_fruit"@.len() != "fish"@.len());
            reveal_strlit("cooked");
            assert("bramble_fruit"@.len() != "cooked"@.len());
            reveal_strlit("moss");
            assert("bramble_fruit"@.len() != "moss"@.len());
            reveal_strlit("fern_frond");
            assert("bramble_fruit"@.len() != "fern_frond"@.len());
            reveal_strlit("fern_root");
            assert("bramble_fruit"@.len() != "fern_root"@.len());
            reveal_strlit("gorse_faggot");
            assert("bramble_fruit"@.len() != "gorse_faggot"@.len());
            reveal_strlit("bracken_straw");
            assert("bramble_fruit"@[3] != "bracken_straw"@[3]);
        },
        ItemKind::Hazelnut => {
            reveal_strlit("hazelnut");
            reveal_strlit("axe");
            assert("hazelnut"@.len() != "axe"@.len());
            reveal_strlit("knife");
            assert("hazelnut"@.len() != "knife"@.len());
            reveal_strlit("pack");
            assert("hazelnut"@.len() != "pack"@.len());
            reveal_strlit("tent");
            assert("hazelnut"@.len() != "tent"@.len());
            reveal_strlit("bedroll");
            assert("hazelnut"@.len() != "bedroll"@.len());
            reveal_strlit("cooking_pan");
            assert("hazelnut"@.len() != "cooking_pan"@.len());
            reveal_strlit("waterskin");
            assert("hazelnut"@.len() != "waterskin"@.len());
            reveal_strlit("flint_and_steel");
            assert("hazelnut"@.len() != "flint_and_steel"@.len());
            reveal_strlit("herb");
            assert("hazelnut"@.len() != "herb"@.len());
            reveal_strlit("twig");
            assert("hazelnut"@.len() != "twig"@.len());
            reveal_strlit("stick");
            assert("hazelnut"@.len() != "stick"@.len());
            reveal_strlit("firewood");
            assert("hazelnut"@[0] != "firewood"@[0]);
            reveal_strlit("grass_blade");
            assert("hazelnut"@.len() != "grass_blade"@.len());
            reveal_strlit("stone");
            assert("hazelnut"@.len() != "stone"@.len());
            reveal_strlit("moss_patch");
            assert("hazelnut"@.len() != "moss_patch"@.len());
            reveal_strlit("mud");
            assert("hazelnut"@.len() != "mud"@.len());
            reveal_strlit("ration");
            assert("hazelnut"@.len() != "ration"@.len());
            reveal_strlit("fish");
            assert("hazelnut"@.len() != "fish"@.len());
            reveal_strlit("cooked");
            assert("hazelnut"@.len() != "cooked"@.len());
            reveal_strlit("moss");
            assert("hazelnut"@.len() != "moss"@.len());
            reveal_strlit("fern_frond");
            assert("hazelnut"@.len() != "fern_frond"@.len());
            reveal_strlit("fern_root");
            assert("hazelnut"@.len() != "fern_root"@.len());
            reveal_strlit("gorse_faggot");
            assert("hazelnut"@.len() != "gorse_faggot"@.len());
            reveal_strlit("bracken_straw");
            assert("hazelnut"@.len() != "bracken_straw"@.len());
            reveal_strlit("bramble_fruit");
            assert("hazelnut"@.len() != "bramble_fruit"@.len());
        },
        ItemKind::Acorn => {
            reveal_strlit("acorn");
            reveal_strlit("axe");
            assert("acorn"@.len() != "axe"@.len());
            reveal_strlit("knife");
            assert("acorn"@[0] != "knife"@[0]);
            reveal_strlit("pack");
            assert("acorn"@.len() != "pack"@.len());
            reveal_strlit("tent");
            assert("acorn"@.len() != "tent"@.len());
            reveal_strlit("bedroll");
            assert("acorn"@.len() != "bedroll"@.len());
            reveal_strlit("cooking_pan");
            assert("acorn"@.len() != "cooking_pan"@.len());
            reveal_strlit("waterskin");
            assert("acorn"@.len() != "waterskin"@.len());
            reveal_strlit("flint_and_steel");
            assert("acorn"@.len() != "flint_and_steel"@.len());
            reveal_strlit("herb");
            assert("acorn"@.len() != "herb"@.len());
            reveal_strlit("twig");
            assert("acorn"@.len() != "twig"@.len());
            reveal_strlit("stick");
            assert("acorn"@[0] != "stick"@[0]);
            reveal_strlit("firewood");
            assert("acorn"@.len() != "firewood"@.len());
            reveal_strlit("grass_blade");
            assert("acorn"@.len() != "grass_blade"@.len());
            reveal_strlit("stone");
            assert("acorn"@[0] != "stone"@[0]);
            reveal_strlit("moss_patch");
            assert("acorn"@.len() != "moss_patch"@.len());
            reveal_strlit("mud");
            assert("acorn"@.len() != "mud"@.len());
            reveal_strlit("ration");
            assert("acorn"@.len() != "ration"@.len());
            reveal_strlit("fish");
            assert("acorn"@.len() != "fish"@.len());
            reveal_strlit("cooked");
            assert("acorn"@.len() != "cooked"@.len());
            reveal_strlit("moss");
            assert("acorn"@.len() != "moss"@.len());
            reveal_strlit("fern_frond");
            assert("acorn"@.len() != "fern_frond"@.len());
            reveal_strlit("fern_root");
            assert("acorn"@.len() != "fern_root"@.len());
            reveal_strlit("gorse_faggot");
            assert("acorn"@.len() != "gorse_faggot"@.len());
            reveal_strlit("bracken_straw");
            assert("acorn"@.len() != "bracken_straw"@.len());
            reveal_strlit("bramble_fruit");
            assert("acorn"@.len() != "bramble_fruit"@.len());
            reveal_strlit("hazelnut");
            assert("acorn"@.len() != "hazelnut"@.len());
        },
        ItemKind::RowanBerry => {
            reveal_strlit("rowan_berry");
            reveal_strlit("axe");
            assert("rowan_berry"@.len() != "axe"@.len());
            reveal_strlit("knife");
            assert("rowan_berry"@.len() != "knife"@.len());
            reveal_strlit("pack");
            assert("rowan_berry"@.len() != "pack"@.len());
            reveal_strlit("tent");
            assert("rowan_berry"@.len() != "tent"@.len());
            reveal_strlit("bedroll");
            assert("rowan_berry"@.len() != "bedroll"@.len());
            reveal_strlit("cooking_pan");
            assert("rowan_berry"@[0] != "cooking_pan"@[0]);
            reveal_strlit("waterskin");
            assert("rowan_berry"@.len() != "waterskin"@.len());
            reveal_strlit("flint_and_steel");
            assert("rowan_berry"@.len() != "flint_and_steel"@.len());
            reveal_strlit("herb");
            assert("rowan_berry"@.len() != "herb"@.len());
            reveal_strlit("twig");
            assert("rowan_berry"@.len() != "twig"@.len());
            reveal_strlit("stick");
            assert("rowan_berry"@.len() != "stick"@.len());
            reveal_strlit("firewood");
            assert("rowan_berry"@.len() != "firewood"@.len());
            reveal_strlit("grass_blade");
            assert("rowan_berry"@[0] != "grass_blade"@[0]);
            reveal_strlit("stone");
            assert("rowan_berry"@.len() != "stone"@.len());
            reveal_strlit("moss_patch");
            assert("rowan_berry"@.len() != "moss_patch"@.len());
            reveal_strlit("mud");
            assert("rowan_berry"@.len() != "mud"@.len());
            reveal_strlit("ration");
            assert("rowan_berry"@.len() != "ration"@.len());
            reveal_strlit("fish");
            assert("rowan_berry"@.len() != "fish"@.len());
            reveal_strlit("cooked");
            assert("rowan_berry"@.len() != "cooked"@.len());
            reveal_strlit("moss");
            assert("rowan_berry"@.len() != "moss"@.len());
            reveal_strlit("fern_frond");
            assert("rowan_berry"@.len() != "fern_frond"@.len());
            reveal_strlit("fern_root");
            assert("rowan_berry"@.len() != "fern_root"@.len());
            reveal_strlit("gorse_faggot");
            assert("rowan_berry"@.len() != "gorse_faggot"@.len());
            reveal_strlit("bracken_straw");
            assert("rowan_berry"@.len() != "bracken_straw"@.len());
            reveal_strlit("bramble_fruit");
            assert("rowan_berry"@.len() != "bramble_fruit"@.len());
            reveal_strlit("hazelnut");
            assert("rowan_berry"@.len() != "hazelnut"@.len());
            reveal_strlit("acorn");
            assert("rowan_berry"@.len() != "acorn"@.len());
        },
        ItemKind::Spear => {
            reveal_strlit("spear");
            reveal_strlit("axe");
            assert("spear"@.len() != "axe"@.len());
            reveal_strlit("knife");
            assert("spear"@[0] != "knife"@[0]);
            reveal_strlit("pack");
            assert("spear"@.len() != "pack"@.len());
            reveal_strlit("tent");
            assert("spear"@.len() != "tent"@.len());
            reveal_strlit("bedroll");
            assert("spear"@.len() != "bedroll"@.len());
            reveal_strlit("cooking_pan");
            assert("spear"@.len() != "cooking_pan"@.len());
            reveal_strlit("waterskin");
            assert("spear"@.len() != "waterskin"@.len());
            reveal_strlit("flint_and_steel");
            assert("spear"@.len() != "flint_and_steel"@.len());
            reveal_strlit("herb");
            assert("spear"@.len() != "herb"@.len());
            reveal_strlit("twig");
            assert("spear"@.len() != "twig"@.len());
            reveal_strlit("stick");
            assert("spear"@[1] != "stick"@[1]);
            reveal_strlit("firewood");
            assert("spear"@.len() != "firewood"@.len());
            reveal_strlit("grass_blade");
            assert("spear"@.len() != "grass_blade"@.len());
            reveal_strlit("stone");
            assert("spear"@[1] != "stone"@[1]);
            reveal_strlit("moss_patch");
            assert("spear"@.len() != "moss_patch"@.len());
            reveal_strlit("mud");
            assert("spear"@.len() != "mud"@.len());
            reveal_strlit("ration");
            assert("spear"@.len() != "ration"@.len());
            reveal_strlit("fish");
            assert("spear"@.len() != "fish"@.len());
            reveal_strlit("cooked");
            assert("spear"@.len() != "cooked"@.len());
            reveal_strlit("moss");
            assert("spear"@.len() != "moss"@.len());
            reveal_strlit("fern_frond");
            assert("spear"@.len() != "fern_frond"@.len());
            reveal_strlit("fern_root");
            assert("spear"@.len() != "fern_root"@.len());
            reveal_strlit("gorse_faggot");
            assert("spear"@.len() != "gorse_faggot"@.len());
            reveal_strlit("bracken_straw");
            assert("spear"@.len() != "bracken_straw"@.len());
            reveal_strlit("bramble_fruit");
            assert("spear"@.len() != "bramble_fruit"@.len());
            reveal_strlit("hazelnut");
            assert("spear"@.len() != "hazelnut"@.len());
            reveal_strlit("acorn");
            assert("spear"@[0] != "acorn"@[0]);
            reveal_strlit("rowan_berry");
            assert("spear"@.len() != "rowan_berry"@.len());
        },
    }
}

impl ItemKind {
    /// Per-kind metadata table.
    pub fn def(self) -> (d: ItemDef)
        ensures
            d.save_key@ == item_key(self),
            d.name@ == item_name(self),
            d.is_fungible == item_fungible(self),
            d.glyph == item_glyph(self),
            d.color@ == item_color(self),
            d.default_weight_g == item_default_weight(self),
            d.blends_with_terrain == item_blends(self),
    {
        match self {
            ItemKind::Axe => ItemDef {
                save_key: "axe",
                name: "axe",
                is_fungible: false,
                glyph: 0x50,
                color: [180, 180, 200],
                default_weight_g: 1000,
                blends_with_terrain: false,
            },
            ItemKind::Knife => ItemDef {
                save_key: "knife",
                name: "knife",
                is_fungible: false,
                glyph: 0x2d,
                color: [180, 180, 200],
                default_weight_g: 200,
                blends_with_terrain: false,
            },
            ItemKind::Pack => ItemDef {
                save_key: "pack",
                name: "pack",
                is_fungible: false,
                glyph: 0x5b,
                color: [130, 90, 50],
                default_weight_g: 1000,
                blends_with_terrain: false,
            },
            ItemKind::Tent => ItemDef {
                save_key: "tent",
                name: "tent",
                is_fungible: false,
                glyph: 0x1E,
                color: [200, 180, 140],
                default_weight_g: 5000,
                blends_with_terrain: false,
            },
            ItemKind::Bedroll => ItemDef {
                save_key: "bedroll",
                name: "bedroll",
                is_fungible: false,
                glyph: 0x3d,
                color: [220, 200, 160],
                default_weight_g: 2000,
                blends_with_terrain: false,
            },
            ItemKind::CookingPan => ItemDef {
                save_key: "cooking_pan",
                name: "cooking pan",
                is_fungible: false,
                glyph: 0x4f,
                color: [80, 80, 90],
                default_weight_g: 1000,
                blends_with_terrain: false,
            },
            ItemKind::Waterskin => ItemDef {
                save_key: "waterskin",
                name: "waterskin",
                is_fungible: false,
                glyph: 0x75,
                color: [100, 140, 200],
                default_weight_g: 200,
                blends_with_terrain: false,
            },
            ItemKind::FlintAndSteel => ItemDef {
                save_key: "flint_and_steel",
                name: "flint and steel",
                is_fungible: false,
                glyph: 0x21,
                color: [230, 140, 60],
                default_weight_g: 100,
                blends_with_terrain: false,
            },
            ItemKind::Herb => ItemDef {
                save_key: "herb",
                name: "herb",
                is_fungible: false,
                glyph: 0xE7,
                color: [100, 165, 75],
                default_weight_g: 10,
                blends_with_terrain: false,
            },
            ItemKind::Twig => ItemDef {
                save_key: "twig",
                name: "twig",
                is_fungible: true,
                glyph: 0x2c,
                color: [200, 170, 110],
                default_weight_g: 5,
                blends_with_terrain: true,
            },
            ItemKind::Stick => ItemDef {
                save_key: "stick",
                name: "stick",
                is_fungible: true,
                glyph: 0x2f,
                color: [200, 170, 110],
                default_weight_g: 50,
                blends_with_terrain: true,
            },
            ItemKind::Firewood => ItemDef {
                save_key: "firewood",
                name: "firewood",
                is_fungible: true,
                glyph: 0x16,
                color: [150, 100, 55],
                default_weight_g: 500,
                blends_with_terrain: false,
            },
            ItemKind::GrassBlade => ItemDef {
                save_key: "grass_blade",
                name: "grass blade",
                is_fungible: true,
                glyph: 0x22,
                color: [80, 160, 70],
                default_weight_g: 2,
                blends_with_terrain: true,
            },
            ItemKind::Stone => ItemDef {
                save_key: "stone",
                name: "stone",
                is_fungible: true,
                glyph: 0x07,
                color: [165, 165, 175],
                default_weight_g: 200,
                blends_with_terrain: false,
            },
            ItemKind::MossPatch => ItemDef {
                save_key: "moss_patch",
                name: "moss patch",
                is_fungible: true,
                glyph: 0x25,
                color: [50, 100, 50],
                default_weight_g: 10,
                blends_with_terrain: true,
            },
            ItemKind::Mud => ItemDef {
                save_key: "mud",
                name: "mud",
                is_fungible: true,
                glyph: 0x25,
                color: [110, 80, 50],
                default_weight_g: 300,
                blends_with_terrain: true,
            },
            ItemKind::Ration => ItemDef {
                save_key: "ration",
                name: "ration",
                is_fungible: true,
                glyph: 0xE0,
                color: [225, 180, 110],
                default_weight_g: 500,
                blends_with_terrain: false,
            },
            ItemKind::Fish => ItemDef {
                save_key: "fish",
                name: "fish",
                is_fungible: true,
                glyph: 0x66,
                color: [140, 170, 210],
                default_weight_g: 400,
                blends_with_terrain: false,
            },
            ItemKind::Cooked => ItemDef {
                save_key: "cooked",
                name: "cooked food",
                is_fungible: false,
                glyph: 0x25,
                color: [200, 150, 90],
                default_weight_g: 400,
                blends_with_terrain: false,
            },
            ItemKind::Moss => ItemDef {
                save_key: "moss",
                name: "moss",
                is_fungible: true,
                glyph: 0x07,
                color: [80, 130, 80],
                default_weight_g: 10,
                blends_with_terrain: true,
            },
            ItemKind::FernFrond => ItemDef {
                save_key: "fern_frond",
                name: "fern frond",
                is_fungible: true,
                glyph: 0xF0,
                color: [90, 145, 70],
                default_weight_g: 15,
                blends_with_terrain: true,
            },
            ItemKind::FernRoot => ItemDef {
                save_key: "fern_root",
                name: "fern root",
                is_fungible: true,
                glyph: 0x2f,
                color: [140, 100, 60],
                default_weight_g: 40,
                blends_with_terrain: false,
            },
            ItemKind::GorseFaggot => ItemDef {
                save_key: "gorse_faggot",
                name: "gorse faggot",
                is_fungible: true,
                glyph: 0x16,
                color: [200, 170, 60],
                default_weight_g: 250,
                blends_with_terrain: false,
            },
            ItemKind::BrackenStraw => ItemDef {
                save_key: "bracken_straw",
                name: "bracken straw",
                is_fungible: true,
                glyph: 0x22,
                color: [160, 110, 50],
                default_weight_g: 5,
                blends_with_terrain: true,
            },
            ItemKind::BrambleFruit => ItemDef {
                save_key: "bramble_fruit",
                name: "bramble fruit",
                is_fungible: true,
                glyph: 0xFA,
                color: [140, 60, 95],
                default_weight_g: 25,
                blends_with_terrain: false,
            },
            ItemKind::Hazelnut => ItemDef {
                save_key: "hazelnut",
                name: "hazelnut",
                is_fungible: true,
                glyph: 0x6f,
                color: [180, 130, 70],
                default_weight_g: 8,
                blends_with_terrain: false,
            },
            ItemKind::Acorn => ItemDef {
                save_key: "acorn",
                name: "acorn",
                is_fungible: true,
                glyph: 0x6f,
                color: [150, 110, 60],
                default_weight_g: 12,
                blends_with_terrain: false,
            },
            ItemKind::RowanBerry => ItemDef {
                save_key: "rowan_berry",
                name: "rowan berry",
                is_fungible: true,
                glyph: 0xFA,
                color: [200, 70, 50],
                default_weight_g: 10,
                blends_with_terrain: false,
            },
            ItemKind::Spear => ItemDef {
                save_key: "spear",
                name: "spear",
                is_fungible: false,
                glyph: 0x2f,
                color: [170, 140, 90],
                default_weight_g: 1800,
                blends_with_terrain: false,
            },
        }
    }

    /// A fresh instance of this kind with default metadata and per-unit
    /// weight. Fungibles take `count` (at least 1); uniques always get
    /// count 1. Waterskins come back empty.
    pub fn make_default_instance(self, count: u16) -> (r: ItemInstance)
        ensures
            r == default_instance(self, count),
    {
        let d = self.def();
        let metadata = match self {
            ItemKind::Waterskin => ItemMetadata::Waterskin { water_uses: 0 },
            _ => ItemMetadata::Plain,
        };
        if d.is_fungible {
            let c = if count < 1 { 1 } else { count };
            ItemInstance::stack(self, c, d.default_weight_g, None, metadata)
        } else {
            ItemInstance::unique(self, d.default_weight_g, None, metadata)
        }
    }

    pub fn save_key(self) -> (r: &'static str)
        ensures
            r@ == item_key(self),
    {
        self.def().save_key
    }

    /// The kind saved under `s`, scanning kinds in declaration order;
    /// `None` for an unknown key.
    pub fn from_save_key(s: &str) -> (r: Option<Self>)
        ensures
            r == item_from_key(s@),
    {
        if str_eq(s, "axe") {
            return Some(ItemKind::Axe);
        }
        if str_eq(s, "knife") {
            return Some(ItemKind::Knife);
        }
        if str_eq(s, "pack") {
            return Some(ItemKind::Pack);
        }
        if str_eq(s, "tent") {
            return Some(ItemKind::Tent);
        }
        if str_eq(s, "bedroll") {
            return Some(ItemKind::Bedroll);
        }
        if str_eq(s, "cooking_pan") {
            return Some(ItemKind::CookingPan);
        }
        if str_eq(s, "waterskin") {
            return Some(ItemKind::Waterskin);
        }
        if str_eq(s, "flint_and_steel") {
            return Some(ItemKind::FlintAndSteel);
        }
        if str_eq(s, "herb") {
            return Some(ItemKind::Herb);
        }
        if str_eq(s, "twig") {
            return Some(ItemKind::Twig);
        }
        if str_eq(s, "stick") {
            return Some(ItemKind::Stick);
        }
        if str_eq(s, "firewood") {
            return Some(ItemKind::Firewood);
        }
        if str_eq(s, "grass_blade") {
            return Some(ItemKind::GrassBlade);
        }
        if str_eq(s, "stone") {
            return Some(ItemKind::Stone);
        }
        if str_eq(s, "moss_patch") {
            return Some(ItemKind::MossPatch);
        }
        if str_eq(s, "mud") {
            return Some(ItemKind::Mud);
        }
        if str_eq(s, "ration") {
            return Some(ItemKind::Ration);
        }
        if str_eq(s, "fish") {
            return Some(ItemKind::Fish);
        }
        if str_eq(s, "cooked") {
            return Some(ItemKind::Cooked);
        }
        if str_eq(s, "moss") {
            return Some(ItemKind::Moss);
        }
        if str_eq(s, "fern_frond") {
            return Some(ItemKind::FernFrond);
        }
        if str_eq(s, "fern_root") {
            return Some(ItemKind::FernRoot);
        }
        if str_eq(s, "gorse_faggot") {
            return Some(ItemKind::GorseFaggot);
        }
        if str_eq(s, "bracken_straw") {
            return Some(ItemKind::BrackenStraw);
        }
        if str_eq(s, "bramble_fruit") {
            return Some(ItemKind::BrambleFruit);
        }
        if str_eq(s, "hazelnut") {
            return Some(ItemKind::Hazelnut);
        }
        if str_eq(s, "acorn") {
            return Some(ItemKind::Acorn);
        }
        if str_eq(s, "rowan_berry") {
            return Some(ItemKind::RowanBerry);
        }
        if str_eq(s, "spear") {
            return Some(ItemKind::Spear);
        }
        None
    }

    pub fn is_fungible(self) -> (r: bool)
        ensures
            r == item_fungible(self),
    {
        self.def().is_fungible
    }

    pub fn name(self) -> (r: &'static str)
        ensures
            r@ == item_name(self),
    {
        self.def().name
    }

    /// Glyph and foreground colour for drawing the item on the ground.
    pub fn glyph_color(self) -> (r: (u8, [u8; 3]))
        ensures
            r.0 == item_glyph(self),
            r.1@ == item_color(self),
    {
        let d = self.def();
        (d.glyph, d.color)
    }
}

/// Every kind, in declaration order.
pub open spec fn all_item_kinds() -> Seq<ItemKind> {
    seq![ItemKind::Axe, ItemKind::Knife, ItemKind::Pack, ItemKind::Tent, ItemKind::Bedroll, ItemKind::CookingPan, ItemKind::Waterskin, ItemKind::FlintAndSteel, ItemKind::Herb, ItemKind::Twig, ItemKind::Stick, ItemKind::Firewood, ItemKind::GrassBlade, ItemKind::Stone, ItemKind::MossPatch, ItemKind::Mud, ItemKind::Ration, ItemKind::Fish, ItemKind::Cooked, ItemKind::Moss, ItemKind::FernFrond, ItemKind::FernRoot, ItemKind::GorseFaggot, ItemKind::BrackenStraw, ItemKind::BrambleFruit, ItemKind::Hazelnut, ItemKind::Acorn, ItemKind::RowanBerry, ItemKind::Spear]
}

/// Every kind, in declaration order.
pub fn all_kinds() -> (r: Vec<ItemKind>)
    ensures
        r@ == all_item_kinds(),
{
    let mut v: Vec<ItemKind> = Vec::new();
    v.push(ItemKind::Axe);
    v.push(ItemKind::Knife);
    v.push(ItemKind::Pack);
    v.push(ItemKind::Tent);
    v.push(ItemKind::Bedroll);
    v.push(ItemKind::CookingPan);
    v.push(ItemKind::Waterskin);
    v.push(ItemKind::FlintAndSteel);
    v.push(ItemKind::Herb);
    v.push(ItemKind::Twig);
    v.push(ItemKind::Stick);
    v.push(ItemKind::Firewood);
    v.push(ItemKind::GrassBlade);
    v.push(ItemKind::Stone);
    v.push(ItemKind::MossPatch);
    v.push(ItemKind::Mud);
    v.push(ItemKind::Ration);
    v.push(ItemKind::Fish);
    v.push(ItemKind::Cooked);
    v.push(ItemKind::Moss);
    v.push(ItemKind::FernFrond);
    v.push(ItemKind::FernRoot);
    v.push(ItemKind::GorseFaggot);
    v.push(ItemKind::BrackenStraw);
    v.push(ItemKind::BrambleFruit);
    v.push(ItemKind::Hazelnut);
    v.push(ItemKind::Acorn);
    v.push(ItemKind::RowanBerry);
    v.push(ItemKind::Spear);
    proof {
        assert(v@ =~= all_item_kinds());
    }
    v
}
/// Per-instance state an item can carry.
#[derive(Clone, Copy, Debug, PartialEq, Eq, Structural)]
pub enum ItemMetadata {
    /// No extra state.
    Plain,
    Waterskin { water_uses: u8 },
    /// Placed in the world (pitched tent, unrolled bedroll); never merges.
    Pitched,
    /// A lit fire with this much fuel left.
    Lit { fuel_seconds: u32 },
    /// A cooking pan standing on a lit fire; it owns the fire's fuel.
    PannedOnFire { contents: PanContents, fuel_seconds: u32 },
    /// Cooked food: one kind covers every (base, state, seasonings).
    Cooked { base: CookableKind, state: CookedState, seasonings: Seasonings },
}

impl Default for ItemMetadata {
    fn default() -> (r: Self)
        ensures
            r == ItemMetadata::Plain,
    {
        ItemMetadata::Plain
    }
}

/// The saved record of a metadata value.
pub open spec fn metadata_record(m: ItemMetadata) -> MetadataRecord {
    match m {
        ItemMetadata::Plain => MetadataRecord::Plain,
        ItemMetadata::Waterskin { water_uses } => MetadataRecord::Waterskin { water_uses },
        ItemMetadata::Pitched => MetadataRecord::Pitched,
        ItemMetadata::Lit { fuel_seconds } => MetadataRecord::Lit { fuel_seconds },
        ItemMetadata::PannedOnFire { contents, fuel_seconds } => match contents {
            PanContents::Empty => MetadataRecord::PannedOnFire {
                contents_kind: "empty"@,
                input: Seq::empty(),
                elapsed_secs: 0,
                seasonings: 0,
                fuel_seconds,
            },
            PanContents::Cooking { input, elapsed_secs, seasonings } => MetadataRecord::PannedOnFire {
                contents_kind: "cooking"@,
                input: cookable_key(input),
                elapsed_secs,
                seasonings: seasonings.0,
                fuel_seconds,
            },
        },
        ItemMetadata::Cooked { base, state, seasonings } => MetadataRecord::Cooked {
            base: cookable_key(base),
            state: cooked_state_key(state),
            seasonings: seasonings.0,
        },
    }
}

/// The metadata a saved record loads as. A pan whose contents are not
/// "cooking" with a known cookable loads empty; an unknown cooked base or
/// state falls back to fish / ok.
pub open spec fn metadata_from_record(r: MetadataRecord) -> ItemMetadata {
    match r {
        MetadataRecord::Plain => ItemMetadata::Plain,
        MetadataRecord::Waterskin { water_uses } => ItemMetadata::Waterskin { water_uses },
        MetadataRecord::Pitched => ItemMetadata::Pitched,
        MetadataRecord::Lit { fuel_seconds } => ItemMetadata::Lit { fuel_seconds },
        MetadataRecord::PannedOnFire {
            contents_kind,
            input,
            elapsed_secs,
            seasonings,
            fuel_seconds,
        } => {
            let contents = if contents_kind == "cooking"@ {
                match cookable_from_key(input) {
                    Some(k) => PanContents::Cooking {
                        input: k,
                        elapsed_secs,
                        seasonings: Seasonings(seasonings),
                    },
                    None => PanContents::Empty,
                }
            } else {
                PanContents::Empty
            };
            ItemMetadata::PannedOnFire { contents, fuel_seconds }
        },
        MetadataRecord::Cooked { base, state, seasonings } => ItemMetadata::Cooked {
            base: match cookable_from_key(base) {
                Some(k) => k,
                None => CookableKind::Fish,
            },
            state: match cooked_state_from_key(state) {
                Some(s) => s,
                None => CookedState::Good,
            },
            seasonings: Seasonings(seasonings),
        },
    }
}

/// Saving metadata and loading it back gives the same metadata.
pub proof fn law_metadata_save_round_trip(m: ItemMetadata)
    ensures
        metadata_from_record(metadata_record(m)) == m,
{
    reveal_strlit("empty");
    reveal_strlit("cooking");
    assert("empty"@.len() != "cooking"@.len());
    match m {
        ItemMetadata::PannedOnFire { contents, fuel_seconds } => match contents {
            PanContents::Cooking { input, elapsed_secs, seasonings } => {
                crate::crafting::law_cooking_keys_round_trip(input, CookedState::Good);
            },
            PanContents::Empty => {},
        },
        ItemMetadata::Cooked { base, state, seasonings } => {
            crate::crafting::law_cooking_keys_round_trip(base, state);
        },
        _ => {},
    }
}

impl ItemMetadata {
    pub fn to_save(&self) -> (r: ItemMetadataSave)
        ensures
            r@ == metadata_record(*self),
    {
        match *self {
            ItemMetadata::Plain => ItemMetadataSave::Plain,
            ItemMetadata::Waterskin { water_uses } => ItemMetadataSave::Waterskin { water_uses },
            ItemMetadata::Pitched => ItemMetadataSave::Pitched,
            ItemMetadata::Lit { fuel_seconds } => ItemMetadataSave::Lit { fuel_seconds },
            ItemMetadata::PannedOnFire { contents, fuel_seconds } => match contents {
                PanContents::Empty => ItemMetadataSave::PannedOnFire {
                    contents_kind: owned("empty"),
                    input: String::new(),
                    elapsed_secs: 0,
                    seasonings: 0,
                    fuel_seconds,
                },
                PanContents::Cooking { input, elapsed_secs, seasonings } => {
                    ItemMetadataSave::PannedOnFire {
                        contents_kind: owned("cooking"),
                        input: owned(input.save_key()),
                        elapsed_secs,
                        seasonings: seasonings.0,
                        fuel_seconds,
                    }
                },
            },
            ItemMetadata::Cooked { base, state, seasonings } => ItemMetadataSave::Cooked {
                base: owned(base.save_key()),
                state: owned(state.save_key()),
                seasonings: seasonings.0,
            },
        }
    }

    pub fn from_save(s: &ItemMetadataSave) -> (r: Self)
        ensures
            r == metadata_from_record(s@),
    {
        match s {
            ItemMetadataSave::Plain => ItemMetadata::Plain,
            ItemMetadataSave::Waterskin { water_uses } => ItemMetadata::Waterskin {
                water_uses: *water_uses,
            },
            ItemMetadataSave::Pitched => ItemMetadata::Pitched,
            ItemMetadataSave::Lit { fuel_seconds } => ItemMetadata::Lit {
                fuel_seconds: *fuel_seconds,
            },
            ItemMetadataSave::PannedOnFire {
                contents_kind,
                input,
                elapsed_secs,
                seasonings,
                fuel_seconds,
            } => {
                let contents = if str_eq(contents_kind.as_str(), "cooking") {
                    match CookableKind::from_save_key(input.as_str()) {
                        Some(k) => PanContents::Cooking {
                            input: k,
                            elapsed_secs: *elapsed_secs,
                            seasonings: Seasonings(*seasonings),
                        },
                        None => PanContents::Empty,
                    }
                } else {
                    PanContents::Empty
                };
                ItemMetadata::PannedOnFire { contents, fuel_seconds: *fuel_seconds }
            },
            ItemMetadataSave::Cooked { base, state, seasonings } => {
                let base = match CookableKind::from_save_key(base.as_str()) {
                    Some(k) => k,
                    None => CookableKind::Fish,
                };
                let state = match CookedState::from_save_key(state.as_str()) {
                    Some(s) => s,
                    None => CookedState::Good,
                };
                ItemMetadata::Cooked { base, state, seasonings: Seasonings(*seasonings) }
            },
        }
    }
}

#[derive(Clone, Debug)]
pub struct ItemInstance {
    pub kind: ItemKind,
    pub count: u16,
    pub weight_g_each: u32,
    pub charges: Option<u16>,
    pub metadata: ItemMetadata,
}

/// Weight of a whole stack in grams, capped at `u32::MAX`.
pub open spec fn instance_weight(i: ItemInstance) -> int {
    if i.weight_g_each * i.count > u32::MAX {
        u32::MAX as int
    } else {
        i.weight_g_each * i.count
    }
}

/// The instance `make_default_instance(kind, count)` builds.
pub open spec fn default_instance(kind: ItemKind, count: u16) -> ItemInstance {
    ItemInstance {
        kind,
        count: if item_fungible(kind) {
            if count < 1 {
                1
            } else {
                count
            }
        } else {
            1
        },
        weight_g_each: item_default_weight(kind),
        charges: None,
        metadata: if kind == ItemKind::Waterskin {
            ItemMetadata::Waterskin { water_uses: 0 }
        } else {
            ItemMetadata::Plain
        },
    }
}

/// The saved record of an instance.
pub open spec fn instance_record(i: ItemInstance) -> InstanceRecord {
    InstanceRecord {
        kind: item_key(i.kind),
        count: i.count,
        weight_g_each: i.weight_g_each,
        charges: i.charges,
        metadata: metadata_record(i.metadata),
    }
}

/// The instance a saved record loads as: `None` for an unknown kind; a
/// zero count loads as 1.
pub open spec fn instance_from_record(r: InstanceRecord) -> Option<ItemInstance> {
    match item_from_key(r.kind) {
        Some(kind) => Some(
            ItemInstance {
                kind,
                count: if r.count < 1 {
                    1
                } else {
                    r.count
                },
                weight_g_each: r.weight_g_each,
                charges: r.charges,
                metadata: metadata_from_record(r.metadata),
            },
        ),
        None => None,
    }
}

/// `i` with a zero count read as 1, as loading does.
pub open spec fn normalized(i: ItemInstance) -> ItemInstance {
    ItemInstance {
        count: if i.count < 1 {
            1
        } else {
            i.count
        },
        ..i
    }
}

/// Saving an instance and loading it back gives the same instance (a zero
/// count comes back as 1).
pub proof fn law_instance_save_round_trip(i: ItemInstance)
    ensures
        instance_from_record(instance_record(i)) == Some(normalized(i)),
{
    law_item_key_round_trip(i.kind);
    law_metadata_save_round_trip(i.metadata);
}
/// Percent shown while a cook is still raw: elapsed over target, at most 99.
pub open spec fn raw_percent(input: CookableKind, elapsed_secs: u32) -> nat {
    let t: nat = if cook_target_secs(input) < 1 {
        1
    } else {
        cook_target_secs(input) as nat
    };
    let p: nat = (elapsed_secs as nat * 100) / t;
    if p > 99 {
        99
    } else {
        p
    }
}

/// Status text of a pan that is cooking.
pub open spec fn pan_status(input: CookableKind, elapsed_secs: u32) -> Seq<char> {
    match spec_cook_progress(input, elapsed_secs) {
        CookProgress::Raw => "cooking "@ + cookable_key(input) + " ("@ + decimal(
            raw_percent(input, elapsed_secs),
        ) + "%)"@,
        CookProgress::Done => "done "@ + cookable_key(input),
        CookProgress::Burnt => "BURNT "@ + cookable_key(input),
    }
}

/// One-line label for list UIs.
pub open spec fn instance_label(i: ItemInstance) -> Seq<char> {
    let name = item_name(i.kind);
    match i.metadata {
        ItemMetadata::Pitched => name + " (pitched)"@,
        ItemMetadata::Lit { fuel_seconds } => name + " (lit, "@ + decimal((fuel_seconds / 60) as nat)
            + "m)"@,
        ItemMetadata::Waterskin { water_uses } => if water_uses == 0 {
            name + " (empty)"@
        } else {
            name + " ("@ + decimal(water_uses as nat) + "/4)"@
        },
        ItemMetadata::PannedOnFire { contents, fuel_seconds } => match contents {
            PanContents::Empty => "pan-on-fire ("@ + decimal((fuel_seconds / 60) as nat)
                + "m fuel)"@,
            PanContents::Cooking { input, elapsed_secs, seasonings } => "pan-on-fire ("@
                + pan_status(input, elapsed_secs) + ", "@ + decimal((fuel_seconds / 60) as nat)
                + "m fuel)"@,
        },
        ItemMetadata::Cooked { base, state, seasonings } => match state {
            CookedState::Good => (if seasonings_has(seasonings, ModifierTag::Herb) {
                "herbed "@
            } else {
                Seq::<char>::empty()
            }) + "cooked "@ + cookable_key(base),
            CookedState::Burnt => "burnt "@ + cookable_key(base),
        },
        ItemMetadata::Plain => if i.count > 1 {
            name + " ("@ + decimal(i.count as nat) + ")"@
        } else {
            name
        },
    }
}

fn push_decimal(s: &mut String, n: u32)
    ensures
        final(s)@ == old(s)@ + decimal(n as nat),
{
    let d = u32_to_decimal(n);
    push(s, d.as_str());
}

fn pan_status_text(input: CookableKind, elapsed_secs: u32) -> (r: String)
    ensures
        r@ == pan_status(input, elapsed_secs),
{
    match cook_progress(input, elapsed_secs) {
        CookProgress::Raw => {
            let t = input.target_secs();
            let t1 = if t < 1 { 1 } else { t };
            proof {
                assert(elapsed_secs < cook_target_secs(input));
            }
            let p0 = elapsed_secs * 100 / t1;
            let pct = if p0 > 99 { 99 } else { p0 };
            let mut s = owned("cooking ");
            push(&mut s, input.raw_name());
            push(&mut s, " (");
            push_decimal(&mut s, pct);
            push(&mut s, "%)");
            s
        },
        CookProgress::Done => {
            let mut s = owned("done ");
            push(&mut s, input.raw_name());
            s
        },
        CookProgress::Burnt => {
            let mut s = owned("BURNT ");
            push(&mut s, input.raw_name());
            s
        },
    }
}

impl ItemInstance {
    /// A single unique item (count 1).
    pub fn unique(kind: ItemKind, weight_g: u32, charges: Option<u16>, metadata: ItemMetadata) -> (r:
        Self)
        ensures
            r == (ItemInstance { kind, count: 1, weight_g_each: weight_g, charges, metadata }),
    {
        Self { kind, count: 1, weight_g_each: weight_g, charges, metadata }
    }

    /// A stack of `count` units.
    pub fn stack(
        kind: ItemKind,
        count: u16,
        weight_g_each: u32,
        charges: Option<u16>,
        metadata: ItemMetadata,
    ) -> (r: Self)
        ensures
            r == (ItemInstance { kind, count, weight_g_each, charges, metadata }),
    {
        Self { kind, count, weight_g_each, charges, metadata }
    }

    /// Whole-stack weight, capped at `u32::MAX`.
    pub fn total_weight_g(&self) -> (r: u32)
        ensures
            r as int == instance_weight(*self),
    {
        let each = self.weight_g_each as u64;
        let count = self.count as u64;
        proof {
            assert(each * count <= 0xffff_ffff * 0xffff) by (nonlinear_arith)
                requires
                    each <= 0xffff_ffff,
                    count <= 0xffff,
            ;
        }
        let w = each * count;
        if w > 0xffff_ffffu64 {
            u32::MAX
        } else {
            w as u32
        }
    }

    /// One-line label for any list UI.
    pub fn display_label(&self) -> (r: String)
        ensures
            r@ == instance_label(*self),
    {
        let name = self.kind.name();
        match self.metadata {
            ItemMetadata::Pitched => {
                let mut s = owned(name);
                push(&mut s, " (pitched)");
                s
            },
            ItemMetadata::Lit { fuel_seconds } => {
                let mut s = owned(name);
                push(&mut s, " (lit, ");
                push_decimal(&mut s, fuel_seconds / 60);
                push(&mut s, "m)");
                s
            },
            ItemMetadata::Waterskin { water_uses } => {
                let mut s = owned(name);
                if water_uses == 0 {
                    push(&mut s, " (empty)");
                } else {
                    push(&mut s, " (");
                    push_decimal(&mut s, water_uses as u32);
                    push(&mut s, "/4)");
                }
                s
            },
            ItemMetadata::PannedOnFire { contents, fuel_seconds } => {
                let m = fuel_seconds / 60;
                match contents {
                    PanContents::Empty => {
                        let mut s = owned("pan-on-fire (");
                        push_decimal(&mut s, m);
                        push(&mut s, "m fuel)");
                        s
                    },
                    PanContents::Cooking { input, elapsed_secs, seasonings: _ } => {
                        let status = pan_status_text(input, elapsed_secs);
                        let mut s = owned("pan-on-fire (");
                        push(&mut s, status.as_str());
                        push(&mut s, ", ");
                        push_decimal(&mut s, m);
                        push(&mut s, "m fuel)");
                        s
                    },
                }
            },
            ItemMetadata::Cooked { base, state, seasonings } => {
                let base_name = base.raw_name();
                match state {
                    CookedState::Good => {
                        let mut s = String::new();
                        if seasonings.has(ModifierTag::Herb) {
                            push(&mut s, "herbed ");
                        }
                        push(&mut s, "cooked ");
                        push(&mut s, base_name);
                        proof {
                            if !seasonings_has(seasonings, ModifierTag::Herb) {
                                assert(Seq::<char>::empty() + "cooked "@ =~= "cooked "@);
                            }
                        }
                        s
                    },
                    CookedState::Burnt => {
                        let mut s = owned("burnt ");
                        push(&mut s, base_name);
                        s
                    },
                }
            },
            ItemMetadata::Plain => {
                let mut s = owned(name);
                if self.count > 1 {
                    push(&mut s, " (");
                    push_decimal(&mut s, self.count as u32);
                    push(&mut s, ")");
                }
                s
            },
        }
    }

    pub fn to_save(&self) -> (r: ItemInstanceSave)
        ensures
            r@ == instance_record(*self),
    {
        ItemInstanceSave {
            kind: owned(self.kind.save_key()),
            count: self.count,
            weight_g_each: self.weight_g_each,
            charges: self.charges,
            metadata: self.metadata.to_save(),
        }
    }

    /// Loads a saved instance; `None` when its kind is unknown. A zero
    /// count loads as 1.
    pub fn from_save(s: &ItemInstanceSave) -> (r: Option<Self>)
        ensures
            r == instance_from_record(s@),
    {
        let kind = match ItemKind::from_save_key(s.kind.as_str()) {
            Some(k) => k,
            None => {
                return None;
            },
        };
        Some(
            Self {
                kind,
                count: if s.count < 1 {
                    1
                } else {
                    s.count
                },
                weight_g_each: s.weight_g_each,
                charges: s.charges,
                metadata: ItemMetadata::from_save(&s.metadata),
            },
        )
    }
}
/// Sum of the stack weights in `s`.
pub open spec fn stack_sum(s: Seq<ItemInstance>) -> int
    decreases s.len(),
{
    if s.len() == 0 {
        0
    } else {
        stack_sum(s.drop_last()) + instance_weight(s.last())
    }
}

/// Weight of pack contents in grams, capped at `u32::MAX`.
pub open spec fn contents_weight(s: Seq<ItemInstance>) -> int {
    if stack_sum(s) > u32::MAX {
        u32::MAX as int
    } else {
        stack_sum(s)
    }
}

/// An incoming item that may merge into an existing stack: fungible, with
/// no metadata and no charges.
pub open spec fn can_merge(item: ItemInstance) -> bool {
    item_fungible(item.kind) && item.metadata == ItemMetadata::Plain && item.charges is None
}

/// An existing stack that `item` merges into.
pub open spec fn joins(existing: ItemInstance, item: ItemInstance) -> bool {
    existing.kind == item.kind && existing.metadata == ItemMetadata::Plain
        && existing.charges is None && existing.weight_g_each == item.weight_g_each
}

/// Index of the first stack at or after `i` that `item` joins, or -1.
pub open spec fn first_join_from(s: Seq<ItemInstance>, item: ItemInstance, i: nat) -> int
    decreases s.len() - i,
{
    if i >= s.len() {
        -1
    } else if joins(s[i as int], item) {
        i as int
    } else {
        first_join_from(s, item, i + 1)
    }
}

/// `existing` with `item`'s units added (count saturating at `u16::MAX`).
pub open spec fn merged(existing: ItemInstance, item: ItemInstance) -> ItemInstance {
    ItemInstance {
        count: if existing.count + item.count > u16::MAX {
            u16::MAX
        } else {
            (existing.count + item.count) as u16
        },
        ..existing
    }
}

/// Contents after `item` is accepted: merged into the first stack it joins
/// when it can merge, else appended.
pub open spec fn added_contents(s: Seq<ItemInstance>, item: ItemInstance) -> Seq<ItemInstance> {
    let j = first_join_from(s, item, 0);
    if can_merge(item) && j >= 0 {
        s.update(j, merged(s[j], item))
    } else {
        s.push(item)
    }
}

/// Whether any entry of `kind` has a positive count.
pub open spec fn holds_kind(s: Seq<ItemInstance>, kind: ItemKind) -> bool {
    exists|i: int| 0 <= i < s.len() && s[i].kind == kind && s[i].count > 0
}

/// Index of the first entry at or after `i` of `kind` with a positive
/// count, or -1.
pub open spec fn first_of_kind_from(s: Seq<ItemInstance>, kind: ItemKind, i: nat) -> int
    decreases s.len() - i,
{
    if i >= s.len() {
        -1
    } else if s[i as int].kind == kind && s[i as int].count > 0 {
        i as int
    } else {
        first_of_kind_from(s, kind, i + 1)
    }
}

/// Total units of `kind` across the entries of `s`.
pub open spec fn units_of(s: Seq<ItemInstance>, kind: ItemKind) -> int
    decreases s.len(),
{
    if s.len() == 0 {
        0
    } else {
        units_of(s.drop_last(), kind) + if s.last().kind == kind {
            s.last().count as int
        } else {
            0
        }
    }
}

/// Contents after one unit of the entry at `j` is taken: the entry loses a
/// unit, or goes when it had one.
pub open spec fn taken_one(s: Seq<ItemInstance>, j: int) -> Seq<ItemInstance> {
    if s[j].count == 1 {
        s.remove(j)
    } else {
        s.update(j, ItemInstance { count: (s[j].count - 1) as u16, ..s[j] })
    }
}

/// A waterskin entry that still holds water.
pub open spec fn has_water(i: ItemInstance) -> bool {
    i.kind == ItemKind::Waterskin && (i.metadata matches ItemMetadata::Waterskin { water_uses } && water_uses > 0)
}

/// Index of the first waterskin at or after `i` that holds water, or -1.
pub open spec fn first_water_from(s: Seq<ItemInstance>, i: nat) -> int
    decreases s.len() - i,
{
    if i >= s.len() {
        -1
    } else if has_water(s[i as int]) {
        i as int
    } else {
        first_water_from(s, i + 1)
    }
}

/// `i` after one use of water: one use fewer and 250 g lighter (never below 0).
pub open spec fn drunk(i: ItemInstance) -> ItemInstance {
    let uses = match i.metadata {
        ItemMetadata::Waterskin { water_uses } => water_uses,
        _ => 0,
    };
    ItemInstance {
        weight_g_each: if i.weight_g_each < 250 {
            0
        } else {
            (i.weight_g_each - 250) as u32
        },
        metadata: ItemMetadata::Waterskin { water_uses: (uses - 1) as u8 },
        ..i
    }
}

/// Instances loaded from saved records, dropping unknown kinds.
pub open spec fn instances_from_records(s: Seq<InstanceRecord>) -> Seq<ItemInstance>
    decreases s.len(),
{
    if s.len() == 0 {
        Seq::empty()
    } else {
        let rest = instances_from_records(s.drop_last());
        match instance_from_record(s.last()) {
            Some(i) => rest.push(i),
            None => rest,
        }
    }
}

#[derive(Clone, Debug)]
pub struct Pack {
    pub capacity_g: u32,
    pub contents: Vec<ItemInstance>,
}

proof fn lemma_first_join_bounds(s: Seq<ItemInstance>, item: ItemInstance, i: nat)
    ensures
        first_join_from(s, item, i) == -1 || (i <= first_join_from(s, item, i) < s.len()
            && joins(s[first_join_from(s, item, i)], item)),
    decreases s.len() - i,
{
    if i < s.len() && !joins(s[i as int], item) {
        lemma_first_join_bounds(s, item, i + 1);
    }
}

proof fn lemma_first_of_kind_bounds(s: Seq<ItemInstance>, kind: ItemKind, i: nat)
    ensures
        first_of_kind_from(s, kind, i) == -1 ==> forall|k: int|
            i <= k < s.len() ==> !(s[k].kind == kind && s[k].count > 0),
        first_of_kind_from(s, kind, i) != -1 ==> (i <= first_of_kind_from(s, kind, i) < s.len()
            && s[first_of_kind_from(s, kind, i)].kind == kind
            && s[first_of_kind_from(s, kind, i)].count > 0),
    decreases s.len() - i,
{
    if i < s.len() && !(s[i as int].kind == kind && s[i as int].count > 0) {
        lemma_first_of_kind_bounds(s, kind, i + 1);
    }
}

proof fn lemma_first_water_bounds(s: Seq<ItemInstance>, i: nat)
    ensures
        first_water_from(s, i) == -1 ==> forall|k: int| i <= k < s.len() ==> !has_water(s[k]),
        first_water_from(s, i) != -1 ==> (i <= first_water_from(s, i) < s.len() && has_water(
            s[first_water_from(s, i)],
        )),
    decreases s.len() - i,
{
    if i < s.len() && !has_water(s[i as int]) {
        lemma_first_water_bounds(s, i + 1);
    }
}

proof fn lemma_stack_sum_nonneg(s: Seq<ItemInstance>)
    ensures
        stack_sum(s) >= 0,
    decreases s.len(),
{
    if s.len() > 0 {
        lemma_stack_sum_nonneg(s.drop_last());
    }
}

proof fn lemma_stack_sum_push(s: Seq<ItemInstance>, x: ItemInstance)
    ensures
        stack_sum(s.push(x)) == stack_sum(s) + instance_weight(x),
{
    assert(s.push(x).drop_last() =~= s);
}

proof fn lemma_stack_sum_update(s: Seq<ItemInstance>, j: int, x: ItemInstance)
    requires
        0 <= j < s.len(),
    ensures
        stack_sum(s.update(j, x)) == stack_sum(s) - instance_weight(s[j]) + instance_weight(x),
    decreases s.len(),
{
    if j == s.len() - 1 {
        assert(s.update(j, x).drop_last() =~= s.drop_last());
    } else {
        lemma_stack_sum_update(s.drop_last(), j, x);
        assert(s.update(j, x).drop_last() =~= s.drop_last().update(j, x));
    }
}

proof fn lemma_units_update(s: Seq<ItemInstance>, j: int, x: ItemInstance, kind: ItemKind)
    requires
        0 <= j < s.len(),
    ensures
        units_of(s.update(j, x), kind) == units_of(s, kind) - (if s[j].kind == kind {
            s[j].count as int
        } else {
            0
        }) + (if x.kind == kind {
            x.count as int
        } else {
            0
        }),
    decreases s.len(),
{
    if j == s.len() - 1 {
        assert(s.update(j, x).drop_last() =~= s.drop_last());
    } else {
        lemma_units_update(s.drop_last(), j, x, kind);
        assert(s.update(j, x).drop_last() =~= s.drop_last().update(j, x));
    }
}

proof fn lemma_units_remove(s: Seq<ItemInstance>, j: int, kind: ItemKind)
    requires
        0 <= j < s.len(),
    ensures
        units_of(s.remove(j), kind) == units_of(s, kind) - (if s[j].kind == kind {
            s[j].count as int
        } else {
            0
        }),
    decreases s.len(),
{
    if j == s.len() - 1 {
        assert(s.remove(j) =~= s.drop_last());
    } else {
        lemma_units_remove(s.drop_last(), j, kind);
        assert(s.remove(j).drop_last() =~= s.drop_last().remove(j));
    }
}

/// A pack that accepts an item stays within its capacity: when the current
/// weight plus the item's weight fits, the new contents weigh no more than
/// the capacity.
pub proof fn law_accepted_item_fits(s: Seq<ItemInstance>, capacity_g: u32, item: ItemInstance)
    requires
        contents_weight(s) + instance_weight(item) <= capacity_g,
    ensures
        contents_weight(added_contents(s, item)) <= capacity_g,
{
    lemma_stack_sum_nonneg(s);
    if stack_sum(s) > u32::MAX {
        return;
    }
    let j = first_join_from(s, item, 0);
    lemma_first_join_bounds(s, item, 0);
    if can_merge(item) && j >= 0 {
        let e = s[j];
        lemma_stack_sum_update(s, j, merged(e, item));
        let m = merged(e, item);
        assert(instance_weight(m) <= instance_weight(e) + instance_weight(item)) by {
            assert(e.weight_g_each == item.weight_g_each);
            let w = e.weight_g_each as int;
            assert(w * m.count <= w * e.count + w * item.count) by (nonlinear_arith)
                requires
                    w >= 0,
                    m.count <= e.count + item.count,
            ;
            assert(w * e.count >= 0) by (nonlinear_arith)
                requires
                    w >= 0,
                    e.count >= 0,
            ;
            assert(w * item.count >= 0) by (nonlinear_arith)
                requires
                    w >= 0,
                    item.count >= 0,
            ;
        }
    } else {
        lemma_stack_sum_push(s, item);
    }
}

/// Taking one unit of a kind the pack holds leaves exactly one unit fewer
/// of that kind.
pub proof fn law_take_one_removes_one_unit(s: Seq<ItemInstance>, kind: ItemKind)
    requires
        holds_kind(s, kind),
    ensures
        first_of_kind_from(s, kind, 0) >= 0,
        units_of(taken_one(s, first_of_kind_from(s, kind, 0)), kind) == units_of(s, kind) - 1,
{
    lemma_first_of_kind_bounds(s, kind, 0);
    let j = first_of_kind_from(s, kind, 0);
    if j == -1 {
        let w = choose|i: int| 0 <= i < s.len() && s[i].kind == kind && s[i].count > 0;
        assert(!(s[w].kind == kind && s[w].count > 0));
    }
    if s[j].count == 1 {
        lemma_units_remove(s, j, kind);
    } else {
        lemma_units_update(s, j, ItemInstance { count: (s[j].count - 1) as u16, ..s[j] }, kind);
    }
}

impl Pack {
    pub fn empty(capacity_g: u32) -> (r: Self)
        ensures
            r.capacity_g == capacity_g,
            r.contents@ == Seq::<ItemInstance>::empty(),
    {
        Self { capacity_g, contents: Vec::new() }
    }

    /// Weight of everything in the pack, capped at `u32::MAX`.
    pub fn total_weight_g(&self) -> (r: u32)
        ensures
            r as int == contents_weight(self.contents@),
    {
        let mut acc: u64 = 0;
        let mut i: usize = 0;
        while i < self.contents.len()
            invariant
                i <= self.contents.len(),
                acc as int == contents_weight(self.contents@.take(i as int)),
            decreases self.contents.len() - i,
        {
            let w = self.contents[i].total_weight_g();
            proof {
                let s = self.contents@.take(i as int + 1);
                assert(s.drop_last() =~= self.contents@.take(i as int));
                lemma_stack_sum_nonneg(self.contents@.take(i as int));
            }
            acc = acc + w as u64;
            if acc > 0xffff_ffffu64 {
                acc = 0xffff_ffffu64;
            }
            i += 1;
        }
        proof {
            assert(self.contents@.take(i as int) =~= self.contents@);
        }
        acc as u32
    }

    /// Adds `item` unless it would push the pack over capacity, in which
    /// case the item comes back untouched. A fungible item with no
    /// metadata and no charges merges into the first matching stack.
    pub fn try_add(&mut self, item: ItemInstance) -> (r: Result<(), ItemInstance>)
        ensures
            final(self).capacity_g == old(self).capacity_g,
            contents_weight(old(self).contents@) + instance_weight(item) > old(self).capacity_g
                ==> r == Err::<(), ItemInstance>(item) && final(self).contents@ == old(
                self,
            ).contents@,
            contents_weight(old(self).contents@) + instance_weight(item) <= old(self).capacity_g
                ==> r == Ok::<(), ItemInstance>(()) && final(self).contents@ == added_contents(
                old(self).contents@,
                item,
            ),
    {
        let total = self.total_weight_g() as u64;
        let new_weight = total + item.total_weight_g() as u64;
        if new_weight > self.capacity_g as u64 {
            return Err(item);
        }
        let ghost s0 = self.contents@;
        if item.kind.is_fungible() && item.metadata == ItemMetadata::Plain && item.charges.is_none() {
            let mut i: usize = 0;
            while i < self.contents.len()
                invariant
                    self.contents@ == s0,
                    self.capacity_g == old(self).capacity_g,
                    s0 == old(self).contents@,
                    contents_weight(s0) + instance_weight(item) <= self.capacity_g,
                    can_merge(item),
                    i <= s0.len(),
                    first_join_from(s0, item, 0) == first_join_from(s0, item, i as nat),
                decreases self.contents.len() - i,
            {
                let e = &self.contents[i];
                if e.kind == item.kind && e.metadata == ItemMetadata::Plain && e.charges.is_none()
                    && e.weight_g_each == item.weight_g_each {
                    let sum = e.count as u32 + item.count as u32;
                    let count = if sum > 0xffff { 0xffffu16 } else { sum as u16 };
                    let m = ItemInstance {
                        kind: e.kind,
                        count,
                        weight_g_each: e.weight_g_each,
                        charges: e.charges,
                        metadata: e.metadata,
                    };
                    self.contents.set(i, m);
                    return Ok(());
                }
                i += 1;
            }
        }
        self.contents.push(item);
        Ok(())
    }

    /// True if some entry of `kind` has a positive count.
    pub fn has_stack(&self, kind: ItemKind) -> (r: bool)
        ensures
            r == holds_kind(self.contents@, kind),
    {
        let mut i: usize = 0;
        while i < self.contents.len()
            invariant
                i <= self.contents.len(),
                forall|k: int|
                    0 <= k < i ==> !(self.contents@[k].kind == kind && self.contents@[k].count > 0),
            decreases self.contents.len() - i,
        {
            if self.contents[i].kind == kind && self.contents[i].count > 0 {
                return true;
            }
            i += 1;
        }
        false
    }

    /// Takes one unit from the first entry of `kind` with a positive
    /// count; the entry goes when its count reaches 0. False (and no
    /// change) when there is none.
    pub fn take_one_from_stack(&mut self, kind: ItemKind) -> (r: bool)
        ensures
            final(self).capacity_g == old(self).capacity_g,
            r == holds_kind(old(self).contents@, kind),
            r ==> final(self).contents@ == taken_one(
                old(self).contents@,
                first_of_kind_from(old(self).contents@, kind, 0),
            ),
            !r ==> final(self).contents@ == old(self).contents@,
    {
        let ghost s0 = self.contents@;
        proof {
            lemma_first_of_kind_bounds(s0, kind, 0);
        }
        let mut i: usize = 0;
        while i < self.contents.len()
            invariant
                self.contents@ == s0,
                self.capacity_g == old(self).capacity_g,
                s0 == old(self).contents@,
                i <= s0.len(),
                first_of_kind_from(s0, kind, 0) == first_of_kind_from(s0, kind, i as nat),
                forall|k: int| 0 <= k < i ==> !(s0[k].kind == kind && s0[k].count > 0),
            decreases self.contents.len() - i,
        {
            if self.contents[i].kind == kind && self.contents[i].count > 0 {
                proof {
                    assert(s0[i as int].kind == kind && s0[i as int].count > 0);
                    assert(holds_kind(s0, kind));
                }
                let e = &self.contents[i];
                if e.count == 1 {
                    self.contents.remove(i);
                } else {
                    let m = ItemInstance {
                        kind: e.kind,
                        count: e.count - 1,
                        weight_g_each: e.weight_g_each,
                        charges: e.charges,
                        metadata: e.metadata,
                    };
                    self.contents.set(i, m);
                }
                return true;
            }
            i += 1;
        }
        false
    }

    /// True if some waterskin in the pack still holds water.
    pub fn has_waterskin_with_water(&self) -> (r: bool)
        ensures
            r == exists|i: int| 0 <= i < self.contents@.len() && has_water(self.contents@[i]),
    {
        let mut i: usize = 0;
        while i < self.contents.len()
            invariant
                i <= self.contents.len(),
                forall|k: int| 0 <= k < i ==> !has_water(self.contents@[k]),
            decreases self.contents.len() - i,
        {
            let e = &self.contents[i];
            if e.kind == ItemKind::Waterskin {
                match e.metadata {
                    ItemMetadata::Waterskin { water_uses } => {
                        if water_uses > 0 {
                            return true;
                        }
                    },
                    _ => {},
                }
            }
            i += 1;
        }
        false
    }

    /// Uses one charge of water from the first waterskin that holds any:
    /// one use fewer, 250 g lighter. False (and no change) when no
    /// waterskin holds water.
    pub fn drink_one_water_use(&mut self) -> (r: bool)
        ensures
            final(self).capacity_g == old(self).capacity_g,
            r == (first_water_from(old(self).contents@, 0) >= 0),
            r ==> final(self).contents@ == old(self).contents@.update(
                first_water_from(old(self).contents@, 0),
                drunk(old(self).contents@[first_water_from(old(self).contents@, 0)]),
            ),
            !r ==> final(self).contents@ == old(self).contents@,
    {
        let ghost s0 = self.contents@;
        proof {
            lemma_first_water_bounds(s0, 0);
        }
        let mut i: usize = 0;
        while i < self.contents.len()
            invariant
                self.contents@ == s0,
                self.capacity_g == old(self).capacity_g,
                s0 == old(self).contents@,
                i <= s0.len(),
                first_water_from(s0, 0) == first_water_from(s0, i as nat),
            decreases self.contents.len() - i,
        {
            let e = &self.contents[i];
            if e.kind == ItemKind::Waterskin {
                match e.metadata {
                    ItemMetadata::Waterskin { water_uses } => {
                        if water_uses > 0 {
                            proof {
                                assert(has_water(s0[i as int]));
                            }
                            let m = ItemInstance {
                                kind: e.kind,
                                count: e.count,
                                weight_g_each: if e.weight_g_each < 250 {
                                    0
                                } else {
                                    e.weight_g_each - 250
                                },
                                charges: e.charges,
                                metadata: ItemMetadata::Waterskin { water_uses: water_uses - 1 },
                            };
                            self.contents.set(i, m);
                            return true;
                        }
                    },
                    _ => {},
                }
            }
            i += 1;
        }
        proof {
            lemma_first_water_bounds(s0, i as nat);
        }
        false
    }

    pub fn to_save(&self) -> (r: PackSave)
        ensures
            r@.capacity_g == self.capacity_g,
            r@.contents == self.contents@.map_values(|i: ItemInstance| instance_record(i)),
    {
        let mut out: Vec<ItemInstanceSave> = Vec::new();
        let mut i: usize = 0;
        while i < self.contents.len()
            invariant
                i <= self.contents.len(),
                out@.len() == i,
                forall|k: int| 0 <= k < i ==> #[trigger] out@[k]@ == instance_record(self.contents@[k]),
            decreases self.contents.len() - i,
        {
            out.push(self.contents[i].to_save());
            i += 1;
        }
        let r = PackSave { capacity_g: self.capacity_g, contents: out };
        proof {
            assert(r@.contents =~= self.contents@.map_values(|i: ItemInstance| instance_record(i)));
        }
        r
    }

    /// Rebuilds a pack from a save; entries of unknown kinds are dropped.
    pub fn from_save(s: &PackSave) -> (r: Self)
        ensures
            r.capacity_g == s.capacity_g,
            r.contents@ == instances_from_records(s@.contents),
    {
        let mut out: Vec<ItemInstance> = Vec::new();
        let mut i: usize = 0;
        while i < s.contents.len()
            invariant
                i <= s.contents.len(),
                out@ == instances_from_records(s@.contents.take(i as int)),
            decreases s.contents.len() - i,
        {
            proof {
                assert(s@.contents.take(i as int + 1).drop_last() =~= s@.contents.take(i as int));
            }
            match ItemInstance::from_save(&s.contents[i]) {
                Some(inst) => out.push(inst),
                None => {},
            }
            i += 1;
        }
        proof {
            assert(s@.contents.take(i as int) =~= s@.contents);
        }
        Self { capacity_g: s.capacity_g, contents: out }
    }
}

/// Saving a pack and loading it back keeps its capacity and every entry,
/// in order (a zero count comes back as 1).
pub proof fn law_pack_save_round_trip(s: Seq<ItemInstance>)
    ensures
        instances_from_records(s.map_values(|i: ItemInstance| instance_record(i))) == s.map_values(
            |i: ItemInstance| normalized(i),
        ),
    decreases s.len(),
{
    if s.len() > 0 {
        law_pack_save_round_trip(s.drop_last());
        law_instance_save_round_trip(s.last());
        assert(s.map_values(|i: ItemInstance| instance_record(i)).drop_last() =~= s.drop_last().map_values(
            |i: ItemInstance| instance_record(i),
        ));
        assert(s.map_values(|i: ItemInstance| normalized(i)) =~= s.drop_last().map_values(
            |i: ItemInstance| normalized(i),
        ).push(normalized(s.last())));
    } else {
        assert(s.map_values(|i: ItemInstance| normalized(i)) =~= Seq::<ItemInstance>::empty());
    }
}

/// Slice-1 starting inventory: axe, knife, three rations, two full
/// waterskins, flint and steel, tent, bedroll and cooking pan in a 15 kg
/// pack.
pub open spec fn starting_contents() -> Seq<ItemInstance> {
    seq![
        ItemInstance { kind: ItemKind::Axe, count: 1, weight_g_each: 1_000, charges: None, metadata: ItemMetadata::Plain },
        ItemInstance { kind: ItemKind::Knife, count: 1, weight_g_each: 200, charges: None, metadata: ItemMetadata::Plain },
        ItemInstance { kind: ItemKind::Ration, count: 3, weight_g_each: 500, charges: None, metadata: ItemMetadata::Plain },
        ItemInstance { kind: ItemKind::Waterskin, count: 1, weight_g_each: 1_200, charges: Some(4u16), metadata: ItemMetadata::Waterskin { water_uses: 4 } },
        ItemInstance { kind: ItemKind::Waterskin, count: 1, weight_g_each: 1_200, charges: Some(4u16), metadata: ItemMetadata::Waterskin { water_uses: 4 } },
        ItemInstance { kind: ItemKind::FlintAndSteel, count: 1, weight_g_each: 100, charges: None, metadata: ItemMetadata::Plain },
        ItemInstance { kind: ItemKind::Tent, count: 1, weight_g_each: 5_000, charges: None, metadata: ItemMetadata::Plain },
        ItemInstance { kind: ItemKind::Bedroll, count: 1, weight_g_each: 2_000, charges: None, metadata: ItemMetadata::Plain },
        ItemInstance { kind: ItemKind::CookingPan, count: 1, weight_g_each: 1_000, charges: None, metadata: ItemMetadata::Plain },
    ]
}

/// The starting inventory weighs 13.2 kg.
pub proof fn law_starting_pack_weight()
    ensures
        contents_weight(starting_contents()) == 13_200,
{
    let s = starting_contents();
    assert(s.drop_last().drop_last().drop_last().drop_last().drop_last().drop_last().drop_last().drop_last().drop_last() =~= Seq::<ItemInstance>::empty());
    reveal_with_fuel(stack_sum, 10);
}

pub fn starting_pack() -> (p: Pack)
    ensures
        p.capacity_g == 15_000,
        p.contents@ == starting_contents(),
{
    let mut p = Pack::empty(15_000);
    p.contents.push(ItemInstance::unique(ItemKind::Axe, 1_000, None, ItemMetadata::Plain));
    p.contents.push(ItemInstance::unique(ItemKind::Knife, 200, None, ItemMetadata::Plain));
    p.contents.push(ItemInstance::stack(ItemKind::Ration, 3, 500, None, ItemMetadata::Plain));
    p.contents.push(
        ItemInstance::unique(ItemKind::Waterskin, 1_200, Some(4), ItemMetadata::Waterskin { water_uses: 4 }),
    );
    p.contents.push(
        ItemInstance::unique(ItemKind::Waterskin, 1_200, Some(4), ItemMetadata::Waterskin { water_uses: 4 }),
    );
    p.contents.push(ItemInstance::unique(ItemKind::FlintAndSteel, 100, None, ItemMetadata::Plain));
    p.contents.push(ItemInstance::unique(ItemKind::Tent, 5_000, None, ItemMetadata::Plain));
    p.contents.push(ItemInstance::unique(ItemKind::Bedroll, 2_000, None, ItemMetadata::Plain));
    p.contents.push(ItemInstance::unique(ItemKind::CookingPan, 1_000, None, ItemMetadata::Plain));
    proof {
        assert(p.contents@ =~= starting_contents());
    }
    p
}
} // verus!
