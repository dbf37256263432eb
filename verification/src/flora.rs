//! Tree species and the interactive undergrowth vocabulary: glyphs,
//! seasonal tints, regrowth times, mast drops and what blocks movement or
//! sight.

use vstd::prelude::*;

use crate::calendar::Season;
use crate::items::ItemKind;
use crate::text::str_eq;

verus! {

#[derive(Clone, Copy, Debug, PartialEq, Eq, Structural)]
pub enum TreeSpecies {
    Oak,
    Hazel,
    Holly,
    Ash,
    Rowan,
    /// Anchors the `BeechCombe` biome; no mast item yet.
    Beech,
}

/// Every species, in declaration order.
pub open spec fn all_species() -> Seq<TreeSpecies> {
    seq![
        TreeSpecies::Oak,
        TreeSpecies::Hazel,
        TreeSpecies::Holly,
        TreeSpecies::Ash,
        TreeSpecies::Rowan,
        TreeSpecies::Beech,
    ]
}

/// Every species, in declaration order.
pub fn all_tree_species() -> (r: Vec<TreeSpecies>)
    ensures
        r@ == all_species(),
{
    let mut v: Vec<TreeSpecies> = Vec::new();
    v.push(TreeSpecies::Oak);
    v.push(TreeSpecies::Hazel);
    v.push(TreeSpecies::Holly);
    v.push(TreeSpecies::Ash);
    v.push(TreeSpecies::Rowan);
    v.push(TreeSpecies::Beech);
    proof {
        assert(v@ =~= all_species());
    }
    v
}

pub open spec fn species_key(s: TreeSpecies) -> Seq<char> {
    match s {
        TreeSpecies::Oak => "oak"@,
        TreeSpecies::Hazel => "hazel"@,
        TreeSpecies::Holly => "holly"@,
        TreeSpecies::Ash => "ash"@,
        TreeSpecies::Rowan => "rowan"@,
        TreeSpecies::Beech => "beech"@,
    }
}

pub open spec fn species_from_key(s: Seq<char>) -> Option<TreeSpecies> {
    if s == "oak"@ {
        Some(TreeSpecies::Oak)
    } else if s == "hazel"@ {
        Some(TreeSpecies::Hazel)
    } else if s == "holly"@ {
        Some(TreeSpecies::Holly)
    } else if s == "ash"@ {
        Some(TreeSpecies::Ash)
    } else if s == "rowan"@ {
        Some(TreeSpecies::Rowan)
    } else if s == "beech"@ {
        Some(TreeSpecies::Beech)
    } else {
        None
    }
}

/// Position of a season in the spring, summer, autumn, winter cycle.
pub open spec fn season_index(s: Season) -> int {
    match s {
        Season::Spring => 0,
        Season::Summer => 1,
        Season::Autumn => 2,
        Season::Winter => 3,
    }
}

/// Canopy colour rows per species, one entry per season (spring, summer,
/// autumn, winter).
pub open spec fn canopy_palette(s: TreeSpecies) -> Seq<Seq<u8>> {
    match s {
        TreeSpecies::Oak => seq![seq![100u8, 150, 55], seq![55u8, 110, 40], seq![170u8, 110, 40], seq![140u8, 130, 110]],
        TreeSpecies::Hazel => seq![seq![140u8, 170, 80], seq![100u8, 150, 60], seq![200u8, 150, 50], seq![150u8, 140, 110]],
        TreeSpecies::Holly => seq![seq![40u8, 100, 40], seq![35u8, 95, 35], seq![40u8, 100, 40], seq![40u8, 100, 40]],
        TreeSpecies::Ash => seq![seq![120u8, 160, 70], seq![80u8, 130, 55], seq![180u8, 140, 60], seq![155u8, 145, 125]],
        TreeSpecies::Rowan => seq![seq![130u8, 170, 75], seq![90u8, 135, 55], seq![210u8, 90, 40], seq![160u8, 150, 120]],
        TreeSpecies::Beech => seq![seq![150u8, 180, 90], seq![85u8, 130, 55], seq![200u8, 130, 50], seq![180u8, 150, 110]],
    }
}

pub open spec fn sapling_days(s: TreeSpecies) -> u32 {
    match s {
        TreeSpecies::Hazel => 30,
        TreeSpecies::Rowan => 45,
        TreeSpecies::Ash => 45,
        TreeSpecies::Holly => 60,
        TreeSpecies::Oak => 90,
        TreeSpecies::Beech => 90,
    }
}

impl TreeSpecies {
    /// Stable key for saves.
    pub fn save_key(self) -> (r: &'static str)
        ensures
            r@ == species_key(self),
    {
        match self {
            TreeSpecies::Oak => "oak",
            TreeSpecies::Hazel => "hazel",
            TreeSpecies::Holly => "holly",
            TreeSpecies::Ash => "ash",
            TreeSpecies::Rowan => "rowan",
            TreeSpecies::Beech => "beech",
        }
    }

    /// The species saved under `s`; `None` for an unknown key.
    pub fn from_save_key(s: &str) -> (r: Option<Self>)
        ensures
            r == species_from_key(s@),
    {
        if str_eq(s, "oak") {
            Some(TreeSpecies::Oak)
        } else if str_eq(s, "hazel") {
            Some(TreeSpecies::Hazel)
        } else if str_eq(s, "holly") {
            Some(TreeSpecies::Holly)
        } else if str_eq(s, "ash") {
            Some(TreeSpecies::Ash)
        } else if str_eq(s, "rowan") {
            Some(TreeSpecies::Rowan)
        } else if str_eq(s, "beech") {
            Some(TreeSpecies::Beech)
        } else {
            None
        }
    }

    /// Every species but holly drops its leaves in autumn.
    pub fn is_deciduous(self) -> (r: bool)
        ensures
            r == (self != TreeSpecies::Holly),
    {
        !matches!(self, TreeSpecies::Holly)
    }

    /// Canopy glyph from the CP437 atlas.
    pub fn canopy_glyph(self) -> (r: u8)
        ensures
            r == (match self {
                TreeSpecies::Oak => 0x05u8,
                TreeSpecies::Hazel => 0x18u8,
                TreeSpecies::Holly => 0x06u8,
                TreeSpecies::Ash => 0x17u8,
                TreeSpecies::Rowan => 0x18u8,
                TreeSpecies::Beech => 0x05u8,
            }),
    {
        match self {
            TreeSpecies::Oak => 0x05,
            TreeSpecies::Hazel => 0x18,
            TreeSpecies::Holly => 0x06,
            TreeSpecies::Ash => 0x17,
            TreeSpecies::Rowan => 0x18,
            TreeSpecies::Beech => 0x05,
        }
    }

    /// Canopy tint for the species in the given season.
    pub fn canopy_fg(self, season: Season) -> (r: [u8; 3])
        ensures
            r@ == canopy_palette(self)[season_index(season)],
    {
        let row: [[u8; 3]; 4] = match self {
            TreeSpecies::Oak => [[100, 150, 55], [55, 110, 40], [170, 110, 40], [140, 130, 110]],
            TreeSpecies::Hazel => [[140, 170, 80], [100, 150, 60], [200, 150, 50], [150, 140, 110]],
            TreeSpecies::Holly => [[40, 100, 40], [35, 95, 35], [40, 100, 40], [40, 100, 40]],
            TreeSpecies::Ash => [[120, 160, 70], [80, 130, 55], [180, 140, 60], [155, 145, 125]],
            TreeSpecies::Rowan => [[130, 170, 75], [90, 135, 55], [210, 90, 40], [160, 150, 120]],
            TreeSpecies::Beech => [[150, 180, 90], [85, 130, 55], [200, 130, 50], [180, 150, 110]],
        };
        let i: usize = match season {
            Season::Spring => 0,
            Season::Summer => 1,
            Season::Autumn => 2,
            Season::Winter => 3,
        };
        let r = row[i];
        proof {
            assert(r@ =~= canopy_palette(self)[season_index(season)]);
        }
        r
    }

    /// Days a chopped sapling takes to grow back into a tree.
    pub fn sapling_days_to_mature(self) -> (r: u32)
        ensures
            r == sapling_days(self),
    {
        match self {
            TreeSpecies::Hazel => 30,
            TreeSpecies::Rowan => 45,
            TreeSpecies::Ash => 45,
            TreeSpecies::Holly => 60,
            TreeSpecies::Oak => 90,
            TreeSpecies::Beech => 90,
        }
    }

    /// Mast dropped in autumn: acorns, hazelnuts, rowan berries; none for
    /// holly, ash and beech.
    pub fn mast_item(self) -> (r: Option<ItemKind>)
        ensures
            r == (match self {
                TreeSpecies::Oak => Some(ItemKind::Acorn),
                TreeSpecies::Hazel => Some(ItemKind::Hazelnut),
                TreeSpecies::Rowan => Some(ItemKind::RowanBerry),
                _ => None,
            }),
    {
        match self {
            TreeSpecies::Oak => Some(ItemKind::Acorn),
            TreeSpecies::Hazel => Some(ItemKind::Hazelnut),
            TreeSpecies::Rowan => Some(ItemKind::RowanBerry),
            _ => None,
        }
    }
}

/// Each species' save key leads back to it.
pub proof fn law_species_key_round_trip(s: TreeSpecies)
    ensures
        species_from_key(species_key(s)) == Some(s),
{
    reveal_strlit("oak");
    reveal_strlit("hazel");
    reveal_strlit("holly");
    reveal_strlit("ash");
    reveal_strlit("rowan");
    reveal_strlit("beech");
    assert("holly"@[0] != "hazel"@[0] || "holly"@[1] != "hazel"@[1]);
    assert("rowan"@[0] != "hazel"@[0]);
    assert("rowan"@[0] != "holly"@[0]);
    assert("beech"@[0] != "hazel"@[0]);
    assert("beech"@[0] != "holly"@[0]);
    assert("beech"@[0] != "rowan"@[0]);
    assert("ash"@[0] != "oak"@[0]);
}

/// Holly is evergreen: its canopy keeps the same colour in spring, autumn
/// and winter. Every other species is deciduous and shifts colour from
/// summer to autumn.
pub proof fn law_evergreen_holly()
    ensures
        canopy_palette(TreeSpecies::Holly)[0] == canopy_palette(TreeSpecies::Holly)[2],
        canopy_palette(TreeSpecies::Holly)[0] == canopy_palette(TreeSpecies::Holly)[3],
        forall|s: TreeSpecies|
            s != TreeSpecies::Holly ==> canopy_palette(s)[1] != canopy_palette(s)[2],
{
    assert forall|s: TreeSpecies| s != TreeSpecies::Holly implies canopy_palette(s)[1]
        != canopy_palette(s)[2] by {
        assert(canopy_palette(s)[1][0] != canopy_palette(s)[2][0]);
    }
}

/// Lifecycle state of plants that bear harvestable output.
#[derive(Clone, Copy, Debug, PartialEq, Eq, Structural)]
pub enum PlantState {
    Sprout,
    Mature,
    Fruiting,
    Dormant,
    Dead,
}

impl Default for PlantState {
    fn default() -> (r: Self)
        ensures
            r == PlantState::Mature,
    {
        PlantState::Mature
    }
}

#[derive(Clone, Copy, Debug, PartialEq, Eq, Structural)]
pub enum MushroomKind {
    Edible,
    Mild,
    Toxic,
    Hallucinogenic,
}

/// Per-cell decoration overlay, drawn when the cell holds no item.
#[derive(Clone, Copy, Debug, PartialEq, Eq, Structural)]
pub enum Decoration {
    /// No decoration.
    Bare,
    Fern { state: PlantState },
    Moss,
    Bramble { state: PlantState },
    Bracken { state: PlantState },
    Gorse { state: PlantState },
    Sapling { species: TreeSpecies, planted_day: u32 },
    Mushroom { kind: MushroomKind, expires_day: u32 },
}

impl Default for Decoration {
    fn default() -> (r: Self)
        ensures
            r == Decoration::Bare,
    {
        Decoration::Bare
    }
}

pub open spec fn decoration_glyph(d: Decoration) -> u8 {
    match d {
        Decoration::Bare => 0,
        Decoration::Fern { .. } => 0xF0,
        Decoration::Moss => 0x07,
        Decoration::Bramble { .. } => 0x9D,
        Decoration::Bracken { .. } => 0x16,
        Decoration::Gorse { .. } => 0x05,
        Decoration::Sapling { .. } => 0x18,
        Decoration::Mushroom { .. } => 0xFA,
    }
}

pub open spec fn decoration_color(d: Decoration, season: Season) -> Seq<u8> {
    match d {
        Decoration::Bare => seq![0u8, 0, 0],
        Decoration::Fern { .. } => match season {
            Season::Autumn => seq![170u8, 130, 60],
            Season::Winter => seq![120u8, 110, 95],
            _ => seq![80u8, 145, 70],
        },
        Decoration::Moss => match season {
            Season::Winter => seq![80u8, 130, 130],
            _ => seq![70u8, 140, 80],
        },
        Decoration::Bramble { .. } => match season {
            Season::Spring => seq![110u8, 150, 80],
            Season::Summer => seq![110u8, 90, 130],
            Season::Autumn => seq![160u8, 60, 70],
            Season::Winter => seq![130u8, 100, 75],
        },
        Decoration::Bracken { .. } => match season {
            Season::Summer => seq![90u8, 140, 60],
            Season::Autumn => seq![180u8, 110, 45],
            _ => seq![110u8, 95, 65],
        },
        Decoration::Gorse { .. } => match season {
            Season::Spring | Season::Summer => seq![220u8, 200, 70],
            _ => seq![60u8, 110, 50],
        },
        Decoration::Sapling { species, .. } => canopy_palette(species)[season_index(season)],
        Decoration::Mushroom { kind, .. } => match kind {
            MushroomKind::Edible => seq![200u8, 170, 130],
            MushroomKind::Mild => seq![180u8, 140, 90],
            MushroomKind::Toxic => seq![200u8, 80, 70],
            MushroomKind::Hallucinogenic => seq![180u8, 90, 180],
        },
    }
}

impl Decoration {
    /// Only gorse blocks walking through the cell.
    pub fn blocks_pass(self) -> (r: bool)
        ensures
            r == (self is Gorse),
    {
        matches!(self, Decoration::Gorse { .. })
    }

    /// Only gorse blocks line of sight.
    pub fn blocks_sight(self) -> (r: bool)
        ensures
            r == (self is Gorse),
    {
        matches!(self, Decoration::Gorse { .. })
    }

    /// CP437 glyph for the overlay; 0 for `Bare`.
    pub fn glyph(self) -> (r: u8)
        ensures
            r == decoration_glyph(self),
    {
        match self {
            Decoration::Bare => 0,
            Decoration::Fern { .. } => 0xF0,
            Decoration::Moss => 0x07,
            Decoration::Bramble { .. } => 0x9D,
            Decoration::Bracken { .. } => 0x16,
            Decoration::Gorse { .. } => 0x05,
            Decoration::Sapling { .. } => 0x18,
            Decoration::Mushroom { .. } => 0xFA,
        }
    }

    /// Foreground tint of the overlay glyph; seasonal where the plant
    /// changes, by kind for mushrooms.
    pub fn fg(self, season: Season) -> (r: [u8; 3])
        ensures
            r@ == decoration_color(self, season),
    {
        let r: [u8; 3] = match self {
            Decoration::Bare => [0, 0, 0],
            Decoration::Fern { .. } => match season {
                Season::Autumn => [170, 130, 60],
                Season::Winter => [120, 110, 95],
                _ => [80, 145, 70],
            },
            Decoration::Moss => match season {
                Season::Winter => [80, 130, 130],
                _ => [70, 140, 80],
            },
            Decoration::Bramble { .. } => match season {
                Season::Spring => [110, 150, 80],
                Season::Summer => [110, 90, 130],
                Season::Autumn => [160, 60, 70],
                Season::Winter => [130, 100, 75],
            },
            Decoration::Bracken { .. } => match season {
                Season::Summer => [90, 140, 60],
                Season::Autumn => [180, 110, 45],
                _ => [110, 95, 65],
            },
            Decoration::Gorse { .. } => match season {
                Season::Spring | Season::Summer => [220, 200, 70],
                _ => [60, 110, 50],
            },
            Decoration::Sapling { species, .. } => {
                return species.canopy_fg(season);
            },
            Decoration::Mushroom { kind, .. } => match kind {
                MushroomKind::Edible => [200, 170, 130],
                MushroomKind::Mild => [180, 140, 90],
                MushroomKind::Toxic => [200, 80, 70],
                MushroomKind::Hallucinogenic => [180, 90, 180],
            },
        };
        proof {
            assert(r@ =~= decoration_color(self, season));
        }
        r
    }
}

pub open spec fn forage_list(season: Season) -> Seq<ItemKind> {
    match season {
        Season::Spring => seq![ItemKind::Herb, ItemKind::FernFrond],
        Season::Summer => seq![
            ItemKind::Herb,
            ItemKind::FernFrond,
            ItemKind::BrambleFruit,
            ItemKind::BrackenStraw,
        ],
        Season::Autumn => seq![
            ItemKind::Hazelnut,
            ItemKind::RowanBerry,
            ItemKind::Acorn,
            ItemKind::BrambleFruit,
        ],
        Season::Winter => seq![ItemKind::Moss, ItemKind::GorseFaggot],
    }
}

/// Foragable items in season.
pub fn forage_in_season(season: Season) -> (r: Vec<ItemKind>)
    ensures
        r@ == forage_list(season),
{
    let mut v: Vec<ItemKind> = Vec::new();
    match season {
        Season::Spring => {
            v.push(ItemKind::Herb);
            v.push(ItemKind::FernFrond);
        },
        Season::Summer => {
            v.push(ItemKind::Herb);
            v.push(ItemKind::FernFrond);
            v.push(ItemKind::BrambleFruit);
            v.push(ItemKind::BrackenStraw);
        },
        Season::Autumn => {
            v.push(ItemKind::Hazelnut);
            v.push(ItemKind::RowanBerry);
            v.push(ItemKind::Acorn);
            v.push(ItemKind::BrambleFruit);
        },
        Season::Winter => {
            v.push(ItemKind::Moss);
            v.push(ItemKind::GorseFaggot);
        },
    }
    proof {
        assert(v@ =~= forage_list(season));
    }
    v
}

} // verus!
