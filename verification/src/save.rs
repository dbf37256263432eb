//! Save-file records for items and packs. Kinds and cooking states are
//! stored by their stable string keys so the format survives new variants.

use vstd::prelude::*;

verus! {

/// Saved item metadata. `Plain` is an item with no extra state.
pub enum ItemMetadataSave {
    Plain,
    Waterskin { water_uses: u8 },
    Pitched,
    Lit { fuel_seconds: u32 },
    PannedOnFire {
        contents_kind: String,
        input: String,
        elapsed_secs: u32,
        seasonings: u8,
        fuel_seconds: u32,
    },
    Cooked { base: String, state: String, seasonings: u8 },
}

/// The content of an `ItemMetadataSave`, with strings read as characters.
pub enum MetadataRecord {
    Plain,
    Waterskin { water_uses: u8 },
    Pitched,
    Lit { fuel_seconds: u32 },
    PannedOnFire {
        contents_kind: Seq<char>,
        input: Seq<char>,
        elapsed_secs: u32,
        seasonings: u8,
        fuel_seconds: u32,
    },
    Cooked { base: Seq<char>, state: Seq<char>, seasonings: u8 },
}

impl View for ItemMetadataSave {
    type V = MetadataRecord;

    open spec fn view(&self) -> MetadataRecord {
        match self {
            ItemMetadataSave::Plain => MetadataRecord::Plain,
            ItemMetadataSave::Waterskin { water_uses } => MetadataRecord::Waterskin {
                water_uses: *water_uses,
            },
            ItemMetadataSave::Pitched => MetadataRecord::Pitched,
            ItemMetadataSave::Lit { fuel_seconds } => MetadataRecord::Lit {
                fuel_seconds: *fuel_seconds,
            },
            ItemMetadataSave::PannedOnFire {
                contents_kind,
                input,
                elapsed_secs,
                seasonings,
                fuel_seconds,
            } => MetadataRecord::PannedOnFire {
                contents_kind: contents_kind@,
                input: input@,
                elapsed_secs: *elapsed_secs,
                seasonings: *seasonings,
                fuel_seconds: *fuel_seconds,
            },
            ItemMetadataSave::Cooked { base, state, seasonings } => MetadataRecord::Cooked {
                base: base@,
                state: state@,
                seasonings: *seasonings,
            },
        }
    }
}

pub struct ItemInstanceSave {
    pub kind: String,
    pub count: u16,
    pub weight_g_each: u32,
    pub charges: Option<u16>,
    pub metadata: ItemMetadataSave,
}

/// The content of an `ItemInstanceSave`.
pub struct InstanceRecord {
    pub kind: Seq<char>,
    pub count: u16,
    pub weight_g_each: u32,
    pub charges: Option<u16>,
    pub metadata: MetadataRecord,
}

impl View for ItemInstanceSave {
    type V = InstanceRecord;

    open spec fn view(&self) -> InstanceRecord {
        InstanceRecord {
            kind: self.kind@,
            count: self.count,
            weight_g_each: self.weight_g_each,
            charges: self.charges,
            metadata: self.metadata@,
        }
    }
}

pub struct PackSave {
    pub capacity_g: u32,
    pub contents: Vec<ItemInstanceSave>,
}

/// The content of a `PackSave`.
pub struct PackRecord {
    pub capacity_g: u32,
    pub contents: Seq<InstanceRecord>,
}

impl View for PackSave {
    type V = PackRecord;

    open spec fn view(&self) -> PackRecord {
        PackRecord {
            capacity_g: self.capacity_g,
            contents: self.contents@.map_values(|i: ItemInstanceSave| i@),
        }
    }
}

} // verus!
