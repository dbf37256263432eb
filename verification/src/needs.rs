//! The survival needs the player tracks.

use vstd::prelude::*;

verus! {

#[derive(Clone, Copy, Debug, PartialEq, Eq, Hash, Structural)]
pub enum NeedKind {
    Thirst,
    Hunger,
    Sleep,
    Warmth,
}

/// The player's four need meters; a meter at 0 is spent.
#[derive(Clone, Copy, Debug, PartialEq, Eq, Structural)]
pub struct Needs {
    pub thirst: u8,
    pub hunger: u8,
    pub sleep: u8,
    pub warmth: u8,
}

/// The needs with meter `kind` set to `value`.
pub open spec fn needs_with(n: Needs, kind: NeedKind, value: u8) -> Needs {
    match kind {
        NeedKind::Thirst => Needs { thirst: value, ..n },
        NeedKind::Hunger => Needs { hunger: value, ..n },
        NeedKind::Sleep => Needs { sleep: value, ..n },
        NeedKind::Warmth => Needs { warmth: value, ..n },
    }
}

impl Needs {
    /// Sets meter `kind` to `value`.
    pub fn set(&mut self, kind: NeedKind, value: u8)
        ensures
            *final(self) == needs_with(*old(self), kind, value),
    {
        match kind {
            NeedKind::Thirst => self.thirst = value,
            NeedKind::Hunger => self.hunger = value,
            NeedKind::Sleep => self.sleep = value,
            NeedKind::Warmth => self.warmth = value,
        }
    }
}

} // verus!
