//! How a slot is to look: which of its traits decides its shade.

use vstd::prelude::*;

verus! {

/// What of a slot its look depends on.
#[derive(Clone, Copy, Debug, PartialEq, Eq, Structural)]
pub struct SlotTraits {
    /// The slot swallows what is dropped into it.
    pub is_pit: bool,
    /// The slot produces payloads.
    pub is_spawner: bool,
    /// A carrier is already seeing to the slot.
    pub is_taken_care_of: bool,
}

/// The shades a slot is painted in.
#[derive(Clone, Copy, Debug, PartialEq, Eq, Structural)]
pub enum Shade {
    /// The shade of a pit.
    Pit,
    /// The shade of a spawner.
    Spawner,
    /// The shade of a slot a carrier is seeing to.
    TakenCareOf,
    /// The shade of a slot nobody is seeing to.
    Waiting,
}

/// The shade of a slot with these traits. Being a pit counts first, then
/// being a spawner, then being taken care of.
pub open spec fn shade_of(slot: SlotTraits) -> Shade {
    if slot.is_pit {
        Shade::Pit
    } else if slot.is_spawner {
        Shade::Spawner
    } else if slot.is_taken_care_of {
        Shade::TakenCareOf
    } else {
        Shade::Waiting
    }
}

/// Chooses the shade a slot is painted in.
pub fn slot_shade(slot: &SlotTraits) -> (shade: Shade)
    ensures
        shade == shade_of(*slot),
{
    if slot.is_pit {
        Shade::Pit
    } else if slot.is_spawner {
        Shade::Spawner
    } else if slot.is_taken_care_of {
        Shade::TakenCareOf
    } else {
        Shade::Waiting
    }
}

} // verus!
