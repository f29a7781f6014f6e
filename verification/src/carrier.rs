//! The states a carrier cycles through, and the words shown for them.

use vstd::prelude::*;

verus! {

/// Where a carrier is in its cycle. States that concern a slot carry its
/// index.
#[allow(non_camel_case_types)]
#[derive(Clone, Copy, Debug, PartialEq, Eq, Structural)]
pub enum CarrierState {
    /// Empty-handed and looking for a payload to fetch.
    IDLE,
    /// Turning towards the slot it will go to.
    TARGETING(usize),
    /// Travelling to the slot, to fetch or to deliver.
    MOVING(usize),
    /// At the slot, taking its payload.
    PICKINGUP(usize),
    /// Loaded and looking for a slot that wants the payload.
    LOOKINGFORTARGET,
    /// Loaded, with no slot wanting the payload.
    NOTARGET,
    /// Carrying the payload to the slot.
    DELIVERING(usize),
    /// At the slot, putting the payload down.
    PUTTINGDOWN(usize),
    /// A state the engine keeps for its own trials.
    _DEBUG_,
}

impl CarrierState {
    /// The slot this state concerns.
    pub open spec fn slot_of(self) -> Option<usize> {
        match self {
            CarrierState::TARGETING(s) => Some(s),
            CarrierState::MOVING(s) => Some(s),
            CarrierState::PICKINGUP(s) => Some(s),
            CarrierState::DELIVERING(s) => Some(s),
            CarrierState::PUTTINGDOWN(s) => Some(s),
            _ => None,
        }
    }

    /// The slot this state concerns, if it concerns one.
    pub fn slot(&self) -> (r: Option<usize>)
        ensures
            r == self.slot_of(),
    {
        match self {
            CarrierState::TARGETING(s) => Some(*s),
            CarrierState::MOVING(s) => Some(*s),
            CarrierState::PICKINGUP(s) => Some(*s),
            CarrierState::DELIVERING(s) => Some(*s),
            CarrierState::PUTTINGDOWN(s) => Some(*s),
            _ => None,
        }
    }
}

/// The words shown for each state.
pub open spec fn state_label(state: CarrierState) -> Seq<char> {
    match state {
        CarrierState::IDLE => "Idle"@,
        CarrierState::TARGETING(_) => "Targeting"@,
        CarrierState::MOVING(_) => "Moving"@,
        CarrierState::PICKINGUP(_) => "Picking up"@,
        CarrierState::LOOKINGFORTARGET => "Looking where to drop"@,
        CarrierState::NOTARGET => "Can't find target to drop"@,
        CarrierState::DELIVERING(_) => "Delivering payload"@,
        CarrierState::PUTTINGDOWN(_) => "Putting down"@,
        CarrierState::_DEBUG_ => "Beret"@,
    }
}

/// The label of a state, whatever slot it concerns.
pub fn carrier_state_to_string(state: CarrierState) -> (s: &'static str)
    ensures
        s@ == state_label(state),
{
    match state {
        CarrierState::IDLE => "Idle",
        CarrierState::TARGETING(_) => "Targeting",
        CarrierState::MOVING(_) => "Moving",
        CarrierState::PICKINGUP(_) => "Picking up",
        CarrierState::LOOKINGFORTARGET => "Looking where to drop",
        CarrierState::NOTARGET => "Can't find target to drop",
        CarrierState::DELIVERING(_) => "Delivering payload",
        CarrierState::PUTTINGDOWN(_) => "Putting down",
        CarrierState::_DEBUG_ => "Beret",
    }
}

} // verus!
