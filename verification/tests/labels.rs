use swarm_arena::carrier::{carrier_state_to_string, CarrierState};
use swarm_arena::shade::{slot_shade, Shade, SlotTraits};

#[test]
fn states_have_labels() {
    assert_eq!(carrier_state_to_string(CarrierState::IDLE), "Idle");
    assert_eq!(carrier_state_to_string(CarrierState::TARGETING(3)), "Targeting");
    assert_eq!(carrier_state_to_string(CarrierState::MOVING(0)), "Moving");
    assert_eq!(carrier_state_to_string(CarrierState::PICKINGUP(9)), "Picking up");
    assert_eq!(carrier_state_to_string(CarrierState::LOOKINGFORTARGET), "Looking where to drop");
    assert_eq!(carrier_state_to_string(CarrierState::NOTARGET), "Can't find target to drop");
    assert_eq!(carrier_state_to_string(CarrierState::DELIVERING(1)), "Delivering payload");
    assert_eq!(carrier_state_to_string(CarrierState::PUTTINGDOWN(1)), "Putting down");
    assert_eq!(carrier_state_to_string(CarrierState::_DEBUG_), "Beret");
}

#[test]
fn states_name_their_slot() {
    assert_eq!(CarrierState::IDLE.slot(), None);
    assert_eq!(CarrierState::LOOKINGFORTARGET.slot(), None);
    assert_eq!(CarrierState::NOTARGET.slot(), None);
    assert_eq!(CarrierState::_DEBUG_.slot(), None);
    assert_eq!(CarrierState::TARGETING(4).slot(), Some(4));
    assert_eq!(CarrierState::MOVING(5).slot(), Some(5));
    assert_eq!(CarrierState::PICKINGUP(6).slot(), Some(6));
    assert_eq!(CarrierState::DELIVERING(7).slot(), Some(7));
    assert_eq!(CarrierState::PUTTINGDOWN(8).slot(), Some(8));
}

#[test]
fn shade_goes_by_pit_then_spawner_then_care() {
    let all = [false, true];
    for is_pit in all {
        for is_spawner in all {
            for is_taken_care_of in all {
                let expected = if is_pit {
                    Shade::Pit
                } else if is_spawner {
                    Shade::Spawner
                } else if is_taken_care_of {
                    Shade::TakenCareOf
                } else {
                    Shade::Waiting
                };
                assert_eq!(slot_shade(&SlotTraits { is_pit, is_spawner, is_taken_care_of }), expected);
            }
        }
    }
    assert_eq!(
        slot_shade(&SlotTraits { is_pit: true, is_spawner: true, is_taken_care_of: true }),
        Shade::Pit
    );
    assert_eq!(
        slot_shade(&SlotTraits { is_pit: false, is_spawner: true, is_taken_care_of: true }),
        Shade::Spawner
    );
    assert_eq!(
        slot_shade(&SlotTraits { is_pit: false, is_spawner: false, is_taken_care_of: true }),
        Shade::TakenCareOf
    );
    assert_eq!(
        slot_shade(&SlotTraits { is_pit: false, is_spawner: false, is_taken_care_of: false }),
        Shade::Waiting
    );
}
