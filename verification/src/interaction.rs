use vstd::prelude::*;
use crate::ecs::Entity;

verus! {

/// Something the player can do to an entity or a tile.
#[derive(Clone, Copy, Debug, PartialEq, Eq, Structural)]
pub enum InteractionType {
    Douse(Entity),
    Light(Entity),
    HideIn(Entity),
    Grab(Entity),
    Disarm(Entity),
    Arm(Entity),
    Attack(Entity),
    Pickup(Entity),
    OpenDoor(Entity),
    CloseDoor(Entity),
    OpenContainer(Entity),
    GoUp(usize),
    GoDown(usize),
    Move(usize),
    Exit(usize),
}

} // verus!
