use vstd::prelude::*;
use crate::color::Color;
use crate::ecs::Entity;

verus! {

/// Where an entity stands: a tile index on a dungeon level.
#[derive(Clone, Copy, Debug, PartialEq, Eq, Structural)]
pub struct Position {
    pub idx: usize,
    pub level: u8,
}

/// How an entity is drawn; lower layers are drawn on top.
#[derive(Clone, Copy, Debug, PartialEq, Eq, Structural)]
pub struct Renderable {
    pub fg: Color,
    pub bg: Color,
    pub glyph: u16,
    pub layer: i32,
}

/// Hit points and fighting strength.
#[derive(Clone, Copy, Debug, PartialEq, Eq, Structural)]
pub struct CombatStats {
    pub max_hp: i32,
    pub hp: i32,
    pub power: i32,
    pub defense: i32,
}

/// Damage queued against an entity for this turn.
#[derive(Clone, Copy, Debug, PartialEq, Eq, Structural)]
pub struct SufferDamage {
    pub amount: i32,
}

/// Something that burns for a number of turns once lit.
#[derive(Clone, Copy, Debug, PartialEq, Eq, Structural)]
pub struct Flammable {
    pub turns_remaining: i32,
}

/// Marks an entity that is burning.
#[derive(Clone, Copy, Debug, PartialEq, Eq, Structural)]
pub struct OnFire {}

/// Marks a blood splatter.
#[derive(Clone, Copy, Debug, PartialEq, Eq, Structural)]
pub struct Blood {}

/// Marks something that can be dragged around.
#[derive(Clone, Copy, Debug, PartialEq, Eq, Structural)]
pub struct Grabbable {}

/// Marks something that blocks the tile it stands on.
#[derive(Clone, Copy, Debug, PartialEq, Eq, Structural)]
pub struct BlocksTile {}

/// Marks an item.
#[derive(Clone, Copy, Debug, PartialEq, Eq, Structural)]
pub struct Item {}

/// Marks an item used up on use.
#[derive(Clone, Copy, Debug, PartialEq, Eq, Structural)]
pub struct Consumable {}

/// The kinds of monster.
#[derive(Clone, Copy, Debug, PartialEq, Eq, Structural)]
pub enum MonsterSpecies {
    Goblin,
}

/// Marks a monster.
#[derive(Clone, Copy, Debug, PartialEq, Eq, Structural)]
pub struct Monster {
    pub species: MonsterSpecies,
}

/// Marks the player.
#[derive(Clone, Copy, Debug, PartialEq, Eq, Structural)]
pub struct Player {}

/// How far an item reaches when used.
#[derive(Clone, Copy, Debug, PartialEq, Eq, Structural)]
pub struct Ranged {
    pub range: i32,
}

/// The kinds of trap.
#[derive(Clone, Copy, Debug, PartialEq, Eq, Structural)]
pub enum TrapType {
    BearTrap,
    Caltrops,
}

/// A trap, set or carried.
#[derive(Clone, Copy, Debug, PartialEq, Eq, Structural)]
pub struct Trap {
    pub trap_type: TrapType,
    pub armed: bool,
}

/// What a hand holds.
#[derive(Clone, Copy, Debug, PartialEq, Eq, Structural)]
pub struct Equipment {
    pub dominant_hand: Option<Entity>,
    pub off_hand: Option<Entity>,
}

/// The slots that equipment can go in.
#[derive(Clone, Copy, Debug, PartialEq, Eq, Structural)]
pub enum EquipmentPositions {
    DominantHand,
    OffHand,
    Head,
    Body,
}

/// A request to put `equipment` (or nothing) into slot `position`.
#[derive(Clone, Copy, Debug, PartialEq, Eq, Structural)]
pub struct WantsToEquip {
    pub equipment: Option<Entity>,
    pub position: EquipmentPositions,
}

/// An item carried in `owner`'s backpack.
#[derive(Clone, Copy, Debug, PartialEq, Eq, Structural)]
pub struct InBackpack {
    pub owner: Entity,
}

/// A light source.
#[derive(Clone, Copy, Debug, PartialEq, Eq, Structural)]
pub struct CausesLight {
    pub radius: i32,
    pub lit: bool,
}

/// Marks a light that can be lit.
#[derive(Clone, Copy, Debug, PartialEq, Eq, Structural)]
pub struct Lightable {}

/// Marks a light that can be put out.
#[derive(Clone, Copy, Debug, PartialEq, Eq, Structural)]
pub struct Dousable {}

/// A request to light `item`.
#[derive(Clone, Copy, Debug, PartialEq, Eq, Structural)]
pub struct WantsToLight {
    pub item: Entity,
}

/// A request to douse `item`.
#[derive(Clone, Copy, Debug, PartialEq, Eq, Structural)]
pub struct WantsToDouse {
    pub item: Entity,
}

/// The entity holds on to `thing`.
#[derive(Clone, Copy, Debug, PartialEq, Eq, Structural)]
pub struct Grabbing {
    pub thing: Entity,
}

/// A request to grab `thing`, or to let go when there is none.
#[derive(Clone, Copy, Debug, PartialEq, Eq, Structural)]
pub struct WantsToGrab {
    pub thing: Option<Entity>,
}

/// A request to let go of what is held.
#[derive(Clone, Copy, Debug, PartialEq, Eq, Structural)]
pub struct WantsToReleaseGrabbed {}

/// The entity hides, in `hiding_spot` when there is one.
#[derive(Clone, Copy, Debug, PartialEq, Eq, Structural)]
pub struct Hiding {
    pub hiding_spot: Option<Entity>,
}

/// A request to hide in `hiding_spot`, or to come out when there is none.
#[derive(Clone, Copy, Debug, PartialEq, Eq, Structural)]
pub struct WantsToHide {
    pub hiding_spot: Option<Entity>,
}

/// A request to step to tile `idx`.
#[derive(Clone, Copy, Debug, PartialEq, Eq, Structural)]
pub struct WantsToMove {
    pub idx: usize,
}

/// Marks an entity that moved this turn.
#[derive(Clone, Copy, Debug, PartialEq, Eq, Structural)]
pub struct EntityMoved {}

/// A request to attack `target`.
#[derive(Clone, Copy, Debug, PartialEq, Eq, Structural)]
pub struct WantsToMelee {
    pub target: Entity,
}

/// The kinds of harm a weapon does.
#[derive(Clone, Copy, Debug, PartialEq, Eq, Structural)]
pub enum DamageType {
    Blunt,
    Slash,
    Pierce,
    Burn,
}

/// A weapon's damage: a roll in `min..=max` plus `bonus`, of one of the listed kinds.
pub struct CausesDamage {
    pub min: i32,
    pub max: i32,
    pub bonus: i32,
    pub damage_type: Vec<DamageType>,
}

/// The kinds of harm an entity has taken, each listed once.
pub struct DamageHistory {
    pub events: Vec<DamageType>,
}

/// The states of a door.
#[derive(Clone, Copy, Debug, PartialEq, Eq, Structural)]
pub enum DoorState {
    Opened,
    Closed,
}

/// A door.
#[derive(Clone, Copy, Debug, PartialEq, Eq, Structural)]
pub struct Door {
    pub state: DoorState,
}

/// A request to open the door on tile `idx` of level `level`.
#[derive(Clone, Copy, Debug, PartialEq, Eq, Structural)]
pub struct WantsToOpenDoor {
    pub idx: usize,
    pub level: u8,
}

/// A request to close `door`.
#[derive(Clone, Copy, Debug, PartialEq, Eq, Structural)]
pub struct WantsToCloseDoor {
    pub door: Entity,
}

/// A request to take the stairs down on tile `idx`.
#[derive(Clone, Copy, Debug, PartialEq, Eq, Structural)]
pub struct WantsToGoDownStairs {
    pub idx: usize,
}

/// A request to drop `item`.
#[derive(Clone, Copy, Debug, PartialEq, Eq, Structural)]
pub struct WantsToDropItem {
    pub item: Entity,
}

/// A request to disarm `trap`.
#[derive(Clone, Copy, Debug, PartialEq, Eq, Structural)]
pub struct WantsToDisarmTrap {
    pub trap: Entity,
}

/// Marks a trap that goes off once.
#[derive(Clone, Copy, Debug, PartialEq, Eq, Structural)]
pub struct SingleActivation {}

/// Marks a trap that went off.
#[derive(Clone, Copy, Debug, PartialEq, Eq, Structural)]
pub struct Triggered {}

/// Milliseconds a particle has left to live.
#[derive(Clone, Copy, Debug, PartialEq, Eq, Structural)]
pub struct ParticleLifetime {
    pub duration_ms: i32,
}

/// What an entity can see.
pub struct Viewshed {
    pub visible_tiles: Vec<usize>,
    pub range: i32,
    pub dirty: bool,
}

/// The name shown for an entity.
pub struct Name {
    pub name: String,
}

/// The entities inside a container, each listed once.
pub struct Container {
    pub items: Vec<Entity>,
}

/// The entities carried, each listed once.
pub struct Inventory {
    pub items: Vec<Entity>,
}

/// A request to pick up `items`, out of `container` when there is one.
pub struct WantsToPickUpItem {
    pub items: Vec<Entity>,
    pub container: Option<Entity>,
}

/// A hidden entity and the entities that have found it.
pub struct Hidden {
    pub found_by: Vec<Entity>,
}

/// A monster that has lost its bearings for a number of turns.
#[derive(Clone, Copy, Debug, PartialEq, Eq, Structural)]
pub struct Confused {
    pub turns: i32,
}

/// What a monster remembers: where it last saw enemies, where enemies hide, and where it wanders.
pub struct Memory {
    pub last_known_enemy_positions: Vec<(Entity, Position)>,
    pub known_enemy_hiding_spots: Vec<(Entity, Entity)>,
    pub wander_destination: Option<Position>,
}

/// Marks a trap that can be disarmed.
#[derive(Clone, Copy, Debug, PartialEq, Eq, Structural)]
pub struct Disarmable {}

/// Marks a trap that can be set.
#[derive(Clone, Copy, Debug, PartialEq, Eq, Structural)]
pub struct Armable {}

/// Marks something that can be hidden in.
#[derive(Clone, Copy, Debug, PartialEq, Eq, Structural)]
pub struct HidingSpot {}

/// Marks the talisman the player has come for.
#[derive(Clone, Copy, Debug, PartialEq, Eq, Structural)]
pub struct Objective {}

/// A description shown for an item.
pub struct Info {
    pub description: String,
}

/// The slots an item can be held in.
pub struct Equipable {
    pub positions: Vec<EquipmentPositions>,
}

/// Marks an entity that a saved game keeps.
#[derive(Clone, Copy, Debug, PartialEq, Eq, Structural)]
pub struct Saveable {}

} // verus!
