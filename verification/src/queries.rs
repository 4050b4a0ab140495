use vstd::prelude::*;
use crate::components::{
    Armable, CombatStats, Container, Disarmable, Door, DoorState, Dousable, Equipable, Equipment, EquipmentPositions,
    Grabbable, Hidden, HidingSpot, Inventory, Item, Lightable, Objective, Position, Trap, Viewshed,
};
use crate::damage::contains_entity;
use crate::dungeon::Dungeon;
use crate::ecs::{alive, comp, contains, get, get_ref, lookup, present, Entities, Entity};
use crate::interaction::InteractionType;
use crate::render::seen_by_player;
use crate::systems::door_systems::all_levels_wf;

verus! {

/// The entities the player sees: those listed on the player's visible tiles `visible[0..k]`,
/// tile by tile, leaving out what is hidden from the player.
pub open spec fn shown_on(content: Seq<Seq<Entity>>, hidden: Seq<Option<Hidden>>, player: Entity, visible: Seq<usize>, k: int) -> Seq<Entity>
    decreases k,
{
    if k <= 0 {
        Seq::empty()
    } else {
        shown_on(content, hidden, player, visible, k - 1)
            + content[visible[k - 1] as int].filter(|e: Entity| seen_by_player(hidden, player, e as int))
    }
}

/// The entity lists of level `l`.
pub open spec fn level_content(dungeon: Dungeon, l: int) -> Seq<Seq<Entity>> {
    let lv = dungeon.levels@[l];
    Seq::new(lv.tile_content@.len(), |i: int| lv.tile_content@[i]@)
}

/// Whether the player's view can be listed: the player has a viewshed and a position on an
/// existing level, and every visible tile is a tile of it.
pub open spec fn view_ready(viewsheds: Seq<Option<Viewshed>>, positions: Seq<Option<Position>>, dungeon: Dungeon, player: Entity) -> bool {
    &&& all_levels_wf(dungeon.levels@)
    &&& present(viewsheds, player as int)
    &&& present(positions, player as int)
    &&& (comp(positions, player as int).level as int) < dungeon.levels@.len()
    &&& forall|i: int| 0 <= i < comp(viewsheds, player as int).visible_tiles@.len() ==>
        (#[trigger] comp(viewsheds, player as int).visible_tiles@[i] as int)
            < dungeon.levels@[comp(positions, player as int).level as int].tile_content@.len()
}

/// The entities the player sees, tile by tile over the player's viewshed.
pub fn get_visible_entities(
    viewsheds: &Vec<Option<Viewshed>>,
    positions: &Vec<Option<Position>>,
    dungeon: &Dungeon,
    hidden: &Vec<Option<Hidden>>,
    player: Entity,
) -> (r: Vec<Entity>)
    requires
        view_ready(viewsheds@, positions@, *dungeon, player),
    ensures
        r@ == shown_on(
            level_content(*dungeon, comp(positions@, player as int).level as int),
            hidden@,
            player,
            comp(viewsheds@, player as int).visible_tiles@,
            comp(viewsheds@, player as int).visible_tiles@.len() as int,
        ),
{
    let l = get(positions, player).unwrap().level as usize;
    let level = &dungeon.levels[l];
    let ghost content = level_content(*dungeon, l as int);
    let visible = &get_ref(viewsheds, player).unwrap().visible_tiles;
    let ghost f = |e: Entity| seen_by_player(hidden@, player, e as int);
    let mut r: Vec<Entity> = Vec::new();
    let mut i: usize = 0;
    while i < visible.len()
        invariant
            i <= visible@.len(),
            visible@ == comp(viewsheds@, player as int).visible_tiles@,
            content == Seq::new(level.tile_content@.len(), |t: int| level.tile_content@[t]@),
            forall|j: int| 0 <= j < visible@.len() ==> (#[trigger] visible@[j] as int) < level.tile_content@.len(),
            f == (|e: Entity| seen_by_player(hidden@, player, e as int)),
            r@ == shown_on(content, hidden@, player, visible@, i as int),
        decreases visible@.len() - i,
    {
        let here = &level.tile_content[visible[i]];
        let ghost start = r@;
        let mut j: usize = 0;
        while j < here.len()
            invariant
                j <= here@.len(),
                f == (|e: Entity| seen_by_player(hidden@, player, e as int)),
                r@ == start + here@.subrange(0, j as int).filter(f),
            decreases here@.len() - j,
        {
            let e = here[j];
            let ghost before = r@;
            let seen = match get_ref(hidden, e) {
                Some(h) => contains_entity(&h.found_by, player),
                None => true,
            };
            if seen {
                r.push(e);
            }
            proof {
                reveal(Seq::filter);
                let t = here@.subrange(0, j + 1);
                assert(t.drop_last() =~= here@.subrange(0, j as int));
                assert(t.last() == e);
                assert(seen == f(e));
                assert(t.filter(f) == (if f(e) { here@.subrange(0, j as int).filter(f).push(e) } else { here@.subrange(0, j as int).filter(f) }));
                assert(r@ =~= start + t.filter(f));
            }
            j += 1;
        }
        proof {
            assert(here@.subrange(0, here@.len() as int) =~= here@);
            assert(content[visible@[i as int] as int] == here@);
        }
        i += 1;
    }
    r
}

/// The entities of `es` that have a component in `storage`, in order.
pub fn filter_for_component<C>(es: &Vec<Entity>, storage: &Vec<Option<C>>) -> (r: Vec<Entity>)
    ensures
        r@ == es@.filter(|e: Entity| present(storage@, e as int)),
{
    let ghost f = |e: Entity| present(storage@, e as int);
    let mut r: Vec<Entity> = Vec::new();
    let mut i: usize = 0;
    while i < es.len()
        invariant
            i <= es@.len(),
            f == (|e: Entity| present(storage@, e as int)),
            r@ == es@.subrange(0, i as int).filter(f),
        decreases es@.len() - i,
    {
        let e = es[i];
        let ghost before = r@;
        if contains(storage, e) {
            r.push(e);
        }
        proof {
            reveal(Seq::filter);
            let t = es@.subrange(0, i + 1);
            assert(t.drop_last() =~= es@.subrange(0, i as int));
            assert(t.last() == e);
        }
        i += 1;
    }
    assert(es@.subrange(0, es@.len() as int) =~= es@);
    r
}

/// Whether entity `e` is a closed door.
pub open spec fn closed_door(doors: Seq<Option<Door>>, e: int) -> bool {
    present(doors, e) && comp(doors, e).state == DoorState::Closed
}

/// The closed doors among `es`, in order.
pub fn get_openable_doors(es: &Vec<Entity>, doors: &Vec<Option<Door>>) -> (r: Vec<Entity>)
    ensures
        r@ == es@.filter(|e: Entity| closed_door(doors@, e as int)),
{
    let ghost f = |e: Entity| closed_door(doors@, e as int);
    let mut r: Vec<Entity> = Vec::new();
    let mut i: usize = 0;
    while i < es.len()
        invariant
            i <= es@.len(),
            f == (|e: Entity| closed_door(doors@, e as int)),
            r@ == es@.subrange(0, i as int).filter(f),
        decreases es@.len() - i,
    {
        let e = es[i];
        let closed = match get(doors, e) {
            Some(d) => d.state == DoorState::Closed,
            None => false,
        };
        if closed {
            r.push(e);
        }
        proof {
            reveal(Seq::filter);
            let t = es@.subrange(0, i + 1);
            assert(t.drop_last() =~= es@.subrange(0, i as int));
            assert(t.last() == e);
        }
        i += 1;
    }
    assert(es@.subrange(0, es@.len() as int) =~= es@);
    r
}

/// The storages that make something worth interacting with.
pub struct InteractionStores<'a> {
    pub grabbables: &'a Vec<Option<Grabbable>>,
    pub lightables: &'a Vec<Option<Lightable>>,
    pub dousables: &'a Vec<Option<Dousable>>,
    pub traps: &'a Vec<Option<Trap>>,
    pub disarmables: &'a Vec<Option<Disarmable>>,
    pub armables: &'a Vec<Option<Armable>>,
    pub hiding_spots: &'a Vec<Option<HidingSpot>>,
    pub combat_stats: &'a Vec<Option<CombatStats>>,
    pub containers: &'a Vec<Option<Container>>,
    pub items: &'a Vec<Option<Item>>,
    pub doors: &'a Vec<Option<Door>>,
}

/// Whether entity `e` can be grabbed, lit, doused, disarmed, hidden in, attacked, picked up,
/// opened or used as a door.
pub open spec fn interactable(s: InteractionStores, e: int) -> bool {
    ||| present(s.grabbables@, e)
    ||| present(s.lightables@, e)
    ||| present(s.dousables@, e)
    ||| present(s.traps@, e)
    ||| present(s.hiding_spots@, e)
    ||| present(s.combat_stats@, e)
    ||| present(s.items@, e)
    ||| present(s.containers@, e)
    ||| present(s.doors@, e)
}

fn is_interactable(s: &InteractionStores, e: Entity) -> (r: bool)
    ensures
        r == interactable(*s, e as int),
{
    contains(s.grabbables, e) || contains(s.lightables, e) || contains(s.dousables, e) || contains(s.traps, e)
        || contains(s.hiding_spots, e) || contains(s.combat_stats, e) || contains(s.items, e)
        || contains(s.containers, e) || contains(s.doors, e)
}

/// The entities of `visible` worth interacting with, in order.
pub fn get_interaction_targets(visible: &Vec<Entity>, s: &InteractionStores) -> (r: Vec<Entity>)
    ensures
        r@ == visible@.filter(|e: Entity| interactable(*s, e as int)),
{
    let ghost f = |e: Entity| interactable(*s, e as int);
    let mut r: Vec<Entity> = Vec::new();
    let mut i: usize = 0;
    while i < visible.len()
        invariant
            i <= visible@.len(),
            f == (|e: Entity| interactable(*s, e as int)),
            r@ == visible@.subrange(0, i as int).filter(f),
        decreases visible@.len() - i,
    {
        let e = visible[i];
        if is_interactable(s, e) {
            r.push(e);
        }
        proof {
            reveal(Seq::filter);
            let t = visible@.subrange(0, i + 1);
            assert(t.drop_last() =~= visible@.subrange(0, i as int));
            assert(t.last() == e);
        }
        i += 1;
    }
    assert(visible@.subrange(0, visible@.len() as int) =~= visible@);
    r
}

/// `item` as a one-element list when `cond` holds, otherwise nothing.
pub open spec fn opt(cond: bool, item: InteractionType) -> Seq<InteractionType> {
    if cond { seq![item] } else { Seq::empty() }
}

/// The interaction a door offers: opening when closed, closing when open.
pub open spec fn door_option(doors: Seq<Option<Door>>, t: Entity) -> InteractionType {
    if comp(doors, t as int).state == DoorState::Closed { InteractionType::OpenDoor(t) } else { InteractionType::CloseDoor(t) }
}

/// What can be done to `t`: disarm, arm, douse, light, grab, hide in, attack, pick up, open, and
/// open or close a door, in that order, each where `t` allows it.
pub open spec fn spec_interaction_options(s: InteractionStores, t: Entity) -> Seq<InteractionType> {
    let e = t as int;
    opt(present(s.disarmables@, e), InteractionType::Disarm(t))
        + opt(present(s.armables@, e), InteractionType::Arm(t))
        + opt(present(s.dousables@, e), InteractionType::Douse(t))
        + opt(present(s.lightables@, e), InteractionType::Light(t))
        + opt(present(s.grabbables@, e), InteractionType::Grab(t))
        + opt(present(s.hiding_spots@, e), InteractionType::HideIn(t))
        + opt(present(s.combat_stats@, e), InteractionType::Attack(t))
        + opt(present(s.items@, e), InteractionType::Pickup(t))
        + opt(present(s.containers@, e), InteractionType::OpenContainer(t))
        + opt(present(s.doors@, e), door_option(s.doors@, t))
}

fn push_if(r: &mut Vec<InteractionType>, cond: bool, item: InteractionType)
    ensures
        final(r)@ == old(r)@ + opt(cond, item),
{
    if cond {
        r.push(item);
    }
    assert(r@ =~= old(r)@ + opt(cond, item));
}

/// What can be done to `target`.
pub fn get_interaction_options_for_target(s: &InteractionStores, target: Entity) -> (r: Vec<InteractionType>)
    ensures
        r@ == spec_interaction_options(*s, target),
{
    let mut r: Vec<InteractionType> = Vec::new();
    push_if(&mut r, contains(s.disarmables, target), InteractionType::Disarm(target));
    push_if(&mut r, contains(s.armables, target), InteractionType::Arm(target));
    push_if(&mut r, contains(s.dousables, target), InteractionType::Douse(target));
    push_if(&mut r, contains(s.lightables, target), InteractionType::Light(target));
    push_if(&mut r, contains(s.grabbables, target), InteractionType::Grab(target));
    push_if(&mut r, contains(s.hiding_spots, target), InteractionType::HideIn(target));
    push_if(&mut r, contains(s.combat_stats, target), InteractionType::Attack(target));
    push_if(&mut r, contains(s.items, target), InteractionType::Pickup(target));
    push_if(&mut r, contains(s.containers, target), InteractionType::OpenContainer(target));
    let door = match get(s.doors, target) {
        Some(d) => match d.state {
            DoorState::Closed => Some(InteractionType::OpenDoor(target)),
            DoorState::Opened => Some(InteractionType::CloseDoor(target)),
        },
        None => None,
    };
    match door {
        Some(i) => push_if(&mut r, true, i),
        None => {},
    }
    assert(r@ =~= spec_interaction_options(*s, target));
    r
}

/// Whether the player stands on the exit of the player's level.
pub open spec fn spec_player_can_leave(dungeon: Dungeon, positions: Seq<Option<Position>>, player: Entity) -> bool {
    let p = comp(positions, player as int);
    dungeon.levels@[p.level as int].exit == Some(p.idx)
}

/// Whether the player stands on the exit of the player's level.
pub fn player_can_leave_dungeon(dungeon: &Dungeon, positions: &Vec<Option<Position>>, player: Entity) -> (r: bool)
    requires
        present(positions@, player as int),
        (comp(positions@, player as int).level as int) < dungeon.levels@.len(),
    ensures
        r == spec_player_can_leave(*dungeon, positions@, player),
{
    let p = get(positions, player).unwrap();
    match dungeon.levels[p.level as usize].exit {
        Some(exit_idx) => p.idx == exit_idx,
        None => false,
    }
}

/// Whether the player carries an existing objective.
pub open spec fn spec_has_objective(alive_set: Seq<bool>, inventories: Seq<Option<Inventory>>, objectives: Seq<Option<Objective>>, player: Entity) -> bool {
    exists|e: int| alive(alive_set, e) && present(objectives, e) && #[trigger] comp(inventories, player as int).items@.contains(e as Entity)
}

/// Whether the player carries an existing objective.
pub fn has_objective_in_backpack(entities: &Entities, inventories: &Vec<Option<Inventory>>, objectives: &Vec<Option<Objective>>, player: Entity) -> (r: bool)
    requires
        present(inventories@, player as int),
    ensures
        r == spec_has_objective(entities.alive@, inventories@, objectives@, player),
{
    let inv = &get_ref(inventories, player).unwrap().items;
    let n = entities.alive.len();
    let mut e: usize = 0;
    while e < n
        invariant
            e <= n,
            n == entities.alive@.len(),
            inv@ == comp(inventories@, player as int).items@,
            forall|i: int| 0 <= i < e ==> !(alive(entities.alive@, i) && present(objectives@, i) && #[trigger] inv@.contains(i as Entity)),
        decreases n - e,
    {
        if entities.is_alive(e) && contains(objectives, e) && contains_entity(inv, e) {
            assert(alive(entities.alive@, e as int) && present(objectives@, e as int) && inv@.contains((e as int) as Entity));
            return true;
        }
        e += 1;
    }
    proof {
        if spec_has_objective(entities.alive@, inventories@, objectives@, player) {
            let w = choose|w: int| alive(entities.alive@, w) && present(objectives@, w) && #[trigger] comp(inventories@, player as int).items@.contains(w as Entity);
            assert(0 <= w < n);
        }
    }
    false
}

/// Whether `item` can be held in `position`.
pub open spec fn fits(equipables: Seq<Option<Equipable>>, position: EquipmentPositions, item: Entity) -> bool {
    present(equipables, item as int) && comp(equipables, item as int).positions@.contains(position)
}

/// What the player can choose to hold in `position`: nothing, then the carried items that fit,
/// in backpack order.
pub open spec fn spec_equip_choices(inventories: Seq<Option<Inventory>>, equipables: Seq<Option<Equipable>>, player: Entity, position: EquipmentPositions) -> Seq<Option<Entity>> {
    seq![None::<Entity>] + comp(inventories, player as int).items@.filter(|e: Entity| fits(equipables, position, e)).map_values(|e: Entity| Some(e))
}

fn holds_position(ps: &Vec<EquipmentPositions>, p: EquipmentPositions) -> (r: bool)
    ensures
        r == ps@.contains(p),
{
    let mut i: usize = 0;
    while i < ps.len()
        invariant
            i <= ps@.len(),
            forall|j: int| 0 <= j < i ==> ps@[j] != p,
        decreases ps@.len() - i,
    {
        if ps[i] == p {
            return true;
        }
        i += 1;
    }
    false
}

/// What the player can choose to hold in `position`.
pub fn equip_choices(inventories: &Vec<Option<Inventory>>, equipables: &Vec<Option<Equipable>>, player: Entity, position: EquipmentPositions) -> (r: Vec<Option<Entity>>)
    requires
        present(inventories@, player as int),
    ensures
        r@ == spec_equip_choices(inventories@, equipables@, player, position),
{
    let items = &get_ref(inventories, player).unwrap().items;
    let ghost f = |e: Entity| fits(equipables@, position, e);
    let mut fitting: Vec<Entity> = Vec::new();
    let mut i: usize = 0;
    while i < items.len()
        invariant
            i <= items@.len(),
            f == (|e: Entity| fits(equipables@, position, e)),
            fitting@ == items@.subrange(0, i as int).filter(f),
        decreases items@.len() - i,
    {
        let e = items[i];
        let ok = match get_ref(equipables, e) {
            Some(eq) => holds_position(&eq.positions, position),
            None => false,
        };
        if ok {
            fitting.push(e);
        }
        proof {
            reveal(Seq::filter);
            let t = items@.subrange(0, i + 1);
            assert(t.drop_last() =~= items@.subrange(0, i as int));
            assert(t.last() == e);
        }
        i += 1;
    }
    assert(items@.subrange(0, items@.len() as int) =~= items@);
    let mut r: Vec<Option<Entity>> = Vec::new();
    r.push(None);
    let mut j: usize = 0;
    while j < fitting.len()
        invariant
            j <= fitting@.len(),
            r@ == seq![None::<Entity>] + fitting@.subrange(0, j as int).map_values(|e: Entity| Some(e)),
        decreases fitting@.len() - j,
    {
        r.push(Some(fitting[j]));
        j += 1;
        assert(r@ =~= seq![None::<Entity>] + fitting@.subrange(0, j as int).map_values(|e: Entity| Some(e)));
    }
    assert(fitting@.subrange(0, fitting@.len() as int) =~= fitting@);
    r
}

/// The two slots of the equipment screen: the dominant hand, then the off hand, with what each
/// holds.
pub open spec fn spec_equipment_slots(equipment: Seq<Option<Equipment>>, player: Entity) -> Seq<(EquipmentPositions, Option<Entity>)> {
    let eq = comp(equipment, player as int);
    seq![(EquipmentPositions::DominantHand, eq.dominant_hand), (EquipmentPositions::OffHand, eq.off_hand)]
}

/// The two slots of the equipment screen.
pub fn equipment_slots(equipment: &Vec<Option<Equipment>>, player: Entity) -> (r: Vec<(EquipmentPositions, Option<Entity>)>)
    requires
        present(equipment@, player as int),
    ensures
        r@ == spec_equipment_slots(equipment@, player),
{
    let eq = get(equipment, player).unwrap();
    let r = vec![(EquipmentPositions::DominantHand, eq.dominant_hand), (EquipmentPositions::OffHand, eq.off_hand)];
    assert(r@ =~= spec_equipment_slots(equipment@, player));
    r
}

} // verus!
