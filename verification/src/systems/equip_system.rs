use vstd::prelude::*;
use crate::components::{Equipment, EquipmentPositions, InBackpack, Name, WantsToEquip};
use crate::ecs::{alive, comp, contains, get, get_ref, lookup, present, put, stored, Entities, Entity};
use crate::game_log::GameLog;
use crate::text::join_text;

verus! {

/// `equipment` with slot `position` holding `item`; only the two hands are slots that hold items.
pub open spec fn spec_set_at(equipment: Equipment, item: Option<Entity>, position: EquipmentPositions) -> Equipment {
    match position {
        EquipmentPositions::OffHand => Equipment { off_hand: item, ..equipment },
        EquipmentPositions::DominantHand => Equipment { dominant_hand: item, ..equipment },
        _ => equipment,
    }
}

/// What slot `position` of `equipment` holds.
pub open spec fn spec_get_at(equipment: Equipment, position: EquipmentPositions) -> Option<Entity> {
    match position {
        EquipmentPositions::OffHand => equipment.off_hand,
        EquipmentPositions::DominantHand => equipment.dominant_hand,
        _ => None,
    }
}

/// Puts `equipment_ent` (or nothing) into slot `position`.
pub fn set_at_position_in_equipment(equipment: &mut Equipment, equipment_ent: Option<Entity>, position: EquipmentPositions)
    ensures
        *final(equipment) == spec_set_at(*old(equipment), equipment_ent, position),
{
    match position {
        EquipmentPositions::OffHand => equipment.off_hand = equipment_ent,
        EquipmentPositions::DominantHand => equipment.dominant_hand = equipment_ent,
        _ => {},
    }
}

/// What slot `position` holds.
pub fn get_at_position_in_equipment(equipment: &Equipment, position: EquipmentPositions) -> (r: Option<Entity>)
    ensures
        r == spec_get_at(*equipment, position),
{
    match position {
        EquipmentPositions::OffHand => equipment.off_hand,
        EquipmentPositions::DominantHand => equipment.dominant_hand,
        _ => None,
    }
}

/// The storages an equip round reads.
pub struct EquipInputs {
    pub alive: Seq<bool>,
    pub wants: Seq<Option<WantsToEquip>>,
    pub names: Seq<Option<Name>>,
    pub player: Entity,
}

/// What an equip round changes.
pub struct EquipView {
    pub equipment: Seq<Option<Equipment>>,
    pub backpack: Seq<Option<InBackpack>>,
    pub log: Seq<Seq<char>>,
}

/// Whether entity `e` changes its equipment this round.
pub open spec fn equips(inp: EquipInputs, v: EquipView, e: int) -> bool {
    alive(inp.alive, e) && present(v.equipment, e) && present(inp.wants, e)
}

/// Entity `e`'s equip request: what was in the slot goes back to `e`'s backpack ("You unequip
/// the ..." for the player), the new item leaves the backpack ("You equip the ..." for the
/// player) and takes the slot.
pub open spec fn equip_step(inp: EquipInputs, v: EquipView, e: int) -> EquipView {
    if !equips(inp, v, e) {
        v
    } else {
        let q = comp(v.equipment, e);
        let w = comp(inp.wants, e);
        let prev = spec_get_at(q, w.position);
        let b1 = match prev {
            Some(o) => stored(v.backpack, o as int, Some(InBackpack { owner: e as Entity })),
            None => v.backpack,
        };
        let log1 = match prev {
            Some(o) => if e == inp.player { seq!["You unequip the "@ + comp(inp.names, o as int).name@] + v.log } else { v.log },
            None => v.log,
        };
        let b2 = match w.equipment {
            Some(x) => stored(b1, x as int, None),
            None => b1,
        };
        let log2 = match w.equipment {
            Some(x) => if e == inp.player { seq!["You equip the "@ + comp(inp.names, x as int).name@] + log1 } else { log1 },
            None => log1,
        };
        EquipView {
            equipment: stored(v.equipment, e, Some(spec_set_at(q, w.equipment, w.position))),
            backpack: b2,
            log: log2,
        }
    }
}

/// Whether entity `e`'s request can be carried out: the item leaving the slot exists, the item
/// taking it is in a backpack, and for the player both have names.
pub open spec fn equip_step_ok(inp: EquipInputs, v: EquipView, e: int) -> bool {
    equips(inp, v, e) ==> {
        let q = comp(v.equipment, e);
        let w = comp(inp.wants, e);
        let b1 = match spec_get_at(q, w.position) {
            Some(o) => stored(v.backpack, o as int, Some(InBackpack { owner: e as Entity })),
            None => v.backpack,
        };
        &&& (spec_get_at(q, w.position) matches Some(o) ==> alive(inp.alive, o as int)
            && (e == inp.player ==> present(inp.names, o as int)))
        &&& (w.equipment matches Some(x) ==> present(b1, x as int)
            && (e == inp.player ==> present(inp.names, x as int)))
    }
}

/// The requests of entities `0..k`, in entity order.
pub open spec fn equip_fold(inp: EquipInputs, v: EquipView, k: int) -> EquipView
    decreases k,
{
    if k <= 0 { v } else { equip_step(inp, equip_fold(inp, v, k - 1), k - 1) }
}

/// Whether every request among `0..k` can be carried out when its turn comes.
pub open spec fn equip_fold_ok(inp: EquipInputs, v: EquipView, k: int) -> bool
    decreases k,
{
    if k <= 0 { true } else { equip_fold_ok(inp, v, k - 1) && equip_step_ok(inp, equip_fold(inp, v, k - 1), k - 1) }
}

proof fn lemma_fold_ok_prefix(inp: EquipInputs, v: EquipView, j: int, k: int)
    requires
        0 <= j <= k,
        equip_fold_ok(inp, v, k),
    ensures
        equip_fold_ok(inp, v, j),
    decreases k - j,
{
    if j < k {
        lemma_fold_ok_prefix(inp, v, j + 1, k);
    }
}

/// Moves equipment between backpacks and hands.
pub struct EquipSystem {}

impl EquipSystem {
    /// The requests are `equip_fold` over all entities in order; afterwards none is left.
    pub fn run(
        &mut self,
        entities: &Entities,
        wants_to_equip: &mut Vec<Option<WantsToEquip>>,
        in_backpack: &mut Vec<Option<InBackpack>>,
        equipment: &mut Vec<Option<Equipment>>,
        names: &Vec<Option<Name>>,
        player_entity: Entity,
        log: &mut GameLog,
    )
        requires
            equip_fold_ok(
                EquipInputs { alive: entities.alive@, wants: old(wants_to_equip)@, names: names@, player: player_entity },
                EquipView { equipment: old(equipment)@, backpack: old(in_backpack)@, log: old(log).entries.deep_view() },
                entities.alive@.len() as int),
        ensures
            (EquipView { equipment: final(equipment)@, backpack: final(in_backpack)@, log: final(log).entries.deep_view() })
                == equip_fold(
                    EquipInputs { alive: entities.alive@, wants: old(wants_to_equip)@, names: names@, player: player_entity },
                    EquipView { equipment: old(equipment)@, backpack: old(in_backpack)@, log: old(log).entries.deep_view() },
                    entities.alive@.len() as int),
            forall|e: int| !present(final(wants_to_equip)@, e),
    {
        let ghost inp = EquipInputs { alive: entities.alive@, wants: wants_to_equip@, names: names@, player: player_entity };
        let ghost v0 = EquipView { equipment: equipment@, backpack: in_backpack@, log: log.entries.deep_view() };
        let n = entities.alive.len();
        let mut e: usize = 0;
        while e < n
            invariant
                n == entities.alive@.len(),
                e <= n,
                inp == (EquipInputs { alive: entities.alive@, wants: wants_to_equip@, names: names@, player: player_entity }),
                equip_fold_ok(inp, v0, n as int),
                (EquipView { equipment: equipment@, backpack: in_backpack@, log: log.entries.deep_view() }) == equip_fold(inp, v0, e as int),
            decreases n - e,
        {
            proof { lemma_fold_ok_prefix(inp, v0, e + 1, n as int); }
            if entities.is_alive(e) && contains(wants_to_equip, e) {
                match get(equipment, e) {
                    Some(q) => {
                        let intent = get(wants_to_equip, e).unwrap();
                        let mut q2 = q;
                        match get_at_position_in_equipment(&q, intent.position) {
                            Some(old_item) => {
                                put(in_backpack, old_item, Some(InBackpack { owner: e }));
                                if e == player_entity {
                                    let name = &get_ref(names, old_item).unwrap().name;
                                    log.add(join_text("You unequip the ", name.as_str()));
                                }
                            },
                            None => {},
                        }
                        match intent.equipment {
                            Some(new_item) => {
                                put(in_backpack, new_item, None);
                                if e == player_entity {
                                    let name = &get_ref(names, new_item).unwrap().name;
                                    log.add(join_text("You equip the ", name.as_str()));
                                }
                            },
                            None => {},
                        }
                        set_at_position_in_equipment(&mut q2, intent.equipment, intent.position);
                        put(equipment, e, Some(q2));
                    },
                    None => {},
                }
            }
            e += 1;
        }
        crate::ecs::clear(wants_to_equip);
    }
}

} // verus!
