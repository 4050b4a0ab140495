use apprentice::components::{
    CausesLight, Container, Dousable, Equipment, EquipmentPositions, Grabbing, Hiding, InBackpack, Inventory, Lightable,
    Name, Position, WantsToDouse, WantsToDropItem, WantsToEquip, WantsToGrab, WantsToHide, WantsToLight,
    WantsToPickUpItem,
};
use apprentice::ecs::Entities;
use apprentice::game_log::GameLog;
use apprentice::systems::equip_system::{get_at_position_in_equipment, set_at_position_in_equipment, EquipSystem};
use apprentice::systems::grab_hide::{GrabSystem, HideSystem};
use apprentice::systems::item_systems::{ItemCollectionSystem, ItemDropSystem};
use apprentice::systems::light_item_system::{name_or, DouseItemSystem, LightItemSystem};

fn entities(n: usize) -> Entities {
    let mut es = Entities::new();
    for _ in 0..n {
        es.create();
    }
    es
}

fn name(s: &str) -> Option<Name> {
    Some(Name { name: s.to_string() })
}

#[test]
fn only_the_hands_are_equipment_slots() {
    let mut q = Equipment { dominant_hand: None, off_hand: Some(3) };
    set_at_position_in_equipment(&mut q, Some(5), EquipmentPositions::DominantHand);
    assert_eq!(q, Equipment { dominant_hand: Some(5), off_hand: Some(3) });
    set_at_position_in_equipment(&mut q, Some(9), EquipmentPositions::Head);
    assert_eq!(q, Equipment { dominant_hand: Some(5), off_hand: Some(3) });
    assert_eq!(get_at_position_in_equipment(&q, EquipmentPositions::OffHand), Some(3));
    assert_eq!(get_at_position_in_equipment(&q, EquipmentPositions::Body), None);
}

#[test]
fn equipping_swaps_the_hand_with_the_backpack() {
    // 0: the player holding item 1, asking to wield item 2 from the backpack
    let es = entities(3);
    let mut wants = vec![Some(WantsToEquip { equipment: Some(2), position: EquipmentPositions::DominantHand }), None, None];
    let mut backpack = vec![None, None, Some(InBackpack { owner: 0 })];
    let mut equipment = vec![Some(Equipment { dominant_hand: Some(1), off_hand: None }), None, None];
    let names = vec![name("Player"), name("Torch"), name("Dagger")];
    let mut log = GameLog::new();
    EquipSystem {}.run(&es, &mut wants, &mut backpack, &mut equipment, &names, 0, &mut log);
    assert_eq!(equipment[0], Some(Equipment { dominant_hand: Some(2), off_hand: None }));
    assert_eq!(backpack[1], Some(InBackpack { owner: 0 }));
    assert_eq!(backpack[2], None);
    assert_eq!(log.entries, vec!["You equip the Dagger".to_string(), "You unequip the Torch".to_string()]);
    assert!(wants.iter().all(|x| x.is_none()));
}

#[test]
fn names_fall_back_when_missing() {
    let names = vec![name("Torch"), None];
    assert_eq!(name_or(&names, 0, "unknown"), "Torch");
    assert_eq!(name_or(&names, 1, "unknown"), "unknown");
    assert_eq!(name_or(&names, 7, "thing"), "thing");
}

#[test]
fn lighting_and_dousing_swap_the_markers() {
    let es = entities(2);
    let names = vec![name("Player"), name("Torch")];
    let mut log = GameLog::new();
    let mut causes = vec![None, Some(CausesLight { radius: 3, lit: false })];
    let mut dousables: Vec<Option<Dousable>> = vec![None, None];
    let mut lightables = vec![None, Some(Lightable {})];
    let mut wants_light = vec![Some(WantsToLight { item: 1 }), None];
    LightItemSystem {}.run(&es, 0, &mut log, &mut wants_light, &names, &mut causes, &mut dousables, &mut lightables);
    assert_eq!(causes[1], Some(CausesLight { radius: 3, lit: true }));
    assert_eq!(lightables[1], None);
    assert_eq!(dousables[1], Some(Dousable {}));
    assert_eq!(log.entries, vec!["you light the Torch".to_string()]);
    assert!(wants_light.iter().all(|x| x.is_none()));

    let mut wants_douse = vec![Some(WantsToDouse { item: 1 }), None];
    DouseItemSystem {}.run(&es, 0, &mut log, &mut wants_douse, &names, &mut causes, &mut dousables, &mut lightables);
    assert_eq!(causes[1], Some(CausesLight { radius: 3, lit: false }));
    assert_eq!(lightables[1], Some(Lightable {}));
    assert_eq!(dousables[1], None);
    assert_eq!(log.entries[0], "you douse the Torch");
}

#[test]
fn lighting_something_unlightable_does_nothing() {
    let es = entities(2);
    let names = vec![name("Player"), name("Rock")];
    let mut log = GameLog::new();
    let mut causes: Vec<Option<CausesLight>> = vec![None, None];
    let mut dousables: Vec<Option<Dousable>> = vec![None, None];
    let mut lightables: Vec<Option<Lightable>> = vec![None, None];
    let mut wants_light = vec![Some(WantsToLight { item: 1 }), None];
    LightItemSystem {}.run(&es, 0, &mut log, &mut wants_light, &names, &mut causes, &mut dousables, &mut lightables);
    assert!(causes.iter().all(|x| x.is_none()));
    assert!(log.entries.is_empty());
    assert!(wants_light.iter().all(|x| x.is_none()));
}

#[test]
fn grabbing_and_letting_go() {
    let es = entities(3);
    let names = vec![name("Player"), name("Crate"), None];
    let mut log = GameLog::new();
    let mut grabbings: Vec<Option<Grabbing>> = vec![None, None, Some(Grabbing { thing: 1 })];
    let mut wants = vec![Some(WantsToGrab { thing: Some(1) }), None, Some(WantsToGrab { thing: None })];
    GrabSystem {}.run(&es, &mut wants, &mut grabbings, 0, &mut log, &names);
    assert_eq!(grabbings[0], Some(Grabbing { thing: 1 }));
    assert_eq!(grabbings[2], None);
    assert_eq!(log.entries, vec!["You grab Crate".to_string()]);
    assert!(wants.iter().all(|x| x.is_none()));
}

#[test]
fn hiding_moves_onto_the_spot() {
    let es = entities(3);
    let names = vec![name("Player"), name("Armoire"), None];
    let mut log = GameLog::new();
    let mut hidings: Vec<Option<Hiding>> = vec![None, None, Some(Hiding { hiding_spot: Some(1) })];
    let mut positions = vec![Some(Position { idx: 3, level: 2 }), Some(Position { idx: 9, level: 2 }), Some(Position { idx: 9, level: 2 })];
    let mut player_idx: usize = 3;
    let mut wants = vec![Some(WantsToHide { hiding_spot: Some(1) }), None, Some(WantsToHide { hiding_spot: None })];
    HideSystem {}.run(&es, &mut wants, &mut hidings, 0, &mut log, &names, &mut positions, &mut player_idx);
    assert_eq!(positions[0], Some(Position { idx: 9, level: 2 }));
    assert_eq!(hidings[0], Some(Hiding { hiding_spot: Some(1) }));
    assert_eq!(hidings[2], None);
    assert_eq!(player_idx, 9);
    assert_eq!(log.entries, vec!["You hide in the Armoire".to_string()]);
}

#[test]
fn picking_up_from_a_container() {
    // 0: the player, 1: a chest holding items 2 and 3
    let es = entities(4);
    let names = vec![name("Player"), name("Chest"), name("Coin"), name("Key")];
    let mut log = GameLog::new();
    let mut wants = vec![Some(WantsToPickUpItem { items: vec![2], container: Some(1) }), None, None, None];
    let mut positions = vec![Some(Position { idx: 1, level: 0 }), Some(Position { idx: 2, level: 0 }), None, None];
    let mut containers = vec![None, Some(Container { items: vec![2, 3] }), None, None];
    let mut inventories = vec![Some(Inventory { items: vec![] }), None, None, None];
    ItemCollectionSystem {}.run(&es, 0, &mut log, &mut wants, &mut positions, &names, &mut containers, &mut inventories);
    assert_eq!(containers[1].as_ref().unwrap().items, vec![3]);
    assert_eq!(inventories[0].as_ref().unwrap().items, vec![2]);
    assert_eq!(log.entries, vec!["you pick up the Coin".to_string()]);
    assert!(wants.iter().all(|w| w.is_none()));
}

#[test]
fn picking_up_from_the_floor_removes_the_position() {
    let es = entities(2);
    let names = vec![name("Player"), name("Potion")];
    let mut log = GameLog::new();
    let mut wants = vec![Some(WantsToPickUpItem { items: vec![1], container: None }), None];
    let mut positions = vec![Some(Position { idx: 5, level: 0 }), Some(Position { idx: 5, level: 0 })];
    let mut containers: Vec<Option<Container>> = vec![None, None];
    let mut inventories = vec![Some(Inventory { items: vec![1] }), None];
    ItemCollectionSystem {}.run(&es, 0, &mut log, &mut wants, &mut positions, &names, &mut containers, &mut inventories);
    assert_eq!(positions[1], None);
    // already carried: the inventory does not list it twice
    assert_eq!(inventories[0].as_ref().unwrap().items, vec![1]);
}

#[test]
fn dropping_puts_the_item_underfoot() {
    let es = entities(2);
    let names = vec![name("Player"), name("Dagger")];
    let mut log = GameLog::new();
    let mut wants = vec![Some(WantsToDropItem { item: 1 }), None];
    let mut positions = vec![Some(Position { idx: 14, level: 3 }), None];
    let mut backpacks = vec![None, Some(InBackpack { owner: 0 })];
    ItemDropSystem {}.run(&es, 0, &mut log, &mut wants, &names, &mut positions, &mut backpacks);
    assert_eq!(positions[1], Some(Position { idx: 14, level: 3 }));
    assert_eq!(backpacks[1], None);
    assert_eq!(log.entries, vec!["You drop the Dagger.".to_string()]);
    assert!(wants.iter().all(|x| x.is_none()));
}
