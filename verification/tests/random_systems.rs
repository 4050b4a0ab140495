use apprentice::components::{
    CombatStats, Flammable, Hidden, Name, OnFire, Position, SufferDamage, Trap, TrapType, Viewshed, WantsToDisarmTrap,
};
use apprentice::dungeon::Dungeon;
use apprentice::ecs::Entities;
use apprentice::game_log::GameLog;
use apprentice::interaction::InteractionType;
use apprentice::item_type::ItemType;
use apprentice::level::{Level, TileType};
use apprentice::services::ItemSpawner;
use apprentice::spawner::{item_counts_for_room, random_item, random_set_trap};
use apprentice::systems::disarm_trap::{attempt_disarm, DisarmTrapSystem};
use apprentice::systems::fire_spread::FireSpreadSystem;
use apprentice::systems::reveal_traps::RevealTrapsSystem;
use rltk::RandomNumberGenerator;

fn level(width: i32, height: i32) -> Level {
    let n = (width * height) as usize;
    Level {
        width,
        height,
        depth: 0,
        tiles: vec![TileType::Floor; n],
        revealed_tiles: vec![false; n],
        visible_tiles: vec![false; n],
        blocked: vec![false; n],
        opaque: vec![false; n],
        lit_tiles: vec![false; n],
        tile_content: vec![Vec::new(); n],
        stairs_up: None,
        stairs_down: None,
        exit: None,
    }
}

#[test]
fn a_disarm_roll_of_zero_fails() {
    let at_start = Entities { alive: vec![true, true] };
    let mut entities = Entities { alive: vec![true, true] };
    let intents = vec![Some(WantsToDisarmTrap { trap: 1 }), None];
    let traps = vec![None, Some(Trap { trap_type: TrapType::BearTrap, armed: true })];
    let positions = vec![Some(Position { idx: 4, level: 2 }), Some(Position { idx: 5, level: 2 })];
    let mut spawner = ItemSpawner::new();
    let mut log = GameLog::new();
    attempt_disarm(0, 0, 0, &at_start, &mut entities, &intents, &traps, &positions, &mut spawner, &mut log);
    assert_eq!(entities.alive, vec![true, true]);
    assert!(spawner.requests.is_empty());
    assert_eq!(log.entries, vec!["You failed to disarm the Bear Trap.".to_string()]);
}

#[test]
fn a_successful_disarm_leaves_the_trap_as_an_item() {
    let at_start = Entities { alive: vec![true, true] };
    let mut entities = Entities { alive: vec![true, true] };
    let intents = vec![Some(WantsToDisarmTrap { trap: 1 }), None];
    let traps = vec![None, Some(Trap { trap_type: TrapType::Caltrops, armed: true })];
    let positions = vec![Some(Position { idx: 4, level: 2 }), Some(Position { idx: 5, level: 2 })];
    let mut spawner = ItemSpawner::new();
    let mut log = GameLog::new();
    attempt_disarm(0, 3, 0, &at_start, &mut entities, &intents, &traps, &positions, &mut spawner, &mut log);
    assert_eq!(entities.alive, vec![true, false]);
    assert_eq!(spawner.requests.len(), 1);
    assert_eq!(spawner.requests[0].idx, 5);
    assert_eq!(spawner.requests[0].level, 2);
    assert_eq!(spawner.requests[0].item_type, ItemType::Caltrops);
    assert_eq!(log.entries, vec!["You disarmed the Caltrops.".to_string()]);
}

#[test]
fn disarming_with_a_seeded_die_ends_one_way_or_the_other() {
    for seed in 0..20u64 {
        let mut rng = RandomNumberGenerator::seeded(seed);
        let mut entities = Entities { alive: vec![true, true] };
        let mut intents = vec![Some(WantsToDisarmTrap { trap: 1 }), None];
        let traps = vec![None, Some(Trap { trap_type: TrapType::BearTrap, armed: true })];
        let positions = vec![Some(Position { idx: 4, level: 0 }), Some(Position { idx: 5, level: 0 })];
        let mut spawner = ItemSpawner::new();
        let mut log = GameLog::new();
        DisarmTrapSystem {}.run(&mut entities, &mut intents, &mut rng, &mut spawner, &positions, &traps, 0, &mut log);
        assert!(intents.iter().all(|i| i.is_none()));
        assert_eq!(log.entries.len(), 1);
        if entities.alive[1] {
            assert!(spawner.requests.is_empty());
            assert_eq!(log.entries[0], "You failed to disarm the Bear Trap.");
        } else {
            assert_eq!(spawner.requests[0].item_type, ItemType::BearTrap);
            assert_eq!(log.entries[0], "You disarmed the Bear Trap.");
        }
    }
}

#[test]
fn fire_burns_its_neighbours() {
    let mut l = level(5, 5);
    // the fire on tile 12 (2, 2); a flammable thing on 13, a fighter on 7, someone out of reach on 0
    l.tile_content[13] = vec![1];
    l.tile_content[7] = vec![2];
    l.tile_content[0] = vec![3];
    let dungeon = Dungeon { levels: vec![l] };
    for seed in 0..10u64 {
        let mut rng = RandomNumberGenerator::seeded(seed);
        let mut on_fires = vec![Some(OnFire {}), None, None, None];
        let positions = vec![Some(Position { idx: 12, level: 0 }), None, None, None];
        let flammables = vec![None, Some(Flammable { turns_remaining: 4 }), None, Some(Flammable { turns_remaining: 4 })];
        let stats = vec![None, None, Some(CombatStats { max_hp: 10, hp: 10, power: 1, defense: 1 }), Some(CombatStats { max_hp: 10, hp: 10, power: 1, defense: 1 })];
        let mut suffer = vec![None, None, Some(SufferDamage { amount: 1 }), None];
        FireSpreadSystem {}.run(&mut on_fires, &positions, &flammables, &stats, &dungeon, &mut suffer, &mut rng);
        assert_eq!(suffer[2], Some(SufferDamage { amount: 3 }));
        assert_eq!(suffer[3], None);
        assert!(on_fires[3].is_none());
        assert!(on_fires[0].is_some());
    }
}

#[test]
fn the_player_spots_hidden_traps_in_view() {
    let mut l = level(5, 5);
    l.tile_content[6] = vec![1];
    l.tile_content[7] = vec![2];
    let dungeon = Dungeon { levels: vec![l] };
    let viewsheds = vec![Some(Viewshed { visible_tiles: vec![6, 7], range: 8, dirty: false })];
    let positions = vec![Some(Position { idx: 12, level: 0 })];
    let names = vec![None, Some(Name { name: "Bear Trap".to_string() }), None];
    let mut spotted_once = false;
    for seed in 0..200u64 {
        let mut rng = RandomNumberGenerator::seeded(seed);
        let mut hidden = vec![None, Some(Hidden { found_by: vec![] }), None];
        let mut queued = Some((0usize, InteractionType::Move(3)));
        let mut log = GameLog::new();
        RevealTrapsSystem {}.run(&mut queued, &viewsheds, &positions, &dungeon, 0, &mut hidden, &mut rng, &names, &mut log);
        let found = &hidden[1].as_ref().unwrap().found_by;
        if found.is_empty() {
            assert_eq!(queued, Some((0usize, InteractionType::Move(3))));
            assert!(log.entries.is_empty());
        } else {
            spotted_once = true;
            assert_eq!(found, &vec![0]);
            assert_eq!(queued, None);
            assert_eq!(log.entries, vec!["You spotted a Bear Trap.".to_string()]);
        }
    }
    assert!(spotted_once);
}

#[test]
fn random_items_and_traps_come_from_their_tables() {
    let mut rng = RandomNumberGenerator::seeded(7);
    for _ in 0..50 {
        let _ = random_item(&mut rng);
        let t = random_set_trap(&mut rng);
        assert!(t == TrapType::BearTrap || t == TrapType::Caltrops);
    }
}

#[test]
fn room_item_counts_stay_in_bounds() {
    let mut rng = RandomNumberGenerator::seeded(3);
    for _ in 0..100 {
        let (n, c) = item_counts_for_room(&mut rng, false, 1);
        assert!(-2 <= n && n <= 3);
        if n <= 0 {
            assert_eq!(c, 0);
        } else {
            assert!(c <= 1);
            assert!(c >= 1);
        }
        let (n, c) = item_counts_for_room(&mut rng, true, 5);
        assert!(0 <= n && n <= 3);
        if n > 0 {
            assert!(c >= (3 * n + 4) / 5 && c <= n);
        }
    }
}
