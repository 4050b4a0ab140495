use apprentice::components::{
    BlocksTile, CombatStats, Confused, Door, DoorState, EntityMoved, Grabbable, Grabbing, Hiding, Memory, Monster, MonsterSpecies,
    Position, Viewshed, WantsToMelee, WantsToMove, WantsToOpenDoor,
};
use apprentice::dungeon::Dungeon;
use apprentice::ecs::Entities;
use apprentice::level::{Level, TileType};
use apprentice::systems::monster_ai::{
    collect_candidates, get_move_action, get_move_action_from_path, get_next_step, monster_candidates, target_candidate,
    within_reach, Action, MonsterAI, MonsterKnowledge, SpotSighting, Weight, WeightedAction,
};
use apprentice::systems::move_system::MoveSystem;

fn level(width: i32, height: i32) -> Level {
    let n = (width * height) as usize;
    Level {
        width,
        height,
        depth: 0,
        tiles: vec![TileType::Floor; n],
        revealed_tiles: vec![false; n],
        visible_tiles: vec![false; n],
        blocked: vec![false; n],
        opaque: vec![false; n],
        lit_tiles: vec![false; n],
        tile_content: vec![Vec::new(); n],
        stairs_up: None,
        stairs_down: None,
        exit: None,
    }
}

fn entities(n: usize) -> Entities {
    let mut es = Entities::new();
    for _ in 0..n {
        es.create();
    }
    es
}

#[test]
fn a_path_gives_its_second_tile() {
    assert_eq!(get_next_step(true, &vec![4, 5, 6]), Some((5, 3)));
    assert_eq!(get_next_step(true, &vec![4]), None);
    assert_eq!(get_next_step(false, &vec![4, 5, 6]), None);
}

#[test]
fn stepping_opens_doors_and_breaks_furniture() {
    let mut l = level(5, 5);
    l.tiles[7] = TileType::Door;
    l.tile_content[7] = vec![3, 2];
    l.blocked[8] = true;
    l.tile_content[8] = vec![1, 4];
    let doors = vec![None, None, Some(Door { state: DoorState::Closed }), None, None];
    let furniture = vec![None, None, None, None, Some(Grabbable {})];
    assert_eq!(
        get_move_action(&l, 7, 3, &furniture, &doors),
        WeightedAction { action: Action::OpenDoor { door: 2, idx: 7 }, weight: Weight::Move { steps: 3, through_furniture: false } }
    );
    assert_eq!(
        get_move_action(&l, 8, 2, &furniture, &doors),
        WeightedAction { action: Action::Attack(4), weight: Weight::Move { steps: 2, through_furniture: true } }
    );
    assert_eq!(
        get_move_action(&l, 9, 5, &furniture, &doors),
        WeightedAction { action: Action::MoveTo(9), weight: Weight::Move { steps: 5, through_furniture: false } }
    );
    assert_eq!(get_move_action_from_path(&l, None, &furniture, &doors), None);
    assert_eq!(
        get_move_action_from_path(&l, Some((9, 4)), &furniture, &doors),
        Some(WeightedAction { action: Action::MoveTo(9), weight: Weight::Move { steps: 4, through_furniture: false } })
    );
}

#[test]
fn reach_covers_the_eight_neighbours() {
    // on a grid 10 wide, tile 55 is (5, 5)
    assert!(within_reach(10, 55, 55));
    assert!(within_reach(10, 55, 44));
    assert!(within_reach(10, 55, 66));
    assert!(within_reach(10, 55, 56));
    assert!(!within_reach(10, 55, 57));
    assert!(!within_reach(10, 55, 35));
}

#[test]
fn targets_are_attacked_or_chased() {
    assert_eq!(
        target_candidate(9, 10, 55, 56, 12, false, None),
        Some(WeightedAction { action: Action::Attack(9), weight: Weight::Attack { target_hp: 12 } })
    );
    assert_eq!(
        target_candidate(9, 10, 55, 58, 12, true, Some((56, 4))),
        Some(WeightedAction { action: Action::Chase(56), weight: Weight::Chase { target_hp: 12, steps: 4 } })
    );
    assert_eq!(target_candidate(9, 10, 55, 58, 12, false, Some((56, 4))), None);
    assert_eq!(target_candidate(9, 10, 55, 58, 12, true, None), None);
}

#[test]
fn candidates_keep_their_order() {
    let a = WeightedAction { action: Action::Attack(1), weight: Weight::Attack { target_hp: 3 } };
    let b = WeightedAction { action: Action::MoveTo(4), weight: Weight::Move { steps: 2, through_furniture: false } };
    let c = WeightedAction { action: Action::Chase(5), weight: Weight::Chase { target_hp: 1, steps: 6 } };
    let got = collect_candidates(Some(a), &vec![None, Some(b)], &vec![Some(c), None], None);
    assert_eq!(got, vec![a, b, c]);
    assert!(collect_candidates(None, &vec![], &vec![], None).is_empty());
}

fn memory() -> Memory {
    Memory { last_known_enemy_positions: vec![], known_enemy_hiding_spots: vec![], wander_destination: None }
}

fn knows(wander: Option<(usize, usize)>) -> Option<MonsterKnowledge> {
    Some(MonsterKnowledge { path_to_player: None, remembered_paths: vec![], wander_path: wander })
}

#[test]
fn monsters_turn_their_picks_into_intents() {
    // 0: the player on tile 22; 1: next to it; 2: far away, wandering toward 61; 3: confused;
    // 4: on another level; 5: picks a candidate it does not have
    let es = entities(6);
    let dungeon = Dungeon { levels: vec![level(10, 10), level(10, 10)] };
    let vs = || Some(Viewshed { visible_tiles: vec![], range: 8, dirty: false });
    let viewsheds = vec![vs(), vs(), vs(), vs(), vs(), vs()];
    let positions = vec![
        Some(Position { idx: 22, level: 0 }),
        Some(Position { idx: 23, level: 0 }),
        Some(Position { idx: 60, level: 0 }),
        Some(Position { idx: 33, level: 0 }),
        Some(Position { idx: 23, level: 1 }),
        Some(Position { idx: 80, level: 0 }),
    ];
    let goblin = Some(Monster { species: MonsterSpecies::Goblin });
    let monsters = vec![None, goblin, goblin, goblin, goblin, goblin];
    let memories = vec![None, Some(memory()), Some(memory()), Some(memory()), Some(memory()), Some(memory())];
    let stats = vec![Some(CombatStats { max_hp: 30, hp: 12, power: 5, defense: 2 })];
    let hiding: Vec<Option<Hiding>> = vec![];
    let knowledge = vec![None, knows(None), knows(Some((61, 4))), knows(None), knows(None), knows(None)];
    let picks = vec![None, Some(0), Some(0), Some(0), Some(0), Some(3)];
    let furniture: Vec<Option<Grabbable>> = vec![];
    let doors: Vec<Option<Door>> = vec![];
    let mut melee: Vec<Option<WantsToMelee>> = vec![];
    let mut confused = vec![None, None, None, Some(Confused { turns: 1 }), None, None];
    let mut moves: Vec<Option<WantsToMove>> = vec![];
    let mut opens: Vec<Option<WantsToOpenDoor>> = vec![];
    MonsterAI {}.run(&es, &viewsheds, &positions, &monsters, &memories, &dungeon, 0, &stats, &hiding, &knowledge, &picks,
        &furniture, &doors, &mut melee, &mut confused, &mut moves, &mut opens);
    assert_eq!(melee.get(1).copied().flatten(), Some(WantsToMelee { target: 0 }));
    assert_eq!(moves.get(2).copied().flatten(), Some(WantsToMove { idx: 61 }));
    assert_eq!(melee.get(2).copied().flatten(), None);
    assert_eq!(confused[3], None);
    assert_eq!(melee.get(3).copied().flatten(), None);
    assert_eq!(melee.get(4).copied().flatten(), None);
    assert_eq!(melee.get(5).copied().flatten(), None);
    assert_eq!(moves.get(5).copied().flatten(), None);
    assert!(opens.iter().all(|o| o.is_none()));
}

#[test]
fn a_hiding_player_is_not_attacked() {
    let es = entities(2);
    let dungeon = Dungeon { levels: vec![level(10, 10)] };
    let vs = || Some(Viewshed { visible_tiles: vec![22], range: 8, dirty: false });
    let viewsheds = vec![vs(), vs()];
    let positions = vec![Some(Position { idx: 22, level: 0 }), Some(Position { idx: 23, level: 0 })];
    let monsters = vec![None, Some(Monster { species: MonsterSpecies::Goblin })];
    let memories = vec![None, Some(memory())];
    let stats = vec![Some(CombatStats { max_hp: 30, hp: 12, power: 5, defense: 2 })];
    let hiding = vec![Some(Hiding { hiding_spot: Some(9) })];
    let knowledge = vec![None, knows(None)];
    let picks = vec![None, Some(0)];
    let furniture: Vec<Option<Grabbable>> = vec![];
    let doors: Vec<Option<Door>> = vec![];
    let mut melee: Vec<Option<WantsToMelee>> = vec![];
    let mut confused: Vec<Option<Confused>> = vec![];
    let mut moves: Vec<Option<WantsToMove>> = vec![];
    let mut opens: Vec<Option<WantsToOpenDoor>> = vec![];
    MonsterAI {}.run(&es, &viewsheds, &positions, &monsters, &memories, &dungeon, 0, &stats, &hiding, &knowledge, &picks,
        &furniture, &doors, &mut melee, &mut confused, &mut moves, &mut opens);
    assert!(melee.iter().all(|m| m.is_none()));
}

#[test]
fn confusion_counts_down() {
    let es = entities(2);
    let dungeon = Dungeon { levels: vec![level(10, 10)] };
    let vs = || Some(Viewshed { visible_tiles: vec![], range: 8, dirty: false });
    let viewsheds = vec![vs(), vs()];
    let positions = vec![Some(Position { idx: 5, level: 0 }), Some(Position { idx: 1, level: 0 })];
    let monsters = vec![None, Some(Monster { species: MonsterSpecies::Goblin })];
    let memories = vec![None, Some(memory())];
    let stats = vec![Some(CombatStats { max_hp: 30, hp: 12, power: 5, defense: 2 })];
    let hiding: Vec<Option<Hiding>> = vec![];
    let mut confused = vec![None, Some(Confused { turns: 3 })];
    let mut melee: Vec<Option<WantsToMelee>> = vec![];
    let mut moves: Vec<Option<WantsToMove>> = vec![];
    let mut opens: Vec<Option<WantsToOpenDoor>> = vec![];
    let furniture: Vec<Option<Grabbable>> = vec![];
    let doors: Vec<Option<Door>> = vec![];
    MonsterAI {}.run(&es, &viewsheds, &positions, &monsters, &memories, &dungeon, 0, &stats, &hiding,
        &vec![None, knows(Some((2, 3)))], &vec![None, Some(0)], &furniture, &doors, &mut melee, &mut confused, &mut moves, &mut opens);
    assert_eq!(confused[1], Some(Confused { turns: 2 }));
    assert_eq!(moves.get(1).copied().flatten(), None);
}

#[test]
fn walkers_step_onto_free_tiles_dragging_what_they_hold() {
    // 0: walks from 6 to 7 pushing crate 1 from 7 to 8; 2: stands on 11 and wants blocked tile 12
    let es = entities(3);
    let mut l = level(5, 5);
    l.blocked[7] = true;
    l.blocked[6] = true;
    l.blocked[12] = true;
    l.blocked[11] = true;
    let mut dungeon = Dungeon { levels: vec![l] };
    let grabbings = vec![Some(Grabbing { thing: 1 }), None, None];
    let mut wants = vec![Some(WantsToMove { idx: 7 }), None, Some(WantsToMove { idx: 12 })];
    let mut positions = vec![
        Some(Position { idx: 6, level: 0 }),
        Some(Position { idx: 7, level: 0 }),
        Some(Position { idx: 11, level: 0 }),
    ];
    let mut viewsheds = vec![Some(Viewshed { visible_tiles: vec![], range: 8, dirty: false }), None, None];
    let mut moved: Vec<Option<EntityMoved>> = vec![];
    let blocks = vec![Some(BlocksTile {}), Some(BlocksTile {}), Some(BlocksTile {})];
    let mut hidings = vec![Some(Hiding { hiding_spot: Some(1) }), None, None];
    MoveSystem {}.run(&es, &grabbings, &mut wants, &mut positions, &mut viewsheds, &mut dungeon, &mut moved, &blocks, &mut hidings, 25);
    assert_eq!(positions[0], Some(Position { idx: 7, level: 0 }));
    assert_eq!(positions[1], Some(Position { idx: 8, level: 0 }));
    assert_eq!(positions[2], Some(Position { idx: 11, level: 0 }));
    let b = &dungeon.levels[0].blocked;
    assert!(!b[6] && b[7] && b[8] && b[11] && b[12]);
    assert!(viewsheds[0].as_ref().unwrap().dirty);
    assert_eq!(moved.get(0).copied().flatten(), Some(EntityMoved {}));
    assert_eq!(moved.get(2).copied().flatten(), None);
    assert_eq!(hidings[0], None);
    assert!(wants.iter().all(|x| x.is_none()));
}

#[test]
fn a_monster_weighs_the_player_memories_spots_and_wandering() {
    // on a 10-wide level the monster stands on 55; the player is on 57, two tiles away and seen
    let l = level(10, 10);
    let furniture: Vec<Option<Grabbable>> = vec![];
    let doors: Vec<Option<Door>> = vec![];
    let spots = vec![
        SpotSighting { spot: 8, idx: 66, hp: 9, seen: false },
        SpotSighting { spot: 9, idx: 80, hp: 4, seen: true },
        SpotSighting { spot: 10, idx: 90, hp: 4, seen: false },
    ];
    let got = monster_candidates(&l, 55, 0, 57, 20, false, true, Some((56, 3)), &vec![Some((45, 6)), None], &spots, Some((65, 9)), &furniture, &doors);
    assert_eq!(
        got,
        vec![
            WeightedAction { action: Action::Chase(56), weight: Weight::Chase { target_hp: 20, steps: 3 } },
            WeightedAction { action: Action::MoveTo(45), weight: Weight::Move { steps: 6, through_furniture: false } },
            WeightedAction { action: Action::Attack(8), weight: Weight::Attack { target_hp: 9 } },
            WeightedAction { action: Action::Chase(56), weight: Weight::Chase { target_hp: 4, steps: 3 } },
            WeightedAction { action: Action::MoveTo(65), weight: Weight::Move { steps: 9, through_furniture: false } },
        ]
    );
    // a hiding player is left out
    let hidden = monster_candidates(&l, 55, 0, 56, 20, true, true, Some((56, 2)), &vec![], &vec![], None, &furniture, &doors);
    assert!(hidden.is_empty());
}

#[test]
fn a_remembered_hiding_spot_is_attacked_where_it_stands() {
    // 0: the player on 22; 1: a goblin on 23 remembering the player in 2, a wardrobe on 24
    let es = entities(3);
    let dungeon = Dungeon { levels: vec![level(10, 10)] };
    let vs = || Some(Viewshed { visible_tiles: vec![22, 24], range: 8, dirty: false });
    let viewsheds = vec![vs(), vs(), None];
    let positions = vec![
        Some(Position { idx: 22, level: 0 }),
        Some(Position { idx: 23, level: 0 }),
        Some(Position { idx: 24, level: 0 }),
    ];
    let monsters = vec![None, Some(Monster { species: MonsterSpecies::Goblin }), None];
    let remembers = Memory { last_known_enemy_positions: vec![], known_enemy_hiding_spots: vec![(0, 2)], wander_destination: None };
    let memories = vec![None, Some(remembers), None];
    let stats = vec![
        Some(CombatStats { max_hp: 30, hp: 12, power: 5, defense: 2 }),
        None,
        Some(CombatStats { max_hp: 8, hp: 8, power: 0, defense: 0 }),
    ];
    let hiding: Vec<Option<Hiding>> = vec![];
    let knowledge = vec![None, knows(None), None];
    let picks = vec![None, Some(1), None];
    let furniture: Vec<Option<Grabbable>> = vec![];
    let doors: Vec<Option<Door>> = vec![];
    let mut melee: Vec<Option<WantsToMelee>> = vec![];
    let mut confused: Vec<Option<Confused>> = vec![];
    let mut moves: Vec<Option<WantsToMove>> = vec![];
    let mut opens: Vec<Option<WantsToOpenDoor>> = vec![];
    MonsterAI {}.run(&es, &viewsheds, &positions, &monsters, &memories, &dungeon, 0, &stats, &hiding, &knowledge, &picks,
        &furniture, &doors, &mut melee, &mut confused, &mut moves, &mut opens);
    assert_eq!(melee.get(1).copied().flatten(), Some(WantsToMelee { target: 2 }));
}
