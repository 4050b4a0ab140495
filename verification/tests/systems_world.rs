use apprentice::color::{Color, NamedColor};
use apprentice::components::{
    BlocksTile, CausesLight, Door, DoorState, Equipment, Flammable, Grabbable, Grabbing, Memory, OnFire, Position,
    Renderable, Viewshed, WantsToCloseDoor, WantsToGoDownStairs, WantsToOpenDoor,
    WantsToReleaseGrabbed, Name,
};
use apprentice::dungeon::Dungeon;
use apprentice::ecs::{maintain, Entities};
use apprentice::game_log::GameLog;
use apprentice::level::{Level, TileType};
use apprentice::systems::door_systems::{CloseDoorSystem, OpenDoorSystem};
use apprentice::systems::fire::FireBurnSystem;
use apprentice::systems::go_down_stairs::GoDownStairsSystem;
use apprentice::systems::grab_hide::ReleaseSystem;
use apprentice::systems::light_system::{get_light_radius_from_equipment, LightSystem};
use apprentice::systems::map_indexing::MapIndexingSystem;
use apprentice::systems::memory_cull::MemoryCullSystem;

fn level(width: i32, height: i32) -> Level {
    let n = (width * height) as usize;
    Level {
        width,
        height,
        depth: 0,
        tiles: vec![TileType::Floor; n],
        revealed_tiles: vec![false; n],
        visible_tiles: vec![false; n],
        blocked: vec![false; n],
        opaque: vec![false; n],
        lit_tiles: vec![false; n],
        tile_content: vec![Vec::new(); n],
        stairs_up: None,
        stairs_down: None,
        exit: None,
    }
}

fn viewshed() -> Viewshed {
    Viewshed { visible_tiles: vec![], range: 8, dirty: false }
}

fn look() -> Renderable {
    Renderable { fg: Color::Named(NamedColor::White), bg: Color::Named(NamedColor::Black), glyph: 43, layer: 1 }
}

#[test]
fn closing_a_door_blocks_its_tile_and_browns_it() {
    let mut dungeon = Dungeon { levels: vec![level(5, 5), level(5, 5)] };
    // entity 0: the door on level 1, tile 7; entity 1: someone asking to close it; entity 2: a watcher on level 1
    let mut wants = vec![None, Some(WantsToCloseDoor { door: 0 })];
    let positions = vec![Some(Position { idx: 7, level: 1 }), Some(Position { idx: 8, level: 1 }), Some(Position { idx: 3, level: 1 }), Some(Position { idx: 3, level: 0 })];
    let mut viewsheds = vec![None, None, Some(viewshed()), Some(viewshed())];
    let mut doors = vec![Some(Door { state: DoorState::Opened })];
    let mut renderables = vec![Some(look())];
    CloseDoorSystem {}.run(&mut dungeon, &mut wants, &positions, &mut viewsheds, &mut doors, &mut renderables);
    assert_eq!(doors[0], Some(Door { state: DoorState::Closed }));
    assert_eq!(dungeon.levels[1].tiles[7], TileType::Door);
    assert!(dungeon.levels[1].blocked[7]);
    assert!(dungeon.levels[1].opaque[7]);
    assert_eq!(dungeon.levels[0].tiles[7], TileType::Floor);
    let r = renderables[0].unwrap();
    assert_eq!(r.fg, Color::Named(NamedColor::Brown4));
    assert_eq!(r.bg, Color::Named(NamedColor::Black));
    assert_eq!(r.glyph, 43);
    assert!(viewsheds[2].as_ref().unwrap().dirty);
    assert!(!viewsheds[3].as_ref().unwrap().dirty);
    assert!(wants.iter().all(|w| w.is_none()));
}

#[test]
fn opening_a_door_clears_its_tile() {
    let mut l = level(4, 4);
    l.tiles[5] = TileType::Door;
    l.blocked[5] = true;
    l.opaque[5] = true;
    let mut dungeon = Dungeon { levels: vec![l] };
    let mut wants = vec![Some(WantsToOpenDoor { idx: 5, level: 0 }), Some(WantsToOpenDoor { idx: 6, level: 0 })];
    let positions = vec![Some(Position { idx: 1, level: 0 })];
    let mut viewsheds = vec![Some(viewshed())];
    OpenDoorSystem {}.run(&mut dungeon, &mut wants, &positions, &mut viewsheds);
    assert_eq!(dungeon.levels[0].tiles[5], TileType::Floor);
    assert!(!dungeon.levels[0].blocked[5]);
    assert!(!dungeon.levels[0].opaque[5]);
    // a request for a tile that is no door changes nothing there
    assert_eq!(dungeon.levels[0].tiles[6], TileType::Floor);
    assert!(viewsheds[0].as_ref().unwrap().dirty);
    assert!(wants.iter().all(|w| w.is_none()));
}

#[test]
fn opening_then_closing_restores_the_door_tile() {
    let mut l = level(4, 4);
    l.tiles[5] = TileType::Door;
    l.blocked[5] = true;
    l.opaque[5] = true;
    let mut dungeon = Dungeon { levels: vec![l] };
    let positions = vec![Some(Position { idx: 5, level: 0 })];
    let mut viewsheds: Vec<Option<Viewshed>> = vec![None];
    let mut open = vec![Some(WantsToOpenDoor { idx: 5, level: 0 })];
    OpenDoorSystem {}.run(&mut dungeon, &mut open, &positions, &mut viewsheds);
    let mut close = vec![Some(WantsToCloseDoor { door: 0 })];
    let mut doors = vec![Some(Door { state: DoorState::Opened })];
    let mut renderables = vec![Some(look())];
    CloseDoorSystem {}.run(&mut dungeon, &mut close, &positions, &mut viewsheds, &mut doors, &mut renderables);
    assert_eq!(dungeon.levels[0].tiles[5], TileType::Door);
    assert!(dungeon.levels[0].blocked[5]);
    assert!(dungeon.levels[0].opaque[5]);
}

#[test]
fn stairs_take_adjacent_walkers_down() {
    let mut below = level(5, 5);
    below.stairs_up = Some(12);
    let dungeon = Dungeon { levels: vec![below, level(5, 5)] };
    let entities = Entities { alive: vec![true, true, true] };
    let mut wants = vec![Some(WantsToGoDownStairs { idx: 7 }), Some(WantsToGoDownStairs { idx: 20 }), Some(WantsToGoDownStairs { idx: 1 })];
    let mut positions = vec![Some(Position { idx: 6, level: 1 }), Some(Position { idx: 6, level: 1 }), Some(Position { idx: 0, level: 0 })];
    let mut viewsheds = vec![Some(viewshed()), Some(viewshed()), Some(viewshed())];
    GoDownStairsSystem {}.run(&entities, &mut wants, &mut positions, &dungeon, &mut viewsheds);
    assert_eq!(positions[0], Some(Position { idx: 12, level: 0 }));
    assert!(viewsheds[0].as_ref().unwrap().dirty);
    // too far from the stairs
    assert_eq!(positions[1], Some(Position { idx: 6, level: 1 }));
    assert!(!viewsheds[1].as_ref().unwrap().dirty);
    // already on the lowest level
    assert_eq!(positions[2], Some(Position { idx: 0, level: 0 }));
    assert!(wants.iter().all(|w| w.is_none()));
}

#[test]
fn indexing_lists_entities_and_blockers() {
    let mut l = level(3, 3);
    l.tiles[0] = TileType::Wall;
    l.tiles[1] = TileType::Door;
    l.tile_content[8] = vec![42];
    let mut dungeon = Dungeon { levels: vec![l] };
    let entities = Entities { alive: vec![true, true, true, false] };
    let positions = vec![Some(Position { idx: 4, level: 0 }), Some(Position { idx: 4, level: 0 }), Some(Position { idx: 5, level: 0 }), Some(Position { idx: 6, level: 0 })];
    let blockers = vec![None, None, Some(BlocksTile {}), Some(BlocksTile {})];
    MapIndexingSystem {}.run(&mut dungeon, 0, &positions, &blockers, &entities);
    let lv = &dungeon.levels[0];
    assert_eq!(lv.tile_content[4], vec![0, 1]);
    assert_eq!(lv.tile_content[5], vec![2]);
    assert!(lv.tile_content[6].is_empty());
    assert!(lv.tile_content[8].is_empty());
    assert_eq!(lv.blocked, vec![true, true, false, false, false, true, false, false, false]);
}

#[test]
fn lights_light_a_disc() {
    let mut dungeon = Dungeon { levels: vec![level(10, 10)] };
    dungeon.levels[0].lit_tiles[99] = true;
    // entity 0: a lit torch lying on tile 55; entity 1: an unlit one on tile 0
    let positions = vec![Some(Position { idx: 55, level: 0 }), Some(Position { idx: 0, level: 0 })];
    let equipment: Vec<Option<Equipment>> = vec![];
    let causes_light = vec![Some(CausesLight { radius: 2, lit: true }), Some(CausesLight { radius: 5, lit: false })];
    LightSystem {}.run(&mut dungeon, &positions, &equipment, &causes_light);
    let lit = &dungeon.levels[0].lit_tiles;
    let count = lit.iter().filter(|b| **b).count();
    // the tiles closer than 2 to (5, 5): the tile itself and its eight neighbours
    assert_eq!(count, 9);
    assert!(lit[55] && lit[44] && lit[66] && lit[45] && lit[56]);
    assert!(!lit[35] && !lit[53] && !lit[99] && !lit[0]);
}

#[test]
fn carried_lights_use_the_brighter_hand() {
    let mut dungeon = Dungeon { levels: vec![level(10, 10)] };
    let positions = vec![Some(Position { idx: 55, level: 0 })];
    let equipment = vec![Some(Equipment { dominant_hand: Some(1), off_hand: Some(2) })];
    let causes_light = vec![None, Some(CausesLight { radius: 1, lit: true }), Some(CausesLight { radius: 3, lit: true })];
    assert_eq!(get_light_radius_from_equipment(1, &causes_light), 1);
    assert_eq!(get_light_radius_from_equipment(0, &causes_light), 0);
    LightSystem {}.run(&mut dungeon, &positions, &equipment, &causes_light);
    let lit = &dungeon.levels[0].lit_tiles;
    assert!(lit[53] && lit[35] && lit[77]);
    assert!(!lit[52] && !lit[25] && !lit[88]);
}

#[test]
fn memories_of_the_dead_are_forgotten() {
    let entities = Entities { alive: vec![true, false, true] };
    let mut memories = vec![Some(Memory {
        last_known_enemy_positions: vec![(1, Position { idx: 3, level: 0 }), (2, Position { idx: 4, level: 0 })],
        known_enemy_hiding_spots: vec![(2, 1), (2, 0)],
        wander_destination: None,
    }), None];
    MemoryCullSystem {}.run(&mut memories, &entities);
    let m = memories[0].as_ref().unwrap();
    assert_eq!(m.last_known_enemy_positions, vec![(2, Position { idx: 4, level: 0 })]);
    assert_eq!(m.known_enemy_hiding_spots, vec![(2, 0)]);
    // culling again forgets nothing more
    MemoryCullSystem {}.run(&mut memories, &entities);
    assert_eq!(memories[0].as_ref().unwrap().known_enemy_hiding_spots, vec![(2, 0)]);
}

#[test]
fn grabs_end_on_request_or_when_out_of_reach() {
    let dungeon = Dungeon { levels: vec![level(10, 10)] };
    let entities = Entities { alive: vec![true, true, true, true, true] };
    // 0 (the player) holds 2 beside it and asks to let go; 1 holds 3, now far away; 4 holds 2 from the row above
    let mut intents = vec![Some(WantsToReleaseGrabbed {}), None, None, None, None];
    let mut grabbings = vec![Some(Grabbing { thing: 2 }), Some(Grabbing { thing: 3 }), None, None, Some(Grabbing { thing: 2 })];
    let positions = vec![
        Some(Position { idx: 55, level: 0 }),
        Some(Position { idx: 11, level: 0 }),
        Some(Position { idx: 56, level: 0 }),
        Some(Position { idx: 88, level: 0 }),
        Some(Position { idx: 46, level: 0 }),
    ];
    let grabbables = vec![None, None, Some(Grabbable {}), Some(Grabbable {}), None];
    let names = vec![None, None, Some(Name { name: "Chair".to_string() }), None, None];
    let mut log = GameLog::new();
    ReleaseSystem {}.run(&entities, &mut intents, &mut grabbings, &positions, &grabbables, &names, 0, &mut log, &dungeon);
    assert_eq!(grabbings[0], None);
    assert_eq!(grabbings[1], None);
    // 4 stands directly above 2, so it keeps hold
    assert_eq!(grabbings[4], Some(Grabbing { thing: 2 }));
    assert_eq!(log.entries, vec!["You release Chair".to_string()]);
    assert!(intents.iter().all(|i| i.is_none()));
}

#[test]
fn burning_things_burn_down() {
    let on_fires = vec![Some(OnFire {}), None];
    let mut flammables = vec![Some(Flammable { turns_remaining: 3 }), Some(Flammable { turns_remaining: 3 })];
    FireBurnSystem {}.run(&on_fires, &mut flammables);
    assert_eq!(flammables[0], Some(Flammable { turns_remaining: 2 }));
    assert_eq!(flammables[1], Some(Flammable { turns_remaining: 3 }));
}

#[test]
fn maintain_drops_what_deleted_entities_held() {
    let mut entities = Entities::new();
    for _ in 0..3 {
        entities.create();
    }
    entities.delete(1);
    let mut flammables = vec![
        Some(Flammable { turns_remaining: 1 }),
        Some(Flammable { turns_remaining: 2 }),
        None,
        Some(Flammable { turns_remaining: 4 }),
    ];
    maintain(&entities, &mut flammables);
    assert_eq!(flammables, vec![Some(Flammable { turns_remaining: 1 }), None, None, None]);
}
