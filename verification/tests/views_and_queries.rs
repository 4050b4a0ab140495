use apprentice::color::{Color, NamedColor};
use apprentice::components::{
    Armable, CombatStats, Container, Disarmable, Door, DoorState, Dousable, Equipable, Equipment, EquipmentPositions,
    Grabbable, Hidden, Hiding, HidingSpot, Inventory, Item, Lightable, Name, Objective, OnFire, Position, Renderable,
    Trap, TrapType, Viewshed,
};
use apprentice::dungeon::Dungeon;
use apprentice::ecs::{clear, contains, get, put, remove, Entities};
use apprentice::game_log::GameLog;
use apprentice::interaction::InteractionType;
use apprentice::level::{Level, TileType};
use apprentice::map_view::tool_tip_lines;
use apprentice::queries::{
    equip_choices, equipment_slots, filter_for_component, get_interaction_options_for_target,
    get_interaction_targets, get_openable_doors, get_visible_entities, has_objective_in_backpack,
    player_can_leave_dungeon, InteractionStores,
};
use apprentice::render::{get_render_data, RenderData};
use apprentice::viewshed::{mark_dirty_on_levels, mark_viewshed_dirty};

fn level(width: i32, height: i32) -> Level {
    let n = (width * height) as usize;
    Level {
        width,
        height,
        depth: 0,
        tiles: vec![TileType::Floor; n],
        revealed_tiles: vec![false; n],
        visible_tiles: vec![false; n],
        blocked: vec![false; n],
        opaque: vec![false; n],
        lit_tiles: vec![false; n],
        tile_content: vec![Vec::new(); n],
        stairs_up: None,
        stairs_down: None,
        exit: None,
    }
}

fn entities(n: usize) -> Entities {
    let mut es = Entities::new();
    for _ in 0..n {
        es.create();
    }
    es
}

fn name(s: &str) -> Option<Name> {
    Some(Name { name: s.to_string() })
}

#[test]
fn storages_store_and_forget() {
    let mut s: Vec<Option<u32>> = vec![];
    put(&mut s, 3, Some(7));
    assert_eq!(get(&s, 3), Some(7));
    assert_eq!(get(&s, 1), None);
    assert!(contains(&s, 3) && !contains(&s, 9));
    remove(&mut s, 3);
    assert_eq!(get(&s, 3), None);
    put(&mut s, 0, Some(1));
    clear(&mut s);
    assert!(!contains(&s, 0));
}

#[test]
fn entities_are_created_in_order_and_deleted() {
    let mut es = Entities::new();
    assert_eq!(es.create(), 0);
    assert_eq!(es.create(), 1);
    es.delete(0);
    assert!(!es.is_alive(0));
    assert!(es.is_alive(1));
    assert!(!es.is_alive(5));
    let copy = es.snapshot();
    assert!(copy.is_alive(1) && !copy.is_alive(0));
}

#[test]
fn the_log_puts_the_newest_first() {
    let mut log = GameLog::new();
    log.add("first".to_string());
    log.add("second".to_string());
    assert_eq!(log.entries, vec!["second".to_string(), "first".to_string()]);
}

fn look(glyph: u16, layer: i32) -> Option<Renderable> {
    Some(Renderable { fg: Color::Named(NamedColor::White), bg: Color::Named(NamedColor::Black), glyph, layer })
}

#[test]
fn render_data_lists_what_the_player_sees_top_layer_first() {
    // 0: player (layer 0, hiding), 1: item on layer 2, 2: burning chair on layer 1,
    // 3: hidden trap not found, 4: goblin hiding, 5: out of sight, 6: on another level
    let es = entities(7);
    let mut l = level(5, 5);
    for i in 0..10 {
        l.visible_tiles[i] = true;
    }
    let dungeon = Dungeon { levels: vec![l, level(5, 5)] };
    let positions = vec![
        Some(Position { idx: 1, level: 0 }),
        Some(Position { idx: 2, level: 0 }),
        Some(Position { idx: 3, level: 0 }),
        Some(Position { idx: 4, level: 0 }),
        Some(Position { idx: 5, level: 0 }),
        Some(Position { idx: 20, level: 0 }),
        Some(Position { idx: 2, level: 1 }),
    ];
    let renderables = vec![look(64, 0), look(33, 2), look(99, 1), look(94, 2), look(103, 0), look(1, 1), look(2, 1)];
    let hidden = vec![None, None, None, Some(Hidden { found_by: vec![] }), None, None, None];
    let on_fire = vec![None, None, Some(OnFire {}), None, None, None, None];
    let hiding = vec![Some(Hiding { hiding_spot: None }), None, None, None, Some(Hiding { hiding_spot: None }), None, None];
    let r = get_render_data(&es, &positions, &hidden, &renderables, &on_fire, &hiding, 0, &dungeon);
    assert_eq!(
        r,
        vec![
            RenderData { idx: 2, fg: Color::Named(NamedColor::White), bg: Color::Named(NamedColor::Black), glyph: 33, layer: 2 },
            RenderData { idx: 3, fg: Color::Named(NamedColor::Orange), bg: Color::Named(NamedColor::Black), glyph: 99, layer: 1 },
            RenderData { idx: 1, fg: Color::Named(NamedColor::Grey), bg: Color::Named(NamedColor::Black), glyph: 64, layer: 0 },
        ]
    );
}

#[test]
fn tool_tips_name_what_stands_on_a_visible_tile() {
    let es = entities(4);
    let names = vec![name("Player"), name("Chair"), name("Bear Trap"), name("Goblin")];
    let positions = vec![
        Some(Position { idx: 3, level: 0 }),
        Some(Position { idx: 3, level: 0 }),
        Some(Position { idx: 3, level: 0 }),
        Some(Position { idx: 3, level: 0 }),
    ];
    let hidden = vec![None, None, Some(Hidden { found_by: vec![] }), None];
    let hiding = vec![Some(Hiding { hiding_spot: Some(1) }), None, None, Some(Hiding { hiding_spot: None })];
    let visible = vec![false, false, false, true];
    let lines = tool_tip_lines(&es, &names, &positions, &hidden, &hiding, 0, 0, &visible, 3);
    assert_eq!(lines, vec!["Player (hidden)".to_string(), "Chair".to_string()]);
    assert!(tool_tip_lines(&es, &names, &positions, &hidden, &hiding, 0, 0, &visible, 2).is_empty());
    assert!(tool_tip_lines(&es, &names, &positions, &hidden, &hiding, 0, 0, &visible, -1).is_empty());
    assert!(tool_tip_lines(&es, &names, &positions, &hidden, &hiding, 0, 0, &visible, 40).is_empty());
}

#[test]
fn the_player_sees_what_lies_on_visible_tiles() {
    let mut l = level(5, 5);
    l.tile_content[6] = vec![1, 2];
    l.tile_content[7] = vec![3];
    l.tile_content[8] = vec![4];
    let dungeon = Dungeon { levels: vec![l] };
    let viewsheds = vec![Some(Viewshed { visible_tiles: vec![7, 6], range: 8, dirty: false })];
    let positions = vec![Some(Position { idx: 12, level: 0 })];
    let hidden = vec![None, None, Some(Hidden { found_by: vec![] }), Some(Hidden { found_by: vec![0] })];
    assert_eq!(get_visible_entities(&viewsheds, &positions, &dungeon, &hidden, 0), vec![3, 1]);
}

#[test]
fn filters_keep_order() {
    let items = vec![None, Some(Item {}), None, Some(Item {})];
    assert_eq!(filter_for_component(&vec![3, 2, 1], &items), vec![3, 1]);
    let doors = vec![Some(Door { state: DoorState::Closed }), Some(Door { state: DoorState::Opened }), None];
    assert_eq!(get_openable_doors(&vec![2, 1, 0], &doors), vec![0]);
}

#[test]
fn interaction_options_follow_the_components() {
    let grabbables = vec![None, Some(Grabbable {}), None, None];
    let lightables = vec![None, Some(Lightable {}), None, None];
    let dousables: Vec<Option<Dousable>> = vec![];
    let traps = vec![None, None, Some(Trap { trap_type: TrapType::BearTrap, armed: true }), None];
    let disarmables = vec![None, None, Some(Disarmable {}), None];
    let armables: Vec<Option<Armable>> = vec![];
    let hiding_spots = vec![None, Some(HidingSpot {}), None, None];
    let combat_stats: Vec<Option<CombatStats>> = vec![];
    let containers = vec![None, Some(Container { items: vec![] }), None, None];
    let items: Vec<Option<Item>> = vec![];
    let doors = vec![None, None, None, Some(Door { state: DoorState::Opened })];
    let s = InteractionStores {
        grabbables: &grabbables,
        lightables: &lightables,
        dousables: &dousables,
        traps: &traps,
        disarmables: &disarmables,
        armables: &armables,
        hiding_spots: &hiding_spots,
        combat_stats: &combat_stats,
        containers: &containers,
        items: &items,
        doors: &doors,
    };
    assert_eq!(get_interaction_targets(&vec![0, 1, 2, 3], &s), vec![1, 2, 3]);
    assert_eq!(
        get_interaction_options_for_target(&s, 1),
        vec![InteractionType::Light(1), InteractionType::Grab(1), InteractionType::HideIn(1), InteractionType::OpenContainer(1)]
    );
    assert_eq!(get_interaction_options_for_target(&s, 2), vec![InteractionType::Disarm(2)]);
    assert_eq!(get_interaction_options_for_target(&s, 3), vec![InteractionType::CloseDoor(3)]);
    assert!(get_interaction_options_for_target(&s, 0).is_empty());
}

#[test]
fn leaving_needs_the_exit_tile() {
    let mut l = level(5, 5);
    l.exit = Some(4);
    let dungeon = Dungeon { levels: vec![l] };
    assert!(player_can_leave_dungeon(&dungeon, &vec![Some(Position { idx: 4, level: 0 })], 0));
    assert!(!player_can_leave_dungeon(&dungeon, &vec![Some(Position { idx: 3, level: 0 })], 0));
}

#[test]
fn the_talisman_must_be_carried_and_exist() {
    let mut es = entities(3);
    let inventories = vec![Some(Inventory { items: vec![2] }), None, None];
    let objectives = vec![None, Some(Objective {}), Some(Objective {})];
    assert!(has_objective_in_backpack(&es, &inventories, &objectives, 0));
    let empty = vec![Some(Inventory { items: vec![0] }), None, None];
    assert!(!has_objective_in_backpack(&es, &empty, &objectives, 0));
    es.delete(2);
    assert!(!has_objective_in_backpack(&es, &inventories, &objectives, 0));
}

#[test]
fn equipment_choices_start_with_nothing() {
    let inventories = vec![Some(Inventory { items: vec![1, 2, 3] }), None, None, None];
    let equipables = vec![
        None,
        Some(Equipable { positions: vec![EquipmentPositions::DominantHand] }),
        None,
        Some(Equipable { positions: vec![EquipmentPositions::OffHand, EquipmentPositions::DominantHand] }),
    ];
    assert_eq!(equip_choices(&inventories, &equipables, 0, EquipmentPositions::DominantHand), vec![None, Some(1), Some(3)]);
    assert_eq!(equip_choices(&inventories, &equipables, 0, EquipmentPositions::OffHand), vec![None, Some(3)]);
    let equipment = vec![Some(Equipment { dominant_hand: Some(1), off_hand: None })];
    assert_eq!(
        equipment_slots(&equipment, 0),
        vec![(EquipmentPositions::DominantHand, Some(1)), (EquipmentPositions::OffHand, None)]
    );
}

#[test]
fn viewsheds_are_marked_for_recomputation() {
    let v = || Some(Viewshed { visible_tiles: vec![], range: 8, dirty: false });
    let mut viewsheds = vec![v(), None, v(), v()];
    mark_viewshed_dirty(&mut viewsheds, 0);
    mark_viewshed_dirty(&mut viewsheds, 1);
    assert!(viewsheds[0].as_ref().unwrap().dirty);
    assert!(viewsheds[1].is_none());
    assert!(!viewsheds[2].as_ref().unwrap().dirty);
    let positions = vec![None, None, Some(Position { idx: 0, level: 1 }), Some(Position { idx: 0, level: 0 })];
    mark_dirty_on_levels(&mut viewsheds, &positions, &vec![false, true]);
    assert!(viewsheds[2].as_ref().unwrap().dirty);
    assert!(!viewsheds[3].as_ref().unwrap().dirty);
}
