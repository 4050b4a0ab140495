use apprentice::color::{Color, NamedColor};
use apprentice::components::{
    Blood, CombatStats, Consumable, Container, Flammable, Grabbable, Item, Name, ParticleLifetime, Position, Ranged,
    Renderable, Saveable, Trap, TrapType,
};
use apprentice::ecs::Entities;
use apprentice::item_type::ItemType;
use apprentice::services::{BloodSpawner, CorpseSpawner, DebrisSpawner, ItemSpawner, ParticleEffectSpawner};
use apprentice::level::{Level, TileType};
use apprentice::spawner::{
    furniture_blueprint, get_random_spawn_points_for_level, goblin_blueprint, goblin_group_plan, goblin_group_sites, item_blueprint, item_for_roll,
    monster_blueprint, new_game_start, objective_blueprint, pick_random_points, player_blueprint, room_item_plan,
    set_traps_for_level, spawn_plan_from_room_stamp, trap_for_roll, RoomPart,
};
use rltk::RandomNumberGenerator;
use apprentice::systems::spawn_systems::{
    BloodSpawnSystem, CorpseSpawnSystem, DebrisSpawnSystem, ItemSpawnSystem, ParticleSpawnSystem,
};

fn look(glyph: u16, fg: NamedColor, layer: i32) -> Renderable {
    Renderable { fg: Color::Named(fg), bg: Color::Named(NamedColor::Black), glyph, layer }
}

#[test]
fn furniture_blocks_and_burns() {
    let bed = furniture_blueprint(RoomPart::Bed);
    assert_eq!(bed.name, "Bed");
    assert_eq!(bed.renderable, look('b' as u16, NamedColor::LightBlue, 1));
    assert_eq!(bed.flammable_turns, Some(8));
    assert!(bed.blocks_tile && bed.grabbable && !bed.container);

    let chest = furniture_blueprint(RoomPart::Chest);
    assert_eq!(chest.name, "Trasure Chest");
    assert!(chest.container);

    let rack = furniture_blueprint(RoomPart::TowelRack);
    assert_eq!(rack.flammable_turns, Some(3));
    assert_eq!(rack.renderable.fg, Color::Named(NamedColor::LightYellow));

    let debris = furniture_blueprint(RoomPart::Debris);
    assert!(!debris.grabbable);
    assert_eq!(debris.flammable_turns, None);
    assert_eq!(furniture_blueprint(RoomPart::WeaponRack).flammable_turns, None);
}

#[test]
fn item_rolls_follow_the_table() {
    assert_eq!(item_for_roll(0), ItemType::MagicMissileScroll);
    assert_eq!(item_for_roll(1), ItemType::HealthPotion);
    assert_eq!(item_for_roll(2), ItemType::HealthPotion);
    assert_eq!(item_for_roll(3), ItemType::FireballScroll);
    assert_eq!(item_for_roll(4), ItemType::ConfusionScroll);
    assert_eq!(item_for_roll(5), ItemType::BearTrap);
    assert_eq!(item_for_roll(6), ItemType::Caltrops);
}

#[test]
fn items_carry_their_powers() {
    let potion = item_blueprint(ItemType::HealthPotion);
    assert_eq!(potion.name, "Health Potion");
    assert_eq!((potion.healing, potion.ranged), (Some(8), None));
    assert!(potion.item && potion.consumable);

    let fireball = item_blueprint(ItemType::FireballScroll);
    assert_eq!((fireball.ranged, fireball.damage, fireball.area_radius), (Some(6), Some(20), Some(3)));
    assert!(fireball.causes_fire);
    assert_eq!(fireball.renderable, look(')' as u16, NamedColor::Orange, 1));

    let confusion = item_blueprint(ItemType::ConfusionScroll);
    assert_eq!(confusion.confusion_turns, Some(4));

    let caltrops = item_blueprint(ItemType::Caltrops);
    assert_eq!((caltrops.ranged, caltrops.trap), (Some(3), Some(TrapType::Caltrops)));
    assert_eq!(item_blueprint(ItemType::BearTrap).trap, Some(TrapType::BearTrap));
    assert_eq!(item_blueprint(ItemType::MagicMissileScroll).damage, Some(8));
}

#[test]
fn the_player_goblins_and_talisman() {
    let player = player_blueprint();
    assert_eq!(player.name, "Player");
    assert_eq!(player.renderable, look('@' as u16, NamedColor::Yellow, 0));
    assert_eq!(player.combat_stats, Some(CombatStats { max_hp: 30, hp: 30, power: 5, defense: 2 }));
    assert_eq!(player.viewshed_range, Some(8));

    let goblin = goblin_blueprint();
    assert_eq!(goblin.name, "Goblin");
    assert_eq!(goblin.renderable, look('g' as u16, NamedColor::Red, 0));
    assert!(goblin.monster && goblin.blocks_tile);
    assert_eq!(goblin.combat_stats, Some(CombatStats { max_hp: 16, hp: 16, power: 4, defense: 1 }));

    let orc = monster_blueprint(111, "Orc");
    assert_eq!(orc.name, "Orc");
    assert_eq!(orc.renderable.glyph, 111);

    let talisman = objective_blueprint();
    assert_eq!(talisman.name, "The Talisman");
    assert_eq!(talisman.renderable, look(241, NamedColor::LightSalmon, 1));
    assert!(talisman.objective && talisman.item);
}

#[test]
fn a_stamp_places_its_parts_row_by_row() {
    let pattern = vec![
        vec![Some(RoomPart::Bed), None, Some(RoomPart::Chair)],
        vec![],
        vec![None, Some(RoomPart::Chest)],
    ];
    let plan = spawn_plan_from_room_stamp(10, 2, 3, &pattern);
    assert_eq!(plan, vec![(32, RoomPart::Bed), (34, RoomPart::Chair), (53, RoomPart::Chest)]);
    assert!(spawn_plan_from_room_stamp(10, 0, 0, &vec![]).is_empty());
}

fn entities(n: usize) -> Entities {
    let mut es = Entities::new();
    for _ in 0..n {
        es.create();
    }
    es
}

#[test]
fn requests_become_new_entities() {
    let mut es = entities(1);
    let mut positions: Vec<Option<Position>> = vec![None];
    let mut renderables: Vec<Option<Renderable>> = vec![None];
    let mut bloods: Vec<Option<Blood>> = vec![None];
    let mut blood = BloodSpawner::new();
    blood.request(4, Color::Hundredths(85, 0, 0), Color::Hundredths(50, 0, 0), 177, 2);
    let mut saveables: Vec<Option<Saveable>> = vec![];
    BloodSpawnSystem {}.run(&mut es, &mut saveables, &mut positions, &mut renderables, &mut bloods, &mut blood);
    assert!(es.is_alive(1));
    assert_eq!(positions[1], Some(Position { idx: 4, level: 2 }));
    assert_eq!(renderables[1].unwrap().layer, 3);
    assert_eq!(bloods[1], Some(Blood {}));
    assert_eq!(saveables[1], Some(Saveable {}));
    assert!(blood.requests.is_empty());

    let mut lifetimes: Vec<Option<ParticleLifetime>> = vec![];
    let mut particles = ParticleEffectSpawner::new();
    particles.request(6, Color::Named(NamedColor::Orange), Color::Named(NamedColor::Black), 19, 200, 0);
    ParticleSpawnSystem {}.run(&mut es, &mut positions, &mut lifetimes, &mut renderables, &mut particles);
    assert_eq!(positions[2], Some(Position { idx: 6, level: 0 }));
    assert_eq!(lifetimes[2], Some(ParticleLifetime { duration_ms: 200 }));
    assert_eq!(renderables[2].unwrap().layer, 0);
    assert!(particles.requests.is_empty());
    // particles are not kept by saved games
    assert_eq!(saveables.get(2).copied().flatten(), None);
}

#[test]
fn debris_and_corpses_are_named_things() {
    let mut es = entities(2);
    let mut positions: Vec<Option<Position>> = vec![];
    let mut renderables: Vec<Option<Renderable>> = vec![];
    let mut names: Vec<Option<Name>> = vec![];
    let mut grabbables: Vec<Option<Grabbable>> = vec![];
    let mut flammables: Vec<Option<Flammable>> = vec![];
    let mut debris = DebrisSpawner::new();
    debris.request(3, Color::Named(NamedColor::Brown3), Color::Named(NamedColor::Black), 35, 1, "Bed debris".to_string(), true);
    debris.request_burnt_debris(5, 1);
    let mut saveables: Vec<Option<Saveable>> = vec![];
    DebrisSpawnSystem {}.run(&mut es, &mut saveables, &mut positions, &mut renderables, &mut names, &mut grabbables, &mut flammables, &mut debris);
    assert_eq!(names[2].as_ref().unwrap().name, "Bed debris");
    assert_eq!(flammables[2], Some(Flammable { turns_remaining: 4 }));
    assert_eq!(grabbables[2], Some(Grabbable {}));
    assert_eq!(names[3].as_ref().unwrap().name, "Burnt Debris");
    assert_eq!(flammables.get(3).copied().flatten(), None);
    assert_eq!(renderables[3].unwrap().glyph, '#' as u16);
    assert_eq!(positions[3], Some(Position { idx: 5, level: 1 }));
    assert_eq!(saveables[2], Some(Saveable {}));

    let mut containers: Vec<Option<Container>> = vec![];
    let mut corpses = CorpseSpawner::new();
    corpses.request(7, Color::Named(NamedColor::Black), Color::Named(NamedColor::DarkRed), 103, 0, "goblin corpse, slain".to_string(), vec![1]);
    CorpseSpawnSystem {}.run(&mut es, &mut saveables, &mut positions, &mut renderables, &mut names, &mut containers, &mut corpses);
    assert_eq!(names[4].as_ref().unwrap().name, "goblin corpse, slain");
    assert_eq!(containers[4].as_ref().unwrap().items, vec![1]);
    assert_eq!(renderables[4].unwrap().layer, 2);
    assert!(corpses.requests.is_empty());
    assert_eq!(saveables[4], Some(Saveable {}));
}

#[test]
fn item_requests_become_items() {
    let mut es = entities(0);
    let mut positions: Vec<Option<Position>> = vec![];
    let mut renderables: Vec<Option<Renderable>> = vec![];
    let mut names: Vec<Option<Name>> = vec![];
    let mut items: Vec<Option<Item>> = vec![];
    let mut consumables: Vec<Option<Consumable>> = vec![];
    let mut ranged: Vec<Option<Ranged>> = vec![];
    let mut traps: Vec<Option<Trap>> = vec![];
    let mut spawner = ItemSpawner::new();
    spawner.request(9, 1, ItemType::BearTrap);
    spawner.request(10, 1, ItemType::HealthPotion);
    let mut saveables: Vec<Option<Saveable>> = vec![];
    ItemSpawnSystem {}.run(&mut es, &mut saveables, &mut positions, &mut renderables, &mut names, &mut items, &mut consumables, &mut ranged, &mut traps, &mut spawner);
    assert_eq!(positions[0], Some(Position { idx: 9, level: 1 }));
    assert_eq!(names[0].as_ref().unwrap().name, "Bear Trap");
    assert_eq!(traps[0], Some(Trap { trap_type: TrapType::BearTrap, armed: false }));
    assert_eq!(ranged[0], Some(Ranged { range: 1 }));
    assert_eq!(items[1], Some(Item {}));
    assert_eq!(consumables[1], Some(Consumable {}));
    assert_eq!(ranged.get(1).copied().flatten(), None);
    assert_eq!(renderables[1].unwrap(), Renderable { fg: Color::Named(NamedColor::LightBlue), bg: Color::Named(NamedColor::Black), glyph: 'i' as u16, layer: 2 });
    assert!(spawner.requests.is_empty());
    assert_eq!(saveables, vec![Some(Saveable {}), Some(Saveable {})]);
}

#[test]
fn trap_rolls_follow_the_table() {
    assert_eq!(trap_for_roll(1), TrapType::BearTrap);
    assert_eq!(trap_for_roll(0), TrapType::Caltrops);
}

#[test]
fn random_points_are_drawn_without_repeats() {
    for seed in 0..20u64 {
        let mut rng = RandomNumberGenerator::seeded(seed);
        let mut got = pick_random_points(&mut rng, vec![3, 5, 8, 13], 3);
        assert_eq!(got.len(), 3);
        got.sort();
        got.dedup();
        assert_eq!(got.len(), 3);
        assert!(got.iter().all(|p| [3, 5, 8, 13].contains(p)));
        assert_eq!(pick_random_points(&mut rng, vec![3, 5], 9).len(), 2);
        assert!(pick_random_points(&mut rng, vec![3, 5], -1).is_empty());
    }
}

fn small_level() -> Level {
    let n = 16usize;
    let mut l = Level {
        width: 4,
        height: 4,
        depth: 0,
        tiles: vec![TileType::Floor; n],
        revealed_tiles: vec![false; n],
        visible_tiles: vec![false; n],
        blocked: vec![false; n],
        opaque: vec![false; n],
        lit_tiles: vec![false; n],
        tile_content: vec![Vec::new(); n],
        stairs_up: None,
        stairs_down: None,
        exit: None,
    };
    for i in 0..16 {
        if i % 3 != 0 {
            l.tiles[i] = TileType::Wall;
        }
    }
    l.blocked[3] = true;
    l
}

#[test]
fn spawn_points_are_free_floor() {
    // the free floor tiles are 0, 6, 9, 12 and 15
    let level = small_level();
    for seed in 0..20u64 {
        let mut rng = RandomNumberGenerator::seeded(seed);
        let points = get_random_spawn_points_for_level(&mut rng, &level, 2, 4);
        assert!(points.len() == 2 || points.len() == 3);
        assert!(points.iter().all(|p| [0, 6, 9, 12, 15].contains(p)));
        let traps = set_traps_for_level(&mut rng, &level);
        assert!((4..=5).contains(&traps.len()));
        assert!(traps.iter().all(|(p, _)| [0, 6, 9, 12, 15].contains(p)));
    }
}

#[test]
fn room_items_go_to_its_points_and_containers() {
    for seed in 0..40u64 {
        let mut rng = RandomNumberGenerator::seeded(seed);
        let (loose, inside) = room_item_plan(&mut rng, true, &vec![7, 11], vec![20, 21, 22, 23, 24]);
        // a treasure room gets between zero and three items, more than half of them in containers
        let total = loose.len() + inside.len();
        assert!(total <= 3);
        assert!(inside.len() * 5 >= total * 3 || inside.len() == 2);
        assert!(loose.iter().all(|(p, _)| (20..25).contains(p)));
        assert!(inside.iter().all(|(c, _)| *c == 7 || *c == 11));
        let mut points: Vec<usize> = loose.iter().map(|(p, _)| *p).collect();
        points.sort();
        points.dedup();
        assert_eq!(points.len(), loose.len());
    }
}

#[test]
fn a_room_without_containers_keeps_its_items_loose() {
    for seed in 0..40u64 {
        let mut rng = RandomNumberGenerator::seeded(seed);
        let (loose, inside) = room_item_plan(&mut rng, false, &Vec::new(), vec![4, 5, 6]);
        assert!(inside.is_empty());
        assert!(loose.len() <= 3);
        assert!(loose.iter().all(|(p, _)| (4..7).contains(p)));
    }
}

#[test]
fn a_new_game_starts_on_the_first_exit() {
    let mut level = small_level();
    assert_eq!(new_game_start(&level), None);
    level.tiles[9] = TileType::Exit;
    level.tiles[12] = TileType::Exit;
    assert_eq!(new_game_start(&level), Some(9));
}

#[test]
fn goblins_gather_in_groups() {
    let level = small_level();
    for seed in 0..20u64 {
        let mut rng = RandomNumberGenerator::seeded(seed);
        let sites = goblin_group_sites(&mut rng, &level);
        assert!(sites.len() == 2 || sites.len() == 3);
        assert!(sites.iter().all(|p| [0, 6, 9, 12, 15].contains(p)));
        let group = goblin_group_plan(&mut rng, (30..40).collect());
        assert!((3..=5).contains(&group.len()));
        assert!(group.iter().all(|p| (30..40).contains(p)));
        assert_eq!(goblin_group_plan(&mut rng, vec![1, 2]).len(), 2);
    }
}
