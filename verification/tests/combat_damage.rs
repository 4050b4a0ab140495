use apprentice::color::{Color, NamedColor};
use apprentice::combat::{hand_damage, MeleeCombatSystem};
use apprentice::components::{
    CausesDamage, CombatStats, Container, DamageHistory, DamageType, Equipment, Hiding, Inventory, Monster,
    MonsterSpecies, Name, Player, Position, Renderable, SufferDamage, Viewshed, WantsToMelee,
};
use apprentice::damage::DamageSystem;
use apprentice::ecs::Entities;
use apprentice::game_log::GameLog;
use apprentice::interaction::InteractionType;
use apprentice::services::{BloodSpawner, CorpseSpawner, DebrisSpawner, ParticleEffectSpawner};
use rltk::RandomNumberGenerator;

fn entities(n: usize) -> Entities {
    let mut es = Entities::new();
    for _ in 0..n {
        es.create();
    }
    es
}

fn name(s: &str) -> Option<Name> {
    Some(Name { name: s.to_string() })
}

fn stats(hp: i32, power: i32, defense: i32) -> Option<CombatStats> {
    Some(CombatStats { max_hp: 30, hp, power, defense })
}

#[test]
fn hand_damage_adds_roll_bonus_and_power_less_defense() {
    assert_eq!(hand_damage(Some((3, 1)), 2, 1), 5);
    assert_eq!(hand_damage(None, 5, 2), 3);
    assert_eq!(hand_damage(None, 1, 5), 0);
    assert_eq!(hand_damage(Some((1, 0)), 0, 4), 0);
}

#[test]
fn bare_hands_hit_for_power_less_defense() {
    // entity 0 attacks entity 1 with its fists
    let es = entities(2);
    let mut wants = vec![Some(WantsToMelee { target: 1 }), None];
    let mut suffer: Vec<Option<SufferDamage>> = vec![None, None];
    let names = vec![name("Player"), name("Goblin")];
    let combat = vec![stats(10, 5, 0), stats(8, 1, 2)];
    let equipment = vec![Some(Equipment { dominant_hand: None, off_hand: None }), None];
    let causes: Vec<Option<CausesDamage>> = vec![None, None];
    let mut log = GameLog::new();
    let mut particles = ParticleEffectSpawner::new();
    let positions = vec![Some(Position { idx: 4, level: 0 }), Some(Position { idx: 5, level: 0 })];
    let mut histories = vec![None, Some(DamageHistory { events: vec![] })];
    let mut rng = RandomNumberGenerator::seeded(7);
    MeleeCombatSystem {}.run(
        &es, &mut wants, &mut suffer, &names, &combat, &equipment, &causes, &mut log, &mut particles,
        &positions, &mut histories, &mut rng,
    );
    assert_eq!(suffer[1], Some(SufferDamage { amount: 3 }));
    assert_eq!(suffer[0], None);
    assert_eq!(log.entries, vec!["Player hits Goblin with fist, for 3 hp".to_string()]);
    assert_eq!(histories[1].as_ref().unwrap().events, vec![DamageType::Blunt]);
    assert_eq!(particles.requests.len(), 1);
    assert_eq!(particles.requests[0].idx, 4);
    assert!(wants.iter().all(|w| w.is_none()));
}

#[test]
fn a_weapon_hit_stays_within_its_range() {
    let es = entities(3);
    // entity 2 is a sword: 2..=4 slash damage with a bonus of 1
    let causes = vec![None, None, Some(CausesDamage { min: 2, max: 4, bonus: 1, damage_type: vec![DamageType::Slash] })];
    let names = vec![name("Player"), name("Goblin"), name("Sword")];
    let combat = vec![stats(10, 0, 0), stats(8, 0, 0), None];
    let equipment = vec![Some(Equipment { dominant_hand: Some(2), off_hand: None }), None, None];
    let positions = vec![Some(Position { idx: 4, level: 0 }), Some(Position { idx: 5, level: 0 }), None];
    for seed in 0..20u64 {
        let mut wants = vec![Some(WantsToMelee { target: 1 }), None, None];
        let mut suffer: Vec<Option<SufferDamage>> = vec![None, Some(SufferDamage { amount: 10 }), None];
        let mut log = GameLog::new();
        let mut particles = ParticleEffectSpawner::new();
        let mut histories = vec![None, Some(DamageHistory { events: vec![] }), None];
        let mut rng = RandomNumberGenerator::seeded(seed);
        MeleeCombatSystem {}.run(
            &es, &mut wants, &mut suffer, &names, &combat, &equipment, &causes, &mut log, &mut particles,
            &positions, &mut histories, &mut rng,
        );
        let dealt = suffer[1].unwrap().amount - 10;
        assert!((3..=5).contains(&dealt));
        assert_eq!(log.entries, vec![format!("Player hits Goblin with Sword, for {} hp", dealt)]);
        assert_eq!(histories[1].as_ref().unwrap().events, vec![DamageType::Slash]);
    }
}

#[test]
fn a_fallen_target_is_not_attacked() {
    let es = entities(2);
    let mut wants = vec![Some(WantsToMelee { target: 1 }), None];
    let mut suffer: Vec<Option<SufferDamage>> = vec![None, None];
    let names = vec![name("Player"), name("Goblin")];
    let combat = vec![stats(10, 5, 0), stats(0, 1, 2)];
    let equipment = vec![Some(Equipment { dominant_hand: None, off_hand: None }), None];
    let causes: Vec<Option<CausesDamage>> = vec![None, None];
    let mut log = GameLog::new();
    let mut particles = ParticleEffectSpawner::new();
    let positions = vec![Some(Position { idx: 4, level: 0 }), Some(Position { idx: 5, level: 0 })];
    let mut histories: Vec<Option<DamageHistory>> = vec![None, None];
    let mut rng = RandomNumberGenerator::seeded(1);
    MeleeCombatSystem {}.run(
        &es, &mut wants, &mut suffer, &names, &combat, &equipment, &causes, &mut log, &mut particles,
        &positions, &mut histories, &mut rng,
    );
    assert!(suffer.iter().all(|x| x.is_none()));
    assert!(log.entries.is_empty());
    assert!(particles.requests.is_empty());
    assert!(wants.iter().all(|x| x.is_none()));
}

#[test]
fn damage_is_taken_and_creatures_bleed() {
    let es = entities(3);
    let mut queued = Some(InteractionType::Move(9));
    let mut combat = vec![stats(10, 1, 1), stats(5, 1, 1), stats(4, 0, 0)];
    let mut suffer = vec![Some(SufferDamage { amount: 3 }), Some(SufferDamage { amount: 7 }), None];
    let positions = vec![Some(Position { idx: 11, level: 1 }), Some(Position { idx: 12, level: 1 }), None];
    let mut blood = BloodSpawner::new();
    let monsters = vec![None, Some(Monster { species: MonsterSpecies::Goblin }), None];
    let players = vec![Some(Player {}), None, None];
    DamageSystem {}.run(&mut queued, &es, &mut combat, &mut suffer, &positions, &mut blood, &monsters, &players, 0);
    assert_eq!(combat[0].unwrap().hp, 7);
    assert_eq!(combat[1].unwrap().hp, -2);
    assert_eq!(combat[2].unwrap().hp, 4);
    assert!(suffer.iter().all(|x| x.is_none()));
    assert_eq!(queued, None);
    assert_eq!(blood.requests.len(), 2);
    assert_eq!((blood.requests[0].idx, blood.requests[0].level, blood.requests[0].glyph), (11, 1, 177));
    assert_eq!(blood.requests[1].idx, 12);
    assert_eq!(blood.requests[0].fg, Color::Hundredths(85, 0, 0));
}

#[test]
fn an_unhurt_player_keeps_the_queued_action() {
    let es = entities(2);
    let mut queued = Some(InteractionType::Move(9));
    let mut combat = vec![stats(10, 1, 1), stats(5, 1, 1)];
    let mut suffer = vec![None, Some(SufferDamage { amount: 1 })];
    let positions = vec![Some(Position { idx: 1, level: 0 }), Some(Position { idx: 2, level: 0 })];
    let mut blood = BloodSpawner::new();
    let monsters: Vec<Option<Monster>> = vec![None, None];
    let players = vec![Some(Player {}), None];
    DamageSystem {}.run(&mut queued, &es, &mut combat, &mut suffer, &positions, &mut blood, &monsters, &players, 0);
    assert_eq!(queued, Some(InteractionType::Move(9)));
    assert!(blood.requests.is_empty());
    assert_eq!(combat[1].unwrap().hp, 4);
}

fn white() -> Renderable {
    Renderable { fg: Color::Named(NamedColor::White), bg: Color::Named(NamedColor::Black), glyph: 1, layer: 1 }
}

#[test]
fn the_dead_leave_corpses_and_debris() {
    // 0: player, 1: a dead goblin carrying item 4, 2: a broken chest holding item 3, 3 and 4: items,
    // 5: someone hiding in the chest
    let mut es = entities(6);
    let combat = vec![stats(0, 1, 1), stats(0, 1, 1), stats(-1, 0, 0), None, None, None];
    let monsters = vec![None, Some(Monster { species: MonsterSpecies::Goblin }), None, None, None, None];
    let renderables = vec![Some(white()), Some(white()), Some(white()), None, None, None];
    let mut positions = vec![
        Some(Position { idx: 0, level: 0 }),
        Some(Position { idx: 6, level: 0 }),
        Some(Position { idx: 7, level: 0 }),
        None,
        None,
        Some(Position { idx: 7, level: 0 }),
    ];
    let names = vec![name("Player"), name("goblin"), name("Chest"), name("Coin"), name("Dagger"), name("Rat")];
    let containers = vec![None, None, Some(Container { items: vec![3] }), None, None, None];
    let mut log = GameLog::new();
    let mut debris = DebrisSpawner::new();
    let mut corpses = CorpseSpawner::new();
    let inventory = vec![None, Some(Inventory { items: vec![4] }), None, None, None, None];
    let equipment = vec![None, Some(Equipment { dominant_hand: Some(4), off_hand: None }), None, None, None, None];
    let descriptions = vec![None, Some("slain".to_string()), None, None, None, None];
    let viewsheds = vec![Some(Viewshed { visible_tiles: vec![6], range: 8, dirty: false }), None, None, None, None, None];
    let mut hiding = vec![None, None, None, None, None, Some(Hiding { hiding_spot: Some(2) })];
    DamageSystem::delete_the_dead(
        &mut es, &combat, &monsters, &renderables, &mut positions, &names, &containers, &mut log, &mut debris,
        &mut corpses, &inventory, &equipment, 0, &descriptions, &viewsheds, &mut hiding,
    );
    assert!(es.is_alive(0));
    assert!(!es.is_alive(1));
    assert!(!es.is_alive(2));
    assert!(es.is_alive(3));
    assert_eq!(log.entries, vec!["goblin has died".to_string()]);
    assert_eq!(corpses.requests.len(), 1);
    assert_eq!(corpses.requests[0].name, "goblin corpse, slain");
    assert_eq!(corpses.requests[0].items, vec![4]);
    assert_eq!(corpses.requests[0].idx, 6);
    assert_eq!(debris.requests.len(), 1);
    assert_eq!(debris.requests[0].name, "Chest debris");
    assert_eq!(debris.requests[0].idx, 7);
    assert_eq!(positions[3], Some(Position { idx: 7, level: 0 }));
    assert!(hiding[5].is_none());
}
