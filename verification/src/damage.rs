use vstd::prelude::*;
use crate::color::Color;
use crate::components::{
    CombatStats, Container, Equipment, Hiding, Inventory, Monster, MonsterSpecies, Name, Player,
    Position, Renderable, SufferDamage, Viewshed,
};
use crate::ecs::{alive, comp, get, get_ref, lookup, present, put, stored, Entities, Entity};
use crate::game_log::GameLog;
use crate::interaction::InteractionType;
use crate::services::{
    spec_goblin_corpse, BloodSpawner, BloodSpawnerRequest, CorpseRequestView, CorpseSpawner,
    DebrisRequestView, DebrisSpawner,
};
use crate::text::join_text;

verus! {

/// The splatter left where a creature is hurt: dark red, glyph 177.
pub open spec fn blood_at(p: Position) -> BloodSpawnerRequest {
    BloodSpawnerRequest {
        idx: p.idx,
        fg: Color::Hundredths(85, 0, 0),
        bg: Color::Hundredths(50, 0, 0),
        glyph: 177,
        level: p.level,
    }
}

/// Whether entity `e` takes its queued damage: it exists and has stats and queued damage.
pub open spec fn takes_damage(alive_set: Seq<bool>, stats: Seq<Option<CombatStats>>, suffer: Seq<Option<SufferDamage>>, e: int) -> bool {
    alive(alive_set, e) && present(stats, e) && present(suffer, e)
}

/// The splatters for entities `0..k` that take damage and are monsters or the player.
pub open spec fn blood_fold(
    alive_set: Seq<bool>,
    stats: Seq<Option<CombatStats>>,
    suffer: Seq<Option<SufferDamage>>,
    positions: Seq<Option<Position>>,
    monsters: Seq<Option<Monster>>,
    players: Seq<Option<Player>>,
    k: int,
) -> Seq<BloodSpawnerRequest>
    decreases k,
{
    if k <= 0 {
        Seq::empty()
    } else {
        let prev = blood_fold(alive_set, stats, suffer, positions, monsters, players, k - 1);
        let e = k - 1;
        if takes_damage(alive_set, stats, suffer, e) && (present(monsters, e) || present(players, e)) {
            prev.push(blood_at(comp(positions, e)))
        } else {
            prev
        }
    }
}

/// Takes queued damage off hit points, leaves blood under hurt creatures, and cancels the
/// player's queued action when the player is hurt.
pub struct DamageSystem {}

impl DamageSystem {
    /// Every existing entity with stats and queued damage loses that much hp; monsters and the
    /// player among them bleed on their tile, in entity order; if the player is hurt the queued
    /// action is dropped. Afterwards no damage is queued.
    pub fn run(
        &mut self,
        queued_action: &mut Option<InteractionType>,
        entities: &Entities,
        stats: &mut Vec<Option<CombatStats>>,
        suffer_damage: &mut Vec<Option<SufferDamage>>,
        positions: &Vec<Option<Position>>,
        blood_spawner: &mut BloodSpawner,
        monsters: &Vec<Option<Monster>>,
        players: &Vec<Option<Player>>,
        player_ent: Entity,
    )
        requires
            forall|e: int| takes_damage(entities.alive@, old(stats)@, old(suffer_damage)@, e) ==> {
                &&& i32::MIN <= #[trigger] comp(old(stats)@, e).hp - comp(old(suffer_damage)@, e).amount <= i32::MAX
                &&& (present(monsters@, e) || present(players@, e)) ==> present(positions@, e)
            },
        ensures
            forall|e: int| #[trigger] lookup(final(stats)@, e) == (if takes_damage(entities.alive@, old(stats)@, old(suffer_damage)@, e) {
                Some(CombatStats {
                    hp: (comp(old(stats)@, e).hp - comp(old(suffer_damage)@, e).amount) as i32,
                    ..comp(old(stats)@, e)
                })
            } else {
                lookup(old(stats)@, e)
            }),
            final(blood_spawner).requests@ == old(blood_spawner).requests@ + blood_fold(entities.alive@, old(stats)@,
                old(suffer_damage)@, positions@, monsters@, players@, entities.alive@.len() as int),
            *final(queued_action) == (if takes_damage(entities.alive@, old(stats)@, old(suffer_damage)@, player_ent as int) {
                None
            } else {
                *old(queued_action)
            }),
            forall|e: int| !present(final(suffer_damage)@, e),
    {
        let ghost stats0 = stats@;
        let ghost suffer0 = suffer_damage@;
        let n = entities.alive.len();
        let mut e: usize = 0;
        while e < n
            invariant
                n == entities.alive@.len(),
                e <= n,
                suffer_damage@ == suffer0,
                forall|i: int| takes_damage(entities.alive@, stats0, suffer0, i) ==> {
                    &&& i32::MIN <= #[trigger] comp(stats0, i).hp - comp(suffer0, i).amount <= i32::MAX
                    &&& (present(monsters@, i) || present(players@, i)) ==> present(positions@, i)
                },
                forall|i: int| #[trigger] lookup(stats@, i) == (if 0 <= i < e && takes_damage(entities.alive@, stats0, suffer0, i) {
                    Some(CombatStats { hp: (comp(stats0, i).hp - comp(suffer0, i).amount) as i32, ..comp(stats0, i) })
                } else {
                    lookup(stats0, i)
                }),
                blood_spawner.requests@ == old(blood_spawner).requests@ + blood_fold(entities.alive@, stats0, suffer0,
                    positions@, monsters@, players@, e as int),
                *queued_action == (if 0 <= player_ent < e && takes_damage(entities.alive@, stats0, suffer0, player_ent as int) {
                    None
                } else {
                    *old(queued_action)
                }),
            decreases n - e,
        {
            if entities.is_alive(e) {
                match (get(stats, e), get(suffer_damage, e)) {
                    (Some(s), Some(d)) => {
                        assert(s == comp(stats0, e as int) && d == comp(suffer0, e as int));
                        put(stats, e, Some(CombatStats { hp: s.hp - d.amount, ..s }));
                        if contains(monsters, e) || contains(players, e) {
                            let position = get(positions, e).unwrap();
                            blood_spawner.request(position.idx, Color::Hundredths(85, 0, 0), Color::Hundredths(50, 0, 0), 177, position.level);
                        }
                        if e == player_ent {
                            *queued_action = None;
                        }
                    },
                    _ => {},
                }
            }
            proof {
                assert(blood_spawner.requests@ =~= old(blood_spawner).requests@ + blood_fold(entities.alive@, stats0, suffer0,
                    positions@, monsters@, players@, e + 1));
            }
            e += 1;
        }
        crate::ecs::clear(suffer_damage);
    }
}

use crate::ecs::contains;

/// Whether `h` exists and hides in one of the `dead`.
pub open spec fn exposed(alive_set: Seq<bool>, hiding: Seq<Option<Hiding>>, dead: Seq<Entity>, h: int) -> bool {
    &&& alive(alive_set, h)
    &&& present(hiding, h)
    &&& match comp(hiding, h).hiding_spot {
        Some(s) => dead.contains(s),
        None => false,
    }
}

/// Whether entity `i` appears in `s`.
pub open spec fn listed(s: Seq<Entity>, i: int) -> bool {
    exists|j: int| 0 <= j < s.len() && s[j] as int == i
}

proof fn lemma_listed_push(s: Seq<Entity>, x: Entity)
    ensures
        forall|i: int| #[trigger] listed(s.push(x), i) == (listed(s, i) || i == x as int),
{
    assert forall|i: int| #[trigger] listed(s.push(x), i) == (listed(s, i) || i == x as int) by {
        let t = s.push(x);
        if listed(s, i) {
            let j = choose|j: int| 0 <= j < s.len() && s[j] as int == i;
            assert(t[j] as int == i);
        }
        if i == x as int {
            assert(t[s.len() as int] as int == i);
        }
        if listed(t, i) && i != x as int {
            let j = choose|j: int| 0 <= j < t.len() && t[j] as int == i;
            assert(j < s.len());
            assert(s[j] as int == i);
        }
    }
}

/// `s` with `h` added when `h` is an entity not yet in it.
pub open spec fn add_item(s: Seq<Entity>, h: Option<Entity>) -> Seq<Entity> {
    match h {
        Some(x) => if s.contains(x) { s } else { s.push(x) },
        None => s,
    }
}

/// The storages `delete_the_dead` reads without changing them.
pub struct DeathInputs {
    pub alive: Seq<bool>,
    pub stats: Seq<Option<CombatStats>>,
    pub monsters: Seq<Option<Monster>>,
    pub renderables: Seq<Option<Renderable>>,
    pub names: Seq<Option<Name>>,
    pub containers: Seq<Option<Container>>,
    pub inventory: Seq<Option<Inventory>>,
    pub equipment: Seq<Option<Equipment>>,
    pub player: Entity,
    pub descriptions: Seq<Option<String>>,
    pub player_sees: Seq<usize>,
}

/// What `delete_the_dead` builds up: positions, log, debris, corpses and the dead so far.
pub struct DeathView {
    pub positions: Seq<Option<Position>>,
    pub log: Seq<Seq<char>>,
    pub debris: Seq<DebrisRequestView>,
    pub corpses: Seq<CorpseRequestView>,
    pub dead: Seq<Entity>,
}

/// Whether entity `e` dies now: it exists, is not the player, has a name, stats and a look, and
/// has no hit points left.
pub open spec fn dies(inp: DeathInputs, e: int) -> bool {
    &&& alive(inp.alive, e)
    &&& present(inp.stats, e)
    &&& present(inp.names, e)
    &&& present(inp.renderables, e)
    &&& e != inp.player
    &&& comp(inp.stats, e).hp < 1
}

/// What a dead monster's corpse holds: its inventory, then what it held in either hand.
pub open spec fn corpse_items(inp: DeathInputs, e: int) -> Seq<Entity> {
    let inv = comp(inp.inventory, e).items@;
    match lookup(inp.equipment, e) {
        Some(q) => add_item(add_item(inv, q.dominant_hand), q.off_hand),
        None => inv,
    }
}

/// The positions after the first `k` of `items` are put at `pos`.
pub open spec fn place_items(positions: Seq<Option<Position>>, items: Seq<Entity>, pos: Position, k: int) -> Seq<Option<Position>>
    decreases k,
{
    if k <= 0 {
        positions
    } else {
        stored(place_items(positions, items, pos, k - 1), items[k - 1] as int, Some(pos))
    }
}

/// The death of entity `e`, if it dies: a monster leaves a goblin corpse holding its belongings
/// and "<name> has died" is logged if the player sees its tile; anything else leaves burning
/// debris named "<name> debris", "<name> has been destroyed" is logged if seen, and what it
/// contained is put on its tile.
pub open spec fn death_step(inp: DeathInputs, v: DeathView, e: int) -> DeathView {
    if !dies(inp, e) {
        v
    } else {
        let pos = comp(v.positions, e);
        let visible = inp.player_sees.contains(pos.idx);
        let name = comp(inp.names, e).name@;
        if present(inp.monsters, e) {
            DeathView {
                corpses: v.corpses.push(spec_goblin_corpse(pos.idx, pos.level, comp(inp.descriptions, e)@, corpse_items(inp, e))),
                log: if visible { seq![name + " has died"@] + v.log } else { v.log },
                dead: v.dead.push(e as Entity),
                ..v
            }
        } else {
            let r = comp(inp.renderables, e);
            DeathView {
                debris: v.debris.push(DebrisRequestView {
                    idx: pos.idx,
                    fg: r.fg,
                    bg: r.bg,
                    glyph: 35,
                    level: pos.level,
                    name: name + " debris"@,
                    flammable: true,
                }),
                log: if visible { seq![name + " has been destroyed"@] + v.log } else { v.log },
                positions: if present(inp.containers, e) {
                    place_items(v.positions, comp(inp.containers, e).items@, pos, comp(inp.containers, e).items@.len() as int)
                } else {
                    v.positions
                },
                dead: v.dead.push(e as Entity),
                ..v
            }
        }
    }
}

/// The deaths of entities `0..k`, in entity order.
pub open spec fn death_fold(inp: DeathInputs, v: DeathView, k: int) -> DeathView
    decreases k,
{
    if k <= 0 { v } else { death_step(inp, death_fold(inp, v, k - 1), k - 1) }
}

proof fn lemma_place_items_keeps(positions: Seq<Option<Position>>, items: Seq<Entity>, pos: Position, k: int)
    requires
        0 <= k <= items.len(),
    ensures
        forall|i: int| present(positions, i) ==> present(#[trigger] place_items(positions, items, pos, k), i),
    decreases k,
{
    if k > 0 {
        lemma_place_items_keeps(positions, items, pos, k - 1);
        crate::ecs::lemma_stored_lookup(place_items(positions, items, pos, k - 1), items[k - 1] as int, Some(pos));
    }
}

proof fn lemma_death_fold_keeps(inp: DeathInputs, v: DeathView, k: int)
    requires
        forall|e: int| #[trigger] dies(inp, e) && present(inp.containers, e) ==> comp(inp.containers, e).items@.len() >= 0,
    ensures
        forall|i: int| present(v.positions, i) ==> present(#[trigger] death_fold(inp, v, k).positions, i),
    decreases k,
{
    if k > 0 {
        lemma_death_fold_keeps(inp, v, k - 1);
        let w = death_fold(inp, v, k - 1);
        if dies(inp, k - 1) && !present(inp.monsters, k - 1) && present(inp.containers, k - 1) {
            let pos = comp(w.positions, k - 1);
            let items = comp(inp.containers, k - 1).items@;
            lemma_place_items_keeps(w.positions, items, pos, items.len() as int);
        }
    }
}

/// What `delete_the_dead` needs: the player's view, and for each entity that dies a position,
/// for a monster its belongings and how it died, for a container that its contents exist.
pub open spec fn death_ready(inp: DeathInputs, positions: Seq<Option<Position>>) -> bool {
    forall|e: int| #[trigger] dies(inp, e) ==> {
        &&& present(positions, e)
        &&& present(inp.monsters, e) ==> present(inp.inventory, e) && present(inp.descriptions, e)
        &&& !present(inp.monsters, e) && present(inp.containers, e) ==>
            forall|j: int| 0 <= j < comp(inp.containers, e).items@.len() ==> alive(inp.alive, #[trigger] comp(inp.containers, e).items@[j] as int)
    }
}

fn add_item_exec(items: &mut Vec<Entity>, h: Option<Entity>)
    ensures
        final(items)@ == add_item(old(items)@, h),
{
    match h {
        Some(x) => {
            if !contains_entity(items, x) {
                items.push(x);
            }
        },
        None => {},
    }
}

pub(crate) fn copy_entities(v: &Vec<Entity>) -> (r: Vec<Entity>)
    ensures
        r@ == v@,
{
    let mut r: Vec<Entity> = Vec::new();
    let mut i: usize = 0;
    while i < v.len()
        invariant
            i <= v@.len(),
            r@ == v@.subrange(0, i as int),
        decreases v@.len() - i,
    {
        r.push(v[i]);
        i += 1;
    }
    assert(r@ =~= v@);
    r
}

pub(crate) fn contains_entity(v: &Vec<Entity>, x: Entity) -> (r: bool)
    ensures
        r == v@.contains(x),
{
    let mut i: usize = 0;
    while i < v.len()
        invariant
            i <= v@.len(),
            forall|j: int| 0 <= j < i ==> v@[j] != x,
        decreases v@.len() - i,
    {
        if v[i] == x {
            return true;
        }
        i += 1;
    }
    false
}

impl DamageSystem {
    /// Removes every entity that has run out of hit points, except the player: the deaths are
    /// `death_fold` over all entities in order. Afterwards whoever hid in one of the dead stops
    /// hiding, and the dead no longer exist.
    pub fn delete_the_dead(
        entities: &mut Entities,
        combat_stats: &Vec<Option<CombatStats>>,
        monsters: &Vec<Option<Monster>>,
        renderables: &Vec<Option<Renderable>>,
        positions: &mut Vec<Option<Position>>,
        names: &Vec<Option<Name>>,
        containers: &Vec<Option<Container>>,
        log: &mut GameLog,
        debris_spawner: &mut DebrisSpawner,
        corpse_spawner: &mut CorpseSpawner,
        inventory: &Vec<Option<Inventory>>,
        equipment: &Vec<Option<Equipment>>,
        player_entity: Entity,
        death_descriptions: &Vec<Option<String>>,
        viewsheds: &Vec<Option<Viewshed>>,
        hiding: &mut Vec<Option<Hiding>>,
    )
        requires
            present(viewsheds@, player_entity as int),
            death_ready(
                DeathInputs {
                    alive: old(entities).alive@,
                    stats: combat_stats@,
                    monsters: monsters@,
                    renderables: renderables@,
                    names: names@,
                    containers: containers@,
                    inventory: inventory@,
                    equipment: equipment@,
                    player: player_entity,
                    descriptions: death_descriptions@,
                    player_sees: comp(viewsheds@, player_entity as int).visible_tiles@,
                },
                old(positions)@,
            ),
        ensures
            ({
                let inp = DeathInputs {
                    alive: old(entities).alive@,
                    stats: combat_stats@,
                    monsters: monsters@,
                    renderables: renderables@,
                    names: names@,
                    containers: containers@,
                    inventory: inventory@,
                    equipment: equipment@,
                    player: player_entity,
                    descriptions: death_descriptions@,
                    player_sees: comp(viewsheds@, player_entity as int).visible_tiles@,
                };
                let out = death_fold(
                    inp,
                    DeathView {
                        positions: old(positions)@,
                        log: old(log).entries.deep_view(),
                        debris: old(debris_spawner).requests.deep_view(),
                        corpses: old(corpse_spawner).requests.deep_view(),
                        dead: Seq::empty(),
                    },
                    old(entities).alive@.len() as int,
                );
                &&& final(positions)@ == out.positions
                &&& final(log).entries.deep_view() == out.log
                &&& final(debris_spawner).requests.deep_view() == out.debris
                &&& final(corpse_spawner).requests.deep_view() == out.corpses
                &&& forall|i: int| #[trigger] alive(final(entities).alive@, i) == (alive(old(entities).alive@, i) && !listed(out.dead, i))
                &&& final(entities).alive@.len() == old(entities).alive@.len()
                &&& forall|h: int| #[trigger] lookup(final(hiding)@, h) == (
                    if exposed(old(entities).alive@, old(hiding)@, out.dead, h) {
                        None
                    } else {
                        lookup(old(hiding)@, h)
                    })
            }),
    {
        let ghost inp = DeathInputs {
            alive: entities.alive@,
            stats: combat_stats@,
            monsters: monsters@,
            renderables: renderables@,
            names: names@,
            containers: containers@,
            inventory: inventory@,
            equipment: equipment@,
            player: player_entity,
            descriptions: death_descriptions@,
            player_sees: comp(viewsheds@, player_entity as int).visible_tiles@,
        };
        let ghost v0 = DeathView {
            positions: positions@,
            log: log.entries.deep_view(),
            debris: debris_spawner.requests.deep_view(),
            corpses: corpse_spawner.requests.deep_view(),
            dead: Seq::empty(),
        };
        let player_viewshed = get_ref(viewsheds, player_entity).unwrap();
        let mut dead: Vec<Entity> = Vec::new();
        let n = entities.alive.len();
        let mut e: usize = 0;
        while e < n
            invariant
                n == entities.alive@.len(),
                e <= n,
                entities.alive@ == inp.alive,
                inp.player_sees == player_viewshed.visible_tiles@,
                inp == (DeathInputs {
                    alive: entities.alive@,
                    stats: combat_stats@,
                    monsters: monsters@,
                    renderables: renderables@,
                    names: names@,
                    containers: containers@,
                    inventory: inventory@,
                    equipment: equipment@,
                    player: player_entity,
                    descriptions: death_descriptions@,
                    player_sees: inp.player_sees,
                }),
                death_ready(inp, v0.positions),
                forall|i: int| present(v0.positions, i) ==> present(#[trigger] positions@, i),
                (DeathView {
                    positions: positions@,
                    log: log.entries.deep_view(),
                    debris: debris_spawner.requests.deep_view(),
                    corpses: corpse_spawner.requests.deep_view(),
                    dead: dead@,
                }) == death_fold(inp, v0, e as int),
            decreases n - e,
        {
            proof { lemma_death_fold_keeps(inp, v0, e as int); }
            let dying = entities.is_alive(e) && e != player_entity && contains(combat_stats, e)
                && contains(names, e) && contains(renderables, e);
            if dying && get(combat_stats, e).unwrap().hp < 1 {
                assert(dies(inp, e as int));
                let position = get(positions, e).unwrap();
                let visible = contains_index(&player_viewshed.visible_tiles, position.idx);
                let name = &get_ref(names, e).unwrap().name;
                if contains(monsters, e) {
                    let monster = get(monsters, e).unwrap();
                    let mut items = copy_entities(&get_ref(inventory, e).unwrap().items);
                    match get(equipment, e) {
                        Some(q) => {
                            add_item_exec(&mut items, q.dominant_hand);
                            add_item_exec(&mut items, q.off_hand);
                        },
                        None => {},
                    }
                    match monster.species {
                        MonsterSpecies::Goblin => {
                            let description = get_ref(death_descriptions, e).unwrap().clone();
                            corpse_spawner.request_goblin_corpse(position.idx, position.level, description, items);
                        },
                    }
                    if visible {
                        log.add(join_text(name.as_str(), " has died"));
                    }
                } else {
                    let renderable = get(renderables, e).unwrap();
                    debris_spawner.request(position.idx, renderable.fg, renderable.bg, 35, position.level,
                        join_text(name.as_str(), " debris"), true);
                    if visible {
                        log.add(join_text(name.as_str(), " has been destroyed"));
                    }
                    match get_ref(containers, e) {
                        Some(container) => {
                            let ghost p0 = positions@;
                            let mut j: usize = 0;
                            while j < container.items.len()
                                invariant
                                    j <= container.items@.len(),
                                    positions@ == place_items(p0, container.items@, position, j as int),
                                decreases container.items@.len() - j,
                            {
                                put(positions, container.items[j], Some(position));
                                j += 1;
                            }
                        },
                        None => {},
                    }
                }
                dead.push(e);
            }
            proof { lemma_death_fold_keeps(inp, v0, e + 1); }
            e += 1;
        }
        let ghost dead_all = dead@;
        let ghost hiding0 = hiding@;
        let hn = hiding.len();
        let mut h: usize = 0;
        while h < hn
            invariant
                hn == hiding0.len(),
                h <= hn,
                dead@ == dead_all,
                entities.alive@ == inp.alive,
                hiding@.len() == hiding0.len(),
                forall|i: int| #[trigger] lookup(hiding@, i) == (
                    if 0 <= i < h && exposed(inp.alive, hiding0, dead_all, i) {
                        None
                    } else {
                        lookup(hiding0, i)
                    }),
            decreases hn - h,
        {
            if entities.is_alive(h) {
                match get(hiding, h) {
                    Some(hd) => {
                        match hd.hiding_spot {
                            Some(s) => {
                                if contains_entity(&dead, s) {
                                    put(hiding, h, None);
                                }
                            },
                            None => {},
                        }
                    },
                    None => {},
                }
            }
            h += 1;
        }
        let mut k: usize = 0;
        while k < dead.len()
            invariant
                k <= dead@.len(),
                entities.alive@.len() == inp.alive.len(),
                forall|i: int| #[trigger] alive(entities.alive@, i) == (alive(inp.alive, i) && !listed(dead@.subrange(0, k as int), i)),
            decreases dead@.len() - k,
        {
            let ghost before = entities.alive@;
            entities.delete(dead[k]);
            proof {
                assert(dead@.subrange(0, k + 1) =~= dead@.subrange(0, k as int).push(dead@[k as int]));
                lemma_listed_push(dead@.subrange(0, k as int), dead@[k as int]);
                assert forall|i: int| #[trigger] alive(entities.alive@, i) == (alive(inp.alive, i) && !listed(dead@.subrange(0, k + 1), i)) by {
                    assert(alive(before, i) == (alive(inp.alive, i) && !listed(dead@.subrange(0, k as int), i)));
                }
            }
            k += 1;
        }
        assert(dead@.subrange(0, dead@.len() as int) =~= dead@);
        assert(positions@ == death_fold(inp, v0, n as int).positions);
        assert(dead@ == death_fold(inp, v0, n as int).dead);
        assert(forall|i: int| #[trigger] lookup(hiding@, i) == (if exposed(inp.alive, hiding0, dead_all, i) { None } else { lookup(hiding0, i) }));
    }
}

fn contains_index(v: &Vec<usize>, x: usize) -> (r: bool)
    ensures
        r == v@.contains(x),
{
    let mut i: usize = 0;
    while i < v.len()
        invariant
            i <= v@.len(),
            forall|j: int| 0 <= j < i ==> v@[j] != x,
        decreases v@.len() - i,
    {
        if v[i] == x {
            return true;
        }
        i += 1;
    }
    false
}

} // verus!
