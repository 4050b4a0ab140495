use vstd::prelude::*;
use crate::combat::{
    attacks, dominant_weapon, melee_step, off_weapon, spec_hand_damage, target_of, AttackRolls, MeleeInputs, MeleeView,
    WeaponView,
};
use crate::components::{CausesLight, Equipment, Position, SufferDamage};
use crate::damage::{add_item, corpse_items, death_step, dies, DeathInputs, DeathView};
use crate::ecs::{alive, comp, lemma_stored_lookup, lookup, present, Entity};
use crate::level::Level;
use crate::run_state::{spec_map_need, MapAction, MapNeed};
use crate::systems::fire_spread::{around, neighbors};
use crate::systems::light_system::{carries_light, carried_radius, cell, hand_light, lit_by, lit_by_carried, lit_by_lamps, sq_dist};

verus! {

// ---------------------------------------------------------------------------------------------
// Light

/// Whether the item in hand `h` is a burning light source.
pub open spec fn burning_light(causes_light: Seq<Option<CausesLight>>, h: Option<Entity>) -> bool {
    h matches Some(i) && present(causes_light, i as int) && comp(causes_light, i as int).lit
}

/// A held item gives light only while it burns, and then exactly its own radius; an empty hand
/// gives none.
pub proof fn law_held_light_needs_flame(causes_light: Seq<Option<CausesLight>>, h: Option<Entity>)
    ensures
        !burning_light(causes_light, h) ==> hand_light(causes_light, h) == 0,
        burning_light(causes_light, h) ==> hand_light(causes_light, h) == comp(causes_light, h->0 as int).radius,
{
}

/// A light of radius zero or less lights no tile at all.
pub proof fn law_no_radius_no_light(width: int, count: int, pos: int, r: int, t: int)
    requires
        r <= 0,
    ensures
        !lit_by(width, count, pos, r, t),
{
    if lit_by(width, count, pos, r, t) {
        let (a, b) = choose|a: int, b: int| #[trigger] cell(width, count, pos, r, a, b, t);
        assert(r == 0 && a == 0 && b == 0);
        assert(b * width == 0) by (nonlinear_arith)
            requires
                b == 0;
        assert(t == pos);
        assert(sq_dist(width, t, pos) == 0) by (nonlinear_arith)
            requires
                t == pos;
        assert(r * r == 0) by (nonlinear_arith)
            requires
                r == 0;
    }
}

/// Carried light comes only from burning lights: when no equipped entity among `0..k` holds a
/// burning light in either hand, no tile of any level is lit by carried light, whatever the
/// unlit torches they hold.
pub proof fn law_unlit_hands_light_nothing(
    levels: Seq<Level>,
    equipment: Seq<Option<Equipment>>,
    causes_light: Seq<Option<CausesLight>>,
    positions: Seq<Option<Position>>,
    l: int,
    t: int,
    k: int,
)
    requires
        forall|e: int| 0 <= e < k && #[trigger] carries_light(equipment, positions, e) ==> {
            &&& !burning_light(causes_light, comp(equipment, e).dominant_hand)
            &&& !burning_light(causes_light, comp(equipment, e).off_hand)
        },
    ensures
        !lit_by_carried(levels, equipment, causes_light, positions, l, t, k),
    decreases k,
{
    if k > 0 {
        law_unlit_hands_light_nothing(levels, equipment, causes_light, positions, l, t, k - 1);
        if carries_light(equipment, positions, k - 1) {
            let eq = comp(equipment, k - 1);
            law_held_light_needs_flame(causes_light, eq.dominant_hand);
            law_held_light_needs_flame(causes_light, eq.off_hand);
            assert(carried_radius(equipment, causes_light, k - 1) == 0);
            let p = comp(positions, k - 1);
            law_no_radius_no_light(levels[l].width as int, levels[l].lit_tiles@.len() as int, p.idx as int, 0, t);
        }
    }
}

/// An entity carries the light of the brighter of its two hands, counting only burning lights.
pub proof fn law_carried_light_is_the_brighter_hand(
    equipment: Seq<Option<Equipment>>,
    causes_light: Seq<Option<CausesLight>>,
    e: int,
)
    ensures
        ({
            let q = comp(equipment, e);
            let d = if burning_light(causes_light, q.dominant_hand) { comp(causes_light, q.dominant_hand->0 as int).radius as int } else { 0 };
            let o = if burning_light(causes_light, q.off_hand) { comp(causes_light, q.off_hand->0 as int).radius as int } else { 0 };
            &&& carried_radius(equipment, causes_light, e) >= d
            &&& carried_radius(equipment, causes_light, e) >= o
            &&& (carried_radius(equipment, causes_light, e) == d || carried_radius(equipment, causes_light, e) == o)
        }),
{
    let q = comp(equipment, e);
    law_held_light_needs_flame(causes_light, q.dominant_hand);
    law_held_light_needs_flame(causes_light, q.off_hand);
}

/// Lying light sources light tiles only while they burn: when none of the entities `0..k` is a
/// burning light source, no tile is lit by a lamp.
pub proof fn law_unlit_lamps_light_nothing(
    levels: Seq<Level>,
    causes_light: Seq<Option<CausesLight>>,
    positions: Seq<Option<Position>>,
    l: int,
    t: int,
    k: int,
)
    requires
        forall|e: int| 0 <= e < k && #[trigger] present(causes_light, e) ==> !comp(causes_light, e).lit,
    ensures
        !lit_by_lamps(levels, causes_light, positions, l, t, k),
    decreases k,
{
    if k > 0 {
        law_unlit_lamps_light_nothing(levels, causes_light, positions, l, t, k - 1);
        if present(causes_light, k - 1) {
            assert(!comp(causes_light, k - 1).lit);
        }
    }
}

// ---------------------------------------------------------------------------------------------
// Melee

/// A blow does what the weapon's roll, its bonus and the attacker's power beat the target's
/// defence by, and nothing when they do not beat it; bare-handed, what the power beats it by.
pub proof fn law_blow_beats_defence(w: Option<WeaponView>, roll: int, power: int, defense: int)
    ensures
        w matches Some(x) ==> spec_hand_damage(w, roll, power, defense)
            == (if roll + x.bonus + power - defense > 0 { roll + x.bonus + power - defense } else { 0 }),
        w is None ==> spec_hand_damage(w, roll, power, defense) == (if power - defense > 0 { power - defense } else { 0 }),
{
}

/// The damage queued against `t`, none counting as zero.
pub open spec fn queued_amount(s: Seq<Option<SufferDamage>>, t: int) -> int {
    if present(s, t) { comp(s, t).amount as int } else { 0 }
}

/// What `e`'s dominant hand deals with roll `roll`: the weapon's (or fist's) damage against the
/// target's defence.
pub open spec fn dominant_blow(inp: MeleeInputs, e: int, roll: int) -> int {
    spec_hand_damage(dominant_weapon(inp, e), roll, comp(inp.stats, e).power as int,
        comp(inp.stats, target_of(inp, e)).defense as int)
}

/// What `e`'s off hand deals with roll `roll`: the weapon's damage, or nothing with no weapon there.
pub open spec fn off_blow(inp: MeleeInputs, e: int, roll: int) -> int {
    match off_weapon(inp, e) {
        Some(w) => spec_hand_damage(Some(w), roll, comp(inp.stats, e).power as int,
            comp(inp.stats, target_of(inp, e)).defense as int),
        None => 0,
    }
}

/// An attack queues on its target exactly what both hands deal together, on top of what was
/// queued there already, and changes no other entity's queued damage.
pub proof fn law_attack_queues_both_hands(inp: MeleeInputs, v: MeleeView, e: int, r: AttackRolls)
    requires
        attacks(inp, e),
        alive(inp.alive, target_of(inp, e)) || present(v.suffer, target_of(inp, e)),
        i32::MIN <= queued_amount(v.suffer, target_of(inp, e)) + dominant_blow(inp, e, r.dominant_roll)
            + off_blow(inp, e, r.off_roll) <= i32::MAX,
    ensures
        queued_amount(melee_step(inp, v, e, r).suffer, target_of(inp, e))
            == queued_amount(v.suffer, target_of(inp, e)) + dominant_blow(inp, e, r.dominant_roll) + off_blow(inp, e, r.off_roll),
        forall|x: int| x != target_of(inp, e) ==> #[trigger] lookup(melee_step(inp, v, e, r).suffer, x) == lookup(v.suffer, x),
{
    let t = target_of(inp, e);
    let d1 = dominant_blow(inp, e, r.dominant_roll);
    let d2 = off_blow(inp, e, r.off_roll);
    assert(d1 >= 0 && d2 >= 0);
    let after = melee_step(inp, v, e, r).suffer;
    if d1 + d2 > 0 {
        assert(t >= 0) by {
            if !present(v.suffer, t) {
                assert(alive(inp.alive, t));
            }
        }
        match lookup(v.suffer, t) {
            Some(d) => {
                lemma_stored_lookup(v.suffer, t, Some(SufferDamage { amount: (d.amount + d1 + d2) as i32 }));
            },
            None => {
                lemma_stored_lookup(v.suffer, t, Some(SufferDamage { amount: (d1 + d2) as i32 }));
            },
        }
    } else {
        assert(after == v.suffer);
    }
}

// ---------------------------------------------------------------------------------------------
// Death

proof fn lemma_add_item_contains(s: Seq<Entity>, h: Option<Entity>, x: Entity)
    ensures
        add_item(s, h).contains(x) <==> (s.contains(x) || h == Some(x)),
{
    if let Some(y) = h {
        if !s.contains(y) {
            let t = s.push(y);
            if t.contains(x) && x != y {
                let j = choose|j: int| 0 <= j < t.len() && t[j] == x;
                assert(j < s.len() && s[j] == x);
            }
            if s.contains(x) {
                let j = choose|j: int| 0 <= j < s.len() && s[j] == x;
                assert(t[j] == x);
            }
            if x == y {
                assert(t[s.len() as int] == x);
            }
        }
    }
}

proof fn lemma_add_item_no_dup(s: Seq<Entity>, h: Option<Entity>)
    requires
        s.no_duplicates(),
    ensures
        add_item(s, h).no_duplicates(),
{
    if let Some(y) = h {
        if !s.contains(y) {
            let t = s.push(y);
            assert forall|i: int, j: int| 0 <= i < t.len() && 0 <= j < t.len() && i != j implies t[i] != t[j] by {
                if i < s.len() && j < s.len() {
                    assert(t[i] == s[i] && t[j] == s[j]);
                } else if i < s.len() {
                    assert(t[i] == s[i]);
                    assert(s.contains(s[i]));
                } else {
                    assert(t[j] == s[j]);
                    assert(s.contains(s[j]));
                }
            }
        }
    }
}

/// A dead monster leaves one corpse, and the corpse holds exactly the monster's belongings:
/// everything in its inventory and whatever it held in either hand, each belonging once when
/// the inventory lists each item once.
pub proof fn law_corpse_holds_all_belongings(inp: DeathInputs, v: DeathView, e: int)
    requires
        dies(inp, e),
        present(inp.monsters, e),
    ensures
        death_step(inp, v, e).corpses.len() == v.corpses.len() + 1,
        forall|x: Entity| #[trigger] death_step(inp, v, e).corpses.last().items.contains(x) <==> {
            ||| comp(inp.inventory, e).items@.contains(x)
            ||| lookup(inp.equipment, e) matches Some(q) && (q.dominant_hand == Some(x) || q.off_hand == Some(x))
        },
        comp(inp.inventory, e).items@.no_duplicates() ==> death_step(inp, v, e).corpses.last().items.no_duplicates(),
{
    let c = death_step(inp, v, e).corpses.last();
    assert(c.items == corpse_items(inp, e));
    if comp(inp.inventory, e).items@.no_duplicates() {
        let inv = comp(inp.inventory, e).items@;
        if let Some(q) = lookup(inp.equipment, e) {
            lemma_add_item_no_dup(inv, q.dominant_hand);
            lemma_add_item_no_dup(add_item(inv, q.dominant_hand), q.off_hand);
        }
    }
    assert forall|x: Entity| #[trigger] death_step(inp, v, e).corpses.last().items.contains(x) <==> {
        ||| comp(inp.inventory, e).items@.contains(x)
        ||| lookup(inp.equipment, e) matches Some(q) && (q.dominant_hand == Some(x) || q.off_hand == Some(x))
    } by {
        let inv = comp(inp.inventory, e).items@;
        match lookup(inp.equipment, e) {
            Some(q) => {
                lemma_add_item_contains(inv, q.dominant_hand, x);
                lemma_add_item_contains(add_item(inv, q.dominant_hand), q.off_hand, x);
            },
            None => {},
        }
    }
}

// ---------------------------------------------------------------------------------------------
// Moving

/// What a map action needs when it steps `dx` columns and `dy` rows.
pub open spec fn step_need(dx: i32, dy: i32) -> MapNeed {
    MapNeed::DefaultAction(dx, dy)
}

/// The map's move keys step to the neighbouring tile in their named direction: right is x + 1,
/// down is y + 1, left and up the opposite, and a diagonal is its two straight steps together;
/// the eight keys cover the eight neighbouring tiles, each exactly once, and no other key steps.
pub proof fn law_moves_step_in_their_direction()
    ensures
        spec_map_need(MapAction::MoveRight) == MapNeed::DefaultAction(1, 0),
        spec_map_need(MapAction::MoveDown) == MapNeed::DefaultAction(0, 1),
        spec_map_need(MapAction::MoveLeft) == MapNeed::DefaultAction(-1i32, 0),
        spec_map_need(MapAction::MoveUp) == MapNeed::DefaultAction(0, -1i32),
        spec_map_need(MapAction::MoveUpRight) == MapNeed::DefaultAction(1, -1i32),
        spec_map_need(MapAction::MoveUpLeft) == MapNeed::DefaultAction(-1i32, -1i32),
        spec_map_need(MapAction::MoveDownRight) == MapNeed::DefaultAction(1, 1),
        spec_map_need(MapAction::MoveDownLeft) == MapNeed::DefaultAction(-1i32, 1),
        forall|dx: i32, dy: i32| -1 <= dx <= 1 && -1 <= dy <= 1 && !(dx == 0 && dy == 0)
            ==> exists|a: MapAction| #[trigger] spec_map_need(a) == #[trigger] step_need(dx, dy),
        forall|a: MapAction, b: MapAction| #[trigger] spec_map_need(a) is DefaultAction
            && spec_map_need(a) == #[trigger] spec_map_need(b) ==> a == b,
        forall|a: MapAction| #[trigger] spec_map_need(a) matches MapNeed::DefaultAction(dx, dy)
            ==> -1 <= dx <= 1 && -1 <= dy <= 1 && !(dx == 0 && dy == 0),
{
    assert forall|dx: i32, dy: i32| -1 <= dx <= 1 && -1 <= dy <= 1 && !(dx == 0 && dy == 0)
        implies exists|a: MapAction| #[trigger] spec_map_need(a) == #[trigger] step_need(dx, dy) by {
        if dx == -1 && dy == -1 {
            assert(spec_map_need(MapAction::MoveUpLeft) == MapNeed::DefaultAction(dx, dy));
        } else if dx == 0 && dy == -1 {
            assert(spec_map_need(MapAction::MoveUp) == MapNeed::DefaultAction(dx, dy));
        } else if dx == 1 && dy == -1 {
            assert(spec_map_need(MapAction::MoveUpRight) == MapNeed::DefaultAction(dx, dy));
        } else if dx == -1 && dy == 0 {
            assert(spec_map_need(MapAction::MoveLeft) == MapNeed::DefaultAction(dx, dy));
        } else if dx == 1 && dy == 0 {
            assert(spec_map_need(MapAction::MoveRight) == MapNeed::DefaultAction(dx, dy));
        } else if dx == -1 && dy == 1 {
            assert(spec_map_need(MapAction::MoveDownLeft) == MapNeed::DefaultAction(dx, dy));
        } else if dx == 0 && dy == 1 {
            assert(spec_map_need(MapAction::MoveDown) == MapNeed::DefaultAction(dx, dy));
        } else {
            assert(spec_map_need(MapAction::MoveDownRight) == MapNeed::DefaultAction(dx, dy));
        }
    }
}

// ---------------------------------------------------------------------------------------------
// Fire

/// The tile offset of a step of `dx` columns and `dy` rows on a grid `width` wide.
pub open spec fn step_offset(width: int, dx: int, dy: int) -> int {
    dy * width + dx
}

/// Fire spreads from tile `idx` of a grid at least three wide to exactly the eight tiles around
/// it, each once: the listed tiles are distinct, none is `idx` itself, and a tile is listed
/// exactly when it is one column and/or one row away.
pub proof fn law_fire_reaches_the_eight_tiles_around(width: int, idx: int)
    requires
        width >= 3,
    ensures
        neighbors(width, idx).len() == 8,
        forall|i: int, j: int| 0 <= i < j < 8 ==> #[trigger] neighbors(width, idx)[i] != #[trigger] neighbors(width, idx)[j],
        forall|t: int| #[trigger] neighbors(width, idx).contains(t) <==> t != idx && exists|dx: int, dy: int|
            -1 <= dx <= 1 && -1 <= dy <= 1 && t == idx + #[trigger] step_offset(width, dx, dy),
{
    let nb = neighbors(width, idx);
    assert forall|t: int| #[trigger] nb.contains(t) <==> t != idx && exists|dx: int, dy: int|
        -1 <= dx <= 1 && -1 <= dy <= 1 && t == idx + #[trigger] step_offset(width, dx, dy) by {
        if nb.contains(t) {
            let k = choose|k: int| 0 <= k < nb.len() && nb[k] == t;
            let dy: int = if k < 3 { -1 } else if k < 5 { 0 } else { 1 };
            let dx: int = if k == 0 || k == 3 || k == 5 { -1 } else if k == 1 || k == 6 { 0 } else { 1 };
            assert(dy * width == (if k < 3 { -width } else if k < 5 { 0 } else { width })) by (nonlinear_arith)
                requires
                    dy == (if k < 3 { -1int } else if k < 5 { 0int } else { 1int });
            assert(t == idx + step_offset(width, dx, dy));
        }
        if t != idx && exists|dx: int, dy: int| -1 <= dx <= 1 && -1 <= dy <= 1 && t == idx + #[trigger] step_offset(width, dx, dy) {
            let (dx, dy) = choose|dx: int, dy: int| -1 <= dx <= 1 && -1 <= dy <= 1 && t == idx + #[trigger] step_offset(width, dx, dy);
            assert(dy * width == (if dy == -1 { -width } else if dy == 0 { 0 } else { width })) by (nonlinear_arith)
                requires
                    -1 <= dy <= 1;
            if dy == -1 {
                if dx == -1 { assert(nb[0] == t); } else if dx == 0 { assert(nb[1] == t); } else { assert(nb[2] == t); }
            } else if dy == 0 {
                if dx == -1 { assert(nb[3] == t); } else { assert(nb[4] == t); }
            } else {
                if dx == -1 { assert(nb[5] == t); } else if dx == 0 { assert(nb[6] == t); } else { assert(nb[7] == t); }
            }
        }
    }
}

/// The entities fire can reach from tile `idx` are exactly those listed on the eight tiles
/// around it.
pub proof fn law_fire_reaches_what_stands_around(level: Level, idx: int)
    requires
        forall|j: int| 0 <= j < 8 ==> 0 <= #[trigger] neighbors(level.width as int, idx)[j] < level.tile_content@.len(),
    ensures
        forall|x: Entity| #[trigger] around(level, idx, 8).contains(x) <==> exists|j: int| 0 <= j < 8
            && #[trigger] level.tile_content@[neighbors(level.width as int, idx)[j]]@.contains(x),
{
    lemma_around_contains(level, idx, 8);
}

proof fn lemma_around_contains(level: Level, idx: int, k: int)
    requires
        0 <= k <= 8,
    ensures
        forall|x: Entity| #[trigger] around(level, idx, k).contains(x) <==> exists|j: int| 0 <= j < k
            && #[trigger] level.tile_content@[neighbors(level.width as int, idx)[j]]@.contains(x),
    decreases k,
{
    if k > 0 {
        lemma_around_contains(level, idx, k - 1);
        let prev = around(level, idx, k - 1);
        let last = level.tile_content@[neighbors(level.width as int, idx)[k - 1]]@;
        assert(around(level, idx, k) == prev + last);
        assert forall|x: Entity| #[trigger] around(level, idx, k).contains(x) <==> exists|j: int| 0 <= j < k
            && #[trigger] level.tile_content@[neighbors(level.width as int, idx)[j]]@.contains(x) by {
            let all = prev + last;
            if all.contains(x) {
                let i = choose|i: int| 0 <= i < all.len() && all[i] == x;
                if i < prev.len() {
                    assert(prev[i] == x);
                    assert(prev.contains(x));
                } else {
                    assert(last[i - prev.len()] == x);
                    assert(last.contains(x));
                }
            }
            if exists|j: int| 0 <= j < k && #[trigger] level.tile_content@[neighbors(level.width as int, idx)[j]]@.contains(x) {
                let j = choose|j: int| 0 <= j < k && #[trigger] level.tile_content@[neighbors(level.width as int, idx)[j]]@.contains(x);
                if j < k - 1 {
                    assert(prev.contains(x));
                    let i = choose|i: int| 0 <= i < prev.len() && prev[i] == x;
                    assert(all[i] == x);
                } else {
                    assert(last.contains(x));
                    let i = choose|i: int| 0 <= i < last.len() && last[i] == x;
                    assert(all[prev.len() + i] == x);
                }
            }
        }
    }
}

/// What stands on the `j`-th tile around tile `idx`.
pub open spec fn tile_around(level: Level, idx: int, j: int) -> Seq<Entity> {
    level.tile_content@[neighbors(level.width as int, idx)[j]]@
}

/// Fire tries each entity around tile `idx` once for every time it is listed on one of the
/// eight tiles around: the entities reached, counted with repeats, are those of the eight tiles
/// together.
pub proof fn law_fire_reaches_each_listing_once(level: Level, idx: int)
    ensures
        around(level, idx, 8).to_multiset() == tile_around(level, idx, 0).to_multiset()
            .add(tile_around(level, idx, 1).to_multiset())
            .add(tile_around(level, idx, 2).to_multiset())
            .add(tile_around(level, idx, 3).to_multiset())
            .add(tile_around(level, idx, 4).to_multiset())
            .add(tile_around(level, idx, 5).to_multiset())
            .add(tile_around(level, idx, 6).to_multiset())
            .add(tile_around(level, idx, 7).to_multiset()),
{
    broadcast use vstd::seq_lib::lemma_multiset_commutative;
    let a0 = around(level, idx, 0);
    assert(a0 == Seq::<Entity>::empty());
    vstd::seq_lib::to_multiset_len(a0);
    vstd::multiset::lemma_multiset_empty_len(a0.to_multiset());
    assert(a0.to_multiset() =~= vstd::multiset::Multiset::empty());
    assert(around(level, idx, 1) == a0 + tile_around(level, idx, 0));
    assert(around(level, idx, 2) == around(level, idx, 1) + tile_around(level, idx, 1));
    assert(around(level, idx, 3) == around(level, idx, 2) + tile_around(level, idx, 2));
    assert(around(level, idx, 4) == around(level, idx, 3) + tile_around(level, idx, 3));
    assert(around(level, idx, 5) == around(level, idx, 4) + tile_around(level, idx, 4));
    assert(around(level, idx, 6) == around(level, idx, 5) + tile_around(level, idx, 5));
    assert(around(level, idx, 7) == around(level, idx, 6) + tile_around(level, idx, 6));
    assert(around(level, idx, 8) == around(level, idx, 7) + tile_around(level, idx, 7));
    broadcast use vstd::multiset::group_multiset_axioms;
    assert(around(level, idx, 1).to_multiset() =~= tile_around(level, idx, 0).to_multiset());
}

} // verus!
