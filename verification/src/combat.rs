use vstd::prelude::*;
use crate::components::{
    CausesDamage, CombatStats, DamageHistory, DamageType, Equipment, Name, Position, SufferDamage,
    WantsToMelee,
};
use crate::ecs::{alive, comp, get, get_ref, lookup, present, put, stored, Entities, Entity};
use crate::game_log::GameLog;
use crate::rng::{rng_random_slice_entry, rng_range};
use crate::services::{ParticleEffectSpawner, ParticleEffectSpawnerRequest, PARTICLE_LIFETIME_MS};
use crate::color::{Color, NamedColor};
use crate::glyphs::cp437;
use crate::text::{format_damage_text, format_no_damage_text, spec_damage_text, spec_no_damage_text};

verus! {

/// A weapon's damage figures.
pub struct WeaponView {
    pub min: i32,
    pub max: i32,
    pub bonus: i32,
    pub types: Seq<DamageType>,
}

/// The damage figures of the item in `hand`, if it is a weapon.
pub open spec fn weapon_in(causes: Seq<Option<CausesDamage>>, hand: Option<Entity>) -> Option<WeaponView> {
    match hand {
        Some(h) => match lookup(causes, h as int) {
            Some(c) => Some(WeaponView { min: c.min, max: c.max, bonus: c.bonus, types: c.damage_type@ }),
            None => None,
        },
        None => None,
    }
}

/// `x`, or 0 when `x` is negative.
pub open spec fn spec_max0(x: int) -> int {
    if x > 0 { x } else { 0 }
}

/// Damage one hand does: the weapon's roll plus its bonus plus the attacker's power, less the
/// target's defense; bare-handed, power less defense; never below zero.
pub open spec fn spec_hand_damage(w: Option<WeaponView>, roll: int, power: int, defense: int) -> int {
    match w {
        Some(w) => spec_max0(roll + w.bonus + power - defense),
        None => spec_max0(power - defense),
    }
}

/// Whether each step of `roll + bonus + power - defense`, worked out left to right, fits in an `i32`.
pub open spec fn sum_fits(roll: int, bonus: int, power: int, defense: int) -> bool {
    &&& i32::MIN <= roll + bonus <= i32::MAX
    &&& i32::MIN <= roll + bonus + power <= i32::MAX
    &&& i32::MIN <= roll + bonus + power - defense <= i32::MAX
}

/// Damage one hand does, given the weapon's roll and bonus when the hand holds a weapon.
pub fn hand_damage(weapon_roll: Option<(i32, i32)>, power: i32, defense: i32) -> (d: i32)
    requires
        match weapon_roll {
            Some((roll, bonus)) => sum_fits(roll as int, bonus as int, power as int, defense as int),
            None => i32::MIN <= power - defense <= i32::MAX,
        },
    ensures
        d == (match weapon_roll {
            Some((roll, bonus)) => spec_max0(roll + bonus + power - defense),
            None => spec_max0(power - defense),
        }),
        0 <= d,
{
    let raw = match weapon_roll {
        Some((roll, bonus)) => roll + bonus + power - defense,
        None => power - defense,
    };
    if raw > 0 { raw } else { 0 }
}

/// The random draws of one attack: the weapon rolls of both hands and the kinds of damage picked.
pub struct AttackRolls {
    pub dominant_roll: int,
    pub dominant_type: DamageType,
    pub off_roll: int,
    pub off_type: DamageType,
}

/// The storages a combat round reads.
pub struct MeleeInputs {
    pub alive: Seq<bool>,
    pub wants: Seq<Option<WantsToMelee>>,
    pub names: Seq<Option<Name>>,
    pub stats: Seq<Option<CombatStats>>,
    pub equipment: Seq<Option<Equipment>>,
    pub causes: Seq<Option<CausesDamage>>,
    pub positions: Seq<Option<Position>>,
}

/// What a combat round changes: queued damage, damage histories, the log and the particles.
pub struct MeleeView {
    pub suffer: Seq<Option<SufferDamage>>,
    pub histories: Seq<Option<Seq<DamageType>>>,
    pub log: Seq<Seq<char>>,
    pub particles: Seq<ParticleEffectSpawnerRequest>,
}

/// The kinds of damage recorded for each entity.
pub open spec fn histories_view(h: Seq<Option<DamageHistory>>) -> Seq<Option<Seq<DamageType>>> {
    Seq::new(h.len(), |i: int| match h[i] { Some(d) => Some(d.events@), None => None })
}

/// `s` with `x` added unless already there.
pub open spec fn set_insert(s: Seq<DamageType>, x: DamageType) -> Seq<DamageType> {
    if s.contains(x) { s } else { s.push(x) }
}

/// Records a hit of kind `ty` on `target`, when the target keeps a damage history.
pub open spec fn record_hit(h: Seq<Option<Seq<DamageType>>>, target: int, ty: DamageType) -> Seq<Option<Seq<DamageType>>> {
    if 0 <= target < h.len() && h[target] is Some {
        h.update(target, Some(set_insert(h[target]->0, ty)))
    } else {
        h
    }
}

/// Adds `total` to the damage queued against `target`, starting from zero when none is queued;
/// nothing is queued against an entity that does not exist.
pub open spec fn add_damage(s: Seq<Option<SufferDamage>>, alive_set: Seq<bool>, target: int, total: int) -> Seq<Option<SufferDamage>> {
    match lookup(s, target) {
        Some(d) => stored(s, target, Some(SufferDamage { amount: (d.amount + total) as i32 })),
        None => if alive(alive_set, target) {
            stored(s, target, Some(SufferDamage { amount: total as i32 }))
        } else {
            s
        },
    }
}

/// The target of `e`'s attack.
pub open spec fn target_of(inp: MeleeInputs, e: int) -> int {
    comp(inp.wants, e).target as int
}

/// Whether `e` is an attacker this round: it exists, wants to attack, has a name, stats and
/// equipment, and is still standing.
pub open spec fn is_attacker(inp: MeleeInputs, e: int) -> bool {
    &&& alive(inp.alive, e)
    &&& present(inp.wants, e)
    &&& present(inp.names, e)
    &&& present(inp.stats, e)
    &&& present(inp.equipment, e)
    &&& comp(inp.stats, e).hp > 0
}

/// Whether `e` lands an attack this round: it is an attacker and its target is still standing.
pub open spec fn attacks(inp: MeleeInputs, e: int) -> bool {
    is_attacker(inp, e) && comp(inp.stats, target_of(inp, e)).hp > 0
}

/// The weapon in `e`'s dominant hand.
pub open spec fn dominant_weapon(inp: MeleeInputs, e: int) -> Option<WeaponView> {
    weapon_in(inp.causes, comp(inp.equipment, e).dominant_hand)
}

/// The weapon in `e`'s off hand.
pub open spec fn off_weapon(inp: MeleeInputs, e: int) -> Option<WeaponView> {
    weapon_in(inp.causes, comp(inp.equipment, e).off_hand)
}

/// The name of what `e` hits with in its dominant hand: the item's name, or "fist".
pub open spec fn dominant_name(inp: MeleeInputs, e: int) -> Seq<char> {
    match comp(inp.equipment, e).dominant_hand {
        Some(h) => match lookup(inp.names, h as int) {
            Some(n) => n.name@,
            None => "fist"@,
        },
        None => "fist"@,
    }
}

/// The name of the item in `e`'s off hand.
pub open spec fn off_name(inp: MeleeInputs, e: int) -> Seq<char> {
    comp(inp.names, comp(inp.equipment, e).off_hand.unwrap() as int).name@
}

/// Damage of `e`'s dominant hand with the given rolls.
pub open spec fn dealt_dominant(inp: MeleeInputs, e: int, r: AttackRolls) -> int {
    spec_hand_damage(dominant_weapon(inp, e), r.dominant_roll, comp(inp.stats, e).power as int,
        comp(inp.stats, target_of(inp, e)).defense as int)
}

/// Damage of `e`'s off hand with the given rolls; nothing without an off-hand weapon.
pub open spec fn dealt_off(inp: MeleeInputs, e: int, r: AttackRolls) -> int {
    if off_weapon(inp, e) is Some {
        spec_hand_damage(off_weapon(inp, e), r.off_roll, comp(inp.stats, e).power as int,
            comp(inp.stats, target_of(inp, e)).defense as int)
    } else {
        0
    }
}

/// The kind of damage the dominant hand does: the picked kind for a weapon, blunt for a fist.
pub open spec fn dominant_type(inp: MeleeInputs, e: int, r: AttackRolls) -> DamageType {
    if dominant_weapon(inp, e) is Some { r.dominant_type } else { DamageType::Blunt }
}

/// Whether the rolls are ones the random number generator can produce for `e`'s attack: each
/// weapon roll within the weapon's range, each kind picked among the weapon's kinds.
pub open spec fn rolls_ok(inp: MeleeInputs, e: int, r: AttackRolls) -> bool {
    attacks(inp, e) ==> rolls_in_range(inp, e, r)
}

/// Whether the rolls of an attack by `e` lie within its weapons' ranges and kinds.
pub open spec fn rolls_in_range(inp: MeleeInputs, e: int, r: AttackRolls) -> bool {
    &&& (dominant_weapon(inp, e) matches Some(w) ==> w.min <= r.dominant_roll <= w.max
        && (dealt_dominant(inp, e, r) > 0 ==> w.types.contains(r.dominant_type)))
    &&& (off_weapon(inp, e) matches Some(w) ==> w.min <= r.off_roll <= w.max
        && (dealt_off(inp, e, r) > 0 ==> w.types.contains(r.off_type)))
}

/// The flash shown where an attack is made.
pub open spec fn attack_particle(p: Position) -> ParticleEffectSpawnerRequest {
    ParticleEffectSpawnerRequest {
        idx: p.idx,
        fg: Color::Named(NamedColor::Orange),
        bg: Color::Named(NamedColor::Black),
        glyph: cp437('‼'),
        lifetime_ms: PARTICLE_LIFETIME_MS,
        level: p.level,
    }
}

/// `e`'s attack with the given rolls: a flash at the attacker; per hand a log line, and for a
/// hand that does damage a recorded damage kind; the damage of both hands queued on the target.
pub open spec fn melee_step(inp: MeleeInputs, v: MeleeView, e: int, r: AttackRolls) -> MeleeView {
    if !attacks(inp, e) {
        v
    } else {
        let t = target_of(inp, e);
        let attacker = comp(inp.names, e).name@;
        let target = comp(inp.names, t).name@;
        let d1 = dealt_dominant(inp, e, r);
        let log1 = if d1 == 0 {
            seq![spec_no_damage_text(attacker, target, dominant_name(inp, e))] + v.log
        } else {
            seq![spec_damage_text(attacker, target, dominant_name(inp, e), d1)] + v.log
        };
        let h1 = if d1 == 0 { v.histories } else { record_hit(v.histories, t, dominant_type(inp, e, r)) };
        let d2 = dealt_off(inp, e, r);
        let log2 = if off_weapon(inp, e) is None {
            log1
        } else if d2 == 0 {
            seq![spec_no_damage_text(attacker, target, off_name(inp, e))] + log1
        } else {
            seq![spec_damage_text(attacker, target, off_name(inp, e), d2)] + log1
        };
        let h2 = if d2 == 0 { h1 } else { record_hit(h1, t, r.off_type) };
        let total = d1 + d2;
        MeleeView {
            suffer: if total > 0 { add_damage(v.suffer, inp.alive, t, total) } else { v.suffer },
            histories: h2,
            log: log2,
            particles: v.particles.push(attack_particle(comp(inp.positions, e))),
        }
    }
}

/// The attacks of entities `0..k`, in entity order.
pub open spec fn melee_fold(inp: MeleeInputs, v: MeleeView, k: int, rolls: Seq<AttackRolls>) -> MeleeView
    decreases k,
{
    if k <= 0 {
        v
    } else {
        melee_step(inp, melee_fold(inp, v, k - 1, rolls), k - 1, rolls[k - 1])
    }
}

proof fn lemma_fold_prefix(inp: MeleeInputs, v: MeleeView, k: int, a: Seq<AttackRolls>, b: Seq<AttackRolls>)
    requires
        0 <= k <= a.len(),
        k <= b.len(),
        forall|i: int| 0 <= i < k ==> a[i] == b[i],
    ensures
        melee_fold(inp, v, k, a) == melee_fold(inp, v, k, b),
    decreases k,
{
    if k > 0 {
        lemma_fold_prefix(inp, v, k - 1, a, b);
    }
}

/// Whether one hand's attack can be worked out in `i32` for every roll: the weapon can be rolled
/// (`max + 1` fits), every step of the sum fits for its lowest and highest roll (and so for every
/// roll between), and a weapon that can do damage names at least one kind of it; bare-handed,
/// `power - defense` fits.
pub open spec fn hand_fits(w: Option<WeaponView>, power: int, defense: int) -> bool {
    match w {
        Some(w) => {
            &&& w.min <= w.max < i32::MAX
            &&& sum_fits(w.min as int, w.bonus as int, power, defense)
            &&& sum_fits(w.max as int, w.bonus as int, power, defense)
            &&& (spec_hand_damage(Some(w), w.max as int, power, defense) > 0 ==> 0 < w.types.len())
            &&& w.types.len() < i32::MAX
        },
        None => i32::MIN <= power - defense <= i32::MAX,
    }
}

/// The most damage `e`'s dominant hand can do: its weapon at the highest roll, or its fist.
pub open spec fn max_dominant(inp: MeleeInputs, e: int) -> int {
    let power = comp(inp.stats, e).power as int;
    let defense = comp(inp.stats, target_of(inp, e)).defense as int;
    match dominant_weapon(inp, e) {
        Some(w) => spec_hand_damage(Some(w), w.max as int, power, defense),
        None => spec_hand_damage(None, 0, power, defense),
    }
}

/// The most damage `e`'s off hand can do: its weapon at the highest roll, or nothing.
pub open spec fn max_off(inp: MeleeInputs, e: int) -> int {
    let power = comp(inp.stats, e).power as int;
    let defense = comp(inp.stats, target_of(inp, e)).defense as int;
    match off_weapon(inp, e) {
        Some(w) => spec_hand_damage(Some(w), w.max as int, power, defense),
        None => 0,
    }
}

/// The most damage `e`'s attack can do: both hands at their highest rolls.
pub open spec fn max_dealt(inp: MeleeInputs, e: int) -> int {
    max_dominant(inp, e) + max_off(inp, e)
}

/// The most damage the attacks of entities `0..k` can queue against `t`.
pub open spec fn round_max(inp: MeleeInputs, t: int, k: int) -> int
    decreases k,
{
    if k <= 0 {
        0
    } else {
        round_max(inp, t, k - 1) + (if attacks(inp, k - 1) && target_of(inp, k - 1) == t { max_dealt(inp, k - 1) } else { 0 })
    }
}

/// The damage queued against `t` before the round, counted as zero when there is none or it
/// is negative.
pub open spec fn queued_before(suffer: Seq<Option<SufferDamage>>, t: int) -> int {
    if present(suffer, t) && comp(suffer, t).amount > 0 { comp(suffer, t).amount as int } else { 0 }
}

/// Whether the damage queued now is at most what was queued before the round plus the most the
/// attacks of entities `0..k` can add.
pub open spec fn queued_within(inp: MeleeInputs, before: Seq<Option<SufferDamage>>, now: Seq<Option<SufferDamage>>, k: int) -> bool {
    forall|t: int| #[trigger] present(now, t) ==> comp(now, t).amount <= queued_before(before, t) + round_max(inp, t, k)
}

proof fn lemma_round_max_grows(inp: MeleeInputs, t: int, j: int, k: int)
    requires
        0 <= j <= k,
    ensures
        0 <= round_max(inp, t, j) <= round_max(inp, t, k),
    decreases k,
{
    if k > 0 {
        if j < k {
            lemma_round_max_grows(inp, t, j, k - 1);
        } else {
            lemma_round_max_grows(inp, t, 0, k - 1);
        }
    }
}

/// Whether no damage queued in `a` is gone or lower in `b`, and damage newly queued in `b` is
/// positive: counting an entity with nothing queued as 0, no entity has less queued in `b`.
pub open spec fn damage_not_lowered(a: Seq<Option<SufferDamage>>, b: Seq<Option<SufferDamage>>) -> bool {
    &&& forall|t: int| #[trigger] present(a, t) ==> present(b, t) && comp(b, t).amount >= comp(a, t).amount
    &&& forall|t: int| !present(a, t) && #[trigger] present(b, t) ==> comp(b, t).amount > 0
}

/// What a combat round needs: every attack it makes can be worked out in `i32` (each sum the
/// round forms, for every roll), the damage it can queue against any target fits on top of what
/// is queued there already, and for every attack the target's stats, the target's name, the
/// attacker's position and the off-hand weapon's name, which the round reads without checking.
pub open spec fn melee_ready(inp: MeleeInputs, suffer: Seq<Option<SufferDamage>>) -> bool {
    &&& attacks_fit(inp)
    &&& forall|t: int| #[trigger] queued_before(suffer, t) + round_max(inp, t, inp.alive.len() as int) <= i32::MAX
}

/// Whether every attacker's targets and weapons can be read and every attack worked out in `i32`.
pub open spec fn attacks_fit(inp: MeleeInputs) -> bool {
    &&& forall|e: int| #[trigger] is_attacker(inp, e) ==> present(inp.stats, target_of(inp, e))
        && (comp(inp.stats, target_of(inp, e)).hp > 0 ==> {
            &&& present(inp.names, target_of(inp, e))
            &&& present(inp.positions, e)
            &&& (off_weapon(inp, e) is Some ==> present(inp.names, comp(inp.equipment, e).off_hand.unwrap() as int))
        })
    &&& forall|e: int| #[trigger] attacks(inp, e) ==> {
        let power = comp(inp.stats, e).power as int;
        let defense = comp(inp.stats, target_of(inp, e)).defense as int;
        &&& hand_fits(dominant_weapon(inp, e), power, defense)
        &&& (off_weapon(inp, e) is Some ==> hand_fits(off_weapon(inp, e), power, defense))
    }
}

/// The storages of a round, read as its inputs.
pub open spec fn melee_inputs(
    entities: &Entities,
    wants: Seq<Option<WantsToMelee>>,
    names: Seq<Option<Name>>,
    stats: Seq<Option<CombatStats>>,
    equipment: Seq<Option<Equipment>>,
    causes: Seq<Option<CausesDamage>>,
    positions: Seq<Option<Position>>,
) -> MeleeInputs {
    MeleeInputs { alive: entities.alive@, wants, names, stats, equipment, causes, positions }
}

/// The storages of a round, read as what it changes.
pub open spec fn melee_view(
    suffer: Seq<Option<SufferDamage>>,
    histories: Seq<Option<DamageHistory>>,
    log: &GameLog,
    particles: &ParticleEffectSpawner,
) -> MeleeView {
    MeleeView {
        suffer,
        histories: histories_view(histories),
        log: log.entries.deep_view(),
        particles: particles.requests@,
    }
}

fn copy_events(events: &Vec<DamageType>) -> (r: Vec<DamageType>)
    ensures
        r@ == events@,
{
    let mut r: Vec<DamageType> = Vec::new();
    let mut i: usize = 0;
    while i < events.len()
        invariant
            i <= events@.len(),
            r@ == events@.subrange(0, i as int),
        decreases events@.len() - i,
    {
        r.push(events[i]);
        i += 1;
    }
    assert(r@ =~= events@);
    r
}

fn contains_type(v: &Vec<DamageType>, ty: DamageType) -> (r: bool)
    ensures
        r == v@.contains(ty),
{
    let mut i: usize = 0;
    while i < v.len()
        invariant
            i <= v@.len(),
            forall|j: int| 0 <= j < i ==> v@[j] != ty,
        decreases v@.len() - i,
    {
        if v[i] == ty {
            return true;
        }
        i += 1;
    }
    false
}

fn record_hit_exec(histories: &mut Vec<Option<DamageHistory>>, target: Entity, ty: DamageType)
    ensures
        histories_view(final(histories)@) == record_hit(histories_view(old(histories)@), target as int, ty),
{
    if target < histories.len() {
        match &histories[target] {
            Some(h) => {
                let mut events = copy_events(&h.events);
                let found = contains_type(&events, ty);
                if !found {
                    events.push(ty);
                }
                let ghost new_events = events@;
                histories.set(target, Some(DamageHistory { events }));
                assert(histories_view(final(histories)@) =~= record_hit(histories_view(old(histories)@), target as int, ty));
            },
            None => {},
        }
    }
}

fn add_damage_exec(suffer: &mut Vec<Option<SufferDamage>>, entities: &Entities, target: Entity, total: i32)
    requires
        0 < total,
        present(old(suffer)@, target as int) ==> comp(old(suffer)@, target as int).amount + total <= i32::MAX,
    ensures
        final(suffer)@ == add_damage(old(suffer)@, entities.alive@, target as int, total as int),
{
    match get(suffer, target) {
        Some(d) => {
            assert(comp(old(suffer)@, target as int).amount + total <= i32::MAX);
            put(suffer, target, Some(SufferDamage { amount: d.amount + total }));
        },
        None => {
            if entities.is_alive(target) {
                put(suffer, target, Some(SufferDamage { amount: total }));
            }
        },
    }
}

#[verifier::rlimit(80)]
#[verifier::spinoff_prover]
fn melee_attack(
    e: Entity,
    entities: &Entities,
    wants_to_melee: &Vec<Option<WantsToMelee>>,
    suffer_damage: &mut Vec<Option<SufferDamage>>,
    names: &Vec<Option<Name>>,
    combat_stats: &Vec<Option<CombatStats>>,
    equipment: &Vec<Option<Equipment>>,
    causes_damage: &Vec<Option<CausesDamage>>,
    log: &mut GameLog,
    particle_effect_spawner: &mut ParticleEffectSpawner,
    positions: &Vec<Option<Position>>,
    damage_histories: &mut Vec<Option<DamageHistory>>,
    rng: &mut rltk::RandomNumberGenerator,
    Ghost(before): Ghost<Seq<Option<SufferDamage>>>,
) -> (rolls: Ghost<AttackRolls>)
    requires
        melee_ready(melee_inputs(entities, wants_to_melee@, names@, combat_stats@, equipment@, causes_damage@, positions@),
            before),
        queued_within(melee_inputs(entities, wants_to_melee@, names@, combat_stats@, equipment@, causes_damage@, positions@),
            before, old(suffer_damage)@, e as int),
        e < entities.alive@.len(),
    ensures
        rolls_ok(melee_inputs(entities, wants_to_melee@, names@, combat_stats@, equipment@, causes_damage@, positions@), e as int, rolls@),
        melee_view(final(suffer_damage)@, final(damage_histories)@, final(log), final(particle_effect_spawner))
            == melee_step(
                melee_inputs(entities, wants_to_melee@, names@, combat_stats@, equipment@, causes_damage@, positions@),
                melee_view(old(suffer_damage)@, old(damage_histories)@, old(log), old(particle_effect_spawner)),
                e as int,
                rolls@,
            ),
        queued_within(melee_inputs(entities, wants_to_melee@, names@, combat_stats@, equipment@, causes_damage@, positions@),
            before, final(suffer_damage)@, e + 1),
        damage_not_lowered(old(suffer_damage)@, final(suffer_damage)@),
{
    let ghost inp = melee_inputs(entities, wants_to_melee@, names@, combat_stats@, equipment@, causes_damage@, positions@);
    let ghost none = AttackRolls { dominant_roll: 0, dominant_type: DamageType::Blunt, off_roll: 0, off_type: DamageType::Blunt };
    if !entities.is_alive(e) {
        return Ghost(none);
    }
    let wants = match get(wants_to_melee, e) {
        Some(w) => w,
        None => { return Ghost(none); },
    };
    let attacker_name = match get_ref(names, e) {
        Some(n) => n,
        None => { return Ghost(none); },
    };
    let stats = match get(combat_stats, e) {
        Some(s) => s,
        None => { return Ghost(none); },
    };
    let equip = match get(equipment, e) {
        Some(q) => q,
        None => { return Ghost(none); },
    };
    if stats.hp <= 0 {
        return Ghost(none);
    }
    assert(is_attacker(inp, e as int));
    let target = wants.target;
    let target_stats = get(combat_stats, target).unwrap();
    assert(stats == comp(inp.stats, e as int) && target_stats == comp(inp.stats, target as int));
    if target_stats.hp <= 0 {
        return Ghost(none);
    }
    assert(attacks(inp, e as int));
    let target_name = get_ref(names, target).unwrap();
    let position = get(positions, e).unwrap();
    particle_effect_spawner.request_attack_particle(position.idx, position.level);

    let mut total_damage: i32 = 0;
    let ghost mut r = none;

    let ghost t = target as int;
    let ghost n = entities.alive@.len() as int;
    proof {
        lemma_round_max_grows(inp, t, e + 1, n);
        lemma_round_max_grows(inp, t, 0, e as int);
        assert(round_max(inp, t, e + 1) == round_max(inp, t, e as int) + max_dealt(inp, e as int));
        assert(queued_before(before, t) + round_max(inp, t, n) <= i32::MAX);
        assert(queued_before(before, t) >= 0);
    }

    // dominant hand
    let dominant_weapon: Option<&CausesDamage> = match equip.dominant_hand {
        Some(h) => {
            let w = get_ref(causes_damage, h);
            w
        },
        None => None,
    };
    let dominant_weapon_name: &str = match equip.dominant_hand {
        Some(h) => match get_ref(names, h) {
            Some(n) => n.name.as_str(),
            None => "fist",
        },
        None => "fist",
    };
    let dominant_damage = match dominant_weapon {
        Some(d) => {
            let roll = rng_range(rng, d.min, d.max + 1);
            proof { r.dominant_roll = roll as int; }
            hand_damage(Some((roll, d.bonus)), stats.power, target_stats.defense)
        },
        None => hand_damage(None, stats.power, target_stats.defense),
    };
    assert(dominant_damage <= max_dominant(inp, e as int));
    if dominant_damage == 0 {
        log.add(format_no_damage_text(attacker_name.name.as_str(), target_name.name.as_str(), dominant_weapon_name));
    } else {
        total_damage = dominant_damage;
        let damage_type = match dominant_weapon {
            Some(d) => rng_random_slice_entry(rng, d.damage_type.as_slice()).unwrap(),
            None => DamageType::Blunt,
        };
        proof { r.dominant_type = damage_type; }
        record_hit_exec(damage_histories, target, damage_type);
        log.add(format_damage_text(attacker_name.name.as_str(), target_name.name.as_str(), dominant_weapon_name, dominant_damage));
    }

    // off hand
    let off_weapon: Option<&CausesDamage> = match equip.off_hand {
        Some(h) => {
            let w = get_ref(causes_damage, h);
            w
        },
        None => None,
    };
    match off_weapon {
        Some(d) => {
            let roll = rng_range(rng, d.min, d.max + 1);
            proof { r.off_roll = roll as int; }
            let off_damage = hand_damage(Some((roll, d.bonus)), stats.power, target_stats.defense);
            assert(off_damage <= max_off(inp, e as int));
            let off_weapon_name = &get_ref(names, equip.off_hand.unwrap()).unwrap().name;
            if off_damage == 0 {
                log.add(format_no_damage_text(attacker_name.name.as_str(), target_name.name.as_str(), off_weapon_name.as_str()));
            } else {
                total_damage = total_damage + off_damage;
                let damage_type = rng_random_slice_entry(rng, d.damage_type.as_slice()).unwrap();
                proof { r.off_type = damage_type; }
                record_hit_exec(damage_histories, target, damage_type);
                log.add(format_damage_text(attacker_name.name.as_str(), target_name.name.as_str(), off_weapon_name.as_str(), off_damage));
            }
        },
        None => {},
    }
    assert(total_damage <= max_dealt(inp, e as int));
    if total_damage > 0 {
        add_damage_exec(suffer_damage, entities, target, total_damage);
    }
    proof {
        assert(rolls_ok(inp, e as int, r));
        if total_damage > 0 {
            match lookup(old(suffer_damage)@, target as int) {
                Some(d) => {
                    assert(d == comp(old(suffer_damage)@, target as int));
                    crate::ecs::lemma_stored_lookup(old(suffer_damage)@, target as int,
                        Some(SufferDamage { amount: (d.amount + total_damage) as i32 }));
                },
                None => {
                    crate::ecs::lemma_stored_lookup(old(suffer_damage)@, target as int,
                        Some(SufferDamage { amount: total_damage }));
                },
            }
        }
        assert forall|i: int| #[trigger] present(old(suffer_damage)@, i) implies
            present(suffer_damage@, i) && comp(suffer_damage@, i).amount >= comp(old(suffer_damage)@, i).amount by {
            if i != target as int || total_damage <= 0 {
                assert(lookup(suffer_damage@, i) == lookup(old(suffer_damage)@, i));
            } else {
                assert(lookup(old(suffer_damage)@, target as int) == Some(comp(old(suffer_damage)@, i)));
            }
        }
        let n = entities.alive@.len() as int;
        assert forall|i: int| #[trigger] present(suffer_damage@, i) implies
            comp(suffer_damage@, i).amount <= queued_before(before, i) + round_max(inp, i, e + 1) by {
            lemma_round_max_grows(inp, i, 0, e as int);
            if i != target as int || total_damage <= 0 {
                assert(lookup(suffer_damage@, i) == lookup(old(suffer_damage)@, i));
                assert(present(old(suffer_damage)@, i));
                assert(comp(old(suffer_damage)@, i) == comp(suffer_damage@, i));
            } else {
                match lookup(old(suffer_damage)@, target as int) {
                    Some(d) => {
                        assert(present(old(suffer_damage)@, target as int));
                        assert(comp(suffer_damage@, i).amount == d.amount + total_damage);
                    },
                    None => {
                        assert(comp(suffer_damage@, i).amount == total_damage);
                    },
                }
            }
        }
    }
    Ghost(r)
}

/// Runs the attacks queued this turn.
pub struct MeleeCombatSystem {}

impl MeleeCombatSystem {
    /// Every entity that wants to attack, exists, has a name, stats and equipment and is still
    /// standing strikes its target if the target is still standing: the round is
    /// `melee_fold` over all entities in order, for some rolls the random number generator can
    /// produce. Afterwards no attack is queued, and no queued damage is gone or lower than
    /// before: a round only ever adds damage. Hit points are only read.
    pub fn run(
        &mut self,
        entities: &Entities,
        wants_to_melee: &mut Vec<Option<WantsToMelee>>,
        suffer_damage: &mut Vec<Option<SufferDamage>>,
        names: &Vec<Option<Name>>,
        combat_stats: &Vec<Option<CombatStats>>,
        equipment: &Vec<Option<Equipment>>,
        causes_damage: &Vec<Option<CausesDamage>>,
        log: &mut GameLog,
        particle_effect_spawner: &mut ParticleEffectSpawner,
        positions: &Vec<Option<Position>>,
        damage_histories: &mut Vec<Option<DamageHistory>>,
        rng: &mut rltk::RandomNumberGenerator,
    )
        requires
            melee_ready(
                melee_inputs(entities, old(wants_to_melee)@, names@, combat_stats@, equipment@, causes_damage@, positions@),
                old(suffer_damage)@,
            ),
        ensures
            exists|rolls: Seq<AttackRolls>| {
                &&& rolls.len() == entities.alive@.len()
                &&& forall|e: int| 0 <= e < rolls.len() ==> rolls_ok(
                    melee_inputs(entities, old(wants_to_melee)@, names@, combat_stats@, equipment@, causes_damage@, positions@),
                    e, #[trigger] rolls[e])
                &&& melee_view(final(suffer_damage)@, final(damage_histories)@, final(log), final(particle_effect_spawner))
                    == melee_fold(
                        melee_inputs(entities, old(wants_to_melee)@, names@, combat_stats@, equipment@, causes_damage@, positions@),
                        melee_view(old(suffer_damage)@, old(damage_histories)@, old(log), old(particle_effect_spawner)),
                        entities.alive@.len() as int,
                        rolls,
                    )
            },
            forall|e: int| !present(final(wants_to_melee)@, e),
            damage_not_lowered(old(suffer_damage)@, final(suffer_damage)@),
    {
        let ghost inp = melee_inputs(entities, wants_to_melee@, names@, combat_stats@, equipment@, causes_damage@, positions@);
        let ghost v0 = melee_view(suffer_damage@, damage_histories@, log, particle_effect_spawner);
        let ghost mut rolls: Seq<AttackRolls> = Seq::empty();
        let n = entities.alive.len();
        let mut e: usize = 0;
        while e < n
            invariant
                n == entities.alive@.len(),
                e <= n,
                inp == melee_inputs(entities, wants_to_melee@, names@, combat_stats@, equipment@, causes_damage@, positions@),
                melee_ready(inp, old(suffer_damage)@),
                rolls.len() == e,
                forall|i: int| 0 <= i < e ==> rolls_ok(inp, i, #[trigger] rolls[i]),
                melee_view(suffer_damage@, damage_histories@, log, particle_effect_spawner) == melee_fold(inp, v0, e as int, rolls),
                queued_within(inp, old(suffer_damage)@, suffer_damage@, e as int),
                damage_not_lowered(old(suffer_damage)@, suffer_damage@),
            decreases n - e,
        {
            let ghost before = rolls;
            let ghost suffer_before = suffer_damage@;
            let r = melee_attack(e, entities, wants_to_melee, suffer_damage, names, combat_stats, equipment, causes_damage,
                log, particle_effect_spawner, positions, damage_histories, rng,
                Ghost(old(suffer_damage)@));
            proof {
                rolls = rolls.push(r@);
                lemma_fold_prefix(inp, v0, e as int, before, rolls);
                assert forall|t: int| #[trigger] present(old(suffer_damage)@, t) implies
                    present(suffer_damage@, t) && comp(suffer_damage@, t).amount >= comp(old(suffer_damage)@, t).amount by {
                    assert(present(suffer_before, t));
                }
                assert forall|t: int| !present(old(suffer_damage)@, t) && #[trigger] present(suffer_damage@, t) implies
                    comp(suffer_damage@, t).amount > 0 by {
                    if present(suffer_before, t) {
                        assert(comp(suffer_before, t).amount > 0);
                    }
                }
            }
            e += 1;
        }
        crate::ecs::clear(wants_to_melee);
    }
}

} // verus!
