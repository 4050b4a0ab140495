use vstd::prelude::*;
use crate::components::{CombatStats, Flammable, OnFire, Position, SufferDamage};
use crate::dungeon::Dungeon;
use crate::ecs::{comp, contains, get, lookup, present, put, stored, Entity};
use crate::level::Level;
use crate::rng::rng_range;
use crate::systems::door_systems::all_levels_wf;

verus! {

/// The eight tiles around tile `idx` of a grid `width` wide, row by row from the top left.
pub open spec fn neighbors(width: int, idx: int) -> Seq<int> {
    seq![
        idx - width - 1, idx - width, idx - width + 1,
        idx - 1, idx + 1,
        idx + width - 1, idx + width, idx + width + 1,
    ]
}

/// The entities listed on the first `k` neighbours of tile `idx` of `level`, tile by tile.
pub open spec fn around(level: Level, idx: int, k: int) -> Seq<Entity>
    decreases k,
{
    if k <= 0 {
        Seq::empty()
    } else {
        around(level, idx, k - 1) + level.tile_content@[neighbors(level.width as int, idx)[k - 1]]@
    }
}

/// Whether entity `e` is burning and has a position.
pub open spec fn burning(on_fires: Seq<Option<OnFire>>, positions: Seq<Option<Position>>, e: int) -> bool {
    present(on_fires, e) && present(positions, e)
}

/// The entities around the burning entities among `0..k`, in entity order.
pub open spec fn fire_candidates(on_fires: Seq<Option<OnFire>>, positions: Seq<Option<Position>>, levels: Seq<Level>, k: int) -> Seq<Entity>
    decreases k,
{
    if k <= 0 {
        Seq::empty()
    } else {
        let prev = fire_candidates(on_fires, positions, levels, k - 1);
        if burning(on_fires, positions, k - 1) {
            let p = comp(positions, k - 1);
            prev + around(levels[p.level as int], p.idx as int, 8)
        } else {
            prev
        }
    }
}

/// What spreading fire changes.
pub struct FireView {
    pub on_fires: Seq<Option<OnFire>>,
    pub suffer: Seq<Option<SufferDamage>>,
}

/// Fire reaches entity `c`, the coin showing `roll` (0 or 1): something flammable catches fire
/// on a one, and anything with combat stats takes two more damage.
pub open spec fn spread_step(flammables: Seq<Option<Flammable>>, stats: Seq<Option<CombatStats>>, v: FireView, c: int, roll: i32) -> FireView {
    FireView {
        on_fires: if present(flammables, c) && roll == 1 { stored(v.on_fires, c, Some(OnFire {})) } else { v.on_fires },
        suffer: if present(stats, c) {
            let before = if present(v.suffer, c) { comp(v.suffer, c).amount as int } else { 0 };
            stored(v.suffer, c, Some(SufferDamage { amount: (before + 2) as i32 }))
        } else {
            v.suffer
        },
    }
}

/// Fire reaching `cands[0..k]` in order, reach `i` rolling `rolls[i]`.
pub open spec fn spread_fold(flammables: Seq<Option<Flammable>>, stats: Seq<Option<CombatStats>>, v: FireView, cands: Seq<Entity>, rolls: Seq<i32>, k: int) -> FireView
    decreases k,
{
    if k <= 0 { v } else { spread_step(flammables, stats, spread_fold(flammables, stats, v, cands, rolls, k - 1), cands[k - 1] as int, rolls[k - 1]) }
}

proof fn lemma_spread_prefix(flammables: Seq<Option<Flammable>>, stats: Seq<Option<CombatStats>>, v: FireView, cands: Seq<Entity>, a: Seq<i32>, b: Seq<i32>, k: int)
    requires
        0 <= k <= a.len(),
        k <= b.len(),
        forall|i: int| 0 <= i < k ==> a[i] == b[i],
    ensures
        spread_fold(flammables, stats, v, cands, a, k) == spread_fold(flammables, stats, v, cands, b, k),
    decreases k,
{
    if k > 0 {
        lemma_spread_prefix(flammables, stats, v, cands, a, b, k - 1);
    }
}

/// Every queued damage after `k` steps of the fold is at most `start + 2 * k` where every one
/// started at most `start`.
proof fn lemma_spread_bound(flammables: Seq<Option<Flammable>>, stats: Seq<Option<CombatStats>>, v: FireView, cands: Seq<Entity>, rolls: Seq<i32>, k: int, start: int)
    requires
        0 <= k <= cands.len(),
        k <= rolls.len(),
        0 <= start,
        forall|i: int| #[trigger] present(v.suffer, i) ==> comp(v.suffer, i).amount <= start,
        start + 2 * cands.len() <= i32::MAX,
    ensures
        forall|i: int| #[trigger] present(spread_fold(flammables, stats, v, cands, rolls, k).suffer, i)
            ==> comp(spread_fold(flammables, stats, v, cands, rolls, k).suffer, i).amount <= start + 2 * k,
    decreases k,
{
    if k > 0 {
        lemma_spread_bound(flammables, stats, v, cands, rolls, k - 1, start);
        let prev = spread_fold(flammables, stats, v, cands, rolls, k - 1);
        let next = spread_fold(flammables, stats, v, cands, rolls, k);
        let c = cands[k - 1] as int;
        assert(next == spread_step(flammables, stats, prev, c, rolls[k - 1]));
        if present(stats, c) {
            let before = if present(prev.suffer, c) { comp(prev.suffer, c).amount as int } else { 0 };
            crate::ecs::lemma_stored_lookup(prev.suffer, c, Some(SufferDamage { amount: (before + 2) as i32 }));
            assert(before <= start + 2 * (k - 1));
            assert(before + 2 <= i32::MAX);
            assert(((before + 2) as i32) as int == before + 2);
            assert forall|i: int| #[trigger] present(next.suffer, i) implies comp(next.suffer, i).amount <= start + 2 * k by {
                if i != c {
                    assert(lookup(next.suffer, i) == lookup(prev.suffer, i));
                    assert(present(prev.suffer, i));
                    assert(comp(prev.suffer, i).amount <= start + 2 * (k - 1));
                } else {
                    assert(lookup(next.suffer, i) == Some(SufferDamage { amount: (before + 2) as i32 }));
                }
            }
        }
    }
}

/// Whether fire around every burning entity can be worked out: its level exists, its eight
/// neighbours are tiles of it, and the level's tile count fits in an `i32`.
pub open spec fn spread_ready(on_fires: Seq<Option<OnFire>>, positions: Seq<Option<Position>>, levels: Seq<Level>) -> bool {
    &&& all_levels_wf(levels)
    &&& forall|e: int| #[trigger] burning(on_fires, positions, e) ==> {
        let p = comp(positions, e);
        &&& (p.level as int) < levels.len()
        &&& levels[p.level as int].tiles@.len() <= i32::MAX
        &&& forall|j: int| 0 <= j < 8 ==> 0 <= #[trigger] neighbors(levels[p.level as int].width as int, p.idx as int)[j]
            < levels[p.level as int].tiles@.len()
    }
}

/// Appends the entities listed on tile `t` of `level`.
fn append_tile(out: &mut Vec<Entity>, level: &Level, t: usize)
    requires
        t < level.tile_content@.len(),
    ensures
        final(out)@ == old(out)@ + level.tile_content@[t as int]@,
{
    let here = &level.tile_content[t];
    let mut i: usize = 0;
    while i < here.len()
        invariant
            i <= here@.len(),
            out@ == old(out)@ + here@.subrange(0, i as int),
        decreases here@.len() - i,
    {
        out.push(here[i]);
        i += 1;
        assert(out@ =~= old(out)@ + here@.subrange(0, i as int));
    }
    assert(here@.subrange(0, here@.len() as int) =~= here@);
}

/// Appends the entities listed on the eight tiles around tile `idx` of `level`.
fn append_around(out: &mut Vec<Entity>, level: &Level, idx: usize)
    requires
        level.wf(),
        forall|j: int| 0 <= j < 8 ==> 0 <= #[trigger] neighbors(level.width as int, idx as int)[j] < level.tiles@.len(),
    ensures
        final(out)@ == old(out)@ + around(*level, idx as int, 8),
{
    let w = level.width as usize;
    let len = level.tiles.len();
    let ghost nb = neighbors(level.width as int, idx as int);
    assert(0 <= nb[0] && nb[7] < level.tiles@.len());
    assert(0 <= nb[3] && nb[4] < level.tiles@.len());
    let ts: [usize; 8] = [idx - w - 1, idx - w, idx - w + 1, idx - 1, idx + 1, idx + w - 1, idx + w, idx + w + 1];
    let mut k: usize = 0;
    while k < 8
        invariant
            k <= 8,
            level.wf(),
            nb == neighbors(level.width as int, idx as int),
            forall|j: int| 0 <= j < 8 ==> 0 <= #[trigger] nb[j] < level.tiles@.len(),
            forall|j: int| 0 <= j < 8 ==> ts@[j] as int == #[trigger] nb[j],
            out@ == old(out)@ + around(*level, idx as int, k as int),
        decreases 8 - k,
    {
        assert(ts@[k as int] as int == nb[k as int]);
        append_tile(out, level, ts[k]);
        assert(out@ =~= old(out)@ + around(*level, idx as int, k + 1));
        k += 1;
    }
}

/// Spreads fire to the surroundings of burning things.
pub struct FireSpreadSystem {}

impl FireSpreadSystem {
    /// The entities on the eight tiles around every burning entity, in entity order, are each
    /// reached once per time listed: the result is `spread_fold` over them with some rolls of 0
    /// or 1.
    pub fn run(
        &mut self,
        on_fires: &mut Vec<Option<OnFire>>,
        positions: &Vec<Option<Position>>,
        flammables: &Vec<Option<Flammable>>,
        combat_stats: &Vec<Option<CombatStats>>,
        dungeon: &Dungeon,
        suffer_damage: &mut Vec<Option<SufferDamage>>,
        rng: &mut rltk::RandomNumberGenerator,
    )
        requires
            spread_ready(old(on_fires)@, positions@, dungeon.levels@),
            2 * fire_candidates(old(on_fires)@, positions@, dungeon.levels@, old(on_fires)@.len() as int).len() <= i32::MAX,
            forall|i: int| #[trigger] present(old(suffer_damage)@, i) ==> comp(old(suffer_damage)@, i).amount
                <= i32::MAX - 2 * fire_candidates(old(on_fires)@, positions@, dungeon.levels@, old(on_fires)@.len() as int).len(),
        ensures
            ({
                let cands = fire_candidates(old(on_fires)@, positions@, dungeon.levels@, old(on_fires)@.len() as int);
                exists|rolls: Seq<i32>| {
                    &&& rolls.len() == cands.len()
                    &&& forall|i: int| 0 <= i < rolls.len() ==> 0 <= #[trigger] rolls[i] < 2
                    &&& (FireView { on_fires: final(on_fires)@, suffer: final(suffer_damage)@ })
                        == spread_fold(flammables@, combat_stats@, FireView { on_fires: old(on_fires)@, suffer: old(suffer_damage)@ }, cands, rolls, cands.len() as int)
                }
            }),
    {
        let ghost f0 = on_fires@;
        let ghost v0 = FireView { on_fires: on_fires@, suffer: suffer_damage@ };
        let n = on_fires.len();
        let mut cands: Vec<Entity> = Vec::new();
        let mut e: usize = 0;
        while e < n
            invariant
                e <= n,
                n == f0.len(),
                on_fires@ == f0,
                spread_ready(f0, positions@, dungeon.levels@),
                cands@ == fire_candidates(f0, positions@, dungeon.levels@, e as int),
            decreases n - e,
        {
            if contains(on_fires, e) {
                match get(positions, e) {
                    Some(p) => {
                        assert(burning(f0, positions@, e as int));
                        let level = &dungeon.levels[p.level as usize];
                        assert(level.wf());
                        append_around(&mut cands, level, p.idx);
                    },
                    None => {},
                }
            }
            e += 1;
        }
        let ghost total = cands@;
        let ghost start = i32::MAX - 2 * total.len();
        let ghost mut rolls: Seq<i32> = Seq::empty();
        let m = cands.len();
        let mut j: usize = 0;
        while j < m
            invariant
                j <= m,
                m == total.len(),
                cands@ == total,
                0 <= start,
                start + 2 * total.len() <= i32::MAX,
                forall|i: int| #[trigger] present(v0.suffer, i) ==> comp(v0.suffer, i).amount <= start,
                rolls.len() == j,
                forall|i: int| 0 <= i < j ==> 0 <= #[trigger] rolls[i] < 2,
                (FireView { on_fires: on_fires@, suffer: suffer_damage@ }) == spread_fold(flammables@, combat_stats@, v0, total, rolls, j as int),
            decreases m - j,
        {
            let c = cands[j];
            let ghost before = rolls;
            proof {
                lemma_spread_bound(flammables@, combat_stats@, v0, total, rolls, j as int, start);
            }
            let mut roll: i32 = 0;
            if contains(flammables, c) {
                roll = rng_range(rng, 0, 2);
                if roll == 1 {
                    put(on_fires, c, Some(OnFire {}));
                }
            }
            if contains(combat_stats, c) {
                assert(lookup(suffer_damage@, c as int) == lookup(spread_fold(flammables@, combat_stats@, v0, total, rolls, j as int).suffer, c as int));
                let amount: i32 = match get(suffer_damage, c) {
                    Some(s) => {
                        assert(present(spread_fold(flammables@, combat_stats@, v0, total, rolls, j as int).suffer, c as int));
                        s.amount
                    },
                    None => 0,
                };
                put(suffer_damage, c, Some(SufferDamage { amount: amount + 2 }));
            }
            proof {
                rolls = rolls.push(roll);
                lemma_spread_prefix(flammables@, combat_stats@, v0, total, before, rolls, j as int);
            }
            j += 1;
        }
    }
}

} // verus!
