use vstd::prelude::*;
use crate::components::{CausesLight, Equipment, Position};
use crate::dungeon::{level_with, only_level_changed, Dungeon};
use crate::ecs::{comp, get, present, Entity};
use crate::level::Level;
use crate::systems::door_systems::all_levels_wf;

verus! {

/// The squared distance between tiles `a` and `b` of a grid `width` wide.
pub open spec fn sq_dist(width: int, a: int, b: int) -> int {
    let dx = a % width - b % width;
    let dy = a / width - b / width;
    dx * dx + dy * dy
}

/// Whether offset (`a`, `b`) of the square of side `2r + 1` around tile `pos` names tile `t`,
/// a tile of the level closer to `pos` than `r`.
pub open spec fn cell(width: int, count: int, pos: int, r: int, a: int, b: int, t: int) -> bool {
    &&& -r <= a <= r
    &&& -r <= b <= r
    &&& t == pos + b * width + a
    &&& 0 <= t < count
    &&& sq_dist(width, t, pos) < r * r
}

/// Whether a light of radius `r` on tile `pos` lights tile `t` of a level `width` wide with
/// `count` tiles.
pub open spec fn lit_by(width: int, count: int, pos: int, r: int, t: int) -> bool {
    exists|a: int, b: int| #[trigger] cell(width, count, pos, r, a, b, t)
}

/// Whether `t` is lit by one of the offsets of the rows before `y`, or of row `y` before column `x`.
pub open spec fn covered(width: int, count: int, pos: int, r: int, t: int, y: int, x: int) -> bool {
    exists|a: int, b: int| #[trigger] cell(width, count, pos, r, a, b, t) && (b < y || (b == y && a < x))
}

/// Whether the index arithmetic for a light of radius `r` on tile `pos` stays within `i32`.
pub open spec fn light_fits(width: int, pos: int, r: int) -> bool {
    &&& 0 <= pos <= i32::MAX
    &&& (r <= 0 || pos + r * (width + 1) <= i32::MAX)
}

proof fn lemma_covered_next_x(width: int, count: int, pos: int, r: int, t: int, y: int, x: int)
    requires
        -r <= x <= r,
        -r <= y <= r,
    ensures
        covered(width, count, pos, r, t, y, x + 1) == (covered(width, count, pos, r, t, y, x) || cell(width, count, pos, r, x, y, t)),
{
    if covered(width, count, pos, r, t, y, x + 1) {
        let (a, b) = choose|a: int, b: int| #[trigger] cell(width, count, pos, r, a, b, t) && (b < y || (b == y && a < x + 1));
        if !(a == x && b == y) {
            assert(cell(width, count, pos, r, a, b, t) && (b < y || (b == y && a < x)));
        }
    }
    if covered(width, count, pos, r, t, y, x) {
        let (a, b) = choose|a: int, b: int| #[trigger] cell(width, count, pos, r, a, b, t) && (b < y || (b == y && a < x));
        assert(cell(width, count, pos, r, a, b, t) && (b < y || (b == y && a < x + 1)));
    }
    if cell(width, count, pos, r, x, y, t) {
        assert(cell(width, count, pos, r, x, y, t) && (y < y || (y == y && x < x + 1)));
    }
}

proof fn lemma_covered_next_row(width: int, count: int, pos: int, r: int, t: int, y: int)
    ensures
        covered(width, count, pos, r, t, y, r + 1) == covered(width, count, pos, r, t, y + 1, -r),
{
    if covered(width, count, pos, r, t, y, r + 1) {
        let (a, b) = choose|a: int, b: int| #[trigger] cell(width, count, pos, r, a, b, t) && (b < y || (b == y && a < r + 1));
        assert(cell(width, count, pos, r, a, b, t) && (b < y + 1 || (b == y + 1 && a < -r)));
    }
    if covered(width, count, pos, r, t, y + 1, -r) {
        let (a, b) = choose|a: int, b: int| #[trigger] cell(width, count, pos, r, a, b, t) && (b < y + 1 || (b == y + 1 && a < -r));
        assert(cell(width, count, pos, r, a, b, t) && (b < y || (b == y && a < r + 1)));
    }
}

/// Lights every tile of level `l` that a light of radius `radius` on tile `pos` reaches: the
/// tiles of the square of side `2 * radius + 1` around it that are closer than `radius`.
pub fn light_area(dungeon: &mut Dungeon, l: usize, pos: i32, radius: i32)
    requires
        l < old(dungeon).levels@.len(),
        old(dungeon).levels@[l as int].wf(),
        light_fits(old(dungeon).levels@[l as int].width as int, pos as int, radius as int),
    ensures
        only_level_changed(old(dungeon).levels@, final(dungeon).levels@, l as int),
        level_with(
            old(dungeon).levels@[l as int],
            final(dungeon).levels@[l as int],
            old(dungeon).levels@[l as int].tiles@,
            old(dungeon).levels@[l as int].blocked@,
            old(dungeon).levels@[l as int].opaque@,
            Seq::new(old(dungeon).levels@[l as int].lit_tiles@.len(), |t: int| old(dungeon).levels@[l as int].lit_tiles@[t]
                || lit_by(old(dungeon).levels@[l as int].width as int, old(dungeon).levels@[l as int].lit_tiles@.len() as int, pos as int, radius as int, t)),
        ),
        final(dungeon).levels@[l as int].wf(),
        final(dungeon).levels@[l as int].tile_count() == old(dungeon).levels@[l as int].tile_count(),
{
    let ghost lv0 = dungeon.levels@;
    let ghost a0 = dungeon.levels@[l as int];
    let w = dungeon.levels[l].width;
    let count = dungeon.levels[l].lit_tiles.len();
    let ghost wi = w as int;
    let ghost ci = count as int;
    let ghost target = Seq::new(a0.lit_tiles@.len(), |t: int| a0.lit_tiles@[t] || lit_by(wi, ci, pos as int, radius as int, t));
    if radius <= 0 {
        proof {
            assert forall|t: int| !lit_by(wi, ci, pos as int, radius as int, t) by {
                if lit_by(wi, ci, pos as int, radius as int, t) {
                    let (a, b) = choose|a: int, b: int| #[trigger] cell(wi, ci, pos as int, radius as int, a, b, t);
                    assert(radius == 0);
                    assert(a == 0 && b == 0);
                }
            }
            assert(a0.lit_tiles@ =~= target);
        }
        return;
    }
    assert(radius < i32::MAX) by (nonlinear_arith)
        requires 0 < radius, w > 0, pos + radius * (w + 1) <= i32::MAX, pos >= 0;
    let mut y: i32 = -radius;
    while y <= radius
        invariant
            0 < radius < i32::MAX,
            -radius <= y <= radius + 1,
            l < dungeon.levels@.len(),
            only_level_changed(lv0, dungeon.levels@, l as int),
            level_with(a0, dungeon.levels@[l as int], a0.tiles@, a0.blocked@, a0.opaque@, dungeon.levels@[l as int].lit_tiles@),
            dungeon.levels@[l as int].wf(),
            a0.wf(),
            wi == a0.width,
            ci == a0.lit_tiles@.len(),
            w == a0.width,
            count == a0.lit_tiles@.len(),
            light_fits(wi, pos as int, radius as int),
            dungeon.levels@[l as int].lit_tiles@.len() == ci,
            forall|t: int| 0 <= t < ci ==> #[trigger] dungeon.levels@[l as int].lit_tiles@[t]
                == (a0.lit_tiles@[t] || covered(wi, ci, pos as int, radius as int, t, y as int, -radius as int)),
        decreases radius + 1 - y,
    {
        let mut x: i32 = -radius;
        while x <= radius
            invariant
                0 < radius < i32::MAX,
                -radius <= y <= radius,
                -radius <= x <= radius + 1,
                l < dungeon.levels@.len(),
                only_level_changed(lv0, dungeon.levels@, l as int),
                level_with(a0, dungeon.levels@[l as int], a0.tiles@, a0.blocked@, a0.opaque@, dungeon.levels@[l as int].lit_tiles@),
                dungeon.levels@[l as int].wf(),
                a0.wf(),
                wi == a0.width,
                ci == a0.lit_tiles@.len(),
                w == a0.width,
                count == a0.lit_tiles@.len(),
                light_fits(wi, pos as int, radius as int),
                dungeon.levels@[l as int].lit_tiles@.len() == ci,
                forall|t: int| 0 <= t < ci ==> #[trigger] dungeon.levels@[l as int].lit_tiles@[t]
                    == (a0.lit_tiles@[t] || covered(wi, ci, pos as int, radius as int, t, y as int, x as int)),
            decreases radius + 1 - x,
        {
            let ghost before = dungeon.levels@[l as int].lit_tiles@;
            let y64: i64 = y as i64;
            let w64: i64 = w as i64;
            let r64: i64 = radius as i64;
            assert(r64 * w64 + r64 <= i32::MAX - pos) by (nonlinear_arith)
                requires 0 < r64, w64 > 0, pos + r64 * (w64 + 1) <= i32::MAX, pos >= 0;
            assert(-(r64 * w64) <= y64 * w64 <= r64 * w64) by (nonlinear_arith)
                requires -r64 <= y64 <= r64, w64 > 0;
            let yw: i64 = y64 * w64;
            let t: i64 = pos as i64 + yw + x as i64;
            assert(t <= i32::MAX);
            let mut hit = false;
            if 0 <= t && (t as usize) < count {
                let wl = w as i64;
                let p = pos as i64;
                let dx64: i64 = (t % wl) - (p % wl);
                assert(0 <= t / wl <= t && 0 <= p / wl <= p) by (nonlinear_arith)
                    requires wl > 0, t >= 0, p >= 0;
                let dy64: i64 = (t / wl) - (p / wl);
                assert(-0x1_0000_0000 <= dx64 <= 0x1_0000_0000);
                assert(-0x1_0000_0000 <= dy64 <= 0x1_0000_0000);
                let dx: i128 = dx64 as i128;
                let dy: i128 = dy64 as i128;
                assert(dx * dx <= 0x1_0000_0000_0000_0000) by (nonlinear_arith)
                    requires -0x1_0000_0000 <= dx <= 0x1_0000_0000;
                assert(dy * dy <= 0x1_0000_0000_0000_0000) by (nonlinear_arith)
                    requires -0x1_0000_0000 <= dy <= 0x1_0000_0000;
                assert(0 <= dx * dx && 0 <= dy * dy) by (nonlinear_arith);
                assert(0 <= radius * radius <= 0x1_0000_0000_0000_0000) by (nonlinear_arith)
                    requires 0 < radius <= i32::MAX;
                let rr: i128 = (radius as i128) * (radius as i128);
                if dx * dx + dy * dy < rr {
                    hit = true;
                    assert(cell(wi, ci, pos as int, radius as int, x as int, y as int, t as int));
                    dungeon.light_tile(l, t as usize);
                }
            }
            proof {
                assert(hit == cell(wi, ci, pos as int, radius as int, x as int, y as int, pos + y * wi + x));
                assert forall|s: int| 0 <= s < ci implies #[trigger] dungeon.levels@[l as int].lit_tiles@[s]
                    == (a0.lit_tiles@[s] || covered(wi, ci, pos as int, radius as int, s, y as int, x + 1)) by {
                    lemma_covered_next_x(wi, ci, pos as int, radius as int, s, y as int, x as int);
                    assert(before[s] == (a0.lit_tiles@[s] || covered(wi, ci, pos as int, radius as int, s, y as int, x as int)));
                    if cell(wi, ci, pos as int, radius as int, x as int, y as int, s) {
                        assert(s == t);
                    }
                }
            }
            x += 1;
        }
        proof {
            assert forall|s: int| 0 <= s < ci implies #[trigger] dungeon.levels@[l as int].lit_tiles@[s]
                == (a0.lit_tiles@[s] || covered(wi, ci, pos as int, radius as int, s, y + 1, -radius as int)) by {
                lemma_covered_next_row(wi, ci, pos as int, radius as int, s, y as int);
            }
        }
        y += 1;
    }
    proof {
        assert forall|s: int| 0 <= s < ci implies #[trigger] dungeon.levels@[l as int].lit_tiles@[s] == target[s] by {
            if lit_by(wi, ci, pos as int, radius as int, s) {
                let (a, b) = choose|a: int, b: int| #[trigger] cell(wi, ci, pos as int, radius as int, a, b, s);
                assert(cell(wi, ci, pos as int, radius as int, a, b, s) && (b < radius + 1 || (b == radius + 1 && a < -radius)));
            }
            if covered(wi, ci, pos as int, radius as int, s, radius + 1, -radius as int) {
                let (a, b) = choose|a: int, b: int| #[trigger] cell(wi, ci, pos as int, radius as int, a, b, s)
                    && (b < radius + 1 || (b == radius + 1 && a < -radius));
                assert(cell(wi, ci, pos as int, radius as int, a, b, s));
            }
        }
        assert(dungeon.levels@[l as int].lit_tiles@ =~= target);
    }
}

/// The radius of light that a held item gives: its radius when it is a lit light source,
/// otherwise nothing.
pub open spec fn hand_light(causes_light: Seq<Option<CausesLight>>, item: Option<Entity>) -> int {
    match item {
        Some(i) => if present(causes_light, i as int) && comp(causes_light, i as int).lit {
            comp(causes_light, i as int).radius as int
        } else {
            0
        },
        None => 0,
    }
}

/// The radius of light that `item` gives when held.
pub fn get_light_radius_from_equipment(item: Entity, causes_light: &Vec<Option<CausesLight>>) -> (r: i32)
    ensures
        r == hand_light(causes_light@, Some(item)),
{
    match get(causes_light, item) {
        Some(light) => if light.lit { light.radius } else { 0 },
        None => 0,
    }
}

/// The light an equipped entity carries: the brighter of its two hands.
pub open spec fn carried_radius(equipment: Seq<Option<Equipment>>, causes_light: Seq<Option<CausesLight>>, e: int) -> int {
    let eq = comp(equipment, e);
    let d = hand_light(causes_light, eq.dominant_hand);
    let o = hand_light(causes_light, eq.off_hand);
    if d >= o { d } else { o }
}

/// Whether entity `e` has equipment and a position, and so carries its hands' light around.
pub open spec fn carries_light(equipment: Seq<Option<Equipment>>, positions: Seq<Option<Position>>, e: int) -> bool {
    present(equipment, e) && present(positions, e)
}

/// Whether entity `e` is a lit light source with a position.
pub open spec fn is_lamp(positions: Seq<Option<Position>>, causes_light: Seq<Option<CausesLight>>, e: int) -> bool {
    present(positions, e) && present(causes_light, e) && comp(causes_light, e).lit
}

/// Whether tile `t` of level `l` is lit by the light carried by one of the entities `0..k`.
pub open spec fn lit_by_carried(
    levels: Seq<Level>,
    equipment: Seq<Option<Equipment>>,
    causes_light: Seq<Option<CausesLight>>,
    positions: Seq<Option<Position>>,
    l: int,
    t: int,
    k: int,
) -> bool
    decreases k,
{
    if k <= 0 {
        false
    } else {
        lit_by_carried(levels, equipment, causes_light, positions, l, t, k - 1) || {
            let p = comp(positions, k - 1);
            &&& carries_light(equipment, positions, k - 1)
            &&& p.level == l
            &&& lit_by(levels[l].width as int, levels[l].lit_tiles@.len() as int, p.idx as int,
                    carried_radius(equipment, causes_light, k - 1), t)
        }
    }
}

/// Whether tile `t` of level `l` is lit by one of the lamps among entities `0..k`.
pub open spec fn lit_by_lamps(
    levels: Seq<Level>,
    causes_light: Seq<Option<CausesLight>>,
    positions: Seq<Option<Position>>,
    l: int,
    t: int,
    k: int,
) -> bool
    decreases k,
{
    if k <= 0 {
        false
    } else {
        lit_by_lamps(levels, causes_light, positions, l, t, k - 1) || {
            let p = comp(positions, k - 1);
            &&& is_lamp(positions, causes_light, k - 1)
            &&& p.level == l
            &&& lit_by(levels[l].width as int, levels[l].lit_tiles@.len() as int, p.idx as int,
                    comp(causes_light, k - 1).radius as int, t)
        }
    }
}

/// Whether every light source stands on an existing level and its index arithmetic fits.
pub open spec fn lights_ready(
    levels: Seq<Level>,
    equipment: Seq<Option<Equipment>>,
    causes_light: Seq<Option<CausesLight>>,
    positions: Seq<Option<Position>>,
) -> bool {
    &&& all_levels_wf(levels)
    &&& forall|e: int| #[trigger] carries_light(equipment, positions, e) ==> {
        let p = comp(positions, e);
        &&& (p.level as int) < levels.len()
        &&& light_fits(levels[p.level as int].width as int, p.idx as int, carried_radius(equipment, causes_light, e))
    }
    &&& forall|e: int| #[trigger] is_lamp(positions, causes_light, e) ==> {
        let p = comp(positions, e);
        &&& (p.level as int) < levels.len()
        &&& light_fits(levels[p.level as int].width as int, p.idx as int, comp(causes_light, e).radius as int)
    }
}

/// Works out which tiles are lit.
pub struct LightSystem {}

impl LightSystem {
    /// Every level's lit tiles are recomputed from scratch: a tile is lit when the light carried
    /// by an equipped entity, or a lit lamp, on its level reaches it. Nothing else changes.
    pub fn run(
        &mut self,
        dungeon: &mut Dungeon,
        positions: &Vec<Option<Position>>,
        equipment: &Vec<Option<Equipment>>,
        causes_light: &Vec<Option<CausesLight>>,
    )
        requires
            lights_ready(old(dungeon).levels@, equipment@, causes_light@, positions@),
        ensures
            final(dungeon).levels@.len() == old(dungeon).levels@.len(),
            all_levels_wf(final(dungeon).levels@),
            forall|l: int| 0 <= l < old(dungeon).levels@.len() ==> level_with(
                old(dungeon).levels@[l],
                #[trigger] final(dungeon).levels@[l],
                old(dungeon).levels@[l].tiles@,
                old(dungeon).levels@[l].blocked@,
                old(dungeon).levels@[l].opaque@,
                Seq::new(old(dungeon).levels@[l].lit_tiles@.len(), |t: int|
                    lit_by_carried(old(dungeon).levels@, equipment@, causes_light@, positions@, l, t, positions@.len() as int)
                    || lit_by_lamps(old(dungeon).levels@, causes_light@, positions@, l, t, positions@.len() as int)),
            ),
    {
        let ghost lv0 = dungeon.levels@;
        let nl = dungeon.levels.len();
        let mut i: usize = 0;
        while i < nl
            invariant
                i <= nl,
                nl == lv0.len(),
                dungeon.levels@.len() == nl,
                all_levels_wf(lv0),
                all_levels_wf(dungeon.levels@),
                forall|l: int| i <= l < nl ==> #[trigger] dungeon.levels@[l] == lv0[l],
                forall|l: int| 0 <= l < i ==> level_with(lv0[l], #[trigger] dungeon.levels@[l], lv0[l].tiles@, lv0[l].blocked@,
                    lv0[l].opaque@, Seq::new(lv0[l].lit_tiles@.len(), |t: int| false)),
            decreases nl - i,
        {
            assert(dungeon.levels@[i as int].wf());
            dungeon.clear_lit(i);
            proof {
                assert forall|l: int| 0 <= l < nl implies #[trigger] dungeon.levels@[l].wf() by {
                    if l != i {
                        assert(lv0[l].wf());
                    }
                }
            }
            i += 1;
        }
        let n = positions.len();
        proof {
            assert forall|l: int| 0 <= l < nl implies level_with(lv0[l], #[trigger] dungeon.levels@[l], lv0[l].tiles@, lv0[l].blocked@,
                lv0[l].opaque@, Seq::new(lv0[l].lit_tiles@.len(), |t: int| lit_by_carried(lv0, equipment@, causes_light@, positions@, l, t, 0))) by {
                assert(Seq::new(lv0[l].lit_tiles@.len(), |t: int| false)
                    =~= Seq::new(lv0[l].lit_tiles@.len(), |t: int| lit_by_carried(lv0, equipment@, causes_light@, positions@, l, t, 0)));
            }
        }
        let mut e: usize = 0;
        while e < n
            invariant
                e <= n,
                n == positions@.len(),
                nl == lv0.len(),
                dungeon.levels@.len() == nl,
                lights_ready(lv0, equipment@, causes_light@, positions@),
                all_levels_wf(dungeon.levels@),
                forall|l: int| 0 <= l < nl ==> level_with(lv0[l], #[trigger] dungeon.levels@[l], lv0[l].tiles@, lv0[l].blocked@,
                    lv0[l].opaque@, Seq::new(lv0[l].lit_tiles@.len(), |t: int| lit_by_carried(lv0, equipment@, causes_light@, positions@, l, t, e as int))),
            decreases n - e,
        {
            let ghost cur = dungeon.levels@;
            match get(equipment, e) {
                Some(eq) => match get(positions, e) {
                    Some(p) => {
                        assert(carries_light(equipment@, positions@, e as int));
                        let d = match eq.dominant_hand {
                            Some(item) => get_light_radius_from_equipment(item, causes_light),
                            None => 0,
                        };
                        let o = match eq.off_hand {
                            Some(item) => get_light_radius_from_equipment(item, causes_light),
                            None => 0,
                        };
                        let r = if d >= o { d } else { o };
                        let l = p.level as usize;
                        assert(dungeon.levels@[l as int].wf());
                        assert(dungeon.levels@[l as int].width == lv0[l as int].width);
                        light_area(dungeon, l, p.idx as i32, r);
                        proof {
                            assert forall|k: int| 0 <= k < nl implies level_with(lv0[k], #[trigger] dungeon.levels@[k], lv0[k].tiles@, lv0[k].blocked@,
                                lv0[k].opaque@, Seq::new(lv0[k].lit_tiles@.len(), |t: int| lit_by_carried(lv0, equipment@, causes_light@, positions@, k, t, e + 1))) by {
                                assert(level_with(lv0[k], cur[k], lv0[k].tiles@, lv0[k].blocked@,
                                    lv0[k].opaque@, Seq::new(lv0[k].lit_tiles@.len(), |t: int| lit_by_carried(lv0, equipment@, causes_light@, positions@, k, t, e as int))));
                                assert(dungeon.levels@[k].lit_tiles@ =~= Seq::new(lv0[k].lit_tiles@.len(), |t: int| lit_by_carried(lv0, equipment@, causes_light@, positions@, k, t, e + 1)));
                            }
                            assert forall|k: int| 0 <= k < nl implies #[trigger] dungeon.levels@[k].wf() by {
                                if k != l {
                                    assert(cur[k].wf());
                                }
                            }
                        }
                    },
                    None => {
                        proof {
                            assert forall|k: int| 0 <= k < nl implies level_with(lv0[k], #[trigger] dungeon.levels@[k], lv0[k].tiles@, lv0[k].blocked@,
                                lv0[k].opaque@, Seq::new(lv0[k].lit_tiles@.len(), |t: int| lit_by_carried(lv0, equipment@, causes_light@, positions@, k, t, e + 1))) by {
                                assert(dungeon.levels@[k].lit_tiles@ =~= Seq::new(lv0[k].lit_tiles@.len(), |t: int| lit_by_carried(lv0, equipment@, causes_light@, positions@, k, t, e + 1)));
                            }
                        }
                    },
                },
                None => {
                    proof {
                        assert forall|k: int| 0 <= k < nl implies level_with(lv0[k], #[trigger] dungeon.levels@[k], lv0[k].tiles@, lv0[k].blocked@,
                            lv0[k].opaque@, Seq::new(lv0[k].lit_tiles@.len(), |t: int| lit_by_carried(lv0, equipment@, causes_light@, positions@, k, t, e + 1))) by {
                            assert(dungeon.levels@[k].lit_tiles@ =~= Seq::new(lv0[k].lit_tiles@.len(), |t: int| lit_by_carried(lv0, equipment@, causes_light@, positions@, k, t, e + 1)));
                        }
                    }
                },
            }
            e += 1;
        }
        proof {
            assert forall|l: int| 0 <= l < nl implies level_with(lv0[l], #[trigger] dungeon.levels@[l], lv0[l].tiles@, lv0[l].blocked@,
                lv0[l].opaque@, Seq::new(lv0[l].lit_tiles@.len(), |t: int|
                    lit_by_carried(lv0, equipment@, causes_light@, positions@, l, t, n as int)
                    || lit_by_lamps(lv0, causes_light@, positions@, l, t, 0))) by {
                assert(Seq::new(lv0[l].lit_tiles@.len(), |t: int| lit_by_carried(lv0, equipment@, causes_light@, positions@, l, t, n as int))
                    =~= Seq::new(lv0[l].lit_tiles@.len(), |t: int|
                        lit_by_carried(lv0, equipment@, causes_light@, positions@, l, t, n as int)
                        || lit_by_lamps(lv0, causes_light@, positions@, l, t, 0)));
            }
        }
        let mut e: usize = 0;
        while e < n
            invariant
                e <= n,
                n == positions@.len(),
                nl == lv0.len(),
                dungeon.levels@.len() == nl,
                lights_ready(lv0, equipment@, causes_light@, positions@),
                all_levels_wf(dungeon.levels@),
                forall|l: int| 0 <= l < nl ==> level_with(lv0[l], #[trigger] dungeon.levels@[l], lv0[l].tiles@, lv0[l].blocked@,
                    lv0[l].opaque@, Seq::new(lv0[l].lit_tiles@.len(), |t: int|
                        lit_by_carried(lv0, equipment@, causes_light@, positions@, l, t, n as int)
                        || lit_by_lamps(lv0, causes_light@, positions@, l, t, e as int))),
            decreases n - e,
        {
            let ghost cur = dungeon.levels@;
            let mut lamp: Option<(Position, i32)> = None;
            match get(positions, e) {
                Some(p) => match get(causes_light, e) {
                    Some(c) => if c.lit { lamp = Some((p, c.radius)); },
                    None => {},
                },
                None => {},
            }
            match lamp {
                Some((p, r)) => {
                    assert(is_lamp(positions@, causes_light@, e as int));
                    let l = p.level as usize;
                    assert(dungeon.levels@[l as int].wf());
                    light_area(dungeon, l, p.idx as i32, r);
                    proof {
                        assert forall|k: int| 0 <= k < nl implies level_with(lv0[k], #[trigger] dungeon.levels@[k], lv0[k].tiles@, lv0[k].blocked@,
                            lv0[k].opaque@, Seq::new(lv0[k].lit_tiles@.len(), |t: int|
                                lit_by_carried(lv0, equipment@, causes_light@, positions@, k, t, n as int)
                                || lit_by_lamps(lv0, causes_light@, positions@, k, t, e + 1))) by {
                            assert(level_with(lv0[k], cur[k], lv0[k].tiles@, lv0[k].blocked@,
                                lv0[k].opaque@, Seq::new(lv0[k].lit_tiles@.len(), |t: int|
                                    lit_by_carried(lv0, equipment@, causes_light@, positions@, k, t, n as int)
                                    || lit_by_lamps(lv0, causes_light@, positions@, k, t, e as int))));
                            assert(dungeon.levels@[k].lit_tiles@ =~= Seq::new(lv0[k].lit_tiles@.len(), |t: int|
                                lit_by_carried(lv0, equipment@, causes_light@, positions@, k, t, n as int)
                                || lit_by_lamps(lv0, causes_light@, positions@, k, t, e + 1)));
                        }
                        assert forall|k: int| 0 <= k < nl implies #[trigger] dungeon.levels@[k].wf() by {
                            if k != l {
                                assert(cur[k].wf());
                            }
                        }
                    }
                },
                None => {
                    proof {
                        assert(!is_lamp(positions@, causes_light@, e as int));
                        assert forall|k: int| 0 <= k < nl implies level_with(lv0[k], #[trigger] dungeon.levels@[k], lv0[k].tiles@, lv0[k].blocked@,
                            lv0[k].opaque@, Seq::new(lv0[k].lit_tiles@.len(), |t: int|
                                lit_by_carried(lv0, equipment@, causes_light@, positions@, k, t, n as int)
                                || lit_by_lamps(lv0, causes_light@, positions@, k, t, e + 1))) by {
                            assert(dungeon.levels@[k].lit_tiles@ =~= Seq::new(lv0[k].lit_tiles@.len(), |t: int|
                                lit_by_carried(lv0, equipment@, causes_light@, positions@, k, t, n as int)
                                || lit_by_lamps(lv0, causes_light@, positions@, k, t, e + 1)));
                        }
                    }
                },
            }
            e += 1;
        }
    }
}

} // verus!
