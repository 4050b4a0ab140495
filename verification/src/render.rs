use vstd::prelude::*;
use crate::color::{Color, NamedColor};
use crate::components::{Hidden, Hiding, OnFire, Position, Renderable};
use crate::damage::contains_entity;
use crate::dungeon::Dungeon;
use crate::ecs::{alive, comp, contains, get, get_ref, present, Entities, Entity};
use crate::systems::door_systems::all_levels_wf;

verus! {

/// What is drawn for one entity: where, in which colours, with which glyph, on which layer.
#[derive(Clone, Copy, Debug, PartialEq, Eq, Structural)]
pub struct RenderData {
    pub idx: usize,
    pub fg: Color,
    pub bg: Color,
    pub glyph: u16,
    pub layer: i32,
}

/// Whether entity `e` is not hidden from the player: it is not hidden, or the player found it.
pub open spec fn seen_by_player(hidden: Seq<Option<Hidden>>, player: Entity, e: int) -> bool {
    present(hidden, e) ==> comp(hidden, e).found_by@.contains(player)
}

/// Whether entity `e` is drawn: it exists, has a position and a renderable, stands on a visible
/// tile of `level` on the player's level, is not hidden from the player, and is not someone
/// else hiding.
pub open spec fn drawn(
    alive_set: Seq<bool>,
    positions: Seq<Option<Position>>,
    renderables: Seq<Option<Renderable>>,
    hidden: Seq<Option<Hidden>>,
    hiding: Seq<Option<Hiding>>,
    visible: Seq<bool>,
    player: Entity,
    player_level: u8,
    e: int,
) -> bool {
    &&& alive(alive_set, e)
    &&& present(positions, e)
    &&& present(renderables, e)
    &&& comp(positions, e).level == player_level
    &&& visible[comp(positions, e).idx as int]
    &&& seen_by_player(hidden, player, e)
    &&& !(present(hiding, e) && e != player)
}

/// How entity `e` is drawn: orange when burning, grey when it is the player hiding, otherwise
/// in its own colours.
pub open spec fn render_of(
    positions: Seq<Option<Position>>,
    renderables: Seq<Option<Renderable>>,
    on_fire: Seq<Option<OnFire>>,
    hiding: Seq<Option<Hiding>>,
    player: Entity,
    e: int,
) -> RenderData {
    let r = comp(renderables, e);
    let fg = if present(hiding, e) && e == player {
        Color::Named(NamedColor::Grey)
    } else if present(on_fire, e) {
        Color::Named(NamedColor::Orange)
    } else {
        r.fg
    };
    RenderData { idx: comp(positions, e).idx, fg, bg: r.bg, glyph: r.glyph, layer: r.layer }
}

/// The render data of the drawn entities among `0..k`, in entity order.
pub open spec fn drawn_list(
    alive_set: Seq<bool>,
    positions: Seq<Option<Position>>,
    renderables: Seq<Option<Renderable>>,
    on_fire: Seq<Option<OnFire>>,
    hidden: Seq<Option<Hidden>>,
    hiding: Seq<Option<Hiding>>,
    visible: Seq<bool>,
    player: Entity,
    player_level: u8,
    k: int,
) -> Seq<RenderData>
    decreases k,
{
    if k <= 0 {
        Seq::empty()
    } else {
        let prev = drawn_list(alive_set, positions, renderables, on_fire, hidden, hiding, visible, player, player_level, k - 1);
        if drawn(alive_set, positions, renderables, hidden, hiding, visible, player, player_level, k - 1) {
            prev.push(render_of(positions, renderables, on_fire, hiding, player, k - 1))
        } else {
            prev
        }
    }
}

/// Whether the list is ordered from the highest layer down.
pub open spec fn layers_descending(s: Seq<RenderData>) -> bool {
    forall|i: int, j: int| 0 <= i < j < s.len() ==> s[i].layer >= s[j].layer
}

/// Inserts `x` after every element of a layer at least as high, keeping the order descending.
fn insert_by_layer(out: &mut Vec<RenderData>, x: RenderData)
    requires
        layers_descending(old(out)@),
    ensures
        layers_descending(final(out)@),
        final(out)@.to_multiset() == old(out)@.to_multiset().insert(x),
{
    let mut i: usize = 0;
    while i < out.len() && out[i].layer >= x.layer
        invariant
            i <= out@.len(),
            forall|j: int| 0 <= j < i ==> out@[j].layer >= x.layer,
        decreases out@.len() - i,
    {
        i += 1;
    }
    let ghost before = out@;
    out.insert(i, x);
    proof {
        vstd::seq_lib::to_multiset_insert(before, i as int, x);
        assert forall|a: int, b: int| 0 <= a < b < out@.len() implies out@[a].layer >= out@[b].layer by {
            if b < i {
            } else if b == i {
                assert(out@[a] == before[a]);
            } else if a < i {
                assert(out@[b] == before[b - 1]);
                assert(out@[a] == before[a]);
            } else if a == i {
                assert(out@[b] == before[b - 1]);
                assert(before[i as int].layer < x.layer);
                assert(before[i as int].layer >= before[b - 1].layer);
            } else {
                assert(out@[b] == before[b - 1]);
                assert(out@[a] == before[a - 1]);
            }
        }
    }
}

/// The render data of every drawn entity, highest layer first. Entities on one layer come in
/// no promised order.
pub fn get_render_data(
    entities: &Entities,
    positions: &Vec<Option<Position>>,
    hidden: &Vec<Option<Hidden>>,
    renderables: &Vec<Option<Renderable>>,
    on_fire: &Vec<Option<OnFire>>,
    hiding: &Vec<Option<Hiding>>,
    player_entity: Entity,
    dungeon: &Dungeon,
) -> (r: Vec<RenderData>)
    requires
        all_levels_wf(dungeon.levels@),
        present(positions@, player_entity as int),
        (comp(positions@, player_entity as int).level as int) < dungeon.levels@.len(),
        forall|e: int| alive(entities.alive@, e) && #[trigger] present(positions@, e) && present(renderables@, e)
            && comp(positions@, e).level == comp(positions@, player_entity as int).level
            ==> comp(positions@, e).idx < dungeon.levels@[comp(positions@, player_entity as int).level as int].tiles@.len(),
    ensures
        ({
            let pl = comp(positions@, player_entity as int).level;
            let list = drawn_list(entities.alive@, positions@, renderables@, on_fire@, hidden@, hiding@,
                dungeon.levels@[pl as int].visible_tiles@, player_entity, pl, entities.alive@.len() as int);
            &&& r@.to_multiset() == list.to_multiset()
            &&& layers_descending(r@)
        }),
{
    let pl = get(positions, player_entity).unwrap().level;
    let level = &dungeon.levels[pl as usize];
    assert(level.wf());
    let ghost vis = level.visible_tiles@;
    let mut out: Vec<RenderData> = Vec::new();
    let n = entities.alive.len();
    let mut e: usize = 0;
    while e < n
        invariant
            e <= n,
            n == entities.alive@.len(),
            level.wf(),
            vis == level.visible_tiles@,
            forall|i: int| alive(entities.alive@, i) && #[trigger] present(positions@, i) && present(renderables@, i)
                && comp(positions@, i).level == pl ==> comp(positions@, i).idx < level.tiles@.len(),
            layers_descending(out@),
            out@.to_multiset() == drawn_list(entities.alive@, positions@, renderables@, on_fire@, hidden@, hiding@,
                vis, player_entity, pl, e as int).to_multiset(),
        decreases n - e,
    {
        let ghost prev = drawn_list(entities.alive@, positions@, renderables@, on_fire@, hidden@, hiding@,
            vis, player_entity, pl, e as int);
        if entities.is_alive(e) {
            match get(positions, e) {
                Some(p) => match get(renderables, e) {
                    Some(r) => {
                        if p.level == pl {
                            assert(present(positions@, e as int));
                            let seen = match get_ref(hidden, e) {
                                Some(h) => contains_entity(&h.found_by, player_entity),
                                None => true,
                            };
                            let other_hiding = contains(hiding, e) && e != player_entity;
                            if level.visible_tiles[p.idx] && seen && !other_hiding {
                                let fg = if contains(hiding, e) && e == player_entity {
                                    Color::Named(NamedColor::Grey)
                                } else if contains(on_fire, e) {
                                    Color::Named(NamedColor::Orange)
                                } else {
                                    r.fg
                                };
                                let item = RenderData { idx: p.idx, fg, bg: r.bg, glyph: r.glyph, layer: r.layer };
                                assert(item == render_of(positions@, renderables@, on_fire@, hiding@, player_entity, e as int));
                                insert_by_layer(&mut out, item);
                                proof {
                                    vstd::seq_lib::to_multiset_build(prev, item);
                                }
                            }
                        }
                    },
                    None => {},
                },
                None => {},
            }
        }
        e += 1;
    }
    out
}

} // verus!
