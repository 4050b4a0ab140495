use vstd::prelude::*;
use crate::components::{BlocksTile, EntityMoved, Grabbing, Hiding, Position, Viewshed, WantsToMove};
use crate::dungeon::{levels_wf, same_layout, Dungeon};
use crate::ecs::{alive, comp, contains, get, lookup, present, put, stored, Entities, Entity};
use crate::level::Level;
use crate::viewshed::{mark_dirty, mark_viewshed_dirty, viewsheds_view, ViewshedView};

verus! {

/// The blocked table of every level.
pub open spec fn blocked_tables(levels: Seq<Level>) -> Seq<Seq<bool>> {
    Seq::new(levels.len(), |l: int| levels[l].blocked@)
}

/// Whether tile `idx` cannot be entered: it is off the map or blocked.
pub open spec fn is_blocked(b: Seq<bool>, idx: int) -> bool {
    !(0 <= idx < b.len()) || b[idx]
}

/// Whether every position lies on an existing level, on one of its `count` tiles.
pub open spec fn on_map(positions: Seq<Option<Position>>, levels: int, count: int) -> bool {
    forall|i: int| present(positions, i) ==> (#[trigger] comp(positions, i)).level < levels
        && comp(positions, i).idx < count
}

/// Whether `b` has the levels of `a` with nothing but their blocked tables changed.
pub open spec fn only_blocked_changed(a: Seq<Level>, b: Seq<Level>) -> bool {
    &&& b.len() == a.len()
    &&& forall|l: int| 0 <= l < a.len() ==> {
        &&& same_layout(#[trigger] a[l], b[l])
        &&& b[l].tiles@ == a[l].tiles@
        &&& b[l].opaque@ == a[l].opaque@
        &&& b[l].lit_tiles@ == a[l].lit_tiles@
    }
}

/// The storages a move round reads.
pub struct MoveInputs {
    pub alive: Seq<bool>,
    pub wants: Seq<Option<WantsToMove>>,
    pub grabbings: Seq<Option<Grabbing>>,
    pub blocks: Seq<Option<BlocksTile>>,
}

/// What a move round changes.
pub struct MoveView {
    pub positions: Seq<Option<Position>>,
    pub blocked: Seq<Seq<bool>>,
    pub viewsheds: Seq<Option<ViewshedView>>,
    pub moved: Seq<Option<EntityMoved>>,
    pub hiding: Seq<Option<Hiding>>,
}

/// Whether what `e` drags moves with it: the tile the thing would move onto is free (or is where
/// `e` stands) and `e`'s destination is free (or is where the thing stands).
pub open spec fn thing_moves(inp: MoveInputs, v: MoveView, e: int) -> bool {
    let pos = comp(v.positions, e);
    let b0 = v.blocked[pos.level as int];
    let dest = comp(inp.wants, e).idx as int;
    let tcur = comp(v.positions, comp(inp.grabbings, e).thing as int).idx as int;
    let tdest = tcur + dest - pos.idx as int;
    &&& present(inp.grabbings, e)
    &&& !(is_blocked(b0, tdest) && tdest != pos.idx as int)
    &&& !(is_blocked(b0, dest) && dest != tcur)
}

/// Entity `e`'s move, if it wants one: what it drags shifts by the same step when both can move;
/// then `e` steps onto its destination if that tile is free, its viewshed is marked for
/// recomputation, it is marked as moved and stops hiding. Tiles under things that block are kept
/// blocked as they go.
pub open spec fn move_step(inp: MoveInputs, v: MoveView, e: int) -> MoveView {
    if !(alive(inp.alive, e) && present(inp.wants, e)) {
        v
    } else {
        let pos = comp(v.positions, e);
        let l = pos.level as int;
        let ent_idx = pos.idx as int;
        let dest = comp(inp.wants, e).idx as int;
        let b0 = v.blocked[l];
        let thing = comp(inp.grabbings, e).thing as int;
        let tpos = comp(v.positions, thing);
        let tcur = tpos.idx as int;
        let tdest = tcur + dest - ent_idx;
        let drags = thing_moves(inp, v, e);
        let positions1 = if drags {
            stored(v.positions, thing, Some(Position { idx: tdest as usize, level: tpos.level }))
        } else {
            v.positions
        };
        let b1 = if drags && present(inp.blocks, thing) { b0.update(tcur, false).update(tdest, true) } else { b0 };
        if is_blocked(b1, dest) {
            MoveView { positions: positions1, blocked: v.blocked.update(l, b1), ..v }
        } else {
            let epos = comp(positions1, e);
            let b2 = if present(inp.blocks, e) { b1.update(ent_idx, false).update(dest, true) } else { b1 };
            MoveView {
                positions: stored(positions1, e, Some(Position { idx: dest as usize, level: epos.level })),
                blocked: v.blocked.update(l, b2),
                viewsheds: mark_dirty(v.viewsheds, e),
                moved: stored(v.moved, e, Some(EntityMoved {})),
                hiding: stored(v.hiding, e, None),
            }
        }
    }
}

/// The moves of entities `0..k`, in entity order.
pub open spec fn move_fold(inp: MoveInputs, v: MoveView, k: int) -> MoveView
    decreases k,
{
    if k <= 0 { v } else { move_step(inp, move_fold(inp, v, k - 1), k - 1) }
}

/// What a move round needs: a dungeon of equal-sized levels, every position on it, and a
/// position for every entity that moves and for what it drags.
pub open spec fn move_ready(inp: MoveInputs, positions: Seq<Option<Position>>, levels: Seq<Level>, count: int) -> bool {
    &&& levels_wf(levels, count)
    &&& on_map(positions, levels.len() as int, count)
    &&& forall|e: int| #[trigger] present(inp.wants, e) && alive(inp.alive, e) ==> present(positions, e)
        && (present(inp.grabbings, e) ==> present(positions, comp(inp.grabbings, e).thing as int))
}

fn blocked_at(dungeon: &Dungeon, l: usize, idx: Option<usize>) -> (r: bool)
    requires
        l < dungeon.levels@.len(),
    ensures
        r == (match idx {
            Some(i) => is_blocked(dungeon.levels@[l as int].blocked@, i as int),
            None => true,
        }),
{
    match idx {
        Some(i) => {
            if i < dungeon.levels[l].blocked.len() {
                dungeon.levels[l].blocked[i]
            } else {
                true
            }
        },
        None => true,
    }
}

/// Carries out the moves entities want this turn.
pub struct MoveSystem {}

impl MoveSystem {
    /// The moves are `move_fold` over all entities in order, on a dungeon whose levels have
    /// `tile_count` tiles each; only blocked tables of the dungeon change, and afterwards no move
    /// is wanted.
    pub fn run(
        &mut self,
        entities: &Entities,
        grabbings: &Vec<Option<Grabbing>>,
        wants_to_moves: &mut Vec<Option<WantsToMove>>,
        positions: &mut Vec<Option<Position>>,
        viewsheds: &mut Vec<Option<Viewshed>>,
        dungeon: &mut Dungeon,
        moved: &mut Vec<Option<EntityMoved>>,
        blocks_tiles: &Vec<Option<BlocksTile>>,
        hidings: &mut Vec<Option<Hiding>>,
        tile_count: usize,
    )
        requires
            move_ready(
                MoveInputs { alive: entities.alive@, wants: old(wants_to_moves)@, grabbings: grabbings@, blocks: blocks_tiles@ },
                old(positions)@, old(dungeon).levels@, tile_count as int),
        ensures
            (MoveView {
                positions: final(positions)@,
                blocked: blocked_tables(final(dungeon).levels@),
                viewsheds: viewsheds_view(final(viewsheds)@),
                moved: final(moved)@,
                hiding: final(hidings)@,
            }) == move_fold(
                MoveInputs { alive: entities.alive@, wants: old(wants_to_moves)@, grabbings: grabbings@, blocks: blocks_tiles@ },
                MoveView {
                    positions: old(positions)@,
                    blocked: blocked_tables(old(dungeon).levels@),
                    viewsheds: viewsheds_view(old(viewsheds)@),
                    moved: old(moved)@,
                    hiding: old(hidings)@,
                },
                entities.alive@.len() as int),
            only_blocked_changed(old(dungeon).levels@, final(dungeon).levels@),
            levels_wf(final(dungeon).levels@, tile_count as int),
            forall|e: int| !present(final(wants_to_moves)@, e),
    {
        let ghost inp = MoveInputs { alive: entities.alive@, wants: wants_to_moves@, grabbings: grabbings@, blocks: blocks_tiles@ };
        let ghost v0 = MoveView {
            positions: positions@,
            blocked: blocked_tables(dungeon.levels@),
            viewsheds: viewsheds_view(viewsheds@),
            moved: moved@,
            hiding: hidings@,
        };
        let ghost levels0 = dungeon.levels@;
        let ghost count = tile_count as int;
        let n = entities.alive.len();
        let mut e: usize = 0;
        while e < n
            invariant
                n == entities.alive@.len(),
                e <= n,
                inp == (MoveInputs { alive: entities.alive@, wants: wants_to_moves@, grabbings: grabbings@, blocks: blocks_tiles@ }),
                levels_wf(dungeon.levels@, count),
                only_blocked_changed(levels0, dungeon.levels@),
                on_map(positions@, dungeon.levels@.len() as int, count),
                forall|i: int| #[trigger] present(inp.wants, i) && alive(inp.alive, i) ==> present(positions@, i)
                    && (present(inp.grabbings, i) ==> present(positions@, comp(inp.grabbings, i).thing as int)),
                (MoveView {
                    positions: positions@,
                    blocked: blocked_tables(dungeon.levels@),
                    viewsheds: viewsheds_view(viewsheds@),
                    moved: moved@,
                    hiding: hidings@,
                }) == move_fold(inp, v0, e as int),
            decreases n - e,
        {
            let ghost v = move_fold(inp, v0, e as int);
            let ghost levels_before = dungeon.levels@;
            if entities.is_alive(e) && contains(wants_to_moves, e) {
                assert(present(inp.wants, e as int) && alive(inp.alive, e as int));
                let pos = get(positions, e).unwrap();
                assert(pos == comp(positions@, e as int));
                let l = pos.level as usize;
                let ent_idx = pos.idx;
                let dest = get(wants_to_moves, e).unwrap().idx;
                assert(pos.level < dungeon.levels@.len());
                assert(levels_before == dungeon.levels@);
                assert(levels_before[l as int].wf());
                assert(levels_before[l as int].tile_count() == count);
                let ghost b0 = v.blocked[l as int];
                assert(b0 == dungeon.levels@[l as int].blocked@);
                let ghost thing_g = comp(inp.grabbings, e as int).thing as int;
                let ghost tpos_g = comp(v.positions, thing_g);
                let ghost tdest_g = tpos_g.idx as int + dest as int - ent_idx as int;
                let ghost drags = thing_moves(inp, v, e as int);
                let ghost positions1 = if drags {
                    stored(v.positions, thing_g, Some(Position { idx: tdest_g as usize, level: tpos_g.level }))
                } else {
                    v.positions
                };
                let ghost b1 = if drags && present(inp.blocks, thing_g) {
                    b0.update(tpos_g.idx as int, false).update(tdest_g, true)
                } else {
                    b0
                };
                match get(grabbings, e) {
                    Some(grabbing) => {
                        let thing = grabbing.thing;
                        let tpos = get(positions, thing).unwrap();
                        assert(tpos == comp(positions@, thing as int));
                        let tcur = tpos.idx;
                        let tdest: Option<usize> = if dest >= ent_idx {
                            tcur.checked_add(dest - ent_idx)
                        } else if tcur >= ent_idx - dest {
                            Some(tcur - (ent_idx - dest))
                        } else {
                            None
                        };
                        let table_len = dungeon.levels[l].blocked.len();
                        assert(tdest matches Some(t) ==> t as int == tdest_g);
                        assert(tdest is None ==> is_blocked(b0, tdest_g) && tdest_g != ent_idx as int);
                        let thing_dest_blocked = blocked_at(dungeon, l, tdest) && tdest != Some(ent_idx);
                        let ent_dest_blocked = blocked_at(dungeon, l, Some(dest)) && dest != tcur;
                        assert(drags == (!thing_dest_blocked && !ent_dest_blocked));
                        if !thing_dest_blocked && !ent_dest_blocked {
                            let td = tdest.unwrap();
                            assert(td < count);
                            let ghost p_before = positions@;
                            put(positions, thing, Some(Position { idx: td, level: tpos.level }));
                            proof {
                                crate::ecs::lemma_stored_lookup(p_before, thing as int, Some(Position { idx: td, level: tpos.level }));
                                assert forall|i: int| present(positions@, i) implies (#[trigger] comp(positions@, i)).level < dungeon.levels@.len()
                                    && comp(positions@, i).idx < count by {
                                    if i != thing as int {
                                        assert(comp(p_before, i) == comp(positions@, i));
                                    }
                                }
                            }
                            if contains(blocks_tiles, thing) {
                                let ghost d0 = dungeon.levels@;
                                dungeon.set_blocked(l, tcur, false);
                                proof { crate::dungeon::lemma_levels_wf_keep(d0, dungeon.levels@, l as int, count); }
                                let ghost d1 = dungeon.levels@;
                                dungeon.set_blocked(l, td, true);
                                proof { crate::dungeon::lemma_levels_wf_keep(d1, dungeon.levels@, l as int, count); }
                            }
                        }
                    },
                    None => {},
                }
                assert(positions@ == positions1);
                assert(dungeon.levels@[l as int].blocked@ == b1);
                assert(forall|j: int| 0 <= j < dungeon.levels@.len() && j != l ==> dungeon.levels@[j] == levels_before[j]);
                let ghost levels_mid = dungeon.levels@;
                if !blocked_at(dungeon, l, Some(dest)) {
                    mark_viewshed_dirty(viewsheds, e);
                    let epos = get(positions, e).unwrap();
                    let ghost p_before = positions@;
                    assert(dest < count);
                    put(positions, e, Some(Position { idx: dest, level: epos.level }));
                    proof {
                        crate::ecs::lemma_stored_lookup(p_before, e as int, Some(Position { idx: dest, level: epos.level }));
                        assert(epos == comp(p_before, e as int));
                        assert forall|i: int| present(positions@, i) implies (#[trigger] comp(positions@, i)).level < dungeon.levels@.len()
                            && comp(positions@, i).idx < count by {
                            if i != e as int {
                                assert(comp(p_before, i) == comp(positions@, i));
                            }
                        }
                    }
                    if contains(blocks_tiles, e) {
                        let ghost d0 = dungeon.levels@;
                        dungeon.set_blocked(l, ent_idx, false);
                        proof { crate::dungeon::lemma_levels_wf_keep(d0, dungeon.levels@, l as int, count); }
                        let ghost d1 = dungeon.levels@;
                        dungeon.set_blocked(l, dest, true);
                        proof { crate::dungeon::lemma_levels_wf_keep(d1, dungeon.levels@, l as int, count); }
                    }
                    put(moved, e, Some(EntityMoved {}));
                    put(hidings, e, None);
                }
                assert(forall|j: int| 0 <= j < dungeon.levels@.len() && j != l ==> dungeon.levels@[j] == levels_before[j]);
                assert(blocked_tables(dungeon.levels@) =~= move_fold(inp, v0, e + 1).blocked);
            }
            e += 1;
        }
        crate::ecs::clear(wants_to_moves);
    }
}

} // verus!
