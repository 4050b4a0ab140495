use vstd::prelude::*;
use crate::components::{Position, Viewshed, WantsToGoDownStairs};
use crate::dungeon::Dungeon;
use crate::ecs::{alive, clear, comp, get, lookup, present, put, Entities};
use crate::geometry::{idxs_are_adjacent, spec_idxs_adjacent};
use crate::level::Level;
use crate::systems::door_systems::all_levels_wf;
use crate::viewshed::{mark_dirty, mark_viewshed_dirty, viewsheds_view, ViewshedView};

verus! {

/// Whether entity `e` exists, asks to take the stairs down on a tile next to where it stands,
/// and is on a level above the first.
pub open spec fn descends(
    alive_set: Seq<bool>,
    wants: Seq<Option<WantsToGoDownStairs>>,
    positions: Seq<Option<Position>>,
    levels: Seq<Level>,
    e: int,
) -> bool {
    let p = comp(positions, e);
    &&& alive(alive_set, e)
    &&& present(wants, e)
    &&& present(positions, e)
    &&& (p.level as int) < levels.len()
    &&& spec_idxs_adjacent(levels[p.level as int].width as int, p.idx as int, comp(wants, e).idx as int)
    &&& p.level > 0
}

/// Where a descending entity arrives: the up stairs of the level below its own.
pub open spec fn arrival(levels: Seq<Level>, p: Position) -> Position {
    Position { idx: levels[p.level - 1].stairs_up->0, level: (p.level - 1) as u8 }
}

/// Takes entities down the stairs on request.
pub struct GoDownStairsSystem {}

impl GoDownStairsSystem {
    /// Every existing entity that asks to take stairs next to it, and has a level below its
    /// own, moves to the up stairs of that level and has its viewshed marked for
    /// recomputation. The requests are removed.
    pub fn run(
        &mut self,
        entities: &Entities,
        wants: &mut Vec<Option<WantsToGoDownStairs>>,
        positions: &mut Vec<Option<Position>>,
        dungeon: &Dungeon,
        viewsheds: &mut Vec<Option<Viewshed>>,
    )
        requires
            all_levels_wf(dungeon.levels@),
            forall|e: int| alive(entities.alive@, e) && present(old(wants)@, e) && #[trigger] present(old(positions)@, e)
                ==> (comp(old(positions)@, e).level as int) < dungeon.levels@.len(),
            forall|e: int| #[trigger] descends(entities.alive@, old(wants)@, old(positions)@, dungeon.levels@, e) ==> {
                &&& dungeon.levels@[comp(old(positions)@, e).level - 1].stairs_up is Some
                &&& present(old(viewsheds)@, e)
            },
        ensures
            forall|e: int| #[trigger] lookup(final(positions)@, e) == (if descends(entities.alive@, old(wants)@, old(positions)@, dungeon.levels@, e) {
                Some(arrival(dungeon.levels@, comp(old(positions)@, e)))
            } else {
                lookup(old(positions)@, e)
            }),
            viewsheds_view(final(viewsheds)@) == Seq::new(old(viewsheds)@.len(), |e: int|
                if descends(entities.alive@, old(wants)@, old(positions)@, dungeon.levels@, e) {
                    Some(ViewshedView { dirty: true, ..viewsheds_view(old(viewsheds)@)[e]->0 })
                } else {
                    viewsheds_view(old(viewsheds)@)[e]
                }),
            forall|e: int| !present(final(wants)@, e),
    {
        let ghost p0 = positions@;
        let ghost v0 = viewsheds_view(viewsheds@);
        let n = wants.len();
        let mut e: usize = 0;
        while e < n
            invariant
                e <= n,
                n == wants@.len(),
                all_levels_wf(dungeon.levels@),
                v0 == viewsheds_view(old(viewsheds)@),
                viewsheds@.len() == v0.len(),
                forall|i: int| alive(entities.alive@, i) && present(wants@, i) && #[trigger] present(p0, i)
                    ==> (comp(p0, i).level as int) < dungeon.levels@.len(),
                forall|i: int| #[trigger] descends(entities.alive@, wants@, p0, dungeon.levels@, i) ==> {
                    &&& dungeon.levels@[comp(p0, i).level - 1].stairs_up is Some
                    &&& present(old(viewsheds)@, i)
                },
                forall|i: int| #[trigger] lookup(positions@, i) == (if 0 <= i < e && descends(entities.alive@, wants@, p0, dungeon.levels@, i) {
                    Some(arrival(dungeon.levels@, comp(p0, i)))
                } else {
                    lookup(p0, i)
                }),
                forall|i: int| 0 <= i < v0.len() ==> #[trigger] viewsheds_view(viewsheds@)[i] == (if i < e && descends(entities.alive@, wants@, p0, dungeon.levels@, i) {
                    Some(ViewshedView { dirty: true, ..v0[i]->0 })
                } else {
                    v0[i]
                }),
            decreases n - e,
        {
            let ghost before = viewsheds_view(viewsheds@);
            if entities.is_alive(e) {
                match get(wants, e) {
                    Some(intent) => {
                        match get(positions, e) {
                            Some(p) => {
                                assert(lookup(p0, e as int) == lookup(positions@, e as int));
                                assert(present(p0, e as int) && present(wants@, e as int));
                                let l = p.level as usize;
                                let level = &dungeon.levels[l];
                                assert(level.wf());
                                if idxs_are_adjacent(level.width, p.idx, intent.idx) && p.level > 0 {
                                    assert(descends(entities.alive@, wants@, p0, dungeon.levels@, e as int));
                                    let below = &dungeon.levels[l - 1];
                                    let stairs = below.stairs_up.unwrap();
                                    put(positions, e, Some(Position { idx: stairs, level: p.level - 1 }));
                                    mark_viewshed_dirty(viewsheds, e);
                                    assert(present(old(viewsheds)@, e as int));
                                }
                            },
                            None => {},
                        }
                    },
                    None => {},
                }
            }
            proof {
                assert forall|i: int| 0 <= i < v0.len() implies #[trigger] viewsheds_view(viewsheds@)[i] == (if i < e + 1 && descends(entities.alive@, wants@, p0, dungeon.levels@, i) {
                    Some(ViewshedView { dirty: true, ..v0[i]->0 })
                } else {
                    v0[i]
                }) by {
                    assert(viewsheds_view(viewsheds@)[i] == mark_dirty(before, e as int)[i] || viewsheds_view(viewsheds@)[i] == before[i]);
                }
            }
            e += 1;
        }
        assert(viewsheds_view(viewsheds@) =~= Seq::new(v0.len(), |i: int|
            if descends(entities.alive@, wants@, p0, dungeon.levels@, i) {
                Some(ViewshedView { dirty: true, ..v0[i]->0 })
            } else {
                v0[i]
            }));
        clear(wants);
    }
}

} // verus!
