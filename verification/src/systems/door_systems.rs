use vstd::prelude::*;
use crate::color::{Color, NamedColor};
use crate::components::{Door, DoorState, Position, Renderable, Viewshed, WantsToCloseDoor, WantsToOpenDoor};
use crate::dungeon::{same_layout, Dungeon};
use crate::ecs::{clear, comp, get, lookup, present, put};
use crate::level::{Level, TileType};
use crate::viewshed::{dirty_on_levels, mark_dirty_on_levels, viewsheds_view};

verus! {

/// Whether the request held by entity `e` names an existing door.
pub open spec fn closes_door(wants: Seq<Option<WantsToCloseDoor>>, doors: Seq<Option<Door>>, e: int) -> bool {
    present(wants, e) && present(doors, comp(wants, e).door as int)
}

/// Whether one of the requests held by entities `0..k` closes door `d`.
pub open spec fn door_closed_by(wants: Seq<Option<WantsToCloseDoor>>, doors: Seq<Option<Door>>, d: int, k: int) -> bool
    decreases k,
{
    if k <= 0 {
        false
    } else {
        door_closed_by(wants, doors, d, k - 1) || (closes_door(wants, doors, k - 1) && comp(wants, k - 1).door == d)
    }
}

/// Whether one of the requests held by entities `0..k` closes a door standing on tile `t` of level `l`.
pub open spec fn tile_closed_by(
    wants: Seq<Option<WantsToCloseDoor>>,
    doors: Seq<Option<Door>>,
    positions: Seq<Option<Position>>,
    l: int,
    t: int,
    k: int,
) -> bool
    decreases k,
{
    if k <= 0 {
        false
    } else {
        tile_closed_by(wants, doors, positions, l, t, k - 1) || {
            &&& closes_door(wants, doors, k - 1)
            &&& comp(positions, comp(wants, k - 1).door as int).idx == t
            &&& comp(positions, comp(wants, k - 1).door as int).level == l
        }
    }
}

/// Whether one of the requests held by entities `0..k` closes a door on level `l`.
pub open spec fn level_closed_by(
    wants: Seq<Option<WantsToCloseDoor>>,
    doors: Seq<Option<Door>>,
    positions: Seq<Option<Position>>,
    l: int,
    k: int,
) -> bool
    decreases k,
{
    if k <= 0 {
        false
    } else {
        level_closed_by(wants, doors, positions, l, k - 1) || {
            &&& closes_door(wants, doors, k - 1)
            &&& comp(positions, comp(wants, k - 1).door as int).level == l
        }
    }
}

/// Whether level `b` is level `a` with door tiles, blocked and opaque, wherever `shut` holds,
/// and everything else as it was.
pub open spec fn shut_where(a: Level, b: Level, shut: spec_fn(int) -> bool) -> bool {
    &&& same_layout(a, b)
    &&& b.tiles@.len() == a.tiles@.len()
    &&& b.blocked@.len() == a.blocked@.len()
    &&& b.opaque@.len() == a.opaque@.len()
    &&& b.lit_tiles@ == a.lit_tiles@
    &&& forall|t: int| 0 <= t < a.tiles@.len() ==> #[trigger] b.tiles@[t] == (if shut(t) { TileType::Door } else { a.tiles@[t] })
    &&& forall|t: int| 0 <= t < a.blocked@.len() ==> #[trigger] b.blocked@[t] == (shut(t) || a.blocked@[t])
    &&& forall|t: int| 0 <= t < a.opaque@.len() ==> #[trigger] b.opaque@[t] == (shut(t) || a.opaque@[t])
}

/// The renderable of a closed door: the same glyph, dark brown on black.
pub open spec fn closed_door_look(r: Renderable) -> Renderable {
    Renderable { fg: Color::Named(NamedColor::Brown4), bg: Color::Named(NamedColor::Black), ..r }
}

/// Whether every level of the dungeon is well formed.
pub open spec fn all_levels_wf(levels: Seq<Level>) -> bool {
    forall|l: int| 0 <= l < levels.len() ==> #[trigger] levels[l].wf()
}

/// Closes doors on request.
pub struct CloseDoorSystem {}

impl CloseDoorSystem {
    /// Every request that names a door closes it: the door's state becomes closed, its tile
    /// becomes a blocked, opaque door tile and it is drawn dark brown on black. The viewsheds
    /// of everything on a level where a door closed are marked for recomputation, and the
    /// requests are removed.
    pub fn run(
        &mut self,
        dungeon: &mut Dungeon,
        wants: &mut Vec<Option<WantsToCloseDoor>>,
        positions: &Vec<Option<Position>>,
        viewsheds: &mut Vec<Option<Viewshed>>,
        doors: &mut Vec<Option<Door>>,
        renderables: &mut Vec<Option<Renderable>>,
    )
        requires
            all_levels_wf(old(dungeon).levels@),
            forall|e: int| #[trigger] closes_door(old(wants)@, old(doors)@, e) ==> {
                let d = comp(old(wants)@, e).door as int;
                &&& present(positions@, d)
                &&& present(old(renderables)@, d)
                &&& (comp(positions@, d).level as int) < old(dungeon).levels@.len()
                &&& comp(positions@, d).idx < old(dungeon).levels@[comp(positions@, d).level as int].tiles@.len()
            },
        ensures
            final(dungeon).levels@.len() == old(dungeon).levels@.len(),
            all_levels_wf(final(dungeon).levels@),
            forall|l: int| 0 <= l < old(dungeon).levels@.len() ==> shut_where(
                old(dungeon).levels@[l],
                #[trigger] final(dungeon).levels@[l],
                |t: int| tile_closed_by(old(wants)@, old(doors)@, positions@, l, t, old(wants)@.len() as int),
            ),
            forall|d: int| #[trigger] lookup(final(doors)@, d) == (if door_closed_by(old(wants)@, old(doors)@, d, old(wants)@.len() as int) {
                Some(Door { state: DoorState::Closed })
            } else {
                lookup(old(doors)@, d)
            }),
            forall|d: int| #[trigger] lookup(final(renderables)@, d) == (if door_closed_by(old(wants)@, old(doors)@, d, old(wants)@.len() as int) {
                Some(closed_door_look(comp(old(renderables)@, d)))
            } else {
                lookup(old(renderables)@, d)
            }),
            viewsheds_view(final(viewsheds)@) == dirty_on_levels(
                viewsheds_view(old(viewsheds)@),
                positions@,
                Seq::new(old(dungeon).levels@.len(), |l: int| level_closed_by(old(wants)@, old(doors)@, positions@, l, old(wants)@.len() as int)),
            ),
            forall|e: int| !present(final(wants)@, e),
    {
        let ghost w0 = wants@;
        let ghost d0 = doors@;
        let ghost r0 = renderables@;
        let ghost lv0 = dungeon.levels@;
        let n_levels = dungeon.levels.len();
        let mut touched: Vec<bool> = Vec::new();
        while touched.len() < n_levels
            invariant
                touched@.len() <= n_levels,
                forall|l: int| 0 <= l < touched@.len() ==> !#[trigger] touched@[l],
            decreases n_levels - touched@.len(),
        {
            touched.push(false);
        }
        let n = wants.len();
        let mut e: usize = 0;
        while e < n
            invariant
                e <= n,
                n == w0.len(),
                wants@ == w0,
                n_levels == lv0.len(),
                dungeon.levels@.len() == n_levels,
                touched@.len() == n_levels,
                all_levels_wf(lv0),
                all_levels_wf(dungeon.levels@),
                forall|i: int| #[trigger] closes_door(w0, d0, i) ==> {
                    let d = comp(w0, i).door as int;
                    &&& present(positions@, d)
                    &&& present(r0, d)
                    &&& (comp(positions@, d).level as int) < lv0.len()
                    &&& comp(positions@, d).idx < lv0[comp(positions@, d).level as int].tiles@.len()
                },
                forall|l: int| 0 <= l < n_levels ==> shut_where(
                    lv0[l],
                    #[trigger] dungeon.levels@[l],
                    |t: int| tile_closed_by(w0, d0, positions@, l, t, e as int),
                ),
                forall|l: int| 0 <= l < n_levels ==> #[trigger] touched@[l] == level_closed_by(w0, d0, positions@, l, e as int),
                forall|d: int| #[trigger] door_closed_by(w0, d0, d, e as int) ==> present(d0, d),
                forall|d: int| #[trigger] lookup(doors@, d) == (if door_closed_by(w0, d0, d, e as int) {
                    Some(Door { state: DoorState::Closed })
                } else {
                    lookup(d0, d)
                }),
                forall|d: int| #[trigger] lookup(renderables@, d) == (if door_closed_by(w0, d0, d, e as int) {
                    Some(closed_door_look(comp(r0, d)))
                } else {
                    lookup(r0, d)
                }),
            decreases n - e,
        {
            let ghost levels_before = dungeon.levels@;
            let ghost touched_before = touched@;
            match get(wants, e) {
                Some(intent) => {
                    let d = intent.door;
                    if d < doors.len() && doors[d].is_some() {
                        assert(lookup(doors@, d as int) is Some);
                        assert(present(d0, d as int));
                        assert(closes_door(w0, d0, e as int));
                        put(doors, d, Some(Door { state: DoorState::Closed }));
                        let p = get(positions, d).unwrap();
                        let l = p.level as usize;
                        dungeon.set_tile_flags(l, p.idx, TileType::Door, true, Some(true));
                        touched.set(l, true);
                        let r = get(renderables, d).unwrap();
                        assert(lookup(renderables@, d as int) == lookup(r0, d as int) || lookup(renderables@, d as int) == Some(closed_door_look(comp(r0, d as int))));
                        put(renderables, d, Some(Renderable { fg: Color::Named(NamedColor::Brown4), bg: Color::Named(NamedColor::Black), ..r }));
                        proof {
                            assert forall|k: int| 0 <= k < n_levels implies shut_where(
                                lv0[k],
                                #[trigger] dungeon.levels@[k],
                                |t: int| tile_closed_by(w0, d0, positions@, k, t, e + 1),
                            ) by {
                                let before = levels_before[k];
                                let after = dungeon.levels@[k];
                                assert(before.wf());
                                assert(lv0[k].wf());
                                if k == l {
                                    assert(after.blocked@ == before.blocked@.update(p.idx as int, true));
                                } else {
                                    assert(after == before);
                                }
                                assert(shut_where(lv0[k], before, |t: int| tile_closed_by(w0, d0, positions@, k, t, e as int)));
                                assert forall|t: int| 0 <= t < lv0[k].tiles@.len() implies #[trigger] after.tiles@[t] == (if tile_closed_by(w0, d0, positions@, k, t, e + 1) { TileType::Door } else { lv0[k].tiles@[t] }) by {
                                    assert(before.tiles@[t] == (if tile_closed_by(w0, d0, positions@, k, t, e as int) { TileType::Door } else { lv0[k].tiles@[t] }));
                                }
                                assert forall|t: int| 0 <= t < lv0[k].blocked@.len() implies #[trigger] after.blocked@[t] == (tile_closed_by(w0, d0, positions@, k, t, e + 1) || lv0[k].blocked@[t]) by {
                                    assert(before.blocked@[t] == (tile_closed_by(w0, d0, positions@, k, t, e as int) || lv0[k].blocked@[t]));
                                }
                                assert forall|t: int| 0 <= t < lv0[k].opaque@.len() implies #[trigger] after.opaque@[t] == (tile_closed_by(w0, d0, positions@, k, t, e + 1) || lv0[k].opaque@[t]) by {
                                    assert(before.opaque@[t] == (tile_closed_by(w0, d0, positions@, k, t, e as int) || lv0[k].opaque@[t]));
                                }
                            }
                            assert forall|k: int| 0 <= k < n_levels implies #[trigger] touched@[k] == level_closed_by(w0, d0, positions@, k, e + 1) by {
                                assert(touched_before[k] == level_closed_by(w0, d0, positions@, k, e as int));
                            }
                        }
                    } else {
                        assert(!closes_door(w0, d0, e as int));
                        proof {
                            assert forall|k: int| 0 <= k < n_levels implies shut_where(
                                lv0[k],
                                #[trigger] dungeon.levels@[k],
                                |t: int| tile_closed_by(w0, d0, positions@, k, t, e + 1),
                            ) by {
                                let before = dungeon.levels@[k];
                                assert(shut_where(lv0[k], before, |t: int| tile_closed_by(w0, d0, positions@, k, t, e as int)));
                                assert forall|t: int| 0 <= t < lv0[k].tiles@.len() implies #[trigger] before.tiles@[t] == (if tile_closed_by(w0, d0, positions@, k, t, e + 1) { TileType::Door } else { lv0[k].tiles@[t] }) by {}
                                assert forall|t: int| 0 <= t < lv0[k].blocked@.len() implies #[trigger] before.blocked@[t] == (tile_closed_by(w0, d0, positions@, k, t, e + 1) || lv0[k].blocked@[t]) by {}
                                assert forall|t: int| 0 <= t < lv0[k].opaque@.len() implies #[trigger] before.opaque@[t] == (tile_closed_by(w0, d0, positions@, k, t, e + 1) || lv0[k].opaque@[t]) by {}
                            }
                            assert forall|k: int| 0 <= k < n_levels implies #[trigger] touched@[k] == level_closed_by(w0, d0, positions@, k, e + 1) by {}
                        }
                    }
                },
                None => {
                    assert(!closes_door(w0, d0, e as int));
                    proof {
                        assert forall|k: int| 0 <= k < n_levels implies shut_where(
                            lv0[k],
                            #[trigger] dungeon.levels@[k],
                            |t: int| tile_closed_by(w0, d0, positions@, k, t, e + 1),
                        ) by {
                            let before = dungeon.levels@[k];
                            assert(shut_where(lv0[k], before, |t: int| tile_closed_by(w0, d0, positions@, k, t, e as int)));
                            assert forall|t: int| 0 <= t < lv0[k].tiles@.len() implies #[trigger] before.tiles@[t] == (if tile_closed_by(w0, d0, positions@, k, t, e + 1) { TileType::Door } else { lv0[k].tiles@[t] }) by {}
                            assert forall|t: int| 0 <= t < lv0[k].blocked@.len() implies #[trigger] before.blocked@[t] == (tile_closed_by(w0, d0, positions@, k, t, e + 1) || lv0[k].blocked@[t]) by {}
                            assert forall|t: int| 0 <= t < lv0[k].opaque@.len() implies #[trigger] before.opaque@[t] == (tile_closed_by(w0, d0, positions@, k, t, e + 1) || lv0[k].opaque@[t]) by {}
                        }
                        assert forall|k: int| 0 <= k < n_levels implies #[trigger] touched@[k] == level_closed_by(w0, d0, positions@, k, e + 1) by {}
                    }
                },
            }
            proof {
                assert forall|d: int| #[trigger] door_closed_by(w0, d0, d, e + 1) implies present(d0, d) by {
                    if !door_closed_by(w0, d0, d, e as int) {
                        assert(closes_door(w0, d0, e as int));
                    }
                }
            }
            e += 1;
        }
        mark_dirty_on_levels(viewsheds, positions, &touched);
        assert(touched@ =~= Seq::new(lv0.len(), |l: int| level_closed_by(w0, d0, positions@, l, w0.len() as int)));
        clear(wants);
    }
}

/// Whether the request held by entity `e` names a tile that is a door in `levels`.
pub open spec fn opens_door(wants: Seq<Option<WantsToOpenDoor>>, levels: Seq<Level>, e: int) -> bool {
    &&& present(wants, e)
    &&& (comp(wants, e).level as int) < levels.len()
    &&& comp(wants, e).idx < levels[comp(wants, e).level as int].tiles@.len()
    &&& levels[comp(wants, e).level as int].tiles@[comp(wants, e).idx as int] == TileType::Door
}

/// Whether one of the requests held by entities `0..k` opens the door on tile `t` of level `l`.
pub open spec fn tile_opened_by(wants: Seq<Option<WantsToOpenDoor>>, levels: Seq<Level>, l: int, t: int, k: int) -> bool
    decreases k,
{
    if k <= 0 {
        false
    } else {
        tile_opened_by(wants, levels, l, t, k - 1) || {
            &&& opens_door(wants, levels, k - 1)
            &&& comp(wants, k - 1).level == l
            &&& comp(wants, k - 1).idx == t
        }
    }
}

/// Whether one of the requests held by entities `0..k` opens a door on level `l`.
pub open spec fn level_opened_by(wants: Seq<Option<WantsToOpenDoor>>, levels: Seq<Level>, l: int, k: int) -> bool
    decreases k,
{
    if k <= 0 {
        false
    } else {
        level_opened_by(wants, levels, l, k - 1) || (opens_door(wants, levels, k - 1) && comp(wants, k - 1).level == l)
    }
}

/// Whether level `b` is level `a` with floor tiles, neither blocked nor opaque, wherever `open`
/// holds, and everything else as it was.
pub open spec fn opened_where(a: Level, b: Level, open: spec_fn(int) -> bool) -> bool {
    &&& same_layout(a, b)
    &&& b.tiles@.len() == a.tiles@.len()
    &&& b.blocked@.len() == a.blocked@.len()
    &&& b.opaque@.len() == a.opaque@.len()
    &&& b.lit_tiles@ == a.lit_tiles@
    &&& forall|t: int| 0 <= t < a.tiles@.len() ==> #[trigger] b.tiles@[t] == (if open(t) { TileType::Floor } else { a.tiles@[t] })
    &&& forall|t: int| 0 <= t < a.blocked@.len() ==> #[trigger] b.blocked@[t] == (!open(t) && a.blocked@[t])
    &&& forall|t: int| 0 <= t < a.opaque@.len() ==> #[trigger] b.opaque@[t] == (!open(t) && a.opaque@[t])
}

/// Opens doors on request.
pub struct OpenDoorSystem {}

impl OpenDoorSystem {
    /// Every request that names a door tile turns it into a floor tile that neither blocks nor
    /// hides. The viewsheds of everything on a level where a door opened are marked for
    /// recomputation, and the requests are removed.
    pub fn run(
        &mut self,
        dungeon: &mut Dungeon,
        wants: &mut Vec<Option<WantsToOpenDoor>>,
        positions: &Vec<Option<Position>>,
        viewsheds: &mut Vec<Option<Viewshed>>,
    )
        requires
            all_levels_wf(old(dungeon).levels@),
            forall|e: int| #[trigger] present(old(wants)@, e) ==> {
                &&& (comp(old(wants)@, e).level as int) < old(dungeon).levels@.len()
                &&& comp(old(wants)@, e).idx < old(dungeon).levels@[comp(old(wants)@, e).level as int].tiles@.len()
            },
        ensures
            final(dungeon).levels@.len() == old(dungeon).levels@.len(),
            all_levels_wf(final(dungeon).levels@),
            forall|l: int| 0 <= l < old(dungeon).levels@.len() ==> opened_where(
                old(dungeon).levels@[l],
                #[trigger] final(dungeon).levels@[l],
                |t: int| tile_opened_by(old(wants)@, old(dungeon).levels@, l, t, old(wants)@.len() as int),
            ),
            viewsheds_view(final(viewsheds)@) == dirty_on_levels(
                viewsheds_view(old(viewsheds)@),
                positions@,
                Seq::new(old(dungeon).levels@.len(), |l: int| level_opened_by(old(wants)@, old(dungeon).levels@, l, old(wants)@.len() as int)),
            ),
            forall|e: int| !present(final(wants)@, e),
    {
        let ghost w0 = wants@;
        let ghost lv0 = dungeon.levels@;
        let n_levels = dungeon.levels.len();
        let mut touched: Vec<bool> = Vec::new();
        while touched.len() < n_levels
            invariant
                touched@.len() <= n_levels,
                forall|l: int| 0 <= l < touched@.len() ==> !#[trigger] touched@[l],
            decreases n_levels - touched@.len(),
        {
            touched.push(false);
        }
        let n = wants.len();
        let mut e: usize = 0;
        while e < n
            invariant
                e <= n,
                n == w0.len(),
                wants@ == w0,
                n_levels == lv0.len(),
                dungeon.levels@.len() == n_levels,
                touched@.len() == n_levels,
                all_levels_wf(lv0),
                all_levels_wf(dungeon.levels@),
                forall|i: int| #[trigger] present(w0, i) ==> {
                    &&& (comp(w0, i).level as int) < lv0.len()
                    &&& comp(w0, i).idx < lv0[comp(w0, i).level as int].tiles@.len()
                },
                forall|l: int| 0 <= l < n_levels ==> opened_where(
                    lv0[l],
                    #[trigger] dungeon.levels@[l],
                    |t: int| tile_opened_by(w0, lv0, l, t, e as int),
                ),
                forall|l: int, t: int| #[trigger] tile_opened_by(w0, lv0, l, t, e as int) ==> level_opened_by(w0, lv0, l, e as int),
                forall|l: int| 0 <= l < n_levels ==> #[trigger] touched@[l] == level_opened_by(w0, lv0, l, e as int),
            decreases n - e,
        {
            let ghost levels_before = dungeon.levels@;
            let ghost touched_before = touched@;
            match get(wants, e) {
                Some(intent) => {
                    let l = intent.level as usize;
                    let idx = intent.idx;
                    assert(present(w0, e as int));
                    let ghost was_opened = tile_opened_by(w0, lv0, l as int, idx as int, e as int);
                    assert(lv0[l as int].wf());
                    assert(levels_before[l as int].wf());
                    assert(opened_where(lv0[l as int], levels_before[l as int], |t: int| tile_opened_by(w0, lv0, l as int, t, e as int)));
                    assert(levels_before[l as int].tiles@[idx as int] == (if was_opened { TileType::Floor } else { lv0[l as int].tiles@[idx as int] }));
                    if dungeon.levels[l].tiles[idx] == TileType::Door {
                        assert(opens_door(w0, lv0, e as int));
                        dungeon.set_tile_flags(l, idx, TileType::Floor, false, Some(false));
                        touched.set(l, true);
                        proof {
                            assert forall|k: int| 0 <= k < n_levels implies opened_where(
                                lv0[k],
                                #[trigger] dungeon.levels@[k],
                                |t: int| tile_opened_by(w0, lv0, k, t, e + 1),
                            ) by {
                                let before = levels_before[k];
                                let after = dungeon.levels@[k];
                                assert(before.wf());
                                assert(lv0[k].wf());
                                if k == l {
                                    assert(after.blocked@ == before.blocked@.update(idx as int, false));
                                    assert(after.opaque@ == before.opaque@.update(idx as int, false));
                                } else {
                                    assert(after == before);
                                }
                                assert(opened_where(lv0[k], before, |t: int| tile_opened_by(w0, lv0, k, t, e as int)));
                                assert forall|t: int| 0 <= t < lv0[k].tiles@.len() implies #[trigger] after.tiles@[t] == (if tile_opened_by(w0, lv0, k, t, e + 1) { TileType::Floor } else { lv0[k].tiles@[t] }) by {
                                    assert(before.tiles@[t] == (if tile_opened_by(w0, lv0, k, t, e as int) { TileType::Floor } else { lv0[k].tiles@[t] }));
                                }
                                assert forall|t: int| 0 <= t < lv0[k].blocked@.len() implies #[trigger] after.blocked@[t] == (!tile_opened_by(w0, lv0, k, t, e + 1) && lv0[k].blocked@[t]) by {
                                    assert(before.blocked@[t] == (!tile_opened_by(w0, lv0, k, t, e as int) && lv0[k].blocked@[t]));
                                }
                                assert forall|t: int| 0 <= t < lv0[k].opaque@.len() implies #[trigger] after.opaque@[t] == (!tile_opened_by(w0, lv0, k, t, e + 1) && lv0[k].opaque@[t]) by {
                                    assert(before.opaque@[t] == (!tile_opened_by(w0, lv0, k, t, e as int) && lv0[k].opaque@[t]));
                                }
                            }
                            assert forall|k: int| 0 <= k < n_levels implies #[trigger] touched@[k] == level_opened_by(w0, lv0, k, e + 1) by {
                                assert(touched_before[k] == level_opened_by(w0, lv0, k, e as int));
                            }
                        }
                    } else {
                        proof {
                            if opens_door(w0, lv0, e as int) {
                                assert(was_opened);
                                assert(level_opened_by(w0, lv0, l as int, e as int));
                            }
                            assert forall|k: int| 0 <= k < n_levels implies opened_where(
                                lv0[k],
                                #[trigger] dungeon.levels@[k],
                                |t: int| tile_opened_by(w0, lv0, k, t, e + 1),
                            ) by {
                                let before = dungeon.levels@[k];
                                assert(opened_where(lv0[k], before, |t: int| tile_opened_by(w0, lv0, k, t, e as int)));
                                assert forall|t: int| 0 <= t < lv0[k].tiles@.len() implies #[trigger] before.tiles@[t] == (if tile_opened_by(w0, lv0, k, t, e + 1) { TileType::Floor } else { lv0[k].tiles@[t] }) by {}
                                assert forall|t: int| 0 <= t < lv0[k].blocked@.len() implies #[trigger] before.blocked@[t] == (!tile_opened_by(w0, lv0, k, t, e + 1) && lv0[k].blocked@[t]) by {}
                                assert forall|t: int| 0 <= t < lv0[k].opaque@.len() implies #[trigger] before.opaque@[t] == (!tile_opened_by(w0, lv0, k, t, e + 1) && lv0[k].opaque@[t]) by {}
                            }
                            assert forall|k: int| 0 <= k < n_levels implies #[trigger] touched@[k] == level_opened_by(w0, lv0, k, e + 1) by {}
                        }
                    }
                },
                None => {
                    assert(!opens_door(w0, lv0, e as int));
                    proof {
                        assert forall|k: int| 0 <= k < n_levels implies opened_where(
                            lv0[k],
                            #[trigger] dungeon.levels@[k],
                            |t: int| tile_opened_by(w0, lv0, k, t, e + 1),
                        ) by {
                            let before = dungeon.levels@[k];
                            assert(opened_where(lv0[k], before, |t: int| tile_opened_by(w0, lv0, k, t, e as int)));
                            assert forall|t: int| 0 <= t < lv0[k].tiles@.len() implies #[trigger] before.tiles@[t] == (if tile_opened_by(w0, lv0, k, t, e + 1) { TileType::Floor } else { lv0[k].tiles@[t] }) by {}
                            assert forall|t: int| 0 <= t < lv0[k].blocked@.len() implies #[trigger] before.blocked@[t] == (!tile_opened_by(w0, lv0, k, t, e + 1) && lv0[k].blocked@[t]) by {}
                            assert forall|t: int| 0 <= t < lv0[k].opaque@.len() implies #[trigger] before.opaque@[t] == (!tile_opened_by(w0, lv0, k, t, e + 1) && lv0[k].opaque@[t]) by {}
                        }
                        assert forall|k: int| 0 <= k < n_levels implies #[trigger] touched@[k] == level_opened_by(w0, lv0, k, e + 1) by {}
                    }
                },
            }
            proof {
                assert forall|l: int, t: int| #[trigger] tile_opened_by(w0, lv0, l, t, e + 1) implies level_opened_by(w0, lv0, l, e + 1) by {
                    if tile_opened_by(w0, lv0, l, t, e as int) {
                        assert(level_opened_by(w0, lv0, l, e as int));
                    }
                }
            }
            e += 1;
        }
        mark_dirty_on_levels(viewsheds, positions, &touched);
        assert(touched@ =~= Seq::new(lv0.len(), |l: int| level_opened_by(w0, lv0, l, w0.len() as int)));
        clear(wants);
    }
}

} // verus!
