use vstd::prelude::*;
use crate::components::{Grabbable, Grabbing, Hiding, Name, Position, WantsToGrab, WantsToHide, WantsToReleaseGrabbed};
use crate::dungeon::Dungeon;
use crate::level::Level;
use crate::systems::door_systems::all_levels_wf;
use crate::ecs::{alive, comp, contains, get, get_ref, lookup, present, put, stored, Entities, Entity};
use crate::game_log::GameLog;
use crate::systems::light_item_system::{name_or, name_or_unknown};
use crate::text::join_text;

verus! {

/// What grabbing changes.
pub struct GrabView {
    pub grabbings: Seq<Option<Grabbing>>,
    pub log: Seq<Seq<char>>,
}

/// Entity `e`'s grab request: take hold of the named thing ("You grab ..." for the player), or
/// let go when none is named.
pub open spec fn grab_step(alive_set: Seq<bool>, wants: Seq<Option<WantsToGrab>>, names: Seq<Option<Name>>, player: Entity, v: GrabView, e: int) -> GrabView {
    if !(alive(alive_set, e) && present(wants, e)) {
        v
    } else {
        match comp(wants, e).thing {
            Some(thing) => GrabView {
                grabbings: stored(v.grabbings, e, Some(Grabbing { thing })),
                log: if e == player { seq!["You grab "@ + name_or_unknown(names, thing as int)] + v.log } else { v.log },
            },
            None => GrabView { grabbings: stored(v.grabbings, e, None), ..v },
        }
    }
}

/// The grab requests of entities `0..k`, in entity order.
pub open spec fn grab_fold(alive_set: Seq<bool>, wants: Seq<Option<WantsToGrab>>, names: Seq<Option<Name>>, player: Entity, v: GrabView, k: int) -> GrabView
    decreases k,
{
    if k <= 0 { v } else { grab_step(alive_set, wants, names, player, grab_fold(alive_set, wants, names, player, v, k - 1), k - 1) }
}

/// Starts and ends grabbing.
pub struct GrabSystem {}

impl GrabSystem {
    /// The requests are `grab_fold` over all entities in order; afterwards none is left. Letting
    /// go needs something held, and taking hold needs the grabber to exist.
    pub fn run(
        &mut self,
        entities: &Entities,
        wants_to_grabs: &mut Vec<Option<WantsToGrab>>,
        grabbings: &mut Vec<Option<Grabbing>>,
        player_entity: Entity,
        log: &mut GameLog,
        names: &Vec<Option<Name>>,
    )
        requires
            forall|e: int| alive(entities.alive@, e) && #[trigger] present(old(wants_to_grabs)@, e)
                && comp(old(wants_to_grabs)@, e).thing is None ==> present(old(grabbings)@, e),
        ensures
            (GrabView { grabbings: final(grabbings)@, log: final(log).entries.deep_view() })
                == grab_fold(entities.alive@, old(wants_to_grabs)@, names@, player_entity,
                    GrabView { grabbings: old(grabbings)@, log: old(log).entries.deep_view() }, entities.alive@.len() as int),
            forall|e: int| !present(final(wants_to_grabs)@, e),
    {
        let ghost wants0 = wants_to_grabs@;
        let ghost v0 = GrabView { grabbings: grabbings@, log: log.entries.deep_view() };
        let n = entities.alive.len();
        let mut e: usize = 0;
        while e < n
            invariant
                n == entities.alive@.len(),
                e <= n,
                wants_to_grabs@ == wants0,
                (GrabView { grabbings: grabbings@, log: log.entries.deep_view() })
                    == grab_fold(entities.alive@, wants0, names@, player_entity, v0, e as int),
            decreases n - e,
        {
            if entities.is_alive(e) && contains(wants_to_grabs, e) {
                match get(wants_to_grabs, e).unwrap().thing {
                    Some(thing) => {
                        put(grabbings, e, Some(Grabbing { thing }));
                        if e == player_entity {
                            let name = name_or(names, thing, "unknown");
                            log.add(join_text("You grab ", name.as_str()));
                        }
                    },
                    None => {
                        put(grabbings, e, None);
                    },
                }
            }
            e += 1;
        }
        crate::ecs::clear(wants_to_grabs);
    }
}

/// What hiding changes.
pub struct HideView {
    pub positions: Seq<Option<Position>>,
    pub hidings: Seq<Option<Hiding>>,
    pub player_idx: usize,
    pub log: Seq<Seq<char>>,
}

/// Entity `e`'s hide request: step onto the hiding spot's tile and hide in it ("You hide in the
/// ..." for the player, whose tracked tile follows), or come out when no spot is named.
pub open spec fn hide_step(alive_set: Seq<bool>, wants: Seq<Option<WantsToHide>>, names: Seq<Option<Name>>, player: Entity, v: HideView, e: int) -> HideView {
    if !(alive(alive_set, e) && present(wants, e)) {
        v
    } else {
        match comp(wants, e).hiding_spot {
            Some(spot) => {
                let spot_idx = comp(v.positions, spot as int).idx;
                HideView {
                    positions: stored(v.positions, e, Some(Position { idx: spot_idx, ..comp(v.positions, e) })),
                    hidings: stored(v.hidings, e, Some(Hiding { hiding_spot: Some(spot) })),
                    player_idx: if e == player { spot_idx } else { v.player_idx },
                    log: if e == player { seq!["You hide in the "@ + name_or_unknown(names, spot as int)] + v.log } else { v.log },
                }
            },
            None => HideView { hidings: stored(v.hidings, e, None), ..v },
        }
    }
}

/// The hide requests of entities `0..k`, in entity order.
pub open spec fn hide_fold(alive_set: Seq<bool>, wants: Seq<Option<WantsToHide>>, names: Seq<Option<Name>>, player: Entity, v: HideView, k: int) -> HideView
    decreases k,
{
    if k <= 0 { v } else { hide_step(alive_set, wants, names, player, hide_fold(alive_set, wants, names, player, v, k - 1), k - 1) }
}

/// Starts and ends hiding.
pub struct HideSystem {}

impl HideSystem {
    /// The requests are `hide_fold` over all entities in order; afterwards none is left. Hiding
    /// needs positions for the hider and the spot; coming out needs to be hiding.
    pub fn run(
        &mut self,
        entities: &Entities,
        wants_to_hides: &mut Vec<Option<WantsToHide>>,
        hidings: &mut Vec<Option<Hiding>>,
        player_entity: Entity,
        log: &mut GameLog,
        names: &Vec<Option<Name>>,
        positions: &mut Vec<Option<Position>>,
        player_position: &mut usize,
    )
        requires
            forall|e: int| alive(entities.alive@, e) && #[trigger] present(old(wants_to_hides)@, e) ==> match comp(old(wants_to_hides)@, e).hiding_spot {
                Some(spot) => present(old(positions)@, spot as int) && present(old(positions)@, e),
                None => present(old(hidings)@, e),
            },
        ensures
            (HideView { positions: final(positions)@, hidings: final(hidings)@, player_idx: *final(player_position), log: final(log).entries.deep_view() })
                == hide_fold(entities.alive@, old(wants_to_hides)@, names@, player_entity,
                    HideView { positions: old(positions)@, hidings: old(hidings)@, player_idx: *old(player_position), log: old(log).entries.deep_view() },
                    entities.alive@.len() as int),
            forall|e: int| !present(final(wants_to_hides)@, e),
    {
        let ghost wants0 = wants_to_hides@;
        let ghost positions0 = positions@;
        let ghost hidings0 = hidings@;
        let ghost v0 = HideView { positions: positions@, hidings: hidings@, player_idx: *player_position, log: log.entries.deep_view() };
        let n = entities.alive.len();
        let mut e: usize = 0;
        while e < n
            invariant
                n == entities.alive@.len(),
                e <= n,
                wants_to_hides@ == wants0,
                forall|i: int| alive(entities.alive@, i) && #[trigger] present(wants0, i) ==> match comp(wants0, i).hiding_spot {
                    Some(spot) => present(positions0, spot as int) && present(positions0, i),
                    None => present(hidings0, i),
                },
                forall|i: int| present(positions0, i) ==> #[trigger] present(positions@, i),
                forall|i: int| e <= i ==> #[trigger] lookup(hidings@, i) == lookup(hidings0, i),
                (HideView { positions: positions@, hidings: hidings@, player_idx: *player_position, log: log.entries.deep_view() })
                    == hide_fold(entities.alive@, wants0, names@, player_entity, v0, e as int),
            decreases n - e,
        {
            if entities.is_alive(e) && contains(wants_to_hides, e) {
                match get(wants_to_hides, e).unwrap().hiding_spot {
                    Some(spot) => {
                        assert(alive(entities.alive@, e as int) && present(wants0, e as int));
                        assert(present(positions0, spot as int) && present(positions0, e as int));
                        assert(present(positions@, spot as int) && present(positions@, e as int));
                        let spot_idx = get(positions, spot).unwrap().idx;
                        let ent_position = get(positions, e).unwrap();
                        let ghost p0 = positions@;
                        put(positions, e, Some(Position { idx: spot_idx, ..ent_position }));
                        proof {
                            crate::ecs::lemma_stored_lookup(p0, e as int, Some(Position { idx: spot_idx, ..ent_position }));
                            assert forall|i: int| present(positions0, i) implies #[trigger] present(positions@, i) by {
                                assert(present(p0, i));
                            }
                        }
                        let ghost h0 = hidings@;
                        put(hidings, e, Some(Hiding { hiding_spot: Some(spot) }));
                        proof { crate::ecs::lemma_stored_lookup(h0, e as int, Some(Hiding { hiding_spot: Some(spot) })); }
                        if e == player_entity {
                            *player_position = spot_idx;
                            let name = name_or(names, spot, "unknown");
                            log.add(join_text("You hide in the ", name.as_str()));
                        }
                    },
                    None => {
                        let ghost h0 = hidings@;
                        put(hidings, e, None);
                        proof { crate::ecs::lemma_stored_lookup(h0, e as int, None); }
                    },
                }
            }
            e += 1;
        }
        crate::ecs::clear(wants_to_hides);
    }
}

/// Whether tile `a` is directly left, right, above or below tile `b` in a grid `width` wide.
pub open spec fn beside(width: int, a: int, b: int) -> bool {
    a == b + 1 || a == b - 1 || a == b + width || a == b - width
}

/// Whether grabber `e` holds something that has a position but no longer stands beside it.
pub open spec fn out_of_reach(grabbings: Seq<Option<Grabbing>>, positions: Seq<Option<Position>>, levels: Seq<Level>, e: int) -> bool {
    let thing = comp(grabbings, e).thing as int;
    let here = comp(positions, e);
    &&& present(grabbings, e)
    &&& present(positions, thing)
    &&& !beside(levels[here.level as int].width as int, comp(positions, thing).idx as int, here.idx as int)
}

/// Whether existing entity `e` lets go of what it holds: it asks to, or the thing can no longer
/// be grabbed, or the thing is out of reach.
pub open spec fn releases(
    alive_set: Seq<bool>,
    intents: Seq<Option<WantsToReleaseGrabbed>>,
    grabbings: Seq<Option<Grabbing>>,
    grabbables: Seq<Option<Grabbable>>,
    positions: Seq<Option<Position>>,
    levels: Seq<Level>,
    e: int,
) -> bool {
    &&& alive(alive_set, e)
    &&& {
        ||| present(intents, e)
        ||| (present(grabbings, e) && !present(grabbables, comp(grabbings, e).thing as int))
        ||| out_of_reach(grabbings, positions, levels, e)
    }
}

/// What the player is told on letting go: the name of the thing held, or "nothing".
pub open spec fn release_text(grabbings: Seq<Option<Grabbing>>, names: Seq<Option<Name>>, player: int) -> Seq<char> {
    "You release "@ + if present(grabbings, player) && present(names, comp(grabbings, player).thing as int) {
        comp(names, comp(grabbings, player).thing as int).name@
    } else {
        "nothing"@
    }
}

/// Whether checking grabber `e`'s reach stays within `usize`: the tile index is compared with its
/// neighbours one step left and one row up only where those exist.
pub open spec fn reach_check_fits(grabbings: Seq<Option<Grabbing>>, positions: Seq<Option<Position>>, levels: Seq<Level>, e: int) -> bool {
    let thing = comp(grabbings, e).thing as int;
    let here = comp(positions, e).idx as int;
    let width = levels[comp(positions, e).level as int].width as int;
    present(positions, thing) ==> {
        let there = comp(positions, thing).idx as int;
        &&& here + width <= usize::MAX
        &&& (there == here + 1 || here >= 1)
        &&& (there == here + width || here >= width)
    }
}

/// Ends grabs.
pub struct ReleaseSystem {}

impl ReleaseSystem {
    /// Every existing entity that `releases` loses its grab; the player reads "You release ..."
    /// when it is among them. The requests are removed.
    pub fn run(
        &mut self,
        entities: &Entities,
        intents: &mut Vec<Option<WantsToReleaseGrabbed>>,
        grabbings: &mut Vec<Option<Grabbing>>,
        positions: &Vec<Option<Position>>,
        grabbables: &Vec<Option<Grabbable>>,
        names: &Vec<Option<Name>>,
        player_entity: Entity,
        log: &mut GameLog,
        dungeon: &Dungeon,
    )
        requires
            all_levels_wf(dungeon.levels@),
            forall|e: int| alive(entities.alive@, e) && #[trigger] present(old(grabbings)@, e) ==> {
                &&& present(positions@, e)
                &&& (comp(positions@, e).level as int) < dungeon.levels@.len()
                &&& reach_check_fits(old(grabbings)@, positions@, dungeon.levels@, e)
            },
        ensures
            forall|e: int| #[trigger] lookup(final(grabbings)@, e) == (
                if releases(entities.alive@, old(intents)@, old(grabbings)@, grabbables@, positions@, dungeon.levels@, e) {
                    None
                } else {
                    lookup(old(grabbings)@, e)
                }),
            final(log).entries.deep_view() == (
                if releases(entities.alive@, old(intents)@, old(grabbings)@, grabbables@, positions@, dungeon.levels@, player_entity as int) {
                    seq![release_text(old(grabbings)@, names@, player_entity as int)] + old(log).entries.deep_view()
                } else {
                    old(log).entries.deep_view()
                }),
            forall|e: int| !present(final(intents)@, e),
    {
        let ghost g0 = grabbings@;
        let ghost i0 = intents@;
        let ghost log0 = log.entries.deep_view();
        let n = entities.alive.len();
        let mut to_release: Vec<Entity> = Vec::new();
        let mut e: usize = 0;
        while e < n
            invariant
                e <= n,
                n == entities.alive@.len(),
                grabbings@ == g0,
                intents@ == i0,
                all_levels_wf(dungeon.levels@),
                forall|i: int| alive(entities.alive@, i) && #[trigger] present(g0, i) ==> {
                    &&& present(positions@, i)
                    &&& (comp(positions@, i).level as int) < dungeon.levels@.len()
                    &&& reach_check_fits(g0, positions@, dungeon.levels@, i)
                },
                forall|j: int| 0 <= j < to_release@.len() ==> (to_release@[j] as int) < e,
                forall|j: int, k: int| 0 <= j < k < to_release@.len() ==> to_release@[j] < to_release@[k],
                forall|i: int| 0 <= i < e ==> (to_release@.contains(i as usize)
                    <==> #[trigger] releases(entities.alive@, i0, g0, grabbables@, positions@, dungeon.levels@, i)),
            decreases n - e,
        {
            let ghost before = to_release@;
            if entities.is_alive(e) {
                let wants = contains(intents, e);
                let mut gone = false;
                let mut out_of_sync = false;
                match get_ref(grabbings, e) {
                    Some(grabbing) => {
                        let thing = grabbing.thing;
                        gone = !contains(grabbables, thing);
                        assert(present(g0, e as int));
                        let here = get(positions, e).unwrap();
                        let level = &dungeon.levels[here.level as usize];
                        assert(level.wf());
                        match get(positions, thing) {
                            Some(there) => {
                                let w = level.width as usize;
                                let beside_x = there.idx == here.idx + 1 || there.idx == here.idx - 1;
                                let beside_y = there.idx == here.idx + w || there.idx == here.idx - w;
                                out_of_sync = !(beside_y || beside_x);
                                assert(out_of_sync == out_of_reach(g0, positions@, dungeon.levels@, e as int));
                            },
                            None => {},
                        }
                        assert(out_of_sync == out_of_reach(g0, positions@, dungeon.levels@, e as int));
                    },
                    None => {},
                }
                assert((wants || gone || out_of_sync) == releases(entities.alive@, i0, g0, grabbables@, positions@, dungeon.levels@, e as int));
                if wants || gone || out_of_sync {
                    to_release.push(e);
                }
            }
            proof {
                assert(to_release@ == before.push(e) || to_release@ == before);
                assert(to_release@ == before.push(e) <==> releases(entities.alive@, i0, g0, grabbables@, positions@, dungeon.levels@, e as int));
                assert forall|i: int| 0 <= i < e + 1 implies (to_release@.contains(i as usize)
                    <==> #[trigger] releases(entities.alive@, i0, g0, grabbables@, positions@, dungeon.levels@, i)) by {
                    if to_release@.contains(i as usize) {
                        let j = choose|j: int| 0 <= j < to_release@.len() && to_release@[j] == i as usize;
                        if j < before.len() {
                            assert(before[j] == i as usize);
                            assert(before.contains(i as usize));
                        }
                    }
                    if i < e && before.contains(i as usize) {
                        let j = choose|j: int| 0 <= j < before.len() && before[j] == i as usize;
                        assert(to_release@[j] == i as usize);
                    }
                    if i == e && releases(entities.alive@, i0, g0, grabbables@, positions@, dungeon.levels@, i) {
                        assert(to_release@[before.len() as int] == e);
                    }
                    if i == e && before.contains(i as usize) {
                        let j = choose|j: int| 0 <= j < before.len() && before[j] == i as usize;
                        assert((before[j] as int) < e);
                    }
                }
            }
            e += 1;
        }
        let m = to_release.len();
        let mut j: usize = 0;
        while j < m
            invariant
                j <= m,
                m == to_release@.len(),
                intents@ == i0,
                forall|a: int, b: int| 0 <= a < b < to_release@.len() ==> to_release@[a] < to_release@[b],
                forall|i: int| 0 <= i < n ==> (to_release@.contains(i as usize)
                    <==> #[trigger] releases(entities.alive@, i0, g0, grabbables@, positions@, dungeon.levels@, i)),
                forall|a: int| 0 <= a < to_release@.len() ==> (to_release@[a] as int) < n,
                n == entities.alive@.len(),
                forall|i: int| #[trigger] lookup(grabbings@, i) == (
                    if exists|a: int| 0 <= a < j && to_release@[a] == i { None } else { lookup(g0, i) }),
                log.entries.deep_view() == (
                    if exists|a: int| 0 <= a < j && to_release@[a] == player_entity {
                        seq![release_text(g0, names@, player_entity as int)] + log0
                    } else {
                        log0
                    }),
            decreases m - j,
        {
            let r = to_release[j];
            assert(forall|a: int| 0 <= a < j ==> to_release@[a] != r);
            if r == player_entity {
                let name = match get_ref(grabbings, r) {
                    Some(grabbing) => name_or(names, grabbing.thing, "nothing"),
                    None => String::from_str("nothing"),
                };
                log.add(join_text("You release ", name.as_str()));
            }
            put(grabbings, r, None);
            proof {
                assert forall|i: int| #[trigger] lookup(grabbings@, i) == (
                    if exists|a: int| 0 <= a < j + 1 && to_release@[a] == i { None } else { lookup(g0, i) }) by {
                    if i == r {
                        assert(to_release@[j as int] == i);
                    } else if exists|a: int| 0 <= a < j + 1 && to_release@[a] == i {
                        let a = choose|a: int| 0 <= a < j + 1 && to_release@[a] == i;
                        assert(a < j);
                    }
                }
                if exists|a: int| 0 <= a < j + 1 && to_release@[a] == player_entity {
                    if r != player_entity {
                        let a = choose|a: int| 0 <= a < j + 1 && to_release@[a] == player_entity;
                        assert(a < j);
                    }
                }
            }
            j += 1;
        }
        proof {
            assert forall|i: int| #[trigger] lookup(grabbings@, i) == (
                if releases(entities.alive@, i0, g0, grabbables@, positions@, dungeon.levels@, i) { None } else { lookup(g0, i) }) by {
                if releases(entities.alive@, i0, g0, grabbables@, positions@, dungeon.levels@, i) {
                    assert(0 <= i < n);
                    assert(to_release@.contains(i as usize));
                    let a = choose|a: int| 0 <= a < to_release@.len() && to_release@[a] == i as usize;
                    assert(to_release@[a] == i);
                } else if exists|a: int| 0 <= a < m && to_release@[a] == i {
                    let a = choose|a: int| 0 <= a < m && to_release@[a] == i;
                    assert(to_release@.contains(to_release@[a]));
                }
            }
            let p = player_entity as int;
            if releases(entities.alive@, i0, g0, grabbables@, positions@, dungeon.levels@, p) {
                assert(0 <= p < n);
                assert(to_release@.contains(player_entity));
                let a = choose|a: int| 0 <= a < to_release@.len() && to_release@[a] == player_entity;
                assert(to_release@[a] == player_entity);
            } else if exists|a: int| 0 <= a < m && to_release@[a] == player_entity {
                let a = choose|a: int| 0 <= a < m && to_release@[a] == player_entity;
                assert(to_release@.contains(to_release@[a]));
                assert((to_release@[a] as int) < n);
            }
        }
        crate::ecs::clear(intents);
    }
}

} // verus!
