use vstd::prelude::*;
use crate::components::{Flammable, OnFire, ParticleLifetime, Position, SingleActivation, Triggered};
use crate::ecs::{alive, comp, contains, get, lookup, present, put, Entities, Entity};
use crate::services::{spec_burnt_debris, DebrisRequestView, DebrisSpawner};

verus! {

/// Burns down everything on fire by one turn.
pub struct FireBurnSystem {}

impl FireBurnSystem {
    /// Every flammable entity that is on fire has one turn less left.
    pub fn run(&mut self, on_fires: &Vec<Option<OnFire>>, flammables: &mut Vec<Option<Flammable>>)
        requires
            forall|e: int| #[trigger] present(old(flammables)@, e) ==> comp(old(flammables)@, e).turns_remaining > i32::MIN,
        ensures
            forall|e: int| #[trigger] lookup(final(flammables)@, e) == (if present(old(flammables)@, e) && present(on_fires@, e) {
                Some(Flammable { turns_remaining: (comp(old(flammables)@, e).turns_remaining - 1) as i32 })
            } else {
                lookup(old(flammables)@, e)
            }),
    {
        let ghost f0 = flammables@;
        let n = flammables.len();
        let mut e: usize = 0;
        while e < n
            invariant
                n == f0.len(),
                e <= n,
                flammables@.len() == n,
                forall|i: int| #[trigger] present(f0, i) ==> comp(f0, i).turns_remaining > i32::MIN,
                forall|i: int| #[trigger] lookup(flammables@, i) == (if 0 <= i < e && present(f0, i) && present(on_fires@, i) {
                    Some(Flammable { turns_remaining: (comp(f0, i).turns_remaining - 1) as i32 })
                } else {
                    lookup(f0, i)
                }),
            decreases n - e,
        {
            if contains(on_fires, e) {
                match get(flammables, e) {
                    Some(f) => {
                        assert(lookup(flammables@, e as int) == lookup(f0, e as int));
                        assert(present(f0, e as int));
                        assert(f == comp(f0, e as int));
                        put(flammables, e, Some(Flammable { turns_remaining: f.turns_remaining - 1 }));
                    },
                    None => {},
                }
            }
            e += 1;
        }
    }
}

/// The debris left by the entities among `0..k` that have burnt out.
pub open spec fn burnt_out_debris(alive_set: Seq<bool>, flammables: Seq<Option<Flammable>>, positions: Seq<Option<Position>>, k: int) -> Seq<DebrisRequestView>
    decreases k,
{
    if k <= 0 {
        Seq::empty()
    } else {
        let prev = burnt_out_debris(alive_set, flammables, positions, k - 1);
        if burnt_out(alive_set, flammables, k - 1) {
            prev.push(spec_burnt_debris(comp(positions, k - 1).idx, comp(positions, k - 1).level))
        } else {
            prev
        }
    }
}

/// Whether entity `e` exists and has no turns of burning left.
pub open spec fn burnt_out(alive_set: Seq<bool>, flammables: Seq<Option<Flammable>>, e: int) -> bool {
    alive(alive_set, e) && present(flammables, e) && comp(flammables, e).turns_remaining < 1
}

/// Replaces what has burnt out with burnt debris.
pub struct FireDieSystem {}

impl FireDieSystem {
    /// Every existing flammable entity with no turns left is deleted and leaves burnt debris on
    /// its tile, in entity order.
    pub fn run(
        &mut self,
        entities: &mut Entities,
        flammables: &Vec<Option<Flammable>>,
        positions: &Vec<Option<Position>>,
        debris_spawner: &mut DebrisSpawner,
    )
        requires
            forall|e: int| #[trigger] burnt_out(old(entities).alive@, flammables@, e) ==> present(positions@, e),
        ensures
            final(debris_spawner).requests.deep_view() == old(debris_spawner).requests.deep_view()
                + burnt_out_debris(old(entities).alive@, flammables@, positions@, old(entities).alive@.len() as int),
            final(entities).alive@.len() == old(entities).alive@.len(),
            forall|e: int| #[trigger] alive(final(entities).alive@, e) == (alive(old(entities).alive@, e) && !burnt_out(old(entities).alive@, flammables@, e)),
    {
        let ghost alive0 = entities.alive@;
        let n = entities.alive.len();
        let mut e: usize = 0;
        while e < n
            invariant
                n == alive0.len(),
                e <= n,
                entities.alive@.len() == n,
                forall|i: int| #[trigger] burnt_out(alive0, flammables@, i) ==> present(positions@, i),
                forall|i: int| #[trigger] alive(entities.alive@, i) == (alive(alive0, i) && !(0 <= i < e && burnt_out(alive0, flammables@, i))),
                debris_spawner.requests.deep_view() == old(debris_spawner).requests.deep_view()
                    + burnt_out_debris(alive0, flammables@, positions@, e as int),
            decreases n - e,
        {
            assert(alive(entities.alive@, e as int) == alive(alive0, e as int));
            if entities.is_alive(e) {
                match get(flammables, e) {
                    Some(f) => {
                        if f.turns_remaining < 1 {
                            let position = get(positions, e).unwrap();
                            debris_spawner.request_burnt_debris(position.idx, position.level);
                            entities.delete(e);
                        }
                    },
                    None => {},
                }
            }
            assert(debris_spawner.requests.deep_view() =~= old(debris_spawner).requests.deep_view()
                + burnt_out_debris(alive0, flammables@, positions@, e + 1));
            e += 1;
        }
    }
}

/// Removes traps that went off and only go off once.
pub struct RemoveTriggeredTrapsSystem {}

impl RemoveTriggeredTrapsSystem {
    /// Every existing entity that is both single-use and triggered is deleted.
    pub fn run(&mut self, entities: &mut Entities, single_activations: &Vec<Option<SingleActivation>>, triggered: &Vec<Option<Triggered>>)
        ensures
            final(entities).alive@.len() == old(entities).alive@.len(),
            forall|e: int| #[trigger] alive(final(entities).alive@, e) == (alive(old(entities).alive@, e)
                && !(present(single_activations@, e) && present(triggered@, e))),
    {
        let ghost alive0 = entities.alive@;
        let n = entities.alive.len();
        let mut e: usize = 0;
        while e < n
            invariant
                n == alive0.len(),
                e <= n,
                entities.alive@.len() == n,
                forall|i: int| #[trigger] alive(entities.alive@, i) == (alive(alive0, i)
                    && !(0 <= i < e && present(single_activations@, i) && present(triggered@, i))),
            decreases n - e,
        {
            if entities.is_alive(e) && contains(single_activations, e) && contains(triggered, e) {
                entities.delete(e);
            }
            e += 1;
        }
    }
}

/// Removes particles whose time is up.
pub struct RemoveParticleEffectsSystem {}

impl RemoveParticleEffectsSystem {
    /// Every existing particle with less than no time left is deleted.
    pub fn run(&mut self, entities: &mut Entities, lifetimes: &Vec<Option<ParticleLifetime>>)
        ensures
            final(entities).alive@.len() == old(entities).alive@.len(),
            forall|e: int| #[trigger] alive(final(entities).alive@, e) == (alive(old(entities).alive@, e)
                && !(present(lifetimes@, e) && comp(lifetimes@, e).duration_ms < 0)),
    {
        let ghost alive0 = entities.alive@;
        let n = entities.alive.len();
        let mut e: usize = 0;
        while e < n
            invariant
                n == alive0.len(),
                e <= n,
                entities.alive@.len() == n,
                forall|i: int| #[trigger] alive(entities.alive@, i) == (alive(alive0, i)
                    && !(0 <= i < e && present(lifetimes@, i) && comp(lifetimes@, i).duration_ms < 0)),
            decreases n - e,
        {
            if entities.is_alive(e) {
                match get(lifetimes, e) {
                    Some(l) => {
                        if l.duration_ms < 0 {
                            entities.delete(e);
                        }
                    },
                    None => {},
                }
            }
            e += 1;
        }
    }
}

} // verus!
