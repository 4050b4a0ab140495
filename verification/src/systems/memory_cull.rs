use vstd::prelude::*;
use crate::components::{Memory, Position};
use crate::ecs::{alive, Entities, Entity};

verus! {

/// A memory read as plain values.
pub struct MemoryView {
    pub last_known_enemy_positions: Seq<(Entity, Position)>,
    pub known_enemy_hiding_spots: Seq<(Entity, Entity)>,
    pub wander_destination: Option<Position>,
}

/// The memories of all entities, read as plain values.
pub open spec fn memories_view(m: Seq<Option<Memory>>) -> Seq<Option<MemoryView>> {
    Seq::new(m.len(), |i: int| match m[i] {
        Some(x) => Some(MemoryView {
            last_known_enemy_positions: x.last_known_enemy_positions@,
            known_enemy_hiding_spots: x.known_enemy_hiding_spots@,
            wander_destination: x.wander_destination,
        }),
        None => None,
    })
}

/// Whether no entity occurs twice as a key of `s`: a memory holds at most one entry per enemy.
pub open spec fn keys_unique<V>(s: Seq<(Entity, V)>) -> bool {
    forall|i: int, j: int| 0 <= i < j < s.len() ==> #[trigger] s[i].0 != #[trigger] s[j].0
}

/// The invariant of a memory: at most one last sighting and one hiding spot per enemy.
pub open spec fn memory_wf(m: MemoryView) -> bool {
    &&& keys_unique(m.last_known_enemy_positions)
    &&& keys_unique(m.known_enemy_hiding_spots)
}

/// Keeping some entries of a table keeps its keys unique, and keeps only entries of the table.
pub proof fn lemma_filter_keys_unique<V>(s: Seq<(Entity, V)>, f: spec_fn((Entity, V)) -> bool)
    requires
        keys_unique(s),
    ensures
        keys_unique(s.filter(f)),
        forall|i: int| 0 <= i < s.filter(f).len() ==> s.contains(#[trigger] s.filter(f)[i]),
    decreases s.len(),
{
    reveal(Seq::filter);
    if s.len() > 0 {
        let d = s.drop_last();
        assert(keys_unique(d)) by {
            assert forall|i: int, j: int| 0 <= i < j < d.len() implies #[trigger] d[i].0 != #[trigger] d[j].0 by {
                assert(d[i] == s[i] && d[j] == s[j]);
            }
        }
        lemma_filter_keys_unique(d, f);
        let sub = d.filter(f);
        assert forall|i: int| 0 <= i < sub.len() implies s.contains(#[trigger] sub[i]) by {
            assert(d.contains(sub[i]));
            let k = choose|k: int| 0 <= k < d.len() && d[k] == sub[i];
            assert(s[k] == d[k]);
        }
        if f(s.last()) {
            let t = sub.push(s.last());
            assert(s.filter(f) == t);
            assert forall|i: int, j: int| 0 <= i < j < t.len() implies #[trigger] t[i].0 != #[trigger] t[j].0 by {
                if j == t.len() - 1 {
                    assert(t[i] == sub[i]);
                    assert(d.contains(sub[i]));
                    let k = choose|k: int| 0 <= k < d.len() && d[k] == sub[i];
                    assert(s[k] == d[k]);
                    assert(s[k].0 != s[s.len() - 1].0);
                } else {
                    assert(t[i] == sub[i] && t[j] == sub[j]);
                }
            }
            assert forall|i: int| 0 <= i < t.len() implies s.contains(#[trigger] t[i]) by {
                if i == t.len() - 1 {
                    assert(s[s.len() - 1] == t[i]);
                } else {
                    assert(t[i] == sub[i]);
                }
            }
        } else {
            assert(s.filter(f) == sub);
        }
    }
}

/// A memory without what it holds about entities that no longer exist: sightings of dead
/// enemies, and hiding spots where the enemy or the spot is gone.
pub open spec fn culled(alive_set: Seq<bool>, m: MemoryView) -> MemoryView {
    MemoryView {
        last_known_enemy_positions: m.last_known_enemy_positions.filter(|p: (Entity, Position)| alive(alive_set, p.0 as int)),
        known_enemy_hiding_spots: m.known_enemy_hiding_spots.filter(|p: (Entity, Entity)| alive(alive_set, p.0 as int) && alive(alive_set, p.1 as int)),
        wander_destination: m.wander_destination,
    }
}

/// The sightings of `s` whose enemy still exists, in their order.
fn live_sightings(entities: &Entities, s: &Vec<(Entity, Position)>) -> (r: Vec<(Entity, Position)>)
    ensures
        r@ == s@.filter(|p: (Entity, Position)| alive(entities.alive@, p.0 as int)),
{
    let ghost f = |p: (Entity, Position)| alive(entities.alive@, p.0 as int);
    let mut r: Vec<(Entity, Position)> = Vec::new();
    let mut i: usize = 0;
    while i < s.len()
        invariant
            i <= s@.len(),
            r@ == s@.take(i as int).filter(f),
            f == (|p: (Entity, Position)| alive(entities.alive@, p.0 as int)),
        decreases s@.len() - i,
    {
        let ghost before = r@;
        let (who, where_) = s[i];
        if entities.is_alive(who) {
            r.push((who, where_));
        }
        proof {
            reveal(Seq::filter);
            let t = s@.take(i + 1);
            assert(t.drop_last() =~= s@.take(i as int));
            assert(t.last() == s@[i as int]);
            assert(t.filter(f) == (if f(t.last()) { before.push(t.last()) } else { before }));
            assert(r@ == (if f(t.last()) { before.push(t.last()) } else { before }));
        }
        i += 1;
    }
    assert(s@.take(s@.len() as int) =~= s@);
    r
}

/// The hiding spots of `s` whose enemy and spot both still exist, in their order.
fn live_hiding_spots(entities: &Entities, s: &Vec<(Entity, Entity)>) -> (r: Vec<(Entity, Entity)>)
    ensures
        r@ == s@.filter(|p: (Entity, Entity)| alive(entities.alive@, p.0 as int) && alive(entities.alive@, p.1 as int)),
{
    let ghost f = |p: (Entity, Entity)| alive(entities.alive@, p.0 as int) && alive(entities.alive@, p.1 as int);
    let mut r: Vec<(Entity, Entity)> = Vec::new();
    let mut i: usize = 0;
    while i < s.len()
        invariant
            i <= s@.len(),
            r@ == s@.take(i as int).filter(f),
            f == (|p: (Entity, Entity)| alive(entities.alive@, p.0 as int) && alive(entities.alive@, p.1 as int)),
        decreases s@.len() - i,
    {
        let ghost before = r@;
        let (who, spot) = s[i];
        if entities.is_alive(who) && entities.is_alive(spot) {
            r.push((who, spot));
        }
        proof {
            reveal(Seq::filter);
            let t = s@.take(i + 1);
            assert(t.drop_last() =~= s@.take(i as int));
            assert(t.last() == s@[i as int]);
            assert(t.filter(f) == (if f(t.last()) { before.push(t.last()) } else { before }));
            assert(r@ == (if f(t.last()) { before.push(t.last()) } else { before }));
        }
        i += 1;
    }
    assert(s@.take(s@.len() as int) =~= s@);
    r
}

/// Makes monsters forget entities that no longer exist.
pub struct MemoryCullSystem {}

impl MemoryCullSystem {
    /// Every memory is `culled`; a memory that kept at most one entry per enemy still does.
    pub fn run(&mut self, memories: &mut Vec<Option<Memory>>, entities: &Entities)
        ensures
            memories_view(final(memories)@) == Seq::new(old(memories)@.len(), |i: int| match memories_view(old(memories)@)[i] {
                Some(m) => Some(culled(entities.alive@, m)),
                None => None,
            }),
            forall|i: int| 0 <= i < old(memories)@.len() && #[trigger] memories_view(old(memories)@)[i] is Some
                && memory_wf(memories_view(old(memories)@)[i]->0)
                ==> memory_wf(memories_view(final(memories)@)[i]->0),
    {
        let ghost m0 = memories_view(memories@);
        let n = memories.len();
        let mut i: usize = 0;
        while i < n
            invariant
                i <= n,
                n == m0.len(),
                memories@.len() == n,
                m0 == memories_view(old(memories)@),
                forall|j: int| 0 <= j < n ==> #[trigger] memories_view(memories@)[j] == (if j < i {
                    match m0[j] {
                        Some(m) => Some(culled(entities.alive@, m)),
                        None => None,
                    }
                } else {
                    m0[j]
                }),
            decreases n - i,
        {
            let ghost before = memories_view(memories@);
            let mut slot: Option<Memory> = None;
            memories.set_and_swap(i, &mut slot);
            match slot {
                Some(m) => {
                    let last = live_sightings(entities, &m.last_known_enemy_positions);
                    let spots = live_hiding_spots(entities, &m.known_enemy_hiding_spots);
                    memories.set(i, Some(Memory {
                        last_known_enemy_positions: last,
                        known_enemy_hiding_spots: spots,
                        wander_destination: m.wander_destination,
                    }));
                },
                None => {},
            }
            proof {
                assert forall|j: int| 0 <= j < n implies #[trigger] memories_view(memories@)[j] == (if j < i + 1 {
                    match m0[j] {
                        Some(m) => Some(culled(entities.alive@, m)),
                        None => None,
                    }
                } else {
                    m0[j]
                }) by {
                    if j != i {
                        assert(memories_view(memories@)[j] == before[j]);
                    }
                }
            }
            i += 1;
        }
        assert(memories_view(memories@) =~= Seq::new(m0.len(), |j: int| match m0[j] {
            Some(m) => Some(culled(entities.alive@, m)),
            None => None,
        }));
        assert forall|j: int| 0 <= j < m0.len() && #[trigger] m0[j] is Some && memory_wf(m0[j]->0)
            implies memory_wf(memories_view(memories@)[j]->0) by {
            let m = m0[j]->0;
            lemma_filter_keys_unique(m.last_known_enemy_positions, |p: (Entity, Position)| alive(entities.alive@, p.0 as int));
            lemma_filter_keys_unique(m.known_enemy_hiding_spots,
                |p: (Entity, Entity)| alive(entities.alive@, p.0 as int) && alive(entities.alive@, p.1 as int));
        }
    }
}

} // verus!
