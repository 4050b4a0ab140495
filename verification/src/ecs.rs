use vstd::prelude::*;

verus! {

/// An entity is the index of its slot in every component storage.
pub type Entity = usize;

/// The component stored for entity `e`, if any. A storage is a vector indexed by entity;
/// entities past its end hold nothing.
pub open spec fn lookup<C>(s: Seq<Option<C>>, e: int) -> Option<C> {
    if 0 <= e < s.len() { s[e] } else { None }
}

/// Whether entity `e` has a component in the storage.
pub open spec fn present<C>(s: Seq<Option<C>>, e: int) -> bool {
    lookup(s, e) is Some
}

/// The component of entity `e`; meaningful only where `present(s, e)`.
pub open spec fn comp<C>(s: Seq<Option<C>>, e: int) -> C {
    lookup(s, e)->0
}

/// Whether storage `b` holds what `a` holds, except that entity `e` holds `c`.
pub open spec fn updated<C>(a: Seq<Option<C>>, b: Seq<Option<C>>, e: int, c: Option<C>) -> bool {
    forall|i: int| #[trigger] lookup(b, i) == (if i == e { c } else { lookup(a, i) })
}

/// Whether two storages hold the same components.
pub open spec fn same<C>(a: Seq<Option<C>>, b: Seq<Option<C>>) -> bool {
    forall|i: int| #[trigger] lookup(b, i) == lookup(a, i)
}

/// The storage after entity `e` is given `c`: storages grow with empty slots as needed, and
/// storing nothing past the end leaves them as they are.
pub open spec fn stored<C>(s: Seq<Option<C>>, e: int, c: Option<C>) -> Seq<Option<C>> {
    if e < s.len() {
        s.update(e, c)
    } else if c is None {
        s
    } else {
        s + Seq::new((e - s.len()) as nat, |i: int| None::<C>) + seq![c]
    }
}

/// Looking up a storage after `stored`: entity `e` holds `c`, every other entity what it held.
pub proof fn lemma_stored_lookup<C>(s: Seq<Option<C>>, e: int, c: Option<C>)
    requires
        0 <= e,
    ensures
        forall|i: int| #[trigger] lookup(stored(s, e, c), i) == (if i == e { c } else { lookup(s, i) }),
{
    assert forall|i: int| #[trigger] lookup(stored(s, e, c), i) == (if i == e { c } else { lookup(s, i) }) by {
        if e >= s.len() && c is Some {
            let t = s + Seq::new((e - s.len()) as nat, |j: int| None::<C>) + seq![c];
            assert(t.len() == e + 1);
            if 0 <= i < s.len() {
                assert(t[i] == s[i]);
            } else if s.len() <= i < e {
                assert(t[i] == None::<C>);
            }
        }
    }
}

/// The component of entity `e`, copied out.
pub fn get<C: Copy>(s: &Vec<Option<C>>, e: Entity) -> (r: Option<C>)
    ensures
        r == lookup(s@, e as int),
{
    if e < s.len() {
        s[e]
    } else {
        None
    }
}

/// A reference to the component of entity `e`.
pub fn get_ref<C>(s: &Vec<Option<C>>, e: Entity) -> (r: Option<&C>)
    ensures
        r is Some <==> present(s@, e as int),
        r matches Some(c) ==> *c == comp(s@, e as int),
{
    if e < s.len() {
        s[e].as_ref()
    } else {
        None
    }
}

/// Whether entity `e` has a component in the storage.
pub fn contains<C>(s: &Vec<Option<C>>, e: Entity) -> (r: bool)
    ensures
        r == present(s@, e as int),
{
    e < s.len() && s[e].is_some()
}

/// Stores `c` for entity `e` (nothing, when `c` is `None`); every other entity keeps its component.
pub fn put<C>(s: &mut Vec<Option<C>>, e: Entity, c: Option<C>)
    ensures
        updated(old(s)@, final(s)@, e as int, c),
        final(s)@ == stored(old(s)@, e as int, c),
{
    if e < s.len() {
        s.set(e, c);
        assert forall|i: int| #[trigger] lookup(s@, i) == (if i == e { c } else { lookup(old(s)@, i) }) by {}
    } else if c.is_some() {
        while s.len() < e
            invariant
                forall|i: int| #[trigger] lookup(s@, i) == lookup(old(s)@, i),
                old(s)@.len() <= s@.len() <= e,
                s@ == old(s)@ + Seq::new((s@.len() - old(s)@.len()) as nat, |i: int| None::<C>),
            decreases e - s@.len(),
        {
            let ghost before = s@;
            s.push(None);
            assert forall|i: int| #[trigger] lookup(s@, i) == lookup(old(s)@, i) by {
                if i < before.len() {
                    assert(lookup(s@, i) == lookup(before, i));
                }
            }
            assert(s@ =~= old(s)@ + Seq::new((s@.len() - old(s)@.len()) as nat, |i: int| None::<C>));
        }
        let ghost before = s@;
        s.push(c);
        assert(s@ =~= stored(old(s)@, e as int, c));
        assert forall|i: int| #[trigger] lookup(s@, i) == (if i == e { c } else { lookup(old(s)@, i) }) by {
            if i < before.len() {
                assert(lookup(s@, i) == lookup(before, i));
            }
        }
    }
}

/// Removes the component of entity `e`.
pub fn remove<C>(s: &mut Vec<Option<C>>, e: Entity)
    ensures
        updated(old(s)@, final(s)@, e as int, None),
        final(s)@ == stored(old(s)@, e as int, None),
{
    put(s, e, None);
}

/// Removes every component of the storage.
pub fn clear<C>(s: &mut Vec<Option<C>>)
    ensures
        forall|i: int| !present(final(s)@, i),
{
    s.clear();
}

/// Which entities exist. Entities are never reused: a deleted slot stays dead.
pub struct Entities {
    pub alive: Vec<bool>,
}

/// Whether entity `e` exists.
pub open spec fn alive(alive: Seq<bool>, e: int) -> bool {
    0 <= e < alive.len() && alive[e]
}

/// The entity table after entity `e` is deleted.
pub open spec fn killed(alive: Seq<bool>, e: int) -> Seq<bool> {
    if 0 <= e < alive.len() { alive.update(e, false) } else { alive }
}

impl Entities {
    /// No entities.
    pub fn new() -> (r: Entities)
        ensures
            r.alive@.len() == 0,
    {
        Entities { alive: Vec::new() }
    }

    /// Creates a new entity, the slot after every existing one.
    pub fn create(&mut self) -> (e: Entity)
        requires
            old(self).alive@.len() < usize::MAX,
        ensures
            e == old(self).alive@.len(),
            final(self).alive@ == old(self).alive@.push(true),
    {
        let e = self.alive.len();
        self.alive.push(true);
        e
    }

    /// Deletes entity `e`; deleting one that does not exist changes nothing.
    pub fn delete(&mut self, e: Entity)
        ensures
            final(self).alive@.len() == old(self).alive@.len(),
            forall|i: int| alive(final(self).alive@, i) == (alive(old(self).alive@, i) && i != e),
            final(self).alive@ == killed(old(self).alive@, e as int),
    {
        if e < self.alive.len() {
            self.alive.set(e, false);
        }
    }

    /// A copy of the table as it stands.
    pub fn snapshot(&self) -> (r: Entities)
        ensures
            r.alive@ == self.alive@,
    {
        let mut alive: Vec<bool> = Vec::new();
        let mut i: usize = 0;
        while i < self.alive.len()
            invariant
                i <= self.alive@.len(),
                alive@ == self.alive@.subrange(0, i as int),
            decreases self.alive@.len() - i,
        {
            alive.push(self.alive[i]);
            i += 1;
        }
        assert(alive@ =~= self.alive@);
        Entities { alive }
    }

    /// Whether entity `e` exists.
    pub fn is_alive(&self, e: Entity) -> (r: bool)
        ensures
            r == alive(self.alive@, e as int),
    {
        e < self.alive.len() && self.alive[e]
    }
}

/// Drops from storage `s` the component of every entity that no longer exists; the components
/// of existing entities stay as they are.
pub fn maintain<C>(entities: &Entities, s: &mut Vec<Option<C>>)
    ensures
        final(s)@.len() == old(s)@.len(),
        forall|i: int| #[trigger] lookup(final(s)@, i)
            == (if alive(entities.alive@, i) { lookup(old(s)@, i) } else { None::<C> }),
{
    let n = s.len();
    let mut i: usize = 0;
    while i < n
        invariant
            n == old(s)@.len(),
            s@.len() == n,
            i <= n,
            forall|j: int| 0 <= j < i ==> #[trigger] s@[j]
                == (if alive(entities.alive@, j) { old(s)@[j] } else { None::<C> }),
            forall|j: int| i <= j < n ==> #[trigger] s@[j] == old(s)@[j],
        decreases n - i,
    {
        if !entities.is_alive(i) {
            s.set(i, None);
        }
        i += 1;
    }
    assert forall|i: int| #[trigger] lookup(s@, i)
        == (if alive(entities.alive@, i) { lookup(old(s)@, i) } else { None::<C> }) by {
        if 0 <= i < n {
            assert(s@[i] == (if alive(entities.alive@, i) { old(s)@[i] } else { None::<C> }));
        }
    }
}

} // verus!
