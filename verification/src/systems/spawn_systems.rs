use vstd::prelude::*;
use crate::color::{Color, NamedColor};
use crate::components::{
    Blood, Consumable, Container, Flammable, Grabbable, Item, Name, ParticleLifetime, Position,
    Ranged, Renderable, Saveable, Trap,
};
use crate::damage::copy_entities;
use crate::ecs::{comp, lookup, present, put, Entities, Entity};
use crate::item_type::{
    get_foreground_color_for_item, get_glyph_for_item, get_name_for_item, get_range_for_item,
    get_trap_type_for_item, item_is_consumable, spec_item_char, spec_item_fg, spec_item_name,
    spec_item_range, spec_item_trap,
};
use crate::services::{BloodSpawner, CorpseSpawner, DebrisSpawner, ItemSpawner, ParticleEffectSpawner};

verus! {

/// Whether `b` is storage `a` with nothing changed outside the new entities `n0..n0+k`.
pub open spec fn unchanged_outside<C>(a: Seq<Option<C>>, b: Seq<Option<C>>, n0: int, k: int) -> bool {
    forall|e: int| !(n0 <= e < n0 + k) ==> #[trigger] lookup(b, e) == lookup(a, e)
}

/// Whether `alive` grew by `k` new entities.
pub open spec fn grew_by(a: Seq<bool>, b: Seq<bool>, k: int) -> bool {
    b == a + Seq::new(k as nat, |i: int| true)
}

proof fn lemma_grow(a: Seq<bool>, b: Seq<bool>, k: int)
    requires
        grew_by(a, b, k),
        k >= 0,
    ensures
        grew_by(a, b.push(true), k + 1),
{
    assert(b.push(true) =~= a + Seq::new((k + 1) as nat, |i: int| true));
}

/// Creates the blood splatters asked for.
pub struct BloodSpawnSystem {}

impl BloodSpawnSystem {
    /// Request `i` becomes new entity `n0 + i` (where `n0` counts the entities before): a blood
    /// splatter drawn at layer 3 on the requested tile, kept by saved games. No request is left.
    pub fn run(
        &mut self,
        entities: &mut Entities,
        saveables: &mut Vec<Option<Saveable>>,
        positions: &mut Vec<Option<Position>>,
        renderables: &mut Vec<Option<Renderable>>,
        bloods: &mut Vec<Option<Blood>>,
        spawner: &mut BloodSpawner,
    )
        requires
            old(entities).alive@.len() + old(spawner).requests@.len() < usize::MAX,
        ensures
            grew_by(old(entities).alive@, final(entities).alive@, old(spawner).requests@.len() as int),
            forall|i: int| 0 <= i < old(spawner).requests@.len() ==> {
                let e = old(entities).alive@.len() + i;
                let r = #[trigger] old(spawner).requests@[i];
                &&& lookup(final(positions)@, e) == Some(Position { idx: r.idx, level: r.level })
                &&& lookup(final(saveables)@, e) == Some(Saveable {})
                &&& lookup(final(renderables)@, e) == Some(Renderable { fg: r.fg, bg: r.bg, glyph: r.glyph, layer: 3 })
                &&& lookup(final(bloods)@, e) == Some(Blood {})
            },
            unchanged_outside(old(positions)@, final(positions)@, old(entities).alive@.len() as int, old(spawner).requests@.len() as int),
            unchanged_outside(old(saveables)@, final(saveables)@, old(entities).alive@.len() as int, old(spawner).requests@.len() as int),
            unchanged_outside(old(renderables)@, final(renderables)@, old(entities).alive@.len() as int, old(spawner).requests@.len() as int),
            unchanged_outside(old(bloods)@, final(bloods)@, old(entities).alive@.len() as int, old(spawner).requests@.len() as int),
            final(spawner).requests@.len() == 0,
    {
        let ghost n0 = entities.alive@.len() as int;
        let ghost reqs = spawner.requests@;
        let k = spawner.requests.len();
        let mut i: usize = 0;
        while i < k
            invariant
                k == reqs.len(),
                spawner.requests@ == reqs,
                i <= k,
                n0 + k < usize::MAX,
                entities.alive@.len() == n0 + i,
                grew_by(old(entities).alive@, entities.alive@, i as int),
                old(entities).alive@.len() == n0,
                forall|j: int| 0 <= j < i ==> {
                    let r = #[trigger] reqs[j];
                    &&& lookup(positions@, n0 + j) == Some(Position { idx: r.idx, level: r.level })
                    &&& lookup(saveables@, n0 + j) == Some(Saveable {})
                    &&& lookup(renderables@, n0 + j) == Some(Renderable { fg: r.fg, bg: r.bg, glyph: r.glyph, layer: 3 })
                    &&& lookup(bloods@, n0 + j) == Some(Blood {})
                },
                unchanged_outside(old(positions)@, positions@, n0, i as int),
                unchanged_outside(old(saveables)@, saveables@, n0, i as int),
                unchanged_outside(old(renderables)@, renderables@, n0, i as int),
                unchanged_outside(old(bloods)@, bloods@, n0, i as int),
            decreases k - i,
        {
            let r = spawner.requests[i];
            proof { lemma_grow(old(entities).alive@, entities.alive@, i as int); }
            let e = entities.create();
            put(saveables, e, Some(Saveable {}));
            put(bloods, e, Some(Blood {}));
            put(positions, e, Some(Position { idx: r.idx, level: r.level }));
            put(renderables, e, Some(Renderable { fg: r.fg, bg: r.bg, glyph: r.glyph, layer: 3 }));
            i += 1;
        }
        spawner.requests.clear();
    }
}

/// Creates the particles asked for.
pub struct ParticleSpawnSystem {}

impl ParticleSpawnSystem {
    /// Request `i` becomes new entity `n0 + i`: a particle drawn at layer 0 on the requested
    /// tile for the requested time, which saved games leave out. No request is left.
    pub fn run(
        &mut self,
        entities: &mut Entities,
        positions: &mut Vec<Option<Position>>,
        lifetimes: &mut Vec<Option<ParticleLifetime>>,
        renderables: &mut Vec<Option<Renderable>>,
        spawner: &mut ParticleEffectSpawner,
    )
        requires
            old(entities).alive@.len() + old(spawner).requests@.len() < usize::MAX,
        ensures
            grew_by(old(entities).alive@, final(entities).alive@, old(spawner).requests@.len() as int),
            forall|i: int| 0 <= i < old(spawner).requests@.len() ==> {
                let e = old(entities).alive@.len() + i;
                let r = #[trigger] old(spawner).requests@[i];
                &&& lookup(final(positions)@, e) == Some(Position { idx: r.idx, level: r.level })
                &&& lookup(final(renderables)@, e) == Some(Renderable { fg: r.fg, bg: r.bg, glyph: r.glyph, layer: 0 })
                &&& lookup(final(lifetimes)@, e) == Some(ParticleLifetime { duration_ms: r.lifetime_ms })
            },
            unchanged_outside(old(positions)@, final(positions)@, old(entities).alive@.len() as int, old(spawner).requests@.len() as int),
            unchanged_outside(old(renderables)@, final(renderables)@, old(entities).alive@.len() as int, old(spawner).requests@.len() as int),
            unchanged_outside(old(lifetimes)@, final(lifetimes)@, old(entities).alive@.len() as int, old(spawner).requests@.len() as int),
            final(spawner).requests@.len() == 0,
    {
        let ghost n0 = entities.alive@.len() as int;
        let ghost reqs = spawner.requests@;
        let k = spawner.requests.len();
        let mut i: usize = 0;
        while i < k
            invariant
                k == reqs.len(),
                spawner.requests@ == reqs,
                i <= k,
                n0 + k < usize::MAX,
                entities.alive@.len() == n0 + i,
                grew_by(old(entities).alive@, entities.alive@, i as int),
                old(entities).alive@.len() == n0,
                forall|j: int| 0 <= j < i ==> {
                    let r = #[trigger] reqs[j];
                    &&& lookup(positions@, n0 + j) == Some(Position { idx: r.idx, level: r.level })
                    &&& lookup(renderables@, n0 + j) == Some(Renderable { fg: r.fg, bg: r.bg, glyph: r.glyph, layer: 0 })
                    &&& lookup(lifetimes@, n0 + j) == Some(ParticleLifetime { duration_ms: r.lifetime_ms })
                },
                unchanged_outside(old(positions)@, positions@, n0, i as int),
                unchanged_outside(old(renderables)@, renderables@, n0, i as int),
                unchanged_outside(old(lifetimes)@, lifetimes@, n0, i as int),
            decreases k - i,
        {
            let r = spawner.requests[i];
            proof { lemma_grow(old(entities).alive@, entities.alive@, i as int); }
            let e = entities.create();
            put(positions, e, Some(Position { idx: r.idx, level: r.level }));
            put(renderables, e, Some(Renderable { fg: r.fg, bg: r.bg, glyph: r.glyph, layer: 0 }));
            put(lifetimes, e, Some(ParticleLifetime { duration_ms: r.lifetime_ms }));
            i += 1;
        }
        spawner.requests.clear();
    }
}

/// Creates the debris asked for.
pub struct DebrisSpawnSystem {}

impl DebrisSpawnSystem {
    /// Request `i` becomes new entity `n0 + i`: named debris drawn at layer 3 on the requested
    /// tile that can be dragged, that burns for 4 turns if it was asked to be flammable, and that
    /// saved games keep. No request is left.
    pub fn run(
        &mut self,
        entities: &mut Entities,
        saveables: &mut Vec<Option<Saveable>>,
        positions: &mut Vec<Option<Position>>,
        renderables: &mut Vec<Option<Renderable>>,
        names: &mut Vec<Option<Name>>,
        grabbables: &mut Vec<Option<Grabbable>>,
        flammables: &mut Vec<Option<Flammable>>,
        spawner: &mut DebrisSpawner,
    )
        requires
            old(entities).alive@.len() + old(spawner).requests@.len() < usize::MAX,
        ensures
            grew_by(old(entities).alive@, final(entities).alive@, old(spawner).requests@.len() as int),
            forall|i: int| 0 <= i < old(spawner).requests@.len() ==> {
                let e = old(entities).alive@.len() + i;
                let r = #[trigger] old(spawner).requests@[i];
                &&& lookup(final(positions)@, e) == Some(Position { idx: r.idx, level: r.level })
                &&& lookup(final(saveables)@, e) == Some(Saveable {})
                &&& lookup(final(renderables)@, e) == Some(Renderable { fg: r.fg, bg: r.bg, glyph: r.glyph, layer: 3 })
                &&& present(final(names)@, e) && comp(final(names)@, e).name@ == r.name@
                &&& lookup(final(grabbables)@, e) == Some(Grabbable {})
                &&& lookup(final(flammables)@, e) == (if r.flammable { Some(Flammable { turns_remaining: 4 }) } else { lookup(old(flammables)@, e) })
            },
            unchanged_outside(old(positions)@, final(positions)@, old(entities).alive@.len() as int, old(spawner).requests@.len() as int),
            unchanged_outside(old(saveables)@, final(saveables)@, old(entities).alive@.len() as int, old(spawner).requests@.len() as int),
            unchanged_outside(old(renderables)@, final(renderables)@, old(entities).alive@.len() as int, old(spawner).requests@.len() as int),
            unchanged_outside(old(names)@, final(names)@, old(entities).alive@.len() as int, old(spawner).requests@.len() as int),
            unchanged_outside(old(grabbables)@, final(grabbables)@, old(entities).alive@.len() as int, old(spawner).requests@.len() as int),
            unchanged_outside(old(flammables)@, final(flammables)@, old(entities).alive@.len() as int, old(spawner).requests@.len() as int),
            final(spawner).requests@.len() == 0,
    {
        let ghost n0 = entities.alive@.len() as int;
        let ghost reqs = spawner.requests@;
        let k = spawner.requests.len();
        let mut i: usize = 0;
        while i < k
            invariant
                k == reqs.len(),
                spawner.requests@ == reqs,
                i <= k,
                n0 + k < usize::MAX,
                entities.alive@.len() == n0 + i,
                grew_by(old(entities).alive@, entities.alive@, i as int),
                old(entities).alive@.len() == n0,
                forall|j: int| 0 <= j < i ==> {
                    let r = #[trigger] reqs[j];
                    &&& lookup(positions@, n0 + j) == Some(Position { idx: r.idx, level: r.level })
                    &&& lookup(saveables@, n0 + j) == Some(Saveable {})
                    &&& lookup(renderables@, n0 + j) == Some(Renderable { fg: r.fg, bg: r.bg, glyph: r.glyph, layer: 3 })
                    &&& present(names@, n0 + j) && comp(names@, n0 + j).name@ == r.name@
                    &&& lookup(grabbables@, n0 + j) == Some(Grabbable {})
                    &&& lookup(flammables@, n0 + j) == (if r.flammable { Some(Flammable { turns_remaining: 4 }) } else { lookup(old(flammables)@, n0 + j) })
                },
                unchanged_outside(old(positions)@, positions@, n0, i as int),
                unchanged_outside(old(saveables)@, saveables@, n0, i as int),
                unchanged_outside(old(renderables)@, renderables@, n0, i as int),
                unchanged_outside(old(names)@, names@, n0, i as int),
                unchanged_outside(old(grabbables)@, grabbables@, n0, i as int),
                unchanged_outside(old(flammables)@, flammables@, n0, i as int),
            decreases k - i,
        {
            let r = &spawner.requests[i];
            proof { lemma_grow(old(entities).alive@, entities.alive@, i as int); }
            let e = entities.create();
            put(saveables, e, Some(Saveable {}));
            put(names, e, Some(Name { name: r.name.clone() }));
            put(positions, e, Some(Position { idx: r.idx, level: r.level }));
            put(renderables, e, Some(Renderable { fg: r.fg, bg: r.bg, glyph: r.glyph, layer: 3 }));
            put(grabbables, e, Some(Grabbable {}));
            if r.flammable {
                put(flammables, e, Some(Flammable { turns_remaining: 4 }));
            }
            i += 1;
        }
        spawner.requests.clear();
    }
}

/// Creates the corpses asked for.
pub struct CorpseSpawnSystem {}

impl CorpseSpawnSystem {
    /// Request `i` becomes new entity `n0 + i`: a named corpse drawn at layer 2 on the requested
    /// tile, a container holding the requested items, kept by saved games. No request is left.
    pub fn run(
        &mut self,
        entities: &mut Entities,
        saveables: &mut Vec<Option<Saveable>>,
        positions: &mut Vec<Option<Position>>,
        renderables: &mut Vec<Option<Renderable>>,
        names: &mut Vec<Option<Name>>,
        containers: &mut Vec<Option<Container>>,
        spawner: &mut CorpseSpawner,
    )
        requires
            old(entities).alive@.len() + old(spawner).requests@.len() < usize::MAX,
        ensures
            grew_by(old(entities).alive@, final(entities).alive@, old(spawner).requests@.len() as int),
            forall|i: int| 0 <= i < old(spawner).requests@.len() ==> {
                let e = old(entities).alive@.len() + i;
                let r = #[trigger] old(spawner).requests@[i];
                &&& lookup(final(positions)@, e) == Some(Position { idx: r.idx, level: r.level })
                &&& lookup(final(saveables)@, e) == Some(Saveable {})
                &&& lookup(final(renderables)@, e) == Some(Renderable { fg: r.fg, bg: r.bg, glyph: r.glyph, layer: 2 })
                &&& present(final(names)@, e) && comp(final(names)@, e).name@ == r.name@
                &&& present(final(containers)@, e) && comp(final(containers)@, e).items@ == r.items@
            },
            unchanged_outside(old(positions)@, final(positions)@, old(entities).alive@.len() as int, old(spawner).requests@.len() as int),
            unchanged_outside(old(saveables)@, final(saveables)@, old(entities).alive@.len() as int, old(spawner).requests@.len() as int),
            unchanged_outside(old(renderables)@, final(renderables)@, old(entities).alive@.len() as int, old(spawner).requests@.len() as int),
            unchanged_outside(old(names)@, final(names)@, old(entities).alive@.len() as int, old(spawner).requests@.len() as int),
            unchanged_outside(old(containers)@, final(containers)@, old(entities).alive@.len() as int, old(spawner).requests@.len() as int),
            final(spawner).requests@.len() == 0,
    {
        let ghost n0 = entities.alive@.len() as int;
        let ghost reqs = spawner.requests@;
        let k = spawner.requests.len();
        let mut i: usize = 0;
        while i < k
            invariant
                k == reqs.len(),
                spawner.requests@ == reqs,
                i <= k,
                n0 + k < usize::MAX,
                entities.alive@.len() == n0 + i,
                grew_by(old(entities).alive@, entities.alive@, i as int),
                old(entities).alive@.len() == n0,
                forall|j: int| 0 <= j < i ==> {
                    let r = #[trigger] reqs[j];
                    &&& lookup(positions@, n0 + j) == Some(Position { idx: r.idx, level: r.level })
                    &&& lookup(saveables@, n0 + j) == Some(Saveable {})
                    &&& lookup(renderables@, n0 + j) == Some(Renderable { fg: r.fg, bg: r.bg, glyph: r.glyph, layer: 2 })
                    &&& present(names@, n0 + j) && comp(names@, n0 + j).name@ == r.name@
                    &&& present(containers@, n0 + j) && comp(containers@, n0 + j).items@ == r.items@
                },
                unchanged_outside(old(positions)@, positions@, n0, i as int),
                unchanged_outside(old(saveables)@, saveables@, n0, i as int),
                unchanged_outside(old(renderables)@, renderables@, n0, i as int),
                unchanged_outside(old(names)@, names@, n0, i as int),
                unchanged_outside(old(containers)@, containers@, n0, i as int),
            decreases k - i,
        {
            let r = &spawner.requests[i];
            proof { lemma_grow(old(entities).alive@, entities.alive@, i as int); }
            let e = entities.create();
            put(saveables, e, Some(Saveable {}));
            put(names, e, Some(Name { name: r.name.clone() }));
            put(positions, e, Some(Position { idx: r.idx, level: r.level }));
            put(renderables, e, Some(Renderable { fg: r.fg, bg: r.bg, glyph: r.glyph, layer: 2 }));
            put(containers, e, Some(Container { items: copy_entities(&r.items) }));
            i += 1;
        }
        spawner.requests.clear();
    }
}

/// Creates the items asked for.
pub struct ItemSpawnSystem {}

impl ItemSpawnSystem {
    /// Request `i` becomes new entity `n0 + i`: an item of the requested kind on the requested
    /// tile, drawn at layer 2 on black with the kind's glyph and colour, named after the kind,
    /// consumable, with the kind's range if it has one, an unarmed trap if it is one, and kept by
    /// saved games. No request is left.
    pub fn run(
        &mut self,
        entities: &mut Entities,
        saveables: &mut Vec<Option<Saveable>>,
        positions: &mut Vec<Option<Position>>,
        renderables: &mut Vec<Option<Renderable>>,
        names: &mut Vec<Option<Name>>,
        items: &mut Vec<Option<Item>>,
        consumables: &mut Vec<Option<Consumable>>,
        ranged: &mut Vec<Option<Ranged>>,
        traps: &mut Vec<Option<Trap>>,
        spawner: &mut ItemSpawner,
    )
        requires
            old(entities).alive@.len() + old(spawner).requests@.len() < usize::MAX,
        ensures
            grew_by(old(entities).alive@, final(entities).alive@, old(spawner).requests@.len() as int),
            forall|i: int| 0 <= i < old(spawner).requests@.len() ==> {
                let e = old(entities).alive@.len() + i;
                let r = #[trigger] old(spawner).requests@[i];
                &&& lookup(final(positions)@, e) == Some(Position { idx: r.idx, level: r.level })
                &&& lookup(final(saveables)@, e) == Some(Saveable {})
                &&& lookup(final(renderables)@, e) == Some(Renderable {
                    fg: spec_item_fg(r.item_type),
                    bg: Color::Named(NamedColor::Black),
                    glyph: spec_item_char(r.item_type) as u16,
                    layer: 2,
                })
                &&& present(final(names)@, e) && comp(final(names)@, e).name@ == spec_item_name(r.item_type)
                &&& lookup(final(items)@, e) == Some(Item {})
                &&& lookup(final(consumables)@, e) == Some(Consumable {})
                &&& lookup(final(ranged)@, e) == (match spec_item_range(r.item_type) {
                    Some(range) => Some(Ranged { range }),
                    None => lookup(old(ranged)@, e),
                })
                &&& lookup(final(traps)@, e) == (match spec_item_trap(r.item_type) {
                    Some(trap_type) => Some(Trap { trap_type, armed: false }),
                    None => lookup(old(traps)@, e),
                })
            },
            unchanged_outside(old(positions)@, final(positions)@, old(entities).alive@.len() as int, old(spawner).requests@.len() as int),
            unchanged_outside(old(saveables)@, final(saveables)@, old(entities).alive@.len() as int, old(spawner).requests@.len() as int),
            unchanged_outside(old(renderables)@, final(renderables)@, old(entities).alive@.len() as int, old(spawner).requests@.len() as int),
            unchanged_outside(old(names)@, final(names)@, old(entities).alive@.len() as int, old(spawner).requests@.len() as int),
            unchanged_outside(old(items)@, final(items)@, old(entities).alive@.len() as int, old(spawner).requests@.len() as int),
            unchanged_outside(old(consumables)@, final(consumables)@, old(entities).alive@.len() as int, old(spawner).requests@.len() as int),
            unchanged_outside(old(ranged)@, final(ranged)@, old(entities).alive@.len() as int, old(spawner).requests@.len() as int),
            unchanged_outside(old(traps)@, final(traps)@, old(entities).alive@.len() as int, old(spawner).requests@.len() as int),
            final(spawner).requests@.len() == 0,
    {
        let ghost n0 = entities.alive@.len() as int;
        let ghost reqs = spawner.requests@;
        let k = spawner.requests.len();
        let mut i: usize = 0;
        while i < k
            invariant
                k == reqs.len(),
                spawner.requests@ == reqs,
                i <= k,
                n0 + k < usize::MAX,
                entities.alive@.len() == n0 + i,
                grew_by(old(entities).alive@, entities.alive@, i as int),
                old(entities).alive@.len() == n0,
                forall|j: int| 0 <= j < i ==> {
                    let r = #[trigger] reqs[j];
                    &&& lookup(positions@, n0 + j) == Some(Position { idx: r.idx, level: r.level })
                    &&& lookup(saveables@, n0 + j) == Some(Saveable {})
                    &&& lookup(renderables@, n0 + j) == Some(Renderable {
                        fg: spec_item_fg(r.item_type),
                        bg: Color::Named(NamedColor::Black),
                        glyph: spec_item_char(r.item_type) as u16,
                        layer: 2,
                    })
                    &&& present(names@, n0 + j) && comp(names@, n0 + j).name@ == spec_item_name(r.item_type)
                    &&& lookup(items@, n0 + j) == Some(Item {})
                    &&& lookup(consumables@, n0 + j) == Some(Consumable {})
                    &&& lookup(ranged@, n0 + j) == (match spec_item_range(r.item_type) {
                        Some(range) => Some(Ranged { range }),
                        None => lookup(old(ranged)@, n0 + j),
                    })
                    &&& lookup(traps@, n0 + j) == (match spec_item_trap(r.item_type) {
                        Some(trap_type) => Some(Trap { trap_type, armed: false }),
                        None => lookup(old(traps)@, n0 + j),
                    })
                },
                unchanged_outside(old(positions)@, positions@, n0, i as int),
                unchanged_outside(old(saveables)@, saveables@, n0, i as int),
                unchanged_outside(old(renderables)@, renderables@, n0, i as int),
                unchanged_outside(old(names)@, names@, n0, i as int),
                unchanged_outside(old(items)@, items@, n0, i as int),
                unchanged_outside(old(consumables)@, consumables@, n0, i as int),
                unchanged_outside(old(ranged)@, ranged@, n0, i as int),
                unchanged_outside(old(traps)@, traps@, n0, i as int),
            decreases k - i,
        {
            let r = spawner.requests[i];
            proof { lemma_grow(old(entities).alive@, entities.alive@, i as int); }
            let e = entities.create();
            put(saveables, e, Some(Saveable {}));
            put(positions, e, Some(Position { idx: r.idx, level: r.level }));
            put(renderables, e, Some(Renderable {
                fg: get_foreground_color_for_item(r.item_type),
                bg: Color::Named(NamedColor::Black),
                glyph: get_glyph_for_item(r.item_type),
                layer: 2,
            }));
            put(names, e, Some(Name { name: get_name_for_item(r.item_type) }));
            put(items, e, Some(Item {}));
            if item_is_consumable(r.item_type) {
                put(consumables, e, Some(Consumable {}));
            }
            match get_range_for_item(r.item_type) {
                Some(range) => put(ranged, e, Some(Ranged { range })),
                None => {},
            }
            match get_trap_type_for_item(r.item_type) {
                Some(trap_type) => put(traps, e, Some(Trap { trap_type, armed: false })),
                None => {},
            }
            i += 1;
        }
        spawner.requests.clear();
    }
}

} // verus!
