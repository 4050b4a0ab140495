use vstd::prelude::*;
use crate::components::{CausesLight, Dousable, Lightable, Name, WantsToDouse, WantsToLight};
use crate::ecs::{alive, comp, contains, get, get_ref, lookup, present, put, stored, Entities, Entity};
use crate::game_log::GameLog;
use crate::text::join_text;

verus! {

/// The name of entity `e`, or "unknown".
pub open spec fn name_or_unknown(names: Seq<Option<Name>>, e: int) -> Seq<char> {
    if present(names, e) { comp(names, e).name@ } else { "unknown"@ }
}

/// The name of entity `e`, or `fallback` when it has none.
pub fn name_or(names: &Vec<Option<Name>>, e: Entity, fallback: &str) -> (s: String)
    ensures
        s@ == (if present(names@, e as int) { comp(names@, e as int).name@ } else { fallback@ }),
{
    match get_ref(names, e) {
        Some(n) => n.name.clone(),
        None => String::from_str(fallback),
    }
}

/// What lighting and dousing change.
pub struct LightView {
    pub causes_light: Seq<Option<CausesLight>>,
    pub lightables: Seq<Option<Lightable>>,
    pub dousables: Seq<Option<Dousable>>,
    pub log: Seq<Seq<char>>,
}

/// Entity `e`'s request to light `item`: a light source that can be lit becomes lit and can then
/// be doused; the player reads "you light the ...".
pub open spec fn light_step(alive_set: Seq<bool>, wants: Seq<Option<WantsToLight>>, names: Seq<Option<Name>>, player: Entity, v: LightView, e: int) -> LightView {
    if !(alive(alive_set, e) && present(wants, e)) {
        v
    } else {
        let item = comp(wants, e).item as int;
        if present(v.causes_light, item) && present(v.lightables, item) {
            LightView {
                causes_light: stored(v.causes_light, item, Some(CausesLight { lit: true, ..comp(v.causes_light, item) })),
                lightables: stored(v.lightables, item, None),
                dousables: stored(v.dousables, item, Some(Dousable {})),
                log: if e == player { seq!["you light the "@ + name_or_unknown(names, item)] + v.log } else { v.log },
            }
        } else {
            v
        }
    }
}

/// The light requests of entities `0..k`, in entity order.
pub open spec fn light_fold(alive_set: Seq<bool>, wants: Seq<Option<WantsToLight>>, names: Seq<Option<Name>>, player: Entity, v: LightView, k: int) -> LightView
    decreases k,
{
    if k <= 0 { v } else { light_step(alive_set, wants, names, player, light_fold(alive_set, wants, names, player, v, k - 1), k - 1) }
}

/// Entity `e`'s request to douse `item`: a lit source that can be doused goes out and can then
/// be lit again; the player reads "you douse the ...".
pub open spec fn douse_step(alive_set: Seq<bool>, wants: Seq<Option<WantsToDouse>>, names: Seq<Option<Name>>, player: Entity, v: LightView, e: int) -> LightView {
    if !(alive(alive_set, e) && present(wants, e)) {
        v
    } else {
        let item = comp(wants, e).item as int;
        if present(v.causes_light, item) && present(v.dousables, item) {
            LightView {
                causes_light: stored(v.causes_light, item, Some(CausesLight { lit: false, ..comp(v.causes_light, item) })),
                dousables: stored(v.dousables, item, None),
                lightables: stored(v.lightables, item, Some(Lightable {})),
                log: if e == player { seq!["you douse the "@ + name_or_unknown(names, item)] + v.log } else { v.log },
            }
        } else {
            v
        }
    }
}

/// The douse requests of entities `0..k`, in entity order.
pub open spec fn douse_fold(alive_set: Seq<bool>, wants: Seq<Option<WantsToDouse>>, names: Seq<Option<Name>>, player: Entity, v: LightView, k: int) -> LightView
    decreases k,
{
    if k <= 0 { v } else { douse_step(alive_set, wants, names, player, douse_fold(alive_set, wants, names, player, v, k - 1), k - 1) }
}

/// Whether every light request among `0..k` that lights something names an existing item, as
/// the item is then given a component.
pub open spec fn light_fold_ok(alive_set: Seq<bool>, wants: Seq<Option<WantsToLight>>, names: Seq<Option<Name>>, player: Entity, v: LightView, k: int) -> bool
    decreases k,
{
    if k <= 0 {
        true
    } else {
        let w = light_fold(alive_set, wants, names, player, v, k - 1);
        let item = comp(wants, k - 1).item as int;
        &&& light_fold_ok(alive_set, wants, names, player, v, k - 1)
        &&& (alive(alive_set, k - 1) && present(wants, k - 1) && present(w.causes_light, item) && present(w.lightables, item)
            ==> alive(alive_set, item))
    }
}

/// Whether every douse request among `0..k` that puts something out names an existing item.
pub open spec fn douse_fold_ok(alive_set: Seq<bool>, wants: Seq<Option<WantsToDouse>>, names: Seq<Option<Name>>, player: Entity, v: LightView, k: int) -> bool
    decreases k,
{
    if k <= 0 {
        true
    } else {
        let w = douse_fold(alive_set, wants, names, player, v, k - 1);
        let item = comp(wants, k - 1).item as int;
        &&& douse_fold_ok(alive_set, wants, names, player, v, k - 1)
        &&& (alive(alive_set, k - 1) && present(wants, k - 1) && present(w.causes_light, item) && present(w.dousables, item)
            ==> alive(alive_set, item))
    }
}

/// Lights the light sources entities asked to light.
pub struct LightItemSystem {}

impl LightItemSystem {
    /// The requests are `light_fold` over all entities in order; afterwards none is left.
    pub fn run(
        &mut self,
        entities: &Entities,
        player_entity: Entity,
        game_log: &mut GameLog,
        wants_to_light: &mut Vec<Option<WantsToLight>>,
        names: &Vec<Option<Name>>,
        causes_light: &mut Vec<Option<CausesLight>>,
        dousables: &mut Vec<Option<Dousable>>,
        lightables: &mut Vec<Option<Lightable>>,
    )
        requires
            light_fold_ok(entities.alive@, old(wants_to_light)@, names@, player_entity,
                LightView { causes_light: old(causes_light)@, lightables: old(lightables)@, dousables: old(dousables)@, log: old(game_log).entries.deep_view() },
                entities.alive@.len() as int),
        ensures
            (LightView { causes_light: final(causes_light)@, lightables: final(lightables)@, dousables: final(dousables)@, log: final(game_log).entries.deep_view() })
                == light_fold(entities.alive@, old(wants_to_light)@, names@, player_entity,
                    LightView { causes_light: old(causes_light)@, lightables: old(lightables)@, dousables: old(dousables)@, log: old(game_log).entries.deep_view() },
                    entities.alive@.len() as int),
            forall|e: int| !present(final(wants_to_light)@, e),
    {
        let ghost wants0 = wants_to_light@;
        let ghost v0 = LightView { causes_light: causes_light@, lightables: lightables@, dousables: dousables@, log: game_log.entries.deep_view() };
        let n = entities.alive.len();
        let mut e: usize = 0;
        while e < n
            invariant
                n == entities.alive@.len(),
                e <= n,
                wants_to_light@ == wants0,
                (LightView { causes_light: causes_light@, lightables: lightables@, dousables: dousables@, log: game_log.entries.deep_view() })
                    == light_fold(entities.alive@, wants0, names@, player_entity, v0, e as int),
            decreases n - e,
        {
            if entities.is_alive(e) && contains(wants_to_light, e) {
                let item = get(wants_to_light, e).unwrap().item;
                match get(causes_light, item) {
                    Some(light) => {
                        if contains(lightables, item) {
                            put(causes_light, item, Some(CausesLight { lit: true, ..light }));
                            put(lightables, item, None);
                            put(dousables, item, Some(Dousable {}));
                            if e == player_entity {
                                let item_name = name_or(names, item, "unknown");
                                game_log.add(join_text("you light the ", item_name.as_str()));
                            }
                        }
                    },
                    None => {},
                }
            }
            e += 1;
        }
        crate::ecs::clear(wants_to_light);
    }
}

/// Puts out the light sources entities asked to douse.
pub struct DouseItemSystem {}

impl DouseItemSystem {
    /// The requests are `douse_fold` over all entities in order; afterwards none is left.
    pub fn run(
        &mut self,
        entities: &Entities,
        player_entity: Entity,
        game_log: &mut GameLog,
        wants_to_douse: &mut Vec<Option<WantsToDouse>>,
        names: &Vec<Option<Name>>,
        causes_light: &mut Vec<Option<CausesLight>>,
        dousables: &mut Vec<Option<Dousable>>,
        lightables: &mut Vec<Option<Lightable>>,
    )
        requires
            douse_fold_ok(entities.alive@, old(wants_to_douse)@, names@, player_entity,
                LightView { causes_light: old(causes_light)@, lightables: old(lightables)@, dousables: old(dousables)@, log: old(game_log).entries.deep_view() },
                entities.alive@.len() as int),
        ensures
            (LightView { causes_light: final(causes_light)@, lightables: final(lightables)@, dousables: final(dousables)@, log: final(game_log).entries.deep_view() })
                == douse_fold(entities.alive@, old(wants_to_douse)@, names@, player_entity,
                    LightView { causes_light: old(causes_light)@, lightables: old(lightables)@, dousables: old(dousables)@, log: old(game_log).entries.deep_view() },
                    entities.alive@.len() as int),
            forall|e: int| !present(final(wants_to_douse)@, e),
    {
        let ghost wants0 = wants_to_douse@;
        let ghost v0 = LightView { causes_light: causes_light@, lightables: lightables@, dousables: dousables@, log: game_log.entries.deep_view() };
        let n = entities.alive.len();
        let mut e: usize = 0;
        while e < n
            invariant
                n == entities.alive@.len(),
                e <= n,
                wants_to_douse@ == wants0,
                (LightView { causes_light: causes_light@, lightables: lightables@, dousables: dousables@, log: game_log.entries.deep_view() })
                    == douse_fold(entities.alive@, wants0, names@, player_entity, v0, e as int),
            decreases n - e,
        {
            if entities.is_alive(e) && contains(wants_to_douse, e) {
                let item = get(wants_to_douse, e).unwrap().item;
                match get(causes_light, item) {
                    Some(light) => {
                        if contains(dousables, item) {
                            put(causes_light, item, Some(CausesLight { lit: false, ..light }));
                            put(dousables, item, None);
                            put(lightables, item, Some(Lightable {}));
                            if e == player_entity {
                                let item_name = name_or(names, item, "unknown");
                                game_log.add(join_text("you douse the ", item_name.as_str()));
                            }
                        }
                    },
                    None => {},
                }
            }
            e += 1;
        }
        crate::ecs::clear(wants_to_douse);
    }
}

} // verus!
