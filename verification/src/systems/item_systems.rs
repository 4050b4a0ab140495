use vstd::prelude::*;
use crate::components::{Container, InBackpack, Inventory, Name, Position, WantsToDropItem, WantsToPickUpItem};
use crate::damage::{contains_entity, copy_entities};
use crate::ecs::{alive, comp, contains, get, get_ref, lookup, present, put, stored, Entities, Entity};
use crate::game_log::GameLog;
use crate::text::join_text;

verus! {

/// `s` without any occurrence of `x`.
pub open spec fn without(s: Seq<Entity>, x: Entity) -> Seq<Entity>
    decreases s.len(),
{
    if s.len() == 0 {
        s
    } else if s.last() == x {
        without(s.drop_last(), x)
    } else {
        without(s.drop_last(), x).push(s.last())
    }
}

/// `s` with `x` added unless already there.
pub open spec fn with(s: Seq<Entity>, x: Entity) -> Seq<Entity> {
    if s.contains(x) { s } else { s.push(x) }
}

fn without_exec(v: &Vec<Entity>, x: Entity) -> (r: Vec<Entity>)
    ensures
        r@ == without(v@, x),
{
    let mut r: Vec<Entity> = Vec::new();
    let mut i: usize = 0;
    while i < v.len()
        invariant
            i <= v@.len(),
            r@ == without(v@.subrange(0, i as int), x),
        decreases v@.len() - i,
    {
        assert(v@.subrange(0, i + 1).drop_last() =~= v@.subrange(0, i as int));
        if v[i] != x {
            r.push(v[i]);
        }
        i += 1;
    }
    assert(v@.subrange(0, v@.len() as int) =~= v@);
    r
}

/// The item lists of the containers.
pub open spec fn container_items(s: Seq<Option<Container>>) -> Seq<Option<Seq<Entity>>> {
    Seq::new(s.len(), |i: int| match s[i] { Some(c) => Some(c.items@), None => None })
}

/// The item lists of the inventories.
pub open spec fn inventory_items(s: Seq<Option<Inventory>>) -> Seq<Option<Seq<Entity>>> {
    Seq::new(s.len(), |i: int| match s[i] { Some(c) => Some(c.items@), None => None })
}

/// What picking up changes.
pub struct PickupView {
    pub positions: Seq<Option<Position>>,
    pub containers: Seq<Option<Seq<Entity>>>,
    pub inventories: Seq<Option<Seq<Entity>>>,
    pub log: Seq<Seq<char>>,
}

/// Entity `e` picks up `item`: the item leaves the map and the container it came from, joins
/// `e`'s inventory, and the player reads "you pick up the ...".
pub open spec fn pick_one(names: Seq<Option<Name>>, player: Entity, v: PickupView, e: int, container: Option<Entity>, item: Entity) -> PickupView {
    let c = container.unwrap_or(0) as int;
    PickupView {
        positions: stored(v.positions, item as int, None),
        containers: if container is Some && 0 <= c < v.containers.len() && v.containers[c] is Some {
            v.containers.update(c, Some(without(v.containers[c]->0, item)))
        } else {
            v.containers
        },
        inventories: v.inventories.update(e, Some(with(v.inventories[e]->0, item))),
        log: if e == player { seq!["you pick up the "@ + comp(names, item as int).name@] + v.log } else { v.log },
    }
}

/// Entity `e` picks up the first `k` of `items`, in order.
pub open spec fn pick_items(names: Seq<Option<Name>>, player: Entity, v: PickupView, e: int, container: Option<Entity>, items: Seq<Entity>, k: int) -> PickupView
    decreases k,
{
    if k <= 0 { v } else { pick_one(names, player, pick_items(names, player, v, e, container, items, k - 1), e, container, items[k - 1]) }
}

/// The pick-up requests of entities `0..k` that exist and carry an inventory, in entity order.
pub open spec fn pickup_fold(alive_set: Seq<bool>, wants: Seq<Option<WantsToPickUpItem>>, names: Seq<Option<Name>>, player: Entity, v: PickupView, k: int) -> PickupView
    decreases k,
{
    if k <= 0 {
        v
    } else {
        let w = pickup_fold(alive_set, wants, names, player, v, k - 1);
        let e = k - 1;
        if alive(alive_set, e) && present(wants, e) && 0 <= e < w.inventories.len() && w.inventories[e] is Some {
            let req = comp(wants, e);
            pick_items(names, player, w, e, req.container, req.items@, req.items@.len() as int)
        } else {
            w
        }
    }
}

/// Moves items into inventories.
pub struct ItemCollectionSystem {}

impl ItemCollectionSystem {
    /// The requests are `pickup_fold` over all entities in order; afterwards none is left. The
    /// player's requests need a name for every item.
    pub fn run(
        &mut self,
        entities: &Entities,
        player_entity: Entity,
        game_log: &mut GameLog,
        wants_to_pick_up: &mut Vec<Option<WantsToPickUpItem>>,
        positions: &mut Vec<Option<Position>>,
        names: &Vec<Option<Name>>,
        containers: &mut Vec<Option<Container>>,
        inventories: &mut Vec<Option<Inventory>>,
    )
        requires
            alive(entities.alive@, player_entity as int) && present(old(wants_to_pick_up)@, player_entity as int) ==>
                forall|j: int| 0 <= j < comp(old(wants_to_pick_up)@, player_entity as int).items@.len() ==>
                    present(names@, #[trigger] comp(old(wants_to_pick_up)@, player_entity as int).items@[j] as int),
        ensures
            (PickupView {
                positions: final(positions)@,
                containers: container_items(final(containers)@),
                inventories: inventory_items(final(inventories)@),
                log: final(game_log).entries.deep_view(),
            }) == pickup_fold(entities.alive@, old(wants_to_pick_up)@, names@, player_entity,
                PickupView {
                    positions: old(positions)@,
                    containers: container_items(old(containers)@),
                    inventories: inventory_items(old(inventories)@),
                    log: old(game_log).entries.deep_view(),
                }, entities.alive@.len() as int),
            forall|e: int| !present(final(wants_to_pick_up)@, e),
    {
        let ghost wants0 = wants_to_pick_up@;
        let ghost v0 = PickupView {
            positions: positions@,
            containers: container_items(containers@),
            inventories: inventory_items(inventories@),
            log: game_log.entries.deep_view(),
        };
        let n = entities.alive.len();
        let mut e: usize = 0;
        while e < n
            invariant
                n == entities.alive@.len(),
                e <= n,
                wants_to_pick_up@ == wants0,
                alive(entities.alive@, player_entity as int) && present(wants0, player_entity as int) ==>
                    forall|j: int| 0 <= j < comp(wants0, player_entity as int).items@.len() ==>
                        present(names@, #[trigger] comp(wants0, player_entity as int).items@[j] as int),
                (PickupView {
                    positions: positions@,
                    containers: container_items(containers@),
                    inventories: inventory_items(inventories@),
                    log: game_log.entries.deep_view(),
                }) == pickup_fold(entities.alive@, wants0, names@, player_entity, v0, e as int),
            decreases n - e,
        {
            if entities.is_alive(e) && contains(wants_to_pick_up, e) && contains(inventories, e) {
                let pick_up = get_ref(wants_to_pick_up, e).unwrap();
                let ghost w = pickup_fold(entities.alive@, wants0, names@, player_entity, v0, e as int);
                let mut j: usize = 0;
                while j < pick_up.items.len()
                    invariant
                        j <= pick_up.items@.len(),
                        e < n,
                        *pick_up == comp(wants0, e as int),
                        present(wants0, e as int),
                        e < inventories@.len() && inventories@[e as int] is Some,
                        alive(entities.alive@, e as int),
                        alive(entities.alive@, player_entity as int) && present(wants0, player_entity as int) ==>
                            forall|k: int| 0 <= k < comp(wants0, player_entity as int).items@.len() ==>
                                present(names@, #[trigger] comp(wants0, player_entity as int).items@[k] as int),
                        (PickupView {
                            positions: positions@,
                            containers: container_items(containers@),
                            inventories: inventory_items(inventories@),
                            log: game_log.entries.deep_view(),
                        }) == pick_items(names@, player_entity, w, e as int, pick_up.container, pick_up.items@, j as int),
                    decreases pick_up.items@.len() - j,
                {
                    let item = pick_up.items[j];
                    put(positions, item, None);
                    match pick_up.container {
                        Some(c) => {
                            match get_ref(containers, c) {
                                Some(container) => {
                                    let remaining = without_exec(&container.items, item);
                                    containers.set(c, Some(Container { items: remaining }));
                                },
                                None => {},
                            }
                        },
                        None => {},
                    }
                    let current = copy_entities(&get_ref(inventories, e).unwrap().items);
                    let mut updated = current;
                    if !contains_entity(&updated, item) {
                        updated.push(item);
                    }
                    inventories.set(e, Some(Inventory { items: updated }));
                    if e == player_entity {
                        assert(present(names@, comp(wants0, player_entity as int).items@[j as int] as int));
                        let name = &get_ref(names, item).unwrap().name;
                        game_log.add(join_text("you pick up the ", name.as_str()));
                    }
                    proof {
                        assert(container_items(containers@) =~= pick_one(names@, player_entity,
                            pick_items(names@, player_entity, w, e as int, pick_up.container, pick_up.items@, j as int),
                            e as int, pick_up.container, item).containers);
                        assert(inventory_items(inventories@) =~= pick_one(names@, player_entity,
                            pick_items(names@, player_entity, w, e as int, pick_up.container, pick_up.items@, j as int),
                            e as int, pick_up.container, item).inventories);
                    }
                    j += 1;
                }
            }
            e += 1;
        }
        crate::ecs::clear(wants_to_pick_up);
    }
}

/// What dropping changes.
pub struct DropView {
    pub positions: Seq<Option<Position>>,
    pub backpacks: Seq<Option<InBackpack>>,
    pub log: Seq<Seq<char>>,
}

/// Entity `e` drops the item it asked to: the item lands on `e`'s tile and leaves the backpack;
/// the player reads "You drop the ...".
pub open spec fn drop_step(alive_set: Seq<bool>, wants: Seq<Option<WantsToDropItem>>, names: Seq<Option<Name>>, player: Entity, v: DropView, e: int) -> DropView {
    if !(alive(alive_set, e) && present(wants, e)) {
        v
    } else {
        let item = comp(wants, e).item as int;
        let pos = comp(v.positions, e);
        DropView {
            positions: stored(v.positions, item, Some(Position { idx: pos.idx, level: pos.level })),
            backpacks: stored(v.backpacks, item, None),
            log: if e == player { seq!["You drop the "@ + comp(names, item).name@ + "."@] + v.log } else { v.log },
        }
    }
}

/// The drop requests of entities `0..k`, in entity order.
pub open spec fn drop_fold(alive_set: Seq<bool>, wants: Seq<Option<WantsToDropItem>>, names: Seq<Option<Name>>, player: Entity, v: DropView, k: int) -> DropView
    decreases k,
{
    if k <= 0 { v } else { drop_step(alive_set, wants, names, player, drop_fold(alive_set, wants, names, player, v, k - 1), k - 1) }
}

/// Whether every drop among `0..k` can be carried out when its turn comes: the dropper has a
/// position, the item exists and is in a backpack, and the player's item has a name.
pub open spec fn drop_fold_ok(alive_set: Seq<bool>, wants: Seq<Option<WantsToDropItem>>, names: Seq<Option<Name>>, player: Entity, v: DropView, k: int) -> bool
    decreases k,
{
    if k <= 0 {
        true
    } else {
        let w = drop_fold(alive_set, wants, names, player, v, k - 1);
        let e = k - 1;
        let item = comp(wants, e).item as int;
        &&& drop_fold_ok(alive_set, wants, names, player, v, k - 1)
        &&& (alive(alive_set, e) && present(wants, e) ==> {
            &&& present(w.positions, e)
            &&& alive(alive_set, item)
            &&& present(w.backpacks, item)
            &&& (e == player ==> present(names, item))
        })
    }
}

proof fn lemma_drop_ok_prefix(alive_set: Seq<bool>, wants: Seq<Option<WantsToDropItem>>, names: Seq<Option<Name>>, player: Entity, v: DropView, j: int, k: int)
    requires
        0 <= j <= k,
        drop_fold_ok(alive_set, wants, names, player, v, k),
    ensures
        drop_fold_ok(alive_set, wants, names, player, v, j),
    decreases k - j,
{
    if j < k {
        lemma_drop_ok_prefix(alive_set, wants, names, player, v, j + 1, k);
    }
}

/// Moves items from backpacks to the floor.
pub struct ItemDropSystem {}

impl ItemDropSystem {
    /// The requests are `drop_fold` over all entities in order; afterwards none is left.
    pub fn run(
        &mut self,
        entities: &Entities,
        player_entity: Entity,
        game_log: &mut GameLog,
        wants_to_drop: &mut Vec<Option<WantsToDropItem>>,
        names: &Vec<Option<Name>>,
        positions: &mut Vec<Option<Position>>,
        backpacks: &mut Vec<Option<InBackpack>>,
    )
        requires
            drop_fold_ok(entities.alive@, old(wants_to_drop)@, names@, player_entity,
                DropView { positions: old(positions)@, backpacks: old(backpacks)@, log: old(game_log).entries.deep_view() },
                entities.alive@.len() as int),
        ensures
            (DropView { positions: final(positions)@, backpacks: final(backpacks)@, log: final(game_log).entries.deep_view() })
                == drop_fold(entities.alive@, old(wants_to_drop)@, names@, player_entity,
                    DropView { positions: old(positions)@, backpacks: old(backpacks)@, log: old(game_log).entries.deep_view() },
                    entities.alive@.len() as int),
            forall|e: int| !present(final(wants_to_drop)@, e),
    {
        let ghost wants0 = wants_to_drop@;
        let ghost v0 = DropView { positions: positions@, backpacks: backpacks@, log: game_log.entries.deep_view() };
        let n = entities.alive.len();
        let mut e: usize = 0;
        while e < n
            invariant
                n == entities.alive@.len(),
                e <= n,
                wants_to_drop@ == wants0,
                drop_fold_ok(entities.alive@, wants0, names@, player_entity, v0, n as int),
                (DropView { positions: positions@, backpacks: backpacks@, log: game_log.entries.deep_view() })
                    == drop_fold(entities.alive@, wants0, names@, player_entity, v0, e as int),
            decreases n - e,
        {
            proof { lemma_drop_ok_prefix(entities.alive@, wants0, names@, player_entity, v0, e + 1, n as int); }
            if entities.is_alive(e) && contains(wants_to_drop, e) {
                let item = get(wants_to_drop, e).unwrap().item;
                let pos = get(positions, e).unwrap();
                put(positions, item, Some(Position { idx: pos.idx, level: pos.level }));
                put(backpacks, item, None);
                if e == player_entity {
                    let mut text = join_text("You drop the ", get_ref(names, item).unwrap().name.as_str());
                    text.append(".");
                    game_log.add(text);
                }
            }
            e += 1;
        }
        crate::ecs::clear(wants_to_drop);
    }
}

} // verus!
