use vstd::prelude::*;
use crate::components::{BlocksTile, Position};
use crate::dungeon::{placeholder_level, Dungeon};
use crate::ecs::{alive, comp, contains, get, present, Entities, Entity};
use crate::level::{Level, TileType};
use crate::systems::door_systems::all_levels_wf;

verus! {

/// Whether a tile of this kind blocks movement by itself: walls and closed doors do.
pub open spec fn tile_blocks(t: TileType) -> bool {
    t == TileType::Wall || t == TileType::Door
}

/// Whether existing entity `e` stands on tile `t` of level `l`.
pub open spec fn stands_at(alive_set: Seq<bool>, positions: Seq<Option<Position>>, l: int, t: int, e: int) -> bool {
    &&& alive(alive_set, e)
    &&& present(positions, e)
    &&& comp(positions, e).level == l
    &&& comp(positions, e).idx == t
}

/// The existing entities among `0..k` that stand on tile `t` of level `l`, in entity order.
pub open spec fn entities_at(alive_set: Seq<bool>, positions: Seq<Option<Position>>, l: int, t: int, k: int) -> Seq<Entity>
    decreases k,
{
    if k <= 0 {
        Seq::empty()
    } else {
        let prev = entities_at(alive_set, positions, l, t, k - 1);
        if stands_at(alive_set, positions, l, t, k - 1) { prev.push((k - 1) as Entity) } else { prev }
    }
}

/// Whether one of the existing entities among `0..k` blocks tile `t` of level `l`.
pub open spec fn blocker_at(
    alive_set: Seq<bool>,
    positions: Seq<Option<Position>>,
    blockers: Seq<Option<BlocksTile>>,
    l: int,
    t: int,
    k: int,
) -> bool
    decreases k,
{
    if k <= 0 {
        false
    } else {
        blocker_at(alive_set, positions, blockers, l, t, k - 1) || (stands_at(alive_set, positions, l, t, k - 1) && present(blockers, k - 1))
    }
}

/// Whether level `b` is level `a` re-indexed: a tile is blocked when its kind blocks or a blocker
/// stands on it, and each tile lists the entities on it in entity order.
pub open spec fn indexed(
    a: Level,
    b: Level,
    alive_set: Seq<bool>,
    positions: Seq<Option<Position>>,
    blockers: Seq<Option<BlocksTile>>,
    l: int,
) -> bool {
    &&& b.width == a.width
    &&& b.height == a.height
    &&& b.depth == a.depth
    &&& b.tiles@ == a.tiles@
    &&& b.revealed_tiles@ == a.revealed_tiles@
    &&& b.visible_tiles@ == a.visible_tiles@
    &&& b.opaque@ == a.opaque@
    &&& b.lit_tiles@ == a.lit_tiles@
    &&& b.stairs_up == a.stairs_up
    &&& b.stairs_down == a.stairs_down
    &&& b.exit == a.exit
    &&& b.blocked@.len() == a.blocked@.len()
    &&& b.tile_content@.len() == a.tile_content@.len()
    &&& forall|t: int| 0 <= t < a.blocked@.len() ==> #[trigger] b.blocked@[t]
        == (tile_blocks(a.tiles@[t]) || blocker_at(alive_set, positions, blockers, l, t, alive_set.len() as int))
    &&& forall|t: int| 0 <= t < a.tile_content@.len() ==> #[trigger] b.tile_content@[t]@
        == entities_at(alive_set, positions, l, t, alive_set.len() as int)
}

/// Rebuilds the blocked table and the per-tile entity lists of the player's level.
pub struct MapIndexingSystem {}

impl MapIndexingSystem {
    /// The player's level is `indexed` afresh; every other level is left as it was.
    pub fn run(
        &mut self,
        dungeon: &mut Dungeon,
        player_entity: Entity,
        positions: &Vec<Option<Position>>,
        blockers: &Vec<Option<BlocksTile>>,
        entities: &Entities,
    )
        requires
            all_levels_wf(old(dungeon).levels@),
            present(positions@, player_entity as int),
            (comp(positions@, player_entity as int).level as int) < old(dungeon).levels@.len(),
            forall|e: int| alive(entities.alive@, e) && #[trigger] present(positions@, e)
                && comp(positions@, e).level == comp(positions@, player_entity as int).level
                ==> comp(positions@, e).idx < old(dungeon).levels@[comp(positions@, player_entity as int).level as int].tiles@.len(),
        ensures
            ({
                let l = comp(positions@, player_entity as int).level as int;
                &&& final(dungeon).levels@.len() == old(dungeon).levels@.len()
                &&& forall|j: int| 0 <= j < old(dungeon).levels@.len() && j != l ==> #[trigger] final(dungeon).levels@[j] == old(dungeon).levels@[j]
                &&& indexed(old(dungeon).levels@[l], final(dungeon).levels@[l], entities.alive@, positions@, blockers@, l)
                &&& all_levels_wf(final(dungeon).levels@)
            }),
    {
        let ghost lv0 = dungeon.levels@;
        let pl = get(positions, player_entity).unwrap().level;
        let l = pl as usize;
        let mut lv = placeholder_level();
        dungeon.levels.set_and_swap(l, &mut lv);
        let ghost a = lv;
        assert(a.wf());
        let count = lv.tiles.len();
        let mut t: usize = 0;
        while t < count
            invariant
                t <= count,
                count == a.tiles@.len(),
                a.wf(),
                lv.tiles@ == a.tiles@,
                lv.blocked@.len() == count,
                lv.tile_content@.len() == count,
                lv.width == a.width && lv.height == a.height && lv.depth == a.depth,
                lv.revealed_tiles@ == a.revealed_tiles@ && lv.visible_tiles@ == a.visible_tiles@,
                lv.opaque@ == a.opaque@ && lv.lit_tiles@ == a.lit_tiles@,
                lv.stairs_up == a.stairs_up && lv.stairs_down == a.stairs_down && lv.exit == a.exit,
                forall|i: int| 0 <= i < t ==> #[trigger] lv.blocked@[i] == tile_blocks(a.tiles@[i]),
                forall|i: int| 0 <= i < t ==> #[trigger] lv.tile_content@[i]@ == Seq::<Entity>::empty(),
            decreases count - t,
        {
            let blocks = lv.tiles[t] == TileType::Wall || lv.tiles[t] == TileType::Door;
            lv.blocked.set(t, blocks);
            lv.tile_content.set(t, Vec::new());
            t += 1;
        }
        let n = entities.alive.len();
        let mut e: usize = 0;
        while e < n
            invariant
                e <= n,
                n == entities.alive@.len(),
                count == a.tiles@.len(),
                a.wf(),
                pl as int == l,
                lv.tiles@ == a.tiles@,
                lv.blocked@.len() == count,
                lv.tile_content@.len() == count,
                lv.width == a.width && lv.height == a.height && lv.depth == a.depth,
                lv.revealed_tiles@ == a.revealed_tiles@ && lv.visible_tiles@ == a.visible_tiles@,
                lv.opaque@ == a.opaque@ && lv.lit_tiles@ == a.lit_tiles@,
                lv.stairs_up == a.stairs_up && lv.stairs_down == a.stairs_down && lv.exit == a.exit,
                forall|i: int| alive(entities.alive@, i) && #[trigger] present(positions@, i) && comp(positions@, i).level == pl
                    ==> comp(positions@, i).idx < count,
                forall|i: int| 0 <= i < count ==> #[trigger] lv.blocked@[i]
                    == (tile_blocks(a.tiles@[i]) || blocker_at(entities.alive@, positions@, blockers@, l as int, i, e as int)),
                forall|i: int| 0 <= i < count ==> #[trigger] lv.tile_content@[i]@
                    == entities_at(entities.alive@, positions@, l as int, i, e as int),
            decreases n - e,
        {
            let ghost blocked_before = lv.blocked@;
            let ghost content_before = lv.tile_content@;
            if entities.is_alive(e) {
                match get(positions, e) {
                    Some(p) => {
                        if p.level == pl {
                            assert(present(positions@, e as int));
                            let idx = p.idx;
                            if contains(blockers, e) {
                                lv.blocked.set(idx, true);
                            }
                            let mut here: Vec<Entity> = Vec::new();
                            lv.tile_content.set_and_swap(idx, &mut here);
                            here.push(e);
                            lv.tile_content.set_and_swap(idx, &mut here);
                            proof {
                                assert forall|i: int| 0 <= i < count implies #[trigger] lv.blocked@[i]
                                    == (tile_blocks(a.tiles@[i]) || blocker_at(entities.alive@, positions@, blockers@, l as int, i, e + 1)) by {
                                    assert(blocked_before[i] == (tile_blocks(a.tiles@[i]) || blocker_at(entities.alive@, positions@, blockers@, l as int, i, e as int)));
                                }
                                assert forall|i: int| 0 <= i < count implies #[trigger] lv.tile_content@[i]@
                                    == entities_at(entities.alive@, positions@, l as int, i, e + 1) by {
                                    assert(content_before[i]@ == entities_at(entities.alive@, positions@, l as int, i, e as int));
                                }
                            }
                        }
                    },
                    None => {},
                }
            }
            proof {
                assert forall|i: int| 0 <= i < count implies #[trigger] lv.blocked@[i]
                    == (tile_blocks(a.tiles@[i]) || blocker_at(entities.alive@, positions@, blockers@, l as int, i, e + 1)) by {}
                assert forall|i: int| 0 <= i < count implies #[trigger] lv.tile_content@[i]@
                    == entities_at(entities.alive@, positions@, l as int, i, e + 1) by {}
            }
            e += 1;
        }
        dungeon.levels.set_and_swap(l, &mut lv);
        proof {
            let b = dungeon.levels@[l as int];
            assert(indexed(a, b, entities.alive@, positions@, blockers@, l as int));
            assert forall|j: int| 0 <= j < dungeon.levels@.len() implies #[trigger] dungeon.levels@[j].wf() by {
                if j != l {
                    assert(dungeon.levels@[j] == lv0[j]);
                }
            }
        }
    }
}

} // verus!
