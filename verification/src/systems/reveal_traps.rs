use vstd::prelude::*;
use crate::components::{Hidden, Name, Position, Viewshed};
use crate::damage::contains_entity;
use crate::dungeon::Dungeon;
use crate::ecs::{comp, get, get_ref, lookup, present, Entity};
use crate::game_log::GameLog;
use crate::interaction::InteractionType;
use crate::rng::rng_roll_dice;
use crate::systems::door_systems::all_levels_wf;
use crate::text::wrap_text;

verus! {

/// The hidden entities' finder lists, read as plain values.
pub open spec fn hidden_view(h: Seq<Option<Hidden>>) -> Seq<Option<Seq<Entity>>> {
    Seq::new(h.len(), |i: int| match h[i] {
        Some(x) => Some(x.found_by@),
        None => None,
    })
}

/// What searching changes.
pub struct RevealView {
    pub found: Seq<Option<Seq<Entity>>>,
    pub queued_action: Option<(Entity, InteractionType)>,
    pub log: Seq<Seq<char>>,
}

/// The entities listed on the visible tiles `visible[0..k]`, tile by tile, each tile's list
/// in its order.
pub open spec fn candidates(content: Seq<Seq<Entity>>, visible: Seq<usize>, k: int) -> Seq<Entity>
    decreases k,
{
    if k <= 0 { Seq::empty() } else { candidates(content, visible, k - 1) + content[visible[k - 1] as int] }
}

/// The player looks at entity `c` with the 24-sided die showing `roll`: a hidden entity is
/// spotted on a one. Spotting cancels the queued action, and the first time the player spots
/// it the player is added to its finders and reads "You spotted a ...".
pub open spec fn reveal_step(names: Seq<Option<Name>>, player: Entity, v: RevealView, c: int, roll: i32) -> RevealView {
    if 0 <= c < v.found.len() && v.found[c] is Some && roll == 1 {
        let finders = v.found[c]->0;
        if finders.contains(player) {
            RevealView { queued_action: None, ..v }
        } else {
            RevealView {
                found: v.found.update(c, Some(finders.push(player))),
                queued_action: None,
                log: if present(names, c) { seq!["You spotted a "@ + comp(names, c).name@ + "."@] + v.log } else { v.log },
            }
        }
    } else {
        v
    }
}

/// The looks at `cands[0..k]` in order, look `i` rolling `rolls[i]`.
pub open spec fn reveal_fold(names: Seq<Option<Name>>, player: Entity, v: RevealView, cands: Seq<Entity>, rolls: Seq<i32>, k: int) -> RevealView
    decreases k,
{
    if k <= 0 { v } else { reveal_step(names, player, reveal_fold(names, player, v, cands, rolls, k - 1), cands[k - 1] as int, rolls[k - 1]) }
}

proof fn lemma_reveal_prefix(names: Seq<Option<Name>>, player: Entity, v: RevealView, c1: Seq<Entity>, r1: Seq<i32>, c2: Seq<Entity>, r2: Seq<i32>, k: int)
    requires
        0 <= k <= c1.len(),
        k <= c2.len(),
        k <= r1.len(),
        k <= r2.len(),
        forall|i: int| 0 <= i < k ==> c1[i] == c2[i] && r1[i] == r2[i],
    ensures
        reveal_fold(names, player, v, c1, r1, k) == reveal_fold(names, player, v, c2, r2, k),
    decreases k,
{
    if k > 0 {
        lemma_reveal_prefix(names, player, v, c1, r1, c2, r2, k - 1);
    }
}

/// The player's viewshed.
pub open spec fn player_view(viewsheds: Seq<Option<Viewshed>>, player: Entity) -> Seq<usize> {
    comp(viewsheds, player as int).visible_tiles@
}

/// The entity lists of the player's level.
pub open spec fn player_level_content(dungeon: Dungeon, positions: Seq<Option<Position>>, player: Entity) -> Seq<Seq<Entity>> {
    let lv = dungeon.levels@[comp(positions, player as int).level as int];
    Seq::new(lv.tile_content@.len(), |i: int| lv.tile_content@[i]@)
}

/// Lets the player spot hidden things in view.
pub struct RevealTrapsSystem {}

impl RevealTrapsSystem {
    /// Every entity listed on a tile the player sees, tile by tile, gets a look: the result is
    /// `reveal_fold` over those entities with some rolls between 1 and 24.
    pub fn run(
        &mut self,
        queued_action: &mut Option<(Entity, InteractionType)>,
        viewsheds: &Vec<Option<Viewshed>>,
        positions: &Vec<Option<Position>>,
        dungeon: &Dungeon,
        player_entity: Entity,
        hidden: &mut Vec<Option<Hidden>>,
        rng: &mut rltk::RandomNumberGenerator,
        names: &Vec<Option<Name>>,
        log: &mut GameLog,
    )
        requires
            all_levels_wf(dungeon.levels@),
            present(positions@, player_entity as int),
            (comp(positions@, player_entity as int).level as int) < dungeon.levels@.len(),
            present(viewsheds@, player_entity as int),
            forall|i: int| 0 <= i < player_view(viewsheds@, player_entity).len() ==>
                (#[trigger] player_view(viewsheds@, player_entity)[i] as int)
                    < player_level_content(*dungeon, positions@, player_entity).len(),
        ensures
            ({
                let cands = candidates(
                    player_level_content(*dungeon, positions@, player_entity),
                    player_view(viewsheds@, player_entity),
                    player_view(viewsheds@, player_entity).len() as int,
                );
                exists|rolls: Seq<i32>| {
                    &&& rolls.len() == cands.len()
                    &&& forall|i: int| 0 <= i < rolls.len() ==> 1 <= #[trigger] rolls[i] <= 24
                    &&& (RevealView { found: hidden_view(final(hidden)@), queued_action: *final(queued_action), log: final(log).entries.deep_view() })
                        == reveal_fold(
                            names@,
                            player_entity,
                            RevealView { found: hidden_view(old(hidden)@), queued_action: *old(queued_action), log: old(log).entries.deep_view() },
                            cands,
                            rolls,
                            cands.len() as int,
                        )
                }
            }),
    {
        let ghost content = player_level_content(*dungeon, positions@, player_entity);
        let ghost v0 = RevealView { found: hidden_view(hidden@), queued_action: *queued_action, log: log.entries.deep_view() };
        let l = get(positions, player_entity).unwrap().level as usize;
        let level = &dungeon.levels[l];
        assert(level.wf());
        let visible = &get_ref(viewsheds, player_entity).unwrap().visible_tiles;
        assert forall|j: int| 0 <= j < visible@.len() implies (#[trigger] visible@[j] as int) < content.len() by {
            assert(player_view(viewsheds@, player_entity)[j] == visible@[j]);
        }
        let ghost mut rolls: Seq<i32> = Seq::empty();
        let ghost mut seen: Seq<Entity> = Seq::empty();
        let mut i: usize = 0;
        while i < visible.len()
            invariant
                i <= visible@.len(),
                visible@ == player_view(viewsheds@, player_entity),
                content == Seq::new(level.tile_content@.len(), |t: int| level.tile_content@[t]@),
                forall|j: int| 0 <= j < visible@.len() ==> (#[trigger] visible@[j] as int) < content.len(),
                seen == candidates(content, visible@, i as int),
                rolls.len() == seen.len(),
                forall|j: int| 0 <= j < rolls.len() ==> 1 <= #[trigger] rolls[j] <= 24,
                (RevealView { found: hidden_view(hidden@), queued_action: *queued_action, log: log.entries.deep_view() })
                    == reveal_fold(names@, player_entity, v0, seen, rolls, seen.len() as int),
            decreases visible@.len() - i,
        {
            let idx = visible[i];
            let here = &level.tile_content[idx];
            assert(here@ == content[idx as int]);
            let mut j: usize = 0;
            while j < here.len()
                invariant
                    j <= here@.len(),
                    seen.len() == rolls.len(),
                    forall|k: int| 0 <= k < rolls.len() ==> 1 <= #[trigger] rolls[k] <= 24,
                    (RevealView { found: hidden_view(hidden@), queued_action: *queued_action, log: log.entries.deep_view() })
                        == reveal_fold(names@, player_entity, v0, seen, rolls, seen.len() as int),
                    seen == candidates(content, visible@, i as int) + here@.subrange(0, j as int),
                decreases here@.len() - j,
            {
                let c = here[j];
                let ghost found_before = hidden_view(hidden@);
                let mut roll: i32 = 1;
                if c < hidden.len() && hidden[c].is_some() {
                    roll = rng_roll_dice(rng, 1, 24);
                    if roll == 1 {
                        *queued_action = None;
                        let mut slot: Option<Hidden> = None;
                        hidden.set_and_swap(c, &mut slot);
                        let mut h = slot.unwrap();
                        if !contains_entity(&h.found_by, player_entity) {
                            h.found_by.push(player_entity);
                            match get_ref(names, c) {
                                Some(name) => {
                                    log.add(wrap_text("You spotted a ", name.name.as_str(), "."));
                                },
                                None => {},
                            }
                        }
                        hidden.set(c, Some(h));
                        assert(hidden_view(hidden@) =~= (if found_before[c as int]->0.contains(player_entity) {
                            found_before
                        } else {
                            found_before.update(c as int, Some(found_before[c as int]->0.push(player_entity)))
                        }));
                    }
                }
                proof {
                    let ghost s0 = seen;
                    let ghost r0 = rolls;
                    seen = seen.push(c);
                    rolls = rolls.push(roll);
                    lemma_reveal_prefix(names@, player_entity, v0, s0, r0, seen, rolls, s0.len() as int);
                    assert(here@.subrange(0, j + 1) =~= here@.subrange(0, j as int).push(c));
                    assert(seen =~= candidates(content, visible@, i as int) + here@.subrange(0, j + 1));
                }
                j += 1;
            }
            proof {
                assert(here@.subrange(0, here@.len() as int) =~= here@);
                assert(seen =~= candidates(content, visible@, i + 1));
            }
            i += 1;
        }
    }
}

} // verus!
