use vstd::prelude::*;
use crate::components::{Position, Trap, WantsToDisarmTrap};
use crate::ecs::{alive, clear, comp, get, killed, present, Entities, Entity};
use crate::game_log::GameLog;
use crate::item_type::{get_name_for_item, spec_item_for_trap, spec_item_name, ItemType};
use crate::components::TrapType;
use crate::rng::rng_range;
use crate::services::{ItemSpawner, ItemSpawnerRequest};
use crate::text::wrap_text;

verus! {

/// What disarming changes.
pub struct DisarmView {
    pub alive: Seq<bool>,
    pub items: Seq<ItemSpawnerRequest>,
    pub log: Seq<Seq<char>>,
}

/// What disarming reads.
pub struct DisarmInputs {
    pub alive: Seq<bool>,
    pub intents: Seq<Option<WantsToDisarmTrap>>,
    pub traps: Seq<Option<Trap>>,
    pub positions: Seq<Option<Position>>,
    pub player: Entity,
}

/// Entity `e`'s disarm attempt with the die showing `roll` (0 to 5): a zero fails and says so;
/// anything else removes the trap, leaves the matching item on its tile, and tells the player.
pub open spec fn disarm_step(inp: DisarmInputs, v: DisarmView, e: int, roll: i32) -> DisarmView {
    if !(alive(inp.alive, e) && present(inp.intents, e)) {
        v
    } else {
        let trap = comp(inp.intents, e).trap as int;
        let item = spec_item_for_trap(comp(inp.traps, trap).trap_type);
        let name = spec_item_name(item);
        if roll == 0 {
            DisarmView { log: seq!["You failed to disarm the "@ + name + "."@] + v.log, ..v }
        } else {
            let p = comp(inp.positions, trap);
            DisarmView {
                alive: killed(v.alive, trap),
                items: v.items.push(ItemSpawnerRequest { idx: p.idx, level: p.level, item_type: item }),
                log: if e == inp.player { seq!["You disarmed the "@ + name + "."@] + v.log } else { v.log },
            }
        }
    }
}

/// The attempts of entities `0..k`, in entity order, entity `i` rolling `rolls[i]`.
pub open spec fn disarm_fold(inp: DisarmInputs, v: DisarmView, k: int, rolls: Seq<i32>) -> DisarmView
    decreases k,
{
    if k <= 0 { v } else { disarm_step(inp, disarm_fold(inp, v, k - 1, rolls), k - 1, rolls[k - 1]) }
}

proof fn lemma_disarm_prefix(inp: DisarmInputs, v: DisarmView, k: int, a: Seq<i32>, b: Seq<i32>)
    requires
        0 <= k <= a.len(),
        k <= b.len(),
        forall|i: int| 0 <= i < k ==> a[i] == b[i],
    ensures
        disarm_fold(inp, v, k, a) == disarm_fold(inp, v, k, b),
    decreases k,
{
    if k > 0 {
        lemma_disarm_prefix(inp, v, k - 1, a, b);
    }
}

/// Whether every disarm request of an existing entity names an existing trap with a position.
pub open spec fn disarm_ready(inp: DisarmInputs) -> bool {
    forall|e: int| alive(inp.alive, e) && #[trigger] present(inp.intents, e) ==> {
        let trap = comp(inp.intents, e).trap as int;
        &&& present(inp.traps, trap)
        &&& present(inp.positions, trap)
        &&& alive(inp.alive, trap)
    }
}

/// The item that a disarmed trap of this kind leaves behind.
pub fn item_for_trap(t: TrapType) -> (item: ItemType)
    ensures
        item == spec_item_for_trap(t),
{
    match t {
        TrapType::BearTrap => ItemType::BearTrap,
        TrapType::Caltrops => ItemType::Caltrops,
    }
}

/// Entity `e`'s disarm attempt, the die having shown `roll`: exactly `disarm_step`, with
/// `at_start` the entities that existed when the round of attempts began.
pub fn attempt_disarm(
    e: Entity,
    roll: i32,
    player_entity: Entity,
    at_start: &Entities,
    entities: &mut Entities,
    intents: &Vec<Option<WantsToDisarmTrap>>,
    traps: &Vec<Option<Trap>>,
    positions: &Vec<Option<Position>>,
    spawner: &mut ItemSpawner,
    log: &mut GameLog,
)
    requires
        disarm_ready(DisarmInputs { alive: at_start.alive@, intents: intents@, traps: traps@, positions: positions@, player: player_entity }),
        alive(at_start.alive@, e as int) && present(intents@, e as int),
    ensures
        (DisarmView { alive: final(entities).alive@, items: final(spawner).requests@, log: final(log).entries.deep_view() })
            == disarm_step(
                DisarmInputs { alive: at_start.alive@, intents: intents@, traps: traps@, positions: positions@, player: player_entity },
                DisarmView { alive: old(entities).alive@, items: old(spawner).requests@, log: old(log).entries.deep_view() },
                e as int,
                roll,
            ),
{
    let ghost inp = DisarmInputs { alive: at_start.alive@, intents: intents@, traps: traps@, positions: positions@, player: player_entity };
    assert(present(inp.intents, e as int));
    let trap = get(intents, e).unwrap().trap;
    let t = get(traps, trap).unwrap();
    let item = item_for_trap(t.trap_type);
    let name = get_name_for_item(item);
    if roll == 0 {
        log.add(wrap_text("You failed to disarm the ", name.as_str(), "."));
    } else {
        let p = get(positions, trap).unwrap();
        spawner.request(p.idx, p.level, item);
        if e == player_entity {
            log.add(wrap_text("You disarmed the ", name.as_str(), "."));
        }
        entities.delete(trap);
    }
}

/// Disarms traps on request.
pub struct DisarmTrapSystem {}

impl DisarmTrapSystem {
    /// Each existing entity with a request, in entity order, rolls a six-sided die (0 to 5) and
    /// makes its `disarm_step` with it. The requests are removed afterwards.
    pub fn run(
        &mut self,
        entities: &mut Entities,
        intents: &mut Vec<Option<WantsToDisarmTrap>>,
        rng: &mut rltk::RandomNumberGenerator,
        spawner: &mut ItemSpawner,
        positions: &Vec<Option<Position>>,
        traps: &Vec<Option<Trap>>,
        player_entity: Entity,
        log: &mut GameLog,
    )
        requires
            disarm_ready(DisarmInputs { alive: old(entities).alive@, intents: old(intents)@, traps: traps@, positions: positions@, player: player_entity }),
        ensures
            exists|rolls: Seq<i32>| {
                &&& rolls.len() == old(entities).alive@.len()
                &&& forall|i: int| 0 <= i < rolls.len() ==> 0 <= #[trigger] rolls[i] < 6
                &&& (DisarmView { alive: final(entities).alive@, items: final(spawner).requests@, log: final(log).entries.deep_view() })
                    == disarm_fold(
                        DisarmInputs { alive: old(entities).alive@, intents: old(intents)@, traps: traps@, positions: positions@, player: player_entity },
                        DisarmView { alive: old(entities).alive@, items: old(spawner).requests@, log: old(log).entries.deep_view() },
                        old(entities).alive@.len() as int,
                        rolls,
                    )
            },
            forall|i: int| !present(final(intents)@, i),
    {
        let at_start = entities.snapshot();
        let ghost alive0 = entities.alive@;
        let ghost inp = DisarmInputs { alive: alive0, intents: intents@, traps: traps@, positions: positions@, player: player_entity };
        let ghost v0 = DisarmView { alive: alive0, items: spawner.requests@, log: log.entries.deep_view() };
        let ghost mut rolls: Seq<i32> = Seq::empty();
        let n = entities.alive.len();
        let mut e: usize = 0;
        while e < n
            invariant
                e <= n,
                n == alive0.len(),
                at_start.alive@ == alive0,
                entities.alive@.len() == n,
                inp == (DisarmInputs { alive: alive0, intents: intents@, traps: traps@, positions: positions@, player: player_entity }),
                disarm_ready(inp),
                rolls.len() == e,
                forall|i: int| 0 <= i < e ==> 0 <= #[trigger] rolls[i] < 6,
                (DisarmView { alive: entities.alive@, items: spawner.requests@, log: log.entries.deep_view() })
                    == disarm_fold(inp, v0, e as int, rolls),
            decreases n - e,
        {
            let ghost before = rolls;
            let mut roll: i32 = 0;
            if at_start.is_alive(e) && crate::ecs::contains(intents, e) {
                roll = rng_range(rng, 0, 6);
                attempt_disarm(e, roll, player_entity, &at_start, entities, intents, traps, positions, spawner, log);
            }
            proof {
                rolls = rolls.push(roll);
                lemma_disarm_prefix(inp, v0, e as int, before, rolls);
            }
            e += 1;
        }
        clear(intents);
    }
}

} // verus!
