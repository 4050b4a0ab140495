use vstd::prelude::*;
use crate::components::{WantsToMelee, WantsToMove};
use crate::ecs::present;
use crate::run_state::RunState;

verus! {

/// The systems of the game, one per rule that updates the world.
#[derive(Clone, Copy, Debug, PartialEq, Eq, Structural)]
pub enum SystemId {
    UpdateParticleEffects,
    RemoveParticleEffects,
    Equip,
    Light,
    Visibility,
    UpdateMemories,
    MonsterAI,
    Move,
    GoUpStairs,
    GoDownStairs,
    MapIndexing,
    MeleeCombat,
    Trigger,
    FireBurn,
    FireSpread,
    FireDie,
    Damage,
    ItemCollection,
    UseItem,
    ItemDrop,
    RemoveTriggeredTraps,
    RevealTraps,
    Release,
    SearchForHidden,
    SetTrap,
    DisarmTrap,
    Grab,
    OpenDoor,
    CloseDoor,
    Hide,
    LightItem,
    DouseItem,
    BloodSpawn,
    ParticleSpawn,
    TrapSpawn,
    ItemSpawn,
    DebrisSpawn,
    CorpseSpawn,
    DeleteTheDead,
    MemoryCull,
    Maintain,
}

/// `s` when `cond` holds, nothing otherwise.
pub open spec fn when(cond: bool, s: Seq<SystemId>) -> Seq<SystemId> {
    if cond { s } else { Seq::empty() }
}

/// The systems run in one frame of state `s`, in order. Particles age and expire every frame;
/// sight, light and memory are brought up to date before and during turns; monsters think and
/// fire spreads only on their turn; traps are spotted only on the player's turn; the
/// player's own actions and the clean-up of the dead happen on both turns; everything else
/// runs every frame.
pub open spec fn spec_system_plan(s: RunState) -> Seq<SystemId> {
    let turn = s is PlayerTurn || s is MonsterTurn;
    seq![SystemId::UpdateParticleEffects, SystemId::RemoveParticleEffects]
        + when(s is PreRun || turn, seq![SystemId::Equip, SystemId::Light, SystemId::Visibility, SystemId::UpdateMemories])
        + when(s is MonsterTurn, seq![SystemId::MonsterAI])
        + seq![SystemId::Move, SystemId::GoUpStairs, SystemId::GoDownStairs, SystemId::MapIndexing, SystemId::MeleeCombat, SystemId::Trigger]
        + when(s is MonsterTurn, seq![SystemId::FireBurn, SystemId::FireSpread, SystemId::FireDie])
        + seq![SystemId::Damage, SystemId::ItemCollection, SystemId::UseItem, SystemId::ItemDrop, SystemId::RemoveTriggeredTraps]
        + when(s is PlayerTurn, seq![SystemId::RevealTraps])
        + seq![SystemId::Release]
        + when(turn, seq![
            SystemId::SearchForHidden, SystemId::SetTrap, SystemId::DisarmTrap, SystemId::Grab, SystemId::OpenDoor,
            SystemId::CloseDoor, SystemId::Hide, SystemId::LightItem, SystemId::DouseItem,
        ])
        + seq![SystemId::BloodSpawn, SystemId::ParticleSpawn, SystemId::TrapSpawn, SystemId::ItemSpawn, SystemId::DebrisSpawn, SystemId::CorpseSpawn]
        + when(turn, seq![SystemId::DeleteTheDead, SystemId::MemoryCull])
        + seq![SystemId::Maintain]
}

fn push_all(out: &mut Vec<SystemId>, items: &[SystemId])
    ensures
        final(out)@ == old(out)@ + items@,
{
    let mut i: usize = 0;
    while i < items.len()
        invariant
            i <= items@.len(),
            out@ == old(out)@ + items@.subrange(0, i as int),
        decreases items@.len() - i,
    {
        out.push(items[i]);
        i += 1;
        assert(out@ =~= old(out)@ + items@.subrange(0, i as int));
    }
    assert(items@.subrange(0, items@.len() as int) =~= items@);
}

/// The systems run in one frame of state `s`, in order: exactly `spec_system_plan(s)`.
pub fn system_plan(s: &RunState) -> (plan: Vec<SystemId>)
    ensures
        plan@ == spec_system_plan(*s),
{
    let turn = match s {
        RunState::PlayerTurn | RunState::MonsterTurn => true,
        _ => false,
    };
    let pre_run = match s {
        RunState::PreRun => true,
        _ => false,
    };
    let monster_turn = match s {
        RunState::MonsterTurn => true,
        _ => false,
    };
    let player_turn = match s {
        RunState::PlayerTurn => true,
        _ => false,
    };
    let mut plan: Vec<SystemId> = Vec::new();
    push_all(&mut plan, &[SystemId::UpdateParticleEffects, SystemId::RemoveParticleEffects]);
    if pre_run || turn {
        push_all(&mut plan, &[SystemId::Equip, SystemId::Light, SystemId::Visibility, SystemId::UpdateMemories]);
    }
    if monster_turn {
        push_all(&mut plan, &[SystemId::MonsterAI]);
    }
    push_all(&mut plan, &[SystemId::Move, SystemId::GoUpStairs, SystemId::GoDownStairs, SystemId::MapIndexing, SystemId::MeleeCombat, SystemId::Trigger]);
    if monster_turn {
        push_all(&mut plan, &[SystemId::FireBurn, SystemId::FireSpread, SystemId::FireDie]);
    }
    push_all(&mut plan, &[SystemId::Damage, SystemId::ItemCollection, SystemId::UseItem, SystemId::ItemDrop, SystemId::RemoveTriggeredTraps]);
    if player_turn {
        push_all(&mut plan, &[SystemId::RevealTraps]);
    }
    push_all(&mut plan, &[SystemId::Release]);
    if turn {
        push_all(&mut plan, &[
            SystemId::SearchForHidden, SystemId::SetTrap, SystemId::DisarmTrap, SystemId::Grab, SystemId::OpenDoor,
            SystemId::CloseDoor, SystemId::Hide, SystemId::LightItem, SystemId::DouseItem,
        ]);
    }
    push_all(&mut plan, &[SystemId::BloodSpawn, SystemId::ParticleSpawn, SystemId::TrapSpawn, SystemId::ItemSpawn, SystemId::DebrisSpawn, SystemId::CorpseSpawn]);
    if turn {
        push_all(&mut plan, &[SystemId::DeleteTheDead, SystemId::MemoryCull]);
    }
    push_all(&mut plan, &[SystemId::Maintain]);
    assert(plan@ =~= spec_system_plan(*s));
    plan
}

/// The move and attack intents of every entity at some point of a frame.
pub struct IntentStores {
    pub moves: Seq<Option<WantsToMove>>,
    pub melee: Seq<Option<WantsToMelee>>,
}

/// What system `id` does to the intents, as the systems' contracts and signatures state it: the
/// monster AI may issue any; the move system leaves no move intent (`MoveSystem::run`) and does
/// not touch attacks; the combat system leaves no attack intent (`MeleeCombatSystem::run`) and
/// does not touch moves; every other system is handed neither store, or (`Maintain`) only drops
/// entries, so it adds none.
pub open spec fn intent_step(id: SystemId, before: IntentStores, after: IntentStores) -> bool {
    match id {
        SystemId::MonsterAI => true,
        SystemId::Move => (forall|e: int| !#[trigger] present(after.moves, e)) && after.melee == before.melee,
        SystemId::MeleeCombat => (forall|e: int| !#[trigger] present(after.melee, e)) && after.moves == before.moves,
        _ => {
            &&& forall|e: int| #[trigger] present(after.moves, e) ==> present(before.moves, e)
            &&& forall|e: int| #[trigger] present(after.melee, e) ==> present(before.melee, e)
        },
    }
}

} // verus!
