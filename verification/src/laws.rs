use vstd::prelude::*;
use crate::combat::{spec_hand_damage, WeaponView};
use crate::components::{Equipment, EquipmentPositions, Name, Position, WantsToDouse, WantsToLight};
use crate::constants::{MAP_HEIGHT, MAP_WIDTH};
use crate::damage::{dies, DeathInputs};
use crate::ecs::{comp, lookup, present, Entity};
use crate::geometry::{spec_render_offset, spec_xy_idx};
use crate::level::{spec_spawn_points, Level, TileType};
use crate::interaction::InteractionType;
use crate::run_state::{
    spec_action_menu, spec_awaiting_home, spec_backpack_menu, spec_container_menu, spec_countdown, spec_equipment_menu,
    spec_exit_game_menu, BackpackMenu, EquipMenuType, Menu, MapAction, MenuAction, RunState,
};
use crate::systems::disarm_trap::{disarm_step, DisarmInputs, DisarmView};
use crate::item_type::spec_item_for_trap;
use crate::ecs::alive;
use crate::components::Ranged;
use crate::schedule::{intent_step, spec_system_plan, IntentStores, SystemId};
use crate::settings::{bound_to, keys_unique};
use crate::systems::door_systems::{opened_where, shut_where};
use crate::systems::equip_system::{spec_get_at, spec_set_at};
use crate::systems::light_item_system::{douse_step, light_step, LightView};
use crate::systems::light_system::{cell, lit_by};
use crate::systems::memory_cull::{culled, lemma_filter_keys_unique, memory_wf, MemoryView};
use crate::systems::reveal_traps::{reveal_fold, reveal_step, RevealView};
use crate::run_state::{
    spec_debug_menu, spec_equip_menu, spec_interact_menu, spec_interactive_targeting, spec_item_targeting,
    spec_main_menu, spec_options, spec_runs_systems, spec_set_key, spec_static_screen, spec_typed_targeting,
    CallToAction, Command, TargetIntent,
};

verus! {

/// Turning a column and row into a tile index and back gives the same column and row.
pub proof fn law_tile_index_round_trip(width: int, x: int, y: int)
    requires
        width > 0,
        0 <= x < width,
        0 <= y,
    ensures
        spec_xy_idx(width, x, y) % width == x,
        spec_xy_idx(width, x, y) / width == y,
{
    vstd::arithmetic::div_mod::lemma_fundamental_div_mod_converse(spec_xy_idx(width, x, y), width, y, x);
}

/// The middle cell of the map viewport shows the point the view is centred on.
pub proof fn law_viewport_centre(center_x: int, center_y: int)
    ensures
        spec_render_offset(center_x, center_y).0 + MAP_WIDTH as int / 2 == center_x,
        spec_render_offset(center_x, center_y).1 + MAP_HEIGHT as int / 2 == center_y,
{
}

/// The message log lists the newest message first: after adding `first` and then `second`,
/// the log starts with `second`, then `first`, then what it held before.
pub proof fn law_log_newest_first(log: Seq<Seq<char>>, first: Seq<char>, second: Seq<char>)
    ensures
        seq![second] + (seq![first] + log) == seq![second, first] + log,
{
    assert(seq![second] + (seq![first] + log) =~= seq![second, first] + log);
}

/// Putting something into a hand and reading that hand gives it back; the other hand keeps
/// what it held.
pub proof fn law_equip_then_read(equipment: Equipment, item: Option<Entity>, position: EquipmentPositions)
    requires
        position == EquipmentPositions::DominantHand || position == EquipmentPositions::OffHand,
    ensures
        spec_get_at(spec_set_at(equipment, item, position), position) == item,
        position == EquipmentPositions::DominantHand ==> spec_set_at(equipment, item, position).off_hand == equipment.off_hand,
        position == EquipmentPositions::OffHand ==> spec_set_at(equipment, item, position).dominant_hand == equipment.dominant_hand,
{
}

/// Lighting an unlit light source and then dousing it leaves it as it was: unlit, lightable and
/// not dousable.
pub proof fn law_light_then_douse(
    alive_set: Seq<bool>,
    light_wants: Seq<Option<WantsToLight>>,
    douse_wants: Seq<Option<WantsToDouse>>,
    names: Seq<Option<Name>>,
    player: Entity,
    v: LightView,
    e: int,
    d: int,
)
    requires
        crate::ecs::alive(alive_set, e) && present(light_wants, e),
        crate::ecs::alive(alive_set, d) && present(douse_wants, d),
        comp(light_wants, e).item == comp(douse_wants, d).item,
        ({
            let item = comp(light_wants, e).item as int;
            &&& 0 <= item < v.causes_light.len() && item < v.lightables.len() && item < v.dousables.len()
            &&& present(v.causes_light, item) && !comp(v.causes_light, item).lit
            &&& present(v.lightables, item)
            &&& !present(v.dousables, item)
        }),
    ensures
        ({
            let after = douse_step(alive_set, douse_wants, names, player, light_step(alive_set, light_wants, names, player, v, e), d);
            &&& after.causes_light == v.causes_light
            &&& after.lightables == v.lightables
            &&& after.dousables == v.dousables
        }),
{
    let item = comp(light_wants, e).item as int;
    let lit = light_step(alive_set, light_wants, names, player, v, e);
    let after = douse_step(alive_set, douse_wants, names, player, lit, d);
    assert(after.causes_light =~= v.causes_light);
    assert(v.lightables[item] == Some(crate::components::Lightable {}));
    assert(after.lightables =~= v.lightables);
    assert(after.dousables =~= v.dousables);
}

/// Opening a closed door's tile and then closing a door on it gives back the tile as it was: a
/// door tile that blocks movement and sight.
pub proof fn law_open_then_close_door(
    a: Level,
    b: Level,
    c: Level,
    open: spec_fn(int) -> bool,
    shut: spec_fn(int) -> bool,
    t: int,
)
    requires
        opened_where(a, b, open),
        shut_where(b, c, shut),
        0 <= t < a.tiles@.len(),
        a.tiles@.len() == a.blocked@.len() && a.tiles@.len() == a.opaque@.len(),
        a.tiles@[t] == TileType::Door && a.blocked@[t] && a.opaque@[t],
        open(t),
        shut(t),
    ensures
        c.tiles@[t] == a.tiles@[t],
        c.blocked@[t] == a.blocked@[t],
        c.opaque@[t] == a.opaque@[t],
{
}

/// A blow never does negative damage.
pub proof fn law_hand_damage_not_negative(w: Option<WeaponView>, roll: int, power: int, defense: int)
    ensures
        spec_hand_damage(w, roll, power, defense) >= 0,
{
}

/// The player is never among the dead that the clean-up removes.
pub proof fn law_player_survives_cleanup(inp: DeathInputs)
    ensures
        !dies(inp, inp.player as int),
{
}

/// In a menu, moving the highlight down and then up, or up and then down, comes back to the
/// same entry.
pub proof fn law_menu_next_then_previous(m: Menu, i: int)
    requires
        0 <= i < m.len,
    ensures
        m.spec_previous_index(m.spec_next_index(i)) == i,
        m.spec_next_index(m.spec_previous_index(i)) == i,
{
}

/// A brighter light lights every tile a dimmer one on the same tile lights.
pub proof fn law_brighter_light(width: int, count: int, pos: int, r1: int, r2: int, t: int)
    requires
        0 <= r1 <= r2,
        lit_by(width, count, pos, r1, t),
    ensures
        lit_by(width, count, pos, r2, t),
{
    let (a, b) = choose|a: int, b: int| #[trigger] cell(width, count, pos, r1, a, b, t);
    assert(r1 * r1 <= r2 * r2) by (nonlinear_arith)
        requires 0 <= r1 <= r2;
    assert(cell(width, count, pos, r2, a, b, t));
}

proof fn lemma_filter_idempotent<A>(s: Seq<A>, f: spec_fn(A) -> bool)
    ensures
        s.filter(f).filter(f) == s.filter(f),
    decreases s.len(),
{
    reveal(Seq::filter);
    if s.len() > 0 {
        lemma_filter_idempotent(s.drop_last(), f);
        let sub = s.drop_last().filter(f);
        if f(s.last()) {
            assert(sub.push(s.last()).drop_last() =~= sub);
        }
    }
}

/// Forgetting what no longer exists a second time forgets nothing more.
pub proof fn law_cull_idempotent(alive_set: Seq<bool>, m: MemoryView)
    ensures
        culled(alive_set, culled(alive_set, m)) == culled(alive_set, m),
{
    lemma_filter_idempotent(m.last_known_enemy_positions, |p: (Entity, Position)| crate::ecs::alive(alive_set, p.0 as int));
    lemma_filter_idempotent(m.known_enemy_hiding_spots,
        |p: (Entity, Entity)| crate::ecs::alive(alive_set, p.0 as int) && crate::ecs::alive(alive_set, p.1 as int));
}

/// Whether no finder list names an entity twice.
pub open spec fn finders_unique(found: Seq<Option<Seq<Entity>>>) -> bool {
    forall|e: int| 0 <= e < found.len() && found[e] is Some ==> (#[trigger] found[e])->0.no_duplicates()
}

/// Spotting hidden things never lists a finder twice.
pub proof fn law_spotting_keeps_finders_unique(names: Seq<Option<Name>>, player: Entity, v: RevealView, c: int, roll: i32)
    requires
        finders_unique(v.found),
    ensures
        finders_unique(reveal_step(names, player, v, c, roll).found),
{
    let after = reveal_step(names, player, v, c, roll).found;
    assert forall|e: int| 0 <= e < after.len() && after[e] is Some implies (#[trigger] after[e])->0.no_duplicates() by {
        if e == c && after != v.found {
            let old_list = v.found[c]->0;
            assert(after[e]->0 == old_list.push(player));
            assert(!old_list.contains(player));
            assert forall|i: int, j: int| 0 <= i < j < old_list.push(player).len() implies old_list.push(player)[i] != old_list.push(player)[j] by {
                if j == old_list.len() {
                    assert(old_list[i] != player);
                }
            }
        }
    }
}

/// The counting-down screens count down by one each frame, and leave when they reach zero.
pub proof fn law_countdown(s: RunState, queued: Option<InteractionType>)
    requires
        s is SavingScreen || s is LoadingScreen || s is NewGameScreen,
    ensures
        match s {
            RunState::SavingScreen { count_down } => if count_down > 0 {
                spec_countdown(s, queued).0 == RunState::SavingScreen { count_down: (count_down - 1) as u32 }
            } else {
                spec_countdown(s, queued).0 is MainMenu
            },
            RunState::LoadingScreen { count_down } => if count_down > 0 {
                spec_countdown(s, queued).0 == RunState::LoadingScreen { count_down: (count_down - 1) as u32 }
            } else {
                spec_countdown(s, queued).0 is AwaitingInput
            },
            RunState::NewGameScreen { count_down } => if count_down > 0 {
                spec_countdown(s, queued).0 == RunState::NewGameScreen { count_down: (count_down - 1) as u32 }
            } else {
                spec_countdown(s, queued).0 is IntroScreen
            },
            _ => true,
        },
{
}

/// The dead are removed, and memories of them forgotten, only on the player's and the
/// monsters' turns.
pub proof fn law_cleanup_only_on_turns(s: RunState)
    ensures
        spec_system_plan(s).contains(SystemId::DeleteTheDead) <==> (s is PlayerTurn || s is MonsterTurn),
        spec_system_plan(s).contains(SystemId::MemoryCull) <==> (s is PlayerTurn || s is MonsterTurn),
        spec_system_plan(s).last() == SystemId::Maintain,
{
    let p = spec_system_plan(s);
    let turn = s is PlayerTurn || s is MonsterTurn;
    if turn {
        let k = p.len() - 3;
        assert(p[k] == SystemId::DeleteTheDead);
        assert(p[k + 1] == SystemId::MemoryCull);
    } else {
        assert forall|i: int| 0 <= i < p.len() implies p[i] != SystemId::DeleteTheDead && p[i] != SystemId::MemoryCull by {}
    }
}

/// Rebinding an action: after clearing every key of `action` and binding `key` to it, `key`
/// gives the action and no other key does.
pub proof fn law_rebind_action(b: Seq<(u32, MapAction)>, cleared: Seq<(u32, MapAction)>, rebound: Seq<(u32, MapAction)>, key: u32, action: MapAction, other: u32)
    requires
        cleared == b.filter(|x: (u32, MapAction)| x.1 != action),
        bound_to(rebound, key) == Some(action),
        forall|k: u32| k != key ==> #[trigger] bound_to(rebound, k) == bound_to(cleared, k),
        other != key,
    ensures
        bound_to(rebound, key) == Some(action),
        bound_to(rebound, other) != Some(action),
{
    assert(bound_to(rebound, other) == bound_to(cleared, other));
    if bound_to(cleared, other) == Some(action) {
        let i = choose|i: int| 0 <= i < cleared.len() && cleared[i].0 == other;
        b.lemma_filter_pred(|x: (u32, MapAction)| x.1 != action, i);
        assert(cleared[i].1 != action);
    }
}

/// Escape closes every menu opened from the map and goes back to the map, centred on the player.
pub proof fn law_escape_returns_to_map(
    kind: BackpackMenu,
    h: usize,
    ah: usize,
    am: bool,
    slot_count: usize,
    actions: Seq<EquipMenuType>,
    items: Seq<Entity>,
    all: Vec<Entity>,
    ranged: Seq<Option<Ranged>>,
    container: Entity,
    has_objective: bool,
    targets: Option<Vec<Entity>>,
    queued: Option<InteractionType>,
)
    ensures
        spec_backpack_menu(kind, h, Some(MenuAction::Exit), items, ranged, queued).0 == spec_awaiting_home(),
        spec_exit_game_menu(h, Some(MenuAction::Exit), has_objective, queued).0 == spec_awaiting_home(),
        spec_action_menu(h, Some(MenuAction::Exit), targets, queued).0 == spec_awaiting_home(),
        spec_container_menu(h, container, items, all, Some(MenuAction::Exit), queued).0 == spec_awaiting_home(),
        spec_equipment_menu(h, ah, am, slot_count, actions, Some(MenuAction::Exit), queued).0 == spec_awaiting_home(),
{
}

/// A disarm attempt either fails, leaving the trap in place, or removes the trap and leaves the
/// item it came from on the trap's tile; nothing else changes.
pub proof fn law_disarm_outcome(inp: DisarmInputs, v: DisarmView, e: int, roll: i32)
    requires
        alive(inp.alive, e) && present(inp.intents, e),
        0 <= comp(inp.intents, e).trap < v.alive.len(),
    ensures
        ({
            let trap = comp(inp.intents, e).trap as int;
            let after = disarm_step(inp, v, e, roll);
            if roll == 0 {
                after.alive == v.alive && after.items == v.items
            } else {
                &&& !alive(after.alive, trap)
                &&& forall|i: int| i != trap ==> alive(after.alive, i) == alive(v.alive, i)
                &&& after.items.len() == v.items.len() + 1
                &&& after.items.last().item_type == spec_item_for_trap(comp(inp.traps, trap).trap_type)
                &&& after.items.last().idx == comp(inp.positions, trap).idx
            }
        }),
{
}

proof fn lemma_spawn_points_sorted(level: &Level, n: int)
    requires
        0 <= n <= level.tiles@.len(),
        level.wf(),
    ensures
        forall|i: int, j: int| 0 <= i < j < spec_spawn_points(level, n).len()
            ==> spec_spawn_points(level, n)[i] < spec_spawn_points(level, n)[j],
        forall|i: int| 0 <= i < spec_spawn_points(level, n).len() ==> {
            let p = #[trigger] spec_spawn_points(level, n)[i] as int;
            &&& 0 <= p < n
            &&& level.tiles@[p] == TileType::Floor
            &&& !level.blocked@[p]
        },
    decreases n,
{
    if n > 0 {
        lemma_spawn_points_sorted(level, n - 1);
        let prev = spec_spawn_points(level, n - 1);
        let cur = spec_spawn_points(level, n);
        assert(level.tiles@.len() == level.tiles.len());
        assert((n - 1) as usize as int == n - 1);
        if level.tiles@[n - 1] == TileType::Floor && !level.blocked@[n - 1] {
            assert(cur == prev.push((n - 1) as usize));
            assert forall|i: int| 0 <= i < cur.len() implies {
                let p = #[trigger] cur[i] as int;
                &&& 0 <= p < n
                &&& level.tiles@[p] == TileType::Floor
                &&& !level.blocked@[p]
            } by {
                if i < prev.len() {
                    assert(cur[i] == prev[i]);
                    let q = spec_spawn_points(level, n - 1)[i] as int;
                    assert(0 <= q < n - 1);
                } else {
                    assert(cur[i] == (n - 1) as usize);
                }
            }
            assert forall|i: int, j: int| 0 <= i < j < cur.len() implies cur[i] < cur[j] by {
                assert(cur[i] == prev[i]);
                if j < prev.len() {
                    assert(cur[j] == prev[j]);
                } else {
                    assert(cur[j] == (n - 1) as usize);
                    let q = spec_spawn_points(level, n - 1)[i] as int;
                    assert(q < n - 1);
                }
            }
        } else {
            assert(cur == prev);
        }
    }
}

/// Random spawn points are free floor tiles, and no tile is picked twice: any list of points
/// drawn out of a level's spawn points, as `get_random_spawn_points_for_level` promises its
/// result to be, lists unblocked floor tiles without repeats.
pub proof fn law_spawn_points_distinct_free_floor(level: &Level, r: Seq<usize>)
    requires
        level.wf(),
        r.to_multiset().subset_of(spec_spawn_points(level, level.tile_count()).to_multiset()),
    ensures
        r.no_duplicates(),
        forall|i: int| 0 <= i < r.len() ==> {
            &&& (#[trigger] r[i] as int) < level.tiles@.len()
            &&& level.tiles@[r[i] as int] == TileType::Floor
            &&& !level.blocked@[r[i] as int]
        },
{
    broadcast use vstd::multiset::group_multiset_axioms, vstd::seq_lib::group_to_multiset_ensures;
    let pts = spec_spawn_points(level, level.tile_count());
    lemma_spawn_points_sorted(level, level.tile_count());
    assert(pts.no_duplicates());
    pts.lemma_multiset_has_no_duplicates();
    assert forall|x: usize| r.to_multiset().contains(x) implies r.to_multiset().count(x) == 1 by {
        assert(r.to_multiset().count(x) <= pts.to_multiset().count(x));
        assert(pts.to_multiset().contains(x));
    }
    r.lemma_multiset_has_no_duplicates_conv();
    assert forall|i: int| 0 <= i < r.len() implies {
        &&& (#[trigger] r[i] as int) < level.tiles@.len()
        &&& level.tiles@[r[i] as int] == TileType::Floor
        &&& !level.blocked@[r[i] as int]
    } by {
        let x = r[i];
        assert(r.contains(x));
        assert(r.to_multiset().count(x) > 0);
        assert(pts.to_multiset().count(x) > 0);
        assert(pts.contains(x));
        let k = choose|k: int| 0 <= k < pts.len() && pts[k] == x;
        assert(pts[k] == x);
    }
}

/// The state and the commands after `k` frames of a counting-down screen that started as `s`.
pub open spec fn countdown_frames(s: RunState, queued: Option<InteractionType>, k: int) -> (RunState, Seq<Command>)
    decreases k,
{
    if k <= 0 {
        (s, Seq::empty())
    } else {
        let (s1, c1) = countdown_frames(s, queued, k - 1);
        let step = spec_countdown(s1, queued);
        (step.0, c1 + step.2)
    }
}

/// How many frames a counting-down screen still counts.
pub open spec fn count_of(s: RunState) -> int {
    match s {
        RunState::SavingScreen { count_down } => count_down as int,
        RunState::LoadingScreen { count_down } => count_down as int,
        RunState::NewGameScreen { count_down } => count_down as int,
        _ => 0,
    }
}

/// The same counting-down screen with `n` frames left.
pub open spec fn with_count(s: RunState, n: int) -> RunState {
    match s {
        RunState::SavingScreen { .. } => RunState::SavingScreen { count_down: n as u32 },
        RunState::LoadingScreen { .. } => RunState::LoadingScreen { count_down: n as u32 },
        RunState::NewGameScreen { .. } => RunState::NewGameScreen { count_down: n as u32 },
        _ => s,
    }
}

/// Where a counting-down screen ends and the work it asks for: saving goes to the main menu
/// and saves; loading goes to the map, loads and deletes the save; a new game initialises the
/// game and shows the introduction.
pub open spec fn countdown_end(s: RunState) -> (RunState, Seq<Command>) {
    match s {
        RunState::SavingScreen { .. } => (RunState::MainMenu { highlighted: 0 }, seq![Command::SaveGame]),
        RunState::LoadingScreen { .. } => (spec_awaiting_home(), seq![Command::LoadGame, Command::DeleteSave]),
        RunState::NewGameScreen { .. } => (RunState::IntroScreen, seq![Command::InitializeNewGame]),
        _ => (s, Seq::empty()),
    }
}

/// A counting-down screen that starts with `c` frames to count shows `c - k` after `k <= c`
/// frames and has asked for nothing; after `c + 1` frames it has left for its next screen and
/// asked for its work exactly once.
pub proof fn law_countdown_frames(s: RunState, queued: Option<InteractionType>, k: int)
    requires
        s is SavingScreen || s is LoadingScreen || s is NewGameScreen,
        0 <= k <= count_of(s) + 1,
    ensures
        k <= count_of(s) ==> countdown_frames(s, queued, k) == (with_count(s, count_of(s) - k), Seq::<Command>::empty()),
        k == count_of(s) + 1 ==> countdown_frames(s, queued, k) == countdown_end(s),
    decreases k,
{
    if k > 0 {
        law_countdown_frames(s, queued, k - 1);
        let prev = countdown_frames(s, queued, k - 1);
        assert(prev == (with_count(s, count_of(s) - (k - 1)), Seq::<Command>::empty()));
        assert(Seq::<Command>::empty() + seq![Command::SaveGame] == seq![Command::SaveGame]);
        assert(Seq::<Command>::empty() + seq![Command::LoadGame, Command::DeleteSave] == seq![Command::LoadGame, Command::DeleteSave]);
        assert(Seq::<Command>::empty() + seq![Command::InitializeNewGame] == seq![Command::InitializeNewGame]);
        assert(Seq::<Command>::empty() + Seq::<Command>::empty() == Seq::<Command>::empty());
    } else {
        assert(with_count(s, count_of(s)) == s);
    }
}

/// With no key pressed, every menu, targeting screen and screen of text stays as it is, keeps
/// the queued action and asks for nothing; and no systems run while one of them is shown.
pub proof fn law_no_input_keeps_screen(
    kind: BackpackMenu,
    h: usize,
    ah: usize,
    am: bool,
    slot_count: usize,
    items: Seq<Entity>,
    ranged: Seq<Option<Ranged>>,
    has_objective: bool,
    range: i32,
    item: Entity,
    target: Entity,
    options: Seq<InteractionType>,
    idx: usize,
    targets: Seq<Entity>,
    typed_targets: Vec<Entity>,
    intent: TargetIntent,
    cta: Option<CallToAction>,
    all: Vec<Entity>,
    screen_targets: Option<Vec<Entity>>,
    position: EquipmentPositions,
    choices: Seq<Option<Entity>>,
    actions: Seq<EquipMenuType>,
    text_screen: RunState,
    action: MapAction,
    queued: Option<InteractionType>,
)
    requires
        text_screen is IntroScreen || text_screen is DeathScreen || text_screen is SuccessScreen
            || text_screen is FailureScreen || text_screen is CreditsScreen,
    ensures
        spec_backpack_menu(kind, h, None, items, ranged, queued)
            == (match kind { BackpackMenu::Use => RunState::InventoryMenu { highlighted: h }, BackpackMenu::Drop => RunState::DropItemMenu { highlighted: h } },
                queued, Seq::<Command>::empty()),
        spec_exit_game_menu(h, None, has_objective, queued) == (RunState::ExitGameMenu { highlighted: h }, queued, Seq::<Command>::empty()),
        spec_item_targeting(range, item, None, None, queued) == (RunState::ItemUseTargeting { range, item }, queued, Seq::<Command>::empty()),
        spec_interact_menu(h, target, options, None, queued) == (RunState::InteractMenu { highlighted: h, target }, queued, Seq::<Command>::empty()),
        spec_interactive_targeting(idx, targets, None, queued) == (RunState::InteractiveEntityTargeting { target_idx: idx }, queued, Seq::<Command>::empty()),
        spec_typed_targeting(idx, typed_targets, intent, cta, None, queued)
            == (RunState::InteractionTypeEntityTargeting { target_idx: idx, targets: typed_targets, intent, cta }, queued, Seq::<Command>::empty()),
        spec_container_menu(h, target, items, all, None, queued) == (RunState::OpenContainerMenu { highlighted: h, container: target }, queued, Seq::<Command>::empty()),
        spec_action_menu(h, None, screen_targets, queued) == (RunState::ActionMenu { highlighted: h }, queued, Seq::<Command>::empty()),
        spec_equip_menu(h, position, choices, None, queued) == (RunState::EquipMenu { highlighted: h, position }, queued, Seq::<Command>::empty()),
        spec_equipment_menu(h, ah, am, slot_count, actions, None, queued)
            == (RunState::EquipmentMenu { highlighted: h, action_highlighted: ah, action_menu: am }, queued, Seq::<Command>::empty()),
        spec_static_screen(text_screen, None, queued) == (text_screen, queued, Seq::<Command>::empty()),
        spec_set_key(action, h, None, queued) == (RunState::SetKey { action, highlighted: h }, queued, Seq::<Command>::empty()),
        spec_options(h, None, queued) == (RunState::OptionsScreen { highlighted: h }, queued, Seq::<Command>::empty()),
        spec_main_menu(h, None, queued) == (RunState::MainMenu { highlighted: h }, queued, Seq::<Command>::empty()),
        spec_debug_menu(h, None, queued) == (RunState::DebugMenu { highlighted: h }, queued, Seq::<Command>::empty()),
        !spec_runs_systems(RunState::InventoryMenu { highlighted: h }),
        !spec_runs_systems(RunState::DropItemMenu { highlighted: h }),
        !spec_runs_systems(RunState::ExitGameMenu { highlighted: h }),
        !spec_runs_systems(RunState::ItemUseTargeting { range, item }),
        !spec_runs_systems(RunState::InteractMenu { highlighted: h, target }),
        !spec_runs_systems(RunState::InteractiveEntityTargeting { target_idx: idx }),
        !spec_runs_systems(RunState::InteractionTypeEntityTargeting { target_idx: idx, targets: typed_targets, intent, cta }),
        !spec_runs_systems(RunState::OpenContainerMenu { highlighted: h, container: target }),
        !spec_runs_systems(RunState::ActionMenu { highlighted: h }),
        !spec_runs_systems(RunState::EquipMenu { highlighted: h, position }),
        !spec_runs_systems(RunState::EquipmentMenu { highlighted: h, action_highlighted: ah, action_menu: am }),
        !spec_runs_systems(text_screen),
        !spec_runs_systems(RunState::SetKey { action, highlighted: h }),
        !spec_runs_systems(RunState::OptionsScreen { highlighted: h }),
        !spec_runs_systems(RunState::MainMenu { highlighted: h }),
        !spec_runs_systems(RunState::DebugMenu { highlighted: h }),
{
}

/// Every frame's plan runs the move and melee systems, and when the monsters think they do so
/// before those two: the move and attack intents issued in a frame are used up within it.
#[verifier::spinoff_prover]
pub proof fn law_intents_used_up_each_frame(s: RunState)
    ensures
        spec_system_plan(s).contains(SystemId::Move),
        spec_system_plan(s).contains(SystemId::MeleeCombat),
        forall|i: int, j: int| 0 <= i < spec_system_plan(s).len() && 0 <= j < spec_system_plan(s).len()
            && spec_system_plan(s)[i] == SystemId::MonsterAI
            && (spec_system_plan(s)[j] == SystemId::Move || spec_system_plan(s)[j] == SystemId::MeleeCombat)
            ==> i < j,
        forall|i: int| 0 <= i < spec_system_plan(s).len() && spec_system_plan(s)[i] == SystemId::MonsterAI
            ==> spec_system_plan(s).subrange(i + 1, spec_system_plan(s).len() as int).contains(SystemId::Move)
                && spec_system_plan(s).subrange(i + 1, spec_system_plan(s).len() as int).contains(SystemId::MeleeCombat),
{
    let p = spec_system_plan(s);
    let turn = s is PlayerTurn || s is MonsterTurn;
    let a = seq![SystemId::UpdateParticleEffects, SystemId::RemoveParticleEffects]
        + crate::schedule::when(s is PreRun || turn, seq![SystemId::Equip, SystemId::Light, SystemId::Visibility, SystemId::UpdateMemories]);
    let b = crate::schedule::when(s is MonsterTurn, seq![SystemId::MonsterAI]);
    let c = seq![SystemId::Move, SystemId::GoUpStairs, SystemId::GoDownStairs, SystemId::MapIndexing, SystemId::MeleeCombat, SystemId::Trigger];
    let rest = p.subrange((a.len() + b.len() + c.len()) as int, p.len() as int);
    assert(p == a + b + c + rest);
    assert(p[(a.len() + b.len()) as int] == SystemId::Move);
    assert(p[(a.len() + b.len() + 4) as int] == SystemId::MeleeCombat);
    assert forall|i: int| 0 <= i < p.len() && p[i] == SystemId::MonsterAI implies i == a.len() && b.len() == 1 by {
        if i < a.len() {
            assert(p[i] == a[i]);
        } else if i < a.len() + b.len() {
        } else if i < a.len() + b.len() + c.len() {
            assert(p[i] == c[i - a.len() - b.len()]);
        } else {
            assert(p[i] == rest[i - a.len() - b.len() - c.len()]);
            assert(!rest.contains(SystemId::MonsterAI)) by {
                assert(rest == p.subrange((a.len() + b.len() + c.len()) as int, p.len() as int));
                if rest.contains(SystemId::MonsterAI) {
                    let k = choose|k: int| 0 <= k < rest.len() && rest[k] == SystemId::MonsterAI;
                    assert(rest[k] == SystemId::MonsterAI);
                }
            }
        }
    }
    assert forall|i: int, j: int| 0 <= i < p.len() && 0 <= j < p.len() && p[i] == SystemId::MonsterAI
        && (p[j] == SystemId::Move || p[j] == SystemId::MeleeCombat) implies i < j by {
        if j < a.len() {
            assert(p[j] == a[j]);
        }
    }
    assert forall|i: int| 0 <= i < p.len() && p[i] == SystemId::MonsterAI implies
        p.subrange(i + 1, p.len() as int).contains(SystemId::Move)
            && p.subrange(i + 1, p.len() as int).contains(SystemId::MeleeCombat) by {
        let q = p.subrange(i + 1, p.len() as int);
        assert(q[0] == SystemId::Move);
        assert(q[4] == SystemId::MeleeCombat);
    }
}

/// Whether entity `e` is among the first `k` entities looked at.
pub open spec fn looked_at(cands: Seq<Entity>, k: int, e: int) -> bool {
    exists|j: int| 0 <= j < k && cands[j] as int == e
}

/// Spotting hidden things only ever adds the player as a finder, and only of entities the
/// player looked at: after the looks at `cands[0..k]`, every finder list still holds what it held
/// and nothing but the player besides, and an entity not looked at keeps its list.
pub proof fn law_spotting_only_adds_the_player(
    names: Seq<Option<Name>>,
    player: Entity,
    v: RevealView,
    cands: Seq<Entity>,
    rolls: Seq<i32>,
    k: int,
)
    requires
        0 <= k <= cands.len(),
        k <= rolls.len(),
    ensures
        reveal_fold(names, player, v, cands, rolls, k).found.len() == v.found.len(),
        forall|e: int| 0 <= e < v.found.len() ==> {
            let after = #[trigger] reveal_fold(names, player, v, cands, rolls, k).found[e];
            &&& (v.found[e] is Some <==> after is Some)
            &&& (v.found[e] is Some ==> {
                &&& forall|x: Entity| v.found[e]->0.contains(x) ==> after->0.contains(x)
                &&& forall|x: Entity| after->0.contains(x) ==> v.found[e]->0.contains(x) || x == player
            })
            &&& (!looked_at(cands, k, e) ==> after == v.found[e])
        },
    decreases k,
{
    if k > 0 {
        law_spotting_only_adds_the_player(names, player, v, cands, rolls, k - 1);
        let w = reveal_fold(names, player, v, cands, rolls, k - 1);
        let c = cands[k - 1] as int;
        let after = reveal_fold(names, player, v, cands, rolls, k);
        assert(after == reveal_step(names, player, w, c, rolls[k - 1]));
        assert forall|e: int| 0 <= e < v.found.len() implies {
            let a = #[trigger] reveal_fold(names, player, v, cands, rolls, k).found[e];
            &&& (v.found[e] is Some <==> a is Some)
            &&& (v.found[e] is Some ==> {
                &&& forall|x: Entity| v.found[e]->0.contains(x) ==> a->0.contains(x)
                &&& forall|x: Entity| a->0.contains(x) ==> v.found[e]->0.contains(x) || x == player
            })
            &&& (!looked_at(cands, k, e) ==> a == v.found[e])
        } by {
            let before = reveal_fold(names, player, v, cands, rolls, k - 1).found[e];
            assert(w.found[e] == before);
            if !looked_at(cands, k, e) {
                assert(!looked_at(cands, k - 1, e)) by {
                    if looked_at(cands, k - 1, e) {
                        let j = choose|j: int| 0 <= j < k - 1 && cands[j] as int == e;
                        assert(0 <= j < k && cands[j] as int == e);
                    }
                }
                assert(c != e) by {
                    if c == e {
                        assert(0 <= k - 1 < k && cands[k - 1] as int == e);
                    }
                }
                assert(after.found[e] == before);
            }
            if e == c && after.found[e] != before {
                let list = before->0;
                assert(after.found[e] == Some(list.push(player)));
                assert forall|x: Entity| list.contains(x) implies list.push(player).contains(x) by {
                    let j = choose|j: int| 0 <= j < list.len() && list[j] == x;
                    assert(list.push(player)[j] == x);
                }
                assert forall|x: Entity| list.push(player).contains(x) implies list.contains(x) || x == player by {
                    let j = choose|j: int| 0 <= j < list.len() + 1 && list.push(player)[j] == x;
                    if j < list.len() {
                        assert(list[j] == x);
                    }
                }
            } else {
                assert(after.found[e] == before);
            }
            let a = after.found[e];
            assert(v.found[e] is Some <==> a is Some);
            if v.found[e] is Some {
                assert forall|x: Entity| v.found[e]->0.contains(x) implies a->0.contains(x) by {
                    assert(before->0.contains(x));
                    if e == c && a != before {
                        let list = before->0;
                        let j = choose|j: int| 0 <= j < list.len() && list[j] == x;
                        assert(list.push(player)[j] == x);
                    }
                }
                assert forall|x: Entity| a->0.contains(x) implies v.found[e]->0.contains(x) || x == player by {
                    if e == c && a != before {
                        let list = before->0;
                        let j = choose|j: int| 0 <= j < list.len() + 1 && list.push(player)[j] == x;
                        if j < list.len() {
                            assert(list[j] == x);
                            assert(list.contains(x));
                        }
                    } else {
                        assert(before->0.contains(x));
                    }
                }
            }
        }
    }
}

/// The memory cull keeps exactly what a memory holds about existing entities: every sighting
/// left is of an existing enemy and every hiding spot left has its enemy and its spot existing;
/// every such entry of the memory is kept; nothing new appears; and the wandering goal stays.
pub proof fn law_cull_keeps_exactly_the_living(alive_set: Seq<bool>, m: MemoryView)
    ensures
        ({
            let c = culled(alive_set, m);
            &&& forall|p: (Entity, Position)| #[trigger] c.last_known_enemy_positions.contains(p)
                <==> (m.last_known_enemy_positions.contains(p) && alive(alive_set, p.0 as int))
            &&& forall|p: (Entity, Entity)| #[trigger] c.known_enemy_hiding_spots.contains(p)
                <==> (m.known_enemy_hiding_spots.contains(p) && alive(alive_set, p.0 as int) && alive(alive_set, p.1 as int))
            &&& c.wander_destination == m.wander_destination
        }),
{
    broadcast use vstd::seq_lib::group_filter_ensures;
    let f1 = |p: (Entity, Position)| alive(alive_set, p.0 as int);
    let f2 = |p: (Entity, Entity)| alive(alive_set, p.0 as int) && alive(alive_set, p.1 as int);
    let c = culled(alive_set, m);
    assert forall|p: (Entity, Position)| #[trigger] c.last_known_enemy_positions.contains(p)
        <==> (m.last_known_enemy_positions.contains(p) && alive(alive_set, p.0 as int)) by {
        let s = m.last_known_enemy_positions;
        if s.filter(f1).contains(p) {
            s.lemma_filter_contains_rev(f1, p);
            let j = choose|j: int| 0 <= j < s.filter(f1).len() && s.filter(f1)[j] == p;
            assert(f1(s.filter(f1)[j]));
        }
        if s.contains(p) && alive(alive_set, p.0 as int) {
            let j = choose|j: int| 0 <= j < s.len() && s[j] == p;
            s.lemma_filter_contains(f1, j);
        }
    }
    assert forall|p: (Entity, Entity)| #[trigger] c.known_enemy_hiding_spots.contains(p)
        <==> (m.known_enemy_hiding_spots.contains(p) && alive(alive_set, p.0 as int) && alive(alive_set, p.1 as int)) by {
        let s = m.known_enemy_hiding_spots;
        if s.filter(f2).contains(p) {
            s.lemma_filter_contains_rev(f2, p);
            let j = choose|j: int| 0 <= j < s.filter(f2).len() && s.filter(f2)[j] == p;
            assert(f2(s.filter(f2)[j]));
        }
        if s.contains(p) && f2(p) {
            let j = choose|j: int| 0 <= j < s.len() && s[j] == p;
            s.lemma_filter_contains(f2, j);
        }
    }
}

/// The line the log gets when the player spots entity `e`.
pub open spec fn spot_line(names: Seq<Option<Name>>, e: int) -> Seq<char> {
    "You spotted a "@ + comp(names, e).name@ + "."@
}

/// Whether entity `e` has a name and is hidden with the player among its finders in `after` but
/// not in `before`.
pub open spec fn newly_spotted(
    names: Seq<Option<Name>>,
    player: Entity,
    before: Seq<Option<Seq<Entity>>>,
    after: Seq<Option<Seq<Entity>>>,
    e: int,
) -> bool {
    &&& 0 <= e < before.len()
    &&& e < after.len()
    &&& before[e] is Some
    &&& !before[e]->0.contains(player)
    &&& after[e] is Some
    &&& after[e]->0.contains(player)
    &&& present(names, e)
}

/// How many of the entities `0..n` are newly spotted between `before` and `after`.
pub open spec fn spotted_count(
    names: Seq<Option<Name>>,
    player: Entity,
    before: Seq<Option<Seq<Entity>>>,
    after: Seq<Option<Seq<Entity>>>,
    n: int,
) -> nat
    decreases n,
{
    if n <= 0 {
        0
    } else {
        spotted_count(names, player, before, after, n - 1)
            + (if newly_spotted(names, player, before, after, n - 1) { 1nat } else { 0nat })
    }
}

/// Whether line `i` of `lines` is the spotting line of an entity newly spotted between `v` and `a`.
pub open spec fn line_of_newly(names: Seq<Option<Name>>, player: Entity, v: RevealView, a: RevealView, lines: Seq<Seq<char>>, i: int) -> bool {
    exists|e: int| #[trigger] newly_spotted(names, player, v.found, a.found, e) && lines[i] == spot_line(names, e)
}

/// Whether the log of `a` is `lines` on top of the log of `v`, with one line for each entity
/// newly spotted between them that has a name: as many lines as such entities, each the spotting
/// line of one of them, and each of them with its line.
pub open spec fn spotting_lines(names: Seq<Option<Name>>, player: Entity, v: RevealView, a: RevealView, lines: Seq<Seq<char>>) -> bool {
    &&& a.log == lines + v.log
    &&& lines.len() == spotted_count(names, player, v.found, a.found, v.found.len() as int)
    &&& forall|i: int| 0 <= i < lines.len() ==> #[trigger] line_of_newly(names, player, v, a, lines, i)
    &&& forall|e: int| #[trigger] newly_spotted(names, player, v.found, a.found, e)
        ==> lines.contains(spot_line(names, e))
}

/// Whether one of the looks at `cands[0..k]` rolls a one on an entity that is hidden in `v`.
pub open spec fn spotting_hit(v: RevealView, cands: Seq<Entity>, rolls: Seq<i32>, k: int) -> bool {
    exists|j: int| 0 <= j < k && (cands[j] as int) < v.found.len() && v.found[cands[j] as int] is Some
        && #[trigger] rolls[j] == 1
}

proof fn lemma_spotted_count_flip(
    names: Seq<Option<Name>>,
    player: Entity,
    before: Seq<Option<Seq<Entity>>>,
    f1: Seq<Option<Seq<Entity>>>,
    f2: Seq<Option<Seq<Entity>>>,
    e0: int,
    n: int,
)
    requires
        forall|e: int| e != e0 ==> #[trigger] newly_spotted(names, player, before, f1, e)
            == newly_spotted(names, player, before, f2, e),
        !newly_spotted(names, player, before, f1, e0),
    ensures
        spotted_count(names, player, before, f2, n) == spotted_count(names, player, before, f1, n)
            + (if 0 <= e0 < n && newly_spotted(names, player, before, f2, e0) { 1int } else { 0int }),
    decreases n,
{
    if n > 0 {
        lemma_spotted_count_flip(names, player, before, f1, f2, e0, n - 1);
        assert(n - 1 != e0 ==> newly_spotted(names, player, before, f1, n - 1) == newly_spotted(names, player, before, f2, n - 1));
    }
}

proof fn lemma_spotted_count_none(names: Seq<Option<Name>>, player: Entity, f: Seq<Option<Seq<Entity>>>, n: int)
    ensures
        spotted_count(names, player, f, f, n) == 0,
    decreases n,
{
    if n > 0 {
        lemma_spotted_count_none(names, player, f, n - 1);
    }
}

/// Searching cancels the queued action exactly when some look rolls a one on a hidden entity,
/// and the log gains one line per entity the player newly finds that has a name, and nothing
/// else: after the looks at `cands[0..k]`, the log is some lines on top of the old log, as many
/// as such entities, each the spotting line of one of them, and each of them has its line.
pub proof fn law_spotting_logs_and_cancels(
    names: Seq<Option<Name>>,
    player: Entity,
    v: RevealView,
    cands: Seq<Entity>,
    rolls: Seq<i32>,
    k: int,
)
    requires
        0 <= k <= cands.len(),
        k <= rolls.len(),
    ensures
        ({
            let a = reveal_fold(names, player, v, cands, rolls, k);
            &&& a.queued_action == (if spotting_hit(v, cands, rolls, k) { None } else { v.queued_action })
            &&& exists|lines: Seq<Seq<char>>| #[trigger] spotting_lines(names, player, v, a, lines)
        }),
    decreases k,
{
    let a = reveal_fold(names, player, v, cands, rolls, k);
    if k == 0 {
        lemma_spotted_count_none(names, player, v.found, v.found.len() as int);
        let lines = Seq::<Seq<char>>::empty();
        assert(a.log =~= lines + v.log);
        assert(!spotting_hit(v, cands, rolls, k));
        assert forall|e: int| #[trigger] newly_spotted(names, player, v.found, a.found, e)
            implies lines.contains(spot_line(names, e)) by {}
        assert(spotting_lines(names, player, v, a, lines));
    } else {
        law_spotting_logs_and_cancels(names, player, v, cands, rolls, k - 1);
        law_spotting_only_adds_the_player(names, player, v, cands, rolls, k - 1);
        let w = reveal_fold(names, player, v, cands, rolls, k - 1);
        let lw = choose|lines: Seq<Seq<char>>| #[trigger] spotting_lines(names, player, v, w, lines);
        assert(spotting_lines(names, player, v, w, lw));
        let c = cands[k - 1] as int;
        let roll = rolls[k - 1];
        assert(a == reveal_step(names, player, w, c, roll));
        let fires = 0 <= c < w.found.len() && w.found[c] is Some && roll == 1;
        if 0 <= c < w.found.len() {
            let _ = w.found[c];
            assert(v.found[c] is Some <==> w.found[c] is Some);
        }
        // the queued action
        if fires {
            assert(spotting_hit(v, cands, rolls, k)) by {
                assert(0 <= k - 1 < k && (cands[k - 1] as int) < v.found.len() && v.found[cands[k - 1] as int] is Some && rolls[k - 1] == 1);
            }
        } else {
            assert(spotting_hit(v, cands, rolls, k) == spotting_hit(v, cands, rolls, k - 1)) by {
                if spotting_hit(v, cands, rolls, k) {
                    let j = choose|j: int| 0 <= j < k && (cands[j] as int) < v.found.len() && v.found[cands[j] as int] is Some
                        && #[trigger] rolls[j] == 1;
                    if j == k - 1 {
                        let _ = w.found[c];
                        assert(false);
                    }
                    assert(spotting_hit(v, cands, rolls, k - 1));
                }
                if spotting_hit(v, cands, rolls, k - 1) {
                    let j = choose|j: int| 0 <= j < k - 1 && (cands[j] as int) < v.found.len() && v.found[cands[j] as int] is Some
                        && #[trigger] rolls[j] == 1;
                    assert(0 <= j < k && rolls[j] == 1);
                }
            }
        }
        // the log
        if fires && !w.found[c]->0.contains(player) {
            let pushed = w.found[c]->0.push(player);
            assert(a.found == w.found.update(c, Some(pushed)));
            assert(pushed[pushed.len() - 1] == player);
            assert(!v.found[c]->0.contains(player)) by {
                if v.found[c]->0.contains(player) {
                    let _ = reveal_fold(names, player, v, cands, rolls, k - 1).found[c];
                }
            }
            assert forall|e: int| e != c implies #[trigger] newly_spotted(names, player, v.found, w.found, e)
                == newly_spotted(names, player, v.found, a.found, e) by {
                if 0 <= e < a.found.len() {
                    assert(a.found[e] == w.found[e]);
                }
            }
            assert(!newly_spotted(names, player, v.found, w.found, c));
            lemma_spotted_count_flip(names, player, v.found, w.found, a.found, c, v.found.len() as int);
            if present(names, c) {
                assert(newly_spotted(names, player, v.found, a.found, c));
                let lines = seq![spot_line(names, c)] + lw;
                assert(a.log == seq![spot_line(names, c)] + w.log);
                assert(a.log =~= lines + v.log);
                assert forall|i: int| 0 <= i < lines.len() implies #[trigger] line_of_newly(names, player, v, a, lines, i) by {
                    if i == 0 {
                        assert(newly_spotted(names, player, v.found, a.found, c) && lines[0] == spot_line(names, c));
                    } else {
                        assert(lines[i] == lw[i - 1]);
                        assert(line_of_newly(names, player, v, w, lw, i - 1));
                        let e = choose|e: int| #[trigger] newly_spotted(names, player, v.found, w.found, e) && lw[i - 1] == spot_line(names, e);
                        assert(e != c);
                        assert(newly_spotted(names, player, v.found, a.found, e));
                    }
                }
                assert forall|e: int| #[trigger] newly_spotted(names, player, v.found, a.found, e)
                    implies lines.contains(spot_line(names, e)) by {
                    if e == c {
                        assert(lines[0] == spot_line(names, c));
                    } else {
                        assert(newly_spotted(names, player, v.found, w.found, e));
                        assert(lw.contains(spot_line(names, e)));
                        let j = choose|j: int| 0 <= j < lw.len() && lw[j] == spot_line(names, e);
                        assert(lines[j + 1] == lw[j]);
                    }
                }
                assert(spotting_lines(names, player, v, a, lines));
            } else {
                assert(!newly_spotted(names, player, v.found, a.found, c));
                assert(a.log == w.log);
                assert forall|i: int| 0 <= i < lw.len() implies #[trigger] line_of_newly(names, player, v, a, lw, i) by {
                    assert(line_of_newly(names, player, v, w, lw, i));
                    assert(line_of_newly(names, player, v, w, lw, i));
                let e = choose|e: int| #[trigger] newly_spotted(names, player, v.found, w.found, e) && lw[i] == spot_line(names, e);
                    assert(e != c);
                    assert(newly_spotted(names, player, v.found, a.found, e));
                }
                assert forall|e: int| #[trigger] newly_spotted(names, player, v.found, a.found, e)
                    implies lw.contains(spot_line(names, e)) by {
                    assert(e != c);
                    assert(newly_spotted(names, player, v.found, w.found, e));
                }
                assert(spotting_lines(names, player, v, a, lw));
            }
        } else {
            assert(a.found == w.found);
            assert(a.log == w.log);
            assert(a.log == lw + v.log);
            assert(lw.len() == spotted_count(names, player, v.found, a.found, v.found.len() as int));
            assert forall|i: int| 0 <= i < lw.len() implies #[trigger] line_of_newly(names, player, v, a, lw, i) by {
                assert(line_of_newly(names, player, v, w, lw, i));
                let e = choose|e: int| #[trigger] newly_spotted(names, player, v.found, w.found, e) && lw[i] == spot_line(names, e);
                assert(newly_spotted(names, player, v.found, a.found, e));
            }
            assert(spotting_lines(names, player, v, a, lw));
        }
    }
}

/// The memory cull keeps a memory's invariant: a memory with at most one entry per enemy in
/// each table still has at most one after the cull.
pub proof fn law_cull_keeps_memory_wf(alive_set: Seq<bool>, m: MemoryView)
    requires
        memory_wf(m),
    ensures
        memory_wf(culled(alive_set, m)),
{
    lemma_filter_keys_unique(m.last_known_enemy_positions, |p: (Entity, Position)| alive(alive_set, p.0 as int));
    lemma_filter_keys_unique(m.known_enemy_hiding_spots, |p: (Entity, Entity)| alive(alive_set, p.0 as int) && alive(alive_set, p.1 as int));
}

proof fn lemma_no_intents_later(plan: Seq<SystemId>, states: Seq<IntentStores>, k: int, moves: bool)
    requires
        0 <= k <= plan.len(),
        states.len() == plan.len() + 1,
        forall|i: int| 0 <= i < plan.len() ==> intent_step(#[trigger] plan[i], states[i], states[i + 1]),
        forall|j: int| k <= j < plan.len() ==> #[trigger] plan[j] != SystemId::MonsterAI,
        moves ==> forall|e: int| !#[trigger] present(states[k].moves, e),
        !moves ==> forall|e: int| !#[trigger] present(states[k].melee, e),
    ensures
        moves ==> forall|e: int| !#[trigger] present(states[plan.len() as int].moves, e),
        !moves ==> forall|e: int| !#[trigger] present(states[plan.len() as int].melee, e),
    decreases plan.len() - k,
{
    if k < plan.len() {
        assert(intent_step(plan[k], states[k], states[k + 1]));
        assert(plan[k] != SystemId::MonsterAI);
        lemma_no_intents_later(plan, states, k + 1, moves);
    }
}

/// A frame uses up every move and attack intent: whatever intents there are when a frame of
/// state `s` starts, or the monster AI issues during it, when each system of the frame's plan
/// does to them what its contract states (`intent_step`), none is left at the end.
pub proof fn law_frame_uses_up_intents(s: RunState, states: Seq<IntentStores>)
    requires
        states.len() == spec_system_plan(s).len() + 1,
        forall|i: int| 0 <= i < spec_system_plan(s).len()
            ==> intent_step(#[trigger] spec_system_plan(s)[i], states[i], states[i + 1]),
    ensures
        forall|e: int| !#[trigger] present(states[states.len() - 1].moves, e),
        forall|e: int| !#[trigger] present(states[states.len() - 1].melee, e),
{
    let p = spec_system_plan(s);
    law_intents_used_up_each_frame(s);
    let turn = s is PlayerTurn || s is MonsterTurn;
    let a = seq![SystemId::UpdateParticleEffects, SystemId::RemoveParticleEffects]
        + crate::schedule::when(s is PreRun || turn, seq![SystemId::Equip, SystemId::Light, SystemId::Visibility, SystemId::UpdateMemories]);
    let b = crate::schedule::when(s is MonsterTurn, seq![SystemId::MonsterAI]);
    let c = seq![SystemId::Move, SystemId::GoUpStairs, SystemId::GoDownStairs, SystemId::MapIndexing, SystemId::MeleeCombat, SystemId::Trigger];
    let rest = p.subrange((a.len() + b.len() + c.len()) as int, p.len() as int);
    assert(p == a + b + c + rest);
    let m: int = (a.len() + b.len()) as int;
    assert(p[m] == SystemId::Move);
    assert(p[m + 4] == SystemId::MeleeCombat);
    assert forall|j: int| m + 1 <= j < p.len() implies #[trigger] p[j] != SystemId::MonsterAI by {
        if p[j] == SystemId::MonsterAI {
            assert(p[m] == SystemId::Move);
        }
    }
    assert(intent_step(p[m], states[m], states[m + 1]));
    lemma_no_intents_later(p, states, m + 1, true);
    assert(intent_step(p[m + 4], states[m + 4], states[m + 5]));
    lemma_no_intents_later(p, states, m + 5, false);
}

} // verus!
