use apprentice::components::{EquipmentPositions, Position, Ranged};
use apprentice::interaction::InteractionType;
use apprentice::run_state::{
    action_menu_targeting, equipment_submenu, handle_default_move, interaction_idx, intent_to_interaction_type,
    map_action_need, map_actions, on_action_menu, on_backpack_menu, on_container_menu, on_countdown, on_debug_menu,
    on_equip_menu, on_equipment_menu, on_exit_game_menu, on_idle, on_interact_menu, on_interactive_targeting,
    on_item_targeting, on_main_menu, on_map_action, on_options, on_set_key, on_static_screen, on_turn, on_typed_targeting,
    runs_systems, select_next_idx, select_previous_idx, BackpackMenu, CallToAction, Command, EquipMenuType,
    InteractionTargetingAction, KeyPress, MapAction, MapFact, MapNeed, Menu, MenuAction, Notice, PathOutcome, RunState,
    StaticAction, TargetIntent, TargetKind, TargetingAction,
};
use apprentice::schedule::{system_plan, SystemId};

fn is_home(s: &RunState) -> bool {
    matches!(s, RunState::AwaitingInput { offset_x: 0, offset_y: 0 })
}

#[test]
fn systems_run_on_the_map_and_during_turns() {
    assert!(runs_systems(&RunState::PreRun));
    assert!(runs_systems(&RunState::AwaitingInput { offset_x: 3, offset_y: 1 }));
    assert!(runs_systems(&RunState::PlayerTurn));
    assert!(runs_systems(&RunState::MonsterTurn));
    assert!(!runs_systems(&RunState::MainMenu { highlighted: 0 }));
    assert!(!runs_systems(&RunState::InventoryMenu { highlighted: 0 }));
}

#[test]
fn turns_alternate_and_death_ends_the_game() {
    let t = on_turn(&RunState::PreRun, 10, None);
    assert!(is_home(&t.next));
    let t = on_turn(&RunState::PlayerTurn, 10, None);
    assert!(matches!(t.next, RunState::MonsterTurn));
    let t = on_turn(&RunState::MonsterTurn, 10, None);
    assert!(is_home(&t.next));
    assert!(t.commands.is_empty());
    let t = on_turn(&RunState::MonsterTurn, 0, None);
    assert!(matches!(t.next, RunState::DeathScreen));
    assert!(matches!(t.commands[..], [Command::DeleteSave]));
}

#[test]
fn map_keys_open_menus_and_scroll() {
    let t = on_map_action(0, 0, MapAction::ShowInventoryMenu, MapFact::Nothing);
    assert!(matches!(t.next, RunState::InventoryMenu { highlighted: 0 }));
    let t = on_map_action(0, 0, MapAction::Exit, MapFact::Nothing);
    assert!(matches!(t.next, RunState::SavingScreen { count_down: 15 }));
    let t = on_map_action(2, 3, MapAction::ScrollDown, MapFact::Nothing);
    assert!(matches!(t.next, RunState::AwaitingInput { offset_x: 2, offset_y: 4 }));
    let t = on_map_action(2, 3, MapAction::ScrollLeft, MapFact::Nothing);
    assert!(matches!(t.next, RunState::AwaitingInput { offset_x: 1, offset_y: 3 }));
    let t = on_map_action(0, 0, MapAction::SearchHidden, MapFact::Nothing);
    assert!(matches!(t.next, RunState::PlayerTurn));
    assert!(matches!(t.commands[..], [Command::SearchHidden]));
    assert!(t.queued.is_none());
}

#[test]
fn leaving_needs_the_exit() {
    assert_eq!(map_action_need(MapAction::LeaveDungeon), MapNeed::CanLeave);
    let t = on_map_action(1, 1, MapAction::LeaveDungeon, MapFact::CanLeave(true));
    assert!(matches!(t.next, RunState::ExitGameMenu { highlighted: 0 }));
    let t = on_map_action(1, 1, MapAction::LeaveDungeon, MapFact::CanLeave(false));
    assert!(matches!(t.next, RunState::AwaitingInput { offset_x: 1, offset_y: 1 }));
    assert!(matches!(t.commands[..], [Command::Log(Notice::MustFindExit)]));
}

#[test]
fn targeting_keys_list_their_targets() {
    assert_eq!(map_action_need(MapAction::GrabFurniture), MapNeed::Targets(TargetKind::Grabbable));
    assert_eq!(map_action_need(MapAction::OpenDoor), MapNeed::Targets(TargetKind::OpenableDoor));
    let t = on_map_action(0, 0, MapAction::Attack, MapFact::Targets(vec![4, 9]));
    match t.next {
        RunState::InteractionTypeEntityTargeting { target_idx, targets, intent, cta } => {
            assert_eq!(target_idx, 0);
            assert_eq!(targets, vec![4, 9]);
            assert_eq!(intent, TargetIntent::Attack);
            assert_eq!(cta, Some(CallToAction::Attack));
        },
        _ => panic!("expected a targeting screen"),
    }
}

#[test]
fn moving_onto_things_acts_on_them() {
    assert_eq!(map_action_need(MapAction::MoveUpLeft), MapNeed::DefaultAction(-1, -1));
    let t = on_map_action(0, 0, MapAction::MoveLeft, MapFact::DefaultAction(InteractionType::Move(12)));
    assert!(matches!(t.next, RunState::PlayerTurn));
    assert!(matches!(t.commands[..], [Command::Interact(InteractionType::Move(12))]));
    let t = handle_default_move(InteractionType::OpenContainer(7), None);
    assert!(matches!(t.next, RunState::OpenContainerMenu { highlighted: 0, container: 7 }));
    let t = handle_default_move(InteractionType::Exit(30), None);
    assert!(matches!(t.next, RunState::ExitGameMenu { highlighted: 0 }));
}

#[test]
fn queued_actions_walk_then_act() {
    let q = Some(InteractionType::Attack(5));
    let t = on_idle(0, 0, q, Some(PathOutcome { success: true, steps: vec![10, 11, 12, 13] }));
    assert!(matches!(t.next, RunState::PlayerTurn));
    assert!(matches!(t.commands[..], [Command::MoveToPosition(11)]));
    assert_eq!(t.queued, q);
    let t = on_idle(0, 0, q, Some(PathOutcome { success: true, steps: vec![10, 11] }));
    assert!(matches!(t.commands[..], [Command::Interact(InteractionType::Attack(5))]));
    assert_eq!(t.queued, None);
    let t = on_idle(0, 0, Some(InteractionType::OpenContainer(3)), Some(PathOutcome { success: true, steps: vec![1] }));
    assert!(matches!(t.next, RunState::OpenContainerMenu { highlighted: 0, container: 3 }));
    let t = on_idle(4, 5, q, Some(PathOutcome { success: false, steps: vec![] }));
    assert!(matches!(t.next, RunState::AwaitingInput { offset_x: 4, offset_y: 5 }));
    assert_eq!(t.queued, None);
    let t = on_idle(4, 5, None, None);
    assert!(matches!(t.next, RunState::AwaitingInput { offset_x: 4, offset_y: 5 }));
}

#[test]
fn interactions_are_aimed_at_tiles() {
    let positions = vec![None, Some(Position { idx: 77, level: 2 })];
    assert_eq!(interaction_idx(InteractionType::Grab(1), &positions), 77);
    assert_eq!(interaction_idx(InteractionType::GoDown(12), &positions), 12);
}

#[test]
fn menus_go_round() {
    let m = Menu::new(3, 10);
    assert_eq!(m.get_next_index(0), 1);
    assert_eq!(m.get_next_index(2), 0);
    assert_eq!(m.get_previous_index(0), 2);
    assert_eq!(m.get_previous_index(2), 1);
    let big = Menu::new(25, 10);
    assert_eq!(big.page_count(), 2);
    assert_eq!(big.page_number_at_index(13), 1);
    assert_eq!(big.get_next_page_index(3), 10);
    assert_eq!(big.get_next_page_index(23), 23);
    assert_eq!(big.get_previous_page_index(13), 0);
    assert_eq!(big.get_previous_page_index(3), 3);
    assert_eq!(select_next_idx(1, 2), 0);
    assert_eq!(select_previous_idx(0, 2), 1);
    assert_eq!(select_next_idx(0, 0), 0);
}

#[test]
fn backpack_menus_use_aim_and_drop() {
    let items = vec![3, 4];
    let ranged = vec![None, None, None, None, Some(Ranged { range: 6 })];
    let t = on_backpack_menu(BackpackMenu::Use, 0, Some(MenuAction::Select), &items, &ranged, None);
    assert!(matches!(t.next, RunState::PlayerTurn));
    assert!(matches!(t.commands[..], [Command::UseItem { item: 3, target: None }]));
    let t = on_backpack_menu(BackpackMenu::Use, 1, Some(MenuAction::Select), &items, &ranged, None);
    assert!(matches!(t.next, RunState::ItemUseTargeting { range: 6, item: 4 }));
    let t = on_backpack_menu(BackpackMenu::Drop, 1, Some(MenuAction::Select), &items, &ranged, None);
    assert!(matches!(t.commands[..], [Command::DropItem(4)]));
    let t = on_backpack_menu(BackpackMenu::Drop, 1, Some(MenuAction::MoveHighlightNext), &items, &ranged, None);
    assert!(matches!(t.next, RunState::DropItemMenu { highlighted: 0 }));
    let t = on_backpack_menu(BackpackMenu::Use, 5, Some(MenuAction::Select), &items, &ranged, None);
    assert!(matches!(t.next, RunState::InventoryMenu { highlighted: 5 }));
    let t = on_backpack_menu(BackpackMenu::Use, 1, Some(MenuAction::Exit), &items, &ranged, None);
    assert!(is_home(&t.next));
}

#[test]
fn leaving_the_dungeon_ends_the_game() {
    let t = on_exit_game_menu(0, Some(MenuAction::Select), true, None);
    assert!(matches!(t.next, RunState::SuccessScreen));
    assert!(matches!(t.commands[..], [Command::DeleteSave]));
    let t = on_exit_game_menu(0, Some(MenuAction::Select), false, None);
    assert!(matches!(t.next, RunState::FailureScreen));
    let t = on_exit_game_menu(1, Some(MenuAction::Select), true, None);
    assert!(is_home(&t.next));
    let t = on_exit_game_menu(0, Some(MenuAction::MoveHighlightNext), true, None);
    assert!(matches!(t.next, RunState::ExitGameMenu { highlighted: 0 }));
}

#[test]
fn aiming_an_item_uses_it_on_the_target() {
    let t = on_item_targeting(6, 4, Some(120), Some(TargetingAction::Selected), None);
    assert!(matches!(t.commands[..], [Command::UseItem { item: 4, target: Some(120) }]));
    let t = on_item_targeting(6, 4, None, Some(TargetingAction::Selected), None);
    assert!(is_home(&t.next));
    let t = on_item_targeting(6, 4, Some(1), None, None);
    assert!(matches!(t.next, RunState::ItemUseTargeting { range: 6, item: 4 }));
}

#[test]
fn choosing_targets_queues_interactions() {
    let options = vec![InteractionType::Grab(8), InteractionType::Attack(8)];
    let t = on_interact_menu(1, 8, &options, Some(MenuAction::Select), None);
    assert!(is_home(&t.next));
    assert_eq!(t.queued, Some(InteractionType::Attack(8)));
    let t = on_interact_menu(1, 8, &options, Some(MenuAction::Exit), None);
    assert!(matches!(t.next, RunState::InteractiveEntityTargeting { target_idx: 0 }));
    let targets = vec![8, 9];
    let t = on_interactive_targeting(1, &targets, Some(InteractionTargetingAction::Selected), None);
    assert!(matches!(t.next, RunState::InteractMenu { highlighted: 0, target: 9 }));
    let t = on_interactive_targeting(1, &targets, Some(InteractionTargetingAction::Next), None);
    assert!(matches!(t.next, RunState::InteractiveEntityTargeting { target_idx: 0 }));
    let t = on_typed_targeting(1, vec![8, 9], TargetIntent::Douse, None, Some(InteractionTargetingAction::Selected), None);
    assert_eq!(t.queued, Some(InteractionType::Douse(9)));
    assert_eq!(intent_to_interaction_type(TargetIntent::HideIn, 3), InteractionType::HideIn(3));
}

#[test]
fn containers_give_up_their_items() {
    let t = on_container_menu(1, 6, vec![10, 11], Some(MenuAction::Select), None);
    assert!(matches!(t.commands[..], [Command::PickupItem { item: 11, container: 6 }]));
    let t = on_container_menu(0, 6, vec![10, 11], Some(MenuAction::SelectAll), None);
    match &t.commands[..] {
        [Command::PickupItems { items, container }] => {
            assert_eq!(items, &vec![10, 11]);
            assert_eq!(*container, 6);
        },
        _ => panic!("expected one pickup of every item"),
    }
}

#[test]
fn the_action_menu_leads_everywhere() {
    assert_eq!(action_menu_targeting(5), Some((TargetKind::Armable, TargetIntent::Disarm, CallToAction::Disarm)));
    assert_eq!(action_menu_targeting(3), None);
    let t = on_action_menu(3, Some(MenuAction::Select), None, None);
    assert!(matches!(t.commands[..], [Command::SearchHidden]));
    let t = on_action_menu(7, Some(MenuAction::Select), None, None);
    assert!(is_home(&t.next));
    assert!(matches!(t.commands[..], [Command::ReleaseEntity]));
    let t = on_action_menu(12, Some(MenuAction::Select), None, None);
    assert!(matches!(t.next, RunState::EquipmentMenu { highlighted: 0, action_highlighted: 0, action_menu: false }));
    let t = on_action_menu(12, Some(MenuAction::MoveHighlightNext), None, None);
    assert!(matches!(t.next, RunState::ActionMenu { highlighted: 0 }));
    let t = on_action_menu(11, Some(MenuAction::Select), Some(vec![2]), None);
    assert!(matches!(t.next, RunState::InteractionTypeEntityTargeting { intent: TargetIntent::Light, .. }));
}

#[test]
fn equipment_menus_exchange_light_and_douse() {
    let sub = equipment_submenu(EquipmentPositions::OffHand, Some(4), true, false);
    assert_eq!(sub, vec![EquipMenuType::Exchange(EquipmentPositions::OffHand), EquipMenuType::Light(4)]);
    let t = on_equipment_menu(1, 0, true, 2, &sub, Some(MenuAction::Select), None);
    assert!(matches!(t.next, RunState::EquipMenu { highlighted: 0, position: EquipmentPositions::OffHand }));
    let t = on_equipment_menu(1, 1, true, 2, &sub, Some(MenuAction::Select), None);
    assert!(matches!(t.commands[..], [Command::LightItem(4)]));
    let t = on_equipment_menu(1, 1, true, 2, &sub, Some(MenuAction::NextMenu), None);
    assert!(matches!(t.next, RunState::EquipmentMenu { highlighted: 1, action_highlighted: 1, action_menu: false }));
    let t = on_equipment_menu(0, 0, false, 2, &sub, Some(MenuAction::MoveHighlightNext), None);
    assert!(matches!(t.next, RunState::EquipmentMenu { highlighted: 1, action_highlighted: 0, action_menu: false }));
    let choices = vec![None, Some(9)];
    let t = on_equip_menu(1, EquipmentPositions::DominantHand, &choices, Some(MenuAction::Select), None);
    assert!(matches!(t.commands[..], [Command::EquipItem { choice: Some(9), position: EquipmentPositions::DominantHand }]));
    let t = on_equip_menu(1, EquipmentPositions::DominantHand, &choices, Some(MenuAction::MoveHighlightPrev), None);
    assert!(matches!(t.next, RunState::EquipMenu { highlighted: 0, .. }));
}

#[test]
fn screens_of_text_lead_on() {
    let t = on_static_screen(RunState::IntroScreen, Some(StaticAction::Continue), None);
    assert!(matches!(t.next, RunState::PreRun));
    let t = on_static_screen(RunState::IntroScreen, Some(StaticAction::Exit), None);
    assert!(matches!(t.next, RunState::MainMenu { highlighted: 0 }));
    let t = on_static_screen(RunState::SuccessScreen, Some(StaticAction::Exit), None);
    assert!(matches!(t.next, RunState::CreditsScreen));
    let t = on_static_screen(RunState::DeathScreen, None, None);
    assert!(matches!(t.next, RunState::DeathScreen));
}

#[test]
fn countdowns_finish_with_their_work() {
    let t = on_countdown(RunState::SavingScreen { count_down: 2 }, None);
    assert!(matches!(t.next, RunState::SavingScreen { count_down: 1 }));
    let t = on_countdown(RunState::SavingScreen { count_down: 0 }, None);
    assert!(matches!(t.commands[..], [Command::SaveGame]));
    let t = on_countdown(RunState::LoadingScreen { count_down: 0 }, None);
    assert!(is_home(&t.next));
    assert!(matches!(t.commands[..], [Command::LoadGame, Command::DeleteSave]));
    let t = on_countdown(RunState::NewGameScreen { count_down: 0 }, None);
    assert!(matches!(t.next, RunState::IntroScreen));
    assert!(matches!(t.commands[..], [Command::InitializeNewGame]));
}

#[test]
fn keys_are_rebound_from_the_options() {
    let acts = map_actions();
    assert_eq!(acts.len(), 30);
    assert_eq!(acts[0], MapAction::Exit);
    let t = on_options(2, Some(MenuAction::Select), None);
    assert!(matches!(t.next, RunState::SetKey { action: MapAction::ShowDropMenu, highlighted: 2 }));
    let t = on_options(2, Some(MenuAction::Delete), None);
    assert!(matches!(t.commands[..], [Command::UnbindKey(MapAction::ShowDropMenu)]));
    let t = on_options(29, Some(MenuAction::MoveHighlightNext), None);
    assert!(matches!(t.next, RunState::OptionsScreen { highlighted: 0 }));
    let t = on_options(0, Some(MenuAction::Exit), None);
    assert!(matches!(t.commands[..], [Command::SaveSettings]));
    let t = on_set_key(MapAction::Hide, 10, Some(KeyPress::Other), None);
    assert!(matches!(t.commands[..], [Command::UnbindKey(MapAction::Hide), Command::BindKey(MapAction::Hide)]));
    let t = on_set_key(MapAction::Hide, 10, Some(KeyPress::Modifier), None);
    assert!(matches!(t.next, RunState::SetKey { action: MapAction::Hide, highlighted: 10 }));
    let t = on_set_key(MapAction::Hide, 10, Some(KeyPress::Escape), None);
    assert!(matches!(t.next, RunState::OptionsScreen { highlighted: 10 }));
}

#[test]
fn main_and_debug_menus() {
    let t = on_main_menu(0, Some(MenuAction::Select), None);
    assert!(matches!(t.next, RunState::NewGameScreen { count_down: 15 }));
    let t = on_main_menu(1, Some(MenuAction::Select), None);
    assert!(matches!(t.next, RunState::LoadingScreen { count_down: 15 }));
    let t = on_main_menu(4, Some(MenuAction::Select), None);
    assert!(matches!(t.commands[..], [Command::Quit]));
    let t = on_main_menu(4, Some(MenuAction::MoveHighlightNext), None);
    assert!(matches!(t.next, RunState::MainMenu { highlighted: 0 }));
    let t = on_debug_menu(1, Some(MenuAction::Select), None);
    assert!(matches!(t.commands[..], [Command::RevealMap, Command::Log(Notice::MapRevealed)]));
}

#[test]
fn the_system_plan_follows_the_turn() {
    let home = system_plan(&RunState::AwaitingInput { offset_x: 0, offset_y: 0 });
    assert_eq!(home[0], SystemId::UpdateParticleEffects);
    assert_eq!(*home.last().unwrap(), SystemId::Maintain);
    assert!(!home.contains(&SystemId::Light));
    assert!(!home.contains(&SystemId::DeleteTheDead));
    let monsters = system_plan(&RunState::MonsterTurn);
    assert!(monsters.contains(&SystemId::MonsterAI));
    assert!(monsters.contains(&SystemId::FireSpread));
    assert!(!monsters.contains(&SystemId::RevealTraps));
    assert!(monsters.contains(&SystemId::DeleteTheDead));
    let player = system_plan(&RunState::PlayerTurn);
    assert!(player.contains(&SystemId::RevealTraps));
    assert!(!player.contains(&SystemId::MonsterAI));
    let pre = system_plan(&RunState::PreRun);
    assert!(pre.contains(&SystemId::Light));
    assert!(!pre.contains(&SystemId::Grab));
}
