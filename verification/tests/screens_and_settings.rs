use apprentice::interaction::InteractionType;
use apprentice::run_state::{InteractionTargetingAction, MapAction, Menu, MenuAction, StaticAction, TargetingAction};
use apprentice::screens::{
    credit_lines, get_menu_from_interaction_options, interact_target_cta, interaction_label, item_menu_layout,
    main_menu_options, map_action_label, menu_options, options_line, page_bounds, tool_tip_position, MenuOptionState,
    ScreenSetKey, UIHud, UIToolTip, UIToolTipPosition, ScreenMapItemMenu, item_menu_active_columns,
};
use apprentice::settings::{get_settings_dir, get_settings_filepath, ControlMap, ControlScheme, Settings};

#[test]
fn menus_highlight_one_entry() {
    let texts = vec!["a".to_string(), "b".to_string(), "c".to_string()];
    let options = menu_options(&texts, 1);
    assert_eq!(options.len(), 3);
    assert_eq!(options[1].text, "b");
    assert_eq!(options[1].state, MenuOptionState::Highlighted);
    assert_eq!(options[0].state, MenuOptionState::Normal);
    assert!(menu_options(&vec![], 0).is_empty());
}

#[test]
fn interaction_menus_use_labels() {
    assert_eq!(interaction_label(InteractionType::Pickup(3)), "Pick Up");
    assert_eq!(interaction_label(InteractionType::OpenDoor(3)), "Open Door");
    let menu = get_menu_from_interaction_options(0, &vec![InteractionType::Grab(1), InteractionType::Attack(1)]);
    assert_eq!(menu[0].text, "Grab");
    assert_eq!(menu[0].state, MenuOptionState::Highlighted);
    assert_eq!(menu[1].text, "Attack");
    assert_eq!(menu[1].state, MenuOptionState::Normal);
}

#[test]
fn pages_hold_their_entries() {
    let m = Menu { len: 12, page_size: 5 };
    assert_eq!(page_bounds(&m, 0), (0, 5));
    assert_eq!(page_bounds(&m, 7), (5, 10));
    assert_eq!(page_bounds(&m, 11), (10, 12));
}

#[test]
fn the_credits_list_the_makers() {
    let lines = credit_lines();
    assert_eq!(lines.len(), 7);
    assert_eq!(lines[0], (5, "Artwork By".to_string()));
    assert_eq!(lines[6], (13, "Tyler Vipond".to_string()));
}

#[test]
fn continue_is_disabled_without_a_save() {
    let without = main_menu_options(0, false);
    let texts: Vec<&str> = without.iter().map(|o| o.text.as_str()).collect();
    assert_eq!(texts, vec!["New Game", "Continue", "Options", "Credits", "Quit"]);
    assert_eq!(without[0].state, MenuOptionState::Highlighted);
    assert_eq!(without[1].state, MenuOptionState::Disabled);
    let with = main_menu_options(1, true);
    assert_eq!(with[1].state, MenuOptionState::Highlighted);
    assert_eq!(with[0].state, MenuOptionState::Normal);
}

#[test]
fn option_lines_are_fifty_wide() {
    let line = options_line("Move Up", "Up");
    assert_eq!(line.len(), 50);
    assert!(line.starts_with("Move Up "));
    assert!(line.ends_with(" Up"));
    assert_eq!(options_line("", ""), " ".repeat(50));
    assert_eq!(map_action_label(MapAction::SearchHidden), "Search Area");
    assert_eq!(ScreenSetKey::new(MapAction::MoveUp).prompt(), "Set key for Move Up. Escape to exit.");
}

#[test]
fn the_hud_reads_depth_and_health() {
    let hud = UIHud::new(3, 5, 30, vec!["a".to_string(); 6]);
    assert_eq!(hud.depth_text(), "Depth: 3");
    assert_eq!(hud.health_text(), "HP: 5 / 30");
    assert_eq!(hud.shown_message_count(), 4);
    assert_eq!(UIHud::new(0, -2, 30, vec![]).health_text(), "HP: -2 / 30");
    assert_eq!(UIHud::new(0, 1, 1, vec!["x".to_string()]).shown_message_count(), 1);
}

#[test]
fn tool_tips_open_away_from_the_edge() {
    assert_eq!(tool_tip_position(60), UIToolTipPosition::Left);
    assert_eq!(tool_tip_position(40), UIToolTipPosition::Right);
    let left = UIToolTip::new(60, 10, UIToolTipPosition::Left, vec![]);
    assert_eq!(left.layout(12), (45, 9, 58, "->"));
    let right = UIToolTip::new(10, 10, UIToolTipPosition::Right, vec![]);
    assert_eq!(right.layout(12), (13, 9, 11, "<-"));
}

#[test]
fn the_item_menu_is_laid_out_side_by_side() {
    let l = item_menu_layout(20, 6, 10, 3, 8);
    assert_eq!(l.description_width, 80 - 20 - 10 - 6 - 10);
    assert_eq!(l.height, 10);
    assert_eq!(l.y, 43 / 2 - 5);
    assert_eq!((l.menu_x, l.sub_menu_x, l.description_x), (5, 28, 41));
    assert_eq!(interact_target_cta(&None), "press escape to exit, left/right to cycle targets");
    assert_eq!(interact_target_cta(&Some("pick one".to_string())), "pick one");
}

#[test]
fn key_bindings_replace_and_unbind() {
    let mut m: ControlMap<MapAction> = ControlMap::new();
    m.insert(38, MapAction::MoveUp);
    m.insert(40, MapAction::MoveDown);
    assert_eq!(m.get_value(38), Some(MapAction::MoveUp));
    m.insert(38, MapAction::Attack);
    assert_eq!(m.get_value(38), Some(MapAction::Attack));
    assert_eq!(m.get_value(40), Some(MapAction::MoveDown));
    assert_eq!(m.get_value(41), None);
    assert_eq!(m.get_control_for_value(MapAction::MoveDown), Some(40));
    m.remove_by_value(MapAction::MoveDown);
    assert_eq!(m.get_value(40), None);
    assert_eq!(m.get_control_for_value(MapAction::MoveDown), None);
    assert_eq!(m.get_value(38), Some(MapAction::Attack));
}

fn scheme(up_key: u32) -> ControlScheme {
    let mut map = ControlMap::new();
    map.insert(up_key, MapAction::MoveUp);
    let mut menu = ControlMap::new();
    menu.insert(27, MenuAction::Exit);
    let horizontal_menu: ControlMap<MenuAction> = ControlMap::new();
    let interaction: ControlMap<InteractionTargetingAction> = ControlMap::new();
    let static_screen: ControlMap<StaticAction> = ControlMap::new();
    let targeting: ControlMap<TargetingAction> = ControlMap::new();
    ControlScheme { map, menu, horizontal_menu, interaction, static_screen, targeting }
}

#[test]
fn saved_bindings_win_over_the_defaults() {
    let s = Settings::load(Some(scheme(7)), scheme(38));
    assert_eq!(s.control_scheme.map.get_value(7), Some(MapAction::MoveUp));
    assert_eq!(s.save().map.get_value(38), None);
    let d = Settings::load(None, scheme(38));
    assert_eq!(d.control_scheme.map.get_value(38), Some(MapAction::MoveUp));
}

#[test]
fn settings_live_in_the_home_directory() {
    assert_eq!(get_settings_dir("/home/u"), "/home/u/Library/Application Support/apprentice");
    assert_eq!(get_settings_filepath("/tmp/s"), "/tmp/s/key-bindings.ron");
}

#[test]
fn the_item_menu_column_with_the_keys() {
    let s = |on: bool| ScreenMapItemMenu::new(Vec::new(), Vec::new(), on, String::new(), "Equip".to_string(), "Esc".to_string());
    assert_eq!(item_menu_active_columns(&s(false)), (true, false));
    assert_eq!(item_menu_active_columns(&s(true)), (false, true));
}
