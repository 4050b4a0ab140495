use vstd::prelude::*;
use crate::color::{Color, NamedColor};
use crate::components::{Hidden, Hiding, Name, Position};
use crate::constants::{MAP_HEIGHT, MAP_WIDTH, SCREEN_HEIGHT, SCREEN_PADDING, SCREEN_WIDTH};
use crate::damage::contains_entity;
use crate::ecs::{alive, comp, contains, get_ref, present, Entities, Entity};
use crate::glyphs::{cp437, to_cp437};
use crate::interaction::InteractionType;
use crate::level::{get_wall_tile, neighbours_fit, spec_wall_glyph, spec_wall_mask, Level, TileType};
use crate::render::seen_by_player;
use crate::run_state::{Menu, MapAction};
use crate::text::{append_decimal, join_text, spec_decimal};

verus! {

/// How a menu entry is shown.
#[derive(Clone, Copy, Debug, PartialEq, Eq, Structural)]
pub enum MenuOptionState {
    Normal,
    Highlighted,
    Disabled,
}

/// One entry of a menu.
pub struct MenuOption {
    pub text: String,
    pub state: MenuOptionState,
}

/// The state of entry `i` when `highlighted` is highlighted.
pub open spec fn spec_option_state(i: int, highlighted: int) -> MenuOptionState {
    if i == highlighted { MenuOptionState::Highlighted } else { MenuOptionState::Normal }
}

/// Menu entries with the given texts, entry `highlighted` highlighted.
pub fn menu_options(texts: &Vec<String>, highlighted: usize) -> (r: Vec<MenuOption>)
    ensures
        r@.len() == texts@.len(),
        forall|i: int| 0 <= i < r@.len() ==> (#[trigger] r@[i]).text@ == texts@[i]@ && r@[i].state == spec_option_state(i, highlighted as int),
{
    let mut r: Vec<MenuOption> = Vec::new();
    let mut i: usize = 0;
    while i < texts.len()
        invariant
            i <= texts@.len(),
            r@.len() == i,
            forall|j: int| 0 <= j < i ==> (#[trigger] r@[j]).text@ == texts@[j]@ && r@[j].state == spec_option_state(j, highlighted as int),
        decreases texts@.len() - i,
    {
        let state = if i == highlighted { MenuOptionState::Highlighted } else { MenuOptionState::Normal };
        let ghost before = r@;
        let text = texts[i].clone();
        r.push(MenuOption { text, state });
        proof {
            assert forall|j: int| 0 <= j < i + 1 implies (#[trigger] r@[j]).text@ == texts@[j]@ && r@[j].state == spec_option_state(j, highlighted as int) by {
                if j < i {
                    assert(r@[j] == before[j]);
                    assert(before[j].text@ == texts@[j]@);
                }
            }
        }
        i += 1;
    }
    r
}

/// The label of an interaction in the menu of what can be done to a target.
pub open spec fn spec_interaction_label(i: InteractionType) -> Seq<char> {
    match i {
        InteractionType::Disarm(_) => "Disarm"@,
        InteractionType::Arm(_) => "Arm"@,
        InteractionType::Douse(_) => "Douse"@,
        InteractionType::Light(_) => "Light"@,
        InteractionType::Grab(_) => "Grab"@,
        InteractionType::HideIn(_) => "Hide"@,
        InteractionType::Attack(_) => "Attack"@,
        InteractionType::Pickup(_) => "Pick Up"@,
        InteractionType::OpenContainer(_) => "Open"@,
        InteractionType::OpenDoor(_) => "Open Door"@,
        InteractionType::CloseDoor(_) => "Close Door"@,
        InteractionType::GoDown(_) => "Go Down"@,
        InteractionType::GoUp(_) => "Go Up"@,
        InteractionType::Exit(_) => "Exit"@,
        InteractionType::Move(_) => "Move"@,
    }
}

/// The label of an interaction.
pub fn interaction_label(i: InteractionType) -> (s: String)
    ensures
        s@ == spec_interaction_label(i),
{
    match i {
        InteractionType::Disarm(_) => String::from_str("Disarm"),
        InteractionType::Arm(_) => String::from_str("Arm"),
        InteractionType::Douse(_) => String::from_str("Douse"),
        InteractionType::Light(_) => String::from_str("Light"),
        InteractionType::Grab(_) => String::from_str("Grab"),
        InteractionType::HideIn(_) => String::from_str("Hide"),
        InteractionType::Attack(_) => String::from_str("Attack"),
        InteractionType::Pickup(_) => String::from_str("Pick Up"),
        InteractionType::OpenContainer(_) => String::from_str("Open"),
        InteractionType::OpenDoor(_) => String::from_str("Open Door"),
        InteractionType::CloseDoor(_) => String::from_str("Close Door"),
        InteractionType::GoDown(_) => String::from_str("Go Down"),
        InteractionType::GoUp(_) => String::from_str("Go Up"),
        InteractionType::Exit(_) => String::from_str("Exit"),
        InteractionType::Move(_) => String::from_str("Move"),
    }
}

/// The menu of what can be done to a target: one labelled entry per option, entry
/// `highlighted` highlighted.
pub fn get_menu_from_interaction_options(highlighted: usize, options: &Vec<InteractionType>) -> (r: Vec<MenuOption>)
    ensures
        r@.len() == options@.len(),
        forall|i: int| 0 <= i < r@.len() ==> (#[trigger] r@[i]).text@ == spec_interaction_label(options@[i])
            && r@[i].state == spec_option_state(i, highlighted as int),
{
    let mut r: Vec<MenuOption> = Vec::new();
    let mut i: usize = 0;
    while i < options.len()
        invariant
            i <= options@.len(),
            r@.len() == i,
            forall|j: int| 0 <= j < i ==> (#[trigger] r@[j]).text@ == spec_interaction_label(options@[j])
                && r@[j].state == spec_option_state(j, highlighted as int),
        decreases options@.len() - i,
    {
        let state = if i == highlighted { MenuOptionState::Highlighted } else { MenuOptionState::Normal };
        let ghost before = r@;
        r.push(MenuOption { text: interaction_label(options[i]), state });
        proof {
            assert forall|j: int| 0 <= j < i + 1 implies (#[trigger] r@[j]).text@ == spec_interaction_label(options@[j])
                && r@[j].state == spec_option_state(j, highlighted as int) by {
                if j < i {
                    assert(r@[j] == before[j]);
                    assert(before[j].text@ == spec_interaction_label(options@[j]));
                }
            }
        }
        i += 1;
    }
    r
}

/// The bounds of the page of `len` entries, `page_size` to a page, that holds entry `idx`.
pub fn page_bounds(m: &Menu, idx: usize) -> (r: (usize, usize))
    requires
        m.page_size > 0,
    ensures
        r.0 as int == m.spec_page_bounds(idx as int).0,
        r.1 as int == m.spec_page_bounds(idx as int).1,
{
    let page = idx / m.page_size;
    assert(page * m.page_size <= idx) by (nonlinear_arith)
        requires page == idx / m.page_size, m.page_size > 0;
    let start = page * m.page_size;
    let end = if start < m.len && m.len - start > m.page_size { start + m.page_size } else { m.len };
    (start, end)
}

/// The full-screen list of the people behind the game.
pub struct ScreenCredits {}

impl ScreenCredits {
    /// The credits screen.
    pub fn new() -> (s: Self) {
        ScreenCredits {}
    }
}

/// A centred line of the credits: its row and text.
pub open spec fn spec_credit_lines() -> Seq<(i32, Seq<char>)> {
    seq![
        (5i32, "Artwork By"@), (6i32, "Cameron Stott"@), (8i32, "Code By"@), (9i32, "Alex Eagleson"@),
        (10i32, "Tyler Vipond"@), (12i32, "Created By"@), (13i32, "Tyler Vipond"@),
    ]
}

/// The lines of the credits screen: the row of each and its text, centred between the paddings.
pub fn credit_lines() -> (r: Vec<(i32, String)>)
    ensures
        r@.len() == spec_credit_lines().len(),
        forall|i: int| 0 <= i < r@.len() ==> #[trigger] r@[i].0 == spec_credit_lines()[i].0 && r@[i].1@ == spec_credit_lines()[i].1,
{
    let mut r: Vec<(i32, String)> = Vec::new();
    r.push((5, String::from_str("Artwork By")));
    r.push((6, String::from_str("Cameron Stott")));
    r.push((8, String::from_str("Code By")));
    r.push((9, String::from_str("Alex Eagleson")));
    r.push((10, String::from_str("Tyler Vipond")));
    r.push((12, String::from_str("Created By")));
    r.push((13, String::from_str("Tyler Vipond")));
    r
}

/// The width of a line of text between the two paddings.
pub const CREDIT_LINE_WIDTH: u32 = 72;

/// The screen shown when the player dies.
pub struct ScreenDeath {}

impl ScreenDeath {
    /// The death screen.
    pub fn new() -> (s: Self) {
        ScreenDeath {}
    }
}

/// The screen shown when the player leaves without the talisman.
pub struct ScreenFailure {}

impl ScreenFailure {
    /// The failure screen.
    pub fn new() -> (s: Self) {
        ScreenFailure {}
    }
}

/// The screen that tells the story before the first descent.
pub struct ScreenIntro {}

impl ScreenIntro {
    /// The introduction screen.
    pub fn new() -> (s: Self) {
        ScreenIntro {}
    }
}

/// The screen shown when the player brings the talisman back.
pub struct ScreenSuccess {}

impl ScreenSuccess {
    /// The success screen.
    pub fn new() -> (s: Self) {
        ScreenSuccess {}
    }
}

/// The title screen with its row of entries.
pub struct ScreenMainMenu {
    pub menu_options: Vec<MenuOption>,
}

impl ScreenMainMenu {
    /// The main menu showing `menu_options`.
    pub fn new(menu_options: Vec<MenuOption>) -> (s: Self)
        ensures
            s.menu_options == menu_options,
    {
        ScreenMainMenu { menu_options }
    }
}

/// The main menu's entries: new game, continue (disabled without a saved game), options,
/// credits, quit, entry `highlighted` highlighted.
pub open spec fn spec_main_menu_state(i: int, highlighted: int, has_save_game: bool) -> MenuOptionState {
    if i == 1 && !has_save_game {
        MenuOptionState::Disabled
    } else {
        spec_option_state(i, highlighted)
    }
}

/// The texts of the main menu's entries.
pub open spec fn spec_main_menu_texts() -> Seq<Seq<char>> {
    seq!["New Game"@, "Continue"@, "Options"@, "Credits"@, "Quit"@]
}

/// The main menu's entries.
pub fn main_menu_options(highlighted: usize, has_save_game: bool) -> (r: Vec<MenuOption>)
    ensures
        r@.len() == 5,
        forall|i: int| 0 <= i < 5 ==> (#[trigger] r@[i]).text@ == spec_main_menu_texts()[i]
            && r@[i].state == spec_main_menu_state(i, highlighted as int, has_save_game),
{
    let mut r: Vec<MenuOption> = Vec::new();
    r.push(MenuOption { text: String::from_str("New Game"), state: if highlighted == 0 { MenuOptionState::Highlighted } else { MenuOptionState::Normal } });
    let continue_state = if !has_save_game {
        MenuOptionState::Disabled
    } else if highlighted == 1 {
        MenuOptionState::Highlighted
    } else {
        MenuOptionState::Normal
    };
    r.push(MenuOption { text: String::from_str("Continue"), state: continue_state });
    r.push(MenuOption { text: String::from_str("Options"), state: if highlighted == 2 { MenuOptionState::Highlighted } else { MenuOptionState::Normal } });
    r.push(MenuOption { text: String::from_str("Credits"), state: if highlighted == 3 { MenuOptionState::Highlighted } else { MenuOptionState::Normal } });
    r.push(MenuOption { text: String::from_str("Quit"), state: if highlighted == 4 { MenuOptionState::Highlighted } else { MenuOptionState::Normal } });
    r
}

/// The options screen: a title, a prompt, and one entry per map action with its key.
pub struct ScreenOptions {
    pub title: String,
    pub cta: String,
    pub control_options: Vec<MenuOption>,
}

impl ScreenOptions {
    /// The options screen with the given title, prompt and entries.
    pub fn new(title: String, cta: String, control_options: Vec<MenuOption>) -> (s: Self)
        ensures
            s.title == title && s.cta == cta && s.control_options == control_options,
    {
        ScreenOptions { title, cta, control_options }
    }
}

/// The line of the options screen for one action: its name, spaces, and its key, fifty
/// characters in all.
pub open spec fn spec_options_line(action_text: Seq<char>, control_text: Seq<char>) -> Seq<char> {
    action_text + Seq::new((50 - control_text.len() - action_text.len()) as nat, |i: int| ' ') + control_text
}

/// The line of the options screen for one action.
pub fn options_line(action_text: &str, control_text: &str) -> (s: String)
    requires
        action_text@.len() + control_text@.len() <= 50,
    ensures
        s@ == spec_options_line(action_text@, control_text@),
{
    let a = action_text.unicode_len();
    let c = control_text.unicode_len();
    let space_count = 50 - (c + a);
    let mut s = String::from_str(action_text);
    let mut k: usize = 0;
    while k < space_count
        invariant
            k <= space_count,
            s@ == action_text@ + Seq::new(k as nat, |i: int| ' '),
        decreases space_count - k,
    {
        s.append(" ");
        proof {
            reveal_strlit(" ");
        }
        k += 1;
        assert(s@ =~= action_text@ + Seq::new(k as nat, |i: int| ' '));
    }
    s.append(control_text);
    assert(s@ =~= spec_options_line(action_text@, control_text@));
    s
}

/// The name of a map action.
pub open spec fn spec_map_action_label(a: MapAction) -> Seq<char> {
    match a {
        MapAction::Exit => "Exit"@,
        MapAction::ShowInventoryMenu => "Use Item"@,
        MapAction::ShowDropMenu => "Drop Item"@,
        MapAction::ShowEquipmentMenu => "Equipment"@,
        MapAction::LeaveDungeon => "Leave Dungeon"@,
        MapAction::ShowActionMenu => "Actions"@,
        MapAction::SearchContainer => "Open Container"@,
        MapAction::GrabFurniture => "Grab Furniture"@,
        MapAction::DisarmTrap => "Disarm Trap"@,
        MapAction::ArmTrap => "Arm Trap"@,
        MapAction::Hide => "Hide"@,
        MapAction::PickupItem => "Pick Up Item"@,
        MapAction::OpenDoor => "Open Door"@,
        MapAction::Attack => "Attack"@,
        MapAction::ScrollDown => "Scroll Down"@,
        MapAction::ScrollUp => "Scroll Up"@,
        MapAction::ScrollLeft => "Scroll Left"@,
        MapAction::ScrollRight => "Scroll Right"@,
        MapAction::Interact => "Interact"@,
        MapAction::MoveLeft => "Move Left"@,
        MapAction::MoveRight => "Move Right"@,
        MapAction::MoveUp => "Move Up"@,
        MapAction::MoveDown => "Move Down"@,
        MapAction::MoveUpLeft => "Move Up Left"@,
        MapAction::MoveUpRight => "Move Up Right"@,
        MapAction::MoveDownLeft => "Move Down Left"@,
        MapAction::MoveDownRight => "Move Down Right"@,
        MapAction::StayStill => "Stay Still"@,
        MapAction::SearchHidden => "Search Area"@,
        MapAction::ReleaseFurniture => "Release Furniture"@,
        MapAction::ShowDebugMenu => "Debug Menu"@,
    }
}

/// The name of a map action.
pub fn map_action_label(a: MapAction) -> (s: &'static str)
    ensures
        s@ == spec_map_action_label(a),
{
    match a {
        MapAction::Exit => "Exit",
        MapAction::ShowInventoryMenu => "Use Item",
        MapAction::ShowDropMenu => "Drop Item",
        MapAction::ShowEquipmentMenu => "Equipment",
        MapAction::LeaveDungeon => "Leave Dungeon",
        MapAction::ShowActionMenu => "Actions",
        MapAction::SearchContainer => "Open Container",
        MapAction::GrabFurniture => "Grab Furniture",
        MapAction::DisarmTrap => "Disarm Trap",
        MapAction::ArmTrap => "Arm Trap",
        MapAction::Hide => "Hide",
        MapAction::PickupItem => "Pick Up Item",
        MapAction::OpenDoor => "Open Door",
        MapAction::Attack => "Attack",
        MapAction::ScrollDown => "Scroll Down",
        MapAction::ScrollUp => "Scroll Up",
        MapAction::ScrollLeft => "Scroll Left",
        MapAction::ScrollRight => "Scroll Right",
        MapAction::Interact => "Interact",
        MapAction::MoveLeft => "Move Left",
        MapAction::MoveRight => "Move Right",
        MapAction::MoveUp => "Move Up",
        MapAction::MoveDown => "Move Down",
        MapAction::MoveUpLeft => "Move Up Left",
        MapAction::MoveUpRight => "Move Up Right",
        MapAction::MoveDownLeft => "Move Down Left",
        MapAction::MoveDownRight => "Move Down Right",
        MapAction::StayStill => "Stay Still",
        MapAction::SearchHidden => "Search Area",
        MapAction::ReleaseFurniture => "Release Furniture",
        MapAction::ShowDebugMenu => "Debug Menu",
    }
}

/// The screen that waits for a key to bind to `action`.
pub struct ScreenSetKey {
    pub action: MapAction,
}

impl ScreenSetKey {
    /// The screen that waits for a key for `action`.
    pub fn new(action: MapAction) -> (s: Self)
        ensures
            s.action == action,
    {
        ScreenSetKey { action }
    }

    /// The prompt: "Set key for <action>. Escape to exit."
    pub fn prompt(&self) -> (s: String)
        ensures
            s@ == "Set key for "@ + spec_map_action_label(self.action) + ". Escape to exit."@,
    {
        crate::text::wrap_text("Set key for ", map_action_label(self.action), ". Escape to exit.")
    }
}

/// The map with the HUD, scrolled by an offset from the player.
pub struct ScreenMapGeneric {
    pub offset_x: i32,
    pub offset_y: i32,
}

impl ScreenMapGeneric {
    /// The map scrolled by (`offset_x`, `offset_y`).
    pub fn new(offset_x: i32, offset_y: i32) -> (s: Self)
        ensures
            s.offset_x == offset_x && s.offset_y == offset_y,
    {
        ScreenMapGeneric { offset_x, offset_y }
    }
}

/// The map with a menu in the middle.
pub struct ScreenMapMenu {
    pub menu_options: Vec<MenuOption>,
    pub title: String,
    pub cta: String,
}

impl ScreenMapMenu {
    /// The map with a menu of `menu_options`, titled `title`, prompting `cta`.
    pub fn new(menu_options: Vec<MenuOption>, title: String, cta: String) -> (s: Self)
        ensures
            s.menu_options == menu_options && s.title == title && s.cta == cta,
    {
        ScreenMapMenu { menu_options, title, cta }
    }
}

/// The map with the menu of what can be done to a target.
pub struct ScreenMapInteractMenu {
    pub menu_options: Vec<MenuOption>,
    pub title: Option<String>,
    pub cta: Option<String>,
}

impl ScreenMapInteractMenu {
    /// The map with a menu of `menu_options`.
    pub fn new(menu_options: Vec<MenuOption>, title: Option<String>, cta: Option<String>) -> (s: Self)
        ensures
            s.menu_options == menu_options && s.title == title && s.cta == cta,
    {
        ScreenMapInteractMenu { menu_options, title, cta }
    }
}

/// The map with the two-column equipment menu and a description.
pub struct ScreenMapItemMenu {
    pub menu_options: Vec<MenuOption>,
    pub sub_menu_options: Vec<MenuOption>,
    pub sub_menu_active: bool,
    pub description: String,
    pub title: String,
    pub cta: String,
}

impl ScreenMapItemMenu {
    /// The map with the equipment menu.
    pub fn new(
        menu_options: Vec<MenuOption>,
        sub_menu_options: Vec<MenuOption>,
        sub_menu_active: bool,
        description: String,
        title: String,
        cta: String,
    ) -> (s: Self)
        ensures
            s.menu_options == menu_options && s.sub_menu_options == sub_menu_options,
            s.sub_menu_active == sub_menu_active && s.description == description,
            s.title == title && s.cta == cta,
    {
        ScreenMapItemMenu { menu_options, sub_menu_options, sub_menu_active, description, title, cta }
    }
}

/// Which column of the equipment menu takes the keys: the first while the sub-menu is off, the
/// second while it is on, as (first, second).
pub fn item_menu_active_columns(s: &ScreenMapItemMenu) -> (r: (bool, bool))
    ensures
        r == (!s.sub_menu_active, s.sub_menu_active),
{
    (!s.sub_menu_active, s.sub_menu_active)
}

/// Where the parts of the equipment menu go.
pub struct ItemMenuLayout {
    pub description_width: u32,
    pub height: u32,
    pub y: i32,
    pub menu_x: i32,
    pub sub_menu_x: i32,
    pub description_x: i32,
}

/// The padding of the equipment menu.
pub const ITEM_MENU_PADDING: u32 = 4;

/// The layout of the equipment menu for a first column `menu_width` wide and `menu_height` high,
/// a second column `sub_width` by `sub_height`, and a description `description_height` high: the
/// description takes the width left over, the box is two taller than its tallest part and
/// centred on the map, and the columns sit side by side three apart.
pub open spec fn spec_item_menu_layout(menu_width: int, menu_height: int, sub_width: int, sub_height: int, description_height: int) -> (int, int, int, int, int, int) {
    let description_width = MAP_WIDTH as int - menu_width - sub_width - 6 - (ITEM_MENU_PADDING as int + 1) * 2;
    let tallest = if menu_height >= sub_height && menu_height >= description_height { menu_height }
        else if sub_height >= description_height { sub_height } else { description_height };
    let height = tallest + 2;
    let y = MAP_HEIGHT as int / 2 - height / 2;
    let menu_x = ITEM_MENU_PADDING as int + 1;
    let sub_menu_x = menu_x + menu_width + 3;
    let description_x = sub_menu_x + sub_width + 3;
    (description_width, height, y, menu_x, sub_menu_x, description_x)
}

/// The width left for the description of the equipment menu.
pub fn item_menu_description_width(menu_width: u32, sub_width: u32) -> (w: u32)
    requires
        menu_width + sub_width + 6 + (ITEM_MENU_PADDING + 1) * 2 <= MAP_WIDTH as int,
    ensures
        w as int == spec_item_menu_layout(menu_width as int, 0, sub_width as int, 0, 0).0,
{
    MAP_WIDTH as u32 - menu_width - sub_width - 6 - (ITEM_MENU_PADDING + 1) * 2
}

/// The layout of the equipment menu.
pub fn item_menu_layout(menu_width: u32, menu_height: u32, sub_width: u32, sub_height: u32, description_height: u32) -> (l: ItemMenuLayout)
    requires
        menu_width + sub_width + 6 + (ITEM_MENU_PADDING + 1) * 2 <= MAP_WIDTH as int,
        menu_height <= MAP_HEIGHT,
        sub_height <= MAP_HEIGHT,
        description_height <= MAP_HEIGHT,
    ensures
        ({
            let s = spec_item_menu_layout(menu_width as int, menu_height as int, sub_width as int, sub_height as int, description_height as int);
            &&& l.description_width as int == s.0
            &&& l.height as int == s.1
            &&& l.y as int == s.2
            &&& l.menu_x as int == s.3
            &&& l.sub_menu_x as int == s.4
            &&& l.description_x as int == s.5
        }),
{
    let description_width = item_menu_description_width(menu_width, sub_width);
    let tallest = if menu_height >= sub_height && menu_height >= description_height { menu_height }
        else if sub_height >= description_height { sub_height } else { description_height };
    let height = tallest + 2;
    let y = (MAP_HEIGHT as i32) / 2 - (height as i32) / 2;
    let menu_x = ITEM_MENU_PADDING as i32 + 1;
    let sub_menu_x = menu_x + menu_width as i32 + 3;
    let description_x = sub_menu_x + sub_width as i32 + 3;
    ItemMenuLayout { description_width, height, y, menu_x, sub_menu_x, description_x }
}

/// The map while aiming an item of range `range`, with the target tile, if any.
pub struct ScreenMapTargeting {
    pub range: i32,
    pub target: Option<i32>,
    pub cta: Option<String>,
}

impl ScreenMapTargeting {
    /// The aiming screen.
    pub fn new(range: i32, target: Option<i32>, cta: Option<String>) -> (s: Self)
        ensures
            s.range == range && s.target == target && s.cta == cta,
    {
        ScreenMapTargeting { range, target, cta }
    }
}

/// The map while choosing a target to interact with.
pub struct ScreenMapInteractTarget {
    pub target: Option<Entity>,
    pub cta: Option<String>,
}

impl ScreenMapInteractTarget {
    /// The target-choosing screen, focused on `target` (the player when there is none).
    pub fn new(target: Option<Entity>, cta: Option<String>) -> (s: Self)
        ensures
            s.target == target && s.cta == cta,
    {
        ScreenMapInteractTarget { target, cta }
    }
}

/// The prompt shown when choosing a target with none given.
pub open spec fn spec_default_target_cta() -> Seq<char> {
    "press escape to exit, left/right to cycle targets"@
}

/// The prompt of the target-choosing screen.
pub fn interact_target_cta(cta: &Option<String>) -> (s: String)
    ensures
        s@ == (match cta { Some(c) => c@, None => spec_default_target_cta() }),
{
    match cta {
        Some(c) => c.clone(),
        None => String::from_str("press escape to exit, left/right to cycle targets"),
    }
}

/// The panel below the map: depth, hit points and the latest messages.
pub struct UIHud {
    pub depth: u8,
    pub hp: i32,
    pub max_hp: i32,
    pub messages: Vec<String>,
}

/// How many messages the HUD shows.
pub const MESSAGE_COUNT: usize = 4;

impl UIHud {
    /// The HUD for a player at `depth` with `hp` of `max_hp` hit points.
    pub fn new(depth: u8, hp: i32, max_hp: i32, messages: Vec<String>) -> (h: Self)
        ensures
            h.depth == depth && h.hp == hp && h.max_hp == max_hp && h.messages == messages,
    {
        UIHud { depth, hp, max_hp, messages }
    }

    /// "Depth: <depth>".
    pub fn depth_text(&self) -> (s: String)
        ensures
            s@ == "Depth: "@ + spec_decimal(self.depth as int),
    {
        let mut s = String::from_str("Depth: ");
        append_decimal(&mut s, self.depth as i32);
        s
    }

    /// "HP: <hp> / <max_hp>".
    pub fn health_text(&self) -> (s: String)
        ensures
            s@ == "HP: "@ + spec_decimal(self.hp as int) + " / "@ + spec_decimal(self.max_hp as int),
    {
        let mut s = String::from_str("HP: ");
        append_decimal(&mut s, self.hp);
        s.append(" / ");
        append_decimal(&mut s, self.max_hp);
        s
    }

    /// How many messages are shown: the latest ones, up to `MESSAGE_COUNT`.
    pub fn shown_message_count(&self) -> (n: usize)
        ensures
            n as int == (if self.messages@.len() < MESSAGE_COUNT { self.messages@.len() as int } else { MESSAGE_COUNT as int }),
    {
        if self.messages.len() < MESSAGE_COUNT { self.messages.len() } else { MESSAGE_COUNT }
    }
}

/// The highlighted cell under the mouse.
pub struct UIMousePos {
    pub x: i32,
    pub y: i32,
}

impl UIMousePos {
    /// The mouse cursor at (`x`, `y`).
    pub fn new(x: i32, y: i32) -> (m: Self)
        ensures
            m.x == x && m.y == y,
    {
        UIMousePos { x, y }
    }
}

/// Which side of the pointed cell a tool tip opens on.
#[derive(Clone, Copy, Debug, PartialEq, Eq, Structural)]
pub enum UIToolTipPosition {
    Left,
    Right,
}

/// A box of lines next to a cell, with an arrow pointing at it.
pub struct UIToolTip {
    pub x: i32,
    pub y: i32,
    pub position: UIToolTipPosition,
    pub lines: Vec<String>,
}

impl UIToolTip {
    /// A tool tip for the cell (`x`, `y`).
    pub fn new(x: i32, y: i32, position: UIToolTipPosition, lines: Vec<String>) -> (t: Self)
        ensures
            t.x == x && t.y == y && t.position == position && t.lines == lines,
    {
        UIToolTip { x, y, position, lines }
    }

    /// Where the box and the arrow go for a box `box_width` wide: to the left, the box ends three
    /// cells before the pointed cell and "->" sits two before it; to the right, the box starts
    /// three after it and "<-" sits one after it. The box starts a row above the cell.
    pub fn layout(&self, box_width: i32) -> (l: (i32, i32, i32, &'static str))
        requires
            0 <= box_width,
            self.y > i32::MIN,
            self.position == UIToolTipPosition::Left ==> self.x - box_width - 3 >= i32::MIN,
            self.position == UIToolTipPosition::Right ==> self.x + 3 <= i32::MAX,
        ensures
            l.1 == self.y - 1,
            self.position == UIToolTipPosition::Left ==> l.0 == self.x - box_width - 3 && l.2 == self.x - 2 && l.3@ == "->"@,
            self.position == UIToolTipPosition::Right ==> l.0 == self.x + 3 && l.2 == self.x + 1 && l.3@ == "<-"@,
    {
        match self.position {
            UIToolTipPosition::Left => (self.x - box_width - 3, self.y - 1, self.x - 2, "->"),
            UIToolTipPosition::Right => (self.x + 3, self.y - 1, self.x + 1, "<-"),
        }
    }
}

/// The side a tool tip opens on: to the left of cells in the right half of the screen.
pub fn tool_tip_position(x: i32) -> (p: UIToolTipPosition)
    ensures
        p == (if x > SCREEN_WIDTH as int / 2 { UIToolTipPosition::Left } else { UIToolTipPosition::Right }),
{
    if x > (SCREEN_WIDTH / 2) as i32 { UIToolTipPosition::Left } else { UIToolTipPosition::Right }
}

} // verus!
