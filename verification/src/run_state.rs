use vstd::prelude::*;
use crate::components::{EquipmentPositions, Ranged};
use crate::ecs::{comp, get, present, Entity};
use crate::interaction::InteractionType;

verus! {

/// What a targeting screen asks the player to pick a target for.
#[derive(Clone, Copy, Debug, PartialEq, Eq, Structural)]
pub enum TargetIntent {
    HideIn,
    Arm,
    Grab,
    Attack,
    OpenDoor,
    OpenContainer,
    Disarm,
    Douse,
    Pickup,
    Light,
}

/// The prompt shown above a targeting screen.
#[derive(Clone, Copy, Debug, PartialEq, Eq, Structural)]
pub enum CallToAction {
    Interact,
    OpenContainer,
    Grab,
    Disarm,
    Arm,
    Hide,
    Pickup,
    OpenDoor,
    Attack,
    Douse,
    Light,
}

/// The actions bound to keys on the map.
#[derive(Clone, Copy, Debug, PartialEq, Eq, Structural)]
pub enum MapAction {
    Exit,
    ShowInventoryMenu,
    ShowDropMenu,
    ShowEquipmentMenu,
    LeaveDungeon,
    ShowActionMenu,
    SearchContainer,
    GrabFurniture,
    DisarmTrap,
    ArmTrap,
    Hide,
    PickupItem,
    OpenDoor,
    Attack,
    ScrollDown,
    ScrollUp,
    ScrollLeft,
    ScrollRight,
    Interact,
    MoveLeft,
    MoveRight,
    MoveUp,
    MoveDown,
    MoveUpLeft,
    MoveUpRight,
    MoveDownLeft,
    MoveDownRight,
    StayStill,
    SearchHidden,
    ReleaseFurniture,
    ShowDebugMenu,
}

/// The actions bound to keys in menus.
#[derive(Clone, Copy, Debug, PartialEq, Eq, Structural)]
pub enum MenuAction {
    Exit,
    MoveHighlightNext,
    MoveHighlightPrev,
    NextPage,
    PreviousPage,
    Select,
    SelectAll,
    Delete,
    NextMenu,
    PreviousMenu,
}

/// The actions bound to keys while aiming an item.
#[derive(Clone, Copy, Debug, PartialEq, Eq, Structural)]
pub enum TargetingAction {
    Exit,
    Selected,
}

/// The actions bound to keys while choosing something to interact with.
#[derive(Clone, Copy, Debug, PartialEq, Eq, Structural)]
pub enum InteractionTargetingAction {
    Selected,
    Exit,
    Next,
    Previous,
}

/// The actions bound to keys on screens of text.
#[derive(Clone, Copy, Debug, PartialEq, Eq, Structural)]
pub enum StaticAction {
    Exit,
    Continue,
}

/// What the equipment screen's second column offers for the highlighted slot.
#[derive(Clone, Copy, Debug, PartialEq, Eq, Structural)]
pub enum EquipMenuType {
    Exchange(EquipmentPositions),
    Light(Entity),
    Douse(Entity),
}

/// The key pressed while a key binding is being set, as far as the choice depends on it.
#[derive(Clone, Copy, Debug, PartialEq, Eq, Structural)]
pub enum KeyPress {
    Escape,
    Modifier,
    Other,
}

/// Where the game is: which screen is shown and what it remembers.
#[derive(Clone, Debug)]
pub enum RunState {
    PreRun,
    AwaitingInput { offset_x: i32, offset_y: i32 },
    PlayerTurn,
    MonsterTurn,
    InventoryMenu { highlighted: usize },
    DropItemMenu { highlighted: usize },
    ExitGameMenu { highlighted: usize },
    ItemUseTargeting { range: i32, item: Entity },
    InteractMenu { highlighted: usize, target: Entity },
    InteractiveEntityTargeting { target_idx: usize },
    InteractionTypeEntityTargeting { target_idx: usize, targets: Vec<Entity>, intent: TargetIntent, cta: Option<CallToAction> },
    OpenContainerMenu { highlighted: usize, container: Entity },
    ActionMenu { highlighted: usize },
    EquipMenu { highlighted: usize, position: EquipmentPositions },
    EquipmentMenu { highlighted: usize, action_highlighted: usize, action_menu: bool },
    IntroScreen,
    DeathScreen,
    SuccessScreen,
    FailureScreen,
    CreditsScreen,
    SavingScreen { count_down: u32 },
    LoadingScreen { count_down: u32 },
    NewGameScreen { count_down: u32 },
    SetKey { action: MapAction, highlighted: usize },
    OptionsScreen { highlighted: usize },
    MainMenu { highlighted: usize },
    DebugMenu { highlighted: usize },
}

/// A message the game writes to the log on its own.
#[derive(Clone, Copy, Debug, PartialEq, Eq, Structural)]
pub enum Notice {
    MustFindExit,
    MonstersRemoved,
    MapRevealed,
}

/// The text of a notice.
pub open spec fn spec_notice_text(n: Notice) -> Seq<char> {
    match n {
        Notice::MustFindExit => "You must first locate the exit to leave the dungeon"@,
        Notice::MonstersRemoved => "all monsters removed"@,
        Notice::MapRevealed => "map revealed"@,
    }
}

/// The text of a notice.
pub fn notice_text(n: Notice) -> (s: String)
    ensures
        s@ == spec_notice_text(n),
{
    match n {
        Notice::MustFindExit => String::from_str("You must first locate the exit to leave the dungeon"),
        Notice::MonstersRemoved => String::from_str("all monsters removed"),
        Notice::MapRevealed => String::from_str("map revealed"),
    }
}

/// Work that a transition asks of the game, done after the new state is chosen.
#[derive(Clone, Debug)]
pub enum Command {
    Log(Notice),
    Interact(InteractionType),
    MoveToPosition(usize),
    UseItem { item: Entity, target: Option<i32> },
    DropItem(Entity),
    PickupItem { item: Entity, container: Entity },
    PickupItems { items: Vec<Entity>, container: Entity },
    EquipItem { choice: Option<Entity>, position: EquipmentPositions },
    DouseItem(Entity),
    LightItem(Entity),
    SearchHidden,
    ReleaseEntity,
    DeleteSave,
    SaveGame,
    LoadGame,
    InitializeNewGame,
    SaveSettings,
    BindKey(MapAction),
    UnbindKey(MapAction),
    Quit,
    KillAllMonsters,
    RevealMap,
}

/// The outcome of one frame's input: the next state, the queued action, and the work to do.
pub struct Transition {
    pub next: RunState,
    pub queued: Option<InteractionType>,
    pub commands: Vec<Command>,
}

/// A transition to `next` that leaves the queued action as it is and asks for nothing.
pub open spec fn plain(t: Transition, next: RunState, queued: Option<InteractionType>) -> bool {
    t.next == next && t.queued == queued && t.commands@.len() == 0
}

/// A transition to `next` that leaves the queued action as it is and asks for `c` alone.
pub open spec fn with_command(t: Transition, next: RunState, queued: Option<InteractionType>, c: Command) -> bool {
    t.next == next && t.queued == queued && t.commands@ == seq![c]
}

fn go(next: RunState, queued: Option<InteractionType>) -> (t: Transition)
    ensures
        plain(t, next, queued),
{
    Transition { next, queued, commands: Vec::new() }
}

fn go_with(next: RunState, queued: Option<InteractionType>, c: Command) -> (t: Transition)
    ensures
        with_command(t, next, queued, c),
{
    let mut commands = Vec::new();
    commands.push(c);
    Transition { next, queued, commands }
}

/// The map screen, centred on the player.
pub open spec fn spec_awaiting_home() -> RunState {
    RunState::AwaitingInput { offset_x: 0, offset_y: 0 }
}

fn awaiting_home() -> (s: RunState)
    ensures
        s == spec_awaiting_home(),
{
    RunState::AwaitingInput { offset_x: 0, offset_y: 0 }
}

/// A list of `len` options shown `page_size` at a time.
#[derive(Clone, Copy, Debug, PartialEq, Eq, Structural)]
pub struct Menu {
    pub len: usize,
    pub page_size: usize,
}

impl Menu {
    /// A menu of `len` options, `page_size` to a page.
    pub fn new(len: usize, page_size: usize) -> (m: Menu)
        requires
            page_size > 0,
        ensures
            m.len == len && m.page_size == page_size,
    {
        Menu { len, page_size }
    }

    /// The option after `idx`, going round from the last to the first.
    pub open spec fn spec_next_index(self, idx: int) -> int {
        if self.len == 0 { 0 } else if idx + 1 < self.len { idx + 1 } else { 0 }
    }

    /// The option before `idx`, going round from the first to the last.
    pub open spec fn spec_previous_index(self, idx: int) -> int {
        if self.len == 0 { 0 } else if 0 < idx && idx <= self.len { idx - 1 } else { self.len - 1 }
    }

    /// The zero-based page that holds option `idx`.
    pub open spec fn spec_page_number_at_index(self, idx: int) -> int {
        idx / self.page_size as int
    }

    /// The zero-based number of the last page.
    pub open spec fn spec_page_count(self) -> int {
        if self.len == 0 { 0 } else { (self.len - 1) / self.page_size as int }
    }

    /// The first option of the next page, or `idx` on the last page.
    pub open spec fn spec_next_page_index(self, idx: int) -> int {
        let next = (self.spec_page_number_at_index(idx) + 1) * self.page_size;
        if next < self.len { next } else { idx }
    }

    /// The first option of the previous page, or `idx` on the first page.
    pub open spec fn spec_previous_page_index(self, idx: int) -> int {
        let page = self.spec_page_number_at_index(idx);
        if page > 0 { (page - 1) * self.page_size } else { idx }
    }

    /// The option after `idx`, going round from the last to the first.
    pub fn get_next_index(&self, idx: usize) -> (r: usize)
        ensures
            r == self.spec_next_index(idx as int),
    {
        if self.len == 0 {
            0
        } else if idx < self.len - 1 {
            idx + 1
        } else {
            0
        }
    }

    /// The option before `idx`, going round from the first to the last.
    pub fn get_previous_index(&self, idx: usize) -> (r: usize)
        ensures
            r == self.spec_previous_index(idx as int),
    {
        if self.len == 0 {
            0
        } else if 0 < idx && idx <= self.len {
            idx - 1
        } else {
            self.len - 1
        }
    }

    /// The zero-based page that holds option `idx`.
    pub fn page_number_at_index(&self, idx: usize) -> (r: usize)
        requires
            self.page_size > 0,
        ensures
            r == self.spec_page_number_at_index(idx as int),
    {
        idx / self.page_size
    }

    /// The zero-based number of the last page.
    pub fn page_count(&self) -> (r: usize)
        requires
            self.page_size > 0,
        ensures
            r == self.spec_page_count(),
    {
        if self.len == 0 { 0 } else { (self.len - 1) / self.page_size }
    }

    /// The first option of the next page, or `idx` on the last page.
    pub fn get_next_page_index(&self, idx: usize) -> (r: usize)
        requires
            self.page_size > 0,
        ensures
            r == self.spec_next_page_index(idx as int),
    {
        let page = idx / self.page_size;
        assert(page * self.page_size <= idx) by (nonlinear_arith)
            requires page == idx / self.page_size, self.page_size > 0;
        let start = page * self.page_size;
        assert((page + 1) * self.page_size == page * self.page_size + self.page_size) by (nonlinear_arith);
        if start < self.len && self.len - start > self.page_size {
            start + self.page_size
        } else {
            idx
        }
    }

    /// The first option of the previous page, or `idx` on the first page.
    pub fn get_previous_page_index(&self, idx: usize) -> (r: usize)
        requires
            self.page_size > 0,
        ensures
            r == self.spec_previous_page_index(idx as int),
    {
        let page = idx / self.page_size;
        if page > 0 {
            assert((page - 1) * self.page_size <= idx) by (nonlinear_arith)
                requires page == idx / self.page_size, self.page_size > 0, page > 0;
            (page - 1) * self.page_size
        } else {
            idx
        }
    }

    /// The bounds `start..end` of the page that holds option `idx`.
    pub open spec fn spec_page_bounds(self, idx: int) -> (int, int) {
        let start = self.spec_page_number_at_index(idx) * self.page_size;
        let end = if start + self.page_size < self.len { start + self.page_size } else { self.len as int };
        (start, end)
    }
}

/// A transition read as plain values: next state, queued action, commands.
pub open spec fn outcome(t: Transition) -> (RunState, Option<InteractionType>, Seq<Command>) {
    (t.next, t.queued, t.commands@)
}

/// Whether the systems run before this state's screen: they do on the map and during turns.
pub open spec fn spec_runs_systems(s: RunState) -> bool {
    s is PreRun || s is AwaitingInput || s is PlayerTurn || s is MonsterTurn
}

/// Whether the systems run before this state's screen.
pub fn runs_systems(s: &RunState) -> (r: bool)
    ensures
        r == spec_runs_systems(*s),
{
    match s {
        RunState::PreRun | RunState::AwaitingInput { .. } | RunState::PlayerTurn | RunState::MonsterTurn => true,
        _ => false,
    }
}

/// After the first frame, after the player's turn, and after the monsters' turn: the map
/// comes back, the monsters move, or the player, with no hit points left, has died.
pub open spec fn spec_on_turn(s: RunState, player_hp: i32, queued: Option<InteractionType>) -> (RunState, Option<InteractionType>, Seq<Command>) {
    match s {
        RunState::PlayerTurn => (RunState::MonsterTurn, queued, Seq::empty()),
        RunState::MonsterTurn => if player_hp < 1 {
            (RunState::DeathScreen, queued, seq![Command::DeleteSave])
        } else {
            (spec_awaiting_home(), queued, Seq::empty())
        },
        _ => (spec_awaiting_home(), queued, Seq::empty()),
    }
}

/// The transition out of the first frame or a turn.
pub fn on_turn(s: &RunState, player_hp: i32, queued: Option<InteractionType>) -> (t: Transition)
    requires
        s is PreRun || s is PlayerTurn || s is MonsterTurn,
    ensures
        outcome(t) == spec_on_turn(*s, player_hp, queued),
{
    match s {
        RunState::PlayerTurn => go(RunState::MonsterTurn, queued),
        RunState::MonsterTurn => if player_hp < 1 {
            go_with(RunState::DeathScreen, queued, Command::DeleteSave)
        } else {
            go(awaiting_home(), queued)
        },
        _ => go(awaiting_home(), queued),
    }
}

/// The kinds of things that a targeting screen lists.
#[derive(Clone, Copy, Debug, PartialEq, Eq, Structural)]
pub enum TargetKind {
    Container,
    Grabbable,
    Disarmable,
    Armable,
    HidingSpot,
    Item,
    OpenableDoor,
    CombatStats,
    Dousable,
    Lightable,
}

/// What a map action needs to know about the world before the next state can be chosen.
#[derive(Clone, Copy, Debug, PartialEq, Eq, Structural)]
pub enum MapNeed {
    Nothing,
    CanLeave,
    Targets(TargetKind),
    DefaultAction(i32, i32),
}

/// What the world answered.
#[derive(Clone, Debug)]
pub enum MapFact {
    Nothing,
    CanLeave(bool),
    Targets(Vec<Entity>),
    DefaultAction(InteractionType),
}

/// The target list, intent and prompt of the map actions that open a targeting screen.
pub open spec fn spec_targeting_for(a: MapAction) -> Option<(TargetKind, TargetIntent, CallToAction)> {
    match a {
        MapAction::SearchContainer => Some((TargetKind::Container, TargetIntent::OpenContainer, CallToAction::OpenContainer)),
        MapAction::GrabFurniture => Some((TargetKind::Grabbable, TargetIntent::Grab, CallToAction::Grab)),
        MapAction::DisarmTrap => Some((TargetKind::Disarmable, TargetIntent::Disarm, CallToAction::Disarm)),
        MapAction::ArmTrap => Some((TargetKind::Armable, TargetIntent::Arm, CallToAction::Arm)),
        MapAction::Hide => Some((TargetKind::HidingSpot, TargetIntent::HideIn, CallToAction::Hide)),
        MapAction::PickupItem => Some((TargetKind::Item, TargetIntent::Pickup, CallToAction::Pickup)),
        MapAction::OpenDoor => Some((TargetKind::OpenableDoor, TargetIntent::OpenDoor, CallToAction::OpenDoor)),
        MapAction::Attack => Some((TargetKind::CombatStats, TargetIntent::Attack, CallToAction::Attack)),
        _ => None,
    }
}

/// The step of the eight movement actions.
pub open spec fn spec_move_delta(a: MapAction) -> Option<(i32, i32)> {
    match a {
        MapAction::MoveLeft => Some((-1i32, 0i32)),
        MapAction::MoveRight => Some((1i32, 0i32)),
        MapAction::MoveUp => Some((0i32, -1i32)),
        MapAction::MoveDown => Some((0i32, 1i32)),
        MapAction::MoveUpLeft => Some((-1i32, -1i32)),
        MapAction::MoveUpRight => Some((1i32, -1i32)),
        MapAction::MoveDownLeft => Some((-1i32, 1i32)),
        MapAction::MoveDownRight => Some((1i32, 1i32)),
        _ => None,
    }
}

/// What a map action needs to know.
pub open spec fn spec_map_need(a: MapAction) -> MapNeed {
    if a == MapAction::LeaveDungeon {
        MapNeed::CanLeave
    } else if spec_targeting_for(a) is Some {
        let row = spec_targeting_for(a)->0;
        MapNeed::Targets(row.0)
    } else if spec_move_delta(a) is Some {
        let d = spec_move_delta(a)->0;
        MapNeed::DefaultAction(d.0, d.1)
    } else {
        MapNeed::Nothing
    }
}

/// The targeting row of a map action.
fn targeting_for(a: MapAction) -> (r: Option<(TargetKind, TargetIntent, CallToAction)>)
    ensures
        r == spec_targeting_for(a),
{
    match a {
        MapAction::SearchContainer => Some((TargetKind::Container, TargetIntent::OpenContainer, CallToAction::OpenContainer)),
        MapAction::GrabFurniture => Some((TargetKind::Grabbable, TargetIntent::Grab, CallToAction::Grab)),
        MapAction::DisarmTrap => Some((TargetKind::Disarmable, TargetIntent::Disarm, CallToAction::Disarm)),
        MapAction::ArmTrap => Some((TargetKind::Armable, TargetIntent::Arm, CallToAction::Arm)),
        MapAction::Hide => Some((TargetKind::HidingSpot, TargetIntent::HideIn, CallToAction::Hide)),
        MapAction::PickupItem => Some((TargetKind::Item, TargetIntent::Pickup, CallToAction::Pickup)),
        MapAction::OpenDoor => Some((TargetKind::OpenableDoor, TargetIntent::OpenDoor, CallToAction::OpenDoor)),
        MapAction::Attack => Some((TargetKind::CombatStats, TargetIntent::Attack, CallToAction::Attack)),
        _ => None,
    }
}

fn move_delta(a: MapAction) -> (r: Option<(i32, i32)>)
    ensures
        r == spec_move_delta(a),
{
    match a {
        MapAction::MoveLeft => Some((-1i32, 0i32)),
        MapAction::MoveRight => Some((1i32, 0i32)),
        MapAction::MoveUp => Some((0i32, -1i32)),
        MapAction::MoveDown => Some((0i32, 1i32)),
        MapAction::MoveUpLeft => Some((-1i32, -1i32)),
        MapAction::MoveUpRight => Some((1i32, -1i32)),
        MapAction::MoveDownLeft => Some((-1i32, 1i32)),
        MapAction::MoveDownRight => Some((1i32, 1i32)),
        _ => None,
    }
}

/// What a map action needs to know about the world.
pub fn map_action_need(a: MapAction) -> (n: MapNeed)
    ensures
        n == spec_map_need(a),
{
    if a == MapAction::LeaveDungeon {
        MapNeed::CanLeave
    } else {
        match targeting_for(a) {
            Some((kind, _, _)) => MapNeed::Targets(kind),
            None => match move_delta(a) {
                Some((dx, dy)) => MapNeed::DefaultAction(dx, dy),
                None => MapNeed::Nothing,
            },
        }
    }
}

/// Whether `f` answers `n`.
pub open spec fn answers(n: MapNeed, f: MapFact) -> bool {
    match n {
        MapNeed::Nothing => f is Nothing,
        MapNeed::CanLeave => f is CanLeave,
        MapNeed::Targets(_) => f is Targets,
        MapNeed::DefaultAction(_, _) => f is DefaultAction,
    }
}

/// A step onto something: most things are acted on and the turn passes; a container opens
/// its menu; the exit asks whether to leave.
pub open spec fn spec_default_move(i: InteractionType) -> (RunState, Seq<Command>) {
    match i {
        InteractionType::OpenContainer(e) => (RunState::OpenContainerMenu { highlighted: 0, container: e }, Seq::empty()),
        InteractionType::Exit(_) => (RunState::ExitGameMenu { highlighted: 0 }, Seq::empty()),
        _ => (RunState::PlayerTurn, seq![Command::Interact(i)]),
    }
}

/// The outcome of a step onto something, `i` being what the step does there.
pub fn handle_default_move(i: InteractionType, queued: Option<InteractionType>) -> (t: Transition)
    ensures
        t.next == spec_default_move(i).0,
        t.commands@ == spec_default_move(i).1,
        t.queued == queued,
{
    match i {
        InteractionType::OpenContainer(e) => go(RunState::OpenContainerMenu { highlighted: 0, container: e }, queued),
        InteractionType::Exit(_) => go(RunState::ExitGameMenu { highlighted: 0 }, queued),
        _ => go_with(RunState::PlayerTurn, queued, Command::Interact(i)),
    }
}

/// What a map action leads to, the world having answered `f`; the queued action is dropped.
pub open spec fn spec_map_action(ox: i32, oy: i32, a: MapAction, f: MapFact) -> (RunState, Option<InteractionType>, Seq<Command>) {
    if spec_targeting_for(a) is Some {
        let (_, intent, cta) = spec_targeting_for(a)->0;
        (RunState::InteractionTypeEntityTargeting { target_idx: 0, targets: f->Targets_0, intent, cta: Some(cta) }, None, Seq::empty())
    } else if spec_move_delta(a) is Some {
        let (next, cmds) = spec_default_move(f->DefaultAction_0);
        (next, None, cmds)
    } else {
        match a {
            MapAction::ShowDebugMenu => (RunState::DebugMenu { highlighted: 0 }, None, Seq::empty()),
            MapAction::Exit => (RunState::SavingScreen { count_down: 15 }, None, Seq::empty()),
            MapAction::ShowInventoryMenu => (RunState::InventoryMenu { highlighted: 0 }, None, Seq::empty()),
            MapAction::ShowDropMenu => (RunState::DropItemMenu { highlighted: 0 }, None, Seq::empty()),
            MapAction::ShowEquipmentMenu => (RunState::EquipmentMenu { highlighted: 0, action_highlighted: 0, action_menu: false }, None, Seq::empty()),
            MapAction::LeaveDungeon => if f->CanLeave_0 {
                (RunState::ExitGameMenu { highlighted: 0 }, None, Seq::empty())
            } else {
                (RunState::AwaitingInput { offset_x: ox, offset_y: oy }, None, seq![Command::Log(Notice::MustFindExit)])
            },
            MapAction::ShowActionMenu => (RunState::ActionMenu { highlighted: 0 }, None, Seq::empty()),
            MapAction::ScrollDown => (RunState::AwaitingInput { offset_x: ox, offset_y: (oy + 1) as i32 }, None, Seq::empty()),
            MapAction::ScrollUp => (RunState::AwaitingInput { offset_x: ox, offset_y: (oy - 1) as i32 }, None, Seq::empty()),
            MapAction::ScrollLeft => (RunState::AwaitingInput { offset_x: (ox - 1) as i32, offset_y: oy }, None, Seq::empty()),
            MapAction::ScrollRight => (RunState::AwaitingInput { offset_x: (ox + 1) as i32, offset_y: oy }, None, Seq::empty()),
            MapAction::Interact => (RunState::InteractiveEntityTargeting { target_idx: 0 }, None, Seq::empty()),
            MapAction::StayStill => (RunState::PlayerTurn, None, Seq::empty()),
            MapAction::SearchHidden => (RunState::PlayerTurn, None, seq![Command::SearchHidden]),
            _ => (RunState::PlayerTurn, None, seq![Command::ReleaseEntity]),
        }
    }
}

/// Whether scrolling by this action stays within `i32`.
pub open spec fn scroll_fits(ox: i32, oy: i32, a: MapAction) -> bool {
    &&& a == MapAction::ScrollDown ==> oy < i32::MAX
    &&& a == MapAction::ScrollUp ==> oy > i32::MIN
    &&& a == MapAction::ScrollLeft ==> ox > i32::MIN
    &&& a == MapAction::ScrollRight ==> ox < i32::MAX
}

/// The transition for a key pressed on the map, with the world's answer to `map_action_need`.
pub fn on_map_action(ox: i32, oy: i32, a: MapAction, f: MapFact) -> (t: Transition)
    requires
        answers(spec_map_need(a), f),
        scroll_fits(ox, oy, a),
    ensures
        outcome(t) == spec_map_action(ox, oy, a, f),
{
    match targeting_for(a) {
        Some((_, intent, cta)) => {
            let targets = match f {
                MapFact::Targets(v) => v,
                _ => Vec::new(),
            };
            return go(RunState::InteractionTypeEntityTargeting { target_idx: 0, targets, intent, cta: Some(cta) }, None);
        },
        None => {},
    }
    match move_delta(a) {
        Some(_) => {
            let i = match f {
                MapFact::DefaultAction(i) => i,
                _ => InteractionType::Move(0),
            };
            return handle_default_move(i, None);
        },
        None => {},
    }
    match a {
        MapAction::ShowDebugMenu => go(RunState::DebugMenu { highlighted: 0 }, None),
        MapAction::Exit => go(RunState::SavingScreen { count_down: 15 }, None),
        MapAction::ShowInventoryMenu => go(RunState::InventoryMenu { highlighted: 0 }, None),
        MapAction::ShowDropMenu => go(RunState::DropItemMenu { highlighted: 0 }, None),
        MapAction::ShowEquipmentMenu => go(RunState::EquipmentMenu { highlighted: 0, action_highlighted: 0, action_menu: false }, None),
        MapAction::LeaveDungeon => {
            let can_leave = match f {
                MapFact::CanLeave(b) => b,
                _ => false,
            };
            if can_leave {
                go(RunState::ExitGameMenu { highlighted: 0 }, None)
            } else {
                go_with(RunState::AwaitingInput { offset_x: ox, offset_y: oy }, None, Command::Log(Notice::MustFindExit))
            }
        },
        MapAction::ShowActionMenu => go(RunState::ActionMenu { highlighted: 0 }, None),
        MapAction::ScrollDown => go(RunState::AwaitingInput { offset_x: ox, offset_y: oy + 1 }, None),
        MapAction::ScrollUp => go(RunState::AwaitingInput { offset_x: ox, offset_y: oy - 1 }, None),
        MapAction::ScrollLeft => go(RunState::AwaitingInput { offset_x: ox - 1, offset_y: oy }, None),
        MapAction::ScrollRight => go(RunState::AwaitingInput { offset_x: ox + 1, offset_y: oy }, None),
        MapAction::Interact => go(RunState::InteractiveEntityTargeting { target_idx: 0 }, None),
        MapAction::StayStill => go(RunState::PlayerTurn, None),
        MapAction::SearchHidden => go_with(RunState::PlayerTurn, None, Command::SearchHidden),
        _ => go_with(RunState::PlayerTurn, None, Command::ReleaseEntity),
    }
}

/// The result of a path search towards the queued action's tile.
pub struct PathOutcome {
    pub success: bool,
    pub steps: Vec<usize>,
}

/// With no key pressed on the map, the queued action goes on: while the path is long the player
/// takes its next step; next to the target the action is done (a container opens its menu)
/// and the queue empties; an unreachable target empties the queue.
pub open spec fn spec_on_idle(ox: i32, oy: i32, queued: Option<InteractionType>, path: Option<PathOutcome>) -> (RunState, Option<InteractionType>, Seq<Command>) {
    let here = RunState::AwaitingInput { offset_x: ox, offset_y: oy };
    match queued {
        None => (here, None, Seq::empty()),
        Some(i) => {
            let p = path->0;
            if !p.success {
                (here, None, Seq::empty())
            } else if p.steps@.len() > 2 {
                (RunState::PlayerTurn, queued, seq![Command::MoveToPosition(p.steps@[1])])
            } else {
                match i {
                    InteractionType::OpenContainer(target) => (RunState::OpenContainerMenu { highlighted: 0, container: target }, None, Seq::empty()),
                    _ => (RunState::PlayerTurn, None, seq![Command::Interact(i)]),
                }
            }
        },
    }
}

/// The transition for a frame with no key pressed on the map. `path` is the path search from
/// the player to the queued action's tile, made when an action is queued.
pub fn on_idle(ox: i32, oy: i32, queued: Option<InteractionType>, path: Option<PathOutcome>) -> (t: Transition)
    requires
        queued is Some ==> path is Some,
    ensures
        outcome(t) == spec_on_idle(ox, oy, queued, path),
{
    match queued {
        None => go(RunState::AwaitingInput { offset_x: ox, offset_y: oy }, None),
        Some(i) => {
            let p = path.unwrap();
            if !p.success {
                go(RunState::AwaitingInput { offset_x: ox, offset_y: oy }, None)
            } else if p.steps.len() > 2 {
                go_with(RunState::PlayerTurn, queued, Command::MoveToPosition(p.steps[1]))
            } else {
                match i {
                    InteractionType::OpenContainer(target) => go(RunState::OpenContainerMenu { highlighted: 0, container: target }, None),
                    _ => go_with(RunState::PlayerTurn, None, Command::Interact(i)),
                }
            }
        },
    }
}

/// The tile an interaction is aimed at, given where entities stand.
pub open spec fn spec_interaction_idx(i: InteractionType, positions: Seq<Option<crate::components::Position>>) -> usize {
    match i {
        InteractionType::GoUp(idx) => idx,
        InteractionType::GoDown(idx) => idx,
        InteractionType::Move(idx) => idx,
        InteractionType::Exit(idx) => idx,
        InteractionType::Douse(e) => comp(positions, e as int).idx,
        InteractionType::Light(e) => comp(positions, e as int).idx,
        InteractionType::HideIn(e) => comp(positions, e as int).idx,
        InteractionType::Attack(e) => comp(positions, e as int).idx,
        InteractionType::Grab(e) => comp(positions, e as int).idx,
        InteractionType::Disarm(e) => comp(positions, e as int).idx,
        InteractionType::Arm(e) => comp(positions, e as int).idx,
        InteractionType::Pickup(e) => comp(positions, e as int).idx,
        InteractionType::OpenDoor(e) => comp(positions, e as int).idx,
        InteractionType::CloseDoor(e) => comp(positions, e as int).idx,
        InteractionType::OpenContainer(e) => comp(positions, e as int).idx,
    }
}

/// The entity an interaction is aimed at, if it is aimed at one.
pub open spec fn spec_interaction_entity(i: InteractionType) -> Option<Entity> {
    match i {
        InteractionType::GoUp(_) | InteractionType::GoDown(_) | InteractionType::Move(_) | InteractionType::Exit(_) => None,
        InteractionType::Douse(e) => Some(e),
        InteractionType::Light(e) => Some(e),
        InteractionType::HideIn(e) => Some(e),
        InteractionType::Attack(e) => Some(e),
        InteractionType::Grab(e) => Some(e),
        InteractionType::Disarm(e) => Some(e),
        InteractionType::Arm(e) => Some(e),
        InteractionType::Pickup(e) => Some(e),
        InteractionType::OpenDoor(e) => Some(e),
        InteractionType::CloseDoor(e) => Some(e),
        InteractionType::OpenContainer(e) => Some(e),
    }
}

/// The tile an interaction is aimed at: its own tile, or where its entity stands.
pub fn interaction_idx(i: InteractionType, positions: &Vec<Option<crate::components::Position>>) -> (idx: usize)
    requires
        spec_interaction_entity(i) matches Some(e) ==> present(positions@, e as int),
    ensures
        idx == spec_interaction_idx(i, positions@),
{
    match i {
        InteractionType::GoUp(idx) | InteractionType::GoDown(idx) | InteractionType::Move(idx) | InteractionType::Exit(idx) => idx,
        InteractionType::Douse(e) | InteractionType::Light(e) | InteractionType::HideIn(e) | InteractionType::Attack(e)
        | InteractionType::Grab(e) | InteractionType::Disarm(e) | InteractionType::Arm(e) | InteractionType::Pickup(e)
        | InteractionType::OpenDoor(e) | InteractionType::CloseDoor(e) | InteractionType::OpenContainer(e) => {
            get(positions, e).unwrap().idx
        },
    }
}

/// Where a menu key moves the highlight, for the keys that move it.
pub open spec fn spec_nav(m: Menu, h: int, a: MenuAction) -> Option<int> {
    match a {
        MenuAction::MoveHighlightNext => Some(m.spec_next_index(h)),
        MenuAction::MoveHighlightPrev => Some(m.spec_previous_index(h)),
        MenuAction::NextPage => Some(m.spec_next_page_index(h)),
        MenuAction::PreviousPage => Some(m.spec_previous_page_index(h)),
        _ => None,
    }
}

fn nav(m: &Menu, h: usize, a: MenuAction) -> (r: Option<usize>)
    requires
        m.page_size > 0,
    ensures
        r matches Some(v) ==> spec_nav(*m, h as int, a) == Some(v as int),
        r is None <==> spec_nav(*m, h as int, a) is None,
{
    match a {
        MenuAction::MoveHighlightNext => Some(m.get_next_index(h)),
        MenuAction::MoveHighlightPrev => Some(m.get_previous_index(h)),
        MenuAction::NextPage => Some(m.get_next_page_index(h)),
        MenuAction::PreviousPage => Some(m.get_previous_page_index(h)),
        _ => None,
    }
}

/// How many options a page of the game's menus shows.
pub const MENU_PAGE_SIZE: usize = 10;

/// Which of the two backpack menus is open.
#[derive(Clone, Copy, Debug, PartialEq, Eq, Structural)]
pub enum BackpackMenu {
    Use,
    Drop,
}

/// The state of a backpack menu with `h` highlighted.
pub open spec fn spec_backpack_state(kind: BackpackMenu, h: int) -> RunState {
    match kind {
        BackpackMenu::Use => RunState::InventoryMenu { highlighted: h as usize },
        BackpackMenu::Drop => RunState::DropItemMenu { highlighted: h as usize },
    }
}

fn backpack_state(kind: BackpackMenu, h: usize) -> (s: RunState)
    ensures
        s == spec_backpack_state(kind, h as int),
{
    match kind {
        BackpackMenu::Use => RunState::InventoryMenu { highlighted: h },
        BackpackMenu::Drop => RunState::DropItemMenu { highlighted: h },
    }
}

/// A backpack menu over `items`: escape goes back to the map, the highlight keys move, and
/// choosing an item uses it (aiming first when it has a range) or drops it.
pub open spec fn spec_backpack_menu(
    kind: BackpackMenu,
    h: usize,
    a: Option<MenuAction>,
    items: Seq<Entity>,
    ranged: Seq<Option<Ranged>>,
    queued: Option<InteractionType>,
) -> (RunState, Option<InteractionType>, Seq<Command>) {
    let m = Menu { len: items.len() as usize, page_size: MENU_PAGE_SIZE };
    let same = (spec_backpack_state(kind, h as int), queued, Seq::<Command>::empty());
    match a {
        None => same,
        Some(act) => if act == MenuAction::Exit {
            (spec_awaiting_home(), queued, Seq::empty())
        } else if spec_nav(m, h as int, act) is Some {
            (spec_backpack_state(kind, spec_nav(m, h as int, act)->0), queued, Seq::empty())
        } else if act == MenuAction::Select && (h as int) < items.len() {
            let item = items[h as int];
            match kind {
                BackpackMenu::Use => if present(ranged, item as int) {
                    (RunState::ItemUseTargeting { range: comp(ranged, item as int).range, item }, queued, Seq::empty())
                } else {
                    (RunState::PlayerTurn, queued, seq![Command::UseItem { item, target: None }])
                },
                BackpackMenu::Drop => (RunState::PlayerTurn, queued, seq![Command::DropItem(item)]),
            }
        } else {
            same
        },
    }
}

/// The transition of the use or drop menu listing the player's `items`.
pub fn on_backpack_menu(
    kind: BackpackMenu,
    h: usize,
    a: Option<MenuAction>,
    items: &Vec<Entity>,
    ranged: &Vec<Option<Ranged>>,
    queued: Option<InteractionType>,
) -> (t: Transition)
    ensures
        outcome(t) == spec_backpack_menu(kind, h, a, items@, ranged@, queued),
{
    let m = Menu::new(items.len(), MENU_PAGE_SIZE);
    match a {
        None => go(backpack_state(kind, h), queued),
        Some(act) => {
            if act == MenuAction::Exit {
                return go(awaiting_home(), queued);
            }
            match nav(&m, h, act) {
                Some(v) => return go(backpack_state(kind, v), queued),
                None => {},
            }
            if act == MenuAction::Select && h < items.len() {
                let item = items[h];
                match kind {
                    BackpackMenu::Use => match get(ranged, item) {
                        Some(r) => go(RunState::ItemUseTargeting { range: r.range, item }, queued),
                        None => go_with(RunState::PlayerTurn, queued, Command::UseItem { item, target: None }),
                    },
                    BackpackMenu::Drop => go_with(RunState::PlayerTurn, queued, Command::DropItem(item)),
                }
            } else {
                go(backpack_state(kind, h), queued)
            }
        },
    }
}

/// The leave-the-dungeon menu ("Yes" first, "No" second): choosing yes deletes the save and
/// ends the game in success when the objective is in the backpack, in failure otherwise. Its
/// highlight keys move by pages.
pub open spec fn spec_exit_game_menu(h: usize, a: Option<MenuAction>, has_objective: bool, queued: Option<InteractionType>) -> (RunState, Option<InteractionType>, Seq<Command>) {
    let m = Menu { len: 2, page_size: MENU_PAGE_SIZE };
    let same = (RunState::ExitGameMenu { highlighted: h }, queued, Seq::<Command>::empty());
    match a {
        None => same,
        Some(MenuAction::Exit) => (spec_awaiting_home(), queued, Seq::empty()),
        Some(MenuAction::MoveHighlightNext) => (RunState::ExitGameMenu { highlighted: m.spec_next_page_index(h as int) as usize }, queued, Seq::empty()),
        Some(MenuAction::MoveHighlightPrev) => (RunState::ExitGameMenu { highlighted: m.spec_previous_page_index(h as int) as usize }, queued, Seq::empty()),
        Some(MenuAction::Select) => if h == 0 {
            (if has_objective { RunState::SuccessScreen } else { RunState::FailureScreen }, queued, seq![Command::DeleteSave])
        } else {
            (spec_awaiting_home(), queued, Seq::empty())
        },
        Some(_) => same,
    }
}

/// The transition of the leave-the-dungeon menu.
pub fn on_exit_game_menu(h: usize, a: Option<MenuAction>, has_objective: bool, queued: Option<InteractionType>) -> (t: Transition)
    ensures
        outcome(t) == spec_exit_game_menu(h, a, has_objective, queued),
{
    let m = Menu::new(2, MENU_PAGE_SIZE);
    match a {
        None => go(RunState::ExitGameMenu { highlighted: h }, queued),
        Some(MenuAction::Exit) => go(awaiting_home(), queued),
        Some(MenuAction::MoveHighlightNext) => go(RunState::ExitGameMenu { highlighted: m.get_next_page_index(h) }, queued),
        Some(MenuAction::MoveHighlightPrev) => go(RunState::ExitGameMenu { highlighted: m.get_previous_page_index(h) }, queued),
        Some(MenuAction::Select) => if h == 0 {
            if has_objective {
                go_with(RunState::SuccessScreen, queued, Command::DeleteSave)
            } else {
                go_with(RunState::FailureScreen, queued, Command::DeleteSave)
            }
        } else {
            go(awaiting_home(), queued)
        },
        Some(_) => go(RunState::ExitGameMenu { highlighted: h }, queued),
    }
}

/// Aiming an item: escape goes back to the map; choosing uses the item on the target tile, or
/// goes back to the map when no tile is targeted.
pub open spec fn spec_item_targeting(range: i32, item: Entity, target: Option<i32>, a: Option<TargetingAction>, queued: Option<InteractionType>) -> (RunState, Option<InteractionType>, Seq<Command>) {
    match a {
        None => (RunState::ItemUseTargeting { range, item }, queued, Seq::empty()),
        Some(TargetingAction::Exit) => (spec_awaiting_home(), queued, Seq::empty()),
        Some(TargetingAction::Selected) => match target {
            Some(idx) => (RunState::PlayerTurn, queued, seq![Command::UseItem { item, target: Some(idx) }]),
            None => (spec_awaiting_home(), queued, Seq::empty()),
        },
    }
}

/// The transition while aiming an item; `target` is the tile under the cursor, if valid.
pub fn on_item_targeting(range: i32, item: Entity, target: Option<i32>, a: Option<TargetingAction>, queued: Option<InteractionType>) -> (t: Transition)
    ensures
        outcome(t) == spec_item_targeting(range, item, target, a, queued),
{
    match a {
        None => go(RunState::ItemUseTargeting { range, item }, queued),
        Some(TargetingAction::Exit) => go(awaiting_home(), queued),
        Some(TargetingAction::Selected) => match target {
            Some(idx) => go_with(RunState::PlayerTurn, queued, Command::UseItem { item, target: Some(idx) }),
            None => go(awaiting_home(), queued),
        },
    }
}

/// The interaction a targeting screen's intent makes with `target`.
pub open spec fn spec_intent_to_interaction_type(intent: TargetIntent, target: Entity) -> InteractionType {
    match intent {
        TargetIntent::HideIn => InteractionType::HideIn(target),
        TargetIntent::Arm => InteractionType::Arm(target),
        TargetIntent::Grab => InteractionType::Grab(target),
        TargetIntent::Attack => InteractionType::Attack(target),
        TargetIntent::OpenDoor => InteractionType::OpenDoor(target),
        TargetIntent::OpenContainer => InteractionType::OpenContainer(target),
        TargetIntent::Disarm => InteractionType::Disarm(target),
        TargetIntent::Douse => InteractionType::Douse(target),
        TargetIntent::Pickup => InteractionType::Pickup(target),
        TargetIntent::Light => InteractionType::Light(target),
    }
}

/// The interaction a targeting screen's intent makes with `target`.
pub fn intent_to_interaction_type(intent: TargetIntent, target: Entity) -> (i: InteractionType)
    ensures
        i == spec_intent_to_interaction_type(intent, target),
{
    match intent {
        TargetIntent::HideIn => InteractionType::HideIn(target),
        TargetIntent::Arm => InteractionType::Arm(target),
        TargetIntent::Grab => InteractionType::Grab(target),
        TargetIntent::Attack => InteractionType::Attack(target),
        TargetIntent::OpenDoor => InteractionType::OpenDoor(target),
        TargetIntent::OpenContainer => InteractionType::OpenContainer(target),
        TargetIntent::Disarm => InteractionType::Disarm(target),
        TargetIntent::Douse => InteractionType::Douse(target),
        TargetIntent::Pickup => InteractionType::Pickup(target),
        TargetIntent::Light => InteractionType::Light(target),
    }
}

/// The next target in a list of `len`, going round.
pub open spec fn spec_select_next_idx(idx: int, len: int) -> int {
    if len <= 0 { 0 } else if idx + 1 < len { idx + 1 } else { 0 }
}

/// The previous target in a list of `len`, going round.
pub open spec fn spec_select_previous_idx(idx: int, len: int) -> int {
    if len <= 0 { 0 } else if 0 < idx && idx <= len { idx - 1 } else { len - 1 }
}

/// The next target in a list of `len`, going round.
pub fn select_next_idx(idx: usize, len: usize) -> (r: usize)
    ensures
        r == spec_select_next_idx(idx as int, len as int),
{
    if len == 0 { 0 } else if idx < len - 1 { idx + 1 } else { 0 }
}

/// The previous target in a list of `len`, going round.
pub fn select_previous_idx(idx: usize, len: usize) -> (r: usize)
    ensures
        r == spec_select_previous_idx(idx as int, len as int),
{
    if len == 0 { 0 } else if 0 < idx && idx <= len { idx - 1 } else { len - 1 }
}

/// The menu of what can be done to `target`: escape goes back to choosing a target; choosing an
/// option queues it and returns to the map.
pub open spec fn spec_interact_menu(h: usize, target: Entity, options: Seq<InteractionType>, a: Option<MenuAction>, queued: Option<InteractionType>) -> (RunState, Option<InteractionType>, Seq<Command>) {
    let m = Menu { len: options.len() as usize, page_size: MENU_PAGE_SIZE };
    let same = (RunState::InteractMenu { highlighted: h, target }, queued, Seq::<Command>::empty());
    match a {
        None => same,
        Some(act) => if act == MenuAction::Exit {
            (RunState::InteractiveEntityTargeting { target_idx: 0 }, queued, Seq::empty())
        } else if act == MenuAction::Select {
            (spec_awaiting_home(), if (h as int) < options.len() { Some(options[h as int]) } else { queued }, Seq::empty())
        } else if spec_nav(m, h as int, act) is Some {
            (RunState::InteractMenu { highlighted: spec_nav(m, h as int, act)->0 as usize, target }, queued, Seq::empty())
        } else {
            same
        },
    }
}

/// The transition of the menu of what can be done to `target`, offering `options`.
pub fn on_interact_menu(h: usize, target: Entity, options: &Vec<InteractionType>, a: Option<MenuAction>, queued: Option<InteractionType>) -> (t: Transition)
    ensures
        outcome(t) == spec_interact_menu(h, target, options@, a, queued),
{
    let m = Menu::new(options.len(), MENU_PAGE_SIZE);
    match a {
        None => go(RunState::InteractMenu { highlighted: h, target }, queued),
        Some(act) => {
            if act == MenuAction::Exit {
                return go(RunState::InteractiveEntityTargeting { target_idx: 0 }, queued);
            }
            if act == MenuAction::Select {
                let q = if h < options.len() { Some(options[h]) } else { queued };
                return go(awaiting_home(), q);
            }
            match nav(&m, h, act) {
                Some(v) => go(RunState::InteractMenu { highlighted: v, target }, queued),
                None => go(RunState::InteractMenu { highlighted: h, target }, queued),
            }
        },
    }
}

/// Choosing something to interact with among `targets`: choosing opens its menu; escape, or
/// choosing with nothing listed, goes back to the map; the arrows cycle.
pub open spec fn spec_interactive_targeting(idx: usize, targets: Seq<Entity>, a: Option<InteractionTargetingAction>, queued: Option<InteractionType>) -> (RunState, Option<InteractionType>, Seq<Command>) {
    match a {
        None => (RunState::InteractiveEntityTargeting { target_idx: idx }, queued, Seq::empty()),
        Some(InteractionTargetingAction::Selected) => if (idx as int) < targets.len() {
            (RunState::InteractMenu { highlighted: 0, target: targets[idx as int] }, queued, Seq::empty())
        } else {
            (spec_awaiting_home(), queued, Seq::empty())
        },
        Some(InteractionTargetingAction::Exit) => (spec_awaiting_home(), queued, Seq::empty()),
        Some(InteractionTargetingAction::Next) => (RunState::InteractiveEntityTargeting { target_idx: spec_select_next_idx(idx as int, targets.len() as int) as usize }, queued, Seq::empty()),
        Some(InteractionTargetingAction::Previous) => (RunState::InteractiveEntityTargeting { target_idx: spec_select_previous_idx(idx as int, targets.len() as int) as usize }, queued, Seq::empty()),
    }
}

/// The transition while choosing something to interact with among `targets`.
pub fn on_interactive_targeting(idx: usize, targets: &Vec<Entity>, a: Option<InteractionTargetingAction>, queued: Option<InteractionType>) -> (t: Transition)
    ensures
        outcome(t) == spec_interactive_targeting(idx, targets@, a, queued),
{
    match a {
        None => go(RunState::InteractiveEntityTargeting { target_idx: idx }, queued),
        Some(InteractionTargetingAction::Selected) => if idx < targets.len() {
            go(RunState::InteractMenu { highlighted: 0, target: targets[idx] }, queued)
        } else {
            go(awaiting_home(), queued)
        },
        Some(InteractionTargetingAction::Exit) => go(awaiting_home(), queued),
        Some(InteractionTargetingAction::Next) => go(RunState::InteractiveEntityTargeting { target_idx: select_next_idx(idx, targets.len()) }, queued),
        Some(InteractionTargetingAction::Previous) => go(RunState::InteractiveEntityTargeting { target_idx: select_previous_idx(idx, targets.len()) }, queued),
    }
}

/// Choosing a target for `intent` among the listed `targets`: choosing queues the interaction
/// with the highlighted target, if any, and returns to the map; the arrows cycle.
pub open spec fn spec_typed_targeting(
    idx: usize,
    targets: Vec<Entity>,
    intent: TargetIntent,
    cta: Option<CallToAction>,
    a: Option<InteractionTargetingAction>,
    queued: Option<InteractionType>,
) -> (RunState, Option<InteractionType>, Seq<Command>) {
    let n = targets@.len() as int;
    match a {
        None => (RunState::InteractionTypeEntityTargeting { target_idx: idx, targets, intent, cta }, queued, Seq::empty()),
        Some(InteractionTargetingAction::Selected) => (
            spec_awaiting_home(),
            if (idx as int) < n { Some(spec_intent_to_interaction_type(intent, targets@[idx as int])) } else { queued },
            Seq::empty(),
        ),
        Some(InteractionTargetingAction::Exit) => (spec_awaiting_home(), queued, Seq::empty()),
        Some(InteractionTargetingAction::Next) => (
            RunState::InteractionTypeEntityTargeting { target_idx: spec_select_next_idx(idx as int, n) as usize, targets, intent, cta },
            queued,
            Seq::empty(),
        ),
        Some(InteractionTargetingAction::Previous) => (
            RunState::InteractionTypeEntityTargeting { target_idx: spec_select_previous_idx(idx as int, n) as usize, targets, intent, cta },
            queued,
            Seq::empty(),
        ),
    }
}

/// The transition while choosing a target for `intent`.
pub fn on_typed_targeting(
    idx: usize,
    targets: Vec<Entity>,
    intent: TargetIntent,
    cta: Option<CallToAction>,
    a: Option<InteractionTargetingAction>,
    queued: Option<InteractionType>,
) -> (t: Transition)
    ensures
        outcome(t) == spec_typed_targeting(idx, targets, intent, cta, a, queued),
{
    let n = targets.len();
    match a {
        None => go(RunState::InteractionTypeEntityTargeting { target_idx: idx, targets, intent, cta }, queued),
        Some(InteractionTargetingAction::Selected) => {
            let q = if idx < n { Some(intent_to_interaction_type(intent, targets[idx])) } else { queued };
            go(awaiting_home(), q)
        },
        Some(InteractionTargetingAction::Exit) => go(awaiting_home(), queued),
        Some(InteractionTargetingAction::Next) => {
            let i = select_next_idx(idx, n);
            go(RunState::InteractionTypeEntityTargeting { target_idx: i, targets, intent, cta }, queued)
        },
        Some(InteractionTargetingAction::Previous) => {
            let i = select_previous_idx(idx, n);
            go(RunState::InteractionTypeEntityTargeting { target_idx: i, targets, intent, cta }, queued)
        },
    }
}

/// A container's menu over its `items`: choosing takes the highlighted item, "take all" takes
/// every item, and either passes the turn.
pub open spec fn spec_container_menu(h: usize, container: Entity, items: Seq<Entity>, all: Vec<Entity>, a: Option<MenuAction>, queued: Option<InteractionType>) -> (RunState, Option<InteractionType>, Seq<Command>) {
    let m = Menu { len: items.len() as usize, page_size: MENU_PAGE_SIZE };
    let same = (RunState::OpenContainerMenu { highlighted: h, container }, queued, Seq::<Command>::empty());
    match a {
        None => same,
        Some(act) => if act == MenuAction::Exit {
            (spec_awaiting_home(), queued, Seq::empty())
        } else if spec_nav(m, h as int, act) is Some {
            (RunState::OpenContainerMenu { highlighted: spec_nav(m, h as int, act)->0 as usize, container }, queued, Seq::empty())
        } else if act == MenuAction::Select {
            if (h as int) < items.len() {
                (RunState::PlayerTurn, queued, seq![Command::PickupItem { item: items[h as int], container }])
            } else {
                same
            }
        } else if act == MenuAction::SelectAll {
            (RunState::PlayerTurn, queued, seq![Command::PickupItems { items: all, container }])
        } else {
            same
        },
    }
}

/// The transition of a container's menu listing its `items`.
pub fn on_container_menu(h: usize, container: Entity, items: Vec<Entity>, a: Option<MenuAction>, queued: Option<InteractionType>) -> (t: Transition)
    ensures
        outcome(t) == spec_container_menu(h, container, items@, items, a, queued),
{
    let m = Menu::new(items.len(), MENU_PAGE_SIZE);
    match a {
        None => go(RunState::OpenContainerMenu { highlighted: h, container }, queued),
        Some(act) => {
            if act == MenuAction::Exit {
                return go(awaiting_home(), queued);
            }
            match nav(&m, h, act) {
                Some(v) => return go(RunState::OpenContainerMenu { highlighted: v, container }, queued),
                None => {},
            }
            if act == MenuAction::Select {
                if h < items.len() {
                    let item = items[h];
                    go_with(RunState::PlayerTurn, queued, Command::PickupItem { item, container })
                } else {
                    go(RunState::OpenContainerMenu { highlighted: h, container }, queued)
                }
            } else if act == MenuAction::SelectAll {
                go_with(RunState::PlayerTurn, queued, Command::PickupItems { items, container })
            } else {
                go(RunState::OpenContainerMenu { highlighted: h, container }, queued)
            }
        },
    }
}

/// The number of entries in the action menu.
pub const ACTION_MENU_LEN: usize = 13;

/// The targeting screen that action-menu entry `h` opens, if it opens one.
pub open spec fn spec_action_menu_targeting(h: usize) -> Option<(TargetKind, TargetIntent, CallToAction)> {
    if h == 2 { Some((TargetKind::Container, TargetIntent::OpenContainer, CallToAction::OpenContainer)) }
    else if h == 4 { Some((TargetKind::Disarmable, TargetIntent::Disarm, CallToAction::Disarm)) }
    else if h == 5 { Some((TargetKind::Armable, TargetIntent::Disarm, CallToAction::Disarm)) }
    else if h == 6 { Some((TargetKind::Grabbable, TargetIntent::Grab, CallToAction::Grab)) }
    else if h == 8 { Some((TargetKind::CombatStats, TargetIntent::Attack, CallToAction::Attack)) }
    else if h == 9 { Some((TargetKind::HidingSpot, TargetIntent::HideIn, CallToAction::Hide)) }
    else if h == 10 { Some((TargetKind::Dousable, TargetIntent::Douse, CallToAction::Douse)) }
    else if h == 11 { Some((TargetKind::Lightable, TargetIntent::Light, CallToAction::Light)) }
    else { None }
}

/// The targeting screen that action-menu entry `h` opens, if it opens one.
pub fn action_menu_targeting(h: usize) -> (r: Option<(TargetKind, TargetIntent, CallToAction)>)
    ensures
        r == spec_action_menu_targeting(h),
{
    if h == 2 { Some((TargetKind::Container, TargetIntent::OpenContainer, CallToAction::OpenContainer)) }
    else if h == 4 { Some((TargetKind::Disarmable, TargetIntent::Disarm, CallToAction::Disarm)) }
    else if h == 5 { Some((TargetKind::Armable, TargetIntent::Disarm, CallToAction::Disarm)) }
    else if h == 6 { Some((TargetKind::Grabbable, TargetIntent::Grab, CallToAction::Grab)) }
    else if h == 8 { Some((TargetKind::CombatStats, TargetIntent::Attack, CallToAction::Attack)) }
    else if h == 9 { Some((TargetKind::HidingSpot, TargetIntent::HideIn, CallToAction::Hide)) }
    else if h == 10 { Some((TargetKind::Dousable, TargetIntent::Douse, CallToAction::Douse)) }
    else if h == 11 { Some((TargetKind::Lightable, TargetIntent::Light, CallToAction::Light)) }
    else { None }
}

/// The action menu: use, drop, open, search, disarm, arm, grab, release, attack, hide, douse,
/// light, equipment. Entries that need a target open a targeting screen over `targets`, the
/// targets of the kind `action_menu_targeting` names.
pub open spec fn spec_action_menu(h: usize, a: Option<MenuAction>, targets: Option<Vec<Entity>>, queued: Option<InteractionType>) -> (RunState, Option<InteractionType>, Seq<Command>) {
    let m = Menu { len: ACTION_MENU_LEN, page_size: MENU_PAGE_SIZE };
    let same = (RunState::ActionMenu { highlighted: h }, queued, Seq::<Command>::empty());
    match a {
        Some(MenuAction::MoveHighlightNext) => (RunState::ActionMenu { highlighted: m.spec_next_index(h as int) as usize }, queued, Seq::empty()),
        Some(MenuAction::MoveHighlightPrev) => (RunState::ActionMenu { highlighted: m.spec_previous_index(h as int) as usize }, queued, Seq::empty()),
        Some(MenuAction::Exit) => (spec_awaiting_home(), queued, Seq::empty()),
        Some(MenuAction::Select) => if spec_action_menu_targeting(h) is Some {
            let (_, intent, cta) = spec_action_menu_targeting(h)->0;
            (RunState::InteractionTypeEntityTargeting { target_idx: 0, targets: targets->0, intent, cta: Some(cta) }, queued, Seq::empty())
        } else if h == 0 {
            (RunState::InventoryMenu { highlighted: 0 }, queued, Seq::empty())
        } else if h == 1 {
            (RunState::DropItemMenu { highlighted: 0 }, queued, Seq::empty())
        } else if h == 3 {
            (RunState::PlayerTurn, queued, seq![Command::SearchHidden])
        } else if h == 7 {
            (spec_awaiting_home(), queued, seq![Command::ReleaseEntity])
        } else if h == 12 {
            (RunState::EquipmentMenu { highlighted: 0, action_highlighted: 0, action_menu: false }, queued, Seq::empty())
        } else {
            same
        },
        _ => same,
    }
}

/// The transition of the action menu; `targets` answers `action_menu_targeting(h)` when a
/// choice is made on an entry that needs one.
pub fn on_action_menu(h: usize, a: Option<MenuAction>, targets: Option<Vec<Entity>>, queued: Option<InteractionType>) -> (t: Transition)
    requires
        a == Some(MenuAction::Select) && spec_action_menu_targeting(h) is Some ==> targets is Some,
    ensures
        outcome(t) == spec_action_menu(h, a, targets, queued),
{
    let m = Menu::new(ACTION_MENU_LEN, MENU_PAGE_SIZE);
    match a {
        Some(MenuAction::MoveHighlightNext) => go(RunState::ActionMenu { highlighted: m.get_next_index(h) }, queued),
        Some(MenuAction::MoveHighlightPrev) => go(RunState::ActionMenu { highlighted: m.get_previous_index(h) }, queued),
        Some(MenuAction::Exit) => go(awaiting_home(), queued),
        Some(MenuAction::Select) => match action_menu_targeting(h) {
            Some((_, intent, cta)) => go(RunState::InteractionTypeEntityTargeting { target_idx: 0, targets: targets.unwrap(), intent, cta: Some(cta) }, queued),
            None => if h == 0 {
                go(RunState::InventoryMenu { highlighted: 0 }, queued)
            } else if h == 1 {
                go(RunState::DropItemMenu { highlighted: 0 }, queued)
            } else if h == 3 {
                go_with(RunState::PlayerTurn, queued, Command::SearchHidden)
            } else if h == 7 {
                go_with(awaiting_home(), queued, Command::ReleaseEntity)
            } else if h == 12 {
                go(RunState::EquipmentMenu { highlighted: 0, action_highlighted: 0, action_menu: false }, queued)
            } else {
                go(RunState::ActionMenu { highlighted: h }, queued)
            },
        },
        _ => go(RunState::ActionMenu { highlighted: h }, queued),
    }
}

/// Choosing what to hold in `position` among `choices` ("nothing" first): choosing equips it and
/// passes the turn; both highlight keys move to the next entry.
pub open spec fn spec_equip_menu(h: usize, position: EquipmentPositions, choices: Seq<Option<Entity>>, a: Option<MenuAction>, queued: Option<InteractionType>) -> (RunState, Option<InteractionType>, Seq<Command>) {
    let m = Menu { len: choices.len() as usize, page_size: MENU_PAGE_SIZE };
    let same = (RunState::EquipMenu { highlighted: h, position }, queued, Seq::<Command>::empty());
    match a {
        Some(MenuAction::MoveHighlightNext) => (RunState::EquipMenu { highlighted: m.spec_next_index(h as int) as usize, position }, queued, Seq::empty()),
        Some(MenuAction::MoveHighlightPrev) => (RunState::EquipMenu { highlighted: m.spec_next_index(h as int) as usize, position }, queued, Seq::empty()),
        Some(MenuAction::Exit) => (RunState::EquipmentMenu { highlighted: 0, action_highlighted: 0, action_menu: false }, queued, Seq::empty()),
        Some(MenuAction::Select) => (RunState::PlayerTurn, queued, seq![Command::EquipItem { choice: choices[h as int], position }]),
        _ => same,
    }
}

/// The transition of the menu of things to hold in `position`.
pub fn on_equip_menu(h: usize, position: EquipmentPositions, choices: &Vec<Option<Entity>>, a: Option<MenuAction>, queued: Option<InteractionType>) -> (t: Transition)
    requires
        a == Some(MenuAction::Select) ==> h < choices@.len(),
    ensures
        outcome(t) == spec_equip_menu(h, position, choices@, a, queued),
{
    let m = Menu::new(choices.len(), MENU_PAGE_SIZE);
    match a {
        Some(MenuAction::MoveHighlightNext) => go(RunState::EquipMenu { highlighted: m.get_next_index(h), position }, queued),
        Some(MenuAction::MoveHighlightPrev) => go(RunState::EquipMenu { highlighted: m.get_next_index(h), position }, queued),
        Some(MenuAction::Exit) => go(RunState::EquipmentMenu { highlighted: 0, action_highlighted: 0, action_menu: false }, queued),
        Some(MenuAction::Select) => go_with(RunState::PlayerTurn, queued, Command::EquipItem { choice: choices[h], position }),
        _ => go(RunState::EquipMenu { highlighted: h, position }, queued),
    }
}

/// What the equipment screen offers for a slot holding `item` in `position`: exchanging it, and
/// lighting or dousing what is held when that can be done.
pub open spec fn spec_equipment_submenu(position: EquipmentPositions, item: Option<Entity>, lightable: bool, dousable: bool) -> Seq<EquipMenuType> {
    let base = seq![EquipMenuType::Exchange(position)];
    match item {
        None => base,
        Some(e) => {
            let lit = if lightable { base.push(EquipMenuType::Light(e)) } else { base };
            if dousable { lit.push(EquipMenuType::Douse(e)) } else { lit }
        },
    }
}

/// What the equipment screen offers for a slot holding `item` in `position`.
pub fn equipment_submenu(position: EquipmentPositions, item: Option<Entity>, lightable: bool, dousable: bool) -> (r: Vec<EquipMenuType>)
    ensures
        r@ == spec_equipment_submenu(position, item, lightable, dousable),
{
    let mut r = Vec::new();
    r.push(EquipMenuType::Exchange(position));
    match item {
        None => {},
        Some(e) => {
            if lightable {
                r.push(EquipMenuType::Light(e));
            }
            if dousable {
                r.push(EquipMenuType::Douse(e));
            }
        },
    }
    r
}

/// The equipment screen: the slots on the left, what can be done to the highlighted slot on the
/// right, and the tab keys switching columns. In the right column both highlight keys move to
/// the next entry.
pub open spec fn spec_equipment_menu(h: usize, ah: usize, am: bool, slot_count: usize, actions: Seq<EquipMenuType>, a: Option<MenuAction>, queued: Option<InteractionType>) -> (RunState, Option<InteractionType>, Seq<Command>) {
    let m = Menu { len: slot_count, page_size: MENU_PAGE_SIZE };
    let sub = Menu { len: actions.len() as usize, page_size: MENU_PAGE_SIZE };
    let same = (RunState::EquipmentMenu { highlighted: h, action_highlighted: ah, action_menu: am }, queued, Seq::<Command>::empty());
    match a {
        Some(MenuAction::MoveHighlightNext) => (RunState::EquipmentMenu {
            highlighted: if am { h } else { m.spec_next_index(h as int) as usize },
            action_highlighted: if am { sub.spec_next_index(ah as int) as usize } else { ah },
            action_menu: am,
        }, queued, Seq::empty()),
        Some(MenuAction::MoveHighlightPrev) => (RunState::EquipmentMenu {
            highlighted: if am { h } else { m.spec_previous_index(h as int) as usize },
            action_highlighted: if am { sub.spec_next_index(ah as int) as usize } else { ah },
            action_menu: am,
        }, queued, Seq::empty()),
        Some(MenuAction::Exit) => (spec_awaiting_home(), queued, Seq::empty()),
        Some(MenuAction::Select) => match actions[ah as int] {
            EquipMenuType::Exchange(position) => (RunState::EquipMenu { highlighted: 0, position }, queued, Seq::empty()),
            EquipMenuType::Douse(e) => (RunState::PlayerTurn, queued, seq![Command::DouseItem(e)]),
            EquipMenuType::Light(e) => (RunState::PlayerTurn, queued, seq![Command::LightItem(e)]),
        },
        Some(MenuAction::NextMenu) | Some(MenuAction::PreviousMenu) =>
            (RunState::EquipmentMenu { highlighted: h, action_highlighted: ah, action_menu: !am }, queued, Seq::empty()),
        _ => same,
    }
}

/// The transition of the equipment screen with `slot_count` slots and `actions` offered for the
/// highlighted one.
pub fn on_equipment_menu(h: usize, ah: usize, am: bool, slot_count: usize, actions: &Vec<EquipMenuType>, a: Option<MenuAction>, queued: Option<InteractionType>) -> (t: Transition)
    requires
        a == Some(MenuAction::Select) ==> ah < actions@.len(),
    ensures
        outcome(t) == spec_equipment_menu(h, ah, am, slot_count, actions@, a, queued),
{
    let m = Menu::new(slot_count, MENU_PAGE_SIZE);
    let sub = Menu::new(actions.len(), MENU_PAGE_SIZE);
    match a {
        Some(MenuAction::MoveHighlightNext) => go(RunState::EquipmentMenu {
            highlighted: if am { h } else { m.get_next_index(h) },
            action_highlighted: if am { sub.get_next_index(ah) } else { ah },
            action_menu: am,
        }, queued),
        Some(MenuAction::MoveHighlightPrev) => go(RunState::EquipmentMenu {
            highlighted: if am { h } else { m.get_previous_index(h) },
            action_highlighted: if am { sub.get_next_index(ah) } else { ah },
            action_menu: am,
        }, queued),
        Some(MenuAction::Exit) => go(awaiting_home(), queued),
        Some(MenuAction::Select) => match actions[ah] {
            EquipMenuType::Exchange(position) => go(RunState::EquipMenu { highlighted: 0, position }, queued),
            EquipMenuType::Douse(e) => go_with(RunState::PlayerTurn, queued, Command::DouseItem(e)),
            EquipMenuType::Light(e) => go_with(RunState::PlayerTurn, queued, Command::LightItem(e)),
        },
        Some(MenuAction::NextMenu) | Some(MenuAction::PreviousMenu) =>
            go(RunState::EquipmentMenu { highlighted: h, action_highlighted: ah, action_menu: !am }, queued),
        _ => go(RunState::EquipmentMenu { highlighted: h, action_highlighted: ah, action_menu: am }, queued),
    }
}

/// The screens of text: the introduction starts the game or goes back to the main menu; death,
/// failure and the credits go back to the main menu; success shows the credits. Without a key
/// the screen stays.
pub open spec fn spec_static_screen(s: RunState, a: Option<StaticAction>, queued: Option<InteractionType>) -> (RunState, Option<InteractionType>, Seq<Command>) {
    let next = match a {
        None => s,
        Some(act) => match s {
            RunState::IntroScreen => if act == StaticAction::Exit { RunState::MainMenu { highlighted: 0 } } else { RunState::PreRun },
            RunState::SuccessScreen => RunState::CreditsScreen,
            _ => RunState::MainMenu { highlighted: 0 },
        },
    };
    (next, queued, Seq::empty())
}

/// The transition of a screen of text.
pub fn on_static_screen(s: RunState, a: Option<StaticAction>, queued: Option<InteractionType>) -> (t: Transition)
    requires
        s is IntroScreen || s is DeathScreen || s is SuccessScreen || s is FailureScreen || s is CreditsScreen,
    ensures
        outcome(t) == spec_static_screen(s, a, queued),
{
    match a {
        None => go(s, queued),
        Some(act) => match s {
            RunState::IntroScreen => if act == StaticAction::Exit {
                go(RunState::MainMenu { highlighted: 0 }, queued)
            } else {
                go(RunState::PreRun, queued)
            },
            RunState::SuccessScreen => go(RunState::CreditsScreen, queued),
            _ => go(RunState::MainMenu { highlighted: 0 }, queued),
        },
    }
}

/// The screens that count frames down: saving, loading and preparing a new game each count down
/// to zero and then do their work.
pub open spec fn spec_countdown(s: RunState, queued: Option<InteractionType>) -> (RunState, Option<InteractionType>, Seq<Command>) {
    match s {
        RunState::SavingScreen { count_down } => if count_down > 0 {
            (RunState::SavingScreen { count_down: (count_down - 1) as u32 }, queued, Seq::empty())
        } else {
            (RunState::MainMenu { highlighted: 0 }, queued, seq![Command::SaveGame])
        },
        RunState::LoadingScreen { count_down } => if count_down > 0 {
            (RunState::LoadingScreen { count_down: (count_down - 1) as u32 }, queued, Seq::empty())
        } else {
            (spec_awaiting_home(), queued, seq![Command::LoadGame, Command::DeleteSave])
        },
        RunState::NewGameScreen { count_down } => if count_down > 0 {
            (RunState::NewGameScreen { count_down: (count_down - 1) as u32 }, queued, Seq::empty())
        } else {
            (RunState::IntroScreen, queued, seq![Command::InitializeNewGame])
        },
        _ => (s, queued, Seq::empty()),
    }
}

/// The transition of a counting-down screen.
pub fn on_countdown(s: RunState, queued: Option<InteractionType>) -> (t: Transition)
    requires
        s is SavingScreen || s is LoadingScreen || s is NewGameScreen,
    ensures
        outcome(t) == spec_countdown(s, queued),
{
    match s {
        RunState::SavingScreen { count_down } => if count_down > 0 {
            go(RunState::SavingScreen { count_down: count_down - 1 }, queued)
        } else {
            go_with(RunState::MainMenu { highlighted: 0 }, queued, Command::SaveGame)
        },
        RunState::LoadingScreen { count_down } => if count_down > 0 {
            go(RunState::LoadingScreen { count_down: count_down - 1 }, queued)
        } else {
            let mut commands = Vec::new();
            commands.push(Command::LoadGame);
            commands.push(Command::DeleteSave);
            Transition { next: awaiting_home(), queued, commands }
        },
        RunState::NewGameScreen { count_down } => if count_down > 0 {
            go(RunState::NewGameScreen { count_down: count_down - 1 }, queued)
        } else {
            go_with(RunState::IntroScreen, queued, Command::InitializeNewGame)
        },
        _ => go(s, queued),
    }
}

/// Waiting for a key to bind to `action`: escape goes back to the options; a modifier is
/// ignored; any other key replaces the action's binding.
pub open spec fn spec_set_key(action: MapAction, h: usize, key: Option<KeyPress>, queued: Option<InteractionType>) -> (RunState, Option<InteractionType>, Seq<Command>) {
    match key {
        None => (RunState::SetKey { action, highlighted: h }, queued, Seq::empty()),
        Some(KeyPress::Escape) => (RunState::OptionsScreen { highlighted: h }, queued, Seq::empty()),
        Some(KeyPress::Modifier) => (RunState::SetKey { action, highlighted: h }, queued, Seq::empty()),
        Some(KeyPress::Other) => (RunState::OptionsScreen { highlighted: h }, queued, seq![Command::UnbindKey(action), Command::BindKey(action)]),
    }
}

/// The transition while waiting for a key to bind.
pub fn on_set_key(action: MapAction, h: usize, key: Option<KeyPress>, queued: Option<InteractionType>) -> (t: Transition)
    ensures
        outcome(t) == spec_set_key(action, h, key, queued),
{
    match key {
        None => go(RunState::SetKey { action, highlighted: h }, queued),
        Some(KeyPress::Escape) => go(RunState::OptionsScreen { highlighted: h }, queued),
        Some(KeyPress::Modifier) => go(RunState::SetKey { action, highlighted: h }, queued),
        Some(KeyPress::Other) => {
            let mut commands = Vec::new();
            commands.push(Command::UnbindKey(action));
            commands.push(Command::BindKey(action));
            Transition { next: RunState::OptionsScreen { highlighted: h }, queued, commands }
        },
    }
}

/// The map actions listed on the options screen, in order.
pub open spec fn spec_map_actions() -> Seq<MapAction> {
    seq![
        MapAction::Exit, MapAction::ShowInventoryMenu, MapAction::ShowDropMenu, MapAction::ShowEquipmentMenu,
        MapAction::LeaveDungeon, MapAction::ShowActionMenu, MapAction::SearchContainer, MapAction::GrabFurniture,
        MapAction::DisarmTrap, MapAction::ArmTrap, MapAction::Hide, MapAction::PickupItem, MapAction::OpenDoor,
        MapAction::Attack, MapAction::ScrollDown, MapAction::ScrollUp, MapAction::ScrollLeft, MapAction::ScrollRight,
        MapAction::Interact, MapAction::MoveLeft, MapAction::MoveRight, MapAction::MoveUp, MapAction::MoveDown,
        MapAction::MoveUpLeft, MapAction::MoveUpRight, MapAction::MoveDownLeft, MapAction::MoveDownRight,
        MapAction::StayStill, MapAction::SearchHidden, MapAction::ReleaseFurniture,
    ]
}

/// The map actions listed on the options screen, in order.
pub fn map_actions() -> (r: Vec<MapAction>)
    ensures
        r@ == spec_map_actions(),
{
    let r = vec![
        MapAction::Exit, MapAction::ShowInventoryMenu, MapAction::ShowDropMenu, MapAction::ShowEquipmentMenu,
        MapAction::LeaveDungeon, MapAction::ShowActionMenu, MapAction::SearchContainer, MapAction::GrabFurniture,
        MapAction::DisarmTrap, MapAction::ArmTrap, MapAction::Hide, MapAction::PickupItem, MapAction::OpenDoor,
        MapAction::Attack, MapAction::ScrollDown, MapAction::ScrollUp, MapAction::ScrollLeft, MapAction::ScrollRight,
        MapAction::Interact, MapAction::MoveLeft, MapAction::MoveRight, MapAction::MoveUp, MapAction::MoveDown,
        MapAction::MoveUpLeft, MapAction::MoveUpRight, MapAction::MoveDownLeft, MapAction::MoveDownRight,
        MapAction::StayStill, MapAction::SearchHidden, MapAction::ReleaseFurniture,
    ];
    assert(r@ =~= spec_map_actions());
    r
}

/// The options screen, one page listing every map action: escape saves the settings and goes
/// back to the main menu; choosing waits for a key for the highlighted action; delete clears
/// its binding.
pub open spec fn spec_options(h: usize, a: Option<MenuAction>, queued: Option<InteractionType>) -> (RunState, Option<InteractionType>, Seq<Command>) {
    let acts = spec_map_actions();
    let m = Menu { len: acts.len() as usize, page_size: acts.len() as usize };
    let same = (RunState::OptionsScreen { highlighted: h }, queued, Seq::<Command>::empty());
    match a {
        Some(MenuAction::Exit) => (RunState::MainMenu { highlighted: 0 }, queued, seq![Command::SaveSettings]),
        Some(MenuAction::Select) => (RunState::SetKey { action: acts[h as int], highlighted: h }, queued, Seq::empty()),
        Some(MenuAction::Delete) => (RunState::OptionsScreen { highlighted: h }, queued, seq![Command::UnbindKey(acts[h as int])]),
        Some(MenuAction::MoveHighlightNext) => (RunState::OptionsScreen { highlighted: m.spec_next_index(h as int) as usize }, queued, Seq::empty()),
        Some(MenuAction::MoveHighlightPrev) => (RunState::OptionsScreen { highlighted: m.spec_previous_index(h as int) as usize }, queued, Seq::empty()),
        _ => same,
    }
}

/// The transition of the options screen.
pub fn on_options(h: usize, a: Option<MenuAction>, queued: Option<InteractionType>) -> (t: Transition)
    requires
        a == Some(MenuAction::Select) || a == Some(MenuAction::Delete) ==> h < spec_map_actions().len(),
    ensures
        outcome(t) == spec_options(h, a, queued),
{
    let acts = map_actions();
    let m = Menu::new(acts.len(), acts.len());
    match a {
        Some(MenuAction::Exit) => go_with(RunState::MainMenu { highlighted: 0 }, queued, Command::SaveSettings),
        Some(MenuAction::Select) => go(RunState::SetKey { action: acts[h], highlighted: h }, queued),
        Some(MenuAction::Delete) => go_with(RunState::OptionsScreen { highlighted: h }, queued, Command::UnbindKey(acts[h])),
        Some(MenuAction::MoveHighlightNext) => go(RunState::OptionsScreen { highlighted: m.get_next_index(h) }, queued),
        Some(MenuAction::MoveHighlightPrev) => go(RunState::OptionsScreen { highlighted: m.get_previous_index(h) }, queued),
        _ => go(RunState::OptionsScreen { highlighted: h }, queued),
    }
}

/// The number of entries on the main menu: new game, continue, options, credits, quit.
pub const MAIN_MENU_LEN: usize = 5;

/// The main menu: choosing starts a new game, loads the saved one, opens the options or the
/// credits, or quits.
pub open spec fn spec_main_menu(h: usize, a: Option<MenuAction>, queued: Option<InteractionType>) -> (RunState, Option<InteractionType>, Seq<Command>) {
    let m = Menu { len: MAIN_MENU_LEN, page_size: MENU_PAGE_SIZE };
    let same = (RunState::MainMenu { highlighted: h }, queued, Seq::<Command>::empty());
    match a {
        Some(MenuAction::MoveHighlightNext) => (RunState::MainMenu { highlighted: m.spec_next_index(h as int) as usize }, queued, Seq::empty()),
        Some(MenuAction::MoveHighlightPrev) => (RunState::MainMenu { highlighted: m.spec_previous_index(h as int) as usize }, queued, Seq::empty()),
        Some(MenuAction::Select) => if h == 0 {
            (RunState::NewGameScreen { count_down: 15 }, queued, Seq::empty())
        } else if h == 1 {
            (RunState::LoadingScreen { count_down: 15 }, queued, Seq::empty())
        } else if h == 2 {
            (RunState::OptionsScreen { highlighted: 0 }, queued, Seq::empty())
        } else if h == 3 {
            (RunState::CreditsScreen, queued, Seq::empty())
        } else if h == 4 {
            (RunState::MainMenu { highlighted: h }, queued, seq![Command::Quit])
        } else {
            same
        },
        _ => same,
    }
}

/// The transition of the main menu.
pub fn on_main_menu(h: usize, a: Option<MenuAction>, queued: Option<InteractionType>) -> (t: Transition)
    ensures
        outcome(t) == spec_main_menu(h, a, queued),
{
    let m = Menu::new(MAIN_MENU_LEN, MENU_PAGE_SIZE);
    match a {
        Some(MenuAction::MoveHighlightNext) => go(RunState::MainMenu { highlighted: m.get_next_index(h) }, queued),
        Some(MenuAction::MoveHighlightPrev) => go(RunState::MainMenu { highlighted: m.get_previous_index(h) }, queued),
        Some(MenuAction::Select) => if h == 0 {
            go(RunState::NewGameScreen { count_down: 15 }, queued)
        } else if h == 1 {
            go(RunState::LoadingScreen { count_down: 15 }, queued)
        } else if h == 2 {
            go(RunState::OptionsScreen { highlighted: 0 }, queued)
        } else if h == 3 {
            go(RunState::CreditsScreen, queued)
        } else if h == 4 {
            go_with(RunState::MainMenu { highlighted: h }, queued, Command::Quit)
        } else {
            go(RunState::MainMenu { highlighted: h }, queued)
        },
        _ => go(RunState::MainMenu { highlighted: h }, queued),
    }
}

/// The debug menu: removing every monster, or revealing the map, each noted in the log.
pub open spec fn spec_debug_menu(h: usize, a: Option<MenuAction>, queued: Option<InteractionType>) -> (RunState, Option<InteractionType>, Seq<Command>) {
    let m = Menu { len: 2, page_size: MENU_PAGE_SIZE };
    let same = (RunState::DebugMenu { highlighted: h }, queued, Seq::<Command>::empty());
    match a {
        Some(MenuAction::MoveHighlightNext) => (RunState::DebugMenu { highlighted: m.spec_next_index(h as int) as usize }, queued, Seq::empty()),
        Some(MenuAction::MoveHighlightPrev) => (RunState::DebugMenu { highlighted: m.spec_previous_index(h as int) as usize }, queued, Seq::empty()),
        Some(MenuAction::Select) => if h == 0 {
            (spec_awaiting_home(), queued, seq![Command::KillAllMonsters, Command::Log(Notice::MonstersRemoved)])
        } else if h == 1 {
            (spec_awaiting_home(), queued, seq![Command::RevealMap, Command::Log(Notice::MapRevealed)])
        } else {
            same
        },
        _ => same,
    }
}

/// The transition of the debug menu.
pub fn on_debug_menu(h: usize, a: Option<MenuAction>, queued: Option<InteractionType>) -> (t: Transition)
    ensures
        outcome(t) == spec_debug_menu(h, a, queued),
{
    let m = Menu::new(2, MENU_PAGE_SIZE);
    match a {
        Some(MenuAction::MoveHighlightNext) => go(RunState::DebugMenu { highlighted: m.get_next_index(h) }, queued),
        Some(MenuAction::MoveHighlightPrev) => go(RunState::DebugMenu { highlighted: m.get_previous_index(h) }, queued),
        Some(MenuAction::Select) => if h == 0 {
            let mut commands = Vec::new();
            commands.push(Command::KillAllMonsters);
            commands.push(Command::Log(Notice::MonstersRemoved));
            Transition { next: awaiting_home(), queued, commands }
        } else if h == 1 {
            let mut commands = Vec::new();
            commands.push(Command::RevealMap);
            commands.push(Command::Log(Notice::MapRevealed));
            Transition { next: awaiting_home(), queued, commands }
        } else {
            go(RunState::DebugMenu { highlighted: h }, queued)
        },
        _ => go(RunState::DebugMenu { highlighted: h }, queued),
    }
}

} // verus!
