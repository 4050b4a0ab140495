use vstd::prelude::*;
use crate::components::{CombatStats, Confused, Door, Memory, Monster, Position, Viewshed, WantsToMelee, WantsToMove, WantsToOpenDoor};
use crate::ecs::{alive, comp, contains, get, get_ref, lookup, present, put, stored, Entities, Entity};
use crate::level::{Level, TileType};

verus! {

/// What a monster can decide to do.
#[derive(Clone, Copy, Debug, PartialEq, Eq, Structural)]
pub enum Action {
    Attack(Entity),
    Chase(usize),
    MoveTo(usize),
    OpenDoor { door: Entity, idx: usize },
}

/// How much a monster wants an action, as the inputs of the weighing.
#[derive(Clone, Copy, Debug, PartialEq, Eq, Structural)]
pub enum Weight {
    /// Attacking a target with this many hit points.
    Attack { target_hp: i32 },
    /// Chasing a target with this many hit points, this many steps away.
    Chase { target_hp: i32, steps: i32 },
    /// Walking a path of this many steps; furniture in the way counts more.
    Move { steps: i32, through_furniture: bool },
}

/// A candidate action and how much it is wanted.
#[derive(Clone, Copy, Debug, PartialEq, Eq, Structural)]
pub struct WeightedAction {
    pub action: Action,
    pub weight: Weight,
}

/// The first step of a path found from a start to an end, and the path's length: only for a
/// path that was found and leads somewhere else.
pub open spec fn spec_next_step(success: bool, steps: Seq<usize>) -> Option<(usize, usize)> {
    if success && steps.len() > 1 { Some((steps[1], steps.len() as usize)) } else { None }
}

/// The step to take along a path search result.
pub fn get_next_step(success: bool, steps: &Vec<usize>) -> (r: Option<(usize, usize)>)
    ensures
        r == spec_next_step(success, steps@),
{
    if success && steps.len() > 1 { Some((steps[1], steps.len())) } else { None }
}

/// The first entity on tile `idx` that has a component in `storage`.
pub open spec fn first_with<C>(contents: Seq<Entity>, storage: Seq<Option<C>>) -> Option<Entity>
    decreases contents.len(),
{
    if contents.len() == 0 {
        None
    } else if present(storage, contents[0] as int) {
        Some(contents[0])
    } else {
        first_with(contents.drop_first(), storage)
    }
}

fn find_first_with<C>(contents: &Vec<Entity>, storage: &Vec<Option<C>>) -> (r: Option<Entity>)
    ensures
        r == first_with(contents@, storage@),
{
    let mut i: usize = 0;
    assert(contents@.skip(0) =~= contents@);
    while i < contents.len()
        invariant
            i <= contents@.len(),
            first_with(contents@, storage@) == first_with(contents@.skip(i as int), storage@),
        decreases contents@.len() - i,
    {
        if contains(storage, contents[i]) {
            return Some(contents[i]);
        }
        assert(contents@.skip(i as int).drop_first() =~= contents@.skip(i + 1));
        i += 1;
    }
    None
}

/// The action of stepping onto tile `idx`, `step_count` steps from the goal: opening the door
/// that stands there, breaking the furniture that blocks it, or walking onto it.
pub open spec fn spec_move_action(level: &Level, idx: int, step_count: i32, furniture: Seq<Option<crate::components::Grabbable>>, doors: Seq<Option<Door>>) -> WeightedAction {
    let contents = level.tile_content@[idx]@;
    if level.tiles@[idx] == TileType::Door && first_with(contents, doors) is Some {
        WeightedAction {
            action: Action::OpenDoor { door: first_with(contents, doors)->0, idx: idx as usize },
            weight: Weight::Move { steps: step_count, through_furniture: false },
        }
    } else if level.tiles@[idx] != TileType::Door && level.blocked@[idx] && first_with(contents, furniture) is Some {
        WeightedAction {
            action: Action::Attack(first_with(contents, furniture)->0),
            weight: Weight::Move { steps: step_count, through_furniture: true },
        }
    } else {
        WeightedAction {
            action: Action::MoveTo(idx as usize),
            weight: Weight::Move { steps: step_count, through_furniture: false },
        }
    }
}

/// What a monster does to get onto tile `move_idx`.
pub fn get_move_action(
    level: &Level,
    move_idx: usize,
    step_count: i32,
    furniture_storage: &Vec<Option<crate::components::Grabbable>>,
    door_storage: &Vec<Option<Door>>,
) -> (a: WeightedAction)
    requires
        level.wf(),
        move_idx < level.tiles@.len(),
    ensures
        a == spec_move_action(level, move_idx as int, step_count, furniture_storage@, door_storage@),
{
    if level.tiles[move_idx] == TileType::Door {
        match find_first_with(&level.tile_content[move_idx], door_storage) {
            Some(door) => {
                return WeightedAction {
                    action: Action::OpenDoor { door, idx: move_idx },
                    weight: Weight::Move { steps: step_count, through_furniture: false },
                };
            },
            None => {},
        }
    } else if level.blocked[move_idx] {
        match find_first_with(&level.tile_content[move_idx], furniture_storage) {
            Some(thing) => {
                return WeightedAction {
                    action: Action::Attack(thing),
                    weight: Weight::Move { steps: step_count, through_furniture: true },
                };
            },
            None => {},
        }
    }
    WeightedAction {
        action: Action::MoveTo(move_idx),
        weight: Weight::Move { steps: step_count, through_furniture: false },
    }
}

/// Whether tiles `a` and `b` of a grid `width` wide are the same or touch, diagonals included:
/// their straight-line distance is below one and a half tiles.
pub open spec fn spec_within_reach(width: int, a: int, b: int) -> bool {
    let dx = a % width - b % width;
    let dy = a / width - b / width;
    dx * dx + dy * dy <= 2
}

/// Whether tiles `a` and `b` are the same or touch, diagonals included.
pub fn within_reach(width: i32, a: usize, b: usize) -> (r: bool)
    requires
        width > 0,
        a <= i32::MAX,
        b <= i32::MAX,
    ensures
        r == spec_within_reach(width as int, a as int, b as int),
{
    let w = width as i64;
    let ax = (a as i64) % w;
    let ay = (a as i64) / w;
    let bx = (b as i64) % w;
    let by = (b as i64) / w;
    let dx = ax - bx;
    let dy = ay - by;
    proof {
        vstd::arithmetic::div_mod::lemma_div_pos_is_pos(a as int, w as int);
        vstd::arithmetic::div_mod::lemma_div_pos_is_pos(b as int, w as int);
        vstd::arithmetic::div_mod::lemma_div_is_ordered_by_denominator(a as int, 1, w as int);
        vstd::arithmetic::div_mod::lemma_div_is_ordered_by_denominator(b as int, 1, w as int);
        assert(-(w as int) < dx < w);
        assert(0 <= ay <= a && 0 <= by <= b);
    }
    if dx > 2 || dx < -2 || dy > 2 || dy < -2 {
        proof {
            assert(dx * dx + dy * dy > 2) by (nonlinear_arith)
                requires dx > 2 || dx < -2 || dy > 2 || dy < -2;
        }
        false
    } else {
        proof {
            assert(0 <= dx * dx <= 4 && 0 <= dy * dy <= 4) by (nonlinear_arith)
                requires -2 <= dx <= 2, -2 <= dy <= 2;
        }
        dx * dx + dy * dy <= 2
    }
}

/// The move toward the end of a path, if a step was found: `spec_move_action` for the first step.
pub open spec fn spec_move_action_from_path(level: &Level, next: Option<(usize, usize)>, furniture: Seq<Option<crate::components::Grabbable>>, doors: Seq<Option<Door>>) -> Option<WeightedAction> {
    match next {
        Some((step, count)) => Some(spec_move_action(level, step as int, count as i32, furniture, doors)),
        None => None,
    }
}

/// What a monster does to follow a path whose next step (and length) is `next`.
pub fn get_move_action_from_path(
    level: &Level,
    next: Option<(usize, usize)>,
    furniture_storage: &Vec<Option<crate::components::Grabbable>>,
    door_storage: &Vec<Option<Door>>,
) -> (a: Option<WeightedAction>)
    requires
        level.wf(),
        next matches Some((step, count)) ==> step < level.tiles@.len() && count <= i32::MAX,
    ensures
        a == spec_move_action_from_path(level, next, furniture_storage@, door_storage@),
{
    match next {
        Some((step, count)) => Some(get_move_action(level, step, count as i32, furniture_storage, door_storage)),
        None => None,
    }
}

/// What a monster at tile `cur` wants to do about a target at tile `target_idx` with `target_hp`
/// hit points: attack it when within reach, otherwise chase it along `path` when it can see it.
pub open spec fn spec_target_candidate(
    entity: Entity,
    width: int,
    cur: int,
    target_idx: int,
    target_hp: i32,
    sees_target: bool,
    path: Option<(usize, usize)>,
) -> Option<WeightedAction> {
    if spec_within_reach(width, cur, target_idx) {
        Some(WeightedAction { action: Action::Attack(entity), weight: Weight::Attack { target_hp } })
    } else if sees_target {
        match path {
            Some((step, count)) => Some(WeightedAction {
                action: Action::Chase(step),
                weight: Weight::Chase { target_hp, steps: count as i32 },
            }),
            None => None,
        }
    } else {
        None
    }
}

/// Attack a target within reach, or chase a visible one along `path`. For the player this is
/// the player's tile and path; for a hiding spot, its tile, with the path toward the player that
/// the chase follows.
pub fn target_candidate(
    entity: Entity,
    width: i32,
    cur: usize,
    target_idx: usize,
    target_hp: i32,
    sees_target: bool,
    path: Option<(usize, usize)>,
) -> (a: Option<WeightedAction>)
    requires
        width > 0,
        cur <= i32::MAX,
        target_idx <= i32::MAX,
        path matches Some((step, count)) ==> count <= i32::MAX,
    ensures
        a == spec_target_candidate(entity, width as int, cur as int, target_idx as int, target_hp, sees_target, path),
{
    if within_reach(width, cur, target_idx) {
        Some(WeightedAction { action: Action::Attack(entity), weight: Weight::Attack { target_hp } })
    } else if sees_target {
        match path {
            Some((step, count)) => Some(WeightedAction {
                action: Action::Chase(step),
                weight: Weight::Chase { target_hp, steps: count as i32 },
            }),
            None => None,
        }
    } else {
        None
    }
}

/// The candidates that are present, in order.
pub open spec fn somes(s: Seq<Option<WeightedAction>>) -> Seq<WeightedAction>
    decreases s.len(),
{
    if s.len() == 0 {
        Seq::empty()
    } else {
        let prev = somes(s.drop_last());
        match s.last() {
            Some(a) => prev.push(a),
            None => prev,
        }
    }
}

/// A monster's candidate actions in the order it weighs them: about the player (unless the
/// player hides), about each remembered enemy position, about each remembered hiding spot, and
/// about where it wanders.
pub fn collect_candidates(
    player: Option<WeightedAction>,
    remembered: &Vec<Option<WeightedAction>>,
    hiding_spots: &Vec<Option<WeightedAction>>,
    wander: Option<WeightedAction>,
) -> (c: Vec<WeightedAction>)
    ensures
        c@ == somes(seq![player] + remembered@ + hiding_spots@ + seq![wander]),
{
    let mut all: Vec<Option<WeightedAction>> = Vec::new();
    all.push(player);
    let mut i: usize = 0;
    while i < remembered.len()
        invariant
            i <= remembered@.len(),
            all@ == seq![player] + remembered@.subrange(0, i as int),
        decreases remembered@.len() - i,
    {
        all.push(remembered[i]);
        i += 1;
        assert(all@ =~= seq![player] + remembered@.subrange(0, i as int));
    }
    let mut j: usize = 0;
    while j < hiding_spots.len()
        invariant
            j <= hiding_spots@.len(),
            all@ == seq![player] + remembered@ + hiding_spots@.subrange(0, j as int),
        decreases hiding_spots@.len() - j,
    {
        all.push(hiding_spots[j]);
        j += 1;
        assert(all@ =~= seq![player] + remembered@ + hiding_spots@.subrange(0, j as int));
    }
    all.push(wander);
    assert(all@ =~= seq![player] + remembered@ + hiding_spots@ + seq![wander]);
    let mut out: Vec<WeightedAction> = Vec::new();
    let mut k: usize = 0;
    while k < all.len()
        invariant
            k <= all@.len(),
            out@ == somes(all@.subrange(0, k as int)),
        decreases all@.len() - k,
    {
        assert(all@.subrange(0, k + 1).drop_last() =~= all@.subrange(0, k as int));
        match all[k] {
            Some(a) => out.push(a),
            None => {},
        }
        k += 1;
    }
    assert(all@.subrange(0, all@.len() as int) =~= all@);
    out
}

/// What a monster knows about a hiding spot it remembers an enemy in, the spot still standing:
/// the spot, its tile, its hit points, and whether the monster sees that tile.
#[derive(Clone, Copy, Debug, PartialEq, Eq, Structural)]
pub struct SpotSighting {
    pub spot: Entity,
    pub idx: usize,
    pub hp: i32,
    pub seen: bool,
}

/// The candidate about the player: none while the player hides.
pub open spec fn spec_player_candidate(
    player: Entity,
    width: int,
    cur: int,
    player_idx: int,
    player_hp: i32,
    player_hiding: bool,
    sees_player: bool,
    path_to_player: Option<(usize, usize)>,
) -> Option<WeightedAction> {
    if player_hiding {
        None
    } else {
        spec_target_candidate(player, width, cur, player_idx, player_hp, sees_player, path_to_player)
    }
}

/// The candidates about remembered enemy positions, one per path found toward them.
pub open spec fn spec_remembered_candidates(
    level: &Level,
    paths: Seq<Option<(usize, usize)>>,
    furniture: Seq<Option<crate::components::Grabbable>>,
    doors: Seq<Option<Door>>,
) -> Seq<Option<WeightedAction>> {
    Seq::new(paths.len(), |i: int| spec_move_action_from_path(level, paths[i], furniture, doors))
}

/// The candidates about remembered hiding spots; a seen spot out of reach is chased along the
/// path toward the player.
pub open spec fn spec_spot_candidates(width: int, cur: int, spots: Seq<SpotSighting>, path_to_player: Option<(usize, usize)>) -> Seq<Option<WeightedAction>> {
    Seq::new(spots.len(), |i: int| spec_target_candidate(spots[i].spot, width, cur, spots[i].idx as int, spots[i].hp,
        spots[i].seen, path_to_player))
}

/// Whether a path result can be followed on `level`: its step is a tile and its length fits.
pub open spec fn path_fits(level: &Level, path: Option<(usize, usize)>) -> bool {
    path matches Some((step, count)) ==> step < level.tiles@.len() && count <= i32::MAX
}

/// A monster's candidate actions on `level`, standing on `cur`, from what it knows: the player
/// (unless hiding), the paths toward remembered enemy positions, the remembered hiding spots,
/// and the path toward where it wanders; in that order, leaving out what gives nothing.
pub fn monster_candidates(
    level: &Level,
    cur: usize,
    player: Entity,
    player_idx: usize,
    player_hp: i32,
    player_hiding: bool,
    sees_player: bool,
    path_to_player: Option<(usize, usize)>,
    remembered_paths: &Vec<Option<(usize, usize)>>,
    spots: &Vec<SpotSighting>,
    wander_path: Option<(usize, usize)>,
    furniture: &Vec<Option<crate::components::Grabbable>>,
    doors: &Vec<Option<Door>>,
) -> (r: Vec<WeightedAction>)
    requires
        level.wf(),
        cur <= i32::MAX,
        player_idx <= i32::MAX,
        path_to_player matches Some((step, count)) ==> count <= i32::MAX,
        forall|i: int| 0 <= i < remembered_paths@.len() ==> path_fits(level, #[trigger] remembered_paths@[i]),
        forall|i: int| 0 <= i < spots@.len() ==> (#[trigger] spots@[i]).idx <= i32::MAX,
        path_fits(level, wander_path),
    ensures
        r@ == somes(
            seq![spec_player_candidate(player, level.width as int, cur as int, player_idx as int, player_hp, player_hiding,
                sees_player, path_to_player)]
                + spec_remembered_candidates(level, remembered_paths@, furniture@, doors@)
                + spec_spot_candidates(level.width as int, cur as int, spots@, path_to_player)
                + seq![spec_move_action_from_path(level, wander_path, furniture@, doors@)],
        ),
{
    let player_candidate = if player_hiding {
        None
    } else {
        target_candidate(player, level.width, cur, player_idx, player_hp, sees_player, path_to_player)
    };
    let mut remembered: Vec<Option<WeightedAction>> = Vec::new();
    let mut i: usize = 0;
    while i < remembered_paths.len()
        invariant
            level.wf(),
            i <= remembered_paths@.len(),
            forall|k: int| 0 <= k < remembered_paths@.len() ==> path_fits(level, #[trigger] remembered_paths@[k]),
            remembered@ == spec_remembered_candidates(level, remembered_paths@, furniture@, doors@).subrange(0, i as int),
        decreases remembered_paths@.len() - i,
    {
        assert(path_fits(level, remembered_paths@[i as int]));
        let a = get_move_action_from_path(level, remembered_paths[i], furniture, doors);
        remembered.push(a);
        i += 1;
        assert(remembered@ =~= spec_remembered_candidates(level, remembered_paths@, furniture@, doors@).subrange(0, i as int));
    }
    let mut seen_spots: Vec<Option<WeightedAction>> = Vec::new();
    let mut j: usize = 0;
    while j < spots.len()
        invariant
            level.wf(),
            cur <= i32::MAX,
            j <= spots@.len(),
            forall|k: int| 0 <= k < spots@.len() ==> (#[trigger] spots@[k]).idx <= i32::MAX,
            path_to_player matches Some((step, count)) ==> count <= i32::MAX,
            seen_spots@ == spec_spot_candidates(level.width as int, cur as int, spots@, path_to_player).subrange(0, j as int),
        decreases spots@.len() - j,
    {
        let s = spots[j];
        assert(s.idx <= i32::MAX);
        let a = target_candidate(s.spot, level.width, cur, s.idx, s.hp, s.seen, path_to_player);
        seen_spots.push(a);
        j += 1;
        assert(seen_spots@ =~= spec_spot_candidates(level.width as int, cur as int, spots@, path_to_player).subrange(0, j as int));
    }
    let wander = get_move_action_from_path(level, wander_path, furniture, doors);
    assert(remembered@ =~= spec_remembered_candidates(level, remembered_paths@, furniture@, doors@));
    assert(seen_spots@ =~= spec_spot_candidates(level.width as int, cur as int, spots@, path_to_player));
    collect_candidates(player_candidate, &remembered, &seen_spots, wander)
}

/// A monster's turn: a confused monster only counts its confusion down (and shakes it off when it
/// runs out); otherwise, on the player's level, the action chosen for it becomes an intent.
pub open spec fn monster_acts(inp: MonsterInputs, e: int) -> bool {
    &&& alive(inp.alive, e)
    &&& present(inp.monsters, e)
    &&& present(inp.viewsheds, e)
    &&& present(inp.positions, e)
    &&& present(inp.memory, e)
}

/// The storages a monster turn reads.
pub struct MonsterInputs {
    pub alive: Seq<bool>,
    pub monsters: Seq<Option<Monster>>,
    pub viewsheds: Seq<Option<Viewshed>>,
    pub positions: Seq<Option<Position>>,
    pub memory: Seq<Option<Memory>>,
}

/// The intents the chosen action of monster `e` on level `level` leaves behind.
pub open spec fn intent_for(
    melee: Seq<Option<WantsToMelee>>,
    moves: Seq<Option<WantsToMove>>,
    doors: Seq<Option<WantsToOpenDoor>>,
    e: int,
    level: u8,
    choice: Option<Action>,
) -> (Seq<Option<WantsToMelee>>, Seq<Option<WantsToMove>>, Seq<Option<WantsToOpenDoor>>) {
    match choice {
        Some(Action::Chase(idx)) => (melee, stored(moves, e, Some(WantsToMove { idx })), doors),
        Some(Action::MoveTo(idx)) => (melee, stored(moves, e, Some(WantsToMove { idx })), doors),
        Some(Action::Attack(target)) => (stored(melee, e, Some(WantsToMelee { target })), moves, doors),
        Some(Action::OpenDoor { door, idx }) => (melee, moves, stored(doors, e, Some(WantsToOpenDoor { idx, level }))),
        None => (melee, moves, doors),
    }
}

/// What a monster found out this turn by searching paths: the path toward the player, one
/// path per remembered enemy position on its level, and the path toward where it wanders.
pub struct MonsterKnowledge {
    pub path_to_player: Option<(usize, usize)>,
    pub remembered_paths: Vec<Option<(usize, usize)>>,
    pub wander_path: Option<(usize, usize)>,
}

/// How a monster sees the hiding spots it remembers, `spots[0..k]` in order: each spot that still
/// stands somewhere, with its tile, its hit points (0 when it has none) and whether the monster
/// sees that tile among `visible`.
pub open spec fn spot_sightings(
    spots: Seq<(Entity, Entity)>,
    positions: Seq<Option<Position>>,
    stats: Seq<Option<CombatStats>>,
    visible: Seq<usize>,
    k: int,
) -> Seq<SpotSighting>
    decreases k,
{
    if k <= 0 {
        Seq::empty()
    } else {
        let prev = spot_sightings(spots, positions, stats, visible, k - 1);
        let spot = spots[k - 1].1;
        if present(positions, spot as int) {
            let idx = comp(positions, spot as int).idx;
            prev.push(SpotSighting {
                spot,
                idx,
                hp: if present(stats, spot as int) { comp(stats, spot as int).hp } else { 0 },
                seen: visible.contains(idx),
            })
        } else {
            prev
        }
    }
}

proof fn lemma_spot_sightings_from(
    spots: Seq<(Entity, Entity)>,
    positions: Seq<Option<Position>>,
    stats: Seq<Option<CombatStats>>,
    visible: Seq<usize>,
    k: int,
)
    requires
        0 <= k <= spots.len(),
    ensures
        forall|i: int| 0 <= i < spot_sightings(spots, positions, stats, visible, k).len() ==> exists|j: int| 0 <= j < k && {
            let s = #[trigger] spot_sightings(spots, positions, stats, visible, k)[i];
            &&& s.spot == (#[trigger] spots[j]).1
            &&& present(positions, s.spot as int)
            &&& s.idx == comp(positions, s.spot as int).idx
            &&& s.hp == (if present(stats, s.spot as int) { comp(stats, s.spot as int).hp } else { 0 })
            &&& s.seen == visible.contains(s.idx)
        },
    decreases k,
{
    if k > 0 {
        lemma_spot_sightings_from(spots, positions, stats, visible, k - 1);
        let prev = spot_sightings(spots, positions, stats, visible, k - 1);
        let cur = spot_sightings(spots, positions, stats, visible, k);
        assert forall|i: int| 0 <= i < cur.len() implies exists|j: int| 0 <= j < k && {
            let s = #[trigger] spot_sightings(spots, positions, stats, visible, k)[i];
            &&& s.spot == (#[trigger] spots[j]).1
            &&& present(positions, s.spot as int)
            &&& s.idx == comp(positions, s.spot as int).idx
            &&& s.hp == (if present(stats, s.spot as int) { comp(stats, s.spot as int).hp } else { 0 })
            &&& s.seen == visible.contains(s.idx)
        } by {
            if i < prev.len() {
                assert(cur[i] == prev[i]);
                let j = choose|j: int| 0 <= j < k - 1 && {
                    let s = #[trigger] spot_sightings(spots, positions, stats, visible, k - 1)[i];
                    &&& s.spot == (#[trigger] spots[j]).1
                    &&& present(positions, s.spot as int)
                    &&& s.idx == comp(positions, s.spot as int).idx
                    &&& s.hp == (if present(stats, s.spot as int) { comp(stats, s.spot as int).hp } else { 0 })
                    &&& s.seen == visible.contains(s.idx)
                };
                assert(0 <= j < k);
            } else {
                assert(0 <= k - 1 < k && cur[i].spot == spots[k - 1].1);
            }
        }
    }
}

/// Whether what a monster found out can be weighed on `level`.
pub open spec fn knowledge_fits(level: &Level, k: MonsterKnowledge) -> bool {
    &&& (k.path_to_player matches Some((step, count)) ==> count <= i32::MAX)
    &&& forall|i: int| 0 <= i < k.remembered_paths@.len() ==> path_fits(level, #[trigger] k.remembered_paths@[i])
    &&& path_fits(level, k.wander_path)
}

/// A monster's candidate actions, as `monster_candidates` lists them.
pub open spec fn spec_monster_candidates(
    level: &Level,
    cur: int,
    player: Entity,
    player_idx: int,
    player_hp: i32,
    player_hiding: bool,
    sees_player: bool,
    k: MonsterKnowledge,
    spots: Seq<SpotSighting>,
    furniture: Seq<Option<crate::components::Grabbable>>,
    doors: Seq<Option<Door>>,
) -> Seq<WeightedAction> {
    somes(
        seq![spec_player_candidate(player, level.width as int, cur, player_idx, player_hp, player_hiding, sees_player, k.path_to_player)]
            + spec_remembered_candidates(level, k.remembered_paths@, furniture, doors)
            + spec_spot_candidates(level.width as int, cur, spots, k.path_to_player)
            + seq![spec_move_action_from_path(level, k.wander_path, furniture, doors)],
    )
}

/// What the monsters' turn reads to weigh each monster's candidates.
pub struct ChoiceInputs {
    pub level: Level,
    pub positions: Seq<Option<Position>>,
    pub viewsheds: Seq<Option<Viewshed>>,
    pub memory: Seq<Option<Memory>>,
    pub combat_stats: Seq<Option<CombatStats>>,
    pub player: Entity,
    pub player_hp: i32,
    pub player_hiding: bool,
    pub knowledge: Seq<Option<MonsterKnowledge>>,
    pub picks: Seq<Option<usize>>,
    pub furniture: Seq<Option<crate::components::Grabbable>>,
    pub doors: Seq<Option<Door>>,
}

/// How monster `e` sees the hiding spots it remembers.
pub open spec fn sightings_of(ci: ChoiceInputs, e: int) -> Seq<SpotSighting> {
    let spots = comp(ci.memory, e).known_enemy_hiding_spots@;
    spot_sightings(spots, ci.positions, ci.combat_stats, comp(ci.viewsheds, e).visible_tiles@, spots.len() as int)
}

/// The candidates of monster `e`.
pub open spec fn candidates_of(ci: ChoiceInputs, e: int) -> Seq<WeightedAction> {
    let player_idx = comp(ci.positions, ci.player as int).idx as int;
    spec_monster_candidates(&ci.level, comp(ci.positions, e).idx as int, ci.player, player_idx, ci.player_hp, ci.player_hiding,
        comp(ci.viewsheds, e).visible_tiles@.contains(player_idx as usize), comp(ci.knowledge, e), sightings_of(ci, e),
        ci.furniture, ci.doors)
}

/// Whether the hit points of every remembered hiding spot of monster `e` that it would attack or
/// chase on `level` can be read: a spot still standing within its reach, or one it sees while a
/// path toward the player was found.
pub open spec fn spots_readable(
    level: &Level,
    positions: Seq<Option<Position>>,
    viewsheds: Seq<Option<Viewshed>>,
    memory: Seq<Option<Memory>>,
    combat_stats: Seq<Option<CombatStats>>,
    knowledge: Seq<Option<MonsterKnowledge>>,
    e: int,
) -> bool {
    forall|i: int| 0 <= i < comp(memory, e).known_enemy_hiding_spots@.len() ==> {
        let spot = (#[trigger] comp(memory, e).known_enemy_hiding_spots@[i]).1 as int;
        present(positions, spot) && (spec_within_reach(level.width as int, comp(positions, e).idx as int,
            comp(positions, spot).idx as int)
            || (comp(viewsheds, e).visible_tiles@.contains(comp(positions, spot).idx)
                && comp(knowledge, e).path_to_player is Some))
        ==> present(combat_stats, spot)
    }
}

/// The action of monster `e`: the candidate picked for it by weighing, when it has a list of
/// what it found out and the pick is one of its candidates; no action otherwise.
pub open spec fn monster_choice(ci: ChoiceInputs, e: int) -> Option<Action> {
    match lookup(ci.picks, e) {
        Some(p) => if present(ci.knowledge, e) && (p as int) < candidates_of(ci, e).len() {
            Some(candidates_of(ci, e)[p as int].action)
        } else {
            None
        },
        None => None,
    }
}

/// Runs the monsters' turn.
pub struct MonsterAI {}

impl MonsterAI {
    /// Every existing monster with a viewshed, position and memory takes its turn in entity
    /// order. A confused one loses a turn of confusion (and is no longer confused below one) and
    /// does nothing else. One on the player's level weighs its candidates (`monster_candidates`
    /// over the paths it found, the hiding spots of its memory where they stand, the player's
    /// tile and hit points, whether the player hides and whether it sees the player's tile) and
    /// gets the intent of the candidate picked for it, `monster_choice`; others do nothing. So a
    /// new attack on the player comes only from an unconfused monster on the player's level,
    /// next to a player who does not hide, unless the player is furniture or one of the hiding
    /// spots the monster remembers.
    pub fn run(
        &mut self,
        entities: &Entities,
        viewsheds: &Vec<Option<Viewshed>>,
        positions: &Vec<Option<Position>>,
        monsters: &Vec<Option<Monster>>,
        memory: &Vec<Option<Memory>>,
        dungeon: &crate::dungeon::Dungeon,
        player: Entity,
        combat_stats: &Vec<Option<CombatStats>>,
        hiding: &Vec<Option<crate::components::Hiding>>,
        knowledge: &Vec<Option<MonsterKnowledge>>,
        picks: &Vec<Option<usize>>,
        furniture: &Vec<Option<crate::components::Grabbable>>,
        doors: &Vec<Option<Door>>,
        wants_to_melee: &mut Vec<Option<WantsToMelee>>,
        confused: &mut Vec<Option<Confused>>,
        wants_to_move: &mut Vec<Option<WantsToMove>>,
        wants_to_open_door: &mut Vec<Option<WantsToOpenDoor>>,
    )
        requires
            forall|e: int| #[trigger] present(old(confused)@, e) ==> comp(old(confused)@, e).turns > i32::MIN,
            present(positions@, player as int),
            present(combat_stats@, player as int),
            (comp(positions@, player as int).level as int) < dungeon.levels@.len(),
            dungeon.levels@[comp(positions@, player as int).level as int].wf(),
            forall|e: int| #[trigger] present(positions@, e) ==> comp(positions@, e).idx <= i32::MAX,
            forall|e: int| #[trigger] present(knowledge@, e) ==> knowledge_fits(
                &dungeon.levels@[comp(positions@, player as int).level as int], comp(knowledge@, e)),
            forall|e: int| monster_acts(
                (MonsterInputs { alive: entities.alive@, monsters: monsters@, viewsheds: viewsheds@, positions: positions@, memory: memory@ }), e)
                && !present(old(confused)@, e) && comp(positions@, e).level == comp(positions@, player as int).level
                && present(knowledge@, e)
                ==> #[trigger] spots_readable(&dungeon.levels@[comp(positions@, player as int).level as int], positions@, viewsheds@,
                    memory@, combat_stats@, knowledge@, e),
        ensures
            forall|e: int| #[trigger] lookup(final(wants_to_melee)@, e) == Some(WantsToMelee { target: player })
                && lookup(old(wants_to_melee)@, e) != Some(WantsToMelee { target: player })
                && !present(furniture@, player as int)
                && (forall|i: int| 0 <= i < comp(memory@, e).known_enemy_hiding_spots@.len()
                    ==> (#[trigger] comp(memory@, e).known_enemy_hiding_spots@[i]).1 != player)
                ==> {
                    &&& !present(old(confused)@, e)
                    &&& present(positions@, e)
                    &&& comp(positions@, e).level == comp(positions@, player as int).level
                    &&& !present(hiding@, player as int)
                    &&& spec_within_reach(dungeon.levels@[comp(positions@, player as int).level as int].width as int,
                        comp(positions@, e).idx as int, comp(positions@, player as int).idx as int)
                },
            forall|e: int| #[trigger] lookup(final(confused)@, e) == (
                if monster_acts(MonsterInputs { alive: entities.alive@, monsters: monsters@, viewsheds: viewsheds@, positions: positions@, memory: memory@ }, e)
                    && present(old(confused)@, e) {
                    if comp(old(confused)@, e).turns - 1 < 1 { None } else { Some(Confused { turns: (comp(old(confused)@, e).turns - 1) as i32 }) }
                } else {
                    lookup(old(confused)@, e)
                }),
            forall|e: int| {
                let inp = MonsterInputs { alive: entities.alive@, monsters: monsters@, viewsheds: viewsheds@, positions: positions@, memory: memory@ };
                let pl = comp(positions@, player as int).level;
                let ci = ChoiceInputs {
                    level: dungeon.levels@[pl as int],
                    positions: positions@,
                    viewsheds: viewsheds@,
                    memory: memory@,
                    combat_stats: combat_stats@,
                    player,
                    player_hp: comp(combat_stats@, player as int).hp,
                    player_hiding: present(hiding@, player as int),
                    knowledge: knowledge@,
                    picks: picks@,
                    furniture: furniture@,
                    doors: doors@,
                };
                let chosen = monster_acts(inp, e) && !present(old(confused)@, e) && comp(positions@, e).level == pl;
                let choice = if chosen { monster_choice(ci, e) } else { None };
                &&& #[trigger] lookup(final(wants_to_melee)@, e) == (match choice {
                    Some(Action::Attack(target)) => Some(WantsToMelee { target }),
                    _ => lookup(old(wants_to_melee)@, e),
                })
                &&& lookup(final(wants_to_move)@, e) == (match choice {
                    Some(Action::Chase(idx)) => Some(WantsToMove { idx }),
                    Some(Action::MoveTo(idx)) => Some(WantsToMove { idx }),
                    _ => lookup(old(wants_to_move)@, e),
                })
                &&& lookup(final(wants_to_open_door)@, e) == (match choice {
                    Some(Action::OpenDoor { door, idx }) => Some(WantsToOpenDoor { idx, level: pl }),
                    _ => lookup(old(wants_to_open_door)@, e),
                })
            },
    {
        let ghost inp = MonsterInputs { alive: entities.alive@, monsters: monsters@, viewsheds: viewsheds@, positions: positions@, memory: memory@ };
        let player_position = get(positions, player).unwrap();
        let player_level = player_position.level;
        let player_idx = player_position.idx;
        let level = &dungeon.levels[player_level as usize];
        let player_hp = get(combat_stats, player).unwrap().hp;
        let player_hiding = contains(hiding, player);
        let ghost ci = ChoiceInputs {
            level: *level,
            positions: positions@,
            viewsheds: viewsheds@,
            memory: memory@,
            combat_stats: combat_stats@,
            player,
            player_hp,
            player_hiding,
            knowledge: knowledge@,
            picks: picks@,
            furniture: furniture@,
            doors: doors@,
        };
        let ghost confused0 = confused@;
        let ghost melee0 = wants_to_melee@;
        let ghost move0 = wants_to_move@;
        let ghost door0 = wants_to_open_door@;
        let n = entities.alive.len();
        let mut e: usize = 0;
        while e < n
            invariant
                n == entities.alive@.len(),
                e <= n,
                inp == (MonsterInputs { alive: entities.alive@, monsters: monsters@, viewsheds: viewsheds@, positions: positions@, memory: memory@ }),
                ci == (ChoiceInputs { level: *level, positions: positions@, viewsheds: viewsheds@, memory: memory@,
                    combat_stats: combat_stats@, player, player_hp, player_hiding,
                    knowledge: knowledge@, picks: picks@, furniture: furniture@, doors: doors@ }),
                level.wf(),
                present(positions@, player as int),
                player_idx == comp(positions@, player as int).idx,
                player_idx <= i32::MAX,
                forall|i: int| #[trigger] present(positions@, i) ==> comp(positions@, i).idx <= i32::MAX,
                forall|i: int| #[trigger] present(knowledge@, i) ==> knowledge_fits(level, comp(knowledge@, i)),
                forall|i: int| #[trigger] present(confused0, i) ==> comp(confused0, i).turns > i32::MIN,
                forall|i: int| #[trigger] lookup(confused@, i) == (
                    if 0 <= i < e && monster_acts(inp, i) && present(confused0, i) {
                        if comp(confused0, i).turns - 1 < 1 { None } else { Some(Confused { turns: (comp(confused0, i).turns - 1) as i32 }) }
                    } else {
                        lookup(confused0, i)
                    }),
                forall|i: int| {
                    let chosen = 0 <= i < e && monster_acts(inp, i) && !present(confused0, i) && comp(positions@, i).level == player_level;
                    let choice = if chosen { monster_choice(ci, i) } else { None };
                    &&& #[trigger] lookup(wants_to_melee@, i) == (match choice {
                        Some(Action::Attack(target)) => Some(WantsToMelee { target }),
                        _ => lookup(melee0, i),
                    })
                    &&& lookup(wants_to_move@, i) == (match choice {
                        Some(Action::Chase(idx)) => Some(WantsToMove { idx }),
                        Some(Action::MoveTo(idx)) => Some(WantsToMove { idx }),
                        _ => lookup(move0, i),
                    })
                    &&& lookup(wants_to_open_door@, i) == (match choice {
                        Some(Action::OpenDoor { door, idx }) => Some(WantsToOpenDoor { idx, level: player_level }),
                        _ => lookup(door0, i),
                    })
                },
            decreases n - e,
        {
            if entities.is_alive(e) && contains(monsters, e) && contains(viewsheds, e) && contains(positions, e) && contains(memory, e) {
                assert(monster_acts(inp, e as int));
                match get(confused, e) {
                    Some(c) => {
                        assert(lookup(confused@, e as int) == lookup(confused0, e as int));
                        assert(present(confused0, e as int));
                        assert(c == comp(confused0, e as int));
                        let turns = c.turns - 1;
                        if turns < 1 {
                            put(confused, e, None);
                        } else {
                            put(confused, e, Some(Confused { turns }));
                        }
                    },
                    None => {
                        let position = get(positions, e).unwrap();
                        if position.level == player_level {
                            let choice = choose_for(e, level, position.idx, player, player_idx, player_hp, player_hiding,
                                viewsheds, positions, memory, combat_stats, knowledge, picks, furniture, doors, Ghost(ci));
                            match choice {
                                Some(Action::Chase(idx)) => put(wants_to_move, e, Some(WantsToMove { idx })),
                                Some(Action::Attack(target)) => put(wants_to_melee, e, Some(WantsToMelee { target })),
                                Some(Action::MoveTo(idx)) => put(wants_to_move, e, Some(WantsToMove { idx })),
                                Some(Action::OpenDoor { door, idx }) => put(wants_to_open_door, e, Some(WantsToOpenDoor { idx, level: position.level })),
                                None => {},
                            }
                        }
                    },
                }
            }
            e += 1;
        }
        assert forall|e: int| #[trigger] lookup(wants_to_melee@, e) == Some(WantsToMelee { target: player })
            && lookup(melee0, e) != Some(WantsToMelee { target: player })
            && !present(furniture@, player as int)
            && (forall|i: int| 0 <= i < comp(memory@, e).known_enemy_hiding_spots@.len()
                ==> (#[trigger] comp(memory@, e).known_enemy_hiding_spots@[i]).1 != player)
            implies {
                &&& !present(confused0, e)
                &&& present(positions@, e)
                &&& comp(positions@, e).level == player_level
                &&& !player_hiding
                &&& spec_within_reach(level.width as int, comp(positions@, e).idx as int, player_idx as int)
            } by {
            let chosen = 0 <= e < n && monster_acts(inp, e) && !present(confused0, e) && comp(positions@, e).level == player_level;
            assert(chosen);
            assert(monster_choice(ci, e) == Some(Action::Attack(player)));
            law_monster_attacks_player_only_in_reach(ci, e);
        }
    }
}

/// How a monster sees the hiding spots it remembers, from the spots' positions and hit points
/// and the tiles it sees: `spot_sightings`.
fn sightings(
    spots: &Vec<(Entity, Entity)>,
    positions: &Vec<Option<Position>>,
    combat_stats: &Vec<Option<CombatStats>>,
    visible: &Vec<usize>,
) -> (r: Vec<SpotSighting>)
    ensures
        r@ == spot_sightings(spots@, positions@, combat_stats@, visible@, spots@.len() as int),
{
    let mut r: Vec<SpotSighting> = Vec::new();
    let mut i: usize = 0;
    while i < spots.len()
        invariant
            i <= spots@.len(),
            r@ == spot_sightings(spots@, positions@, combat_stats@, visible@, i as int),
        decreases spots@.len() - i,
    {
        let spot = spots[i].1;
        match get(positions, spot) {
            Some(p) => {
                let hp = match get(combat_stats, spot) {
                    Some(st) => st.hp,
                    None => 0,
                };
                let seen = crate::damage::contains_entity(visible, p.idx);
                r.push(SpotSighting { spot, idx: p.idx, hp, seen });
            },
            None => {},
        }
        i += 1;
    }
    r
}

/// The action picked for monster `e` among its candidates.
fn choose_for(
    e: Entity,
    level: &Level,
    cur: usize,
    player: Entity,
    player_idx: usize,
    player_hp: i32,
    player_hiding: bool,
    viewsheds: &Vec<Option<Viewshed>>,
    positions: &Vec<Option<Position>>,
    memory: &Vec<Option<Memory>>,
    combat_stats: &Vec<Option<CombatStats>>,
    knowledge: &Vec<Option<MonsterKnowledge>>,
    picks: &Vec<Option<usize>>,
    furniture: &Vec<Option<crate::components::Grabbable>>,
    doors: &Vec<Option<Door>>,
    Ghost(ci): Ghost<ChoiceInputs>,
) -> (choice: Option<Action>)
    requires
        ci.level == *level,
        level.wf(),
        ci.viewsheds == viewsheds@,
        ci.positions == positions@,
        ci.memory == memory@,
        ci.combat_stats == combat_stats@,
        ci.knowledge == knowledge@,
        ci.picks == picks@,
        ci.furniture == furniture@,
        ci.doors == doors@,
        ci.player == player,
        ci.player_hp == player_hp,
        ci.player_hiding == player_hiding,
        present(ci.positions, e as int),
        comp(ci.positions, e as int).idx == cur,
        present(ci.positions, player as int),
        comp(ci.positions, player as int).idx == player_idx,
        present(viewsheds@, e as int),
        present(memory@, e as int),
        cur <= i32::MAX,
        player_idx <= i32::MAX,
        forall|i: int| #[trigger] present(positions@, i) ==> comp(positions@, i).idx <= i32::MAX,
        forall|i: int| #[trigger] present(knowledge@, i) ==> knowledge_fits(level, comp(knowledge@, i)),
    ensures
        choice == monster_choice(ci, e as int),
{
    match get(picks, e) {
        Some(p) => match get_ref(knowledge, e) {
            Some(k) => {
                assert(knowledge_fits(level, comp(knowledge@, e as int)));
                let visible = &get_ref(viewsheds, e).unwrap().visible_tiles;
                let m = get_ref(memory, e).unwrap();
                let spots = sightings(&m.known_enemy_hiding_spots, positions, combat_stats, visible);
                proof {
                    lemma_spot_sightings_from(m.known_enemy_hiding_spots@, positions@, combat_stats@, visible@,
                        m.known_enemy_hiding_spots@.len() as int);
                    assert forall|i: int| 0 <= i < spots@.len() implies (#[trigger] spots@[i]).idx <= i32::MAX by {
                        let s = spot_sightings(m.known_enemy_hiding_spots@, positions@, combat_stats@, visible@,
                            m.known_enemy_hiding_spots@.len() as int)[i];
                        assert(present(positions@, s.spot as int));
                    }
                }
                let sees = crate::damage::contains_entity(visible, player_idx);
                let cands = monster_candidates(level, cur, player, player_idx, player_hp, player_hiding, sees,
                    k.path_to_player, &k.remembered_paths, &spots, k.wander_path, furniture, doors);
                assert(spots@ == sightings_of(ci, e as int));
                assert(cands@ == candidates_of(ci, e as int));
                if p < cands.len() {
                    Some(cands[p].action)
                } else {
                    None
                }
            },
            None => None,
        },
        None => None,
    }
}

proof fn lemma_first_with_present<C>(contents: Seq<Entity>, storage: Seq<Option<C>>)
    ensures
        first_with(contents, storage) matches Some(x) ==> present(storage, x as int),
    decreases contents.len(),
{
    if contents.len() > 0 && !present(storage, contents[0] as int) {
        lemma_first_with_present(contents.drop_first(), storage);
    }
}

proof fn lemma_somes_from(s: Seq<Option<WeightedAction>>, i: int)
    requires
        0 <= i < somes(s).len(),
    ensures
        exists|j: int| 0 <= j < s.len() && s[j] == Some(somes(s)[i]),
    decreases s.len(),
{
    let prev = somes(s.drop_last());
    if s.last() is Some && i == prev.len() {
        assert(s[s.len() - 1] == Some(somes(s)[i]));
    } else {
        lemma_somes_from(s.drop_last(), i);
        let j = choose|j: int| 0 <= j < s.drop_last().len() && s.drop_last()[j] == Some(prev[i]);
        assert(s[j] == Some(somes(s)[i]));
    }
}

/// A monster attacks the player only when the player is within reach and not hiding, unless
/// the player is among the hiding spots it remembers or is furniture in its way.
pub proof fn law_monster_attacks_player_only_in_reach(ci: ChoiceInputs, e: int)
    requires
        present(ci.knowledge, e),
        forall|i: int| 0 <= i < comp(ci.memory, e).known_enemy_hiding_spots@.len()
            ==> (#[trigger] comp(ci.memory, e).known_enemy_hiding_spots@[i]).1 != ci.player,
        !present(ci.furniture, ci.player as int),
    ensures
        monster_choice(ci, e) == Some(Action::Attack(ci.player)) ==> {
            &&& !ci.player_hiding
            &&& spec_within_reach(ci.level.width as int, comp(ci.positions, e).idx as int, comp(ci.positions, ci.player as int).idx as int)
        },
{
    if monster_choice(ci, e) == Some(Action::Attack(ci.player)) {
        let k = comp(ci.knowledge, e);
        let level = ci.level;
        let cur = comp(ci.positions, e).idx as int;
        let player_idx = comp(ci.positions, ci.player as int).idx as int;
        let sees = comp(ci.viewsheds, e).visible_tiles@.contains(player_idx as usize);
        let p = lookup(ci.picks, e)->0 as int;
        let a = seq![spec_player_candidate(ci.player, level.width as int, cur, player_idx, ci.player_hp, ci.player_hiding, sees, k.path_to_player)];
        let b = spec_remembered_candidates(&level, k.remembered_paths@, ci.furniture, ci.doors);
        let c = spec_spot_candidates(level.width as int, cur, sightings_of(ci, e), k.path_to_player);
        let d = seq![spec_move_action_from_path(&level, k.wander_path, ci.furniture, ci.doors)];
        let all = a + b + c + d;
        assert(candidates_of(ci, e) == somes(all));
        lemma_somes_from(all, p);
        let j = choose|j: int| 0 <= j < all.len() && all[j] == Some(somes(all)[p]);
        let w = somes(all)[p];
        assert(w.action == Action::Attack(ci.player));
        if j == 0 {
            assert(all[0] == a[0]);
        } else if j < 1 + b.len() {
            assert(all[j] == b[j - 1]);
            let path = k.remembered_paths@[j - 1];
            let (step, count) = path->0;
            let contents = level.tile_content@[step as int]@;
            lemma_first_with_present(contents, ci.furniture);
        } else if j < 1 + b.len() + c.len() {
            assert(all[j] == c[j - 1 - b.len()]);
            let hs = comp(ci.memory, e).known_enemy_hiding_spots@;
            lemma_spot_sightings_from(hs, ci.positions, ci.combat_stats, comp(ci.viewsheds, e).visible_tiles@, hs.len() as int);
            let sp = sightings_of(ci, e)[j - 1 - b.len()];
            assert(sp == spot_sightings(hs, ci.positions, ci.combat_stats, comp(ci.viewsheds, e).visible_tiles@, hs.len() as int)[j - 1 - b.len()]);
            assert(sp.spot != ci.player);
        } else {
            assert(all[j] == d[0]);
            let (step, count) = k.wander_path->0;
            let contents = level.tile_content@[step as int]@;
            lemma_first_with_present(contents, ci.furniture);
        }
    }
}

} // verus!
