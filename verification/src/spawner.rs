use vstd::prelude::*;
use vstd::multiset::Multiset;
use crate::color::{Color, NamedColor};
use crate::components::{CombatStats, Renderable, TrapType};
use crate::glyphs::{cp437, to_cp437};
use crate::geometry::{spec_xy_idx, xy_idx, xy_idx_fits};
use crate::item_type::ItemType;
use crate::ecs::Entity;
use crate::level::{get_possible_spawn_points_in_level, spec_spawn_points, Level, TileType};
use crate::rng::rng_range;

verus! {

/// The pieces of furniture a room stamp can place.
#[derive(Clone, Copy, Debug, PartialEq, Eq, Structural)]
pub enum RoomPart {
    Bed,
    BedsideTable,
    Chair,
    Desk,
    Dresser,
    Armoire,
    Shelf,
    Table,
    Chest,
    Barrel,
    Stove,
    Counter,
    Cupboard,
    WeaponRack,
    Debris,
    TowelRack,
}

/// What a new entity is made of. Absent parts are `None` or `false`.
pub struct Blueprint {
    pub name: String,
    pub renderable: Renderable,
    pub item: bool,
    pub consumable: bool,
    pub ranged: Option<i32>,
    pub healing: Option<i32>,
    pub damage: Option<i32>,
    pub causes_fire: bool,
    pub area_radius: Option<i32>,
    pub confusion_turns: Option<i32>,
    pub trap: Option<TrapType>,
    pub flammable_turns: Option<i32>,
    pub blocks_tile: bool,
    pub grabbable: bool,
    pub container: bool,
    pub objective: bool,
    pub monster: bool,
    pub combat_stats: Option<CombatStats>,
    pub viewshed_range: Option<i32>,
}

/// A renderable with glyph `glyph`, colour `fg` on black, on layer `layer`.
pub open spec fn look(glyph: u16, fg: NamedColor, layer: i32) -> Renderable {
    Renderable { fg: Color::Named(fg), bg: Color::Named(NamedColor::Black), glyph, layer }
}

/// An entity with only a name and a look.
pub open spec fn plain(name: Seq<char>, r: Renderable, b: Blueprint) -> bool {
    &&& b.name@ == name
    &&& b.renderable == r
    &&& !b.item && !b.consumable && b.ranged is None && b.healing is None && b.damage is None
    &&& !b.causes_fire && b.area_radius is None && b.confusion_turns is None && b.trap is None
    &&& b.flammable_turns is None && !b.blocks_tile && !b.grabbable && !b.container
    &&& !b.objective && !b.monster && b.combat_stats is None && b.viewshed_range is None
}

fn bare(name: &str, renderable: Renderable) -> (b: Blueprint)
    ensures
        plain(name@, renderable, b),
{
    Blueprint {
        name: String::from_str(name),
        renderable,
        item: false,
        consumable: false,
        ranged: None,
        healing: None,
        damage: None,
        causes_fire: false,
        area_radius: None,
        confusion_turns: None,
        trap: None,
        flammable_turns: None,
        blocks_tile: false,
        grabbable: false,
        container: false,
        objective: false,
        monster: false,
        combat_stats: None,
        viewshed_range: None,
    }
}

/// The name, glyph character, colour and burning time of a piece of furniture.
pub open spec fn spec_furniture(p: RoomPart) -> (Seq<char>, char, NamedColor, Option<i32>) {
    match p {
        RoomPart::Bed => ("Bed"@, 'b', NamedColor::LightBlue, Some(8i32)),
        RoomPart::BedsideTable => ("Bedside Table"@, 't', NamedColor::Brown4, Some(8i32)),
        RoomPart::Chair => ("Chair"@, 'c', NamedColor::Brown4, Some(8i32)),
        RoomPart::Desk => ("Desk"@, 'd', NamedColor::Brown4, Some(8i32)),
        RoomPart::Armoire => ("Armoire"@, 'a', NamedColor::Brown4, Some(8i32)),
        RoomPart::TowelRack => ("Towel Rack"@, 't', NamedColor::LightYellow, Some(3i32)),
        RoomPart::Dresser => ("Dresser"@, 'd', NamedColor::Brown3, Some(8i32)),
        RoomPart::Shelf => ("Shelf"@, 's', NamedColor::Brown3, Some(8i32)),
        RoomPart::Table => ("Table"@, 't', NamedColor::Brown3, Some(8i32)),
        RoomPart::Counter => ("Counter"@, 'C', NamedColor::Brown3, Some(8i32)),
        RoomPart::Stove => ("Stove"@, 'S', NamedColor::Brown3, Some(8i32)),
        RoomPart::Cupboard => ("Cupboard"@, 'c', NamedColor::Brown3, Some(8i32)),
        RoomPart::WeaponRack => ("Weapon Rack"@, 'W', NamedColor::LightGrey, None),
        RoomPart::Barrel => ("Barrel"@, 'B', NamedColor::Yellow, Some(8i32)),
        RoomPart::Chest => ("Trasure Chest"@, 'T', NamedColor::Brown3, Some(8i32)),
        RoomPart::Debris => ("Debris"@, 'x', NamedColor::Grey, None),
    }
}

/// A piece of furniture: named and drawn on layer 1 as `spec_furniture` says, burning for its
/// time when it burns, blocking its tile, grabbable (all but debris), and a container when it is
/// a chest.
pub open spec fn is_furniture(p: RoomPart, b: Blueprint) -> bool {
    let (name, c, fg, burns) = spec_furniture(p);
    &&& b.name@ == name
    &&& b.renderable == look(cp437(c), fg, 1)
    &&& b.flammable_turns == burns
    &&& b.blocks_tile
    &&& b.grabbable == (p != RoomPart::Debris)
    &&& b.container == (p == RoomPart::Chest)
    &&& !b.item && !b.consumable && b.ranged is None && b.healing is None && b.damage is None
    &&& !b.causes_fire && b.area_radius is None && b.confusion_turns is None && b.trap is None
    &&& !b.objective && !b.monster && b.combat_stats is None && b.viewshed_range is None
}

fn furniture_row(p: RoomPart) -> (r: (&'static str, char, NamedColor, Option<i32>))
    ensures
        r.0@ == spec_furniture(p).0 && r.1 == spec_furniture(p).1 && r.2 == spec_furniture(p).2 && r.3 == spec_furniture(p).3,
{
    match p {
        RoomPart::Bed => ("Bed", 'b', NamedColor::LightBlue, Some(8)),
        RoomPart::BedsideTable => ("Bedside Table", 't', NamedColor::Brown4, Some(8)),
        RoomPart::Chair => ("Chair", 'c', NamedColor::Brown4, Some(8)),
        RoomPart::Desk => ("Desk", 'd', NamedColor::Brown4, Some(8)),
        RoomPart::Armoire => ("Armoire", 'a', NamedColor::Brown4, Some(8)),
        RoomPart::TowelRack => ("Towel Rack", 't', NamedColor::LightYellow, Some(3)),
        RoomPart::Dresser => ("Dresser", 'd', NamedColor::Brown3, Some(8)),
        RoomPart::Shelf => ("Shelf", 's', NamedColor::Brown3, Some(8)),
        RoomPart::Table => ("Table", 't', NamedColor::Brown3, Some(8)),
        RoomPart::Counter => ("Counter", 'C', NamedColor::Brown3, Some(8)),
        RoomPart::Stove => ("Stove", 'S', NamedColor::Brown3, Some(8)),
        RoomPart::Cupboard => ("Cupboard", 'c', NamedColor::Brown3, Some(8)),
        RoomPart::WeaponRack => ("Weapon Rack", 'W', NamedColor::LightGrey, None),
        RoomPart::Barrel => ("Barrel", 'B', NamedColor::Yellow, Some(8)),
        RoomPart::Chest => ("Trasure Chest", 'T', NamedColor::Brown3, Some(8)),
        RoomPart::Debris => ("Debris", 'x', NamedColor::Grey, None),
    }
}

/// The blueprint of a piece of furniture.
pub fn furniture_blueprint(p: RoomPart) -> (b: Blueprint)
    ensures
        is_furniture(p, b),
{
    let (name, c, fg, burns) = furniture_row(p);
    let glyph = to_cp437(c);
    let mut b = bare(name, Renderable { fg: Color::Named(fg), bg: Color::Named(NamedColor::Black), glyph, layer: 1 });
    b.flammable_turns = burns;
    b.blocks_tile = true;
    b.grabbable = p != RoomPart::Debris;
    b.container = p == RoomPart::Chest;
    b
}

/// The item an item roll of 0 to 6 gives: health potions on 1 and 2, then fireball, confusion,
/// bear trap and caltrops on 3 to 6, and a magic missile scroll otherwise.
pub open spec fn spec_item_for_roll(roll: i32) -> ItemType {
    if roll == 1 || roll == 2 { ItemType::HealthPotion }
    else if roll == 3 { ItemType::FireballScroll }
    else if roll == 4 { ItemType::ConfusionScroll }
    else if roll == 5 { ItemType::BearTrap }
    else if roll == 6 { ItemType::Caltrops }
    else { ItemType::MagicMissileScroll }
}

/// The item an item roll gives.
pub fn item_for_roll(roll: i32) -> (t: ItemType)
    ensures
        t == spec_item_for_roll(roll),
{
    if roll == 1 || roll == 2 { ItemType::HealthPotion }
    else if roll == 3 { ItemType::FireballScroll }
    else if roll == 4 { ItemType::ConfusionScroll }
    else if roll == 5 { ItemType::BearTrap }
    else if roll == 6 { ItemType::Caltrops }
    else { ItemType::MagicMissileScroll }
}

/// Picks a random item: a roll of 0 to 6 through `item_for_roll`.
pub fn random_item(rng: &mut rltk::RandomNumberGenerator) -> (t: ItemType)
    ensures
        exists|roll: i32| 0 <= roll < 7 && t == spec_item_for_roll(roll),
{
    let roll = rng_range(rng, 0, 7);
    item_for_roll(roll)
}

/// The trap a trap roll of 0 or 1 sets: a bear trap on 1, caltrops otherwise.
pub open spec fn spec_trap_for_roll(roll: i32) -> TrapType {
    if roll == 1 { TrapType::BearTrap } else { TrapType::Caltrops }
}

/// The trap a trap roll sets.
pub fn trap_for_roll(roll: i32) -> (t: TrapType)
    ensures
        t == spec_trap_for_roll(roll),
{
    if roll == 1 { TrapType::BearTrap } else { TrapType::Caltrops }
}

/// Picks a random trap to set: a roll of 0 or 1 through `trap_for_roll`.
pub fn random_set_trap(rng: &mut rltk::RandomNumberGenerator) -> (t: TrapType)
    ensures
        exists|roll: i32| 0 <= roll < 2 && t == spec_trap_for_roll(roll),
{
    let roll = rng_range(rng, 0, 2);
    trap_for_roll(roll)
}

/// What an item is: name, glyph character, colour, range, healing, damage, fire, blast radius,
/// confusion, and the trap it sets.
pub open spec fn spec_item_row(t: ItemType) -> (Seq<char>, char, NamedColor, i32, Option<i32>, Option<i32>, bool, Option<i32>, Option<i32>, Option<TrapType>) {
    match t {
        ItemType::HealthPotion => ("Health Potion"@, 'i', NamedColor::LightBlue, 0i32, Some(8i32), None, false, None, None, None),
        ItemType::MagicMissileScroll => ("Scroll of Magic Missile"@, ')', NamedColor::Cyan, 6i32, None, Some(8i32), false, None, None, None),
        ItemType::FireballScroll => ("Scroll of Fireball"@, ')', NamedColor::Orange, 6i32, None, Some(20i32), true, Some(3i32), None, None),
        ItemType::ConfusionScroll => ("Scroll of Confusion"@, ')', NamedColor::Pink, 6i32, None, None, false, None, Some(4i32), None),
        ItemType::BearTrap => ("Bear Trap"@, '^', NamedColor::Yellow, 1i32, None, None, false, None, None, Some(TrapType::BearTrap)),
        ItemType::Caltrops => ("Caltrops"@, '%', NamedColor::Yellow, 3i32, None, None, false, None, None, Some(TrapType::Caltrops)),
    }
}

/// An item: named, drawn on layer 1, consumable, and with the powers `spec_item_row` lists; a
/// health potion has no range, every other item has its range.
pub open spec fn is_item(t: ItemType, b: Blueprint) -> bool {
    let (name, c, fg, range, healing, damage, fire, radius, confusion, trap) = spec_item_row(t);
    &&& b.name@ == name
    &&& b.renderable == look(cp437(c), fg, 1)
    &&& b.item && b.consumable
    &&& b.ranged == (if t == ItemType::HealthPotion { None } else { Some(range) })
    &&& b.healing == healing && b.damage == damage && b.causes_fire == fire
    &&& b.area_radius == radius && b.confusion_turns == confusion && b.trap == trap
    &&& b.flammable_turns is None && !b.blocks_tile && !b.grabbable && !b.container
    &&& !b.objective && !b.monster && b.combat_stats is None && b.viewshed_range is None
}

/// The blueprint of an item, on the floor or in a container.
pub fn item_blueprint(t: ItemType) -> (b: Blueprint)
    ensures
        is_item(t, b),
{
    let (name, c, fg) = match t {
        ItemType::HealthPotion => ("Health Potion", 'i', NamedColor::LightBlue),
        ItemType::MagicMissileScroll => ("Scroll of Magic Missile", ')', NamedColor::Cyan),
        ItemType::FireballScroll => ("Scroll of Fireball", ')', NamedColor::Orange),
        ItemType::ConfusionScroll => ("Scroll of Confusion", ')', NamedColor::Pink),
        ItemType::BearTrap => ("Bear Trap", '^', NamedColor::Yellow),
        ItemType::Caltrops => ("Caltrops", '%', NamedColor::Yellow),
    };
    let glyph = to_cp437(c);
    let mut b = bare(name, Renderable { fg: Color::Named(fg), bg: Color::Named(NamedColor::Black), glyph, layer: 1 });
    b.item = true;
    b.consumable = true;
    match t {
        ItemType::HealthPotion => {
            b.healing = Some(8);
        },
        ItemType::MagicMissileScroll => {
            b.ranged = Some(6);
            b.damage = Some(8);
        },
        ItemType::FireballScroll => {
            b.ranged = Some(6);
            b.damage = Some(20);
            b.causes_fire = true;
            b.area_radius = Some(3);
        },
        ItemType::ConfusionScroll => {
            b.ranged = Some(6);
            b.confusion_turns = Some(4);
        },
        ItemType::BearTrap => {
            b.ranged = Some(1);
            b.trap = Some(TrapType::BearTrap);
        },
        ItemType::Caltrops => {
            b.ranged = Some(3);
            b.trap = Some(TrapType::Caltrops);
        },
    }
    b
}

/// The player: '@' in yellow on layer 0, seeing eight tiles, with 30 of 30 hit points, power 5
/// and defence 2.
pub open spec fn is_player(b: Blueprint) -> bool {
    &&& b.name@ == "Player"@
    &&& b.renderable == look(cp437('@'), NamedColor::Yellow, 0)
    &&& b.viewshed_range == Some(8i32)
    &&& b.combat_stats == Some(CombatStats { max_hp: 30, hp: 30, power: 5, defense: 2 })
    &&& !b.item && !b.consumable && b.ranged is None && b.healing is None && b.damage is None
    &&& !b.causes_fire && b.area_radius is None && b.confusion_turns is None && b.trap is None
    &&& b.flammable_turns is None && !b.blocks_tile && !b.grabbable && !b.container
    &&& !b.objective && !b.monster
}

/// The blueprint of the player.
pub fn player_blueprint() -> (b: Blueprint)
    ensures
        is_player(b),
{
    let glyph = to_cp437('@');
    let mut b = bare("Player", Renderable { fg: Color::Named(NamedColor::Yellow), bg: Color::Named(NamedColor::Black), glyph, layer: 0 });
    b.viewshed_range = Some(8);
    b.combat_stats = Some(CombatStats { max_hp: 30, hp: 30, power: 5, defense: 2 });
    b
}

/// A monster named `name` drawn with `glyph` in red on layer 0: seeing eight tiles, blocking
/// its tile, with 16 of 16 hit points, power 4 and defence 1.
pub open spec fn is_monster(name: Seq<char>, glyph: u16, b: Blueprint) -> bool {
    &&& b.name@ == name
    &&& b.renderable == look(glyph, NamedColor::Red, 0)
    &&& b.viewshed_range == Some(8i32)
    &&& b.monster && b.blocks_tile
    &&& b.combat_stats == Some(CombatStats { max_hp: 16, hp: 16, power: 4, defense: 1 })
    &&& !b.item && !b.consumable && b.ranged is None && b.healing is None && b.damage is None
    &&& !b.causes_fire && b.area_radius is None && b.confusion_turns is None && b.trap is None
    &&& b.flammable_turns is None && !b.grabbable && !b.container && !b.objective
}

/// The blueprint of a monster.
pub fn monster_blueprint(glyph: u16, name: &str) -> (b: Blueprint)
    ensures
        is_monster(name@, glyph, b),
{
    let mut b = bare(name, Renderable { fg: Color::Named(NamedColor::Red), bg: Color::Named(NamedColor::Black), glyph, layer: 0 });
    b.viewshed_range = Some(8);
    b.monster = true;
    b.blocks_tile = true;
    b.combat_stats = Some(CombatStats { max_hp: 16, hp: 16, power: 4, defense: 1 });
    b
}

/// The blueprint of a goblin: a monster drawn as 'g'.
pub fn goblin_blueprint() -> (b: Blueprint)
    ensures
        is_monster("Goblin"@, cp437('g'), b),
{
    monster_blueprint(to_cp437('g'), "Goblin")
}

/// The talisman: an item drawn with glyph 241 in light salmon on layer 1.
pub open spec fn is_objective(b: Blueprint) -> bool {
    &&& b.name@ == "The Talisman"@
    &&& b.renderable == look(241, NamedColor::LightSalmon, 1)
    &&& b.item && b.objective
    &&& !b.consumable && b.ranged is None && b.healing is None && b.damage is None
    &&& !b.causes_fire && b.area_radius is None && b.confusion_turns is None && b.trap is None
    &&& b.flammable_turns is None && !b.blocks_tile && !b.grabbable && !b.container
    &&& !b.monster && b.combat_stats is None && b.viewshed_range is None
}

/// The blueprint of the talisman.
pub fn objective_blueprint() -> (b: Blueprint)
    ensures
        is_objective(b),
{
    let mut b = bare("The Talisman", Renderable { fg: Color::Named(NamedColor::LightSalmon), bg: Color::Named(NamedColor::Black), glyph: 241, layer: 1 });
    b.item = true;
    b.objective = true;
    b
}

/// The furniture a room stamp places, row by row: for the cells of `pattern[0..k]` that hold a
/// part, the tile index of the cell counted from the room's corner (`x0`, `y0`), and the part.
pub open spec fn stamp_plan(width: int, x0: int, y0: int, pattern: Seq<Seq<Option<RoomPart>>>, k: int) -> Seq<(i32, RoomPart)>
    decreases k,
{
    if k <= 0 {
        Seq::empty()
    } else {
        stamp_plan(width, x0, y0, pattern, k - 1) + row_plan(width, x0, y0 + k - 1, pattern[k - 1], pattern[k - 1].len() as int)
    }
}

/// The parts placed by the cells `row[0..k]` of one row at height `y`.
pub open spec fn row_plan(width: int, x0: int, y: int, row: Seq<Option<RoomPart>>, k: int) -> Seq<(i32, RoomPart)>
    decreases k,
{
    if k <= 0 {
        Seq::empty()
    } else {
        let prev = row_plan(width, x0, y, row, k - 1);
        match row[k - 1] {
            Some(p) => prev.push((spec_xy_idx(width, x0 + k - 1, y) as i32, p)),
            None => prev,
        }
    }
}

/// Whether every cell of the stamp has coordinates and a tile index that fit in an `i32`.
pub open spec fn stamp_fits(width: int, x0: int, y0: int, pattern: Seq<Seq<Option<RoomPart>>>) -> bool {
    &&& pattern.len() <= i32::MAX
    &&& forall|y: int| 0 <= y < pattern.len() ==> (#[trigger] pattern[y]).len() <= i32::MAX
    &&& forall|y: int, x: int| 0 <= y < pattern.len() && 0 <= x < pattern[y].len() ==> {
        &&& i32::MIN <= x0 + x <= i32::MAX
        &&& i32::MIN <= y0 + y <= i32::MAX
        &&& #[trigger] xy_idx_fits(width, x0 + x, y0 + y)
    }
}

/// The rows of a stamp pattern as plain values.
pub open spec fn pattern_view(pattern: Seq<Vec<Option<RoomPart>>>) -> Seq<Seq<Option<RoomPart>>> {
    Seq::new(pattern.len(), |y: int| pattern[y]@)
}

/// The furniture a room stamp places: every cell holding a part, row by row, with its tile index.
pub fn spawn_plan_from_room_stamp(width: i32, x0: i32, y0: i32, pattern: &Vec<Vec<Option<RoomPart>>>) -> (r: Vec<(i32, RoomPart)>)
    requires
        stamp_fits(width as int, x0 as int, y0 as int, pattern_view(pattern@)),
    ensures
        r@ == stamp_plan(width as int, x0 as int, y0 as int, pattern_view(pattern@), pattern@.len() as int),
{
    let ghost pat = pattern_view(pattern@);
    let ghost w = width as int;
    let mut r: Vec<(i32, RoomPart)> = Vec::new();
    let mut y: usize = 0;
    while y < pattern.len()
        invariant
            y <= pattern@.len(),
            pat == pattern_view(pattern@),
            pat.len() == pattern@.len(),
            w == width as int,
            stamp_fits(w, x0 as int, y0 as int, pat),
            r@ == stamp_plan(w, x0 as int, y0 as int, pat, y as int),
        decreases pattern@.len() - y,
    {
        let row = &pattern[y];
        assert(pat[y as int] == row@);
        let ghost before = r@;
        let mut x: usize = 0;
        while x < row.len()
            invariant
                x <= row@.len(),
                y < pattern@.len(),
                pat.len() == pattern@.len(),
                pat[y as int] == row@,
                w == width as int,
                stamp_fits(w, x0 as int, y0 as int, pat),
                r@ == before + row_plan(w, x0 as int, y0 + y, row@, x as int),
            decreases row@.len() - x,
        {
            match row[x] {
                Some(p) => {
                    let ghost xi = x as int;
                    let ghost yi = y as int;
                    assert(0 <= yi < pat.len() && 0 <= xi < pat[yi].len());
                    assert(xy_idx_fits(w, x0 as int + xi, y0 as int + yi));
                    assert(pat[y as int].len() <= i32::MAX);
                    let idx = xy_idx(width, x0 + x as i32, y0 + y as i32);
                    r.push((idx, p));
                },
                None => {},
            }
            assert(r@ =~= before + row_plan(w, x0 as int, y0 + y, row@, x + 1));
            x += 1;
        }
        assert(r@ =~= stamp_plan(w, x0 as int, y0 as int, pat, y + 1));
        y += 1;
    }
    r
}

/// The most items a room holds.
pub const MAX_ITEMS_PER_ROOM: i32 = 4;

/// How many of `n` items must go into containers: three fifths of them, rounded up.
pub open spec fn spec_min_in_containers(n: int) -> int {
    (3 * n + 4) / 5
}

/// Whether `n` items follow from the room roll `roll`.
pub open spec fn items_from_roll(treasure_room: bool, roll: i32, n: i32) -> bool {
    (if treasure_room { 2i32 } else { 0i32 }) <= roll < MAX_ITEMS_PER_ROOM + 2 && n == roll - 2
}

/// Whether `m` of `n` items go into `containers` containers after the roll `roll`.
pub open spec fn contained_from_roll(n: i32, containers: usize, roll: i32, m: i32) -> bool {
    spec_min_in_containers(n as int) <= roll < n + 1 && m == (if roll <= containers { roll as int } else { containers as int })
}

/// How many items a room gets and how many of them go into its `containers` containers: a roll
/// from the room's minimum (two in a treasure room, none elsewhere) up to `MAX_ITEMS_PER_ROOM + 1`,
/// less two; when that is positive, at least three fifths of the items, rounded up, go into
/// containers, but never more than there are containers.
pub fn item_counts_for_room(rng: &mut rltk::RandomNumberGenerator, treasure_room: bool, containers: usize) -> (r: (i32, i32))
    ensures
        exists|roll: i32| #[trigger] items_from_roll(treasure_room, roll, r.0),
        r.0 <= 0 ==> r.1 == 0,
        r.0 > 0 ==> exists|roll: i32| #[trigger] contained_from_roll(r.0, containers, roll, r.1),
{
    let min_items: i32 = if treasure_room { 2 } else { 0 };
    let roll = rng_range(rng, min_items, MAX_ITEMS_PER_ROOM + 2);
    let num_items = roll - 2;
    assert(items_from_roll(treasure_room, roll, num_items));
    if num_items <= 0 {
        let r = (num_items, 0i32);
        assert(items_from_roll(treasure_room, roll, r.0));
        return r;
    }
    let min_in_containers = (3 * num_items + 4) / 5;
    let roll2 = rng_range(rng, min_in_containers, num_items + 1);
    let in_containers: i32 = if (roll2 as usize) <= containers { roll2 } else { containers as i32 };
    let r = (num_items, in_containers);
    assert(contained_from_roll(r.0, containers, roll2, r.1));
    assert(items_from_roll(treasure_room, roll, r.0));
    r
}

/// How many points a draw of `amount` yields from a pool of `available`: `amount`, but no more
/// than the pool holds, and none when `amount` is negative.
pub open spec fn spec_pick_count(amount: int, available: int) -> int {
    if amount < available {
        if amount < 0 { 0 } else { amount }
    } else {
        available
    }
}

/// Draws `amount` points out of `points` at random, each drawn point leaving the pool: as many as
/// are wanted and available, and no point more often than the pool holds it.
pub fn pick_random_points(rng: &mut rltk::RandomNumberGenerator, points: Vec<usize>, amount: i32) -> (r: Vec<usize>)
    requires
        points@.len() <= i32::MAX,
    ensures
        r@.len() == spec_pick_count(amount as int, points@.len() as int),
        r@.to_multiset().subset_of(points@.to_multiset()),
{
    let mut pool = points;
    let ghost all = pool@;
    let count: i32 = if amount < pool.len() as i32 { amount } else { pool.len() as i32 };
    let mut r: Vec<usize> = Vec::new();
    let mut k: i32 = 0;
    proof {
        broadcast use vstd::multiset::group_multiset_axioms;
        vstd::seq_lib::to_multiset_len(r@);
        vstd::multiset::lemma_multiset_empty_len(r@.to_multiset());
        assert(r@.to_multiset() =~= Multiset::empty());
        assert(r@.to_multiset().add(pool@.to_multiset()) =~= all.to_multiset());
    }
    while k < count
        invariant
            all.len() <= i32::MAX,
            count == (if amount < all.len() { amount } else { all.len() as i32 }),
            0 <= k,
            count >= 0 ==> k <= count,
            count < 0 ==> k == 0,
            r@.len() == k,
            pool@.len() == all.len() - k,
            r@.to_multiset().add(pool@.to_multiset()) == all.to_multiset(),
        decreases count - k,
    {
        let i = rng_range(rng, 0, pool.len() as i32);
        let ghost before_pool = pool@;
        let ghost before_r = r@;
        let p = pool.remove(i as usize);
        r.push(p);
        proof {
            broadcast use vstd::multiset::group_multiset_axioms;
            assert(before_pool[i as int] == p);
            vstd::seq_lib::to_multiset_contains(before_pool, p);
            vstd::seq_lib::to_multiset_remove(before_pool, i as int);
            vstd::seq_lib::to_multiset_build(before_r, p);
            assert(r@.to_multiset().add(pool@.to_multiset()) =~= all.to_multiset());
        }
        k += 1;
    }
    proof {
        assert forall|v: usize| r@.to_multiset().count(v) <= all.to_multiset().count(v) by {
            assert(r@.to_multiset().add(pool@.to_multiset()).count(v) == all.to_multiset().count(v));
        }
    }
    r
}

proof fn lemma_spawn_points_len(level: &Level, n: int)
    requires
        0 <= n <= level.tiles@.len(),
        level.wf(),
    ensures
        spec_spawn_points(level, n).len() <= n,
    decreases n,
{
    if n > 0 {
        lemma_spawn_points_len(level, n - 1);
    }
}

/// Random spawn points of a level: between `min` and `max - 1` of its free floor tiles (as many
/// as there are, when fewer), drawn without repeats.
pub fn get_random_spawn_points_for_level(rng: &mut rltk::RandomNumberGenerator, level: &Level, min: i32, max: i32) -> (r: Vec<usize>)
    requires
        level.wf(),
        level.tiles@.len() <= i32::MAX,
        min < max,
    ensures
        exists|amount: i32| min <= amount < max
            && r@.len() == spec_pick_count(amount as int, spec_spawn_points(level, level.tile_count()).len() as int),
        r@.to_multiset().subset_of(spec_spawn_points(level, level.tile_count()).to_multiset()),
{
    let amount = rng_range(rng, min, max);
    let points = get_possible_spawn_points_in_level(level);
    proof {
        lemma_spawn_points_len(level, level.tile_count());
    }
    pick_random_points(rng, points, amount)
}

/// The most traps set on a level.
pub const MAX_TRAPS_SET_PER_LEVEL: i32 = 10;

/// The traps to set on a level: between four and `MAX_TRAPS_SET_PER_LEVEL - 1` random spawn
/// points, in the order drawn, each with a trap drawn by `random_set_trap`.
pub fn set_traps_for_level(rng: &mut rltk::RandomNumberGenerator, level: &Level) -> (r: Vec<(usize, TrapType)>)
    requires
        level.wf(),
        level.tiles@.len() <= i32::MAX,
    ensures
        exists|amount: i32| 4 <= amount < MAX_TRAPS_SET_PER_LEVEL
            && r@.len() == spec_pick_count(amount as int, spec_spawn_points(level, level.tile_count()).len() as int),
        r@.map_values(|t: (usize, TrapType)| t.0).to_multiset().subset_of(spec_spawn_points(level, level.tile_count()).to_multiset()),
{
    let points = get_random_spawn_points_for_level(rng, level, 4, MAX_TRAPS_SET_PER_LEVEL);
    let mut r: Vec<(usize, TrapType)> = Vec::new();
    let mut i: usize = 0;
    while i < points.len()
        invariant
            exists|amount: i32| 4 <= amount < MAX_TRAPS_SET_PER_LEVEL
                && points@.len() == spec_pick_count(amount as int, spec_spawn_points(level, level.tile_count()).len() as int),
            points@.to_multiset().subset_of(spec_spawn_points(level, level.tile_count()).to_multiset()),
            i <= points@.len(),
            r@.len() == i,
            r@.map_values(|t: (usize, TrapType)| t.0) == points@.subrange(0, i as int),
        decreases points@.len() - i,
    {
        let t = random_set_trap(rng);
        r.push((points[i], t));
        i += 1;
        assert(r@.map_values(|t: (usize, TrapType)| t.0) =~= points@.subrange(0, i as int));
    }
    assert(points@.subrange(0, points@.len() as int) =~= points@);
    r
}

/// Whether a room of the given kind with `containers` containers can get `n` items with `m` of
/// them in containers, as `item_counts_for_room` draws them.
pub open spec fn room_counts(treasure_room: bool, containers: usize, n: i32, m: i32) -> bool {
    &&& exists|roll: i32| #[trigger] items_from_roll(treasure_room, roll, n)
    &&& n <= 0 ==> m == 0
    &&& n > 0 ==> exists|roll: i32| #[trigger] contained_from_roll(n, containers, roll, m)
}

/// Whether `t` is an item that `random_item` can draw.
pub open spec fn drawn_item(t: ItemType) -> bool {
    exists|roll: i32| 0 <= roll < 7 && t == spec_item_for_roll(roll)
}

/// The items of one room: the counts of `item_counts_for_room`; the items outside containers on
/// points drawn by `pick_random_points` out of the room's `spawn_points`, each with an item drawn
/// by `random_item`; then, one by one, the items in containers, each in a container drawn out of
/// `containers` and with an item drawn by `random_item`.
pub fn room_item_plan(
    rng: &mut rltk::RandomNumberGenerator,
    treasure_room: bool,
    containers: &Vec<Entity>,
    spawn_points: Vec<usize>,
) -> (r: (Vec<(usize, ItemType)>, Vec<(Entity, ItemType)>))
    requires
        spawn_points@.len() <= i32::MAX,
        containers@.len() <= i32::MAX,
    ensures
        exists|n: i32, m: i32| #[trigger] room_counts(treasure_room, containers.len(), n, m)
            && r.1@.len() == m
            && r.0@.len() == spec_pick_count(n - m, spawn_points@.len() as int),
        r.0@.map_values(|p: (usize, ItemType)| p.0).to_multiset().subset_of(spawn_points@.to_multiset()),
        forall|i: int| 0 <= i < r.0@.len() ==> drawn_item(#[trigger] r.0@[i].1),
        forall|i: int| 0 <= i < r.1@.len() ==> containers@.contains(#[trigger] r.1@[i].0),
        forall|i: int| 0 <= i < r.1@.len() ==> drawn_item(#[trigger] r.1@[i].1),
{
    let (n, m) = item_counts_for_room(rng, treasure_room, containers.len());
    assert(room_counts(treasure_room, containers.len(), n, m));
    let mut loose: Vec<(usize, ItemType)> = Vec::new();
    let mut inside: Vec<(Entity, ItemType)> = Vec::new();
    if n <= 0 {
        assert(loose@.map_values(|p: (usize, ItemType)| p.0) =~= Seq::<usize>::empty());
        proof {
            broadcast use vstd::multiset::group_multiset_axioms;
            let e = Seq::<usize>::empty();
            vstd::seq_lib::to_multiset_len(e);
            vstd::multiset::lemma_multiset_empty_len(e.to_multiset());
            assert(e.to_multiset() =~= Multiset::empty());
        }
        return (loose, inside);
    }
    let points = pick_random_points(rng, spawn_points, n - m);
    let mut i: usize = 0;
    while i < points.len()
        invariant
            i <= points@.len(),
            loose@.len() == i,
            loose@.map_values(|p: (usize, ItemType)| p.0) == points@.subrange(0, i as int),
            forall|j: int| 0 <= j < loose@.len() ==> drawn_item(#[trigger] loose@[j].1),
        decreases points@.len() - i,
    {
        let t = random_item(rng);
        loose.push((points[i], t));
        i += 1;
        assert(loose@.map_values(|p: (usize, ItemType)| p.0) =~= points@.subrange(0, i as int));
    }
    assert(points@.subrange(0, points@.len() as int) =~= points@);
    let mut k: i32 = 0;
    while k < m
        invariant
            0 <= k <= m,
            m <= containers@.len(),
            containers@.len() <= i32::MAX,
            inside@.len() == k,
            forall|j: int| 0 <= j < inside@.len() ==> containers@.contains(#[trigger] inside@[j].0),
            forall|j: int| 0 <= j < inside@.len() ==> drawn_item(#[trigger] inside@[j].1),
        decreases m - k,
    {
        let c = rng_range(rng, 0, containers.len() as i32);
        let t = random_item(rng);
        let e = containers[c as usize];
        assert(containers@[c as int] == e);
        inside.push((e, t));
        k += 1;
    }
    (loose, inside)
}

/// Where a new game puts the player: the first exit tile of the level, if it has one.
pub fn new_game_start(level: &Level) -> (r: Option<usize>)
    ensures
        match r {
            Some(i) => i < level.tiles@.len() && level.tiles@[i as int] == TileType::Exit
                && forall|j: int| 0 <= j < i ==> level.tiles@[j] != TileType::Exit,
            None => forall|j: int| 0 <= j < level.tiles@.len() ==> level.tiles@[j] != TileType::Exit,
        },
{
    let mut i: usize = 0;
    while i < level.tiles.len()
        invariant
            i <= level.tiles@.len(),
            forall|j: int| 0 <= j < i ==> level.tiles@[j] != TileType::Exit,
        decreases level.tiles@.len() - i,
    {
        if level.tiles[i] == TileType::Exit {
            return Some(i);
        }
        i += 1;
    }
    None
}

/// The fewest goblin groups a level gets.
pub const MIN_GOBLIN_GROUPS_PER_LEVEL: i32 = 2;
/// One more than the most goblin groups a level gets.
pub const MAX_GOBLIN_GROUPS_PER_LEVEL: i32 = 4;
/// The fewest goblins a group is drawn with.
pub const MIN_GOBLINS_PER_GROUP: i32 = 3;
/// One more than the most goblins a group is drawn with.
pub const MAX_GOBLINS_PER_GROUP: i32 = 6;
/// How far from the centre of its group a goblin may stand.
pub const MAX_GOBLIN_SPACING: i32 = 4;

/// Where a level's goblin groups gather: between `MIN_GOBLIN_GROUPS_PER_LEVEL` and
/// `MAX_GOBLIN_GROUPS_PER_LEVEL - 1` random spawn points of the level, drawn without repeats.
pub fn goblin_group_sites(rng: &mut rltk::RandomNumberGenerator, level: &Level) -> (r: Vec<usize>)
    requires
        level.wf(),
        level.tiles@.len() <= i32::MAX,
    ensures
        exists|amount: i32| MIN_GOBLIN_GROUPS_PER_LEVEL <= amount < MAX_GOBLIN_GROUPS_PER_LEVEL
            && r@.len() == spec_pick_count(amount as int, spec_spawn_points(level, level.tile_count()).len() as int),
        r@.to_multiset().subset_of(spec_spawn_points(level, level.tile_count()).to_multiset()),
{
    get_random_spawn_points_for_level(rng, level, MIN_GOBLIN_GROUPS_PER_LEVEL, MAX_GOBLIN_GROUPS_PER_LEVEL)
}

/// Where the goblins of one group stand: a group size drawn between `MIN_GOBLINS_PER_GROUP` and
/// `MAX_GOBLINS_PER_GROUP - 1`, then that many of the group's `candidates` (all of them, when
/// fewer), drawn without repeats.
pub fn goblin_group_plan(rng: &mut rltk::RandomNumberGenerator, candidates: Vec<usize>) -> (r: Vec<usize>)
    requires
        candidates@.len() <= i32::MAX,
    ensures
        exists|count: i32| MIN_GOBLINS_PER_GROUP <= count < MAX_GOBLINS_PER_GROUP
            && r@.len() == spec_pick_count(count as int, candidates@.len() as int),
        r@.to_multiset().subset_of(candidates@.to_multiset()),
{
    let count = rng_range(rng, MIN_GOBLINS_PER_GROUP, MAX_GOBLINS_PER_GROUP);
    pick_random_points(rng, candidates, count)
}

} // verus!
