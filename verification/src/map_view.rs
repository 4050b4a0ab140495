use vstd::prelude::*;
use crate::color::{Color, NamedColor};
use crate::components::{Hidden, Hiding, Name, Position};
use crate::constants::MAP_WIDTH;
use crate::damage::contains_entity;
use crate::ecs::{alive, comp, contains, get, get_ref, present, Entities, Entity};
use crate::glyphs::{cp437, to_cp437};
use crate::level::{get_wall_tile, spec_wall_glyph, spec_wall_mask, Level, TileType};
use crate::render::seen_by_player;
use crate::text::join_text;

verus! {

/// Whether entity `e` is listed in the tool tip for tile `idx` of the player's level: it
/// exists, has a name, stands there, is not hidden from the player, and is not someone else
/// hiding.
pub open spec fn in_tool_tip(
    alive_set: Seq<bool>,
    names: Seq<Option<Name>>,
    positions: Seq<Option<Position>>,
    hidden: Seq<Option<Hidden>>,
    hiding: Seq<Option<Hiding>>,
    player: Entity,
    player_level: u8,
    idx: int,
    e: int,
) -> bool {
    &&& alive(alive_set, e)
    &&& present(names, e)
    &&& present(positions, e)
    &&& seen_by_player(hidden, player, e)
    &&& !(present(hiding, e) && e != player)
    &&& comp(positions, e).level == player_level
    &&& comp(positions, e).idx == idx
}

/// The tool tip line for entity `e`: its name, marked "(hidden)" while it hides.
pub open spec fn tool_tip_line(names: Seq<Option<Name>>, hiding: Seq<Option<Hiding>>, e: int) -> Seq<char> {
    if present(hiding, e) { comp(names, e).name@ + " (hidden)"@ } else { comp(names, e).name@ }
}

/// The tool tip lines of the entities among `0..k`, in entity order.
pub open spec fn tool_tip_list(
    alive_set: Seq<bool>,
    names: Seq<Option<Name>>,
    positions: Seq<Option<Position>>,
    hidden: Seq<Option<Hidden>>,
    hiding: Seq<Option<Hiding>>,
    player: Entity,
    player_level: u8,
    idx: int,
    k: int,
) -> Seq<Seq<char>>
    decreases k,
{
    if k <= 0 {
        Seq::empty()
    } else {
        let prev = tool_tip_list(alive_set, names, positions, hidden, hiding, player, player_level, idx, k - 1);
        if in_tool_tip(alive_set, names, positions, hidden, hiding, player, player_level, idx, k - 1) {
            prev.push(tool_tip_line(names, hiding, k - 1))
        } else {
            prev
        }
    }
}

/// The lines of the tool tip for the tile under the mouse, `mouse_idx`: the listed entities when
/// the tile is visible, nothing when it is not or lies off the level.
pub fn tool_tip_lines(
    entities: &Entities,
    names: &Vec<Option<Name>>,
    positions: &Vec<Option<Position>>,
    hidden: &Vec<Option<Hidden>>,
    hiding: &Vec<Option<Hiding>>,
    player: Entity,
    player_level: u8,
    visible_tiles: &Vec<bool>,
    mouse_idx: i32,
) -> (r: Vec<String>)
    ensures
        r@.len() == (if 0 <= mouse_idx < visible_tiles@.len() && visible_tiles@[mouse_idx as int] {
            tool_tip_list(entities.alive@, names@, positions@, hidden@, hiding@, player, player_level, mouse_idx as int, entities.alive@.len() as int).len()
        } else {
            0
        }),
        0 <= mouse_idx < visible_tiles@.len() && visible_tiles@[mouse_idx as int] ==> forall|i: int| 0 <= i < r@.len() ==>
            (#[trigger] r@[i])@ == tool_tip_list(entities.alive@, names@, positions@, hidden@, hiding@, player, player_level, mouse_idx as int, entities.alive@.len() as int)[i],
{
    let mut r: Vec<String> = Vec::new();
    if mouse_idx < 0 || mouse_idx as usize >= visible_tiles.len() || !visible_tiles[mouse_idx as usize] {
        return r;
    }
    let idx = mouse_idx as usize;
    let n = entities.alive.len();
    let mut e: usize = 0;
    while e < n
        invariant
            e <= n,
            n == entities.alive@.len(),
            idx as int == mouse_idx as int,
            r@.len() == tool_tip_list(entities.alive@, names@, positions@, hidden@, hiding@, player, player_level, idx as int, e as int).len(),
            forall|i: int| 0 <= i < r@.len() ==>
                (#[trigger] r@[i])@ == tool_tip_list(entities.alive@, names@, positions@, hidden@, hiding@, player, player_level, idx as int, e as int)[i],
        decreases n - e,
    {
        let ghost before = r@;
        if entities.is_alive(e) {
            match get_ref(names, e) {
                Some(name) => match get(positions, e) {
                    Some(p) => {
                        let seen = match get_ref(hidden, e) {
                            Some(h) => contains_entity(&h.found_by, player),
                            None => true,
                        };
                        let is_hiding = contains(hiding, e);
                        if seen && !(is_hiding && e != player) && p.level == player_level && p.idx == idx {
                            let line = if is_hiding { join_text(name.name.as_str(), " (hidden)") } else { name.name.clone() };
                            r.push(line);
                        }
                    },
                    None => {},
                },
                None => {},
            }
        }
        proof {
            assert forall|i: int| 0 <= i < r@.len() implies
                (#[trigger] r@[i])@ == tool_tip_list(entities.alive@, names@, positions@, hidden@, hiding@, player, player_level, idx as int, e + 1)[i] by {
                if i < before.len() {
                    assert(r@[i] == before[i]);
                }
            }
        }
        e += 1;
    }
    r
}

/// The glyph a revealed tile is drawn with: a dot for floor, joined walls, '>' and '<' for
/// stairs, 'D' for a door, and a solid block for the exit.
pub open spec fn spec_tile_glyph(level: &Level, i: int) -> u16 {
    let x = i % MAP_WIDTH as int;
    let y = i / MAP_WIDTH as int;
    match level.tiles@[i] {
        TileType::Floor => cp437('.'),
        TileType::Wall => spec_wall_glyph(spec_wall_mask(level, x, y)),
        TileType::DownStairs => cp437('>'),
        TileType::UpStairs => cp437('<'),
        TileType::Door => cp437('D'),
        TileType::Exit => 219,
    }
}

/// Whether a level has the map's width and few enough tiles for its coordinates to fit in
/// an `i32`.
pub open spec fn drawable(level: &Level) -> bool {
    &&& level.wf()
    &&& level.width == MAP_WIDTH as i32
    &&& level.tiles@.len() <= 0x1000_0000
}

/// The glyph of revealed tile `i`.
pub fn tile_glyph(level: &Level, i: usize) -> (g: u16)
    requires
        drawable(level),
        i < level.tiles@.len(),
    ensures
        g == spec_tile_glyph(level, i as int),
{
    let x = (i % (MAP_WIDTH as usize)) as i32;
    let y = (i / (MAP_WIDTH as usize)) as i32;
    match level.tiles[i] {
        TileType::Floor => to_cp437('.'),
        TileType::Wall => get_wall_tile(level, x, y),
        TileType::DownStairs => to_cp437('>'),
        TileType::UpStairs => to_cp437('<'),
        TileType::Door => to_cp437('D'),
        TileType::Exit => 219,
    }
}

/// One cell of the map as drawn.
#[derive(Clone, Copy, Debug, PartialEq, Eq, Structural)]
pub struct MapCell {
    pub x: i32,
    pub y: i32,
    pub fg: Color,
    pub bg: Color,
    pub glyph: u16,
}

/// The cell of revealed tile `i`: green where it is in view, white where only remembered, on
/// black.
pub open spec fn spec_map_cell(level: &Level, i: int) -> MapCell {
    MapCell {
        x: (i % MAP_WIDTH as int) as i32,
        y: (i / MAP_WIDTH as int) as i32,
        fg: if level.visible_tiles@[i] { Color::Named(NamedColor::Green) } else { Color::Named(NamedColor::White) },
        bg: Color::Named(NamedColor::Black),
        glyph: spec_tile_glyph(level, i),
    }
}

/// The cells of the revealed tiles among `0..k`, in tile order.
pub open spec fn map_cell_list(level: &Level, k: int) -> Seq<MapCell>
    decreases k,
{
    if k <= 0 {
        Seq::empty()
    } else if level.revealed_tiles@[k - 1] {
        map_cell_list(level, k - 1).push(spec_map_cell(level, k - 1))
    } else {
        map_cell_list(level, k - 1)
    }
}

/// The cells of the map: every revealed tile, in tile order.
pub fn map_cells(level: &Level) -> (r: Vec<MapCell>)
    requires
        drawable(level),
    ensures
        r@ == map_cell_list(level, level.tiles@.len() as int),
{
    let mut r: Vec<MapCell> = Vec::new();
    let n = level.tiles.len();
    let mut i: usize = 0;
    while i < n
        invariant
            i <= n,
            n == level.tiles@.len(),
            drawable(level),
            r@ == map_cell_list(level, i as int),
        decreases n - i,
    {
        if level.revealed_tiles[i] {
            let fg = if level.visible_tiles[i] { Color::Named(NamedColor::Green) } else { Color::Named(NamedColor::White) };
            let cell = MapCell {
                x: (i % (MAP_WIDTH as usize)) as i32,
                y: (i / (MAP_WIDTH as usize)) as i32,
                fg,
                bg: Color::Named(NamedColor::Black),
                glyph: tile_glyph(level, i),
            };
            r.push(cell);
        }
        i += 1;
    }
    r
}

} // verus!
