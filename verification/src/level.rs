use vstd::prelude::*;
use crate::geometry::{spec_xy_idx, xy_idx_fits};

verus! {

/// What a map tile is made of.
#[derive(Clone, Copy, Debug, PartialEq, Eq, Structural)]
pub enum TileType {
    Floor,
    Wall,
    DownStairs,
    UpStairs,
    Door,
    Exit,
}

/// One floor of the dungeon: a `width` × `height` grid of tiles with per-tile flags.
pub struct Level {
    pub width: i32,
    pub height: i32,
    pub depth: u8,
    pub tiles: Vec<TileType>,
    pub revealed_tiles: Vec<bool>,
    pub visible_tiles: Vec<bool>,
    pub blocked: Vec<bool>,
    pub opaque: Vec<bool>,
    pub lit_tiles: Vec<bool>,
    pub tile_content: Vec<Vec<usize>>,
    pub stairs_up: Option<usize>,
    pub stairs_down: Option<usize>,
    pub exit: Option<usize>,
}

impl Level {
    /// Every per-tile table has one entry per tile, and the tiles fill the grid.
    pub open spec fn wf(&self) -> bool {
        &&& self.width > 0
        &&& self.height > 0
        &&& self.tiles@.len() == self.width * self.height
        &&& self.revealed_tiles@.len() == self.tiles@.len()
        &&& self.visible_tiles@.len() == self.tiles@.len()
        &&& self.blocked@.len() == self.tiles@.len()
        &&& self.opaque@.len() == self.tiles@.len()
        &&& self.lit_tiles@.len() == self.tiles@.len()
        &&& self.tile_content@.len() == self.tiles@.len()
    }

    /// Number of tiles.
    pub open spec fn tile_count(&self) -> int {
        self.tiles@.len() as int
    }
}

/// Whether the tile at (`x`, `y`) exists, is a wall and has been revealed.
pub open spec fn spec_revealed_wall(level: &Level, x: int, y: int) -> bool {
    let idx = spec_xy_idx(level.width as int, x, y);
    &&& 0 <= idx < level.tiles@.len()
    &&& level.tiles@[idx] == TileType::Wall
    &&& level.revealed_tiles@[idx]
}

/// Whether a revealed wall stands at (`x`, `y`). Coordinates are turned into an index
/// row by row, so a column past either edge reads the neighbouring row.
pub fn is_revealed_and_wall(level: &Level, x: i32, y: i32) -> (r: bool)
    requires
        level.wf(),
        xy_idx_fits(level.width as int, x as int, y as int),
    ensures
        r == spec_revealed_wall(level, x as int, y as int),
{
    let idx = crate::geometry::xy_idx(level.width, x, y);
    if idx < 0 {
        return false;
    }
    let i = idx as usize;
    if i < level.tiles.len() {
        level.tiles[i] == TileType::Wall && level.revealed_tiles[i]
    } else {
        false
    }
}

/// The neighbour mask of a wall tile: 1 for a revealed wall above, 2 below, 4 to the left,
/// 8 to the right.
pub open spec fn spec_wall_mask(level: &Level, x: int, y: int) -> int {
    (if spec_revealed_wall(level, x, y - 1) { 1int } else { 0 })
    + (if spec_revealed_wall(level, x, y + 1) { 2int } else { 0 })
    + (if spec_revealed_wall(level, x - 1, y) { 4int } else { 0 })
    + (if spec_revealed_wall(level, x + 1, y) { 8int } else { 0 })
}

/// The code page 437 glyph that draws a wall with the given neighbour mask.
pub open spec fn spec_wall_glyph(mask: int) -> u16 {
    if mask == 0 { 9 }
    else if mask == 1 || mask == 2 || mask == 3 { 186 }
    else if mask == 4 || mask == 8 || mask == 12 { 205 }
    else if mask == 5 { 188 }
    else if mask == 6 { 187 }
    else if mask == 7 { 185 }
    else if mask == 9 { 200 }
    else if mask == 10 { 201 }
    else if mask == 11 { 204 }
    else if mask == 13 { 202 }
    else if mask == 14 { 203 }
    else if mask == 15 { 206 }
    else { 35 }
}

/// Whether the four neighbours of (`x`, `y`) all have an index that fits in an `i32`.
pub open spec fn neighbours_fit(width: int, x: int, y: int) -> bool {
    &&& xy_idx_fits(width, x, y - 1)
    &&& xy_idx_fits(width, x, y + 1)
    &&& xy_idx_fits(width, x - 1, y)
    &&& xy_idx_fits(width, x + 1, y)
}

/// The glyph for the wall at (`x`, `y`), joined up with the revealed walls around it.
pub fn get_wall_tile(level: &Level, x: i32, y: i32) -> (glyph: u16)
    requires
        level.wf(),
        i32::MIN < x < i32::MAX,
        i32::MIN < y < i32::MAX,
        neighbours_fit(level.width as int, x as int, y as int),
    ensures
        glyph == spec_wall_glyph(spec_wall_mask(level, x as int, y as int)),
{
    let mut mask: u8 = 0;
    if is_revealed_and_wall(level, x, y - 1) {
        mask += 1;
    }
    if is_revealed_and_wall(level, x, y + 1) {
        mask += 2;
    }
    if is_revealed_and_wall(level, x - 1, y) {
        mask += 4;
    }
    if is_revealed_and_wall(level, x + 1, y) {
        mask += 8;
    }
    match mask {
        0 => 9,
        1 | 2 | 3 => 186,
        4 | 8 | 12 => 205,
        5 => 188,
        6 => 187,
        7 => 185,
        9 => 200,
        10 => 201,
        11 => 204,
        13 => 202,
        14 => 203,
        15 => 206,
        _ => 35,
    }
}

/// The indices below `n` whose tile is an unblocked floor, in increasing order.
pub open spec fn spec_spawn_points(level: &Level, n: int) -> Seq<usize>
    decreases n,
{
    if n <= 0 {
        Seq::empty()
    } else {
        let prev = spec_spawn_points(level, n - 1);
        if level.tiles@[n - 1] == TileType::Floor && !level.blocked@[n - 1] {
            prev.push((n - 1) as usize)
        } else {
            prev
        }
    }
}

/// Every unblocked floor tile of the level, in increasing index order.
pub fn get_possible_spawn_points_in_level(level: &Level) -> (points: Vec<usize>)
    requires
        level.wf(),
    ensures
        points@ == spec_spawn_points(level, level.tile_count()),
{
    let mut points: Vec<usize> = Vec::new();
    let n = level.tiles.len();
    let mut i: usize = 0;
    while i < n
        invariant
            level.wf(),
            n == level.tiles@.len(),
            i <= n,
            points@ == spec_spawn_points(level, i as int),
        decreases n - i,
    {
        if level.tiles[i] == TileType::Floor && !level.blocked[i] {
            points.push(i);
        }
        i += 1;
    }
    points
}

} // verus!
