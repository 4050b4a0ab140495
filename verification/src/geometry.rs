use vstd::prelude::*;
use crate::constants::{MAP_HEIGHT, MAP_WIDTH};

verus! {

/// Index of the tile at column `x`, row `y` in a grid `width` tiles wide.
pub open spec fn spec_xy_idx(width: int, x: int, y: int) -> int {
    y * width + x
}

/// Whether `spec_xy_idx(width, x, y)` fits in an `i32`.
pub open spec fn xy_idx_fits(width: int, x: int, y: int) -> bool {
    i32::MIN <= spec_xy_idx(width, x, y) <= i32::MAX
}

/// The tile index of column `x`, row `y` in a grid `width` tiles wide.
pub fn xy_idx(width: i32, x: i32, y: i32) -> (idx: i32)
    requires
        xy_idx_fits(width as int, x as int, y as int),
    ensures
        idx == spec_xy_idx(width as int, x as int, y as int),
{
    let w: i64 = width as i64;
    let r: i64 = (y as i64) * w + (x as i64);
    r as i32
}

/// The column and row of tile `idx` in a grid `width` tiles wide.
pub fn idx_xy(width: i32, idx: i32) -> (xy: (i32, i32))
    requires
        width > 0,
        idx >= 0,
    ensures
        xy.0 == idx % width,
        xy.1 == idx / width,
        0 <= xy.0 < width,
        spec_xy_idx(width as int, xy.0 as int, xy.1 as int) == idx,
{
    let x = idx % width;
    let y = idx / width;
    proof {
        vstd::arithmetic::div_mod::lemma_fundamental_div_mod(idx as int, width as int);
        assert(spec_xy_idx(width as int, x as int, y as int) == idx) by (nonlinear_arith)
            requires idx as int == width as int * (idx as int / width as int) + idx as int % width as int,
                x as int == idx as int % width as int, y as int == idx as int / width as int;
    }
    (x, y)
}

/// The camera offset that puts the point (`center_x`, `center_y`) in the middle of the map viewport.
pub open spec fn spec_render_offset(center_x: int, center_y: int) -> (int, int) {
    (center_x - MAP_WIDTH as int / 2, center_y - MAP_HEIGHT as int / 2)
}

/// The offset to subtract from map coordinates so that (`center_x`, `center_y`) is drawn in the
/// middle of the map viewport.
pub fn get_render_offset(center_x: i32, center_y: i32) -> (offset: (i32, i32))
    requires
        center_x >= i32::MIN + MAP_WIDTH / 2,
        center_y >= i32::MIN + MAP_HEIGHT / 2,
    ensures
        offset.0 == spec_render_offset(center_x as int, center_y as int).0,
        offset.1 == spec_render_offset(center_x as int, center_y as int).1,
{
    let offset_x = center_x - (MAP_WIDTH as i32) / 2;
    let offset_y = center_y - (MAP_HEIGHT as i32) / 2;
    (offset_x, offset_y)
}

/// The map coordinates under the viewport cell (`x`, `y`) when the view is centred on
/// (`center_x`, `center_y`).
pub fn get_render_offset_for_xy(center_x: i32, center_y: i32, x: i32, y: i32) -> (point: (i32, i32))
    requires
        center_x >= i32::MIN + MAP_WIDTH / 2,
        center_y >= i32::MIN + MAP_HEIGHT / 2,
        i32::MIN <= x + spec_render_offset(center_x as int, center_y as int).0 <= i32::MAX,
        i32::MIN <= y + spec_render_offset(center_x as int, center_y as int).1 <= i32::MAX,
    ensures
        point.0 == x + spec_render_offset(center_x as int, center_y as int).0,
        point.1 == y + spec_render_offset(center_x as int, center_y as int).1,
{
    let (center_offset_x, center_offset_y) = get_render_offset(center_x, center_y);
    let offset_x = x + center_offset_x;
    let offset_y = y + center_offset_y;
    (offset_x, offset_y)
}

/// Whether tiles `a` and `b` of a grid `width` tiles wide are at most one column and one row apart.
pub open spec fn spec_idxs_adjacent(width: int, a: int, b: int) -> bool {
    let (ax, ay) = (a % width, a / width);
    let (bx, by) = (b % width, b / width);
    &&& -1 <= ax - bx <= 1
    &&& -1 <= ay - by <= 1
}

/// Whether tiles `a` and `b` of a grid `width` tiles wide touch, diagonals included, or are the
/// same tile.
pub fn idxs_are_adjacent(width: i32, a: usize, b: usize) -> (r: bool)
    requires
        width > 0,
    ensures
        r == spec_idxs_adjacent(width as int, a as int, b as int),
{
    let w = width as usize;
    let (ax, ay) = (a % w, a / w);
    let (bx, by) = (b % w, b / w);
    let dx_ok = if ax >= bx { ax - bx <= 1 } else { bx - ax <= 1 };
    let dy_ok = if ay >= by { ay - by <= 1 } else { by - ay <= 1 };
    dx_ok && dy_ok
}

} // verus!
