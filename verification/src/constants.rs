use vstd::prelude::*;

verus! {

/// Width of the whole console, in cells.
pub const SCREEN_WIDTH: u8 = 80;

/// Height of the whole console, in cells.
pub const SCREEN_HEIGHT: u8 = 50;

/// Cells kept free around the text of the full-screen pages.
pub const SCREEN_PADDING: u8 = 4;

/// Width of the map viewport, in cells.
pub const MAP_WIDTH: u8 = 80;

/// Height of the map viewport, in cells; the HUD fills the rows below it.
pub const MAP_HEIGHT: u8 = 43;

} // verus!
