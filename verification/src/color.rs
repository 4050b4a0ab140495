use vstd::prelude::*;

verus! {

/// The palette entries of the console that the game draws with.
#[derive(Clone, Copy, Debug, PartialEq, Eq, Structural)]
pub enum NamedColor {
    Black,
    White,
    Red,
    DarkRed,
    Green,
    Blue,
    Cyan,
    Magenta,
    Yellow,
    LightYellow,
    Orange,
    Pink,
    Grey,
    DarkGray,
    LightGrey,
    LightBlue,
    LightSalmon,
    Brown3,
    Brown4,
}

/// A cell colour: a palette entry, or red/green/blue intensities in hundredths.
#[derive(Clone, Copy, Debug, PartialEq, Eq, Structural)]
pub enum Color {
    Named(NamedColor),
    Hundredths(u8, u8, u8),
}

} // verus!
