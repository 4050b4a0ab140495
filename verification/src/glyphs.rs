use vstd::prelude::*;

verus! {

/// The code page 437 code that `rltk::to_cp437` gives for a character.
pub uninterp spec fn cp437(c: char) -> u16;

/// Calls `rltk::to_cp437(c)`.
/// Claimed: the result is `cp437(c)`, a function of `c` alone (the crate's function is one
/// `match` over a fixed table), and for the printable ASCII characters from ' ' to '~' the table
/// gives the character's own code. The rest of the table is not restated here.
#[verifier::external_body]
pub(crate) fn to_cp437(c: char) -> (g: u16)
    ensures
        g == cp437(c),
        (' ' <= c <= '~') ==> g == c as u16,
{
    rltk::to_cp437(c)
}

} // verus!
