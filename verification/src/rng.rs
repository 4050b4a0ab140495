use vstd::prelude::*;

verus! {

/// The random number generator of `rltk`; the library only carries it through to the calls
/// below and never looks inside.
#[verifier::external_type_specification]
#[verifier::external_body]
pub struct ExRandomNumberGenerator(rltk::RandomNumberGenerator);

/// Calls `RandomNumberGenerator::range(min, max)`.
/// Claimed: the value lies in `min..max` (lower bound included, upper bound excluded), as the
/// method's documentation says. Nothing is claimed about which value of the range comes back.
/// `gen_range` panics on an empty range, so `min < max` is required.
#[verifier::external_body]
pub(crate) fn rng_range(rng: &mut rltk::RandomNumberGenerator, min: i32, max: i32) -> (r: i32)
    requires
        min < max,
    ensures
        min <= r < max,
{
    rng.range(min, max)
}

/// Calls `RandomNumberGenerator::roll_dice(n, die_type)`, which sums `n` draws of
/// `range(1, die_type + 1)`.
/// Claimed: the sum of `n` values between 1 and `die_type`, so it lies between `n` and
/// `n * die_type`. Which value in that span comes back is not stated.
#[verifier::external_body]
pub(crate) fn rng_roll_dice(rng: &mut rltk::RandomNumberGenerator, n: i32, die_type: i32) -> (r: i32)
    requires
        0 <= n,
        1 <= die_type < i32::MAX,
        n * die_type <= i32::MAX,
    ensures
        n <= r <= n * die_type,
{
    rng.roll_dice(n, die_type)
}

/// Calls `RandomNumberGenerator::random_slice_entry(slice)` and copies the entry out.
/// Claimed: `None` exactly when the slice is empty, otherwise one of the slice's entries.
/// Which entry is not stated. The method rolls a die with as many sides as the slice has
/// entries, so the length, plus one, must fit in an `i32`.
#[verifier::external_body]
pub(crate) fn rng_random_slice_entry<T: Copy>(rng: &mut rltk::RandomNumberGenerator, slice: &[T]) -> (r: Option<T>)
    requires
        slice@.len() < i32::MAX,
    ensures
        r is None <==> slice@.len() == 0,
        r matches Some(v) ==> slice@.contains(v),
{
    rng.random_slice_entry(slice).copied()
}

} // verus!
