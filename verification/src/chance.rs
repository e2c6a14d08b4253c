//! Chance, for the games: a whole number drawn by the `rand` crate.

use vstd::prelude::*;

verus! {

/// Calls `gen_range` on the generator that `rand::thread_rng` gives. The
/// contract claims what the documentation of `gen_range` says: the number
/// is at least `low` and less than `high`. Which number it is, nothing
/// says. With `low >= high` the call panics, so that is left out; it also
/// panics where the system gives the thread's generator no seed.
#[verifier::external_body]
pub(crate) fn random_in(low: i32, high: i32) -> (drawn: i32)
    requires
        low < high,
    ensures
        low <= drawn < high,
{
    rand::Rng::gen_range(&mut rand::thread_rng(), low, high)
}

} // verus!
