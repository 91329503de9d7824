//! The two places where the engine asks for randomness. Both use the
//! thread-local generator of the `rand` crate, which the operating system
//! seeds; the generator cannot be set up where the system offers no entropy.

use vstd::prelude::*;
use rand::seq::SliceRandom;
use rand::Rng;

verus! {

/// Calls `SliceRandom::choose` on the items with `rand::thread_rng()`. The
/// call returns nothing for an empty slice and one of the slice's elements
/// otherwise; which one is left open.
#[verifier::external_body]
pub(crate) fn pick_one(items: &Vec<i64>) -> (r: Option<i64>)
    ensures
        items@.len() == 0 ==> r is None,
        items@.len() > 0 ==> r is Some && items@.contains(r->Some_0),
{
    items.choose(&mut rand::thread_rng()).copied()
}

/// Calls `Rng::gen_range` on `rand::thread_rng()` with the range from 0 up to,
/// but not including, `bound`. The call returns a value of that range; which
/// one is left open. It must not be given an empty range.
#[verifier::external_body]
pub(crate) fn below(bound: u128) -> (r: u128)
    requires
        bound > 0,
    ensures
        r < bound,
{
    rand::thread_rng().gen_range(0..bound)
}

} // verus!
