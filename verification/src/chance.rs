//! Random choices.

use rand::Rng;
use vstd::prelude::*;

verus! {

/// Calls `rand::Rng::gen_range` on `rand::thread_rng()` with the range from 0
/// up to, and without, `len`.
///
/// `gen_range` panics on an empty range, which `len > 0` leaves out, and hands
/// back a value of the range. Which one is a matter of chance, so nothing more
/// is said of it. (`thread_rng` itself gives up where the operating system
/// hands it no seed.)
#[verifier::external_body]
fn random_index(len: usize) -> (i: usize)
    requires
        len > 0,
    ensures
        i < len,
{
    rand::thread_rng().gen_range(0..len)
}

/// `pick` may come out of a draw among `len` items: a place among them, or
/// nothing where there are none.
pub open spec fn valid_pick(pick: Option<int>, len: nat) -> bool {
    match pick {
        Some(i) => 0 <= i < len,
        None => len == 0,
    }
}

/// `pick` as a mathematical integer.
pub open spec fn pick_view(pick: Option<usize>) -> Option<int> {
    match pick {
        Some(i) => Some(i as int),
        None => None,
    }
}

/// Draws one place among `len` items at random; nothing where there are none.
pub fn pick(len: usize) -> (r: Option<usize>)
    ensures
        valid_pick(pick_view(r), len as nat),
{
    if len == 0 {
        None
    } else {
        Some(random_index(len))
    }
}

} // verus!
