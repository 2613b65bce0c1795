//! Pairs of neighbours in a circular order.

use vstd::prelude::*;
use itertools::Itertools;

verus! {

/// The places `0..len` in circular windows of two: each place with the place
/// that follows it, the last with the first.
///
/// Calls `Itertools::circular_tuple_windows` on the range `0..len`. That
/// adaptor clones the items, cycles through them and yields as many windows
/// as there are items, so that window `i` holds item `i` and the item after
/// it, wrapping round at the end; of no items it yields nothing.
#[verifier::external_body]
pub(crate) fn circular_pairs(len: usize) -> (pairs: Vec<(usize, usize)>)
    ensures
        pairs@.len() == len,
        forall|i: int|
            0 <= i < len ==> (#[trigger] pairs@[i]).0 == i && pairs@[i].1 == (i + 1) % (len as int),
{
    (0..len).circular_tuple_windows().collect()
}

} // verus!
