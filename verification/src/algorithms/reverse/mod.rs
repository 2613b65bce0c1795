//! Reversal: the same boundary, traced the other way round.

pub mod cycle;
pub mod face;

use vstd::prelude::*;
use crate::objects::store::{Objects, ObjectsView};

verus! {

/// Reversing an object that a handle refers to.
///
/// Nothing that the store holds is changed: the reversed object is built
/// anew, inserted, and its handle returned.
pub trait Reverse: Sized {
    /// What the store must hold for the reversal.
    spec fn reverse_requires(self, objects: ObjectsView) -> bool;

    /// What the store holds after the reversal, and what `reversed` refers
    /// to.
    spec fn reverse_ensures(self, before: ObjectsView, after: ObjectsView, reversed: Self) -> bool;

    /// Builds and inserts the reversed object.
    fn reverse(self, objects: &mut Objects) -> (reversed: Self)
        requires
            self.reverse_requires(old(objects)@),
        ensures
            self.reverse_ensures(old(objects)@, final(objects)@, reversed),
    ;
}

} // verus!
