//! The traits that tie full objects to their partial forms.

use vstd::prelude::*;
use crate::objects::store::{Objects, ObjectsView};
use crate::partial::FullToPartialCache;

verus! {

/// A full object that has a partial form.
pub trait HasPartial: Sized {
    /// The partial form of this object
    type Partial;
}

/// A partial object.
pub trait PartialObject: Sized {
    /// The full object that this is the partial form of
    type Full: HasPartial<Partial = Self>;

    /// What `new` leaves in the store, and what it returns.
    spec fn new_ensures(before: ObjectsView, after: ObjectsView, partial: Self) -> bool;

    /// Whether the partial object mirrors the full one: every part is set,
    /// to what the full object holds.
    spec fn spec_mirrors(self, full: &Self::Full) -> bool;

    /// Whether every part is set that the full object needs, and the store
    /// holds what the parts refer to.
    spec fn build_requires(self, objects: ObjectsView) -> bool;

    /// What `build` leaves in the store, and what it returns.
    spec fn build_ensures(self, before: ObjectsView, after: ObjectsView, full: Self::Full) -> bool;

    /// A partial object with nothing set. What the full object cannot be
    /// without is made through the store.
    fn new(objects: &mut Objects) -> (partial: Self)
        ensures
            Self::new_ensures(old(objects)@, final(objects)@, partial),
    ;

    /// The partial object that mirrors a full one. The objects that it
    /// shares with others are recorded in the cache.
    fn from_full(full: &Self::Full, cache: &mut FullToPartialCache) -> (partial: Self)
        ensures
            partial.spec_mirrors(full),
    ;

    /// Builds the full object, inserting the parts that do not exist yet.
    fn build(self, objects: &mut Objects) -> (full: Self::Full)
        requires
            self.build_requires(old(objects)@),
        ensures
            self.build_ensures(old(objects)@, final(objects)@, full),
    ;
}

} // verus!
