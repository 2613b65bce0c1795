//! Handles: the identities that the object store assigns.

use vstd::prelude::*;
use std::marker::PhantomData;

verus! {

/// The identity of a stored object, and the means to reach it in the store.
///
/// Two handles of one kind are the same exactly if their ids are equal.
#[derive(Debug, Hash)]
pub struct Handle<T> {
    id: usize,
    marker: PhantomData<T>,
}

impl<T> Handle<T> {
    /// The id that the store assigned.
    pub closed spec fn spec_id(self) -> nat {
        self.id as nat
    }

    /// A handle is its id and nothing else: two handles with the same id are
    /// the same handle.
    pub proof fn lemma_handle_is_id(a: Handle<T>, b: Handle<T>)
        ensures
            a.spec_id() == b.spec_id() <==> a == b,
    {
    }

    /// The handle with this id.
    pub closed spec fn spec_from_id(id: nat) -> Handle<T> {
        Handle { id: id as usize, marker: PhantomData }
    }

    /// The handle with an id has that id.
    pub proof fn lemma_from_id(id: nat)
        requires
            id <= usize::MAX,
        ensures
            Self::spec_from_id(id).spec_id() == id,
    {
    }

    /// The handle with this id. Only the store issues handles.
    pub(crate) fn from_id(id: usize) -> (h: Handle<T>)
        ensures
            h.spec_id() == id,
            h == Self::spec_from_id(id as nat),
    {
        Handle { id, marker: PhantomData }
    }

    /// The id that the store assigned.
    pub fn id(&self) -> (id: usize)
        ensures
            id == self.spec_id(),
    {
        self.id
    }

    /// Whether both handles refer to the same object.
    pub fn same(&self, other: &Handle<T>) -> (r: bool)
        ensures
            r == (*self == *other),
    {
        self.id == other.id
    }
}

impl<T> Clone for Handle<T> {
    /// A copy of the handle: the same identity.
    fn clone(&self) -> (h: Self)
        ensures
            h == *self,
    {
        Handle { id: self.id, marker: PhantomData }
    }
}

impl<T> Copy for Handle<T> {

}

impl<T> PartialEq for Handle<T> {
    fn eq(&self, other: &Self) -> (r: bool) {
        self.id == other.id
    }
}

impl<T> Eq for Handle<T> {

}

impl<T> vstd::std_specs::cmp::PartialEqSpecImpl for Handle<T> {
    open spec fn obeys_eq_spec() -> bool {
        true
    }

    open spec fn eq_spec(&self, other: &Self) -> bool {
        self.spec_id() == other.spec_id()
    }
}

} // verus!
