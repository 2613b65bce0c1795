//! Partial shells.

use vstd::prelude::*;
use crate::algorithms::reverse::cycle::copy_handles;
use crate::objects::face::Face;
use crate::objects::shell::{lemma_set_order_unique, spec_is_set, Shell};
use crate::objects::store::{Objects, ObjectsView};
use crate::partial::traits::{HasPartial, PartialObject};
use crate::partial::FullToPartialCache;
use crate::storage::Handle;

verus! {

/// A partial shell: faces that can still be added to and taken away.
pub struct PartialShell {
    /// The faces of the shell, in any order; a face may be there more than
    /// once
    pub faces: Vec<Handle<Face>>,
}

impl HasPartial for Shell {
    type Partial = PartialShell;
}

impl PartialObject for PartialShell {
    type Full = Shell;

    open spec fn new_ensures(before: ObjectsView, after: ObjectsView, partial: Self) -> bool {
        after == before && partial.faces@.len() == 0
    }

    open spec fn spec_mirrors(self, full: &Shell) -> bool {
        self.faces@ == full@
    }

    open spec fn build_requires(self, objects: ObjectsView) -> bool {
        true
    }

    open spec fn build_ensures(
        self,
        before: ObjectsView,
        after: ObjectsView,
        full: Shell,
    ) -> bool {
        &&& after == before
        &&& spec_is_set(full@)
        &&& full@.to_set() == self.faces@.to_set()
    }

    fn new(objects: &mut Objects) -> (partial: Self) {
        PartialShell { faces: Vec::new() }
    }

    fn from_full(shell: &Shell, cache: &mut FullToPartialCache) -> (partial: Self)
        ensures
            final(cache).spec_vertices() == old(cache).spec_vertices(),
            final(cache).spec_cycles() == old(cache).spec_cycles(),
    {
        PartialShell { faces: copy_handles(shell.faces()) }
    }

    fn build(self, objects: &mut Objects) -> (full: Shell) {
        Shell::new(self.faces)
    }
}

/// A shell that is taken into its partial form and built again holds what it
/// held, and no object is inserted on the way.
pub proof fn lemma_shell_round_trip(
    shell: Shell,
    partial: PartialShell,
    before: ObjectsView,
    after: ObjectsView,
    built: Shell,
)
    requires
        spec_is_set(shell@),
        partial.spec_mirrors(&shell),
        partial.build_ensures(before, after, built),
    ensures
        partial.build_requires(before),
        built@ == shell@,
        after == before,
{
    lemma_set_order_unique(built@, shell@);
}

} // verus!
