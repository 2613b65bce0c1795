//! Partial cycles.

use vstd::prelude::*;
use crate::algorithms::reverse::cycle::copy_handles;
use crate::objects::cycle::Cycle;
use crate::objects::edge::HalfEdge;
use crate::objects::store::{Objects, ObjectsView};
use crate::partial::traits::{HasPartial, PartialObject};
use crate::partial::FullToPartialCache;
use crate::storage::Handle;

verus! {

/// A partial cycle: half-edges that can still be added to, taken away and
/// put in another order.
pub struct PartialCycle {
    /// The half-edges of the cycle, in order
    pub half_edges: Vec<Handle<HalfEdge>>,
}

impl HasPartial for Cycle {
    type Partial = PartialCycle;
}

impl PartialObject for PartialCycle {
    type Full = Cycle;

    open spec fn new_ensures(before: ObjectsView, after: ObjectsView, partial: Self) -> bool {
        after == before && partial.half_edges@.len() == 0
    }

    open spec fn spec_mirrors(self, full: &Cycle) -> bool {
        self.half_edges@ == full@
    }

    open spec fn build_requires(self, objects: ObjectsView) -> bool {
        true
    }

    open spec fn build_ensures(
        self,
        before: ObjectsView,
        after: ObjectsView,
        full: Cycle,
    ) -> bool {
        after == before && full@ == self.half_edges@
    }

    fn new(objects: &mut Objects) -> (partial: Self) {
        PartialCycle { half_edges: Vec::new() }
    }

    fn from_full(cycle: &Cycle, cache: &mut FullToPartialCache) -> (partial: Self)
        ensures
            final(cache).spec_vertices() == old(cache).spec_vertices(),
            final(cache).spec_cycles() == old(cache).spec_cycles(),
    {
        PartialCycle { half_edges: copy_handles(cycle.half_edges()) }
    }

    fn build(self, objects: &mut Objects) -> (full: Cycle) {
        Cycle::new(self.half_edges)
    }
}

/// A cycle that is taken into its partial form and built again holds what it
/// held, and no object is inserted on the way.
pub proof fn lemma_cycle_round_trip(
    cycle: Cycle,
    partial: PartialCycle,
    before: ObjectsView,
    after: ObjectsView,
    built: Cycle,
)
    requires
        partial.spec_mirrors(&cycle),
        partial.build_ensures(before, after, built),
    ensures
        partial.build_requires(before),
        built@ == cycle@,
        after == before,
{
}

} // verus!
