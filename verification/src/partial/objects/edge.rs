//! Partial half-edges.

use vstd::prelude::*;
use crate::math::{Point1, SurfacePosition};
use crate::objects::edge::{GlobalEdge, HalfEdge};
use crate::objects::store::{Objects, ObjectsView};
use crate::objects::vertex::Vertex;
use crate::partial::traits::{HasPartial, PartialObject};
use crate::partial::{FullToPartialCache, MaybeCurve, Partial};
use crate::storage::Handle;

verus! {

/// A partial half-edge.
pub struct PartialHalfEdge {
    /// The curve that the half-edge runs along
    pub curve: Option<MaybeCurve>,
    /// The parameters on the curve where the half-edge starts and ends
    pub boundary: [Option<Point1>; 2],
    /// The vertex where the half-edge starts
    pub start_vertex: Partial<Vertex>,
    /// The edge in space that the half-edge traces
    pub global_form: Handle<GlobalEdge>,
}

/// A part that a half-edge cannot be built without.
#[derive(Clone, Copy, Debug, PartialEq, Eq, Structural, Hash)]
pub enum MissingPart {
    /// No curve is set.
    Curve,
    /// The kind of curve is set, but not where it lies.
    CurvePlacement,
    /// The parameter where the half-edge starts is not set.
    BoundaryStart,
    /// The parameter where the half-edge ends is not set.
    BoundaryEnd,
}

impl PartialHalfEdge {
    /// The first part, if any, that the half-edge cannot be built without
    /// and that is not set.
    pub open spec fn spec_missing(self) -> Option<MissingPart> {
        match self.curve {
            None => Some(MissingPart::Curve),
            Some(MaybeCurve::Defined(_)) => {
                if self.boundary[0] is None {
                    Some(MissingPart::BoundaryStart)
                } else if self.boundary[1] is None {
                    Some(MissingPart::BoundaryEnd)
                } else {
                    None
                }
            },
            Some(_) => Some(MissingPart::CurvePlacement),
        }
    }

    /// The surface position where the half-edge starts: known where the
    /// start of the boundary and the place of the curve are.
    pub open spec fn spec_start_position(self) -> Option<(int, int)> {
        match (self.boundary[0], self.curve) {
            (Some(start), Some(MaybeCurve::Defined(curve))) => Some(
                curve.spec_point(start.t as int),
            ),
            _ => None,
        }
    }

    /// The half-edge that building gives, in a store that holds `vertices`
    /// vertices.
    pub open spec fn spec_built(self, vertices: nat) -> HalfEdge {
        HalfEdge {
            curve: self.curve->0->Defined_0,
            boundary: [self.boundary[0]->0, self.boundary[1]->0],
            start_vertex: self.start_vertex.spec_built(vertices),
            global_form: self.global_form,
        }
    }

    /// The first part, if any, that the half-edge cannot be built without
    /// and that is not set.
    pub fn missing(&self) -> (part: Option<MissingPart>)
        ensures
            part == self.spec_missing(),
    {
        match self.curve {
            None => Some(MissingPart::Curve),
            Some(MaybeCurve::Defined(_)) => {
                if self.boundary[0].is_none() {
                    Some(MissingPart::BoundaryStart)
                } else if self.boundary[1].is_none() {
                    Some(MissingPart::BoundaryEnd)
                } else {
                    None
                }
            },
            Some(_) => Some(MissingPart::CurvePlacement),
        }
    }

    /// The surface position where the half-edge starts, where it is known.
    pub fn start_position(&self) -> (position: Option<SurfacePosition>)
        ensures
            position is Some <==> self.spec_start_position() is Some,
            position matches Some(p) ==> Some((p.u as int, p.v as int))
                == self.spec_start_position() && p.spec_in_reach(),
    {
        match self.boundary[0] {
            Some(start) => match self.curve {
                Some(MaybeCurve::Defined(curve)) => Some(curve.point_from_path_coords(start)),
                _ => None,
            },
            None => None,
        }
    }
}

impl HasPartial for HalfEdge {
    type Partial = PartialHalfEdge;
}

impl PartialObject for PartialHalfEdge {
    type Full = HalfEdge;

    open spec fn new_ensures(before: ObjectsView, after: ObjectsView, partial: Self) -> bool {
        &&& after == (ObjectsView { global_edges: before.global_edges + 1, ..before })
        &&& partial.curve is None
        &&& partial.boundary[0] is None
        &&& partial.boundary[1] is None
        &&& partial.start_vertex is Fresh
        &&& partial.global_form.spec_id() == before.global_edges
    }

    open spec fn spec_mirrors(self, full: &HalfEdge) -> bool {
        &&& self.curve == Some(MaybeCurve::Defined(full.curve))
        &&& self.boundary[0] == Some(full.boundary[0])
        &&& self.boundary[1] == Some(full.boundary[1])
        &&& self.start_vertex == Partial::Existing(full.start_vertex)
        &&& self.global_form == full.global_form
    }

    open spec fn build_requires(self, objects: ObjectsView) -> bool {
        self.spec_missing() is None
    }

    open spec fn build_ensures(
        self,
        before: ObjectsView,
        after: ObjectsView,
        full: HalfEdge,
    ) -> bool {
        &&& full == self.spec_built(before.vertices)
        &&& self.start_vertex is Existing ==> after == before
        &&& self.start_vertex is Fresh ==> after == (ObjectsView {
            vertices: before.vertices + 1,
            ..before
        })
        &&& (self.start_vertex matches Partial::Existing(vertex) ==> before.has_vertex(vertex))
            && before.has_global_edge(self.global_form) ==> after.holds_half_edge(full)
    }

    fn new(objects: &mut Objects) -> (partial: Self) {
        PartialHalfEdge {
            curve: None,
            boundary: [None, None],
            start_vertex: Partial::Fresh,
            global_form: objects.insert_global_edge(GlobalEdge::new()),
        }
    }

    fn from_full(half_edge: &HalfEdge, cache: &mut FullToPartialCache) -> (partial: Self)
        ensures
            final(cache).spec_vertices() == old(cache).spec_vertices().insert(
                half_edge.start_vertex,
            ),
            final(cache).spec_cycles() == old(cache).spec_cycles(),
    {
        PartialHalfEdge {
            curve: Some(MaybeCurve::Defined(half_edge.curve)),
            boundary: [Some(half_edge.boundary[0]), Some(half_edge.boundary[1])],
            start_vertex: Partial::<Vertex>::from_full(half_edge.start_vertex, cache),
            global_form: half_edge.global_form,
        }
    }

    fn build(self, objects: &mut Objects) -> (full: HalfEdge) {
        let curve = match self.curve {
            Some(MaybeCurve::Defined(curve)) => curve,
            _ => vstd::pervasive::unreached(),
        };
        let start = match self.boundary[0] {
            Some(point) => point,
            None => vstd::pervasive::unreached(),
        };
        let end = match self.boundary[1] {
            Some(point) => point,
            None => vstd::pervasive::unreached(),
        };
        let start_vertex = self.start_vertex.build(objects);
        let full = HalfEdge::new(curve, [start, end], start_vertex, self.global_form);
        assert(full.boundary =~= self.spec_built(old(objects)@.vertices).boundary);
        full
    }
}

/// A half-edge that is taken into its partial form and built again is the
/// half-edge it was, and no object is inserted on the way.
pub proof fn lemma_half_edge_round_trip(
    half_edge: HalfEdge,
    partial: PartialHalfEdge,
    before: ObjectsView,
    after: ObjectsView,
    built: HalfEdge,
)
    requires
        partial.spec_mirrors(&half_edge),
        partial.build_ensures(before, after, built),
    ensures
        partial.build_requires(before),
        built == half_edge,
        after == before,
{
    assert(partial.spec_built(before.vertices).boundary =~= half_edge.boundary);
}

} // verus!
