//! Half-edges and the edges in space that they trace.

use vstd::prelude::*;
use crate::geometry::curve::Curve;
use crate::math::{Point1, SurfacePosition};
use crate::objects::vertex::Vertex;
use crate::storage::Handle;

verus! {

/// An edge in space.
///
/// The two half-edges that trace one edge from its two neighbouring faces
/// hold the same global edge.
#[derive(Clone, Copy, Debug, PartialEq, Eq, Structural, Hash)]
pub struct GlobalEdge {}

impl GlobalEdge {
    /// A global edge.
    pub fn new() -> (e: GlobalEdge) {
        GlobalEdge {  }
    }
}

/// A directed edge of a cycle.
///
/// It runs along `curve` from the parameter `boundary[0]` to the parameter
/// `boundary[1]`. It ends where the next half-edge of its cycle starts.
#[derive(Clone, Copy, Debug, PartialEq, Eq, Hash)]
pub struct HalfEdge {
    /// The curve that the half-edge runs along
    pub curve: Curve,
    /// The parameters on the curve where the half-edge starts and ends
    pub boundary: [Point1; 2],
    /// The vertex where the half-edge starts
    pub start_vertex: Handle<Vertex>,
    /// The edge in space that the half-edge traces
    pub global_form: Handle<GlobalEdge>,
}

impl HalfEdge {
    /// The half-edge with these parts.
    pub fn new(
        curve: Curve,
        boundary: [Point1; 2],
        start_vertex: Handle<Vertex>,
        global_form: Handle<GlobalEdge>,
    ) -> (e: HalfEdge)
        ensures
            e == (HalfEdge { curve, boundary, start_vertex, global_form }),
    {
        HalfEdge { curve, boundary, start_vertex, global_form }
    }

    /// The curve that the half-edge runs along.
    pub fn curve(&self) -> (c: Curve)
        ensures
            c == self.curve,
    {
        self.curve
    }

    /// The parameters on the curve where the half-edge starts and ends.
    pub fn boundary(&self) -> (b: [Point1; 2])
        ensures
            b == self.boundary,
    {
        self.boundary
    }

    /// The vertex where the half-edge starts.
    pub fn start_vertex(&self) -> (v: &Handle<Vertex>)
        ensures
            *v == self.start_vertex,
    {
        &self.start_vertex
    }

    /// The edge in space that the half-edge traces.
    pub fn global_form(&self) -> (g: &Handle<GlobalEdge>)
        ensures
            *g == self.global_form,
    {
        &self.global_form
    }

    /// The surface position where the half-edge starts.
    pub open spec fn spec_start_position(self) -> (int, int) {
        self.curve.spec_point(self.boundary[0].t as int)
    }

    /// The surface position where the half-edge ends.
    pub open spec fn spec_end_position(self) -> (int, int) {
        self.curve.spec_point(self.boundary[1].t as int)
    }

    /// Whether the middle of the half-edge is a point that the lattice
    /// holds, once doubled: on a line it always is, on a circle where the
    /// half-edge spans a whole number of half turns.
    pub open spec fn spec_has_middle(self) -> bool {
        self.curve is Line || (self.boundary[0].t + self.boundary[1].t) % 2 == 0
    }

    /// The surface position where the half-edge starts.
    pub fn start_position(&self) -> (p: SurfacePosition)
        ensures
            (p.u as int, p.v as int) == self.spec_start_position(),
            p.spec_in_reach(),
    {
        self.curve.point_from_path_coords(self.boundary[0])
    }

    /// The surface position where the half-edge ends.
    pub fn end_position(&self) -> (p: SurfacePosition)
        ensures
            (p.u as int, p.v as int) == self.spec_end_position(),
            p.spec_in_reach(),
    {
        self.curve.point_from_path_coords(self.boundary[1])
    }

    /// Whether the middle of the half-edge is a point that the lattice
    /// holds, once doubled.
    pub fn has_middle(&self) -> (r: bool)
        ensures
            r == self.spec_has_middle(),
    {
        match self.curve {
            Curve::Line(_) => true,
            Curve::Circle(_) => {
                let sum: i64 = self.boundary[0].t as i64 + self.boundary[1].t as i64;
                let shifted: u64 = (sum + 0x1_0000_0000) as u64;
                shifted % 2 == 0
            },
        }
    }
}

} // verus!
