//! Building half-edges.

use vstd::prelude::*;
use crate::geometry::curve::{Curve, Line};
use crate::math::{lemma_product_bound, Point1, Point2, Scalar, Vector2};
use crate::objects::edge::{GlobalEdge, HalfEdge};
use crate::objects::store::{Objects, ObjectsView};
use crate::objects::vertex::Vertex;
use crate::storage::Handle;

verus! {

/// Builds a half-edge from a curve and a boundary. The vertex where it starts
/// and the global edge that it traces can be given; what is not given is
/// made when the half-edge is built.
pub struct HalfEdgeBuilder {
    curve: Curve,
    boundary: [Point1; 2],
    start_vertex: Option<Handle<Vertex>>,
    global_form: Option<Handle<GlobalEdge>>,
}

/// What a builder holds.
pub struct HalfEdgeBuilderView {
    /// The curve that the half-edge runs along
    pub curve: Curve,
    /// The parameters on the curve where the half-edge starts and ends
    pub boundary: [Point1; 2],
    /// The vertex where the half-edge starts, if it was given
    pub start_vertex: Option<Handle<Vertex>>,
    /// The edge in space that the half-edge traces, if it was given
    pub global_form: Option<Handle<GlobalEdge>>,
}

/// Whether the line is at `points[0]` at the parameter `boundary[0]` and at
/// `points[1]` at the parameter `boundary[1]`.
pub open spec fn spec_line_through(line: Line, boundary: [Point1; 2], points: [Point2; 2]) -> bool {
    &&& line.spec_point(boundary[0].t as int) == (points[0].u as int, points[0].v as int)
    &&& line.spec_point(boundary[1].t as int) == (points[1].u as int, points[1].v as int)
}

/// The boundary of a line segment: the one that is given, or from zero to
/// one where none is.
pub open spec fn spec_boundary_or_unit(boundary: Option<[Point1; 2]>) -> [Point1; 2] {
    match boundary {
        Some(given) => given,
        None => [Point1 { t: 0 }, Point1 { t: 1 }],
    }
}

/// Whether the line with this origin and direction, in one coordinate, is at
/// `at_start` at the parameter `t0` and at `at_end` at the parameter `t1`.
pub open spec fn spec_coordinate_through(
    origin: Scalar,
    direction: Scalar,
    t0: Scalar,
    t1: Scalar,
    at_start: Scalar,
    at_end: Scalar,
) -> bool {
    origin + direction * t0 == at_start && origin + direction * t1 == at_end
}

/// At most one line passes through two points at two different parameters.
pub proof fn lemma_line_through_unique(
    first: Line,
    second: Line,
    boundary: [Point1; 2],
    points: [Point2; 2],
)
    requires
        boundary[0].t != boundary[1].t,
        spec_line_through(first, boundary, points),
        spec_line_through(second, boundary, points),
    ensures
        first == second,
{
    let t0 = boundary[0].t as int;
    let t1 = boundary[1].t as int;
    lemma_step_unique(
        first.origin.u as int,
        first.direction.u as int,
        second.origin.u as int,
        second.direction.u as int,
        t0,
        t1,
    );
    lemma_step_unique(
        first.origin.v as int,
        first.direction.v as int,
        second.origin.v as int,
        second.direction.v as int,
        t0,
        t1,
    );
}

/// Two lines in one coordinate that agree at two different parameters are
/// the same.
proof fn lemma_step_unique(o1: int, d1: int, o2: int, d2: int, t0: int, t1: int)
    requires
        t0 != t1,
        o1 + d1 * t0 == o2 + d2 * t0,
        o1 + d1 * t1 == o2 + d2 * t1,
    ensures
        o1 == o2,
        d1 == d2,
{
    assert((d1 - d2) * (t1 - t0) == 0) by (nonlinear_arith)
        requires
            o1 + d1 * t0 == o2 + d2 * t0,
            o1 + d1 * t1 == o2 + d2 * t1,
    ;
    assert(d1 == d2) by (nonlinear_arith)
        requires
            (d1 - d2) * (t1 - t0) == 0,
            t1 != t0,
    ;
}

/// The origin and the direction, in one coordinate, of the line that is at
/// `at_start` at the parameter `t0` and at `at_end` at the parameter `t1`, where there
/// is such a line on the lattice.
fn fit_coordinate(t0: Scalar, t1: Scalar, at_start: Scalar, at_end: Scalar) -> (fit: Option<
    (Scalar, Scalar),
>)
    requires
        t0 != t1,
    ensures
        fit is Some <==> exists|origin: Scalar, direction: Scalar| #[trigger]
            spec_coordinate_through(origin, direction, t0, t1, at_start, at_end),
        fit matches Some((origin, direction)) ==> spec_coordinate_through(
            origin,
            direction,
            t0,
            t1,
            at_start,
            at_end,
        ),
{
    let dt: i64 = t1 as i64 - t0 as i64;
    let dp: i64 = at_end as i64 - at_start as i64;
    let run: u64 = if dt < 0 {
        (-dt) as u64
    } else {
        dt as u64
    };
    let rise: u64 = if dp < 0 {
        (-dp) as u64
    } else {
        dp as u64
    };
    let steps: u64 = rise / run;
    let rest: u64 = rise % run;
    assert(rise == run * steps + rest) by {
        vstd::arithmetic::div_mod::lemma_fundamental_div_mod(rise as int, run as int);
    }
    let ghost negative = (dt < 0) != (dp < 0);
    if rest != 0 {
        proof {
            if exists|origin: Scalar, direction: Scalar| #[trigger]
                spec_coordinate_through(origin, direction, t0, t1, at_start, at_end) {
                let (origin, direction) = choose|origin: Scalar, direction: Scalar| #[trigger]
                    spec_coordinate_through(origin, direction, t0, t1, at_start, at_end);
                lemma_divides(direction as int, dt as int, dp as int, t0 as int, t1 as int,
                    origin as int, at_start as int, at_end as int);
                lemma_rest_zero(direction as int, dt as int, dp as int, run as int, rise as int);
            }
        }
        return None;
    }
    let slope: i64 = if (dt < 0) != (dp < 0) {
        -(steps as i64)
    } else {
        steps as i64
    };
    assert(slope * dt == dp) by (nonlinear_arith)
        requires
            rise == run * steps,
            run == dt || run == -dt,
            rise == dp || rise == -dp,
            dt < 0 ==> run == -dt,
            dt >= 0 ==> run == dt,
            dp < 0 ==> rise == -dp,
            dp >= 0 ==> rise == dp,
            slope == steps || slope == -steps,
            ((dt < 0) != (dp < 0)) ==> slope == -steps,
            ((dt < 0) == (dp < 0)) ==> slope == steps,
    ;
    let ghost fitting = exists|origin: Scalar, direction: Scalar| #[trigger]
        spec_coordinate_through(origin, direction, t0, t1, at_start, at_end);
    let ghost (fit_origin, fit_direction) = choose|origin: Scalar, direction: Scalar| #[trigger]
        spec_coordinate_through(origin, direction, t0, t1, at_start, at_end);
    proof {
        if fitting {
            lemma_divides(fit_direction as int, dt as int, dp as int, t0 as int, t1 as int,
                fit_origin as int, at_start as int, at_end as int);
            assert(fit_direction == slope) by (nonlinear_arith)
                requires
                    fit_direction * dt == dp,
                    slope * dt == dp,
                    dt != 0,
            ;
        }
    }
    if slope < Scalar::MIN as i64 || slope > Scalar::MAX as i64 {
        return None;
    }
    proof {
        lemma_product_bound(slope as int, t0 as int, 0x8000_0000, 0x8000_0000);
    }
    let intercept: i64 = at_start as i64 - slope * (t0 as i64);
    if intercept < Scalar::MIN as i64 || intercept > Scalar::MAX as i64 {
        return None;
    }
    let origin = intercept as Scalar;
    let direction = slope as Scalar;
    assert(origin + direction * t1 == at_end) by (nonlinear_arith)
        requires
            origin == at_start - direction * t0,
            direction * (t1 - t0) == at_end - at_start,
    ;
    assert(spec_coordinate_through(origin, direction, t0, t1, at_start, at_end));
    Some((origin, direction))
}

/// The step between two points of a line is the direction times the step
/// between their parameters.
proof fn lemma_divides(
    direction: int,
    dt: int,
    dp: int,
    t0: int,
    t1: int,
    origin: int,
    at_start: int,
    at_end: int,
)
    requires
        dt == t1 - t0,
        dp == at_end - at_start,
        origin + direction * t0 == at_start,
        origin + direction * t1 == at_end,
    ensures
        direction * dt == dp,
{
    assert(direction * (t1 - t0) == direction * t1 - direction * t0) by (nonlinear_arith);
}

/// Where a whole number of runs makes the rise, nothing is left over when the
/// rise is divided by the run.
proof fn lemma_rest_zero(direction: int, dt: int, dp: int, run: int, rise: int)
    requires
        direction * dt == dp,
        run > 0,
        rise >= 0,
        run == dt || run == -dt,
        rise == dp || rise == -dp,
    ensures
        rise % run == 0,
{
    let count = if direction < 0 {
        -direction
    } else {
        direction
    };
    assert(rise == count * run) by (nonlinear_arith)
        requires
            direction * dt == dp,
            run > 0,
            rise >= 0,
            run == dt || run == -dt,
            rise == dp || rise == -dp,
            count == direction || count == -direction,
            count >= 0,
    ;
    vstd::arithmetic::div_mod::lemma_mod_multiples_basic(count, run);
}

impl View for HalfEdgeBuilder {
    type V = HalfEdgeBuilderView;

    closed spec fn view(&self) -> HalfEdgeBuilderView {
        HalfEdgeBuilderView {
            curve: self.curve,
            boundary: self.boundary,
            start_vertex: self.start_vertex,
            global_form: self.global_form,
        }
    }
}

impl HalfEdgeBuilderView {
    /// The half-edge that building gives, in a store that holds `vertices`
    /// vertices and `global_edges` global edges.
    pub open spec fn spec_built(self, vertices: nat, global_edges: nat) -> HalfEdge {
        HalfEdge {
            curve: self.curve,
            boundary: self.boundary,
            start_vertex: match self.start_vertex {
                Some(vertex) => vertex,
                None => Handle::<Vertex>::spec_from_id(vertices),
            },
            global_form: match self.global_form {
                Some(global_edge) => global_edge,
                None => Handle::<GlobalEdge>::spec_from_id(global_edges),
            },
        }
    }
}

impl HalfEdgeBuilder {
    /// A builder of the half-edge on this curve with this boundary.
    pub fn new(curve: Curve, boundary: [Point1; 2]) -> (builder: Self)
        ensures
            builder@ == (HalfEdgeBuilderView {
                curve,
                boundary,
                start_vertex: None,
                global_form: None,
            }),
    {
        HalfEdgeBuilder { curve, boundary, start_vertex: None, global_form: None }
    }

    /// A builder of the line segment from the first point to the second.
    ///
    /// The segment starts at the parameter `boundary[0]` and ends at
    /// `boundary[1]`; where no boundary is given, it runs from zero to one.
    /// There is no such segment where both parameters are the same, or where
    /// no line with lattice data is at both points at these parameters.
    pub fn line_segment(points_surface: [Point2; 2], boundary: Option<[Point1; 2]>) -> (builder:
        Option<Self>)
        ensures
            builder is Some <==> spec_boundary_or_unit(boundary)[0].t != spec_boundary_or_unit(
                boundary,
            )[1].t && exists|line: Line|
                spec_line_through(line, spec_boundary_or_unit(boundary), points_surface),
            builder matches Some(b) ==> b@.curve is Line && spec_line_through(
                b@.curve->Line_0,
                b@.boundary,
                points_surface,
            ) && b@.boundary == spec_boundary_or_unit(boundary) && b@.start_vertex is None
                && b@.global_form is None,
    {
        let bounds: [Point1; 2] = match boundary {
            Some(given) => given,
            None => [Point1 { t: 0 }, Point1 { t: 1 }],
        };
        assert(bounds =~= spec_boundary_or_unit(boundary));
        let t0 = bounds[0].t;
        let t1 = bounds[1].t;
        let at_start = points_surface[0];
        let at_end = points_surface[1];
        if t0 == t1 {
            return None;
        }
        let u = fit_coordinate(t0, t1, at_start.u, at_end.u);
        let v = fit_coordinate(t0, t1, at_start.v, at_end.v);
        proof {
            if exists|line: Line| spec_line_through(line, bounds, points_surface) {
                let line = choose|line: Line| spec_line_through(line, bounds, points_surface);
                assert(spec_coordinate_through(
                    line.origin.u,
                    line.direction.u,
                    t0,
                    t1,
                    at_start.u,
                    at_end.u,
                ));
                assert(spec_coordinate_through(
                    line.origin.v,
                    line.direction.v,
                    t0,
                    t1,
                    at_start.v,
                    at_end.v,
                ));
                assert(u is Some && v is Some);
            }
        }
        let (origin_u, direction_u) = match u {
            Some(fit) => fit,
            None => {
                return None;
            },
        };
        let (origin_v, direction_v) = match v {
            Some(fit) => fit,
            None => {
                return None;
            },
        };
        let line = Line {
            origin: Point2 { u: origin_u, v: origin_v },
            direction: Vector2 { u: direction_u, v: direction_v },
        };
        assert(spec_line_through(line, bounds, points_surface));
        Some(Self::new(Curve::Line(line), bounds))
    }

    /// The builder, with the vertex where the half-edge starts.
    pub fn with_start_vertex(self, start_vertex: Handle<Vertex>) -> (builder: Self)
        ensures
            builder@ == (HalfEdgeBuilderView { start_vertex: Some(start_vertex), ..self@ }),
    {
        let mut builder = self;
        builder.start_vertex = Some(start_vertex);
        builder
    }

    /// The builder, with the global edge that the half-edge traces.
    pub fn with_global_form(self, global_form: Handle<GlobalEdge>) -> (builder: Self)
        ensures
            builder@ == (HalfEdgeBuilderView { global_form: Some(global_form), ..self@ }),
    {
        let mut builder = self;
        builder.global_form = Some(global_form);
        builder
    }

    /// Builds the half-edge. A start vertex and a global edge that were not
    /// given are made and inserted, the vertex first.
    pub fn build(self, objects: &mut Objects) -> (half_edge: HalfEdge)
        ensures
            half_edge == self@.spec_built(
                old(objects)@.vertices,
                old(objects)@.global_edges,
            ),
            final(objects)@ == (ObjectsView {
                vertices: old(objects)@.vertices + if self@.start_vertex is None {
                    1nat
                } else {
                    0nat
                },
                global_edges: old(objects)@.global_edges + if self@.global_form is None {
                    1nat
                } else {
                    0nat
                },
                ..old(objects)@
            }),
            (self@.start_vertex matches Some(vertex) ==> old(objects)@.has_vertex(vertex)) && (
            self@.global_form matches Some(global_edge) ==> old(objects)@.has_global_edge(
                global_edge,
            )) ==> final(objects)@.holds_half_edge(half_edge),
    {
        let start_vertex = match self.start_vertex {
            Some(vertex) => vertex,
            None => objects.insert_vertex(Vertex::new()),
        };
        let global_form = match self.global_form {
            Some(global_edge) => global_edge,
            None => objects.insert_global_edge(GlobalEdge::new()),
        };
        HalfEdge::new(self.curve, self.boundary, start_vertex, global_form)
    }
}

} // verus!
