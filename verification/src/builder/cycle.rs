//! Building cycles.

use vstd::prelude::*;
use crate::algorithms::reverse::cycle::{lemma_winding_reversed, spec_connected, spec_reversed};
use crate::builder::edge::{
    lemma_line_through_unique, spec_boundary_or_unit, spec_line_through, HalfEdgeBuilder,
};
use crate::geometry::curve::{Curve, Line};
use crate::math::{Point1, Point2, Scalar, Vector2, Winding};
use crate::objects::cycle::{
    lemma_next_place, spec_start_positions, spec_winding, Cycle, InvalidCycle,
};
use crate::objects::edge::{GlobalEdge, HalfEdge};
use crate::objects::store::{Objects, ObjectsView};
use crate::objects::vertex::Vertex;
use crate::storage::Handle;

verus! {

/// Builds cycles.
pub struct CycleBuilder {}

/// Whether the step from `a` to `b` is a lattice vector.
pub open spec fn spec_side_fits(a: Point2, b: Point2) -> bool {
    &&& Scalar::MIN <= b.u - a.u <= Scalar::MAX
    &&& Scalar::MIN <= b.v - a.v <= Scalar::MAX
}

/// Whether every side of the polygon with these corners is a lattice vector.
pub open spec fn spec_sides_fit(corners: Seq<Point2>) -> bool {
    forall|i: int|
        0 <= i < corners.len() ==> spec_side_fits(
            #[trigger] corners[i],
            corners[(i + 1) % (corners.len() as int)],
        )
}

/// The line segment from `a` to `b`, from parameter zero to parameter one,
/// that starts at the vertex and traces the global edge with these ids.
pub open spec fn spec_side(a: Point2, b: Point2, vertex: nat, global_edge: nat) -> HalfEdge {
    HalfEdge {
        curve: Curve::Line(
            Line {
                origin: a,
                direction: Vector2 { u: (b.u - a.u) as Scalar, v: (b.v - a.v) as Scalar },
            },
        ),
        boundary: [Point1 { t: 0 }, Point1 { t: 1 }],
        start_vertex: Handle::<Vertex>::spec_from_id(vertex),
        global_form: Handle::<GlobalEdge>::spec_from_id(global_edge),
    }
}

/// How many global edges are made for a side: none where one is given.
pub open spec fn spec_fresh(edge: Option<Handle<GlobalEdge>>) -> nat {
    if edge is None {
        1
    } else {
        0
    }
}

/// The global edge of a side: the one that is given, or the one that is made
/// next.
pub open spec fn spec_edge(edge: Option<Handle<GlobalEdge>>, next: nat) -> Handle<GlobalEdge> {
    match edge {
        Some(given) => given,
        None => Handle::<GlobalEdge>::spec_from_id(next),
    }
}

/// The line segment from `from` to `to`, from parameter zero to parameter
/// one, that starts at the vertex and traces the global edge.
pub open spec fn spec_side_with(
    from: Point2,
    to: Point2,
    vertex: Handle<Vertex>,
    global_edge: Handle<GlobalEdge>,
) -> HalfEdge {
    HalfEdge {
        curve: spec_side(from, to, 0, 0).curve,
        boundary: spec_boundary_or_unit(None),
        start_vertex: vertex,
        global_form: global_edge,
    }
}

/// The sides of the polygon with these corners: side `i` leads from corner
/// `i` to the corner after it, the last back to the first. The vertices and
/// global edges have the ids from `vertices` and `global_edges` on.
pub open spec fn spec_polygon(corners: Seq<Point2>, vertices: nat, global_edges: nat) -> Seq<
    HalfEdge,
> {
    Seq::new(
        corners.len(),
        |i: int|
            spec_side(
                corners[i],
                corners[(i + 1) % (corners.len() as int)],
                (vertices + i) as nat,
                (global_edges + i) as nat,
            ),
    )
}

/// The sides of a polygon start at its corners, and each ends where the next
/// starts.
pub proof fn lemma_polygon_is_connected(corners: Seq<Point2>, vertices: nat, global_edges: nat)
    requires
        spec_sides_fit(corners),
    ensures
        spec_start_positions(spec_polygon(corners, vertices, global_edges)) == Seq::new(
            corners.len(),
            |i: int| (corners[i].u as int, corners[i].v as int),
        ),
        spec_connected(spec_polygon(corners, vertices, global_edges)),
{
    let sides = spec_polygon(corners, vertices, global_edges);
    let n = corners.len() as int;
    assert(spec_start_positions(sides) =~= Seq::new(
        corners.len(),
        |i: int| (corners[i].u as int, corners[i].v as int),
    ));
    assert forall|i: int| 0 <= i < n implies (#[trigger] sides[i]).spec_end_position() == sides[(i
        + 1) % n].spec_start_position() by {
        lemma_next_place(i, n);
        let a = corners[i];
        let b = corners[(i + 1) % n];
        let c = corners[((i + 1) % n + 1) % n];
        lemma_next_place((i + 1) % n, n);
        assert(spec_side_fits(a, b));
        assert(sides[i] == spec_side(a, b, (vertices + i) as nat, (global_edges + i) as nat));
        assert(sides[(i + 1) % n] == spec_side(
            b,
            c,
            (vertices + (i + 1) % n) as nat,
            (global_edges + (i + 1) % n) as nat,
        ));
        let step = sides[i].curve->Line_0.direction;
        let onward = sides[(i + 1) % n].curve->Line_0.direction;
        assert(step.u * 1 == b.u - a.u && step.v * 1 == b.v - a.v);
        assert(onward.u * 0 == 0 && onward.v * 0 == 0);
        assert(sides[i].boundary[1].t == 1);
        assert(sides[(i + 1) % n].boundary[0].t == 0);
    }
}

/// Reversing a polygon turns its winding round, and a polygon without area
/// has none reversed either.
pub proof fn lemma_polygon_winding_reversed(corners: Seq<Point2>, vertices: nat, global_edges: nat)
    requires
        spec_sides_fit(corners),
        corners.len() >= 3,
    ensures
        spec_winding(spec_reversed(spec_polygon(corners, vertices, global_edges)))
            == match spec_winding(spec_polygon(corners, vertices, global_edges)) {
            Ok(winding) => Ok::<Winding, InvalidCycle>(winding.spec_reverse()),
            Err(reason) => Err(reason),
        },
{
    lemma_polygon_is_connected(corners, vertices, global_edges);
    lemma_winding_reversed(spec_polygon(corners, vertices, global_edges));
}

impl CycleBuilder {
    /// Builds the sides of the polygon with these corners and inserts them,
    /// each with a vertex and a global edge of its own. The cycle of the
    /// sides is returned; it is not inserted.
    ///
    /// There is no such polygon where the step from a corner to the next is
    /// longer than a lattice vector can be. Nothing is inserted then.
    pub fn polygon(corners: &Vec<Point2>, objects: &mut Objects) -> (cycle: Option<Cycle>)
        ensures
            cycle is Some <==> spec_sides_fit(corners@),
            cycle is None ==> final(objects)@ == old(objects)@,
            cycle matches Some(built) ==> {
                &&& final(objects)@ == (ObjectsView {
                    vertices: old(objects)@.vertices + corners@.len(),
                    global_edges: old(objects)@.global_edges + corners@.len(),
                    half_edges: old(objects)@.half_edges + spec_polygon(
                        corners@,
                        old(objects)@.vertices,
                        old(objects)@.global_edges,
                    ),
                    ..old(objects)@
                })
                &&& built@.len() == corners@.len()
                &&& forall|i: int|
                    0 <= i < corners@.len() ==> (#[trigger] built@[i]).spec_id() == old(
                        objects,
                    )@.half_edges.len() + i
            },
    {
        let n = corners.len();
        let mut k: usize = 0;
        while k < n
            invariant
                k <= n,
                n == corners@.len(),
                forall|i: int|
                    0 <= i < k ==> spec_side_fits(
                        #[trigger] corners@[i],
                        corners@[(i + 1) % (n as int)],
                    ),
            decreases n - k,
        {
            if Self::side(corners, k).is_none() {
                assert(!spec_side_fits(corners@[k as int], corners@[(k + 1) % (n as int)]));
                return None;
            }
            k += 1;
        }
        let ghost before = objects@;
        let ghost sides = spec_polygon(corners@, before.vertices, before.global_edges);
        let mut half_edges: Vec<Handle<HalfEdge>> = Vec::new();
        let mut m: usize = 0;
        while m < n
            invariant
                m <= n,
                n == corners@.len(),
                spec_sides_fit(corners@),
                sides == spec_polygon(corners@, before.vertices, before.global_edges),
                half_edges@.len() == m,
                objects@ == (ObjectsView {
                    vertices: (before.vertices + m) as nat,
                    global_edges: (before.global_edges + m) as nat,
                    half_edges: before.half_edges + sides.subrange(0, m as int),
                    ..before
                }),
                forall|i: int|
                    0 <= i < m ==> (#[trigger] half_edges@[i]).spec_id() == before.half_edges.len()
                        + i,
            decreases n - m,
        {
            let next: usize = if m + 1 == n {
                0
            } else {
                m + 1
            };
            proof {
                lemma_next_place(m as int, n as int);
                assert(spec_side_fits(corners@[m as int], corners@[(m + 1) % (n as int)]));
            }
            let (handle, _) = insert_side(corners[m], corners[next], None, objects);
            assert(objects@.half_edges.last() == sides[m as int]) by {
                assert(objects@.half_edges.last().boundary =~= sides[m as int].boundary);
            }
            half_edges.push(handle);
            m += 1;
            assert(objects@.half_edges =~= before.half_edges + sides.subrange(0, m as int));
        }
        assert(sides.subrange(0, n as int) =~= sides);
        Some(Cycle::new(half_edges))
    }

    /// The builder of the side that leads from corner `k` to the corner after
    /// it, where that step is a lattice vector.
    fn side(corners: &Vec<Point2>, k: usize) -> (builder: Option<HalfEdgeBuilder>)
        requires
            k < corners@.len(),
        ensures
            builder is Some <==> spec_side_fits(
                corners@[k as int],
                corners@[(k + 1) % (corners@.len() as int)],
            ),
            builder matches Some(b) ==> b@.start_vertex is None && b@.global_form is None
                && b@.curve == spec_side(
                corners@[k as int],
                corners@[(k + 1) % (corners@.len() as int)],
                0,
                0,
            ).curve && b@.boundary == spec_boundary_or_unit(None),
    {
        let n = corners.len();
        let next: usize = if k + 1 == n {
            0
        } else {
            k + 1
        };
        proof {
            lemma_next_place(k as int, n as int);
        }
        line_between(corners[k], corners[next])
    }
}

/// The builder of the line segment from `a` to `b`, from parameter zero to
/// parameter one, where the step from `a` to `b` is a lattice vector.
pub(crate) fn line_between(a: Point2, b: Point2) -> (builder: Option<HalfEdgeBuilder>)
    ensures
        builder is Some <==> spec_side_fits(a, b),
        builder matches Some(found) ==> found@.start_vertex is None && found@.global_form is None
            && found@.curve == spec_side(a, b, 0, 0).curve && found@.boundary
            == spec_boundary_or_unit(None),
{
    let builder = HalfEdgeBuilder::line_segment([a, b], None);
    proof {
        let unit = spec_boundary_or_unit(None);
        if spec_side_fits(a, b) {
            let line = Line {
                origin: a,
                direction: Vector2 { u: (b.u - a.u) as Scalar, v: (b.v - a.v) as Scalar },
            };
            assert(spec_line_through(line, unit, [a, b]));
            if builder is Some {
                lemma_line_through_unique(builder->0@.curve->Line_0, line, unit, [a, b]);
            }
        }
        if builder is Some {
            let line = builder->0@.curve->Line_0;
            let ends = [a, b];
            assert(ends[0] == a && ends[1] == b);
            assert(unit[0].t == 0 && unit[1].t == 1);
            assert(line.direction.u * 0 == 0 && line.direction.v * 0 == 0);
            assert(line.direction.u * 1 == line.direction.u && line.direction.v * 1
                == line.direction.v);
            assert(line.origin == a);
            assert(line.direction.u == b.u - a.u && line.direction.v == b.v - a.v);
        }
    }
    builder
}

/// Builds the line segment from `from` to `to` and inserts it. It starts at
/// a vertex of its own, and traces the global edge that is given, or one of
/// its own.
pub(crate) fn insert_side(
    from: Point2,
    to: Point2,
    edge: Option<Handle<GlobalEdge>>,
    objects: &mut Objects,
) -> (side: (Handle<HalfEdge>, Handle<GlobalEdge>))
    requires
        spec_side_fits(from, to),
        edge matches Some(given) ==> old(objects)@.has_global_edge(given),
    ensures
        side.0 == Handle::<HalfEdge>::spec_from_id(old(objects)@.half_edges.len()),
        side.0.spec_id() == old(objects)@.half_edges.len(),
        side.1 == spec_edge(edge, old(objects)@.global_edges),
        final(objects)@.has_global_edge(side.1),
        final(objects)@ == (ObjectsView {
            vertices: old(objects)@.vertices + 1,
            global_edges: old(objects)@.global_edges + spec_fresh(edge),
            half_edges: old(objects)@.half_edges.push(
                spec_side_with(
                    from,
                    to,
                    Handle::<Vertex>::spec_from_id(old(objects)@.vertices),
                    spec_edge(edge, old(objects)@.global_edges),
                ),
            ),
            ..old(objects)@
        }),
{
    let builder = match line_between(from, to) {
        Some(builder) => builder,
        None => vstd::pervasive::unreached(),
    };
    let builder = match edge {
        Some(given) => builder.with_global_form(given),
        None => builder,
    };
    let half_edge = builder.build(objects);
    let global_form = half_edge.global_form;
    let handle = objects.insert_half_edge(half_edge);
    (handle, global_form)
}

} // verus!
