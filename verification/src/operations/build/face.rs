//! Building faces.

use vstd::prelude::*;
use crate::builder::cycle::{insert_side, spec_edge, spec_fresh, spec_side_with};
use crate::geometry::surface::{spec_step, spec_step_fits};
use crate::math::{Point2, Point3};
use crate::objects::cycle::Cycle;
use crate::objects::edge::{GlobalEdge, HalfEdge};
use crate::objects::face::{Color, Face, FaceView};
use crate::objects::store::{Objects, ObjectsView};
use crate::objects::surface::Surface;
use crate::objects::vertex::Vertex;
use crate::operations::build::surface::{spec_plane, BuildSurface};
use crate::storage::Handle;
use crate::validate::coincidence::{spec_between, spec_doubled_param, spec_sample};
use crate::validate::edges::{spec_cycles_edges, spec_face_edges, EdgeOnSurface};

verus! {

/// A triangular face, with the global edges that its three sides trace.
#[derive(Clone, Copy, Debug, PartialEq, Eq, Hash)]
pub struct Triangle {
    /// The face
    pub face: Handle<Face>,
    /// The global edges of the sides from the first corner to the second,
    /// from the second to the third, and from the third to the first
    pub edges: [Handle<GlobalEdge>; 3],
}

/// Corner `k` of a triangle in the coordinates of its plane: the origin, one
/// step along the first coordinate, one step along the second.
pub open spec fn spec_corner(k: int) -> Point2 {
    if k == 0 {
        Point2 { u: 0, v: 0 }
    } else if k == 1 {
        Point2 { u: 1, v: 0 }
    } else {
        Point2 { u: 0, v: 1 }
    }
}

/// The global edges of the three sides, in a store that holds `global_edges`
/// global edges before the first side is built.
pub open spec fn spec_triangle_edges(
    edges: [Option<Handle<GlobalEdge>>; 3],
    global_edges: nat,
) -> Seq<Handle<GlobalEdge>> {
    seq![
        spec_edge(edges[0], global_edges),
        spec_edge(edges[1], global_edges + spec_fresh(edges[0])),
        spec_edge(edges[2], global_edges + spec_fresh(edges[0]) + spec_fresh(edges[1])),
    ]
}

/// The three sides of a triangle, in a store that holds `vertices` vertices
/// and `global_edges` global edges before the first side is built.
pub open spec fn spec_triangle_sides(
    edges: [Option<Handle<GlobalEdge>>; 3],
    vertices: nat,
    global_edges: nat,
) -> Seq<HalfEdge> {
    Seq::new(
        3,
        |k: int|
            spec_side_with(
                spec_corner(k),
                spec_corner((k + 1) % 3),
                Handle::<Vertex>::spec_from_id((vertices + k) as nat),
                spec_triangle_edges(edges, global_edges)[k],
            ),
    )
}

/// The store after a triangle is built in it: with a plane, three sides, the
/// cycle of the sides and the face, each with the next id of its kind.
pub open spec fn spec_triangle(
    before: ObjectsView,
    points: [Point3; 3],
    edges: [Option<Handle<GlobalEdge>>; 3],
) -> ObjectsView {
    ObjectsView {
        vertices: before.vertices + 3,
        global_edges: before.global_edges + spec_fresh(edges[0]) + spec_fresh(edges[1])
            + spec_fresh(edges[2]),
        half_edges: before.half_edges + spec_triangle_sides(
            edges,
            before.vertices,
            before.global_edges,
        ),
        cycles: before.cycles.push(
            Seq::new(
                3,
                |k: int| Handle::<HalfEdge>::spec_from_id((before.half_edges.len() + k) as nat),
            ),
        ),
        surfaces: before.surfaces.push(spec_plane(points[0], points[1], points[2])),
        faces: before.faces.push(
            FaceView {
                surface: Handle::<Surface>::spec_from_id(before.surfaces.len()),
                exterior: Handle::<Cycle>::spec_from_id(before.cycles.len()),
                interiors: Seq::empty(),
                color: Color::spec_default(),
            },
        ),
        shells: before.shells,
    }
}

/// Whether the plane through the points is on the lattice.
pub open spec fn spec_triangle_fits(points: [Point3; 3]) -> bool {
    spec_step_fits(points[0], points[1]) && spec_step_fits(points[0], points[2])
}

/// The samples of a side of a triangle lie on the straight way from the
/// corner where the side starts to the corner where it ends.
pub proof fn lemma_side_samples(
    points: [Point3; 3],
    edges: [Option<Handle<GlobalEdge>>; 3],
    vertices: nat,
    global_edges: nat,
    side: int,
    sample: int,
)
    requires
        spec_triangle_fits(points),
        0 <= side < 3,
        0 <= sample <= 2,
    ensures
        spec_sample(
            spec_triangle_sides(edges, vertices, global_edges)[side],
            spec_plane(points[0], points[1], points[2]),
            sample,
        ) == spec_between(points[side], points[(side + 1) % 3], sample),
{
    let half_edge = spec_triangle_sides(edges, vertices, global_edges)[side];
    let plane = spec_plane(points[0], points[1], points[2]);
    let from = spec_corner(side);
    let to = spec_corner((side + 1) % 3);
    let line = half_edge.curve->Line_0;
    assert(half_edge.boundary[0].t == 0 && half_edge.boundary[1].t == 1);
    let doubled = spec_doubled_param(half_edge, sample);
    assert(doubled == sample) by (nonlinear_arith)
        requires
            doubled == 2 * 0 + (1 - 0) * sample,
    ;
    assert(line.origin == from);
    assert(line.direction.u == to.u - from.u && line.direction.v == to.v - from.v);
    let on_plane = half_edge.curve.spec_doubled_point(doubled);
    assert(on_plane == (
        2 * from.u + (to.u - from.u) * sample,
        2 * from.v + (to.v - from.v) * sample,
    ));
    let a = points[0];
    let b = points[1];
    let c = points[2];
    let step_u = spec_step(a, b);
    let step_v = spec_step(a, c);
    assert(step_u.x == b.x - a.x && step_u.y == b.y - a.y && step_u.z == b.z - a.z);
    assert(step_v.x == c.x - a.x && step_v.y == c.y - a.y && step_v.z == c.z - a.z);
    let reached = plane.geometry.spec_doubled_point(on_plane.0, on_plane.1);
    let wanted = spec_between(points[side], points[(side + 1) % 3], sample);
    if side == 0 {
        assert(on_plane == (sample, 0int)) by (nonlinear_arith)
            requires
                on_plane == (2 * 0 + (1 - 0) * sample, 2 * 0 + (0 - 0) * sample),
        ;
        assert(reached == wanted) by (nonlinear_arith)
            requires
                reached == (
                    2 * a.x + (b.x - a.x) * sample + (c.x - a.x) * 0,
                    2 * a.y + (b.y - a.y) * sample + (c.y - a.y) * 0,
                    2 * a.z + (b.z - a.z) * sample + (c.z - a.z) * 0,
                ),
                wanted == (
                    (2 - sample) * a.x + sample * b.x,
                    (2 - sample) * a.y + sample * b.y,
                    (2 - sample) * a.z + sample * b.z,
                ),
        ;
    } else if side == 1 {
        assert(on_plane == (2 - sample, sample)) by (nonlinear_arith)
            requires
                on_plane == (2 * 1 + (0 - 1) * sample, 2 * 0 + (1 - 0) * sample),
        ;
        assert(reached == wanted) by (nonlinear_arith)
            requires
                reached == (
                    2 * a.x + (b.x - a.x) * (2 - sample) + (c.x - a.x) * sample,
                    2 * a.y + (b.y - a.y) * (2 - sample) + (c.y - a.y) * sample,
                    2 * a.z + (b.z - a.z) * (2 - sample) + (c.z - a.z) * sample,
                ),
                wanted == (
                    (2 - sample) * b.x + sample * c.x,
                    (2 - sample) * b.y + sample * c.y,
                    (2 - sample) * b.z + sample * c.z,
                ),
        ;
    } else {
        assert(on_plane == (0int, 2 - sample)) by (nonlinear_arith)
            requires
                on_plane == (2 * 0 + (0 - 0) * sample, 2 * 1 + (0 - 1) * sample),
        ;
        assert(reached == wanted) by (nonlinear_arith)
            requires
                reached == (
                    2 * a.x + (b.x - a.x) * 0 + (c.x - a.x) * (2 - sample),
                    2 * a.y + (b.y - a.y) * 0 + (c.y - a.y) * (2 - sample),
                    2 * a.z + (b.z - a.z) * 0 + (c.z - a.z) * (2 - sample),
                ),
                wanted == (
                    (2 - sample) * c.x + sample * a.x,
                    (2 - sample) * c.y + sample * a.y,
                    (2 - sample) * c.z + sample * a.z,
                ),
        ;
    }
}

/// What the store holds of a triangle once it is built: the face, its
/// half-edges with the surface, and the global edges that they trace.
pub proof fn lemma_triangle(
    before: ObjectsView,
    points: [Point3; 3],
    edges: [Option<Handle<GlobalEdge>>; 3],
)
    requires
        before.wf(),
        forall|k: int|
            0 <= k < 3 ==> ((#[trigger] edges[k]) matches Some(given) ==> before.has_global_edge(
                given,
            )),
        before.vertices + 3 <= usize::MAX,
        before.global_edges + spec_fresh(edges[0]) + spec_fresh(edges[1]) + spec_fresh(edges[2])
            <= usize::MAX,
        before.half_edges.len() + 3 <= usize::MAX,
        before.cycles.len() + 1 <= usize::MAX,
        before.surfaces.len() + 1 <= usize::MAX,
        before.faces.len() + 1 <= usize::MAX,
    ensures
        ({
            let after = spec_triangle(before, points, edges);
            let face = Handle::<Face>::spec_from_id(before.faces.len());
            &&& after.wf()
            &&& after.extends(before)
            &&& after.has_face(face)
            &&& face.spec_id() == before.faces.len()
            &&& spec_face_edges(after, face) == Seq::new(
                3,
                |k: int|
                    (
                        Handle::<HalfEdge>::spec_from_id((before.half_edges.len() + k) as nat),
                        Handle::<Surface>::spec_from_id(before.surfaces.len()),
                    ),
            )
            &&& forall|k: int|
                0 <= k < 3 ==> after.half_edge(
                    Handle::<HalfEdge>::spec_from_id((before.half_edges.len() + k) as nat),
                ).global_form == #[trigger] spec_triangle_edges(edges, before.global_edges)[k]
            &&& forall|k: int|
                0 <= k < 3 ==> after.half_edge(
                    Handle::<HalfEdge>::spec_from_id((before.half_edges.len() + k) as nat),
                ) == #[trigger] spec_triangle_sides(edges, before.vertices, before.global_edges)[k]
            &&& after.has_surface(Handle::<Surface>::spec_from_id(before.surfaces.len()))
            &&& after.surface(Handle::<Surface>::spec_from_id(before.surfaces.len()))
                == spec_plane(points[0], points[1], points[2])
            &&& forall|k: int|
                0 <= k < 3 ==> after.has_global_edge(
                    #[trigger] spec_triangle_edges(edges, before.global_edges)[k],
                )
        }),
{
    let after = spec_triangle(before, points, edges);
    let face = Handle::<Face>::spec_from_id(before.faces.len());
    let surface = Handle::<Surface>::spec_from_id(before.surfaces.len());
    let cycle = Handle::<Cycle>::spec_from_id(before.cycles.len());
    let sides = spec_triangle_sides(edges, before.vertices, before.global_edges);
    let traced = spec_triangle_edges(edges, before.global_edges);
    Handle::<Face>::lemma_from_id(before.faces.len());
    Handle::<Surface>::lemma_from_id(before.surfaces.len());
    Handle::<Cycle>::lemma_from_id(before.cycles.len());
    if edges[0] is None {
        Handle::<GlobalEdge>::lemma_from_id(before.global_edges);
    }
    if edges[1] is None {
        Handle::<GlobalEdge>::lemma_from_id(before.global_edges + spec_fresh(edges[0]));
    }
    if edges[2] is None {
        Handle::<GlobalEdge>::lemma_from_id(
            before.global_edges + spec_fresh(edges[0]) + spec_fresh(edges[1]),
        );
    }
    Handle::<HalfEdge>::lemma_from_id(before.half_edges.len());
    Handle::<HalfEdge>::lemma_from_id(before.half_edges.len() + 1);
    Handle::<HalfEdge>::lemma_from_id(before.half_edges.len() + 2);
    Handle::<Vertex>::lemma_from_id(before.vertices);
    Handle::<Vertex>::lemma_from_id(before.vertices + 1);
    Handle::<Vertex>::lemma_from_id(before.vertices + 2);
    assert(edges[0] matches Some(given) ==> before.has_global_edge(given));
    assert(edges[1] matches Some(given) ==> before.has_global_edge(given));
    assert(edges[2] matches Some(given) ==> before.has_global_edge(given));
    assert forall|k: int| 0 <= k < 3 implies after.has_global_edge(#[trigger] traced[k]) by {}
    assert forall|k: int| 0 <= k < 3 implies after.half_edge(
        Handle::<HalfEdge>::spec_from_id((before.half_edges.len() + k) as nat),
    ).global_form == #[trigger] traced[k] by {
        assert(after.half_edges[before.half_edges.len() + k] == sides[k]);
    }
    assert forall|k: int| 0 <= k < 3 implies after.half_edge(
        Handle::<HalfEdge>::spec_from_id((before.half_edges.len() + k) as nat),
    ) == #[trigger] sides[k] by {
        assert(after.half_edges[before.half_edges.len() + k] == sides[k]);
    }
    assert(after.extends(before));
    assert(after.wf()) by {
        assert forall|i: int|
            before.half_edges.len() <= i < after.half_edges.len() implies after.holds_half_edge(
            #[trigger] after.half_edges[i],
        ) by {
            let k = i - before.half_edges.len();
            assert(after.half_edges[i] == sides[k]);
            assert(after.has_global_edge(traced[k]));
        }
        assert forall|i: int|
            before.cycles.len() <= i < after.cycles.len() implies after.holds_cycle(
            #[trigger] after.cycles[i],
        ) by {}
        assert forall|i: int|
            before.faces.len() <= i < after.faces.len() implies after.holds_face(
            #[trigger] after.faces[i],
        ) by {}
        crate::objects::store::lemma_more_is_held(before, after);
    }
    let held = after.face(face);
    assert(held.all_cycles() =~= seq![cycle]);
    assert(seq![cycle].drop_last() =~= Seq::<Handle<Cycle>>::empty());
    assert(spec_cycles_edges(after, Seq::<Handle<Cycle>>::empty(), surface) =~= Seq::<
        EdgeOnSurface,
    >::empty());
    assert(spec_face_edges(after, face) =~= Seq::new(
        3,
        |k: int|
            (Handle::<HalfEdge>::spec_from_id((before.half_edges.len() + k) as nat), surface),
    ));
}

/// Building faces.
pub trait BuildFace {
    /// Builds the triangle with these corners, on the plane through them,
    /// and inserts it: the plane, the three sides, their cycle and the face.
    ///
    /// Each side gets a vertex of its own to start at. It traces the global
    /// edge that is given for it, or one of its own. There is no triangle
    /// where the plane through the corners is not on the lattice; nothing is
    /// inserted then.
    fn triangle(
        points: [Point3; 3],
        edges: [Option<Handle<GlobalEdge>>; 3],
        objects: &mut Objects,
    ) -> (triangle: Option<Triangle>)
        requires
            forall|k: int|
                0 <= k < 3 ==> ((#[trigger] edges[k]) matches Some(given) ==> old(
                    objects,
                )@.has_global_edge(given)),
        ensures
            triangle is Some <==> spec_triangle_fits(points),
            triangle is None ==> final(objects)@ == old(objects)@,
            triangle matches Some(built) ==> {
                &&& final(objects)@ == spec_triangle(old(objects)@, points, edges)
                &&& built.face == Handle::<Face>::spec_from_id(old(objects)@.faces.len())
                &&& built.face.spec_id() == old(objects)@.faces.len()
                &&& built.edges@ == spec_triangle_edges(edges, old(objects)@.global_edges)
                &&& forall|k: int|
                    0 <= k < 3 ==> final(objects)@.has_global_edge(#[trigger] built.edges[k])
            },
    {
        let ghost before = objects@;
        let surface = match <Surface as BuildSurface>::plane_from_points(points) {
            Some(surface) => surface,
            None => {
                return None;
            },
        };
        let surface = objects.insert_surface(surface);
        let a = Point2 { u: 0, v: 0 };
        let b = Point2 { u: 1, v: 0 };
        let c = Point2 { u: 0, v: 1 };
        assert(edges[0] matches Some(given) ==> before.has_global_edge(given));
        assert(edges[1] matches Some(given) ==> before.has_global_edge(given));
        assert(edges[2] matches Some(given) ==> before.has_global_edge(given));
        let (ab, first) = insert_side(a, b, edges[0], objects);
        let (bc, second) = insert_side(b, c, edges[1], objects);
        let (ca, third) = insert_side(c, a, edges[2], objects);
        let mut half_edges: Vec<Handle<HalfEdge>> = Vec::new();
        half_edges.push(ab);
        half_edges.push(bc);
        half_edges.push(ca);
        let cycle = objects.insert_cycle(Cycle::new(half_edges));
        let face = objects.insert_face(Face::new(surface, cycle, Vec::new(), Color::default()));
        proof {
            let after = spec_triangle(before, points, edges);
            assert(objects@.half_edges =~= after.half_edges);
            assert(objects@.cycles.last() =~= after.cycles.last());
            assert(objects@.cycles =~= after.cycles);
            assert(objects@.faces.last().interiors =~= after.faces.last().interiors);
            assert(objects@.faces =~= after.faces);
            assert(objects@.surfaces =~= after.surfaces);
        }
        let built_edges = [first, second, third];
        assert(built_edges@ =~= spec_triangle_edges(edges, before.global_edges));
        assert(built_edges[0] == first && built_edges[1] == second && built_edges[2] == third);
        Some(Triangle { face, edges: built_edges })
    }
}

impl BuildFace for Face {

}

} // verus!
