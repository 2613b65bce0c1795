//! Building shells.

use vstd::prelude::*;
use crate::geometry::surface::step;
use crate::math::Point3;
use crate::objects::edge::{GlobalEdge, HalfEdge};
use crate::objects::face::Face;
use crate::objects::surface::Surface;
use crate::objects::shell::{lemma_set_order_unique, spec_ascending, spec_is_set, Shell};
use crate::objects::store::{Objects, ObjectsView};
use crate::operations::build::face::{
    lemma_side_samples, lemma_triangle, spec_triangle, spec_triangle_edges, spec_triangle_fits,
    spec_triangle_sides, BuildFace,
};
use crate::operations::build::surface::spec_plane;
use crate::builder::cycle::spec_fresh;
use crate::storage::Handle;
use crate::validate::coincidence::{
    lemma_coincidence_errors, lemma_straight_pair, spec_coincidence_errors, spec_is_pair_error,
    spec_pair_error, spec_runs_between,
};
use crate::validate::edges::{
    lemma_shell_edges_kept, lemma_shell_edges_push, spec_edges_have_middles, spec_face_edges,
    spec_shell_edges, EdgeOnSurface,
};
use crate::validate::shell::{spec_shell_errors, ShellValidationError};
use crate::validate::watertight::{
    lemma_not_watertight_without_face, lemma_references_count, spec_count, spec_references,
    spec_watertight,
};
use crate::validate::{ValidationConfig, ValidationError};

verus! {

/// A tetrahedron: the shell and its four faces.
#[derive(Clone, Debug, PartialEq, Eq, Hash)]
pub struct Tetrahedron {
    /// The shell
    pub shell: Shell,
    /// The face through the first, the second and the third point
    pub face_abc: Handle<Face>,
    /// The face through the second, the first and the fourth point
    pub face_bad: Handle<Face>,
    /// The face through the fourth, the first and the third point
    pub face_dac: Handle<Face>,
    /// The face through the third, the second and the fourth point
    pub face_cbd: Handle<Face>,
}

/// Whether the planes of all four faces are on the lattice.
pub open spec fn spec_tetrahedron_fits(points: [Point3; 4]) -> bool {
    let a = points[0];
    let b = points[1];
    let c = points[2];
    let d = points[3];
    &&& spec_triangle_fits([a, b, c])
    &&& spec_triangle_fits([b, a, d])
    &&& spec_triangle_fits([d, a, c])
    &&& spec_triangle_fits([c, b, d])
}

/// The global edge with this id, given for a side.
pub open spec fn spec_given(id: nat) -> Option<Handle<GlobalEdge>> {
    Some(Handle::<GlobalEdge>::spec_from_id(id))
}

/// The store after the first, the first two, the first three or all four
/// faces of a tetrahedron are built in it.
///
/// Every edge of the tetrahedron is a side of two faces. The face that is
/// built first makes the global edge, the other is given it.
pub open spec fn spec_tetrahedron_upto(
    before: ObjectsView,
    points: [Point3; 4],
    faces: int,
) -> ObjectsView
    decreases faces,
{
    let a = points[0];
    let b = points[1];
    let c = points[2];
    let d = points[3];
    let g = before.global_edges;
    if faces <= 0 {
        before
    } else {
        let so_far = spec_tetrahedron_upto(before, points, faces - 1);
        if faces == 1 {
            spec_triangle(so_far, [a, b, c], [None, None, None])
        } else if faces == 2 {
            spec_triangle(so_far, [b, a, d], [spec_given(g), None, None])
        } else if faces == 3 {
            spec_triangle(
                so_far,
                [d, a, c],
                [spec_given((g + 3) as nat), spec_given((g + 2) as nat), None],
            )
        } else {
            spec_triangle(
                so_far,
                [c, b, d],
                [
                    spec_given((g + 1) as nat),
                    spec_given((g + 4) as nat),
                    spec_given((g + 5) as nat),
                ],
            )
        }
    }
}

/// The store after a tetrahedron is built in it.
pub open spec fn spec_tetrahedron(before: ObjectsView, points: [Point3; 4]) -> ObjectsView {
    spec_tetrahedron_upto(before, points, 4)
}

/// The four faces of a tetrahedron that is built in a store that holds
/// `faces` faces.
pub open spec fn spec_tetrahedron_faces(faces: nat) -> Seq<Handle<Face>> {
    Seq::new(4, |k: int| Handle::<Face>::spec_from_id((faces + k) as nat))
}

/// The ids of the global edges that the twelve half-edges of a tetrahedron
/// trace, face by face, where `g` is the id of the first.
pub open spec fn spec_tetrahedron_ids(g: nat) -> Seq<nat> {
    seq![
        g,
        (g + 1) as nat,
        (g + 2) as nat,
        g,
        (g + 3) as nat,
        (g + 4) as nat,
        (g + 3) as nat,
        (g + 2) as nat,
        (g + 5) as nat,
        (g + 1) as nat,
        (g + 4) as nat,
        (g + 5) as nat,
    ]
}

/// The corners at which the twelve half-edges of a tetrahedron start, face
/// by face.
pub open spec fn spec_tetrahedron_starts(points: [Point3; 4]) -> Seq<Point3> {
    let a = points[0];
    let b = points[1];
    let c = points[2];
    let d = points[3];
    seq![a, b, c, b, a, d, d, a, c, c, b, d]
}

/// The corners at which the twelve half-edges of a tetrahedron end, face by
/// face.
pub open spec fn spec_tetrahedron_ends(points: [Point3; 4]) -> Seq<Point3> {
    let a = points[0];
    let b = points[1];
    let c = points[2];
    let d = points[3];
    seq![b, c, a, a, d, b, a, c, d, b, d, c]
}

/// Whether no two of the four corners are the same point.
pub open spec fn spec_distinct(points: [Point3; 4]) -> bool {
    &&& points[0] != points[1]
    &&& points[0] != points[2]
    &&& points[0] != points[3]
    &&& points[1] != points[2]
    &&& points[1] != points[3]
    &&& points[2] != points[3]
}

/// Two half-edges of a tetrahedron trace the same global edge exactly if
/// they run between the same two corners.
proof fn lemma_same_edge_same_corners(points: [Point3; 4], g: nat, i: int, j: int)
    requires
        spec_distinct(points),
        0 <= i < 12,
        0 <= j < 12,
    ensures
        spec_tetrahedron_ids(g)[i] == spec_tetrahedron_ids(g)[j] <==> (spec_tetrahedron_starts(
            points,
        )[i] == spec_tetrahedron_starts(points)[j] && spec_tetrahedron_ends(points)[i]
            == spec_tetrahedron_ends(points)[j]) || (spec_tetrahedron_starts(points)[i]
            == spec_tetrahedron_ends(points)[j] && spec_tetrahedron_ends(points)[i]
            == spec_tetrahedron_starts(points)[j]),
{
    let ids = spec_tetrahedron_ids(g);
    let starts = spec_tetrahedron_starts(points);
    let ends = spec_tetrahedron_ends(points);
    let a = points[0];
    let b = points[1];
    let c = points[2];
    let d = points[3];
    assert(ids[0] == g && ids[1] == g + 1 && ids[2] == g + 2 && ids[3] == g);
    assert(ids[4] == g + 3 && ids[5] == g + 4 && ids[6] == g + 3 && ids[7] == g + 2);
    assert(ids[8] == g + 5 && ids[9] == g + 1 && ids[10] == g + 4 && ids[11] == g + 5);
    assert(starts[0] == a && starts[1] == b && starts[2] == c && starts[3] == b);
    assert(starts[4] == a && starts[5] == d && starts[6] == d && starts[7] == a);
    assert(starts[8] == c && starts[9] == c && starts[10] == b && starts[11] == d);
    assert(ends[0] == b && ends[1] == c && ends[2] == a && ends[3] == a);
    assert(ends[4] == d && ends[5] == b && ends[6] == a && ends[7] == c);
    assert(ends[8] == d && ends[9] == b && ends[10] == d && ends[11] == c);
}

/// Among the global edges that the half-edges of a tetrahedron trace, each
/// is there twice.
proof fn lemma_each_twice(g: nat, id: nat)
    ensures
        spec_count(spec_tetrahedron_ids(g), id, 12) == 0 || spec_count(
            spec_tetrahedron_ids(g),
            id,
            12,
        ) == 2,
{
    let ids = spec_tetrahedron_ids(g);
    reveal_with_fuel(spec_count, 13);
    assert(ids[0] == g && ids[1] == g + 1 && ids[2] == g + 2 && ids[3] == g);
    assert(ids[4] == g + 3 && ids[5] == g + 4 && ids[6] == g + 3 && ids[7] == g + 2);
    assert(ids[8] == g + 5 && ids[9] == g + 1 && ids[10] == g + 4 && ids[11] == g + 5);
}

/// What a store holds after more was added to a store that was added to.
pub proof fn lemma_extends_twice(first: ObjectsView, second: ObjectsView, third: ObjectsView)
    requires
        second.extends(first),
        third.extends(second),
    ensures
        third.extends(first),
{
}

/// What the store holds of one face of a tetrahedron when all of it is
/// built: the half-edges of the face, and the global edges that they trace.
proof fn lemma_face_of_tetrahedron(
    so_far: ObjectsView,
    with_face: ObjectsView,
    whole: ObjectsView,
    points: [Point3; 3],
    edges: [Option<Handle<GlobalEdge>>; 3],
)
    requires
        so_far.wf(),
        edges[0] matches Some(given) ==> so_far.has_global_edge(given),
        edges[1] matches Some(given) ==> so_far.has_global_edge(given),
        edges[2] matches Some(given) ==> so_far.has_global_edge(given),
        so_far.vertices + 3 <= usize::MAX,
        so_far.global_edges + spec_fresh(edges[0]) + spec_fresh(edges[1]) + spec_fresh(edges[2])
            <= usize::MAX,
        so_far.half_edges.len() + 3 <= usize::MAX,
        so_far.cycles.len() + 1 <= usize::MAX,
        so_far.surfaces.len() + 1 <= usize::MAX,
        so_far.faces.len() + 1 <= usize::MAX,
        with_face == spec_triangle(so_far, points, edges),
        whole.extends(with_face),
        spec_triangle_fits(points),
    ensures
        forall|k: int|
            0 <= k < 3 ==> spec_runs_between(
                whole,
                #[trigger] spec_face_edges(
                    whole,
                    Handle::<Face>::spec_from_id(so_far.faces.len()),
                )[k],
                points[k],
                points[(k + 1) % 3],
            ) && whole.half_edge(
                spec_face_edges(whole, Handle::<Face>::spec_from_id(so_far.faces.len()))[k].0,
            ).curve is Line,
        with_face.wf(),
        with_face.extends(so_far),
        whole.has_face(Handle::<Face>::spec_from_id(so_far.faces.len())),
        Handle::<Face>::spec_from_id(so_far.faces.len()).spec_id() == so_far.faces.len(),
        spec_face_edges(whole, Handle::<Face>::spec_from_id(so_far.faces.len())).len() == 3,
        forall|k: int|
            0 <= k < 3 ==> whole.half_edge(
                (#[trigger] spec_face_edges(
                    whole,
                    Handle::<Face>::spec_from_id(so_far.faces.len()),
                )[k]).0,
            ).global_form == spec_triangle_edges(edges, so_far.global_edges)[k],
{
    let face = Handle::<Face>::spec_from_id(so_far.faces.len());
    lemma_triangle(so_far, points, edges);
    let alone = seq![face];
    let none = Seq::<Handle<Face>>::empty();
    assert(alone =~= none.push(face));
    lemma_shell_edges_push(with_face, none, face);
    lemma_shell_edges_push(whole, none, face);
    assert(with_face.holds_shell(alone));
    lemma_shell_edges_kept(with_face, whole, alone);
    assert(spec_shell_edges(with_face, none) =~= Seq::<EdgeOnSurface>::empty());
    assert(spec_shell_edges(whole, none) =~= Seq::<EdgeOnSurface>::empty());
    assert(spec_face_edges(whole, face) =~= spec_face_edges(with_face, face));
    assert forall|k: int| 0 <= k < 3 implies whole.half_edge(
        (#[trigger] spec_face_edges(whole, face)[k]).0,
    ).global_form == spec_triangle_edges(edges, so_far.global_edges)[k] by {
        let handle = Handle::<HalfEdge>::spec_from_id((so_far.half_edges.len() + k) as nat);
        Handle::<HalfEdge>::lemma_from_id((so_far.half_edges.len() + k) as nat);
        assert(spec_face_edges(whole, face)[k].0 == handle);
        assert(whole.half_edges[handle.spec_id() as int]
            == with_face.half_edges[handle.spec_id() as int]);
        assert(with_face.half_edge(handle).global_form == spec_triangle_edges(
            edges,
            so_far.global_edges,
        )[k]);
    }
    assert forall|k: int| 0 <= k < 3 implies spec_runs_between(
        whole,
        #[trigger] spec_face_edges(whole, face)[k],
        points[k],
        points[(k + 1) % 3],
    ) && whole.half_edge(spec_face_edges(whole, face)[k].0).curve is Line by {
        let handle = Handle::<HalfEdge>::spec_from_id((so_far.half_edges.len() + k) as nat);
        let surface = Handle::<Surface>::spec_from_id(so_far.surfaces.len());
        Handle::<HalfEdge>::lemma_from_id((so_far.half_edges.len() + k) as nat);
        Handle::<Surface>::lemma_from_id(so_far.surfaces.len());
        assert(spec_face_edges(whole, face)[k] == (handle, surface));
        assert(whole.half_edges[handle.spec_id() as int]
            == with_face.half_edges[handle.spec_id() as int]);
        assert(whole.surfaces[surface.spec_id() as int]
            == with_face.surfaces[surface.spec_id() as int]);
        assert(with_face.half_edge(handle) == spec_triangle_sides(
            edges,
            so_far.vertices,
            so_far.global_edges,
        )[k]);
        assert(with_face.surface(surface) == spec_plane(points[0], points[1], points[2]));
        lemma_side_samples(points, edges, so_far.vertices, so_far.global_edges, k, 0);
        lemma_side_samples(points, edges, so_far.vertices, so_far.global_edges, k, 1);
        lemma_side_samples(points, edges, so_far.vertices, so_far.global_edges, k, 2);
    }
}

/// Whether the store has room for a tetrahedron: the ids of the objects
/// that are made for it fit a machine word.
pub open spec fn spec_room_for_tetrahedron(before: ObjectsView) -> bool {
    &&& before.vertices + 12 <= usize::MAX
    &&& before.global_edges + 6 <= usize::MAX
    &&& before.half_edges.len() + 12 <= usize::MAX
    &&& before.cycles.len() + 4 <= usize::MAX
    &&& before.surfaces.len() + 4 <= usize::MAX
    &&& before.faces.len() + 4 <= usize::MAX
}

/// What the store holds of a tetrahedron once it is built: its four faces
/// and their twelve half-edges, each with the global edge that it traces and
/// the corners that it runs between.
pub proof fn lemma_tetrahedron_edges(before: ObjectsView, points: [Point3; 4])
    requires
        before.wf(),
        spec_tetrahedron_fits(points),
        spec_room_for_tetrahedron(before),
    ensures
        ({
            let after = spec_tetrahedron(before, points);
            let faces = spec_tetrahedron_faces(before.faces.len());
            let edges = spec_shell_edges(after, faces);
            &&& after.wf()
            &&& after.extends(before)
            &&& after.holds_shell(faces)
            &&& spec_is_set(faces)
            &&& after.vertices == before.vertices + 12
            &&& after.global_edges == before.global_edges + 6
            &&& after.half_edges.len() == before.half_edges.len() + 12
            &&& after.cycles.len() == before.cycles.len() + 4
            &&& after.surfaces.len() == before.surfaces.len() + 4
            &&& after.faces.len() == before.faces.len() + 4
            &&& after.shells == before.shells
            &&& edges.len() == 12
            &&& forall|k: int|
                0 <= k < 4 ==> #[trigger] spec_face_edges(after, faces[k]) == edges.subrange(
                    3 * k,
                    3 * k + 3,
                )
            &&& forall|i: int|
                0 <= i < 12 ==> after.half_edge((#[trigger] edges[i]).0).global_form.spec_id()
                    == spec_tetrahedron_ids(before.global_edges)[i]
            &&& forall|i: int|
                0 <= i < 12 ==> spec_runs_between(
                    after,
                    #[trigger] edges[i],
                    spec_tetrahedron_starts(points)[i],
                    spec_tetrahedron_ends(points)[i],
                )
            &&& spec_edges_have_middles(after, edges)
        }),
{
    let a = points[0];
    let b = points[1];
    let c = points[2];
    let d = points[3];
    let g = before.global_edges;
    let from = before.faces.len();
    reveal_with_fuel(spec_tetrahedron_upto, 5);
    let first_edges: [Option<Handle<GlobalEdge>>; 3] = [None, None, None];
    let second_edges = [spec_given(g), None, None];
    let third_edges = [spec_given((g + 3) as nat), spec_given((g + 2) as nat), None];
    let fourth_edges = [
        spec_given((g + 1) as nat),
        spec_given((g + 4) as nat),
        spec_given((g + 5) as nat),
    ];
    let abc = [a, b, c];
    let bad = [b, a, d];
    let dac = [d, a, c];
    let cbd = [c, b, d];
    let first = spec_triangle(before, abc, first_edges);
    let second = spec_triangle(first, bad, second_edges);
    let third = spec_triangle(second, dac, third_edges);
    let whole = spec_triangle(third, cbd, fourth_edges);
    assert(whole == spec_tetrahedron(before, points));
    assert(first_edges[0] is None && first_edges[1] is None && first_edges[2] is None);
    assert(second_edges[0] == spec_given(g) && second_edges[1] is None && second_edges[2] is None);
    assert(third_edges[0] == spec_given((g + 3) as nat) && third_edges[1] == spec_given(
        (g + 2) as nat,
    ) && third_edges[2] is None);
    assert(fourth_edges[0] == spec_given((g + 1) as nat) && fourth_edges[1] == spec_given(
        (g + 4) as nat,
    ) && fourth_edges[2] == spec_given((g + 5) as nat));
    assert(abc[0] == a && abc[1] == b && abc[2] == c);
    assert(bad[0] == b && bad[1] == a && bad[2] == d);
    assert(dac[0] == d && dac[1] == a && dac[2] == c);
    assert(cbd[0] == c && cbd[1] == b && cbd[2] == d);
    Handle::<GlobalEdge>::lemma_from_id(g);
    Handle::<GlobalEdge>::lemma_from_id(g + 1);
    Handle::<GlobalEdge>::lemma_from_id(g + 2);
    Handle::<GlobalEdge>::lemma_from_id(g + 3);
    Handle::<GlobalEdge>::lemma_from_id(g + 4);
    Handle::<GlobalEdge>::lemma_from_id(g + 5);
    assert(first.global_edges == g + 3);
    assert(second.global_edges == g + 5);
    assert(third.global_edges == g + 6);
    assert(whole.global_edges == g + 6);
    assert(whole.extends(third));
    assert(third.extends(second));
    assert(second.extends(first));
    lemma_extends_twice(second, third, whole);
    lemma_extends_twice(first, second, whole);
    lemma_face_of_tetrahedron(before, first, whole, abc, first_edges);
    lemma_face_of_tetrahedron(first, second, whole, bad, second_edges);
    lemma_face_of_tetrahedron(second, third, whole, dac, third_edges);
    lemma_face_of_tetrahedron(third, whole, whole, cbd, fourth_edges);
    lemma_extends_twice(before, first, whole);
    let faces = spec_tetrahedron_faces(from);
    let edges = spec_shell_edges(whole, faces);
    let of_first = spec_face_edges(whole, faces[0]);
    let of_second = spec_face_edges(whole, faces[1]);
    let of_third = spec_face_edges(whole, faces[2]);
    let of_fourth = spec_face_edges(whole, faces[3]);
    lemma_four_faces(whole, faces);
    assert(of_first =~= edges.subrange(0, 3));
    assert(of_second =~= edges.subrange(3, 6));
    assert(of_third =~= edges.subrange(6, 9));
    assert(of_fourth =~= edges.subrange(9, 12));
    let ids = spec_tetrahedron_ids(g);
    let starts = spec_tetrahedron_starts(points);
    let ends = spec_tetrahedron_ends(points);
    assert forall|i: int| 0 <= i < 12 implies whole.half_edge(
        (#[trigger] edges[i]).0,
    ).global_form.spec_id() == ids[i] && spec_runs_between(whole, edges[i], starts[i], ends[i])
        && whole.half_edge(edges[i].0).curve is Line by {
        if i < 3 {
            assert(edges[i] == of_first[i]);
            assert(starts[i] == abc[i] && ends[i] == abc[(i + 1) % 3]);
        } else if i < 6 {
            assert(edges[i] == of_second[i - 3]);
            assert(starts[i] == bad[i - 3] && ends[i] == bad[(i - 3 + 1) % 3]);
        } else if i < 9 {
            assert(edges[i] == of_third[i - 6]);
            assert(starts[i] == dac[i - 6] && ends[i] == dac[(i - 6 + 1) % 3]);
        } else {
            assert(edges[i] == of_fourth[i - 9]);
            assert(starts[i] == cbd[i - 9] && ends[i] == cbd[(i - 9 + 1) % 3]);
        }
    }
    assert forall|i: int, j: int| 0 <= i < j < faces.len() implies #[trigger] spec_ascending(
        faces,
        i,
        j,
    ) by {
        Handle::<Face>::lemma_from_id((from + i) as nat);
        Handle::<Face>::lemma_from_id((from + j) as nat);
    }
    assert forall|i: int| 0 <= i < faces.len() implies whole.has_face(#[trigger] faces[i]) by {
        Handle::<Face>::lemma_from_id((from + i) as nat);
    }
}

/// The half-edges of four faces are the half-edges of the first, then of the
/// second, then of the third, then of the fourth.
proof fn lemma_four_faces(objects: ObjectsView, faces: Seq<Handle<Face>>)
    requires
        faces.len() == 4,
    ensures
        spec_shell_edges(objects, faces) == spec_face_edges(objects, faces[0]) + spec_face_edges(
            objects,
            faces[1],
        ) + spec_face_edges(objects, faces[2]) + spec_face_edges(objects, faces[3]),
{
    let none = Seq::<Handle<Face>>::empty();
    assert(faces =~= none.push(faces[0]).push(faces[1]).push(faces[2]).push(faces[3]));
    lemma_shell_edges_push(objects, none, faces[0]);
    lemma_shell_edges_push(objects, none.push(faces[0]), faces[1]);
    lemma_shell_edges_push(objects, none.push(faces[0]).push(faces[1]), faces[2]);
    lemma_shell_edges_push(objects, none.push(faces[0]).push(faces[1]).push(faces[2]), faces[3]);
    assert(spec_shell_edges(objects, none) =~= Seq::<EdgeOnSurface>::empty());
    assert(Seq::<EdgeOnSurface>::empty() + spec_face_edges(objects, faces[0])
        =~= spec_face_edges(objects, faces[0]));
}

/// The half-edges of a tetrahedron whose corners are four different points
/// agree on what is the same edge: no pair of them gives an error under the
/// default distances.
pub proof fn lemma_tetrahedron_pairs(before: ObjectsView, points: [Point3; 4], i: int, j: int)
    requires
        before.wf(),
        spec_tetrahedron_fits(points),
        spec_room_for_tetrahedron(before),
        spec_distinct(points),
        0 <= i < 12,
        0 <= j < 12,
    ensures
        ({
            let after = spec_tetrahedron(before, points);
            let edges = spec_shell_edges(after, spec_tetrahedron_faces(before.faces.len()));
            spec_pair_error(after, ValidationConfig::spec_default(), edges[i], edges[j]) is None
        }),
{
    let whole = spec_tetrahedron(before, points);
    let edges = spec_shell_edges(whole, spec_tetrahedron_faces(before.faces.len()));
    let starts = spec_tetrahedron_starts(points);
    let ends = spec_tetrahedron_ends(points);
    lemma_tetrahedron_edges(before, points);
    lemma_same_edge_same_corners(points, before.global_edges, i, j);
    Handle::<GlobalEdge>::lemma_handle_is_id(
        whole.half_edge(edges[i].0).global_form,
        whole.half_edge(edges[j].0).global_form,
    );
    assert(spec_runs_between(whole, edges[i], starts[i], ends[i]));
    assert(spec_runs_between(whole, edges[j], starts[j], ends[j]));
    lemma_straight_pair(whole, edges[i], edges[j], starts[i], ends[i], starts[j], ends[j]);
}

/// A tetrahedron is watertight.
pub proof fn lemma_tetrahedron_watertight(before: ObjectsView, points: [Point3; 4])
    requires
        before.wf(),
        spec_tetrahedron_fits(points),
        spec_room_for_tetrahedron(before),
    ensures
        spec_watertight(
            spec_tetrahedron(before, points),
            spec_shell_edges(
                spec_tetrahedron(before, points),
                spec_tetrahedron_faces(before.faces.len()),
            ),
        ),
{
    let whole = spec_tetrahedron(before, points);
    let edges = spec_shell_edges(whole, spec_tetrahedron_faces(before.faces.len()));
    let ids = spec_tetrahedron_ids(before.global_edges);
    lemma_tetrahedron_edges(before, points);
    assert forall|id: nat| #[trigger]
        spec_references(whole, edges, id) != 0 implies spec_references(whole, edges, id) == 2 by {
        lemma_references_count(whole, edges, ids, id, 12);
        assert(edges.subrange(0, 12) =~= edges);
        lemma_each_twice(before.global_edges, id);
    }
}

/// Validation by the default distances finds no error in a tetrahedron whose
/// corners are four different points.
pub proof fn lemma_tetrahedron_is_valid(before: ObjectsView, points: [Point3; 4])
    requires
        before.wf(),
        spec_tetrahedron_fits(points),
        spec_room_for_tetrahedron(before),
        spec_distinct(points),
    ensures
        spec_shell_errors(
            spec_tetrahedron(before, points),
            ValidationConfig::spec_default(),
            spec_tetrahedron_faces(before.faces.len()),
        ) == Seq::<ValidationError>::empty(),
{
    let whole = spec_tetrahedron(before, points);
    let config = ValidationConfig::spec_default();
    let edges = spec_shell_edges(whole, spec_tetrahedron_faces(before.faces.len()));
    lemma_tetrahedron_edges(before, points);
    lemma_tetrahedron_watertight(before, points);
    let found = spec_coincidence_errors(whole, config, edges, 12);
    if found.len() > 0 {
        assert(found.contains(found[0]));
        lemma_coincidence_errors(whole, config, edges, 12, found[0]);
        let (i, j) = choose|i: int, j: int|
            0 <= i < 12 && i <= j < edges.len() && #[trigger] spec_is_pair_error(
                whole,
                config,
                edges,
                i,
                j,
                found[0],
            );
        lemma_tetrahedron_pairs(before, points, i, j);
    }
    assert(found =~= Seq::<ValidationError>::empty());
}

/// The half-edges of three faces are the half-edges of the first, then of
/// the second, then of the third.
proof fn lemma_three_faces(
    objects: ObjectsView,
    first: Handle<Face>,
    second: Handle<Face>,
    third: Handle<Face>,
)
    ensures
        spec_shell_edges(objects, seq![first, second, third]) == spec_face_edges(objects, first)
            + spec_face_edges(objects, second) + spec_face_edges(objects, third),
{
    let none = Seq::<Handle<Face>>::empty();
    assert(seq![first, second, third] =~= none.push(first).push(second).push(third));
    lemma_shell_edges_push(objects, none, first);
    lemma_shell_edges_push(objects, none.push(first), second);
    lemma_shell_edges_push(objects, none.push(first).push(second), third);
    assert(spec_shell_edges(objects, none) =~= Seq::<EdgeOnSurface>::empty());
    assert(Seq::<EdgeOnSurface>::empty() + spec_face_edges(objects, first) =~= spec_face_edges(
        objects,
        first,
    ));
}

/// A tetrahedron without one of its faces is not watertight, and that is all
/// that validation by the default distances finds wrong with it, if its
/// corners are four different points.
pub proof fn lemma_tetrahedron_without_face(
    before: ObjectsView,
    points: [Point3; 4],
    place: int,
)
    requires
        before.wf(),
        spec_tetrahedron_fits(points),
        spec_room_for_tetrahedron(before),
        spec_distinct(points),
        0 <= place < 4,
    ensures
        spec_shell_errors(
            spec_tetrahedron(before, points),
            ValidationConfig::spec_default(),
            spec_tetrahedron_faces(before.faces.len()).remove(place),
        ) == seq![ValidationError::Shell(ShellValidationError::NotWatertight)],
{
    let whole = spec_tetrahedron(before, points);
    let config = ValidationConfig::spec_default();
    let faces = spec_tetrahedron_faces(before.faces.len());
    let left = faces.remove(place);
    let kept = spec_shell_edges(whole, left);
    lemma_tetrahedron_edges(before, points);
    lemma_tetrahedron_watertight(before, points);
    lemma_kept_edges(whole, faces, place);
    let edges = spec_shell_edges(whole, faces);
    let found = spec_coincidence_errors(whole, config, kept, 9);
    if found.len() > 0 {
        assert(found.contains(found[0]));
        lemma_coincidence_errors(whole, config, kept, 9, found[0]);
        let (i, j) = choose|i: int, j: int|
            0 <= i < 9 && i <= j < kept.len() && #[trigger] spec_is_pair_error(
                whole,
                config,
                kept,
                i,
                j,
                found[0],
            );
        let from_i = spec_place_before(place, i);
        let from_j = spec_place_before(place, j);
        assert(kept[i] == edges[from_i] && kept[j] == edges[from_j]);
        lemma_tetrahedron_pairs(before, points, from_i, from_j);
    }
    assert(found =~= Seq::<ValidationError>::empty());
    lemma_traced_once(whole, faces, before.global_edges, place);
    lemma_not_watertight_without_face(
        whole,
        faces,
        place,
        spec_tetrahedron_ids(before.global_edges)[3 * place],
    );
    assert(Seq::<ValidationError>::empty().push(
        ValidationError::Shell(ShellValidationError::NotWatertight),
    ) =~= seq![ValidationError::Shell(ShellValidationError::NotWatertight)]);
}

/// The place that half-edge `i` of a tetrahedron without the face at `place`
/// had when the face was there.
pub open spec fn spec_place_before(place: int, i: int) -> int {
    if i < 3 * place {
        i
    } else {
        i + 3
    }
}

/// The half-edges of four faces without one of them are the half-edges of
/// the four, without the three of that face.
proof fn lemma_kept_edges(objects: ObjectsView, faces: Seq<Handle<Face>>, place: int)
    requires
        faces.len() == 4,
        0 <= place < 4,
        spec_shell_edges(objects, faces).len() == 12,
        forall|k: int|
            0 <= k < 4 ==> #[trigger] spec_face_edges(objects, faces[k]) == spec_shell_edges(
                objects,
                faces,
            ).subrange(3 * k, 3 * k + 3),
    ensures
        spec_shell_edges(objects, faces.remove(place)).len() == 9,
        forall|i: int|
            0 <= i < 9 ==> #[trigger] spec_shell_edges(objects, faces.remove(place))[i]
                == spec_shell_edges(objects, faces)[spec_place_before(place, i)],
{
    let edges = spec_shell_edges(objects, faces);
    let left = faces.remove(place);
    let kept = spec_shell_edges(objects, left);
    assert(spec_face_edges(objects, faces[0]) == edges.subrange(0, 3));
    assert(spec_face_edges(objects, faces[1]) == edges.subrange(3, 6));
    assert(spec_face_edges(objects, faces[2]) == edges.subrange(6, 9));
    assert(spec_face_edges(objects, faces[3]) == edges.subrange(9, 12));
    if place == 0 {
        assert(left =~= seq![faces[1], faces[2], faces[3]]);
        lemma_three_faces(objects, faces[1], faces[2], faces[3]);
        assert(kept =~= edges.subrange(3, 12));
    } else if place == 1 {
        assert(left =~= seq![faces[0], faces[2], faces[3]]);
        lemma_three_faces(objects, faces[0], faces[2], faces[3]);
        assert(kept =~= edges.subrange(0, 3) + edges.subrange(6, 12));
    } else if place == 2 {
        assert(left =~= seq![faces[0], faces[1], faces[3]]);
        lemma_three_faces(objects, faces[0], faces[1], faces[3]);
        assert(kept =~= edges.subrange(0, 6) + edges.subrange(9, 12));
    } else {
        assert(left =~= seq![faces[0], faces[1], faces[2]]);
        lemma_three_faces(objects, faces[0], faces[1], faces[2]);
        assert(kept =~= edges.subrange(0, 9));
    }
}

/// The global edge that the first half-edge of a face of a tetrahedron
/// traces is traced by no other half-edge of that face.
proof fn lemma_traced_once(objects: ObjectsView, faces: Seq<Handle<Face>>, g: nat, place: int)
    requires
        faces.len() == 4,
        0 <= place < 4,
        spec_shell_edges(objects, faces).len() == 12,
        forall|k: int|
            0 <= k < 4 ==> #[trigger] spec_face_edges(objects, faces[k]) == spec_shell_edges(
                objects,
                faces,
            ).subrange(3 * k, 3 * k + 3),
        forall|i: int|
            0 <= i < 12 ==> objects.half_edge(
                (#[trigger] spec_shell_edges(objects, faces)[i]).0,
            ).global_form.spec_id() == spec_tetrahedron_ids(g)[i],
    ensures
        spec_references(
            objects,
            spec_face_edges(objects, faces[place]),
            spec_tetrahedron_ids(g)[3 * place],
        ) == 1,
{
    let edges = spec_shell_edges(objects, faces);
    let ids = spec_tetrahedron_ids(g);
    let of_face = spec_face_edges(objects, faces[place]);
    let traced = Seq::new(3, |m: int| ids[3 * place + m]);
    let id = ids[3 * place];
    assert(ids[0] == g && ids[1] == g + 1 && ids[2] == g + 2 && ids[3] == g);
    assert(ids[4] == g + 3 && ids[5] == g + 4 && ids[6] == g + 3 && ids[7] == g + 2);
    assert(ids[8] == g + 5 && ids[9] == g + 1 && ids[10] == g + 4 && ids[11] == g + 5);
    assert(of_face == edges.subrange(3 * place, 3 * place + 3));
    assert forall|m: int| 0 <= m < 3 implies objects.half_edge(
        (#[trigger] of_face[m]).0,
    ).global_form.spec_id() == traced[m] by {
        assert(of_face[m] == edges[3 * place + m]);
    }
    lemma_references_count(objects, of_face, traced, id, 3);
    assert(of_face.subrange(0, 3) =~= of_face);
    assert(spec_count(traced, id, 3) == 1) by {
        reveal_with_fuel(spec_count, 4);
    }
}

/// Building shells.
pub trait BuildShell {
    /// Builds the tetrahedron with these corners and inserts its four faces:
    /// through the first, second and third corner, through the second, first
    /// and fourth, through the fourth, first and third, and through the
    /// third, second and fourth.
    ///
    /// The two faces that meet in an edge trace the same global edge along
    /// it, in opposite directions, so the shell is watertight. There is no
    /// tetrahedron where the plane of a face is not on the lattice; nothing
    /// is inserted then.
    fn tetrahedron(points: [Point3; 4], objects: &mut Objects) -> (tetrahedron: Option<
        Tetrahedron,
    >)
        ensures
            tetrahedron is Some <==> spec_tetrahedron_fits(points),
            tetrahedron is None ==> final(objects)@ == old(objects)@,
            tetrahedron matches Some(built) ==> {
                &&& final(objects)@ == spec_tetrahedron(old(objects)@, points)
                &&& built.shell@ == spec_tetrahedron_faces(old(objects)@.faces.len())
                &&& built.face_abc == built.shell@[0]
                &&& built.face_bad == built.shell@[1]
                &&& built.face_dac == built.shell@[2]
                &&& built.face_cbd == built.shell@[3]
                &&& final(objects)@.holds_shell(built.shell@)
                &&& spec_edges_have_middles(
                    final(objects)@,
                    spec_shell_edges(final(objects)@, built.shell@),
                )
                &&& spec_watertight(
                    final(objects)@,
                    spec_shell_edges(final(objects)@, built.shell@),
                )
                &&& spec_distinct(points) ==> spec_shell_errors(
                    final(objects)@,
                    ValidationConfig::spec_default(),
                    built.shell@,
                ) == Seq::<ValidationError>::empty()
            },
    {
        proof {
            use_type_invariant(&*objects);
        }
        let ghost before = objects@;
        let ghost g = before.global_edges;
        let a = points[0];
        let b = points[1];
        let c = points[2];
        let d = points[3];
        let abc = [a, b, c];
        let bad = [b, a, d];
        let dac = [d, a, c];
        let cbd = [c, b, d];
        assert(abc[0] == a && abc[1] == b && abc[2] == c);
        assert(bad[0] == b && bad[1] == a && bad[2] == d);
        assert(dac[0] == d && dac[1] == a && dac[2] == c);
        assert(cbd[0] == c && cbd[1] == b && cbd[2] == d);
        if step(a, b).is_none() || step(a, c).is_none() || step(b, a).is_none() || step(
            b,
            d,
        ).is_none() || step(d, a).is_none() || step(d, c).is_none() || step(c, b).is_none()
            || step(c, d).is_none() {
            return None;
        }
        let none: [Option<Handle<GlobalEdge>>; 3] = [None, None, None];
        assert(none[0] is None && none[1] is None && none[2] is None);
        let face_abc = match <Face as BuildFace>::triangle(abc, none, objects) {
            Some(triangle) => triangle,
            None => vstd::pervasive::unreached(),
        };
        let second: [Option<Handle<GlobalEdge>>; 3] = [Some(face_abc.edges[0]), None, None];
        assert(second[0] == Some(face_abc.edges[0]) && second[1] is None && second[2] is None);
        assert(second =~= [spec_given(g), None, None]);
        let face_bad = match <Face as BuildFace>::triangle(bad, second, objects) {
            Some(triangle) => triangle,
            None => vstd::pervasive::unreached(),
        };
        let third: [Option<Handle<GlobalEdge>>; 3] = [
            Some(face_bad.edges[1]),
            Some(face_abc.edges[2]),
            None,
        ];
        assert(third[0] == Some(face_bad.edges[1]) && third[1] == Some(face_abc.edges[2])
            && third[2] is None);
        assert(third =~= [spec_given((g + 3) as nat), spec_given((g + 2) as nat), None]);
        let face_dac = match <Face as BuildFace>::triangle(dac, third, objects) {
            Some(triangle) => triangle,
            None => vstd::pervasive::unreached(),
        };
        let fourth: [Option<Handle<GlobalEdge>>; 3] = [
            Some(face_abc.edges[1]),
            Some(face_bad.edges[2]),
            Some(face_dac.edges[2]),
        ];
        assert(fourth[0] == Some(face_abc.edges[1]) && fourth[1] == Some(face_bad.edges[2])
            && fourth[2] == Some(face_dac.edges[2]));
        assert(fourth =~= [
            spec_given((g + 1) as nat),
            spec_given((g + 4) as nat),
            spec_given((g + 5) as nat),
        ]);
        let face_cbd = match <Face as BuildFace>::triangle(cbd, fourth, objects) {
            Some(triangle) => triangle,
            None => vstd::pervasive::unreached(),
        };
        let ghost faces = spec_tetrahedron_faces(before.faces.len());
        proof {
            reveal_with_fuel(spec_tetrahedron_upto, 5);
            assert(objects@ == spec_tetrahedron(before, points));
            objects.lemma_fits();
            lemma_tetrahedron_edges(before, points);
            lemma_tetrahedron_watertight(before, points);
            if spec_distinct(points) {
                lemma_tetrahedron_is_valid(before, points);
            }
        }
        let listed = vec![face_abc.face, face_bad.face, face_dac.face, face_cbd.face];
        let shell = Shell::new(listed);
        proof {
            assert(listed@ =~= faces);
            lemma_set_order_unique(shell@, faces);
        }
        Some(
            Tetrahedron {
                shell,
                face_abc: face_abc.face,
                face_bad: face_bad.face,
                face_dac: face_dac.face,
                face_cbd: face_cbd.face,
            },
        )
    }
}

impl BuildShell for Shell {

}

} // verus!
