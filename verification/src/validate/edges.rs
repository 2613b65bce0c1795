//! The half-edges of a shell.
//!
//! Validation goes through the half-edges of a shell face by face: through
//! the exterior cycle of a face, then through its interior cycles, and
//! through each cycle in its order. With each half-edge goes the surface of
//! the face that it bounds, on which its curve is to be read.

use vstd::prelude::*;
use crate::objects::cycle::Cycle;
use crate::objects::edge::HalfEdge;
use crate::objects::face::Face;
use crate::objects::shell::Shell;
use crate::objects::store::{Objects, ObjectsView};
use crate::objects::surface::Surface;
use crate::storage::Handle;

verus! {

/// A half-edge of a shell, with the surface of the face that it bounds.
pub type EdgeOnSurface = (Handle<HalfEdge>, Handle<Surface>);

/// The half-edges of one cycle, each with the surface.
pub open spec fn spec_cycle_edges(
    cycle: Seq<Handle<HalfEdge>>,
    surface: Handle<Surface>,
) -> Seq<EdgeOnSurface> {
    Seq::new(cycle.len(), |i: int| (cycle[i], surface))
}

/// The half-edges of the cycles, in the order of the cycles, each with the
/// surface.
pub open spec fn spec_cycles_edges(
    objects: ObjectsView,
    cycles: Seq<Handle<Cycle>>,
    surface: Handle<Surface>,
) -> Seq<EdgeOnSurface>
    decreases cycles.len(),
{
    if cycles.len() == 0 {
        Seq::empty()
    } else {
        spec_cycles_edges(objects, cycles.drop_last(), surface) + spec_cycle_edges(
            objects.cycle(cycles.last()),
            surface,
        )
    }
}

/// The half-edges of the faces, in the order of the faces, each with the
/// surface of its face.
pub open spec fn spec_shell_edges(objects: ObjectsView, faces: Seq<Handle<Face>>) -> Seq<
    EdgeOnSurface,
>
    decreases faces.len(),
{
    if faces.len() == 0 {
        Seq::empty()
    } else {
        let face = objects.face(faces.last());
        spec_shell_edges(objects, faces.drop_last()) + spec_cycles_edges(
            objects,
            face.all_cycles(),
            face.surface,
        )
    }
}

/// The half-edges of a face, each with the surface of the face.
pub open spec fn spec_face_edges(objects: ObjectsView, face: Handle<Face>) -> Seq<EdgeOnSurface> {
    spec_cycles_edges(objects, objects.face(face).all_cycles(), objects.face(face).surface)
}

/// Whether the store issued both handles of every pair.
pub open spec fn spec_edges_held(objects: ObjectsView, edges: Seq<EdgeOnSurface>) -> bool {
    forall|k: int|
        0 <= k < edges.len() ==> objects.has_half_edge((#[trigger] edges[k]).0)
            && objects.has_surface(edges[k].1)
}

/// Whether every half-edge of the pairs has a middle that can be sampled.
pub open spec fn spec_edges_have_middles(objects: ObjectsView, edges: Seq<EdgeOnSurface>) -> bool {
    forall|k: int|
        0 <= k < edges.len() ==> objects.half_edge((#[trigger] edges[k]).0).spec_has_middle()
}

/// A store that was only added to lists the half-edges of the cycles that it
/// held before as it did before.
pub proof fn lemma_cycles_edges_kept(
    before: ObjectsView,
    after: ObjectsView,
    cycles: Seq<Handle<Cycle>>,
    surface: Handle<Surface>,
)
    requires
        after.extends(before),
        forall|i: int| 0 <= i < cycles.len() ==> before.has_cycle(#[trigger] cycles[i]),
    ensures
        spec_cycles_edges(after, cycles, surface) == spec_cycles_edges(before, cycles, surface),
    decreases cycles.len(),
{
    if cycles.len() > 0 {
        let rest = cycles.drop_last();
        assert forall|i: int| 0 <= i < rest.len() implies before.has_cycle(#[trigger] rest[i]) by {
            assert(rest[i] == cycles[i]);
        }
        lemma_cycles_edges_kept(before, after, rest, surface);
        let last = cycles.last();
        assert(last == cycles[cycles.len() - 1]);
        assert(before.has_cycle(last));
        assert(after.cycles[last.spec_id() as int] == before.cycles[last.spec_id() as int]);
    }
}

/// A store that was only added to lists the half-edges of the faces that it
/// held before as it did before.
pub proof fn lemma_shell_edges_kept(
    before: ObjectsView,
    after: ObjectsView,
    faces: Seq<Handle<Face>>,
)
    requires
        before.wf(),
        before.holds_shell(faces),
        after.extends(before),
    ensures
        spec_shell_edges(after, faces) == spec_shell_edges(before, faces),
    decreases faces.len(),
{
    if faces.len() > 0 {
        let rest = faces.drop_last();
        assert forall|i: int| 0 <= i < rest.len() implies before.has_face(#[trigger] rest[i]) by {
            assert(rest[i] == faces[i]);
        }
        lemma_shell_edges_kept(before, after, rest);
        let last = faces.last();
        assert(last == faces[faces.len() - 1]);
        assert(before.has_face(last));
        assert(after.faces[last.spec_id() as int] == before.faces[last.spec_id() as int]);
        let face = before.face(last);
        assert(before.holds_face(before.faces[last.spec_id() as int]));
        assert forall|i: int| 0 <= i < face.all_cycles().len() implies before.has_cycle(
            #[trigger] face.all_cycles()[i],
        ) by {
            if i > 0 {
                assert(face.all_cycles()[i] == face.interiors[i - 1]);
            }
        }
        lemma_cycles_edges_kept(before, after, face.all_cycles(), face.surface);
    }
}

/// The half-edges of a shell with one more face are the half-edges of the
/// shell, then the half-edges of that face.
pub proof fn lemma_shell_edges_push(
    objects: ObjectsView,
    faces: Seq<Handle<Face>>,
    face: Handle<Face>,
)
    ensures
        spec_shell_edges(objects, faces.push(face)) == spec_shell_edges(objects, faces)
            + spec_face_edges(objects, face),
{
    assert(faces.push(face).drop_last() =~= faces);
    assert(faces.push(face).last() == face);
}

/// The half-edges of two lists of faces, one after the other, are the
/// half-edges of the first list, then those of the second.
pub proof fn lemma_shell_edges_add(
    objects: ObjectsView,
    first: Seq<Handle<Face>>,
    second: Seq<Handle<Face>>,
)
    ensures
        spec_shell_edges(objects, first + second) == spec_shell_edges(objects, first)
            + spec_shell_edges(objects, second),
    decreases second.len(),
{
    if second.len() == 0 {
        assert(first + second =~= first);
        assert(spec_shell_edges(objects, second) =~= Seq::<EdgeOnSurface>::empty());
        assert(spec_shell_edges(objects, first) + Seq::<EdgeOnSurface>::empty()
            =~= spec_shell_edges(objects, first));
    } else {
        let rest = second.drop_last();
        lemma_shell_edges_add(objects, first, rest);
        assert((first + second).drop_last() =~= first + rest);
        assert((first + second).last() == second.last());
        let face = spec_face_edges(objects, second.last());
        assert(spec_shell_edges(objects, first + second) == spec_shell_edges(
            objects,
            first + rest,
        ) + face);
        assert(spec_shell_edges(objects, second) == spec_shell_edges(objects, rest) + face);
        assert((spec_shell_edges(objects, first) + spec_shell_edges(objects, rest)) + face
            =~= spec_shell_edges(objects, first) + (spec_shell_edges(objects, rest) + face));
    }
}

/// The half-edges of a shell in the order of its faces and their cycles,
/// each with the surface of its face.
pub fn edges_and_surfaces(shell: &Shell, objects: &Objects) -> (edges: Vec<EdgeOnSurface>)
    requires
        objects@.holds_shell(shell@),
    ensures
        edges@ == spec_shell_edges(objects@, shell@),
        spec_edges_held(objects@, edges@),
{
    proof {
        use_type_invariant(objects);
    }
    let faces = shell.faces();
    let mut edges: Vec<EdgeOnSurface> = Vec::new();
    let mut f: usize = 0;
    while f < faces.len()
        invariant
            f <= faces@.len(),
            faces@ == shell@,
            objects@.wf(),
            objects@.holds_shell(shell@),
            edges@ == spec_shell_edges(objects@, faces@.subrange(0, f as int)),
            spec_edges_held(objects@, edges@),
        decreases faces@.len() - f,
    {
        assert(objects@.has_face(faces@[f as int]));
        let face = objects.face(&faces[f]);
        assert(objects@.holds_face(objects@.faces[faces@[f as int].spec_id() as int]));
        let surface = *face.surface();
        let cycles = face.all_cycles();
        let ghost before = edges@;
        let mut c: usize = 0;
        while c < cycles.len()
            invariant
                c <= cycles@.len(),
                cycles@ == face@.all_cycles(),
                objects@.holds_face(face@),
                surface == face@.surface,
                objects@.wf(),
                edges@ == before + spec_cycles_edges(
                    objects@,
                    cycles@.subrange(0, c as int),
                    surface,
                ),
                spec_edges_held(objects@, edges@),
            decreases cycles@.len() - c,
        {
            assert(objects@.has_cycle(cycles@[c as int])) by {
                if c > 0 {
                    assert(cycles@[c as int] == face@.interiors[c - 1]);
                }
            }
            let cycle = objects.cycle(&cycles[c]);
            assert(objects@.holds_cycle(objects@.cycles[cycles@[c as int].spec_id() as int]));
            let half_edges = cycle.half_edges();
            let ghost before_cycle = edges@;
            let mut h: usize = 0;
            while h < half_edges.len()
                invariant
                    h <= half_edges@.len(),
                    objects@.holds_cycle(half_edges@),
                    objects@.has_surface(surface),
                    edges@ == before_cycle + spec_cycle_edges(half_edges@, surface).subrange(
                        0,
                        h as int,
                    ),
                    spec_edges_held(objects@, edges@),
                decreases half_edges@.len() - h,
            {
                let ghost pushed_to = edges@;
                edges.push((half_edges[h], surface));
                h += 1;
                assert(edges@ =~= before_cycle + spec_cycle_edges(half_edges@, surface).subrange(
                    0,
                    h as int,
                ));
                assert forall|k: int| 0 <= k < edges@.len() implies objects@.has_half_edge(
                    (#[trigger] edges@[k]).0,
                ) && objects@.has_surface(edges@[k].1) by {
                    if k < pushed_to.len() {
                        assert(edges@[k] == pushed_to[k]);
                    }
                }
            }
            c += 1;
            proof {
                let upto = cycles@.subrange(0, c as int);
                assert(upto.drop_last() =~= cycles@.subrange(0, c - 1));
                assert(upto.last() == cycles@[c - 1]);
                assert(spec_cycle_edges(half_edges@, surface).subrange(0, h as int)
                    =~= spec_cycle_edges(half_edges@, surface));
                assert(edges@ =~= before + spec_cycles_edges(objects@, upto, surface));
            }
        }
        f += 1;
        proof {
            let upto = faces@.subrange(0, f as int);
            assert(upto.drop_last() =~= faces@.subrange(0, f - 1));
            assert(upto.last() == faces@[f - 1]);
            assert(cycles@.subrange(0, c as int) =~= cycles@);
        }
    }
    assert(faces@.subrange(0, f as int) =~= faces@);
    edges
}

/// Whether every half-edge of the shell has a middle that can be sampled.
pub fn edges_have_middles(shell: &Shell, objects: &Objects) -> (r: bool)
    requires
        objects@.holds_shell(shell@),
    ensures
        r == spec_edges_have_middles(objects@, spec_shell_edges(objects@, shell@)),
{
    let edges = edges_and_surfaces(shell, objects);
    let mut k: usize = 0;
    while k < edges.len()
        invariant
            k <= edges@.len(),
            edges@ == spec_shell_edges(objects@, shell@),
            spec_edges_held(objects@, edges@),
            forall|i: int|
                0 <= i < k ==> objects@.half_edge((#[trigger] edges@[i]).0).spec_has_middle(),
        decreases edges@.len() - k,
    {
        if !objects.half_edge(&edges[k].0).has_middle() {
            assert(!objects@.half_edge(edges@[k as int].0).spec_has_middle());
            return false;
        }
        k += 1;
    }
    true
}

} // verus!
