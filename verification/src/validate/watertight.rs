//! Watertightness.
//!
//! A shell is watertight if every global edge that its half-edges trace is
//! traced by exactly two of them: once from each of the two faces that meet
//! in the edge.

use vstd::prelude::*;
use std::collections::HashMap;
use crate::objects::face::Face;
use crate::objects::shell::Shell;
use crate::objects::store::{Objects, ObjectsView};
use crate::storage::Handle;
use crate::validate::edges::{
    edges_and_surfaces, lemma_shell_edges_add, lemma_shell_edges_push, spec_edges_held,
    spec_face_edges, spec_shell_edges, EdgeOnSurface,
};
use crate::validate::shell::ShellValidationError;
use crate::validate::ValidationError;

verus! {

/// The number of the half-edges that trace the global edge with this id.
pub open spec fn spec_references(objects: ObjectsView, edges: Seq<EdgeOnSurface>, id: nat) -> nat
    decreases edges.len(),
{
    if edges.len() == 0 {
        0
    } else {
        let before = spec_references(objects, edges.drop_last(), id);
        if objects.half_edge(edges.last().0).global_form.spec_id() == id {
            before + 1
        } else {
            before
        }
    }
}

/// Whether every global edge that is traced at all is traced by exactly two
/// of the half-edges.
pub open spec fn spec_watertight(objects: ObjectsView, edges: Seq<EdgeOnSurface>) -> bool {
    forall|id: nat| #[trigger]
        spec_references(objects, edges, id) != 0 ==> spec_references(objects, edges, id) == 2
}

/// The number of the places before `end` that hold `id`.
pub open spec fn spec_count(ids: Seq<nat>, id: nat, end: int) -> nat
    decreases end,
{
    if end <= 0 {
        0
    } else {
        spec_count(ids, id, end - 1) + if ids[end - 1] == id {
            1nat
        } else {
            0nat
        }
    }
}

/// No more half-edges trace a global edge than there are half-edges.
pub proof fn lemma_references_bounded(objects: ObjectsView, edges: Seq<EdgeOnSurface>, id: nat)
    ensures
        spec_references(objects, edges, id) <= edges.len(),
    decreases edges.len(),
{
    if edges.len() > 0 {
        lemma_references_bounded(objects, edges.drop_last(), id);
    }
}

/// A global edge that is traced is traced by one of the half-edges, and a
/// global edge that one of the half-edges traces is traced.
pub proof fn lemma_references_positive(objects: ObjectsView, edges: Seq<EdgeOnSurface>, id: nat)
    ensures
        spec_references(objects, edges, id) != 0 <==> exists|k: int|
            0 <= k < edges.len() && objects.half_edge(
                (#[trigger] edges[k]).0,
            ).global_form.spec_id() == id,
    decreases edges.len(),
{
    if edges.len() > 0 {
        let rest = edges.drop_last();
        lemma_references_positive(objects, rest, id);
        if spec_references(objects, edges, id) != 0 {
            if objects.half_edge(edges.last().0).global_form.spec_id() == id {
                assert(edges[edges.len() - 1] == edges.last());
            } else {
                let k = choose|k: int|
                    0 <= k < rest.len() && objects.half_edge(
                        (#[trigger] rest[k]).0,
                    ).global_form.spec_id() == id;
                assert(edges[k] == rest[k]);
            }
        }
        if exists|k: int|
            0 <= k < edges.len() && objects.half_edge(
                (#[trigger] edges[k]).0,
            ).global_form.spec_id() == id {
            let k = choose|k: int|
                0 <= k < edges.len() && objects.half_edge(
                    (#[trigger] edges[k]).0,
                ).global_form.spec_id() == id;
            if k < rest.len() {
                assert(rest[k] == edges[k]);
            }
        }
    }
}

/// Where the half-edges trace the global edges with these ids, a global edge
/// is traced as often as its id is among them.
pub proof fn lemma_references_count(
    objects: ObjectsView,
    edges: Seq<EdgeOnSurface>,
    ids: Seq<nat>,
    id: nat,
    end: int,
)
    requires
        0 <= end <= edges.len(),
        ids.len() == edges.len(),
        forall|i: int|
            0 <= i < edges.len() ==> objects.half_edge(
                (#[trigger] edges[i]).0,
            ).global_form.spec_id() == ids[i],
    ensures
        spec_references(objects, edges.subrange(0, end), id) == spec_count(ids, id, end),
    decreases end,
{
    if end > 0 {
        lemma_references_count(objects, edges, ids, id, end - 1);
        let upto = edges.subrange(0, end);
        assert(upto.drop_last() =~= edges.subrange(0, end - 1));
        assert(upto.last() == edges[end - 1]);
    }
}

/// A global edge is traced by two lists of half-edges together as often as
/// by the one and by the other.
pub proof fn lemma_references_add(
    objects: ObjectsView,
    first: Seq<EdgeOnSurface>,
    second: Seq<EdgeOnSurface>,
    id: nat,
)
    ensures
        spec_references(objects, first + second, id) == spec_references(objects, first, id)
            + spec_references(objects, second, id),
    decreases second.len(),
{
    if second.len() == 0 {
        assert(first + second =~= first);
    } else {
        lemma_references_add(objects, first, second.drop_last(), id);
        assert((first + second).drop_last() =~= first + second.drop_last());
        assert((first + second).last() == second.last());
    }
}

/// A watertight shell without one of its faces is not watertight, if that
/// face has a global edge that it traces once.
///
/// The face that is taken away was one of the two that trace that global
/// edge; what is left traces it once.
pub proof fn lemma_not_watertight_without_face(
    objects: ObjectsView,
    faces: Seq<Handle<Face>>,
    place: int,
    id: nat,
)
    requires
        0 <= place < faces.len(),
        spec_watertight(objects, spec_shell_edges(objects, faces)),
        spec_references(objects, spec_face_edges(objects, faces[place]), id) == 1,
    ensures
        !spec_watertight(objects, spec_shell_edges(objects, faces.remove(place))),
        spec_references(objects, spec_shell_edges(objects, faces.remove(place)), id) == 1,
{
    let before = faces.subrange(0, place);
    let after = faces.subrange(place + 1, faces.len() as int);
    let face = faces[place];
    assert(faces =~= before.push(face) + after);
    assert(faces.remove(place) =~= before + after);
    lemma_shell_edges_add(objects, before.push(face), after);
    lemma_shell_edges_push(objects, before, face);
    lemma_shell_edges_add(objects, before, after);
    let edges_before = spec_shell_edges(objects, before);
    let edges_face = spec_face_edges(objects, face);
    let edges_after = spec_shell_edges(objects, after);
    lemma_references_add(objects, edges_before + edges_face, edges_after, id);
    lemma_references_add(objects, edges_before, edges_face, id);
    lemma_references_add(objects, edges_before, edges_after, id);
    let all = spec_references(objects, spec_shell_edges(objects, faces), id);
    assert(all != 0);
    assert(all == 2);
}

impl ShellValidationError {
    /// Checks that a shell is watertight, and appends one error if it is
    /// not: if some global edge is traced by one half-edge of the shell only,
    /// or by more than two.
    pub fn validate_watertight(
        shell: &Shell,
        objects: &Objects,
        errors: &mut Vec<ValidationError>,
    )
        requires
            objects@.holds_shell(shell@),
        ensures
            spec_watertight(objects@, spec_shell_edges(objects@, shell@)) ==> final(errors)@ == old(
                errors,
            )@,
            !spec_watertight(objects@, spec_shell_edges(objects@, shell@)) ==> final(errors)@
                == old(errors)@.push(ValidationError::Shell(ShellValidationError::NotWatertight)),
    {
        broadcast use vstd::std_specs::hash::group_hash_axioms;

        let edges = edges_and_surfaces(shell, objects);
        let mut counts: HashMap<usize, usize> = HashMap::new();
        let mut k: usize = 0;
        while k < edges.len()
            invariant
                k <= edges@.len(),
                spec_edges_held(objects@, edges@),
                forall|id: usize|
                    counts@.contains_key(id) <==> #[trigger] spec_references(
                        objects@,
                        edges@.subrange(0, k as int),
                        id as nat,
                    ) != 0,
                forall|id: usize|
                    counts@.contains_key(id) ==> counts@[id] == #[trigger] spec_references(
                        objects@,
                        edges@.subrange(0, k as int),
                        id as nat,
                    ),
            decreases edges@.len() - k,
        {
            let id = objects.half_edge(&edges[k].0).global_form().id();
            let ghost seen = edges@.subrange(0, k as int);
            let ghost next = edges@.subrange(0, k + 1);
            proof {
                assert(next.drop_last() =~= seen);
                assert(next.last() == edges@[k as int]);
                lemma_references_bounded(objects@, seen, id as nat);
            }
            let count: usize = match counts.get(&id) {
                Some(count) => *count,
                None => 0,
            };
            assert(count == spec_references(objects@, seen, id as nat));
            let ghost counted = counts@;
            counts.insert(id, count + 1);
            k += 1;
            assert(counts@ == counted.insert(id, (count + 1) as usize));
            assert forall|other: usize|
                counts@.contains_key(other) <==> #[trigger] spec_references(
                    objects@,
                    next,
                    other as nat,
                ) != 0 by {
                let in_seen = spec_references(objects@, seen, other as nat);
                assert(counted.contains_key(other) <==> in_seen != 0);
                assert(spec_references(objects@, next, other as nat) == if other == id {
                    in_seen + 1
                } else {
                    in_seen
                });
            }
            assert forall|other: usize| counts@.contains_key(other) implies counts@[other]
                == #[trigger] spec_references(objects@, next, other as nat) by {
                let in_seen = spec_references(objects@, seen, other as nat);
                assert(counted.contains_key(other) ==> counted[other] == in_seen);
                assert(spec_references(objects@, next, other as nat) == if other == id {
                    in_seen + 1
                } else {
                    in_seen
                });
            }
        }
        assert(edges@.subrange(0, k as int) =~= edges@);
        let mut watertight = true;
        let mut i: usize = 0;
        while i < edges.len()
            invariant
                i <= edges@.len(),
                spec_edges_held(objects@, edges@),
                forall|id: usize|
                    counts@.contains_key(id) <==> #[trigger] spec_references(
                        objects@,
                        edges@,
                        id as nat,
                    ) != 0,
                forall|id: usize|
                    counts@.contains_key(id) ==> counts@[id] == #[trigger] spec_references(
                        objects@,
                        edges@,
                        id as nat,
                    ),
                watertight <==> forall|j: int|
                    0 <= j < i ==> spec_references(
                        objects@,
                        edges@,
                        objects@.half_edge((#[trigger] edges@[j]).0).global_form.spec_id(),
                    ) == 2,
            decreases edges@.len() - i,
        {
            let id = objects.half_edge(&edges[i].0).global_form().id();
            proof {
                lemma_references_positive(objects@, edges@, id as nat);
            }
            let twice = match counts.get(&id) {
                Some(count) => *count == 2,
                None => false,
            };
            assert(twice == (spec_references(objects@, edges@, id as nat) == 2));
            if !twice {
                watertight = false;
            }
            i += 1;
        }
        proof {
            let all = edges@;
            if watertight {
                assert forall|id: nat| #[trigger]
                    spec_references(objects@, all, id) != 0 implies spec_references(
                    objects@,
                    all,
                    id,
                ) == 2 by {
                    lemma_references_positive(objects@, all, id);
                    let j = choose|j: int|
                        0 <= j < all.len() && objects@.half_edge(
                            (#[trigger] all[j]).0,
                        ).global_form.spec_id() == id;
                    assert(spec_references(
                        objects@,
                        all,
                        objects@.half_edge(all[j].0).global_form.spec_id(),
                    ) == 2);
                }
            } else {
                let j = choose|j: int|
                    0 <= j < all.len() && spec_references(
                        objects@,
                        all,
                        objects@.half_edge((#[trigger] all[j]).0).global_form.spec_id(),
                    ) != 2;
                let id = objects@.half_edge(all[j].0).global_form.spec_id();
                lemma_references_positive(objects@, all, id);
                assert(spec_references(objects@, all, id) != 0);
            }
        }
        if !watertight {
            errors.push(ValidationError::Shell(ShellValidationError::NotWatertight));
        }
    }
}

} // verus!
