//! Operations that give an object with one part changed.
//!
//! No object is ever changed. Each operation gives a new object, which holds
//! what the given one held, but for the part that is named.

use vstd::prelude::*;
use crate::objects::cycle::Cycle;
use crate::objects::edge::{GlobalEdge, HalfEdge};
use crate::objects::face::{Face, FaceView};
use crate::objects::shell::{lemma_set_order_unique, spec_ascending, spec_is_set, Shell};
use crate::storage::Handle;

verus! {

/// Changing a half-edge.
pub trait UpdateHalfEdge {
    /// The half-edge, tracing another global edge.
    fn update_global_form(&self, global_form: Handle<GlobalEdge>) -> (updated: HalfEdge);
}

impl UpdateHalfEdge for HalfEdge {
    fn update_global_form(&self, global_form: Handle<GlobalEdge>) -> (updated: HalfEdge)
        ensures
            updated == (HalfEdge { global_form, ..*self }),
    {
        HalfEdge::new(self.curve, self.boundary, self.start_vertex, global_form)
    }
}

/// Changing a cycle.
pub trait UpdateCycle {
    /// Whether the cycle has a half-edge at this place.
    spec fn spec_has_place(&self, index: int) -> bool;

    /// The cycle, with another half-edge at the place `index`.
    fn replace_half_edge(&self, index: usize, replacement: Handle<HalfEdge>) -> (updated: Cycle)
        requires
            self.spec_has_place(index as int),
    ;
}

impl UpdateCycle for Cycle {
    open spec fn spec_has_place(&self, index: int) -> bool {
        0 <= index < self@.len()
    }

    fn replace_half_edge(&self, index: usize, replacement: Handle<HalfEdge>) -> (updated: Cycle)
        ensures
            updated@ == self@.update(index as int, replacement),
    {
        let half_edges = self.half_edges();
        let mut replaced: Vec<Handle<HalfEdge>> = Vec::new();
        let mut k: usize = 0;
        while k < half_edges.len()
            invariant
                k <= half_edges@.len(),
                half_edges@ == self@,
                index < self@.len(),
                replaced@ == self@.update(index as int, replacement).subrange(0, k as int),
            decreases half_edges@.len() - k,
        {
            if k == index {
                replaced.push(replacement);
            } else {
                replaced.push(half_edges[k]);
            }
            k += 1;
            assert(replaced@ =~= self@.update(index as int, replacement).subrange(0, k as int));
        }
        assert(self@.update(index as int, replacement).subrange(0, k as int) =~= self@.update(
            index as int,
            replacement,
        ));
        Cycle::new(replaced)
    }
}

/// Changing a face.
pub trait UpdateFace {
    /// The face, bounded on the outside by another cycle.
    fn replace_exterior(&self, exterior: Handle<Cycle>) -> (updated: Face);
}

impl UpdateFace for Face {
    fn replace_exterior(&self, exterior: Handle<Cycle>) -> (updated: Face)
        ensures
            updated@ == (FaceView { exterior, ..self@ }),
    {
        let interiors = self.interiors();
        let mut copied: Vec<Handle<Cycle>> = Vec::new();
        let mut k: usize = 0;
        while k < interiors.len()
            invariant
                k <= interiors@.len(),
                copied@ == interiors@.subrange(0, k as int),
            decreases interiors@.len() - k,
        {
            copied.push(interiors[k]);
            k += 1;
            assert(copied@ =~= interiors@.subrange(0, k as int));
        }
        assert(interiors@.subrange(0, k as int) =~= interiors@);
        Face::new(*self.surface(), exterior, copied, self.color())
    }
}

/// Changing a shell.
pub trait UpdateShell {
    /// The shell without this face.
    fn remove_face(&self, face: &Handle<Face>) -> (updated: Shell);

    /// The shell, with one face in the place of another.
    fn replace_face(&self, original: &Handle<Face>, replacement: Handle<Face>) -> (updated: Shell);
}

impl UpdateShell for Shell {
    fn remove_face(&self, face: &Handle<Face>) -> (updated: Shell)
        ensures
            spec_is_set(updated@),
            updated@.to_set() == self@.to_set().remove(*face),
            !self@.contains(*face) ==> updated@ == self@,
            forall|place: int|
                0 <= place < self@.len() && self@[place] == *face ==> updated@ == self@.remove(
                    place,
                ),
    {
        let faces = self.faces();
        let mut kept: Vec<Handle<Face>> = Vec::new();
        let ghost mut found: Option<int> = None;
        let mut k: usize = 0;
        while k < faces.len()
            invariant
                k <= faces@.len(),
                faces@ == self@,
                spec_is_set(self@),
                found is None ==> kept@ == self@.subrange(0, k as int) && forall|i: int|
                    0 <= i < k ==> self@[i] != *face,
                found matches Some(place) ==> 0 <= place < k && self@[place] == *face && kept@
                    == self@.subrange(0, k as int).remove(place),
            decreases faces@.len() - k,
        {
            if faces[k].same(face) {
                proof {
                    if found is Some {
                        assert(spec_ascending(self@, found->0, k as int));
                    }
                    found = Some(k as int);
                    assert(kept@ =~= self@.subrange(0, k + 1).remove(k as int));
                }
            } else {
                kept.push(faces[k]);
                proof {
                    match found {
                        Some(place) => {
                            assert(kept@ =~= self@.subrange(0, k + 1).remove(place));
                        },
                        None => {
                            assert(kept@ =~= self@.subrange(0, k + 1));
                        },
                    }
                }
            }
            k += 1;
        }
        assert(self@.subrange(0, k as int) =~= self@);
        let updated = Shell::new(kept);
        proof {
            match found {
                Some(place) => {
                    lemma_set_without(self@, place);
                    lemma_set_order_unique(updated@, self@.remove(place));
                    assert forall|other: int|
                        0 <= other < self@.len() && self@[other] == *face implies updated@
                        == self@.remove(other) by {
                        if other < place {
                            assert(spec_ascending(self@, other, place));
                        } else if other > place {
                            assert(spec_ascending(self@, place, other));
                        }
                    }
                    assert(self@.contains(*face));
                },
                None => {
                    lemma_set_order_unique(updated@, self@);
                    assert(!self@.contains(*face));
                    assert(self@.to_set().remove(*face) =~= self@.to_set());
                },
            }
        }
        updated
    }

    fn replace_face(&self, original: &Handle<Face>, replacement: Handle<Face>) -> (updated: Shell)
        ensures
            spec_is_set(updated@),
            updated@.to_set() == self@.to_set().remove(*original).insert(replacement),
    {
        let faces = self.faces();
        let mut kept: Vec<Handle<Face>> = Vec::new();
        kept.push(replacement);
        let mut k: usize = 0;
        assert(kept@.to_set() =~= self@.subrange(0, 0).to_set().remove(*original).insert(
            replacement,
        )) by {
            assert(kept@[0] == replacement);
        }
        while k < faces.len()
            invariant
                k <= faces@.len(),
                faces@ == self@,
                kept@.to_set() == self@.subrange(0, k as int).to_set().remove(*original).insert(
                    replacement,
                ),
            decreases faces@.len() - k,
        {
            let ghost seen = self@.subrange(0, k as int);
            let ghost before = kept@;
            let skipped = faces[k].same(original);
            if !skipped {
                kept.push(faces[k]);
            }
            k += 1;
            proof {
                let next = self@.subrange(0, k as int);
                let added = self@[k - 1];
                assert(next =~= seen.push(added));
                assert forall|h: Handle<Face>|
                    kept@.contains(h) <==> next.to_set().remove(*original).insert(
                        replacement,
                    ).contains(h) by {
                    if kept@.contains(h) {
                        let x = choose|x: int| 0 <= x < kept@.len() && kept@[x] == h;
                        if x < before.len() {
                            assert(before[x] == h);
                            assert(before.to_set().contains(h));
                            if h != replacement {
                                assert(seen.contains(h));
                                let y = choose|y: int| 0 <= y < seen.len() && seen[y] == h;
                                assert(next[y] == h);
                            }
                        } else {
                            assert(h == added);
                            assert(next[next.len() - 1] == h);
                        }
                    }
                    if next.to_set().remove(*original).insert(replacement).contains(h) {
                        if h == replacement {
                            assert(before.to_set().contains(h));
                            let x = choose|x: int| 0 <= x < before.len() && before[x] == h;
                            assert(kept@[x] == h);
                        } else {
                            let y = choose|y: int| 0 <= y < next.len() && next[y] == h;
                            if y < seen.len() {
                                assert(seen[y] == h);
                                assert(seen.to_set().contains(h));
                                assert(before.to_set().contains(h));
                                let x = choose|x: int| 0 <= x < before.len() && before[x] == h;
                                assert(kept@[x] == h);
                            } else {
                                assert(kept@[kept@.len() - 1] == h);
                            }
                        }
                    }
                }
                assert(kept@.to_set() =~= next.to_set().remove(*original).insert(replacement));
            }
        }
        assert(self@.subrange(0, k as int) =~= self@);
        Shell::new(kept)
    }
}

/// A set of faces in order, without the face at one place, is a set of
/// faces in order, and holds every face but that one.
pub proof fn lemma_set_without(faces: Seq<Handle<Face>>, place: int)
    requires
        spec_is_set(faces),
        0 <= place < faces.len(),
    ensures
        spec_is_set(faces.remove(place)),
        faces.remove(place).to_set() == faces.to_set().remove(faces[place]),
{
    let left = faces.remove(place);
    let from = |x: int|
        if x < place {
            x
        } else {
            x + 1
        };
    assert forall|i: int, j: int| 0 <= i < j < left.len() implies #[trigger] spec_ascending(
        left,
        i,
        j,
    ) by {
        assert(left[i] == faces[from(i)] && left[j] == faces[from(j)]);
        assert(spec_ascending(faces, from(i), from(j)));
    }
    assert forall|h: Handle<Face>| left.contains(h) <==> faces.to_set().remove(
        faces[place],
    ).contains(h) by {
        if left.contains(h) {
            let x = choose|x: int| 0 <= x < left.len() && left[x] == h;
            assert(faces[from(x)] == h);
            if from(x) < place {
                assert(spec_ascending(faces, from(x), place));
            } else {
                assert(spec_ascending(faces, place, from(x)));
            }
        }
        if faces.to_set().remove(faces[place]).contains(h) {
            let y = choose|y: int| 0 <= y < faces.len() && faces[y] == h;
            if y < place {
                assert(left[y] == h);
            } else {
                assert(left[y - 1] == h);
            }
        }
    }
    assert(left.to_set() =~= faces.to_set().remove(faces[place]));
}

} // verus!
