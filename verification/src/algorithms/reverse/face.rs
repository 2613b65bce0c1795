//! Reversal of faces.

use vstd::prelude::*;
use crate::algorithms::reverse::cycle::{copy_handles, spec_reversed};
use crate::algorithms::reverse::Reverse;
use crate::objects::cycle::Cycle;
use crate::objects::face::Face;
use crate::objects::store::{Objects, ObjectsView};
use crate::partial::objects::face::{lemma_no_fresh, PartialFace};
use crate::partial::traits::PartialObject;
use crate::partial::{FullToPartialCache, Partial};
use crate::storage::Handle;

verus! {

/// Whether the cycle `reversed` of `after` is the cycle `original` of
/// `before`, reversed.
pub open spec fn spec_is_reversed_cycle(
    before: ObjectsView,
    after: ObjectsView,
    original: Handle<Cycle>,
    reversed: Handle<Cycle>,
) -> bool {
    &&& after.has_cycle(reversed)
    &&& after.half_edges_of(after.cycle(reversed)) == spec_reversed(
        before.half_edges_of(before.cycle(original)),
    )
}

/// What a store that was only added to holds of a cycle is what it held
/// before.
pub proof fn lemma_cycle_kept(before: ObjectsView, after: ObjectsView, cycle: Handle<Cycle>)
    requires
        before.wf(),
        before.has_cycle(cycle),
        after.extends(before),
    ensures
        after.has_cycle(cycle),
        after.cycle(cycle) == before.cycle(cycle),
        after.half_edges_of(after.cycle(cycle)) == before.half_edges_of(before.cycle(cycle)),
{
    let handles = before.cycle(cycle);
    assert(after.cycles[cycle.spec_id() as int] == before.cycles[cycle.spec_id() as int]);
    assert(before.holds_cycle(before.cycles[cycle.spec_id() as int]));
    assert forall|i: int| 0 <= i < handles.len() implies after.half_edge(handles[i])
        == before.half_edge(handles[i]) by {
        assert(before.has_half_edge(handles[i]));
        assert(after.half_edges[handles[i].spec_id() as int]
            == before.half_edges[handles[i].spec_id() as int]);
    }
    assert(after.half_edges_of(handles) =~= before.half_edges_of(handles));
}

impl Reverse for Handle<Face> {
    open spec fn reverse_requires(self, objects: ObjectsView) -> bool {
        objects.has_face(self)
    }

    open spec fn reverse_ensures(
        self,
        before: ObjectsView,
        after: ObjectsView,
        reversed: Handle<Face>,
    ) -> bool {
        let face = before.face(self);
        let turned = after.face(reversed);
        &&& after.wf()
        &&& after.extends(before)
        &&& after.vertices == before.vertices
        &&& after.global_edges == before.global_edges
        &&& after.surfaces == before.surfaces
        &&& after.shells == before.shells
        &&& after.faces.len() == before.faces.len() + 1
        &&& after.cycles.len() == before.cycles.len() + 1 + face.interiors.len()
        &&& reversed.spec_id() == before.faces.len()
        &&& turned.exterior.spec_id() == before.cycles.len()
        &&& forall|i: int|
            0 <= i < face.interiors.len() ==> (#[trigger] turned.interiors[i]).spec_id()
                == before.cycles.len() + 1 + i
        &&& turned.surface == face.surface
        &&& turned.color == face.color
        &&& spec_is_reversed_cycle(before, after, face.exterior, turned.exterior)
        &&& turned.interiors.len() == face.interiors.len()
        &&& forall|i: int|
            0 <= i < face.interiors.len() ==> spec_is_reversed_cycle(
                before,
                after,
                face.interiors[i],
                #[trigger] turned.interiors[i],
            )
    }

    fn reverse(self, objects: &mut Objects) -> (reversed: Handle<Face>) {
        proof {
            use_type_invariant(&*objects);
        }
        let ghost before = objects@;
        let ghost face_view = before.face(self);
        assert(before.holds_face(before.faces[self.spec_id() as int]));
        let face = objects.face(&self);
        let surface = *face.surface();
        let exterior = *face.exterior();
        let color = face.color();
        let originals = copy_handles(face.interiors());
        let mut cache = FullToPartialCache::default();
        let turned_exterior = exterior.reverse(objects);
        let exterior = Partial::<Cycle>::from_full(turned_exterior, &mut cache);
        let mut interiors: Vec<Partial<Cycle>> = Vec::new();
        let mut i: usize = 0;
        while i < originals.len()
            invariant
                i <= originals@.len(),
                originals@ == face_view.interiors,
                before.wf(),
                before.holds_face(face_view),
                objects@.wf(),
                objects@.extends(before),
                objects@.vertices == before.vertices,
                objects@.global_edges == before.global_edges,
                objects@.surfaces == before.surfaces,
                objects@.faces == before.faces,
                objects@.shells == before.shells,
                objects@.cycles.len() == before.cycles.len() + 1 + i,
                turned_exterior.spec_id() == before.cycles.len(),
                spec_is_reversed_cycle(before, objects@, face_view.exterior, turned_exterior),
                interiors@.len() == i,
                forall|k: int|
                    0 <= k < i ==> ((#[trigger] interiors@[k])->Existing_0).spec_id()
                        == before.cycles.len() + 1 + k,
                forall|k: int| 0 <= k < i ==> (#[trigger] interiors@[k]) is Existing,
                forall|k: int|
                    0 <= k < i ==> spec_is_reversed_cycle(
                        before,
                        objects@,
                        originals@[k],
                        (#[trigger] interiors@[k])->Existing_0,
                    ),
            decreases originals@.len() - i,
        {
            let ghost grown = objects@;
            let ghost done = interiors@;
            proof {
                lemma_cycle_kept(before, grown, originals@[i as int]);
            }
            let turned = originals[i].reverse(objects);
            interiors.push(Partial::<Cycle>::from_full(turned, &mut cache));
            proof {
                assert(objects@.extends(grown));
                lemma_cycle_kept(grown, objects@, turned_exterior);
                assert forall|k: int| 0 <= k < i + 1 implies spec_is_reversed_cycle(
                    before,
                    objects@,
                    originals@[k],
                    (#[trigger] interiors@[k])->Existing_0,
                ) by {
                    if k < i {
                        assert(interiors@[k] == done[k]);
                        lemma_cycle_kept(grown, objects@, done[k]->Existing_0);
                    }
                }
            }
            i += 1;
        }
        let ghost turned_interiors = interiors@;
        let mut partial = PartialFace::new(objects);
        partial.surface = Some(surface);
        partial.exterior = exterior;
        partial.interiors = interiors;
        partial.color = Some(color);
        let ghost grown = objects@;
        let built = partial.build(objects);
        proof {
            lemma_no_fresh(seq![partial.exterior]);
            lemma_no_fresh(partial.interiors@);
            assert(objects@.cycles =~= grown.cycles);
            assert(objects@ == grown);
            assert(built@.interiors.len() == face_view.interiors.len());
            assert forall|k: int|
                0 <= k < built@.interiors.len() implies #[trigger] built@.interiors[k]
                == turned_interiors[k]->Existing_0 by {}
        }
        assert(grown.holds_face(built@)) by {
            assert forall|k: int| 0 <= k < built@.interiors.len() implies grown.has_cycle(
                #[trigger] built@.interiors[k],
            ) by {
                assert(spec_is_reversed_cycle(
                    before,
                    grown,
                    originals@[k],
                    turned_interiors[k]->Existing_0,
                ));
            }
        }
        let reversed = objects.insert_face(built);
        proof {
            let after = objects@;
            assert(after.faces[reversed.spec_id() as int] == built@);
            assert(after.extends(grown));
            assert(after.extends(before));
            lemma_cycle_kept(grown, after, turned_exterior);
            assert forall|k: int| 0 <= k < face_view.interiors.len() implies spec_is_reversed_cycle(
                before,
                after,
                face_view.interiors[k],
                #[trigger] after.face(reversed).interiors[k],
            ) by {
                assert(spec_is_reversed_cycle(
                    before,
                    grown,
                    originals@[k],
                    turned_interiors[k]->Existing_0,
                ));
                assert(built@.interiors[k] == turned_interiors[k]->Existing_0);
                lemma_cycle_kept(grown, after, turned_interiors[k]->Existing_0);
            }
        }
        reversed
    }
}

} // verus!
