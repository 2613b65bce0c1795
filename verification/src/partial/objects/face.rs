//! Partial faces.

use vstd::prelude::*;
use crate::objects::cycle::Cycle;
use crate::objects::edge::HalfEdge;
use crate::objects::face::{Color, Face, FaceView};
use crate::objects::store::{Objects, ObjectsView};
use crate::objects::surface::Surface;
use crate::partial::traits::{HasPartial, PartialObject};
use crate::partial::{FullToPartialCache, Partial};
use crate::storage::Handle;

verus! {

/// A partial face.
pub struct PartialFace {
    /// The surface that the face lies on
    pub surface: Option<Handle<Surface>>,
    /// The cycle that bounds the face on the outside
    pub exterior: Partial<Cycle>,
    /// The cycles that bound the holes of the face
    pub interiors: Vec<Partial<Cycle>>,
    /// The color of the face
    pub color: Option<Color>,
}

/// The number of the cycles that do not exist yet.
pub open spec fn spec_fresh_count(cycles: Seq<Partial<Cycle>>) -> nat
    decreases cycles.len(),
{
    if cycles.len() == 0 {
        0
    } else {
        spec_fresh_count(cycles.drop_last()) + if cycles.last() is Fresh {
            1nat
        } else {
            0nat
        }
    }
}

/// The handles that building the cycles in order gives, in a store that
/// holds `held` cycles before the first is built.
pub open spec fn spec_built_cycles(cycles: Seq<Partial<Cycle>>, held: nat) -> Seq<Handle<Cycle>> {
    Seq::new(
        cycles.len(),
        |i: int| cycles[i].spec_built(held + spec_fresh_count(cycles.subrange(0, i))),
    )
}

/// Whether `after` is `before` with `count` cycles without half-edges
/// inserted, and nothing else.
pub open spec fn spec_empty_cycles_added(
    before: ObjectsView,
    after: ObjectsView,
    count: nat,
) -> bool {
    &&& after == (ObjectsView { cycles: after.cycles, ..before })
    &&& after.cycles.len() == before.cycles.len() + count
    &&& before.cycles.is_prefix_of(after.cycles)
    &&& forall|i: int|
        before.cycles.len() <= i < after.cycles.len() ==> #[trigger] after.cycles[i]
            == Seq::<Handle<HalfEdge>>::empty()
}

impl PartialFace {
    /// The color that building gives: the one that is set, or the default.
    pub open spec fn spec_built_color(self) -> Color {
        match self.color {
            Some(color) => color,
            None => Color::spec_default(),
        }
    }

    /// What the face holds that building gives, in a store that holds `held`
    /// cycles.
    pub open spec fn spec_built(self, held: nat) -> FaceView {
        FaceView {
            surface: self.surface->0,
            exterior: self.exterior.spec_built(held),
            interiors: spec_built_cycles(
                self.interiors@,
                held + spec_fresh_count(seq![self.exterior]),
            ),
            color: self.spec_built_color(),
        }
    }
}

impl HasPartial for Face {
    type Partial = PartialFace;
}

impl PartialObject for PartialFace {
    type Full = Face;

    open spec fn new_ensures(before: ObjectsView, after: ObjectsView, partial: Self) -> bool {
        &&& after == before
        &&& partial.surface is None
        &&& partial.exterior is Fresh
        &&& partial.interiors@.len() == 0
        &&& partial.color is None
    }

    open spec fn spec_mirrors(self, full: &Face) -> bool {
        &&& self.surface == Some(full@.surface)
        &&& self.exterior == Partial::Existing(full@.exterior)
        &&& self.interiors@.len() == full@.interiors.len()
        &&& forall|i: int|
            0 <= i < full@.interiors.len() ==> #[trigger] self.interiors@[i] == Partial::Existing(
                full@.interiors[i],
            )
        &&& self.color == Some(full@.color)
    }

    open spec fn build_requires(self, objects: ObjectsView) -> bool {
        self.surface is Some
    }

    open spec fn build_ensures(self, before: ObjectsView, after: ObjectsView, full: Face) -> bool {
        &&& full@ == self.spec_built(before.cycles.len())
        &&& spec_empty_cycles_added(
            before,
            after,
            spec_fresh_count(seq![self.exterior]) + spec_fresh_count(self.interiors@),
        )
    }

    fn new(objects: &mut Objects) -> (partial: Self) {
        PartialFace { surface: None, exterior: Partial::Fresh, interiors: Vec::new(), color: None }
    }

    fn from_full(face: &Face, cache: &mut FullToPartialCache) -> (partial: Self)
        ensures
            final(cache).spec_cycles() == old(cache).spec_cycles().union(
                face@.all_cycles().to_set(),
            ),
            final(cache).spec_vertices() == old(cache).spec_vertices(),
    {
        let ghost before = cache.spec_cycles();
        let exterior = Partial::<Cycle>::from_full(*face.exterior(), cache);
        let full_interiors = face.interiors();
        let mut interiors: Vec<Partial<Cycle>> = Vec::new();
        let mut i: usize = 0;
        assert(before.insert(face@.exterior) =~= before.union(
            (seq![face@.exterior] + full_interiors@.subrange(0, 0)).to_set(),
        )) by {
            let first = seq![face@.exterior] + full_interiors@.subrange(0, 0);
            assert(first =~= seq![face@.exterior]);
            assert(first[0] == face@.exterior);
        }
        while i < full_interiors.len()
            invariant
                i <= full_interiors@.len(),
                full_interiors@ == face@.interiors,
                interiors@.len() == i,
                forall|k: int|
                    0 <= k < i ==> #[trigger] interiors@[k] == Partial::Existing(
                        full_interiors@[k],
                    ),
                cache.spec_vertices() == old(cache).spec_vertices(),
                cache.spec_cycles() == before.union(
                    (seq![face@.exterior] + full_interiors@.subrange(0, i as int)).to_set(),
                ),
            decreases full_interiors@.len() - i,
        {
            let ghost seen = seq![face@.exterior] + full_interiors@.subrange(0, i as int);
            interiors.push(Partial::<Cycle>::from_full(full_interiors[i], cache));
            i += 1;
            proof {
                let next = seq![face@.exterior] + full_interiors@.subrange(0, i as int);
                assert(next =~= seen.push(full_interiors@[i - 1]));
                assert(next.to_set() =~= seen.to_set().insert(full_interiors@[i - 1])) by {
                    assert forall|h: Handle<Cycle>|
                        next.to_set().contains(h) <==> seen.to_set().insert(
                            full_interiors@[i - 1],
                        ).contains(h) by {
                        if seen.contains(h) {
                            let k = choose|k: int| 0 <= k < seen.len() && seen[k] == h;
                            assert(next[k] == h);
                        }
                        if h == full_interiors@[i - 1] {
                            assert(next[next.len() - 1] == h);
                        }
                        if next.contains(h) {
                            let k = choose|k: int| 0 <= k < next.len() && next[k] == h;
                            if k < seen.len() {
                                assert(seen[k] == h);
                            }
                        }
                    }
                }
                assert(cache.spec_cycles() =~= before.union(next.to_set()));
            }
        }
        assert(full_interiors@.subrange(0, i as int) =~= full_interiors@);
        PartialFace {
            surface: Some(*face.surface()),
            exterior,
            interiors,
            color: Some(face.color()),
        }
    }

    fn build(self, objects: &mut Objects) -> (full: Face) {
        let ghost before = objects@;
        let ghost held = before.cycles.len();
        let surface = match self.surface {
            Some(surface) => surface,
            None => vstd::pervasive::unreached(),
        };
        let exterior = self.exterior.build(objects);
        let ghost first = spec_fresh_count(seq![self.exterior]);
        proof {
            assert(seq![self.exterior].drop_last() =~= Seq::<Partial<Cycle>>::empty());
            assert(spec_fresh_count(Seq::<Partial<Cycle>>::empty()) == 0);
            assert(first == if self.exterior is Fresh {
                1nat
            } else {
                0nat
            });
            assert(self.interiors@.subrange(0, 0) =~= Seq::<Partial<Cycle>>::empty());
        }
        let mut interiors: Vec<Handle<Cycle>> = Vec::new();
        let mut i: usize = 0;
        while i < self.interiors.len()
            invariant
                i <= self.interiors@.len(),
                interiors@.len() == i,
                held == before.cycles.len(),
                spec_empty_cycles_added(
                    before,
                    objects@,
                    first + spec_fresh_count(self.interiors@.subrange(0, i as int)),
                ),
                forall|k: int|
                    0 <= k < i ==> #[trigger] interiors@[k] == spec_built_cycles(
                        self.interiors@,
                        held + first,
                    )[k],
            decreases self.interiors@.len() - i,
        {
            let ghost seen = self.interiors@.subrange(0, i as int);
            let ghost grown = objects@;
            let handle = self.interiors[i].build(objects);
            interiors.push(handle);
            i += 1;
            proof {
                let next = self.interiors@.subrange(0, i as int);
                assert(next.drop_last() =~= seen);
                assert(next.last() == self.interiors@[i - 1]);
                if self.interiors@[i - 1] is Fresh {
                    assert forall|x: int|
                        before.cycles.len() <= x < objects@.cycles.len() implies (
                    #[trigger] objects@.cycles[x]) == Seq::<Handle<HalfEdge>>::empty() by {
                        if x < grown.cycles.len() {
                            assert(objects@.cycles.drop_last()[x] == grown.cycles[x]);
                        }
                    }
                }
            }
        }
        assert(self.interiors@.subrange(0, i as int) =~= self.interiors@);
        let color = match self.color {
            Some(color) => color,
            None => Color::default(),
        };
        let full = Face::new(surface, exterior, interiors, color);
        assert(full@.interiors =~= spec_built_cycles(self.interiors@, held + first));
        full
    }
}

/// A face that is taken into its partial form and built again holds what it
/// held, and no object is inserted on the way.
pub proof fn lemma_face_round_trip(
    face: Face,
    partial: PartialFace,
    before: ObjectsView,
    after: ObjectsView,
    built: Face,
)
    requires
        partial.spec_mirrors(&face),
        partial.build_ensures(before, after, built),
    ensures
        partial.build_requires(before),
        built@ == face@,
        after == before,
{
    lemma_no_fresh(seq![partial.exterior]);
    lemma_no_fresh(partial.interiors@);
    assert forall|i: int| 0 <= i < face@.interiors.len() implies built@.interiors[i]
        == face@.interiors[i] by {
        assert(partial.interiors@[i] == Partial::Existing(face@.interiors[i]));
    }
    assert(built@.interiors =~= face@.interiors);
    assert(after.cycles =~= before.cycles);
}

/// Of cycles that all exist none is fresh.
pub proof fn lemma_no_fresh(cycles: Seq<Partial<Cycle>>)
    requires
        forall|i: int| 0 <= i < cycles.len() ==> #[trigger] cycles[i] is Existing,
    ensures
        spec_fresh_count(cycles) == 0,
    decreases cycles.len(),
{
    if cycles.len() > 0 {
        assert(cycles.last() == cycles[cycles.len() - 1]);
        lemma_no_fresh(cycles.drop_last());
    }
}

} // verus!
