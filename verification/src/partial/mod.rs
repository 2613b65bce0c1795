//! Partial objects: objects under construction.
//!
//! A partial object mirrors a full object with every part optional. It has no
//! identity and is in no store. Once its parts are set it is built into the
//! full object, which is never changed again: to edit a full object, take a
//! partial object from it, change that, and build anew.

pub mod objects;
pub mod traits;

use vstd::prelude::*;
use crate::geometry::curve::Curve;
use crate::math::Scalar;
use crate::objects::cycle::Cycle;
use crate::objects::edge::HalfEdge;
use crate::objects::store::{Objects, ObjectsView};
use crate::objects::vertex::Vertex;
use crate::storage::Handle;

verus! {

/// A part of a partial object that is an object itself: one that the store
/// holds already, or one that is yet to be made.
#[derive(Debug, PartialEq, Eq, Hash)]
pub enum Partial<T> {
    /// The object exists: building gives back this handle.
    Existing(Handle<T>),
    /// The object does not exist yet: building inserts a new one.
    Fresh,
}

impl<T> Clone for Partial<T> {
    fn clone(&self) -> (p: Self)
        ensures
            p == *self,
    {
        match self {
            Partial::Existing(handle) => Partial::Existing(*handle),
            Partial::Fresh => Partial::Fresh,
        }
    }
}

impl<T> Copy for Partial<T> {

}

/// The curve of a partial half-edge, as far as it is known.
#[derive(Clone, Copy, Debug, PartialEq, Eq, Structural, Hash)]
pub enum MaybeCurve {
    /// The curve is known.
    Defined(Curve),
    /// The curve is a circle of this radius; where it lies is not known yet.
    UndefinedCircle {
        /// The radius
        radius: Scalar,
    },
    /// The curve is a line; where it lies is not known yet.
    UndefinedLine,
}

/// The objects that were taken from the store into partial objects.
///
/// Conversions pass one cache along, so that an object that several others
/// share is recorded once, and every partial object that holds it holds the
/// same handle.
pub struct FullToPartialCache {
    vertices: Vec<Handle<Vertex>>,
    cycles: Vec<Handle<Cycle>>,
}

impl FullToPartialCache {
    /// The vertices that were converted.
    pub closed spec fn spec_vertices(&self) -> Set<Handle<Vertex>> {
        self.vertices@.to_set()
    }

    /// The cycles that were converted.
    pub closed spec fn spec_cycles(&self) -> Set<Handle<Cycle>> {
        self.cycles@.to_set()
    }

    /// An empty cache.
    pub fn new() -> (cache: FullToPartialCache)
        ensures
            cache.spec_vertices() == Set::<Handle<Vertex>>::empty(),
            cache.spec_cycles() == Set::<Handle<Cycle>>::empty(),
    {
        let cache = FullToPartialCache { vertices: Vec::new(), cycles: Vec::new() };
        assert(cache.vertices@.to_set() =~= Set::<Handle<Vertex>>::empty());
        assert(cache.cycles@.to_set() =~= Set::<Handle<Cycle>>::empty());
        cache
    }

    /// Whether the vertex was converted.
    pub fn has_vertex(&self, vertex: &Handle<Vertex>) -> (r: bool)
        ensures
            r == self.spec_vertices().contains(*vertex),
    {
        let mut i: usize = 0;
        while i < self.vertices.len()
            invariant
                i <= self.vertices@.len(),
                forall|k: int| 0 <= k < i ==> self.vertices@[k] != *vertex,
            decreases self.vertices@.len() - i,
        {
            if self.vertices[i].same(vertex) {
                assert(self.vertices@.contains(*vertex));
                return true;
            }
            i += 1;
        }
        false
    }

    /// Whether the cycle was converted.
    pub fn has_cycle(&self, cycle: &Handle<Cycle>) -> (r: bool)
        ensures
            r == self.spec_cycles().contains(*cycle),
    {
        let mut i: usize = 0;
        while i < self.cycles.len()
            invariant
                i <= self.cycles@.len(),
                forall|k: int| 0 <= k < i ==> self.cycles@[k] != *cycle,
            decreases self.cycles@.len() - i,
        {
            if self.cycles[i].same(cycle) {
                assert(self.cycles@.contains(*cycle));
                return true;
            }
            i += 1;
        }
        false
    }
}

impl Default for FullToPartialCache {
    fn default() -> (cache: FullToPartialCache)
        ensures
            cache.spec_vertices() == Set::<Handle<Vertex>>::empty(),
            cache.spec_cycles() == Set::<Handle<Cycle>>::empty(),
    {
        FullToPartialCache::new()
    }
}

impl Partial<Vertex> {
    /// The handle that building gives, in a store that holds `vertices`
    /// vertices.
    pub open spec fn spec_built(self, vertices: nat) -> Handle<Vertex> {
        match self {
            Partial::Existing(handle) => handle,
            Partial::Fresh => Handle::<Vertex>::spec_from_id(vertices),
        }
    }

    /// The partial form of a vertex of the store, recorded in the cache.
    pub fn from_full(full: Handle<Vertex>, cache: &mut FullToPartialCache) -> (partial: Self)
        ensures
            partial == Partial::Existing(full),
            final(cache).spec_vertices() == old(cache).spec_vertices().insert(full),
            final(cache).spec_cycles() == old(cache).spec_cycles(),
    {
        if !cache.has_vertex(&full) {
            let ghost before = cache.vertices@;
            cache.vertices.push(full);
            assert(cache.vertices@.to_set() =~= before.to_set().insert(full)) by {
                assert forall|h: Handle<Vertex>|
                    cache.vertices@.to_set().contains(h) <==> before.to_set().insert(full).contains(
                        h,
                    ) by {
                    if before.contains(h) {
                        let k = choose|k: int| 0 <= k < before.len() && before[k] == h;
                        assert(cache.vertices@[k] == h);
                    }
                    if h == full {
                        assert(cache.vertices@[before.len() as int] == h);
                    }
                    if cache.vertices@.contains(h) {
                        let k = choose|k: int|
                            0 <= k < cache.vertices@.len() && cache.vertices@[k] == h;
                        if k < before.len() {
                            assert(before[k] == h);
                        }
                    }
                }
            }
        } else {
            assert(cache.spec_vertices().insert(full) =~= cache.spec_vertices());
        }
        Partial::Existing(full)
    }

    /// The vertex itself: the one that exists, or a new one, inserted.
    pub fn build(self, objects: &mut Objects) -> (vertex: Handle<Vertex>)
        ensures
            vertex == self.spec_built(old(objects)@.vertices),
            self is Existing ==> final(objects)@ == old(objects)@,
            self is Fresh ==> final(objects)@ == (ObjectsView {
                vertices: old(objects)@.vertices + 1,
                ..old(objects)@
            }),
            (self matches Partial::Existing(given) ==> old(objects)@.has_vertex(given))
                ==> final(objects)@.has_vertex(vertex),
    {
        match self {
            Partial::Existing(handle) => handle,
            Partial::Fresh => objects.insert_vertex(Vertex::new()),
        }
    }
}

impl Partial<Cycle> {
    /// The handle that building gives, in a store that holds `cycles`
    /// cycles.
    pub open spec fn spec_built(self, cycles: nat) -> Handle<Cycle> {
        match self {
            Partial::Existing(handle) => handle,
            Partial::Fresh => Handle::<Cycle>::spec_from_id(cycles),
        }
    }

    /// The partial form of a cycle of the store, recorded in the cache.
    pub fn from_full(full: Handle<Cycle>, cache: &mut FullToPartialCache) -> (partial: Self)
        ensures
            partial == Partial::Existing(full),
            final(cache).spec_cycles() == old(cache).spec_cycles().insert(full),
            final(cache).spec_vertices() == old(cache).spec_vertices(),
    {
        if !cache.has_cycle(&full) {
            let ghost before = cache.cycles@;
            cache.cycles.push(full);
            assert(cache.cycles@.to_set() =~= before.to_set().insert(full)) by {
                assert forall|h: Handle<Cycle>|
                    cache.cycles@.to_set().contains(h) <==> before.to_set().insert(full).contains(
                        h,
                    ) by {
                    if before.contains(h) {
                        let k = choose|k: int| 0 <= k < before.len() && before[k] == h;
                        assert(cache.cycles@[k] == h);
                    }
                    if h == full {
                        assert(cache.cycles@[before.len() as int] == h);
                    }
                    if cache.cycles@.contains(h) {
                        let k = choose|k: int|
                            0 <= k < cache.cycles@.len() && cache.cycles@[k] == h;
                        if k < before.len() {
                            assert(before[k] == h);
                        }
                    }
                }
            }
        } else {
            assert(cache.spec_cycles().insert(full) =~= cache.spec_cycles());
        }
        Partial::Existing(full)
    }

    /// The cycle itself: the one that exists, or a new one without
    /// half-edges, inserted.
    pub fn build(self, objects: &mut Objects) -> (cycle: Handle<Cycle>)
        ensures
            cycle == self.spec_built(old(objects)@.cycles.len()),
            self is Existing ==> final(objects)@ == old(objects)@,
            self is Fresh ==> final(objects)@.cycles.len() == old(objects)@.cycles.len() + 1
                && final(objects)@.cycles.last() == Seq::<Handle<HalfEdge>>::empty()
                && old(objects)@.cycles == final(objects)@.cycles.drop_last() && final(objects)@
                == (ObjectsView { cycles: final(objects)@.cycles, ..old(objects)@ }),
            (self matches Partial::Existing(given) ==> old(objects)@.has_cycle(given))
                ==> final(objects)@.has_cycle(cycle),
    {
        match self {
            Partial::Existing(handle) => handle,
            Partial::Fresh => {
                let handle = objects.insert_cycle(Cycle::new(Vec::new()));
                assert(old(objects)@.cycles =~= objects@.cycles.drop_last());
                handle
            },
        }
    }
}

} // verus!
