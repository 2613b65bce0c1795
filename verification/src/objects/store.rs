//! The object store.

use vstd::prelude::*;
use crate::objects::cycle::Cycle;
use crate::objects::edge::{GlobalEdge, HalfEdge};
use crate::objects::face::{Face, FaceView};
use crate::objects::shell::Shell;
use crate::objects::surface::Surface;
use crate::objects::vertex::Vertex;
use crate::storage::Handle;

verus! {

/// The store that owns every object and gives each its identity.
///
/// An object is inserted once and never changed or removed; the handle that
/// the insertion returns reaches it for as long as the store lives. Nothing
/// is compared on insertion: two insertions give two identities, whatever
/// the objects hold.
///
/// An object can only be inserted if the store issued every handle that it
/// holds. So no stored object ever refers to anything that is not there.
pub struct Objects {
    vertices: Vec<Vertex>,
    global_edges: Vec<GlobalEdge>,
    half_edges: Vec<HalfEdge>,
    cycles: Vec<Cycle>,
    surfaces: Vec<Surface>,
    faces: Vec<Face>,
    shells: Vec<Shell>,
}

/// What a store holds: of each kind the objects in the order of their
/// insertion, so that the id of a handle is the place of its object.
pub struct ObjectsView {
    /// The number of vertices
    pub vertices: nat,
    /// The number of global edges
    pub global_edges: nat,
    /// The half-edges
    pub half_edges: Seq<HalfEdge>,
    /// The half-edges of each cycle
    pub cycles: Seq<Seq<Handle<HalfEdge>>>,
    /// The surfaces
    pub surfaces: Seq<Surface>,
    /// What each face holds
    pub faces: Seq<FaceView>,
    /// The faces of each shell
    pub shells: Seq<Seq<Handle<Face>>>,
}

impl ObjectsView {
    /// Whether the store issued this handle.
    pub open spec fn has_vertex(self, h: Handle<Vertex>) -> bool {
        h.spec_id() < self.vertices
    }

    /// Whether the store issued this handle.
    pub open spec fn has_global_edge(self, h: Handle<GlobalEdge>) -> bool {
        h.spec_id() < self.global_edges
    }

    /// Whether the store issued this handle.
    pub open spec fn has_half_edge(self, h: Handle<HalfEdge>) -> bool {
        h.spec_id() < self.half_edges.len()
    }

    /// Whether the store issued this handle.
    pub open spec fn has_cycle(self, h: Handle<Cycle>) -> bool {
        h.spec_id() < self.cycles.len()
    }

    /// Whether the store issued this handle.
    pub open spec fn has_surface(self, h: Handle<Surface>) -> bool {
        h.spec_id() < self.surfaces.len()
    }

    /// Whether the store issued this handle.
    pub open spec fn has_face(self, h: Handle<Face>) -> bool {
        h.spec_id() < self.faces.len()
    }

    /// Whether the store issued this handle.
    pub open spec fn has_shell(self, h: Handle<Shell>) -> bool {
        h.spec_id() < self.shells.len()
    }

    /// The half-edge that the handle refers to.
    pub open spec fn half_edge(self, h: Handle<HalfEdge>) -> HalfEdge {
        self.half_edges[h.spec_id() as int]
    }

    /// The half-edges of the cycle that the handle refers to.
    pub open spec fn cycle(self, h: Handle<Cycle>) -> Seq<Handle<HalfEdge>> {
        self.cycles[h.spec_id() as int]
    }

    /// The half-edges that the handles refer to.
    pub open spec fn half_edges_of(self, handles: Seq<Handle<HalfEdge>>) -> Seq<HalfEdge> {
        Seq::new(handles.len(), |i: int| self.half_edge(handles[i]))
    }

    /// The surface that the handle refers to.
    pub open spec fn surface(self, h: Handle<Surface>) -> Surface {
        self.surfaces[h.spec_id() as int]
    }

    /// The face that the handle refers to.
    pub open spec fn face(self, h: Handle<Face>) -> FaceView {
        self.faces[h.spec_id() as int]
    }

    /// The faces of the shell that the handle refers to.
    pub open spec fn shell(self, h: Handle<Shell>) -> Seq<Handle<Face>> {
        self.shells[h.spec_id() as int]
    }

    /// Whether the store issued the handles that the half-edge holds.
    pub open spec fn holds_half_edge(self, e: HalfEdge) -> bool {
        self.has_vertex(e.start_vertex) && self.has_global_edge(e.global_form)
    }

    /// Whether the store issued the handles that the cycle holds.
    pub open spec fn holds_cycle(self, c: Seq<Handle<HalfEdge>>) -> bool {
        forall|i: int| 0 <= i < c.len() ==> self.has_half_edge(#[trigger] c[i])
    }

    /// Whether the store issued the handles that the face holds.
    pub open spec fn holds_face(self, f: FaceView) -> bool {
        &&& self.has_surface(f.surface)
        &&& self.has_cycle(f.exterior)
        &&& forall|i: int| 0 <= i < f.interiors.len() ==> self.has_cycle(#[trigger] f.interiors[i])
    }

    /// Whether the store issued the handles that the shell holds.
    pub open spec fn holds_shell(self, s: Seq<Handle<Face>>) -> bool {
        forall|i: int| 0 <= i < s.len() ==> self.has_face(#[trigger] s[i])
    }

    /// Whether every handle inside a stored object was issued by this store:
    /// no object refers to anything that is not there.
    pub open spec fn wf(self) -> bool {
        &&& forall|i: int|
            0 <= i < self.half_edges.len() ==> self.holds_half_edge(#[trigger] self.half_edges[i])
        &&& forall|i: int|
            0 <= i < self.cycles.len() ==> self.holds_cycle(#[trigger] self.cycles[i])
        &&& forall|i: int| 0 <= i < self.faces.len() ==> self.holds_face(#[trigger] self.faces[i])
        &&& forall|i: int|
            0 <= i < self.shells.len() ==> self.holds_shell(#[trigger] self.shells[i])
    }

    /// Whether `self` holds all that `old` held, under the same handles.
    pub open spec fn extends(self, old: ObjectsView) -> bool {
        &&& old.vertices <= self.vertices
        &&& old.global_edges <= self.global_edges
        &&& old.half_edges.is_prefix_of(self.half_edges)
        &&& old.cycles.is_prefix_of(self.cycles)
        &&& old.surfaces.is_prefix_of(self.surfaces)
        &&& old.faces.is_prefix_of(self.faces)
        &&& old.shells.is_prefix_of(self.shells)
    }
}

/// What a store held stays held, under the same handles, when more is
/// inserted; and if every new object holds only handles that the store has
/// issued by then, the store stays well-formed.
pub proof fn lemma_more_is_held(before: ObjectsView, after: ObjectsView)
    requires
        before.wf(),
        after.extends(before),
        forall|i: int|
            before.half_edges.len() <= i < after.half_edges.len() ==> after.holds_half_edge(
                #[trigger] after.half_edges[i],
            ),
        forall|i: int|
            before.cycles.len() <= i < after.cycles.len() ==> after.holds_cycle(
                #[trigger] after.cycles[i],
            ),
        forall|i: int|
            before.faces.len() <= i < after.faces.len() ==> after.holds_face(
                #[trigger] after.faces[i],
            ),
        forall|i: int|
            before.shells.len() <= i < after.shells.len() ==> after.holds_shell(
                #[trigger] after.shells[i],
            ),
    ensures
        after.wf(),
{
    assert forall|i: int| 0 <= i < after.half_edges.len() implies after.holds_half_edge(
        #[trigger] after.half_edges[i],
    ) by {
        if i < before.half_edges.len() {
            assert(after.half_edges[i] == before.half_edges[i]);
            assert(before.holds_half_edge(before.half_edges[i]));
        }
    }
    assert forall|i: int| 0 <= i < after.cycles.len() implies after.holds_cycle(
        #[trigger] after.cycles[i],
    ) by {
        if i < before.cycles.len() {
            assert(after.cycles[i] == before.cycles[i]);
            assert(before.holds_cycle(before.cycles[i]));
        }
    }
    assert forall|i: int| 0 <= i < after.faces.len() implies after.holds_face(
        #[trigger] after.faces[i],
    ) by {
        if i < before.faces.len() {
            assert(after.faces[i] == before.faces[i]);
            assert(before.holds_face(before.faces[i]));
        }
    }
    assert forall|i: int| 0 <= i < after.shells.len() implies after.holds_shell(
        #[trigger] after.shells[i],
    ) by {
        if i < before.shells.len() {
            assert(after.shells[i] == before.shells[i]);
            assert(before.holds_shell(before.shells[i]));
        }
    }
}

impl View for Objects {
    type V = ObjectsView;

    closed spec fn view(&self) -> ObjectsView {
        ObjectsView {
            vertices: self.vertices@.len(),
            global_edges: self.global_edges@.len(),
            half_edges: self.half_edges@,
            cycles: self.cycles@.map_values(|cycle: Cycle| cycle@),
            surfaces: self.surfaces@,
            faces: self.faces@.map_values(|face: Face| face@),
            shells: self.shells@.map_values(|shell: Shell| shell@),
        }
    }
}

impl Objects {
    /// Every handle inside a stored object was issued by this store.
    #[verifier::type_invariant]
    pub open spec fn inv(self) -> bool {
        self@.wf()
    }

    /// The number of the objects of each kind fits a machine word, and so
    /// does every id that the store has issued.
    pub proof fn lemma_fits(&self)
        ensures
            self@.vertices <= usize::MAX,
            self@.global_edges <= usize::MAX,
            self@.half_edges.len() <= usize::MAX,
            self@.cycles.len() <= usize::MAX,
            self@.surfaces.len() <= usize::MAX,
            self@.faces.len() <= usize::MAX,
            self@.shells.len() <= usize::MAX,
    {
        assert(self.vertices@.len() == self.vertices.len());
        assert(self.global_edges@.len() == self.global_edges.len());
        assert(self.half_edges@.len() == self.half_edges.len());
        assert(self.cycles@.len() == self.cycles.len());
        assert(self.surfaces@.len() == self.surfaces.len());
        assert(self.faces@.len() == self.faces.len());
        assert(self.shells@.len() == self.shells.len());
    }

    /// An empty store.
    pub fn new() -> (objects: Objects)
        ensures
            objects@.vertices == 0,
            objects@.global_edges == 0,
            objects@.half_edges.len() == 0,
            objects@.cycles.len() == 0,
            objects@.surfaces.len() == 0,
            objects@.faces.len() == 0,
            objects@.shells.len() == 0,
            objects@.wf(),
    {
        Objects {
            vertices: Vec::new(),
            global_edges: Vec::new(),
            half_edges: Vec::new(),
            cycles: Vec::new(),
            surfaces: Vec::new(),
            faces: Vec::new(),
            shells: Vec::new(),
        }
    }

    /// Takes everything out of the store, which is left empty.
    fn take(&mut self) -> (taken: Objects)
        ensures
            taken@ == old(self)@,
            taken@.wf(),
    {
        proof {
            use_type_invariant(&*self);
        }
        let mut taken = Objects::new();
        core::mem::swap(self, &mut taken);
        taken
    }

    /// Stores a vertex and gives it a fresh identity.
    pub fn insert_vertex(&mut self, vertex: Vertex) -> (h: Handle<Vertex>)
        ensures
            h.spec_id() == old(self)@.vertices,
            h == Handle::<Vertex>::spec_from_id(old(self)@.vertices as nat),
            !old(self)@.has_vertex(h),
            final(self)@.has_vertex(h),
            final(self)@ == (ObjectsView { vertices: old(self)@.vertices + 1, ..old(self)@ }),
            final(self)@.wf(),
    {
        let ghost before = self@;
        let Objects {
            mut vertices,
            global_edges,
            half_edges,
            cycles,
            surfaces,
            faces,
            shells,
        } = self.take();
        let id = vertices.len();
        let ghost after = ObjectsView { vertices: before.vertices + 1, ..before };
        proof {
            lemma_more_is_held(before, after);
        }
        vertices.push(vertex);
        *self = Objects { vertices, global_edges, half_edges, cycles, surfaces, faces, shells };
        Handle::from_id(id)
    }

    /// Stores a global edge and gives it a fresh identity.
    pub fn insert_global_edge(&mut self, global_edge: GlobalEdge) -> (h: Handle<GlobalEdge>)
        ensures
            h.spec_id() == old(self)@.global_edges,
            h == Handle::<GlobalEdge>::spec_from_id(old(self)@.global_edges as nat),
            !old(self)@.has_global_edge(h),
            final(self)@.has_global_edge(h),
            final(self)@ == (ObjectsView {
                global_edges: old(self)@.global_edges + 1,
                ..old(self)@
            }),
            final(self)@.wf(),
    {
        let ghost before = self@;
        let Objects {
            vertices,
            mut global_edges,
            half_edges,
            cycles,
            surfaces,
            faces,
            shells,
        } = self.take();
        let id = global_edges.len();
        let ghost after = ObjectsView { global_edges: before.global_edges + 1, ..before };
        proof {
            lemma_more_is_held(before, after);
        }
        global_edges.push(global_edge);
        *self = Objects { vertices, global_edges, half_edges, cycles, surfaces, faces, shells };
        Handle::from_id(id)
    }

    /// Stores a half-edge and gives it a fresh identity.
    pub fn insert_half_edge(&mut self, half_edge: HalfEdge) -> (h: Handle<HalfEdge>)
        requires
            old(self)@.holds_half_edge(half_edge),
        ensures
            h.spec_id() == old(self)@.half_edges.len(),
            h == Handle::<HalfEdge>::spec_from_id(old(self)@.half_edges.len() as nat),
            !old(self)@.has_half_edge(h),
            final(self)@.has_half_edge(h),
            final(self)@ == (ObjectsView {
                half_edges: old(self)@.half_edges.push(half_edge),
                ..old(self)@
            }),
            final(self)@.wf(),
    {
        let ghost before = self@;
        let Objects {
            vertices,
            global_edges,
            mut half_edges,
            cycles,
            surfaces,
            faces,
            shells,
        } = self.take();
        let id = half_edges.len();
        let ghost after = ObjectsView { half_edges: before.half_edges.push(half_edge), ..before };
        proof {
            lemma_more_is_held(before, after);
        }
        half_edges.push(half_edge);
        *self = Objects { vertices, global_edges, half_edges, cycles, surfaces, faces, shells };
        Handle::from_id(id)
    }

    /// Stores a cycle and gives it a fresh identity.
    pub fn insert_cycle(&mut self, cycle: Cycle) -> (h: Handle<Cycle>)
        requires
            old(self)@.holds_cycle(cycle@),
        ensures
            h.spec_id() == old(self)@.cycles.len(),
            h == Handle::<Cycle>::spec_from_id(old(self)@.cycles.len() as nat),
            !old(self)@.has_cycle(h),
            final(self)@.has_cycle(h),
            final(self)@ == (ObjectsView { cycles: old(self)@.cycles.push(cycle@), ..old(self)@ }),
            final(self)@.wf(),
    {
        let ghost before = self@;
        let Objects {
            vertices,
            global_edges,
            half_edges,
            mut cycles,
            surfaces,
            faces,
            shells,
        } = self.take();
        let id = cycles.len();
        let ghost after = ObjectsView { cycles: before.cycles.push(cycle@), ..before };
        proof {
            lemma_more_is_held(before, after);
        }
        cycles.push(cycle);
        assert(cycles@.map_values(|cycle: Cycle| cycle@) =~= after.cycles);
        *self = Objects { vertices, global_edges, half_edges, cycles, surfaces, faces, shells };
        Handle::from_id(id)
    }

    /// Stores a surface and gives it a fresh identity.
    pub fn insert_surface(&mut self, surface: Surface) -> (h: Handle<Surface>)
        ensures
            h.spec_id() == old(self)@.surfaces.len(),
            h == Handle::<Surface>::spec_from_id(old(self)@.surfaces.len() as nat),
            !old(self)@.has_surface(h),
            final(self)@.has_surface(h),
            final(self)@ == (ObjectsView {
                surfaces: old(self)@.surfaces.push(surface),
                ..old(self)@
            }),
            final(self)@.wf(),
    {
        let ghost before = self@;
        let Objects {
            vertices,
            global_edges,
            half_edges,
            cycles,
            mut surfaces,
            faces,
            shells,
        } = self.take();
        let id = surfaces.len();
        let ghost after = ObjectsView { surfaces: before.surfaces.push(surface), ..before };
        proof {
            lemma_more_is_held(before, after);
        }
        surfaces.push(surface);
        *self = Objects { vertices, global_edges, half_edges, cycles, surfaces, faces, shells };
        Handle::from_id(id)
    }

    /// Stores a face and gives it a fresh identity.
    pub fn insert_face(&mut self, face: Face) -> (h: Handle<Face>)
        requires
            old(self)@.holds_face(face@),
        ensures
            h.spec_id() == old(self)@.faces.len(),
            h == Handle::<Face>::spec_from_id(old(self)@.faces.len() as nat),
            !old(self)@.has_face(h),
            final(self)@.has_face(h),
            final(self)@ == (ObjectsView { faces: old(self)@.faces.push(face@), ..old(self)@ }),
            final(self)@.wf(),
    {
        let ghost before = self@;
        let Objects {
            vertices,
            global_edges,
            half_edges,
            cycles,
            surfaces,
            mut faces,
            shells,
        } = self.take();
        let id = faces.len();
        let ghost after = ObjectsView { faces: before.faces.push(face@), ..before };
        proof {
            lemma_more_is_held(before, after);
        }
        faces.push(face);
        assert(faces@.map_values(|face: Face| face@) =~= after.faces);
        *self = Objects { vertices, global_edges, half_edges, cycles, surfaces, faces, shells };
        Handle::from_id(id)
    }

    /// Stores a shell and gives it a fresh identity.
    pub fn insert_shell(&mut self, shell: Shell) -> (h: Handle<Shell>)
        requires
            old(self)@.holds_shell(shell@),
        ensures
            h.spec_id() == old(self)@.shells.len(),
            h == Handle::<Shell>::spec_from_id(old(self)@.shells.len() as nat),
            !old(self)@.has_shell(h),
            final(self)@.has_shell(h),
            final(self)@ == (ObjectsView { shells: old(self)@.shells.push(shell@), ..old(self)@ }),
            final(self)@.wf(),
    {
        let ghost before = self@;
        let Objects {
            vertices,
            global_edges,
            half_edges,
            cycles,
            surfaces,
            faces,
            mut shells,
        } = self.take();
        let id = shells.len();
        let ghost after = ObjectsView { shells: before.shells.push(shell@), ..before };
        proof {
            lemma_more_is_held(before, after);
        }
        shells.push(shell);
        assert(shells@.map_values(|shell: Shell| shell@) =~= after.shells);
        *self = Objects { vertices, global_edges, half_edges, cycles, surfaces, faces, shells };
        Handle::from_id(id)
    }

    /// Whether the store issued this handle.
    pub fn has_half_edge(&self, h: &Handle<HalfEdge>) -> (r: bool)
        ensures
            r == self@.has_half_edge(*h),
    {
        h.id() < self.half_edges.len()
    }

    /// Whether the store issued this handle.
    pub fn has_cycle(&self, h: &Handle<Cycle>) -> (r: bool)
        ensures
            r == self@.has_cycle(*h),
    {
        h.id() < self.cycles.len()
    }

    /// Whether the store issued this handle.
    pub fn has_surface(&self, h: &Handle<Surface>) -> (r: bool)
        ensures
            r == self@.has_surface(*h),
    {
        h.id() < self.surfaces.len()
    }

    /// Whether the store issued this handle.
    pub fn has_face(&self, h: &Handle<Face>) -> (r: bool)
        ensures
            r == self@.has_face(*h),
    {
        h.id() < self.faces.len()
    }

    /// Whether the store issued this handle.
    pub fn has_shell(&self, h: &Handle<Shell>) -> (r: bool)
        ensures
            r == self@.has_shell(*h),
    {
        h.id() < self.shells.len()
    }

    /// Whether the store issued this handle.
    pub fn has_vertex(&self, h: &Handle<Vertex>) -> (r: bool)
        ensures
            r == self@.has_vertex(*h),
    {
        h.id() < self.vertices.len()
    }

    /// Whether the store issued this handle.
    pub fn has_global_edge(&self, h: &Handle<GlobalEdge>) -> (r: bool)
        ensures
            r == self@.has_global_edge(*h),
    {
        h.id() < self.global_edges.len()
    }

    /// Whether the store issued the handles that the half-edge holds.
    pub fn holds_half_edge(&self, half_edge: &HalfEdge) -> (r: bool)
        ensures
            r == self@.holds_half_edge(*half_edge),
    {
        self.has_vertex(&half_edge.start_vertex) && self.has_global_edge(&half_edge.global_form)
    }

    /// Whether the store issued the handles that the cycle holds.
    pub fn holds_cycle(&self, cycle: &Cycle) -> (r: bool)
        ensures
            r == self@.holds_cycle(cycle@),
    {
        let half_edges = cycle.half_edges();
        let mut i: usize = 0;
        while i < half_edges.len()
            invariant
                i <= half_edges@.len(),
                half_edges@ == cycle@,
                forall|k: int| 0 <= k < i ==> self@.has_half_edge(#[trigger] half_edges@[k]),
            decreases half_edges@.len() - i,
        {
            if !self.has_half_edge(&half_edges[i]) {
                assert(!self@.has_half_edge(cycle@[i as int]));
                return false;
            }
            i += 1;
        }
        true
    }

    /// Whether the store issued the handles that the face holds.
    pub fn holds_face(&self, face: &Face) -> (r: bool)
        ensures
            r == self@.holds_face(face@),
    {
        if !self.has_surface(face.surface()) || !self.has_cycle(face.exterior()) {
            return false;
        }
        let interiors = face.interiors();
        let mut i: usize = 0;
        while i < interiors.len()
            invariant
                i <= interiors@.len(),
                interiors@ == face@.interiors,
                forall|k: int| 0 <= k < i ==> self@.has_cycle(#[trigger] interiors@[k]),
            decreases interiors@.len() - i,
        {
            if !self.has_cycle(&interiors[i]) {
                assert(!self@.has_cycle(face@.interiors[i as int]));
                return false;
            }
            i += 1;
        }
        true
    }

    /// Whether the store issued the handles that the shell holds.
    pub fn holds_shell(&self, shell: &Shell) -> (r: bool)
        ensures
            r == self@.holds_shell(shell@),
    {
        let faces = shell.faces();
        let mut i: usize = 0;
        while i < faces.len()
            invariant
                i <= faces@.len(),
                faces@ == shell@,
                forall|k: int| 0 <= k < i ==> self@.has_face(#[trigger] faces@[k]),
            decreases faces@.len() - i,
        {
            if !self.has_face(&faces[i]) {
                assert(!self@.has_face(shell@[i as int]));
                return false;
            }
            i += 1;
        }
        true
    }

    /// The half-edge that the handle refers to.
    pub fn half_edge(&self, h: &Handle<HalfEdge>) -> (e: &HalfEdge)
        requires
            self@.has_half_edge(*h),
        ensures
            *e == self@.half_edge(*h),
    {
        &self.half_edges[h.id()]
    }

    /// The cycle that the handle refers to.
    pub fn cycle(&self, h: &Handle<Cycle>) -> (c: &Cycle)
        requires
            self@.has_cycle(*h),
        ensures
            c@ == self@.cycle(*h),
    {
        &self.cycles[h.id()]
    }

    /// The surface that the handle refers to.
    pub fn surface(&self, h: &Handle<Surface>) -> (s: &Surface)
        requires
            self@.has_surface(*h),
        ensures
            *s == self@.surface(*h),
    {
        &self.surfaces[h.id()]
    }

    /// The face that the handle refers to.
    pub fn face(&self, h: &Handle<Face>) -> (f: &Face)
        requires
            self@.has_face(*h),
        ensures
            f@ == self@.face(*h),
    {
        &self.faces[h.id()]
    }

    /// The shell that the handle refers to.
    pub fn shell(&self, h: &Handle<Shell>) -> (s: &Shell)
        requires
            self@.has_shell(*h),
        ensures
            s@ == self@.shell(*h),
    {
        &self.shells[h.id()]
    }
}

} // verus!
