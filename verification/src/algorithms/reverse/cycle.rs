//! Reversal of cycles.

use vstd::prelude::*;
use crate::algorithms::reverse::Reverse;
use crate::math::Winding;
use crate::objects::cycle::{
    lemma_next_place, spec_circular_winding, spec_shoelace, spec_shoelace_term,
    spec_start_positions, spec_winding, Cycle, InvalidCycle,
};
use crate::objects::edge::HalfEdge;
use crate::objects::store::{Objects, ObjectsView};
use crate::storage::Handle;
use crate::windows::circular_pairs;

verus! {

/// The half-edge that traces `current` the other way: on the same curve and
/// the same global edge, with the boundary swapped, starting where `current`
/// ends, which is where `next` starts.
pub open spec fn spec_reversed_edge(current: HalfEdge, next: HalfEdge) -> HalfEdge {
    HalfEdge {
        curve: current.curve,
        boundary: [current.boundary[1], current.boundary[0]],
        start_vertex: next.start_vertex,
        global_form: current.global_form,
    }
}

/// Every half-edge traced the other way, with the half-edge after it in the
/// cycle as `next`, in the order of the given half-edges.
pub open spec fn spec_flipped_edges(half_edges: Seq<HalfEdge>) -> Seq<HalfEdge> {
    let n = half_edges.len() as int;
    Seq::new(half_edges.len(), |i: int| spec_reversed_edge(half_edges[i], half_edges[(i + 1) % n]))
}

/// The half-edges of the reversed cycle: every half-edge traced the other
/// way, in the opposite order.
pub open spec fn spec_reversed(half_edges: Seq<HalfEdge>) -> Seq<HalfEdge> {
    spec_flipped_edges(half_edges).reverse()
}

/// Whether every half-edge ends at the position where the half-edge after
/// it starts, the last where the first starts.
pub open spec fn spec_connected(half_edges: Seq<HalfEdge>) -> bool {
    forall|i: int|
        0 <= i < half_edges.len() ==> (#[trigger] half_edges[i]).spec_end_position()
            == half_edges[(i + 1) % (half_edges.len() as int)].spec_start_position()
}

/// Whether every half-edge of the cycle ends at the position where the
/// half-edge after it starts, the last where the first starts.
pub fn is_connected(cycle: &Cycle, objects: &Objects) -> (r: bool)
    requires
        objects@.holds_cycle(cycle@),
    ensures
        r == spec_connected(objects@.half_edges_of(cycle@)),
{
    let half_edges = cycle.half_edges();
    let n = half_edges.len();
    let ghost values = objects@.half_edges_of(cycle@);
    let pairs = circular_pairs(n);
    let mut k: usize = 0;
    while k < n
        invariant
            k <= n,
            n == half_edges@.len(),
            n == pairs@.len(),
            half_edges@ == cycle@,
            objects@.holds_cycle(cycle@),
            values == objects@.half_edges_of(cycle@),
            forall|i: int|
                0 <= i < n ==> (#[trigger] pairs@[i]).0 == i && pairs@[i].1 == (i + 1) % (n as int),
            forall|i: int|
                0 <= i < k ==> (#[trigger] values[i]).spec_end_position() == values[(i + 1) % (
                n as int)].spec_start_position(),
        decreases n - k,
    {
        let (i, j) = pairs[k];
        assert(i == k && j == (k + 1) % (n as int));
        let current = objects.half_edge(&half_edges[i]);
        let next = objects.half_edge(&half_edges[j]);
        assert(*current == values[k as int]);
        assert(*next == values[(k + 1) % (n as int)]);
        let end = current.end_position();
        let start = next.start_position();
        if end.u != start.u || end.v != start.v {
            assert(values[k as int].spec_end_position() != values[(k + 1) % (
            n as int)].spec_start_position());
            return false;
        }
        k += 1;
    }
    true
}

/// Reversing a cycle twice gives the cycle back: the same curves, boundaries,
/// start vertices and global edges, in the same order.
pub proof fn lemma_reverse_twice(half_edges: Seq<HalfEdge>)
    ensures
        spec_reversed(spec_reversed(half_edges)) == half_edges,
{
    let n = half_edges.len() as int;
    let once = spec_reversed(half_edges);
    let twice = spec_reversed(once);
    assert forall|j: int| 0 <= j < n implies twice[j] == half_edges[j] by {
        let k = (n - j) % n;
        lemma_next_place(n - 1 - j, n);
        lemma_next_place(j, n);
        assert(twice[j] == spec_reversed_edge(once[n - 1 - j], once[k]));
        assert(once[n - 1 - j] == spec_reversed_edge(half_edges[j], half_edges[(j + 1) % n]));
        if j == 0 {
            assert(k == 0);
            lemma_next_place(n - 1, n);
            assert(once[0] == spec_reversed_edge(half_edges[n - 1], half_edges[0]));
        } else {
            assert(k == n - j);
            lemma_next_place(j - 1, n);
            assert(once[k] == spec_reversed_edge(half_edges[j - 1], half_edges[j]));
        }
        assert(twice[j].boundary =~= half_edges[j].boundary);
    }
    assert(twice =~= half_edges);
}

/// The steps round a polygon whose corners are taken in the opposite order
/// are the steps round the polygon itself, each made backwards.
proof fn lemma_shoelace_backwards(corners: Seq<(int, int)>, opposite: Seq<(int, int)>, m: int)
    requires
        corners.len() >= 1,
        opposite.len() == corners.len(),
        forall|j: int|
            0 <= j < corners.len() ==> #[trigger] opposite[j] == corners[(corners.len() - j) % (
            corners.len() as int)],
        0 <= m <= corners.len(),
    ensures
        spec_shoelace(opposite, m) == spec_shoelace(corners, corners.len() - m) - spec_shoelace(
            corners,
            corners.len() as int,
        ),
    decreases m,
{
    let n = corners.len() as int;
    if m > 0 {
        lemma_shoelace_backwards(corners, opposite, m - 1);
        let j = m - 1;
        let i = n - m;
        lemma_next_place(j, n);
        lemma_next_place(i, n);
        let after = m % n;
        assert(opposite[j] == corners[(n - j) % n]);
        assert(opposite[after] == corners[(n - after) % n]);
        assert((n - j) % n == (i + 1) % n);
        assert((n - after) % n == i) by {
            if m == n {
                assert(after == 0);
                vstd::arithmetic::div_mod::lemma_mod_self_0(n);
            } else {
                assert(after == m);
                vstd::arithmetic::div_mod::lemma_small_mod(i as nat, n as nat);
            }
        }
        let a = corners[i];
        let b = corners[(i + 1) % n];
        assert(spec_shoelace_term(b, a) == -spec_shoelace_term(a, b)) by (nonlinear_arith)
            requires
                spec_shoelace_term(b, a) == (a.0 - b.0) * (a.1 + b.1),
                spec_shoelace_term(a, b) == (b.0 - a.0) * (b.1 + a.1),
        ;
        assert(spec_shoelace(corners, i + 1) == spec_shoelace(corners, i) + spec_shoelace_term(
            a,
            b,
        ));
    }
}

/// Reversing a cycle turns its winding round, and a cycle without a winding
/// has none reversed, for the same reason.
///
/// Of a cycle of three half-edges or more this holds where the cycle is
/// connected. A cycle of fewer has the winding of its first half-edge, so
/// there it holds where its half-edges have the same winding each by itself,
/// and none begins and ends at the same parameter.
pub proof fn lemma_winding_reversed(half_edges: Seq<HalfEdge>)
    requires
        half_edges.len() >= 3 ==> spec_connected(half_edges),
        half_edges.len() < 3 ==> forall|i: int|
            0 <= i < half_edges.len() ==> spec_circular_winding(#[trigger] half_edges[i])
                == spec_circular_winding(half_edges[0]) && half_edges[i].boundary[0].t
                != half_edges[i].boundary[1].t,
    ensures
        spec_winding(spec_reversed(half_edges)) == match spec_winding(half_edges) {
            Ok(winding) => Ok::<Winding, InvalidCycle>(winding.spec_reverse()),
            Err(reason) => Err(reason),
        },
{
    let n = half_edges.len() as int;
    let reversed = spec_reversed(half_edges);
    if n == 0 {
    } else if n < 3 {
        lemma_next_place(n - 1, n);
        assert(reversed[0] == spec_reversed_edge(half_edges[n - 1], half_edges[0]));
        assert(spec_circular_winding(half_edges[n - 1]) == spec_circular_winding(half_edges[0]));
    } else {
        let corners = spec_start_positions(half_edges);
        let opposite = spec_start_positions(reversed);
        assert forall|j: int| 0 <= j < n implies #[trigger] opposite[j] == corners[(n - j) % n] by {
            let i = n - 1 - j;
            lemma_next_place(i, n);
            assert(reversed[j] == spec_reversed_edge(half_edges[i], half_edges[(i + 1) % n]));
            assert(reversed[j].spec_start_position() == half_edges[i].spec_end_position());
            assert(half_edges[i].spec_end_position() == half_edges[(i + 1)
                % n].spec_start_position());
        }
        lemma_shoelace_backwards(corners, opposite, n);
    }
}

impl Reverse for Handle<Cycle> {
    open spec fn reverse_requires(self, objects: ObjectsView) -> bool {
        objects.has_cycle(self)
    }

    open spec fn reverse_ensures(
        self,
        before: ObjectsView,
        after: ObjectsView,
        reversed: Handle<Cycle>,
    ) -> bool {
        let half_edges = before.half_edges_of(before.cycle(self));
        &&& after.wf()
        &&& after.vertices == before.vertices
        &&& after.global_edges == before.global_edges
        &&& after.surfaces == before.surfaces
        &&& after.faces == before.faces
        &&& after.shells == before.shells
        &&& after.half_edges == before.half_edges + spec_flipped_edges(half_edges)
        &&& after.cycles == before.cycles.push(
            Seq::new(
                half_edges.len(),
                |j: int|
                    Handle::<HalfEdge>::spec_from_id(
                        (before.half_edges.len() + half_edges.len() - 1 - j) as nat,
                    ),
            ),
        )
        &&& reversed.spec_id() == before.cycles.len()
        &&& after.half_edges_of(after.cycle(reversed)) == spec_reversed(half_edges)
    }

    fn reverse(self, objects: &mut Objects) -> (reversed: Handle<Cycle>) {
        proof {
            use_type_invariant(&*objects);
        }
        let ghost before = objects@;
        let ghost half_edges = before.half_edges_of(before.cycle(self));
        let originals: Vec<Handle<HalfEdge>> = copy_handles(objects.cycle(&self).half_edges());
        assert(before.holds_cycle(before.cycles[self.spec_id() as int]));
        let n = originals.len();
        let pairs = circular_pairs(n);
        let mut edges: Vec<Handle<HalfEdge>> = Vec::new();
        let mut k: usize = 0;
        while k < n
            invariant
                k <= n,
                n == originals@.len(),
                n == pairs@.len(),
                originals@ == before.cycle(self),
                before.wf(),
                before.holds_cycle(originals@),
                half_edges == before.half_edges_of(originals@),
                forall|i: int|
                    0 <= i < n ==> (#[trigger] pairs@[i]).0 == i && pairs@[i].1 == (i + 1) % (
                    n as int),
                objects@ == (ObjectsView {
                    half_edges: before.half_edges + spec_flipped_edges(half_edges).subrange(
                        0,
                        k as int,
                    ),
                    ..before
                }),
                edges@.len() == k,
                forall|i: int|
                    0 <= i < k ==> (#[trigger] edges@[i]).spec_id() == before.half_edges.len() + i
                        && edges@[i] == Handle::<HalfEdge>::spec_from_id(
                        (before.half_edges.len() + i) as nat,
                    ),
            decreases n - k,
        {
            let (i, j) = pairs[k];
            assert(i == k && j == (k + 1) % (n as int));
            assert(before.has_half_edge(originals@[i as int]));
            assert(before.has_half_edge(originals@[j as int]));
            let current = *objects.half_edge(&originals[i]);
            let next = *objects.half_edge(&originals[j]);
            assert(current == half_edges[i as int]);
            assert(next == half_edges[j as int]);
            let boundary = [current.boundary[1], current.boundary[0]];
            let flipped = HalfEdge::new(
                current.curve,
                boundary,
                next.start_vertex,
                current.global_form,
            );
            assert(flipped.boundary =~= spec_reversed_edge(current, next).boundary);
            assert(flipped == spec_flipped_edges(half_edges)[k as int]);
            assert(objects@.holds_half_edge(flipped)) by {
                assert(before.holds_half_edge(
                    before.half_edges[originals@[i as int].spec_id() as int],
                ));
                assert(before.holds_half_edge(
                    before.half_edges[originals@[j as int].spec_id() as int],
                ));
            }
            let handle = objects.insert_half_edge(flipped);
            edges.push(handle);
            k += 1;
            assert(objects@.half_edges =~= before.half_edges + spec_flipped_edges(
                half_edges,
            ).subrange(0, k as int));
        }
        assert(spec_flipped_edges(half_edges).subrange(0, n as int) =~= spec_flipped_edges(
            half_edges,
        ));
        let mut reversed_edges: Vec<Handle<HalfEdge>> = Vec::new();
        let mut m: usize = 0;
        while m < n
            invariant
                m <= n,
                n == edges@.len(),
                reversed_edges@.len() == m,
                forall|i: int| 0 <= i < m ==> #[trigger] reversed_edges@[i] == edges@[n - 1 - i],
            decreases n - m,
        {
            reversed_edges.push(edges[n - 1 - m]);
            m += 1;
        }
        let cycle = Cycle::new(reversed_edges);
        assert(objects@.holds_cycle(cycle@)) by {
            assert forall|x: int| 0 <= x < cycle@.len() implies objects@.has_half_edge(
                #[trigger] cycle@[x],
            ) by {
                assert(reversed_edges@[x] == edges@[n - 1 - x]);
            }
        }
        let reversed = objects.insert_cycle(cycle);
        proof {
            let after = objects@;
            assert(after.half_edges_of(after.cycle(reversed)) =~= spec_reversed(half_edges)) by {
                assert forall|i: int| 0 <= i < n implies after.half_edges_of(
                    after.cycle(reversed),
                )[i] == spec_reversed(half_edges)[i] by {
                    assert(reversed_edges@[i] == edges@[n - 1 - i]);
                    assert(edges@[n - 1 - i].spec_id() == before.half_edges.len() + (n - 1 - i));
                }
            }
            assert(after.cycles.last() =~= Seq::new(
                half_edges.len(),
                |j: int|
                    Handle::<HalfEdge>::spec_from_id(
                        (before.half_edges.len() + half_edges.len() - 1 - j) as nat,
                    ),
            )) by {
                assert forall|j: int| 0 <= j < n implies after.cycles.last()[j]
                    == Handle::<HalfEdge>::spec_from_id(
                    (before.half_edges.len() + n - 1 - j) as nat,
                ) by {
                    assert(reversed_edges@[j] == edges@[n - 1 - j]);
                }
            }
        }
        reversed
    }
}

/// A copy of the handles.
pub(crate) fn copy_handles<T>(handles: &Vec<Handle<T>>) -> (copy: Vec<Handle<T>>)
    ensures
        copy@ == handles@,
{
    let mut copy: Vec<Handle<T>> = Vec::new();
    let mut i: usize = 0;
    while i < handles.len()
        invariant
            i <= handles@.len(),
            copy@ == handles@.subrange(0, i as int),
        decreases handles@.len() - i,
    {
        copy.push(handles[i]);
        i += 1;
        assert(copy@ =~= handles@.subrange(0, i as int));
    }
    assert(handles@.subrange(0, i as int) =~= handles@);
    copy
}

} // verus!
