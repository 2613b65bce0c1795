//! Cycles of half-edges.

use vstd::prelude::*;
use crate::geometry::curve::Curve;
use crate::math::{lemma_product_bound, SurfacePosition, Winding};
use crate::objects::edge::HalfEdge;
use crate::objects::store::{Objects, ObjectsView};
use crate::storage::Handle;
use crate::windows::circular_pairs;

verus! {

/// A cycle of connected half-edges: one closed boundary of a face.
#[derive(Clone, Debug, PartialEq, Eq, Hash)]
pub struct Cycle {
    half_edges: Vec<Handle<HalfEdge>>,
}

/// Why a cycle has no winding.
#[derive(Clone, Copy, Debug, PartialEq, Eq, Structural, Hash)]
pub enum InvalidCycle {
    /// The cycle has no half-edges.
    NoHalfEdges,
    /// The cycle has fewer than three half-edges, and its first is not on a
    /// circle.
    NotCircular,
    /// The cycle has three half-edges or more and encloses no area.
    ZeroArea,
}

/// What one step of the boundary, from `a` to `b`, adds to twice the area
/// that the boundary encloses, counted clockwise.
pub open spec fn spec_shoelace_term(a: (int, int), b: (int, int)) -> int {
    (b.0 - a.0) * (b.1 + a.1)
}

/// The sum of the shoelace terms of the first `n` steps round the polygon
/// with these corners, each step leading from a corner to the next and the
/// last step back to the first corner.
pub open spec fn spec_shoelace(corners: Seq<(int, int)>, n: int) -> int
    decreases n,
{
    if n <= 0 {
        0
    } else {
        spec_shoelace(corners, n - 1) + spec_shoelace_term(
            corners[n - 1],
            corners[n % (corners.len() as int)],
        )
    }
}

/// The surface positions where the half-edges start.
pub open spec fn spec_start_positions(half_edges: Seq<HalfEdge>) -> Seq<(int, int)> {
    Seq::new(half_edges.len(), |i: int| half_edges[i].spec_start_position())
}

/// The winding that a half-edge on a circle has by itself: counter-clockwise
/// if the half-edge runs the way the circle turns, clockwise if not. A
/// half-edge on a line has none.
pub open spec fn spec_circular_winding(half_edge: HalfEdge) -> Option<Winding> {
    match half_edge.curve {
        Curve::Circle(circle) => {
            let edge_direction_positive = half_edge.boundary[0].t < half_edge.boundary[1].t;
            let cross_positive = circle.a.spec_cross2d(circle.b) > 0;
            if edge_direction_positive == cross_positive {
                Some(Winding::Ccw)
            } else {
                Some(Winding::Cw)
            }
        },
        Curve::Line(_) => None,
    }
}

/// The winding of the cycle of these half-edges, or why it has none.
///
/// A cycle of one or two half-edges has the winding of its first half-edge,
/// which must be on a circle. A cycle of three or more is taken as the polygon
/// of the positions where its half-edges start: it winds clockwise if the
/// shoelace sum is positive, counter-clockwise if it is negative.
pub open spec fn spec_winding(half_edges: Seq<HalfEdge>) -> Result<Winding, InvalidCycle> {
    if half_edges.len() == 0 {
        Err(InvalidCycle::NoHalfEdges)
    } else if half_edges.len() < 3 {
        match spec_circular_winding(half_edges[0]) {
            Some(winding) => Ok(winding),
            None => Err(InvalidCycle::NotCircular),
        }
    } else {
        let sum = spec_shoelace(spec_start_positions(half_edges), half_edges.len() as int);
        if sum > 0 {
            Ok(Winding::Cw)
        } else if sum < 0 {
            Ok(Winding::Ccw)
        } else {
            Err(InvalidCycle::ZeroArea)
        }
    }
}

/// The sequence turned round: begun at place `shift`, and run on through the
/// places before it.
pub open spec fn spec_rotated<A>(s: Seq<A>, shift: int) -> Seq<A> {
    s.subrange(shift, s.len() as int) + s.subrange(0, shift)
}

/// The place after place `i` of `n` in circular order.
pub proof fn lemma_next_place(i: int, n: int)
    requires
        0 <= i < n,
    ensures
        (i + 1) % n == (if i + 1 == n {
            0
        } else {
            i + 1
        }),
{
    if i + 1 == n {
        vstd::arithmetic::div_mod::lemma_mod_self_0(n);
    } else {
        vstd::arithmetic::div_mod::lemma_small_mod((i + 1) as nat, n as nat);
    }
}

/// The first `m` steps round a polygon begun one corner on are the steps
/// after the first round the polygon itself.
proof fn lemma_shoelace_shifted(corners: Seq<(int, int)>, m: int)
    requires
        corners.len() >= 2,
        0 <= m <= corners.len() - 1,
    ensures
        spec_shoelace(spec_rotated(corners, 1), m) == spec_shoelace(corners, m + 1)
            - spec_shoelace_term(corners[0], corners[1]),
    decreases m,
{
    let n = corners.len() as int;
    let turned = spec_rotated(corners, 1);
    if m == 0 {
        lemma_next_place(0, n);
        assert(spec_shoelace(corners, 1) == spec_shoelace(corners, 0) + spec_shoelace_term(
            corners[0],
            corners[1int % n],
        ));
    } else {
        lemma_shoelace_shifted(corners, m - 1);
        lemma_next_place(m - 1, n);
        lemma_next_place(m, n);
        assert(turned[m - 1] == corners[m]);
        assert(turned[m % n] == corners[(m + 1) % n]);
    }
}

/// The shoelace sum of a polygon does not depend on the corner at which the
/// round begins.
pub proof fn lemma_shoelace_rotated(corners: Seq<(int, int)>, shift: int)
    requires
        corners.len() >= 2,
        0 <= shift <= corners.len(),
    ensures
        spec_shoelace(spec_rotated(corners, shift), corners.len() as int) == spec_shoelace(
            corners,
            corners.len() as int,
        ),
    decreases shift,
{
    let n = corners.len() as int;
    if shift == 0 {
        assert(spec_rotated(corners, 0) =~= corners);
    } else {
        lemma_shoelace_rotated(corners, shift - 1);
        let before = spec_rotated(corners, shift - 1);
        let turned = spec_rotated(before, 1);
        assert(turned =~= spec_rotated(corners, shift));
        lemma_shoelace_shifted(before, n - 1);
        lemma_next_place(n - 1, n);
        assert(turned[n - 1] == before[0]);
        assert(turned[n % n] == before[1]);
    }
}

/// The winding of a cycle does not depend on the half-edge at which the
/// cycle begins.
///
/// Of a cycle of three half-edges or more this holds always. A cycle of
/// fewer has the winding of its first half-edge, so there it holds where its
/// half-edges have the same winding each by itself.
pub proof fn lemma_winding_rotated(half_edges: Seq<HalfEdge>, shift: int)
    requires
        0 <= shift <= half_edges.len(),
        half_edges.len() < 3 ==> forall|i: int|
            0 <= i < half_edges.len() ==> spec_circular_winding(#[trigger] half_edges[i])
                == spec_circular_winding(half_edges[0]),
    ensures
        spec_winding(spec_rotated(half_edges, shift)) == spec_winding(half_edges),
{
    let turned = spec_rotated(half_edges, shift);
    if half_edges.len() == 0 {
    } else if half_edges.len() < 3 {
        if shift < half_edges.len() {
            assert(turned[0] == half_edges[shift]);
        } else {
            assert(turned[0] == half_edges[0]);
        }
    } else {
        assert(spec_start_positions(turned) =~= spec_rotated(
            spec_start_positions(half_edges),
            shift,
        ));
        lemma_shoelace_rotated(spec_start_positions(half_edges), shift);
    }
}

/// The half-edges of a cycle that is begun at another place are the
/// half-edges of the cycle, begun at that place.
pub proof fn lemma_half_edges_of_rotated(
    objects: ObjectsView,
    cycle: Seq<Handle<HalfEdge>>,
    shift: int,
)
    requires
        0 <= shift <= cycle.len(),
    ensures
        objects.half_edges_of(spec_rotated(cycle, shift)) == spec_rotated(
            objects.half_edges_of(cycle),
            shift,
        ),
{
    assert(objects.half_edges_of(spec_rotated(cycle, shift)) =~= spec_rotated(
        objects.half_edges_of(cycle),
        shift,
    ));
}

/// Splits `t` into a high part and a low part of 64 bits.
fn split(t: i128) -> (parts: (i128, u64))
    ensures
        t == parts.0 * 0x1_0000_0000_0000_0000 + parts.1,
        -0x8000_0000_0000_0000 <= parts.0 <= 0x7fff_ffff_ffff_ffff,
{
    if t >= 0 {
        let u: u128 = t as u128;
        ((u / 0x1_0000_0000_0000_0000) as i128, (u % 0x1_0000_0000_0000_0000) as u64)
    } else {
        let m: u128 = (-(t + 1)) as u128;
        let q: u128 = m / 0x1_0000_0000_0000_0000;
        let r: u128 = m % 0x1_0000_0000_0000_0000;
        (-(q as i128) - 1, (0xffff_ffff_ffff_ffff - r) as u64)
    }
}

/// The shoelace term of the step from `a` to `b`.
fn shoelace_term(a: &SurfacePosition, b: &SurfacePosition) -> (t: i128)
    requires
        a.spec_in_reach(),
        b.spec_in_reach(),
    ensures
        t == spec_shoelace_term((a.u as int, a.v as int), (b.u as int, b.v as int)),
{
    let du: i128 = b.u as i128 - a.u as i128;
    let sv: i128 = b.v as i128 + a.v as i128;
    proof {
        lemma_product_bound(
            du as int,
            sv as int,
            0x8000_0001_0000_0000,
            0x8000_0001_0000_0000,
        );
    }
    du * sv
}

impl View for Cycle {
    type V = Seq<Handle<HalfEdge>>;

    /// The half-edges of the cycle, in order.
    closed spec fn view(&self) -> Seq<Handle<HalfEdge>> {
        self.half_edges@
    }
}

impl Cycle {
    /// The cycle of these half-edges, in this order.
    pub fn new(half_edges: Vec<Handle<HalfEdge>>) -> (c: Cycle)
        ensures
            c@ == half_edges@,
    {
        Cycle { half_edges }
    }

    /// The half-edges of the cycle, in order.
    pub fn half_edges(&self) -> (h: &Vec<Handle<HalfEdge>>)
        ensures
            h@ == self@,
    {
        &self.half_edges
    }

    /// The winding of the cycle, seen from the side that its surface faces,
    /// or why it has none.
    pub fn winding(&self, objects: &Objects) -> (w: Result<Winding, InvalidCycle>)
        requires
            objects@.holds_cycle(self@),
        ensures
            w == spec_winding(objects@.half_edges_of(self@)),
    {
        let n = self.half_edges.len();
        let ghost half_edges = objects@.half_edges_of(self@);
        if n == 0 {
            return Err(InvalidCycle::NoHalfEdges);
        }
        if n < 3 {
            let first = objects.half_edge(&self.half_edges[0]);
            assert(*first == half_edges[0]);
            let edge_direction_positive = first.boundary[0].t < first.boundary[1].t;
            let circle = match first.curve {
                Curve::Circle(circle) => circle,
                Curve::Line(_) => {
                    return Err(InvalidCycle::NotCircular);
                },
            };
            let cross_positive = circle.a.cross2d(&circle.b) > 0;
            if edge_direction_positive == cross_positive {
                return Ok(Winding::Ccw);
            } else {
                return Ok(Winding::Cw);
            }
        }
        let ghost corners = spec_start_positions(half_edges);
        let pairs = circular_pairs(n);
        // The sum can outgrow 128 bits. It is kept in two parts, as
        // `high * 2^64 + low`; its sign can be read from them.
        let mut high: i128 = 0;
        let mut low: u64 = 0;
        let mut k: usize = 0;
        while k < n
            invariant
                k <= n,
                n == self@.len(),
                n == pairs@.len(),
                objects@.holds_cycle(self@),
                half_edges == objects@.half_edges_of(self@),
                corners == spec_start_positions(half_edges),
                forall|i: int|
                    0 <= i < n ==> (#[trigger] pairs@[i]).0 == i && pairs@[i].1 == (i + 1) % (
                    n as int),
                high * 0x1_0000_0000_0000_0000 + low == spec_shoelace(corners, k as int),
                -0x8000_0000_0000_0000 * k <= high <= 0x8000_0000_0000_0000 * k,
            decreases n - k,
        {
            let (i, j) = pairs[k];
            assert(i == k && j == (k + 1) % (n as int));
            let a = objects.half_edge(&self.half_edges[i]).start_position();
            let b = objects.half_edge(&self.half_edges[j]).start_position();
            assert((a.u as int, a.v as int) == corners[k as int]);
            assert((b.u as int, b.v as int) == corners[(k + 1) % (n as int)]);
            let (term_high, term_low) = split(shoelace_term(&a, &b));
            let sum_low: u128 = low as u128 + term_low as u128;
            if sum_low >= 0x1_0000_0000_0000_0000 {
                low = (sum_low - 0x1_0000_0000_0000_0000) as u64;
                high = high + term_high + 1;
            } else {
                low = sum_low as u64;
                high = high + term_high;
            }
            k += 1;
        }
        if high > 0 || (high == 0 && low > 0) {
            Ok(Winding::Cw)
        } else if high < 0 {
            Ok(Winding::Ccw)
        } else {
            Err(InvalidCycle::ZeroArea)
        }
    }
}

} // verus!
