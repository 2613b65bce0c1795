//! Coincidence of half-edges.
//!
//! The half-edges of a shell must agree on what is the same edge: two that
//! trace one global edge must coincide in space, and two that coincide must
//! trace one global edge.
//!
//! Half-edges are compared at three sample points each: where they start,
//! their middle, and where they end. A middle may lie half-way between
//! lattice points, so all sample points are taken doubled, and a distance is
//! held as the square of the doubled distance. A comparison of such a square
//! with four times the square of a configured distance is exact.

use vstd::prelude::*;
use crate::math::{GlobalPosition, Point3};
use crate::objects::edge::HalfEdge;
use crate::objects::shell::Shell;
use crate::objects::store::{Objects, ObjectsView};
use crate::objects::surface::Surface;
use crate::validate::edges::{
    edges_and_surfaces, spec_edges_have_middles, spec_edges_held, spec_shell_edges, EdgeOnSurface,
};
use crate::validate::shell::ShellValidationError;
use crate::validate::{ValidationConfig, ValidationError};

verus! {

/// Twice the curve parameter of sample `k` of a half-edge: of its start for
/// `k == 0`, of its middle for `k == 1`, of its end for `k == 2`.
pub open spec fn spec_doubled_param(edge: HalfEdge, k: int) -> int {
    2 * edge.boundary[0].t + (edge.boundary[1].t - edge.boundary[0].t) * k
}

/// Twice the point in space of sample `k` of a half-edge on a surface.
pub open spec fn spec_sample(edge: HalfEdge, surface: Surface, k: int) -> (int, int, int) {
    let p = edge.curve.spec_doubled_point(spec_doubled_param(edge, k));
    surface.geometry.spec_doubled_point(p.0, p.1)
}

/// The square of the distance of two points.
pub open spec fn spec_squared_distance(p: (int, int, int), q: (int, int, int)) -> int {
    (p.0 - q.0) * (p.0 - q.0) + (p.1 - q.1) * (p.1 - q.1) + (p.2 - q.2) * (p.2 - q.2)
}

/// Whether a distance, given as the square of its double, is greater than
/// `limit`.
pub open spec fn spec_farther(doubled_squared: int, limit: u32) -> bool {
    doubled_squared > 4 * (limit * limit)
}

/// Whether a distance, given as the square of its double, is less than
/// `limit`.
pub open spec fn spec_nearer(doubled_squared: int, limit: u32) -> bool {
    doubled_squared < 4 * (limit * limit)
}

/// Whether the second half-edge is taken to run against the first: their
/// starts are further apart than what counts as identical.
pub open spec fn spec_flipped(
    config: ValidationConfig,
    edge_1: HalfEdge,
    surface_1: Surface,
    edge_2: HalfEdge,
    surface_2: Surface,
) -> bool {
    spec_farther(
        spec_squared_distance(spec_sample(edge_1, surface_1, 0), spec_sample(edge_2, surface_2, 0)),
        config.identical_max_distance,
    )
}

/// The distance of sample `k` of the first half-edge from the sample of the
/// second that answers to it, as the square of its double.
///
/// The sample that answers is sample `k`, or sample `2 - k` where the second
/// half-edge runs against the first.
pub open spec fn spec_distance(
    config: ValidationConfig,
    edge_1: HalfEdge,
    surface_1: Surface,
    edge_2: HalfEdge,
    surface_2: Surface,
    k: int,
) -> int {
    let other = if spec_flipped(config, edge_1, surface_1, edge_2, surface_2) {
        2 - k
    } else {
        k
    };
    spec_squared_distance(
        spec_sample(edge_1, surface_1, k),
        spec_sample(edge_2, surface_2, other),
    )
}

/// The bound at which `distances` stops telling distances apart. It is above
/// four times the square of every distance that can be configured.
pub open spec fn spec_distance_cap() -> int {
    0x1_0000_0000_0000_0000_0000
}

/// `d`, or the cap where `d` is above it.
pub open spec fn spec_capped(d: int) -> int {
    if d < spec_distance_cap() {
        d
    } else {
        spec_distance_cap()
    }
}

/// The error, if any, that a pair of half-edges of a shell gives rise to.
pub open spec fn spec_pair_error(
    objects: ObjectsView,
    config: ValidationConfig,
    a: EdgeOnSurface,
    b: EdgeOnSurface,
) -> Option<ShellValidationError> {
    let edge_1 = objects.half_edge(a.0);
    let surface_1 = objects.surface(a.1);
    let edge_2 = objects.half_edge(b.0);
    let surface_2 = objects.surface(b.1);
    let d0 = spec_distance(config, edge_1, surface_1, edge_2, surface_2, 0);
    let d1 = spec_distance(config, edge_1, surface_1, edge_2, surface_2, 1);
    let d2 = spec_distance(config, edge_1, surface_1, edge_2, surface_2, 2);
    if edge_1.global_form == edge_2.global_form {
        if spec_farther(d0, config.identical_max_distance) || spec_farther(
            d1,
            config.identical_max_distance,
        ) || spec_farther(d2, config.identical_max_distance) {
            Some(
                ShellValidationError::IdenticalEdgesNotCoincident {
                    edge_1: a.0,
                    surface_1: a.1,
                    edge_2: b.0,
                    surface_2: b.1,
                },
            )
        } else {
            None
        }
    } else {
        if spec_nearer(d0, config.distinct_min_distance) && spec_nearer(
            d1,
            config.distinct_min_distance,
        ) && spec_nearer(d2, config.distinct_min_distance) {
            Some(ShellValidationError::CoincidentEdgesNotIdentical(a.0, b.0))
        } else {
            None
        }
    }
}

/// The errors of the pairs that half-edge `i` makes with the half-edges from
/// itself up to, but not including, `end`.
pub open spec fn spec_row_errors(
    objects: ObjectsView,
    config: ValidationConfig,
    edges: Seq<EdgeOnSurface>,
    i: int,
    end: int,
) -> Seq<ValidationError>
    decreases end - i,
{
    if end <= i {
        Seq::empty()
    } else {
        let before = spec_row_errors(objects, config, edges, i, end - 1);
        match spec_pair_error(objects, config, edges[i], edges[end - 1]) {
            Some(e) => before.push(ValidationError::Shell(e)),
            None => before,
        }
    }
}

/// The errors of all pairs whose first half-edge comes before `end`. Every
/// pair is taken once, a half-edge with itself too.
pub open spec fn spec_coincidence_errors(
    objects: ObjectsView,
    config: ValidationConfig,
    edges: Seq<EdgeOnSurface>,
    end: int,
) -> Seq<ValidationError>
    decreases end,
{
    if end <= 0 {
        Seq::empty()
    } else {
        spec_coincidence_errors(objects, config, edges, end - 1) + spec_row_errors(
            objects,
            config,
            edges,
            end - 1,
            edges.len() as int,
        )
    }
}

/// Whether `error` is the error that the pair of the half-edges `i` and `j`
/// gives rise to.
pub open spec fn spec_is_pair_error(
    objects: ObjectsView,
    config: ValidationConfig,
    edges: Seq<EdgeOnSurface>,
    i: int,
    j: int,
    error: ValidationError,
) -> bool {
    match spec_pair_error(objects, config, edges[i], edges[j]) {
        Some(found) => error == ValidationError::Shell(found),
        None => false,
    }
}

/// The errors of a row are the errors of its pairs, and nothing else.
pub proof fn lemma_row_errors(
    objects: ObjectsView,
    config: ValidationConfig,
    edges: Seq<EdgeOnSurface>,
    i: int,
    end: int,
    error: ValidationError,
)
    ensures
        spec_row_errors(objects, config, edges, i, end).contains(error) <==> exists|j: int|
            i <= j < end && #[trigger] spec_is_pair_error(objects, config, edges, i, j, error),
    decreases end - i,
{
    if end > i {
        let before = spec_row_errors(objects, config, edges, i, end - 1);
        let row = spec_row_errors(objects, config, edges, i, end);
        lemma_row_errors(objects, config, edges, i, end - 1, error);
        if row.contains(error) {
            let k = choose|k: int| 0 <= k < row.len() && row[k] == error;
            if k < before.len() {
                assert(before[k] == error);
                assert(before.contains(error));
                let j = choose|j: int|
                    i <= j < end - 1 && #[trigger] spec_is_pair_error(
                        objects,
                        config,
                        edges,
                        i,
                        j,
                        error,
                    );
                assert(spec_is_pair_error(objects, config, edges, i, j, error));
            } else {
                assert(spec_is_pair_error(objects, config, edges, i, end - 1, error));
            }
        }
        if exists|j: int|
            i <= j < end && #[trigger] spec_is_pair_error(objects, config, edges, i, j, error) {
            let j = choose|j: int|
                i <= j < end && #[trigger] spec_is_pair_error(
                    objects,
                    config,
                    edges,
                    i,
                    j,
                    error,
                );
            if j < end - 1 {
                assert(before.contains(error));
                let k = choose|k: int| 0 <= k < before.len() && before[k] == error;
                assert(row[k] == error);
            } else {
                assert(row[row.len() - 1] == error);
            }
        }
    }
}

/// The errors that validation finds among the pairs of half-edges are the
/// errors of the pairs, each taken once, and nothing else.
pub proof fn lemma_coincidence_errors(
    objects: ObjectsView,
    config: ValidationConfig,
    edges: Seq<EdgeOnSurface>,
    end: int,
    error: ValidationError,
)
    requires
        end <= edges.len(),
    ensures
        spec_coincidence_errors(objects, config, edges, end).contains(error) <==> exists|
            i: int,
            j: int,
        |
            0 <= i < end && i <= j < edges.len() && #[trigger] spec_is_pair_error(
                objects,
                config,
                edges,
                i,
                j,
                error,
            ),
    decreases end,
{
    if end > 0 {
        let n = edges.len() as int;
        let before = spec_coincidence_errors(objects, config, edges, end - 1);
        let row = spec_row_errors(objects, config, edges, end - 1, n);
        let all = spec_coincidence_errors(objects, config, edges, end);
        assert(all == before + row);
        lemma_coincidence_errors(objects, config, edges, end - 1, error);
        lemma_row_errors(objects, config, edges, end - 1, n, error);
        if all.contains(error) {
            let k = choose|k: int| 0 <= k < all.len() && all[k] == error;
            if k < before.len() {
                assert(before[k] == error);
                assert(before.contains(error));
                let (i, j) = choose|i: int, j: int|
                    0 <= i < end - 1 && i <= j < edges.len() && #[trigger] spec_is_pair_error(
                        objects,
                        config,
                        edges,
                        i,
                        j,
                        error,
                    );
                assert(spec_is_pair_error(objects, config, edges, i, j, error));
            } else {
                assert(row[k - before.len()] == error);
                assert(row.contains(error));
                let j = choose|j: int|
                    end - 1 <= j < n && #[trigger] spec_is_pair_error(
                        objects,
                        config,
                        edges,
                        end - 1,
                        j,
                        error,
                    );
                assert(spec_is_pair_error(objects, config, edges, end - 1, j, error));
            }
        }
        if exists|i: int, j: int|
            0 <= i < end && i <= j < edges.len() && #[trigger] spec_is_pair_error(
                objects,
                config,
                edges,
                i,
                j,
                error,
            ) {
            let (i, j) = choose|i: int, j: int|
                0 <= i < end && i <= j < edges.len() && #[trigger] spec_is_pair_error(
                    objects,
                    config,
                    edges,
                    i,
                    j,
                    error,
                );
            if i < end - 1 {
                assert(before.contains(error));
                let k = choose|k: int| 0 <= k < before.len() && before[k] == error;
                assert(all[k] == error);
            } else {
                assert(row.contains(error));
                let k = choose|k: int| 0 <= k < row.len() && row[k] == error;
                assert(all[before.len() + k] == error);
            }
        }
    }
}

/// Twice the point that lies `s` halves of the way from `a` to `b`: twice
/// `a` for `s == 0`, the sum of both for `s == 1`, twice `b` for `s == 2`.
pub open spec fn spec_between(a: Point3, b: Point3, s: int) -> (int, int, int) {
    ((2 - s) * a.x + s * b.x, (2 - s) * a.y + s * b.y, (2 - s) * a.z + s * b.z)
}

/// Whether the three samples of the half-edge lie on the straight way from
/// `start` to `end`: at `start`, half-way, and at `end`.
pub open spec fn spec_runs_between(
    objects: ObjectsView,
    edge: EdgeOnSurface,
    start: Point3,
    end: Point3,
) -> bool {
    let half_edge = objects.half_edge(edge.0);
    let surface = objects.surface(edge.1);
    &&& spec_sample(half_edge, surface, 0) == spec_between(start, end, 0)
    &&& spec_sample(half_edge, surface, 1) == spec_between(start, end, 1)
    &&& spec_sample(half_edge, surface, 2) == spec_between(start, end, 2)
}

/// The doubles of two lattice points are as far apart as two lattice units,
/// or they are the same point.
pub proof fn lemma_doubled_apart(a: Point3, b: Point3)
    ensures
        spec_squared_distance(spec_between(a, a, 0), spec_between(b, b, 0)) == 0 <==> a == b,
        spec_squared_distance(spec_between(a, a, 0), spec_between(b, b, 0)) < 4 <==> a == b,
        spec_squared_distance(spec_between(a, a, 0), spec_between(b, b, 0)) >= 0,
{
    let dx = a.x - b.x;
    let dy = a.y - b.y;
    let dz = a.z - b.z;
    let d = spec_squared_distance(spec_between(a, a, 0), spec_between(b, b, 0));
    assert(d == 4 * (dx * dx + dy * dy + dz * dz)) by (nonlinear_arith)
        requires
            d == (2 * a.x - 2 * b.x) * (2 * a.x - 2 * b.x) + (2 * a.y - 2 * b.y) * (2 * a.y - 2
                * b.y) + (2 * a.z - 2 * b.z) * (2 * a.z - 2 * b.z),
            dx == a.x - b.x,
            dy == a.y - b.y,
            dz == a.z - b.z,
    ;
    assert(dx * dx >= 0 && (dx != 0 ==> dx * dx >= 1)) by (nonlinear_arith);
    assert(dy * dy >= 0 && (dy != 0 ==> dy * dy >= 1)) by (nonlinear_arith);
    assert(dz * dz >= 0 && (dz != 0 ==> dz * dz >= 1)) by (nonlinear_arith);
    assert(dx == 0 ==> dx * dx == 0);
    assert(dy == 0 ==> dy * dy == 0);
    assert(dz == 0 ==> dz * dz == 0);
}

/// The first sample of a straight half-edge is twice its start, the last is
/// twice its end.
proof fn lemma_ends(start: Point3, end: Point3)
    ensures
        spec_between(start, end, 0) == spec_between(start, start, 0),
        spec_between(start, end, 2) == spec_between(end, end, 0),
{
    assert(spec_between(start, end, 0) == spec_between(start, start, 0)) by (nonlinear_arith)
        requires
            spec_between(start, end, 0) == (
                (2 - 0) * start.x + 0 * end.x,
                (2 - 0) * start.y + 0 * end.y,
                (2 - 0) * start.z + 0 * end.z,
            ),
            spec_between(start, start, 0) == (
                (2 - 0) * start.x + 0 * start.x,
                (2 - 0) * start.y + 0 * start.y,
                (2 - 0) * start.z + 0 * start.z,
            ),
    ;
    assert(spec_between(start, end, 2) == spec_between(end, end, 0)) by (nonlinear_arith)
        requires
            spec_between(start, end, 2) == (
                (2 - 2) * start.x + 2 * end.x,
                (2 - 2) * start.y + 2 * end.y,
                (2 - 2) * start.z + 2 * end.z,
            ),
            spec_between(end, end, 0) == (
                (2 - 0) * end.x + 0 * end.x,
                (2 - 0) * end.y + 0 * end.y,
                (2 - 0) * end.z + 0 * end.z,
            ),
    ;
}

/// Two straight half-edges between the same two points have the same
/// middle.
proof fn lemma_middles(a_start: Point3, a_end: Point3, b_start: Point3, b_end: Point3)
    requires
        (a_start == b_start && a_end == b_end) || (a_start == b_end && a_end == b_start),
    ensures
        spec_squared_distance(spec_between(a_start, a_end, 1), spec_between(b_start, b_end, 1))
            == 0,
{
    let p = spec_between(a_start, a_end, 1);
    let q = spec_between(b_start, b_end, 1);
    assert(p == q) by (nonlinear_arith)
        requires
            p == (
                (2 - 1) * a_start.x + 1 * a_end.x,
                (2 - 1) * a_start.y + 1 * a_end.y,
                (2 - 1) * a_start.z + 1 * a_end.z,
            ),
            q == (
                (2 - 1) * b_start.x + 1 * b_end.x,
                (2 - 1) * b_start.y + 1 * b_end.y,
                (2 - 1) * b_start.z + 1 * b_end.z,
            ),
            (a_start.x == b_start.x && a_start.y == b_start.y && a_start.z == b_start.z && a_end.x
                == b_end.x && a_end.y == b_end.y && a_end.z == b_end.z) || (a_start.x == b_end.x
                && a_start.y == b_end.y && a_start.z == b_end.z && a_end.x == b_start.x
                && a_end.y == b_start.y && a_end.z == b_start.z),
    ;
    assert((p.0 - q.0) * (p.0 - q.0) == 0 && (p.1 - q.1) * (p.1 - q.1) == 0 && (p.2 - q.2) * (p.2
        - q.2) == 0);
}

/// Two straight half-edges between lattice points give no error under the
/// default distances, if they trace the same global edge exactly where they
/// run between the same two points, in the same direction or in opposite
/// directions.
pub proof fn lemma_straight_pair(
    objects: ObjectsView,
    a: EdgeOnSurface,
    b: EdgeOnSurface,
    a_start: Point3,
    a_end: Point3,
    b_start: Point3,
    b_end: Point3,
)
    requires
        spec_runs_between(objects, a, a_start, a_end),
        spec_runs_between(objects, b, b_start, b_end),
        objects.half_edge(a.0).global_form == objects.half_edge(b.0).global_form <==> (a_start
            == b_start && a_end == b_end) || (a_start == b_end && a_end == b_start),
    ensures
        spec_pair_error(objects, ValidationConfig::spec_default(), a, b) is None,
{
    let config = ValidationConfig::spec_default();
    let edge_1 = objects.half_edge(a.0);
    let surface_1 = objects.surface(a.1);
    let edge_2 = objects.half_edge(b.0);
    let surface_2 = objects.surface(b.1);
    lemma_ends(a_start, a_end);
    lemma_ends(b_start, b_end);
    lemma_doubled_apart(a_start, b_start);
    lemma_doubled_apart(a_end, b_end);
    lemma_doubled_apart(a_start, b_end);
    lemma_doubled_apart(a_end, b_start);
    let flipped = spec_flipped(config, edge_1, surface_1, edge_2, surface_2);
    assert(flipped <==> a_start != b_start);
    let d0 = spec_distance(config, edge_1, surface_1, edge_2, surface_2, 0);
    let d1 = spec_distance(config, edge_1, surface_1, edge_2, surface_2, 1);
    let d2 = spec_distance(config, edge_1, surface_1, edge_2, surface_2, 2);
    if edge_1.global_form == edge_2.global_form {
        if flipped {
            assert(a_start == b_end && a_end == b_start);
            assert(d1 == 0) by {
                lemma_middles(a_start, a_end, b_start, b_end);
            }
        } else {
            assert(a_end == b_end) by {
                if a_start == b_end && a_end == b_start {
                }
            }
            assert(d1 == 0) by {
                lemma_middles(a_start, a_end, b_start, b_end);
            }
        }
    } else {
        if flipped {
            assert(!(a_start == b_end && a_end == b_start));
        } else {
            assert(a_end != b_end);
        }
    }
}

/// Two straight half-edges of a shell that run between the same two lattice
/// points, in the same direction or in opposite directions, but trace
/// different global edges, are reported by validation under the default
/// distances as coincident and not identical.
pub proof fn lemma_coincident_pair_is_reported(
    objects: ObjectsView,
    edges: Seq<EdgeOnSurface>,
    i: int,
    j: int,
    start: Point3,
    end: Point3,
    opposite: bool,
)
    requires
        0 <= i <= j < edges.len(),
        spec_runs_between(objects, edges[i], start, end),
        opposite ==> spec_runs_between(objects, edges[j], end, start),
        !opposite ==> spec_runs_between(objects, edges[j], start, end),
        objects.half_edge(edges[i].0).global_form != objects.half_edge(edges[j].0).global_form,
    ensures
        spec_coincidence_errors(
            objects,
            ValidationConfig::spec_default(),
            edges,
            edges.len() as int,
        ).contains(
            ValidationError::Shell(
                ShellValidationError::CoincidentEdgesNotIdentical(edges[i].0, edges[j].0),
            ),
        ),
{
    let config = ValidationConfig::spec_default();
    let error = ValidationError::Shell(
        ShellValidationError::CoincidentEdgesNotIdentical(edges[i].0, edges[j].0),
    );
    let (other_start, other_end) = if opposite {
        (end, start)
    } else {
        (start, end)
    };
    lemma_ends(start, end);
    lemma_ends(other_start, other_end);
    lemma_doubled_apart(start, other_start);
    lemma_doubled_apart(end, other_end);
    lemma_doubled_apart(start, other_end);
    lemma_doubled_apart(end, other_start);
    lemma_middles(start, end, other_start, other_end);
    let edge_1 = objects.half_edge(edges[i].0);
    let surface_1 = objects.surface(edges[i].1);
    let edge_2 = objects.half_edge(edges[j].0);
    let surface_2 = objects.surface(edges[j].1);
    assert(spec_flipped(config, edge_1, surface_1, edge_2, surface_2) <==> start != other_start);
    assert(spec_distance(config, edge_1, surface_1, edge_2, surface_2, 0) == 0);
    assert(spec_distance(config, edge_1, surface_1, edge_2, surface_2, 1) == 0);
    assert(spec_distance(config, edge_1, surface_1, edge_2, surface_2, 2) == 0);
    assert(spec_is_pair_error(objects, config, edges, i, j, error));
    lemma_coincidence_errors(objects, config, edges, edges.len() as int, error);
}

/// Twice the point in space of sample `k` of a half-edge on a surface.
fn sample(k: u8, edge: &HalfEdge, surface: &Surface) -> (p: GlobalPosition)
    requires
        k <= 2,
        edge.spec_has_middle(),
    ensures
        (p.x as int, p.y as int, p.z as int) == spec_sample(*edge, *surface, k as int),
        -0x1_0000_0000_0000_0000_0000_0000 <= p.x <= 0x1_0000_0000_0000_0000_0000_0000,
        -0x1_0000_0000_0000_0000_0000_0000 <= p.y <= 0x1_0000_0000_0000_0000_0000_0000,
        -0x1_0000_0000_0000_0000_0000_0000 <= p.z <= 0x1_0000_0000_0000_0000_0000_0000,
{
    let start: i64 = edge.boundary[0].t as i64;
    let end: i64 = edge.boundary[1].t as i64;
    let doubled: i64 = if k == 0 {
        2 * start
    } else if k == 1 {
        start + end
    } else {
        2 * end
    };
    assert(doubled == spec_doubled_param(*edge, k as int)) by (nonlinear_arith)
        requires
            start == edge.boundary[0].t,
            end == edge.boundary[1].t,
            k == 0 ==> doubled == 2 * start,
            k == 1 ==> doubled == start + end,
            k == 2 ==> doubled == 2 * end,
            0 <= k <= 2,
    ;
    let on_surface = edge.curve.doubled_point(doubled);
    surface.geometry.doubled_point(on_surface.0, on_surface.1)
}

/// The square of a difference of coordinates, capped.
fn capped_square(a: i128, b: i128) -> (r: u128)
    requires
        -0x1_0000_0000_0000_0000_0000_0000 <= a <= 0x1_0000_0000_0000_0000_0000_0000,
        -0x1_0000_0000_0000_0000_0000_0000 <= b <= 0x1_0000_0000_0000_0000_0000_0000,
    ensures
        r == spec_capped((a - b) * (a - b)),
{
    let d: i128 = a - b;
    let m: u128 = if d < 0 {
        (-d) as u128
    } else {
        d as u128
    };
    assert(m * m == (a - b) * (a - b)) by (nonlinear_arith)
        requires
            m == a - b || m == -(a - b),
    ;
    if m >= 0x100_0000_0000 {
        assert(m * m >= 0x1_0000_0000_0000_0000_0000) by (nonlinear_arith)
            requires
                m >= 0x100_0000_0000,
        ;
        0x1_0000_0000_0000_0000_0000
    } else {
        assert(m * m < 0x1_0000_0000_0000_0000_0000) by (nonlinear_arith)
            requires
                0 <= m < 0x100_0000_0000,
        ;
        m * m
    }
}

/// The square of the distance of two points, capped.
fn capped_squared_distance(p: &GlobalPosition, q: &GlobalPosition) -> (r: u128)
    requires
        -0x1_0000_0000_0000_0000_0000_0000 <= p.x <= 0x1_0000_0000_0000_0000_0000_0000,
        -0x1_0000_0000_0000_0000_0000_0000 <= p.y <= 0x1_0000_0000_0000_0000_0000_0000,
        -0x1_0000_0000_0000_0000_0000_0000 <= p.z <= 0x1_0000_0000_0000_0000_0000_0000,
        -0x1_0000_0000_0000_0000_0000_0000 <= q.x <= 0x1_0000_0000_0000_0000_0000_0000,
        -0x1_0000_0000_0000_0000_0000_0000 <= q.y <= 0x1_0000_0000_0000_0000_0000_0000,
        -0x1_0000_0000_0000_0000_0000_0000 <= q.z <= 0x1_0000_0000_0000_0000_0000_0000,
    ensures
        r == spec_capped(
            spec_squared_distance(
                (p.x as int, p.y as int, p.z as int),
                (q.x as int, q.y as int, q.z as int),
            ),
        ),
{
    let dx: u128 = capped_square(p.x, q.x);
    let dy: u128 = capped_square(p.y, q.y);
    let dz: u128 = capped_square(p.z, q.z);
    assert((p.x - q.x) * (p.x - q.x) >= 0) by (nonlinear_arith);
    assert((p.y - q.y) * (p.y - q.y) >= 0) by (nonlinear_arith);
    assert((p.z - q.z) * (p.z - q.z) >= 0) by (nonlinear_arith);
    let sum: u128 = dx + dy + dz;
    if sum >= 0x1_0000_0000_0000_0000_0000 {
        0x1_0000_0000_0000_0000_0000
    } else {
        sum
    }
}

/// Whether a capped distance is greater than `limit`.
fn farther(capped: u128, limit: u32) -> (r: bool)
    requires
        capped <= spec_distance_cap(),
    ensures
        forall|d: int| capped == spec_capped(d) ==> r == spec_farther(d, limit),
{
    let l: u128 = limit as u128;
    assert(l * l <= 0xffff_ffff * 0xffff_ffff) by (nonlinear_arith)
        requires
            0 <= l <= 0xffff_ffff,
    ;
    capped > 4 * (l * l)
}

/// Whether a capped distance is less than `limit`.
fn nearer(capped: u128, limit: u32) -> (r: bool)
    requires
        capped <= spec_distance_cap(),
    ensures
        forall|d: int| capped == spec_capped(d) ==> r == spec_nearer(d, limit),
{
    let l: u128 = limit as u128;
    assert(l * l <= 0xffff_ffff * 0xffff_ffff) by (nonlinear_arith)
        requires
            0 <= l <= 0xffff_ffff,
    ;
    capped < 4 * (l * l)
}

/// The distances of the three samples of one half-edge from the samples of
/// another that answer to them, each as the square of its double, capped.
pub fn distances(
    config: &ValidationConfig,
    edge_1: &HalfEdge,
    surface_1: &Surface,
    edge_2: &HalfEdge,
    surface_2: &Surface,
) -> (d: [u128; 3])
    requires
        edge_1.spec_has_middle(),
        edge_2.spec_has_middle(),
    ensures
        forall|k: int|
            0 <= k < 3 ==> #[trigger] d[k] == spec_capped(
                spec_distance(*config, *edge_1, *surface_1, *edge_2, *surface_2, k),
            ),
{
    let start_1 = sample(0, edge_1, surface_1);
    let start_2 = sample(0, edge_2, surface_2);
    let flip = farther(capped_squared_distance(&start_1, &start_2), config.identical_max_distance);
    assert(flip == spec_flipped(*config, *edge_1, *surface_1, *edge_2, *surface_2));
    let middle_1 = sample(1, edge_1, surface_1);
    let middle_2 = sample(1, edge_2, surface_2);
    let end_1 = sample(2, edge_1, surface_1);
    let end_2 = sample(2, edge_2, surface_2);
    let d1 = capped_squared_distance(&middle_1, &middle_2);
    if flip {
        let d0 = capped_squared_distance(&start_1, &end_2);
        let d2 = capped_squared_distance(&end_1, &start_2);
        [d0, d1, d2]
    } else {
        let d0 = capped_squared_distance(&start_1, &start_2);
        let d2 = capped_squared_distance(&end_1, &end_2);
        [d0, d1, d2]
    }
}

impl ShellValidationError {
    /// Checks that the half-edges of a shell agree on what is the same edge,
    /// and appends an error for every pair that does not.
    ///
    /// Every pair of half-edges is taken once, a half-edge with itself too.
    /// Two half-edges that trace the same global edge give an error if one of
    /// their three distances is greater than `identical_max_distance`. Two
    /// that trace different global edges give an error if all three distances
    /// are less than `distinct_min_distance`.
    pub fn validate_edges_coincident(
        shell: &Shell,
        objects: &Objects,
        config: &ValidationConfig,
        errors: &mut Vec<ValidationError>,
    )
        requires
            objects@.holds_shell(shell@),
            spec_edges_have_middles(objects@, spec_shell_edges(objects@, shell@)),
        ensures
            final(errors)@ == old(errors)@ + spec_coincidence_errors(
                objects@,
                *config,
                spec_shell_edges(objects@, shell@),
                spec_shell_edges(objects@, shell@).len() as int,
            ),
    {
        let ghost before = errors@;
        let edges = edges_and_surfaces(shell, objects);
        let n = edges.len();
        let mut i: usize = 0;
        while i < n
            invariant
                i <= n,
                n == edges@.len(),
                spec_edges_held(objects@, edges@),
                spec_edges_have_middles(objects@, edges@),
                errors@ == before + spec_coincidence_errors(objects@, *config, edges@, i as int),
            decreases n - i,
        {
            let ghost before_row = errors@;
            let edge_1 = objects.half_edge(&edges[i].0);
            let surface_1 = objects.surface(&edges[i].1);
            let mut j: usize = i;
            while j < n
                invariant
                    i <= j <= n,
                    i < n,
                    n == edges@.len(),
                    spec_edges_held(objects@, edges@),
                    spec_edges_have_middles(objects@, edges@),
                    *edge_1 == objects@.half_edge(edges@[i as int].0),
                    *surface_1 == objects@.surface(edges@[i as int].1),
                    errors@ == before_row + spec_row_errors(
                        objects@,
                        *config,
                        edges@,
                        i as int,
                        j as int,
                    ),
                decreases n - j,
            {
                let edge_2 = objects.half_edge(&edges[j].0);
                let surface_2 = objects.surface(&edges[j].1);
                let d = distances(config, edge_1, surface_1, edge_2, surface_2);
                let ghost d0 = spec_distance(*config, *edge_1, *surface_1, *edge_2, *surface_2, 0);
                let ghost d1 = spec_distance(*config, *edge_1, *surface_1, *edge_2, *surface_2, 1);
                let ghost d2 = spec_distance(*config, *edge_1, *surface_1, *edge_2, *surface_2, 2);
                assert(d[0] == spec_capped(d0) && d[1] == spec_capped(d1) && d[2] == spec_capped(
                    d2,
                ));
                if edge_1.global_form.same(&edge_2.global_form) {
                    let limit = config.identical_max_distance;
                    if farther(d[0], limit) || farther(d[1], limit) || farther(d[2], limit) {
                        errors.push(
                            ValidationError::Shell(
                                ShellValidationError::IdenticalEdgesNotCoincident {
                                    edge_1: edges[i].0,
                                    surface_1: edges[i].1,
                                    edge_2: edges[j].0,
                                    surface_2: edges[j].1,
                                },
                            ),
                        );
                    }
                } else {
                    let limit = config.distinct_min_distance;
                    if nearer(d[0], limit) && nearer(d[1], limit) && nearer(d[2], limit) {
                        errors.push(
                            ValidationError::Shell(
                                ShellValidationError::CoincidentEdgesNotIdentical(
                                    edges[i].0,
                                    edges[j].0,
                                ),
                            ),
                        );
                    }
                }
                j += 1;
                assert(errors@ =~= before_row + spec_row_errors(
                    objects@,
                    *config,
                    edges@,
                    i as int,
                    j as int,
                ));
            }
            i += 1;
            assert(errors@ =~= before + spec_coincidence_errors(
                objects@,
                *config,
                edges@,
                i as int,
            ));
        }
    }
}

} // verus!
