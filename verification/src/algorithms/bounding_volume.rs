//! The bounding volume of a shell.

use vstd::prelude::*;
use crate::math::GlobalPosition;
use crate::objects::shell::Shell;
use crate::objects::store::{Objects, ObjectsView};
use crate::validate::edges::{edges_and_surfaces, spec_edges_held, spec_shell_edges, EdgeOnSurface};

verus! {

/// A box along the axes, from its least corner to its greatest.
#[derive(Clone, Copy, Debug, PartialEq, Eq, Structural, Hash)]
pub struct Aabb {
    /// The corner with the least coordinates
    pub min: GlobalPosition,
    /// The corner with the greatest coordinates
    pub max: GlobalPosition,
}

/// The point in space where a half-edge of a face starts.
pub open spec fn spec_start_point(objects: ObjectsView, edge: EdgeOnSurface) -> (int, int, int) {
    let on_surface = objects.half_edge(edge.0).spec_start_position();
    objects.surface(edge.1).geometry.spec_point(on_surface.0, on_surface.1)
}

impl Aabb {
    /// Whether the point lies within the box, or on it.
    pub open spec fn spec_holds(self, point: (int, int, int)) -> bool {
        &&& self.min.x <= point.0 <= self.max.x
        &&& self.min.y <= point.1 <= self.max.y
        &&& self.min.z <= point.2 <= self.max.z
    }

    /// Whether the box is the least that holds the points where the
    /// half-edges start: it holds them all, and each of its six sides
    /// touches one of them.
    pub open spec fn spec_bounds(self, objects: ObjectsView, edges: Seq<EdgeOnSurface>) -> bool {
        &&& forall|k: int|
            0 <= k < edges.len() ==> self.spec_holds(spec_start_point(objects, #[trigger] edges[k]))
        &&& exists|k: int|
            0 <= k < edges.len() && spec_start_point(objects, #[trigger] edges[k]).0 == self.min.x
        &&& exists|k: int|
            0 <= k < edges.len() && spec_start_point(objects, #[trigger] edges[k]).1 == self.min.y
        &&& exists|k: int|
            0 <= k < edges.len() && spec_start_point(objects, #[trigger] edges[k]).2 == self.min.z
        &&& exists|k: int|
            0 <= k < edges.len() && spec_start_point(objects, #[trigger] edges[k]).0 == self.max.x
        &&& exists|k: int|
            0 <= k < edges.len() && spec_start_point(objects, #[trigger] edges[k]).1 == self.max.y
        &&& exists|k: int|
            0 <= k < edges.len() && spec_start_point(objects, #[trigger] edges[k]).2 == self.max.z
    }
}

/// The least box along the axes that holds every point where a half-edge of
/// the shell starts. A shell without half-edges has none.
pub fn bounding_volume(shell: &Shell, objects: &Objects) -> (aabb: Option<Aabb>)
    requires
        objects@.holds_shell(shell@),
    ensures
        aabb is None <==> spec_shell_edges(objects@, shell@).len() == 0,
        aabb matches Some(found) ==> found.spec_bounds(
            objects@,
            spec_shell_edges(objects@, shell@),
        ),
{
    let edges = edges_and_surfaces(shell, objects);
    if edges.len() == 0 {
        return None;
    }
    let first = start_point(&edges[0], objects);
    let mut aabb = Aabb { min: first, max: first };
    let mut k: usize = 1;
    assert(aabb.spec_bounds(objects@, edges@.subrange(0, 1))) by {
        assert(edges@.subrange(0, 1)[0] == edges@[0]);
    }
    while k < edges.len()
        invariant
            1 <= k <= edges@.len(),
            spec_edges_held(objects@, edges@),
            aabb.spec_bounds(objects@, edges@.subrange(0, k as int)),
        decreases edges@.len() - k,
    {
        let ghost seen = edges@.subrange(0, k as int);
        let ghost before = aabb;
        let point = start_point(&edges[k], objects);
        if point.x < aabb.min.x {
            aabb.min.x = point.x;
        }
        if point.y < aabb.min.y {
            aabb.min.y = point.y;
        }
        if point.z < aabb.min.z {
            aabb.min.z = point.z;
        }
        if point.x > aabb.max.x {
            aabb.max.x = point.x;
        }
        if point.y > aabb.max.y {
            aabb.max.y = point.y;
        }
        if point.z > aabb.max.z {
            aabb.max.z = point.z;
        }
        k += 1;
        proof {
            let next = edges@.subrange(0, k as int);
            assert(next[k - 1] == edges@[k - 1]);
            assert forall|i: int| 0 <= i < next.len() implies aabb.spec_holds(
                spec_start_point(objects@, #[trigger] next[i]),
            ) by {
                if i < k - 1 {
                    assert(next[i] == seen[i]);
                    assert(before.spec_holds(spec_start_point(objects@, seen[i])));
                }
            }
            let x0 = choose|i: int|
                0 <= i < seen.len() && spec_start_point(objects@, #[trigger] seen[i]).0
                    == before.min.x;
            let y0 = choose|i: int|
                0 <= i < seen.len() && spec_start_point(objects@, #[trigger] seen[i]).1
                    == before.min.y;
            let z0 = choose|i: int|
                0 <= i < seen.len() && spec_start_point(objects@, #[trigger] seen[i]).2
                    == before.min.z;
            let x1 = choose|i: int|
                0 <= i < seen.len() && spec_start_point(objects@, #[trigger] seen[i]).0
                    == before.max.x;
            let y1 = choose|i: int|
                0 <= i < seen.len() && spec_start_point(objects@, #[trigger] seen[i]).1
                    == before.max.y;
            let z1 = choose|i: int|
                0 <= i < seen.len() && spec_start_point(objects@, #[trigger] seen[i]).2
                    == before.max.z;
            assert(next[x0] == seen[x0] && next[y0] == seen[y0] && next[z0] == seen[z0]);
            assert(next[x1] == seen[x1] && next[y1] == seen[y1] && next[z1] == seen[z1]);
            let at_x0 = if aabb.min.x == before.min.x {
                x0
            } else {
                k - 1
            };
            let at_y0 = if aabb.min.y == before.min.y {
                y0
            } else {
                k - 1
            };
            let at_z0 = if aabb.min.z == before.min.z {
                z0
            } else {
                k - 1
            };
            let at_x1 = if aabb.max.x == before.max.x {
                x1
            } else {
                k - 1
            };
            let at_y1 = if aabb.max.y == before.max.y {
                y1
            } else {
                k - 1
            };
            let at_z1 = if aabb.max.z == before.max.z {
                z1
            } else {
                k - 1
            };
            assert(spec_start_point(objects@, next[at_x0]).0 == aabb.min.x);
            assert(spec_start_point(objects@, next[at_y0]).1 == aabb.min.y);
            assert(spec_start_point(objects@, next[at_z0]).2 == aabb.min.z);
            assert(spec_start_point(objects@, next[at_x1]).0 == aabb.max.x);
            assert(spec_start_point(objects@, next[at_y1]).1 == aabb.max.y);
            assert(spec_start_point(objects@, next[at_z1]).2 == aabb.max.z);
        }
    }
    assert(edges@.subrange(0, k as int) =~= edges@);
    Some(aabb)
}

/// The point in space where a half-edge of a face starts.
fn start_point(edge: &EdgeOnSurface, objects: &Objects) -> (p: GlobalPosition)
    requires
        objects@.has_half_edge(edge.0),
        objects@.has_surface(edge.1),
    ensures
        (p.x as int, p.y as int, p.z as int) == spec_start_point(objects@, *edge),
{
    let on_surface = objects.half_edge(&edge.0).start_position();
    objects.surface(&edge.1).geometry.point_from_surface_coords(on_surface)
}

} // verus!
