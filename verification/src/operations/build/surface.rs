//! Building surfaces.

use vstd::prelude::*;
use crate::geometry::surface::{
    spec_step, spec_step_fits, step, GlobalLine, GlobalPath, SurfaceGeometry,
};
use crate::math::Point3;
use crate::objects::surface::Surface;

verus! {

/// The plane through `a`, `b` and `c` that has `a` at its origin, `b` one
/// step along its first coordinate and `c` one step along its second.
pub open spec fn spec_plane(a: Point3, b: Point3, c: Point3) -> Surface {
    Surface {
        geometry: SurfaceGeometry {
            u: GlobalPath::Line(GlobalLine { origin: a, direction: spec_step(a, b) }),
            v: spec_step(a, c),
        },
    }
}

/// The plane through three points maps `(0, 0)`, `(1, 0)` and `(0, 1)` to
/// them.
pub proof fn lemma_plane_through_points(a: Point3, b: Point3, c: Point3)
    requires
        spec_step_fits(a, b),
        spec_step_fits(a, c),
    ensures
        spec_plane(a, b, c).geometry.spec_point(0, 0) == (a.x as int, a.y as int, a.z as int),
        spec_plane(a, b, c).geometry.spec_point(1, 0) == (b.x as int, b.y as int, b.z as int),
        spec_plane(a, b, c).geometry.spec_point(0, 1) == (c.x as int, c.y as int, c.z as int),
{
}

/// Building surfaces.
pub trait BuildSurface {
    /// The plane through three points, with the first at its origin, the
    /// second one step along its first coordinate and the third one step
    /// along its second. There is none on the lattice where a step from the
    /// first point to another is longer than a lattice vector can be.
    fn plane_from_points(points: [Point3; 3]) -> (plane: Option<Surface>)
        ensures
            plane is Some <==> spec_step_fits(points[0], points[1]) && spec_step_fits(
                points[0],
                points[2],
            ),
            plane matches Some(surface) ==> surface == spec_plane(points[0], points[1], points[2]),
    {
        let a = points[0];
        let b = points[1];
        let c = points[2];
        let u = match GlobalPath::line_from_points(a, b) {
            Some(path) => path,
            None => {
                return None;
            },
        };
        let v = match step(a, c) {
            Some(v) => v,
            None => {
                return None;
            },
        };
        Some(Surface::new(SurfaceGeometry { u, v }))
    }
}

impl BuildSurface for Surface {

}

} // verus!
