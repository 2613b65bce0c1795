//! The intersection of two surfaces.

use vstd::prelude::*;
use crate::geometry::curve::Curve;

verus! {

/// The curve in which two surfaces meet.
#[derive(Clone, Copy, Debug, PartialEq, Eq, Hash)]
pub struct SurfaceSurfaceIntersection {
    /// The curve, once in the coordinates of each surface. Both stand for the
    /// same curve in space, and a parameter means the same point on both.
    pub intersection_curves: [Curve; 2],
}

impl SurfaceSurfaceIntersection {
    /// The intersection along these curves.
    pub fn from_curves(intersection_curves: [Curve; 2]) -> (s: SurfaceSurfaceIntersection)
        ensures
            s.intersection_curves == intersection_curves,
    {
        SurfaceSurfaceIntersection { intersection_curves }
    }
}

} // verus!
