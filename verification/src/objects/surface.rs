//! Surfaces as objects.

use vstd::prelude::*;
use crate::geometry::surface::SurfaceGeometry;

verus! {

/// A surface that faces lie on.
#[derive(Clone, Copy, Debug, PartialEq, Eq, Structural, Hash)]
pub struct Surface {
    /// Where the surface lies in space
    pub geometry: SurfaceGeometry,
}

impl Surface {
    /// The surface with this geometry.
    pub fn new(geometry: SurfaceGeometry) -> (s: Surface)
        ensures
            s.geometry == geometry,
    {
        Surface { geometry }
    }

    /// Where the surface lies in space.
    pub fn geometry(&self) -> (g: SurfaceGeometry)
        ensures
            g == self.geometry,
    {
        self.geometry
    }
}

} // verus!
