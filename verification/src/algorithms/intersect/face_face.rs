//! The intersection of two faces.

use vstd::prelude::*;
use crate::algorithms::intersect::curve_face::{
    lemma_merge_empty, spec_any_overlap, spec_is_merge, CurveFaceIntersection,
};
use crate::algorithms::intersect::surface_surface::SurfaceSurfaceIntersection;
use crate::geometry::curve::Curve;

verus! {

/// Where two faces meet.
#[derive(Clone, Debug, PartialEq, Eq, Hash)]
pub struct FaceFaceIntersection {
    /// The curve along which the faces meet, once in the coordinates of the
    /// surface of each face. Both stand for the same curve in space.
    pub intersection_curves: [Curve; 2],
    /// The stretches of the curve that lie within both faces. A parameter
    /// means the same point on both curves.
    pub intersection_intervals: CurveFaceIntersection,
}

impl FaceFaceIntersection {
    /// Where two faces meet, from where their surfaces meet and from the
    /// stretches of that curve that lie within each face.
    ///
    /// There is no intersection where the surfaces do not meet, and none
    /// where no stretch within the one face overlaps a stretch within the
    /// other. Both are results, not errors. `curve_faces` is not looked at
    /// where the surfaces do not meet.
    pub fn compute(
        surfaces: Option<SurfaceSurfaceIntersection>,
        curve_faces: [CurveFaceIntersection; 2],
    ) -> (intersection: Option<Self>)
        ensures
            intersection is Some <==> surfaces is Some && spec_any_overlap(
                curve_faces[0]@,
                curve_faces[1]@,
            ),
            intersection matches Some(found) ==> found.intersection_curves
                == surfaces->0.intersection_curves && spec_is_merge(
                curve_faces[0]@,
                curve_faces[1]@,
                found.intersection_intervals@,
            ),
    {
        let intersection_curves = match surfaces {
            Some(intersection) => intersection.intersection_curves,
            None => {
                return None;
            },
        };
        let intersection_intervals = curve_faces[0].merge(&curve_faces[1]);
        proof {
            lemma_merge_empty(curve_faces[0]@, curve_faces[1]@, intersection_intervals@);
        }
        if intersection_intervals.is_empty() {
            return None;
        }
        Some(FaceFaceIntersection { intersection_curves, intersection_intervals })
    }
}

} // verus!
