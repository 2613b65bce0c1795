use fj_kernel::algorithms::intersect::curve_face::CurveFaceIntersection;
use fj_kernel::algorithms::intersect::face_face::FaceFaceIntersection;
use fj_kernel::algorithms::intersect::surface_surface::SurfaceSurfaceIntersection;
use fj_kernel::geometry::curve::{Curve, Line};
use fj_kernel::math::{Point1, Point2};

fn intervals(bounds: &[[i32; 2]]) -> Option<CurveFaceIntersection> {
    CurveFaceIntersection::from_intervals(
        bounds.iter().map(|[start, end]| [Point1::new(*start), Point1::new(*end)]).collect(),
    )
}

fn bounds(intersection: &CurveFaceIntersection) -> Vec<[i32; 2]> {
    intersection.intervals().iter().map(|[start, end]| [start.t, end.t]).collect()
}

fn along_first_axis() -> Curve {
    Curve::Line(Line::from_points(Point2::new(0, 0), Point2::new(1, 0)).unwrap())
}

#[test]
fn compute_no_intersection() {
    // Two squares from (1, 1) to (2, 2), one on the plane of the first two
    // axes, one on the plane of the first and the third. The planes meet in
    // the first axis, which neither square reaches.
    let surfaces = SurfaceSurfaceIntersection::from_curves([along_first_axis(); 2]);
    let [a, b] = [intervals(&[]).unwrap(), intervals(&[]).unwrap()];

    let intersection = FaceFaceIntersection::compute(Some(surfaces), [a, b]);

    assert!(intersection.is_none());
}

#[test]
fn compute_one_intersection() {
    // Two squares from (-1, -1) to (1, 1) on the same two planes. The first
    // axis lies within both from -1 to 1.
    let surfaces = SurfaceSurfaceIntersection::from_curves([along_first_axis(); 2]);
    let [a, b] = [intervals(&[[-1, 1]]).unwrap(), intervals(&[[-1, 1]]).unwrap()];

    let intersection = FaceFaceIntersection::compute(Some(surfaces), [a, b]);

    let expected_curves = [along_first_axis(); 2];
    let expected_intervals = intervals(&[[-1, 1]]).unwrap();
    assert_eq!(
        intersection,
        Some(FaceFaceIntersection {
            intersection_curves: expected_curves,
            intersection_intervals: expected_intervals
        })
    );
}

#[test]
fn surfaces_that_do_not_meet_give_no_intersection() {
    let [a, b] = [intervals(&[[-1, 1]]).unwrap(), intervals(&[[-1, 1]]).unwrap()];
    assert_eq!(FaceFaceIntersection::compute(None, [a, b]), None);
}

#[test]
fn faces_apart_on_the_shared_curve_give_no_intersection() {
    let surfaces = SurfaceSurfaceIntersection::from_curves([along_first_axis(); 2]);
    let [a, b] = [intervals(&[[-4, -2], [6, 9]]).unwrap(), intervals(&[[-2, 6]]).unwrap()];
    assert_eq!(FaceFaceIntersection::compute(Some(surfaces), [a, b]), None);
}

#[test]
fn intersection_covers_the_overlap_of_both_extents() {
    let on_first = Curve::Line(Line::from_points(Point2::new(0, 3), Point2::new(1, 3)).unwrap());
    let on_second = Curve::Line(Line::from_points(Point2::new(2, 0), Point2::new(3, 0)).unwrap());
    let surfaces = SurfaceSurfaceIntersection::from_curves([on_first, on_second]);
    let [a, b] = [intervals(&[[-5, 2]]).unwrap(), intervals(&[[0, 7]]).unwrap()];

    let found = FaceFaceIntersection::compute(Some(surfaces), [a, b]).unwrap();

    assert_eq!(found.intersection_curves, [on_first, on_second]);
    assert_eq!(bounds(&found.intersection_intervals), vec![[0, 2]]);
}

#[test]
fn merge_keeps_what_lies_within_both() {
    let a = intervals(&[[0, 5], [7, 10], [12, 20]]).unwrap();
    let b = intervals(&[[3, 8], [9, 13], [13, 14], [25, 30]]).unwrap();

    assert_eq!(bounds(&a.merge(&b)), vec![[3, 5], [7, 8], [9, 10], [12, 13], [13, 14]]);
    assert_eq!(bounds(&b.merge(&a)), vec![[3, 5], [7, 8], [9, 10], [12, 13], [13, 14]]);
    assert_eq!(bounds(&a.merge(&a)), bounds(&a));
}

#[test]
fn merge_drops_what_touches_in_a_point() {
    let a = intervals(&[[0, 5]]).unwrap();
    let b = intervals(&[[5, 9]]).unwrap();
    assert!(a.merge(&b).is_empty());

    let point = intervals(&[[2, 2]]).unwrap();
    assert!(a.merge(&point).is_empty());

    let none = intervals(&[]).unwrap();
    assert!(none.is_empty());
    assert!(a.merge(&none).is_empty());
    assert!(none.merge(&a).is_empty());
    assert!(!a.is_empty());
}

#[test]
fn intervals_must_be_in_order() {
    assert!(intervals(&[[0, 5], [5, 6]]).is_some());
    assert!(intervals(&[[0, 5], [4, 6]]).is_none());
    assert!(intervals(&[[5, 0]]).is_none());
    assert!(intervals(&[[7, 8], [0, 1]]).is_none());
    assert_eq!(bounds(&intervals(&[[0, 5], [5, 6]]).unwrap().clone()), vec![[0, 5], [5, 6]]);
}
