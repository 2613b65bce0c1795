//! Intersections.
//!
//! Where two faces meet is found in three steps: the curve in which their
//! surfaces meet, the stretches of that curve that lie within each face, and
//! the stretches that lie within both. The first two steps measure; their
//! results are handed to this module as values. The third is decided here.

pub mod curve_face;
pub mod face_face;
pub mod surface_surface;
