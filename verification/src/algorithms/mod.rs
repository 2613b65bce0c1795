//! Algorithms on finished objects.

pub mod bounding_volume;
pub mod intersect;
pub mod reverse;
