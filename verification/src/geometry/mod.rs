//! Curves and surfaces.

pub mod curve;
pub mod surface;
