//! Operations that build objects from points.

pub mod face;
pub mod shell;
pub mod surface;
