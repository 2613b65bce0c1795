//! The partial forms of the objects.

pub mod cycle;
pub mod edge;
pub mod face;
pub mod shell;
