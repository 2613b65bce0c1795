//! Operations that make objects.

pub mod build;
pub mod update;
