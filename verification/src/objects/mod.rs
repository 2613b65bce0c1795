//! The objects that a shape is made of, and the store that holds them.

pub mod vertex;
pub mod edge;
pub mod cycle;
pub mod surface;
pub mod face;
pub mod shell;
pub mod store;
