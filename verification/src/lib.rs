//! A boundary-representation kernel on an integer lattice.
//!
//! Solids are graphs of vertices, half-edges, cycles, faces and shells kept
//! in an object store and referred to by handles. All coordinates are lattice
//! integers, so every geometric predicate in this crate is decided exactly.
//!
//! A line maps a parameter to its origin plus so many steps of its
//! direction. A circle maps a parameter to the point so many quarter turns
//! round, so that lattice parameters give lattice points. A plane maps a
//! surface position to its origin plus so many steps along its two
//! coordinates.
//!
//! What is no lattice value in general is not computed here: where two planes
//! meet, and where a line crosses the side of a face. Such values are
//! measured by the caller and handed in.

pub mod math;
pub mod geometry;
pub mod storage;
mod windows;
pub mod objects;
pub mod validate;
pub mod algorithms;
pub mod partial;
pub mod builder;
pub mod operations;
pub mod viewer;
