//! Vertices.

use vstd::prelude::*;

verus! {

/// A point of the topology.
///
/// A vertex has no data of its own: it is told from other vertices by the
/// handle that the store gave it, and placed by the half-edges that start
/// at it.
#[derive(Clone, Copy, Debug, PartialEq, Eq, Structural, Hash)]
pub struct Vertex {}

impl Vertex {
    /// A vertex.
    pub fn new() -> (v: Vertex) {
        Vertex {  }
    }
}

} // verus!
