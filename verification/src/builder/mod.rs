//! Builders: objects assembled from a few given parts.

pub mod cycle;
pub mod edge;
