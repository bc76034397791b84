//! Containers for structures that refer to their own elements by handle.

pub mod genarea;
pub mod graph;
