//! Drawing a model as a graph.

pub mod graph;
pub mod layout;
