//! Analysis of model structure and behaviour.

pub mod optimization;
pub mod stability;
pub mod structure;

pub use stability::StabilityType;
pub use structure::{
    DependencyGraph, ElementType, FeedbackLoop, GraphEdge, GraphNode, Polarity, StructureAnalyzer,
};
