//! Message types for talking to other agents and tools.

pub mod a2a;
pub mod mcp;
