//! A system dynamics toolkit: stock-and-flow models, the expression language
//! their equations are written in, and the rules that drive a simulation run.

pub mod analysis;
pub mod io;
pub mod model;
pub mod protocol;
pub mod number;
pub mod server;
pub mod simulation;
pub mod text;
pub mod visualization;
