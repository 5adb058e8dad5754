//! Values exchanged with the web front end.

pub mod error;
pub mod types;
