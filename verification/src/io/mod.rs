//! Models as they are written in files.

pub mod format;
pub mod insightmaker;
pub mod parser;
pub mod xmile;
