//! Text handling that the rest of the crate builds on.

pub mod chars;
pub mod decimal;
pub mod digest;
