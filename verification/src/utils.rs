//! Tools that the rest of the library shares.

pub mod decimal;
pub mod lines;
pub mod list;
pub mod randorst;
