//! The subset gate: membership in the table by the host's native lookup
//! argument.

pub mod assignments;
pub mod config;
pub mod laws;
