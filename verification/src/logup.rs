//! The logarithmic-derivative gate: the witnessed values lie in the table
//! if and only if, for a random `alpha`, the sum over the table of
//! `m / (alpha - t)` equals the sum over the witnesses of `1 / (alpha - w)`.

pub mod config;
pub mod assignments;
pub mod grid;
pub mod laws;
pub mod identities;
