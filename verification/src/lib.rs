//! Lookup-argument gates for PLONKish circuits over the BN254 scalar field.
//!
//! A gate constrains buffered witness tuples to lie in the range table
//! `{0, .., 2^bit_size - 1}`.  The library computes what a gate declares
//! (columns, selectors, polynomial identities) and what it assigns (every
//! cell and selector of its region) as plain data; a thin binding replays
//! that data onto the host proving system.

pub mod field;
pub mod rational;
pub mod region;
pub mod plonk;
pub mod multiplicity;
pub mod logup;
pub mod subset;
pub mod witness;
