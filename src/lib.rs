//! A Merkle distributor: one committed root, many one-time claims.
use vstd::prelude::*;

pub mod merkle;
pub mod state;
pub mod instructions;

verus! {

} // verus!
