//! Constraint construction for register-machine steps, a fixed operation
//! table with its multiplicities, and the proof-graph claim propagation
//! that composes per-node sub-proofs.
use vstd::prelude::*;

pub mod circuit_builder;
pub mod expr;
pub mod global_state;
pub mod graph;
pub mod ops_table;
pub mod r_insn;
pub mod witness;

verus! {

} // verus!
