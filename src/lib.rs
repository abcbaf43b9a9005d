//! Arithmetic-circuit core of a proof of solvency: the gates, the witness
//! layout and the satisfiability check for one Merkle-sum-tree authentication
//! path, followed by a strict less-than check of the root sum against the
//! total assets.
pub mod field;
pub mod gates;
pub mod less_than;
pub mod merkle_sum_tree;
pub mod poseidon;
