//! The records that a memory store holds, and the requests and receipts around them.

pub mod artifact;
pub mod audit;
pub mod claim;
pub mod evidence;
pub mod graph;
pub mod profile;
pub mod proposal;
pub mod recall;
pub mod receipt;
pub mod relation;
pub mod verdict;
