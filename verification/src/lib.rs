//! Runtime memory substrate for an interpreter of a hybrid
//! classical/quantum language: a block allocator with explicit
//! size/alignment contracts, a downward-growing paged bump stack, a
//! shared-ownership heap store keyed by qualified identifiers, a
//! perfect-hash table builder for fixed name sets, and a process
//! identity registry with a checked lifecycle.

pub mod data_impl;
pub mod instr;
pub mod ir;
pub mod mem;
pub mod memory;
pub mod utils;
