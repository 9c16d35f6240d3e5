//! Memory layer: block allocation, owned memory blocks, and the
//! downward-growing paged stack built on top of them.

pub mod allocator;
pub mod base;
pub mod block;
pub mod defs;
pub mod stack;
