//! Laws: what the operations of the library return, told by the bytes and numbers that go in and
//! come out, and by how calls relate to one another.
//!
//! Each law speaks of calls: that an operation, on these arguments, returned this result.

pub mod adapter;
pub mod blocks;
pub mod bytes;
pub mod coded_blocks;
pub mod envelopes;
pub mod layer;
pub mod messages;
pub mod shards;
pub mod subscribers;
