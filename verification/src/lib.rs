//! Erasure coded block dissemination.
//!
//! A block is erasure coded into chunks, each chunk travels to one peer as a shard, and any
//! sufficiently large set of shards reconstructs the block.
//!
//! - [block]: what is asked of a block; [mocks] holds a minimal one.
//! - [codec]: integers, digests and errors at the level of bytes.
//! - [coding]: chunks and their coder, shards, coded blocks, the layer that spreads and collects
//!   shards, and the adapter between consensus and the application.
//! - [envelope]: blocks with the commitment to their chunks, but without the chunks.
//! - [hash]: the hash function.
//! - [laws]: what the operations of the library do, one against the other.
//! - [mailbox]: messages to the actor that marshals blocks into order.
//! - [types]: digests, rounds and contexts.

pub mod block;
pub mod codec;
pub mod coding;
pub mod envelope;
pub mod hash;
pub mod laws;
pub mod mailbox;
pub mod mocks;
pub mod types;
