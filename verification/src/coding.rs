//! Erasure coding of blocks.

pub mod application;
pub mod chunk;
pub mod coded_block;
pub mod erasure;
pub mod layer;
pub mod shard;
pub mod subscriptions;
