# marshal

Erasure coded dissemination of blocks, verified with Verus.

A proposer codes a block into chunks of which any half suffice, and sends every participant one
chunk as a *shard*. Participants spread the shards further, and whoever has enough of them
reconstructs the block and hands it to those who wait for it.

## Layout

- `src/` is the verified library.
  - `block.rs`, `codec.rs`, `hash.rs`, `types.rs`: what a block is, bytes and digests.
  - `coding/chunk.rs`, `coding/erasure.rs`: chunks and the Reed-Solomon coder of
    `commonware-coding`. The coder is trusted: the contracts of its wrappers say what is claimed.
  - `coding/shard.rs`: shards, their encoding and their identifiers.
  - `coding/coded_block.rs`, `envelope.rs`: blocks with their commitment, with and without chunks.
  - `coding/subscriptions.rs`, `coding/layer.rs`: who waits for which block, and the layer that
    spreads shards and reconstructs blocks.
  - `coding/application.rs`, `mailbox.rs`: proposals, and messages to the actor.
  - `mocks.rs`: a minimal block.
- `app/` drives the library with channels, the buffered broadcast engine and a runtime.
- `tests/` runs the library, with the real coder and hash function.

## What is proved

- Reading a shard or a coded block undoes writing it, whatever bytes follow; a shard has no second
  encoding.
- Any sufficient choice of a block's shards, in any order, reconstructs exactly that block; too few
  reconstruct nothing, and are no error.
- A block is never reconstructed from shards that repeat an index, that have an index out of range,
  or that the commitment does not contain.
- Everyone who waits for a block is told of it once, in the order of coming; a failed attempt
  leaves everyone waiting.
- Coded blocks are equal exactly if their blocks and configurations are.
- What is relayed is the block that was proposed.
- Under the configuration chosen for any 2 to 65535 participants every block of up to 4 GiB can be
  coded, and there are no more shards than participants.

Digests are those of SHA-256.
