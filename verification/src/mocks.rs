//! A minimal block, to try the library on.

use vstd::prelude::*;

use crate::block;
use crate::codec::{
    read_digest, read_u64, u64_at, u64_at_undoes_u64_be, u64_be, write_digest, write_u64,
    CodecError,
};
use crate::hash::{sha256, sha256_of};
use crate::types::Digest;

verus! {

/// Length in bytes of an encoded [Block]: the parent, the height and the timestamp.
pub const BLOCK_SIZE: usize = 48;

/// A block that holds nothing but its place in the chain and a timestamp.
#[derive(Clone, Copy, Debug)]
pub struct Block {
    /// The commitment of the parent.
    pub parent: Digest,
    /// The height.
    pub height: u64,
    /// The timestamp.
    pub timestamp: u64,
}

/// What a [Block] holds.
#[verifier::ext_equal]
pub struct BlockView {
    /// The commitment of the parent.
    pub parent: Seq<u8>,
    /// The height.
    pub height: u64,
    /// The timestamp.
    pub timestamp: u64,
}

/// The bytes that represent a block.
pub open spec fn block_encoding(v: BlockView) -> Seq<u8> {
    v.parent + u64_be(v.height) + u64_be(v.timestamp)
}

impl View for Block {
    type V = BlockView;

    open spec fn view(&self) -> BlockView {
        BlockView { parent: self.parent@, height: self.height, timestamp: self.timestamp }
    }
}

impl Block {
    /// Creates a block.
    pub fn new(parent: Digest, height: u64, timestamp: u64) -> (r: Self)
        ensures
            r == (Block { parent, height, timestamp }),
    {
        Block { parent, height, timestamp }
    }

    /// Appends the parent, the height and the timestamp.
    fn append(&self, buf: &mut Vec<u8>)
        ensures
            final(buf)@ == old(buf)@ + block_encoding(self@),
    {
        write_digest(&self.parent, buf);
        write_u64(self.height, buf);
        write_u64(self.timestamp, buf);
        assert(buf@ =~= old(buf)@ + block_encoding(self@));
    }

    /// Hashes the parent, the height and the timestamp.
    fn hash(&self) -> (r: Digest)
        ensures
            r@ == sha256_of(block_encoding(self@)),
    {
        let mut buf: Vec<u8> = Vec::with_capacity(BLOCK_SIZE);
        self.append(&mut buf);
        assert(buf@ =~= block_encoding(self@));
        sha256(buf.as_slice())
    }
}

impl PartialEq for Block {
    fn eq(&self, other: &Self) -> (r: bool) {
        self.parent == other.parent && self.height == other.height && self.timestamp
            == other.timestamp
    }
}

impl vstd::std_specs::cmp::PartialEqSpecImpl for Block {
    open spec fn obeys_eq_spec() -> bool {
        true
    }

    open spec fn eq_spec(&self, other: &Self) -> bool {
        self@ == other@
    }
}

impl Eq for Block {

}

impl block::Block for Block {
    type Cfg = ();

    open spec fn admitted(v: BlockView, cfg: ()) -> bool {
        v.parent.len() == 32
    }

    open spec fn encoding(v: BlockView) -> Seq<u8> {
        block_encoding(v)
    }

    open spec fn readable(bytes: Seq<u8>, cfg: ()) -> bool {
        true
    }

    open spec fn decoding(bytes: Seq<u8>, cfg: ()) -> Result<(BlockView, nat), CodecError> {
        if bytes.len() < BLOCK_SIZE {
            Err(CodecError::EndOfBuffer)
        } else {
            Ok(
                (
                    BlockView {
                        parent: bytes.take(32),
                        height: u64_at(bytes, 32),
                        timestamp: u64_at(bytes, 40),
                    },
                    BLOCK_SIZE as nat,
                ),
            )
        }
    }

    open spec fn digest_of(v: BlockView) -> Seq<u8> {
        sha256_of(block_encoding(v))
    }

    open spec fn commitment_of(v: BlockView) -> Seq<u8> {
        sha256_of(block_encoding(v))
    }

    open spec fn height_of(v: BlockView) -> u64 {
        v.height
    }

    open spec fn parent_of(v: BlockView) -> Seq<u8> {
        v.parent
    }

    proof fn decoding_is_bounded(bytes: Seq<u8>, cfg: ()) {
    }

    proof fn decoding_undoes_encoding(v: BlockView, cfg: (), rest: Seq<u8>) {
        let bytes = block_encoding(v) + rest;
        assert(bytes.take(32) =~= v.parent);
        assert(bytes.subrange(32, 40) =~= u64_be(v.height));
        assert(bytes.subrange(40, 48) =~= u64_be(v.timestamp));
        u64_at_undoes_u64_be(bytes, 32, v.height);
        u64_at_undoes_u64_be(bytes, 40, v.timestamp);
    }

    fn duplicate(&self) -> (r: Self) {
        *self
    }

    fn write(&self, buf: &mut Vec<u8>) {
        self.append(buf)
    }

    fn encode_size(&self) -> (r: usize) {
        BLOCK_SIZE
    }

    fn is_readable(buf: &[u8], cfg: &()) -> (r: bool) {
        true
    }

    fn read_cfg(buf: &[u8], cfg: &()) -> (r: Result<(Self, usize), CodecError>) {
        let parent = match read_digest(buf, 0) {
            Ok(parent) => parent,
            Err(e) => return Err(e),
        };
        let height: u64 = match read_u64(buf, 32) {
            Ok(height) => height,
            Err(e) => return Err(e),
        };
        let timestamp: u64 = match read_u64(buf, 40) {
            Ok(timestamp) => timestamp,
            Err(e) => return Err(e),
        };
        assert(parent@ =~= buf@.take(32));
        Ok((Block { parent, height, timestamp }, BLOCK_SIZE))
    }

    fn digest(&self) -> (r: Digest) {
        self.hash()
    }

    fn commitment(&self) -> (r: Digest) {
        self.hash()
    }

    fn height(&self) -> (r: u64) {
        self.height
    }

    fn parent(&self) -> (r: Digest) {
        self.parent
    }
}

} // verus!
