//! Laws of blocks.

use vstd::prelude::*;

use crate::block::{self, Block};
use crate::codec::CodecError;
use crate::hash::sha256_of;
use crate::mocks;
use crate::types::Digest;

verus! {

/// The operations of a block follow what its type says of it: its encoding, digest, commitment,
/// height and parent, and its reading.
pub proof fn operations_follow_the_model<B: Block>(
    x: B,
    copy: B,
    size: usize,
    digest: Digest,
    commitment: Digest,
    height: u64,
    parent: Digest,
    buf: &mut Vec<u8>,
    w: (),
    input: &[u8],
    cfg: B::Cfg,
    readable: bool,
    r: Result<(B, usize), CodecError>,
)
    requires
        call_ensures(B::duplicate, (&x,), copy),
        call_ensures(B::encode_size, (&x,), size),
        call_ensures(B::digest, (&x,), digest),
        call_ensures(B::commitment, (&x,), commitment),
        call_ensures(B::height, (&x,), height),
        call_ensures(B::parent, (&x,), parent),
        call_ensures(B::write, (&x, buf), w),
        call_ensures(B::is_readable, (input, &cfg), readable),
        call_ensures(B::read_cfg, (input, &cfg), r),
    ensures
        copy@ == x@,
        size == B::encoding(x@).len(),
        digest.0@ == B::digest_of(x@),
        commitment.0@ == B::commitment_of(x@),
        height == B::height_of(x@),
        parent.0@ == B::parent_of(x@),
        final(buf)@ == old(buf)@ + B::encoding(x@),
        readable == B::readable(input@, cfg),
        r is Ok <==> B::decoding(input@, cfg) is Ok,
        r matches Ok((y, n)) ==> B::decoding(input@, cfg) == Ok::<(B::V, nat), CodecError>(
            (y@, n as nat),
        ),
        r matches Err(e) ==> B::decoding(input@, cfg) == Err::<(B::V, nat), CodecError>(e),
{
}

/// Encoding a block is writing it where nothing is.
pub proof fn encoding_is_writing<B: Block>(
    x: B,
    bytes: Vec<u8>,
    buf: &mut Vec<u8>,
    w: (),
    size: usize,
)
    requires
        call_ensures(block::encode::<B>, (&x,), bytes),
        old(buf)@.len() == 0,
        call_ensures(B::write, (&x, buf), w),
        call_ensures(B::encode_size, (&x,), size),
    ensures
        bytes@ == final(buf)@,
        bytes@.len() == size,
{
    assert(old(buf)@ + B::encoding(x@) =~= B::encoding(x@));
}

/// Decoding takes all there is: it is reading, and an error where reading leaves bytes over.
pub proof fn decoding_leaves_nothing_over<B: Block>(
    buf: &[u8],
    cfg: B::Cfg,
    r: Result<(B, usize), CodecError>,
    d: Result<B, CodecError>,
)
    requires
        call_ensures(B::read_cfg, (buf, &cfg), r),
        call_ensures(block::decode_cfg::<B>, (buf, &cfg), d),
    ensures
        match r {
            Ok((block, n)) => {
                &&& n <= buf@.len()
                &&& n == buf@.len() ==> (d matches Ok(x) && x@ == block@)
                &&& n < buf@.len() ==> (d matches Err(e) && e == CodecError::ExtraData(
                    (buf@.len() - n) as usize,
                ))
            },
            Err(e) => d matches Err(f) && f == e,
        },
{
    B::decoding_is_bounded(buf@, cfg);
}

/// A block that is encoded and decoded is the same.
pub proof fn encoded_block_decodes<B: Block>(
    x: B,
    cfg: B::Cfg,
    bytes: Vec<u8>,
    buf: &[u8],
    d: Result<B, CodecError>,
)
    requires
        B::admitted(x@, cfg),
        call_ensures(block::encode::<B>, (&x,), bytes),
        buf@ == bytes@,
        call_ensures(block::decode_cfg::<B>, (buf, &cfg), d),
    ensures
        d matches Ok(y) && y@ == x@,
{
    block::decode_undoes_encode::<B>(x@, cfg);
}

/// The minimal block is encoded as its parent, its height and its timestamp, the integers as eight
/// digits of base 256; digest and commitment are the hash of that; and it has the height and the
/// parent that it was made with.
pub proof fn minimal_block_is_its_parts(
    parent: Digest,
    height: u64,
    timestamp: u64,
    made: mocks::Block,
    bytes: Vec<u8>,
    digest: Digest,
    commitment: Digest,
    told_height: u64,
    told_parent: Digest,
)
    requires
        call_ensures(mocks::Block::new, (parent, height, timestamp), made),
        call_ensures(block::encode::<mocks::Block>, (&made,), bytes),
        call_ensures(<mocks::Block as Block>::digest, (&made,), digest),
        call_ensures(<mocks::Block as Block>::commitment, (&made,), commitment),
        call_ensures(<mocks::Block as Block>::height, (&made,), told_height),
        call_ensures(<mocks::Block as Block>::parent, (&made,), told_parent),
    ensures
        bytes@.len() == 48,
        bytes@.take(32) == parent.0@,
        crate::codec::u64_at(bytes@, 32) == height,
        crate::codec::u64_at(bytes@, 40) == timestamp,
        digest.0@ == sha256_of(bytes@),
        commitment.0@ == sha256_of(bytes@),
        told_height == height,
        told_parent.0@ == parent.0@,
{
    assert(bytes@.take(32) =~= parent.0@);
    assert(bytes@.subrange(32, 40) =~= crate::codec::u64_be(height));
    assert(bytes@.subrange(40, 48) =~= crate::codec::u64_be(timestamp));
    crate::codec::u64_at_undoes_u64_be(bytes@, 32, height);
    crate::codec::u64_at_undoes_u64_be(bytes@, 40, timestamp);
}

/// The minimal block is read from 48 bytes, whatever they are and whatever follows, and from
/// nothing less.
pub proof fn minimal_block_is_read_from_its_parts(bytes: Seq<u8>)
    ensures
        <mocks::Block as Block>::readable(bytes, ()),
        bytes.len() >= 48 ==> (<mocks::Block as Block>::decoding(bytes, ()) matches Ok((x, n)) && {
            &&& n == 48
            &&& x.parent == bytes.take(32)
            &&& x.height == crate::codec::u64_at(bytes, 32)
            &&& x.timestamp == crate::codec::u64_at(bytes, 40)
        }),
        bytes.len() < 48 ==> (<mocks::Block as Block>::decoding(bytes, ()) matches Err(e) && e
            == CodecError::EndOfBuffer),
{
}

/// Every minimal block reads back.
pub proof fn minimal_blocks_read_back(x: mocks::Block, cfg: ())
    ensures
        <mocks::Block as Block>::admitted(x@, cfg),
{
}

/// Minimal blocks are equal exactly if parent, height and timestamp are.
pub proof fn minimal_blocks_are_equal_by_their_parts(a: mocks::Block, b: mocks::Block, r: bool)
    requires
        call_ensures(<mocks::Block as PartialEq>::eq, (&a, &b), r),
    ensures
        r <==> a.parent.0@ == b.parent.0@ && a.height == b.height && a.timestamp == b.timestamp,
{
}

} // verus!
