//! Laws of envelopes.

use vstd::prelude::*;
use vstd::std_specs::cmp::PartialEqSpec;

use crate::block::{self, Block};
use crate::codec::{config_be, u16_at, CodecError};
use crate::coding::coded_block;
use crate::coding::coded_block::{coded_data, coded_data_roundtrip};
use crate::coding::erasure::{codable, is_codable, rs_encoding};
use crate::envelope::CodedBlock;
use crate::types::Digest;

verus! {

/// An envelope is the block that it carries: it has its digest, its height and its parent, whatever
/// the configuration, and gives the block back.
pub proof fn envelope_is_the_block_that_it_carries<B: Block>(
    block: B,
    config: (u16, u16),
    made: CodedBlock<B>,
    inner: B,
    digest: Digest,
    height: u64,
    parent: Digest,
    block_digest: Digest,
    block_height: u64,
    block_parent: Digest,
)
    requires
        call_ensures(CodedBlock::<B>::new, (block, config), made),
        call_ensures(CodedBlock::<B>::inner, (&made,), &inner),
        call_ensures(<CodedBlock<B> as Block>::digest, (&made,), digest),
        call_ensures(<CodedBlock<B> as Block>::height, (&made,), height),
        call_ensures(<CodedBlock<B> as Block>::parent, (&made,), parent),
        call_ensures(B::digest, (&block,), block_digest),
        call_ensures(B::height, (&block,), block_height),
        call_ensures(B::parent, (&block,), block_parent),
    ensures
        inner == block,
        digest.0@ == block_digest.0@,
        height == block_height,
        parent.0@ == block_parent.0@,
{
}

/// An envelope is encoded as its block and, behind it, the total and the minimum, as two digits of
/// base 256 each; it is as long as it says, and is written behind what is there.
pub proof fn envelope_is_encoded_as_block_and_configuration<B: Block>(
    block: B,
    config: (u16, u16),
    made: CodedBlock<B>,
    block_bytes: Vec<u8>,
    bytes: Vec<u8>,
    size: usize,
    buf: &mut Vec<u8>,
    w: (),
)
    requires
        call_ensures(CodedBlock::<B>::new, (block, config), made),
        call_ensures(block::encode::<B>, (&block,), block_bytes),
        call_ensures(block::encode::<CodedBlock<B>>, (&made,), bytes),
        call_ensures(<CodedBlock<B> as Block>::encode_size, (&made,), size),
        call_ensures(<CodedBlock<B> as Block>::write, (&made, buf), w),
    ensures
        ({
            let n = block_bytes@.len() as int;
            &&& bytes@.len() == n + 4
            &&& bytes@.take(n) == block_bytes@
            &&& bytes@[n] * 256 + bytes@[n + 1] == config.0
            &&& bytes@[n + 2] * 256 + bytes@[n + 3] == config.1
            &&& size == n + 4
            &&& final(buf)@ == old(buf)@ + bytes@
        }),
{
    assert(bytes@.take(block_bytes@.len() as int) =~= block_bytes@);
}

/// An envelope that is encoded and read again is the same, commitment and all, whatever bytes
/// follow; and exactly its encoding is taken. With nothing behind it, it decodes; with something,
/// decoding says how many bytes are left over.
pub proof fn encoded_envelope_reads_back<B: Block>(
    block: B,
    config: (u16, u16),
    made: CodedBlock<B>,
    bytes: Vec<u8>,
    rest: Seq<u8>,
    cfg: B::Cfg,
)
    requires
        B::admitted(block@, cfg),
        codable(config, bytes@.len()),
        call_ensures(CodedBlock::<B>::new, (block, config), made),
        call_ensures(block::encode::<CodedBlock<B>>, (&made,), bytes),
    ensures
        CodedBlock::<B>::readable(bytes@ + rest, cfg),
        CodedBlock::<B>::decoding(bytes@ + rest, cfg) matches Ok((x, n)) && x == made@ && n
            == bytes@.len(),
        block::decoded::<CodedBlock<B>>(bytes@, cfg) matches Ok(x) && x == made@,
        rest.len() > 0 ==> (block::decoded::<CodedBlock<B>>(bytes@ + rest, cfg) matches Err(e) && e
            == CodecError::ExtraData(rest.len() as usize)),
{
    assert(bytes@ == coded_data::<B>(block@, config));
    coded_data_roundtrip::<B>(block@, config, cfg, rest);
    coded_data_roundtrip::<B>(block@, config, cfg, Seq::empty());
    assert(bytes@ + Seq::<u8>::empty() =~= bytes@);
}

/// An envelope is read as a block and four bytes behind it: two digits of base 256 for the total
/// and two for the minimum. It carries that block under that configuration, and the coder makes the
/// rest of it. Where the block cannot be read, or the four bytes are not there, there is none. It
/// can be read unless the block cannot, or the coder does not take it under the configuration.
pub proof fn envelope_is_read_as_block_and_configuration<B: Block>(bytes: Seq<u8>, cfg: B::Cfg)
    ensures
        match B::decoding(bytes, cfg) {
            Ok((inner, n)) => if n + 4 <= bytes.len() {
                let tail = bytes.subrange(n as int, n as int + 4);
                let total = (tail[0] * 256 + tail[1]) as u16;
                let min = (tail[2] * 256 + tail[3]) as u16;
                &&& CodedBlock::<B>::decoding(bytes, cfg) matches Ok((x, m)) && {
                    &&& m == n + 4
                    &&& x.inner == inner
                    &&& x.config == (total, min)
                    &&& x.commitment == rs_encoding(total, min, B::encoding(inner) + tail).0
                }
                &&& CodedBlock::<B>::readable(bytes, cfg) <==> B::readable(bytes, cfg) && codable(
                    (total, min),
                    B::encoding(inner).len() + 4,
                )
            } else {
                &&& CodedBlock::<B>::decoding(bytes, cfg) matches Err(e) && e
                    == CodecError::EndOfBuffer
                &&& CodedBlock::<B>::readable(bytes, cfg) <==> B::readable(bytes, cfg)
            },
            Err(e) => {
                &&& CodedBlock::<B>::decoding(bytes, cfg) matches Err(f) && f == e
                &&& CodedBlock::<B>::readable(bytes, cfg) <==> B::readable(bytes, cfg)
            },
        },
{
    if let Ok((_, n)) = B::decoding(bytes, cfg) {
        if n + 4 <= bytes.len() {
            let tail = bytes.subrange(n as int, n as int + 4);
            let total = (tail[0] * 256 + tail[1]) as u16;
            let min = (tail[2] * 256 + tail[3]) as u16;
            assert(total == u16_at(bytes, n as int) && min == u16_at(bytes, n as int + 2));
            assert(config_be((total, min)) =~= tail);
        }
    }
}

/// A copy of an envelope is the same.
pub proof fn envelope_copies_are_the_same<B: Block>(
    x: CodedBlock<B>,
    copy: CodedBlock<B>,
    duplicate: CodedBlock<B>,
)
    requires
        call_ensures(<CodedBlock<B> as Clone>::clone, (&x,), copy),
        call_ensures(<CodedBlock<B> as Block>::duplicate, (&x,), duplicate),
    ensures
        copy@ == x@,
        duplicate@ == x@,
{
}

/// Envelopes are equal exactly if their blocks are, and their configurations.
pub proof fn envelopes_are_equal_by_block_and_configuration<B: Block + PartialEq>(
    block1: B,
    config1: (u16, u16),
    x: CodedBlock<B>,
    block2: B,
    config2: (u16, u16),
    y: CodedBlock<B>,
    blocks_equal: bool,
    r: bool,
)
    requires
        <B as PartialEqSpec>::obeys_eq_spec(),
        call_ensures(CodedBlock::<B>::new, (block1, config1), x),
        call_ensures(CodedBlock::<B>::new, (block2, config2), y),
        call_ensures(<B as PartialEq>::eq, (&block1, &block2), blocks_equal),
        blocks_equal ==> B::encoding(block1@) == B::encoding(block2@),
        call_ensures(<CodedBlock<B> as PartialEq>::eq, (&x, &y), r),
    ensures
        r <==> blocks_equal && config1 == config2,
{
}

/// The commitment of an envelope is the root that the coder gives for its encoding, and that of the
/// coded block that is made of the same.
pub proof fn envelope_carries_the_commitment<B: Block>(
    block: B,
    config: (u16, u16),
    made: CodedBlock<B>,
    bytes: Vec<u8>,
    commitment: Digest,
    coded: coded_block::CodedBlock<B>,
    coded_commitment: Digest,
    coded_bytes: Vec<u8>,
)
    requires
        call_ensures(CodedBlock::<B>::new, (block, config), made),
        call_ensures(block::encode::<CodedBlock<B>>, (&made,), bytes),
        call_ensures(<CodedBlock<B> as Block>::commitment, (&made,), commitment),
        call_ensures(coded_block::CodedBlock::<B>::new, (block, config), coded),
        call_ensures(
            <coded_block::CodedBlock<B> as Block>::commitment,
            (&coded,),
            coded_commitment,
        ),
        call_ensures(block::encode::<coded_block::CodedBlock<B>>, (&coded,), coded_bytes),
    ensures
        commitment.0@ == rs_encoding(config.0, config.1, bytes@).0,
        commitment.0@ == coded_commitment.0@,
        bytes@ == coded_bytes@,
{
}

/// A block can be put into an envelope, and the envelope read back, wherever the coder takes its
/// encoding and four bytes more and the block itself reads back.
pub proof fn codable_blocks_become_envelopes<B: Block>(
    block: B,
    config: (u16, u16),
    bytes: Vec<u8>,
    size: usize,
    made: CodedBlock<B>,
    cfg: B::Cfg,
)
    requires
        call_ensures(block::encode::<B>, (&block,), bytes),
        size == bytes@.len() + 4,
        call_ensures(is_codable, (config, size), true),
        call_ensures(CodedBlock::<B>::new, (block, config), made),
    ensures
        call_requires(CodedBlock::<B>::new, (block, config)),
        B::admitted(block@, cfg) <==> CodedBlock::<B>::admitted(made@, cfg),
{
}

} // verus!
