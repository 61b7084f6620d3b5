//! Laws of coded blocks.

use vstd::prelude::*;
use vstd::std_specs::cmp::PartialEqSpec;

use crate::block::{self, Block};
use crate::codec::{config_be, u16_at, CodecError};
use crate::coding::chunk::{chunks_view, Chunk};
use crate::coding::coded_block::{coded_data, coded_data_roundtrip, CodedBlock};
use crate::coding::erasure::{codable, is_codable, rs_encoding};
use crate::coding::shard::Shard;
use crate::laws::shards::same_chunk;
use crate::types::Digest;

verus! {

/// A coded block is the block that it carries: it has its digest, its height and its parent,
/// whatever the configuration, and gives the block back.
pub proof fn coded_block_is_the_block_that_it_carries<B: Block>(
    block: B,
    config: (u16, u16),
    made: CodedBlock<B>,
    inner: B,
    digest: Digest,
    height: u64,
    parent: Digest,
    block_digest: Digest,
    block_height: u64,
    block_parent: Digest,
)
    requires
        call_ensures(CodedBlock::<B>::new, (block, config), made),
        call_ensures(CodedBlock::<B>::inner, (&made,), &inner),
        call_ensures(<CodedBlock<B> as Block>::digest, (&made,), digest),
        call_ensures(<CodedBlock<B> as Block>::height, (&made,), height),
        call_ensures(<CodedBlock<B> as Block>::parent, (&made,), parent),
        call_ensures(B::digest, (&block,), block_digest),
        call_ensures(B::height, (&block,), block_height),
        call_ensures(B::parent, (&block,), block_parent),
    ensures
        inner == block,
        digest.0@ == block_digest.0@,
        height == block_height,
        parent.0@ == block_parent.0@,
{
}

/// A coded block is encoded as its block and, behind it, the total and the minimum, as two digits
/// of base 256 each; it is as long as it says, and is written behind what is there.
pub proof fn coded_block_is_encoded_as_block_and_configuration<B: Block>(
    block: B,
    config: (u16, u16),
    made: CodedBlock<B>,
    block_bytes: Vec<u8>,
    bytes: Vec<u8>,
    size: usize,
    buf: &mut Vec<u8>,
    w: (),
)
    requires
        call_ensures(CodedBlock::<B>::new, (block, config), made),
        call_ensures(block::encode::<B>, (&block,), block_bytes),
        call_ensures(block::encode::<CodedBlock<B>>, (&made,), bytes),
        call_ensures(<CodedBlock<B> as Block>::encode_size, (&made,), size),
        call_ensures(<CodedBlock<B> as Block>::write, (&made, buf), w),
    ensures
        ({
            let n = block_bytes@.len() as int;
            &&& bytes@.len() == n + 4
            &&& bytes@.take(n) == block_bytes@
            &&& bytes@[n] * 256 + bytes@[n + 1] == config.0
            &&& bytes@[n + 2] * 256 + bytes@[n + 3] == config.1
            &&& size == n + 4
            &&& final(buf)@ == old(buf)@ + bytes@
        }),
{
    assert(bytes@.take(block_bytes@.len() as int) =~= block_bytes@);
}

/// A coded block that is encoded and read again is the same, commitment and all, whatever bytes
/// follow; and exactly its encoding is taken. With nothing behind it, it decodes; with something,
/// decoding says how many bytes are left over.
pub proof fn encoded_coded_block_reads_back<B: Block>(
    block: B,
    config: (u16, u16),
    made: CodedBlock<B>,
    bytes: Vec<u8>,
    rest: Seq<u8>,
    cfg: B::Cfg,
)
    requires
        B::admitted(block@, cfg),
        codable(config, bytes@.len()),
        call_ensures(CodedBlock::<B>::new, (block, config), made),
        call_ensures(block::encode::<CodedBlock<B>>, (&made,), bytes),
    ensures
        CodedBlock::<B>::readable(bytes@ + rest, cfg),
        CodedBlock::<B>::decoding(bytes@ + rest, cfg) matches Ok((x, n)) && x == made@ && n
            == bytes@.len(),
        block::decoded::<CodedBlock<B>>(bytes@, cfg) matches Ok(x) && x == made@,
        rest.len() > 0 ==> (block::decoded::<CodedBlock<B>>(bytes@ + rest, cfg) matches Err(e) && e
            == CodecError::ExtraData(rest.len() as usize)),
{
    assert(bytes@ == coded_data::<B>(block@, config));
    coded_data_roundtrip::<B>(block@, config, cfg, rest);
    coded_data_roundtrip::<B>(block@, config, cfg, Seq::empty());
    assert(bytes@ + Seq::<u8>::empty() =~= bytes@);
}

/// A coded block is read as a block and four bytes behind it: two digits of base 256 for the total
/// and two for the minimum. It carries that block under that configuration, and the coder makes the
/// rest of it. Where the block cannot be read, or the four bytes are not there, there is none. It
/// can be read unless the block cannot, or the coder does not take it under the configuration.
pub proof fn coded_block_is_read_as_block_and_configuration<B: Block>(bytes: Seq<u8>, cfg: B::Cfg)
    ensures
        match B::decoding(bytes, cfg) {
            Ok((inner, n)) => if n + 4 <= bytes.len() {
                let tail = bytes.subrange(n as int, n as int + 4);
                let total = (tail[0] * 256 + tail[1]) as u16;
                let min = (tail[2] * 256 + tail[3]) as u16;
                &&& CodedBlock::<B>::decoding(bytes, cfg) matches Ok((x, m)) && {
                    &&& m == n + 4
                    &&& x.inner == inner
                    &&& x.config == (total, min)
                    &&& (x.commitment, x.chunks) == rs_encoding(
                        total,
                        min,
                        B::encoding(inner) + tail,
                    )
                }
                &&& CodedBlock::<B>::readable(bytes, cfg) <==> B::readable(bytes, cfg) && codable(
                    (total, min),
                    B::encoding(inner).len() + 4,
                )
            } else {
                &&& CodedBlock::<B>::decoding(bytes, cfg) matches Err(e) && e
                    == CodecError::EndOfBuffer
                &&& CodedBlock::<B>::readable(bytes, cfg) <==> B::readable(bytes, cfg)
            },
            Err(e) => {
                &&& CodedBlock::<B>::decoding(bytes, cfg) matches Err(f) && f == e
                &&& CodedBlock::<B>::readable(bytes, cfg) <==> B::readable(bytes, cfg)
            },
        },
{
    if let Ok((_, n)) = B::decoding(bytes, cfg) {
        if n + 4 <= bytes.len() {
            let tail = bytes.subrange(n as int, n as int + 4);
            let total = (tail[0] * 256 + tail[1]) as u16;
            let min = (tail[2] * 256 + tail[3]) as u16;
            assert(total == u16_at(bytes, n as int) && min == u16_at(bytes, n as int + 2));
            assert(config_be((total, min)) =~= tail);
        }
    }
}

/// A copy of a coded block is the same.
pub proof fn coded_block_copies_are_the_same<B: Block>(
    x: CodedBlock<B>,
    copy: CodedBlock<B>,
    duplicate: CodedBlock<B>,
)
    requires
        call_ensures(<CodedBlock<B> as Clone>::clone, (&x,), copy),
        call_ensures(<CodedBlock<B> as Block>::duplicate, (&x,), duplicate),
    ensures
        copy@ == x@,
        duplicate@ == x@,
{
}

/// Coded blocks are equal exactly if their blocks are, and their configurations.
pub proof fn coded_blocks_are_equal_by_block_and_configuration<B: Block + PartialEq>(
    block1: B,
    config1: (u16, u16),
    x: CodedBlock<B>,
    block2: B,
    config2: (u16, u16),
    y: CodedBlock<B>,
    blocks_equal: bool,
    r: bool,
)
    requires
        <B as PartialEqSpec>::obeys_eq_spec(),
        call_ensures(CodedBlock::<B>::new, (block1, config1), x),
        call_ensures(CodedBlock::<B>::new, (block2, config2), y),
        call_ensures(<B as PartialEq>::eq, (&block1, &block2), blocks_equal),
        blocks_equal ==> B::encoding(block1@) == B::encoding(block2@),
        call_ensures(<CodedBlock<B> as PartialEq>::eq, (&x, &y), r),
    ensures
        r <==> blocks_equal && config1 == config2,
{
}

/// A coded block says under which configuration it was made, and gives its block away.
pub proof fn coded_block_keeps_configuration_and_block<B: Block>(
    block: B,
    config: (u16, u16),
    made: CodedBlock<B>,
    told: (u16, u16),
    taken: B,
)
    requires
        call_ensures(CodedBlock::<B>::new, (block, config), made),
        call_ensures(CodedBlock::<B>::config, (&made,), told),
        call_ensures(CodedBlock::<B>::take_inner, (made,), taken),
    ensures
        told == config,
        taken == block,
{
}

/// There are as many chunks as the configuration says, numbered from zero. They are of one even
/// length: long enough that the minimum of them holds the encoding and four bytes more, and no
/// longer than that takes.
pub proof fn chunks_hold_the_encoding<B: Block>(
    x: CodedBlock<B>,
    config: (u16, u16),
    chunks: &[Chunk],
    bytes: Vec<u8>,
    k: int,
)
    requires
        call_ensures(CodedBlock::<B>::config, (&x,), config),
        call_ensures(CodedBlock::<B>::chunks, (&x,), chunks),
        call_ensures(block::encode::<CodedBlock<B>>, (&x,), bytes),
        0 <= k < chunks@.len(),
    ensures
        chunks@.len() == config.0,
        chunks@[k].index == k,
        chunks@[k].shard@.len() == chunks@[0].shard@.len(),
        chunks@[k].shard@.len() % 2 == 0,
        config.1 * chunks@[k].shard@.len() >= bytes@.len() + 4,
        config.1 * (chunks@[k].shard@.len() - 2) < bytes@.len() + 4,
{
    let views = chunks_view(chunks@);
    assert(views.len() == chunks@.len());
    assert(views[k] == chunks@[k]@ && views[0] == chunks@[0]@);
    let min = config.1 as int;
    let len = (bytes@.len() + 4) as int;
    let q = (len + min - 1) / min;
    assert(min * q >= len && min * (q - 1) < len) by (nonlinear_arith)
        requires
            min > 0,
            len >= 4,
            q == (len + min - 1) / min,
    ;
    assert(min * (q + q % 2) >= len && min * (q + q % 2 - 2) < len) by (nonlinear_arith)
        requires
            min > 0,
            min * q >= len,
            min * (q - 1) < len,
            0 <= q % 2 <= 1,
    ;
}

/// The commitment of a coded block proves each of its chunks: a shard that is made of them is
/// contained in its commitment.
pub proof fn commitment_proves_the_chunks<B: Block>(
    x: CodedBlock<B>,
    commitment: Digest,
    config: (u16, u16),
    chunks: &[Chunk],
    k: int,
    chunk: Chunk,
    shard: Shard,
    contained: bool,
)
    requires
        call_ensures(<CodedBlock<B> as Block>::commitment, (&x,), commitment),
        call_ensures(CodedBlock::<B>::chunks, (&x,), chunks),
        0 <= k < chunks@.len(),
        same_chunk(chunk, chunks@[k]),
        call_ensures(Shard::new, (commitment, config, chunk), shard),
        call_ensures(Shard::is_contained, (&shard,), contained),
    ensures
        contained,
{
    crate::laws::shards::chunk_views_tell_chunks_apart(chunk, chunks@[k]);
    assert(chunks_view(chunks@)[k] == chunks@[k]@);
}

/// The commitment and the chunks of a coded block are what the coder makes of its encoding.
pub proof fn coder_makes_commitment_and_chunks<B: Block>(
    x: CodedBlock<B>,
    config: (u16, u16),
    bytes: Vec<u8>,
    commitment: Digest,
    chunks: &[Chunk],
)
    requires
        call_ensures(CodedBlock::<B>::config, (&x,), config),
        call_ensures(block::encode::<CodedBlock<B>>, (&x,), bytes),
        call_ensures(<CodedBlock<B> as Block>::commitment, (&x,), commitment),
        call_ensures(CodedBlock::<B>::chunks, (&x,), chunks),
    ensures
        (commitment.0@, chunks_view(chunks@)) == rs_encoding(config.0, config.1, bytes@),
{
}

/// What can be coded: under a positive minimum below the total, no more bytes than 32 bits can
/// count, and where some power of two is no less than the smaller of minimum and extra, and
/// together with the larger no more than 65536.
pub proof fn codable_within_the_field(config: (u16, u16), len: usize, r: bool)
    requires
        call_ensures(is_codable, (config, len), r),
    ensures
        r <==> {
            let extra = config.0 - config.1;
            &&& 0 < config.1 < config.0
            &&& len <= 0xFFFF_FFFF
            &&& exists|e: nat|
                {
                    &&& config.1 <= #[trigger] vstd::arithmetic::power2::pow2(e) || extra
                        <= vstd::arithmetic::power2::pow2(e)
                    &&& vstd::arithmetic::power2::pow2(e) + config.1 <= 65536
                    &&& vstd::arithmetic::power2::pow2(e) + extra <= 65536
                }
        },
{
    let k = config.1 as int;
    let m = config.0 - config.1;
    if 0 < config.1 < config.0 {
        if exists|e: nat|
            {
                &&& config.1 <= #[trigger] vstd::arithmetic::power2::pow2(e) || m
                    <= vstd::arithmetic::power2::pow2(e)
                &&& vstd::arithmetic::power2::pow2(e) + config.1 <= 65536
                &&& vstd::arithmetic::power2::pow2(e) + m <= 65536
            } {
            let e = choose|e: nat|
                {
                    &&& config.1 <= #[trigger] vstd::arithmetic::power2::pow2(e) || m
                        <= vstd::arithmetic::power2::pow2(e)
                    &&& vstd::arithmetic::power2::pow2(e) + config.1 <= 65536
                    &&& vstd::arithmetic::power2::pow2(e) + m <= 65536
                };
            assert(crate::coding::erasure::supports(k, m));
        }
        if crate::coding::erasure::supports(k, m) {
            let e = choose|e: nat|
                {
                    &&& (if k < m { k } else { m }) <= #[trigger] vstd::arithmetic::power2::pow2(e)
                    &&& vstd::arithmetic::power2::pow2(e) + (if k < m { m } else { k })
                        <= crate::coding::erasure::CODER_ORDER
                };
            assert(vstd::arithmetic::power2::pow2(e) + k <= 65536);
        }
    }
}

/// What can be coded: only under a positive minimum below the total, and no more bytes than 32
/// bits can count; under every such configuration of up to 32768 chunks; and as well where as many
/// chunks are to suffice as else are extra.
pub proof fn codable_configurations(
    config: (u16, u16),
    len: usize,
    r: bool,
    other: (u16, u16),
    s: bool,
)
    requires
        call_ensures(is_codable, (config, len), r),
        other.0 == config.0,
        other.1 == config.0 - config.1,
        call_ensures(is_codable, (other, len), s),
    ensures
        r ==> 0 < config.1 < config.0 && len <= 0xFFFF_FFFF,
        0 < config.1 < config.0 <= 32768 && len <= 0xFFFF_FFFF ==> r,
        r == s,
{
    let k = config.1 as int;
    let m = config.0 - config.1;
    if 0 < config.1 < config.0 <= 32768 {
        let small = if k < m { k } else { m };
        let e = rounded_up(small as nat);
        assert(crate::coding::erasure::supports(k, m));
    }
}

/// The power of two that a positive number rounds up to: less than twice the number.
proof fn rounded_up(n: nat) -> (e: nat)
    requires
        n > 0,
    ensures
        n <= vstd::arithmetic::power2::pow2(e) < 2 * n,
    decreases n,
{
    vstd::arithmetic::power2::lemma2_to64();
    if n == 1 {
        0
    } else {
        let e = rounded_up((n + 1) / 2);
        vstd::arithmetic::power2::lemma_pow2_unfold(e + 1);
        if vstd::arithmetic::power2::pow2(e) >= n {
            e
        } else {
            e + 1
        }
    }
}

/// A block can be coded, and its coded block read back, wherever the coder takes its encoding and
/// four bytes more and the block itself reads back.
pub proof fn codable_blocks_become_coded_blocks<B: Block>(
    block: B,
    config: (u16, u16),
    bytes: Vec<u8>,
    size: usize,
    made: CodedBlock<B>,
    cfg: B::Cfg,
)
    requires
        call_ensures(block::encode::<B>, (&block,), bytes),
        size == bytes@.len() + 4,
        call_ensures(is_codable, (config, size), true),
        call_ensures(CodedBlock::<B>::new, (block, config), made),
    ensures
        call_requires(CodedBlock::<B>::new, (block, config)),
        B::admitted(block@, cfg) <==> CodedBlock::<B>::admitted(made@, cfg),
{
}

} // verus!
