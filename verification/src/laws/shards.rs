//! Laws of shards and their chunks.

use vstd::prelude::*;

use crate::codec::CodecError;
use crate::coding::chunk::{
    breaks_off_length, chunk_at, chunk_encoding, length_at, length_at_start, starts_with_length,
    varint, varint_is_prefix_free, Chunk,
};
use crate::coding::shard::{
    shard_decoding_undoes_encoding, shard_encoding_undoes_decoding, shard_uuid, Shard,
};
use crate::hash::sha256_of;
use crate::types::Digest;

verus! {

/// Whether two chunks hold the same: coded bytes, index, and digests on the way to the root.
pub open spec fn same_chunk(a: Chunk, b: Chunk) -> bool {
    &&& a.shard@ == b.shard@
    &&& a.index == b.index
    &&& a.siblings@.len() == b.siblings@.len()
    &&& forall|i: int|
        0 <= i < a.siblings@.len() ==> (#[trigger] a.siblings@[i]).0@ == b.siblings@[i].0@
}

/// Chunks have one view exactly if they hold the same.
pub proof fn chunk_views_tell_chunks_apart(a: Chunk, b: Chunk)
    ensures
        a@ == b@ <==> same_chunk(a, b),
{
    assert(a@.siblings.len() == a.siblings@.len());
    assert(b@.siblings.len() == b.siblings@.len());
    assert(forall|i: int|
        0 <= i < a.siblings@.len() ==> #[trigger] a.siblings@[i].0@ == a@.siblings[i]);
    assert(forall|i: int|
        0 <= i < b.siblings@.len() ==> #[trigger] b.siblings@[i].0@ == b@.siblings[i]);
    if same_chunk(a, b) {
        assert(a@.siblings =~= b@.siblings);
    }
    if a@ == b@ {
        assert forall|i: int| 0 <= i < a.siblings@.len() implies (#[trigger] a.siblings@[i]).0@
            == b.siblings@[i].0@ by {
            assert(a@.siblings[i] == b@.siblings[i]);
        }
    }
}

/// Chunks are equal exactly if they hold the same.
pub proof fn chunks_are_equal_by_what_they_hold(a: Chunk, b: Chunk, r: bool)
    requires
        call_ensures(<Chunk as PartialEq>::eq, (&a, &b), r),
    ensures
        r <==> same_chunk(a, b),
{
    chunk_views_tell_chunks_apart(a, b);
}

/// The copy of a chunk holds the same.
pub proof fn chunk_copies_hold_the_same(a: Chunk, r: Chunk)
    requires
        call_ensures(<Chunk as Clone>::clone, (&a,), r),
    ensures
        same_chunk(r, a),
{
    chunk_views_tell_chunks_apart(r, a);
}

/// A shard gives back what it was made of, and so does its copy.
pub proof fn shard_gives_back_its_parts(
    commitment: Digest,
    config: (u16, u16),
    chunk: Chunk,
    made: Shard,
    shard: Shard,
    c: Digest,
    f: (u16, u16),
    k: Chunk,
    d: Chunk,
)
    requires
        call_ensures(Shard::new, (commitment, config, chunk), made),
        shard == made || call_ensures(<Shard as Clone>::clone, (&made,), shard),
        call_ensures(Shard::commitment, (&shard,), c),
        call_ensures(Shard::config, (&shard,), f),
        call_ensures(Shard::chunk, (&shard,), &k),
        call_ensures(<Shard as std::ops::Deref>::deref, (&shard,), &d),
    ensures
        c.0@ == commitment.0@,
        f == config,
        same_chunk(k, chunk),
        same_chunk(d, chunk),
{
    chunk_views_tell_chunks_apart(k, chunk);
    chunk_views_tell_chunks_apart(d, chunk);
}

/// Shards are equal exactly if they were made of the same commitment, configuration and chunk.
pub proof fn shards_are_equal_by_their_parts(
    commitment1: Digest,
    config1: (u16, u16),
    chunk1: Chunk,
    a: Shard,
    commitment2: Digest,
    config2: (u16, u16),
    chunk2: Chunk,
    b: Shard,
    r: bool,
)
    requires
        call_ensures(Shard::new, (commitment1, config1, chunk1), a),
        call_ensures(Shard::new, (commitment2, config2, chunk2), b),
        call_ensures(<Shard as PartialEq>::eq, (&a, &b), r),
    ensures
        r <==> commitment1.0@ == commitment2.0@ && config1 == config2 && same_chunk(chunk1, chunk2),
{
    chunk_views_tell_chunks_apart(chunk1, chunk2);
}

/// The identifier of a shard is the hash of its commitment and, behind it, its index as two digits
/// of base 256, the low one first; and it is the same whether the shard is asked for it, or it is
/// made of commitment and index.
pub proof fn identifier_hashes_commitment_and_index(
    commitment: Digest,
    config: (u16, u16),
    chunk: Chunk,
    shard: Shard,
    digest: Digest,
    id: Digest,
    low: u8,
    high: u8,
)
    requires
        call_ensures(Shard::new, (commitment, config, chunk), shard),
        call_ensures(Shard::digest, (&shard,), digest),
        call_ensures(shard_uuid, (&commitment, chunk.index), id),
        low + 256 * high == chunk.index,
    ensures
        id.0@ == sha256_of(commitment.0@ + seq![low, high]),
        digest.0@ == id.0@,
{
    assert(low == chunk.index % 256 && high == chunk.index / 256);
    assert(commitment.0@ + crate::codec::u16_le(chunk.index) =~= commitment.0@ + seq![low, high]);
}

/// Identifiers are hashes of messages that tell any two of them apart: those of different
/// commitments or different indices are hashes of different messages.
pub proof fn identifiers_hash_different_messages(
    c1: Digest,
    i1: u16,
    r1: Digest,
    c2: Digest,
    i2: u16,
    r2: Digest,
) -> (messages: (Seq<u8>, Seq<u8>))
    requires
        call_ensures(shard_uuid, (&c1, i1), r1),
        call_ensures(shard_uuid, (&c2, i2), r2),
    ensures
        r1.0@ == sha256_of(messages.0),
        r2.0@ == sha256_of(messages.1),
        messages.0 == messages.1 <==> c1.0@ == c2.0@ && i1 == i2,
{
    let m1 = c1.0@ + seq![(i1 % 256) as u8, (i1 / 256) as u8];
    let m2 = c2.0@ + seq![(i2 % 256) as u8, (i2 / 256) as u8];
    assert(m1.take(32) =~= c1.0@);
    assert(m2.take(32) =~= c2.0@);
    assert(m1[32] == (i1 % 256) as u8 && m1[33] == (i1 / 256) as u8);
    assert(m2[32] == (i2 % 256) as u8 && m2[33] == (i2 / 256) as u8);
    (m1, m2)
}

/// A shard tells that it is contained in its commitment exactly if hashing leads there: from the
/// index, as four digits of base 256, and the hash of the coded bytes; with each of the siblings in
/// turn, which stands to the right of an even position and to the left of an odd one; halving the
/// position each time.
pub proof fn contained_shards_hash_to_their_commitment(
    commitment: Digest,
    config: (u16, u16),
    chunk: Chunk,
    shard: Shard,
    positions: Seq<int>,
    nodes: Seq<Seq<u8>>,
    r: bool,
)
    requires
        call_ensures(Shard::new, (commitment, config, chunk), shard),
        call_ensures(Shard::is_contained, (&shard,), r),
        positions.len() == chunk.siblings@.len() + 1,
        nodes.len() == chunk.siblings@.len() + 1,
        positions[0] == chunk.index,
        nodes[0] == sha256_of(
            seq![0u8, 0u8, (chunk.index / 256) as u8, (chunk.index % 256) as u8] + sha256_of(
                chunk.shard@,
            ),
        ),
        forall|k: int|
            #![trigger positions[k]]
            0 <= k < chunk.siblings@.len() ==> positions[k + 1] == positions[k] / 2,
        forall|k: int|
            #![trigger nodes[k]]
            0 <= k < chunk.siblings@.len() ==> nodes[k + 1] == sha256_of(
                if positions[k] % 2 == 0 {
                    nodes[k] + chunk.siblings@[k].0@
                } else {
                    chunk.siblings@[k].0@ + nodes[k]
                },
            ),
    ensures
        r <==> nodes.last() == commitment.0@,
{
    let siblings = chunk@.siblings;
    assert(crate::coding::erasure::leaf_of(chunk@) == nodes[0]) by {
        assert(seq![0u8, 0u8] + crate::codec::u16_be(chunk.index) + sha256_of(chunk.shard@)
            =~= seq![0u8, 0u8, (chunk.index / 256) as u8, (chunk.index % 256) as u8] + sha256_of(
            chunk.shard@,
        ));
    }
    path_leads_to_last(nodes, positions, siblings, 0);
    assert(siblings.skip(0) =~= siblings);
}

/// From any node on, the rest of the path leads to the last node.
proof fn path_leads_to_last(
    nodes: Seq<Seq<u8>>,
    positions: Seq<int>,
    siblings: Seq<Seq<u8>>,
    from: int,
)
    requires
        0 <= from <= siblings.len(),
        positions.len() == siblings.len() + 1,
        nodes.len() == siblings.len() + 1,
        positions[0] >= 0,
        positions[from] >= 0,
        forall|k: int|
            #![trigger positions[k]]
            0 <= k < siblings.len() ==> positions[k + 1] == positions[k] / 2,
        forall|k: int|
            #![trigger nodes[k]]
            0 <= k < siblings.len() ==> nodes[k + 1] == sha256_of(
                if positions[k] % 2 == 0 {
                    nodes[k] + siblings[k]
                } else {
                    siblings[k] + nodes[k]
                },
            ),
    ensures
        crate::coding::erasure::path_root(nodes[from], positions[from] as nat, siblings.skip(from))
            == nodes.last(),
    decreases siblings.len() - from,
{
    if from < siblings.len() {
        assert(positions[from + 1] == positions[from] / 2);
        path_leads_to_last(nodes, positions, siblings, from + 1);
        assert(siblings.skip(from).first() == siblings[from]);
        assert(siblings.skip(from).drop_first() =~= siblings.skip(from + 1));
        assert(nodes[from + 1] == nodes[from + 1]);
    }
}

/// A shard is encoded as its commitment, the total and the minimum as two digits of base 256 each,
/// the length of the coded bytes, the coded bytes, the index as two digits, the number of siblings,
/// and the siblings. The encoding is as long as it says that it is.
pub proof fn shard_is_encoded_part_by_part(
    commitment: Digest,
    config: (u16, u16),
    chunk: Chunk,
    shard: Shard,
    bytes: Vec<u8>,
    size: usize,
    buf: &mut Vec<u8>,
    w: (),
)
    requires
        call_ensures(Shard::new, (commitment, config, chunk), shard),
        call_ensures(Shard::encode, (&shard,), bytes),
        call_ensures(Shard::encode_size, (&shard,), size),
        call_ensures(Shard::write, (&shard, buf), w),
    ensures
        bytes@.len() == size,
        final(buf)@ == old(buf)@ + bytes@,
        ({
            let e = bytes@;
            let a = 36 + varint(chunk.shard@.len()).len() as int;
            let b = a + chunk.shard@.len();
            let c = b + 2 + varint(chunk.siblings@.len()).len();
            &&& e.len() == c + 32 * chunk.siblings@.len()
            &&& e.take(32) == commitment.0@
            &&& e[32] * 256 + e[33] == config.0
            &&& e[34] * 256 + e[35] == config.1
            &&& e.subrange(36, a) == varint(chunk.shard@.len())
            &&& e.subrange(a, b) == chunk.shard@
            &&& e[b] * 256 + e[b + 1] == chunk.index
            &&& e.subrange(b + 2, c) == varint(chunk.siblings@.len())
            &&& forall|i: int|
                0 <= i < chunk.siblings@.len() ==> #[trigger] chunk.siblings@[i].0@ == e.subrange(
                    c + 32 * i,
                    c + 32 * i + 32,
                )
        }),
{
    let e = bytes@;
    let v = chunk@;
    let a = (36 + varint(v.shard.len()).len()) as int;
    let b = a + v.shard.len();
    let c = b + 2 + varint(v.siblings.len()).len();
    assert(v.siblings.len() == chunk.siblings@.len());
    assert forall|i: int| 0 <= i < v.siblings.len() implies (#[trigger] v.siblings[i]).len() == 32
        && v.siblings[i] == chunk.siblings@[i].0@ by {
        assert(v.siblings[i] == chunk.siblings@[i]@);
    }
    crate::coding::chunk::cut_undoes_flatten(v.siblings, Seq::empty());
    let flat = v.siblings.flatten();
    assert(flat + Seq::<u8>::empty() =~= flat);
    assert(e.len() == c + flat.len());
    assert(e.take(32) =~= commitment.0@);
    assert(e.subrange(36, a) =~= varint(v.shard.len()));
    assert(e.subrange(a, b) =~= chunk.shard@);
    assert(e.subrange(b + 2, c) =~= varint(v.siblings.len()));
    assert forall|i: int| 0 <= i < chunk.siblings@.len() implies #[trigger] chunk.siblings@[i].0@
        == e.subrange(c + 32 * i, c + 32 * i + 32) by {
        assert(crate::coding::chunk::cut(flat, v.siblings.len())[i] == v.siblings[i]);
        assert(e.subrange(c + 32 * i, c + 32 * i + 32) =~= flat.subrange(32 * i, 32 * i + 32));
    }
}

/// A shard that is made, encoded and read again holds the same, whatever bytes follow its encoding;
/// and exactly its encoding is taken. With nothing behind it, it decodes; with something, decoding
/// says how many bytes are left over.
pub proof fn encoded_shard_reads_back(
    commitment: Digest,
    config: (u16, u16),
    chunk: Chunk,
    shard: Shard,
    bytes: Vec<u8>,
    buf: &[u8],
    rest: Seq<u8>,
    r: Result<(Shard, usize), CodecError>,
    d: Result<Shard, CodecError>,
)
    requires
        chunk.shard@.len() <= 1024 * 1024,
        chunk.siblings@.len() <= 255,
        call_ensures(Shard::new, (commitment, config, chunk), shard),
        call_ensures(Shard::encode, (&shard,), bytes),
        buf@ == bytes@ + rest,
        call_ensures(Shard::read_cfg, (buf,), r),
        call_ensures(Shard::decode, (buf,), d),
    ensures
        r matches Ok((s, n)) && s@ == shard@ && n == bytes@.len(),
        rest.len() == 0 ==> (d matches Ok(s) && s@ == shard@),
        rest.len() > 0 ==> (d matches Err(e) && e == CodecError::ExtraData(rest.len() as usize)),
{
    assert(chunk@.siblings.len() == chunk.siblings@.len());
    assert forall|i: int| 0 <= i < chunk@.siblings.len() implies (
    #[trigger] chunk@.siblings[i]).len() == 32 by {
        assert(chunk@.siblings[i] == chunk.siblings@[i]@);
    }
    shard_decoding_undoes_encoding(shard@, rest);
}

/// What is read as a shard encodes to the bytes that it took.
pub proof fn read_shard_encodes_back(
    buf: &[u8],
    shard: Shard,
    n: usize,
    bytes: Vec<u8>,
)
    requires
        call_ensures(Shard::read_cfg, (buf,), Ok::<(Shard, usize), CodecError>((shard, n))),
        call_ensures(Shard::encode, (&shard,), bytes),
    ensures
        n <= buf@.len(),
        bytes@ == buf@.take(n as int),
{
    shard_encoding_undoes_decoding(buf@);
}

/// A shard can be made of any chunk of up to a mebibyte, and a shard of up to 255 siblings can be
/// encoded.
pub proof fn shards_can_be_made_and_encoded(
    commitment: Digest,
    config: (u16, u16),
    chunk: Chunk,
    shard: Shard,
)
    requires
        chunk.shard@.len() <= 1024 * 1024,
        chunk.siblings@.len() <= 255,
        call_ensures(Shard::new, (commitment, config, chunk), shard),
    ensures
        call_requires(Shard::new, (commitment, config, chunk)),
        call_requires(Shard::encode, (&shard,)),
{
    assert(chunk@.siblings.len() == chunk.siblings@.len());
}

/// A shard is read from 36 bytes for the commitment, the total and the minimum, and from the chunk
/// behind them, of at most a mebibyte. Where they, or it, cannot be read, the shard cannot, for the
/// same reason. A shard that is read stays within the limits.
pub proof fn shard_is_read_part_by_part(
    buf: &[u8],
    r: Result<(Shard, usize), CodecError>,
    d: Result<Shard, CodecError>,
)
    requires
        call_ensures(Shard::read_cfg, (buf,), r),
        call_ensures(Shard::decode, (buf,), d),
    ensures
        buf@.len() < 36 ==> (r matches Err(e) && e == CodecError::EndOfBuffer),
        buf@.len() >= 36 ==> match chunk_at(buf@.skip(36), 1024 * 1024) {
            Ok((chunk, n)) => r matches Ok((s, m)) && {
                &&& m == n + 36
                &&& m <= buf@.len()
                &&& s@.commitment == buf@.take(32)
                &&& s@.config.0 == buf@[32] * 256 + buf@[33]
                &&& s@.config.1 == buf@[34] * 256 + buf@[35]
                &&& s@.chunk == chunk
                &&& chunk.shard.len() <= 1024 * 1024
                &&& chunk.siblings.len() <= 255
            },
            Err(e) => r matches Err(f) && f == e,
        },
        match r {
            Ok((s, m)) => {
                &&& m == buf@.len() ==> (d matches Ok(t) && t@ == s@)
                &&& m < buf@.len() ==> (d matches Err(e) && e == CodecError::ExtraData(
                    (buf@.len() - m) as usize,
                ))
            },
            Err(e) => d matches Err(f) && f == e,
        },
{
    if buf@.len() >= 36 {
        crate::coding::chunk::chunk_at_is_sound(buf@.skip(36), 1024 * 1024);
    }
}

/// A length that breaks off is the end of the buffer.
proof fn broken_off_length(n: nat, k: int)
    requires
        n <= u32::MAX,
        0 <= k < varint(n).len(),
    ensures
        length_at(varint(n).take(k)) matches Err(e) && e == CodecError::EndOfBuffer,
{
    let bytes = varint(n).take(k);
    assert(breaks_off_length(bytes, n));
    if exists|m: nat| starts_with_length(bytes, m) {
        let m = choose|m: nat| starts_with_length(bytes, m);
        let l = varint(m).len() as int;
        assert(varint(m) + varint(n).skip(l) =~= varint(n));
        assert(varint(n) + Seq::<u8>::empty() =~= varint(n));
        varint_is_prefix_free(m, n, varint(n).skip(l), Seq::empty());
    }
}

/// A shard that breaks off, wherever it does, is the end of the buffer.
pub proof fn broken_off_shard_is_the_end_of_the_buffer(
    commitment: Digest,
    config: (u16, u16),
    chunk: Chunk,
    shard: Shard,
    bytes: Vec<u8>,
    k: int,
    buf: &[u8],
    r: Result<(Shard, usize), CodecError>,
    d: Result<Shard, CodecError>,
)
    requires
        chunk.shard@.len() <= 1024 * 1024,
        chunk.siblings@.len() <= 255,
        call_ensures(Shard::new, (commitment, config, chunk), shard),
        call_ensures(Shard::encode, (&shard,), bytes),
        0 <= k < bytes@.len(),
        buf@ == bytes@.take(k),
        call_ensures(Shard::read_cfg, (buf,), r),
        call_ensures(Shard::decode, (buf,), d),
    ensures
        r matches Err(e) && e == CodecError::EndOfBuffer,
        d matches Err(e) && e == CodecError::EndOfBuffer,
{
    shard_is_read_part_by_part(buf, r, d);
    if k >= 36 {
        let v = chunk@;
        assert(v.siblings.len() == chunk.siblings@.len());
        assert forall|i: int| 0 <= i < v.siblings.len() implies (#[trigger] v.siblings[i]).len()
            == 32 by {
            assert(v.siblings[i] == chunk.siblings@[i]@);
        }
        let whole = chunk_encoding(v);
        let tail = buf@.skip(36);
        let t = k - 36;
        assert(bytes@.skip(36) =~= whole);
        assert(tail =~= whole.take(t));
        let len = v.shard.len();
        let a = varint(len).len() as int;
        let flat = v.siblings.flatten();
        crate::coding::chunk::cut_undoes_flatten(v.siblings, Seq::empty());
        if t < a {
            assert(tail =~= varint(len).take(t));
            broken_off_length(len, t);
        } else {
            let after = whole.subrange(a, t);
            assert(tail =~= varint(len) + after);
            length_at_start(len, after);
            if t >= a + len + 2 {
                let count = v.siblings.len();
                let b = varint(count).len() as int;
                let rest = tail.skip(a + len + 2);
                let u = t - (a + len + 2);
                assert(whole.skip(a + len + 2) =~= varint(count) + flat);
                assert(rest =~= (varint(count) + flat).take(u));
                if u < b {
                    assert(rest =~= varint(count).take(u));
                    broken_off_length(count, u);
                } else {
                    assert(rest =~= varint(count) + flat.take(u - b));
                    length_at_start(count, flat.take(u - b));
                }
            }
        }
    }
}

/// More coded bytes than a mebibyte are refused on reading, by their number.
pub proof fn too_many_bytes_are_refused(
    buf: &[u8],
    n: nat,
    rest: Seq<u8>,
    r: Result<(Shard, usize), CodecError>,
)
    requires
        call_ensures(Shard::read_cfg, (buf,), r),
        buf@.len() >= 36,
        1024 * 1024 < n <= u32::MAX,
        buf@.skip(36) == varint(n) + rest,
    ensures
        r matches Err(e) && e == CodecError::InvalidLength(n as usize),
{
    length_at_start(n, rest);
}

/// More siblings than 255 are refused on reading, by their number.
pub proof fn too_many_siblings_are_refused(
    buf: &[u8],
    coded: Seq<u8>,
    index: Seq<u8>,
    n: nat,
    rest: Seq<u8>,
    r: Result<(Shard, usize), CodecError>,
)
    requires
        call_ensures(Shard::read_cfg, (buf,), r),
        buf@.len() >= 36,
        coded.len() <= 1024 * 1024,
        index.len() == 2,
        255 < n <= u32::MAX,
        buf@.skip(36) == varint(coded.len()) + coded + index + varint(n) + rest,
    ensures
        r matches Err(e) && e == CodecError::InvalidLength(n as usize),
{
    let tail = buf@.skip(36);
    let a = varint(coded.len()).len() as int;
    assert(tail =~= varint(coded.len()) + (coded + index + varint(n) + rest));
    length_at_start(coded.len(), coded + index + varint(n) + rest);
    assert(tail.skip(a + coded.len() + 2) =~= varint(n) + rest);
    length_at_start(n, rest);
}

} // verus!
