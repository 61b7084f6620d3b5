//! Chunks: the pieces into which the erasure coder cuts a block.

use commonware_codec::{EncodeSize, Error, Read, Write};
use commonware_coding::reed_solomon;
use commonware_cryptography::{sha256, Sha256};
use commonware_storage::bmt;
use vstd::prelude::*;

use crate::codec::{same_bytes, u16_at, u16_be, CodecError};
use crate::types::Digest;

verus! {

/// A piece of erasure coded data, with a proof of its place under the root that commits to all
/// the pieces.
#[derive(Debug)]
pub struct Chunk {
    /// The coded bytes.
    pub shard: Vec<u8>,
    /// The position of this piece among all pieces.
    pub index: u16,
    /// The sibling digests from this piece up to the root.
    pub siblings: Vec<Digest>,
}

/// What a [Chunk] holds.
#[verifier::ext_equal]
pub struct ChunkView {
    /// The coded bytes.
    pub shard: Seq<u8>,
    /// The position of this piece among all pieces.
    pub index: u16,
    /// The sibling digests from this piece up to the root.
    pub siblings: Seq<Seq<u8>>,
}

impl View for Chunk {
    type V = ChunkView;

    open spec fn view(&self) -> ChunkView {
        ChunkView {
            shard: self.shard@,
            index: self.index,
            siblings: digests(self.siblings@),
        }
    }
}

/// The bytes of each digest.
pub open spec fn digests(s: Seq<Digest>) -> Seq<Seq<u8>> {
    s.map_values(|d: Digest| d@)
}

/// What each chunk holds.
pub open spec fn chunks_view(s: Seq<Chunk>) -> Seq<ChunkView> {
    s.map_values(|c: Chunk| c@)
}

/// The longest path of sibling digests that a reader accepts.
pub const MAX_SIBLINGS: usize = 255;

/// A length as a variable-length integer: seven bits to a byte, the low ones first, with the top
/// bit set on every byte but the last.
pub open spec fn varint(n: nat) -> Seq<u8>
    decreases n,
{
    if n < 128 {
        seq![n as u8]
    } else {
        seq![(128 + n % 128) as u8] + varint(n / 128)
    }
}

/// The bytes that represent a chunk.
pub open spec fn chunk_encoding(c: ChunkView) -> Seq<u8> {
    varint(c.shard.len()) + c.shard + u16_be(c.index) + varint(c.siblings.len())
        + c.siblings.flatten()
}

impl ChunkView {
    /// Whether every sibling is a digest.
    pub open spec fn has_digests(self) -> bool {
        forall|i: int| 0 <= i < self.siblings.len() ==> (#[trigger] self.siblings[i]).len() == 32
    }

    /// Whether a reader that accepts `max` coded bytes accepts this chunk.
    pub open spec fn fits(self, max: nat) -> bool {
        &&& self.shard.len() <= max
        &&& self.siblings.len() <= MAX_SIBLINGS
        &&& self.has_digests()
    }
}

/// Whether a 32-bit length is written at the start of `bytes`.
pub open spec fn starts_with_length(bytes: Seq<u8>, n: nat) -> bool {
    n <= u32::MAX && varint(n).is_prefix_of(bytes)
}

/// Whether `bytes` end before the 32-bit length that they start does.
pub open spec fn breaks_off_length(bytes: Seq<u8>, n: nat) -> bool {
    n <= u32::MAX && bytes.is_prefix_of(varint(n))
}

/// The 32-bit length at the start of `bytes` and the number of bytes that it takes, or why none is
/// there.
pub open spec fn length_at(bytes: Seq<u8>) -> Result<(nat, nat), CodecError> {
    if exists|n: nat| starts_with_length(bytes, n) {
        let n = choose|n: nat| starts_with_length(bytes, n);
        Ok((n, varint(n).len()))
    } else if exists|n: nat| breaks_off_length(bytes, n) {
        Err(CodecError::EndOfBuffer)
    } else {
        Err(CodecError::InvalidVarint(4))
    }
}

/// The chunk at the start of `bytes`, of at most `max` coded bytes, and the number of bytes that it
/// takes, or why none is there.
pub open spec fn chunk_at(bytes: Seq<u8>, max: nat) -> Result<(ChunkView, nat), CodecError> {
    match length_at(bytes) {
        Ok((len, a)) => if len > max {
            Err(CodecError::InvalidLength(len as usize))
        } else if bytes.len() < a + len + 2 {
            Err(CodecError::EndOfBuffer)
        } else {
            let tail = bytes.skip((a + len + 2) as int);
            match siblings_at(tail) {
                Ok((siblings, n)) => Ok(
                    (
                        ChunkView {
                            shard: bytes.subrange(a as int, (a + len) as int),
                            index: u16_at(bytes, (a + len) as int),
                            siblings,
                        },
                        a + len + 2 + n,
                    ),
                ),
                Err(e) => Err(e),
            }
        },
        Err(e) => Err(e),
    }
}

/// The digests at the start of `bytes` and the number of bytes that they take, or why none are
/// there.
pub open spec fn siblings_at(bytes: Seq<u8>) -> Result<(Seq<Seq<u8>>, nat), CodecError> {
    match length_at(bytes) {
        Ok((count, a)) => if count > MAX_SIBLINGS {
            Err(CodecError::InvalidLength(count as usize))
        } else if bytes.len() < a + 32 * count {
            Err(CodecError::EndOfBuffer)
        } else {
            Ok((cut(bytes.skip(a as int), count), a + 32 * count))
        },
        Err(e) => Err(e),
    }
}

/// The first `count` runs of 32 bytes.
pub open spec fn cut(bytes: Seq<u8>, count: nat) -> Seq<Seq<u8>> {
    Seq::new(count, |i: int| bytes.subrange(32 * i, 32 * i + 32))
}

/// Appends the encoding of a chunk.
///
/// Calls `Chunk::write` of `commonware_coding`, and claims that it writes the length of the coded
/// bytes, the bytes, the index in big-endian order, the number of siblings, and the siblings. The
/// lengths are written as 32-bit integers, so longer vectors are left out.
#[verifier::external_body]
pub(crate) fn write_chunk(chunk: &Chunk, buf: &mut Vec<u8>)
    requires
        chunk.shard@.len() <= u32::MAX,
        chunk.siblings@.len() <= u32::MAX,
    ensures
        final(buf)@ == old(buf)@ + chunk_encoding(chunk@),
{
    let siblings = chunk.siblings.iter().map(|d| sha256::Digest(d.0)).collect();
    let path = bmt::Proof::<Sha256> { siblings };
    reed_solomon::Chunk::new(chunk.shard.clone(), chunk.index, path).write(buf)
}

/// The length of the encoding of a chunk.
///
/// Calls `Chunk::encode_size` of `commonware_coding`, and claims that it is the number of bytes
/// that `Chunk::write` writes.
#[verifier::external_body]
pub(crate) fn chunk_encode_size(chunk: &Chunk) -> (r: usize)
    requires
        chunk.shard@.len() <= u32::MAX,
        chunk.siblings@.len() <= u32::MAX,
        chunk_encoding(chunk@).len() <= usize::MAX,
    ensures
        r == chunk_encoding(chunk@).len(),
{
    let siblings = chunk.siblings.iter().map(|d| sha256::Digest(d.0)).collect();
    let path = bmt::Proof::<Sha256> { siblings };
    reed_solomon::Chunk::new(chunk.shard.clone(), chunk.index, path).encode_size()
}

/// Reads the chunk at the start of `buf`, of at most `max` coded bytes; with it come the bytes
/// that follow it.
///
/// Calls `Chunk::read_cfg` of `commonware_coding`, and claims that it reads what `Chunk::write`
/// writes: a length is refused if it is malformed, longer than it has to be or over its limit, and
/// bytes that are missing are the end of the buffer.
#[verifier::external_body]
pub(crate) fn read_chunk(buf: &[u8], max: usize) -> (r: Result<(Chunk, &[u8]), CodecError>)
    requires
        max <= u32::MAX,
    ensures
        match chunk_at(buf@, max as nat) {
            Ok((c, n)) => r is Ok && r->Ok_0.0@ == c && r->Ok_0.1@ == buf@.skip(n as int),
            Err(e) => r is Err && r->Err_0 == e,
        },
{
    let mut rest = buf;
    match reed_solomon::Chunk::<Sha256>::read_cfg(&mut rest, &max) {
        Ok(c) => {
            let siblings = c.proof.siblings.iter().map(|d| Digest(d.0)).collect();
            Ok((Chunk { shard: c.shard, index: c.index, siblings }, rest))
        }
        Err(Error::EndOfBuffer) => Err(CodecError::EndOfBuffer),
        Err(Error::InvalidVarint(n)) => Err(CodecError::InvalidVarint(n)),
        Err(Error::InvalidUsize) => Err(CodecError::InvalidUsize),
        Err(Error::InvalidLength(n)) => Err(CodecError::InvalidLength(n)),
        Err(e) => Err(CodecError::Wrapped("chunk", e.to_string())),
    }
}

impl Clone for Chunk {
    fn clone(&self) -> (r: Self)
        ensures
            r@ == self@,
    {
        let r = Chunk {
            shard: self.shard.clone(),
            index: self.index,
            siblings: self.siblings.clone(),
        };
        assert(r.shard@ =~= self.shard@);
        assert(r@.siblings =~= self@.siblings);
        r
    }
}

impl PartialEq for Chunk {
    fn eq(&self, other: &Self) -> (r: bool) {
        if self.index != other.index || self.siblings.len() != other.siblings.len() {
            assert(self@.siblings.len() == self.siblings@.len());
            assert(other@.siblings.len() == other.siblings@.len());
            return false;
        }
        let mut i: usize = 0;
        while i < self.siblings.len()
            invariant
                i <= self.siblings@.len(),
                self.siblings@.len() == other.siblings@.len(),
                forall|j: int| 0 <= j < i ==> self@.siblings[j] == other@.siblings[j],
            decreases self.siblings@.len() - i,
        {
            if self.siblings[i] != other.siblings[i] {
                assert(self@.siblings[i as int] != other@.siblings[i as int]);
                return false;
            }
            i += 1;
        }
        assert(self@.siblings =~= other@.siblings);
        same_bytes(&self.shard, &other.shard)
    }
}

impl vstd::std_specs::cmp::PartialEqSpecImpl for Chunk {
    open spec fn obeys_eq_spec() -> bool {
        true
    }

    open spec fn eq_spec(&self, other: &Self) -> bool {
        self@ == other@
    }
}

impl Eq for Chunk {

}

/// A variable-length integer ends itself: what follows it does not change how it reads.
pub proof fn varint_is_prefix_free(a: nat, b: nat, x: Seq<u8>, y: Seq<u8>)
    requires
        varint(a) + x == varint(b) + y,
    ensures
        a == b,
        x == y,
    decreases a,
{
    let s = varint(a) + x;
    let t = varint(b) + y;
    assert(s[0] == t[0]);
    if a < 128 {
        assert(s[0] == a as u8);
        assert(b < 128);
        assert(s.skip(1) =~= x);
        assert(t.skip(1) =~= y);
    } else {
        assert(s[0] == (128 + a % 128) as u8);
        assert(b >= 128);
        assert(t[0] == (128 + b % 128) as u8);
        assert(s.skip(1) =~= varint(a / 128) + x);
        assert(t.skip(1) =~= varint(b / 128) + y);
        varint_is_prefix_free(a / 128, b / 128, x, y);
    }
}

/// A length reads back, whatever bytes follow.
pub proof fn length_at_start(n: nat, rest: Seq<u8>)
    requires
        n <= u32::MAX,
    ensures
        length_at(varint(n) + rest) == Ok::<(nat, nat), CodecError>((n, varint(n).len())),
{
    let bytes = varint(n) + rest;
    assert(varint(n) =~= bytes.take(varint(n).len() as int));
    assert(starts_with_length(bytes, n));
    let m = choose|m: nat| starts_with_length(bytes, m);
    let k = varint(m).len() as int;
    assert(varint(m) + bytes.skip(k) =~= bytes);
    varint_is_prefix_free(n, m, rest, bytes.skip(k));
}

/// A length that was read takes exactly its encoding.
proof fn length_at_is_sound(bytes: Seq<u8>)
    ensures
        length_at(bytes) matches Ok((n, k)) ==> {
            &&& n <= u32::MAX
            &&& k == varint(n).len()
            &&& k <= bytes.len()
            &&& bytes.take(k as int) == varint(n)
        },
{
    if exists|n: nat| starts_with_length(bytes, n) {
        let n = choose|n: nat| starts_with_length(bytes, n);
        assert(bytes.take(varint(n).len() as int) =~= varint(n));
    }
}

/// Digests written one after the other can be cut apart again.
pub proof fn cut_undoes_flatten(siblings: Seq<Seq<u8>>, rest: Seq<u8>)
    requires
        forall|i: int| 0 <= i < siblings.len() ==> (#[trigger] siblings[i]).len() == 32,
    ensures
        siblings.flatten().len() == 32 * siblings.len(),
        cut(siblings.flatten() + rest, siblings.len()) == siblings,
    decreases siblings.len(),
{
    let all = siblings.flatten() + rest;
    if siblings.len() > 0 {
        let others = siblings.drop_first();
        cut_undoes_flatten(others, rest);
        let tail = others.flatten() + rest;
        assert(all =~= siblings.first() + tail);
        assert forall|i: int| 0 <= i < siblings.len() implies #[trigger] all.subrange(
            32 * i,
            32 * i + 32,
        ) == siblings[i] by {
            if i == 0 {
                assert(all.subrange(0, 32) =~= siblings[0]);
            } else {
                assert(cut(tail, others.len())[i - 1] == others[i - 1]);
                assert(all.subrange(32 * i, 32 * i + 32) =~= tail.subrange(
                    32 * (i - 1),
                    32 * (i - 1) + 32,
                ));
            }
        }
    }
    assert(cut(all, siblings.len()) =~= siblings);
}

/// Runs of 32 bytes written one after the other give the bytes that they were cut from.
proof fn flatten_undoes_cut(bytes: Seq<u8>, count: nat)
    requires
        bytes.len() >= 32 * count,
    ensures
        cut(bytes, count).flatten() == bytes.take((32 * count) as int),
    decreases count,
{
    let pieces = cut(bytes, count);
    if count > 0 {
        let others = cut(bytes.skip(32), (count - 1) as nat);
        flatten_undoes_cut(bytes.skip(32), (count - 1) as nat);
        assert(pieces.drop_first() =~= others) by {
            assert forall|i: int| 0 <= i < others.len() implies #[trigger] others[i]
                == pieces[i + 1] by {
                assert(bytes.skip(32).subrange(32 * i, 32 * i + 32) =~= bytes.subrange(
                    32 * (i + 1),
                    32 * (i + 1) + 32,
                ));
            }
        }
        assert(pieces.first() == bytes.subrange(0, 32));
    }
    assert(pieces.flatten() =~= bytes.take((32 * count) as int));
}

/// What stands at the start of bytes that begin with the encoding of a chunk is that chunk.
pub proof fn chunk_at_start(c: ChunkView, max: nat, rest: Seq<u8>)
    requires
        c.fits(max),
        max <= u32::MAX,
    ensures
        chunk_at(chunk_encoding(c) + rest, max) == Ok::<(ChunkView, nat), CodecError>(
            (c, chunk_encoding(c).len()),
        ),
{
    let bytes = chunk_encoding(c) + rest;
    let a = varint(c.shard.len()).len() as int;
    let len = c.shard.len() as int;
    let after = c.siblings.flatten() + rest;
    let tail = varint(c.siblings.len()) + after;
    assert(bytes =~= varint(c.shard.len()) + (c.shard + u16_be(c.index) + tail));
    length_at_start(c.shard.len(), c.shard + u16_be(c.index) + tail);
    assert(bytes.skip(a + len + 2) =~= tail);
    length_at_start(c.siblings.len(), after);
    cut_undoes_flatten(c.siblings, rest);
    assert(tail.skip(varint(c.siblings.len()).len() as int) =~= after);
    assert(bytes.subrange(a, a + len) =~= c.shard);
    assert(bytes[a + len] == u16_be(c.index)[0] && bytes[a + len + 1] == u16_be(c.index)[1]);
}

/// A chunk read from bytes is within the limits, and takes exactly its encoding.
pub proof fn chunk_at_is_sound(bytes: Seq<u8>, max: nat)
    ensures
        chunk_at(bytes, max) matches Ok((c, n)) ==> {
            &&& c.fits(max)
            &&& n == chunk_encoding(c).len()
            &&& n <= bytes.len()
            &&& bytes.take(n as int) == chunk_encoding(c)
        },
{
    if let Ok((c, n)) = chunk_at(bytes, max) {
        length_at_is_sound(bytes);
        let (len, a) = length_at(bytes)->Ok_0;
        let tail = bytes.skip((a + len + 2) as int);
        length_at_is_sound(tail);
        let (count, b) = length_at(tail)->Ok_0;
        flatten_undoes_cut(tail.skip(b as int), count);
        assert(u16_be(c.index) =~= bytes.subrange((a + len) as int, (a + len + 2) as int));
        assert(bytes.take(n as int) =~= chunk_encoding(c));
    }
}

} // verus!
