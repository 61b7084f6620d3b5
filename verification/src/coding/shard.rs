//! Shards: chunks of a coded block on their way to peers.

use vstd::prelude::*;
use vstd::slice::slice_subrange;

use crate::codec::{
    config_be, read_digest, read_u16, u16_at, u16_le, write_digest, write_u16, CodecError,
};
use crate::coding::chunk::{
    chunk_at, chunk_at_is_sound, chunk_at_start, chunk_encode_size, chunk_encoding, read_chunk,
    write_chunk, Chunk, ChunkView,
};
use crate::coding::erasure::{proven, verify_chunk};
use crate::hash::{sha256, sha256_of};
use crate::types::Digest;

verus! {

/// The largest number of coded bytes in a shard: 1 MiB.
pub const MAX_SHARD_SIZE: usize = 1024 * 1024;

/// Length in bytes of what precedes the chunk in an encoded shard: the commitment, the total and
/// the minimum.
pub const SHARD_HEADER_SIZE: usize = 36;

/// What is hashed into the identifier of a shard: the commitment and the index.
pub open spec fn shard_uuid_preimage(commitment: Seq<u8>, index: u16) -> Seq<u8> {
    commitment + u16_le(index)
}

/// The identifier of a shard.
pub open spec fn shard_uuid_of(commitment: Seq<u8>, index: u16) -> Seq<u8> {
    sha256_of(shard_uuid_preimage(commitment, index))
}

/// Creates a unique identifier for a shard from the commitment of its block and its index.
pub fn shard_uuid(commitment: &Digest, index: u16) -> (r: Digest)
    ensures
        r@ == shard_uuid_of(commitment@, index),
{
    let mut buf: Vec<u8> = Vec::with_capacity(34);
    write_digest(commitment, &mut buf);
    buf.push((index % 256) as u8);
    buf.push((index / 256) as u8);
    assert(buf@ =~= shard_uuid_preimage(commitment@, index));
    sha256(buf.as_slice())
}

/// An erasure coded chunk of a block, fit to be broadcast.
///
/// Each chunk travels with the commitment to all the chunks of its block, and with the coding
/// configuration: how many chunks there are, and how many of them suffice.
#[derive(Debug)]
pub struct Shard {
    commitment: Digest,
    config: (u16, u16),
    chunk: Chunk,
}

/// What a [Shard] holds.
#[verifier::ext_equal]
pub struct ShardView {
    /// The commitment to all the chunks of the block.
    pub commitment: Seq<u8>,
    /// The total number of chunks and the number that suffice.
    pub config: (u16, u16),
    /// The chunk.
    pub chunk: ChunkView,
}

impl ShardView {
    /// Whether a reader accepts this shard.
    pub open spec fn fits(self) -> bool {
        &&& self.commitment.len() == 32
        &&& self.chunk.fits(MAX_SHARD_SIZE as nat)
    }
}

/// The bytes that represent a shard.
pub open spec fn shard_encoding(s: ShardView) -> Seq<u8> {
    s.commitment + config_be(s.config) + chunk_encoding(s.chunk)
}

/// The shard at the start of `bytes` and the number of bytes that it takes, or why none is there.
pub open spec fn shard_decoding(bytes: Seq<u8>) -> Result<(ShardView, nat), CodecError> {
    if bytes.len() < SHARD_HEADER_SIZE {
        Err(CodecError::EndOfBuffer)
    } else {
        let tail = bytes.skip(SHARD_HEADER_SIZE as int);
        match chunk_at(tail, MAX_SHARD_SIZE as nat) {
            Ok((chunk, n)) => Ok(
                (
                    ShardView {
                        commitment: bytes.take(32),
                        config: (u16_at(bytes, 32), u16_at(bytes, 34)),
                        chunk,
                    },
                    SHARD_HEADER_SIZE as nat + n,
                ),
            ),
            Err(e) => Err(e),
        }
    }
}

impl View for Shard {
    type V = ShardView;

    closed spec fn view(&self) -> ShardView {
        ShardView { commitment: self.commitment@, config: self.config, chunk: self.chunk@ }
    }
}

impl Shard {
    /// Every shard stays within the size limit.
    #[verifier::type_invariant]
    spec fn within_limit(self) -> bool {
        self.chunk.shard@.len() <= MAX_SHARD_SIZE
    }

    /// Creates a shard from the commitment of a block, its coding configuration and a chunk of it.
    pub fn new(commitment: Digest, config: (u16, u16), chunk: Chunk) -> (r: Self)
        requires
            chunk.shard@.len() <= MAX_SHARD_SIZE,
        ensures
            r@ == (ShardView { commitment: commitment@, config, chunk: chunk@ }),
    {
        Shard { commitment, config, chunk }
    }

    /// The chunk of the shard.
    pub fn chunk(&self) -> (r: &Chunk)
        ensures
            r@ == self@.chunk,
            r.shard@.len() <= MAX_SHARD_SIZE,
    {
        proof {
            use_type_invariant(self);
        }
        &self.chunk
    }

    /// The coding configuration: the total number of chunks and the number that suffice.
    pub fn config(&self) -> (r: (u16, u16))
        ensures
            r == self@.config,
    {
        self.config
    }

    /// The commitment of the block that the shard belongs to.
    pub fn commitment(&self) -> (r: Digest)
        ensures
            r@ == self@.commitment,
    {
        self.commitment
    }

    /// The identifier of the shard, made of the commitment and the index.
    pub fn digest(&self) -> (r: Digest)
        ensures
            r@ == shard_uuid_of(self@.commitment, self@.chunk.index),
    {
        shard_uuid(&self.commitment, self.chunk.index)
    }

    /// Whether the shard is contained, at its index, in the commitment that it carries.
    pub fn is_contained(&self) -> (r: bool)
        ensures
            r == proven(self@.commitment, self@.chunk),
    {
        verify_chunk(&self.chunk, &self.commitment)
    }

    /// The length of the shard's encoding.
    pub fn encode_size(&self) -> (r: usize)
        requires
            self@.chunk.siblings.len() <= u32::MAX,
            shard_encoding(self@).len() <= usize::MAX,
        ensures
            r == shard_encoding(self@).len(),
    {
        proof {
            use_type_invariant(self);
        }
        SHARD_HEADER_SIZE + chunk_encode_size(&self.chunk)
    }

    /// Appends the encoding of the shard.
    pub fn write(&self, buf: &mut Vec<u8>)
        requires
            self@.chunk.siblings.len() <= u32::MAX,
        ensures
            final(buf)@ == old(buf)@ + shard_encoding(self@),
    {
        proof {
            use_type_invariant(self);
        }
        let (total, min) = self.config;
        write_digest(&self.commitment, buf);
        write_u16(total, buf);
        write_u16(min, buf);
        write_chunk(&self.chunk, buf);
        assert(buf@ =~= old(buf)@ + shard_encoding(self@));
    }

    /// Encodes the shard into a vector of its own.
    pub fn encode(&self) -> (r: Vec<u8>)
        requires
            self@.chunk.siblings.len() <= u32::MAX,
        ensures
            r@ == shard_encoding(self@),
    {
        let mut buf: Vec<u8> = Vec::new();
        self.write(&mut buf);
        assert(buf@ =~= shard_encoding(self@));
        buf
    }

    /// Reads the shard at the start of `buf`; with it comes the number of bytes that it took.
    pub fn read_cfg(buf: &[u8]) -> (r: Result<(Self, usize), CodecError>)
        ensures
            match shard_decoding(buf@) {
                Ok((s, n)) => r is Ok && r->Ok_0.0@ == s && r->Ok_0.1 == n && n <= buf@.len(),
                Err(e) => r is Err && r->Err_0 == e,
            },
    {
        let commitment = match read_digest(buf, 0) {
            Ok(commitment) => commitment,
            Err(e) => return Err(e),
        };
        let total: u16 = match read_u16(buf, 32) {
            Ok(total) => total,
            Err(e) => return Err(e),
        };
        let min: u16 = match read_u16(buf, 34) {
            Ok(min) => min,
            Err(e) => return Err(e),
        };
        let tail = slice_subrange(buf, SHARD_HEADER_SIZE, buf.len());
        proof {
            assert(tail@ =~= buf@.skip(SHARD_HEADER_SIZE as int));
            assert(commitment@ =~= buf@.take(32));
            chunk_at_is_sound(tail@, MAX_SHARD_SIZE as nat);
        }
        match read_chunk(tail, MAX_SHARD_SIZE) {
            Ok((chunk, rest)) => {
                let taken: usize = buf.len() - rest.len();
                Ok((Shard { commitment, config: (total, min), chunk }, taken))
            },
            Err(e) => Err(e),
        }
    }

    /// Reads a shard that makes up all of `buf`.
    pub fn decode(buf: &[u8]) -> (r: Result<Self, CodecError>)
        ensures
            match shard_decoding(buf@) {
                Ok((s, n)) => if n < buf@.len() {
                    r is Err && r->Err_0 == CodecError::ExtraData((buf@.len() - n) as usize)
                } else {
                    r is Ok && r->Ok_0@ == s
                },
                Err(e) => r is Err && r->Err_0 == e,
            },
    {
        match Shard::read_cfg(buf) {
            Ok((shard, n)) => if n < buf.len() {
                Err(CodecError::ExtraData(buf.len() - n))
            } else {
                Ok(shard)
            },
            Err(e) => Err(e),
        }
    }
}

impl Clone for Shard {
    fn clone(&self) -> (r: Self)
        ensures
            r@ == self@,
    {
        proof {
            use_type_invariant(self);
        }
        let chunk = self.chunk.clone();
        assert(chunk@.shard == self.chunk@.shard);
        Shard { commitment: self.commitment, config: self.config, chunk }
    }
}

impl PartialEq for Shard {
    fn eq(&self, other: &Self) -> (r: bool) {
        self.commitment == other.commitment && self.config.0 == other.config.0 && self.config.1
            == other.config.1 && self.chunk == other.chunk
    }
}

impl vstd::std_specs::cmp::PartialEqSpecImpl for Shard {
    open spec fn obeys_eq_spec() -> bool {
        true
    }

    open spec fn eq_spec(&self, other: &Self) -> bool {
        self@ == other@
    }
}

impl Eq for Shard {

}

impl std::ops::Deref for Shard {
    type Target = Chunk;

    fn deref(&self) -> (r: &Chunk)
        ensures
            r@ == self@.chunk,
    {
        &self.chunk
    }
}

/// Reading what was written gives the shard back, whatever bytes follow.
pub proof fn shard_decoding_undoes_encoding(s: ShardView, rest: Seq<u8>)
    requires
        s.fits(),
    ensures
        shard_decoding(shard_encoding(s) + rest) == Ok::<(ShardView, nat), CodecError>(
            (s, shard_encoding(s).len()),
        ),
{
    let bytes = shard_encoding(s) + rest;
    let tail = bytes.skip(SHARD_HEADER_SIZE as int);
    assert(tail =~= chunk_encoding(s.chunk) + rest);
    chunk_at_start(s.chunk, MAX_SHARD_SIZE as nat, rest);
    assert(bytes.take(32) =~= s.commitment);
    assert(u16_at(bytes, 32) == s.config.0);
    assert(u16_at(bytes, 34) == s.config.1);
}

/// A shard that was read is within the limits, and the bytes that it took are its encoding: no two
/// encodings stand for one shard.
pub proof fn shard_encoding_undoes_decoding(bytes: Seq<u8>)
    ensures
        shard_decoding(bytes) matches Ok((s, n)) ==> {
            &&& s.fits()
            &&& n <= bytes.len()
            &&& bytes.take(n as int) == shard_encoding(s)
        },
{
    if let Ok((s, n)) = shard_decoding(bytes) {
        let tail = bytes.skip(SHARD_HEADER_SIZE as int);
        chunk_at_is_sound(tail, MAX_SHARD_SIZE as nat);
        assert(bytes.take(n as int) =~= shard_encoding(s)) by {
            assert(chunk_encoding(s.chunk) =~= tail.take(n - SHARD_HEADER_SIZE));
            assert(config_be(s.config) =~= bytes.subrange(32, 36));
        }
    }
}

/// What is hashed into the identifiers of two shards is the same only if both commitment and index
/// are.
pub proof fn shard_uuid_preimage_is_injective(c1: Seq<u8>, i1: u16, c2: Seq<u8>, i2: u16)
    requires
        c1.len() == c2.len(),
        shard_uuid_preimage(c1, i1) == shard_uuid_preimage(c2, i2),
    ensures
        c1 == c2,
        i1 == i2,
{
    let a = shard_uuid_preimage(c1, i1);
    let b = shard_uuid_preimage(c2, i2);
    let n = c1.len() as int;
    assert(c1 =~= a.take(n));
    assert(c2 =~= b.take(n));
    assert(a[n] == (i1 % 256) as u8 && a[n + 1] == (i1 / 256) as u8);
    assert(b[n] == (i2 % 256) as u8 && b[n + 1] == (i2 / 256) as u8);
}

} // verus!
