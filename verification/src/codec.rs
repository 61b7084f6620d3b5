//! Byte-level encoding shared by shards and blocks.

use vstd::prelude::*;

use crate::types::Digest;

verus! {

/// Why bytes could not be read as a value.
#[derive(Clone, Debug, PartialEq, Eq)]
pub enum CodecError {
    /// The input ended before the value did.
    EndOfBuffer,
    /// This many bytes remained after the value.
    ExtraData(usize),
    /// A variable-length integer of this width was malformed.
    InvalidVarint(usize),
    /// A variable-length integer does not fit in `usize`.
    InvalidUsize,
    /// A byte that stands for a boolean was neither 0 nor 1.
    InvalidBool,
    /// A tag matched no variant.
    InvalidEnum(u8),
    /// A length prefix lies outside the permitted range.
    InvalidLength(usize),
    /// The value is well formed but not acceptable: context and message.
    Invalid(&'static str, &'static str),
    /// Another error, in the named context, with its message.
    Wrapped(&'static str, String),
}

/// A 16-bit integer in big-endian order.
pub open spec fn u16_be(x: u16) -> Seq<u8> {
    seq![(x / 256) as u8, (x % 256) as u8]
}

/// A 16-bit integer in little-endian order.
pub open spec fn u16_le(x: u16) -> Seq<u8> {
    seq![(x % 256) as u8, (x / 256) as u8]
}

/// The 16-bit integer whose big-endian bytes stand at `pos`.
pub open spec fn u16_at(bytes: Seq<u8>, pos: int) -> u16
    recommends
        0 <= pos,
        pos + 2 <= bytes.len(),
{
    (bytes[pos] * 256 + bytes[pos + 1]) as u16
}

/// A 64-bit integer in big-endian order.
pub open spec fn u64_be(x: u64) -> Seq<u8> {
    seq![
        (x / 0x100000000000000) as u8,
        (x / 0x1000000000000 % 256) as u8,
        (x / 0x10000000000 % 256) as u8,
        (x / 0x100000000 % 256) as u8,
        (x / 0x1000000 % 256) as u8,
        (x / 0x10000 % 256) as u8,
        (x / 0x100 % 256) as u8,
        (x % 256) as u8,
    ]
}

/// The 64-bit integer whose big-endian bytes stand at `pos`.
pub open spec fn u64_at(bytes: Seq<u8>, pos: int) -> u64
    recommends
        0 <= pos,
        pos + 8 <= bytes.len(),
{
    (bytes[pos] * 0x100000000000000 + bytes[pos + 1] * 0x1000000000000 + bytes[pos + 2]
        * 0x10000000000 + bytes[pos + 3] * 0x100000000 + bytes[pos + 4] * 0x1000000 + bytes[pos + 5]
        * 0x10000 + bytes[pos + 6] * 0x100 + bytes[pos + 7]) as u64
}

/// A pair of 16-bit integers, each in big-endian order.
pub open spec fn config_be(config: (u16, u16)) -> Seq<u8> {
    u16_be(config.0) + u16_be(config.1)
}

/// Length in bytes of an encoded pair of 16-bit integers.
pub const CONFIG_SIZE: usize = 4;

/// Appends the big-endian bytes of `x`.
pub fn write_u16(x: u16, buf: &mut Vec<u8>)
    ensures
        final(buf)@ == old(buf)@ + u16_be(x),
{
    buf.push((x / 256) as u8);
    buf.push((x % 256) as u8);
    assert(buf@ =~= old(buf)@ + u16_be(x));
}

/// Appends the big-endian bytes of `x`.
pub fn write_u64(x: u64, buf: &mut Vec<u8>)
    ensures
        final(buf)@ == old(buf)@ + u64_be(x),
{
    buf.push((x / 0x100000000000000) as u8);
    buf.push((x / 0x1000000000000 % 256) as u8);
    buf.push((x / 0x10000000000 % 256) as u8);
    buf.push((x / 0x100000000 % 256) as u8);
    buf.push((x / 0x1000000 % 256) as u8);
    buf.push((x / 0x10000 % 256) as u8);
    buf.push((x / 0x100 % 256) as u8);
    buf.push((x % 256) as u8);
    assert(buf@ =~= old(buf)@ + u64_be(x));
}

/// Appends the 32 bytes of `digest`.
pub fn write_digest(digest: &Digest, buf: &mut Vec<u8>)
    ensures
        final(buf)@ == old(buf)@ + digest@,
{
    buf.extend_from_slice(digest.0.as_slice());
}

/// Reads the 16-bit integer at `pos`.
pub fn read_u16(buf: &[u8], pos: usize) -> (r: Result<u16, CodecError>)
    requires
        pos <= buf@.len(),
    ensures
        pos + 2 <= buf@.len() ==> r == Ok::<u16, CodecError>(u16_at(buf@, pos as int)),
        pos + 2 > buf@.len() ==> r == Err::<u16, CodecError>(CodecError::EndOfBuffer),
{
    if buf.len() - pos < 2 {
        return Err(CodecError::EndOfBuffer);
    }
    Ok(buf[pos] as u16 * 256 + buf[pos + 1] as u16)
}

/// Reads the 64-bit integer at `pos`.
pub fn read_u64(buf: &[u8], pos: usize) -> (r: Result<u64, CodecError>)
    requires
        pos <= buf@.len(),
    ensures
        pos + 8 <= buf@.len() ==> r == Ok::<u64, CodecError>(u64_at(buf@, pos as int)),
        pos + 8 > buf@.len() ==> r == Err::<u64, CodecError>(CodecError::EndOfBuffer),
{
    if buf.len() - pos < 8 {
        return Err(CodecError::EndOfBuffer);
    }
    Ok(
        buf[pos] as u64 * 0x100000000000000 + buf[pos + 1] as u64 * 0x1000000000000 + buf[pos
            + 2] as u64 * 0x10000000000 + buf[pos + 3] as u64 * 0x100000000 + buf[pos + 4] as u64
            * 0x1000000 + buf[pos + 5] as u64 * 0x10000 + buf[pos + 6] as u64 * 0x100 + buf[pos
            + 7] as u64,
    )
}

/// Reads the digest at `pos`.
pub fn read_digest(buf: &[u8], pos: usize) -> (r: Result<Digest, CodecError>)
    requires
        pos <= buf@.len(),
    ensures
        pos + 32 <= buf@.len() ==> r is Ok && r->Ok_0@ == buf@.subrange(pos as int, pos + 32),
        pos + 32 > buf@.len() ==> r == Err::<Digest, CodecError>(CodecError::EndOfBuffer),
{
    if buf.len() - pos < 32 {
        return Err(CodecError::EndOfBuffer);
    }
    let len: usize = buf.len();
    let mut bytes: [u8; 32] = [0u8; 32];
    let mut i: usize = 0;
    while i < 32
        invariant
            i <= 32,
            pos + 32 <= len,
            len == buf@.len(),
            forall|j: int| 0 <= j < i ==> bytes@[j] == buf@[pos + j],
        decreases 32 - i,
    {
        bytes[i] = buf[pos + i];
        i += 1;
    }
    assert(bytes@ =~= buf@.subrange(pos as int, pos + 32));
    Ok(Digest(bytes))
}

/// Whether two byte vectors hold the same bytes.
pub fn same_bytes(a: &Vec<u8>, b: &Vec<u8>) -> (r: bool)
    ensures
        r == (a@ == b@),
{
    if a.len() != b.len() {
        return false;
    }
    let mut i: usize = 0;
    while i < a.len()
        invariant
            i <= a@.len(),
            a@.len() == b@.len(),
            forall|j: int| 0 <= j < i ==> a@[j] == b@[j],
        decreases a@.len() - i,
    {
        if a[i] != b[i] {
            return false;
        }
        i += 1;
    }
    assert(a@ =~= b@);
    true
}

/// Reading back the big-endian bytes of a 64-bit integer gives the integer.
pub proof fn u64_at_undoes_u64_be(bytes: Seq<u8>, pos: int, x: u64)
    requires
        0 <= pos,
        pos + 8 <= bytes.len(),
        bytes.subrange(pos, pos + 8) == u64_be(x),
    ensures
        u64_at(bytes, pos) == x,
{
    let s = bytes.subrange(pos, pos + 8);
    assert((x / 0x100000000000000) * 0x100000000000000 + (x / 0x1000000000000 % 256)
        * 0x1000000000000 + (x / 0x10000000000 % 256) * 0x10000000000 + (x / 0x100000000 % 256)
        * 0x100000000 + (x / 0x1000000 % 256) * 0x1000000 + (x / 0x10000 % 256) * 0x10000 + (x
        / 0x100 % 256) * 0x100 + x % 256 == x) by (bit_vector);
    assert(s[0] == bytes[pos] && s[1] == bytes[pos + 1] && s[2] == bytes[pos + 2] && s[3]
        == bytes[pos + 3]);
    assert(s[4] == bytes[pos + 4] && s[5] == bytes[pos + 5] && s[6] == bytes[pos + 6] && s[7]
        == bytes[pos + 7]);
}

} // verus!
