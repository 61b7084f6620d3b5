//! What the rest of the library asks of a block.

use vstd::prelude::*;

use crate::codec::CodecError;
use crate::types::Digest;

verus! {

/// A block of the chain.
///
/// A block has a byte encoding, a digest that identifies it, a commitment under which it is
/// disseminated, a height and a parent. Implementors say what each of these is as a function of
/// the block's view, and that reading undoes writing.
pub trait Block: View + Sized {
    /// What a reader has to know besides the bytes, such as limits on sizes.
    type Cfg;

    /// Whether a reader configured with `cfg` reads this block back from its encoding.
    spec fn admitted(v: Self::V, cfg: Self::Cfg) -> bool;

    /// The bytes that represent a block.
    spec fn encoding(v: Self::V) -> Seq<u8>;

    /// The inputs on which reading returns, with a block or with an error.
    spec fn readable(bytes: Seq<u8>, cfg: Self::Cfg) -> bool;

    /// The block that stands at the start of `bytes` and the number of bytes that it takes, or
    /// why none does.
    spec fn decoding(bytes: Seq<u8>, cfg: Self::Cfg) -> Result<(Self::V, nat), CodecError>;

    /// The digest of a block.
    spec fn digest_of(v: Self::V) -> Seq<u8>;

    /// The commitment of a block.
    spec fn commitment_of(v: Self::V) -> Seq<u8>;

    /// The height of a block.
    spec fn height_of(v: Self::V) -> u64;

    /// The commitment of a block's parent.
    spec fn parent_of(v: Self::V) -> Seq<u8>;

    /// Reading never takes more bytes than there are.
    proof fn decoding_is_bounded(bytes: Seq<u8>, cfg: Self::Cfg)
        ensures
            Self::decoding(bytes, cfg) matches Ok((_, n)) ==> n <= bytes.len(),
    ;

    /// Reading what was written gives the block back, whatever bytes follow.
    proof fn decoding_undoes_encoding(v: Self::V, cfg: Self::Cfg, rest: Seq<u8>)
        requires
            Self::admitted(v, cfg),
        ensures
            Self::readable(Self::encoding(v) + rest, cfg),
            Self::decoding(Self::encoding(v) + rest, cfg) == Ok::<(Self::V, nat), CodecError>(
                (v, Self::encoding(v).len()),
            ),
    ;

    /// An equal copy of the block.
    fn duplicate(&self) -> (r: Self)
        ensures
            r@ == self@,
    ;

    /// Appends the encoding of the block.
    fn write(&self, buf: &mut Vec<u8>)
        ensures
            final(buf)@ == old(buf)@ + Self::encoding(self@),
    ;

    /// The length of the block's encoding.
    fn encode_size(&self) -> (r: usize)
        requires
            Self::encoding(self@).len() <= usize::MAX,
        ensures
            r == Self::encoding(self@).len(),
    ;

    /// Whether reading `buf` returns.
    fn is_readable(buf: &[u8], cfg: &Self::Cfg) -> (r: bool)
        ensures
            r == Self::readable(buf@, *cfg),
    ;

    /// Reads the block at the start of `buf`; with it comes the number of bytes that it took.
    fn read_cfg(buf: &[u8], cfg: &Self::Cfg) -> (r: Result<(Self, usize), CodecError>)
        requires
            Self::readable(buf@, *cfg),
        ensures
            match Self::decoding(buf@, *cfg) {
                Ok((v, n)) => r is Ok && r->Ok_0.0@ == v && r->Ok_0.1 == n,
                Err(e) => r is Err && r->Err_0 == e,
            },
    ;

    /// The digest of the block.
    fn digest(&self) -> (r: Digest)
        ensures
            r@ == Self::digest_of(self@),
    ;

    /// The commitment of the block.
    fn commitment(&self) -> (r: Digest)
        ensures
            r@ == Self::commitment_of(self@),
    ;

    /// The height of the block.
    fn height(&self) -> (r: u64)
        ensures
            r == Self::height_of(self@),
    ;

    /// The commitment of the parent of the block.
    fn parent(&self) -> (r: Digest)
        ensures
            r@ == Self::parent_of(self@),
    ;
}

/// The block that makes up all of `bytes`, or why they are not a block: a block that ends early
/// leaves data over, which is an error.
pub open spec fn decoded<B: Block>(bytes: Seq<u8>, cfg: B::Cfg) -> Result<B::V, CodecError> {
    match B::decoding(bytes, cfg) {
        Ok((v, n)) => if n < bytes.len() {
            Err(CodecError::ExtraData((bytes.len() - n) as usize))
        } else {
            Ok(v)
        },
        Err(e) => Err(e),
    }
}

/// Reads a block that makes up all of `buf`.
pub fn decode_cfg<B: Block>(buf: &[u8], cfg: &B::Cfg) -> (r: Result<B, CodecError>)
    requires
        B::readable(buf@, *cfg),
    ensures
        match decoded::<B>(buf@, *cfg) {
            Ok(v) => r is Ok && r->Ok_0@ == v,
            Err(e) => r is Err && r->Err_0 == e,
        },
{
    proof {
        B::decoding_is_bounded(buf@, *cfg);
    }
    match B::read_cfg(buf, cfg) {
        Ok((block, n)) => if n < buf.len() {
            Err(CodecError::ExtraData(buf.len() - n))
        } else {
            Ok(block)
        },
        Err(e) => Err(e),
    }
}

/// Encodes a block into a vector of its own.
pub fn encode<B: Block>(block: &B) -> (r: Vec<u8>)
    ensures
        r@ == B::encoding(block@),
{
    let mut buf: Vec<u8> = Vec::new();
    block.write(&mut buf);
    assert(buf@ =~= B::encoding(block@));
    buf
}

/// A block decodes from exactly its encoding.
pub proof fn decode_undoes_encode<B: Block>(v: B::V, cfg: B::Cfg)
    requires
        B::admitted(v, cfg),
    ensures
        B::readable(B::encoding(v), cfg),
        decoded::<B>(B::encoding(v), cfg) == Ok::<B::V, CodecError>(v),
{
    B::decoding_undoes_encoding(v, cfg, Seq::empty());
    assert(B::encoding(v) + Seq::<u8>::empty() =~= B::encoding(v));
}

} // verus!
