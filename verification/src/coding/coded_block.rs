//! Coded blocks: a block together with the chunks that it is coded into.

use vstd::prelude::*;
use vstd::std_specs::cmp::PartialEqSpec;

use crate::block::Block;
use crate::codec::{config_be, read_u16, u16_at, write_u16, CodecError, CONFIG_SIZE};
use crate::coding::chunk::{chunks_view, Chunk, ChunkView};
use crate::coding::erasure::{
    authentic, codable, encode_chunks, is_codable, numbered, recoverable, rs_encoding,
};
use crate::types::Digest;

verus! {

/// The bytes that are coded for a block: its encoding, followed by the coding configuration.
pub open spec fn coded_data<B: Block>(inner: B::V, config: (u16, u16)) -> Seq<u8> {
    B::encoding(inner) + config_be(config)
}

/// Writes the bytes that are coded for a block.
pub fn write_coded_data<B: Block>(inner: &B, config: (u16, u16), buf: &mut Vec<u8>)
    ensures
        final(buf)@ == old(buf)@ + coded_data::<B>(inner@, config),
{
    inner.write(buf);
    write_u16(config.0, buf);
    write_u16(config.1, buf);
    assert(buf@ =~= old(buf)@ + coded_data::<B>(inner@, config));
}

/// Reads a block and the coding configuration that follows it; with them comes the number of
/// bytes that they took.
pub fn read_coded_data<B: Block>(buf: &[u8], cfg: &B::Cfg) -> (r: Result<
    (B, (u16, u16), usize),
    CodecError,
>)
    requires
        B::readable(buf@, *cfg),
    ensures
        match coded_data_at::<B>(buf@, *cfg) {
            Ok((inner, config, n)) => {
                &&& r is Ok
                &&& r->Ok_0.0@ == inner
                &&& r->Ok_0.1 == config
                &&& r->Ok_0.2 == n
                &&& n <= buf@.len()
            },
            Err(e) => r is Err && r->Err_0 == e,
        },
{
    let len: usize = buf.len();
    proof {
        B::decoding_is_bounded(buf@, *cfg);
    }
    match B::read_cfg(buf, cfg) {
        Ok((inner, n)) => {
            assert(n <= len);
            let total: u16 = match read_u16(buf, n) {
                Ok(total) => total,
                Err(e) => return Err(e),
            };
            let min: u16 = match read_u16(buf, n + 2) {
                Ok(min) => min,
                Err(e) => return Err(e),
            };
            Ok((inner, (total, min), n + CONFIG_SIZE))
        },
        Err(e) => Err(e),
    }
}

/// The block and the coding configuration at the start of `bytes` and the number of bytes that
/// they take, or why they are not there.
pub open spec fn coded_data_at<B: Block>(bytes: Seq<u8>, cfg: B::Cfg) -> Result<
    (B::V, (u16, u16), nat),
    CodecError,
> {
    match B::decoding(bytes, cfg) {
        Ok((inner, n)) => if bytes.len() < n + CONFIG_SIZE {
            Err(CodecError::EndOfBuffer)
        } else {
            Ok(
                (
                    inner,
                    (u16_at(bytes, n as int), u16_at(bytes, n as int + 2)),
                    n + CONFIG_SIZE as nat,
                ),
            )
        },
        Err(e) => Err(e),
    }
}

/// Whether bytes can be read as a block and a coding configuration under which the block can be
/// coded, or else end in an error.
pub open spec fn coded_data_readable<B: Block>(bytes: Seq<u8>, cfg: B::Cfg) -> bool {
    &&& B::readable(bytes, cfg)
    &&& coded_data_at::<B>(bytes, cfg) matches Ok((inner, config, _)) ==> codable(
        config,
        coded_data::<B>(inner, config).len(),
    )
}

/// Tells whether bytes can be read as a block and a coding configuration under which the block can
/// be coded, or else end in an error.
pub fn is_coded_data_readable<B: Block>(buf: &[u8], cfg: &B::Cfg) -> (r: bool)
    ensures
        r == coded_data_readable::<B>(buf@, *cfg),
{
    if !B::is_readable(buf, cfg) {
        return false;
    }
    match read_coded_data::<B>(buf, cfg) {
        Ok((inner, config, _)) => {
            let mut data: Vec<u8> = Vec::new();
            write_coded_data(&inner, config, &mut data);
            assert(data@ =~= coded_data::<B>(inner@, config));
            is_codable(config, data.len())
        },
        Err(_) => true,
    }
}

/// Reading what was written gives block and configuration back, whatever bytes follow.
pub proof fn coded_data_roundtrip<B: Block>(
    inner: B::V,
    config: (u16, u16),
    cfg: B::Cfg,
    rest: Seq<u8>,
)
    requires
        B::admitted(inner, cfg),
    ensures
        B::readable(coded_data::<B>(inner, config) + rest, cfg),
        coded_data_at::<B>(coded_data::<B>(inner, config) + rest, cfg) == Ok::<
            (B::V, (u16, u16), nat),
            CodecError,
        >((inner, config, coded_data::<B>(inner, config).len())),
{
    let bytes = coded_data::<B>(inner, config) + rest;
    let tail = config_be(config) + rest;
    assert(bytes =~= B::encoding(inner) + tail);
    B::decoding_undoes_encoding(inner, cfg, tail);
    let n = B::encoding(inner).len() as int;
    assert(bytes[n] == tail[0] && bytes[n + 1] == tail[1] && bytes[n + 2] == tail[2] && bytes[n + 3]
        == tail[3]);
}

/// A block, its coding configuration, and what it is coded into.
#[derive(Debug)]
pub struct CodedBlock<B: Block> {
    inner: B,
    config: (u16, u16),
    commitment: Digest,
    chunks: Vec<Chunk>,
}

/// What a [CodedBlock] holds.
#[verifier::ext_equal]
pub struct CodedBlockView<V> {
    /// The block.
    pub inner: V,
    /// The total number of chunks and the number that suffice.
    pub config: (u16, u16),
    /// The commitment to the chunks.
    pub commitment: Seq<u8>,
    /// The chunks.
    pub chunks: Seq<ChunkView>,
}

/// A block coded under a configuration.
pub open spec fn coded_as<B: Block>(inner: B::V, config: (u16, u16)) -> CodedBlockView<B::V> {
    let (commitment, chunks) = rs_encoding(config.0, config.1, coded_data::<B>(inner, config));
    CodedBlockView { inner, config, commitment, chunks }
}

/// Whether commitment and chunks are those of the block, the commitment proves each of the chunks,
/// and enough of them give its bytes back.
pub open spec fn well_coded<B: Block>(v: CodedBlockView<B::V>) -> bool {
    let data = coded_data::<B>(v.inner, v.config);
    &&& codable(v.config, data.len())
    &&& v.commitment.len() == 32
    &&& v == coded_as::<B>(v.inner, v.config)
    &&& numbered(v.config, v.chunks, data.len())
    &&& authentic(v.config.0, v.commitment, v.chunks)
    &&& recoverable(v.config, v.commitment, v.chunks, data)
}

impl<B: Block> View for CodedBlock<B> {
    type V = CodedBlockView<B::V>;

    closed spec fn view(&self) -> CodedBlockView<B::V> {
        CodedBlockView {
            inner: self.inner@,
            config: self.config,
            commitment: self.commitment@,
            chunks: chunks_view(self.chunks@),
        }
    }
}

impl<B: Block> CodedBlock<B> {
    /// Every coded block is coded from its block and configuration.
    #[verifier::type_invariant]
    spec fn coded(self) -> bool {
        well_coded::<B>(self@)
    }

    /// Erasure codes a block.
    fn encode(inner: &B, config: (u16, u16)) -> (r: (Digest, Vec<Chunk>))
        requires
            codable(config, coded_data::<B>(inner@, config).len()),
        ensures
            ({
                let data = coded_data::<B>(inner@, config);
                &&& (r.0@, chunks_view(r.1@)) == rs_encoding(config.0, config.1, data)
                &&& numbered(config, chunks_view(r.1@), data.len())
                &&& authentic(config.0, r.0@, chunks_view(r.1@))
                &&& recoverable(config, r.0@, chunks_view(r.1@), data)
            }),
    {
        let mut buf: Vec<u8> = Vec::with_capacity(CONFIG_SIZE + inner.encode_size());
        write_coded_data(inner, config, &mut buf);
        assert(buf@ =~= coded_data::<B>(inner@, config));
        encode_chunks(config, buf)
    }

    /// Codes a block under a configuration.
    pub fn new(inner: B, config: (u16, u16)) -> (r: Self)
        requires
            codable(config, coded_data::<B>(inner@, config).len()),
        ensures
            r@ == coded_as::<B>(inner@, config),
            r.block() == inner,
            well_coded::<B>(r@),
    {
        let (commitment, chunks) = Self::encode(&inner, config);
        CodedBlock { inner, config, commitment, chunks }
    }

    /// The block.
    pub fn inner(&self) -> (r: &B)
        ensures
            *r == self.block(),
            r@ == self@.inner,
            well_coded::<B>(self@),
    {
        proof {
            use_type_invariant(self);
        }
        &self.inner
    }

    /// Takes the block out.
    pub fn take_inner(self) -> (r: B)
        ensures
            r == self.block(),
            r@ == self@.inner,
    {
        self.inner
    }

    /// The coding configuration: the total number of chunks and the number that suffice.
    pub fn config(&self) -> (r: (u16, u16))
        ensures
            r == self@.config,
    {
        self.config
    }

    /// The chunks.
    pub fn chunks(&self) -> (r: &[Chunk])
        ensures
            chunks_view(r@) == self@.chunks,
            well_coded::<B>(self@),
    {
        proof {
            use_type_invariant(self);
        }
        self.chunks.as_slice()
    }
}

impl<B: Block> Block for CodedBlock<B> {
    type Cfg = B::Cfg;

    open spec fn admitted(v: CodedBlockView<B::V>, cfg: B::Cfg) -> bool {
        B::admitted(v.inner, cfg) && well_coded::<B>(v)
    }

    open spec fn encoding(v: CodedBlockView<B::V>) -> Seq<u8> {
        coded_data::<B>(v.inner, v.config)
    }

    open spec fn readable(bytes: Seq<u8>, cfg: B::Cfg) -> bool {
        coded_data_readable::<B>(bytes, cfg)
    }

    open spec fn decoding(bytes: Seq<u8>, cfg: B::Cfg) -> Result<
        (CodedBlockView<B::V>, nat),
        CodecError,
    > {
        match coded_data_at::<B>(bytes, cfg) {
            Ok((inner, config, n)) => Ok((coded_as::<B>(inner, config), n)),
            Err(e) => Err(e),
        }
    }

    open spec fn digest_of(v: CodedBlockView<B::V>) -> Seq<u8> {
        B::digest_of(v.inner)
    }

    open spec fn commitment_of(v: CodedBlockView<B::V>) -> Seq<u8> {
        v.commitment
    }

    open spec fn height_of(v: CodedBlockView<B::V>) -> u64 {
        B::height_of(v.inner)
    }

    open spec fn parent_of(v: CodedBlockView<B::V>) -> Seq<u8> {
        B::parent_of(v.inner)
    }

    proof fn decoding_is_bounded(bytes: Seq<u8>, cfg: B::Cfg) {
        B::decoding_is_bounded(bytes, cfg);
    }

    proof fn decoding_undoes_encoding(v: CodedBlockView<B::V>, cfg: B::Cfg, rest: Seq<u8>) {
        coded_data_roundtrip::<B>(v.inner, v.config, cfg, rest);
    }

    fn duplicate(&self) -> (r: Self) {
        proof {
            use_type_invariant(self);
        }
        let mut chunks: Vec<Chunk> = Vec::with_capacity(self.chunks.len());
        let mut i: usize = 0;
        while i < self.chunks.len()
            invariant
                i <= self.chunks@.len(),
                chunks@.len() == i,
                forall|j: int| 0 <= j < i ==> (#[trigger] chunks@[j])@ == self.chunks@[j]@,
            decreases self.chunks@.len() - i,
        {
            chunks.push(self.chunks[i].clone());
            i += 1;
        }
        assert(chunks_view(chunks@) =~= chunks_view(self.chunks@));
        CodedBlock {
            inner: self.inner.duplicate(),
            config: self.config,
            commitment: self.commitment,
            chunks,
        }
    }

    fn write(&self, buf: &mut Vec<u8>) {
        write_coded_data(&self.inner, self.config, buf)
    }

    fn encode_size(&self) -> (r: usize) {
        self.inner.encode_size() + CONFIG_SIZE
    }

    fn is_readable(buf: &[u8], cfg: &B::Cfg) -> (r: bool) {
        is_coded_data_readable::<B>(buf, cfg)
    }

    fn read_cfg(buf: &[u8], cfg: &B::Cfg) -> (r: Result<(Self, usize), CodecError>) {
        match read_coded_data::<B>(buf, cfg) {
            Ok((inner, config, n)) => Ok((CodedBlock::new(inner, config), n)),
            Err(e) => Err(e),
        }
    }

    fn digest(&self) -> (r: Digest) {
        self.inner.digest()
    }

    fn commitment(&self) -> (r: Digest) {
        self.commitment
    }

    fn height(&self) -> (r: u64) {
        self.inner.height()
    }

    fn parent(&self) -> (r: Digest) {
        self.inner.parent()
    }
}

impl<B: Block> CodedBlock<B> {
    /// The block itself, as `==` compares it.
    pub closed spec fn block(&self) -> B {
        self.inner
    }
}

impl<B: Block + PartialEq> PartialEq for CodedBlock<B> {
    fn eq(&self, other: &Self) -> (r: bool) {
        self.inner == other.inner && self.config.0 == other.config.0 && self.config.1
            == other.config.1 && self.commitment == other.commitment
    }
}

impl<B: Block + PartialEq> vstd::std_specs::cmp::PartialEqSpecImpl for CodedBlock<B> {
    open spec fn obeys_eq_spec() -> bool {
        <B as PartialEqSpec>::obeys_eq_spec()
    }

    open spec fn eq_spec(&self, other: &Self) -> bool {
        &&& self.block().eq_spec(&other.block())
        &&& self@.config == other@.config
        &&& self@.commitment == other@.commitment
    }
}

impl<B: Block + PartialEq> Eq for CodedBlock<B> {

}

impl<B: Block> Clone for CodedBlock<B> {
    fn clone(&self) -> (r: Self)
        ensures
            r@ == self@,
    {
        self.duplicate()
    }
}

/// What `==` compares of the block is the block of the view.
pub proof fn block_is_inner<B: Block>(x: CodedBlock<B>)
    ensures
        x.block()@ == x@.inner,
{
}

/// Where equal blocks have one encoding, coded blocks are equal exactly if their blocks and
/// configurations are, and then have one encoding and one commitment.
pub proof fn equal_by_block_and_configuration<B: Block + PartialEq>(
    x: CodedBlock<B>,
    y: CodedBlock<B>,
)
    requires
        x@ == coded_as::<B>(x@.inner, x@.config),
        y@ == coded_as::<B>(y@.inner, y@.config),
        x.block().eq_spec(&y.block()) ==> B::encoding(x@.inner) == B::encoding(y@.inner),
    ensures
        x.eq_spec(&y) <==> x.block().eq_spec(&y.block()) && x@.config == y@.config,
        x.eq_spec(&y) ==> {
            &&& CodedBlock::<B>::encoding(x@) == CodedBlock::<B>::encoding(y@)
            &&& CodedBlock::<B>::commitment_of(x@) == CodedBlock::<B>::commitment_of(y@)
        },
{
}

/// Where `==` of blocks is an equivalence, `==` of coded blocks is one.
pub proof fn equality_is_an_equivalence<B: Block + PartialEq>(
    x: CodedBlock<B>,
    y: CodedBlock<B>,
    z: CodedBlock<B>,
)
    requires
        forall|a: B| #[trigger] a.eq_spec(&a),
        forall|a: B, b: B| #[trigger] a.eq_spec(&b) ==> b.eq_spec(&a),
        forall|a: B, b: B, c: B|
            #[trigger] a.eq_spec(&b) && #[trigger] b.eq_spec(&c) ==> a.eq_spec(&c),
    ensures
        x.eq_spec(&x),
        x.eq_spec(&y) ==> y.eq_spec(&x),
        x.eq_spec(&y) && y.eq_spec(&z) ==> x.eq_spec(&z),
{
}

/// Coded blocks of one block and one configuration agree in everything, their chunks too, which
/// `==` does not compare.
pub proof fn coded_blocks_agree<B: Block>(a: CodedBlockView<B::V>, b: CodedBlockView<B::V>)
    requires
        well_coded::<B>(a),
        well_coded::<B>(b),
        a.inner == b.inner,
        a.config == b.config,
    ensures
        a == b,
{
}

} // verus!
