//! Envelopes: a block together with the commitment to what it is coded into.

use vstd::prelude::*;
use vstd::std_specs::cmp::PartialEqSpec;

use crate::block::Block;
use crate::codec::{config_be, CodecError, CONFIG_SIZE};
use crate::coding::coded_block::{
    coded_as, coded_data, coded_data_at, coded_data_readable, coded_data_roundtrip,
    is_coded_data_readable, read_coded_data, write_coded_data,
};
use crate::coding::erasure::{codable, encode_chunks, rs_encoding};
use crate::types::Digest;

verus! {

/// A block, its coding configuration, and the commitment to what it is coded into. The coded
/// chunks themselves are not kept.
#[derive(Debug)]
pub struct CodedBlock<B: Block> {
    inner: B,
    config: (u16, u16),
    commitment: Digest,
}

/// What a [CodedBlock] holds.
#[verifier::ext_equal]
pub struct EnvelopeView<V> {
    /// The block.
    pub inner: V,
    /// The total number of chunks and the number that suffice.
    pub config: (u16, u16),
    /// The commitment to the chunks.
    pub commitment: Seq<u8>,
}

/// A block in the envelope of a configuration.
pub open spec fn enveloped<B: Block>(inner: B::V, config: (u16, u16)) -> EnvelopeView<B::V> {
    EnvelopeView {
        inner,
        config,
        commitment: rs_encoding(config.0, config.1, coded_data::<B>(inner, config)).0,
    }
}

/// Whether the commitment is that of the block.
pub open spec fn well_enveloped<B: Block>(v: EnvelopeView<B::V>) -> bool {
    &&& codable(v.config, coded_data::<B>(v.inner, v.config).len())
    &&& v == enveloped::<B>(v.inner, v.config)
}

impl<B: Block> View for CodedBlock<B> {
    type V = EnvelopeView<B::V>;

    closed spec fn view(&self) -> EnvelopeView<B::V> {
        EnvelopeView {
            inner: self.inner@,
            config: self.config,
            commitment: self.commitment@,
        }
    }
}

impl<B: Block> CodedBlock<B> {
    /// Every envelope carries the commitment of its block.
    #[verifier::type_invariant]
    spec fn committed(self) -> bool {
        well_enveloped::<B>(self@)
    }

    /// Erasure codes a block for the commitment.
    fn commit(inner: &B, config: (u16, u16)) -> (r: Digest)
        requires
            codable(config, coded_data::<B>(inner@, config).len()),
        ensures
            r@ == rs_encoding(config.0, config.1, coded_data::<B>(inner@, config)).0,
    {
        let mut buf: Vec<u8> = Vec::with_capacity(CONFIG_SIZE + inner.encode_size());
        write_coded_data(inner, config, &mut buf);
        assert(buf@ =~= coded_data::<B>(inner@, config));
        let (commitment, _) = encode_chunks(config, buf);
        commitment
    }

    /// Puts a block into the envelope of a configuration.
    pub fn new(inner: B, config: (u16, u16)) -> (r: Self)
        requires
            codable(config, coded_data::<B>(inner@, config).len()),
        ensures
            r@ == enveloped::<B>(inner@, config),
            r.block() == inner,
    {
        let commitment = Self::commit(&inner, config);
        CodedBlock { inner, config, commitment }
    }

    /// The block.
    pub fn inner(&self) -> (r: &B)
        ensures
            *r == self.block(),
            r@ == self@.inner,
            well_enveloped::<B>(self@),
    {
        proof {
            use_type_invariant(self);
        }
        &self.inner
    }
}

impl<B: Block> Block for CodedBlock<B> {
    type Cfg = B::Cfg;

    open spec fn admitted(v: EnvelopeView<B::V>, cfg: B::Cfg) -> bool {
        B::admitted(v.inner, cfg) && well_enveloped::<B>(v)
    }

    open spec fn encoding(v: EnvelopeView<B::V>) -> Seq<u8> {
        coded_data::<B>(v.inner, v.config)
    }

    open spec fn readable(bytes: Seq<u8>, cfg: B::Cfg) -> bool {
        coded_data_readable::<B>(bytes, cfg)
    }

    open spec fn decoding(bytes: Seq<u8>, cfg: B::Cfg) -> Result<
        (EnvelopeView<B::V>, nat),
        CodecError,
    > {
        match coded_data_at::<B>(bytes, cfg) {
            Ok((inner, config, n)) => Ok((enveloped::<B>(inner, config), n)),
            Err(e) => Err(e),
        }
    }

    open spec fn digest_of(v: EnvelopeView<B::V>) -> Seq<u8> {
        B::digest_of(v.inner)
    }

    open spec fn commitment_of(v: EnvelopeView<B::V>) -> Seq<u8> {
        v.commitment
    }

    open spec fn height_of(v: EnvelopeView<B::V>) -> u64 {
        B::height_of(v.inner)
    }

    open spec fn parent_of(v: EnvelopeView<B::V>) -> Seq<u8> {
        B::parent_of(v.inner)
    }

    proof fn decoding_is_bounded(bytes: Seq<u8>, cfg: B::Cfg) {
        B::decoding_is_bounded(bytes, cfg);
    }

    proof fn decoding_undoes_encoding(v: EnvelopeView<B::V>, cfg: B::Cfg, rest: Seq<u8>) {
        coded_data_roundtrip::<B>(v.inner, v.config, cfg, rest);
    }

    fn duplicate(&self) -> (r: Self) {
        proof {
            use_type_invariant(self);
        }
        CodedBlock {
            inner: self.inner.duplicate(),
            config: self.config,
            commitment: self.commitment,
        }
    }

    fn write(&self, buf: &mut Vec<u8>) {
        write_coded_data(&self.inner, self.config, buf)
    }

    fn encode_size(&self) -> (r: usize) {
        self.inner.encode_size() + CONFIG_SIZE
    }

    fn is_readable(buf: &[u8], cfg: &B::Cfg) -> (r: bool) {
        is_coded_data_readable::<B>(buf, cfg)
    }

    fn read_cfg(buf: &[u8], cfg: &B::Cfg) -> (r: Result<(Self, usize), CodecError>) {
        match read_coded_data::<B>(buf, cfg) {
            Ok((inner, config, n)) => Ok((CodedBlock::new(inner, config), n)),
            Err(e) => Err(e),
        }
    }

    fn digest(&self) -> (r: Digest) {
        self.inner.digest()
    }

    fn commitment(&self) -> (r: Digest) {
        self.commitment
    }

    fn height(&self) -> (r: u64) {
        self.inner.height()
    }

    fn parent(&self) -> (r: Digest) {
        self.inner.parent()
    }
}

impl<B: Block> CodedBlock<B> {
    /// The block itself, as `==` compares it.
    pub closed spec fn block(&self) -> B {
        self.inner
    }
}

impl<B: Block + PartialEq> PartialEq for CodedBlock<B> {
    fn eq(&self, other: &Self) -> (r: bool) {
        self.inner == other.inner && self.config.0 == other.config.0 && self.config.1
            == other.config.1 && self.commitment == other.commitment
    }
}

impl<B: Block + PartialEq> vstd::std_specs::cmp::PartialEqSpecImpl for CodedBlock<B> {
    open spec fn obeys_eq_spec() -> bool {
        <B as PartialEqSpec>::obeys_eq_spec()
    }

    open spec fn eq_spec(&self, other: &Self) -> bool {
        &&& self.block().eq_spec(&other.block())
        &&& self@.config == other@.config
        &&& self@.commitment == other@.commitment
    }
}

impl<B: Block + PartialEq> Eq for CodedBlock<B> {

}

impl<B: Block> Clone for CodedBlock<B> {
    fn clone(&self) -> (r: Self)
        ensures
            r@ == self@,
    {
        self.duplicate()
    }
}

/// What `==` compares of the block is the block of the view.
pub proof fn block_is_inner<B: Block>(x: CodedBlock<B>)
    ensures
        x.block()@ == x@.inner,
{
}

/// Where equal blocks have one encoding, envelopes are equal exactly if their blocks and
/// configurations are, and then have one encoding and one commitment.
pub proof fn equal_by_block_and_configuration<B: Block + PartialEq>(
    x: CodedBlock<B>,
    y: CodedBlock<B>,
)
    requires
        x@ == enveloped::<B>(x@.inner, x@.config),
        y@ == enveloped::<B>(y@.inner, y@.config),
        x.block().eq_spec(&y.block()) ==> B::encoding(x@.inner) == B::encoding(y@.inner),
    ensures
        x.eq_spec(&y) <==> x.block().eq_spec(&y.block()) && x@.config == y@.config,
        x.eq_spec(&y) ==> {
            &&& CodedBlock::<B>::encoding(x@) == CodedBlock::<B>::encoding(y@)
            &&& CodedBlock::<B>::commitment_of(x@) == CodedBlock::<B>::commitment_of(y@)
        },
{
}

/// Where `==` of blocks is an equivalence, `==` of envelopes is one.
pub proof fn equality_is_an_equivalence<B: Block + PartialEq>(
    x: CodedBlock<B>,
    y: CodedBlock<B>,
    z: CodedBlock<B>,
)
    requires
        forall|a: B| #[trigger] a.eq_spec(&a),
        forall|a: B, b: B| #[trigger] a.eq_spec(&b) ==> b.eq_spec(&a),
        forall|a: B, b: B, c: B|
            #[trigger] a.eq_spec(&b) && #[trigger] b.eq_spec(&c) ==> a.eq_spec(&c),
    ensures
        x.eq_spec(&x),
        x.eq_spec(&y) ==> y.eq_spec(&x),
        x.eq_spec(&y) && y.eq_spec(&z) ==> x.eq_spec(&z),
{
}

/// An envelope and a coded block of one block and one configuration carry one commitment, the root
/// under which the block's bytes and the configuration are coded, and one sequence of bytes stands
/// for both.
pub proof fn envelope_agrees_with_coded_block<B: Block>(inner: B::V, config: (u16, u16))
    ensures
        enveloped::<B>(inner, config).commitment == rs_encoding(
            config.0,
            config.1,
            B::encoding(inner) + config_be(config),
        ).0,
        enveloped::<B>(inner, config).commitment == coded_as::<B>(inner, config).commitment,
        CodedBlock::<B>::encoding(enveloped::<B>(inner, config))
            == crate::coding::coded_block::CodedBlock::<B>::encoding(coded_as::<B>(inner, config)),
{
}

} // verus!
