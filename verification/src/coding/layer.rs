//! The layer that spreads the shards of a block among peers and puts blocks together again from
//! the shards that peers have sent.

use vstd::prelude::*;

use crate::block::{decode_cfg, decode_undoes_encode, decoded, Block};
use crate::codec::CodecError;
use crate::coding::chunk::{chunks_view, Chunk, ChunkView};
use crate::coding::coded_block::{coded_data, well_coded, CodedBlock, CodedBlockView};
use crate::coding::erasure::{
    authentic, codable, decode_data, decoding, drawn_from, numbered, proven, recoverable,
    rs_decoding, shard_len, CodingError,
};
use crate::coding::shard::{
    shard_decoding, shard_decoding_undoes_encoding, shard_encoding, shard_uuid, shard_uuid_of,
    Shard, ShardView, MAX_SHARD_SIZE,
};
use crate::coding::subscriptions::{joined, waiting, Subscriptions};
use crate::types::Digest;

verus! {

/// Why a block could not be reconstructed from shards.
#[derive(Clone, Debug, PartialEq, Eq)]
pub enum ReconstructionError {
    /// The chunks do not decode.
    CodingRecovery(CodingError),
    /// What the chunks decode to is not a block.
    Codec(CodecError),
}

impl From<CodingError> for ReconstructionError {
    fn from(e: CodingError) -> (r: Self) {
        ReconstructionError::CodingRecovery(e)
    }
}

impl vstd::std_specs::convert::FromSpecImpl<CodingError> for ReconstructionError {
    open spec fn obeys_from_spec() -> bool {
        true
    }

    open spec fn from_spec(e: CodingError) -> Self {
        ReconstructionError::CodingRecovery(e)
    }
}

impl From<CodecError> for ReconstructionError {
    fn from(e: CodecError) -> (r: Self) {
        ReconstructionError::Codec(e)
    }
}

impl vstd::std_specs::convert::FromSpecImpl<CodecError> for ReconstructionError {
    open spec fn obeys_from_spec() -> bool {
        true
    }

    open spec fn from_spec(e: CodecError) -> Self {
        ReconstructionError::Codec(e)
    }
}

/// What to ask of the buffer of shards received from peers: those of a block, or among them the
/// one of this identifier. Every peer is asked about.
#[derive(Clone, Copy, Debug, PartialEq, Eq)]
pub struct BufferQuery {
    /// The commitment of the block.
    pub commitment: Digest,
    /// The identifier of the shard, if only one is wanted.
    pub digest: Option<Digest>,
}

/// A reconstructed block, and those who have been waiting for it.
pub struct Reconstructed<B, R> {
    /// The block.
    pub block: B,
    /// Whom to send it to, in this order.
    pub subscribers: Vec<R>,
}

/// What each shard holds.
pub open spec fn shards_view(s: Seq<Shard>) -> Seq<ShardView> {
    s.map_values(|shard: Shard| shard@)
}

/// The chunk of each shard.
pub open spec fn chunks_of(s: Seq<ShardView>) -> Seq<ChunkView> {
    s.map_values(|shard: ShardView| shard.chunk)
}

/// Whether no shard has this index.
pub open spec fn none_of(available: Seq<ShardView>, index: u16) -> bool {
    forall|i: int| 0 <= i < available.len() ==> (#[trigger] available[i]).chunk.index != index
}

/// Whether a shard has this index, and is the first that has.
pub open spec fn first_of(available: Seq<ShardView>, index: u16, shard: ShardView) -> bool {
    exists|i: int|
        {
            &&& 0 <= i < available.len()
            &&& #[trigger] available[i] == shard
            &&& shard.chunk.index == index
            &&& none_of(available.take(i), index)
        }
}

/// Whether there are shards, and as many as the first of them says suffice.
pub open spec fn enough(available: Seq<ShardView>) -> bool {
    available.len() > 0 && available.len() >= available[0].config.1
}

/// Whether the decoder can be run under the configuration of the first shard: the minimum is
/// positive and below the total.
pub open spec fn attemptable(available: Seq<ShardView>) -> bool {
    enough(available) ==> 0 < available[0].config.1 < available[0].config.0
}

/// The bytes that the shards decode to: none while there are too few shards.
pub open spec fn recovery(commitment: Seq<u8>, available: Seq<ShardView>) -> Result<
    Option<Seq<u8>>,
    CodingError,
> {
    if enough(available) {
        match decoding(available[0].config, commitment, chunks_of(available)) {
            Ok(data) => Ok(Some(data)),
            Err(e) => Err(e),
        }
    } else {
        Ok(None)
    }
}

/// The block that recovered bytes are: none where nothing has been recovered.
pub open spec fn interpretation<B: Block>(
    recovered: Result<Option<Seq<u8>>, CodingError>,
    cfg: B::Cfg,
) -> Result<Option<B::V>, ReconstructionError> {
    match recovered {
        Ok(None) => Ok(None),
        Ok(Some(data)) => match decoded::<B>(data, cfg) {
            Ok(v) => Ok(Some(v)),
            Err(e) => Err(ReconstructionError::Codec(e)),
        },
        Err(e) => Err(ReconstructionError::CodingRecovery(e)),
    }
}

/// The block that the shards reconstruct: none while there are too few shards.
pub open spec fn reconstruction<B: Block>(
    commitment: Seq<u8>,
    available: Seq<ShardView>,
    cfg: B::Cfg,
) -> Result<Option<B::V>, ReconstructionError> {
    interpretation::<B>(recovery(commitment, available), cfg)
}

/// Whether an attempt to reconstruct a block can be made: the decoder can be run on the shards, and
/// a reader on what they decode to.
pub open spec fn reconstructable<B: Block>(
    commitment: Seq<u8>,
    available: Seq<ShardView>,
    cfg: B::Cfg,
) -> bool {
    &&& attemptable(available)
    &&& recovery(commitment, available) matches Ok(Some(data)) ==> B::readable(data, cfg)
}

/// What comes of an attempt: on success the block and everyone who waits for it, who wait no
/// longer; else no one's waiting changes.
pub open spec fn attempted<B: Block, R>(
    outcome: Result<Option<B::V>, ReconstructionError>,
    commitment: Seq<u8>,
    before: Map<Seq<u8>, Seq<R>>,
    after: Map<Seq<u8>, Seq<R>>,
    r: Result<Option<Reconstructed<B, R>>, ReconstructionError>,
) -> bool {
    match outcome {
        Ok(Some(v)) => {
            &&& r matches Ok(Some(done)) && done.block@ == v && done.subscribers@ == waiting(
                before,
                commitment,
            )
            &&& after == before.remove(commitment)
        },
        Ok(None) => r matches Ok(None) && after == before,
        Err(e) => r is Err && r->Err_0 == e && after == before,
    }
}

/// Attempts to get the bytes of a block back from the shards that are available.
pub fn recover(commitment: &Digest, available: Vec<Shard>) -> (r: Result<
    Option<Vec<u8>>,
    CodingError,
>)
    requires
        attemptable(shards_view(available@)),
    ensures
        match recovery(commitment@, shards_view(available@)) {
            Ok(Some(data)) => r matches Ok(Some(bytes)) && bytes@ == data,
            Ok(None) => r matches Ok(None),
            Err(e) => r is Err && r->Err_0 == e,
        },
        r matches Ok(Some(_)) ==> authentic(
            shards_view(available@)[0].config.0,
            commitment@,
            chunks_of(shards_view(available@)),
        ),
{
    let ghost shards = shards_view(available@);
    if available.len() == 0 {
        return Ok(None);
    }
    let (total, min) = available[0].config();
    assert(shards[0].config == (total, min));
    if available.len() < min as usize {
        return Ok(None);
    }
    let chunks = copied_chunks(&available);
    match decode_data((total, min), commitment, chunks) {
        Ok(data) => Ok(Some(data)),
        Err(e) => Err(e),
    }
}

/// The layer: a mailbox `M` through which shards are broadcast and received, and responders `R`
/// that wait for blocks `B`.
pub struct ShardLayer<M, B: Block, R> {
    mailbox: M,
    block_codec_cfg: B::Cfg,
    block_subscriptions: Subscriptions<R>,
}

impl<M, B: Block, R> ShardLayer<M, B, R> {
    /// Whether the records of the layer are consistent.
    pub closed spec fn wf(&self) -> bool {
        self.block_subscriptions.wf()
    }

    /// The responders that wait for a block, by the commitment of the block.
    pub closed spec fn subscriptions(&self) -> Map<Seq<u8>, Seq<R>> {
        self.block_subscriptions@
    }

    /// How blocks are read.
    pub closed spec fn codec_cfg(&self) -> B::Cfg {
        self.block_codec_cfg
    }

    /// The mailbox.
    pub closed spec fn channel(&self) -> M {
        self.mailbox
    }

    /// Creates a layer on a mailbox, for which no one waits for a block yet.
    pub fn new(mailbox: M, block_codec_cfg: B::Cfg) -> (r: Self)
        ensures
            r.wf(),
            r.channel() == mailbox,
            r.codec_cfg() == block_codec_cfg,
            r.subscriptions() == Map::<Seq<u8>, Seq<R>>::empty(),
    {
        ShardLayer { mailbox, block_codec_cfg, block_subscriptions: Subscriptions::new() }
    }

    /// The mailbox through which shards are broadcast and received.
    pub fn mailbox(&self) -> (r: &M)
        ensures
            *r == self.channel(),
    {
        &self.mailbox
    }

    /// The shards to send for the chunks of a block: to each peer, in this order, its own.
    pub fn broadcast_chunks<P>(
        &self,
        commitment: Digest,
        config: (u16, u16),
        chunks: Vec<(P, Chunk)>,
    ) -> (r: Vec<(P, Shard)>)
        requires
            forall|i: int|
                0 <= i < chunks@.len() ==> (#[trigger] chunks@[i]).1.shard@.len() <= MAX_SHARD_SIZE,
        ensures
            r@.len() == chunks@.len(),
            forall|i: int|
                0 <= i < r@.len() ==> {
                    &&& (#[trigger] r@[i]).0 == chunks@[i].0
                    &&& r@[i].1@ == (ShardView {
                        commitment: commitment@,
                        config,
                        chunk: chunks@[i].1@,
                    })
                },
    {
        let mut messages: Vec<(P, Shard)> = Vec::with_capacity(chunks.len());
        for entry in it: chunks
            invariant
                it.seq() == chunks@,
                messages@.len() == it.index(),
                forall|i: int|
                    0 <= i < chunks@.len() ==> (#[trigger] chunks@[i]).1.shard@.len()
                        <= MAX_SHARD_SIZE,
                forall|i: int|
                    0 <= i < messages@.len() ==> {
                        &&& (#[trigger] messages@[i]).0 == chunks@[i].0
                        &&& messages@[i].1@ == (ShardView {
                            commitment: commitment@,
                            config,
                            chunk: chunks@[i].1@,
                        })
                    },
        {
            let (peer, chunk) = entry;
            messages.push((peer, Shard::new(commitment, config, chunk)));
        }
        messages
    }

    /// What to ask of the buffer before [ShardLayer::try_broadcast_shard] or
    /// [ShardLayer::try_reconstruct]: all the shards of a block.
    pub fn shards_query(&self, commitment: Digest) -> (r: BufferQuery)
        ensures
            r == (BufferQuery { commitment, digest: None }),
    {
        BufferQuery { commitment, digest: None }
    }

    /// The shard to broadcast to all peers: the first of the available ones that has this index,
    /// if there is one.
    pub fn try_broadcast_shard(&self, available: &Vec<Shard>, index: u16) -> (r: Option<Shard>)
        ensures
            match r {
                Some(shard) => first_of(shards_view(available@), index, shard@),
                None => none_of(shards_view(available@), index),
            },
    {
        let mut i: usize = 0;
        while i < available.len()
            invariant
                i <= available@.len(),
                forall|j: int| 0 <= j < i ==> (#[trigger] available@[j])@.chunk.index != index,
            decreases available@.len() - i,
        {
            let chunk = available[i].chunk();
            assert(chunk@ == available@[i as int]@.chunk);
            if chunk.index == index {
                proof {
                    let shards = shards_view(available@);
                    assert forall|j: int| 0 <= j < i implies (#[trigger] shards[j]).chunk.index
                        != index by {
                        assert(available@[j]@.chunk.index != index);
                    }
                    assert(shards[i as int].chunk.index == index);
                    assert(none_of(shards.take(i as int), index));
                }
                return Some(available[i].clone());
            }
            i += 1;
        }
        proof {
            let shards = shards_view(available@);
            assert forall|j: int| 0 <= j < shards.len() implies (#[trigger] shards[j]).chunk.index
                != index by {
                assert(available@[j]@.chunk.index != index);
            }
        }
        None
    }

    /// Takes what has been recovered of a block for a block, and hands it to those who wait.
    pub fn complete(
        &mut self,
        commitment: &Digest,
        recovered: Result<Option<Vec<u8>>, CodingError>,
    ) -> (r: Result<Option<Reconstructed<B, R>>, ReconstructionError>)
        requires
            old(self).wf(),
            recovered matches Ok(Some(data)) ==> B::readable(data@, old(self).codec_cfg()),
        ensures
            final(self).wf(),
            final(self).channel() == old(self).channel(),
            final(self).codec_cfg() == old(self).codec_cfg(),
            attempted(
                interpretation::<B>(recovered_view(recovered), old(self).codec_cfg()),
                commitment@,
                old(self).subscriptions(),
                final(self).subscriptions(),
                r,
            ),
    {
        let data = match recovered {
            Ok(Some(data)) => data,
            Ok(None) => return Ok(None),
            Err(e) => return Err(ReconstructionError::from(e)),
        };
        let block: B = match decode_cfg::<B>(data.as_slice(), &self.block_codec_cfg) {
            Ok(block) => block,
            Err(e) => return Err(ReconstructionError::from(e)),
        };
        let subscribers = self.block_subscriptions.take(commitment);
        Ok(Some(Reconstructed { block, subscribers }))
    }

    /// Attempts to reconstruct a block by its commitment from the shards that are available. With
    /// the block come those who have been waiting for it.
    ///
    /// With too few shards there is no block yet, which is no error. Shards of which one has an
    /// index out of range or is not contained in the commitment, or two have the same index,
    /// reconstruct no block.
    pub fn try_reconstruct(&mut self, commitment: &Digest, available: Vec<Shard>) -> (r: Result<
        Option<Reconstructed<B, R>>,
        ReconstructionError,
    >)
        requires
            old(self).wf(),
            reconstructable::<B>(commitment@, shards_view(available@), old(self).codec_cfg()),
        ensures
            final(self).wf(),
            final(self).channel() == old(self).channel(),
            final(self).codec_cfg() == old(self).codec_cfg(),
            attempted(
                reconstruction::<B>(commitment@, shards_view(available@), old(self).codec_cfg()),
                commitment@,
                old(self).subscriptions(),
                final(self).subscriptions(),
                r,
            ),
            r matches Ok(Some(_)) ==> authentic(
                shards_view(available@)[0].config.0,
                commitment@,
                chunks_of(shards_view(available@)),
            ),
    {
        let recovered = recover(commitment, available);
        self.complete(commitment, recovered)
    }

    /// Attempts to reconstruct a block where the attempt can be made; else leaves everything as it
    /// is.
    pub fn try_reconstruct_checked(&mut self, commitment: &Digest, available: Vec<Shard>) -> (r:
        Option<Result<Option<Reconstructed<B, R>>, ReconstructionError>>)
        requires
            old(self).wf(),
        ensures
            final(self).wf(),
            final(self).channel() == old(self).channel(),
            final(self).codec_cfg() == old(self).codec_cfg(),
            r is Some <==> reconstructable::<B>(
                commitment@,
                shards_view(available@),
                old(self).codec_cfg(),
            ),
            match r {
                Some(outcome) => attempted(
                    reconstruction::<B>(
                        commitment@,
                        shards_view(available@),
                        old(self).codec_cfg(),
                    ),
                    commitment@,
                    old(self).subscriptions(),
                    final(self).subscriptions(),
                    outcome,
                ) && (outcome matches Ok(Some(_)) ==> authentic(
                    shards_view(available@)[0].config.0,
                    commitment@,
                    chunks_of(shards_view(available@)),
                )),
                None => final(self).subscriptions() == old(self).subscriptions(),
            },
    {
        if !is_attemptable(&available) {
            return None;
        }
        if let Ok(Some(data)) = recover(commitment, copied(&available)) {
            if !B::is_readable(data.as_slice(), &self.block_codec_cfg) {
                return None;
            }
        }
        Some(self.try_reconstruct(commitment, available))
    }

    /// Lets a responder wait for a block, and says what to ask of the buffer: the block may be
    /// there to reconstruct already.
    pub fn subscribe_block(&mut self, commitment: Digest, responder: R) -> (r: BufferQuery)
        requires
            old(self).wf(),
        ensures
            final(self).wf(),
            final(self).channel() == old(self).channel(),
            final(self).codec_cfg() == old(self).codec_cfg(),
            final(self).subscriptions() == joined(
                old(self).subscriptions(),
                commitment@,
                responder,
            ),
            r == (BufferQuery { commitment, digest: None }),
    {
        self.block_subscriptions.join(commitment, responder);
        self.shards_query(commitment)
    }

    /// What to ask of the buffer before [ShardLayer::get_chunk]: the shard of this index.
    pub fn chunk_query(&self, commitment: Digest, index: u16) -> (r: BufferQuery)
        ensures
            r.commitment == commitment,
            r.digest matches Some(digest) && digest@ == shard_uuid_of(commitment@, index),
    {
        BufferQuery { commitment, digest: Some(shard_uuid(&commitment, index)) }
    }

    /// The first shard among the available ones.
    pub fn get_chunk(&self, available: &Vec<Shard>) -> (r: Option<Shard>)
        ensures
            r is Some <==> available@.len() > 0,
            r matches Some(shard) ==> shard@ == available@[0]@,
    {
        if available.len() == 0 {
            None
        } else {
            Some(available[0].clone())
        }
    }

    /// What to wait for in the buffer on behalf of one who wants the shard of this index.
    pub fn subscribe_chunk(&self, commitment: Digest, index: u16) -> (r: BufferQuery)
        ensures
            r.commitment == commitment,
            r.digest matches Some(digest) && digest@ == shard_uuid_of(commitment@, index),
    {
        self.chunk_query(commitment, index)
    }
}

/// What has been recovered.
pub open spec fn recovered_view(r: Result<Option<Vec<u8>>, CodingError>) -> Result<
    Option<Seq<u8>>,
    CodingError,
> {
    match r {
        Ok(Some(data)) => Ok(Some(data@)),
        Ok(None) => Ok(None),
        Err(e) => Err(e),
    }
}

/// Tells whether the decoder can be run on the shards.
pub fn is_attemptable(available: &Vec<Shard>) -> (r: bool)
    ensures
        r == attemptable(shards_view(available@)),
{
    let ghost shards = shards_view(available@);
    if available.len() == 0 {
        return true;
    }
    let (total, min) = available[0].config();
    assert(shards[0].config == (total, min));
    available.len() < min as usize || (0 < min && min < total)
}

/// Copies of the chunks of the shards.
fn copied_chunks(available: &Vec<Shard>) -> (r: Vec<Chunk>)
    ensures
        chunks_view(r@) == chunks_of(shards_view(available@)),
{
    let mut chunks: Vec<Chunk> = Vec::with_capacity(available.len());
    let mut i: usize = 0;
    while i < available.len()
        invariant
            i <= available@.len(),
            chunks@.len() == i,
            forall|j: int| 0 <= j < i ==> (#[trigger] chunks@[j])@ == available@[j]@.chunk,
        decreases available@.len() - i,
    {
        chunks.push(available[i].chunk().clone());
        i += 1;
    }
    assert(chunks_view(chunks@) =~= chunks_of(shards_view(available@)));
    chunks
}

/// Copies of the shards.
fn copied(available: &Vec<Shard>) -> (r: Vec<Shard>)
    ensures
        shards_view(r@) == shards_view(available@),
{
    let mut shards: Vec<Shard> = Vec::with_capacity(available.len());
    let mut i: usize = 0;
    while i < available.len()
        invariant
            i <= available@.len(),
            shards@.len() == i,
            forall|j: int| 0 <= j < i ==> (#[trigger] shards@[j])@ == available@[j]@,
        decreases available@.len() - i,
    {
        shards.push(available[i].clone());
        i += 1;
    }
    assert(shards_view(shards@) =~= shards_view(available@));
    shards
}

/// The shard that carries one of a block's chunks.
pub open spec fn shard_of(
    commitment: Seq<u8>,
    config: (u16, u16),
    chunks: Seq<ChunkView>,
    index: int,
) -> ShardView {
    ShardView { commitment, config, chunk: chunks[index] }
}

/// The shards that carry the picked ones of a block's chunks.
pub open spec fn picked(
    commitment: Seq<u8>,
    config: (u16, u16),
    chunks: Seq<ChunkView>,
    picks: Seq<int>,
) -> Seq<ShardView> {
    picks.map_values(|i: int| shard_of(commitment, config, chunks, i))
}

/// Whether `picks` names different ones among `n` chunks, and enough of them.
pub open spec fn sufficient(config: (u16, u16), n: nat, picks: Seq<int>) -> bool {
    &&& picks.no_duplicates()
    &&& forall|i: int| 0 <= i < picks.len() ==> 0 <= #[trigger] picks[i] < n
    &&& picks.len() >= config.1
}

/// Any shards of a block, in any order, reconstruct the block once they are as many as its
/// configuration says suffice.
pub proof fn enough_shards_reconstruct<B: Block>(
    block: B::V,
    config: (u16, u16),
    commitment: Seq<u8>,
    chunks: Seq<ChunkView>,
    picks: Seq<int>,
    cfg: B::Cfg,
)
    requires
        B::admitted(block, cfg),
        codable(config, B::encoding(block).len()),
        numbered(config, chunks, B::encoding(block).len()),
        recoverable(config, commitment, chunks, B::encoding(block)),
        sufficient(config, chunks.len(), picks),
    ensures
        reconstructable::<B>(commitment, picked(commitment, config, chunks, picks), cfg),
        reconstruction::<B>(commitment, picked(commitment, config, chunks, picks), cfg) == Ok::<
            Option<B::V>,
            ReconstructionError,
        >(Some(block)),
{
    let shards = picked(commitment, config, chunks, picks);
    let subset = chunks_of(shards);
    let len = B::encoding(block).len();
    assert forall|i: int| 0 <= i < subset.len() implies (#[trigger] subset[i]).index == picks[i]
        && subset[i] == chunks[picks[i]] by {
        assert(subset[i] == chunks[picks[i]]);
    }
    assert(drawn_from(chunks, subset));
    assert(rs_decoding(config.0, config.1, commitment, subset) == Ok::<Seq<u8>, CodingError>(
        B::encoding(block),
    ));
    assert(shards[0] == shard_of(commitment, config, chunks, picks[0]));
    if config.1 == 1 {
        assert((len + 4) / 1 == len + 4);
        assert(subset[0].shard.len() == shard_len(1, len));
    }
    decode_undoes_encode::<B>(block, cfg);
}

/// Any shards of a coded block, in any order, reconstruct the coded block once they are as many as
/// its configuration says suffice.
pub proof fn coded_block_reconstructs<B: Block>(
    block: CodedBlockView<B::V>,
    picks: Seq<int>,
    cfg: B::Cfg,
)
    requires
        B::admitted(block.inner, cfg),
        well_coded::<B>(block),
        sufficient(block.config, block.chunks.len(), picks),
    ensures
        ({
            let shards = picked(block.commitment, block.config, block.chunks, picks);
            &&& reconstructable::<CodedBlock<B>>(block.commitment, shards, cfg)
            &&& reconstruction::<CodedBlock<B>>(block.commitment, shards, cfg) == Ok::<
                Option<CodedBlockView<B::V>>,
                ReconstructionError,
            >(Some(block))
        }),
{
    enough_shards_reconstruct::<CodedBlock<B>>(
        block,
        block.config,
        block.commitment,
        block.chunks,
        picks,
        cfg,
    );
}

/// Fewer shards than suffice reconstruct nothing, and are no error.
pub proof fn too_few_shards_reconstruct_nothing<B: Block>(
    commitment: Seq<u8>,
    available: Seq<ShardView>,
    cfg: B::Cfg,
)
    requires
        available.len() == 0 || available.len() < available[0].config.1,
    ensures
        reconstructable::<B>(commitment, available, cfg),
        reconstruction::<B>(commitment, available, cfg) == Ok::<
            Option<B::V>,
            ReconstructionError,
        >(None),
{
}

/// A shard of a coded block survives the wire where its chunks stay within the size limit, and
/// whoever receives it can tell that the commitment contains it.
pub proof fn shards_travel<B: Block>(block: CodedBlockView<B::V>, index: int, rest: Seq<u8>)
    requires
        well_coded::<B>(block),
        0 <= index < block.chunks.len(),
        shard_len(block.config.1, coded_data::<B>(block.inner, block.config).len())
            <= MAX_SHARD_SIZE,
    ensures
        ({
            let shard = shard_of(block.commitment, block.config, block.chunks, index);
            &&& shard.fits()
            &&& proven(shard.commitment, shard.chunk)
            &&& shard_decoding(shard_encoding(shard) + rest) == Ok::<(ShardView, nat), CodecError>(
                (shard, shard_encoding(shard).len()),
            )
        }),
{
    assert(block.chunks[index].index == index);
    shard_decoding_undoes_encoding(
        shard_of(block.commitment, block.config, block.chunks, index),
        rest,
    );
}

/// Responders that come one after the other to wait for one block.
pub open spec fn joined_all<R>(
    m: Map<Seq<u8>, Seq<R>>,
    commitment: Seq<u8>,
    responders: Seq<R>,
) -> Map<Seq<u8>, Seq<R>>
    decreases responders.len(),
{
    if responders.len() == 0 {
        m
    } else {
        joined(joined_all(m, commitment, responders.drop_last()), commitment, responders.last())
    }
}

/// Everyone who has come to wait for a block is told of it once it is reconstructed, in the order
/// in which they came and behind those who waited before; no one is told twice; and those who wait
/// for other blocks go on waiting as they did.
pub proof fn subscribers_are_told_once<R>(
    m: Map<Seq<u8>, Seq<R>>,
    commitment: Seq<u8>,
    responders: Seq<R>,
)
    ensures
        ({
            let before = joined_all(m, commitment, responders);
            let after = before.remove(commitment);
            &&& waiting(before, commitment) == waiting(m, commitment) + responders
            &&& waiting(after, commitment) == Seq::<R>::empty()
            &&& forall|other: Seq<u8>|
                other != commitment ==> {
                    &&& #[trigger] waiting(before, other) == waiting(m, other)
                    &&& waiting(after, other) == waiting(m, other)
                }
        }),
    decreases responders.len(),
{
    if responders.len() == 0 {
        assert(waiting(m, commitment) + responders =~= waiting(m, commitment));
    } else {
        subscribers_are_told_once(m, commitment, responders.drop_last());
        assert(waiting(m, commitment) + responders =~= (waiting(m, commitment)
            + responders.drop_last()).push(responders.last()));
        let last = joined_all(m, commitment, responders.drop_last());
        assert forall|other: Seq<u8>| other != commitment implies #[trigger] waiting(
            joined_all(m, commitment, responders),
            other,
        ) == waiting(m, other) by {
            assert(waiting(last, other) == waiting(m, other));
        }
    }
}

} // verus!
