//! Laws of the layer that spreads shards and reconstructs blocks.

use vstd::prelude::*;

use crate::block::{self, Block};
use crate::codec::CodecError;
use crate::coding::chunk::{chunks_view, Chunk};
use crate::coding::coded_block::CodedBlock;
use crate::coding::erasure::{
    authentic, decode_data, decoding, drawn_from, is_authentic, proven, rs_decoding, shard_len,
    CodingError,
};
use crate::coding::layer::{
    chunks_of, coded_block_reconstructs, is_attemptable, none_of, picked, recover, shard_of,
    shards_view, BufferQuery, Reconstructed, ReconstructionError, ShardLayer,
};
use crate::coding::shard::Shard;
use crate::types::Digest;

verus! {

/// Whether these are shards of a coded block: made of its commitment, its configuration and, each
/// of them, one of its chunks.
pub open spec fn made_of<B: Block>(
    x: CodedBlock<B>,
    commitment: Digest,
    config: (u16, u16),
    chunks: &[Chunk],
    picks: Seq<int>,
    shards: Vec<Shard>,
) -> bool {
    &&& call_ensures(<CodedBlock<B> as Block>::commitment, (&x,), commitment)
    &&& call_ensures(CodedBlock::<B>::config, (&x,), config)
    &&& call_ensures(CodedBlock::<B>::chunks, (&x,), chunks)
    &&& picks.len() == shards@.len()
    &&& forall|i: int|
        0 <= i < picks.len() ==> {
            &&& 0 <= #[trigger] picks[i] < chunks@.len()
            &&& call_ensures(Shard::new, (commitment, config, chunks@[picks[i]]), shards@[i])
        }
}

/// Shards of a coded block are those that its picked chunks make.
proof fn made_are_picked<B: Block>(
    x: CodedBlock<B>,
    commitment: Digest,
    config: (u16, u16),
    chunks: &[Chunk],
    picks: Seq<int>,
    shards: Vec<Shard>,
)
    requires
        made_of(x, commitment, config, chunks, picks, shards),
    ensures
        shards_view(shards@) == picked(x@.commitment, x@.config, x@.chunks, picks),
{
    let views = chunks_view(chunks@);
    assert forall|i: int| 0 <= i < picks.len() implies #[trigger] shards@[i]@
        == shard_of(x@.commitment, x@.config, x@.chunks, picks[i]) by {
        assert(views[picks[i]] == chunks@[picks[i]]@);
    }
    assert(shards_view(shards@) =~= picked(x@.commitment, x@.config, x@.chunks, picks));
}

/// Any shards of a coded block, different ones in any order, give the block back once they are as
/// many as its configuration says suffice: an attempt returns that very block, whatever block it
/// is.
pub proof fn sufficient_shards_give_the_block<M, B: Block, R>(
    x: CodedBlock<B>,
    inner: B,
    commitment: Digest,
    config: (u16, u16),
    chunks: &[Chunk],
    picks: Seq<int>,
    shards: Vec<Shard>,
    layer: &mut ShardLayer<M, CodedBlock<B>, R>,
    r: Result<Option<Reconstructed<CodedBlock<B>, R>>, ReconstructionError>,
)
    requires
        made_of(x, commitment, config, chunks, picks, shards),
        picks.no_duplicates(),
        picks.len() >= config.1,
        call_ensures(CodedBlock::<B>::inner, (&x,), &inner),
        B::admitted(inner@, old(layer).codec_cfg()),
        call_ensures(
            ShardLayer::<M, CodedBlock<B>, R>::try_reconstruct,
            (layer, &commitment, shards),
            r,
        ),
    ensures
        r matches Ok(Some(done)) && done.block@ == x@,
{
    made_are_picked(x, commitment, config, chunks, picks, shards);
    assert(chunks_view(chunks@).len() == chunks@.len());
    coded_block_reconstructs::<B>(x@, picks, old(layer).codec_cfg());
}

/// An attempt on sufficient shards of a coded block can be made.
pub proof fn sufficient_shards_can_be_tried<M, B: Block, R>(
    x: CodedBlock<B>,
    inner: B,
    commitment: Digest,
    config: (u16, u16),
    chunks: &[Chunk],
    picks: Seq<int>,
    shards: Vec<Shard>,
    layer: &mut ShardLayer<M, CodedBlock<B>, R>,
    r: Option<Result<Option<Reconstructed<CodedBlock<B>, R>>, ReconstructionError>>,
)
    requires
        made_of(x, commitment, config, chunks, picks, shards),
        picks.no_duplicates(),
        picks.len() >= config.1,
        call_ensures(CodedBlock::<B>::inner, (&x,), &inner),
        B::admitted(inner@, old(layer).codec_cfg()),
        call_ensures(
            ShardLayer::<M, CodedBlock<B>, R>::try_reconstruct_checked,
            (layer, &commitment, shards),
            r,
        ),
    ensures
        r matches Some(Ok(Some(done))) && done.block@ == x@,
{
    made_are_picked(x, commitment, config, chunks, picks, shards);
    assert(chunks_view(chunks@).len() == chunks@.len());
    coded_block_reconstructs::<B>(x@, picks, old(layer).codec_cfg());
}

/// Any chunks of a coded block, different ones in any order, decode to its encoding once they are
/// as many as its configuration says suffice.
pub proof fn sufficient_chunks_decode<B: Block>(
    x: CodedBlock<B>,
    commitment: Digest,
    config: (u16, u16),
    chunks: &[Chunk],
    bytes: Vec<u8>,
    picks: Seq<int>,
    some: Vec<Chunk>,
    r: Result<Vec<u8>, CodingError>,
)
    requires
        call_ensures(<CodedBlock<B> as Block>::commitment, (&x,), commitment),
        call_ensures(CodedBlock::<B>::config, (&x,), config),
        call_ensures(CodedBlock::<B>::chunks, (&x,), chunks),
        call_ensures(block::encode::<CodedBlock<B>>, (&x,), bytes),
        picks.no_duplicates(),
        picks.len() >= config.1,
        picks.len() == some@.len(),
        forall|i: int|
            0 <= i < picks.len() ==> 0 <= #[trigger] picks[i] < chunks@.len() && some@[i]
                == chunks@[picks[i]],
        call_ensures(decode_data, (config, &commitment, some), r),
    ensures
        r matches Ok(data) && data@ == bytes@,
{
    let all = chunks_view(chunks@);
    let subset = chunks_view(some@);
    assert forall|i: int| 0 <= i < subset.len() implies (#[trigger] subset[i]).index == picks[i]
        && subset[i] == all[picks[i]] by {
        assert(subset[i] == some@[i]@);
        assert(all[picks[i]] == chunks@[picks[i]]@);
    }
    assert(all.len() == chunks@.len());
    assert(drawn_from(all, subset));
    let len = bytes@.len();
    if config.1 == 1 {
        assert((len + 4) / 1 == len + 4);
        assert(subset[0].shard.len() == shard_len(1, len));
    }
    assert(decoding(config, commitment@, subset) == Ok::<Seq<u8>, CodingError>(bytes@));
}

/// Chunks that decode have indices below the total, no two of them the same, and each of them makes
/// a shard that is contained in the root.
pub proof fn decoded_chunks_are_contained(
    config: (u16, u16),
    root: Digest,
    chunks: Vec<Chunk>,
    data: Vec<u8>,
    i: int,
    j: int,
    shard: Shard,
    contained: bool,
)
    requires
        call_ensures(
            decode_data,
            (config, &root, chunks),
            Ok::<Vec<u8>, CodingError>(data),
        ),
        0 <= i < chunks@.len(),
        0 <= j < chunks@.len(),
        call_ensures(Shard::new, (root, config, chunks@[i]), shard),
        call_ensures(Shard::is_contained, (&shard,), contained),
    ensures
        chunks@[i].index < config.0,
        chunks@[i].index == chunks@[j].index ==> i == j,
        contained,
{
    let views = chunks_view(chunks@);
    assert(views[i] == chunks@[i]@ && views[j] == chunks@[j]@);
    assert(authentic(config.0, root@, views));
}

/// Chunks are authentic exactly if their indices are below the total, no two of them the same, and
/// the shards that they make are contained in the root.
pub proof fn authentic_chunks_are_contained(
    total: u16,
    config: (u16, u16),
    root: Digest,
    chunks: Vec<Chunk>,
    shards: Seq<Shard>,
    contained: Seq<bool>,
    r: bool,
)
    requires
        call_ensures(is_authentic, (total, &root, &chunks), r),
        shards.len() == chunks@.len(),
        contained.len() == chunks@.len(),
        forall|i: int|
            0 <= i < chunks@.len() ==> {
                &&& call_ensures(Shard::new, (root, config, #[trigger] chunks@[i]), shards[i])
                &&& call_ensures(Shard::is_contained, (&shards[i],), contained[i])
            },
    ensures
        r <==> {
            &&& forall|i: int|
                0 <= i < chunks@.len() ==> (#[trigger] chunks@[i]).index < total && contained[i]
            &&& forall|i: int, j: int|
                0 <= i < j < chunks@.len() ==> (#[trigger] chunks@[i]).index != (
                #[trigger] chunks@[j]).index
        },
{
    let views = chunks_view(chunks@);
    assert forall|i: int| 0 <= i < chunks@.len() implies #[trigger] chunks@[i].index
        == views[i].index && contained[i] == proven(root@, views[i]) by {
        assert(call_ensures(Shard::new, (root, config, chunks@[i]), shards[i]));
        assert(views[i] == chunks@[i]@);
    }
    if authentic(total, root@, views) {
        assert forall|i: int| 0 <= i < chunks@.len() implies (#[trigger] chunks@[i]).index < total
            && contained[i] by {
            assert(views[i].index < total);
        }
        assert forall|i: int, j: int| 0 <= i < j < chunks@.len() implies (
        #[trigger] chunks@[i]).index != (#[trigger] chunks@[j]).index by {
            assert(views[i].index != views[j].index);
        }
    }
    if (forall|i: int|
        0 <= i < chunks@.len() ==> (#[trigger] chunks@[i]).index < total && contained[i]) && (
    forall|i: int, j: int|
        0 <= i < j < chunks@.len() ==> (#[trigger] chunks@[i]).index != (
        #[trigger] chunks@[j]).index) {
        assert forall|i: int| 0 <= i < views.len() implies (#[trigger] views[i]).index < total
            && proven(root@, views[i]) by {
            assert(chunks@[i].index < total);
        }
        assert forall|i: int, j: int| 0 <= i < j < views.len() implies (#[trigger] views[i]).index
            != (#[trigger] views[j]).index by {
            assert(chunks@[i].index != chunks@[j].index);
        }
    }
}

/// Decoding is what the coder makes of the chunks, data or error. The one exception are authentic
/// chunks of two bytes each of which one would suffice: they are inconsistent.
pub proof fn decoding_is_left_to_the_coder(
    config: (u16, u16),
    root: Digest,
    chunks: Vec<Chunk>,
    genuine: bool,
    r: Result<Vec<u8>, CodingError>,
)
    requires
        call_ensures(is_authentic, (config.0, &root, &chunks), genuine),
        call_ensures(decode_data, (config, &root, chunks), r),
    ensures
        config.1 == 1 && chunks@.len() > 0 && genuine && (forall|i: int|
            0 <= i < chunks@.len() ==> (#[trigger] chunks@[i]).shard@.len() == 2) ==> (r is Err
            && r->Err_0 == CodingError::Inconsistent),
        !(config.1 == 1 && chunks@.len() > 0 && genuine && (forall|i: int|
            0 <= i < chunks@.len() ==> (#[trigger] chunks@[i]).shard@.len() == 2)) ==> match r {
            Ok(data) => rs_decoding(config.0, config.1, root.0@, chunks_view(chunks@)) == Ok::<
                Seq<u8>,
                CodingError,
            >(data@),
            Err(e) => rs_decoding(config.0, config.1, root.0@, chunks_view(chunks@)) == Err::<
                Seq<u8>,
                CodingError,
            >(e),
        },
{
    let views = chunks_view(chunks@);
    assert forall|i: int| 0 <= i < chunks@.len() implies #[trigger] chunks@[i].shard@.len()
        == views[i].shard.len() by {
        assert(views[i] == chunks@[i]@);
    }
    if forall|i: int| 0 <= i < chunks@.len() ==> (#[trigger] chunks@[i]).shard@.len() == 2 {
        assert forall|i: int| 0 <= i < views.len() implies (#[trigger] views[i]).shard.len()
            == 2 by {
            assert(chunks@[i].shard@.len() == 2);
        }
    } else {
        let i = choose|i: int|
            0 <= i < chunks@.len() && (#[trigger] chunks@[i]).shard@.len() != 2;
        assert(views[i].shard.len() != 2);
    }
}

/// Whether these are the chunks of the shards.
pub open spec fn carried(available: Vec<Shard>, chunks: Vec<Chunk>) -> bool {
    &&& chunks@.len() == available@.len()
    &&& forall|i: int|
        0 <= i < available@.len() ==> call_ensures(
            Shard::chunk,
            (&#[trigger] available@[i],),
            &chunks@[i],
        )
}

/// The chunks of the shards have the views that the views of the shards hold.
proof fn carried_chunks(available: Vec<Shard>, chunks: Vec<Chunk>)
    requires
        carried(available, chunks),
    ensures
        chunks_view(chunks@) == chunks_of(shards_view(available@)),
{
    assert forall|i: int| 0 <= i < available@.len() implies #[trigger] chunks@[i]@
        == available@[i]@.chunk by {
        assert(call_ensures(Shard::chunk, (&available@[i],), &chunks@[i]));
    }
    assert(chunks_view(chunks@) =~= chunks_of(shards_view(available@)));
}

/// With no shards, or fewer than the first of them says suffice, an attempt finds nothing, and that
/// is no error.
pub proof fn too_few_shards_give_nothing<M, B: Block, R>(
    layer: &mut ShardLayer<M, B, R>,
    commitment: Digest,
    available: Vec<Shard>,
    config: (u16, u16),
    r: Result<Option<Reconstructed<B, R>>, ReconstructionError>,
    checked_layer: &mut ShardLayer<M, B, R>,
    checked: Option<Result<Option<Reconstructed<B, R>>, ReconstructionError>>,
    recovered: Result<Option<Vec<u8>>, CodingError>,
)
    requires
        available@.len() > 0 ==> call_ensures(Shard::config, (&available@[0],), config),
        available@.len() == 0 || available@.len() < config.1,
        call_ensures(ShardLayer::<M, B, R>::try_reconstruct, (layer, &commitment, available), r),
        call_ensures(
            ShardLayer::<M, B, R>::try_reconstruct_checked,
            (checked_layer, &commitment, available),
            checked,
        ),
        call_ensures(recover, (&commitment, available), recovered),
    ensures
        r matches Ok(None),
        checked matches Some(Ok(None)),
        recovered matches Ok(None),
{
    let shards = shards_view(available@);
    assert(shards.len() == available@.len());
    if available@.len() > 0 {
        assert(shards[0] == available@[0]@);
    }
}

/// With enough shards, an attempt decodes their chunks under the configuration of the first of
/// them, and reads what they decode to as a block: it returns that block, or the error that the
/// one or the other ends in, and never nothing.
pub proof fn enough_shards_are_decoded_and_read<M, B: Block, R>(
    layer: &mut ShardLayer<M, B, R>,
    commitment: Digest,
    available: Vec<Shard>,
    config: (u16, u16),
    chunks: Vec<Chunk>,
    decoded: Result<Vec<u8>, CodingError>,
    data: &[u8],
    cfg: B::Cfg,
    read: Result<B, CodecError>,
    r: Result<Option<Reconstructed<B, R>>, ReconstructionError>,
    recovered: Result<Option<Vec<u8>>, CodingError>,
)
    requires
        available@.len() > 0,
        call_ensures(Shard::config, (&available@[0],), config),
        available@.len() >= config.1,
        carried(available, chunks),
        call_ensures(decode_data, (config, &commitment, chunks), decoded),
        decoded matches Ok(bytes) ==> data@ == bytes@,
        cfg == old(layer).codec_cfg(),
        call_ensures(block::decode_cfg::<B>, (data, &cfg), read),
        call_ensures(ShardLayer::<M, B, R>::try_reconstruct, (layer, &commitment, available), r),
        call_ensures(recover, (&commitment, available), recovered),
    ensures
        match decoded {
            Ok(bytes) => match read {
                Ok(b) => r matches Ok(Some(done)) && done.block@ == b@,
                Err(e) => r matches Err(f) && f == ReconstructionError::Codec(e),
            },
            Err(e) => r matches Err(f) && f == ReconstructionError::CodingRecovery(e),
        },
        match decoded {
            Ok(bytes) => recovered matches Ok(Some(d)) && d@ == bytes@,
            Err(e) => recovered matches Err(f) && f == e,
        },
{
    carried_chunks(available, chunks);
    let shards = shards_view(available@);
    assert(shards.len() == available@.len() && shards[0] == available@[0]@);
}

/// An attempt on enough shards can be made if the minimum is positive and below the total, and what
/// they decode to, if they do, is something that a block can be read from or found not to be; and
/// not else.
pub proof fn attempts_that_can_be_made<M, B: Block, R>(
    layer: &mut ShardLayer<M, B, R>,
    commitment: Digest,
    available: Vec<Shard>,
    config: (u16, u16),
    chunks: Vec<Chunk>,
    decoded: Result<Vec<u8>, CodingError>,
    data: &[u8],
    cfg: B::Cfg,
    readable: bool,
    r: Option<Result<Option<Reconstructed<B, R>>, ReconstructionError>>,
)
    requires
        available@.len() > 0,
        call_ensures(Shard::config, (&available@[0],), config),
        available@.len() >= config.1,
        carried(available, chunks),
        call_ensures(decode_data, (config, &commitment, chunks), decoded),
        decoded matches Ok(bytes) ==> data@ == bytes@,
        cfg == old(layer).codec_cfg(),
        call_ensures(B::is_readable, (data, &cfg), readable),
        call_ensures(
            ShardLayer::<M, B, R>::try_reconstruct_checked,
            (layer, &commitment, available),
            r,
        ),
    ensures
        r is Some <==> 0 < config.1 < config.0 && (decoded is Ok ==> readable),
{
    carried_chunks(available, chunks);
    let shards = shards_view(available@);
    assert(shards.len() == available@.len() && shards[0] == available@[0]@);
}

/// An attempt that is checked first, and one that is made outright, come to the same: the same
/// block and the same subscribers, nothing, or the same error.
pub proof fn checked_attempts_come_to_the_same<M, B: Block, R>(
    layer: &mut ShardLayer<M, B, R>,
    other: &mut ShardLayer<M, B, R>,
    commitment: Digest,
    available: Vec<Shard>,
    checked: Result<Option<Reconstructed<B, R>>, ReconstructionError>,
    r: Result<Option<Reconstructed<B, R>>, ReconstructionError>,
)
    requires
        *old(layer) == *old(other),
        call_ensures(
            ShardLayer::<M, B, R>::try_reconstruct_checked,
            (layer, &commitment, available),
            Some(checked),
        ),
        call_ensures(ShardLayer::<M, B, R>::try_reconstruct, (other, &commitment, available), r),
    ensures
        match r {
            Ok(Some(done)) => checked matches Ok(Some(d)) && d.block@ == done.block@
                && d.subscribers@ == done.subscribers@,
            Ok(None) => checked matches Ok(None),
            Err(e) => checked matches Err(f) && f == e,
        },
{
}

/// An attempt is to recover bytes from the shards and to complete them to a block.
pub proof fn attempts_recover_and_complete<M, B: Block, R>(
    layer: &mut ShardLayer<M, B, R>,
    other: &mut ShardLayer<M, B, R>,
    commitment: Digest,
    available: Vec<Shard>,
    recovered: Result<Option<Vec<u8>>, CodingError>,
    completed: Result<Option<Reconstructed<B, R>>, ReconstructionError>,
    r: Result<Option<Reconstructed<B, R>>, ReconstructionError>,
)
    requires
        *old(layer) == *old(other),
        call_ensures(recover, (&commitment, available), recovered),
        call_ensures(
            ShardLayer::<M, B, R>::complete,
            (layer, &commitment, recovered),
            completed,
        ),
        call_ensures(ShardLayer::<M, B, R>::try_reconstruct, (other, &commitment, available), r),
    ensures
        match r {
            Ok(Some(done)) => completed matches Ok(Some(d)) && d.block@ == done.block@
                && d.subscribers@ == done.subscribers@,
            Ok(None) => completed matches Ok(None),
            Err(e) => completed matches Err(f) && f == e,
        },
{
}

/// What was recovered is completed to the block that it reads as, to nothing where it is nothing,
/// or to the error that it, or reading it, ends in.
pub proof fn recovered_bytes_are_read<M, B: Block, R>(
    layer: &mut ShardLayer<M, B, R>,
    commitment: Digest,
    recovered: Result<Option<Vec<u8>>, CodingError>,
    data: &[u8],
    cfg: B::Cfg,
    read: Result<B, CodecError>,
    r: Result<Option<Reconstructed<B, R>>, ReconstructionError>,
)
    requires
        call_ensures(ShardLayer::<M, B, R>::complete, (layer, &commitment, recovered), r),
        recovered matches Ok(Some(bytes)) ==> data@ == bytes@,
        cfg == old(layer).codec_cfg(),
        call_ensures(block::decode_cfg::<B>, (data, &cfg), read),
    ensures
        match recovered {
            Ok(Some(_)) => match read {
                Ok(b) => r matches Ok(Some(done)) && done.block@ == b@,
                Err(e) => r matches Err(f) && f == ReconstructionError::Codec(e),
            },
            Ok(None) => r matches Ok(None),
            Err(e) => r matches Err(f) && f == ReconstructionError::CodingRecovery(e),
        },
{
}

/// Errors of decoding and of reading become errors of reconstruction as what they are.
pub proof fn errors_stay_what_they_are(
    coding: CodingError,
    a: ReconstructionError,
    reading: CodecError,
    b: ReconstructionError,
)
    requires
        call_ensures(<ReconstructionError as From<CodingError>>::from, (coding,), a),
        call_ensures(<ReconstructionError as From<CodecError>>::from, (reading,), b),
    ensures
        a matches ReconstructionError::CodingRecovery(e) && e == coding,
        b matches ReconstructionError::Codec(e) && e == reading,
{
}

/// The decoder can be run on shards if they are too few for it to be run, or the minimum that the
/// first of them tells is positive and below the total.
pub proof fn shards_the_decoder_can_be_run_on(
    available: Vec<Shard>,
    config: (u16, u16),
    r: bool,
)
    requires
        call_ensures(is_attemptable, (&available,), r),
        available@.len() > 0 ==> call_ensures(Shard::config, (&available@[0],), config),
    ensures
        r <==> available@.len() == 0 || available@.len() < config.1 || 0 < config.1 < config.0,
{
    let shards = shards_view(available@);
    assert(shards.len() == available@.len());
    if available@.len() > 0 {
        assert(shards[0] == available@[0]@);
    }
}

/// A block comes only from shards whose indices are below the total that the first of them tells,
/// no two of them the same, and whose chunks are contained in the commitment.
pub proof fn blocks_come_from_contained_shards<M, B: Block, R>(
    layer: &mut ShardLayer<M, B, R>,
    commitment: Digest,
    available: Vec<Shard>,
    config: (u16, u16),
    chunks: Vec<Chunk>,
    done: Reconstructed<B, R>,
    i: int,
    j: int,
    shard: Shard,
    contained: bool,
)
    requires
        call_ensures(
            ShardLayer::<M, B, R>::try_reconstruct,
            (layer, &commitment, available),
            Ok::<Option<Reconstructed<B, R>>, ReconstructionError>(Some(done)),
        ),
        call_ensures(Shard::config, (&available@[0],), config),
        carried(available, chunks),
        0 <= i < chunks@.len(),
        0 <= j < chunks@.len(),
        call_ensures(Shard::new, (commitment, config, chunks@[i]), shard),
        call_ensures(Shard::is_contained, (&shard,), contained),
    ensures
        available@.len() >= config.1,
        chunks@[i].index < config.0,
        chunks@[i].index == chunks@[j].index ==> i == j,
        contained,
{
    carried_chunks(available, chunks);
    let views = chunks_view(chunks@);
    assert(views[i] == chunks@[i]@ && views[j] == chunks@[j]@);
    let shards = shards_view(available@);
    assert(shards.len() == available@.len() && shards[0] == available@[0]@);
    assert(authentic(config.0, commitment@, views));
}

/// Every peer is sent the shard that its own chunk makes, in the order in which they are given.
pub proof fn peers_are_sent_their_own_shards<M, B: Block, R, P>(
    layer: ShardLayer<M, B, R>,
    commitment: Digest,
    config: (u16, u16),
    chunks: Vec<(P, Chunk)>,
    messages: Vec<(P, Shard)>,
    i: int,
    shard: Shard,
)
    requires
        call_ensures(
            ShardLayer::<M, B, R>::broadcast_chunks::<P>,
            (&layer, commitment, config, chunks),
            messages,
        ),
        0 <= i < chunks@.len(),
        call_ensures(Shard::new, (commitment, config, chunks@[i].1), shard),
    ensures
        messages@.len() == chunks@.len(),
        messages@[i].0 == chunks@[i].0,
        messages@[i].1@ == shard@,
{
}

/// The shard to broadcast is the first whose chunk has the index, and there is none only if no
/// chunk has it.
pub proof fn first_shard_of_the_index_is_broadcast<M, B: Block, R>(
    layer: ShardLayer<M, B, R>,
    available: Vec<Shard>,
    chunks: Vec<Chunk>,
    index: u16,
    r: Option<Shard>,
    i: int,
)
    requires
        call_ensures(ShardLayer::<M, B, R>::try_broadcast_shard, (&layer, &available, index), r),
        carried(available, chunks),
        0 <= i < chunks@.len(),
        chunks@[i].index == index,
        forall|j: int| 0 <= j < i ==> (#[trigger] chunks@[j]).index != index,
    ensures
        r matches Some(shard) && shard@ == available@[i]@,
{
    carried_chunks(available, chunks);
    let shards = shards_view(available@);
    assert forall|j: int| 0 <= j < shards.len() implies (#[trigger] shards[j]).chunk.index
        == chunks@[j].index && shards[j] == available@[j]@ by {
        assert(chunks_view(chunks@)[j] == chunks@[j]@);
        assert(chunks_of(shards)[j] == shards[j].chunk);
    }
    assert(shards[i].chunk.index == index);
    let shard = r->0;
    let k = choose|k: int|
        {
            &&& 0 <= k < shards.len()
            &&& #[trigger] shards[k] == shard@
            &&& shard@.chunk.index == index
            &&& none_of(shards.take(k), index)
        };
    assert(shards[k].chunk.index == chunks@[k].index);
    if i < k {
        assert(shards.take(k)[i] == shards[i]);
    }
}

/// A shard that is broadcast is one of those that are there, and has the index.
pub proof fn broadcast_shard_has_the_index<M, B: Block, R>(
    layer: ShardLayer<M, B, R>,
    available: Vec<Shard>,
    index: u16,
    shard: Shard,
    chunk: Chunk,
)
    requires
        call_ensures(
            ShardLayer::<M, B, R>::try_broadcast_shard,
            (&layer, &available, index),
            Some(shard),
        ),
        call_ensures(Shard::chunk, (&shard,), &chunk),
    ensures
        chunk.index == index,
        exists|i: int| 0 <= i < available@.len() && (#[trigger] available@[i])@ == shard@,
{
    let shards = shards_view(available@);
    let k = choose|k: int|
        {
            &&& 0 <= k < shards.len()
            &&& #[trigger] shards[k] == shard@
            &&& shard@.chunk.index == index
            &&& none_of(shards.take(k), index)
        };
    assert(available@[k]@ == shards[k]);
}

/// The first shard that is there is the one to get, and there is none only if none is there.
pub proof fn first_shard_is_got<M, B: Block, R>(
    layer: ShardLayer<M, B, R>,
    available: Vec<Shard>,
    r: Option<Shard>,
)
    requires
        call_ensures(ShardLayer::<M, B, R>::get_chunk, (&layer, &available), r),
    ensures
        available@.len() > 0 ==> (r matches Some(shard) && shard@ == available@[0]@),
        available@.len() == 0 ==> r is None,
{
}

/// A chunk is asked for, and waited for, by the commitment and by the identifier of any shard that
/// has this commitment and this index; all the shards of a block are asked for by the commitment
/// alone.
pub proof fn shards_are_asked_for_by_their_identifiers<M, B: Block, R>(
    layer: ShardLayer<M, B, R>,
    commitment: Digest,
    config: (u16, u16),
    chunk: Chunk,
    shard: Shard,
    digest: Digest,
    get: BufferQuery,
    wait: BufferQuery,
    all: BufferQuery,
)
    requires
        call_ensures(Shard::new, (commitment, config, chunk), shard),
        call_ensures(Shard::digest, (&shard,), digest),
        call_ensures(ShardLayer::<M, B, R>::chunk_query, (&layer, commitment, chunk.index), get),
        call_ensures(
            ShardLayer::<M, B, R>::subscribe_chunk,
            (&layer, commitment, chunk.index),
            wait,
        ),
        call_ensures(ShardLayer::<M, B, R>::shards_query, (&layer, commitment), all),
    ensures
        get.commitment.0@ == commitment.0@,
        get.digest matches Some(d) && d.0@ == digest.0@,
        wait.commitment.0@ == commitment.0@,
        wait.digest matches Some(d) && d.0@ == digest.0@,
        all.commitment.0@ == commitment.0@,
        all.digest is None,
{
}

/// A layer is on the mailbox that it was made with, and reads blocks as it was told to.
pub proof fn layer_is_on_its_mailbox<M, B: Block, R>(
    mailbox: M,
    cfg: B::Cfg,
    layer: ShardLayer<M, B, R>,
    told: M,
)
    requires
        call_ensures(ShardLayer::<M, B, R>::new, (mailbox, cfg), layer),
        call_ensures(ShardLayer::<M, B, R>::mailbox, (&layer,), &told),
    ensures
        told == mailbox,
        layer.codec_cfg() == cfg,
{
}

/// Neither a subscription nor an attempt changes the mailbox, or how blocks are read.
pub proof fn layer_stays_on_its_mailbox<M, B: Block, R>(
    layer: &mut ShardLayer<M, B, R>,
    commitment: Digest,
    responder: R,
    query: BufferQuery,
    other: &mut ShardLayer<M, B, R>,
    available: Vec<Shard>,
    r: Result<Option<Reconstructed<B, R>>, ReconstructionError>,
    before: M,
    after: M,
)
    requires
        call_ensures(ShardLayer::<M, B, R>::mailbox, (&*old(layer),), &before),
        call_ensures(
            ShardLayer::<M, B, R>::subscribe_block,
            (layer, commitment, responder),
            query,
        ),
        *old(other) == *final(layer),
        call_ensures(ShardLayer::<M, B, R>::try_reconstruct, (other, &commitment, available), r),
        call_ensures(ShardLayer::<M, B, R>::mailbox, (&*final(other),), &after),
    ensures
        after == before,
        final(other).codec_cfg() == old(layer).codec_cfg(),
        query.commitment.0@ == commitment.0@,
        query.digest is None,
{
}

} // verus!
