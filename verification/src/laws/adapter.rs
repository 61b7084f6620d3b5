//! Laws of the adapter between consensus and the application.

use vstd::prelude::*;

use crate::block::{self, Block};
use crate::coding::application::{can_code, CodingAdapter, CodingConfig, ProposeAction};
use crate::coding::chunk::Chunk;
use crate::coding::coded_block::CodedBlock;
use crate::coding::erasure::is_codable;
use crate::coding::layer::{Reconstructed, ReconstructionError, ShardLayer};
use crate::coding::shard::Shard;
use crate::laws::layer::{made_of, sufficient_shards_give_the_block};
use crate::types::{Context, Digest, Round};

verus! {

/// As many shards suffice as half of the participants, and as many again are made, as long as 16
/// bits can count them; beyond, the numbers start over.
pub proof fn half_of_the_participants_suffice(
    participants: usize,
    config: CodingConfig,
    more: usize,
    other: CodingConfig,
)
    requires
        call_ensures(CodingConfig::for_participants, (participants,), config),
        call_ensures(CodingConfig::for_participants, (more,), other),
    ensures
        config.extra_shards == config.minimum_shards,
        participants <= 131071 ==> 2 * config.minimum_shards <= participants <= 2
            * config.minimum_shards + 1,
        more == participants + 131072 ==> other == config,
{
}

/// The total is the sum of both numbers of shards, and there is none only if 16 bits cannot hold
/// the sum; the number that suffices stays what it is.
pub proof fn total_is_the_sum(config: CodingConfig, r: Option<(u16, u16)>)
    requires
        call_ensures(CodingConfig::total_and_minimum, (&config,), r),
    ensures
        r matches Some((total, min)) ==> total == config.minimum_shards + config.extra_shards && min
            == config.minimum_shards,
        r is None <==> config.minimum_shards + config.extra_shards > 65535,
{
}

/// A block can be coded under a configuration exactly if the total can be told and the coder takes
/// the encoding of the block and four bytes more under total and minimum.
pub proof fn codable_blocks<B: Block>(
    config: CodingConfig,
    totals: Option<(u16, u16)>,
    b: B,
    bytes: Vec<u8>,
    size: usize,
    takes: bool,
    r: bool,
)
    requires
        call_ensures(CodingConfig::total_and_minimum, (&config,), totals),
        call_ensures(block::encode::<B>, (&b,), bytes),
        size == bytes@.len() + 4,
        totals is Some ==> call_ensures(is_codable, (totals->0, size), takes),
        call_ensures(can_code::<B>, (config, &b), r),
    ensures
        r <==> totals is Some && takes,
        r ==> forall|adapter: &mut CodingAdapter<B>, context: Context|
            #[trigger] call_requires(
                CodingAdapter::<B>::built,
                (adapter, &context, config, b),
            ),
{
}

/// Consensus knows the genesis block by its own commitment.
pub proof fn genesis_is_known_by_its_commitment<B: Block>(
    adapter: CodingAdapter<B>,
    genesis: B,
    commitment: Digest,
    r: Digest,
)
    requires
        call_ensures(B::commitment, (&genesis,), commitment),
        call_ensures(CodingAdapter::<B>::genesis, (&adapter, &genesis), r),
    ensures
        r.0@ == commitment.0@,
{
}

/// A proposal is coded as its participants say. If the parent is the genesis block, told by its
/// commitment, it is built on at once; any other parent is waited for, by its commitment and the
/// round of its view in the epoch of the proposal.
pub proof fn proposals_start_from_their_parent<B: Block>(
    adapter: CodingAdapter<B>,
    context: Context,
    genesis: B,
    participants: usize,
    commitment: Digest,
    config: CodingConfig,
    r: (CodingConfig, ProposeAction<B>),
)
    requires
        call_ensures(B::commitment, (&genesis,), commitment),
        call_ensures(CodingConfig::for_participants, (participants,), config),
        call_ensures(
            CodingAdapter::<B>::propose,
            (&adapter, &context, genesis, participants),
            r,
        ),
    ensures
        r.0 == config,
        context.parent.1.0@ == commitment.0@ ==> (r.1 matches ProposeAction::Build {
            parent_commitment,
            parent,
        } && parent_commitment == context.parent.1 && parent == genesis),
        context.parent.1.0@ != commitment.0@ ==> (r.1 matches ProposeAction::Subscribe {
            round,
            commitment: wanted,
        } && wanted == context.parent.1 && round is Some && round->0.epoch == context.round.epoch
            && round->0.view == context.parent.0),
{
}

/// A parent that has come is built on, by the commitment it was waited for; without one, nothing is
/// proposed.
pub proof fn proposals_go_on_with_their_parent<B: Block>(
    adapter: CodingAdapter<B>,
    context: Context,
    received: Option<B>,
    r: ProposeAction<B>,
)
    requires
        call_ensures(CodingAdapter::<B>::parent_received, (&adapter, &context, received), r),
    ensures
        match received {
            Some(block) => r matches ProposeAction::Build { parent_commitment, parent }
                && parent_commitment == context.parent.1 && parent == block,
            None => r matches ProposeAction::Abort,
        },
{
}

/// A new adapter has nothing to broadcast.
pub proof fn nothing_built_is_nothing_relayed<B: Block>(
    adapter: CodingAdapter<B>,
    asked: Digest,
    r: Option<(Round, CodedBlock<B>)>,
)
    requires
        call_ensures(CodingAdapter::<B>::new, (), adapter),
        call_ensures(CodingAdapter::<B>::broadcast, (&adapter, asked), r),
    ensures
        r is None,
{
}

/// What is proposed is the commitment of the coded block that is made of the built block, under
/// the total and the minimum of the configuration; and what is broadcast from then on, whatever is
/// asked for and whatever was built before, is that coded block, for the round that it was built
/// for.
pub proof fn built_block_is_proposed_and_relayed<B: Block>(
    adapter: &mut CodingAdapter<B>,
    context: Context,
    config: CodingConfig,
    totals: (u16, u16),
    b: B,
    proposed: Digest,
    coded: CodedBlock<B>,
    commitment: Digest,
    asked: Digest,
    r: Option<(Round, CodedBlock<B>)>,
)
    requires
        call_ensures(CodingConfig::total_and_minimum, (&config,), Some(totals)),
        call_ensures(CodingAdapter::<B>::built, (adapter, &context, config, b), proposed),
        call_ensures(CodedBlock::<B>::new, (b, totals), coded),
        call_ensures(<CodedBlock<B> as Block>::commitment, (&coded,), commitment),
        call_ensures(CodingAdapter::<B>::broadcast, (&*final(adapter), asked), r),
    ensures
        proposed.0@ == commitment.0@,
        r matches Some((round, relayed)) && round == context.round && relayed@ == coded@,
{
}

/// The proposed digest is the root under which the relayed block reconstructs: any of its shards,
/// different ones and as many as suffice, give it back under that digest.
pub proof fn proposed_digest_reconstructs<M, B: Block, R>(
    adapter: &mut CodingAdapter<B>,
    context: Context,
    config: CodingConfig,
    b: B,
    proposed: Digest,
    asked: Digest,
    round: Round,
    relayed: CodedBlock<B>,
    inner: B,
    totals: (u16, u16),
    chunks: &[Chunk],
    picks: Seq<int>,
    shards: Vec<Shard>,
    layer: &mut ShardLayer<M, CodedBlock<B>, R>,
    r: Result<Option<Reconstructed<CodedBlock<B>, R>>, ReconstructionError>,
)
    requires
        call_ensures(CodingAdapter::<B>::built, (adapter, &context, config, b), proposed),
        call_ensures(
            CodingAdapter::<B>::broadcast,
            (&*final(adapter), asked),
            Some((round, relayed)),
        ),
        made_of(relayed, proposed, totals, chunks, picks, shards),
        picks.no_duplicates(),
        picks.len() >= totals.1,
        call_ensures(CodedBlock::<B>::inner, (&relayed,), &inner),
        B::admitted(b@, old(layer).codec_cfg()),
        call_ensures(
            ShardLayer::<M, CodedBlock<B>, R>::try_reconstruct,
            (layer, &proposed, shards),
            r,
        ),
    ensures
        r matches Ok(Some(done)) && done.block@.inner == b@,
{
    sufficient_shards_give_the_block(
        relayed,
        inner,
        proposed,
        totals,
        chunks,
        picks,
        shards,
        layer,
        r,
    );
}

/// What is verified is the proposed digest, at the own index.
pub proof fn own_shard_is_verified<B: Block>(
    adapter: CodingAdapter<B>,
    payload: Digest,
    index: u32,
    r: (Digest, usize),
)
    requires
        call_ensures(CodingAdapter::<B>::verify, (&adapter, payload, index), r),
    ensures
        r.0.0@ == payload.0@,
        r.1 == index,
{
}

} // verus!
