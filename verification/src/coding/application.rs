//! The adapter between consensus, the application that builds blocks, and the actor that marshals
//! them: it hides from the application that blocks travel erasure coded.

use vstd::prelude::*;

use crate::block::Block;
use crate::coding::coded_block::{
    coded_as, coded_data, well_coded, write_coded_data, CodedBlock, CodedBlockView,
};
use crate::coding::erasure::{codable, is_codable, supports};
use crate::coding::layer::{
    coded_block_reconstructs, picked, reconstruction, sufficient, ReconstructionError,
};
use crate::types::{Context, Digest, Round};

verus! {

/// How to code a block: how many shards suffice, and how many there are besides.
#[derive(Clone, Copy, Debug, PartialEq, Eq, Structural)]
pub struct CodingConfig {
    /// The number of shards that suffice.
    pub minimum_shards: u16,
    /// The number of shards beyond those.
    pub extra_shards: u16,
}

impl CodingConfig {
    /// The configuration under which the participants of a round share a block: half as many
    /// shards as there are participants suffice, and as many again are made.
    pub open spec fn of(participants: nat) -> CodingConfig {
        CodingConfig {
            minimum_shards: (participants / 2 % 0x10000) as u16,
            extra_shards: (participants / 2 % 0x10000) as u16,
        }
    }

    /// The total number of shards, and the number that suffice.
    pub open spec fn totals(self) -> (u16, u16) {
        ((self.minimum_shards + self.extra_shards) as u16, self.minimum_shards)
    }

    /// Whether the total number of shards can be represented.
    pub open spec fn representable(self) -> bool {
        self.minimum_shards + self.extra_shards <= u16::MAX
    }

    /// The configuration for a number of participants. The numbers of shards are 16 bits wide:
    /// of larger numbers the low bits count.
    pub fn for_participants(participants: usize) -> (r: Self)
        ensures
            r == CodingConfig::of(participants as nat),
    {
        let half: usize = participants / 2;
        assert(half as u16 == half % 0x10000) by (bit_vector);
        CodingConfig {
            minimum_shards: #[verifier::truncate]
            (half as u16),
            extra_shards: #[verifier::truncate]
            (half as u16),
        }
    }

    /// The total number of shards and the number that suffice, unless the total is too large.
    pub fn total_and_minimum(&self) -> (r: Option<(u16, u16)>)
        ensures
            r == (if self.representable() {
                Some(self.totals())
            } else {
                None
            }),
    {
        match self.minimum_shards.checked_add(self.extra_shards) {
            Some(total) => Some((total, self.minimum_shards)),
            None => None,
        }
    }
}

/// Tells whether a block can be coded under a configuration.
pub fn can_code<B: Block>(config: CodingConfig, block: &B) -> (r: bool)
    ensures
        r == (config.representable() && codable(
            config.totals(),
            coded_data::<B>(block@, config.totals()).len(),
        )),
{
    match config.total_and_minimum() {
        Some(totals) => {
            let mut data: Vec<u8> = Vec::new();
            write_coded_data(block, totals, &mut data);
            assert(data@ =~= coded_data::<B>(block@, totals));
            is_codable(totals, data.len())
        },
        None => false,
    }
}

/// What to do next for a proposal.
pub enum ProposeAction<B> {
    /// Build a block on this parent.
    Build {
        /// The commitment of the parent.
        parent_commitment: Digest,
        /// The parent.
        parent: B,
    },
    /// Wait for the parent.
    Subscribe {
        /// The round in which the parent was notarized.
        round: Option<Round>,
        /// The commitment of the parent.
        commitment: Digest,
    },
    /// Propose nothing.
    Abort,
}

/// The adapter. It remembers the block that it has built last, and the round for which it has.
pub struct CodingAdapter<B: Block> {
    last_built: Option<(Round, CodedBlock<B>)>,
}

impl<B: Block> CodingAdapter<B> {
    /// The block built last, and its round.
    pub closed spec fn last(&self) -> Option<(Round, CodedBlockView<B::V>)> {
        match self.last_built {
            Some((round, block)) => Some((round, block@)),
            None => None,
        }
    }

    /// Whether a block has been taken for a proposal that is known by `commitment`: coded, and kept
    /// with the round.
    pub open spec fn proposed(
        &self,
        round: Round,
        config: CodingConfig,
        block: B::V,
        commitment: Digest,
    ) -> bool {
        let coded = coded_as::<B>(block, config.totals());
        commitment@ == coded.commitment && self.last() == Some((round, coded))
    }

    /// Whether what is handed out for the broadcast is the block built last, with its round.
    pub open spec fn relayed(&self, found: Option<(Round, CodedBlock<B>)>) -> bool {
        match self.last() {
            Some((round, block)) => found matches Some(relay) && relay.0 == round && relay.1@
                == block,
            None => found is None,
        }
    }

    /// Creates an adapter that has built nothing yet.
    pub fn new() -> (r: Self)
        ensures
            r.last() is None,
    {
        CodingAdapter { last_built: None }
    }

    /// What consensus knows the genesis block by: its commitment.
    pub fn genesis(&self, genesis: &B) -> (r: Digest)
        ensures
            r@ == B::commitment_of(genesis@),
    {
        genesis.commitment()
    }

    /// Starts a proposal: says how to code the block for the participants of the round, and what
    /// to do first. On top of the genesis block, building can start at once; any other parent has
    /// to be waited for, by its commitment and the round it was notarized in.
    pub fn propose(&self, context: &Context, genesis: B, participants: usize) -> (r: (
        CodingConfig,
        ProposeAction<B>,
    ))
        ensures
            r.0 == CodingConfig::of(participants as nat),
            context.parent.1@ == B::commitment_of(genesis@) ==> r.1 == (ProposeAction::Build {
                parent_commitment: context.parent.1,
                parent: genesis,
            }),
            context.parent.1@ != B::commitment_of(genesis@) ==> r.1 == (ProposeAction::<
                B,
            >::Subscribe {
                round: Some(Round { epoch: context.round.epoch, view: context.parent.0 }),
                commitment: context.parent.1,
            }),
    {
        let (parent_view, parent_commitment) = context.parent;
        let coding_config = CodingConfig::for_participants(participants);
        let action = if parent_commitment == genesis.commitment() {
            ProposeAction::Build { parent_commitment, parent: genesis }
        } else {
            ProposeAction::Subscribe {
                round: Some(Round::new(context.round.epoch, parent_view)),
                commitment: parent_commitment,
            }
        };
        (coding_config, action)
    }

    /// Goes on with a proposal once the wait for the parent is over: with the parent, or without
    /// it if it will never come.
    pub fn parent_received(&self, context: &Context, received: Option<B>) -> (r: ProposeAction<B>)
        ensures
            r == (match received {
                Some(parent) => ProposeAction::Build {
                    parent_commitment: context.parent.1,
                    parent,
                },
                None => ProposeAction::Abort,
            }),
    {
        match received {
            Some(parent) => ProposeAction::Build { parent_commitment: context.parent.1, parent },
            None => ProposeAction::Abort,
        }
    }

    /// Takes the block that was built for a proposal: codes it, keeps it for the broadcast, and
    /// gives its commitment, which is what is proposed.
    pub fn built(&mut self, context: &Context, config: CodingConfig, block: B) -> (r: Digest)
        requires
            config.representable(),
            codable(config.totals(), coded_data::<B>(block@, config.totals()).len()),
        ensures
            final(self).proposed(context.round, config, block@, r),
    {
        let total: u16 = config.minimum_shards + config.extra_shards;
        let coded_block = CodedBlock::new(block, (total, config.minimum_shards));
        let commitment = coded_block.commitment();
        self.last_built = Some((context.round, coded_block));
        commitment
    }

    /// What to ask the actor in order to verify a proposal: whether the shard at the own index
    /// among the participants is contained in the commitment.
    pub fn verify(&self, payload: Digest, self_index: u32) -> (r: (Digest, usize))
        ensures
            r.0 == payload,
            r.1 == self_index,
    {
        (payload, self_index as usize)
    }

    /// The block to broadcast and the round whose participants it goes to, if any has been built:
    /// the one built last, whatever commitment was asked for.
    pub fn broadcast(&self, _commitment: Digest) -> (r: Option<(Round, CodedBlock<B>)>)
        ensures
            self.relayed(r),
    {
        match &self.last_built {
            Some((round, block)) => Some((*round, block.clone())),
            None => None,
        }
    }
}

/// What is relayed is what was proposed: while no other block is built, the block that is handed
/// out for the broadcast, whatever was asked for, is the one that was built, with the commitment
/// that was proposed and for the round that it was proposed in.
pub proof fn relays_what_was_proposed<B: Block>(
    adapter: CodingAdapter<B>,
    round: Round,
    config: CodingConfig,
    block: B::V,
    commitment: Digest,
    found: Option<(Round, CodedBlock<B>)>,
)
    requires
        adapter.proposed(round, config, block, commitment),
        adapter.relayed(found),
    ensures
        found matches Some(relay) && {
            &&& relay.0 == round
            &&& relay.1@ == coded_as::<B>(block, config.totals())
            &&& CodedBlock::<B>::commitment_of(relay.1@) == commitment@
        },
{
}

/// For any number of participants from 2 to 65535 the configuration can be represented and any
/// block can be coded under it; there are no more shards than participants, and at most one
/// participant is left without; and half of the shards suffice.
pub proof fn participants_can_share(participants: nat, len: nat)
    requires
        2 <= participants <= u16::MAX,
        len <= u32::MAX,
    ensures
        ({
            let config = CodingConfig::of(participants);
            let (total, min) = config.totals();
            &&& config.representable()
            &&& codable((total, min), len)
            &&& participants - 1 <= total <= participants
            &&& total == 2 * min
        }),
{
    let half = (participants / 2) as int;
    assert(supports(half, half)) by {
        vstd::arithmetic::power2::lemma2_to64();
        assert(half <= vstd::arithmetic::power2::pow2(15));
    }
}

/// A block that was built for a round and coded for its participants is reconstructed from the
/// shards of any half of them.
pub proof fn half_of_the_shards_reconstruct<B: Block>(
    participants: nat,
    inner: B::V,
    picks: Seq<int>,
    cfg: B::Cfg,
)
    requires
        2 <= participants <= u16::MAX,
        B::admitted(inner, cfg),
        well_coded::<B>(coded_as::<B>(inner, CodingConfig::of(participants).totals())),
        sufficient(
            CodingConfig::of(participants).totals(),
            CodingConfig::of(participants).totals().0 as nat,
            picks,
        ),
    ensures
        ({
            let block = coded_as::<B>(inner, CodingConfig::of(participants).totals());
            reconstruction::<CodedBlock<B>>(
                block.commitment,
                picked(block.commitment, block.config, block.chunks, picks),
                cfg,
            ) == Ok::<Option<CodedBlockView<B::V>>, ReconstructionError>(Some(block))
        }),
{
    let block = coded_as::<B>(inner, CodingConfig::of(participants).totals());
    coded_block_reconstructs::<B>(block, picks, cfg);
}

} // verus!
