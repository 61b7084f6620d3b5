//! Messages to the actor that marshals blocks, and the mailbox that takes them.

use vstd::prelude::*;

use crate::block::Block;
use crate::coding::coded_block::CodedBlock;
use crate::types::{Digest, Round};

verus! {

/// The channels on which the actor answers.
pub trait Responders {
    /// Takes the answer to a request for a block that may be stored.
    type Get;

    /// Takes the block that was subscribed to.
    type Subscribe;

    /// Takes the verdict on a shard.
    type Verify;
}

/// What consensus reports: votes, and the certificates that enough votes make up.
pub trait Votes {
    /// A vote to notarize a proposal.
    type Notarize;

    /// A certificate that a proposal is notarized.
    type Notarization;

    /// A vote to finalize a proposal.
    type Finalize;

    /// A certificate that a proposal is final.
    type Finalization;
}

/// A message to the actor.
///
/// Messages come from consensus and from other parts of the system, and drive the state of the
/// actor.
pub enum Message<B: Block, P, R: Responders, V: Votes> {
    /// A request to retrieve a block by its commitment.
    Get {
        /// The commitment of the block to retrieve.
        commitment: Digest,
        /// Where to send the block.
        response: R::Get,
    },
    /// A request to retrieve a block by its commitment, now or once it is available.
    Subscribe {
        /// The round in which the block was notarized, which helps to locate it.
        round: Option<Round>,
        /// The commitment of the block to retrieve.
        commitment: Digest,
        /// Where to send the block.
        response: R::Subscribe,
    },
    /// A request to broadcast a coded block.
    Broadcast {
        /// The block to broadcast.
        block: CodedBlock<B>,
        /// The participants to share the block with.
        participants: Vec<P>,
    },
    /// A request to verify that the shard at an index is contained in a commitment.
    VerifyShard {
        /// The commitment of the block.
        commitment: Digest,
        /// The index of the shard.
        index: u16,
        /// Where to send the verdict.
        response: R::Verify,
    },
    /// A vote to notarize.
    Notarize {
        /// The vote.
        notarization: V::Notarize,
    },
    /// A notarization.
    Notarization {
        /// The certificate.
        notarization: V::Notarization,
    },
    /// A vote to finalize.
    Finalize {
        /// The vote.
        finalization: V::Finalize,
    },
    /// A finalization.
    Finalization {
        /// The certificate.
        finalization: V::Finalization,
    },
}

/// What consensus has observed.
pub enum Activity<V: Votes> {
    /// A vote to notarize.
    Notarize(V::Notarize),
    /// A notarization.
    Notarization(V::Notarization),
    /// A vote to finalize.
    Finalize(V::Finalize),
    /// A finalization.
    Finalization(V::Finalization),
    /// Anything else, such as a skipped view or the proof of a fault.
    Other,
}

/// What to tell the actor of an activity: nothing of those that bring it no closer to a final
/// block.
pub open spec fn reported<B: Block, P, R: Responders, V: Votes>(activity: Activity<V>) -> Option<
    Message<B, P, R, V>,
> {
    match activity {
        Activity::Notarize(notarization) => Some(Message::Notarize { notarization }),
        Activity::Notarization(notarization) => Some(Message::Notarization { notarization }),
        Activity::Finalize(finalization) => Some(Message::Finalize { finalization }),
        Activity::Finalization(finalization) => Some(Message::Finalization { finalization }),
        Activity::Other => None,
    }
}

/// A mailbox for sending messages to the actor, through a sender `S`.
pub struct Mailbox<S> {
    sender: S,
}

impl<S> Mailbox<S> {
    /// The sender.
    pub closed spec fn channel(&self) -> S {
        self.sender
    }

    /// Creates a mailbox.
    pub fn new(sender: S) -> (r: Self)
        ensures
            r.channel() == sender,
    {
        Mailbox { sender }
    }

    /// The sender through which messages reach the actor.
    pub fn sender(&self) -> (r: &S)
        ensures
            *r == self.channel(),
    {
        &self.sender
    }

    /// The message that asks for a block from local storage, at best effort. It is no reason to
    /// fetch the block from the network.
    pub fn get<B: Block, P, R: Responders, V: Votes>(
        &self,
        commitment: Digest,
        response: R::Get,
    ) -> (r: Message<B, P, R, V>)
        ensures
            r == (Message::<B, P, R, V>::Get { commitment, response }),
    {
        Message::Get { commitment, response }
    }

    /// The message that asks for a block by its commitment: now, if it is available locally, else
    /// once it is.
    pub fn subscribe<B: Block, P, R: Responders, V: Votes>(
        &self,
        round: Option<Round>,
        commitment: Digest,
        response: R::Subscribe,
    ) -> (r: Message<B, P, R, V>)
        ensures
            r == (Message::<B, P, R, V>::Subscribe { round, commitment, response }),
    {
        Message::Subscribe { round, commitment, response }
    }

    /// The message that asks for a coded block to be broadcast to a set of participants.
    pub fn broadcast<B: Block, P, R: Responders, V: Votes>(
        &self,
        block: CodedBlock<B>,
        participants: Vec<P>,
    ) -> (r: Message<B, P, R, V>)
        ensures
            r == (Message::<B, P, R, V>::Broadcast { block, participants }),
    {
        Message::Broadcast { block, participants }
    }

    /// The message that asks whether the shard at an index is contained in a commitment.
    pub fn verify_shard<B: Block, P, R: Responders, V: Votes>(
        &self,
        commitment: Digest,
        index: u16,
        response: R::Verify,
    ) -> (r: Message<B, P, R, V>)
        ensures
            r == (Message::<B, P, R, V>::VerifyShard { commitment, index, response }),
    {
        Message::VerifyShard { commitment, index, response }
    }

    /// The message that tells of an activity of consensus, if the actor needs to hear of it.
    pub fn report<B: Block, P, R: Responders, V: Votes>(&self, activity: Activity<V>) -> (r: Option<
        Message<B, P, R, V>,
    >)
        ensures
            r == reported::<B, P, R, V>(activity),
    {
        let message = match activity {
            Activity::Notarize(notarization) => Message::Notarize { notarization },
            Activity::Notarization(notarization) => Message::Notarization { notarization },
            Activity::Finalize(finalization) => Message::Finalize { finalization },
            Activity::Finalization(finalization) => Message::Finalization { finalization },
            Activity::Other => return None,
        };
        Some(message)
    }
}

impl<S: Clone> Clone for Mailbox<S> {
    fn clone(&self) -> (r: Self)
        ensures
            cloned(self.channel(), r.channel()),
    {
        Mailbox { sender: self.sender.clone() }
    }
}

} // verus!
