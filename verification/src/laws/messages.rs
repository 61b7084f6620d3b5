//! Laws of the messages to the actor.

use vstd::prelude::*;

use crate::block::Block;
use crate::coding::coded_block::CodedBlock;
use crate::mailbox::{Activity, Mailbox, Message, Responders, Votes};
use crate::types::{Digest, Round};

verus! {

/// A mailbox sends through the sender that it was made with.
pub proof fn mailbox_keeps_its_sender<S>(sender: S, mailbox: Mailbox<S>, told: S)
    requires
        call_ensures(Mailbox::<S>::new, (sender,), mailbox),
        call_ensures(Mailbox::<S>::sender, (&mailbox,), &told),
    ensures
        told == sender,
{
}

/// A request becomes a message that holds all of it: what is wanted, and where to answer.
pub proof fn requests_become_messages<S, B: Block, P, R: Responders, V: Votes>(
    mailbox: Mailbox<S>,
    c: Digest,
    at: Option<Round>,
    i: u16,
    x: CodedBlock<B>,
    peers: Vec<P>,
    for_get: R::Get,
    for_subscribe: R::Subscribe,
    for_verify: R::Verify,
    get: Message<B, P, R, V>,
    subscribe: Message<B, P, R, V>,
    share: Message<B, P, R, V>,
    verify: Message<B, P, R, V>,
)
    requires
        call_ensures(Mailbox::<S>::get::<B, P, R, V>, (&mailbox, c, for_get), get),
        call_ensures(
            Mailbox::<S>::subscribe::<B, P, R, V>,
            (&mailbox, at, c, for_subscribe),
            subscribe,
        ),
        call_ensures(Mailbox::<S>::broadcast::<B, P, R, V>, (&mailbox, x, peers), share),
        call_ensures(
            Mailbox::<S>::verify_shard::<B, P, R, V>,
            (&mailbox, c, i, for_verify),
            verify,
        ),
    ensures
        get matches Message::Get { commitment, response } && commitment == c && response == for_get,
        subscribe matches Message::Subscribe { round, commitment, response } && round == at
            && commitment == c && response == for_subscribe,
        share matches Message::Broadcast { block, participants } && block == x && participants
            == peers,
        verify matches Message::VerifyShard { commitment, index, response } && commitment == c
            && index == i && response == for_verify,
{
}

/// Votes and certificates are reported as they are, each as what it is; nothing else is reported.
pub proof fn votes_and_certificates_are_reported<S, B: Block, P, R: Responders, V: Votes>(
    mailbox: Mailbox<S>,
    activity: Activity<V>,
    r: Option<Message<B, P, R, V>>,
)
    requires
        call_ensures(Mailbox::<S>::report::<B, P, R, V>, (&mailbox, activity), r),
    ensures
        match activity {
            Activity::Notarize(vote) => r matches Some(Message::Notarize { notarization })
                && notarization == vote,
            Activity::Notarization(certificate) => r matches Some(
                Message::Notarization { notarization },
            ) && notarization == certificate,
            Activity::Finalize(vote) => r matches Some(Message::Finalize { finalization })
                && finalization == vote,
            Activity::Finalization(certificate) => r matches Some(
                Message::Finalization { finalization },
            ) && finalization == certificate,
            Activity::Other => r is None,
        },
{
}

} // verus!
