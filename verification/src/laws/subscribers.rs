//! Laws of those who wait for blocks.

use vstd::prelude::*;

use crate::block::Block;
use crate::coding::erasure::CodingError;
use crate::coding::layer::{BufferQuery, Reconstructed, ReconstructionError, ShardLayer};
use crate::coding::shard::Shard;
use crate::coding::subscriptions::{waiting, Subscriptions};
use crate::types::Digest;

verus! {

/// Whoever subscribes to a block is told of it last, behind those who would have been told without;
/// and whoever subscribes to another block changes nothing.
pub proof fn subscriber_is_told_last<M, B: Block, R>(
    layer: &mut ShardLayer<M, B, R>,
    commitment: Digest,
    responder: R,
    query: BufferQuery,
    subscribed: &mut ShardLayer<M, B, R>,
    without: &mut ShardLayer<M, B, R>,
    wanted: Digest,
    available: Vec<Shard>,
    r: Result<Option<Reconstructed<B, R>>, ReconstructionError>,
    s: Result<Option<Reconstructed<B, R>>, ReconstructionError>,
)
    requires
        call_ensures(
            ShardLayer::<M, B, R>::subscribe_block,
            (layer, commitment, responder),
            query,
        ),
        *old(subscribed) == *final(layer),
        *old(without) == *old(layer),
        call_ensures(ShardLayer::<M, B, R>::try_reconstruct, (subscribed, &wanted, available), r),
        call_ensures(ShardLayer::<M, B, R>::try_reconstruct, (without, &wanted, available), s),
    ensures
        match s {
            Ok(Some(b)) => r matches Ok(Some(a)) && a.block@ == b.block@ && a.subscribers@ == (
            if commitment.0@ == wanted.0@ {
                b.subscribers@.push(responder)
            } else {
                b.subscribers@
            }),
            Ok(None) => r matches Ok(None),
            Err(e) => r matches Err(f) && f == e,
        },
{
}

/// After an attempt that found no block, a later one tells the same as it would have without.
pub proof fn failed_attempts_change_nothing<M, B: Block, R>(
    layer: &mut ShardLayer<M, B, R>,
    commitment: Digest,
    available: Vec<Shard>,
    r: Result<Option<Reconstructed<B, R>>, ReconstructionError>,
    later: &mut ShardLayer<M, B, R>,
    without: &mut ShardLayer<M, B, R>,
    wanted: Digest,
    found: Vec<Shard>,
    a: Result<Option<Reconstructed<B, R>>, ReconstructionError>,
    b: Result<Option<Reconstructed<B, R>>, ReconstructionError>,
)
    requires
        call_ensures(
            ShardLayer::<M, B, R>::try_reconstruct,
            (layer, &commitment, available),
            r,
        ),
        !(r matches Ok(Some(_))),
        *old(later) == *final(layer),
        *old(without) == *old(layer),
        call_ensures(ShardLayer::<M, B, R>::try_reconstruct, (later, &wanted, found), a),
        call_ensures(ShardLayer::<M, B, R>::try_reconstruct, (without, &wanted, found), b),
    ensures
        b matches Ok(Some(y)) ==> (a matches Ok(Some(x)) && x.subscribers@ == y.subscribers@),
        b matches Ok(None) ==> a matches Ok(None),
        b is Err ==> a is Err,
{
}

/// After a block was found, no one is told of it again until someone subscribes; and those who wait
/// for another block are told of it as they would have been.
pub proof fn no_one_is_told_twice<M, B: Block, R>(
    layer: &mut ShardLayer<M, B, R>,
    commitment: Digest,
    available: Vec<Shard>,
    done: Reconstructed<B, R>,
    later: &mut ShardLayer<M, B, R>,
    without: &mut ShardLayer<M, B, R>,
    wanted: Digest,
    found: Vec<Shard>,
    a: Reconstructed<B, R>,
    b: Reconstructed<B, R>,
)
    requires
        call_ensures(
            ShardLayer::<M, B, R>::try_reconstruct,
            (layer, &commitment, available),
            Ok::<Option<Reconstructed<B, R>>, ReconstructionError>(Some(done)),
        ),
        *old(later) == *final(layer),
        *old(without) == *old(layer),
        call_ensures(
            ShardLayer::<M, B, R>::try_reconstruct,
            (later, &wanted, found),
            Ok::<Option<Reconstructed<B, R>>, ReconstructionError>(Some(a)),
        ),
        call_ensures(
            ShardLayer::<M, B, R>::try_reconstruct,
            (without, &wanted, found),
            Ok::<Option<Reconstructed<B, R>>, ReconstructionError>(Some(b)),
        ),
    ensures
        commitment.0@ == wanted.0@ ==> a.subscribers@.len() == 0,
        commitment.0@ != wanted.0@ ==> a.subscribers@ == b.subscribers@,
{
}

/// An attempt that is checked first leaves the same people waiting as one that is made outright;
/// and one that cannot be made leaves everyone waiting.
pub proof fn checked_attempts_leave_the_same_waiting<M, B: Block, R>(
    layer: &mut ShardLayer<M, B, R>,
    other: &mut ShardLayer<M, B, R>,
    commitment: Digest,
    available: Vec<Shard>,
    checked: Option<Result<Option<Reconstructed<B, R>>, ReconstructionError>>,
    outright: Result<Option<Reconstructed<B, R>>, ReconstructionError>,
    after_checked: &mut ShardLayer<M, B, R>,
    after_outright: &mut ShardLayer<M, B, R>,
    after_nothing: &mut ShardLayer<M, B, R>,
    wanted: Digest,
    found: Vec<Shard>,
    a: Reconstructed<B, R>,
    b: Reconstructed<B, R>,
    c: Reconstructed<B, R>,
)
    requires
        *old(layer) == *old(other),
        call_ensures(
            ShardLayer::<M, B, R>::try_reconstruct_checked,
            (layer, &commitment, available),
            checked,
        ),
        call_ensures(
            ShardLayer::<M, B, R>::try_reconstruct,
            (other, &commitment, available),
            outright,
        ),
        *old(after_checked) == *final(layer),
        *old(after_outright) == *final(other),
        *old(after_nothing) == *old(layer),
        call_ensures(
            ShardLayer::<M, B, R>::try_reconstruct,
            (after_checked, &wanted, found),
            Ok::<Option<Reconstructed<B, R>>, ReconstructionError>(Some(a)),
        ),
        call_ensures(
            ShardLayer::<M, B, R>::try_reconstruct,
            (after_outright, &wanted, found),
            Ok::<Option<Reconstructed<B, R>>, ReconstructionError>(Some(b)),
        ),
        call_ensures(
            ShardLayer::<M, B, R>::try_reconstruct,
            (after_nothing, &wanted, found),
            Ok::<Option<Reconstructed<B, R>>, ReconstructionError>(Some(c)),
        ),
    ensures
        checked is Some ==> a.subscribers@ == b.subscribers@,
        checked is None ==> a.subscribers@ == c.subscribers@,
{
}

/// Whoever waits for a block is told of it, however its bytes were recovered; and then waits no
/// longer.
pub proof fn completion_tells_the_same<M, B: Block, R>(
    layer: &mut ShardLayer<M, B, R>,
    other: &mut ShardLayer<M, B, R>,
    commitment: Digest,
    data: Vec<u8>,
    available: Vec<Shard>,
    a: Reconstructed<B, R>,
    b: Reconstructed<B, R>,
    after_a: &mut ShardLayer<M, B, R>,
    after_b: &mut ShardLayer<M, B, R>,
    wanted: Digest,
    found: Vec<Shard>,
    c: Reconstructed<B, R>,
    d: Reconstructed<B, R>,
)
    requires
        *old(layer) == *old(other),
        call_ensures(
            ShardLayer::<M, B, R>::complete,
            (layer, &commitment, Ok::<Option<Vec<u8>>, CodingError>(Some(data))),
            Ok::<Option<Reconstructed<B, R>>, ReconstructionError>(Some(a)),
        ),
        call_ensures(
            ShardLayer::<M, B, R>::try_reconstruct,
            (other, &commitment, available),
            Ok::<Option<Reconstructed<B, R>>, ReconstructionError>(Some(b)),
        ),
        *old(after_a) == *final(layer),
        *old(after_b) == *final(other),
        call_ensures(
            ShardLayer::<M, B, R>::try_reconstruct,
            (after_a, &wanted, found),
            Ok::<Option<Reconstructed<B, R>>, ReconstructionError>(Some(c)),
        ),
        call_ensures(
            ShardLayer::<M, B, R>::try_reconstruct,
            (after_b, &wanted, found),
            Ok::<Option<Reconstructed<B, R>>, ReconstructionError>(Some(d)),
        ),
    ensures
        a.subscribers@ == b.subscribers@,
        c.subscribers@ == d.subscribers@,
{
}

/// A new layer can be subscribed to, and attempts can be made on it; and so they can after each
/// subscription and after each attempt.
pub proof fn layer_stays_usable<M, B: Block, R>(
    mailbox: M,
    cfg: B::Cfg,
    fresh: ShardLayer<M, B, R>,
    first: &mut ShardLayer<M, B, R>,
    second: &mut ShardLayer<M, B, R>,
    third: &mut ShardLayer<M, B, R>,
    commitment: Digest,
    responder: R,
    query: BufferQuery,
    available: Vec<Shard>,
    checked: Option<Result<Option<Reconstructed<B, R>>, ReconstructionError>>,
)
    requires
        call_ensures(ShardLayer::<M, B, R>::new, (mailbox, cfg), fresh),
        *old(first) == fresh,
        call_ensures(
            ShardLayer::<M, B, R>::subscribe_block,
            (first, commitment, responder),
            query,
        ),
        *old(second) == *final(first),
        call_ensures(
            ShardLayer::<M, B, R>::try_reconstruct_checked,
            (second, &commitment, available),
            checked,
        ),
        *old(third) == *final(second),
    ensures
        call_requires(ShardLayer::<M, B, R>::subscribe_block, (first, commitment, responder)),
        call_requires(
            ShardLayer::<M, B, R>::try_reconstruct_checked,
            (first, &commitment, available),
        ),
        call_requires(
            ShardLayer::<M, B, R>::try_reconstruct_checked,
            (second, &commitment, available),
        ),
        call_requires(ShardLayer::<M, B, R>::subscribe_block, (third, commitment, responder)),
        checked is Some ==> call_requires(
            ShardLayer::<M, B, R>::try_reconstruct,
            (second, &commitment, available),
        ),
{
}

/// The places at which a commitment stands, in order.
pub open spec fn places(commitments: Seq<Digest>, wanted: Digest) -> Seq<int> {
    Seq::new(commitments.len(), |i: int| i).filter(|i: int| commitments[i].0@ == wanted.0@)
}

/// Everyone who has subscribed to a block is told of it once it is found, however many they are, in
/// the order in which they came; and no one else is.
pub proof fn all_subscribers_are_told_in_order<M, B: Block, R>(
    mailbox: M,
    cfg: B::Cfg,
    layers: Seq<ShardLayer<M, B, R>>,
    commitments: Seq<Digest>,
    responders: Seq<R>,
    calls: Seq<&mut ShardLayer<M, B, R>>,
    queries: Seq<BufferQuery>,
    layer: &mut ShardLayer<M, B, R>,
    wanted: Digest,
    available: Vec<Shard>,
    done: Reconstructed<B, R>,
)
    requires
        layers.len() == responders.len() + 1,
        commitments.len() == responders.len(),
        calls.len() == responders.len(),
        queries.len() == responders.len(),
        call_ensures(ShardLayer::<M, B, R>::new, (mailbox, cfg), layers[0]),
        forall|i: int|
            #![trigger calls[i]]
            0 <= i < calls.len() ==> {
                &&& *calls[i] == layers[i]
                &&& *final(calls[i]) == layers[i + 1]
                &&& call_ensures(
                    ShardLayer::<M, B, R>::subscribe_block,
                    (calls[i], commitments[i], responders[i]),
                    queries[i],
                )
            },
        *old(layer) == layers.last(),
        call_ensures(
            ShardLayer::<M, B, R>::try_reconstruct,
            (layer, &wanted, available),
            Ok::<Option<Reconstructed<B, R>>, ReconstructionError>(Some(done)),
        ),
    ensures
        done.subscribers@ == places(commitments, wanted).map_values(|i: int| responders[i]),
{
    waiting_after(
        mailbox,
        cfg,
        layers,
        commitments,
        responders,
        calls,
        queries,
        wanted,
        responders.len(),
    );
    assert(Seq::new(commitments.len(), |i: int| i).take(responders.len() as int) =~= Seq::new(
        commitments.len(),
        |i: int| i,
    ));
}

/// Those who wait for a commitment after the first subscriptions.
proof fn waiting_after<M, B: Block, R>(
    mailbox: M,
    cfg: B::Cfg,
    layers: Seq<ShardLayer<M, B, R>>,
    commitments: Seq<Digest>,
    responders: Seq<R>,
    calls: Seq<&mut ShardLayer<M, B, R>>,
    queries: Seq<BufferQuery>,
    wanted: Digest,
    n: nat,
)
    requires
        layers.len() == responders.len() + 1,
        commitments.len() == responders.len(),
        calls.len() == responders.len(),
        queries.len() == responders.len(),
        call_ensures(ShardLayer::<M, B, R>::new, (mailbox, cfg), layers[0]),
        forall|i: int|
            #![trigger calls[i]]
            0 <= i < calls.len() ==> {
                &&& *calls[i] == layers[i]
                &&& *final(calls[i]) == layers[i + 1]
                &&& call_ensures(
                    ShardLayer::<M, B, R>::subscribe_block,
                    (calls[i], commitments[i], responders[i]),
                    queries[i],
                )
            },
        n <= responders.len(),
    ensures
        waiting(layers[n as int].subscriptions(), wanted@) == Seq::new(
            commitments.len(),
            |i: int| i,
        ).take(n as int).filter(|i: int| commitments[i].0@ == wanted.0@).map_values(
            |i: int| responders[i],
        ),
    decreases n,
{
    broadcast use vstd::seq_lib::group_filter_ensures;

    let all = Seq::new(commitments.len(), |i: int| i);
    let wants = |i: int| commitments[i].0@ == wanted.0@;
    let responder = |i: int| responders[i];
    if n == 0 {
        assert(all.take(0) =~= Seq::<int>::empty());
        reveal(Seq::filter);
        assert(all.take(0).filter(wants).map_values(responder) =~= Seq::<R>::empty());
    } else {
        let m = (n - 1) as nat;
        waiting_after(mailbox, cfg, layers, commitments, responders, calls, queries, wanted, m);
        assert(*calls[m as int] == layers[m as int]);
        reveal(Seq::filter);
        assert(all.take(n as int).drop_last() =~= all.take(m as int));
        assert(all.take(n as int).last() == m);
        let before = all.take(m as int).filter(wants);
        assert(before.push(m as int).map_values(responder) =~= before.map_values(responder).push(
            responders[m as int],
        ));
    }
}

/// The records of a new layer and of new subscriptions are empty; whoever joins comes last of
/// those who wait for that commitment; taking out those who wait for a commitment takes all of
/// them and no one else.
pub proof fn subscriptions_keep_everyone<R>(
    fresh: Subscriptions<R>,
    before: &mut Subscriptions<R>,
    commitment: Digest,
    responder: R,
    w: (),
    joined: &mut Subscriptions<R>,
    without: &mut Subscriptions<R>,
    again: &mut Subscriptions<R>,
    wanted: Digest,
    a: Vec<R>,
    b: Vec<R>,
    c: Vec<R>,
    empty: &mut Subscriptions<R>,
    d: Vec<R>,
)
    requires
        call_ensures(Subscriptions::<R>::new, (), fresh),
        *old(empty) == fresh,
        call_ensures(Subscriptions::<R>::take, (empty, &wanted), d),
        call_ensures(Subscriptions::<R>::join, (before, commitment, responder), w),
        *old(joined) == *final(before),
        *old(without) == *old(before),
        call_ensures(Subscriptions::<R>::take, (joined, &wanted), a),
        call_ensures(Subscriptions::<R>::take, (without, &wanted), b),
        *old(again) == *final(joined),
        call_ensures(Subscriptions::<R>::take, (again, &wanted), c),
    ensures
        d@.len() == 0,
        commitment.0@ == wanted.0@ ==> a@ == b@.push(responder),
        commitment.0@ != wanted.0@ ==> a@ == b@,
        c@.len() == 0,
{
}

/// Those who wait for one block go on waiting when those who wait for another are taken out.
pub proof fn taking_leaves_others_waiting<R>(
    before: &mut Subscriptions<R>,
    commitment: Digest,
    taken: Vec<R>,
    after: &mut Subscriptions<R>,
    without: &mut Subscriptions<R>,
    wanted: Digest,
    a: Vec<R>,
    b: Vec<R>,
)
    requires
        commitment.0@ != wanted.0@,
        call_ensures(Subscriptions::<R>::take, (before, &commitment), taken),
        *old(after) == *final(before),
        *old(without) == *old(before),
        call_ensures(Subscriptions::<R>::take, (after, &wanted), a),
        call_ensures(Subscriptions::<R>::take, (without, &wanted), b),
    ensures
        a@ == b@,
{
}

} // verus!
