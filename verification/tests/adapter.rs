//! The coding adapter and the mailbox.

use commonware_cryptography::{Hasher, Sha256};
use marshal::block::Block as _;
use marshal::coding::application::{can_code, CodingAdapter, CodingConfig, ProposeAction};
use marshal::coding::coded_block::CodedBlock;
use marshal::coding::erasure::is_codable;
use marshal::coding::layer::ShardLayer;
use marshal::coding::shard::Shard;
use marshal::mailbox::{Activity, Mailbox, Message, Responders, Votes};
use marshal::mocks::Block;
use marshal::types::{Context, Digest, Round};

struct Channels;

impl Responders for Channels {
    type Get = &'static str;
    type Subscribe = u8;
    type Verify = char;
}

struct Ballots;

impl Votes for Ballots {
    type Notarize = u8;
    type Notarization = u16;
    type Finalize = u32;
    type Finalization = u64;
}

type Msg = Message<Block, u32, Channels, Ballots>;

fn hash(data: &[u8]) -> Digest {
    Digest(Sha256::hash(data).0)
}

fn context(parent: Digest) -> Context {
    Context { round: Round::new(3, 9), parent: (8, parent) }
}

#[test]
fn configuration_takes_half_of_the_participants() {
    for (participants, half, totals) in [
        (0usize, 0u16, Some((0u16, 0u16))),
        (1, 0, Some((0, 0))),
        (2, 1, Some((2, 1))),
        (3, 1, Some((2, 1))),
        (4, 2, Some((4, 2))),
        (7, 3, Some((6, 3))),
        (65535, 32767, Some((65534, 32767))),
        (65536, 32768, None),
        (131071, 65535, None),
        (131072, 0, Some((0, 0))),
        (131076, 2, Some((4, 2))),
    ] {
        let config = CodingConfig::for_participants(participants);
        assert_eq!(config, CodingConfig { minimum_shards: half, extra_shards: half });
        assert_eq!(config.total_and_minimum(), totals);
    }
}

#[test]
fn participants_can_share() {
    for participants in [2usize, 3, 4, 5, 100, 255, 256, 32767, 32768, 65534, 65535] {
        let config = CodingConfig::for_participants(participants);
        let (total, min) = config.total_and_minimum().unwrap();
        assert!(is_codable((total, min), 1000));
        assert!(total as usize <= participants && participants <= total as usize + 1);
        assert_eq!(total, 2 * min);
    }
}

#[test]
fn blocks_are_coded_for_two_participants_or_more() {
    let block = Block::new(hash(b""), 1, 1);
    for (participants, expected) in
        [(0usize, false), (1, false), (2, true), (65535, true), (65536, false), (131072, false)]
    {
        assert_eq!(can_code(CodingConfig::for_participants(participants), &block), expected);
    }
}

#[test]
fn proposal_on_genesis_builds_at_once() {
    let adapter: CodingAdapter<Block> = CodingAdapter::new();
    let genesis = Block::new(hash(b""), 0, 0);
    assert_eq!(adapter.genesis(&genesis), genesis.commitment());
    let (config, action) = adapter.propose(&context(genesis.commitment()), genesis, 4);
    assert_eq!(config, CodingConfig { minimum_shards: 2, extra_shards: 2 });
    match action {
        ProposeAction::Build { parent_commitment, parent } => {
            assert_eq!(parent_commitment, genesis.commitment());
            assert_eq!(parent, genesis);
        }
        _ => panic!("no build"),
    }
}

#[test]
fn proposal_on_another_parent_waits_for_it() {
    let adapter: CodingAdapter<Block> = CodingAdapter::new();
    let genesis = Block::new(hash(b""), 0, 0);
    let parent = Block::new(hash(b"x"), 1, 1);
    let context = context(parent.commitment());
    match adapter.propose(&context, genesis, 4).1 {
        ProposeAction::Subscribe { round, commitment } => {
            assert_eq!(round, Some(Round { epoch: 3, view: 8 }));
            assert_eq!(commitment, parent.commitment());
        }
        _ => panic!("no wait"),
    }
    match adapter.parent_received(&context, Some(parent)) {
        ProposeAction::Build { parent_commitment, parent: received } => {
            assert_eq!(parent_commitment, parent.commitment());
            assert_eq!(received, parent);
        }
        _ => panic!("no build"),
    }
    assert!(matches!(adapter.parent_received(&context, None), ProposeAction::Abort));
}

#[test]
fn built_block_is_broadcast() {
    let mut adapter: CodingAdapter<Block> = CodingAdapter::new();
    assert!(adapter.broadcast(hash(b"")).is_none());

    let config = CodingConfig::for_participants(5);
    let first = Block::new(hash(b""), 1, 1);
    let commitment = adapter.built(&context(hash(b"")), config, first);
    let coded = CodedBlock::new(first, (4, 2));
    assert_eq!(commitment, coded.commitment());
    let (round, block) = adapter.broadcast(commitment).unwrap();
    assert_eq!(round, Round::new(3, 9));
    assert_eq!(block, coded);

    // A later block takes the place of the first, whichever is asked for.
    let second = Block::new(commitment, 2, 2);
    let later = Context { round: Round::new(3, 10), parent: (9, commitment) };
    adapter.built(&later, config, second);
    for asked in [commitment, hash(b"unknown")] {
        let (round, block) = adapter.broadcast(asked).unwrap();
        assert_eq!(round, Round::new(3, 10));
        assert_eq!(block, CodedBlock::new(second, (4, 2)));
    }
}

#[test]
fn half_of_the_shards_reconstruct() {
    let mut adapter: CodingAdapter<Block> = CodingAdapter::new();
    let built = Block::new(hash(b""), 1, 1);
    let commitment = adapter.built(&context(hash(b"")), CodingConfig::for_participants(9), built);
    let (_, block) = adapter.broadcast(commitment).unwrap();
    let shards: Vec<Shard> = block
        .chunks()
        .iter()
        .skip(3)
        .step_by(2)
        .chain(block.chunks().iter().take(1))
        .map(|c| Shard::new(commitment, block.config(), c.clone()))
        .collect();
    assert_eq!(shards.len(), 4);
    let mut layer: ShardLayer<(), CodedBlock<Block>, ()> = ShardLayer::new((), ());
    let done = layer.try_reconstruct(&commitment, shards).unwrap().unwrap();
    assert_eq!(done.block, block);
    assert_eq!(*done.block.inner(), built);
}

#[test]
fn verification_asks_for_the_own_shard() {
    let adapter: CodingAdapter<Block> = CodingAdapter::new();
    assert_eq!(adapter.verify(hash(b"payload"), 70000), (hash(b"payload"), 70000usize));
}

#[test]
fn mailbox_makes_messages_of_requests() {
    let mailbox = Mailbox::new("sender");
    assert_eq!(*mailbox.sender(), "sender");
    let commitment = hash(b"commitment");

    let get: Msg = mailbox.get(commitment, "reply");
    assert!(matches!(get, Message::Get { commitment: c, response: "reply" } if c == commitment));

    let round = Some(Round::new(1, 2));
    let subscribe: Msg = mailbox.subscribe(round, commitment, 5);
    assert!(matches!(
        subscribe,
        Message::Subscribe { round: r, commitment: c, response: 5 } if r == round && c == commitment
    ));

    let coded = CodedBlock::new(Block::new(hash(b""), 1, 1), (4, 2));
    let broadcast: Msg = mailbox.broadcast(coded.clone(), vec![1, 2, 3]);
    match broadcast {
        Message::Broadcast { block, participants } => {
            assert_eq!(block, coded);
            assert_eq!(participants, vec![1, 2, 3]);
        }
        _ => panic!("no broadcast"),
    }

    let verify: Msg = mailbox.verify_shard(commitment, 7, 'v');
    assert!(matches!(
        verify,
        Message::VerifyShard { commitment: c, index: 7, response: 'v' } if c == commitment
    ));
}

#[test]
fn mailbox_reports_votes_and_certificates_only() {
    let mailbox = Mailbox::new(());
    let report = |activity: Activity<Ballots>| -> Option<Msg> { mailbox.report(activity) };
    assert!(matches!(report(Activity::Notarize(1)), Some(Message::Notarize { notarization: 1 })));
    assert!(matches!(
        report(Activity::Notarization(2)),
        Some(Message::Notarization { notarization: 2 })
    ));
    assert!(matches!(report(Activity::Finalize(3)), Some(Message::Finalize { finalization: 3 })));
    assert!(matches!(
        report(Activity::Finalization(4)),
        Some(Message::Finalization { finalization: 4 })
    ));
    assert!(report(Activity::Other).is_none());
}
