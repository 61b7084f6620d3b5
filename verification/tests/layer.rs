//! Spreading shards and reconstructing blocks from them.

use commonware_coding::reed_solomon;
use commonware_cryptography::{sha256, Hasher, Sha256};
use commonware_storage::bmt;
use marshal::block::Block as _;
use marshal::codec::CodecError;
use marshal::coding::chunk::Chunk;
use marshal::coding::coded_block::CodedBlock;
use marshal::coding::erasure::CodingError;
use marshal::coding::layer::{BufferQuery, ReconstructionError, ShardLayer};
use marshal::coding::shard::Shard;
use marshal::coding::subscriptions::Subscriptions;
use marshal::mocks::Block;
use marshal::types::Digest;

type Coded = CodedBlock<Block>;
type Layer = ShardLayer<&'static str, Coded, u32>;

fn layer() -> Layer {
    ShardLayer::new("mailbox", ())
}

fn hash(data: &[u8]) -> Digest {
    Digest(Sha256::hash(data).0)
}

fn block(height: u64, config: (u16, u16)) -> Coded {
    CodedBlock::new(Block::new(hash(b""), height, height), config)
}

fn shards(block: &Coded) -> Vec<Shard> {
    block
        .chunks()
        .iter()
        .map(|c| Shard::new(block.commitment(), block.config(), c.clone()))
        .collect()
}

fn pick(shards: &[Shard], picks: &[usize]) -> Vec<Shard> {
    picks.iter().map(|&i| shards[i].clone()).collect()
}

/// Shards of raw bytes, coded as a block would be.
fn raw(config: (u16, u16), data: &[u8]) -> (Digest, Vec<Shard>) {
    let (root, chunks) =
        reed_solomon::encode::<Sha256>(config.0, config.1, data.to_vec()).unwrap();
    let root = Digest(root.0);
    let shards = chunks
        .into_iter()
        .map(|c| {
            let siblings = c.proof.siblings.iter().map(|d| Digest(d.0)).collect();
            Shard::new(root, config, Chunk { shard: c.shard, index: c.index, siblings })
        })
        .collect();
    (root, shards)
}

/// Shards of these pieces under a root that proves them, whatever they hold.
fn forged(config: (u16, u16), pieces: &[Vec<u8>]) -> (Digest, Vec<Shard>) {
    let mut builder = bmt::Builder::<Sha256>::new(pieces.len());
    for piece in pieces {
        builder.add(&Sha256::hash(piece));
    }
    let tree = builder.build();
    let root = Digest(tree.root().0);
    let shards = pieces
        .iter()
        .enumerate()
        .map(|(i, piece)| {
            let path: Vec<sha256::Digest> = tree.proof(i as u32).unwrap().siblings;
            let siblings = path.iter().map(|d| Digest(d.0)).collect();
            Shard::new(root, config, Chunk { shard: piece.clone(), index: i as u16, siblings })
        })
        .collect();
    (root, shards)
}

fn error(commitment: &Digest, available: Vec<Shard>) -> ReconstructionError {
    let mut layer = layer();
    layer.subscribe_block(*commitment, 7);
    let checked = layer.try_reconstruct_checked(commitment, available.clone());
    let e = match checked.unwrap() {
        Err(e) => e,
        Ok(_) => panic!("no error"),
    };
    match layer.try_reconstruct(commitment, available) {
        Err(again) => assert_eq!(again, e),
        Ok(_) => panic!("no error"),
    }
    e
}

#[test]
fn any_sufficient_choice_reconstructs_in_any_order() {
    let block = block(5, (5, 2));
    let all = shards(&block);
    for picks in [
        vec![0, 1],
        vec![1, 0],
        vec![3, 4],
        vec![4, 0],
        vec![2, 1, 3],
        vec![4, 3, 2, 1, 0],
    ] {
        let mut layer = layer();
        let done = layer
            .try_reconstruct(&block.commitment(), pick(&all, &picks))
            .unwrap()
            .unwrap();
        assert_eq!(done.block, block);
        assert_eq!(done.block.chunks(), block.chunks());
        assert!(done.subscribers.is_empty());
    }
}

#[test]
fn too_few_shards_are_no_error() {
    let block = block(5, (5, 3));
    let all = shards(&block);
    let mut layer = layer();
    layer.subscribe_block(block.commitment(), 1);
    for picks in [vec![], vec![4], vec![0, 1]] {
        assert!(matches!(
            layer.try_reconstruct(&block.commitment(), pick(&all, &picks)),
            Ok(None)
        ));
        assert!(matches!(
            layer.try_reconstruct_checked(&block.commitment(), pick(&all, &picks)),
            Some(Ok(None))
        ));
    }
    // The subscriber still waits.
    let done = layer.try_reconstruct(&block.commitment(), all).unwrap().unwrap();
    assert_eq!(done.subscribers, vec![1]);
}

#[test]
fn subscribers_are_told_once_and_in_order() {
    let block1 = block(1, (4, 2));
    let block2 = block(2, (4, 2));
    let mut layer = layer();
    let query = BufferQuery { commitment: block1.commitment(), digest: None };
    assert_eq!(layer.subscribe_block(block1.commitment(), 10), query);
    layer.subscribe_block(block2.commitment(), 20);
    assert_eq!(layer.subscribe_block(block1.commitment(), 11), query);
    layer.subscribe_block(block1.commitment(), 12);

    let done1 = layer
        .try_reconstruct(&block1.commitment(), shards(&block1))
        .unwrap()
        .unwrap();
    assert_eq!(done1.block.digest(), block1.digest());
    assert_eq!(done1.block.height(), 1);
    assert_eq!(done1.subscribers, vec![10, 11, 12]);

    let again = layer
        .try_reconstruct(&block1.commitment(), shards(&block1))
        .unwrap()
        .unwrap();
    assert!(again.subscribers.is_empty());

    let done2 = layer
        .try_reconstruct(&block2.commitment(), shards(&block2))
        .unwrap()
        .unwrap();
    assert_eq!(done2.block.digest(), block2.digest());
    assert_eq!(done2.block.height(), 2);
    assert_eq!(done2.subscribers, vec![20]);
}

#[test]
fn late_subscriber_finds_the_block_in_the_buffer() {
    let block = block(1, (4, 2));
    let mut layer = layer();
    let query = layer.subscribe_block(block.commitment(), 3);
    assert_eq!(query, layer.shards_query(block.commitment()));
    let done = layer
        .try_reconstruct_checked(&query.commitment, shards(&block))
        .unwrap()
        .unwrap()
        .unwrap();
    assert_eq!(done.subscribers, vec![3]);
}

#[test]
fn shards_must_differ_and_be_in_range() {
    let block = block(5, (4, 2));
    let all = shards(&block);
    assert_eq!(
        error(&block.commitment(), pick(&all, &[3, 3])),
        ReconstructionError::CodingRecovery(CodingError::DuplicateIndex(3))
    );
    let mut chunk = all[1].chunk().clone();
    chunk.index = 4;
    let outside = Shard::new(block.commitment(), (4, 2), chunk);
    assert_eq!(
        error(&block.commitment(), vec![all[0].clone(), outside]),
        ReconstructionError::CodingRecovery(CodingError::InvalidIndex(4))
    );
}

#[test]
fn shards_must_be_contained_in_the_commitment() {
    let block = block(5, (4, 2));
    let all = shards(&block);
    let mut chunk = all[1].chunk().clone();
    chunk.shard[0] ^= 1;
    let altered = Shard::new(block.commitment(), (4, 2), chunk);
    assert_eq!(
        error(&block.commitment(), vec![all[0].clone(), altered]),
        ReconstructionError::CodingRecovery(CodingError::InvalidProof)
    );
    assert_eq!(
        error(&hash(b"another"), all),
        ReconstructionError::CodingRecovery(CodingError::InvalidProof)
    );
}

#[test]
fn shards_must_belong_to_one_coding() {
    let (root, shards) = forged((3, 2), &[vec![1; 8], vec![2; 8], vec![9; 8]]);
    assert_eq!(
        error(&root, pick(&shards, &[0, 1])),
        ReconstructionError::CodingRecovery(CodingError::Inconsistent)
    );
}

#[test]
fn shards_must_be_of_even_length() {
    let (root, shards) = forged((3, 2), &[vec![1; 3], vec![2; 3], vec![3; 3]]);
    let e = error(&root, pick(&shards, &[0, 1]));
    assert!(matches!(e, ReconstructionError::CodingRecovery(CodingError::ReedSolomon(_))), "{e:?}");
}

/// The error that the coder itself ends in.
fn coder_error(config: (u16, u16), root: &Digest, available: &[Shard]) -> reed_solomon::Error {
    let chunks = available
        .iter()
        .map(|s| {
            let siblings = s.siblings.iter().map(|d| sha256::Digest(d.0)).collect();
            reed_solomon::Chunk::new(s.shard.clone(), s.index, bmt::Proof::<Sha256> { siblings })
        })
        .collect();
    reed_solomon::decode::<Sha256>(config.0, config.1, &sha256::Digest(root.0), chunks).unwrap_err()
}

#[test]
fn short_shards_fail_as_the_coder_has_it() {
    // Proven, but not of one coding.
    let (root, shards) = forged((3, 1), &[vec![0; 2], vec![1; 2], vec![2; 2]]);
    for picks in [vec![0], vec![1], vec![2], vec![0, 1], vec![1, 2], vec![2, 1, 0]] {
        let available = pick(&shards, &picks);
        assert!(matches!(
            coder_error((3, 1), &root, &available),
            reed_solomon::Error::Inconsistent
        ));
        assert_eq!(
            error(&root, available),
            ReconstructionError::CodingRecovery(CodingError::Inconsistent)
        );
    }
    // Of different lengths.
    let (root, shards) = forged((3, 1), &[vec![0; 2], vec![0; 4], vec![0; 2]]);
    for picks in [vec![0, 1], vec![1, 2], vec![0, 2, 1]] {
        let available = pick(&shards, &picks);
        let message = match coder_error((3, 1), &root, &available) {
            reed_solomon::Error::ReedSolomon(e) => e.to_string(),
            e => panic!("{e}"),
        };
        assert_eq!(
            error(&root, available),
            ReconstructionError::CodingRecovery(CodingError::ReedSolomon(message))
        );
    }
    // Not proven, repeated, out of range.
    let (root, shards) = forged((3, 1), &[vec![0; 2], vec![0; 2], vec![0; 2]]);
    let mut chunk = shards[0].chunk().clone();
    chunk.shard[1] = 1;
    assert_eq!(
        error(&root, vec![Shard::new(root, (3, 1), chunk)]),
        ReconstructionError::CodingRecovery(CodingError::InvalidProof)
    );
    assert_eq!(
        error(&root, pick(&shards, &[1, 2, 1])),
        ReconstructionError::CodingRecovery(CodingError::DuplicateIndex(1))
    );
    let mut chunk = shards[0].chunk().clone();
    chunk.index = 3;
    assert_eq!(
        error(&root, vec![Shard::new(root, (3, 1), chunk)]),
        ReconstructionError::CodingRecovery(CodingError::InvalidIndex(3))
    );
}

#[test]
fn recovered_bytes_must_be_a_block() {
    let (root, shards) = raw((4, 2), b"no block");
    assert_eq!(error(&root, shards), ReconstructionError::Codec(CodecError::EndOfBuffer));

    let mut data = marshal::block::encode(&block(5, (4, 2)));
    data.extend_from_slice(b"more");
    let (root, shards) = raw((4, 2), &data);
    assert_eq!(error(&root, shards), ReconstructionError::Codec(CodecError::ExtraData(4)));
}

#[test]
fn failed_attempts_leave_subscribers_waiting() {
    let block = block(5, (4, 2));
    let all = shards(&block);
    let mut layer = layer();
    layer.subscribe_block(block.commitment(), 1);
    assert!(layer.try_reconstruct(&block.commitment(), pick(&all, &[3, 3])).is_err());
    let done = layer.try_reconstruct(&block.commitment(), all).unwrap().unwrap();
    assert_eq!(done.subscribers, vec![1]);
}

#[test]
fn attempts_that_cannot_be_made_change_nothing() {
    let block = block(5, (4, 2));
    let commitment = block.commitment();
    let mut layer = layer();
    layer.subscribe_block(commitment, 1);
    for config in [(4, 0), (0, 0), (2, 2), (1, 2)] {
        let available: Vec<Shard> = block
            .chunks()
            .iter()
            .map(|c| Shard::new(commitment, config, c.clone()))
            .collect();
        assert!(layer.try_reconstruct_checked(&commitment, available).is_none());
    }
    // A block that names a configuration under which it cannot be coded.
    let mut data = marshal::block::encode(&block);
    let n = data.len();
    data[n - 4..].copy_from_slice(&[0, 2, 0, 2]);
    let (root, shards) = raw((4, 2), &data);
    assert!(layer.try_reconstruct_checked(&root, shards).is_none());

    let done = layer.try_reconstruct(&commitment, self::shards(&block)).unwrap().unwrap();
    assert_eq!(done.subscribers, vec![1]);
}

#[test]
fn chunks_go_to_their_peers() {
    let block = block(5, (4, 2));
    let layer = layer();
    assert_eq!(*layer.mailbox(), "mailbox");
    let chunks: Vec<(char, Chunk)> = "abcd".chars().zip(block.chunks().iter().cloned()).collect();
    let messages = layer.broadcast_chunks(block.commitment(), block.config(), chunks);
    assert_eq!(messages.len(), 4);
    for (i, (peer, shard)) in messages.iter().enumerate() {
        assert_eq!(*peer, ['a', 'b', 'c', 'd'][i]);
        assert_eq!(*shard, shards(&block)[i]);
        assert!(shard.is_contained());
    }
}

#[test]
fn local_shard_is_found_by_its_index() {
    let block = block(5, (4, 2));
    let all = shards(&block);
    let layer = layer();
    let available = pick(&all, &[3, 1, 2]);
    assert_eq!(layer.try_broadcast_shard(&available, 1), Some(all[1].clone()));
    assert_eq!(layer.try_broadcast_shard(&available, 0), None);
    assert_eq!(layer.try_broadcast_shard(&vec![], 0), None);
    // Of two shards with one index, the first.
    let other = Shard::new(block.commitment(), (9, 8), all[1].chunk().clone());
    assert_eq!(
        layer.try_broadcast_shard(&vec![all[0].clone(), other.clone(), all[1].clone()], 1),
        Some(other)
    );
}

#[test]
fn chunk_is_asked_for_by_the_identifier_of_its_shard() {
    let block = block(5, (4, 2));
    let all = shards(&block);
    let layer = layer();
    for shard in &all {
        let query = layer.chunk_query(block.commitment(), shard.chunk().index);
        assert_eq!(query.commitment, block.commitment());
        assert_eq!(query.digest, Some(shard.digest()));
        assert_eq!(layer.subscribe_chunk(block.commitment(), shard.chunk().index), query);
    }
    assert_eq!(layer.get_chunk(&pick(&all, &[2, 0])), Some(all[2].clone()));
    assert_eq!(layer.get_chunk(&vec![]), None);
}

#[test]
fn shards_reconstruct_after_the_wire() {
    let block = block(5, (7, 3));
    let received: Vec<Shard> = shards(&block)[2..5]
        .iter()
        .map(|s| Shard::decode(&s.encode()).unwrap())
        .collect();
    let done = layer().try_reconstruct(&block.commitment(), received).unwrap().unwrap();
    assert_eq!(done.block, block);
}

#[test]
fn subscriptions_keep_blocks_apart() {
    let (a, b) = (hash(b"a"), hash(b"b"));
    let mut subscriptions: Subscriptions<u8> = Subscriptions::new();
    assert!(subscriptions.take(&a).is_empty());
    subscriptions.join(a, 1);
    subscriptions.join(b, 2);
    subscriptions.join(a, 3);
    assert_eq!(subscriptions.take(&a), vec![1, 3]);
    assert!(subscriptions.take(&a).is_empty());
    assert_eq!(subscriptions.take(&b), vec![2]);
}
