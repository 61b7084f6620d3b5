//! Shards, chunks, coded blocks and envelopes.

use commonware_codec::{DecodeExt, Encode, EncodeSize};
use commonware_coding::reed_solomon;
use commonware_cryptography::{Hasher, Sha256};
use marshal::block::{self, Block as _};
use marshal::codec::CodecError;
use marshal::coding::chunk::Chunk;
use marshal::coding::coded_block::{is_coded_data_readable, CodedBlock};
use marshal::coding::erasure::is_codable;
use marshal::coding::shard::{shard_uuid, Shard, MAX_SHARD_SIZE};
use marshal::envelope;
use marshal::mocks::Block;
use marshal::types::Digest;

fn hash(data: &[u8]) -> Digest {
    Digest(Sha256::hash(data).0)
}

fn encode(total: u16, min: u16, data: &[u8]) -> (Digest, Vec<Chunk>) {
    let (root, chunks) = reed_solomon::encode::<Sha256>(total, min, data.to_vec()).unwrap();
    let chunks = chunks
        .into_iter()
        .map(|c| Chunk {
            shard: c.shard,
            index: c.index,
            siblings: c.proof.siblings.iter().map(|d| Digest(d.0)).collect(),
        })
        .collect();
    (Digest(root.0), chunks)
}

#[test]
fn test_codec_roundtrip() {
    const MOCK_BLOCK_DATA: &[u8] = b"commonware bit twiddling club";
    const CONFIG: (u16, u16) = (4, 2);

    let inner = Block::new(hash(MOCK_BLOCK_DATA), 0xFE, 0xFF);
    let block = envelope::CodedBlock::new(inner, CONFIG);

    let encoded = block::encode(&block);
    let decoded =
        block::decode_cfg::<envelope::CodedBlock<Block>>(encoded.as_slice(), &()).unwrap();

    assert_eq!(block, decoded);
}

#[test]
fn test_shard_codec_roundtrip() {
    const MOCK_BLOCK_DATA: &[u8] = b"commonware supremacy";
    const CONFIG: (u16, u16) = (2, 1);

    let (commitment, chunks) = encode(CONFIG.0, CONFIG.1, MOCK_BLOCK_DATA);
    let broadcast_chunk = Shard::new(commitment, CONFIG, chunks[0].clone());

    let encoded = broadcast_chunk.encode();
    let decoded = Shard::decode(&encoded[..]).unwrap();
    assert_eq!(broadcast_chunk, decoded);
}

#[test]
fn test_coded_block_codec_roundtrip() {
    const MOCK_BLOCK_DATA: &[u8] = b"commonware bit twiddling club";
    const CONFIG: (u16, u16) = (4, 2);

    let inner = Block::new(hash(MOCK_BLOCK_DATA), 0xFE, 0xFF);
    let block = CodedBlock::new(inner, CONFIG);

    let encoded = block::encode(&block);
    let decoded = block::decode_cfg::<CodedBlock<Block>>(encoded.as_slice(), &()).unwrap();

    assert_eq!(block, decoded);
}

#[test]
fn oversized_chunk_is_refused_on_reading() {
    let large = vec![0u8; MAX_SHARD_SIZE + 1];
    let (commitment, chunks) = encode(2, 1, &large);
    // Data and length prefix, rounded up to an even number of bytes.
    assert_eq!(chunks[0].shard.len(), MAX_SHARD_SIZE + 6);

    let mut bytes = commitment.0.to_vec();
    bytes.extend_from_slice(&[0, 2, 0, 1]);
    bytes.extend_from_slice(
        &reed_solomon::encode::<Sha256>(2, 1, large).unwrap().1[0].shard.encode(),
    );
    assert_eq!(
        Shard::decode(&bytes),
        Err(CodecError::InvalidLength(MAX_SHARD_SIZE + 6))
    );
}

#[test]
fn largest_chunk_is_read() {
    let chunk = Chunk { shard: vec![7u8; MAX_SHARD_SIZE], index: 9, siblings: vec![] };
    let shard = Shard::new(hash(b"large"), (4, 2), chunk);
    let encoded = shard.encode();
    // Commitment, configuration, three bytes of length, data, index, no siblings.
    assert_eq!(encoded.len(), 32 + 4 + 3 + MAX_SHARD_SIZE + 2 + 1);
    assert_eq!(shard.encode_size(), encoded.len());
    assert_eq!(Shard::decode(&encoded), Ok(shard));
}

#[test]
fn shard_encoding_is_exact() {
    let sibling = Digest([5u8; 32]);
    let chunk = Chunk { shard: vec![1, 2, 3], index: 0x0102, siblings: vec![sibling] };
    let shard = Shard::new(Digest([9u8; 32]), (0x0304, 0x0506), chunk);

    let mut expected = vec![9u8; 32];
    expected.extend_from_slice(&[3, 4, 5, 6]);
    expected.extend_from_slice(&[3, 1, 2, 3]);
    expected.extend_from_slice(&[1, 2]);
    expected.push(1);
    expected.extend_from_slice(&[5u8; 32]);
    assert_eq!(shard.encode(), expected);
    assert_eq!(shard.encode_size(), expected.len());

    // The chunk alone is what the coder itself writes.
    let (_, coded) = reed_solomon::encode::<Sha256>(5, 2, b"across the wire".to_vec()).unwrap();
    let (root, chunks) = encode(5, 2, b"across the wire");
    for i in 0..5 {
        let shard = Shard::new(root, (5, 2), chunks[i].clone());
        assert_eq!(shard.encode()[36..], coded[i].encode()[..]);
        assert_eq!(shard.encode_size() - 36, coded[i].encode_size());
    }
}

#[test]
fn shard_ends_early() {
    let (root, chunks) = encode(5, 2, b"across the wire");
    let encoded = Shard::new(root, (5, 2), chunks[3].clone()).encode();
    for n in 0..encoded.len() {
        assert_eq!(Shard::decode(&encoded[..n]), Err(CodecError::EndOfBuffer));
    }
}

#[test]
fn shard_leaves_data_over() {
    let (root, chunks) = encode(5, 2, b"across the wire");
    let shard = Shard::new(root, (5, 2), chunks[3].clone());
    let mut encoded = shard.encode();
    let n = encoded.len();
    encoded.extend_from_slice(&[1, 2, 3]);
    assert_eq!(Shard::decode(&encoded), Err(CodecError::ExtraData(3)));
    assert_eq!(Shard::read_cfg(&encoded), Ok((shard, n)));
}

#[test]
fn lengths_have_one_encoding_only() {
    let mut bytes = vec![0u8; 36];
    // Zero written in two bytes.
    bytes.extend_from_slice(&[0x80, 0x00, 0, 0, 0]);
    assert_eq!(Shard::decode(&bytes), Err(CodecError::InvalidVarint(4)));
    // More bits than a length has.
    let mut bytes = vec![0u8; 36];
    bytes.extend_from_slice(&[0xFF, 0xFF, 0xFF, 0xFF, 0x7F, 0, 0, 0]);
    assert_eq!(Shard::decode(&bytes), Err(CodecError::InvalidVarint(4)));
}

#[test]
fn too_many_siblings_are_refused_on_reading() {
    let siblings = vec![Digest([1u8; 32]); 256];
    let chunk = Chunk { shard: vec![1, 2], index: 0, siblings };
    let encoded = Shard::new(hash(b"deep"), (4, 2), chunk).encode();
    assert_eq!(Shard::decode(&encoded), Err(CodecError::InvalidLength(256)));

    let siblings = vec![Digest([1u8; 32]); 255];
    let chunk = Chunk { shard: vec![1, 2], index: 0, siblings };
    let shard = Shard::new(hash(b"deep"), (4, 2), chunk);
    assert_eq!(Shard::decode(&shard.encode()), Ok(shard));
}

#[test]
fn shard_identifier_hashes_commitment_and_index() {
    let commitment = hash(b"identified");
    let mut preimage = commitment.0.to_vec();
    preimage.extend_from_slice(&0x0102u16.to_le_bytes());
    assert_eq!(shard_uuid(&commitment, 0x0102), hash(&preimage));

    let chunk = Chunk { shard: vec![], index: 0x0102, siblings: vec![] };
    let shard = Shard::new(commitment, (4, 2), chunk);
    assert_eq!(shard.digest(), hash(&preimage));
    assert_ne!(shard_uuid(&commitment, 0x0201), shard.digest());
    assert_ne!(shard_uuid(&hash(b"another"), 0x0102), shard.digest());
}

#[test]
fn shard_gives_its_parts() {
    let (root, chunks) = encode(4, 2, b"in parts");
    let shard = Shard::new(root, (4, 2), chunks[1].clone());
    assert_eq!(shard.commitment(), root);
    assert_eq!(shard.config(), (4, 2));
    assert_eq!(*shard.chunk(), chunks[1]);
    assert_eq!(shard.index, 1);
    assert_eq!(shard.clone(), shard);
    assert!(shard != Shard::new(root, (4, 2), chunks[2].clone()));
    assert!(shard != Shard::new(root, (4, 3), chunks[1].clone()));
    assert!(shard != Shard::new(hash(b""), (4, 2), chunks[1].clone()));
}

#[test]
fn contained_shards_are_told_from_others() {
    let (root, chunks) = encode(4, 2, b"contained or not");
    for chunk in &chunks {
        assert!(Shard::new(root, (4, 2), chunk.clone()).is_contained());
    }
    assert!(!Shard::new(hash(b""), (4, 2), chunks[0].clone()).is_contained());
    let mut altered = chunks[0].clone();
    altered.shard[0] ^= 1;
    assert!(!Shard::new(root, (4, 2), altered).is_contained());
    let mut moved = chunks[0].clone();
    moved.index = 1;
    assert!(!Shard::new(root, (4, 2), moved).is_contained());
}

#[test]
fn commitment_is_the_root_over_the_siblings() {
    let (root, chunks) = encode(11, 4, b"a path of digests to the root");
    for chunk in &chunks {
        let mut position = chunk.index as u32;
        let mut node =
            hash(&[position.to_be_bytes().as_slice(), hash(&chunk.shard).0.as_slice()].concat());
        for sibling in &chunk.siblings {
            node = if position % 2 == 0 {
                hash(&[node.0, sibling.0].concat())
            } else {
                hash(&[sibling.0, node.0].concat())
            };
            position /= 2;
        }
        assert_eq!(node, root);
        assert!(Shard::new(root, (11, 4), chunk.clone()).is_contained());
        // The path belongs to one position only.
        let mut moved = chunk.clone();
        moved.index ^= 1;
        assert!(!Shard::new(root, (11, 4), moved).is_contained());
    }
}

#[test]
fn coded_block_is_what_the_coder_makes_of_its_bytes() {
    let inner = Block::new(hash(b"parent"), 0x0102030405060708, 9);
    let block = CodedBlock::new(inner, (5, 2));

    let mut data = hash(b"parent").0.to_vec();
    data.extend_from_slice(&[1, 2, 3, 4, 5, 6, 7, 8]);
    data.extend_from_slice(&[0, 0, 0, 0, 0, 0, 0, 9]);
    let digest = hash(&data);
    data.extend_from_slice(&[0, 5, 0, 2]);
    assert_eq!(block::encode(&block), data);
    assert_eq!(block.encode_size(), data.len());

    let (root, chunks) = encode(5, 2, &data);
    assert_eq!(block.commitment(), root);
    assert_eq!(block.chunks(), chunks.as_slice());
    // 52 bytes and their length in two pieces.
    assert!(block.chunks().iter().all(|c| c.shard.len() == 28));
    assert_eq!(block.config(), (5, 2));
    assert_eq!(block.digest(), digest);
    assert_eq!(block.height(), 0x0102030405060708);
    assert_eq!(block.parent(), hash(b"parent"));
    assert_eq!(*block.inner(), inner);
    assert_eq!(block.clone(), block);
    assert_eq!(block.take_inner(), inner);
}

#[test]
fn envelope_agrees_with_coded_block() {
    let inner = Block::new(hash(b"parent"), 3, 4);
    let coded = CodedBlock::new(inner, (7, 3));
    let enveloped = envelope::CodedBlock::new(inner, (7, 3));
    assert_eq!(enveloped.commitment(), coded.commitment());
    assert_eq!(block::encode(&enveloped), block::encode(&coded));
    assert_eq!(enveloped.encode_size(), 52);
    assert_eq!(enveloped.digest(), coded.digest());
    assert_eq!(enveloped.height(), 3);
    assert_eq!(enveloped.parent(), hash(b"parent"));
    assert_eq!(*enveloped.inner(), inner);
    assert_eq!(enveloped.clone(), enveloped);
    assert!(enveloped != envelope::CodedBlock::new(inner, (7, 2)));
    assert!(enveloped != envelope::CodedBlock::new(Block::new(hash(b""), 3, 4), (7, 3)));
}

#[test]
fn coded_blocks_agree() {
    let inner = Block::new(hash(b"parent"), 3, 4);
    let block = CodedBlock::new(inner, (6, 4));
    let other = CodedBlock::new(inner, (6, 4));
    assert_eq!(block, other);
    assert_eq!(block.commitment(), other.commitment());
    assert_eq!(block.chunks(), other.chunks());
}

#[test]
fn equal_by_block_and_configuration() {
    let inner = Block::new(hash(b"parent"), 3, 4);
    let (x, y) = (CodedBlock::new(inner, (4, 2)), CodedBlock::new(inner, (4, 2)));
    assert!(x == x && x == y && y == x);
    assert_eq!(block::encode(&x), block::encode(&y));
    let z = CodedBlock::new(inner, (4, 3));
    assert!(x != z && z != x);
    assert_eq!(x.inner(), z.inner());
    assert_eq!(x.digest(), z.digest());

    let (x, y) =
        (envelope::CodedBlock::new(inner, (4, 2)), envelope::CodedBlock::new(inner, (4, 2)));
    assert!(x == x && x == y && y == x);
    assert_eq!(block::encode(&x), block::encode(&y));
    assert_eq!(x.commitment(), y.commitment());
    let z = envelope::CodedBlock::new(inner, (4, 3));
    assert!(x != z && z != x);
    assert_eq!(x.digest(), z.digest());
}

#[test]
fn coded_blocks_differ_by_block_and_configuration() {
    let inner = Block::new(hash(b"parent"), 3, 4);
    let block = CodedBlock::new(inner, (4, 2));
    assert!(block != CodedBlock::new(inner, (4, 3)));
    assert!(block != CodedBlock::new(Block::new(hash(b"parent"), 3, 5), (4, 2)));
    assert_ne!(block.commitment(), CodedBlock::new(inner, (4, 3)).commitment());
}

#[test]
fn coded_block_ends_early_or_leaves_data_over() {
    let block = CodedBlock::new(Block::new(hash(b"parent"), 3, 4), (4, 2));
    let mut bytes = block::encode(&block);
    for n in 0..bytes.len() {
        let r = block::decode_cfg::<CodedBlock<Block>>(&bytes[..n], &());
        assert_eq!(r, Err(CodecError::EndOfBuffer));
        let r = block::decode_cfg::<envelope::CodedBlock<Block>>(&bytes[..n], &());
        assert_eq!(r, Err(CodecError::EndOfBuffer));
    }
    bytes.push(0);
    let r = block::decode_cfg::<CodedBlock<Block>>(&bytes, &());
    assert_eq!(r, Err(CodecError::ExtraData(1)));
    assert_eq!(CodedBlock::<Block>::read_cfg(&bytes, &()), Ok((block, 52)));
}

#[test]
fn unusable_configurations_are_not_readable() {
    let block = CodedBlock::new(Block::new(hash(b"parent"), 3, 4), (4, 2));
    let bytes = block::encode(&block);
    assert!(is_coded_data_readable::<Block>(&bytes, &()));
    assert!(CodedBlock::<Block>::is_readable(&bytes[..10], &()));
    for config in
        [[0, 0, 0, 0], [0, 2, 0, 0], [0, 2, 0, 2], [0, 2, 0, 3], [0xFF, 0xFF, 0x9C, 0x40]]
    {
        let mut bytes = bytes.clone();
        bytes[48..].copy_from_slice(&config);
        assert!(!CodedBlock::<Block>::is_readable(&bytes, &()));
        assert!(!envelope::CodedBlock::<Block>::is_readable(&bytes, &()));
    }
}

#[test]
fn codable_configurations_are_those_of_the_coder() {
    for (total, min) in [(2, 1), (3, 1), (100, 99), (65535, 32767), (65535, 32768), (65535, 1)] {
        assert!(is_codable((total, min), 4), "{total} {min}");
        assert!(reed_solomon::encode::<Sha256>(total, min, vec![1, 2, 3, 4]).is_ok());
    }
    // 16384 pieces are extended as if they were a power of two.
    assert!(is_codable((65535, 16384), 4));
    for (total, min) in [(65535, 40000), (65535, 16385 + 16384)] {
        assert!(!is_codable((total, min), 4), "{total} {min}");
        assert!(reed_solomon::encode::<Sha256>(total, min, vec![1, 2, 3, 4]).is_err());
    }
    for config in [(0, 0), (1, 0), (1, 1), (1, 2)] {
        assert!(!is_codable(config, 4));
    }
    assert!(is_codable((4, 2), u32::MAX as usize));
    assert!(!is_codable((4, 2), u32::MAX as usize + 1));
}

#[test]
fn chunks_are_of_one_even_length() {
    for (min, len, expected) in
        [(1u16, 20usize, 24usize), (1, 21, 26), (2, 0, 2), (3, 5, 4), (2, 52, 28)]
    {
        let (_, chunks) = encode(min + 2, min, &vec![1u8; len]);
        assert_eq!(chunks.len(), min as usize + 2);
        for (i, chunk) in chunks.iter().enumerate() {
            assert_eq!(chunk.index as usize, i);
            assert_eq!(chunk.shard.len(), expected, "{min} {len}");
        }
    }
}

#[test]
fn mock_block_reads_back() {
    let block = Block::new(hash(b"parent"), u64::MAX, 0x8000000000000001);
    let bytes = block::encode(&block);
    assert_eq!(bytes.len(), 48);
    assert_eq!(block.commitment(), hash(&bytes));
    assert_eq!(block.duplicate(), block);
    assert_eq!(Block::read_cfg(&bytes, &()), Ok((block, 48)));
    assert_eq!(Block::read_cfg(&bytes[..47], &()), Err(CodecError::EndOfBuffer));
    // Integers are written as the codec writes them.
    assert_eq!(u64::decode(&bytes[40..]).unwrap(), 0x8000000000000001);
}
