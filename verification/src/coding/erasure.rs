//! The erasure coder: from bytes to chunks, and from enough chunks back to the bytes.

use commonware_coding::reed_solomon::{self, decode, encode, Error};
use commonware_cryptography::{sha256, Sha256};
use commonware_storage::bmt;
use vstd::arithmetic::power2::pow2;
use vstd::prelude::*;

use crate::codec::u16_be;
use crate::coding::chunk::{chunks_view, Chunk, ChunkView, MAX_SIBLINGS};
use crate::hash::sha256_of;
use crate::types::Digest;

verus! {

/// Why chunks could not be decoded.
#[derive(Clone, Debug, PartialEq, Eq)]
pub enum CodingError {
    /// The coder refused its input, with this message.
    ReedSolomon(String),
    /// The recovered data does not lead to the root.
    Inconsistent,
    /// A chunk is not proven by the root.
    InvalidProof,
    /// There are fewer chunks than the minimum.
    NotEnoughChunks,
    /// Two chunks have this index.
    DuplicateIndex(u16),
    /// Data of this length cannot be coded.
    InvalidDataLength(usize),
    /// There is no chunk of this index.
    InvalidIndex(u16),
}

/// The largest number of shards over which the coder can work.
pub const CODER_ORDER: u32 = 65536;

/// Whether the coder can extend `k` pieces by `m`: the smaller count, rounded up to a power of
/// two, and the larger one together stay within the order of its field.
pub open spec fn supports(k: int, m: int) -> bool {
    exists|e: nat|
        {
            &&& (if k < m { k } else { m }) <= #[trigger] pow2(e)
            &&& pow2(e) + (if k < m { m } else { k }) <= CODER_ORDER
        }
}

/// Whether `len` bytes can be coded into `config.0` chunks of which any `config.1` suffice.
pub open spec fn codable(config: (u16, u16), len: nat) -> bool {
    &&& 0 < config.1 < config.0
    &&& len <= u32::MAX
    &&& supports(config.1 as int, config.0 - config.1)
}

/// The number of coded bytes in each chunk of `len` bytes: the data and its 32-bit length, cut
/// into `min` pieces of even length.
pub open spec fn shard_len(min: u16, len: nat) -> nat
    recommends
        min > 0,
{
    let q = (len + 4 + min - 1) / (min as int);
    (q + q % 2) as nat
}

/// Whether `subset` holds chunks out of `chunks`, each of them at most once.
pub open spec fn drawn_from(chunks: Seq<ChunkView>, subset: Seq<ChunkView>) -> bool {
    &&& forall|i: int|
        0 <= i < subset.len() ==> (#[trigger] subset[i]).index < chunks.len() && subset[i]
            == chunks[subset[i].index as int]
    &&& forall|i: int, j: int|
        0 <= i < j < subset.len() ==> (#[trigger] subset[i]).index != (#[trigger] subset[j]).index
}

/// The root of a binary tree of digests that the node at a position leads to: the node is hashed
/// with its sibling, the left one of the two first, level by level.
pub open spec fn path_root(node: Seq<u8>, position: nat, siblings: Seq<Seq<u8>>) -> Seq<u8>
    decreases siblings.len(),
{
    if siblings.len() == 0 {
        node
    } else {
        let sibling = siblings.first();
        let parent = sha256_of(
            if position % 2 == 0 {
                node + sibling
            } else {
                sibling + node
            },
        );
        path_root(parent, position / 2, siblings.drop_first())
    }
}

/// The leaf that stands for a chunk: its index, as 32 bits in big-endian order, and the digest of
/// its coded bytes, hashed together.
pub open spec fn leaf_of(chunk: ChunkView) -> Seq<u8> {
    sha256_of(seq![0u8, 0u8] + u16_be(chunk.index) + sha256_of(chunk.shard))
}

/// Whether a chunk is proven to stand at its index under a root.
pub open spec fn proven(root: Seq<u8>, chunk: ChunkView) -> bool {
    path_root(leaf_of(chunk), chunk.index as nat, chunk.siblings) == root
}

/// Whether each chunk has an index below `total` and is proven by the root, and none has the index
/// of another.
pub open spec fn authentic(total: u16, root: Seq<u8>, chunks: Seq<ChunkView>) -> bool {
    &&& forall|i: int|
        0 <= i < chunks.len() ==> (#[trigger] chunks[i]).index < total && proven(root, chunks[i])
    &&& forall|i: int, j: int|
        0 <= i < j < chunks.len() ==> (#[trigger] chunks[i]).index != (#[trigger] chunks[j]).index
}

/// Whether any `min` or more of the chunks decode to `data` under `root`.
pub open spec fn recoverable(
    config: (u16, u16),
    root: Seq<u8>,
    chunks: Seq<ChunkView>,
    data: Seq<u8>,
) -> bool {
    forall|subset: Seq<ChunkView>|
        #![trigger rs_decoding(config.0, config.1, root, subset)]
        drawn_from(chunks, subset) && subset.len() >= config.1 ==> rs_decoding(
            config.0,
            config.1,
            root,
            subset,
        ) == Ok::<Seq<u8>, CodingError>(data)
}

/// Whether `chunks` are the numbered pieces of `len` coded bytes, all of one length.
pub open spec fn numbered(config: (u16, u16), chunks: Seq<ChunkView>, len: nat) -> bool {
    &&& chunks.len() == config.0
    &&& forall|i: int|
        0 <= i < chunks.len() ==> {
            &&& (#[trigger] chunks[i]).index == i
            &&& chunks[i].shard.len() == shard_len(config.1, len)
            &&& chunks[i].siblings.len() <= MAX_SIBLINGS
            &&& chunks[i].has_digests()
        }
}

/// The root and the chunks that `data` is coded into.
pub uninterp spec fn rs_encoding(total: u16, min: u16, data: Seq<u8>) -> (
    Seq<u8>,
    Seq<ChunkView>,
);

/// What decoding chunks under a root returns.
pub uninterp spec fn rs_decoding(
    total: u16,
    min: u16,
    root: Seq<u8>,
    chunks: Seq<ChunkView>,
) -> Result<Seq<u8>, CodingError>;

/// Tells whether a chunk is proven to stand at its index under a root.
///
/// Calls `Chunk::verify` of `commonware_coding` with the index of the chunk, and claims that it
/// tells whether the leaf of the chunk leads to the root along the siblings.
#[verifier::external_body]
pub(crate) fn verify_chunk(chunk: &Chunk, root: &Digest) -> (r: bool)
    ensures
        r == proven(root@, chunk@),
{
    let siblings = chunk.siblings.iter().map(|d| sha256::Digest(d.0)).collect();
    let path = bmt::Proof::<Sha256> { siblings };
    let coded = reed_solomon::Chunk::new(chunk.shard.clone(), chunk.index, path);
    coded.verify(chunk.index, &sha256::Digest(root.0))
}

/// Whether chunks of which one suffices all hold two bytes, and the root proves them. The coder
/// makes no such chunks: they have no room for the 32-bit length of the data.
pub open spec fn too_short(config: (u16, u16), root: Seq<u8>, chunks: Seq<ChunkView>) -> bool {
    &&& config.1 == 1
    &&& chunks.len() > 0
    &&& forall|i: int| 0 <= i < chunks.len() ==> (#[trigger] chunks[i]).shard.len() == 2
    &&& authentic(config.0, root, chunks)
}

/// The data that chunks decode to under a root, or why they do not. Chunks that are too short are
/// inconsistent: no data was coded into them.
pub open spec fn decoding(config: (u16, u16), root: Seq<u8>, chunks: Seq<ChunkView>) -> Result<
    Seq<u8>,
    CodingError,
> {
    if too_short(config, root, chunks) {
        Err(CodingError::Inconsistent)
    } else {
        rs_decoding(config.0, config.1, root, chunks)
    }
}

/// Codes `data` into `config.0` chunks of which any `config.1` suffice to get it back, and a root
/// that commits to them.
///
/// Calls `reed_solomon::encode` of `commonware_coding`, and claims that on these inputs it
/// succeeds; that root and chunks depend on the arguments alone; that the chunks are numbered from
/// zero, of one length and proven by the root; and that `reed_solomon::decode` gives the data back
/// from any large enough choice of them. What the root and the coded bytes are is only named.
#[verifier::external_body]
pub(crate) fn encode_chunks(config: (u16, u16), data: Vec<u8>) -> (r: (Digest, Vec<Chunk>))
    requires
        codable(config, data@.len()),
    ensures
        (r.0@, chunks_view(r.1@)) == rs_encoding(config.0, config.1, data@),
        numbered(config, chunks_view(r.1@), data@.len()),
        authentic(config.0, r.0@, chunks_view(r.1@)),
        recoverable(config, r.0@, chunks_view(r.1@), data@),
{
    let (root, coded) = encode::<Sha256>(config.0, config.1, data).expect("failed to commit");
    let chunks = coded.into_iter().map(|c| {
        let siblings = c.proof.siblings.iter().map(|d| Digest(d.0)).collect();
        Chunk { shard: c.shard, index: c.index, siblings }
    });
    (Digest(root.0), chunks.collect())
}

/// Decodes the data that chunks were coded from.
///
/// Calls `reed_solomon::decode` of `commonware_coding`, and claims that its result depends on the
/// arguments alone, and that it decodes no chunks of which one has an index out of range or is not
/// proven by the root, or two have the same index. It panics unless the minimum is positive and
/// below the total. On a minimum of one it can panic too where all the chunks pass these checks and
/// hold two bytes, which are too few for the length of the data.
#[verifier::external_body]
pub(crate) fn decode_chunks(config: (u16, u16), root: &Digest, chunks: Vec<Chunk>) -> (r: Result<
    Vec<u8>,
    CodingError,
>)
    requires
        0 < config.1 < config.0,
        !too_short(config, root@, chunks_view(chunks@)),
    ensures
        match rs_decoding(config.0, config.1, root@, chunks_view(chunks@)) {
            Ok(data) => r is Ok && r->Ok_0@ == data,
            Err(e) => r is Err && r->Err_0 == e,
        },
        r is Ok ==> authentic(config.0, root@, chunks_view(chunks@)),
{
    let coded = chunks.into_iter().map(|c| {
        let siblings = c.siblings.iter().map(|d| sha256::Digest(d.0)).collect();
        reed_solomon::Chunk::new(c.shard, c.index, bmt::Proof { siblings })
    });
    let root = sha256::Digest(root.0);
    decode::<Sha256>(config.0, config.1, &root, coded.collect()).map_err(|e| match e {
        Error::ReedSolomon(e) => CodingError::ReedSolomon(e.to_string()),
        Error::Inconsistent => CodingError::Inconsistent,
        Error::InvalidProof => CodingError::InvalidProof,
        Error::NotEnoughChunks => CodingError::NotEnoughChunks,
        Error::DuplicateIndex(i) => CodingError::DuplicateIndex(i),
        Error::InvalidDataLength(n) => CodingError::InvalidDataLength(n),
        Error::InvalidIndex(i) => CodingError::InvalidIndex(i),
    })
}

/// Tells whether each chunk has an index below `total` and is proven by the root, and none has the
/// index of another.
pub fn is_authentic(total: u16, root: &Digest, chunks: &Vec<Chunk>) -> (r: bool)
    ensures
        r == authentic(total, root@, chunks_view(chunks@)),
{
    let ghost views = chunks_view(chunks@);
    let mut i: usize = 0;
    while i < chunks.len()
        invariant
            i <= chunks@.len(),
            views == chunks_view(chunks@),
            forall|a: int|
                0 <= a < i ==> (#[trigger] views[a]).index < total && proven(root@, views[a]),
            forall|a: int, b: int|
                0 <= a < b < i ==> (#[trigger] views[a]).index != (#[trigger] views[b]).index,
        decreases chunks@.len() - i,
    {
        assert(views[i as int] == chunks@[i as int]@);
        if chunks[i].index >= total || !verify_chunk(&chunks[i], root) {
            return false;
        }
        let mut j: usize = 0;
        while j < i
            invariant
                j <= i < chunks@.len(),
                views == chunks_view(chunks@),
                forall|a: int| 0 <= a < j ==> (#[trigger] views[a]).index != views[i as int].index,
            decreases i - j,
        {
            assert(views[j as int] == chunks@[j as int]@);
            assert(views[i as int] == chunks@[i as int]@);
            if chunks[j].index == chunks[i].index {
                return false;
            }
            j += 1;
        }
        i += 1;
    }
    true
}

/// Tells whether chunks of which one suffices all hold two bytes, and the root proves them.
fn is_too_short(config: (u16, u16), root: &Digest, chunks: &Vec<Chunk>) -> (r: bool)
    ensures
        r == too_short(config, root@, chunks_view(chunks@)),
{
    let ghost views = chunks_view(chunks@);
    if config.1 != 1 || chunks.len() == 0 {
        return false;
    }
    let mut i: usize = 0;
    while i < chunks.len()
        invariant
            i <= chunks@.len(),
            views == chunks_view(chunks@),
            forall|a: int| 0 <= a < i ==> (#[trigger] views[a]).shard.len() == 2,
        decreases chunks@.len() - i,
    {
        assert(views[i as int] == chunks@[i as int]@);
        if chunks[i].shard.len() != 2 {
            return false;
        }
        i += 1;
    }
    is_authentic(config.0, root, chunks)
}

/// Decodes the data that chunks were coded from.
///
/// The decoder is not run on chunks that are too short. It either finds those inconsistent, or does
/// not return.
pub fn decode_data(config: (u16, u16), root: &Digest, chunks: Vec<Chunk>) -> (r: Result<
    Vec<u8>,
    CodingError,
>)
    requires
        0 < config.1 < config.0,
    ensures
        match decoding(config, root@, chunks_view(chunks@)) {
            Ok(data) => r is Ok && r->Ok_0@ == data,
            Err(e) => r is Err && r->Err_0 == e,
        },
        r is Ok ==> authentic(config.0, root@, chunks_view(chunks@)),
{
    if is_too_short(config, root, &chunks) {
        return Err(CodingError::Inconsistent);
    }
    decode_chunks(config, root, chunks)
}

/// Tells whether `len` bytes can be coded under `config`.
pub fn is_codable(config: (u16, u16), len: usize) -> (r: bool)
    ensures
        r == codable(config, len as nat),
{
    let (total, min) = config;
    if min == 0 || min >= total || len > u32::MAX as usize {
        return false;
    }
    let k: u32 = min as u32;
    let m: u32 = (total - min) as u32;
    let small: u32 = if k < m { k } else { m };
    let large: u32 = if k < m { m } else { k };
    let ghost mut e: nat = 0;
    let mut p: u32 = 1;
    proof {
        vstd::arithmetic::power2::lemma2_to64();
    }
    while p < small
        invariant
            p == pow2(e),
            1 <= p <= 65536,
            small <= 32767,
            forall|f: nat| f < e ==> #[trigger] pow2(f) < small,
        decreases 65536 - p,
    {
        proof {
            vstd::arithmetic::power2::lemma_pow2_unfold(e + 1);
            e = e + 1;
        }
        p = p * 2;
    }
    proof {
        if p + large <= CODER_ORDER {
            assert(supports(k as int, m as int));
        }
        assert forall|f: nat| small <= #[trigger] pow2(f) && pow2(f) + large
            <= CODER_ORDER implies p + large <= CODER_ORDER by {
            if f > e {
                vstd::arithmetic::power2::lemma_pow2_strictly_increases(e, f);
            }
        }
    }
    p + large <= CODER_ORDER
}

} // verus!
