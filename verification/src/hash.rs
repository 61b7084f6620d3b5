//! Hashing.

use commonware_cryptography::{Hasher, Sha256};
use vstd::prelude::*;

use crate::types::Digest;

verus! {

/// The digest that hashing a message gives.
pub uninterp spec fn sha256_of(message: Seq<u8>) -> Seq<u8>;

/// Hashes a message.
///
/// Calls `Sha256::hash` of `commonware_cryptography`, and claims that the digest depends on the
/// message alone.
#[verifier::external_body]
pub(crate) fn sha256(message: &[u8]) -> (r: Digest)
    ensures
        r@ == sha256_of(message@),
{
    Digest(Sha256::hash(message).0)
}

} // verus!
