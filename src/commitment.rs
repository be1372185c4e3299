//! Commitments: the Keccak-256 digest of the canonical bytes, in hex.

use vstd::prelude::*;
use sha3::{Digest, Keccak256};
use crate::canonical::{canonical_bytes, canonicalize, labels};
use crate::hex::{encode_commitment, is_commitment_format, lemma_prefixed_hex_format, prefixed_hex};

verus! {

/// The Keccak-256 digest of a byte string.
pub uninterp spec fn keccak256_of(data: Seq<u8>) -> Seq<u8>;

/// Relies on sha3's `Keccak256::digest` (the `Digest` trait of the digest
/// crate): the Keccak-256 hash of `data`, whose output size is 32 bytes.
#[verifier::external_body]
fn keccak256(data: &[u8]) -> (r: Vec<u8>)
    ensures
        r@ == keccak256_of(data@),
        r@.len() == 32,
{
    Keccak256::digest(data).to_vec()
}

/// The commitment to a path and a seed: the digest of their canonical bytes,
/// rendered as `0x` and lowercase hex.
pub open spec fn commitment_of(path: Seq<Seq<char>>, seed: Seq<char>) -> Seq<char> {
    prefixed_hex(keccak256_of(canonical_bytes(path, seed)))
}

/// The commitment depends on the path's labels and the seed alone, so
/// recomputing it from the same inputs gives the same string.
pub proof fn lemma_commitment_deterministic(
    path1: Seq<Seq<char>>,
    seed1: Seq<char>,
    path2: Seq<Seq<char>>,
    seed2: Seq<char>,
)
    requires
        path1 == path2,
        seed1 == seed2,
    ensures
        commitment_of(path1, seed1) == commitment_of(path2, seed2),
        canonical_bytes(path1, seed1) == canonical_bytes(path2, seed2),
{
}

/// Computes the commitment to a solution path and its seed.
pub fn create_q_proof(path: Vec<String>, seed: String) -> (r: String)
    ensures
        r@ == commitment_of(labels(path@), seed@),
        is_commitment_format(r@),
{
    let bytes = canonicalize(&path, &seed);
    let digest = keccak256(bytes.as_slice());
    proof {
        lemma_prefixed_hex_format(digest@);
    }
    encode_commitment(&digest)
}

} // verus!
