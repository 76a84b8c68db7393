//! Digests: `sha2` and `xxhash_rust`.
use sha2::Digest;
use vstd::prelude::*;

verus! {

/// What `Sha256::digest` makes of some bytes.
pub uninterp spec fn sha256(data: Seq<u8>) -> Seq<u8>;

/// `Sha256::digest`: thirty-two bytes.
#[verifier::external_body]
pub(crate) fn sha256_digest(data: &[u8]) -> (r: Vec<u8>)
    ensures
        r@ == sha256(data@),
        r@.len() == 32,
{
    sha2::Sha256::digest(data).to_vec()
}

/// What `xxhash_rust::xxh3::xxh3_64` makes of some bytes.
pub uninterp spec fn xxh3(data: Seq<u8>) -> u64;

/// `xxhash_rust::xxh3::xxh3_64`: the hash of the bytes with the default secret.
#[verifier::external_body]
pub(crate) fn xxh3_hash(data: &[u8]) -> (r: u64)
    ensures
        r == xxh3(data@),
{
    xxhash_rust::xxh3::xxh3_64(data)
}

}
