//! The hash functions that placement decisions rest on, and fresh plan identities.
use vstd::prelude::*;

verus! {

/// The 64-bit XXH3 hash of some bytes under a seed.
pub uninterp spec fn xxh3_64(bytes: Seq<u8>, seed: u64) -> u64;

/// The 32 bytes of the BLAKE3 hash of some bytes.
pub uninterp spec fn blake3_digest(bytes: Seq<u8>) -> Seq<u8>;

/// Calls `xxhash_rust::xxh3::xxh3_64_with_seed`. Its result depends on the bytes and the
/// seed alone; what it is for given bytes is left to the name `xxh3_64`.
#[verifier::external_body]
pub(crate) fn xxh3_64_with_seed(bytes: &[u8], seed: u64) -> (hash: u64)
    ensures
        hash == xxh3_64(bytes@, seed),
{
    xxhash_rust::xxh3::xxh3_64_with_seed(bytes, seed)
}

/// Calls `blake3::hash` and takes the bytes of the hash. There are 32 of them, and they
/// depend on the hashed bytes alone; what they are is left to the name `blake3_digest`.
#[verifier::external_body]
pub(crate) fn blake3_hash(bytes: &[u8]) -> (digest: [u8; 32])
    ensures
        digest@ == blake3_digest(bytes@),
{
    *blake3::hash(bytes).as_bytes()
}

/// Calls `uuid::Uuid::new_v4` and takes the value as a number. It is random but for the
/// version, which is four, and the variant, whose two bits are one and zero. On a machine that
/// yields no random numbers the call does not return.
#[verifier::external_body]
pub(crate) fn fresh_id() -> (id: u128)
    ensures
        (id >> 76u128) & 0xfu128 == 4u128,
        (id >> 62u128) & 0x3u128 == 2u128,
{
    uuid::Uuid::new_v4().as_u128()
}

} // verus!
