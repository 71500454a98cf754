//! The key router: a deterministic hash of a key's bytes, reduced to a shard index.

use std::hash::Hasher;
use vstd::prelude::*;
use vstd::utf8::encode_utf8;

verus! {

/// The 64-bit FNV offset basis: the hash of the empty byte string.
pub const FNV_OFFSET_BASIS: u64 = 0xcbf29ce484222325;

/// The 64-bit FNV prime.
pub const FNV_PRIME: u64 = 0x100000001b3;

/// One round of FNV-1a: fold the byte into the state by xor, then multiply by
/// the FNV prime modulo 2^64.
pub open spec fn fnv1a_step(hash: u64, byte: u8) -> u64 {
    (((hash ^ (byte as u64)) * FNV_PRIME) % 0x1_0000_0000_0000_0000) as u64
}

/// The 64-bit FNV-1a hash of a byte string: the rounds are applied to the
/// bytes in order, starting from the offset basis.
pub open spec fn fnv1a(bytes: Seq<u8>) -> u64
    decreases bytes.len(),
{
    if bytes.len() == 0 {
        FNV_OFFSET_BASIS
    } else {
        fnv1a_step(fnv1a(bytes.drop_last()), bytes.last())
    }
}

/// The hash of a key: FNV-1a over the key's UTF-8 encoding.
pub open spec fn key_hash(key: Seq<char>) -> u64 {
    fnv1a(encode_utf8(key))
}

/// The shard that a key is routed to among `shards` shards.
pub open spec fn shard_index(key: Seq<char>, shards: nat) -> nat {
    key_hash(key) as nat % shards
}

/// Feeds `bytes` to a fresh `fnv::FnvHasher` (`FnvHasher::default`, then
/// `Hasher::write`, then `Hasher::finish`). Trusted: the hasher starts from the
/// FNV offset basis, `write` applies one FNV-1a round per byte in order, and
/// `finish` hands back the state, so the result is `fnv1a` of the bytes.
#[verifier::external_body]
fn fnv_hash(bytes: &[u8]) -> (hash: u64)
    ensures
        hash == fnv1a(bytes@),
{
    let mut hasher = fnv::FnvHasher::default();
    hasher.write(bytes);
    hasher.finish()
}

/// Hashes a key: the 64-bit FNV-1a hash of its UTF-8 bytes.
pub fn hash_for_key(key: &str) -> (hash: u64)
    ensures
        hash == key_hash(key@),
{
    fnv_hash(key.as_bytes())
}

/// Routes a key to a shard: its hash modulo the number of shards. The same key
/// and shard count always give the same index.
pub fn shard_from_key(key: &str, shards: u64) -> (index: u64)
    requires
        shards >= 1,
    ensures
        index == shard_index(key@, shards as nat),
        index < shards,
{
    hash_for_key(key) % shards
}

} // verus!
