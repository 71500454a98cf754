use shard_cache::router::hash_for_key;
use shard_cache::router::shard_from_key;

#[test]
fn hash_of_empty_key_is_offset_basis() {
    assert_eq!(hash_for_key(""), 0xcbf29ce484222325);
}

#[test]
fn hash_matches_published_vectors() {
    assert_eq!(hash_for_key("a"), 0xaf63dc4c8601ec8c);
    assert_eq!(hash_for_key("b"), 0xaf63df4c8601f1a5);
    assert_eq!(hash_for_key("foobar"), 0x85944171f73967e8);
    assert_eq!(hash_for_key("chongo was here"), 0xa3de85bd491270ce);
}

#[test]
fn hash_is_order_sensitive() {
    assert_ne!(hash_for_key("ab"), hash_for_key("ba"));
    assert_eq!(hash_for_key("fo"), 0x08985907b541d342);
}

#[test]
fn hash_covers_multibyte_keys() {
    // "é" is the two bytes 0xc3 0xa9 in UTF-8.
    let mut expected: u64 = 0xcbf29ce484222325;
    for byte in [0xc3u8, 0xa9u8] {
        expected ^= byte as u64;
        expected = expected.wrapping_mul(0x100000001b3);
    }
    assert_eq!(hash_for_key("é"), expected);
}

#[test]
fn shard_is_hash_modulo_count() {
    assert_eq!(shard_from_key("a", 1), 0);
    assert_eq!(shard_from_key("a", 3), 0xaf63dc4c8601ec8c % 3);
    assert_eq!(shard_from_key("foobar", 16), 0x85944171f73967e8 % 16);
    assert_eq!(shard_from_key("", u64::MAX), 0xcbf29ce484222325);
}

#[test]
fn shard_is_deterministic_and_in_range() {
    let keys = ["", "k", "k2", "k3", "a longer key", "ключ"];
    for shards in [1u64, 2, 3, 7, 64] {
        for key in keys {
            let index = shard_from_key(key, shards);
            assert!(index < shards);
            assert_eq!(index, shard_from_key(key, shards));
        }
    }
}
