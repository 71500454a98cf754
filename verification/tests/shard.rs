use shard_cache::shard::Shard;
use std::time::Duration;

const SEC: u128 = 1_000_000_000;

fn text(value: &str) -> Option<String> {
    Some(value.to_string())
}

#[test]
fn new_shard_is_empty() {
    let shard = Shard::new();
    assert_eq!(shard.len(), 0);
    assert_eq!(shard.queued(), 0);
    assert_eq!(shard.get_at("k", 0), None);
    assert_eq!(shard.get("k"), None);
}

#[test]
fn value_without_ttl_is_seen_at_every_time() {
    let mut shard = Shard::new();
    shard.set_at("k", "v", None, 5 * SEC);
    assert_eq!(shard.get_at("k", 0), text("v"));
    assert_eq!(shard.get_at("k", 5 * SEC), text("v"));
    assert_eq!(shard.get_at("k", u128::MAX), text("v"));
}

#[test]
fn value_without_ttl_survives_sweeps() {
    let mut shard = Shard::new();
    shard.set_at("k", "v", None, 0);
    shard.set_at("other", "x", Some(SEC), 0);
    shard.sweep_at(60 * SEC);
    shard.sweep_at(u128::MAX);
    assert_eq!(shard.get_at("k", u128::MAX), text("v"));
    assert_eq!(shard.len(), 1);
    assert_eq!(shard.queued(), 1);
}

#[test]
fn value_with_ttl_is_seen_strictly_before_its_expiry() {
    let mut shard = Shard::new();
    shard.set_at("k", "v", Some(10), 100);
    assert_eq!(shard.get_at("k", 100), text("v"));
    assert_eq!(shard.get_at("k", 109), text("v"));
    assert_eq!(shard.get_at("k", 110), None);
    assert_eq!(shard.get_at("k", 111), None);
}

#[test]
fn zero_ttl_is_never_seen() {
    let mut shard = Shard::new();
    shard.set_at("k", "v", Some(0), 7);
    assert_eq!(shard.get_at("k", 7), None);
    assert_eq!(shard.len(), 1);
}

#[test]
fn get_does_not_remove_an_expired_entry() {
    let mut shard = Shard::new();
    shard.set_at("k", "v", Some(SEC), 0);
    assert_eq!(shard.get_at("k", 2 * SEC), None);
    assert_eq!(shard.len(), 1);
    assert_eq!(shard.queued(), 1);
    shard.sweep_at(2 * SEC);
    assert_eq!(shard.len(), 0);
    assert_eq!(shard.queued(), 0);
}

#[test]
fn expiry_is_visible_whether_or_not_a_sweep_has_run() {
    let mut swept = Shard::new();
    let mut unswept = Shard::new();
    swept.set_at("k", "v", Some(10), 0);
    unswept.set_at("k", "v", Some(10), 0);
    swept.sweep_at(5);
    assert_eq!(swept.get_at("k", 9), unswept.get_at("k", 9));
    assert_eq!(swept.get_at("k", 9), text("v"));
    swept.sweep_at(20);
    assert_eq!(swept.get_at("k", 20), unswept.get_at("k", 20));
    assert_eq!(swept.get_at("k", 20), None);
}

#[test]
fn sweep_treats_an_expiry_equal_to_now_as_not_yet_due() {
    let mut shard = Shard::new();
    shard.set_at("k", "v", Some(10), 0);
    shard.sweep_at(10);
    assert_eq!(shard.len(), 1);
    assert_eq!(shard.get_at("k", 10), None);
    shard.sweep_at(11);
    assert_eq!(shard.len(), 0);
}

#[test]
fn set_replaces_the_entry() {
    let mut shard = Shard::new();
    shard.set_at("k", "old", None, 0);
    shard.set_at("k", "new", Some(5), 10);
    assert_eq!(shard.get_at("k", 14), text("new"));
    assert_eq!(shard.get_at("k", 15), None);
    assert_eq!(shard.len(), 1);
}

#[test]
fn refresh_survives_sweep() {
    let mut shard = Shard::new();
    shard.set_at("k", "v1", Some(SEC), 0);
    shard.set_at("k", "v2", Some(10 * SEC), SEC / 2);
    shard.sweep_at(2 * SEC);
    assert_eq!(shard.get_at("k", 2 * SEC), text("v2"));
    assert_eq!(shard.get_at("k", 10 * SEC), text("v2"));
    assert_eq!(shard.len(), 1);
    assert_eq!(shard.queued(), 1);
    // The key was queued again under the refreshed expiry, so a later pass evicts it.
    shard.sweep_at(11 * SEC);
    assert_eq!(shard.len(), 0);
    assert_eq!(shard.queued(), 0);
    assert_eq!(shard.get_at("k", 11 * SEC), None);
}

#[test]
fn refresh_to_no_expiry_survives_sweep() {
    let mut shard = Shard::new();
    shard.set_at("k", "v1", Some(SEC), 0);
    shard.set_at("k", "v2", None, SEC / 2);
    shard.sweep_at(5 * SEC);
    assert_eq!(shard.get_at("k", 5 * SEC), text("v2"));
    assert_eq!(shard.len(), 1);
    assert_eq!(shard.queued(), 1);
    shard.sweep_at(500 * SEC);
    assert_eq!(shard.get_at("k", 500 * SEC), text("v2"));
}

#[test]
fn refresh_to_a_shorter_ttl_is_evicted_when_the_old_record_is_due() {
    let mut shard = Shard::new();
    shard.set_at("k", "v1", Some(10 * SEC), 0);
    shard.set_at("k", "v2", Some(SEC), 0);
    // The entry is expired but still queued under the first expiry.
    shard.sweep_at(5 * SEC);
    assert_eq!(shard.get_at("k", 5 * SEC), None);
    assert_eq!(shard.len(), 1);
    shard.sweep_at(10 * SEC + 1);
    assert_eq!(shard.len(), 0);
}

#[test]
fn key_first_set_without_ttl_is_not_reclaimed_by_a_later_ttl() {
    let mut shard = Shard::new();
    shard.set_at("k", "v1", None, 0);
    shard.set_at("k", "v2", Some(SEC), 0);
    shard.sweep_at(100 * SEC);
    assert_eq!(shard.get_at("k", 100 * SEC), None);
    assert_eq!(shard.len(), 1);
    assert_eq!(shard.queued(), 1);
}

#[test]
fn repeated_set_does_not_grow_the_queue() {
    let mut shard = Shard::new();
    for round in 0..100u128 {
        shard.set_at("k", "v", Some(5 * SEC), round);
        assert_eq!(shard.queued(), 1);
        assert_eq!(shard.len(), 1);
    }
    assert_eq!(shard.get_at("k", 99 + 5 * SEC - 1), text("v"));
    assert_eq!(shard.get_at("k", 99 + 5 * SEC), None);
}

#[test]
fn eviction_reclaims_expired_entries_only() {
    let mut shard = Shard::new();
    shard.set_at("a", "1", Some(SEC), 0);
    shard.set_at("b", "2", Some(3 * SEC), 0);
    shard.set_at("c", "3", None, 0);
    shard.set_at("d", "4", Some(2 * SEC), 0);
    assert_eq!(shard.len(), 4);
    shard.sweep_at(2 * SEC + 1);
    assert_eq!(shard.len(), 2);
    assert_eq!(shard.queued(), 2);
    assert_eq!(shard.get_at("a", 2 * SEC + 1), None);
    assert_eq!(shard.get_at("d", 2 * SEC + 1), None);
    assert_eq!(shard.get_at("b", 2 * SEC + 1), text("2"));
    assert_eq!(shard.get_at("c", 2 * SEC + 1), text("3"));
    shard.sweep_at(4 * SEC);
    assert_eq!(shard.len(), 1);
    assert_eq!(shard.get_at("c", 4 * SEC), text("3"));
}

#[test]
fn evicted_key_can_be_set_again() {
    let mut shard = Shard::new();
    shard.set_at("k", "v1", Some(1), 0);
    shard.sweep_at(10);
    assert_eq!(shard.len(), 0);
    shard.set_at("k", "v2", Some(5), 10);
    assert_eq!(shard.queued(), 1);
    assert_eq!(shard.get_at("k", 14), text("v2"));
    shard.sweep_at(16);
    assert_eq!(shard.len(), 0);
}

#[test]
fn sweep_of_many_keys_evicts_each_due_one() {
    let mut shard = Shard::new();
    for i in 0..200u128 {
        shard.set_at(&format!("key{i}"), &format!("value{i}"), Some(i + 1), 0);
    }
    assert_eq!(shard.len(), 200);
    shard.sweep_at(101);
    assert_eq!(shard.len(), 100);
    assert_eq!(shard.queued(), 100);
    assert_eq!(shard.get_at("key99", 0), None);
    assert_eq!(shard.get_at("key100", 0), Some("value100".to_string()));
    shard.sweep_at(1000);
    assert_eq!(shard.len(), 0);
}

#[test]
fn keys_do_not_affect_each_other() {
    let mut shard = Shard::new();
    shard.set_at("a", "1", Some(10), 0);
    shard.set_at("b", "2", None, 0);
    shard.set_at("a", "3", Some(1), 0);
    assert_eq!(shard.get_at("b", 5), text("2"));
    assert_eq!(shard.get_at("a", 5), None);
}

#[test]
fn largest_times_do_not_overflow() {
    let mut shard = Shard::new();
    shard.set_at("k", "v", Some(u128::MAX - 5), 5);
    assert_eq!(shard.get_at("k", u128::MAX - 1), text("v"));
    assert_eq!(shard.get_at("k", u128::MAX), None);
    shard.sweep_at(u128::MAX);
    assert_eq!(shard.len(), 1);
}

#[test]
fn clock_driven_set_and_get() {
    let mut shard = Shard::new();
    shard.set("forever", "1", None);
    shard.set("long", "2", Some(Duration::from_secs(3600)));
    shard.set("gone", "3", Some(Duration::from_nanos(0)));
    assert_eq!(shard.get("forever"), text("1"));
    assert_eq!(shard.get("long"), text("2"));
    assert_eq!(shard.get("gone"), None);
    assert_eq!(shard.get("missing"), None);
    assert_eq!(shard.len(), 3);
    shard.sweep();
    assert_eq!(shard.get("forever"), text("1"));
    assert_eq!(shard.get("long"), text("2"));
    assert!(shard.len() >= 2);
}

#[test]
fn clock_driven_set_with_the_longest_ttl() {
    let mut shard = Shard::new();
    shard.set("k", "v", Some(Duration::MAX));
    assert_eq!(shard.get("k"), text("v"));
    shard.sweep();
    assert_eq!(shard.len(), 1);
}
