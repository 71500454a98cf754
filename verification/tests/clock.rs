use shard_cache::clock::nanos_of;
use shard_cache::clock::ttl_to_nanos;
use shard_cache::clock::Clock;
use shard_cache::clock::MAX_NANOS;
use shard_cache::clock::NANOS_PER_SEC;
use std::time::Duration;

#[test]
fn nanos_of_counts_seconds_and_fraction() {
    assert_eq!(nanos_of(&Duration::new(0, 0)), 0);
    assert_eq!(nanos_of(&Duration::new(1, 5)), 1_000_000_005);
    assert_eq!(nanos_of(&Duration::from_millis(1500)), 1_500_000_000);
    assert_eq!(nanos_of(&Duration::from_secs(3)), 3 * NANOS_PER_SEC);
}

#[test]
fn nanos_of_the_longest_duration_is_bounded() {
    let longest = nanos_of(&Duration::MAX);
    assert_eq!(longest, (u64::MAX as u128) * 1_000_000_000 + 999_999_999);
    assert!(longest <= MAX_NANOS);
    assert!(MAX_NANOS.checked_add(MAX_NANOS).is_some());
}

#[test]
fn ttl_to_nanos_keeps_absence() {
    assert_eq!(ttl_to_nanos(None), None);
    assert_eq!(ttl_to_nanos(Some(Duration::from_secs(1))), Some(1_000_000_000));
    assert_eq!(ttl_to_nanos(Some(Duration::from_nanos(7))), Some(7));
}

#[test]
fn clock_readings_do_not_go_back() {
    let clock = Clock::start();
    let first = clock.now();
    let second = clock.now();
    assert!(first <= second);
    assert!(second <= MAX_NANOS);
}
