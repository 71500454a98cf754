use shard_cache::shard::Shard;
use shard_cache::sweeper::Sweeper;
use shard_cache::sweeper::SweeperAction;
use shard_cache::sweeper::SweeperState;
use shard_cache::sweeper::Wake;
use shard_cache::sweeper::CLEANUP_INTERVAL_SECS;

#[test]
fn sweeper_starts_running() {
    let sweeper = Sweeper::new();
    assert_eq!(sweeper.state(), SweeperState::Running);
    assert_eq!(CLEANUP_INTERVAL_SECS, 60);
}

#[test]
fn sweeper_sweeps_on_every_interval() {
    let mut sweeper = Sweeper::new();
    for _ in 0..5 {
        assert_eq!(sweeper.on_wake(Wake::Interval), SweeperAction::Sweep);
        assert_eq!(sweeper.state(), SweeperState::Running);
    }
}

#[test]
fn sweeper_stops_on_shutdown_and_stays_stopped() {
    let mut sweeper = Sweeper::new();
    assert_eq!(sweeper.on_wake(Wake::Interval), SweeperAction::Sweep);
    assert_eq!(sweeper.on_wake(Wake::Shutdown), SweeperAction::Exit);
    assert_eq!(sweeper.state(), SweeperState::Stopped);
    assert_eq!(sweeper.on_wake(Wake::Interval), SweeperAction::Exit);
    assert_eq!(sweeper.on_wake(Wake::Shutdown), SweeperAction::Exit);
    assert_eq!(sweeper.state(), SweeperState::Stopped);
}

#[test]
fn worker_loop_evicts_until_shutdown() {
    let mut shard = Shard::new();
    shard.set_at("a", "1", Some(10), 0);
    shard.set_at("b", "2", Some(30), 0);
    shard.set_at("c", "3", None, 0);
    let wakes = [(Wake::Interval, 20u128), (Wake::Interval, 40), (Wake::Shutdown, 50)];
    let mut sweeper = Sweeper::new();
    let mut sizes = Vec::new();
    for (wake, now) in wakes {
        match sweeper.on_wake(wake) {
            SweeperAction::Sweep => {
                shard.sweep_at(now);
                sizes.push(shard.len());
            }
            SweeperAction::Exit => break,
        }
    }
    assert_eq!(sizes, vec![2, 1]);
    assert_eq!(sweeper.state(), SweeperState::Stopped);
    assert_eq!(shard.get_at("c", 50), Some("3".to_string()));
}
