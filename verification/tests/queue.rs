use shard_cache::queue::expires_no_later;
use shard_cache::queue::ExpiryQueue;
use shard_cache::queue::QueueRecord;

fn record(key: &str, expires_at: Option<u128>) -> QueueRecord {
    QueueRecord { key: key.to_string(), expires_at }
}

fn drain(queue: &mut ExpiryQueue) -> Vec<(String, Option<u128>)> {
    let mut out = Vec::new();
    while let Some(r) = queue.pop() {
        out.push((r.key, r.expires_at));
    }
    out
}

#[test]
fn never_is_later_than_any_time() {
    assert!(expires_no_later(Some(1), Some(2)));
    assert!(expires_no_later(Some(2), Some(2)));
    assert!(!expires_no_later(Some(3), Some(2)));
    assert!(expires_no_later(Some(u128::MAX), None));
    assert!(!expires_no_later(None, Some(u128::MAX)));
    assert!(expires_no_later(None, None));
}

#[test]
fn empty_queue_has_nothing_to_give() {
    let mut queue = ExpiryQueue::new();
    assert_eq!(queue.len(), 0);
    assert!(queue.peek().is_none());
    assert!(queue.pop().is_none());
    assert_eq!(queue.len(), 0);
}

#[test]
fn pops_in_order_of_expiry() {
    let mut queue = ExpiryQueue::new();
    let expiries: [u128; 9] = [50, 20, 90, 10, 70, 30, 80, 40, 60];
    for (i, e) in expiries.iter().enumerate() {
        queue.push(record(&format!("k{i}"), Some(*e)));
    }
    assert_eq!(queue.len(), 9);
    let first = queue.peek().unwrap();
    assert_eq!(first.key, "k3");
    assert_eq!(first.expires_at, Some(10));
    let drained = drain(&mut queue);
    let times: Vec<Option<u128>> = drained.iter().map(|r| r.1).collect();
    assert_eq!(
        times,
        vec![Some(10), Some(20), Some(30), Some(40), Some(50), Some(60), Some(70), Some(80), Some(90)]
    );
    let keys: Vec<&str> = drained.iter().map(|r| r.0.as_str()).collect();
    assert_eq!(keys, vec!["k3", "k1", "k5", "k7", "k0", "k8", "k4", "k6", "k2"]);
}

#[test]
fn descending_pushes_are_reordered() {
    let mut queue = ExpiryQueue::new();
    for e in (1..=32u128).rev() {
        queue.push(record(&format!("k{e}"), Some(e)));
    }
    let drained = drain(&mut queue);
    let times: Vec<u128> = drained.iter().map(|r| r.1.unwrap()).collect();
    let expected: Vec<u128> = (1..=32).collect();
    assert_eq!(times, expected);
}

#[test]
fn records_without_expiry_come_last() {
    let mut queue = ExpiryQueue::new();
    queue.push(record("forever", None));
    queue.push(record("late", Some(u128::MAX)));
    queue.push(record("also forever", None));
    queue.push(record("soon", Some(1)));
    assert_eq!(queue.peek().unwrap().key, "soon");
    let drained = drain(&mut queue);
    assert_eq!(drained[0], ("soon".to_string(), Some(1)));
    assert_eq!(drained[1], ("late".to_string(), Some(u128::MAX)));
    assert_eq!(drained[2].1, None);
    assert_eq!(drained[3].1, None);
    let mut rest = vec![drained[2].0.clone(), drained[3].0.clone()];
    rest.sort();
    assert_eq!(rest, vec!["also forever".to_string(), "forever".to_string()]);
}

#[test]
fn equal_expiries_all_come_out() {
    let mut queue = ExpiryQueue::new();
    queue.push(record("a", Some(5)));
    queue.push(record("b", Some(5)));
    queue.push(record("c", Some(5)));
    queue.push(record("d", Some(4)));
    let drained = drain(&mut queue);
    assert_eq!(drained[0], ("d".to_string(), Some(4)));
    let mut keys: Vec<String> = drained[1..].iter().map(|r| r.0.clone()).collect();
    keys.sort();
    assert_eq!(keys, vec!["a".to_string(), "b".to_string(), "c".to_string()]);
    assert!(drained[1..].iter().all(|r| r.1 == Some(5)));
}

#[test]
fn pop_then_push_keeps_the_order() {
    let mut queue = ExpiryQueue::new();
    queue.push(record("a", Some(10)));
    queue.push(record("b", Some(30)));
    queue.push(record("c", Some(20)));
    let first = queue.pop().unwrap();
    assert_eq!((first.key.as_str(), first.expires_at), ("a", Some(10)));
    queue.push(record("a", Some(25)));
    assert_eq!(queue.len(), 3);
    let drained = drain(&mut queue);
    assert_eq!(
        drained,
        vec![
            ("c".to_string(), Some(20)),
            ("a".to_string(), Some(25)),
            ("b".to_string(), Some(30)),
        ]
    );
}
