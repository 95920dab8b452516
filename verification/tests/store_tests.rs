use topic_bridge::sample::BufferedSample;
use topic_bridge::store::{Subscription, SubscriptionStore};

fn sample(tag: &str) -> BufferedSample {
    BufferedSample::from_payload(
        "demo/topic".to_string(),
        tag.as_bytes().to_vec(),
        "text/plain".to_string(),
        0,
    )
}

#[test]
fn push_beyond_capacity_keeps_length_and_counts_loss() {
    let mut sub = Subscription::new("k".to_string(), 3, 0);
    for tag in ["A", "B", "C", "D", "E"] {
        sub.push(sample(tag));
    }
    assert_eq!(sub.buffer.len(), 3);
    assert_eq!(sub.overflow_count, 2);
    assert_eq!(sub.total_received, 5);
}

#[test]
fn push_below_capacity_loses_nothing() {
    let mut sub = Subscription::new("k".to_string(), 3, 0);
    sub.push(sample("A"));
    sub.push(sample("B"));
    assert_eq!(sub.buffer.len(), 2);
    assert_eq!(sub.overflow_count, 0);
    assert_eq!(sub.total_received, 2);
}

#[test]
fn overflow_evicts_the_oldest_first() {
    let mut sub = Subscription::new("k".to_string(), 2, 0);
    for tag in ["A", "B", "C"] {
        sub.push(sample(tag));
    }
    let tags: Vec<Option<String>> = sub.buffer.iter().map(|s| s.payload_str.clone()).collect();
    assert_eq!(tags, vec![Some("B".to_string()), Some("C".to_string())]);
}

#[test]
fn drain_respects_limit_and_preserves_order() {
    let mut sub = Subscription::new("k".to_string(), 10, 0);
    for tag in ["A", "B", "C"] {
        sub.push(sample(tag));
    }
    let first = sub.drain(2);
    assert_eq!(first.len(), 2);
    assert_eq!(first[0].payload_str, Some("A".to_string()));
    assert_eq!(first[1].payload_str, Some("B".to_string()));
    let rest = sub.drain(10);
    assert_eq!(rest.len(), 1);
    assert_eq!(rest[0].payload_str, Some("C".to_string()));
    let empty = sub.drain(10);
    assert!(empty.is_empty());
    assert_eq!(sub.total_received, 3);
    assert_eq!(sub.drained_count, 3);
}

#[test]
fn repeated_drains_return_no_sample_twice() {
    let mut sub = Subscription::new("k".to_string(), 10, 0);
    for tag in ["A", "B", "C", "D", "E"] {
        sub.push(sample(tag));
    }
    let mut seen: Vec<String> = Vec::new();
    loop {
        let batch = sub.drain(2);
        if batch.is_empty() {
            break;
        }
        for s in batch {
            seen.push(s.payload_str.clone().unwrap());
        }
    }
    assert_eq!(seen, vec!["A", "B", "C", "D", "E"]);
}

#[test]
fn counters_conserve_across_mixed_operations() {
    let mut sub = Subscription::new("k".to_string(), 2, 0);
    for tag in ["A", "B", "C", "D"] {
        sub.push(sample(tag));
    }
    let drained = sub.drain(1);
    assert_eq!(drained.len(), 1);
    assert_eq!(
        sub.total_received,
        sub.overflow_count + sub.drained_count + sub.buffer.len() as u64
    );
}

#[test]
fn open_close_and_lookup_by_identifier() {
    let mut store = SubscriptionStore::new();
    store.open("id-a".to_string(), "k/a".to_string(), 5, 100);
    store.open("id-b".to_string(), "k/b".to_string(), 7, 200);
    assert_eq!(store.len(), 2);
    assert!(store.close(&"id-a".to_string()));
    assert_eq!(store.len(), 1);
    assert!(!store.close(&"id-a".to_string()));
    assert!(!store.push_sample(&"id-a".to_string(), sample("X")));
}

#[test]
fn poll_on_unknown_identifier_reports_not_found() {
    let mut store = SubscriptionStore::new();
    store.open("known".to_string(), "k".to_string(), 5, 0);
    assert!(store.poll(&"unknown".to_string(), 10).is_none());
    assert!(store.poll(&"known".to_string(), 10).is_some());
}

#[test]
fn poll_drains_and_reports_counters() {
    let mut store = SubscriptionStore::new();
    store.open("s".to_string(), "k".to_string(), 3, 0);
    for tag in ["A", "B", "C", "D", "E"] {
        assert!(store.push_sample(&"s".to_string(), sample(tag)));
    }
    let out = store.poll(&"s".to_string(), 10).unwrap();
    assert_eq!(out.samples.len(), 3);
    let tags: Vec<Option<String>> =
        out.samples.iter().map(|s| s.payload_str.clone()).collect();
    assert_eq!(
        tags,
        vec![Some("C".to_string()), Some("D".to_string()), Some("E".to_string())]
    );
    assert_eq!(out.overflow_count, 2);
    assert_eq!(out.buffered_remaining, 0);
}

#[test]
fn list_reports_one_row_per_subscription() {
    let mut store = SubscriptionStore::new();
    store.open("s1".to_string(), "k/one".to_string(), 4, 11);
    store.open("s2".to_string(), "k/two".to_string(), 9, 22);
    store.push_sample(&"s2".to_string(), sample("A"));
    let rows = store.list();
    assert_eq!(rows.len(), 2);
    let r1 = rows.iter().find(|r| r.sub_id == "s1").unwrap();
    assert_eq!(r1.key_expr, "k/one");
    assert_eq!(r1.buffer_capacity, 4);
    assert_eq!(r1.buffered, 0);
    assert_eq!(r1.created_at, 11);
    let r2 = rows.iter().find(|r| r.sub_id == "s2").unwrap();
    assert_eq!(r2.buffered, 1);
    assert_eq!(r2.total_received, 1);
}

#[test]
fn reopening_an_identifier_replaces_the_subscription() {
    let mut store = SubscriptionStore::new();
    store.open("dup".to_string(), "k/old".to_string(), 5, 1);
    store.push_sample(&"dup".to_string(), sample("A"));
    store.open("dup".to_string(), "k/new".to_string(), 8, 2);
    assert_eq!(store.len(), 1);
    let rows = store.list();
    assert_eq!(rows[0].key_expr, "k/new");
    assert_eq!(rows[0].buffered, 0);
    assert_eq!(rows[0].buffer_capacity, 8);
}
