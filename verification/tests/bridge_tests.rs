use topic_bridge::bridge::AppState;
use topic_bridge::sample::BufferedSample;

fn sample(tag: &str) -> BufferedSample {
    BufferedSample::from_payload(
        "demo/topic".to_string(),
        tag.as_bytes().to_vec(),
        "text/plain".to_string(),
        0,
    )
}

#[test]
fn starting_discovery_twice_leaves_one_pattern_and_an_empty_registry() {
    let mut st = AppState::new();
    let had_prior = st.start_discovery("alpha/**".to_string());
    assert!(!had_prior);
    st.record_sample_at("alpha/x".to_string(), "e".to_string(), 3, 100);
    assert_eq!(st.topics.len(), 1);
    let superseded = st.start_discovery("beta/**".to_string());
    assert!(superseded);
    assert!(st.discovery_active);
    assert_eq!(st.discovery_key_expr, "beta/**");
    assert_eq!(st.topics.len(), 0);
}

#[test]
fn stopping_discovery_clears_flag_pattern_and_registry() {
    let mut st = AppState::new();
    st.start_discovery("a/**".to_string());
    st.record_sample_at("a/x".to_string(), "e".to_string(), 1, 5);
    let was_active = st.stop_discovery();
    assert!(was_active);
    assert!(!st.discovery_active);
    assert_eq!(st.discovery_key_expr, "");
    assert_eq!(st.topics.len(), 0);
    assert!(!st.stop_discovery());
}

#[test]
fn get_topics_filters_by_prefix_after_discovery() {
    let mut st = AppState::new();
    st.start_discovery("**".to_string());
    st.record_sample_at("sensor/temp".to_string(), "e".to_string(), 4, 1_000);
    st.record_sample_at("actuator/fan".to_string(), "e".to_string(), 4, 1_000);
    let reply = st.get_topics_at(&"sensor/".to_string(), 2_000);
    assert!(reply.discovery_active);
    assert_eq!(reply.topics.len(), 1);
    assert_eq!(reply.topics[0].key_expr, "sensor/temp");
}

#[test]
fn get_topics_at_current_clock_lists_everything_on_empty_prefix() {
    let mut st = AppState::new();
    st.record_sample("t/one".to_string(), "e".to_string(), 1);
    st.record_sample("t/two".to_string(), "e".to_string(), 2);
    let reply = st.get_topics(&String::new());
    assert_eq!(reply.topics.len(), 2);
}

#[test]
fn sweep_expires_only_silent_topics() {
    let mut st = AppState::new();
    let now: u64 = 1_000_000;
    st.record_sample_at("old".to_string(), "e".to_string(), 1, now - 31_000);
    st.record_sample_at("new".to_string(), "e".to_string(), 1, now - 29_000);
    st.sweep_expired_at(now);
    assert_eq!(st.topics.len(), 1);
    assert_eq!(st.topics.topics[0].key_expr, "new");
}

#[test]
fn sweep_at_current_clock_keeps_fresh_topics() {
    let mut st = AppState::new();
    st.record_sample("fresh".to_string(), "e".to_string(), 1);
    st.sweep_expired();
    assert_eq!(st.topics.len(), 1);
}

#[test]
fn subscribe_reports_identifier_pattern_and_capacity() {
    let mut st = AppState::new();
    let r = st.subscribe("demo/**".to_string(), Some(3));
    assert_eq!(r.sub_id.len(), 36);
    assert_eq!(r.key_expr, "demo/**");
    assert_eq!(r.buffer_size, 3);
    assert_eq!(st.subscriptions.len(), 1);
}

#[test]
fn subscribe_substitutes_the_default_capacity() {
    let mut st = AppState::new();
    let r = st.subscribe("k".to_string(), None);
    assert_eq!(r.buffer_size, 100);
    let tiny = st.subscribe("k".to_string(), Some(0));
    assert_eq!(tiny.buffer_size, 1);
}

#[test]
fn two_subscriptions_get_distinct_identifiers() {
    let mut st = AppState::new();
    let a = st.subscribe("k".to_string(), Some(2));
    let b = st.subscribe("k".to_string(), Some(2));
    assert_ne!(a.sub_id, b.sub_id);
    assert_eq!(st.subscriptions.len(), 2);
}

#[test]
fn subscribe_collect_and_poll_scenario() {
    let mut st = AppState::new();
    let r = st.subscribe_with("sub-1".to_string(), "demo/**".to_string(), Some(3), 10);
    assert_eq!(r.buffer_size, 3);
    for tag in ["A", "B", "C", "D", "E"] {
        assert!(st.deliver_sample(&"sub-1".to_string(), sample(tag)));
    }
    let out = st.poll(&"sub-1".to_string(), Some(10)).unwrap();
    let tags: Vec<Option<String>> = out.samples.iter().map(|s| s.payload_str.clone()).collect();
    assert_eq!(
        tags,
        vec![Some("C".to_string()), Some("D".to_string()), Some("E".to_string())]
    );
    assert_eq!(out.overflow_count, 2);
    assert_eq!(out.buffered_remaining, 0);
}

#[test]
fn poll_on_an_unknown_identifier_is_a_not_found_failure() {
    let mut st = AppState::new();
    st.subscribe_with("real".to_string(), "k".to_string(), None, 0);
    assert!(st.poll(&"never-issued".to_string(), None).is_none());
    assert!(st.poll(&"real".to_string(), None).is_some());
}

#[test]
fn poll_without_a_limit_drains_up_to_ten() {
    let mut st = AppState::new();
    st.subscribe_with("s".to_string(), "k".to_string(), Some(20), 0);
    for i in 0..15 {
        let tag = format!("m{i}");
        assert!(st.deliver_sample(&"s".to_string(), sample(&tag)));
    }
    let out = st.poll(&"s".to_string(), None).unwrap();
    assert_eq!(out.samples.len(), 10);
    assert_eq!(out.buffered_remaining, 5);
}

#[test]
fn unsubscribe_removes_and_reports_unknown_identifiers() {
    let mut st = AppState::new();
    st.subscribe_with("gone".to_string(), "k".to_string(), None, 0);
    assert!(st.unsubscribe(&"gone".to_string()));
    assert!(!st.unsubscribe(&"gone".to_string()));
    assert!(st.poll(&"gone".to_string(), None).is_none());
}

#[test]
fn delivery_to_a_closed_subscription_tells_the_collector_to_stop() {
    let mut st = AppState::new();
    st.subscribe_with("s".to_string(), "k".to_string(), None, 0);
    st.unsubscribe(&"s".to_string());
    assert!(!st.deliver_sample(&"s".to_string(), sample("A")));
}

#[test]
fn list_subscriptions_snapshots_every_entry() {
    let mut st = AppState::new();
    st.subscribe_with("s1".to_string(), "k/one".to_string(), Some(5), 7);
    st.subscribe_with("s2".to_string(), "k/two".to_string(), None, 8);
    st.deliver_sample(&"s1".to_string(), sample("A"));
    let rows = st.list_subscriptions();
    assert_eq!(rows.len(), 2);
    let r1 = rows.iter().find(|r| r.sub_id == "s1").unwrap();
    assert_eq!(r1.key_expr, "k/one");
    assert_eq!(r1.buffer_capacity, 5);
    assert_eq!(r1.buffered, 1);
    assert_eq!(r1.total_received, 1);
    assert_eq!(r1.created_at, 7);
    let r2 = rows.iter().find(|r| r.sub_id == "s2").unwrap();
    assert_eq!(r2.buffer_capacity, 100);
}

#[test]
fn shutdown_tears_everything_down() {
    let mut st = AppState::new();
    st.start_discovery("**".to_string());
    st.record_sample_at("t".to_string(), "e".to_string(), 1, 0);
    st.subscribe_with("s".to_string(), "k".to_string(), None, 0);
    let had_discovery = st.shutdown();
    assert!(had_discovery);
    assert_eq!(st.subscriptions.len(), 0);
    assert_eq!(st.topics.len(), 0);
    assert!(!st.discovery_active);
    assert_eq!(st.discovery_key_expr, "");
}
