use topic_bridge::registry::{str_has_prefix, TopicMeta, TopicRegistry};

fn meta(reg: &TopicRegistry, name: &str) -> TopicMeta {
    reg.topics
        .iter()
        .find(|m| m.key_expr == name)
        .expect("topic should be present")
        .clone()
}

#[test]
fn record_counts_every_call_and_sums_bytes() {
    let mut reg = TopicRegistry::new();
    reg.record("sensor/temp".to_string(), "text/plain".to_string(), 5, 1_000);
    reg.record("sensor/temp".to_string(), "text/plain".to_string(), 7, 2_000);
    reg.record("sensor/temp".to_string(), "text/plain".to_string(), 9, 3_000);
    let m = meta(&reg, "sensor/temp");
    assert_eq!(m.sample_count, 3);
    assert_eq!(m.total_payload_bytes, 21);
    assert_eq!(m.first_seen, 1_000);
    assert_eq!(m.last_seen, 3_000);
    assert_eq!(reg.len(), 1);
}

#[test]
fn record_creates_one_entry_per_topic() {
    let mut reg = TopicRegistry::new();
    reg.record("a".to_string(), "e1".to_string(), 1, 10);
    reg.record("b".to_string(), "e2".to_string(), 2, 20);
    reg.record("a".to_string(), "e3".to_string(), 3, 30);
    assert_eq!(reg.len(), 2);
    let a = meta(&reg, "a");
    assert_eq!(a.sample_count, 2);
    assert_eq!(a.total_payload_bytes, 4);
    assert_eq!(a.last_encoding, "e3");
    let b = meta(&reg, "b");
    assert_eq!(b.sample_count, 1);
}

#[test]
fn update_overwrites_encoding_and_advances_last_seen() {
    let mut m = TopicMeta::new("t".to_string(), "old".to_string(), 4, 100);
    m.update("new".to_string(), 6, 250);
    assert_eq!(m.last_encoding, "new");
    assert_eq!(m.last_seen, 250);
    assert_eq!(m.first_seen, 100);
    assert_eq!(m.sample_count, 2);
    assert_eq!(m.total_payload_bytes, 10);
    // a clock that runs backwards cannot rewind the entry
    m.update("new".to_string(), 1, 200);
    assert_eq!(m.last_seen, 250);
}

#[test]
fn avg_payload_size_is_bytes_over_count() {
    let mut m = TopicMeta::new("t".to_string(), "e".to_string(), 10, 0);
    m.update("e".to_string(), 20, 1);
    assert_eq!(m.avg_payload_size(), 15);
    let zero = TopicMeta {
        key_expr: "z".to_string(),
        first_seen: 0,
        last_seen: 0,
        sample_count: 0,
        total_payload_bytes: 0,
        last_encoding: "e".to_string(),
    };
    assert_eq!(zero.avg_payload_size(), 0);
}

#[test]
fn rate_is_zero_below_one_millisecond_and_exact_after() {
    let m = TopicMeta {
        key_expr: "t".to_string(),
        first_seen: 1_000,
        last_seen: 2_000,
        sample_count: 5,
        total_payload_bytes: 0,
        last_encoding: "e".to_string(),
    };
    // 5 samples over one second = 5 Hz = 500 centi-hertz
    assert_eq!(m.rate_centi_hz(), 500);
    let burst = TopicMeta { first_seen: 2_000, last_seen: 2_000, ..m };
    assert_eq!(burst.rate_centi_hz(), 0);
}

#[test]
fn expire_is_exact_at_the_threshold() {
    let mut reg = TopicRegistry::new();
    let now: u64 = 100_000;
    reg.record("fresh".to_string(), "e".to_string(), 1, now - 29_000);
    reg.record("gone".to_string(), "e".to_string(), 1, now - 31_000);
    reg.record("edge".to_string(), "e".to_string(), 1, now - 30_000);
    reg.expire(now, 30_000);
    assert_eq!(reg.len(), 1);
    assert_eq!(reg.topics[0].key_expr, "fresh");
}

#[test]
fn expire_keeps_everything_when_all_are_fresh() {
    let mut reg = TopicRegistry::new();
    reg.record("a".to_string(), "e".to_string(), 1, 1_000);
    reg.record("b".to_string(), "e".to_string(), 1, 2_000);
    reg.expire(2_500, 30_000);
    assert_eq!(reg.len(), 2);
}

#[test]
fn clear_empties_the_registry() {
    let mut reg = TopicRegistry::new();
    reg.record("a".to_string(), "e".to_string(), 1, 0);
    reg.clear();
    assert_eq!(reg.len(), 0);
}

#[test]
fn list_filters_by_prefix() {
    let mut reg = TopicRegistry::new();
    reg.record("sensor/temp".to_string(), "e".to_string(), 8, 1_000);
    reg.record("actuator/fan".to_string(), "e".to_string(), 8, 1_000);
    let sensors = reg.list(&"sensor/".to_string(), 2_000);
    assert_eq!(sensors.len(), 1);
    assert_eq!(sensors[0].key_expr, "sensor/temp");
    let all = reg.list(&String::new(), 2_000);
    assert_eq!(all.len(), 2);
    let none = reg.list(&"other/".to_string(), 2_000);
    assert_eq!(none.len(), 0);
}

#[test]
fn list_annotates_silence_and_staleness() {
    let mut reg = TopicRegistry::new();
    reg.record("quiet".to_string(), "e".to_string(), 4, 10_000);
    reg.record("loud".to_string(), "e".to_string(), 4, 15_900);
    let rows = reg.list(&String::new(), 16_000);
    let quiet = rows.iter().find(|r| r.key_expr == "quiet").unwrap();
    assert_eq!(quiet.silent_secs, 6);
    assert!(quiet.stale);
    let loud = rows.iter().find(|r| r.key_expr == "loud").unwrap();
    assert_eq!(loud.silent_secs, 0);
    assert!(!loud.stale);
    assert_eq!(loud.avg_payload_size, 4);
}

#[test]
fn prefix_test_matches_string_prefixes() {
    assert!(str_has_prefix("sensor/temp", "sensor/"));
    assert!(str_has_prefix("sensor/temp", ""));
    assert!(str_has_prefix("sensor/temp", "sensor/temp"));
    assert!(!str_has_prefix("sensor/temp", "sensor/temp/x"));
    assert!(!str_has_prefix("actuator/fan", "sensor/"));
    assert!(!str_has_prefix("sen", "sensor"));
}
