use netbench::config::{effective_topics, parse_decimal_u64, Config, ConfigError};

fn sorted(mut v: Vec<String>) -> Vec<String> {
    v.sort();
    v
}

#[test]
fn empty_topic_setting_gives_only_all() {
    assert_eq!(effective_topics(""), vec!["all".to_string()]);
}

#[test]
fn repeated_topics_are_kept_once_and_all_is_added() {
    let topics = effective_topics("x,x,y");
    assert_eq!(topics, vec!["x".to_string(), "y".to_string(), "all".to_string()]);
    assert_eq!(sorted(topics), vec!["all".to_string(), "x".to_string(), "y".to_string()]);
}

#[test]
fn named_all_is_not_repeated() {
    assert_eq!(effective_topics("all,eu"), vec!["all".to_string(), "eu".to_string()]);
    assert_eq!(effective_topics(",eu,,"), vec!["eu".to_string(), "all".to_string()]);
}

#[test]
fn config_defaults() {
    let c = Config::from_values(Some("w1".to_string()), None, None, None).unwrap();
    assert_eq!(c.worker_name, "w1");
    assert_eq!(c.worker_topics, vec!["all".to_string()]);
    assert_eq!(c.heartbeat_interval_sec, 5);
    assert_eq!(c.log_level, "info");
}

#[test]
fn config_reads_given_values() {
    let c = Config::from_values(
        Some("w2".to_string()),
        Some("eu,us".to_string()),
        Some("30".to_string()),
        Some("debug".to_string()),
    )
    .unwrap();
    assert_eq!(c.worker_topics, vec!["eu".to_string(), "us".to_string(), "all".to_string()]);
    assert_eq!(c.heartbeat_interval_sec, 30);
    assert_eq!(c.log_level, "debug");
}

#[test]
fn config_requires_a_worker_name() {
    let e = Config::from_values(None, None, None, None).err().unwrap();
    assert_eq!(e, ConfigError::MissingWorkerName);
    assert_eq!(e.message(), "WORKER_NAME is not set");
}

#[test]
fn config_refuses_a_bad_heartbeat_interval() {
    let e = Config::from_values(Some("w".to_string()), None, Some("5s".to_string()), None)
        .err()
        .unwrap();
    assert_eq!(e, ConfigError::InvalidHeartbeatInterval);
    assert_eq!(e.message(), "Invalid HEARTBEAT_INTERVAL value");
}

#[test]
fn decimal_numerals() {
    assert_eq!(parse_decimal_u64(b"0"), Some(0));
    assert_eq!(parse_decimal_u64(b"+7"), Some(7));
    assert_eq!(parse_decimal_u64(b"104857600"), Some(104857600));
    assert_eq!(parse_decimal_u64(b"18446744073709551615"), Some(u64::MAX));
    assert_eq!(parse_decimal_u64(b"18446744073709551616"), None);
    assert_eq!(parse_decimal_u64(b""), None);
    assert_eq!(parse_decimal_u64(b"+"), None);
    assert_eq!(parse_decimal_u64(b"-1"), None);
    assert_eq!(parse_decimal_u64(b"12a"), None);
    assert_eq!(parse_decimal_u64(b" 12"), None);
}
