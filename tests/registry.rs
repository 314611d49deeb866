use agent_gateway::error::GatewayError;
use agent_gateway::pool::{expand, parse_pool_spec, parse_segment, Agent, PoolEntry};
use agent_gateway::text::{parse_count, push_decimal};

fn urls(agents: &[Agent]) -> Vec<String> {
    agents.iter().map(|a| a.url.clone()).collect()
}

fn ids(agents: &[Agent]) -> Vec<u32> {
    agents.iter().map(|a| a.id).collect()
}

#[test]
fn pool_spec_expands_in_order() {
    let agents = Agent::from_env(Some("http://a|replicas=2,http://b|replicas=1")).unwrap();
    assert_eq!(urls(&agents), vec!["http://a-1", "http://a-2", "http://b-1"]);
    assert_eq!(ids(&agents), vec![1, 2, 1]);
}

#[test]
fn pair_yields_exactly_its_replicas() {
    let agents = Agent::from_env(Some("http://x|replicas=4")).unwrap();
    assert_eq!(urls(&agents), vec!["http://x-1", "http://x-2", "http://x-3", "http://x-4"]);
    assert_eq!(ids(&agents), vec![1, 2, 3, 4]);
}

#[test]
fn replica_numbers_past_nine_are_written_in_full() {
    let agents = Agent::from_env(Some("http://x|replicas=12")).unwrap();
    assert_eq!(agents.len(), 12);
    assert_eq!(agents[9].url, "http://x-10");
    assert_eq!(agents[11].url, "http://x-12");
    assert_eq!(agents[11].id, 12);
}

#[test]
fn missing_count_means_one_replica() {
    let agents = Agent::from_env(Some("http://a,http://b|replicas=2")).unwrap();
    assert_eq!(urls(&agents), vec!["http://a-1", "http://b-1", "http://b-2"]);
}

#[test]
fn unreadable_count_means_one_replica() {
    for spec in ["http://a|replicas=x", "http://a|replicas=", "http://a|replicas=0", "http://a|replicas=-3", "http://a|replicas=99999999999"] {
        let agents = Agent::from_env(Some(spec)).unwrap();
        assert_eq!(urls(&agents), vec!["http://a-1"], "{}", spec);
        assert_eq!(ids(&agents), vec![1]);
    }
}

#[test]
fn empty_segments_are_skipped() {
    let agents = Agent::from_env(Some("http://a,,http://b|replicas=1,")).unwrap();
    assert_eq!(urls(&agents), vec!["http://a-1", "http://b-1"]);
    assert!(Agent::from_env(Some("")).unwrap().is_empty());
}

#[test]
fn missing_configuration_is_an_error() {
    assert_eq!(Agent::from_env(None).unwrap_err(), GatewayError::ConfigurationMissing);
}

#[test]
fn segment_splits_at_first_marker() {
    let e = parse_segment("http://h:8080|replicas=3");
    assert_eq!(e.base_url, "http://h:8080");
    assert_eq!(e.replicas, 3);
    let e = parse_segment("http://h|replicas=2|replicas=5");
    assert_eq!(e.base_url, "http://h");
    assert_eq!(e.replicas, 1);
    let e = parse_segment("http://h");
    assert_eq!(e.base_url, "http://h");
    assert_eq!(e.replicas, 1);
}

#[test]
fn pool_spec_entries() {
    let entries = parse_pool_spec("u|replicas=+7,v");
    assert_eq!(entries.len(), 2);
    assert_eq!(entries[0].base_url, "u");
    assert_eq!(entries[0].replicas, 7);
    assert_eq!(entries[1].base_url, "v");
    assert_eq!(entries[1].replicas, 1);
}

#[test]
fn expand_entries() {
    let entries = vec![
        PoolEntry { base_url: "s".to_string(), replicas: 1 },
        PoolEntry { base_url: "t".to_string(), replicas: 0 },
        PoolEntry { base_url: "w".to_string(), replicas: 2 },
    ];
    let agents = expand(&entries);
    assert_eq!(urls(&agents), vec!["s-1", "w-1", "w-2"]);
}

#[test]
fn counts_read_like_u32() {
    assert_eq!(parse_count("42"), Some(42));
    assert_eq!(parse_count("+7"), Some(7));
    assert_eq!(parse_count("007"), Some(7));
    assert_eq!(parse_count("4294967295"), Some(4294967295));
    assert_eq!(parse_count("4294967296"), None);
    assert_eq!(parse_count(""), None);
    assert_eq!(parse_count("+"), None);
    assert_eq!(parse_count("-1"), None);
    assert_eq!(parse_count("1a"), None);
    assert_eq!(parse_count(" 1"), None);
}

#[test]
fn decimal_numerals() {
    let mut s = String::from("n=");
    push_decimal(&mut s, 0);
    assert_eq!(s, "n=0");
    let mut s = String::new();
    push_decimal(&mut s, 4294967295);
    assert_eq!(s, "4294967295");
    let mut s = String::new();
    push_decimal(&mut s, 1200);
    assert_eq!(s, "1200");
}
