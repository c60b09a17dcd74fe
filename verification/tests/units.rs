use gravel_gateway::auth::{basic_auth, pass_through_auth, Authenticator};
use gravel_gateway::clustering::{ClusterConfig, HashRing};
use gravel_gateway::ingest::{route_push, IngestDecision};
use gravel_gateway::labels::Label;
use gravel_gateway::clearmode::ClearMode;
use gravel_gateway::pebble::{parse_duration, MergeStrategy, TimePebble};

#[test]
fn parse_duration_cases() {
    assert_eq!(parse_duration("5s"), Some(5));
    assert_eq!(parse_duration("5m"), Some(300));
    assert_eq!(parse_duration("2h"), Some(7200));
    assert_eq!(parse_duration("10s"), Some(10));
    assert_eq!(parse_duration(""), None);
    assert_eq!(parse_duration("s"), None);
    assert_eq!(parse_duration("5"), None);
    assert_eq!(parse_duration("5d"), None);
    assert_eq!(parse_duration("x5s"), None);
    assert_eq!(parse_duration("99999999999999999999s"), None);
}

#[test]
fn clear_mode_durations() {
    assert_eq!(ClearMode::from_str("sum5m").unwrap(), ClearMode::Sum(300));
    assert_eq!(ClearMode::from_str("mean30s").unwrap(), ClearMode::Mean(30));
    assert_eq!(ClearMode::from_str("sum").unwrap(), ClearMode::Aggregate);
    assert_eq!(ClearMode::from_str("info").unwrap(), ClearMode::Family);
    assert!(ClearMode::from_str("mean").is_err());
    assert!(ClearMode::from_str("sum5x").is_err());
}

#[test]
fn ring_is_deterministic() {
    let nodes = vec![
        String::from("http://a:1"),
        String::from("http://b:2"),
        String::from("http://c:3"),
    ];
    let r1 = HashRing::new_with_nodes(&nodes);
    let r2 = HashRing::new_with_nodes(&nodes);
    for key in ["", "job1", "job2", "another"] {
        let o1 = r1.get_node_for_val(key).cloned();
        let o2 = r2.get_node_for_val(key).cloned();
        assert_eq!(o1, o2);
        assert!(o1.is_some());
    }
}

#[test]
fn ring_empty_owns_nothing() {
    let r = HashRing::new();
    assert!(r.get_node_for_val("anything").is_none());
}

#[test]
fn cluster_normalizes_and_routes() {
    let c = ClusterConfig::new_from_static(
        String::from("localhost:4278"),
        vec![String::from("peer:1"), String::from("https://peer2:2")],
    );
    assert!(c.is_self("http://localhost:4278"));
    assert!(!c.is_self("localhost:4278"));
    let owner = c.get_peer_for_key("some-job").unwrap();
    assert!(owner.starts_with("http://") || owner.starts_with("https://"));

    // The routing decision never forwards to the gateway itself.
    let cluster = Some(c);
    let labels = vec![Label { name: String::from("job"), value: String::from("some-job") }];
    match route_push(&cluster, &labels) {
        IngestDecision::MergeLocally => {}
        IngestDecision::Forward(p) => {
            assert!(p.starts_with("http://peer:1") || p.starts_with("https://peer2:2"));
        }
    }
}

#[test]
fn pass_through_accepts_anything() {
    let a = pass_through_auth();
    assert_eq!(a.authenticate("").unwrap(), true);
    assert_eq!(a.authenticate("Basic whatever").unwrap(), true);
    assert!(a.check(""));
    assert!(a.check("Bearer nonsense"));
}

#[test]
fn basic_auth_plain_token() {
    let hash = bcrypt::hash("secret", 4).unwrap();
    let auth = basic_auth(vec![hash]);
    // A token that is not base64 of UTF-8 with a colon counts as plain text.
    let header = format!("Basic {}", base64::encode("secret"));
    assert_eq!(auth.authenticate(&header).unwrap(), true);
    let header = format!("Basic {}", base64::encode("wrong"));
    assert_eq!(auth.authenticate(&header).unwrap(), false);
    assert_eq!(auth.authenticate("Basic").unwrap(), false);
    assert_eq!(auth.authenticate("").unwrap(), false);
}

#[test]
fn basic_auth_user_password() {
    let hash = bcrypt::hash("pw", 4).unwrap();
    let auth = basic_auth(vec![String::from("not-a-hash"), hash]);
    // The password is the part after the colon of the decoded credential,
    // and any hash in the list may match.
    let header = format!("Basic {}", base64::encode("user:pw"));
    assert_eq!(auth.authenticate(&header).unwrap(), true);
    let header = format!("Basic {}", base64::encode("user:bad"));
    assert_eq!(auth.authenticate(&header).unwrap(), false);
}

#[test]
fn pebble_sum_accumulates() {
    let mut p = TimePebble::new(300, 100, MergeStrategy::Sum);
    let now: u128 = 1_700_000_000_000_000_000;
    p.append_with_timestamp(f64::to_bits(2.0), now);
    p.append_with_timestamp(f64::to_bits(3.0), now);
    let total = f64::from_bits(p.aggregate());
    assert_eq!(total, 5.0);
}

#[test]
fn pebble_window_resets_after_a_full_ring() {
    let mut p = TimePebble::new(100, 100, MergeStrategy::Sum);
    // Bucket size is one second; two appends far more than one ring apart.
    let now: u128 = 1_700_000_000_000_000_000;
    p.append_with_timestamp(f64::to_bits(7.0), now);
    p.append_with_timestamp(f64::to_bits(1.0), now + 1_000_000_000_000);
    let total = f64::from_bits(p.aggregate());
    assert_eq!(total, 1.0);
}

#[test]
fn pebble_mean_weights_the_window() {
    let mut p = TimePebble::new(300, 100, MergeStrategy::Mean);
    let now: u128 = 1_700_000_000_000_000_000;
    p.append_with_timestamp(f64::to_bits(4.0), now);
    // The bucket's weight is bumped before the fold, so a single value
    // averages against the fresh zero entry.
    assert_eq!(f64::from_bits(p.aggregate()), 2.0);
}

#[test]
fn rendering_numbers() {
    let mut agg = gravel_gateway::aggregator::Aggregator::new();
    agg.parse_and_merge("neg -3\n", &Vec::new()).unwrap();
    assert_eq!(agg.to_string(), "neg -3\n");

    let mut agg = gravel_gateway::aggregator::Aggregator::new();
    agg.parse_and_merge("big 1234567890\n", &Vec::new()).unwrap();
    assert_eq!(agg.to_string(), "big 1234567890\n");
}
