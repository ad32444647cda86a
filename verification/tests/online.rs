use nodeauth::online::{client_ip, OnlineTracker};
use std::time::Duration;

#[test]
fn client_ip_parses_v4_v6_and_bare() {
    assert_eq!(client_ip("1.2.3.4:5678"), "1.2.3.4");
    assert_eq!(client_ip("[2001:db8::1]:443"), "2001:db8::1");
    assert_eq!(client_ip("2001:db8::1"), "2001:db8::1");
    assert_eq!(client_ip("1.2.3.4"), "1.2.3.4");
}

#[test]
fn client_ip_trims_and_keeps_unclosed_brackets() {
    assert_eq!(client_ip("  10.0.0.1:80 \n"), "10.0.0.1");
    assert_eq!(client_ip("[::1"), "[::1");
    assert_eq!(client_ip("[::1]"), "::1");
    assert_eq!(client_ip(""), "");
}

#[test]
fn admit_enforces_limit_and_allows_known_ips() {
    let mut t = OnlineTracker::new();
    let ttl: u128 = Duration::from_secs(60).as_nanos();
    assert!(t.admit_ip("tok", "ip1", 2, ttl));
    assert!(t.admit_ip("tok", "ip2", 2, ttl));
    // A third distinct IP is over the limit.
    assert!(!t.admit_ip("tok", "ip3", 2, ttl));
    // An IP already online reconnects freely.
    assert!(t.admit_ip("tok", "ip1", 2, ttl));
    // Tokens do not affect each other.
    assert!(t.admit_ip("tok2", "ip3", 2, ttl));
}

#[test]
fn admit_zero_limit_means_unlimited() {
    let mut t = OnlineTracker::new();
    let ttl: u128 = Duration::from_secs(60).as_nanos();
    for i in 0..10 {
        assert!(t.admit_ip("tok", &format!("ip{i}"), 0, ttl));
    }
}

#[test]
fn admit_frees_slots_after_ttl() {
    let mut t = OnlineTracker::new();
    let ttl: u128 = 10_000_000;
    assert!(t.admit_at("tok", "ip1", 1, ttl, 0));
    assert!(!t.admit_at("tok", "ip2", 1, ttl, 5_000_000));
    // 20 ms later ip1 has gone quiet and its place is free.
    assert!(t.admit_at("tok", "ip2", 1, ttl, 20_000_000));
}

#[test]
fn admit_at_refreshes_a_known_ip() {
    let mut t = OnlineTracker::new();
    assert!(t.admit_at("tok", "ip1", 1, 100, 0));
    assert!(t.admit_at("tok", "ip1", 1, 100, 90));
    // Seen again at 90, ip1 is still online at 150 and keeps the only place.
    assert!(!t.admit_at("tok", "ip2", 1, 100, 150));
    assert!(t.admit_at("tok", "ip2", 1, 100, 190));
}

#[test]
fn a_refused_ip_is_not_recorded() {
    let mut t = OnlineTracker::new();
    assert!(t.admit_at("tok", "ip1", 1, 100, 0));
    assert!(!t.admit_at("tok", "ip2", 1, 100, 10));
    // ip2 was not recorded: once ip1 goes quiet, ip2 still gets the place only then.
    assert!(!t.admit_at("tok", "ip3", 1, 100, 50));
    assert!(t.admit_at("tok", "ip2", 1, 100, 100));
}
