use chrono::{Duration, Utc};
use nodeauth::models::{count_user_devices, ensure_subscription_key, latest_active_token, text_less, User};
use nodeauth::time::{now, parse_dt};

fn user(status: &str, expires_at: Option<&str>) -> User {
    User {
        id: 1,
        email: "u@e.com".into(),
        password_hash: "x".into(),
        status: status.into(),
        max_devices: 1,
        expires_at: expires_at.map(|s| s.into()),
        note: None,
        subscription_key: None,
        created_at: Utc::now().to_rfc3339(),
        authorized_at: None,
    }
}

#[test]
fn parse_dt_accepts_rfc3339_and_rejects_garbage() {
    assert!(parse_dt("2999-01-01T00:00:00Z").is_some());
    assert!(parse_dt("not-a-date").is_none());
    assert!(parse_dt("").is_none());
}

#[test]
fn parse_dt_reads_the_instant_in_nanoseconds() {
    assert_eq!(parse_dt("1970-01-01T00:00:01Z"), Some(1_000_000_000));
    assert_eq!(parse_dt("1970-01-01T01:00:00+01:00"), Some(0));
    assert_eq!(parse_dt("1969-12-31T23:59:59.5Z"), Some(-500_000_000));
}

#[test]
fn is_active_tracks_status() {
    assert!(user("active", None).is_active());
    assert!(!user("pending", None).is_active());
    assert!(!user("suspended", None).is_active());
}

#[test]
fn is_expired_handles_past_future_and_missing() {
    let past = (Utc::now() - Duration::days(1)).to_rfc3339();
    let future = (Utc::now() + Duration::days(1)).to_rfc3339();
    assert!(user("active", Some(&past)).is_expired());
    assert!(!user("active", Some(&future)).is_expired());
    // No deadline means the account never expires.
    assert!(!user("active", None).is_expired());
}

#[test]
fn is_expired_at_compares_with_the_given_instant() {
    let u = user("active", Some("2000-01-01T00:00:00Z"));
    let t = parse_dt("2000-01-01T00:00:00Z").unwrap();
    assert!(u.is_expired_at(t));
    assert!(!u.is_expired_at(t - 1));
    assert!(!user("active", Some("garbage")).is_expired_at(now()));
}

fn device(tok: &str, revoked: i64, exp: Option<&str>, last_seen: Option<&str>) -> nodeauth::models::Device {
    nodeauth::models::Device {
        id: 1,
        user_id: 1,
        device_fp: "fp".into(),
        platform: None,
        token: Some(tok.into()),
        token_expires_at: exp.map(|s| s.into()),
        revoked,
        created_at: Utc::now().to_rfc3339(),
        last_seen_at: last_seen.map(|s| s.into()),
    }
}

#[test]
fn ensure_subscription_key_is_idempotent() {
    let mut u = user("active", None);
    let (first, fresh) = ensure_subscription_key(Some(&u));
    assert!(!first.is_empty());
    assert!(fresh);
    u.subscription_key = Some(first.clone());
    let (second, fresh) = ensure_subscription_key(Some(&u));
    assert_eq!(first, second, "an existing key must be reused, not regenerated");
    assert!(!fresh);
    // An empty stored key counts as none.
    u.subscription_key = Some(String::new());
    let (third, fresh) = ensure_subscription_key(Some(&u));
    assert_eq!(third.len(), 64);
    assert!(fresh);
}

#[test]
fn latest_active_token_picks_recent_unexpired_unrevoked() {
    let future = (Utc::now() + Duration::days(7)).to_rfc3339();
    let past = (Utc::now() - Duration::days(1)).to_rfc3339();
    let devices = vec![
        device("revoked-tok", 1, Some(&future), Some("2000-01-01T00:00:00Z")),
        device("expired-tok", 0, Some(&past), Some("2001-01-01T00:00:00Z")),
        device("good-tok", 0, Some(&future), Some("2099-01-01T00:00:00Z")),
    ];
    assert_eq!(latest_active_token(&devices, now()), Some("good-tok".to_string()));
    assert_eq!(latest_active_token(&devices[..2].to_vec(), now()), None);
    assert_eq!(latest_active_token(&vec![], now()), None);
}

#[test]
fn latest_active_token_prefers_the_latest_seen() {
    let devices = vec![
        device("never-seen", 0, None, None),
        device("older", 0, None, Some("2024-01-01T00:00:00Z")),
        device("newer", 0, None, Some("2024-06-01T00:00:00Z")),
        device("middle", 0, None, Some("2024-03-01T00:00:00Z")),
    ];
    assert_eq!(latest_active_token(&devices, now()), Some("newer".to_string()));
    assert_eq!(latest_active_token(&devices[..1].to_vec(), now()), Some("never-seen".to_string()));
    assert!(text_less("2024-01-01", "2024-01-02"));
    assert!(text_less("abc", "abcd"));
    assert!(!text_less("b", "abc"));
    assert!(!text_less("same", "same"));
}

#[test]
fn count_user_devices_ignores_revoked() {
    let devices = vec![
        device("t1", 0, None, None),
        device("t2", 1, None, None),
        device("t3", 0, None, None),
    ];
    assert_eq!(count_user_devices(&devices), 2);
    assert_eq!(count_user_devices(&vec![]), 0);
}

#[test]
fn rfc3339_texts_sort_like_their_instants() {
    let base = parse_dt("2030-01-01T00:00:00Z").unwrap();
    let steps: [i128; 7] = [0, 1, 999, 1_000, 100_000_000, 100_001_000, 1_000_000_000];
    let texts: Vec<String> = steps.iter().map(|d| nodeauth::time::rfc3339(base + d)).collect();
    for i in 0..texts.len() {
        for j in 0..texts.len() {
            assert_eq!(text_less(&texts[i], &texts[j]), steps[i] < steps[j], "{} vs {}", texts[i], texts[j]);
        }
    }
}
