use nodeauth::auth::{gen_token, hash_password, verify_password, SessionStore};
use nodeauth::clash::{render, TOKEN_PLACEHOLDER};
use nodeauth::time::{add_days, now};

#[test]
fn hash_then_verify_round_trips() {
    let hash = hash_password("correct horse battery staple").ok().unwrap();
    assert!(verify_password("correct horse battery staple", &hash));
    assert!(!verify_password("wrong password", &hash));
}

#[test]
fn each_hash_is_salted_differently() {
    let a = hash_password("same").ok().unwrap();
    let b = hash_password("same").ok().unwrap();
    assert_ne!(a, b, "salt should make identical passwords hash differently");
    assert!(verify_password("same", &a));
    assert!(verify_password("same", &b));
}

#[test]
fn verify_rejects_malformed_hash() {
    assert!(!verify_password("whatever", "not-a-phc-hash"));
    assert!(!verify_password("whatever", ""));
}

#[test]
fn gen_token_is_64_hex_chars_and_unique() {
    let t = gen_token();
    assert_eq!(t.len(), 64);
    assert!(t.chars().all(|c| c.is_ascii_hexdigit()));
    assert_ne!(gen_token(), gen_token());
}

#[test]
fn gen_token_fills_every_placeholder() {
    let t = gen_token();
    let out = render("a: __NODE_TOKEN__\nb: __NODE_TOKEN__", &t);
    assert!(!out.contains(TOKEN_PLACEHOLDER));
    assert_eq!(out, format!("a: {t}\nb: {t}"));
}

#[test]
fn session_create_validate_destroy() {
    let mut store = SessionStore::new();
    let sid = store.create().unwrap();
    assert_eq!(sid.len(), 64);
    assert!(store.validate(&sid));
    store.destroy(&sid);
    assert!(!store.validate(&sid));
}

#[test]
fn session_validate_rejects_unknown_id() {
    let mut store = SessionStore::new();
    assert!(!store.validate("nonexistent"));
}

#[test]
fn session_validate_drops_expired_entry() {
    let mut store = SessionStore::new();
    let sid = "expired".to_string();
    store.insert_at(sid.clone(), now() - 1_000_000_000);
    assert!(!store.validate(&sid));
    // The expired entry should have been evicted on validation.
    assert!(!store.contains(&sid));
}

#[test]
fn session_lasts_seven_days() {
    let mut store = SessionStore::new();
    let t = now();
    store.create_at("s1".to_string(), t);
    assert!(store.validate_at("s1", add_days(t, 7) - 1));
    assert!(!store.validate_at("s1", add_days(t, 7)));
    assert!(!store.contains("s1"));
}

#[test]
fn destroying_one_session_keeps_the_others() {
    let mut store = SessionStore::new();
    let t = now();
    store.create_at("a".to_string(), t);
    store.create_at("b".to_string(), t);
    store.destroy("a");
    assert!(!store.validate_at("a", t));
    assert!(store.validate_at("b", t));
}
