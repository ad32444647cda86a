use chrono::{Duration, Utc};
use nodeauth::node_auth::{
    current_token, device_fingerprint, is_expired, is_expired_at, login_url, needs_renew,
    needs_renew_at, normalize_server, parse_expiry, platform_name, session_from_login,
    should_renew, status, LoginResponse, NodeAuthState,
};
use nodeauth::time::parse_dt;

fn state(token: &str, expires_at: &str, password: &str) -> NodeAuthState {
    NodeAuthState {
        server: "https://auth.example.com".into(),
        username: "alice@example.com".into(),
        password: password.into(),
        token: token.into(),
        expires_at: expires_at.into(),
        device_fp: "linux-abc".into(),
        platform: "linux".into(),
        max_devices: Some(2),
        active_devices: Some(1),
    }
}

#[test]
fn normalize_server_adds_scheme_and_trims() {
    assert_eq!(normalize_server("auth.example.com/"), "https://auth.example.com");
    assert_eq!(normalize_server("http://1.2.3.4:9000"), "http://1.2.3.4:9000");
    assert_eq!(normalize_server(" https://a.com/ "), "https://a.com");
}

#[test]
fn normalize_server_strips_every_trailing_slash() {
    assert_eq!(normalize_server("a.com///"), "https://a.com");
    assert_eq!(normalize_server(""), "https://");
    assert_eq!(login_url("https://a.com"), "https://a.com/login");
}

#[test]
fn device_fingerprint_is_non_empty_and_prefixed() {
    let platform = platform_name("linux");
    let fp = device_fingerprint(platform, None, "my-host");
    assert!(!fp.is_empty());
    assert!(fp.starts_with(platform));
}

#[test]
fn device_fingerprint_prefers_the_trimmed_machine_id() {
    assert_eq!(device_fingerprint("linux", Some(" abc123\n".into()), "h"), "linux-abc123");
    assert_eq!(device_fingerprint("macos", Some("   ".into()), "h"), "macos-host-h");
    assert_eq!(device_fingerprint("windows", None, "pc"), "windows-host-pc");
}

#[test]
fn platform_name_maps_the_os() {
    assert_eq!(platform_name("windows"), "windows");
    assert_eq!(platform_name("macos"), "macos");
    assert_eq!(platform_name("linux"), "linux");
    assert_eq!(platform_name("freebsd"), "linux");
}

#[test]
fn expiry_helpers_handle_past_and_future() {
    let past = (Utc::now() - Duration::days(1)).to_rfc3339();
    let future = (Utc::now() + Duration::days(7)).to_rfc3339();
    let soon = (Utc::now() + Duration::days(1)).to_rfc3339();
    assert!(is_expired(&past));
    assert!(!is_expired(&future));
    assert!(needs_renew(&soon).unwrap());
    assert!(!needs_renew(&future).unwrap());
    // An expiry that cannot be read counts as neither expired nor due.
    assert!(!is_expired(""));
    assert!(!needs_renew("garbage").unwrap());
}

#[test]
fn parse_expiry_reads_rfc3339_and_naive_utc() {
    let t = parse_dt("2030-05-06T07:08:09Z").unwrap();
    assert_eq!(parse_expiry("2030-05-06T07:08:09Z"), Some(t));
    assert_eq!(parse_expiry("2030-05-06T07:08:09"), Some(t));
    assert_eq!(parse_expiry("2030-05-06T07:08:09.5"), Some(t + 500_000_000));
    assert_eq!(parse_expiry(""), None);
    assert_eq!(parse_expiry("garbage"), None);
}

#[test]
fn expiry_at_a_given_instant() {
    let exp = parse_dt("2030-01-10T00:00:00Z").unwrap();
    let day: i128 = 86_400_000_000_000;
    assert!(is_expired_at("2030-01-10T00:00:00Z", exp));
    assert!(!is_expired_at("2030-01-10T00:00:00Z", exp - 1));
    assert!(needs_renew_at("2030-01-10T00:00:00Z", exp - 2 * day));
    assert!(!needs_renew_at("2030-01-10T00:00:00Z", exp - 2 * day - 1));
}

#[test]
fn session_from_login_keeps_the_answer() {
    let resp = LoginResponse {
        token: "t".repeat(64),
        expires_at: "2030-01-01T00:00:00Z".into(),
        username: String::new(),
        max_devices: Some(3),
        active_devices: Some(1),
    };
    let s = session_from_login("https://a.com".into(), "bob", "pw", resp, "fp".into(), "linux")
        .ok()
        .unwrap();
    assert_eq!(s.username, "bob");
    assert_eq!(s.token, "t".repeat(64));
    assert_eq!(s.max_devices, Some(3));
    let empty = LoginResponse {
        token: String::new(),
        expires_at: String::new(),
        username: "x".into(),
        max_devices: None,
        active_devices: None,
    };
    let err = session_from_login("https://a.com".into(), "bob", "pw", empty, "fp".into(), "linux");
    assert_eq!(err.err().unwrap(), "登录响应缺少 token");
}

#[test]
fn status_and_current_token_follow_the_expiry() {
    let exp = parse_dt("2030-01-10T00:00:00Z").unwrap();
    let s = state("tok", "2030-01-10T00:00:00Z", "pw");
    let st = status(Some(&s), exp - 1);
    assert!(st.logged_in);
    assert!(!st.expired);
    assert_eq!(st.username, "alice@example.com");
    assert!(status(Some(&s), exp).expired);
    assert!(!status(None, exp).logged_in);
    assert_eq!(current_token(Some(&s), exp - 1), Some("tok".to_string()));
    assert_eq!(current_token(Some(&s), exp), None);
    assert_eq!(current_token(None, exp), None);
    assert_eq!(current_token(Some(&state("", "", "pw")), exp), None);
}

#[test]
fn an_expired_token_is_renewed_when_a_password_is_kept() {
    let exp = parse_dt("2030-01-10T00:00:00Z").unwrap();
    assert!(should_renew(Some(&state("tok", "2030-01-10T00:00:00Z", "pw")), exp + 1));
    assert!(!should_renew(Some(&state("tok", "2030-01-10T00:00:00Z", "")), exp + 1));
    assert!(!should_renew(Some(&state("tok", "garbage", "pw")), exp));
    assert!(!should_renew(None, exp));
}

#[test]
fn normalize_server_is_idempotent() {
    for s in ["auth.example.com/", " https://a.com/ ", "http://1.2.3.4:9000", "x"] {
        let r = normalize_server(s);
        assert_eq!(normalize_server(&r), r);
        assert!(!r.ends_with('/'));
    }
}
