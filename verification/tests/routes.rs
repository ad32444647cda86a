use nodeauth::auth::hash_password;
use nodeauth::clash::{render, DEFAULT_TEMPLATE};
use nodeauth::client::{
    capped_token_expiry, check_config_access, check_login, check_registration, check_subscription, config_token, hysteria_auth,
    hysteria_token, login_identity, login_response, registration_reply, subscription_fp, subscription_token,
    subscription_url, token_expiry, urlencode, verification_token, verified_page, ConfigQuery,
    HysteriaAuthRequest, LoginRequest, RegisterRequest, RegistrationStep, SubQuery, VerifyQuery,
};
use nodeauth::models::{Device, User};
use nodeauth::online::OnlineTracker;
use nodeauth::time::{add_days, now, parse_dt, rfc3339};
use std::time::Duration;

fn login_req(email: &str, password: &str, fp: &str) -> LoginRequest {
    LoginRequest {
        username: None,
        email: Some(email.to_string()),
        password: password.to_string(),
        device_fp: fp.to_string(),
        platform: "linux".to_string(),
    }
}

fn account(status: &str, password: &str, max_devices: i64, expires_at: Option<String>) -> User {
    User {
        id: 1,
        email: "alice@example.com".into(),
        password_hash: hash_password(password).ok().unwrap(),
        status: status.into(),
        max_devices,
        expires_at,
        note: None,
        subscription_key: None,
        created_at: rfc3339(now()),
        authorized_at: None,
    }
}

fn device(fp: &str, token: Option<&str>, expires_at: Option<String>, revoked: i64) -> Device {
    Device {
        id: 1,
        user_id: 1,
        device_fp: fp.into(),
        platform: Some("linux".into()),
        token: token.map(|t| t.to_string()),
        token_expires_at: expires_at,
        revoked,
        created_at: rfc3339(now()),
        last_seen_at: None,
    }
}

#[test]
fn registration_checks_its_input_in_order() {
    let mut req = RegisterRequest {
        username: None,
        email: Some("  Alice@Example.com ".into()),
        password: "hunter2".into(),
        device_fp: "fp-1".into(),
        platform: String::new(),
    };
    let ok = check_registration(&req).ok().unwrap();
    assert_eq!(ok.email, "alice@example.com");
    assert_eq!(ok.platform, "unknown");
    assert_eq!(req.email(), Some("Alice@Example.com"));

    req.password = "12345".into();
    let e = check_registration(&req).err().unwrap();
    assert_eq!((e.status, e.message.as_str()), (400, "密码至少 6 位"));

    req.email = Some("no-at-sign".into());
    let e = check_registration(&req).err().unwrap();
    assert_eq!(e.message, "邮箱格式不正确");

    req.email = Some("   ".into());
    req.username = Some("bob@example.com".into());
    let e = check_registration(&req).err().unwrap();
    assert_eq!(e.message, "缺少邮箱");

    req.email = None;
    req.password = "hunter2".into();
    req.device_fp = "  ".into();
    let e = check_registration(&req).err().unwrap();
    assert_eq!(e.message, "缺少设备指纹");
}

#[test]
fn registration_replies_by_account_state() {
    let (step, reply) = registration_reply(None, false, false);
    assert!(matches!(step, RegistrationStep::NotifyAdmin));
    assert_eq!(reply.status, "pending");
    let (step, reply) = registration_reply(None, false, true);
    assert!(matches!(step, RegistrationStep::SendVerification));
    assert_eq!(reply.status, "pending_verification");
    let (_, reply) = registration_reply(Some("suspended"), true, true);
    assert_eq!(reply.status, "suspended");
    assert_eq!(reply.message, "账号已被停用，请联系管理员。");
    let (step, reply) = registration_reply(Some("active"), false, true);
    assert!(matches!(step, RegistrationStep::SendVerification));
    assert_eq!(reply.status, "pending_verification");
}

#[test]
fn login_before_authorization_is_forbidden() {
    let req = login_req("alice@example.com", "hunter2", "fp-1");
    let pending = account("pending", "hunter2", 1, None);
    let e = check_login(&req, Some(&pending), true, None, 0, now()).err().unwrap();
    assert_eq!((e.status, e.message.as_str()), (403, "账号待管理员审核授权"));
}

#[test]
fn login_rejects_bad_credentials() {
    let req = login_req("nobody@example.com", "x", "fp");
    let e = check_login(&req, None, true, None, 0, now()).err().unwrap();
    assert_eq!((e.status, e.message.as_str()), (401, "用户名或密码错误"));
    let active = account("active", "hunter2", 1, None);
    let e = check_login(&req, Some(&active), true, None, 0, now()).err().unwrap();
    assert_eq!(e.status, 401);
}

#[test]
fn enforces_device_cap() {
    let active = account("active", "hunter2", 1, None);
    let first = login_req("bob@example.com", "hunter2", "fp-1");
    assert_eq!(check_login(&first, Some(&active), true, None, 0, now()).ok(), Some(true));
    let second = login_req("bob@example.com", "hunter2", "fp-2");
    let e = check_login(&second, Some(&active), true, None, 1, now()).err().unwrap();
    assert_eq!(e.status, 403);
    assert_eq!(e.message, "已达可绑定设备上限（1台），请在其它设备登出或联系管理员");
    // The bound device itself still logs in.
    let bound = device("fp-1", None, None, 0);
    assert_eq!(check_login(&first, Some(&active), true, Some(&bound), 1, now()).ok(), Some(false));
    let revoked = device("fp-1", None, None, 1);
    assert_eq!(check_login(&first, Some(&active), true, Some(&revoked), 1, now()).err().unwrap().status, 403);
}

#[test]
fn login_identity_lowercases_and_defaults_the_platform() {
    let mut req = login_req(" Alice@Example.COM ", "pw", "fp");
    req.platform = String::new();
    let id = login_identity(&req).ok().unwrap();
    assert_eq!(id.email, "alice@example.com");
    assert_eq!(id.platform, "unknown");
}

#[test]
fn token_expiry_is_capped_by_the_account_term() {
    let t = now();
    assert_eq!(token_expiry(&None, 7, t), add_days(t, 7));
    let soon = rfc3339(add_days(t, 2));
    assert_eq!(token_expiry(&Some(soon.clone()), 7, t), parse_dt(&soon).unwrap());
    let late = rfc3339(add_days(t, 30));
    assert_eq!(token_expiry(&Some(late), 7, t), add_days(t, 7));
    assert_eq!(token_expiry(&Some("garbage".into()), 7, t), add_days(t, 7));
}

#[test]
fn capped_token_expiry_takes_the_earlier_instant() {
    let day: i128 = 86_400_000_000_000;
    assert_eq!(capped_token_expiry(None, 7, 0), 7 * day);
    assert_eq!(capped_token_expiry(Some(3 * day), 7, 0), 3 * day);
    assert_eq!(capped_token_expiry(Some(9 * day), 7, 0), 7 * day);
    assert_eq!(capped_token_expiry(Some(7 * day), 7, 0), 7 * day);
}

#[test]
fn urlencode_keeps_unreserved_and_escapes_the_rest() {
    assert_eq!(urlencode("fp-1_a.b~Z9"), "fp-1_a.b~Z9");
    assert_eq!(urlencode("a b/ç"), "a%20b%2F%C3%A7");
    assert_eq!(subscription_url("http://test.local//", "k3y", "fp 1"), "http://test.local/sub/k3y?fp=fp%201");
}

#[test]
fn full_register_authorize_login_inject_flow() {
    let t = now();
    let reg = RegisterRequest {
        username: None,
        email: Some("alice@example.com".into()),
        password: "hunter2".into(),
        device_fp: "fp-1".into(),
        platform: "linux".into(),
    };
    let r = check_registration(&reg).ok().unwrap();
    assert_eq!(r.email, "alice@example.com");
    let (_, reply) = registration_reply(None, false, false);
    assert_eq!(reply.status, "pending");

    // Before authorization the login is refused.
    let req = login_req("alice@example.com", "hunter2", "fp-1");
    let mut user = account("pending", "hunter2", 1, None);
    assert_eq!(check_login(&req, Some(&user), true, None, 0, t).err().unwrap().status, 403);

    // Authorized for 2 devices / 30 days.
    user.status = "active".into();
    user.max_devices = 2;
    user.expires_at = Some(rfc3339(add_days(t, 30)));
    assert_eq!(check_login(&req, Some(&user), true, None, 0, t).ok(), Some(true));
    let token = nodeauth::auth::gen_token();
    let exp = token_expiry(&user.expires_at, 7, t);
    let resp = login_response(token.clone(), exp, &user, 1, "subkey", "http://test.local", "fp-1");
    assert_eq!(resp.token.len(), 64);
    assert_eq!(resp.username, "alice@example.com");
    assert_eq!(resp.subscription_url, "http://test.local/sub/subkey?fp=fp-1");
    assert_eq!(parse_dt(&resp.expires_at), Some(exp));

    // /config?token= injects the token.
    let dev = device("fp-1", Some(&token), Some(resp.expires_at.clone()), 0);
    let q = ConfigQuery { token: Some(token.clone()) };
    assert_eq!(config_token(&q, None).ok().unwrap(), token);
    assert!(check_config_access(Some(&dev), Some(&user), t).is_ok());
    let yaml = render(DEFAULT_TEMPLATE, &token);
    assert!(yaml.contains(&format!("password: {token}")));

    // /sub/{key}?fp= injects the token of the most recently active device.
    let sq = SubQuery { fp: Some("fp-1".into()) };
    assert_eq!(subscription_fp(&sq), "fp-1");
    assert!(check_subscription(Some(&user), &sq, true, Some(&dev), t).is_ok());
    assert_eq!(subscription_token(&vec![dev.clone()], t), token);

    // hysteria2 auth callback.
    let mut tracker = OnlineTracker::new();
    let hreq = HysteriaAuthRequest {
        addr: "1.2.3.4:5678".into(),
        auth: Some(token.clone()),
        payload: None,
        tx: None,
    };
    assert_eq!(hysteria_token(&hreq), token);
    let reply = hysteria_auth(&mut tracker, &hreq, Ok(Some(&dev)), Some(&user), 2, Duration::from_secs(60).as_nanos(), t);
    assert!(reply.ok);
    assert_eq!(reply.id, "alice@example.com#fp-1");
}

#[test]
fn rejects_bad_credentials_and_tokens() {
    let t = now();
    // Invalid token for /config.
    let e = check_config_access(None, None, t).err().unwrap();
    assert_eq!((e.status, e.message.as_str()), (401, "token 无效"));
    let e = config_token(&ConfigQuery { token: None }, Some("Basic abc")).err().unwrap();
    assert_eq!(e.status, 401);
    assert_eq!(config_token(&ConfigQuery { token: None }, Some("Bearer deadbeef")).ok().unwrap(), "deadbeef");
    // hysteria2 callback with an unknown token.
    let mut tracker = OnlineTracker::new();
    let hreq = HysteriaAuthRequest { addr: String::new(), auth: None, payload: Some("deadbeef".into()), tx: None };
    let reply = hysteria_auth(&mut tracker, &hreq, Ok(None), None, 0, Duration::from_secs(60).as_nanos(), t);
    assert!(!reply.ok);
    assert_eq!(reply.msg, "token 无效");
    let empty = HysteriaAuthRequest { addr: String::new(), auth: None, payload: None, tx: None };
    let reply = hysteria_auth(&mut tracker, &empty, Ok(None), None, 0, Duration::from_secs(60).as_nanos(), t);
    assert_eq!(reply.msg, "缺少凭据");
}

#[test]
fn expired_device_tokens_are_refused() {
    let t = now();
    let user = account("active", "pw1234", 1, None);
    let dev = device("fp", Some("tok"), Some(rfc3339(add_days(t, -1))), 0);
    let e = check_config_access(Some(&dev), Some(&user), t).err().unwrap();
    assert_eq!(e.message, "token 已过期，请重新登录");
    let mut tracker = OnlineTracker::new();
    let hreq = HysteriaAuthRequest { addr: "1.1.1.1:1".into(), auth: Some("tok".into()), payload: None, tx: None };
    let reply = hysteria_auth(&mut tracker, &hreq, Ok(Some(&dev)), Some(&user), 1, Duration::from_secs(60).as_nanos(), t);
    assert_eq!(reply.msg, "token 已过期");
    // The subscription carries the latest active token of the account.
    let sq = SubQuery { fp: Some(" fp ".into()) };
    assert!(check_subscription(Some(&user), &sq, true, Some(&dev), t).is_ok());
    let mut latest = device("fp2", Some("latest"), None, 0);
    latest.last_seen_at = Some("2020-01-01T00:00:00Z".into());
    assert_eq!(subscription_token(&vec![dev.clone(), latest], t), "latest");
    assert_eq!(subscription_token(&vec![dev.clone()], t), "");
    assert_eq!(subscription_token(&vec![], t), "");
}

#[test]
fn subscription_requires_a_bound_device() {
    let t = now();
    let user = account("active", "pw1234", 1, None);
    let none = SubQuery { fp: None };
    let e = check_subscription(Some(&user), &none, true, None, t).err().unwrap();
    assert_eq!(e.status, 401);
    assert!(check_subscription(Some(&user), &none, false, None, t).is_ok());
    let other = SubQuery { fp: Some("fp-x".into()) };
    assert_eq!(check_subscription(Some(&user), &other, true, None, t).err().unwrap().status, 403);
    assert_eq!(check_subscription(None, &other, true, None, t).err().unwrap().status, 401);
}

#[test]
fn hysteria_limits_online_ips_per_token() {
    let t = now();
    let user = account("active", "pw1234", 1, None);
    let dev = device("fp", Some("tok"), None, 0);
    let mut tracker = OnlineTracker::new();
    let at = |addr: &str| HysteriaAuthRequest { addr: addr.into(), auth: Some("tok".into()), payload: None, tx: None };
    let ttl: u128 = Duration::from_secs(60).as_nanos();
    assert!(hysteria_auth(&mut tracker, &at("1.1.1.1:1"), Ok(Some(&dev)), Some(&user), 1, ttl, t).ok);
    let refused = hysteria_auth(&mut tracker, &at("2.2.2.2:1"), Ok(Some(&dev)), Some(&user), 1, ttl, t);
    assert!(!refused.ok);
    assert_eq!(refused.msg, "同时在线设备过多，请稍后再试或联系管理员");
    assert!(hysteria_auth(&mut tracker, &at("1.1.1.1:2"), Ok(Some(&dev)), Some(&user), 1, ttl, t).ok);
    let err = hysteria_auth(&mut tracker, &at("1.1.1.1:2"), Err(()), Some(&user), 1, ttl, t);
    assert_eq!(err.msg, "服务端错误");
}

#[test]
fn verification_link_is_read_and_acknowledged() {
    assert_eq!(verification_token(&VerifyQuery { token: Some(" abc ".into()) }).ok(), Some("abc"));
    assert_eq!(verification_token(&VerifyQuery { token: Some("  ".into()) }).err().unwrap().status, 400);
    let page = verified_page("a@b.c");
    assert!(page.contains("<p>a@b.c 已完成验证。</p>"));
}

#[test]
fn subscription_injects_the_most_recently_active_token_over_the_requesting_device() {
    let t = now();
    let mut mine = device("fp-1", Some("mine"), None, 0);
    mine.last_seen_at = Some("2024-01-01T00:00:00Z".into());
    let mut other = device("fp-2", Some("recent"), None, 0);
    other.last_seen_at = Some("2024-06-01T00:00:00Z".into());
    assert_eq!(subscription_token(&vec![mine, other], t), "recent");
}

#[test]
fn urlencode_writes_uppercase_escapes() {
    assert_eq!(urlencode("fp 1/ä"), "fp%201%2F%C3%A4");
}
