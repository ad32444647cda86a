use nodeauth::admin::{
    admin_login, admin_login_at, admin_logout, authorize_terms, cookie_value, dashboard_stats, extended_expiry,
    extension_base, html_escape, is_authed, is_authed_at, login_failed_page, login_page, nav, page,
    render_dashboard, template_page, user_row, AuthorizeForm, LoginForm, LOGOUT_COOKIE, NAV,
};
use nodeauth::auth::SessionStore;
use nodeauth::config::Config;
use nodeauth::models::{Device, User};
use nodeauth::time::{add_days, now, parse_dt, rfc3339};

fn config() -> Config {
    Config::from_env(&vec![
        ("ADMIN_USERNAME".to_string(), "root".to_string()),
        ("ADMIN_PASSWORD".to_string(), "s3cret".to_string()),
    ])
}

fn user(id: i64, email: &str, status: &str, expires_at: Option<&str>) -> User {
    User {
        id,
        email: email.into(),
        password_hash: "x".into(),
        status: status.into(),
        max_devices: 2,
        expires_at: expires_at.map(|s| s.into()),
        note: None,
        subscription_key: None,
        created_at: "2024-01-01T00:00:00Z".into(),
        authorized_at: None,
    }
}

fn device(platform: Option<&str>, revoked: i64) -> Device {
    Device {
        id: 1,
        user_id: 1,
        device_fp: "fp".into(),
        platform: platform.map(|p| p.into()),
        token: None,
        token_expires_at: None,
        revoked,
        created_at: "2024-01-01T00:00:00Z".into(),
        last_seen_at: None,
    }
}

#[test]
fn html_escape_covers_the_four_characters() {
    assert_eq!(html_escape("<a href=\"x\">&</a>"), "&lt;a href=&quot;x&quot;&gt;&amp;&lt;/a&gt;");
    assert_eq!(html_escape("it's plain"), "it's plain");
    assert_eq!(html_escape(""), "");
}

#[test]
fn cookie_value_finds_the_named_pair() {
    assert_eq!(cookie_value(Some("a=1; sid=abc; b=2"), "sid"), Some("abc".to_string()));
    assert_eq!(cookie_value(Some("sid=x=y"), "sid"), Some("x=y".to_string()));
    assert_eq!(cookie_value(Some("  sid=first ;sid=second"), "sid"), Some("first".to_string()));
    assert_eq!(cookie_value(Some("sidx=1; flag"), "sid"), None);
    assert_eq!(cookie_value(None, "sid"), None);
}

#[test]
fn admin_login_opens_a_session_for_the_right_credentials() {
    let cfg = config();
    let mut sessions = SessionStore::new();
    let bad = LoginForm { username: "root".into(), password: "nope".into() };
    assert!(admin_login(&cfg, &bad, &mut sessions).is_none());
    let good = LoginForm { username: "root".into(), password: "s3cret".into() };
    let cookie = admin_login(&cfg, &good, &mut sessions).unwrap();
    assert!(cookie.starts_with("sid="));
    assert!(cookie.ends_with("; HttpOnly; Path=/; SameSite=Lax; Max-Age=604800"));
    let sid = cookie_value(Some(&cookie), "sid").unwrap();
    let sid = sid.split(';').next().unwrap().to_string();
    let header = format!("sid={sid}");
    assert!(is_authed(&mut sessions, Some(&header)));
    assert!(!is_authed(&mut sessions, Some("sid=other")));
    assert!(!is_authed(&mut sessions, None));
    admin_logout(&mut sessions, Some(&header));
    assert!(!is_authed(&mut sessions, Some(&header)));
    assert_eq!(LOGOUT_COOKIE, "sid=; HttpOnly; Path=/; Max-Age=0");
}

#[test]
fn an_expired_admin_session_is_refused_and_dropped() {
    let mut sessions = SessionStore::new();
    let t = now();
    sessions.create_at("s".to_string(), t);
    assert!(is_authed_at(&mut sessions, Some("sid=s"), add_days(t, 7) - 1));
    assert!(!is_authed_at(&mut sessions, Some("sid=s"), add_days(t, 7)));
    assert!(!sessions.contains("s"));
}

#[test]
fn authorize_terms_floor_the_device_limit_and_set_the_term() {
    let t = parse_dt("2030-01-01T00:00:00Z").unwrap();
    let (max, exp) = authorize_terms(&AuthorizeForm { max_devices: 0, valid_days: 30 }, t);
    assert_eq!(max, 1);
    assert_eq!(exp, Some(rfc3339(add_days(t, 30))));
    assert_eq!(exp.unwrap(), "2030-01-31T00:00:00+00:00");
    let (max, exp) = authorize_terms(&AuthorizeForm { max_devices: 5, valid_days: 0 }, t);
    assert_eq!(max, 5);
    assert_eq!(exp, None);
}

#[test]
fn extensions_count_from_the_later_of_expiry_and_now() {
    let t = parse_dt("2030-01-01T00:00:00Z").unwrap();
    let later = Some("2030-02-01T00:00:00Z".to_string());
    let earlier = Some("2029-02-01T00:00:00Z".to_string());
    assert_eq!(extension_base(&later, t), parse_dt("2030-02-01T00:00:00Z").unwrap());
    assert_eq!(extension_base(&earlier, t), t);
    assert_eq!(extension_base(&None, t), t);
    assert_eq!(extension_base(&Some("garbage".to_string()), t), t);
    assert_eq!(extended_expiry(t, 0), "2030-01-02T00:00:00+00:00");
    assert_eq!(extended_expiry(t, 10), "2030-01-11T00:00:00+00:00");
}

#[test]
fn pages_wrap_their_body() {
    let p = page("T", "<b>x</b>");
    assert!(p.starts_with("<!DOCTYPE html>"));
    assert!(p.contains("<title>T</title>"));
    assert!(p.ends_with("<body><b>x</b></body></html>"));
    assert_eq!(nav(), NAV);
    assert!(login_page().contains("管理员登录"));
    assert!(login_failed_page().contains("用户名或密码错误"));
    let tp = template_page("a: <b>");
    assert!(tp.contains("<textarea name=\"template\">a: &lt;b&gt;</textarea>"));
    assert!(tp.contains("__NODE_TOKEN__"));
}

#[test]
fn dashboard_counts_accounts_by_state() {
    let t = parse_dt("2030-01-01T00:00:00Z").unwrap();
    let users = vec![
        user(1, "a@e.com", "active", None),
        user(2, "b@e.com", "active", Some("2029-01-01T00:00:00Z")),
        user(3, "c@e.com", "pending", None),
        user(4, "d@e.com", "suspended", Some("2031-01-01T00:00:00Z")),
    ];
    let s = dashboard_stats(&users, t);
    assert_eq!((s.total, s.active, s.pending, s.expired), (4, 1, 1, 1));
}

#[test]
fn user_row_shows_state_devices_and_actions() {
    let t = parse_dt("2030-01-01T00:00:00Z").unwrap();
    let u = user(7, "<x>@e.com", "suspended", None);
    let devices = vec![device(Some("linux"), 0), device(None, 1), device(Some("a&b"), 0)];
    let row = user_row(&u, &devices, t);
    assert!(row.starts_with("<tr>\n<td>7</td>\n<td>&lt;x&gt;@e.com"));
    assert!(row.contains("<div class=\"muted\">linux, ?(禁), a&amp;b</div>"));
    assert!(row.contains("<span class=\"badge b-suspended\">停用</span>"));
    assert!(row.contains("<td>2/2</td>"));
    assert!(row.contains("<td>长期</td>"));
    assert!(row.contains("/admin/users/7/activate\"><button class=\"ghost\">恢复</button>"));
    let active = user(8, "e@e.com", "active", Some("2029-01-01T00:00:00Z"));
    let row = user_row(&active, &vec![], t);
    assert!(row.contains("<span class=\"badge b-active\">已过期</span>"));
    assert!(row.contains("/admin/users/8/suspend\"><button class=\"ghost\">停用</button>"));
}

#[test]
fn dashboard_lists_every_account() {
    let t = parse_dt("2030-01-01T00:00:00Z").unwrap();
    let users = vec![user(1, "a@e.com", "active", None), user(2, "b@e.com", "pending", None)];
    let devices = vec![vec![device(Some("linux"), 0)], vec![]];
    let html = render_dashboard(&users, &devices, t);
    assert!(html.contains("<title>后台</title>"));
    assert!(html.contains("<div class=\"n\">2</div><div class=\"l\">总用户</div>"));
    assert!(html.contains(&user_row(&users[0], &devices[0], t)));
    assert!(html.contains(&user_row(&users[1], &devices[1], t)));
}

#[test]
fn admin_login_at_opens_the_given_session_for_seven_days() {
    let cfg = config();
    let mut sessions = SessionStore::new();
    let t = parse_dt("2030-01-01T00:00:00Z").unwrap();
    let good = LoginForm { username: "root".into(), password: "s3cret".into() };
    let cookie = admin_login_at(&cfg, &good, &mut sessions, "abc".to_string(), t).unwrap();
    assert_eq!(cookie, "sid=abc; HttpOnly; Path=/; SameSite=Lax; Max-Age=604800");
    assert!(is_authed_at(&mut sessions, Some("sid=abc"), add_days(t, 7) - 1));
    assert!(!is_authed_at(&mut sessions, Some("sid=abc"), add_days(t, 7)));
    let bad = LoginForm { username: "root".into(), password: "x".into() };
    assert!(admin_login_at(&cfg, &bad, &mut sessions, "def".to_string(), t).is_none());
    assert!(!sessions.contains("def"));
}
