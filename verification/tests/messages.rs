use nodeauth::config::Config;
use nodeauth::models::User;
use nodeauth::notify::{
    authorization_notice, authorized_body, authorized_detail, authorized_tg_text, registration_body,
    registration_detail, registration_notice, registration_subject, AUTHORIZED_SUBJECT,
};
use nodeauth::telegram::{api, approval_text, approve_data, reject_data};
use nodeauth::tg::{approval_terms, webhook_plan, CallbackAction, CallbackQuery, TgUser, Update};
use nodeauth::time::{add_days, parse_dt, rfc3339};

fn env(pairs: &[(&str, &str)]) -> Vec<(String, String)> {
    pairs.iter().map(|(k, v)| (k.to_string(), v.to_string())).collect()
}

fn full_config() -> Config {
    Config::from_env(&env(&[
        ("PUBLIC_BASE_URL", "https://auth.example.com"),
        ("SMTP_HOST", "smtp.example.com"),
        ("SMTP_USERNAME", "bot@example.com"),
        ("SMTP_PASSWORD", "pw"),
        ("ADMIN_EMAIL", "boss@example.com"),
        ("TELEGRAM_BOT_TOKEN", "123:abc"),
        ("TELEGRAM_ADMIN_CHAT_ID", "42"),
    ]))
}

fn press(data: Option<&str>, from: Option<i64>) -> Update {
    Update {
        callback_query: Some(CallbackQuery {
            id: "cb-1".into(),
            data: data.map(|d| d.into()),
            from: from.map(|id| TgUser { id }),
        }),
    }
}

#[test]
fn telegram_endpoints_and_button_data() {
    assert_eq!(api("123:abc", "sendMessage"), "https://api.telegram.org/bot123:abc/sendMessage");
    assert_eq!(approve_data(17), "approve:17");
    assert_eq!(reject_data(-3), "reject:-3");
    let text = approval_text("a@e.com", "fp-1", "linux");
    assert!(text.starts_with("🆕 <b>新设备注册申请</b>\n邮箱: <code>a@e.com</code>\n平台: linux\n设备指纹: <code>fp-1</code>"));
}

#[test]
fn notices_render_their_texts() {
    assert_eq!(registration_detail("linux", "fp-1"), "platform=linux device_fp=fp-1");
    assert_eq!(registration_subject("a@e.com"), "[Clash Verge] 新设备注册申请: a@e.com");
    assert_eq!(
        registration_body("a@e.com", "linux", "fp-1", "https://x"),
        "收到新的设备注册/绑定申请：\n\n邮箱: a@e.com\n平台: linux\n设备指纹: fp-1\n\n请到后台审批: https://x/admin/users\n"
    );
    assert_eq!(authorized_detail(3, "-"), "max_devices=3 expires_at=-");
    assert_eq!(authorized_tg_text("a@e.com", 2, "长期"), "✅ 已开通用户 <code>a@e.com</code>\n设备数: 2 | 到期: 长期");
    assert!(authorized_body("a@e.com", 2, "长期", "https://x").contains("可绑定设备数: 2\n有效期至: 长期"));
}

#[test]
fn registration_notice_uses_the_configured_channels() {
    let cfg = full_config();
    let n = registration_notice(&cfg, "a@e.com", "fp-1", "linux");
    assert_eq!(n.detail, "platform=linux device_fp=fp-1");
    assert!(n.telegram);
    let mail = n.mail.unwrap();
    assert_eq!(mail.to, "boss@example.com");
    assert_eq!(mail.subject, "[Clash Verge] 新设备注册申请: a@e.com");
    assert!(mail.body.contains("https://auth.example.com/admin/users"));

    let bare = Config::from_env(&vec![]);
    let n = registration_notice(&bare, "a@e.com", "fp-1", "linux");
    assert!(!n.telegram);
    assert!(n.mail.is_none());
}

#[test]
fn authorization_notice_tells_the_user() {
    let cfg = full_config();
    let user = User {
        id: 1,
        email: "a@e.com".into(),
        password_hash: "x".into(),
        status: "active".into(),
        max_devices: 2,
        expires_at: None,
        note: None,
        subscription_key: None,
        created_at: "2024-01-01T00:00:00Z".into(),
        authorized_at: None,
    };
    let n = authorization_notice(&cfg, &user);
    assert_eq!(n.detail, "max_devices=2 expires_at=-");
    let mail = n.mail.unwrap();
    assert_eq!(mail.to, "a@e.com");
    assert_eq!(mail.subject, AUTHORIZED_SUBJECT);
    assert!(mail.body.contains("有效期至: 长期"));
    assert_eq!(n.telegram_text.unwrap(), "✅ 已开通用户 <code>a@e.com</code>\n设备数: 2 | 到期: 长期");
}

#[test]
fn webhook_acts_only_on_the_administrators_presses() {
    let cfg = full_config();
    let p = webhook_plan(&cfg.telegram, &press(Some("approve:5"), Some(42)));
    assert!(matches!(p.action, CallbackAction::Approve(5)));
    assert_eq!(p.answer, Some(("cb-1".to_string(), "✅ 已授权".to_string())));
    let p = webhook_plan(&cfg.telegram, &press(Some("reject:6"), Some(42)));
    assert!(matches!(p.action, CallbackAction::Reject(6)));
    assert_eq!(p.answer, Some(("cb-1".to_string(), "❌ 已拒绝".to_string())));
    let p = webhook_plan(&cfg.telegram, &press(Some("approve:x"), Some(42)));
    assert!(matches!(p.action, CallbackAction::Nothing));
    assert_eq!(p.answer, Some(("cb-1".to_string(), "已处理".to_string())));
    let p = webhook_plan(&cfg.telegram, &press(Some("approve:5"), Some(7)));
    assert!(matches!(p.action, CallbackAction::Nothing));
    assert_eq!(p.answer, Some(("cb-1".to_string(), "无权限".to_string())));
    let p = webhook_plan(&cfg.telegram, &Update { callback_query: None });
    assert!(matches!(p.action, CallbackAction::Nothing));
    assert!(p.answer.is_none());
    let p = webhook_plan(&None, &press(Some("approve:5"), Some(42)));
    assert!(matches!(p.action, CallbackAction::Nothing));
    assert!(p.answer.is_none());
}

#[test]
fn buttons_round_trip_through_the_webhook() {
    let cfg = full_config();
    let p = webhook_plan(&cfg.telegram, &press(Some(&approve_data(123)), Some(42)));
    assert!(matches!(p.action, CallbackAction::Approve(123)));
    let p = webhook_plan(&cfg.telegram, &press(Some(&reject_data(i64::MIN)), Some(42)));
    assert!(matches!(p.action, CallbackAction::Reject(i64::MIN)));
}

#[test]
fn approval_terms_use_the_defaults() {
    let cfg = full_config();
    let t = parse_dt("2030-01-01T00:00:00Z").unwrap();
    let (max, exp) = approval_terms(&cfg, t);
    assert_eq!(max, 1);
    assert_eq!(exp, rfc3339(add_days(t, 30)));
    assert_eq!(exp, "2030-01-31T00:00:00+00:00");
}

#[test]
fn verification_mail_carries_the_link() {
    let m = nodeauth::notify::verification_mail("a@e.com", "tok", "https://x");
    assert_eq!(m.to, "a@e.com");
    assert_eq!(m.subject, "[Clash Verge] 邮箱验证");
    assert_eq!(m.body, "请点击以下链接完成邮箱验证：\n\nhttps://x/verify?token=tok\n");
}
