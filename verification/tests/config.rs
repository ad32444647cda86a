use nodeauth::config::{var, var_or, Config};

fn env(pairs: &[(&str, &str)]) -> Vec<(String, String)> {
    pairs.iter().map(|(k, v)| (k.to_string(), v.to_string())).collect()
}

#[test]
fn var_ignores_blank_values() {
    let e = env(&[("A", "x"), ("B", "   "), ("A", "second")]);
    assert_eq!(var(&e, "A"), Some("x".to_string()));
    assert_eq!(var(&e, "B"), None);
    assert_eq!(var(&e, "C"), None);
    assert_eq!(var_or(&e, "B", "dflt"), "dflt");
    assert_eq!(var_or(&e, "A", "dflt"), "x");
}

#[test]
fn from_env_defaults() {
    let c = Config::from_env(&vec![]);
    assert_eq!(c.bind_addr, "0.0.0.0:8080");
    assert_eq!(c.database_url, "sqlite://data/nodeauth.db");
    assert_eq!(c.public_base_url, "http://127.0.0.1:8080");
    assert_eq!(c.admin_username, "admin");
    assert_eq!(c.admin_password, "change-me");
    assert_eq!(c.default_max_devices, 1);
    assert_eq!(c.default_valid_days, 30);
    assert_eq!(c.token_ttl_days, 7);
    assert!(c.smtp.is_none());
    assert!(c.telegram.is_none());
}

#[test]
fn from_env_reads_numbers_and_falls_back_on_bad_ones() {
    let c = Config::from_env(&env(&[
        ("DEFAULT_MAX_DEVICES", "3"),
        ("DEFAULT_VALID_DAYS", "-5"),
        ("TOKEN_TTL_DAYS", "seven"),
    ]));
    assert_eq!(c.default_max_devices, 3);
    assert_eq!(c.default_valid_days, -5);
    assert_eq!(c.token_ttl_days, 7);
    let c = Config::from_env(&env(&[("DEFAULT_MAX_DEVICES", "-1")]));
    assert_eq!(c.default_max_devices, 1);
}

#[test]
fn smtp_needs_host_user_and_password() {
    let partial = Config::from_env(&env(&[("SMTP_HOST", "h"), ("SMTP_USERNAME", "u")]));
    assert!(partial.smtp.is_none());
    let c = Config::from_env(&env(&[
        ("SMTP_HOST", "h"),
        ("SMTP_USERNAME", "u@e.com"),
        ("SMTP_PASSWORD", "p"),
        ("SMTP_PORT", "587"),
    ]));
    let s = c.smtp.unwrap();
    assert_eq!(s.host, "h");
    assert_eq!(s.port, 587);
    assert_eq!(s.from, "u@e.com");
    assert_eq!(s.admin_to, "u@e.com");
    let c = Config::from_env(&env(&[
        ("SMTP_HOST", "h"),
        ("SMTP_USERNAME", "u"),
        ("SMTP_PASSWORD", "p"),
        ("SMTP_FROM", "f@e.com"),
        ("SMTP_PORT", "99999"),
    ]));
    let s = c.smtp.unwrap();
    assert_eq!(s.port, 465);
    assert_eq!(s.from, "f@e.com");
    assert_eq!(s.admin_to, "f@e.com");
}

#[test]
fn telegram_needs_token_and_chat() {
    let c = Config::from_env(&env(&[("TELEGRAM_BOT_TOKEN", "t")]));
    assert!(c.telegram.is_none());
    let c = Config::from_env(&env(&[("TELEGRAM_BOT_TOKEN", "t"), ("TELEGRAM_ADMIN_CHAT_ID", "9")]));
    let t = c.telegram.unwrap();
    assert_eq!(t.bot_token, "t");
    assert_eq!(t.admin_chat_id, "9");
}
