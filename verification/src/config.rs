//! Runtime configuration, read from the process environment (and `.env`).

use crate::num::{parse_int, spec_parse_int};
use crate::text::{str_eq, trim, trim_str};
use vstd::prelude::*;

verus! {

/// SMTP settings for mail notices.
#[derive(Clone, Debug)]
pub struct SmtpConfig {
    pub host: String,
    pub port: u16,
    pub username: String,
    pub password: String,
    /// Sender address (usually the user name).
    pub from: String,
    /// Where registration notices go.
    pub admin_to: String,
}

/// Telegram bot settings.
#[derive(Clone, Debug)]
pub struct TelegramConfig {
    pub bot_token: String,
    pub admin_chat_id: String,
}

/// The server's configuration.
#[derive(Clone, Debug)]
pub struct Config {
    pub bind_addr: String,
    pub database_url: String,
    pub public_base_url: String,
    pub admin_username: String,
    pub admin_password: String,
    pub default_max_devices: u32,
    pub default_valid_days: i64,
    pub token_ttl_days: i64,
    pub smtp: Option<SmtpConfig>,
    pub telegram: Option<TelegramConfig>,
}

/// The environment as pairs of texts.
pub open spec fn env_view(env: Seq<(String, String)>) -> Seq<(Seq<char>, Seq<char>)> {
    env.map_values(|p: (String, String)| (p.0@, p.1@))
}

/// The value of variable `key` in `env` (the first entry with that name).
pub open spec fn env_lookup(env: Seq<(Seq<char>, Seq<char>)>, key: Seq<char>) -> Option<Seq<char>>
    decreases env.len(),
{
    if env.len() == 0 {
        None
    } else if env[0].0 == key {
        Some(env[0].1)
    } else {
        env_lookup(env.drop_first(), key)
    }
}

/// `var`: the value of `key` when it is set and not blank.
pub open spec fn spec_var(env: Seq<(Seq<char>, Seq<char>)>, key: Seq<char>) -> Option<Seq<char>> {
    match env_lookup(env, key) {
        Some(v) => if trim(v).len() > 0 { Some(v) } else { None },
        None => None,
    }
}

/// `var_or`: the value of `key`, or `default` when it is unset or blank.
pub open spec fn spec_var_or(env: Seq<(Seq<char>, Seq<char>)>, key: Seq<char>, default: Seq<char>) -> Seq<char> {
    match spec_var(env, key) {
        Some(v) => v,
        None => default,
    }
}

/// `text.parse().unwrap_or(default)` for a type whose values are `lo..=hi`.
pub open spec fn parse_or(text: Seq<char>, lo: int, hi: int, signed: bool, default: int) -> int {
    match spec_parse_int(text, lo, hi, signed) {
        Some(v) => v,
        None => default,
    }
}

fn lookup(env: &Vec<(String, String)>, key: &str) -> (r: Option<String>)
    ensures
        match r {
            Some(v) => env_lookup(env_view(env@), key@) == Some(v@),
            None => env_lookup(env_view(env@), key@) is None,
        },
{
    let mut i: usize = 0;
    assert(env_view(env@).subrange(0, env.len() as int) =~= env_view(env@));
    while i < env.len()
        invariant
            i <= env.len(),
            env_lookup(env_view(env@), key@) == env_lookup(env_view(env@).subrange(i as int, env.len() as int), key@),
        decreases env.len() - i,
    {
        let ghost rest = env_view(env@).subrange(i as int, env.len() as int);
        assert(rest.drop_first() =~= env_view(env@).subrange(i + 1, env.len() as int));
        if str_eq(env[i].0.as_str(), key) {
            return Some(env[i].1.clone());
        }
        i = i + 1;
    }
    None
}

/// The value of `key` when it is set and not blank.
pub fn var(env: &Vec<(String, String)>, key: &str) -> (r: Option<String>)
    ensures
        match r {
            Some(v) => spec_var(env_view(env@), key@) == Some(v@),
            None => spec_var(env_view(env@), key@) is None,
        },
{
    match lookup(env, key) {
        Some(v) => {
            if trim_str(v.as_str()).unicode_len() > 0 {
                Some(v)
            } else {
                None
            }
        },
        None => None,
    }
}

/// The value of `key`, or `default` when it is unset or blank.
pub fn var_or(env: &Vec<(String, String)>, key: &str, default: &str) -> (r: String)
    ensures
        r@ == spec_var_or(env_view(env@), key@, default@),
{
    match var(env, key) {
        Some(v) => v,
        None => default.to_string(),
    }
}

fn parse_u16_or(text: &str, default: u16) -> (r: u16)
    ensures
        r == parse_or(text@, 0, 0xffff, false, default as int),
{
    match parse_int(text, 0, 0xffff, false) {
        Some(v) => v as u16,
        None => default,
    }
}

fn parse_u32_or(text: &str, default: u32) -> (r: u32)
    ensures
        r == parse_or(text@, 0, 0xffff_ffff, false, default as int),
{
    match parse_int(text, 0, 0xffff_ffff, false) {
        Some(v) => v as u32,
        None => default,
    }
}

fn parse_i64_or(text: &str, default: i64) -> (r: i64)
    ensures
        r == parse_or(text@, i64::MIN as int, i64::MAX as int, true, default as int),
{
    match parse_int(text, i64::MIN as i128, i64::MAX as i128, true) {
        Some(v) => v as i64,
        None => default,
    }
}

/// The SMTP settings that `env` gives: present when the host, user name and
/// password are all set; the sender defaults to the user name, the notice
/// address to the sender, and the port to 465.
pub open spec fn smtp_present(env: Seq<(Seq<char>, Seq<char>)>) -> bool {
    spec_var(env, "SMTP_HOST"@) is Some && spec_var(env, "SMTP_USERNAME"@) is Some && spec_var(
        env,
        "SMTP_PASSWORD"@,
    ) is Some
}

impl Config {
    /// Reads the configuration from the environment `env` (name, value pairs).
    pub fn from_env(env: &Vec<(String, String)>) -> (c: Config)
        ensures
            ({
                let e = env_view(env@);
                &&& c.bind_addr@ == spec_var_or(e, "BIND_ADDR"@, "0.0.0.0:8080"@)
                &&& c.database_url@ == spec_var_or(e, "DATABASE_URL"@, "sqlite://data/nodeauth.db"@)
                &&& c.public_base_url@ == spec_var_or(e, "PUBLIC_BASE_URL"@, "http://127.0.0.1:8080"@)
                &&& c.admin_username@ == spec_var_or(e, "ADMIN_USERNAME"@, "admin"@)
                &&& c.admin_password@ == spec_var_or(e, "ADMIN_PASSWORD"@, "change-me"@)
                &&& c.default_max_devices == parse_or(
                    spec_var_or(e, "DEFAULT_MAX_DEVICES"@, "1"@),
                    0,
                    0xffff_ffff,
                    false,
                    1,
                )
                &&& c.default_valid_days == parse_or(
                    spec_var_or(e, "DEFAULT_VALID_DAYS"@, "30"@),
                    i64::MIN as int,
                    i64::MAX as int,
                    true,
                    30,
                )
                &&& c.token_ttl_days == parse_or(
                    spec_var_or(e, "TOKEN_TTL_DAYS"@, "7"@),
                    i64::MIN as int,
                    i64::MAX as int,
                    true,
                    7,
                )
                &&& (c.smtp is Some <==> smtp_present(e))
                &&& c.smtp matches Some(s) ==> {
                    &&& Some(s.host@) == spec_var(e, "SMTP_HOST"@)
                    &&& Some(s.username@) == spec_var(e, "SMTP_USERNAME"@)
                    &&& Some(s.password@) == spec_var(e, "SMTP_PASSWORD"@)
                    &&& s.from@ == spec_var_or(e, "SMTP_FROM"@, s.username@)
                    &&& s.admin_to@ == spec_var_or(e, "ADMIN_EMAIL"@, s.from@)
                    &&& s.port == parse_or(spec_var_or(e, "SMTP_PORT"@, "465"@), 0, 0xffff, false, 465)
                }
                &&& (c.telegram is Some <==> (spec_var(e, "TELEGRAM_BOT_TOKEN"@) is Some && spec_var(
                    e,
                    "TELEGRAM_ADMIN_CHAT_ID"@,
                ) is Some))
                &&& c.telegram matches Some(t) ==> {
                    &&& Some(t.bot_token@) == spec_var(e, "TELEGRAM_BOT_TOKEN"@)
                    &&& Some(t.admin_chat_id@) == spec_var(e, "TELEGRAM_ADMIN_CHAT_ID"@)
                }
            }),
    {
        let smtp = match (var(env, "SMTP_HOST"), var(env, "SMTP_USERNAME"), var(env, "SMTP_PASSWORD")) {
            (Some(host), Some(username), Some(password)) => {
                let from = var_or(env, "SMTP_FROM", username.as_str());
                let admin_to = var_or(env, "ADMIN_EMAIL", from.as_str());
                let port_text = var_or(env, "SMTP_PORT", "465");
                Some(
                    SmtpConfig {
                        host,
                        port: parse_u16_or(port_text.as_str(), 465),
                        username,
                        password,
                        from,
                        admin_to,
                    },
                )
            },
            _ => None,
        };
        let telegram = match (var(env, "TELEGRAM_BOT_TOKEN"), var(env, "TELEGRAM_ADMIN_CHAT_ID")) {
            (Some(bot_token), Some(admin_chat_id)) => Some(TelegramConfig { bot_token, admin_chat_id }),
            _ => None,
        };
        let max_devices_text = var_or(env, "DEFAULT_MAX_DEVICES", "1");
        let valid_days_text = var_or(env, "DEFAULT_VALID_DAYS", "30");
        let ttl_text = var_or(env, "TOKEN_TTL_DAYS", "7");
        Config {
            bind_addr: var_or(env, "BIND_ADDR", "0.0.0.0:8080"),
            database_url: var_or(env, "DATABASE_URL", "sqlite://data/nodeauth.db"),
            public_base_url: var_or(env, "PUBLIC_BASE_URL", "http://127.0.0.1:8080"),
            admin_username: var_or(env, "ADMIN_USERNAME", "admin"),
            admin_password: var_or(env, "ADMIN_PASSWORD", "change-me"),
            default_max_devices: parse_u32_or(max_devices_text.as_str(), 1),
            default_valid_days: parse_i64_or(valid_days_text.as_str(), 30),
            token_ttl_days: parse_i64_or(ttl_text.as_str(), 7),
            smtp,
            telegram,
        }
    }
}

} // verus!
