//! Notices about registrations and authorisations: what is logged, what the
//! administrator and the user are told, and over which channels.

use crate::config::Config;
use crate::models::{opt_view, User};
use crate::num::{int_text, push_int};
use crate::text::{push_str, string_from_chars};
use vstd::prelude::*;

verus! {

/// The event detail logged for a registration request.
pub open spec fn spec_registration_detail(platform: Seq<char>, device_fp: Seq<char>) -> Seq<char> {
    "platform="@
        + platform
        + " device_fp="@
        + device_fp
}

/// The event detail logged for a registration request.
pub fn registration_detail(platform: &str, device_fp: &str) -> (r: String)
    ensures
        r@ == spec_registration_detail(platform@, device_fp@),
{
    let mut m: Vec<char> = Vec::new();
    push_str(&mut m, "platform=");
    push_str(&mut m, platform);
    push_str(&mut m, " device_fp=");
    push_str(&mut m, device_fp);
    let r = string_from_chars(m.as_slice());
    assert(r@ =~= spec_registration_detail(platform@, device_fp@));
    r
}

/// The subject of the administrator mail about a registration request.
pub open spec fn spec_registration_subject(email: Seq<char>) -> Seq<char> {
    "[Clash Verge] 新设备注册申请: "@
        + email
}

/// The subject of the administrator mail about a registration request.
pub fn registration_subject(email: &str) -> (r: String)
    ensures
        r@ == spec_registration_subject(email@),
{
    let mut m: Vec<char> = Vec::new();
    push_str(&mut m, "[Clash Verge] 新设备注册申请: ");
    push_str(&mut m, email);
    let r = string_from_chars(m.as_slice());
    assert(r@ =~= spec_registration_subject(email@));
    r
}

/// The administrator mail about a registration request.
pub open spec fn spec_registration_body(email: Seq<char>, platform: Seq<char>, device_fp: Seq<char>, public_base_url: Seq<char>) -> Seq<char> {
    "收到新的设备注册/绑定申请：\n\n邮箱: "@
        + email
        + "\n平台: "@
        + platform
        + "\n设备指纹: "@
        + device_fp
        + "\n\n请到后台审批: "@
        + public_base_url
        + "/admin/users\n"@
}

/// The administrator mail about a registration request.
pub fn registration_body(email: &str, platform: &str, device_fp: &str, public_base_url: &str) -> (r: String)
    ensures
        r@ == spec_registration_body(email@, platform@, device_fp@, public_base_url@),
{
    let mut m: Vec<char> = Vec::new();
    push_str(&mut m, "收到新的设备注册/绑定申请：\n\n邮箱: ");
    push_str(&mut m, email);
    push_str(&mut m, "\n平台: ");
    push_str(&mut m, platform);
    push_str(&mut m, "\n设备指纹: ");
    push_str(&mut m, device_fp);
    push_str(&mut m, "\n\n请到后台审批: ");
    push_str(&mut m, public_base_url);
    push_str(&mut m, "/admin/users\n");
    let r = string_from_chars(m.as_slice());
    assert(r@ =~= spec_registration_body(email@, platform@, device_fp@, public_base_url@));
    r
}

/// The event detail logged when an account is authorised.
pub open spec fn spec_authorized_detail(max_devices: i64, expires: Seq<char>) -> Seq<char> {
    "max_devices="@
        + int_text(max_devices as int)
        + " expires_at="@
        + expires
}

/// The event detail logged when an account is authorised.
pub fn authorized_detail(max_devices: i64, expires: &str) -> (r: String)
    ensures
        r@ == spec_authorized_detail(max_devices, expires@),
{
    let mut m: Vec<char> = Vec::new();
    push_str(&mut m, "max_devices=");
    push_int(&mut m, max_devices);
    push_str(&mut m, " expires_at=");
    push_str(&mut m, expires);
    let r = string_from_chars(m.as_slice());
    assert(r@ =~= spec_authorized_detail(max_devices, expires@));
    r
}

/// The mail that tells the user the account is open.
pub open spec fn spec_authorized_body(email: Seq<char>, max_devices: i64, expires: Seq<char>, public_base_url: Seq<char>) -> Seq<char> {
    "你的账号已通过审核并开通：\n\n邮箱: "@
        + email
        + "\n可绑定设备数: "@
        + int_text(max_devices as int)
        + "\n有效期至: "@
        + expires
        + "\n\n请在客户端使用该邮箱与密码登录，登录后将自动拉取订阅。\n服务器地址: "@
        + public_base_url
        + "\n"@
}

/// The mail that tells the user the account is open.
pub fn authorized_body(email: &str, max_devices: i64, expires: &str, public_base_url: &str) -> (r: String)
    ensures
        r@ == spec_authorized_body(email@, max_devices, expires@, public_base_url@),
{
    let mut m: Vec<char> = Vec::new();
    push_str(&mut m, "你的账号已通过审核并开通：\n\n邮箱: ");
    push_str(&mut m, email);
    push_str(&mut m, "\n可绑定设备数: ");
    push_int(&mut m, max_devices);
    push_str(&mut m, "\n有效期至: ");
    push_str(&mut m, expires);
    push_str(&mut m, "\n\n请在客户端使用该邮箱与密码登录，登录后将自动拉取订阅。\n服务器地址: ");
    push_str(&mut m, public_base_url);
    push_str(&mut m, "\n");
    let r = string_from_chars(m.as_slice());
    assert(r@ =~= spec_authorized_body(email@, max_devices, expires@, public_base_url@));
    r
}

/// The Telegram notice that an account is open.
pub open spec fn spec_authorized_tg_text(email: Seq<char>, max_devices: i64, expires: Seq<char>) -> Seq<char> {
    "✅ 已开通用户 <code>"@
        + email
        + "</code>\n设备数: "@
        + int_text(max_devices as int)
        + " | 到期: "@
        + expires
}

/// The Telegram notice that an account is open.
pub fn authorized_tg_text(email: &str, max_devices: i64, expires: &str) -> (r: String)
    ensures
        r@ == spec_authorized_tg_text(email@, max_devices, expires@),
{
    let mut m: Vec<char> = Vec::new();
    push_str(&mut m, "✅ 已开通用户 <code>");
    push_str(&mut m, email);
    push_str(&mut m, "</code>\n设备数: ");
    push_int(&mut m, max_devices);
    push_str(&mut m, " | 到期: ");
    push_str(&mut m, expires);
    let r = string_from_chars(m.as_slice());
    assert(r@ =~= spec_authorized_tg_text(email@, max_devices, expires@));
    r
}

/// A mail to send: recipient, subject and body.
pub struct Mail {
    pub to: String,
    pub subject: String,
    pub body: String,
}

/// The notices of a registration request: the logged detail, whether the
/// Telegram approval request goes out, and the administrator mail.
pub struct RegistrationNotice {
    pub detail: String,
    pub telegram: bool,
    pub mail: Option<Mail>,
}

/// Plans the notices of a registration request.
pub fn registration_notice(cfg: &Config, email: &str, device_fp: &str, platform: &str) -> (r: RegistrationNotice)
    ensures
        r.detail@ == spec_registration_detail(platform@, device_fp@),
        r.telegram == cfg.telegram is Some,
        r.mail is Some == cfg.smtp is Some,
        r.mail matches Some(m) ==> cfg.smtp matches Some(s) && m.to@ == s.admin_to@ && m.subject@
            == spec_registration_subject(email@) && m.body@ == spec_registration_body(
            email@,
            platform@,
            device_fp@,
            cfg.public_base_url@,
        ),
{
    let mail = match &cfg.smtp {
        Some(s) => Some(
            Mail {
                to: s.admin_to.clone(),
                subject: registration_subject(email),
                body: registration_body(email, platform, device_fp, cfg.public_base_url.as_str()),
            },
        ),
        None => None,
    };
    RegistrationNotice {
        detail: registration_detail(platform, device_fp),
        telegram: cfg.telegram.is_some(),
        mail,
    }
}

/// The notices of an authorisation: the logged detail, the mail to the user and
/// the Telegram notice.
pub struct AuthorizationNotice {
    pub detail: String,
    pub mail: Option<Mail>,
    pub telegram_text: Option<String>,
}

/// The subject of the mail that tells the user the account is open.
pub const AUTHORIZED_SUBJECT: &'static str = "[Clash Verge] 你的账号已开通";

/// The term shown in a notice: the expiry, or `default` for none.
pub open spec fn expires_or(expires_at: Option<Seq<char>>, default: Seq<char>) -> Seq<char> {
    match expires_at {
        Some(e) => e,
        None => default,
    }
}

/// Plans the notices of an authorisation of `user`.
pub fn authorization_notice(cfg: &Config, user: &User) -> (r: AuthorizationNotice)
    ensures
        r.detail@ == spec_authorized_detail(user.max_devices, expires_or(opt_view(user.expires_at), "-"@)),
        r.mail is Some == cfg.smtp is Some,
        r.mail matches Some(m) ==> m.to@ == user.email@ && m.subject@ == AUTHORIZED_SUBJECT@ && m.body@
            == spec_authorized_body(
            user.email@,
            user.max_devices,
            expires_or(opt_view(user.expires_at), "长期"@),
            cfg.public_base_url@,
        ),
        r.telegram_text is Some == cfg.telegram is Some,
        r.telegram_text matches Some(t) ==> t@ == spec_authorized_tg_text(
            user.email@,
            user.max_devices,
            expires_or(opt_view(user.expires_at), "长期"@),
        ),
{
    let term: &str = match &user.expires_at {
        Some(e) => e.as_str(),
        None => "长期",
    };
    let logged: &str = match &user.expires_at {
        Some(e) => e.as_str(),
        None => "-",
    };
    let mail = if cfg.smtp.is_some() {
        Some(
            Mail {
                to: user.email.clone(),
                subject: AUTHORIZED_SUBJECT.to_string(),
                body: authorized_body(user.email.as_str(), user.max_devices, term, cfg.public_base_url.as_str()),
            },
        )
    } else {
        None
    };
    let telegram_text = if cfg.telegram.is_some() {
        Some(authorized_tg_text(user.email.as_str(), user.max_devices, term))
    } else {
        None
    };
    AuthorizationNotice { detail: authorized_detail(user.max_devices, logged), mail, telegram_text }
}


/// The subject of the mail that carries an e-mail verification link.
pub const VERIFICATION_SUBJECT: &'static str = "[Clash Verge] 邮箱验证";

/// The body of the mail that carries the verification link of `token`.
pub open spec fn spec_verification_body(token: Seq<char>, public_base_url: Seq<char>) -> Seq<char> {
    "请点击以下链接完成邮箱验证：\n\n"@ + public_base_url + "/verify?token="@ + token + "\n"@
}

/// The mail that sends `email` the verification link of `token`.
pub fn verification_mail(email: &str, token: &str, public_base_url: &str) -> (m: Mail)
    ensures
        m.to@ == email@,
        m.subject@ == VERIFICATION_SUBJECT@,
        m.body@ == spec_verification_body(token@, public_base_url@),
{
    let mut b: Vec<char> = Vec::new();
    push_str(&mut b, "请点击以下链接完成邮箱验证：\n\n");
    push_str(&mut b, public_base_url);
    push_str(&mut b, "/verify?token=");
    push_str(&mut b, token);
    push_str(&mut b, "\n");
    let body = string_from_chars(b.as_slice());
    assert(body@ =~= spec_verification_body(token@, public_base_url@));
    Mail { to: email.to_string(), subject: VERIFICATION_SUBJECT.to_string(), body }
}

} // verus!
