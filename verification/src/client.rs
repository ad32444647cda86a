//! The client API of the auth server: registration, login, configuration and
//! subscription delivery, e-mail verification and the hysteria2 auth callback.
//! Each handler's decisions stand here over the records the database returned.

use crate::auth::verify_password;
use crate::auth::spec_password_matches;
use crate::error::{AppError, BAD_REQUEST, FORBIDDEN, UNAUTHORIZED};
use crate::models::{str_opt_view, deadline_passed, deadline_passed_at, latest_active_token, opt_view, seen_no_later_in_order, token_live, user_active, user_expired, Device, User};
use crate::num::{int_text, push_int};
use crate::online::{admit_step, seen_by, spec_client_ip, OnlineTracker};
use crate::text::{has_prefix, strip_prefix, chars_of, find_char_from, push_str, spec_to_lowercase, str_eq, string_from_chars, to_lowercase, trim, trim_str};
use crate::time::{text_round_trips, add_days, plus_days, representable, rfc3339, time_text, parse_dt, parts_to_nanos, spec_parse_rfc3339};
use vstd::prelude::*;

verus! {

/// The value behind an optional reference.
pub open spec fn deref_opt<T>(o: Option<&T>) -> Option<T> {
    match o {
        Some(x) => Some(*x),
        None => None,
    }
}

/// The reason of a refusal as a pair of status and text.
pub open spec fn err_view(e: AppError) -> (u16, Seq<char>) {
    (e.status, e.message@)
}

/// `POST /register` body.
pub struct RegisterRequest {
    pub username: Option<String>,
    pub email: Option<String>,
    pub password: String,
    pub device_fp: String,
    pub platform: String,
}

/// `POST /login` body.
pub struct LoginRequest {
    pub username: Option<String>,
    pub email: Option<String>,
    pub password: String,
    pub device_fp: String,
    pub platform: String,
}

/// `POST /login` answer.
pub struct LoginResponse {
    pub token: String,
    /// When the token expires (drives the client's renewal).
    pub expires_at: String,
    pub username: String,
    pub max_devices: u32,
    pub active_devices: u32,
    /// When the account expires; `None` for an account without a term.
    pub account_expires_at: Option<String>,
    /// The fixed subscription link of this account and device.
    pub subscription_url: String,
}

/// `GET /verify` query.
pub struct VerifyQuery {
    pub token: Option<String>,
}

/// `GET /config` query.
pub struct ConfigQuery {
    pub token: Option<String>,
}

/// `GET /sub/:key` query: the fingerprint of the device asking.
pub struct SubQuery {
    pub fp: Option<String>,
}

/// The hysteria2 HTTP auth callback body.
pub struct HysteriaAuthRequest {
    pub addr: String,
    /// hysteria2 carries the credential (our token) in `auth`.
    pub auth: Option<String>,
    /// hysteria v1 carries it in `payload`.
    pub payload: Option<String>,
    pub tx: Option<u64>,
}

/// The account name of a request: `email`, or else `username`, trimmed; `None` when blank.
pub open spec fn requested_email(email: Option<Seq<char>>, username: Option<Seq<char>>) -> Option<Seq<char>> {
    let raw = match email {
        Some(e) => Some(e),
        None => username,
    };
    match raw {
        Some(s) => if trim(s).len() > 0 { Some(trim(s)) } else { None },
        None => None,
    }
}

/// The platform named by a request, `unknown` when empty.
pub open spec fn spec_platform(p: Seq<char>) -> Seq<char> {
    if p.len() == 0 { "unknown"@ } else { p }
}

fn account_name<'a>(email: &'a Option<String>, username: &'a Option<String>) -> (r: Option<&'a str>)
    ensures
        match r {
            Some(s) => requested_email(opt_view(*email), opt_view(*username)) == Some(s@),
            None => requested_email(opt_view(*email), opt_view(*username)) is None,
        },
{
    let raw: Option<&String> = match email {
        Some(e) => Some(e),
        None => match username {
            Some(u) => Some(u),
            None => None,
        },
    };
    match raw {
        Some(s) => {
            let t = trim_str(s.as_str());
            if t.unicode_len() > 0 {
                Some(t)
            } else {
                None
            }
        },
        None => None,
    }
}

fn platform_or_unknown(p: &String) -> (r: String)
    ensures
        r@ == spec_platform(p@),
{
    if p.as_str().unicode_len() == 0 {
        "unknown".to_string()
    } else {
        p.clone()
    }
}

impl RegisterRequest {
    /// The account name given: `email`, or else `username`, trimmed; `None` when blank.
    pub fn email(&self) -> (r: Option<&str>)
        ensures
            match r {
                Some(s) => requested_email(opt_view(self.email), opt_view(self.username)) == Some(s@),
                None => requested_email(opt_view(self.email), opt_view(self.username)) is None,
            },
    {
        account_name(&self.email, &self.username)
    }
}

/// A registration that passed the input checks.
pub struct Registration {
    /// The account name, lowercased.
    pub email: String,
    pub platform: String,
}

/// What `POST /register` checks before it touches the database, in order:
/// an account name, an `@` in it, a password of at least 6 bytes, a device fingerprint.
pub open spec fn spec_check_registration(req: RegisterRequest) -> Result<(Seq<char>, Seq<char>), (u16, Seq<char>)> {
    match requested_email(opt_view(req.email), opt_view(req.username)) {
        None => Err((BAD_REQUEST, "缺少邮箱"@)),
        Some(raw) => {
            let email = spec_to_lowercase(raw);
            if !email.contains('@') {
                Err((BAD_REQUEST, "邮箱格式不正确"@))
            } else if vstd::utf8::encode_utf8(req.password@).len() < 6 {
                Err((BAD_REQUEST, "密码至少 6 位"@))
            } else if trim(req.device_fp@).len() == 0 {
                Err((BAD_REQUEST, "缺少设备指纹"@))
            } else {
                Ok((email, spec_platform(req.platform@)))
            }
        },
    }
}

fn has_char(s: &str, c: char) -> (b: bool)
    ensures
        b == s@.contains(c),
{
    let cs = chars_of(s);
    match find_char_from(cs.as_slice(), 0, c) {
        Some(i) => true,
        None => {
            proof {
                if s@.contains(c) {
                    let k = choose|k: int| 0 <= k < s@.len() && s@[k] == c;
                    assert(exists|i: int| 0 <= i < cs@.len() && cs@[i] == c);
                }
            }
            false
        },
    }
}

/// Checks a registration request.
pub fn check_registration(req: &RegisterRequest) -> (r: Result<Registration, AppError>)
    ensures
        match r {
            Ok(g) => spec_check_registration(*req) == Ok::<(Seq<char>, Seq<char>), (u16, Seq<char>)>((g.email@, g.platform@)),
            Err(e) => spec_check_registration(*req) == Err::<(Seq<char>, Seq<char>), (u16, Seq<char>)>(err_view(e)),
        },
{
    let raw = match req.email() {
        Some(s) => s,
        None => return Err(AppError::bad_request("缺少邮箱")),
    };
    let email = to_lowercase(raw);
    if !has_char(email.as_str(), '@') {
        return Err(AppError::bad_request("邮箱格式不正确"));
    }
    if req.password.as_str().as_bytes().len() < 6 {
        return Err(AppError::bad_request("密码至少 6 位"));
    }
    if trim_str(req.device_fp.as_str()).unicode_len() == 0 {
        return Err(AppError::bad_request("缺少设备指纹"));
    }
    Ok(Registration { email, platform: platform_or_unknown(&req.platform) })
}


/// How long an e-mail verification link stays valid, in hours.
pub const VERIFY_TTL_HOURS: i64 = 24;

/// What `POST /register` does after it has stored the account and device.
pub enum RegistrationStep {
    /// Send (or send again) the e-mail verification link.
    SendVerification,
    /// Tell the administrator about the request.
    NotifyAdmin,
}

/// The body of the `202 Accepted` answer to `POST /register`.
pub struct RegisterReply {
    pub status: String,
    pub message: String,
}

/// The answer to a registration: whether the administrator is told (rather than a
/// verification mail sent), the reported status and the message.  `existing` is
/// the status of an account that already has this e-mail; `require_verify` is
/// whether mail is configured, so that addresses must be verified.
pub open spec fn spec_registration_reply(existing: Option<Seq<char>>, email_verified: bool, require_verify: bool) -> (
    bool,
    Seq<char>,
    Seq<char>,
) {
    match existing {
        Some(status) => if !email_verified && require_verify {
            (false, "pending_verification"@, "该邮箱尚未验证，已重新发送验证邮件，请查收并点击邮件中的链接。"@)
        } else if status == "active"@ {
            (true, status, "账号已存在，请直接登录；如需增加设备，已通知管理员审核。"@)
        } else if status == "suspended"@ {
            (true, status, "账号已被停用，请联系管理员。"@)
        } else {
            (true, status, "账号已在审核中，请等待管理员授权。"@)
        },
        None => if require_verify {
            (false, "pending_verification"@, "注册成功，验证邮件已发送，请在 24 小时内点击邮件中的链接完成验证。"@)
        } else {
            (true, "pending"@, "注册成功，已通知管理员审核。授权后将邮件通知你。"@)
        },
    }
}

fn reply(status: &str, message: &str) -> (r: RegisterReply)
    ensures
        r.status@ == status@,
        r.message@ == message@,
{
    RegisterReply { status: status.to_string(), message: message.to_string() }
}

/// Decides the answer to a registration; `existing` is the status of the
/// account that already has this e-mail, if any.
pub fn registration_reply(existing: Option<&str>, email_verified: bool, require_verify: bool) -> (r: (
    RegistrationStep,
    RegisterReply,
))
    ensures
        spec_registration_reply(
            match existing {
                Some(s) => Some(s@),
                None => None,
            },
            email_verified,
            require_verify,
        ) == (r.0 is NotifyAdmin, r.1.status@, r.1.message@),
{
    match existing {
        Some(status) => {
            if !email_verified && require_verify {
                (
                    RegistrationStep::SendVerification,
                    reply("pending_verification", "该邮箱尚未验证，已重新发送验证邮件，请查收并点击邮件中的链接。"),
                )
            } else if str_eq(status, "active") {
                (RegistrationStep::NotifyAdmin, reply(status, "账号已存在，请直接登录；如需增加设备，已通知管理员审核。"))
            } else if str_eq(status, "suspended") {
                (RegistrationStep::NotifyAdmin, reply(status, "账号已被停用，请联系管理员。"))
            } else {
                (RegistrationStep::NotifyAdmin, reply(status, "账号已在审核中，请等待管理员授权。"))
            }
        },
        None => {
            if require_verify {
                (
                    RegistrationStep::SendVerification,
                    reply("pending_verification", "注册成功，验证邮件已发送，请在 24 小时内点击邮件中的链接完成验证。"),
                )
            } else {
                (RegistrationStep::NotifyAdmin, reply("pending", "注册成功，已通知管理员审核。授权后将邮件通知你。"))
            }
        },
    }
}

/// The account name and platform of a login request, as `POST /login` reads them:
/// `email` or else `username`, trimmed and lowercased, not empty; a device fingerprint.
pub open spec fn spec_login_identity(
    email: Option<Seq<char>>,
    username: Option<Seq<char>>,
    device_fp: Seq<char>,
    platform: Seq<char>,
) -> Result<(Seq<char>, Seq<char>), (u16, Seq<char>)> {
    let raw = match email {
        Some(e) => Some(e),
        None => username,
    };
    match raw {
        None => Err((BAD_REQUEST, "缺少邮箱"@)),
        Some(s) => {
            let e = spec_to_lowercase(trim(s));
            if e.len() == 0 {
                Err((BAD_REQUEST, "缺少邮箱"@))
            } else if trim(device_fp).len() == 0 {
                Err((BAD_REQUEST, "缺少设备指纹"@))
            } else {
                Ok((e, spec_platform(platform)))
            }
        },
    }
}

/// The identity a login request claims.
pub struct LoginIdentity {
    pub email: String,
    pub platform: String,
}

/// Reads the account name and platform of a login request.
pub fn login_identity(req: &LoginRequest) -> (r: Result<LoginIdentity, AppError>)
    ensures
        match r {
            Ok(i) => spec_login_identity(opt_view(req.email), opt_view(req.username), req.device_fp@, req.platform@)
                == Ok::<(Seq<char>, Seq<char>), (u16, Seq<char>)>((i.email@, i.platform@)),
            Err(e) => spec_login_identity(opt_view(req.email), opt_view(req.username), req.device_fp@, req.platform@)
                == Err::<(Seq<char>, Seq<char>), (u16, Seq<char>)>(err_view(e)),
        },
{
    let raw: Option<&String> = match &req.email {
        Some(e) => Some(e),
        None => match &req.username {
            Some(u) => Some(u),
            None => None,
        },
    };
    let email = match raw {
        None => return Err(AppError::bad_request("缺少邮箱")),
        Some(s) => to_lowercase(trim_str(s.as_str())),
    };
    if email.as_str().unicode_len() == 0 {
        return Err(AppError::bad_request("缺少邮箱"));
    }
    if trim_str(req.device_fp.as_str()).unicode_len() == 0 {
        return Err(AppError::bad_request("缺少设备指纹"));
    }
    Ok(LoginIdentity { email, platform: platform_or_unknown(&req.platform) })
}

/// The refusal text when a new device would pass the device limit.
pub open spec fn device_cap_message(max_devices: i64) -> Seq<char> {
    "已达可绑定设备上限（"@ + int_text(max_devices as int) + "台），请在其它设备登出或联系管理员"@
}

/// What `POST /login` decides once it has read the account, whether its e-mail is
/// verified, the device already bound under this fingerprint, and the number of
/// devices of the account that are not revoked.  `Ok(true)` binds a new device,
/// `Ok(false)` renews the token of the bound one.
pub open spec fn spec_check_login(
    req: LoginRequest,
    user: Option<User>,
    email_verified: bool,
    device: Option<Device>,
    device_count: i64,
    now: int,
) -> Result<bool, (u16, Seq<char>)> {
    match spec_login_identity(opt_view(req.email), opt_view(req.username), req.device_fp@, req.platform@) {
        Err(e) => Err(e),
        Ok(_) => match user {
            None => Err((UNAUTHORIZED, "用户名或密码错误"@)),
            Some(u) => if !spec_password_matches(req.password@, u.password_hash@) {
                Err((UNAUTHORIZED, "用户名或密码错误"@))
            } else if !email_verified {
                Err((FORBIDDEN, "邮箱尚未验证，请先点击验证邮件中的链接（可重新注册以重发邮件）"@))
            } else if u.status@ == "suspended"@ {
                Err((FORBIDDEN, "账号已被停用，请联系管理员"@))
            } else if u.status@ != "active"@ {
                Err((FORBIDDEN, "账号待管理员审核授权"@))
            } else if user_expired(u, now) {
                Err((FORBIDDEN, "账号已过期，请联系管理员续期"@))
            } else {
                match device {
                    Some(d) => if d.revoked != 0 {
                        Err((FORBIDDEN, "该设备已被禁用，请联系管理员"@))
                    } else {
                        Ok(false)
                    },
                    None => if device_count >= u.max_devices {
                        Err((FORBIDDEN, device_cap_message(u.max_devices)))
                    } else {
                        Ok(true)
                    },
                }
            },
        },
    }
}

fn device_cap_error(max_devices: i64) -> (e: AppError)
    ensures
        err_view(e) == (FORBIDDEN, device_cap_message(max_devices)),
{
    let mut m: Vec<char> = Vec::new();
    push_str(&mut m, "已达可绑定设备上限（");
    push_int(&mut m, max_devices);
    push_str(&mut m, "台），请在其它设备登出或联系管理员");
    let text = string_from_chars(m.as_slice());
    assert(text@ =~= device_cap_message(max_devices));
    AppError { status: FORBIDDEN, message: text }
}

/// Checks a login; `Ok(true)` when a new device is to be bound, `Ok(false)` when
/// the bound device gets a new token.
pub fn check_login(
    req: &LoginRequest,
    user: Option<&User>,
    email_verified: bool,
    device: Option<&Device>,
    device_count: i64,
    now: i128,
) -> (r: Result<bool, AppError>)
    ensures
        match r {
            Ok(b) => spec_check_login(*req, deref_opt(user), email_verified, deref_opt(device), device_count, now as int)
                == Ok::<bool, (u16, Seq<char>)>(b),
            Err(e) => spec_check_login(*req, deref_opt(user), email_verified, deref_opt(device), device_count, now as int)
                == Err::<bool, (u16, Seq<char>)>(err_view(e)),
        },
{
    match login_identity(req) {
        Err(e) => return Err(e),
        Ok(_) => {},
    }
    let u = match user {
        None => return Err(AppError::unauthorized("用户名或密码错误")),
        Some(u) => u,
    };
    if !verify_password(req.password.as_str(), u.password_hash.as_str()) {
        return Err(AppError::unauthorized("用户名或密码错误"));
    }
    if !email_verified {
        return Err(AppError::forbidden("邮箱尚未验证，请先点击验证邮件中的链接（可重新注册以重发邮件）"));
    }
    if str_eq(u.status.as_str(), "suspended") {
        return Err(AppError::forbidden("账号已被停用，请联系管理员"));
    }
    if !u.is_active() {
        return Err(AppError::forbidden("账号待管理员审核授权"));
    }
    if u.is_expired_at(now) {
        return Err(AppError::forbidden("账号已过期，请联系管理员续期"));
    }
    match device {
        Some(d) => {
            if d.revoked != 0 {
                Err(AppError::forbidden("该设备已被禁用，请联系管理员"))
            } else {
                Ok(false)
            }
        },
        None => {
            if device_count >= u.max_devices {
                Err(device_cap_error(u.max_devices))
            } else {
                Ok(true)
            }
        },
    }
}


/// The expiry of a new device token: `min(now + ttl_days, account expiry)`;
/// an account expiry that does not parse is ignored.
pub open spec fn spec_token_expiry(account_expires_at: Option<Seq<char>>, ttl_days: i64, now: int) -> int {
    let cap = plus_days(now, ttl_days as int);
    match account_expires_at {
        Some(s) => match parts_to_nanos(spec_parse_rfc3339(s)) {
            Some(a) => if a < cap { a } else { cap },
            None => cap,
        },
        None => cap,
    }
}

/// The expiry of a new device token once the account's expiry has been read
/// (`None`: no term, or one that does not parse): `min(now + ttl_days, account_expiry)`.
pub fn capped_token_expiry(account_expiry: Option<i128>, ttl_days: i64, now: i128) -> (t: i128)
    requires
        representable(now as int),
        representable(plus_days(now as int, ttl_days as int)),
    ensures
        t == match account_expiry {
            Some(a) => if a < plus_days(now as int, ttl_days as int) {
                a as int
            } else {
                plus_days(now as int, ttl_days as int)
            },
            None => plus_days(now as int, ttl_days as int),
        },
{
    let cap = add_days(now, ttl_days);
    match account_expiry {
        Some(a) => {
            if a < cap {
                a
            } else {
                cap
            }
        },
        None => cap,
    }
}

/// Computes when a new device token expires.
pub fn token_expiry(account_expires_at: &Option<String>, ttl_days: i64, now: i128) -> (t: i128)
    requires
        representable(now as int),
        representable(plus_days(now as int, ttl_days as int)),
    ensures
        t == spec_token_expiry(opt_view(*account_expires_at), ttl_days, now as int),
        representable(t as int),
{
    let parsed = match account_expires_at {
        Some(s) => parse_dt(s.as_str()),
        None => None,
    };
    capped_token_expiry(parsed, ttl_days, now)
}

/// Whether byte `b` is left as it is in a URL query (`A-Z a-z 0-9 - _ . ~`).
pub open spec fn url_unreserved(b: u8) -> bool {
    (0x41 <= b <= 0x5a) || (0x61 <= b <= 0x7a) || (0x30 <= b <= 0x39) || b == 0x2d || b == 0x5f || b
        == 0x2e || b == 0x7e
}

/// An uppercase hexadecimal digit.
pub open spec fn upper_hex_digit(d: int) -> char {
    if d < 10 {
        (d + '0' as int) as char
    } else {
        (d - 10 + 'A' as int) as char
    }
}

/// Percent-encoding of UTF-8 bytes: unreserved bytes as they are, any other as `%XX`.
pub open spec fn spec_urlencode(bytes: Seq<u8>) -> Seq<char>
    decreases bytes.len(),
{
    if bytes.len() == 0 {
        Seq::empty()
    } else {
        let b = bytes.last();
        spec_urlencode(bytes.drop_last()) + if url_unreserved(b) {
            seq![b as char]
        } else {
            seq!['%', upper_hex_digit(b as int / 16), upper_hex_digit(b as int % 16)]
        }
    }
}

fn upper_hex(d: u8) -> (c: char)
    requires
        d < 16,
    ensures
        c == upper_hex_digit(d as int),
{
    match d {
        0 => '0',
        1 => '1',
        2 => '2',
        3 => '3',
        4 => '4',
        5 => '5',
        6 => '6',
        7 => '7',
        8 => '8',
        9 => '9',
        10 => 'A',
        11 => 'B',
        12 => 'C',
        13 => 'D',
        14 => 'E',
        _ => 'F',
    }
}

/// Minimal percent-encoding of the UTF-8 bytes of `s`.
pub fn urlencode(s: &str) -> (r: String)
    ensures
        r@ == spec_urlencode(vstd::utf8::encode_utf8(s@)),
{
    let bytes = s.as_bytes();
    let mut out: Vec<char> = Vec::new();
    let mut i: usize = 0;
    while i < bytes.len()
        invariant
            bytes@ == vstd::utf8::encode_utf8(s@),
            i <= bytes.len(),
            out@ == spec_urlencode(bytes@.take(i as int)),
        decreases bytes.len() - i,
    {
        let b = bytes[i];
        assert(bytes@.take(i + 1).drop_last() =~= bytes@.take(i as int));
        if (0x41 <= b && b <= 0x5a) || (0x61 <= b && b <= 0x7a) || (0x30 <= b && b <= 0x39) || b == 0x2d
            || b == 0x5f || b == 0x2e || b == 0x7e {
            out.push(b as char);
        } else {
            out.push('%');
            out.push(upper_hex(b / 16));
            out.push(upper_hex(b % 16));
        }
        i = i + 1;
    }
    assert(bytes@.take(bytes.len() as int) =~= bytes@);
    string_from_chars(out.as_slice())
}

/// `s` without the trailing `c` characters (`str::trim_end_matches(c)`).
pub open spec fn trim_end_char(s: Seq<char>, c: char) -> Seq<char>
    decreases s.len(),
{
    if s.len() > 0 && s.last() == c {
        trim_end_char(s.drop_last(), c)
    } else {
        s
    }
}

/// Strips the trailing `c` characters of `s`.
pub fn trim_end_matches_char(s: &str, c: char) -> (r: &str)
    ensures
        r@ == trim_end_char(s@, c),
{
    let cs = chars_of(s);
    let mut j: usize = cs.len();
    assert(s@.subrange(0, j as int) =~= s@);
    while j > 0 && cs[j - 1] == c
        invariant
            cs@ == s@,
            j <= cs.len(),
            trim_end_char(s@, c) == trim_end_char(s@.subrange(0, j as int), c),
        decreases j,
    {
        assert(s@.subrange(0, j as int).drop_last() =~= s@.subrange(0, j - 1));
        j = j - 1;
    }
    s.substring_char(0, j)
}

/// The fixed subscription link: `<base without trailing '/'>/sub/<key>?fp=<encoded fingerprint>`.
pub open spec fn spec_subscription_url(base: Seq<char>, key: Seq<char>, fp: Seq<char>) -> Seq<char> {
    trim_end_char(base, '/') + "/sub/"@ + key + "?fp="@ + spec_urlencode(vstd::utf8::encode_utf8(fp))
}

/// Builds the fixed subscription link of an account for one device.
pub fn subscription_url(public_base_url: &str, key: &str, device_fp: &str) -> (r: String)
    ensures
        r@ == spec_subscription_url(public_base_url@, key@, device_fp@),
{
    let mut m: Vec<char> = Vec::new();
    push_str(&mut m, trim_end_matches_char(public_base_url, '/'));
    push_str(&mut m, "/sub/");
    push_str(&mut m, key);
    push_str(&mut m, "?fp=");
    let enc = urlencode(device_fp);
    push_str(&mut m, enc.as_str());
    let r = string_from_chars(m.as_slice());
    assert(r@ =~= spec_subscription_url(public_base_url@, key@, device_fp@));
    r
}

/// Builds the answer to a successful login from the new token, its expiry, the
/// account, the number of its active devices and its subscription key.
pub fn login_response(
    token: String,
    token_expires_at: i128,
    user: &User,
    active_devices: i64,
    subscription_key: &str,
    public_base_url: &str,
    device_fp: &str,
) -> (r: LoginResponse)
    requires
        representable(token_expires_at as int),
    ensures
        r.token@ == token@,
        r.expires_at@ == time_text(token_expires_at as int),
        text_round_trips(token_expires_at as int) ==> parts_to_nanos(spec_parse_rfc3339(r.expires_at@)) == Some(
            token_expires_at as int,
        ),
        r.username@ == user.email@,
        r.max_devices == user.max_devices as u32,
        r.active_devices == active_devices as u32,
        opt_view(r.account_expires_at) == opt_view(user.expires_at),
        r.subscription_url@ == spec_subscription_url(public_base_url@, subscription_key@, device_fp@),
{
    LoginResponse {
        token,
        expires_at: rfc3339(token_expires_at),
        username: user.email.clone(),
        max_devices: user.max_devices as u32,
        active_devices: active_devices as u32,
        account_expires_at: match &user.expires_at {
            Some(s) => Some(s.clone()),
            None => None,
        },
        subscription_url: subscription_url(public_base_url, subscription_key, device_fp),
    }
}


/// The token a configuration request carries: `?token=`, else the value of an
/// `Authorization: Bearer <token>` header.
pub open spec fn spec_config_token(query: Option<Seq<char>>, authorization: Option<Seq<char>>) -> Result<
    Seq<char>,
    (u16, Seq<char>),
> {
    match query {
        Some(t) => Ok(t),
        None => match authorization {
            Some(h) => if has_prefix(h, "Bearer "@) {
                Ok(h.subrange(7, h.len() as int))
            } else {
                Err((UNAUTHORIZED, "缺少 token"@))
            },
            None => Err((UNAUTHORIZED, "缺少 token"@)),
        },
    }
}

/// Reads the token of a `GET /config` request.
pub fn config_token(query: &ConfigQuery, authorization: Option<&str>) -> (r: Result<String, AppError>)
    ensures
        match r {
            Ok(t) => spec_config_token(opt_view(query.token), str_opt_view(authorization))
                == Ok::<Seq<char>, (u16, Seq<char>)>(t@),
            Err(e) => spec_config_token(opt_view(query.token), str_opt_view(authorization))
                == Err::<Seq<char>, (u16, Seq<char>)>(err_view(e)),
        },
{
    proof {
        reveal_strlit("Bearer ");
    }
    match &query.token {
        Some(t) => Ok(t.clone()),
        None => match authorization {
            Some(h) => match strip_prefix(h, "Bearer ") {
                Some(rest) => Ok(rest.to_string()),
                None => Err(AppError::unauthorized("缺少 token")),
            },
            None => Err(AppError::unauthorized("缺少 token")),
        },
    }
}

/// What `GET /config` decides once it has looked up the device holding the token
/// and the device's account.
pub open spec fn spec_config_access(device: Option<Device>, user: Option<User>, now: int) -> Result<(), (u16, Seq<char>)> {
    match device {
        None => Err((UNAUTHORIZED, "token 无效"@)),
        Some(d) => if deadline_passed(opt_view(d.token_expires_at), now) {
            Err((UNAUTHORIZED, "token 已过期，请重新登录"@))
        } else {
            match user {
                None => Err((UNAUTHORIZED, "用户不存在"@)),
                Some(u) => if !user_active(u) || user_expired(u, now) {
                    Err((FORBIDDEN, "账号不可用"@))
                } else {
                    Ok(())
                },
            }
        },
    }
}

/// Checks a configuration request against the device that holds the token
/// (`None` when no unrevoked device does) and its account.
pub fn check_config_access(device: Option<&Device>, user: Option<&User>, now: i128) -> (r: Result<(), AppError>)
    ensures
        match r {
            Ok(_) => spec_config_access(deref_opt(device), deref_opt(user), now as int) is Ok,
            Err(e) => spec_config_access(deref_opt(device), deref_opt(user), now as int) == Err::<(), (u16, Seq<char>)>(
                err_view(e),
            ),
        },
{
    let d = match device {
        None => return Err(AppError::unauthorized("token 无效")),
        Some(d) => d,
    };
    if deadline_passed_at(&d.token_expires_at, now) {
        return Err(AppError::unauthorized("token 已过期，请重新登录"));
    }
    let u = match user {
        None => return Err(AppError::unauthorized("用户不存在")),
        Some(u) => u,
    };
    if !u.is_active() || u.is_expired_at(now) {
        return Err(AppError::forbidden("账号不可用"));
    }
    Ok(())
}

/// The fingerprint a subscription request names, trimmed (empty when none).
pub open spec fn spec_subscription_fp(fp: Option<Seq<char>>) -> Seq<char> {
    match fp {
        Some(f) => trim(f),
        None => Seq::empty(),
    }
}

/// Reads the fingerprint of a `GET /sub/:key` request.
pub fn subscription_fp(q: &SubQuery) -> (r: &str)
    ensures
        r@ == spec_subscription_fp(opt_view(q.fp)),
{
    match &q.fp {
        Some(f) => trim_str(f.as_str()),
        None => {
            proof {
                reveal_strlit("");
            }
            ""
        },
    }
}

/// What `GET /sub/:key` decides once it has looked up the account of the key and
/// the device of the requesting fingerprint under it: whether the subscription
/// is delivered, or the refusal.
pub open spec fn spec_subscription_access(
    user: Option<User>,
    fp: Option<Seq<char>>,
    require_fp: bool,
    device: Option<Device>,
    now: int,
) -> Result<(), (u16, Seq<char>)> {
    match user {
        None => Err((UNAUTHORIZED, "订阅链接无效"@)),
        Some(u) => if !user_active(u) {
            Err((FORBIDDEN, "账号待授权或已停用"@))
        } else if user_expired(u, now) {
            Err((FORBIDDEN, "账号已过期，请联系管理员续期"@))
        } else if spec_subscription_fp(fp).len() == 0 {
            if require_fp {
                Err((UNAUTHORIZED, "订阅链接缺少设备标识，请在客户端登录后自动导入"@))
            } else {
                Ok(())
            }
        } else {
            match device {
                Some(d) => if d.revoked == 0 {
                    Ok(())
                } else {
                    Err((FORBIDDEN, "该设备未绑定此账号，请先在客户端登录"@))
                },
                None => Err((FORBIDDEN, "该设备未绑定此账号，请先在客户端登录"@)),
            }
        },
    }
}

/// Checks a subscription request; `user` is the account of the key, `device` the
/// device bound under the requested fingerprint.
pub fn check_subscription(
    user: Option<&User>,
    q: &SubQuery,
    require_fp: bool,
    device: Option<&Device>,
    now: i128,
) -> (r: Result<(), AppError>)
    ensures
        match r {
            Ok(_) => spec_subscription_access(deref_opt(user), opt_view(q.fp), require_fp, deref_opt(device), now as int)
                is Ok,
            Err(e) => spec_subscription_access(deref_opt(user), opt_view(q.fp), require_fp, deref_opt(device), now as int)
                == Err::<(), (u16, Seq<char>)>(err_view(e)),
        },
{
    let u = match user {
        None => return Err(AppError::unauthorized("订阅链接无效")),
        Some(u) => u,
    };
    if !u.is_active() {
        return Err(AppError::forbidden("账号待授权或已停用"));
    }
    if u.is_expired_at(now) {
        return Err(AppError::forbidden("账号已过期，请联系管理员续期"));
    }
    let fp = subscription_fp(q);
    if fp.unicode_len() == 0 {
        if require_fp {
            return Err(AppError::unauthorized("订阅链接缺少设备标识，请在客户端登录后自动导入"));
        }
        return Ok(());
    }
    match device {
        Some(d) => {
            if d.revoked == 0 {
                Ok(())
            } else {
                Err(AppError::forbidden("该设备未绑定此账号，请先在客户端登录"))
            }
        },
        None => Err(AppError::forbidden("该设备未绑定此账号，请先在客户端登录")),
    }
}

/// The token written into a subscription: the token of the account's most
/// recently active device (unrevoked, with a token that has not expired at
/// `now`), or empty when the account has none; `devices` are the account's devices.
pub fn subscription_token(devices: &Vec<Device>, now: i128) -> (r: String)
    requires
        representable(now as int),
    ensures
        (forall|i: int| 0 <= i < devices.len() ==> !token_live(#[trigger] devices@[i], time_text(now as int)))
            ==> r@ == Seq::<char>::empty(),
        (exists|i: int| 0 <= i < devices.len() && token_live(#[trigger] devices@[i], time_text(now as int)))
            ==> exists|i: int|
            0 <= i < devices.len() && token_live(#[trigger] devices@[i], time_text(now as int)) && opt_view(
                devices@[i].token,
            ) == Some(r@) && forall|j: int|
                0 <= j < devices.len() && token_live(#[trigger] devices@[j], time_text(now as int))
                    ==> seen_no_later_in_order(opt_view(devices@[i].last_seen_at), opt_view(devices@[j].last_seen_at)),
{
    match latest_active_token(devices, now) {
        Some(t) => t,
        None => String::new(),
    }
}

/// The answer to a hysteria2 auth callback.
pub struct AuthReply {
    pub ok: bool,
    pub id: String,
    pub msg: String,
}

/// The credential of a hysteria callback: `auth` (v2), else `payload` (v1), else empty.
pub open spec fn spec_hysteria_token(req: HysteriaAuthRequest) -> Seq<char> {
    match req.auth {
        Some(a) => a@,
        None => match req.payload {
            Some(p) => p@,
            None => Seq::empty(),
        },
    }
}

/// Reads the credential of a hysteria callback.
pub fn hysteria_token(req: &HysteriaAuthRequest) -> (r: String)
    ensures
        r@ == spec_hysteria_token(*req),
{
    match &req.auth {
        Some(a) => a.clone(),
        None => match &req.payload {
            Some(p) => p.clone(),
            None => String::new(),
        },
    }
}

/// The checks of a hysteria callback before the online-IP limit: the identity
/// `email#fingerprint` of the connection, or the refusal text.  `device` is the
/// lookup of the unrevoked device holding the token (`Err` when the lookup failed).
pub open spec fn spec_hysteria_identity(
    token: Seq<char>,
    device: Result<Option<Device>, ()>,
    user: Option<User>,
    now: int,
) -> Result<Seq<char>, Seq<char>> {
    if token.len() == 0 {
        Err("缺少凭据"@)
    } else {
        match device {
            Err(_) => Err("服务端错误"@),
            Ok(None) => Err("token 无效"@),
            Ok(Some(d)) => if deadline_passed(opt_view(d.token_expires_at), now) {
                Err("token 已过期"@)
            } else {
                match user {
                    None => Err("用户不存在"@),
                    Some(u) => if !user_active(u) || user_expired(u, now) {
                        Err("账号不可用"@)
                    } else {
                        Ok(u.email@ + "#"@ + d.device_fp@)
                    },
                }
            },
        }
    }
}

/// The refusal when too many IPs are online under a token.
pub open spec fn too_many_ips_message() -> Seq<char> {
    "同时在线设备过多，请稍后再试或联系管理员"@
}

fn refuse(msg: &str) -> (r: AuthReply)
    ensures
        !r.ok,
        r.id@ == Seq::<char>::empty(),
        r.msg@ == msg@,
{
    AuthReply { ok: false, id: String::new(), msg: msg.to_string() }
}

/// A device lookup with the reference taken away.
pub open spec fn deref_result(d: Result<Option<&Device>, ()>) -> Result<Option<Device>, ()> {
    match d {
        Ok(Some(x)) => Ok(Some(*x)),
        Ok(None) => Ok(None),
        Err(e) => Err(e),
    }
}

/// Answers a hysteria2 auth callback.  `device` is the lookup of the unrevoked
/// device holding the credential and `user` the account of that device; a
/// positive `max_online_ips` limits the source IPs online at once under the
/// token, each counting as online for `ttl_nanos` nanoseconds after it was last seen.
pub fn hysteria_auth(
    tracker: &mut OnlineTracker,
    req: &HysteriaAuthRequest,
    device: Result<Option<&Device>, ()>,
    user: Option<&User>,
    max_online_ips: u32,
    ttl_nanos: u128,
    now: i128,
) -> (r: AuthReply)
    ensures
        match spec_hysteria_identity(spec_hysteria_token(*req), deref_result(device), deref_opt(user), now as int) {
            Err(m) => !r.ok && r.id@ == Seq::<char>::empty() && r.msg@ == m && final(tracker)@ == old(tracker)@,
            Ok(id) => if max_online_ips == 0 || spec_client_ip(req.addr@).len() == 0 {
                r.ok && r.id@ == id && r.msg@ == Seq::<char>::empty() && final(tracker)@ == old(tracker)@
            } else {
                exists|clock: u128|
                    {
                        let step = #[trigger] admit_step(
                            old(tracker)@,
                            spec_hysteria_token(*req),
                            spec_client_ip(req.addr@),
                            max_online_ips as usize,
                            ttl_nanos,
                            clock,
                        );
                        &&& seen_by(old(tracker)@, clock)
                        &&& final(tracker)@ == step.0
                        &&& r.ok == step.1
                        &&& step.1 ==> r.id@ == id && r.msg@ == Seq::<char>::empty()
                        &&& !step.1 ==> r.id@ == Seq::<char>::empty() && r.msg@ == too_many_ips_message()
                    }
            },
        },
{
    let token = hysteria_token(req);
    if token.as_str().unicode_len() == 0 {
        return refuse("缺少凭据");
    }
    let d = match device {
        Err(_) => return refuse("服务端错误"),
        Ok(None) => return refuse("token 无效"),
        Ok(Some(d)) => d,
    };
    if deadline_passed_at(&d.token_expires_at, now) {
        return refuse("token 已过期");
    }
    let u = match user {
        None => return refuse("用户不存在"),
        Some(u) => u,
    };
    if !u.is_active() || u.is_expired_at(now) {
        return refuse("账号不可用");
    }
    let mut m: Vec<char> = Vec::new();
    push_str(&mut m, u.email.as_str());
    push_str(&mut m, "#");
    push_str(&mut m, d.device_fp.as_str());
    let id = string_from_chars(m.as_slice());
    assert(id@ =~= u.email@ + "#"@ + d.device_fp@);
    let limit = max_online_ips as usize;
    let ip = crate::online::client_ip(req.addr.as_str());
    if limit > 0 && ip.unicode_len() > 0 {
        if !tracker.admit_ip(token.as_str(), ip, limit, ttl_nanos) {
            return refuse("同时在线设备过多，请稍后再试或联系管理员");
        }
    }
    AuthReply { ok: true, id, msg: String::new() }
}


/// The token of an e-mail verification link, trimmed and not empty.
pub open spec fn spec_verification_token(token: Option<Seq<char>>) -> Result<Seq<char>, (u16, Seq<char>)> {
    match token {
        Some(t) => if trim(t).len() > 0 {
            Ok(trim(t))
        } else {
            Err((BAD_REQUEST, "缺少验证令牌"@))
        },
        None => Err((BAD_REQUEST, "缺少验证令牌"@)),
    }
}

/// Reads the token of `GET /verify`.
pub fn verification_token(q: &VerifyQuery) -> (r: Result<&str, AppError>)
    ensures
        match r {
            Ok(t) => spec_verification_token(opt_view(q.token)) == Ok::<Seq<char>, (u16, Seq<char>)>(t@),
            Err(e) => spec_verification_token(opt_view(q.token)) == Err::<Seq<char>, (u16, Seq<char>)>(err_view(e)),
        },
{
    match &q.token {
        Some(t) => {
            let x = trim_str(t.as_str());
            if x.unicode_len() > 0 {
                Ok(x)
            } else {
                Err(AppError::bad_request("缺少验证令牌"))
            }
        },
        None => Err(AppError::bad_request("缺少验证令牌")),
    }
}

/// What `GET /verify` decides once it has consumed the token (the account id it
/// was issued for, if it was valid) and read that account.
pub fn check_verification(user_id: Option<i64>, user: Option<&User>) -> (r: Result<(), AppError>)
    ensures
        user_id is None ==> (r matches Err(e) && err_view(e) == (BAD_REQUEST, "验证链接无效或已过期，请在客户端重新注册以获取新邮件"@)),
        user_id is Some && user is None ==> (r matches Err(e) && err_view(e) == (BAD_REQUEST, "用户不存在"@)),
        user_id is Some && user is Some ==> r is Ok,
{
    match user_id {
        None => Err(AppError::bad_request("验证链接无效或已过期，请在客户端重新注册以获取新邮件")),
        Some(_) => match user {
            None => Err(AppError::bad_request("用户不存在")),
            Some(_) => Ok(()),
        },
    }
}

/// The page shown once an address is verified.
pub open spec fn spec_verified_page(email: Seq<char>) -> Seq<char> {
    "<!doctype html><html lang=\"zh\"><head><meta charset=\"utf-8\"><title>邮箱验证成功</title></head><body style=\"font-family:sans-serif;max-width:32em;margin:4em auto;text-align:center\"><h2>✅ 邮箱验证成功</h2><p>"@
        + email + " 已完成验证。</p><p>管理员审核开通后会邮件通知你，届时在客户端登录即可。</p></body></html>"@
}

/// Renders the page shown once an address is verified.
pub fn verified_page(email: &str) -> (r: String)
    ensures
        r@ == spec_verified_page(email@),
{
    let mut m: Vec<char> = Vec::new();
    push_str(
        &mut m,
        "<!doctype html><html lang=\"zh\"><head><meta charset=\"utf-8\"><title>邮箱验证成功</title></head><body style=\"font-family:sans-serif;max-width:32em;margin:4em auto;text-align:center\"><h2>✅ 邮箱验证成功</h2><p>",
    );
    push_str(&mut m, email);
    push_str(&mut m, " 已完成验证。</p><p>管理员审核开通后会邮件通知你，届时在客户端登录即可。</p></body></html>");
    let r = string_from_chars(m.as_slice());
    assert(r@ =~= spec_verified_page(email@));
    r
}

/// The fingerprint and platform of the last device of a list (empty texts when
/// the list is empty; an unknown platform is empty).
pub fn latest_device_identity(devices: &Vec<Device>) -> (r: (String, String))
    ensures
        devices.len() == 0 ==> r.0@ == Seq::<char>::empty() && r.1@ == Seq::<char>::empty(),
        devices.len() > 0 ==> r.0@ == devices@.last().device_fp@ && r.1@ == match devices@.last().platform {
            Some(p) => p@,
            None => Seq::<char>::empty(),
        },
{
    if devices.len() == 0 {
        return (String::new(), String::new());
    }
    let d = &devices[devices.len() - 1];
    let platform = match &d.platform {
        Some(p) => p.clone(),
        None => String::new(),
    };
    (d.device_fp.clone(), platform)
}


/// A login is granted only to an existing account whose password matches, whose
/// address is verified, which is active and unexpired, from a device that is not
/// revoked; a new device only while the account has fewer devices than its limit.
pub proof fn law_login_requires_good_standing(
    req: LoginRequest,
    user: Option<User>,
    email_verified: bool,
    device: Option<Device>,
    device_count: i64,
    now: int,
)
    requires
        spec_check_login(req, user, email_verified, device, device_count, now) is Ok,
    ensures
        user matches Some(u) && spec_password_matches(req.password@, u.password_hash@) && email_verified
            && user_active(u) && !user_expired(u, now),
        device matches Some(d) ==> d.revoked == 0,
        device is None ==> (user matches Some(u) && device_count < u.max_devices),
        spec_check_login(req, user, email_verified, device, device_count, now) == Ok::<bool, (u16, Seq<char>)>(device is None),
{
}

/// A login from a new device of an account that has reached its device limit is
/// refused, whatever else holds.
pub proof fn law_login_device_cap(req: LoginRequest, u: User, device_count: i64, now: int)
    requires
        device_count >= u.max_devices,
    ensures
        spec_check_login(req, Some(u), true, None, device_count, now) is Err,
{
}

/// A device token never outlives the token time-to-live, nor the account's term
/// when the account has a readable one.
pub proof fn law_token_expiry_capped(account_expires_at: Option<Seq<char>>, ttl_days: i64, now: int)
    ensures
        spec_token_expiry(account_expires_at, ttl_days, now) <= plus_days(now, ttl_days as int),
        account_expires_at matches Some(s) ==> (parts_to_nanos(spec_parse_rfc3339(s)) matches Some(a) ==> spec_token_expiry(
            account_expires_at,
            ttl_days,
            now,
        ) <= a),
        (account_expires_at is None || parts_to_nanos(spec_parse_rfc3339(account_expires_at->0)) is None)
            ==> spec_token_expiry(account_expires_at, ttl_days, now) == plus_days(now, ttl_days as int),
{
}

/// Configuration is delivered only for an unexpired token of an existing device
/// whose account is active and unexpired.
pub proof fn law_config_requires_valid_token(device: Option<Device>, user: Option<User>, now: int)
    requires
        spec_config_access(device, user, now) is Ok,
    ensures
        device matches Some(d) && !deadline_passed(opt_view(d.token_expires_at), now),
        user matches Some(u) && user_active(u) && !user_expired(u, now),
{
}

/// hysteria2 admits a connection only for a non-empty token of an unrevoked,
/// unexpired device whose account is active and unexpired; the connection is
/// then known as `email#fingerprint`.
pub proof fn law_hysteria_requires_valid_token(
    token: Seq<char>,
    device: Result<Option<Device>, ()>,
    user: Option<User>,
    now: int,
)
    requires
        spec_hysteria_identity(token, device, user, now) is Ok,
    ensures
        token.len() > 0,
        device matches Ok(Some(d)) && !deadline_passed(opt_view(d.token_expires_at), now) && (user matches Some(u)
            && user_active(u) && !user_expired(u, now) && spec_hysteria_identity(token, device, user, now)
            == Ok::<Seq<char>, Seq<char>>(u.email@ + "#"@ + d.device_fp@)),
{
}

/// A subscription is delivered only for an active, unexpired account; when the
/// request names a device, only for a device of that account that is not revoked.
pub proof fn law_subscription_requires_bound_device(
    user: Option<User>,
    fp: Option<Seq<char>>,
    require_fp: bool,
    device: Option<Device>,
    now: int,
)
    requires
        spec_subscription_access(user, fp, require_fp, device, now) is Ok,
    ensures
        user matches Some(u) && user_active(u) && !user_expired(u, now),
        spec_subscription_fp(fp).len() == 0 ==> !require_fp,
        spec_subscription_fp(fp).len() > 0 ==> (device matches Some(d) && d.revoked == 0),
{
}


/// The value of a hexadecimal digit of either case (`-1` for another character).
pub open spec fn hex_value(c: char) -> int {
    if '0' <= c && c <= '9' {
        c as int - '0' as int
    } else if 'A' <= c && c <= 'F' {
        c as int - 'A' as int + 10
    } else if 'a' <= c && c <= 'f' {
        c as int - 'a' as int + 10
    } else {
        -1
    }
}

/// Percent-decoding, read from the front: `%` followed by two hexadecimal
/// digits is that byte; any other character is the byte of its code (every
/// character an encoding writes is ASCII).
pub open spec fn spec_percent_decode(s: Seq<char>) -> Seq<u8>
    decreases s.len(),
{
    if s.len() == 0 {
        Seq::empty()
    } else if s.len() >= 3 && s[0] == '%' && hex_value(s[1]) >= 0 && hex_value(s[2]) >= 0 {
        seq![(hex_value(s[1]) * 16 + hex_value(s[2])) as u8] + spec_percent_decode(s.skip(3))
    } else {
        seq![s[0] as u8] + spec_percent_decode(s.skip(1))
    }
}

/// The characters that encode one byte.
pub open spec fn encoded_byte(b: u8) -> Seq<char> {
    if url_unreserved(b) {
        seq![b as char]
    } else {
        seq!['%', upper_hex_digit(b as int / 16), upper_hex_digit(b as int % 16)]
    }
}

proof fn lemma_decode_one(b: u8, t: Seq<char>)
    ensures
        spec_percent_decode(encoded_byte(b) + t) == seq![b] + spec_percent_decode(t),
{
    let u = encoded_byte(b);
    let s = u + t;
    if url_unreserved(b) {
        assert(s[0] == b as char);
        assert(b != 0x25);
        assert((b as char) != '%');
        assert(s.skip(1) =~= t);
        assert((b as char) as u8 == b);
    } else {
        let hi = b as int / 16;
        let lo = b as int % 16;
        assert(0 <= hi < 16 && 0 <= lo < 16);
        assert(hex_value(upper_hex_digit(hi)) == hi);
        assert(hex_value(upper_hex_digit(lo)) == lo);
        assert(s[0] == '%' && s[1] == upper_hex_digit(hi) && s[2] == upper_hex_digit(lo));
        assert(s.skip(3) =~= t);
        assert(hi * 16 + lo == b as int);
        assert((hi * 16 + lo) as u8 == b);
    }
}

proof fn lemma_decode_encoded(p: Seq<u8>, t: Seq<char>)
    ensures
        spec_percent_decode(spec_urlencode(p) + t) == p + spec_percent_decode(t),
    decreases p.len(),
{
    if p.len() == 0 {
        assert(spec_urlencode(p) + t =~= t);
        assert(p + spec_percent_decode(t) =~= spec_percent_decode(t));
    } else {
        let q = p.drop_last();
        let b = p.last();
        assert(spec_urlencode(p) == spec_urlencode(q) + encoded_byte(b));
        assert(spec_urlencode(p) + t =~= spec_urlencode(q) + (encoded_byte(b) + t));
        lemma_decode_encoded(q, encoded_byte(b) + t);
        lemma_decode_one(b, t);
        assert(q + (seq![b] + spec_percent_decode(t)) =~= p + spec_percent_decode(t));
    }
}

/// Percent-decoding the encoding of a text gives back its UTF-8 bytes.
pub proof fn law_urlencode_round_trip(s: Seq<char>)
    ensures
        spec_percent_decode(spec_urlencode(vstd::utf8::encode_utf8(s))) == vstd::utf8::encode_utf8(s),
{
    let p = vstd::utf8::encode_utf8(s);
    lemma_decode_encoded(p, Seq::empty());
    assert(spec_urlencode(p) + Seq::<char>::empty() =~= spec_urlencode(p));
    assert(p + Seq::<u8>::empty() =~= p);
}


/// A login from a new device (none bound under its fingerprint) to an account
/// that passes every other check is granted, binding the device, exactly while
/// the account has fewer devices than its limit; a login from a bound device
/// that is not revoked renews its token.
pub proof fn law_login_binds_device_below_cap(req: LoginRequest, u: User, device_count: i64, bound: Device, now: int)
    requires
        req.email matches Some(e) && spec_to_lowercase(trim(e@)).len() > 0,
        trim(req.device_fp@).len() > 0,
        spec_password_matches(req.password@, u.password_hash@),
        u.status@ == "active"@,
        !user_expired(u, now),
        bound.revoked == 0,
    ensures
        device_count < u.max_devices ==> spec_check_login(req, Some(u), true, None, device_count, now) == Ok::<
            bool,
            (u16, Seq<char>),
        >(true),
        device_count >= u.max_devices ==> spec_check_login(req, Some(u), true, None, device_count, now) is Err,
        spec_check_login(req, Some(u), true, Some(bound), device_count, now) == Ok::<bool, (u16, Seq<char>)>(false),
{
    reveal_strlit("active");
    reveal_strlit("suspended");
    assert("active"@ != "suspended"@) by {
        assert("active"@[0] != "suspended"@[0]);
    }
}

/// Configuration is delivered for every existing device whose token has not
/// expired, when its account is active and has not expired (an account without
/// a term never expires).
pub proof fn law_config_granted_for_valid_token(d: Device, u: User, now: int)
    requires
        !deadline_passed(opt_view(d.token_expires_at), now),
        user_active(u),
        u.expires_at is None || !user_expired(u, now),
    ensures
        spec_config_access(Some(d), Some(u), now) is Ok,
{
}

/// A registration tells the administrator exactly when no address verification
/// is pending: verification is not required, or the account already exists
/// with a verified address; otherwise a verification mail is sent.  An existing
/// account is reported with its own status unless a verification mail goes out.
pub proof fn law_registration_notifies_admin_unless_verifying(
    existing: Option<Seq<char>>,
    email_verified: bool,
    require_verify: bool,
)
    ensures
        spec_registration_reply(existing, email_verified, require_verify).0 == (!require_verify || (existing is Some
            && email_verified)),
        existing is Some && spec_registration_reply(existing, email_verified, require_verify).0 ==> spec_registration_reply(
            existing,
            email_verified,
            require_verify,
        ).1 == existing->0,
        !spec_registration_reply(existing, email_verified, require_verify).0 ==> spec_registration_reply(
            existing,
            email_verified,
            require_verify,
        ).1 == "pending_verification"@,
{
}

} // verus!
