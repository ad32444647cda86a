//! The administrator's web console: sign-in, the account overview, account
//! actions and the subscription template editor, rendered on the server.

use crate::auth::{gen_token, is_lower_hex, session_valid, sessions_with, sessions_without, SessionStore, SESSION_DAYS};
use crate::clash::TOKEN_PLACEHOLDER;
use crate::config::Config;
use crate::models::{count_unrevoked, opt_view, str_opt_view, user_active, user_expired, Device, User};
use crate::num::{decimal, int_text, push_int, push_usize};
use crate::text::{chars_of, find_char_from, first_from, push_str, str_eq, string_from_chars, trim, trim_str};
use crate::time::{text_round_trips, add_days, can_add_days, parse_dt, parts_to_nanos, plus_days, representable, rfc3339, spec_parse_rfc3339, time_text};
use vstd::prelude::*;

verus! {

/// The name of the session cookie.
pub const COOKIE: &'static str = "sid";

/// `POST /admin/login` form.
pub struct LoginForm {
    pub username: String,
    pub password: String,
}

/// `POST /admin/users/:id/authorize` form: device limit and term in days (0 = no term).
pub struct AuthorizeForm {
    pub max_devices: i64,
    pub valid_days: i64,
}

/// `POST /admin/users/:id/extend` form.
pub struct ExtendForm {
    pub days: i64,
}

/// `POST /admin/template` form.
pub struct TemplateForm {
    pub template: String,
}

/// The HTML escape of one character (`&`, `<`, `>`, `"`).
pub open spec fn escape_char(c: char) -> Seq<char> {
    if c == '&' {
        "&amp;"@
    } else if c == '<' {
        "&lt;"@
    } else if c == '>' {
        "&gt;"@
    } else if c == '"' {
        "&quot;"@
    } else {
        seq![c]
    }
}

/// `s` with `&`, `<`, `>` and `"` escaped for HTML.
pub open spec fn spec_html_escape(s: Seq<char>) -> Seq<char>
    decreases s.len(),
{
    if s.len() == 0 {
        Seq::empty()
    } else {
        spec_html_escape(s.drop_last()) + escape_char(s.last())
    }
}

/// Escapes `&`, `<`, `>` and `"` for HTML.
pub fn html_escape(s: &str) -> (r: String)
    ensures
        r@ == spec_html_escape(s@),
{
    let cs = chars_of(s);
    let mut m: Vec<char> = Vec::new();
    let mut i: usize = 0;
    while i < cs.len()
        invariant
            cs@ == s@,
            i <= cs.len(),
            m@ == spec_html_escape(s@.take(i as int)),
        decreases cs.len() - i,
    {
        let c = cs[i];
        assert(s@.take(i + 1).drop_last() =~= s@.take(i as int));
        if c == '&' {
            push_str(&mut m, "&amp;");
        } else if c == '<' {
            push_str(&mut m, "&lt;");
        } else if c == '>' {
            push_str(&mut m, "&gt;");
        } else if c == '"' {
            push_str(&mut m, "&quot;");
        } else {
            m.push(c);
        }
        i = i + 1;
    }
    assert(s@.take(cs.len() as int) =~= s@);
    string_from_chars(m.as_slice())
}

/// `s.split(c)`: the pieces between the separators, in order.
#[verifier::opaque]
pub open spec fn split_on(s: Seq<char>, c: char) -> Seq<Seq<char>>
    decreases s.len(),
{
    match first_from(s, 0, c) {
        Some(i) => if 0 <= i < s.len() {
            seq![s.subrange(0, i)] + split_on(s.subrange(i + 1, s.len() as int), c)
        } else {
            seq![s]
        },
        None => seq![s],
    }
}

/// The `(name, value)` of one `name=value` piece of a cookie header, trimmed.
pub open spec fn cookie_pair(piece: Seq<char>) -> Option<(Seq<char>, Seq<char>)> {
    let t = trim(piece);
    match first_from(t, 0, '=') {
        Some(i) => Some((t.subrange(0, i), t.subrange(i + 1, t.len() as int))),
        None => None,
    }
}

/// The value of the first piece named `name`.
#[verifier::opaque]
pub open spec fn find_cookie(pieces: Seq<Seq<char>>, name: Seq<char>) -> Option<Seq<char>>
    decreases pieces.len(),
{
    if pieces.len() == 0 {
        None
    } else {
        match cookie_pair(pieces[0]) {
            Some(p) => if p.0 == name {
                Some(p.1)
            } else {
                find_cookie(pieces.drop_first(), name)
            },
            None => find_cookie(pieces.drop_first(), name),
        }
    }
}

/// The value of cookie `name` in a `Cookie` header.
pub open spec fn spec_cookie_value(header: Option<Seq<char>>, name: Seq<char>) -> Option<Seq<char>> {
    match header {
        Some(h) => find_cookie(split_on(h, ';'), name),
        None => None,
    }
}

/// The value of cookie `name` in a single piece.
pub open spec fn piece_cookie(piece: Seq<char>, name: Seq<char>) -> Option<Seq<char>> {
    match cookie_pair(piece) {
        Some(p) => if p.0 == name { Some(p.1) } else { None },
        None => None,
    }
}

proof fn lemma_cookie_step(s: Seq<char>, name: Seq<char>, i: int)
    requires
        first_from(s, 0, ';') == Some(i),
        0 <= i < s.len(),
    ensures
        find_cookie(split_on(s, ';'), name) == match piece_cookie(s.subrange(0, i), name) {
            Some(v) => Some(v),
            None => find_cookie(split_on(s.subrange(i + 1, s.len() as int), ';'), name),
        },
{
    reveal(split_on);
    reveal(find_cookie);
    let pieces = split_on(s, ';');
    assert(pieces == seq![s.subrange(0, i)] + split_on(s.subrange(i + 1, s.len() as int), ';'));
    assert(pieces[0] == s.subrange(0, i));
    assert(pieces.drop_first() =~= split_on(s.subrange(i + 1, s.len() as int), ';'));
}

proof fn lemma_cookie_last(s: Seq<char>, name: Seq<char>)
    requires
        first_from(s, 0, ';') is None,
    ensures
        find_cookie(split_on(s, ';'), name) == piece_cookie(s, name),
{
    reveal(split_on);
    reveal(find_cookie);
    let pieces = split_on(s, ';');
    assert(pieces == seq![s]);
    assert(pieces[0] == s);
    assert(pieces.drop_first() =~= Seq::<Seq<char>>::empty());
    assert(find_cookie(Seq::<Seq<char>>::empty(), name) is None);
}

fn piece_value(piece: &str, name: &str) -> (r: Option<String>)
    ensures
        opt_view(r) == piece_cookie(piece@, name@),
{
    let t = trim_str(piece);
    let cs = chars_of(t);
    match find_char_from(cs.as_slice(), 0, '=') {
        Some(i) => {
            let k = t.substring_char(0, i);
            if str_eq(k, name) {
                assert(i < cs.len());
                let j = i + 1;
                Some(t.substring_char(j, cs.len()).to_string())
            } else {
                None
            }
        },
        None => None,
    }
}

/// Reads cookie `name` from the raw `Cookie` header.
pub fn cookie_value(header: Option<&str>, name: &str) -> (r: Option<String>)
    ensures
        opt_view(r) == spec_cookie_value(str_opt_view(header), name@),
{
    let raw = match header {
        Some(h) => h,
        None => return None,
    };
    let mut rest: &str = raw;
    loop
        invariant
            str_opt_view(header) == Some(raw@),
            find_cookie(split_on(raw@, ';'), name@) == find_cookie(split_on(rest@, ';'), name@),
        decreases rest@.len(),
    {
        let cs = chars_of(rest);
        match find_char_from(cs.as_slice(), 0, ';') {
            Some(i) => {
                let piece = rest.substring_char(0, i);
                proof {
                    lemma_cookie_step(rest@, name@, i as int);
                }
                match piece_value(piece, name) {
                    Some(v) => return Some(v),
                    None => {},
                }
                rest = rest.substring_char(i + 1, cs.len());
            },
            None => {
                proof {
                    lemma_cookie_last(rest@, name@);
                }
                return piece_value(rest, name);
            },
        }
    }
}

/// Whether the request carries a session cookie that is valid at `now`; an
/// expired session is dropped.
pub fn is_authed_at(sessions: &mut SessionStore, cookie_header: Option<&str>, now: i128) -> (b: bool)
    ensures
        match spec_cookie_value(str_opt_view(cookie_header), COOKIE@) {
            Some(sid) => b == session_valid(old(sessions)@, sid, now) && (b ==> final(sessions)@ == old(
                sessions,
            )@) && (!b ==> final(sessions)@ == sessions_without(old(sessions)@, sid)),
            None => !b && final(sessions)@ == old(sessions)@,
        },
{
    match cookie_value(cookie_header, COOKIE) {
        Some(sid) => sessions.validate_at(sid.as_str(), now),
        None => false,
    }
}

/// Whether the request carries a session cookie that is valid now.
pub fn is_authed(sessions: &mut SessionStore, cookie_header: Option<&str>) -> (b: bool)
    ensures
        match spec_cookie_value(str_opt_view(cookie_header), COOKIE@) {
            Some(sid) => exists|t: i128|
                {
                    &&& b == #[trigger] session_valid(old(sessions)@, sid, t)
                    &&& b ==> final(sessions)@ == old(sessions)@
                    &&& !b ==> final(sessions)@ == sessions_without(old(sessions)@, sid)
                },
            None => !b && final(sessions)@ == old(sessions)@,
        },
{
    let t = crate::time::now();
    is_authed_at(sessions, cookie_header, t)
}

/// The `Set-Cookie` value that opens session `sid` for seven days.
pub open spec fn session_cookie(sid: Seq<char>) -> Seq<char> {
    "sid="@ + sid + "; HttpOnly; Path=/; SameSite=Lax; Max-Age=604800"@
}

/// The `Set-Cookie` value that clears the session cookie.
pub const LOGOUT_COOKIE: &'static str = "sid=; HttpOnly; Path=/; Max-Age=0";

/// What signing in does with session id `sid` at clock reading `now`: on
/// matching credentials, when the seven-day expiry can be written, the session
/// is opened and its cookie returned; otherwise nothing changes and `None` comes back.
pub open spec fn admin_login_outcome(
    cfg: Config,
    form: LoginForm,
    before: Seq<(Seq<char>, i128)>,
    after: Seq<(Seq<char>, i128)>,
    r: Option<Seq<char>>,
    sid: Seq<char>,
    now: int,
) -> bool {
    if form.username@ == cfg.admin_username@ && form.password@ == cfg.admin_password@ && representable(
        plus_days(now, SESSION_DAYS as int),
    ) {
        r == Some(session_cookie(sid)) && after == sessions_with(
            before,
            sid,
            plus_days(now, SESSION_DAYS as int) as i128,
        )
    } else {
        r is None && after == before
    }
}

/// Signs the administrator in at instant `now` with the new session id `sid`.
pub fn admin_login_at(
    cfg: &Config,
    form: &LoginForm,
    sessions: &mut SessionStore,
    sid: String,
    now: i128,
) -> (r: Option<String>)
    requires
        representable(now as int),
    ensures
        admin_login_outcome(*cfg, *form, old(sessions)@, final(sessions)@, opt_view(r), sid@, now as int),
{
    if str_eq(form.username.as_str(), cfg.admin_username.as_str()) && str_eq(
        form.password.as_str(),
        cfg.admin_password.as_str(),
    ) && can_add_days(now, SESSION_DAYS) {
        let mut m: Vec<char> = Vec::new();
        push_str(&mut m, "sid=");
        push_str(&mut m, sid.as_str());
        push_str(&mut m, "; HttpOnly; Path=/; SameSite=Lax; Max-Age=604800");
        let c = string_from_chars(m.as_slice());
        assert(c@ =~= session_cookie(sid@));
        sessions.create_at(sid, now);
        Some(c)
    } else {
        None
    }
}

/// Signs the administrator in: on matching credentials a session with a fresh
/// random id is opened and its cookie returned; `None` on wrong credentials (or
/// when the clock reads so late that no session expiry can be written).
pub fn admin_login(cfg: &Config, form: &LoginForm, sessions: &mut SessionStore) -> (r: Option<String>)
    ensures
        !(form.username@ == cfg.admin_username@ && form.password@ == cfg.admin_password@) ==> r is None
            && final(sessions)@ == old(sessions)@,
        form.username@ == cfg.admin_username@ && form.password@ == cfg.admin_password@ ==> exists|
            sid: Seq<char>,
            t: i128,
        |
            representable(t as int) && sid.len() == 64 && is_lower_hex(sid) && #[trigger] admin_login_outcome(
                *cfg,
                *form,
                old(sessions)@,
                final(sessions)@,
                opt_view(r),
                sid,
                t as int,
            ),
{
    if str_eq(form.username.as_str(), cfg.admin_username.as_str()) && str_eq(
        form.password.as_str(),
        cfg.admin_password.as_str(),
    ) {
        let t = crate::time::now();
        let sid = gen_token();
        let ghost k = sid@;
        let r = admin_login_at(cfg, form, sessions, sid, t);
        assert(representable(t as int) && k.len() == 64 && is_lower_hex(k));
        r
    } else {
        None
    }
}

/// Signs the administrator out: ends the session named by the cookie, if any.
pub fn admin_logout(sessions: &mut SessionStore, cookie_header: Option<&str>)
    ensures
        match spec_cookie_value(str_opt_view(cookie_header), COOKIE@) {
            Some(sid) => final(sessions)@ == sessions_without(old(sessions)@, sid),
            None => final(sessions)@ == old(sessions)@,
        },
{
    if let Some(sid) = cookie_value(cookie_header, COOKIE) {
        sessions.destroy(sid.as_str());
    }
}

/// The new terms of an authorised account: at least one device; a term of
/// `valid_days` from `now`, or none when `valid_days` is not positive.
pub fn authorize_terms(form: &AuthorizeForm, now: i128) -> (r: (i64, Option<String>))
    requires
        representable(now as int),
        form.valid_days > 0 ==> representable(plus_days(now as int, form.valid_days as int)),
    ensures
        r.0 == if form.max_devices > 1 { form.max_devices } else { 1 },
        form.valid_days > 0 ==> opt_view(r.1) == Some(time_text(plus_days(now as int, form.valid_days as int))),
        form.valid_days > 0 && text_round_trips(plus_days(now as int, form.valid_days as int)) ==> (r.1 matches Some(
            e,
        ) && parts_to_nanos(spec_parse_rfc3339(e@)) == Some(plus_days(now as int, form.valid_days as int))),
        form.valid_days <= 0 ==> r.1 is None,
{
    let expires_at = if form.valid_days > 0 {
        Some(rfc3339(add_days(now, form.valid_days)))
    } else {
        None
    };
    let max_devices = if form.max_devices > 1 { form.max_devices } else { 1 };
    (max_devices, expires_at)
}

/// The instant an extension counts from: the account's expiry while it lies
/// after `now`, else `now`.
pub open spec fn spec_extension_base(expires_at: Option<Seq<char>>, now: int) -> int {
    match expires_at {
        Some(s) => match parts_to_nanos(spec_parse_rfc3339(s)) {
            Some(e) => if e > now { e } else { now },
            None => now,
        },
        None => now,
    }
}

/// Computes the instant an extension counts from.
pub fn extension_base(expires_at: &Option<String>, now: i128) -> (b: i128)
    requires
        representable(now as int),
    ensures
        b == spec_extension_base(opt_view(*expires_at), now as int),
        b >= now,
        b < (crate::time::MAX_UTC_SECS + 2) * 1_000_000_000,
{
    match expires_at {
        Some(s) => match parse_dt(s.as_str()) {
            Some(e) => if e > now { e } else { now },
            None => now,
        },
        None => now,
    }
}

/// The new expiry of an extended account: `days` (at least one) after `base`.
pub fn extended_expiry(base: i128, days: i64) -> (r: String)
    requires
        representable(base as int),
        representable(plus_days(base as int, if days > 1 { days as int } else { 1 })),
    ensures
        r@ == time_text(plus_days(base as int, if days > 1 { days as int } else { 1 })),
{
    let d = if days > 1 { days } else { 1 };
    rfc3339(add_days(base, d))
}


/// The HTML page around a title and a body.
pub open spec fn spec_page(title: Seq<char>, body: Seq<char>) -> Seq<char> {
    "<!DOCTYPE html>\n<html lang=\"zh-CN\"><head><meta charset=\"utf-8\">\n<meta name=\"viewport\" content=\"width=device-width, initial-scale=1\">\n<title>"@
        + title
        + "</title>\n<style>\n:root{--bg:#0f172a;--card:#1e293b;--fg:#e2e8f0;--muted:#94a3b8;--accent:#3b82f6;--ok:#22c55e;--warn:#f59e0b;--bad:#ef4444;}\n*{box-sizing:border-box}\nbody{margin:0;font-family:system-ui,-apple-system,Segoe UI,Roboto,Arial,\"PingFang SC\",\"Microsoft YaHei\";background:var(--bg);color:var(--fg);}\nheader{padding:16px 24px;background:var(--card);display:flex;align-items:center;justify-content:space-between;border-bottom:1px solid #334155}\nheader h1{font-size:18px;margin:0}\nmain{padding:24px;max-width:1100px;margin:0 auto}\n.cards{display:flex;gap:16px;flex-wrap:wrap;margin-bottom:24px}\n.card{background:var(--card);border:1px solid #334155;border-radius:12px;padding:16px 20px;min-width:140px}\n.card .n{font-size:28px;font-weight:700}\n.card .l{color:var(--muted);font-size:13px;margin-top:4px}\ntable{width:100%;border-collapse:collapse;background:var(--card);border-radius:12px;overflow:hidden}\nth,td{padding:10px 12px;text-align:left;border-bottom:1px solid #334155;font-size:14px;vertical-align:middle}\nth{color:var(--muted);font-weight:600}\n.badge{padding:2px 8px;border-radius:999px;font-size:12px}\n.b-active{background:rgba(34,197,94,.15);color:var(--ok)}\n.b-pending{background:rgba(245,158,11,.15);color:var(--warn)}\n.b-suspended{background:rgba(239,68,68,.15);color:var(--bad)}\nform.inline{display:inline}\ninput,textarea,button{font-family:inherit;font-size:13px;border-radius:8px;border:1px solid #475569;background:#0b1220;color:var(--fg);padding:6px 8px}\ninput[type=number]{width:64px}\nbutton{cursor:pointer;background:var(--accent);border-color:var(--accent);color:#fff;padding:6px 12px}\nbutton.ghost{background:transparent;border-color:#475569;color:var(--fg)}\nbutton.danger{background:var(--bad);border-color:var(--bad)}\na{color:var(--accent);text-decoration:none}\n.row-actions{display:flex;gap:6px;flex-wrap:wrap;align-items:center}\ntextarea{width:100%;min-height:420px;font-family:ui-monospace,Menlo,Consolas,monospace}\n.muted{color:var(--muted);font-size:12px}\n</style></head>\n<body>"@
        + body
        + "</body></html>"@
}

/// Wraps `body` in the console's HTML page.
pub fn page(title: &str, body: &str) -> (r: String)
    ensures
        r@ == spec_page(title@, body@),
{
    let mut m: Vec<char> = Vec::new();
    push_str(&mut m, "<!DOCTYPE html>\n<html lang=\"zh-CN\"><head><meta charset=\"utf-8\">\n<meta name=\"viewport\" content=\"width=device-width, initial-scale=1\">\n<title>");
    push_str(&mut m, title);
    push_str(&mut m, "</title>\n<style>\n:root{--bg:#0f172a;--card:#1e293b;--fg:#e2e8f0;--muted:#94a3b8;--accent:#3b82f6;--ok:#22c55e;--warn:#f59e0b;--bad:#ef4444;}\n*{box-sizing:border-box}\nbody{margin:0;font-family:system-ui,-apple-system,Segoe UI,Roboto,Arial,\"PingFang SC\",\"Microsoft YaHei\";background:var(--bg);color:var(--fg);}\nheader{padding:16px 24px;background:var(--card);display:flex;align-items:center;justify-content:space-between;border-bottom:1px solid #334155}\nheader h1{font-size:18px;margin:0}\nmain{padding:24px;max-width:1100px;margin:0 auto}\n.cards{display:flex;gap:16px;flex-wrap:wrap;margin-bottom:24px}\n.card{background:var(--card);border:1px solid #334155;border-radius:12px;padding:16px 20px;min-width:140px}\n.card .n{font-size:28px;font-weight:700}\n.card .l{color:var(--muted);font-size:13px;margin-top:4px}\ntable{width:100%;border-collapse:collapse;background:var(--card);border-radius:12px;overflow:hidden}\nth,td{padding:10px 12px;text-align:left;border-bottom:1px solid #334155;font-size:14px;vertical-align:middle}\nth{color:var(--muted);font-weight:600}\n.badge{padding:2px 8px;border-radius:999px;font-size:12px}\n.b-active{background:rgba(34,197,94,.15);color:var(--ok)}\n.b-pending{background:rgba(245,158,11,.15);color:var(--warn)}\n.b-suspended{background:rgba(239,68,68,.15);color:var(--bad)}\nform.inline{display:inline}\ninput,textarea,button{font-family:inherit;font-size:13px;border-radius:8px;border:1px solid #475569;background:#0b1220;color:var(--fg);padding:6px 8px}\ninput[type=number]{width:64px}\nbutton{cursor:pointer;background:var(--accent);border-color:var(--accent);color:#fff;padding:6px 12px}\nbutton.ghost{background:transparent;border-color:#475569;color:var(--fg)}\nbutton.danger{background:var(--bad);border-color:var(--bad)}\na{color:var(--accent);text-decoration:none}\n.row-actions{display:flex;gap:6px;flex-wrap:wrap;align-items:center}\ntextarea{width:100%;min-height:420px;font-family:ui-monospace,Menlo,Consolas,monospace}\n.muted{color:var(--muted);font-size:12px}\n</style></head>\n<body>");
    push_str(&mut m, body);
    push_str(&mut m, "</body></html>");
    let r = string_from_chars(m.as_slice());
    assert(r@ =~= spec_page(title@, body@));
    r
}

/// The console's header and navigation.
pub const NAV: &'static str = "<header><h1>Clash Verge · 设备授权后台</h1>\n<nav class=\"row-actions\">\n<a href=\"/admin\">概览/用户</a>\n<a href=\"/admin/template\">订阅模板</a>\n<form class=\"inline\" method=\"post\" action=\"/admin/logout\"><button class=\"ghost\">登出</button></form>\n</nav></header>";

/// The console's header and navigation.
pub fn nav() -> (r: String)
    ensures
        r@ == NAV@,
{
    NAV.to_string()
}

/// The sign-in form.
pub const LOGIN_BODY: &'static str = "<main style=\"max-width:360px\">\n<h2>管理员登录</h2>\n<form method=\"post\" action=\"/admin/login\">\n<p><input name=\"username\" placeholder=\"用户名\" style=\"width:100%\" required></p>\n<p><input name=\"password\" type=\"password\" placeholder=\"密码\" style=\"width:100%\" required></p>\n<p><button type=\"submit\" style=\"width:100%\">登录</button></p>\n</form></main>";

/// The sign-in form after wrong credentials.
pub const LOGIN_FAILED_BODY: &'static str = "<main style=\"max-width:360px\"><h2>管理员登录</h2>\n<p style=\"color:#ef4444\">用户名或密码错误</p>\n<form method=\"post\" action=\"/admin/login\">\n<p><input name=\"username\" placeholder=\"用户名\" style=\"width:100%\" required></p>\n<p><input name=\"password\" type=\"password\" placeholder=\"密码\" style=\"width:100%\" required></p>\n<p><button type=\"submit\" style=\"width:100%\">登录</button></p>\n</form></main>";

/// `GET /admin/login`: the sign-in page.
pub fn login_page() -> (r: String)
    ensures
        r@ == spec_page("登录"@, LOGIN_BODY@),
{
    page("登录", LOGIN_BODY)
}

/// The sign-in page shown after wrong credentials.
pub fn login_failed_page() -> (r: String)
    ensures
        r@ == spec_page("登录"@, LOGIN_FAILED_BODY@),
{
    page("登录", LOGIN_FAILED_BODY)
}

/// The body of the template editor.
pub open spec fn spec_template_body(template: Seq<char>) -> Seq<char> {
    NAV@
        + "<main>\n<h2>订阅模板（Clash YAML）</h2>\n<p class=\"muted\">节点 password 处写占位符 <code>"@
        + TOKEN_PLACEHOLDER@
        + "</code>，下发时会替换为用户设备 Token。</p>\n<form method=\"post\" action=\"/admin/template\">\n<textarea name=\"template\">"@
        + spec_html_escape(template)
        + "</textarea>\n<p><button type=\"submit\">保存模板</button></p>\n</form></main>"@
}

/// `GET /admin/template`: the template editor holding `template`.
pub fn template_page(template: &str) -> (r: String)
    ensures
        r@ == spec_page("订阅模板"@, spec_template_body(template@)),
{
    let escaped = html_escape(template);
    let mut m: Vec<char> = Vec::new();
    push_str(&mut m, NAV);
    push_str(&mut m, "<main>\n<h2>订阅模板（Clash YAML）</h2>\n<p class=\"muted\">节点 password 处写占位符 <code>");
    push_str(&mut m, TOKEN_PLACEHOLDER);
    push_str(&mut m, "</code>，下发时会替换为用户设备 Token。</p>\n<form method=\"post\" action=\"/admin/template\">\n<textarea name=\"template\">");
    push_str(&mut m, escaped.as_str());
    push_str(&mut m, "</textarea>\n<p><button type=\"submit\">保存模板</button></p>\n</form></main>");
    let body = string_from_chars(m.as_slice());
    assert(body@ =~= spec_template_body(template@));
    page("订阅模板", body.as_str())
}

/// The badge class and text of an account's state.
pub open spec fn spec_badge(status: Seq<char>, expired: bool) -> (Seq<char>, Seq<char>) {
    if status == "active"@ {
        ("b-active"@, if expired { "已过期"@ } else { "正常"@ })
    } else if status == "suspended"@ {
        ("b-suspended"@, "停用"@)
    } else {
        ("b-pending"@, "待审核"@)
    }
}

fn badge(status: &str, expired: bool) -> (r: (&'static str, &'static str))
    ensures
        (r.0@, r.1@) == spec_badge(status@, expired),
{
    if str_eq(status, "active") {
        ("b-active", if expired { "已过期" } else { "正常" })
    } else if str_eq(status, "suspended") {
        ("b-suspended", "停用")
    } else {
        ("b-pending", "待审核")
    }
}

/// The label of one device in the overview: its escaped platform (`?` when
/// unknown), marked when revoked.
pub open spec fn spec_device_label(d: Device) -> Seq<char> {
    spec_html_escape(match d.platform {
        Some(p) => p@,
        None => "?"@,
    }) + if d.revoked != 0 { "(禁)"@ } else { Seq::<char>::empty() }
}

/// The device labels joined with `, `.
pub open spec fn spec_dev_list(devices: Seq<Device>) -> Seq<char>
    decreases devices.len(),
{
    if devices.len() == 0 {
        Seq::empty()
    } else if devices.len() == 1 {
        spec_device_label(devices[0])
    } else {
        spec_dev_list(devices.drop_last()) + ", "@ + spec_device_label(devices.last())
    }
}

/// The term shown for an account: its expiry, or `长期` for none.
pub open spec fn spec_expires_label(expires_at: Option<Seq<char>>) -> Seq<char> {
    match expires_at {
        Some(e) => e,
        None => "长期"@,
    }
}

/// The suspend button, or the reactivate button of a suspended account.
pub open spec fn spec_suspend_button(status: Seq<char>, id: i64) -> Seq<char> {
    if status == "suspended"@ {
        "<form class=\"inline\" method=\"post\" action=\"/admin/users/"@ + int_text(id as int) + "/activate\"><button class=\"ghost\">恢复</button></form>"@
    } else {
        "<form class=\"inline\" method=\"post\" action=\"/admin/users/"@ + int_text(id as int) + "/suspend\"><button class=\"ghost\">停用</button></form>"@
    }
}

fn device_label(d: &Device) -> (r: String)
    ensures
        r@ == spec_device_label(*d),
{
    let p = match &d.platform {
        Some(p) => html_escape(p.as_str()),
        None => html_escape("?"),
    };
    let mut m: Vec<char> = Vec::new();
    push_str(&mut m, p.as_str());
    if d.revoked != 0 {
        push_str(&mut m, "(禁)");
    }
    let r = string_from_chars(m.as_slice());
    assert(r@ =~= spec_device_label(*d));
    r
}

fn dev_list(devices: &Vec<Device>) -> (r: (String, usize))
    ensures
        r.0@ == spec_dev_list(devices@),
        r.1 == count_unrevoked(devices@),
{
    let mut m: Vec<char> = Vec::new();
    let mut n: usize = 0;
    let mut i: usize = 0;
    while i < devices.len()
        invariant
            i <= devices.len(),
            m@ == spec_dev_list(devices@.take(i as int)),
            n == count_unrevoked(devices@.take(i as int)),
            n <= i,
        decreases devices.len() - i,
    {
        let ghost before = m@;
        assert(devices@.take(i + 1).drop_last() =~= devices@.take(i as int));
        assert(devices@.take(i + 1).last() == devices@[i as int]);
        if i > 0 {
            push_str(&mut m, ", ");
        } else {
            assert(devices@.take(1) =~= seq![devices@[0]]);
        }
        let label = device_label(&devices[i]);
        push_str(&mut m, label.as_str());
        if devices[i].revoked == 0 {
            n = n + 1;
        }
        i = i + 1;
        assert(m@ =~= spec_dev_list(devices@.take(i as int)));
    }
    assert(devices@.take(devices.len() as int) =~= devices@);
    (string_from_chars(m.as_slice()), n)
}

fn suspend_button(status: &str, id: i64) -> (r: String)
    ensures
        r@ == spec_suspend_button(status@, id),
{
    let mut m: Vec<char> = Vec::new();
    if str_eq(status, "suspended") {
        push_str(&mut m, "<form class=\"inline\" method=\"post\" action=\"/admin/users/");
        push_int(&mut m, id);
        push_str(&mut m, "/activate\"><button class=\"ghost\">恢复</button></form>");
    } else {
        push_str(&mut m, "<form class=\"inline\" method=\"post\" action=\"/admin/users/");
        push_int(&mut m, id);
        push_str(&mut m, "/suspend\"><button class=\"ghost\">停用</button></form>");
    }
    let r = string_from_chars(m.as_slice());
    assert(r@ =~= spec_suspend_button(status@, id));
    r
}

/// One row of the account overview.
pub open spec fn spec_user_row(u: User, devices: Seq<Device>, now: int) -> Seq<char> {
    "<tr>\n<td>"@
        + int_text(u.id as int)
        + "</td>\n<td>"@
        + spec_html_escape(u.email@)
        + "<div class=\"muted\">"@
        + spec_dev_list(devices)
        + "</div></td>\n<td><span class=\"badge "@
        + spec_badge(u.status@, user_expired(u, now)).0
        + "\">"@
        + spec_badge(u.status@, user_expired(u, now)).1
        + "</span></td>\n<td>"@
        + decimal(count_unrevoked(devices))
        + "/"@
        + int_text(u.max_devices as int)
        + "</td>\n<td>"@
        + spec_html_escape(spec_expires_label(opt_view(u.expires_at)))
        + "</td>\n<td><div class=\"row-actions\">\n  <form class=\"inline\" method=\"post\" action=\"/admin/users/"@
        + int_text(u.id as int)
        + "/authorize\">\n    设备<input type=\"number\" name=\"max_devices\" value=\""@
        + int_text(u.max_devices as int)
        + "\" min=\"1\">\n    天数<input type=\"number\" name=\"valid_days\" value=\"30\" min=\"0\" title=\"0=长期\">\n    <button>授权/更新</button>\n  </form>\n  <form class=\"inline\" method=\"post\" action=\"/admin/users/"@
        + int_text(u.id as int)
        + "/extend\">\n    +<input type=\"number\" name=\"days\" value=\"30\" min=\"1\">天<button class=\"ghost\">续期</button>\n  </form>\n  "@
        + spec_suspend_button(u.status@, u.id)
        + "\n  <form class=\"inline\" method=\"post\" action=\"/admin/users/"@
        + int_text(u.id as int)
        + "/reset-devices\" onsubmit=\"return confirm('解绑该用户所有设备?')\"><button class=\"ghost\">解绑设备</button></form>\n  <form class=\"inline\" method=\"post\" action=\"/admin/users/"@
        + int_text(u.id as int)
        + "/delete\" onsubmit=\"return confirm('删除该用户?')\"><button class=\"danger\">删除</button></form>\n</div></td>\n</tr>"@
}

/// Renders one row of the account overview at instant `now`.
pub fn user_row(u: &User, devices: &Vec<Device>, now: i128) -> (r: String)
    ensures
        r@ == spec_user_row(*u, devices@, now as int),
{
    let expired = u.is_expired_at(now);
    let badge = badge(u.status.as_str(), expired);
    let email = html_escape(u.email.as_str());
    let (dev_list, active_dev) = dev_list(devices);
    let expires_text = match &u.expires_at {
        Some(e) => e.as_str(),
        None => "长期",
    };
    let expires = html_escape(expires_text);
    let suspend = suspend_button(u.status.as_str(), u.id);
    let mut m: Vec<char> = Vec::new();
    push_str(&mut m, "<tr>\n<td>");
    push_int(&mut m, u.id);
    push_str(&mut m, "</td>\n<td>");
    push_str(&mut m, email.as_str());
    push_str(&mut m, "<div class=\"muted\">");
    push_str(&mut m, dev_list.as_str());
    push_str(&mut m, "</div></td>\n<td><span class=\"badge ");
    push_str(&mut m, badge.0);
    push_str(&mut m, "\">");
    push_str(&mut m, badge.1);
    push_str(&mut m, "</span></td>\n<td>");
    push_usize(&mut m, active_dev);
    push_str(&mut m, "/");
    push_int(&mut m, u.max_devices);
    push_str(&mut m, "</td>\n<td>");
    push_str(&mut m, expires.as_str());
    push_str(&mut m, "</td>\n<td><div class=\"row-actions\">\n  <form class=\"inline\" method=\"post\" action=\"/admin/users/");
    push_int(&mut m, u.id);
    push_str(&mut m, "/authorize\">\n    设备<input type=\"number\" name=\"max_devices\" value=\"");
    push_int(&mut m, u.max_devices);
    push_str(&mut m, "\" min=\"1\">\n    天数<input type=\"number\" name=\"valid_days\" value=\"30\" min=\"0\" title=\"0=长期\">\n    <button>授权/更新</button>\n  </form>\n  <form class=\"inline\" method=\"post\" action=\"/admin/users/");
    push_int(&mut m, u.id);
    push_str(&mut m, "/extend\">\n    +<input type=\"number\" name=\"days\" value=\"30\" min=\"1\">天<button class=\"ghost\">续期</button>\n  </form>\n  ");
    push_str(&mut m, suspend.as_str());
    push_str(&mut m, "\n  <form class=\"inline\" method=\"post\" action=\"/admin/users/");
    push_int(&mut m, u.id);
    push_str(&mut m, "/reset-devices\" onsubmit=\"return confirm('解绑该用户所有设备?')\"><button class=\"ghost\">解绑设备</button></form>\n  <form class=\"inline\" method=\"post\" action=\"/admin/users/");
    push_int(&mut m, u.id);
    push_str(&mut m, "/delete\" onsubmit=\"return confirm('删除该用户?')\"><button class=\"danger\">删除</button></form>\n</div></td>\n</tr>");
    let r = string_from_chars(m.as_slice());
    assert(r@ =~= spec_user_row(*u, devices@, now as int));
    r
}

/// The number of accounts that satisfy `f`.
pub open spec fn count_users(users: Seq<User>, f: spec_fn(User) -> bool) -> nat
    decreases users.len(),
{
    if users.len() == 0 {
        0
    } else {
        count_users(users.drop_last(), f) + if f(users.last()) { 1nat } else { 0nat }
    }
}

/// The overview's counts: accounts in all, active and unexpired, pending, expired.
pub struct DashboardStats {
    pub total: usize,
    pub active: usize,
    pub pending: usize,
    pub expired: usize,
}

/// Counts the accounts of the overview at instant `now`.
pub fn dashboard_stats(users: &Vec<User>, now: i128) -> (r: DashboardStats)
    ensures
        r.total == users.len(),
        r.active == count_users(users@, |u: User| user_active(u) && !user_expired(u, now as int)),
        r.pending == count_users(users@, |u: User| u.status@ == "pending"@),
        r.expired == count_users(users@, |u: User| user_expired(u, now as int)),
{
    let ghost fa = |u: User| user_active(u) && !user_expired(u, now as int);
    let ghost fp = |u: User| u.status@ == "pending"@;
    let ghost fe = |u: User| user_expired(u, now as int);
    let mut active: usize = 0;
    let mut pending: usize = 0;
    let mut expired: usize = 0;
    let mut i: usize = 0;
    while i < users.len()
        invariant
            i <= users.len(),
            fa == (|u: User| user_active(u) && !user_expired(u, now as int)),
            fp == (|u: User| u.status@ == "pending"@),
            fe == (|u: User| user_expired(u, now as int)),
            active == count_users(users@.take(i as int), fa),
            pending == count_users(users@.take(i as int), fp),
            expired == count_users(users@.take(i as int), fe),
            active <= i && pending <= i && expired <= i,
        decreases users.len() - i,
    {
        let u = &users[i];
        assert(users@.take(i + 1).drop_last() =~= users@.take(i as int));
        assert(users@.take(i + 1).last() == users@[i as int]);
        let e = u.is_expired_at(now);
        let a = u.is_active();
        let pe = str_eq(u.status.as_str(), "pending");
        assert(fa(users@[i as int]) == (a && !e));
        assert(fp(users@[i as int]) == pe);
        assert(fe(users@[i as int]) == e);
        if a && !e {
            active = active + 1;
        }
        if pe {
            pending = pending + 1;
        }
        if e {
            expired = expired + 1;
        }
        i = i + 1;
    }
    assert(users@.take(users.len() as int) =~= users@);
    DashboardStats { total: users.len(), active, pending, expired }
}

/// The rows of all accounts, each with its devices.
pub open spec fn spec_rows(users: Seq<User>, devices: Seq<Vec<Device>>, now: int) -> Seq<char>
    decreases users.len(),
{
    if users.len() == 0 || devices.len() != users.len() {
        Seq::empty()
    } else {
        spec_rows(users.drop_last(), devices.drop_last(), now) + spec_user_row(
            users.last(),
            devices.last()@,
            now,
        )
    }
}

/// The body of the account overview.
pub open spec fn spec_dashboard_body(users: Seq<User>, devices: Seq<Vec<Device>>, now: int) -> Seq<char> {
    NAV@
        + "<main>\n<div class=\"cards\">\n<div class=\"card\"><div class=\"n\">"@
        + decimal(users.len())
        + "</div><div class=\"l\">总用户</div></div>\n<div class=\"card\"><div class=\"n\">"@
        + decimal(count_users(users, |u: User| user_active(u) && !user_expired(u, now)))
        + "</div><div class=\"l\">正常</div></div>\n<div class=\"card\"><div class=\"n\">"@
        + decimal(count_users(users, |u: User| u.status@ == "pending"@))
        + "</div><div class=\"l\">待审核</div></div>\n<div class=\"card\"><div class=\"n\">"@
        + decimal(count_users(users, |u: User| user_expired(u, now)))
        + "</div><div class=\"l\">已过期</div></div>\n</div>\n<table>\n<thead><tr><th>ID</th><th>邮箱 / 设备</th><th>状态</th><th>设备</th><th>到期</th><th>操作</th></tr></thead>\n<tbody>"@
        + spec_rows(users, devices, now)
        + "</tbody>\n</table>\n<p class=\"muted\">授权：设置「可绑定设备数」与「有效天数」（0=长期），保存即把用户置为正常并邮件通知。</p>\n</main>"@
}

/// `GET /admin`: the account overview at instant `now`; `devices[i]` are the
/// devices of `users[i]`.
pub fn render_dashboard(users: &Vec<User>, devices: &Vec<Vec<Device>>, now: i128) -> (r: String)
    requires
        devices.len() == users.len(),
    ensures
        r@ == spec_page("后台"@, spec_dashboard_body(users@, devices@, now as int)),
{
    let stats = dashboard_stats(users, now);
    let mut rows_m: Vec<char> = Vec::new();
    let mut i: usize = 0;
    while i < users.len()
        invariant
            i <= users.len(),
            devices.len() == users.len(),
            rows_m@ == spec_rows(users@.take(i as int), devices@.take(i as int), now as int),
        decreases users.len() - i,
    {
        assert(users@.take(i + 1).drop_last() =~= users@.take(i as int));
        assert(devices@.take(i + 1).drop_last() =~= devices@.take(i as int));
        let row = user_row(&users[i], &devices[i], now);
        push_str(&mut rows_m, row.as_str());
        i = i + 1;
        assert(rows_m@ =~= spec_rows(users@.take(i as int), devices@.take(i as int), now as int));
    }
    assert(users@.take(users.len() as int) =~= users@);
    assert(devices@.take(devices.len() as int) =~= devices@);
    let rows = string_from_chars(rows_m.as_slice());
    let mut m: Vec<char> = Vec::new();
    push_str(&mut m, NAV);
    push_str(&mut m, "<main>\n<div class=\"cards\">\n<div class=\"card\"><div class=\"n\">");
    push_usize(&mut m, stats.total);
    push_str(&mut m, "</div><div class=\"l\">总用户</div></div>\n<div class=\"card\"><div class=\"n\">");
    push_usize(&mut m, stats.active);
    push_str(&mut m, "</div><div class=\"l\">正常</div></div>\n<div class=\"card\"><div class=\"n\">");
    push_usize(&mut m, stats.pending);
    push_str(&mut m, "</div><div class=\"l\">待审核</div></div>\n<div class=\"card\"><div class=\"n\">");
    push_usize(&mut m, stats.expired);
    push_str(&mut m, "</div><div class=\"l\">已过期</div></div>\n</div>\n<table>\n<thead><tr><th>ID</th><th>邮箱 / 设备</th><th>状态</th><th>设备</th><th>到期</th><th>操作</th></tr></thead>\n<tbody>");
    push_str(&mut m, rows.as_str());
    push_str(&mut m, "</tbody>\n</table>\n<p class=\"muted\">授权：设置「可绑定设备数」与「有效天数」（0=长期），保存即把用户置为正常并邮件通知。</p>\n</main>");
    let body = string_from_chars(m.as_slice());
    assert(body@ =~= spec_dashboard_body(users@, devices@, now as int));
    page("后台", body.as_str())
}


/// The state shown for an account: an active one is marked active, as expired
/// exactly when its term has passed; a suspended one as suspended; any other
/// (a pending account) as awaiting approval.  The three states other than
/// active and unexpired read differently.
pub proof fn law_badge_shows_account_state(status: Seq<char>, expired: bool)
    ensures
        status == "active"@ ==> spec_badge(status, expired).0 == "b-active"@ && (spec_badge(status, expired).1
            == "已过期"@ <==> expired),
        status == "suspended"@ ==> spec_badge(status, expired) == ("b-suspended"@, "停用"@),
        status != "active"@ && status != "suspended"@ ==> spec_badge(status, expired) == ("b-pending"@, "待审核"@),
        "已过期"@ != "停用"@ && "已过期"@ != "待审核"@ && "停用"@ != "待审核"@ && "正常"@ != "已过期"@,
{
    reveal_strlit("active");
    reveal_strlit("suspended");
    assert("active"@ != "suspended"@) by {
        assert("active"@[0] != "suspended"@[0]);
    }
    reveal_strlit("已过期");
    reveal_strlit("停用");
    reveal_strlit("待审核");
    reveal_strlit("正常");
    assert("已过期"@[0] != "停用"@[0]);
    assert("已过期"@[0] != "待审核"@[0]);
    assert("停用"@[0] != "待审核"@[0]);
    assert("正常"@[0] != "已过期"@[0]);
}

} // verus!
