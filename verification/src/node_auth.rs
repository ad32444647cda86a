//! The desktop client's side of node authentication: the locally kept session
//! (server, credentials, device token), its status, the device fingerprint and
//! the silent renewal before the token expires.

use crate::models::opt_view;
use crate::text::{is_ws, trim_end, trim_start, has_prefix, push_str, starts_with, str_eq, string_from_chars, trim, trim_str};
use crate::client::{trim_end_char, trim_end_matches_char};
use crate::time::{
    can_add_days, now, parse_dt, parse_naive_utc, parts_to_nanos, plus_days, representable,
    spec_parse_naive_utc, spec_parse_rfc3339,
};
use vstd::prelude::*;

verus! {

/// The file that holds the local session.
pub const NODE_AUTH_FILE: &'static str = "node-auth.json";

/// Renewal starts when the token has fewer than this many days left.
pub const RENEW_BEFORE_DAYS: i64 = 2;

/// The locally kept session (the password is kept for silent renewal only).
pub struct NodeAuthState {
    /// The auth server, e.g. `https://auth.example.com`.
    pub server: String,
    pub username: String,
    pub password: String,
    /// The 64-hex device token.
    pub token: String,
    /// When the token expires (ISO 8601), as the server said.
    pub expires_at: String,
    pub device_fp: String,
    pub platform: String,
    pub max_devices: Option<u32>,
    pub active_devices: Option<u32>,
}

/// The session as shown to the user interface (no password, no token).
pub struct NodeAuthStatus {
    pub logged_in: bool,
    pub server: String,
    pub username: String,
    pub expires_at: String,
    pub device_fp: String,
    pub platform: String,
    pub max_devices: Option<u32>,
    pub active_devices: Option<u32>,
    /// Whether the token has expired.
    pub expired: bool,
}

impl Default for NodeAuthStatus {
    fn default() -> (s: Self)
        ensures
            !s.logged_in && !s.expired && s.server@.len() == 0 && s.username@.len() == 0 && s.expires_at@.len()
                == 0 && s.device_fp@.len() == 0 && s.platform@.len() == 0 && s.max_devices is None
                && s.active_devices is None,
    {
        NodeAuthStatus {
            logged_in: false,
            server: String::new(),
            username: String::new(),
            expires_at: String::new(),
            device_fp: String::new(),
            platform: String::new(),
            max_devices: None,
            active_devices: None,
            expired: false,
        }
    }
}

/// The body of the client's `POST /login`.
pub struct LoginRequest {
    pub username: String,
    pub password: String,
    pub device_fp: String,
    pub platform: String,
}

/// The parts of the server's `POST /login` answer that the client keeps.
pub struct LoginResponse {
    pub token: String,
    pub expires_at: String,
    pub username: String,
    pub max_devices: Option<u32>,
    pub active_devices: Option<u32>,
}

/// The platform name sent to the server for an OS name (`std::env::consts::OS`):
/// `windows`, `macos`, or `linux` for any other.
pub open spec fn spec_platform_name(os: Seq<char>) -> Seq<char> {
    if os == "windows"@ {
        "windows"@
    } else if os == "macos"@ {
        "macos"@
    } else {
        "linux"@
    }
}

/// The platform name for an OS name.
pub fn platform_name(os: &str) -> (r: &'static str)
    ensures
        r@ == spec_platform_name(os@),
{
    if str_eq(os, "windows") {
        "windows"
    } else if str_eq(os, "macos") {
        "macos"
    } else {
        "linux"
    }
}

/// The device fingerprint: `<platform>-<machine id>` with the machine id trimmed,
/// or `<platform>-host-<host name>` when no machine id could be read.
pub open spec fn spec_device_fingerprint(platform: Seq<char>, machine_id: Option<Seq<char>>, host: Seq<char>) -> Seq<
    char,
> {
    let raw = match machine_id {
        Some(m) => trim(m),
        None => Seq::empty(),
    };
    if raw.len() == 0 {
        platform + "-host-"@ + host
    } else {
        platform + "-"@ + raw
    }
}

/// Builds the device fingerprint from the machine id read on this host (if any)
/// and the host name.
pub fn device_fingerprint(platform: &str, machine_id: Option<String>, host: &str) -> (r: String)
    ensures
        r@ == spec_device_fingerprint(platform@, opt_view(machine_id), host@),
        has_prefix(r@, platform@),
        r@.len() > 0 || platform@.len() > 0,
{
    let mut m: Vec<char> = Vec::new();
    push_str(&mut m, platform);
    let raw: &str = match &machine_id {
        Some(id) => trim_str(id.as_str()),
        None => {
            proof {
                reveal_strlit("");
            }
            ""
        },
    };
    if raw.unicode_len() == 0 {
        push_str(&mut m, "-host-");
        push_str(&mut m, host);
    } else {
        push_str(&mut m, "-");
        push_str(&mut m, raw);
    }
    let r = string_from_chars(m.as_slice());
    assert(r@ =~= spec_device_fingerprint(platform@, opt_view(machine_id), host@));
    assert(r@.subrange(0, platform@.len() as int) =~= platform@);
    proof {
        reveal_strlit("-host-");
        reveal_strlit("-");
    }
    r
}

/// The server address as used: trimmed, without trailing `/`, with `https://`
/// added when it names no `http://` or `https://` scheme.
pub open spec fn spec_normalize_server(server: Seq<char>) -> Seq<char> {
    let s = trim_end_char(trim(server), '/');
    if has_prefix(s, "http://"@) || has_prefix(s, "https://"@) {
        s
    } else {
        "https://"@ + s
    }
}

/// Normalises the server address.
pub fn normalize_server(server: &str) -> (r: String)
    ensures
        r@ == spec_normalize_server(server@),
{
    let s = trim_end_matches_char(trim_str(server), '/');
    if starts_with(s, "http://") || starts_with(s, "https://") {
        s.to_string()
    } else {
        let mut m: Vec<char> = Vec::new();
        push_str(&mut m, "https://");
        push_str(&mut m, s);
        let r = string_from_chars(m.as_slice());
        assert(r@ =~= "https://"@ + s@);
        r
    }
}

/// The login endpoint of a normalised server address.
pub fn login_url(server: &str) -> (r: String)
    ensures
        r@ == server@ + "/login"@,
{
    let mut m: Vec<char> = Vec::new();
    push_str(&mut m, server);
    push_str(&mut m, "/login");
    let r = string_from_chars(m.as_slice());
    assert(r@ =~= server@ + "/login"@);
    r
}

/// The session kept after a successful login: the server's answer, with the
/// account name as typed when the server names none.  A login answer without a
/// token is refused.
pub fn session_from_login(
    server: String,
    username: &str,
    password: &str,
    resp: LoginResponse,
    device_fp: String,
    platform: &str,
) -> (r: Result<NodeAuthState, String>)
    ensures
        resp.token@.len() == 0 ==> (r matches Err(m) && m@ == "登录响应缺少 token"@),
        resp.token@.len() > 0 ==> (r matches Ok(s) && s.server@ == server@ && s.username@ == (if resp.username@.len() == 0 {
            username@
        } else {
            resp.username@
        }) && s.password@ == password@ && s.token@ == resp.token@ && s.expires_at@ == resp.expires_at@
            && s.device_fp@ == device_fp@ && s.platform@ == platform@ && s.max_devices == resp.max_devices
            && s.active_devices == resp.active_devices),
{
    if resp.token.as_str().unicode_len() == 0 {
        return Err("登录响应缺少 token".to_string());
    }
    let name = if resp.username.as_str().unicode_len() == 0 {
        username.to_string()
    } else {
        resp.username
    };
    Ok(
        NodeAuthState {
            server,
            username: name,
            password: password.to_string(),
            token: resp.token,
            expires_at: resp.expires_at,
            device_fp,
            platform: platform.to_string(),
            max_devices: resp.max_devices,
            active_devices: resp.active_devices,
        },
    )
}

/// The expiry instant written in `s`: RFC 3339, else a naive
/// `%Y-%m-%dT%H:%M:%S%.f` or `%Y-%m-%dT%H:%M:%S` read as UTC; none for an
/// empty text or one that does not parse.
pub open spec fn spec_parse_expiry(s: Seq<char>) -> Option<int> {
    if s.len() == 0 {
        None
    } else if spec_parse_rfc3339(s) is Some {
        parts_to_nanos(spec_parse_rfc3339(s))
    } else if spec_parse_naive_utc(s, "%Y-%m-%dT%H:%M:%S%.f"@) is Some {
        parts_to_nanos(spec_parse_naive_utc(s, "%Y-%m-%dT%H:%M:%S%.f"@))
    } else {
        parts_to_nanos(spec_parse_naive_utc(s, "%Y-%m-%dT%H:%M:%S"@))
    }
}

/// Reads the expiry instant the server sent.
pub fn parse_expiry(s: &str) -> (r: Option<i128>)
    ensures
        match r {
            Some(t) => spec_parse_expiry(s@) == Some(t as int),
            None => spec_parse_expiry(s@) is None,
        },
{
    if s.unicode_len() == 0 {
        return None;
    }
    if let Some(t) = parse_dt(s) {
        return Some(t);
    }
    match parse_naive_utc(s, "%Y-%m-%dT%H:%M:%S%.f") {
        Some(t) => Some(t),
        None => parse_naive_utc(s, "%Y-%m-%dT%H:%M:%S"),
    }
}

/// Whether a token expiring at `expires_at` has expired at `now`; an expiry
/// that cannot be read counts as not expired.
pub open spec fn spec_is_expired(expires_at: Seq<char>, now: int) -> bool {
    match spec_parse_expiry(expires_at) {
        Some(e) => now >= e,
        None => false,
    }
}

/// Whether a token expiring at `expires_at` is due for renewal at `now`: fewer
/// than `RENEW_BEFORE_DAYS` days left; never for an expiry that cannot be read.
pub open spec fn spec_needs_renew(expires_at: Seq<char>, now: int) -> bool {
    match spec_parse_expiry(expires_at) {
        Some(e) => plus_days(now, RENEW_BEFORE_DAYS as int) >= e,
        None => false,
    }
}

/// Whether the token has expired at `now`.
pub fn is_expired_at(expires_at: &str, now: i128) -> (b: bool)
    ensures
        b == spec_is_expired(expires_at@, now as int),
{
    match parse_expiry(expires_at) {
        Some(e) => now >= e,
        None => false,
    }
}

/// Whether the token is due for renewal at `now`.
pub fn needs_renew_at(expires_at: &str, now: i128) -> (b: bool)
    requires
        representable(now as int),
        representable(plus_days(now as int, RENEW_BEFORE_DAYS as int)),
    ensures
        b == spec_needs_renew(expires_at@, now as int),
{
    match parse_expiry(expires_at) {
        Some(e) => crate::time::add_days(now, RENEW_BEFORE_DAYS) >= e,
        None => false,
    }
}

/// Whether the token has expired now.
pub fn is_expired(expires_at: &str) -> (b: bool)
    ensures
        exists|t: i128| b == spec_is_expired(expires_at@, t as int),
{
    is_expired_at(expires_at, now())
}

/// What a renewal check gives at clock reading `now`: the verdict when
/// `RENEW_BEFORE_DAYS` days can be added to `now`, else `None`.
pub open spec fn renew_check_at(expires_at: Seq<char>, r: Option<bool>, now: int) -> bool {
    &&& representable(now)
    &&& match r {
        Some(b) => representable(plus_days(now, RENEW_BEFORE_DAYS as int)) && b == spec_needs_renew(expires_at, now),
        None => !representable(plus_days(now, RENEW_BEFORE_DAYS as int)),
    }
}

/// Whether the token is due for renewal now; `None` when the clock reads within
/// two days of chrono's last instant.
pub fn needs_renew(expires_at: &str) -> (r: Option<bool>)
    ensures
        exists|t: i128| #[trigger] renew_check_at(expires_at@, r, t as int),
{
    let t = now();
    let r = if can_add_days(t, RENEW_BEFORE_DAYS) {
        Some(needs_renew_at(expires_at, t))
    } else {
        None
    };
    assert(renew_check_at(expires_at@, r, t as int));
    r
}

/// The status shown for a session at `now`.
pub fn to_status(state: &NodeAuthState, now: i128) -> (r: NodeAuthStatus)
    ensures
        r.logged_in == (state.token@.len() > 0),
        r.expired == spec_is_expired(state.expires_at@, now as int),
        r.server@ == state.server@,
        r.username@ == state.username@,
        r.expires_at@ == state.expires_at@,
        r.device_fp@ == state.device_fp@,
        r.platform@ == state.platform@,
        r.max_devices == state.max_devices,
        r.active_devices == state.active_devices,
{
    NodeAuthStatus {
        logged_in: state.token.as_str().unicode_len() > 0,
        server: state.server.clone(),
        username: state.username.clone(),
        expires_at: state.expires_at.clone(),
        device_fp: state.device_fp.clone(),
        platform: state.platform.clone(),
        max_devices: state.max_devices,
        active_devices: state.active_devices,
        expired: is_expired_at(state.expires_at.as_str(), now),
    }
}

/// The status of the stored session (`None`: nothing stored) at `now`.
pub fn status(state: Option<&NodeAuthState>, now: i128) -> (r: NodeAuthStatus)
    ensures
        state is None ==> !r.logged_in && !r.expired && r.server@.len() == 0 && r.username@.len() == 0
            && r.expires_at@.len() == 0 && r.device_fp@.len() == 0 && r.platform@.len() == 0 && r.max_devices is None
            && r.active_devices is None,
        state matches Some(s) ==> r.logged_in == (s.token@.len() > 0) && r.expired == spec_is_expired(
            s.expires_at@,
            now as int,
        ) && r.server@ == s.server@ && r.username@ == s.username@ && r.expires_at@ == s.expires_at@
            && r.device_fp@ == s.device_fp@ && r.platform@ == s.platform@ && r.max_devices == s.max_devices
            && r.active_devices == s.active_devices,
{
    match state {
        Some(s) => to_status(s, now),
        None => NodeAuthStatus::default(),
    }
}

/// The token to write into the node passwords: the stored one while it is set
/// and not expired at `now`.
pub open spec fn spec_current_token(state: Option<NodeAuthState>, now: int) -> Option<Seq<char>> {
    match state {
        Some(s) => if s.token@.len() == 0 || spec_is_expired(s.expires_at@, now) {
            None
        } else {
            Some(s.token@)
        },
        None => None,
    }
}

/// Reads the token to inject at `now`.
pub fn current_token(state: Option<&NodeAuthState>, now: i128) -> (r: Option<String>)
    ensures
        opt_view(r) == spec_current_token(
            match state {
                Some(s) => Some(*s),
                None => None,
            },
            now as int,
        ),
{
    match state {
        Some(s) => {
            if s.token.as_str().unicode_len() == 0 || is_expired_at(s.expires_at.as_str(), now) {
                None
            } else {
                Some(s.token.clone())
            }
        },
        None => None,
    }
}

/// Whether a silent renewal is due at `now`: a stored session with a password
/// whose token is due for renewal.
pub open spec fn spec_should_renew(state: Option<NodeAuthState>, now: int) -> bool {
    match state {
        Some(s) => s.password@.len() > 0 && spec_needs_renew(s.expires_at@, now),
        None => false,
    }
}

/// Decides whether to renew the stored session at `now`.
pub fn should_renew(state: Option<&NodeAuthState>, now: i128) -> (b: bool)
    requires
        representable(now as int),
        representable(plus_days(now as int, RENEW_BEFORE_DAYS as int)),
    ensures
        b == spec_should_renew(
            match state {
                Some(s) => Some(*s),
                None => None,
            },
            now as int,
        ),
{
    match state {
        Some(s) => s.password.as_str().unicode_len() > 0 && needs_renew_at(s.expires_at.as_str(), now),
        None => false,
    }
}


/// An expired token is always due for renewal, and an expired token is never injected.
pub proof fn law_expired_token_is_renewed_not_used(state: NodeAuthState, now: int)
    requires
        spec_is_expired(state.expires_at@, now),
    ensures
        spec_needs_renew(state.expires_at@, now),
        spec_current_token(Some(state), now) is None,
        state.password@.len() > 0 ==> spec_should_renew(Some(state), now),
{
}


proof fn lemma_trim_end_char_shape(s: Seq<char>, c: char)
    ensures
        trim_end_char(s, c).len() <= s.len(),
        trim_end_char(s, c) == s.subrange(0, trim_end_char(s, c).len() as int),
        trim_end_char(s, c).len() > 0 ==> trim_end_char(s, c).last() != c,
    decreases s.len(),
{
    if s.len() > 0 && s.last() == c {
        lemma_trim_end_char_shape(s.drop_last(), c);
        let r = trim_end_char(s.drop_last(), c);
        assert(r =~= s.subrange(0, r.len() as int));
    } else {
        assert(s =~= s.subrange(0, s.len() as int));
    }
}

proof fn lemma_trim_start_shape(s: Seq<char>)
    ensures
        trim_start(s).len() > 0 ==> !is_ws(trim_start(s)[0]),
    decreases s.len(),
{
    if s.len() > 0 && is_ws(s[0]) {
        lemma_trim_start_shape(s.drop_first());
    }
}

proof fn lemma_trim_end_shape(s: Seq<char>)
    ensures
        trim_end(s).len() <= s.len(),
        trim_end(s) == s.subrange(0, trim_end(s).len() as int),
        trim_end(s).len() > 0 ==> !is_ws(trim_end(s).last()),
    decreases s.len(),
{
    if s.len() > 0 && is_ws(s.last()) {
        lemma_trim_end_shape(s.drop_last());
        let r = trim_end(s.drop_last());
        assert(r =~= s.subrange(0, r.len() as int));
    } else {
        assert(s =~= s.subrange(0, s.len() as int));
    }
}

/// A text whose first and last characters are not white space trims to itself.
proof fn lemma_trim_fixed(s: Seq<char>)
    requires
        s.len() > 0,
        !is_ws(s[0]),
        !is_ws(s.last()),
    ensures
        trim(s) == s,
{
}

/// Normalising a normalised server address changes nothing, as long as the
/// address has something left once trimmed and stripped of trailing `/`, and
/// that part does not end in white space.  The result always names a scheme
/// and does not end in `/`.
pub proof fn law_normalize_server_idempotent(server: Seq<char>)
    requires
        trim_end_char(trim(server), '/').len() > 0,
        !is_ws(trim_end_char(trim(server), '/').last()),
    ensures
        spec_normalize_server(spec_normalize_server(server)) == spec_normalize_server(server),
        has_prefix(spec_normalize_server(server), "http://"@) || has_prefix(spec_normalize_server(server), "https://"@),
        spec_normalize_server(server).last() != '/',
{
    reveal_strlit("https://");
    reveal_strlit("http://");
    let t = trim(server);
    let s1 = trim_end_char(t, '/');
    lemma_trim_start_shape(server);
    lemma_trim_end_shape(trim_start(server));
    lemma_trim_end_char_shape(t, '/');
    assert(t.len() > 0);
    assert(s1[0] == t[0]);
    let r = spec_normalize_server(server);
    if has_prefix(s1, "http://"@) || has_prefix(s1, "https://"@) {
        assert(r == s1);
    } else {
        assert(r == "https://"@ + s1);
        assert(r[0] == 'h');
        assert(r.last() == s1.last());
        assert(r.subrange(0, 8) =~= "https://"@);
    }
    assert(!is_ws(r[0]));
    assert(r.last() == s1.last());
    lemma_trim_fixed(r);
    assert(trim_end_char(r, '/') == r);
}


/// A stored session is due for silent renewal exactly when it keeps a password
/// and its expiry is readable and lies no more than `RENEW_BEFORE_DAYS` days
/// after `now`, whether or not the token has already expired.
pub proof fn law_renewal_window(state: NodeAuthState, now: int)
    ensures
        spec_should_renew(Some(state), now) <==> (state.password@.len() > 0 && spec_parse_expiry(state.expires_at@) is Some
            && plus_days(now, RENEW_BEFORE_DAYS as int) >= spec_parse_expiry(state.expires_at@)->0),
        !spec_should_renew(None, now),
{
}

} // verus!
