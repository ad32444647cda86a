//! Accounts and bound devices, as the database stores them.

use crate::auth::{gen_token, is_lower_hex};
use crate::text::{chars_of, str_eq};
use crate::time::{parse_dt, parts_to_nanos, representable, rfc3339, spec_parse_rfc3339, time_text};
use vstd::prelude::*;

verus! {

/// An account.  `status` is `pending`, `active` or `suspended`; times are RFC 3339 texts.
#[derive(Clone, Debug)]
pub struct User {
    pub id: i64,
    pub email: String,
    pub password_hash: String,
    pub status: String,
    pub max_devices: i64,
    pub expires_at: Option<String>,
    pub note: Option<String>,
    pub subscription_key: Option<String>,
    pub created_at: String,
    pub authorized_at: Option<String>,
}

/// A device bound to an account, with its current token.
#[derive(Clone, Debug)]
pub struct Device {
    pub id: i64,
    pub user_id: i64,
    pub device_fp: String,
    pub platform: Option<String>,
    pub token: Option<String>,
    pub token_expires_at: Option<String>,
    pub revoked: i64,
    pub created_at: String,
    pub last_seen_at: Option<String>,
}

/// An optional text as an optional character sequence.
pub open spec fn opt_view(o: Option<String>) -> Option<Seq<char>> {
    match o {
        Some(s) => Some(s@),
        None => None,
    }
}

/// An optional borrowed text as an optional character sequence.
pub open spec fn str_opt_view(o: Option<&str>) -> Option<Seq<char>> {
    match o {
        Some(s) => Some(s@),
        None => None,
    }
}

/// Whether the deadline written in `text` (RFC 3339) has passed at `now`.
/// No deadline, or one that does not parse, never passes.
pub open spec fn deadline_passed(text: Option<Seq<char>>, now: int) -> bool {
    match text {
        Some(s) => match parts_to_nanos(spec_parse_rfc3339(s)) {
            Some(e) => now >= e,
            None => false,
        },
        None => false,
    }
}

/// Whether the deadline in `text` has passed at `now`.
pub fn deadline_passed_at(text: &Option<String>, now: i128) -> (b: bool)
    ensures
        b == deadline_passed(opt_view(*text), now as int),
{
    match text {
        Some(s) => match parse_dt(s.as_str()) {
            Some(e) => now >= e,
            None => false,
        },
        None => false,
    }
}

/// Whether the account is authorised (status `active`).
pub open spec fn user_active(u: User) -> bool {
    u.status@ == "active"@
}

/// Whether the account's term has ended at `now`.
pub open spec fn user_expired(u: User, now: int) -> bool {
    deadline_passed(opt_view(u.expires_at), now)
}

impl User {
    /// Whether the account has been authorised and not suspended.
    pub fn is_active(&self) -> (b: bool)
        ensures
            b == user_active(*self),
    {
        str_eq(self.status.as_str(), "active")
    }

    /// Whether the account's term has ended at `now`; an account without a term never expires.
    pub fn is_expired_at(&self, now: i128) -> (b: bool)
        ensures
            b == user_expired(*self, now as int),
    {
        deadline_passed_at(&self.expires_at, now)
    }

    /// Whether the account's term has ended now.
    pub fn is_expired(&self) -> (b: bool)
        ensures
            exists|t: i128| b == user_expired(*self, t as int),
    {
        let t = crate::time::now();
        self.is_expired_at(t)
    }
}


/// The subscription key an account keeps: its stored key when that is set and
/// not empty.
pub open spec fn kept_subscription_key(user: Option<User>) -> Option<Seq<char>> {
    match user {
        Some(u) => match u.subscription_key {
            Some(k) => if k@.len() > 0 {
                Some(k@)
            } else {
                None
            },
            None => None,
        },
        None => None,
    }
}

/// The account's fixed subscription key: the stored one when it is set (nothing
/// to save, `false`), else a fresh token that the caller stores (`true`).
pub fn ensure_subscription_key(user: Option<&User>) -> (r: (String, bool))
    ensures
        match kept_subscription_key(
            match user {
                Some(u) => Some(*u),
                None => None,
            },
        ) {
            Some(k) => r.0@ == k && !r.1,
            None => r.1 && r.0@.len() == 64 && is_lower_hex(r.0@),
        },
{
    if let Some(u) = user {
        if let Some(k) = &u.subscription_key {
            if k.as_str().unicode_len() > 0 {
                return (k.clone(), false);
            }
        }
    }
    (gen_token(), true)
}

/// Text order as SQLite compares texts: character by character, a proper
/// prefix first.
pub open spec fn text_lt(a: Seq<char>, b: Seq<char>) -> bool
    decreases a.len(),
{
    if b.len() == 0 {
        false
    } else if a.len() == 0 {
        true
    } else if a[0] != b[0] {
        a[0] < b[0]
    } else {
        text_lt(a.drop_first(), b.drop_first())
    }
}

proof fn lemma_text_lt_transitive(a: Seq<char>, b: Seq<char>, c: Seq<char>)
    requires
        text_lt(a, b),
        text_lt(b, c),
    ensures
        text_lt(a, c),
    decreases a.len(),
{
    if a.len() > 0 && a[0] == b[0] && b[0] == c[0] {
        lemma_text_lt_transitive(a.drop_first(), b.drop_first(), c.drop_first());
    }
}

proof fn lemma_text_lt_total(a: Seq<char>, b: Seq<char>)
    ensures
        text_lt(a, b) || text_lt(b, a) || a == b,
    decreases a.len(),
{
    if a.len() > 0 && b.len() > 0 && a[0] == b[0] {
        lemma_text_lt_total(a.drop_first(), b.drop_first());
        if a.drop_first() == b.drop_first() {
            assert(a =~= seq![a[0]] + a.drop_first());
            assert(b =~= seq![b[0]] + b.drop_first());
        }
    } else if a.len() == 0 && b.len() == 0 {
        assert(a =~= b);
    }
}

proof fn lemma_text_lt_irreflexive(a: Seq<char>)
    ensures
        !text_lt(a, a),
    decreases a.len(),
{
    if a.len() > 0 {
        lemma_text_lt_irreflexive(a.drop_first());
    }
}

/// Compares two texts in SQLite's text order.
pub fn text_less(a: &str, b: &str) -> (r: bool)
    ensures
        r == text_lt(a@, b@),
{
    let x = chars_of(a);
    let y = chars_of(b);
    let mut i: usize = 0;
    assert(a@.skip(0) =~= a@);
    assert(b@.skip(0) =~= b@);
    while i < x.len() && i < y.len() && x[i] == y[i]
        invariant
            x@ == a@,
            y@ == b@,
            i <= x.len(),
            i <= y.len(),
            text_lt(a@, b@) == text_lt(a@.skip(i as int), b@.skip(i as int)),
        decreases x.len() - i,
    {
        assert(a@.skip(i as int).drop_first() =~= a@.skip(i + 1));
        assert(b@.skip(i as int).drop_first() =~= b@.skip(i + 1));
        i = i + 1;
    }
    if i == y.len() {
        false
    } else if i == x.len() {
        true
    } else {
        x[i] < y[i]
    }
}

/// A device whose token can stand for its account at `now_text`: not revoked,
/// with a token, and with no token expiry or one after `now_text` in text order.
pub open spec fn token_live(d: Device, now_text: Seq<char>) -> bool {
    &&& d.revoked == 0
    &&& d.token is Some
    &&& match d.token_expires_at {
        Some(e) => text_lt(now_text, e@),
        None => true,
    }
}

/// Whether last-seen time `a` sorts no later than `b` when sorting by the
/// latest first (a device never seen sorts last).
pub open spec fn seen_no_later_in_order(a: Option<Seq<char>>, b: Option<Seq<char>>) -> bool {
    match (a, b) {
        (_, None) => true,
        (None, Some(_)) => false,
        (Some(x), Some(y)) => !text_lt(x, y),
    }
}

fn seen_after(a: &Option<String>, b: &Option<String>) -> (r: bool)
    ensures
        r == !seen_no_later_in_order(opt_view(*b), opt_view(*a)),
{
    match (a, b) {
        (Some(x), Some(y)) => text_less(y.as_str(), x.as_str()),
        (Some(_), None) => true,
        (None, _) => false,
    }
}

/// The account's most recently seen live token at `now`, among its devices
/// (`None` when no device has a live token).
pub fn latest_active_token(devices: &Vec<Device>, now: i128) -> (r: Option<String>)
    requires
        representable(now as int),
    ensures
        r is None <==> forall|i: int| 0 <= i < devices.len() ==> !token_live(#[trigger] devices@[i], time_text(now as int)),
        r matches Some(t) ==> exists|i: int|
            0 <= i < devices.len() && token_live(#[trigger] devices@[i], time_text(now as int)) && opt_view(
                devices@[i].token,
            ) == Some(t@) && forall|j: int|
                0 <= j < devices.len() && token_live(#[trigger] devices@[j], time_text(now as int))
                    ==> seen_no_later_in_order(opt_view(devices@[i].last_seen_at), opt_view(devices@[j].last_seen_at)),
{
    let now_text = rfc3339(now);
    let ghost nt = time_text(now as int);
    let mut best: Option<usize> = None;
    let mut i: usize = 0;
    while i < devices.len()
        invariant
            i <= devices.len(),
            now_text@ == nt,
            best is None <==> forall|k: int| 0 <= k < i ==> !token_live(#[trigger] devices@[k], nt),
            best matches Some(b) ==> b < i && token_live(devices@[b as int], nt) && forall|k: int|
                0 <= k < i && token_live(#[trigger] devices@[k], nt) ==> seen_no_later_in_order(
                    opt_view(devices@[b as int].last_seen_at),
                    opt_view(devices@[k].last_seen_at),
                ),
        decreases devices.len() - i,
    {
        let d = &devices[i];
        let live = d.revoked == 0 && d.token.is_some() && match &d.token_expires_at {
            Some(e) => text_less(now_text.as_str(), e.as_str()),
            None => true,
        };
        assert(live == token_live(devices@[i as int], nt));
        if live {
            match best {
                None => {
                    proof {
                        let s = opt_view(devices@[i as int].last_seen_at);
                        if let Some(x) = s {
                            lemma_text_lt_irreflexive(x);
                        }
                    }
                    best = Some(i);
                },
                Some(b) => {
                    if seen_after(&d.last_seen_at, &devices[b].last_seen_at) {
                        proof {
                            let sb = opt_view(devices@[b as int].last_seen_at);
                            let si = opt_view(devices@[i as int].last_seen_at);
                            assert forall|k: int|
                                0 <= k < i + 1 && token_live(#[trigger] devices@[k], nt) implies seen_no_later_in_order(
                                si,
                                opt_view(devices@[k].last_seen_at),
                            ) by {
                                let sk = opt_view(devices@[k].last_seen_at);
                                if k == i {
                                    if let Some(x) = si {
                                        lemma_text_lt_irreflexive(x);
                                    }
                                } else if let (Some(x), Some(y), Some(z)) = (si, sb, sk) {
                                    if text_lt(x, z) {
                                        lemma_text_lt_total(y, z);
                                        if text_lt(y, z) {
                                        } else if y == z {
                                        } else {
                                            lemma_text_lt_transitive(x, z, y);
                                            lemma_text_lt_irreflexive(x);
                                        }
                                        lemma_text_lt_transitive(y, x, z);
                                    }
                                }
                            }
                        }
                        best = Some(i);
                    } else {
                        proof {
                            let sb = opt_view(devices@[b as int].last_seen_at);
                            let si = opt_view(devices@[i as int].last_seen_at);
                            if let (Some(x), Some(y)) = (sb, si) {
                                lemma_text_lt_total(x, y);
                                lemma_text_lt_irreflexive(x);
                            }
                        }
                    }
                },
            }
        }
        i = i + 1;
    }
    match best {
        Some(b) => {
            let t = devices[b].token.clone();
            t
        },
        None => None,
    }
}


/// The number of devices that are not revoked.
pub open spec fn count_unrevoked(devices: Seq<Device>) -> nat
    decreases devices.len(),
{
    if devices.len() == 0 {
        0
    } else {
        count_unrevoked(devices.drop_last()) + if devices.last().revoked == 0 { 1nat } else { 0nat }
    }
}

/// The number of an account's devices that count against its device limit:
/// those not revoked.
pub fn count_user_devices(devices: &Vec<Device>) -> (n: usize)
    ensures
        n == count_unrevoked(devices@),
{
    let mut n: usize = 0;
    let mut i: usize = 0;
    while i < devices.len()
        invariant
            i <= devices.len(),
            n == count_unrevoked(devices@.take(i as int)),
            n <= i,
        decreases devices.len() - i,
    {
        assert(devices@.take(i + 1).drop_last() =~= devices@.take(i as int));
        if devices[i].revoked == 0 {
            n = n + 1;
        }
        i = i + 1;
    }
    assert(devices@.take(devices.len() as int) =~= devices@);
    n
}


/// A deadline written as the RFC 3339 text of instant `e` passes exactly at
/// `e`: a device token issued with that expiry is valid until then, and an
/// account authorised until `e` is usable until then.
pub proof fn law_written_deadline_passes_at_its_instant(text: Seq<char>, e: int, now: int)
    requires
        parts_to_nanos(spec_parse_rfc3339(text)) == Some(e),
    ensures
        deadline_passed(Some(text), now) == (now >= e),
{
}

} // verus!
