//! Tracking of the source IPs that are online at once under each device token.
//!
//! hysteria2 calls back on every connection; each call records the source IP
//! of the token with the time it was last seen.  An IP not seen again within
//! the time-to-live counts as gone and frees its place.  The limit is on the
//! number of distinct IPs online at the same moment, so a changing dynamic IP
//! only replaces its place.

use crate::keyed::{has_key, key_pos, keys_distinct, lemma_key_pos_unique};
use crate::text::{chars_of, find_char_from, first_from, last_of, lemma_first_from_found, lemma_last_of_found, rfind_char, str_eq, trim, trim_str};
use vstd::prelude::*;

verus! {

/// One source IP and the instant (nanoseconds on the tracker's clock) it was last seen.
pub struct IpSeen {
    ip: String,
    seen: u128,
}

/// The IPs recorded for one token.
pub struct TokenIps {
    token: String,
    ips: Vec<IpSeen>,
}

/// Whether an IP last seen at `e.1` is still online at `now` (`now - seen < ttl`,
/// where an instant after `now` counts as seen just now).
pub open spec fn is_live(e: (Seq<char>, u128), ttl: u128, now: u128) -> bool {
    (if now >= e.1 { now - e.1 } else { 0 }) < ttl
}

/// The entries of `s` that are still online, in their order.
pub open spec fn keep_live(s: Seq<(Seq<char>, u128)>, ttl: u128, now: u128) -> Seq<(Seq<char>, u128)>
    decreases s.len(),
{
    if s.len() == 0 {
        s
    } else {
        let k = keep_live(s.drop_last(), ttl, now);
        if is_live(s.last(), ttl, now) {
            k.push(s.last())
        } else {
            k
        }
    }
}

/// One call of `admit` on the IPs of one token, with `limit > 0`: expired IPs
/// are dropped; a known IP is refreshed and admitted; a new IP is recorded and
/// admitted while fewer than `limit` IPs are online, and refused otherwise.
pub open spec fn admit_ips(
    ips: Seq<(Seq<char>, u128)>,
    ip: Seq<char>,
    limit: usize,
    ttl: u128,
    now: u128,
) -> (Seq<(Seq<char>, u128)>, bool) {
    let l = keep_live(ips, ttl, now);
    if has_key(l, ip) {
        (l.update(key_pos(l, ip), (ip, now)), true)
    } else if l.len() >= limit {
        (l, false)
    } else {
        (l.push((ip, now)), true)
    }
}

/// The IPs recorded under `token` (none when the token was never seen).
pub open spec fn ips_of(v: Seq<(Seq<char>, Seq<(Seq<char>, u128)>)>, token: Seq<char>) -> Seq<
    (Seq<char>, u128),
> {
    if has_key(v, token) {
        v[key_pos(v, token)].1
    } else {
        Seq::empty()
    }
}

/// `v` with the IPs of `token` set to `ips`.
pub open spec fn set_ips(
    v: Seq<(Seq<char>, Seq<(Seq<char>, u128)>)>,
    token: Seq<char>,
    ips: Seq<(Seq<char>, u128)>,
) -> Seq<(Seq<char>, Seq<(Seq<char>, u128)>)> {
    if has_key(v, token) {
        v.update(key_pos(v, token), (token, ips))
    } else {
        v.push((token, ips))
    }
}

/// One call of `OnlineTracker::admit_ip` at instant `now`: the new contents and the verdict.
/// A zero `limit` means no limit: the call is admitted and records nothing.
pub open spec fn admit_step(
    v: Seq<(Seq<char>, Seq<(Seq<char>, u128)>)>,
    token: Seq<char>,
    ip: Seq<char>,
    limit: usize,
    ttl: u128,
    now: u128,
) -> (Seq<(Seq<char>, Seq<(Seq<char>, u128)>)>, bool) {
    if limit == 0 {
        (v, true)
    } else {
        let r = admit_ips(ips_of(v, token), ip, limit, ttl, now);
        (set_ips(v, token, r.0), r.1)
    }
}

spec fn ips_view(s: Seq<IpSeen>) -> Seq<(Seq<char>, u128)> {
    s.map_values(|e: IpSeen| (e.ip@, e.seen))
}

spec fn tokens_view(s: Seq<TokenIps>) -> Seq<(Seq<char>, Seq<(Seq<char>, u128)>)> {
    s.map_values(|t: TokenIps| (t.token@, ips_view(t.ips@)))
}

/// Tokens occur once, and so does each IP under its token.
pub open spec fn tracker_wf(v: Seq<(Seq<char>, Seq<(Seq<char>, u128)>)>) -> bool {
    &&& keys_distinct(v)
    &&& forall|i: int| 0 <= i < v.len() ==> keys_distinct(#[trigger] v[i].1)
}

/// Whether every IP of `s` was last seen no later than `t`.
pub open spec fn ips_seen_by(s: Seq<(Seq<char>, u128)>, t: u128) -> bool {
    forall|j: int| 0 <= j < s.len() ==> (#[trigger] s[j]).1 <= t
}

/// Whether every IP recorded in `v` was last seen no later than `t`.
pub open spec fn seen_by(v: Seq<(Seq<char>, Seq<(Seq<char>, u128)>)>, t: u128) -> bool {
    forall|i: int| 0 <= i < v.len() ==> ips_seen_by(#[trigger] v[i].1, t)
}

/// Online IPs per device token.  `clock` is the latest reading of the
/// tracker's clock that a call has used; no IP was seen after it.
pub struct OnlineTracker {
    origin: std::time::Instant,
    clock: u128,
    tokens: Vec<TokenIps>,
}

/// `std::time::Instant`, held to measure the tracker's clock.
#[verifier::external_type_specification]
#[verifier::external_body]
pub struct ExInstant(std::time::Instant);

impl View for OnlineTracker {
    type V = Seq<(Seq<char>, Seq<(Seq<char>, u128)>)>;

    closed spec fn view(&self) -> Self::V {
        tokens_view(self.tokens@)
    }
}

/// Reads `Instant::now()`.
#[verifier::external_body]
fn instant_now() -> std::time::Instant {
    std::time::Instant::now()
}

/// `origin.elapsed()` in nanoseconds (`Instant::elapsed`, then `Duration::as_nanos`);
/// the value depends on the clock and is not stated.
#[verifier::external_body]
fn elapsed_nanos(origin: &std::time::Instant) -> u128 {
    origin.elapsed().as_nanos()
}

proof fn lemma_keep_live_sub(s: Seq<(Seq<char>, u128)>, ttl: u128, now: u128)
    ensures
        keep_live(s, ttl, now).len() <= s.len(),
        forall|i: int|
            0 <= i < keep_live(s, ttl, now).len() ==> s.contains(#[trigger] keep_live(s, ttl, now)[i]),
        keys_distinct(s) ==> keys_distinct(keep_live(s, ttl, now)),
    decreases s.len(),
{
    if s.len() > 0 {
        let t = s.drop_last();
        lemma_keep_live_sub(t, ttl, now);
        let k = keep_live(t, ttl, now);
        assert forall|i: int| 0 <= i < keep_live(s, ttl, now).len() implies s.contains(
            #[trigger] keep_live(s, ttl, now)[i],
        ) by {
            if i < k.len() {
                let x = k[i];
                assert(t.contains(x));
                let j = choose|j: int| 0 <= j < t.len() && t[j] == x;
                assert(s[j] == x);
            } else {
                assert(s[s.len() - 1] == s.last());
            }
        }
        if keys_distinct(s) && is_live(s.last(), ttl, now) {
            assert forall|i: int, j: int|
                0 <= i < j < k.push(s.last()).len() implies k.push(s.last())[i].0 != k.push(
                s.last(),
            )[j].0 by {
                if j == k.len() {
                    let x = k[i];
                    assert(t.contains(x));
                    let m = choose|m: int| 0 <= m < t.len() && t[m] == x;
                    assert(s[m] == x);
                    assert(s[s.len() - 1] == s.last());
                }
            }
        }
    }
}

/// Copies the entries of `ips` that are still online.
fn live_entries(ips: &Vec<IpSeen>, ttl: u128, now: u128) -> (r: Vec<IpSeen>)
    ensures
        ips_view(r@) == keep_live(ips_view(ips@), ttl, now),
{
    let mut r: Vec<IpSeen> = Vec::new();
    let mut i: usize = 0;
    while i < ips.len()
        invariant
            i <= ips.len(),
            ips_view(r@) == keep_live(ips_view(ips@).take(i as int), ttl, now),
        decreases ips.len() - i,
    {
        let e = &ips[i];
        let age = if now >= e.seen { now - e.seen } else { 0 };
        let ghost before = r@;
        assert(ips_view(ips@).take(i + 1).drop_last() =~= ips_view(ips@).take(i as int));
        assert(ips_view(ips@).take(i + 1).last() == (e.ip@, e.seen));
        if age < ttl {
            r.push(IpSeen { ip: e.ip.clone(), seen: e.seen });
            assert(ips_view(r@) =~= ips_view(before).push((e.ip@, e.seen)));
        }
        i = i + 1;
    }
    assert(ips_view(ips@).take(ips.len() as int) =~= ips_view(ips@));
    r
}

/// The position of `key` among the IPs of `ips`.
fn find_ip(ips: &Vec<IpSeen>, key: &str) -> (r: Option<usize>)
    ensures
        match r {
            Some(i) => i < ips.len() && ips_view(ips@)[i as int].0 == key@,
            None => !has_key(ips_view(ips@), key@),
        },
{
    let mut i: usize = 0;
    while i < ips.len()
        invariant
            i <= ips.len(),
            forall|k: int| 0 <= k < i ==> ips_view(ips@)[k].0 != key@,
        decreases ips.len() - i,
    {
        if str_eq(ips[i].ip.as_str(), key) {
            return Some(i);
        }
        i = i + 1;
    }
    None
}

/// The position of `key` among the tokens of `tokens`.
fn find_token(tokens: &Vec<TokenIps>, key: &str) -> (r: Option<usize>)
    ensures
        match r {
            Some(i) => i < tokens.len() && tokens_view(tokens@)[i as int].0 == key@,
            None => !has_key(tokens_view(tokens@), key@),
        },
{
    let mut i: usize = 0;
    while i < tokens.len()
        invariant
            i <= tokens.len(),
            forall|k: int| 0 <= k < i ==> tokens_view(tokens@)[k].0 != key@,
        decreases tokens.len() - i,
    {
        if str_eq(tokens[i].token.as_str(), key) {
            return Some(i);
        }
        i = i + 1;
    }
    None
}

impl OnlineTracker {
    #[verifier::type_invariant]
    spec fn inv(self) -> bool {
        &&& tracker_wf(tokens_view(self.tokens@))
        &&& seen_by(tokens_view(self.tokens@), self.clock)
    }

    /// An empty tracker whose clock starts now.
    pub fn new() -> (t: Self)
        ensures
            t@ == Seq::<(Seq<char>, Seq<(Seq<char>, u128)>)>::empty(),
    {
        let t = OnlineTracker { origin: instant_now(), clock: 0, tokens: Vec::new() };
        assert(t@ =~= Seq::<(Seq<char>, Seq<(Seq<char>, u128)>)>::empty());
        t
    }

    /// Decides whether `ip` may connect with `token` at instant `now` (nanoseconds
    /// on the tracker's clock), for IPs that stay online `ttl` nanoseconds after
    /// they were last seen.  A zero `limit` means no limit.
    pub fn admit_at(&mut self, token: &str, ip: &str, limit: usize, ttl: u128, now: u128) -> (ok: bool)
        ensures
            (final(self)@, ok) == admit_step(old(self)@, token@, ip@, limit, ttl, now),
            tracker_wf(final(self)@),
    {
        proof {
            use_type_invariant(&*self);
        }
        if limit == 0 {
            return true;
        }
        let mut tokens: Vec<TokenIps> = Vec::new();
        std::mem::swap(&mut tokens, &mut self.tokens);
        let ghost v = tokens_view(tokens@);
        assert(v == old(self)@);
        let ti = match find_token(&tokens, token) {
            Some(i) => {
                proof {
                    lemma_key_pos_unique(v, token@, i as int);
                }
                i
            },
            None => {
                let fresh = TokenIps { token: token.to_string(), ips: Vec::new() };
                assert(fresh.token@ == token@);
                assert(ips_view(fresh.ips@) =~= Seq::<(Seq<char>, u128)>::empty());
                tokens.push(fresh);
                assert(tokens_view(tokens@) =~= v.push((token@, Seq::empty())));
                tokens.len() - 1
            },
        };
        let ghost before = ips_of(v, token@);
        assert(ips_view(tokens@[ti as int].ips@) == before);
        let mut live = live_entries(&tokens[ti].ips, ttl, now);
        proof {
            lemma_keep_live_sub(before, ttl, now);
        }
        let ghost l = keep_live(before, ttl, now);
        let ok = match find_ip(&live, ip) {
            Some(k) => {
                proof {
                    lemma_key_pos_unique(l, ip@, k as int);
                }
                let fresh = IpSeen { ip: live[k].ip.clone(), seen: now };
                live.set(k, fresh);
                assert(ips_view(live@) =~= l.update(k as int, (ip@, now)));
                true
            },
            None => {
                if live.len() >= limit {
                    false
                } else {
                    live.push(IpSeen { ip: ip.to_string(), seen: now });
                    assert(ips_view(live@) =~= l.push((ip@, now)));
                    true
                }
            },
        };
        let ghost r = admit_ips(before, ip@, limit, ttl, now);
        assert(ips_view(live@) == r.0 && ok == r.1);
        let entry = TokenIps { token: token.to_string(), ips: live };
        let ghost pre = tokens_view(tokens@);
        tokens.set(ti, entry);
        assert(tokens_view(tokens@) =~= pre.update(ti as int, (token@, r.0)));
        proof {
            lemma_set_ips_wf(v, token@, r.0);
            if has_key(v, token@) {
                assert(tokens_view(tokens@) =~= set_ips(v, token@, r.0));
            } else {
                assert(pre =~= v.push((token@, Seq::empty())));
                assert(tokens_view(tokens@) =~= set_ips(v, token@, r.0));
            }
            lemma_admit_ips_distinct(before, ip@, limit, ttl, now);
            lemma_set_ips_wf(v, token@, r.0);
            lemma_admit_seen_by(v, token@, ip@, limit, ttl, now, old(self).clock);
        }
        let c = if now > self.clock { now } else { self.clock };
        self.clock = c;
        self.tokens = tokens;
        ok
    }

    /// Decides whether `ip` may connect with `token`, at the tracker's current
    /// clock reading, for IPs that stay online `ttl_nanos` nanoseconds after they
    /// were last seen.  A zero `limit` means no limit.  The reading used is not
    /// earlier than any time recorded before (`Instant` is monotonic).
    pub fn admit_ip(&mut self, token: &str, ip: &str, limit: usize, ttl_nanos: u128) -> (ok: bool)
        ensures
            exists|now: u128|
                #[trigger] clock_step(old(self)@, final(self)@, ok, token@, ip@, limit, ttl_nanos, now),
    {
        proof {
            use_type_invariant(&*self);
        }
        let e = elapsed_nanos(&self.origin);
        let now = if e > self.clock { e } else { self.clock };
        proof {
            lemma_seen_by_later(self@, self.clock, now);
        }
        let ghost before = self@;
        let ok = self.admit_at(token, ip, limit, ttl_nanos, now);
        assert(clock_step(before, self@, ok, token@, ip@, limit, ttl_nanos, now));
        ok
    }
}

/// One admission decided at clock reading `now`, where no recorded IP was seen after `now`.
pub open spec fn clock_step(
    before: Seq<(Seq<char>, Seq<(Seq<char>, u128)>)>,
    after: Seq<(Seq<char>, Seq<(Seq<char>, u128)>)>,
    ok: bool,
    token: Seq<char>,
    ip: Seq<char>,
    limit: usize,
    ttl: u128,
    now: u128,
) -> bool {
    &&& seen_by(before, now)
    &&& (after, ok) == admit_step(before, token, ip, limit, ttl, now)
}

proof fn lemma_seen_by_later(v: Seq<(Seq<char>, Seq<(Seq<char>, u128)>)>, t: u128, u: u128)
    requires
        seen_by(v, t),
        t <= u,
    ensures
        seen_by(v, u),
{
    assert forall|i: int| 0 <= i < v.len() implies ips_seen_by(#[trigger] v[i].1, u) by {
        assert(ips_seen_by(v[i].1, t));
    }
}

proof fn lemma_admit_seen_by(
    v: Seq<(Seq<char>, Seq<(Seq<char>, u128)>)>,
    token: Seq<char>,
    ip: Seq<char>,
    limit: usize,
    ttl: u128,
    now: u128,
    c: u128,
)
    requires
        tracker_wf(v),
        seen_by(v, c),
    ensures
        seen_by(admit_step(v, token, ip, limit, ttl, now).0, if now > c { now } else { c }),
{
    let m: u128 = if now > c { now } else { c };
    lemma_seen_by_later(v, c, m);
    if limit > 0 {
        let before = ips_of(v, token);
        if has_key(v, token) {
            assert(v[key_pos(v, token)].1 == before);
            assert(ips_seen_by(v[key_pos(v, token)].1, m));
        }
        assert(ips_seen_by(before, m));
        lemma_keep_live_sub(before, ttl, now);
        let l = keep_live(before, ttl, now);
        assert forall|j: int| 0 <= j < l.len() implies (#[trigger] l[j]).1 <= m by {
            assert(before.contains(l[j]));
            let k = choose|k: int| 0 <= k < before.len() && before[k] == l[j];
            assert(before[k].1 <= m);
        }
        let r = admit_ips(before, ip, limit, ttl, now);
        assert forall|j: int| 0 <= j < r.0.len() implies (#[trigger] r.0[j]).1 <= m by {
            if has_key(l, ip) {
                if j != key_pos(l, ip) {
                    assert(r.0[j] == l[j]);
                }
            } else if j < l.len() {
                assert(r.0[j] == l[j]);
            }
        }
        let w = set_ips(v, token, r.0);
        assert forall|i: int| 0 <= i < w.len() implies ips_seen_by(#[trigger] w[i].1, m) by {
            if has_key(v, token) {
                if i != key_pos(v, token) {
                    assert(w[i] == v[i]);
                }
            } else if i < v.len() {
                assert(w[i] == v[i]);
            }
        }
    }
}

proof fn lemma_admit_ips_distinct(
    ips: Seq<(Seq<char>, u128)>,
    ip: Seq<char>,
    limit: usize,
    ttl: u128,
    now: u128,
)
    requires
        keys_distinct(ips),
    ensures
        keys_distinct(admit_ips(ips, ip, limit, ttl, now).0),
{
    lemma_keep_live_sub(ips, ttl, now);
    let l = keep_live(ips, ttl, now);
    if has_key(l, ip) {
        let p = key_pos(l, ip);
        assert(l.update(p, (ip, now))[p].0 == l[p].0);
    } else if l.len() < limit {
        assert forall|i: int, j: int| 0 <= i < j < l.push((ip, now)).len() implies l.push(
            (ip, now),
        )[i].0 != l.push((ip, now))[j].0 by {
            if j == l.len() {
                assert(l[i].0 != ip);
            }
        }
    }
}

proof fn lemma_set_ips_wf(
    v: Seq<(Seq<char>, Seq<(Seq<char>, u128)>)>,
    token: Seq<char>,
    ips: Seq<(Seq<char>, u128)>,
)
    requires
        tracker_wf(v),
        keys_distinct(ips),
    ensures
        tracker_wf(set_ips(v, token, ips)),
        ips_of(set_ips(v, token, ips), token) == ips,
        forall|t: Seq<char>| t != token ==> ips_of(set_ips(v, token, ips), t) == ips_of(v, t),
{
    let w = set_ips(v, token, ips);
    if has_key(v, token) {
        let p = key_pos(v, token);
        assert forall|i: int, j: int| 0 <= i < j < w.len() implies w[i].0 != w[j].0 by {
            assert(v[i].0 != v[j].0);
        }
        lemma_key_pos_unique(w, token, p);
        assert forall|t: Seq<char>| t != token implies ips_of(w, t) == ips_of(v, t) by {
            if has_key(v, t) {
                let q = key_pos(v, t);
                lemma_key_pos_unique(w, t, q);
            } else {
                if has_key(w, t) {
                    let q = key_pos(w, t);
                    assert(v[q].0 == t);
                }
            }
        }
    } else {
        assert forall|i: int, j: int| 0 <= i < j < w.len() implies w[i].0 != w[j].0 by {
            if j == v.len() {
                assert(v[i].0 != token);
            }
        }
        lemma_key_pos_unique(w, token, v.len() as int);
        assert forall|t: Seq<char>| t != token implies ips_of(w, t) == ips_of(v, t) by {
            if has_key(v, t) {
                let q = key_pos(v, t);
                lemma_key_pos_unique(w, t, q);
            } else {
                if has_key(w, t) {
                    let q = key_pos(w, t);
                    assert(q < v.len());
                    assert(v[q].0 == t);
                }
            }
        }
    }
}


/// The IPs of `token` that are online at `now`.
pub open spec fn online_ips(
    v: Seq<(Seq<char>, Seq<(Seq<char>, u128)>)>,
    token: Seq<char>,
    ttl: u128,
    now: u128,
) -> Seq<(Seq<char>, u128)> {
    keep_live(ips_of(v, token), ttl, now)
}

/// A zero limit admits every connection and records nothing.
pub proof fn law_admit_unlimited(
    v: Seq<(Seq<char>, Seq<(Seq<char>, u128)>)>,
    token: Seq<char>,
    ip: Seq<char>,
    ttl: u128,
    now: u128,
)
    ensures
        admit_step(v, token, ip, 0, ttl, now) == (v, true),
{
}

/// With a limit, a connection is admitted exactly when its IP is already online
/// under the token or fewer than `limit` IPs are online under it.
pub proof fn law_admit_verdict(
    v: Seq<(Seq<char>, Seq<(Seq<char>, u128)>)>,
    token: Seq<char>,
    ip: Seq<char>,
    limit: usize,
    ttl: u128,
    now: u128,
)
    requires
        limit > 0,
    ensures
        admit_step(v, token, ip, limit, ttl, now).1 == (has_key(online_ips(v, token, ttl, now), ip)
            || online_ips(v, token, ttl, now).len() < limit),
{
}

/// An admitted IP is recorded under its token as seen at `now` (and, with a
/// positive time-to-live, counts as online); afterwards the token holds only
/// IPs that were online, and `ip` when it was admitted.
pub proof fn law_admit_records_ip(
    v: Seq<(Seq<char>, Seq<(Seq<char>, u128)>)>,
    token: Seq<char>,
    ip: Seq<char>,
    limit: usize,
    ttl: u128,
    now: u128,
)
    requires
        tracker_wf(v),
        limit > 0,
    ensures
        ({
            let (w, ok) = admit_step(v, token, ip, limit, ttl, now);
            &&& tracker_wf(w)
            &&& ok ==> has_key(ips_of(w, token), ip) && ips_of(w, token)[key_pos(ips_of(w, token), ip)]
                == (ip, now)
            &&& ttl > 0 && ok ==> has_key(online_ips(w, token, ttl, now), ip)
            &&& forall|e: (Seq<char>, u128)| #[trigger] ips_of(w, token).contains(e) ==> e == (ip, now)
                || online_ips(v, token, ttl, now).contains(e)
        }),
{
    let before = ips_of(v, token);
    let key = key_pos(v, token);
    if has_key(v, token) {
        assert(v[key].1 == before);
    }
    assert(keys_distinct(before));
    lemma_keep_live_sub(before, ttl, now);
    lemma_admit_ips_distinct(before, ip, limit, ttl, now);
    let r = admit_ips(before, ip, limit, ttl, now);
    lemma_set_ips_wf(v, token, r.0);
    let l = keep_live(before, ttl, now);
    if r.1 {
        let w = ips_of(set_ips(v, token, r.0), token);
        assert(w == r.0);
        if has_key(l, ip) {
            let p = key_pos(l, ip);
            assert(w[p] == (ip, now));
            lemma_key_pos_unique(w, ip, p);
        } else {
            assert(w[l.len() as int] == (ip, now));
            lemma_key_pos_unique(w, ip, l.len() as int);
        }
        let k = key_pos(w, ip);
        if ttl > 0 {
            lemma_keep_live_of_fresh(w, ttl, now, k);
        }
    }
    assert forall|e: (Seq<char>, u128)| #[trigger] r.0.contains(e) implies e == (ip, now)
        || l.contains(e) by {
        let j = choose|j: int| 0 <= j < r.0.len() && r.0[j] == e;
        if has_key(l, ip) {
            if j != key_pos(l, ip) {
                assert(l[j] == e);
            }
        } else if j < l.len() {
            assert(l[j] == e);
        }
    }
}

/// Whatever `ips` holds, an entry seen at `now` is online at `now` (for `ttl > 0`)
/// and stays among the online IPs.
proof fn lemma_keep_live_of_fresh(ips: Seq<(Seq<char>, u128)>, ttl: u128, now: u128, k: int)
    requires
        0 <= k < ips.len(),
        ips[k].1 == now,
        ttl > 0,
    ensures
        has_key(keep_live(ips, ttl, now), ips[k].0),
    decreases ips.len(),
{
    let t = ips.drop_last();
    if k == ips.len() - 1 {
        let l = keep_live(ips, ttl, now);
        assert(l.last() == ips.last());
        assert(l[l.len() - 1].0 == ips[k].0);
    } else {
        assert(t[k] == ips[k]);
        lemma_keep_live_of_fresh(t, ttl, now, k);
        let lt = keep_live(t, ttl, now);
        let j = choose|j: int| 0 <= j < lt.len() && lt[j].0 == ips[k].0;
        let l = keep_live(ips, ttl, now);
        assert(l[j] == lt[j]);
    }
}

/// Admitting a connection for one token leaves the IPs of every other token as they were.
pub proof fn law_admit_isolates_tokens(
    v: Seq<(Seq<char>, Seq<(Seq<char>, u128)>)>,
    token: Seq<char>,
    other: Seq<char>,
    ip: Seq<char>,
    limit: usize,
    ttl: u128,
    now: u128,
)
    requires
        tracker_wf(v),
        other != token,
    ensures
        ips_of(admit_step(v, token, ip, limit, ttl, now).0, other) == ips_of(v, other),
{
    if limit > 0 {
        let before = ips_of(v, token);
        if has_key(v, token) {
            assert(v[key_pos(v, token)].1 == before);
        }
        lemma_admit_ips_distinct(before, ip, limit, ttl, now);
        let r = admit_ips(before, ip, limit, ttl, now);
        lemma_set_ips_wf(v, token, r.0);
    }
}

proof fn lemma_keep_live_idem(s: Seq<(Seq<char>, u128)>, ttl: u128, now: u128)
    ensures
        keep_live(keep_live(s, ttl, now), ttl, now) == keep_live(s, ttl, now),
    decreases s.len(),
{
    if s.len() > 0 {
        let k = keep_live(s.drop_last(), ttl, now);
        lemma_keep_live_idem(s.drop_last(), ttl, now);
        if is_live(s.last(), ttl, now) {
            assert(k.push(s.last()).drop_last() =~= k);
        }
    }
}

/// A refused connection records nothing: the token keeps exactly the IPs that
/// were online, so the IPs online under it stay as they were.
pub proof fn law_admit_refusal_keeps_online_set(
    v: Seq<(Seq<char>, Seq<(Seq<char>, u128)>)>,
    token: Seq<char>,
    ip: Seq<char>,
    limit: usize,
    ttl: u128,
    now: u128,
)
    requires
        tracker_wf(v),
        !admit_step(v, token, ip, limit, ttl, now).1,
    ensures
        ips_of(admit_step(v, token, ip, limit, ttl, now).0, token) == online_ips(v, token, ttl, now),
        online_ips(admit_step(v, token, ip, limit, ttl, now).0, token, ttl, now) == online_ips(
            v,
            token,
            ttl,
            now,
        ),
        online_ips(v, token, ttl, now).len() >= limit,
{
    let before = ips_of(v, token);
    if has_key(v, token) {
        assert(v[key_pos(v, token)].1 == before);
    }
    lemma_admit_ips_distinct(before, ip, limit, ttl, now);
    let r = admit_ips(before, ip, limit, ttl, now);
    lemma_set_ips_wf(v, token, r.0);
    lemma_keep_live_idem(before, ttl, now);
}

/// While at most `limit` IPs are online under a token, a call with that limit
/// leaves at most `limit` IPs recorded under it.
pub proof fn law_admit_within_limit(
    v: Seq<(Seq<char>, Seq<(Seq<char>, u128)>)>,
    token: Seq<char>,
    ip: Seq<char>,
    limit: usize,
    ttl: u128,
    now: u128,
)
    requires
        tracker_wf(v),
        limit > 0,
        online_ips(v, token, ttl, now).len() <= limit,
    ensures
        ips_of(admit_step(v, token, ip, limit, ttl, now).0, token).len() <= limit,
{
    let before = ips_of(v, token);
    if has_key(v, token) {
        assert(v[key_pos(v, token)].1 == before);
    }
    lemma_admit_ips_distinct(before, ip, limit, ttl, now);
    let r = admit_ips(before, ip, limit, ttl, now);
    lemma_set_ips_wf(v, token, r.0);
}


/// The bare IP of a hysteria callback address such as `1.2.3.4:5678`,
/// `[::1]:5678` or a bare `2001:db8::1`: after trimming, a bracketed host is
/// taken up to its `]`; otherwise the part before the last `:` when that part
/// holds no `:`; otherwise the whole text.
pub open spec fn spec_client_ip(addr: Seq<char>) -> Seq<char> {
    let a = trim(addr);
    if a.len() > 0 && a[0] == '[' && first_from(a, 1, ']') is Some {
        a.subrange(1, first_from(a, 1, ']')->0)
    } else if last_of(a, ':') is Some && last_of(a.subrange(0, last_of(a, ':')->0), ':') is None {
        a.subrange(0, last_of(a, ':')->0)
    } else {
        a
    }
}

/// Extracts the bare IP from a hysteria callback address.
pub fn client_ip(addr: &str) -> (r: &str)
    ensures
        r@ == spec_client_ip(addr@),
{
    let a = trim_str(addr);
    let cs = chars_of(a);
    let n = cs.len();
    if n > 0 && cs[0] == '[' {
        if let Some(end) = find_char_from(cs.as_slice(), 1, ']') {
            return a.substring_char(1, end);
        }
    }
    match rfind_char(cs.as_slice(), ':') {
        Some(k) => {
            let host = a.substring_char(0, k);
            let hs = chars_of(host);
            match rfind_char(hs.as_slice(), ':') {
                None => host,
                Some(_) => a,
            }
        },
        None => a,
    }
}


/// The IP taken from a callback address is a part of the trimmed address: the
/// text between a leading `[` and the first `]` after it; else, when the
/// address holds exactly one `:`, the part before it; else the whole trimmed address.
pub proof fn law_client_ip_is_part_of_address(addr: Seq<char>)
    ensures
        exists|i: int, j: int|
            0 <= i <= j <= trim(addr).len() && spec_client_ip(addr) == #[trigger] trim(addr).subrange(i, j),
{
    let a = trim(addr);
    lemma_first_from_found(a, 1, ']');
    lemma_last_of_found(a, ':');
    if a.len() > 0 && a[0] == '[' && first_from(a, 1, ']') is Some {
        let e = first_from(a, 1, ']')->0;
        assert(spec_client_ip(addr) == a.subrange(1, e));
    } else if last_of(a, ':') is Some && last_of(a.subrange(0, last_of(a, ':')->0), ':') is None {
        let e = last_of(a, ':')->0;
        assert(spec_client_ip(addr) == a.subrange(0, e));
    } else {
        assert(a.subrange(0, a.len() as int) =~= a);
        assert(spec_client_ip(addr) == a.subrange(0, a.len() as int));
    }
}


/// Whether `c` occurs in `s` exactly once, at position `i`.
pub open spec fn only_at(s: Seq<char>, c: char, i: int) -> bool {
    &&& 0 <= i < s.len()
    &&& s[i] == c
    &&& forall|k: int| 0 <= k < s.len() && k != i ==> s[k] != c
}

proof fn lemma_client_ip_one_colon(addr: Seq<char>, i: int)
    requires
        !(trim(addr).len() > 0 && trim(addr)[0] == '[' && first_from(trim(addr), 1, ']') is Some),
        only_at(trim(addr), ':', i),
    ensures
        spec_client_ip(addr) == trim(addr).subrange(0, i),
{
    let a = trim(addr);
    lemma_last_of_found(a, ':');
    assert(last_of(a, ':') is Some);
    let m = last_of(a, ':')->0;
    assert(m == i);
    let pre = a.subrange(0, i);
    assert forall|k: int| 0 <= k < pre.len() implies pre[k] != ':' by {
        assert(pre[k] == a[k]);
    }
    assert(last_of(pre, ':') is None);
}

proof fn lemma_client_ip_not_one_colon(addr: Seq<char>)
    requires
        !(trim(addr).len() > 0 && trim(addr)[0] == '[' && first_from(trim(addr), 1, ']') is Some),
        forall|i: int| !only_at(trim(addr), ':', i),
    ensures
        spec_client_ip(addr) == trim(addr),
{
    let a = trim(addr);
    lemma_last_of_found(a, ':');
    if last_of(a, ':') is Some {
        let m = last_of(a, ':')->0;
        assert(!only_at(a, ':', m));
        let k = choose|k: int| 0 <= k < a.len() && k != m && a[k] == ':';
        assert(k < m);
        let pre = a.subrange(0, m);
        assert(pre[k] == ':');
        assert(last_of(pre, ':') is Some);
    }
}

/// The address cases in words, on the trimmed address `a`: when `a` starts with
/// `[` and has a `]` after it, the IP is the text between the `[` and the first
/// `]`; otherwise, when `a` holds exactly one `:`, the part before it; otherwise
/// the whole of `a` (a bare IPv6 address, or no port).
pub proof fn law_client_ip_cases(addr: Seq<char>)
    ensures
        ({
            let a = trim(addr);
            let bracket = a.len() > 0 && a[0] == '[' && exists|j: int| 1 <= j < a.len() && #[trigger] a[j] == ']';
            &&& bracket ==> exists|j: int|
                1 <= j < a.len() && #[trigger] a[j] == ']' && (forall|k: int| 1 <= k < j ==> a[k] != ']')
                    && spec_client_ip(addr) == a.subrange(1, j)
            &&& !bracket ==> forall|i: int| #[trigger] only_at(a, ':', i) ==> spec_client_ip(addr) == a.subrange(0, i)
            &&& !bracket && !(exists|i: int| #[trigger] only_at(a, ':', i)) ==> spec_client_ip(addr) == a
        }),
{
    let a = trim(addr);
    lemma_first_from_found(a, 1, ']');
    let bracket = a.len() > 0 && a[0] == '[' && exists|j: int| 1 <= j < a.len() && #[trigger] a[j] == ']';
    if bracket {
        let j = first_from(a, 1, ']')->0;
        assert(1 <= j < a.len() && a[j] == ']' && (forall|k: int| 1 <= k < j ==> a[k] != ']'));
    } else {
        assert forall|i: int| #[trigger] only_at(a, ':', i) implies spec_client_ip(addr) == a.subrange(0, i) by {
            lemma_client_ip_one_colon(addr, i);
        }
        if !(exists|i: int| #[trigger] only_at(a, ':', i)) {
            lemma_client_ip_not_one_colon(addr);
        }
    }
}

} // verus!
