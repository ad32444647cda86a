//! Password hashing, device tokens and the administrator's session store.

use crate::models::opt_view;
use crate::keyed::{has_key, key_pos, keys_distinct, lemma_key_pos_unique};
use crate::text::{push_str, str_eq, string_from_chars};
use crate::time::{add_days, can_add_days, now, plus_days, representable};
use argon2::password_hash::{PasswordHasher, PasswordVerifier};
use rand::RngCore;
use vstd::prelude::*;

verus! {

/// Whether `password` matches the PHC string `phc`: `PasswordHash::new(phc)`
/// followed by `Argon2::default().verify_password`.
pub uninterp spec fn spec_password_matches(password: Seq<char>, phc: Seq<char>) -> bool;

/// `password_hash::Error`, the error of hashing.
#[verifier::external_type_specification]
#[verifier::external_body]
pub struct ExPasswordHashError(argon2::password_hash::Error);

/// The error returned when hashing fails.
pub struct HashError {
    pub message: String,
}

/// Hashes `password` with Argon2 (default parameters) and a fresh salt from the
/// OS generator (`SaltString::generate`, `PasswordHasher::hash_password`,
/// `to_string`).  The salt is random, so the text is not stated; a hash that is
/// produced verifies against the same password.  With the default parameters
/// and a generated salt, hashing fails only for a password of more than
/// `MAX_PWD_LEN` (0xFFFF_FFFF) bytes.
#[verifier::external_body]
fn argon2_hash(password: &str) -> (r: Result<String, argon2::password_hash::Error>)
    ensures
        r matches Ok(h) ==> spec_password_matches(password@, h@),
        vstd::utf8::encode_utf8(password@).len() <= 0xFFFF_FFFF ==> r is Ok,
{
    let salt = argon2::password_hash::SaltString::generate(&mut argon2::password_hash::rand_core::OsRng);
    argon2::Argon2::default().hash_password(password.as_bytes(), &salt).map(|h| h.to_string())
}

/// The `Display` text of a hashing error.
#[verifier::external_body]
fn hash_error_text(e: &argon2::password_hash::Error) -> String {
    format!("{e}")
}

/// Parses `phc` (`PasswordHash::new`) and checks `password` against it
/// (`Argon2::default().verify_password`); a text that does not parse is no
/// match.  `PasswordHash::new` refuses an empty text and one whose first `$`
/// field is not empty.
#[verifier::external_body]
fn argon2_verify(password: &str, phc: &str) -> (r: bool)
    ensures
        r == spec_password_matches(password@, phc@),
        !(phc@.len() > 0 && phc@[0] == '$') ==> !r,
{
    match argon2::password_hash::PasswordHash::new(phc) {
        Ok(parsed) => argon2::Argon2::default().verify_password(password.as_bytes(), &parsed).is_ok(),
        Err(_) => false,
    }
}

/// Hashes a password with Argon2; succeeds for every password of at most
/// 0xFFFF_FFFF bytes.
pub fn hash_password(password: &str) -> (r: Result<String, HashError>)
    ensures
        r matches Ok(h) ==> spec_password_matches(password@, h@),
        vstd::utf8::encode_utf8(password@).len() <= 0xFFFF_FFFF ==> r is Ok,
{
    match argon2_hash(password) {
        Ok(h) => Ok(h),
        Err(e) => {
            let mut m: Vec<char> = Vec::new();
            push_str(&mut m, "hash 失败: ");
            let t = hash_error_text(&e);
            push_str(&mut m, t.as_str());
            Err(HashError { message: string_from_chars(m.as_slice()) })
        },
    }
}

/// Checks a password against its stored hash; a stored text that is empty or
/// does not begin with `$` never matches.
pub fn verify_password(password: &str, hash: &str) -> (r: bool)
    ensures
        r == spec_password_matches(password@, hash@),
        !(hash@.len() > 0 && hash@[0] == '$') ==> !r,
{
    argon2_verify(password, hash)
}

/// A lowercase hexadecimal digit.
pub open spec fn hex_digit(d: int) -> char {
    if d < 10 {
        (d + '0' as int) as char
    } else {
        (d - 10 + 'a' as int) as char
    }
}

/// `hex::encode`: two lowercase hexadecimal digits per byte, high nibble first.
pub open spec fn spec_hex(bytes: Seq<u8>) -> Seq<char>
    decreases bytes.len(),
{
    if bytes.len() == 0 {
        Seq::empty()
    } else {
        spec_hex(bytes.drop_last()) + seq![
            hex_digit(bytes.last() as int / 16),
            hex_digit(bytes.last() as int % 16),
        ]
    }
}

/// Whether every character is a lowercase hexadecimal digit.
pub open spec fn is_lower_hex(s: Seq<char>) -> bool {
    forall|i: int| 0 <= i < s.len() ==> ('0' <= #[trigger] s[i] <= '9' || 'a' <= s[i] <= 'f')
}

/// Calls `hex::encode`, which writes each byte as two lowercase hex digits.
#[verifier::external_body]
fn hex_encode(bytes: &[u8]) -> (r: String)
    ensures
        r@ == spec_hex(bytes@),
{
    hex::encode(bytes)
}

/// Fills 32 bytes from `rand::thread_rng()` (`RngCore::fill_bytes`); the bytes are random.
#[verifier::external_body]
fn random_bytes_32() -> (r: Vec<u8>)
    ensures
        r@.len() == 32,
{
    let mut bytes = [0u8; 32];
    rand::thread_rng().fill_bytes(&mut bytes);
    bytes.to_vec()
}

proof fn lemma_hex_shape(bytes: Seq<u8>)
    ensures
        spec_hex(bytes).len() == 2 * bytes.len(),
        is_lower_hex(spec_hex(bytes)),
    decreases bytes.len(),
{
    if bytes.len() > 0 {
        lemma_hex_shape(bytes.drop_last());
        let b = bytes.last() as int;
        assert(0 <= b / 16 < 16 && 0 <= b % 16 < 16);
        let s = spec_hex(bytes);
        let t = spec_hex(bytes.drop_last());
        assert forall|i: int| 0 <= i < s.len() implies ('0' <= #[trigger] s[i] <= '9' || 'a' <= s[i]
            <= 'f') by {
            if i < t.len() {
                assert(s[i] == t[i]);
            }
        }
    }
}

/// A fresh device token: 32 random bytes in lowercase hex (64 characters).
pub fn gen_token() -> (t: String)
    ensures
        t@.len() == 64,
        is_lower_hex(t@),
{
    let bytes = random_bytes_32();
    let t = hex_encode(bytes.as_slice());
    proof {
        lemma_hex_shape(bytes@);
    }
    t
}

/// How long an administrator session lasts, in days.
pub const SESSION_DAYS: i64 = 7;

/// The expiry recorded under `sid` (`None` when there is no such session).
pub open spec fn session_expiry(v: Seq<(Seq<char>, i128)>, sid: Seq<char>) -> Option<int> {
    if has_key(v, sid) {
        Some(v[key_pos(v, sid)].1 as int)
    } else {
        None
    }
}

/// Whether session `sid` is valid at instant `now`: it exists and expires after `now`.
pub open spec fn session_valid(v: Seq<(Seq<char>, i128)>, sid: Seq<char>, now: i128) -> bool {
    session_expiry(v, sid) matches Some(e) && e > now
}

/// The sessions after `sid` is recorded as expiring at `exp` (replacing any
/// earlier expiry of the same id).
pub open spec fn sessions_with(v: Seq<(Seq<char>, i128)>, sid: Seq<char>, exp: i128) -> Seq<
    (Seq<char>, i128),
> {
    if has_key(v, sid) {
        v.update(key_pos(v, sid), (sid, exp))
    } else {
        v.push((sid, exp))
    }
}

/// The sessions after `sid` is dropped.
pub open spec fn sessions_without(v: Seq<(Seq<char>, i128)>, sid: Seq<char>) -> Seq<
    (Seq<char>, i128),
> {
    if has_key(v, sid) {
        v.remove(key_pos(v, sid))
    } else {
        v
    }
}

/// Administrator sessions: session id and expiry instant.
pub struct SessionStore {
    entries: Vec<(String, i128)>,
}

spec fn entries_view(s: Seq<(String, i128)>) -> Seq<(Seq<char>, i128)> {
    s.map_values(|e: (String, i128)| (e.0@, e.1))
}

impl View for SessionStore {
    type V = Seq<(Seq<char>, i128)>;

    closed spec fn view(&self) -> Self::V {
        entries_view(self.entries@)
    }
}

fn find_session(entries: &Vec<(String, i128)>, sid: &str) -> (r: Option<usize>)
    ensures
        match r {
            Some(i) => i < entries.len() && entries_view(entries@)[i as int].0 == sid@,
            None => !has_key(entries_view(entries@), sid@),
        },
{
    let mut i: usize = 0;
    while i < entries.len()
        invariant
            i <= entries.len(),
            forall|k: int| 0 <= k < i ==> entries_view(entries@)[k].0 != sid@,
        decreases entries.len() - i,
    {
        if str_eq(entries[i].0.as_str(), sid) {
            return Some(i);
        }
        i = i + 1;
    }
    None
}

proof fn lemma_sessions_with(v: Seq<(Seq<char>, i128)>, sid: Seq<char>, exp: i128)
    requires
        keys_distinct(v),
    ensures
        keys_distinct(sessions_with(v, sid, exp)),
        session_expiry(sessions_with(v, sid, exp), sid) == Some(exp as int),
        forall|t: Seq<char>|
            t != sid ==> session_expiry(sessions_with(v, sid, exp), t) == session_expiry(v, t),
{
    let w = sessions_with(v, sid, exp);
    if has_key(v, sid) {
        let p = key_pos(v, sid);
        assert forall|i: int, j: int| 0 <= i < j < w.len() implies w[i].0 != w[j].0 by {
            assert(v[i].0 != v[j].0);
        }
        lemma_key_pos_unique(w, sid, p);
    } else {
        assert forall|i: int, j: int| 0 <= i < j < w.len() implies w[i].0 != w[j].0 by {
            if j == v.len() {
                assert(v[i].0 != sid);
            }
        }
        lemma_key_pos_unique(w, sid, v.len() as int);
    }
    assert forall|t: Seq<char>| t != sid implies session_expiry(w, t) == session_expiry(v, t) by {
        if has_key(v, t) {
            let q = key_pos(v, t);
            lemma_key_pos_unique(w, t, q);
        } else if has_key(w, t) {
            let q = key_pos(w, t);
            if q < v.len() {
                assert(v[q].0 == t);
            }
        }
    }
}

proof fn lemma_sessions_without(v: Seq<(Seq<char>, i128)>, sid: Seq<char>)
    requires
        keys_distinct(v),
    ensures
        keys_distinct(sessions_without(v, sid)),
        session_expiry(sessions_without(v, sid), sid) is None,
        forall|t: Seq<char>|
            t != sid ==> session_expiry(sessions_without(v, sid), t) == session_expiry(v, t),
{
    let w = sessions_without(v, sid);
    if has_key(v, sid) {
        let p = key_pos(v, sid);
        assert forall|i: int, j: int| 0 <= i < j < w.len() implies w[i].0 != w[j].0 by {
            let a = if i < p { i } else { i + 1 };
            let b = if j < p { j } else { j + 1 };
            assert(w[i] == v[a] && w[j] == v[b]);
            assert(v[a].0 != v[b].0);
        }
        if has_key(w, sid) {
            let q = key_pos(w, sid);
            let a = if q < p { q } else { q + 1 };
            assert(w[q] == v[a]);
            assert(v[a].0 != v[p].0);
        }
        assert forall|t: Seq<char>| t != sid implies session_expiry(w, t) == session_expiry(v, t) by {
            if has_key(v, t) {
                let q = key_pos(v, t);
                assert(q != p);
                let a = if q < p { q } else { q - 1 };
                assert(w[a] == v[q]);
                lemma_key_pos_unique(w, t, a);
            } else if has_key(w, t) {
                let q = key_pos(w, t);
                let a = if q < p { q } else { q + 1 };
                assert(w[q] == v[a]);
            }
        }
    }
}

/// What opening a session at clock reading `now` does: when `SESSION_DAYS` days
/// can be added to `now`, the new id `sid` is recorded with that expiry; else
/// nothing is opened and the store is unchanged.
pub open spec fn session_opened_at(
    before: Seq<(Seq<char>, i128)>,
    after: Seq<(Seq<char>, i128)>,
    sid: Option<Seq<char>>,
    now: int,
) -> bool {
    &&& representable(now)
    &&& match sid {
        Some(k) => representable(plus_days(now, SESSION_DAYS as int)) && after == sessions_with(
            before,
            k,
            plus_days(now, SESSION_DAYS as int) as i128,
        ),
        None => !representable(plus_days(now, SESSION_DAYS as int)) && after == before,
    }
}

impl SessionStore {
    #[verifier::type_invariant]
    spec fn inv(self) -> bool {
        keys_distinct(entries_view(self.entries@))
    }

    /// An empty store.
    pub fn new() -> (s: Self)
        ensures
            s@ == Seq::<(Seq<char>, i128)>::empty(),
    {
        let s = SessionStore { entries: Vec::new() };
        assert(s@ =~= Seq::<(Seq<char>, i128)>::empty());
        s
    }

    /// Records session `sid` as expiring at `exp`.
    pub fn insert_at(&mut self, sid: String, exp: i128)
        ensures
            final(self)@ == sessions_with(old(self)@, sid@, exp),
            keys_distinct(final(self)@),
    {
        proof {
            use_type_invariant(&*self);
        }
        let mut entries: Vec<(String, i128)> = Vec::new();
        std::mem::swap(&mut entries, &mut self.entries);
        let ghost v = entries_view(entries@);
        proof {
            lemma_sessions_with(v, sid@, exp);
        }
        match find_session(&entries, sid.as_str()) {
            Some(i) => {
                proof {
                    lemma_key_pos_unique(v, sid@, i as int);
                }
                let ghost k = sid@;
                entries.set(i, (sid, exp));
                assert(entries_view(entries@) =~= v.update(i as int, (k, exp)));
            },
            None => {
                let ghost k = sid@;
                entries.push((sid, exp));
                assert(entries_view(entries@) =~= v.push((k, exp)));
            },
        }
        self.entries = entries;
    }

    /// Opens session `sid` at instant `now`; it lasts `SESSION_DAYS` days.
    pub fn create_at(&mut self, sid: String, now: i128)
        requires
            representable(now as int),
            representable(plus_days(now as int, SESSION_DAYS as int)),
        ensures
            final(self)@ == sessions_with(old(self)@, sid@, plus_days(now as int, SESSION_DAYS as int) as i128),
    {
        let exp = add_days(now, SESSION_DAYS);
        self.insert_at(sid, exp);
    }

    /// Opens a new session with a fresh random id and returns the id; `None`
    /// when the clock reads so close to chrono's last instant that the expiry
    /// cannot be written.
    pub fn create(&mut self) -> (r: Option<String>)
        ensures
            r matches Some(sid) ==> sid@.len() == 64 && is_lower_hex(sid@) && exists|t: i128|
                final(self)@ == #[trigger] sessions_with(
                    old(self)@,
                    sid@,
                    plus_days(t as int, SESSION_DAYS as int) as i128,
                ),
            r matches Some(sid) ==> session_expiry(final(self)@, sid@) is Some,
            r is None ==> final(self)@ == old(self)@,
            exists|t: i128|
                #[trigger] session_opened_at(
                    old(self)@,
                    final(self)@,
                    opt_view(r),
                    t as int,
                ),
    {
        proof {
            use_type_invariant(&*self);
        }
        let t = now();
        if !can_add_days(t, SESSION_DAYS) {
            assert(session_opened_at(old(self)@, self@, None, t as int));
            return None;
        }
        let sid = gen_token();
        let out = sid.clone();
        self.create_at(sid, t);
        proof {
            lemma_sessions_with(old(self)@, out@, plus_days(t as int, SESSION_DAYS as int) as i128);
        }
        assert(session_opened_at(old(self)@, self@, Some(out@), t as int));
        Some(out)
    }

    /// Checks session `sid` at instant `now`: valid while its expiry lies after
    /// `now`; an expired session is dropped.
    pub fn validate_at(&mut self, sid: &str, now: i128) -> (ok: bool)
        ensures
            ok == session_valid(old(self)@, sid@, now),
            ok ==> final(self)@ == old(self)@,
            !ok ==> final(self)@ == sessions_without(old(self)@, sid@),
    {
        proof {
            use_type_invariant(&*self);
        }
        let ghost v = self@;
        match find_session(&self.entries, sid) {
            Some(i) => {
                proof {
                    lemma_key_pos_unique(v, sid@, i as int);
                }
                if self.entries[i].1 > now {
                    true
                } else {
                    let mut entries: Vec<(String, i128)> = Vec::new();
                    std::mem::swap(&mut entries, &mut self.entries);
                    entries.remove(i);
                    assert(entries_view(entries@) =~= v.remove(i as int));
                    proof {
                        lemma_sessions_without(v, sid@);
                    }
                    self.entries = entries;
                    false
                }
            },
            None => false,
        }
    }

    /// Checks session `sid` at the current instant.
    pub fn validate(&mut self, sid: &str) -> (ok: bool)
        ensures
            exists|t: i128|
                {
                    &&& ok == #[trigger] session_valid(old(self)@, sid@, t)
                    &&& ok ==> final(self)@ == old(self)@
                    &&& !ok ==> final(self)@ == sessions_without(old(self)@, sid@)
                },
    {
        let t = now();
        self.validate_at(sid, t)
    }

    /// Ends session `sid`.
    pub fn destroy(&mut self, sid: &str)
        ensures
            final(self)@ == sessions_without(old(self)@, sid@),
    {
        proof {
            use_type_invariant(&*self);
        }
        let ghost v = self@;
        if let Some(i) = find_session(&self.entries, sid) {
            proof {
                lemma_key_pos_unique(v, sid@, i as int);
            }
            let mut entries: Vec<(String, i128)> = Vec::new();
            std::mem::swap(&mut entries, &mut self.entries);
            entries.remove(i);
            assert(entries_view(entries@) =~= v.remove(i as int));
            proof {
                lemma_sessions_without(v, sid@);
            }
            self.entries = entries;
        }
    }

    /// Whether a session with id `sid` is recorded (valid or not yet dropped).
    pub fn contains(&self, sid: &str) -> (b: bool)
        ensures
            b == (session_expiry(self@, sid@) is Some),
    {
        find_session(&self.entries, sid).is_some()
    }
}


/// A session opened with expiry `exp` is valid at every instant before `exp`
/// and at none from `exp` on; other sessions keep their state.
pub proof fn law_session_valid_until_expiry(
    v: Seq<(Seq<char>, i128)>,
    sid: Seq<char>,
    exp: i128,
    t: i128,
    other: Seq<char>,
)
    requires
        keys_distinct(v),
        other != sid,
    ensures
        session_valid(sessions_with(v, sid, exp), sid, t) == (t < exp),
        session_valid(sessions_with(v, sid, exp), other, t) == session_valid(v, other, t),
{
    lemma_sessions_with(v, sid, exp);
}

/// A destroyed (or dropped) session is valid at no instant; other sessions keep their state.
pub proof fn law_session_destroyed(
    v: Seq<(Seq<char>, i128)>,
    sid: Seq<char>,
    t: i128,
    other: Seq<char>,
)
    requires
        keys_distinct(v),
        other != sid,
    ensures
        !session_valid(sessions_without(v, sid), sid, t),
        session_valid(sessions_without(v, sid), other, t) == session_valid(v, other, t),
{
    lemma_sessions_without(v, sid);
}

} // verus!
