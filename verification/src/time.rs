//! Instants as signed nanoseconds since the Unix epoch, with chrono doing the
//! clock reading, the RFC 3339 parsing and the RFC 3339 formatting.
//!
//! An instant is `secs * 10^9 + sub`, where `secs` and `sub` are chrono's
//! `timestamp()` and `timestamp_subsec_nanos()`.  chrono writes a leap second
//! as `sub >= 10^9`; such an instant is ordered here as the following second.

use crate::models::text_lt;
use vstd::prelude::*;

verus! {

/// Nanoseconds in a second.
pub const NANOS_PER_SEC: i128 = 1_000_000_000;

/// Nanoseconds in a day.
pub const NANOS_PER_DAY: i128 = 86_400_000_000_000;

/// `DateTime::<Utc>::MIN_UTC.timestamp()`: -262143-01-01T00:00:00Z.
pub const MIN_UTC_SECS: i64 = -8_334_601_315_200;

/// `DateTime::<Utc>::MAX_UTC.timestamp()`: +262142-12-31T23:59:59Z.
pub const MAX_UTC_SECS: i64 = 8_210_266_876_799;

/// The instant of chrono's `(timestamp, subsec_nanos)` pair.
pub open spec fn nanos_of(secs: i64, sub: u32) -> int {
    secs * 1_000_000_000 + sub
}

/// 0000-01-01T00:00:00Z, the first second that RFC 3339 text (four-digit years) can write.
pub const TEXT_MIN_SECS: i64 = -62_167_219_200;

/// 9999-12-31T23:59:59Z, the last second that RFC 3339 text (four-digit years) can write.
pub const TEXT_MAX_SECS: i64 = 253_402_300_799;

/// Whether the RFC 3339 text of instant `t` has a four-digit year, so that
/// `DateTime::parse_from_rfc3339` reads it back.
pub open spec fn text_round_trips(t: int) -> bool {
    TEXT_MIN_SECS * 1_000_000_000 <= t < (TEXT_MAX_SECS + 1) * 1_000_000_000
}

/// Whether `t` is an instant that a `DateTime<Utc>` can hold without a leap second.
pub open spec fn representable(t: int) -> bool {
    MIN_UTC_SECS * 1_000_000_000 <= t < (MAX_UTC_SECS + 1) * 1_000_000_000
}

/// The instant `days` whole days after `t`.
pub open spec fn plus_days(t: int, days: int) -> int {
    t + days * 86_400_000_000_000
}

/// The text `DateTime::to_rfc3339` writes for `DateTime::from_timestamp(secs, sub)`.
pub uninterp spec fn spec_rfc3339_text(secs: i64, sub: u32) -> Seq<char>;

/// The `(timestamp, subsec_nanos)` of `DateTime::parse_from_rfc3339(s)`, `None` when it fails.
pub uninterp spec fn spec_parse_rfc3339(s: Seq<char>) -> Option<(i64, u32)>;

/// The `(timestamp, subsec_nanos)` of `NaiveDateTime::parse_from_str(s, fmt)` read as UTC,
/// `None` when it fails.
pub uninterp spec fn spec_parse_naive_utc(s: Seq<char>, fmt: Seq<char>) -> Option<(i64, u32)>;

/// The RFC 3339 text of a representable instant.
pub open spec fn time_text(t: int) -> Seq<char> {
    spec_rfc3339_text((t / 1_000_000_000) as i64, (t % 1_000_000_000) as u32)
}

/// The instant of an optional `(timestamp, subsec_nanos)` pair.
pub open spec fn parts_to_nanos(p: Option<(i64, u32)>) -> Option<int> {
    match p {
        Some(x) => Some(nanos_of(x.0, x.1)),
        None => None,
    }
}

/// Reads `chrono::Utc::now()`.  chrono builds it from the system clock through
/// `DateTime::from_timestamp(secs, subsec_nanos)`, so it lies in chrono's range
/// and carries no leap second; which instant comes back is not stated.
#[verifier::external_body]
fn utc_now_parts() -> (r: (i64, u32))
    ensures
        MIN_UTC_SECS <= r.0 <= MAX_UTC_SECS,
        r.1 < 1_000_000_000,
{
    let now = chrono::Utc::now();
    (now.timestamp(), now.timestamp_subsec_nanos())
}

/// Calls `DateTime::parse_from_rfc3339`; the parsed instant is named.  Any
/// `DateTime` lies in chrono's range and its sub-second part is below 2 * 10^9.
#[verifier::external_body]
fn parse_rfc3339_parts(s: &str) -> (r: Option<(i64, u32)>)
    ensures
        r == spec_parse_rfc3339(s@),
        r matches Some(p) ==> MIN_UTC_SECS <= p.0 <= MAX_UTC_SECS && p.1 < 2_000_000_000,
{
    chrono::DateTime::parse_from_rfc3339(s).ok().map(|d| (d.timestamp(), d.timestamp_subsec_nanos()))
}

/// Calls `NaiveDateTime::parse_from_str(s, fmt)` and reads the result as UTC; the
/// parsed instant is named.
#[verifier::external_body]
fn parse_naive_utc_parts(s: &str, fmt: &str) -> (r: Option<(i64, u32)>)
    ensures
        r == spec_parse_naive_utc(s@, fmt@),
        r matches Some(p) ==> MIN_UTC_SECS <= p.0 <= MAX_UTC_SECS && p.1 < 2_000_000_000,
{
    chrono::NaiveDateTime::parse_from_str(s, fmt).ok().map(|n| {
        let d = n.and_utc();
        (d.timestamp(), d.timestamp_subsec_nanos())
    })
}

/// Calls `DateTime::from_timestamp(secs, sub)` and `DateTime::to_rfc3339`; for
/// `secs` in chrono's range and `sub < 10^9` the instant exists, and the text is
/// named.  For years 0 to 9999 the text is `YYYY-MM-DDTHH:MM:SS[.fraction]+00:00`
/// with the fraction exact to the nanosecond, which `DateTime::parse_from_rfc3339`
/// reads back as the same `(timestamp, subsec_nanos)`.  The text is never
/// empty, and for years 0 to 9999 these texts sort, character by character, in
/// the order of their instants: the date and time fields have fixed widths, a
/// text without fraction (`+` follows the seconds) sorts before one with a
/// fraction (`.`), and fractions are written in blocks of three digits without
/// a trailing all-zero block.
#[verifier::external_body]
fn rfc3339_text_parts(secs: i64, sub: u32) -> (r: String)
    requires
        MIN_UTC_SECS <= secs <= MAX_UTC_SECS,
        sub < 1_000_000_000,
    ensures
        r@ == spec_rfc3339_text(secs, sub),
        TEXT_MIN_SECS <= secs <= TEXT_MAX_SECS ==> spec_parse_rfc3339(r@) == Some((secs, sub)),
        r@.len() > 0,
        TEXT_MIN_SECS <= secs <= TEXT_MAX_SECS ==> forall|s2: i64, n2: u32|
            TEXT_MIN_SECS <= s2 <= TEXT_MAX_SECS && n2 < 1_000_000_000 ==> (text_lt(
                #[trigger] spec_rfc3339_text(s2, n2),
                r@,
            ) <==> nanos_of(s2, n2) < nanos_of(secs, sub)),
{
    chrono::DateTime::from_timestamp(secs, sub).unwrap().to_rfc3339()
}

/// The current instant (`Utc::now()`).
pub fn now() -> (t: i128)
    ensures
        representable(t as int),
{
    let (s, n) = utc_now_parts();
    s as i128 * NANOS_PER_SEC + n as i128
}

/// `parse_dt`: an RFC 3339 text read as an instant, `None` when it does not parse.
pub fn parse_dt(s: &str) -> (r: Option<i128>)
    ensures
        r matches Some(t) ==> parts_to_nanos(spec_parse_rfc3339(s@)) == Some(t as int)
            && MIN_UTC_SECS * 1_000_000_000 <= t < (MAX_UTC_SECS + 2) * 1_000_000_000,
        r is None ==> spec_parse_rfc3339(s@) is None,
{
    match parse_rfc3339_parts(s) {
        Some((secs, sub)) => Some(secs as i128 * NANOS_PER_SEC + sub as i128),
        None => None,
    }
}

/// A naive date-time text in format `fmt`, read as UTC.
pub fn parse_naive_utc(s: &str, fmt: &str) -> (r: Option<i128>)
    ensures
        r matches Some(t) ==> parts_to_nanos(spec_parse_naive_utc(s@, fmt@)) == Some(t as int)
            && MIN_UTC_SECS * 1_000_000_000 <= t < (MAX_UTC_SECS + 2) * 1_000_000_000,
        r is None ==> spec_parse_naive_utc(s@, fmt@) is None,
{
    match parse_naive_utc_parts(s, fmt) {
        Some((secs, sub)) => Some(secs as i128 * NANOS_PER_SEC + sub as i128),
        None => None,
    }
}

/// `to_rfc3339` of a representable instant.
pub fn rfc3339(t: i128) -> (r: String)
    requires
        representable(t as int),
    ensures
        r@ == time_text(t as int),
        text_round_trips(t as int) ==> parts_to_nanos(spec_parse_rfc3339(r@)) == Some(t as int),
        r@.len() > 0,
        text_round_trips(t as int) ==> forall|t2: int|
            text_round_trips(t2) ==> (text_lt(#[trigger] time_text(t2), r@) <==> t2 < t),
{
    let (secs, sub) = if t >= 0 {
        (t / NANOS_PER_SEC, t % NANOS_PER_SEC)
    } else {
        let m = -t;
        let q = m / NANOS_PER_SEC;
        let r = m % NANOS_PER_SEC;
        if r == 0 {
            (-q, 0)
        } else {
            (-q - 1, NANOS_PER_SEC - r)
        }
    };
    assert(t == secs * 1_000_000_000 + sub && 0 <= sub < 1_000_000_000) by (nonlinear_arith)
        requires
            t >= 0 ==> secs == t / 1_000_000_000 && sub == t % 1_000_000_000,
            t < 0 ==> (-t) % 1_000_000_000 == 0 ==> secs == -((-t) / 1_000_000_000) && sub == 0,
            t < 0 ==> (-t) % 1_000_000_000 != 0 ==> secs == -((-t) / 1_000_000_000) - 1 && sub
                == 1_000_000_000 - (-t) % 1_000_000_000,
    ;
    assert(secs == t / 1_000_000_000 && sub == t % 1_000_000_000) by (nonlinear_arith)
        requires
            t == secs * 1_000_000_000 + sub,
            0 <= sub < 1_000_000_000,
    ;
    rfc3339_text_parts(secs as i64, sub as u32)
}

/// Whether `t` lies in chrono's range (see `representable`).
pub fn is_representable(t: i128) -> (b: bool)
    ensures
        b == representable(t as int),
{
    MIN_UTC_SECS as i128 * NANOS_PER_SEC <= t && t < (MAX_UTC_SECS as i128 + 1) * NANOS_PER_SEC
}

/// Whether `days` whole days can be added to `t` without leaving chrono's range
/// (where `DateTime + TimeDelta::days(days)` panics).
pub fn can_add_days(t: i128, days: i64) -> (b: bool)
    requires
        representable(t as int),
    ensures
        b == representable(plus_days(t as int, days as int)),
{
    let d = days as i128 * NANOS_PER_DAY;
    let u = t + d;
    MIN_UTC_SECS as i128 * NANOS_PER_SEC <= u && u < (MAX_UTC_SECS as i128 + 1) * NANOS_PER_SEC
}

/// `t + TimeDelta::days(days)`.
pub fn add_days(t: i128, days: i64) -> (r: i128)
    requires
        representable(t as int),
        representable(plus_days(t as int, days as int)),
    ensures
        r == plus_days(t as int, days as int),
{
    t + days as i128 * NANOS_PER_DAY
}

} // verus!
