//! Decimal integers: the `FromStr` grammar of Rust's integer types and the
//! `Display` form of integers.

use crate::text::chars_of;
use vstd::prelude::*;

verus! {

/// An ASCII decimal digit.
pub open spec fn is_digit(c: char) -> bool {
    '0' <= c && c <= '9'
}

/// The value of a decimal digit.
pub open spec fn digit_val(c: char) -> int {
    c as int - '0' as int
}

/// Whether every character of `s` is a decimal digit.
pub open spec fn all_digits(s: Seq<char>) -> bool {
    forall|i: int| 0 <= i < s.len() ==> is_digit(#[trigger] s[i])
}

/// The value of a string of decimal digits, most significant first.
pub open spec fn digits_value(s: Seq<char>) -> int
    decreases s.len(),
{
    if s.len() == 0 {
        0
    } else {
        digits_value(s.drop_last()) * 10 + digit_val(s.last())
    }
}

/// The value that Rust's integer `FromStr` reads from `s`, before the range of
/// the target type is checked: an optional `+` (or `-` when `signed`) followed
/// by one or more ASCII digits.
pub open spec fn spec_int_syntax(s: Seq<char>, signed: bool) -> Option<int> {
    if s.len() == 0 {
        None
    } else if (s[0] == '+' || s[0] == '-') && s.len() == 1 {
        None
    } else if s[0] == '+' {
        if all_digits(s.drop_first()) {
            Some(digits_value(s.drop_first()))
        } else {
            None
        }
    } else if s[0] == '-' && signed {
        if all_digits(s.drop_first()) {
            Some(-digits_value(s.drop_first()))
        } else {
            None
        }
    } else if all_digits(s) {
        Some(digits_value(s))
    } else {
        None
    }
}

/// `s.parse::<T>()` for an integer type `T` whose values are `lo..=hi`.
pub open spec fn spec_parse_int(s: Seq<char>, lo: int, hi: int, signed: bool) -> Option<int> {
    match spec_int_syntax(s, signed) {
        Some(v) => if lo <= v && v <= hi { Some(v) } else { None },
        None => None,
    }
}

/// The value of a digit string is not negative.
pub proof fn lemma_digits_value_nonneg(s: Seq<char>)
    requires
        all_digits(s),
    ensures
        digits_value(s) >= 0,
    decreases s.len(),
{
    if s.len() > 0 {
        assert(is_digit(s[s.len() - 1]));
        lemma_digits_value_nonneg(s.drop_last());
    }
}

proof fn lemma_digits_value_grows(s: Seq<char>, i: int, j: int)
    requires
        all_digits(s),
        0 <= i <= j <= s.len(),
    ensures
        digits_value(s.subrange(0, i)) <= digits_value(s.subrange(0, j)),
    decreases j - i,
{
    if i < j {
        lemma_digits_value_grows(s, i, j - 1);
        let t = s.subrange(0, j);
        assert(t.drop_last() =~= s.subrange(0, j - 1));
        assert(is_digit(s[j - 1]));
        assert(all_digits(s.subrange(0, j - 1)));
        lemma_digits_value_nonneg(s.subrange(0, j - 1));
    }
}

/// Reads an unsigned run of digits from `cs[start..]`; `None` when a character is
/// not a digit, when the run is empty, or when its value exceeds `cap`.
fn read_digits(cs: &Vec<char>, start: usize, cap: u128) -> (r: Option<u128>)
    requires
        start <= cs.len(),
        cap < u128::MAX / 16,
    ensures
        ({
            let t = cs@.subrange(start as int, cs@.len() as int);
            match r {
                Some(v) => all_digits(t) && v == digits_value(t) && v <= cap,
                None => !all_digits(t) || digits_value(t) > cap,
            }
        }),
{
    let ghost t = cs@.subrange(start as int, cs@.len() as int);
    let mut acc: u128 = 0;
    let mut i: usize = start;
    assert(t.subrange(0, 0) =~= Seq::<char>::empty());
    while i < cs.len()
        invariant
            start <= i <= cs.len(),
            t == cs@.subrange(start as int, cs@.len() as int),
            cap < u128::MAX / 16,
            acc <= cap,
            all_digits(t.subrange(0, i - start)),
            acc == digits_value(t.subrange(0, i - start)),
        decreases cs.len() - i,
    {
        let c = cs[i];
        if !('0' <= c && c <= '9') {
            assert(t[i - start] == c);
            return None;
        }
        let d = (c as u32 - '0' as u32) as u128;
        assert(t.subrange(0, i + 1 - start).drop_last() =~= t.subrange(0, i - start));
        assert(all_digits(t.subrange(0, i + 1 - start)));
        acc = acc * 10 + d;
        i = i + 1;
        if acc > cap {
            proof {
                if all_digits(t) {
                    lemma_digits_value_grows(t, i - start, t.len() as int);
                    assert(t.subrange(0, t.len() as int) =~= t);
                }
            }
            return None;
        }
    }
    assert(t.subrange(0, i - start) =~= t);
    Some(acc)
}

/// Rust's integer `FromStr`, for a target type whose values are `lo..=hi`
/// (`signed` tells whether a leading `-` is accepted).
pub fn parse_int(s: &str, lo: i128, hi: i128, signed: bool) -> (r: Option<i128>)
    requires
        -0x1_0000_0000_0000_0000 <= lo <= 0,
        0 <= hi <= 0x1_0000_0000_0000_0000,
    ensures
        match r {
            Some(v) => spec_parse_int(s@, lo as int, hi as int, signed) == Some(v as int),
            None => spec_parse_int(s@, lo as int, hi as int, signed) is None,
        },
{
    let cs = chars_of(s);
    let n = cs.len();
    if n == 0 {
        return None;
    }
    let first = cs[0];
    if (first == '+' || first == '-') && n == 1 {
        return None;
    }
    let cap: u128 = 0x1_0000_0000_0000_0001;
    if first == '+' || (first == '-' && signed) {
        assert(cs@.subrange(1, n as int) =~= s@.drop_first());
        match read_digits(&cs, 1, cap) {
            Some(v) => {
                let m = v as i128;
                let val = if first == '-' { -m } else { m };
                if lo <= val && val <= hi {
                    Some(val)
                } else {
                    None
                }
            },
            None => None,
        }
    } else {
        assert(cs@.subrange(0, n as int) =~= s@);
        match read_digits(&cs, 0, cap) {
            Some(v) => {
                let val = v as i128;
                if val <= hi {
                    Some(val)
                } else {
                    None
                }
            },
            None => None,
        }
    }
}

/// The digit character for `d < 10`.
pub open spec fn digit_char(d: int) -> char {
    (d + '0' as int) as char
}

/// The decimal form of a natural number, without leading zeros.
pub open spec fn decimal(n: nat) -> Seq<char>
    decreases n,
{
    if n < 10 {
        seq![digit_char(n as int)]
    } else {
        decimal(n / 10).push(digit_char((n % 10) as int))
    }
}

/// The `Display` form of an integer.
pub open spec fn int_text(n: int) -> Seq<char> {
    if n < 0 {
        seq!['-'] + decimal((-n) as nat)
    } else {
        decimal(n as nat)
    }
}

fn push_decimal(out: &mut Vec<char>, n: u64)
    ensures
        final(out)@ == old(out)@ + decimal(n as nat),
    decreases n,
{
    if n >= 10 {
        push_decimal(out, n / 10);
    }
    let d = n % 10;
    let c = match d {
        0 => '0',
        1 => '1',
        2 => '2',
        3 => '3',
        4 => '4',
        5 => '5',
        6 => '6',
        7 => '7',
        8 => '8',
        _ => '9',
    };
    proof {
        assert(c == digit_char((n % 10) as int));
    }
    out.push(c);
    proof {
        if n >= 10 {
            assert(decimal(n as nat) == decimal((n / 10) as nat).push(digit_char((n % 10) as int)));
        }
    }
    assert(final(out)@ =~= old(out)@ + decimal(n as nat));
}

/// Appends the `Display` form of `n` to `out`.
pub fn push_int(out: &mut Vec<char>, n: i64)
    ensures
        final(out)@ == old(out)@ + int_text(n as int),
{
    if n < 0 {
        out.push('-');
        let m: u64 = if n == i64::MIN { 0x8000_0000_0000_0000 } else { (-n) as u64 };
        push_decimal(out, m);
        assert(final(out)@ =~= old(out)@ + int_text(n as int));
    } else {
        push_decimal(out, n as u64);
    }
}

/// Appends the decimal form of `n` to `out`.
pub fn push_usize(out: &mut Vec<char>, n: usize)
    ensures
        final(out)@ == old(out)@ + decimal(n as nat),
{
    push_decimal(out, n as u64);
}

/// The decimal text of `n` is a non-empty digit string whose value is `n`.
pub proof fn lemma_decimal_digits(n: nat)
    ensures
        decimal(n).len() > 0,
        all_digits(decimal(n)),
        digits_value(decimal(n)) == n,
        decimal(n)[0] != '-' && decimal(n)[0] != '+',
    decreases n,
{
    if n >= 10 {
        lemma_decimal_digits(n / 10);
        let s = decimal(n);
        assert(s.drop_last() =~= decimal(n / 10));
        assert(s[0] == decimal(n / 10)[0]);
        assert(s.last() == digit_char((n % 10) as int));
        assert(digit_val(digit_char((n % 10) as int)) == n % 10);
        assert(digits_value(s) == digits_value(decimal(n / 10)) * 10 + (n % 10));
        assert(n == (n / 10) * 10 + n % 10) by (nonlinear_arith);
    } else {
        let s = decimal(n);
        assert(s.drop_last() =~= Seq::<char>::empty());
        assert(digit_val(digit_char(n as int)) == n);
        assert(s.last() == digit_char(n as int));
        assert(digits_value(s) == digits_value(s.drop_last()) * 10 + digit_val(s.last()));
    }
}

/// Parsing the `Display` form of an integer gives the integer back, for any
/// target type that holds it.
pub proof fn lemma_parse_int_text(n: int, lo: int, hi: int)
    requires
        lo <= n <= hi,
    ensures
        spec_parse_int(int_text(n), lo, hi, true) == Some(n),
        n >= 0 ==> spec_parse_int(int_text(n), lo, hi, false) == Some(n),
{
    if n < 0 {
        let d = decimal((-n) as nat);
        lemma_decimal_digits((-n) as nat);
        let s = int_text(n);
        assert(s.drop_first() =~= d);
        assert(s.len() > 1);
    } else {
        lemma_decimal_digits(n as nat);
    }
}

} // verus!
