//! Token expiration times given as seconds since the Unix epoch or as a
//! number of days from now.
use crate::primitives::unix_now;
use vstd::prelude::*;
use vstd::string::StringSliceAdditionalSpecFns;

verus! {

/// Seconds in a day.
pub const SECONDS_PER_DAY: u64 = 86400;

/// An ASCII decimal digit.
pub open spec fn is_decimal_digit(b: u8) -> bool {
    48 <= b <= 57
}

/// The value of a string of decimal digits.
pub open spec fn decimal_value(s: Seq<u8>) -> nat
    decreases s.len(),
{
    if s.len() == 0 {
        0
    } else {
        decimal_value(s.drop_last()) * 10 + (s.last() - 48) as nat
    }
}

/// The digits of an unsigned number, after an optional leading `+`.
pub open spec fn unsigned_digits(s: Seq<u8>) -> Seq<u8> {
    if s.len() > 0 && s[0] == 43 {
        s.drop_first()
    } else {
        s
    }
}

/// The `u64` that the text `s` writes in decimal, as Rust's `u64` parsing
/// reads it: an optional `+`, then at least one digit, and a value that fits.
pub open spec fn decimal_u64(s: Seq<u8>) -> Option<u64> {
    let d = unsigned_digits(s);
    if d.len() > 0 && (forall|i: int| 0 <= i < d.len() ==> is_decimal_digit(#[trigger] d[i]))
        && decimal_value(d) <= u64::MAX {
        Some(decimal_value(d) as u64)
    } else {
        None
    }
}

/// A value written with more digits is at least as large.
proof fn lemma_decimal_value_grows(s: Seq<u8>, j: int)
    requires
        0 <= j <= s.len(),
        forall|i: int| 0 <= i < s.len() ==> is_decimal_digit(#[trigger] s[i]),
    ensures
        decimal_value(s.subrange(0, j)) <= decimal_value(s),
    decreases s.len() - j,
{
    if j < s.len() {
        let t = s.subrange(0, j + 1);
        assert(t.drop_last() =~= s.subrange(0, j));
        assert(t.last() == s[j]);
        assert(is_decimal_digit(s[j]));
        lemma_decimal_value_grows(s, j + 1);
    } else {
        assert(s.subrange(0, j) =~= s);
    }
}

/// Reads the decimal `u64` in `s`.
fn parse_u64(s: &[u8]) -> (r: Option<u64>)
    ensures
        r == decimal_u64(s@),
{
    let n = s.len();
    let mut i: usize = 0;
    if n > 0 && s[0] == 43 {
        i = 1;
    }
    let ghost d = unsigned_digits(s@);
    assert(d =~= s@.subrange(i as int, n as int));
    if i == n {
        return None;
    }
    let start = i;
    let mut value: u64 = 0;
    assert(d.subrange(0, 0) =~= Seq::<u8>::empty());
    while i < n
        invariant
            start <= i <= n,
            n == s@.len(),
            d == s@.subrange(start as int, n as int),
            d == unsigned_digits(s@),
            forall|k: int| 0 <= k < i - start ==> is_decimal_digit(#[trigger] d[k]),
            value == decimal_value(d.subrange(0, i - start)),
        decreases n - i,
    {
        let b = s[i];
        assert(d[i - start] == b);
        if b < 48 || b > 57 {
            assert(!is_decimal_digit(d[i - start]));
            return None;
        }
        let digit = (b - 48) as u64;
        let ghost prefix = d.subrange(0, i - start + 1);
        assert(prefix.drop_last() =~= d.subrange(0, i - start));
        assert(prefix.last() == b);
        if value > (u64::MAX - digit) / 10 {
            proof {
                assert(decimal_value(prefix) > u64::MAX) by (nonlinear_arith)
                    requires
                        decimal_value(prefix) == value * 10 + digit,
                        value > (u64::MAX - digit) / 10,
                        digit <= 9,
                ;
                assert(decimal_value(prefix) == decimal_value(d.subrange(0, i - start)) * 10 + (b
                    - 48) as nat);
                if forall|k: int| 0 <= k < d.len() ==> is_decimal_digit(#[trigger] d[k]) {
                    lemma_decimal_value_grows(d, i - start + 1);
                    assert(decimal_value(d) > u64::MAX);
                }
            }
            return None;
        }
        assert(value * 10 + digit <= u64::MAX) by (nonlinear_arith)
            requires
                value <= (u64::MAX - digit) / 10,
                digit <= 9,
        ;
        value = value * 10 + digit;
        i = i + 1;
    }
    assert(d.subrange(0, n - start) =~= d);
    Some(value)
}

/// Whether the text ends in `d` or `D`, marking a number of days.
pub open spec fn has_day_suffix(s: Seq<u8>) -> bool {
    s.len() > 0 && (s.last() == 100 || s.last() == 68)
}

/// The expiration time that the text `exp` gives when the time is `now`
/// seconds since the epoch: `N` days from now for `Nd` or `ND`, else the
/// number itself; `None` where the text is no such number or the time does
/// not fit.
pub open spec fn expiration_time(exp: Seq<u8>, now: u64) -> Option<u64> {
    if has_day_suffix(exp) {
        match decimal_u64(exp.drop_last()) {
            Some(days) => if now + days * SECONDS_PER_DAY <= u64::MAX {
                Some((now + days * SECONDS_PER_DAY) as u64)
            } else {
                None
            },
            None => None,
        }
    } else {
        decimal_u64(exp)
    }
}

/// The expiration time that `exp` gives when the time is `now` seconds
/// since the epoch.
pub fn expiration_at(exp: &str, now: u64) -> (r: Option<u64>)
    ensures
        r == expiration_time(exp.spec_bytes(), now),
{
    let bytes = exp.as_bytes();
    let n = bytes.len();
    if n > 0 && (bytes[n - 1] == 100 || bytes[n - 1] == 68) {
        let digits = &bytes[0..n - 1];
        assert(digits@ =~= bytes@.drop_last());
        match parse_u64(digits) {
            Some(days) => {
                let limit: u64 = (u64::MAX - now) / SECONDS_PER_DAY;
                if days > limit {
                    assert(now + days * 86400 > u64::MAX) by (nonlinear_arith)
                        requires
                            days > limit,
                            limit == (u64::MAX - now) / 86400,
                            now <= u64::MAX,
                    ;
                    None
                } else {
                    assert(now + days * 86400 <= u64::MAX) by (nonlinear_arith)
                        requires
                            days <= limit,
                            limit == (u64::MAX - now) / 86400,
                            now <= u64::MAX,
                    ;
                    Some(now + days * SECONDS_PER_DAY)
                }
            },
            None => None,
        }
    } else {
        parse_u64(bytes)
    }
}

/// The expiration time that `exp` gives now: a number of seconds since the
/// epoch as written, or `Nd` for `N` days from the current time. `None` where
/// the text is no such number, the time does not fit, or the clock cannot be
/// read. Without the day suffix the clock is not consulted.
pub fn verify_expiration(exp: &str) -> (r: Option<u64>)
    ensures
        !has_day_suffix(exp.spec_bytes()) ==> r == decimal_u64(exp.spec_bytes()),
        has_day_suffix(exp.spec_bytes()) && r is Some ==> exists|now: u64|
            r == expiration_time(exp.spec_bytes(), now),
        has_day_suffix(exp.spec_bytes()) && decimal_u64(exp.spec_bytes().drop_last()) is None
            ==> r is None,
{
    if !has_day_suffix_exec(exp) {
        return expiration_at(exp, 0);
    }
    match unix_now() {
        Some(now) => expiration_at(exp, now),
        None => None,
    }
}

/// Whether `exp` ends in `d` or `D`.
fn has_day_suffix_exec(exp: &str) -> (r: bool)
    ensures
        r == has_day_suffix(exp.spec_bytes()),
{
    let bytes = exp.as_bytes();
    let n = bytes.len();
    n > 0 && (bytes[n - 1] == 100 || bytes[n - 1] == 68)
}

} // verus!
