//! Parsing a run seed given on the command line.

use vstd::prelude::*;

verus! {

/// Why a seed string was rejected.
#[derive(Copy, Clone, Debug, PartialEq, Eq, Structural)]
pub enum SeedError {
    /// After a `0x`/`0X` prefix the rest is not a hexadecimal `u64`.
    InvalidHex,
    /// The string is not a decimal `u64`.
    InvalidDecimal,
}

/// Value of `c` as a digit in base `radix` (10 or 16; letters in either case).
pub open spec fn digit_value(c: char, radix: nat) -> Option<nat> {
    if '0' <= c && c <= '9' {
        Some((c as int - '0' as int) as nat)
    } else if radix == 16 && 'a' <= c && c <= 'f' {
        Some((c as int - 'a' as int + 10) as nat)
    } else if radix == 16 && 'A' <= c && c <= 'F' {
        Some((c as int - 'A' as int + 10) as nat)
    } else {
        None
    }
}

/// Value of a digit string (empty means 0); `None` if a character is not a digit.
pub open spec fn digits_value(s: Seq<char>, radix: nat) -> Option<nat>
    decreases s.len(),
{
    if s.len() == 0 {
        Some(0)
    } else {
        match (digits_value(s.drop_last(), radix), digit_value(s.last(), radix)) {
            (Some(a), Some(d)) => Some(a * radix + d),
            _ => None,
        }
    }
}

/// An unsigned number as `u64::from_str_radix` reads it: an optional `+`, then
/// at least one digit; `None` when malformed (the range is checked apart).
pub open spec fn unsigned_value(s: Seq<char>, radix: nat) -> Option<nat> {
    let body = if s.len() > 0 && s[0] == '+' { s.drop_first() } else { s };
    if body.len() == 0 { None } else { digits_value(body, radix) }
}

/// Has `s` a `0x` or `0X` prefix?
pub open spec fn has_hex_prefix(s: Seq<char>) -> bool {
    s.len() >= 2 && s[0] == '0' && (s[1] == 'x' || s[1] == 'X')
}

/// The seed that `s` denotes: hexadecimal after a `0x`/`0X` prefix, decimal
/// otherwise; `None` when malformed or larger than `u64::MAX`.
pub open spec fn seed_value(s: Seq<char>) -> Option<nat> {
    let v = if has_hex_prefix(s) { unsigned_value(s.skip(2), 16) } else { unsigned_value(s, 10) };
    match v {
        Some(n) => if n <= u64::MAX { Some(n) } else { None },
        None => None,
    }
}

proof fn lemma_prefix_value_bounded(s: Seq<char>, radix: nat, k: int)
    requires
        radix >= 1,
        0 <= k <= s.len(),
        digits_value(s, radix) is Some,
    ensures
        digits_value(s.take(k), radix) is Some,
        digits_value(s.take(k), radix).unwrap() <= digits_value(s, radix).unwrap(),
    decreases s.len(),
{
    if k == s.len() {
        assert(s.take(k) =~= s);
    } else {
        let a = digits_value(s.drop_last(), radix).unwrap();
        assert(s.drop_last().take(k) =~= s.take(k));
        lemma_prefix_value_bounded(s.drop_last(), radix, k);
        assert(a * radix >= a) by (nonlinear_arith)
            requires radix >= 1, a >= 0;
    }
}

fn digit_exec(c: char, radix: u64) -> (r: Option<u64>)
    requires
        radix == 10 || radix == 16,
    ensures
        r matches Some(d) ==> digit_value(c, radix as nat) == Some(d as nat) && d < radix,
        r is None ==> digit_value(c, radix as nat) is None,
{
    let u = c as u32;
    if '0' <= c && c <= '9' {
        Some((u - 48) as u64)
    } else if radix == 16 && 'a' <= c && c <= 'f' {
        Some((u - 97 + 10) as u64)
    } else if radix == 16 && 'A' <= c && c <= 'F' {
        Some((u - 65 + 10) as u64)
    } else {
        None
    }
}

/// Reads `s[start..]` as an unsigned number in base `radix` within `u64`.
fn parse_unsigned(s: &str, start: usize, radix: u64) -> (r: Option<u64>)
    requires
        radix == 10 || radix == 16,
        start <= s@.len(),
    ensures
        r == (match unsigned_value(s@.skip(start as int), radix as nat) {
            Some(n) => if n <= u64::MAX { Some(n as u64) } else { None },
            None => None,
        }),
{
    let n = s.unicode_len();
    let ghost t = s@.skip(start as int);
    let mut i = start;
    if i < n && s.get_char(i) == '+' {
        i = i + 1;
    }
    let ghost body = s@.skip(i as int);
    assert(body =~= (if t.len() > 0 && t[0] == '+' { t.drop_first() } else { t }));
    if i == n {
        return None;
    }
    let mut acc: u64 = 0;
    let mut j = i;
    while j < n
        invariant
            n == s@.len(),
            i < n,
            i <= j <= n,
            radix == 10 || radix == 16,
            body == s@.skip(i as int),
            t == s@.skip(start as int),
            body == (if t.len() > 0 && t[0] == '+' { t.drop_first() } else { t }),
            body.len() > 0,
            digits_value(body.take(j - i), radix as nat) == Some(acc as nat),
        decreases n - j,
    {
        let c = s.get_char(j);
        assert(body.take(j + 1 - i).drop_last() =~= body.take(j - i));
        assert(body.take(j + 1 - i).last() == c);
        match digit_exec(c, radix) {
            None => {
                assert(digits_value(body.take(j + 1 - i), radix as nat) is None);
                proof {
                    if digits_value(body, radix as nat) is Some {
                        lemma_prefix_value_bounded(body, radix as nat, j + 1 - i);
                    }
                }
                return None;
            },
            Some(d) => {
                let lim: u64 = (u64::MAX - d) / radix;
                if acc > lim {
                    proof {
                        let l = lim as int;
                        let m = (u64::MAX - d) as int;
                        assert(acc * radix + d > u64::MAX) by (nonlinear_arith)
                            requires acc > l, l == m / (radix as int), m == u64::MAX - d, radix > 0, d < radix;
                        if digits_value(body, radix as nat) is Some {
                            lemma_prefix_value_bounded(body, radix as nat, j + 1 - i);
                        }
                    }
                    return None;
                }
                proof {
                    let l = lim as int;
                    let m = (u64::MAX - d) as int;
                    assert(acc * radix + d <= u64::MAX) by (nonlinear_arith)
                        requires acc <= l, l == m / (radix as int), m == u64::MAX - d, radix > 0, d < radix;
                }
                acc = acc * radix + d;
            },
        }
        j = j + 1;
    }
    assert(body.take(n - i) =~= body);
    Some(acc)
}

/// Parses a seed: `0x`/`0X` followed by hexadecimal digits, or decimal digits;
/// either may start with a `+`. Fails when malformed or beyond `u64::MAX`.
pub fn parse_seed(s: &str) -> (r: Result<u64, SeedError>)
    ensures
        r matches Ok(v) ==> seed_value(s@) == Some(v as nat),
        r is Err <==> seed_value(s@) is None,
        r == Err::<u64, SeedError>(SeedError::InvalidHex) <==> (has_hex_prefix(s@) && seed_value(s@) is None),
{
    let n = s.unicode_len();
    if n >= 2 && s.get_char(0) == '0' && (s.get_char(1) == 'x' || s.get_char(1) == 'X') {
        match parse_unsigned(s, 2, 16) {
            Some(v) => Ok(v),
            None => Err(SeedError::InvalidHex),
        }
    } else {
        match parse_unsigned(s, 0, 10) {
            Some(v) => {
                assert(s@.skip(0) =~= s@);
                Ok(v)
            },
            None => {
                assert(s@.skip(0) =~= s@);
                Err(SeedError::InvalidDecimal)
            },
        }
    }
}

} // verus!
