//! Integers as text, and which integers a double precision number holds
//! exactly.

use crate::error::MyError;
use vstd::prelude::*;

verus! {

/// The largest integer below which every integer is held exactly by a
/// double precision number (its mantissa has 53 bits): `2^53 - 1`.
pub const MAX_EXACT: u64 = 9007199254740991;

/// The decimal digit character of a value below ten.
pub open spec fn digit_char(d: nat) -> char {
    if d == 0 {
        '0'
    } else if d == 1 {
        '1'
    } else if d == 2 {
        '2'
    } else if d == 3 {
        '3'
    } else if d == 4 {
        '4'
    } else if d == 5 {
        '5'
    } else if d == 6 {
        '6'
    } else if d == 7 {
        '7'
    } else if d == 8 {
        '8'
    } else {
        '9'
    }
}

/// The value of a decimal digit character.
pub open spec fn digit_value(c: char) -> nat {
    (c as u32 - '0' as u32) as nat
}

/// The decimal rendering of a natural number, without leading zeros.
pub open spec fn decimal(n: nat) -> Seq<char>
    decreases n,
{
    if n < 10 {
        seq![digit_char(n)]
    } else {
        decimal(n / 10) + seq![digit_char(n % 10)]
    }
}

/// The decimal rendering of an integer: a minus sign before negative ones.
pub open spec fn signed_decimal(n: int) -> Seq<char> {
    if n < 0 {
        seq!['-'] + decimal((-n) as nat)
    } else {
        decimal(n as nat)
    }
}

fn digit_of(d: u128) -> (r: char)
    requires
        d < 10,
    ensures
        r == digit_char(d as nat),
{
    if d == 0 {
        '0'
    } else if d == 1 {
        '1'
    } else if d == 2 {
        '2'
    } else if d == 3 {
        '3'
    } else if d == 4 {
        '4'
    } else if d == 5 {
        '5'
    } else if d == 6 {
        '6'
    } else if d == 7 {
        '7'
    } else if d == 8 {
        '8'
    } else {
        '9'
    }
}

/// The decimal digits of `n`.
pub fn decimal_digits(n: u128) -> (r: Vec<char>)
    ensures
        r@ == decimal(n as nat),
    decreases n,
{
    if n < 10 {
        let mut v = Vec::new();
        v.push(digit_of(n));
        v
    } else {
        let mut v = decimal_digits(n / 10);
        v.push(digit_of(n % 10));
        v
    }
}

/// The decimal rendering of an unsigned integer.
pub fn u128_text(n: u128) -> (r: String)
    ensures
        r@ == decimal(n as nat),
{
    let v = decimal_digits(n);
    crate::unicode::string_of(&v)
}

/// The decimal rendering of a signed integer.
pub fn i128_text(n: i128) -> (r: String)
    ensures
        r@ == signed_decimal(n as int),
{
    if n < 0 {
        let m: u128 = if n == i128::MIN {
            170141183460469231731687303715884105728u128
        } else {
            (-n) as u128
        };
        let mut v = Vec::new();
        v.push('-');
        let mut d = decimal_digits(m);
        v.append(&mut d);
        crate::unicode::string_of(&v)
    } else {
        u128_text(n as u128)
    }
}

/// Check that an unsigned integer is held exactly by a double precision
/// number (at most `2^53 - 1`); otherwise a loss-of-precision error that
/// holds the integer's decimal rendering.
pub fn exact_unsigned(value: u128) -> (r: Result<u128, MyError>)
    ensures
        value <= MAX_EXACT ==> r == Ok::<u128, MyError>(value),
        value > MAX_EXACT ==> (r matches Err(MyError::PrecisionLoss(t)) && t@ == decimal(
            value as nat,
        )),
{
    if value <= 9007199254740991u128 {
        Ok(value)
    } else {
        Err(MyError::PrecisionLoss(u128_text(value)))
    }
}

/// Check that a signed integer is held exactly by a double precision
/// number (between `-(2^53 - 1)` and `2^53 - 1`); otherwise a
/// loss-of-precision error that holds the integer's decimal rendering.
pub fn exact_signed(value: i128) -> (r: Result<i128, MyError>)
    ensures
        -MAX_EXACT <= value <= MAX_EXACT ==> r == Ok::<i128, MyError>(value),
        !(-MAX_EXACT <= value <= MAX_EXACT) ==> (r matches Err(MyError::PrecisionLoss(t))
            && t@ == signed_decimal(value as int)),
{
    if -9007199254740991i128 <= value && value <= 9007199254740991i128 {
        Ok(value)
    } else {
        Err(MyError::PrecisionLoss(i128_text(value)))
    }
}

/// The value of a run of decimal digits.
pub open spec fn digits_value(s: Seq<char>) -> nat
    decreases s.len(),
{
    if s.len() == 0 {
        0
    } else {
        digits_value(s.drop_last()) * 10 + digit_value(s.last())
    }
}

/// Whether every character of `s` is a decimal digit.
pub open spec fn all_digits(s: Seq<char>) -> bool {
    forall|k: int| 0 <= k < s.len() ==> '0' <= #[trigger] s[k] && s[k] <= '9'
}

/// The unsigned integer that `str::parse` reads from `s`: an optional `+`
/// sign followed by at least one decimal digit; `None` otherwise.
pub open spec fn parsed_unsigned(s: Seq<char>) -> Option<nat> {
    let body = if s.len() > 0 && s[0] == '+' {
        s.skip(1)
    } else {
        s
    };
    if body.len() > 0 && all_digits(body) {
        Some(digits_value(body))
    } else {
        None
    }
}

/// Parse an unsigned integer no larger than `max` the way `str::parse`
/// does for unsigned integer types: an optional `+`, then decimal digits.
pub fn parse_unsigned(s: &str, max: u64) -> (r: Option<u64>)
    ensures
        r matches Some(n) ==> parsed_unsigned(s@) == Some(n as nat) && n <= max,
        r is None ==> (parsed_unsigned(s@) is None || parsed_unsigned(s@).unwrap() > max),
{
    let v = crate::unicode::chars_of(s);
    let start: usize = if v.len() > 0 && v[0] == '+' {
        1
    } else {
        0
    };
    let ghost body = if s@.len() > 0 && s@[0] == '+' {
        s@.skip(1)
    } else {
        s@
    };
    assert(body == v@.skip(start as int));
    if start >= v.len() {
        return None;
    }
    let mut acc: u64 = 0;
    let mut i: usize = start;
    while i < v.len()
        invariant
            start <= i <= v.len(),
            start < v.len(),
            v@ == s@,
            body == v@.skip(start as int),
            body == (if s@.len() > 0 && s@[0] == '+' {
                s@.skip(1)
            } else {
                s@
            }),
            all_digits(v@.subrange(start as int, i as int)),
            acc as nat == digits_value(v@.subrange(start as int, i as int)),
            acc <= max,
        decreases v.len() - i,
    {
        let c = v[i];
        assert(v@.subrange(start as int, i + 1).drop_last() == v@.subrange(start as int, i as int));
        if !('0' <= c && c <= '9') {
            assert(body[i - start] == c);
            assert(!all_digits(body));
            return None;
        }
        let d = (c as u32 - '0' as u32) as u64;
        if d > max || acc > (max - d) / 10 {
            assert(acc * 10 + d > max) by (nonlinear_arith)
                requires
                    d > max || acc > (max - d) / 10,
                    d < 10,
            ;
            assert(digits_value(v@.subrange(start as int, i + 1)) == acc * 10 + d);
            proof {
                assert(body.take((i + 1 - start) as int) == v@.subrange(start as int, i + 1));
                if all_digits(body) {
                    lemma_digits_prefix_bound(body, (i + 1 - start) as int);
                }
            }
            return None;
        }
        acc = acc * 10 + d;
        i = i + 1;
    }
    assert(v@.subrange(start as int, v.len() as int) == body);
    Some(acc)
}

/// The value of a run of digits is at least the value of any of its
/// prefixes.
proof fn lemma_digits_prefix_bound(s: Seq<char>, n: int)
    requires
        0 <= n <= s.len(),
        all_digits(s),
    ensures
        digits_value(s) >= digits_value(s.take(n)),
    decreases s.len(),
{
    if n < s.len() {
        assert(s.drop_last().take(n) == s.take(n));
        assert(all_digits(s.drop_last()));
        lemma_digits_prefix_bound(s.drop_last(), n);
    } else {
        assert(s.take(n) == s);
    }
}

} // verus!
