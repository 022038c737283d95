//! Parsing of threshold strings.
//!
//! An error threshold string either ends in `%` — its prefix is then a
//! decimal number of percent, held exactly as a fraction — or is a plain
//! non-negative integer pixel count. A channel threshold string is a decimal
//! in `[0, 1]`, scaled by 255 and truncated. The accepted decimal grammar is
//! digits, optionally a single `.`, and further digits, with at least one
//! digit in all.

use vstd::prelude::*;
use crate::threshold::ErrorThreshold;

verus! {

/// Why a threshold string was rejected: it does not fit the grammar, or its
/// value cannot be represented.
#[derive(Clone, Copy, Debug, PartialEq, Eq, Structural)]
pub enum ParseError {
    Malformed,
    OutOfRange,
}

/// A decimal digit; 48 and 57 are the code points of '0' and '9'.
pub open spec fn is_digit_char(c: char) -> bool {
    48 <= c as int && c as int <= 57
}

/// The numeric value of a digit character.
pub open spec fn digit_val(c: char) -> int {
    c as int - 48
}

pub open spec fn all_digits(s: Seq<char>) -> bool {
    forall|i: int| 0 <= i < s.len() ==> is_digit_char(#[trigger] s[i])
}

/// The value of a digit string, most significant digit first; 0 when empty.
pub open spec fn digits_val(s: Seq<char>) -> int
    decreases s.len(),
{
    if s.len() == 0 {
        0
    } else {
        digits_val(s.drop_last()) * 10 + digit_val(s.last())
    }
}

/// The n-th power of ten.
pub open spec fn pow10(n: nat) -> int
    decreases n,
{
    if n == 0 {
        1
    } else {
        10 * pow10((n - 1) as nat)
    }
}

/// The index of the first '.', or the length when there is none.
pub open spec fn dot_index(s: Seq<char>) -> int
    decreases s.len(),
{
    if s.len() == 0 {
        0
    } else if s[0] == '.' {
        0
    } else {
        1 + dot_index(s.skip(1))
    }
}

/// The digits before the '.' (or the whole string without one).
pub open spec fn int_part(s: Seq<char>) -> Seq<char> {
    s.take(dot_index(s))
}

/// The digits after the '.'; empty without one.
pub open spec fn frac_part(s: Seq<char>) -> Seq<char> {
    if dot_index(s) < s.len() {
        s.skip(dot_index(s) + 1)
    } else {
        Seq::empty()
    }
}

/// The decimal grammar: digits around at most one '.', at least one digit.
pub open spec fn valid_decimal(s: Seq<char>) -> bool {
    &&& all_digits(int_part(s))
    &&& all_digits(frac_part(s))
    &&& int_part(s).len() + frac_part(s).len() > 0
}

/// The numerator of the exact value of a decimal string: the value of its
/// digits with the '.' removed. The string's value is `num / den`.
pub open spec fn decimal_num(s: Seq<char>) -> int {
    digits_val(int_part(s)) * pow10(frac_part(s).len()) + digits_val(frac_part(s))
}

/// The denominator of the exact value of a decimal string: ten to the number
/// of fractional digits.
pub open spec fn decimal_den(s: Seq<char>) -> int {
    pow10(frac_part(s).len())
}

proof fn lemma_digits_val_nonneg(s: Seq<char>)
    requires
        all_digits(s),
    ensures
        digits_val(s) >= 0,
    decreases s.len(),
{
    if s.len() > 0 {
        lemma_digits_val_nonneg(s.drop_last());
        vstd::arithmetic::mul::lemma_mul_nonnegative(digits_val(s.drop_last()), 10);
    }
}

/// Every prefix of a digit string has a value no larger than the whole.
proof fn lemma_digits_val_take_le(s: Seq<char>, n: int)
    requires
        all_digits(s),
        0 <= n <= s.len(),
    ensures
        digits_val(s.take(n)) <= digits_val(s),
    decreases s.len(),
{
    if n == s.len() {
        assert(s.take(n) =~= s);
    } else {
        assert(s.drop_last().take(n) =~= s.take(n));
        lemma_digits_val_take_le(s.drop_last(), n);
        lemma_digits_val_nonneg(s.drop_last());
        vstd::arithmetic::mul::lemma_mul_inequality(1, 10, digits_val(s.drop_last()));
    }
}

proof fn lemma_pow10_pos(n: nat)
    ensures
        pow10(n) >= 1,
    decreases n,
{
    if n > 0 {
        lemma_pow10_pos((n - 1) as nat);
    }
}

proof fn lemma_pow10_le(m: nat, n: nat)
    requires
        m <= n,
    ensures
        pow10(m) <= pow10(n),
    decreases n,
{
    if m < n {
        lemma_pow10_le(m, (n - 1) as nat);
        lemma_pow10_pos((n - 1) as nat);
    }
}

proof fn lemma_dot_index_bounds(s: Seq<char>)
    ensures
        0 <= dot_index(s) <= s.len(),
        dot_index(s) < s.len() ==> s[dot_index(s)] == '.',
        forall|i: int| 0 <= i < dot_index(s) ==> s[i] != '.',
    decreases s.len(),
{
    if s.len() > 0 && s[0] != '.' {
        lemma_dot_index_bounds(s.skip(1));
        assert forall|i: int| 0 <= i < dot_index(s) implies s[i] != '.' by {
            if i > 0 {
                assert(s.skip(1)[i - 1] == s[i]);
            }
        }
    }
}

/// An index with no '.' before it, and a '.' at it or the string's end,
/// is the first-dot index.
proof fn lemma_dot_index_determined(s: Seq<char>, d: int)
    requires
        0 <= d <= s.len(),
        d < s.len() ==> s[d] == '.',
        forall|i: int| 0 <= i < d ==> s[i] != '.',
    ensures
        dot_index(s) == d,
    decreases s.len(),
{
    if d == 0 {
    } else {
        lemma_dot_index_determined(s.skip(1), d - 1);
    }
}

/// Whether every character in `s[from..to]` is a decimal digit.
fn check_digits_range(s: &str, from: usize, to: usize) -> (r: bool)
    requires
        from <= to <= s@.len(),
    ensures
        r == all_digits(s@.subrange(from as int, to as int)),
{
    let mut i = from;
    while i < to
        invariant
            from <= i <= to <= s@.len(),
            forall|j: int| from <= j < i ==> is_digit_char(#[trigger] s@[j]),
        decreases to - i,
    {
        let c = s.get_char(i);
        let cv = c as u32;
        if cv < 48 || cv > 57 {
            assert(!all_digits(s@.subrange(from as int, to as int))) by {
                assert(s@.subrange(from as int, to as int)[i - from] == s@[i as int]);
            }
            return false;
        }
        i = i + 1;
    }
    assert forall|k: int| 0 <= k < to - from implies is_digit_char(
        #[trigger] s@.subrange(from as int, to as int)[k],
    ) by {
        assert(s@.subrange(from as int, to as int)[k] == s@[from + k]);
    }
    true
}

/// The value of the digit run `s[from..to]`; `None` exactly when it does not
/// fit in a `u64`.
fn digits_value_range(s: &str, from: usize, to: usize) -> (r: Option<u64>)
    requires
        from <= to <= s@.len(),
        all_digits(s@.subrange(from as int, to as int)),
    ensures
        r is Some <==> digits_val(s@.subrange(from as int, to as int)) <= u64::MAX,
        r matches Some(v) ==> v == digits_val(s@.subrange(from as int, to as int)),
{
    let ghost sub = s@.subrange(from as int, to as int);
    let mut acc: u64 = 0;
    let mut i = from;
    while i < to
        invariant
            from <= i <= to <= s@.len(),
            all_digits(sub),
            sub == s@.subrange(from as int, to as int),
            acc == digits_val(s@.subrange(from as int, i as int)),
        decreases to - i,
    {
        proof {
            assert(sub[i - from] == s@[i as int]);
        }
        let c = s.get_char(i);
        let d: u64 = (c as u32 - 48) as u64;
        proof {
            vstd::arithmetic::div_mod::lemma_fundamental_div_mod(
                (u64::MAX - d) as int, 10);
            assert(s@.subrange(from as int, i + 1).drop_last()
                =~= s@.subrange(from as int, i as int));
            assert(s@.subrange(from as int, i + 1).last() == s@[i as int]);
        }
        if acc > (u64::MAX - d) / 10 {
            proof {
                assert(digits_val(s@.subrange(from as int, i + 1)) > u64::MAX);
                assert(s@.subrange(from as int, i + 1) =~= sub.take(i + 1 - from));
                lemma_digits_val_take_le(sub, i + 1 - from);
            }
            return None;
        }
        acc = acc * 10 + d;
        i = i + 1;
    }
    proof {
        assert(s@.subrange(from as int, i as int) =~= sub);
    }
    Some(acc)
}

/// The index of the first '.' in `s`, or `n` when there is none.
fn find_dot(s: &str, n: usize) -> (d: usize)
    requires
        n == s@.len(),
    ensures
        d == dot_index(s@),
        d <= n,
{
    let mut i: usize = 0;
    while i < n
        invariant
            i <= n == s@.len(),
            forall|j: int| 0 <= j < i ==> s@[j] != '.',
        decreases n - i,
    {
        let c = s.get_char(i);
        if c == '.' {
            proof {
                lemma_dot_index_determined(s@, i as int);
            }
            return i;
        }
        i = i + 1;
    }
    proof {
        lemma_dot_index_determined(s@, n as int);
    }
    n
}

/// Ten to the `e`-th power; `None` exactly when it does not fit in a `u64`.
fn pow10_checked(e: usize) -> (r: Option<u64>)
    ensures
        r is Some <==> pow10(e as nat) <= u64::MAX,
        r matches Some(v) ==> v == pow10(e as nat),
{
    let mut acc: u64 = 1;
    let mut k: usize = 0;
    while k < e
        invariant
            k <= e,
            acc == pow10(k as nat),
        decreases e - k,
    {
        if acc > u64::MAX / 10 {
            proof {
                lemma_pow10_le((k + 1) as nat, e as nat);
            }
            return None;
        }
        acc = acc * 10;
        k = k + 1;
    }
    Some(acc)
}

/// Parses a decimal string into the exact fraction `num / den` it denotes.
///
/// `Malformed` exactly when the string is not digits around at most one '.'
/// with at least one digit; `OutOfRange` exactly when the numerator or the
/// denominator does not fit in a `u64`.
pub fn parse_decimal(s: &str) -> (r: Result<(u64, u64), ParseError>)
    ensures
        r matches Ok(p) ==> valid_decimal(s@) && p.0 == decimal_num(s@) && p.1 == decimal_den(
            s@,
        ) && 1 <= p.1,
        r == Err::<(u64, u64), ParseError>(ParseError::Malformed) <==> !valid_decimal(s@),
        r == Err::<(u64, u64), ParseError>(ParseError::OutOfRange) <==> valid_decimal(s@) && !(
        decimal_num(s@) <= u64::MAX && decimal_den(s@) <= u64::MAX),
{
    let n = s.unicode_len();
    let d = find_dot(s, n);
    proof {
        lemma_dot_index_bounds(s@);
    }
    let frac_from = if d < n {
        d + 1
    } else {
        n
    };
    proof {
        assert(int_part(s@) =~= s@.subrange(0, d as int));
        assert(frac_part(s@) =~= s@.subrange(frac_from as int, n as int));
    }
    let int_ok = check_digits_range(s, 0, d);
    let frac_ok = check_digits_range(s, frac_from, n);
    let has_digit = d > 0 || frac_from < n;
    if !int_ok || !frac_ok || !has_digit {
        return Err(ParseError::Malformed);
    }
    let fl = n - frac_from;
    let den = match pow10_checked(fl) {
        Some(v) => v,
        None => {
            return Err(ParseError::OutOfRange);
        },
    };
    proof {
        lemma_pow10_pos(fl as nat);
        lemma_digits_val_nonneg(int_part(s@));
        lemma_digits_val_nonneg(frac_part(s@));
        vstd::arithmetic::mul::lemma_mul_nonnegative(
            digits_val(int_part(s@)), decimal_den(s@));
    }
    let int_val = match digits_value_range(s, 0, d) {
        Some(v) => v,
        None => {
            proof {
                vstd::arithmetic::mul::lemma_mul_inequality(
                    1, decimal_den(s@), digits_val(int_part(s@)));
            }
            return Err(ParseError::OutOfRange);
        },
    };
    let frac_val = match digits_value_range(s, frac_from, n) {
        Some(v) => v,
        None => {
            return Err(ParseError::OutOfRange);
        },
    };
    if int_val > u64::MAX / den {
        proof {
            vstd::arithmetic::div_mod::lemma_fundamental_div_mod(u64::MAX as int, den as int);
            vstd::arithmetic::mul::lemma_mul_is_distributive_add_other_way(
                den as int, (u64::MAX / den) as int, 1);
            vstd::arithmetic::mul::lemma_mul_inequality(
                (u64::MAX / den + 1) as int, int_val as int, den as int);
        }
        return Err(ParseError::OutOfRange);
    }
    proof {
        vstd::arithmetic::div_mod::lemma_fundamental_div_mod(u64::MAX as int, den as int);
        vstd::arithmetic::mul::lemma_mul_inequality(
            int_val as int, (u64::MAX / den) as int, den as int);
    }
    let shifted = int_val * den;
    if frac_val > u64::MAX - shifted {
        return Err(ParseError::OutOfRange);
    }
    Ok((shifted + frac_val, den))
}

/// A threshold string names a ratio when it ends in '%'.
pub open spec fn is_ratio_form(s: Seq<char>) -> bool {
    s.len() > 0 && s.last() == '%'
}

/// Parses an error threshold string.
///
/// A string ending in '%' is a percentage: its prefix is read as a decimal,
/// divided by 100, and must denote a ratio in `[0, 1]` whose denominator
/// fits in a `u64`. Any other string is an absolute pixel count in `u32`
/// range. `Malformed` reports a grammar violation, `OutOfRange` a value
/// that cannot be represented.
pub fn parse_error_threshold(s: &str) -> (r: Result<ErrorThreshold, ParseError>)
    ensures
        r matches Ok(th) ==> th.wf(),
        is_ratio_form(s@) ==> {
            let body = s@.drop_last();
            &&& (r matches Ok(th) ==> th == (ErrorThreshold::Ratio {
                num: decimal_num(body) as u64,
                den: (100 * decimal_den(body)) as u64,
            }))
            &&& (r == Err::<ErrorThreshold, ParseError>(ParseError::Malformed) <==> !valid_decimal(body))
            &&& (r == Err::<ErrorThreshold, ParseError>(ParseError::OutOfRange) <==> valid_decimal(body)
                && !(decimal_num(body) <= 100 * decimal_den(body)
                    && 100 * decimal_den(body) <= u64::MAX))
        },
        !is_ratio_form(s@) ==> {
            &&& (r matches Ok(th) ==> th == ErrorThreshold::Absolute(digits_val(s@) as u32))
            &&& (r == Err::<ErrorThreshold, ParseError>(ParseError::Malformed) <==> !(all_digits(s@)
                && s@.len() > 0))
            &&& (r == Err::<ErrorThreshold, ParseError>(ParseError::OutOfRange) <==> all_digits(s@)
                && s@.len() > 0 && digits_val(s@) > u32::MAX)
        },
{
    let n = s.unicode_len();
    if n > 0 && s.get_char(n - 1) == '%' {
        let body = s.substring_char(0, n - 1);
        proof {
            assert(body@ =~= s@.drop_last());
        }
        let (num, den) = match parse_decimal(body) {
            Ok(p) => p,
            Err(e) => {
                return Err(e);
            },
        };
        if den > u64::MAX / 100 {
            return Err(ParseError::OutOfRange);
        }
        let den100 = den * 100;
        if num > den100 {
            return Err(ParseError::OutOfRange);
        }
        Ok(ErrorThreshold::Ratio { num, den: den100 })
    } else {
        proof {
            assert(s@.subrange(0, n as int) =~= s@);
        }
        if n == 0 {
            return Err(ParseError::Malformed);
        }
        if !check_digits_range(s, 0, n) {
            return Err(ParseError::Malformed);
        }
        let v = match digits_value_range(s, 0, n) {
            Some(v) => v,
            None => {
                return Err(ParseError::OutOfRange);
            },
        };
        if v > u32::MAX as u64 {
            return Err(ParseError::OutOfRange);
        }
        Ok(ErrorThreshold::Absolute(v as u32))
    }
}

/// Parses the per-channel threshold: a decimal in `[0, 1]`, scaled by 255
/// and truncated toward zero.
pub fn parse_channel_threshold(s: &str) -> (r: Result<u8, ParseError>)
    ensures
        r matches Ok(v) ==> valid_decimal(s@) && decimal_num(s@) <= decimal_den(s@) && v == 255
            * decimal_num(s@) / decimal_den(s@),
        r == Err::<u8, ParseError>(ParseError::Malformed) <==> !valid_decimal(s@),
        r == Err::<u8, ParseError>(ParseError::OutOfRange) <==> valid_decimal(s@) && !(
        decimal_num(s@) <= decimal_den(s@) && decimal_den(s@) <= u64::MAX),
{
    let (num, den) = match parse_decimal(s) {
        Ok(p) => p,
        Err(e) => {
            return Err(e);
        },
    };
    if num > den {
        return Err(ParseError::OutOfRange);
    }
    proof {
        vstd::arithmetic::mul::lemma_mul_upper_bound(
            255, 255, num as int, u64::MAX as int);
        vstd::arithmetic::mul::lemma_mul_nonnegative(255, num as int);
        vstd::arithmetic::mul::lemma_mul_inequality(num as int, den as int, 255);
        vstd::arithmetic::div_mod::lemma_div_is_ordered(
            255 * (num as int), 255 * (den as int), den as int);
        vstd::arithmetic::div_mod::lemma_div_multiples_vanish(255, den as int);
        vstd::arithmetic::div_mod::lemma_div_pos_is_pos(255 * (num as int), den as int);
    }
    let v: u128 = 255u128 * (num as u128) / (den as u128);
    Ok(v as u8)
}

} // verus!
