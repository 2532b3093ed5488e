//! Turning text into values: integers in base ten, booleans and strings.

use vstd::prelude::*;

use crate::log::rolling::lemma_decimal_digits;
use crate::text::{all_digits, decimal, digit_value, digits_value, is_digit, lemma_digits_value_prefix, push_str, signed_decimal, str_chars};
use super::core_types::ParserError;

verus! {

/// The integer `s` spells: an optional sign ('-' only when `signed`) and at least one
/// decimal digit, within `min..=max`.
pub open spec fn spec_parse_integer(s: Seq<char>, signed: bool, min: int, max: int) -> Option<int> {
    let neg = signed && s.len() > 0 && s[0] == '-';
    let body = if s.len() > 0 && (s[0] == '+' || neg) {
        s.drop_first()
    } else {
        s
    };
    if body.len() == 0 || !all_digits(body) {
        None
    } else {
        let v = if neg {
            -(digits_value(body) as int)
        } else {
            digits_value(body) as int
        };
        if min <= v <= max {
            Some(v)
        } else {
            None
        }
    }
}

/// Why a text is not an integer of the target type.
pub enum IntErrorKind {
    Empty,
    InvalidDigit,
    PosOverflow,
    NegOverflow,
}

impl IntErrorKind {
    /// The explanation of the failure, as `core::num::IntErrorKind`'s are written.
    pub open spec fn spec_describe(&self) -> Seq<char> {
        match self {
            IntErrorKind::Empty => "cannot parse integer from empty string"@,
            IntErrorKind::InvalidDigit => "invalid digit found in string"@,
            IntErrorKind::PosOverflow => "number too large to fit in target type"@,
            IntErrorKind::NegOverflow => "number too small to fit in target type"@,
        }
    }

    /// The explanation of the failure.
    pub fn describe(&self) -> (s: &'static str)
        ensures
            s@ == self.spec_describe(),
    {
        match self {
            IntErrorKind::Empty => "cannot parse integer from empty string",
            IntErrorKind::InvalidDigit => "invalid digit found in string",
            IntErrorKind::PosOverflow => "number too large to fit in target type",
            IntErrorKind::NegOverflow => "number too small to fit in target type",
        }
    }
}

/// Reads `s` as an integer: the sign and the magnitude, the magnitude at most
/// `max_neg` when negative and at most `max_pos` otherwise.
pub fn parse_integer(s: &Vec<char>, signed: bool, max_pos: u128, max_neg: u128) -> (r: Result<(bool, u128), IntErrorKind>)
    ensures
        match r {
            Ok((neg, mag)) => {
                &&& spec_parse_integer(s@, signed, -(max_neg as int), max_pos as int) == Some(
                    if neg { -(mag as int) } else { mag as int },
                )
                &&& (neg ==> signed && mag <= max_neg)
                &&& (!neg ==> mag <= max_pos)
            },
            Err(_) => spec_parse_integer(s@, signed, -(max_neg as int), max_pos as int) is None,
        },
{
    let n = s.len();
    if n == 0 {
        return Err(IntErrorKind::Empty);
    }
    let first = s[0];
    if (first == '+' || first == '-') && n == 1 {
        return Err(IntErrorKind::InvalidDigit);
    }
    let neg = signed && first == '-';
    let start: usize = if first == '+' || neg { 1 } else { 0 };
    let limit: u128 = if neg { max_neg } else { max_pos };
    let ghost body = if s@.len() > 0 && (s@[0] == '+' || neg) { s@.drop_first() } else { s@ };
    proof {
        assert(body =~= s@.subrange(start as int, n as int));
        assert(body.take(0) =~= Seq::<char>::empty());
    }
    let mut mag: u128 = 0;
    let mut i: usize = start;
    while i < n
        invariant
            n == s@.len(),
            n > 0,
            neg == (signed && s@[0] == '-'),
            limit == (if neg { max_neg } else { max_pos }),
            body == (if s@.len() > 0 && (s@[0] == '+' || neg) { s@.drop_first() } else { s@ }),
            start <= i <= n,
            body =~= s@.subrange(start as int, n as int),
            all_digits(body.take(i - start)),
            mag == digits_value(body.take(i - start)),
            mag <= limit,
        decreases n - i,
    {
        let c = s[i];
        let ghost k = i - start;
        if !('0' <= c && c <= '9') {
            proof {
                assert(body[k] == c);
                assert(!is_digit(body[k]));
                assert(!all_digits(body));
                assert(spec_parse_integer(s@, signed, -(max_neg as int), max_pos as int) is None);
            }
            return Err(IntErrorKind::InvalidDigit);
        }
        let d: u128 = (c as u32 - '0' as u32) as u128;
        proof {
            assert(body.take(k + 1).drop_last() =~= body.take(k));
            assert(body.take(k + 1).last() == c);
            assert(d == digit_value(c));
        }
        if d > limit || mag > (limit - d) / 10 {
            proof {
                if d <= limit {
                    assert(mag * 10 + d > limit) by (nonlinear_arith)
                        requires
                            mag > (limit - d) / 10,
                            d <= limit,
                    ;
                }
            }
            proof {
                assert(digits_value(body.take(k + 1)) == mag * 10 + d);
                if all_digits(body) {
                    lemma_digits_value_prefix(body, k + 1);
                    assert(digits_value(body) > limit);
                }
                assert(spec_parse_integer(s@, signed, -(max_neg as int), max_pos as int) is None);
            }
            if neg {
                return Err(IntErrorKind::NegOverflow);
            } else {
                return Err(IntErrorKind::PosOverflow);
            }
        }
        proof {
            assert(mag * 10 + d <= limit) by (nonlinear_arith)
                requires
                    mag <= (limit - d) / 10,
                    d <= limit,
            ;
            assert forall|t: int| 0 <= t < k + 1 implies is_digit(#[trigger] body.take(k + 1)[t]) by {
                if t < k {
                    assert(body.take(k + 1)[t] == body.take(k)[t]);
                }
            }
        }
        mag = mag * 10 + d;
        i += 1;
    }
    proof {
        assert(body.take(n - start) =~= body);
    }
    Ok((neg, mag))
}

/// A type whose values can be read from text.
pub trait ParseValue: Sized + View {
    /// The value `s` spells, if any.
    spec fn spec_parse_value(s: Seq<char>) -> Option<Self::V>;

    /// Reads a value from `s`.
    fn parse_value(s: &str) -> (r: Result<Self, ParserError>)
        ensures
            match r {
                Ok(v) => Self::spec_parse_value(s@) == Some(v@),
                Err(_) => Self::spec_parse_value(s@) is None,
            },
    ;
}

impl ParseValue for String {
    open spec fn spec_parse_value(s: Seq<char>) -> Option<Seq<char>> {
        Some(s)
    }

    fn parse_value(s: &str) -> (r: Result<Self, ParserError>) {
        Ok(s.to_owned())
    }
}

impl ParseValue for bool {
    open spec fn spec_parse_value(s: Seq<char>) -> Option<bool> {
        if s == "true"@ {
            Some(true)
        } else if s == "false"@ {
            Some(false)
        } else {
            None
        }
    }

    fn parse_value(s: &str) -> (r: Result<Self, ParserError>) {
        let cs = str_chars(s);
        proof {
            reveal_strlit("true");
            reveal_strlit("false");
        }
        if cs.len() == 4 && cs[0] == 't' && cs[1] == 'r' && cs[2] == 'u' && cs[3] == 'e' {
            proof { assert(cs@ =~= "true"@); }
            Ok(true)
        } else if cs.len() == 5 && cs[0] == 'f' && cs[1] == 'a' && cs[2] == 'l' && cs[3] == 's' && cs[4] == 'e' {
            proof { assert(cs@ =~= "false"@); }
            Ok(false)
        } else {
            proof {
                if s@ == "true"@ {
                    assert(cs@[0] == 't' && cs@[1] == 'r' && cs@[2] == 'u' && cs@[3] == 'e');
                }
                if s@ == "false"@ {
                    assert(cs@[0] == 'f' && cs@[1] == 'a' && cs@[2] == 'l' && cs@[3] == 's' && cs@[4] == 'e');
                }
            }
            Err(parse_failure("bool", s, "provided string was not `true` or `false`"))
        }
    }
}

impl ParseValue for i8 {
    open spec fn spec_parse_value(s: Seq<char>) -> Option<i8> {
        match spec_parse_integer(s, true, i8::MIN as int, i8::MAX as int) {
            Some(v) => Some(v as i8),
            None => None,
        }
    }

    fn parse_value(s: &str) -> (r: Result<Self, ParserError>) {
        let cs = str_chars(s);
        match parse_integer(&cs, true, 127, 128) {
            Ok((neg, mag)) => {
                if neg {
                    Ok((0i128 - mag as i128) as i8)
                } else {
                    Ok(mag as i8)
                }
            },
            Err(kind) => Err(parse_failure("i8", s, kind.describe())),
        }
    }
}

impl ParseValue for i16 {
    open spec fn spec_parse_value(s: Seq<char>) -> Option<i16> {
        match spec_parse_integer(s, true, i16::MIN as int, i16::MAX as int) {
            Some(v) => Some(v as i16),
            None => None,
        }
    }

    fn parse_value(s: &str) -> (r: Result<Self, ParserError>) {
        let cs = str_chars(s);
        match parse_integer(&cs, true, 32767, 32768) {
            Ok((neg, mag)) => {
                if neg {
                    Ok((0i128 - mag as i128) as i16)
                } else {
                    Ok(mag as i16)
                }
            },
            Err(kind) => Err(parse_failure("i16", s, kind.describe())),
        }
    }
}

impl ParseValue for i32 {
    open spec fn spec_parse_value(s: Seq<char>) -> Option<i32> {
        match spec_parse_integer(s, true, i32::MIN as int, i32::MAX as int) {
            Some(v) => Some(v as i32),
            None => None,
        }
    }

    fn parse_value(s: &str) -> (r: Result<Self, ParserError>) {
        let cs = str_chars(s);
        match parse_integer(&cs, true, 2147483647, 2147483648) {
            Ok((neg, mag)) => {
                if neg {
                    Ok((0i128 - mag as i128) as i32)
                } else {
                    Ok(mag as i32)
                }
            },
            Err(kind) => Err(parse_failure("i32", s, kind.describe())),
        }
    }
}

impl ParseValue for i64 {
    open spec fn spec_parse_value(s: Seq<char>) -> Option<i64> {
        match spec_parse_integer(s, true, i64::MIN as int, i64::MAX as int) {
            Some(v) => Some(v as i64),
            None => None,
        }
    }

    fn parse_value(s: &str) -> (r: Result<Self, ParserError>) {
        let cs = str_chars(s);
        match parse_integer(&cs, true, 9223372036854775807, 9223372036854775808) {
            Ok((neg, mag)) => {
                if neg {
                    Ok((0i128 - mag as i128) as i64)
                } else {
                    Ok(mag as i64)
                }
            },
            Err(kind) => Err(parse_failure("i64", s, kind.describe())),
        }
    }
}

impl ParseValue for i128 {
    open spec fn spec_parse_value(s: Seq<char>) -> Option<i128> {
        match spec_parse_integer(s, true, i128::MIN as int, i128::MAX as int) {
            Some(v) => Some(v as i128),
            None => None,
        }
    }

    fn parse_value(s: &str) -> (r: Result<Self, ParserError>) {
        let cs = str_chars(s);
        match parse_integer(&cs, true, 170141183460469231731687303715884105727, 170141183460469231731687303715884105728) {
            Ok((neg, mag)) => {
                if neg {
                    Ok(neg_i128(mag))
                } else {
                    Ok(mag as i128)
                }
            },
            Err(kind) => Err(parse_failure("i128", s, kind.describe())),
        }
    }
}

impl ParseValue for u8 {
    open spec fn spec_parse_value(s: Seq<char>) -> Option<u8> {
        match spec_parse_integer(s, false, u8::MIN as int, u8::MAX as int) {
            Some(v) => Some(v as u8),
            None => None,
        }
    }

    fn parse_value(s: &str) -> (r: Result<Self, ParserError>) {
        let cs = str_chars(s);
        match parse_integer(&cs, false, 255, 0) {
            Ok((neg, mag)) => {
                if neg {
                    Ok(0)
                } else {
                    Ok(mag as u8)
                }
            },
            Err(kind) => Err(parse_failure("u8", s, kind.describe())),
        }
    }
}

impl ParseValue for u16 {
    open spec fn spec_parse_value(s: Seq<char>) -> Option<u16> {
        match spec_parse_integer(s, false, u16::MIN as int, u16::MAX as int) {
            Some(v) => Some(v as u16),
            None => None,
        }
    }

    fn parse_value(s: &str) -> (r: Result<Self, ParserError>) {
        let cs = str_chars(s);
        match parse_integer(&cs, false, 65535, 0) {
            Ok((neg, mag)) => {
                if neg {
                    Ok(0)
                } else {
                    Ok(mag as u16)
                }
            },
            Err(kind) => Err(parse_failure("u16", s, kind.describe())),
        }
    }
}

impl ParseValue for u32 {
    open spec fn spec_parse_value(s: Seq<char>) -> Option<u32> {
        match spec_parse_integer(s, false, u32::MIN as int, u32::MAX as int) {
            Some(v) => Some(v as u32),
            None => None,
        }
    }

    fn parse_value(s: &str) -> (r: Result<Self, ParserError>) {
        let cs = str_chars(s);
        match parse_integer(&cs, false, 4294967295, 0) {
            Ok((neg, mag)) => {
                if neg {
                    Ok(0)
                } else {
                    Ok(mag as u32)
                }
            },
            Err(kind) => Err(parse_failure("u32", s, kind.describe())),
        }
    }
}

impl ParseValue for u64 {
    open spec fn spec_parse_value(s: Seq<char>) -> Option<u64> {
        match spec_parse_integer(s, false, u64::MIN as int, u64::MAX as int) {
            Some(v) => Some(v as u64),
            None => None,
        }
    }

    fn parse_value(s: &str) -> (r: Result<Self, ParserError>) {
        let cs = str_chars(s);
        match parse_integer(&cs, false, 18446744073709551615, 0) {
            Ok((neg, mag)) => {
                if neg {
                    Ok(0)
                } else {
                    Ok(mag as u64)
                }
            },
            Err(kind) => Err(parse_failure("u64", s, kind.describe())),
        }
    }
}

impl ParseValue for u128 {
    open spec fn spec_parse_value(s: Seq<char>) -> Option<u128> {
        match spec_parse_integer(s, false, u128::MIN as int, u128::MAX as int) {
            Some(v) => Some(v as u128),
            None => None,
        }
    }

    fn parse_value(s: &str) -> (r: Result<Self, ParserError>) {
        let cs = str_chars(s);
        match parse_integer(&cs, false, 340282366920938463463374607431768211455, 0) {
            Ok((neg, mag)) => {
                if neg {
                    Ok(0)
                } else {
                    Ok(mag as u128)
                }
            },
            Err(kind) => Err(parse_failure("u128", s, kind.describe())),
        }
    }
}

/// The negation of `mag`, for magnitudes up to that of `i128::MIN`.
fn neg_i128(mag: u128) -> (r: i128)
    requires
        mag <= 170141183460469231731687303715884105728,
    ensures
        r == -(mag as int),
{
    if mag == 170141183460469231731687303715884105728 {
        i128::MIN
    } else {
        0 - mag as i128
    }
}

/// The error for a text that is not a value of the type named `ty`.
pub fn parse_failure(ty: &str, s: &str, reason: &str) -> (e: ParserError)
    ensures
        e matches ParserError::ParseFailed(m) && m@ == "failed to parse "@ + ty@ + " from '"@ + s@ + "': "@ + reason@,
{
    let mut m = "failed to parse ".to_owned();
    push_str(&mut m, ty);
    push_str(&mut m, " from '");
    push_str(&mut m, s);
    push_str(&mut m, "': ");
    push_str(&mut m, reason);
    ParserError::ParseFailed(m)
}

/// The decimal text of `n`, read as an integer between `min` and `max`, is `n` when
/// it lies there, and nothing otherwise.
proof fn lemma_parse_decimal(n: nat, signed: bool, min: int, max: int)
    ensures
        spec_parse_integer(decimal(n), signed, min, max) == (if min <= n <= max {
            Some(n as int)
        } else {
            None::<int>
        }),
{
    lemma_decimal_digits(n);
    assert(is_digit(decimal(n)[0]));
}

/// The decimal text of a signed number, read as a signed integer between `min` and
/// `max`, is the number when it lies there, and nothing otherwise.
proof fn lemma_parse_signed_decimal(n: int, min: int, max: int)
    ensures
        spec_parse_integer(signed_decimal(n), true, min, max) == (if min <= n <= max {
            Some(n)
        } else {
            None::<int>
        }),
{
    if n < 0 {
        let m = (-n) as nat;
        lemma_decimal_digits(m);
        let s = seq!['-'] + decimal(m);
        assert(s.drop_first() =~= decimal(m));
        assert(s[0] == '-');
    } else {
        lemma_parse_decimal(n as nat, true, min, max);
    }
}

/// A text with a minus sign is no unsigned integer.
proof fn lemma_unsigned_refuses_minus(m: nat, min: int, max: int)
    ensures
        spec_parse_integer(seq!['-'] + decimal(m), false, min, max) is None,
{
    let s = seq!['-'] + decimal(m);
    assert(s[0] == '-');
    assert(!is_digit(s[0]));
}

/// Every `i8` reads back from its decimal text, and a decimal text reads as an `i8`
/// exactly when its number lies in the type's range.
pub proof fn law_i8_decimal_text(n: int)
    ensures
        <i8 as ParseValue>::spec_parse_value(signed_decimal(n)) == (if i8::MIN <= n <= i8::MAX {
            Some(n as i8)
        } else {
            None::<i8>
        }),
{
    lemma_parse_signed_decimal(n, i8::MIN as int, i8::MAX as int);
}

/// Every `i16` reads back from its decimal text, and a decimal text reads as an `i16`
/// exactly when its number lies in the type's range.
pub proof fn law_i16_decimal_text(n: int)
    ensures
        <i16 as ParseValue>::spec_parse_value(signed_decimal(n)) == (if i16::MIN <= n <= i16::MAX {
            Some(n as i16)
        } else {
            None::<i16>
        }),
{
    lemma_parse_signed_decimal(n, i16::MIN as int, i16::MAX as int);
}

/// Every `i32` reads back from its decimal text, and a decimal text reads as an `i32`
/// exactly when its number lies in the type's range.
pub proof fn law_i32_decimal_text(n: int)
    ensures
        <i32 as ParseValue>::spec_parse_value(signed_decimal(n)) == (if i32::MIN <= n <= i32::MAX {
            Some(n as i32)
        } else {
            None::<i32>
        }),
{
    lemma_parse_signed_decimal(n, i32::MIN as int, i32::MAX as int);
}

/// Every `i64` reads back from its decimal text, and a decimal text reads as an `i64`
/// exactly when its number lies in the type's range.
pub proof fn law_i64_decimal_text(n: int)
    ensures
        <i64 as ParseValue>::spec_parse_value(signed_decimal(n)) == (if i64::MIN <= n <= i64::MAX {
            Some(n as i64)
        } else {
            None::<i64>
        }),
{
    lemma_parse_signed_decimal(n, i64::MIN as int, i64::MAX as int);
}

/// Every `i128` reads back from its decimal text, and a decimal text reads as an `i128`
/// exactly when its number lies in the type's range.
pub proof fn law_i128_decimal_text(n: int)
    ensures
        <i128 as ParseValue>::spec_parse_value(signed_decimal(n)) == (if i128::MIN <= n <= i128::MAX {
            Some(n as i128)
        } else {
            None::<i128>
        }),
{
    lemma_parse_signed_decimal(n, i128::MIN as int, i128::MAX as int);
}

/// Every `u8` reads back from its decimal text, a decimal text reads as a `u8`
/// exactly when its number lies in the type's range, and a negative text never does.
pub proof fn law_u8_decimal_text(n: nat)
    ensures
        <u8 as ParseValue>::spec_parse_value(decimal(n)) == (if n <= u8::MAX {
            Some(n as u8)
        } else {
            None::<u8>
        }),
        <u8 as ParseValue>::spec_parse_value(seq!['-'] + decimal(n)) is None,
{
    lemma_parse_decimal(n, false, u8::MIN as int, u8::MAX as int);
    lemma_unsigned_refuses_minus(n, u8::MIN as int, u8::MAX as int);
}

/// Every `u16` reads back from its decimal text, a decimal text reads as a `u16`
/// exactly when its number lies in the type's range, and a negative text never does.
pub proof fn law_u16_decimal_text(n: nat)
    ensures
        <u16 as ParseValue>::spec_parse_value(decimal(n)) == (if n <= u16::MAX {
            Some(n as u16)
        } else {
            None::<u16>
        }),
        <u16 as ParseValue>::spec_parse_value(seq!['-'] + decimal(n)) is None,
{
    lemma_parse_decimal(n, false, u16::MIN as int, u16::MAX as int);
    lemma_unsigned_refuses_minus(n, u16::MIN as int, u16::MAX as int);
}

/// Every `u32` reads back from its decimal text, a decimal text reads as a `u32`
/// exactly when its number lies in the type's range, and a negative text never does.
pub proof fn law_u32_decimal_text(n: nat)
    ensures
        <u32 as ParseValue>::spec_parse_value(decimal(n)) == (if n <= u32::MAX {
            Some(n as u32)
        } else {
            None::<u32>
        }),
        <u32 as ParseValue>::spec_parse_value(seq!['-'] + decimal(n)) is None,
{
    lemma_parse_decimal(n, false, u32::MIN as int, u32::MAX as int);
    lemma_unsigned_refuses_minus(n, u32::MIN as int, u32::MAX as int);
}

/// Every `u64` reads back from its decimal text, a decimal text reads as a `u64`
/// exactly when its number lies in the type's range, and a negative text never does.
pub proof fn law_u64_decimal_text(n: nat)
    ensures
        <u64 as ParseValue>::spec_parse_value(decimal(n)) == (if n <= u64::MAX {
            Some(n as u64)
        } else {
            None::<u64>
        }),
        <u64 as ParseValue>::spec_parse_value(seq!['-'] + decimal(n)) is None,
{
    lemma_parse_decimal(n, false, u64::MIN as int, u64::MAX as int);
    lemma_unsigned_refuses_minus(n, u64::MIN as int, u64::MAX as int);
}

/// Every `u128` reads back from its decimal text, a decimal text reads as a `u128`
/// exactly when its number lies in the type's range, and a negative text never does.
pub proof fn law_u128_decimal_text(n: nat)
    ensures
        <u128 as ParseValue>::spec_parse_value(decimal(n)) == (if n <= u128::MAX {
            Some(n as u128)
        } else {
            None::<u128>
        }),
        <u128 as ParseValue>::spec_parse_value(seq!['-'] + decimal(n)) is None,
{
    lemma_parse_decimal(n, false, u128::MIN as int, u128::MAX as int);
    lemma_unsigned_refuses_minus(n, u128::MIN as int, u128::MAX as int);
}

} // verus!
