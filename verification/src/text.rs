//! Character-level string helpers: splitting into characters, building strings,
//! decimal numbers in both directions, and searching for a separator.

use vstd::prelude::*;
use vstd::string::StringSliceAdditionalSpecFns;
use vstd::utf8::{decode_utf8, valid_utf8};

verus! {

/// The characters of `s`, in order.
pub fn str_chars(s: &str) -> (r: Vec<char>)
    ensures
        r@ == s@,
{
    let mut v: Vec<char> = Vec::new();
    for c in it: s.chars()
        invariant
            v@ == it.seq().take(it.index() as int),
            it.seq() == s@,
    {
        v.push(c);
    }
    v
}

/// Appends one character (`String::push`).
#[verifier::external_body]
pub(crate) fn push_char(s: &mut String, c: char)
    ensures
        final(s)@ == old(s)@.push(c),
{
    s.push(c);
}

/// Appends `t` to `s`.
pub fn push_str(s: &mut String, t: &str)
    ensures
        final(s)@ == old(s)@ + t@,
{
    s.append(t);
}

/// The string made of `v[start..end]`.
pub fn string_of_range(v: &Vec<char>, start: usize, end: usize) -> (r: String)
    requires
        start <= end <= v@.len(),
    ensures
        r@ == v@.subrange(start as int, end as int),
{
    let mut s = String::new();
    let mut i: usize = start;
    while i < end
        invariant
            start <= i <= end,
            end <= v@.len(),
            s@ == v@.subrange(start as int, i as int),
        decreases end - i,
    {
        push_char(&mut s, v[i]);
        proof {
            assert(v@.subrange(start as int, i + 1) =~= v@.subrange(start as int, i as int).push(v@[i as int]));
        }
        i += 1;
    }
    s
}

/// Whether `s` holds `sep` at position `i`.
pub open spec fn matches_at(s: Seq<char>, sep: Seq<char>, i: int) -> bool {
    0 <= i && i + sep.len() <= s.len() && s.subrange(i, i + sep.len()) == sep
}

/// The first position at or after `from` where `s` holds `sep`.
pub open spec fn first_match(s: Seq<char>, sep: Seq<char>, from: int) -> Option<int>
    decreases s.len() + 1 - from,
{
    if from < 0 || from + sep.len() > s.len() {
        None
    } else if matches_at(s, sep, from) {
        Some(from)
    } else {
        first_match(s, sep, from + 1)
    }
}

pub proof fn lemma_first_match_none(s: Seq<char>, sep: Seq<char>, from: int, i: int)
    requires
        0 <= from <= i,
        first_match(s, sep, from) is None,
    ensures
        !matches_at(s, sep, i),
    decreases i - from,
{
    if from + sep.len() <= s.len() && i > from {
        lemma_first_match_none(s, sep, from + 1, i);
    }
}

/// Whether `v` holds `sep` at position `i`.
fn holds_at(v: &Vec<char>, sep: &Vec<char>, i: usize) -> (b: bool)
    requires
        i + sep@.len() <= v@.len(),
    ensures
        b == matches_at(v@, sep@, i as int),
{
    let n = v.len();
    let mut j: usize = 0;
    while j < sep.len()
        invariant
            n == v@.len(),
            j <= sep@.len(),
            i + sep@.len() <= v@.len(),
            forall|t: int| 0 <= t < j ==> v@[i + t] == sep@[t],
        decreases sep@.len() - j,
    {
        if v[i + j] != sep[j] {
            proof {
                assert(v@.subrange(i as int, i + sep@.len())[j as int] != sep@[j as int]);
            }
            return false;
        }
        j += 1;
    }
    proof {
        assert(v@.subrange(i as int, i + sep@.len()) =~= sep@);
    }
    true
}

/// The first position at or after `from` where `v` holds the non-empty `sep`.
pub fn find_from(v: &Vec<char>, sep: &Vec<char>, from: usize) -> (r: Option<usize>)
    requires
        sep@.len() > 0,
        from <= v@.len(),
    ensures
        match r {
            Some(i) => {
                &&& first_match(v@, sep@, from as int) == Some(i as int)
                &&& from <= i
                &&& i + sep@.len() <= v@.len()
            },
            None => first_match(v@, sep@, from as int) is None,
        },
{
    let n = v.len();
    let m = sep.len();
    if m > n {
        return None;
    }
    let mut i: usize = from;
    while i <= n - m
        invariant
            from <= i,
            n == v@.len(),
            m == sep@.len(),
            m > 0,
            m <= n,
            first_match(v@, sep@, from as int) == first_match(v@, sep@, i as int),
        decreases n - i,
    {
        if holds_at(v, sep, i) {
            return Some(i);
        }
        i += 1;
    }
    None
}

/// Whether `s` holds the non-empty `pat` somewhere.
pub fn str_contains(s: &str, pat: &str) -> (b: bool)
    requires
        pat@.len() > 0,
    ensures
        b == (first_match(s@, pat@, 0) is Some),
{
    let cs = str_chars(s);
    let ps = str_chars(pat);
    find_from(&cs, &ps, 0).is_some()
}

/// Whether `s` begins with `t`.
pub open spec fn has_prefix(s: Seq<char>, t: Seq<char>) -> bool {
    t.len() <= s.len() && s.take(t.len() as int) == t
}

/// Whether `s` ends with `t`.
pub open spec fn has_suffix(s: Seq<char>, t: Seq<char>) -> bool {
    t.len() <= s.len() && s.skip(s.len() - t.len()) == t
}

/// Whether `v[start..]` holds `t` at its start.
fn holds_prefix_at(v: &Vec<char>, t: &Vec<char>, start: usize) -> (b: bool)
    requires
        start + t@.len() <= v@.len(),
    ensures
        b == (v@.subrange(start as int, start + t@.len()) == t@),
{
    let n = v.len();
    let mut j: usize = 0;
    while j < t.len()
        invariant
            j <= t@.len(),
            start + t@.len() <= v@.len(),
            n == v@.len(),
            forall|k: int| 0 <= k < j ==> v@[start + k] == t@[k],
        decreases t@.len() - j,
    {
        if v[start + j] != t[j] {
            proof {
                assert(v@.subrange(start as int, start + t@.len())[j as int] != t@[j as int]);
            }
            return false;
        }
        j += 1;
    }
    proof {
        assert(v@.subrange(start as int, start + t@.len()) =~= t@);
    }
    true
}

/// `s` without its leading `t`, if it begins with `t`.
pub fn strip_prefix(s: &str, t: &str) -> (r: Option<String>)
    ensures
        has_prefix(s@, t@) ==> (r matches Some(x) && x@ == s@.skip(t@.len() as int)),
        !has_prefix(s@, t@) ==> r is None,
{
    let v = str_chars(s);
    let w = str_chars(t);
    if w.len() > v.len() {
        return None;
    }
    if holds_prefix_at(&v, &w, 0) {
        proof {
            assert(v@.subrange(0, w@.len() as int) =~= v@.take(w@.len() as int));
        }
        let x = string_of_range(&v, w.len(), v.len());
        proof {
            assert(x@ =~= s@.skip(t@.len() as int));
        }
        Some(x)
    } else {
        proof {
            assert(v@.subrange(0, w@.len() as int) =~= v@.take(w@.len() as int));
        }
        None
    }
}

/// `s` without its trailing `t`, if it ends with `t`.
pub fn strip_suffix(s: &str, t: &str) -> (r: Option<String>)
    ensures
        has_suffix(s@, t@) ==> (r matches Some(x) && x@ == s@.take(s@.len() - t@.len())),
        !has_suffix(s@, t@) ==> r is None,
{
    let v = str_chars(s);
    let w = str_chars(t);
    if w.len() > v.len() {
        return None;
    }
    let start = v.len() - w.len();
    if holds_prefix_at(&v, &w, start) {
        proof {
            assert(v@.subrange(start as int, start + w@.len()) =~= v@.skip(start as int));
        }
        let x = string_of_range(&v, 0, start);
        proof {
            assert(x@ =~= s@.take(s@.len() - t@.len()));
        }
        Some(x)
    } else {
        proof {
            assert(v@.subrange(start as int, start + w@.len()) =~= v@.skip(start as int));
        }
        None
    }
}

/// The value of a decimal digit character.
pub open spec fn digit_value(c: char) -> nat {
    (c as int - '0' as int) as nat
}

/// Whether `c` is one of '0'..'9'.
pub open spec fn is_digit(c: char) -> bool {
    '0' <= c && c <= '9'
}

/// Whether every character of `s` is a decimal digit.
pub open spec fn all_digits(s: Seq<char>) -> bool {
    forall|i: int| 0 <= i < s.len() ==> is_digit(#[trigger] s[i])
}

/// The number the digits of `s` spell in base ten.
pub open spec fn digits_value(s: Seq<char>) -> nat
    decreases s.len(),
{
    if s.len() == 0 {
        0
    } else {
        digits_value(s.drop_last()) * 10 + digit_value(s.last())
    }
}

pub proof fn lemma_digits_value_prefix(s: Seq<char>, j: int)
    requires
        0 <= j <= s.len(),
    ensures
        digits_value(s.take(j)) <= digits_value(s),
    decreases s.len(),
{
    if j < s.len() {
        assert(s.drop_last().take(j) =~= s.take(j));
        lemma_digits_value_prefix(s.drop_last(), j);
    } else {
        assert(s.take(j) =~= s);
    }
}

/// The character of the decimal digit `d`.
pub open spec fn digit_char(d: nat) -> char {
    (48 + d) as char
}

/// The decimal digits of `n`, without leading zeros ("0" for zero).
pub open spec fn decimal(n: nat) -> Seq<char>
    decreases n,
{
    if n < 10 {
        seq![digit_char(n)]
    } else {
        decimal(n / 10).push(digit_char(n % 10))
    }
}

/// The decimal text of a signed number.
pub open spec fn signed_decimal(n: int) -> Seq<char> {
    if n < 0 {
        seq!['-'] + decimal((-n) as nat)
    } else {
        decimal(n as nat)
    }
}

/// The decimal text of `n`.
pub fn u128_to_decimal(n: u128) -> (r: String)
    ensures
        r@ == decimal(n as nat),
    decreases n,
{
    if n < 10 {
        let mut s = String::new();
        push_char(&mut s, (48u8 + n as u8) as char);
        proof {
            assert(s@ =~= decimal(n as nat));
        }
        s
    } else {
        let mut s = u128_to_decimal(n / 10);
        push_char(&mut s, (48u8 + (n % 10) as u8) as char);
        s
    }
}

/// The decimal text of `n`.
pub fn u64_to_decimal(n: u64) -> (r: String)
    ensures
        r@ == decimal(n as nat),
{
    u128_to_decimal(n as u128)
}

/// The decimal text of `n`, with a leading '-' when negative.
pub fn i64_to_decimal(n: i64) -> (r: String)
    ensures
        r@ == signed_decimal(n as int),
{
    if n < 0 {
        let mag: u128 = (0i128 - n as i128) as u128;
        let digits = u128_to_decimal(mag);
        let mut s = String::new();
        push_char(&mut s, '-');
        push_str(&mut s, digits.as_str());
        s
    } else {
        u128_to_decimal(n as u128)
    }
}

/// Whether every character of `s` is ASCII.
pub open spec fn all_ascii(s: Seq<char>) -> bool {
    forall|i: int| 0 <= i < s.len() ==> (#[trigger] s[i] as u32) < 128
}

/// `s` with the ASCII letters A to Z put in lower case.
pub open spec fn ascii_lowercase(s: Seq<char>) -> Seq<char> {
    s.map_values(|c: char| if 'A' <= c <= 'Z' { ((c as u32) + 32) as char } else { c })
}

/// `s` with the ASCII letters a to z put in upper case.
pub open spec fn ascii_uppercase(s: Seq<char>) -> Seq<char> {
    s.map_values(|c: char| if 'a' <= c <= 'z' { ((c as u32) - 32) as char } else { c })
}

/// The lower-case form of `s`, character by character as Unicode defines it.
pub uninterp spec fn lowercase(s: Seq<char>) -> Seq<char>;

/// `str::to_lowercase`: the result is the Unicode lower-case form of `s`, which
/// depends on `s` alone; on ASCII text, Unicode's lower case of A to Z is a to z, and
/// every other ASCII character is its own lower case.
#[verifier::external_body]
pub(crate) fn to_lowercase(s: &str) -> (r: String)
    ensures
        r@ == lowercase(s@),
        all_ascii(s@) ==> r@ == ascii_lowercase(s@),
{
    s.to_lowercase()
}

/// The upper-case form of `s`, character by character as Unicode defines it.
pub uninterp spec fn uppercase(s: Seq<char>) -> Seq<char>;

/// `str::to_uppercase`: the result is the Unicode upper-case form of `s`, which
/// depends on `s` alone; on ASCII text, Unicode's upper case of a to z is A to Z, and
/// every other ASCII character is its own upper case.
#[verifier::external_body]
pub(crate) fn to_uppercase(s: &str) -> (r: String)
    ensures
        r@ == uppercase(s@),
        all_ascii(s@) ==> r@ == ascii_uppercase(s@),
{
    s.to_uppercase()
}

/// Whether `a` and `b` hold the same characters.
pub fn str_equal(a: &str, b: &str) -> (r: bool)
    ensures
        r == (a@ == b@),
{
    let x = str_chars(a);
    let y = str_chars(b);
    if x.len() != y.len() {
        return false;
    }
    let mut i: usize = 0;
    while i < x.len()
        invariant
            x@ == a@,
            y@ == b@,
            x@.len() == y@.len(),
            i <= x@.len(),
            forall|j: int| 0 <= j < i ==> x@[j] == y@[j],
        decreases x@.len() - i,
    {
        if x[i] != y[i] {
            proof {
                assert(x@[i as int] != y@[i as int]);
            }
            return false;
        }
        i += 1;
    }
    proof {
        assert(x@ =~= y@);
    }
    true
}

/// `std::str::from_utf8`: succeeds exactly on valid UTF-8, and the text it gives
/// is made of the same bytes; a failure carries the error's text.
#[verifier::external_body]
pub(crate) fn utf8_str(buf: &[u8]) -> (r: Result<&str, String>)
    ensures
        r is Ok <==> valid_utf8(buf@),
        r matches Ok(s) ==> s.spec_bytes() == buf@,
{
    match std::str::from_utf8(buf) {
        Ok(s) => Ok(s),
        Err(e) => Err(e.to_string()),
    }
}

/// Decodes UTF-8 bytes into text.
pub fn decode_utf8_text(buf: &[u8]) -> (r: Result<&str, String>)
    ensures
        r is Ok <==> valid_utf8(buf@),
        r matches Ok(s) ==> s@ == decode_utf8(buf@),
{
    let r = utf8_str(buf);
    proof {
        if let Ok(s) = r {
            vstd::utf8::encode_utf8_decode_utf8(s@);
        }
    }
    r
}

} // verus!
