//! How the BSON parser writes and compares doubles, stated over their IEEE-754 bits.

use vstd::prelude::*;

use crate::text::{i64_to_decimal, signed_decimal};

verus! {

/// 2 to the power `n`.
pub open spec fn two_to(n: nat) -> nat
    decreases n,
{
    if n == 0 {
        1
    } else {
        2 * two_to((n - 1) as nat)
    }
}

proof fn lemma_two_to_monotonic(i: nat, j: nat)
    requires
        i <= j,
    ensures
        two_to(i) <= two_to(j),
    decreases j,
{
    if i < j {
        lemma_two_to_monotonic(i, (j - 1) as nat);
    }
}

proof fn lemma_two_to_52()
    ensures
        two_to(52) == 0x10_0000_0000_0000,
        two_to(10) == 1024,
{
    reveal_with_fuel(two_to, 53);
}

/// 2 to the power `n`, for `n` up to 52.
fn power_of_two(n: u64) -> (p: u64)
    requires
        n <= 52,
    ensures
        p == two_to(n as nat),
        1 <= p <= 0x10_0000_0000_0000,
{
    let mut p: u64 = 1;
    let mut i: u64 = 0;
    proof {
        lemma_two_to_52();
    }
    while i < n
        invariant
            i <= n <= 52,
            p == two_to(i as nat),
            two_to(52) == 0x10_0000_0000_0000,
        decreases n - i,
    {
        proof {
            lemma_two_to_monotonic((i + 1) as nat, 52);
        }
        p = p * 2;
        i += 1;
    }
    proof {
        lemma_two_to_monotonic(n as nat, 52);
        lemma_two_to_monotonic(0, n as nat);
    }
    p
}

/// Whether the sign bit is set.
pub open spec fn double_negative(bits: u64) -> bool {
    bits >= 0x8000_0000_0000_0000
}

/// The biased exponent field, 0 to 2047.
pub open spec fn double_exponent(bits: u64) -> int {
    ((bits % 0x8000_0000_0000_0000) / 0x10_0000_0000_0000) as int
}

/// The fraction field, below 2^52.
pub open spec fn double_fraction(bits: u64) -> int {
    (bits % 0x10_0000_0000_0000) as int
}

/// Whether the bits are a NaN.
pub open spec fn double_is_nan(bits: u64) -> bool {
    double_exponent(bits) == 2047 && double_fraction(bits) != 0
}

/// Whether the bits are zero of either sign.
pub open spec fn double_is_zero(bits: u64) -> bool {
    double_exponent(bits) == 0 && double_fraction(bits) == 0
}

/// `==` on the doubles the bits encode: no NaN equals anything, the two zeros are
/// equal, and other doubles are equal when their bits are.
pub open spec fn double_equal(a: u64, b: u64) -> bool {
    &&& !double_is_nan(a)
    &&& !double_is_nan(b)
    &&& (a == b || (double_is_zero(a) && double_is_zero(b)))
}

/// `n` with the sign of the double.
pub open spec fn with_sign(bits: u64, n: int) -> int {
    if double_negative(bits) {
        -n
    } else {
        n
    }
}

/// For the double `x` the bits encode: the number `x as i64` when `(x as i64) as f64`
/// gives `x` back, and `None` otherwise. A finite double of magnitude at least 1 is
/// (2^52 + fraction) * 2^(exponent - 1075); it comes back when it is whole and below
/// 2^63 in magnitude, when it is zero, and when it is exactly 2^63 or -2^63 (the cast
/// saturates to `i64::MAX` and `i64::MIN`, which turn back into those doubles).
/// Fractions, NaN, the infinities and larger magnitudes do not come back.
pub open spec fn double_whole(bits: u64) -> Option<int> {
    let e = double_exponent(bits);
    let m = 0x10_0000_0000_0000 + double_fraction(bits);
    if double_is_zero(bits) {
        Some(0)
    } else if e < 1023 || e >= 1087 {
        None
    } else if e <= 1075 {
        let d = two_to((1075 - e) as nat) as int;
        if m % d == 0 {
            Some(with_sign(bits, m / d))
        } else {
            None
        }
    } else if e <= 1085 {
        Some(with_sign(bits, m * two_to((e - 1075) as nat)))
    } else if double_fraction(bits) == 0 {
        Some(if double_negative(bits) { -0x8000_0000_0000_0000 } else { 0x7fff_ffff_ffff_ffff })
    } else {
        None
    }
}

/// The text of a double: the whole number in decimal when `double_whole` gives one,
/// else `display`, the text Rust writes for the double.
pub open spec fn double_text(bits: u64, display: Seq<char>) -> Seq<char> {
    match double_whole(bits) {
        Some(n) => signed_decimal(n),
        None => display,
    }
}

/// `==` on the doubles the bits encode.
pub fn doubles_equal(a: u64, b: u64) -> (r: bool)
    ensures
        r == double_equal(a, b),
{
    let ea = (a % 0x8000_0000_0000_0000) / 0x10_0000_0000_0000;
    let fa = a % 0x10_0000_0000_0000;
    let eb = (b % 0x8000_0000_0000_0000) / 0x10_0000_0000_0000;
    let fb = b % 0x10_0000_0000_0000;
    if (ea == 2047 && fa != 0) || (eb == 2047 && fb != 0) {
        return false;
    }
    a == b || (ea == 0 && fa == 0 && eb == 0 && fb == 0)
}

/// The whole number of `double_whole`, as an `i64`.
pub fn whole_of_double(bits: u64) -> (r: Option<i64>)
    ensures
        match double_whole(bits) {
            Some(n) => r == Some(n as i64) && i64::MIN <= n <= i64::MAX,
            None => r is None,
        },
{
    let negative = bits >= 0x8000_0000_0000_0000;
    let e = (bits % 0x8000_0000_0000_0000) / 0x10_0000_0000_0000;
    let f = bits % 0x10_0000_0000_0000;
    if e == 0 && f == 0 {
        return Some(0);
    }
    if e < 1023 || e >= 1087 {
        return None;
    }
    let m: u64 = 0x10_0000_0000_0000 + f;
    if e <= 1075 {
        let d = power_of_two(1075 - e);
        if m % d == 0 {
            let q = m / d;
            assert(q <= m) by (nonlinear_arith)
                requires
                    q == m / d,
                    d >= 1,
            ;
            let n = q as i64;
            Some(if negative { -n } else { n })
        } else {
            None
        }
    } else if e <= 1085 {
        let p = power_of_two(e - 1075);
        proof {
            lemma_two_to_monotonic((e - 1075) as nat, 10);
            lemma_two_to_52();
        }
        assert(m * p < 0x8000_0000_0000_0000) by (nonlinear_arith)
            requires
                m < 0x20_0000_0000_0000,
                p <= 1024,
        ;
        let n = (m * p) as i64;
        Some(if negative { -n } else { n })
    } else if f == 0 {
        Some(if negative { i64::MIN } else { i64::MAX })
    } else {
        None
    }
}

/// The text of a double, from its bits and the text Rust writes for it.
pub fn double_to_text(bits: u64, display: &String) -> (s: String)
    ensures
        s@ == double_text(bits, display@),
{
    match whole_of_double(bits) {
        Some(n) => i64_to_decimal(n),
        None => display.clone(),
    }
}

} // verus!
