//! Reading decimal integers the way `str::parse` does for unsigned types,
//! and comparing `f64` values given as their IEEE-754 bit patterns.

use vstd::prelude::*;

verus! {

/// An ASCII decimal digit.
pub open spec fn is_digit(c: char) -> bool {
    '0' <= c && c <= '9'
}

/// Every character of `s` is a decimal digit.
pub open spec fn all_digits(s: Seq<char>) -> bool {
    forall|i: int| 0 <= i < s.len() ==> is_digit(#[trigger] s[i])
}

/// The value of a string of decimal digits.
pub open spec fn digits_value(s: Seq<char>) -> nat
    decreases s.len(),
{
    if s.len() == 0 {
        0
    } else {
        digits_value(s.drop_last()) * 10 + ((s.last() as u32) - ('0' as u32)) as nat
    }
}

/// `str::parse` for an unsigned type whose largest value is `max`: an
/// optional `+`, then at least one digit, the value not above `max`.
pub open spec fn spec_parse_unsigned(s: Seq<char>, max: nat) -> Option<nat> {
    let d = if s.len() > 0 && s[0] == '+' {
        s.drop_first()
    } else {
        s
    };
    if d.len() > 0 && all_digits(d) && digits_value(d) <= max {
        Some(digits_value(d))
    } else {
        None
    }
}

proof fn lemma_digits_value_monotone(s: Seq<char>, k: int)
    requires
        0 <= k <= s.len(),
    ensures
        digits_value(s.subrange(0, k)) <= digits_value(s),
    decreases s.len() - k,
{
    if k < s.len() {
        lemma_digits_value_monotone(s, k + 1);
        assert(s.subrange(0, k + 1).drop_last() =~= s.subrange(0, k));
    } else {
        assert(s.subrange(0, k) =~= s);
    }
}

/// See [`spec_parse_unsigned`].
pub fn parse_unsigned(s: &Vec<char>, max: u64) -> (r: Option<u64>)
    ensures
        match spec_parse_unsigned(s@, max as nat) {
            Some(n) => r == Some(n as u64),
            None => r is None,
        },
{
    let from: usize = if s.len() > 0 && s[0] == '+' {
        1
    } else {
        0
    };
    let ghost d = s@.subrange(from as int, s.len() as int);
    assert(from == 1 ==> d =~= s@.drop_first());
    assert(from == 0 ==> d =~= s@);
    if from == s.len() {
        return None;
    }
    let mut value: u64 = 0;
    let mut i = from;
    while i < s.len()
        invariant
            from <= i <= s.len(),
            d == s@.subrange(from as int, s.len() as int),
            d == (if s@.len() > 0 && s@[0] == '+' {
                s@.drop_first()
            } else {
                s@
            }),
            forall|j: int| from <= j < i ==> is_digit(#[trigger] s@[j]),
            value as nat == digits_value(s@.subrange(from as int, i as int)),
            value <= max,
        decreases s.len() - i,
    {
        let c = s[i];
        if !('0' <= c && c <= '9') {
            assert(!is_digit(d[i - from]));
            return None;
        }
        assert(s@.subrange(from as int, i + 1).drop_last() =~= s@.subrange(from as int, i as int));
        let digit = (c as u32 - '0' as u32) as u64;
        let next = match value.checked_mul(10) {
            Some(m) => m.checked_add(digit),
            None => None,
        };
        let ok = match next {
            Some(v) => v <= max,
            None => false,
        };
        if !ok {
            proof {
                assert(digits_value(s@.subrange(from as int, i + 1)) == value as nat * 10 + digit as nat);
                lemma_digits_value_monotone(d, i + 1 - from);
                assert(d.subrange(0, i + 1 - from) =~= s@.subrange(from as int, i + 1));
            }
            return None;
        }
        value = next.unwrap();
        i = i + 1;
    }
    assert(d =~= s@.subrange(from as int, i as int));
    assert forall|j: int| 0 <= j < d.len() implies is_digit(#[trigger] d[j]) by {
        assert(d[j] == s@[from + j]);
    }
    Some(value)
}

/// 2^63: the sign bit of an `f64`.
pub open spec fn sign_bit() -> nat {
    0x8000_0000_0000_0000
}

/// The biased exponent field of an `f64` bit pattern.
pub open spec fn f64_exponent(bits: u64) -> nat {
    (bits as nat % sign_bit()) / 0x10_0000_0000_0000
}

/// `f64::is_finite` on a bit pattern: the exponent field is not all ones.
pub open spec fn f64_is_finite(bits: u64) -> bool {
    f64_exponent(bits) != 0x7ff
}

/// An integer that orders finite `f64` bit patterns as their values: the
/// magnitude bits, negated for negative numbers (so both zeros map to 0).
pub open spec fn f64_order_key(bits: u64) -> int {
    if bits as nat >= sign_bit() {
        -((bits as nat % sign_bit()) as int)
    } else {
        bits as int
    }
}

/// `a >= b` for two finite `f64` values given as bit patterns.
pub open spec fn f64_ge(a: u64, b: u64) -> bool {
    f64_order_key(a) >= f64_order_key(b)
}

/// See [`f64_is_finite`].
pub fn f64_bits_finite(bits: u64) -> (r: bool)
    ensures
        r == f64_is_finite(bits),
{
    (bits % 0x8000_0000_0000_0000) / 0x10_0000_0000_0000 != 0x7ff
}

/// See [`f64_ge`].
pub fn f64_bits_ge(a: u64, b: u64) -> (r: bool)
    ensures
        r == f64_ge(a, b),
{
    let a_neg = a >= 0x8000_0000_0000_0000;
    let b_neg = b >= 0x8000_0000_0000_0000;
    let a_mag = a % 0x8000_0000_0000_0000;
    let b_mag = b % 0x8000_0000_0000_0000;
    if !a_neg && !b_neg {
        a >= b
    } else if a_neg && b_neg {
        a_mag <= b_mag
    } else if a_neg {
        a_mag == 0 && b == 0
    } else {
        true
    }
}

} // verus!
