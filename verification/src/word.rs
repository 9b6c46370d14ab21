//! Two's-complement arithmetic on machine words, stated over the integers.

use vstd::prelude::*;

verus! {

/// The value of a word read as a signed 32-bit integer.
pub open spec fn signed(w: u32) -> int {
    if w < 0x8000_0000 {
        w as int
    } else {
        w as int - 0x1_0000_0000
    }
}

/// The word that holds the integer `x` modulo 2^32.
pub open spec fn wrap(x: int) -> u32 {
    (x % 0x1_0000_0000) as u32
}

/// The signed 32-bit integer that is congruent to `x` modulo 2^32.
pub open spec fn wrap_signed(x: int) -> int {
    signed(wrap(x))
}

/// The signed 16-bit integer that is congruent to `x` modulo 2^16.
pub open spec fn wrap16(x: int) -> int {
    let m = x % 0x1_0000;
    if m < 0x8000 {
        m
    } else {
        m - 0x1_0000
    }
}

/// Reads an unsigned field of `modulus` distinct values as a two's-complement
/// number: the upper half of the values stands for the negative numbers.
pub open spec fn sign_extend(v: int, modulus: int) -> int {
    if 2 * v >= modulus {
        v - modulus
    } else {
        v
    }
}

/// The magnitude of an integer.
pub open spec fn magnitude(x: int) -> int {
    if x < 0 {
        -x
    } else {
        x
    }
}

/// Division that rounds toward zero; `b` is not zero.
pub open spec fn quotient(a: int, b: int) -> int {
    if (a < 0) == (b < 0) {
        magnitude(a) / magnitude(b)
    } else {
        -(magnitude(a) / magnitude(b))
    }
}

/// What division that rounds toward zero leaves over; `b` is not zero.
pub open spec fn remainder(a: int, b: int) -> int {
    a - b * quotient(a, b)
}

/// The signed reading of a word.
pub fn to_signed(w: u32) -> (v: i32)
    ensures
        v == signed(w),
{
    if w < 0x8000_0000 {
        w as i32
    } else {
        (w as i64 - 0x1_0000_0000) as i32
    }
}

/// The word that stores a signed value.
pub fn to_word(v: i32) -> (w: u32)
    ensures
        w == wrap(v as int),
        signed(w) == v,
{
    if v >= 0 {
        v as u32
    } else {
        (v as i64 + 0x1_0000_0000) as u32
    }
}

/// Reduces an integer to sixteen bits, two's complement.
pub fn to_i16(x: i64) -> (r: i16)
    ensures
        r == wrap16(x as int),
{
    let m: i128 = (x as i128 + 0x1_0000_0000_0000_0000) % 0x1_0000;
    if m < 0x8000 {
        m as i16
    } else {
        (m - 0x1_0000) as i16
    }
}

/// Division of signed 32-bit integers that rounds toward zero and wraps the
/// one quotient that does not fit.
pub fn wrapping_quotient(a: i32, b: i32) -> (q: i32)
    requires
        b != 0,
    ensures
        q == wrap_signed(quotient(a as int, b as int)),
{
    match a.checked_div(b) {
        Some(q) => q,
        None => i32::MIN,
    }
}

/// The remainder that goes with `wrapping_quotient`.
pub fn wrapping_remainder(a: i32, b: i32) -> (r: i32)
    requires
        b != 0,
    ensures
        r == remainder(a as int, b as int),
{
    match a.checked_rem(b) {
        Some(r) => {
            proof {
                lemma_remainder(a as int, b as int);
            }
            r
        },
        None => 0,
    }
}

/// The remainder of a division that rounds toward zero, by magnitudes: it has
/// the sign of the dividend.
pub proof fn lemma_remainder(a: int, b: int)
    requires
        b != 0,
    ensures
        remainder(a, b) == if a < 0 {
            -(magnitude(a) % magnitude(b))
        } else {
            magnitude(a) % magnitude(b)
        },
{
    let m = magnitude(a);
    let n = magnitude(b);
    assert(m == n * (m / n) + m % n) by {
        vstd::arithmetic::div_mod::lemma_fundamental_div_mod(m, n);
    }
    let q = m / n;
    assert(b * q == if b < 0 { -(n * q) } else { n * q }) by (nonlinear_arith)
        requires n == magnitude(b);
    assert(b * (-q) == -(b * q)) by (nonlinear_arith);
}

} // verus!
