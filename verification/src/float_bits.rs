//! The language's numbers are IEEE 754 single-precision values. Inside the
//! library a number is carried as its bit pattern (a `u32`); the arithmetic,
//! the comparisons, the decimal reading and the decimal printing are done by
//! `rustc_apfloat`'s `Single` type, a software implementation of the same
//! format, behind the trusted wrappers of this module.
use vstd::prelude::*;

use rustc_apfloat::Float;
use rustc_apfloat::ieee::Single;

verus! {

/// The sign bit of a single-precision bit pattern.
pub open spec fn sign_bit(bits: u32) -> bool {
    bits >= 0x8000_0000
}

/// The bit pattern with the sign bit cleared.
pub open spec fn abs_bits(bits: u32) -> u32 {
    if sign_bit(bits) {
        (bits - 0x8000_0000) as u32
    } else {
        bits
    }
}

/// Zero, subnormal or normal (neither an infinity nor a NaN).
pub open spec fn is_finite_bits(bits: u32) -> bool {
    abs_bits(bits) < 0x7f80_0000
}

pub open spec fn is_digit_char(c: char) -> bool {
    '0' <= c <= '9'
}

/// The first position at or after `pos` that does not hold a digit.
pub open spec fn char_digits_end(s: Seq<char>, pos: int) -> int
    decreases s.len() - pos,
{
    if 0 <= pos < s.len() && is_digit_char(s[pos]) {
        char_digits_end(s, pos + 1)
    } else {
        pos
    }
}

/// A well-signed exponent part fills the rest of the text: `E`, a sign,
/// one or more digits.
pub open spec fn plain_exponent_chars(s: Seq<char>, f: int) -> bool {
    &&& f + 3 <= s.len()
    &&& s[f] == 'E'
    &&& (s[f + 1] == '+' || s[f + 1] == '-')
    &&& char_digits_end(s, f + 2) == s.len()
}

/// The characters a finite, non-negative number prints as: one or more
/// digits, then an optional fraction with at least one digit, then an
/// optional exponent with a mandatory sign and at least one digit.
pub open spec fn plain_number_chars(s: Seq<char>) -> bool {
    let i = char_digits_end(s, 0);
    if i < 1 {
        false
    } else if i == s.len() {
        true
    } else if s[i] == '.' {
        let f = char_digits_end(s, i + 1);
        if f <= i + 1 {
            false
        } else if f == s.len() {
            true
        } else {
            plain_exponent_chars(s, f)
        }
    } else {
        plain_exponent_chars(s, i)
    }
}

/// The bytes of an ASCII character sequence.
pub open spec fn ascii_bytes(s: Seq<char>) -> Seq<u8> {
    s.map(|_i: int, c: char| c as u8)
}

/// What `Single` addition (round to nearest, ties to even) returns, by bit
/// pattern.
pub uninterp spec fn add_bits(a: u32, b: u32) -> u32;

/// What `Single` subtraction returns, by bit pattern.
pub uninterp spec fn sub_bits(a: u32, b: u32) -> u32;

/// What `Single` multiplication returns, by bit pattern.
pub uninterp spec fn mul_bits(a: u32, b: u32) -> u32;

/// What `Single` division returns, by bit pattern.
pub uninterp spec fn div_bits(a: u32, b: u32) -> u32;

/// What the IEEE comparison `a < b` returns, by bit pattern.
pub uninterp spec fn lt_bits(a: u32, b: u32) -> bool;

/// What the IEEE comparison `a > b` returns, by bit pattern.
pub uninterp spec fn gt_bits(a: u32, b: u32) -> bool;

/// What the IEEE comparison `a == b` returns, by bit pattern.
pub uninterp spec fn eq_bits(a: u32, b: u32) -> bool;

/// The value a decimal literal reads as, by bit pattern.
pub uninterp spec fn literal_bits(s: Seq<u8>) -> u32;

/// The decimal text a value prints as.
pub uninterp spec fn number_text(bits: u32) -> Seq<char>;

/// Relies on `core::ops::Add for IeeeFloat`: single-precision addition,
/// rounding to nearest with ties to even.
#[verifier::external_body]
pub(crate) fn f32_add(a: u32, b: u32) -> (r: u32)
    ensures
        r == add_bits(a, b),
{
    (Single::from_bits(a as u128) + Single::from_bits(b as u128)).value.to_bits() as u32
}

/// Relies on `core::ops::Sub for IeeeFloat`: single-precision subtraction,
/// rounding to nearest with ties to even.
#[verifier::external_body]
pub(crate) fn f32_sub(a: u32, b: u32) -> (r: u32)
    ensures
        r == sub_bits(a, b),
{
    (Single::from_bits(a as u128) - Single::from_bits(b as u128)).value.to_bits() as u32
}

/// Relies on `core::ops::Mul for IeeeFloat`: single-precision multiplication,
/// rounding to nearest with ties to even.
#[verifier::external_body]
pub(crate) fn f32_mul(a: u32, b: u32) -> (r: u32)
    ensures
        r == mul_bits(a, b),
{
    (Single::from_bits(a as u128) * Single::from_bits(b as u128)).value.to_bits() as u32
}

/// Relies on `core::ops::Div for IeeeFloat`: single-precision division,
/// rounding to nearest with ties to even.
#[verifier::external_body]
pub(crate) fn f32_div(a: u32, b: u32) -> (r: u32)
    ensures
        r == div_bits(a, b),
{
    (Single::from_bits(a as u128) / Single::from_bits(b as u128)).value.to_bits() as u32
}

/// Relies on `PartialOrd for IeeeFloat`: the IEEE ordering, under which a
/// NaN compares with nothing.
#[verifier::external_body]
pub(crate) fn f32_lt(a: u32, b: u32) -> (r: bool)
    ensures
        r == lt_bits(a, b),
{
    Single::from_bits(a as u128) < Single::from_bits(b as u128)
}

/// Relies on `PartialOrd for IeeeFloat`: the IEEE ordering, under which a
/// NaN compares with nothing.
#[verifier::external_body]
pub(crate) fn f32_gt(a: u32, b: u32) -> (r: bool)
    ensures
        r == gt_bits(a, b),
{
    Single::from_bits(a as u128) > Single::from_bits(b as u128)
}

/// Relies on `PartialEq for IeeeFloat`: IEEE equality, under which a NaN
/// equals nothing and the two zeros are equal.
#[verifier::external_body]
pub(crate) fn f32_eq(a: u32, b: u32) -> (r: bool)
    ensures
        r == eq_bits(a, b),
{
    Single::from_bits(a as u128) == Single::from_bits(b as u128)
}

/// Relies on `Single::from_str`: reads a decimal literal, rounding to
/// nearest with ties to even. Its source accepts every string of the form
/// `digit+ ('.' digit*)? ([eE] [+-]? digit+)?` (such a string has digits,
/// at most one dot, digits after the exponent mark, and no other
/// characters, so no error path applies).
#[verifier::external_body]
pub(crate) fn parse_number(s: &[u8]) -> (r: Option<u32>)
    ensures
        r is Some ==> r->0 == literal_bits(s@),
        crate::parser::is_literal_bytes(s@) ==> r is Some,
{
    match core::str::from_utf8(s) {
        Ok(t) => match t.parse::<Single>() {
            Ok(v) => Some(v.to_bits() as u32),
            Err(_) => None,
        },
        Err(_) => None,
    }
}

/// Relies on `String::from_utf8`: ASCII bytes are valid UTF-8 and decode
/// to the same characters, one each.
#[verifier::external_body]
pub(crate) fn ascii_to_string(bytes: &[u8]) -> (r: String)
    requires
        forall|i: int| 0 <= i < bytes@.len() ==> bytes@[i] < 128,
    ensures
        r@ == crate::parser::chars_of_bytes(bytes@),
{
    String::from_utf8(bytes.to_vec()).unwrap()
}

/// Relies on `Display for IeeeFloat`: prints a decimal form with enough
/// digits that reading it back gives the same value. For a finite,
/// non-negative value its source emits only the shapes
/// `digit+`, `digit+ '.' digit+` and `digit '.' digit+ 'E' sign digit+`.
#[verifier::external_body]
pub(crate) fn format_number(bits: u32) -> (r: String)
    ensures
        r@ == number_text(bits),
        is_finite_bits(bits) && !sign_bit(bits) ==> plain_number_chars(r@)
            && literal_bits(ascii_bytes(r@)) == bits,
{
    format!("{}", Single::from_bits(bits as u128))
}

} // verus!
