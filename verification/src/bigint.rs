//! Arbitrary-precision signed integers held as two's-complement little-endian
//! bytes. The arithmetic itself is done by `num_bigint` (re-exported by
//! `bigdecimal`); each call stands behind a wrapper whose contract states the
//! integer result.

use vstd::prelude::*;
use vstd::arithmetic::power::pow;
use bigdecimal::num_bigint::BigInt;
use bigdecimal::ToPrimitive;

verus! {

/// Value of little-endian unsigned bytes.
pub open spec fn le_bytes_value(s: Seq<u8>) -> nat
    decreases s.len(),
{
    if s.len() == 0 {
        0
    } else {
        s[0] as nat + 256 * le_bytes_value(s.drop_first())
    }
}

/// Value of two's-complement little-endian bytes (the empty sequence is zero).
pub open spec fn twos_value(s: Seq<u8>) -> int {
    if s.len() > 0 && s.last() >= 128 {
        le_bytes_value(s) - pow(256, s.len())
    } else {
        le_bytes_value(s) as int
    }
}

/// Absolute value.
pub open spec fn abs(a: int) -> int {
    if a < 0 { -a } else { a }
}

/// Division rounding toward zero, as Rust's `/` on integers does.
pub open spec fn trunc_div(a: int, b: int) -> int {
    let q = abs(a) / abs(b);
    if (a < 0) != (b < 0) { -q } else { q }
}

/// An integer of any size.
#[derive(Debug, Clone)]
pub struct BigInteger {
    pub(crate) bytes: Vec<u8>,
}

impl View for BigInteger {
    type V = int;

    closed spec fn view(&self) -> int {
        twos_value(self.bytes@)
    }
}

impl BigInteger {
    /// A copy with the same value.
    pub fn copy(&self) -> (r: BigInteger)
        ensures
            r@ == self@,
    {
        BigInteger { bytes: self.bytes.clone() }
    }
}

/// `BigInt::from(u128)`.
#[verifier::external_body]
pub(crate) fn big_from_u128(v: u128) -> (r: BigInteger)
    ensures
        r@ == v as int,
{
    BigInteger { bytes: BigInt::from(v).to_signed_bytes_le() }
}

/// `BigInt + BigInt`.
#[verifier::external_body]
pub(crate) fn big_add(a: &BigInteger, b: &BigInteger) -> (r: BigInteger)
    ensures
        r@ == a@ + b@,
{
    let x = BigInt::from_signed_bytes_le(&a.bytes) + BigInt::from_signed_bytes_le(&b.bytes);
    BigInteger { bytes: x.to_signed_bytes_le() }
}

/// `BigInt - BigInt`.
#[verifier::external_body]
pub(crate) fn big_sub(a: &BigInteger, b: &BigInteger) -> (r: BigInteger)
    ensures
        r@ == a@ - b@,
{
    let x = BigInt::from_signed_bytes_le(&a.bytes) - BigInt::from_signed_bytes_le(&b.bytes);
    BigInteger { bytes: x.to_signed_bytes_le() }
}

/// `BigInt * BigInt`.
#[verifier::external_body]
pub(crate) fn big_mul(a: &BigInteger, b: &BigInteger) -> (r: BigInteger)
    ensures
        r@ == a@ * b@,
{
    let x = BigInt::from_signed_bytes_le(&a.bytes) * BigInt::from_signed_bytes_le(&b.bytes);
    BigInteger { bytes: x.to_signed_bytes_le() }
}

/// `BigInt / BigInt`, which rounds toward zero and panics on a zero divisor.
#[verifier::external_body]
pub(crate) fn big_div(a: &BigInteger, b: &BigInteger) -> (r: BigInteger)
    requires
        b@ != 0,
    ensures
        r@ == trunc_div(a@, b@),
{
    let x = BigInt::from_signed_bytes_le(&a.bytes) / BigInt::from_signed_bytes_le(&b.bytes);
    BigInteger { bytes: x.to_signed_bytes_le() }
}

/// `BigInt::sqrt`: the integer square root, rounded down; it panics on a negative value.
#[verifier::external_body]
pub(crate) fn big_sqrt(a: &BigInteger) -> (r: BigInteger)
    requires
        a@ >= 0,
    ensures
        r@ >= 0,
        r@ * r@ <= a@,
        a@ < (r@ + 1) * (r@ + 1),
{
    let x = BigInt::from_signed_bytes_le(&a.bytes).sqrt();
    BigInteger { bytes: x.to_signed_bytes_le() }
}

/// `BigInt::pow` of ten.
#[verifier::external_body]
pub(crate) fn big_pow10(e: u32) -> (r: BigInteger)
    ensures
        r@ == pow(10, e as nat),
{
    BigInteger { bytes: BigInt::from(10u32).pow(e).to_signed_bytes_le() }
}

/// `<BigInt as PartialOrd>::lt`.
#[verifier::external_body]
pub(crate) fn big_lt(a: &BigInteger, b: &BigInteger) -> (r: bool)
    ensures
        r == (a@ < b@),
{
    BigInt::from_signed_bytes_le(&a.bytes) < BigInt::from_signed_bytes_le(&b.bytes)
}

/// `<BigInt as PartialEq>::eq`.
#[verifier::external_body]
pub(crate) fn big_eq(a: &BigInteger, b: &BigInteger) -> (r: bool)
    ensures
        r == (a@ == b@),
{
    BigInt::from_signed_bytes_le(&a.bytes) == BigInt::from_signed_bytes_le(&b.bytes)
}

/// `<BigInt as ToPrimitive>::to_u128`: `None` when the value is outside `u128`.
#[verifier::external_body]
pub(crate) fn big_to_u128(a: &BigInteger) -> (r: Option<u128>)
    ensures
        match r {
            Some(v) => v as int == a@,
            None => a@ < 0 || a@ > u128::MAX,
        },
{
    BigInt::from_signed_bytes_le(&a.bytes).to_u128()
}


/// The character of a decimal digit.
pub open spec fn digit_char(d: nat) -> char {
    (d + 48) as char
}

/// Decimal digits of a natural number, most significant first, with no leading zero.
pub open spec fn nat_digits(n: nat) -> Seq<char>
    decreases n,
{
    if n < 10 {
        seq![digit_char(n)]
    } else {
        nat_digits(n / 10).push(digit_char(n % 10))
    }
}

/// Decimal text of an integer: a minus sign for negative values, then its digits.
pub open spec fn int_to_decimal(a: int) -> Seq<char> {
    if a < 0 {
        seq!['-'] + nat_digits((-a) as nat)
    } else {
        nat_digits(a as nat)
    }
}

/// An ASCII decimal digit byte.
pub open spec fn is_digit_byte(b: u8) -> bool {
    48 <= b <= 57
}

/// Value of ASCII digits, skipping `_` separators.
pub open spec fn digits_value(s: Seq<u8>) -> nat
    decreases s.len(),
{
    if s.len() == 0 {
        0
    } else if s.last() == 95 {
        digits_value(s.drop_last())
    } else {
        digits_value(s.drop_last()) * 10 + (s.last() - 48) as nat
    }
}

/// Digits with optional `_` separators that do not lead.
pub open spec fn unsigned_body_ok(s: Seq<u8>) -> bool {
    &&& s.len() > 0
    &&& s[0] != 95
    &&& forall|i: int| 0 <= i < s.len() ==> is_digit_byte(#[trigger] s[i]) || s[i] == 95
}

/// One leading `+` is dropped unless another `+` follows it.
pub open spec fn strip_plus(s: Seq<u8>) -> Seq<u8> {
    if s.len() > 0 && s[0] == 43 && !(s.len() > 1 && s[1] == 43) {
        s.drop_first()
    } else {
        s
    }
}

/// What decimal parsing of an unsigned integer accepts and gives.
pub open spec fn parse_unsigned(s: Seq<u8>) -> Option<nat> {
    let t = strip_plus(s);
    if unsigned_body_ok(t) {
        Some(digits_value(t))
    } else {
        None
    }
}

/// What decimal parsing of a signed integer accepts and gives: one leading `-`
/// (not followed by `+`) negates the unsigned part.
pub open spec fn parse_signed(s: Seq<u8>) -> Option<int> {
    if s.len() > 0 && s[0] == 45 && !(s.len() > 1 && s[1] == 43) {
        match parse_unsigned(s.drop_first()) {
            Some(v) => Some(-v),
            None => None,
        }
    } else {
        match parse_unsigned(s) {
            Some(v) => Some(v as int),
            None => None,
        }
    }
}

/// `BigInt::to_string` (decimal).
#[verifier::external_body]
pub(crate) fn big_to_decimal(a: &BigInteger) -> (r: String)
    ensures
        r@ == int_to_decimal(a@),
{
    BigInt::from_signed_bytes_le(&a.bytes).to_string()
}

/// `BigInt::parse_bytes` in base ten: `None` when the bytes are not text that
/// `BigInt::from_str_radix` accepts.
#[verifier::external_body]
pub(crate) fn big_parse(s: &[u8]) -> (r: Option<BigInteger>)
    ensures
        match r {
            Some(v) => parse_signed(s@) == Some(v@),
            None => parse_signed(s@) is None,
        },
{
    match BigInt::parse_bytes(s, 10) {
        Some(x) => Some(BigInteger { bytes: x.to_signed_bytes_le() }),
        None => None,
    }
}

} // verus!
