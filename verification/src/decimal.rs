//! Fixed-point decimal amounts: an integer mantissa and a scale (the number of
//! decimal places). The swap rules compute on mantissas at a fixed scale.

use vstd::prelude::*;
use vstd::arithmetic::power::pow;
use vstd::utf8::{encode_utf8, valid_utf8, is_char_boundary, encode_utf8_valid_utf8,
    is_char_boundary_iff_not_is_continuation_byte, is_char_boundary_start_end_of_seq, valid_utf8_split};
use vstd::string::{StrSliceExecFns, StringSliceAdditionalSpecFns};
use crate::bigint::{
    BigInteger, big_from_u128, big_to_u128, big_lt, big_eq, big_add, big_sub, big_mul, big_div,
    big_sqrt, big_pow10, big_parse, big_to_decimal, trunc_div, nat_digits, int_to_decimal, parse_signed, abs,
};
use bigdecimal::num_bigint::BigInt;
use bigdecimal::BigDecimal;
use std::str::FromStr;

verus! {

/// Largest number of decimal places an amount may carry.
pub const MAX_SCALE: u8 = 18;

/// Why an amount could not be built or parsed.
#[derive(Debug, Clone, PartialEq, Eq)]
pub enum DecimalError {
    /// The text was empty.
    Empty,
    /// The scale is above `MAX_SCALE`.
    ScaleExceedsLimit(u8),
    /// The text holds more than one decimal point.
    InvalidFormat(String),
    /// The integer part is empty or starts with `+`.
    EmptyInteger,
    /// The integer part is not an integer.
    InvalidInteger(String),
    /// The fraction is empty or starts with a sign.
    EmptyDecimal,
    /// The fraction has more digits than allowed.
    PrecisionExceeded(String),
    /// The fraction is not made of digits.
    InvalidDecimal(String),
    /// The text is not a decimal number.
    Unparsable(String),
    /// The amount is negative where only amounts of zero or more are taken.
    Negative(String),
}

/// `mantissa * 10^(k - scale)`: the value expressed at scale `k` (`k >= scale`).
pub open spec fn scaled_value(v: (int, int), k: int) -> int {
    v.0 * pow(10, (k - v.1) as nat)
}

/// The larger of the two scales.
pub open spec fn common_scale(a: (int, int), b: (int, int)) -> int {
    if a.1 >= b.1 { a.1 } else { b.1 }
}

/// `a` is numerically smaller than `b`.
pub open spec fn dec_less(a: (int, int), b: (int, int)) -> bool {
    scaled_value(a, common_scale(a, b)) < scaled_value(b, common_scale(a, b))
}

/// `a` and `b` denote the same number.
pub open spec fn dec_same(a: (int, int), b: (int, int)) -> bool {
    scaled_value(a, common_scale(a, b)) == scaled_value(b, common_scale(a, b))
}

/// A run of `n` zero digits.
pub open spec fn zeros(n: nat) -> Seq<char> {
    Seq::new(n, |i: int| '0')
}

/// Drops trailing zero digits.
pub open spec fn trim_zeros(f: Seq<char>) -> Seq<char>
    decreases f.len(),
{
    if f.len() > 0 && f.last() == '0' {
        trim_zeros(f.drop_last())
    } else {
        f
    }
}

/// Digits of a magnitude placed at a scale: zeros appended for a scale at or
/// below zero; otherwise a point before the last `scale` digits (padded with
/// leading zeros), trailing fraction zeros dropped, and the point dropped with
/// an empty fraction.
pub open spec fn format_magnitude(digits: Seq<char>, scale: int) -> Seq<char> {
    if scale <= 0 {
        digits + zeros((-scale) as nat)
    } else {
        let padded = if digits.len() <= scale {
            zeros((scale + 1 - digits.len()) as nat) + digits
        } else {
            digits
        };
        let cut = padded.len() - scale;
        let frac = trim_zeros(padded.subrange(cut, padded.len() as int));
        if frac.len() == 0 {
            padded.subrange(0, cut)
        } else {
            padded.subrange(0, cut) + seq!['.'] + frac
        }
    }
}

/// Text of an amount: `0` for zero, else an optional minus sign and the magnitude.
pub open spec fn format_decimal(v: (int, int)) -> Seq<char> {
    if v.0 == 0 {
        seq!['0']
    } else if v.0 < 0 {
        seq!['-'] + format_magnitude(nat_digits((-v.0) as nat), v.1)
    } else {
        format_magnitude(nat_digits(v.0 as nat), v.1)
    }
}

/// What `BigDecimal::from_str` gives for a text: its mantissa and scale.
pub uninterp spec fn big_decimal_parse(s: Seq<char>) -> Option<(int, int)>;

/// Index of the first `.` byte, or the length when there is none.
pub open spec fn dot_index(b: Seq<u8>) -> int {
    if exists|i: int| 0 <= i < b.len() && b[i] == 46 {
        choose|i: int| 0 <= i < b.len() && b[i] == 46 && forall|j: int| 0 <= j < i ==> b[j] != 46
    } else {
        b.len() as int
    }
}

/// `n` ASCII `0` bytes.
pub open spec fn ascii_zeros(n: nat) -> Seq<u8> {
    Seq::new(n, |i: int| 48u8)
}

/// Outcome of reading decimal text at a fixed number of decimal places.
pub ghost enum ScaledParse {
    Empty,
    TwoDots,
    EmptyInteger,
    BadInteger,
    EmptyFraction,
    TooPrecise,
    BadFraction,
    Value(int),
}

/// Reading decimal text (as bytes) at `p` decimal places: an integer part that
/// does not start with `+`, an optional fraction of at most `p` digits that does
/// not start with a sign, padded with zeros to `p` digits; the fraction is
/// subtracted from a negative integer part and added otherwise.
pub open spec fn parse_scaled(b: Seq<u8>, p: nat) -> ScaledParse {
    if b.len() == 0 {
        ScaledParse::Empty
    } else {
        let i = dot_index(b);
        if exists|j: int| i < j < b.len() && b[j] == 46 {
            ScaledParse::TwoDots
        } else {
            let ip = b.subrange(0, i);
            if ip.len() == 0 || ip[0] == 43 {
                ScaledParse::EmptyInteger
            } else if parse_signed(ip) is None {
                ScaledParse::BadInteger
            } else if i == b.len() {
                ScaledParse::Value(parse_signed(ip).unwrap() * pow(10, p))
            } else {
                let fp = b.subrange(i + 1, b.len() as int);
                if fp.len() == 0 || fp[0] == 43 || fp[0] == 45 {
                    ScaledParse::EmptyFraction
                } else if fp.len() > p {
                    ScaledParse::TooPrecise
                } else if parse_signed(fp + ascii_zeros((p - fp.len()) as nat)) is None {
                    ScaledParse::BadFraction
                } else {
                    let iv = parse_signed(ip).unwrap();
                    let dv = parse_signed(fp + ascii_zeros((p - fp.len()) as nat)).unwrap();
                    ScaledParse::Value(
                        if iv < 0 { iv * pow(10, p) - dv } else { iv * pow(10, p) + dv },
                    )
                }
            }
        }
    }
}

/// Places a magnitude's digits at a scale (see `format_magnitude`).
fn place_digits(digits: &str, scale: i64) -> (r: String)
    requires
        -(usize::MAX as int) < scale < usize::MAX,
    ensures
        r@ == format_magnitude(digits@, scale as int),
{
    let len = digits.unicode_len();
    if scale <= 0 {
        let mut out = digits.to_owned();
        let count: usize = (-(scale as i128)) as usize;
        let mut k: usize = 0;
        proof { reveal_strlit("0"); }
        while k < count
            invariant
                k <= count,
                count == -scale,
                out@ == digits@ + zeros(k as nat),
            decreases count - k,
        {
            proof { reveal_strlit("0"); }
            out.append("0");
            k = k + 1;
            assert(out@ =~= digits@ + zeros(k as nat));
        }
        return out;
    }
    let sc: usize = scale as usize;
    let mut padded = String::new();
    proof { reveal_strlit("0"); }
    if len <= sc {
        let count = sc - len + 1;
        let mut k: usize = 0;
        while k < count
            invariant
                k <= count,
                padded@ == zeros(k as nat),
            decreases count - k,
        {
            proof { reveal_strlit("0"); }
            padded.append("0");
            k = k + 1;
            assert(padded@ =~= zeros(k as nat));
        }
    }
    padded.append(digits);
    let ghost pspec = if digits@.len() <= scale {
        zeros((scale + 1 - digits@.len()) as nat) + digits@
    } else {
        digits@
    };
    assert(padded@ =~= pspec);
    let plen = padded.as_str().unicode_len();
    let cut = plen - sc;
    let mut end = plen;
    while end > cut && padded.as_str().get_char(end - 1) == '0'
        invariant
            cut <= end <= plen,
            plen == padded@.len(),
            trim_zeros(padded@.subrange(cut as int, plen as int))
                == trim_zeros(padded@.subrange(cut as int, end as int)),
        decreases end,
    {
        let ghost f = padded@.subrange(cut as int, end as int);
        assert(f.drop_last() =~= padded@.subrange(cut as int, end - 1));
        end = end - 1;
    }
    let ghost fr = padded@.subrange(cut as int, end as int);
    assert(trim_zeros(fr) == fr);
    let mut out = padded.as_str().substring_char(0, cut).to_owned();
    if end > cut {
        proof { reveal_strlit("."); }
        out.append(".");
        out.append(padded.as_str().substring_char(cut, end));
    }
    out
}

/// A decimal amount.
#[derive(Debug, Clone)]
pub struct Brc20Decimal {
    mantissa: BigInteger,
    scale: i64,
}

impl View for Brc20Decimal {
    type V = (int, int);

    closed spec fn view(&self) -> (int, int) {
        (self.mantissa@, self.scale as int)
    }
}

/// `BigDecimal::from_str`, split into mantissa and scale.
#[verifier::external_body]
fn parse_big_decimal(s: &str) -> (r: Option<(BigInteger, i64)>)
    ensures
        match r {
            Some(p) => big_decimal_parse(s@) == Some((p.0@, p.1 as int)),
            None => big_decimal_parse(s@) is None,
        },
{
    match BigDecimal::from_str(s) {
        Ok(d) => {
            let (m, sc) = d.into_bigint_and_scale();
            Some((BigInteger { bytes: m.to_signed_bytes_le() }, sc))
        },
        Err(_) => None,
    }
}

/// `<BigDecimal as PartialOrd>::lt`: numeric order whatever the scales.
#[verifier::external_body]
fn big_decimal_lt(a: &Brc20Decimal, b: &Brc20Decimal) -> (r: bool)
    ensures
        r == dec_less(a@, b@),
{
    let x = BigDecimal::new(BigInt::from_signed_bytes_le(&a.mantissa.bytes), a.scale);
    let y = BigDecimal::new(BigInt::from_signed_bytes_le(&b.mantissa.bytes), b.scale);
    x < y
}

/// `r` is the form `BigDecimal` multiplication gives the product of `a` and
/// `b`: the other factor itself where one factor is exactly one, else the
/// product of the mantissas at the sum of the scales.
pub open spec fn dec_product_form(a: (int, int), b: (int, int), r: (int, int)) -> bool {
    ||| r == (a.0 * b.0, a.1 + b.1)
    ||| dec_is_one(a) && r == b
    ||| dec_is_one(b) && r == a
}

/// `a` denotes exactly one.
pub open spec fn dec_is_one(a: (int, int)) -> bool {
    a.1 >= 0 && a.0 == pow(10, a.1 as nat)
}

/// Every form `dec_product_form` allows denotes the product.
pub proof fn lemma_product_form_value(a: (int, int), b: (int, int), r: (int, int))
    requires
        dec_product_form(a, b, r),
    ensures
        dec_same(r, (a.0 * b.0, a.1 + b.1)),
{
    vstd::arithmetic::power::lemma_pow0(10);
    if r != (a.0 * b.0, a.1 + b.1) {
        if dec_is_one(a) && r == b {
            let p = pow(10, a.1 as nat);
            assert(common_scale(r, (a.0 * b.0, a.1 + b.1)) == a.1 + b.1);
            assert(b.0 * p == p * b.0) by (nonlinear_arith);
        } else {
            let p = pow(10, b.1 as nat);
            assert(common_scale(r, (a.0 * b.0, a.1 + b.1)) == a.1 + b.1);
        }
    }
}

/// `<BigDecimal as Mul>::mul`: where a factor is exactly one it returns the
/// other factor unchanged, else the product of the mantissas at the sum of
/// the scales (the scale addition panics on overflow).
#[verifier::external_body]
fn big_decimal_mul(a: &Brc20Decimal, b: &Brc20Decimal) -> (r: Brc20Decimal)
    requires
        i64::MIN <= a@.1 + b@.1 <= i64::MAX,
    ensures
        dec_product_form(a@, b@, r@),
{
    let x = BigDecimal::new(BigInt::from_signed_bytes_le(&a.mantissa.bytes), a.scale);
    let y = BigDecimal::new(BigInt::from_signed_bytes_le(&b.mantissa.bytes), b.scale);
    let (m, sc) = (x * y).into_bigint_and_scale();
    Brc20Decimal { mantissa: BigInteger { bytes: m.to_signed_bytes_le() }, scale: sc }
}

/// What `<BigDecimal as Div>::div` gives for two amounts: the quotient, cut to
/// the number of significant digits fixed when `bigdecimal` was built (100
/// unless the build sets it otherwise) and rounded there.
pub uninterp spec fn big_decimal_quotient(a: (int, int), b: (int, int)) -> (int, int);

/// The division may shift the scale once per digit of the divisor and once
/// per digit of precision: the scale difference must leave room for that.
pub open spec fn quotient_scale_fits(a: (int, int), b: (int, int)) -> bool {
    &&& i64::MIN <= a.1 - b.1
    &&& a.1 - b.1 + nat_digits(abs(b.0) as nat).len() + 100 <= i64::MAX
}

/// The quotient `a / b` ends after `k` more decimal places, with at most 100
/// significant digits (the precision of a default `bigdecimal` build).
pub open spec fn quotient_ends_at(a: (int, int), b: (int, int), k: nat) -> bool {
    &&& (a.0 * pow(10, k)) % b.0 == 0
    &&& nat_digits(abs(a.0 * pow(10, k) / b.0) as nat).len() <= 100
}

/// `<BigDecimal as Div>::div`: its result is named `big_decimal_quotient`. A
/// zero dividend, or a divisor that is exactly one at a scale of at most 38,
/// gives the dividend back unchanged; where the divisor's mantissa divides
/// the dividend's, or the quotient ends within the precision, the result
/// denotes the exact quotient. The rounded digits of a quotient that does not
/// end within the precision are not stated beyond the name.
#[verifier::external_body]
fn big_decimal_div(a: &Brc20Decimal, b: &Brc20Decimal) -> (r: Brc20Decimal)
    requires
        b@.0 != 0,
        quotient_scale_fits(a@, b@),
    ensures
        r@ == big_decimal_quotient(a@, b@),
        a@.0 == 0 ==> r@ == a@,
        dec_is_one(b@) && b@.1 <= 38 ==> r@ == a@,
        a@.0 % b@.0 == 0 ==> dec_same(r@, (a@.0 / b@.0, a@.1 - b@.1)),
        forall|k: nat| #[trigger] quotient_ends_at(a@, b@, k)
            ==> dec_same(r@, (a@.0 * pow(10, k) / b@.0, a@.1 - b@.1 + k)),
{
    let x = BigDecimal::new(BigInt::from_signed_bytes_le(&a.mantissa.bytes), a.scale);
    let y = BigDecimal::new(BigInt::from_signed_bytes_le(&b.mantissa.bytes), b.scale);
    let (m, sc) = (x / y).into_bigint_and_scale();
    Brc20Decimal { mantissa: BigInteger { bytes: m.to_signed_bytes_le() }, scale: sc }
}

/// `<BigDecimal as PartialEq>::eq`: numeric equality whatever the scales.
#[verifier::external_body]
fn big_decimal_eq(a: &Brc20Decimal, b: &Brc20Decimal) -> (r: bool)
    ensures
        r == dec_same(a@, b@),
{
    let x = BigDecimal::new(BigInt::from_signed_bytes_le(&a.mantissa.bytes), a.scale);
    let y = BigDecimal::new(BigInt::from_signed_bytes_le(&b.mantissa.bytes), b.scale);
    x == y
}

impl Brc20Decimal {
    /// The mantissa.
    pub closed spec fn mant(&self) -> int {
        self.mantissa@
    }

    /// The scale.
    pub closed spec fn sc(&self) -> int {
        self.scale as int
    }

    /// An amount with the given mantissa and scale, refused above `MAX_SCALE`.
    pub fn from_bigint(v: BigInteger, scale: u8) -> (r: Result<Brc20Decimal, DecimalError>)
        ensures
            scale > MAX_SCALE ==> r == Err::<Brc20Decimal, DecimalError>(DecimalError::ScaleExceedsLimit(scale)),
            scale <= MAX_SCALE ==> (r matches Ok(d) && d@ == (v@, scale as int)),
    {
        if scale > MAX_SCALE {
            return Err(DecimalError::ScaleExceedsLimit(scale));
        }
        Ok(Brc20Decimal { mantissa: v, scale: scale as i64 })
    }

    /// `v` units at the given scale, refused above `MAX_SCALE`. The amount is
    /// the value `v * 10^-scale`, whatever zeros `v` ends in: 1000 units at 18
    /// places are 10^-15 and print as `0.000000000000001`, while
    /// `0.000000000000000001` (10^-18) is the text of 1 unit at 18 places.
    pub fn from_u128(v: u128, scale: u8) -> (r: Result<Brc20Decimal, DecimalError>)
        ensures
            scale > MAX_SCALE ==> r == Err::<Brc20Decimal, DecimalError>(DecimalError::ScaleExceedsLimit(scale)),
            scale <= MAX_SCALE ==> (r matches Ok(d) && d@ == (v as int, scale as int)),
    {
        Self::from_bigint(big_from_u128(v), scale)
    }

    /// Zero at a scale no larger than `MAX_SCALE`.
    pub fn zero(scale: u8) -> (r: Brc20Decimal)
        requires
            scale <= MAX_SCALE,
        ensures
            r@ == (0int, scale as int),
    {
        Brc20Decimal { mantissa: big_from_u128(0), scale: scale as i64 }
    }

    /// A copy.
    pub fn copy(&self) -> (r: Brc20Decimal)
        ensures
            r@ == self@,
    {
        Brc20Decimal { mantissa: self.mantissa.copy(), scale: self.scale }
    }

    /// The mantissa and the scale.
    pub fn to_bigint(&self) -> (r: (BigInteger, i64))
        ensures
            r.0@ == self@.0,
            r.1 as int == self@.1,
    {
        (self.mantissa.copy(), self.scale)
    }

    /// The mantissa as `u128` and the scale as `u8` (truncated, as a cast does);
    /// the mantissa must be a `u128`.
    pub fn to_u128(&self) -> (r: (u128, u8))
        requires
            0 <= self@.0 <= u128::MAX,
        ensures
            r.0 as int == self@.0,
            r.1 == self@.1 as u8,
    {
        match big_to_u128(&self.mantissa) {
            Some(v) => (v, self.scale as u8),
            None => (0, self.scale as u8),
        }
    }

    /// The mantissa as `u128`, or `None` when it is negative or too large.
    pub fn try_to_u128(&self) -> (r: Option<u128>)
        ensures
            match r {
                Some(v) => v as int == self@.0,
                None => self@.0 < 0 || self@.0 > u128::MAX,
            },
    {
        big_to_u128(&self.mantissa)
    }

    /// The scale, truncated to `u8` as a cast does.
    pub fn get_precision(&self) -> (r: u8)
        ensures
            r == self@.1 as u8,
    {
        self.scale as u8
    }

    /// Same scale.
    pub fn scale_matches(&self, other: &Brc20Decimal) -> (r: bool)
        ensures
            r == (self@.1 == other@.1),
    {
        self.scale == other.scale
    }

    /// `1`, `0` or `-1` as the amount is positive, zero or negative.
    pub fn sign(&self) -> (r: i8)
        ensures
            r == (if self@.0 > 0 { 1i8 } else if self@.0 == 0 { 0i8 } else { -1i8 }),
    {
        let z = big_from_u128(0);
        if big_lt(&z, &self.mantissa) {
            1
        } else if big_eq(&z, &self.mantissa) {
            0
        } else {
            -1
        }
    }

    /// Sum of two amounts of the same scale.
    pub fn add(&self, other: &Brc20Decimal) -> (r: Brc20Decimal)
        requires
            self@.1 == other@.1,
        ensures
            r@ == (self@.0 + other@.0, self@.1),
    {
        Brc20Decimal { mantissa: big_add(&self.mantissa, &other.mantissa), scale: self.scale }
    }

    /// Difference of two amounts of the same scale.
    pub fn sub(&self, other: &Brc20Decimal) -> (r: Brc20Decimal)
        requires
            self@.1 == other@.1,
        ensures
            r@ == (self@.0 - other@.0, self@.1),
    {
        Brc20Decimal { mantissa: big_sub(&self.mantissa, &other.mantissa), scale: self.scale }
    }

    /// Product of the mantissas, kept at this amount's scale. The pool and
    /// liquidity rules compute with this mantissa arithmetic on amounts that
    /// share a scale, and their results depend on it; `mul` is the numeric
    /// product, for callers that want the value.
    pub fn mul_mantissa(&self, other: &Brc20Decimal) -> (r: Brc20Decimal)
        ensures
            r@ == (self@.0 * other@.0, self@.1),
    {
        Brc20Decimal { mantissa: big_mul(&self.mantissa, &other.mantissa), scale: self.scale }
    }

    /// Quotient of the mantissas (rounded toward zero), kept at this amount's
    /// scale; the divisor's mantissa must not be zero. The pool and liquidity
    /// rules divide this way (see `mul_mantissa`); `div` is the numeric
    /// quotient.
    pub fn div_mantissa(&self, other: &Brc20Decimal) -> (r: Brc20Decimal)
        requires
            other@.0 != 0,
        ensures
            r@ == (trunc_div(self@.0, other@.0), self@.1),
    {
        Brc20Decimal { mantissa: big_div(&self.mantissa, &other.mantissa), scale: self.scale }
    }

    /// The exact product of the two numbers; the sum of the scales must fit in `i64`.
    pub fn mul(&self, other: &Brc20Decimal) -> (r: Brc20Decimal)
        requires
            i64::MIN <= self@.1 + other@.1 <= i64::MAX,
        ensures
            dec_product_form(self@, other@, r@),
            dec_same(r@, (self@.0 * other@.0, self@.1 + other@.1)),
    {
        let r = big_decimal_mul(self, other);
        proof { lemma_product_form_value(self@, other@, r@); }
        r
    }

    /// The quotient of the two numbers as `BigDecimal` division gives it (see
    /// `big_decimal_quotient`); the divisor must not be zero and the scales
    /// must leave the division room (see `quotient_scale_fits`).
    pub fn div(&self, other: &Brc20Decimal) -> (r: Brc20Decimal)
        requires
            other@.0 != 0,
            quotient_scale_fits(self@, other@),
        ensures
            r@ == big_decimal_quotient(self@, other@),
            self@.0 == 0 ==> r@ == self@,
            dec_is_one(other@) && other@.1 <= 38 ==> r@ == self@,
            self@.0 % other@.0 == 0 ==> dec_same(r@, (self@.0 / other@.0, self@.1 - other@.1)),
            forall|k: nat| #[trigger] quotient_ends_at(self@, other@, k)
                ==> dec_same(r@, (self@.0 * pow(10, k) / other@.0, self@.1 - other@.1 + k)),
    {
        big_decimal_div(self, other)
    }

    /// Integer square root of the mantissa, put at scale 18; the mantissa must
    /// not be negative.
    pub fn sqrt(&self) -> (r: Option<Brc20Decimal>)
        requires
            self@.0 >= 0,
        ensures
            r matches Some(d) && d@.1 == 18 && d@.0 >= 0 && d@.0 * d@.0 <= self@.0
                && self@.0 < (d@.0 + 1) * (d@.0 + 1),
    {
        Some(Brc20Decimal { mantissa: big_sqrt(&self.mantissa), scale: 18 })
    }

    /// Numerically smaller.
    pub fn lt(&self, other: &Brc20Decimal) -> (r: bool)
        ensures
            r == dec_less(self@, other@),
    {
        big_decimal_lt(self, other)
    }

    /// Numerically equal.
    pub fn num_eq(&self, other: &Brc20Decimal) -> (r: bool)
        ensures
            r == dec_same(self@, other@),
    {
        big_decimal_eq(self, other)
    }

    /// Reads decimal text at exactly `max_precision` decimal places.
    pub fn from_str_with_scale(s: &str, max_precision: u8) -> (r: Result<Brc20Decimal, DecimalError>)
        requires
            max_precision <= MAX_SCALE,
        ensures
            match parse_scaled(s.spec_bytes(), max_precision as nat) {
                ScaledParse::Value(v) => r matches Ok(d) && d@ == (v, max_precision as int),
                ScaledParse::Empty => r == Err::<Brc20Decimal, DecimalError>(DecimalError::Empty),
                ScaledParse::TwoDots => r matches Err(DecimalError::InvalidFormat(t)) && t@ == s@,
                ScaledParse::EmptyInteger => r == Err::<Brc20Decimal, DecimalError>(DecimalError::EmptyInteger),
                ScaledParse::BadInteger => r matches Err(DecimalError::InvalidInteger(t))
                    && encode_utf8(t@) == s.spec_bytes().subrange(0, dot_index(s.spec_bytes())),
                ScaledParse::EmptyFraction => r == Err::<Brc20Decimal, DecimalError>(DecimalError::EmptyDecimal),
                ScaledParse::TooPrecise => r matches Err(DecimalError::PrecisionExceeded(t)) && t@ == s@,
                ScaledParse::BadFraction => r matches Err(DecimalError::InvalidDecimal(t))
                    && encode_utf8(t@) == s.spec_bytes().subrange(dot_index(s.spec_bytes()) + 1, s.spec_bytes().len() as int),
            },
    {
        let b = s.as_bytes();
        let n = b.len();
        let ghost bs = s.spec_bytes();
        if n == 0 {
            return Err(DecimalError::Empty);
        }
        let mut i: usize = 0;
        while i < n && b[i] != 46
            invariant
                b@ == bs,
                n == bs.len(),
                i <= n,
                forall|j: int| 0 <= j < i ==> bs[j] != 46,
            decreases n - i,
        {
            i = i + 1;
        }
        proof {
            if i < n {
                let c = choose|k: int| 0 <= k < bs.len() && bs[k] == 46 && forall|j: int| 0 <= j < k ==> bs[j] != 46;
                assert(bs[i as int] == 46);
                assert(c == i) by {
                    if c < i {
                    } else if c > i {
                        assert(bs[i as int] != 46);
                    }
                }
            }
            assert(dot_index(bs) == i);
        }
        let mut j: usize = if i < n { i + 1 } else { n };
        let mut second = false;
        while j < n && !second
            invariant
                b@ == bs,
                n == bs.len(),
                i < j || i == n,
                i <= j,
                i <= n,
                j <= n,
                second ==> i < j < n && bs[j as int] == 46,
                !second ==> forall|k: int| i < k < j && k < n ==> bs[k] != 46,
            decreases n - j + (if second { 0int } else { 1int }),
        {
            if b[j] == 46 {
                second = true;
            } else {
                j = j + 1;
            }
        }
        if second {
            assert(bs[j as int] == 46);
            return Err(DecimalError::InvalidFormat(s.to_owned()));
        }
        proof {
            broadcast use encode_utf8_valid_utf8;
            assert(valid_utf8(bs));
            is_char_boundary_start_end_of_seq(bs);
            if i < n {
                is_char_boundary_iff_not_is_continuation_byte(bs, i as int);
            }
        }
        let (int_str, rest) = s.split_at(i);
        let ib = int_str.as_bytes();
        assert(ib@ == bs.subrange(0, i as int));
        if ib.len() == 0 || ib[0] == 43 {
            return Err(DecimalError::EmptyInteger);
        }
        let iv = match big_parse(ib) {
            Some(v) => v,
            None => {
                return Err(DecimalError::InvalidInteger(int_str.to_owned()));
            },
        };
        let mut dv = big_from_u128(0);
        if i < n {
            let ghost rb = rest.spec_bytes();
            assert(rb == bs.subrange(i as int, n as int));
            proof {
                valid_utf8_split(bs, i as int);
                reveal_with_fuel(is_char_boundary, 2);
                assert(rb[0] == 46);
            }
            let (_point, frac_str) = rest.split_at(1);
            let fb = frac_str.as_bytes();
            assert(fb@ == bs.subrange(i + 1, n as int));
            if fb.len() == 0 || fb[0] == 43 || fb[0] == 45 {
                return Err(DecimalError::EmptyDecimal);
            }
            if fb.len() > max_precision as usize {
                return Err(DecimalError::PrecisionExceeded(s.to_owned()));
            }
            let mut padded = frac_str.as_bytes_vec();
            let target = max_precision as usize;
            while padded.len() < target
                invariant
                    fb@.len() <= target,
                    padded@.len() <= target,
                    padded@.len() >= fb@.len(),
                    padded@ == fb@ + ascii_zeros((padded@.len() - fb@.len()) as nat),
                decreases target - padded.len(),
            {
                padded.push(48u8);
                assert(padded@ == fb@ + ascii_zeros((padded@.len() - fb@.len()) as nat));
            }
            dv = match big_parse(padded.as_slice()) {
                Some(v) => v,
                None => {
                    return Err(DecimalError::InvalidDecimal(frac_str.to_owned()));
                },
            };
        }
        let scaled = big_mul(&iv, &big_pow10(max_precision as u32));
        let zero = big_from_u128(0);
        let merged = if big_lt(&iv, &zero) {
            big_sub(&scaled, &dv)
        } else {
            big_add(&scaled, &dv)
        };
        Ok(Brc20Decimal { mantissa: merged, scale: max_precision as i64 })
    }

    /// Text of the amount's value: no exponent, trailing fraction zeros
    /// dropped (see `format_decimal`), so 1000 units at 3 places print as `1`
    /// and 1000 units at 18 places as `0.000000000000001`.
    pub fn to_string(&self) -> (r: String)
        requires
            -(usize::MAX as int) < self@.1 < usize::MAX,
        ensures
            r@ == format_decimal(self@),
    {
        let zero = big_from_u128(0);
        if big_eq(&self.mantissa, &zero) {
            proof { reveal_strlit("0"); }
            return "0".to_owned();
        }
        let neg = big_lt(&self.mantissa, &zero);
        let mag = if neg { big_sub(&zero, &self.mantissa) } else { self.mantissa.copy() };
        let digits = big_to_decimal(&mag);
        assert(digits@ == nat_digits(mag@ as nat));
        let body = place_digits(digits.as_str(), self.scale);
        if neg {
            proof { reveal_strlit("-"); }
            let mut out = "-".to_owned();
            out.append(body.as_str());
            out
        } else {
            body
        }
    }

    /// Parses decimal text as `BigDecimal::from_str` does (any scale, signs and exponents).
    pub fn from_str(s: &str) -> (r: Result<Brc20Decimal, DecimalError>)
        ensures
            match r {
                Ok(d) => big_decimal_parse(s@) == Some(d@),
                Err(e) => big_decimal_parse(s@) is None && (e matches DecimalError::Unparsable(t) && t@ == s@),
            },
    {
        match parse_big_decimal(s) {
            Some(p) => Ok(Brc20Decimal { mantissa: p.0, scale: p.1 }),
            None => Err(DecimalError::Unparsable(s.to_owned())),
        }
    }
}


/// Adding an amount and then taking it away gives the first amount back, at
/// the same scale.
pub proof fn lemma_add_then_sub(a: (int, int), b: (int, int))
    requires
        a.1 == b.1,
    ensures
        ((a.0 + b.0) - b.0, a.1) == a,
        ((a.0 - b.0) + b.0, a.1) == a,
{
}

} // verus!
