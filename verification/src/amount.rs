//! Arithmetic on amounts as the rules use it: sums and differences only at
//! equal scales, mantissas read as `u128`, and non-negative fixed-point text.

use vstd::prelude::*;
use crate::decimal::{Brc20Decimal, DecimalError, ScaledParse, parse_scaled, MAX_SCALE};
use crate::error::{ExecutionError, ExecView};
use crate::bigint::trunc_div;
use vstd::string::StringSliceAdditionalSpecFns;

verus! {

/// The sum of two amounts, defined only at equal scales.
pub open spec fn add_at(a: (int, int), b: (int, int)) -> Option<(int, int)> {
    if a.1 == b.1 { Some((a.0 + b.0, a.1)) } else { None }
}

/// The difference of two amounts, defined only at equal scales.
pub open spec fn sub_at(a: (int, int), b: (int, int)) -> Option<(int, int)> {
    if a.1 == b.1 { Some((a.0 - b.0, a.1)) } else { None }
}

/// The product of the mantissas, at the left amount's scale.
pub open spec fn mul_at(a: (int, int), b: (int, int)) -> (int, int) {
    (a.0 * b.0, a.1)
}

/// The quotient of the mantissas (rounded toward zero), at the left amount's
/// scale; not defined for a zero divisor.
pub open spec fn div_at(a: (int, int), b: (int, int)) -> Option<(int, int)> {
    if b.0 != 0 { Some((trunc_div(a.0, b.0), a.1)) } else { None }
}

/// `r` is the square root of `a`, rounded down.
pub open spec fn is_root(a: int, r: int) -> bool {
    r >= 0 && r * r <= a && a < (r + 1) * (r + 1)
}

/// The integer square root, rounded down, of a non-negative integer.
pub open spec fn isqrt(a: int) -> int {
    choose|r: int| #[trigger] is_root(a, r)
}

/// The square root of the mantissa at 18 places; not defined for a negative
/// mantissa.
pub open spec fn sqrt_at(a: (int, int)) -> Option<(int, int)> {
    if a.0 >= 0 { Some((isqrt(a.0), 18)) } else { None }
}

/// The rounded-down square root is the only root with these bounds.
pub proof fn lemma_isqrt_unique(a: int, r: int)
    requires
        r >= 0,
        r * r <= a,
        a < (r + 1) * (r + 1),
    ensures
        isqrt(a) == r,
{
    assert(is_root(a, r));
    let c = isqrt(a);
    assert(is_root(a, c));
    if c < r {
        assert((c + 1) * (c + 1) <= r * r) by (nonlinear_arith)
            requires
                0 <= c < r,
        ;
    } else if c > r {
        assert((r + 1) * (r + 1) <= c * c) by (nonlinear_arith)
            requires
                0 <= r < c,
        ;
    }
}

/// The mantissa as a `u128`, when it is one.
pub open spec fn mantissa_u128(a: (int, int)) -> Option<u128> {
    if 0 <= a.0 <= u128::MAX { Some(a.0 as u128) } else { None }
}

/// An amount given by its mantissa and a scale of at most 18.
pub fn constant(v: u128, scale: u8) -> (r: Brc20Decimal)
    requires
        scale <= MAX_SCALE,
    ensures
        r@ == (v as int, scale as int),
{
    match Brc20Decimal::from_u128(v, scale) {
        Ok(d) => d,
        Err(_) => Brc20Decimal::zero(scale),
    }
}

/// Sum of two amounts; amounts of different scales cannot be added, and the
/// rules stop there.
pub fn checked_add(a: &Brc20Decimal, b: &Brc20Decimal) -> (r: Result<Brc20Decimal, ExecutionError>)
    ensures
        match add_at(a@, b@) {
            Some(v) => r matches Ok(d) && d@ == v,
            None => r matches Err(e) && e@ == ExecView::Unexpected,
        },
{
    if a.scale_matches(b) {
        Ok(a.add(b))
    } else {
        Err(ExecutionError::Unexpected("scale not match".to_owned()))
    }
}

/// Difference of two amounts; amounts of different scales cannot be
/// subtracted, and the rules stop there.
pub fn checked_sub(a: &Brc20Decimal, b: &Brc20Decimal) -> (r: Result<Brc20Decimal, ExecutionError>)
    ensures
        match sub_at(a@, b@) {
            Some(v) => r matches Ok(d) && d@ == v,
            None => r matches Err(e) && e@ == ExecView::Unexpected,
        },
{
    if a.scale_matches(b) {
        Ok(a.sub(b))
    } else {
        Err(ExecutionError::Unexpected("scale not match".to_owned()))
    }
}

/// Quotient of two amounts (see `div_at`); a zero divisor stops the rules.
pub fn checked_div(a: &Brc20Decimal, b: &Brc20Decimal) -> (r: Result<Brc20Decimal, ExecutionError>)
    ensures
        match div_at(a@, b@) {
            Some(v) => r matches Ok(d) && d@ == v,
            None => r matches Err(e) && e@ == ExecView::Unexpected,
        },
{
    if b.sign() == 0 {
        Err(ExecutionError::Unexpected("division by zero".to_owned()))
    } else {
        Ok(a.div_mantissa(b))
    }
}

/// Square root of the mantissa at 18 places (see `sqrt_at`); a negative
/// mantissa stops the rules.
pub fn checked_sqrt(a: &Brc20Decimal) -> (r: Result<Brc20Decimal, ExecutionError>)
    ensures
        match sqrt_at(a@) {
            Some(v) => r matches Ok(d) && d@ == v,
            None => r matches Err(e) && e@ == ExecView::Unexpected,
        },
{
    if a.sign() < 0 {
        return Err(ExecutionError::Unexpected("square root of a negative amount".to_owned()));
    }
    match a.sqrt() {
        Some(d) => {
            proof {
                lemma_isqrt_unique(a@.0, d@.0);
            }
            Ok(d)
        },
        None => Err(ExecutionError::Unexpected("square root failed".to_owned())),
    }
}

/// The mantissa as a `u128`; a negative or too large mantissa stops the rules.
pub fn checked_mantissa(a: &Brc20Decimal) -> (r: Result<u128, ExecutionError>)
    ensures
        match mantissa_u128(a@) {
            Some(v) => r == Ok::<u128, ExecutionError>(v),
            None => r matches Err(e) && e@ == ExecView::Unexpected,
        },
{
    match a.try_to_u128() {
        Some(v) => Ok(v),
        None => Err(ExecutionError::Unexpected("amount is not a u128".to_owned())),
    }
}

/// What reading fixed-point text at `p` decimal places gives: an amount of
/// zero or more.
pub open spec fn fixed_parse(b: Seq<u8>, p: nat) -> Option<int> {
    match parse_scaled(b, p) {
        ScaledParse::Value(v) => if v >= 0 { Some(v) } else { None },
        _ => None,
    }
}

/// Reads fixed-point text at exactly `scale` decimal places; negative amounts
/// are refused.
pub fn parse_fixed(s: &str, scale: u8) -> (r: Result<Brc20Decimal, DecimalError>)
    requires
        scale <= MAX_SCALE,
    ensures
        match fixed_parse(s.spec_bytes(), scale as nat) {
            Some(v) => r matches Ok(d) && d@ == (v, scale as int),
            None => r is Err,
        },
{
    let d = Brc20Decimal::from_str_with_scale(s, scale)?;
    if d.sign() < 0 {
        return Err(DecimalError::Negative(s.to_owned()));
    }
    Ok(d)
}

} // verus!
