//! Checking a ticker and an amount named in a swap operation against the
//! ticker's deployment.

use vstd::prelude::*;
use vstd::utf8::encode_utf8;
use crate::amount::{fixed_parse, parse_fixed};
use crate::decimal::{Brc20Decimal, dec_less, scaled_value, common_scale};
use crate::state::{SwapState, StateView, tkey};
use crate::ticker::BRC20Ticker;
use vstd::string::StrSliceExecFns;

verus! {

/// Why a ticker or an amount was refused.
#[derive(Debug, Clone, Copy, PartialEq, Eq)]
pub enum Error {
    InvalidBrc20Ticker,
    InvalidBrc20Amount,
}

impl Error {
    /// The message of the error.
    pub fn to_string(&self) -> (r: String)
        ensures
            r@ == (match self {
                Error::InvalidBrc20Ticker => "invalid brc20 ticker"@,
                Error::InvalidBrc20Amount => "invalid brc20 amount"@,
            }),
    {
        match self {
            Error::InvalidBrc20Ticker => "invalid brc20 ticker".to_owned(),
            Error::InvalidBrc20Amount => "invalid brc20 amount".to_owned(),
        }
    }
}

/// What checking a ticker and an amount text gives: the ticker must be
/// deployed; an empty amount is zero; otherwise the amount is read at the
/// ticker's decimal places, must not be negative and must not exceed the
/// total supply.
pub open spec fn ticker_verify(s: StateView, ticker: Seq<char>, amt: Seq<char>) -> Result<(int, int), Error> {
    if !s.ticker_infos.contains_key(tkey(ticker)) {
        Err(Error::InvalidBrc20Ticker)
    } else {
        let info = s.ticker_infos[tkey(ticker)];
        if amt.len() == 0 {
            Ok((0, info.decimals as int))
        } else {
            match fixed_parse(encode_utf8(amt), info.decimals as nat) {
                Some(v) => if v > info.total_supply {
                    Err(Error::InvalidBrc20Amount)
                } else {
                    Ok((v, info.decimals as int))
                },
                None => Err(Error::InvalidBrc20Amount),
            }
        }
    }
}

/// At equal scales, numeric order is the order of mantissas.
pub proof fn lemma_less_same_scale(a: (int, int), b: (int, int))
    requires
        a.1 == b.1,
    ensures
        dec_less(a, b) == (a.0 < b.0),
{
    assert(common_scale(a, b) == a.1);
    assert(vstd::arithmetic::power::pow(10, 0) == 1) by {
        vstd::arithmetic::power::lemma_pow0(10);
    }
    assert(scaled_value(a, a.1) == a.0);
    assert(scaled_value(b, a.1) == b.0);
}

/// Checks a ticker and an amount text (see `ticker_verify`).
pub fn check_ticker_verify(context: &SwapState, ticker: &BRC20Ticker, amt_str: &String) -> (r: Result<Brc20Decimal, Error>)
    requires
        context.wf(),
    ensures
        match ticker_verify(context@, ticker@, amt_str@) {
            Ok(v) => r matches Ok(d) && d@ == v,
            Err(e) => r == Err::<Brc20Decimal, Error>(e),
        },
{
    let info = match context.load_brc20_ticker_info(ticker) {
        Some(i) => i,
        None => return Err(Error::InvalidBrc20Ticker),
    };
    if amt_str.as_str().unicode_len() == 0 {
        return Ok(Brc20Decimal::zero(info.decimals));
    }
    let amt = match parse_fixed(amt_str.as_str(), info.decimals) {
        Ok(a) => a,
        Err(_) => return Err(Error::InvalidBrc20Amount),
    };
    let total = Brc20Decimal::zero(info.decimals);
    let total = match Brc20Decimal::from_u128(info.total_supply, info.decimals) {
        Ok(t) => t,
        Err(_) => total,
    };
    proof {
        lemma_less_same_scale(total@, amt@);
    }
    if total.lt(&amt) {
        return Err(Error::InvalidBrc20Amount);
    }
    Ok(amt)
}

} // verus!
