//! Reading the parameters of a swap function call: addresses, tickers and
//! amounts given as text, and the outcome of a call as the contracts see it.

use vstd::prelude::*;
use vstd::utf8::encode_utf8;
use vstd::string::StringSliceAdditionalSpecFns;
use crate::address::{UtxoAddress, OwnerView, AddressError, address_parse};
use crate::chain::Chain;
use crate::decimal::{Brc20Decimal, big_decimal_parse, parse_scaled, ScaledParse, MAX_SCALE};
use crate::error::{BRC20Error, ErrorView, ExecutionError, ExecView};
use crate::operation::SwapFunctionData;
use crate::state::StateView;
use crate::ticker::{BRC20Ticker, ticker_check};

verus! {

/// What a call leaves: the state, and whether it succeeded.
pub type Outcome = (StateView, Result<(), ExecView>);

/// The call was refused; the state is `s`.
pub open spec fn fail(s: StateView, e: ErrorView) -> Outcome {
    (s, Err(ExecView::Failed(e)))
}

/// The rules cannot go on from here (the indexer halts); the state is `s`.
pub open spec fn halt(s: StateView) -> Outcome {
    (s, Err(ExecView::Unexpected))
}

/// The call succeeded, leaving `s`.
pub open spec fn done(s: StateView) -> Outcome {
    (s, Ok(()))
}

/// `r` and `s` are what the outcome `o` says.
pub open spec fn outcome_is(o: Outcome, s: StateView, r: Result<(), ExecutionError>) -> bool {
    &&& s == o.0
    &&& match o.1 {
        Ok(_) => r is Ok,
        Err(e) => r matches Err(x) && x@ == e,
    }
}

/// The owner an address text names on the chain, or the parser's message.
pub open spec fn owner_parse(t: Seq<char>, chain: Chain) -> Result<OwnerView, Seq<char>> {
    match address_parse(t, chain) {
        Ok(p) => Ok(OwnerView::Address(p.0)),
        Err(m) => Err(m),
    }
}

/// An execution error of a refused call.
pub fn failed(e: BRC20Error) -> (r: ExecutionError)
    ensures
        r@ == ExecView::Failed(e@),
{
    ExecutionError::ExecutionFailed(e)
}

/// An execution error that stops the rules.
pub fn unexpected() -> (r: ExecutionError)
    ensures
        r@ == ExecView::Unexpected,
{
    ExecutionError::Unexpected("invalid swap function data".to_owned())
}

/// The parameters of a call; a call without them stops the rules.
pub fn params_of(f: &SwapFunctionData) -> (r: Result<&Vec<String>, ExecutionError>)
    ensures
        match f@.params {
            Some(p) => r matches Ok(v) && v@.map_values(|s: String| s@) == p,
            None => r matches Err(e) && e@ == ExecView::Unexpected,
        },
{
    match &f.params {
        Some(p) => Ok(p),
        None => Err(unexpected()),
    }
}

/// The text equals a literal.
pub fn text_is(t: &String, lit: &str) -> (r: bool)
    ensures
        r == (t@ == lit@),
{
    *t == lit.to_owned()
}

/// The `i`-th parameter; reading past the last one stops the rules.
pub fn param(params: &Vec<String>, i: usize) -> (r: Result<&String, ExecutionError>)
    ensures
        i < params@.len() ==> (r matches Ok(t) && t@ == params@[i as int]@),
        i >= params@.len() ==> (r matches Err(e) && e@ == ExecView::Unexpected),
{
    if i < params.len() {
        Ok(&params[i])
    } else {
        Err(unexpected())
    }
}

/// The owner of an address text on the chain; a text that is not an address
/// is refused with the parser's message.
pub fn parse_owner(t: &String, chain: &Chain) -> (r: Result<UtxoAddress, ExecutionError>)
    ensures
        match owner_parse(t@, *chain) {
            Ok(o) => r matches Ok(a) && a@ == o,
            Err(m) => r matches Err(e) && e@ == ExecView::Failed(ErrorView::AddressParseError(m)),
        },
{
    match UtxoAddress::from_str(t.as_str(), chain) {
        Ok(a) => Ok(a),
        Err(AddressError::Invalid(m)) => Err(failed(BRC20Error::AddressParseError(m))),
    }
}

/// The sender of a call; a call without one stops the rules.
pub fn sender_of(f: &SwapFunctionData, chain: &Chain) -> (r: Result<UtxoAddress, ExecutionError>)
    ensures
        match f@.address {
            None => r matches Err(e) && e@ == ExecView::Unexpected,
            Some(t) => match owner_parse(t, *chain) {
                Ok(o) => r matches Ok(a) && a@ == o,
                Err(m) => r matches Err(e) && e@ == ExecView::Failed(ErrorView::AddressParseError(m)),
            },
        },
{
    match &f.address {
        Some(t) => parse_owner(t, chain),
        None => Err(unexpected()),
    }
}

/// A ticker name; an invalid one is refused.
pub fn parse_ticker(t: &String) -> (r: Result<BRC20Ticker, ExecutionError>)
    ensures
        match ticker_check(encode_utf8(t@)) {
            Ok(_) => r matches Ok(k) && k@ == t@,
            Err(e) => r matches Err(x) && x@ == ExecView::Failed(ErrorView::TickerParse(e)),
        },
{
    match BRC20Ticker::from_str(t.as_str()) {
        Ok(k) => Ok(k),
        Err(e) => Err(failed(BRC20Error::TickerParse(e))),
    }
}

/// A ticker name that the call's checks have already accepted; an invalid one
/// stops the rules.
pub fn expect_ticker(t: &String) -> (r: Result<BRC20Ticker, ExecutionError>)
    ensures
        match ticker_check(encode_utf8(t@)) {
            Ok(_) => r matches Ok(k) && k@ == t@,
            Err(_) => r matches Err(x) && x@ == ExecView::Unexpected,
        },
{
    match BRC20Ticker::from_str(t.as_str()) {
        Ok(k) => Ok(k),
        Err(_) => Err(unexpected()),
    }
}

/// An amount in decimal text of any scale; text that is not a number is refused.
pub fn parse_amount(t: &String) -> (r: Result<Brc20Decimal, ExecutionError>)
    ensures
        match big_decimal_parse(t@) {
            Some(v) => r matches Ok(d) && d@ == v,
            None => r matches Err(e) && e@ == ExecView::Failed(ErrorView::DecimalParseError(t@)),
        },
{
    match Brc20Decimal::from_str(t.as_str()) {
        Ok(d) => Ok(d),
        Err(_) => Err(failed(BRC20Error::DecimalParseError(t.clone()))),
    }
}

/// An amount read at `p` decimal places, when the text is one.
pub open spec fn scaled_amount(t: Seq<char>, p: nat) -> Option<int> {
    match parse_scaled(encode_utf8(t), p) {
        ScaledParse::Value(v) => Some(v),
        _ => None,
    }
}

/// An amount read at exactly `scale` decimal places; text that is not such an
/// amount is refused.
pub fn parse_amount_scaled(t: &String, scale: u8) -> (r: Result<Brc20Decimal, ExecutionError>)
    requires
        scale <= MAX_SCALE,
    ensures
        match scaled_amount(t@, scale as nat) {
            Some(v) => r matches Ok(d) && d@ == (v, scale as int),
            None => r matches Err(e) && e@ == ExecView::Failed(ErrorView::DecimalParseError(t@)),
        },
{
    match Brc20Decimal::from_str_with_scale(t.as_str(), scale) {
        Ok(d) => Ok(d),
        Err(_) => Err(failed(BRC20Error::DecimalParseError(t.clone()))),
    }
}

} // verus!
