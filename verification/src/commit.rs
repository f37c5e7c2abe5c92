//! Commits: a module's sequencer inscribes a batch of swap function calls
//! (checked when inscribed), then sends it to the module, which pays the gas
//! of each call and applies them in order.

use vstd::prelude::*;
use vstd::utf8::encode_utf8;
use vstd::string::{StrSliceExecFns, StringSliceAdditionalSpecFns};
use crate::account::{send_spec, send_lp_spec, lock_spec, unlock_spec, decrease_approval_spec};
use crate::address::{UtxoAddress, OwnerView, InscriptionId, AddressError, address_parse, hex_lower, hex_decode, script_owner, script_to_hex, script_from_hex};
use crate::amount::{add_at, sub_at, fixed_parse, parse_fixed, checked_add, checked_sub};
use crate::chain::Chain;
use crate::decimal::{Brc20Decimal, dec_less};
use crate::entry::{BRC20Receipt, ReceiptView, BRC20ModuleInfo, ModuleInfoView, BRC20ModuleTokenBalance, TokenBalanceView, empty_token_balance, opt_text, copy_opt};
use crate::error::{BRC20Error, ErrorView, ExecutionError, ExecView};
use crate::event::{BRC20Event, BRC20OpType, EventView, InscribeCommitEvent, TransferCommitEvent, op_type_of};
use crate::executor::{
    BRC20ExecutionMessage, ExecOutcome, exec_is, refuse, stop, receipt_of, receiver_or_sender, id_text,
    inscribe_transfer_spec, create_module_spec, inscribe_withdraw_spec, transfer_withdraw_spec,
};
use crate::liquidity::{add_liq_spec, remove_liq_spec};
use crate::operation::{BRC20Operation, Commit, CommitView, SwapFunctionData, FunctionView, opt_str, opt_calls};
use crate::params::{Outcome, fail, halt, done, outcome_is, failed, unexpected, text_is};
use crate::pool::{deploy_pool_spec, swap_spec};
use crate::state::{SwapState, StateView, tkey, copy_commit};
use crate::ticker::{BRC20Ticker, ticker_check, unicode_lowercase, str_to_lowercase};
use crate::utils::{first_byte_index, pair_ok, decode_tokens_from_swap_pair, is_module_script, module_of_script, get_module_from_script};
use crate::verify::{ticker_verify, check_ticker_verify};

verus! {

/// From this height on, a commit call that is invalid or fails is skipped
/// instead of failing the commit.
pub const SKIP_INVALID_COMMIT_FUNC_FROM_HEIGHT: u32 = 1000000;

/// A commit call was refused when inscribed: the function and the reason.
pub open spec fn cif(function: Seq<char>, reason: Seq<char>) -> Result<(), ExecView> {
    Err(ExecView::Failed(ErrorView::CommitInvalidFunction(function, reason)))
}

/// A ticker name that the checks need to read; an invalid one halts the rules.
pub open spec fn bad_name(t: Seq<char>) -> bool {
    ticker_check(encode_utf8(t)) is Err
}

/// A ticker pair `token0/token1` that splits into two tickers.
pub open spec fn pair_text_ok(t0: Seq<char>, t1: Seq<char>) -> bool {
    let b = encode_utf8(t0 + "/"@ + t1);
    first_byte_index(b, 47) < b.len() && pair_ok(b)
}

/// The check of the pool calls (`lock`, `unlock`): two tickers deployed whose
/// pair text splits, and shares at 18 places.
pub open spec fn pool_call_check(s: StateView, name: Seq<char>, p: Seq<Seq<char>>) -> Result<(), ExecView> {
    if p.len() != 3 {
        cif(name, "params invalid"@)
    } else if bad_name(p[0]) {
        Err(ExecView::Unexpected)
    } else if ticker_verify(s, p[0], Seq::empty()) is Err {
        cif(name, "token0 invalid"@)
    } else if bad_name(p[1]) {
        Err(ExecView::Unexpected)
    } else if ticker_verify(s, p[1], Seq::empty()) is Err {
        cif(name, "token1 invalid"@)
    } else if !pair_text_ok(p[0], p[1]) {
        cif(name, "pool pair invalid"@)
    } else if fixed_parse(encode_utf8(p[2]), 18) is None {
        cif(name, "amtLp invalid, "@ + p[2])
    } else {
        Ok(())
    }
}

/// The check of a `swap` call when inscribed.
pub open spec fn swap_call_check(s: StateView, p: Seq<Seq<char>>) -> Result<(), ExecView> {
    if p.len() != 7 {
        cif("swap"@, "params invalid"@)
    } else if p[2] != p[0] && p[2] != p[1] {
        cif("swap"@, "token invalid"@)
    } else if p[4] != "exactIn"@ && p[4] != "exactOut"@ {
        cif("swap"@, "direction invalid"@)
    } else {
        let other = if p[2] == p[0] { p[1] } else { p[0] };
        let exact_in = p[4] == "exactIn"@;
        let tin = if exact_in { p[2] } else { other };
        let tin_amt = if exact_in { p[3] } else { p[5] };
        let tout = if exact_in { other } else { p[2] };
        let tout_amt = if exact_in { p[5] } else { p[3] };
        if bad_name(tin) {
            Err(ExecView::Unexpected)
        } else if ticker_verify(s, tin, tin_amt) is Err {
            cif("swap"@, "token amount invalid"@)
        } else if bad_name(tout) {
            Err(ExecView::Unexpected)
        } else if ticker_verify(s, tout, tout_amt) is Err {
            cif("swap"@, "amt1 invalid"@)
        } else if fixed_parse(encode_utf8(p[6]), 3) is None {
            cif("swap"@, "slippage invalid"@)
        } else {
            Ok(())
        }
    }
}

/// The check of a liquidity call (`addLiq` or `removeLiq`) when inscribed.
pub open spec fn liq_call_check(s: StateView, add: bool, p: Seq<Seq<char>>) -> Result<(), ExecView> {
    let name = if add { "addLiq"@ } else { "removeLiq"@ };
    if p.len() != 6 {
        cif(name, "params invalid"@)
    } else if bad_name(p[0]) || bad_name(p[1]) {
        Err(ExecView::Unexpected)
    } else if add {
        if ticker_verify(s, p[0], p[2]) is Err {
            cif(name, "amt0 invalid"@)
        } else if ticker_verify(s, p[1], p[3]) is Err {
            cif(name, "amt1 invalid"@)
        } else if fixed_parse(encode_utf8(p[4]), 18) is None {
            cif(name, "amtLp invalid"@)
        } else if fixed_parse(encode_utf8(p[5]), 3) is None {
            cif(name, "slippage invalid"@)
        } else {
            Ok(())
        }
    } else {
        if fixed_parse(encode_utf8(p[2]), 18) is None {
            cif(name, "amtLp invalid, "@ + p[0] + "/"@ + p[1] + ")"@)
        } else if ticker_verify(s, p[0], p[3]) is Err {
            cif(name, "amt0 invalid"@)
        } else if ticker_verify(s, p[1], p[4]) is Err {
            cif(name, "amt1 invalid"@)
        } else if fixed_parse(encode_utf8(p[5]), 3) is None {
            cif(name, "slippage invalid"@)
        } else {
            Ok(())
        }
    }
}

/// The check of a transfer call (`send`, `sendLp`, `decreaseApproval`) when inscribed.
pub open spec fn transfer_call_check(s: StateView, chain: Chain, name: Seq<char>, p: Seq<Seq<char>>) -> Result<(), ExecView> {
    if name == "decreaseApproval"@ {
        if p.len() != 2 {
            cif(name, "params invalid"@)
        } else if bad_name(p[0]) {
            Err(ExecView::Unexpected)
        } else if ticker_verify(s, p[0], p[1]) is Err {
            cif(name, "amt invalid"@)
        } else {
            Ok(())
        }
    } else if name == "send"@ {
        if p.len() != 3 {
            cif(name, "params invalid"@)
        } else if address_parse(p[0], chain) is Err {
            cif(name, "addr invalid"@)
        } else if bad_name(p[1]) {
            Err(ExecView::Unexpected)
        } else if ticker_verify(s, p[1], p[2]) is Err {
            cif(name, "amt invalid"@)
        } else {
            Ok(())
        }
    } else {
        if p.len() != 4 {
            cif("sendlp"@, "params invalid"@)
        } else if address_parse(p[0], chain) is Err {
            cif("sendlp"@, "addr invalid"@)
        } else if bad_name(p[1]) {
            Err(ExecView::Unexpected)
        } else if ticker_verify(s, p[1], Seq::empty()) is Err {
            cif("sendlp"@, "token0 invalid"@)
        } else if bad_name(p[2]) {
            Err(ExecView::Unexpected)
        } else if ticker_verify(s, p[2], Seq::empty()) is Err {
            cif("sendlp"@, "token1 invalid"@)
        } else if !pair_text_ok(p[1], p[2]) {
            cif("sendlp"@, "pool pair invalid"@)
        } else if fixed_parse(encode_utf8(p[3]), 18) is None {
            cif("sendlp"@, "amtLp invalid, "@ + p[3])
        } else {
            Ok(())
        }
    }
}

/// The check of one call of a commit when inscribed: the function must be
/// known and its parameters of the right number and valid (tickers deployed,
/// amounts within their supplies, addresses of the chain, shares at 18 places,
/// slippage at 3). A call without a function or without parameters halts the
/// rules, as does a ticker name that is read and invalid.
#[verifier::opaque]
pub open spec fn call_check(s: StateView, chain: Chain, f: FunctionView) -> Result<(), ExecView> {
    match f.function {
        None => Err(ExecView::Unexpected),
        Some(name) => if name == "deployPool"@ || name == "addLiq"@ || name == "removeLiq"@ || name == "swap"@
            || name == "decreaseApproval"@ || name == "send"@ || name == "sendLp"@ || name == "lock"@
            || name == "unlock"@ {
            match f.params {
                None => Err(ExecView::Unexpected),
                Some(p) => if name == "deployPool"@ {
                    if p.len() != 2 {
                        cif("deploy_pool"@, "params invalid"@)
                    } else if bad_name(p[0]) || bad_name(p[1]) {
                        Err(ExecView::Unexpected)
                    } else if p[0] == p[1] {
                        cif("deploy_pool"@, "same tokens"@)
                    } else if ticker_verify(s, p[0], Seq::empty()) is Err {
                        cif("deploy_pool"@, "tick0 invalid"@)
                    } else if ticker_verify(s, p[1], Seq::empty()) is Err {
                        cif("deploy_pool"@, "tick1 invalid"@)
                    } else {
                        Ok(())
                    }
                } else if name == "addLiq"@ || name == "removeLiq"@ {
                    liq_call_check(s, name == "addLiq"@, p)
                } else if name == "swap"@ {
                    swap_call_check(s, p)
                } else if name == "lock"@ || name == "unlock"@ {
                    pool_call_check(s, name, p)
                } else {
                    transfer_call_check(s, chain, name, p)
                },
            }
        } else {
            cif(name, "function invalid"@)
        },
    }
}

/// The first call that fails its check, if any.
pub open spec fn first_failed_call(s: StateView, chain: Chain, calls: Seq<FunctionView>) -> int {
    choose|i: int| 0 <= i < calls.len() && call_check(s, chain, calls[i]) is Err
        && forall|j: int| 0 <= j < i ==> call_check(s, chain, #[trigger] calls[j]) is Ok
}

/// The check of a commit's calls: the outcome of the first call that fails, or
/// success.
pub open spec fn calls_check(s: StateView, chain: Chain, calls: Seq<FunctionView>) -> Result<(), ExecView> {
    if exists|i: int| 0 <= i < calls.len() && #[trigger] call_check(s, chain, calls[i]) is Err {
        call_check(s, chain, calls[first_failed_call(s, chain, calls)])
    } else {
        Ok(())
    }
}

/// The check of a commit when inscribed: it names a module (else the rules
/// halt) whose id is in lowercase and which exists; its gas ticker must be a
/// valid name and its gas price (which must be given) a valid amount of it;
/// then each call is checked in order.
pub open spec fn commit_check(s: StateView, chain: Chain, c: CommitView) -> Result<(), ExecView> {
    match c.module {
        None => Err(ExecView::Unexpected),
        Some(mid) => if unicode_lowercase(mid) != mid {
            Err(ExecView::Failed(ErrorView::ModuleIDInvalid(mid)))
        } else if !s.module_infos.contains_key(mid) {
            Err(ExecView::Failed(ErrorView::ModuleNotFound(mid)))
        } else {
            let mi = s.module_infos[mid];
            if bad_name(mi.gas_tick) {
                Err(ExecView::Unexpected)
            } else {
                match c.gas_price {
                    None => Err(ExecView::Unexpected),
                    Some(gp) => if ticker_verify(s, mi.gas_tick, gp) is Err {
                        Err(ExecView::Failed(ErrorView::InvalidGasPrice(gp)))
                    } else {
                        match c.data {
                            None => Ok(()),
                            Some(calls) => calls_check(s, chain, calls),
                        }
                    },
                }
            }
        },
    }
}

/// An inscription-time check failure.
fn cif_err(function: &str, reason: &str) -> (r: ExecutionError)
    ensures
        r@ == ExecView::Failed(ErrorView::CommitInvalidFunction(function@, reason@)),
{
    failed(BRC20Error::CommitInvalidFunction(function.to_owned(), reason.to_owned()))
}

/// Whether a ticker (whose name must be valid, else the rules halt) and an
/// amount text pass `check_ticker_verify`.
fn verify_ok(context: &SwapState, t: &String, amt: &String) -> (r: Result<bool, ExecutionError>)
    requires
        context.wf(),
    ensures
        bad_name(t@) ==> (r matches Err(e) && e@ == ExecView::Unexpected),
        !bad_name(t@) ==> r == Ok::<bool, ExecutionError>(ticker_verify(context@, t@, amt@) is Ok),
{
    let k = match BRC20Ticker::from_str(t.as_str()) {
        Ok(k) => k,
        Err(_) => return Err(unexpected()),
    };
    Ok(check_ticker_verify(context, &k, amt).is_ok())
}

/// Whether the text is a non-negative amount at the given places.
fn fixed_ok(t: &String, scale: u8) -> (r: bool)
    requires
        scale <= 18,
    ensures
        r == (fixed_parse(encode_utf8(t@), scale as nat) is Some),
{
    parse_fixed(t.as_str(), scale).is_ok()
}

/// Whether `t0/t1` splits into a ticker pair.
fn pair_text_ok_exec(t0: &String, t1: &String) -> (r: bool)
    ensures
        r == pair_text_ok(t0@, t1@),
{
    let mut text = t0.clone();
    assert(text@ == t0@);
    text.append("/");
    text.append(t1.as_str());
    assert(text@ == t0@ + "/"@ + t1@);
    let ts = text.as_str();
    assert(ts.spec_bytes() == encode_utf8(t0@ + "/"@ + t1@));
    let r = decode_tokens_from_swap_pair(ts);
    r.is_ok()
}

/// The check of a `lock` or `unlock` call (see `pool_call_check`).
fn pool_call_check_exec(context: &SwapState, name: &String, params: &Vec<String>) -> (r: Result<(), ExecutionError>)
    requires
        context.wf(),
    ensures
        match pool_call_check(context@, name@, params@.map_values(|s: String| s@)) {
            Ok(_) => r is Ok,
            Err(e) => r matches Err(x) && x@ == e,
        },
{
    let ghost p = params@.map_values(|s: String| s@);
    if params.len() != 3 {
        return Err(failed(BRC20Error::CommitInvalidFunction(name.clone(), "params invalid".to_owned())));
    }
    assert(p[0] == params@[0]@ && p[1] == params@[1]@ && p[2] == params@[2]@);
    if !verify_ok(context, &params[0], &String::new())? {
        return Err(failed(BRC20Error::CommitInvalidFunction(name.clone(), "token0 invalid".to_owned())));
    }
    if !verify_ok(context, &params[1], &String::new())? {
        return Err(failed(BRC20Error::CommitInvalidFunction(name.clone(), "token1 invalid".to_owned())));
    }
    if !pair_text_ok_exec(&params[0], &params[1]) {
        return Err(failed(BRC20Error::CommitInvalidFunction(name.clone(), "pool pair invalid".to_owned())));
    }
    if !fixed_ok(&params[2], 18) {
        let mut reason = "amtLp invalid, ".to_owned();
        reason.append(params[2].as_str());
        return Err(failed(BRC20Error::CommitInvalidFunction(name.clone(), reason)));
    }
    Ok(())
}

/// The check of a `swap` call (see `swap_call_check`).
fn swap_call_check_exec(context: &SwapState, params: &Vec<String>) -> (r: Result<(), ExecutionError>)
    requires
        context.wf(),
    ensures
        match swap_call_check(context@, params@.map_values(|s: String| s@)) {
            Ok(_) => r is Ok,
            Err(e) => r matches Err(x) && x@ == e,
        },
{
    let ghost p = params@.map_values(|s: String| s@);
    if params.len() != 7 {
        return Err(cif_err("swap", "params invalid"));
    }
    assert(p[0] == params@[0]@ && p[1] == params@[1]@ && p[2] == params@[2]@ && p[3] == params@[3]@);
    assert(p[4] == params@[4]@ && p[5] == params@[5]@ && p[6] == params@[6]@);
    if !(params[2] == params[0]) && !(params[2] == params[1]) {
        return Err(cif_err("swap", "token invalid"));
    }
    let exact_in = text_is(&params[4], "exactIn");
    if !exact_in && !text_is(&params[4], "exactOut") {
        return Err(cif_err("swap", "direction invalid"));
    }
    let other = if params[2] == params[0] { &params[1] } else { &params[0] };
    let (tin, tin_amt, tout, tout_amt) = if exact_in {
        (&params[2], &params[3], other, &params[5])
    } else {
        (other, &params[5], &params[2], &params[3])
    };
    if !verify_ok(context, tin, tin_amt)? {
        return Err(cif_err("swap", "token amount invalid"));
    }
    if !verify_ok(context, tout, tout_amt)? {
        return Err(cif_err("swap", "amt1 invalid"));
    }
    if !fixed_ok(&params[6], 3) {
        return Err(cif_err("swap", "slippage invalid"));
    }
    Ok(())
}

/// The check of an `addLiq` or `removeLiq` call (see `liq_call_check`).
fn liq_call_check_exec(context: &SwapState, add: bool, params: &Vec<String>) -> (r: Result<(), ExecutionError>)
    requires
        context.wf(),
    ensures
        match liq_call_check(context@, add, params@.map_values(|s: String| s@)) {
            Ok(_) => r is Ok,
            Err(e) => r matches Err(x) && x@ == e,
        },
{
    let ghost p = params@.map_values(|s: String| s@);
    let name = if add { "addLiq" } else { "removeLiq" };
    if params.len() != 6 {
        return Err(cif_err(name, "params invalid"));
    }
    assert(p[0] == params@[0]@ && p[1] == params@[1]@ && p[2] == params@[2]@);
    assert(p[3] == params@[3]@ && p[4] == params@[4]@ && p[5] == params@[5]@);
    if BRC20Ticker::from_str(params[0].as_str()).is_err() || BRC20Ticker::from_str(params[1].as_str()).is_err() {
        return Err(unexpected());
    }
    if add {
        if !verify_ok(context, &params[0], &params[2])? {
            return Err(cif_err(name, "amt0 invalid"));
        }
        if !verify_ok(context, &params[1], &params[3])? {
            return Err(cif_err(name, "amt1 invalid"));
        }
        if !fixed_ok(&params[4], 18) {
            return Err(cif_err(name, "amtLp invalid"));
        }
        if !fixed_ok(&params[5], 3) {
            return Err(cif_err(name, "slippage invalid"));
        }
    } else {
        if !fixed_ok(&params[2], 18) {
            let mut reason = "amtLp invalid, ".to_owned();
            reason.append(params[0].as_str());
            reason.append("/");
            reason.append(params[1].as_str());
            reason.append(")");
            return Err(failed(BRC20Error::CommitInvalidFunction(name.to_owned(), reason)));
        }
        if !verify_ok(context, &params[0], &params[3])? {
            return Err(cif_err(name, "amt0 invalid"));
        }
        if !verify_ok(context, &params[1], &params[4])? {
            return Err(cif_err(name, "amt1 invalid"));
        }
        if !fixed_ok(&params[5], 3) {
            return Err(cif_err(name, "slippage invalid"));
        }
    }
    Ok(())
}

/// The check of a `send`, `sendLp` or `decreaseApproval` call (see
/// `transfer_call_check`).
fn transfer_call_check_exec(context: &SwapState, chain: &Chain, name: &String, params: &Vec<String>) -> (r: Result<(), ExecutionError>)
    requires
        context.wf(),
    ensures
        match transfer_call_check(context@, *chain, name@, params@.map_values(|s: String| s@)) {
            Ok(_) => r is Ok,
            Err(e) => r matches Err(x) && x@ == e,
        },
{
    let ghost p = params@.map_values(|s: String| s@);
    if text_is(name, "decreaseApproval") {
        if params.len() != 2 {
            return Err(cif_err("decreaseApproval", "params invalid"));
        }
        assert(p[0] == params@[0]@ && p[1] == params@[1]@);
        if !verify_ok(context, &params[0], &params[1])? {
            return Err(cif_err("decreaseApproval", "amt invalid"));
        }
        Ok(())
    } else if text_is(name, "send") {
        if params.len() != 3 {
            return Err(cif_err("send", "params invalid"));
        }
        assert(p[0] == params@[0]@ && p[1] == params@[1]@ && p[2] == params@[2]@);
        if UtxoAddress::get_script_by_str(params[0].as_str(), chain).is_err() {
            return Err(cif_err("send", "addr invalid"));
        }
        if !verify_ok(context, &params[1], &params[2])? {
            return Err(cif_err("send", "amt invalid"));
        }
        Ok(())
    } else {
        if params.len() != 4 {
            return Err(cif_err("sendlp", "params invalid"));
        }
        assert(p[0] == params@[0]@ && p[1] == params@[1]@ && p[2] == params@[2]@ && p[3] == params@[3]@);
        if UtxoAddress::get_script_by_str(params[0].as_str(), chain).is_err() {
            return Err(cif_err("sendlp", "addr invalid"));
        }
        if !verify_ok(context, &params[1], &String::new())? {
            return Err(cif_err("sendlp", "token0 invalid"));
        }
        if !verify_ok(context, &params[2], &String::new())? {
            return Err(cif_err("sendlp", "token1 invalid"));
        }
        if !pair_text_ok_exec(&params[1], &params[2]) {
            return Err(cif_err("sendlp", "pool pair invalid"));
        }
        if !fixed_ok(&params[3], 18) {
            let mut reason = "amtLp invalid, ".to_owned();
            reason.append(params[3].as_str());
            return Err(failed(BRC20Error::CommitInvalidFunction("sendlp".to_owned(), reason)));
        }
        Ok(())
    }
}

/// The check of one call of a commit (see `call_check`).
fn call_check_exec(context: &SwapState, chain: &Chain, f: &SwapFunctionData) -> (r: Result<(), ExecutionError>)
    requires
        context.wf(),
    ensures
        match call_check(context@, *chain, f@) {
            Ok(_) => r is Ok,
            Err(e) => r matches Err(x) && x@ == e,
        },
{
    proof {
        reveal(call_check);
    }
    let name = match &f.function {
        Some(n) => n,
        None => return Err(unexpected()),
    };
    let known = text_is(name, "deployPool") || text_is(name, "addLiq") || text_is(name, "removeLiq")
        || text_is(name, "swap") || text_is(name, "decreaseApproval") || text_is(name, "send")
        || text_is(name, "sendLp") || text_is(name, "lock") || text_is(name, "unlock");
    if !known {
        return Err(failed(BRC20Error::CommitInvalidFunction(name.clone(), "function invalid".to_owned())));
    }
    let params = match &f.params {
        Some(p) => p,
        None => return Err(unexpected()),
    };
    let ghost p = params@.map_values(|s: String| s@);
    if text_is(name, "deployPool") {
        if params.len() != 2 {
            return Err(cif_err("deploy_pool", "params invalid"));
        }
        assert(p[0] == params@[0]@ && p[1] == params@[1]@);
        if BRC20Ticker::from_str(params[0].as_str()).is_err() || BRC20Ticker::from_str(params[1].as_str()).is_err() {
            return Err(unexpected());
        }
        if params[0] == params[1] {
            return Err(cif_err("deploy_pool", "same tokens"));
        }
        if !verify_ok(context, &params[0], &String::new())? {
            return Err(cif_err("deploy_pool", "tick0 invalid"));
        }
        if !verify_ok(context, &params[1], &String::new())? {
            return Err(cif_err("deploy_pool", "tick1 invalid"));
        }
        Ok(())
    } else if text_is(name, "addLiq") || text_is(name, "removeLiq") {
        liq_call_check_exec(context, text_is(name, "addLiq"), params)
    } else if text_is(name, "swap") {
        swap_call_check_exec(context, params)
    } else if text_is(name, "lock") || text_is(name, "unlock") {
        pool_call_check_exec(context, name, params)
    } else {
        transfer_call_check_exec(context, chain, name, params)
    }
}

/// The inscription ids of commits that are skipped when inscribed.
pub open spec fn skipped_inscribe_commit(id: Seq<char>) -> bool {
    ||| id == "56ae3cc5e5ca64114cd1fb834254c0d196144ed60b821ad1c0511801c5b16283i0"@
    ||| id == "f31d611021a5b26adda9a91ff2d1dacd52dda6a151147820f56ac9f7dae0a902i0"@
    ||| id == "15c0aff274bfeeb4706fa0a85fa666ace8a3f4bc11e8c446188e7a030966760fi0"@
    ||| id == "4cd999f20bede0a7cc2a1d69f1370f8cafd2ca73d1f0984da5d112f623da7eb6i0"@
    ||| id == "66a8c7b62b0be2d21d2b7918315a97e4fa83e10b3a0bf161f4ac0768cecf4545i0"@
}

/// The inscription ids of commits that are skipped when sent to their module.
pub open spec fn skipped_transfer_commit(id: Seq<char>) -> bool {
    ||| id == "56ae3cc5e5ca64114cd1fb834254c0d196144ed60b821ad1c0511801c5b16283i0"@
    ||| id == "15c0aff274bfeeb4706fa0a85fa666ace8a3f4bc11e8c446188e7a030966760fi0"@
}

/// What inscribing a commit does: a skipped commit is reported as inscribed
/// (to its sender) and kept nowhere; otherwise the commit must pass
/// `commit_check` and is kept under its inscription id until it is sent.
pub open spec fn inscribe_commit_spec(s: StateView, m: BRC20ExecutionMessage, chain: Chain) -> ExecOutcome {
    let id = id_text(m.inscription_id);
    if skipped_inscribe_commit(id) {
        (s, Ok(receipt_of(m, BRC20OpType::Commit, m.inscription_number, m.sender@, m.sender@, EventView::InscribeCommit { module: id })))
    } else {
        match m.operation {
            BRC20Operation::Commit(c) => match commit_check(s, chain, c@) {
                Err(e) => (s, Err(e)),
                Ok(_) => (
                    StateView { commits: s.commits.insert(id, c@), ..s },
                    Ok(receipt_of(m, BRC20OpType::Commit, m.inscription_number, m.sender@, receiver_or_sender(m),
                        EventView::InscribeCommit { module: id })),
                ),
            },
            _ => stop(s),
        }
    }
}

/// The outcome of a call's function, or `None` for a function the module
/// does not know.
pub open spec fn dispatch_spec(
    s: StateView,
    chain: Chain,
    module_id: Seq<char>,
    fee: (int, int),
    name: Seq<char>,
    f: FunctionView,
) -> Option<Outcome> {
    if name == "deployPool"@ {
        Some(deploy_pool_spec(s, module_id, f))
    } else if name == "addLiq"@ {
        Some(add_liq_spec(s, chain, module_id, f))
    } else if name == "removeLiq"@ {
        Some(remove_liq_spec(s, chain, module_id, f, fee))
    } else if name == "swap"@ {
        Some(swap_spec(s, chain, module_id, f, fee))
    } else if name == "send"@ {
        Some(send_spec(s, chain, module_id, f))
    } else if name == "sendLp"@ {
        Some(send_lp_spec(s, chain, module_id, f))
    } else if name == "lock"@ {
        Some(lock_spec(s, chain, module_id, f))
    } else if name == "unlock"@ {
        Some(unlock_spec(s, chain, module_id, f))
    } else if name == "decreaseApproval"@ {
        Some(decrease_approval_spec(s, chain, module_id, f))
    } else {
        None
    }
}

/// The gas of a call: with a positive gas price, the caller's swap balance of
/// the gas ticker must exist and cover it; it moves to the module's gas
/// address (whose balance is read before the caller's is written).
pub open spec fn gas_pay(
    s: StateView,
    chain: Chain,
    commit_module: Seq<char>,
    mi: ModuleInfoView,
    gas: (int, int),
    id: Seq<char>,
    caller_text: Seq<char>,
    caller: OwnerView,
) -> Outcome {
    if gas.0 > 0 {
        let k = (caller, commit_module, tkey(mi.gas_tick));
        if !s.module_balances.contains_key(k) {
            fail(s, ErrorView::TokenBalanceInsufficient(id, caller_text, mi.gas_tick))
        } else {
            let tb = s.module_balances[k];
            if dec_less(tb.swap, gas) {
                fail(s, ErrorView::TokenBalanceInsufficient(id, caller_text, mi.gas_tick))
            } else {
                match hex_decode(encode_utf8(mi.gas_to_pk_script)) {
                    None => halt(s),
                    Some(gs) => {
                        let gk = (script_owner(gs, chain), commit_module, tkey(mi.gas_tick));
                        let gb = if s.module_balances.contains_key(gk) { s.module_balances[gk] } else { empty_token_balance(gas.1) };
                        match (sub_at(tb.swap, gas), add_at(gb.swap, gas)) {
                            (Some(nt), Some(ng)) => done(StateView {
                                module_balances: s.module_balances
                                    .insert(k, TokenBalanceView { swap: nt, ..tb })
                                    .insert(gk, TokenBalanceView { swap: ng, ..gb }),
                                ..s
                            }),
                            _ => halt(s),
                        }
                    },
                }
            }
        }
    } else {
        done(s)
    }
}

/// One call of a commit sent to its module: the call's address must be an
/// address of the chain (else the sequencer is invalid); its gas is paid;
/// then its function runs. Below `SKIP_INVALID_COMMIT_FUNC_FROM_HEIGHT` a
/// call without a known function, or whose function is refused, fails the
/// commit; from that height on it is skipped. A function that halts the rules
/// halts them.
#[verifier::opaque]
pub open spec fn call_step(
    s: StateView,
    chain: Chain,
    module_id: Seq<char>,
    commit_module: Seq<char>,
    mi: ModuleInfoView,
    gas: (int, int),
    id: Seq<char>,
    height: u32,
    f: FunctionView,
) -> Outcome {
    match f.address {
        None => halt(s),
        Some(a) => match address_parse(a, chain) {
            Err(_) => fail(s, ErrorView::ModuleSequencerInvalid(id)),
            Ok(p) => match gas_pay(s, chain, commit_module, mi, gas, id, a, OwnerView::Address(p.0)) {
                (s1, Err(e)) => (s1, Err(e)),
                (s1, Ok(_)) => match f.function {
                    None => if height < SKIP_INVALID_COMMIT_FUNC_FROM_HEIGHT {
                        fail(s1, ErrorView::CommitInvalidFunction(id, Seq::empty()))
                    } else {
                        done(s1)
                    },
                    Some(name) => match dispatch_spec(s1, chain, module_id, mi.fee_rate_swap, name, f) {
                        None => if height < SKIP_INVALID_COMMIT_FUNC_FROM_HEIGHT {
                            fail(s1, ErrorView::CommitInvalidFunction(id, name))
                        } else {
                            done(s1)
                        },
                        Some((s2, Ok(_))) => done(s2),
                        Some((s2, Err(ExecView::Unexpected))) => halt(s2),
                        Some((s2, Err(ExecView::Failed(_)))) => if height < SKIP_INVALID_COMMIT_FUNC_FROM_HEIGHT {
                            fail(s2, ErrorView::CommitHandleFunctionFailed(id))
                        } else {
                            done(s2)
                        },
                    },
                },
            },
        },
    }
}

/// The calls of a commit, run in order until one stops the commit.
pub open spec fn run_calls(
    s: StateView,
    chain: Chain,
    module_id: Seq<char>,
    commit_module: Seq<char>,
    mi: ModuleInfoView,
    gas: (int, int),
    id: Seq<char>,
    height: u32,
    calls: Seq<FunctionView>,
) -> Outcome
    decreases calls.len(),
{
    if calls.len() == 0 {
        done(s)
    } else {
        match call_step(s, chain, module_id, commit_module, mi, gas, id, height, calls[0]) {
            (s1, Ok(_)) => run_calls(s1, chain, module_id, commit_module, mi, gas, id, height, calls.drop_first()),
            o => o,
        }
    }
}

/// The text of an optional text, or the empty text.
pub open spec fn text_or_empty(o: Option<Seq<char>>) -> Seq<char> {
    match o {
        Some(t) => t,
        None => Seq::empty(),
    }
}

/// What sending a commit to its module does: a skipped commit is reported as
/// sent (to its sender) and changes nothing. Otherwise the commit needs a
/// receiver, whose script must be the module script of the commit's module;
/// the module must exist and its sequencer be the sender; the commit's parent
/// must not be the module's settled commit and must be its latest commit; the
/// gas ticker must be a valid name and the gas price (which must be given) a
/// valid amount of it. The calls run in order (`run_calls`); then the commit
/// is forgotten, and the module records the parent as settled and this
/// commit as its latest.
pub open spec fn transfer_commit_spec(
    s: StateView,
    m: BRC20ExecutionMessage,
    inscription_id: InscriptionId,
    chain: Chain,
    height: u32,
) -> ExecOutcome {
    let id = id_text(m.inscription_id);
    let ok_receipt = receipt_of(m, BRC20OpType::TransferCommit, m.inscription_number, m.sender@, m.sender@,
        EventView::TransferCommit { module: id });
    if skipped_transfer_commit(id) {
        (s, Ok(ok_receipt))
    } else {
        match m.operation {
            BRC20Operation::TransferCommit(c) => {
                let cm = text_or_empty(opt_str(c.module));
                match m.receiver {
                    None => stop(s),
                    Some(recv) => {
                        let script = recv.script();
                        if !is_module_script(script) || module_of_script(script) != cm {
                            refuse(s, ErrorView::CommitNotSendToModule(id))
                        } else {
                            let module_id = module_of_script(script);
                            if !s.module_infos.contains_key(module_id) {
                                refuse(s, ErrorView::ModuleInvalid(id))
                            } else {
                                let mi = s.module_infos[module_id];
                                if mi.sequencer_pk_script != hex_lower(m.sender.script()) {
                                    refuse(s, ErrorView::ModuleSequencerInvalid(id))
                                } else if opt_str(c.parent) == mi.chain_commit_id && mi.chain_commit_id is Some {
                                    refuse(s, ErrorView::CommitParentAlreadySattled(id))
                                } else if text_or_empty(opt_str(c.parent)) != text_or_empty(mi.commit_id) {
                                    refuse(s, ErrorView::CommitParentInvalid(id))
                                } else if bad_name(mi.gas_tick) {
                                    stop(s)
                                } else {
                                    match opt_str(c.gas_price) {
                                        None => stop(s),
                                        Some(gp) => match ticker_verify(s, mi.gas_tick, gp) {
                                            Err(_) => refuse(s, ErrorView::InvalidGasPrice(gp)),
                                            Ok(gas) => {
                                                let o = match opt_calls(c.data) {
                                                    None => done(s),
                                                    Some(calls) => run_calls(s, chain, module_id, cm, mi, gas, id, height, calls),
                                                };
                                                match o {
                                                    (s1, Err(e)) => (s1, Err(e)),
                                                    (s1, Ok(_)) => {
                                                        let s2 = StateView { commits: s1.commits.remove(id), ..s1 };
                                                        let mi2 = ModuleInfoView {
                                                            chain_commit_id: opt_str(c.parent),
                                                            commit_id: Some(id_text(inscription_id)),
                                                            ..mi
                                                        };
                                                        (StateView { module_infos: s2.module_infos.insert(module_id, mi2), ..s2 }, Ok(ok_receipt))
                                                    },
                                                }
                                            },
                                        },
                                    }
                                }
                            }
                        }
                    },
                }
            },
            _ => stop(s),
        }
    }
}

/// Runs a call's function (see `dispatch_spec`); `None` for an unknown function.
fn dispatch_exec(
    context: &mut SwapState,
    chain: &Chain,
    module_id: &String,
    fee: &Brc20Decimal,
    name: &String,
    f: &SwapFunctionData,
) -> (r: Option<Result<(), ExecutionError>>)
    requires
        old(context).wf(),
    ensures
        final(context).wf(),
        match dispatch_spec(old(context)@, *chain, module_id@, fee@, name@, f@) {
            None => r is None && final(context)@ == old(context)@,
            Some(o) => r matches Some(x) && outcome_is(o, final(context)@, x),
        },
{
    if text_is(name, "deployPool") {
        Some(f.handle_deploy_pool(module_id, context))
    } else if text_is(name, "addLiq") {
        Some(f.handle_add_liq(chain, module_id, context))
    } else if text_is(name, "removeLiq") {
        Some(f.handle_remove_liq(chain, module_id, context, fee))
    } else if text_is(name, "swap") {
        Some(f.handle_swap(chain, module_id, context, fee))
    } else if text_is(name, "send") {
        Some(f.handle_send(chain, module_id, context))
    } else if text_is(name, "sendLp") {
        Some(f.handle_send_lp(chain, module_id, context))
    } else if text_is(name, "lock") {
        Some(f.handle_lock(chain, module_id, context))
    } else if text_is(name, "unlock") {
        Some(f.handle_unlock(chain, module_id, context))
    } else if text_is(name, "decreaseApproval") {
        Some(f.handle_decrease_approval(chain, module_id, context))
    } else {
        None
    }
}

/// Pays a call's gas (see `gas_pay`).
fn gas_pay_exec(
    context: &mut SwapState,
    chain: &Chain,
    commit_module: &String,
    mi: &BRC20ModuleInfo,
    gas_ticker: &BRC20Ticker,
    gas: &Brc20Decimal,
    id: &String,
    caller_text: &String,
    caller: &UtxoAddress,
) -> (r: Result<(), ExecutionError>)
    requires
        old(context).wf(),
        gas_ticker@ == mi@.gas_tick,
        0 <= gas@.1 <= 18,
    ensures
        final(context).wf(),
        outcome_is(gas_pay(old(context)@, *chain, commit_module@, mi@, gas@, id@, caller_text@, caller@), final(context)@, r),
{
    if gas.sign() > 0 {
        let tb = match context.load_brc20_module_address_token_balance(caller, commit_module, gas_ticker) {
            Some(b) => b,
            None => return Err(failed(BRC20Error::TokenBalanceInsufficient(id.clone(), caller_text.clone(), mi.gas_tick.clone()))),
        };
        if tb.swap_account_balance.lt(gas) {
            return Err(failed(BRC20Error::TokenBalanceInsufficient(id.clone(), caller_text.clone(), mi.gas_tick.clone())));
        }
        let script = match script_from_hex(mi.gas_to_pk_script.as_str()) {
            Some(b) => b,
            None => return Err(unexpected()),
        };
        let gas_owner = UtxoAddress::from_script(script.as_slice(), chain);
        let gb = match context.load_brc20_module_address_token_balance(&gas_owner, commit_module, gas_ticker) {
            Some(b) => b,
            None => BRC20ModuleTokenBalance::new_with_scale(gas.get_precision()),
        };
        let nt = match checked_sub(&tb.swap_account_balance, gas) {
            Ok(d) => d,
            Err(e) => return Err(e),
        };
        let ng = match checked_add(&gb.swap_account_balance, gas) {
            Ok(d) => d,
            Err(e) => return Err(e),
        };
        context.update_brc20_module_address_token_balance(
            caller,
            commit_module,
            gas_ticker,
            BRC20ModuleTokenBalance {
                swap_account_balance: nt,
                available_balance: tb.available_balance,
                pending_withdrawal_amount: tb.pending_withdrawal_amount,
            },
        );
        context.update_brc20_module_address_token_balance(
            &gas_owner,
            commit_module,
            gas_ticker,
            BRC20ModuleTokenBalance {
                swap_account_balance: ng,
                available_balance: gb.available_balance,
                pending_withdrawal_amount: gb.pending_withdrawal_amount,
            },
        );
    }
    Ok(())
}

/// Runs one call of a commit (see `call_step`).
fn call_step_exec(
    context: &mut SwapState,
    chain: &Chain,
    module_id: &String,
    commit_module: &String,
    mi: &BRC20ModuleInfo,
    gas_ticker: &BRC20Ticker,
    gas: &Brc20Decimal,
    id: &String,
    height: u32,
    f: &SwapFunctionData,
) -> (r: Result<(), ExecutionError>)
    requires
        old(context).wf(),
        gas_ticker@ == mi@.gas_tick,
        0 <= gas@.1 <= 18,
    ensures
        final(context).wf(),
        outcome_is(call_step(old(context)@, *chain, module_id@, commit_module@, mi@, gas@, id@, height, f@), final(context)@, r),
{
    proof {
        reveal(call_step);
    }
    let caller_text = match &f.address {
        Some(a) => a,
        None => return Err(unexpected()),
    };
    let caller = match UtxoAddress::from_str(caller_text.as_str(), chain) {
        Ok(a) => a,
        Err(_) => return Err(failed(BRC20Error::ModuleSequencerInvalid(id.clone()))),
    };
    match gas_pay_exec(context, chain, commit_module, mi, gas_ticker, gas, id, caller_text, &caller) {
        Ok(_) => {},
        Err(e) => return Err(e),
    }
    let name = match &f.function {
        Some(n) => n,
        None => {
            if height < SKIP_INVALID_COMMIT_FUNC_FROM_HEIGHT {
                return Err(failed(BRC20Error::CommitInvalidFunction(id.clone(), String::new())));
            }
            return Ok(());
        },
    };
    match dispatch_exec(context, chain, module_id, &mi.fee_rate_swap, name, f) {
        None => {
            if height < SKIP_INVALID_COMMIT_FUNC_FROM_HEIGHT {
                return Err(failed(BRC20Error::CommitInvalidFunction(id.clone(), name.clone())));
            }
            Ok(())
        },
        Some(Ok(_)) => Ok(()),
        Some(Err(ExecutionError::Unexpected(m))) => Err(ExecutionError::Unexpected(m)),
        Some(Err(ExecutionError::ExecutionFailed(_))) => {
            if height < SKIP_INVALID_COMMIT_FUNC_FROM_HEIGHT {
                return Err(failed(BRC20Error::CommitHandleFunctionFailed(id.clone())));
            }
            Ok(())
        },
    }
}

/// Two optional texts are equal.
fn same_opt(a: &Option<String>, b: &Option<String>) -> (r: bool)
    ensures
        r == (opt_str(*a) == opt_str(*b)),
{
    match (a, b) {
        (Some(x), Some(y)) => *x == *y,
        (None, None) => true,
        _ => false,
    }
}

/// An optional text, or the empty text.
fn text_of(a: &Option<String>) -> (r: String)
    ensures
        r@ == text_or_empty(opt_str(*a)),
{
    match a {
        Some(x) => x.clone(),
        None => String::new(),
    }
}

impl BRC20ExecutionMessage {
    /// Checks an inscribed commit (see `commit_check`) and gives a copy of it.
    #[verifier::loop_isolation(false)]
    #[verifier::spinoff_prover]
    #[verifier::rlimit(40)]
    pub fn pre_verify_inscribe_commit(&self, chain: &Chain, context: &SwapState) -> (r: Result<Commit, ExecutionError>)
        requires
            context.wf(),
        ensures
            match self.operation {
                BRC20Operation::Commit(c) => match commit_check(context@, *chain, c@) {
                    Ok(_) => r matches Ok(x) && x@ == c@,
                    Err(e) => r matches Err(x) && x@ == e,
                },
                _ => r matches Err(x) && x@ == ExecView::Unexpected,
            },
    {
        let c = match &self.operation {
            BRC20Operation::Commit(c) => c,
            _ => return Err(unexpected()),
        };
        let module_id = match &c.module {
            Some(m) => m,
            None => return Err(unexpected()),
        };
        let lowered = str_to_lowercase(module_id.as_str());
        if !(lowered == *module_id) {
            return Err(failed(BRC20Error::ModuleIDInvalid(module_id.clone())));
        }
        let mi = match context.load_brc20_module_info(module_id) {
            Some(m) => m,
            None => return Err(failed(BRC20Error::ModuleNotFound(module_id.clone()))),
        };
        let gas_tick = match BRC20Ticker::from_str(mi.gas_tick.as_str()) {
            Ok(t) => t,
            Err(_) => return Err(unexpected()),
        };
        let gas_price = match &c.gas_price {
            Some(g) => g,
            None => return Err(unexpected()),
        };
        if check_ticker_verify(context, &gas_tick, gas_price).is_err() {
            return Err(failed(BRC20Error::InvalidGasPrice(gas_price.clone())));
        }
        match &c.data {
            None => {},
            Some(data) => {
                let ghost calls = data@.map_values(|f: SwapFunctionData| f@);
                assert(opt_calls(c.data).unwrap() =~= calls);
                let mut i: usize = 0;
                while i < data.len()
                    invariant
                        context.wf(),
                        calls == data@.map_values(|f: SwapFunctionData| f@),
                        i <= data@.len(),
                        forall|j: int| 0 <= j < i ==> call_check(context@, *chain, #[trigger] calls[j]) is Ok,
                    decreases data.len() - i,
                {
                    match call_check_exec(context, chain, &data[i]) {
                        Ok(_) => {},
                        Err(e) => {
                            proof {
                                assert(calls[i as int] == data@[i as int]@);
                                let k = first_failed_call(context@, *chain, calls);
                                assert(call_check(context@, *chain, calls[i as int]) is Err);
                                assert(k == i) by {
                                    if k < i {
                                    } else if k > i {
                                        assert(call_check(context@, *chain, calls[i as int]) is Ok);
                                    }
                                }
                                assert(calls_check(context@, *chain, calls) == call_check(context@, *chain, calls[i as int]));
                            }
                            return Err(e);
                        },
                    }
                    assert(calls[i as int] == data@[i as int]@);
                    i = i + 1;
                }
            },
        }
        proof {
            if c.data is Some {
                let calls = c.data.unwrap()@.map_values(|f: SwapFunctionData| f@);
                assert(opt_calls(c.data).unwrap() =~= calls);
                assert(calls_check(context@, *chain, calls) is Ok);
            }
        }
        Ok(copy_commit(c))
    }

    /// Inscribes a commit (see `inscribe_commit_spec`).
    pub fn execute_inscribe_commit(&self, chain: &Chain, context: &mut SwapState) -> (r: Result<BRC20Receipt, ExecutionError>)
        requires
            old(context).wf(),
        ensures
            final(context).wf(),
            exec_is(inscribe_commit_spec(old(context)@, *self, *chain), final(context)@, r),
    {
        let id = self.inscription_id.to_string();
        if text_is(&id, "56ae3cc5e5ca64114cd1fb834254c0d196144ed60b821ad1c0511801c5b16283i0")
            || text_is(&id, "f31d611021a5b26adda9a91ff2d1dacd52dda6a151147820f56ac9f7dae0a902i0")
            || text_is(&id, "15c0aff274bfeeb4706fa0a85fa666ace8a3f4bc11e8c446188e7a030966760fi0")
            || text_is(&id, "4cd999f20bede0a7cc2a1d69f1370f8cafd2ca73d1f0984da5d112f623da7eb6i0")
            || text_is(&id, "66a8c7b62b0be2d21d2b7918315a97e4fa83e10b3a0bf161f4ac0768cecf4545i0") {
            let event = BRC20Event::InscribeCommit(InscribeCommitEvent { module: id });
            return Ok(self.receipt(BRC20OpType::Commit, self.inscription_number, self.sender.copy(), self.sender.copy(), event));
        }
        let commit = match self.pre_verify_inscribe_commit(chain, context) {
            Ok(c) => c,
            Err(e) => return Err(e),
        };
        context.update_commit_info(&id, commit);
        let event = BRC20Event::InscribeCommit(InscribeCommitEvent { module: id });
        Ok(self.receipt(BRC20OpType::Commit, self.inscription_number, self.sender.copy(), self.recipient_exec(), event))
    }
    /// Sends a commit to its module and applies its calls (see `transfer_commit_spec`).
    #[verifier::loop_isolation(false)]
    #[verifier::rlimit(80)]
    #[verifier::spinoff_prover]
    pub fn execute_transfer_commit(
        &self,
        inscription_id: &InscriptionId,
        chain: &Chain,
        context: &mut SwapState,
        height: u32,
    ) -> (r: Result<BRC20Receipt, ExecutionError>)
        requires
            old(context).wf(),
        ensures
            final(context).wf(),
            exec_is(transfer_commit_spec(old(context)@, *self, *inscription_id, *chain, height), final(context)@, r),
    {
        let id = self.inscription_id.to_string();
        if text_is(&id, "56ae3cc5e5ca64114cd1fb834254c0d196144ed60b821ad1c0511801c5b16283i0")
            || text_is(&id, "15c0aff274bfeeb4706fa0a85fa666ace8a3f4bc11e8c446188e7a030966760fi0") {
            let event = BRC20Event::TransferCommit(TransferCommitEvent { module: id });
            return Ok(self.receipt(BRC20OpType::TransferCommit, self.inscription_number, self.sender.copy(), self.sender.copy(), event));
        }
        let c = match &self.operation {
            BRC20Operation::TransferCommit(c) => c,
            _ => return Err(unexpected()),
        };
        let commit_module = text_of(&c.module);
        let receiver = match &self.receiver {
            Some(r) => r,
            None => return Err(unexpected()),
        };
        let script = receiver.to_script(chain);
        let module_id = match get_module_from_script(script.as_slice()) {
            Ok(m) => {
                if !(m == commit_module) {
                    return Err(failed(BRC20Error::CommitNotSendToModule(id)));
                }
                m
            },
            Err(_) => return Err(failed(BRC20Error::CommitNotSendToModule(id))),
        };
        let mi = match context.load_brc20_module_info(&module_id) {
            Some(m) => m,
            None => return Err(failed(BRC20Error::ModuleInvalid(id))),
        };
        let sender_hex = script_to_hex(self.sender.to_script(chain).as_slice());
        if !(mi.sequencer_pk_script == sender_hex) {
            return Err(failed(BRC20Error::ModuleSequencerInvalid(id)));
        }
        if same_opt(&c.parent, &mi.chain_commit_id) && mi.chain_commit_id.is_some() {
            return Err(failed(BRC20Error::CommitParentAlreadySattled(id)));
        }
        if !(text_of(&c.parent) == text_of(&mi.commit_id)) {
            return Err(failed(BRC20Error::CommitParentInvalid(id)));
        }
        let gas_ticker = match BRC20Ticker::from_str(mi.gas_tick.as_str()) {
            Ok(t) => t,
            Err(_) => return Err(unexpected()),
        };
        let gas_price = match &c.gas_price {
            Some(g) => g,
            None => return Err(unexpected()),
        };
        let gas = match check_ticker_verify(context, &gas_ticker, gas_price) {
            Ok(d) => d,
            Err(_) => return Err(failed(BRC20Error::InvalidGasPrice(gas_price.clone()))),
        };
        proof {
            context.lemma_decimals();
        }
        match &c.data {
            None => {},
            Some(data) => {
                let ghost calls = data@.map_values(|f: SwapFunctionData| f@);
                let ghost s0 = context@;
                assert(opt_calls(c.data).unwrap() =~= calls);
                assert(calls.subrange(0, calls.len() as int) =~= calls);
                let mut i: usize = 0;
                while i < data.len()
                    invariant
                        context.wf(),
                        calls == data@.map_values(|f: SwapFunctionData| f@),
                        i <= data@.len(),
                        run_calls(s0, *chain, module_id@, commit_module@, mi@, gas@, id@, height, calls)
                            == run_calls(context@, *chain, module_id@, commit_module@, mi@, gas@, id@, height,
                                calls.subrange(i as int, calls.len() as int)),
                    decreases data.len() - i,
                {
                    let ghost rest = calls.subrange(i as int, calls.len() as int);
                    assert(rest[0] == data@[i as int]@);
                    assert(rest.drop_first() =~= calls.subrange(i + 1, calls.len() as int));
                    match call_step_exec(context, chain, &module_id, &commit_module, &mi, &gas_ticker, &gas, &id, height, &data[i]) {
                        Ok(_) => {},
                        Err(e) => return Err(e),
                    }
                    i = i + 1;
                }
                assert(calls.subrange(i as int, calls.len() as int) =~= Seq::<FunctionView>::empty());
            },
        }
        context.delete_commit_info(&id);
        let mut updated = mi;
        updated.chain_commit_id = copy_opt(&c.parent);
        updated.commit_id = Some(inscription_id.to_string());
        context.insert_brc20_module_info(&module_id, updated);
        let event = BRC20Event::TransferCommit(TransferCommitEvent { module: id });
        Ok(self.receipt(BRC20OpType::TransferCommit, self.inscription_number, self.sender.copy(), self.sender.copy(), event))
    }
}

/// The outcome of executing an operation, as the indexer acts on it.
#[derive(Debug)]
pub enum Executed {
    /// A receipt to record.
    Done(BRC20Receipt),
    /// The operation yields no receipt.
    Failed(ExecutionError),
    /// The indexer must stop.
    Halted(ExecutionError),
}

/// An execution outcome as the contracts see it.
pub ghost enum ExecutedView {
    Done(ReceiptView),
    Failed(ExecView),
    Halted(ExecView),
}

impl View for Executed {
    type V = ExecutedView;

    open spec fn view(&self) -> ExecutedView {
        match self {
            Executed::Done(r) => ExecutedView::Done(r@),
            Executed::Failed(e) => ExecutedView::Failed(e@),
            Executed::Halted(e) => ExecutedView::Halted(e@),
        }
    }
}

/// Past this height a refused module creation stops the indexer.
pub const CREATE_MODULE_STRICT_FROM_HEIGHT: u32 = 115422;

/// What executing an operation does: the operation's own rule runs (deploy,
/// mint and transfer have no rule here and count as unexpected). A refused
/// module creation above `CREATE_MODULE_STRICT_FROM_HEIGHT`, or a refused
/// commit, stops the indexer; another refused operation gets a receipt that
/// records the error. Where the rules halt on a swap-module operation, the
/// indexer stops; for the others no receipt is made.
pub open spec fn execute_spec(s: StateView, m: BRC20ExecutionMessage, chain: Chain, source: Seq<char>, height: u32) -> (StateView, ExecutedView) {
    let o = match m.operation {
        BRC20Operation::InscribeTransfer { .. } => inscribe_transfer_spec(s, m, chain),
        BRC20Operation::CreateModule(_) => create_module_spec(s, m, m.inscription_id, chain, source),
        BRC20Operation::Withdraw(_) => inscribe_withdraw_spec(s, m),
        BRC20Operation::Commit(_) => inscribe_commit_spec(s, m, chain),
        BRC20Operation::TransferWithdraw(_) => transfer_withdraw_spec(s, m),
        BRC20Operation::TransferCommit(_) => transfer_commit_spec(s, m, m.inscription_id, chain, height),
        _ => stop(s),
    };
    let swap_op = m.operation is CreateModule || m.operation is Withdraw || m.operation is Commit
        || m.operation is TransferWithdraw || m.operation is TransferCommit;
    (o.0, match o.1 {
        Ok(rv) => ExecutedView::Done(rv),
        Err(ExecView::Failed(e)) => if (m.operation is CreateModule && height > CREATE_MODULE_STRICT_FROM_HEIGHT)
            || m.operation is Commit || m.operation is TransferCommit {
            ExecutedView::Halted(ExecView::Failed(e))
        } else {
            ExecutedView::Done(ReceiptView {
                inscription_id: m.inscription_id,
                sequence_number: m.sequence_number,
                inscription_number: m.inscription_number,
                old_satpoint: m.old_satpoint,
                new_satpoint: m.new_satpoint,
                op_type: op_type_of(m.operation),
                sender: m.sender@,
                receiver: receiver_or_sender(m),
                result: Err(e),
            })
        },
        Err(ExecView::Unexpected) => if swap_op {
            ExecutedView::Halted(ExecView::Unexpected)
        } else {
            ExecutedView::Failed(ExecView::Unexpected)
        },
    })
}

impl BRC20ExecutionMessage {
    /// Executes the operation (see `execute_spec`).
    pub fn execute(self, chain: &Chain, swap_source: &String, context: &mut SwapState, height: u32) -> (r: Executed)
        requires
            old(context).wf(),
        ensures
            final(context).wf(),
            (final(context)@, r@) == execute_spec(old(context)@, self, *chain, swap_source@, height),
    {
        let id = self.inscription_id;
        let result = match &self.operation {
            BRC20Operation::InscribeTransfer { .. } => self.execute_inscribe_transfer(chain, context),
            BRC20Operation::CreateModule(_) => self.execute_create_module(&id, chain, swap_source, context),
            BRC20Operation::Withdraw(_) => self.execute_inscribe_withdraw(context),
            BRC20Operation::Commit(_) => self.execute_inscribe_commit(chain, context),
            BRC20Operation::TransferWithdraw(_) => self.execute_transfer_withdraw(chain, context),
            BRC20Operation::TransferCommit(_) => self.execute_transfer_commit(&id, chain, context, height),
            _ => Err(unexpected()),
        };
        let swap_op = match &self.operation {
            BRC20Operation::CreateModule(_) | BRC20Operation::Withdraw(_) | BRC20Operation::Commit(_)
            | BRC20Operation::TransferWithdraw(_) | BRC20Operation::TransferCommit(_) => true,
            _ => false,
        };
        let strict = match &self.operation {
            BRC20Operation::CreateModule(_) => height > CREATE_MODULE_STRICT_FROM_HEIGHT,
            BRC20Operation::Commit(_) | BRC20Operation::TransferCommit(_) => true,
            _ => false,
        };
        match result {
            Ok(receipt) => Executed::Done(receipt),
            Err(ExecutionError::ExecutionFailed(e)) => {
                if strict {
                    return Executed::Halted(ExecutionError::ExecutionFailed(e));
                }
                let op_type = BRC20OpType::from_operation(&self.operation);
                let receiver = self.recipient_exec();
                Executed::Done(BRC20Receipt {
                    inscription_id: self.inscription_id,
                    sequence_number: self.sequence_number,
                    inscription_number: self.inscription_number,
                    old_satpoint: self.old_satpoint,
                    new_satpoint: self.new_satpoint,
                    op_type,
                    sender: self.sender,
                    receiver,
                    result: Err(e),
                })
            },
            Err(ExecutionError::Unexpected(m)) => {
                if swap_op {
                    Executed::Halted(ExecutionError::Unexpected(m))
                } else {
                    Executed::Failed(ExecutionError::Unexpected(m))
                }
            },
        }
    }
}


/// Paying a call's gas moves it from the caller's swap balance of the gas
/// ticker to the module's gas address and creates none: when the two differ,
/// their sum is unchanged (an absent gas-address balance counting as zero).
pub proof fn lemma_gas_conserves(
    s: StateView,
    chain: Chain,
    commit_module: Seq<char>,
    mi: ModuleInfoView,
    gas: (int, int),
    id: Seq<char>,
    caller_text: Seq<char>,
    caller: OwnerView,
)
    requires
        gas.0 > 0,
        hex_decode(encode_utf8(mi.gas_to_pk_script)) matches Some(gs) && script_owner(gs, chain) != caller,
        gas_pay(s, chain, commit_module, mi, gas, id, caller_text, caller).1 is Ok,
    ensures
        ({
            let r = gas_pay(s, chain, commit_module, mi, gas, id, caller_text, caller).0;
            let gs = hex_decode(encode_utf8(mi.gas_to_pk_script)).unwrap();
            let k = (caller, commit_module, tkey(mi.gas_tick));
            let gk = (script_owner(gs, chain), commit_module, tkey(mi.gas_tick));
            let before = if s.module_balances.contains_key(gk) { s.module_balances[gk].swap.0 } else { 0 };
            &&& r.module_balances[k].swap.0 == s.module_balances[k].swap.0 - gas.0
            &&& r.module_balances[gk].swap.0 == before + gas.0
            &&& r == StateView { module_balances: r.module_balances, ..s }
        }),
{
}

/// A commit that is not skipped and that its module accepts settles: its
/// receiver is the module's script, its parent was the module's latest commit
/// and not its settled one; afterwards the module records this commit as its
/// latest and the parent as settled, and the commit itself is forgotten.
pub proof fn lemma_transfer_commit_settles(
    s: StateView,
    m: BRC20ExecutionMessage,
    inscription_id: InscriptionId,
    chain: Chain,
    height: u32,
)
    requires
        m.operation is TransferCommit,
        !skipped_transfer_commit(id_text(m.inscription_id)),
        transfer_commit_spec(s, m, inscription_id, chain, height).1 is Ok,
    ensures
        ({
            let c = m.operation->TransferCommit_0;
            let script = m.receiver->Some_0.script();
            let mid = module_of_script(script);
            let mi = s.module_infos[mid];
            let out = transfer_commit_spec(s, m, inscription_id, chain, height).0;
            &&& m.receiver is Some
            &&& is_module_script(script)
            &&& s.module_infos.contains_key(mid)
            &&& text_or_empty(opt_str(c.parent)) == text_or_empty(mi.commit_id)
            &&& !(mi.chain_commit_id is Some && opt_str(c.parent) == mi.chain_commit_id)
            &&& out.module_infos.contains_key(mid)
            &&& out.module_infos[mid].commit_id == Some(id_text(inscription_id))
            &&& out.module_infos[mid].chain_commit_id == opt_str(c.parent)
            &&& !out.commits.contains_key(id_text(m.inscription_id))
        }),
{
}

} // verus!
