//! Swap functions on a module's pools: deploying a pool, adding and removing
//! liquidity, and swapping one ticker for the other.

use vstd::prelude::*;
use vstd::utf8::encode_utf8;
use crate::account::pair_of;
use crate::address::{OwnerView, UtxoAddress};
use crate::amount::{
    add_at, sub_at, mul_at, div_at, mantissa_u128, checked_add, checked_sub, checked_div, checked_mantissa,
    constant,
};
use crate::chain::Chain;
use crate::decimal::{Brc20Decimal, dec_less};
use crate::entry::{
    BRC20ModuleTokenBalance, TokenBalanceView, BRC20ModulePoolPair, BRC20ModuleSwapPoolPairBalance, PoolView,
    empty_token_balance, pair_text,
};
use crate::error::{BRC20Error, ErrorView, ExecutionError};
use crate::operation::{SwapFunctionData, FunctionView};
use crate::params::{
    Outcome, fail, halt, done, outcome_is, owner_parse, failed, unexpected, params_of, param, sender_of,
    parse_ticker, expect_ticker, scaled_amount, parse_amount_scaled, text_is,
};
use crate::state::{SwapState, StateView, tkey};
use crate::ticker::{ticker_check, BRC20Ticker};
use crate::verify::{check_ticker_verify, ticker_verify};
use crate::bigint::{trunc_div, abs};

verus! {

/// What deploying a pool does: both tickers (invalid names halt the rules)
/// must be deployed; the pool of the pair must not exist yet; it is created
/// with zero balances at each ticker's decimal places, in the order given.
pub open spec fn deploy_pool_spec(s: StateView, module_id: Seq<char>, f: FunctionView) -> Outcome {
    match f.params {
        None => halt(s),
        Some(p) => if p.len() < 2 || ticker_check(encode_utf8(p[0])) is Err || ticker_check(encode_utf8(p[1])) is Err {
            halt(s)
        } else {
            match ticker_verify(s, p[0], Seq::empty()) {
                Err(_) => fail(s, ErrorView::TickerNotFound(p[0])),
                Ok(a0) => match ticker_verify(s, p[1], Seq::empty()) {
                    Err(_) => fail(s, ErrorView::TickerNotFound(p[1])),
                    Ok(a1) => {
                        let pair = pair_of(p[0], p[1]);
                        if s.pools.contains_key((module_id, pair)) {
                            fail(s, ErrorView::DuplicateDeployPool(pair_text(pair)))
                        } else {
                            done(StateView {
                                pools: s.pools.insert(
                                    (module_id, pair),
                                    PoolView { tick0: p[0], tick1: p[1], balance0: a0, balance1: a1, lp: (0, 18), root_k: (0, 18) },
                                ),
                                ..s
                            })
                        }
                    },
                },
            }
        },
    }
}

/// The amount out of a swap of an exact amount in: with a fee (in thousandths,
/// at 3 places), `pool_out * in_with_fee / (pool_in * 1000 + in_with_fee)`
/// where `in_with_fee = in * (1000 - fee)`; without one,
/// `pool_out * in / (pool_in + in)`. `None` where the arithmetic is not
/// defined (scales differ, a zero divisor).
pub open spec fn exact_in_amount(fee: (int, int), pin: (int, int), pout: (int, int), ain: (int, int)) -> Option<(int, int)> {
    if fee.0 > 0 {
        match sub_at((1000, 3), fee) {
            None => None,
            Some(f1) => {
                let with_fee = mul_at(ain, f1);
                match add_at(mul_at(pin, (1000, 3)), with_fee) {
                    None => None,
                    Some(den) => div_at(mul_at(pout, with_fee), den),
                }
            },
        }
    } else {
        match add_at(pin, ain) {
            None => None,
            Some(den) => div_at(mul_at(pout, ain), den),
        }
    }
}

/// The amount in of a swap for an exact amount out: with a fee,
/// `pool_in * (out * 1000) / ((pool_out - out) * (1000 - fee)) + 1`; without
/// one, `pool_in * out / (pool_out - out) + 1`, the one being a unit at the
/// scale of the amount in. `None` where the arithmetic is not defined.
pub open spec fn exact_out_amount(
    fee: (int, int),
    pin: (int, int),
    pout: (int, int),
    aout: (int, int),
    in_scale: int,
) -> Option<(int, int)> {
    match sub_at(pout, aout) {
        None => None,
        Some(diff) => if fee.0 > 0 {
            match sub_at((1000, 3), fee) {
                None => None,
                Some(f1) => match div_at(mul_at(pin, mul_at(aout, (1000, 3))), mul_at(diff, f1)) {
                    None => None,
                    Some(q) => add_at(q, (1, in_scale)),
                },
            }
        } else {
            match div_at(mul_at(pin, aout), diff) {
                None => None,
                Some(q) => add_at(q, (1, in_scale)),
            }
        },
    }
}

/// The amounts a swap moves: `None` where the arithmetic is not defined (the
/// rules halt), `Some(None)` when the slippage bound is not met, else the
/// amount in and the amount out. An exact-in swap must give at least
/// `out * 1000 / (1000 + slippage)`; an exact-out swap may take at most
/// `in * (1000 + slippage)` (the slippage in thousandths).
pub open spec fn swap_amounts(
    exact_in: bool,
    fee: (int, int),
    pin: (int, int),
    pout: (int, int),
    in_amt: (int, int),
    out_amt: (int, int),
    slip: (int, int),
) -> Option<Option<((int, int), (int, int))>> {
    if exact_in {
        match exact_in_amount(fee, pin, pout, in_amt) {
            None => None,
            Some(aout) => match add_at((1000, 3), slip) {
                None => None,
                Some(d) => match div_at(mul_at(out_amt, (1000, 3)), d) {
                    None => None,
                    Some(min) => if dec_less(aout, min) { Some(None) } else { Some(Some((in_amt, aout))) },
                },
            },
        }
    } else {
        match exact_out_amount(fee, pin, pout, out_amt, in_amt.1) {
            None => None,
            Some(ain) => match add_at((1000, 3), slip) {
                None => None,
                Some(f2) => if dec_less(mul_at(in_amt, f2), ain) { Some(None) } else { Some(Some((ain, out_amt))) },
            },
        }
    }
}

/// The last part of a swap, once the amounts are known: the pool must hold
/// the amount out and the sender's swap balance must cover the amount named
/// in. The sender's balance in goes down (written first), then its balance out
/// (as it is after that, or empty) goes up, then the pool takes the amount in
/// and gives the amount out.
pub open spec fn swap_settle(
    s: StateView,
    module_id: Seq<char>,
    sender: OwnerView,
    tki: Seq<char>,
    tko: Seq<char>,
    pair: Seq<u8>,
    pool: PoolView,
    in_first: bool,
    in_amt: (int, int),
    out_amt: (int, int),
    ain: (int, int),
    aout: (int, int),
) -> Outcome {
    let pin = if in_first { pool.balance0 } else { pool.balance1 };
    let pout = if in_first { pool.balance1 } else { pool.balance0 };
    if dec_less(pout, aout) {
        fail(s, ErrorView::InsufficientPoolBalance(pout, aout))
    } else {
        let ik = (sender, module_id, tki);
        let ib = if s.module_balances.contains_key(ik) {
            s.module_balances[ik]
        } else {
            empty_token_balance(in_amt.1)
        };
        if dec_less(ib.swap, in_amt) {
            fail(s, ErrorView::InsufficientUserModuleBalance(ib.swap, ain))
        } else {
            match (sub_at(pout, aout), sub_at(ib.swap, ain)) {
                (Some(npout), Some(nis)) => {
                    let s1 = StateView {
                        module_balances: s.module_balances.insert(ik, TokenBalanceView { swap: nis, ..ib }),
                        ..s
                    };
                    let ok = (sender, module_id, tko);
                    let ob = if s1.module_balances.contains_key(ok) {
                        s1.module_balances[ok]
                    } else {
                        empty_token_balance(out_amt.1)
                    };
                    match (add_at(pin, ain), add_at(ob.swap, aout)) {
                        (Some(npin), Some(nos)) => {
                            let s2 = StateView {
                                module_balances: s1.module_balances.insert(ok, TokenBalanceView { swap: nos, ..ob }),
                                ..s1
                            };
                            let np = if in_first {
                                PoolView { balance0: npin, balance1: npout, ..pool }
                            } else {
                                PoolView { balance0: npout, balance1: npin, ..pool }
                            };
                            done(StateView { pools: s2.pools.insert((module_id, pair), np), ..s2 })
                        },
                        _ => halt(s1),
                    }
                },
                _ => halt(s),
            }
        }
    }
}

/// What a swap does once its tickers and direction are read: both tickers
/// must be deployed and both amounts read at their decimal places, with
/// `u128` mantissas (else the rules halt) no larger than the total supplies;
/// the pool must exist; the slippage is read at 3 places. The amounts moved
/// are `swap_amounts`, settled by `swap_settle`.
pub open spec fn swap_apply(
    s: StateView,
    module_id: Seq<char>,
    sender: OwnerView,
    t0: Seq<char>,
    t1: Seq<char>,
    tin: Seq<char>,
    tout: Seq<char>,
    in_str: Seq<char>,
    out_str: Seq<char>,
    exact_in: bool,
    slip_str: Seq<char>,
    fee: (int, int),
) -> Outcome {
    let tki = tkey(tin);
    let tko = tkey(tout);
    if !s.ticker_infos.contains_key(tki) {
        fail(s, ErrorView::TickerNotFound(tin))
    } else {
        let ii = s.ticker_infos[tki];
        match scaled_amount(in_str, ii.decimals as nat) {
            None => fail(s, ErrorView::DecimalParseError(in_str)),
            Some(vi) => if mantissa_u128((vi, ii.decimals as int)) is None {
                halt(s)
            } else if vi > ii.total_supply {
                fail(s, ErrorView::InvalidTickerAmount(vi as u128))
            } else if !s.ticker_infos.contains_key(tko) {
                fail(s, ErrorView::TickerNotFound(tout))
            } else {
                let oi = s.ticker_infos[tko];
                match scaled_amount(out_str, oi.decimals as nat) {
                    None => fail(s, ErrorView::DecimalParseError(out_str)),
                    Some(vo) => if mantissa_u128((vo, oi.decimals as int)) is None {
                        halt(s)
                    } else if vo > oi.total_supply {
                        fail(s, ErrorView::InvalidTickerAmount(vo as u128))
                    } else {
                        let pair = pair_of(t0, t1);
                        if !s.pools.contains_key((module_id, pair)) {
                            fail(s, ErrorView::SwapPoolTotalBalanceNotExists(pair_text(pair)))
                        } else {
                            let pool = s.pools[(module_id, pair)];
                            let in_first = pool.tick0 == tin;
                            let pin = if in_first { pool.balance0 } else { pool.balance1 };
                            let pout = if in_first { pool.balance1 } else { pool.balance0 };
                            let in_amt = (vi, ii.decimals as int);
                            let out_amt = (vo, oi.decimals as int);
                            match scaled_amount(slip_str, 3) {
                                None => fail(s, ErrorView::DecimalParseError(slip_str)),
                                Some(sv) => match swap_amounts(exact_in, fee, pin, pout, in_amt, out_amt, (sv, 3)) {
                                    None => halt(s),
                                    Some(None) => fail(s, ErrorView::SlippageError),
                                    Some(Some((ain, aout))) => swap_settle(
                                        s, module_id, sender, tki, tko, pair, pool, in_first, in_amt, out_amt, ain, aout),
                                },
                            }
                        }
                    },
                }
            },
        }
    }
}

/// What the `swap` function does: the sender is the call's address; its seven
/// parameters are the pool's two tickers, the ticker of the exact amount, that
/// amount, the direction (`exactIn` or `exactOut`), the bound on the other
/// amount, and the slippage. The exact ticker is the ticker in (exact in) or
/// out (exact out); the other ticker of the pool is the other side.
#[verifier::opaque]
pub open spec fn swap_spec(s: StateView, chain: Chain, module_id: Seq<char>, f: FunctionView, fee: (int, int)) -> Outcome {
    match f.address {
        None => halt(s),
        Some(a) => match owner_parse(a, chain) {
            Err(m) => fail(s, ErrorView::AddressParseError(m)),
            Ok(sender) => match f.params {
                None => halt(s),
                Some(p) => if p.len() != 7 {
                    fail(s, ErrorView::InvalidParamsLength(p.len() as usize, 7))
                } else {
                    match ticker_check(encode_utf8(p[0])) {
                        Err(e) => fail(s, ErrorView::TickerParse(e)),
                        Ok(_) => match ticker_check(encode_utf8(p[1])) {
                            Err(e) => fail(s, ErrorView::TickerParse(e)),
                            Ok(_) => if p[4] != "exactIn"@ && p[4] != "exactOut"@ {
                                fail(s, ErrorView::InvalidSwapDirection(p[4]))
                            } else {
                                match ticker_check(encode_utf8(p[2])) {
                                    Err(e) => fail(s, ErrorView::TickerParse(e)),
                                    Ok(_) => {
                                        let exact_in = p[4] == "exactIn"@;
                                        let other = if p[2] == p[0] { p[1] } else { p[0] };
                                        let tin = if exact_in { p[2] } else { other };
                                        let tout = if exact_in { other } else { p[2] };
                                        let in_str = if exact_in { p[3] } else { p[5] };
                                        let out_str = if exact_in { p[5] } else { p[3] };
                                        swap_apply(s, module_id, sender, p[0], p[1], tin, tout, in_str, out_str, exact_in, p[6], fee)
                                    },
                                }
                            },
                        },
                    }
                },
            },
        },
    }
}

/// Computes the amounts a swap moves (see `swap_amounts`): `Err` where the
/// arithmetic is not defined, `Ok(None)` when the slippage bound is not met.
fn compute_swap_amounts(
    exact_in: bool,
    fee: &Brc20Decimal,
    pin: &Brc20Decimal,
    pout: &Brc20Decimal,
    in_amt: &Brc20Decimal,
    out_amt: &Brc20Decimal,
    slip: &Brc20Decimal,
) -> (r: Result<Option<(Brc20Decimal, Brc20Decimal)>, ExecutionError>)
    requires
        0 <= in_amt@.1 <= 18,
    ensures
        match swap_amounts(exact_in, fee@, pin@, pout@, in_amt@, out_amt@, slip@) {
            None => r matches Err(e) && e@ == crate::error::ExecView::Unexpected,
            Some(None) => r matches Ok(None),
            Some(Some((a, b))) => r matches Ok(Some((x, y))) && x@ == a && y@ == b,
        },
{
    let thousand = constant(1000, 3);
    if exact_in {
        let aout = if fee.sign() > 0 {
            let f1 = match checked_sub(&thousand, fee) {
                Ok(d) => d,
                Err(e) => return Err(e),
            };
            let with_fee = in_amt.mul_mantissa(&f1);
            let den = match checked_add(&pin.mul_mantissa(&thousand), &with_fee) {
                Ok(d) => d,
                Err(e) => return Err(e),
            };
            match checked_div(&pout.mul_mantissa(&with_fee), &den) {
                Ok(d) => d,
                Err(e) => return Err(e),
            }
        } else {
            let den = match checked_add(pin, in_amt) {
                Ok(d) => d,
                Err(e) => return Err(e),
            };
            match checked_div(&pout.mul_mantissa(in_amt), &den) {
                Ok(d) => d,
                Err(e) => return Err(e),
            }
        };
        let d = match checked_add(&thousand, slip) {
            Ok(d) => d,
            Err(e) => return Err(e),
        };
        let min = match checked_div(&out_amt.mul_mantissa(&thousand), &d) {
            Ok(d) => d,
            Err(e) => return Err(e),
        };
        if aout.lt(&min) {
            return Ok(None);
        }
        Ok(Some((in_amt.copy(), aout)))
    } else {
        let diff = match checked_sub(pout, out_amt) {
            Ok(d) => d,
            Err(e) => return Err(e),
        };
        let q = if fee.sign() > 0 {
            let f1 = match checked_sub(&thousand, fee) {
                Ok(d) => d,
                Err(e) => return Err(e),
            };
            match checked_div(&pin.mul_mantissa(&out_amt.mul_mantissa(&thousand)), &diff.mul_mantissa(&f1)) {
                Ok(d) => d,
                Err(e) => return Err(e),
            }
        } else {
            match checked_div(&pin.mul_mantissa(out_amt), &diff) {
                Ok(d) => d,
                Err(e) => return Err(e),
            }
        };
        let ain = match checked_add(&q, &constant(1, in_amt.get_precision())) {
            Ok(d) => d,
            Err(e) => return Err(e),
        };
        let f2 = match checked_add(&thousand, slip) {
            Ok(d) => d,
            Err(e) => return Err(e),
        };
        if in_amt.mul_mantissa(&f2).lt(&ain) {
            return Ok(None);
        }
        Ok(Some((ain, out_amt.copy())))
    }
}

/// Carries out a swap once its tickers and direction are read (see `swap_apply`).
#[verifier::spinoff_prover]
#[verifier::rlimit(100)]
fn swap_apply_exec(
    context: &mut SwapState,
    module_id: &String,
    sender: &UtxoAddress,
    token_0: &BRC20Ticker,
    token_1: &BRC20Ticker,
    token_in: &BRC20Ticker,
    token_out: &BRC20Ticker,
    in_str: &String,
    out_str: &String,
    exact_in: bool,
    slip_str: &String,
    fee_rate: &Brc20Decimal,
) -> (r: Result<(), ExecutionError>)
    requires
        old(context).wf(),
    ensures
        final(context).wf(),
        outcome_is(
            swap_apply(old(context)@, module_id@, sender@, token_0@, token_1@, token_in@, token_out@, in_str@,
                out_str@, exact_in, slip_str@, fee_rate@),
            final(context)@,
            r,
        ),
{
    let in_info = match context.load_brc20_ticker_info(token_in) {
        Some(i) => i,
        None => return Err(failed(BRC20Error::TickerNotFound(token_in.to_string()))),
    };
    let in_amt = match parse_amount_scaled(in_str, in_info.decimals) {
        Ok(d) => d,
        Err(e) => return Err(e),
    };
    let in_value = match checked_mantissa(&in_amt) {
        Ok(v) => v,
        Err(e) => return Err(e),
    };
    if in_value > in_info.total_supply {
        return Err(failed(BRC20Error::InvalidTickerAmount(in_value)));
    }
    let out_info = match context.load_brc20_ticker_info(token_out) {
        Some(i) => i,
        None => return Err(failed(BRC20Error::TickerNotFound(token_out.to_string()))),
    };
    let out_amt = match parse_amount_scaled(out_str, out_info.decimals) {
        Ok(d) => d,
        Err(e) => return Err(e),
    };
    let out_value = match checked_mantissa(&out_amt) {
        Ok(v) => v,
        Err(e) => return Err(e),
    };
    if out_value > out_info.total_supply {
        return Err(failed(BRC20Error::InvalidTickerAmount(out_value)));
    }
    let pool_pair = BRC20ModulePoolPair::new(token_0, token_1);
    let pool = match context.load_brc20_module_swap_poolpair_balance(module_id, &pool_pair) {
        Some(b) => b,
        None => return Err(failed(BRC20Error::SwapPoolTotalBalanceNotExists(pool_pair.to_string()))),
    };
    let in_first = pool.tick[0].same(token_in);
    let pin = if in_first { pool.tick_balance[0].copy() } else { pool.tick_balance[1].copy() };
    let pout = if in_first { pool.tick_balance[1].copy() } else { pool.tick_balance[0].copy() };
    let slippage = match parse_amount_scaled(slip_str, 3) {
        Ok(d) => d,
        Err(e) => return Err(e),
    };
    let (amount_in, amount_out) = match compute_swap_amounts(exact_in, fee_rate, &pin, &pout, &in_amt, &out_amt, &slippage) {
        Err(e) => return Err(e),
        Ok(None) => return Err(failed(BRC20Error::SlippageError)),
        Ok(Some(v)) => v,
    };
    swap_settle_exec(
        context, module_id, sender, token_in, token_out, &pool_pair, pool, in_first, &in_amt, &out_amt, amount_in,
        amount_out,
    )
}

/// Settles a swap whose amounts are known (see `swap_settle`).
fn swap_settle_exec(
    context: &mut SwapState,
    module_id: &String,
    sender: &UtxoAddress,
    token_in: &BRC20Ticker,
    token_out: &BRC20Ticker,
    pool_pair: &BRC20ModulePoolPair,
    pool: BRC20ModuleSwapPoolPairBalance,
    in_first: bool,
    in_amt: &Brc20Decimal,
    out_amt: &Brc20Decimal,
    amount_in: Brc20Decimal,
    amount_out: Brc20Decimal,
) -> (r: Result<(), ExecutionError>)
    requires
        old(context).wf(),
        0 <= in_amt@.1 <= 18,
        0 <= out_amt@.1 <= 18,
    ensures
        final(context).wf(),
        outcome_is(
            swap_settle(old(context)@, module_id@, sender@, tkey(token_in@), tkey(token_out@), pool_pair@, pool@,
                in_first, in_amt@, out_amt@, amount_in@, amount_out@),
            final(context)@,
            r,
        ),
{
    let pin = if in_first { pool.tick_balance[0].copy() } else { pool.tick_balance[1].copy() };
    let pout = if in_first { pool.tick_balance[1].copy() } else { pool.tick_balance[0].copy() };
    if pout.lt(&amount_out) {
        return Err(failed(BRC20Error::InsufficientPoolBalance(pout, amount_out)));
    }
    let in_balance = match context.load_brc20_module_address_token_balance(sender, module_id, token_in) {
        Some(b) => b,
        None => BRC20ModuleTokenBalance::new_with_scale(in_amt.get_precision()),
    };
    if in_balance.swap_account_balance.lt(in_amt) {
        return Err(failed(BRC20Error::InsufficientUserModuleBalance(in_balance.swap_account_balance, amount_in)));
    }
    let new_pout = match checked_sub(&pout, &amount_out) {
        Ok(d) => d,
        Err(e) => return Err(e),
    };
    let new_in_swap = match checked_sub(&in_balance.swap_account_balance, &amount_in) {
        Ok(d) => d,
        Err(e) => return Err(e),
    };
    context.update_brc20_module_address_token_balance(
        sender,
        module_id,
        token_in,
        BRC20ModuleTokenBalance {
            swap_account_balance: new_in_swap,
            available_balance: in_balance.available_balance,
            pending_withdrawal_amount: in_balance.pending_withdrawal_amount,
        },
    );
    let out_balance = match context.load_brc20_module_address_token_balance(sender, module_id, token_out) {
        Some(b) => b,
        None => BRC20ModuleTokenBalance::new_with_scale(out_amt.get_precision()),
    };
    let new_pin = match checked_add(&pin, &amount_in) {
        Ok(d) => d,
        Err(e) => return Err(e),
    };
    let new_out_swap = match checked_add(&out_balance.swap_account_balance, &amount_out) {
        Ok(d) => d,
        Err(e) => return Err(e),
    };
    context.update_brc20_module_address_token_balance(
        sender,
        module_id,
        token_out,
        BRC20ModuleTokenBalance {
            swap_account_balance: new_out_swap,
            available_balance: out_balance.available_balance,
            pending_withdrawal_amount: out_balance.pending_withdrawal_amount,
        },
    );
    let new_pool = BRC20ModuleSwapPoolPairBalance {
        tick: pool.tick,
        tick_balance: if in_first { [new_pin, new_pout] } else { [new_pout, new_pin] },
        lp_balance: pool.lp_balance,
        last_root_k: pool.last_root_k,
    };
    context.update_brc20_module_swap_poolpair_balance(module_id, pool_pair, new_pool);
    Ok(())
}

impl SwapFunctionData {
    /// Creates a module's pool of two deployed tickers (see `deploy_pool_spec`).
    pub fn handle_deploy_pool(&self, module_id: &String, context: &mut SwapState) -> (r: Result<(), ExecutionError>)
        requires
            old(context).wf(),
        ensures
            final(context).wf(),
            outcome_is(deploy_pool_spec(old(context)@, module_id@, self@), final(context)@, r),
    {
        let params = match params_of(self) {
            Ok(p) => p,
            Err(e) => return Err(e),
        };
        let ghost p = params@.map_values(|s: String| s@);
        let token0 = match expect_ticker(match param(params, 0) {
            Ok(t) => t,
            Err(e) => return Err(e),
        }) {
            Ok(t) => t,
            Err(e) => return Err(e),
        };
        let token1 = match expect_ticker(match param(params, 1) {
            Ok(t) => t,
            Err(e) => return Err(e),
        }) {
            Ok(t) => t,
            Err(e) => return Err(e),
        };
        let empty = String::new();
        let token0_amt = match check_ticker_verify(context, &token0, &empty) {
            Ok(a) => a,
            Err(_) => return Err(failed(BRC20Error::TickerNotFound(token0.to_string()))),
        };
        let token1_amt = match check_ticker_verify(context, &token1, &empty) {
            Ok(a) => a,
            Err(_) => return Err(failed(BRC20Error::TickerNotFound(token1.to_string()))),
        };
        let pool_pair = BRC20ModulePoolPair::new(&token0, &token1);
        if context.load_brc20_module_swap_poolpair_balance(module_id, &pool_pair).is_some() {
            return Err(failed(BRC20Error::DuplicateDeployPool(pool_pair.to_string())));
        }
        context.update_brc20_module_swap_poolpair_balance(
            module_id,
            &pool_pair,
            BRC20ModuleSwapPoolPairBalance::new_with_balance(token0, token1, token0_amt, token1_amt),
        );
        Ok(())
    }

    /// Swaps one ticker of a pool for the other (see `swap_spec`), with the
    /// module's fee rate.
    pub fn handle_swap(
        &self,
        chain: &Chain,
        module_id: &String,
        context: &mut SwapState,
        fee_rate: &Brc20Decimal,
    ) -> (r: Result<(), ExecutionError>)
        requires
            old(context).wf(),
        ensures
            final(context).wf(),
            outcome_is(swap_spec(old(context)@, *chain, module_id@, self@, fee_rate@), final(context)@, r),
    {
        proof { reveal(swap_spec); }
        let sender = match sender_of(self, chain) {
            Ok(a) => a,
            Err(e) => return Err(e),
        };
        let params = match params_of(self) {
            Ok(p) => p,
            Err(e) => return Err(e),
        };
        let ghost p = params@.map_values(|s: String| s@);
        if params.len() != 7 {
            return Err(failed(BRC20Error::InvalidParamsLength(params.len(), 7)));
        }
        assert(p[0] == params@[0]@ && p[1] == params@[1]@ && p[2] == params@[2]@ && p[3] == params@[3]@);
        assert(p[4] == params@[4]@ && p[5] == params@[5]@ && p[6] == params@[6]@);
        let token_0 = match parse_ticker(&params[0]) {
            Ok(t) => t,
            Err(e) => return Err(e),
        };
        let token_1 = match parse_ticker(&params[1]) {
            Ok(t) => t,
            Err(e) => return Err(e),
        };
        let exact_in = text_is(&params[4], "exactIn");
        if !exact_in && !text_is(&params[4], "exactOut") {
            return Err(failed(BRC20Error::InvalidSwapDirection(params[4].clone())));
        }
        let named = match parse_ticker(&params[2]) {
            Ok(t) => t,
            Err(e) => return Err(e),
        };
        let other = if named.same(&token_0) { token_1.copy() } else { token_0.copy() };
        let (token_in, token_out, in_str, out_str) = if exact_in {
            (named, other, &params[3], &params[5])
        } else {
            (other, named, &params[5], &params[3])
        };
        swap_apply_exec(
            context, module_id, &sender, &token_0, &token_1, &token_in, &token_out, in_str, out_str, exact_in,
            &params[6], fee_rate,
        )
    }
}


/// A module balance, or an empty one at the given scale where there is none.
pub open spec fn balance_or_empty_at(s: StateView, k: (OwnerView, Seq<char>, Seq<char>), scale: int) -> TokenBalanceView {
    if s.module_balances.contains_key(k) { s.module_balances[k] } else { empty_token_balance(scale) }
}

/// A settled swap of two different tickers moves tokens between the pool and
/// the sender and creates none: for each ticker the pool's reserve plus the
/// sender's swap balance is what it was; the pool's shares and the sender's
/// other balances are kept, and so is every other account.
pub proof fn lemma_swap_conserves(
    s: StateView,
    module_id: Seq<char>,
    sender: OwnerView,
    tki: Seq<char>,
    tko: Seq<char>,
    pair: Seq<u8>,
    pool: PoolView,
    in_first: bool,
    in_amt: (int, int),
    out_amt: (int, int),
    ain: (int, int),
    aout: (int, int),
)
    requires
        tki != tko,
        swap_settle(s, module_id, sender, tki, tko, pair, pool, in_first, in_amt, out_amt, ain, aout).1 is Ok,
    ensures
        ({
            let r = swap_settle(s, module_id, sender, tki, tko, pair, pool, in_first, in_amt, out_amt, ain, aout).0;
            let ik = (sender, module_id, tki);
            let ok = (sender, module_id, tko);
            let ib = balance_or_empty_at(s, ik, in_amt.1);
            let ob = balance_or_empty_at(s, ok, out_amt.1);
            let np = r.pools[(module_id, pair)];
            let pin = if in_first { pool.balance0 } else { pool.balance1 };
            let pout = if in_first { pool.balance1 } else { pool.balance0 };
            let npin = if in_first { np.balance0 } else { np.balance1 };
            let npout = if in_first { np.balance1 } else { np.balance0 };
            &&& npin.0 + r.module_balances[ik].swap.0 == pin.0 + ib.swap.0
            &&& npout.0 + r.module_balances[ok].swap.0 == pout.0 + ob.swap.0
            &&& npin.0 == pin.0 + ain.0 && npout.0 == pout.0 - aout.0
            &&& np.lp == pool.lp && np.tick0 == pool.tick0 && np.tick1 == pool.tick1
            &&& r.module_balances[ik].available == ib.available && r.module_balances[ik].pending == ib.pending
            &&& r.module_balances[ok].available == ob.available && r.module_balances[ok].pending == ob.pending
            &&& forall|k| k != ik && k != ok ==> r.module_balances.contains_key(k) == s.module_balances.contains_key(k)
                && (#[trigger] s.module_balances.contains_key(k) ==> r.module_balances[k] == s.module_balances[k])
            &&& forall|q| q != (module_id, pair) ==> r.pools.contains_key(q) == s.pools.contains_key(q)
                && (#[trigger] s.pools.contains_key(q) ==> r.pools[q] == s.pools[q])
            &&& r == StateView { module_balances: r.module_balances, pools: r.pools, ..s }
        }),
{
}


/// How much a pool's side of the ticker `tin` grew from `s` to `r`.
pub open spec fn pool_in_gain(s: StateView, r: StateView, module_id: Seq<char>, tin: Seq<char>, pair: Seq<u8>) -> int {
    let pool = s.pools[(module_id, pair)];
    let np = r.pools[(module_id, pair)];
    if pool.tick0 == tin { np.balance0.0 - pool.balance0.0 } else { np.balance1.0 - pool.balance1.0 }
}

/// How much a pool's other side (the ticker out of a swap of `tin`) shrank
/// from `s` to `r`.
pub open spec fn pool_out_loss(s: StateView, r: StateView, module_id: Seq<char>, tin: Seq<char>, pair: Seq<u8>) -> int {
    let pool = s.pools[(module_id, pair)];
    let np = r.pools[(module_id, pair)];
    if pool.tick0 == tin { pool.balance1.0 - np.balance1.0 } else { pool.balance0.0 - np.balance0.0 }
}

/// What a swap moves: the sender's swap balance of the ticker in (none
/// counting as empty) shrinks by what the pool's side of it gained, that of
/// the ticker out grows by what the pool's other side lost, and that side
/// stays non-negative.
pub open spec fn swap_moves(
    s: StateView,
    r: StateView,
    module_id: Seq<char>,
    sender: OwnerView,
    tin: Seq<char>,
    tout: Seq<char>,
    pair: Seq<u8>,
    in_scale: int,
    out_scale: int,
) -> bool {
    let pool = s.pools[(module_id, pair)];
    let np = r.pools[(module_id, pair)];
    let npout = if pool.tick0 == tin { np.balance1 } else { np.balance0 };
    let ik = (sender, module_id, tkey(tin));
    let ok = (sender, module_id, tkey(tout));
    &&& npout.0 >= 0
    &&& r.module_balances[ik].swap.0 == balance_or_empty_at(s, ik, in_scale).swap.0
        - pool_in_gain(s, r, module_id, tin, pair)
    &&& r.module_balances[ok].swap.0 == balance_or_empty_at(s, ok, out_scale).swap.0
        + pool_out_loss(s, r, module_id, tin, pair)
}

/// A successful `swap` call of two different tickers (different in lowercase,
/// as tickers are keyed) moves tokens between the
/// sender and the pool and creates none (see `swap_moves`); the exact amount
/// is the one the call names: what the pool gains for `exactIn`, what it
/// loses for `exactOut`.
pub proof fn lemma_swap_call_moves(s: StateView, chain: Chain, module_id: Seq<char>, f: FunctionView, fee: (int, int))
    requires
        swap_spec(s, chain, module_id, f, fee).1 is Ok,
        f.params matches Some(p) && p.len() == 7 && tkey(p[0]) != tkey(p[1]) && (p[2] == p[0] || p[2] == p[1]),
    ensures
        ({
            let r = swap_spec(s, chain, module_id, f, fee).0;
            let p = f.params.unwrap();
            let sender = owner_parse(f.address.unwrap(), chain)->Ok_0;
            let exact_in = p[4] == "exactIn"@;
            let other = if p[2] == p[0] { p[1] } else { p[0] };
            let tin = if exact_in { p[2] } else { other };
            let tout = if exact_in { other } else { p[2] };
            let di = s.ticker_infos[tkey(tin)].decimals as int;
            let dout = s.ticker_infos[tkey(tout)].decimals as int;
            &&& swap_moves(s, r, module_id, sender, tin, tout, pair_of(p[0], p[1]), di, dout)
            &&& exact_in ==> pool_in_gain(s, r, module_id, tin, pair_of(p[0], p[1]))
                == scaled_amount(p[3], di as nat).unwrap()
            &&& !exact_in ==> pool_out_loss(s, r, module_id, tin, pair_of(p[0], p[1]))
                == scaled_amount(p[3], dout as nat).unwrap()
        }),
{
    let p = f.params.unwrap();
    let sender = owner_parse(f.address.unwrap(), chain)->Ok_0;
    let exact_in = p[4] == "exactIn"@;
    let other = if p[2] == p[0] { p[1] } else { p[0] };
    let tin = if exact_in { p[2] } else { other };
    let tout = if exact_in { other } else { p[2] };
    let in_str = if exact_in { p[3] } else { p[5] };
    let out_str = if exact_in { p[5] } else { p[3] };
    assert(tkey(tin) != tkey(tout));
    lemma_swap_spec_applies(s, chain, module_id, f, fee);
    lemma_swap_apply_moves(s, module_id, sender, p[0], p[1], tin, tout, in_str, out_str, exact_in, p[6], fee);
}

/// A successful `swap` call is `swap_apply` on its parsed parameters.
proof fn lemma_swap_spec_applies(s: StateView, chain: Chain, module_id: Seq<char>, f: FunctionView, fee: (int, int))
    requires
        swap_spec(s, chain, module_id, f, fee).1 is Ok,
    ensures
        ({
            let p = f.params.unwrap();
            let sender = owner_parse(f.address.unwrap(), chain)->Ok_0;
            let exact_in = p[4] == "exactIn"@;
            let other = if p[2] == p[0] { p[1] } else { p[0] };
            let tin = if exact_in { p[2] } else { other };
            let tout = if exact_in { other } else { p[2] };
            let in_str = if exact_in { p[3] } else { p[5] };
            let out_str = if exact_in { p[5] } else { p[3] };
            swap_spec(s, chain, module_id, f, fee) == swap_apply(s, module_id, sender, p[0], p[1], tin, tout, in_str,
                out_str, exact_in, p[6], fee)
        }),
{
    reveal(swap_spec);
}

/// A successful `swap_apply` of two different tickers moves what `swap_moves` says.
#[verifier::spinoff_prover]
#[verifier::rlimit(40)]
proof fn lemma_swap_apply_moves(
    s: StateView,
    module_id: Seq<char>,
    sender: OwnerView,
    t0: Seq<char>,
    t1: Seq<char>,
    tin: Seq<char>,
    tout: Seq<char>,
    in_str: Seq<char>,
    out_str: Seq<char>,
    exact_in: bool,
    slip_str: Seq<char>,
    fee: (int, int),
)
    requires
        tkey(tin) != tkey(tout),
        swap_apply(s, module_id, sender, t0, t1, tin, tout, in_str, out_str, exact_in, slip_str, fee).1 is Ok,
    ensures
        ({
            let r = swap_apply(s, module_id, sender, t0, t1, tin, tout, in_str, out_str, exact_in, slip_str, fee).0;
            let di = s.ticker_infos[tkey(tin)].decimals as int;
            let dout = s.ticker_infos[tkey(tout)].decimals as int;
            &&& swap_moves(s, r, module_id, sender, tin, tout, pair_of(t0, t1), di, dout)
            &&& exact_in ==> pool_in_gain(s, r, module_id, tin, pair_of(t0, t1)) == scaled_amount(in_str, di as nat).unwrap()
            &&& !exact_in ==> pool_out_loss(s, r, module_id, tin, pair_of(t0, t1)) == scaled_amount(out_str, dout as nat).unwrap()
        }),
{
    let r = swap_apply(s, module_id, sender, t0, t1, tin, tout, in_str, out_str, exact_in, slip_str, fee).0;
    let tki = tkey(tin);
    let tko = tkey(tout);
    let ii = s.ticker_infos[tki];
    let oi = s.ticker_infos[tko];
    let vi = scaled_amount(in_str, ii.decimals as nat).unwrap();
    let vo = scaled_amount(out_str, oi.decimals as nat).unwrap();
    let pair = pair_of(t0, t1);
    let pool = s.pools[(module_id, pair)];
    let in_first = pool.tick0 == tin;
    let pin = if in_first { pool.balance0 } else { pool.balance1 };
    let pout = if in_first { pool.balance1 } else { pool.balance0 };
    let in_amt = (vi, ii.decimals as int);
    let out_amt = (vo, oi.decimals as int);
    let sv = scaled_amount(slip_str, 3).unwrap();
    let am = swap_amounts(exact_in, fee, pin, pout, in_amt, out_amt, (sv, 3))->Some_0->Some_0;
    let ain = am.0;
    let aout = am.1;
    assert(r == swap_settle(s, module_id, sender, tki, tko, pair, pool, in_first, in_amt, out_amt, ain, aout).0);
    assert(exact_in ==> ain == in_amt);
    assert(!exact_in ==> aout == out_amt);
    lemma_swap_conserves(s, module_id, sender, tki, tko, pair, pool, in_first, in_amt, out_amt, ain, aout);
    lemma_not_below_same_scale(pout, aout);
}

/// An amount that is not below another of the same scale leaves a
/// non-negative difference.
pub proof fn lemma_not_below_same_scale(pout: (int, int), aout: (int, int))
    requires
        pout.1 == aout.1,
        !dec_less(pout, aout),
    ensures
        pout.0 - aout.0 >= 0,
{
    vstd::arithmetic::power::lemma_pow0(10);
    assert(crate::decimal::common_scale(pout, aout) == pout.1);
}

/// A `swap` call whose address reads and that does not carry exactly seven
/// parameters is refused for its parameter count, and changes nothing.
pub proof fn lemma_swap_params_length(s: StateView, chain: Chain, module_id: Seq<char>, f: FunctionView, fee: (int, int))
    requires
        f.address matches Some(a) && owner_parse(a, chain) is Ok,
        f.params matches Some(p) && p.len() != 7,
    ensures
        swap_spec(s, chain, module_id, f, fee)
            == fail(s, ErrorView::InvalidParamsLength(f.params.unwrap().len() as usize, 7)),
{
    reveal(swap_spec);
}

/// At one scale, an amount below another has the smaller mantissa.
pub proof fn lemma_below_same_scale(a: (int, int), b: (int, int))
    requires
        a.1 == b.1,
        dec_less(a, b),
    ensures
        a.0 < b.0,
{
    vstd::arithmetic::power::lemma_pow0(10);
    assert(crate::decimal::common_scale(a, b) == a.1);
}

/// The exact-in price: with fee `f` in thousandths (`g = 1000 - f`), reserves
/// `x` in and `y` out, and amount in `a`, the amount out is
/// `y * a * g / (x * 1000 + a * g)` rounded down; this never lowers the
/// product of the reserves.
pub proof fn lemma_constant_product_fee(x: int, y: int, a: int, g: int)
    requires
        x >= 0,
        y >= 0,
        a >= 0,
        0 <= g <= 1000,
        x * 1000 + a * g > 0,
    ensures
        0 <= (y * (a * g)) / (x * 1000 + a * g) <= y,
        (x + a) * (y - (y * (a * g)) / (x * 1000 + a * g)) >= x * y,
{
    let d = x * 1000 + a * g;
    let n = y * (a * g);
    let out = n / d;
    assert(y * (a * g) >= 0) by (nonlinear_arith) requires y >= 0, a >= 0, g >= 0;
    assert(a * g <= d) by (nonlinear_arith) requires x >= 0, d == x * 1000 + a * g;
    assert(n <= y * d) by (nonlinear_arith) requires n == y * (a * g), a * g <= d, y >= 0;
    vstd::arithmetic::div_mod::lemma_fundamental_div_mod(n, d);
    vstd::arithmetic::div_mod::lemma_div_pos_is_pos(n, d);
    vstd::arithmetic::div_mod::lemma_div_is_ordered(n, y * d, d);
    vstd::arithmetic::div_mod::lemma_div_multiples_vanish(y, d);
    assert((d * y) / d == y);
    assert(y * d == d * y) by (nonlinear_arith);
    assert(out <= y);
    assert(out * d <= n) by (nonlinear_arith)
        requires n == d * out + n % d, n % d >= 0;
    assert(out * x * 1000 <= a * g * (y - out)) by (nonlinear_arith)
        requires out * d <= n, d == x * 1000 + a * g, n == y * (a * g);
    assert(a * g * (y - out) <= a * 1000 * (y - out)) by (nonlinear_arith)
        requires a >= 0, g <= 1000, y - out >= 0;
    assert(out * x <= a * (y - out)) by (nonlinear_arith)
        requires out * x * 1000 <= a * 1000 * (y - out);
    assert((x + a) * (y - out) >= x * y) by (nonlinear_arith)
        requires out * x <= a * (y - out);
}

/// Without a fee the amount out is `y * a / (x + a)` rounded down; this never
/// lowers the product of the reserves.
pub proof fn lemma_constant_product(x: int, y: int, a: int)
    requires
        x >= 0,
        y >= 0,
        a >= 0,
        x + a > 0,
    ensures
        (x + a) * (y - (y * a) / (x + a)) >= x * y,
{
    let d = x + a;
    let n = y * a;
    let out = n / d;
    assert(y * a >= 0) by (nonlinear_arith) requires y >= 0, a >= 0;
    vstd::arithmetic::div_mod::lemma_fundamental_div_mod(n, d);
    assert(out * d <= n) by (nonlinear_arith)
        requires n == d * out + n % d, n % d >= 0;
    assert((x + a) * (y - out) >= x * y) by (nonlinear_arith)
        requires out * d <= n, d == x + a, n == y * a;
}

/// The exact-out price never lowers the product of the reserves: taking
/// `out` from reserves `x` in and `y` out for `x * out * 1000 / ((y - out) * g)`
/// rounded down, plus one, where `g <= 1000`.
pub proof fn lemma_constant_product_exact_out(x: int, y: int, out: int, g: int)
    requires
        x >= 0,
        out >= 0,
        y - out > 0,
        0 < g <= 1000,
    ensures
        (x + ((x * (out * 1000)) / ((y - out) * g) + 1)) * (y - out) >= x * y,
{
    let d = (y - out) * g;
    let n = x * (out * 1000);
    assert(d > 0) by (nonlinear_arith) requires y - out > 0, g > 0, d == (y - out) * g;
    let q = n / d;
    vstd::arithmetic::div_mod::lemma_fundamental_div_mod(n, d);
    assert(n < d * (q + 1)) by (nonlinear_arith)
        requires n == d * q + n % d, n % d < d;
    assert(n >= 0) by (nonlinear_arith) requires n == x * (out * 1000), x >= 0, out >= 0;
    vstd::arithmetic::div_mod::lemma_div_pos_is_pos(n, d);
    assert(d * (q + 1) <= (y - out) * 1000 * (q + 1)) by (nonlinear_arith)
        requires d == (y - out) * g, g <= 1000, y - out > 0, q >= 0;
    assert(x * out * 1000 < (q + 1) * (y - out) * 1000) by (nonlinear_arith)
        requires n < d * (q + 1), n == x * (out * 1000), d * (q + 1) <= (y - out) * 1000 * (q + 1);
    assert(x * out <= (q + 1) * (y - out)) by (nonlinear_arith)
        requires x * out * 1000 < (q + 1) * (y - out) * 1000;
    assert((x + (q + 1)) * (y - out) >= x * y) by (nonlinear_arith)
        requires x * out <= (q + 1) * (y - out);
}

/// Rounding toward zero and rounding down agree on a non-negative numerator
/// and a positive denominator.
proof fn lemma_trunc_div_floor(n: int, d: int)
    requires
        n >= 0,
        d > 0,
    ensures
        trunc_div(n, d) == n / d,
{
}

/// An exact-in swap, once its parameters are read, moves the amount named in
/// and the constant-product amount out (see `lemma_swap_exact_in_price`).
#[verifier::spinoff_prover]
#[verifier::rlimit(60)]
proof fn lemma_swap_apply_exact_in(
    s: StateView,
    module_id: Seq<char>,
    sender: OwnerView,
    t0: Seq<char>,
    t1: Seq<char>,
    tin: Seq<char>,
    tout: Seq<char>,
    in_str: Seq<char>,
    out_str: Seq<char>,
    slip_str: Seq<char>,
    fee: (int, int),
)
    requires
        tkey(tin) != tkey(tout),
        swap_apply(s, module_id, sender, t0, t1, tin, tout, in_str, out_str, true, slip_str, fee).1 is Ok,
    ensures
        ({
            let r = swap_apply(s, module_id, sender, t0, t1, tin, tout, in_str, out_str, true, slip_str, fee).0;
            let pair = pair_of(t0, t1);
            let pool = s.pools[(module_id, pair)];
            let np = r.pools[(module_id, pair)];
            let in_first = pool.tick0 == tin;
            let x = if in_first { pool.balance0.0 } else { pool.balance1.0 };
            let y = if in_first { pool.balance1.0 } else { pool.balance0.0 };
            let nx = if in_first { np.balance0.0 } else { np.balance1.0 };
            let ny = if in_first { np.balance1.0 } else { np.balance0.0 };
            let a = nx - x;
            let out = y - ny;
            &&& a == scaled_amount(in_str, s.ticker_infos[tkey(tin)].decimals as nat).unwrap()
            &&& a >= 0
            &&& fee.0 > 0 ==> x * 1000 + a * (1000 - fee.0) != 0
                && out == trunc_div(y * (a * (1000 - fee.0)), x * 1000 + a * (1000 - fee.0))
            &&& fee.0 <= 0 ==> x + a != 0 && out == trunc_div(y * a, x + a)
            &&& ({
                let yscale = if in_first { pool.balance1.1 } else { pool.balance0.1 };
                let dout = s.ticker_infos[tkey(tout)].decimals as int;
                let vo = scaled_amount(out_str, dout as nat).unwrap();
                let sv = scaled_amount(slip_str, 3).unwrap();
                !dec_less((out, yscale), (trunc_div(vo * 1000, 1000 + sv), dout))
            })
        }),
{
    let tki = tkey(tin);
    let tko = tkey(tout);
    let ii = s.ticker_infos[tki];
    let oi = s.ticker_infos[tko];
    let vi = scaled_amount(in_str, ii.decimals as nat).unwrap();
    let vo = scaled_amount(out_str, oi.decimals as nat).unwrap();
    let pair = pair_of(t0, t1);
    let pool = s.pools[(module_id, pair)];
    let in_first = pool.tick0 == tin;
    let pin = if in_first { pool.balance0 } else { pool.balance1 };
    let pout = if in_first { pool.balance1 } else { pool.balance0 };
    let in_amt = (vi, ii.decimals as int);
    let out_amt = (vo, oi.decimals as int);
    let sv = scaled_amount(slip_str, 3).unwrap();
    let am = swap_amounts(true, fee, pin, pout, in_amt, out_amt, (sv, 3))->Some_0->Some_0;
    let ain = am.0;
    let aout = am.1;
    assert(ain == in_amt);
    assert(exact_in_amount(fee, pin, pout, in_amt) == Some(aout));
    if fee.0 > 0 {
        assert(aout.0 == trunc_div(pout.0 * (vi * (1000 - fee.0)), pin.0 * 1000 + vi * (1000 - fee.0)));
    } else {
        assert(aout.0 == trunc_div(pout.0 * vi, pin.0 + vi));
    }
    lemma_swap_conserves(s, module_id, sender, tki, tko, pair, pool, in_first, in_amt, out_amt, ain, aout);
}

/// The exact-in swap price. For a successful `swap` of two different tickers
/// with direction `exactIn`, where the pool holds `x` of the ticker in and `y`
/// of the ticker out (mantissas) and the module's fee is `f` thousandths: the
/// pool receives the amount `a` named in the call and pays out
/// `y * a * (1000 - f) / (x * 1000 + a * (1000 - f))` rounded toward zero (for
/// no fee, `y * a / (x + a)`); with reserves that are not negative and a fee
/// of at most 1000 thousandths, the product of the two reserves does not go
/// down; and the amount out is at least the bound named in the call less the
/// slippage (`bound * 1000 / (1000 + slippage)`, slippage in thousandths).
#[verifier::spinoff_prover]
#[verifier::rlimit(60)]
pub proof fn lemma_swap_exact_in_price(s: StateView, chain: Chain, module_id: Seq<char>, f: FunctionView, fee: (int, int))
    requires
        swap_spec(s, chain, module_id, f, fee).1 is Ok,
        f.params matches Some(p) && p.len() == 7 && tkey(p[0]) != tkey(p[1]) && (p[2] == p[0] || p[2] == p[1])
            && p[4] == "exactIn"@,
    ensures
        ({
            let p = f.params.unwrap();
            let r = swap_spec(s, chain, module_id, f, fee).0;
            let tin = p[2];
            let pair = pair_of(p[0], p[1]);
            let pool = s.pools[(module_id, pair)];
            let np = r.pools[(module_id, pair)];
            let in_first = pool.tick0 == tin;
            let x = if in_first { pool.balance0.0 } else { pool.balance1.0 };
            let y = if in_first { pool.balance1.0 } else { pool.balance0.0 };
            let nx = if in_first { np.balance0.0 } else { np.balance1.0 };
            let ny = if in_first { np.balance1.0 } else { np.balance0.0 };
            let a = nx - x;
            let out = y - ny;
            let g = 1000 - fee.0;
            &&& a == scaled_amount(p[3], s.ticker_infos[tkey(tin)].decimals as nat).unwrap()
            &&& fee.0 > 0 ==> out == trunc_div(y * (a * g), x * 1000 + a * g)
            &&& fee.0 <= 0 ==> out == trunc_div(y * a, x + a)
            &&& x >= 0 && y >= 0 && fee.0 <= 1000 ==> nx * ny >= x * y
            &&& ({
                let yscale = if in_first { pool.balance1.1 } else { pool.balance0.1 };
                let tout = if p[2] == p[0] { p[1] } else { p[0] };
                let dout = s.ticker_infos[tkey(tout)].decimals as int;
                let vo = scaled_amount(p[5], dout as nat).unwrap();
                let sv = scaled_amount(p[6], 3).unwrap();
                !dec_less((out, yscale), (trunc_div(vo * 1000, 1000 + sv), dout))
            })
        }),
{
    let p = f.params.unwrap();
    let sender = owner_parse(f.address.unwrap(), chain)->Ok_0;
    let other = if p[2] == p[0] { p[1] } else { p[0] };
    let tin = p[2];
    let tout = other;
    assert(tkey(tin) != tkey(tout));
    lemma_swap_spec_applies(s, chain, module_id, f, fee);
    lemma_swap_apply_exact_in(s, module_id, sender, p[0], p[1], tin, tout, p[3], p[5], p[6], fee);
    let r = swap_spec(s, chain, module_id, f, fee).0;
    let pair = pair_of(p[0], p[1]);
    let pool = s.pools[(module_id, pair)];
    let np = r.pools[(module_id, pair)];
    let in_first = pool.tick0 == tin;
    let x = if in_first { pool.balance0.0 } else { pool.balance1.0 };
    let y = if in_first { pool.balance1.0 } else { pool.balance0.0 };
    let nx = if in_first { np.balance0.0 } else { np.balance1.0 };
    let ny = if in_first { np.balance1.0 } else { np.balance0.0 };
    let a = nx - x;
    if x >= 0 && y >= 0 && fee.0 <= 1000 {
        if fee.0 > 0 {
            let g = 1000 - fee.0;
            assert(a * g >= 0) by (nonlinear_arith) requires a >= 0, g >= 0;
            lemma_trunc_div_floor(y * (a * g), x * 1000 + a * g);
            lemma_constant_product_fee(x, y, a, g);
        } else {
            assert(y * a >= 0) by (nonlinear_arith) requires a >= 0, y >= 0;
            lemma_trunc_div_floor(y * a, x + a);
            lemma_constant_product(x, y, a);
        }
        assert(nx == x + a);
    }
}

/// Without a fee, taking `out` from reserves `x` in and `y` out for
/// `x * out / (y - out)` rounded down, plus one, never lowers the product of
/// the reserves.
pub proof fn lemma_constant_product_exact_out_no_fee(x: int, y: int, out: int)
    requires
        x >= 0,
        out >= 0,
        y - out > 0,
    ensures
        (x + ((x * out) / (y - out) + 1)) * (y - out) >= x * y,
{
    let d = y - out;
    let n = x * out;
    let q = n / d;
    vstd::arithmetic::div_mod::lemma_fundamental_div_mod(n, d);
    assert(n < d * (q + 1)) by (nonlinear_arith)
        requires n == d * q + n % d, n % d < d;
    assert((x + (q + 1)) * (y - out) >= x * y) by (nonlinear_arith)
        requires n < d * (q + 1), n == x * out, d == y - out;
}

/// An exact-out swap, once its parameters are read, pays the amount named out
/// and takes the constant-product amount in (see `lemma_swap_exact_out_price`).
#[verifier::spinoff_prover]
#[verifier::rlimit(60)]
proof fn lemma_swap_apply_exact_out(
    s: StateView,
    module_id: Seq<char>,
    sender: OwnerView,
    t0: Seq<char>,
    t1: Seq<char>,
    tin: Seq<char>,
    tout: Seq<char>,
    in_str: Seq<char>,
    out_str: Seq<char>,
    slip_str: Seq<char>,
    fee: (int, int),
)
    requires
        tkey(tin) != tkey(tout),
        swap_apply(s, module_id, sender, t0, t1, tin, tout, in_str, out_str, false, slip_str, fee).1 is Ok,
    ensures
        ({
            let r = swap_apply(s, module_id, sender, t0, t1, tin, tout, in_str, out_str, false, slip_str, fee).0;
            let pair = pair_of(t0, t1);
            let pool = s.pools[(module_id, pair)];
            let np = r.pools[(module_id, pair)];
            let in_first = pool.tick0 == tin;
            let x = if in_first { pool.balance0.0 } else { pool.balance1.0 };
            let y = if in_first { pool.balance1.0 } else { pool.balance0.0 };
            let nx = if in_first { np.balance0.0 } else { np.balance1.0 };
            let ny = if in_first { np.balance1.0 } else { np.balance0.0 };
            let a = nx - x;
            let out = y - ny;
            &&& out == scaled_amount(out_str, s.ticker_infos[tkey(tout)].decimals as nat).unwrap()
            &&& out >= 0
            &&& ny >= 0
            &&& fee.0 > 0 ==> (y - out) * (1000 - fee.0) != 0
                && a == trunc_div(x * (out * 1000), (y - out) * (1000 - fee.0)) + 1
            &&& fee.0 <= 0 ==> y - out != 0 && a == trunc_div(x * out, y - out) + 1
            &&& ({
                let xscale = if in_first { pool.balance0.1 } else { pool.balance1.1 };
                let di = s.ticker_infos[tkey(tin)].decimals as int;
                let vi = scaled_amount(in_str, di as nat).unwrap();
                let sv = scaled_amount(slip_str, 3).unwrap();
                !dec_less((vi * (1000 + sv), di), (a, xscale))
            })
        }),
{
    let tki = tkey(tin);
    let tko = tkey(tout);
    let ii = s.ticker_infos[tki];
    let oi = s.ticker_infos[tko];
    let vi = scaled_amount(in_str, ii.decimals as nat).unwrap();
    let vo = scaled_amount(out_str, oi.decimals as nat).unwrap();
    let pair = pair_of(t0, t1);
    let pool = s.pools[(module_id, pair)];
    let in_first = pool.tick0 == tin;
    let pin = if in_first { pool.balance0 } else { pool.balance1 };
    let pout = if in_first { pool.balance1 } else { pool.balance0 };
    let in_amt = (vi, ii.decimals as int);
    let out_amt = (vo, oi.decimals as int);
    let sv = scaled_amount(slip_str, 3).unwrap();
    let am = swap_amounts(false, fee, pin, pout, in_amt, out_amt, (sv, 3))->Some_0->Some_0;
    let ain = am.0;
    let aout = am.1;
    assert(aout == out_amt);
    assert(exact_out_amount(fee, pin, pout, out_amt, in_amt.1) == Some(ain));
    lemma_swap_conserves(s, module_id, sender, tki, tko, pair, pool, in_first, in_amt, out_amt, ain, aout);
    lemma_not_below_same_scale(pout, aout);
}

/// The exact-out swap price. For a successful `swap` of two different
/// tickers with direction `exactOut`, where the pool holds `x` of the ticker
/// in and `y` of the ticker out (mantissas) and the module's fee is `f`
/// thousandths: the pool pays out the amount `out` named in the call, keeps
/// some of the ticker out, and receives
/// `x * out * 1000 / ((y - out) * (1000 - f))` rounded toward zero, plus one
/// unit (for no fee, `x * out / (y - out)` plus one); with reserves that are
/// not negative and a fee below 1000 thousandths, the product of the two
/// reserves does not go down; and the amount in is at most the bound named in
/// the call plus the slippage (`bound * (1000 + slippage)`, in thousandths).
#[verifier::spinoff_prover]
#[verifier::rlimit(60)]
pub proof fn lemma_swap_exact_out_price(s: StateView, chain: Chain, module_id: Seq<char>, f: FunctionView, fee: (int, int))
    requires
        swap_spec(s, chain, module_id, f, fee).1 is Ok,
        f.params matches Some(p) && p.len() == 7 && tkey(p[0]) != tkey(p[1]) && (p[2] == p[0] || p[2] == p[1])
            && p[4] == "exactOut"@,
    ensures
        ({
            let p = f.params.unwrap();
            let r = swap_spec(s, chain, module_id, f, fee).0;
            let tout = p[2];
            let tin = if p[2] == p[0] { p[1] } else { p[0] };
            let pair = pair_of(p[0], p[1]);
            let pool = s.pools[(module_id, pair)];
            let np = r.pools[(module_id, pair)];
            let in_first = pool.tick0 == tin;
            let x = if in_first { pool.balance0.0 } else { pool.balance1.0 };
            let y = if in_first { pool.balance1.0 } else { pool.balance0.0 };
            let nx = if in_first { np.balance0.0 } else { np.balance1.0 };
            let ny = if in_first { np.balance1.0 } else { np.balance0.0 };
            let a = nx - x;
            let out = y - ny;
            &&& out == scaled_amount(p[3], s.ticker_infos[tkey(tout)].decimals as nat).unwrap()
            &&& ny > 0
            &&& fee.0 > 0 ==> a == trunc_div(x * (out * 1000), (y - out) * (1000 - fee.0)) + 1
            &&& fee.0 <= 0 ==> a == trunc_div(x * out, y - out) + 1
            &&& x >= 0 && fee.0 < 1000 ==> nx * ny >= x * y
            &&& ({
                let xscale = if in_first { pool.balance0.1 } else { pool.balance1.1 };
                let di = s.ticker_infos[tkey(tin)].decimals as int;
                let vi = scaled_amount(p[5], di as nat).unwrap();
                let sv = scaled_amount(p[6], 3).unwrap();
                !dec_less((vi * (1000 + sv), di), (a, xscale))
            })
        }),
{
    let p = f.params.unwrap();
    let sender = owner_parse(f.address.unwrap(), chain)->Ok_0;
    let other = if p[2] == p[0] { p[1] } else { p[0] };
    let tin = other;
    let tout = p[2];
    assert(p[4] != "exactIn"@) by {
        reveal_strlit("exactIn");
        reveal_strlit("exactOut");
        assert(p[4].len() != "exactIn"@.len());
    }
    assert(tkey(tin) != tkey(tout));
    lemma_swap_spec_applies(s, chain, module_id, f, fee);
    lemma_swap_apply_exact_out(s, module_id, sender, p[0], p[1], tin, tout, p[5], p[3], p[6], fee);
    let r = swap_spec(s, chain, module_id, f, fee).0;
    let pair = pair_of(p[0], p[1]);
    let pool = s.pools[(module_id, pair)];
    let np = r.pools[(module_id, pair)];
    let in_first = pool.tick0 == tin;
    let x = if in_first { pool.balance0.0 } else { pool.balance1.0 };
    let y = if in_first { pool.balance1.0 } else { pool.balance0.0 };
    let nx = if in_first { np.balance0.0 } else { np.balance1.0 };
    let ny = if in_first { np.balance1.0 } else { np.balance0.0 };
    let out = y - ny;
    if fee.0 > 0 {
        let g0 = 1000 - fee.0;
        assert(y - out != 0) by (nonlinear_arith) requires (y - out) * g0 != 0;
    }
    assert(ny > 0);
    if x >= 0 && fee.0 < 1000 {
        assert(x * out >= 0) by (nonlinear_arith) requires x >= 0, out >= 0;
        if fee.0 > 0 {
            let g = 1000 - fee.0;
            assert(x * (out * 1000) >= 0) by (nonlinear_arith) requires x >= 0, out >= 0;
            assert((y - out) * g > 0) by (nonlinear_arith) requires y - out > 0, g > 0;
            lemma_trunc_div_floor(x * (out * 1000), (y - out) * g);
            lemma_constant_product_exact_out(x, y, out, g);
        } else {
            lemma_trunc_div_floor(x * out, y - out);
            lemma_constant_product_exact_out_no_fee(x, y, out);
        }
    }
}

/// A pool that is deployed is new: no pool of the module had that pair; the
/// new pool holds the two tickers in the order given, no shares and a zero
/// root; nothing else in the state changes.
pub proof fn lemma_deploy_pool_creates(s: StateView, module_id: Seq<char>, f: FunctionView)
    requires
        deploy_pool_spec(s, module_id, f).1 is Ok,
    ensures
        ({
            let p = f.params.unwrap();
            let pair = pair_of(p[0], p[1]);
            let out = deploy_pool_spec(s, module_id, f).0;
            let np = out.pools[(module_id, pair)];
            &&& !s.pools.contains_key((module_id, pair))
            &&& out == StateView { pools: s.pools.insert((module_id, pair), np), ..s }
            &&& np.tick0 == p[0] && np.tick1 == p[1]
            &&& np.lp == (0int, 18int) && np.root_k == (0int, 18int)
        }),
{
}

} // verus!
