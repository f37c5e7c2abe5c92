//! Swap functions that move balances between accounts of a module: sending a
//! ticker, sending liquidity shares, locking shares, and approving a balance
//! for withdrawal.

use vstd::prelude::*;
use vstd::utf8::encode_utf8;
use vstd::arithmetic::power::pow;
use crate::address::OwnerView;
use crate::amount::{add_at, sub_at, mantissa_u128, checked_add, checked_sub, checked_mantissa};
use crate::chain::Chain;
use crate::decimal::{Brc20Decimal, dec_less, big_decimal_parse, scaled_value, common_scale};
use crate::entry::{
    BRC20ModuleTokenBalance, TokenBalanceView, BRC20ModulePoolPair, BRC20ModuleAddressLPTokenBalanceKey,
    BRC20ModuleLPTokenBalance, LpView, pair_bytes, pair_text,
};
use crate::error::{BRC20Error, ErrorView, ExecutionError};
use crate::operation::{SwapFunctionData, FunctionView};
use crate::params::{
    Outcome, fail, halt, done, outcome_is, owner_parse, failed, unexpected, params_of, parse_owner,
    sender_of, parse_ticker, expect_ticker, parse_amount, scaled_amount, parse_amount_scaled, param,
};
use crate::state::{SwapState, StateView, tkey};
use crate::ticker::{ticker_check, unicode_lowercase};

verus! {

/// What sending an amount of a ticker between two module accounts does, once
/// its parameters are read: the ticker must be deployed; the amount's mantissa
/// must be a `u128` (else the rules halt) no larger than the mint limit; both
/// accounts must exist and the sender's swap balance must cover the amount.
/// The sender's swap balance goes down by the amount, then the receiver's
/// (as it was before) goes up by it.
pub open spec fn send_apply(
    s: StateView,
    module_id: Seq<char>,
    sender: OwnerView,
    receiver: OwnerView,
    ticker: Seq<char>,
    amount: (int, int),
) -> Outcome {
    let tk = tkey(ticker);
    if !s.ticker_infos.contains_key(tk) {
        fail(s, ErrorView::TickerNotFound(ticker))
    } else if mantissa_u128(amount) is None {
        halt(s)
    } else if amount.0 > s.ticker_infos[tk].max_mint_limit {
        fail(s, ErrorView::InvalidTickerAmount(amount.0 as u128))
    } else if !s.module_balances.contains_key((sender, module_id, tk)) {
        fail(s, ErrorView::ModuleBalanceNotExists(module_id, ticker))
    } else {
        let sb = s.module_balances[(sender, module_id, tk)];
        if dec_less(sb.swap, amount) {
            fail(s, ErrorView::InsufficientModuleBalance(sb.swap, amount))
        } else if !s.module_balances.contains_key((receiver, module_id, tk)) {
            fail(s, ErrorView::ModuleBalanceNotExists(module_id, ticker))
        } else {
            let rb = s.module_balances[(receiver, module_id, tk)];
            match (sub_at(sb.swap, amount), add_at(rb.swap, amount)) {
                (Some(ns), Some(nr)) => done(StateView {
                    module_balances: s.module_balances
                        .insert((sender, module_id, tk), TokenBalanceView { swap: ns, ..sb })
                        .insert((receiver, module_id, tk), TokenBalanceView { swap: nr, ..rb }),
                    ..s
                }),
                _ => halt(s),
            }
        }
    }
}

/// What the `send` function does: its parameters are the receiver's address,
/// the ticker and the amount (any scale), read in that order; the sender is
/// the call's address.
pub open spec fn send_spec(s: StateView, chain: Chain, module_id: Seq<char>, f: FunctionView) -> Outcome {
    match f.params {
        None => halt(s),
        Some(p) => if p.len() < 1 {
            halt(s)
        } else {
            match owner_parse(p[0], chain) {
                Err(m) => fail(s, ErrorView::AddressParseError(m)),
                Ok(receiver) => if p.len() < 2 {
                    halt(s)
                } else {
                    match ticker_check(encode_utf8(p[1])) {
                        Err(e) => fail(s, ErrorView::TickerParse(e)),
                        Ok(_) => if p.len() < 3 {
                            halt(s)
                        } else {
                            match big_decimal_parse(p[2]) {
                                None => fail(s, ErrorView::DecimalParseError(p[2])),
                                Some(amount) => match f.address {
                                    None => halt(s),
                                    Some(a) => match owner_parse(a, chain) {
                                        Err(m) => fail(s, ErrorView::AddressParseError(m)),
                                        Ok(sender) => send_apply(s, module_id, sender, receiver, p[1], amount),
                                    },
                                },
                            }
                        },
                    }
                },
            }
        },
    }
}

/// What sending liquidity shares does, once its parameters are read: the
/// sender's shares must exist and cover the amount; they go down by it, then
/// the receiver's shares (as they are after that, or none at 18 places) go up
/// by it.
pub open spec fn send_lp_apply(
    s: StateView,
    module_id: Seq<char>,
    sender: OwnerView,
    receiver: OwnerView,
    pair: Seq<u8>,
    amount: (int, int),
) -> Outcome {
    let sk = (module_id, sender, pair);
    if !s.lp_balances.contains_key(sk) {
        fail(s, ErrorView::LPTokenBalanceNotExists(module_id, pair_text(pair)))
    } else {
        let sb = s.lp_balances[sk];
        if dec_less(sb.balance, amount) {
            fail(s, ErrorView::InsufficientLPTokenBalance(sb.balance, amount))
        } else {
            match sub_at(sb.balance, amount) {
                None => halt(s),
                Some(nb) => {
                    let s1 = StateView { lp_balances: s.lp_balances.insert(sk, LpView { balance: nb, ..sb }), ..s };
                    let rk = (module_id, receiver, pair);
                    let rb = if s1.lp_balances.contains_key(rk) {
                        s1.lp_balances[rk]
                    } else {
                        LpView { balance: (0, amount.1), locked: (0, amount.1) }
                    };
                    match add_at(rb.balance, amount) {
                        None => halt(s1),
                        Some(nr) => done(StateView {
                            lp_balances: s1.lp_balances.insert(rk, LpView { balance: nr, ..rb }),
                            ..s1
                        }),
                    }
                },
            }
        }
    }
}

/// The stored pool pair of two ticker names.
pub open spec fn pair_of(t0: Seq<char>, t1: Seq<char>) -> Seq<u8> {
    pair_bytes(encode_utf8(unicode_lowercase(t0)), encode_utf8(unicode_lowercase(t1)))
}

/// What the `sendLp` function does: its parameters are the receiver's
/// address, the two tickers of the pool and the amount of shares (18 places),
/// read in that order; the sender is the call's address.
pub open spec fn send_lp_spec(s: StateView, chain: Chain, module_id: Seq<char>, f: FunctionView) -> Outcome {
    match f.params {
        None => halt(s),
        Some(p) => if p.len() < 1 {
            halt(s)
        } else {
            match owner_parse(p[0], chain) {
                Err(m) => fail(s, ErrorView::AddressParseError(m)),
                Ok(receiver) => if p.len() < 2 {
                    halt(s)
                } else {
                    match ticker_check(encode_utf8(p[1])) {
                        Err(e) => fail(s, ErrorView::TickerParse(e)),
                        Ok(_) => if p.len() < 3 {
                            halt(s)
                        } else {
                            match ticker_check(encode_utf8(p[2])) {
                                Err(e) => fail(s, ErrorView::TickerParse(e)),
                                Ok(_) => if p.len() < 4 {
                                    halt(s)
                                } else {
                                    match scaled_amount(p[3], 18) {
                                        None => fail(s, ErrorView::DecimalParseError(p[3])),
                                        Some(v) => match f.address {
                                            None => halt(s),
                                            Some(a) => match owner_parse(a, chain) {
                                                Err(m) => fail(s, ErrorView::AddressParseError(m)),
                                                Ok(sender) => send_lp_apply(
                                                    s, module_id, sender, receiver, pair_of(p[1], p[2]), (v, 18)),
                                            },
                                        },
                                    }
                                },
                            }
                        },
                    }
                },
            }
        },
    }
}

/// What locking liquidity shares does, once its parameters are read: the
/// pool must exist, and the sender's shares must exist and cover the amount,
/// which moves from the free balance to the locked one.
pub open spec fn lock_apply(s: StateView, module_id: Seq<char>, sender: OwnerView, pair: Seq<u8>, amount: (int, int)) -> Outcome {
    let k = (module_id, sender, pair);
    if !s.pools.contains_key((module_id, pair)) {
        fail(s, ErrorView::SwapPoolTotalBalanceNotExists(pair_text(pair)))
    } else if !s.lp_balances.contains_key(k) {
        fail(s, ErrorView::LPTokenBalanceNotExists(module_id, pair_text(pair)))
    } else {
        let b = s.lp_balances[k];
        if dec_less(b.balance, amount) {
            fail(s, ErrorView::InsufficientLPTokenBalance(b.balance, amount))
        } else {
            match (sub_at(b.balance, amount), add_at(b.locked, amount)) {
                (Some(nb), Some(nl)) => done(StateView {
                    lp_balances: s.lp_balances.insert(k, LpView { balance: nb, locked: nl }),
                    ..s
                }),
                _ => halt(s),
            }
        }
    }
}

/// What the `lock` function does: its parameters are the two tickers of the
/// pool and the amount of shares (18 places); the sender (the call's address)
/// is read before the amount.
pub open spec fn lock_spec(s: StateView, chain: Chain, module_id: Seq<char>, f: FunctionView) -> Outcome {
    match f.params {
        None => halt(s),
        Some(p) => if p.len() < 1 {
            halt(s)
        } else {
            match ticker_check(encode_utf8(p[0])) {
                Err(e) => fail(s, ErrorView::TickerParse(e)),
                Ok(_) => if p.len() < 2 {
                    halt(s)
                } else {
                    match ticker_check(encode_utf8(p[1])) {
                        Err(e) => fail(s, ErrorView::TickerParse(e)),
                        Ok(_) => match f.address {
                            None => halt(s),
                            Some(a) => match owner_parse(a, chain) {
                                Err(m) => fail(s, ErrorView::AddressParseError(m)),
                                Ok(sender) => if p.len() < 3 {
                                    halt(s)
                                } else {
                                    match scaled_amount(p[2], 18) {
                                        None => fail(s, ErrorView::DecimalParseError(p[2])),
                                        Some(v) => lock_apply(s, module_id, sender, pair_of(p[0], p[1]), (v, 18)),
                                    }
                                },
                            },
                        },
                    }
                },
            }
        },
    }
}

/// What unlocking liquidity shares does, once its parameters are read: the
/// pool must exist, and the sender's shares must exist with locked shares
/// covering the amount, which moves from the locked balance to the free one.
pub open spec fn unlock_apply(s: StateView, module_id: Seq<char>, sender: OwnerView, pair: Seq<u8>, amount: (int, int)) -> Outcome {
    let k = (module_id, sender, pair);
    if !s.pools.contains_key((module_id, pair)) {
        fail(s, ErrorView::SwapPoolTotalBalanceNotExists(pair_text(pair)))
    } else if !s.lp_balances.contains_key(k) {
        fail(s, ErrorView::LPTokenBalanceNotExists(module_id, pair_text(pair)))
    } else {
        let b = s.lp_balances[k];
        if dec_less(b.locked, amount) {
            fail(s, ErrorView::InsufficientLPTokenBalance(b.locked, amount))
        } else {
            match (add_at(b.balance, amount), sub_at(b.locked, amount)) {
                (Some(nb), Some(nl)) => done(StateView {
                    lp_balances: s.lp_balances.insert(k, LpView { balance: nb, locked: nl }),
                    ..s
                }),
                _ => halt(s),
            }
        }
    }
}

/// What the `unlock` function does (its parameters are read as for `lock`): its parameters are the two tickers of the
/// pool and the amount of shares (18 places); the sender (the call's address)
/// is read before the amount.
pub open spec fn unlock_spec(s: StateView, chain: Chain, module_id: Seq<char>, f: FunctionView) -> Outcome {
    match f.params {
        None => halt(s),
        Some(p) => if p.len() < 1 {
            halt(s)
        } else {
            match ticker_check(encode_utf8(p[0])) {
                Err(e) => fail(s, ErrorView::TickerParse(e)),
                Ok(_) => if p.len() < 2 {
                    halt(s)
                } else {
                    match ticker_check(encode_utf8(p[1])) {
                        Err(e) => fail(s, ErrorView::TickerParse(e)),
                        Ok(_) => match f.address {
                            None => halt(s),
                            Some(a) => match owner_parse(a, chain) {
                                Err(m) => fail(s, ErrorView::AddressParseError(m)),
                                Ok(sender) => if p.len() < 3 {
                                    halt(s)
                                } else {
                                    match scaled_amount(p[2], 18) {
                                        None => fail(s, ErrorView::DecimalParseError(p[2])),
                                        Some(v) => unlock_apply(s, module_id, sender, pair_of(p[0], p[1]), (v, 18)),
                                    }
                                },
                            },
                        },
                    }
                },
            }
        },
    }
}

/// What approving a module balance for withdrawal does, once its parameters
/// are read: the ticker must be deployed under exactly this name; the amount
/// is read at the ticker's decimal places; its mantissa must be a `u128` (else
/// the rules halt) no larger than the total supply; the account must exist and
/// its swap balance cover the amount, which moves from the swap balance to the
/// available one.
pub open spec fn decrease_approval_apply(
    s: StateView,
    module_id: Seq<char>,
    sender: OwnerView,
    ticker: Seq<char>,
    amt: Seq<char>,
) -> Outcome {
    let tk = tkey(ticker);
    if !s.ticker_infos.contains_key(tk) || s.ticker_infos[tk].ticker != ticker {
        fail(s, ErrorView::TickerNotFound(ticker))
    } else {
        let info = s.ticker_infos[tk];
        match scaled_amount(amt, info.decimals as nat) {
            None => fail(s, ErrorView::DecimalParseError(amt)),
            Some(v) => if mantissa_u128((v, info.decimals as int)) is None {
                halt(s)
            } else if v > info.total_supply {
                fail(s, ErrorView::InvalidTickerAmount(v as u128))
            } else {
                let amount = (v, info.decimals as int);
                let k = (sender, module_id, tk);
                if !s.module_balances.contains_key(k) {
                    fail(s, ErrorView::ModuleBalanceNotExists(module_id, ticker))
                } else {
                    let b = s.module_balances[k];
                    if dec_less(b.swap, amount) {
                        fail(s, ErrorView::InsufficientModuleBalance(b.swap, amount))
                    } else {
                        match (sub_at(b.swap, amount), add_at(b.available, amount)) {
                            (Some(ns), Some(na)) => done(StateView {
                                module_balances: s.module_balances.insert(
                                    k,
                                    TokenBalanceView { swap: ns, available: na, pending: b.pending },
                                ),
                                ..s
                            }),
                            _ => halt(s),
                        }
                    }
                }
            },
        }
    }
}

/// What the `decreaseApproval` function does: its parameters are the ticker
/// (an invalid name halts the rules) and the amount; the sender is the call's
/// address.
pub open spec fn decrease_approval_spec(s: StateView, chain: Chain, module_id: Seq<char>, f: FunctionView) -> Outcome {
    match f.params {
        None => halt(s),
        Some(p) => if p.len() < 1 {
            halt(s)
        } else {
            match ticker_check(encode_utf8(p[0])) {
                Err(_) => halt(s),
                Ok(_) => if p.len() < 2 {
                    halt(s)
                } else {
                    match f.address {
                        None => halt(s),
                        Some(a) => match owner_parse(a, chain) {
                            Err(m) => fail(s, ErrorView::AddressParseError(m)),
                            Ok(sender) => decrease_approval_apply(s, module_id, sender, p[0], p[1]),
                        },
                    }
                },
            }
        },
    }
}

impl SwapFunctionData {
    /// Sends an amount of a ticker from the caller's module account to
    /// another (see `send_spec`).
    pub fn handle_send(&self, chain: &Chain, module_id: &String, context: &mut SwapState) -> (r: Result<(), ExecutionError>)
        requires
            old(context).wf(),
        ensures
            final(context).wf(),
            outcome_is(send_spec(old(context)@, *chain, module_id@, self@), final(context)@, r),
    {
        let ghost s0 = context@;
        let params = match params_of(self) {
            Ok(p) => p,
            Err(e) => return Err(e),
        };
        let ghost p = params@.map_values(|s: String| s@);
        let receiver = match parse_owner(match param(params, 0) {
            Ok(t) => t,
            Err(e) => return Err(e),
        }, chain) {
            Ok(a) => a,
            Err(e) => return Err(e),
        };
        let ticker = match parse_ticker(match param(params, 1) {
            Ok(t) => t,
            Err(e) => return Err(e),
        }) {
            Ok(t) => t,
            Err(e) => return Err(e),
        };
        let amount = match parse_amount(match param(params, 2) {
            Ok(t) => t,
            Err(e) => return Err(e),
        }) {
            Ok(d) => d,
            Err(e) => return Err(e),
        };
        let sender = match sender_of(self, chain) {
            Ok(a) => a,
            Err(e) => return Err(e),
        };
        let ticker_info = match context.load_brc20_ticker_info(&ticker) {
            Some(i) => i,
            None => return Err(failed(BRC20Error::TickerNotFound(ticker.to_string()))),
        };
        let amount_value = match checked_mantissa(&amount) {
            Ok(v) => v,
            Err(e) => return Err(e),
        };
        if amount_value > ticker_info.max_mint_limit {
            return Err(failed(BRC20Error::InvalidTickerAmount(amount_value)));
        }
        let sender_balance = match context.load_brc20_module_address_token_balance(&sender, module_id, &ticker) {
            Some(b) => b,
            None => return Err(failed(BRC20Error::ModuleBalanceNotExists(module_id.clone(), ticker.to_string()))),
        };
        if sender_balance.swap_account_balance.lt(&amount) {
            return Err(failed(BRC20Error::InsufficientModuleBalance(sender_balance.swap_account_balance, amount)));
        }
        let receiver_balance = match context.load_brc20_module_address_token_balance(&receiver, module_id, &ticker) {
            Some(b) => b,
            None => return Err(failed(BRC20Error::ModuleBalanceNotExists(module_id.clone(), ticker.to_string()))),
        };
        let new_sender_swap = match checked_sub(&sender_balance.swap_account_balance, &amount) {
            Ok(d) => d,
            Err(e) => return Err(e),
        };
        let new_receiver_swap = match checked_add(&receiver_balance.swap_account_balance, &amount) {
            Ok(d) => d,
            Err(e) => return Err(e),
        };
        let new_sender = BRC20ModuleTokenBalance {
            swap_account_balance: new_sender_swap,
            available_balance: sender_balance.available_balance,
            pending_withdrawal_amount: sender_balance.pending_withdrawal_amount,
        };
        let new_receiver = BRC20ModuleTokenBalance {
            swap_account_balance: new_receiver_swap,
            available_balance: receiver_balance.available_balance,
            pending_withdrawal_amount: receiver_balance.pending_withdrawal_amount,
        };
        context.update_brc20_module_address_token_balance(&sender, module_id, &ticker, new_sender);
        context.update_brc20_module_address_token_balance(&receiver, module_id, &ticker, new_receiver);
        Ok(())
    }

    /// Sends liquidity shares of a pool from the caller to another holder
    /// (see `send_lp_spec`).
    #[verifier::spinoff_prover]
    #[verifier::rlimit(40)]
    pub fn handle_send_lp(&self, chain: &Chain, module_id: &String, context: &mut SwapState) -> (r: Result<(), ExecutionError>)
        requires
            old(context).wf(),
        ensures
            final(context).wf(),
            outcome_is(send_lp_spec(old(context)@, *chain, module_id@, self@), final(context)@, r),
    {
        let params = match params_of(self) {
            Ok(p) => p,
            Err(e) => return Err(e),
        };
        let ghost p = params@.map_values(|s: String| s@);
        let receiver = match parse_owner(match param(params, 0) {
            Ok(t) => t,
            Err(e) => return Err(e),
        }, chain) {
            Ok(a) => a,
            Err(e) => return Err(e),
        };
        let ticker_0 = match parse_ticker(match param(params, 1) {
            Ok(t) => t,
            Err(e) => return Err(e),
        }) {
            Ok(t) => t,
            Err(e) => return Err(e),
        };
        let ticker_1 = match parse_ticker(match param(params, 2) {
            Ok(t) => t,
            Err(e) => return Err(e),
        }) {
            Ok(t) => t,
            Err(e) => return Err(e),
        };
        let pool_pair = BRC20ModulePoolPair::new(&ticker_0, &ticker_1);
        let amount = match parse_amount_scaled(match param(params, 3) {
            Ok(t) => t,
            Err(e) => return Err(e),
        }, 18) {
            Ok(d) => d,
            Err(e) => return Err(e),
        };
        let sender = match sender_of(self, chain) {
            Ok(a) => a,
            Err(e) => return Err(e),
        };
        let sender_key = BRC20ModuleAddressLPTokenBalanceKey::new(module_id, &sender, &pool_pair);
        let sender_lp = match context.load_brc20_module_address_lp_token_balance(&sender_key) {
            Some(b) => b,
            None => return Err(failed(BRC20Error::LPTokenBalanceNotExists(module_id.clone(), pool_pair.to_string()))),
        };
        if sender_lp.balance.lt(&amount) {
            return Err(failed(BRC20Error::InsufficientLPTokenBalance(sender_lp.balance, amount)));
        }
        let new_balance = match checked_sub(&sender_lp.balance, &amount) {
            Ok(d) => d,
            Err(e) => return Err(e),
        };
        context.update_brc20_module_address_lp_token_balance(
            &sender_key,
            BRC20ModuleLPTokenBalance { balance: new_balance, locked_balance: sender_lp.locked_balance },
        );
        let receiver_key = BRC20ModuleAddressLPTokenBalanceKey::new(module_id, &receiver, &pool_pair);
        let receiver_lp = match context.load_brc20_module_address_lp_token_balance(&receiver_key) {
            Some(b) => b,
            None => BRC20ModuleLPTokenBalance::new(
                Brc20Decimal::zero(amount.get_precision()),
                Brc20Decimal::zero(amount.get_precision()),
            ),
        };
        let new_receiver = match checked_add(&receiver_lp.balance, &amount) {
            Ok(d) => d,
            Err(e) => return Err(e),
        };
        context.update_brc20_module_address_lp_token_balance(
            &receiver_key,
            BRC20ModuleLPTokenBalance { balance: new_receiver, locked_balance: receiver_lp.locked_balance },
        );
        Ok(())
    }

    /// Locks liquidity shares of a pool (see `lock_spec`).
    pub fn handle_lock(&self, chain: &Chain, module_id: &String, context: &mut SwapState) -> (r: Result<(), ExecutionError>)
        requires
            old(context).wf(),
        ensures
            final(context).wf(),
            outcome_is(lock_spec(old(context)@, *chain, module_id@, self@), final(context)@, r),
    {
        let params = match params_of(self) {
            Ok(p) => p,
            Err(e) => return Err(e),
        };
        let ghost p = params@.map_values(|s: String| s@);
        let ticker_0 = match parse_ticker(match param(params, 0) {
            Ok(t) => t,
            Err(e) => return Err(e),
        }) {
            Ok(t) => t,
            Err(e) => return Err(e),
        };
        let ticker_1 = match parse_ticker(match param(params, 1) {
            Ok(t) => t,
            Err(e) => return Err(e),
        }) {
            Ok(t) => t,
            Err(e) => return Err(e),
        };
        let pool_pair = BRC20ModulePoolPair::new(&ticker_0, &ticker_1);
        let sender = match sender_of(self, chain) {
            Ok(a) => a,
            Err(e) => return Err(e),
        };
        let amount = match parse_amount_scaled(match param(params, 2) {
            Ok(t) => t,
            Err(e) => return Err(e),
        }, 18) {
            Ok(d) => d,
            Err(e) => return Err(e),
        };
        let lp_key = BRC20ModuleAddressLPTokenBalanceKey::new(module_id, &sender, &pool_pair);
        if context.load_brc20_module_swap_poolpair_balance(module_id, &pool_pair).is_none() {
            return Err(failed(BRC20Error::SwapPoolTotalBalanceNotExists(pool_pair.to_string())));
        }
        let lp = match context.load_brc20_module_address_lp_token_balance(&lp_key) {
            Some(b) => b,
            None => return Err(failed(BRC20Error::LPTokenBalanceNotExists(module_id.clone(), pool_pair.to_string()))),
        };
        if lp.balance.lt(&amount) {
            return Err(failed(BRC20Error::InsufficientLPTokenBalance(lp.balance, amount)));
        }
        let new_balance = match checked_sub(&lp.balance, &amount) {
            Ok(d) => d,
            Err(e) => return Err(e),
        };
        let new_locked = match checked_add(&lp.locked_balance, &amount) {
            Ok(d) => d,
            Err(e) => return Err(e),
        };
        context.update_brc20_module_address_lp_token_balance(
            &lp_key,
            BRC20ModuleLPTokenBalance { balance: new_balance, locked_balance: new_locked },
        );
        Ok(())
    }

    /// Unlocks locked liquidity shares of a pool (see `unlock_spec`).
    pub fn handle_unlock(&self, chain: &Chain, module_id: &String, context: &mut SwapState) -> (r: Result<(), ExecutionError>)
        requires
            old(context).wf(),
        ensures
            final(context).wf(),
            outcome_is(unlock_spec(old(context)@, *chain, module_id@, self@), final(context)@, r),
    {
        let params = match params_of(self) {
            Ok(p) => p,
            Err(e) => return Err(e),
        };
        let ghost p = params@.map_values(|s: String| s@);
        let ticker_0 = match parse_ticker(match param(params, 0) {
            Ok(t) => t,
            Err(e) => return Err(e),
        }) {
            Ok(t) => t,
            Err(e) => return Err(e),
        };
        let ticker_1 = match parse_ticker(match param(params, 1) {
            Ok(t) => t,
            Err(e) => return Err(e),
        }) {
            Ok(t) => t,
            Err(e) => return Err(e),
        };
        let pool_pair = BRC20ModulePoolPair::new(&ticker_0, &ticker_1);
        let sender = match sender_of(self, chain) {
            Ok(a) => a,
            Err(e) => return Err(e),
        };
        let amount = match parse_amount_scaled(match param(params, 2) {
            Ok(t) => t,
            Err(e) => return Err(e),
        }, 18) {
            Ok(d) => d,
            Err(e) => return Err(e),
        };
        let lp_key = BRC20ModuleAddressLPTokenBalanceKey::new(module_id, &sender, &pool_pair);
        if context.load_brc20_module_swap_poolpair_balance(module_id, &pool_pair).is_none() {
            return Err(failed(BRC20Error::SwapPoolTotalBalanceNotExists(pool_pair.to_string())));
        }
        let lp = match context.load_brc20_module_address_lp_token_balance(&lp_key) {
            Some(b) => b,
            None => return Err(failed(BRC20Error::LPTokenBalanceNotExists(module_id.clone(), pool_pair.to_string()))),
        };
        if lp.locked_balance.lt(&amount) {
            return Err(failed(BRC20Error::InsufficientLPTokenBalance(lp.locked_balance, amount)));
        }
        let new_balance = match checked_add(&lp.balance, &amount) {
            Ok(d) => d,
            Err(e) => return Err(e),
        };
        let new_locked = match checked_sub(&lp.locked_balance, &amount) {
            Ok(d) => d,
            Err(e) => return Err(e),
        };
        context.update_brc20_module_address_lp_token_balance(
            &lp_key,
            BRC20ModuleLPTokenBalance { balance: new_balance, locked_balance: new_locked },
        );
        Ok(())
    }

    /// Moves an amount of the caller's module balance from the swap account
    /// to the balance available for withdrawal (see `decrease_approval_spec`).
    pub fn handle_decrease_approval(&self, chain: &Chain, module_id: &String, context: &mut SwapState) -> (r: Result<(), ExecutionError>)
        requires
            old(context).wf(),
        ensures
            final(context).wf(),
            outcome_is(decrease_approval_spec(old(context)@, *chain, module_id@, self@), final(context)@, r),
    {
        let params = match params_of(self) {
            Ok(p) => p,
            Err(e) => return Err(e),
        };
        let ghost p = params@.map_values(|s: String| s@);
        let ticker = match expect_ticker(match param(params, 0) {
            Ok(t) => t,
            Err(e) => return Err(e),
        }) {
            Ok(t) => t,
            Err(e) => return Err(e),
        };
        let amt_str = match param(params, 1) {
            Ok(t) => t,
            Err(e) => return Err(e),
        };
        let sender = match sender_of(self, chain) {
            Ok(a) => a,
            Err(e) => return Err(e),
        };
        let info = match context.load_brc20_ticker_info(&ticker) {
            Some(i) => i,
            None => return Err(failed(BRC20Error::TickerNotFound(ticker.to_string()))),
        };
        if !info.ticker.same(&ticker) {
            return Err(failed(BRC20Error::TickerNotFound(ticker.to_string())));
        }
        let amount = match parse_amount_scaled(amt_str, info.decimals) {
            Ok(d) => d,
            Err(e) => return Err(e),
        };
        let amount_value = match checked_mantissa(&amount) {
            Ok(v) => v,
            Err(e) => return Err(e),
        };
        if amount_value > info.total_supply {
            return Err(failed(BRC20Error::InvalidTickerAmount(amount_value)));
        }
        let balance = match context.load_brc20_module_address_token_balance(&sender, module_id, &ticker) {
            Some(b) => b,
            None => return Err(failed(BRC20Error::ModuleBalanceNotExists(module_id.clone(), ticker.to_string()))),
        };
        if balance.swap_account_balance.lt(&amount) {
            return Err(failed(BRC20Error::InsufficientModuleBalance(balance.swap_account_balance, amount)));
        }
        let new_swap = match checked_sub(&balance.swap_account_balance, &amount) {
            Ok(d) => d,
            Err(e) => return Err(e),
        };
        let new_available = match checked_add(&balance.available_balance, &amount) {
            Ok(d) => d,
            Err(e) => return Err(e),
        };
        context.update_brc20_module_address_token_balance(
            &sender,
            module_id,
            &ticker,
            BRC20ModuleTokenBalance {
                swap_account_balance: new_swap,
                available_balance: new_available,
                pending_withdrawal_amount: balance.pending_withdrawal_amount,
            },
        );
        Ok(())
    }
}


/// Locking shares and then unlocking the same amount leaves the state as it
/// was (the locked shares being non-negative, as every recorded balance is).
pub proof fn lemma_lock_then_unlock(
    s: StateView,
    module_id: Seq<char>,
    sender: OwnerView,
    pair: Seq<u8>,
    amount: (int, int),
)
    requires
        s.lp_balances.contains_key((module_id, sender, pair)) ==> s.lp_balances[(module_id, sender, pair)].locked.0 >= 0,
        lock_apply(s, module_id, sender, pair, amount).1 is Ok,
    ensures
        unlock_apply(lock_apply(s, module_id, sender, pair, amount).0, module_id, sender, pair, amount) == done(s),
{
    let k = (module_id, sender, pair);
    let b = s.lp_balances[k];
    let s1 = lock_apply(s, module_id, sender, pair, amount).0;
    vstd::arithmetic::power::lemma_pow0(10);
    let nl = (b.locked.0 + amount.0, b.locked.1);
    assert(s1.lp_balances[k] == LpView { balance: (b.balance.0 - amount.0, b.balance.1), locked: nl });
    assert(b.locked.1 == amount.1);
    assert(common_scale(nl, amount) == amount.1);
    assert(nl.0 * pow(10, 0) == nl.0);
    assert(scaled_value(nl, common_scale(nl, amount)) == nl.0);
    assert(scaled_value(amount, common_scale(nl, amount)) == amount.0);
    assert(!dec_less(nl, amount));
    assert(s1.lp_balances.insert(k, b) =~= s.lp_balances);
    assert(StateView { lp_balances: s1.lp_balances.insert(k, b), ..s1 } == s);
}

/// Unlocking shares and then locking the same amount leaves the state as it
/// was (the free shares being non-negative).
pub proof fn lemma_unlock_then_lock(
    s: StateView,
    module_id: Seq<char>,
    sender: OwnerView,
    pair: Seq<u8>,
    amount: (int, int),
)
    requires
        s.lp_balances.contains_key((module_id, sender, pair)) ==> s.lp_balances[(module_id, sender, pair)].balance.0 >= 0,
        unlock_apply(s, module_id, sender, pair, amount).1 is Ok,
    ensures
        lock_apply(unlock_apply(s, module_id, sender, pair, amount).0, module_id, sender, pair, amount) == done(s),
{
    let k = (module_id, sender, pair);
    let b = s.lp_balances[k];
    let s1 = unlock_apply(s, module_id, sender, pair, amount).0;
    vstd::arithmetic::power::lemma_pow0(10);
    let nb = (b.balance.0 + amount.0, b.balance.1);
    assert(s1.lp_balances[k] == LpView { balance: nb, locked: (b.locked.0 - amount.0, b.locked.1) });
    assert(b.balance.1 == amount.1);
    assert(common_scale(nb, amount) == amount.1);
    assert(nb.0 * pow(10, 0) == nb.0);
    assert(scaled_value(nb, common_scale(nb, amount)) == nb.0);
    assert(scaled_value(amount, common_scale(nb, amount)) == amount.0);
    assert(!dec_less(nb, amount));
    assert(s1.lp_balances.insert(k, b) =~= s.lp_balances);
    assert(StateView { lp_balances: s1.lp_balances.insert(k, b), ..s1 } == s);
}

/// A send between two different accounts moves the amount from one swap
/// balance to the other: their sum is unchanged, and nothing else changes.
pub proof fn lemma_send_conserves(
    s: StateView,
    module_id: Seq<char>,
    sender: OwnerView,
    receiver: OwnerView,
    ticker: Seq<char>,
    amount: (int, int),
)
    requires
        sender != receiver,
        send_apply(s, module_id, sender, receiver, ticker, amount).1 is Ok,
    ensures
        ({
            let r = send_apply(s, module_id, sender, receiver, ticker, amount).0;
            let sk = (sender, module_id, tkey(ticker));
            let rk = (receiver, module_id, tkey(ticker));
            &&& r.module_balances[sk].swap.0 == s.module_balances[sk].swap.0 - amount.0
            &&& r.module_balances[rk].swap.0 == s.module_balances[rk].swap.0 + amount.0
            &&& r.module_balances[sk].swap.0 + r.module_balances[rk].swap.0
                == s.module_balances[sk].swap.0 + s.module_balances[rk].swap.0
            &&& r.module_balances.dom() == s.module_balances.dom()
            &&& forall|k| k != sk && k != rk && #[trigger] s.module_balances.contains_key(k)
                ==> r.module_balances[k] == s.module_balances[k]
            &&& r == StateView { module_balances: r.module_balances, ..s }
        }),
{
    let sk = (sender, module_id, tkey(ticker));
    let rk = (receiver, module_id, tkey(ticker));
    let r = send_apply(s, module_id, sender, receiver, ticker, amount).0;
    assert(r.module_balances.dom() =~= s.module_balances.dom());
}


/// A successful `send` call between two different accounts moves the amount
/// it names from the sender's swap balance, which stays non-negative, to the
/// receiver's; their sum is unchanged.
pub proof fn lemma_send_call(s: StateView, chain: Chain, module_id: Seq<char>, f: FunctionView)
    requires
        send_spec(s, chain, module_id, f).1 is Ok,
        owner_parse(f.params.unwrap()[0], chain)->Ok_0 != owner_parse(f.address.unwrap(), chain)->Ok_0,
    ensures
        ({
            let r = send_spec(s, chain, module_id, f).0;
            let p = f.params.unwrap();
            let amount = big_decimal_parse(p[2]).unwrap();
            let sk = (owner_parse(f.address.unwrap(), chain)->Ok_0, module_id, tkey(p[1]));
            let rk = (owner_parse(p[0], chain)->Ok_0, module_id, tkey(p[1]));
            &&& r.module_balances[sk].swap.0 == s.module_balances[sk].swap.0 - amount.0
            &&& r.module_balances[rk].swap.0 == s.module_balances[rk].swap.0 + amount.0
            &&& r.module_balances[sk].swap.0 >= 0
            &&& r == StateView { module_balances: r.module_balances, ..s }
        }),
{
    let p = f.params.unwrap();
    let sender = owner_parse(f.address.unwrap(), chain)->Ok_0;
    let receiver = owner_parse(p[0], chain)->Ok_0;
    let amount = big_decimal_parse(p[2]).unwrap();
    assert(send_spec(s, chain, module_id, f) == send_apply(s, module_id, sender, receiver, p[1], amount));
    lemma_send_conserves(s, module_id, sender, receiver, p[1], amount);
    let sk = (sender, module_id, tkey(p[1]));
    crate::pool::lemma_not_below_same_scale(s.module_balances[sk].swap, amount);
}

/// A successful `sendLp` call moves the shares it names from the sender to
/// another receiver (none counting as zero): their sum is unchanged and the
/// sender's shares stay non-negative; a send to oneself changes nothing.
pub proof fn lemma_send_lp_call(s: StateView, chain: Chain, module_id: Seq<char>, f: FunctionView)
    requires
        send_lp_spec(s, chain, module_id, f).1 is Ok,
    ensures
        ({
            let r = send_lp_spec(s, chain, module_id, f).0;
            let p = f.params.unwrap();
            let v = scaled_amount(p[3], 18).unwrap();
            let pair = pair_of(p[1], p[2]);
            let sk = (module_id, owner_parse(f.address.unwrap(), chain)->Ok_0, pair);
            let rk = (module_id, owner_parse(p[0], chain)->Ok_0, pair);
            let before = if s.lp_balances.contains_key(rk) { s.lp_balances[rk].balance.0 } else { 0 };
            &&& sk != rk ==> r.lp_balances[sk].balance.0 == s.lp_balances[sk].balance.0 - v
                && r.lp_balances[rk].balance.0 == before + v
            &&& sk == rk ==> r.lp_balances[sk] == s.lp_balances[sk]
            &&& sk != rk ==> r.lp_balances[sk].balance.0 >= 0
            &&& r == StateView { lp_balances: r.lp_balances, ..s }
        }),
{
    let p = f.params.unwrap();
    let sender = owner_parse(f.address.unwrap(), chain)->Ok_0;
    let receiver = owner_parse(p[0], chain)->Ok_0;
    let v = scaled_amount(p[3], 18).unwrap();
    let pair = pair_of(p[1], p[2]);
    assert(send_lp_spec(s, chain, module_id, f) == send_lp_apply(s, module_id, sender, receiver, pair, (v, 18)));
    lemma_send_lp_apply(s, module_id, sender, receiver, pair, (v, 18));
}

/// What a successful `send_lp_apply` moves (see `lemma_send_lp_call`).
#[verifier::spinoff_prover]
proof fn lemma_send_lp_apply(
    s: StateView,
    module_id: Seq<char>,
    sender: OwnerView,
    receiver: OwnerView,
    pair: Seq<u8>,
    amount: (int, int),
)
    requires
        send_lp_apply(s, module_id, sender, receiver, pair, amount).1 is Ok,
    ensures
        ({
            let r = send_lp_apply(s, module_id, sender, receiver, pair, amount).0;
            let sk = (module_id, sender, pair);
            let rk = (module_id, receiver, pair);
            let before = if s.lp_balances.contains_key(rk) { s.lp_balances[rk].balance.0 } else { 0 };
            &&& sk != rk ==> r.lp_balances[sk].balance.0 == s.lp_balances[sk].balance.0 - amount.0
                && r.lp_balances[rk].balance.0 == before + amount.0
            &&& sk == rk ==> r.lp_balances[sk] == s.lp_balances[sk]
            &&& sk != rk ==> r.lp_balances[sk].balance.0 >= 0
            &&& r == StateView { lp_balances: r.lp_balances, ..s }
        }),
{
    let sk = (module_id, sender, pair);
    crate::pool::lemma_not_below_same_scale(s.lp_balances[sk].balance, amount);
}

/// A successful `decreaseApproval` call moves the amount it names (at the
/// ticker's decimal places) from the sender's swap balance, which stays
/// non-negative, to its available balance; their sum and the pending
/// withdrawals are unchanged.
pub proof fn lemma_decrease_approval_call(s: StateView, chain: Chain, module_id: Seq<char>, f: FunctionView)
    requires
        decrease_approval_spec(s, chain, module_id, f).1 is Ok,
    ensures
        ({
            let r = decrease_approval_spec(s, chain, module_id, f).0;
            let p = f.params.unwrap();
            let k = (owner_parse(f.address.unwrap(), chain)->Ok_0, module_id, tkey(p[0]));
            let v = scaled_amount(p[1], s.ticker_infos[tkey(p[0])].decimals as nat).unwrap();
            &&& r.module_balances[k].swap.0 == s.module_balances[k].swap.0 - v
            &&& r.module_balances[k].available.0 == s.module_balances[k].available.0 + v
            &&& r.module_balances[k].pending == s.module_balances[k].pending
            &&& r.module_balances[k].swap.0 >= 0
            &&& r == StateView { module_balances: r.module_balances, ..s }
        }),
{
    let p = f.params.unwrap();
    let sender = owner_parse(f.address.unwrap(), chain)->Ok_0;
    assert(decrease_approval_spec(s, chain, module_id, f) == decrease_approval_apply(s, module_id, sender, p[0], p[1]));
    let k = (sender, module_id, tkey(p[0]));
    let info = s.ticker_infos[tkey(p[0])];
    let v = scaled_amount(p[1], info.decimals as nat).unwrap();
    crate::pool::lemma_not_below_same_scale(s.module_balances[k].swap, (v, info.decimals as int));
}

} // verus!
