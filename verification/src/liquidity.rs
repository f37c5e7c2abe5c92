//! Adding liquidity to a pool and removing it: the shares issued and burned,
//! and the protocol fee taken in shares when the pool has grown.

use vstd::prelude::*;
use vstd::utf8::encode_utf8;
use crate::account::pair_of;
use crate::address::{OwnerView, UtxoAddress, script_owner, script_from_hex, hex_decode};
use crate::amount::{
    add_at, sub_at, mul_at, div_at, sqrt_at, mantissa_u128, checked_add, checked_sub, checked_div, checked_sqrt,
    checked_mantissa, constant, isqrt,
};
use crate::chain::Chain;
use crate::decimal::{Brc20Decimal, dec_less, dec_same, big_decimal_parse};
use crate::entry::{
    BRC20ModuleTokenBalance, TokenBalanceView, BRC20ModulePoolPair, BRC20ModuleSwapPoolPairBalance, PoolView,
    BRC20ModuleAddressLPTokenBalanceKey, BRC20ModuleLPTokenBalance, LpView, empty_token_balance, pair_text,
    first_token_is,
};
use crate::error::{BRC20Error, ErrorView, ExecutionError, ExecView};
use crate::operation::{SwapFunctionData, FunctionView};
use crate::params::{
    Outcome, fail, halt, done, outcome_is, owner_parse, failed, unexpected, params_of, sender_of, parse_ticker,
    parse_amount, scaled_amount, parse_amount_scaled,
};
use crate::state::{SwapState, StateView, tkey};
use crate::ticker::{ticker_check, unicode_lowercase, BRC20Ticker};
use crate::bigint::{trunc_div, abs};

verus! {

/// The output script that holds the shares locked away by a pool's first
/// liquidity: `OP_RETURN` and a push of 32 zero bytes.
pub open spec fn zero_script() -> Seq<u8> {
    seq![0x6au8, 0x20u8] + Seq::new(32, |i: int| 0u8)
}

/// No shares, at 18 places.
pub open spec fn no_shares() -> LpView {
    LpView { balance: (0, 18), locked: (0, 18) }
}

/// The shares held under a key, or none.
pub open spec fn shares_or_none(s: StateView, k: (Seq<char>, OwnerView, Seq<u8>)) -> LpView {
    if s.lp_balances.contains_key(k) { s.lp_balances[k] } else { no_shares() }
}

/// The protocol fee in shares when liquidity changes:
/// `lp * (root_k - last_root_k) / (root_k * 5 + last_root_k)`, where `root_k`
/// is the square root of the product of the balances. `None` where the
/// arithmetic is not defined.
pub open spec fn lp_fee_amount(lp: (int, int), b0: (int, int), b1: (int, int), last: (int, int)) -> Option<(int, int)> {
    match sqrt_at(mul_at(b0, b1)) {
        None => None,
        Some(rk) => match sub_at(rk, last) {
            None => None,
            Some(d) => match add_at(mul_at(rk, (5, 0)), last) {
                None => None,
                Some(den) => div_at(mul_at(lp, d), den),
            },
        },
    }
}

/// The state and pool after the first stage of adding liquidity, and what is
/// to be added: whether this is the pool's first liquidity, the shares the
/// pool issues and those the provider receives, and the two amounts.
pub ghost struct LiqPlan {
    pub s: StateView,
    pub pool: PoolView,
    pub first: bool,
    pub lp_pool: (int, int),
    pub lp_user: (int, int),
    pub amt0: (int, int),
    pub amt1: (int, int),
}

/// The first stage of adding liquidity. Into an empty pool: the shares are
/// the square root of the product of the amounts (at least 1000 units at 18
/// places), of which 1000 units are locked away. Into a pool holding balances:
/// when the module has a fee and the pool's fee in shares is positive, it is
/// added to the pool's shares and credited to the provider (written at once);
/// then the larger amount is cut to the pool's ratio, and the shares are the
/// smaller of the two amounts' shares of the pool. `Err` holds the outcome
/// where it stops.
pub open spec fn add_liq_plan(
    s: StateView,
    module_id: Seq<char>,
    sender: OwnerView,
    pair: Seq<u8>,
    pool: PoolView,
    zero_first: bool,
    fee: (int, int),
    amt0: (int, int),
    amt1: (int, int),
) -> Result<LiqPlan, Outcome> {
    let b0 = if zero_first { pool.balance0 } else { pool.balance1 };
    let b1 = if zero_first { pool.balance1 } else { pool.balance0 };
    if dec_same(pool.balance0, (0, 0)) && dec_same(pool.balance1, (0, 0)) {
        match sqrt_at(mul_at(amt0, amt1)) {
            None => Err(halt(s)),
            Some(lp) => if dec_less(lp, (1000, 18)) {
                Err(fail(s, ErrorView::InvalidLpAmount(lp)))
            } else {
                match sub_at(lp, (1000, 18)) {
                    None => Err(halt(s)),
                    Some(u) => Ok(LiqPlan { s, pool, first: true, lp_pool: lp, lp_user: u, amt0, amt1 }),
                }
            },
        }
    } else {
        let fee_step: Result<(StateView, PoolView), Outcome> = if dec_less((0, 0), fee) {
            match lp_fee_amount(pool.lp, b0, b1, pool.root_k) {
                None => Err(halt(s)),
                Some(lf) => if dec_less((0, 0), lf) {
                    match add_at(pool.lp, lf) {
                        None => Err(halt(s)),
                        Some(nlp) => {
                            let k = (module_id, sender, pair);
                            let ub = shares_or_none(s, k);
                            match add_at(ub.balance, lf) {
                                None => Err(halt(s)),
                                Some(nb) => Ok((
                                    StateView { lp_balances: s.lp_balances.insert(k, LpView { balance: nb, ..ub }), ..s },
                                    PoolView { lp: nlp, ..pool },
                                )),
                            }
                        },
                    }
                } else {
                    Ok((s, pool))
                },
            }
        } else {
            Ok((s, pool))
        };
        match fee_step {
            Err(o) => Err(o),
            Ok((s1, pool1)) => match div_at(mul_at(b1, amt0), b0) {
                None => Err(halt(s1)),
                Some(adj1) => {
                    let adjusted: Option<((int, int), (int, int))> = if !dec_less(amt1, adj1) {
                        Some((amt0, adj1))
                    } else {
                        match div_at(mul_at(b0, amt1), b1) {
                            None => None,
                            Some(adj0) => Some((adj0, amt1)),
                        }
                    };
                    match adjusted {
                        None => Err(halt(s1)),
                        Some((a0, a1)) => match (div_at(mul_at(pool1.lp, a0), b0), div_at(mul_at(pool1.lp, a1), b1)) {
                            (Some(l0), Some(l1)) => {
                                let lp = if dec_less(l1, l0) { l1 } else { l0 };
                                Ok(LiqPlan { s: s1, pool: pool1, first: false, lp_pool: lp, lp_user: lp, amt0: a0, amt1: a1 })
                            },
                            _ => Err(halt(s1)),
                        },
                    }
                },
            },
        }
    }
}

/// The last stage of adding liquidity: the provider's shares must reach the
/// expected shares less the slippage (`expected * (1000 - slippage) / 1000`);
/// the provider's module balances (empty ones at no decimal places if absent)
/// must cover both amounts. Both balances go down (written first); then the
/// provider's shares go up, and for a first liquidity the locked-away holder
/// gets 1000 units; the pool takes both amounts and its shares, and records
/// the square root of the product of its new balances.
pub open spec fn add_liq_settle(
    plan: LiqPlan,
    chain: Chain,
    module_id: Seq<char>,
    sender: OwnerView,
    t0: Seq<char>,
    t1: Seq<char>,
    pair: Seq<u8>,
    zero_first: bool,
    expected: (int, int),
    slip: (int, int),
) -> Outcome {
    let s = plan.s;
    match sub_at((1000, 3), slip) {
        None => halt(s),
        Some(f) => match div_at(mul_at(expected, f), (1000, 3)) {
            None => halt(s),
            Some(th) => if dec_less(plan.lp_user, th) {
                fail(s, ErrorView::InsufficientLPTokenBalance(plan.lp_user, expected))
            } else {
                let k0 = (sender, module_id, tkey(t0));
                let k1 = (sender, module_id, tkey(t1));
                let b0 = if s.module_balances.contains_key(k0) { s.module_balances[k0] } else { empty_token_balance(0) };
                let b1 = if s.module_balances.contains_key(k1) { s.module_balances[k1] } else { empty_token_balance(0) };
                if dec_less(b0.swap, plan.amt0) {
                    fail(s, ErrorView::InsufficientModuleBalance(b0.swap, plan.amt0))
                } else if dec_less(b1.swap, plan.amt1) {
                    fail(s, ErrorView::InsufficientModuleBalance(b1.swap, plan.amt1))
                } else {
                    match (sub_at(b0.swap, plan.amt0), sub_at(b1.swap, plan.amt1)) {
                        (Some(n0), Some(n1)) => {
                            let s1 = StateView {
                                module_balances: s.module_balances
                                    .insert(k0, TokenBalanceView { swap: n0, ..b0 })
                                    .insert(k1, TokenBalanceView { swap: n1, ..b1 }),
                                ..s
                            };
                            let lk = (module_id, sender, pair);
                            let ul = shares_or_none(s1, lk);
                            match add_at(ul.balance, plan.lp_user) {
                                None => halt(s1),
                                Some(nu) => {
                                    let zk = (module_id, script_owner(zero_script(), chain), pair);
                                    let zl = shares_or_none(s1, zk);
                                    let s2: Option<StateView> = if plan.first {
                                        match add_at(zl.balance, (1000, 18)) {
                                            None => None,
                                            Some(nz) => Some(StateView {
                                                lp_balances: s1.lp_balances.insert(zk, LpView { balance: nz, ..zl }),
                                                ..s1
                                            }),
                                        }
                                    } else {
                                        Some(s1)
                                    };
                                    match s2 {
                                        None => halt(s1),
                                        Some(s2) => add_liq_finish(s2, module_id, pair, plan, zero_first, lk, LpView { balance: nu, ..ul }),
                                    }
                                },
                            }
                        },
                        _ => halt(s),
                    }
                }
            },
        },
    }
}

/// The pool's part of adding liquidity, then the writes of the provider's
/// shares and of the pool.
pub open spec fn add_liq_finish(
    s2: StateView,
    module_id: Seq<char>,
    pair: Seq<u8>,
    plan: LiqPlan,
    zero_first: bool,
    lk: (Seq<char>, OwnerView, Seq<u8>),
    user_shares: LpView,
) -> Outcome {
    let pool = plan.pool;
    let pb0 = if zero_first { pool.balance0 } else { pool.balance1 };
    let pb1 = if zero_first { pool.balance1 } else { pool.balance0 };
    match (add_at(pb0, plan.amt0), add_at(pb1, plan.amt1)) {
        (Some(n0), Some(n1)) => match add_at(pool.lp, plan.lp_pool) {
            None => halt(s2),
            Some(nlp) => match sqrt_at(mul_at(n0, n1)) {
                None => halt(s2),
                Some(rk) => {
                    let np = if zero_first {
                        PoolView { balance0: n0, balance1: n1, lp: nlp, root_k: rk, ..pool }
                    } else {
                        PoolView { balance0: n1, balance1: n0, lp: nlp, root_k: rk, ..pool }
                    };
                    done(StateView {
                        lp_balances: s2.lp_balances.insert(lk, user_shares),
                        pools: s2.pools.insert((module_id, pair), np),
                        ..s2
                    })
                },
            },
        },
        _ => halt(s2),
    }
}

/// What adding liquidity does once its parameters are read: both tickers must
/// be deployed under exactly these names, each amount's mantissa a `u128`
/// (else the rules halt) no larger than the mint limit; the pool and the
/// module must exist. Then `add_liq_plan` with the module's fee rate, and
/// `add_liq_settle`.
pub open spec fn add_liq_apply(
    s: StateView,
    chain: Chain,
    module_id: Seq<char>,
    sender: OwnerView,
    t0: Seq<char>,
    t1: Seq<char>,
    pair: Seq<u8>,
    zero_first: bool,
    amt0: (int, int),
    amt1: (int, int),
    expected: (int, int),
    slip: (int, int),
) -> Outcome {
    let k0 = tkey(t0);
    let k1 = tkey(t1);
    if !s.ticker_infos.contains_key(k0) || s.ticker_infos[k0].ticker != t0 {
        fail(s, ErrorView::TickerNotFound(t0))
    } else if mantissa_u128(amt0) is None {
        halt(s)
    } else if amt0.0 > s.ticker_infos[k0].max_mint_limit {
        fail(s, ErrorView::InvalidTickerAmount(amt0.0 as u128))
    } else if !s.ticker_infos.contains_key(k1) || s.ticker_infos[k1].ticker != t1 {
        fail(s, ErrorView::TickerNotFound(t1))
    } else if mantissa_u128(amt1) is None {
        halt(s)
    } else if amt1.0 > s.ticker_infos[k1].max_mint_limit {
        fail(s, ErrorView::InvalidTickerAmount(amt1.0 as u128))
    } else if !s.pools.contains_key((module_id, pair)) {
        fail(s, ErrorView::SwapPoolTotalBalanceNotExists(pair_text(pair)))
    } else if !s.module_infos.contains_key(module_id) {
        fail(s, ErrorView::ModuleNotExists(module_id))
    } else {
        let fee = s.module_infos[module_id].fee_rate_swap;
        match add_liq_plan(s, module_id, sender, pair, s.pools[(module_id, pair)], zero_first, fee, amt0, amt1) {
            Err(o) => o,
            Ok(plan) => add_liq_settle(plan, chain, module_id, sender, t0, t1, pair, zero_first, expected, slip),
        }
    }
}

/// What the `addLiq` function does: the sender is the call's address; its six
/// parameters are the two tickers, their amounts, the expected shares and the
/// slippage (all amounts of any scale). The pool's balances are matched to the
/// tickers by whether the pool pair starts with the first ticker.
#[verifier::opaque]
pub open spec fn add_liq_spec(s: StateView, chain: Chain, module_id: Seq<char>, f: FunctionView) -> Outcome {
    match f.address {
        None => halt(s),
        Some(a) => match owner_parse(a, chain) {
            Err(m) => fail(s, ErrorView::AddressParseError(m)),
            Ok(sender) => match f.params {
                None => halt(s),
                Some(p) => if p.len() != 6 {
                    fail(s, ErrorView::InvalidParamsLength(p.len() as usize, 6))
                } else {
                    match ticker_check(encode_utf8(p[0])) {
                        Err(e) => fail(s, ErrorView::TickerParse(e)),
                        Ok(_) => match ticker_check(encode_utf8(p[1])) {
                            Err(e) => fail(s, ErrorView::TickerParse(e)),
                            Ok(_) => match big_decimal_parse(p[2]) {
                                None => fail(s, ErrorView::DecimalParseError(p[2])),
                                Some(a0) => match big_decimal_parse(p[3]) {
                                    None => fail(s, ErrorView::DecimalParseError(p[3])),
                                    Some(a1) => match big_decimal_parse(p[4]) {
                                        None => fail(s, ErrorView::DecimalParseError(p[4])),
                                        Some(expected) => match big_decimal_parse(p[5]) {
                                            None => fail(s, ErrorView::DecimalParseError(p[5])),
                                            Some(slip) => {
                                                let pair = pair_of(p[0], p[1]);
                                                let zero_first = first_token_is(pair, encode_utf8(unicode_lowercase(p[0])));
                                                add_liq_apply(s, chain, module_id, sender, p[0], p[1], pair, zero_first, a0, a1, expected, slip)
                                            },
                                        },
                                    },
                                },
                            },
                        },
                    }
                },
            },
        },
    }
}

/// The owner of the locked-away shares.
fn zero_owner(chain: &Chain) -> (r: UtxoAddress)
    ensures
        r@ == script_owner(zero_script(), *chain),
{
    let mut script: Vec<u8> = Vec::new();
    script.push(0x6a);
    script.push(0x20);
    let mut i: usize = 0;
    while i < 32
        invariant
            i <= 32,
            script@ == seq![0x6au8, 0x20u8] + Seq::new(i as nat, |j: int| 0u8),
        decreases 32 - i,
    {
        script.push(0);
        i = i + 1;
        assert(script@ =~= seq![0x6au8, 0x20u8] + Seq::new(i as nat, |j: int| 0u8));
    }
    UtxoAddress::from_script(script.as_slice(), chain)
}

/// The shares stored under a key, or none at 18 places.
fn load_shares(context: &SwapState, k: &BRC20ModuleAddressLPTokenBalanceKey) -> (r: BRC20ModuleLPTokenBalance)
    requires
        context.wf(),
    ensures
        r@ == shares_or_none(context@, k@),
{
    match context.load_brc20_module_address_lp_token_balance(k) {
        Some(b) => b,
        None => BRC20ModuleLPTokenBalance::new_with_default(),
    }
}

/// The pool's balance of the first ticker and of the second.
fn ordered_balances(pool: &BRC20ModuleSwapPoolPairBalance, zero_first: bool) -> (r: (Brc20Decimal, Brc20Decimal))
    ensures
        r.0@ == (if zero_first { pool@.balance0 } else { pool@.balance1 }),
        r.1@ == (if zero_first { pool@.balance1 } else { pool@.balance0 }),
{
    if zero_first {
        (pool.tick_balance[0].copy(), pool.tick_balance[1].copy())
    } else {
        (pool.tick_balance[1].copy(), pool.tick_balance[0].copy())
    }
}

/// The first stage of adding liquidity (see `add_liq_plan`): the new pool, then
/// whether this is the first liquidity, the shares issued by the pool and to
/// the provider, and the amounts.
fn add_liq_plan_exec(
    context: &mut SwapState,
    module_id: &String,
    sender: &UtxoAddress,
    pair: &BRC20ModulePoolPair,
    pool: BRC20ModuleSwapPoolPairBalance,
    zero_first: bool,
    fee: &Brc20Decimal,
    amt0: Brc20Decimal,
    amt1: Brc20Decimal,
) -> (r: Result<(BRC20ModuleSwapPoolPairBalance, bool, Brc20Decimal, Brc20Decimal, Brc20Decimal, Brc20Decimal), ExecutionError>)
    requires
        old(context).wf(),
    ensures
        final(context).wf(),
        match add_liq_plan(old(context)@, module_id@, sender@, pair@, pool@, zero_first, fee@, amt0@, amt1@) {
            Err(o) => outcome_is(o, final(context)@, match r { Ok(_) => Ok(()), Err(e) => Err(e) }),
            Ok(plan) => final(context)@ == plan.s && (r matches Ok(v) && v.0@ == plan.pool && v.1 == plan.first
                && v.2@ == plan.lp_pool && v.3@ == plan.lp_user && v.4@ == plan.amt0 && v.5@ == plan.amt1),
        },
{
    let zero = constant(0, 0);
    let (b0, b1) = ordered_balances(&pool, zero_first);
    if pool.tick_balance[0].num_eq(&zero) && pool.tick_balance[1].num_eq(&zero) {
        let lp = match checked_sqrt(&amt0.mul_mantissa(&amt1)) {
            Ok(d) => d,
            Err(e) => return Err(e),
        };
        let locked = constant(1000, 18);
        if lp.lt(&locked) {
            return Err(failed(BRC20Error::InvalidLpAmount(lp)));
        }
        let user = match checked_sub(&lp, &locked) {
            Ok(d) => d,
            Err(e) => return Err(e),
        };
        return Ok((pool, true, lp, user, amt0, amt1));
    }
    let mut pool = pool;
    if zero.lt(fee) {
        let lp_fee = match lp_fee_exec(&pool.lp_balance, &b0, &b1, &pool.last_root_k) {
            Ok(d) => d,
            Err(e) => return Err(e),
        };
        if zero.lt(&lp_fee) {
            let new_lp = match checked_add(&pool.lp_balance, &lp_fee) {
                Ok(d) => d,
                Err(e) => return Err(e),
            };
            let k = BRC20ModuleAddressLPTokenBalanceKey::new(module_id, sender, pair);
            let ub = load_shares(context, &k);
            let nb = match checked_add(&ub.balance, &lp_fee) {
                Ok(d) => d,
                Err(e) => return Err(e),
            };
            context.update_brc20_module_address_lp_token_balance(
                &k,
                BRC20ModuleLPTokenBalance { balance: nb, locked_balance: ub.locked_balance },
            );
            pool = BRC20ModuleSwapPoolPairBalance {
                tick: pool.tick,
                tick_balance: pool.tick_balance,
                lp_balance: new_lp,
                last_root_k: pool.last_root_k,
            };
        }
    }
    let adj1 = match checked_div(&b1.mul_mantissa(&amt0), &b0) {
        Ok(d) => d,
        Err(e) => return Err(e),
    };
    let (a0, a1) = if !amt1.lt(&adj1) {
        (amt0, adj1)
    } else {
        let adj0 = match checked_div(&b0.mul_mantissa(&amt1), &b1) {
            Ok(d) => d,
            Err(e) => return Err(e),
        };
        (adj0, amt1)
    };
    let l0 = match checked_div(&pool.lp_balance.mul_mantissa(&a0), &b0) {
        Ok(d) => d,
        Err(e) => return Err(e),
    };
    let l1 = match checked_div(&pool.lp_balance.mul_mantissa(&a1), &b1) {
        Ok(d) => d,
        Err(e) => return Err(e),
    };
    let lp = if l1.lt(&l0) { l1 } else { l0 };
    let user = lp.copy();
    Ok((pool, false, lp, user, a0, a1))
}

/// The protocol fee in shares (see `lp_fee_amount`).
fn lp_fee_exec(lp: &Brc20Decimal, b0: &Brc20Decimal, b1: &Brc20Decimal, last: &Brc20Decimal) -> (r: Result<Brc20Decimal, ExecutionError>)
    ensures
        match lp_fee_amount(lp@, b0@, b1@, last@) {
            Some(v) => r matches Ok(d) && d@ == v,
            None => r matches Err(e) && e@ == ExecView::Unexpected,
        },
{
    let rk = match checked_sqrt(&b0.mul_mantissa(b1)) {
        Ok(d) => d,
        Err(e) => return Err(e),
    };
    let d = match checked_sub(&rk, last) {
        Ok(d) => d,
        Err(e) => return Err(e),
    };
    let den = match checked_add(&rk.mul_mantissa(&constant(5, 0)), last) {
        Ok(d) => d,
        Err(e) => return Err(e),
    };
    checked_div(&lp.mul_mantissa(&d), &den)
}

/// The last stage of adding liquidity (see `add_liq_settle`).
#[verifier::rlimit(50)]
fn add_liq_settle_exec(
    context: &mut SwapState,
    chain: &Chain,
    module_id: &String,
    sender: &UtxoAddress,
    t0: &BRC20Ticker,
    t1: &BRC20Ticker,
    pair: &BRC20ModulePoolPair,
    zero_first: bool,
    planned: (BRC20ModuleSwapPoolPairBalance, bool, Brc20Decimal, Brc20Decimal, Brc20Decimal, Brc20Decimal),
    expected: &Brc20Decimal,
    slip: &Brc20Decimal,
) -> (r: Result<(), ExecutionError>)
    requires
        old(context).wf(),
    ensures
        final(context).wf(),
        outcome_is(
            add_liq_settle(
                LiqPlan {
                    s: old(context)@,
                    pool: planned.0@,
                    first: planned.1,
                    lp_pool: planned.2@,
                    lp_user: planned.3@,
                    amt0: planned.4@,
                    amt1: planned.5@,
                },
                *chain, module_id@, sender@, t0@, t1@, pair@, zero_first, expected@, slip@),
            final(context)@,
            r,
        ),
{
    let (pool, first, lp_pool, lp_user, amt0, amt1) = planned;
    let thousand = constant(1000, 3);
    let f = match checked_sub(&thousand, slip) {
        Ok(d) => d,
        Err(e) => return Err(e),
    };
    let th = match checked_div(&expected.mul_mantissa(&f), &thousand) {
        Ok(d) => d,
        Err(e) => return Err(e),
    };
    if lp_user.lt(&th) {
        return Err(failed(BRC20Error::InsufficientLPTokenBalance(lp_user, expected.copy())));
    }
    let b0 = match context.load_brc20_module_address_token_balance(sender, module_id, t0) {
        Some(b) => b,
        None => BRC20ModuleTokenBalance::new(),
    };
    let b1 = match context.load_brc20_module_address_token_balance(sender, module_id, t1) {
        Some(b) => b,
        None => BRC20ModuleTokenBalance::new(),
    };
    if b0.swap_account_balance.lt(&amt0) {
        return Err(failed(BRC20Error::InsufficientModuleBalance(b0.swap_account_balance, amt0)));
    }
    if b1.swap_account_balance.lt(&amt1) {
        return Err(failed(BRC20Error::InsufficientModuleBalance(b1.swap_account_balance, amt1)));
    }
    let n0 = match checked_sub(&b0.swap_account_balance, &amt0) {
        Ok(d) => d,
        Err(e) => return Err(e),
    };
    let n1 = match checked_sub(&b1.swap_account_balance, &amt1) {
        Ok(d) => d,
        Err(e) => return Err(e),
    };
    context.update_brc20_module_address_token_balance(
        sender,
        module_id,
        t0,
        BRC20ModuleTokenBalance {
            swap_account_balance: n0,
            available_balance: b0.available_balance,
            pending_withdrawal_amount: b0.pending_withdrawal_amount,
        },
    );
    context.update_brc20_module_address_token_balance(
        sender,
        module_id,
        t1,
        BRC20ModuleTokenBalance {
            swap_account_balance: n1,
            available_balance: b1.available_balance,
            pending_withdrawal_amount: b1.pending_withdrawal_amount,
        },
    );
    let lk = BRC20ModuleAddressLPTokenBalanceKey::new(module_id, sender, pair);
    let ul = load_shares(context, &lk);
    let nu = match checked_add(&ul.balance, &lp_user) {
        Ok(d) => d,
        Err(e) => return Err(e),
    };
    if first {
        let zk = BRC20ModuleAddressLPTokenBalanceKey::new(module_id, &zero_owner(chain), pair);
        let zl = load_shares(context, &zk);
        let nz = match checked_add(&zl.balance, &constant(1000, 18)) {
            Ok(d) => d,
            Err(e) => return Err(e),
        };
        context.update_brc20_module_address_lp_token_balance(
            &zk,
            BRC20ModuleLPTokenBalance { balance: nz, locked_balance: zl.locked_balance },
        );
    }
    let (pb0, pb1) = ordered_balances(&pool, zero_first);
    let np0 = match checked_add(&pb0, &amt0) {
        Ok(d) => d,
        Err(e) => return Err(e),
    };
    let np1 = match checked_add(&pb1, &amt1) {
        Ok(d) => d,
        Err(e) => return Err(e),
    };
    let nlp = match checked_add(&pool.lp_balance, &lp_pool) {
        Ok(d) => d,
        Err(e) => return Err(e),
    };
    let rk = match checked_sqrt(&np0.mul_mantissa(&np1)) {
        Ok(d) => d,
        Err(e) => return Err(e),
    };
    let new_pool = BRC20ModuleSwapPoolPairBalance {
        tick: pool.tick,
        tick_balance: if zero_first { [np0, np1] } else { [np1, np0] },
        lp_balance: nlp,
        last_root_k: rk,
    };
    context.update_brc20_module_address_lp_token_balance(
        &lk,
        BRC20ModuleLPTokenBalance { balance: nu, locked_balance: ul.locked_balance },
    );
    context.update_brc20_module_swap_poolpair_balance(module_id, pair, new_pool);
    Ok(())
}

/// Adding liquidity once its parameters are read (see `add_liq_apply`).
fn add_liq_apply_exec(
    context: &mut SwapState,
    chain: &Chain,
    module_id: &String,
    sender: &UtxoAddress,
    t0: &BRC20Ticker,
    t1: &BRC20Ticker,
    pair: &BRC20ModulePoolPair,
    zero_first: bool,
    amt0: Brc20Decimal,
    amt1: Brc20Decimal,
    expected: &Brc20Decimal,
    slip: &Brc20Decimal,
) -> (r: Result<(), ExecutionError>)
    requires
        old(context).wf(),
        pair@.len() > 0,
        vstd::utf8::valid_utf8(pair@.drop_first()),
    ensures
        final(context).wf(),
        outcome_is(
            add_liq_apply(old(context)@, *chain, module_id@, sender@, t0@, t1@, pair@, zero_first, amt0@, amt1@,
                expected@, slip@),
            final(context)@,
            r,
        ),
{
    let info0 = match context.load_brc20_ticker_info(t0) {
        Some(i) => i,
        None => return Err(failed(BRC20Error::TickerNotFound(t0.to_string()))),
    };
    if !info0.ticker.same(t0) {
        return Err(failed(BRC20Error::TickerNotFound(t0.to_string())));
    }
    let v0 = match checked_mantissa(&amt0) {
        Ok(v) => v,
        Err(e) => return Err(e),
    };
    if v0 > info0.max_mint_limit {
        return Err(failed(BRC20Error::InvalidTickerAmount(v0)));
    }
    let info1 = match context.load_brc20_ticker_info(t1) {
        Some(i) => i,
        None => return Err(failed(BRC20Error::TickerNotFound(t1.to_string()))),
    };
    if !info1.ticker.same(t1) {
        return Err(failed(BRC20Error::TickerNotFound(t1.to_string())));
    }
    let v1 = match checked_mantissa(&amt1) {
        Ok(v) => v,
        Err(e) => return Err(e),
    };
    if v1 > info1.max_mint_limit {
        return Err(failed(BRC20Error::InvalidTickerAmount(v1)));
    }
    let pool = match context.load_brc20_module_swap_poolpair_balance(module_id, pair) {
        Some(p) => p,
        None => return Err(failed(BRC20Error::SwapPoolTotalBalanceNotExists(pair.to_string()))),
    };
    let module_info = match context.load_brc20_module_info(module_id) {
        Some(m) => m,
        None => return Err(failed(BRC20Error::ModuleNotExists(module_id.clone()))),
    };
    let planned = match add_liq_plan_exec(context, module_id, sender, pair, pool, zero_first, &module_info.fee_rate_swap, amt0, amt1) {
        Ok(v) => v,
        Err(e) => return Err(e),
    };
    add_liq_settle_exec(context, chain, module_id, sender, t0, t1, pair, zero_first, planned, expected, slip)
}

impl SwapFunctionData {
    /// Adds liquidity to a module's pool (see `add_liq_spec`).
    pub fn handle_add_liq(&self, chain: &Chain, module_id: &String, context: &mut SwapState) -> (r: Result<(), ExecutionError>)
        requires
            old(context).wf(),
        ensures
            final(context).wf(),
            outcome_is(add_liq_spec(old(context)@, *chain, module_id@, self@), final(context)@, r),
    {
        proof { reveal(add_liq_spec); }
        let sender = match sender_of(self, chain) {
            Ok(a) => a,
            Err(e) => return Err(e),
        };
        let params = match params_of(self) {
            Ok(p) => p,
            Err(e) => return Err(e),
        };
        let ghost p = params@.map_values(|s: String| s@);
        if params.len() != 6 {
            return Err(failed(BRC20Error::InvalidParamsLength(params.len(), 6)));
        }
        assert(p[0] == params@[0]@ && p[1] == params@[1]@ && p[2] == params@[2]@);
        assert(p[3] == params@[3]@ && p[4] == params@[4]@ && p[5] == params@[5]@);
        let ticker_0 = match parse_ticker(&params[0]) {
            Ok(t) => t,
            Err(e) => return Err(e),
        };
        let ticker_1 = match parse_ticker(&params[1]) {
            Ok(t) => t,
            Err(e) => return Err(e),
        };
        let pool_pair = BRC20ModulePoolPair::new(&ticker_0, &ticker_1);
        let amt0 = match parse_amount(&params[2]) {
            Ok(d) => d,
            Err(e) => return Err(e),
        };
        let amt1 = match parse_amount(&params[3]) {
            Ok(d) => d,
            Err(e) => return Err(e),
        };
        let expected = match parse_amount(&params[4]) {
            Ok(d) => d,
            Err(e) => return Err(e),
        };
        let slip = match parse_amount(&params[5]) {
            Ok(d) => d,
            Err(e) => return Err(e),
        };
        let zero_first = pool_pair.starts_with(&ticker_0);
        add_liq_apply_exec(context, chain, module_id, &sender, &ticker_0, &ticker_1, &pool_pair, zero_first, amt0, amt1, &expected, &slip)
    }
}

/// The last stage of removing liquidity: the amounts out are the pool's
/// balances times the shares removed over the pool's shares; each must reach
/// the expected amount less its slippage fraction (`amt - amt * slippage`).
/// The pool must hold the shares and the amounts, and the provider's shares
/// must cover the shares removed; they go down (written first), then the
/// provider's module balances (empty ones at the tickers' decimal places if
/// absent) take the amounts, and the pool gives them and its shares and
/// records the square root of the product of its new balances.
pub open spec fn remove_liq_settle(
    s: StateView,
    pool: PoolView,
    module_id: Seq<char>,
    sender: OwnerView,
    t0: Seq<char>,
    t1: Seq<char>,
    pair: Seq<u8>,
    zero_first: bool,
    lp_amt: (int, int),
    amt0: (int, int),
    amt1: (int, int),
    slip: (int, int),
) -> Outcome {
    let p0 = if zero_first { pool.balance0 } else { pool.balance1 };
    let p1 = if zero_first { pool.balance1 } else { pool.balance0 };
    match (div_at(mul_at(p0, lp_amt), pool.lp), sub_at(amt0, mul_at(amt0, slip))) {
        (Some(out0), Some(min0)) => if dec_less(out0, min0) {
            fail(s, ErrorView::OverSlippage)
        } else {
            match (div_at(mul_at(p1, lp_amt), pool.lp), sub_at(amt1, mul_at(amt1, slip))) {
                (Some(out1), Some(min1)) => if dec_less(out1, min1) {
                    fail(s, ErrorView::OverSlippage)
                } else if dec_less(pool.lp, lp_amt) {
                    fail(s, ErrorView::InsufficientLPTokenBalance(pool.lp, lp_amt))
                } else if dec_less(p0, out0) {
                    fail(s, ErrorView::InsufficientPoolBalance(p0, out0))
                } else if dec_less(p1, out1) {
                    fail(s, ErrorView::InsufficientPoolBalance(p1, out1))
                } else {
                    let lk = (module_id, sender, pair);
                    let ul = shares_or_none(s, lk);
                    if dec_less(ul.balance, lp_amt) {
                        fail(s, ErrorView::InsufficientLPTokenBalance(ul.balance, lp_amt))
                    } else {
                        match sub_at(ul.balance, lp_amt) {
                            None => halt(s),
                            Some(nu) => {
                                let s1 = StateView { lp_balances: s.lp_balances.insert(lk, LpView { balance: nu, ..ul }), ..s };
                                let k0 = (sender, module_id, tkey(t0));
                                let k1 = (sender, module_id, tkey(t1));
                                let b0 = if s1.module_balances.contains_key(k0) { s1.module_balances[k0] } else { empty_token_balance(amt0.1) };
                                let b1 = if s1.module_balances.contains_key(k1) { s1.module_balances[k1] } else { empty_token_balance(amt1.1) };
                                match (add_at(b0.swap, out0), add_at(b1.swap, out1)) {
                                    (Some(n0), Some(n1)) => match (sub_at(pool.lp, lp_amt), sub_at(p0, out0), sub_at(p1, out1)) {
                                        (Some(nlp), Some(np0), Some(np1)) => match sqrt_at(mul_at(np0, np1)) {
                                            None => halt(s1),
                                            Some(rk) => {
                                                let np = if zero_first {
                                                    PoolView { balance0: np0, balance1: np1, lp: nlp, root_k: rk, ..pool }
                                                } else {
                                                    PoolView { balance0: np1, balance1: np0, lp: nlp, root_k: rk, ..pool }
                                                };
                                                done(StateView {
                                                    module_balances: s1.module_balances
                                                        .insert(k0, TokenBalanceView { swap: n0, ..b0 })
                                                        .insert(k1, TokenBalanceView { swap: n1, ..b1 }),
                                                    pools: s1.pools.insert((module_id, pair), np),
                                                    ..s1
                                                })
                                            },
                                        },
                                        _ => halt(s1),
                                    },
                                    _ => halt(s1),
                                }
                            },
                        }
                    }
                },
                _ => halt(s),
            }
        },
        _ => halt(s),
    }
}

/// What removing liquidity does once its parameters are read: both tickers
/// must be deployed under exactly these names, each expected amount read at
/// its ticker's decimal places with a `u128` mantissa (else the rules halt) no
/// larger than the total supply; the pool and the module must exist. With a
/// positive fee rate, a positive fee in shares is added to the pool's shares
/// and credited (written at once) to the holder of the module's fee script;
/// then `remove_liq_settle`.
pub open spec fn remove_liq_apply(
    s: StateView,
    chain: Chain,
    module_id: Seq<char>,
    sender: OwnerView,
    t0: Seq<char>,
    t1: Seq<char>,
    pair: Seq<u8>,
    lp_amt: (int, int),
    a0_str: Seq<char>,
    a1_str: Seq<char>,
    slip: (int, int),
    fee: (int, int),
) -> Outcome {
    let k0 = tkey(t0);
    let k1 = tkey(t1);
    if !s.ticker_infos.contains_key(k0) || s.ticker_infos[k0].ticker != t0 {
        fail(s, ErrorView::TickerNotFound(t0))
    } else {
        let d0 = s.ticker_infos[k0].decimals as int;
        match scaled_amount(a0_str, d0 as nat) {
            None => fail(s, ErrorView::DecimalParseError(a0_str)),
            Some(v0) => if mantissa_u128((v0, d0)) is None {
                halt(s)
            } else if v0 > s.ticker_infos[k0].total_supply {
                fail(s, ErrorView::InvalidTickerAmount(v0 as u128))
            } else if !s.ticker_infos.contains_key(k1) || s.ticker_infos[k1].ticker != t1 {
                fail(s, ErrorView::TickerNotFound(t1))
            } else {
                let d1 = s.ticker_infos[k1].decimals as int;
                match scaled_amount(a1_str, d1 as nat) {
                    None => fail(s, ErrorView::DecimalParseError(a1_str)),
                    Some(v1) => if mantissa_u128((v1, d1)) is None {
                        halt(s)
                    } else if v1 > s.ticker_infos[k1].total_supply {
                        fail(s, ErrorView::InvalidTickerAmount(v1 as u128))
                    } else if !s.pools.contains_key((module_id, pair)) {
                        fail(s, ErrorView::SwapPoolTotalBalanceNotExists(pair_text(pair)))
                    } else if !s.module_infos.contains_key(module_id) {
                        fail(s, ErrorView::ModuleNotExists(module_id))
                    } else {
                        let pool = s.pools[(module_id, pair)];
                        let zero_first = pool.tick0 == t0;
                        let b0 = if zero_first { pool.balance0 } else { pool.balance1 };
                        let b1 = if zero_first { pool.balance1 } else { pool.balance0 };
                        let fee_step: Result<(StateView, PoolView), Outcome> = if fee.0 > 0 {
                            match lp_fee_amount(pool.lp, b0, b1, pool.root_k) {
                                None => Err(halt(s)),
                                Some(lf) => if lf.0 > 0 {
                                    match add_at(pool.lp, lf) {
                                        None => Err(halt(s)),
                                        Some(nlp) => match hex_decode(encode_utf8(s.module_infos[module_id].lp_fee_pk_script)) {
                                            None => Err(halt(s)),
                                            Some(script) => {
                                                let k = (module_id, script_owner(script, chain), pair);
                                                let fb = shares_or_none(s, k);
                                                match add_at(fb.balance, lf) {
                                                    None => Err(halt(s)),
                                                    Some(nb) => Ok((
                                                        StateView { lp_balances: s.lp_balances.insert(k, LpView { balance: nb, ..fb }), ..s },
                                                        PoolView { lp: nlp, ..pool },
                                                    )),
                                                }
                                            },
                                        },
                                    }
                                } else {
                                    Ok((s, pool))
                                },
                            }
                        } else {
                            Ok((s, pool))
                        };
                        match fee_step {
                            Err(o) => o,
                            Ok((s1, pool1)) => remove_liq_settle(
                                s1, pool1, module_id, sender, t0, t1, pair, zero_first, lp_amt, (v0, d0), (v1, d1), slip),
                        }
                    }
                }
            },
        }
    }
}

/// What the `removeLiq` function does: the sender is the call's address; its
/// six parameters are the two tickers, the shares to remove (18 places), the
/// two expected amounts and the slippage (3 places).
#[verifier::opaque]
pub open spec fn remove_liq_spec(s: StateView, chain: Chain, module_id: Seq<char>, f: FunctionView, fee: (int, int)) -> Outcome {
    match f.address {
        None => halt(s),
        Some(a) => match owner_parse(a, chain) {
            Err(m) => fail(s, ErrorView::AddressParseError(m)),
            Ok(sender) => match f.params {
                None => halt(s),
                Some(p) => if p.len() != 6 {
                    fail(s, ErrorView::InvalidParamsLength(p.len() as usize, 6))
                } else {
                    match ticker_check(encode_utf8(p[0])) {
                        Err(e) => fail(s, ErrorView::TickerParse(e)),
                        Ok(_) => match ticker_check(encode_utf8(p[1])) {
                            Err(e) => fail(s, ErrorView::TickerParse(e)),
                            Ok(_) => match scaled_amount(p[2], 18) {
                                None => fail(s, ErrorView::DecimalParseError(p[2])),
                                Some(lv) => match scaled_amount(p[5], 3) {
                                    None => fail(s, ErrorView::DecimalParseError(p[5])),
                                    Some(sv) => remove_liq_apply(
                                        s, chain, module_id, sender, p[0], p[1], pair_of(p[0], p[1]), (lv, 18), p[3], p[4],
                                        (sv, 3), fee),
                                },
                            },
                        },
                    }
                },
            },
        },
    }
}

/// The last stage of removing liquidity (see `remove_liq_settle`).
#[verifier::rlimit(50)]
fn remove_liq_settle_exec(
    context: &mut SwapState,
    pool: BRC20ModuleSwapPoolPairBalance,
    module_id: &String,
    sender: &UtxoAddress,
    t0: &BRC20Ticker,
    t1: &BRC20Ticker,
    pair: &BRC20ModulePoolPair,
    zero_first: bool,
    lp_amt: &Brc20Decimal,
    amt0: &Brc20Decimal,
    amt1: &Brc20Decimal,
    slip: &Brc20Decimal,
) -> (r: Result<(), ExecutionError>)
    requires
        old(context).wf(),
        0 <= amt0@.1 <= 18,
        0 <= amt1@.1 <= 18,
    ensures
        final(context).wf(),
        outcome_is(
            remove_liq_settle(old(context)@, pool@, module_id@, sender@, t0@, t1@, pair@, zero_first, lp_amt@, amt0@,
                amt1@, slip@),
            final(context)@,
            r,
        ),
{
    let (p0, p1) = ordered_balances(&pool, zero_first);
    let out0 = match checked_div(&p0.mul_mantissa(lp_amt), &pool.lp_balance) {
        Ok(d) => d,
        Err(e) => return Err(e),
    };
    let min0 = match checked_sub(amt0, &amt0.mul_mantissa(slip)) {
        Ok(d) => d,
        Err(e) => return Err(e),
    };
    if out0.lt(&min0) {
        return Err(failed(BRC20Error::OverSlippage));
    }
    let out1 = match checked_div(&p1.mul_mantissa(lp_amt), &pool.lp_balance) {
        Ok(d) => d,
        Err(e) => return Err(e),
    };
    let min1 = match checked_sub(amt1, &amt1.mul_mantissa(slip)) {
        Ok(d) => d,
        Err(e) => return Err(e),
    };
    if out1.lt(&min1) {
        return Err(failed(BRC20Error::OverSlippage));
    }
    if pool.lp_balance.lt(lp_amt) {
        return Err(failed(BRC20Error::InsufficientLPTokenBalance(pool.lp_balance, lp_amt.copy())));
    }
    if p0.lt(&out0) {
        return Err(failed(BRC20Error::InsufficientPoolBalance(p0, out0)));
    }
    if p1.lt(&out1) {
        return Err(failed(BRC20Error::InsufficientPoolBalance(p1, out1)));
    }
    let lk = BRC20ModuleAddressLPTokenBalanceKey::new(module_id, sender, pair);
    let ul = load_shares(context, &lk);
    if ul.balance.lt(lp_amt) {
        return Err(failed(BRC20Error::InsufficientLPTokenBalance(ul.balance, lp_amt.copy())));
    }
    let nu = match checked_sub(&ul.balance, lp_amt) {
        Ok(d) => d,
        Err(e) => return Err(e),
    };
    context.update_brc20_module_address_lp_token_balance(
        &lk,
        BRC20ModuleLPTokenBalance { balance: nu, locked_balance: ul.locked_balance },
    );
    let b0 = match context.load_brc20_module_address_token_balance(sender, module_id, t0) {
        Some(b) => b,
        None => BRC20ModuleTokenBalance::new_with_scale(amt0.get_precision()),
    };
    let b1 = match context.load_brc20_module_address_token_balance(sender, module_id, t1) {
        Some(b) => b,
        None => BRC20ModuleTokenBalance::new_with_scale(amt1.get_precision()),
    };
    let n0 = match checked_add(&b0.swap_account_balance, &out0) {
        Ok(d) => d,
        Err(e) => return Err(e),
    };
    let n1 = match checked_add(&b1.swap_account_balance, &out1) {
        Ok(d) => d,
        Err(e) => return Err(e),
    };
    let nlp = match checked_sub(&pool.lp_balance, lp_amt) {
        Ok(d) => d,
        Err(e) => return Err(e),
    };
    let np0 = match checked_sub(&p0, &out0) {
        Ok(d) => d,
        Err(e) => return Err(e),
    };
    let np1 = match checked_sub(&p1, &out1) {
        Ok(d) => d,
        Err(e) => return Err(e),
    };
    let rk = match checked_sqrt(&np0.mul_mantissa(&np1)) {
        Ok(d) => d,
        Err(e) => return Err(e),
    };
    context.update_brc20_module_address_token_balance(
        sender,
        module_id,
        t0,
        BRC20ModuleTokenBalance {
            swap_account_balance: n0,
            available_balance: b0.available_balance,
            pending_withdrawal_amount: b0.pending_withdrawal_amount,
        },
    );
    context.update_brc20_module_address_token_balance(
        sender,
        module_id,
        t1,
        BRC20ModuleTokenBalance {
            swap_account_balance: n1,
            available_balance: b1.available_balance,
            pending_withdrawal_amount: b1.pending_withdrawal_amount,
        },
    );
    let new_pool = BRC20ModuleSwapPoolPairBalance {
        tick: pool.tick,
        tick_balance: if zero_first { [np0, np1] } else { [np1, np0] },
        lp_balance: nlp,
        last_root_k: rk,
    };
    context.update_brc20_module_swap_poolpair_balance(module_id, pair, new_pool);
    Ok(())
}

/// Removing liquidity once its parameters are read (see `remove_liq_apply`).
#[verifier::rlimit(50)]
fn remove_liq_apply_exec(
    context: &mut SwapState,
    chain: &Chain,
    module_id: &String,
    sender: &UtxoAddress,
    t0: &BRC20Ticker,
    t1: &BRC20Ticker,
    pair: &BRC20ModulePoolPair,
    lp_amt: &Brc20Decimal,
    a0_str: &String,
    a1_str: &String,
    slip: &Brc20Decimal,
    fee: &Brc20Decimal,
) -> (r: Result<(), ExecutionError>)
    requires
        old(context).wf(),
        pair@.len() > 0,
        vstd::utf8::valid_utf8(pair@.drop_first()),
    ensures
        final(context).wf(),
        outcome_is(
            remove_liq_apply(old(context)@, *chain, module_id@, sender@, t0@, t1@, pair@, lp_amt@, a0_str@, a1_str@,
                slip@, fee@),
            final(context)@,
            r,
        ),
{
    let info0 = match context.load_brc20_ticker_info(t0) {
        Some(i) => i,
        None => return Err(failed(BRC20Error::TickerNotFound(t0.to_string()))),
    };
    if !info0.ticker.same(t0) {
        return Err(failed(BRC20Error::TickerNotFound(t0.to_string())));
    }
    let amt0 = match parse_amount_scaled(a0_str, info0.decimals) {
        Ok(d) => d,
        Err(e) => return Err(e),
    };
    let v0 = match checked_mantissa(&amt0) {
        Ok(v) => v,
        Err(e) => return Err(e),
    };
    if v0 > info0.total_supply {
        return Err(failed(BRC20Error::InvalidTickerAmount(v0)));
    }
    let info1 = match context.load_brc20_ticker_info(t1) {
        Some(i) => i,
        None => return Err(failed(BRC20Error::TickerNotFound(t1.to_string()))),
    };
    if !info1.ticker.same(t1) {
        return Err(failed(BRC20Error::TickerNotFound(t1.to_string())));
    }
    let amt1 = match parse_amount_scaled(a1_str, info1.decimals) {
        Ok(d) => d,
        Err(e) => return Err(e),
    };
    let v1 = match checked_mantissa(&amt1) {
        Ok(v) => v,
        Err(e) => return Err(e),
    };
    if v1 > info1.total_supply {
        return Err(failed(BRC20Error::InvalidTickerAmount(v1)));
    }
    let pool = match context.load_brc20_module_swap_poolpair_balance(module_id, pair) {
        Some(p) => p,
        None => return Err(failed(BRC20Error::SwapPoolTotalBalanceNotExists(pair.to_string()))),
    };
    let zero_first = pool.tick[0].same(t0);
    let module_info = match context.load_brc20_module_info(module_id) {
        Some(m) => m,
        None => return Err(failed(BRC20Error::ModuleNotExists(module_id.clone()))),
    };
    let mut pool = pool;
    if fee.sign() > 0 {
        let (b0, b1) = ordered_balances(&pool, zero_first);
        let lp_fee = match lp_fee_exec(&pool.lp_balance, &b0, &b1, &pool.last_root_k) {
            Ok(d) => d,
            Err(e) => return Err(e),
        };
        if lp_fee.sign() > 0 {
            let new_lp = match checked_add(&pool.lp_balance, &lp_fee) {
                Ok(d) => d,
                Err(e) => return Err(e),
            };
            let script = match script_from_hex(module_info.lp_fee_pk_script.as_str()) {
                Some(b) => b,
                None => return Err(unexpected()),
            };
            let fee_owner = UtxoAddress::from_script(script.as_slice(), chain);
            let k = BRC20ModuleAddressLPTokenBalanceKey::new(module_id, &fee_owner, pair);
            let fb = load_shares(context, &k);
            let nb = match checked_add(&fb.balance, &lp_fee) {
                Ok(d) => d,
                Err(e) => return Err(e),
            };
            context.update_brc20_module_address_lp_token_balance(
                &k,
                BRC20ModuleLPTokenBalance { balance: nb, locked_balance: fb.locked_balance },
            );
            pool = BRC20ModuleSwapPoolPairBalance {
                tick: pool.tick,
                tick_balance: pool.tick_balance,
                lp_balance: new_lp,
                last_root_k: pool.last_root_k,
            };
        }
    }
    remove_liq_settle_exec(context, pool, module_id, sender, t0, t1, pair, zero_first, lp_amt, &amt0, &amt1, slip)
}

impl SwapFunctionData {
    /// Removes liquidity from a module's pool (see `remove_liq_spec`), with the
    /// module's fee rate.
    pub fn handle_remove_liq(
        &self,
        chain: &Chain,
        module_id: &String,
        context: &mut SwapState,
        fee_rate: &Brc20Decimal,
    ) -> (r: Result<(), ExecutionError>)
        requires
            old(context).wf(),
        ensures
            final(context).wf(),
            outcome_is(remove_liq_spec(old(context)@, *chain, module_id@, self@, fee_rate@), final(context)@, r),
    {
        proof { reveal(remove_liq_spec); }
        let sender = match sender_of(self, chain) {
            Ok(a) => a,
            Err(e) => return Err(e),
        };
        let params = match params_of(self) {
            Ok(p) => p,
            Err(e) => return Err(e),
        };
        let ghost p = params@.map_values(|s: String| s@);
        if params.len() != 6 {
            return Err(failed(BRC20Error::InvalidParamsLength(params.len(), 6)));
        }
        assert(p[0] == params@[0]@ && p[1] == params@[1]@ && p[2] == params@[2]@);
        assert(p[3] == params@[3]@ && p[4] == params@[4]@ && p[5] == params@[5]@);
        let ticker_0 = match parse_ticker(&params[0]) {
            Ok(t) => t,
            Err(e) => return Err(e),
        };
        let ticker_1 = match parse_ticker(&params[1]) {
            Ok(t) => t,
            Err(e) => return Err(e),
        };
        let pool_pair = BRC20ModulePoolPair::new(&ticker_0, &ticker_1);
        let lp_amt = match parse_amount_scaled(&params[2], 18) {
            Ok(d) => d,
            Err(e) => return Err(e),
        };
        let slip = match parse_amount_scaled(&params[5], 3) {
            Ok(d) => d,
            Err(e) => return Err(e),
        };
        remove_liq_apply_exec(
            context, chain, module_id, &sender, &ticker_0, &ticker_1, &pool_pair, &lp_amt, &params[3], &params[4],
            &slip, fee_rate,
        )
    }
}


/// Adding liquidity with two different tickers moves tokens from the
/// provider to the pool and creates none: for each ticker the pool's balance
/// plus the provider's swap balance is what it was before the last stage.
pub proof fn lemma_add_liq_conserves(
    plan: LiqPlan,
    chain: Chain,
    module_id: Seq<char>,
    sender: OwnerView,
    t0: Seq<char>,
    t1: Seq<char>,
    pair: Seq<u8>,
    zero_first: bool,
    expected: (int, int),
    slip: (int, int),
)
    requires
        tkey(t0) != tkey(t1),
        add_liq_settle(plan, chain, module_id, sender, t0, t1, pair, zero_first, expected, slip).1 is Ok,
    ensures
        ({
            let r = add_liq_settle(plan, chain, module_id, sender, t0, t1, pair, zero_first, expected, slip).0;
            let s = plan.s;
            let k0 = (sender, module_id, tkey(t0));
            let k1 = (sender, module_id, tkey(t1));
            let b0 = if s.module_balances.contains_key(k0) { s.module_balances[k0] } else { empty_token_balance(0) };
            let b1 = if s.module_balances.contains_key(k1) { s.module_balances[k1] } else { empty_token_balance(0) };
            let pool = plan.pool;
            let np = r.pools[(module_id, pair)];
            let pb0 = if zero_first { pool.balance0 } else { pool.balance1 };
            let pb1 = if zero_first { pool.balance1 } else { pool.balance0 };
            let nb0 = if zero_first { np.balance0 } else { np.balance1 };
            let nb1 = if zero_first { np.balance1 } else { np.balance0 };
            &&& nb0.0 + r.module_balances[k0].swap.0 == pb0.0 + b0.swap.0
            &&& nb1.0 + r.module_balances[k1].swap.0 == pb1.0 + b1.swap.0
            &&& np.lp.0 == pool.lp.0 + plan.lp_pool.0
            &&& nb0.0 == pb0.0 + plan.amt0.0
            &&& nb1.0 == pb1.0 + plan.amt1.0
        }),
{
}

/// The amounts the first stage of adding liquidity plans: for an empty pool
/// the amounts given; otherwise one amount given and the other cut to the
/// pool's ratio, `b1 * a0 / b0` or `b0 * a1 / b1` (rounded toward zero), never
/// more than given where the amounts are at the pool's scales.
proof fn lemma_add_liq_plan_ratio(
    s: StateView,
    module_id: Seq<char>,
    sender: OwnerView,
    pair: Seq<u8>,
    pool: PoolView,
    zero_first: bool,
    fee: (int, int),
    amt0: (int, int),
    amt1: (int, int),
)
    requires
        add_liq_plan(s, module_id, sender, pair, pool, zero_first, fee, amt0, amt1) is Ok,
        amt0.0 >= 0,
        amt1.0 >= 0,
    ensures
        ({
            let p = add_liq_plan(s, module_id, sender, pair, pool, zero_first, fee, amt0, amt1)->Ok_0;
            let b0 = if zero_first { pool.balance0 } else { pool.balance1 };
            let b1 = if zero_first { pool.balance1 } else { pool.balance0 };
            let empty = dec_same(pool.balance0, (0, 0)) && dec_same(pool.balance1, (0, 0));
            &&& empty ==> p.amt0 == amt0 && p.amt1 == amt1
            &&& !empty ==> (p.amt0 == amt0 && p.amt1.0 == trunc_div(b1.0 * amt0.0, b0.0))
                || (p.amt1 == amt1 && p.amt0.0 == trunc_div(b0.0 * amt1.0, b1.0))
            &&& !empty && b0.0 >= 0 && b1.0 >= 0 && amt0.1 == b0.1 && amt1.1 == b1.1
                ==> p.amt0.0 <= amt0.0 && p.amt1.0 <= amt1.0
            &&& empty ==> p.lp_pool.0 == isqrt(amt0.0 * amt1.0) && p.pool == pool
            &&& !empty && !dec_less((0, 0), fee) ==> p.pool == pool && p.lp_pool.0 == ({
                let l0 = trunc_div(pool.lp.0 * p.amt0.0, b0.0);
                let l1 = trunc_div(pool.lp.0 * p.amt1.0, b1.0);
                if l1 < l0 { l1 } else { l0 }
            })
        }),
{
    let p = add_liq_plan(s, module_id, sender, pair, pool, zero_first, fee, amt0, amt1)->Ok_0;
    if !dec_same(pool.balance0, (0, 0)) || !dec_same(pool.balance1, (0, 0)) {
        if !dec_less((0, 0), fee) {
            let l0 = div_at(mul_at(pool.lp, p.amt0), if zero_first { pool.balance0 } else { pool.balance1 })->Some_0;
            let l1 = div_at(mul_at(pool.lp, p.amt1), if zero_first { pool.balance1 } else { pool.balance0 })->Some_0;
            if dec_less(l1, l0) {
                crate::pool::lemma_below_same_scale(l1, l0);
            } else {
                crate::pool::lemma_not_below_same_scale(l1, l0);
            }
        }
    }
    let b0 = if zero_first { pool.balance0 } else { pool.balance1 };
    let b1 = if zero_first { pool.balance1 } else { pool.balance0 };
    let empty = dec_same(pool.balance0, (0, 0)) && dec_same(pool.balance1, (0, 0));
    if !empty && b0.0 >= 0 && b1.0 >= 0 && amt0.1 == b0.1 && amt1.1 == b1.1 {
        let adj1 = div_at(mul_at(b1, amt0), b0)->Some_0;
        assert(b0.0 > 0);
        assert(b1.0 * amt0.0 >= 0) by (nonlinear_arith) requires b1.0 >= 0, amt0.0 >= 0;
        let q1 = (b1.0 * amt0.0) / b0.0;
        assert(trunc_div(b1.0 * amt0.0, b0.0) == q1);
        if !dec_less(amt1, adj1) {
            crate::pool::lemma_not_below_same_scale(amt1, adj1);
        } else {
            crate::pool::lemma_below_same_scale(amt1, adj1);
            assert(b1.0 > 0);
            vstd::arithmetic::div_mod::lemma_fundamental_div_mod(b1.0 * amt0.0, b0.0);
            assert(amt1.0 * b0.0 < b1.0 * amt0.0) by (nonlinear_arith)
                requires
                    amt1.0 < q1,
                    b1.0 * amt0.0 == b0.0 * q1 + (b1.0 * amt0.0) % b0.0,
                    (b1.0 * amt0.0) % b0.0 >= 0,
                    b0.0 > 0,
            ;
            assert(b0.0 * amt1.0 >= 0) by (nonlinear_arith) requires b0.0 >= 0, amt1.0 >= 0;
            let q0 = (b0.0 * amt1.0) / b1.0;
            assert(trunc_div(b0.0 * amt1.0, b1.0) == q0);
            vstd::arithmetic::div_mod::lemma_fundamental_div_mod(b0.0 * amt1.0, b1.0);
            assert(q0 <= amt0.0) by (nonlinear_arith)
                requires
                    b0.0 * amt1.0 == b1.0 * q0 + (b0.0 * amt1.0) % b1.0,
                    (b0.0 * amt1.0) % b1.0 >= 0,
                    amt1.0 * b0.0 < b1.0 * amt0.0,
                    b1.0 > 0,
            ;
        }
    }
}

/// With amounts and pool balances that are not negative, the amounts the
/// first stage of adding liquidity plans are not negative either.
proof fn lemma_add_liq_plan_nonneg(
    s: StateView,
    module_id: Seq<char>,
    sender: OwnerView,
    pair: Seq<u8>,
    pool: PoolView,
    zero_first: bool,
    fee: (int, int),
    amt0: (int, int),
    amt1: (int, int),
)
    requires
        add_liq_plan(s, module_id, sender, pair, pool, zero_first, fee, amt0, amt1) is Ok,
        amt0.0 >= 0,
        amt1.0 >= 0,
        pool.balance0.0 >= 0,
        pool.balance1.0 >= 0,
    ensures
        add_liq_plan(s, module_id, sender, pair, pool, zero_first, fee, amt0, amt1)->Ok_0.amt0.0 >= 0,
        add_liq_plan(s, module_id, sender, pair, pool, zero_first, fee, amt0, amt1)->Ok_0.amt1.0 >= 0,
{
    let b0 = if zero_first { pool.balance0 } else { pool.balance1 };
    let b1 = if zero_first { pool.balance1 } else { pool.balance0 };
    assert(b1.0 * amt0.0 >= 0) by (nonlinear_arith)
        requires
            b1.0 >= 0,
            amt0.0 >= 0,
    ;
    assert(b0.0 * amt1.0 >= 0) by (nonlinear_arith)
        requires
            b0.0 >= 0,
            amt1.0 >= 0,
    ;
    lemma_trunc_div_nonneg(b1.0 * amt0.0, b0.0);
    lemma_trunc_div_nonneg(b0.0 * amt1.0, b1.0);
}

/// Dividing a non-negative number by a non-negative one, rounding toward
/// zero, gives a non-negative quotient.
proof fn lemma_trunc_div_nonneg(a: int, b: int)
    requires
        a >= 0,
        b >= 0,
    ensures
        b != 0 ==> trunc_div(a, b) >= 0,
{
    if b != 0 {
        assert(abs(a) / abs(b) >= 0) by (nonlinear_arith)
            requires
                abs(a) >= 0,
                abs(b) > 0,
        ;
    }
}

/// The shares the first stage of adding liquidity plans: the pool issues what
/// the provider receives, plus the 1000 units locked away from a pool's first
/// liquidity.
pub proof fn lemma_add_liq_plan_shares(
    s: StateView,
    module_id: Seq<char>,
    sender: OwnerView,
    pair: Seq<u8>,
    pool: PoolView,
    zero_first: bool,
    fee: (int, int),
    amt0: (int, int),
    amt1: (int, int),
)
    requires
        add_liq_plan(s, module_id, sender, pair, pool, zero_first, fee, amt0, amt1) is Ok,
    ensures
        ({
            let p = add_liq_plan(s, module_id, sender, pair, pool, zero_first, fee, amt0, amt1)->Ok_0;
            &&& p.first ==> p.lp_pool.0 == p.lp_user.0 + 1000 && p.s == s && p.pool == pool
            &&& !p.first ==> p.lp_pool == p.lp_user
            &&& p.s.module_balances == s.module_balances
            &&& p.s.pools == s.pools
            &&& p.pool.balance0 == pool.balance0 && p.pool.balance1 == pool.balance1
            &&& p.pool.tick0 == pool.tick0 && p.pool.tick1 == pool.tick1
        }),
{
}

/// Adding liquidity issues exactly the shares it credits: the pool's share
/// count grows by what the provider's shares grow by, plus what the
/// locked-away holder's grow by (the provider not being that holder), which
/// is 1000 units for an empty pool and nothing otherwise.
#[verifier::spinoff_prover]
#[verifier::rlimit(60)]
pub proof fn lemma_add_liq_shares_balanced(
    s: StateView,
    chain: Chain,
    module_id: Seq<char>,
    sender: OwnerView,
    t0: Seq<char>,
    t1: Seq<char>,
    pair: Seq<u8>,
    zero_first: bool,
    amt0: (int, int),
    amt1: (int, int),
    expected: (int, int),
    slip: (int, int),
)
    requires
        sender != script_owner(zero_script(), chain),
        add_liq_apply(s, chain, module_id, sender, t0, t1, pair, zero_first, amt0, amt1, expected, slip).1 is Ok,
    ensures
        ({
            let r = add_liq_apply(s, chain, module_id, sender, t0, t1, pair, zero_first, amt0, amt1, expected, slip).0;
            let lk = (module_id, sender, pair);
            let zk = (module_id, script_owner(zero_script(), chain), pair);
            let pool = s.pools[(module_id, pair)];
            let empty = dec_same(pool.balance0, (0, 0)) && dec_same(pool.balance1, (0, 0));
            &&& r.pools[(module_id, pair)].lp.0 - s.pools[(module_id, pair)].lp.0
                == (shares_or_none(r, lk).balance.0 - shares_or_none(s, lk).balance.0)
                + (shares_or_none(r, zk).balance.0 - shares_or_none(s, zk).balance.0)
            &&& empty ==> shares_or_none(r, zk).balance.0 - shares_or_none(s, zk).balance.0 == 1000
            &&& !empty ==> shares_or_none(r, zk).balance.0 == shares_or_none(s, zk).balance.0
        }),
{
    let pool = s.pools[(module_id, pair)];
    let fee = s.module_infos[module_id].fee_rate_swap;
    let plan = add_liq_plan(s, module_id, sender, pair, pool, zero_first, fee, amt0, amt1)->Ok_0;
    lemma_add_liq_plan_shares(s, module_id, sender, pair, pool, zero_first, fee, amt0, amt1);
}


/// Removing liquidity with two different tickers burns the shares it takes
/// from the provider and moves tokens from the pool to the provider, creating
/// none: the pool's share count and the provider's shares both go down by the
/// shares removed, and for each ticker the pool's balance plus the provider's
/// swap balance is unchanged.
pub proof fn lemma_remove_liq_conserves(
    s: StateView,
    pool: PoolView,
    module_id: Seq<char>,
    sender: OwnerView,
    t0: Seq<char>,
    t1: Seq<char>,
    pair: Seq<u8>,
    zero_first: bool,
    lp_amt: (int, int),
    amt0: (int, int),
    amt1: (int, int),
    slip: (int, int),
)
    requires
        tkey(t0) != tkey(t1),
        remove_liq_settle(s, pool, module_id, sender, t0, t1, pair, zero_first, lp_amt, amt0, amt1, slip).1 is Ok,
    ensures
        ({
            let r = remove_liq_settle(s, pool, module_id, sender, t0, t1, pair, zero_first, lp_amt, amt0, amt1, slip).0;
            let k0 = (sender, module_id, tkey(t0));
            let k1 = (sender, module_id, tkey(t1));
            let lk = (module_id, sender, pair);
            let b0 = if s.module_balances.contains_key(k0) { s.module_balances[k0] } else { empty_token_balance(amt0.1) };
            let b1 = if s.module_balances.contains_key(k1) { s.module_balances[k1] } else { empty_token_balance(amt1.1) };
            let np = r.pools[(module_id, pair)];
            let pb0 = if zero_first { pool.balance0 } else { pool.balance1 };
            let pb1 = if zero_first { pool.balance1 } else { pool.balance0 };
            let nb0 = if zero_first { np.balance0 } else { np.balance1 };
            let nb1 = if zero_first { np.balance1 } else { np.balance0 };
            &&& nb0.0 + r.module_balances[k0].swap.0 == pb0.0 + b0.swap.0
            &&& nb1.0 + r.module_balances[k1].swap.0 == pb1.0 + b1.swap.0
            &&& np.lp.0 == pool.lp.0 - lp_amt.0
            &&& r.lp_balances[lk].balance.0 == shares_or_none(s, lk).balance.0 - lp_amt.0
            &&& nb0.0 == pb0.0 - trunc_div(pb0.0 * lp_amt.0, pool.lp.0)
            &&& nb1.0 == pb1.0 - trunc_div(pb1.0 * lp_amt.0, pool.lp.0)
        }),
{
}


/// A pool's balance of the first or the second ticker of a call.
pub open spec fn side(pool: PoolView, zero_first: bool, first: bool) -> (int, int) {
    if zero_first == first { pool.balance0 } else { pool.balance1 }
}

/// What adding liquidity moves: for each ticker, the pool's balance plus the
/// provider's swap balance (none counting as empty) is what it was, and the
/// provider's balance stays non-negative; the pool's last root is the rounded
/// square root of the product of its new balances.
pub open spec fn liq_added(
    s: StateView,
    r: StateView,
    module_id: Seq<char>,
    sender: OwnerView,
    t0: Seq<char>,
    t1: Seq<char>,
) -> bool {
    let pair = pair_of(t0, t1);
    let zero_first = first_token_is(pair, encode_utf8(unicode_lowercase(t0)));
    let pool = s.pools[(module_id, pair)];
    let np = r.pools[(module_id, pair)];
    let k0 = (sender, module_id, tkey(t0));
    let k1 = (sender, module_id, tkey(t1));
    let b0 = if s.module_balances.contains_key(k0) { s.module_balances[k0] } else { empty_token_balance(0) };
    let b1 = if s.module_balances.contains_key(k1) { s.module_balances[k1] } else { empty_token_balance(0) };
    &&& side(np, zero_first, true).0 + r.module_balances[k0].swap.0 == side(pool, zero_first, true).0 + b0.swap.0
    &&& side(np, zero_first, false).0 + r.module_balances[k1].swap.0 == side(pool, zero_first, false).0 + b1.swap.0
    &&& r.module_balances[k0].swap.0 >= 0
    &&& r.module_balances[k1].swap.0 >= 0
    &&& np.root_k == (isqrt(np.balance0.0 * np.balance1.0), 18int)
}

/// A successful `addLiq` call of two different tickers (different in
/// lowercase, as tickers are keyed) moves tokens from the provider to the
/// pool and creates none (see `liq_added`); where the pool's balances were
/// not negative, each amount moved is not negative. The pool's share count
/// grows by exactly the shares credited to the provider and to the
/// locked-away holder (the provider not being that holder): that holder gets
/// 1000 units when the pool was empty and nothing otherwise, so for a pool
/// that was not empty the provider's shares grow by exactly what the pool's
/// share count grows by.
pub proof fn lemma_add_liq_call(s: StateView, chain: Chain, module_id: Seq<char>, f: FunctionView)
    requires
        add_liq_spec(s, chain, module_id, f).1 is Ok,
        f.params matches Some(p) && p.len() == 6 && tkey(p[0]) != tkey(p[1]),
        owner_parse(f.address.unwrap(), chain)->Ok_0 != script_owner(zero_script(), chain),
    ensures
        ({
            let r = add_liq_spec(s, chain, module_id, f).0;
            let p = f.params.unwrap();
            let sender = owner_parse(f.address.unwrap(), chain)->Ok_0;
            let pair = pair_of(p[0], p[1]);
            let lk = (module_id, sender, pair);
            let zk = (module_id, script_owner(zero_script(), chain), pair);
            let pool = s.pools[(module_id, pair)];
            let np = r.pools[(module_id, pair)];
            let zero_first = first_token_is(pair, encode_utf8(unicode_lowercase(p[0])));
            let empty = dec_same(pool.balance0, (0, 0)) && dec_same(pool.balance1, (0, 0));
            &&& liq_added(s, r, module_id, sender, p[0], p[1])
            &&& pool.balance0.0 >= 0 && pool.balance1.0 >= 0 ==> side(np, zero_first, true).0 >= side(pool, zero_first, true).0
                && side(np, zero_first, false).0 >= side(pool, zero_first, false).0
            &&& np.lp.0 - pool.lp.0
                == (shares_or_none(r, lk).balance.0 - shares_or_none(s, lk).balance.0)
                + (shares_or_none(r, zk).balance.0 - shares_or_none(s, zk).balance.0)
            &&& empty ==> shares_or_none(r, zk).balance.0 - shares_or_none(s, zk).balance.0 == 1000
            &&& !empty ==> np.lp.0 - pool.lp.0 == shares_or_none(r, lk).balance.0 - shares_or_none(s, lk).balance.0
        }),
{
    reveal(add_liq_spec);
    let p = f.params.unwrap();
    let sender = owner_parse(f.address.unwrap(), chain)->Ok_0;
    let pair = pair_of(p[0], p[1]);
    let zero_first = first_token_is(pair, encode_utf8(unicode_lowercase(p[0])));
    let a0 = big_decimal_parse(p[2]).unwrap();
    let a1 = big_decimal_parse(p[3]).unwrap();
    let expected = big_decimal_parse(p[4]).unwrap();
    let slip = big_decimal_parse(p[5]).unwrap();
    assert(add_liq_spec(s, chain, module_id, f)
        == add_liq_apply(s, chain, module_id, sender, p[0], p[1], pair, zero_first, a0, a1, expected, slip));
    lemma_add_liq_apply_moves(s, chain, module_id, sender, p[0], p[1], pair, zero_first, a0, a1, expected, slip);
    lemma_add_liq_shares_balanced(s, chain, module_id, sender, p[0], p[1], pair, zero_first, a0, a1, expected, slip);
}

/// A successful `add_liq_apply` of two different tickers moves what `liq_added` says.
#[verifier::spinoff_prover]
#[verifier::rlimit(60)]
proof fn lemma_add_liq_apply_moves(
    s: StateView,
    chain: Chain,
    module_id: Seq<char>,
    sender: OwnerView,
    t0: Seq<char>,
    t1: Seq<char>,
    pair: Seq<u8>,
    zero_first: bool,
    amt0: (int, int),
    amt1: (int, int),
    expected: (int, int),
    slip: (int, int),
)
    requires
        tkey(t0) != tkey(t1),
        pair == pair_of(t0, t1),
        zero_first == first_token_is(pair, encode_utf8(unicode_lowercase(t0))),
        add_liq_apply(s, chain, module_id, sender, t0, t1, pair, zero_first, amt0, amt1, expected, slip).1 is Ok,
    ensures
        liq_added(s, add_liq_apply(s, chain, module_id, sender, t0, t1, pair, zero_first, amt0, amt1, expected, slip).0,
            module_id, sender, t0, t1),
        ({
            let pool = s.pools[(module_id, pair)];
            let np = add_liq_apply(s, chain, module_id, sender, t0, t1, pair, zero_first, amt0, amt1, expected, slip).0
                .pools[(module_id, pair)];
            pool.balance0.0 >= 0 && pool.balance1.0 >= 0 ==> side(np, zero_first, true).0 >= side(pool, zero_first, true).0
                && side(np, zero_first, false).0 >= side(pool, zero_first, false).0
        }),
{
    let pool = s.pools[(module_id, pair)];
    let fee = s.module_infos[module_id].fee_rate_swap;
    let plan = add_liq_plan(s, module_id, sender, pair, pool, zero_first, fee, amt0, amt1)->Ok_0;
    lemma_add_liq_plan_shares(s, module_id, sender, pair, pool, zero_first, fee, amt0, amt1);
    let r = add_liq_settle(plan, chain, module_id, sender, t0, t1, pair, zero_first, expected, slip).0;
    assert(r == add_liq_apply(s, chain, module_id, sender, t0, t1, pair, zero_first, amt0, amt1, expected, slip).0);
    lemma_add_liq_conserves(plan, chain, module_id, sender, t0, t1, pair, zero_first, expected, slip);
    lemma_add_liq_settle_shape(plan, chain, module_id, sender, t0, t1, pair, zero_first, expected, slip);
    if pool.balance0.0 >= 0 && pool.balance1.0 >= 0 {
        lemma_add_liq_plan_nonneg(s, module_id, sender, pair, pool, zero_first, fee, amt0, amt1);
    }
}

/// After the last stage of adding liquidity the provider's balances are not
/// negative and the pool records the root of the product of its balances.
#[verifier::spinoff_prover]
#[verifier::rlimit(60)]
proof fn lemma_add_liq_settle_shape(
    plan: LiqPlan,
    chain: Chain,
    module_id: Seq<char>,
    sender: OwnerView,
    t0: Seq<char>,
    t1: Seq<char>,
    pair: Seq<u8>,
    zero_first: bool,
    expected: (int, int),
    slip: (int, int),
)
    requires
        tkey(t0) != tkey(t1),
        add_liq_settle(plan, chain, module_id, sender, t0, t1, pair, zero_first, expected, slip).1 is Ok,
    ensures
        ({
            let r = add_liq_settle(plan, chain, module_id, sender, t0, t1, pair, zero_first, expected, slip).0;
            let np = r.pools[(module_id, pair)];
            &&& r.module_balances[(sender, module_id, tkey(t0))].swap.0 >= 0
            &&& r.module_balances[(sender, module_id, tkey(t1))].swap.0 >= 0
            &&& np.root_k == (isqrt(np.balance0.0 * np.balance1.0), 18int)
        }),
{
    let s = plan.s;
    let k0 = (sender, module_id, tkey(t0));
    let k1 = (sender, module_id, tkey(t1));
    let b0 = if s.module_balances.contains_key(k0) { s.module_balances[k0] } else { empty_token_balance(0) };
    let b1 = if s.module_balances.contains_key(k1) { s.module_balances[k1] } else { empty_token_balance(0) };
    crate::pool::lemma_not_below_same_scale(b0.swap, plan.amt0);
    crate::pool::lemma_not_below_same_scale(b1.swap, plan.amt1);
    let pool = plan.pool;
    let pb0 = if zero_first { pool.balance0 } else { pool.balance1 };
    let pb1 = if zero_first { pool.balance1 } else { pool.balance0 };
    let n0 = (pb0.0 + plan.amt0.0, pb0.1);
    let n1 = (pb1.0 + plan.amt1.0, pb1.1);
    assert(n0.0 * n1.0 == n1.0 * n0.0) by (nonlinear_arith);
}


/// The shares the module's fee holder gained from `s` to `r` (none where the
/// module's fee script is not hexadecimal).
pub open spec fn fee_holder_gain(s: StateView, r: StateView, chain: Chain, module_id: Seq<char>, pair: Seq<u8>) -> int {
    match hex_decode(encode_utf8(s.module_infos[module_id].lp_fee_pk_script)) {
        Some(script) => {
            let k = (module_id, script_owner(script, chain), pair);
            shares_or_none(r, k).balance.0 - shares_or_none(s, k).balance.0
        },
        None => 0,
    }
}

/// What removing liquidity moves: the provider's shares go down by the shares
/// removed and stay non-negative, the pool's share count goes down by them (and up by what the fee
/// holder was credited); for each ticker the pool's balance plus the
/// provider's swap balance (none counting as empty at the ticker's places) is
/// what it was, and the pool's balance stays non-negative; the pool's last
/// root is the rounded square root of the product of its new balances.
pub open spec fn liq_removed(
    s: StateView,
    r: StateView,
    chain: Chain,
    module_id: Seq<char>,
    sender: OwnerView,
    t0: Seq<char>,
    t1: Seq<char>,
    lp_amt: int,
) -> bool {
    let pair = pair_of(t0, t1);
    let pool = s.pools[(module_id, pair)];
    let np = r.pools[(module_id, pair)];
    let zero_first = pool.tick0 == t0;
    let k0 = (sender, module_id, tkey(t0));
    let k1 = (sender, module_id, tkey(t1));
    let d0 = s.ticker_infos[tkey(t0)].decimals as int;
    let d1 = s.ticker_infos[tkey(t1)].decimals as int;
    let b0 = if s.module_balances.contains_key(k0) { s.module_balances[k0] } else { empty_token_balance(d0) };
    let b1 = if s.module_balances.contains_key(k1) { s.module_balances[k1] } else { empty_token_balance(d1) };
    let lk = (module_id, sender, pair);
    &&& shares_or_none(r, lk).balance.0 == shares_or_none(s, lk).balance.0 - lp_amt
    &&& shares_or_none(r, lk).balance.0 >= 0
    &&& np.lp.0 == pool.lp.0 + fee_holder_gain(s, r, chain, module_id, pair) - lp_amt
    &&& side(np, zero_first, true).0 + r.module_balances[k0].swap.0 == side(pool, zero_first, true).0 + b0.swap.0
    &&& side(np, zero_first, false).0 + r.module_balances[k1].swap.0 == side(pool, zero_first, false).0 + b1.swap.0
    &&& np.balance0.0 >= 0 && np.balance1.0 >= 0
    &&& np.root_k == (isqrt(np.balance0.0 * np.balance1.0), 18int)
}

/// A successful `removeLiq` call of two different tickers, by a provider who
/// is not the module's fee holder, moves what `liq_removed` says.
pub proof fn lemma_remove_liq_call(s: StateView, chain: Chain, module_id: Seq<char>, f: FunctionView, fee: (int, int))
    requires
        remove_liq_spec(s, chain, module_id, f, fee).1 is Ok,
        f.params matches Some(p) && p.len() == 6 && tkey(p[0]) != tkey(p[1]),
        hex_decode(encode_utf8(s.module_infos[module_id].lp_fee_pk_script)) matches Some(script)
            ==> owner_parse(f.address.unwrap(), chain)->Ok_0 != script_owner(script, chain),
    ensures
        ({
            let p = f.params.unwrap();
            liq_removed(s, remove_liq_spec(s, chain, module_id, f, fee).0, chain, module_id,
                owner_parse(f.address.unwrap(), chain)->Ok_0, p[0], p[1], scaled_amount(p[2], 18).unwrap())
        }),
{
    reveal(remove_liq_spec);
    let p = f.params.unwrap();
    let sender = owner_parse(f.address.unwrap(), chain)->Ok_0;
    let lv = scaled_amount(p[2], 18).unwrap();
    let sv = scaled_amount(p[5], 3).unwrap();
    assert(remove_liq_spec(s, chain, module_id, f, fee) == remove_liq_apply(
        s, chain, module_id, sender, p[0], p[1], pair_of(p[0], p[1]), (lv, 18), p[3], p[4], (sv, 3), fee));
    lemma_remove_liq_apply_moves(s, chain, module_id, sender, p[0], p[1], (lv, 18), p[3], p[4], (sv, 3), fee);
}

/// A successful `remove_liq_apply` of two different tickers moves what `liq_removed` says.
#[verifier::spinoff_prover]
#[verifier::rlimit(80)]
proof fn lemma_remove_liq_apply_moves(
    s: StateView,
    chain: Chain,
    module_id: Seq<char>,
    sender: OwnerView,
    t0: Seq<char>,
    t1: Seq<char>,
    lp_amt: (int, int),
    a0_str: Seq<char>,
    a1_str: Seq<char>,
    slip: (int, int),
    fee: (int, int),
)
    requires
        tkey(t0) != tkey(t1),
        hex_decode(encode_utf8(s.module_infos[module_id].lp_fee_pk_script)) matches Some(script)
            ==> sender != script_owner(script, chain),
        remove_liq_apply(s, chain, module_id, sender, t0, t1, pair_of(t0, t1), lp_amt, a0_str, a1_str, slip, fee).1 is Ok,
    ensures
        liq_removed(s, remove_liq_apply(s, chain, module_id, sender, t0, t1, pair_of(t0, t1), lp_amt, a0_str, a1_str,
            slip, fee).0, chain, module_id, sender, t0, t1, lp_amt.0),
{
    let pair = pair_of(t0, t1);
    let pool = s.pools[(module_id, pair)];
    let zero_first = pool.tick0 == t0;
    let b0 = if zero_first { pool.balance0 } else { pool.balance1 };
    let b1 = if zero_first { pool.balance1 } else { pool.balance0 };
    let d0 = s.ticker_infos[tkey(t0)].decimals as int;
    let d1 = s.ticker_infos[tkey(t1)].decimals as int;
    let v0 = scaled_amount(a0_str, d0 as nat).unwrap();
    let v1 = scaled_amount(a1_str, d1 as nat).unwrap();
    let lk = (module_id, sender, pair);
    if fee.0 > 0 && lp_fee_amount(pool.lp, b0, b1, pool.root_k)->Some_0.0 > 0 {
        let lf = lp_fee_amount(pool.lp, b0, b1, pool.root_k)->Some_0;
        let script = hex_decode(encode_utf8(s.module_infos[module_id].lp_fee_pk_script))->Some_0;
        let k = (module_id, script_owner(script, chain), pair);
        let fb = shares_or_none(s, k);
        let s1 = StateView { lp_balances: s.lp_balances.insert(k, LpView { balance: (fb.balance.0 + lf.0, fb.balance.1), ..fb }), ..s };
        let pool1 = PoolView { lp: (pool.lp.0 + lf.0, pool.lp.1), ..pool };
        let r = remove_liq_settle(s1, pool1, module_id, sender, t0, t1, pair, zero_first, lp_amt, (v0, d0), (v1, d1), slip).0;
        assert(r == remove_liq_apply(s, chain, module_id, sender, t0, t1, pair, lp_amt, a0_str, a1_str, slip, fee).0);
        lemma_remove_liq_conserves(s1, pool1, module_id, sender, t0, t1, pair, zero_first, lp_amt, (v0, d0), (v1, d1), slip);
        lemma_remove_liq_settle_shape(s1, pool1, module_id, sender, t0, t1, pair, zero_first, lp_amt, (v0, d0), (v1, d1), slip);
        assert(lk != k);
        assert(shares_or_none(s1, lk) == shares_or_none(s, lk));
        assert(shares_or_none(r, k) == shares_or_none(s1, k));
    } else {
        let r = remove_liq_settle(s, pool, module_id, sender, t0, t1, pair, zero_first, lp_amt, (v0, d0), (v1, d1), slip).0;
        assert(r == remove_liq_apply(s, chain, module_id, sender, t0, t1, pair, lp_amt, a0_str, a1_str, slip, fee).0);
        lemma_remove_liq_conserves(s, pool, module_id, sender, t0, t1, pair, zero_first, lp_amt, (v0, d0), (v1, d1), slip);
        lemma_remove_liq_settle_shape(s, pool, module_id, sender, t0, t1, pair, zero_first, lp_amt, (v0, d0), (v1, d1), slip);
        match hex_decode(encode_utf8(s.module_infos[module_id].lp_fee_pk_script)) {
            Some(script) => {
                let k = (module_id, script_owner(script, chain), pair);
                assert(shares_or_none(r, k) == shares_or_none(s, k));
            },
            None => {},
        }
    }
}

/// After the last stage of removing liquidity the pool's balances are not
/// negative, it records the root of the product of its balances, and the
/// module balances of the provider exist.
#[verifier::spinoff_prover]
#[verifier::rlimit(60)]
proof fn lemma_remove_liq_settle_shape(
    s: StateView,
    pool: PoolView,
    module_id: Seq<char>,
    sender: OwnerView,
    t0: Seq<char>,
    t1: Seq<char>,
    pair: Seq<u8>,
    zero_first: bool,
    lp_amt: (int, int),
    amt0: (int, int),
    amt1: (int, int),
    slip: (int, int),
)
    requires
        remove_liq_settle(s, pool, module_id, sender, t0, t1, pair, zero_first, lp_amt, amt0, amt1, slip).1 is Ok,
    ensures
        ({
            let r = remove_liq_settle(s, pool, module_id, sender, t0, t1, pair, zero_first, lp_amt, amt0, amt1, slip).0;
            let np = r.pools[(module_id, pair)];
            &&& np.balance0.0 >= 0 && np.balance1.0 >= 0
            &&& np.root_k == (isqrt(np.balance0.0 * np.balance1.0), 18int)
            &&& np.tick0 == pool.tick0
            &&& r.ticker_infos == s.ticker_infos
            &&& r.module_infos == s.module_infos
            &&& shares_or_none(r, (module_id, sender, pair)).balance.0 >= 0
        }),
{
    let ul = shares_or_none(s, (module_id, sender, pair));
    crate::pool::lemma_not_below_same_scale(ul.balance, lp_amt);
    let p0 = if zero_first { pool.balance0 } else { pool.balance1 };
    let p1 = if zero_first { pool.balance1 } else { pool.balance0 };
    let out0 = div_at(mul_at(p0, lp_amt), pool.lp)->Some_0;
    let out1 = div_at(mul_at(p1, lp_amt), pool.lp)->Some_0;
    crate::pool::lemma_not_below_same_scale(p0, out0);
    crate::pool::lemma_not_below_same_scale(p1, out1);
    let n0 = p0.0 - out0.0;
    let n1 = p1.0 - out1.0;
    assert(n0 * n1 == n1 * n0) by (nonlinear_arith);
}

/// An `addLiq` or `removeLiq` call whose address reads and that does not
/// carry exactly six parameters is refused for its parameter count, and
/// changes nothing.
pub proof fn lemma_liq_params_length(s: StateView, chain: Chain, module_id: Seq<char>, f: FunctionView, fee: (int, int))
    requires
        f.address matches Some(a) && owner_parse(a, chain) is Ok,
        f.params matches Some(p) && p.len() != 6,
    ensures
        add_liq_spec(s, chain, module_id, f)
            == fail(s, ErrorView::InvalidParamsLength(f.params.unwrap().len() as usize, 6)),
        remove_liq_spec(s, chain, module_id, f, fee)
            == fail(s, ErrorView::InvalidParamsLength(f.params.unwrap().len() as usize, 6)),
{
    reveal(add_liq_spec);
    reveal(remove_liq_spec);
}

/// A successful `add_liq_apply` of two different tickers takes from the
/// provider what `lemma_add_liq_plan_ratio` plans.
#[verifier::spinoff_prover]
#[verifier::rlimit(60)]
proof fn lemma_add_liq_apply_ratio(
    s: StateView,
    chain: Chain,
    module_id: Seq<char>,
    sender: OwnerView,
    t0: Seq<char>,
    t1: Seq<char>,
    pair: Seq<u8>,
    zero_first: bool,
    amt0: (int, int),
    amt1: (int, int),
    expected: (int, int),
    slip: (int, int),
)
    requires
        tkey(t0) != tkey(t1),
        add_liq_apply(s, chain, module_id, sender, t0, t1, pair, zero_first, amt0, amt1, expected, slip).1 is Ok,
    ensures
        ({
            let pool = s.pools[(module_id, pair)];
            let np = add_liq_apply(s, chain, module_id, sender, t0, t1, pair, zero_first, amt0, amt1, expected, slip).0
                .pools[(module_id, pair)];
            let b0 = side(pool, zero_first, true);
            let b1 = side(pool, zero_first, false);
            let a0 = side(np, zero_first, true).0 - b0.0;
            let a1 = side(np, zero_first, false).0 - b1.0;
            let empty = dec_same(pool.balance0, (0, 0)) && dec_same(pool.balance1, (0, 0));
            &&& empty ==> a0 == amt0.0 && a1 == amt1.0
            &&& !empty ==> (a0 == amt0.0 && a1 == trunc_div(b1.0 * a0, b0.0))
                || (a1 == amt1.0 && a0 == trunc_div(b0.0 * a1, b1.0))
            &&& !empty && b0.0 >= 0 && b1.0 >= 0 && amt0.1 == b0.1 && amt1.1 == b1.1 ==> a0 <= amt0.0 && a1 <= amt1.0
            &&& empty ==> np.lp.0 - pool.lp.0 == isqrt(a0 * a1)
            &&& !empty && !dec_less((0, 0), s.module_infos[module_id].fee_rate_swap) ==> np.lp.0 - pool.lp.0 == ({
                let l0 = trunc_div(pool.lp.0 * a0, b0.0);
                let l1 = trunc_div(pool.lp.0 * a1, b1.0);
                if l1 < l0 { l1 } else { l0 }
            })
        }),
{
    let pool = s.pools[(module_id, pair)];
    let fee = s.module_infos[module_id].fee_rate_swap;
    let plan = add_liq_plan(s, module_id, sender, pair, pool, zero_first, fee, amt0, amt1)->Ok_0;
    lemma_add_liq_plan_shares(s, module_id, sender, pair, pool, zero_first, fee, amt0, amt1);
    lemma_add_liq_plan_ratio(s, module_id, sender, pair, pool, zero_first, fee, amt0, amt1);
    let r = add_liq_settle(plan, chain, module_id, sender, t0, t1, pair, zero_first, expected, slip).0;
    assert(r == add_liq_apply(s, chain, module_id, sender, t0, t1, pair, zero_first, amt0, amt1, expected, slip).0);
    lemma_add_liq_conserves(plan, chain, module_id, sender, t0, t1, pair, zero_first, expected, slip);
}

/// Adding liquidity takes amounts in the pool's ratio. For a successful
/// `addLiq` of two different tickers, with the pool holding `b0` and `b1` of
/// the first and second ticker (mantissas) and the call naming amounts `amt0`
/// and `amt1`: into an empty pool both amounts go as named; into a non-empty
/// pool one amount goes as named and the other is cut to the pool's ratio
/// (`a1 == b1 * a0 / b0` or `a0 == b0 * a1 / b1`, rounded toward zero), and
/// where the reserves are not negative and the amounts are at the pool's
/// scales, neither amount taken exceeds the amount named. The pool issues
/// the square root (rounded down) of the product of the amounts taken into
/// an empty pool; into a non-empty pool of a module without a fee, the
/// smaller of `S * a0 / b0` and `S * a1 / b1` (rounded toward zero), `S`
/// being its shares.
pub proof fn lemma_add_liq_takes_pool_ratio(s: StateView, chain: Chain, module_id: Seq<char>, f: FunctionView)
    requires
        add_liq_spec(s, chain, module_id, f).1 is Ok,
        f.params matches Some(p) && p.len() == 6 && tkey(p[0]) != tkey(p[1]),
    ensures
        ({
            let p = f.params.unwrap();
            let r = add_liq_spec(s, chain, module_id, f).0;
            let pair = pair_of(p[0], p[1]);
            let zero_first = first_token_is(pair, encode_utf8(unicode_lowercase(p[0])));
            let pool = s.pools[(module_id, pair)];
            let np = r.pools[(module_id, pair)];
            let amt0 = big_decimal_parse(p[2]).unwrap();
            let amt1 = big_decimal_parse(p[3]).unwrap();
            let b0 = side(pool, zero_first, true);
            let b1 = side(pool, zero_first, false);
            let a0 = side(np, zero_first, true).0 - b0.0;
            let a1 = side(np, zero_first, false).0 - b1.0;
            let empty = dec_same(pool.balance0, (0, 0)) && dec_same(pool.balance1, (0, 0));
            &&& empty ==> a0 == amt0.0 && a1 == amt1.0
            &&& !empty ==> (a0 == amt0.0 && a1 == trunc_div(b1.0 * a0, b0.0))
                || (a1 == amt1.0 && a0 == trunc_div(b0.0 * a1, b1.0))
            &&& !empty && b0.0 >= 0 && b1.0 >= 0 && amt0.1 == b0.1 && amt1.1 == b1.1 ==> a0 <= amt0.0 && a1 <= amt1.0
            &&& empty ==> np.lp.0 - pool.lp.0 == isqrt(a0 * a1)
            &&& !empty && !dec_less((0, 0), s.module_infos[module_id].fee_rate_swap) ==> np.lp.0 - pool.lp.0 == ({
                let l0 = trunc_div(pool.lp.0 * a0, b0.0);
                let l1 = trunc_div(pool.lp.0 * a1, b1.0);
                if l1 < l0 { l1 } else { l0 }
            })
        }),
{
    reveal(add_liq_spec);
    let p = f.params.unwrap();
    let sender = owner_parse(f.address.unwrap(), chain)->Ok_0;
    let pair = pair_of(p[0], p[1]);
    let zero_first = first_token_is(pair, encode_utf8(unicode_lowercase(p[0])));
    let a0 = big_decimal_parse(p[2]).unwrap();
    let a1 = big_decimal_parse(p[3]).unwrap();
    let expected = big_decimal_parse(p[4]).unwrap();
    let slip = big_decimal_parse(p[5]).unwrap();
    assert(add_liq_spec(s, chain, module_id, f)
        == add_liq_apply(s, chain, module_id, sender, p[0], p[1], pair, zero_first, a0, a1, expected, slip));
    lemma_add_liq_apply_ratio(s, chain, module_id, sender, p[0], p[1], pair, zero_first, a0, a1, expected, slip);
}

/// A successful `remove_liq_apply` of two different tickers pays each side out
/// in proportion to its own reserve.
#[verifier::spinoff_prover]
#[verifier::rlimit(80)]
proof fn lemma_remove_liq_apply_outs(
    s: StateView,
    chain: Chain,
    module_id: Seq<char>,
    sender: OwnerView,
    t0: Seq<char>,
    t1: Seq<char>,
    lp_amt: (int, int),
    a0_str: Seq<char>,
    a1_str: Seq<char>,
    slip: (int, int),
    fee: (int, int),
)
    requires
        tkey(t0) != tkey(t1),
        remove_liq_apply(s, chain, module_id, sender, t0, t1, pair_of(t0, t1), lp_amt, a0_str, a1_str, slip, fee).1 is Ok,
    ensures
        ({
            let pair = pair_of(t0, t1);
            let pool = s.pools[(module_id, pair)];
            let np = remove_liq_apply(s, chain, module_id, sender, t0, t1, pair, lp_amt, a0_str, a1_str, slip, fee).0
                .pools[(module_id, pair)];
            let zf = pool.tick0 == t0;
            &&& side(pool, zf, true).0 - side(np, zf, true).0
                == trunc_div(side(pool, zf, true).0 * lp_amt.0, np.lp.0 + lp_amt.0)
            &&& side(pool, zf, false).0 - side(np, zf, false).0
                == trunc_div(side(pool, zf, false).0 * lp_amt.0, np.lp.0 + lp_amt.0)
        }),
{
    let pair = pair_of(t0, t1);
    let pool = s.pools[(module_id, pair)];
    let zero_first = pool.tick0 == t0;
    let b0 = if zero_first { pool.balance0 } else { pool.balance1 };
    let b1 = if zero_first { pool.balance1 } else { pool.balance0 };
    let d0 = s.ticker_infos[tkey(t0)].decimals as int;
    let d1 = s.ticker_infos[tkey(t1)].decimals as int;
    let v0 = scaled_amount(a0_str, d0 as nat).unwrap();
    let v1 = scaled_amount(a1_str, d1 as nat).unwrap();
    if fee.0 > 0 && lp_fee_amount(pool.lp, b0, b1, pool.root_k)->Some_0.0 > 0 {
        let lf = lp_fee_amount(pool.lp, b0, b1, pool.root_k)->Some_0;
        let script = hex_decode(encode_utf8(s.module_infos[module_id].lp_fee_pk_script))->Some_0;
        let k = (module_id, script_owner(script, chain), pair);
        let fb = shares_or_none(s, k);
        let s1 = StateView { lp_balances: s.lp_balances.insert(k, LpView { balance: (fb.balance.0 + lf.0, fb.balance.1), ..fb }), ..s };
        let pool1 = PoolView { lp: (pool.lp.0 + lf.0, pool.lp.1), ..pool };
        let r = remove_liq_settle(s1, pool1, module_id, sender, t0, t1, pair, zero_first, lp_amt, (v0, d0), (v1, d1), slip).0;
        assert(r == remove_liq_apply(s, chain, module_id, sender, t0, t1, pair, lp_amt, a0_str, a1_str, slip, fee).0);
        lemma_remove_liq_conserves(s1, pool1, module_id, sender, t0, t1, pair, zero_first, lp_amt, (v0, d0), (v1, d1), slip);
    } else {
        let r = remove_liq_settle(s, pool, module_id, sender, t0, t1, pair, zero_first, lp_amt, (v0, d0), (v1, d1), slip).0;
        assert(r == remove_liq_apply(s, chain, module_id, sender, t0, t1, pair, lp_amt, a0_str, a1_str, slip, fee).0);
        lemma_remove_liq_conserves(s, pool, module_id, sender, t0, t1, pair, zero_first, lp_amt, (v0, d0), (v1, d1), slip);
    }
}

/// Removing liquidity pays each side in proportion to its own reserve. For a
/// successful `removeLiq` of two different tickers burning `L` shares (read
/// at 18 places), with the pool holding `p0` and `p1` of the first and second
/// ticker and `S` shares once any fee shares are issued (so `S - L` after), the
/// pool pays out `p0 * L / S` of the first ticker and `p1 * L / S` of the
/// second, each rounded toward zero.
pub proof fn lemma_remove_liq_pays_in_proportion(s: StateView, chain: Chain, module_id: Seq<char>, f: FunctionView, fee: (int, int))
    requires
        remove_liq_spec(s, chain, module_id, f, fee).1 is Ok,
        f.params matches Some(p) && p.len() == 6 && tkey(p[0]) != tkey(p[1]),
    ensures
        ({
            let p = f.params.unwrap();
            let r = remove_liq_spec(s, chain, module_id, f, fee).0;
            let pair = pair_of(p[0], p[1]);
            let pool = s.pools[(module_id, pair)];
            let np = r.pools[(module_id, pair)];
            let zf = pool.tick0 == p[0];
            let l = scaled_amount(p[2], 18).unwrap();
            &&& side(pool, zf, true).0 - side(np, zf, true).0 == trunc_div(side(pool, zf, true).0 * l, np.lp.0 + l)
            &&& side(pool, zf, false).0 - side(np, zf, false).0 == trunc_div(side(pool, zf, false).0 * l, np.lp.0 + l)
        }),
{
    reveal(remove_liq_spec);
    let p = f.params.unwrap();
    let sender = owner_parse(f.address.unwrap(), chain)->Ok_0;
    let lv = scaled_amount(p[2], 18).unwrap();
    let sv = scaled_amount(p[5], 3).unwrap();
    assert(remove_liq_spec(s, chain, module_id, f, fee) == remove_liq_apply(
        s, chain, module_id, sender, p[0], p[1], pair_of(p[0], p[1]), (lv, 18), p[3], p[4], (sv, 3), fee));
    lemma_remove_liq_apply_outs(s, chain, module_id, sender, p[0], p[1], (lv, 18), p[3], p[4], (sv, 3), fee);
}

} // verus!
