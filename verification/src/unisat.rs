//! Withdrawals recorded by the swap service: each credits the receiving
//! address's balance of a ticker on chain.

use vstd::prelude::*;
use vstd::utf8::encode_utf8;
use crate::address::{InscriptionId, SatPoint};
use crate::amount::{fixed_parse, parse_fixed};
use crate::chain::Chain;
use crate::entry::{BRC20Balance, BalanceView};
use crate::error::{BRC20Error, ErrorView, ExecutionError, ExecView};
use crate::operation::TickInfo;
use crate::params::{Outcome, fail, halt, done, outcome_is, owner_parse, failed, unexpected};
use crate::state::{SwapState, StateView, tkey};
use crate::ticker::{ticker_check, BRC20Ticker};
use crate::address::UtxoAddress;

verus! {

/// A withdrawal recorded by the swap service, as the block that carries it
/// delivers it.
#[derive(Debug, Clone)]
pub struct WithdrawHistory {
    pub from: String,
    pub to: String,
    pub data: TickInfo,
    pub inscription_id: InscriptionId,
    pub inscription_number: i32,
    pub old_sat_point: SatPoint,
    pub new_sat_point: SatPoint,
    pub txid: [u8; 32],
    pub height: u32,
}

/// A credited withdrawal: the ticker and the amount (at the ticker's decimal places).
#[derive(Debug, Clone)]
pub struct UnisatSwapEvent {
    pub tick: BRC20Ticker,
    pub amount: u128,
}

/// What crediting a recorded withdrawal does: both addresses must be
/// addresses of the chain; the ticker must be a valid name of a deployed
/// ticker; the amount is read at the ticker's decimal places (not negative).
/// The receiver's total balance (none counts as zero) goes up by the amount;
/// where the amount or the new total is not a `u128` the rules halt.
pub open spec fn withdraw_history_spec(
    s: StateView,
    chain: Chain,
    from: Seq<char>,
    to: Seq<char>,
    tick: Seq<char>,
    amount: Seq<char>,
) -> Outcome {
    if owner_parse(from, chain) is Err || owner_parse(to, chain) is Err {
        fail(s, ErrorView::InvalidAddress)
    } else {
        match ticker_check(encode_utf8(tick)) {
            Err(e) => fail(s, ErrorView::TickerParse(e)),
            Ok(_) => if !s.ticker_infos.contains_key(tkey(tick)) {
                fail(s, ErrorView::TickerNotFound(tick))
            } else {
                let info = s.ticker_infos[tkey(tick)];
                match fixed_parse(encode_utf8(amount), info.decimals as nat) {
                    None => fail(s, ErrorView::NumericError),
                    Some(v) => {
                        let receiver = owner_parse(to, chain)->Ok_0;
                        let k = (receiver, tkey(tick));
                        let b = if s.balances.contains_key(k) {
                            s.balances[k]
                        } else {
                            BalanceView { ticker: tick, total: 0, available: 0 }
                        };
                        if v > u128::MAX || b.total + v > u128::MAX {
                            halt(s)
                        } else {
                            done(StateView {
                                balances: s.balances.insert(k, BalanceView { total: (b.total + v) as u128, ..b }),
                                ..s
                            })
                        }
                    },
                }
            },
        }
    }
}

/// The result of a crediting, without its event.
pub open spec fn unit_result(r: Result<UnisatSwapEvent, ExecutionError>) -> Result<(), ExecutionError> {
    match r {
        Ok(_) => Ok(()),
        Err(e) => Err(e),
    }
}

/// Credits a recorded withdrawal to its receiver (see `withdraw_history_spec`);
/// the event names the ticker and the amount credited.
pub fn process_withdraw_history(
    context: &mut SwapState,
    chain: &Chain,
    history: &WithdrawHistory,
) -> (r: Result<UnisatSwapEvent, ExecutionError>)
    requires
        old(context).wf(),
    ensures
        final(context).wf(),
        outcome_is(
            withdraw_history_spec(old(context)@, *chain, history.from@, history.to@, history.data.tick@,
                history.data.readable_amount@),
            final(context)@,
            unit_result(r),
        ),
        r matches Ok(ev) ==> ev.tick@ == history.data.tick@ && ev.amount as int == fixed_parse(
            encode_utf8(history.data.readable_amount@),
            old(context)@.ticker_infos[tkey(history.data.tick@)].decimals as nat,
        ).unwrap(),
{
    let ghost s0 = context@;
    if UtxoAddress::from_str(history.from.as_str(), chain).is_err() {
        return Err(failed(BRC20Error::InvalidAddress));
    }
    let to_address = match UtxoAddress::from_str(history.to.as_str(), chain) {
        Ok(a) => a,
        Err(_) => return Err(failed(BRC20Error::InvalidAddress)),
    };
    let ticker = match BRC20Ticker::from_str(history.data.tick.as_str()) {
        Ok(t) => t,
        Err(e) => return Err(failed(BRC20Error::TickerParse(e))),
    };
    let info = match context.load_brc20_ticker_info(&ticker) {
        Some(i) => i,
        None => return Err(failed(BRC20Error::TickerNotFound(history.data.tick.clone()))),
    };
    let amount = match parse_fixed(history.data.readable_amount.as_str(), info.decimals) {
        Ok(a) => a,
        Err(e) => return Err(failed(BRC20Error::NumericError(e))),
    };
    let v = match amount.try_to_u128() {
        Some(v) => v,
        None => return Err(unexpected()),
    };
    let mut balance = match context.load_brc20_balance(&to_address, &ticker) {
        Some(b) => b,
        None => BRC20Balance::new_with_ticker(&ticker),
    };
    let total = match balance.total.checked_add(v) {
        Some(t) => t,
        None => return Err(unexpected()),
    };
    balance.total = total;
    context.update_brc20_balance(&to_address, &ticker, balance);
    assert(context@ == withdraw_history_spec(s0, *chain, history.from@, history.to@, history.data.tick@,
        history.data.readable_amount@).0);
    Ok(UnisatSwapEvent { tick: ticker, amount: v })
}

} // verus!
