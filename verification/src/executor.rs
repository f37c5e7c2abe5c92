//! Executing one inscription's operation against the state: creating a swap
//! module, inscribing and moving withdrawals, and inscribing transfers.

use vstd::prelude::*;
use vstd::utf8::encode_utf8;
use vstd::string::StrSliceExecFns;
use crate::address::{
    UtxoAddress, OwnerView, InscriptionId, SatPoint, AddressError, address_parse, hex_lower, script_to_hex,
    inscription_id_text, satpoint_text, is_op_return, owner_op_return,
};
use crate::amount::{add_at, sub_at, mantissa_u128, fixed_parse, parse_fixed, checked_add, checked_sub, checked_mantissa, constant};
use crate::chain::Chain;
use crate::decimal::{Brc20Decimal, dec_less, format_decimal};
use crate::entry::{
    BRC20Receipt, ReceiptView, BRC20ModuleInfo, ModuleInfoView, BRC20ModuleTokenBalance, TokenBalanceView,
    BRC20Balance, BalanceView, BRC20TickerInfo, TickerInfoView, BRC20TransferAsset, TransferAssetView,
    empty_token_balance,
};
use crate::error::{BRC20Error, ErrorView, ExecutionError, ExecView};
use crate::event::{
    BRC20Event, BRC20OpType, EventView, CreateModuleEvent, CreateModuleInitFields, InscribeWithdrawEvent,
    TransferWithdrawEvent, InscribeTransferEvent,
};
use crate::operation::{BRC20Operation, Withdraw, Init, CreateModule};
use crate::params::{failed, unexpected, scaled_amount, text_is};
use crate::state::{SwapState, StateView, tkey};
use crate::ticker::{BRC20Ticker, ticker_check, ticker_error_text, unicode_lowercase, str_to_lowercase, TICKER_MIN_SIZE, TICKER_MAX_SIZE};
use crate::utils::{get_valid_unique_lower_ticker, lower_ticker_table_safe, table_safe, unique_lower, is_module_script, module_of_script, get_module_from_script};
use crate::verify::{check_ticker_verify, ticker_verify};

verus! {

/// One inscription's operation, with where it was and where it went.
#[derive(Debug)]
pub struct BRC20ExecutionMessage {
    pub txid: [u8; 32],
    pub inscription_id: InscriptionId,
    pub sequence_number: u32,
    pub inscription_number: i32,
    pub old_satpoint: SatPoint,
    pub new_satpoint: SatPoint,
    pub sender: UtxoAddress,
    pub receiver: Option<UtxoAddress>,
    pub operation: BRC20Operation,
}

/// What executing an operation leaves: the state, and the receipt or why it
/// stopped.
pub type ExecOutcome = (StateView, Result<ReceiptView, ExecView>);

/// The operation was refused; the state is `s`.
pub open spec fn refuse(s: StateView, e: ErrorView) -> ExecOutcome {
    (s, Err(ExecView::Failed(e)))
}

/// The rules cannot go on from here (the indexer halts); the state is `s`.
pub open spec fn stop(s: StateView) -> ExecOutcome {
    (s, Err(ExecView::Unexpected))
}

/// `r` and `s` are what the outcome `o` says.
pub open spec fn exec_is(o: ExecOutcome, s: StateView, r: Result<BRC20Receipt, ExecutionError>) -> bool {
    &&& s == o.0
    &&& match o.1 {
        Ok(v) => r matches Ok(x) && x@ == v,
        Err(e) => r matches Err(x) && x@ == e,
    }
}

/// The owner an operation went to: its receiver, or its sender when it has none.
pub open spec fn receiver_or_sender(m: BRC20ExecutionMessage) -> OwnerView {
    match m.receiver {
        Some(r) => r@,
        None => m.sender@,
    }
}

/// A successful receipt of a message.
pub open spec fn receipt_of(
    m: BRC20ExecutionMessage,
    op_type: BRC20OpType,
    inscription_number: i32,
    sender: OwnerView,
    receiver: OwnerView,
    event: EventView,
) -> ReceiptView {
    ReceiptView {
        inscription_id: m.inscription_id,
        sequence_number: m.sequence_number,
        inscription_number,
        old_satpoint: m.old_satpoint,
        new_satpoint: m.new_satpoint,
        op_type,
        sender,
        receiver,
        result: Ok(event),
    }
}

/// The text of an inscription id.
pub open spec fn id_text(id: InscriptionId) -> Seq<char> {
    inscription_id_text(id.txid@, id.index)
}

/// What creating a swap module does: the module's source must be the one this
/// index follows; no module may exist under the inscription's id; the swap fee
/// rate (`0` when empty) is read at 3 places and must not be negative; the gas
/// ticker must be given (an invalid name halts the rules) and deployed; the
/// sequencer, gas and fee addresses must be given and be addresses of the
/// chain. The module records the hex of their output scripts and of the
/// deployer's, the fee rate and the gas ticker, with no commit yet.
pub open spec fn create_module_spec(
    s: StateView,
    m: BRC20ExecutionMessage,
    inscription_id: InscriptionId,
    chain: Chain,
    source: Seq<char>,
) -> ExecOutcome {
    match m.operation {
        BRC20Operation::CreateModule(c) => {
            let id = id_text(inscription_id);
            let rate = if c.init.swap_fee_rate@.len() == 0 { "0"@ } else { c.init.swap_fee_rate@ };
            if source != c.source@ {
                refuse(s, ErrorView::ModuleSourceNotMatch(c.source@))
            } else if s.module_infos.contains_key(id) {
                refuse(s, ErrorView::ModuleAlreadyExists(id))
            } else {
                match scaled_amount(rate, 3) {
                    None => refuse(s, ErrorView::InvalidSwapFeeRate(rate)),
                    Some(fv) => if fv < 0 {
                        refuse(s, ErrorView::InvalidSwapFeeRate(rate))
                    } else if c.init.gas_tick@.len() == 0 {
                        refuse(s, ErrorView::InvalidGasTick("empty gas tick"@))
                    } else if ticker_check(encode_utf8(c.init.gas_tick@)) is Err {
                        stop(s)
                    } else if ticker_verify(s, c.init.gas_tick@, Seq::empty()) is Err {
                        refuse(s, ErrorView::InvalidGasTick(c.init.gas_tick@))
                    } else {
                        match init_scripts(c.init, chain) {
                            Err(e) => refuse(s, e),
                            Ok((sq, gt, ft)) => {
                                let info = ModuleInfoView {
                                    id,
                                    name: c.name@,
                                    deployer_pk_script: hex_lower(m.sender.script()),
                                    sequencer_pk_script: hex_lower(sq),
                                    gas_to_pk_script: hex_lower(gt),
                                    lp_fee_pk_script: hex_lower(ft),
                                    fee_rate_swap: (fv, 3),
                                    gas_tick: c.init.gas_tick@,
                                    chain_commit_id: None,
                                    commit_id: None,
                                };
                                (
                                    StateView { module_infos: s.module_infos.insert(id, info), ..s },
                                    Ok(receipt_of(m, BRC20OpType::CreateModule, m.inscription_number, m.sender@,
                                        receiver_or_sender(m), create_event(c))),
                                )
                            },
                        }
                    },
                }
            }
        },
        _ => stop(s),
    }
}

/// The output scripts of a new module's sequencer, gas and fee addresses, in
/// that order: each must be given and be an address of the chain.
pub open spec fn init_scripts(init: Init, chain: Chain) -> Result<(Seq<u8>, Seq<u8>, Seq<u8>), ErrorView> {
    if init.sequencer@.len() == 0 {
        Err(ErrorView::InvalidSequencer("empty sequencer"@))
    } else {
        match address_parse(init.sequencer@, chain) {
            Err(msg) => Err(ErrorView::InvalidSequencer(msg)),
            Ok(sq) => if init.gas_to@.len() == 0 {
                Err(ErrorView::InvalidGasTo("empty gas to"@))
            } else {
                match address_parse(init.gas_to@, chain) {
                    Err(msg) => Err(ErrorView::InvalidGasTo(msg)),
                    Ok(gt) => if init.fee_to@.len() == 0 {
                        Err(ErrorView::InvalidFeeTo("empty fee to"@))
                    } else {
                        match address_parse(init.fee_to@, chain) {
                            Err(msg) => Err(ErrorView::InvalidFeeTo(msg)),
                            Ok(ft) => Ok((sq.1, gt.1, ft.1)),
                        }
                    },
                }
            },
        }
    }
}

/// The event of a created module.
pub open spec fn create_event(c: CreateModule) -> EventView {
    EventView::CreateModule {
        name: c.name@,
        source: c.source@,
        swap_fee_rate: c.init.swap_fee_rate@,
        gas_tick: c.init.gas_tick@,
        gas_to: c.init.gas_to@,
        fee_to: c.init.fee_to@,
        sequencer: c.init.sequencer@,
    }
}

/// The lowercase unique ticker of a withdrawal: `Err(None)` where the rules
/// halt (the text cannot be looked up in the alphabet, or is not a unique
/// ticker), `Err(Some(e))` when the lowercased text is not a ticker name.
pub open spec fn withdraw_ticker(t: Seq<char>) -> Result<Seq<char>, Option<crate::ticker::Error>> {
    let n = encode_utf8(t).len();
    if TICKER_MIN_SIZE <= n <= TICKER_MAX_SIZE && !table_safe(t) {
        Err(None)
    } else {
        match unique_lower(t) {
            Err(_) => Err(None),
            Ok(lower) => match ticker_check(encode_utf8(lower)) {
                Err(e) => Err(Some(e)),
                Ok(_) => Ok(lower),
            },
        }
    }
}

/// What inscribing a withdrawal does: it needs a receiver; the module id must
/// be in lowercase and the module exist; the ticker is checked as a unique
/// ticker and lowercased, and must be deployed; the amount is read at its
/// decimal places and must be between zero and the total supply. The
/// withdrawal is kept at its new location and the receiver's pending
/// withdrawal in the module (empty balances if absent) grows by the amount.
pub open spec fn inscribe_withdraw_spec(s: StateView, m: BRC20ExecutionMessage) -> ExecOutcome {
    match m.operation {
        BRC20Operation::Withdraw(w) => match m.receiver {
            None => refuse(s, ErrorView::InvalidAddress),
            Some(addr) => if unicode_lowercase(w.module@) != w.module@ {
                refuse(s, ErrorView::ModuleIDInvalid(w.module@))
            } else if !s.module_infos.contains_key(w.module@) {
                refuse(s, ErrorView::ModuleNotExists(w.module@))
            } else {
                let mi = s.module_infos[w.module@];
                match withdraw_ticker(w.tick@) {
                    Err(None) => stop(s),
                    Err(Some(e)) => refuse(s, ErrorView::TickerInvalid(ticker_error_text(e))),
                    Ok(lower) => if !s.ticker_infos.contains_key(tkey(lower)) {
                        refuse(s, ErrorView::TickerNotFound(lower))
                    } else {
                        let info = s.ticker_infos[tkey(lower)];
                        let dec = info.decimals as int;
                        match scaled_amount(w.amt@, dec as nat) {
                            None => refuse(s, ErrorView::InvalidAmountFormat(w.amt@)),
                            Some(v) => if v < 0 || v > info.total_supply {
                                refuse(s, ErrorView::InvalidWithdrawAmount((v, dec)))
                            } else {
                                let k = (addr@, mi.id, tkey(lower));
                                let b = if s.module_balances.contains_key(k) { s.module_balances[k] } else { empty_token_balance(dec) };
                                match add_at(b.pending, (v, dec)) {
                                    None => stop(s),
                                    Some(np) => (
                                        StateView {
                                            withdraws: s.withdraws.insert(m.new_satpoint, w@),
                                            module_balances: s.module_balances.insert(k, TokenBalanceView { pending: np, ..b }),
                                            ..s
                                        },
                                        Ok(receipt_of(m, BRC20OpType::Withdraw, 0, m.sender@, addr@, EventView::InscribeWithdraw {
                                            ticker: lower,
                                            amount: format_decimal((v, dec)),
                                            module: mi.id,
                                        })),
                                    ),
                                }
                            },
                        }
                    },
                }
            },
        },
        _ => stop(s),
    }
}

/// What moving an inscribed withdrawal does: a withdrawal must be kept at the
/// inscription's old location, and is forgotten; the ticker is checked as when
/// inscribed and must be deployed; the amount is read at its decimal places;
/// the sender's module balances must exist. The pending withdrawal goes down
/// by the amount (written at once); the available balance must cover it and
/// goes down by it; the receiver's (or sender's) balance of the ticker grows
/// by the amount's mantissa, and when that owner's script is `OP_RETURN` the
/// ticker's burned amount grows by it too.
pub open spec fn transfer_withdraw_spec(s: StateView, m: BRC20ExecutionMessage) -> ExecOutcome {
    match m.operation {
        BRC20Operation::TransferWithdraw(w) => if !s.withdraws.contains_key(m.old_satpoint) {
            refuse(s, ErrorView::InscribeWithdrawNotFound(satpoint_text(m.old_satpoint)))
        } else {
            let s1 = StateView { withdraws: s.withdraws.remove(m.old_satpoint), ..s };
            match withdraw_ticker(w.tick@) {
                Err(None) => stop(s1),
                Err(Some(e)) => refuse(s1, ErrorView::TickerInvalid(ticker_error_text(e))),
                Ok(lower) => if !s1.ticker_infos.contains_key(tkey(lower)) {
                    refuse(s1, ErrorView::TickerNotFound(lower))
                } else {
                    let info = s1.ticker_infos[tkey(lower)];
                    let dec = info.decimals as int;
                    match scaled_amount(w.amt@, dec as nat) {
                        None => refuse(s1, ErrorView::InvalidAmountFormat(w.amt@)),
                        Some(v) => {
                            let amount = (v, dec);
                            let k = (m.sender@, w.module@, tkey(lower));
                            if !s1.module_balances.contains_key(k) {
                                refuse(s1, ErrorView::ModuleBalanceNotExists(w.module@, lower))
                            } else {
                                let b = s1.module_balances[k];
                                match sub_at(b.pending, amount) {
                                    None => stop(s1),
                                    Some(np) => {
                                        let b1 = TokenBalanceView { pending: np, ..b };
                                        let s2 = StateView { module_balances: s1.module_balances.insert(k, b1), ..s1 };
                                        if dec_less(b1.available, amount) {
                                            refuse(s2, ErrorView::InsufficientWithdrawAmount(amount, b1.available))
                                        } else {
                                            match sub_at(b1.available, amount) {
                                                None => stop(s2),
                                                Some(na) => {
                                                    let s3 = StateView {
                                                        module_balances: s2.module_balances.insert(k, TokenBalanceView { available: na, ..b1 }),
                                                        ..s2
                                                    };
                                                    transfer_withdraw_credit(s3, m, w, lower, amount)
                                                },
                                            }
                                        }
                                    },
                                }
                            }
                        },
                    }
                },
            }
        },
        _ => stop(s),
    }
}

/// The owner that receives a withdrawal: the receiver, or the sender.
pub open spec fn recipient(m: BRC20ExecutionMessage) -> UtxoAddress {
    match m.receiver {
        Some(r) => r,
        None => m.sender,
    }
}

/// The credit of a moved withdrawal to its recipient (see `transfer_withdraw_spec`).
pub open spec fn transfer_withdraw_credit(
    s3: StateView,
    m: BRC20ExecutionMessage,
    w: Withdraw,
    lower: Seq<char>,
    amount: (int, int),
) -> ExecOutcome {
    let recv = recipient(m);
    let bk = (recv@, tkey(lower));
    let rb = if s3.balances.contains_key(bk) { s3.balances[bk] } else { BalanceView { ticker: lower, total: 0, available: 0 } };
    match mantissa_u128(amount) {
        None => stop(s3),
        Some(av) => if rb.total + av > u128::MAX || rb.available + av > u128::MAX {
            stop(s3)
        } else {
            let s4 = StateView {
                balances: s3.balances.insert(bk, BalanceView {
                    ticker: rb.ticker,
                    total: (rb.total + av) as u128,
                    available: (rb.available + av) as u128,
                }),
                ..s3
            };
            let receipt = receipt_of(m, BRC20OpType::TransferWithdraw, 0, m.sender@, recv@, EventView::TransferWithdraw {
                ticker: lower,
                amount: format_decimal(amount),
                module: w.module@,
            });
            if is_op_return(recv.script()) {
                let info = s4.ticker_infos[tkey(lower)];
                if info.burned + av > u128::MAX {
                    stop(s4)
                } else {
                    (
                        StateView {
                            ticker_infos: s4.ticker_infos.insert(tkey(lower), TickerInfoView { burned: (info.burned + av) as u128, ..info }),
                            ..s4
                        },
                        Ok(receipt),
                    )
                }
            } else {
                (s4, Ok(receipt))
            }
        },
    }
}

/// What inscribing a transfer does: the ticker must be a valid name and
/// deployed (the stored name is used from then on); the amount is read as
/// fixed-point text at its decimal places and must be positive and at most the
/// total supply; the operation needs a receiver. The sender is the signer when
/// there is one different from the receiver (then the receiver's balance is
/// credited), else the receiver. The sender's available balance must cover
/// the amount and goes down by it; with a distinct signer its total goes down,
/// the receiver's total goes up (written at once), the ticker's burned amount
/// goes up when the receiver's script is `OP_RETURN`, and when the receiver's
/// script names a deployed module the signer's swap balance there goes up.
/// The sender's balance is written, and the transfer is kept at its new
/// location for the receiver.
pub open spec fn inscribe_transfer_spec(s: StateView, m: BRC20ExecutionMessage, chain: Chain) -> ExecOutcome {
    match m.operation {
        BRC20Operation::InscribeTransfer { signer, transfer } => match ticker_check(encode_utf8(transfer.tick@)) {
            Err(e) => refuse(s, ErrorView::TickerParse(e)),
            Ok(_) => if !s.ticker_infos.contains_key(tkey(transfer.tick@)) {
                refuse(s, ErrorView::TickerNotFound(transfer.tick@))
            } else {
                let info = s.ticker_infos[tkey(transfer.tick@)];
                let dec = info.decimals as int;
                match fixed_parse(encode_utf8(transfer.amount@), dec as nat) {
                    None => refuse(s, ErrorView::NumericError),
                    Some(v) => if v == 0 || v > info.total_supply {
                        refuse(s, ErrorView::InvalidAmount((v, dec)))
                    } else {
                        match m.receiver {
                            None => stop(s),
                            Some(receiver) => inscribe_transfer_move(s, m, signer, receiver, info, v as u128),
                        }
                    },
                }
            },
        },
        _ => stop(s),
    }
}

/// The balance of an owner's ticker, or an empty one.
pub open spec fn balance_or_empty(s: StateView, owner: OwnerView, ticker: Seq<char>) -> BalanceView {
    let k = (owner, tkey(ticker));
    if s.balances.contains_key(k) { s.balances[k] } else { BalanceView { ticker, total: 0, available: 0 } }
}

/// The credit of an inscribed transfer signed by another owner: the signer's
/// total goes down and the receiver's up (written at once); the ticker's
/// burned amount goes up when the receiver is an `OP_RETURN` script; when the
/// receiver's script names a deployed module the signer's swap balance there
/// (empty at the ticker's places if absent) goes up. `Err` holds the state
/// where the rules halt; `Ok` the state and the signer's new total.
pub open spec fn signed_credit(
    s: StateView,
    sender: UtxoAddress,
    receiver: UtxoAddress,
    info: TickerInfoView,
    sb: BalanceView,
    amount: u128,
) -> Result<(StateView, int), StateView> {
    let ticker = info.ticker;
    let tk = tkey(ticker);
    let dec = info.decimals as int;
    let rb = balance_or_empty(s, receiver@, ticker);
    if sb.total < amount || rb.total + amount > u128::MAX {
        Err(s)
    } else {
        let s1 = StateView {
            balances: s.balances.insert((receiver@, tk), BalanceView { total: (rb.total + amount) as u128, ..rb }),
            ..s
        };
        let burned: Result<StateView, StateView> = if owner_op_return(receiver@) {
            if info.burned + amount > u128::MAX {
                Err(s1)
            } else {
                Ok(StateView {
                    ticker_infos: s1.ticker_infos.insert(tk, TickerInfoView { burned: (info.burned + amount) as u128, ..info }),
                    ..s1
                })
            }
        } else {
            Ok(s1)
        };
        match burned {
            Err(h) => Err(h),
            Ok(s2) => {
                let script = receiver.script();
                if is_module_script(script) && s2.module_infos.contains_key(module_of_script(script)) {
                    let mk = (sender@, module_of_script(script), tk);
                    let mb = if s2.module_balances.contains_key(mk) { s2.module_balances[mk] } else { empty_token_balance(dec) };
                    match add_at(mb.swap, (amount as int, dec)) {
                        None => Err(s2),
                        Some(ns) => Ok((StateView {
                            module_balances: s2.module_balances.insert(mk, TokenBalanceView { swap: ns, ..mb }),
                            ..s2
                        }, sb.total - amount)),
                    }
                } else {
                    Ok((s2, sb.total - amount))
                }
            },
        }
    }
}

/// The moves of an inscribed transfer (see `inscribe_transfer_spec`).
pub open spec fn inscribe_transfer_move(
    s: StateView,
    m: BRC20ExecutionMessage,
    signer: Option<UtxoAddress>,
    receiver: UtxoAddress,
    info: TickerInfoView,
    amount: u128,
) -> ExecOutcome {
    let ticker = info.ticker;
    let tk = tkey(ticker);
    let dec = info.decimals as int;
    let separate = signer matches Some(sig) && sig@ != receiver@;
    let sender = if separate { signer.unwrap() } else { receiver };
    let legacy = match signer {
        Some(sig) => sig@,
        None => m.sender@,
    };
    let sb = balance_or_empty(s, sender@, ticker);
    if sb.available < amount {
        refuse(s, ErrorView::InsufficientBalance((sb.available as int, dec), (amount as int, dec)))
    } else {
        let credited: Result<(StateView, int), StateView> = if separate {
            signed_credit(s, sender, receiver, info, sb, amount)
        } else {
            Ok((s, sb.total as int))
        };
        match credited {
            Err(h) => stop(h),
            Ok((s3, total)) => {
                let s4 = StateView {
                    balances: s3.balances.insert((sender@, tk), BalanceView {
                        ticker: sb.ticker,
                        total: total as u128,
                        available: (sb.available - amount) as u128,
                    }),
                    ..s3
                };
                let asset = TransferAssetView {
                    ticker,
                    amount,
                    owner: receiver@,
                    sequence_number: m.sequence_number,
                    inscription_number: 0,
                    inscription_id: m.inscription_id,
                };
                (
                    StateView {
                        transfer_assets: s4.transfer_assets.insert(m.new_satpoint, asset),
                        asset_index: s4.asset_index.insert((receiver@, tk, m.new_satpoint), ()),
                        ..s4
                    },
                    Ok(receipt_of(m, BRC20OpType::InscribeTransfer, 0, legacy, receiver@, EventView::InscribeTransfer {
                        ticker,
                        amount,
                    })),
                )
            },
        }
    }
}

/// The hex of the output scripts of a new module's addresses (see `init_scripts`).
fn init_scripts_exec(init: &Init, chain: &Chain) -> (r: Result<(String, String, String), ExecutionError>)
    ensures
        match init_scripts(*init, *chain) {
            Ok((a, b, c)) => r matches Ok(x) && x.0@ == hex_lower(a) && x.1@ == hex_lower(b) && x.2@ == hex_lower(c),
            Err(e) => r matches Err(x) && x@ == ExecView::Failed(e),
        },
{
    if init.sequencer.as_str().unicode_len() == 0 {
        return Err(failed(BRC20Error::InvalidSequencer("empty sequencer".to_owned())));
    }
    let sq = match UtxoAddress::get_script_by_str(init.sequencer.as_str(), chain) {
        Ok(b) => script_to_hex(b.as_slice()),
        Err(AddressError::Invalid(m)) => return Err(failed(BRC20Error::InvalidSequencer(m))),
    };
    if init.gas_to.as_str().unicode_len() == 0 {
        return Err(failed(BRC20Error::InvalidGasTo("empty gas to".to_owned())));
    }
    let gt = match UtxoAddress::get_script_by_str(init.gas_to.as_str(), chain) {
        Ok(b) => script_to_hex(b.as_slice()),
        Err(AddressError::Invalid(m)) => return Err(failed(BRC20Error::InvalidGasTo(m))),
    };
    if init.fee_to.as_str().unicode_len() == 0 {
        return Err(failed(BRC20Error::InvalidFeeTo("empty fee to".to_owned())));
    }
    let ft = match UtxoAddress::get_script_by_str(init.fee_to.as_str(), chain) {
        Ok(b) => script_to_hex(b.as_slice()),
        Err(AddressError::Invalid(m)) => return Err(failed(BRC20Error::InvalidFeeTo(m))),
    };
    Ok((sq, gt, ft))
}

/// The lowercase unique ticker of a withdrawal (see `withdraw_ticker`).
fn withdraw_ticker_exec(t: &String) -> (r: Result<BRC20Ticker, ExecutionError>)
    ensures
        match withdraw_ticker(t@) {
            Err(None) => r matches Err(e) && e@ == ExecView::Unexpected,
            Err(Some(e)) => r matches Err(x) && x@ == ExecView::Failed(ErrorView::TickerInvalid(ticker_error_text(e))),
            Ok(lower) => r matches Ok(k) && k@ == lower,
        },
{
    let n = t.as_str().as_bytes().len();
    if TICKER_MIN_SIZE <= n && n <= TICKER_MAX_SIZE && !lower_ticker_table_safe(t.as_str()) {
        return Err(unexpected());
    }
    let lower = match get_valid_unique_lower_ticker(t.as_str()) {
        Ok(l) => l,
        Err(_) => return Err(unexpected()),
    };
    match BRC20Ticker::from_str(lower.as_str()) {
        Ok(k) => Ok(k),
        Err(e) => Err(failed(BRC20Error::TickerInvalid(e.to_string()))),
    }
}

/// The credit of an inscribed transfer signed by another owner (see
/// `signed_credit`): the signer's new total.
fn signed_credit_exec(
    context: &mut SwapState,
    chain: &Chain,
    sender: &UtxoAddress,
    receiver: &UtxoAddress,
    info: &BRC20TickerInfo,
    sb: &BRC20Balance,
    amount: u128,
) -> (r: Result<u128, ExecutionError>)
    requires
        old(context).wf(),
        info.decimals <= 18,
    ensures
        final(context).wf(),
        match signed_credit(old(context)@, *sender, *receiver, info@, sb@, amount) {
            Err(h) => final(context)@ == h && (r matches Err(e) && e@ == ExecView::Unexpected),
            Ok((st, t)) => final(context)@ == st && r == Ok::<u128, ExecutionError>(t as u128),
        },
{
    let rb = match context.load_brc20_balance(receiver, &info.ticker) {
        Some(b) => b,
        None => BRC20Balance::new_with_ticker(&info.ticker),
    };
    if sb.total < amount {
        return Err(unexpected());
    }
    let nrt = match rb.total.checked_add(amount) {
        Some(v) => v,
        None => return Err(unexpected()),
    };
    context.update_brc20_balance(receiver, &info.ticker, BRC20Balance { ticker: rb.ticker, total: nrt, available: rb.available });
    if receiver.op_return() {
        let nb = match info.burned.checked_add(amount) {
            Some(v) => v,
            None => return Err(unexpected()),
        };
        let mut updated = info.copy();
        updated.burned = nb;
        context.update_brc20_ticker_info(&info.ticker, updated);
    }
    let script = receiver.to_script(chain);
    match get_module_from_script(script.as_slice()) {
        Ok(mid) => {
            if context.is_module_already_deployed(&mid) {
                let mb = match context.load_brc20_module_address_token_balance(sender, &mid, &info.ticker) {
                    Some(b) => b,
                    None => BRC20ModuleTokenBalance::new_with_scale(info.decimals),
                };
                let ns = match checked_add(&mb.swap_account_balance, &constant(amount, info.decimals)) {
                    Ok(d) => d,
                    Err(e) => return Err(e),
                };
                context.update_brc20_module_address_token_balance(
                    sender,
                    &mid,
                    &info.ticker,
                    BRC20ModuleTokenBalance {
                        swap_account_balance: ns,
                        available_balance: mb.available_balance,
                        pending_withdrawal_amount: mb.pending_withdrawal_amount,
                    },
                );
            }
        },
        Err(_) => {},
    }
    Ok(sb.total - amount)
}

impl BRC20ExecutionMessage {
    /// A successful receipt of this message.
    pub(crate) fn receipt(&self, op_type: BRC20OpType, inscription_number: i32, sender: UtxoAddress, receiver: UtxoAddress, event: BRC20Event) -> (r: BRC20Receipt)
        ensures
            r@ == receipt_of(*self, op_type, inscription_number, sender@, receiver@, event@),
    {
        BRC20Receipt {
            inscription_id: self.inscription_id,
            sequence_number: self.sequence_number,
            inscription_number,
            old_satpoint: self.old_satpoint,
            new_satpoint: self.new_satpoint,
            op_type,
            sender,
            receiver,
            result: Ok(event),
        }
    }

    /// The receiver, or the sender when there is none.
    pub(crate) fn recipient_exec(&self) -> (r: UtxoAddress)
        ensures
            r@ == recipient(*self)@,
            r.script() == recipient(*self).script(),
            r@ == receiver_or_sender(*self),
    {
        match &self.receiver {
            Some(a) => a.copy(),
            None => self.sender.copy(),
        }
    }

    /// Creates a swap module (see `create_module_spec`).
    #[verifier::rlimit(80)]
    #[verifier::spinoff_prover]
    pub fn execute_create_module(
        &self,
        inscription_id: &InscriptionId,
        chain: &Chain,
        swap_source: &String,
        context: &mut SwapState,
    ) -> (r: Result<BRC20Receipt, ExecutionError>)
        requires
            old(context).wf(),
        ensures
            final(context).wf(),
            exec_is(create_module_spec(old(context)@, *self, *inscription_id, *chain, swap_source@), final(context)@, r),
    {
        let c = match &self.operation {
            BRC20Operation::CreateModule(c) => c,
            _ => return Err(unexpected()),
        };
        if !(*swap_source == c.source) {
            return Err(failed(BRC20Error::ModuleSourceNotMatch(c.source.clone())));
        }
        let id = inscription_id.to_string();
        if context.is_module_already_deployed(&id) {
            return Err(failed(BRC20Error::ModuleAlreadyExists(id)));
        }
        let rate: String = if c.init.swap_fee_rate.as_str().unicode_len() == 0 {
            "0".to_owned()
        } else {
            c.init.swap_fee_rate.clone()
        };
        let fee = match Brc20Decimal::from_str_with_scale(rate.as_str(), 3) {
            Ok(d) => d,
            Err(_) => return Err(failed(BRC20Error::InvalidSwapFeeRate(rate))),
        };
        if fee.sign() < 0 {
            return Err(failed(BRC20Error::InvalidSwapFeeRate(rate)));
        }
        if c.init.gas_tick.as_str().unicode_len() == 0 {
            return Err(failed(BRC20Error::InvalidGasTick("empty gas tick".to_owned())));
        }
        let gas_ticker = match BRC20Ticker::from_str(c.init.gas_tick.as_str()) {
            Ok(t) => t,
            Err(_) => return Err(unexpected()),
        };
        if check_ticker_verify(context, &gas_ticker, &String::new()).is_err() {
            return Err(failed(BRC20Error::InvalidGasTick(c.init.gas_tick.clone())));
        }
        let (sequencer_pk_script, gas_to_pk_script, fee_to_pk_script) = match init_scripts_exec(&c.init, chain) {
            Ok(v) => v,
            Err(e) => return Err(e),
        };
        let deployer_pk_script = script_to_hex(self.sender.to_script(chain).as_slice());
        let info = BRC20ModuleInfo {
            id: id.clone(),
            name: c.name.clone(),
            deployer_pk_script,
            sequencer_pk_script,
            gas_to_pk_script,
            lp_fee_pk_script: fee_to_pk_script,
            fee_rate_swap: fee,
            gas_tick: c.init.gas_tick.clone(),
            chain_commit_id: None,
            commit_id: None,
        };
        context.insert_brc20_module_info(&id, info);
        let event = BRC20Event::CreateModule(CreateModuleEvent {
            name: c.name.clone(),
            source: c.source.clone(),
            init: CreateModuleInitFields {
                swap_fee_rate: c.init.swap_fee_rate.clone(),
                gas_tick: c.init.gas_tick.clone(),
                gas_to: c.init.gas_to.clone(),
                fee_to: c.init.fee_to.clone(),
                sequencer: c.init.sequencer.clone(),
            },
        });
        Ok(self.receipt(BRC20OpType::CreateModule, self.inscription_number, self.sender.copy(), self.recipient_exec(), event))
    }

    /// Inscribes a withdrawal from a module (see `inscribe_withdraw_spec`).
    #[verifier::rlimit(80)]
    #[verifier::spinoff_prover]
    pub fn execute_inscribe_withdraw(&self, context: &mut SwapState) -> (r: Result<BRC20Receipt, ExecutionError>)
        requires
            old(context).wf(),
        ensures
            final(context).wf(),
            exec_is(inscribe_withdraw_spec(old(context)@, *self), final(context)@, r),
    {
        let w = match &self.operation {
            BRC20Operation::Withdraw(w) => w,
            _ => return Err(unexpected()),
        };
        let addr = match &self.receiver {
            Some(a) => a,
            None => return Err(failed(BRC20Error::InvalidAddress)),
        };
        let lowered = str_to_lowercase(w.module.as_str());
        if !(lowered == w.module) {
            return Err(failed(BRC20Error::ModuleIDInvalid(w.module.clone())));
        }
        let mi = match context.load_brc20_module_info(&w.module) {
            Some(m) => m,
            None => return Err(failed(BRC20Error::ModuleNotExists(w.module.clone()))),
        };
        let lower = match withdraw_ticker_exec(&w.tick) {
            Ok(t) => t,
            Err(e) => return Err(e),
        };
        let info = match context.load_brc20_ticker_info(&lower) {
            Some(i) => i,
            None => return Err(failed(BRC20Error::TickerNotFound(lower.to_string()))),
        };
        let amount = match Brc20Decimal::from_str_with_scale(w.amt.as_str(), info.decimals) {
            Ok(d) => d,
            Err(_) => return Err(failed(BRC20Error::InvalidAmountFormat(w.amt.clone()))),
        };
        let total = constant(info.total_supply, info.decimals);
        proof {
            crate::verify::lemma_less_same_scale(total@, amount@);
        }
        if amount.sign() < 0 || total.lt(&amount) {
            return Err(failed(BRC20Error::InvalidWithdrawAmount(amount)));
        }
        let b = match context.load_brc20_module_address_token_balance(addr, &mi.id, &lower) {
            Some(b) => b,
            None => BRC20ModuleTokenBalance::new_with_scale(info.decimals),
        };
        let np = match checked_add(&b.pending_withdrawal_amount, &amount) {
            Ok(d) => d,
            Err(e) => return Err(e),
        };
        context.insert_brc20_module_withdraw(self.new_satpoint, w.copy());
        context.update_brc20_module_address_token_balance(
            addr,
            &mi.id,
            &lower,
            BRC20ModuleTokenBalance {
                swap_account_balance: b.swap_account_balance,
                available_balance: b.available_balance,
                pending_withdrawal_amount: np,
            },
        );
        let event = BRC20Event::InscribeWithdraw(InscribeWithdrawEvent {
            ticker: lower,
            amount: amount.to_string(),
            module: mi.id.clone(),
        });
        Ok(self.receipt(BRC20OpType::Withdraw, 0, self.sender.copy(), addr.copy(), event))
    }

    /// Moves an inscribed withdrawal out of its module (see `transfer_withdraw_spec`).
    #[verifier::rlimit(80)]
    #[verifier::spinoff_prover]
    pub fn execute_transfer_withdraw(&self, chain: &Chain, context: &mut SwapState) -> (r: Result<BRC20Receipt, ExecutionError>)
        requires
            old(context).wf(),
        ensures
            final(context).wf(),
            exec_is(transfer_withdraw_spec(old(context)@, *self), final(context)@, r),
    {
        let w = match &self.operation {
            BRC20Operation::TransferWithdraw(w) => w,
            _ => return Err(unexpected()),
        };
        if context.load_brc20_module_inscribe_withdraw(self.old_satpoint).is_none() {
            return Err(failed(BRC20Error::InscribeWithdrawNotFound(self.old_satpoint.to_string())));
        }
        context.remove_brc20_module_inscribe_withdraw(self.old_satpoint);
        let lower = match withdraw_ticker_exec(&w.tick) {
            Ok(t) => t,
            Err(e) => return Err(e),
        };
        let info = match context.load_brc20_ticker_info(&lower) {
            Some(i) => i,
            None => return Err(failed(BRC20Error::TickerNotFound(lower.to_string()))),
        };
        let amount = match Brc20Decimal::from_str_with_scale(w.amt.as_str(), info.decimals) {
            Ok(d) => d,
            Err(_) => return Err(failed(BRC20Error::InvalidAmountFormat(w.amt.clone()))),
        };
        let b = match context.load_brc20_module_address_token_balance(&self.sender, &w.module, &lower) {
            Some(b) => b,
            None => return Err(failed(BRC20Error::ModuleBalanceNotExists(w.module.clone(), lower.to_string()))),
        };
        let np = match checked_sub(&b.pending_withdrawal_amount, &amount) {
            Ok(d) => d,
            Err(e) => return Err(e),
        };
        let b1 = BRC20ModuleTokenBalance {
            swap_account_balance: b.swap_account_balance,
            available_balance: b.available_balance,
            pending_withdrawal_amount: np,
        };
        context.update_brc20_module_address_token_balance(&self.sender, &w.module, &lower, b1.copy());
        if b1.available_balance.lt(&amount) {
            return Err(failed(BRC20Error::InsufficientWithdrawAmount(amount, b1.available_balance)));
        }
        let na = match checked_sub(&b1.available_balance, &amount) {
            Ok(d) => d,
            Err(e) => return Err(e),
        };
        context.update_brc20_module_address_token_balance(
            &self.sender,
            &w.module,
            &lower,
            BRC20ModuleTokenBalance {
                swap_account_balance: b1.swap_account_balance,
                available_balance: na,
                pending_withdrawal_amount: b1.pending_withdrawal_amount,
            },
        );
        let recv = self.recipient_exec();
        let rb = match context.load_brc20_balance(&recv, &lower) {
            Some(b) => b,
            None => BRC20Balance { ticker: lower.copy(), total: 0, available: 0 },
        };
        let av = match checked_mantissa(&amount) {
            Ok(v) => v,
            Err(e) => return Err(e),
        };
        let nt = match rb.total.checked_add(av) {
            Some(v) => v,
            None => return Err(unexpected()),
        };
        let nav = match rb.available.checked_add(av) {
            Some(v) => v,
            None => return Err(unexpected()),
        };
        context.update_brc20_balance(&recv, &lower, BRC20Balance { ticker: rb.ticker, total: nt, available: nav });
        let script = recv.to_script(chain);
        if script.len() > 0 && script[0] == 0x6a {
            let info2 = match context.load_brc20_ticker_info(&lower) {
                Some(i) => i,
                None => return Err(failed(BRC20Error::TickerNotFound(lower.to_string()))),
            };
            let nb = match info2.burned.checked_add(av) {
                Some(v) => v,
                None => return Err(unexpected()),
            };
            let mut updated = info2;
            updated.burned = nb;
            context.update_brc20_ticker_info(&lower, updated);
        }
        let event = BRC20Event::TransferWithdraw(TransferWithdrawEvent {
            ticker: lower,
            amount: amount.to_string(),
            module: w.module.clone(),
        });
        Ok(self.receipt(BRC20OpType::TransferWithdraw, 0, self.sender.copy(), recv, event))
    }

    /// Inscribes an amount of a ticker for transfer (see `inscribe_transfer_spec`).
    #[verifier::rlimit(80)]
    #[verifier::spinoff_prover]
    pub fn execute_inscribe_transfer(&self, chain: &Chain, context: &mut SwapState) -> (r: Result<BRC20Receipt, ExecutionError>)
        requires
            old(context).wf(),
        ensures
            final(context).wf(),
            exec_is(inscribe_transfer_spec(old(context)@, *self, *chain), final(context)@, r),
    {
        let (signer, transfer) = match &self.operation {
            BRC20Operation::InscribeTransfer { signer, transfer } => (signer, transfer),
            _ => return Err(unexpected()),
        };
        let named = match BRC20Ticker::from_str(transfer.tick.as_str()) {
            Ok(t) => t,
            Err(e) => return Err(failed(BRC20Error::TickerParse(e))),
        };
        let info = match context.load_brc20_ticker_info(&named) {
            Some(i) => i,
            None => return Err(failed(BRC20Error::TickerNotFound(transfer.tick.clone()))),
        };
        let amt = match parse_fixed(transfer.amount.as_str(), info.decimals) {
            Ok(d) => d,
            Err(e) => return Err(failed(BRC20Error::NumericError(e))),
        };
        let total = constant(info.total_supply, info.decimals);
        proof {
            crate::verify::lemma_less_same_scale(total@, amt@);
        }
        if amt.sign() == 0 || total.lt(&amt) {
            return Err(failed(BRC20Error::InvalidAmount(amt)));
        }
        let amount = match checked_mantissa(&amt) {
            Ok(v) => v,
            Err(e) => return Err(e),
        };
        let receiver = match &self.receiver {
            Some(r) => r,
            None => return Err(unexpected()),
        };
        let separate = match signer {
            Some(sig) => !sig.same(receiver),
            None => false,
        };
        let sender = if separate {
            match signer {
                Some(sig) => sig.copy(),
                None => receiver.copy(),
            }
        } else {
            receiver.copy()
        };
        let legacy = match signer {
            Some(sig) => sig.copy(),
            None => self.sender.copy(),
        };
        let sb = match context.load_brc20_balance(&sender, &info.ticker) {
            Some(b) => b,
            None => BRC20Balance::new_with_ticker(&info.ticker),
        };
        if sb.available < amount {
            return Err(failed(BRC20Error::InsufficientBalance(constant(sb.available, info.decimals), amt)));
        }
        let total_after = if separate {
            match signed_credit_exec(context, chain, &sender, receiver, &info, &sb, amount) {
                Ok(t) => t,
                Err(e) => return Err(e),
            }
        } else {
            sb.total
        };
        context.update_brc20_balance(
            &sender,
            &info.ticker,
            BRC20Balance { ticker: sb.ticker, total: total_after, available: sb.available - amount },
        );
        let asset = BRC20TransferAsset {
            ticker: info.ticker.copy(),
            amount,
            owner: receiver.copy(),
            sequence_number: self.sequence_number,
            inscription_number: 0,
            inscription_id: self.inscription_id,
        };
        context.insert_brc20_transferring_asset(receiver, &info.ticker, self.new_satpoint, asset);
        let event = BRC20Event::InscribeTransfer(InscribeTransferEvent { ticker: info.ticker.copy(), amount });
        Ok(self.receipt(BRC20OpType::InscribeTransfer, 0, legacy, receiver.copy(), event))
    }
}

/// A module that is created is new: its id is the creating inscription's,
/// which no module had before; the source matches; the new module records
/// its name, its creator as deployer, the hex of the scripts that the
/// sequencer, gas-to and fee-to addresses given parse to (each to its own
/// field), the swap fee rate given (0 when empty) at three
/// places, the gas ticker given, and no commits yet; nothing else in the
/// state changes; and creating it again is refused as already existing.
pub proof fn lemma_create_module_records(
    s: StateView,
    m: BRC20ExecutionMessage,
    inscription_id: InscriptionId,
    chain: Chain,
    source: Seq<char>,
)
    requires
        m.operation is CreateModule,
        create_module_spec(s, m, inscription_id, chain, source).1 is Ok,
    ensures
        ({
            let c = m.operation->CreateModule_0;
            let id = id_text(inscription_id);
            let out = create_module_spec(s, m, inscription_id, chain, source).0;
            let info = out.module_infos[id];
            &&& source == c.source@
            &&& !s.module_infos.contains_key(id)
            &&& out == StateView { module_infos: s.module_infos.insert(id, info), ..s }
            &&& info.id == id
            &&& info.name == c.name@
            &&& info.deployer_pk_script == hex_lower(m.sender.script())
            &&& info.gas_tick == c.init.gas_tick@
            &&& info.chain_commit_id is None
            &&& info.commit_id is None
            &&& address_parse(c.init.sequencer@, chain) matches Ok(a)
                && info.sequencer_pk_script == hex_lower(a.1)
            &&& address_parse(c.init.gas_to@, chain) matches Ok(a)
                && info.gas_to_pk_script == hex_lower(a.1)
            &&& address_parse(c.init.fee_to@, chain) matches Ok(a)
                && info.lp_fee_pk_script == hex_lower(a.1)
            &&& scaled_amount(
                    if c.init.swap_fee_rate@.len() == 0 { "0"@ } else { c.init.swap_fee_rate@ }, 3) matches Some(fv)
                && fv >= 0 && info.fee_rate_swap == (fv, 3int)
            &&& create_module_spec(out, m, inscription_id, chain, source)
                == refuse(out, ErrorView::ModuleAlreadyExists(id))
        }),
{
}

/// An inscribed transfer signed by an owner other than its receiver, sent to
/// the script of a deployed module, is a deposit: the signer's swap balance of
/// the ticker in that module goes up by exactly the amount, and the signer's
/// total goes down by it, so their sum is unchanged.
pub proof fn lemma_deposit_credits_signer(s: StateView, m: BRC20ExecutionMessage, chain: Chain)
    requires
        m.operation matches BRC20Operation::InscribeTransfer { signer, transfer }
            && signer matches Some(sig) && m.receiver matches Some(rcv) && sig@ != rcv@
            && is_module_script(rcv.script()) && s.module_infos.contains_key(module_of_script(rcv.script())),
        inscribe_transfer_spec(s, m, chain).1 is Ok,
    ensures
        ({
            let (signer, transfer) = match m.operation {
                BRC20Operation::InscribeTransfer { signer, transfer } => (signer, transfer),
                _ => arbitrary(),
            };
            let sig = signer.unwrap();
            let rcv = m.receiver.unwrap();
            let info = s.ticker_infos[tkey(transfer.tick@)];
            let tk = tkey(info.ticker);
            let v = fixed_parse(encode_utf8(transfer.amount@), info.decimals as nat).unwrap();
            let mk = (sig@, module_of_script(rcv.script()), tk);
            let out = inscribe_transfer_spec(s, m, chain).0;
            let old_swap = if s.module_balances.contains_key(mk) { s.module_balances[mk].swap.0 } else { 0 };
            let old_total = if s.balances.contains_key((sig@, tk)) { s.balances[(sig@, tk)].total as int } else { 0 };
            &&& out.module_balances.contains_key(mk)
            &&& out.module_balances[mk].swap.0 == old_swap + v
            &&& out.balances[(sig@, tk)].total == old_total - v
            &&& out.balances[(sig@, tk)].total + out.module_balances[mk].swap.0 == old_total + old_swap
        }),
{
}

/// An inscribed withdrawal that is accepted records the amount as pending for
/// its receiver: the receiver's pending withdrawal of the ticker in the module
/// goes up by exactly the amount (not negative), its swap and available
/// balances stay as they were, and the withdrawal is kept at the
/// inscription's new location.
pub proof fn lemma_inscribe_withdraw_pends(s: StateView, m: BRC20ExecutionMessage)
    requires
        m.operation is Withdraw,
        inscribe_withdraw_spec(s, m).1 is Ok,
    ensures
        ({
            let w = m.operation->Withdraw_0;
            let addr = m.receiver.unwrap();
            let lower = withdraw_ticker(w.tick@)->Ok_0;
            let info = s.ticker_infos[tkey(lower)];
            let v = scaled_amount(w.amt@, info.decimals as nat).unwrap();
            let k = (addr@, s.module_infos[w.module@].id, tkey(lower));
            let out = inscribe_withdraw_spec(s, m).0;
            let before = if s.module_balances.contains_key(k) { s.module_balances[k] } else { empty_token_balance(info.decimals as int) };
            &&& m.receiver is Some
            &&& v >= 0
            &&& out.module_balances[k].pending.0 == before.pending.0 + v
            &&& out.module_balances[k].swap == before.swap
            &&& out.module_balances[k].available == before.available
            &&& out.withdraws[m.new_satpoint] == w@
            &&& out.balances == s.balances
        }),
{
}

/// A moved withdrawal pays out what was pending: the sender's pending
/// withdrawal and available balance of the ticker in the module each go down
/// by the amount, its swap balance stays, and the recipient's (receiver or
/// sender) total and available balances of the ticker each go up by the
/// amount; the withdrawal is forgotten.
pub proof fn lemma_transfer_withdraw_pays(s: StateView, m: BRC20ExecutionMessage)
    requires
        m.operation is TransferWithdraw,
        transfer_withdraw_spec(s, m).1 is Ok,
    ensures
        ({
            let w = m.operation->TransferWithdraw_0;
            let lower = withdraw_ticker(w.tick@)->Ok_0;
            let info = s.ticker_infos[tkey(lower)];
            let v = scaled_amount(w.amt@, info.decimals as nat).unwrap();
            let k = (m.sender@, w.module@, tkey(lower));
            let recv = recipient(m);
            let bk = (recv@, tkey(lower));
            let out = transfer_withdraw_spec(s, m).0;
            let old_total = if s.balances.contains_key(bk) { s.balances[bk].total as int } else { 0 };
            let old_avail = if s.balances.contains_key(bk) { s.balances[bk].available as int } else { 0 };
            &&& v >= 0
            &&& out.module_balances[k].pending.0 == s.module_balances[k].pending.0 - v
            &&& out.module_balances[k].available.0 == s.module_balances[k].available.0 - v
            &&& out.module_balances[k].swap == s.module_balances[k].swap
            &&& out.balances[bk].total == old_total + v
            &&& out.balances[bk].available == old_avail + v
            &&& !out.withdraws.contains_key(m.old_satpoint)
        }),
{
}

/// An inscribed transfer that is accepted sets the amount aside: the sender's
/// (the signer, when it is another owner than the receiver, else the
/// receiver) available balance of the ticker goes down by the amount, and the
/// transfer is kept at the inscription's new location for the receiver with
/// that amount. With a separate signer the signer's total goes down by the
/// amount and the receiver's total goes up by it; otherwise the total stays.
pub proof fn lemma_inscribe_transfer_sets_aside(s: StateView, m: BRC20ExecutionMessage, chain: Chain)
    requires
        m.operation is InscribeTransfer,
        inscribe_transfer_spec(s, m, chain).1 is Ok,
    ensures
        ({
            let (signer, transfer) = match m.operation {
                BRC20Operation::InscribeTransfer { signer, transfer } => (signer, transfer),
                _ => arbitrary(),
            };
            let rcv = m.receiver.unwrap();
            let info = s.ticker_infos[tkey(transfer.tick@)];
            let tk = tkey(info.ticker);
            let v = fixed_parse(encode_utf8(transfer.amount@), info.decimals as nat).unwrap();
            let separate = signer matches Some(sig) && sig@ != rcv@;
            let sender = if separate { signer.unwrap() } else { rcv };
            let out = inscribe_transfer_spec(s, m, chain).0;
            let old_s = if s.balances.contains_key((sender@, tk)) { s.balances[(sender@, tk)] } else {
                BalanceView { ticker: info.ticker, total: 0, available: 0 } };
            let old_r = if s.balances.contains_key((rcv@, tk)) { s.balances[(rcv@, tk)].total as int } else { 0 };
            &&& m.receiver is Some
            &&& v > 0
            &&& out.balances[(sender@, tk)].available == old_s.available - v
            &&& separate ==> out.balances[(sender@, tk)].total == old_s.total - v
                && out.balances[(rcv@, tk)].total == old_r + v
            &&& !separate ==> out.balances[(sender@, tk)].total == old_s.total
            &&& out.transfer_assets[m.new_satpoint].amount == v
            &&& out.transfer_assets[m.new_satpoint].owner == rcv@
            &&& out.transfer_assets[m.new_satpoint].ticker == info.ticker
        }),
{
}

} // verus!
