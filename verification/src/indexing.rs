//! Indexing a block: its transactions in indexing order, the check of the
//! withdrawals the swap service recorded for each, and what each message of
//! a transaction does.

use vstd::prelude::*;
use vstd::utf8::encode_utf8;
use crate::address::{InscriptionId, SatPoint, UtxoAddress, OwnerView, AddressError, bytes_eq};
use crate::amount::fixed_parse;
use crate::block::{block_tx_order, unlisted_withdraw, sequence_number_of};
use crate::chain::Chain;
use crate::commit::{Executed, ExecutedView, execute_spec};
use crate::entry::{BRC20Receipt, ReceiptView};
use crate::error::{ExecutionError, ExecView};
use crate::executor::BRC20ExecutionMessage;
use crate::params::owner_parse;
use crate::state::{SwapState, StateView, tkey};
use crate::unisat::{WithdrawHistory, UnisatSwapEvent, process_withdraw_history, withdraw_history_spec};

verus! {

/// One message of a transaction: a BRC-20 operation, or an inscription event
/// that carries none.
pub enum BundleItem {
    Brc20(BRC20ExecutionMessage),
    Other { txid: [u8; 32], sequence_number: u32, inscription_id: InscriptionId },
}

impl BundleItem {
    /// The transaction of the message.
    pub open spec fn spec_txid(self) -> [u8; 32] {
        match self {
            BundleItem::Brc20(m) => m.txid,
            BundleItem::Other { txid, .. } => txid,
        }
    }

    /// The sequence number of the message's inscription.
    pub open spec fn spec_sequence_number(self) -> u32 {
        match self {
            BundleItem::Brc20(m) => m.sequence_number,
            BundleItem::Other { sequence_number, .. } => sequence_number,
        }
    }

    /// The message's inscription.
    pub open spec fn spec_inscription_id(self) -> InscriptionId {
        match self {
            BundleItem::Brc20(m) => m.inscription_id,
            BundleItem::Other { inscription_id, .. } => inscription_id,
        }
    }

    /// The transaction of the message.
    pub fn txid(&self) -> (r: [u8; 32])
        ensures
            r == self.spec_txid(),
    {
        match self {
            BundleItem::Brc20(m) => m.txid,
            BundleItem::Other { txid, .. } => *txid,
        }
    }

    /// The sequence number of the message's inscription.
    pub fn sequence_number(&self) -> (r: u32)
        ensures
            r == self.spec_sequence_number(),
    {
        match self {
            BundleItem::Brc20(m) => m.sequence_number,
            BundleItem::Other { sequence_number, .. } => *sequence_number,
        }
    }

    /// The message's inscription.
    pub fn inscription_id(&self) -> (r: InscriptionId)
        ensures
            r == self.spec_inscription_id(),
    {
        match self {
            BundleItem::Brc20(m) => m.inscription_id,
            BundleItem::Other { inscription_id, .. } => *inscription_id,
        }
    }
}

/// What indexing a message records.
#[derive(Debug)]
pub enum Record {
    /// The receipt of a BRC-20 operation.
    Brc20(BRC20Receipt),
    /// A withdrawal recorded by the swap service, with what crediting it gave.
    UnisatWithdraw {
        inscription_id: InscriptionId,
        sequence_number: u32,
        inscription_number: i32,
        old_satpoint: SatPoint,
        new_satpoint: SatPoint,
        sender: UtxoAddress,
        receiver: UtxoAddress,
        result: Result<UnisatSwapEvent, ExecutionError>,
    },
}

/// A record as the contracts see it; a credited withdrawal is its ticker and
/// amount.
pub ghost enum RecordView {
    Brc20(ReceiptView),
    Withdraw {
        inscription_id: InscriptionId,
        sequence_number: u32,
        inscription_number: i32,
        old_satpoint: SatPoint,
        new_satpoint: SatPoint,
        sender: OwnerView,
        receiver: OwnerView,
        result: Result<(Seq<char>, int), ExecView>,
    },
}

impl View for Record {
    type V = RecordView;

    open spec fn view(&self) -> RecordView {
        match self {
            Record::Brc20(r) => RecordView::Brc20(r@),
            Record::UnisatWithdraw {
                inscription_id,
                sequence_number,
                inscription_number,
                old_satpoint,
                new_satpoint,
                sender,
                receiver,
                result,
            } => RecordView::Withdraw {
                inscription_id: *inscription_id,
                sequence_number: *sequence_number,
                inscription_number: *inscription_number,
                old_satpoint: *old_satpoint,
                new_satpoint: *new_satpoint,
                sender: sender@,
                receiver: receiver@,
                result: match result {
                    Ok(ev) => Ok((ev.tick@, ev.amount as int)),
                    Err(e) => Err(e@),
                },
            },
        }
    }
}

/// Why a block could not be indexed.
#[derive(Debug)]
pub enum BlockError {
    /// A recorded withdrawal whose inscription is not among the block's messages.
    MissingWithdraw(InscriptionId),
    /// The rules cannot go on.
    Halted(ExecutionError),
    /// An address of a recorded withdrawal is not an address of the chain.
    InvalidAddress(AddressError),
}

/// Why a block could not be indexed, as the contracts see it.
pub ghost enum BlockErrView {
    MissingWithdraw(InscriptionId),
    Halted(ExecView),
    InvalidAddress,
}

impl View for BlockError {
    type V = BlockErrView;

    open spec fn view(&self) -> BlockErrView {
        match self {
            BlockError::MissingWithdraw(id) => BlockErrView::MissingWithdraw(*id),
            BlockError::Halted(e) => BlockErrView::Halted(e@),
            BlockError::InvalidAddress(_) => BlockErrView::InvalidAddress,
        }
    }
}

/// The records of a sequence of records.
pub open spec fn records_view(v: Seq<Record>) -> Seq<RecordView> {
    v.map_values(|r: Record| r@)
}

/// What a step of indexing leaves: the state, and the records made or why
/// indexing stopped.
pub type StepView = (StateView, Result<Seq<RecordView>, BlockErrView>);

/// The sequence number of the first message of a transaction among `ops`
/// (pairs of transaction and sequence number), or 0 when it has none.
pub open spec fn first_sequence_number(ops: Seq<([u8; 32], u32)>, txid: [u8; 32]) -> u32 {
    if exists|i: int| 0 <= i < ops.len() && ops[i].0 == txid {
        ops[choose|i: int| 0 <= i < ops.len() && ops[i].0 == txid && forall|j: int| 0 <= j < i ==> ops[j].0 != txid].1
    } else {
        0
    }
}

/// What crediting one recorded withdrawal does (see `withdraw_history_spec`):
/// where the rules halt, indexing stops; otherwise both addresses must be
/// addresses of the chain, and the record carries the credited ticker and
/// amount, or the error.
#[verifier::opaque]
pub open spec fn history_step(s: StateView, h: WithdrawHistory, sequence_number: u32, chain: Chain) -> (StateView, Result<RecordView, BlockErrView>) {
    let o = withdraw_history_spec(s, chain, h.from@, h.to@, h.data.tick@, h.data.readable_amount@);
    match o.1 {
        Err(ExecView::Unexpected) => (o.0, Err(BlockErrView::Halted(ExecView::Unexpected))),
        _ => match (owner_parse(h.from@, chain), owner_parse(h.to@, chain)) {
            (Ok(from), Ok(to)) => (o.0, Ok(RecordView::Withdraw {
                inscription_id: h.inscription_id,
                sequence_number,
                inscription_number: h.inscription_number,
                old_satpoint: h.old_sat_point,
                new_satpoint: h.new_sat_point,
                sender: from,
                receiver: to,
                result: match o.1 {
                    Ok(_) => Ok((h.data.tick@, fixed_parse(
                        encode_utf8(h.data.readable_amount@),
                        s.ticker_infos[tkey(h.data.tick@)].decimals as nat,
                    ).unwrap())),
                    Err(e) => Err(e),
                },
            })),
            _ => (o.0, Err(BlockErrView::InvalidAddress)),
        },
    }
}

/// Crediting the first `n` of a transaction's recorded withdrawals, in order,
/// stopping at the first that stops indexing.
pub open spec fn histories_fold(s: StateView, hs: Seq<WithdrawHistory>, ops: Seq<([u8; 32], u32)>, chain: Chain, n: nat) -> StepView
    decreases n,
{
    if n == 0 {
        (s, Ok(Seq::empty()))
    } else {
        let p = histories_fold(s, hs, ops, chain, (n - 1) as nat);
        match p.1 {
            Err(e) => (p.0, Err(e)),
            Ok(rs) => {
                let h = hs[n - 1];
                let st = history_step(p.0, h, first_sequence_number(ops, h.txid), chain);
                (st.0, match st.1 {
                    Ok(r) => Ok(rs.push(r)),
                    Err(e) => Err(e),
                })
            },
        }
    }
}

/// The pairs of transaction and sequence number of a transaction's messages.
pub open spec fn sequence_pairs(items: Seq<BundleItem>) -> Seq<([u8; 32], u32)> {
    items.map_values(|it: BundleItem| (it.spec_txid(), it.spec_sequence_number()))
}

/// What one message does: a BRC-20 operation is executed (see
/// `execute_spec`) and its receipt recorded, nothing recorded for a failure
/// without receipt, and indexing stops where the rules halt; any other
/// message credits all the transaction's recorded withdrawals.
#[verifier::opaque]
pub open spec fn item_step(
    s: StateView,
    it: BundleItem,
    hs: Seq<WithdrawHistory>,
    ops: Seq<([u8; 32], u32)>,
    chain: Chain,
    source: Seq<char>,
    height: u32,
) -> StepView {
    match it {
        BundleItem::Brc20(m) => {
            let e = execute_spec(s, m, chain, source, height);
            (e.0, match e.1 {
                ExecutedView::Done(rv) => Ok(seq![RecordView::Brc20(rv)]),
                ExecutedView::Failed(_) => Ok(Seq::empty()),
                ExecutedView::Halted(x) => Err(BlockErrView::Halted(x)),
            })
        },
        BundleItem::Other { .. } => histories_fold(s, hs, ops, chain, hs.len()),
    }
}

/// The first `n` messages of a transaction, in order, stopping at the first
/// that stops indexing; the records are kept in order.
pub open spec fn items_fold(
    s: StateView,
    items: Seq<BundleItem>,
    hs: Seq<WithdrawHistory>,
    chain: Chain,
    source: Seq<char>,
    height: u32,
    n: nat,
) -> StepView
    decreases n,
{
    if n == 0 {
        (s, Ok(Seq::empty()))
    } else {
        let p = items_fold(s, items, hs, chain, source, height, (n - 1) as nat);
        match p.1 {
            Err(e) => (p.0, Err(e)),
            Ok(rs) => {
                let st = item_step(p.0, items[n - 1], hs, sequence_pairs(items), chain, source, height);
                (st.0, match st.1 {
                    Ok(r) => Ok(rs + r),
                    Err(e) => Err(e),
                })
            },
        }
    }
}

/// A fold that stopped stays stopped, with the same state.
proof fn lemma_histories_fold_stays(s: StateView, hs: Seq<WithdrawHistory>, ops: Seq<([u8; 32], u32)>, chain: Chain, m: nat, n: nat)
    requires
        m <= n,
        histories_fold(s, hs, ops, chain, m).1 is Err,
    ensures
        histories_fold(s, hs, ops, chain, n) == histories_fold(s, hs, ops, chain, m),
    decreases n,
{
    if n > m {
        lemma_histories_fold_stays(s, hs, ops, chain, m, (n - 1) as nat);
    }
}

/// A fold that stopped stays stopped, with the same state.
proof fn lemma_items_fold_stays(
    s: StateView,
    items: Seq<BundleItem>,
    hs: Seq<WithdrawHistory>,
    chain: Chain,
    source: Seq<char>,
    height: u32,
    m: nat,
    n: nat,
)
    requires
        m <= n,
        items_fold(s, items, hs, chain, source, height, m).1 is Err,
    ensures
        items_fold(s, items, hs, chain, source, height, n) == items_fold(s, items, hs, chain, source, height, m),
    decreases n,
{
    if n > m {
        lemma_items_fold_stays(s, items, hs, chain, source, height, m, (n - 1) as nat);
    }
}

/// Same transaction.
fn same_txid(a: &[u8; 32], b: &[u8; 32]) -> (r: bool)
    ensures
        r == (*a == *b),
{
    let same = bytes_eq(a.as_slice(), b.as_slice());
    proof {
        if same {
            assert forall|k: int| 0 <= k < 32 implies a[k] == b[k] by {
                assert(a@[k] == b@[k]);
            }
            assert(*a =~= *b);
        } else if *a == *b {
            assert(a@ =~= b@);
        }
    }
    same
}

/// The sequence number of the first message of a transaction (see
/// `first_sequence_number`).
fn first_sequence_number_exec(ops: &Vec<([u8; 32], u32)>, txid: &[u8; 32]) -> (r: u32)
    ensures
        r == first_sequence_number(ops@, *txid),
{
    let r = sequence_number_of(ops, txid);
    proof {
        if exists|i: int| 0 <= i < ops@.len() && ops@[i].0 == *txid {
            let i = choose|i: int| 0 <= i < ops@.len() && #[trigger] ops@[i].0 == *txid && r == ops@[i].1
                && forall|j: int| 0 <= j < i ==> #[trigger] ops@[j].0 != *txid;
            let c = choose|c: int| 0 <= c < ops@.len() && ops@[c].0 == *txid
                && forall|j: int| 0 <= j < c ==> ops@[j].0 != *txid;
            assert(0 <= i < ops@.len() && ops@[i].0 == *txid && forall|j: int| 0 <= j < i ==> ops@[j].0 != *txid);
            assert(c == i) by {
                if c < i {
                    assert(ops@[c].0 != *txid);
                } else if c > i {
                    assert(ops@[i].0 != *txid);
                }
            }
        }
    }
    r
}

/// Credits one recorded withdrawal (see `history_step`).
fn index_history(
    context: &mut SwapState,
    chain: &Chain,
    history: &WithdrawHistory,
    sequence_number: u32,
) -> (r: Result<Record, BlockError>)
    requires
        old(context).wf(),
    ensures
        final(context).wf(),
        ({
            let st = history_step(old(context)@, *history, sequence_number, *chain);
            &&& final(context)@ == st.0
            &&& match (r, st.1) {
                (Ok(x), Ok(v)) => x@ == v,
                (Err(x), Err(v)) => x@ == v,
                _ => false,
            }
        }),
{
    reveal(history_step);
    let ghost s0 = context@;
    let result = process_withdraw_history(context, chain, history);
    if let Err(ExecutionError::Unexpected(m)) = &result {
        return Err(BlockError::Halted(ExecutionError::Unexpected(m.clone())));
    }
    let sender = match UtxoAddress::from_str(history.from.as_str(), chain) {
        Ok(a) => a,
        Err(e) => return Err(BlockError::InvalidAddress(e)),
    };
    let receiver = match UtxoAddress::from_str(history.to.as_str(), chain) {
        Ok(a) => a,
        Err(e) => return Err(BlockError::InvalidAddress(e)),
    };
    Ok(Record::UnisatWithdraw {
        inscription_id: history.inscription_id,
        sequence_number,
        inscription_number: history.inscription_number,
        old_satpoint: history.old_sat_point,
        new_satpoint: history.new_sat_point,
        sender,
        receiver,
        result,
    })
}

/// The recorded withdrawals at the given positions.
pub open spec fn histories_at(histories: Seq<WithdrawHistory>, idx: Seq<usize>) -> Seq<WithdrawHistory> {
    idx.map_values(|k: usize| histories[k as int])
}

/// Credits a transaction's recorded withdrawals, given by their positions,
/// in order (see `histories_fold`).
fn index_histories(
    context: &mut SwapState,
    chain: &Chain,
    histories: &Vec<WithdrawHistory>,
    idx: &Vec<usize>,
    ops: &Vec<([u8; 32], u32)>,
) -> (r: Result<Vec<Record>, BlockError>)
    requires
        old(context).wf(),
        forall|i: int| 0 <= i < idx@.len() ==> #[trigger] idx@[i] < histories@.len(),
    ensures
        final(context).wf(),
        ({
            let hs = histories_at(histories@, idx@);
            let st = histories_fold(old(context)@, hs, ops@, *chain, hs.len());
            &&& final(context)@ == st.0
            &&& match (r, st.1) {
                (Ok(x), Ok(v)) => records_view(x@) == v,
                (Err(x), Err(v)) => x@ == v,
                _ => false,
            }
        }),
{
    let ghost s0 = context@;
    let ghost hs = histories_at(histories@, idx@);
    let mut out: Vec<Record> = Vec::new();
    assert(records_view(out@) =~= Seq::<RecordView>::empty());
    let mut failure: Option<BlockError> = None;
    let mut m: usize = 0;
    while m < idx.len() && failure.is_none()
        invariant
            context.wf(),
            m <= idx@.len(),
            hs == histories_at(histories@, idx@),
            hs.len() == idx@.len(),
            forall|i: int| 0 <= i < idx@.len() ==> #[trigger] idx@[i] < histories@.len(),
            failure is None ==> histories_fold(s0, hs, ops@, *chain, m as nat).0 == context@
                && histories_fold(s0, hs, ops@, *chain, m as nat).1
                    == Ok::<Seq<RecordView>, BlockErrView>(records_view(out@)),
            failure matches Some(e) ==> histories_fold(s0, hs, ops@, *chain, hs.len()).0 == context@
                && histories_fold(s0, hs, ops@, *chain, hs.len()).1 == Err::<Seq<RecordView>, BlockErrView>(e@),
        decreases idx.len() - m,
    {
        let h = &histories[idx[m]];
        assert(*h == hs[m as int]);
        let sn = first_sequence_number_exec(ops, &h.txid);
        let ghost before = context@;
        let res = index_history(context, chain, h, sn);
        match res {
            Ok(rec) => {
                let ghost rv = rec@;
                let ghost prev = out@;
                out.push(rec);
                proof {
                    assert(records_view(out@) =~= records_view(prev).push(rv));
                }
            },
            Err(e) => {
                proof {
                    let st = history_step(before, hs[m as int], first_sequence_number(ops@, hs[m as int].txid), *chain);
                    assert(st.1 == Err::<RecordView, BlockErrView>(e@));
                    assert(histories_fold(s0, hs, ops@, *chain, (m + 1) as nat) == (st.0, Err::<Seq<RecordView>, BlockErrView>(e@)));
                    lemma_histories_fold_stays(s0, hs, ops@, *chain, (m + 1) as nat, hs.len());
                }
                failure = Some(e);
            },
        }
        m = m + 1;
    }
    match failure {
        Some(e) => Err(e),
        None => Ok(out),
    }
}

/// What one message does (see `item_step`); `ops` are the transaction's
/// pairs of transaction and sequence number.
fn index_item(
    context: &mut SwapState,
    chain: &Chain,
    source: &String,
    height: u32,
    item: BundleItem,
    histories: &Vec<WithdrawHistory>,
    idx: &Vec<usize>,
    ops: &Vec<([u8; 32], u32)>,
) -> (r: Result<Vec<Record>, BlockError>)
    requires
        old(context).wf(),
        forall|i: int| 0 <= i < idx@.len() ==> #[trigger] idx@[i] < histories@.len(),
    ensures
        final(context).wf(),
        ({
            let st = item_step(old(context)@, item, histories_at(histories@, idx@), ops@, *chain, source@, height);
            &&& final(context)@ == st.0
            &&& match (r, st.1) {
                (Ok(x), Ok(v)) => records_view(x@) == v,
                (Err(x), Err(v)) => x@ == v,
                _ => false,
            }
        }),
{
    reveal(item_step);
    match item {
        BundleItem::Brc20(m) => {
            let e = m.execute(chain, source, context, height);
            match e {
                Executed::Done(receipt) => {
                    let mut out: Vec<Record> = Vec::new();
                    out.push(Record::Brc20(receipt));
                    assert(records_view(out@) =~= seq![out@[0]@]);
                    Ok(out)
                },
                Executed::Failed(_) => {
                    let out: Vec<Record> = Vec::new();
                    assert(records_view(out@) =~= Seq::<RecordView>::empty());
                    Ok(out)
                },
                Executed::Halted(x) => Err(BlockError::Halted(x)),
            }
        },
        BundleItem::Other { .. } => index_histories(context, chain, histories, idx, ops),
    }
}

/// The pairs of transaction and sequence number of a transaction's messages.
fn sequence_pairs_exec(items: &Vec<BundleItem>) -> (r: Vec<([u8; 32], u32)>)
    ensures
        r@ == sequence_pairs(items@),
{
    let mut out: Vec<([u8; 32], u32)> = Vec::new();
    let mut i: usize = 0;
    while i < items.len()
        invariant
            i <= items@.len(),
            out@.len() == i,
            forall|j: int| 0 <= j < i ==> #[trigger] out@[j] == (items@[j].spec_txid(), items@[j].spec_sequence_number()),
        decreases items.len() - i,
    {
        out.push((items[i].txid(), items[i].sequence_number()));
        i = i + 1;
    }
    assert(out@ =~= sequence_pairs(items@));
    out
}

/// The messages of a transaction, in order (see `items_fold`); `idx` are the
/// positions of the transaction's recorded withdrawals.
fn index_items(
    context: &mut SwapState,
    chain: &Chain,
    source: &String,
    height: u32,
    items: Vec<BundleItem>,
    histories: &Vec<WithdrawHistory>,
    idx: &Vec<usize>,
) -> (r: Result<Vec<Record>, BlockError>)
    requires
        old(context).wf(),
        forall|i: int| 0 <= i < idx@.len() ==> #[trigger] idx@[i] < histories@.len(),
    ensures
        final(context).wf(),
        ({
            let st = items_fold(old(context)@, items@, histories_at(histories@, idx@), *chain, source@, height, items@.len());
            &&& final(context)@ == st.0
            &&& match (r, st.1) {
                (Ok(x), Ok(v)) => records_view(x@) == v,
                (Err(x), Err(v)) => x@ == v,
                _ => false,
            }
        }),
{
    let ghost s0 = context@;
    let ghost all = items@;
    let ghost hs = histories_at(histories@, idx@);
    let ops = sequence_pairs_exec(&items);
    let mut rest = items;
    let mut out: Vec<Record> = Vec::new();
    assert(records_view(out@) =~= Seq::<RecordView>::empty());
    let mut failure: Option<BlockError> = None;
    let mut k: usize = 0;
    let n = rest.len();
    while k < n && failure.is_none()
        invariant
            context.wf(),
            n == all.len(),
            k <= n,
            rest@ =~= all.subrange(k as int, n as int),
            ops@ == sequence_pairs(all),
            hs == histories_at(histories@, idx@),
            forall|i: int| 0 <= i < idx@.len() ==> #[trigger] idx@[i] < histories@.len(),
            failure is None ==> items_fold(s0, all, hs, *chain, source@, height, k as nat).0 == context@
                && items_fold(s0, all, hs, *chain, source@, height, k as nat).1
                    == Ok::<Seq<RecordView>, BlockErrView>(records_view(out@)),
            failure matches Some(e) ==> items_fold(s0, all, hs, *chain, source@, height, n as nat).0 == context@
                && items_fold(s0, all, hs, *chain, source@, height, n as nat).1
                    == Err::<Seq<RecordView>, BlockErrView>(e@),
        decreases n - k,
    {
        let item = rest.remove(0);
        assert(item == all[k as int]);
        let ghost before = context@;
        let res = index_item(context, chain, source, height, item, histories, idx, &ops);
        match res {
            Ok(v) => {
                let ghost prev = out@;
                let mut v = v;
                let ghost vv = v@;
                out.append(&mut v);
                proof {
                    assert(records_view(out@) =~= records_view(prev) + records_view(vv));
                }
            },
            Err(e) => {
                proof {
                    lemma_items_fold_stays(s0, all, hs, *chain, source@, height, (k + 1) as nat, n as nat);
                }
                failure = Some(e);
            },
        }
        k = k + 1;
    }
    match failure {
        Some(e) => Err(e),
        None => Ok(out),
    }
}

/// The recorded withdrawals of a transaction among the first `n`, in order.
pub open spec fn tx_histories(hist: Seq<WithdrawHistory>, txid: [u8; 32], n: nat) -> Seq<WithdrawHistory>
    decreases n,
{
    if n == 0 {
        Seq::empty()
    } else {
        let p = tx_histories(hist, txid, (n - 1) as nat);
        if hist[n - 1].txid == txid { p.push(hist[n - 1]) } else { p }
    }
}

/// The inscriptions of the messages of all transactions of a block.
pub open spec fn bundle_ids(b: Seq<([u8; 32], Vec<BundleItem>)>) -> Seq<InscriptionId>
    decreases b.len(),
{
    if b.len() == 0 {
        Seq::empty()
    } else {
        bundle_ids(b.drop_last()) + b.last().1@.map_values(|it: BundleItem| it.spec_inscription_id())
    }
}

/// The first of `wanted` that is not in `ids`, if any.
pub open spec fn first_unlisted(ids: Seq<InscriptionId>, wanted: Seq<InscriptionId>) -> Option<InscriptionId> {
    if exists|i: int| 0 <= i < wanted.len() && !ids.contains(wanted[i]) {
        Some(wanted[choose|i: int| 0 <= i < wanted.len() && !ids.contains(wanted[i])
            && forall|j: int| 0 <= j < i ==> ids.contains(wanted[j])])
    } else {
        None
    }
}

/// The position of the first of the remaining transactions' messages that
/// belong to `txid`, or the number of them when none does.
pub open spec fn bundle_index(rem: Seq<([u8; 32], Vec<BundleItem>)>, txid: [u8; 32]) -> int {
    if exists|i: int| 0 <= i < rem.len() && rem[i].0 == txid {
        choose|i: int| 0 <= i < rem.len() && rem[i].0 == txid && forall|j: int| 0 <= j < i ==> rem[j].0 != txid
    } else {
        rem.len() as int
    }
}

/// The transaction indexed at position `k`: the second transaction first,
/// the first (the coinbase) last (see `block_tx_order`).
pub open spec fn tx_at(txids: Seq<[u8; 32]>, k: int) -> [u8; 32] {
    if k < txids.len() - 1 { txids[k + 1] } else { txids[0] }
}

/// What indexing one transaction does, given the messages not yet taken:
/// every recorded withdrawal of it must be among the block's messages, else
/// indexing stops on the first that is not; then the transaction's messages
/// (if any) are taken and run in order (see `items_fold`).
pub open spec fn tx_step(
    s: StateView,
    rem: Seq<([u8; 32], Vec<BundleItem>)>,
    txid: [u8; 32],
    hist: Seq<WithdrawHistory>,
    ids: Seq<InscriptionId>,
    chain: Chain,
    source: Seq<char>,
    height: u32,
) -> (StateView, Seq<([u8; 32], Vec<BundleItem>)>, Result<Seq<RecordView>, BlockErrView>) {
    let hs = tx_histories(hist, txid, hist.len());
    match first_unlisted(ids, hs.map_values(|h: WithdrawHistory| h.inscription_id)) {
        Some(x) => (s, rem, Err(BlockErrView::MissingWithdraw(x))),
        None => {
            let j = bundle_index(rem, txid);
            if j >= rem.len() {
                (s, rem, Ok(Seq::empty()))
            } else {
                let st = items_fold(s, rem[j].1@, hs, chain, source, height, rem[j].1@.len());
                (st.0, rem.remove(j), st.1)
            }
        },
    }
}

/// Indexing the first `n` transactions in indexing order, stopping at the
/// first that stops indexing; each transaction that recorded something is
/// listed with its records.
pub open spec fn block_fold(
    s: StateView,
    bundles: Seq<([u8; 32], Vec<BundleItem>)>,
    txids: Seq<[u8; 32]>,
    hist: Seq<WithdrawHistory>,
    chain: Chain,
    source: Seq<char>,
    height: u32,
    n: nat,
) -> (StateView, Seq<([u8; 32], Vec<BundleItem>)>, Result<Seq<([u8; 32], Seq<RecordView>)>, BlockErrView>)
    decreases n,
{
    if n == 0 {
        (s, bundles, Ok(Seq::empty()))
    } else {
        let p = block_fold(s, bundles, txids, hist, chain, source, height, (n - 1) as nat);
        match p.2 {
            Err(e) => (p.0, p.1, Err(e)),
            Ok(acc) => {
                let txid = tx_at(txids, n - 1);
                let st = tx_step(p.0, p.1, txid, hist, bundle_ids(bundles), chain, source, height);
                (st.0, st.1, match st.2 {
                    Ok(rs) => Ok(if rs.len() == 0 { acc } else { acc.push((txid, rs)) }),
                    Err(e) => Err(e),
                })
            },
        }
    }
}

/// A block fold that stopped stays stopped, with the same state.
proof fn lemma_block_fold_stays(
    s: StateView,
    bundles: Seq<([u8; 32], Vec<BundleItem>)>,
    txids: Seq<[u8; 32]>,
    hist: Seq<WithdrawHistory>,
    chain: Chain,
    source: Seq<char>,
    height: u32,
    m: nat,
    n: nat,
)
    requires
        m <= n,
        block_fold(s, bundles, txids, hist, chain, source, height, m).2 is Err,
    ensures
        block_fold(s, bundles, txids, hist, chain, source, height, n).0
            == block_fold(s, bundles, txids, hist, chain, source, height, m).0,
        block_fold(s, bundles, txids, hist, chain, source, height, n).2
            == block_fold(s, bundles, txids, hist, chain, source, height, m).2,
    decreases n,
{
    if n > m {
        lemma_block_fold_stays(s, bundles, txids, hist, chain, source, height, m, (n - 1) as nat);
    }
}

/// The records of each transaction.
pub open spec fn tx_records_view(v: Seq<([u8; 32], Vec<Record>)>) -> Seq<([u8; 32], Seq<RecordView>)> {
    v.map_values(|p: ([u8; 32], Vec<Record>)| (p.0, records_view(p.1@)))
}

/// The inscriptions of the messages of all transactions (see `bundle_ids`).
fn collect_ids(bundles: &Vec<([u8; 32], Vec<BundleItem>)>) -> (r: Vec<InscriptionId>)
    ensures
        r@ == bundle_ids(bundles@),
{
    let mut ids: Vec<InscriptionId> = Vec::new();
    let mut i: usize = 0;
    assert(bundles@.take(0) =~= Seq::<([u8; 32], Vec<BundleItem>)>::empty());
    while i < bundles.len()
        invariant
            i <= bundles@.len(),
            ids@ == bundle_ids(bundles@.take(i as int)),
        decreases bundles.len() - i,
    {
        let items = &bundles[i].1;
        let ghost base = ids@;
        let mut k: usize = 0;
        while k < items.len()
            invariant
                k <= items@.len(),
                items@ == bundles@[i as int].1@,
                ids@ == base + items@.take(k as int).map_values(|it: BundleItem| it.spec_inscription_id()),
            decreases items.len() - k,
        {
            ids.push(items[k].inscription_id());
            k = k + 1;
            assert(ids@ =~= base + items@.take(k as int).map_values(|it: BundleItem| it.spec_inscription_id()));
        }
        assert(items@.take(k as int) =~= items@);
        assert(bundles@.take(i + 1).drop_last() =~= bundles@.take(i as int));
        assert(bundles@.take(i + 1).last() == bundles@[i as int]);
        i = i + 1;
    }
    assert(bundles@.take(i as int) =~= bundles@);
    ids
}

/// The positions of a transaction's recorded withdrawals (see `tx_histories`).
fn tx_history_positions(histories: &Vec<WithdrawHistory>, txid: &[u8; 32]) -> (r: Vec<usize>)
    ensures
        histories_at(histories@, r@) == tx_histories(histories@, *txid, histories@.len()),
        forall|i: int| 0 <= i < r@.len() ==> #[trigger] r@[i] < histories@.len(),
{
    let mut out: Vec<usize> = Vec::new();
    let mut i: usize = 0;
    assert(histories_at(histories@, out@) =~= Seq::<WithdrawHistory>::empty());
    while i < histories.len()
        invariant
            i <= histories@.len(),
            histories_at(histories@, out@) == tx_histories(histories@, *txid, i as nat),
            forall|j: int| 0 <= j < out@.len() ==> #[trigger] out@[j] < histories@.len(),
        decreases histories.len() - i,
    {
        if same_txid(&histories[i].txid, txid) {
            let ghost prev = out@;
            out.push(i);
            assert(histories_at(histories@, out@) =~= histories_at(histories@, prev).push(histories@[i as int]));
        }
        i = i + 1;
    }
    out
}

/// The inscriptions of the recorded withdrawals at the given positions.
fn wanted_ids(histories: &Vec<WithdrawHistory>, idx: &Vec<usize>) -> (r: Vec<InscriptionId>)
    requires
        forall|i: int| 0 <= i < idx@.len() ==> #[trigger] idx@[i] < histories@.len(),
    ensures
        r@ == histories_at(histories@, idx@).map_values(|h: WithdrawHistory| h.inscription_id),
{
    let mut out: Vec<InscriptionId> = Vec::new();
    let mut m: usize = 0;
    while m < idx.len()
        invariant
            m <= idx@.len(),
            forall|i: int| 0 <= i < idx@.len() ==> #[trigger] idx@[i] < histories@.len(),
            out@.len() == m,
            forall|j: int| 0 <= j < m ==> #[trigger] out@[j] == histories@[idx@[j] as int].inscription_id,
        decreases idx.len() - m,
    {
        out.push(histories[idx[m]].inscription_id);
        m = m + 1;
    }
    assert(out@ =~= histories_at(histories@, idx@).map_values(|h: WithdrawHistory| h.inscription_id));
    out
}

/// The first recorded withdrawal not among the block's messages (see
/// `first_unlisted`).
fn first_unlisted_exec(ids: &Vec<InscriptionId>, wanted: &Vec<InscriptionId>) -> (r: Option<InscriptionId>)
    ensures
        r == first_unlisted(ids@, wanted@),
{
    let r = unlisted_withdraw(ids, wanted);
    proof {
        match r {
            Some(x) => {
                let i = choose|i: int| 0 <= i < wanted@.len() && #[trigger] wanted@[i] == x
                    && !ids@.contains(x)
                    && forall|j: int| 0 <= j < i ==> ids@.contains(#[trigger] wanted@[j]);
                assert(0 <= i < wanted@.len() && !ids@.contains(wanted@[i]));
                let c = choose|c: int| 0 <= c < wanted@.len() && !ids@.contains(wanted@[c])
                    && forall|j: int| 0 <= j < c ==> ids@.contains(wanted@[j]);
                assert(0 <= i < wanted@.len() && !ids@.contains(wanted@[i])
                    && forall|j: int| 0 <= j < i ==> ids@.contains(wanted@[j]));
                assert(c == i) by {
                    if c < i {
                        assert(ids@.contains(wanted@[c]));
                    } else if c > i {
                        assert(ids@.contains(wanted@[i]));
                    }
                }
            },
            None => {
                assert(!exists|i: int| 0 <= i < wanted@.len() && !ids@.contains(wanted@[i]));
            },
        }
    }
    r
}

/// Finds the first remaining messages of a transaction (see `bundle_index`).
fn find_bundle(rem: &Vec<([u8; 32], Vec<BundleItem>)>, txid: &[u8; 32]) -> (r: usize)
    ensures
        r as int == bundle_index(rem@, *txid),
        r <= rem@.len(),
{
    let mut i: usize = 0;
    while i < rem.len()
        invariant
            i <= rem@.len(),
            forall|j: int| 0 <= j < i ==> rem@[j].0 != *txid,
        decreases rem.len() - i,
    {
        if same_txid(&rem[i].0, txid) {
            proof {
                assert(0 <= i < rem@.len() && rem@[i as int].0 == *txid
                    && forall|j: int| 0 <= j < i ==> rem@[j].0 != *txid);
                let c = choose|c: int| 0 <= c < rem@.len() && rem@[c].0 == *txid
                    && forall|j: int| 0 <= j < c ==> rem@[j].0 != *txid;
                assert(c == i) by {
                    if c < i {
                        assert(rem@[c].0 != *txid);
                    } else if c > i {
                        assert(rem@[i as int].0 != *txid);
                    }
                }
            }
            return i;
        }
        i = i + 1;
    }
    i
}

/// Indexes one transaction (see `tx_step`); its messages, if any, are taken
/// from `rem`.
fn index_tx(
    context: &mut SwapState,
    chain: &Chain,
    source: &String,
    height: u32,
    rem: &mut Vec<([u8; 32], Vec<BundleItem>)>,
    txid: &[u8; 32],
    histories: &Vec<WithdrawHistory>,
    ids: &Vec<InscriptionId>,
) -> (r: Result<Vec<Record>, BlockError>)
    requires
        old(context).wf(),
    ensures
        final(context).wf(),
        ({
            let st = tx_step(old(context)@, old(rem)@, *txid, histories@, ids@, *chain, source@, height);
            &&& final(context)@ == st.0
            &&& final(rem)@ == st.1
            &&& match (r, st.2) {
                (Ok(x), Ok(v)) => records_view(x@) == v,
                (Err(x), Err(v)) => x@ == v,
                _ => false,
            }
        }),
{
    let idx = tx_history_positions(histories, txid);
    let wanted = wanted_ids(histories, &idx);
    if let Some(x) = first_unlisted_exec(ids, &wanted) {
        return Err(BlockError::MissingWithdraw(x));
    }
    let j = find_bundle(rem, txid);
    if j >= rem.len() {
        let out: Vec<Record> = Vec::new();
        assert(records_view(out@) =~= Seq::<RecordView>::empty());
        return Ok(out);
    }
    let (_, items) = rem.remove(j);
    index_items(context, chain, source, height, items, histories, &idx)
}

/// Indexes a block. `txids` are its transactions in block order; they are
/// indexed from the second on, the first (the coinbase) last. `bundles` are
/// the messages of each transaction that carries any, `histories` what the
/// swap service recorded for the block. Every recorded withdrawal of a
/// transaction must be among the block's messages, else indexing stops on
/// the first that is not; each message then runs in order: a BRC-20
/// operation is executed, any other message credits the transaction's
/// recorded withdrawals. Indexing stops where the rules halt or a recorded
/// address is not one of the chain. The result lists each transaction that
/// recorded something, with its records (see `block_fold`).
pub fn index_block(
    context: &mut SwapState,
    chain: &Chain,
    source: &String,
    height: u32,
    txids: &Vec<[u8; 32]>,
    bundles: Vec<([u8; 32], Vec<BundleItem>)>,
    histories: &Vec<WithdrawHistory>,
) -> (r: Result<Vec<([u8; 32], Vec<Record>)>, BlockError>)
    requires
        old(context).wf(),
    ensures
        final(context).wf(),
        ({
            let st = block_fold(old(context)@, bundles@, txids@, histories@, *chain, source@, height, txids@.len());
            &&& final(context)@ == st.0
            &&& match (r, st.2) {
                (Ok(x), Ok(v)) => tx_records_view(x@) == v,
                (Err(x), Err(v)) => x@ == v,
                _ => false,
            }
        }),
{
    let ghost s0 = context@;
    let ghost all = bundles@;
    let ids = collect_ids(&bundles);
    let n = txids.len();
    let order = block_tx_order(n);
    let mut rem = bundles;
    let mut out: Vec<([u8; 32], Vec<Record>)> = Vec::new();
    assert(tx_records_view(out@) =~= Seq::<([u8; 32], Seq<RecordView>)>::empty());
    let mut failure: Option<BlockError> = None;
    let mut k: usize = 0;
    while k < n && failure.is_none()
        invariant
            context.wf(),
            n == txids@.len(),
            k <= n,
            order@.len() == n,
            forall|i: int| 0 <= i < n - 1 ==> #[trigger] order@[i] == i + 1,
            n > 0 ==> order@[n - 1] == 0,
            ids@ == bundle_ids(all),
            failure is None ==> block_fold(s0, all, txids@, histories@, *chain, source@, height, k as nat).0 == context@
                && block_fold(s0, all, txids@, histories@, *chain, source@, height, k as nat).1 == rem@
                && block_fold(s0, all, txids@, histories@, *chain, source@, height, k as nat).2
                    == Ok::<Seq<([u8; 32], Seq<RecordView>)>, BlockErrView>(tx_records_view(out@)),
            failure matches Some(e) ==> block_fold(s0, all, txids@, histories@, *chain, source@, height, n as nat).0
                == context@
                && block_fold(s0, all, txids@, histories@, *chain, source@, height, n as nat).2
                    == Err::<Seq<([u8; 32], Seq<RecordView>)>, BlockErrView>(e@),
        decreases n - k,
    {
        let pos = order[k];
        let txid = txids[pos];
        assert(txid == tx_at(txids@, k as int));
        let res = index_tx(context, chain, source, height, &mut rem, &txid, histories, &ids);
        match res {
            Ok(v) => {
                if v.len() > 0 {
                    let ghost prev = out@;
                    out.push((txid, v));
                    assert(tx_records_view(out@) =~= tx_records_view(prev).push((txid, records_view(out@.last().1@))));
                }
            },
            Err(e) => {
                proof {
                    lemma_block_fold_stays(s0, all, txids@, histories@, *chain, source@, height, (k + 1) as nat, n as nat);
                }
                failure = Some(e);
            },
        }
        k = k + 1;
    }
    match failure {
        Some(e) => Err(e),
        None => Ok(out),
    }
}

} // verus!
