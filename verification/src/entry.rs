//! The records the index keeps: balances, ticker and module descriptions,
//! swap pools and liquidity shares, and the keys they are stored under.

use vstd::prelude::*;
use vstd::utf8::{encode_utf8, valid_utf8, decode_utf8, encode_utf8_valid_utf8};
use vstd::slice::slice_to_vec;
use crate::address::{UtxoAddress, OwnerView, InscriptionId, SatPoint, bytes_eq};
use crate::decimal::Brc20Decimal;
use crate::error::{BRC20Error, ErrorView};
use crate::event::{BRC20Event, BRC20OpType, EventView};
use crate::table::TableKey;
use crate::ticker::{BRC20Ticker, BRC20LowerCaseTicker, unicode_lowercase};

verus! {

broadcast use encode_utf8_valid_utf8;

/// A holder's balance of one ticker.
#[derive(Debug, Clone)]
pub struct BRC20Balance {
    pub ticker: BRC20Ticker,
    pub total: u128,
    pub available: u128,
}

/// A balance as the contracts see it.
pub ghost struct BalanceView {
    pub ticker: Seq<char>,
    pub total: u128,
    pub available: u128,
}

impl View for BRC20Balance {
    type V = BalanceView;

    open spec fn view(&self) -> BalanceView {
        BalanceView { ticker: self.ticker@, total: self.total, available: self.available }
    }
}

impl BRC20Balance {
    /// An empty balance of a ticker.
    pub fn new_with_ticker(ticker: &BRC20Ticker) -> (r: BRC20Balance)
        ensures
            r@ == (BalanceView { ticker: ticker@, total: 0, available: 0 }),
    {
        BRC20Balance { ticker: ticker.copy(), total: 0, available: 0 }
    }

    /// A copy.
    pub fn copy(&self) -> (r: BRC20Balance)
        ensures
            r@ == self@,
    {
        BRC20Balance { ticker: self.ticker.copy(), total: self.total, available: self.available }
    }
}

/// What a deployment recorded of a ticker, and what minting and burning changed.
#[derive(Debug, Clone)]
pub struct BRC20TickerInfo {
    pub ticker: BRC20Ticker,
    pub sequence_number: u32,
    pub inscription_number: i32,
    pub inscription_id: InscriptionId,
    pub total_supply: u128,
    pub burned: u128,
    pub minted: u128,
    pub max_mint_limit: u128,
    pub decimals: u8,
    pub deployer: UtxoAddress,
    pub self_minted: bool,
    pub deployed_block_height: u32,
    pub deployed_timestamp: u32,
    pub latest_minted_block_height: u32,
}

/// A ticker description as the contracts see it.
pub ghost struct TickerInfoView {
    pub ticker: Seq<char>,
    pub sequence_number: u32,
    pub inscription_number: i32,
    pub inscription_id: InscriptionId,
    pub total_supply: u128,
    pub burned: u128,
    pub minted: u128,
    pub max_mint_limit: u128,
    pub decimals: u8,
    pub deployer: OwnerView,
    pub self_minted: bool,
    pub deployed_block_height: u32,
    pub deployed_timestamp: u32,
    pub latest_minted_block_height: u32,
}

impl View for BRC20TickerInfo {
    type V = TickerInfoView;

    open spec fn view(&self) -> TickerInfoView {
        TickerInfoView {
            ticker: self.ticker@,
            sequence_number: self.sequence_number,
            inscription_number: self.inscription_number,
            inscription_id: self.inscription_id,
            total_supply: self.total_supply,
            burned: self.burned,
            minted: self.minted,
            max_mint_limit: self.max_mint_limit,
            decimals: self.decimals,
            deployer: self.deployer@,
            self_minted: self.self_minted,
            deployed_block_height: self.deployed_block_height,
            deployed_timestamp: self.deployed_timestamp,
            latest_minted_block_height: self.latest_minted_block_height,
        }
    }
}

impl BRC20TickerInfo {
    /// A copy.
    pub fn copy(&self) -> (r: BRC20TickerInfo)
        ensures
            r@ == self@,
    {
        BRC20TickerInfo {
            ticker: self.ticker.copy(),
            sequence_number: self.sequence_number,
            inscription_number: self.inscription_number,
            inscription_id: self.inscription_id,
            total_supply: self.total_supply,
            burned: self.burned,
            minted: self.minted,
            max_mint_limit: self.max_mint_limit,
            decimals: self.decimals,
            deployer: self.deployer.copy(),
            self_minted: self.self_minted,
            deployed_block_height: self.deployed_block_height,
            deployed_timestamp: self.deployed_timestamp,
            latest_minted_block_height: self.latest_minted_block_height,
        }
    }
}

/// An amount inscribed for transfer and not yet moved.
#[derive(Debug, Clone)]
pub struct BRC20TransferAsset {
    pub ticker: BRC20Ticker,
    pub amount: u128,
    pub owner: UtxoAddress,
    pub sequence_number: u32,
    pub inscription_number: i32,
    pub inscription_id: InscriptionId,
}

/// A transfer asset as the contracts see it.
pub ghost struct TransferAssetView {
    pub ticker: Seq<char>,
    pub amount: u128,
    pub owner: OwnerView,
    pub sequence_number: u32,
    pub inscription_number: i32,
    pub inscription_id: InscriptionId,
}

impl View for BRC20TransferAsset {
    type V = TransferAssetView;

    open spec fn view(&self) -> TransferAssetView {
        TransferAssetView {
            ticker: self.ticker@,
            amount: self.amount,
            owner: self.owner@,
            sequence_number: self.sequence_number,
            inscription_number: self.inscription_number,
            inscription_id: self.inscription_id,
        }
    }
}

/// The outcome of one operation, as the index reports it.
#[derive(Debug)]
pub struct BRC20Receipt {
    pub inscription_id: InscriptionId,
    pub sequence_number: u32,
    pub inscription_number: i32,
    pub old_satpoint: SatPoint,
    pub new_satpoint: SatPoint,
    pub op_type: BRC20OpType,
    pub sender: UtxoAddress,
    pub receiver: UtxoAddress,
    pub result: Result<BRC20Event, BRC20Error>,
}

/// A receipt as the contracts see it.
pub ghost struct ReceiptView {
    pub inscription_id: InscriptionId,
    pub sequence_number: u32,
    pub inscription_number: i32,
    pub old_satpoint: SatPoint,
    pub new_satpoint: SatPoint,
    pub op_type: BRC20OpType,
    pub sender: OwnerView,
    pub receiver: OwnerView,
    pub result: Result<EventView, ErrorView>,
}

impl View for BRC20Receipt {
    type V = ReceiptView;

    open spec fn view(&self) -> ReceiptView {
        ReceiptView {
            inscription_id: self.inscription_id,
            sequence_number: self.sequence_number,
            inscription_number: self.inscription_number,
            old_satpoint: self.old_satpoint,
            new_satpoint: self.new_satpoint,
            op_type: self.op_type,
            sender: self.sender@,
            receiver: self.receiver@,
            result: match self.result {
                Ok(e) => Ok(e@),
                Err(e) => Err(e@),
            },
        }
    }
}

/// A summary of the swap modules: how many records each table holds, and
/// every module.
#[derive(Debug, Clone)]
pub struct BRC20SwapInfo {
    pub total_module_count: u64,
    pub total_module_address_count: u64,
    pub total_module_swap_pool_address_count: u64,
    pub total_module_swap_pool_pair_count: u64,
    pub all_modules: Vec<BRC20ModuleInfo>,
}

/// A deployed swap module.
#[derive(Debug, Clone)]
pub struct BRC20ModuleInfo {
    pub id: String,
    pub name: String,
    pub deployer_pk_script: String,
    pub sequencer_pk_script: String,
    pub gas_to_pk_script: String,
    pub lp_fee_pk_script: String,
    pub fee_rate_swap: Brc20Decimal,
    pub gas_tick: String,
    pub chain_commit_id: Option<String>,
    pub commit_id: Option<String>,
}

/// The text held by an optional string.
pub open spec fn opt_text(o: Option<String>) -> Option<Seq<char>> {
    match o {
        Some(s) => Some(s@),
        None => None,
    }
}

/// A module as the contracts see it.
pub ghost struct ModuleInfoView {
    pub id: Seq<char>,
    pub name: Seq<char>,
    pub deployer_pk_script: Seq<char>,
    pub sequencer_pk_script: Seq<char>,
    pub gas_to_pk_script: Seq<char>,
    pub lp_fee_pk_script: Seq<char>,
    pub fee_rate_swap: (int, int),
    pub gas_tick: Seq<char>,
    pub chain_commit_id: Option<Seq<char>>,
    pub commit_id: Option<Seq<char>>,
}

impl View for BRC20ModuleInfo {
    type V = ModuleInfoView;

    open spec fn view(&self) -> ModuleInfoView {
        ModuleInfoView {
            id: self.id@,
            name: self.name@,
            deployer_pk_script: self.deployer_pk_script@,
            sequencer_pk_script: self.sequencer_pk_script@,
            gas_to_pk_script: self.gas_to_pk_script@,
            lp_fee_pk_script: self.lp_fee_pk_script@,
            fee_rate_swap: self.fee_rate_swap@,
            gas_tick: self.gas_tick@,
            chain_commit_id: opt_text(self.chain_commit_id),
            commit_id: opt_text(self.commit_id),
        }
    }
}

/// A copy of an optional string.
pub fn copy_opt(o: &Option<String>) -> (r: Option<String>)
    ensures
        opt_text(r) == opt_text(*o),
{
    match o {
        Some(s) => Some(s.clone()),
        None => None,
    }
}

impl BRC20ModuleInfo {
    /// A copy.
    pub fn copy(&self) -> (r: BRC20ModuleInfo)
        ensures
            r@ == self@,
    {
        BRC20ModuleInfo {
            id: self.id.clone(),
            name: self.name.clone(),
            deployer_pk_script: self.deployer_pk_script.clone(),
            sequencer_pk_script: self.sequencer_pk_script.clone(),
            gas_to_pk_script: self.gas_to_pk_script.clone(),
            lp_fee_pk_script: self.lp_fee_pk_script.clone(),
            fee_rate_swap: self.fee_rate_swap.copy(),
            gas_tick: self.gas_tick.clone(),
            chain_commit_id: copy_opt(&self.chain_commit_id),
            commit_id: copy_opt(&self.commit_id),
        }
    }
}

/// Where a holder's balance of one ticker in one module is kept.
#[derive(Debug, Clone)]
pub struct BRC20ModuleAddressTokenBalanceKey {
    pub address: UtxoAddress,
    pub module_id: String,
    pub ticker: BRC20LowerCaseTicker,
}

impl View for BRC20ModuleAddressTokenBalanceKey {
    type V = (OwnerView, Seq<char>, Seq<char>);

    open spec fn view(&self) -> (OwnerView, Seq<char>, Seq<char>) {
        (self.address@, self.module_id@, self.ticker@)
    }
}

impl TableKey for BRC20ModuleAddressTokenBalanceKey {
    fn key_eq(&self, other: &Self) -> (r: bool) {
        self.address.same(&other.address) && self.module_id == other.module_id
            && self.ticker.same(&other.ticker)
    }
}

impl BRC20ModuleAddressTokenBalanceKey {
    /// The key of a holder's balance of a ticker (looked up in lowercase) in a module.
    pub fn new(address: &UtxoAddress, module_id: &String, ticker: &BRC20Ticker) -> (r: Self)
        ensures
            r@ == (address@, module_id@, unicode_lowercase(ticker@)),
    {
        BRC20ModuleAddressTokenBalanceKey {
            address: address.copy(),
            module_id: module_id.clone(),
            ticker: ticker.to_lowercase(),
        }
    }
}

/// A holder's balances of one ticker in one module: what the swap account
/// holds, what is approved for withdrawal, and what is being withdrawn.
#[derive(Debug, Clone)]
pub struct BRC20ModuleTokenBalance {
    pub swap_account_balance: Brc20Decimal,
    pub available_balance: Brc20Decimal,
    pub pending_withdrawal_amount: Brc20Decimal,
}

/// Module balances as the contracts see them.
pub ghost struct TokenBalanceView {
    pub swap: (int, int),
    pub available: (int, int),
    pub pending: (int, int),
}

impl View for BRC20ModuleTokenBalance {
    type V = TokenBalanceView;

    open spec fn view(&self) -> TokenBalanceView {
        TokenBalanceView {
            swap: self.swap_account_balance@,
            available: self.available_balance@,
            pending: self.pending_withdrawal_amount@,
        }
    }
}

/// Empty module balances at a scale.
pub open spec fn empty_token_balance(scale: int) -> TokenBalanceView {
    TokenBalanceView { swap: (0, scale), available: (0, scale), pending: (0, scale) }
}

impl BRC20ModuleTokenBalance {
    /// Empty balances with no decimal places.
    pub fn new() -> (r: Self)
        ensures
            r@ == empty_token_balance(0),
    {
        Self::new_with_scale(0)
    }

    /// Empty balances at a scale of at most 18.
    pub fn new_with_scale(scale: u8) -> (r: Self)
        requires
            scale <= 18,
        ensures
            r@ == empty_token_balance(scale as int),
    {
        BRC20ModuleTokenBalance {
            swap_account_balance: Brc20Decimal::zero(scale),
            available_balance: Brc20Decimal::zero(scale),
            pending_withdrawal_amount: Brc20Decimal::zero(scale),
        }
    }

    /// A copy.
    pub fn copy(&self) -> (r: Self)
        ensures
            r@ == self@,
    {
        BRC20ModuleTokenBalance {
            swap_account_balance: self.swap_account_balance.copy(),
            available_balance: self.available_balance.copy(),
            pending_withdrawal_amount: self.pending_withdrawal_amount.copy(),
        }
    }
}

/// `a` comes before `b` in byte order (a proper prefix comes first).
pub open spec fn bytes_lt(a: Seq<u8>, b: Seq<u8>) -> bool {
    exists|k: int|
        0 <= k <= a.len() && k <= b.len() && a.subrange(0, k) == b.subrange(0, k) && (
        (k < a.len() && k < b.len() && a[k] < b[k]) || (k == a.len() && k < b.len()))
}

/// Compares bytes in byte order.
pub fn bytes_less(a: &[u8], b: &[u8]) -> (r: bool)
    ensures
        r == bytes_lt(a@, b@),
{
    let mut i: usize = 0;
    while i < a.len() && i < b.len() && a[i] == b[i]
        invariant
            i <= a@.len(),
            i <= b@.len(),
            a@.subrange(0, i as int) == b@.subrange(0, i as int),
        decreases a.len() - i,
    {
        assert(a@.subrange(0, i + 1) =~= a@.subrange(0, i as int).push(a@[i as int]));
        assert(b@.subrange(0, i + 1) =~= b@.subrange(0, i as int).push(b@[i as int]));
        i = i + 1;
    }
    let r = if i < a.len() && i < b.len() {
        a[i] < b[i]
    } else {
        i == a.len() && i < b.len()
    };
    proof {
        if r {
            assert(bytes_lt(a@, b@));
        } else if bytes_lt(a@, b@) {
            let k = choose|k: int|
                0 <= k <= a@.len() && k <= b@.len() && a@.subrange(0, k) == b@.subrange(0, k) && (
                (k < a@.len() && k < b@.len() && a@[k] < b@[k]) || (k == a@.len() && k < b@.len()));
            if k < i {
                assert(a@.subrange(0, i as int)[k] == a@[k]);
                assert(b@.subrange(0, i as int)[k] == b@[k]);
            } else if k > i {
                assert(a@.subrange(0, k)[i as int] == a@[i as int]);
                assert(b@.subrange(0, k)[i as int] == b@[i as int]);
            }
        }
    }
    r
}

/// The two tickers of a pool, lowercased and in byte order, stored as the
/// length of the first, then the bytes of both.
#[derive(Debug, Clone)]
pub struct BRC20ModulePoolPair {
    bytes: Vec<u8>,
}

impl View for BRC20ModulePoolPair {
    type V = Seq<u8>;

    closed spec fn view(&self) -> Seq<u8> {
        self.bytes@
    }
}

/// The stored form of a pool of two lowercase ticker names (as bytes).
pub open spec fn pair_bytes(a: Seq<u8>, b: Seq<u8>) -> Seq<u8> {
    let (first, second) = if !bytes_lt(a, b) { (b, a) } else { (a, b) };
    seq![first.len() as u8] + first + second
}

/// Byte order is asymmetric: `a` and `b` do not each come before the other.
pub proof fn lemma_bytes_lt_asymmetric(a: Seq<u8>, b: Seq<u8>)
    requires
        bytes_lt(a, b),
    ensures
        !bytes_lt(b, a),
{
    let k1 = choose|k: int|
        0 <= k <= a.len() && k <= b.len() && a.subrange(0, k) == b.subrange(0, k) && (
        (k < a.len() && k < b.len() && a[k] < b[k]) || (k == a.len() && k < b.len()));
    if bytes_lt(b, a) {
        let k2 = choose|k: int|
            0 <= k <= b.len() && k <= a.len() && b.subrange(0, k) == a.subrange(0, k) && (
            (k < b.len() && k < a.len() && b[k] < a[k]) || (k == b.len() && k < a.len()));
        if k1 < k2 {
            assert(b.subrange(0, k2)[k1] == a.subrange(0, k2)[k1]);
        } else if k2 < k1 {
            assert(a.subrange(0, k1)[k2] == b.subrange(0, k1)[k2]);
        }
    }
}

/// Two byte strings agreeing on their first `i` bytes, neither before the
/// other from there on, are equal.
proof fn lemma_bytes_not_lt_from(a: Seq<u8>, b: Seq<u8>, i: int)
    requires
        0 <= i <= a.len(),
        i <= b.len(),
        a.subrange(0, i) == b.subrange(0, i),
        !bytes_lt(a, b),
        !bytes_lt(b, a),
    ensures
        a == b,
    decreases a.len() - i,
{
    if i == a.len() || i == b.len() {
        if i == a.len() && i < b.len() {
            assert(bytes_lt(a, b));
        } else if i == b.len() && i < a.len() {
            assert(bytes_lt(b, a));
        } else {
            assert(a =~= a.subrange(0, i));
            assert(b =~= b.subrange(0, i));
        }
    } else if a[i] < b[i] {
        assert(bytes_lt(a, b));
    } else if b[i] < a[i] {
        assert(bytes_lt(b, a));
    } else {
        assert(a.subrange(0, i + 1) =~= a.subrange(0, i).push(a[i]));
        assert(b.subrange(0, i + 1) =~= b.subrange(0, i).push(b[i]));
        lemma_bytes_not_lt_from(a, b, i + 1);
    }
}

/// Byte order is total: of two different byte strings one comes first.
pub proof fn lemma_bytes_lt_total(a: Seq<u8>, b: Seq<u8>)
    requires
        a != b,
    ensures
        bytes_lt(a, b) || bytes_lt(b, a),
{
    if !bytes_lt(a, b) && !bytes_lt(b, a) {
        assert(a.subrange(0, 0) =~= b.subrange(0, 0));
        lemma_bytes_not_lt_from(a, b, 0);
    }
}

/// A pool pair does not depend on the order in which its two names are given.
pub proof fn lemma_pair_bytes_symmetric(a: Seq<u8>, b: Seq<u8>)
    ensures
        pair_bytes(a, b) == pair_bytes(b, a),
{
    if bytes_lt(a, b) {
        lemma_bytes_lt_asymmetric(a, b);
    } else if bytes_lt(b, a) {
        lemma_bytes_lt_asymmetric(b, a);
    } else if a != b {
        lemma_bytes_lt_total(a, b);
    }
}

/// The pool of two tickers is the same whichever is named first.
pub proof fn lemma_pool_pair_order_free(t0: Seq<char>, t1: Seq<char>)
    ensures
        pair_bytes(encode_utf8(unicode_lowercase(t0)), encode_utf8(unicode_lowercase(t1)))
            == pair_bytes(encode_utf8(unicode_lowercase(t1)), encode_utf8(unicode_lowercase(t0))),
{
    lemma_pair_bytes_symmetric(encode_utf8(unicode_lowercase(t0)), encode_utf8(unicode_lowercase(t1)));
}

impl BRC20ModulePoolPair {
    /// The pool of two tickers, in either order.
    pub fn new(token0: &BRC20Ticker, token1: &BRC20Ticker) -> (r: Self)
        ensures
            r@ == pair_bytes(encode_utf8(unicode_lowercase(token0@)), encode_utf8(unicode_lowercase(token1@))),
            r@.len() > 0,
            valid_utf8(r@.drop_first()),
    {
        let lower0 = token0.to_lowercase();
        let lower1 = token1.to_lowercase();
        let b0 = lower0.to_box();
        let b1 = lower1.to_box();
        let (first, second) = if !bytes_less(b0.as_slice(), b1.as_slice()) { (b1, b0) } else { (b0, b1) };
        let mut result: Vec<u8> = Vec::new();
        result.push(first.len() as u8);
        let mut i: usize = 0;
        while i < first.len()
            invariant
                i <= first@.len(),
                result@ == seq![first@.len() as u8] + first@.subrange(0, i as int),
            decreases first.len() - i,
        {
            result.push(first[i]);
            i = i + 1;
            assert(result@ =~= seq![first@.len() as u8] + first@.subrange(0, i as int));
        }
        let mut j: usize = 0;
        while j < second.len()
            invariant
                j <= second@.len(),
                result@ == seq![first@.len() as u8] + first@ + second@.subrange(0, j as int),
            decreases second.len() - j,
        {
            result.push(second[j]);
            j = j + 1;
            assert(result@ =~= seq![first@.len() as u8] + first@ + second@.subrange(0, j as int));
        }
        assert(first@.subrange(0, first@.len() as int) =~= first@);
        assert(second@.subrange(0, second@.len() as int) =~= second@);
        proof {
            vstd::utf8::valid_utf8_concat(first@, second@);
            assert(result@.drop_first() =~= first@ + second@);
        }
        BRC20ModulePoolPair { bytes: result }
    }

    /// The stored bytes.
    pub fn as_bytes(&self) -> (r: &[u8])
        ensures
            r@ == self@,
    {
        self.bytes.as_slice()
    }

    /// A pool pair read back from its stored bytes.
    pub fn from_bytes(b: &[u8]) -> (r: Self)
        ensures
            r@ == b@,
    {
        BRC20ModulePoolPair { bytes: slice_to_vec(b) }
    }

    /// A copy.
    pub fn copy(&self) -> (r: Self)
        ensures
            r@ == self@,
    {
        BRC20ModulePoolPair { bytes: slice_to_vec(self.bytes.as_slice()) }
    }

    /// Same pool.
    pub fn same(&self, other: &Self) -> (r: bool)
        ensures
            r == (self@ == other@),
    {
        bytes_eq(self.bytes.as_slice(), other.bytes.as_slice())
    }

    /// The bytes after the length prefix as text (see `pair_text`).
    pub fn to_string(&self) -> (r: String)
        ensures
            self@.len() <= 1 ==> r@ == Seq::<char>::empty(),
            self@.len() > 0 && valid_utf8(self@.drop_first()) ==> r@ == pair_text(self@),
    {
        if self.bytes.len() <= 1 {
            return String::new();
        }
        let rest = vstd::slice::slice_subrange(self.bytes.as_slice(), 1, self.bytes.len());
        assert(rest@ =~= self@.drop_first());
        string_from_utf8_lossy(rest)
    }

    /// The pool's first name (after the length prefix) is the lowercase form of the ticker.
    pub fn starts_with(&self, ticker: &BRC20Ticker) -> (r: bool)
        ensures
            r == first_token_is(self@, encode_utf8(unicode_lowercase(ticker@))),
    {
        let lower = ticker.to_lowercase().to_box();
        if self.bytes.len() == 0 {
            return false;
        }
        let n = self.bytes[0] as usize;
        if n + 1 > self.bytes.len() {
            return false;
        }
        let first = vstd::slice::slice_subrange(self.bytes.as_slice(), 1, n + 1);
        bytes_eq(first, lower.as_slice())
    }
}

/// The text of a stored pool pair: the bytes after the length prefix (both
/// names, one after the other), empty for a pair of at most one byte.
pub open spec fn pair_text(pair: Seq<u8>) -> Seq<char> {
    if pair.len() <= 1 { Seq::empty() } else { decode_utf8(pair.drop_first()) }
}

/// The first name of a stored pool pair (by its length prefix) is `name`.
pub open spec fn first_token_is(pair: Seq<u8>, name: Seq<u8>) -> bool {
    pair.len() > 0 && pair[0] + 1 <= pair.len() && pair.subrange(1, pair[0] + 1) == name
}

/// `String::from_utf8_lossy`: text of the bytes, each invalid sequence
/// replaced by U+FFFD; of valid UTF-8 it gives the decoded text (what it does
/// with invalid bytes is left unsaid here).
#[verifier::external_body]
fn string_from_utf8_lossy(b: &[u8]) -> (r: String)
    ensures
        valid_utf8(b@) ==> r@ == decode_utf8(b@),
{
    String::from_utf8_lossy(b).to_string()
}

/// Where a module's pool of two tickers is kept.
#[derive(Debug, Clone)]
pub struct BRC20ModuleSwapPoolPairBalanceKey {
    pub module_id: String,
    pub pool_pair: BRC20ModulePoolPair,
}

impl View for BRC20ModuleSwapPoolPairBalanceKey {
    type V = (Seq<char>, Seq<u8>);

    open spec fn view(&self) -> (Seq<char>, Seq<u8>) {
        (self.module_id@, self.pool_pair@)
    }
}

impl TableKey for BRC20ModuleSwapPoolPairBalanceKey {
    fn key_eq(&self, other: &Self) -> (r: bool) {
        self.module_id == other.module_id && self.pool_pair.same(&other.pool_pair)
    }
}

impl BRC20ModuleSwapPoolPairBalanceKey {
    /// The key of a module's pool.
    pub fn new(module_id: &String, pool_pair: &BRC20ModulePoolPair) -> (r: Self)
        ensures
            r@ == (module_id@, pool_pair@),
    {
        BRC20ModuleSwapPoolPairBalanceKey { module_id: module_id.clone(), pool_pair: pool_pair.copy() }
    }
}

/// A pool: its two tickers in deployment order, how much of each it holds,
/// the liquidity shares issued, and the square root of the product of its
/// balances when liquidity last changed.
#[derive(Debug, Clone)]
pub struct BRC20ModuleSwapPoolPairBalance {
    pub tick: [BRC20Ticker; 2],
    pub tick_balance: [Brc20Decimal; 2],
    pub lp_balance: Brc20Decimal,
    pub last_root_k: Brc20Decimal,
}

/// A pool as the contracts see it.
pub ghost struct PoolView {
    pub tick0: Seq<char>,
    pub tick1: Seq<char>,
    pub balance0: (int, int),
    pub balance1: (int, int),
    pub lp: (int, int),
    pub root_k: (int, int),
}

impl View for BRC20ModuleSwapPoolPairBalance {
    type V = PoolView;

    open spec fn view(&self) -> PoolView {
        PoolView {
            tick0: self.tick@[0]@,
            tick1: self.tick@[1]@,
            balance0: self.tick_balance@[0]@,
            balance1: self.tick_balance@[1]@,
            lp: self.lp_balance@,
            root_k: self.last_root_k@,
        }
    }
}

impl BRC20ModuleSwapPoolPairBalance {
    /// A new pool holding the given balances, with no shares issued.
    pub fn new_with_balance(
        ticker1: BRC20Ticker,
        ticker2: BRC20Ticker,
        ticker1_balance: Brc20Decimal,
        ticker2_balance: Brc20Decimal,
    ) -> (r: Self)
        ensures
            r@ == (PoolView {
                tick0: ticker1@,
                tick1: ticker2@,
                balance0: ticker1_balance@,
                balance1: ticker2_balance@,
                lp: (0, 18),
                root_k: (0, 18),
            }),
    {
        BRC20ModuleSwapPoolPairBalance {
            tick: [ticker1, ticker2],
            tick_balance: [ticker1_balance, ticker2_balance],
            lp_balance: Brc20Decimal::zero(18),
            last_root_k: Brc20Decimal::zero(18),
        }
    }

    /// A copy.
    pub fn copy(&self) -> (r: Self)
        ensures
            r@ == self@,
    {
        BRC20ModuleSwapPoolPairBalance {
            tick: [self.tick[0].copy(), self.tick[1].copy()],
            tick_balance: [self.tick_balance[0].copy(), self.tick_balance[1].copy()],
            lp_balance: self.lp_balance.copy(),
            last_root_k: self.last_root_k.copy(),
        }
    }
}

/// Where a holder's liquidity shares of a module's pool are kept.
#[derive(Debug, Clone)]
pub struct BRC20ModuleAddressLPTokenBalanceKey {
    pub module_id: String,
    pub address: UtxoAddress,
    pub pool_pair: BRC20ModulePoolPair,
}

impl View for BRC20ModuleAddressLPTokenBalanceKey {
    type V = (Seq<char>, OwnerView, Seq<u8>);

    open spec fn view(&self) -> (Seq<char>, OwnerView, Seq<u8>) {
        (self.module_id@, self.address@, self.pool_pair@)
    }
}

impl TableKey for BRC20ModuleAddressLPTokenBalanceKey {
    fn key_eq(&self, other: &Self) -> (r: bool) {
        self.module_id == other.module_id && self.address.same(&other.address)
            && self.pool_pair.same(&other.pool_pair)
    }
}

impl BRC20ModuleAddressLPTokenBalanceKey {
    /// The key of a holder's shares of a module's pool.
    pub fn new(module_id: &String, address: &UtxoAddress, pool_pair: &BRC20ModulePoolPair) -> (r: Self)
        ensures
            r@ == (module_id@, address@, pool_pair@),
    {
        BRC20ModuleAddressLPTokenBalanceKey {
            module_id: module_id.clone(),
            address: address.copy(),
            pool_pair: pool_pair.copy(),
        }
    }
}

/// A holder's liquidity shares of a pool: free and locked.
#[derive(Debug, Clone)]
pub struct BRC20ModuleLPTokenBalance {
    pub balance: Brc20Decimal,
    pub locked_balance: Brc20Decimal,
}

/// Liquidity shares as the contracts see them.
pub ghost struct LpView {
    pub balance: (int, int),
    pub locked: (int, int),
}

impl View for BRC20ModuleLPTokenBalance {
    type V = LpView;

    open spec fn view(&self) -> LpView {
        LpView { balance: self.balance@, locked: self.locked_balance@ }
    }
}

impl BRC20ModuleLPTokenBalance {
    /// Shares with the given balances.
    pub fn new(balance: Brc20Decimal, locked_balance: Brc20Decimal) -> (r: Self)
        ensures
            r@ == (LpView { balance: balance@, locked: locked_balance@ }),
    {
        BRC20ModuleLPTokenBalance { balance, locked_balance }
    }

    /// No shares, at 18 decimal places.
    pub fn new_with_default() -> (r: Self)
        ensures
            r@ == (LpView { balance: (0, 18), locked: (0, 18) }),
    {
        BRC20ModuleLPTokenBalance { balance: Brc20Decimal::zero(18), locked_balance: Brc20Decimal::zero(18) }
    }

    /// A copy.
    pub fn copy(&self) -> (r: Self)
        ensures
            r@ == self@,
    {
        BRC20ModuleLPTokenBalance { balance: self.balance.copy(), locked_balance: self.locked_balance.copy() }
    }
}

/// Where a holder's balance of a ticker is kept (the ticker in lowercase).
#[derive(Debug, Clone)]
pub struct AddressTickerKey {
    pub primary: UtxoAddress,
    pub secondary: BRC20LowerCaseTicker,
}

impl View for AddressTickerKey {
    type V = (OwnerView, Seq<char>);

    open spec fn view(&self) -> (OwnerView, Seq<char>) {
        (self.primary@, self.secondary@)
    }
}

impl TableKey for AddressTickerKey {
    fn key_eq(&self, other: &Self) -> (r: bool) {
        self.primary.same(&other.primary) && self.secondary.same(&other.secondary)
    }
}

impl AddressTickerKey {
    /// The key of a holder's balance of a ticker.
    pub fn new(address: &UtxoAddress, ticker: &BRC20Ticker) -> (r: Self)
        ensures
            r@ == (address@, unicode_lowercase(ticker@)),
    {
        AddressTickerKey { primary: address.copy(), secondary: ticker.to_lowercase() }
    }
}

/// Where the index of a holder's transferable inscriptions keeps one of them.
#[derive(Debug, Clone)]
pub struct AddressTickerSatPointKey {
    pub address: UtxoAddress,
    pub ticker: BRC20LowerCaseTicker,
    pub satpoint: SatPoint,
}

impl View for AddressTickerSatPointKey {
    type V = (OwnerView, Seq<char>, SatPoint);

    open spec fn view(&self) -> (OwnerView, Seq<char>, SatPoint) {
        (self.address@, self.ticker@, self.satpoint)
    }
}

impl TableKey for AddressTickerSatPointKey {
    fn key_eq(&self, other: &Self) -> (r: bool) {
        self.address.same(&other.address) && self.ticker.same(&other.ticker)
            && self.satpoint.same(&other.satpoint)
    }
}

impl TableKey for BRC20LowerCaseTicker {
    fn key_eq(&self, other: &Self) -> (r: bool) {
        self.same(other)
    }
}

impl TableKey for String {
    fn key_eq(&self, other: &Self) -> (r: bool) {
        *self == *other
    }
}

impl View for SatPoint {
    type V = SatPoint;

    open spec fn view(&self) -> SatPoint {
        *self
    }
}

impl TableKey for SatPoint {
    fn key_eq(&self, other: &Self) -> (r: bool) {
        self.same(other)
    }
}

} // verus!
