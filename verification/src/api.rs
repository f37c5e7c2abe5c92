//! What the query interface answers: shares of a holder, a pool's state, and
//! the inscriptions held by an output, built from what the index holds.

use vstd::prelude::*;
use crate::address::{UtxoAddress, InscriptionId, SatPoint, script_owner};
use crate::chain::Chain;
use crate::decimal::format_decimal;
use crate::entry::{
    BRC20ModuleInfo, BRC20ModuleLPTokenBalance, BRC20ModulePoolPair, BRC20ModuleSwapPoolPairBalance, BRC20SwapInfo,
    pair_text,
};
use bitcoin::Script;

verus! {

/// A holder's shares of a pool, as text.
#[derive(Debug, Clone)]
pub struct LpBalance {
    pub module_id: String,
    pub lp: String,
    pub balance: String,
    pub locked_balance: String,
}

/// A pool's tickers, balances and shares, as text.
#[derive(Debug, Clone)]
pub struct SwapPoolLpBalance {
    pub module_id: String,
    pub lp: String,
    pub ticker_0: String,
    pub ticker_1: String,
    pub ticker_0_balance: String,
    pub ticker_1_balance: String,
    pub lp_balance: String,
    pub last_root_k: String,
}

/// Counts of modules, accounts and pools, and every module.
#[derive(Debug, Clone)]
pub struct Brc20SwapInfo {
    pub total_module_count: u64,
    pub total_module_address_count: u64,
    pub total_module_swap_pool_address_count: u64,
    pub total_module_swap_pool_pair_count: u64,
    pub all_modules: Vec<BRC20ModuleInfo>,
}

/// Options of the module summary query.
#[derive(Debug, Clone, Copy)]
pub struct Brc20SwapInfoParams {
    pub without_op_return_address: bool,
}

/// An output of a transaction.
#[derive(Debug, Clone, Copy, PartialEq, Eq)]
pub struct OutPoint {
    pub txid: [u8; 32],
    pub vout: u32,
}

/// An inscription on an output: its id, number and location.
#[derive(Debug, Clone, Copy)]
pub struct ApiInscriptionDigest {
    pub id: InscriptionId,
    pub number: i64,
    pub location: SatPoint,
}

/// What an output holds: its transaction, script (in assembly), owner,
/// value, and the inscriptions on it.
#[derive(Debug, Clone)]
pub struct ApiOutpointInscriptions {
    pub txid: [u8; 32],
    pub script_pub_key: String,
    pub owner: UtxoAddress,
    pub value: u64,
    pub inscription_digest: Vec<ApiInscriptionDigest>,
}

/// The answer about an output, with the index's latest block.
#[derive(Debug, Clone)]
pub struct ApiOutPointResult {
    pub result: Option<ApiOutpointInscriptions>,
    pub latest_blockhash: [u8; 32],
    pub latest_height: u32,
}

/// A query about several outputs.
#[derive(Debug, Clone)]
pub struct OutpointsReq {
    pub outpoint: Vec<OutPoint>,
    pub all_inscription_digests: bool,
}

/// The answers about several outputs, one per output asked about.
#[derive(Debug, Clone)]
pub struct ApiOutPointsResult {
    pub success: bool,
    pub result: Vec<(OutPoint, ApiOutPointResult)>,
}

/// What `Script::to_asm_string` gives for a script.
pub uninterp spec fn script_asm(script: Seq<u8>) -> Seq<char>;

/// `Script::to_asm_string`.
#[verifier::external_body]
fn script_to_asm(b: &[u8]) -> (r: String)
    ensures
        r@ == script_asm(b@),
{
    Script::from_bytes(b).to_asm_string()
}

/// The scale of an amount can be written out as text.
pub open spec fn printable(v: (int, int)) -> bool {
    -(usize::MAX as int) < v.1 < usize::MAX
}

/// A holder's shares of a pool as text: the pool pair's text and both balances.
pub fn lp_balance_view(module_id: String, pair: &BRC20ModulePoolPair, shares: &BRC20ModuleLPTokenBalance) -> (r: LpBalance)
    requires
        pair@.len() > 0,
        vstd::utf8::valid_utf8(pair@.drop_first()),
        printable(shares@.balance),
        printable(shares@.locked),
    ensures
        r.module_id@ == module_id@,
        r.lp@ == pair_text(pair@),
        r.balance@ == format_decimal(shares@.balance),
        r.locked_balance@ == format_decimal(shares@.locked),
{
    LpBalance {
        module_id,
        lp: pair.to_string(),
        balance: shares.balance.to_string(),
        locked_balance: shares.locked_balance.to_string(),
    }
}

/// A pool as text: the pool pair's text, its tickers in the pool's order, its
/// balances, shares and last root of the product of its balances.
pub fn swap_pool_view(module_id: String, pair: &BRC20ModulePoolPair, pool: &BRC20ModuleSwapPoolPairBalance) -> (r: SwapPoolLpBalance)
    requires
        pair@.len() > 0,
        vstd::utf8::valid_utf8(pair@.drop_first()),
        printable(pool@.balance0),
        printable(pool@.balance1),
        printable(pool@.lp),
        printable(pool@.root_k),
    ensures
        r.module_id@ == module_id@,
        r.lp@ == pair_text(pair@),
        r.ticker_0@ == pool@.tick0,
        r.ticker_1@ == pool@.tick1,
        r.ticker_0_balance@ == format_decimal(pool@.balance0),
        r.ticker_1_balance@ == format_decimal(pool@.balance1),
        r.lp_balance@ == format_decimal(pool@.lp),
        r.last_root_k@ == format_decimal(pool@.root_k),
{
    SwapPoolLpBalance {
        module_id,
        lp: pair.to_string(),
        ticker_0: pool.tick[0].to_string(),
        ticker_1: pool.tick[1].to_string(),
        ticker_0_balance: pool.tick_balance[0].to_string(),
        ticker_1_balance: pool.tick_balance[1].to_string(),
        lp_balance: pool.lp_balance.to_string(),
        last_root_k: pool.last_root_k.to_string(),
    }
}

/// The module summary as the query interface answers it.
pub fn swap_info_view(info: BRC20SwapInfo) -> (r: Brc20SwapInfo)
    ensures
        r.total_module_count == info.total_module_count,
        r.total_module_address_count == info.total_module_address_count,
        r.total_module_swap_pool_address_count == info.total_module_swap_pool_address_count,
        r.total_module_swap_pool_pair_count == info.total_module_swap_pool_pair_count,
        r.all_modules@ == info.all_modules@,
{
    Brc20SwapInfo {
        total_module_count: info.total_module_count,
        total_module_address_count: info.total_module_address_count,
        total_module_swap_pool_address_count: info.total_module_swap_pool_address_count,
        total_module_swap_pool_pair_count: info.total_module_swap_pool_pair_count,
        all_modules: info.all_modules,
    }
}

/// The answer about an output. `found` lists the inscriptions on it (location,
/// id, number); with none the answer holds no result. Otherwise it holds the
/// output's transaction, the script in assembly, its owner on the chain, the
/// value, and a digest of every inscription found, or only of the first one
/// when `all_digests` is not set.
pub fn outpoint_result(
    outpoint: &OutPoint,
    found: &Vec<(SatPoint, InscriptionId, i64)>,
    value: u64,
    script: &[u8],
    chain: &Chain,
    latest_height: u32,
    latest_blockhash: [u8; 32],
    all_digests: bool,
) -> (r: ApiOutPointResult)
    ensures
        r.latest_height == latest_height,
        r.latest_blockhash == latest_blockhash,
        found@.len() == 0 ==> r.result is None,
        found@.len() > 0 ==> (r.result matches Some(x) && {
            &&& x.txid == outpoint.txid
            &&& x.value == value
            &&& x.script_pub_key@ == script_asm(script@)
            &&& x.owner@ == script_owner(script@, *chain)
            &&& x.inscription_digest@.len() == (if all_digests { found@.len() } else { 1 })
            &&& forall|i: int| 0 <= i < x.inscription_digest@.len() ==> {
                let d = #[trigger] x.inscription_digest@[i];
                d.location == found@[i].0 && d.id == found@[i].1 && d.number == found@[i].2
            }
        }),
{
    if found.len() == 0 {
        return ApiOutPointResult { result: None, latest_blockhash, latest_height };
    }
    let mut digests: Vec<ApiInscriptionDigest> = Vec::new();
    let n: usize = if all_digests { found.len() } else { 1 };
    let mut i: usize = 0;
    while i < n
        invariant
            n <= found@.len(),
            i <= n,
            digests@.len() == i,
            forall|j: int| 0 <= j < i ==> {
                let d = #[trigger] digests@[j];
                d.location == found@[j].0 && d.id == found@[j].1 && d.number == found@[j].2
            },
        decreases n - i,
    {
        let (location, id, number) = found[i];
        digests.push(ApiInscriptionDigest { id, number, location });
        i = i + 1;
    }
    ApiOutPointResult {
        result: Some(ApiOutpointInscriptions {
            txid: outpoint.txid,
            script_pub_key: script_to_asm(script),
            owner: UtxoAddress::from_script(script, chain),
            value,
            inscription_digest: digests,
        }),
        latest_blockhash,
        latest_height,
    }
}

} // verus!
