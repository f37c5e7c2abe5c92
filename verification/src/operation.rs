//! The operations an inscription can carry, as read from its JSON content.

use vstd::prelude::*;
use crate::address::UtxoAddress;

verus! {

/// One call of a swap module function inside a commit.
#[derive(Debug, Clone)]
pub struct SwapFunctionData {
    pub address: Option<String>,
    pub function: Option<String>,
    pub params: Option<Vec<String>>,
    pub timestamp: Option<u32>,
    pub signature: Option<String>,
}

/// A batch of swap function calls sent to a module by its sequencer.
#[derive(Debug, Clone)]
pub struct Commit {
    pub module: Option<String>,
    pub parent: Option<String>,
    pub gas_price: Option<String>,
    pub data: Option<Vec<SwapFunctionData>>,
}

/// Deployment of a swap module.
#[derive(Debug, Clone)]
pub struct CreateModule {
    pub name: String,
    pub source: String,
    pub init: Init,
}

/// Settings of a new swap module.
#[derive(Debug, Clone)]
pub struct Init {
    pub swap_fee_rate: String,
    pub gas_tick: String,
    pub gas_to: String,
    pub fee_to: String,
    pub sequencer: String,
}

/// A withdrawal of a ticker from a swap module.
#[derive(Debug, Clone)]
pub struct Withdraw {
    pub p: String,
    pub op: String,
    pub tick: String,
    pub amt: String,
    pub module: String,
}

/// A ticker and an amount in text, as a withdrawal history names them.
#[derive(Debug, Clone)]
pub struct TickInfo {
    pub tick: String,
    pub readable_amount: String,
}

/// A deployment of a ticker.
#[derive(Debug, Clone)]
pub struct Deploy {
    pub tick: String,
    pub max_supply: String,
    pub mint_limit: Option<String>,
    pub decimals: Option<String>,
    pub self_mint: Option<String>,
}

/// A mint of a ticker.
#[derive(Debug, Clone)]
pub struct Mint {
    pub tick: String,
    pub amount: String,
}

/// An amount of a ticker inscribed for transfer.
#[derive(Debug, Clone)]
pub struct Transfer {
    pub tick: String,
    pub amount: String,
}

/// An operation carried by an inscription.
#[derive(Debug, Clone)]
pub enum BRC20Operation {
    Deploy(Deploy),
    Mint(Mint),
    InscribeTransfer { signer: Option<UtxoAddress>, transfer: Transfer },
    Transfer(Transfer),
    CreateModule(CreateModule),
    Withdraw(Withdraw),
    Commit(Commit),
    TransferWithdraw(Withdraw),
    TransferCommit(Commit),
}

/// The texts of a list of strings.
pub open spec fn texts(v: Seq<String>) -> Seq<Seq<char>> {
    v.map_values(|s: String| s@)
}

/// The texts of an optional list of strings.
pub open spec fn opt_texts(o: Option<Vec<String>>) -> Option<Seq<Seq<char>>> {
    match o {
        Some(v) => Some(texts(v@)),
        None => None,
    }
}

/// The text of an optional string.
pub open spec fn opt_str(o: Option<String>) -> Option<Seq<char>> {
    match o {
        Some(s) => Some(s@),
        None => None,
    }
}

/// A function call as the contracts see it.
pub ghost struct FunctionView {
    pub address: Option<Seq<char>>,
    pub function: Option<Seq<char>>,
    pub params: Option<Seq<Seq<char>>>,
    pub timestamp: Option<u32>,
    pub signature: Option<Seq<char>>,
}

impl View for SwapFunctionData {
    type V = FunctionView;

    open spec fn view(&self) -> FunctionView {
        FunctionView {
            address: opt_str(self.address),
            function: opt_str(self.function),
            params: opt_texts(self.params),
            timestamp: self.timestamp,
            signature: opt_str(self.signature),
        }
    }
}

/// The calls of an optional list of calls.
pub open spec fn opt_calls(o: Option<Vec<SwapFunctionData>>) -> Option<Seq<FunctionView>> {
    match o {
        Some(v) => Some(v@.map_values(|f: SwapFunctionData| f@)),
        None => None,
    }
}

/// A commit as the contracts see it.
pub ghost struct CommitView {
    pub module: Option<Seq<char>>,
    pub parent: Option<Seq<char>>,
    pub gas_price: Option<Seq<char>>,
    pub data: Option<Seq<FunctionView>>,
}

impl View for Commit {
    type V = CommitView;

    open spec fn view(&self) -> CommitView {
        CommitView {
            module: opt_str(self.module),
            parent: opt_str(self.parent),
            gas_price: opt_str(self.gas_price),
            data: opt_calls(self.data),
        }
    }
}

/// A withdrawal as the contracts see it.
pub ghost struct WithdrawView {
    pub p: Seq<char>,
    pub op: Seq<char>,
    pub tick: Seq<char>,
    pub amt: Seq<char>,
    pub module: Seq<char>,
}

impl View for Withdraw {
    type V = WithdrawView;

    open spec fn view(&self) -> WithdrawView {
        WithdrawView { p: self.p@, op: self.op@, tick: self.tick@, amt: self.amt@, module: self.module@ }
    }
}

impl Withdraw {
    /// A copy.
    pub fn copy(&self) -> (r: Withdraw)
        ensures
            r@ == self@,
    {
        Withdraw {
            p: self.p.clone(),
            op: self.op.clone(),
            tick: self.tick.clone(),
            amt: self.amt.clone(),
            module: self.module.clone(),
        }
    }
}

} // verus!
