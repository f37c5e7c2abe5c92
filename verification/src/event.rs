//! What an executed operation reports.

use vstd::prelude::*;
use crate::operation::BRC20Operation;
use crate::ticker::BRC20Ticker;

verus! {

/// The kind of an operation.
#[derive(Debug, Clone, Copy, PartialEq, Eq)]
pub enum BRC20OpType {
    Deploy,
    Mint,
    InscribeTransfer,
    Transfer,
    CreateModule,
    Withdraw,
    Commit,
    TransferWithdraw,
    TransferCommit,
}

/// The kind of each operation.
pub open spec fn op_type_of(op: BRC20Operation) -> BRC20OpType {
    match op {
        BRC20Operation::Deploy(_) => BRC20OpType::Deploy,
        BRC20Operation::Mint(_) => BRC20OpType::Mint,
        BRC20Operation::InscribeTransfer { .. } => BRC20OpType::InscribeTransfer,
        BRC20Operation::Transfer(_) => BRC20OpType::Transfer,
        BRC20Operation::CreateModule(_) => BRC20OpType::CreateModule,
        BRC20Operation::Withdraw(_) => BRC20OpType::Withdraw,
        BRC20Operation::Commit(_) => BRC20OpType::Commit,
        BRC20Operation::TransferWithdraw(_) => BRC20OpType::TransferWithdraw,
        BRC20Operation::TransferCommit(_) => BRC20OpType::TransferCommit,
    }
}

impl BRC20OpType {
    /// The kind of an operation.
    pub fn from_operation(value: &BRC20Operation) -> (r: BRC20OpType)
        ensures
            r == op_type_of(*value),
    {
        match value {
            BRC20Operation::Deploy(_) => BRC20OpType::Deploy,
            BRC20Operation::Mint(_) => BRC20OpType::Mint,
            BRC20Operation::InscribeTransfer { .. } => BRC20OpType::InscribeTransfer,
            BRC20Operation::Transfer(_) => BRC20OpType::Transfer,
            BRC20Operation::CreateModule(_) => BRC20OpType::CreateModule,
            BRC20Operation::Withdraw(_) => BRC20OpType::Withdraw,
            BRC20Operation::Commit(_) => BRC20OpType::Commit,
            BRC20Operation::TransferWithdraw(_) => BRC20OpType::TransferWithdraw,
            BRC20Operation::TransferCommit(_) => BRC20OpType::TransferCommit,
        }
    }
}

/// What an operation did.
#[derive(Debug, Clone)]
pub enum BRC20Event {
    Deploy(DeployEvent),
    Mint(MintEvent),
    InscribeTransfer(InscribeTransferEvent),
    Transfer(TransferEvent),
    CreateModule(CreateModuleEvent),
    InscribeWithdraw(InscribeWithdrawEvent),
    TransferWithdraw(TransferWithdrawEvent),
    InscribeCommit(InscribeCommitEvent),
    TransferCommit(TransferCommitEvent),
}

#[derive(Debug, Clone)]
pub struct DeployEvent {
    pub ticker: BRC20Ticker,
    pub total_supply: u128,
    pub decimals: u8,
    pub self_minted: bool,
    pub max_mint_limit: u128,
}

#[derive(Debug, Clone)]
pub struct InscribeTransferEvent {
    pub ticker: BRC20Ticker,
    pub amount: u128,
}

#[derive(Debug, Clone)]
pub struct MintEvent {
    pub ticker: BRC20Ticker,
    pub amount: u128,
    pub clipped: bool,
}

#[derive(Debug, Clone)]
pub struct TransferEvent {
    pub ticker: BRC20Ticker,
    pub amount: u128,
    pub send_to_coinbase: bool,
    pub burned: bool,
}

#[derive(Debug, Clone)]
pub struct CreateModuleEvent {
    pub name: String,
    pub source: String,
    pub init: CreateModuleInitFields,
}

#[derive(Debug, Clone)]
pub struct CreateModuleInitFields {
    pub swap_fee_rate: String,
    pub gas_tick: String,
    pub gas_to: String,
    pub fee_to: String,
    pub sequencer: String,
}

#[derive(Debug, Clone)]
pub struct InscribeWithdrawEvent {
    pub ticker: BRC20Ticker,
    pub amount: String,
    pub module: String,
}

#[derive(Debug, Clone)]
pub struct TransferWithdrawEvent {
    pub ticker: BRC20Ticker,
    pub amount: String,
    pub module: String,
}

#[derive(Debug, Clone)]
pub struct InscribeCommitEvent {
    pub module: String,
}

#[derive(Debug, Clone)]
pub struct TransferCommitEvent {
    pub module: String,
}

/// What an event says, with texts as characters.
pub ghost enum EventView {
    Deploy { ticker: Seq<char>, total_supply: u128, decimals: u8, self_minted: bool, max_mint_limit: u128 },
    Mint { ticker: Seq<char>, amount: u128, clipped: bool },
    InscribeTransfer { ticker: Seq<char>, amount: u128 },
    Transfer { ticker: Seq<char>, amount: u128, send_to_coinbase: bool, burned: bool },
    CreateModule {
        name: Seq<char>,
        source: Seq<char>,
        swap_fee_rate: Seq<char>,
        gas_tick: Seq<char>,
        gas_to: Seq<char>,
        fee_to: Seq<char>,
        sequencer: Seq<char>,
    },
    InscribeWithdraw { ticker: Seq<char>, amount: Seq<char>, module: Seq<char> },
    TransferWithdraw { ticker: Seq<char>, amount: Seq<char>, module: Seq<char> },
    InscribeCommit { module: Seq<char> },
    TransferCommit { module: Seq<char> },
}

impl View for BRC20Event {
    type V = EventView;

    open spec fn view(&self) -> EventView {
        match self {
            BRC20Event::Deploy(e) => EventView::Deploy {
                ticker: e.ticker@,
                total_supply: e.total_supply,
                decimals: e.decimals,
                self_minted: e.self_minted,
                max_mint_limit: e.max_mint_limit,
            },
            BRC20Event::Mint(e) => EventView::Mint { ticker: e.ticker@, amount: e.amount, clipped: e.clipped },
            BRC20Event::InscribeTransfer(e) => EventView::InscribeTransfer { ticker: e.ticker@, amount: e.amount },
            BRC20Event::Transfer(e) => EventView::Transfer {
                ticker: e.ticker@,
                amount: e.amount,
                send_to_coinbase: e.send_to_coinbase,
                burned: e.burned,
            },
            BRC20Event::CreateModule(e) => EventView::CreateModule {
                name: e.name@,
                source: e.source@,
                swap_fee_rate: e.init.swap_fee_rate@,
                gas_tick: e.init.gas_tick@,
                gas_to: e.init.gas_to@,
                fee_to: e.init.fee_to@,
                sequencer: e.init.sequencer@,
            },
            BRC20Event::InscribeWithdraw(e) => EventView::InscribeWithdraw {
                ticker: e.ticker@,
                amount: e.amount@,
                module: e.module@,
            },
            BRC20Event::TransferWithdraw(e) => EventView::TransferWithdraw {
                ticker: e.ticker@,
                amount: e.amount@,
                module: e.module@,
            },
            BRC20Event::InscribeCommit(e) => EventView::InscribeCommit { module: e.module@ },
            BRC20Event::TransferCommit(e) => EventView::TransferCommit { module: e.module@ },
        }
    }
}

} // verus!
