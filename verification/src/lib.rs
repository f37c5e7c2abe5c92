//! Verified core of a BRC-20 indexer with a swap module: tickers, fixed-point
//! amounts, pool and account bookkeeping, and the rules that move balances.

pub mod bigint;
pub mod decimal;
pub mod ticker;
pub mod reorg;
pub mod chain;
pub mod address;
pub mod utils;
pub mod error;
pub mod table;
pub mod event;
pub mod operation;
pub mod entry;
pub mod record;
pub mod state;
pub mod amount;
pub mod verify;
pub mod params;
pub mod account;
pub mod pool;
pub mod liquidity;
pub mod executor;
pub mod commit;
pub mod api;
pub mod unisat;
pub mod block;
pub mod indexing;
