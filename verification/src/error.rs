//! Why an operation was refused.

use vstd::prelude::*;
use crate::decimal::{Brc20Decimal, DecimalError};
use crate::ticker::Error as TickerError;

verus! {

/// Why a BRC-20 or swap operation was refused.
#[derive(Debug, Clone)]
pub enum BRC20Error {
    DBError(String),
    TickerParse(TickerError),
    DuplicateDeployment(String),
    TickerNotFound(String),
    DecimalsExceedLimit(Brc20Decimal),
    InvalidSupply(Brc20Decimal),
    InvalidMaxMintLimit(Brc20Decimal),
    MintAmountExceedLimit(Brc20Decimal),
    InvalidAmount(Brc20Decimal),
    InvalidAmountFormat(String),
    InvalidAddress,
    MintingLimitReached,
    InsufficientBalance(Brc20Decimal, Brc20Decimal),
    SelfMintPermissionDenied,
    NumericError(DecimalError),
    DecimalParseError(String),
    AddressParseError(String),
    ModuleIDInvalid(String),
    ModuleNotExists(String),
    ModuleSourceNotMatch(String),
    ModuleNotFound(String),
    ModuleAlreadyExists(String),
    InvalidTickerAmount(u128),
    InsufficientModuleBalance(Brc20Decimal, Brc20Decimal),
    InvalidSwapFeeRate(String),
    InvalidGasTick(String),
    InvalidGasPrice(String),
    InvalidSequencer(String),
    InvalidGasTo(String),
    InvalidFeeTo(String),
    TickerInvalid(String),
    ModuleBalanceNotExists(String, String),
    InvalidWithdrawAmount(Brc20Decimal),
    InsufficientWithdrawAmount(Brc20Decimal, Brc20Decimal),
    InscribeWithdrawNotFound(String),
    RemoveInscribeWithdrawError(String),
    CommitInvalidFunction(String, String),
    CommitHandleFunctionFailed(String),
    LPTokenBalanceNotExists(String, String),
    InsufficientLPTokenBalance(Brc20Decimal, Brc20Decimal),
    InsufficientPoolBalance(Brc20Decimal, Brc20Decimal),
    InsufficientUserModuleBalance(Brc20Decimal, Brc20Decimal),
    SwapPoolTotalBalanceNotExists(String),
    DuplicateDeployPool(String),
    ModuleInvalid(String),
    CommitNotSendToModule(String),
    ModuleSequencerInvalid(String),
    CommitAddressInvalid(String),
    TokenBalanceInsufficient(String, String, String),
    CommitMissingParent(String),
    CommitParentAlreadySattled(String),
    CommitParentInvalid(String),
    InvalidLpAmount(Brc20Decimal),
    InvalidParamsLength(usize, usize),
    OverSlippage,
    SlippageError,
    InvalidSwapDirection(String),
}

/// What an error says, with texts as characters and amounts as (mantissa,
/// scale); of a numeric parse error only that it is one.
pub ghost enum ErrorView {
    DBError(Seq<char>),
    TickerParse(TickerError),
    DuplicateDeployment(Seq<char>),
    TickerNotFound(Seq<char>),
    DecimalsExceedLimit((int, int)),
    InvalidSupply((int, int)),
    InvalidMaxMintLimit((int, int)),
    MintAmountExceedLimit((int, int)),
    InvalidAmount((int, int)),
    InvalidAmountFormat(Seq<char>),
    InvalidAddress,
    MintingLimitReached,
    InsufficientBalance((int, int), (int, int)),
    SelfMintPermissionDenied,
    NumericError,
    DecimalParseError(Seq<char>),
    AddressParseError(Seq<char>),
    ModuleIDInvalid(Seq<char>),
    ModuleNotExists(Seq<char>),
    ModuleSourceNotMatch(Seq<char>),
    ModuleNotFound(Seq<char>),
    ModuleAlreadyExists(Seq<char>),
    InvalidTickerAmount(u128),
    InsufficientModuleBalance((int, int), (int, int)),
    InvalidSwapFeeRate(Seq<char>),
    InvalidGasTick(Seq<char>),
    InvalidGasPrice(Seq<char>),
    InvalidSequencer(Seq<char>),
    InvalidGasTo(Seq<char>),
    InvalidFeeTo(Seq<char>),
    TickerInvalid(Seq<char>),
    ModuleBalanceNotExists(Seq<char>, Seq<char>),
    InvalidWithdrawAmount((int, int)),
    InsufficientWithdrawAmount((int, int), (int, int)),
    InscribeWithdrawNotFound(Seq<char>),
    RemoveInscribeWithdrawError(Seq<char>),
    CommitInvalidFunction(Seq<char>, Seq<char>),
    CommitHandleFunctionFailed(Seq<char>),
    LPTokenBalanceNotExists(Seq<char>, Seq<char>),
    InsufficientLPTokenBalance((int, int), (int, int)),
    InsufficientPoolBalance((int, int), (int, int)),
    InsufficientUserModuleBalance((int, int), (int, int)),
    SwapPoolTotalBalanceNotExists(Seq<char>),
    DuplicateDeployPool(Seq<char>),
    ModuleInvalid(Seq<char>),
    CommitNotSendToModule(Seq<char>),
    ModuleSequencerInvalid(Seq<char>),
    CommitAddressInvalid(Seq<char>),
    TokenBalanceInsufficient(Seq<char>, Seq<char>, Seq<char>),
    CommitMissingParent(Seq<char>),
    CommitParentAlreadySattled(Seq<char>),
    CommitParentInvalid(Seq<char>),
    InvalidLpAmount((int, int)),
    InvalidParamsLength(usize, usize),
    OverSlippage,
    SlippageError,
    InvalidSwapDirection(Seq<char>),
}

impl View for BRC20Error {
    type V = ErrorView;

    open spec fn view(&self) -> ErrorView {
        match self {
            BRC20Error::DBError(a) => ErrorView::DBError(a@),
            BRC20Error::TickerParse(e) => ErrorView::TickerParse(*e),
            BRC20Error::DuplicateDeployment(a) => ErrorView::DuplicateDeployment(a@),
            BRC20Error::TickerNotFound(a) => ErrorView::TickerNotFound(a@),
            BRC20Error::DecimalsExceedLimit(d) => ErrorView::DecimalsExceedLimit(d@),
            BRC20Error::InvalidSupply(d) => ErrorView::InvalidSupply(d@),
            BRC20Error::InvalidMaxMintLimit(d) => ErrorView::InvalidMaxMintLimit(d@),
            BRC20Error::MintAmountExceedLimit(d) => ErrorView::MintAmountExceedLimit(d@),
            BRC20Error::InvalidAmount(d) => ErrorView::InvalidAmount(d@),
            BRC20Error::InvalidAmountFormat(a) => ErrorView::InvalidAmountFormat(a@),
            BRC20Error::InvalidAddress => ErrorView::InvalidAddress,
            BRC20Error::MintingLimitReached => ErrorView::MintingLimitReached,
            BRC20Error::InsufficientBalance(a, b) => ErrorView::InsufficientBalance(a@, b@),
            BRC20Error::SelfMintPermissionDenied => ErrorView::SelfMintPermissionDenied,
            BRC20Error::NumericError(_) => ErrorView::NumericError,
            BRC20Error::DecimalParseError(a) => ErrorView::DecimalParseError(a@),
            BRC20Error::AddressParseError(a) => ErrorView::AddressParseError(a@),
            BRC20Error::ModuleIDInvalid(a) => ErrorView::ModuleIDInvalid(a@),
            BRC20Error::ModuleNotExists(a) => ErrorView::ModuleNotExists(a@),
            BRC20Error::ModuleSourceNotMatch(a) => ErrorView::ModuleSourceNotMatch(a@),
            BRC20Error::ModuleNotFound(a) => ErrorView::ModuleNotFound(a@),
            BRC20Error::ModuleAlreadyExists(a) => ErrorView::ModuleAlreadyExists(a@),
            BRC20Error::InvalidTickerAmount(v) => ErrorView::InvalidTickerAmount(*v),
            BRC20Error::InsufficientModuleBalance(a, b) => ErrorView::InsufficientModuleBalance(a@, b@),
            BRC20Error::InvalidSwapFeeRate(a) => ErrorView::InvalidSwapFeeRate(a@),
            BRC20Error::InvalidGasTick(a) => ErrorView::InvalidGasTick(a@),
            BRC20Error::InvalidGasPrice(a) => ErrorView::InvalidGasPrice(a@),
            BRC20Error::InvalidSequencer(a) => ErrorView::InvalidSequencer(a@),
            BRC20Error::InvalidGasTo(a) => ErrorView::InvalidGasTo(a@),
            BRC20Error::InvalidFeeTo(a) => ErrorView::InvalidFeeTo(a@),
            BRC20Error::TickerInvalid(a) => ErrorView::TickerInvalid(a@),
            BRC20Error::ModuleBalanceNotExists(a, b) => ErrorView::ModuleBalanceNotExists(a@, b@),
            BRC20Error::InvalidWithdrawAmount(d) => ErrorView::InvalidWithdrawAmount(d@),
            BRC20Error::InsufficientWithdrawAmount(a, b) => ErrorView::InsufficientWithdrawAmount(a@, b@),
            BRC20Error::InscribeWithdrawNotFound(a) => ErrorView::InscribeWithdrawNotFound(a@),
            BRC20Error::RemoveInscribeWithdrawError(a) => ErrorView::RemoveInscribeWithdrawError(a@),
            BRC20Error::CommitInvalidFunction(a, b) => ErrorView::CommitInvalidFunction(a@, b@),
            BRC20Error::CommitHandleFunctionFailed(a) => ErrorView::CommitHandleFunctionFailed(a@),
            BRC20Error::LPTokenBalanceNotExists(a, b) => ErrorView::LPTokenBalanceNotExists(a@, b@),
            BRC20Error::InsufficientLPTokenBalance(a, b) => ErrorView::InsufficientLPTokenBalance(a@, b@),
            BRC20Error::InsufficientPoolBalance(a, b) => ErrorView::InsufficientPoolBalance(a@, b@),
            BRC20Error::InsufficientUserModuleBalance(a, b) => ErrorView::InsufficientUserModuleBalance(a@, b@),
            BRC20Error::SwapPoolTotalBalanceNotExists(a) => ErrorView::SwapPoolTotalBalanceNotExists(a@),
            BRC20Error::DuplicateDeployPool(a) => ErrorView::DuplicateDeployPool(a@),
            BRC20Error::ModuleInvalid(a) => ErrorView::ModuleInvalid(a@),
            BRC20Error::CommitNotSendToModule(a) => ErrorView::CommitNotSendToModule(a@),
            BRC20Error::ModuleSequencerInvalid(a) => ErrorView::ModuleSequencerInvalid(a@),
            BRC20Error::CommitAddressInvalid(a) => ErrorView::CommitAddressInvalid(a@),
            BRC20Error::TokenBalanceInsufficient(a, b, c) => ErrorView::TokenBalanceInsufficient(a@, b@, c@),
            BRC20Error::CommitMissingParent(a) => ErrorView::CommitMissingParent(a@),
            BRC20Error::CommitParentAlreadySattled(a) => ErrorView::CommitParentAlreadySattled(a@),
            BRC20Error::CommitParentInvalid(a) => ErrorView::CommitParentInvalid(a@),
            BRC20Error::InvalidLpAmount(d) => ErrorView::InvalidLpAmount(d@),
            BRC20Error::InvalidParamsLength(a, b) => ErrorView::InvalidParamsLength(*a, *b),
            BRC20Error::OverSlippage => ErrorView::OverSlippage,
            BRC20Error::SlippageError => ErrorView::SlippageError,
            BRC20Error::InvalidSwapDirection(a) => ErrorView::InvalidSwapDirection(a@),
        }
    }
}

/// Why executing an operation stopped: the operation was refused, or the
/// state was one the rules cannot go on from (the indexer halts on it).
#[derive(Debug, Clone)]
pub enum ExecutionError {
    ExecutionFailed(BRC20Error),
    Unexpected(String),
}

/// An execution error as the contracts see it.
pub ghost enum ExecView {
    Failed(ErrorView),
    Unexpected,
}

impl View for ExecutionError {
    type V = ExecView;

    open spec fn view(&self) -> ExecView {
        match self {
            ExecutionError::ExecutionFailed(e) => ExecView::Failed(e@),
            ExecutionError::Unexpected(_) => ExecView::Unexpected,
        }
    }
}

} // verus!
