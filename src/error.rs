use vstd::prelude::*;

verus! {

/// Why a call was refused. A refused call leaves the state unchanged.
#[derive(Clone, Copy, Debug, PartialEq, Eq, Structural)]
pub enum ContractError {
    SelfReferrer,
    AccountExists,
    WrongJoinFee,
    AccountDoesNotExist,
    NotRegisteredAccount,
    NoSale,
    WrongToken,
    SaleDone,
    SaleNotStarted,
    MustHaveStakingContract,
    NotWhitelistedStakingContract,
    MsgWrongFormat,
    AmountOverflow,
    NoAffiliateReward,
    RewardTransferPending,
    MustBeOwner,
    MustHaveMaxAmount,
    LimitPerTransactionTooBig,
    LimitPerTransactionTooSmall,
    MaxBuyLessThanMinBuy,
    NoTokenDecimals,
    WrongDecimals,
    WrongDates,
    StartDateTooBig,
    StartDateTooSmall,
    EndDateTooBig,
    EndDateTooSmall,
    WrongMinNearDeposit,
    NoStakingContracts,
}

/// The short code under which each error is reported to callers.
pub open spec fn error_code(e: ContractError) -> &'static str {
    match e {
        ContractError::SelfReferrer => "SELF_REFERRER",
        ContractError::AccountExists => "ERR_ACCOUNT_EXISTS",
        ContractError::WrongJoinFee => "ERR_FEE",
        ContractError::AccountDoesNotExist => "ERR_ACCOUNT_DOESNT_EXIST",
        ContractError::NotRegisteredAccount => "ERR_NOT_REGISTERED_ACCOUNT",
        ContractError::NoSale => "ERR_NO_SALE",
        ContractError::WrongToken => "ERR_WRONG_TOKEN",
        ContractError::SaleDone => "ERR_SALE_DONE",
        ContractError::SaleNotStarted => "ERR_SALE_NOT_STARTED",
        ContractError::MustHaveStakingContract => "ERR_MUST_HAVE_STAKING_CONTRACT",
        ContractError::NotWhitelistedStakingContract => "ERR_NOT_WHITELISTED_STAKING_CONTRACT",
        ContractError::MsgWrongFormat => "ERR_MSG_WRONG_FORMAT",
        ContractError::AmountOverflow => "ERR_AMOUNT_OVERFLOW",
        ContractError::NoAffiliateReward => "ERR_NO_AFFILIATE_REWARD",
        ContractError::RewardTransferPending => "ERR_REWARD_TRANSFER_PENDING",
        ContractError::MustBeOwner => "ERR_MUST_BE_OWNER",
        ContractError::MustHaveMaxAmount => "ERR_MUST_HAVE_MAX_AMOUNT",
        ContractError::LimitPerTransactionTooBig => "LIMIT_PER_TRANSACTION_IS_TO_BIG",
        ContractError::LimitPerTransactionTooSmall => "LIMIT_PER_TRANSACTION_IS_TO_SMALL",
        ContractError::MaxBuyLessThanMinBuy => "MAX_BUY_IS_LESS_THAN_MIN_BUY",
        ContractError::NoTokenDecimals => "ERR_NO_TOKEN_DECIMALS",
        ContractError::WrongDecimals => "WRONG_DECIMALS",
        ContractError::WrongDates => "WRONG_DATES",
        ContractError::StartDateTooBig => "START_DATE_IS_TO_BIG",
        ContractError::StartDateTooSmall => "START_DATE_IS_TO_SMALL",
        ContractError::EndDateTooBig => "END_DATE_IS_TO_BIG",
        ContractError::EndDateTooSmall => "END_DATE_IS_TO_SMALL",
        ContractError::WrongMinNearDeposit => "WRONG_MIN_NEAR_DEPOSIT",
        ContractError::NoStakingContracts => "NO_STAKING_CONTRACTS",
    }
}

impl ContractError {
    /// The short code under which the error is reported to callers.
    pub fn code(&self) -> (r: &'static str)
        ensures
            r == error_code(*self),
    {
        match self {
            ContractError::SelfReferrer => "SELF_REFERRER",
            ContractError::AccountExists => "ERR_ACCOUNT_EXISTS",
            ContractError::WrongJoinFee => "ERR_FEE",
            ContractError::AccountDoesNotExist => "ERR_ACCOUNT_DOESNT_EXIST",
            ContractError::NotRegisteredAccount => "ERR_NOT_REGISTERED_ACCOUNT",
            ContractError::NoSale => "ERR_NO_SALE",
            ContractError::WrongToken => "ERR_WRONG_TOKEN",
            ContractError::SaleDone => "ERR_SALE_DONE",
            ContractError::SaleNotStarted => "ERR_SALE_NOT_STARTED",
            ContractError::MustHaveStakingContract => "ERR_MUST_HAVE_STAKING_CONTRACT",
            ContractError::NotWhitelistedStakingContract => "ERR_NOT_WHITELISTED_STAKING_CONTRACT",
            ContractError::MsgWrongFormat => "ERR_MSG_WRONG_FORMAT",
            ContractError::AmountOverflow => "ERR_AMOUNT_OVERFLOW",
            ContractError::NoAffiliateReward => "ERR_NO_AFFILIATE_REWARD",
            ContractError::RewardTransferPending => "ERR_REWARD_TRANSFER_PENDING",
            ContractError::MustBeOwner => "ERR_MUST_BE_OWNER",
            ContractError::MustHaveMaxAmount => "ERR_MUST_HAVE_MAX_AMOUNT",
            ContractError::LimitPerTransactionTooBig => "LIMIT_PER_TRANSACTION_IS_TO_BIG",
            ContractError::LimitPerTransactionTooSmall => "LIMIT_PER_TRANSACTION_IS_TO_SMALL",
            ContractError::MaxBuyLessThanMinBuy => "MAX_BUY_IS_LESS_THAN_MIN_BUY",
            ContractError::NoTokenDecimals => "ERR_NO_TOKEN_DECIMALS",
            ContractError::WrongDecimals => "WRONG_DECIMALS",
            ContractError::WrongDates => "WRONG_DATES",
            ContractError::StartDateTooBig => "START_DATE_IS_TO_BIG",
            ContractError::StartDateTooSmall => "START_DATE_IS_TO_SMALL",
            ContractError::EndDateTooBig => "END_DATE_IS_TO_BIG",
            ContractError::EndDateTooSmall => "END_DATE_IS_TO_SMALL",
            ContractError::WrongMinNearDeposit => "WRONG_MIN_NEAR_DEPOSIT",
            ContractError::NoStakingContracts => "NO_STAKING_CONTRACTS",
        }
    }
}

} // verus!
