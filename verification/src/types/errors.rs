use vstd::prelude::*;

verus! {

/// Why a transaction or an attribute was refused.
#[derive(Debug, Clone, Copy, PartialEq, Eq, Structural)]
pub enum TxError {
    AccountIndexTooHigh,
    AccountIndexTooLow,
    ApiKeyIndexTooHigh,
    ApiKeyIndexTooLow,
    ApprovalExpiryInvalid,
    ApprovalExpiryZeroOnRevocation,
    AssetIndexTooHigh,
    AssetIndexTooLow,
    AttributeValueOutOfRange,
    BaseAmountTooHigh,
    BaseAmountTooLow,
    ClientOrderIndexTooHigh,
    ClientOrderIndexTooLow,
    ExpiredAtInvalid,
    FeeTooHigh,
    FromAccountIndexTooHigh,
    FromAccountIndexTooLow,
    InitialSharesTooHigh,
    InitialSharesTooLow,
    IntegratorAccountIndexRequired,
    IntegratorAccountIndexTooHigh,
    IntegratorAccountIndexTooLow,
    InvalidMarginMode,
    InvalidMarketIndex,
    IsAskInvalid,
    MarginFractionTooHigh,
    MarginFractionTooLow,
    MinOperatorShareRateTooHigh,
    MinOperatorShareRateTooLow,
    NonceTooLow,
    OrderExpiryInvalid,
    OrderGroupSizeInvalid,
    OrderReduceOnlyInvalid,
    OrderTimeInForceInvalid,
    OrderTriggerPriceInvalid,
    OrderTypeInvalid,
    PoolOperatorFeeInvalid,
    PriceTooHigh,
    PriceTooLow,
    PubKeyInvalid,
    RouteTypeInvalid,
    ToAccountIndexTooHigh,
    ToAccountIndexTooLow,
    TooManyAttributes,
    TransferAmountTooHigh,
    TransferAmountTooLow,
    TransferFeeNegative,
    TransferFeeTooHigh,
    WithdrawalAmountTooHigh,
    WithdrawalAmountTooLow,
}

} // verus!
