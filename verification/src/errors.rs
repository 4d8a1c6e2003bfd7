//! Error taxonomy of the market operations.

use vstd::prelude::*;

verus! {

/// Every way a market operation can fail.
///
/// All operations are all-or-nothing: when one of these is returned, no
/// ledger state has changed.
#[derive(Clone, Copy, Debug, PartialEq, Eq)]
pub enum ErrorCode {
    /// Order size is below the market's minimum.
    OrderTooSmall,
    /// Order size exceeds the market's per-side maximum.
    OrderTooLarge,
    /// Price is not an exact multiple of the tick size.
    InvalidPrice,
    /// Requested leverage exceeds the market's cap.
    LeverageTooHigh,
    /// The user's balance does not cover margin plus fee.
    InsufficientCollateral,
    /// A checked computation left the representable range.
    MathOverflow,
    /// Positional reference past the end of the side's sequence.
    InvalidPositionIndex,
    /// No position stands behind the given reference.
    PositionNotFound,
    /// The liquidation trigger does not hold at the current price.
    CannotLiquidate,
    /// Aggregate size of the side would exceed the market's cap.
    ExceedsMaxPosition,
    /// Funding rate outside its allowed band.
    InvalidFundingRate,
    /// Price sample is older than the staleness window.
    StalePrice,
    /// Negative prices are not supported.
    NegativePrice,
    /// The price feed account could not be read.
    InvalidPriceFeed,
    /// Price moved more than the allowed band since the last sample.
    ExcessivePriceChange,
    /// The position was already liquidated.
    AlreadyLiquidated,
    /// The market configuration is degenerate or uninitialized.
    InvalidMarketState,
    /// Caller is not allowed to perform the operation.
    Unauthorized,
    /// The market does not accept operations at the moment.
    MarketPaused,
    /// Fee computation produced an unusable value.
    InvalidFee,
    /// Position margin is below the maintenance requirement.
    MarginTooLow,
    /// The computed liquidation price is not positive, so the position
    /// could never be liquidated; opening it is refused.
    InvalidLiquidationPrice,
    /// Negative profit-and-loss exceeds the posted margin (bad debt);
    /// the liquidation is refused and the position stays in the ledger.
    InsufficientReserve,
}

} // verus!
