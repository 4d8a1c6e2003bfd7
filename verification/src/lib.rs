//! Accounting and risk core of a leveraged perpetual-futures market.
//!
//! The library tracks open long and short positions of a single market,
//! computes margin, fees, liquidation prices and profit-and-loss in exact
//! fixed-point integer arithmetic, and redistributes margin between the two
//! sides through a periodic funding rate. The hosting execution environment
//! (account storage, fund transfers, the price oracle, the clock) is kept
//! outside: every operation takes the values it needs as plain arguments and
//! states exactly what it returns and how it changes the market.

pub mod errors;
pub mod ledger;
pub mod market;
pub mod math;
pub mod position;
pub mod price_feed;

pub use errors::ErrorCode;
pub use market::initialize_market;
pub use market::liquidate_position;
pub use market::place_order;
pub use market::update_funding_rate;
pub use market::Market;
pub use market::Settlement;
pub use math::Side;
pub use position::Position;
