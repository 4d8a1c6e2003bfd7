//! End-to-end tests of the market coordinator: order placement,
//! liquidation, and funding settlement.

use memeperp::errors::ErrorCode;
use memeperp::market::{
    initialize_market, liquidate_position, place_order, update_funding_rate, Market,
};
use memeperp::math::Side;

const OWNER: [u8; 32] = [7u8; 32];
const AUTHORITY: [u8; 32] = [1u8; 32];

fn reference_market() -> Market {
    // tick_size = 100, min_order = 10, max_leverage = 20,
    // liquidation_threshold = 9500 bps, max_position_size = 100000,
    // funding_interval = 3600 s.
    initialize_market(
        "MEME-PERP".to_string(),
        AUTHORITY,
        10,
        100,
        20,
        9500,
        500,
        100000,
        3600,
        1000,
    )
    .unwrap()
}

#[test]
fn initialize_market_sets_fresh_state() {
    let m = reference_market();
    assert!(m.is_initialized);
    assert_eq!(m.name, "MEME-PERP");
    assert_eq!(m.authority, AUTHORITY);
    assert_eq!(m.long_positions.len(), 0);
    assert_eq!(m.short_positions.len(), 0);
    assert_eq!(m.total_fee_accrued, 0);
    assert_eq!(m.funding_rate, 0);
    assert_eq!(m.last_funding_time, 1000);
    assert_eq!(m.funding_interval, 3600);
}

#[test]
fn initialize_market_rejects_degenerate_config() {
    let bad_tick = initialize_market(
        "M".to_string(), AUTHORITY, 10, 0, 20, 9500, 500, 100000, 3600, 0,
    );
    assert!(matches!(bad_tick, Err(ErrorCode::InvalidMarketState)));
    let bad_leverage = initialize_market(
        "M".to_string(), AUTHORITY, 10, 100, 0, 9500, 500, 100000, 3600, 0,
    );
    assert!(matches!(bad_leverage, Err(ErrorCode::InvalidMarketState)));
    let bad_interval = initialize_market(
        "M".to_string(), AUTHORITY, 10, 100, 20, 9500, 500, 100000, 0, 0,
    );
    assert!(matches!(bad_interval, Err(ErrorCode::InvalidMarketState)));
    // A negative interval would make funding perpetually due.
    let negative_interval = initialize_market(
        "M".to_string(), AUTHORITY, 10, 100, 20, 9500, 500, 100000, -3600, 0,
    );
    assert!(matches!(negative_interval, Err(ErrorCode::InvalidMarketState)));
}

#[test]
fn long_order_opens_at_oracle_price() {
    let mut m = reference_market();
    // size 50, limit price 100, leverage 5, oracle price 100.
    let r = place_order(&mut m, OWNER, Side::Long, 50, 100, 5, 100, 2000, 1100);
    // margin 1000, fee 5: the caller must transfer 1005.
    assert_eq!(r, Ok(1005));
    assert_eq!(m.total_fee_accrued, 5);
    assert_eq!(m.long_positions.len(), 1);
    let p = &m.long_positions[0];
    assert_eq!(p.owner, OWNER);
    assert_eq!(p.size, 50);
    assert_eq!(p.entry_price, 100);
    assert_eq!(p.leverage, 5);
    assert_eq!(p.margin, 1000);
    assert_eq!(p.liquidation_price, 75);
    assert_eq!(p.creation_time, 1100);
    assert_eq!(p.last_funding_timestamp, 1100);
    assert_eq!(p.realized_pnl, 0);
    assert_eq!(p.unrealized_pnl, 0);
    assert_eq!(p.last_update_price, 100);
    assert_eq!(p.total_funding_paid, 0);
}

#[test]
fn order_validation_errors() {
    let mut m = reference_market();
    assert_eq!(
        place_order(&mut m, OWNER, Side::Long, 50, 100, 21, 100, 2000, 0),
        Err(ErrorCode::LeverageTooHigh)
    );
    assert_eq!(
        place_order(&mut m, OWNER, Side::Long, 9, 100, 5, 100, 2000, 0),
        Err(ErrorCode::OrderTooSmall)
    );
    assert_eq!(
        place_order(&mut m, OWNER, Side::Long, 100001, 100, 5, 100, 2000, 0),
        Err(ErrorCode::OrderTooLarge)
    );
    assert_eq!(
        place_order(&mut m, OWNER, Side::Long, 50, 105, 5, 100, 2000, 0),
        Err(ErrorCode::InvalidPrice)
    );
    // Collateral one short of margin + fee.
    assert_eq!(
        place_order(&mut m, OWNER, Side::Long, 50, 100, 5, 100, 1004, 0),
        Err(ErrorCode::InsufficientCollateral)
    );
    // Leverage at the cap makes the long liquidation price zero.
    assert_eq!(
        place_order(&mut m, OWNER, Side::Long, 50, 100, 20, 100, 20000, 0),
        Err(ErrorCode::InvalidLiquidationPrice)
    );
    // No failed attempt left any trace.
    assert_eq!(m.long_positions.len(), 0);
    assert_eq!(m.total_fee_accrued, 0);
    // Collateral exactly equal to margin + fee is accepted.
    assert_eq!(
        place_order(&mut m, OWNER, Side::Long, 50, 100, 5, 100, 1005, 0),
        Ok(1005)
    );
}

#[test]
fn aggregate_cap_holds_over_successful_orders() {
    let mut m = reference_market();
    assert!(place_order(&mut m, OWNER, Side::Long, 60000, 100, 5, 100, u64::MAX, 0).is_ok());
    assert!(place_order(&mut m, OWNER, Side::Long, 40000, 100, 5, 100, u64::MAX, 0).is_ok());
    // The side is now full: one more unit is refused.
    assert_eq!(
        place_order(&mut m, OWNER, Side::Long, 10, 100, 5, 100, u64::MAX, 0),
        Err(ErrorCode::ExceedsMaxPosition)
    );
    assert_eq!(m.aggregate_size(Side::Long), 100000);
    assert!(m.aggregate_size(Side::Long) <= m.max_position_size);
    // The short side has its own cap.
    assert!(place_order(&mut m, OWNER, Side::Short, 100000, 100, 5, 100, u64::MAX, 0).is_ok());
    assert_eq!(m.aggregate_size(Side::Short), 100000);
}

#[test]
fn margin_overflow_is_reported() {
    let mut m = initialize_market(
        "M".to_string(), AUTHORITY, 1, 1, 20, 9500, 500, u64::MAX, 3600, 0,
    )
    .unwrap();
    assert_eq!(
        place_order(&mut m, OWNER, Side::Long, u64::MAX, 100, 1, 100, u64::MAX, 0),
        Err(ErrorCode::MathOverflow)
    );
}

#[test]
fn liquidation_scenario_pays_out_remaining_margin() {
    let mut m = reference_market();
    place_order(&mut m, OWNER, Side::Long, 50, 100, 5, 100, 2000, 1100).unwrap();
    // Oracle drops to 70 <= 75: liquidatable; pnl = -75; payout 925.
    let r = liquidate_position(&mut m, 0, Side::Long, 70);
    match r {
        Ok(settlement) => {
            assert_eq!(settlement.owner, OWNER);
            assert_eq!(settlement.payout, 925);
        },
        Err(e) => panic!("liquidation failed: {:?}", e),
    }
    assert_eq!(m.long_positions.len(), 0);
    // The fee stays accrued; liquidation does not touch it.
    assert_eq!(m.total_fee_accrued, 5);
}

#[test]
fn liquidation_validates_before_removing() {
    let mut m = reference_market();
    place_order(&mut m, OWNER, Side::Long, 50, 100, 5, 100, 2000, 1100).unwrap();
    assert!(matches!(
        liquidate_position(&mut m, 0, Side::Long, 80),
        Err(ErrorCode::CannotLiquidate)
    ));
    // The position is still there, unmodified.
    assert_eq!(m.long_positions.len(), 1);
    assert_eq!(m.long_positions[0].margin, 1000);
    assert!(matches!(
        liquidate_position(&mut m, 5, Side::Long, 70),
        Err(ErrorCode::InvalidPositionIndex)
    ));
    assert_eq!(m.long_positions.len(), 1);
}

#[test]
fn liquidation_of_bad_debt_is_refused() {
    let mut m = reference_market();
    // leverage 15: factor 2500, liquidation price 25, margin 666.
    place_order(&mut m, OWNER, Side::Long, 100, 100, 15, 100, u64::MAX, 0).unwrap();
    assert_eq!(m.long_positions[0].margin, 666);
    assert_eq!(m.long_positions[0].liquidation_price, 25);
    // At price 10 the loss is 90 * 100 * 15 / 100 = 1350 > 666: bad debt.
    assert!(matches!(
        liquidate_position(&mut m, 0, Side::Long, 10),
        Err(ErrorCode::InsufficientReserve)
    ));
    assert_eq!(m.long_positions.len(), 1);
}

#[test]
fn funding_settlement_moves_margin_from_longs_to_shorts() {
    let mut m = reference_market();
    // total_long_size = 1000, total_short_size = 500.
    place_order(&mut m, OWNER, Side::Long, 1000, 100, 5, 100, u64::MAX, 0).unwrap();
    place_order(&mut m, OWNER, Side::Short, 500, 100, 5, 100, u64::MAX, 0).unwrap();
    let long_margin = m.long_positions[0].margin;
    let short_margin = m.short_positions[0].margin;
    assert_eq!(update_funding_rate(&mut m, 4600), Ok(()));
    // imbalance 2.0: raw rate 10, clamped 10; longs pay shorts.
    assert_eq!(m.funding_rate, 10);
    assert_eq!(m.last_funding_time, 4600);
    // long pays 1000 * 100 * 10 / 10000 = 100.
    assert_eq!(m.long_positions[0].margin, long_margin - 100);
    assert_eq!(m.long_positions[0].total_funding_paid, 100);
    // short receives 500 * 100 * 10 / 10000 = 50.
    assert_eq!(m.short_positions[0].margin, short_margin + 50);
    assert_eq!(m.short_positions[0].total_funding_paid, -50);
}

#[test]
fn funding_with_empty_short_side_is_neutral() {
    let mut m = reference_market();
    place_order(&mut m, OWNER, Side::Long, 1000, 100, 5, 100, u64::MAX, 0).unwrap();
    let margin = m.long_positions[0].margin;
    assert_eq!(update_funding_rate(&mut m, 4600), Ok(()));
    assert_eq!(m.funding_rate, 0);
    assert_eq!(m.last_funding_time, 4600);
    assert_eq!(m.long_positions[0].margin, margin);
    assert_eq!(m.long_positions[0].total_funding_paid, 0);
}

#[test]
fn funding_settles_at_most_once_per_interval() {
    let mut m = reference_market();
    place_order(&mut m, OWNER, Side::Long, 1000, 100, 5, 100, u64::MAX, 0).unwrap();
    place_order(&mut m, OWNER, Side::Short, 500, 100, 5, 100, u64::MAX, 0).unwrap();
    assert_eq!(update_funding_rate(&mut m, 4600), Ok(()));
    let long_margin = m.long_positions[0].margin;
    let short_margin = m.short_positions[0].margin;
    // A second call within the same interval is a no-op.
    assert_eq!(update_funding_rate(&mut m, 4600 + 3599), Ok(()));
    assert_eq!(m.last_funding_time, 4600);
    assert_eq!(m.long_positions[0].margin, long_margin);
    assert_eq!(m.short_positions[0].margin, short_margin);
    // Once the interval has elapsed it settles again.
    assert_eq!(update_funding_rate(&mut m, 4600 + 3600), Ok(()));
    assert_eq!(m.last_funding_time, 8200);
    assert_eq!(m.long_positions[0].margin, long_margin - 100);
}

#[test]
fn funding_never_drives_margin_negative() {
    let mut m = initialize_market(
        "M".to_string(), AUTHORITY, 1, 1, 20, 9500, 500, u64::MAX, 3600, 0,
    )
    .unwrap();
    // Long margin 66666 (leverage 15); with the heavy long imbalance the
    // rate clamps at 10, so the long pays 10000 * 100 * 10 / 10000 = 1000
    // per interval until its margin cannot cover a payment.
    place_order(&mut m, OWNER, Side::Long, 10000, 100, 15, 100, u64::MAX, 0).unwrap();
    place_order(&mut m, OWNER, Side::Short, 10, 100, 2, 100, u64::MAX, 0).unwrap();
    // Drain the margin below one funding payment by settling repeatedly.
    let mut t = 3600i64;
    loop {
        let before = m.long_positions[0].margin;
        match update_funding_rate(&mut m, t) {
            Ok(()) => {
                assert!(m.long_positions[0].margin <= before);
                t += 3600;
            },
            Err(e) => {
                // The sweep refused to drive the margin negative and
                // changed nothing.
                assert_eq!(e, ErrorCode::MathOverflow);
                assert_eq!(m.long_positions[0].margin, before);
                break;
            },
        }
        assert!(t < 3600 * 200, "funding should have exhausted the margin");
    }
}
