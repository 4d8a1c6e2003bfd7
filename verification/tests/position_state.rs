//! Tests of per-position state: construction, mark-to-market, health
//! ratio, and direct funding application.

use memeperp::errors::ErrorCode;
use memeperp::math::Side;
use memeperp::position::{apply_funding_to_position, Position};

const OWNER: [u8; 32] = [9u8; 32];

fn sample_position() -> Position {
    Position::new(OWNER, Side::Long, 1000, 100, 5, 2000, 75, 42)
}

#[test]
fn new_position_starts_clean() {
    let p = sample_position();
    assert_eq!(p.owner, OWNER);
    assert_eq!(p.size, 1000);
    assert_eq!(p.entry_price, 100);
    assert_eq!(p.leverage, 5);
    assert_eq!(p.margin, 2000);
    assert_eq!(p.liquidation_price, 75);
    assert_eq!(p.creation_time, 42);
    assert_eq!(p.last_funding_timestamp, 42);
    assert_eq!(p.realized_pnl, 0);
    assert_eq!(p.unrealized_pnl, 0);
    assert_eq!(p.last_update_price, 100);
    assert_eq!(p.total_funding_paid, 0);
}

#[test]
fn mark_to_market_stores_exact_pnl() {
    let mut p = sample_position();
    // (110 - 100) * 1000 * 5 / 100 = 500
    assert_eq!(p.update_unrealized_pnl(110), Ok(()));
    assert_eq!(p.unrealized_pnl, 500);
    assert_eq!(p.last_update_price, 110);
    assert_eq!(p.update_unrealized_pnl(90), Ok(()));
    assert_eq!(p.unrealized_pnl, -500);
    assert_eq!(p.update_unrealized_pnl(100), Ok(()));
    assert_eq!(p.unrealized_pnl, 0);
}

#[test]
fn health_ratio_is_margin_share_of_notional_in_bps() {
    let p = sample_position();
    // 2000 * 10000 / (1000 * 100) = 200
    assert_eq!(p.get_health_ratio(100), Ok(200));
    assert_eq!(p.can_be_liquidated(100, 201), Ok(true));
    assert_eq!(p.can_be_liquidated(100, 200), Ok(false));
}

#[test]
fn health_ratio_out_of_range_is_an_error_not_a_wrap() {
    // 7 * 10000 / 1 = 70000 does not fit the 16-bit result: a silent
    // wrap would make this heavily overcollateralized position look
    // liquidatable, so it must fail instead.
    let p = Position::new(OWNER, Side::Long, 1, 100, 5, 7, 75, 0);
    assert_eq!(p.get_health_ratio(1), Err(ErrorCode::MathOverflow));
    assert_eq!(p.can_be_liquidated(1, 200), Err(ErrorCode::MathOverflow));
    // 6 * 10000 / 1 = 60000 still fits and is returned exactly.
    let q = Position::new(OWNER, Side::Long, 1, 100, 5, 6, 75, 0);
    assert_eq!(q.get_health_ratio(1), Ok(60000));
    assert_eq!(q.can_be_liquidated(1, 60001), Ok(true));
    assert_eq!(q.can_be_liquidated(1, 60000), Ok(false));
}

#[test]
fn health_ratio_undefined_on_zero_notional() {
    let p = sample_position();
    assert_eq!(p.get_health_ratio(0), Err(ErrorCode::MathOverflow));
    assert_eq!(p.can_be_liquidated(0, 100), Err(ErrorCode::MathOverflow));
}

#[test]
fn funding_moves_margin_by_notional_rate() {
    // magnitude = 1000 * 100 * 10 / 10000 = 100.
    let mut long = sample_position();
    assert_eq!(apply_funding_to_position(&mut long, 10, true), Ok(()));
    assert_eq!(long.margin, 1900);
    assert_eq!(long.total_funding_paid, 100);
    // A negative rate pays the long instead.
    let mut long2 = sample_position();
    assert_eq!(apply_funding_to_position(&mut long2, -10, true), Ok(()));
    assert_eq!(long2.margin, 2100);
    assert_eq!(long2.total_funding_paid, -100);
    // Shorts mirror longs.
    let mut short = sample_position();
    assert_eq!(apply_funding_to_position(&mut short, 10, false), Ok(()));
    assert_eq!(short.margin, 2100);
    assert_eq!(short.total_funding_paid, -100);
    // A zero rate moves nothing.
    let mut idle = sample_position();
    assert_eq!(apply_funding_to_position(&mut idle, 0, true), Ok(()));
    assert_eq!(idle.margin, 2000);
    assert_eq!(idle.total_funding_paid, 0);
}

#[test]
fn funding_that_would_drain_margin_fails_without_mutation() {
    let mut p = Position::new(OWNER, Side::Long, 1000, 100, 5, 99, 75, 0);
    // Payment of 100 against margin 99: hard failure, no clamp to zero.
    assert_eq!(apply_funding_to_position(&mut p, 10, true), Err(ErrorCode::MathOverflow));
    assert_eq!(p.margin, 99);
    assert_eq!(p.total_funding_paid, 0);
}
