//! Tests of oracle-sample validation: staleness, sign, decimal
//! rescaling, the confidence discount, and the price-move band.

use memeperp::price_feed::{ErrorCode, PriceFeed};

#[test]
fn fresh_sample_is_accepted_and_stamped() {
    let f = PriceFeed::new_from_pyth(500, 10, -1, 1000, 1059).unwrap();
    assert_eq!(f.price, 500);
    assert_eq!(f.conf, 10);
    assert_eq!(f.expo, -1);
    assert_eq!(f.timestamp, 1059);
    assert_eq!(f.next_update_time, 1060);
}

#[test]
fn sample_older_than_sixty_seconds_is_stale() {
    assert!(matches!(
        PriceFeed::new_from_pyth(500, 10, -1, 1000, 1060),
        Err(ErrorCode::StalePrice)
    ));
}

#[test]
fn adjusted_price_discounts_to_ninety_five_percent() {
    // expo -1: 500 -> 50; 50 * 95 / 100 = 47.
    let f = PriceFeed::new_from_pyth(500, 10, -1, 1000, 1000).unwrap();
    assert_eq!(f.get_adjusted_price(1000), Ok(47));
    // expo +1: 500 -> 5000; 5000 * 95 / 100 = 4750.
    let g = PriceFeed::new_from_pyth(500, 10, 1, 1000, 1000).unwrap();
    assert_eq!(g.get_adjusted_price(1000), Ok(4750));
    // expo 0: 100 -> 95.
    let h = PriceFeed::new_from_pyth(100, 10, 0, 1000, 1000).unwrap();
    assert_eq!(h.get_adjusted_price(1000), Ok(95));
}

#[test]
fn deep_negative_exponent_floors_to_zero() {
    let f = PriceFeed::new_from_pyth(i64::MAX, 0, -19, 1000, 1000).unwrap();
    assert_eq!(f.get_adjusted_price(1000), Ok(0));
    let g = PriceFeed::new_from_pyth(999, 0, -3, 1000, 1000).unwrap();
    // 999 / 1000 = 0.
    assert_eq!(g.get_adjusted_price(1000), Ok(0));
}

#[test]
fn adjusted_price_rejects_stale_use() {
    let f = PriceFeed::new_from_pyth(500, 10, -1, 1000, 1000).unwrap();
    // A validated sample may be used for one second only.
    assert_eq!(f.get_adjusted_price(1001), Ok(47));
    assert_eq!(f.get_adjusted_price(1002), Err(ErrorCode::StalePrice));
}

#[test]
fn adjusted_price_rejects_negative_price() {
    let f = PriceFeed::new_from_pyth(-1, 10, 0, 1000, 1000).unwrap();
    assert_eq!(f.get_adjusted_price(1000), Err(ErrorCode::NegativePrice));
}

#[test]
fn adjusted_price_rejects_unrepresentable_scaling() {
    // 2 * 10^19 exceeds u64.
    let f = PriceFeed::new_from_pyth(2, 0, 19, 1000, 1000).unwrap();
    assert_eq!(f.get_adjusted_price(1000), Err(ErrorCode::MathOverflow));
    let g = PriceFeed::new_from_pyth(1, 0, 20, 1000, 1000).unwrap();
    assert_eq!(g.get_adjusted_price(1000), Err(ErrorCode::MathOverflow));
    // A zero price scales to zero whatever the exponent.
    let z = PriceFeed::new_from_pyth(0, 0, 25, 1000, 1000).unwrap();
    assert_eq!(z.get_adjusted_price(1000), Ok(0));
}

#[test]
fn price_change_band_is_enforced() {
    // Adjusted price 95 against old price 100: move of 5%.
    let f = PriceFeed::new_from_pyth(100, 0, 0, 1000, 1000).unwrap();
    assert_eq!(f.validate_price_change(100, 500, 1000), Ok(()));
    assert_eq!(
        f.validate_price_change(100, 499, 1000),
        Err(ErrorCode::ExcessivePriceChange)
    );
    // Errors of the adjustment itself pass through.
    assert_eq!(
        f.validate_price_change(100, 500, 2000),
        Err(ErrorCode::StalePrice)
    );
}

#[test]
fn huge_price_moves_cannot_slip_through_the_band() {
    // Adjusted price 9500 against old price 1: the move is 94990000 bps.
    // The comparison is exact, so even the widest 16-bit band refuses it
    // (a wrapped comparison would have let it pass a 28336-bps band).
    let f = PriceFeed::new_from_pyth(100, 0, 2, 1000, 1000).unwrap();
    assert_eq!(f.get_adjusted_price(1000), Ok(9500));
    assert_eq!(
        f.validate_price_change(1, 28336, 1000),
        Err(ErrorCode::ExcessivePriceChange)
    );
    assert_eq!(
        f.validate_price_change(1, u16::MAX, 1000),
        Err(ErrorCode::ExcessivePriceChange)
    );
}
