//! Pure fixed-point risk math: margin, fees, liquidation prices,
//! profit-and-loss, and funding rates.
//!
//! Everything here is exact integer arithmetic; intermediate products are
//! widened (or split around a division) so that no computation overflows,
//! and every function states the mathematical value it returns. Binary
//! floating point is deliberately absent: these values feed solvency
//! comparisons and must be bit-reproducible.

use vstd::prelude::*;

use crate::errors::ErrorCode;

verus! {

/// Direction of a position.
#[derive(Clone, Copy, Debug, PartialEq, Eq, Structural)]
pub enum Side {
    Long,
    Short,
}

/// Truncating (toward zero) division, the semantics of Rust's `/` on
/// signed integers; meaningful for `d >= 1`.
pub open spec fn div_trunc(n: int, d: int) -> int {
    if n >= 0 {
        n / d
    } else {
        -((-n) / d)
    }
}

/// Magnitude of a signed 64-bit value, as a mathematical integer.
pub open spec fn abs_of(n: int) -> int {
    if n >= 0 {
        n
    } else {
        -n
    }
}

/// The product of two `u64` values always fits in `u128`.
pub proof fn lemma_u64_product_fits_u128(a: u64, b: u64)
    ensures
        0 <= (a as int) * (b as int) <= u128::MAX,
{
    assert((a as int) * (b as int) <= (u64::MAX as int) * (u64::MAX as int) && (a as int) * (b as int) >= 0)
        by (nonlinear_arith)
        requires
            0 <= a <= u64::MAX,
            0 <= b <= u64::MAX,
    ;
}

/// Splitting a product around a division:
/// `(n * r) / d == (n / d) * r + ((n % d) * r) / d`.
///
/// This lets `n * r / d` be computed exactly even when `n * r` would
/// overflow the machine's widest integer type.
pub proof fn lemma_mul_div_split(n: int, r: int, d: int)
    requires
        n >= 0,
        r >= 0,
        d >= 1,
    ensures
        (n * r) / d == (n / d) * r + ((n % d) * r) / d,
        (n / d) * r >= 0,
        ((n % d) * r) / d >= 0,
{
    let q = n / d;
    let s = n % d;
    vstd::arithmetic::div_mod::lemma_fundamental_div_mod(n, d);
    assert(0 <= s < d) by {
        vstd::arithmetic::div_mod::lemma_mod_division_less_than_divisor(n, d);
    }
    assert(q >= 0) by {
        vstd::arithmetic::div_mod::lemma_div_pos_is_pos(n, d);
    }
    assert(n * r == s * r + (q * r) * d) by (nonlinear_arith)
        requires
            n == d * q + s,
    ;
    assert(s * r >= 0 && q * r >= 0) by (nonlinear_arith)
        requires
            s >= 0,
            r >= 0,
            q >= 0,
    ;
    assert((s * r) / d + q * r == (s * r + (q * r) * d) / d) by {
        vstd::arithmetic::div_mod::lemma_hoist_over_denominator(s * r, q * r, d as nat);
    }
    assert(((n % d) * r) / d >= 0) by {
        vstd::arithmetic::div_mod::lemma_div_pos_is_pos(s * r, d);
    }
}

/// Initial margin owed for an order: `floor(size * price / leverage)`.
/// Leverage divides the collateral requirement, it does not scale exposure.
pub open spec fn margin_of(size: u64, price: u64, leverage: u8) -> int {
    (size * price) / (leverage as int)
}

/// Flat 0.1% notional entry fee: `floor(size * price / 1000)`.
pub open spec fn fee_of(size: u64, price: u64) -> int {
    (size * price) / 1000
}

/// Initial margin for an order.
///
/// The quotient must fit in `u64`; `place_order` checks that bound before
/// calling and reports `MathOverflow` itself when it does not hold.
pub fn calculate_required_margin(size: u64, price: u64, leverage: u8) -> (r: u64)
    requires
        leverage >= 1,
        margin_of(size, price, leverage) <= u64::MAX,
    ensures
        r == margin_of(size, price, leverage),
{
    proof {
        lemma_u64_product_fits_u128(size, price);
    }
    let wide: u128 = (size as u128) * (price as u128) / (leverage as u128);
    wide as u64
}

/// Scaled distance factor between entry and liquidation price, in basis
/// points of the entry price. With `t = threshold_bps / 10000`, the long
/// factor is `10000 * (1 - (1 - t) * leverage)` and the short factor is
/// `10000 * (1 + (1 - t) * leverage)`.
pub open spec fn liq_factor_of(side: Side, leverage: u8, threshold_bps: u16) -> int {
    match side {
        Side::Long => 10000 - (10000 - threshold_bps) * leverage,
        Side::Short => 10000 + (10000 - threshold_bps) * leverage,
    }
}

/// What `calculate_liquidation_price` returns: `floor(entry_price * factor
/// / 10000)` when that value is positive and representable. A factor or
/// price that is not positive would make the position unliquidatable and
/// is refused loudly rather than wrapped or saturated.
pub open spec fn liq_price_result(
    side: Side,
    entry_price: u64,
    leverage: u8,
    threshold_bps: u16,
) -> Result<u64, ErrorCode> {
    let factor = liq_factor_of(side, leverage, threshold_bps);
    if factor <= 0 {
        Err(ErrorCode::InvalidLiquidationPrice)
    } else {
        let lp = (entry_price * factor) / 10000;
        if lp > u64::MAX {
            Err(ErrorCode::MathOverflow)
        } else if lp == 0 {
            Err(ErrorCode::InvalidLiquidationPrice)
        } else {
            Ok(lp as u64)
        }
    }
}

/// Price at which a freshly opened position must be force-closed,
/// computed once at open in exact fixed-point arithmetic.
pub fn calculate_liquidation_price(
    side: Side,
    entry_price: u64,
    leverage: u8,
    liquidation_threshold: u16,
) -> (r: Result<u64, ErrorCode>)
    ensures
        r == liq_price_result(side, entry_price, leverage, liquidation_threshold),
{
    let spread: i64 = 10000i64 - (liquidation_threshold as i64);
    proof {
        assert(spread * (leverage as i64) <= 10000 * 255 && spread * (leverage as i64) >= -55535 * 255)
            by (nonlinear_arith)
            requires
                -55535 <= spread <= 10000,
                0 <= leverage <= 255,
        ;
    }
    let term: i64 = spread * (leverage as i64);
    let factor: i64 = match side {
        Side::Long => 10000i64 - term,
        Side::Short => 10000i64 + term,
    };
    if factor <= 0 {
        return Err(ErrorCode::InvalidLiquidationPrice);
    }
    proof {
        lemma_u64_product_fits_u128(entry_price, factor as u64);
    }
    let wide: u128 = (entry_price as u128) * (factor as u128);
    let lp: u128 = wide / 10000;
    if lp > u64::MAX as u128 {
        return Err(ErrorCode::MathOverflow);
    }
    if lp == 0 {
        return Err(ErrorCode::InvalidLiquidationPrice);
    }
    Ok(lp as u64)
}

/// Signed profit-and-loss of a position at `current_price`, truncated
/// toward zero: `(current - entry) * size * leverage / entry` for longs,
/// the mirror image for shorts.
pub open spec fn pnl_of(side: Side, size: u64, entry_price: u64, current_price: u64, leverage: u8) -> int {
    let diff: int = if side == Side::Long {
        current_price - entry_price
    } else {
        entry_price - current_price
    };
    div_trunc(diff * size * leverage, entry_price as int)
}

/// What `calculate_pnl` returns: the exact value when it is representable
/// in `i64`, an arithmetic failure otherwise (never a silent wrap).
pub open spec fn pnl_result(
    side: Side,
    size: u64,
    entry_price: u64,
    current_price: u64,
    leverage: u8,
) -> Result<i64, ErrorCode> {
    let v = pnl_of(side, size, entry_price, current_price, leverage);
    if v < i64::MIN || v > i64::MAX {
        Err(ErrorCode::MathOverflow)
    } else {
        Ok(v as i64)
    }
}

/// Profit-and-loss of a position at the given price.
pub fn calculate_pnl(
    side: Side,
    size: u64,
    entry_price: u64,
    current_price: u64,
    leverage: u8,
) -> (r: Result<i64, ErrorCode>)
    requires
        entry_price >= 1,
    ensures
        r == pnl_result(side, size, entry_price, current_price, leverage),
{
    if leverage == 0 {
        proof {
            let sdiff: int = if side == Side::Long {
                current_price - entry_price
            } else {
                entry_price - current_price
            };
            assert(sdiff * size * leverage == 0) by (nonlinear_arith)
                requires
                    leverage == 0,
            ;
            vstd::arithmetic::div_mod::lemma_div_of0(entry_price as int);
        }
        return Ok(0);
    }
    let gain: bool = match side {
        Side::Long => current_price >= entry_price,
        Side::Short => entry_price >= current_price,
    };
    let diff: u64 = if current_price >= entry_price {
        current_price - entry_price
    } else {
        entry_price - current_price
    };
    let ghost sdiff: int = if side == Side::Long {
        current_price - entry_price
    } else {
        entry_price - current_price
    };
    proof {
        lemma_u64_product_fits_u128(diff, size);
        lemma_mul_div_split((diff as int) * (size as int), leverage as int, entry_price as int);
        assert(sdiff * size * leverage == if sdiff >= 0 {
            (diff as int) * size * leverage
        } else {
            -((diff as int) * size * leverage)
        }) by (nonlinear_arith)
            requires
                sdiff == diff || sdiff == -(diff as int),
                (sdiff >= 0) ==> sdiff == diff,
                (sdiff < 0) ==> sdiff == -(diff as int),
        ;
    }
    let m: u128 = (diff as u128) * (size as u128);
    let e: u128 = entry_price as u128;
    let q: u128 = m / e;
    let s: u128 = m % e;
    // The magnitude is q * leverage + (s * leverage) / e; if q alone
    // exceeds 2^63 the result cannot fit an i64 for either sign.
    if q > 9223372036854775808u128 {
        proof {
            assert(q * (leverage as int) >= q) by (nonlinear_arith)
                requires
                    q >= 0,
                    leverage >= 1,
            ;
        }
        return Err(ErrorCode::MathOverflow);
    }
    proof {
        assert(q * (leverage as int) <= 9223372036854775808 * 255) by (nonlinear_arith)
            requires
                0 <= q <= 9223372036854775808,
                0 <= leverage <= 255,
        ;
        assert(s * (leverage as int) <= u64::MAX * 255) by (nonlinear_arith)
            requires
                0 <= s <= u64::MAX,
                0 <= leverage <= 255,
        ;
        vstd::arithmetic::div_mod::lemma_div_is_ordered(s * (leverage as int), u64::MAX * 255, e as int);
    }
    let mag: u128 = q * (leverage as u128) + (s * (leverage as u128)) / e;
    if gain {
        if mag > i64::MAX as u128 {
            return Err(ErrorCode::MathOverflow);
        }
        Ok(mag as i64)
    } else {
        if mag > 9223372036854775808u128 {
            return Err(ErrorCode::MathOverflow);
        }
        if mag == 9223372036854775808u128 {
            Ok(i64::MIN)
        } else {
            Ok(-(mag as i64))
        }
    }
}

/// Liquidation trigger: a long is liquidatable when the price has fallen
/// to or below its liquidation price, a short when the price has risen to
/// or reached it.
pub open spec fn liquidatable(side: Side, current_price: u64, liquidation_price: u64) -> bool {
    match side {
        Side::Long => current_price <= liquidation_price,
        Side::Short => current_price >= liquidation_price,
    }
}

/// Decides the liquidation trigger for one position.
pub fn liquidation_trigger(side: Side, current_price: u64, liquidation_price: u64) -> (r: bool)
    ensures
        r == liquidatable(side, current_price, liquidation_price),
{
    match side {
        Side::Long => current_price <= liquidation_price,
        Side::Short => current_price >= liquidation_price,
    }
}

/// Magnitude moved by one funding settlement for a position:
/// `floor(size * entry_price * |rate| / 10000)`.
pub open spec fn funding_magnitude_of(size: u64, entry_price: u64, rate: int) -> int {
    (size * entry_price * abs_of(rate)) / 10000
}

/// Signed change of a position's margin under funding: longs pay when the
/// rate is positive and receive when it is negative; shorts mirror them.
pub open spec fn funding_delta_of(size: u64, entry_price: u64, rate: int, is_long: bool) -> int {
    let mag = funding_magnitude_of(size, entry_price, rate);
    if (rate >= 0) == is_long {
        -mag
    } else {
        mag
    }
}

/// Clamp to the funding band of ±10 basis points per interval.
pub open spec fn clamp_rate(x: int) -> int {
    if x < -10 {
        -10
    } else if x > 10 {
        10
    } else {
        x
    }
}

/// Division rounded to the nearest integer, ties away from zero;
/// meaningful for `d >= 1`.
pub open spec fn round_div(n: int, d: int) -> int {
    if n >= 0 {
        (2 * n + d) / (2 * d)
    } else {
        -((2 * (-n) + d) / (2 * d))
    }
}

/// Funding rate from the two aggregate sizes: ten times the imbalance of
/// longs over shorts, rounded to the nearest basis point and clamped to
/// ±10. An empty short side is treated as perfect balance (no funding)
/// rather than an extreme rate.
pub open spec fn funding_rate_of(total_long: int, total_short: int) -> int {
    if total_short == 0 {
        0
    } else {
        clamp_rate(round_div((total_long - total_short) * 10, total_short))
    }
}

/// Funding rate for the current imbalance, always within ±10.
pub fn compute_funding_rate(total_long: u64, total_short: u64) -> (r: i64)
    ensures
        r == funding_rate_of(total_long as int, total_short as int),
        -10 <= r <= 10,
{
    if total_short == 0 {
        return 0;
    }
    let d: u128 = total_short as u128;
    if total_long >= total_short {
        let num: u128 = ((total_long - total_short) as u128) * 10;
        let q: u128 = (2 * num + d) / (2 * d);
        if q > 10 {
            10
        } else {
            q as i64
        }
    } else {
        let num: u128 = ((total_short - total_long) as u128) * 10;
        let q: u128 = (2 * num + d) / (2 * d);
        if q > 10 {
            -10
        } else {
            -(q as i64)
        }
    }
}

/// Sign of the profit-and-loss formula: a long gains (never loses) when
/// the price is at or above entry, a short when it is at or below, and
/// the value is exactly zero when the price equals entry.
pub proof fn lemma_pnl_sign(side: Side, size: u64, entry_price: u64, current_price: u64, leverage: u8)
    requires
        entry_price >= 1,
    ensures
        current_price == entry_price ==> pnl_of(side, size, entry_price, current_price, leverage) == 0,
        side == Side::Long && current_price >= entry_price ==> pnl_of(
            side,
            size,
            entry_price,
            current_price,
            leverage,
        ) >= 0,
        side == Side::Long && current_price <= entry_price ==> pnl_of(
            side,
            size,
            entry_price,
            current_price,
            leverage,
        ) <= 0,
        side == Side::Short && current_price <= entry_price ==> pnl_of(
            side,
            size,
            entry_price,
            current_price,
            leverage,
        ) >= 0,
        side == Side::Short && current_price >= entry_price ==> pnl_of(
            side,
            size,
            entry_price,
            current_price,
            leverage,
        ) <= 0,
{
    let diff: int = if side == Side::Long {
        current_price - entry_price
    } else {
        entry_price - current_price
    };
    let n = diff * size * leverage;
    assert(diff >= 0 ==> diff * (size as int) * (leverage as int) >= 0) by (nonlinear_arith);
    assert(diff <= 0 ==> diff * (size as int) * (leverage as int) <= 0) by (nonlinear_arith);
    if n >= 0 {
        vstd::arithmetic::div_mod::lemma_div_pos_is_pos(n, entry_price as int);
    } else {
        vstd::arithmetic::div_mod::lemma_div_pos_is_pos(-n, entry_price as int);
    }
    if diff == 0 {
        assert(n == 0) by (nonlinear_arith)
            requires
                diff == 0,
                n == diff * size * leverage,
        ;
        vstd::arithmetic::div_mod::lemma_div_of0(entry_price as int);
    }
}

} // verus!
