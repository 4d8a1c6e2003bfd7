//! A single open position and the operations that read or adjust it.

use vstd::prelude::*;

use crate::errors::ErrorCode;
use crate::math;
use crate::math::Side;

verus! {

/// One open position, owned by the market that created it through its
/// side's sequence. The liquidation price is computed once at open and
/// never recomputed. Margin is unsigned: arithmetic that would drive it
/// negative is a hard failure, never a silent clamp.
#[derive(Clone, Copy, Debug)]
pub struct Position {
    pub owner: [u8; 32],
    pub side: Side,
    pub size: u64,
    pub entry_price: u64,
    pub leverage: u8,
    pub margin: u64,
    pub last_funding_timestamp: i64,
    pub liquidation_price: u64,
    pub realized_pnl: i64,
    pub unrealized_pnl: i64,
    pub last_update_price: u64,
    pub creation_time: i64,
    pub total_funding_paid: i64,
}

/// The position a fresh order produces: entry bookkeeping zeroed, both
/// timestamps set to the creation instant, last price seen the entry one.
pub open spec fn spec_new_position(
    owner: [u8; 32],
    side: Side,
    size: u64,
    entry_price: u64,
    leverage: u8,
    margin: u64,
    liquidation_price: u64,
    current_time: i64,
) -> Position {
    Position {
        owner,
        side,
        size,
        entry_price,
        leverage,
        margin,
        last_funding_timestamp: current_time,
        liquidation_price,
        realized_pnl: 0,
        unrealized_pnl: 0,
        last_update_price: entry_price,
        creation_time: current_time,
        total_funding_paid: 0,
    }
}

/// Margin-to-notional ratio in basis points,
/// `floor(margin * 10000 / (size * current_price))`; meaningful only when
/// the notional is positive.
pub open spec fn health_ratio_of(margin: u64, size: u64, current_price: u64) -> int {
    (margin * 10000) / (size * current_price)
}

/// Whether one funding settlement at `rate` can be applied to `p` without
/// leaving any representable range: the moved magnitude fits `i64`, the
/// adjusted margin stays a `u64` (in particular, does not go negative),
/// and the running funding total stays an `i64`.
pub open spec fn funding_fits(p: Position, rate: int, is_long: bool) -> bool {
    let mag = math::funding_magnitude_of(p.size, p.entry_price, rate);
    let delta = math::funding_delta_of(p.size, p.entry_price, rate, is_long);
    &&& mag <= i64::MAX
    &&& 0 <= p.margin + delta <= u64::MAX
    &&& i64::MIN <= p.total_funding_paid - delta <= i64::MAX
}

/// Relation between a position before and after one funding settlement:
/// margin moves by the signed funding delta, the cumulative amount paid
/// moves the opposite way, and every other field is untouched.
pub open spec fn funding_applied(pre: Position, post: Position, rate: int, is_long: bool) -> bool {
    let delta = math::funding_delta_of(pre.size, pre.entry_price, rate, is_long);
    &&& post.margin == pre.margin + delta
    &&& post.total_funding_paid == pre.total_funding_paid - delta
    &&& post.owner == pre.owner
    &&& post.side == pre.side
    &&& post.size == pre.size
    &&& post.entry_price == pre.entry_price
    &&& post.leverage == pre.leverage
    &&& post.last_funding_timestamp == pre.last_funding_timestamp
    &&& post.liquidation_price == pre.liquidation_price
    &&& post.realized_pnl == pre.realized_pnl
    &&& post.unrealized_pnl == pre.unrealized_pnl
    &&& post.last_update_price == pre.last_update_price
    &&& post.creation_time == pre.creation_time
}

impl Position {
    /// Internal consistency of an open position: a position only enters
    /// the ledger at a positive entry price (a zero entry price would
    /// make its liquidation price zero, which order placement refuses)
    /// and with at least unit leverage.
    pub open spec fn wf(self) -> bool {
        &&& self.entry_price >= 1
        &&& self.leverage >= 1
    }

    /// Builds the position a fresh order produces.
    pub fn new(
        owner: [u8; 32],
        side: Side,
        size: u64,
        entry_price: u64,
        leverage: u8,
        margin: u64,
        liquidation_price: u64,
        current_time: i64,
    ) -> (r: Position)
        ensures
            r == spec_new_position(
                owner,
                side,
                size,
                entry_price,
                leverage,
                margin,
                liquidation_price,
                current_time,
            ),
    {
        Position {
            owner,
            side,
            size,
            entry_price,
            leverage,
            margin,
            last_funding_timestamp: current_time,
            liquidation_price,
            realized_pnl: 0,
            unrealized_pnl: 0,
            last_update_price: entry_price,
            creation_time: current_time,
            total_funding_paid: 0,
        }
    }

    /// Re-marks the position at `current_price`: stores the exact
    /// profit-and-loss and the price used. Fails, leaving the position
    /// untouched, exactly when that value does not fit an `i64`.
    pub fn update_unrealized_pnl(&mut self, current_price: u64) -> (r: Result<(), ErrorCode>)
        requires
            old(self).entry_price >= 1,
        ensures
            match math::pnl_result(
                old(self).side,
                old(self).size,
                old(self).entry_price,
                current_price,
                old(self).leverage,
            ) {
                Ok(p) => {
                    &&& r == Ok::<(), ErrorCode>(())
                    &&& *final(self) == Position {
                        unrealized_pnl: p,
                        last_update_price: current_price,
                        ..*old(self)
                    }
                },
                Err(e) => {
                    &&& r == Err::<(), ErrorCode>(e)
                    &&& *final(self) == *old(self)
                },
            },
    {
        match math::calculate_pnl(self.side, self.size, self.entry_price, current_price, self.leverage) {
            Ok(p) => {
                self.unrealized_pnl = p;
                self.last_update_price = current_price;
                Ok(())
            },
            Err(e) => Err(e),
        }
    }

    /// Margin-to-notional ratio in basis points. Fails when the notional
    /// `size * current_price` is zero (the ratio is undefined) and when
    /// the ratio does not fit the 16-bit result — never a silent wrap,
    /// which would make an overcollateralized position look unhealthy.
    pub fn get_health_ratio(&self, current_price: u64) -> (r: Result<u16, ErrorCode>)
        ensures
            if self.size * current_price >= 1 && health_ratio_of(self.margin, self.size, current_price)
                <= u16::MAX {
                r == Ok::<u16, ErrorCode>(
                    health_ratio_of(self.margin, self.size, current_price) as u16,
                )
            } else {
                r == Err::<u16, ErrorCode>(ErrorCode::MathOverflow)
            },
    {
        proof {
            math::lemma_u64_product_fits_u128(self.size, current_price);
        }
        let notional: u128 = (self.size as u128) * (current_price as u128);
        if notional == 0 {
            return Err(ErrorCode::MathOverflow);
        }
        let scaled: u128 = (self.margin as u128) * 10000;
        let ratio: u128 = scaled / notional;
        if ratio > u16::MAX as u128 {
            return Err(ErrorCode::MathOverflow);
        }
        Ok(ratio as u16)
    }

    /// Health-based liquidation eligibility: the health ratio has fallen
    /// below the maintenance requirement. Fails exactly when the ratio is
    /// undefined (zero notional) or does not fit its 16-bit range.
    pub fn can_be_liquidated(&self, current_price: u64, maintenance_margin_ratio: u16) -> (r: Result<
        bool,
        ErrorCode,
    >)
        ensures
            if self.size * current_price >= 1 && health_ratio_of(self.margin, self.size, current_price)
                <= u16::MAX {
                r == Ok::<bool, ErrorCode>(
                    health_ratio_of(self.margin, self.size, current_price) < maintenance_margin_ratio,
                )
            } else {
                r == Err::<bool, ErrorCode>(ErrorCode::MathOverflow)
            },
    {
        match self.get_health_ratio(current_price) {
            Ok(health) => Ok(health < maintenance_margin_ratio),
            Err(e) => Err(e),
        }
    }
}

/// Applies one funding settlement to a position: moves the funding
/// magnitude into or out of its margin according to its side and the sign
/// of the rate, and records the opposite movement in its cumulative
/// funding paid. All checks precede any change; on failure the position
/// is untouched.
pub fn apply_funding_to_position(position: &mut Position, funding_rate: i64, is_long: bool) -> (r:
    Result<(), ErrorCode>)
    requires
        -10 <= funding_rate <= 10,
    ensures
        r.is_ok() <==> funding_fits(*old(position), funding_rate as int, is_long),
        r.is_ok() ==> funding_applied(*old(position), *final(position), funding_rate as int, is_long),
        r.is_err() ==> r == Err::<(), ErrorCode>(ErrorCode::MathOverflow) && *final(position) == *old(
            position,
        ),
{
    let abs_rate: u64 = if funding_rate < 0 {
        (-funding_rate) as u64
    } else {
        funding_rate as u64
    };
    proof {
        math::lemma_u64_product_fits_u128(position.size, position.entry_price);
        lemma_mag_split(position.size, position.entry_price, abs_rate);
    }
    let notional: u128 = (position.size as u128) * (position.entry_price as u128);
    let q: u128 = notional / 10000;
    let s: u128 = notional % 10000;
    proof {
        assert((s as int) * (abs_rate as int) <= 99990) by (nonlinear_arith)
            requires
                0 <= s < 10000,
                0 <= abs_rate <= 10,
        ;
    }
    let mag_wide: u128 = q * (abs_rate as u128) + (s * (abs_rate as u128)) / 10000;
    if mag_wide > i64::MAX as u128 {
        return Err(ErrorCode::MathOverflow);
    }
    let mag: u64 = mag_wide as u64;
    let pays: bool = (funding_rate >= 0) == is_long;
    if pays {
        if position.margin < mag {
            return Err(ErrorCode::MathOverflow);
        }
        if position.total_funding_paid > i64::MAX - (mag as i64) {
            return Err(ErrorCode::MathOverflow);
        }
        position.margin = position.margin - mag;
        position.total_funding_paid = position.total_funding_paid + (mag as i64);
    } else {
        if position.margin > u64::MAX - mag {
            return Err(ErrorCode::MathOverflow);
        }
        if position.total_funding_paid < i64::MIN + (mag as i64) {
            return Err(ErrorCode::MathOverflow);
        }
        position.margin = position.margin + mag;
        position.total_funding_paid = position.total_funding_paid - (mag as i64);
    }
    Ok(())
}

/// The funding magnitude equals its overflow-free split form
/// `(n / 10000) * r + ((n % 10000) * r) / 10000` for `n = size * entry`,
/// and that form stays comfortably inside `u128`.
proof fn lemma_mag_split(size: u64, entry_price: u64, abs_rate: u64)
    requires
        abs_rate <= 10,
    ensures
        math::funding_magnitude_of(size, entry_price, abs_rate as int) == ((size as int) * (
        entry_price as int) / 10000) * abs_rate + (((size as int) * (entry_price as int) % 10000)
            * abs_rate) / 10000,
        math::funding_magnitude_of(size, entry_price, abs_rate as int) >= 0,
        ((size as int) * (entry_price as int) / 10000) * abs_rate + (((size as int) * (
        entry_price as int) % 10000) * abs_rate) / 10000 <= (u128::MAX / 10000) * 10 + 9999,
{
    let n = (size as int) * (entry_price as int);
    math::lemma_u64_product_fits_u128(size, entry_price);
    math::lemma_mul_div_split(n, abs_rate as int, 10000);
    assert(math::abs_of(abs_rate as int) == abs_rate);
    assert(n * abs_rate == size * entry_price * math::abs_of(abs_rate as int));
    vstd::arithmetic::div_mod::lemma_div_is_ordered(n, u128::MAX as int, 10000);
    assert((n / 10000) * abs_rate <= (u128::MAX / 10000) * 10) by (nonlinear_arith)
        requires
            0 <= n / 10000 <= u128::MAX / 10000,
            0 <= abs_rate <= 10,
    ;
    assert(0 <= n % 10000 < 10000) by {
        vstd::arithmetic::div_mod::lemma_mod_division_less_than_divisor(n, 10000);
    }
    assert((n % 10000) * abs_rate <= 9999 * 10) by (nonlinear_arith)
        requires
            0 <= n % 10000 <= 9999,
            0 <= abs_rate <= 10,
    ;
    vstd::arithmetic::div_mod::lemma_div_is_ordered((n % 10000) * abs_rate, 99990int, 10000);
}

} // verus!
