//! The market aggregate: configuration, the two position sequences, and
//! the coordinator operations that place orders, liquidate positions and
//! settle funding.
//!
//! Every operation is all-or-nothing: each one validates before it
//! mutates, and on any error the market is exactly as it was. The
//! external collaborators — the price oracle, the clock, and the transfer
//! of funds between a user's balance and the market reserve — stay
//! outside: operations take the current time, the oracle price and the
//! user's available balance as arguments, and report the amount the
//! caller must move.

use vstd::prelude::*;

use crate::errors::ErrorCode;
use crate::ledger;
use crate::math;
use crate::math::Side;
use crate::position;
use crate::position::Position;

verus! {

/// One perpetual-futures market: immutable configuration and the mutable
/// ledger state it guards.
pub struct Market {
    pub name: String,
    pub authority: [u8; 32],
    pub min_base_order_size: u64,
    pub tick_size: u64,
    pub max_leverage: u8,
    pub liquidation_threshold: u16,
    pub maintenance_margin_fraction: u16,
    pub long_positions: Vec<Position>,
    pub short_positions: Vec<Position>,
    pub is_initialized: bool,
    pub total_fee_accrued: u64,
    pub max_position_size: u64,
    pub funding_rate: i64,
    pub last_funding_time: i64,
    pub funding_interval: i64,
}

/// What a successful liquidation owes the position's owner: the caller
/// must transfer `payout` from the market reserve back to `owner` (a
/// zero payout means nothing is owed).
#[derive(Clone, Copy, Debug)]
pub struct Settlement {
    pub owner: [u8; 32],
    pub payout: u64,
}

impl Market {
    /// Invariant of every live market: it was initialized with a sane
    /// configuration (positive tick size, leverage cap and funding
    /// interval), the funding rate sits inside its ±10 band,
    /// each side's aggregate size respects the cap, and every ledger
    /// entry is well formed and filed under its own side.
    pub open spec fn wf(self) -> bool {
        &&& self.is_initialized
        &&& self.tick_size >= 1
        &&& self.max_leverage >= 1
        &&& self.funding_interval >= 1
        &&& -10 <= self.funding_rate <= 10
        &&& ledger::sum_sizes(self.long_positions@) <= self.max_position_size
        &&& ledger::sum_sizes(self.short_positions@) <= self.max_position_size
        &&& ledger::side_positions_wf(self.long_positions@, Side::Long)
        &&& ledger::side_positions_wf(self.short_positions@, Side::Short)
    }

    /// The side's sequence of open positions, oldest first.
    pub open spec fn side_seq(self, side: Side) -> Seq<Position> {
        if side == Side::Long {
            self.long_positions@
        } else {
            self.short_positions@
        }
    }

    /// Aggregate open size on one side, as a mathematical integer.
    pub open spec fn aggregate_of(self, side: Side) -> int {
        ledger::sum_sizes(self.side_seq(side))
    }

    /// Sums the open sizes of one side; bounded by the position cap, so
    /// the sum always fits in `u64`.
    pub fn aggregate_size(&self, side: Side) -> (r: u64)
        requires
            self.wf(),
        ensures
            r == self.aggregate_of(side),
    {
        let positions: &Vec<Position> = match side {
            Side::Long => &self.long_positions,
            Side::Short => &self.short_positions,
        };
        let ghost s: Seq<Position> = positions@;
        let mut total: u64 = 0;
        let mut i: usize = 0;
        proof {
            assert(s.take(0) =~= Seq::<Position>::empty());
        }
        while i < positions.len()
            invariant
                0 <= i <= s.len(),
                positions@ == s,
                ledger::sum_sizes(s) <= u64::MAX,
                total == ledger::sum_sizes(s.take(i as int)),
            decreases s.len() - i,
        {
            proof {
                ledger::lemma_sum_sizes_prefix(s, i as int);
                ledger::lemma_sum_sizes_prefix_le(s, i + 1);
                ledger::lemma_sum_sizes_nonneg(s);
            }
            total = total + positions[i].size;
            i = i + 1;
        }
        proof {
            assert(s.take(s.len() as int) =~= s);
        }
        total
    }
}

/// Builds a fresh market around the given configuration: empty ledgers,
/// no fees accrued, a neutral funding rate, and the funding clock started
/// at `current_time`. A degenerate configuration — zero leverage cap,
/// zero tick size, or a funding interval that is not positive (which
/// would make funding perpetually due) — is refused.
pub fn initialize_market(
    market_name: String,
    authority: [u8; 32],
    min_base_order_size: u64,
    tick_size: u64,
    initial_leverage_max: u8,
    liquidation_threshold: u16,
    maintenance_margin_fraction: u16,
    max_position_size: u64,
    funding_interval: i64,
    current_time: i64,
) -> (r: Result<Market, ErrorCode>)
    ensures
        (initial_leverage_max >= 1 && tick_size >= 1 && funding_interval >= 1) ==> (r matches Ok(m)
            && m.wf() && m.name@ == market_name@ && m.authority == authority
            && m.min_base_order_size == min_base_order_size && m.tick_size == tick_size
            && m.max_leverage == initial_leverage_max && m.liquidation_threshold
            == liquidation_threshold && m.maintenance_margin_fraction == maintenance_margin_fraction
            && m.long_positions@ =~= Seq::<Position>::empty() && m.short_positions@ =~= Seq::<
            Position,
        >::empty() && m.is_initialized && m.total_fee_accrued == 0 && m.max_position_size
            == max_position_size && m.funding_rate == 0 && m.last_funding_time == current_time
            && m.funding_interval == funding_interval),
        !(initial_leverage_max >= 1 && tick_size >= 1 && funding_interval >= 1) ==> r == Err::<
            Market,
            ErrorCode,
        >(ErrorCode::InvalidMarketState),
{
    if initial_leverage_max < 1 || tick_size < 1 || funding_interval < 1 {
        return Err(ErrorCode::InvalidMarketState);
    }
    let market = Market {
        name: market_name,
        authority,
        min_base_order_size,
        tick_size,
        max_leverage: initial_leverage_max,
        liquidation_threshold,
        maintenance_margin_fraction,
        long_positions: Vec::new(),
        short_positions: Vec::new(),
        is_initialized: true,
        total_fee_accrued: 0,
        max_position_size,
        funding_rate: 0,
        last_funding_time: current_time,
        funding_interval,
    };
    Ok(market)
}

/// The first rule a prospective order breaks, in the order the checks
/// run, or `None` when the order is acceptable. `oracle_price` is the
/// adjusted oracle price the position would open at; the caller-supplied
/// `price` only has to sit on the tick grid.
pub open spec fn order_error(
    m: Market,
    side: Side,
    size: u64,
    price: u64,
    leverage: u8,
    oracle_price: u64,
    available_collateral: u64,
) -> Option<ErrorCode> {
    let agg = m.aggregate_of(side);
    let margin = math::margin_of(size, oracle_price, leverage);
    let fee = math::fee_of(size, oracle_price);
    if leverage > m.max_leverage {
        Some(ErrorCode::LeverageTooHigh)
    } else if size < m.min_base_order_size {
        Some(ErrorCode::OrderTooSmall)
    } else if size > m.max_position_size {
        Some(ErrorCode::OrderTooLarge)
    } else if price % m.tick_size != 0 {
        Some(ErrorCode::InvalidPrice)
    } else if agg + size > u64::MAX {
        Some(ErrorCode::MathOverflow)
    } else if agg + size > m.max_position_size {
        Some(ErrorCode::ExceedsMaxPosition)
    } else if margin > u64::MAX {
        Some(ErrorCode::MathOverflow)
    } else if m.total_fee_accrued + fee > u64::MAX {
        Some(ErrorCode::MathOverflow)
    } else if margin + fee > u64::MAX {
        Some(ErrorCode::MathOverflow)
    } else if available_collateral < margin + fee {
        Some(ErrorCode::InsufficientCollateral)
    } else {
        match math::liq_price_result(side, oracle_price, leverage, m.liquidation_threshold) {
            Err(e) => Some(e),
            Ok(_) => None,
        }
    }
}

/// Places an immediately-filled order at the adjusted oracle price.
///
/// Validates leverage, size bounds, tick alignment, the per-side
/// aggregate cap, the user's collateral against margin plus fee, and the
/// liquidation price (refused when not positive); only then accrues the
/// fee and appends the new position to its side. Returns the total
/// amount — margin plus fee — the caller must transfer from the user to
/// the market reserve; on any error the market is unchanged.
pub fn place_order(
    market: &mut Market,
    owner: [u8; 32],
    side: Side,
    size: u64,
    price: u64,
    leverage: u8,
    oracle_price: u64,
    available_collateral: u64,
    current_time: i64,
) -> (r: Result<u64, ErrorCode>)
    requires
        old(market).wf(),
        leverage >= 1,
    ensures
        final(market).wf(),
        match order_error(*old(market), side, size, price, leverage, oracle_price, available_collateral) {
            Some(e) => r == Err::<u64, ErrorCode>(e) && *final(market) == *old(market),
            None => {
                let margin = math::margin_of(size, oracle_price, leverage) as u64;
                let fee = math::fee_of(size, oracle_price) as u64;
                let lp = math::liq_price_result(
                    side,
                    oracle_price,
                    leverage,
                    old(market).liquidation_threshold,
                )->Ok_0;
                let pos = position::spec_new_position(
                    owner,
                    side,
                    size,
                    oracle_price,
                    leverage,
                    margin,
                    lp,
                    current_time,
                );
                &&& r == Ok::<u64, ErrorCode>((margin + fee) as u64)
                &&& final(market).side_seq(side) == old(market).side_seq(side).push(pos)
                &&& side == Side::Long ==> final(market).short_positions@ == old(
                    market,
                ).short_positions@
                &&& side == Side::Short ==> final(market).long_positions@ == old(
                    market,
                ).long_positions@
                &&& final(market).total_fee_accrued == old(market).total_fee_accrued + fee
                &&& *final(market) == Market {
                    long_positions: final(market).long_positions,
                    short_positions: final(market).short_positions,
                    total_fee_accrued: final(market).total_fee_accrued,
                    ..*old(market)
                }
            },
        },
{
    if leverage > market.max_leverage {
        return Err(ErrorCode::LeverageTooHigh);
    }
    if size < market.min_base_order_size {
        return Err(ErrorCode::OrderTooSmall);
    }
    if size > market.max_position_size {
        return Err(ErrorCode::OrderTooLarge);
    }
    if price % market.tick_size != 0 {
        return Err(ErrorCode::InvalidPrice);
    }
    let aggregate: u64 = market.aggregate_size(side);
    if aggregate > u64::MAX - size {
        return Err(ErrorCode::MathOverflow);
    }
    if aggregate + size > market.max_position_size {
        return Err(ErrorCode::ExceedsMaxPosition);
    }
    proof {
        math::lemma_u64_product_fits_u128(size, oracle_price);
    }
    let notional: u128 = (size as u128) * (oracle_price as u128);
    let margin_wide: u128 = notional / (leverage as u128);
    if margin_wide > u64::MAX as u128 {
        return Err(ErrorCode::MathOverflow);
    }
    let required_margin: u64 = math::calculate_required_margin(size, oracle_price, leverage);
    proof {
        vstd::arithmetic::div_mod::lemma_div_is_ordered_by_denominator(
            notional as int,
            leverage as int,
            1000,
        );
    }
    let fee: u64 = (notional / 1000) as u64;
    if market.total_fee_accrued > u64::MAX - fee {
        return Err(ErrorCode::MathOverflow);
    }
    if required_margin > u64::MAX - fee {
        return Err(ErrorCode::MathOverflow);
    }
    let total_cost: u64 = required_margin + fee;
    if available_collateral < total_cost {
        return Err(ErrorCode::InsufficientCollateral);
    }
    let liquidation_price: u64 = match math::calculate_liquidation_price(
        side,
        oracle_price,
        leverage,
        market.liquidation_threshold,
    ) {
        Ok(lp) => lp,
        Err(e) => {
            return Err(e);
        },
    };
    proof {
        // A zero entry price would have produced a zero liquidation
        // price, which the computation above refuses.
        if oracle_price == 0 {
            let factor = math::liq_factor_of(side, leverage, market.liquidation_threshold);
            assert((oracle_price as int) * factor == 0) by (nonlinear_arith)
                requires
                    oracle_price == 0,
            ;
            vstd::arithmetic::div_mod::lemma_div_of0(10000);
        }
        assert(oracle_price >= 1);
    }
    let pos = position::Position::new(
        owner,
        side,
        size,
        oracle_price,
        leverage,
        required_margin,
        liquidation_price,
        current_time,
    );
    market.total_fee_accrued = market.total_fee_accrued + fee;
    match side {
        Side::Long => market.long_positions.push(pos),
        Side::Short => market.short_positions.push(pos),
    }
    proof {
        let pre_seq = old(market).side_seq(side);
        let new_seq = market.side_seq(side);
        assert(new_seq == pre_seq.push(pos));
        ledger::lemma_sum_sizes_push(pre_seq, pos);
        assert(pos.wf());
        assert forall|i: int| 0 <= i < new_seq.len() implies (#[trigger] new_seq[i]).wf()
            && new_seq[i].side == side by {
            if i < pre_seq.len() {
                assert(new_seq[i] == pre_seq[i]);
            } else {
                assert(new_seq[i] == pos);
            }
        }
    }
    Ok(total_cost)
}

/// The reason a liquidation request fails, checked in order, or `None`
/// when the position at `position_index` must be liquidated. Underwater
/// positions whose loss exceeds their posted margin are a bad-debt case:
/// they are refused with an explicit error (no payout policy is modeled
/// for them) and stay in the ledger.
pub open spec fn liquidate_error(m: Market, position_index: u64, side: Side, current_price: u64) -> Option<
    ErrorCode,
> {
    let s = m.side_seq(side);
    if position_index >= s.len() {
        Some(ErrorCode::InvalidPositionIndex)
    } else {
        let p = s[position_index as int];
        if !math::liquidatable(side, current_price, p.liquidation_price) {
            Some(ErrorCode::CannotLiquidate)
        } else {
            match math::pnl_result(side, p.size, p.entry_price, current_price, p.leverage) {
                Err(e) => Some(e),
                Ok(pnl) => if pnl >= 0 {
                    if p.margin + pnl > u64::MAX {
                        Some(ErrorCode::MathOverflow)
                    } else {
                        None
                    }
                } else {
                    if p.margin + pnl < 0 {
                        Some(ErrorCode::InsufficientReserve)
                    } else {
                        None
                    }
                },
            }
        }
    }
}

/// Forcibly closes the position at `position_index` on `side`.
///
/// The liquidation trigger is validated against the current price before
/// anything is touched; a position that does not meet it stays in the
/// ledger unmodified. On success the position is removed — liquidation
/// is terminal, there is no partial liquidation — and the settlement
/// (margin plus profit-and-loss, never negative) is returned for the
/// caller to transfer from the market reserve back to the owner.
pub fn liquidate_position(
    market: &mut Market,
    position_index: u64,
    side: Side,
    current_price: u64,
) -> (r: Result<Settlement, ErrorCode>)
    requires
        old(market).wf(),
    ensures
        final(market).wf(),
        match liquidate_error(*old(market), position_index, side, current_price) {
            Some(e) => r matches Err(re) && re == e && *final(market) == *old(market),
            None => {
                let s = old(market).side_seq(side);
                let p = s[position_index as int];
                let pnl = math::pnl_result(
                    side,
                    p.size,
                    p.entry_price,
                    current_price,
                    p.leverage,
                )->Ok_0;
                &&& r matches Ok(settlement) && settlement.owner == p.owner
                    && settlement.payout == p.margin + pnl
                &&& final(market).side_seq(side) == s.remove(position_index as int)
                &&& side == Side::Long ==> final(market).short_positions@ == old(
                    market,
                ).short_positions@
                &&& side == Side::Short ==> final(market).long_positions@ == old(
                    market,
                ).long_positions@
                &&& *final(market) == Market {
                    long_positions: final(market).long_positions,
                    short_positions: final(market).short_positions,
                    ..*old(market)
                }
            },
        },
{
    let len: usize = match side {
        Side::Long => market.long_positions.len(),
        Side::Short => market.short_positions.len(),
    };
    if position_index >= len as u64 {
        return Err(ErrorCode::InvalidPositionIndex);
    }
    let idx: usize = position_index as usize;
    let p: Position = match side {
        Side::Long => market.long_positions[idx],
        Side::Short => market.short_positions[idx],
    };
    if !math::liquidation_trigger(side, current_price, p.liquidation_price) {
        return Err(ErrorCode::CannotLiquidate);
    }
    let pnl: i64 = match math::calculate_pnl(side, p.size, p.entry_price, current_price, p.leverage) {
        Ok(v) => v,
        Err(e) => {
            return Err(e);
        },
    };
    let payout: u64 = if pnl >= 0 {
        if p.margin > u64::MAX - (pnl as u64) {
            return Err(ErrorCode::MathOverflow);
        }
        p.margin + (pnl as u64)
    } else {
        let loss: u64 = if pnl == i64::MIN {
            9223372036854775808u64
        } else {
            (-pnl) as u64
        };
        if p.margin < loss {
            return Err(ErrorCode::InsufficientReserve);
        }
        p.margin - loss
    };
    proof {
        let s = old(market).side_seq(side);
        ledger::lemma_sum_sizes_remove(s, position_index as int);
        ledger::lemma_sum_sizes_nonneg(s.remove(position_index as int));
        assert(p.size >= 0);
    }
    match side {
        Side::Long => {
            market.long_positions.remove(idx);
        },
        Side::Short => {
            market.short_positions.remove(idx);
        },
    }
    proof {
        let s = old(market).side_seq(side);
        let new_seq = market.side_seq(side);
        assert(new_seq == s.remove(position_index as int));
        assert forall|i: int| 0 <= i < new_seq.len() implies (#[trigger] new_seq[i]).wf()
            && new_seq[i].side == side by {
            if i < position_index as int {
                assert(new_seq[i] == s[i]);
            } else {
                assert(new_seq[i] == s[i + 1]);
            }
        }
    }
    Ok(Settlement { owner: p.owner, payout })
}

/// Whether the funding interval has elapsed since the last settlement.
pub open spec fn funding_due(m: Market, current_time: i64) -> bool {
    current_time - m.last_funding_time >= m.funding_interval
}

/// Whether one funding settlement at `rate` can be applied to every
/// position of the market without leaving any representable range.
pub open spec fn all_funding_fits(m: Market, rate: int) -> bool {
    &&& forall|i: int|
        0 <= i < m.long_positions@.len() ==> position::funding_fits(
            #[trigger] m.long_positions@[i],
            rate,
            true,
        )
    &&& forall|i: int|
        0 <= i < m.short_positions@.len() ==> position::funding_fits(
            #[trigger] m.short_positions@[i],
            rate,
            false,
        )
}

/// Funding settlement is idempotent within one interval: a successful
/// settlement stamps `last_funding_time` with its own time, so at any
/// later instant still inside the funding interval the market is not due
/// and `update_funding_rate` leaves it exactly as it is — the mutation
/// of one interval happens exactly once.
pub proof fn lemma_settle_funding_idempotent(settled: Market, later_time: i64)
    requires
        later_time - settled.last_funding_time < settled.funding_interval,
    ensures
        !funding_due(settled, later_time),
{
}

/// Settles funding once the interval has elapsed; a no-op before that,
/// which makes a second call within one interval perform the mutation
/// exactly once.
///
/// When due, the rate is recomputed from the long/short imbalance and
/// applied to every position of both sides in one sweep: longs pay
/// shorts when the rate is positive, shorts pay longs when it is
/// negative. The sweep is all-or-nothing: if any position cannot absorb
/// its funding delta, nothing changes and the settlement fails.
pub fn update_funding_rate(market: &mut Market, current_time: i64) -> (r: Result<(), ErrorCode>)
    requires
        old(market).wf(),
    ensures
        final(market).wf(),
        !funding_due(*old(market), current_time) ==> r == Ok::<(), ErrorCode>(()) && *final(market)
            == *old(market),
        funding_due(*old(market), current_time) ==> ({
            let rate = math::funding_rate_of(
                old(market).aggregate_of(Side::Long),
                old(market).aggregate_of(Side::Short),
            );
            if all_funding_fits(*old(market), rate) {
                &&& r == Ok::<(), ErrorCode>(())
                &&& final(market).funding_rate == rate
                &&& final(market).last_funding_time == current_time
                &&& final(market).long_positions@.len() == old(market).long_positions@.len()
                &&& final(market).short_positions@.len() == old(market).short_positions@.len()
                &&& forall|i: int|
                    0 <= i < old(market).long_positions@.len() ==> position::funding_applied(
                        #[trigger] old(market).long_positions@[i],
                        final(market).long_positions@[i],
                        rate,
                        true,
                    )
                &&& forall|i: int|
                    0 <= i < old(market).short_positions@.len() ==> position::funding_applied(
                        #[trigger] old(market).short_positions@[i],
                        final(market).short_positions@[i],
                        rate,
                        false,
                    )
                &&& *final(market) == Market {
                    long_positions: final(market).long_positions,
                    short_positions: final(market).short_positions,
                    funding_rate: final(market).funding_rate,
                    last_funding_time: final(market).last_funding_time,
                    ..*old(market)
                }
            } else {
                r == Err::<(), ErrorCode>(ErrorCode::MathOverflow) && *final(market) == *old(market)
            }
        }),
{
    let elapsed: i128 = current_time as i128 - market.last_funding_time as i128;
    if elapsed < market.funding_interval as i128 {
        return Ok(());
    }
    let total_long: u64 = market.aggregate_size(Side::Long);
    let total_short: u64 = market.aggregate_size(Side::Short);
    let rate: i64 = math::compute_funding_rate(total_long, total_short);

    let mut new_long: Vec<Position> = Vec::new();
    let mut i: usize = 0;
    while i < market.long_positions.len()
        invariant
            *market == *old(market),
            old(market).wf(),
            funding_due(*old(market), current_time),
            rate == math::funding_rate_of(
                old(market).aggregate_of(Side::Long),
                old(market).aggregate_of(Side::Short),
            ),
            -10 <= rate <= 10,
            0 <= i <= market.long_positions@.len(),
            new_long@.len() == i,
            forall|j: int|
                0 <= j < i ==> position::funding_fits(
                    #[trigger] market.long_positions@[j],
                    rate as int,
                    true,
                ),
            forall|j: int|
                0 <= j < i ==> position::funding_applied(
                    market.long_positions@[j],
                    #[trigger] new_long@[j],
                    rate as int,
                    true,
                ),
        decreases market.long_positions@.len() - i,
    {
        let mut p: Position = market.long_positions[i];
        match position::apply_funding_to_position(&mut p, rate, true) {
            Ok(()) => {},
            Err(e) => {
                proof {
                    assert(!position::funding_fits(
                        old(market).long_positions@[i as int],
                        rate as int,
                        true,
                    ));
                    assert(!all_funding_fits(*old(market), rate as int));
                }
                return Err(e);
            },
        }
        new_long.push(p);
        i = i + 1;
    }

    let mut new_short: Vec<Position> = Vec::new();
    let mut k: usize = 0;
    while k < market.short_positions.len()
        invariant
            *market == *old(market),
            old(market).wf(),
            funding_due(*old(market), current_time),
            rate == math::funding_rate_of(
                old(market).aggregate_of(Side::Long),
                old(market).aggregate_of(Side::Short),
            ),
            -10 <= rate <= 10,
            0 <= k <= market.short_positions@.len(),
            new_short@.len() == k,
            forall|j: int|
                0 <= j < k ==> position::funding_fits(
                    #[trigger] market.short_positions@[j],
                    rate as int,
                    false,
                ),
            forall|j: int|
                0 <= j < k ==> position::funding_applied(
                    market.short_positions@[j],
                    #[trigger] new_short@[j],
                    rate as int,
                    false,
                ),
        decreases market.short_positions@.len() - k,
    {
        let mut p: Position = market.short_positions[k];
        match position::apply_funding_to_position(&mut p, rate, false) {
            Ok(()) => {},
            Err(e) => {
                proof {
                    assert(!position::funding_fits(
                        old(market).short_positions@[k as int],
                        rate as int,
                        false,
                    ));
                    assert(!all_funding_fits(*old(market), rate as int));
                }
                return Err(e);
            },
        }
        new_short.push(p);
        k = k + 1;
    }

    proof {
        ledger::lemma_sum_sizes_same_sizes(old(market).long_positions@, new_long@);
        ledger::lemma_sum_sizes_same_sizes(old(market).short_positions@, new_short@);
        assert forall|j: int| 0 <= j < new_long@.len() implies (#[trigger] new_long@[j]).wf()
            && new_long@[j].side == Side::Long by {
            assert(old(market).long_positions@[j].wf());
        }
        assert forall|j: int| 0 <= j < new_short@.len() implies (#[trigger] new_short@[j]).wf()
            && new_short@[j].side == Side::Short by {
            assert(old(market).short_positions@[j].wf());
        }
    }
    market.long_positions = new_long;
    market.short_positions = new_short;
    market.funding_rate = rate;
    market.last_funding_time = current_time;
    Ok(())
}

} // verus!
