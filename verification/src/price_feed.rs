//! Validation and normalization of oracle price samples.
//!
//! A sample arrives from the oracle as plain values — signed raw price,
//! confidence width, decimal exponent, publish time. Reading the oracle
//! account itself is the host's job; this module owns the rules: the
//! staleness windows, the rejection of negative prices, the exact
//! decimal rescaling, and the fixed 95% confidence discount applied
//! before the price enters any margin, fee or liquidation computation.

use vstd::prelude::*;

verus! {

/// Failures of price-sample validation.
#[derive(Clone, Copy, Debug, PartialEq, Eq)]
pub enum ErrorCode {
    /// The price feed account could not be read as a price sample.
    InvalidPriceFeed,
    /// The sample is older than the staleness window allows.
    StalePrice,
    /// Negative prices are not supported.
    NegativePrice,
    /// A checked computation left the representable range.
    MathOverflow,
    /// Price moved more than the allowed band since the last sample.
    ExcessivePriceChange,
}

/// One validated oracle sample. Transient: every operation that needs a
/// price obtains a fresh sample and never persists it.
#[derive(Clone, Copy, Debug)]
pub struct PriceFeed {
    pub price: i64,
    pub conf: u64,
    pub expo: i32,
    pub timestamp: i64,
    pub next_update_time: i64,
}

/// Ten to the `e`-th power.
pub open spec fn pow10(e: nat) -> int
    decreases e,
{
    if e == 0 {
        1
    } else {
        10 * pow10((e - 1) as nat)
    }
}

/// Powers of ten are positive.
pub proof fn lemma_pow10_pos(e: nat)
    ensures
        pow10(e) >= 1,
    decreases e,
{
    if e > 0 {
        lemma_pow10_pos((e - 1) as nat);
    }
}

/// Powers of ten grow with the exponent.
pub proof fn lemma_pow10_increases(a: nat, b: nat)
    requires
        a <= b,
    ensures
        pow10(a) <= pow10(b),
    decreases b,
{
    if a < b {
        lemma_pow10_increases(a, (b - 1) as nat);
        lemma_pow10_pos((b - 1) as nat);
    }
}

/// The two powers of ten that bracket the 64-bit range.
pub proof fn lemma_pow10_values()
    ensures
        pow10(19) == 10_000_000_000_000_000_000,
        pow10(20) == 100_000_000_000_000_000_000,
{
    reveal_with_fuel(pow10, 21);
}

/// Ten to the `e`-th power as a machine word; `10^19` still fits `u64`.
pub fn pow10_u64(e: u32) -> (r: u64)
    requires
        e <= 19,
    ensures
        r == pow10(e as nat),
{
    proof {
        lemma_pow10_values();
    }
    let mut r: u64 = 1;
    let mut i: u32 = 0;
    while i < e
        invariant
            0 <= i <= e <= 19,
            r == pow10(i as nat),
        decreases e - i,
    {
        proof {
            lemma_pow10_values();
            lemma_pow10_increases((i + 1) as nat, 19);
        }
        r = r * 10;
        i = i + 1;
    }
    r
}

/// A raw price rescaled to the market's integer price scale: multiplied
/// by `10^expo` for a non-negative exponent, divided (flooring) for a
/// negative one.
pub open spec fn scaled_price_of(price: i64, expo: i32) -> int {
    if expo >= 0 {
        price * pow10(expo as nat)
    } else {
        (price as int) / pow10((-(expo as int)) as nat)
    }
}

/// What `get_adjusted_price` returns: staleness and sign are checked
/// first; then the rescaled price must fit `u64`; the result is 95% of
/// it, the fixed confidence discount.
pub open spec fn adjusted_price_result(feed: PriceFeed, current_time: i64) -> Result<u64, ErrorCode> {
    if current_time > feed.next_update_time {
        Err(ErrorCode::StalePrice)
    } else if feed.price < 0 {
        Err(ErrorCode::NegativePrice)
    } else {
        let scaled = scaled_price_of(feed.price, feed.expo);
        if scaled > u64::MAX {
            Err(ErrorCode::MathOverflow)
        } else {
            Ok(((scaled * 95) / 100) as u64)
        }
    }
}

/// The relative price move in basis points:
/// `floor(|new - old| * 10000 / old)`.
pub open spec fn price_change_bps_of(new_price: u64, old_price: u64) -> int {
    let diff: int = if new_price >= old_price {
        new_price - old_price
    } else {
        old_price - new_price
    };
    (diff * 10000) / (old_price as int)
}

impl PriceFeed {
    /// Validates a raw oracle sample read by the host and stamps it with
    /// the observation time. The sample must be younger than the
    /// 60-second staleness window; a validated sample may then be used
    /// for one second before it goes stale itself. (A sample the host
    /// could not read at all never reaches this point: the host reports
    /// `InvalidPriceFeed` for it.)
    pub fn new_from_pyth(price: i64, conf: u64, expo: i32, publish_time: i64, current_time: i64) -> (r:
        Result<PriceFeed, ErrorCode>)
        requires
            current_time < i64::MAX,
        ensures
            current_time - publish_time >= 60 ==> r == Err::<PriceFeed, ErrorCode>(
                ErrorCode::StalePrice,
            ),
            current_time - publish_time < 60 ==> r == Ok::<PriceFeed, ErrorCode>(
                PriceFeed {
                    price,
                    conf,
                    expo,
                    timestamp: current_time,
                    next_update_time: (current_time + 1) as i64,
                },
            ),
    {
        let age: i128 = current_time as i128 - publish_time as i128;
        if age >= 60 {
            return Err(ErrorCode::StalePrice);
        }
        Ok(PriceFeed { price, conf, expo, timestamp: current_time, next_update_time: current_time + 1 })
    }

    /// The sample's price rescaled to the market's integer scale and
    /// discounted to 95% for confidence, exactly as `adjusted_price_result`
    /// states; a sample older than one second is refused.
    pub fn get_adjusted_price(&self, current_time: i64) -> (r: Result<u64, ErrorCode>)
        ensures
            r == adjusted_price_result(*self, current_time),
    {
        if current_time > self.next_update_time {
            return Err(ErrorCode::StalePrice);
        }
        if self.price < 0 {
            return Err(ErrorCode::NegativePrice);
        }
        let p: u64 = self.price as u64;
        let scaled: u64;
        if self.expo < 0 {
            let n: i64 = -(self.expo as i64);
            if n >= 19 {
                proof {
                    lemma_pow10_values();
                    lemma_pow10_increases(19, n as nat);
                    vstd::arithmetic::div_mod::lemma_basic_div(p as int, pow10(n as nat));
                }
                scaled = 0;
            } else {
                let m: u64 = pow10_u64(n as u32);
                proof {
                    lemma_pow10_pos(n as nat);
                }
                scaled = p / m;
            }
        } else {
            let e: u32 = self.expo as u32;
            if p == 0 {
                proof {
                    assert((p as int) * pow10(e as nat) == 0) by (nonlinear_arith)
                        requires
                            p == 0,
                    ;
                }
                scaled = 0;
            } else if e >= 20 {
                proof {
                    lemma_pow10_values();
                    lemma_pow10_increases(20, e as nat);
                    assert((p as int) * pow10(e as nat) >= pow10(e as nat)) by (nonlinear_arith)
                        requires
                            p >= 1,
                            pow10(e as nat) >= 1,
                    ;
                }
                return Err(ErrorCode::MathOverflow);
            } else {
                let m: u64 = pow10_u64(e);
                proof {
                    crate::math::lemma_u64_product_fits_u128(p, m);
                }
                let wide: u128 = (p as u128) * (m as u128);
                if wide > u64::MAX as u128 {
                    return Err(ErrorCode::MathOverflow);
                }
                scaled = wide as u64;
            }
        }
        proof {
            vstd::arithmetic::div_mod::lemma_div_is_ordered(
                (scaled as int) * 95,
                (scaled as int) * 100,
                100,
            );
            vstd::arithmetic::div_mod::lemma_div_multiples_vanish(scaled as int, 100);
        }
        let safe: u64 = (((scaled as u128) * 95) / 100) as u64;
        Ok(safe)
    }

    /// Checks the sample against the previous price: the full move in
    /// basis points must stay within `max_change_bps` — the comparison is
    /// exact, so a huge move can never slip through a narrow band.
    /// Errors of the price adjustment itself pass through unchanged.
    pub fn validate_price_change(&self, old_price: u64, max_change_bps: u16, current_time: i64) -> (r:
        Result<(), ErrorCode>)
        requires
            old_price >= 1,
        ensures
            match adjusted_price_result(*self, current_time) {
                Err(e) => r == Err::<(), ErrorCode>(e),
                Ok(new_price) => if price_change_bps_of(new_price, old_price) <= max_change_bps {
                    r == Ok::<(), ErrorCode>(())
                } else {
                    r == Err::<(), ErrorCode>(ErrorCode::ExcessivePriceChange)
                },
            },
    {
        let new_price: u64 = match self.get_adjusted_price(current_time) {
            Ok(v) => v,
            Err(e) => {
                return Err(e);
            },
        };
        let diff: u64 = if new_price >= old_price {
            new_price - old_price
        } else {
            old_price - new_price
        };
        let wide: u128 = ((diff as u128) * 10000) / (old_price as u128);
        if wide <= max_change_bps as u128 {
            Ok(())
        } else {
            Err(ErrorCode::ExcessivePriceChange)
        }
    }
}

} // verus!
