use vstd::prelude::*;

use crate::strategy::{CustomStrategy, Strategy};
use crate::timeframe::TimeFrame;
use crate::units::{SCALE, lemma_product_within};

verus! {

/// Instructions to the executor. Sizes are fixed-point, durations in seconds.
#[derive(Clone, Debug, Copy, PartialEq, Eq, Structural)]
pub enum TradeCommand {
    ExecuteTrade { size: u64, is_long: bool, duration: u64 },
    OpenTrade { size: u64, is_long: bool },
    CloseTrade { size: u64 },
    BuildPosition { size: u64, is_long: bool, interval: u64 },
    CancelTrade,
    Liquidation(LiquidationFillInfo),
    Toggle,
    Resume,
    Pause,
}

/// How a fill came about.
#[derive(Clone, Debug, Copy, PartialEq, Eq, Structural)]
pub enum FillType {
    Open,
    Close,
    Liquidation,
}

/// A filled market order (fixed-point price and size).
#[derive(Clone, Debug, Copy, PartialEq, Eq, Structural)]
pub struct TradeFillInfo {
    pub price: u64,
    pub fill_type: FillType,
    pub sz: u64,
    pub oid: u64,
    pub is_long: bool,
}

/// A liquidation reported by the exchange, aggregated over its fills.
#[derive(Clone, Debug, Copy, PartialEq, Eq, Structural)]
pub struct LiquidationFillInfo {
    pub price: u64,
    pub sz: u64,
    pub oid: u64,
    pub is_long: bool,
}

/// A finished round trip: open and close price, realised pnl and fees.
#[derive(Clone, Debug, Copy, PartialEq)]
pub struct TradeInfo {
    pub open: u64,
    pub close: u64,
    pub pnl: i128,
    pub fee: u128,
    pub is_long: bool,
    pub duration: Option<u64>,
    pub oid: (u64, u64),
}

#[derive(Clone, Debug)]
pub struct MarketTradeInfo {
    pub asset: String,
    pub info: TradeInfo,
}

/// How a market trades: strategy, leverage, trade time and base timeframe.
#[derive(Clone, Debug, Copy, PartialEq, Eq, Structural)]
pub struct TradeParams {
    pub strategy: Strategy,
    pub lev: u32,
    pub trade_time: u64,
    pub time_frame: TimeFrame,
}

impl Default for TradeParams {
    fn default() -> (r: Self)
        ensures
            r.lev == 20,
            r.trade_time == 300,
            r.time_frame == TimeFrame::Min5,
            r.strategy == Strategy::Custom(
                CustomStrategy {
                    risk: crate::strategy::Risk::Normal,
                    style: crate::strategy::Style::Scalp,
                    stance: crate::strategy::Stance::Neutral,
                    follow_trend: true,
                },
            ),
    {
        TradeParams {
            strategy: Strategy::Custom(CustomStrategy::default()),
            lev: 20,
            trade_time: 300,
            time_frame: TimeFrame::Min5,
        }
    }
}

impl TradeParams {
    /// Whether a leverage change has to go to the exchange: always the first
    /// time, afterwards only when the value differs.
    pub fn lev_needs_update(&self, lev: u32, first_time: bool) -> (r: bool)
        ensures
            r == (first_time || self.lev != lev),
    {
        first_time || self.lev != lev
    }

    /// Applies the exchange's answer to a leverage change: on success the new
    /// leverage is taken, otherwise the answer becomes the error.
    pub fn update_lev(&mut self, lev: u32, first_time: bool, reply: Result<(), String>) -> (r: Result<
        u32,
        crate::error::Error,
    >)
        ensures
            !first_time && old(self).lev == lev ==> r is Err && *final(self) == *old(self),
            (first_time || old(self).lev != lev) ==> match reply {
                Ok(()) => r == Ok::<u32, crate::error::Error>(lev) && *final(self) == (TradeParams {
                    lev,
                    ..*old(self)
                }),
                Err(e) => r == Err::<u32, crate::error::Error>(crate::error::Error::Custom(e))
                    && *final(self) == *old(self),
            },
    {
        if !first_time && self.lev == lev {
            return Err(crate::error::Error::Custom(String::from_str("Leverage is unchanged")));
        }
        match reply {
            Ok(()) => {
                self.lev = lev;
                Ok(lev)
            },
            Err(e) => Err(crate::error::Error::Custom(e)),
        }
    }
}

impl TradeFillInfo {
    /// A liquidation seen as the closing fill of a position.
    pub fn from_liquidation(liq: LiquidationFillInfo) -> (r: Self)
        ensures
            r == (TradeFillInfo {
                price: liq.price,
                fill_type: FillType::Liquidation,
                sz: liq.sz,
                oid: liq.oid,
                is_long: liq.is_long,
            }),
    {
        TradeFillInfo {
            price: liq.price,
            fill_type: FillType::Liquidation,
            sz: liq.sz,
            oid: liq.oid,
            is_long: liq.is_long,
        }
    }
}

/// Fee on one fill: `sz * price * rate`, each product truncated to fixed-point.
pub open spec fn fee_of(sz: int, price: int, rate: int) -> int {
    (sz * price / SCALE as int) * rate / SCALE as int
}

/// Price move earned by a position of `sz` from `open` to `close`, before fees.
pub open spec fn gross_of(sz: int, open: int, close: int, is_long: bool) -> int {
    let gain = if is_long { close - open } else { open - close };
    if gain >= 0 {
        sz * gain / SCALE as int
    } else {
        -(sz * (-gain) / SCALE as int)
    }
}

/// Fees paid on both fills, at the taker rate.
pub open spec fn trade_fee(rate: int, open: TradeFillInfo, close: TradeFillInfo) -> int {
    fee_of(open.sz as int, open.price as int, rate) + fee_of(close.sz as int, close.price as int, rate)
}

/// Realised pnl: the closing size times the price move, signed by direction, minus both fees.
pub open spec fn trade_pnl(rate: int, is_long: bool, open: TradeFillInfo, close: TradeFillInfo) -> int {
    gross_of(close.sz as int, open.price as int, close.price as int, is_long) - trade_fee(rate, open, close)
}

proof fn lemma_fee_fits(sz: int, price: int, rate: int)
    requires
        0 <= sz <= u64::MAX,
        0 <= price <= u64::MAX,
        0 <= rate <= SCALE,
    ensures
        0 <= (sz * price / SCALE as int) * rate <= u128::MAX,
        0 <= fee_of(sz, price, rate) <= u64::MAX as int * u64::MAX as int / SCALE as int,
{
    let s = SCALE as int;
    let n = sz * price;
    lemma_product_within(sz, u64::MAX as int, price, u64::MAX as int);
    let q = n / s;
    assert(0 <= q * s <= n) by {
        vstd::arithmetic::div_mod::lemma_fundamental_div_mod(n, s);
    }
    lemma_product_within(q, q, rate, s);
    assert(q * rate / s <= q) by {
        vstd::arithmetic::div_mod::lemma_div_is_ordered(q * rate, q * s, s);
        vstd::arithmetic::div_mod::lemma_div_multiples_vanish(q, s);
    }
    assert(q <= u64::MAX as int * u64::MAX as int / s) by {
        vstd::arithmetic::div_mod::lemma_div_is_ordered(n, u64::MAX as int * u64::MAX as int, s);
    }
    assert(0 <= q * rate / s) by {
        vstd::arithmetic::div_mod::lemma_div_pos_is_pos(q * rate, s);
    }
}

/// Fee and pnl of a round trip at taker rate `fees.1`.
pub fn calculate_pnl(fees: &(u64, u64), is_long: bool, open: &TradeFillInfo, close: &TradeFillInfo) -> (r: (u128, i128))
    requires
        fees.1 <= SCALE,
    ensures
        r.0 == trade_fee(fees.1 as int, *open, *close),
        r.1 == trade_pnl(fees.1 as int, is_long, *open, *close),
{
    let rate = fees.1 as u128;
    let s = SCALE as u128;
    proof {
        lemma_fee_fits(open.sz as int, open.price as int, fees.1 as int);
        lemma_fee_fits(close.sz as int, close.price as int, fees.1 as int);
        lemma_product_within(open.sz as int, u64::MAX as int, open.price as int, u64::MAX as int);
        lemma_product_within(close.sz as int, u64::MAX as int, close.price as int, u64::MAX as int);
    }
    let fee_open: u128 = (open.sz as u128 * open.price as u128) / s * rate / s;
    let fee_close: u128 = (close.sz as u128 * close.price as u128) / s * rate / s;
    let gain_up = if is_long { close.price >= open.price } else { open.price >= close.price };
    let diff: u64 = if close.price >= open.price {
        close.price - open.price
    } else {
        open.price - close.price
    };
    proof {
        lemma_product_within(close.sz as int, u64::MAX as int, diff as int, u64::MAX as int);
        assert(close.sz as int * diff as int / SCALE as int <= u128::MAX as int / 1_000_000) by {
            vstd::arithmetic::div_mod::lemma_div_is_ordered(close.sz as int * diff as int, u128::MAX as int, SCALE as int);
        }
        assert(u64::MAX as int * u64::MAX as int / SCALE as int <= u128::MAX as int / 1_000_000);
    }
    let mag: u128 = (close.sz as u128 * diff as u128) / s;
    let fee: u128 = fee_open + fee_close;
    let pnl: i128 = if gain_up {
        mag as i128 - fee as i128
    } else {
        -(mag as i128) - fee as i128
    };
    proof {
        if close.price == open.price {
            assert(diff == 0);
            assert(close.sz as int * 0 == 0);
        }
    }
    (fee, pnl)
}

/// The record of a round trip from its opening and closing fills.
pub fn get_trade_info(open: TradeFillInfo, close: TradeFillInfo, fees: &(u64, u64)) -> (r: TradeInfo)
    requires
        fees.1 <= SCALE,
    ensures
        r == (TradeInfo {
            open: open.price,
            close: close.price,
            pnl: trade_pnl(fees.1 as int, open.is_long, open, close) as i128,
            fee: trade_fee(fees.1 as int, open, close) as u128,
            is_long: open.is_long,
            duration: None,
            oid: (open.oid, close.oid),
        }),
{
    let is_long = open.is_long;
    let (fee, pnl) = calculate_pnl(fees, is_long, &open, &close);
    TradeInfo {
        open: open.price,
        close: close.price,
        pnl,
        fee,
        is_long,
        duration: None,
        oid: (open.oid, close.oid),
    }
}

} // verus!
