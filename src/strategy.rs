use vstd::prelude::*;

use crate::trade::TradeCommand;
use crate::types::{ExecParams, Value};
use crate::units::{SCALE, lemma_product_within};

verus! {

#[derive(Clone, Debug, Copy, PartialEq, Eq, Structural)]
pub enum Risk {
    Low,
    Normal,
    High,
}

#[derive(Clone, Debug, Copy, PartialEq, Eq, Structural)]
pub enum Style {
    Scalp,
    Swing,
}

#[derive(Clone, Debug, Copy, PartialEq, Eq, Structural)]
pub enum Stance {
    Bull,
    Bear,
    Neutral,
}

#[derive(Clone, Debug, Copy, PartialEq, Eq, Structural)]
pub enum Strategy {
    Custom(CustomStrategy),
}

/// The reference strategy: risk band, style, directional bias.
#[derive(Clone, Debug, Copy, PartialEq, Eq, Structural)]
pub struct CustomStrategy {
    pub risk: Risk,
    pub style: Style,
    pub stance: Stance,
    pub follow_trend: bool,
}

/// Oversold / overbought band (fixed-point).
pub struct RsiRange {
    pub low: i64,
    pub high: i64,
}

/// Volatility band (fixed-point); `high == i64::MAX` means no upper bound.
pub struct AtrRange {
    pub low: i64,
    pub high: i64,
}

pub struct StochRange {
    pub low: i64,
    pub high: i64,
}

/// Seconds that a scalp stays open before it is closed.
pub const SCALP_DURATION: u64 = 420;

/// Band that the Stochastic RSI must clear, both lines.
pub const SRSI_OVERBOUGHT: i64 = 80 * SCALE;
pub const SRSI_OVERSOLD: i64 = 20 * SCALE;

/// Last RSI reading in `s`.
pub open spec fn last_rsi(s: Seq<Value>) -> Option<i64>
    decreases s.len(),
{
    if s.len() == 0 {
        None
    } else {
        match s.last() {
            Value::RsiValue(v) => Some(v),
            _ => last_rsi(s.drop_last()),
        }
    }
}

/// Last SMA-on-RSI reading in `s`.
pub open spec fn last_sma_rsi(s: Seq<Value>) -> Option<i64>
    decreases s.len(),
{
    if s.len() == 0 {
        None
    } else {
        match s.last() {
            Value::SmaRsiValue(v) => Some(v),
            _ => last_sma_rsi(s.drop_last()),
        }
    }
}

/// Last Stochastic RSI reading `(k, d)` in `s`.
pub open spec fn last_stoch(s: Seq<Value>) -> Option<(i64, i64)>
    decreases s.len(),
{
    if s.len() == 0 {
        None
    } else {
        match s.last() {
            Value::StochRsiValue { k, d } => Some((k, d)),
            _ => last_stoch(s.drop_last()),
        }
    }
}

/// Size of an order: nine tenths of `margin * lev / price`, all fixed-point.
pub open spec fn order_size(margin: int, lev: int, price: int) -> int {
    (9 * margin * lev * SCALE) / (10 * price)
}

impl CustomStrategy {
    pub open spec fn rsi_dev(self) -> int {
        match self.risk {
            Risk::Low => 15 * SCALE,
            Risk::Normal => 30 * SCALE,
            Risk::High => 37 * SCALE,
        }
    }

    /// Direction of a scalp entry for the given readings: `Some(true)` long,
    /// `Some(false)` short.
    pub open spec fn scalp_side(self, rsi: int, srsi: int, k: int, d: int) -> Option<bool> {
        let dev = self.rsi_dev();
        if self.stance != Stance::Bull && rsi > 100 * SCALE - dev && srsi > 100 * SCALE - dev - 5
            * SCALE && k > SRSI_OVERBOUGHT && d > SRSI_OVERBOUGHT {
            Some(false)
        } else if self.stance != Stance::Bear && rsi < dev && srsi < dev + 5 * SCALE && k
            < SRSI_OVERSOLD && d < SRSI_OVERSOLD {
            Some(true)
        } else {
            None
        }
    }

    /// The command that the strategy gives for these readings, price and parameters.
    pub open spec fn signal(self, data: Seq<Value>, price: int, params: ExecParams) -> Option<
        TradeCommand,
    > {
        match (last_rsi(data), last_sma_rsi(data), last_stoch(data)) {
            (Some(rsi), Some(srsi), Some((k, d))) => {
                let size = order_size(params.margin as int, params.lev as int, price);
                if price > 0 && params.margin > 0 && 0 < size <= u64::MAX {
                    match self.scalp_side(rsi as int, srsi as int, k as int, d as int) {
                        Some(is_long) => Some(
                            TradeCommand::ExecuteTrade {
                                size: size as u64,
                                is_long,
                                duration: SCALP_DURATION,
                            },
                        ),
                        None => None,
                    }
                } else {
                    None
                }
            },
            _ => None,
        }
    }

    pub fn new(risk: Risk, style: Style, stance: Stance, follow_trend: bool) -> (r: Self)
        ensures
            r == (CustomStrategy { risk, style, stance, follow_trend }),
    {
        CustomStrategy { risk, style, stance, follow_trend }
    }

    pub fn get_rsi_threshold(&self) -> (r: RsiRange)
        ensures
            self.risk == Risk::Low ==> r.low == 25 * SCALE && r.high == 78 * SCALE,
            self.risk == Risk::Normal ==> r.low == 30 * SCALE && r.high == 70 * SCALE,
            self.risk == Risk::High ==> r.low == 33 * SCALE && r.high == 67 * SCALE,
    {
        match self.risk {
            Risk::Low => RsiRange { low: 25 * SCALE, high: 78 * SCALE },
            Risk::Normal => RsiRange { low: 30 * SCALE, high: 70 * SCALE },
            Risk::High => RsiRange { low: 33 * SCALE, high: 67 * SCALE },
        }
    }

    pub fn get_stoch_threshold(&self) -> (r: StochRange)
        ensures
            self.risk == Risk::Low ==> r.low == 2 * SCALE && r.high == 95 * SCALE,
            self.risk == Risk::Normal ==> r.low == 15 * SCALE && r.high == 85 * SCALE,
            self.risk == Risk::High ==> r.low == 20 * SCALE && r.high == 80 * SCALE,
    {
        match self.risk {
            Risk::Low => StochRange { low: 2 * SCALE, high: 95 * SCALE },
            Risk::Normal => StochRange { low: 15 * SCALE, high: 85 * SCALE },
            Risk::High => StochRange { low: 20 * SCALE, high: 80 * SCALE },
        }
    }

    pub fn get_atr_threshold(&self) -> (r: AtrRange)
        ensures
            self.risk == Risk::Low ==> r.low == SCALE / 5 && r.high == SCALE,
            self.risk == Risk::Normal ==> r.low == SCALE / 2 && r.high == 3 * SCALE,
            self.risk == Risk::High ==> r.low == 4 * SCALE / 5 && r.high == i64::MAX,
    {
        match self.risk {
            Risk::Low => AtrRange { low: SCALE / 5, high: SCALE },
            Risk::Normal => AtrRange { low: SCALE / 2, high: 3 * SCALE },
            Risk::High => AtrRange { low: 4 * SCALE / 5, high: i64::MAX },
        }
    }

    pub fn update_risk(&mut self, risk: Risk)
        ensures
            *final(self) == (CustomStrategy { risk, ..*old(self) }),
    {
        self.risk = risk;
    }

    pub fn update_style(&mut self, style: Style)
        ensures
            *final(self) == (CustomStrategy { style, ..*old(self) }),
    {
        self.style = style;
    }

    pub fn update_direction(&mut self, stance: Stance)
        ensures
            *final(self) == (CustomStrategy { stance, ..*old(self) }),
    {
        self.stance = stance;
    }

    pub fn update_follow_trend(&mut self, follow_trend: bool)
        ensures
            *final(self) == (CustomStrategy { follow_trend, ..*old(self) }),
    {
        self.follow_trend = follow_trend;
    }

    /// Picks the last RSI, SMA-on-RSI and Stochastic RSI readings and, when all
    /// three are there, asks the scalp rule for an entry.
    pub fn generate_signal(&self, data: &Vec<Value>, price: u64, params: ExecParams) -> (r: Option<
        TradeCommand,
    >)
        ensures
            r == self.signal(data@, price as int, params),
    {
        let mut rsi: Option<i64> = None;
        let mut srsi: Option<i64> = None;
        let mut stoch: Option<(i64, i64)> = None;
        let mut i: usize = 0;
        while i < data.len()
            invariant
                i <= data@.len(),
                rsi == last_rsi(data@.subrange(0, i as int)),
                srsi == last_sma_rsi(data@.subrange(0, i as int)),
                stoch == last_stoch(data@.subrange(0, i as int)),
            decreases data.len() - i,
        {
            proof {
                assert(data@.subrange(0, i + 1).drop_last() =~= data@.subrange(0, i as int));
            }
            match data[i] {
                Value::RsiValue(v) => rsi = Some(v),
                Value::SmaRsiValue(v) => srsi = Some(v),
                Value::StochRsiValue { k, d } => stoch = Some((k, d)),
                _ => {},
            }
            i = i + 1;
        }
        assert(data@.subrange(0, data@.len() as int) =~= data@);
        match (rsi, srsi, stoch) {
            (Some(rsi), Some(srsi), Some((k, d))) => {
                if price == 0 || params.margin <= 0 {
                    return None;
                }
                proof {
                    lemma_product_within(
                        params.margin as int,
                        i64::MAX as int,
                        params.lev as int,
                        u32::MAX as int,
                    );
                    assert(9 * (params.margin as int) * (params.lev as int) * SCALE == 9 * SCALE * ((
                    params.margin as int) * (params.lev as int))) by (nonlinear_arith);
                }
                let num: u128 = 9u128 * (params.margin as u128) * (params.lev as u128) * (
                SCALE as u128);
                let size: u128 = num / (10u128 * price as u128);
                if size == 0 || size > u64::MAX as u128 {
                    return None;
                }
                self.rsi_based_scalp(rsi, srsi, (k, d), size as u64)
            },
            _ => None,
        }
    }

    /// Scalp entry on RSI extremes confirmed by SMA-on-RSI and Stochastic RSI.
    fn rsi_based_scalp(&self, rsi: i64, srsi: i64, stoch_rsi: (i64, i64), size: u64) -> (r: Option<
        TradeCommand,
    >)
        ensures
            r == match self.scalp_side(rsi as int, srsi as int, stoch_rsi.0 as int, stoch_rsi.1 as int) {
                Some(is_long) => Some(
                    TradeCommand::ExecuteTrade { size, is_long, duration: SCALP_DURATION },
                ),
                None => None,
            },
    {
        let (k, d) = stoch_rsi;
        let rsi_dev: i128 = match self.risk {
            Risk::Low => 15 * SCALE as i128,
            Risk::Normal => 30 * SCALE as i128,
            Risk::High => 37 * SCALE as i128,
        };
        let hundred: i128 = 100 * SCALE as i128;
        let five: i128 = 5 * SCALE as i128;
        if self.stance != Stance::Bull {
            let rsi_short = rsi as i128 > hundred - rsi_dev;
            let srsi_short = srsi as i128 > hundred - rsi_dev - five;
            let stoch_short = k > SRSI_OVERBOUGHT && d > SRSI_OVERBOUGHT;
            if rsi_short && srsi_short && stoch_short {
                return Some(
                    TradeCommand::ExecuteTrade { size, is_long: false, duration: SCALP_DURATION },
                );
            }
        }
        if self.stance != Stance::Bear {
            let rsi_long = (rsi as i128) < rsi_dev;
            let srsi_long = (srsi as i128) < rsi_dev + five;
            let stoch_long = k < SRSI_OVERSOLD && d < SRSI_OVERSOLD;
            if rsi_long && srsi_long && stoch_long {
                return Some(
                    TradeCommand::ExecuteTrade { size, is_long: true, duration: SCALP_DURATION },
                );
            }
        }
        None
    }
}

impl Default for CustomStrategy {
    fn default() -> (r: Self)
        ensures
            r == (CustomStrategy {
                risk: Risk::Normal,
                style: Style::Scalp,
                stance: Stance::Neutral,
                follow_trend: true,
            }),
    {
        CustomStrategy {
            risk: Risk::Normal,
            style: Style::Scalp,
            stance: Stance::Neutral,
            follow_trend: true,
        }
    }
}

} // verus!
