use vstd::prelude::*;

use crate::timeframe::TimeFrame;

verus! {

/// One candle reading (fixed-point, see `units::SCALE`).
#[derive(Debug, Clone, Copy, PartialEq, Eq, Structural)]
pub struct Price {
    pub open: i64,
    pub high: i64,
    pub low: i64,
    pub close: i64,
}

/// A reading produced by an indicator (fixed-point).
#[derive(Debug, Clone, Copy, PartialEq, Eq, Structural)]
pub enum Value {
    RsiValue(i64),
    SmaRsiValue(i64),
    StochRsiValue { k: i64, d: i64 },
    AdxValue(i64),
    AtrValue(i64),
    EmaValue(i64),
    EmaCrossValue { short: i64, long: i64, trend: bool },
    SmaValue(i64),
}

/// Which indicator, with its parameters; equal kinds share one slot per timeframe.
#[derive(Debug, Clone, Copy, PartialEq, Eq, Structural, Hash)]
pub enum IndicatorKind {
    Rsi(u32),
    SmaOnRsi { periods: u32, smoothing_length: u32 },
    StochRsi { periods: u32, k_smoothing: Option<u32>, d_smoothing: Option<u32> },
    Adx { periods: u32, di_length: u32 },
    Atr(u32),
    Ema(u32),
    EmaCross { short: u32, long: u32 },
    Sma(u32),
}

/// An indicator instance on one asset.
pub type IndexId = (IndicatorKind, TimeFrame);

/// A reading tagged with the indicator it came from.
#[derive(Debug, Clone, Copy, PartialEq)]
pub struct IndicatorData {
    pub id: IndexId,
    pub value: Option<Value>,
}

#[derive(Debug, Clone, Copy, PartialEq, Eq, Structural)]
pub enum EditType {
    Toggle,
    Add,
    Remove,
}

/// One edit of the indicator set.
#[derive(Debug, Clone, Copy, PartialEq)]
pub struct Entry {
    pub id: IndexId,
    pub edit: EditType,
}

/// What the strategy needs besides indicator readings.
#[derive(Debug, Clone, Copy, PartialEq, Eq, Structural)]
pub struct ExecParams {
    pub margin: i64,
    pub lev: u32,
    pub tf: TimeFrame,
}

impl ExecParams {
    pub fn new(margin: i64, lev: u32, tf: TimeFrame) -> (r: Self)
        ensures
            r == (ExecParams { margin, lev, tf }),
    {
        ExecParams { margin, lev, tf }
    }

    /// Sets the one field that `param` names.
    pub fn apply(&mut self, param: ExecParam)
        ensures
            *final(self) == match param {
                ExecParam::Margin(m) => ExecParams { margin: m, ..*old(self) },
                ExecParam::Lev(l) => ExecParams { lev: l, ..*old(self) },
                ExecParam::Tf(t) => ExecParams { tf: t, ..*old(self) },
            },
    {
        match param {
            ExecParam::Margin(m) => self.margin = m,
            ExecParam::Lev(l) => self.lev = l,
            ExecParam::Tf(t) => self.tf = t,
        }
    }
}

#[derive(Debug, Clone, Copy, PartialEq, Eq, Structural)]
pub enum ExecParam {
    Margin(i64),
    Lev(u32),
    Tf(TimeFrame),
}

} // verus!
