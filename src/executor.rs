use vstd::prelude::*;

use crate::trade::{
    FillType, LiquidationFillInfo, TradeCommand, TradeFillInfo, TradeInfo, get_trade_info, trade_fee,
    trade_pnl,
};
use crate::units::SCALE;

verus! {

/// What the executor asks of the exchange side after a command.
#[derive(Clone, Debug, Copy, PartialEq)]
pub enum ExecAction {
    /// Nothing to do.
    Skip,
    /// Submit a market order that opens a position; when `close_after` is
    /// set, close it after that many seconds.
    Open { size: u64, is_long: bool, close_after: Option<u64> },
    /// Submit a market order that closes `size` of `position`, which has
    /// already left the executor; stop the executor afterwards when `stop`.
    Close { position: TradeFillInfo, size: u64, stop: bool },
    /// A finished trade to report upward.
    Report(TradeInfo),
    /// Stop the executor.
    Stop,
}

/// Position state machine of one asset.
pub struct Executor {
    pub asset: String,
    pub is_paused: bool,
    /// Maker and taker fee rates (fixed-point); pnl uses the taker rate.
    pub fees: (u64, u64),
    pub open_position: Option<TradeFillInfo>,
}

/// The record of a round trip, as `get_trade_info` builds it.
pub open spec fn settled(open: TradeFillInfo, close: TradeFillInfo, rate: int) -> TradeInfo {
    TradeInfo {
        open: open.price,
        close: close.price,
        pnl: trade_pnl(rate, open.is_long, open, close) as i128,
        fee: trade_fee(rate, open, close) as u128,
        is_long: open.is_long,
        duration: None,
        oid: (open.oid, close.oid),
    }
}

/// Next open position, pause flag and action for a command.
pub open spec fn step(pos: Option<TradeFillInfo>, paused: bool, rate: int, cmd: TradeCommand) -> (
    Option<TradeFillInfo>,
    bool,
    ExecAction,
) {
    match cmd {
        TradeCommand::ExecuteTrade { size, is_long, duration } => if pos is None && !paused {
            (pos, paused, ExecAction::Open { size, is_long, close_after: Some(duration) })
        } else {
            (pos, paused, ExecAction::Skip)
        },
        TradeCommand::OpenTrade { size, is_long } => if pos is None && !paused {
            (pos, paused, ExecAction::Open { size, is_long, close_after: None })
        } else {
            (pos, paused, ExecAction::Skip)
        },
        TradeCommand::CloseTrade { size } => match pos {
            Some(p) => if !paused {
                (
                    None,
                    paused,
                    ExecAction::Close {
                        position: p,
                        size: if size < p.sz { size } else { p.sz },
                        stop: false,
                    },
                )
            } else {
                (pos, paused, ExecAction::Skip)
            },
            None => (pos, paused, ExecAction::Skip),
        },
        TradeCommand::CancelTrade => match pos {
            Some(p) => (None, paused, ExecAction::Close { position: p, size: p.sz, stop: true }),
            None => (None, paused, ExecAction::Stop),
        },
        TradeCommand::Liquidation(liq) => match pos {
            Some(p) => (
                None,
                paused,
                ExecAction::Report(settled(p, liquidation_fill(liq), rate)),
            ),
            None => (pos, paused, ExecAction::Skip),
        },
        TradeCommand::Toggle => match pos {
            Some(p) => (None, !paused, ExecAction::Close { position: p, size: p.sz, stop: false }),
            None => (None, !paused, ExecAction::Skip),
        },
        TradeCommand::Pause => match pos {
            Some(p) => (None, true, ExecAction::Close { position: p, size: p.sz, stop: false }),
            None => (None, true, ExecAction::Skip),
        },
        TradeCommand::Resume => (pos, false, ExecAction::Skip),
        TradeCommand::BuildPosition { .. } => (pos, paused, ExecAction::Skip),
    }
}

pub open spec fn liquidation_fill(liq: LiquidationFillInfo) -> TradeFillInfo {
    TradeFillInfo {
        price: liq.price,
        fill_type: FillType::Liquidation,
        sz: liq.sz,
        oid: liq.oid,
        is_long: liq.is_long,
    }
}

/// Pausing an idle, running executor and resuming it leaves it as it was.
pub proof fn lemma_pause_then_resume(pos: Option<TradeFillInfo>, paused: bool, rate: int)
    requires
        pos is None,
        !paused,
    ensures
        ({
            let (p1, q1, _a1) = step(pos, paused, rate, TradeCommand::Pause);
            let (p2, q2, _a2) = step(p1, q1, rate, TradeCommand::Resume);
            p2 == pos && q2 == paused
        }),
{
}

/// No command opens a second position: an order to open is only ever issued
/// from an executor that holds none and is running, and a position is only
/// kept or dropped, never replaced.
pub proof fn lemma_single_position(pos: Option<TradeFillInfo>, paused: bool, rate: int, cmd: TradeCommand)
    ensures
        ({
            let (p1, _q1, a) = step(pos, paused, rate, cmd);
            &&& a is Open ==> pos is None && !paused
            &&& p1 is Some ==> p1 == pos
        }),
{
}

impl Executor {
    pub open spec fn wf(&self) -> bool {
        self.fees.1 <= SCALE
    }

    pub fn new(asset: String, fees: (u64, u64)) -> (r: Self)
        requires
            fees.1 <= SCALE,
        ensures
            r.wf(),
            r.asset@ == asset@,
            r.fees == fees,
            !r.is_paused,
            r.open_position is None,
    {
        Executor { asset, is_paused: false, fees, open_position: None }
    }

    pub fn is_active(&self) -> (r: bool)
        ensures
            r == self.open_position is Some,
    {
        self.open_position.is_some()
    }

    pub fn toggle_pause(&mut self)
        ensures
            final(self).is_paused == !old(self).is_paused,
            final(self).open_position == old(self).open_position,
            final(self).fees == old(self).fees,
            final(self).asset == old(self).asset,
    {
        self.is_paused = !self.is_paused;
    }

    /// Takes the open position out, as a timed close does when it fires.
    pub fn take_position(&mut self) -> (r: Option<TradeFillInfo>)
        ensures
            r == old(self).open_position,
            final(self).open_position is None,
            final(self).is_paused == old(self).is_paused,
            final(self).fees == old(self).fees,
            final(self).asset == old(self).asset,
    {
        self.open_position.take()
    }

    /// Stores the fill of an opening order. Refused, and `false`, when a
    /// position is already open.
    pub fn record_open(&mut self, fill: TradeFillInfo) -> (r: bool)
        ensures
            r == old(self).open_position is None,
            r ==> final(self).open_position == Some(fill),
            !r ==> final(self).open_position == old(self).open_position,
            final(self).is_paused == old(self).is_paused,
            final(self).fees == old(self).fees,
            final(self).asset == old(self).asset,
    {
        if self.open_position.is_some() {
            return false;
        }
        self.open_position = Some(fill);
        true
    }

    /// The record of a round trip at this executor's taker rate.
    pub fn settle(&self, open: TradeFillInfo, close: TradeFillInfo) -> (r: TradeInfo)
        requires
            self.wf(),
        ensures
            r == settled(open, close, self.fees.1 as int),
    {
        get_trade_info(open, close, &self.fees)
    }

    /// Applies one command to the state machine and says what the exchange
    /// side has to do.
    pub fn handle(&mut self, cmd: TradeCommand) -> (r: ExecAction)
        requires
            old(self).wf(),
        ensures
            final(self).wf(),
            (final(self).open_position, final(self).is_paused, r) == step(
                old(self).open_position,
                old(self).is_paused,
                old(self).fees.1 as int,
                cmd,
            ),
            final(self).fees == old(self).fees,
            final(self).asset == old(self).asset,
    {
        match cmd {
            TradeCommand::ExecuteTrade { size, is_long, duration } => {
                if self.open_position.is_some() || self.is_paused {
                    ExecAction::Skip
                } else {
                    ExecAction::Open { size, is_long, close_after: Some(duration) }
                }
            },
            TradeCommand::OpenTrade { size, is_long } => {
                if self.open_position.is_some() || self.is_paused {
                    ExecAction::Skip
                } else {
                    ExecAction::Open { size, is_long, close_after: None }
                }
            },
            TradeCommand::CloseTrade { size } => {
                if self.is_paused {
                    return ExecAction::Skip;
                }
                match self.take_position() {
                    Some(p) => {
                        let size = if size < p.sz {
                            size
                        } else {
                            p.sz
                        };
                        ExecAction::Close { position: p, size, stop: false }
                    },
                    None => ExecAction::Skip,
                }
            },
            TradeCommand::CancelTrade => match self.take_position() {
                Some(p) => ExecAction::Close { position: p, size: p.sz, stop: true },
                None => ExecAction::Stop,
            },
            TradeCommand::Liquidation(liq) => match self.take_position() {
                Some(p) => {
                    let fill = TradeFillInfo::from_liquidation(liq);
                    ExecAction::Report(self.settle(p, fill))
                },
                None => ExecAction::Skip,
            },
            TradeCommand::Toggle => {
                let taken = self.take_position();
                self.toggle_pause();
                match taken {
                    Some(p) => ExecAction::Close { position: p, size: p.sz, stop: false },
                    None => ExecAction::Skip,
                }
            },
            TradeCommand::Pause => {
                let taken = self.take_position();
                self.is_paused = true;
                match taken {
                    Some(p) => ExecAction::Close { position: p, size: p.sz, stop: false },
                    None => ExecAction::Skip,
                }
            },
            TradeCommand::Resume => {
                self.is_paused = false;
                ExecAction::Skip
            },
            TradeCommand::BuildPosition { .. } => ExecAction::Skip,
        }
    }
}

} // verus!
