use vstd::prelude::*;

use crate::margin::AssetMargin;
use crate::strategy::Strategy;
use crate::timeframe::TimeFrame;
use crate::trade::{LiquidationFillInfo, MarketTradeInfo, TradeInfo, TradeParams};
use crate::types::{EditType, Entry, IndexId, IndicatorData};

verus! {

/// What the exchange says of an asset.
#[derive(Clone, Debug)]
pub struct AssetMeta {
    pub name: String,
    pub sz_decimals: u32,
    pub max_leverage: u32,
}

/// An asset and its last price (fixed-point).
pub type AssetPrice = (String, u64);

/// The snapshot of one market shipped to the frontend.
#[derive(Clone, Debug)]
pub struct MarketInfo {
    pub asset: String,
    pub lev: u32,
    pub price: u64,
    pub params: TradeParams,
    pub margin: i64,
    pub pnl: i128,
    pub is_paused: bool,
    pub indicators: Vec<IndicatorData>,
}

/// Commands served by a market worker.
#[derive(Clone, Debug)]
pub enum MarketCommand {
    UpdateLeverage(u32),
    UpdateStrategy(Strategy),
    EditIndicators(Vec<Entry>),
    UpdateTimeFrame(TimeFrame),
    ReceiveTrade(TradeInfo),
    ReceiveLiquidation(LiquidationFillInfo),
    UpdateMargin(i64),
    UpdateIndicatorData(Vec<IndicatorData>),
    Toggle,
    Resume,
    Pause,
    Close,
}

/// Changes a market reports upward.
pub enum MarketUpdate {
    InitMarket(MarketInfo),
    PriceUpdate(AssetPrice),
    TradeUpdate(MarketTradeInfo),
    MarginUpdate(AssetMargin),
    RelayToFrontend(crate::frontend::UpdateFrontend),
}

/// Timeframes without repetition.
pub open spec fn tfs_distinct(s: Seq<TimeFrame>) -> bool {
    forall|i: int, j: int| 0 <= i < s.len() && 0 <= j < s.len() && i != j ==> #[trigger] s[i] != #[trigger] s[j]
}

proof fn lemma_push_contains(s: Seq<TimeFrame>, x: TimeFrame, y: TimeFrame)
    ensures
        s.push(x).contains(y) <==> (s.contains(y) || y == x),
{
    if s.contains(y) {
        let k = choose|k: int| 0 <= k < s.len() && s[k] == y;
        assert(s.push(x)[k] == y);
    }
    if y == x {
        assert(s.push(x)[s.len() as int] == y);
    }
    if s.push(x).contains(y) && y != x {
        let k = choose|k: int| 0 <= k < s.push(x).len() && s.push(x)[k] == y;
        assert(s[k] == y);
    }
}

/// Whether `tf` occurs in `v`.
pub fn tf_listed(v: &Vec<TimeFrame>, tf: TimeFrame) -> (r: bool)
    ensures
        r == v@.contains(tf),
{
    let mut i: usize = 0;
    while i < v.len()
        invariant
            i <= v@.len(),
            forall|j: int| 0 <= j < i ==> #[trigger] v@[j] != tf,
        decreases v.len() - i,
    {
        if v[i] == tf {
            return true;
        }
        i = i + 1;
    }
    false
}

/// State of one market worker: its asset, parameters, margin, realised pnl
/// and trade history, and the timeframes it keeps warm.
pub struct Market {
    pub trade_history: Vec<TradeInfo>,
    pub pnl: i128,
    pub trade_params: TradeParams,
    pub asset: AssetMeta,
    pub active_tfs: Vec<TimeFrame>,
    pub margin: i64,
}

impl Market {
    pub open spec fn wf(&self) -> bool {
        tfs_distinct(self.active_tfs@)
    }

    /// A market on `asset` whose active timeframes are the base one and those of `config`.
    pub fn new(asset: AssetMeta, margin: i64, trade_params: TradeParams, config: &Option<Vec<IndexId>>) -> (r: Self)
        ensures
            r.wf(),
            r.margin == margin,
            r.pnl == 0,
            r.trade_history@.len() == 0,
            r.trade_params == trade_params,
            r.asset.name@ == asset.name@,
            r.asset.max_leverage == asset.max_leverage,
            forall|tf: TimeFrame| #[trigger] r.active_tfs@.contains(tf) <==> (tf == trade_params.time_frame
                || (config matches Some(list) && exists|j: int| 0 <= j < list@.len() && #[trigger] list@[j].1 == tf)),
    {
        let mut active_tfs: Vec<TimeFrame> = Vec::new();
        active_tfs.push(trade_params.time_frame);
        proof {
            assert forall|x: TimeFrame| #[trigger] active_tfs@.contains(x) <==> x == trade_params.time_frame by {
                lemma_push_contains(Seq::<TimeFrame>::empty(), trade_params.time_frame, x);
                assert(Seq::<TimeFrame>::empty().push(trade_params.time_frame) =~= active_tfs@);
            }
        }
        if let Some(list) = config {
            let mut i: usize = 0;
            while i < list.len()
                invariant
                    i <= list@.len(),
                    tfs_distinct(active_tfs@),
                    forall|tf: TimeFrame| #[trigger] active_tfs@.contains(tf) <==> (tf == trade_params.time_frame
                        || exists|j: int| 0 <= j < i && #[trigger] list@[j].1 == tf),
                decreases list.len() - i,
            {
                let tf = list[i].1;
                let ghost before = active_tfs@;
                if !tf_listed(&active_tfs, tf) {
                    active_tfs.push(tf);
                    proof {
                        assert forall|a: int, b: int| 0 <= a < active_tfs@.len() && 0 <= b < active_tfs@.len() && a != b
                            implies #[trigger] active_tfs@[a] != #[trigger] active_tfs@[b] by {
                            if a == before.len() {
                                assert(before.contains(active_tfs@[b]));
                            } else if b == before.len() {
                                assert(before.contains(active_tfs@[a]));
                            }
                        }
                    }
                }
                proof {
                    assert forall|x: TimeFrame| #[trigger] active_tfs@.contains(x) <==> (x == trade_params.time_frame
                        || exists|j: int| 0 <= j < i + 1 && #[trigger] list@[j].1 == x) by {
                        lemma_push_contains(before, tf, x);
                        if x == tf {
                            assert(list@[i as int].1 == x);
                        }
                        if exists|j: int| 0 <= j < i + 1 && #[trigger] list@[j].1 == x {
                            let j = choose|j: int| 0 <= j < i + 1 && #[trigger] list@[j].1 == x;
                            if j < i {
                                assert(exists|j: int| 0 <= j < i && #[trigger] list@[j].1 == x);
                            }
                        }
                    }
                }
                i = i + 1;
            }
        }
        Market { trade_history: Vec::new(), pnl: 0, trade_params, asset, active_tfs, margin }
    }

    pub fn change_strategy(&mut self, strategy: Strategy)
        ensures
            final(self).trade_params == (TradeParams { strategy, ..old(self).trade_params }),
            final(self).margin == old(self).margin,
            final(self).pnl == old(self).pnl,
            final(self).trade_history == old(self).trade_history,
            final(self).active_tfs == old(self).active_tfs,
    {
        self.trade_params.strategy = strategy;
    }

    pub fn get_trade_history(&self) -> (r: &Vec<TradeInfo>)
        ensures
            r@ == self.trade_history@,
    {
        &self.trade_history
    }

    /// The leverage actually used for a request: capped at the asset's maximum.
    pub fn capped_leverage(&self, lev: u32) -> (r: u32)
        ensures
            r <= self.asset.max_leverage,
            r <= lev,
            r == lev || r == self.asset.max_leverage,
    {
        if lev < self.asset.max_leverage {
            lev
        } else {
            self.asset.max_leverage
        }
    }

    /// Whether a finished trade can be booked without leaving the number ranges.
    pub fn can_receive(&self, info: &TradeInfo) -> (r: bool)
        ensures
            r == (i64::MIN <= self.margin + info.pnl <= i64::MAX && i128::MIN <= self.pnl + info.pnl
                <= i128::MAX),
    {
        let m = self.margin as i128;
        let lo = i64::MIN as i128;
        let hi = i64::MAX as i128;
        let margin_fits = if info.pnl >= 0 {
            m <= hi - info.pnl
        } else {
            m >= lo - info.pnl
        };
        let pnl_fits = if info.pnl >= 0 {
            self.pnl <= i128::MAX - info.pnl
        } else {
            self.pnl >= i128::MIN - info.pnl
        };
        margin_fits && pnl_fits
    }

    /// Books a finished trade: its pnl goes to the margin and to the running
    /// pnl, and the trade joins the history. Returns the new margin.
    pub fn receive_trade(&mut self, info: TradeInfo) -> (r: i64)
        requires
            i64::MIN <= old(self).margin + info.pnl <= i64::MAX,
            i128::MIN <= old(self).pnl + info.pnl <= i128::MAX,
        ensures
            final(self).margin == old(self).margin + info.pnl,
            final(self).pnl == old(self).pnl + info.pnl,
            final(self).trade_history@ == old(self).trade_history@.push(info),
            r == final(self).margin,
            final(self).trade_params == old(self).trade_params,
            final(self).active_tfs == old(self).active_tfs,
    {
        self.pnl = self.pnl + info.pnl;
        self.margin = (self.margin as i128 + info.pnl) as i64;
        self.trade_history.push(info);
        self.margin
    }

    pub fn update_margin(&mut self, margin: i64)
        ensures
            final(self).margin == margin,
            final(self).pnl == old(self).pnl,
            final(self).trade_history == old(self).trade_history,
            final(self).trade_params == old(self).trade_params,
            final(self).active_tfs == old(self).active_tfs,
    {
        self.margin = margin;
    }

    pub fn update_timeframe(&mut self, tf: TimeFrame)
        ensures
            final(self).trade_params == (TradeParams { time_frame: tf, ..old(self).trade_params }),
            final(self).margin == old(self).margin,
            final(self).pnl == old(self).pnl,
            final(self).trade_history == old(self).trade_history,
            final(self).active_tfs == old(self).active_tfs,
    {
        self.trade_params.time_frame = tf;
    }

    /// The timeframes that indicator edits bring in for the first time: those
    /// of `Add` entries not yet active, each once. They become active.
    pub fn new_timeframes(&mut self, entries: &Vec<Entry>) -> (r: Vec<TimeFrame>)
        requires
            old(self).wf(),
        ensures
            final(self).wf(),
            tfs_distinct(r@),
            forall|tf: TimeFrame| #[trigger] r@.contains(tf) <==> (!old(self).active_tfs@.contains(tf) && exists|j: int|
                0 <= j < entries@.len() && #[trigger] entries@[j].edit == EditType::Add && entries@[j].id.1 == tf),
            forall|tf: TimeFrame| #[trigger] final(self).active_tfs@.contains(tf) <==> (old(self).active_tfs@.contains(tf)
                || r@.contains(tf)),
            final(self).margin == old(self).margin,
            final(self).pnl == old(self).pnl,
            final(self).trade_history == old(self).trade_history,
            final(self).trade_params == old(self).trade_params,
    {
        let mut fresh: Vec<TimeFrame> = Vec::new();
        proof {
            assert forall|tf: TimeFrame| !#[trigger] fresh@.contains(tf) by {}
        }
        let mut i: usize = 0;
        while i < entries.len()
            invariant
                i <= entries@.len(),
                tfs_distinct(self.active_tfs@),
                tfs_distinct(fresh@),
                forall|tf: TimeFrame| #[trigger] fresh@.contains(tf) <==> (!old(self).active_tfs@.contains(tf) && exists|j: int|
                    0 <= j < i && #[trigger] entries@[j].edit == EditType::Add && entries@[j].id.1 == tf),
                forall|tf: TimeFrame| #[trigger] self.active_tfs@.contains(tf) <==> (old(self).active_tfs@.contains(tf)
                    || fresh@.contains(tf)),
                self.margin == old(self).margin,
                self.pnl == old(self).pnl,
                self.trade_history == old(self).trade_history,
                self.trade_params == old(self).trade_params,
            decreases entries.len() - i,
        {
            let entry = entries[i];
            let ghost fresh_before = fresh@;
            let ghost active_before = self.active_tfs@;
            if entry.edit == EditType::Add && !tf_listed(&self.active_tfs, entry.id.1) {
                let tf = entry.id.1;
                self.active_tfs.push(tf);
                fresh.push(tf);
                proof {
                    assert(fresh@.last() == tf);
                    assert(self.active_tfs@.last() == tf);
                    assert forall|a: int, b: int| 0 <= a < fresh@.len() && 0 <= b < fresh@.len() && a != b
                        implies #[trigger] fresh@[a] != #[trigger] fresh@[b] by {
                        if a == fresh_before.len() {
                            assert(fresh_before.contains(fresh@[b]));
                        } else if b == fresh_before.len() {
                            assert(fresh_before.contains(fresh@[a]));
                        }
                    }
                    assert forall|a: int, b: int| 0 <= a < self.active_tfs@.len() && 0 <= b < self.active_tfs@.len() && a != b
                        implies #[trigger] self.active_tfs@[a] != #[trigger] self.active_tfs@[b] by {
                        if a == active_before.len() {
                            assert(active_before.contains(self.active_tfs@[b]));
                        } else if b == active_before.len() {
                            assert(active_before.contains(self.active_tfs@[a]));
                        }
                    }
                }
            }
            proof {
                assert forall|tf: TimeFrame| #[trigger] fresh@.contains(tf) <==> (!old(self).active_tfs@.contains(tf) && exists|j: int|
                    0 <= j < i + 1 && #[trigger] entries@[j].edit == EditType::Add && entries@[j].id.1 == tf) by {
                    if fresh@.len() > fresh_before.len() {
                        lemma_push_contains(fresh_before, entry.id.1, tf);
                        lemma_push_contains(active_before, entry.id.1, tf);
                    }
                    if fresh@.contains(tf) && !fresh_before.contains(tf) {
                        assert(entries@[i as int].edit == EditType::Add && entries@[i as int].id.1 == tf);
                    }
                    if exists|j: int| 0 <= j < i + 1 && #[trigger] entries@[j].edit == EditType::Add && entries@[j].id.1 == tf {
                        let j = choose|j: int| 0 <= j < i + 1 && #[trigger] entries@[j].edit == EditType::Add && entries@[j].id.1 == tf;
                        if j < i {
                            assert(exists|j: int| 0 <= j < i && #[trigger] entries@[j].edit == EditType::Add && entries@[j].id.1 == tf);
                        }
                    }
                }
                assert forall|tf: TimeFrame| #[trigger] self.active_tfs@.contains(tf) <==> (old(self).active_tfs@.contains(tf)
                    || fresh@.contains(tf)) by {
                    if fresh@.len() > fresh_before.len() {
                        lemma_push_contains(fresh_before, entry.id.1, tf);
                        lemma_push_contains(active_before, entry.id.1, tf);
                    }
                    if self.active_tfs@.contains(tf) && !active_before.contains(tf) {
                        assert(fresh@.contains(tf));
                    }
                    if fresh@.contains(tf) && !fresh_before.contains(tf) {
                        assert(self.active_tfs@.contains(tf));
                    }
                }
            }
            i = i + 1;
        }
        fresh
    }
}

} // verus!
