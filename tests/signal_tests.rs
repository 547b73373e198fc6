use hyperliquid_bot::engine::SignalEngine;
use hyperliquid_bot::units::SCALE;
use hyperliquid_bot::{
    EditType, Entry, ExecParam, Handler, Indicator, IndicatorKind, Price, TimeFrame, Tracker, TradeParams, Value,
};

/// Last close seen, committed only at a candle's close.
struct LastClose {
    committed: Option<i64>,
    provisional: Option<i64>,
    closes: usize,
}

impl Indicator for LastClose {
    fn for_kind(_kind: IndicatorKind) -> Self {
        LastClose { committed: None, provisional: None, closes: 0 }
    }
    fn update_before_close(&mut self, price: Price) {
        self.provisional = Some(price.close);
    }
    fn update_after_close(&mut self, price: Price) {
        self.committed = Some(price.close);
        self.provisional = None;
        self.closes += 1;
    }
    fn load(&mut self, data: &Vec<Price>) {
        for p in data {
            self.update_after_close(*p);
        }
    }
    fn get_last(&self) -> Option<Value> {
        self.provisional.or(self.committed).map(Value::RsiValue)
    }
    fn reset(&mut self) {
        self.committed = None;
        self.provisional = None;
        self.closes = 0;
    }
}

fn candle(close: i64) -> Price {
    Price { open: close, high: close, low: close, close }
}

// 2024-01-01 12:07:23 UTC in milliseconds.
const T_12_07_23: u64 = 1_704_110_843_000;
const T_12_08_00: u64 = 1_704_110_880_000;
const T_12_10_00: u64 = 1_704_111_000_000;
const T_12_15_00: u64 = 1_704_111_300_000;

#[test]
fn timeframe_alignment() {
    let mut t: Tracker<LastClose> = Tracker::new(TimeFrame::Min5, T_12_07_23);
    assert_eq!(t.next_close, T_12_10_00);
    t.add_indicator(IndicatorKind::Rsi(14), false);
    assert!(!t.digest(candle(1), T_12_08_00));
    assert_eq!(t.next_close, T_12_10_00);
    assert!(t.history().is_empty());
    assert_eq!(t.indicators[0].1.indicator.closes, 0);
    assert!(t.digest(candle(2), T_12_10_00));
    assert_eq!(t.next_close, T_12_15_00);
    assert_eq!(t.history(), vec![candle(2)]);
    assert_eq!(t.indicators[0].1.indicator.closes, 1);
    assert_eq!(t.next_close % TimeFrame::Min5.to_millis(), 0);
}

#[test]
fn handler_toggle_twice_restores() {
    let mut h: Handler<LastClose> = Handler::new(IndicatorKind::Ema(9));
    assert!(h.is_active);
    assert!(!h.toggle());
    assert!(h.toggle());
    h.update(candle(3), false);
    assert_eq!(h.get_value(), Some(Value::RsiValue(3)));
    h.reset();
    assert_eq!(h.get_value(), None);
    h.load(&vec![candle(4), candle(5)]);
    assert_eq!(h.get_value(), Some(Value::RsiValue(5)));
}

#[test]
fn tracker_edits() {
    let mut t: Tracker<LastClose> = Tracker::new(TimeFrame::Min1, T_12_07_23);
    t.load(&vec![candle(1), candle(2)]);
    assert_eq!(t.history(), vec![candle(1), candle(2)]);
    t.add_indicator(IndicatorKind::Atr(14), true);
    assert_eq!(t.get_active_values(), vec![Value::RsiValue(2)]);
    t.toggle_indicator(IndicatorKind::Atr(14));
    assert!(t.get_active_values().is_empty());
    assert_eq!(t.get_indicators_data().len(), 1);
    t.toggle_indicator(IndicatorKind::Atr(14));
    assert!(t.indicators[0].1.is_active);
    t.remove_indicator(IndicatorKind::Atr(14));
    assert!(t.indicators.is_empty());
    t.reset();
    assert!(t.history().is_empty());
}

fn engine() -> SignalEngine<LastClose> {
    let config = vec![(IndicatorKind::Rsi(12), TimeFrame::Min1), (IndicatorKind::Sma(9), TimeFrame::Hour1)];
    SignalEngine::new(Some(config), TradeParams::default(), 1000 * SCALE, T_12_07_23)
}

#[test]
fn engine_builds_trackers_from_config() {
    let e = engine();
    let tfs: Vec<TimeFrame> = e.trackers.iter().map(|t| t.tf).collect();
    assert_eq!(tfs, vec![TimeFrame::Min5, TimeFrame::Min1, TimeFrame::Hour1]);
    assert_eq!(e.get_active_indicators().len(), 2);
    assert_eq!(e.exec_params.margin, 1000 * SCALE);
    assert_eq!(e.exec_params.lev, 20);
}

#[test]
fn engine_toggle_twice_restores() {
    let mut e = engine();
    let id = (IndicatorKind::Rsi(12), TimeFrame::Min1);
    e.toggle_indicator(id);
    assert_eq!(e.get_active_indicators(), vec![(IndicatorKind::Sma(9), TimeFrame::Hour1)]);
    e.toggle_indicator(id);
    assert_eq!(e.get_active_indicators().len(), 2);
}

#[test]
fn engine_edits_in_order() {
    let mut e = engine();
    let entries = vec![
        Entry { id: (IndicatorKind::Ema(21), TimeFrame::Day1), edit: EditType::Add },
        Entry { id: (IndicatorKind::Rsi(12), TimeFrame::Min1), edit: EditType::Remove },
        Entry { id: (IndicatorKind::Sma(9), TimeFrame::Hour1), edit: EditType::Toggle },
    ];
    e.edit_indicators(&entries, T_12_07_23);
    assert_eq!(e.trackers.len(), 4);
    assert_eq!(e.get_active_indicators(), vec![(IndicatorKind::Ema(21), TimeFrame::Day1)]);
}

#[test]
fn engine_ticks_and_snapshots() {
    let mut e = engine();
    assert!(e.update_price(candle(7), T_12_08_00));
    for _ in 0..4 {
        assert!(!e.update_price(candle(7), T_12_08_00));
    }
    assert!(e.update_price(candle(7), T_12_08_00));
    assert_eq!(e.get_active_values().len(), 2);
    e.update_exec_params(ExecParam::Lev(3));
    assert_eq!(e.exec_params.lev, 3);
    assert_eq!(e.get_signal(100, &vec![]), None);
}

#[test]
fn engine_load_fills_one_tracker() {
    let mut e = engine();
    e.load(TimeFrame::Hour1, &vec![candle(1), candle(2)]);
    assert_eq!(e.trackers[2].history(), vec![candle(1), candle(2)]);
    assert!(e.trackers[0].history().is_empty());
    e.load(TimeFrame::Week, &vec![candle(3)]);
    assert_eq!(e.trackers.len(), 3);
    e.reset();
    assert!(e.trackers[2].history().is_empty());
}

#[test]
fn history_drops_oldest_when_full() {
    let mut t: Tracker<LastClose> = Tracker::new(TimeFrame::Min1, T_12_07_23);
    let data: Vec<Price> = (0..(hyperliquid_bot::MAX_HISTORY as i64 + 2)).map(candle).collect();
    t.load(&data);
    let h = t.history();
    assert_eq!(h.len(), hyperliquid_bot::MAX_HISTORY);
    assert_eq!(h[0], candle(2));
    assert_eq!(*h.last().unwrap(), candle(hyperliquid_bot::MAX_HISTORY as i64 + 1));
}

#[test]
fn only_active_readings_reach_the_strategy() {
    let mut t: Tracker<LastClose> = Tracker::new(TimeFrame::Min1, T_12_07_23);
    t.add_indicator(IndicatorKind::Rsi(14), false);
    t.add_indicator(IndicatorKind::Ema(9), false);
    t.add_indicator(IndicatorKind::Sma(5), false);
    assert!(t.get_active_values().is_empty());
    t.digest(candle(4), T_12_08_00);
    t.toggle_indicator(IndicatorKind::Ema(9));
    assert_eq!(t.get_active_values(), vec![Value::RsiValue(4), Value::RsiValue(4)]);
    assert_eq!(t.get_indicators_data().len(), 3);
    assert_eq!(t.get_indicators_data()[1].id, (IndicatorKind::Ema(9), TimeFrame::Min1));
}

#[test]
fn every_tracker_takes_each_tick_once() {
    let mut e = engine();
    assert_eq!(e.tick, 0);
    e.update_price(candle(1), T_12_10_00);
    assert_eq!(e.tick, 1);
    // The one-minute and five-minute trackers close a candle at 12:10; the hourly one does not.
    assert_eq!(e.trackers[0].history(), vec![candle(1)]);
    assert_eq!(e.trackers[1].history(), vec![candle(1)]);
    assert!(e.trackers[2].history().is_empty());
    assert_eq!(e.trackers[1].indicators[0].1.indicator.closes, 1);
}
