use hyperliquid_bot::units::SCALE;
use hyperliquid_bot::{AssetMeta, EditType, Entry, IndicatorKind, Market, TimeFrame, TradeInfo, TradeParams};

fn market() -> Market {
    let meta = AssetMeta { name: "BTC".to_string(), sz_decimals: 5, max_leverage: 25 };
    let config = Some(vec![(IndicatorKind::Rsi(14), TimeFrame::Hour1), (IndicatorKind::Ema(9), TimeFrame::Min5)]);
    Market::new(meta, 1000 * SCALE, TradeParams::default(), &config)
}

fn trade(pnl: i128) -> TradeInfo {
    TradeInfo { open: 1, close: 2, pnl, fee: 0, is_long: true, duration: None, oid: (1, 2) }
}

#[test]
fn receive_trade_books_pnl_once() {
    let mut m = market();
    assert!(m.can_receive(&trade(5 * SCALE as i128)));
    assert_eq!(m.receive_trade(trade(5 * SCALE as i128)), 1005 * SCALE);
    assert_eq!(m.receive_trade(trade(-7 * SCALE as i128)), 998 * SCALE);
    assert_eq!(m.pnl, -2 * SCALE as i128);
    assert_eq!(m.get_trade_history().len(), 2);
    assert!(!m.can_receive(&trade(i128::MAX)));
}

#[test]
fn leverage_is_capped() {
    let m = market();
    assert_eq!(m.capped_leverage(50), 25);
    assert_eq!(m.capped_leverage(10), 10);
}

#[test]
fn active_timeframes_from_config() {
    let mut m = market();
    assert_eq!(m.active_tfs, vec![TimeFrame::Min5, TimeFrame::Hour1]);
    let entries = vec![
        Entry { id: (IndicatorKind::Atr(14), TimeFrame::Day1), edit: EditType::Add },
        Entry { id: (IndicatorKind::Sma(20), TimeFrame::Day1), edit: EditType::Add },
        Entry { id: (IndicatorKind::Sma(20), TimeFrame::Week), edit: EditType::Toggle },
        Entry { id: (IndicatorKind::Sma(20), TimeFrame::Hour1), edit: EditType::Add },
    ];
    assert_eq!(m.new_timeframes(&entries), vec![TimeFrame::Day1]);
    assert_eq!(m.active_tfs, vec![TimeFrame::Min5, TimeFrame::Hour1, TimeFrame::Day1]);
    m.update_timeframe(TimeFrame::Hour4);
    assert_eq!(m.trade_params.time_frame, TimeFrame::Hour4);
    m.update_margin(3);
    assert_eq!(m.margin, 3);
}
