use hyperliquid_bot::decimal::{parse_fixed, parse_signed_fixed};
use hyperliquid_bot::fills::{aggregate_liquidation, group_liquidations, UserFill};
use hyperliquid_bot::timeframe::candle_window;
use hyperliquid_bot::units::SCALE;
use hyperliquid_bot::{LiquidationFillInfo, TimeFrame};

fn f(coin: &str, side: &str, sz: i64, px: i64, liquidation: bool) -> UserFill {
    UserFill {
        coin: coin.to_string(),
        side: side.to_string(),
        sz: (sz * SCALE) as u64,
        px: (px * SCALE) as u64,
        liquidation,
    }
}

#[test]
fn liquidation_aggregation() {
    let fills = vec![f("BTC", "A", 1, 100, true), f("BTC", "A", 3, 120, true)];
    let agg = aggregate_liquidation(&fills);
    assert_eq!(
        agg,
        Some(LiquidationFillInfo { price: (115 * SCALE) as u64, sz: (4 * SCALE) as u64, oid: 0, is_long: true })
    );
    assert_eq!(aggregate_liquidation(&vec![]), None);
    assert_eq!(aggregate_liquidation(&vec![f("BTC", "X", 1, 1, true)]), None);
    assert_eq!(aggregate_liquidation(&vec![f("BTC", "B", 1, 1, true)]).map(|l| l.is_long), Some(false));
}

#[test]
fn liquidations_grouped_by_coin() {
    let fills = vec![
        f("BTC", "A", 1, 100, true),
        f("ETH", "B", 2, 10, false),
        f("ETH", "B", 2, 10, true),
        f("BTC", "A", 3, 120, true),
    ];
    let groups = group_liquidations(&fills);
    assert_eq!(groups.len(), 2);
    assert_eq!(groups[0].0, "BTC");
    assert_eq!(groups[0].1.price, (115 * SCALE) as u64);
    assert_eq!(groups[1].0, "ETH");
    assert_eq!(groups[1].1.sz, (2 * SCALE) as u64);
    assert!(!groups[1].1.is_long);
}

#[test]
fn decimals() {
    assert_eq!(parse_fixed("12"), Some(12_000_000));
    assert_eq!(parse_fixed("0.25"), Some(250_000));
    assert_eq!(parse_fixed("1.1234567"), Some(1_123_456));
    assert_eq!(parse_fixed("3."), Some(3_000_000));
    assert_eq!(parse_fixed(""), None);
    assert_eq!(parse_fixed(".5"), None);
    assert_eq!(parse_fixed("1.2.3"), None);
    assert_eq!(parse_fixed("1e5"), None);
    assert_eq!(parse_fixed("99999999999999999999"), None);
    assert_eq!(parse_signed_fixed("-4.5"), Some(-4_500_000));
    assert_eq!(parse_signed_fixed("7"), Some(7_000_000));
    assert_eq!(parse_signed_fixed("-"), None);
}

#[test]
fn timeframe_names() {
    assert_eq!(TimeFrame::Min15.as_str(), "15m");
    assert_eq!(TimeFrame::Week.to_string(), "1w");
    assert_eq!(TimeFrame::Month.as_str(), "1M");
    assert_eq!(TimeFrame::from_wire("1M"), Some(TimeFrame::Month));
    assert_eq!(TimeFrame::from_wire("m"), None);
    assert_eq!(TimeFrame::from_wire("4h"), Some(TimeFrame::Hour4));
    assert_eq!(TimeFrame::from_wire("4H"), None);
    assert_eq!(TimeFrame::Day1.to_secs(), 86_400);
    assert_eq!(TimeFrame::Month.to_millis(), 2_592_000_000);
    for tf in TimeFrame::all() {
        assert_eq!(TimeFrame::from_wire(tf.as_str()), Some(tf));
    }
}

#[test]
fn candle_windows() {
    assert_eq!(candle_window(1_000_000, 3, TimeFrame::Min1), Some((820_000, 1_000_000)));
    assert_eq!(candle_window(10, 3, TimeFrame::Min1), Some((0, 10)));
    assert_eq!(candle_window(10, u64::MAX, TimeFrame::Min1), None);
}
