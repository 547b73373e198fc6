use hyperliquid_bot::strategy::{CustomStrategy, Risk, Stance, Style, SCALP_DURATION};
use hyperliquid_bot::units::SCALE;
use hyperliquid_bot::{ExecParams, TimeFrame, TradeCommand, Value};

fn u(x: i64) -> i64 {
    x * SCALE
}

fn readings(rsi: i64, srsi: i64, k: i64, d: i64) -> Vec<Value> {
    vec![
        Value::RsiValue(u(rsi)),
        Value::SmaRsiValue(u(srsi)),
        Value::StochRsiValue { k: u(k), d: u(d) },
    ]
}

fn params() -> ExecParams {
    ExecParams::new(u(1000), 20, TimeFrame::Min5)
}

#[test]
fn long_scalp_signal() {
    let s = CustomStrategy::new(Risk::Normal, Style::Scalp, Stance::Neutral, true);
    let cmd = s.generate_signal(&readings(20, 22, 18, 19), u(100) as u64, params());
    assert_eq!(
        cmd,
        Some(TradeCommand::ExecuteTrade { size: u(180) as u64, is_long: true, duration: 420 })
    );
    assert_eq!(SCALP_DURATION, 420);
}

#[test]
fn short_scalp_suppressed_by_bull_stance() {
    let s = CustomStrategy::new(Risk::Normal, Style::Scalp, Stance::Bull, true);
    assert_eq!(s.generate_signal(&readings(82, 78, 90, 88), u(100) as u64, params()), None);
}

#[test]
fn short_scalp_signal_when_neutral() {
    let s = CustomStrategy::new(Risk::Normal, Style::Scalp, Stance::Neutral, true);
    let cmd = s.generate_signal(&readings(82, 78, 90, 88), u(100) as u64, params());
    assert_eq!(
        cmd,
        Some(TradeCommand::ExecuteTrade { size: u(180) as u64, is_long: false, duration: 420 })
    );
}

#[test]
fn missing_reading_gives_no_signal() {
    let s = CustomStrategy::default();
    let mut data = readings(20, 22, 18, 19);
    data.remove(1);
    assert_eq!(s.generate_signal(&data, u(100) as u64, params()), None);
    assert_eq!(s.generate_signal(&readings(20, 22, 18, 19), 0, params()), None);
}

#[test]
fn last_reading_counts() {
    let s = CustomStrategy::default();
    let mut data = readings(20, 22, 18, 19);
    data.push(Value::RsiValue(u(50)));
    assert_eq!(s.generate_signal(&data, u(100) as u64, params()), None);
}

#[test]
fn setters_and_thresholds() {
    let mut s = CustomStrategy::default();
    assert_eq!(s.risk, Risk::Normal);
    s.update_risk(Risk::High);
    s.update_style(Style::Swing);
    s.update_direction(Stance::Bear);
    s.update_follow_trend(false);
    assert_eq!(s, CustomStrategy::new(Risk::High, Style::Swing, Stance::Bear, false));
    let r = s.get_rsi_threshold();
    assert_eq!((r.low, r.high), (u(33), u(67)));
    let st = s.get_stoch_threshold();
    assert_eq!((st.low, st.high), (u(20), u(80)));
    let a = CustomStrategy::default().get_atr_threshold();
    assert_eq!((a.low, a.high), (SCALE / 2, u(3)));
}
