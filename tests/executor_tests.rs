use hyperliquid_bot::trade::FillType;
use hyperliquid_bot::units::SCALE;
use hyperliquid_bot::{ExecAction, Executor, LiquidationFillInfo, TradeCommand, TradeFillInfo};

fn open_fill(sz: u64, price: u64) -> TradeFillInfo {
    TradeFillInfo { price, fill_type: FillType::Open, sz, oid: 1, is_long: true }
}

fn executor() -> Executor {
    Executor::new("BTC".to_string(), (0, 500))
}

#[test]
fn execute_trade_opens_only_once() {
    let mut ex = executor();
    let a = ex.handle(TradeCommand::ExecuteTrade { size: 5, is_long: true, duration: 420 });
    assert_eq!(a, ExecAction::Open { size: 5, is_long: true, close_after: Some(420) });
    assert!(ex.record_open(open_fill(5, 100)));
    assert!(ex.is_active());
    let b = ex.handle(TradeCommand::ExecuteTrade { size: 5, is_long: true, duration: 420 });
    assert_eq!(b, ExecAction::Skip);
    let c = ex.handle(TradeCommand::OpenTrade { size: 5, is_long: false });
    assert_eq!(c, ExecAction::Skip);
    assert!(!ex.record_open(open_fill(9, 100)));
    assert_eq!(ex.open_position, Some(open_fill(5, 100)));
}

#[test]
fn close_trade_caps_size_and_empties_slot() {
    let mut ex = executor();
    ex.record_open(open_fill(5, 100));
    let a = ex.handle(TradeCommand::CloseTrade { size: 9 });
    assert_eq!(a, ExecAction::Close { position: open_fill(5, 100), size: 5, stop: false });
    assert!(!ex.is_active());
    assert_eq!(ex.handle(TradeCommand::CloseTrade { size: 9 }), ExecAction::Skip);
}

#[test]
fn paused_executor_ignores_orders() {
    let mut ex = executor();
    assert_eq!(ex.handle(TradeCommand::Pause), ExecAction::Skip);
    assert!(ex.is_paused);
    assert_eq!(ex.handle(TradeCommand::ExecuteTrade { size: 1, is_long: true, duration: 1 }), ExecAction::Skip);
    assert_eq!(ex.handle(TradeCommand::Resume), ExecAction::Skip);
    assert!(!ex.is_paused);
}

#[test]
fn pause_then_resume_is_identity_when_idle() {
    let mut ex = executor();
    ex.handle(TradeCommand::Pause);
    ex.handle(TradeCommand::Resume);
    assert!(!ex.is_paused);
    assert_eq!(ex.open_position, None);
}

#[test]
fn pause_closes_open_position() {
    let mut ex = executor();
    ex.record_open(open_fill(5, 100));
    let a = ex.handle(TradeCommand::Pause);
    assert_eq!(a, ExecAction::Close { position: open_fill(5, 100), size: 5, stop: false });
    assert!(ex.is_paused);
    let t = ex.handle(TradeCommand::Toggle);
    assert_eq!(t, ExecAction::Skip);
    assert!(!ex.is_paused);
}

#[test]
fn cancel_closes_and_stops() {
    let mut ex = executor();
    assert_eq!(ex.handle(TradeCommand::CancelTrade), ExecAction::Stop);
    ex.record_open(open_fill(5, 100));
    assert_eq!(
        ex.handle(TradeCommand::CancelTrade),
        ExecAction::Close { position: open_fill(5, 100), size: 5, stop: true }
    );
}

#[test]
fn liquidation_reports_trade() {
    let mut ex = executor();
    let liq = LiquidationFillInfo { price: (90 * SCALE) as u64, sz: (2 * SCALE) as u64, oid: 0, is_long: true };
    assert_eq!(ex.handle(TradeCommand::Liquidation(liq)), ExecAction::Skip);
    ex.record_open(open_fill((2 * SCALE) as u64, (100 * SCALE) as u64));
    match ex.handle(TradeCommand::Liquidation(liq)) {
        ExecAction::Report(info) => {
            // fee = 200*0.0005 + 180*0.0005 = 0.19; pnl = 2*(90-100) - 0.19
            assert_eq!(info.fee, 190_000);
            assert_eq!(info.pnl, -20_190_000);
            assert_eq!(info.oid, (1, 0));
        },
        other => panic!("unexpected {:?}", other),
    }
    assert!(!ex.is_active());
}

#[test]
fn timed_close_takes_position_once() {
    let mut ex = executor();
    ex.record_open(open_fill(5, 100));
    assert_eq!(ex.take_position(), Some(open_fill(5, 100)));
    assert_eq!(ex.take_position(), None);
    let close = TradeFillInfo { price: 110, fill_type: FillType::Close, sz: 5, oid: 2, is_long: true };
    let info = ex.settle(open_fill(5, 100), close);
    assert_eq!(info.open, 100);
    assert_eq!(info.close, 110);
}
