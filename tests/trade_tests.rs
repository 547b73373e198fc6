use hyperliquid_bot::trade::{calculate_pnl, get_trade_info, FillType};
use hyperliquid_bot::units::SCALE;
use hyperliquid_bot::{TradeFillInfo, TradeParams, TimeFrame, Error};

fn fill(price: i64, sz: i64, is_long: bool, kind: FillType) -> TradeFillInfo {
    TradeFillInfo { price: (price * SCALE) as u64, fill_type: kind, sz: (sz * SCALE) as u64, oid: 7, is_long }
}

#[test]
fn pnl_with_fees() {
    let open = fill(100, 2, true, FillType::Open);
    let close = fill(110, 2, true, FillType::Close);
    let fees = (0u64, 500u64);
    let (fee, pnl) = calculate_pnl(&fees, true, &open, &close);
    assert_eq!(fee, 210_000);
    assert_eq!(pnl, 19_790_000);
}

#[test]
fn short_pnl_and_losses() {
    let open = fill(100, 2, false, FillType::Open);
    let close = fill(110, 2, false, FillType::Close);
    let fees = (0u64, 500u64);
    let (fee, pnl) = calculate_pnl(&fees, false, &open, &close);
    assert_eq!(fee, 210_000);
    assert_eq!(pnl, -20_210_000);
    let info = get_trade_info(open, close, &fees);
    assert_eq!(info.pnl, -20_210_000);
    assert_eq!(info.open, (100 * SCALE) as u64);
    assert_eq!(info.close, (110 * SCALE) as u64);
    assert_eq!(info.oid, (7, 7));
    assert!(!info.is_long);
    assert_eq!(info.duration, None);
}

#[test]
fn leverage_update() {
    let mut p = TradeParams::default();
    assert_eq!(p.lev, 20);
    assert_eq!(p.time_frame, TimeFrame::Min5);
    assert!(!p.lev_needs_update(20, false));
    assert!(p.lev_needs_update(20, true));
    assert!(matches!(p.update_lev(20, false, Ok(())), Err(Error::Custom(_))));
    assert_eq!(p.update_lev(10, false, Ok(())), Ok(10));
    assert_eq!(p.lev, 10);
    assert_eq!(p.update_lev(5, false, Err("rejected".to_string())), Err(Error::Custom("rejected".to_string())));
    assert_eq!(p.lev, 10);
}
