use hyperliquid_bot::exchange::{fee_rates, fill_from_order, find_asset, price_from_text};
use hyperliquid_bot::trade::FillType;
use hyperliquid_bot::units::SCALE;
use hyperliquid_bot::{AssetMeta, Bot, Error, MarginAllocation, Price};

#[test]
fn candle_from_text() {
    let p = price_from_text("100.5", "101", "99.25", "-0.5");
    assert_eq!(p, Ok(Price { open: 100_500_000, high: 101_000_000, low: 99_250_000, close: -500_000 }));
    assert!(matches!(price_from_text("1", "x", "1", "1"), Err(Error::GenericParse(_))));
}

#[test]
fn fill_from_filled_order() {
    let f = fill_from_order("0.002", "65000.5", 42, true, FillType::Open).unwrap();
    assert_eq!(f.sz, 2_000);
    assert_eq!(f.price, 65_000_500_000);
    assert_eq!(f.oid, 42);
    assert!(f.is_long);
    assert_eq!(f.fill_type, FillType::Open);
    assert_eq!(fill_from_order("abc", "1", 1, false, FillType::Close), None);
}

#[test]
fn fees_from_text() {
    assert_eq!(fee_rates("0.0001", "0.00035"), Ok((100, 350)));
    assert!(matches!(fee_rates("0.0001", "2"), Err(Error::GenericParse(_))));
    assert!(matches!(fee_rates("", "0.1"), Err(Error::GenericParse(_))));
}

#[test]
fn asset_lookup() {
    let universe = vec![
        AssetMeta { name: "BTC".to_string(), sz_decimals: 5, max_leverage: 40 },
        AssetMeta { name: "ETH".to_string(), sz_decimals: 4, max_leverage: 25 },
    ];
    assert_eq!(find_asset(&universe, "ETH").map(|m| m.max_leverage), Ok(25));
    assert!(matches!(find_asset(&universe, "SOL"), Err(Error::AssetNotFound)));
}

#[test]
fn cancelled_addition_releases_margin() {
    let mut b = Bot::new(vec!["BTC".to_string()]);
    b.add_market("BTC", MarginAllocation::Amount(100 * SCALE), 1000 * SCALE).unwrap();
    assert_eq!(b.free_margin(), (900 * SCALE) as i128);
    assert!(b.cancel_add(&"BTC".to_string()));
    assert!(!b.has_market("BTC"));
    assert_eq!(b.free_margin(), (1000 * SCALE) as i128);
    b.add_market("BTC", MarginAllocation::Amount(100 * SCALE), 1000 * SCALE).unwrap();
    b.confirm_market("BTC".to_string(), 4);
    assert!(!b.cancel_add(&"BTC".to_string()));
}
