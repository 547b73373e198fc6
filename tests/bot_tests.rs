use hyperliquid_bot::bot::canonical_asset;
use hyperliquid_bot::units::SCALE;
use hyperliquid_bot::{AddOutcome, AssetMeta, Bot, Error, MarginAllocation, MarketInfo, TradeParams};

fn bot() -> Bot {
    Bot::new(vec!["BTC".to_string(), "ETH".to_string(), "SOL".to_string()])
}

fn u(x: i64) -> i64 {
    x * SCALE
}

fn info(asset: &str) -> MarketInfo {
    MarketInfo {
        asset: asset.to_string(),
        lev: 20,
        price: 0,
        params: TradeParams::default(),
        margin: u(100),
        pnl: 0,
        is_paused: false,
        indicators: vec![],
    }
}

#[test]
fn canonical_symbols() {
    assert_eq!(canonical_asset("  btc "), "BTC");
    assert_eq!(canonical_asset("Eth"), "ETH");
}

#[test]
fn add_market_twice_is_noop() {
    let mut b = bot();
    let r = b.add_market(" btc", MarginAllocation::Amount(u(100)), u(1000));
    assert!(matches!(r, Ok(AddOutcome::Added { ref asset, margin }) if asset == "BTC" && margin == u(100)));
    assert!(b.confirm_market("BTC".to_string(), 11));
    let again = b.add_market("BTC", MarginAllocation::Amount(u(300)), u(1000));
    assert!(matches!(again, Ok(AddOutcome::AlreadyPresent)));
    assert_eq!(b.free_margin(), u(900) as i128);
    assert_eq!(b.get_markets(), vec!["BTC".to_string()]);
}

#[test]
fn unknown_asset_refused() {
    let mut b = bot();
    assert!(matches!(b.add_market("DOGE", MarginAllocation::Amount(u(1)), u(10)), Err(Error::AssetNotFound)));
    assert!(b.get_markets().is_empty());
}

#[test]
fn add_over_free_margin_fails() {
    let mut b = bot();
    b.add_market("BTC", MarginAllocation::Alloc(600_000), u(1000)).unwrap();
    let r = b.add_market("ETH", MarginAllocation::Amount(u(500)), u(1000));
    assert!(matches!(r, Err(Error::InsufficientFreeMargin(f)) if f == u(400) as i128));
    assert!(!b.has_market("ETH"));
    assert!(b.add_market("ETH", MarginAllocation::Amount(u(400)), u(1000)).is_ok());
    assert_eq!(b.free_margin(), 0);
}

#[test]
fn add_remove_add_round_trip() {
    let mut b = bot();
    b.add_market("SOL", MarginAllocation::Amount(u(250)), u(1000)).unwrap();
    b.confirm_market("SOL".to_string(), 3);
    assert_eq!(b.free_margin(), u(750) as i128);
    assert_eq!(b.remove_market("sol"), Some(3));
    assert!(!b.has_market("SOL"));
    assert_eq!(b.free_margin(), u(1000) as i128);
    assert_eq!(b.remove_market("SOL"), None);
    b.add_market("SOL", MarginAllocation::Amount(u(250)), u(1000)).unwrap();
    b.confirm_market("SOL".to_string(), 3);
    assert_eq!(b.free_margin(), u(750) as i128);
    assert_eq!(b.get_markets(), vec!["SOL".to_string()]);
}

#[test]
fn close_all_clears_everything() {
    let mut b = bot();
    b.add_market("BTC", MarginAllocation::Amount(u(100)), u(1000)).unwrap();
    b.add_market("ETH", MarginAllocation::Amount(u(100)), u(1000)).unwrap();
    b.confirm_market("BTC".to_string(), 1);
    b.confirm_market("ETH".to_string(), 2);
    assert!(b.on_init_market(info("BTC")));
    let (subs, assets) = b.close_all();
    assert_eq!(subs, vec![1, 2]);
    assert_eq!(assets, vec!["BTC".to_string(), "ETH".to_string()]);
    assert!(b.get_markets().is_empty());
    assert!(b.get_session().is_empty());
    assert_eq!(b.free_margin(), u(1000) as i128);
    assert_eq!(b.remove_market("BTC"), None);
}

#[test]
fn session_rows_follow_markets() {
    let mut b = bot();
    assert!(!b.on_init_market(info("BTC")));
    b.add_market("BTC", MarginAllocation::Amount(u(100)), u(1000)).unwrap();
    assert!(b.on_init_market(info("BTC")));
    assert_eq!(b.toggle_market("btc"), Some("BTC".to_string()));
    assert!(b.get_session()[0].is_paused);
    assert_eq!(b.toggle_market("BTC"), Some("BTC".to_string()));
    assert!(!b.get_session()[0].is_paused);
    b.pause_session();
    assert!(b.get_session()[0].is_paused);
    assert_eq!(b.toggle_market("ETH"), None);
    assert_eq!(b.route(" btc"), Some("BTC".to_string()));
    assert_eq!(b.route("ETH"), None);
}

#[test]
fn margin_updates_and_sync() {
    let mut b = bot();
    b.add_market("BTC", MarginAllocation::Amount(u(100)), u(1000)).unwrap();
    assert_eq!(b.market_margin_update("BTC".to_string(), u(150)), Ok(u(150)));
    assert_eq!(b.market_margin_update("ETH".to_string(), u(1)), Err(Error::AssetNotFound));
    assert_eq!(b.sync_margin(u(500)), u(350) as i128);
    b.release_margin(&"BTC".to_string());
    assert_eq!(b.free_margin(), u(500) as i128);
}

#[test]
fn market_meta_kept() {
    let m = AssetMeta { name: "BTC".to_string(), sz_decimals: 5, max_leverage: 40 };
    assert_eq!(m.max_leverage, 40);
}
