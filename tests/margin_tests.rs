use hyperliquid_bot::margin::user_equity;
use hyperliquid_bot::units::SCALE;
use hyperliquid_bot::{Error, MarginAllocation, MarginBook};

fn units(x: i64) -> i64 {
    x * SCALE
}

#[test]
fn allocation_boundary() {
    let mut book = MarginBook::new();
    book.sync(units(1000));
    let btc = book.allocate("BTC".to_string(), MarginAllocation::Alloc(600_000));
    assert_eq!(btc, Ok(units(600)));
    assert_eq!(book.free(), units(400) as i128);
    let eth = book.allocate("ETH".to_string(), MarginAllocation::Amount(units(500)));
    assert_eq!(eth, Err(Error::InsufficientFreeMargin(units(400) as i128)));
    assert_eq!(book.used(), units(600) as i128);
    let eth = book.allocate("ETH".to_string(), MarginAllocation::Amount(units(400)));
    assert_eq!(eth, Ok(units(400)));
    assert_eq!(book.free(), 0);
    assert_eq!(book.used(), units(1000) as i128);
}

#[test]
fn non_positive_request_is_invalid() {
    let mut book = MarginBook::new();
    book.sync(units(1000));
    assert_eq!(book.allocate("BTC".to_string(), MarginAllocation::Alloc(0)), Err(Error::InvalidMarginAmount));
    assert_eq!(book.allocate("BTC".to_string(), MarginAllocation::Amount(-5)), Err(Error::InvalidMarginAmount));
    assert_eq!(book.allocate("BTC".to_string(), MarginAllocation::Alloc(-100)), Err(Error::InvalidMarginAmount));
    assert_eq!(book.used(), 0);
}

#[test]
fn update_asset_gives_back_own_reservation() {
    let mut book = MarginBook::new();
    book.sync(units(1000));
    assert_eq!(book.allocate("BTC".to_string(), MarginAllocation::Amount(units(800))), Ok(units(800)));
    // 900 exceeds the 200 that is free, but not 200 plus BTC's own 800.
    assert_eq!(book.update_asset(("BTC".to_string(), units(900))), Ok(units(900)));
    assert_eq!(book.used(), units(900) as i128);
    assert_eq!(
        book.update_asset(("BTC".to_string(), units(1001))),
        Err(Error::InsufficientFreeMargin(units(1000) as i128))
    );
    assert_eq!(book.update_asset(("BTC".to_string(), 0)), Err(Error::InvalidMarginAmount));
}

#[test]
fn remove_and_reset_release_margin() {
    let mut book = MarginBook::new();
    book.sync(units(100));
    book.allocate("BTC".to_string(), MarginAllocation::Amount(units(30))).unwrap();
    book.allocate("ETH".to_string(), MarginAllocation::Amount(units(20))).unwrap();
    book.remove(&"BTC".to_string());
    assert_eq!(book.used(), units(20) as i128);
    assert_eq!(book.free(), units(80) as i128);
    book.remove(&"SOL".to_string());
    assert_eq!(book.used(), units(20) as i128);
    book.reset();
    assert_eq!(book.used(), 0);
    assert_eq!(book.total_on_chain(), units(100));
}

#[test]
fn reservations_stay_within_total() {
    let mut book = MarginBook::new();
    book.sync(units(50));
    for (i, amount) in [10, 15, 30, 25, 5].iter().enumerate() {
        let _ = book.allocate(format!("A{}", i), MarginAllocation::Amount(units(*amount)));
        assert!(book.used() <= book.total_on_chain() as i128);
    }
    assert_eq!(book.used(), units(50) as i128);
}

#[test]
fn equity_subtracts_net_unrealised_pnl() {
    let positions = vec![(units(10), units(2)), (units(-4), units(1))];
    // 1000 - ((10 - 2) + (-4 - 1)) = 997
    assert_eq!(user_equity(units(1000), &positions), Some(units(997)));
    assert_eq!(user_equity(units(5), &vec![]), Some(units(5)));
    assert_eq!(user_equity(i64::MAX, &vec![(-1, 0)]), None);
}
