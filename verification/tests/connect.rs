use trade_tracker::connect::{average_price, delay_is_over, sales_summary, HeartbeatAction, LoopState};
use trade_tracker::ledgerx::history::Event;
use trade_tracker::price::BitcoinPrice;
use trade_tracker::units::{Price, Quantity, TaxAsset, UtcTime};

fn at(secs: i64) -> UtcTime {
    UtcTime::from_unix_i64(secs).unwrap()
}

fn price(p: &str, secs: i64) -> BitcoinPrice {
    BitcoinPrice { timestamp: at(secs), btc_price: Price::from_str(p).unwrap() }
}

// 2024-02-09 15:00 UTC is 10:00 in New York (EST): the market is open
const OPEN: i64 = 1707490800;
// 2024-02-09 12:00 UTC is 07:00 in New York: the market is closed
const CLOSED: i64 = 1707480000;

#[test]
fn heartbeats_are_rate_limited() {
    let mut s = LoopState::new(at(OPEN), price("40000", OPEN));
    match s.on_heartbeat(at(OPEN), false) {
        HeartbeatAction::Run { market_open } => assert!(market_open),
        other => panic!("unexpected {:?}", other),
    }
    match s.on_heartbeat(at(OPEN + 30), false) {
        HeartbeatAction::Delay { delay_til } => assert_eq!(delay_til, at(OPEN + 105)),
        other => panic!("unexpected {:?}", other),
    }
    assert!(matches!(s.on_heartbeat(at(OPEN + 59), true), HeartbeatAction::Drop));
    s.on_price(price("41000", OPEN + 60));
    match s.on_heartbeat(at(OPEN + 60), true) {
        HeartbeatAction::Run { .. } => {},
        other => panic!("unexpected {:?}", other),
    }
    assert_eq!(s.heartbeat_price(), price("41000", OPEN + 60));
    assert!(delay_is_over(&at(OPEN + 106), &at(OPEN + 105)));
    assert!(!delay_is_over(&at(OPEN + 105), &at(OPEN + 105)));
}

#[test]
fn reload_when_the_market_opens() {
    let mut s = LoopState::new(at(CLOSED), price("40000", CLOSED));
    assert!(!s.on_message(at(CLOSED + 60)));
    assert!(s.on_message(at(OPEN)));
    assert!(!s.on_message(at(OPEN + 60)));
    match s.on_heartbeat(at(CLOSED), false) {
        HeartbeatAction::Run { market_open } => assert!(!market_open),
        other => panic!("unexpected {:?}", other),
    }
}

fn btc_trade(secs: i64, p: &str, sats: i64) -> (UtcTime, Event) {
    (
        at(secs),
        Event::Trade { asset: TaxAsset::Bitcoin, price: Price::from_str(p).unwrap(), size: Quantity::Bitcoin(sats), fee: Price::zero() },
    )
}

#[test]
fn sales_are_summarized() {
    let events = vec![btc_trade(OPEN - 86400, "20000", 100_000_000), btc_trade(OPEN - 3600, "30000", -50_000_000)];
    let s = sales_summary(&events, at(OPEN)).unwrap();
    assert_eq!(s.net_btc, 50_000_000);
    assert_eq!(s.net_usd, Price::from_str("-5000").unwrap());
    assert_eq!(s.recent_net_btc, 50_000_000);
    assert_eq!(s.recent_net_usd, Price::from_str("-5000").unwrap());
    assert_eq!(s.lows.len(), 1);
    assert_eq!(s.lows[0].time, at(OPEN - 86400));
    assert_eq!(s.lows[0].average, Price::from_str("-20000").unwrap());
    assert_eq!(s.min_average, Price::from_str("-20000").unwrap());
}

#[test]
fn old_sales_are_not_recent() {
    // more than 500 days before
    let events = vec![btc_trade(OPEN - 501 * 86400, "20000", 100_000_000)];
    let s = sales_summary(&events, at(OPEN)).unwrap();
    assert_eq!(s.net_btc, 100_000_000);
    assert_eq!(s.recent_net_btc, 0);
    assert_eq!(s.recent_net_usd, Price::zero());
}

#[test]
fn sales_out_of_range_are_refused() {
    let big = Price::from_parts(0xFFFF_FFFF_FFFF_FFFF_FFFF_FFFE, 0);
    let events = vec![(
        at(OPEN),
        Event::Trade { asset: TaxAsset::Bitcoin, price: big, size: Quantity::Bitcoin(200_000_000), fee: Price::zero() },
    )];
    assert!(sales_summary(&events, at(OPEN)).is_none());
}

#[test]
fn average_sale_price() {
    // $30,000 for half a bitcoin sold is $60,000 a bitcoin
    let p = average_price(trade_tracker::units::Price::from_str("30000").unwrap(), -50_000_000).unwrap();
    assert_eq!(p, trade_tracker::units::Price::from_str("60000").unwrap());
    assert!(average_price(trade_tracker::units::Price::from_str("30000").unwrap(), 0).is_none());
    assert!(average_price(trade_tracker::units::Price::from_str("30000").unwrap(), i64::MIN).is_none());
}
