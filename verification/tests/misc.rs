use trade_tracker::ledgerx::history::config::Configuration;
use trade_tracker::transaction::TxError;
use trade_tracker::coinbase::{ticker_price, ShutdownGuard};
use trade_tracker::ledgerx::contract::Contract;
use trade_tracker::ledgerx::history::{store_contract, Trade, Trades, Side};
use trade_tracker::ledgerx::json;
use trade_tracker::option::Option as BtcOption;
use trade_tracker::price::BitcoinPrice;
use trade_tracker::timemap::TimeMap;
use trade_tracker::ledgerx::history::lot::{CloseType, Lot, OpenType};
use trade_tracker::ledgerx::history::tax::TaxDate;
use trade_tracker::units::{Price, Quantity, TaxAsset, Underlying, UnknownQuantity, UtcTime};
use trade_tracker::TaxHistoryMode;

fn at(secs: i64) -> UtcTime {
    UtcTime::from_unix_i64(secs).unwrap()
}

fn price(s: &str) -> Price {
    Price::from_str(s).unwrap()
}

#[test]
fn tax_history_modes() {
    assert_eq!(TaxHistoryMode::from_str("just-lx-data"), Ok(TaxHistoryMode::JustLxData));
    assert_eq!(TaxHistoryMode::from_str("just-lot-ids"), Ok(TaxHistoryMode::JustLotIds));
    assert_eq!(TaxHistoryMode::from_str("both"), Ok(TaxHistoryMode::Both));
    assert_eq!(
        TaxHistoryMode::from_str("all"),
        Err("Invalid tax history mode all; allowed values: just-lx-data, just-lot-ids, both".to_string())
    );
}

#[test]
fn ticker_price_is_the_mid() {
    let p = ticker_price(price("40000"), price("40001"), at(1704686831));
    assert_eq!(p.btc_price, price("40000.5"));
    assert_eq!(p.timestamp, at(1704686831));
}

#[test]
fn shutdown_guard() {
    let mut g = ShutdownGuard::new();
    let p0 = BitcoinPrice { timestamp: at(1000), btc_price: price("40000") };
    // the first price is its own reference
    assert_eq!(g.reference_for(p0), p0);
    assert!(!g.on_price(p0, false));
    assert_eq!(g.reference_for(p0), p0);
    // a jump leaves the band: it becomes the reference, and it is no
    // emergency when the old reference is recent
    let p1 = BitcoinPrice { timestamp: at(1100), btc_price: price("44000") };
    assert!(!g.on_price(p1, true));
    assert_eq!(g.reference_for(p0), p1);
    // a price within the band leaves the reference alone
    let p2 = BitcoinPrice { timestamp: at(1200), btc_price: price("44100") };
    assert!(!g.on_price(p2, false));
    assert_eq!(g.reference_for(p0), p1);
    // leaving the band more than five minutes after the reference moved is
    // an emergency
    let p3 = BitcoinPrice { timestamp: at(1401), btc_price: price("50000") };
    assert!(g.on_price(p3, true));
    assert_eq!(g.reference_for(p0), p3);
}

#[test]
fn put_lockup() {
    let put = BtcOption::new_put(price("30000"), at(1704747600));
    let call = BtcOption::new_call(price("30000"), at(1704747600));
    assert_eq!(put.put_lockup_per_100(price("1000")), Some(price("29025")));
    assert_eq!(put.put_lockup_per_100(price("31000")), None);
    assert_eq!(call.put_lockup_per_100(price("1000")), None);
    assert!(put.put_lockup_fits(price("1000")));
    let huge = BtcOption::new_put(Price::from_parts(0xFFFF_FFFF_FFFF_FFFF_FFFF_FFFE, 0), at(1704747600));
    assert!(!huge.put_lockup_fits(price("0")));
    assert_eq!(huge.put_lockup_per_100(price("0")), None);
    assert!(huge.put_lockup_fits(price("25")));
}

#[test]
fn pop_max_takes_the_first_largest() {
    let mut m: TimeMap<i64> = TimeMap::new();
    m.insert(at(300), 5);
    m.insert(at(100), 7);
    m.insert(at(200), 7);
    assert_eq!(m.pop_max(|v: &i64| *v), Some((at(100), 7)));
    assert_eq!(m.pop_max(|v: &i64| *v), Some((at(200), 7)));
    assert_eq!(m.pop_max(|v: &i64| *v), Some((at(300), 5)));
    assert_eq!(m.pop_max(|v: &i64| *v), None);
}

fn contract(id: usize) -> Contract {
    Contract::try_from(json::Contract {
        id,
        active: true,
        underlying_asset: Underlying::Btc,
        date_exercise: None,
        date_expires: Some(at(1676408400)),
        date_live: None,
        is_call: None,
        is_next_day: Some(true),
        is_ecp_only: Some(false),
        derivative_type: json::DerivativeType::DayAheadSwap,
        strike_price: None,
        min_increment: 100,
        open_interest: None,
        multiplier: 100,
        label: "BTC-Mini-14FEB2023-NextDay".to_string(),
        ty: None,
        name: None,
    })
    .unwrap()
}

fn trade(contract_id: &str) -> Trade {
    Trade {
        contract_id: contract_id.to_string(),
        execution_time: at(1675000000),
        filled_price: price("21000"),
        filled_size: UnknownQuantity::from_i64(1),
        side: Side::Bid,
        fee: Price::zero(),
    }
}

#[test]
fn missing_contracts_are_listed_once() {
    let mut known = vec![];
    store_contract(&mut known, "7".to_string(), contract(7));
    let trades = Trades { data: vec![trade("8"), trade("7"), trade("9"), trade("8")], next: None };
    assert_eq!(trades.missing_contract_ids(&known), vec!["8".to_string(), "9".to_string()]);
    store_contract(&mut known, "8".to_string(), contract(8));
    store_contract(&mut known, "9".to_string(), contract(9));
    assert!(trades.missing_contract_ids(&known).is_empty());
    // storing under a known ID replaces the contract
    store_contract(&mut known, "8".to_string(), contract(10));
    assert_eq!(known.len(), 3);
    assert_eq!(known[1].1.id().as_usize(), 10);
}

#[test]
fn configuration_parts() {
    let txid = [7u8; 32];
    let c = Configuration::new(2023, vec!["a,b".to_string()], vec![], vec![(txid, "zz".to_string())]);
    assert_eq!(c.year(), 2023);
    assert_eq!(c.lx_csv(), &vec!["a,b".to_string()]);
    assert!(c.lot_db().is_empty());
    assert_eq!(c.transactions().len(), 1);
    assert!(matches!(c.transaction_db(), Err(TxError::Hex(t)) if t == txid));
    let empty = Configuration::new(2023, vec![], vec![], vec![]);
    assert!(empty.transaction_db().is_ok());
}

#[test]
fn new_york_time_follows_the_dst_rule() {
    // 2039-01-15T12:00Z is 07:00 EST
    assert_eq!(at(2178705600).new_york_time().secs, 7 * 3600);
    // 2024-01-15T12:00Z is 07:00 EST
    assert_eq!(at(1705320000).new_york_time().secs, 7 * 3600);
    // 2024-07-01T12:00Z is 08:00 EDT
    assert_eq!(at(1719835200).new_york_time().secs, 8 * 3600);
    // 2024-03-10 (second Sunday of March) is the first day of EDT
    assert_eq!(at(1710072000).new_york_time().secs, 8 * 3600);
    assert_eq!(at(1709985600).new_york_time().secs, 7 * 3600);
    // 2024-11-03 (first Sunday of November) is back to EST
    assert_eq!(at(1730635200).new_york_time().secs, 7 * 3600);
    assert_eq!(at(1730548800).new_york_time().secs, 8 * 3600);
}

#[test]
fn leap_seconds_are_refused() {
    assert!(matches!(UtcTime::parse_coinbase("2016-12-31T23:59:60Z"), Err(trade_tracker::units::utc_time::TimeError::LeapSecond(1483228799))));
    assert!(UtcTime::parse_coinbase("2016-12-31T23:59:59Z").is_ok());
}

#[test]
fn intrinsic_value_is_floored_at_zero() {
    let t = at(0);
    assert_eq!(BtcOption::new_call(price("30000"), t).intrinsic_value(price("25000")), Price::zero());
    assert_eq!(BtcOption::new_call(price("30000"), t).intrinsic_value(price("31000")), price("1000"));
    assert_eq!(BtcOption::new_put(price("30000"), t).intrinsic_value(price("29000")), price("1000"));
    assert_eq!(BtcOption::new_put(price("30000"), t).intrinsic_value(price("31000")), Price::zero());
}

#[test]
fn new_lot_basis_is_the_basis_of_what_is_left() {
    let d1 = TaxDate::from_time(at(1641168000)); // 2022-01-03
    let d2 = TaxDate::from_time(at(1643673600)); // 2022-02-01
    let mut counter = 1usize;
    let lot = Lot::new(TaxAsset::Bitcoin, Quantity::Bitcoin(3_000_000), price("100"), d1, OpenType::BuyToOpen, &mut counter);
    let (c, rest) = lot.close(Quantity::Bitcoin(-1_000_000), price("150"), d2, CloseType::Sell, None).unwrap();
    assert!(rest.is_some());
    assert_eq!(c.old_lot_basis(), price("3"));
    assert_eq!(c.basis(), price("1"));
    assert_eq!(c.new_lot_size(), Quantity::Bitcoin(2_000_000));
    assert_eq!(c.new_lot_basis(), price("2"));
}

#[test]
fn the_clock_reads_after_the_epoch() {
    let now = UtcTime::now().unwrap();
    assert!(now.timestamp() > 1_600_000_000);
    let p = BitcoinPrice::from_current(price("30000")).unwrap();
    assert_eq!(p.btc_price, price("30000"));
}

#[test]
fn closing_a_lot_with_its_own_sign_is_refused() {
    let d1 = TaxDate::from_time(at(1641168000));
    let d2 = TaxDate::from_time(at(1643673600));
    let mut counter = 1usize;
    let lot = Lot::new(TaxAsset::Bitcoin, Quantity::Bitcoin(i64::MIN), price("100"), d1, OpenType::SellToOpen, &mut counter);
    assert!(lot.close(Quantity::Bitcoin(-5), price("150"), d2, CloseType::BuyBack, None).is_err());
    let lot = Lot::new(TaxAsset::Bitcoin, Quantity::Bitcoin(10), price("100"), d1, OpenType::BuyToOpen, &mut counter);
    assert!(lot.close(Quantity::Zero, price("150"), d2, CloseType::Sell, None).is_err());
}

#[test]
fn option_text_and_lockups() {
    let expiry = at(1674853200); // 2023-01-27T21:00:00Z
    let put = BtcOption::new_put(price("10000"), expiry);
    let call = BtcOption::new_call(price("10000"), expiry);
    assert_eq!(put.to_display_string(), "2023-01-27P10000.00");
    assert_eq!(call.to_display_string(), "2023-01-27C10000.00");
    let back = BtcOption::from_str(&call.to_display_string()).unwrap();
    assert!(back.same_as(&call));

    // (10000 - 500 + 25) per hundred contracts, for 200 contracts
    assert_eq!(put.lockup_usd(price("500"), Quantity::Contracts(-200)).unwrap(), price("19050"));
    assert_eq!(call.lockup_usd(price("500"), Quantity::Contracts(-200)).unwrap(), price("0"));
    assert_eq!(call.lockup_btc(Quantity::Contracts(-200)), Some(200_000_000));
    assert_eq!(call.lockup_btc(Quantity::Bitcoin(-7)), Some(7));
    assert_eq!(call.lockup_btc(Quantity::Cents(5)), None);
    assert_eq!(put.lockup_btc(Quantity::Contracts(-200)), Some(0));
}
