use trade_tracker::ledgerx::contract::Contract;
use trade_tracker::ledgerx::history::budget::BudgetKind;
use trade_tracker::ledgerx::history::tax::OpenClose;
use trade_tracker::ledgerx::history::{
    year_summary, year_totals, Deposit, Deposits, History, HistoryError, Side, Trade, Trades, Withdrawal, Withdrawals,
};
use trade_tracker::ledgerx::json;
use trade_tracker::price::{BitcoinPrice, Historic};
use trade_tracker::transaction::Database;
use trade_tracker::units::{DepositAsset, Price, Quantity, Underlying, UnknownQuantity, UtcTime};

fn at(secs: i64) -> UtcTime {
    UtcTime::from_unix_i64(secs).unwrap()
}

fn nextday_contract(id: usize) -> Contract {
    Contract::try_from(json::Contract {
        id,
        active: true,
        underlying_asset: Underlying::Btc,
        date_exercise: None,
        date_expires: Some(at(1676408400)),
        date_live: None,
        is_call: None,
        is_next_day: Some(true),
        is_ecp_only: Some(false),
        derivative_type: json::DerivativeType::DayAheadSwap,
        strike_price: None,
        min_increment: 100,
        open_interest: None,
        multiplier: 100,
        label: "BTC-Mini-14FEB2023-NextDay".to_string(),
        ty: None,
        name: None,
    })
    .unwrap()
}

fn trade(contract_id: &str, secs: i64, price: &str, size: i64, side: Side) -> Trade {
    Trade {
        contract_id: contract_id.to_string(),
        execution_time: at(secs),
        filled_price: Price::from_str(price).unwrap(),
        filled_size: UnknownQuantity::from_i64(size),
        side,
        fee: Price::from_str("0").unwrap(),
    }
}

fn prices() -> Historic {
    let mut h = Historic::new();
    h.record(BitcoinPrice { timestamp: at(1672531200), btc_price: Price::from_str("20000").unwrap() });
    h
}

#[test]
fn trades_are_imported_until_an_unknown_contract() {
    let contracts = vec![("7".to_string(), nextday_contract(7))];
    let mut h = History::new(1, vec![2023], vec![], Database::new(), vec![]);
    let trades = Trades {
        data: vec![
            trade("7", 1675000000, "21000", 100, Side::Bid),
            trade("8", 1675000100, "21000", 100, Side::Bid),
            trade("7", 1675000200, "22000", 100, Side::Ask),
        ],
        next: None,
    };
    assert_eq!(h.import_trades(&trades, &contracts), Err(HistoryError::UnknownContract(1)));
    let rows = h.budget_rows(&prices()).unwrap();
    assert_eq!(rows.len(), 1);
    assert_eq!(rows[0].kind, BudgetKind::Trade);
    assert_eq!(rows[0].kind.as_str(), "Trade");
    assert_eq!(rows[0].size, Quantity::Bitcoin(100_000_000));
    assert_eq!(rows[0].btc_price, Price::from_str("20000").unwrap());
}

#[test]
fn fifo_gain_of_a_round_trip() {
    let contracts = vec![("7".to_string(), nextday_contract(7))];
    let mut h = History::new(1, vec![2023], vec![], Database::new(), vec![]);
    let trades = Trades {
        data: vec![
            trade("7", 1675000000, "21000", 100, Side::Bid),
            trade("7", 1675000200, "22000", 100, Side::Ask),
        ],
        next: None,
    };
    assert_eq!(h.import_trades(&trades, &contracts), Ok(()));
    let (tracker, unofficial) = h.run_tax(&prices()).unwrap().unwrap();
    assert!(unofficial.is_empty());
    let events = tracker.events();
    assert_eq!(events.len(), 2);
    assert!(matches!(events[0].open_close, OpenClose::Open(_)));
    match &events[1].open_close {
        OpenClose::Close(c) => assert_eq!(c.gain_loss(), Price::from_str("1000").unwrap()),
        _ => panic!("expected a close"),
    }
    let totals = year_totals(events, 2023).unwrap();
    assert_eq!(totals.n_events, 2);
    assert_eq!(totals.total_st, Price::from_str("1000").unwrap());
}

#[test]
fn deposits_and_withdrawals() {
    let mut h = History::new(1, vec![2023], vec![], Database::new(), vec![]);
    let deposits = Deposits {
        data: vec![
            Deposit { amount: UnknownQuantity::from_i64(5000), asset: DepositAsset::Usd, address: String::new(), created_at: at(1675000000) },
            Deposit { amount: UnknownQuantity::from_i64(-5), asset: DepositAsset::Btc, address: String::new(), created_at: at(1675000100) },
        ],
        next: None,
    };
    assert_eq!(h.import_deposits(&deposits), Some(Err(HistoryError::NegativeDeposit(1))));
    let deposits = Deposits {
        data: vec![Deposit {
            amount: UnknownQuantity::from_i64(5),
            asset: DepositAsset::Btc,
            address: "not an address".to_string(),
            created_at: at(1675000100),
        }],
        next: None,
    };
    assert_eq!(h.import_deposits(&deposits), Some(Err(HistoryError::BadAddress(0))));
    let withdrawals = Withdrawals {
        data: vec![Withdrawal { amount: UnknownQuantity::from_i64(100), asset: DepositAsset::Usd, created_at: at(1675000200) }],
        next: None,
    };
    h.import_withdrawals(&withdrawals);
    let rows = h.budget_rows(&prices()).unwrap();
    assert_eq!(rows.len(), 2);
    assert_eq!(rows[0].kind, BudgetKind::Deposit);
    assert_eq!(rows[0].size, Quantity::Cents(5000));
    assert_eq!(rows[1].kind, BudgetKind::Withdraw);
    assert_eq!(rows[1].size, Quantity::Cents(100));
}

#[test]
fn budget_rows_need_a_price() {
    let contracts = vec![("7".to_string(), nextday_contract(7))];
    let mut h = History::new(1, vec![2023], vec![], Database::new(), vec![]);
    let trades = Trades { data: vec![trade("7", 1675000000, "21000", 100, Side::Bid)], next: None };
    assert!(trades.importable(&contracts));
    assert_eq!(h.import_trades(&trades, &contracts), Ok(()));
    assert!(h.budget_rows(&Historic::new()).is_none());
    assert_eq!(h.budget_rows(&prices()).unwrap().len(), 1);
}

#[test]
fn a_zero_size_trade_cannot_be_taxed() {
    let contracts = vec![("7".to_string(), nextday_contract(7))];
    let mut h = History::new(1, vec![2023], vec![], Database::new(), vec![]);
    let trades = Trades { data: vec![trade("7", 1675000000, "21000", 0, Side::Bid)], next: None };
    assert_eq!(h.import_trades(&trades, &contracts), Ok(()));
    assert!(h.run_tax(&prices()).is_none());
}

#[test]
fn oversized_trades_are_not_importable() {
    let contracts = vec![("7".to_string(), nextday_contract(7))];
    // a next-day swap counts 10^6 satoshis per unit, which overflows here
    let trades = Trades { data: vec![trade("7", 1675000000, "21000", i64::MAX / 1000, Side::Bid)], next: None };
    assert!(!trades.importable(&contracts));
    // past the first trade on an unknown contract nothing is looked at
    let trades = Trades {
        data: vec![trade("8", 1675000000, "21000", 1, Side::Bid), trade("7", 1675000100, "21000", i64::MAX / 1000, Side::Bid)],
        next: None,
    };
    assert!(trades.importable(&contracts));
}

#[test]
fn year_summary_lines() {
    let contracts = vec![("7".to_string(), nextday_contract(7))];
    let mut h = History::new(1, vec![2023], vec![], Database::new(), vec![]);
    let trades = Trades {
        data: vec![trade("7", 1675000000, "22000", 100, Side::Bid), trade("7", 1675000200, "21000", 100, Side::Ask)],
        next: None,
    };
    assert_eq!(h.import_trades(&trades, &contracts), Ok(()));
    let (tracker, _) = h.run_tax(&prices()).unwrap().unwrap();
    let totals = year_totals(tracker.events(), 2023).unwrap();
    assert_eq!(totals.total_st, Price::from_str("-1000").unwrap());
    let lines = year_summary(&totals).unwrap();
    assert_eq!(lines.len(), 6);
    assert_eq!(lines[0], "    Number of events: 2");
    assert_eq!(lines[2], "    Total ST gain/loss: -1000.00");
    assert_eq!(lines[4], "    After 60/40 splitting 0.00 LT -1000.00 ST");
    assert_eq!(lines[5], "    Cancelling, total liability is -1000.00 ST");
}
