use trade_tracker::ledgerx::contract::{Contract, ContractId};
use trade_tracker::ledgerx::datafeed::{CustomerId, MessageId, Order};
use trade_tracker::ledgerx::json;
use trade_tracker::ledgerx::own_orders::{CustomerCheck, OrderChange, Tracker};
use trade_tracker::ledgerx::{LedgerX, OrderResponse};
use trade_tracker::price::BitcoinPrice;
use trade_tracker::units::{Price, Quantity, Underlying, UnknownQuantity, UtcTime};

fn contract(id: usize, underlying: Underlying) -> Contract {
    Contract::try_from(json::Contract {
        id,
        active: true,
        underlying_asset: underlying,
        date_exercise: Some(UtcTime::from_unix_i64(1703887200).unwrap()),
        date_expires: Some(UtcTime::from_unix_i64(1703883600).unwrap()),
        date_live: None,
        is_call: Some(true),
        is_next_day: Some(false),
        is_ecp_only: Some(false),
        derivative_type: json::DerivativeType::OptionsContract,
        strike_price: Some(Price::from_str("25000").unwrap()),
        min_increment: 100,
        open_interest: None,
        multiplier: 100,
        label: "BTC-Mini-29DEC2023-25000-Call".to_string(),
        ty: Some(json::Type::Call),
        name: None,
    })
    .unwrap()
}

fn order(contract_id: usize, mid: u8, size: i64, filled: i64, cid: Option<usize>, updated: i64) -> Order {
    let mut id = [0u8; 16];
    id[0] = mid;
    Order {
        size: UnknownQuantity::from_i64(size),
        filled_size: UnknownQuantity::from_i64(filled),
        filled_price: Price::from_str("12").unwrap(),
        price: Price::from_str("10").unwrap(),
        contract_id: ContractId(contract_id),
        customer_id: cid.map(CustomerId),
        message_id: MessageId(id),
        timestamp: UtcTime::from_unix_i64(1700000000).unwrap(),
        updated_timestamp: UtcTime::from_unix_i64(updated).unwrap(),
    }
}

#[test]
fn own_order_lifecycle() {
    let c = contract(5, Underlying::Btc);
    let mut t = Tracker::new();
    let (check, change) = t.insert_order(&c, order(5, 1, 3, 0, Some(42), 1700000000));
    assert_eq!(check, CustomerCheck::Learned(CustomerId(42)));
    assert!(matches!(change, OrderChange::Created { size: Quantity::Contracts(3), .. }));
    assert_eq!(change.message(), "Created ");
    assert_eq!(t.open_orders().len(), 1);

    let (check, change) = t.insert_order(&c, order(5, 1, 3, 0, Some(42), 1700000000));
    assert_eq!(check, CustomerCheck::Known);
    assert!(matches!(change, OrderChange::Unchanged));
    assert_eq!(change.message(), "");

    let (_, change) = t.insert_order(&c, order(5, 1, 2, 0, Some(42), 1700000100));
    assert!(matches!(change, OrderChange::Updated { size: Quantity::Contracts(2), .. }));
    assert_eq!(t.open_orders().len(), 1);
    assert_eq!(t.open_orders()[0].size, UnknownQuantity::from_i64(2));

    let (check, change) = t.insert_order(&c, order(5, 1, 0, 0, Some(43), 1700000200));
    assert_eq!(check, CustomerCheck::Mismatch { me: CustomerId(42), them: CustomerId(43) });
    assert!(matches!(change, OrderChange::Deleted { size: Quantity::Contracts(2), .. }));
    assert_eq!(t.open_orders().len(), 0);

    let (check, change) = t.insert_order(&c, order(5, 1, 0, 0, None, 1700000300));
    assert_eq!(check, CustomerCheck::Missing);
    assert!(matches!(change, OrderChange::UnknownDeletion));

    let (_, change) = t.insert_order(&c, order(5, 2, 0, 4, Some(42), 1700000400));
    assert!(matches!(change, OrderChange::Filled { size: Quantity::Contracts(4), .. }));
    assert_eq!(change.message(), "Filled ");
    assert_eq!(t.open_orders().len(), 0);
}

#[test]
fn ledgerx_routes_orders() {
    let start = BitcoinPrice { timestamp: UtcTime::from_unix_i64(1700000000).unwrap(), btc_price: Price::from_str("40000").unwrap() };
    let mut lx = LedgerX::new(start);
    lx.add_contract(contract(5, Underlying::Btc));
    lx.add_contract(contract(6, Underlying::Eth));
    let mut ids: Vec<usize> = lx.contract_ids().iter().map(|c| c.0).collect();
    ids.sort();
    assert_eq!(ids, vec![5, 6]);

    assert!(matches!(lx.insert_order(order(7, 1, 3, 0, None, 1700000000)), OrderResponse::UnknownContract(_)));
    assert!(matches!(lx.insert_order(order(6, 1, 3, 0, None, 1700000000)), OrderResponse::OtherUntracked));
    assert!(matches!(lx.insert_order(order(5, 1, 3, 0, None, 1700000000)), OrderResponse::OtherTracked));
    assert!(matches!(lx.insert_order(order(5, 2, -3, 0, Some(1), 1700000000)), OrderResponse::OursOk));
    assert!(matches!(lx.insert_order(order(5, 2, 0, -3, Some(1), 1700000100)), OrderResponse::OursFilled));

    let (_, book) = lx.get(ContractId(5)).unwrap();
    assert_eq!(book.bids().len(), 1);
    // the fill message has size zero, which takes the ask off the book
    assert_eq!(book.asks().len(), 0);

    assert_eq!(lx.remove_contract(ContractId(6)).map(|c| c.id()), Some(ContractId(6)));
    assert!(lx.remove_contract(ContractId(6)).is_none());
    assert_eq!(lx.contract_ids(), vec![ContractId(5)]);

    lx.reset_book(ContractId(5));
    let (_, book) = lx.get(ContractId(5)).unwrap();
    assert_eq!(book.bids().len(), 0);

    assert!(lx.set_balances(Price::from_str("100").unwrap(), 50));
    assert!(!lx.set_balances(Price::from_str("100.00").unwrap(), 50));
    assert!(lx.dock_balances(Price::from_str("30").unwrap(), 20));
    assert_eq!(lx.available_usd(), Price::from_str("70").unwrap());
    assert_eq!(lx.available_btc(), 30);

    lx.clear_orderbooks();
    assert!(lx.contract_ids().is_empty());
}

#[test]
fn ledgerx_book_state_initialisation() {
    let start = BitcoinPrice { timestamp: UtcTime::from_unix_i64(1700000000).unwrap(), btc_price: Price::from_str("40000").unwrap() };
    let mut lx = LedgerX::new(start);
    lx.add_contract(contract(5, Underlying::Btc));
    lx.insert_order(order(5, 9, 3, 0, None, 1700000000));
    let entry = |mid: u8, is_ask: bool, size: i64| json::BookState {
        clock: 1,
        contract_id: ContractId(5),
        mid: {
            let mut id = [0u8; 16];
            id[0] = mid;
            id
        },
        is_ask,
        price: Price::from_str("11").unwrap(),
        size,
    };
    lx.initialize_orderbooks(
        json::BookStateMessage { data: json::BookStateData { contract_id: ContractId(5), book_states: vec![entry(1, false, 2), entry(2, true, 4)] } },
        UtcTime::from_unix_i64(1700000500).unwrap(),
    );
    let (_, book) = lx.get(ContractId(5)).unwrap();
    assert_eq!(book.bids().len(), 1);
    assert_eq!(book.bids()[0].message_id.0[0], 1);
    assert_eq!(book.asks().len(), 1);
    assert_eq!(book.best_ask().1, Quantity::Contracts(4));
}
