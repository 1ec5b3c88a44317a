use trade_tracker::ledgerx::book::BookState;
use trade_tracker::ledgerx::contract::ContractId;
use trade_tracker::ledgerx::datafeed::{MessageId, Order};
use trade_tracker::ledgerx::price_tracker::Reference;
use trade_tracker::price::BitcoinPrice;
use trade_tracker::units::{Asset, Price, Quantity, UnknownQuantity, UtcTime};

fn order(mid: u8, size: i64, price: &str) -> Order {
    let mut id = [0u8; 16];
    id[15] = mid;
    Order {
        size: UnknownQuantity::from_i64(size),
        filled_size: UnknownQuantity::from_i64(0),
        filled_price: Price::from_cents(0),
        price: Price::from_str(price).unwrap(),
        contract_id: ContractId(1),
        customer_id: None,
        message_id: MessageId(id),
        timestamp: UtcTime::from_unix_i64(1700000000).unwrap(),
        updated_timestamp: UtcTime::from_unix_i64(1700000000).unwrap(),
    }
}

fn sats(q: Quantity) -> i64 {
    match q {
        Quantity::Bitcoin(n) => n,
        _ => 0,
    }
}

#[test]
fn book_orders_by_price_then_id() {
    let mut book = BookState::new(Asset::Btc);
    book.insert_order(order(3, 5, "100"));
    book.insert_order(order(1, 7, "101"));
    book.insert_order(order(2, 2, "100"));
    book.insert_order(order(4, -3, "105"));
    book.insert_order(order(5, -1, "104"));
    let bids: Vec<(u8, i64)> = book.bids().iter().map(|o| (o.message_id.0[15], sats(o.size))).collect();
    assert_eq!(bids, vec![(1, 7), (3, 5), (2, 2)]);
    let asks: Vec<u8> = book.asks().iter().map(|o| o.message_id.0[15]).collect();
    assert_eq!(asks, vec![5, 4]);
    assert_eq!(book.best_bid(), (Price::from_str("101").unwrap(), Quantity::Bitcoin(7)));
    assert_eq!(book.best_ask(), (Price::from_str("104").unwrap(), Quantity::Bitcoin(1)));
}

#[test]
fn book_update_replaces_and_cancel_removes() {
    let mut book = BookState::new(Asset::Btc);
    book.insert_order(order(1, -3, "105"));
    book.insert_order(order(1, -4, "103"));
    assert_eq!(book.asks().len(), 1);
    assert_eq!(book.best_ask(), (Price::from_str("103").unwrap(), Quantity::Bitcoin(4)));
    // a cancelled order has size zero and leaves the asks
    book.insert_order(order(1, 0, "0"));
    assert_eq!(book.asks().len(), 0);
    assert_eq!(book.best_ask(), (Price::zero(), Quantity::Zero));
    assert_eq!(book.best_bid(), (Price::zero(), Quantity::Zero));
}

#[test]
fn price_reference_follows_the_book() {
    let start = BitcoinPrice { timestamp: UtcTime::from_unix_i64(1700000000).unwrap(), btc_price: Price::from_str("100").unwrap() };
    let mut r = Reference::new(start);
    // no bid or ask exists yet; the reference starts at the given price
    assert_eq!(r.best_bid(), Price::zero());
    assert_eq!(r.best_ask(), Price::zero());
    assert_eq!(r.reference().0, Price::from_str("100").unwrap());
    r.insert_order(order(1, 2, "90"));
    assert_eq!(r.best_bid(), Price::from_str("90").unwrap());
    assert_eq!(r.best_ask(), Price::zero());
    assert_eq!(r.reference().0, Price::from_str("95").unwrap());
    r.insert_order(order(2, -2, "110"));
    assert_eq!(r.best_ask(), Price::from_str("110").unwrap());
    assert_eq!(r.reference().0, Price::from_str("100").unwrap());
    r.clear_book();
    assert_eq!(r.best_bid(), Price::zero());
    assert_eq!(r.reference().0, Price::from_str("100").unwrap());
}

#[test]
fn cancel_removes_a_bid() {
    let mut book = BookState::new(Asset::Btc);
    book.insert_order(order(1, 100, "90"));
    assert_eq!(book.bids().len(), 1);
    book.insert_order(order(1, 0, "0"));
    assert!(book.bids().is_empty());
    assert!(book.asks().is_empty());
    // an order that changes side leaves its old side
    book.insert_order(order(2, 5, "90"));
    book.insert_order(order(2, -5, "95"));
    assert!(book.bids().is_empty());
    assert_eq!(book.asks().len(), 1);
}
