use trade_tracker::ledgerx::contract::ContractId;
use trade_tracker::ledgerx::datafeed::{MessageId, Object};
use trade_tracker::ledgerx::json::{self, StatusReason, StatusType};
use trade_tracker::units::{Price, UnknownQuantity, UtcTime};

fn action_report(size: i64, filled_size: i64, is_ask: bool, cid: Option<usize>) -> json::DataFeedObject {
    json::DataFeedObject::ActionReport {
        contract_id: ContractId(22256362),
        open_interest: 248,
        mid: [0x01, 0x4a, 0xa5, 0xad, 0x13, 0x56, 0x42, 0x72, 0xa7, 0x93, 0xc0, 0x58, 0x2a, 0x77, 0x60, 0x00],
        order_type: "customer_limit_order".to_string(),
        price: Price::from_cents(0),
        size,
        inserted_price: Price::from_cents(0),
        inserted_size: 0,
        filled_price: Price::from_cents(0),
        filled_size,
        original_price: Price::from_cents(126400),
        original_size: 52,
        is_ask,
        is_volatile: true,
        cid,
        mpid: None,
        status_type: StatusType::Cancelled,
        status_reason: Some(StatusReason::NoReason),
        clock: 173827,
        timestamp: UtcTime::from_unix_nanos_i64(1674839748016616735).unwrap(),
        inserted_time: UtcTime::from_unix_nanos_i64(1674834303810514441).unwrap(),
        updated_time: UtcTime::from_unix_nanos_i64(1674839748016616735).unwrap(),
    }
}

#[test]
fn parse_ask() {
    let obj = Object::from_json(action_report(0, 0, true, None));
    match obj {
        Object::Order(order) => {
            assert_eq!(order.filled_price, Price::from_cents(0));
            assert_eq!(order.filled_size, UnknownQuantity::from_i64(0));
            assert_eq!(order.size, UnknownQuantity::from_i64(0));
            assert_eq!(order.price, Price::from_cents(0));
            assert_eq!(order.contract_id, ContractId::from_usize(22256362));
            assert_eq!(order.customer_id, None);
            assert_eq!(
                order.message_id,
                MessageId([
                    0x01, 0x4a, 0xa5, 0xad, 0x13, 0x56, 0x42, 0x72, 0xa7, 0x93, 0xc0, 0x58, 0x2a, 0x77, 0x60, 0x00,
                ]),
            );
            assert_eq!(order.timestamp, UtcTime::from_unix_nanos_i64(1674839748016616735).unwrap());
            assert_eq!(order.updated_timestamp, UtcTime::from_unix_nanos_i64(1674839748016616735).unwrap());
        },
        other => panic!("unexpected object {:?}", other),
    }
}

#[test]
fn action_report_sizes_are_signed_by_side() {
    match Object::from_json(action_report(52, 10, true, Some(7))) {
        Object::Order(order) => {
            assert_eq!(order.size, UnknownQuantity::from_i64(-52));
            assert_eq!(order.filled_size, UnknownQuantity::from_i64(-10));
            assert_eq!(order.customer_id.map(|c| c.0), Some(7));
        },
        other => panic!("unexpected object {:?}", other),
    }
    match Object::from_json(action_report(52, 10, false, None)) {
        Object::Order(order) => {
            assert_eq!(order.size, UnknownQuantity::from_i64(52));
            assert_eq!(order.filled_size, UnknownQuantity::from_i64(10));
        },
        other => panic!("unexpected object {:?}", other),
    }
}

#[test]
fn message_id_hex() {
    let mid = MessageId([
        0x01, 0x4a, 0xa5, 0xad, 0x13, 0x56, 0x42, 0x72, 0xa7, 0x93, 0xc0, 0x58, 0x2a, 0x77, 0x60, 0x00,
    ]);
    assert_eq!(mid.to_display_string(), "014aa5ad13564272a793c0582a776000");
}

#[test]
fn datetime_parse() {
    let cb_datetime = "2024-01-08T04:07:11.750237Z";
    let parsed = UtcTime::parse_coinbase(cb_datetime).unwrap();
    assert_eq!(parsed.to_display_string(), "2024-01-08 04:07:11.750237 UTC",);
}
