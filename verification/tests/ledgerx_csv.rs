use rust_decimal::Decimal;
use trade_tracker::ledgerx::csv::{price_ref, trim1, CsvIter, PriceRefError, PriceRefParts};
use trade_tracker::units::Price;

/// The basis of one hundred contracts (a price reference is per bitcoin,
/// and a contract is a hundredth of one), worked out in exact decimals
fn scaled_basis(parts: &PriceRefParts) -> Price {
    let qty = Decimal::from_i128_with_scale(parts.quantity.0, parts.quantity.1);
    let basis = Decimal::from_i128_with_scale(parts.basis.mantissa(), parts.basis.scale());
    let scaled = basis * (Decimal::from(100) / qty);
    Price::from_parts(scaled.mantissa(), scaled.scale())
}

#[test]
fn exercise_2021() {
    let res = price_ref(
        "Exercised,\"6, BTC Mini 2021-07-16 Put $32,000.00\",2021-07-16T22:00:00Z,2021-07-15T17:10:37Z,47.10,13.34,33.76,-1256-,,,",
    );
    let parts = match res {
        Ok(Some(parts)) => parts,
        _ => panic!("Unexpected result: {:?}", res),
    };
    assert_eq!(parts.date.timestamp(), 1626472800);
    assert_eq!(parts.date.nanosecond(), 0);
    let price = parts.btc_price(scaled_basis(&parts));
    assert_eq!(price.to_int(), 31777);

    assert_eq!(
        price_ref(
            "Sell,\"0.01, BTC\",2021-04-14T21:00:00Z,2021-07-18T21:00:00Z,321.87,629.05,-307.18,Short-term,,,"
        )
        .unwrap()
        .is_none(),
        true,
    );
}

#[test]
fn lines_2022() {
    assert!(price_ref(
        "3197933266,Expire - 1256 Option - Call,15.00,BTC-Mini-14JAN2022-46000-Call,2022-01-14T22:00:00.000Z,2022-01-11T02:51:03.755Z,27.75,0.00,27.75,- 1256 - ",
    )
    .unwrap()
    .is_none());

    let parts = price_ref(
        "3197933266,Exercise - 1256 Option - Call,500.00,BTC-Mini-04FEB2022-40000-Call,2022-02-04T22:00:00.000Z,2022-01-27T23:08:44.124Z,\"1,565.00\",\"3,223.90\",\"-1,658.90\",- 1256 - ",
    )
    .unwrap()
    .unwrap();
    assert_eq!(parts.date.timestamp(), 1644012000);
    assert_eq!(parts.date.nanosecond(), 0);
    assert_eq!(parts.btc_price(scaled_basis(&parts)), Price::from_str("40644.78").unwrap());
}

#[test]
fn missing_basis_2022() {
    assert!(price_ref(
        "3197933266,Exercise - 1256 Option - Call,4.5752,BTC,*,2022-02-04T22:00:00.000Z,\"185,957.997456\",*,-,-",
    )
    .unwrap()
    .is_none());
}

#[test]
fn big_quantity_2022() {
    assert!(price_ref(
        "3197933266,Expire - 1256 Option - Call,\"1,000.00\",BTC-Mini-10JUN2022-32000-Call,2022-06-10T21:00:00.000Z,2022-06-09T16:41:55.801Z,320.00,0.00,320.00,- 1256 -",
    )
    .unwrap()
    .is_none());
}

#[test]
fn extract_price_2022() {
    assert!(price_ref(
        "3197933266,Expire - 1256 Option - Put,1.00,BTC-Mini-27MAY2022-30000-Put,2022-05-27T21:00:00.000Z,2022-05-06T13:14:46.539Z,3.85,0.00,3.85,- 1256 - ",
    )
    .unwrap()
    .is_none());
}

#[test]
fn price_ref_parts_of_2022_exercise() {
    let parts = price_ref(
        "3197933266,Exercise - 1256 Option - Put,\"1,000.00\",BTC-Mini-04FEB2022-40000-Put,2022-02-04T22:00:00.000Z,x,1.00,\"3,000.00\",-1.00,-",
    )
    .unwrap()
    .unwrap();
    assert_eq!(parts.quantity, (100000, 2));
    assert_eq!(parts.strike, Price::from_str("40000").unwrap());
    assert_eq!(parts.basis, Price::from_str("3000").unwrap());
    assert!(!parts.is_call);
    assert_eq!(parts.btc_price(Price::from_str("300").unwrap()), Price::from_str("39700").unwrap());
}

#[test]
fn price_ref_errors() {
    assert_eq!(price_ref("a,b,c").unwrap_err(), PriceRefError::FieldCount(3));
    assert_eq!(
        price_ref("Exercised,\"6, BTC Mini Put\",2021-07-16T22:00:00Z,x,1,2,3,4,,,").unwrap_err(),
        PriceRefError::DescriptionFields(4),
    );
    assert_eq!(
        price_ref("Exercised,\"6, BTC Mini 2021-07-16 Put $32,000.00\",notadate,x,1,2,3,4,,,").unwrap_err(),
        PriceRefError::Date,
    );
    assert_eq!(
        price_ref("Exercised,\"x, BTC Mini 2021-07-16 Put $32,000.00\",2021-07-16T22:00:00Z,x,1,2,3,4,,,").unwrap_err(),
        PriceRefError::Quantity,
    );
    assert_eq!(
        price_ref("3197933266,Exercise - 1256 Option - Call,5,BTC-Mini,2022-02-04T22:00:00.000Z,x,1,2,3,4").unwrap_err(),
        PriceRefError::NoStrike,
    );
    assert_eq!(
        price_ref("3197933266,Exercise - 1256 Option - Call,5,BTC-Mini-X-Y-Call,2022-02-04T22:00:00.000Z,x,1,bad,3,4").unwrap_err(),
        PriceRefError::Basis,
    );
}

#[test]
fn csv_fields_respect_quotes_and_escapes() {
    let fields = CsvIter::new("a,\"b,c\",d\\,e,", ',').collect_fields();
    assert_eq!(fields, vec!["a".to_string(), "\"b,c\"".to_string(), "d\\,e".to_string()]);
    assert_eq!(trim1("\"abc\""), "abc");
    assert_eq!(trim1("x"), "x");
}
