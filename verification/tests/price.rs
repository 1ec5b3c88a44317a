use trade_tracker::price::{BitcoinPrice, Historic};
use trade_tracker::units::{Price, Quantity, UtcTime};

fn price(s: &str) -> Price {
    Price::from_str(s).unwrap()
}

#[test]
fn price_from_str() {
    let p = Price::from_str("123").unwrap();
    assert_eq!((p.mantissa(), p.scale()), (123, 0));
    assert_eq!(p, Price::from_parts(123, 0));
    let p = Price::from_str("123.45").unwrap();
    assert_eq!((p.mantissa(), p.scale()), (12345, 2));
    let p = Price::from_str("$1000").unwrap();
    assert_eq!((p.mantissa(), p.scale()), (1000, 0));
    let p = Price::from_str("$1,000").unwrap();
    assert_eq!((p.mantissa(), p.scale()), (1000, 0));
    let p = Price::from_str("1,000").unwrap();
    assert_eq!((p.mantissa(), p.scale()), (1000, 0));
    assert!(Price::from_str("123xy").is_err());
}

#[test]
fn price_display() {
    assert_eq!(price("123").to_display_string(), "123.00");
    assert_eq!(price("123.4").to_display_string(), "123.40");
    assert_eq!(price("123.04").to_display_string(), "123.04");
    assert_eq!(price("123.45").to_display_string(), "123.45");

    assert_eq!(price("123456789").to_display_string(), "123456789.00");
    assert_eq!(price("123456789").to_alt_string(), "123,456,789.00");
    assert_eq!(price("1234567.89").to_alt_string(), "1,234,567.89");
    assert_eq!(price("34567.09").to_alt_string(), "34,567.09");
}

#[test]
fn price_display_rounds_half_even() {
    assert_eq!(price("0.125").to_display_string(), "0.12");
    assert_eq!(price("0.135").to_display_string(), "0.14");
    assert_eq!(price("-5.5").to_display_string(), "-5.50");
}

#[test]
fn price_arithmetic_exact() {
    assert_eq!(price("1.25").add(&price("2.5")), price("3.75"));
    assert_eq!(price("1.25").sub(&price("2.5")), price("-1.25"));
    assert_eq!(price("123.99").to_int(), 123);
    assert_eq!(price("10").half(), price("5"));
    assert!(price("1.0").value_eq(&price("1.00")));
    assert!(price("1").lt(&price("1.01")));
    assert!(!price("1.01").lt(&price("1")));
}

#[test]
fn price_round_trips() {
    let a = price("1234.56");
    let b = price("78.9");
    assert_eq!(a.add(&b).sub(&b), a);
    assert_eq!(Price::from_str(&a.to_display_string()).unwrap(), a);
    assert_eq!(Price::from_str(&price("-0.5").to_display_string()).unwrap(), price("-0.50"));
}

// The largest mantissa of a decimal: 2^96 - 1
const MAX_MANTISSA: i128 = 0xFFFF_FFFF_FFFF_FFFF_FFFF_FFFF;

#[test]
fn sums_in_range() {
    let big = Price::from_parts(MAX_MANTISSA - 1, 0);
    assert!(big.fits_add(&Price::zero()));
    assert!(!big.fits_add(&price("1")));
    assert!(big.fits_add(&price("-1")));
    assert!(!big.fits_add(&price("0.000001")));
    assert!(big.fits_sub(&price("0.5")));
    assert!(!big.neg().fits_sub(&price("0.5")));
    assert!(price("1.5").fits_add(&price("2.25")));
}

#[test]
fn products_and_quotients_in_range() {
    let big = Price::from_parts(MAX_MANTISSA - 1, 0);
    // one bitcoin is 10^8 satoshis
    assert!(big.fits_mul_quantity(Quantity::Bitcoin(100_000_000)));
    assert!(!big.fits_mul_quantity(Quantity::Bitcoin(100_000_001)));
    assert!(big.fits_mul_quantity(Quantity::Contracts(-100)));
    assert!(!big.fits_mul_quantity(Quantity::Contracts(101)));
    assert!(big.fits_mul_quantity(Quantity::Zero));
    assert!(!price("1").fits_mul_quantity(Quantity::Cents(1)));
    assert!(price("20000").fits_div_quantity(Quantity::Bitcoin(1)));
    assert!(!price("20000").fits_div_quantity(Quantity::Bitcoin(0)));
    assert!(!price("20000").fits_div_quantity(Quantity::Zero));
    assert!(!big.fits_div_quantity(Quantity::Bitcoin(1)));
    assert!(big.fits_div_quantity(Quantity::Bitcoin(100_000_000)));
}

#[test]
fn quantity_sums_in_range() {
    assert!(Quantity::Bitcoin(1).fits_add(Quantity::Bitcoin(2)));
    assert!(!Quantity::Bitcoin(i64::MAX).fits_add(Quantity::Bitcoin(1)));
    assert!(!Quantity::Bitcoin(1).fits_add(Quantity::Contracts(1)));
    assert!(Quantity::Zero.fits_add(Quantity::Cents(5)));
}

#[test]
fn quantity_min_and_sign() {
    assert_eq!(Quantity::Contracts(5).min(Quantity::Zero), Quantity::Zero);
    assert_eq!(Quantity::Zero.min(Quantity::Contracts(-2)), Quantity::Contracts(-2));
    assert_eq!(Quantity::Contracts(5).min(Quantity::Contracts(3)), Quantity::Contracts(3));
    assert_eq!(Quantity::Cents(5).min(Quantity::Cents(3)), Quantity::Cents(3));
    assert!(Quantity::Contracts(0).has_same_sign(Quantity::Contracts(-3)));
    assert!(Quantity::Zero.has_same_sign(Quantity::Bitcoin(-1)));
    assert!(!Quantity::Contracts(1).has_same_sign(Quantity::Contracts(-3)));
    assert_eq!(Quantity::Contracts(5).add(Quantity::Zero), Quantity::Contracts(5));
    assert_eq!(Quantity::Zero.add(Quantity::Contracts(5)), Quantity::Contracts(5));
    assert!(Quantity::Bitcoin(1).fits_add(Quantity::Zero));
}

#[test]
fn csv_keeps_the_latest_of_each_half_hour() {
    let mut h = Historic::new();
    let lines = vec!["600,100,1".to_string(), "1200,200,1".to_string()];
    assert!(h.read_csv_lines(&lines).is_ok());
    assert_eq!(h.len(), 2);
    assert!(h.entries().iter().all(|(t, p)| t.timestamp() == 1200 && p.btc_price == price("200")));

    let mut h = Historic::new();
    let lines = vec!["600,100,1".to_string(), "1200,200,1".to_string(), "1900,300,1".to_string()];
    assert!(h.read_csv_lines(&lines).is_ok());
    let times: Vec<i64> = h.entries().iter().map(|(t, _)| t.timestamp()).collect();
    assert_eq!(times, vec![1200, 1900, 1900]);
}

#[test]
fn price_at_includes_the_lookup_time() {
    let mut h = Historic::new();
    let p = BitcoinPrice { timestamp: UtcTime::from_unix_i64(1000).unwrap(), btc_price: price("30000") };
    h.record(p);
    assert_eq!(h.price_at(UtcTime::from_unix_i64(1000).unwrap()), p);
    assert!(h.price_before(UtcTime::from_unix_i64(1000).unwrap()).is_none());
}
