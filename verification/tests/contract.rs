use trade_tracker::ledgerx::contract::{Contract, ContractId, Type};
use trade_tracker::ledgerx::json;
use trade_tracker::option::PutCall;
use trade_tracker::units::{Price, Underlying, UtcTime};

fn time(secs: i64) -> UtcTime {
    UtcTime::from_unix_i64(secs).unwrap()
}

#[allow(clippy::too_many_arguments)]
fn json_contract(
    id: usize,
    is_call: Option<bool>,
    strike_cents: Option<i64>,
    date_live: i64,
    date_expires: i64,
    date_exercise: Option<i64>,
    derivative_type: json::DerivativeType,
    multiplier: usize,
    label: &str,
    active: bool,
    is_next_day: bool,
    underlying: Underlying,
    ty: Option<json::Type>,
) -> json::Contract {
    json::Contract {
        id,
        active,
        underlying_asset: underlying,
        date_exercise: date_exercise.map(time),
        date_expires: Some(time(date_expires)),
        date_live: Some(time(date_live)),
        is_call,
        is_next_day: Some(is_next_day),
        is_ecp_only: Some(false),
        derivative_type,
        strike_price: strike_cents.map(Price::from_cents),
        min_increment: 10,
        open_interest: None,
        multiplier,
        label: label.to_string(),
        ty,
        name: None,
    }
}

#[test]
fn parse_contract_put() {
    let js = json_contract(
        22256321,
        Some(false),
        Some(400000),
        1673499600,
        1703883600,
        Some(1703887200),
        json::DerivativeType::OptionsContract,
        10,
        "ETH-29DEC2023-4000-Put",
        true,
        false,
        Underlying::Eth,
        Some(json::Type::Put),
    );
    let contract = Contract::try_from(js).unwrap();
    assert_eq!(contract.id(), ContractId(22256321));
    assert!(contract.active());
    match contract.ty() {
        Type::Option { exercise_date, opt } => {
            assert_eq!(exercise_date, time(1703887200));
            assert_eq!(opt.pc, PutCall::Put);
            assert_eq!(opt.strike, Price::from_str("4000").unwrap());
            assert_eq!(opt.expiry, time(1703883600));
        },
        _ => panic!("not an option"),
    }
    assert_eq!(contract.underlying(), Underlying::Eth);
    assert_eq!(contract.multiplier(), 10);
    assert_eq!(contract.label(), "ETH-29DEC2023-4000-Put");
}

#[test]
fn parse_contract_call() {
    let js = json_contract(
        22256298,
        Some(true),
        Some(2500000),
        1673499600,
        1703883600,
        Some(1703887200),
        json::DerivativeType::OptionsContract,
        100,
        "BTC-Mini-29DEC2023-25000-Call",
        true,
        false,
        Underlying::Btc,
        Some(json::Type::Call),
    );
    let contract = Contract::try_from(js).unwrap();
    assert_eq!(contract.id(), ContractId(22256298));
    assert!(contract.active());
    match contract.ty() {
        Type::Option { exercise_date, opt } => {
            assert_eq!(exercise_date, time(1703887200));
            assert_eq!(opt.pc, PutCall::Call);
            assert_eq!(opt.strike, Price::from_str("25000").unwrap());
            assert_eq!(opt.expiry, time(1703883600));
        },
        _ => panic!("not an option"),
    }
    assert_eq!(contract.underlying(), Underlying::Btc);
    assert_eq!(contract.multiplier(), 100);
    assert_eq!(contract.label(), "BTC-Mini-29DEC2023-25000-Call");
}

#[test]
fn parse_contract_nextday() {
    let js = json_contract(
        22256348,
        None,
        None,
        1676322000,
        1676408400,
        Some(1676408400),
        json::DerivativeType::DayAheadSwap,
        100,
        "BTC-Mini-14FEB2023-NextDay",
        false,
        true,
        Underlying::Btc,
        None,
    );
    let contract = Contract::try_from(js).unwrap();
    assert_eq!(contract.id(), ContractId(22256348));
    assert!(!contract.active());
    match contract.ty() {
        Type::NextDay { expiry } => assert_eq!(expiry, time(1676408400)),
        _ => panic!("not a next-day swap"),
    }
    assert_eq!(contract.underlying(), Underlying::Btc);
    assert_eq!(contract.multiplier(), 100);
    assert_eq!(contract.label(), "BTC-Mini-14FEB2023-NextDay");
}

#[test]
fn parse_future() {
    let js = json_contract(
        22256410,
        None,
        None,
        1674795600,
        1680296400,
        None,
        json::DerivativeType::FutureContract,
        100,
        "BTC-Mini-31MAR2023-Future",
        true,
        false,
        Underlying::Btc,
        None,
    );
    let contract = Contract::try_from(js).unwrap();
    assert_eq!(contract.id(), ContractId(22256410));
    assert!(contract.active());
    match contract.ty() {
        Type::Future { expiry } => assert_eq!(expiry, time(1680296400)),
        _ => panic!("not a future"),
    }
    assert_eq!(contract.underlying(), Underlying::Btc);
    assert_eq!(contract.multiplier(), 100);
    assert_eq!(contract.label(), "BTC-Mini-31MAR2023-Future");
}

#[test]
fn contract_missing_fields() {
    let mut js = json_contract(
        1,
        Some(true),
        None,
        1674795600,
        1680296400,
        Some(1680296400),
        json::DerivativeType::OptionsContract,
        100,
        "x",
        true,
        false,
        Underlying::Btc,
        Some(json::Type::Call),
    );
    js.strike_price = None;
    assert_eq!(Contract::try_from(js).unwrap_err(), "missing field 'strike_price'");
    let mut js = json_contract(
        1,
        Some(true),
        Some(100),
        1674795600,
        1680296400,
        None,
        json::DerivativeType::OptionsContract,
        100,
        "x",
        true,
        false,
        Underlying::Btc,
        Some(json::Type::Call),
    );
    js.date_exercise = None;
    assert_eq!(Contract::try_from(js).unwrap_err(), "missing field 'date_exercise'");
}
