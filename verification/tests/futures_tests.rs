use gate_rust_sdk::errors::GateError;
use gate_rust_sdk::futures::{
    classify_response, decode_failure, futures_account_endpoint, futures_contracts_url,
    futures_positions_endpoint, FuturesContractInfo,
};

fn contract_with_rate(funding_rate: &str, funding_interval: u64) -> FuturesContractInfo {
    FuturesContractInfo {
        name: "BTC_USDT".to_string(),
        mark_price: "50000".to_string(),
        funding_rate_indicative: "0.0001".to_string(),
        funding_offset: 0,
        in_delisting: false,
        funding_interval,
        funding_impact_value: "1000".to_string(),
        funding_rate: funding_rate.to_string(),
        quanto_multiplier: "0.0001".to_string(),
    }
}

#[test]
fn annualized_rate_of_eight_hour_interval() {
    // 28800 s intervals: 3 per day, 1095 per year; 0.0001 * 1095 = 0.1095
    let c = contract_with_rate("0.0001", 28800);
    let a = c.annualized_funding_rate().unwrap();
    assert!(!a.negative);
    assert_eq!(a.numerator, 31536000);
    assert_eq!(a.denominator, 288000000);
    let value = a.numerator as f64 / a.denominator as f64;
    assert!((value - 0.1095).abs() < 1e-9);
}

#[test]
fn annualized_rate_keeps_sign() {
    let c = contract_with_rate("-0.0002", 28800);
    let a = c.annualized_funding_rate().unwrap();
    assert!(a.negative);
    let value = -(a.numerator as f64 / a.denominator as f64);
    assert!((value + 0.219).abs() < 1e-9);
}

#[test]
fn annualized_rate_rejects_malformed_rate() {
    let c = contract_with_rate("abc", 28800);
    assert!(matches!(c.annualized_funding_rate(), Err(GateError::NumericParseFailure)));
}

#[test]
fn parse_decimal_accepts_plain_numerals() {
    let d = gate_rust_sdk::decstr::parse_decimal("0.0001").unwrap();
    assert!(!d.negative);
    assert_eq!(d.mantissa, 1);
    assert_eq!(d.scale, 4);

    let d = gate_rust_sdk::decstr::parse_decimal("-0.25").unwrap();
    assert!(d.negative);
    assert_eq!(d.mantissa, 25);
    assert_eq!(d.scale, 2);

    let d = gate_rust_sdk::decstr::parse_decimal("123").unwrap();
    assert!(!d.negative);
    assert_eq!(d.mantissa, 123);
    assert_eq!(d.scale, 0);

    let d = gate_rust_sdk::decstr::parse_decimal("+5.5").unwrap();
    assert!(!d.negative);
    assert_eq!(d.mantissa, 55);
    assert_eq!(d.scale, 1);

    let d = gate_rust_sdk::decstr::parse_decimal("999999999999999999").unwrap();
    assert_eq!(d.mantissa, 999999999999999999);
    assert_eq!(d.scale, 0);
}

#[test]
fn parse_decimal_rejects_other_shapes() {
    for bad in [
        "", "-", "+", ".", "1.", ".5", "1.2.3", "abc", "1e5", " 1", "1 ", "--1",
        "1234567890123456789",
    ] {
        let r = gate_rust_sdk::decstr::parse_decimal(bad);
        assert!(matches!(r, Err(GateError::NumericParseFailure)), "accepted {:?}", bad);
    }
}

#[test]
fn contracts_url_lowercases_settle_coin() {
    let url = futures_contracts_url("USDT");
    assert_eq!(url, "https://api.gateio.ws/api/v4/futures/usdt/contracts");
    assert_eq!(url, futures_contracts_url("usdt"));
}

#[test]
fn endpoints_name_account_and_positions() {
    assert_eq!(futures_account_endpoint("usdt"), "/futures/usdt/accounts");
    assert_eq!(futures_account_endpoint("BTC"), "/futures/btc/accounts");
    assert_eq!(futures_positions_endpoint("Usdt"), "/futures/usdt/positions");
}

#[test]
fn non_2xx_is_a_request_failure_with_raw_body() {
    let raw = "{\"label\":\"INVALID_SIGNATURE\"}".to_string();
    match classify_response(403, raw.clone()) {
        Err(GateError::RequestFailure { status, body }) => {
            assert_eq!(status, 403);
            assert_eq!(body, raw);
        },
        _ => panic!("expected a request failure"),
    }
    assert!(matches!(classify_response(500, "oops".to_string()), Err(_)));
    assert!(matches!(classify_response(199, String::new()), Err(_)));
    assert!(matches!(classify_response(300, String::new()), Err(_)));
}

#[test]
fn success_statuses_hand_the_body_on() {
    let raw = "{\"unexpected\":\"shape\"}".to_string();
    assert_eq!(classify_response(200, raw.clone()).unwrap(), raw);
    assert_eq!(classify_response(299, raw.clone()).unwrap(), raw);
}

#[test]
fn decode_failure_carries_raw_text() {
    let raw = "{\"unexpected\":\"shape\"}".to_string();
    match decode_failure("missing field `name`".to_string(), raw.clone()) {
        GateError::DecodeFailure { error, raw_body } => {
            assert_eq!(error, "missing field `name`");
            assert_eq!(raw_body, raw);
        },
        _ => panic!("expected a decode failure"),
    }
}
