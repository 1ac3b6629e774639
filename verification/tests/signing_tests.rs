use gate_rust_sdk::{GateError, GateSDK, LIVE_URL};

const EMPTY_SHA512: &str = "cf83e1357eefb8bdf1542850d66d8007d620e4050b5715dc83f4a921d36ce9ce47d0d13c5d85f2b0ff8318d2877eec2f63b931bd47417a81a538327af927da3e";

const GOLDEN_SIG: &str = "1a51d17b8edfd5288b77376ec1ff0ef24f7a89720e75ad1449682cfee8ad8af54ad26c25263ccce522139a67465477da0f0b6f8c10a93e5250e8718a5a4a675f";

fn test_client() -> GateSDK {
    GateSDK::new("testkey".to_string(), "testsecret".to_string())
}

fn golden_message() -> String {
    format!("GET\n/api/v4/futures/usdt/accounts\n\n{}\n1700000000", EMPTY_SHA512)
}

#[test]
fn sign_matches_golden_vector() {
    let sdk = test_client();
    let sig = sdk.sign_request(golden_message()).unwrap();
    assert_eq!(sig, GOLDEN_SIG);
}

#[test]
fn sign_is_deterministic() {
    let sdk = test_client();
    let a = sdk.sign_request(golden_message()).unwrap();
    let b = sdk.sign_request(golden_message()).unwrap();
    assert_eq!(a, b);
}

#[test]
fn sign_output_is_128_lowercase_hex() {
    let sdk = test_client();
    for msg in ["", "x", &golden_message()] {
        let sig = sdk.sign_request(msg.to_string()).unwrap();
        assert_eq!(sig.len(), 128);
        assert!(sig.chars().all(|c| c.is_ascii_hexdigit() && !c.is_ascii_uppercase()));
    }
}

#[test]
fn sign_readonly_fails_missing_credential() {
    let sdk = GateSDK::new_readonly();
    let r = sdk.sign_request(golden_message());
    assert!(matches!(r, Err(GateError::MissingCredential)));
}

#[test]
fn build_readonly_fails_missing_credential() {
    let sdk = GateSDK::new_readonly();
    let r = sdk.build_signed_request_at("GET", "/futures/usdt/accounts", "", b"", 1700000000);
    assert!(matches!(r, Err(GateError::MissingCredential)));
    let r = sdk.build_signed_request("GET", "/futures/usdt/accounts", "", b"");
    assert!(matches!(r, Err(GateError::MissingCredential)));
}

#[test]
fn build_matches_golden_vector() {
    let sdk = test_client();
    let sr = sdk
        .build_signed_request_at("GET", "/futures/usdt/accounts", "", b"", 1700000000)
        .unwrap();
    assert_eq!(sr.api_key, "testkey");
    assert_eq!(sr.timestamp, "1700000000");
    assert_eq!(sr.signature, GOLDEN_SIG);
    assert_eq!(sr.url, "https://api.gateio.ws/api/v4/futures/usdt/accounts");
}

#[test]
fn build_is_deterministic() {
    let sdk = test_client();
    let a = sdk
        .build_signed_request_at("GET", "/futures/usdt/positions", "", b"", 1700000001)
        .unwrap();
    let b = sdk
        .build_signed_request_at("GET", "/futures/usdt/positions", "", b"", 1700000001)
        .unwrap();
    assert_eq!(a.url, b.url);
    assert_eq!(a.api_key, b.api_key);
    assert_eq!(a.timestamp, b.timestamp);
    assert_eq!(a.signature, b.signature);
}

#[test]
fn build_signature_is_sensitive_to_each_field() {
    let sdk = test_client();
    let base = sdk
        .build_signed_request_at("GET", "/futures/usdt/accounts", "", b"", 1700000000)
        .unwrap();
    let other_method = sdk
        .build_signed_request_at("POST", "/futures/usdt/accounts", "", b"", 1700000000)
        .unwrap();
    let other_path = sdk
        .build_signed_request_at("GET", "/futures/usdt/positions", "", b"", 1700000000)
        .unwrap();
    let other_query = sdk
        .build_signed_request_at("GET", "/futures/usdt/accounts", "limit=10", b"", 1700000000)
        .unwrap();
    let other_body = sdk
        .build_signed_request_at("GET", "/futures/usdt/accounts", "", b"{}", 1700000000)
        .unwrap();
    let other_time = sdk
        .build_signed_request_at("GET", "/futures/usdt/accounts", "", b"", 1700000001)
        .unwrap();
    assert_ne!(base.signature, other_method.signature);
    assert_ne!(base.signature, other_path.signature);
    assert_ne!(base.signature, other_query.signature);
    assert_ne!(base.signature, other_body.signature);
    assert_ne!(base.signature, other_time.signature);
}

#[test]
fn build_signature_differs_under_other_secret() {
    let a = GateSDK::new("k".to_string(), "secret-one".to_string());
    let b = GateSDK::new("k".to_string(), "secret-two".to_string());
    let ra = a.build_signed_request_at("GET", "/futures/usdt/accounts", "", b"", 1700000000);
    let rb = b.build_signed_request_at("GET", "/futures/usdt/accounts", "", b"", 1700000000);
    assert_ne!(ra.unwrap().signature, rb.unwrap().signature);
}

#[test]
fn build_appends_query_string_to_url() {
    let sdk = test_client();
    let sr = sdk
        .build_signed_request_at("GET", "/futures/usdt/accounts", "limit=10", b"", 1700000000)
        .unwrap();
    assert_eq!(sr.url, "https://api.gateio.ws/api/v4/futures/usdt/accounts?limit=10");
}

#[test]
fn build_rejects_illegal_header_api_key() {
    let sdk = GateSDK::new("bad\nkey".to_string(), "testsecret".to_string());
    let r = sdk.build_signed_request_at("GET", "/futures/usdt/accounts", "", b"", 1700000000);
    assert!(matches!(r, Err(GateError::HeaderEncodingError)));
}

#[test]
fn headers_carry_key_timestamp_signature() {
    let sdk = test_client();
    let sr = sdk
        .build_signed_request_at("GET", "/futures/usdt/accounts", "", b"", 1700000000)
        .unwrap();
    let headers = sr.headers();
    assert_eq!(headers.len(), 4);
    assert_eq!(headers[0].0, "KEY");
    assert_eq!(headers[0].1, "testkey");
    assert_eq!(headers[1].0, "Timestamp");
    assert_eq!(headers[1].1, "1700000000");
    assert_eq!(headers[2].0, "SIGN");
    assert_eq!(headers[2].1, GOLDEN_SIG);
    assert_eq!(headers[3].0, "Content-Type");
    assert_eq!(headers[3].1, "application/json");
}

#[test]
fn hex_encode_known_bytes() {
    assert_eq!(gate_rust_sdk::hexstr::hex_encode(&[]), "");
    assert_eq!(gate_rust_sdk::hexstr::hex_encode(&[0u8, 255u8, 16u8]), "00ff10");
}

#[test]
fn u64_renders_in_decimal() {
    assert_eq!(gate_rust_sdk::decstr::u64_to_dec_string(0), "0");
    assert_eq!(gate_rust_sdk::decstr::u64_to_dec_string(7), "7");
    assert_eq!(gate_rust_sdk::decstr::u64_to_dec_string(1700000000), "1700000000");
    assert_eq!(gate_rust_sdk::decstr::u64_to_dec_string(u64::MAX), "18446744073709551615");
}

#[test]
fn get_timestamp_is_decimal_seconds() {
    let ts = gate_rust_sdk::get_timestamp();
    assert!(!ts.is_empty());
    assert!(ts.chars().all(|c| c.is_ascii_digit()));
    // plausibly the current epoch: ten digits until the year 2286
    assert!(ts.len() >= 9 && ts.len() <= 12);
}

#[test]
fn live_url_names_the_versioned_api() {
    assert_eq!(LIVE_URL, "https://api.gateio.ws/api/v4");
}
