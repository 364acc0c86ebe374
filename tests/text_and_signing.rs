use rust_trader::fixed::{amount_to_text, int_to_text, parse_integer, parse_signed_units, parse_units, plain_amount_text};
use rust_trader::signing::{sign_message, sign_request, signed_body};

#[test]
fn parses_decimal_text() {
    assert_eq!(parse_units("0.127"), Some(127_000_000));
    assert_eq!(parse_units("12"), Some(12_000_000_000));
    assert_eq!(parse_units(".5"), Some(500_000_000));
    assert_eq!(parse_units("3."), Some(3_000_000_000));
    assert_eq!(parse_units("0.0000000019"), Some(1));
    assert_eq!(parse_units(""), None);
    assert_eq!(parse_units("."), None);
    assert_eq!(parse_units("1.2.3"), None);
    assert_eq!(parse_units("abc"), None);
    assert_eq!(parse_units("-1"), None);
    assert_eq!(parse_units("18446744073.709551615"), Some(u64::MAX));
    assert_eq!(parse_units("18446744073.709551616"), None);
    assert_eq!(parse_units("99999999999999999999999"), None);
}

#[test]
fn parses_signed_decimal_text() {
    assert_eq!(parse_signed_units("-0.5"), Some(-500_000_000));
    assert_eq!(parse_signed_units("2.25"), Some(2_250_000_000));
    assert_eq!(parse_signed_units("-"), None);
    assert_eq!(parse_signed_units("--1"), None);
}

#[test]
fn parses_integer_text() {
    assert_eq!(parse_integer("125"), Some(125));
    assert_eq!(parse_integer("1.0"), None);
    assert_eq!(parse_integer(""), None);
    assert_eq!(parse_integer("18446744073709551616"), None);
}

#[test]
fn writes_amounts() {
    assert_eq!(amount_to_text(125_000_000, 2), "0.13");
    assert_eq!(amount_to_text(124_999_999, 2), "0.12");
    assert_eq!(amount_to_text(7_000_000_000, 0), "7");
    assert_eq!(amount_to_text(7_500_000_000, 0), "8");
    assert_eq!(amount_to_text(1, 9), "0.000000001");
    assert_eq!(amount_to_text(1_000_000_000, 11), "1.00000000000");
    assert_eq!(plain_amount_text(127_000_000), "0.127");
    assert_eq!(plain_amount_text(0), "0");
    assert_eq!(plain_amount_text(10_500_000_000), "10.5");
    assert_eq!(int_to_text(0), "0");
    assert_eq!(int_to_text(u128::MAX), "340282366920938463463374607431768211455");
}

#[test]
fn signs_with_hmac_sha256_base64() {
    // RFC 4231, test case 2
    assert_eq!(
        sign_message("Jefe", "what do ya want for nothing?"),
        "W9zBRr9gdU5qBCQmCJV1x1oAPwidJzmDnexYuWTsOEM="
    );
    assert_eq!(
        sign_request("Jefe", " want", " for nothing", "?", "what do ya"),
        "W9zBRr9gdU5qBCQmCJV1x1oAPwidJzmDnexYuWTsOEM="
    );
}

#[test]
fn reads_sign_an_empty_body() {
    assert_eq!(signed_body("GET", "{\"a\":1}"), "");
    assert_eq!(signed_body("POST", "{\"a\":1}"), "{\"a\":1}");
}
