use rust_trader::notify::{attach_keyword, contains, get_signed_url};
use rust_trader::signing::sign_message;

#[test]
fn keyword_is_appended_once() {
    assert_eq!(attach_keyword("BTC opened", "Trading"), "BTC opened\n\n[Trading]");
    assert_eq!(attach_keyword("Trading alert", "Trading"), "Trading alert");
    assert_eq!(attach_keyword("anything", ""), "anything");
}

#[test]
fn substring_search() {
    assert!(contains("abcabd", "abd"));
    assert!(contains("abc", ""));
    assert!(!contains("ab", "abc"));
    assert!(!contains("abcab", "abd"));
}

#[test]
fn webhook_without_secret_is_unchanged() {
    assert_eq!(get_signed_url("https://hook/x?access_token=1", "", "123"), "https://hook/x?access_token=1");
}

#[test]
fn webhook_is_signed_and_encoded() {
    let sig = sign_message("SEC", "1700000000000\nSEC");
    let encoded = sig.replace('+', "%2B").replace('/', "%2F").replace('=', "%3D");
    assert!(sig.ends_with('='));
    let url = get_signed_url("https://hook/x?access_token=1", "SEC", "1700000000000");
    assert_eq!(url, format!("https://hook/x?access_token=1&timestamp=1700000000000&sign={}", encoded));
    let url = get_signed_url("https://hook/x", "SEC", "1700000000000");
    assert_eq!(url, format!("https://hook/x?timestamp=1700000000000&sign={}", encoded));
}
