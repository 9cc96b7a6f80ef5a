use ensemble::base64::{parse_binary, push_binary};
use ensemble::bank::Coin;
use ensemble::bytes::{push_lit, skip_lit};
use ensemble::number::{push_decimal, push_fixed_point};
use ensemble::response::{
    encode_all_balances, encode_all_delegations, encode_all_validators, encode_balance,
    encode_bonded_denom, encode_delegation, encode_validator,
};
use ensemble::staking::{Delegation, Validator};
use ensemble::text::{parse_text, push_text, same_text};

fn decimal(n: u128) -> String {
    let mut out = Vec::new();
    push_decimal(&mut out, n);
    String::from_utf8(out).unwrap()
}

fn fixed_point(atomics: u128) -> String {
    let mut out = Vec::new();
    push_fixed_point(&mut out, atomics);
    String::from_utf8(out).unwrap()
}

fn text_literal(s: &str) -> Vec<u8> {
    let mut out = Vec::new();
    push_text(&mut out, s);
    out
}

fn binary_literal(data: &[u8]) -> Vec<u8> {
    let mut out = Vec::new();
    push_binary(&mut out, data);
    out
}

#[test]
fn decimal_digits_of_whole_numbers() {
    assert_eq!(decimal(0), "0");
    assert_eq!(decimal(7), "7");
    assert_eq!(decimal(10), "10");
    assert_eq!(decimal(100), "100");
    assert_eq!(decimal(1_234_567_890), "1234567890");
    assert_eq!(decimal(u128::MAX), "340282366920938463463374607431768211455");
    for n in [9u128, 11, 99, 101, 999, 1000, 1001, 65_535, 1 << 64] {
        assert_eq!(decimal(n), n.to_string());
    }
}

#[test]
fn decimal_appends_behind_what_is_there() {
    let mut out = b"x=".to_vec();
    push_decimal(&mut out, 42);
    assert_eq!(out, b"x=42".to_vec());
    push_fixed_point(&mut out, 2_500_000_000_000_000_000);
    assert_eq!(out, b"x=422.5".to_vec());
}

#[test]
fn fixed_point_has_eighteen_places() {
    assert_eq!(fixed_point(0), "0");
    assert_eq!(fixed_point(1), "0.000000000000000001");
    assert_eq!(fixed_point(10), "0.00000000000000001");
    assert_eq!(fixed_point(100_000_000_000_000_000), "0.1");
    assert_eq!(fixed_point(120_000_000_000_000_000), "0.12");
    assert_eq!(fixed_point(999_999_999_999_999_999), "0.999999999999999999");
    assert_eq!(fixed_point(1_000_000_000_000_000_000), "1");
    assert_eq!(fixed_point(1_000_000_000_000_000_001), "1.000000000000000001");
    assert_eq!(fixed_point(1_500_000_000_000_000_000), "1.5");
    assert_eq!(fixed_point(1_050_000_000_000_000_000), "1.05");
    assert_eq!(fixed_point(42_000_000_000_000_000_000), "42");
    assert_eq!(fixed_point(u128::MAX), "340282366920938463463.374607431768211455");
}

#[test]
fn text_literal_and_back() {
    let cases = ["", "a", "uscrt", "with space", "q\"uote", "back\\slash", "line\nbreak", "\u{0}\u{7f}", "héllo", "日本語", "\u{10FFFF}"];
    for s in cases {
        let mut bytes = b"[".to_vec();
        push_text(&mut bytes, s);
        let end = bytes.len();
        bytes.extend_from_slice(b"]");
        assert_eq!(parse_text(&bytes, 1), Some((s.to_string(), end)));
        assert_eq!(parse_text(&bytes, 0), None);
    }
    assert_eq!(text_literal("a\"b"), b"\"a\\\"b\"".to_vec());
    assert_eq!(text_literal("\u{1b}"), b"\"\\u001B\"".to_vec());
    assert_eq!(text_literal("\u{7f}"), b"\"\x7f\"".to_vec());
}

#[test]
fn text_literal_must_be_closed_and_well_escaped() {
    assert_eq!(parse_text(b"", 0), None);
    assert_eq!(parse_text(b"\"", 0), None);
    assert_eq!(parse_text(b"\"abc", 0), None);
    assert_eq!(parse_text(b"\"abc\\", 0), None);
    assert_eq!(parse_text(b"\"abc\\\"", 0), None);
    assert_eq!(parse_text(b"\"\\q\"", 0), None);
    assert_eq!(parse_text(b"\"\\u00g0\"", 0), None);
    assert_eq!(parse_text(b"\"\\u0100\"", 0), None);
    assert_eq!(parse_text(b"\"\\u00", 0), None);
    assert_eq!(parse_text(b"\"\x01\"", 0), None);
    assert_eq!(parse_text(b"\"\xc3\"", 0), None);
    assert_eq!(parse_text(b"\"ok\"", 5), None);
    assert_eq!(parse_text(b"\"\"", 0), Some((String::new(), 2)));
    assert_eq!(parse_text(b"\"\\u0041\\\\\\\"\"rest", 0), Some(("A\\\"".to_string(), 12)));
    assert_eq!(parse_text(b"\"\\u007f\"", 0), Some(("\u{7f}".to_string(), 8)));
}

#[test]
fn binary_literal_and_back() {
    assert_eq!(binary_literal(b""), b"\"\"".to_vec());
    assert_eq!(binary_literal(b"hello"), b"\"aGVsbG8=\"".to_vec());
    assert_eq!(binary_literal(&[0xff, 0xff, 0xff]), b"\"////\"".to_vec());
    assert_eq!(binary_literal(&[0, 0, 0]), b"\"AAAA\"".to_vec());
    for len in 0..40usize {
        let data: Vec<u8> = (0..len).map(|i| (i * 37 + 11) as u8).collect();
        let mut bytes = b"xy".to_vec();
        push_binary(&mut bytes, &data);
        let end = bytes.len();
        bytes.push(b'}');
        assert_eq!(end, 2 + 2 + 4 * ((len + 2) / 3));
        assert_eq!(parse_binary(&bytes, 2), Some((data, end)));
    }
}

#[test]
fn binary_literal_must_be_padded_and_canonical() {
    assert_eq!(parse_binary(b"\"aGVsbG8\"", 0), None);
    assert_eq!(parse_binary(b"\"aGVsbG8=", 0), None);
    assert_eq!(parse_binary(b"\"aGVsbG9=\"", 0), None);
    assert_eq!(parse_binary(b"\"aR==\"", 0), None);
    assert_eq!(parse_binary(b"\"a===\"", 0), None);
    assert_eq!(parse_binary(b"\"====\"", 0), None);
    assert_eq!(parse_binary(b"\"aG-s\"", 0), None);
    assert_eq!(parse_binary(b"\"aQ==aQ==\"", 0), None);
    assert_eq!(parse_binary(b"aGVs", 0), None);
    assert_eq!(parse_binary(b"\"aGVs\"", 7), None);
    assert_eq!(parse_binary(b"\"aQ==\"", 0), Some((b"i".to_vec(), 6)));
    assert_eq!(parse_binary(b"\"aGk=\"", 0), Some((b"hi".to_vec(), 6)));
}

#[test]
fn literals_are_found_where_they_stand() {
    let mut out = b"ab".to_vec();
    push_lit(&mut out, "{\"x\":");
    assert_eq!(out, b"ab{\"x\":".to_vec());
    assert_eq!(skip_lit(&out, 2, "{\"x\":"), Some(7));
    assert_eq!(skip_lit(&out, 0, "ab"), Some(2));
    assert_eq!(skip_lit(&out, 0, ""), Some(0));
    assert_eq!(skip_lit(&out, 7, ""), Some(7));
    assert_eq!(skip_lit(&out, 8, ""), None);
    assert_eq!(skip_lit(&out, 1, "ab"), None);
    assert_eq!(skip_lit(&out, 6, ":x"), None);
    assert_eq!(skip_lit(&out, usize::MAX, "a"), None);
}

#[test]
fn same_text_compares_strings() {
    assert!(same_text("", ""));
    assert!(same_text("uscrt", "uscrt"));
    assert!(same_text("é", "\u{e9}"));
    assert!(!same_text("uscrt", "uscrT"));
    assert!(!same_text("uscrt", "uscr"));
    assert!(!same_text("", "a"));
    assert!(!same_text("e\u{301}", "\u{e9}"));
}

#[test]
fn response_encoders() {
    let coin = Coin { denom: "uscrt".to_string(), amount: 100 };
    let other = Coin { denom: "uatom".to_string(), amount: 0 };
    assert_eq!(encode_balance(&coin), b"{\"amount\":{\"denom\":\"uscrt\",\"amount\":\"100\"}}".to_vec());
    assert_eq!(encode_all_balances(&vec![]), b"{\"amount\":[]}".to_vec());
    assert_eq!(
        encode_all_balances(&vec![coin.clone(), other.clone(), coin.clone()]),
        b"{\"amount\":[{\"denom\":\"uscrt\",\"amount\":\"100\"},{\"denom\":\"uatom\",\"amount\":\"0\"},{\"denom\":\"uscrt\",\"amount\":\"100\"}]}"
            .to_vec()
    );
    assert_eq!(encode_bonded_denom("uscrt"), b"{\"denom\":\"uscrt\"}".to_vec());
    assert_eq!(encode_bonded_denom(""), b"{\"denom\":\"\"}".to_vec());
    let delegation = Delegation {
        delegator: "d".to_string(),
        validator: "v".to_string(),
        amount: coin.clone(),
    };
    let written = "{\"delegator\":\"d\",\"validator\":\"v\",\"amount\":{\"denom\":\"uscrt\",\"amount\":\"100\"}}";
    assert_eq!(encode_delegation(&None), b"null".to_vec());
    assert_eq!(encode_delegation(&Some(delegation.clone())), written.as_bytes().to_vec());
    assert_eq!(encode_all_delegations(&vec![]), b"{\"delegations\":[]}".to_vec());
    assert_eq!(
        encode_all_delegations(&vec![delegation.clone(), delegation]),
        format!("{{\"delegations\":[{},{}]}}", written, written).into_bytes()
    );
    let validator = Validator {
        address: "val".to_string(),
        commission: 50_000_000_000_000_000,
        max_commission: 200_000_000_000_000_000,
        max_change_rate: 10_000_000_000_000_000,
    };
    let written = "{\"address\":\"val\",\"commission\":\"0.05\",\"max_commission\":\"0.2\",\"max_change_rate\":\"0.01\"}";
    assert_eq!(encode_validator(&None), b"{\"validator\":null}".to_vec());
    assert_eq!(
        encode_validator(&Some(validator.clone())),
        format!("{{\"validator\":{}}}", written).into_bytes()
    );
    assert_eq!(encode_all_validators(&vec![]), b"{\"validators\":[]}".to_vec());
    assert_eq!(
        encode_all_validators(&vec![validator]),
        format!("{{\"validators\":[{}]}}", written).into_bytes()
    );
}
