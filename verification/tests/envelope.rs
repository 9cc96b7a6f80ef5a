use ensemble::request::{DecodeFailure, QueryRequest};

fn text(s: &str) -> String {
    s.to_string()
}

fn all_variants() -> Vec<QueryRequest> {
    vec![
        QueryRequest::WasmSmart { addr: text("contract1"), msg: b"{\"get\":{}}".to_vec() },
        QueryRequest::WasmRaw { addr: text("contract1"), key: vec![0, 1, 2, 255] },
        QueryRequest::BankAllBalances { addr: text("addrA") },
        QueryRequest::BankBalance { addr: text("addrA"), denom: text("uscrt") },
        QueryRequest::StakingAllDelegations { delegator: text("delegator1") },
        QueryRequest::StakingBondedDenom,
        QueryRequest::StakingDelegation { delegator: text("delegator1"), validator: text("val1") },
        QueryRequest::StakingAllValidators,
        QueryRequest::StakingValidator { addr: text("val1") },
        QueryRequest::Other,
    ]
}

#[test]
fn encode_writes_each_envelope() {
    let expected: Vec<&[u8]> = vec![
        b"{\"wasm\":{\"smart\":{\"contract_addr\":\"contract1\",\"msg\":\"eyJnZXQiOnt9fQ==\"}}}",
        b"{\"wasm\":{\"raw\":{\"contract_addr\":\"contract1\",\"key\":\"AAEC/w==\"}}}",
        b"{\"bank\":{\"all_balances\":{\"address\":\"addrA\"}}}",
        b"{\"bank\":{\"balance\":{\"address\":\"addrA\",\"denom\":\"uscrt\"}}}",
        b"{\"staking\":{\"all_delegations\":{\"delegator\":\"delegator1\"}}}",
        b"{\"staking\":{\"bonded_denom\":{}}}",
        b"{\"staking\":{\"delegation\":{\"delegator\":\"delegator1\",\"validator\":\"val1\"}}}",
        b"{\"staking\":{\"all_validators\":{}}}",
        b"{\"staking\":{\"validator\":{\"address\":\"val1\"}}}",
        b"{\"custom\":{}}",
    ];
    let requests = all_variants();
    assert_eq!(requests.len(), expected.len());
    for (request, bytes) in requests.iter().zip(expected.iter()) {
        assert_eq!(request.encode().as_slice(), *bytes);
    }
}

#[test]
fn decode_gives_back_each_variant() {
    for request in all_variants() {
        let bytes = request.encode();
        assert_eq!(QueryRequest::decode(&bytes), Ok(request));
    }
}

#[test]
fn decode_gives_back_empty_fields() {
    let requests = vec![
        QueryRequest::WasmSmart { addr: text(""), msg: vec![] },
        QueryRequest::BankBalance { addr: text(""), denom: text("") },
        QueryRequest::StakingValidator { addr: text("") },
    ];
    for request in requests {
        let bytes = request.encode();
        assert_eq!(QueryRequest::decode(&bytes), Ok(request));
    }
    let empty = QueryRequest::WasmSmart { addr: text(""), msg: vec![] };
    assert_eq!(
        empty.encode().as_slice(),
        b"{\"wasm\":{\"smart\":{\"contract_addr\":\"\",\"msg\":\"\"}}}"
    );
}

#[test]
fn base64_pads_the_last_group() {
    let cases: Vec<(&[u8], &str)> = vec![
        (b"", ""),
        (b"f", "Zg=="),
        (b"fo", "Zm8="),
        (b"foo", "Zm9v"),
        (b"foob", "Zm9vYg=="),
        (b"fooba", "Zm9vYmE="),
        (b"foobar", "Zm9vYmFy"),
        (&[0xfb, 0xff, 0xbe], "+/++"),
    ];
    for (data, encoded) in cases {
        let request = QueryRequest::WasmRaw { addr: text("c"), key: data.to_vec() };
        let expected = format!("{{\"wasm\":{{\"raw\":{{\"contract_addr\":\"c\",\"key\":\"{}\"}}}}}}", encoded);
        let bytes = request.encode();
        assert_eq!(bytes.as_slice(), expected.as_bytes());
        assert_eq!(QueryRequest::decode(&bytes), Ok(request));
    }
}

#[test]
fn base64_round_trip_of_every_byte() {
    let data: Vec<u8> = (0..=255u8).collect();
    for len in [254usize, 255, 256] {
        let request = QueryRequest::WasmSmart { addr: text("c"), msg: data[..len].to_vec() };
        assert_eq!(QueryRequest::decode(&request.encode()), Ok(request));
    }
}

#[test]
fn text_escapes_quote_backslash_and_control_characters() {
    let request = QueryRequest::BankAllBalances { addr: text("a\"b\\c\n\t\r\u{8}\u{c}\u{1}\u{1f} d") };
    let bytes = request.encode();
    assert_eq!(
        bytes.as_slice(),
        b"{\"bank\":{\"all_balances\":{\"address\":\"a\\\"b\\\\c\\n\\t\\r\\b\\f\\u0001\\u001F d\"}}}"
            as &[u8]
    );
    assert_eq!(QueryRequest::decode(&bytes), Ok(request));
}

#[test]
fn text_escape_hex_digits_of_either_case_are_read() {
    let lower = b"{\"staking\":{\"validator\":{\"address\":\"\\u001f\\u000a\"}}}";
    let upper = b"{\"staking\":{\"validator\":{\"address\":\"\\u001F\\u000A\"}}}";
    let expected = QueryRequest::StakingValidator { addr: text("\u{1f}\n") };
    assert_eq!(QueryRequest::decode(lower), Ok(expected.clone()));
    assert_eq!(QueryRequest::decode(upper), Ok(expected));
}

#[test]
fn text_keeps_characters_outside_ascii() {
    let request = QueryRequest::BankBalance { addr: text("адрес-é-\u{1F600}"), denom: text("µscrt") };
    let bytes = request.encode();
    let expected = "{\"bank\":{\"balance\":{\"address\":\"адрес-é-\u{1F600}\",\"denom\":\"µscrt\"}}}";
    assert_eq!(bytes.as_slice(), expected.as_bytes());
    assert_eq!(QueryRequest::decode(&bytes), Ok(request));
}

#[test]
fn decode_refuses_text_that_is_not_utf8() {
    let mut bytes = b"{\"bank\":{\"all_balances\":{\"address\":\"".to_vec();
    bytes.extend_from_slice(&[0xff, 0xfe]);
    bytes.extend_from_slice(b"\"}}}");
    assert_eq!(QueryRequest::decode(&bytes), Err(DecodeFailure::InvalidText));
}

#[test]
fn decode_refuses_unknown_envelopes() {
    let cases: Vec<&[u8]> = vec![
        b"",
        b"{}",
        b"not json at all",
        b"{\"stargate\":{}}",
        b"{\"bank\":{\"supply\":{\"denom\":\"uscrt\"}}}",
        b"{\"custom\":{}} ",
        b"{\"staking\":{\"bonded_denom\":{}}}}",
        b" {\"custom\":{}}",
    ];
    for bytes in cases {
        assert_eq!(QueryRequest::decode(bytes), Err(DecodeFailure::UnknownRequest));
    }
}

#[test]
fn decode_refuses_invalid_text() {
    let cases: Vec<&[u8]> = vec![
        b"{\"bank\":{\"all_balances\":{\"address\":",
        b"{\"bank\":{\"all_balances\":{\"address\":addrA}}}",
        b"{\"bank\":{\"all_balances\":{\"address\":\"addrA",
        b"{\"bank\":{\"all_balances\":{\"address\":\"a\\xb\"}}}",
        b"{\"bank\":{\"all_balances\":{\"address\":\"a\nb\"}}}",
        b"{\"bank\":{\"all_balances\":{\"address\":\"\\u00\"}}}",
        b"{\"bank\":{\"all_balances\":{\"address\":\"\\u0080\"}}}",
        b"{\"bank\":{\"all_balances\":{\"address\":\"\\u12ab\"}}}",
        b"{\"bank\":{\"balance\":{\"address\":\"addrA\",\"denom\":5}}}",
    ];
    for bytes in cases {
        assert_eq!(QueryRequest::decode(bytes), Err(DecodeFailure::InvalidText));
    }
}

#[test]
fn decode_refuses_invalid_binary() {
    let cases: Vec<&[u8]> = vec![
        b"{\"wasm\":{\"smart\":{\"contract_addr\":\"c\",\"msg\":e30=}}}",
        b"{\"wasm\":{\"smart\":{\"contract_addr\":\"c\",\"msg\":\"e30\"}}}",
        b"{\"wasm\":{\"smart\":{\"contract_addr\":\"c\",\"msg\":\"e3=0\"}}}",
        b"{\"wasm\":{\"smart\":{\"contract_addr\":\"c\",\"msg\":\"e3 0\"}}}",
        b"{\"wasm\":{\"smart\":{\"contract_addr\":\"c\",\"msg\":\"Zh==\"}}}",
        b"{\"wasm\":{\"smart\":{\"contract_addr\":\"c\",\"msg\":\"Zm9=\"}}}",
        b"{\"wasm\":{\"smart\":{\"contract_addr\":\"c\",\"msg\":\"Zg==Zg==\"}}}",
        b"{\"wasm\":{\"raw\":{\"contract_addr\":\"c\",\"key\":\"e30=",
    ];
    for bytes in cases {
        assert_eq!(QueryRequest::decode(bytes), Err(DecodeFailure::InvalidBinary));
    }
}

#[test]
fn decode_refuses_malformed_envelopes() {
    let cases: Vec<&[u8]> = vec![
        b"{\"bank\":{\"all_balances\":{\"address\":\"addrA\"}}",
        b"{\"bank\":{\"all_balances\":{\"address\":\"addrA\"}}}}",
        b"{\"bank\":{\"all_balances\":{\"address\":\"addrA\" }}}",
        b"{\"bank\":{\"balance\":{\"address\":\"addrA\"}}}",
        b"{\"bank\":{\"balance\":{\"address\":\"addrA\", \"denom\":\"uscrt\"}}}",
        b"{\"bank\":{\"balance\":{\"address\":\"addrA\",\"denom\":\"uscrt\"}}} ",
        b"{\"wasm\":{\"smart\":{\"contract_addr\":\"c\",\"key\":\"e30=\"}}}",
        b"{\"wasm\":{\"smart\":{\"contract_addr\":\"c\",\"msg\":\"e30=\"}}",
        b"{\"staking\":{\"delegation\":{\"delegator\":\"d\",\"validator\":\"v\"}}}x",
    ];
    for bytes in cases {
        assert_eq!(QueryRequest::decode(bytes), Err(DecodeFailure::Malformed));
    }
}
