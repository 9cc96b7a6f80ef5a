use ensemble::bank::Coin;
use ensemble::context::Context;
use ensemble::querier::{
    application_result, decode_error, BaselineQuerier, EnsembleQuerier, QuerierResult, Route,
    TransportError,
};
use ensemble::registry::{ContractHarness, ContractRegistry, Unsupported};
use ensemble::request::{DecodeFailure, QueryRequest};
use ensemble::staking::{Delegation, Validator};

enum TestContract {
    Echo,
    Fail,
    AskBalance,
    AskContract(String),
}

impl ContractHarness for TestContract {
    fn query(&self, msg: &[u8], querier: &EnsembleQuerier<'_, Self>) -> Result<Vec<u8>, String> {
        match self {
            TestContract::Echo => Ok(msg.to_vec()),
            TestContract::Fail => Err("Generic error: boom".to_string()),
            TestContract::AskBalance => {
                let request = QueryRequest::BankBalance {
                    addr: String::from_utf8(msg.to_vec()).map_err(|e| e.to_string())?,
                    denom: "uscrt".to_string(),
                };
                match querier.raw_query(&request.encode()) {
                    Ok(outcome) => outcome,
                    Err(_) => Err("transport".to_string()),
                }
            },
            TestContract::AskContract(other) => {
                let request = QueryRequest::WasmSmart { addr: other.clone(), msg: msg.to_vec() };
                match querier.raw_query(&request.encode()) {
                    Ok(outcome) => outcome,
                    Err(TransportError::UnknownContract { address }) => {
                        Err(format!("unknown contract {}", address))
                    },
                    Err(_) => Err("transport".to_string()),
                }
            },
        }
    }
}

fn answer(bytes: &[u8]) -> QuerierResult {
    Ok(Ok(bytes.to_vec()))
}

fn context() -> Context<TestContract> {
    let mut ctx = Context::new();
    ctx.bank.set_balance("addrA", "uscrt", 100);
    ctx.bank.set_balance("addrA", "uatom", 3);
    assert!(ctx.staking.initialize("uscrt"));
    assert!(ctx.contracts.register("echo", TestContract::Echo));
    assert!(ctx.contracts.register("fail", TestContract::Fail));
    assert!(ctx.contracts.register("bank", TestContract::AskBalance));
    assert!(ctx.contracts.register("relay", TestContract::AskContract("bank".to_string())));
    assert!(ctx.contracts.register("lost", TestContract::AskContract("nowhere".to_string())));
    ctx
}

#[test]
fn registered_addresses_are_contained() {
    let mut registry: ContractRegistry<TestContract> = ContractRegistry::new();
    assert!(!registry.contains("echo"));
    assert!(registry.register("echo", TestContract::Echo));
    assert!(registry.contains("echo"));
    assert!(registry.register("fail", TestContract::Fail));
    assert!(registry.contains("echo"));
    assert!(registry.contains("fail"));
    assert!(!registry.contains("ech"));
    assert!(!registry.contains(""));
}

#[test]
fn register_keeps_the_contract_of_a_taken_address() {
    let mut ctx: Context<TestContract> = Context::new();
    assert!(ctx.contracts.register("c", TestContract::Echo));
    assert!(!ctx.contracts.register("c", TestContract::Fail));
    let querier = EnsembleQuerier::new(&ctx);
    let request = QueryRequest::WasmSmart { addr: "c".to_string(), msg: b"ping".to_vec() };
    assert_eq!(querier.handle_query(&request), answer(b"ping"));
}

#[test]
fn wasm_query_to_registered_contract_never_raises_unknown_contract() {
    let ctx = context();
    let querier = EnsembleQuerier::new(&ctx);
    for addr in ["echo", "fail", "bank", "relay", "lost"] {
        assert!(ctx.contracts.contains(addr));
        let smart = QueryRequest::WasmSmart { addr: addr.to_string(), msg: b"addrA".to_vec() };
        assert!(querier.raw_query(&smart.encode()).is_ok());
        let raw = QueryRequest::WasmRaw { addr: addr.to_string(), key: b"k".to_vec() };
        assert_eq!(
            querier.raw_query(&raw.encode()),
            Err(TransportError::Unsupported { kind: "raw".to_string() })
        );
    }
}

#[test]
fn wasm_query_to_unregistered_address_raises_unknown_contract() {
    let ctx = context();
    let querier = EnsembleQuerier::new(&ctx);
    for addr in ["nowhere", "", "Echo", "echo ", "ад\"рес"] {
        let expected: QuerierResult =
            Err(TransportError::UnknownContract { address: addr.to_string() });
        let smart = QueryRequest::WasmSmart { addr: addr.to_string(), msg: b"{}".to_vec() };
        assert_eq!(querier.raw_query(&smart.encode()), expected);
        assert_eq!(querier.handle_query(&smart), expected);
        let raw = QueryRequest::WasmRaw { addr: addr.to_string(), key: vec![] };
        assert_eq!(querier.raw_query(&raw.encode()), expected);
    }
}

#[test]
fn contract_answer_and_failure_are_application_outcomes() {
    let ctx = context();
    let querier = EnsembleQuerier::new(&ctx);
    let echo = QueryRequest::WasmSmart { addr: "echo".to_string(), msg: b"{\"x\":1}".to_vec() };
    assert_eq!(querier.raw_query(&echo.encode()), answer(b"{\"x\":1}"));
    let fail = QueryRequest::WasmSmart { addr: "fail".to_string(), msg: vec![] };
    assert_eq!(querier.raw_query(&fail.encode()), Ok(Err("Generic error: boom".to_string())));
}

#[test]
fn contract_may_query_through_the_same_context() {
    let ctx = context();
    let querier = EnsembleQuerier::new(&ctx);
    let direct = QueryRequest::WasmSmart { addr: "bank".to_string(), msg: b"addrA".to_vec() };
    let expected = answer(b"{\"amount\":{\"denom\":\"uscrt\",\"amount\":\"100\"}}");
    assert_eq!(querier.raw_query(&direct.encode()), expected);
    let relayed = QueryRequest::WasmSmart { addr: "relay".to_string(), msg: b"addrA".to_vec() };
    assert_eq!(querier.raw_query(&relayed.encode()), expected);
    let lost = QueryRequest::WasmSmart { addr: "lost".to_string(), msg: b"addrA".to_vec() };
    assert_eq!(querier.raw_query(&lost.encode()), Ok(Err("unknown contract nowhere".to_string())));
}

#[test]
fn bank_balance_scenario() {
    let mut ctx: Context<TestContract> = Context::new();
    ctx.bank.set_balance("addrA", "uscrt", 100);
    let querier = EnsembleQuerier::new(&ctx);
    assert_eq!(
        querier.raw_query(b"{\"bank\":{\"balance\":{\"address\":\"addrA\",\"denom\":\"uscrt\"}}}"),
        answer(b"{\"amount\":{\"denom\":\"uscrt\",\"amount\":\"100\"}}")
    );
    assert_eq!(
        querier.raw_query(b"{\"bank\":{\"balance\":{\"address\":\"addrA\",\"denom\":\"other\"}}}"),
        answer(b"{\"amount\":{\"denom\":\"other\",\"amount\":\"0\"}}")
    );
    assert_eq!(
        querier.raw_query(b"{\"bank\":{\"balance\":{\"address\":\"addrB\",\"denom\":\"uscrt\"}}}"),
        answer(b"{\"amount\":{\"denom\":\"uscrt\",\"amount\":\"0\"}}")
    );
}

#[test]
fn bank_all_balances_response() {
    let mut ctx: Context<TestContract> = Context::new();
    let querier = EnsembleQuerier::new(&ctx);
    assert_eq!(
        querier.raw_query(b"{\"bank\":{\"all_balances\":{\"address\":\"addrA\"}}}"),
        answer(b"{\"amount\":[]}")
    );
    ctx.bank.set_balance("addrA", "uscrt", 100);
    let querier = EnsembleQuerier::new(&ctx);
    assert_eq!(
        querier.raw_query(b"{\"bank\":{\"all_balances\":{\"address\":\"addrA\"}}}"),
        answer(b"{\"amount\":[{\"denom\":\"uscrt\",\"amount\":\"100\"}]}")
    );
    ctx.bank.set_balance("addrB", "uscrt", 1);
    ctx.bank.set_balance("addrA", "u\"x", u128::MAX);
    let querier = EnsembleQuerier::new(&ctx);
    assert_eq!(
        querier.raw_query(b"{\"bank\":{\"all_balances\":{\"address\":\"addrA\"}}}"),
        answer(
            b"{\"amount\":[{\"denom\":\"uscrt\",\"amount\":\"100\"},{\"denom\":\"u\\\"x\",\"amount\":\"340282366920938463463374607431768211455\"}]}"
        )
    );
}

#[test]
fn staking_without_validators_scenario() {
    let ctx: Context<TestContract> = Context::new();
    let querier = EnsembleQuerier::new(&ctx);
    assert_eq!(
        querier.raw_query(b"{\"staking\":{\"all_validators\":{}}}"),
        answer(b"{\"validators\":[]}")
    );
    assert_eq!(
        querier.raw_query(b"{\"staking\":{\"validator\":{\"address\":\"anyAddr\"}}}"),
        answer(b"{\"validator\":null}")
    );
    assert_eq!(
        querier.raw_query(b"{\"staking\":{\"all_delegations\":{\"delegator\":\"d\"}}}"),
        answer(b"{\"delegations\":[]}")
    );
    assert_eq!(
        querier.raw_query(b"{\"staking\":{\"delegation\":{\"delegator\":\"d\",\"validator\":\"v\"}}}"),
        answer(b"null")
    );
}

#[test]
fn staking_responses() {
    let mut ctx: Context<TestContract> = Context::new();
    assert!(ctx.staking.initialize("uscrt"));
    ctx.staking.add_validator(Validator {
        address: "val1".to_string(),
        commission: 100_000_000_000_000_000,
        max_commission: 1_000_000_000_000_000_000,
        max_change_rate: 1,
    });
    ctx.staking.add_validator(Validator {
        address: "val2".to_string(),
        commission: 0,
        max_commission: 1_500_000_000_000_000_000,
        max_change_rate: 123_456_000_000_000_000_000,
    });
    ctx.staking.add_validator(Validator {
        address: "val1".to_string(),
        commission: 5,
        max_commission: 5,
        max_change_rate: 5,
    });
    ctx.staking.add_delegation(Delegation {
        delegator: "d1".to_string(),
        validator: "val1".to_string(),
        amount: Coin { denom: "uscrt".to_string(), amount: 10 },
    });
    ctx.staking.add_delegation(Delegation {
        delegator: "d1".to_string(),
        validator: "val2".to_string(),
        amount: Coin { denom: "uscrt".to_string(), amount: 20 },
    });
    let querier = EnsembleQuerier::new(&ctx);
    let val1 = "{\"address\":\"val1\",\"commission\":\"0.1\",\"max_commission\":\"1\",\"max_change_rate\":\"0.000000000000000001\"}";
    let val2 = "{\"address\":\"val2\",\"commission\":\"0\",\"max_commission\":\"1.5\",\"max_change_rate\":\"123.456\"}";
    let val3 = "{\"address\":\"val1\",\"commission\":\"0.000000000000000005\",\"max_commission\":\"0.000000000000000005\",\"max_change_rate\":\"0.000000000000000005\"}";
    assert_eq!(
        querier.handle_query(&QueryRequest::StakingAllValidators),
        answer(format!("{{\"validators\":[{},{},{}]}}", val1, val2, val3).as_bytes())
    );
    assert_eq!(
        querier.handle_query(&QueryRequest::StakingValidator { addr: "val1".to_string() }),
        answer(format!("{{\"validator\":{}}}", val1).as_bytes())
    );
    assert_eq!(
        querier.handle_query(&QueryRequest::StakingBondedDenom),
        answer(b"{\"denom\":\"uscrt\"}")
    );
    let d1 = "{\"delegator\":\"d1\",\"validator\":\"val1\",\"amount\":{\"denom\":\"uscrt\",\"amount\":\"10\"}}";
    let d2 = "{\"delegator\":\"d1\",\"validator\":\"val2\",\"amount\":{\"denom\":\"uscrt\",\"amount\":\"20\"}}";
    assert_eq!(
        querier.handle_query(&QueryRequest::StakingAllDelegations { delegator: "d1".to_string() }),
        answer(format!("{{\"delegations\":[{},{}]}}", d1, d2).as_bytes())
    );
    assert_eq!(
        querier.handle_query(&QueryRequest::StakingDelegation {
            delegator: "d1".to_string(),
            validator: "val2".to_string(),
        }),
        answer(d2.as_bytes())
    );
}

#[test]
fn malformed_bytes_come_back_in_the_decode_error() {
    let ctx = context();
    let querier = EnsembleQuerier::new(&ctx);
    let cases: Vec<(&[u8], &str)> = vec![
        (b"\x00\x01garbage\xff", "Parsing query request: unknown request"),
        (b"", "Parsing query request: unknown request"),
        (b"{\"bank\":{\"balance\":{\"address\":\"addrA\"}}}", "Parsing query request: malformed envelope"),
        (b"{\"bank\":{\"balance\":{\"address\":addrA", "Parsing query request: invalid text"),
        (
            b"{\"wasm\":{\"smart\":{\"contract_addr\":\"echo\",\"msg\":\"!!!!\"}}}",
            "Parsing query request: invalid base64",
        ),
    ];
    for (bytes, message) in cases {
        assert_eq!(
            querier.raw_query(bytes),
            Err(TransportError::DecodeError { message: message.to_string(), request: bytes.to_vec() })
        );
    }
}

#[test]
fn other_requests_go_to_the_baseline_responder() {
    let ctx = context();
    let querier = EnsembleQuerier::new(&ctx);
    let expected: QuerierResult = Err(TransportError::Unsupported { kind: "custom".to_string() });
    assert_eq!(querier.raw_query(b"{\"custom\":{}}"), expected);
    assert_eq!(querier.handle_query(&QueryRequest::Other), expected);
}

#[test]
fn route_hands_messages_to_registered_contracts() {
    let ctx = context();
    let querier = EnsembleQuerier::new(&ctx);
    let smart = QueryRequest::WasmSmart { addr: "echo".to_string(), msg: b"m".to_vec() };
    match querier.route(&smart) {
        Route::Contract { addr, msg } => {
            assert_eq!(addr, "echo");
            assert_eq!(msg, b"m");
        },
        _ => panic!("a message to a registered contract goes to the contract"),
    }
    let unknown = QueryRequest::WasmSmart { addr: "nowhere".to_string(), msg: b"m".to_vec() };
    match querier.route(&unknown) {
        Route::Done(res) => {
            assert_eq!(res, Err(TransportError::UnknownContract { address: "nowhere".to_string() }))
        },
        _ => panic!("no contract, no call"),
    }
    match querier.route(&QueryRequest::Other) {
        Route::Forward => {},
        _ => panic!("a request of another kind goes to the baseline responder"),
    }
    let balance = QueryRequest::BankBalance { addr: "addrA".to_string(), denom: "uatom".to_string() };
    match querier.route(&balance) {
        Route::Done(res) => {
            assert_eq!(res, answer(b"{\"amount\":{\"denom\":\"uatom\",\"amount\":\"3\"}}"))
        },
        _ => panic!("the bank answers from the ledger"),
    }
}

#[test]
fn bonded_denom_is_accepted_after_genesis_only() {
    let mut ctx: Context<TestContract> = Context::new();
    {
        let querier = EnsembleQuerier::new(&ctx);
        assert!(!querier.accepts(&QueryRequest::StakingBondedDenom));
        assert!(querier.accepts(&QueryRequest::StakingAllValidators));
        assert!(querier.accepts(&QueryRequest::Other));
        assert!(querier.accepts(&QueryRequest::WasmRaw { addr: "x".to_string(), key: vec![] }));
    }
    assert!(ctx.staking.initialize("uatom"));
    let querier = EnsembleQuerier::new(&ctx);
    assert!(querier.accepts(&QueryRequest::StakingBondedDenom));
    assert_eq!(
        querier.raw_query(b"{\"staking\":{\"bonded_denom\":{}}}"),
        answer(b"{\"denom\":\"uatom\"}")
    );
}

#[test]
fn results_are_built_from_outcomes_and_failures() {
    assert_eq!(application_result(Ok(b"x".to_vec())), answer(b"x"));
    assert_eq!(application_result(Err("cause".to_string())), Ok(Err("cause".to_string())));
    let kinds = [
        (DecodeFailure::UnknownRequest, "Parsing query request: unknown request"),
        (DecodeFailure::InvalidText, "Parsing query request: invalid text"),
        (DecodeFailure::InvalidBinary, "Parsing query request: invalid base64"),
        (DecodeFailure::Malformed, "Parsing query request: malformed envelope"),
    ];
    for (failure, message) in kinds {
        assert_eq!(
            decode_error(failure, b"\x00\xffraw"),
            Err(TransportError::DecodeError {
                message: message.to_string(),
                request: b"\x00\xffraw".to_vec(),
            })
        );
    }
    assert_eq!(
        BaselineQuerier::new().handle_query(&QueryRequest::Other),
        Err(TransportError::Unsupported { kind: "custom".to_string() })
    );
}

#[test]
fn storage_reads_are_refused() {
    let mut registry: ContractRegistry<TestContract> = ContractRegistry::new();
    assert!(registry.register("echo", TestContract::Echo));
    assert_eq!(registry.raw_query("echo", b"key"), Err(Unsupported { kind: "raw".to_string() }));
    assert_eq!(registry.raw_query("echo", b""), Err(Unsupported { kind: "raw".to_string() }));
}

#[test]
fn registry_query_reaches_the_contract() {
    let ctx = context();
    let querier = EnsembleQuerier::new(&ctx);
    assert_eq!(ctx.contracts.query("echo", b"hello", &querier), Ok(b"hello".to_vec()));
    assert_eq!(ctx.contracts.query("fail", b"hello", &querier), Err("Generic error: boom".to_string()));
    assert_eq!(
        ctx.contracts.query("bank", b"addrA", &querier),
        Ok(b"{\"amount\":{\"denom\":\"uscrt\",\"amount\":\"100\"}}".to_vec())
    );
}

#[test]
fn try_query_returns_none_before_genesis_only() {
    let mut ctx: Context<TestContract> = Context::new();
    ctx.bank.set_balance("addrA", "uscrt", 1);
    {
        let querier = EnsembleQuerier::new(&ctx);
        assert_eq!(querier.try_raw_query(b"{\"staking\":{\"bonded_denom\":{}}}"), None);
        assert_eq!(querier.try_handle_query(&QueryRequest::StakingBondedDenom), None);
        assert_eq!(
            querier.try_raw_query(b"{\"bank\":{\"all_balances\":{\"address\":\"addrA\"}}}"),
            Some(answer(b"{\"amount\":[{\"denom\":\"uscrt\",\"amount\":\"1\"}]}"))
        );
        assert_eq!(
            querier.try_raw_query(b"bonded_denom"),
            Some(Err(TransportError::DecodeError {
                message: "Parsing query request: unknown request".to_string(),
                request: b"bonded_denom".to_vec(),
            }))
        );
        assert_eq!(
            querier.try_handle_query(&QueryRequest::StakingAllValidators),
            Some(answer(b"{\"validators\":[]}"))
        );
    }
    assert!(ctx.staking.initialize("uscrt"));
    let querier = EnsembleQuerier::new(&ctx);
    assert_eq!(
        querier.try_raw_query(b"{\"staking\":{\"bonded_denom\":{}}}"),
        Some(answer(b"{\"denom\":\"uscrt\"}"))
    );
    assert_eq!(
        querier.try_handle_query(&QueryRequest::StakingBondedDenom),
        Some(answer(b"{\"denom\":\"uscrt\"}"))
    );
}
