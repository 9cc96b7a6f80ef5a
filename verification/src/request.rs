//! Query requests and their envelopes: the bytes in which a request travels,
//! and how such bytes are read back into a request.

use vstd::prelude::*;
use vstd::string::*;
use vstd::utf8::is_ascii_chars;
use crate::base64::{
    decode_binary, encode_binary, lemma_decode_encode_binary, parse_binary, push_binary,
};
use crate::bytes::{ascii, at, lemma_at_concat, lemma_at_index, push_lit, skip_lit};
use crate::text::{decode_text, encode_text, lemma_decode_encode_text, parse_text, push_text};

verus! {

/// A query that a contract may put to the chain.
#[derive(Debug, Clone, PartialEq, Eq)]
pub enum QueryRequest {
    /// A message for the query entry point of the contract at `addr`.
    WasmSmart { addr: String, msg: Vec<u8> },
    /// A read of the storage of the contract at `addr`.
    WasmRaw { addr: String, key: Vec<u8> },
    /// Every balance that `addr` holds.
    BankAllBalances { addr: String },
    /// The balance that `addr` holds in `denom`.
    BankBalance { addr: String, denom: String },
    /// Every delegation that `delegator` has made.
    StakingAllDelegations { delegator: String },
    /// The denomination that can be bonded.
    StakingBondedDenom,
    /// The delegation of `delegator` to `validator`.
    StakingDelegation { delegator: String, validator: String },
    /// Every validator.
    StakingAllValidators,
    /// The validator at `addr`.
    StakingValidator { addr: String },
    /// A query of a kind that only the baseline responder knows.
    Other,
}

/// A query request as a mathematical value.
pub enum RequestView {
    WasmSmart { addr: Seq<char>, msg: Seq<u8> },
    WasmRaw { addr: Seq<char>, key: Seq<u8> },
    BankAllBalances { addr: Seq<char> },
    BankBalance { addr: Seq<char>, denom: Seq<char> },
    StakingAllDelegations { delegator: Seq<char> },
    StakingBondedDenom,
    StakingDelegation { delegator: Seq<char>, validator: Seq<char> },
    StakingAllValidators,
    StakingValidator { addr: Seq<char> },
    Other,
}

impl View for QueryRequest {
    type V = RequestView;

    open spec fn view(&self) -> RequestView {
        match self {
            QueryRequest::WasmSmart { addr, msg } => RequestView::WasmSmart {
                addr: addr@,
                msg: msg@,
            },
            QueryRequest::WasmRaw { addr, key } => RequestView::WasmRaw { addr: addr@, key: key@ },
            QueryRequest::BankAllBalances { addr } => RequestView::BankAllBalances { addr: addr@ },
            QueryRequest::BankBalance { addr, denom } => RequestView::BankBalance {
                addr: addr@,
                denom: denom@,
            },
            QueryRequest::StakingAllDelegations { delegator } => RequestView::StakingAllDelegations {
                delegator: delegator@,
            },
            QueryRequest::StakingBondedDenom => RequestView::StakingBondedDenom,
            QueryRequest::StakingDelegation { delegator, validator } => RequestView::StakingDelegation {
                delegator: delegator@,
                validator: validator@,
            },
            QueryRequest::StakingAllValidators => RequestView::StakingAllValidators,
            QueryRequest::StakingValidator { addr } => RequestView::StakingValidator { addr: addr@ },
            QueryRequest::Other => RequestView::Other,
        }
    }
}

/// Why a byte string is no envelope of a request.
#[derive(Debug, Clone, Copy, PartialEq, Eq, Structural)]
pub enum DecodeFailure {
    /// The bytes start like no envelope that is known.
    UnknownRequest,
    /// A text field is no text literal.
    InvalidText,
    /// A binary field is no base64 literal.
    InvalidBinary,
    /// What stands between or behind the fields is not what the envelope asks for.
    Malformed,
}

/// How the envelope of a message to a contract starts, up to the address.
pub open spec fn smart_head() -> Seq<char> {
    "{\"wasm\":{\"smart\":{\"contract_addr\":"@
}

/// How the envelope of a storage read starts, up to the address.
pub open spec fn raw_head() -> Seq<char> {
    "{\"wasm\":{\"raw\":{\"contract_addr\":"@
}

/// How the envelope of a query for all balances starts, up to the address.
pub open spec fn all_balances_head() -> Seq<char> {
    "{\"bank\":{\"all_balances\":{\"address\":"@
}

/// How the envelope of a query for one balance starts, up to the address.
pub open spec fn balance_head() -> Seq<char> {
    "{\"bank\":{\"balance\":{\"address\":"@
}

/// How the envelope of a query for all delegations starts, up to the
/// delegator.
pub open spec fn all_delegations_head() -> Seq<char> {
    "{\"staking\":{\"all_delegations\":{\"delegator\":"@
}

/// The envelope of a query for the bonded denomination.
pub open spec fn bonded_denom_envelope() -> Seq<char> {
    "{\"staking\":{\"bonded_denom\":{}}}"@
}

/// How the envelope of a query for one delegation starts, up to the
/// delegator.
pub open spec fn delegation_head() -> Seq<char> {
    "{\"staking\":{\"delegation\":{\"delegator\":"@
}

/// The envelope of a query for all validators.
pub open spec fn all_validators_envelope() -> Seq<char> {
    "{\"staking\":{\"all_validators\":{}}}"@
}

/// How the envelope of a query for one validator starts, up to the address.
pub open spec fn validator_head() -> Seq<char> {
    "{\"staking\":{\"validator\":{\"address\":"@
}

/// The envelope of a custom query without content, the one kind of request
/// that the router leaves to the baseline responder.
pub open spec fn custom_envelope() -> Seq<char> {
    "{\"custom\":{}}"@
}

/// What stands between the address and the message.
pub open spec fn msg_separator() -> Seq<char> {
    ",\"msg\":"@
}

/// What stands between the address and the storage key.
pub open spec fn key_separator() -> Seq<char> {
    ",\"key\":"@
}

/// What stands between the address and the denomination.
pub open spec fn denom_separator() -> Seq<char> {
    ",\"denom\":"@
}

/// What stands between the delegator and the validator.
pub open spec fn validator_separator() -> Seq<char> {
    ",\"validator\":"@
}

/// The three braces that close an envelope with fields.
pub open spec fn tail() -> Seq<char> {
    "}}}"@
}

/// The envelope of a request.
pub open spec fn spec_encode(request: RequestView) -> Seq<u8> {
    match request {
        RequestView::WasmSmart { addr, msg } => ascii(smart_head()) + encode_text(addr) + ascii(
            msg_separator(),
        ) + encode_binary(msg) + ascii(tail()),
        RequestView::WasmRaw { addr, key } => ascii(raw_head()) + encode_text(addr) + ascii(
            key_separator(),
        ) + encode_binary(key) + ascii(tail()),
        RequestView::BankAllBalances { addr } => ascii(all_balances_head()) + encode_text(addr)
            + ascii(tail()),
        RequestView::BankBalance { addr, denom } => ascii(balance_head()) + encode_text(addr)
            + ascii(denom_separator()) + encode_text(denom) + ascii(tail()),
        RequestView::StakingAllDelegations { delegator } => ascii(all_delegations_head())
            + encode_text(delegator) + ascii(tail()),
        RequestView::StakingBondedDenom => ascii(bonded_denom_envelope()),
        RequestView::StakingDelegation { delegator, validator } => ascii(delegation_head())
            + encode_text(delegator) + ascii(validator_separator()) + encode_text(validator)
            + ascii(tail()),
        RequestView::StakingAllValidators => ascii(all_validators_envelope()),
        RequestView::StakingValidator { addr } => ascii(validator_head()) + encode_text(addr)
            + ascii(tail()),
        RequestView::Other => ascii(custom_envelope()),
    }
}

/// The closing braces stand at `pos`, and `b` ends with them.
pub open spec fn closes(b: Seq<u8>, pos: int) -> bool {
    at(b, pos, ascii(tail())) && pos + tail().len() == b.len()
}

/// `b` is the whole of an envelope without fields.
pub open spec fn is_whole(b: Seq<u8>, envelope: Seq<char>) -> bool {
    at(b, 0, ascii(envelope)) && b.len() == envelope.len()
}

/// Reads the one text field of an envelope, which starts at `pos`, and the
/// closing braces behind it.
pub open spec fn decode_one_text(b: Seq<u8>, pos: int) -> Result<Seq<char>, DecodeFailure> {
    match decode_text(b, pos) {
        None => Err(DecodeFailure::InvalidText),
        Some((t, end)) => if closes(b, end) {
            Ok(t)
        } else {
            Err(DecodeFailure::Malformed)
        },
    }
}

/// Reads the two text fields of an envelope, the first of which starts at
/// `pos`, with the separator between them and the closing braces behind.
pub open spec fn decode_two_texts(b: Seq<u8>, pos: int, separator: Seq<char>) -> Result<
    (Seq<char>, Seq<char>),
    DecodeFailure,
> {
    match decode_text(b, pos) {
        None => Err(DecodeFailure::InvalidText),
        Some((first, mid)) => if at(b, mid, ascii(separator)) {
            match decode_one_text(b, mid + separator.len()) {
                Ok(second) => Ok((first, second)),
                Err(e) => Err(e),
            }
        } else {
            Err(DecodeFailure::Malformed)
        },
    }
}

/// Reads a text field, which starts at `pos`, and the binary field behind the
/// separator, with the closing braces behind.
pub open spec fn decode_text_binary(b: Seq<u8>, pos: int, separator: Seq<char>) -> Result<
    (Seq<char>, Seq<u8>),
    DecodeFailure,
> {
    match decode_text(b, pos) {
        None => Err(DecodeFailure::InvalidText),
        Some((first, mid)) => if at(b, mid, ascii(separator)) {
            match decode_binary(b, mid + separator.len()) {
                None => Err(DecodeFailure::InvalidBinary),
                Some((data, end)) => if closes(b, end) {
                    Ok((first, data))
                } else {
                    Err(DecodeFailure::Malformed)
                },
            }
        } else {
            Err(DecodeFailure::Malformed)
        },
    }
}

/// Reads an envelope of the wasm family; `None` where `b` starts like none.
pub open spec fn decode_wasm(b: Seq<u8>) -> Option<Result<RequestView, DecodeFailure>> {
    if at(b, 0, ascii(smart_head())) {
        Some(
            match decode_text_binary(b, smart_head().len() as int, msg_separator()) {
                Ok((addr, msg)) => Ok(RequestView::WasmSmart { addr, msg }),
                Err(e) => Err(e),
            },
        )
    } else if at(b, 0, ascii(raw_head())) {
        Some(
            match decode_text_binary(b, raw_head().len() as int, key_separator()) {
                Ok((addr, key)) => Ok(RequestView::WasmRaw { addr, key }),
                Err(e) => Err(e),
            },
        )
    } else {
        None
    }
}

/// Reads an envelope of the bank family; `None` where `b` starts like none.
pub open spec fn decode_bank(b: Seq<u8>) -> Option<Result<RequestView, DecodeFailure>> {
    if at(b, 0, ascii(all_balances_head())) {
        Some(
            match decode_one_text(b, all_balances_head().len() as int) {
                Ok(addr) => Ok(RequestView::BankAllBalances { addr }),
                Err(e) => Err(e),
            },
        )
    } else if at(b, 0, ascii(balance_head())) {
        Some(
            match decode_two_texts(b, balance_head().len() as int, denom_separator()) {
                Ok((addr, denom)) => Ok(RequestView::BankBalance { addr, denom }),
                Err(e) => Err(e),
            },
        )
    } else {
        None
    }
}

/// Reads an envelope of the staking family that has fields; `None` where `b`
/// starts like none.
pub open spec fn decode_staking(b: Seq<u8>) -> Option<Result<RequestView, DecodeFailure>> {
    if at(b, 0, ascii(all_delegations_head())) {
        Some(
            match decode_one_text(b, all_delegations_head().len() as int) {
                Ok(delegator) => Ok(RequestView::StakingAllDelegations { delegator }),
                Err(e) => Err(e),
            },
        )
    } else if at(b, 0, ascii(delegation_head())) {
        Some(
            match decode_two_texts(b, delegation_head().len() as int, validator_separator()) {
                Ok((delegator, validator)) => Ok(
                    RequestView::StakingDelegation { delegator, validator },
                ),
                Err(e) => Err(e),
            },
        )
    } else if at(b, 0, ascii(validator_head())) {
        Some(
            match decode_one_text(b, validator_head().len() as int) {
                Ok(addr) => Ok(RequestView::StakingValidator { addr }),
                Err(e) => Err(e),
            },
        )
    } else {
        None
    }
}

/// Reads an envelope without fields; `None` where `b` is none.
pub open spec fn decode_plain(b: Seq<u8>) -> Option<RequestView> {
    if is_whole(b, bonded_denom_envelope()) {
        Some(RequestView::StakingBondedDenom)
    } else if is_whole(b, all_validators_envelope()) {
        Some(RequestView::StakingAllValidators)
    } else if is_whole(b, custom_envelope()) {
        Some(RequestView::Other)
    } else {
        None
    }
}

/// Reads an envelope: the request that it holds, or why it holds none. The
/// envelope must be written without white space, with its fields in the order
/// in which `spec_encode` writes them.
pub open spec fn spec_decode(b: Seq<u8>) -> Result<RequestView, DecodeFailure> {
    if let Some(found) = decode_wasm(b) {
        found
    } else if let Some(found) = decode_bank(b) {
        found
    } else if let Some(found) = decode_staking(b) {
        found
    } else if let Some(request) = decode_plain(b) {
        Ok(request)
    } else {
        Err(DecodeFailure::UnknownRequest)
    }
}

/// Every literal of an envelope is made of ASCII characters.
proof fn lemma_literals()
    ensures
        is_ascii_chars(smart_head()),
        is_ascii_chars(raw_head()),
        is_ascii_chars(all_balances_head()),
        is_ascii_chars(balance_head()),
        is_ascii_chars(all_delegations_head()),
        is_ascii_chars(bonded_denom_envelope()),
        is_ascii_chars(delegation_head()),
        is_ascii_chars(all_validators_envelope()),
        is_ascii_chars(validator_head()),
        is_ascii_chars(custom_envelope()),
        is_ascii_chars(msg_separator()),
        is_ascii_chars(key_separator()),
        is_ascii_chars(denom_separator()),
        is_ascii_chars(validator_separator()),
        is_ascii_chars(tail()),
        tail().len() == 3,
{
    reveal_strlit("{\"wasm\":{\"smart\":{\"contract_addr\":");
    reveal_strlit("{\"wasm\":{\"raw\":{\"contract_addr\":");
    reveal_strlit("{\"bank\":{\"all_balances\":{\"address\":");
    reveal_strlit("{\"bank\":{\"balance\":{\"address\":");
    reveal_strlit("{\"staking\":{\"all_delegations\":{\"delegator\":");
    reveal_strlit("{\"staking\":{\"bonded_denom\":{}}}");
    reveal_strlit("{\"staking\":{\"delegation\":{\"delegator\":");
    reveal_strlit("{\"staking\":{\"all_validators\":{}}}");
    reveal_strlit("{\"staking\":{\"validator\":{\"address\":");
    reveal_strlit("{\"custom\":{}}");
    reveal_strlit(",\"msg\":");
    reveal_strlit(",\"key\":");
    reveal_strlit(",\"denom\":");
    reveal_strlit(",\"validator\":");
    reveal_strlit("}}}");
}

impl QueryRequest {
    /// Writes the envelope of the request.
    pub fn encode(&self) -> (out: Vec<u8>)
        ensures
            out@ == spec_encode(self@),
    {
        proof {
            lemma_literals();
        }
        let mut out: Vec<u8> = Vec::new();
        match self {
            QueryRequest::WasmSmart { addr, msg } => {
                push_lit(&mut out, "{\"wasm\":{\"smart\":{\"contract_addr\":");
                push_text(&mut out, addr.as_str());
                push_lit(&mut out, ",\"msg\":");
                push_binary(&mut out, msg.as_slice());
                push_lit(&mut out, "}}}");
            },
            QueryRequest::WasmRaw { addr, key } => {
                push_lit(&mut out, "{\"wasm\":{\"raw\":{\"contract_addr\":");
                push_text(&mut out, addr.as_str());
                push_lit(&mut out, ",\"key\":");
                push_binary(&mut out, key.as_slice());
                push_lit(&mut out, "}}}");
            },
            QueryRequest::BankAllBalances { addr } => {
                push_lit(&mut out, "{\"bank\":{\"all_balances\":{\"address\":");
                push_text(&mut out, addr.as_str());
                push_lit(&mut out, "}}}");
            },
            QueryRequest::BankBalance { addr, denom } => {
                push_lit(&mut out, "{\"bank\":{\"balance\":{\"address\":");
                push_text(&mut out, addr.as_str());
                push_lit(&mut out, ",\"denom\":");
                push_text(&mut out, denom.as_str());
                push_lit(&mut out, "}}}");
            },
            QueryRequest::StakingAllDelegations { delegator } => {
                push_lit(&mut out, "{\"staking\":{\"all_delegations\":{\"delegator\":");
                push_text(&mut out, delegator.as_str());
                push_lit(&mut out, "}}}");
            },
            QueryRequest::StakingBondedDenom => {
                push_lit(&mut out, "{\"staking\":{\"bonded_denom\":{}}}");
            },
            QueryRequest::StakingDelegation { delegator, validator } => {
                push_lit(&mut out, "{\"staking\":{\"delegation\":{\"delegator\":");
                push_text(&mut out, delegator.as_str());
                push_lit(&mut out, ",\"validator\":");
                push_text(&mut out, validator.as_str());
                push_lit(&mut out, "}}}");
            },
            QueryRequest::StakingAllValidators => {
                push_lit(&mut out, "{\"staking\":{\"all_validators\":{}}}");
            },
            QueryRequest::StakingValidator { addr } => {
                push_lit(&mut out, "{\"staking\":{\"validator\":{\"address\":");
                push_text(&mut out, addr.as_str());
                push_lit(&mut out, "}}}");
            },
            QueryRequest::Other => {
                push_lit(&mut out, "{\"custom\":{}}");
            },
        }
        assert(out@ =~= spec_encode(self@));
        out
    }

    /// Reads an envelope.
    pub fn decode(b: &[u8]) -> (found: Result<QueryRequest, DecodeFailure>)
        ensures
            match spec_decode(b@) {
                Ok(request) => found matches Ok(r) && r@ == request,
                Err(e) => found matches Err(f) && f == e,
            },
    {
        if let Some(found) = parse_wasm(b) {
            return found;
        }
        if let Some(found) = parse_bank(b) {
            return found;
        }
        if let Some(found) = parse_staking(b) {
            return found;
        }
        match parse_plain(b) {
            Some(request) => Ok(request),
            None => Err(DecodeFailure::UnknownRequest),
        }
    }
}

/// What an executable reader found, against what the envelope holds.
pub open spec fn same_found(
    found: Option<Result<QueryRequest, DecodeFailure>>,
    held: Option<Result<RequestView, DecodeFailure>>,
) -> bool {
    match held {
        Some(Ok(request)) => found matches Some(Ok(r)) && r@ == request,
        Some(Err(e)) => found matches Some(Err(f)) && f == e,
        None => found is None,
    }
}

fn parse_wasm(b: &[u8]) -> (found: Option<Result<QueryRequest, DecodeFailure>>)
    ensures
        same_found(found, decode_wasm(b@)),
{
    proof {
        lemma_literals();
    }
    if let Some(pos) = skip_lit(b, 0, "{\"wasm\":{\"smart\":{\"contract_addr\":") {
        return Some(
            match parse_text_binary(b, pos, ",\"msg\":") {
                Ok((addr, msg)) => Ok(QueryRequest::WasmSmart { addr, msg }),
                Err(e) => Err(e),
            },
        );
    }
    if let Some(pos) = skip_lit(b, 0, "{\"wasm\":{\"raw\":{\"contract_addr\":") {
        return Some(
            match parse_text_binary(b, pos, ",\"key\":") {
                Ok((addr, key)) => Ok(QueryRequest::WasmRaw { addr, key }),
                Err(e) => Err(e),
            },
        );
    }
    None
}

fn parse_bank(b: &[u8]) -> (found: Option<Result<QueryRequest, DecodeFailure>>)
    ensures
        same_found(found, decode_bank(b@)),
{
    proof {
        lemma_literals();
    }
    if let Some(pos) = skip_lit(b, 0, "{\"bank\":{\"all_balances\":{\"address\":") {
        return Some(
            match parse_one_text(b, pos) {
                Ok(addr) => Ok(QueryRequest::BankAllBalances { addr }),
                Err(e) => Err(e),
            },
        );
    }
    if let Some(pos) = skip_lit(b, 0, "{\"bank\":{\"balance\":{\"address\":") {
        return Some(
            match parse_two_texts(b, pos, ",\"denom\":") {
                Ok((addr, denom)) => Ok(QueryRequest::BankBalance { addr, denom }),
                Err(e) => Err(e),
            },
        );
    }
    None
}

fn parse_staking(b: &[u8]) -> (found: Option<Result<QueryRequest, DecodeFailure>>)
    ensures
        same_found(found, decode_staking(b@)),
{
    proof {
        lemma_literals();
    }
    if let Some(pos) = skip_lit(b, 0, "{\"staking\":{\"all_delegations\":{\"delegator\":") {
        return Some(
            match parse_one_text(b, pos) {
                Ok(delegator) => Ok(QueryRequest::StakingAllDelegations { delegator }),
                Err(e) => Err(e),
            },
        );
    }
    if let Some(pos) = skip_lit(b, 0, "{\"staking\":{\"delegation\":{\"delegator\":") {
        return Some(
            match parse_two_texts(b, pos, ",\"validator\":") {
                Ok((delegator, validator)) => Ok(
                    QueryRequest::StakingDelegation { delegator, validator },
                ),
                Err(e) => Err(e),
            },
        );
    }
    if let Some(pos) = skip_lit(b, 0, "{\"staking\":{\"validator\":{\"address\":") {
        return Some(
            match parse_one_text(b, pos) {
                Ok(addr) => Ok(QueryRequest::StakingValidator { addr }),
                Err(e) => Err(e),
            },
        );
    }
    None
}

/// Tells whether `b` is the whole of an envelope without fields.
fn is_envelope(b: &[u8], envelope: &str) -> (whole: bool)
    requires
        is_ascii(envelope),
    ensures
        whole == is_whole(b@, envelope@),
{
    match skip_lit(b, 0, envelope) {
        Some(end) => end == b.len(),
        None => false,
    }
}

fn parse_plain(b: &[u8]) -> (found: Option<QueryRequest>)
    ensures
        match decode_plain(b@) {
            Some(request) => found matches Some(r) && r@ == request,
            None => found is None,
        },
{
    proof {
        lemma_literals();
    }
    if is_envelope(b, "{\"staking\":{\"bonded_denom\":{}}}") {
        Some(QueryRequest::StakingBondedDenom)
    } else if is_envelope(b, "{\"staking\":{\"all_validators\":{}}}") {
        Some(QueryRequest::StakingAllValidators)
    } else if is_envelope(b, "{\"custom\":{}}") {
        Some(QueryRequest::Other)
    } else {
        None
    }
}

/// How many of the ten envelopes `b` starts like.
pub open spec fn heads_found(b: Seq<u8>) -> int {
    (if at(b, 0, ascii(smart_head())) { 1int } else { 0 })
    + (if at(b, 0, ascii(raw_head())) { 1int } else { 0 })
    + (if at(b, 0, ascii(all_balances_head())) { 1int } else { 0 })
    + (if at(b, 0, ascii(balance_head())) { 1int } else { 0 })
    + (if at(b, 0, ascii(all_delegations_head())) { 1int } else { 0 })
    + (if at(b, 0, ascii(bonded_denom_envelope())) { 1int } else { 0 })
    + (if at(b, 0, ascii(delegation_head())) { 1int } else { 0 })
    + (if at(b, 0, ascii(all_validators_envelope())) { 1int } else { 0 })
    + (if at(b, 0, ascii(validator_head())) { 1int } else { 0 })
    + (if at(b, 0, ascii(custom_envelope())) { 1int } else { 0 })
}

proof fn lemma_signature(b: Seq<u8>, head: Seq<u8>)
    requires
        head.len() >= 13,
    ensures
        at(b, 0, head) ==> b[2] == head[2] && b[10] == head[10] && (head.len() > 17 ==> b[13]
            == head[13] && b[17] == head[17]),
{
    if at(b, 0, head) {
        lemma_at_index(b, 0, head, 2);
        lemma_at_index(b, 0, head, 10);
        if head.len() > 17 {
            lemma_at_index(b, 0, head, 13);
            lemma_at_index(b, 0, head, 17);
        }
    }
}

/// No byte string starts like two different envelopes.
pub proof fn lemma_one_head(b: Seq<u8>)
    ensures
        heads_found(b) <= 1,
{
    reveal_strlit("{\"wasm\":{\"smart\":{\"contract_addr\":");
    reveal_strlit("{\"wasm\":{\"raw\":{\"contract_addr\":");
    reveal_strlit("{\"bank\":{\"all_balances\":{\"address\":");
    reveal_strlit("{\"bank\":{\"balance\":{\"address\":");
    reveal_strlit("{\"staking\":{\"all_delegations\":{\"delegator\":");
    reveal_strlit("{\"staking\":{\"bonded_denom\":{}}}");
    reveal_strlit("{\"staking\":{\"delegation\":{\"delegator\":");
    reveal_strlit("{\"staking\":{\"all_validators\":{}}}");
    reveal_strlit("{\"staking\":{\"validator\":{\"address\":");
    reveal_strlit("{\"custom\":{}}");
    lemma_signature(b, ascii(smart_head()));
    lemma_signature(b, ascii(raw_head()));
    lemma_signature(b, ascii(all_balances_head()));
    lemma_signature(b, ascii(balance_head()));
    lemma_signature(b, ascii(all_delegations_head()));
    lemma_signature(b, ascii(bonded_denom_envelope()));
    lemma_signature(b, ascii(delegation_head()));
    lemma_signature(b, ascii(all_validators_envelope()));
    lemma_signature(b, ascii(validator_head()));
    lemma_signature(b, ascii(custom_envelope()));
}

proof fn lemma_one_text(b: Seq<u8>, pre: Seq<u8>, t: Seq<char>)
    requires
        b == pre + encode_text(t) + ascii(tail()),
    ensures
        decode_one_text(b, pre.len() as int) == Ok::<Seq<char>, DecodeFailure>(t),
{
    let lit = encode_text(t);
    let z = ascii(tail());
    lemma_at_concat(pre, lit, z);
    lemma_decode_encode_text(b, pre.len() as int, t);
    assert(b =~= (pre + lit) + z + Seq::empty());
    lemma_at_concat(pre + lit, z, Seq::empty());
}

proof fn lemma_two_texts(
    b: Seq<u8>,
    head: Seq<char>,
    first: Seq<char>,
    separator: Seq<char>,
    second: Seq<char>,
)
    requires
        b == ascii(head) + encode_text(first) + ascii(separator) + encode_text(second) + ascii(
            tail(),
        ),
    ensures
        at(b, 0, ascii(head)),
        decode_two_texts(b, head.len() as int, separator) == Ok::<
            (Seq<char>, Seq<char>),
            DecodeFailure,
        >((first, second)),
{
    let h = ascii(head);
    let t1 = encode_text(first);
    let s = ascii(separator);
    let rest = encode_text(second) + ascii(tail());
    assert(b =~= Seq::empty() + h + (t1 + s + rest));
    lemma_at_concat(Seq::empty(), h, t1 + s + rest);
    assert(b =~= h + t1 + (s + rest));
    lemma_at_concat(h, t1, s + rest);
    lemma_decode_encode_text(b, h.len() as int, first);
    assert(b =~= (h + t1) + s + rest);
    lemma_at_concat(h + t1, s, rest);
    lemma_one_text(b, h + t1 + s, second);
}

proof fn lemma_text_binary(
    b: Seq<u8>,
    head: Seq<char>,
    first: Seq<char>,
    separator: Seq<char>,
    data: Seq<u8>,
)
    requires
        b == ascii(head) + encode_text(first) + ascii(separator) + encode_binary(data) + ascii(
            tail(),
        ),
    ensures
        at(b, 0, ascii(head)),
        decode_text_binary(b, head.len() as int, separator) == Ok::<
            (Seq<char>, Seq<u8>),
            DecodeFailure,
        >((first, data)),
{
    let h = ascii(head);
    let t1 = encode_text(first);
    let s = ascii(separator);
    let lit = encode_binary(data);
    let z = ascii(tail());
    assert(b =~= Seq::empty() + h + (t1 + s + lit + z));
    lemma_at_concat(Seq::empty(), h, t1 + s + lit + z);
    assert(b =~= h + t1 + (s + lit + z));
    lemma_at_concat(h, t1, s + lit + z);
    lemma_decode_encode_text(b, h.len() as int, first);
    assert(b =~= (h + t1) + s + (lit + z));
    lemma_at_concat(h + t1, s, lit + z);
    lemma_at_concat(h + t1 + s, lit, z);
    lemma_decode_encode_binary(b, (h + t1 + s).len() as int, data);
    assert(b =~= (h + t1 + s + lit) + z + Seq::empty());
    lemma_at_concat(h + t1 + s + lit, z, Seq::empty());
}

proof fn lemma_head_one_text(b: Seq<u8>, head: Seq<char>, t: Seq<char>)
    requires
        b == ascii(head) + encode_text(t) + ascii(tail()),
    ensures
        at(b, 0, ascii(head)),
        decode_one_text(b, head.len() as int) == Ok::<Seq<char>, DecodeFailure>(t),
{
    let h = ascii(head);
    let rest = encode_text(t) + ascii(tail());
    assert(b =~= Seq::empty() + h + rest);
    lemma_at_concat(Seq::empty(), h, rest);
    lemma_one_text(b, h, t);
}

proof fn lemma_whole(envelope: Seq<char>)
    ensures
        is_whole(ascii(envelope), envelope),
{
    let b = ascii(envelope);
    assert(b.subrange(0, b.len() as int) =~= b);
}

/// Reading the envelope of a request gives the request back.
pub proof fn lemma_decode_encode(request: RequestView)
    ensures
        spec_decode(spec_encode(request)) == Ok::<RequestView, DecodeFailure>(request),
{
    let b = spec_encode(request);
    lemma_one_head(b);
    match request {
        RequestView::WasmSmart { addr, msg } => {
            lemma_text_binary(b, smart_head(), addr, msg_separator(), msg);
        },
        RequestView::WasmRaw { addr, key } => {
            lemma_text_binary(b, raw_head(), addr, key_separator(), key);
        },
        RequestView::BankAllBalances { addr } => {
            lemma_head_one_text(b, all_balances_head(), addr);
        },
        RequestView::BankBalance { addr, denom } => {
            lemma_two_texts(b, balance_head(), addr, denom_separator(), denom);
        },
        RequestView::StakingAllDelegations { delegator } => {
            lemma_head_one_text(b, all_delegations_head(), delegator);
        },
        RequestView::StakingBondedDenom => {
            lemma_whole(bonded_denom_envelope());
        },
        RequestView::StakingDelegation { delegator, validator } => {
            lemma_two_texts(b, delegation_head(), delegator, validator_separator(), validator);
        },
        RequestView::StakingAllValidators => {
            lemma_whole(all_validators_envelope());
        },
        RequestView::StakingValidator { addr } => {
            lemma_head_one_text(b, validator_head(), addr);
        },
        RequestView::Other => {
            lemma_whole(custom_envelope());
        },
    }
}

/// Two requests with the same envelope are the same request.
pub proof fn lemma_encode_injective(first: RequestView, second: RequestView)
    requires
        spec_encode(first) == spec_encode(second),
    ensures
        first == second,
{
    lemma_decode_encode(first);
    lemma_decode_encode(second);
}

/// Tells whether the closing braces stand at `pos` and end `b`.
fn at_close(b: &[u8], pos: usize) -> (closed: bool)
    ensures
        closed == closes(b@, pos as int),
{
    proof {
        lemma_literals();
    }
    match skip_lit(b, pos, "}}}") {
        Some(end) => end == b.len(),
        None => false,
    }
}

fn parse_one_text(b: &[u8], pos: usize) -> (found: Result<String, DecodeFailure>)
    ensures
        match decode_one_text(b@, pos as int) {
            Ok(t) => found matches Ok(s) && s@ == t,
            Err(e) => found matches Err(f) && f == e,
        },
{
    match parse_text(b, pos) {
        None => Err(DecodeFailure::InvalidText),
        Some((t, end)) => if at_close(b, end) {
            Ok(t)
        } else {
            Err(DecodeFailure::Malformed)
        },
    }
}

fn parse_two_texts(b: &[u8], pos: usize, separator: &str) -> (found: Result<
    (String, String),
    DecodeFailure,
>)
    requires
        is_ascii(separator),
    ensures
        match decode_two_texts(b@, pos as int, separator@) {
            Ok((t1, t2)) => found matches Ok((s1, s2)) && s1@ == t1 && s2@ == t2,
            Err(e) => found matches Err(f) && f == e,
        },
{
    match parse_text(b, pos) {
        None => Err(DecodeFailure::InvalidText),
        Some((first, mid)) => match skip_lit(b, mid, separator) {
            None => Err(DecodeFailure::Malformed),
            Some(next) => match parse_one_text(b, next) {
                Ok(second) => Ok((first, second)),
                Err(e) => Err(e),
            },
        },
    }
}

fn parse_text_binary(b: &[u8], pos: usize, separator: &str) -> (found: Result<
    (String, Vec<u8>),
    DecodeFailure,
>)
    requires
        is_ascii(separator),
    ensures
        match decode_text_binary(b@, pos as int, separator@) {
            Ok((t, data)) => found matches Ok((s, v)) && s@ == t && v@ == data,
            Err(e) => found matches Err(f) && f == e,
        },
{
    match parse_text(b, pos) {
        None => Err(DecodeFailure::InvalidText),
        Some((first, mid)) => match skip_lit(b, mid, separator) {
            None => Err(DecodeFailure::Malformed),
            Some(next) => match parse_binary(b, next) {
                None => Err(DecodeFailure::InvalidBinary),
                Some((data, end)) => if at_close(b, end) {
                    Ok((first, data))
                } else {
                    Err(DecodeFailure::Malformed)
                },
            },
        },
    }
}

} // verus!
