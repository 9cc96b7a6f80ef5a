//! The query router: it reads the envelope of a request, answers the request
//! from the context, and writes the answer.

use vstd::prelude::*;
use vstd::slice::slice_to_vec;
use crate::bank::{amount_of, balances, coins_view, CoinView};
use crate::context::Context;
use crate::registry::{raw_kind, ContractHarness};
use crate::request::{spec_decode, DecodeFailure, QueryRequest, RequestView};
use crate::response::{
    all_balances_response, all_delegations_response, all_validators_response, balance_response,
    bonded_denom_response, delegation_response, encode_all_balances, encode_all_delegations,
    encode_all_validators, encode_balance, encode_bonded_denom, encode_delegation,
    encode_validator, validator_response,
};

verus! {

/// A failure of the transport: the query did not reach anything that could
/// answer it.
#[derive(Debug, Clone, PartialEq, Eq)]
pub enum TransportError {
    /// The bytes are no envelope of a request. `request` holds them as they
    /// came.
    DecodeError { message: String, request: Vec<u8> },
    /// No contract is registered at the address that a wasm query names.
    UnknownContract { address: String },
    /// The request is known, but this router cannot answer it.
    Unsupported { kind: String },
}

/// What a query returns: a failure of the transport, or the outcome that the
/// one who answered reports, which is the answer or the cause of a failure of
/// its own.
pub type QuerierResult = Result<Result<Vec<u8>, String>, TransportError>;

/// The message of a decode error.
pub open spec fn decode_message(failure: DecodeFailure) -> Seq<char> {
    match failure {
        DecodeFailure::UnknownRequest => "Parsing query request: unknown request"@,
        DecodeFailure::InvalidText => "Parsing query request: invalid text"@,
        DecodeFailure::InvalidBinary => "Parsing query request: invalid base64"@,
        DecodeFailure::Malformed => "Parsing query request: malformed envelope"@,
    }
}

/// The kind that the baseline responder names where it refuses a query.
pub open spec fn custom_kind() -> Seq<char> {
    "custom"@
}

/// `res` is the answer `bytes`.
pub open spec fn is_answer(res: QuerierResult, bytes: Seq<u8>) -> bool {
    res matches Ok(Ok(v)) && v@ == bytes
}

/// `res` is the decode error for `failure`, with the bytes `request`.
pub open spec fn is_decode_error(res: QuerierResult, failure: DecodeFailure, bytes: Seq<u8>)
    -> bool {
    res matches Err(TransportError::DecodeError { message, request }) && message@
        == decode_message(failure) && request@ == bytes
}

/// `res` says that no contract is registered at `addr`.
pub open spec fn is_unknown_contract(res: QuerierResult, addr: Seq<char>) -> bool {
    res matches Err(TransportError::UnknownContract { address }) && address@ == addr
}

/// `res` says that a request of the kind `name` is not supported.
pub open spec fn is_unsupported(res: QuerierResult, name: Seq<char>) -> bool {
    res matches Err(TransportError::Unsupported { kind }) && kind@ == name
}

/// The outcome that a contract reports, as the result of the query: the
/// transport has done its part, whatever the outcome is.
pub fn application_result(outcome: Result<Vec<u8>, String>) -> (res: QuerierResult)
    ensures
        res == Ok::<Result<Vec<u8>, String>, TransportError>(outcome),
{
    Ok(outcome)
}

/// The decode error for bytes that are no envelope.
pub fn decode_error(failure: DecodeFailure, bin_request: &[u8]) -> (res: QuerierResult)
    ensures
        is_decode_error(res, failure, bin_request@),
{
    let message = match failure {
        DecodeFailure::UnknownRequest => "Parsing query request: unknown request".to_owned(),
        DecodeFailure::InvalidText => "Parsing query request: invalid text".to_owned(),
        DecodeFailure::InvalidBinary => "Parsing query request: invalid base64".to_owned(),
        DecodeFailure::Malformed => "Parsing query request: malformed envelope".to_owned(),
    };
    Err(TransportError::DecodeError { message, request: slice_to_vec(bin_request) })
}

/// The responder that stands behind the router and gets the requests of a
/// kind that the router does not know. It has no state and no handler for
/// such a kind, and says so in its answer.
pub struct BaselineQuerier {}

impl BaselineQuerier {
    /// A responder without handlers.
    pub fn new() -> Self {
        BaselineQuerier {}
    }

    /// Answers a request that the router has forwarded: no handler is there
    /// for a custom query, so the kind is not supported.
    pub fn handle_query(&self, request: &QueryRequest) -> (res: QuerierResult)
        ensures
            is_unsupported(res, custom_kind()),
    {
        Err(TransportError::Unsupported { kind: "custom".to_owned() })
    }
}

/// What the router does with a request: it has the result, it hands a
/// message to a contract, which decides the outcome, or it forwards the
/// request to the baseline responder.
pub enum Route<'r> {
    /// The result of the query.
    Done(QuerierResult),
    /// The message `msg` goes to the query entry point of the contract that
    /// is registered at `addr`.
    Contract { addr: &'r str, msg: &'r [u8] },
    /// The request goes to the baseline responder.
    Forward,
}

/// The router. It borrows the context for as long as it lives.
pub struct EnsembleQuerier<'a, C> {
    ctx: &'a Context<C>,
    base: BaselineQuerier,
}

impl<'a, C> EnsembleQuerier<'a, C> {
    /// The context that the router reads.
    pub closed spec fn context(&self) -> &Context<C> {
        self.ctx
    }

    /// What the router owes for a request: whether `res` is a result that it
    /// may return for `request`. Only for a message to a registered contract
    /// is there more than one such result: there the contract decides, and
    /// the router owes that it reports the outcome as one of the application.
    pub open spec fn answers(&self, request: RequestView, res: QuerierResult) -> bool {
        let ctx = self.context();
        match request {
            RequestView::WasmSmart { addr, msg } => if ctx.contracts.spec_contains(addr) {
                res is Ok
            } else {
                is_unknown_contract(res, addr)
            },
            RequestView::WasmRaw { addr, key } => if ctx.contracts.spec_contains(addr) {
                is_unsupported(res, raw_kind())
            } else {
                is_unknown_contract(res, addr)
            },
            RequestView::BankAllBalances { addr } => is_answer(
                res,
                all_balances_response(balances(ctx.bank@, addr, None)),
            ),
            RequestView::BankBalance { addr, denom } => is_answer(
                res,
                balance_response(CoinView { denom, amount: amount_of(ctx.bank@, addr, denom) }),
            ),
            RequestView::StakingAllDelegations { delegator } => is_answer(
                res,
                all_delegations_response(ctx.staking@.all_delegations(delegator)),
            ),
            RequestView::StakingBondedDenom => ctx.staking@.bonded_denom matches Some(denom)
                && is_answer(res, bonded_denom_response(denom)),
            RequestView::StakingDelegation { delegator, validator } => is_answer(
                res,
                delegation_response(ctx.staking@.delegation(delegator, validator)),
            ),
            RequestView::StakingAllValidators => is_answer(
                res,
                all_validators_response(ctx.staking@.validators),
            ),
            RequestView::StakingValidator { addr } => is_answer(
                res,
                validator_response(ctx.staking@.validator(addr)),
            ),
            RequestView::Other => is_unsupported(res, custom_kind()),
        }
    }

    /// What the router does with a request: a message to a registered
    /// contract goes to that contract, as it came; a request of a kind that
    /// the router does not know goes to the baseline responder; every other
    /// request has the result that `answers` gives it.
    pub open spec fn routes(&self, request: RequestView, route: Route<'_>) -> bool {
        match request {
            RequestView::WasmSmart { addr, msg } if self.context().contracts.spec_contains(addr) => {
                route matches Route::Contract { addr: a, msg: m } && a@ == addr && m@ == msg
            },
            RequestView::Other => route is Forward,
            _ => route matches Route::Done(res) && self.answers(request, res),
        }
    }

    /// The condition under which a request may be put: genesis must have set
    /// the bonded denomination before it is asked for.
    pub open spec fn may_handle(&self, request: RequestView) -> bool {
        request is StakingBondedDenom ==> self.context().staking@.bonded_denom is Some
    }

    /// A router that reads `ctx`.
    pub fn new(ctx: &'a Context<C>) -> (querier: Self)
        ensures
            querier.context() == ctx,
    {
        EnsembleQuerier { ctx, base: BaselineQuerier::new() }
    }

    /// Tells whether a request may be put.
    pub fn accepts(&self, request: &QueryRequest) -> (accepted: bool)
        ensures
            accepted == self.may_handle(request@),
    {
        match request {
            QueryRequest::StakingBondedDenom => self.ctx.staking.is_initialized(),
            _ => true,
        }
    }

    /// Decides what to do with a request, and answers it from the context
    /// unless a contract has to.
    pub fn route<'r>(&self, request: &'r QueryRequest) -> (route: Route<'r>)
        requires
            self.may_handle(request@),
        ensures
            self.routes(request@, route),
    {
        let res: QuerierResult = match request {
            QueryRequest::WasmSmart { addr, msg } => {
                if self.ctx.contracts.contains(addr.as_str()) {
                    return Route::Contract { addr: addr.as_str(), msg: msg.as_slice() };
                }
                Err(TransportError::UnknownContract { address: addr.clone() })
            },
            QueryRequest::WasmRaw { addr, key } => {
                if self.ctx.contracts.contains(addr.as_str()) {
                    match self.ctx.contracts.raw_query(addr.as_str(), key.as_slice()) {
                        Ok(value) => Ok(Ok(value)),
                        Err(unsupported) => Err(
                            TransportError::Unsupported { kind: unsupported.kind },
                        ),
                    }
                } else {
                    Err(TransportError::UnknownContract { address: addr.clone() })
                }
            },
            QueryRequest::BankAllBalances { addr } => {
                let amount = self.ctx.bank.query(addr.as_str(), None);
                Ok(Ok(encode_all_balances(&amount)))
            },
            QueryRequest::BankBalance { addr, denom } => {
                let amount = self.ctx.bank.query(addr.as_str(), Some(denom.as_str()));
                assert(coins_view(amount@)[0] == amount@[0]@);
                Ok(Ok(encode_balance(&amount[0])))
            },
            QueryRequest::StakingAllDelegations { delegator } => {
                let delegations = self.ctx.staking.all_delegations(delegator.as_str());
                Ok(Ok(encode_all_delegations(&delegations)))
            },
            QueryRequest::StakingBondedDenom => {
                let denom = self.ctx.staking.bonded_denom();
                Ok(Ok(encode_bonded_denom(denom)))
            },
            QueryRequest::StakingDelegation { delegator, validator } => {
                let delegation = self.ctx.staking.delegation(
                    delegator.as_str(),
                    validator.as_str(),
                );
                Ok(Ok(encode_delegation(&delegation)))
            },
            QueryRequest::StakingAllValidators => {
                let validators = self.ctx.staking.validators();
                Ok(Ok(encode_all_validators(validators)))
            },
            QueryRequest::StakingValidator { addr } => {
                let validator = self.ctx.staking.validator(addr.as_str());
                Ok(Ok(encode_validator(&validator)))
            },
            QueryRequest::Other => {
                return Route::Forward;
            },
        };
        Route::Done(res)
    }
}

impl<'a, C: ContractHarness> EnsembleQuerier<'a, C> {
    /// Answers a request: from the context, or, where the request is a
    /// message to a registered contract, with the outcome that the contract
    /// reports.
    pub fn handle_query(&self, request: &QueryRequest) -> (res: QuerierResult)
        requires
            self.may_handle(request@),
        ensures
            self.answers(request@, res),
    {
        match self.route(request) {
            Route::Done(res) => res,
            Route::Contract { addr, msg } => application_result(
                self.ctx.contracts.query(addr, msg, self),
            ),
            Route::Forward => self.base.handle_query(request),
        }
    }

    /// Reads the envelope of a request and answers the request from the
    /// context. Bytes that are no envelope come back in the decode error.
    pub fn raw_query(&self, bin_request: &[u8]) -> (res: QuerierResult)
        requires
            spec_decode(bin_request@) matches Ok(request) ==> self.may_handle(request),
        ensures
            match spec_decode(bin_request@) {
                Ok(request) => self.answers(request, res),
                Err(failure) => is_decode_error(res, failure, bin_request@),
            },
    {
        match QueryRequest::decode(bin_request) {
            Ok(request) => self.handle_query(&request),
            Err(failure) => decode_error(failure, bin_request),
        }
    }

    /// Answers a request where it may be put, and returns `None` where it
    /// may not: where the bonded denomination is asked for before genesis.
    pub fn try_handle_query(&self, request: &QueryRequest) -> (found: Option<QuerierResult>)
        ensures
            match found {
                Some(res) => self.may_handle(request@) && self.answers(request@, res),
                None => !self.may_handle(request@),
            },
    {
        if self.accepts(request) {
            Some(self.handle_query(request))
        } else {
            None
        }
    }

    /// Reads the envelope of a request and answers the request where it may
    /// be put; returns `None` where it may not. Bytes that are no envelope
    /// come back in the decode error.
    pub fn try_raw_query(&self, bin_request: &[u8]) -> (found: Option<QuerierResult>)
        ensures
            match spec_decode(bin_request@) {
                Ok(request) => match found {
                    Some(res) => self.may_handle(request) && self.answers(request, res),
                    None => !self.may_handle(request),
                },
                Err(failure) => found matches Some(res) && is_decode_error(
                    res,
                    failure,
                    bin_request@,
                ),
            },
    {
        match QueryRequest::decode(bin_request) {
            Ok(request) => self.try_handle_query(&request),
            Err(failure) => Some(decode_error(failure, bin_request)),
        }
    }
}

/// A query to a registered contract never ends with the error that the
/// contract is unknown: a message ends with the outcome of the contract, a
/// storage read with the error that it is not supported.
pub proof fn lemma_registered_is_never_unknown<C>(
    querier: EnsembleQuerier<'_, C>,
    request: RequestView,
    res: QuerierResult,
)
    requires
        querier.answers(request, res),
        match request {
            RequestView::WasmSmart { addr, msg } => querier.context().contracts.spec_contains(addr),
            RequestView::WasmRaw { addr, key } => querier.context().contracts.spec_contains(addr),
            _ => false,
        },
    ensures
        !(res matches Err(TransportError::UnknownContract { address })),
        request is WasmSmart ==> res is Ok,
        request is WasmRaw ==> is_unsupported(res, raw_kind()),
{
}

/// A wasm query to an address at which no contract is registered ends with
/// the error that the contract is unknown, and the error carries the address.
pub proof fn lemma_unregistered_is_unknown<C>(
    querier: EnsembleQuerier<'_, C>,
    request: RequestView,
    res: QuerierResult,
    address: Seq<char>,
)
    requires
        querier.answers(request, res),
        !querier.context().contracts.spec_contains(address),
        match request {
            RequestView::WasmSmart { addr, msg } => addr == address,
            RequestView::WasmRaw { addr, key } => addr == address,
            _ => false,
        },
    ensures
        is_unknown_contract(res, address),
{
}

/// Only a wasm query can end with the error that a contract is unknown, and
/// only where none is registered at the address that the query names.
pub proof fn lemma_unknown_only_for_unregistered<C>(
    querier: EnsembleQuerier<'_, C>,
    request: RequestView,
    res: QuerierResult,
)
    requires
        querier.answers(request, res),
        res matches Err(TransportError::UnknownContract { address }),
    ensures
        match request {
            RequestView::WasmSmart { addr, msg } => !querier.context().contracts.spec_contains(
                addr,
            ) && is_unknown_contract(res, addr),
            RequestView::WasmRaw { addr, key } => !querier.context().contracts.spec_contains(addr)
                && is_unknown_contract(res, addr),
            _ => false,
        },
{
}

} // verus!
