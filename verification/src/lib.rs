//! A mock multi-contract ledger query engine: simulated bank, staking and
//! contract-registry state, and a router that decodes a query envelope,
//! answers it from that state and encodes the answer.

pub mod bytes;
pub mod base64;
pub mod text;
pub mod number;
pub mod request;
pub mod search;
pub mod bank;
pub mod staking;
pub mod response;
pub mod registry;
pub mod context;
pub mod querier;
