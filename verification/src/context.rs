//! The context of one run: the bank, the staking registry and the contract
//! registry, which the router reads and never changes.

use vstd::prelude::*;
use crate::bank::BankLedger;
use crate::registry::ContractRegistry;
use crate::staking::StakingRegistry;

verus! {

/// The state that queries are answered from.
pub struct Context<C> {
    pub bank: BankLedger,
    pub staking: StakingRegistry,
    pub contracts: ContractRegistry<C>,
}

impl<C> Context<C> {
    /// A context before genesis: an empty ledger, no validator, no
    /// delegation, no bonded denomination, no contract.
    pub fn new() -> (ctx: Self)
        ensures
            ctx.bank@.len() == 0,
            ctx.bank.wf(),
            ctx.staking@.bonded_denom is None,
            ctx.staking@.validators.len() == 0,
            ctx.staking@.delegations.len() == 0,
            ctx.contracts.addresses().len() == 0,
            ctx.contracts.wf(),
    {
        Context {
            bank: BankLedger::new(),
            staking: StakingRegistry::new(),
            contracts: ContractRegistry::new(),
        }
    }
}

} // verus!
