//! The staking registry: the validators in the order of their registration,
//! the delegations, and the one denomination that can be bonded.

use vstd::prelude::*;
use crate::bank::{Coin, CoinView};
use crate::search::{
    first_index_where, first_where, lemma_filter_push, lemma_first_index_is,
    lemma_first_index_none, lemma_first_where,
};
use crate::text::same_text;

verus! {

/// A validator: its address, and its commission rates as fixed-point numbers
/// with eighteen places.
#[derive(Debug, Clone, PartialEq, Eq)]
pub struct Validator {
    pub address: String,
    pub commission: u128,
    pub max_commission: u128,
    pub max_change_rate: u128,
}

/// A validator as a mathematical value.
pub struct ValidatorView {
    pub address: Seq<char>,
    pub commission: u128,
    pub max_commission: u128,
    pub max_change_rate: u128,
}

impl View for Validator {
    type V = ValidatorView;

    open spec fn view(&self) -> ValidatorView {
        ValidatorView {
            address: self.address@,
            commission: self.commission,
            max_commission: self.max_commission,
            max_change_rate: self.max_change_rate,
        }
    }
}

/// What a delegator has bonded with a validator.
#[derive(Debug, Clone, PartialEq, Eq)]
pub struct Delegation {
    pub delegator: String,
    pub validator: String,
    pub amount: Coin,
}

/// A delegation as a mathematical value.
pub struct DelegationView {
    pub delegator: Seq<char>,
    pub validator: Seq<char>,
    pub amount: CoinView,
}

impl View for Delegation {
    type V = DelegationView;

    open spec fn view(&self) -> DelegationView {
        DelegationView {
            delegator: self.delegator@,
            validator: self.validator@,
            amount: self.amount@,
        }
    }
}

/// The validators of a vector as mathematical values.
pub open spec fn validators_view(validators: Seq<Validator>) -> Seq<ValidatorView> {
    validators.map_values(|v: Validator| v@)
}

/// The delegations of a vector as mathematical values.
pub open spec fn delegations_view(delegations: Seq<Delegation>) -> Seq<DelegationView> {
    delegations.map_values(|d: Delegation| d@)
}

/// The view of a validator that may be absent.
pub open spec fn validator_view(validator: Option<Validator>) -> Option<ValidatorView> {
    match validator {
        Some(v) => Some(v@),
        None => None,
    }
}

/// The view of a delegation that may be absent.
pub open spec fn delegation_view(delegation: Option<Delegation>) -> Option<DelegationView> {
    match delegation {
        Some(d) => Some(d@),
        None => None,
    }
}

/// The condition that a validator has the address `address`.
pub open spec fn is_validator_at(address: Seq<char>) -> spec_fn(ValidatorView) -> bool {
    |v: ValidatorView| v.address == address
}

/// The condition that a delegation was made by `delegator`.
pub open spec fn is_delegated_by(delegator: Seq<char>) -> spec_fn(DelegationView) -> bool {
    |d: DelegationView| d.delegator == delegator
}

/// The condition that a delegation was made by `delegator` to `validator`.
pub open spec fn is_delegation(delegator: Seq<char>, validator: Seq<char>) -> spec_fn(
    DelegationView,
) -> bool {
    |d: DelegationView| d.delegator == delegator && d.validator == validator
}

/// The state of staking as a mathematical value.
pub struct StakingView {
    /// The denomination that can be bonded, once genesis has set it.
    pub bonded_denom: Option<Seq<char>>,
    /// The validators, in the order of their registration.
    pub validators: Seq<ValidatorView>,
    /// The delegations, in the order in which they were made.
    pub delegations: Seq<DelegationView>,
}

impl StakingView {
    /// The validator at `address`: of several with that address, the one
    /// that was registered first.
    pub open spec fn validator(self, address: Seq<char>) -> Option<ValidatorView> {
        first_where(self.validators, is_validator_at(address))
    }

    /// The delegation of `delegator` to `validator`: of several, the first.
    pub open spec fn delegation(self, delegator: Seq<char>, validator: Seq<char>) -> Option<
        DelegationView,
    > {
        first_where(self.delegations, is_delegation(delegator, validator))
    }

    /// The delegations that `delegator` has made, in their order.
    pub open spec fn all_delegations(self, delegator: Seq<char>) -> Seq<DelegationView> {
        self.delegations.filter(is_delegated_by(delegator))
    }
}

/// The validator that is found at an address is the one that was registered
/// first with it, whatever others with the same address were registered
/// later.
pub proof fn lemma_validator_first_registered(staking: StakingView, address: Seq<char>, i: int)
    requires
        0 <= i < staking.validators.len(),
        staking.validators[i].address == address,
        forall|j: int| 0 <= j < i ==> staking.validators[j].address != address,
    ensures
        staking.validator(address) == Some(staking.validators[i]),
{
    lemma_first_index_is(staking.validators, is_validator_at(address), i);
}

/// No validator is found at an address exactly where none has it.
pub proof fn lemma_validator_absent(staking: StakingView, address: Seq<char>)
    ensures
        staking.validator(address) is None <==> forall|j: int|
            0 <= j < staking.validators.len() ==> staking.validators[j].address != address,
{
    lemma_first_where(staking.validators, is_validator_at(address));
    if staking.validator(address) is Some {
        let i = first_index_where(staking.validators, is_validator_at(address))->Some_0;
        assert(staking.validators[i].address == address);
    }
}

/// The staking registry.
pub struct StakingRegistry {
    bonded_denom: Option<String>,
    validators: Vec<Validator>,
    delegations: Vec<Delegation>,
}

impl View for StakingRegistry {
    type V = StakingView;

    closed spec fn view(&self) -> StakingView {
        StakingView {
            bonded_denom: match self.bonded_denom {
                Some(d) => Some(d@),
                None => None,
            },
            validators: validators_view(self.validators@),
            delegations: delegations_view(self.delegations@),
        }
    }
}

fn copy_coin(coin: &Coin) -> (copy: Coin)
    ensures
        copy@ == coin@,
{
    Coin { denom: coin.denom.clone(), amount: coin.amount }
}

fn copy_validator(validator: &Validator) -> (copy: Validator)
    ensures
        copy@ == validator@,
{
    Validator {
        address: validator.address.clone(),
        commission: validator.commission,
        max_commission: validator.max_commission,
        max_change_rate: validator.max_change_rate,
    }
}

fn copy_delegation(delegation: &Delegation) -> (copy: Delegation)
    ensures
        copy@ == delegation@,
{
    Delegation {
        delegator: delegation.delegator.clone(),
        validator: delegation.validator.clone(),
        amount: copy_coin(&delegation.amount),
    }
}

impl StakingRegistry {
    /// A registry before genesis: no bonded denomination, no validator, no
    /// delegation.
    pub fn new() -> (registry: Self)
        ensures
            registry@.bonded_denom is None,
            registry@.validators == Seq::<ValidatorView>::empty(),
            registry@.delegations == Seq::<DelegationView>::empty(),
    {
        let registry = StakingRegistry {
            bonded_denom: None,
            validators: Vec::new(),
            delegations: Vec::new(),
        };
        assert(registry@.validators =~= Seq::<ValidatorView>::empty());
        assert(registry@.delegations =~= Seq::<DelegationView>::empty());
        registry
    }

    /// Genesis: sets the bonded denomination, once. A registry that has one
    /// keeps it, and the call returns `false`.
    pub fn initialize(&mut self, denom: &str) -> (set: bool)
        ensures
            set == (old(self)@.bonded_denom is None),
            final(self)@.bonded_denom == if set {
                Some(denom@)
            } else {
                old(self)@.bonded_denom
            },
            final(self)@.validators == old(self)@.validators,
            final(self)@.delegations == old(self)@.delegations,
    {
        if self.bonded_denom.is_some() {
            return false;
        }
        self.bonded_denom = Some(denom.to_owned());
        true
    }

    /// Tells whether genesis has set the bonded denomination.
    pub fn is_initialized(&self) -> (set: bool)
        ensures
            set == (self@.bonded_denom is Some),
    {
        self.bonded_denom.is_some()
    }

    /// The denomination that can be bonded. Genesis must have set it.
    pub fn bonded_denom(&self) -> (denom: &str)
        requires
            self@.bonded_denom is Some,
        ensures
            Some(denom@) == self@.bonded_denom,
    {
        match &self.bonded_denom {
            Some(d) => d.as_str(),
            None => "",
        }
    }

    /// Registers a validator behind those that are registered.
    pub fn add_validator(&mut self, validator: Validator)
        ensures
            final(self)@.validators == old(self)@.validators.push(validator@),
            final(self)@.bonded_denom == old(self)@.bonded_denom,
            final(self)@.delegations == old(self)@.delegations,
    {
        self.validators.push(validator);
        assert(self@.validators =~= old(self)@.validators.push(validator@));
    }

    /// Records a delegation behind those that are recorded.
    pub fn add_delegation(&mut self, delegation: Delegation)
        ensures
            final(self)@.delegations == old(self)@.delegations.push(delegation@),
            final(self)@.bonded_denom == old(self)@.bonded_denom,
            final(self)@.validators == old(self)@.validators,
    {
        self.delegations.push(delegation);
        assert(self@.delegations =~= old(self)@.delegations.push(delegation@));
    }

    /// The validators, in the order of their registration.
    pub fn validators(&self) -> (validators: &Vec<Validator>)
        ensures
            validators_view(validators@) == self@.validators,
    {
        &self.validators
    }

    /// The validator at `address`: the first that was registered with it, or
    /// none.
    pub fn validator(&self, address: &str) -> (found: Option<Validator>)
        ensures
            validator_view(found) == self@.validator(address@),
    {
        let ghost pred = is_validator_at(address@);
        let mut i: usize = 0;
        while i < self.validators.len()
            invariant
                i <= self.validators@.len(),
                pred == is_validator_at(address@),
                forall|j: int| 0 <= j < i ==> !pred(#[trigger] self@.validators[j]),
            decreases self.validators.len() - i,
        {
            let validator = &self.validators[i];
            if same_text(validator.address.as_str(), address) {
                proof {
                    lemma_first_index_is(self@.validators, pred, i as int);
                }
                return Some(copy_validator(validator));
            }
            i = i + 1;
        }
        proof {
            lemma_first_index_none(self@.validators, pred);
        }
        None
    }

    /// The delegation of `delegator` to `validator`: the first that was
    /// recorded for the two, or none.
    pub fn delegation(&self, delegator: &str, validator: &str) -> (found: Option<Delegation>)
        ensures
            delegation_view(found) == self@.delegation(delegator@, validator@),
    {
        let ghost pred = is_delegation(delegator@, validator@);
        let mut i: usize = 0;
        while i < self.delegations.len()
            invariant
                i <= self.delegations@.len(),
                pred == is_delegation(delegator@, validator@),
                forall|j: int| 0 <= j < i ==> !pred(#[trigger] self@.delegations[j]),
            decreases self.delegations.len() - i,
        {
            let delegation = &self.delegations[i];
            if same_text(delegation.delegator.as_str(), delegator) && same_text(
                delegation.validator.as_str(),
                validator,
            ) {
                proof {
                    lemma_first_index_is(self@.delegations, pred, i as int);
                }
                return Some(copy_delegation(delegation));
            }
            i = i + 1;
        }
        proof {
            lemma_first_index_none(self@.delegations, pred);
        }
        None
    }

    /// The delegations that `delegator` has made, in their order.
    pub fn all_delegations(&self, delegator: &str) -> (found: Vec<Delegation>)
        ensures
            delegations_view(found@) == self@.all_delegations(delegator@),
    {
        let ghost pred = is_delegated_by(delegator@);
        let ghost all = self@.delegations;
        let mut found: Vec<Delegation> = Vec::new();
        let mut i: usize = 0;
        assert(all.take(0) =~= Seq::<DelegationView>::empty());
        assert(delegations_view(found@) =~= all.take(0).filter(pred)) by {
            reveal(Seq::filter);
        }
        while i < self.delegations.len()
            invariant
                i <= self.delegations@.len(),
                all == self@.delegations,
                pred == is_delegated_by(delegator@),
                delegations_view(found@) == all.take(i as int).filter(pred),
            decreases self.delegations.len() - i,
        {
            let delegation = &self.delegations[i];
            proof {
                assert(all.take(i + 1) =~= all.take(i as int).push(all[i as int]));
                lemma_filter_push(all.take(i as int), all[i as int], pred);
            }
            if same_text(delegation.delegator.as_str(), delegator) {
                let ghost before = found@;
                found.push(copy_delegation(delegation));
                assert(delegations_view(found@) =~= delegations_view(before).push(all[i as int]));
            }
            i = i + 1;
        }
        assert(all.take(self.delegations@.len() as int) =~= all);
        found
    }
}

} // verus!
