//! The contract registry: the deployed contracts by address, and the way into
//! their query entry points.

use vstd::prelude::*;
use crate::querier::EnsembleQuerier;
use crate::text::same_text;

verus! {

/// What a contract must offer to be registered: a query entry point. The
/// entry point gets the message and the querier through which the contract
/// may put queries of its own, and returns the answer or the cause of its
/// failure. Nothing is promised of what it returns.
pub trait ContractHarness: Sized {
    fn query(&self, msg: &[u8], querier: &EnsembleQuerier<'_, Self>) -> Result<Vec<u8>, String>;
}

/// The kind that is named where a storage read is refused.
pub open spec fn raw_kind() -> Seq<char> {
    "raw"@
}

/// The refusal of a request that is known and cannot be answered.
#[derive(Debug, Clone, PartialEq, Eq)]
pub struct Unsupported {
    pub kind: String,
}

/// A deployed contract and its address.
pub struct ContractInstance<C> {
    pub address: String,
    pub contract: C,
}

/// The deployed contracts, in the order of their registration.
pub struct ContractRegistry<C> {
    instances: Vec<ContractInstance<C>>,
}

impl<C> ContractRegistry<C> {
    /// The registered addresses, in the order of their registration.
    pub closed spec fn addresses(&self) -> Seq<Seq<char>> {
        self.instances@.map_values(|i: ContractInstance<C>| i.address@)
    }

    /// The registered contracts, each at the position of its address.
    pub closed spec fn contracts(&self) -> Seq<C> {
        self.instances@.map_values(|i: ContractInstance<C>| i.contract)
    }

    /// No address is registered twice.
    pub open spec fn wf(&self) -> bool {
        self.addresses().no_duplicates()
    }

    /// A contract is registered at `address`.
    pub open spec fn spec_contains(&self, address: Seq<char>) -> bool {
        self.addresses().contains(address)
    }

    /// A registry without contracts.
    pub fn new() -> (registry: Self)
        ensures
            registry.addresses() == Seq::<Seq<char>>::empty(),
            registry.contracts() == Seq::<C>::empty(),
            registry.wf(),
    {
        let registry = ContractRegistry { instances: Vec::new() };
        assert(registry.addresses() =~= Seq::<Seq<char>>::empty());
        assert(registry.contracts() =~= Seq::<C>::empty());
        registry
    }

    /// The position at which `address` is registered.
    fn find(&self, address: &str) -> (found: Option<usize>)
        ensures
            match found {
                Some(i) => i < self.instances@.len() && self.addresses()[i as int] == address@,
                None => !self.spec_contains(address@),
            },
    {
        let mut i: usize = 0;
        while i < self.instances.len()
            invariant
                i <= self.instances@.len(),
                forall|j: int| 0 <= j < i ==> self.addresses()[j] != address@,
            decreases self.instances.len() - i,
        {
            if same_text(self.instances[i].address.as_str(), address) {
                return Some(i);
            }
            i = i + 1;
        }
        None
    }

    /// The position of an address that is registered.
    fn position(&self, address: &str) -> (i: usize)
        requires
            self.spec_contains(address@),
        ensures
            i < self.instances@.len(),
            self.addresses()[i as int] == address@,
    {
        let ghost k = choose|k: int|
            0 <= k < self.addresses().len() && self.addresses()[k] == address@;
        let n = self.instances.len();
        let mut i: usize = 0;
        loop
            invariant
                0 <= i <= k < n,
                n == self.instances@.len(),
                self.addresses()[k] == address@,
            decreases k - i,
        {
            if same_text(self.instances[i].address.as_str(), address) {
                return i;
            }
            assert(self.addresses()[i as int] != address@);
            i = i + 1;
        }
    }

    /// Tells whether a contract is registered at `address`.
    pub fn contains(&self, address: &str) -> (registered: bool)
        ensures
            registered == self.spec_contains(address@),
    {
        self.find(address).is_some()
    }

    /// Registers a contract at `address`, behind those that are registered.
    /// An address that is taken keeps its contract, and the call returns
    /// `false`.
    pub fn register(&mut self, address: &str, contract: C) -> (registered: bool)
        requires
            old(self).wf(),
        ensures
            final(self).wf(),
            registered == !old(self).spec_contains(address@),
            final(self).spec_contains(address@),
            forall|a: Seq<char>| old(self).spec_contains(a) ==> final(self).spec_contains(a),
            final(self).addresses() == if registered {
                old(self).addresses().push(address@)
            } else {
                old(self).addresses()
            },
            final(self).contracts() == if registered {
                old(self).contracts().push(contract)
            } else {
                old(self).contracts()
            },
    {
        if self.find(address).is_some() {
            return false;
        }
        self.instances.push(ContractInstance { address: address.to_owned(), contract });
        proof {
            let before = old(self).addresses();
            let after = self.addresses();
            assert(after =~= before.push(address@));
            assert(self.contracts() =~= old(self).contracts().push(contract));
            assert(after[before.len() as int] == address@);
            assert forall|a: Seq<char>| old(self).spec_contains(a) implies self.spec_contains(
                a,
            ) by {
                let i = choose|i: int| 0 <= i < before.len() && before[i] == a;
                assert(after[i] == a);
            }
        }
        true
    }
}

impl<C> ContractRegistry<C> {
    /// Reads the storage of the contract at `address` under `key`. The
    /// registry keeps no storage of its contracts, so every such read is
    /// refused, and the refusal says so: it never passes for a value.
    pub fn raw_query(&self, address: &str, key: &[u8]) -> (value: Result<Vec<u8>, Unsupported>)
        ensures
            value matches Err(unsupported) && unsupported.kind@ == raw_kind(),
    {
        Err(Unsupported { kind: "raw".to_owned() })
    }
}

impl<C: ContractHarness> ContractRegistry<C> {
    /// Puts a message to the query entry point of the contract at `address`,
    /// which must be registered, and returns what the contract returns.
    pub fn query(&self, address: &str, msg: &[u8], querier: &EnsembleQuerier<'_, C>) -> (outcome:
        Result<Vec<u8>, String>)
        requires
            self.spec_contains(address@),
    {
        let i = self.position(address);
        self.instances[i].contract.query(msg, querier)
    }
}

} // verus!
