//! The bank ledger: which amount of which denomination each address holds.

use vstd::prelude::*;
use crate::search::{
    first_index_where, first_where, lemma_filter_push, lemma_first_index_is,
    lemma_first_index_none, lemma_first_where, lemma_first_where_unchanged,
};
use crate::text::same_text;

verus! {

/// An amount of one denomination.
#[derive(Debug, Clone, PartialEq, Eq)]
pub struct Coin {
    pub denom: String,
    pub amount: u128,
}

/// A coin as a mathematical value.
pub struct CoinView {
    pub denom: Seq<char>,
    pub amount: u128,
}

impl View for Coin {
    type V = CoinView;

    open spec fn view(&self) -> CoinView {
        CoinView { denom: self.denom@, amount: self.amount }
    }
}

/// The coins of a vector as mathematical values.
pub open spec fn coins_view(coins: Seq<Coin>) -> Seq<CoinView> {
    coins.map_values(|c: Coin| c@)
}

/// One entry of the ledger: what an address holds of one denomination.
#[derive(Debug, Clone, PartialEq, Eq)]
pub struct Balance {
    pub address: String,
    pub coin: Coin,
}

/// An entry of the ledger as a mathematical value.
pub struct BalanceView {
    pub address: Seq<char>,
    pub coin: CoinView,
}

impl View for Balance {
    type V = BalanceView;

    open spec fn view(&self) -> BalanceView {
        BalanceView { address: self.address@, coin: self.coin@ }
    }
}

/// The condition that an entry belongs to `address`.
pub open spec fn is_held_by(address: Seq<char>) -> spec_fn(BalanceView) -> bool {
    |e: BalanceView| e.address == address
}

/// The condition that an entry is the one for `address` and `denom`.
pub open spec fn is_entry_for(address: Seq<char>, denom: Seq<char>) -> spec_fn(BalanceView) -> bool {
    |e: BalanceView| e.address == address && e.coin.denom == denom
}

/// The entries of `entries` that belong to `address`, in their order.
pub open spec fn held_by(entries: Seq<BalanceView>, address: Seq<char>) -> Seq<BalanceView> {
    entries.filter(is_held_by(address))
}

/// The coins of a sequence of entries.
pub open spec fn as_coins(entries: Seq<BalanceView>) -> Seq<CoinView> {
    entries.map_values(|e: BalanceView| e.coin)
}

/// The position of the entry for `address` and `denom`.
pub open spec fn entry_index(entries: Seq<BalanceView>, address: Seq<char>, denom: Seq<char>)
    -> Option<int> {
    first_index_where(entries, is_entry_for(address, denom))
}

/// The amount that `address` holds in `denom`: nought where the ledger has no
/// entry for the two.
pub open spec fn amount_of(entries: Seq<BalanceView>, address: Seq<char>, denom: Seq<char>)
    -> u128 {
    match first_where(entries, is_entry_for(address, denom)) {
        Some(entry) => entry.coin.amount,
        None => 0,
    }
}

/// What a query for the balances of `address` returns: with a denomination,
/// the one coin of that denomination, be its amount nought; without one,
/// every coin that the address holds, in the order of the ledger.
pub open spec fn balances(
    entries: Seq<BalanceView>,
    address: Seq<char>,
    denom: Option<Seq<char>>,
) -> Seq<CoinView> {
    match denom {
        Some(d) => seq![CoinView { denom: d, amount: amount_of(entries, address, d) }],
        None => as_coins(held_by(entries, address)),
    }
}

/// Where the ledger has no entry for an address and a denomination, a query
/// for the two gives exactly one coin, of that denomination, with the amount
/// nought.
pub proof fn lemma_missing_balance_is_zero(
    entries: Seq<BalanceView>,
    address: Seq<char>,
    denom: Seq<char>,
)
    requires
        forall|i: int|
            0 <= i < entries.len() ==> !(entries[i].address == address && entries[i].coin.denom
                == denom),
    ensures
        balances(entries, address, Some(denom)) == seq![CoinView { denom, amount: 0 }],
{
    lemma_first_index_none(entries, is_entry_for(address, denom));
}

/// A query with a denomination gives exactly one coin, of that denomination,
/// whatever the ledger holds.
pub proof fn lemma_one_balance_per_denom(
    entries: Seq<BalanceView>,
    address: Seq<char>,
    denom: Seq<char>,
)
    ensures
        balances(entries, address, Some(denom)).len() == 1,
        balances(entries, address, Some(denom))[0].denom == denom,
{
}

/// No two entries are for the same address and denomination.
pub open spec fn distinct_keys(entries: Seq<BalanceView>) -> bool {
    forall|i: int, j: int|
        0 <= i < j < entries.len() ==> !(#[trigger] entries[i].address == #[trigger] entries[j].address
            && entries[i].coin.denom == entries[j].coin.denom)
}

/// The ledger of the bank.
pub struct BankLedger {
    entries: Vec<Balance>,
}

impl View for BankLedger {
    type V = Seq<BalanceView>;

    closed spec fn view(&self) -> Seq<BalanceView> {
        self.entries@.map_values(|e: Balance| e@)
    }
}

impl BankLedger {
    /// The ledger holds at most one entry for an address and a denomination.
    pub open spec fn wf(&self) -> bool {
        distinct_keys(self@)
    }

    /// A ledger without entries.
    pub fn new() -> (ledger: Self)
        ensures
            ledger@ == Seq::<BalanceView>::empty(),
            ledger.wf(),
    {
        let ledger = BankLedger { entries: Vec::new() };
        assert(ledger@ =~= Seq::<BalanceView>::empty());
        ledger
    }

    /// The position of the entry for `address` and `denom`.
    fn find(&self, address: &str, denom: &str) -> (found: Option<usize>)
        ensures
            match found {
                Some(i) => entry_index(self@, address@, denom@) == Some(i as int) && i
                    < self.entries@.len(),
                None => entry_index(self@, address@, denom@) is None,
            },
    {
        let ghost pred = is_entry_for(address@, denom@);
        let mut i: usize = 0;
        while i < self.entries.len()
            invariant
                i <= self.entries@.len(),
                pred == is_entry_for(address@, denom@),
                forall|j: int| 0 <= j < i ==> !pred(#[trigger] self@[j]),
            decreases self.entries.len() - i,
        {
            let entry = &self.entries[i];
            if same_text(entry.address.as_str(), address) && same_text(
                entry.coin.denom.as_str(),
                denom,
            ) {
                proof {
                    lemma_first_index_is(self@, pred, i as int);
                }
                return Some(i);
            }
            i = i + 1;
        }
        proof {
            lemma_first_index_none(self@, pred);
        }
        None
    }

    /// The amount that `address` holds in `denom`.
    pub fn balance(&self, address: &str, denom: &str) -> (amount: u128)
        ensures
            amount == amount_of(self@, address@, denom@),
    {
        let ghost pred = is_entry_for(address@, denom@);
        proof {
            lemma_first_where(self@, pred);
        }
        match self.find(address, denom) {
            Some(i) => self.entries[i].coin.amount,
            None => 0,
        }
    }

    /// Sets what `address` holds in `denom`: the entry for the two gets the
    /// amount, and where there is none yet, one is added at the end.
    pub fn set_balance(&mut self, address: &str, denom: &str, amount: u128)
        requires
            old(self).wf(),
        ensures
            final(self).wf(),
            final(self)@ == match entry_index(old(self)@, address@, denom@) {
                Some(i) => old(self)@.update(
                    i,
                    BalanceView {
                        address: address@,
                        coin: CoinView { denom: denom@, amount },
                    },
                ),
                None => old(self)@.push(
                    BalanceView {
                        address: address@,
                        coin: CoinView { denom: denom@, amount },
                    },
                ),
            },
            amount_of(final(self)@, address@, denom@) == amount,
            forall|a: Seq<char>, d: Seq<char>|
                !(a == address@ && d == denom@) ==> #[trigger] amount_of(final(self)@, a, d)
                    == amount_of(old(self)@, a, d),
    {
        let ghost pred = is_entry_for(address@, denom@);
        let ghost entry = BalanceView {
            address: address@,
            coin: CoinView { denom: denom@, amount },
        };
        proof {
            lemma_first_where(old(self)@, pred);
        }
        let fresh = Balance {
            address: address.to_owned(),
            coin: Coin { denom: denom.to_owned(), amount },
        };
        match self.find(address, denom) {
            Some(i) => {
                self.entries.set(i, fresh);
                assert(self@ =~= old(self)@.update(i as int, entry));
                proof {
                    assert forall|j: int| 0 <= j < i implies !pred(#[trigger] self@[j]) by {
                        assert(self@[j] == old(self)@[j]);
                    }
                    lemma_first_index_is(self@, pred, i as int);
                    assert forall|a: Seq<char>, d: Seq<char>| !(a == address@ && d == denom@) implies
                        #[trigger] amount_of(self@, a, d) == amount_of(old(self)@, a, d) by {
                        lemma_first_where_unchanged(old(self)@, self@, is_entry_for(a, d));
                    }
                }
            },
            None => {
                self.entries.push(fresh);
                assert(self@ =~= old(self)@.push(entry));
                proof {
                    let last = old(self)@.len() as int;
                    assert forall|j: int| 0 <= j < last implies !pred(#[trigger] self@[j]) by {
                        assert(self@[j] == old(self)@[j]);
                    }
                    lemma_first_index_is(self@, pred, last);
                    assert forall|a: Seq<char>, d: Seq<char>| !(a == address@ && d == denom@) implies
                        #[trigger] amount_of(self@, a, d) == amount_of(old(self)@, a, d) by {
                        lemma_first_where_unchanged(old(self)@, self@, is_entry_for(a, d));
                    }
                }
            },
        }
    }

    /// The balances of `address`: with a denomination, exactly one coin, of
    /// that denomination, with the amount nought where the address holds
    /// none of it; without one, every coin that the address holds.
    pub fn query(&self, address: &str, denom: Option<&str>) -> (coins: Vec<Coin>)
        ensures
            coins_view(coins@) == balances(
                self@,
                address@,
                match denom {
                    Some(d) => Some(d@),
                    None => None,
                },
            ),
            denom is Some ==> coins@.len() == 1,
    {
        let mut coins: Vec<Coin> = Vec::new();
        match denom {
            Some(d) => {
                let amount = self.balance(address, d);
                coins.push(Coin { denom: d.to_owned(), amount });
                assert(coins_view(coins@) =~= seq![CoinView { denom: d@, amount }]);
            },
            None => {
                let mut i: usize = 0;
                assert(self@.take(0) =~= Seq::<BalanceView>::empty());
                assert(coins_view(coins@) =~= as_coins(held_by(self@.take(0), address@))) by {
                    reveal(Seq::filter);
                }
                while i < self.entries.len()
                    invariant
                        i <= self.entries@.len(),
                        coins_view(coins@) == as_coins(held_by(self@.take(i as int), address@)),
                    decreases self.entries.len() - i,
                {
                    let entry = &self.entries[i];
                    proof {
                        assert(self@.take(i + 1) =~= self@.take(i as int).push(self@[i as int]));
                        lemma_filter_push(
                            self@.take(i as int),
                            self@[i as int],
                            is_held_by(address@),
                        );
                    }
                    if same_text(entry.address.as_str(), address) {
                        let ghost before = coins@;
                        coins.push(Coin { denom: entry.coin.denom.clone(), amount: entry.coin.amount });
                        assert(coins_view(coins@) =~= coins_view(before).push(self@[i as int].coin));
                        assert(as_coins(held_by(self@.take(i as int), address@).push(self@[i as int]))
                            =~= as_coins(held_by(self@.take(i as int), address@)).push(
                            self@[i as int].coin,
                        ));
                    }
                    i = i + 1;
                }
                assert(self@.take(self.entries@.len() as int) =~= self@);
            },
        }
        coins
    }
}

} // verus!
