//! The fungible token whose balances are a DAO's voting power.
use vstd::prelude::*;
use crate::governance::treasury::{balance_in, balance_key, balance_views};
use crate::keyed::{keyed_map, keys_distinct, lemma_keyed_map_absent, lemma_keyed_map_index};
use crate::types::Address;

verus! {

/// A token ledger: the whole supply is minted to one owner when it is made.
#[derive(Debug, Clone)]
pub struct GovernanceToken {
    name: String,
    symbol: String,
    decimals: u8,
    total_supply: u64,
    balances: Vec<(Address, u64)>,
}

impl GovernanceToken {
    /// The balances in the order their holders first appeared.
    pub closed spec fn spec_balance_list(&self) -> Seq<(Seq<char>, u64)> {
        balance_views(self.balances@)
    }

    /// The balance of a holder, zero where it holds nothing.
    pub open spec fn spec_balance(&self, holder: Seq<char>) -> u64 {
        balance_in(self.spec_balance_list(), holder)
    }

    /// The number of tokens in existence.
    pub closed spec fn spec_total_supply(&self) -> u64 {
        self.total_supply
    }

    pub closed spec fn spec_name(&self) -> Seq<char> {
        self.name@
    }

    pub closed spec fn spec_symbol(&self) -> Seq<char> {
        self.symbol@
    }

    pub closed spec fn spec_decimals(&self) -> u8 {
        self.decimals
    }

    /// One balance per holder.
    pub closed spec fn wf(&self) -> bool {
        keys_distinct(self.spec_balance_list(), balance_key())
    }

    /// A token whose whole supply is held by `owner`.
    pub fn new(name: String, symbol: String, decimals: u8, initial_supply: u64, owner: Address) -> (r: GovernanceToken)
        ensures
            r.wf(),
            r.spec_name() == name@,
            r.spec_symbol() == symbol@,
            r.spec_decimals() == decimals,
            r.spec_total_supply() == initial_supply,
            r.spec_balance(owner@) == initial_supply,
            forall|h: Seq<char>| h != owner@ ==> r.spec_balance(h) == 0,
    {
        let ghost o = owner@;
        let mut balances: Vec<(Address, u64)> = Vec::new();
        balances.push((owner, initial_supply));
        let r = GovernanceToken { name, symbol, decimals, total_supply: initial_supply, balances };
        proof {
            let s = r.spec_balance_list();
            assert(s =~= seq![(o, initial_supply)]);
            assert(s.drop_last() =~= Seq::<(Seq<char>, u64)>::empty());
            assert(keyed_map(s.drop_last(), balance_key()) == Map::<Seq<char>, (Seq<char>, u64)>::empty());
            assert((balance_key())(s.last()) == o);
            assert(keyed_map(s, balance_key()) =~= Map::<Seq<char>, (Seq<char>, u64)>::empty().insert(
                o,
                (o, initial_supply),
            ));
        }
        r
    }

    /// The balance of a holder.
    pub fn balance_of(&self, holder: &Address) -> (r: u64)
        requires
            self.wf(),
        ensures
            r == self.spec_balance(holder@),
    {
        let mut i: usize = 0;
        while i < self.balances.len()
            invariant
                0 <= i <= self.balances@.len(),
                self.wf(),
                forall|j: int| 0 <= j < i ==> (#[trigger] self.balances@[j]).0@ != holder@,
            decreases self.balances@.len() - i,
        {
            if self.balances[i].0.same_as(holder) {
                proof {
                    lemma_keyed_map_index(self.spec_balance_list(), balance_key(), i as int);
                }
                return self.balances[i].1;
            }
            i = i + 1;
        }
        proof {
            assert forall|j: int| 0 <= j < self.spec_balance_list().len() implies (balance_key())(
                self.spec_balance_list()[j],
            ) != holder@ by {
                assert(self.spec_balance_list()[j] == (self.balances@[j].0@, self.balances@[j].1));
            }
            lemma_keyed_map_absent(self.spec_balance_list(), balance_key(), holder@);
        }
        0
    }

    /// The number of tokens in existence.
    pub fn total_supply(&self) -> (r: u64)
        ensures
            r == self.spec_total_supply(),
    {
        self.total_supply
    }

    /// The token's name.
    pub fn name(&self) -> (r: &String)
        ensures
            r@ == self.spec_name(),
    {
        &self.name
    }

    /// The token's ticker symbol.
    pub fn symbol(&self) -> (r: &String)
        ensures
            r@ == self.spec_symbol(),
    {
        &self.symbol
    }

    /// The number of decimal places of the token.
    pub fn decimals(&self) -> (r: u8)
        ensures
            r == self.spec_decimals(),
    {
        self.decimals
    }
}

} // verus!
