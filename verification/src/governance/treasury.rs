//! The DAO treasury: token balances and a ledger of its movements.
use vstd::prelude::*;
use crate::clock::now_millis;
use crate::governance::GovernanceError;
use crate::keyed::{
    keyed_map, keys_distinct, lemma_keyed_map_absent, lemma_keyed_map_index, lemma_keyed_map_update,
    lemma_keys_distinct_push,
};
use crate::types::Address;

verus! {

/// One movement of funds.
#[derive(Debug, Clone)]
pub struct TreasuryTransaction {
    pub id: u64,
    pub from: Address,
    pub to: Address,
    pub amount: u64,
    pub token: Address,
    pub description: String,
    pub timestamp: u64,
    pub executed_by: Address,
}

/// The view of a treasury transaction.
pub struct TransactionView {
    pub id: u64,
    pub from: Seq<char>,
    pub to: Seq<char>,
    pub amount: u64,
    pub token: Seq<char>,
    pub description: Seq<char>,
    pub timestamp: u64,
    pub executed_by: Seq<char>,
}

impl View for TreasuryTransaction {
    type V = TransactionView;

    open spec fn view(&self) -> TransactionView {
        TransactionView {
            id: self.id,
            from: self.from@,
            to: self.to@,
            amount: self.amount,
            token: self.token@,
            description: self.description@,
            timestamp: self.timestamp,
            executed_by: self.executed_by@,
        }
    }
}

/// The views of a list of transactions.
pub open spec fn transaction_views(v: Seq<&TreasuryTransaction>) -> Seq<TransactionView> {
    v.map_values(|t: &TreasuryTransaction| t@)
}

/// The views of a list of balances: token text and amount.
pub open spec fn balance_views(v: Seq<(Address, u64)>) -> Seq<(Seq<char>, u64)> {
    v.map_values(|p: (Address, u64)| (p.0@, p.1))
}

/// The key of a balance: its token.
pub open spec fn balance_key() -> spec_fn((Seq<char>, u64)) -> Seq<char> {
    |p: (Seq<char>, u64)| p.0
}

/// The sum of the amounts of a list of balances.
pub open spec fn balances_total(s: Seq<(Seq<char>, u64)>) -> nat
    decreases s.len(),
{
    if s.len() == 0 {
        0
    } else {
        balances_total(s.drop_last()) + s.last().1 as nat
    }
}

/// Appending a balance adds its amount to the total.
pub proof fn lemma_total_push(s: Seq<(Seq<char>, u64)>, p: (Seq<char>, u64))
    ensures
        balances_total(s.push(p)) == balances_total(s) + p.1,
{
    assert(s.push(p).drop_last() =~= s);
}

/// A deposit raises the total by the amount deposited.
pub proof fn lemma_deposit_total(
    pre: Treasury,
    post: Treasury,
    from: Seq<char>,
    token: Seq<char>,
    amount: u64,
    now: u64,
    r: Result<(), GovernanceError>,
)
    requires
        deposit_outcome(pre, post, from, token, amount, now, r),
    ensures
        post.spec_total() == pre.spec_total() + amount,
{
}

/// A transfer that goes through lowers the total by the amount; a refused
/// one leaves it.
pub proof fn lemma_transfer_total(
    pre: Treasury,
    post: Treasury,
    to: Seq<char>,
    amount: u64,
    now: u64,
    r: Result<(), GovernanceError>,
)
    requires
        transfer_outcome(pre, post, to, amount, now, r),
    ensures
        r is Ok ==> post.spec_total() + amount == pre.spec_total(),
        r is Err ==> post.spec_total() == pre.spec_total(),
{
}

/// Replacing one balance changes the total by the difference.
pub proof fn lemma_total_update(s: Seq<(Seq<char>, u64)>, i: int, p: (Seq<char>, u64))
    requires
        0 <= i < s.len(),
    ensures
        balances_total(s.update(i, p)) + s[i].1 == balances_total(s) + p.1,
    decreases s.len(),
{
    let u = s.update(i, p);
    if i == s.len() - 1 {
        assert(u.drop_last() =~= s.drop_last());
    } else {
        lemma_total_update(s.drop_last(), i, p);
        assert(u.drop_last() =~= s.drop_last().update(i, p));
    }
}

/// A prefix of the balances totals no more than all of them.
pub proof fn lemma_total_prefix(s: Seq<(Seq<char>, u64)>, i: int)
    requires
        0 <= i <= s.len(),
    ensures
        balances_total(s.take(i)) <= balances_total(s),
    decreases s.len(),
{
    if i < s.len() {
        assert(s.drop_last().take(i) =~= s.take(i));
        lemma_total_prefix(s.drop_last(), i);
    } else {
        assert(s.take(i) =~= s);
    }
}

/// The balance of a token in a list of balances, zero where it has none.
pub open spec fn balance_in(s: Seq<(Seq<char>, u64)>, token: Seq<char>) -> u64 {
    let m = keyed_map(s, balance_key());
    if m.contains_key(token) {
        m[token].1
    } else {
        0
    }
}

/// What a deposit of `amount` of `token` from `from` at clock reading `now`
/// makes of `pre`, returning `r`: the token's balance grows by the amount
/// and the deposit is recorded.
pub open spec fn deposit_outcome(pre: Treasury, post: Treasury, from: Seq<char>, token: Seq<char>, amount: u64, now: u64, r: Result<(), GovernanceError>) -> bool {
    &&& r is Ok
    &&& post.spec_address() == pre.spec_address()
    &&& keyed_map(post.spec_balance_list(), balance_key()) == keyed_map(
        pre.spec_balance_list(),
        balance_key()
    ).insert(token, (token, (pre.spec_balance(token) + amount) as u64))
    &&& post.spec_balance(token) == pre.spec_balance(token) + amount
    &&& post.spec_total() == pre.spec_total() + amount
    &&& post.spec_transactions() == pre.spec_transactions().push(
        recorded(
            pre.spec_transactions().len() + 1,
            from,
            pre.spec_address(),
            amount,
            token,
            "Deposit"@,
            now,
            pre.spec_address(),
        )
    )
}

/// What a transfer of `amount` of the native token to `to` at clock reading
/// `now` makes of `pre`, returning `r`: short funds are refused and nothing
/// changes; otherwise the native balance falls by the amount, the other
/// balances stay, and the transfer is recorded.
pub open spec fn transfer_outcome(pre: Treasury, post: Treasury, to: Seq<char>, amount: u64, now: u64, r: Result<(), GovernanceError>) -> bool {
    &&& post.spec_address() == pre.spec_address()
    &&& pre.spec_balance(pre.spec_address()) < amount ==> r == Err::<(), GovernanceError>(
        GovernanceError::InsufficientFunds
    ) && post.spec_balance_list() == pre.spec_balance_list()
        && post.spec_transactions() == pre.spec_transactions()
    &&& pre.spec_balance(pre.spec_address()) >= amount ==> r is Ok && keyed_map(
        post.spec_balance_list(),
        balance_key()
    ) == keyed_map(pre.spec_balance_list(), balance_key()).insert(
        pre.spec_address(),
        (pre.spec_address(), (pre.spec_balance(pre.spec_address()) - amount) as u64)
    ) && post.spec_total() + amount == pre.spec_total()
        && post.spec_transactions() == pre.spec_transactions().push(
        recorded(
            pre.spec_transactions().len() + 1,
            pre.spec_address(),
            to,
            amount,
            pre.spec_address(),
            "Treasury transfer"@,
            now,
            pre.spec_address(),
        )
    )
}

/// The transaction that the treasury records.
pub open spec fn recorded(
    id: nat,
    from: Seq<char>,
    to: Seq<char>,
    amount: u64,
    token: Seq<char>,
    description: Seq<char>,
    now: u64,
    executed_by: Seq<char>,
) -> TransactionView {
    TransactionView { id: id as u64, from, to, amount, token, description, timestamp: now, executed_by }
}

#[derive(Debug, Clone)]
pub struct Treasury {
    address: Address,
    balances: Vec<(Address, u64)>,
    transactions: Vec<TreasuryTransaction>,
}

impl Treasury {
    /// The treasury's own address, which is also its native token.
    pub closed spec fn spec_address(&self) -> Seq<char> {
        self.address@
    }

    /// The balances in the order their tokens first appeared.
    pub closed spec fn spec_balance_list(&self) -> Seq<(Seq<char>, u64)> {
        balance_views(self.balances@)
    }

    /// The balance of a token.
    pub open spec fn spec_balance(&self, token: Seq<char>) -> u64 {
        balance_in(self.spec_balance_list(), token)
    }

    /// The tokens that have a balance entry.
    pub open spec fn spec_tokens(&self) -> Set<Seq<char>> {
        keyed_map(self.spec_balance_list(), balance_key()).dom()
    }

    /// The sum of all balances.
    pub open spec fn spec_total(&self) -> nat {
        balances_total(self.spec_balance_list())
    }

    /// The ledger, oldest first.
    pub closed spec fn spec_transactions(&self) -> Seq<TransactionView> {
        self.transactions@.map_values(|t: TreasuryTransaction| t@)
    }

    /// One balance per token; the transaction at position `i` has id `i + 1`.
    pub closed spec fn wf(&self) -> bool {
        &&& keys_distinct(self.spec_balance_list(), balance_key())
        &&& forall|i: int| 0 <= i < self.transactions@.len() ==> (#[trigger] self.transactions@[i]).id == i + 1
    }

    /// The transaction at position `i` has id `i + 1`.
    pub proof fn lemma_ids(&self, i: int)
        requires
            self.wf(),
            0 <= i < self.spec_transactions().len(),
        ensures
            self.spec_transactions()[i].id == i + 1,
    {
        assert(self.spec_transactions()[i] == self.transactions@[i]@);
    }

    /// An empty treasury at an address.
    pub fn new(address: Address) -> (r: Result<Treasury, GovernanceError>)
        ensures
            r matches Ok(t) && t.wf() && t.spec_address() == address@ && t.spec_balance_list().len() == 0
                && t.spec_transactions().len() == 0 && t.spec_total() == 0,
    {
        let t = Treasury { address, balances: Vec::new(), transactions: Vec::new() };
        assert(t.spec_balance_list() =~= Seq::<(Seq<char>, u64)>::empty());
        assert(t.spec_transactions() =~= Seq::<TransactionView>::empty());
        Ok(t)
    }

    /// The treasury's address.
    pub fn address(&self) -> (r: &Address)
        ensures
            r@ == self.spec_address(),
    {
        &self.address
    }

    /// Position of the balance of a token.
    fn find_balance(&self, token: &Address) -> (r: Option<usize>)
        requires
            self.wf(),
        ensures
            match r {
                Some(i) => i < self.balances@.len() && self.balances@[i as int].0@ == token@
                    && keyed_map(self.spec_balance_list(), balance_key()).contains_key(token@)
                    && keyed_map(self.spec_balance_list(), balance_key())[token@] == self.spec_balance_list()[i as int],
                None => !keyed_map(self.spec_balance_list(), balance_key()).contains_key(token@),
            },
    {
        let mut i: usize = 0;
        while i < self.balances.len()
            invariant
                0 <= i <= self.balances@.len(),
                self.wf(),
                forall|j: int| 0 <= j < i ==> (#[trigger] self.balances@[j]).0@ != token@,
            decreases self.balances@.len() - i,
        {
            if self.balances[i].0.same_as(token) {
                proof {
                    lemma_keyed_map_index(self.spec_balance_list(), balance_key(), i as int);
                }
                return Some(i);
            }
            i = i + 1;
        }
        proof {
            assert forall|j: int| 0 <= j < self.spec_balance_list().len() implies (balance_key())(
                self.spec_balance_list()[j],
            ) != token@ by {
                assert(self.spec_balance_list()[j] == (self.balances@[j].0@, self.balances@[j].1));
            }
            lemma_keyed_map_absent(self.spec_balance_list(), balance_key(), token@);
        }
        None
    }

    /// Sets the balance of a token, adding an entry for a new token.
    fn set_balance(&mut self, token: &Address, amount: u64)
        requires
            old(self).wf(),
        ensures
            final(self).wf(),
            final(self).spec_address() == old(self).spec_address(),
            final(self).spec_transactions() == old(self).spec_transactions(),
            final(self).transactions@ == old(self).transactions@,
            keyed_map(final(self).spec_balance_list(), balance_key()) == keyed_map(
                old(self).spec_balance_list(),
                balance_key(),
            ).insert(token@, (token@, amount)),
            final(self).spec_total() + old(self).spec_balance(token@) == old(self).spec_total() + amount,
    {
        let ghost before = self.spec_balance_list();
        match self.find_balance(token) {
            Some(i) => {
                self.balances.set(i, (self.balances[i].0.duplicate(), amount));
                proof {
                    let p = (token@, amount);
                    assert(self.spec_balance_list() =~= before.update(i as int, p));
                    lemma_keyed_map_update(before, balance_key(), i as int, p);
                    lemma_total_update(before, i as int, p);
                }
            },
            None => {
                self.balances.push((token.duplicate(), amount));
                proof {
                    let p = (token@, amount);
                    assert(self.spec_balance_list() =~= before.push(p));
                    assert(self.spec_balance_list().drop_last() =~= before);
                    lemma_keys_distinct_push(before, balance_key(), p);
                    lemma_total_push(before, p);
                }
            },
        }
    }

    /// Appends a transaction with the next id.
    fn record(&mut self, from: Address, to: Address, amount: u64, token: Address, description: String, now: u64)
        requires
            old(self).wf(),
            old(self).spec_transactions().len() < u64::MAX,
        ensures
            final(self).wf(),
            final(self).spec_address() == old(self).spec_address(),
            final(self).spec_balance_list() == old(self).spec_balance_list(),
            final(self).spec_transactions() == old(self).spec_transactions().push(
                recorded(
                    old(self).spec_transactions().len() + 1,
                    from@,
                    to@,
                    amount,
                    token@,
                    description@,
                    now,
                    old(self).spec_address(),
                ),
            ),
    {
        let id = self.transactions.len() as u64 + 1;
        let tx = TreasuryTransaction {
            id,
            from,
            to,
            amount,
            token,
            description,
            timestamp: now,
            executed_by: self.address.duplicate(),
        };
        self.transactions.push(tx);
        proof {
            assert(self.spec_transactions() =~= old(self).spec_transactions().push(self.transactions@.last()@));
        }
    }

    /// Deposits `amount` of `token` from `from` at clock reading `now`.
    pub fn deposit_at(&mut self, from: Address, token: Address, amount: u64, now: u64) -> (r: Result<(), GovernanceError>)
        requires
            old(self).wf(),
            old(self).spec_balance(token@) + amount <= u64::MAX,
            old(self).spec_transactions().len() < u64::MAX,
        ensures
            final(self).wf(),
            deposit_outcome(*old(self), *final(self), from@, token@, amount, now, r),
    {
        let current = self.get_balance(&token);
        self.set_balance(&token, current + amount);
        let to = self.address.duplicate();
        self.record(from, to, amount, token, String::from_str("Deposit"), now);
        Ok(())
    }

    /// Deposits `amount` of `token` from `from` now.
    pub fn deposit(&mut self, from: Address, token: Address, amount: u64) -> (r: Result<(), GovernanceError>)
        requires
            old(self).wf(),
            old(self).spec_balance(token@) + amount <= u64::MAX,
            old(self).spec_transactions().len() < u64::MAX,
        ensures
            final(self).wf(),
            exists|now: u64| #[trigger] deposit_outcome(*old(self), *final(self), from@, token@, amount, now, r),
    {
        let now = now_millis();
        let ghost (f, t) = (from@, token@);
        let r = self.deposit_at(from, token, amount, now);
        assert(deposit_outcome(*old(self), *self, f, t, amount, now, r));
        r
    }

    /// Sends `amount` of the native token to `to` at clock reading `now`.
    pub fn transfer_at(&mut self, to: &Address, amount: u64, now: u64) -> (r: Result<(), GovernanceError>)
        requires
            old(self).wf(),
            old(self).spec_transactions().len() < u64::MAX,
        ensures
            final(self).wf(),
            transfer_outcome(*old(self), *final(self), to@, amount, now, r),
    {
        let native = self.address.duplicate();
        let balance = self.get_balance(&native);
        if balance < amount {
            return Err(GovernanceError::InsufficientFunds);
        }
        self.set_balance(&native, balance - amount);
        let from = self.address.duplicate();
        self.record(from, to.duplicate(), amount, native, String::from_str("Treasury transfer"), now);
        Ok(())
    }

    /// Sends `amount` of the native token to `to` now.
    pub fn transfer(&mut self, to: &Address, amount: u64) -> (r: Result<(), GovernanceError>)
        requires
            old(self).wf(),
            old(self).spec_transactions().len() < u64::MAX,
        ensures
            final(self).wf(),
            exists|now: u64| #[trigger] transfer_outcome(*old(self), *final(self), to@, amount, now, r),
    {
        let now = now_millis();
        let r = self.transfer_at(to, amount, now);
        assert(transfer_outcome(*old(self), *self, to@, amount, now, r));
        r
    }

    /// The balance of a token, zero where it has none.
    pub fn get_balance(&self, token: &Address) -> (r: u64)
        requires
            self.wf(),
        ensures
            r == self.spec_balance(token@),
    {
        match self.find_balance(token) {
            Some(i) => self.balances[i].1,
            None => 0,
        }
    }

    /// The sum of all balances.
    pub fn get_total_balance(&self) -> (r: u64)
        requires
            self.wf(),
            self.spec_total() <= u64::MAX,
        ensures
            r == self.spec_total(),
    {
        let ghost s = self.spec_balance_list();
        let mut sum: u64 = 0;
        let mut i: usize = 0;
        while i < self.balances.len()
            invariant
                0 <= i <= self.balances@.len(),
                s == balance_views(self.balances@),
                balances_total(s) <= u64::MAX,
                sum == balances_total(s.take(i as int)),
            decreases self.balances@.len() - i,
        {
            proof {
                assert(s.take(i + 1).drop_last() =~= s.take(i as int));
                lemma_total_prefix(s, i + 1);
            }
            sum = sum + self.balances[i].1;
            i = i + 1;
        }
        assert(s.take(i as int) =~= s);
        sum
    }

    /// The ledger, most recent first, at most `limit` entries.
    pub fn get_transaction_history(&self, limit: Option<usize>) -> (r: Vec<&TreasuryTransaction>)
        ensures
            r@.len() == match limit {
                Some(l) => if l < self.spec_transactions().len() { l as int } else { self.spec_transactions().len() as int },
                None => self.spec_transactions().len() as int,
            },
            forall|k: int| 0 <= k < r@.len() ==> (#[trigger] r@[k])@ == self.spec_transactions()[self.spec_transactions().len() - 1 - k],
    {
        let n = self.transactions.len();
        let count = match limit {
            Some(l) => if l < n { l } else { n },
            None => n,
        };
        let mut out: Vec<&TreasuryTransaction> = Vec::new();
        let mut k: usize = 0;
        while k < count
            invariant
                0 <= k <= count <= n,
                n == self.transactions@.len(),
                out@.len() == k,
                forall|j: int| 0 <= j < k ==> (#[trigger] out@[j])@ == self.spec_transactions()[n - 1 - j],
            decreases count - k,
        {
            out.push(&self.transactions[n - 1 - k]);
            k = k + 1;
        }
        out
    }

    /// The transaction with an id.
    pub fn get_transaction(&self, id: u64) -> (r: Option<&TreasuryTransaction>)
        requires
            self.wf(),
        ensures
            match r {
                Some(t) => 1 <= id <= self.spec_transactions().len() && t@ == self.spec_transactions()[id - 1],
                None => !(1 <= id <= self.spec_transactions().len()),
            },
    {
        let mut i: usize = 0;
        while i < self.transactions.len()
            invariant
                0 <= i <= self.transactions@.len(),
                self.wf(),
                forall|j: int| 0 <= j < i ==> (#[trigger] self.transactions@[j]).id != id,
            decreases self.transactions@.len() - i,
        {
            if self.transactions[i].id == id {
                return Some(&self.transactions[i]);
            }
            i = i + 1;
        }
        proof {
            if 1 <= id <= self.spec_transactions().len() {
                assert(self.transactions@[id - 1].id == id);
            }
        }
        None
    }

    /// The balances, one entry per token.
    pub fn get_balances(&self) -> (r: &Vec<(Address, u64)>)
        ensures
            balance_views(r@) == self.spec_balance_list(),
    {
        &self.balances
    }
}

} // verus!
