//! The share ledger: who holds how many shares, and who may move whose.

use vstd::prelude::*;
use crate::account::{AccountId, Grant};
use crate::error::Error;
use crate::events::{Approval, Transfer};
use crate::table::{listed, Table};

verus! {

/// Balances and allowances of the pool's shares, with the number of shares
/// that exist. An account without an entry holds nothing, an owner and a
/// spender without an entry have agreed on nothing.
pub struct ShareLedger {
    balances: Table<AccountId, u128>,
    allowances: Table<Grant, u128>,
    total: u128,
}

impl ShareLedger {
    /// The accounts that were ever credited, each once, in the order of their
    /// first credit.
    pub closed spec fn holders(&self) -> Seq<AccountId> {
        self.balances.keys()
    }

    /// The pairs of owner and spender for which an allowance was ever set,
    /// each once, in the order in which they were first approved.
    pub closed spec fn grants(&self) -> Seq<Grant> {
        self.allowances.keys()
    }

    /// The shares that `account` holds.
    pub closed spec fn spec_balance_of(&self, account: AccountId) -> u128 {
        if self.balances@.contains_key(account) {
            self.balances@[account]
        } else {
            0
        }
    }

    /// The shares of `owner` that `spender` may still move.
    pub closed spec fn spec_allowance(&self, owner: AccountId, spender: AccountId) -> u128 {
        let grant = Grant { owner, spender };
        if self.allowances@.contains_key(grant) {
            self.allowances@[grant]
        } else {
            0
        }
    }

    /// The number of shares that exist.
    pub closed spec fn spec_total_supply(&self) -> u128 {
        self.total
    }

    /// The balances of `accounts`, added up.
    pub open spec fn sum_of_balances(&self, accounts: Seq<AccountId>) -> nat
        decreases accounts.len(),
    {
        if accounts.len() == 0 {
            0
        } else {
            self.sum_of_balances(accounts.drop_last()) + self.spec_balance_of(accounts.last()) as nat
        }
    }

    /// The two tables are in order.
    closed spec fn tables_wf(&self) -> bool {
        &&& self.balances.wf()
        &&& self.allowances.wf()
    }

    /// The ledger is in order: no holder is listed twice, and the shares that
    /// exist are the shares that the holders hold.
    pub closed spec fn wf(&self) -> bool {
        &&& self.tables_wf()
        &&& self.total == self.sum_of_balances(self.holders())
    }

    /// Where two ledgers agree on every balance but that of `account`, their
    /// sums over a list without repetition differ by what `account` gained,
    /// if it is listed, and not at all if it is not.
    proof fn lemma_sum_one_change(
        pre: ShareLedger,
        post: ShareLedger,
        accounts: Seq<AccountId>,
        account: AccountId,
    )
        requires
            accounts.no_duplicates(),
            forall|x: AccountId| x != account ==> post.spec_balance_of(x) == pre.spec_balance_of(x),
        ensures
            post.sum_of_balances(accounts) == pre.sum_of_balances(accounts) + (if accounts.contains(
                account,
            ) {
                post.spec_balance_of(account) - pre.spec_balance_of(account)
            } else {
                0
            }),
        decreases accounts.len(),
    {
        if accounts.len() > 0 {
            let rest = accounts.drop_last();
            let last = accounts.last();
            assert(rest.no_duplicates());
            Self::lemma_sum_one_change(pre, post, rest, account);
            if last == account {
                assert(!rest.contains(account)) by {
                    if rest.contains(account) {
                        let j = rest.index_of(account);
                        assert(accounts[j] == accounts[accounts.len() - 1]);
                    }
                }
                assert(accounts.contains(account));
            } else {
                assert(rest.contains(account) <==> accounts.contains(account)) by {
                    if accounts.contains(account) {
                        let j = accounts.index_of(account);
                        assert(rest[j] == account);
                    }
                    if rest.contains(account) {
                        let j = rest.index_of(account);
                        assert(accounts[j] == account);
                    }
                }
            }
        }
    }

    /// A listed account holds no more than the whole list.
    proof fn lemma_balance_within_sum(self, accounts: Seq<AccountId>, account: AccountId)
        requires
            accounts.contains(account),
        ensures
            self.spec_balance_of(account) <= self.sum_of_balances(accounts),
        decreases accounts.len(),
    {
        let rest = accounts.drop_last();
        if accounts.last() != account {
            let j = accounts.index_of(account);
            assert(rest[j] == account);
            self.lemma_balance_within_sum(rest, account);
        }
    }

    /// The shares that exist are the balances of the holders added up; no
    /// holder is listed twice, and whoever is not listed holds nothing.
    pub proof fn lemma_supply_is_sum_of_balances(self)
        requires
            self.wf(),
        ensures
            self.spec_total_supply() == self.sum_of_balances(self.holders()),
            self.holders().no_duplicates(),
            forall|account: AccountId|
                !self.holders().contains(account) ==> #[trigger] self.spec_balance_of(account) == 0,
    {
        self.balances.lemma_keys();
    }

    /// No pair of owner and spender is listed twice, and where a pair is
    /// not listed the spender may move nothing.
    pub proof fn lemma_grants(self)
        requires
            self.wf(),
        ensures
            self.grants().no_duplicates(),
            forall|owner: AccountId, spender: AccountId|
                !self.grants().contains(Grant { owner, spender }) ==> #[trigger] self.spec_allowance(
                    owner,
                    spender,
                ) == 0,
    {
        self.allowances.lemma_keys();
    }

    /// No account holds more shares than exist.
    pub proof fn lemma_balance_within_supply(self, account: AccountId)
        requires
            self.wf(),
        ensures
            self.spec_balance_of(account) <= self.spec_total_supply(),
    {
        self.balances.lemma_keys();
        if self.holders().contains(account) {
            self.lemma_balance_within_sum(self.holders(), account);
        }
    }

    /// A ledger without shares.
    pub fn new() -> (r: ShareLedger)
        ensures
            r.wf(),
            r.spec_total_supply() == 0,
            r.holders() == Seq::<AccountId>::empty(),
            r.grants() == Seq::<Grant>::empty(),
            forall|account: AccountId| #[trigger] r.spec_balance_of(account) == 0,
            forall|owner: AccountId, spender: AccountId| #[trigger]
                r.spec_allowance(owner, spender) == 0,
    {
        ShareLedger { balances: Table::new(), allowances: Table::new(), total: 0 }
    }

    /// The number of shares that exist.
    pub fn total_supply(&self) -> (r: u128)
        ensures
            r == self.spec_total_supply(),
    {
        self.total
    }

    /// The number of accounts that were ever credited.
    pub fn holder_count(&self) -> (r: usize)
        ensures
            r == self.holders().len(),
    {
        self.balances.len()
    }

    /// The account that was credited `index`-th for the first time, counted
    /// from 0.
    pub fn holder(&self, index: usize) -> (r: AccountId)
        requires
            index < self.holders().len(),
        ensures
            r == self.holders()[index as int],
    {
        self.balances.key(index)
    }

    /// The number of pairs of owner and spender for which an allowance was
    /// ever set.
    pub fn grant_count(&self) -> (r: usize)
        ensures
            r == self.grants().len(),
    {
        self.allowances.len()
    }

    /// The pair of owner and spender that was approved `index`-th for the
    /// first time, counted from 0.
    pub fn grant(&self, index: usize) -> (r: Grant)
        requires
            index < self.grants().len(),
        ensures
            r == self.grants()[index as int],
    {
        self.allowances.key(index)
    }

    /// The shares that `owner` holds; 0 for an account that was never credited.
    pub fn balance_of(&self, owner: AccountId) -> (r: u128)
        requires
            self.wf(),
        ensures
            r == self.spec_balance_of(owner),
    {
        self.balance(owner)
    }

    fn balance(&self, owner: AccountId) -> (r: u128)
        requires
            self.tables_wf(),
        ensures
            r == self.spec_balance_of(owner),
    {
        match self.balances.get(&owner) {
            Some(v) => v,
            None => 0,
        }
    }

    /// The shares of `owner` that `spender` may still move; 0 where the owner
    /// never approved the spender.
    pub fn allowance(&self, owner: AccountId, spender: AccountId) -> (r: u128)
        requires
            self.wf(),
        ensures
            r == self.spec_allowance(owner, spender),
    {
        match self.allowances.get(&Grant { owner, spender }) {
            Some(v) => v,
            None => 0,
        }
    }

    /// Writes the balance of one account and leaves the count of shares alone.
    fn set_balance(&mut self, account: AccountId, value: u128)
        requires
            old(self).tables_wf(),
        ensures
            final(self).tables_wf(),
            final(self).spec_balance_of(account) == value,
            forall|x: AccountId|
                x != account ==> #[trigger] final(self).spec_balance_of(x) == old(
                    self,
                ).spec_balance_of(x),
            final(self).holders() == listed(old(self).holders(), account),
            final(self).allowances == old(self).allowances,
            final(self).total == old(self).total,
    {
        proof {
            self.balances.lemma_keys();
        }
        self.balances.insert(account, value);
    }

    /// What writing one balance does to the sum over the holders.
    proof fn lemma_set_balance_sum(pre: ShareLedger, post: ShareLedger, account: AccountId)
        requires
            pre.tables_wf(),
            forall|x: AccountId|
                x != account ==> #[trigger] post.spec_balance_of(x) == pre.spec_balance_of(x),
            post.holders() == listed(pre.holders(), account),
        ensures
            post.sum_of_balances(post.holders()) == pre.sum_of_balances(pre.holders())
                + post.spec_balance_of(account) - pre.spec_balance_of(account),
    {
        pre.balances.lemma_keys();
        Self::lemma_sum_one_change(pre, post, pre.holders(), account);
        if !pre.holders().contains(account) {
            assert(pre.holders().push(account).drop_last() =~= pre.holders());
        }
    }

    /// The same balances, the same holders and the same number of shares.
    pub open spec fn same_balances(&self, other: &ShareLedger) -> bool {
        &&& self.spec_total_supply() == other.spec_total_supply()
        &&& self.holders() == other.holders()
        &&& forall|account: AccountId| #[trigger]
            self.spec_balance_of(account) == other.spec_balance_of(account)
    }

    /// The same allowances, for the same pairs of owner and spender.
    pub open spec fn same_allowances(&self, other: &ShareLedger) -> bool {
        &&& self.grants() == other.grants()
        &&& forall|owner: AccountId, spender: AccountId| #[trigger]
            self.spec_allowance(owner, spender) == other.spec_allowance(owner, spender)
    }

    /// `self` is `before` after `value` shares went from `from` to `to`: the
    /// one lost them and the other gained them, unless they are one account,
    /// as many shares exist as before, and both are among the holders now.
    pub open spec fn moved(
        &self,
        before: &ShareLedger,
        from: AccountId,
        to: AccountId,
        value: u128,
    ) -> bool {
        &&& self.spec_total_supply() == before.spec_total_supply()
        &&& self.holders() == listed(listed(before.holders(), from), to)
        &&& forall|account: AccountId| #[trigger]
            self.spec_balance_of(account) == before.spec_balance_of(account) + (if account == to {
                value as int
            } else {
                0
            }) - (if account == from {
                value as int
            } else {
                0
            })
    }

    /// `self` is `before` after the balance of `account` and the number of
    /// shares both changed by `delta`; the account is among the holders now.
    pub open spec fn issued(&self, before: &ShareLedger, account: AccountId, delta: int) -> bool {
        &&& self.spec_total_supply() == before.spec_total_supply() + delta
        &&& self.holders() == listed(before.holders(), account)
        &&& forall|x: AccountId| #[trigger]
            self.spec_balance_of(x) == before.spec_balance_of(x) + (if x == account {
                delta
            } else {
                0
            })
    }

    /// `self` is `before` after `owner` allowed `spender` to move up to
    /// `value` shares: that allowance is `value`, and nothing else differs.
    pub open spec fn approved(
        &self,
        before: &ShareLedger,
        owner: AccountId,
        spender: AccountId,
        value: u128,
    ) -> bool {
        &&& self.same_balances(before)
        &&& self.grants() == listed(before.grants(), Grant { owner, spender })
        &&& forall|o: AccountId, s: AccountId| #[trigger]
            self.spec_allowance(o, s) == (if o == owner && s == spender {
                value
            } else {
                before.spec_allowance(o, s)
            })
    }

    /// `self` is `before` after `spender` used up `value` of what `owner`
    /// allowed: that allowance shrank by `value`, and no other differs.
    pub open spec fn spent(
        &self,
        before: &ShareLedger,
        owner: AccountId,
        spender: AccountId,
        value: u128,
    ) -> bool {
        &&& self.grants() == listed(before.grants(), Grant { owner, spender })
        &&& forall|o: AccountId, s: AccountId| #[trigger]
            self.spec_allowance(o, s) == before.spec_allowance(o, s) - (if o == owner && s
                == spender {
                value as int
            } else {
                0
            })
    }

    /// Whether `spender` may move `value` shares of `from`, and why not:
    /// the allowance is looked at first, the balance second.
    pub open spec fn spec_transfer_from(
        &self,
        spender: AccountId,
        from: AccountId,
        value: u128,
    ) -> Result<(), Error> {
        if self.spec_allowance(from, spender) < value {
            Err(Error::InsufficientAllowance)
        } else if self.spec_balance_of(from) < value {
            Err(Error::InsufficientBalance)
        } else {
            Ok(())
        }
    }

    /// Writes one allowance and leaves the balances alone.
    fn set_allowance(&mut self, owner: AccountId, spender: AccountId, value: u128)
        requires
            old(self).wf(),
        ensures
            final(self).wf(),
            final(self).approved(old(self), owner, spender, value),
    {
        let ghost pre = *self;
        self.allowances.insert(Grant { owner, spender }, value);
        proof {
            assert forall|x: AccountId| #[trigger]
                self.spec_balance_of(x) == pre.spec_balance_of(x) by {}
            pre.balances.lemma_keys();
            Self::lemma_sum_one_change(pre, *self, pre.holders(), owner);
        }
    }

    /// Lets `spender` move up to `value` shares of `owner`, whatever was
    /// agreed before, and says so.
    pub fn approve(&mut self, owner: AccountId, spender: AccountId, value: u128) -> (r: Approval)
        requires
            old(self).wf(),
        ensures
            final(self).wf(),
            final(self).approved(old(self), owner, spender, value),
            r == (Approval { owner, spender, value }),
    {
        self.set_allowance(owner, spender, value);
        Approval { owner, spender, value }
    }

    /// Moves `value` shares from `from` to `to`, if `from` holds as many.
    pub fn transfer(&mut self, from: AccountId, to: AccountId, value: u128) -> (r: Result<
        Transfer,
        Error,
    >)
        requires
            old(self).wf(),
        ensures
            final(self).wf(),
            old(self).spec_balance_of(from) < value ==> r == Err::<Transfer, Error>(
                Error::InsufficientBalance,
            ) && *final(self) == *old(self),
            old(self).spec_balance_of(from) >= value ==> r == Ok::<Transfer, Error>(
                Transfer { from: Some(from), to: Some(to), value },
            ) && final(self).moved(old(self), from, to, value) && final(self).same_allowances(
                old(self),
            ),
    {
        let from_balance = self.balance(from);
        if from_balance < value {
            return Err(Error::InsufficientBalance);
        }
        let ghost pre = *self;
        self.set_balance(from, from_balance - value);
        let ghost mid = *self;
        let to_balance = self.balance(to);
        proof {
            Self::lemma_set_balance_sum(pre, mid, from);
            mid.balances.lemma_keys();
            if mid.holders().contains(to) {
                mid.lemma_balance_within_sum(mid.holders(), to);
            }
        }
        self.set_balance(to, to_balance + value);
        proof {
            Self::lemma_set_balance_sum(mid, *self, to);
        }
        Ok(Transfer { from: Some(from), to: Some(to), value })
    }

    /// Moves `value` shares from `from` to `to` on behalf of `spender`, if
    /// `from` allowed the spender as many and holds as many; the allowance
    /// shrinks by what was moved.
    pub fn transfer_from(
        &mut self,
        spender: AccountId,
        from: AccountId,
        to: AccountId,
        value: u128,
    ) -> (r: Result<Transfer, Error>)
        requires
            old(self).wf(),
        ensures
            final(self).wf(),
            match old(self).spec_transfer_from(spender, from, value) {
                Ok(_) => r == Ok::<Transfer, Error>(
                    Transfer { from: Some(from), to: Some(to), value },
                ) && final(self).moved(old(self), from, to, value) && final(self).spent(
                    old(self),
                    from,
                    spender,
                    value,
                ),
                Err(e) => r == Err::<Transfer, Error>(e) && *final(self) == *old(self),
            },
    {
        let allowance = self.allowance(from, spender);
        if allowance < value {
            return Err(Error::InsufficientAllowance);
        }
        let moved = self.transfer(from, to, value);
        match moved {
            Ok(event) => {
                self.set_allowance(from, spender, allowance - value);
                Ok(event)
            },
            Err(e) => Err(e),
        }
    }

    /// Makes `amount` new shares and gives them to `account`.
    pub fn credit(&mut self, account: AccountId, amount: u128)
        requires
            old(self).wf(),
            old(self).spec_total_supply() + amount <= u128::MAX,
        ensures
            final(self).wf(),
            final(self).issued(old(self), account, amount as int),
            final(self).same_allowances(old(self)),
    {
        let ghost pre = *self;
        proof {
            pre.lemma_balance_within_supply(account);
        }
        let balance = self.balance(account);
        self.set_balance(account, balance + amount);
        let ghost mid = *self;
        self.total = self.total + amount;
        proof {
            assert forall|x: AccountId| #[trigger]
                self.spec_balance_of(x) == mid.spec_balance_of(x) by {}
            assert forall|o: AccountId, s: AccountId| #[trigger]
                self.spec_allowance(o, s) == mid.spec_allowance(o, s) by {}
            Self::lemma_set_balance_sum(pre, *self, account);
        }
    }

    /// Takes `amount` shares from `account` and destroys them.
    pub fn debit(&mut self, account: AccountId, amount: u128)
        requires
            old(self).wf(),
            amount <= old(self).spec_balance_of(account),
        ensures
            final(self).wf(),
            final(self).issued(old(self), account, -(amount as int)),
            final(self).same_allowances(old(self)),
    {
        let ghost pre = *self;
        proof {
            pre.lemma_balance_within_supply(account);
        }
        let balance = self.balance(account);
        self.set_balance(account, balance - amount);
        let ghost mid = *self;
        self.total = self.total - amount;
        proof {
            assert forall|x: AccountId| #[trigger]
                self.spec_balance_of(x) == mid.spec_balance_of(x) by {}
            assert forall|o: AccountId, s: AccountId| #[trigger]
                self.spec_allowance(o, s) == mid.spec_allowance(o, s) by {}
            Self::lemma_set_balance_sum(pre, *self, account);
        }
    }
}

} // verus!
