//! What holds of the pool whatever is done with it: the laws that relate
//! its operations to each other and to its state.

use vstd::prelude::*;
use crate::account::{AccountId, Grant};
use crate::error::Error;
use crate::ledger::ShareLedger;
use crate::pricing::{lemma_swap_quote_monotone, lemma_swap_quote_strictly_monotone, proportion};
use crate::staking::Staking;

verus! {

impl ShareLedger {
    /// Of two approvals of one spender by one owner only the second stays
    /// in effect: the ledger afterwards is what the second alone would have
    /// left.
    pub proof fn lemma_approve_keeps_last(
        first: ShareLedger,
        second: ShareLedger,
        third: ShareLedger,
        owner: AccountId,
        spender: AccountId,
        earlier: u128,
        later: u128,
    )
        requires
            second.approved(&first, owner, spender, earlier),
            third.approved(&second, owner, spender, later),
        ensures
            third.approved(&first, owner, spender, later),
            third.spec_allowance(owner, spender) == later,
    {
        assert forall|o: AccountId, s: AccountId| #[trigger]
            third.spec_allowance(o, s) == (if o == owner && s == spender {
                later
            } else {
                first.spec_allowance(o, s)
            }) by {
            assert(second.spec_allowance(o, s) == (if o == owner && s == spender {
                earlier
            } else {
                first.spec_allowance(o, s)
            }));
        }
        assert forall|account: AccountId| #[trigger]
            third.spec_balance_of(account) == first.spec_balance_of(account) by {
            assert(second.spec_balance_of(account) == first.spec_balance_of(account));
        }
        let grant = Grant { owner, spender };
        assert(second.grants().contains(grant)) by {
            if !first.grants().contains(grant) {
                assert(first.grants().push(grant)[first.grants().len() as int] == grant);
            }
        }
    }
}

impl Staking {
    /// The part of `reserve` that each of `accounts` would be estimated for
    /// its whole balance, added up.
    pub open spec fn sum_of_estimates(&self, accounts: Seq<AccountId>, reserve: int) -> int
        decreases accounts.len(),
    {
        if accounts.len() == 0 {
            0
        } else {
            self.sum_of_estimates(accounts.drop_last(), reserve) + proportion(
                self.spec_balance_of(accounts.last()) as int,
                reserve,
                self.spec_total_supply() as int,
            )
        }
    }

    /// Over any list of accounts, the estimates times the number of shares
    /// fall short of the reserve times the listed balances by less than
    /// one share's worth for each listed share.
    proof fn lemma_estimates_bracket(self, accounts: Seq<AccountId>, reserve: int)
        requires
            self.spec_total_supply() != 0,
            0 <= reserve,
        ensures
            self.spec_total_supply() * self.sum_of_estimates(accounts, reserve) <= reserve
                * self.ledger().sum_of_balances(accounts),
            reserve * self.ledger().sum_of_balances(accounts) <= self.spec_total_supply()
                * self.sum_of_estimates(accounts, reserve) + (self.spec_total_supply() - 1)
                * self.ledger().sum_of_balances(accounts),
        decreases accounts.len(),
    {
        let supply = self.spec_total_supply() as int;
        if accounts.len() == 0 {
            assert(supply * 0 == 0 && reserve * 0 == 0 && (supply - 1) * 0 == 0);
        } else {
            let rest = accounts.drop_last();
            self.lemma_estimates_bracket(rest, reserve);
            let balance = self.spec_balance_of(accounts.last()) as int;
            let part = proportion(balance, reserve, supply);
            let sum_parts = self.sum_of_estimates(rest, reserve);
            let sum_balances = self.ledger().sum_of_balances(rest) as int;
            vstd::arithmetic::div_mod::lemma_fundamental_div_mod(balance * reserve, supply);
            let rem = (balance * reserve) % supply;
            assert(0 <= rem < supply) by {
                vstd::arithmetic::div_mod::lemma_mod_pos_bound(balance * reserve, supply);
            }
            assert(rem <= (supply - 1) * balance) by {
                if balance == 0 {
                    assert(balance * reserve == 0) by (nonlinear_arith)
                        requires
                            balance == 0,
                    ;
                } else {
                    assert((supply - 1) * balance >= supply - 1) by (nonlinear_arith)
                        requires
                            balance >= 1,
                            supply >= 1,
                    ;
                }
            }
            assert(supply * (sum_parts + part) == supply * sum_parts + supply * part)
                by (nonlinear_arith);
            assert(reserve * (sum_balances + balance) == reserve * sum_balances + balance
                * reserve) by (nonlinear_arith);
            assert((supply - 1) * (sum_balances + balance) == (supply - 1) * sum_balances + (supply
                - 1) * balance) by (nonlinear_arith);
        }
    }

    /// The shares that exist are the balances of the holders added up: no
    /// holder is counted twice, and whoever is not a holder has nothing.
    pub proof fn lemma_total_supply_is_sum_of_balances(self)
        requires
            self.wf(),
        ensures
            self.spec_total_supply() == self.ledger().sum_of_balances(self.ledger().holders()),
            self.ledger().holders().no_duplicates(),
            forall|account: AccountId|
                !self.ledger().holders().contains(account) ==> #[trigger] self.spec_balance_of(
                    account,
                ) == 0,
    {
        self.ledger().lemma_supply_is_sum_of_balances();
    }

    /// What all holders together would be estimated for their balances
    /// falls short of each reserve by less than the number of shares: each
    /// estimate is rounded down, and the pool keeps the remainders.
    pub proof fn lemma_estimates_fill_reserves(self)
        requires
            self.wf(),
            self.spec_total_supply() != 0,
        ensures
            self.spec_total_sushi() - (self.spec_total_supply() - 1) <= self.sum_of_estimates(
                self.ledger().holders(),
                self.spec_total_sushi() as int,
            ) <= self.spec_total_sushi(),
            self.spec_total_xsushi() - (self.spec_total_supply() - 1) <= self.sum_of_estimates(
                self.ledger().holders(),
                self.spec_total_xsushi() as int,
            ) <= self.spec_total_xsushi(),
    {
        let supply = self.spec_total_supply() as int;
        let holders = self.ledger().holders();
        self.ledger().lemma_supply_is_sum_of_balances();
        self.lemma_estimates_bracket(holders, self.spec_total_sushi() as int);
        self.lemma_estimates_bracket(holders, self.spec_total_xsushi() as int);
        let sushi = self.spec_total_sushi() as int;
        let parts = self.sum_of_estimates(holders, sushi);
        assert(sushi - (supply - 1) <= parts <= sushi) by (nonlinear_arith)
            requires
                supply > 0,
                supply * parts <= sushi * supply,
                sushi * supply <= supply * parts + (supply - 1) * supply,
        ;
        let xsushi = self.spec_total_xsushi() as int;
        let xparts = self.sum_of_estimates(holders, xsushi);
        assert(xsushi - (supply - 1) <= xparts <= xsushi) by (nonlinear_arith)
            requires
                supply > 0,
                supply * xparts <= xsushi * supply,
                xsushi * supply <= supply * xparts + (supply - 1) * supply,
        ;
    }

    /// The swap estimate never falls when more sushi is asked for, it rises
    /// wherever the reserve of xsushi after the swap does, and it is
    /// refused as soon as the whole reserve of sushi or more is asked for.
    pub proof fn lemma_swap_estimate_monotone(self, less: u128, more: u128)
        requires
            self.is_active(),
            self.spec_fees() < 1000,
            less <= more,
        ensures
            more >= self.spec_total_sushi() ==> self.spec_swap_estimate(more) == Err::<int, Error>(
                Error::InsufficientLiquidity,
            ),
            more < self.spec_total_sushi() ==> self.spec_swap_estimate(less) is Ok
                && self.spec_swap_estimate(more) is Ok && 0 <= self.spec_swap_estimate(
                less,
            ).unwrap() <= self.spec_swap_estimate(more).unwrap(),
            more < self.spec_total_sushi() && self.spec_total_sushi() * self.spec_total_xsushi() / (
            self.spec_total_sushi() - less) < self.spec_total_sushi() * self.spec_total_xsushi() / (
            self.spec_total_sushi() - more) ==> self.spec_swap_estimate(less).unwrap()
                < self.spec_swap_estimate(more).unwrap(),
    {
        if more < self.spec_total_sushi() {
            lemma_swap_quote_monotone(
                self.spec_total_sushi() as int,
                self.spec_total_xsushi() as int,
                self.spec_fees() as int,
                less as int,
                more as int,
            );
            if less < more {
                lemma_swap_quote_strictly_monotone(
                    self.spec_total_sushi() as int,
                    self.spec_total_xsushi() as int,
                    self.spec_fees() as int,
                    less as int,
                    more as int,
                );
            }
        }
    }
}

} // verus!
