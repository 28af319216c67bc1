//! The pool: two reserves, the share ledger and the clock of each deposit,
//! with the operations that enter, leave and swap.

use vstd::prelude::*;
use crate::account::{AccountId, Grant};
use crate::error::Error;
use crate::events::{Approval, Transfer};
use crate::ledger::ShareLedger;
use crate::pricing::{
    lemma_proportion_bounded,
    lemma_proportion_leaves_rest,
    lemma_product_kept,
    mul_div,
    pay_out,
    payout,
    proportion,
    quote_swap,
    swap_quote,
    DECIMALS,
    GENESIS_SHARES,
};
use crate::table::{listed, Table};

verus! {

/// A pool of two assets, here called sushi and xsushi. The caller of an
/// operation and the time of the call are handed in by whoever hosts the
/// pool; moving the assets themselves is the host's work too, and follows
/// what an operation returns.
pub struct Staking {
    sushi: AccountId,
    xsushi: AccountId,
    total_sushi: u128,
    total_xsushi: u128,
    fees: u16,
    ledger: ShareLedger,
    staked_at: Table<AccountId, u64>,
}

impl Staking {
    /// Where the sushi is kept.
    pub closed spec fn spec_sushi(&self) -> AccountId {
        self.sushi
    }

    /// Where the xsushi is kept.
    pub closed spec fn spec_xsushi(&self) -> AccountId {
        self.xsushi
    }

    /// The pool's reserve of sushi.
    pub closed spec fn spec_total_sushi(&self) -> u128 {
        self.total_sushi
    }

    /// The pool's reserve of xsushi.
    pub closed spec fn spec_total_xsushi(&self) -> u128 {
        self.total_xsushi
    }

    /// The swap fee, in parts of a thousand.
    pub closed spec fn spec_fees(&self) -> u16 {
        self.fees
    }

    /// The share ledger.
    pub closed spec fn ledger(&self) -> ShareLedger {
        self.ledger
    }

    /// When `account` last entered, if it ever did.
    pub closed spec fn spec_staked_at(&self, account: AccountId) -> Option<u64> {
        if self.staked_at@.contains_key(account) {
            Some(self.staked_at@[account])
        } else {
            None
        }
    }

    /// The accounts that ever entered, each once, in the order in which
    /// they first did.
    pub closed spec fn stakers(&self) -> Seq<AccountId> {
        self.staked_at.keys()
    }

    /// The number of shares that exist.
    #[verifier::inline]
    pub open spec fn spec_total_supply(&self) -> u128 {
        self.ledger().spec_total_supply()
    }

    /// The shares that `account` holds.
    #[verifier::inline]
    pub open spec fn spec_balance_of(&self, account: AccountId) -> u128 {
        self.ledger().spec_balance_of(account)
    }

    /// The shares of `owner` that `spender` may still move.
    #[verifier::inline]
    pub open spec fn spec_allowance(&self, owner: AccountId, spender: AccountId) -> u128 {
        self.ledger().spec_allowance(owner, spender)
    }

    /// The clock's table is in order.
    pub closed spec fn clock_wf(&self) -> bool {
        self.staked_at.wf()
    }

    /// The pool is in order: the ledger is, the clock is, and a pool without
    /// shares has empty reserves.
    pub open spec fn wf(&self) -> bool {
        &&& self.ledger().wf()
        &&& self.clock_wf()
        &&& self.spec_total_supply() == 0 ==> self.spec_total_sushi() == 0
            && self.spec_total_xsushi() == 0
    }

    /// The pool has liquidity: neither reserve is empty.
    pub open spec fn is_active(&self) -> bool {
        self.spec_total_sushi() * self.spec_total_xsushi() != 0
    }

    /// The pool is either empty or seeded: the reserves and the shares are
    /// all zero, or none of them is.
    pub open spec fn is_settled(&self) -> bool {
        &&& self.spec_total_sushi() == 0 <==> self.spec_total_supply() == 0
        &&& self.spec_total_xsushi() == 0 <==> self.spec_total_supply() == 0
    }

    /// The same assets, the same fee.
    pub open spec fn same_terms(&self, other: &Staking) -> bool {
        &&& self.spec_sushi() == other.spec_sushi()
        &&& self.spec_xsushi() == other.spec_xsushi()
        &&& self.spec_fees() == other.spec_fees()
    }

    /// The same reserves.
    pub open spec fn same_reserves(&self, other: &Staking) -> bool {
        &&& self.spec_total_sushi() == other.spec_total_sushi()
        &&& self.spec_total_xsushi() == other.spec_total_xsushi()
    }

    /// The same clock for every account, and the same accounts with one.
    pub open spec fn same_clock(&self, other: &Staking) -> bool {
        &&& self.stakers() == other.stakers()
        &&& forall|account: AccountId| #[trigger]
            self.spec_staked_at(account) == other.spec_staked_at(account)
    }

    /// An empty pool for the two assets, with a swap fee of `fees` parts in a
    /// thousand.
    pub fn new(sushi: AccountId, xsushi: AccountId, fees: u16) -> (r: Staking)
        ensures
            r.wf(),
            r.is_settled(),
            r.spec_sushi() == sushi,
            r.spec_xsushi() == xsushi,
            r.spec_fees() == fees,
            r.spec_total_sushi() == 0,
            r.spec_total_xsushi() == 0,
            r.spec_total_supply() == 0,
            forall|account: AccountId| #[trigger] r.spec_balance_of(account) == 0,
            forall|owner: AccountId, spender: AccountId| #[trigger]
                r.spec_allowance(owner, spender) == 0,
            forall|account: AccountId| #[trigger] r.spec_staked_at(account).is_none(),
            r.ledger().holders() == Seq::<AccountId>::empty(),
            r.ledger().grants() == Seq::<Grant>::empty(),
            r.stakers() == Seq::<AccountId>::empty(),
    {
        Staking {
            sushi,
            xsushi,
            total_sushi: 0,
            total_xsushi: 0,
            fees,
            ledger: ShareLedger::new(),
            staked_at: Table::new(),
        }
    }

    /// The pool with the given reserves, ledger and clock, if they go
    /// together: `None` where the ledger has no shares and a reserve is not
    /// empty.
    pub fn restore(
        sushi: AccountId,
        xsushi: AccountId,
        fees: u16,
        total_sushi: u128,
        total_xsushi: u128,
        ledger: ShareLedger,
        staked_at: Table<AccountId, u64>,
    ) -> (r: Option<Staking>)
        requires
            ledger.wf(),
            staked_at.wf(),
        ensures
            r is Some <==> (ledger.spec_total_supply() == 0 ==> total_sushi == 0 && total_xsushi
                == 0),
            match r {
                Some(pool) => {
                    &&& pool.wf()
                    &&& pool.spec_sushi() == sushi
                    &&& pool.spec_xsushi() == xsushi
                    &&& pool.spec_fees() == fees
                    &&& pool.spec_total_sushi() == total_sushi
                    &&& pool.spec_total_xsushi() == total_xsushi
                    &&& pool.ledger() == ledger
                    &&& pool.stakers() == staked_at.keys()
                    &&& forall|account: AccountId| #[trigger]
                        pool.spec_staked_at(account) == (if staked_at@.contains_key(account) {
                            Some(staked_at@[account])
                        } else {
                            None
                        })
                },
                None => true,
            },
    {
        if ledger.total_supply() == 0 && (total_sushi != 0 || total_xsushi != 0) {
            return None;
        }
        Some(Staking { sushi, xsushi, total_sushi, total_xsushi, fees, ledger, staked_at })
    }

    /// The share ledger.
    pub fn share_ledger(&self) -> (r: &ShareLedger)
        ensures
            *r == self.ledger(),
    {
        &self.ledger
    }

    /// The number of accounts that ever entered.
    pub fn staker_count(&self) -> (r: usize)
        ensures
            r == self.stakers().len(),
    {
        self.staked_at.len()
    }

    /// The account that entered `index`-th for the first time, counted
    /// from 0.
    pub fn staker(&self, index: usize) -> (r: AccountId)
        requires
            index < self.stakers().len(),
        ensures
            r == self.stakers()[index as int],
    {
        self.staked_at.key(index)
    }

    /// No account is listed twice among those that entered, and they are
    /// the accounts that have a clock.
    pub proof fn lemma_stakers(self)
        requires
            self.wf(),
        ensures
            self.stakers().no_duplicates(),
            forall|account: AccountId|
                self.stakers().contains(account) <==> #[trigger] self.spec_staked_at(
                    account,
                ) is Some,
    {
        self.staked_at.lemma_keys();
    }

    /// Where the sushi is kept.
    pub fn sushi(&self) -> (r: AccountId)
        ensures
            r == self.spec_sushi(),
    {
        self.sushi
    }

    /// Where the xsushi is kept.
    pub fn xsushi(&self) -> (r: AccountId)
        ensures
            r == self.spec_xsushi(),
    {
        self.xsushi
    }

    /// The pool's reserve of sushi.
    pub fn total_sushi(&self) -> (r: u128)
        ensures
            r == self.spec_total_sushi(),
    {
        self.total_sushi
    }

    /// The pool's reserve of xsushi.
    pub fn total_xsushi(&self) -> (r: u128)
        ensures
            r == self.spec_total_xsushi(),
    {
        self.total_xsushi
    }

    /// The swap fee, in parts of a thousand.
    pub fn fees(&self) -> (r: u16)
        ensures
            r == self.spec_fees(),
    {
        self.fees
    }

    /// When `account` last entered, if it ever did.
    pub fn staked_at(&self, account: AccountId) -> (r: Option<u64>)
        requires
            self.wf(),
        ensures
            r == self.spec_staked_at(account),
    {
        self.staked_at.get(&account)
    }

    /// Whether the pool has liquidity, and `ZeroLiquidity` if it has none.
    fn active_pool(&self) -> (r: Result<(), Error>)
        ensures
            self.is_active() ==> r == Ok::<(), Error>(()),
            !self.is_active() ==> r == Err::<(), Error>(Error::ZeroLiquidity),
            self.is_active() <==> self.spec_total_sushi() != 0 && self.spec_total_xsushi() != 0,
    {
        proof {
            let a = self.total_sushi as int;
            let b = self.total_xsushi as int;
            assert((a * b != 0) <==> (a != 0 && b != 0)) by (nonlinear_arith);
        }
        if self.total_sushi == 0 || self.total_xsushi == 0 {
            Err(Error::ZeroLiquidity)
        } else {
            Ok(())
        }
    }

    /// Whether the sushi that goes with `amount_xsushi` can be computed:
    /// where the pool has liquidity, the product of the reserve of sushi
    /// and the amount fits in 128 bits.
    pub open spec fn sushi_estimate_in_range(&self, amount_xsushi: u128) -> bool {
        self.is_active() ==> self.spec_total_sushi() * amount_xsushi <= u128::MAX
    }

    /// Whether the xsushi that goes with `amount_sushi` can be computed:
    /// where the pool has liquidity, the product of the reserve of xsushi
    /// and the amount fits in 128 bits.
    pub open spec fn xsushi_estimate_in_range(&self, amount_sushi: u128) -> bool {
        self.is_active() ==> self.spec_total_xsushi() * amount_sushi <= u128::MAX
    }

    /// Whether the sushi that goes with `amount_xsushi` can be computed.
    pub fn can_estimate_sushi(&self, amount_xsushi: u128) -> (r: bool)
        ensures
            r == self.sushi_estimate_in_range(amount_xsushi),
    {
        self.active_pool().is_err() || self.total_sushi.checked_mul(amount_xsushi).is_some()
    }

    /// Whether the xsushi that goes with `amount_sushi` can be computed.
    pub fn can_estimate_xsushi(&self, amount_sushi: u128) -> (r: bool)
        ensures
            r == self.xsushi_estimate_in_range(amount_sushi),
    {
        self.active_pool().is_err() || self.total_xsushi.checked_mul(amount_sushi).is_some()
    }

    /// The sushi that goes with `amount_xsushi` of xsushi at the pool's
    /// ratio, rounded down; `ZeroLiquidity` where the pool has none.
    pub fn get_equivalent_sushi_estimate_given_xsushi(&self, amount_xsushi: u128) -> (r: Result<
        u128,
        Error,
    >)
        requires
            self.sushi_estimate_in_range(amount_xsushi),
        ensures
            !self.is_active() ==> r == Err::<u128, Error>(Error::ZeroLiquidity),
            self.is_active() ==> r.is_ok() && r.unwrap() == proportion(
                self.spec_total_sushi() as int,
                amount_xsushi as int,
                self.spec_total_xsushi() as int,
            ),
    {
        match self.active_pool() {
            Err(e) => Err(e),
            Ok(_) => Ok(mul_div(self.total_sushi, amount_xsushi, self.total_xsushi)),
        }
    }

    /// The xsushi that goes with `amount_sushi` of sushi at the pool's
    /// ratio, rounded down; `ZeroLiquidity` where the pool has none.
    pub fn get_equivalent_xsushi_estimate_given_sushi(&self, amount_sushi: u128) -> (r: Result<
        u128,
        Error,
    >)
        requires
            self.xsushi_estimate_in_range(amount_sushi),
        ensures
            !self.is_active() ==> r == Err::<u128, Error>(Error::ZeroLiquidity),
            self.is_active() ==> r.is_ok() && r.unwrap() == proportion(
                self.spec_total_xsushi() as int,
                amount_sushi as int,
                self.spec_total_sushi() as int,
            ),
    {
        match self.active_pool() {
            Err(e) => Err(e),
            Ok(_) => Ok(mul_div(self.total_xsushi, amount_sushi, self.total_sushi)),
        }
    }

    /// What burning `share` shares releases before any penalty: the same
    /// part of each reserve as `share` is of all shares, rounded down.
    pub open spec fn spec_withdraw_estimate(&self, share: u128) -> (int, int) {
        (
            proportion(
                share as int,
                self.spec_total_sushi() as int,
                self.spec_total_supply() as int,
            ),
            proportion(
                share as int,
                self.spec_total_xsushi() as int,
                self.spec_total_supply() as int,
            ),
        )
    }

    /// Whether the estimate for `share` shares can be computed: where the
    /// pool gives one, the products of the shares and each reserve fit in
    /// 128 bits.
    pub open spec fn withdraw_in_range(&self, share: u128) -> bool {
        self.is_active() && share <= self.spec_total_supply() ==> share * self.spec_total_sushi()
            <= u128::MAX && share * self.spec_total_xsushi() <= u128::MAX
    }

    /// Whether the estimate for `share` shares can be computed.
    pub fn can_estimate_withdraw(&self, share: u128) -> (r: bool)
        ensures
            r == self.withdraw_in_range(share),
    {
        self.active_pool().is_err() || share > self.ledger.total_supply() || (share.checked_mul(
            self.total_sushi,
        ).is_some() && share.checked_mul(self.total_xsushi).is_some())
    }

    /// The sushi and xsushi that burning `share` shares releases before any
    /// penalty; `ZeroLiquidity` where the pool has none, `InvalidShare`
    /// where fewer shares exist.
    pub fn get_withdraw_estimate(&self, share: u128) -> (r: Result<(u128, u128), Error>)
        requires
            self.wf(),
            self.withdraw_in_range(share),
        ensures
            !self.is_active() ==> r == Err::<(u128, u128), Error>(Error::ZeroLiquidity),
            self.is_active() && share > self.spec_total_supply() ==> r == Err::<
                (u128, u128),
                Error,
            >(Error::InvalidShare),
            self.is_active() && share <= self.spec_total_supply() ==> r.is_ok() && r.unwrap().0
                == self.spec_withdraw_estimate(share).0 && r.unwrap().1
                == self.spec_withdraw_estimate(share).1,
    {
        match self.active_pool() {
            Err(e) => Err(e),
            Ok(_) => {
                let total_shares = self.ledger.total_supply();
                if share > total_shares {
                    return Err(Error::InvalidShare);
                }
                let amount_sushi = mul_div(share, self.total_sushi, total_shares);
                let amount_xsushi = mul_div(share, self.total_xsushi, total_shares);
                Ok((amount_sushi, amount_xsushi))
            },
        }
    }

    /// What `get_swap_xsushi_estimate_given_sushi` answers.
    pub open spec fn spec_swap_estimate(&self, amount_sushi: u128) -> Result<int, Error> {
        if !self.is_active() {
            Err(Error::ZeroLiquidity)
        } else if amount_sushi >= self.spec_total_sushi() {
            Err(Error::InsufficientLiquidity)
        } else {
            Ok(
                swap_quote(
                    self.spec_total_sushi() as int,
                    self.spec_total_xsushi() as int,
                    self.spec_fees() as int,
                    amount_sushi as int,
                ),
            )
        }
    }

    /// Whether the swap estimate for `amount_sushi` can be computed: where
    /// the pool gives a quote at all, the fee is below a thousand parts in
    /// a thousand, and the product of the reserves and the quote before the
    /// fee, times a thousand, fit in 128 bits.
    pub open spec fn quote_in_range(&self, amount_sushi: u128) -> bool {
        self.spec_swap_estimate(amount_sushi) is Ok ==> {
            &&& self.spec_fees() < 1000
            &&& self.spec_total_sushi() * self.spec_total_xsushi() <= u128::MAX
            &&& (self.spec_total_sushi() * self.spec_total_xsushi() / (self.spec_total_sushi()
                - amount_sushi) - self.spec_total_xsushi()) * 1000 <= u128::MAX
        }
    }

    /// Whether the swap estimate for `amount_sushi` can be computed.
    pub fn can_quote_swap(&self, amount_sushi: u128) -> (r: bool)
        ensures
            r == self.quote_in_range(amount_sushi),
    {
        if self.active_pool().is_err() || amount_sushi >= self.total_sushi {
            return true;
        }
        if self.fees >= 1000 {
            return false;
        }
        match self.total_sushi.checked_mul(self.total_xsushi) {
            None => false,
            Some(k) => {
                let other_after = k / (self.total_sushi - amount_sushi);
                proof {
                    lemma_product_kept(
                        self.total_sushi as int,
                        self.total_xsushi as int,
                        amount_sushi as int,
                    );
                }
                (other_after - self.total_xsushi).checked_mul(1000).is_some()
            },
        }
    }

    /// The xsushi that has to be paid to take `amount_sushi` of sushi out
    /// of the pool; `ZeroLiquidity` where the pool has none,
    /// `InsufficientLiquidity` where the whole reserve or more is asked for.
    pub fn get_swap_xsushi_estimate_given_sushi(&self, amount_sushi: u128) -> (r: Result<
        u128,
        Error,
    >)
        requires
            self.quote_in_range(amount_sushi),
        ensures
            match self.spec_swap_estimate(amount_sushi) {
                Ok(amount_xsushi) => r == Ok::<u128, Error>(amount_xsushi as u128) && 0
                    <= amount_xsushi <= u128::MAX,
                Err(e) => r == Err::<u128, Error>(e),
            },
    {
        match self.active_pool() {
            Err(e) => Err(e),
            Ok(_) => {
                if amount_sushi >= self.total_sushi {
                    return Err(Error::InsufficientLiquidity);
                }
                Ok(quote_swap(self.total_sushi, self.total_xsushi, self.fees, amount_sushi))
            },
        }
    }

    /// What `enter` answers: the shares that a deposit earns, or why it
    /// earns none. The first deposit earns a hundred whole shares whatever
    /// it brings; a later one has to bring both assets in the ratio of the
    /// reserves and earns the same part of all shares as it adds to them.
    pub open spec fn spec_enter(&self, amount_sushi: u128, amount_xsushi: u128) -> Result<
        int,
        Error,
    > {
        if self.spec_total_supply() == 0 {
            Ok(GENESIS_SHARES as int)
        } else {
            let share1 = proportion(
                self.spec_total_supply() as int,
                amount_sushi as int,
                self.spec_total_sushi() as int,
            );
            let share2 = proportion(
                self.spec_total_supply() as int,
                amount_xsushi as int,
                self.spec_total_xsushi() as int,
            );
            if share1 != share2 {
                Err(Error::NonEquivalentValue)
            } else if share1 == 0 {
                Err(Error::ThresholdNotReached)
            } else {
                Ok(share1)
            }
        }
    }

    /// Whether a deposit can be computed and booked in 128 bits: a pool
    /// with shares has both reserves, the two products fit, and so do the
    /// new reserves and the new number of shares where the deposit earns
    /// any.
    pub open spec fn enter_in_range(&self, amount_sushi: u128, amount_xsushi: u128) -> bool {
        &&& self.spec_total_supply() != 0 ==> {
            &&& self.spec_total_sushi() != 0
            &&& self.spec_total_xsushi() != 0
            &&& self.spec_total_supply() * amount_sushi <= u128::MAX
            &&& self.spec_total_supply() * amount_xsushi <= u128::MAX
        }
        &&& match self.spec_enter(amount_sushi, amount_xsushi) {
            Ok(share) => {
                &&& self.spec_total_sushi() + amount_sushi <= u128::MAX
                &&& self.spec_total_xsushi() + amount_xsushi <= u128::MAX
                &&& self.spec_total_supply() + share <= u128::MAX
            },
            Err(_) => true,
        }
    }

    /// Whether a deposit of the two amounts can be computed and booked.
    pub fn can_enter(&self, amount_sushi: u128, amount_xsushi: u128) -> (r: bool)
        ensures
            r == self.enter_in_range(amount_sushi, amount_xsushi),
    {
        let total_shares = self.ledger.total_supply();
        let share: u128;
        if total_shares == 0 {
            share = GENESIS_SHARES;
        } else {
            if self.total_sushi == 0 || self.total_xsushi == 0 {
                return false;
            }
            let share1 = match total_shares.checked_mul(amount_sushi) {
                Some(product) => product / self.total_sushi,
                None => {
                    return false;
                },
            };
            let share2 = match total_shares.checked_mul(amount_xsushi) {
                Some(product) => product / self.total_xsushi,
                None => {
                    return false;
                },
            };
            if share1 != share2 || share1 == 0 {
                return true;
            }
            share = share1;
        }
        self.total_sushi.checked_add(amount_sushi).is_some() && self.total_xsushi.checked_add(
            amount_xsushi,
        ).is_some() && total_shares.checked_add(share).is_some()
    }

    /// `self` is `before` after `caller` entered at `now` with the two
    /// amounts and earned `share` shares.
    pub open spec fn entered(
        &self,
        before: &Staking,
        caller: AccountId,
        now: u64,
        amount_sushi: u128,
        amount_xsushi: u128,
        share: u128,
    ) -> bool {
        &&& self.same_terms(before)
        &&& self.spec_total_sushi() == before.spec_total_sushi() + amount_sushi
        &&& self.spec_total_xsushi() == before.spec_total_xsushi() + amount_xsushi
        &&& self.ledger().issued(&before.ledger(), caller, share as int)
        &&& self.ledger().same_allowances(&before.ledger())
        &&& self.stakers() == listed(before.stakers(), caller)
        &&& forall|account: AccountId| #[trigger]
            self.spec_staked_at(account) == (if account == caller {
                Some(now)
            } else {
                before.spec_staked_at(account)
            })
    }

    /// Adds liquidity: books the two amounts, gives `caller` the shares
    /// that they earn and starts the caller's clock anew at `now`. Returns
    /// the shares that were made. A deposit that is refused changes
    /// nothing.
    pub fn enter(
        &mut self,
        caller: AccountId,
        now: u64,
        amount_sushi: u128,
        amount_xsushi: u128,
    ) -> (r: Result<u128, Error>)
        requires
            old(self).wf(),
            old(self).enter_in_range(amount_sushi, amount_xsushi),
        ensures
            final(self).wf(),
            match old(self).spec_enter(amount_sushi, amount_xsushi) {
                Ok(share) => r == Ok::<u128, Error>(share as u128) && final(self).entered(
                    old(self),
                    caller,
                    now,
                    amount_sushi,
                    amount_xsushi,
                    share as u128,
                ),
                Err(e) => r == Err::<u128, Error>(e) && *final(self) == *old(self),
            },
            old(self).spec_total_supply() == 0 ==> r == Ok::<u128, Error>(GENESIS_SHARES),
            old(self).is_settled() && (old(self).spec_total_supply() == 0 ==> amount_sushi != 0
                && amount_xsushi != 0) ==> final(self).is_settled(),
    {
        let total_shares = self.ledger.total_supply();
        let share: u128;
        if total_shares == 0 {
            share = GENESIS_SHARES;
        } else {
            let share1 = mul_div(total_shares, amount_sushi, self.total_sushi);
            let share2 = mul_div(total_shares, amount_xsushi, self.total_xsushi);
            if share1 != share2 {
                return Err(Error::NonEquivalentValue);
            }
            share = share1;
        }
        if share == 0 {
            return Err(Error::ThresholdNotReached);
        }
        self.staked_at.insert(caller, now);
        self.total_sushi = self.total_sushi + amount_sushi;
        self.total_xsushi = self.total_xsushi + amount_xsushi;
        self.ledger.credit(caller, share);
        Ok(share)
    }

    /// `self` is `before` after `caller` burnt `share` shares: the
    /// reserves shrank by the whole estimate, whatever was paid out.
    pub open spec fn left(&self, before: &Staking, caller: AccountId, share: u128) -> bool {
        &&& self.same_terms(before)
        &&& self.spec_total_sushi() == before.spec_total_sushi() - before.spec_withdraw_estimate(
            share,
        ).0
        &&& self.spec_total_xsushi() == before.spec_total_xsushi() - before.spec_withdraw_estimate(
            share,
        ).1
        &&& self.ledger().issued(&before.ledger(), caller, -(share as int))
        &&& self.ledger().same_allowances(&before.ledger())
        &&& self.same_clock(before)
    }

    /// Whether `caller` can burn `share` shares at `now`: the caller holds
    /// as many, and, where the pool has liquidity, the two products fit in
    /// 128 bits and the caller entered at some time that is not after
    /// `now`.
    pub open spec fn leave_in_range(&self, caller: AccountId, now: u64, share: u128) -> bool {
        &&& share <= self.spec_balance_of(caller)
        &&& self.is_active() ==> {
            &&& share * self.spec_total_sushi() <= u128::MAX
            &&& share * self.spec_total_xsushi() <= u128::MAX
            &&& self.spec_staked_at(caller) is Some
            &&& self.spec_staked_at(caller).unwrap() <= now
        }
    }

    /// Whether `caller` can burn `share` shares at `now`.
    pub fn can_leave(&self, caller: AccountId, now: u64, share: u128) -> (r: bool)
        requires
            self.wf(),
        ensures
            r == self.leave_in_range(caller, now, share),
    {
        if share > self.ledger.balance_of(caller) {
            return false;
        }
        if self.active_pool().is_err() {
            return true;
        }
        if share.checked_mul(self.total_sushi).is_none() || share.checked_mul(
            self.total_xsushi,
        ).is_none() {
            return false;
        }
        match self.staked_at.get(&caller) {
            Some(staked_at) => staked_at <= now,
            None => false,
        }
    }

    /// Removes liquidity: burns `share` shares of `caller` and takes their
    /// part out of both reserves. Returns what is paid out to the caller,
    /// which is that part cut by the schedule of `payout` according to the
    /// time since the caller last entered; what is cut stays out of the
    /// reserves all the same. `ZeroLiquidity` where the pool has none, and
    /// then nothing changes.
    pub fn leave(&mut self, caller: AccountId, now: u64, share: u128) -> (r: Result<
        (u128, u128),
        Error,
    >)
        requires
            old(self).wf(),
            old(self).leave_in_range(caller, now, share),
        ensures
            final(self).wf(),
            !old(self).is_active() ==> r == Err::<(u128, u128), Error>(Error::ZeroLiquidity)
                && *final(self) == *old(self),
            old(self).is_active() ==> r.is_ok() && r.unwrap().0 == payout(
                old(self).spec_withdraw_estimate(share).0,
                now - old(self).spec_staked_at(caller).unwrap(),
            ) && r.unwrap().1 == payout(
                old(self).spec_withdraw_estimate(share).1,
                now - old(self).spec_staked_at(caller).unwrap(),
            ) && final(self).left(old(self), caller, share),
            old(self).is_settled() ==> final(self).is_settled(),
    {
        proof {
            self.ledger.lemma_balance_within_supply(caller);
        }
        let (amount_sushi, amount_xsushi) = match self.get_withdraw_estimate(share) {
            Ok(amounts) => amounts,
            Err(e) => {
                return Err(e);
            },
        };
        proof {
            let supply = self.spec_total_supply() as int;
            let sushi = self.spec_total_sushi() as int;
            let xsushi = self.spec_total_xsushi() as int;
            lemma_proportion_bounded(share as int, sushi, supply);
            lemma_proportion_bounded(share as int, xsushi, supply);
            if share < supply {
                if sushi > 0 {
                    lemma_proportion_leaves_rest(share as int, sushi, supply);
                }
                if xsushi > 0 {
                    lemma_proportion_leaves_rest(share as int, xsushi, supply);
                }
            } else {
                vstd::arithmetic::div_mod::lemma_div_multiples_vanish(sushi, supply);
                vstd::arithmetic::div_mod::lemma_div_multiples_vanish(xsushi, supply);
            }
        }
        self.ledger.debit(caller, share);
        self.total_sushi = self.total_sushi - amount_sushi;
        self.total_xsushi = self.total_xsushi - amount_xsushi;
        let elapsed = now - self.staked_at.get(&caller).unwrap();
        Ok((pay_out(amount_sushi, elapsed), pay_out(amount_xsushi, elapsed)))
    }

    /// What `swap_xsushi_given_sushi` answers: the quote, unless it is
    /// refused or costs more than `max_xsushi`.
    pub open spec fn spec_swap(&self, amount_sushi: u128, max_xsushi: u128) -> Result<int, Error> {
        match self.spec_swap_estimate(amount_sushi) {
            Ok(amount_xsushi) => if amount_xsushi > max_xsushi {
                Err(Error::SlippageExceeded)
            } else {
                Ok(amount_xsushi)
            },
            Err(e) => Err(e),
        }
    }

    /// Whether a swap can be computed and booked: the estimate can be
    /// computed, and where the swap goes through the new reserve of xsushi
    /// fits in 128 bits.
    pub open spec fn swap_in_range(&self, amount_sushi: u128, max_xsushi: u128) -> bool {
        &&& self.quote_in_range(amount_sushi)
        &&& match self.spec_swap(amount_sushi, max_xsushi) {
            Ok(amount_xsushi) => self.spec_total_xsushi() + amount_xsushi <= u128::MAX,
            Err(_) => true,
        }
    }

    /// Whether a swap can be computed and booked.
    pub fn can_swap(&self, amount_sushi: u128, max_xsushi: u128) -> (r: bool)
        ensures
            r == self.swap_in_range(amount_sushi, max_xsushi),
    {
        if !self.can_quote_swap(amount_sushi) {
            return false;
        }
        match self.get_swap_xsushi_estimate_given_sushi(amount_sushi) {
            Ok(amount_xsushi) => amount_xsushi > max_xsushi || self.total_xsushi.checked_add(
                amount_xsushi,
            ).is_some(),
            Err(_) => true,
        }
    }

    /// Swaps xsushi for `amount_sushi` of sushi at the quoted price, if
    /// that is no more than `max_xsushi`: the reserve of sushi shrinks by
    /// what is taken, that of xsushi grows by what is paid. Returns the
    /// xsushi that is charged. A swap that is refused changes nothing.
    pub fn swap_xsushi_given_sushi(&mut self, amount_sushi: u128, max_xsushi: u128) -> (r: Result<
        u128,
        Error,
    >)
        requires
            old(self).wf(),
            old(self).swap_in_range(amount_sushi, max_xsushi),
        ensures
            final(self).wf(),
            match old(self).spec_swap(amount_sushi, max_xsushi) {
                Ok(amount_xsushi) => {
                    &&& r == Ok::<u128, Error>(amount_xsushi as u128)
                    &&& final(self).same_terms(old(self))
                    &&& final(self).spec_total_sushi() == old(self).spec_total_sushi()
                        - amount_sushi
                    &&& final(self).spec_total_xsushi() == old(self).spec_total_xsushi()
                        + amount_xsushi
                    &&& final(self).ledger() == old(self).ledger()
                    &&& final(self).same_clock(old(self))
                },
                Err(e) => r == Err::<u128, Error>(e) && *final(self) == *old(self),
            },
            old(self).is_settled() ==> final(self).is_settled(),
    {
        let amount_xsushi = match self.get_swap_xsushi_estimate_given_sushi(amount_sushi) {
            Ok(amount) => amount,
            Err(e) => {
                return Err(e);
            },
        };
        if amount_xsushi > max_xsushi {
            return Err(Error::SlippageExceeded);
        }
        self.total_xsushi = self.total_xsushi + amount_xsushi;
        self.total_sushi = self.total_sushi - amount_sushi;
        Ok(amount_xsushi)
    }

    /// Nothing but the ledger differs between `self` and `before`.
    pub open spec fn same_pool(&self, before: &Staking) -> bool {
        &&& self.same_terms(before)
        &&& self.same_reserves(before)
        &&& self.same_clock(before)
    }

    /// The number of decimal places of a share.
    pub fn decimals(&self) -> (r: u8)
        ensures
            r == DECIMALS,
    {
        DECIMALS
    }

    /// The number of shares that exist.
    pub fn total_supply(&self) -> (r: u128)
        ensures
            r == self.spec_total_supply(),
    {
        self.ledger.total_supply()
    }

    /// The shares that `owner` holds; 0 for an account that never held any.
    pub fn balance_of(&self, owner: AccountId) -> (r: u128)
        requires
            self.wf(),
        ensures
            r == self.spec_balance_of(owner),
    {
        self.ledger.balance_of(owner)
    }

    /// The shares of `owner` that `spender` may still move; 0 where the
    /// owner never approved the spender.
    pub fn allowance(&self, owner: AccountId, spender: AccountId) -> (r: u128)
        requires
            self.wf(),
        ensures
            r == self.spec_allowance(owner, spender),
    {
        self.ledger.allowance(owner, spender)
    }

    /// Moves `value` shares from `caller` to `to`. `InsufficientBalance`
    /// where the caller holds fewer, and then nothing changes.
    pub fn transfer(&mut self, caller: AccountId, to: AccountId, value: u128) -> (r: Result<
        Transfer,
        Error,
    >)
        requires
            old(self).wf(),
        ensures
            final(self).wf(),
            final(self).same_pool(old(self)),
            old(self).spec_balance_of(caller) < value ==> r == Err::<Transfer, Error>(
                Error::InsufficientBalance,
            ) && *final(self) == *old(self),
            old(self).spec_balance_of(caller) >= value ==> r == Ok::<Transfer, Error>(
                Transfer { from: Some(caller), to: Some(to), value },
            ) && final(self).ledger().moved(&old(self).ledger(), caller, to, value)
                && final(self).ledger().same_allowances(&old(self).ledger()),
    {
        self.ledger.transfer(caller, to, value)
    }

    /// Lets `spender` move up to `value` shares of `caller`, in place of
    /// whatever was agreed before. Never refused.
    pub fn approve(&mut self, caller: AccountId, spender: AccountId, value: u128) -> (r: Result<
        Approval,
        Error,
    >)
        requires
            old(self).wf(),
        ensures
            final(self).wf(),
            final(self).same_pool(old(self)),
            r == Ok::<Approval, Error>(Approval { owner: caller, spender, value }),
            final(self).ledger().approved(&old(self).ledger(), caller, spender, value),
    {
        Ok(self.ledger.approve(caller, spender, value))
    }

    /// Moves `value` shares from `from` to `to` on behalf of `caller`, and
    /// takes them off what `from` allowed the caller.
    /// `InsufficientAllowance` where the caller is allowed fewer,
    /// `InsufficientBalance` where `from` holds fewer; either way nothing
    /// changes.
    pub fn transfer_from(
        &mut self,
        caller: AccountId,
        from: AccountId,
        to: AccountId,
        value: u128,
    ) -> (r: Result<Transfer, Error>)
        requires
            old(self).wf(),
        ensures
            final(self).wf(),
            final(self).same_pool(old(self)),
            match old(self).ledger().spec_transfer_from(caller, from, value) {
                Ok(_) => r == Ok::<Transfer, Error>(
                    Transfer { from: Some(from), to: Some(to), value },
                ) && final(self).ledger().moved(&old(self).ledger(), from, to, value)
                    && final(self).ledger().spent(&old(self).ledger(), from, caller, value),
                Err(e) => r == Err::<Transfer, Error>(e) && *final(self) == *old(self),
            },
    {
        self.ledger.transfer_from(caller, from, to, value)
    }
}

} // verus!
