use staking::account::AccountId;
use staking::error::Error;
use staking::pricing::GENESIS_SHARES;
use staking::staking::Staking;

const DAY2: u64 = 172_800;

fn account(tag: u8) -> AccountId {
    AccountId::new([tag; 32])
}

fn empty_pool(fees: u16) -> Staking {
    Staking::new(account(0xA0), account(0xB0), fees)
}

/// A pool that `alice` seeded with `sushi` and `xsushi` at time 0.
fn seeded_pool(fees: u16, sushi: u128, xsushi: u128) -> Staking {
    let mut pool = empty_pool(fees);
    assert!(pool.can_enter(sushi, xsushi));
    assert_eq!(pool.enter(account(1), 0, sushi, xsushi), Ok(GENESIS_SHARES));
    pool
}

#[test]
fn new_pool_is_empty() {
    let pool = empty_pool(3);
    assert_eq!(pool.total_sushi(), 0);
    assert_eq!(pool.total_xsushi(), 0);
    assert_eq!(pool.total_supply(), 0);
    assert_eq!(pool.fees(), 3);
    assert_eq!(pool.decimals(), 18);
    assert_eq!(pool.sushi(), account(0xA0));
    assert_eq!(pool.xsushi(), account(0xB0));
    assert_eq!(pool.balance_of(account(1)), 0);
    assert_eq!(pool.allowance(account(1), account(2)), 0);
    assert_eq!(pool.staked_at(account(1)), None);
}

#[test]
fn genesis_mints_hundred_shares_whatever_the_amounts() {
    assert_eq!(GENESIS_SHARES, 100 * 10u128.pow(18));
    let mut big = empty_pool(3);
    assert_eq!(big.enter(account(1), 10, 1000, 1000), Ok(100 * 10u128.pow(18)));
    let mut small = empty_pool(3);
    assert_eq!(small.enter(account(1), 10, 1, 1), Ok(100 * 10u128.pow(18)));
    let mut skewed = empty_pool(3);
    assert_eq!(skewed.enter(account(1), 10, 7, 123_456), Ok(100 * 10u128.pow(18)));
    assert_eq!(skewed.total_sushi(), 7);
    assert_eq!(skewed.total_xsushi(), 123_456);
    assert_eq!(skewed.total_supply(), GENESIS_SHARES);
    assert_eq!(skewed.balance_of(account(1)), GENESIS_SHARES);
    assert_eq!(skewed.staked_at(account(1)), Some(10));
}

#[test]
fn later_deposit_earns_its_part() {
    let mut pool = seeded_pool(3, 1000, 2000);
    assert!(pool.can_enter(100, 200));
    assert_eq!(pool.enter(account(2), 50, 100, 200), Ok(GENESIS_SHARES / 10));
    assert_eq!(pool.total_sushi(), 1100);
    assert_eq!(pool.total_xsushi(), 2200);
    assert_eq!(pool.total_supply(), GENESIS_SHARES + GENESIS_SHARES / 10);
    assert_eq!(pool.balance_of(account(1)), GENESIS_SHARES);
    assert_eq!(pool.balance_of(account(2)), GENESIS_SHARES / 10);
    assert_eq!(pool.staked_at(account(1)), Some(0));
    assert_eq!(pool.staked_at(account(2)), Some(50));
}

#[test]
fn non_equivalent_deposit_is_rejected() {
    let mut pool = seeded_pool(3, 1000, 1000);
    assert_eq!(pool.total_supply(), 100 * 10u128.pow(18));
    assert!(pool.can_enter(10, 5));
    assert_eq!(pool.enter(account(2), 7, 10, 5), Err(Error::NonEquivalentValue));
    assert_eq!(pool.total_sushi(), 1000);
    assert_eq!(pool.total_xsushi(), 1000);
    assert_eq!(pool.total_supply(), GENESIS_SHARES);
    assert_eq!(pool.balance_of(account(2)), 0);
    assert_eq!(pool.staked_at(account(2)), None);
}

#[test]
fn deposit_below_one_share_is_rejected() {
    // with as many units in reserve as there are shares times a thousand,
    // a deposit of less than a thousand units earns less than one share
    let mut pool = seeded_pool(3, GENESIS_SHARES * 1000, GENESIS_SHARES * 1000);
    assert!(pool.can_enter(999, 999));
    assert_eq!(pool.enter(account(2), 7, 999, 999), Err(Error::ThresholdNotReached));
    assert_eq!(pool.total_supply(), GENESIS_SHARES);
    assert_eq!(pool.staked_at(account(2)), None);
    assert!(pool.can_enter(1000, 1000));
    assert_eq!(pool.enter(account(2), 7, 1000, 1000), Ok(1));
    assert_eq!(pool.balance_of(account(2)), 1);
}

#[test]
fn deposit_resets_the_clock_for_the_whole_balance() {
    let mut pool = seeded_pool(3, 1000, 1000);
    assert_eq!(pool.staked_at(account(1)), Some(0));
    assert_eq!(pool.enter(account(1), 5 * DAY2, 1000, 1000), Ok(GENESIS_SHARES));
    assert_eq!(pool.staked_at(account(1)), Some(5 * DAY2));
    assert_eq!(pool.balance_of(account(1)), 2 * GENESIS_SHARES);
    // a moment later the whole balance is under full penalty again
    assert!(pool.can_leave(account(1), 5 * DAY2 + 1, 2 * GENESIS_SHARES));
    assert_eq!(pool.leave(account(1), 5 * DAY2 + 1, 2 * GENESIS_SHARES), Ok((0, 0)));
}

#[test]
fn deposit_out_of_range_is_told_apart() {
    let mut pool = empty_pool(3);
    assert!(pool.can_enter(u128::MAX, u128::MAX));
    assert_eq!(pool.enter(account(1), 0, u128::MAX, 1000), Ok(GENESIS_SHARES));
    // a deposit that is refused for its ratio books nothing, so it is in range
    assert!(pool.can_enter(1, 1));
    assert_eq!(pool.enter(account(2), 0, 1, 1), Err(Error::NonEquivalentValue));
    // a pool with shares and an empty reserve cannot price a deposit
    let mut lopsided = empty_pool(3);
    assert_eq!(lopsided.enter(account(1), 0, 0, 5), Ok(GENESIS_SHARES));
    assert!(!lopsided.can_enter(1, 1));
    // the product of the shares and the amount must fit
    let seeded = seeded_pool(3, 1000, 1000);
    assert!(!seeded.can_enter(u128::MAX / 2, u128::MAX / 2));
}

#[test]
fn equivalent_estimates() {
    let pool = seeded_pool(3, 1000, 3000);
    assert_eq!(pool.get_equivalent_sushi_estimate_given_xsushi(10), Ok(3));
    assert_eq!(pool.get_equivalent_sushi_estimate_given_xsushi(3000), Ok(1000));
    assert_eq!(pool.get_equivalent_xsushi_estimate_given_sushi(10), Ok(30));
    assert_eq!(pool.get_equivalent_xsushi_estimate_given_sushi(0), Ok(0));
}

#[test]
fn estimates_need_liquidity() {
    let pool = empty_pool(3);
    assert_eq!(pool.get_equivalent_sushi_estimate_given_xsushi(10), Err(Error::ZeroLiquidity));
    assert_eq!(pool.get_equivalent_xsushi_estimate_given_sushi(10), Err(Error::ZeroLiquidity));
    assert_eq!(pool.get_withdraw_estimate(0), Err(Error::ZeroLiquidity));
    assert_eq!(pool.get_swap_xsushi_estimate_given_sushi(1), Err(Error::ZeroLiquidity));
    let mut pool = pool;
    assert_eq!(pool.swap_xsushi_given_sushi(1, 10), Err(Error::ZeroLiquidity));
    assert!(pool.can_leave(account(1), 0, 0));
    assert_eq!(pool.leave(account(1), 0, 0), Err(Error::ZeroLiquidity));
}

#[test]
fn withdraw_estimate_rounds_down() {
    let mut pool = seeded_pool(3, 1000, 500);
    assert_eq!(pool.enter(account(2), 0, 500, 250), Ok(GENESIS_SHARES / 2));
    // 1500 and 750 in reserve, 150 whole shares
    assert_eq!(pool.get_withdraw_estimate(GENESIS_SHARES), Ok((1000, 500)));
    assert_eq!(pool.get_withdraw_estimate(GENESIS_SHARES / 2), Ok((500, 250)));
    assert_eq!(pool.get_withdraw_estimate(GENESIS_SHARES / 3), Ok((333, 166)));
    assert_eq!(pool.get_withdraw_estimate(0), Ok((0, 0)));
    assert_eq!(pool.get_withdraw_estimate(pool.total_supply()), Ok((1500, 750)));
}

#[test]
fn withdraw_estimate_of_more_than_all_shares_is_rejected() {
    let pool = seeded_pool(3, 1000, 1000);
    assert_eq!(pool.get_withdraw_estimate(GENESIS_SHARES + 1), Err(Error::InvalidShare));
    assert_eq!(pool.get_withdraw_estimate(GENESIS_SHARES), Ok((1000, 1000)));
}

#[test]
fn redemption_penalty_boundaries() {
    let staked = 1_000;
    let at = |elapsed: u64| {
        let mut pool = empty_pool(3);
        assert_eq!(pool.enter(account(1), staked, 1000, 2000), Ok(GENESIS_SHARES));
        assert_eq!(pool.get_withdraw_estimate(GENESIS_SHARES / 2), Ok((500, 1000)));
        assert!(pool.can_leave(account(1), staked + elapsed, GENESIS_SHARES / 2));
        pool.leave(account(1), staked + elapsed, GENESIS_SHARES / 2)
    };
    assert_eq!(at(0), Ok((0, 0)));
    assert_eq!(at(172_799), Ok((0, 0)));
    assert_eq!(at(172_800), Ok((125, 250)));
    assert_eq!(at(2 * 172_800 - 1), Ok((125, 250)));
    assert_eq!(at(2 * 172_800), Ok((250, 500)));
    assert_eq!(at(3 * 172_800 - 1), Ok((250, 500)));
    assert_eq!(at(3 * 172_800), Ok((375, 750)));
    assert_eq!(at(4 * 172_800 - 1), Ok((375, 750)));
    assert_eq!(at(691_200), Ok((500, 1000)));
    assert_eq!(at(u64::MAX - staked), Ok((500, 1000)));
}

#[test]
fn what_the_penalty_takes_leaves_the_reserves_too() {
    let mut pool = seeded_pool(3, 1000, 2000);
    assert_eq!(pool.leave(account(1), DAY2, GENESIS_SHARES / 2), Ok((125, 250)));
    // the reserves shrank by the whole estimate of 500 and 1000
    assert_eq!(pool.total_sushi(), 500);
    assert_eq!(pool.total_xsushi(), 1000);
    assert_eq!(pool.total_supply(), GENESIS_SHARES / 2);
    assert_eq!(pool.balance_of(account(1)), GENESIS_SHARES / 2);
    // the clock is read, not cleared
    assert_eq!(pool.staked_at(account(1)), Some(0));
}

#[test]
fn leaving_with_all_shares_empties_the_pool() {
    let mut pool = seeded_pool(3, 1000, 2000);
    assert_eq!(pool.leave(account(1), 4 * DAY2, GENESIS_SHARES), Ok((1000, 2000)));
    assert_eq!(pool.total_sushi(), 0);
    assert_eq!(pool.total_xsushi(), 0);
    assert_eq!(pool.total_supply(), 0);
    assert_eq!(pool.balance_of(account(1)), 0);
    // and the next deposit is a first deposit again
    assert_eq!(pool.enter(account(2), 9 * DAY2, 5, 5), Ok(GENESIS_SHARES));
}

#[test]
fn leave_out_of_range_is_told_apart() {
    let mut pool = seeded_pool(3, 1000, 1000);
    // more than the caller holds
    assert!(!pool.can_leave(account(1), 10, GENESIS_SHARES + 1));
    assert!(!pool.can_leave(account(2), 10, 1));
    // shares that came by transfer carry no clock
    assert!(pool.transfer(account(1), account(2), 10).is_ok());
    assert!(!pool.can_leave(account(2), 10, 1));
    // a clock that is ahead of the time of the call
    assert_eq!(pool.enter(account(3), 100, 10, 10), Ok(GENESIS_SHARES / 100));
    assert!(!pool.can_leave(account(3), 99, 1));
    assert!(pool.can_leave(account(3), 100, 1));
}

#[test]
fn swap_quote_values() {
    // no fee: 1000 * 1000 / 900 = 1111, so 111 is due
    let free = seeded_pool(0, 1000, 1000);
    assert_eq!(free.get_swap_xsushi_estimate_given_sushi(100), Ok(111));
    // three parts in a thousand on top: 111 * 1000 / 997 = 111
    let cheap = seeded_pool(3, 1000, 1000);
    assert_eq!(cheap.get_swap_xsushi_estimate_given_sushi(100), Ok(111));
    // three hundred parts in a thousand: 111 * 1000 / 700 = 158
    let dear = seeded_pool(300, 1000, 1000);
    assert_eq!(dear.get_swap_xsushi_estimate_given_sushi(100), Ok(158));
    // half the reserve doubles the other: 2000 * 1000 / 500 = 4000, 2000 due
    let deep = seeded_pool(0, 1000, 2000);
    assert_eq!(deep.get_swap_xsushi_estimate_given_sushi(500), Ok(2000));
    assert_eq!(deep.get_swap_xsushi_estimate_given_sushi(0), Ok(0));
    assert_eq!(deep.get_swap_xsushi_estimate_given_sushi(999), Ok(1_998_000));
}

#[test]
fn swap_quote_rises_with_the_amount() {
    let pool = seeded_pool(3, 1000, 1000);
    let mut last = 0;
    for amount in 0..1000u128 {
        assert!(pool.can_quote_swap(amount));
        let quote = pool.get_swap_xsushi_estimate_given_sushi(amount).unwrap();
        assert!(quote >= last);
        if amount > 0 {
            assert!(quote > last);
        }
        last = quote;
    }
    assert_eq!(pool.get_swap_xsushi_estimate_given_sushi(1000), Err(Error::InsufficientLiquidity));
    assert_eq!(pool.get_swap_xsushi_estimate_given_sushi(1001), Err(Error::InsufficientLiquidity));
    assert_eq!(
        pool.get_swap_xsushi_estimate_given_sushi(u128::MAX),
        Err(Error::InsufficientLiquidity)
    );
}

#[test]
fn swap_quote_can_stay_level_where_rounding_hides_the_difference() {
    let pool = seeded_pool(3, 1000, 1);
    assert_eq!(pool.get_swap_xsushi_estimate_given_sushi(1), Ok(0));
    assert_eq!(pool.get_swap_xsushi_estimate_given_sushi(2), Ok(0));
    assert_eq!(pool.get_swap_xsushi_estimate_given_sushi(500), Ok(1));
}

#[test]
fn swap_moves_both_reserves() {
    let mut pool = seeded_pool(3, 1000, 1000);
    assert!(pool.can_swap(100, 111));
    assert_eq!(pool.swap_xsushi_given_sushi(100, 111), Ok(111));
    assert_eq!(pool.total_sushi(), 900);
    assert_eq!(pool.total_xsushi(), 1111);
    assert_eq!(pool.total_supply(), GENESIS_SHARES);
    assert_eq!(pool.balance_of(account(1)), GENESIS_SHARES);
}

#[test]
fn swap_beyond_the_limit_is_rejected() {
    let mut pool = seeded_pool(3, 1000, 1000);
    assert!(pool.can_swap(100, 110));
    assert_eq!(pool.swap_xsushi_given_sushi(100, 110), Err(Error::SlippageExceeded));
    assert_eq!(pool.total_sushi(), 1000);
    assert_eq!(pool.total_xsushi(), 1000);
    assert_eq!(pool.swap_xsushi_given_sushi(1000, u128::MAX), Err(Error::InsufficientLiquidity));
    assert_eq!(pool.total_sushi(), 1000);
}

#[test]
fn swap_out_of_range_is_told_apart() {
    // a fee of the whole amount or more cannot be charged
    let pool = seeded_pool(1000, 1000, 1000);
    assert!(!pool.can_quote_swap(100));
    assert!(!pool.can_swap(100, 200));
    assert!(pool.can_quote_swap(1000));
    // the product of the reserves must fit
    let wide = seeded_pool(3, u128::MAX / 2, 3);
    assert!(!wide.can_quote_swap(1));
    // the new reserve of xsushi must fit
    let full = seeded_pool(999, 2, u128::MAX / 1000);
    assert!(full.can_quote_swap(1));
    assert_eq!(full.get_swap_xsushi_estimate_given_sushi(1), Ok(u128::MAX / 1000 * 1000));
    assert!(!full.can_swap(1, u128::MAX));
    // unless the swap is refused for its price
    assert!(full.can_swap(1, 5));
    // the quote before the fee, times a thousand, must fit
    let steep = seeded_pool(0, 2, u128::MAX / 2);
    assert!(!steep.can_quote_swap(1));
    assert!(steep.can_quote_swap(0));
}

#[test]
fn supply_is_the_sum_of_the_balances() {
    let accounts = [account(1), account(2), account(3), account(4)];
    let sum = |pool: &Staking| -> u128 { accounts.iter().map(|a| pool.balance_of(*a)).sum() };
    let mut pool = empty_pool(3);
    assert_eq!(pool.total_supply(), sum(&pool));
    assert!(pool.enter(accounts[0], 0, 1000, 1000).is_ok());
    assert_eq!(pool.total_supply(), sum(&pool));
    assert!(pool.enter(accounts[1], 1, 300, 300).is_ok());
    assert_eq!(pool.total_supply(), sum(&pool));
    assert!(pool.transfer(accounts[0], accounts[2], 12_345).is_ok());
    assert_eq!(pool.total_supply(), sum(&pool));
    assert!(pool.approve(accounts[1], accounts[3], 77).is_ok());
    assert!(pool.transfer_from(accounts[3], accounts[1], accounts[3], 70).is_ok());
    assert_eq!(pool.total_supply(), sum(&pool));
    assert!(pool.transfer(accounts[2], accounts[2], 5).is_ok());
    assert_eq!(pool.total_supply(), sum(&pool));
    assert!(pool.swap_xsushi_given_sushi(10, 1000).is_ok());
    assert_eq!(pool.total_supply(), sum(&pool));
    assert!(pool.leave(accounts[1], 3 * DAY2, 1_000).is_ok());
    assert_eq!(pool.total_supply(), sum(&pool));
    assert!(pool.leave(accounts[0], 9 * DAY2, pool.balance_of(accounts[0])).is_ok());
    assert_eq!(pool.total_supply(), sum(&pool));
    assert_eq!(pool.total_supply(), 30 * 10u128.pow(18) + 12_345 - 1_000);
}

#[test]
fn estimates_of_all_holders_nearly_fill_the_reserves() {
    let accounts = [account(1), account(2), account(3)];
    let mut pool = empty_pool(3);
    assert!(pool.enter(accounts[0], 0, 1000, 700).is_ok());
    assert!(pool.transfer(accounts[0], accounts[1], GENESIS_SHARES / 3).is_ok());
    assert!(pool.transfer(accounts[0], accounts[2], GENESIS_SHARES / 7).is_ok());
    let mut sushi = 0;
    let mut xsushi = 0;
    for a in accounts {
        let (s, x) = pool.get_withdraw_estimate(pool.balance_of(a)).unwrap();
        sushi += s;
        xsushi += x;
    }
    assert_eq!(sushi, 998);
    assert_eq!(xsushi, 698);
    assert!(sushi <= pool.total_sushi());
    assert!(xsushi <= pool.total_xsushi());
    assert!(pool.total_sushi() - sushi <= pool.total_supply() - 1);
    assert!(pool.total_xsushi() - xsushi <= pool.total_supply() - 1);
}

#[test]
fn estimates_out_of_range_are_told_apart() {
    let pool = seeded_pool(3, 1000, 3000);
    assert!(pool.can_estimate_sushi(u128::MAX / 1000));
    assert!(!pool.can_estimate_sushi(u128::MAX / 1000 + 1));
    assert!(pool.can_estimate_xsushi(u128::MAX / 3000));
    assert!(!pool.can_estimate_xsushi(u128::MAX / 3000 + 1));
    assert!(pool.can_estimate_withdraw(GENESIS_SHARES));
    // more shares than exist are refused before anything is multiplied
    assert!(pool.can_estimate_withdraw(u128::MAX));
    assert_eq!(pool.get_withdraw_estimate(u128::MAX), Err(Error::InvalidShare));
    let wide = seeded_pool(3, u128::MAX, 1);
    assert!(!wide.can_estimate_withdraw(2));
    assert!(wide.can_estimate_withdraw(1));
    // a pool without liquidity answers whatever is asked
    let empty = empty_pool(3);
    assert!(empty.can_estimate_sushi(u128::MAX));
    assert!(empty.can_estimate_xsushi(u128::MAX));
    assert!(empty.can_estimate_withdraw(u128::MAX));
    assert!(empty.can_quote_swap(u128::MAX));
    assert!(empty.can_swap(u128::MAX, 0));
}

#[test]
fn a_first_deposit_of_nothing_leaves_a_pool_that_cannot_price() {
    let mut pool = empty_pool(3);
    assert_eq!(pool.enter(account(1), 0, 0, 0), Ok(GENESIS_SHARES));
    assert_eq!(pool.total_supply(), GENESIS_SHARES);
    assert_eq!(pool.get_withdraw_estimate(1), Err(Error::ZeroLiquidity));
    assert_eq!(pool.get_swap_xsushi_estimate_given_sushi(0), Err(Error::ZeroLiquidity));
    assert!(pool.can_leave(account(1), 0, GENESIS_SHARES));
    assert_eq!(pool.leave(account(1), 0, GENESIS_SHARES), Err(Error::ZeroLiquidity));
    assert_eq!(pool.balance_of(account(1)), GENESIS_SHARES);
}
