//! The pool's arithmetic: proportional amounts, the constant-product swap
//! quote and the payout schedule of an early redemption. Every division
//! rounds down, so that a remainder stays with the pool.

use vstd::prelude::*;
use vstd::arithmetic::div_mod::{
    lemma_div_by_multiple,
    lemma_div_is_ordered,
    lemma_div_is_ordered_by_denominator,
    lemma_div_plus_one,
    lemma_div_pos_is_pos,
};

verus! {

/// The number of decimal places of a share.
pub const DECIMALS: u8 = 18;

/// The shares that the first deposit earns: a hundred whole shares.
pub const GENESIS_SHARES: u128 = 100_000_000_000_000_000_000;

/// Two days in seconds: the length of one step of the payout schedule.
pub const DAY2: u64 = 172_800;

/// The scale of the swap fee: a fee of `f` is `f` parts in a thousand.
pub const FEE_SCALE: u128 = 1000;

/// `amount * numerator / denominator`, rounded down.
pub open spec fn proportion(amount: int, numerator: int, denominator: int) -> int {
    amount * numerator / denominator
}

/// What has to be paid into the second reserve to take `amount` out of the
/// first: the product of the two reserves is kept, and the fee is charged on
/// what is paid.
pub open spec fn swap_quote(reserve: int, other_reserve: int, fees: int, amount: int) -> int {
    (reserve * other_reserve / (reserve - amount) - other_reserve) * 1000 / (1000 - fees)
}

/// What is paid out of `amount` after the shares were held for `elapsed`
/// seconds: nothing before two days, then a quarter, a half and three
/// quarters, and the whole from eight days on.
pub open spec fn payout(amount: int, elapsed: int) -> int {
    if elapsed < DAY2 {
        0
    } else if elapsed < 2 * DAY2 {
        amount / 4
    } else if elapsed < 3 * DAY2 {
        amount / 2
    } else if elapsed < 4 * DAY2 {
        amount * 3 / 4
    } else {
        amount
    }
}

/// A hundred whole shares are `100 * 10^18` units.
pub proof fn lemma_genesis_shares()
    ensures
        GENESIS_SHARES == 100 * vstd::arithmetic::power::pow(10, DECIMALS as nat),
{
    reveal_with_fuel(vstd::arithmetic::power::pow, 19);
}

/// A part of a whole earns no more than the whole amount.
pub proof fn lemma_proportion_bounded(part: int, amount: int, whole: int)
    requires
        0 <= part <= whole,
        0 < whole,
        0 <= amount,
    ensures
        0 <= proportion(part, amount, whole) <= amount,
{
    assert(0 <= part * amount <= amount * whole) by (nonlinear_arith)
        requires
            0 <= part <= whole,
            0 <= amount,
    ;
    lemma_div_pos_is_pos(part * amount, whole);
    lemma_div_is_ordered(part * amount, amount * whole, whole);
    lemma_div_by_multiple(amount, whole);
}

/// A part that is less than the whole leaves something of a reserve that
/// is not empty.
pub proof fn lemma_proportion_leaves_rest(part: int, amount: int, whole: int)
    requires
        0 <= part < whole,
        0 < amount,
    ensures
        proportion(part, amount, whole) < amount,
{
    assert(part * amount < amount * whole) by (nonlinear_arith)
        requires
            0 <= part < whole,
            0 < amount,
    ;
    vstd::arithmetic::div_mod::lemma_div_by_multiple_is_strongly_ordered(
        part * amount,
        amount * whole,
        amount,
        whole,
    );
    lemma_div_by_multiple(amount, whole);
}

/// After a swap the second reserve is no smaller than before.
pub proof fn lemma_product_kept(reserve: int, other_reserve: int, amount: int)
    requires
        0 <= amount < reserve,
        0 <= other_reserve,
    ensures
        reserve * other_reserve / (reserve - amount) >= other_reserve,
{
    let after = reserve - amount;
    assert(other_reserve * after <= reserve * other_reserve) by (nonlinear_arith)
        requires
            0 < after <= reserve,
            0 <= other_reserve,
    ;
    lemma_div_is_ordered(other_reserve * after, reserve * other_reserve, after);
    lemma_div_by_multiple(other_reserve, after);
}

/// The swap quote never falls when more is taken out: for fixed reserves
/// and fee, taking `more` costs at least what taking `less` costs.
pub proof fn lemma_swap_quote_monotone(
    reserve: int,
    other_reserve: int,
    fees: int,
    less: int,
    more: int,
)
    requires
        0 <= less <= more < reserve,
        0 <= other_reserve,
        0 <= fees < 1000,
    ensures
        0 <= swap_quote(reserve, other_reserve, fees, less) <= swap_quote(
            reserve,
            other_reserve,
            fees,
            more,
        ),
{
    let k = reserve * other_reserve;
    assert(0 <= k) by (nonlinear_arith)
        requires
            0 <= reserve,
            0 <= other_reserve,
            k == reserve * other_reserve,
    ;
    lemma_product_kept(reserve, other_reserve, less);
    lemma_div_is_ordered_by_denominator(k, reserve - more, reserve - less);
    let d_less = k / (reserve - less) - other_reserve;
    let d_more = k / (reserve - more) - other_reserve;
    lemma_div_pos_is_pos(d_less * 1000, 1000 - fees);
    lemma_div_is_ordered(d_less * 1000, d_more * 1000, 1000 - fees);
}

/// The swap quote rises with what is taken out wherever the second reserve
/// after the swap does: taking `more` then costs more than taking `less`.
/// Where rounding gives both swaps the same reserve afterwards, they cost
/// the same.
pub proof fn lemma_swap_quote_strictly_monotone(
    reserve: int,
    other_reserve: int,
    fees: int,
    less: int,
    more: int,
)
    requires
        0 <= less < more < reserve,
        0 <= other_reserve,
        0 <= fees < 1000,
    ensures
        reserve * other_reserve / (reserve - less) < reserve * other_reserve / (reserve - more)
            ==> swap_quote(reserve, other_reserve, fees, less) < swap_quote(
            reserve,
            other_reserve,
            fees,
            more,
        ),
        reserve * other_reserve / (reserve - less) == reserve * other_reserve / (reserve - more)
            ==> swap_quote(reserve, other_reserve, fees, less) == swap_quote(
            reserve,
            other_reserve,
            fees,
            more,
        ),
{
    let k = reserve * other_reserve;
    let d_less = k / (reserve - less) - other_reserve;
    let d_more = k / (reserve - more) - other_reserve;
    let scale = 1000 - fees;
    if d_less < d_more {
        lemma_div_plus_one(d_less * 1000, scale);
        lemma_div_is_ordered(scale + d_less * 1000, d_more * 1000, scale);
    }
}

/// `amount * numerator / denominator`, rounded down.
pub fn mul_div(amount: u128, numerator: u128, denominator: u128) -> (r: u128)
    requires
        denominator != 0,
        amount * numerator <= u128::MAX,
    ensures
        r == proportion(amount as int, numerator as int, denominator as int),
{
    amount * numerator / denominator
}

/// What has to be paid into the second reserve to take `amount` out of the
/// first, at a fee of `fees` parts in a thousand.
pub fn quote_swap(reserve: u128, other_reserve: u128, fees: u16, amount: u128) -> (r: u128)
    requires
        amount < reserve,
        fees < 1000,
        reserve * other_reserve <= u128::MAX,
        (reserve * other_reserve / (reserve - amount) - other_reserve) * 1000 <= u128::MAX,
    ensures
        r == swap_quote(reserve as int, other_reserve as int, fees as int, amount as int),
{
    let k = reserve * other_reserve;
    let after = reserve - amount;
    let other_after = k / after;
    proof {
        lemma_product_kept(reserve as int, other_reserve as int, amount as int);
    }
    let delta = other_after - other_reserve;
    let scale: u16 = 1000 - fees;
    delta * 1000 / (scale as u128)
}

/// What is paid out of `amount` after the shares were held for `elapsed`
/// seconds.
pub fn pay_out(amount: u128, elapsed: u64) -> (r: u128)
    ensures
        r == payout(amount as int, elapsed as int),
{
    if elapsed < DAY2 {
        0
    } else if elapsed < 2 * DAY2 {
        amount / 4
    } else if elapsed < 3 * DAY2 {
        amount / 2
    } else if elapsed < 4 * DAY2 {
        amount / 4 * 3 + amount % 4 * 3 / 4
    } else {
        amount
    }
}

} // verus!
