//! The failures that a pool operation can report.

use vstd::prelude::*;

verus! {

/// Why an operation on the pool was refused.
#[derive(Debug, Clone, Copy, PartialEq, Eq, Structural)]
pub enum Error {
    /// A price or an estimate was asked of a pool without liquidity.
    ZeroLiquidity,
    /// An amount was zero.
    ZeroAmount,
    /// An amount was too small.
    InsufficientAmount,
    /// The two deposited amounts are not in the ratio of the reserves.
    NonEquivalentValue,
    /// The deposit is too small to earn a single share.
    ThresholdNotReached,
    /// More shares were named than exist.
    InvalidShare,
    /// The swap would take the whole reserve or more.
    InsufficientLiquidity,
    /// The swap costs more than the caller allowed.
    SlippageExceeded,
    /// The account holds fewer shares than the transfer moves.
    InsufficientBalance,
    /// The spender may move fewer shares than the transfer asks for.
    InsufficientAllowance,
}

} // verus!
