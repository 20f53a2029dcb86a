//! The failure taxonomy of the engine.
//!
//! Every operation is all-or-nothing: a failing call surfaces one of
//! these codes and leaves every record it was handed unchanged.

use vstd::prelude::*;

verus! {

/// Why an add-liquidity, remove-liquidity or swap call was refused.
#[derive(Clone, Copy, Debug, PartialEq, Eq, Structural)]
pub enum ErrorCode {
    /// A bin identifier resolved outside the loaded 70-bin page.
    BinOutOfRange,
    /// A reserve-side precondition failed: minting would create zero
    /// shares, a burn exceeds a bin's outstanding shares, or a swap
    /// met a bin that cannot price or supply the trade.
    InsufficientLiquidity,
    /// A burn exceeds the caller's recorded share balance for the bin.
    InsufficientShares,
    /// A checked addition, subtraction, multiplication or narrowing
    /// would leave the representable range.
    Overflow,
    /// The swap's total output fell below the caller's floor.
    SlippageExceeded,
}

} // verus!
