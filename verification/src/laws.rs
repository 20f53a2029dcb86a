//! The engine's stated laws, proved against the same spec functions
//! its contracts use: conservation of reserves under add/remove,
//! bounds on minted shares, freedom from dilution, the swap output
//! bound, and the deposit/withdraw round trip.

use vstd::prelude::*;
use vstd::arithmetic::mul::lemma_mul_inequality;
use crate::math::{lemma_div_mul_le, lemma_cp_output_lt_reserve, lemma_prorata_le_whole};
use crate::liquidity::{
    bin_after_deposit, bin_after_withdraw, spec_shares_minted, spec_withdraw_x, spec_withdraw_y,
};
use crate::state::Bin;
use crate::swap::{reserve_in, reserve_out, spec_cp_out};

verus! {

/// One accounting action on a single bin: a deposit of `(dx, dy)`
/// minting the implied shares, or a burn of `shares`.
pub enum BinAction {
    /// Deposit `dx` of asset X and `dy` of asset Y.
    Deposit { dx: u64, dy: u64 },
    /// Burn `shares` and take the proportional reserves.
    Withdraw { shares: u128 },
}

/// Whether an action goes through on `b`: a deposit must mint at
/// least one share and fit the stored widths; a burn must be positive
/// and covered by the outstanding shares.
pub open spec fn action_applies(b: Bin, a: BinAction) -> bool {
    match a {
        BinAction::Deposit { dx, dy } => {
            let minted = spec_shares_minted(b, dx as int, dy as int);
            &&& minted > 0
            &&& b.reserve_x + dx <= u64::MAX
            &&& b.reserve_y + dy <= u64::MAX
            &&& b.total_shares + minted <= u128::MAX
        },
        BinAction::Withdraw { shares } => 0 < shares <= b.total_shares,
    }
}

/// The bin after one action.
pub open spec fn bin_after_action(b: Bin, a: BinAction) -> Bin {
    match a {
        BinAction::Deposit { dx, dy } => bin_after_deposit(
            b,
            dx as int,
            dy as int,
            spec_shares_minted(b, dx as int, dy as int),
        ),
        BinAction::Withdraw { shares } => bin_after_withdraw(b, shares as int),
    }
}

/// What one action deposits of asset X.
pub open spec fn deposit_x_of(b: Bin, a: BinAction) -> int {
    match a {
        BinAction::Deposit { dx, .. } => dx as int,
        BinAction::Withdraw { .. } => 0,
    }
}

/// What one action deposits of asset Y.
pub open spec fn deposit_y_of(b: Bin, a: BinAction) -> int {
    match a {
        BinAction::Deposit { dy, .. } => dy as int,
        BinAction::Withdraw { .. } => 0,
    }
}

/// What one action withdraws of asset X, at the reserves it finds.
pub open spec fn withdraw_x_of(b: Bin, a: BinAction) -> int {
    match a {
        BinAction::Deposit { .. } => 0,
        BinAction::Withdraw { shares } => spec_withdraw_x(b, shares as int),
    }
}

/// What one action withdraws of asset Y, at the reserves it finds.
pub open spec fn withdraw_y_of(b: Bin, a: BinAction) -> int {
    match a {
        BinAction::Deposit { .. } => 0,
        BinAction::Withdraw { shares } => spec_withdraw_y(b, shares as int),
    }
}

/// Whether a whole sequence of actions goes through from `b`.
pub open spec fn all_apply(b: Bin, actions: Seq<BinAction>) -> bool
    decreases actions.len(),
{
    actions.len() == 0 || (action_applies(b, actions[0]) && all_apply(
        bin_after_action(b, actions[0]),
        actions.skip(1),
    ))
}

/// The bin after a whole sequence of actions.
pub open spec fn bin_after_actions(b: Bin, actions: Seq<BinAction>) -> Bin
    decreases actions.len(),
{
    if actions.len() == 0 {
        b
    } else {
        bin_after_actions(bin_after_action(b, actions[0]), actions.skip(1))
    }
}

/// Total of asset X deposited along the sequence.
pub open spec fn total_deposited_x(b: Bin, actions: Seq<BinAction>) -> int
    decreases actions.len(),
{
    if actions.len() == 0 {
        0
    } else {
        deposit_x_of(b, actions[0]) + total_deposited_x(
            bin_after_action(b, actions[0]),
            actions.skip(1),
        )
    }
}

/// Total of asset Y deposited along the sequence.
pub open spec fn total_deposited_y(b: Bin, actions: Seq<BinAction>) -> int
    decreases actions.len(),
{
    if actions.len() == 0 {
        0
    } else {
        deposit_y_of(b, actions[0]) + total_deposited_y(
            bin_after_action(b, actions[0]),
            actions.skip(1),
        )
    }
}

/// Total of asset X withdrawn along the sequence.
pub open spec fn total_withdrawn_x(b: Bin, actions: Seq<BinAction>) -> int
    decreases actions.len(),
{
    if actions.len() == 0 {
        0
    } else {
        withdraw_x_of(b, actions[0]) + total_withdrawn_x(
            bin_after_action(b, actions[0]),
            actions.skip(1),
        )
    }
}

/// Total of asset Y withdrawn along the sequence.
pub open spec fn total_withdrawn_y(b: Bin, actions: Seq<BinAction>) -> int
    decreases actions.len(),
{
    if actions.len() == 0 {
        0
    } else {
        withdraw_y_of(b, actions[0]) + total_withdrawn_y(
            bin_after_action(b, actions[0]),
            actions.skip(1),
        )
    }
}

/// Conservation: over any sequence of deposits and burns on one bin,
/// each reserve afterwards equals the reserve before plus everything
/// deposited minus everything withdrawn, exactly — integer arithmetic
/// loses nothing beyond the documented truncation already counted in
/// each withdrawal amount.
pub proof fn lemma_bin_conservation(b: Bin, actions: Seq<BinAction>)
    requires
        all_apply(b, actions),
    ensures
        bin_after_actions(b, actions).reserve_x == b.reserve_x + total_deposited_x(b, actions)
            - total_withdrawn_x(b, actions),
        bin_after_actions(b, actions).reserve_y == b.reserve_y + total_deposited_y(b, actions)
            - total_withdrawn_y(b, actions),
    decreases actions.len(),
{
    if actions.len() == 0 {
    } else {
        let a = actions[0];
        let b2 = bin_after_action(b, a);
        match a {
            BinAction::Deposit { .. } => {},
            BinAction::Withdraw { shares } => {
                lemma_prorata_le_whole(b.reserve_x as int, shares as int, b.total_shares as int);
                lemma_prorata_le_whole(b.reserve_y as int, shares as int, b.total_shares as int);
            },
        }
        lemma_bin_conservation(b2, actions.skip(1));
    }
}

/// Share monotonicity: on a bin that already has shares outstanding,
/// the minted amount never exceeds what the deposit implies on either
/// asset whose reserve is positive.
pub proof fn lemma_share_monotonicity(b: Bin, dx: int, dy: int)
    requires
        b.total_shares > 0,
        0 <= dx,
        0 <= dy,
    ensures
        b.reserve_x > 0 ==> spec_shares_minted(b, dx, dy) <= dx * b.total_shares / (
        b.reserve_x as int),
        b.reserve_y > 0 ==> spec_shares_minted(b, dx, dy) <= dy * b.total_shares / (
        b.reserve_y as int),
{
}

/// No dilution: a deposit by another party never lowers the reserves
/// backing each existing share. Cross-multiplied to stay in integers:
/// the reserve-per-share ratio after minting is at least the ratio
/// before, on both assets; the holder's own share count is untouched
/// by someone else's mint, so its backing can only grow.
pub proof fn lemma_no_dilution(b: Bin, dx: int, dy: int)
    requires
        b.total_shares > 0,
        0 <= dx,
        0 <= dy,
    ensures
        ({
            let minted = spec_shares_minted(b, dx, dy);
            &&& b.reserve_x * (b.total_shares + minted) <= (b.reserve_x + dx) * b.total_shares
            &&& b.reserve_y * (b.total_shares + minted) <= (b.reserve_y + dy) * b.total_shares
        }),
{
    let minted = spec_shares_minted(b, dx, dy);
    let t = b.total_shares as int;
    let rx = b.reserve_x as int;
    let ry = b.reserve_y as int;
    if b.reserve_x > 0 {
        lemma_div_mul_le(dx * t, rx);
        lemma_mul_inequality(minted, dx * t / rx, rx);
        assert(rx * (t + minted) <= (rx + dx) * t) by (nonlinear_arith)
            requires
                minted * rx <= dx * t,
                0 <= rx,
                0 <= t,
        ;
    } else {
        assert(rx * (t + minted) <= (rx + dx) * t) by (nonlinear_arith)
            requires
                rx == 0,
                0 <= dx,
                0 <= t,
        ;
    }
    if b.reserve_y > 0 {
        lemma_div_mul_le(dy * t, ry);
        lemma_mul_inequality(minted, dy * t / ry, ry);
        assert(ry * (t + minted) <= (ry + dy) * t) by (nonlinear_arith)
            requires
                minted * ry <= dy * t,
                0 <= ry,
                0 <= t,
        ;
    } else {
        assert(ry * (t + minted) <= (ry + dy) * t) by (nonlinear_arith)
            requires
                ry == 0,
                0 <= dy,
                0 <= t,
        ;
    }
}

/// Swap output bound: a single bin's constant-product output is
/// strictly below the bin's own inventory of the drained side — a
/// swap contained in one bin can approach but never empty it.
pub proof fn lemma_swap_output_bound(b: Bin, swap_for_y: bool, after_fee: int)
    requires
        0 <= after_fee,
        reserve_in(b, swap_for_y) > 0,
        reserve_out(b, swap_for_y) > 0,
    ensures
        spec_cp_out(
            after_fee,
            reserve_in(b, swap_for_y) as int,
            reserve_out(b, swap_for_y) as int,
        ) < reserve_out(b, swap_for_y),
{
    lemma_cp_output_lt_reserve(
        after_fee,
        reserve_in(b, swap_for_y) as int,
        reserve_out(b, swap_for_y) as int,
    );
}

/// Round trip: depositing `(dx, dy)` into an empty bin and at once
/// burning every minted share returns exactly `(dx, dy)` and leaves
/// the bin empty again — a full burn sees no truncation loss.
pub proof fn lemma_round_trip(b: Bin, dx: u64, dy: u64)
    requires
        b.reserve_x == 0,
        b.reserve_y == 0,
        b.total_shares == 0,
        spec_shares_minted(b, dx as int, dy as int) > 0,
    ensures
        ({
            let minted = spec_shares_minted(b, dx as int, dy as int);
            let nb = bin_after_deposit(b, dx as int, dy as int, minted);
            &&& spec_withdraw_x(nb, minted) == dx
            &&& spec_withdraw_y(nb, minted) == dy
            &&& bin_after_withdraw(nb, minted).reserve_x == 0
            &&& bin_after_withdraw(nb, minted).reserve_y == 0
            &&& bin_after_withdraw(nb, minted).total_shares == 0
        }),
{
    let minted = spec_shares_minted(b, dx as int, dy as int);
    crate::math::lemma_sqrt_floor_bounds((dx * dy) as nat);
    assert(minted <= u128::MAX) by (nonlinear_arith)
        requires
            minted * minted <= dx * dy,
            dx <= u64::MAX,
            dy <= u64::MAX,
            0 <= minted,
            0 <= dx,
            0 <= dy,
    ;
    let nb = bin_after_deposit(b, dx as int, dy as int, minted);
    vstd::arithmetic::div_mod::lemma_div_by_multiple(dx as int, minted);
    vstd::arithmetic::div_mod::lemma_div_by_multiple(dy as int, minted);
    assert(nb.reserve_x * minted == dx * minted);
}

} // verus!
