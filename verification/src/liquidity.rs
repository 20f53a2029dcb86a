//! The liquidity engine: share minting on deposit and proportional
//! withdrawal on burn.
//!
//! Each call is all-or-nothing: it computes on a scratch copy of the
//! page and the position, and commits only when every distribution
//! entry and the aggregate update succeeded. The mathematical model
//! (`spec_add_liquidity`, `spec_remove_liquidity`) folds one step per
//! entry over a ghost state; the executable functions return exactly
//! what the model says, error for error.

use vstd::prelude::*;
use vstd::arithmetic::mul::lemma_mul_upper_bound;
use crate::errors::ErrorCode;
use crate::math::{integer_sqrt, lemma_prorata_le_whole, sqrt_floor};
use crate::state::{
    copy_bins, copy_shares, resolve_bin_slot, slot_in_range, spec_local_slot, Bin, BinArray,
    LbPair, Position, BASIS_POINT_MAX, BINS_PER_ARRAY,
};

verus! {

/// One target of a deposit: an offset from the active bin and the
/// basis-point fraction of each asset to place there.
#[derive(Clone, Copy)]
pub struct BinLiquidityDistribution {
    /// Offset from the active bin (-1, 0, +1, ...).
    pub delta_id: i32,
    /// Fraction of `amount_x` for this bin, in basis points.
    pub dist_x: u16,
    /// Fraction of `amount_y` for this bin, in basis points.
    pub dist_y: u16,
}

/// One target of a withdrawal: a global bin id and the shares to burn
/// there.
#[derive(Clone, Copy)]
pub struct BinLiquidityReduction {
    /// Global identifier of the bin to burn from.
    pub bin_id: i32,
    /// Shares to burn; zero is a benign no-op.
    pub shares_to_burn: u128,
}

/// What a successful deposit moved in total: the custody layer owes
/// one debit of the depositor per asset for these amounts.
#[derive(Clone, Copy)]
pub struct DepositTotals {
    /// Total of asset X placed across all entries.
    pub total_x: u64,
    /// Total of asset Y placed across all entries.
    pub total_y: u64,
}

/// What a successful withdrawal freed in total: the custody layer owes
/// one credit of the owner per asset for these amounts.
#[derive(Clone, Copy)]
pub struct WithdrawTotals {
    /// Total of asset X released across all entries.
    pub total_x: u64,
    /// Total of asset Y released across all entries.
    pub total_y: u64,
}

/// The ghost state a liquidity call folds over: the page's bins, the
/// position's balances and bounds, and the running totals.
#[verifier::ext_equal]
pub struct LiquidityState {
    /// The page's bins, one per local slot.
    pub bins: Seq<Bin>,
    /// The position's share balance per local slot.
    pub pos_shares: Seq<u128>,
    /// The position's observed lower bin id.
    pub lower: int,
    /// The position's observed upper bin id.
    pub upper: int,
    /// Asset X moved so far.
    pub total_x: int,
    /// Asset Y moved so far.
    pub total_y: int,
}

/// Assembles the ghost state from running values.
pub open spec fn running_state(
    bins: Seq<Bin>,
    pos_shares: Seq<u128>,
    lower: int,
    upper: int,
    total_x: int,
    total_y: int,
) -> LiquidityState {
    LiquidityState { bins, pos_shares, lower, upper, total_x, total_y }
}

/// The ghost state a call starts from: the records as given, nothing
/// moved yet.
pub open spec fn initial_liquidity_state(array: BinArray, pos: Position) -> LiquidityState {
    running_state(
        array.bins@,
        pos.liquidity_shares@,
        pos.lower_bin_id as int,
        pos.upper_bin_id as int,
        0,
        0,
    )
}

/// The part of a deposit one entry sends to its bin: a basis-point
/// fraction, truncated toward zero so rounding loss favors the pool.
pub open spec fn spec_deposit_amount(amount: u64, bps: u16) -> int {
    (amount * bps) / (BASIS_POINT_MAX as int)
}

/// The share count one side of the bin implies for a deposit. A zero
/// reserve places no cap on that side, modeled as the maximum
/// representable share count.
pub open spec fn spec_shares_from_side(reserve: u64, deposit: int, total: u128) -> int {
    if reserve > 0 {
        deposit * total / (reserve as int)
    } else {
        u128::MAX as int
    }
}

/// Shares minted for a deposit of `(dx, dy)` into `b`: the geometric
/// mean seeds an empty bin; otherwise the smaller of the two implied
/// share counts protects existing holders from dilution.
pub open spec fn spec_shares_minted(b: Bin, dx: int, dy: int) -> int {
    if b.total_shares == 0 {
        sqrt_floor((dx * dy) as nat) as int
    } else {
        let sx = spec_shares_from_side(b.reserve_x, dx, b.total_shares);
        let sy = spec_shares_from_side(b.reserve_y, dy, b.total_shares);
        if sx <= sy {
            sx
        } else {
            sy
        }
    }
}

/// A bin after a deposit was applied to it.
pub open spec fn bin_after_deposit(b: Bin, dx: int, dy: int, minted: int) -> Bin {
    Bin {
        reserve_x: (b.reserve_x + dx) as u64,
        reserve_y: (b.reserve_y + dy) as u64,
        total_shares: (b.total_shares + minted) as u128,
        ..b
    }
}

/// One deposit entry applied to the ghost state, error for error as
/// the engine checks it.
pub open spec fn spec_add_step(
    active: u16,
    index: u16,
    st: LiquidityState,
    amount_x: u64,
    amount_y: u64,
    d: BinLiquidityDistribution,
) -> Result<LiquidityState, ErrorCode> {
    let target = active + d.delta_id;
    if !slot_in_range(index, target) {
        Err(ErrorCode::BinOutOfRange)
    } else {
        let slot = spec_local_slot(index, target);
        let dx = spec_deposit_amount(amount_x, d.dist_x);
        let dy = spec_deposit_amount(amount_y, d.dist_y);
        if dx > u64::MAX || dy > u64::MAX {
            Err(ErrorCode::Overflow)
        } else {
            let b = st.bins[slot];
            if b.total_shares > 0 && ((b.reserve_x > 0 && dx * b.total_shares > u128::MAX) || (
            b.reserve_y > 0 && dy * b.total_shares > u128::MAX)) {
                Err(ErrorCode::Overflow)
            } else {
                let minted = spec_shares_minted(b, dx, dy);
                if minted == 0 {
                    Err(ErrorCode::InsufficientLiquidity)
                } else if b.reserve_x + dx > u64::MAX || b.reserve_y + dy > u64::MAX
                    || b.total_shares + minted > u128::MAX
                    || st.pos_shares[slot] + minted > u128::MAX
                    || st.total_x + dx > u64::MAX || st.total_y + dy > u64::MAX {
                    Err(ErrorCode::Overflow)
                } else {
                    Ok(LiquidityState {
                        bins: st.bins.update(slot, bin_after_deposit(b, dx, dy, minted)),
                        pos_shares: st.pos_shares.update(
                            slot,
                            (st.pos_shares[slot] + minted) as u128,
                        ),
                        lower: if target < st.lower {
                            target
                        } else {
                            st.lower
                        },
                        upper: if target > st.upper {
                            target
                        } else {
                            st.upper
                        },
                        total_x: st.total_x + dx,
                        total_y: st.total_y + dy,
                    })
                }
            }
        }
    }
}

/// The whole deposit loop: entries folded front to back, stopping at
/// the first failure.
pub open spec fn spec_add_liquidity(
    active: u16,
    index: u16,
    st: LiquidityState,
    amount_x: u64,
    amount_y: u64,
    ds: Seq<BinLiquidityDistribution>,
) -> Result<LiquidityState, ErrorCode>
    decreases ds.len(),
{
    if ds.len() == 0 {
        Ok(st)
    } else {
        match spec_add_step(active, index, st, amount_x, amount_y, ds[0]) {
            Err(e) => Err(e),
            Ok(st2) => spec_add_liquidity(active, index, st2, amount_x, amount_y, ds.skip(1)),
        }
    }
}

/// The whole add-liquidity call: the loop's result, then the checked
/// update of the market's aggregate reserves.
pub open spec fn spec_add_liquidity_call(
    pair: LbPair,
    array: BinArray,
    pos: Position,
    amount_x: u64,
    amount_y: u64,
    ds: Seq<BinLiquidityDistribution>,
) -> Result<(LbPair, LiquidityState), ErrorCode> {
    match spec_add_liquidity(
        pair.active_bin_id,
        array.index,
        initial_liquidity_state(array, pos),
        amount_x,
        amount_y,
        ds,
    ) {
        Err(e) => Err(e),
        Ok(st) => if pair.reserve_x + st.total_x > u64::MAX || pair.reserve_y + st.total_y
            > u64::MAX {
            Err(ErrorCode::Overflow)
        } else {
            Ok(
                (
                    LbPair {
                        reserve_x: (pair.reserve_x + st.total_x) as u64,
                        reserve_y: (pair.reserve_y + st.total_y) as u64,
                        ..pair
                    },
                    st,
                ),
            )
        },
    }
}

/// A successful deposit fold only ever widens the observed bin range:
/// the lower bound never rises and the upper bound never falls.
pub proof fn lemma_deposit_bounds_widen_only(
    active: u16,
    index: u16,
    st: LiquidityState,
    amount_x: u64,
    amount_y: u64,
    ds: Seq<BinLiquidityDistribution>,
)
    requires
        spec_add_liquidity(active, index, st, amount_x, amount_y, ds) is Ok,
    ensures
        spec_add_liquidity(active, index, st, amount_x, amount_y, ds)->Ok_0.lower <= st.lower,
        spec_add_liquidity(active, index, st, amount_x, amount_y, ds)->Ok_0.upper >= st.upper,
    decreases ds.len(),
{
    if ds.len() > 0 {
        match spec_add_step(active, index, st, amount_x, amount_y, ds[0]) {
            Ok(st2) => {
                lemma_deposit_bounds_widen_only(active, index, st2, amount_x, amount_y, ds.skip(1));
            },
            Err(e) => {
                assert(false);
            },
        }
    }
}

/// Splits a deposit of `amount_x` and `amount_y` across the given
/// distribution of bins around the active bin, minting shares to the
/// position, and reports the totals the custody layer must move.
///
/// The call follows `spec_add_liquidity_call` exactly: on success the
/// page, the position and the market reserves hold the folded state;
/// on failure the error is the model's and nothing is changed.
#[verifier::loop_isolation(false)]
pub fn add_liquidity(
    pair: &mut LbPair,
    bin_array: &mut BinArray,
    position: &mut Position,
    amount_x: u64,
    amount_y: u64,
    bin_liquidity_dist: &Vec<BinLiquidityDistribution>,
) -> (r: Result<DepositTotals, ErrorCode>)
    requires
        old(bin_array).wf(),
        old(position).wf(),
    ensures
        final(bin_array).index == old(bin_array).index,
        final(bin_array).wf(),
        final(position).wf(),
        final(position).lower_bin_id <= old(position).lower_bin_id,
        final(position).upper_bin_id >= old(position).upper_bin_id,
        ({
            let res = spec_add_liquidity_call(
                *old(pair),
                *old(bin_array),
                *old(position),
                amount_x,
                amount_y,
                bin_liquidity_dist@,
            );
            match r {
                Ok(t) => {
                    &&& res is Ok
                    &&& *final(pair) == res->Ok_0.0
                    &&& final(bin_array).bins@ == res->Ok_0.1.bins
                    &&& final(position).liquidity_shares@ == res->Ok_0.1.pos_shares
                    &&& final(position).lower_bin_id == res->Ok_0.1.lower
                    &&& final(position).upper_bin_id == res->Ok_0.1.upper
                    &&& t.total_x == res->Ok_0.1.total_x
                    &&& t.total_y == res->Ok_0.1.total_y
                },
                Err(e) => {
                    &&& res == Err::<(LbPair, LiquidityState), ErrorCode>(e)
                    &&& *final(pair) == *old(pair)
                    &&& final(bin_array).bins@ == old(bin_array).bins@
                    &&& final(position).liquidity_shares@ == old(position).liquidity_shares@
                    &&& final(position).lower_bin_id == old(position).lower_bin_id
                    &&& final(position).upper_bin_id == old(position).upper_bin_id
                },
            }
        }),
{
    let active: u16 = pair.active_bin_id;
    let index: u16 = bin_array.index;
    let mut bins = copy_bins(&bin_array.bins);
    let mut pos_shares = copy_shares(&position.liquidity_shares);
    let mut lower: i32 = position.lower_bin_id;
    let mut upper: i32 = position.upper_bin_id;
    let mut total_x: u64 = 0;
    let mut total_y: u64 = 0;
    let ghost init = initial_liquidity_state(*bin_array, *position);
    let ghost ds = bin_liquidity_dist@;
    proof {
        assert(ds.skip(0) =~= ds);
        assert(running_state(
            bins@,
            pos_shares@,
            lower as int,
            upper as int,
            total_x as int,
            total_y as int,
        ) =~= init);
    }
    let n: usize = bin_liquidity_dist.len();
    let mut i: usize = 0;
    while i < n
        invariant
            i <= n,
            bins@.len() == BINS_PER_ARRAY,
            pos_shares@.len() == BINS_PER_ARRAY,
            spec_add_liquidity(
                active,
                index,
                running_state(
                    bins@,
                    pos_shares@,
                    lower as int,
                    upper as int,
                    total_x as int,
                    total_y as int,
                ),
                amount_x,
                amount_y,
                ds.skip(i as int),
            ) == spec_add_liquidity(active, index, init, amount_x, amount_y, ds),
        decreases n - i,
    {
        let ghost pre = running_state(
            bins@,
            pos_shares@,
            lower as int,
            upper as int,
            total_x as int,
            total_y as int,
        );
        let d = bin_liquidity_dist[i];
        proof {
            assert(ds.skip(i as int).len() > 0);
            assert(ds.skip(i as int)[0] == ds[i as int]);
        }
        let target: i64 = active as i64 + d.delta_id as i64;
        let slot: usize;
        match resolve_bin_slot(index, target) {
            Ok(s) => {
                slot = s;
            },
            Err(e) => {
                proof {
                    assert(spec_add_step(active, index, pre, amount_x, amount_y, d)
                        == Err::<LiquidityState, ErrorCode>(ErrorCode::BinOutOfRange));
                }
                return Err(e);
            },
        }
        proof {
            lemma_mul_upper_bound(amount_x as int, u64::MAX as int, d.dist_x as int, u16::MAX as int);
            lemma_mul_upper_bound(amount_y as int, u64::MAX as int, d.dist_y as int, u16::MAX as int);
        }
        let dx128: u128 = (amount_x as u128) * (d.dist_x as u128) / (BASIS_POINT_MAX as u128);
        let dy128: u128 = (amount_y as u128) * (d.dist_y as u128) / (BASIS_POINT_MAX as u128);
        if dx128 > u64::MAX as u128 || dy128 > u64::MAX as u128 {
            proof {
                assert(spec_add_step(active, index, pre, amount_x, amount_y, d)
                    == Err::<LiquidityState, ErrorCode>(ErrorCode::Overflow));
            }
            return Err(ErrorCode::Overflow);
        }
        let dx: u64 = dx128 as u64;
        let dy: u64 = dy128 as u64;
        let b = bins[slot];
        let minted: u128;
        if b.total_shares == 0 {
            proof {
                lemma_mul_upper_bound(dx as int, u64::MAX as int, dy as int, u64::MAX as int);
            }
            let product: u128 = (dx as u128) * (dy as u128);
            minted = integer_sqrt(product);
        } else {
            let shares_x: u128;
            if b.reserve_x > 0 {
                match (dx as u128).checked_mul(b.total_shares) {
                    Some(m) => {
                        shares_x = m / (b.reserve_x as u128);
                    },
                    None => {
                        proof {
                            assert(spec_add_step(active, index, pre, amount_x, amount_y, d)
                                == Err::<LiquidityState, ErrorCode>(ErrorCode::Overflow));
                        }
                        return Err(ErrorCode::Overflow);
                    },
                }
            } else {
                shares_x = u128::MAX;
            }
            let shares_y: u128;
            if b.reserve_y > 0 {
                match (dy as u128).checked_mul(b.total_shares) {
                    Some(m) => {
                        shares_y = m / (b.reserve_y as u128);
                    },
                    None => {
                        proof {
                            assert(spec_add_step(active, index, pre, amount_x, amount_y, d)
                                == Err::<LiquidityState, ErrorCode>(ErrorCode::Overflow));
                        }
                        return Err(ErrorCode::Overflow);
                    },
                }
            } else {
                shares_y = u128::MAX;
            }
            minted = if shares_x <= shares_y {
                shares_x
            } else {
                shares_y
            };
        }
        proof {
            assert(minted == spec_shares_minted(b, dx as int, dy as int));
        }
        if minted == 0 {
            proof {
                assert(spec_add_step(active, index, pre, amount_x, amount_y, d)
                    == Err::<LiquidityState, ErrorCode>(ErrorCode::InsufficientLiquidity));
            }
            return Err(ErrorCode::InsufficientLiquidity);
        }
        let nrx = b.reserve_x.checked_add(dx);
        let nry = b.reserve_y.checked_add(dy);
        let nts = b.total_shares.checked_add(minted);
        let nps = pos_shares[slot].checked_add(minted);
        let ntx = total_x.checked_add(dx);
        let nty = total_y.checked_add(dy);
        if nrx.is_none() || nry.is_none() || nts.is_none() || nps.is_none() || ntx.is_none()
            || nty.is_none() {
            proof {
                assert(spec_add_step(active, index, pre, amount_x, amount_y, d)
                    == Err::<LiquidityState, ErrorCode>(ErrorCode::Overflow));
            }
            return Err(ErrorCode::Overflow);
        }
        let new_bin = Bin {
            reserve_x: nrx.unwrap(),
            reserve_y: nry.unwrap(),
            total_shares: nts.unwrap(),
            ..b
        };
        bins[slot] = new_bin;
        pos_shares[slot] = nps.unwrap();
        let t32: i32 = target as i32;
        if t32 < lower {
            lower = t32;
        }
        if t32 > upper {
            upper = t32;
        }
        total_x = ntx.unwrap();
        total_y = nty.unwrap();
        proof {
            let post = running_state(
                bins@,
                pos_shares@,
                lower as int,
                upper as int,
                total_x as int,
                total_y as int,
            );
            assert(spec_add_step(active, index, pre, amount_x, amount_y, d)
                == Ok::<LiquidityState, ErrorCode>(post));
            assert(ds.skip(i as int).skip(1) =~= ds.skip(i as int + 1));
        }
        i = i + 1;
    }
    proof {
        assert(ds.skip(n as int) =~= Seq::<BinLiquidityDistribution>::empty());
        lemma_deposit_bounds_widen_only(active, index, init, amount_x, amount_y, ds);
    }
    let nprx = pair.reserve_x.checked_add(total_x);
    let npry = pair.reserve_y.checked_add(total_y);
    if nprx.is_none() || npry.is_none() {
        return Err(ErrorCode::Overflow);
    }
    pair.reserve_x = nprx.unwrap();
    pair.reserve_y = npry.unwrap();
    bin_array.bins = bins;
    position.liquidity_shares = pos_shares;
    position.lower_bin_id = lower;
    position.upper_bin_id = upper;
    Ok(DepositTotals { total_x, total_y })
}

/// The share of the bin's X reserve a burn of `shares` releases,
/// truncated toward zero so rounding loss favors the pool. Meaningful
/// only with `b.total_shares > 0`.
pub open spec fn spec_withdraw_x(b: Bin, shares: int) -> int {
    b.reserve_x * shares / (b.total_shares as int)
}

/// The share of the bin's Y reserve a burn of `shares` releases.
pub open spec fn spec_withdraw_y(b: Bin, shares: int) -> int {
    b.reserve_y * shares / (b.total_shares as int)
}

/// A bin after a burn was applied to it.
pub open spec fn bin_after_withdraw(b: Bin, shares: int) -> Bin {
    Bin {
        reserve_x: (b.reserve_x - spec_withdraw_x(b, shares)) as u64,
        reserve_y: (b.reserve_y - spec_withdraw_y(b, shares)) as u64,
        total_shares: (b.total_shares - shares) as u128,
        ..b
    }
}

/// One withdrawal entry applied to the ghost state, error for error
/// as the engine checks it. A zero burn is a benign no-op.
pub open spec fn spec_remove_step(
    index: u16,
    st: LiquidityState,
    rd: BinLiquidityReduction,
) -> Result<LiquidityState, ErrorCode> {
    let target = rd.bin_id as int;
    if !slot_in_range(index, target) {
        Err(ErrorCode::BinOutOfRange)
    } else {
        let slot = spec_local_slot(index, target);
        let b = st.bins[slot];
        let s = rd.shares_to_burn;
        if s > b.total_shares {
            Err(ErrorCode::InsufficientLiquidity)
        } else if s > st.pos_shares[slot] {
            Err(ErrorCode::InsufficientShares)
        } else if s == 0 {
            Ok(st)
        } else if b.reserve_x * s > u128::MAX || b.reserve_y * s > u128::MAX {
            Err(ErrorCode::Overflow)
        } else {
            let ax = spec_withdraw_x(b, s as int);
            let ay = spec_withdraw_y(b, s as int);
            if st.total_x + ax > u64::MAX || st.total_y + ay > u64::MAX {
                Err(ErrorCode::Overflow)
            } else {
                Ok(LiquidityState {
                    bins: st.bins.update(slot, bin_after_withdraw(b, s as int)),
                    pos_shares: st.pos_shares.update(slot, (st.pos_shares[slot] - s) as u128),
                    total_x: st.total_x + ax,
                    total_y: st.total_y + ay,
                    ..st
                })
            }
        }
    }
}

/// The whole withdrawal loop: entries folded front to back, stopping
/// at the first failure.
pub open spec fn spec_remove_liquidity(
    index: u16,
    st: LiquidityState,
    rds: Seq<BinLiquidityReduction>,
) -> Result<LiquidityState, ErrorCode>
    decreases rds.len(),
{
    if rds.len() == 0 {
        Ok(st)
    } else {
        match spec_remove_step(index, st, rds[0]) {
            Err(e) => Err(e),
            Ok(st2) => spec_remove_liquidity(index, st2, rds.skip(1)),
        }
    }
}

/// The whole remove-liquidity call: the loop's result, then the
/// checked update of the market's aggregate reserves.
pub open spec fn spec_remove_liquidity_call(
    pair: LbPair,
    array: BinArray,
    pos: Position,
    rds: Seq<BinLiquidityReduction>,
) -> Result<(LbPair, LiquidityState), ErrorCode> {
    match spec_remove_liquidity(array.index, initial_liquidity_state(array, pos), rds) {
        Err(e) => Err(e),
        Ok(st) => if pair.reserve_x - st.total_x < 0 || pair.reserve_y - st.total_y < 0 {
            Err(ErrorCode::Overflow)
        } else {
            Ok(
                (
                    LbPair {
                        reserve_x: (pair.reserve_x - st.total_x) as u64,
                        reserve_y: (pair.reserve_y - st.total_y) as u64,
                        ..pair
                    },
                    st,
                ),
            )
        },
    }
}

/// Burns shares in the listed bins and releases the proportional part
/// of each bin's reserves, reporting the totals the custody layer must
/// return to the owner. The owner check on the position is the
/// caller's concern, made before any mutation.
///
/// The call follows `spec_remove_liquidity_call` exactly: on success
/// the page, the position and the market reserves hold the folded
/// state; on failure the error is the model's and nothing is changed.
/// The position's observed bin range is left as it was: it widens on
/// deposit only and is not narrowed by withdrawal.
#[verifier::loop_isolation(false)]
pub fn remove_liquidity(
    pair: &mut LbPair,
    bin_array: &mut BinArray,
    position: &mut Position,
    bin_liquidity_removal: &Vec<BinLiquidityReduction>,
) -> (r: Result<WithdrawTotals, ErrorCode>)
    requires
        old(bin_array).wf(),
        old(position).wf(),
    ensures
        final(bin_array).index == old(bin_array).index,
        final(bin_array).wf(),
        final(position).wf(),
        final(position).lower_bin_id == old(position).lower_bin_id,
        final(position).upper_bin_id == old(position).upper_bin_id,
        ({
            let res = spec_remove_liquidity_call(
                *old(pair),
                *old(bin_array),
                *old(position),
                bin_liquidity_removal@,
            );
            match r {
                Ok(t) => {
                    &&& res is Ok
                    &&& *final(pair) == res->Ok_0.0
                    &&& final(bin_array).bins@ == res->Ok_0.1.bins
                    &&& final(position).liquidity_shares@ == res->Ok_0.1.pos_shares
                    &&& t.total_x == res->Ok_0.1.total_x
                    &&& t.total_y == res->Ok_0.1.total_y
                },
                Err(e) => {
                    &&& res == Err::<(LbPair, LiquidityState), ErrorCode>(e)
                    &&& *final(pair) == *old(pair)
                    &&& final(bin_array).bins@ == old(bin_array).bins@
                    &&& final(position).liquidity_shares@ == old(position).liquidity_shares@
                },
            }
        }),
{
    let index: u16 = bin_array.index;
    let mut bins = copy_bins(&bin_array.bins);
    let mut pos_shares = copy_shares(&position.liquidity_shares);
    let mut total_x: u64 = 0;
    let mut total_y: u64 = 0;
    let ghost init = initial_liquidity_state(*bin_array, *position);
    let ghost rds = bin_liquidity_removal@;
    let ghost lower = position.lower_bin_id as int;
    let ghost upper = position.upper_bin_id as int;
    proof {
        assert(rds.skip(0) =~= rds);
        assert(running_state(bins@, pos_shares@, lower, upper, total_x as int, total_y as int)
            =~= init);
    }
    let n: usize = bin_liquidity_removal.len();
    let mut i: usize = 0;
    while i < n
        invariant
            i <= n,
            bins@.len() == BINS_PER_ARRAY,
            pos_shares@.len() == BINS_PER_ARRAY,
            spec_remove_liquidity(
                index,
                running_state(bins@, pos_shares@, lower, upper, total_x as int, total_y as int),
                rds.skip(i as int),
            ) == spec_remove_liquidity(index, init, rds),
        decreases n - i,
    {
        let ghost pre = running_state(
            bins@,
            pos_shares@,
            lower,
            upper,
            total_x as int,
            total_y as int,
        );
        let rd = bin_liquidity_removal[i];
        proof {
            assert(rds.skip(i as int).len() > 0);
            assert(rds.skip(i as int)[0] == rds[i as int]);
        }
        let slot: usize;
        match resolve_bin_slot(index, rd.bin_id as i64) {
            Ok(s) => {
                slot = s;
            },
            Err(e) => {
                proof {
                    assert(spec_remove_step(index, pre, rd)
                        == Err::<LiquidityState, ErrorCode>(ErrorCode::BinOutOfRange));
                }
                return Err(e);
            },
        }
        let b = bins[slot];
        let s = rd.shares_to_burn;
        if s > b.total_shares {
            proof {
                assert(spec_remove_step(index, pre, rd)
                    == Err::<LiquidityState, ErrorCode>(ErrorCode::InsufficientLiquidity));
            }
            return Err(ErrorCode::InsufficientLiquidity);
        }
        if s > pos_shares[slot] {
            proof {
                assert(spec_remove_step(index, pre, rd)
                    == Err::<LiquidityState, ErrorCode>(ErrorCode::InsufficientShares));
            }
            return Err(ErrorCode::InsufficientShares);
        }
        if s == 0 {
            proof {
                assert(spec_remove_step(index, pre, rd) == Ok::<LiquidityState, ErrorCode>(pre));
                assert(rds.skip(i as int).skip(1) =~= rds.skip(i as int + 1));
            }
            i = i + 1;
            continue;
        }
        let mx = (b.reserve_x as u128).checked_mul(s);
        let my = (b.reserve_y as u128).checked_mul(s);
        if mx.is_none() || my.is_none() {
            proof {
                assert(spec_remove_step(index, pre, rd)
                    == Err::<LiquidityState, ErrorCode>(ErrorCode::Overflow));
            }
            return Err(ErrorCode::Overflow);
        }
        proof {
            lemma_prorata_le_whole(b.reserve_x as int, s as int, b.total_shares as int);
            lemma_prorata_le_whole(b.reserve_y as int, s as int, b.total_shares as int);
        }
        let amount_x: u64 = (mx.unwrap() / b.total_shares) as u64;
        let amount_y: u64 = (my.unwrap() / b.total_shares) as u64;
        let ntx = total_x.checked_add(amount_x);
        let nty = total_y.checked_add(amount_y);
        if ntx.is_none() || nty.is_none() {
            proof {
                assert(spec_remove_step(index, pre, rd)
                    == Err::<LiquidityState, ErrorCode>(ErrorCode::Overflow));
            }
            return Err(ErrorCode::Overflow);
        }
        let new_bin = Bin {
            reserve_x: b.reserve_x - amount_x,
            reserve_y: b.reserve_y - amount_y,
            total_shares: b.total_shares - s,
            ..b
        };
        bins[slot] = new_bin;
        let nps = pos_shares[slot] - s;
        pos_shares[slot] = nps;
        total_x = ntx.unwrap();
        total_y = nty.unwrap();
        proof {
            let post = running_state(
                bins@,
                pos_shares@,
                lower,
                upper,
                total_x as int,
                total_y as int,
            );
            assert(spec_remove_step(index, pre, rd) == Ok::<LiquidityState, ErrorCode>(post));
            assert(rds.skip(i as int).skip(1) =~= rds.skip(i as int + 1));
        }
        i = i + 1;
    }
    proof {
        assert(rds.skip(n as int) =~= Seq::<BinLiquidityReduction>::empty());
    }
    let nprx = pair.reserve_x.checked_sub(total_x);
    let npry = pair.reserve_y.checked_sub(total_y);
    if nprx.is_none() || npry.is_none() {
        return Err(ErrorCode::Overflow);
    }
    pair.reserve_x = nprx.unwrap();
    pair.reserve_y = npry.unwrap();
    bin_array.bins = bins;
    position.liquidity_shares = pos_shares;
    Ok(WithdrawTotals { total_x, total_y })
}

} // verus!
