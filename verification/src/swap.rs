//! The swap engine: converts an input amount into the output asset by
//! walking bins sequentially from the active bin, pricing each bin by
//! its constant product after a basis-point fee.
//!
//! A bin consumes at most the reserve of the side it is not selling;
//! the output it yields stays strictly below its own inventory of the
//! drained side. The call is all-or-nothing: it computes on a scratch
//! copy of the page and commits only after the slippage floor and the
//! aggregate reserve update succeed.

use vstd::prelude::*;
use vstd::arithmetic::mul::lemma_mul_upper_bound;
use crate::errors::ErrorCode;
use crate::math::lemma_cp_output_lt_reserve;
use crate::state::{
    copy_bins, resolve_bin_slot, slot_in_range, spec_local_slot, Bin, BinArray, LbPair,
    BASIS_POINT_MAX, BINS_PER_ARRAY,
};

verus! {

/// What a successful swap produced: the custody layer owes the trader
/// `amount_out` of the output asset against the full input amount.
#[derive(Clone, Copy)]
pub struct SwapOutcome {
    /// Total output accumulated across all bins touched.
    pub amount_out: u64,
    /// Total fees charged, paid by the trader on top of the consumed
    /// input.
    pub fees_collected: u64,
}

/// The ghost state the swap folds over: the page's bins, the bin the
/// walk stands at, and the running totals.
#[verifier::ext_equal]
pub struct SwapState {
    /// The page's bins, one per local slot.
    pub bins: Seq<Bin>,
    /// Global identifier of the bin the walk stands at.
    pub current: int,
    /// Output accumulated so far.
    pub amount_out: int,
    /// Fees accumulated so far.
    pub fees: int,
}

/// Assembles the ghost state from running values.
pub open spec fn running_swap_state(bins: Seq<Bin>, current: int, amount_out: int, fees: int)
    -> SwapState {
    SwapState { bins, current, amount_out, fees }
}

/// The ghost state a swap starts from: the records as given, the walk
/// at the active bin, nothing accumulated.
pub open spec fn initial_swap_state(pair: LbPair, array: BinArray) -> SwapState {
    running_swap_state(array.bins@, pair.active_bin_id as int, 0, 0)
}

/// The reserve the trade pays into: X when selling X for Y.
pub open spec fn reserve_in(b: Bin, swap_for_y: bool) -> u64 {
    if swap_for_y {
        b.reserve_x
    } else {
        b.reserve_y
    }
}

/// The reserve the trade drains: Y when selling X for Y.
pub open spec fn reserve_out(b: Bin, swap_for_y: bool) -> u64 {
    if swap_for_y {
        b.reserve_y
    } else {
        b.reserve_x
    }
}

/// A bin with the directed reserves replaced.
pub open spec fn bin_with_reserves(b: Bin, swap_for_y: bool, new_in: int, new_out: int) -> Bin {
    if swap_for_y {
        Bin { reserve_x: new_in as u64, reserve_y: new_out as u64, ..b }
    } else {
        Bin { reserve_x: new_out as u64, reserve_y: new_in as u64, ..b }
    }
}

/// The fee on an amount, in basis points, truncated toward zero.
pub open spec fn spec_fee(amount: int, rate: u64) -> int {
    amount * rate / (BASIS_POINT_MAX as int)
}

/// Constant-product output of one bin for an after-fee input.
pub open spec fn spec_cp_out(after_fee: int, r_in: int, r_out: int) -> int {
    after_fee * r_out / (r_in + after_fee)
}

/// The swap walk: one bin consumed per unfolding until the input is
/// exhausted, error for error as the engine checks it. A bin with an
/// empty drained side cannot price the trade, and one with an empty
/// paid-in side cannot consume any input; both stop the walk. When a
/// bin's drained side hits exactly zero the walk steps one bin in the
/// trade direction.
pub open spec fn spec_swap_loop(
    index: u16,
    rate: u64,
    swap_for_y: bool,
    st: SwapState,
    left: u64,
) -> Result<SwapState, ErrorCode>
    decreases left,
{
    if left == 0 {
        Ok(st)
    } else if !slot_in_range(index, st.current) {
        Err(ErrorCode::BinOutOfRange)
    } else {
        let slot = spec_local_slot(index, st.current);
        let b = st.bins[slot];
        let r_in = reserve_in(b, swap_for_y);
        let r_out = reserve_out(b, swap_for_y);
        if r_out == 0 {
            Err(ErrorCode::InsufficientLiquidity)
        } else {
            let in_bin = if left <= r_in {
                left as int
            } else {
                r_in as int
            };
            if in_bin == 0 {
                Err(ErrorCode::InsufficientLiquidity)
            } else {
                let fee = spec_fee(in_bin, rate);
                if fee > in_bin {
                    Err(ErrorCode::Overflow)
                } else {
                    let after = in_bin - fee;
                    let out_bin = spec_cp_out(after, r_in as int, r_out as int);
                    let new_in = r_in + after;
                    let new_out = r_out - out_bin;
                    if new_in > u64::MAX {
                        Err(ErrorCode::Overflow)
                    } else if st.amount_out + out_bin > u64::MAX || st.fees + fee > u64::MAX {
                        Err(ErrorCode::Overflow)
                    } else {
                        let stepped = if new_out == 0 {
                            if swap_for_y {
                                st.current - 1
                            } else {
                                st.current + 1
                            }
                        } else {
                            st.current
                        };
                        if stepped < 0 || stepped > u16::MAX {
                            Err(ErrorCode::Overflow)
                        } else {
                            let st2 = SwapState {
                                bins: st.bins.update(
                                    slot,
                                    bin_with_reserves(b, swap_for_y, new_in, new_out),
                                ),
                                current: stepped,
                                amount_out: st.amount_out + out_bin,
                                fees: st.fees + fee,
                            };
                            spec_swap_loop(index, rate, swap_for_y, st2, (left - in_bin) as u64)
                        }
                    }
                }
            }
        }
    }
}

/// The whole swap call: the walk's result, the slippage floor, then
/// the checked update of the market's aggregate reserves and the
/// persisted active bin.
pub open spec fn spec_swap_call(
    pair: LbPair,
    array: BinArray,
    amount_in: u64,
    min_amount_out: u64,
    swap_for_y: bool,
) -> Result<(LbPair, SwapState), ErrorCode> {
    match spec_swap_loop(
        array.index,
        pair.base_free_rate,
        swap_for_y,
        initial_swap_state(pair, array),
        amount_in,
    ) {
        Err(e) => Err(e),
        Ok(st) => if st.amount_out < min_amount_out {
            Err(ErrorCode::SlippageExceeded)
        } else {
            let new_rx = if swap_for_y {
                pair.reserve_x + amount_in
            } else {
                pair.reserve_x - st.amount_out
            };
            let new_ry = if swap_for_y {
                pair.reserve_y - st.amount_out
            } else {
                pair.reserve_y + amount_in
            };
            if new_rx > u64::MAX || new_rx < 0 || new_ry > u64::MAX || new_ry < 0 {
                Err(ErrorCode::Overflow)
            } else {
                Ok(
                    (
                        LbPair {
                            reserve_x: new_rx as u64,
                            reserve_y: new_ry as u64,
                            active_bin_id: st.current as u16,
                            ..pair
                        },
                        st,
                    ),
                )
            }
        },
    }
}

/// Converts `amount_in` of the input asset into the output asset by
/// walking bins from the active bin, enforcing the caller's minimum
/// output, and reports what the custody layer must transfer.
///
/// The call follows `spec_swap_call` exactly: on success the page and
/// the market record hold the walk's state; on failure the error is
/// the model's and nothing is changed.
#[verifier::loop_isolation(false)]
pub fn swap(
    pair: &mut LbPair,
    bin_array: &mut BinArray,
    amount_in: u64,
    min_amount_out: u64,
    swap_for_y: bool,
) -> (r: Result<SwapOutcome, ErrorCode>)
    requires
        old(bin_array).wf(),
    ensures
        final(bin_array).index == old(bin_array).index,
        final(bin_array).wf(),
        ({
            let res = spec_swap_call(
                *old(pair),
                *old(bin_array),
                amount_in,
                min_amount_out,
                swap_for_y,
            );
            match r {
                Ok(t) => {
                    &&& res is Ok
                    &&& *final(pair) == res->Ok_0.0
                    &&& final(bin_array).bins@ == res->Ok_0.1.bins
                    &&& t.amount_out == res->Ok_0.1.amount_out
                    &&& t.fees_collected == res->Ok_0.1.fees
                },
                Err(e) => {
                    &&& res == Err::<(LbPair, SwapState), ErrorCode>(e)
                    &&& *final(pair) == *old(pair)
                    &&& final(bin_array).bins@ == old(bin_array).bins@
                },
            }
        }),
{
    let index: u16 = bin_array.index;
    let rate: u64 = pair.base_free_rate;
    let mut bins = copy_bins(&bin_array.bins);
    let mut current: u16 = pair.active_bin_id;
    let mut left: u64 = amount_in;
    let mut amount_out: u64 = 0;
    let mut fees: u64 = 0;
    let ghost init = initial_swap_state(*pair, *bin_array);
    proof {
        assert(running_swap_state(bins@, current as int, amount_out as int, fees as int)
            =~= init);
    }
    while left > 0
        invariant
            bins@.len() == BINS_PER_ARRAY,
            spec_swap_loop(
                index,
                rate,
                swap_for_y,
                running_swap_state(bins@, current as int, amount_out as int, fees as int),
                left,
            ) == spec_swap_loop(index, rate, swap_for_y, init, amount_in),
        decreases left,
    {
        let ghost pre = running_swap_state(bins@, current as int, amount_out as int, fees as int);
        let slot: usize;
        match resolve_bin_slot(index, current as i64) {
            Ok(s) => {
                slot = s;
            },
            Err(e) => {
                return Err(e);
            },
        }
        let b = bins[slot];
        let r_in: u64 = if swap_for_y {
            b.reserve_x
        } else {
            b.reserve_y
        };
        let r_out: u64 = if swap_for_y {
            b.reserve_y
        } else {
            b.reserve_x
        };
        if r_out == 0 {
            return Err(ErrorCode::InsufficientLiquidity);
        }
        let in_bin: u64 = if left <= r_in {
            left
        } else {
            r_in
        };
        if in_bin == 0 {
            return Err(ErrorCode::InsufficientLiquidity);
        }
        proof {
            lemma_mul_upper_bound(in_bin as int, u64::MAX as int, rate as int, u64::MAX as int);
        }
        let fee128: u128 = (in_bin as u128) * (rate as u128) / (BASIS_POINT_MAX as u128);
        if fee128 > in_bin as u128 {
            return Err(ErrorCode::Overflow);
        }
        let fee: u64 = fee128 as u64;
        let after: u64 = in_bin - fee;
        proof {
            lemma_mul_upper_bound(after as int, u64::MAX as int, r_out as int, u64::MAX as int);
            lemma_cp_output_lt_reserve(after as int, r_in as int, r_out as int);
        }
        let out128: u128 = (after as u128) * (r_out as u128) / ((r_in as u128) + (after as u128));
        let out_bin: u64 = out128 as u64;
        let new_out: u64 = r_out - out_bin;
        let new_in = match r_in.checked_add(after) {
            Some(v) => v,
            None => {
                return Err(ErrorCode::Overflow);
            },
        };
        let nout = amount_out.checked_add(out_bin);
        let nfees = fees.checked_add(fee);
        if nout.is_none() || nfees.is_none() {
            return Err(ErrorCode::Overflow);
        }
        if new_out == 0 {
            if swap_for_y {
                if current == 0 {
                    return Err(ErrorCode::Overflow);
                }
                current = current - 1;
            } else {
                if current == u16::MAX {
                    return Err(ErrorCode::Overflow);
                }
                current = current + 1;
            }
        }
        let new_bin = if swap_for_y {
            Bin { reserve_x: new_in, reserve_y: new_out, ..b }
        } else {
            Bin { reserve_x: new_out, reserve_y: new_in, ..b }
        };
        bins[slot] = new_bin;
        amount_out = nout.unwrap();
        fees = nfees.unwrap();
        left = left - in_bin;
        proof {
            let post = running_swap_state(bins@, current as int, amount_out as int, fees as int);
            assert(spec_swap_loop(index, rate, swap_for_y, pre, (left + in_bin) as u64)
                == spec_swap_loop(index, rate, swap_for_y, post, left));
        }
    }
    if amount_out < min_amount_out {
        return Err(ErrorCode::SlippageExceeded);
    }
    let new_rx: Option<u64>;
    let new_ry: Option<u64>;
    if swap_for_y {
        new_rx = pair.reserve_x.checked_add(amount_in);
        new_ry = pair.reserve_y.checked_sub(amount_out);
    } else {
        new_rx = pair.reserve_x.checked_sub(amount_out);
        new_ry = pair.reserve_y.checked_add(amount_in);
    }
    if new_rx.is_none() || new_ry.is_none() {
        return Err(ErrorCode::Overflow);
    }
    pair.reserve_x = new_rx.unwrap();
    pair.reserve_y = new_ry.unwrap();
    pair.active_bin_id = current;
    bin_array.bins = bins;
    Ok(SwapOutcome { amount_out, fees_collected: fees })
}

} // verus!
