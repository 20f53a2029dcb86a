//! The records the engine mutates: a price bin, a 70-bin page, the
//! market singleton, and a provider's position.
//!
//! Asset identities, derivation nonces and account addresses are the
//! custody collaborator's concern and do not appear here: the engine
//! works on the numeric content of each record alone.

use vstd::prelude::*;
use crate::errors::ErrorCode;

verus! {

/// Number of contiguous bins held by one page.
pub const BINS_PER_ARRAY: usize = 70;

/// Basis-point denominator: 10000 means 100%.
pub const BASIS_POINT_MAX: u64 = 10000;

/// One discretized price cell: independent reserves of the two assets
/// and the outstanding ownership shares over them.
#[derive(Clone, Copy)]
pub struct Bin {
    /// Reserve of asset X held by this bin.
    pub reserve_x: u64,
    /// Reserve of asset Y held by this bin.
    pub reserve_y: u64,
    /// Global identifier of this bin, truncated to the stored width.
    pub bin_id: u16,
    /// Outstanding ownership units; a share is a proportional claim on
    /// both reserves jointly.
    pub total_shares: u128,
    /// Fee accumulator for asset X, reserved for fee distribution.
    pub fee_x_per_share: u128,
    /// Fee accumulator for asset Y, reserved for fee distribution.
    pub fee_y_per_share: u128,
}

impl Bin {
    /// A bin holding nothing and owing nothing.
    pub open spec fn is_empty_cell(self) -> bool {
        self.reserve_x == 0 && self.reserve_y == 0 && self.total_shares == 0
            && self.fee_x_per_share == 0 && self.fee_y_per_share == 0
    }
}

/// A page of 70 contiguous bins, addressed by a page index. A global
/// bin identifier maps to the local slot `global - index * 70`, valid
/// only inside `[0, 70)`.
pub struct BinArray {
    /// Page number: the page covers bin ids `index * 70 .. index * 70 + 69`.
    pub index: u16,
    /// The page's bins, one per local slot; always exactly 70 of them.
    pub bins: Vec<Bin>,
}

impl BinArray {
    /// The page shape every operation relies on: exactly 70 slots.
    pub open spec fn wf(self) -> bool {
        self.bins@.len() == BINS_PER_ARRAY
    }
}

/// The market-wide record: aggregate reserves mirroring the sum over
/// all bins, the active bin, and the fee parameters.
pub struct LbPair {
    /// Aggregate reserve of asset X across every bin of the market.
    pub reserve_x: u64,
    /// Aggregate reserve of asset Y across every bin of the market.
    pub reserve_y: u64,
    /// Price granularity; informational to the engine.
    pub bin_step: u16,
    /// The bin at which the next unit of swap volume is priced.
    pub active_bin_id: u16,
    /// Swap fee in basis points.
    pub base_free_rate: u64,
    /// Protocol's cut of the fee, in basis points; informational here.
    pub protocol_fee_rate: u64,
    /// Volatility tracking accumulator; informational here.
    pub volatility_accumulator: u64,
    /// Timestamp of the last update; maintained by collaborators.
    pub last_update_timestamp: u64,
}

/// One provider's claim on a market: per-slot share balances for one
/// page, and the observed range of bins the position has touched. The
/// range only ever widens; withdrawal does not narrow it.
pub struct Position {
    /// Share balance per local slot of the page the position covers.
    pub liquidity_shares: Vec<u128>,
    /// Smallest global bin id ever deposited into.
    pub lower_bin_id: i32,
    /// Largest global bin id ever deposited into.
    pub upper_bin_id: i32,
}

impl Position {
    /// The position shape every operation relies on: one balance per
    /// page slot.
    pub open spec fn wf(self) -> bool {
        self.liquidity_shares@.len() == BINS_PER_ARRAY
    }
}

/// The local slot a global bin identifier occupies on page `index`,
/// as an unbounded integer: negative or 70-and-over means "not on
/// this page".
pub open spec fn spec_local_slot(index: u16, bin_id: int) -> int {
    bin_id - index * 70
}

/// Whether a global bin identifier falls on page `index`.
pub open spec fn slot_in_range(index: u16, bin_id: int) -> bool {
    0 <= spec_local_slot(index, bin_id) < BINS_PER_ARRAY
}

/// Resolves a global bin identifier to a local slot of page `index`,
/// refusing identifiers outside the page.
pub fn resolve_bin_slot(index: u16, bin_id: i64) -> (r: Result<usize, ErrorCode>)
    ensures
        match r {
            Ok(slot) => slot_in_range(index, bin_id as int)
                && slot == spec_local_slot(index, bin_id as int),
            Err(e) => e == ErrorCode::BinOutOfRange && !slot_in_range(index, bin_id as int),
        },
{
    let base: i128 = (index as i128) * 70;
    let local: i128 = (bin_id as i128) - base;
    if 0 <= local && local < BINS_PER_ARRAY as i128 {
        Ok(local as usize)
    } else {
        Err(ErrorCode::BinOutOfRange)
    }
}

/// Creates the market record for one asset pair: empty reserves and
/// the active bin at zero, as on first initialization.
pub fn initialize_lb_pair(bin_step: u16) -> (r: LbPair)
    ensures
        r.reserve_x == 0,
        r.reserve_y == 0,
        r.bin_step == bin_step,
        r.active_bin_id == 0,
        r.base_free_rate == 0,
        r.protocol_fee_rate == 0,
        r.volatility_accumulator == 0,
        r.last_update_timestamp == 0,
{
    LbPair {
        reserve_x: 0,
        reserve_y: 0,
        bin_step,
        active_bin_id: 0,
        base_free_rate: 0,
        protocol_fee_rate: 0,
        volatility_accumulator: 0,
        last_update_timestamp: 0,
    }
}

/// Creates a zeroed 70-bin page with global identifiers
/// `index * 70 .. index * 70 + 69` filled in, truncated to the stored
/// width as the record lays them out.
pub fn initialize_bin_array(index: u16) -> (r: BinArray)
    ensures
        r.wf(),
        r.index == index,
        forall|i: int| 0 <= i < BINS_PER_ARRAY ==> (#[trigger] r.bins@[i]).is_empty_cell(),
        forall|i: int| 0 <= i < BINS_PER_ARRAY
            ==> (#[trigger] r.bins@[i]).bin_id == (index * 70 + i) % 0x10000,
{
    let mut bins: Vec<Bin> = Vec::new();
    let base: u32 = (index as u32) * 70;
    let mut i: usize = 0;
    while i < BINS_PER_ARRAY
        invariant
            i <= BINS_PER_ARRAY,
            base == index * 70,
            bins@.len() == i,
            forall|j: int| 0 <= j < i ==> (#[trigger] bins@[j]).is_empty_cell(),
            forall|j: int| 0 <= j < i
                ==> (#[trigger] bins@[j]).bin_id == (index * 70 + j) % 0x10000,
        decreases BINS_PER_ARRAY - i,
    {
        let id: u16 = ((base + i as u32) % 0x10000) as u16;
        bins.push(Bin {
            reserve_x: 0,
            reserve_y: 0,
            bin_id: id,
            total_shares: 0,
            fee_x_per_share: 0,
            fee_y_per_share: 0,
        });
        i = i + 1;
    }
    BinArray { index, bins }
}

/// Creates an empty position for a provider's first touch of a market:
/// zero shares everywhere, with the observed bin range collapsed at
/// zero as a freshly zeroed record has it.
pub fn new_position() -> (r: Position)
    ensures
        r.wf(),
        forall|i: int| 0 <= i < BINS_PER_ARRAY ==> r.liquidity_shares@[i] == 0,
        r.lower_bin_id == 0,
        r.upper_bin_id == 0,
{
    let mut shares: Vec<u128> = Vec::new();
    let mut i: usize = 0;
    while i < BINS_PER_ARRAY
        invariant
            i <= BINS_PER_ARRAY,
            shares@.len() == i,
            forall|j: int| 0 <= j < i ==> shares@[j] == 0,
        decreases BINS_PER_ARRAY - i,
    {
        shares.push(0);
        i = i + 1;
    }
    Position { liquidity_shares: shares, lower_bin_id: 0, upper_bin_id: 0 }
}

/// Copies a page's bins element for element, so an operation can work
/// on a scratch page and commit only on success.
pub(crate) fn copy_bins(v: &Vec<Bin>) -> (r: Vec<Bin>)
    ensures
        r@ == v@,
{
    let mut r: Vec<Bin> = Vec::new();
    let mut i: usize = 0;
    while i < v.len()
        invariant
            i <= v@.len(),
            r@ == v@.take(i as int),
        decreases v@.len() - i,
    {
        r.push(v[i]);
        proof {
            assert(v@.take(i as int).push(v@[i as int]) =~= v@.take(i as int + 1));
        }
        i = i + 1;
    }
    proof {
        assert(v@.take(v@.len() as int) =~= v@);
    }
    r
}

/// Copies a position's share balances element for element.
pub(crate) fn copy_shares(v: &Vec<u128>) -> (r: Vec<u128>)
    ensures
        r@ == v@,
{
    let mut r: Vec<u128> = Vec::new();
    let mut i: usize = 0;
    while i < v.len()
        invariant
            i <= v@.len(),
            r@ == v@.take(i as int),
        decreases v@.len() - i,
    {
        r.push(v[i]);
        proof {
            assert(v@.take(i as int).push(v@[i as int]) =~= v@.take(i as int + 1));
        }
        i = i + 1;
    }
    proof {
        assert(v@.take(v@.len() as int) =~= v@);
    }
    r
}

} // verus!
