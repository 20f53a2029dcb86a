//! A discretized liquidity-bin automated market maker (AMM) core.
//!
//! Liquidity is partitioned into fixed-width price bins, each holding
//! independent reserves of two assets and tracking proportional ownership
//! via shares. Providers deposit into a weighted distribution of bins
//! around the active bin; traders swap across consecutive bins.
//!
//! This crate holds the verified accounting engine: share minting and
//! burning for add/remove liquidity, and the sequential multi-bin swap
//! with per-bin constant-product pricing and fee extraction. Asset
//! custody, account storage and ownership checks are collaborator
//! concerns outside this crate; the engine consumes and returns plain
//! values and reports the totals that a custody layer must transfer.

pub mod errors;
pub mod math;
pub mod state;
pub mod liquidity;
pub mod swap;
pub mod laws;

pub use errors::ErrorCode;
pub use state::{Bin, BinArray, LbPair, Position};
pub use liquidity::{BinLiquidityDistribution, BinLiquidityReduction};
