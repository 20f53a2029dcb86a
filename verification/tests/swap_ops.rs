// Swap routing, pricing and slippage behavior.

use dlmm::errors::ErrorCode;
use dlmm::liquidity::{add_liquidity, BinLiquidityDistribution};
use dlmm::state::{initialize_bin_array, initialize_lb_pair, new_position};
use dlmm::swap::swap;

fn seeded_market(amount_x: u64, amount_y: u64, fee_bps: u64)
    -> (dlmm::LbPair, dlmm::BinArray, dlmm::Position) {
    let mut pair = initialize_lb_pair(25);
    pair.base_free_rate = fee_bps;
    let mut array = initialize_bin_array(0);
    let mut position = new_position();
    let dist = vec![BinLiquidityDistribution { delta_id: 0, dist_x: 10000, dist_y: 10000 }];
    add_liquidity(&mut pair, &mut array, &mut position, amount_x, amount_y, &dist).unwrap();
    (pair, array, position)
}

#[test]
fn single_bin_swap_prices_by_constant_product() {
    let (mut pair, mut array, _position) = seeded_market(10000, 10000, 30);
    let outcome = swap(&mut pair, &mut array, 1000, 906, true).unwrap();
    // fee = 1000 * 30 / 10000 = 3; after fee 997;
    // out = 997 * 10000 / (10000 + 997) = 906
    assert_eq!(outcome.fees_collected, 3);
    assert_eq!(outcome.amount_out, 906);
    assert_eq!(array.bins[0].reserve_x, 10997);
    assert_eq!(array.bins[0].reserve_y, 9094);
    assert_eq!(pair.reserve_x, 11000);
    assert_eq!(pair.reserve_y, 9094);
    assert_eq!(pair.active_bin_id, 0);
}

#[test]
fn swap_below_floor_fails_and_mutates_nothing() {
    let (mut pair, mut array, _position) = seeded_market(10000, 10000, 30);
    let r = swap(&mut pair, &mut array, 1000, 907, true);
    assert!(matches!(r, Err(ErrorCode::SlippageExceeded)));
    assert_eq!(array.bins[0].reserve_x, 10000);
    assert_eq!(array.bins[0].reserve_y, 10000);
    assert_eq!(pair.reserve_x, 10000);
    assert_eq!(pair.reserve_y, 10000);
    assert_eq!(pair.active_bin_id, 0);
}

#[test]
fn swap_for_x_mirrors_the_direction() {
    let (mut pair, mut array, _position) = seeded_market(10000, 10000, 30);
    let outcome = swap(&mut pair, &mut array, 1000, 0, false).unwrap();
    assert_eq!(outcome.amount_out, 906);
    assert_eq!(array.bins[0].reserve_x, 9094);
    assert_eq!(array.bins[0].reserve_y, 10997);
    assert_eq!(pair.reserve_x, 9094);
    assert_eq!(pair.reserve_y, 11000);
}

#[test]
fn swap_output_stays_below_drained_reserve() {
    // even a huge input cannot take the whole opposite reserve
    let (mut pair, mut array, _position) = seeded_market(1000, 1000, 0);
    let outcome = swap(&mut pair, &mut array, 1000, 0, true).unwrap();
    assert!(outcome.amount_out < 1000);
    assert!(array.bins[0].reserve_y > 0);
}

#[test]
fn swap_walks_the_same_bin_until_input_is_spent() {
    let (mut pair, mut array, _position) = seeded_market(100, 1000000, 0);
    let outcome = swap(&mut pair, &mut array, 250, 0, true).unwrap();
    // first pass consumes 100: out = 100 * 1000000 / 200 = 500000
    // second pass consumes 150: out = 150 * 500000 / 350 = 214285
    assert_eq!(outcome.amount_out, 714285);
    assert_eq!(outcome.fees_collected, 0);
    assert_eq!(array.bins[0].reserve_x, 350);
    assert_eq!(array.bins[0].reserve_y, 285715);
}

#[test]
fn zero_input_swap_is_empty_success() {
    let (mut pair, mut array, _position) = seeded_market(10000, 10000, 30);
    let outcome = swap(&mut pair, &mut array, 0, 0, true).unwrap();
    assert_eq!(outcome.amount_out, 0);
    assert_eq!(outcome.fees_collected, 0);
    assert_eq!(array.bins[0].reserve_x, 10000);
    assert_eq!(pair.reserve_x, 10000);
}

#[test]
fn swap_against_empty_bin_fails() {
    let mut pair = initialize_lb_pair(25);
    let mut array = initialize_bin_array(0);
    let r = swap(&mut pair, &mut array, 100, 0, true);
    assert!(matches!(r, Err(ErrorCode::InsufficientLiquidity)));
}

#[test]
fn swap_with_empty_input_side_fails() {
    let mut pair = initialize_lb_pair(25);
    let mut array = initialize_bin_array(0);
    // the drained side has inventory but the paid-in side cannot
    // consume anything, so the walk cannot make progress
    array.bins[0].reserve_y = 100;
    array.bins[0].total_shares = 10;
    let r = swap(&mut pair, &mut array, 100, 0, true);
    assert!(matches!(r, Err(ErrorCode::InsufficientLiquidity)));
    assert_eq!(array.bins[0].reserve_y, 100);
}

#[test]
fn swap_off_the_loaded_page_fails() {
    let mut pair = initialize_lb_pair(25);
    let mut array = initialize_bin_array(1);
    array.bins[0].reserve_x = 100;
    array.bins[0].reserve_y = 100;
    // the active bin id 0 lives on page 0, not on the loaded page 1
    let r = swap(&mut pair, &mut array, 10, 0, true);
    assert!(matches!(r, Err(ErrorCode::BinOutOfRange)));
}

#[test]
fn fee_rate_above_hundred_percent_overflows() {
    let (mut pair, mut array, _position) = seeded_market(10000, 10000, 20000);
    let r = swap(&mut pair, &mut array, 1000, 0, true);
    assert!(matches!(r, Err(ErrorCode::Overflow)));
    assert_eq!(array.bins[0].reserve_x, 10000);
    assert_eq!(pair.reserve_x, 10000);
}

#[test]
fn full_fee_rate_consumes_input_without_output() {
    // at exactly 100% the fee eats the whole input: no output, no
    // reserve movement, the input is still consumed
    let (mut pair, mut array, _position) = seeded_market(10000, 10000, 10000);
    let outcome = swap(&mut pair, &mut array, 500, 0, true).unwrap();
    assert_eq!(outcome.amount_out, 0);
    assert_eq!(outcome.fees_collected, 500);
    assert_eq!(array.bins[0].reserve_x, 10000);
    assert_eq!(array.bins[0].reserve_y, 10000);
    assert_eq!(pair.reserve_x, 10500);
    assert_eq!(pair.reserve_y, 10000);
}
