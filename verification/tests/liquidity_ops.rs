// Deposit and withdrawal behavior of the liquidity engine.

use dlmm::errors::ErrorCode;
use dlmm::liquidity::{
    add_liquidity, remove_liquidity, BinLiquidityDistribution, BinLiquidityReduction,
};
use dlmm::state::{initialize_bin_array, initialize_lb_pair, new_position};

#[test]
fn first_deposit_mints_geometric_mean() {
    let mut pair = initialize_lb_pair(25);
    let mut array = initialize_bin_array(0);
    let mut position = new_position();
    let dist = vec![BinLiquidityDistribution { delta_id: 0, dist_x: 10000, dist_y: 10000 }];
    let r = add_liquidity(&mut pair, &mut array, &mut position, 10000, 10000, &dist);
    let totals = r.unwrap();
    assert_eq!(totals.total_x, 10000);
    assert_eq!(totals.total_y, 10000);
    assert_eq!(array.bins[0].reserve_x, 10000);
    assert_eq!(array.bins[0].reserve_y, 10000);
    assert_eq!(array.bins[0].total_shares, 10000);
    assert_eq!(position.liquidity_shares[0], 10000);
    assert_eq!(pair.reserve_x, 10000);
    assert_eq!(pair.reserve_y, 10000);
}

#[test]
fn deposit_splits_across_distribution() {
    let mut pair = initialize_lb_pair(25);
    let mut array = initialize_bin_array(0);
    let mut position = new_position();
    let dist = vec![
        BinLiquidityDistribution { delta_id: 0, dist_x: 5000, dist_y: 2500 },
        BinLiquidityDistribution { delta_id: 1, dist_x: 5000, dist_y: 7500 },
    ];
    let r = add_liquidity(&mut pair, &mut array, &mut position, 10000, 20000, &dist);
    let totals = r.unwrap();
    // slot 0: 5000 X, 5000 Y -> floor(sqrt(25_000_000)) = 5000 shares
    assert_eq!(array.bins[0].reserve_x, 5000);
    assert_eq!(array.bins[0].reserve_y, 5000);
    assert_eq!(array.bins[0].total_shares, 5000);
    // slot 1: 5000 X, 15000 Y -> floor(sqrt(75_000_000)) = 8660 shares
    assert_eq!(array.bins[1].reserve_x, 5000);
    assert_eq!(array.bins[1].reserve_y, 15000);
    assert_eq!(array.bins[1].total_shares, 8660);
    assert_eq!(totals.total_x, 10000);
    assert_eq!(totals.total_y, 20000);
    assert_eq!(position.upper_bin_id, 1);
    assert_eq!(position.lower_bin_id, 0);
}

#[test]
fn second_deposit_takes_smaller_implied_share_count() {
    let mut pair = initialize_lb_pair(25);
    let mut array = initialize_bin_array(0);
    let mut position = new_position();
    let seed = vec![BinLiquidityDistribution { delta_id: 0, dist_x: 10000, dist_y: 10000 }];
    add_liquidity(&mut pair, &mut array, &mut position, 100, 400, &seed).unwrap();
    assert_eq!(array.bins[0].total_shares, 200);
    // dx = 50 implies 50 * 200 / 100 = 100 shares; dy = 100 implies
    // 100 * 200 / 400 = 50 shares; the smaller count is minted
    let top = vec![BinLiquidityDistribution { delta_id: 0, dist_x: 10000, dist_y: 10000 }];
    add_liquidity(&mut pair, &mut array, &mut position, 50, 100, &top).unwrap();
    assert_eq!(array.bins[0].total_shares, 250);
    assert_eq!(array.bins[0].reserve_x, 150);
    assert_eq!(array.bins[0].reserve_y, 500);
    assert_eq!(position.liquidity_shares[0], 250);
}

#[test]
fn zero_deposit_is_insufficient_liquidity() {
    let mut pair = initialize_lb_pair(25);
    let mut array = initialize_bin_array(0);
    let mut position = new_position();
    let dist = vec![BinLiquidityDistribution { delta_id: 0, dist_x: 10000, dist_y: 10000 }];
    let r = add_liquidity(&mut pair, &mut array, &mut position, 0, 0, &dist);
    assert!(matches!(r, Err(ErrorCode::InsufficientLiquidity)));
    assert_eq!(array.bins[0].reserve_x, 0);
    assert_eq!(pair.reserve_x, 0);
}

#[test]
fn deposit_outside_page_is_bin_out_of_range() {
    let mut pair = initialize_lb_pair(25);
    let mut array = initialize_bin_array(0);
    let mut position = new_position();
    let dist = vec![BinLiquidityDistribution { delta_id: 100, dist_x: 10000, dist_y: 10000 }];
    let r = add_liquidity(&mut pair, &mut array, &mut position, 10, 10, &dist);
    assert!(matches!(r, Err(ErrorCode::BinOutOfRange)));
}

#[test]
fn oversized_fraction_overflows() {
    let mut pair = initialize_lb_pair(25);
    let mut array = initialize_bin_array(0);
    let mut position = new_position();
    // 200% of u64::MAX does not fit the stored width
    let dist = vec![BinLiquidityDistribution { delta_id: 0, dist_x: 20000, dist_y: 10000 }];
    let r = add_liquidity(&mut pair, &mut array, &mut position, u64::MAX, 0, &dist);
    assert!(matches!(r, Err(ErrorCode::Overflow)));
    assert_eq!(array.bins[0].reserve_x, 0);
}

#[test]
fn pair_overflow_leaves_everything_unchanged() {
    let mut pair = initialize_lb_pair(25);
    pair.reserve_x = u64::MAX;
    let mut array = initialize_bin_array(0);
    let mut position = new_position();
    let dist = vec![BinLiquidityDistribution { delta_id: 0, dist_x: 10000, dist_y: 10000 }];
    let r = add_liquidity(&mut pair, &mut array, &mut position, 10, 10, &dist);
    assert!(matches!(r, Err(ErrorCode::Overflow)));
    // the bin passed every check, yet nothing of the call is visible
    assert_eq!(array.bins[0].reserve_x, 0);
    assert_eq!(array.bins[0].total_shares, 0);
    assert_eq!(position.liquidity_shares[0], 0);
    assert_eq!(pair.reserve_x, u64::MAX);
    assert_eq!(pair.reserve_y, 0);
}

#[test]
fn position_bounds_widen_and_never_narrow() {
    let mut pair = initialize_lb_pair(25);
    let mut array = initialize_bin_array(0);
    let mut position = new_position();
    let at5 = vec![BinLiquidityDistribution { delta_id: 5, dist_x: 10000, dist_y: 10000 }];
    add_liquidity(&mut pair, &mut array, &mut position, 100, 100, &at5).unwrap();
    assert_eq!(position.lower_bin_id, 0);
    assert_eq!(position.upper_bin_id, 5);
    let at2 = vec![BinLiquidityDistribution { delta_id: 2, dist_x: 10000, dist_y: 10000 }];
    add_liquidity(&mut pair, &mut array, &mut position, 100, 100, &at2).unwrap();
    assert_eq!(position.lower_bin_id, 0);
    assert_eq!(position.upper_bin_id, 5);
    // withdrawing everything from the outermost bin leaves the range stale
    let burn = vec![BinLiquidityReduction { bin_id: 5, shares_to_burn: 100 }];
    remove_liquidity(&mut pair, &mut array, &mut position, &burn).unwrap();
    assert_eq!(position.liquidity_shares[5], 0);
    assert_eq!(position.lower_bin_id, 0);
    assert_eq!(position.upper_bin_id, 5);
}

#[test]
fn withdrawal_is_proportional() {
    let mut pair = initialize_lb_pair(25);
    let mut array = initialize_bin_array(0);
    let mut position = new_position();
    let seed = vec![BinLiquidityDistribution { delta_id: 0, dist_x: 10000, dist_y: 10000 }];
    add_liquidity(&mut pair, &mut array, &mut position, 150, 500, &seed).unwrap();
    let t = array.bins[0].total_shares;
    assert_eq!(t, 273); // floor(sqrt(150 * 500)) = floor(273.86)
    let burn = vec![BinLiquidityReduction { bin_id: 0, shares_to_burn: 100 }];
    let totals = remove_liquidity(&mut pair, &mut array, &mut position, &burn).unwrap();
    assert_eq!(totals.total_x, 150 * 100 / 273);
    assert_eq!(totals.total_y, 500 * 100 / 273);
    assert_eq!(array.bins[0].total_shares, 173);
    assert_eq!(array.bins[0].reserve_x, 150 - 150 * 100 / 273);
    assert_eq!(array.bins[0].reserve_y, 500 - 500 * 100 / 273);
    assert_eq!(pair.reserve_x, array.bins[0].reserve_x);
    assert_eq!(pair.reserve_y, array.bins[0].reserve_y);
}

#[test]
fn burn_above_bin_total_is_insufficient_liquidity() {
    let mut pair = initialize_lb_pair(25);
    let mut array = initialize_bin_array(0);
    let mut position = new_position();
    let seed = vec![BinLiquidityDistribution { delta_id: 0, dist_x: 10000, dist_y: 10000 }];
    add_liquidity(&mut pair, &mut array, &mut position, 100, 100, &seed).unwrap();
    let burn = vec![BinLiquidityReduction { bin_id: 0, shares_to_burn: 101 }];
    let r = remove_liquidity(&mut pair, &mut array, &mut position, &burn);
    assert!(matches!(r, Err(ErrorCode::InsufficientLiquidity)));
    assert_eq!(array.bins[0].total_shares, 100);
}

#[test]
fn burn_above_own_balance_is_insufficient_shares() {
    let mut pair = initialize_lb_pair(25);
    let mut array = initialize_bin_array(0);
    let mut lp_a = new_position();
    let mut lp_b = new_position();
    let seed = vec![BinLiquidityDistribution { delta_id: 0, dist_x: 10000, dist_y: 10000 }];
    add_liquidity(&mut pair, &mut array, &mut lp_a, 400, 400, &seed).unwrap();
    add_liquidity(&mut pair, &mut array, &mut lp_b, 100, 100, &seed).unwrap();
    // the bin holds enough shares in total, but not under this owner
    let over = lp_b.liquidity_shares[0] + 1;
    let burn = vec![BinLiquidityReduction { bin_id: 0, shares_to_burn: over }];
    let r = remove_liquidity(&mut pair, &mut array, &mut lp_b, &burn);
    assert!(matches!(r, Err(ErrorCode::InsufficientShares)));
}

#[test]
fn zero_burn_is_a_noop() {
    let mut pair = initialize_lb_pair(25);
    let mut array = initialize_bin_array(0);
    let mut position = new_position();
    let seed = vec![BinLiquidityDistribution { delta_id: 0, dist_x: 10000, dist_y: 10000 }];
    add_liquidity(&mut pair, &mut array, &mut position, 100, 100, &seed).unwrap();
    let burn = vec![BinLiquidityReduction { bin_id: 0, shares_to_burn: 0 }];
    let totals = remove_liquidity(&mut pair, &mut array, &mut position, &burn).unwrap();
    assert_eq!(totals.total_x, 0);
    assert_eq!(totals.total_y, 0);
    assert_eq!(array.bins[0].total_shares, 100);
    assert_eq!(position.liquidity_shares[0], 100);
}

#[test]
fn round_trip_returns_deposit_exactly() {
    let mut pair = initialize_lb_pair(25);
    let mut array = initialize_bin_array(0);
    let mut position = new_position();
    let seed = vec![BinLiquidityDistribution { delta_id: 0, dist_x: 10000, dist_y: 10000 }];
    add_liquidity(&mut pair, &mut array, &mut position, 12345, 6789, &seed).unwrap();
    let minted = array.bins[0].total_shares;
    assert!(minted > 0);
    let burn = vec![BinLiquidityReduction { bin_id: 0, shares_to_burn: minted }];
    let totals = remove_liquidity(&mut pair, &mut array, &mut position, &burn).unwrap();
    assert_eq!(totals.total_x, 12345);
    assert_eq!(totals.total_y, 6789);
    assert_eq!(array.bins[0].reserve_x, 0);
    assert_eq!(array.bins[0].reserve_y, 0);
    assert_eq!(array.bins[0].total_shares, 0);
    assert_eq!(pair.reserve_x, 0);
    assert_eq!(pair.reserve_y, 0);
}

#[test]
fn withdrawal_past_aggregate_reserve_overflows_and_reverts() {
    let mut pair = initialize_lb_pair(25);
    let mut array = initialize_bin_array(0);
    let mut position = new_position();
    let seed = vec![BinLiquidityDistribution { delta_id: 0, dist_x: 10000, dist_y: 10000 }];
    add_liquidity(&mut pair, &mut array, &mut position, 100, 100, &seed).unwrap();
    // an aggregate mirror smaller than the bin's holdings cannot cover
    // the release: the checked subtraction fails the whole call
    pair.reserve_x = 10;
    let burn = vec![BinLiquidityReduction { bin_id: 0, shares_to_burn: 100 }];
    let r = remove_liquidity(&mut pair, &mut array, &mut position, &burn);
    assert!(matches!(r, Err(ErrorCode::Overflow)));
    assert_eq!(array.bins[0].reserve_x, 100);
    assert_eq!(array.bins[0].total_shares, 100);
    assert_eq!(position.liquidity_shares[0], 100);
    assert_eq!(pair.reserve_x, 10);
}

#[test]
fn anothers_deposit_does_not_dilute_a_holder() {
    let mut pair = initialize_lb_pair(25);
    let mut array = initialize_bin_array(0);
    let mut holder = new_position();
    let mut other = new_position();
    let seed = vec![BinLiquidityDistribution { delta_id: 0, dist_x: 10000, dist_y: 10000 }];
    add_liquidity(&mut pair, &mut array, &mut holder, 1000, 4000, &seed).unwrap();
    let h = holder.liquidity_shares[0];
    let rx0 = array.bins[0].reserve_x as u128;
    let ry0 = array.bins[0].reserve_y as u128;
    let t0 = array.bins[0].total_shares;
    // a deposit off the bin's reserve ratio mints the other party the
    // smaller implied count, so the backing of each share cannot drop
    add_liquidity(&mut pair, &mut array, &mut other, 900, 100, &seed).unwrap();
    let rx1 = array.bins[0].reserve_x as u128;
    let ry1 = array.bins[0].reserve_y as u128;
    let t1 = array.bins[0].total_shares;
    assert_eq!(holder.liquidity_shares[0], h);
    assert!(h > 0);
    assert!(rx0 * t1 <= rx1 * t0);
    assert!(ry0 * t1 <= ry1 * t0);
}

#[test]
fn reserves_conserved_over_mixed_operations() {
    let mut pair = initialize_lb_pair(25);
    let mut array = initialize_bin_array(0);
    let mut position = new_position();
    let seed = vec![BinLiquidityDistribution { delta_id: 0, dist_x: 10000, dist_y: 10000 }];
    let d1 = add_liquidity(&mut pair, &mut array, &mut position, 5000, 7000, &seed).unwrap();
    let d2 = add_liquidity(&mut pair, &mut array, &mut position, 1111, 2222, &seed).unwrap();
    let burn = vec![BinLiquidityReduction { bin_id: 0, shares_to_burn: 999 }];
    let w = remove_liquidity(&mut pair, &mut array, &mut position, &burn).unwrap();
    let expect_x = d1.total_x + d2.total_x - w.total_x;
    let expect_y = d1.total_y + d2.total_y - w.total_y;
    assert_eq!(array.bins[0].reserve_x, expect_x);
    assert_eq!(array.bins[0].reserve_y, expect_y);
    assert_eq!(pair.reserve_x, expect_x);
    assert_eq!(pair.reserve_y, expect_y);
}
