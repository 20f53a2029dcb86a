// Page addressing, record construction, and the integer square root.

use dlmm::errors::ErrorCode;
use dlmm::math::integer_sqrt;
use dlmm::state::{initialize_bin_array, initialize_lb_pair, new_position, resolve_bin_slot};

#[test]
fn integer_sqrt_exact_values() {
    assert_eq!(integer_sqrt(0), 0);
    assert_eq!(integer_sqrt(1), 1);
    assert_eq!(integer_sqrt(2), 1);
    assert_eq!(integer_sqrt(3), 1);
    assert_eq!(integer_sqrt(4), 2);
    assert_eq!(integer_sqrt(99), 9);
    assert_eq!(integer_sqrt(100), 10);
    assert_eq!(integer_sqrt(100000000), 10000);
    assert_eq!(integer_sqrt(u64::MAX as u128), 4294967295);
    assert_eq!(integer_sqrt(u128::MAX), u64::MAX as u128);
}

#[test]
fn slot_resolution_accepts_only_the_page() {
    assert_eq!(resolve_bin_slot(0, 0).unwrap(), 0);
    assert_eq!(resolve_bin_slot(0, 69).unwrap(), 69);
    assert!(matches!(resolve_bin_slot(0, 70), Err(ErrorCode::BinOutOfRange)));
    assert!(matches!(resolve_bin_slot(0, -1), Err(ErrorCode::BinOutOfRange)));
    assert_eq!(resolve_bin_slot(3, 210).unwrap(), 0);
    assert_eq!(resolve_bin_slot(3, 279).unwrap(), 69);
    assert!(matches!(resolve_bin_slot(3, 280), Err(ErrorCode::BinOutOfRange)));
    assert!(matches!(resolve_bin_slot(3, 209), Err(ErrorCode::BinOutOfRange)));
}

#[test]
fn new_page_is_zeroed_with_ids_filled_in() {
    let array = initialize_bin_array(3);
    assert_eq!(array.index, 3);
    assert_eq!(array.bins.len(), 70);
    for (i, bin) in array.bins.iter().enumerate() {
        assert_eq!(bin.bin_id as usize, 210 + i);
        assert_eq!(bin.reserve_x, 0);
        assert_eq!(bin.reserve_y, 0);
        assert_eq!(bin.total_shares, 0);
        assert_eq!(bin.fee_x_per_share, 0);
        assert_eq!(bin.fee_y_per_share, 0);
    }
}

#[test]
fn new_market_starts_at_bin_zero() {
    let pair = initialize_lb_pair(25);
    assert_eq!(pair.bin_step, 25);
    assert_eq!(pair.active_bin_id, 0);
    assert_eq!(pair.reserve_x, 0);
    assert_eq!(pair.reserve_y, 0);
    assert_eq!(pair.base_free_rate, 0);
}

#[test]
fn new_position_is_empty_everywhere() {
    let position = new_position();
    assert_eq!(position.liquidity_shares.len(), 70);
    assert!(position.liquidity_shares.iter().all(|s| *s == 0));
    assert_eq!(position.lower_bin_id, 0);
    assert_eq!(position.upper_bin_id, 0);
}
