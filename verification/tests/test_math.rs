use constant_product_amm::math::{initial_lp_amount, proportional_lp_amount, swap_output_amount, withdraw_amount};
use constant_product_amm::error::AmmError;

#[test]
fn test_initial_lp_sqrt_basic() {
    let lp = initial_lp_amount(100, 400).unwrap();
    assert_eq!(lp, 200);
}

#[test]
fn test_initial_lp_equal_amounts() {
    let lp = initial_lp_amount(1_000_000, 1_000_000).unwrap();
    assert_eq!(lp, 1_000_000);
}

#[test]
fn test_initial_lp_smallest() {
    let lp = initial_lp_amount(1, 1).unwrap();
    assert_eq!(lp, 1);
}

#[test]
fn test_initial_lp_zero() {
    let lp = initial_lp_amount(0, 100).unwrap();
    assert_eq!(lp, 0);
}

#[test]
fn test_proportional_lp_basic() {
    let lp = proportional_lp_amount(100, 1000, 5000).unwrap();
    assert_eq!(lp, 500);
}

#[test]
fn test_proportional_lp_no_liquidity() {
    let err = proportional_lp_amount(100, 0, 5000).unwrap_err();
    assert_eq!(err, AmmError::InsufficientLiquidity.into());
}

#[test]
fn test_proportional_lp_exact() {
    let lp = proportional_lp_amount(50, 100, 200).unwrap();
    assert_eq!(lp, 100);
}

#[test]
fn test_swap_pool_favored_rounding() {
    let out = swap_output_amount(100, 1000, 2000, 0).unwrap();
    assert_eq!(out, 181);
}

#[test]
fn test_swap_with_fee() {
    let out = swap_output_amount(100, 1000, 2000, 100).unwrap();
    assert_eq!(out, 180);
}

#[test]
fn test_swap_zero_input() {
    let err = swap_output_amount(0, 1000, 2000, 30).unwrap_err();
    assert_eq!(err, AmmError::ZeroAmount.into());
}

#[test]
fn test_swap_no_liquidity_in() {
    let err = swap_output_amount(100, 0, 2000, 30).unwrap_err();
    assert_eq!(err, AmmError::InsufficientLiquidity.into());
}

#[test]
fn test_swap_no_liquidity_out() {
    let err = swap_output_amount(100, 1000, 0, 30).unwrap_err();
    assert_eq!(err, AmmError::InsufficientLiquidity.into());
}

#[test]
fn test_withdraw_basic() {
    let out = withdraw_amount(100, 1000, 500).unwrap();
    assert_eq!(out, 200);
}

#[test]
fn test_withdraw_zero_lp() {
    let err = withdraw_amount(0, 1000, 500).unwrap_err();
    assert_eq!(err, AmmError::ZeroAmount.into());
}

#[test]
fn test_withdraw_no_supply() {
    let err = withdraw_amount(100, 1000, 0).unwrap_err();
    assert_eq!(err, AmmError::InsufficientLiquidity.into());
}

#[test]
fn test_initial_lp_rounds_down() {
    // 10 * 10 + 1 is not a square; its integer square root is 10.
    assert_eq!(initial_lp_amount(101, 1).unwrap(), 10);
    assert_eq!(initial_lp_amount(2, 1).unwrap(), 1);
    assert_eq!(initial_lp_amount(3, 1).unwrap(), 1);
    assert_eq!(initial_lp_amount(8, 1).unwrap(), 2);
}

#[test]
fn test_initial_lp_largest_amounts() {
    assert_eq!(initial_lp_amount(u64::MAX, u64::MAX).unwrap(), u64::MAX);
    // floor(sqrt(u64::MAX)) == 2^32 - 1
    assert_eq!(initial_lp_amount(u64::MAX, 1).unwrap(), 4_294_967_295);
}

#[test]
fn test_proportional_lp_rounds_down() {
    assert_eq!(proportional_lp_amount(1, 3, 2).unwrap(), 0);
    assert_eq!(proportional_lp_amount(2, 3, 2).unwrap(), 1);
}

#[test]
fn test_proportional_lp_overflowing_u64() {
    // 2^63 * 4 / 1 == 2^65 does not fit in a u64.
    assert_eq!(proportional_lp_amount(1u64 << 63, 1, 4).unwrap_err(), AmmError::MathOverflow);
    // u64::MAX * 2 / 2 fits exactly.
    assert_eq!(proportional_lp_amount(u64::MAX, 2, 2).unwrap(), u64::MAX);
}

#[test]
fn test_withdraw_overflowing_u64() {
    assert_eq!(withdraw_amount(u64::MAX, u64::MAX, 1).unwrap_err(), AmmError::MathOverflow);
    assert_eq!(withdraw_amount(u64::MAX, u64::MAX, u64::MAX).unwrap(), u64::MAX);
}

#[test]
fn test_swap_fee_above_whole_input() {
    // A fee of 20_000 bps keeps back twice the input: the subtraction fails.
    let err = swap_output_amount(100, 1000, 2000, 20_000).unwrap_err();
    assert_eq!(err, AmmError::MathOverflow);
}

#[test]
fn test_swap_fee_of_whole_input_pays_nothing() {
    assert_eq!(swap_output_amount(100, 1000, 2000, 10_000).unwrap(), 0);
}

#[test]
fn test_swap_large_reserves() {
    let out = swap_output_amount(u64::MAX, u64::MAX, u64::MAX, 0).unwrap();
    // u64::MAX * u64::MAX / (2 * u64::MAX) == u64::MAX / 2, rounded down
    assert_eq!(out, u64::MAX / 2);
}

#[test]
fn test_withdraw_whole_supply() {
    assert_eq!(withdraw_amount(500, 1000, 500).unwrap(), 1000);
}

#[test]
fn test_withdraw_no_supply_checked_before_zero_lp() {
    let err = withdraw_amount(0, 1000, 0).unwrap_err();
    assert_eq!(err, AmmError::InsufficientLiquidity);
}
