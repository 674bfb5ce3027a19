use constant_product_amm::instructions::add_liquidity::add_liquidity_handler;
use constant_product_amm::instructions::remove_liquidity::remove_liquidity_handler;
use constant_product_amm::math::{initial_lp_amount, swap_output_amount, withdraw_amount};

#[test]
fn test_swap_keeps_product_on_example() {
    let (reserve_in, reserve_out) = (1000u64, 2000u64);
    for fee_bps in [0u16, 30, 100, 10_000] {
        for amount_in in [1u64, 7, 100, 999, 5000] {
            let out = swap_output_amount(amount_in, reserve_in, reserve_out, fee_bps).unwrap();
            let before = reserve_in as u128 * reserve_out as u128;
            let after = (reserve_in + amount_in) as u128 * (reserve_out - out) as u128;
            assert!(after >= before, "product fell for fee {} input {}", fee_bps, amount_in);
        }
    }
}

#[test]
fn test_swap_rounds_toward_pool_on_example() {
    // exact value 200000 / 1100 = 181.8..., the pool pays 181
    let out = swap_output_amount(100, 1000, 2000, 0).unwrap();
    assert!(out as u128 * 1100 <= 2000 * 100);
    assert_eq!(out, 181);
}

#[test]
fn test_higher_fee_pays_less_on_example() {
    let low = swap_output_amount(10_000, 50_000, 80_000, 30).unwrap();
    let high = swap_output_amount(10_000, 50_000, 80_000, 300).unwrap();
    assert!(high <= low);
    assert_eq!(low, 13_299);
    assert_eq!(high, 12_998);
}

#[test]
fn test_withdraw_within_share_on_example() {
    let out = withdraw_amount(3, 1000, 7).unwrap();
    // 3 * 1000 / 7 = 428.57...
    assert_eq!(out, 428);
    assert!(out as u128 * 7 <= 3 * 1000);
}

#[test]
fn test_first_deposit_is_floor_sqrt_on_example() {
    let lp = initial_lp_amount(1234, 5678).unwrap() as u128;
    let n = 1234u128 * 5678;
    assert!(lp * lp <= n && n < (lp + 1) * (lp + 1));
    assert_eq!(lp, 2647);
}

#[test]
fn test_withdraw_keeps_share_value_on_example() {
    let (reserve_a, reserve_b, supply, lp) = (1001u128, 7u128, 100u128, 33u64);
    let plan = remove_liquidity_handler(lp, 0, 0, reserve_a as u64, reserve_b as u64, supply as u64).unwrap();
    assert_eq!((plan.amount_a_out, plan.amount_b_out), (330, 2));
    assert!((reserve_a - plan.amount_a_out as u128) * supply >= reserve_a * (supply - lp as u128));
    assert!((reserve_b - plan.amount_b_out as u128) * supply >= reserve_b * (supply - lp as u128));
}

#[test]
fn test_later_deposit_limiting_side_on_example() {
    let (reserve_a, reserve_b, supply) = (300u64, 700u64, 301u64);
    let plan = add_liquidity_handler(10, 100, 0, reserve_a, reserve_b, supply).unwrap();
    // lp_from_a = 10 * 301 / 300 = 10, lp_from_b = 100 * 301 / 700 = 43
    assert_eq!(plan.lp_to_mint, 10);
    assert_eq!(plan.used_a, 10);
    assert_eq!(plan.used_b, 23);
    assert!(plan.lp_to_mint as u128 * reserve_a as u128 <= plan.used_a as u128 * supply as u128);
    assert!(plan.used_b as u128 * reserve_a as u128 <= plan.used_a as u128 * reserve_b as u128);
}

#[test]
fn test_larger_input_pays_more_on_example() {
    let mut last = 0u64;
    for amount_in in 1u64..200 {
        let out = swap_output_amount(amount_in, 1000, 2000, 30).unwrap();
        assert!(out >= last);
        last = out;
    }
    assert_eq!(last, 331);
}

#[test]
fn test_split_withdrawal_pays_no_more_on_example() {
    let (reserve, supply) = (1000u64, 7u64);
    let first = withdraw_amount(2, reserve, supply).unwrap();
    let second = withdraw_amount(3, reserve - first, supply - 2).unwrap();
    let both = withdraw_amount(5, reserve, supply).unwrap();
    assert_eq!((first, second, both), (285, 429, 714));
    assert!(first + second <= both);
}

#[test]
fn test_deposit_then_withdraw_returns_no_more_on_example() {
    let (reserve_a, reserve_b, supply) = (300u64, 700u64, 301u64);
    let plan = add_liquidity_handler(10, 100, 0, reserve_a, reserve_b, supply).unwrap();
    let new_supply = supply + plan.lp_to_mint;
    let plan_out = remove_liquidity_handler(plan.lp_to_mint, 0, 0, reserve_a + plan.used_a, reserve_b + plan.used_b, new_supply).unwrap();
    assert_eq!((plan_out.amount_a_out, plan_out.amount_b_out), (9, 23));
    assert!(plan_out.amount_a_out <= plan.used_a);
    assert!(plan_out.amount_b_out <= plan.used_b);
}
