use constant_product_amm::error::AmmError;
use constant_product_amm::instructions::add_liquidity::{add_liquidity_handler, DepositPlan};

/// Vault balances and LP accounting of one pool, moved as the instruction's transfers would.
struct Ledger {
    vault_a: u64,
    vault_b: u64,
    lp_supply: u64,
    user_lp: u64,
}

impl Ledger {
    fn new() -> Self {
        Ledger { vault_a: 0, vault_b: 0, lp_supply: 0, user_lp: 0 }
    }

    fn add_liquidity(&mut self, amount_a: u64, amount_b: u64, min_lp_out: u64) -> Result<DepositPlan, AmmError> {
        let plan = add_liquidity_handler(amount_a, amount_b, min_lp_out, self.vault_a, self.vault_b, self.lp_supply)?;
        self.vault_a += plan.used_a;
        self.vault_b += plan.used_b;
        self.lp_supply += plan.lp_to_mint;
        self.user_lp += plan.lp_to_mint;
        Ok(plan)
    }
}

#[test]
fn test_first_deposit_mints_sqrt_lp_amount() {
    let mut s = Ledger::new();
    let res = s.add_liquidity(100_000, 400_000, 1);
    assert!(res.is_ok(), "add_liquidity failed: {:?}", res);

    // sqrt(100_000 * 400_000) = 200_000
    assert_eq!(s.user_lp, 200_000);

    assert_eq!(s.vault_a, 100_000);
    assert_eq!(s.vault_b, 400_000);
}

#[test]
fn test_second_deposit_is_proportional() {
    let mut s = Ledger::new();
    s.add_liquidity(100_000, 400_000, 1).unwrap();

    let res = s.add_liquidity(10_000, 40_000, 1);
    assert!(res.is_ok(), "second add_liquidity failed: {:?}", res);

    assert_eq!(s.user_lp, 220_000); // 200_000 + 20_000

    assert_eq!(s.vault_a, 110_000);
    assert_eq!(s.vault_b, 440_000);
}

#[test]
fn test_deposit_zero_amount() {
    assert_eq!(add_liquidity_handler(0, 10, 0, 0, 0, 0), Err(AmmError::ZeroAmount));
    assert_eq!(add_liquidity_handler(10, 0, 0, 100, 100, 100), Err(AmmError::ZeroAmount));
}

#[test]
fn test_deposit_slippage() {
    // sqrt(100 * 400) = 200 < 201
    assert_eq!(add_liquidity_handler(100, 400, 201, 0, 0, 0), Err(AmmError::SlippageExceeded));
    assert!(add_liquidity_handler(100, 400, 200, 0, 0, 0).is_ok());
}

#[test]
fn test_deposit_minting_nothing_is_refused() {
    // 1 * 10 / 1000 == 0 LP tokens, with no minimum asked for
    assert_eq!(add_liquidity_handler(1, 1, 0, 1000, 1000, 10), Err(AmmError::ZeroAmount));
}

#[test]
fn test_deposit_into_empty_vault_with_supply() {
    assert_eq!(add_liquidity_handler(10, 10, 0, 0, 100, 100), Err(AmmError::InsufficientLiquidity));
    assert_eq!(add_liquidity_handler(10, 10, 0, 100, 0, 100), Err(AmmError::InsufficientLiquidity));
}

#[test]
fn test_deposit_limited_by_b() {
    // lp_from_a = 50 * 100 / 100 = 50, lp_from_b = 10 * 100 / 100 = 10: side b limits,
    // and a is matched at the reserve ratio.
    let plan = add_liquidity_handler(50, 10, 0, 100, 100, 100).unwrap();
    assert_eq!(plan, DepositPlan { used_a: 10, used_b: 10, lp_to_mint: 10 });
}

#[test]
fn test_deposit_limited_by_a_matches_b_rounding_down() {
    // lp_from_a = 10 * 300 / 300 = 10, lp_from_b = 100 * 300 / 700 = 42: side a limits,
    // and b is matched at 10 * 700 / 300 = 23.
    let plan = add_liquidity_handler(10, 100, 0, 300, 700, 300).unwrap();
    assert_eq!(plan, DepositPlan { used_a: 10, used_b: 23, lp_to_mint: 10 });
}

#[test]
fn test_deposit_lp_overflowing_u64() {
    // lp_from_a = 6148914691236517207 * 3 / 1 does not fit in a u64.
    assert_eq!(add_liquidity_handler(6_148_914_691_236_517_207, 10, 0, 1, 1, 3), Err(AmmError::MathOverflow));
    // lp_from_b = 2^32 * (2^32 + 1) / 1 does not fit in a u64.
    assert_eq!(
        add_liquidity_handler(1 << 40, 1 << 32, 0, 1 << 32, 1, (1 << 32) + 1),
        Err(AmmError::MathOverflow)
    );
}

#[test]
fn test_deposit_matched_amount_overflowing_u64() {
    // lp_from_a = u64::MAX / (2^63 + 1) = 1 and lp_from_b = u64::MAX / u64::MAX = 1: side a
    // limits, and the matched amount u64::MAX * u64::MAX / (2^63 + 1) does not fit in a u64.
    assert_eq!(
        add_liquidity_handler(u64::MAX, u64::MAX, 0, (1 << 63) + 1, u64::MAX, 1),
        Err(AmmError::MathOverflow)
    );
}
