use constant_product_amm::error::AmmError;
use constant_product_amm::instructions::init_pool::init_pool_handler;
use constant_product_amm::state::{AccountKey, Pool};

fn key(tag: u8) -> AccountKey {
    let mut bytes = [0u8; 32];
    bytes[0] = tag;
    bytes[31] = tag.wrapping_mul(7);
    AccountKey { bytes }
}

#[test]
fn test_init_pool_fails_with_same_mint() {
    let mint = key(1);
    let res = init_pool_handler(30, mint, mint, key(3), key(4), key(5), 255, 254);
    assert!(res.is_err(), "init_pool should fail when both mints are the same");
    assert_eq!(res.unwrap_err(), AmmError::InvalidMint);
}

#[test]
fn test_init_pool_fails_with_invalid_fee() {
    let res = init_pool_handler(10_001, key(1), key(2), key(3), key(4), key(5), 255, 254);
    assert!(res.is_err(), "init_pool should fail when fee > 10000");
    assert_eq!(res.unwrap_err(), AmmError::InvalidFee);
}

#[test]
fn test_init_pool_creates_pool_correctly() {
    let (mint_a, mint_b) = (key(1), key(2));
    let (vault_a, vault_b, lp_mint) = (key(3), key(4), key(5));
    let fee_bps: u16 = 30;
    let res = init_pool_handler(fee_bps, mint_a, mint_b, vault_a, vault_b, lp_mint, 253, 252);
    assert!(res.is_ok(), "init_pool transaction failed: {:?}", res);
    let pool_data: Pool = res.unwrap();
    assert_eq!(pool_data.token_a_mint.bytes, mint_a.bytes);
    assert_eq!(pool_data.token_b_mint.bytes, mint_b.bytes);
    assert_eq!(pool_data.vault_a.bytes, vault_a.bytes);
    assert_eq!(pool_data.vault_b.bytes, vault_b.bytes);
    assert_eq!(pool_data.lp_mint.bytes, lp_mint.bytes);
    assert_eq!(pool_data.fee_bps, fee_bps);
    assert_eq!(pool_data.bump, 253);
    assert_eq!(pool_data.authority_bump, 252);
}

#[test]
fn test_init_pool_accepts_largest_fee() {
    let pool = init_pool_handler(10_000, key(1), key(2), key(3), key(4), key(5), 1, 2).unwrap();
    assert_eq!(pool.fee_bps, 10_000);
}

#[test]
fn test_init_pool_fee_checked_before_mints() {
    let mint = key(9);
    let err = init_pool_handler(10_001, mint, mint, key(3), key(4), key(5), 1, 2).unwrap_err();
    assert_eq!(err, AmmError::InvalidFee);
}

#[test]
fn test_pool_len() {
    assert_eq!(Pool::LEN, 172);
}

#[test]
fn test_same_as_compares_every_byte() {
    let a = key(1);
    let mut b = key(1);
    assert!(a.same_as(&b));
    b.bytes[17] = 99;
    assert!(!a.same_as(&b));
}
