use vstd::prelude::*;
use crate::error::AmmError;
use crate::math::{swap_output_amount, swap_output_spec};
use crate::state::{AccountKey, Pool};

verus! {

/// Whether `vault_in` and `vault_out` name the pool's two vaults, in either direction.
pub open spec fn valid_swap_direction(pool: Pool, vault_in: AccountKey, vault_out: AccountKey) -> bool {
    ||| (vault_in.bytes@ == pool.vault_a.bytes@ && vault_out.bytes@ == pool.vault_b.bytes@)
    ||| (vault_in.bytes@ == pool.vault_b.bytes@ && vault_out.bytes@ == pool.vault_a.bytes@)
}

/// The outcome of `swap_handler`: the amount to pay out of `vault_out`, or the error.
pub open spec fn swap_handler_spec(
    amount_in: u64,
    min_amount_out: u64,
    pool: Pool,
    vault_in: AccountKey,
    vault_out: AccountKey,
    reserve_in: u64,
    reserve_out: u64,
) -> Result<u64, AmmError> {
    if amount_in == 0 {
        Err(AmmError::ZeroAmount)
    } else if !valid_swap_direction(pool, vault_in, vault_out) {
        Err(AmmError::InvalidVault)
    } else {
        match swap_output_spec(amount_in, reserve_in, reserve_out, pool.fee_bps) {
            Err(e) => Err(e),
            Ok(amount_out) => if amount_out < min_amount_out {
                Err(AmmError::SlippageExceeded)
            } else if amount_out == 0 {
                Err(AmmError::InsufficientLiquidity)
            } else {
                Ok(amount_out)
            },
        }
    }
}

/// Decides a swap of `amount_in` into `vault_in` (which holds `reserve_in`) against
/// `vault_out` (which holds `reserve_out`). On success the caller moves `amount_in` from the
/// user into `vault_in` and the returned amount from `vault_out` to the user.
pub fn swap_handler(
    amount_in: u64,
    min_amount_out: u64,
    pool: &Pool,
    vault_in: &AccountKey,
    vault_out: &AccountKey,
    reserve_in: u64,
    reserve_out: u64,
) -> (r: Result<u64, AmmError>)
    ensures
        r == swap_handler_spec(
            amount_in,
            min_amount_out,
            *pool,
            *vault_in,
            *vault_out,
            reserve_in,
            reserve_out,
        ),
        r matches Ok(amount_out) ==> 0 < amount_out < reserve_out,
{
    if !(amount_in > 0) {
        return Err(AmmError::ZeroAmount);
    }
    let is_a_to_b = vault_in.same_as(&pool.vault_a) && vault_out.same_as(&pool.vault_b);
    let is_b_to_a = vault_in.same_as(&pool.vault_b) && vault_out.same_as(&pool.vault_a);
    if !(is_a_to_b || is_b_to_a) {
        return Err(AmmError::InvalidVault);
    }
    let amount_out = match swap_output_amount(amount_in, reserve_in, reserve_out, pool.fee_bps) {
        Ok(v) => v,
        Err(e) => return Err(e),
    };
    if !(amount_out >= min_amount_out) {
        return Err(AmmError::SlippageExceeded);
    }
    if !(amount_out > 0) {
        return Err(AmmError::InsufficientLiquidity);
    }
    Ok(amount_out)
}

} // verus!
