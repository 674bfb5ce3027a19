use vstd::prelude::*;
use crate::error::AmmError;
use crate::state::{AccountKey, Pool};

verus! {

/// The largest fee a pool accepts, in basis points: the whole input.
pub const MAX_FEE_BPS: u16 = 10_000;

/// Sets up the state of a new pool, refusing a fee above `MAX_FEE_BPS` and a pool whose
/// two tokens are the same mint.
pub fn init_pool_handler(
    fee_bps: u16,
    token_a_mint: AccountKey,
    token_b_mint: AccountKey,
    vault_a: AccountKey,
    vault_b: AccountKey,
    lp_mint: AccountKey,
    bump: u8,
    authority_bump: u8,
) -> (r: Result<Pool, AmmError>)
    ensures
        fee_bps > MAX_FEE_BPS ==> r == Err::<Pool, AmmError>(AmmError::InvalidFee),
        fee_bps <= MAX_FEE_BPS && token_a_mint.bytes@ == token_b_mint.bytes@ ==> r == Err::<
            Pool,
            AmmError,
        >(AmmError::InvalidMint),
        fee_bps <= MAX_FEE_BPS && token_a_mint.bytes@ != token_b_mint.bytes@ ==> r == Ok::<Pool, AmmError>(
            Pool {
                token_a_mint,
                token_b_mint,
                vault_a,
                vault_b,
                lp_mint,
                fee_bps,
                bump,
                authority_bump,
            },
        ),
{
    if !(fee_bps <= MAX_FEE_BPS) {
        return Err(AmmError::InvalidFee);
    }
    if token_a_mint.same_as(&token_b_mint) {
        return Err(AmmError::InvalidMint);
    }
    Ok(
        Pool {
            token_a_mint,
            token_b_mint,
            vault_a,
            vault_b,
            lp_mint,
            fee_bps,
            bump,
            authority_bump,
        },
    )
}

} // verus!
