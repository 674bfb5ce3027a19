use vstd::prelude::*;
use crate::error::AmmError;
use crate::math::{withdraw_amount, withdraw_spec};

verus! {

/// What a withdrawal pays out of each vault.
#[derive(Clone, Copy, Debug, PartialEq, Eq, Structural)]
pub struct WithdrawPlan {
    pub amount_a_out: u64,
    pub amount_b_out: u64,
}

/// The outcome of `remove_liquidity_handler`.
pub open spec fn remove_liquidity_spec(
    lp_amount: u64,
    min_amount_a: u64,
    min_amount_b: u64,
    reserve_a: u64,
    reserve_b: u64,
    lp_supply: u64,
) -> Result<WithdrawPlan, AmmError> {
    if lp_amount == 0 {
        Err(AmmError::ZeroAmount)
    } else {
        match (
            withdraw_spec(lp_amount, reserve_a, lp_supply),
            withdraw_spec(lp_amount, reserve_b, lp_supply),
        ) {
            (Err(e), _) => Err(e),
            (Ok(_), Err(e)) => Err(e),
            (Ok(a), Ok(b)) => if a < min_amount_a || b < min_amount_b {
                Err(AmmError::SlippageExceeded)
            } else if a == 0 || b == 0 {
                Err(AmmError::InsufficientLiquidity)
            } else {
                Ok(WithdrawPlan { amount_a_out: a, amount_b_out: b })
            },
        }
    }
}

/// Decides a withdrawal that burns `lp_amount` LP tokens out of `lp_supply`, from vaults
/// holding `reserve_a` and `reserve_b`. On success the caller burns the LP tokens and moves
/// the planned amounts from the vaults to the user.
pub fn remove_liquidity_handler(
    lp_amount: u64,
    min_amount_a: u64,
    min_amount_b: u64,
    reserve_a: u64,
    reserve_b: u64,
    lp_supply: u64,
) -> (r: Result<WithdrawPlan, AmmError>)
    ensures
        r == remove_liquidity_spec(
            lp_amount,
            min_amount_a,
            min_amount_b,
            reserve_a,
            reserve_b,
            lp_supply,
        ),
{
    if !(lp_amount > 0) {
        return Err(AmmError::ZeroAmount);
    }
    let amount_a_out = match withdraw_amount(lp_amount, reserve_a, lp_supply) {
        Ok(v) => v,
        Err(e) => return Err(e),
    };
    let amount_b_out = match withdraw_amount(lp_amount, reserve_b, lp_supply) {
        Ok(v) => v,
        Err(e) => return Err(e),
    };
    if !(amount_a_out >= min_amount_a) {
        return Err(AmmError::SlippageExceeded);
    }
    if !(amount_b_out >= min_amount_b) {
        return Err(AmmError::SlippageExceeded);
    }
    if !(amount_a_out > 0 && amount_b_out > 0) {
        return Err(AmmError::InsufficientLiquidity);
    }
    Ok(WithdrawPlan { amount_a_out, amount_b_out })
}

} // verus!
