use vstd::prelude::*;
use crate::error::AmmError;
use crate::math::{
    checked_quotient,
    floor_sqrt,
    narrow_to_u64,
    initial_lp_amount,
    proportional_lp_amount,
    proportional_lp_spec,
};

verus! {

/// What a deposit takes from the user of each token, and how many LP tokens it mints.
#[derive(Clone, Copy, Debug, PartialEq, Eq, Structural)]
pub struct DepositPlan {
    pub used_a: u64,
    pub used_b: u64,
    pub lp_to_mint: u64,
}

/// `amount` of one token, matched at the ratio of the reserves:
/// `amount * reserve_other / reserve_same`, rounded down; `MathOverflow` where that does not
/// fit in a `u64`.
pub open spec fn matched_amount(amount: u64, reserve_other: u64, reserve_same: u64) -> Result<
    u64,
    AmmError,
> {
    checked_quotient(amount * reserve_other, reserve_same as int)
}

/// The deposit before the minimum-output and nonzero checks.
pub open spec fn deposit_plan_spec(
    amount_a: u64,
    amount_b: u64,
    reserve_a: u64,
    reserve_b: u64,
    lp_supply: u64,
) -> Result<DepositPlan, AmmError> {
    if lp_supply == 0 {
        Ok(
            DepositPlan {
                used_a: amount_a,
                used_b: amount_b,
                lp_to_mint: floor_sqrt(amount_a * amount_b) as u64,
            },
        )
    } else {
        match (
            proportional_lp_spec(amount_a, reserve_a, lp_supply),
            proportional_lp_spec(amount_b, reserve_b, lp_supply),
        ) {
            (Err(e), _) => Err(e),
            (Ok(_), Err(e)) => Err(e),
            (Ok(lp_from_a), Ok(lp_from_b)) => if lp_from_a <= lp_from_b {
                match matched_amount(amount_a, reserve_b, reserve_a) {
                    Err(e) => Err(e),
                    Ok(matched_b) => Ok(
                        DepositPlan { used_a: amount_a, used_b: matched_b, lp_to_mint: lp_from_a },
                    ),
                }
            } else {
                match matched_amount(amount_b, reserve_a, reserve_b) {
                    Err(e) => Err(e),
                    Ok(matched_a) => Ok(
                        DepositPlan { used_a: matched_a, used_b: amount_b, lp_to_mint: lp_from_b },
                    ),
                }
            },
        }
    }
}

/// The outcome of `add_liquidity_handler`.
pub open spec fn add_liquidity_spec(
    amount_a: u64,
    amount_b: u64,
    min_lp_out: u64,
    reserve_a: u64,
    reserve_b: u64,
    lp_supply: u64,
) -> Result<DepositPlan, AmmError> {
    if amount_a == 0 || amount_b == 0 {
        Err(AmmError::ZeroAmount)
    } else {
        match deposit_plan_spec(amount_a, amount_b, reserve_a, reserve_b, lp_supply) {
            Err(e) => Err(e),
            Ok(plan) => if plan.lp_to_mint < min_lp_out {
                Err(AmmError::SlippageExceeded)
            } else if plan.lp_to_mint == 0 {
                Err(AmmError::ZeroAmount)
            } else {
                Ok(plan)
            },
        }
    }
}

/// `amount * reserve_other / reserve_same`, rounded down; `MathOverflow` where that does not
/// fit in a `u64`.
fn matched(amount: u64, reserve_other: u64, reserve_same: u64) -> (r: Result<u64, AmmError>)
    requires
        reserve_same > 0,
    ensures
        r == matched_amount(amount, reserve_other, reserve_same),
{
    proof {
        assert(0 <= amount * reserve_other <= 0xffff_ffff_ffff_fffe_0000_0000_0000_0001u128)
            by (nonlinear_arith)
            requires
                amount <= 0xffff_ffff_ffff_ffffu64,
                reserve_other <= 0xffff_ffff_ffff_ffffu64,
        ;
    }
    let product = match (amount as u128).checked_mul(reserve_other as u128) {
        Some(v) => v,
        None => return Err(AmmError::MathOverflow),
    };
    let quotient = match product.checked_div(reserve_same as u128) {
        Some(v) => v,
        None => return Err(AmmError::MathOverflow),
    };
    narrow_to_u64(quotient)
}

/// Decides a deposit of up to `amount_a` and `amount_b` into vaults holding `reserve_a` and
/// `reserve_b`, when `lp_supply` LP tokens are out. The first deposit takes both amounts in
/// full and mints the integer square root of their product; a later one mints the smaller
/// of the LP amounts the two sides would earn, and takes the other side at the ratio of the
/// reserves. On success the caller moves the planned amounts from the user into the vaults
/// and mints the LP tokens to the user.
pub fn add_liquidity_handler(
    amount_a: u64,
    amount_b: u64,
    min_lp_out: u64,
    reserve_a: u64,
    reserve_b: u64,
    lp_supply: u64,
) -> (r: Result<DepositPlan, AmmError>)
    ensures
        r == add_liquidity_spec(amount_a, amount_b, min_lp_out, reserve_a, reserve_b, lp_supply),
{
    if !(amount_a > 0 && amount_b > 0) {
        return Err(AmmError::ZeroAmount);
    }
    let plan = if lp_supply == 0 {
        let lp = match initial_lp_amount(amount_a, amount_b) {
            Ok(v) => v,
            Err(e) => return Err(e),
        };
        DepositPlan { used_a: amount_a, used_b: amount_b, lp_to_mint: lp }
    } else {
        let lp_from_a = match proportional_lp_amount(amount_a, reserve_a, lp_supply) {
            Ok(v) => v,
            Err(e) => return Err(e),
        };
        let lp_from_b = match proportional_lp_amount(amount_b, reserve_b, lp_supply) {
            Ok(v) => v,
            Err(e) => return Err(e),
        };
        if lp_from_a <= lp_from_b {
            let matched_b = match matched(amount_a, reserve_b, reserve_a) {
                Ok(v) => v,
                Err(e) => return Err(e),
            };
            DepositPlan { used_a: amount_a, used_b: matched_b, lp_to_mint: lp_from_a }
        } else {
            let matched_a = match matched(amount_b, reserve_a, reserve_b) {
                Ok(v) => v,
                Err(e) => return Err(e),
            };
            DepositPlan { used_a: matched_a, used_b: amount_b, lp_to_mint: lp_from_b }
        }
    };
    if !(plan.lp_to_mint >= min_lp_out) {
        return Err(AmmError::SlippageExceeded);
    }
    if !(plan.lp_to_mint > 0) {
        return Err(AmmError::ZeroAmount);
    }
    Ok(plan)
}

} // verus!
