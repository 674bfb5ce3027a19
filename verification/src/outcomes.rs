use vstd::prelude::*;
use crate::error::AmmError;
use crate::instructions::add_liquidity::{add_liquidity_spec, DepositPlan};
use crate::instructions::remove_liquidity::{remove_liquidity_spec, WithdrawPlan};
use crate::instructions::swap::swap_handler_spec;
use crate::math::{
    floor_sqrt,
    lemma_floor_sqrt_unique,
    proportional_lp_spec,
    swap_output_spec,
    withdraw_spec,
};
use crate::state::{AccountKey, Pool};

verus! {

/// The first deposit into a pool never fails for overflow: with both amounts nonzero it
/// takes both in full and mints `r`, the integer square root of `amount_a * amount_b`
/// (which is at least 1 and fits in a `u64`), unless `r` is below `min_lp_out`.
pub proof fn lemma_first_deposit_outcome(
    amount_a: u64,
    amount_b: u64,
    min_lp_out: u64,
    reserve_a: u64,
    reserve_b: u64,
    r: int,
)
    requires
        amount_a > 0,
        amount_b > 0,
        0 <= r,
        r * r <= amount_a * amount_b,
        amount_a * amount_b < (r + 1) * (r + 1),
    ensures
        1 <= r <= u64::MAX,
        r >= min_lp_out ==> add_liquidity_spec(amount_a, amount_b, min_lp_out, reserve_a, reserve_b, 0)
            == Ok::<DepositPlan, AmmError>(
            DepositPlan { used_a: amount_a, used_b: amount_b, lp_to_mint: r as u64 },
        ),
        r < min_lp_out ==> add_liquidity_spec(amount_a, amount_b, min_lp_out, reserve_a, reserve_b, 0)
            == Err::<DepositPlan, AmmError>(AmmError::SlippageExceeded),
{
    lemma_floor_sqrt_unique(r, amount_a * amount_b);
    assert(1 <= r <= u64::MAX) by (nonlinear_arith)
        requires
            0 <= r,
            r * r <= amount_a * amount_b,
            amount_a * amount_b < (r + 1) * (r + 1),
            1 <= amount_a <= 0xffff_ffff_ffff_ffffu64,
            1 <= amount_b <= 0xffff_ffff_ffff_ffffu64,
    {
        assert(amount_a * amount_b >= 1);
        assert(amount_a * amount_b <= 0xffff_ffff_ffff_ffff * 0xffff_ffff_ffff_ffff);
        if r > 0xffff_ffff_ffff_ffff {
            assert(r * r >= 0x1_0000_0000_0000_0000 * 0x1_0000_0000_0000_0000);
        }
    }
    assert(floor_sqrt(amount_a * amount_b) as u64 == r as u64);
}

/// What a later deposit answers, in terms of its inputs. With `lp_supply > 0` and nonzero
/// amounts and reserves, let `lp_from_a = amount_a * lp_supply / reserve_a` and
/// `lp_from_b = amount_b * lp_supply / reserve_b` (rounded down). The side with the smaller
/// LP amount (side a on a tie) is taken in full, the other side at
/// `amount * reserve_other / reserve_same` (rounded down), and the smaller LP amount is
/// minted; the deposit is refused with `MathOverflow` exactly where one of these does not
/// fit in a `u64`, with `SlippageExceeded` where the LP amount is below `min_lp_out`, and
/// with `ZeroAmount` where it is zero.
pub proof fn lemma_later_deposit_outcome(
    amount_a: u64,
    amount_b: u64,
    min_lp_out: u64,
    reserve_a: u64,
    reserve_b: u64,
    lp_supply: u64,
)
    requires
        amount_a > 0,
        amount_b > 0,
        reserve_a > 0,
        reserve_b > 0,
        lp_supply > 0,
    ensures
        ({
            let lp_from_a = (amount_a * lp_supply) / (reserve_a as int);
            let lp_from_b = (amount_b * lp_supply) / (reserve_b as int);
            let matched_b = (amount_a * reserve_b) / (reserve_a as int);
            let matched_a = (amount_b * reserve_a) / (reserve_b as int);
            let r = add_liquidity_spec(
                amount_a,
                amount_b,
                min_lp_out,
                reserve_a,
                reserve_b,
                lp_supply,
            );
            &&& (lp_from_a > u64::MAX || lp_from_b > u64::MAX) ==> r == Err::<DepositPlan, AmmError>(
                AmmError::MathOverflow,
            )
            &&& (lp_from_a <= u64::MAX && lp_from_b <= u64::MAX && lp_from_a <= lp_from_b) ==> {
                &&& matched_b > u64::MAX ==> r == Err::<DepositPlan, AmmError>(AmmError::MathOverflow)
                &&& (matched_b <= u64::MAX && lp_from_a < min_lp_out) ==> r == Err::<
                    DepositPlan,
                    AmmError,
                >(AmmError::SlippageExceeded)
                &&& (matched_b <= u64::MAX && lp_from_a >= min_lp_out && lp_from_a == 0) ==> r
                    == Err::<DepositPlan, AmmError>(AmmError::ZeroAmount)
                &&& (matched_b <= u64::MAX && lp_from_a >= min_lp_out && lp_from_a > 0) ==> r
                    == Ok::<DepositPlan, AmmError>(
                    DepositPlan {
                        used_a: amount_a,
                        used_b: matched_b as u64,
                        lp_to_mint: lp_from_a as u64,
                    },
                )
            }
            &&& (lp_from_a <= u64::MAX && lp_from_b <= u64::MAX && lp_from_b < lp_from_a) ==> {
                &&& matched_a > u64::MAX ==> r == Err::<DepositPlan, AmmError>(AmmError::MathOverflow)
                &&& (matched_a <= u64::MAX && lp_from_b < min_lp_out) ==> r == Err::<
                    DepositPlan,
                    AmmError,
                >(AmmError::SlippageExceeded)
                &&& (matched_a <= u64::MAX && lp_from_b >= min_lp_out && lp_from_b == 0) ==> r
                    == Err::<DepositPlan, AmmError>(AmmError::ZeroAmount)
                &&& (matched_a <= u64::MAX && lp_from_b >= min_lp_out && lp_from_b > 0) ==> r
                    == Ok::<DepositPlan, AmmError>(
                    DepositPlan {
                        used_a: matched_a as u64,
                        used_b: amount_b,
                        lp_to_mint: lp_from_b as u64,
                    },
                )
            }
        }),
{
}

/// A later deposit into a pool with an empty vault is refused with `InsufficientLiquidity`,
/// unless the LP amount of side a, computed first, already overflows.
pub proof fn lemma_later_deposit_into_empty_vault(
    amount_a: u64,
    amount_b: u64,
    min_lp_out: u64,
    reserve_a: u64,
    reserve_b: u64,
    lp_supply: u64,
)
    requires
        amount_a > 0,
        amount_b > 0,
        lp_supply > 0,
        reserve_a == 0 || reserve_b == 0,
    ensures
        reserve_a == 0 ==> add_liquidity_spec(
            amount_a,
            amount_b,
            min_lp_out,
            reserve_a,
            reserve_b,
            lp_supply,
        ) == Err::<DepositPlan, AmmError>(AmmError::InsufficientLiquidity),
        reserve_a > 0 && (amount_a * lp_supply) / (reserve_a as int) <= u64::MAX
            ==> add_liquidity_spec(amount_a, amount_b, min_lp_out, reserve_a, reserve_b, lp_supply)
            == Err::<DepositPlan, AmmError>(AmmError::InsufficientLiquidity),
        reserve_a > 0 && (amount_a * lp_supply) / (reserve_a as int) > u64::MAX
            ==> add_liquidity_spec(amount_a, amount_b, min_lp_out, reserve_a, reserve_b, lp_supply)
            == Err::<DepositPlan, AmmError>(AmmError::MathOverflow),
{
}

/// A deposit with a zero amount is refused with `ZeroAmount`, whatever the pool holds.
pub proof fn lemma_deposit_of_nothing_refused(
    amount_a: u64,
    amount_b: u64,
    min_lp_out: u64,
    reserve_a: u64,
    reserve_b: u64,
    lp_supply: u64,
)
    requires
        amount_a == 0 || amount_b == 0,
    ensures
        add_liquidity_spec(amount_a, amount_b, min_lp_out, reserve_a, reserve_b, lp_supply)
            == Err::<DepositPlan, AmmError>(AmmError::ZeroAmount),
{
}

/// What a swap computation answers, in terms of its inputs: a zero input is refused with
/// `ZeroAmount`, an empty reserve with `InsufficientLiquidity`; otherwise, with
/// `fee = amount_in * fee_bps / 10_000` and `after_fee = amount_in - fee` (both rounded
/// down), the payout is `reserve_out * after_fee / (reserve_in + after_fee)`, rounded down,
/// which is below `reserve_out`; the one refusal is `MathOverflow` where the fee exceeds the
/// whole input, which no fee of at most 10_000 basis points does.
pub proof fn lemma_swap_output_outcome(
    amount_in: u64,
    reserve_in: u64,
    reserve_out: u64,
    fee_bps: u16,
)
    ensures
        amount_in == 0 ==> swap_output_spec(amount_in, reserve_in, reserve_out, fee_bps) == Err::<
            u64,
            AmmError,
        >(AmmError::ZeroAmount),
        amount_in > 0 && (reserve_in == 0 || reserve_out == 0) ==> swap_output_spec(
            amount_in,
            reserve_in,
            reserve_out,
            fee_bps,
        ) == Err::<u64, AmmError>(AmmError::InsufficientLiquidity),
        fee_bps <= 10_000 ==> amount_in * fee_bps / 10_000 <= amount_in,
        ({
            let fee = amount_in * fee_bps / 10_000;
            let after_fee = amount_in - fee;
            let out = (reserve_out * after_fee) / (reserve_in + after_fee);
            &&& (amount_in > 0 && reserve_in > 0 && reserve_out > 0 && fee > amount_in) ==> swap_output_spec(
                amount_in,
                reserve_in,
                reserve_out,
                fee_bps,
            ) == Err::<u64, AmmError>(AmmError::MathOverflow)
            &&& (amount_in > 0 && reserve_in > 0 && reserve_out > 0 && fee <= amount_in) ==> {
                &&& 0 <= out < reserve_out
                &&& swap_output_spec(amount_in, reserve_in, reserve_out, fee_bps) == Ok::<
                    u64,
                    AmmError,
                >(out as u64)
            }
        }),
{
    let fee = amount_in * fee_bps / 10_000;
    if fee_bps <= 10_000 {
        assert(fee <= amount_in) by (nonlinear_arith)
            requires
                fee == amount_in * fee_bps / 10_000,
                0 <= fee_bps <= 10_000,
                0 <= amount_in,
        {
            assert(amount_in * fee_bps <= amount_in * 10_000);
        }
    }
    let after_fee = amount_in - fee;
    if amount_in > 0 && reserve_in > 0 && reserve_out > 0 && fee <= amount_in {
        assert(fee >= 0) by (nonlinear_arith)
            requires
                fee == amount_in * fee_bps / 10_000,
                0 <= fee_bps,
                0 <= amount_in,
        ;
        let out = (reserve_out * after_fee) / (reserve_in + after_fee);
        assert(0 <= out < reserve_out) by (nonlinear_arith)
            requires
                out == (reserve_out * after_fee) / (reserve_in + after_fee),
                reserve_in > 0,
                reserve_out > 0,
                0 <= after_fee,
        {
            assert(reserve_out * after_fee < reserve_out * (reserve_in + after_fee));
        }
    }
}

/// What a swap instruction answers, in terms of its inputs. A zero input is refused with
/// `ZeroAmount`, vaults that are not the pool's two vaults (in either order) with
/// `InvalidVault`. Otherwise, with nonzero reserves and a fee of at most the whole input, it
/// pays `out = reserve_out * after_fee / (reserve_in + after_fee)` exactly when
/// `min_amount_out <= out` and `out > 0`; it refuses with `SlippageExceeded` exactly when
/// `out < min_amount_out`, and with `InsufficientLiquidity` when `out == 0 >= min_amount_out`.
pub proof fn lemma_swap_handler_outcome(
    amount_in: u64,
    min_amount_out: u64,
    pool: Pool,
    vault_in: AccountKey,
    vault_out: AccountKey,
    reserve_in: u64,
    reserve_out: u64,
)
    ensures
        amount_in == 0 ==> swap_handler_spec(
            amount_in,
            min_amount_out,
            pool,
            vault_in,
            vault_out,
            reserve_in,
            reserve_out,
        ) == Err::<u64, AmmError>(AmmError::ZeroAmount),
        ({
            let direction_ok = (vault_in.bytes@ == pool.vault_a.bytes@ && vault_out.bytes@
                == pool.vault_b.bytes@) || (vault_in.bytes@ == pool.vault_b.bytes@
                && vault_out.bytes@ == pool.vault_a.bytes@);
            let fee = amount_in * pool.fee_bps / 10_000;
            let after_fee = amount_in - fee;
            let out = (reserve_out * after_fee) / (reserve_in + after_fee);
            let r = swap_handler_spec(
                amount_in,
                min_amount_out,
                pool,
                vault_in,
                vault_out,
                reserve_in,
                reserve_out,
            );
            &&& (amount_in > 0 && !direction_ok) ==> r == Err::<u64, AmmError>(
                AmmError::InvalidVault,
            )
            &&& (amount_in > 0 && direction_ok && (reserve_in == 0 || reserve_out == 0)) ==> r
                == Err::<u64, AmmError>(AmmError::InsufficientLiquidity)
            &&& (amount_in > 0 && direction_ok && reserve_in > 0 && reserve_out > 0 && fee
                > amount_in) ==> r == Err::<u64, AmmError>(AmmError::MathOverflow)
            &&& (amount_in > 0 && direction_ok && reserve_in > 0 && reserve_out > 0 && fee
                <= amount_in) ==> {
                &&& (min_amount_out <= out && out > 0) ==> r == Ok::<u64, AmmError>(out as u64)
                &&& out < min_amount_out ==> r == Err::<u64, AmmError>(AmmError::SlippageExceeded)
                &&& (min_amount_out <= out && out == 0) ==> r == Err::<u64, AmmError>(
                    AmmError::InsufficientLiquidity,
                )
            }
        }),
{
    lemma_swap_output_outcome(amount_in, reserve_in, reserve_out, pool.fee_bps);
}

/// What a withdrawal answers, in terms of its inputs. A zero LP amount is refused with
/// `ZeroAmount`, an empty supply with `InsufficientLiquidity`. Otherwise, with
/// `out_a = lp_amount * reserve_a / lp_supply` and `out_b = lp_amount * reserve_b / lp_supply`
/// (rounded down), it refuses with `MathOverflow` exactly where one does not fit in a `u64`;
/// else it pays both exactly when each is at least its minimum and both are nonzero,
/// refuses with `SlippageExceeded` exactly when one is below its minimum, and with
/// `InsufficientLiquidity` when both meet their minimums but one is zero.
pub proof fn lemma_withdrawal_outcome(
    lp_amount: u64,
    min_amount_a: u64,
    min_amount_b: u64,
    reserve_a: u64,
    reserve_b: u64,
    lp_supply: u64,
)
    ensures
        ({
            let r = remove_liquidity_spec(
                lp_amount,
                min_amount_a,
                min_amount_b,
                reserve_a,
                reserve_b,
                lp_supply,
            );
            let out_a = (lp_amount * reserve_a) / (lp_supply as int);
            let out_b = (lp_amount * reserve_b) / (lp_supply as int);
            let fits = out_a <= u64::MAX && out_b <= u64::MAX;
            &&& lp_amount == 0 ==> r == Err::<WithdrawPlan, AmmError>(AmmError::ZeroAmount)
            &&& (lp_amount > 0 && lp_supply == 0) ==> r == Err::<WithdrawPlan, AmmError>(
                AmmError::InsufficientLiquidity,
            )
            &&& (lp_amount > 0 && lp_supply > 0 && !fits) ==> r == Err::<WithdrawPlan, AmmError>(
                AmmError::MathOverflow,
            )
            &&& (lp_amount > 0 && lp_supply > 0 && fits) ==> {
                &&& (out_a >= min_amount_a && out_b >= min_amount_b && out_a > 0 && out_b > 0)
                    ==> r == Ok::<WithdrawPlan, AmmError>(
                    WithdrawPlan { amount_a_out: out_a as u64, amount_b_out: out_b as u64 },
                )
                &&& (out_a < min_amount_a || out_b < min_amount_b) ==> r == Err::<
                    WithdrawPlan,
                    AmmError,
                >(AmmError::SlippageExceeded)
                &&& (out_a >= min_amount_a && out_b >= min_amount_b && (out_a == 0 || out_b == 0))
                    ==> r == Err::<WithdrawPlan, AmmError>(AmmError::InsufficientLiquidity)
            }
        }),
{
}

/// What the LP and withdrawal amounts answer, in terms of their inputs: with a nonzero
/// denominator (and, for a withdrawal, a nonzero LP amount) each is the product of its first
/// two inputs divided by the denominator, rounded down, or `MathOverflow` exactly where
/// that does not fit in a `u64`.
pub proof fn lemma_share_amounts_outcome(amount: u64, reserve: u64, supply: u64)
    ensures
        reserve == 0 ==> proportional_lp_spec(amount, reserve, supply) == Err::<u64, AmmError>(
            AmmError::InsufficientLiquidity,
        ),
        reserve > 0 && (amount * supply) / (reserve as int) <= u64::MAX ==> proportional_lp_spec(
            amount,
            reserve,
            supply,
        ) == Ok::<u64, AmmError>(((amount * supply) / (reserve as int)) as u64),
        reserve > 0 && (amount * supply) / (reserve as int) > u64::MAX ==> proportional_lp_spec(
            amount,
            reserve,
            supply,
        ) == Err::<u64, AmmError>(AmmError::MathOverflow),
        supply == 0 ==> withdraw_spec(amount, reserve, supply) == Err::<u64, AmmError>(
            AmmError::InsufficientLiquidity,
        ),
        supply > 0 && amount == 0 ==> withdraw_spec(amount, reserve, supply) == Err::<u64, AmmError>(
            AmmError::ZeroAmount,
        ),
        supply > 0 && amount > 0 && (amount * reserve) / (supply as int) <= u64::MAX ==> withdraw_spec(
            amount,
            reserve,
            supply,
        ) == Ok::<u64, AmmError>(((amount * reserve) / (supply as int)) as u64),
        supply > 0 && amount > 0 && (amount * reserve) / (supply as int) > u64::MAX ==> withdraw_spec(
            amount,
            reserve,
            supply,
        ) == Err::<u64, AmmError>(AmmError::MathOverflow),
{
}

} // verus!
