use vstd::prelude::*;
use crate::error::AmmError;

verus! {

/// `r` is the integer square root of `n`: the largest integer whose square is at most `n`.
pub open spec fn is_floor_sqrt(r: int, n: int) -> bool {
    &&& 0 <= r
    &&& r * r <= n
    &&& n < (r + 1) * (r + 1)
}

/// The integer square root of `n`.
pub open spec fn floor_sqrt(n: int) -> int {
    choose|r: int| is_floor_sqrt(r, n)
}

/// The integer square root is unique.
pub proof fn lemma_floor_sqrt_unique(r: int, n: int)
    requires
        is_floor_sqrt(r, n),
    ensures
        floor_sqrt(n) == r,
{
    let s = floor_sqrt(n);
    assert(is_floor_sqrt(s, n));
    if s < r {
        assert((s + 1) * (s + 1) <= r * r) by (nonlinear_arith)
            requires
                0 <= s,
                s + 1 <= r,
        ;
    } else if r < s {
        assert((r + 1) * (r + 1) <= s * s) by (nonlinear_arith)
            requires
                0 <= r,
                r + 1 <= s,
        ;
    }
}

/// Every natural number has an integer square root.
pub proof fn lemma_floor_sqrt_exists(n: int)
    requires
        0 <= n,
    ensures
        is_floor_sqrt(floor_sqrt(n), n),
    decreases n,
{
    if n == 0 {
        assert(is_floor_sqrt(0, 0));
    } else {
        lemma_floor_sqrt_exists(n - 1);
        let s = floor_sqrt(n - 1);
        if (s + 1) * (s + 1) <= n {
            assert(n < (s + 2) * (s + 2)) by (nonlinear_arith)
                requires
                    0 <= s,
                    n - 1 < (s + 1) * (s + 1),
            ;
            assert(is_floor_sqrt(s + 1, n));
        } else {
            assert(is_floor_sqrt(s, n));
        }
    }
}

spec fn square(r: int) -> int {
    r * r
}

/// One Newton step never falls below a root candidate: if `r * r <= n` and `x > 0`,
/// then `r <= (x + n / x) / 2`.
proof fn lemma_newton_step_stays_above(n: int, x: int, r: int)
    requires
        0 <= n,
        0 < x,
        0 <= r,
        r * r <= n,
    ensures
        r <= (x + n / x) / 2,
{
    let q = n / x;
    assert(n < x * (q + 1)) by (nonlinear_arith)
        requires
            0 < x,
            q == n / x,
    ;
    if x + q < 2 * r {
        assert(x * (q + 1) <= r * r) by (nonlinear_arith)
            requires
                x + q + 1 <= 2 * r,
                0 < x,
                0 <= q,
        {
            assert(x * (q + 1) <= x * (2 * r - x));
            assert(x * (2 * r - x) == r * r - (r - x) * (r - x));
        }
    }
}

/// Below `2^128`, the integer square root is below `2^64`, and `n / s` is at most `s + 2`.
proof fn lemma_floor_sqrt_bounds(n: int, s: int)
    requires
        0 < n < 0x1_0000_0000_0000_0000_0000_0000_0000_0000,
        is_floor_sqrt(s, n),
    ensures
        1 <= s < 0x1_0000_0000_0000_0000,
        n / s <= s + 2,
{
    assert(1 <= s < 0x1_0000_0000_0000_0000 && n / s <= s + 2) by (nonlinear_arith)
        requires
            0 < n < 0x1_0000_0000_0000_0000_0000_0000_0000_0000,
            0 <= s,
            s * s <= n,
            n < (s + 1) * (s + 1),
    {
        if s == 0 {
            assert((s + 1) * (s + 1) == 1);
        }
        if s >= 0x1_0000_0000_0000_0000 {
            assert(s * s >= 0x1_0000_0000_0000_0000 * 0x1_0000_0000_0000_0000);
        }
        assert(n <= s * (s + 2));
        assert((s * (s + 2)) / s == s + 2);
    }
}

/// Integer square root by Newton's method.
fn isqrt(n: u128) -> (r: u128)
    requires
        n < u128::MAX,
    ensures
        is_floor_sqrt(r as int, n as int),
{
    if n == 0 {
        assert(is_floor_sqrt(0, n as int)) by (nonlinear_arith)
            requires
                n == 0,
        ;
        return 0;
    }
    let ghost s = floor_sqrt(n as int);
    proof {
        lemma_floor_sqrt_exists(n as int);
        lemma_floor_sqrt_bounds(n as int, s);
    }
    let mut x = n;
    let mut y = (x + 1) / 2;
    proof {
        assert(n / n == 1) by (nonlinear_arith)
            requires
                n > 0,
        ;
        assert forall|r: int| 0 <= r && #[trigger] square(r) <= n implies r <= n by {
            if r >= 1 {
                assert(r <= r * r) by (nonlinear_arith)
                    requires
                        r >= 1,
                ;
            }
        }
    }
    while y < x
        invariant
            0 < n < u128::MAX,
            is_floor_sqrt(s, n as int),
            1 <= s < 0x1_0000_0000_0000_0000,
            (n as int) / s <= s + 2,
            1 <= x <= n,
            y == (x + n / x) / 2,
            y < x ==> y <= (n + 1) / 2,
            forall|r: int| 0 <= r && #[trigger] square(r) <= n ==> r <= x,
        decreases x,
    {
        proof {
            assert forall|r: int| 0 <= r && #[trigger] square(r) <= n implies r <= y by {
                lemma_newton_step_stays_above(n as int, x as int, r);
            }
            assert(square(1) <= n);
            assert(square(s) <= n);
        }
        x = y;
        proof {
            assert(n / x <= (n as int) / s) by (nonlinear_arith)
                requires
                    s <= x,
                    1 <= s,
                    0 <= n,
            {
                vstd::arithmetic::div_mod::lemma_div_is_ordered_by_denominator(n as int, s, x as int);
            }
            assert(x <= (n + 1) / 2);
        }
        y = (x + n / x) / 2;
        proof {
            if y < x {
                assert(y <= (n + 1) / 2);
            }
        }
    }
    proof {
        assert(x * x <= n) by (nonlinear_arith)
            requires
                x >= 1,
                x <= (x + n / x) / 2,
        {
            assert(x <= n / x);
            assert(x * (n / x) <= n);
            assert(x * x <= x * (n / x));
        }
        if (x + 1) * (x + 1) <= n {
            assert(square(x as int + 1) <= n);
        }
    }
    x
}

/// The part of `amount_in` kept back as the pool's fee: `amount_in * fee_bps / 10_000`,
/// rounded down.
pub open spec fn fee_amount(amount_in: int, fee_bps: int) -> int {
    amount_in * fee_bps / 10_000
}

/// What a swap pays out for `amount_in_after_fee` against reserves `reserve_in` and
/// `reserve_out`: `reserve_out * amount_in_after_fee / (reserve_in + amount_in_after_fee)`,
/// rounded down.
pub open spec fn swap_output(amount_in_after_fee: int, reserve_in: int, reserve_out: int) -> int {
    reserve_out * amount_in_after_fee / (reserve_in + amount_in_after_fee)
}

/// `numerator / denominator`, rounded down, as a `u64`; `MathOverflow` where the quotient
/// does not fit.
pub open spec fn checked_quotient(numerator: int, denominator: int) -> Result<u64, AmmError> {
    if numerator / denominator > u64::MAX {
        Err(AmmError::MathOverflow)
    } else {
        Ok((numerator / denominator) as u64)
    }
}

/// Narrows a `u128` to a `u64`, failing with `MathOverflow` where it does not fit.
pub fn narrow_to_u64(v: u128) -> (r: Result<u64, AmmError>)
    ensures
        v > u64::MAX ==> r == Err::<u64, AmmError>(AmmError::MathOverflow),
        v <= u64::MAX ==> r == Ok::<u64, AmmError>(v as u64),
{
    if v > 0xffff_ffff_ffff_ffffu128 {
        Err(AmmError::MathOverflow)
    } else {
        Ok(v as u64)
    }
}

/// The outcome of `proportional_lp_amount`.
pub open spec fn proportional_lp_spec(
    deposit_amount: u64,
    existing_pool_amount: u64,
    existing_lp_supply: u64,
) -> Result<u64, AmmError> {
    if existing_pool_amount == 0 {
        Err(AmmError::InsufficientLiquidity)
    } else {
        checked_quotient(deposit_amount * existing_lp_supply, existing_pool_amount as int)
    }
}

/// The outcome of `swap_output_amount`.
pub open spec fn swap_output_spec(
    amount_in: u64,
    reserve_in: u64,
    reserve_out: u64,
    fee_bps: u16,
) -> Result<u64, AmmError> {
    if amount_in == 0 {
        Err(AmmError::ZeroAmount)
    } else if reserve_in == 0 || reserve_out == 0 {
        Err(AmmError::InsufficientLiquidity)
    } else if fee_amount(amount_in as int, fee_bps as int) > amount_in {
        Err(AmmError::MathOverflow)
    } else {
        Ok(
            swap_output(
                amount_in - fee_amount(amount_in as int, fee_bps as int),
                reserve_in as int,
                reserve_out as int,
            ) as u64,
        )
    }
}

/// The outcome of `withdraw_amount`.
pub open spec fn withdraw_spec(lp_amount: u64, reserve_amount: u64, total_lp_supply: u64) -> Result<
    u64,
    AmmError,
> {
    if total_lp_supply == 0 {
        Err(AmmError::InsufficientLiquidity)
    } else if lp_amount == 0 {
        Err(AmmError::ZeroAmount)
    } else {
        checked_quotient(lp_amount * reserve_amount, total_lp_supply as int)
    }
}

proof fn lemma_u64_product_fits(a: u64, b: u64)
    ensures
        0 <= a * b <= 0xffff_ffff_ffff_fffe_0000_0000_0000_0001u128,
{
    assert(0 <= a * b <= 0xffff_ffff_ffff_fffe_0000_0000_0000_0001u128) by (nonlinear_arith)
        requires
            a <= 0xffff_ffff_ffff_ffffu64,
            b <= 0xffff_ffff_ffff_ffffu64,
    ;
}

/// LP tokens minted for the first deposit into an empty pool: the integer square root of
/// `amount_a * amount_b`.
pub fn initial_lp_amount(amount_a: u64, amount_b: u64) -> (r: Result<u64, AmmError>)
    ensures
        r == Ok::<u64, AmmError>(floor_sqrt(amount_a * amount_b) as u64),
        r matches Ok(lp) && is_floor_sqrt(lp as int, amount_a * amount_b),
{
    proof {
        lemma_u64_product_fits(amount_a, amount_b);
    }
    let product = match (amount_a as u128).checked_mul(amount_b as u128) {
        Some(p) => p,
        None => return Err(AmmError::MathOverflow),
    };
    let lp = isqrt(product);
    proof {
        if lp > 0xffff_ffff_ffff_ffffu128 {
            assert(lp * lp > product) by (nonlinear_arith)
                requires
                    lp > 0xffff_ffff_ffff_ffffu128,
                    product <= 0xffff_ffff_ffff_fffe_0000_0000_0000_0001u128,
            ;
        }
    }
    proof {
        lemma_floor_sqrt_unique(lp as int, product as int);
    }
    Ok(lp as u64)
}

/// LP tokens earned by `deposit_amount` of one token into a pool that already holds
/// `existing_pool_amount` of it and has issued `existing_lp_supply` LP tokens:
/// `deposit_amount * existing_lp_supply / existing_pool_amount`, rounded down; `MathOverflow`
/// where that does not fit in a `u64`.
pub fn proportional_lp_amount(
    deposit_amount: u64,
    existing_pool_amount: u64,
    existing_lp_supply: u64,
) -> (r: Result<u64, AmmError>)
    ensures
        r == proportional_lp_spec(deposit_amount, existing_pool_amount, existing_lp_supply),
{
    if !(existing_pool_amount > 0) {
        return Err(AmmError::InsufficientLiquidity);
    }
    proof {
        lemma_u64_product_fits(deposit_amount, existing_lp_supply);
    }
    let numerator = match (deposit_amount as u128).checked_mul(existing_lp_supply as u128) {
        Some(v) => v,
        None => return Err(AmmError::MathOverflow),
    };
    let result = match numerator.checked_div(existing_pool_amount as u128) {
        Some(v) => v,
        None => return Err(AmmError::MathOverflow),
    };
    narrow_to_u64(result)
}

/// How much of the output token a swap of `amount_in` pays out, after the fee of
/// `fee_bps` basis points is kept back from the input.
pub fn swap_output_amount(amount_in: u64, reserve_in: u64, reserve_out: u64, fee_bps: u16) -> (r:
    Result<u64, AmmError>)
    ensures
        r == swap_output_spec(amount_in, reserve_in, reserve_out, fee_bps),
        r matches Ok(out) ==> out < reserve_out,
{
    if !(amount_in > 0) {
        return Err(AmmError::ZeroAmount);
    }
    if !(reserve_in > 0 && reserve_out > 0) {
        return Err(AmmError::InsufficientLiquidity);
    }
    proof {
        assert(amount_in * fee_bps <= 0xffff_ffff_ffff_ffff * 0xffff) by (nonlinear_arith)
            requires
                amount_in <= 0xffff_ffff_ffff_ffffu64,
                fee_bps <= 0xffffu16,
        ;
    }
    let fee = match (amount_in as u128).checked_mul(fee_bps as u128) {
        Some(v) => match v.checked_div(10_000) {
            Some(f) => f,
            None => return Err(AmmError::MathOverflow),
        },
        None => return Err(AmmError::MathOverflow),
    };
    let amount_in_after_fee = match (amount_in as u128).checked_sub(fee) {
        Some(v) => v,
        None => return Err(AmmError::MathOverflow),
    };
    proof {
        lemma_u64_product_fits(reserve_out, amount_in_after_fee as u64);
    }
    let numerator = match (reserve_out as u128).checked_mul(amount_in_after_fee) {
        Some(v) => v,
        None => return Err(AmmError::MathOverflow),
    };
    let denominator = match (reserve_in as u128).checked_add(amount_in_after_fee) {
        Some(v) => v,
        None => return Err(AmmError::MathOverflow),
    };
    let amount_out = match numerator.checked_div(denominator) {
        Some(v) => v,
        None => return Err(AmmError::MathOverflow),
    };
    proof {
        assert(amount_out < reserve_out) by (nonlinear_arith)
            requires
                amount_out == numerator / denominator,
                numerator == reserve_out * amount_in_after_fee,
                denominator == reserve_in + amount_in_after_fee,
                reserve_in > 0,
                reserve_out > 0,
                amount_in_after_fee >= 0,
        {
            assert(numerator < reserve_out * denominator);
            assert(amount_out * denominator <= numerator);
        }
    }
    Ok(amount_out as u64)
}

/// Tokens of one side returned for burning `lp_amount` LP tokens out of `total_lp_supply`,
/// when the pool holds `reserve_amount` of that token:
/// `lp_amount * reserve_amount / total_lp_supply`, rounded down; `MathOverflow` where that
/// does not fit in a `u64`.
pub fn withdraw_amount(lp_amount: u64, reserve_amount: u64, total_lp_supply: u64) -> (r: Result<
    u64,
    AmmError,
>)
    ensures
        r == withdraw_spec(lp_amount, reserve_amount, total_lp_supply),
{
    if !(total_lp_supply > 0) {
        return Err(AmmError::InsufficientLiquidity);
    }
    if !(lp_amount > 0) {
        return Err(AmmError::ZeroAmount);
    }
    proof {
        lemma_u64_product_fits(lp_amount, reserve_amount);
    }
    let numerator = match (lp_amount as u128).checked_mul(reserve_amount as u128) {
        Some(v) => v,
        None => return Err(AmmError::MathOverflow),
    };
    let result = match numerator.checked_div(total_lp_supply as u128) {
        Some(v) => v,
        None => return Err(AmmError::MathOverflow),
    };
    narrow_to_u64(result)
}

} // verus!
