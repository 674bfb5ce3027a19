use vstd::prelude::*;
use crate::instructions::add_liquidity::add_liquidity_spec;
use crate::instructions::remove_liquidity::remove_liquidity_spec;
use crate::instructions::swap::swap_handler_spec;
use crate::math::{
    checked_quotient,
    fee_amount,
    floor_sqrt,
    is_floor_sqrt,
    lemma_floor_sqrt_exists,
    proportional_lp_spec,
    swap_output,
    swap_output_spec,
    withdraw_spec,
};
use crate::state::{AccountKey, Pool};

verus! {

/// A swap's payout, times the input reserve after the fee-reduced input is added, never
/// exceeds what the exact ratio would pay: rounding favors the pool.
pub proof fn lemma_swap_rounds_toward_pool(
    amount_in: u64,
    reserve_in: u64,
    reserve_out: u64,
    fee_bps: u16,
)
    requires
        swap_output_spec(amount_in, reserve_in, reserve_out, fee_bps) is Ok,
    ensures
        ({
            let after_fee = amount_in - fee_amount(amount_in as int, fee_bps as int);
            let out = swap_output_spec(amount_in, reserve_in, reserve_out, fee_bps)->Ok_0;
            &&& 0 <= after_fee <= amount_in
            &&& 0 <= out < reserve_out
            &&& out * (reserve_in + after_fee) <= reserve_out * after_fee
        }),
{
    let after_fee = amount_in - fee_amount(amount_in as int, fee_bps as int);
    let exact = swap_output(after_fee, reserve_in as int, reserve_out as int);
    assert(0 <= exact < reserve_out && exact * (reserve_in + after_fee) <= reserve_out * after_fee)
        by (nonlinear_arith)
        requires
            exact == reserve_out * after_fee / (reserve_in + after_fee),
            reserve_in > 0,
            reserve_out > 0,
            0 <= after_fee,
    {
        assert(reserve_out * after_fee < reserve_out * (reserve_in + after_fee));
    }
}

/// A swap never lowers the product of the two reserves: after the whole input (fee
/// included) enters one vault and the payout leaves the other,
/// `(reserve_in + amount_in) * (reserve_out - amount_out) >= reserve_in * reserve_out`.
pub proof fn lemma_swap_keeps_product(
    amount_in: u64,
    reserve_in: u64,
    reserve_out: u64,
    fee_bps: u16,
)
    requires
        swap_output_spec(amount_in, reserve_in, reserve_out, fee_bps) is Ok,
    ensures
        ({
            let out = swap_output_spec(amount_in, reserve_in, reserve_out, fee_bps)->Ok_0;
            &&& out < reserve_out
            &&& (reserve_in + amount_in) * (reserve_out - out) >= reserve_in * reserve_out
        }),
{
    lemma_swap_rounds_toward_pool(amount_in, reserve_in, reserve_out, fee_bps);
    let after_fee = amount_in - fee_amount(amount_in as int, fee_bps as int);
    let exact = swap_output_spec(amount_in, reserve_in, reserve_out, fee_bps)->Ok_0 as int;
    assert((reserve_in + amount_in) * (reserve_out - exact) >= reserve_in * reserve_out)
        by (nonlinear_arith)
        requires
            exact * (reserve_in + after_fee) <= reserve_out * after_fee,
            0 <= exact < reserve_out,
            0 <= after_fee <= amount_in,
            reserve_in > 0,
    {
        assert((reserve_out - exact) * (reserve_in + after_fee) >= reserve_out * reserve_in);
        assert((reserve_in + amount_in) * (reserve_out - exact) >= (reserve_in + after_fee) * (
        reserve_out - exact));
    }
}

/// The constant-product invariant of a swap instruction: when `swap_handler` accepts a
/// swap, the vault balances after its transfers have a product no smaller than before.
pub proof fn lemma_swap_handler_keeps_product(
    amount_in: u64,
    min_amount_out: u64,
    pool: Pool,
    vault_in: AccountKey,
    vault_out: AccountKey,
    reserve_in: u64,
    reserve_out: u64,
)
    requires
        swap_handler_spec(
            amount_in,
            min_amount_out,
            pool,
            vault_in,
            vault_out,
            reserve_in,
            reserve_out,
        ) is Ok,
    ensures
        ({
            let out = swap_handler_spec(
                amount_in,
                min_amount_out,
                pool,
                vault_in,
                vault_out,
                reserve_in,
                reserve_out,
            )->Ok_0;
            &&& min_amount_out <= out < reserve_out
            &&& (reserve_in + amount_in) * (reserve_out - out) >= reserve_in * reserve_out
        }),
{
    lemma_swap_keeps_product(amount_in, reserve_in, reserve_out, pool.fee_bps);
}

/// A higher fee never pays out more: with the same input and reserves, a swap at
/// `high_fee_bps` pays at most what one at `low_fee_bps` pays.
pub proof fn lemma_higher_fee_pays_less(
    amount_in: u64,
    reserve_in: u64,
    reserve_out: u64,
    low_fee_bps: u16,
    high_fee_bps: u16,
)
    requires
        low_fee_bps <= high_fee_bps,
        swap_output_spec(amount_in, reserve_in, reserve_out, high_fee_bps) is Ok,
    ensures
        swap_output_spec(amount_in, reserve_in, reserve_out, low_fee_bps) is Ok,
        swap_output_spec(amount_in, reserve_in, reserve_out, high_fee_bps)->Ok_0
            <= swap_output_spec(amount_in, reserve_in, reserve_out, low_fee_bps)->Ok_0,
{
    let fee_low = fee_amount(amount_in as int, low_fee_bps as int);
    let fee_high = fee_amount(amount_in as int, high_fee_bps as int);
    assert(0 <= fee_low <= fee_high) by (nonlinear_arith)
        requires
            fee_low == amount_in * low_fee_bps / 10_000,
            fee_high == amount_in * high_fee_bps / 10_000,
            0 <= low_fee_bps <= high_fee_bps,
            0 <= amount_in,
    {
        assert(amount_in * low_fee_bps <= amount_in * high_fee_bps);
    }
    lemma_swap_output_monotone(
        amount_in - fee_high,
        amount_in - fee_low,
        reserve_in as int,
        reserve_out as int,
    );
}

/// The swap payout grows with the input that remains after the fee.
proof fn lemma_swap_output_monotone(f_low: int, f_high: int, reserve_in: int, reserve_out: int)
    requires
        0 <= f_low <= f_high,
        reserve_in > 0,
        reserve_out > 0,
    ensures
        0 <= swap_output(f_low, reserve_in, reserve_out) <= swap_output(
            f_high,
            reserve_in,
            reserve_out,
        ) < reserve_out,
{
    let out_low = swap_output(f_low, reserve_in, reserve_out);
    let out_high = swap_output(f_high, reserve_in, reserve_out);
    assert(0 <= out_low <= out_high < reserve_out) by (nonlinear_arith)
        requires
            out_low == reserve_out * f_low / (reserve_in + f_low),
            out_high == reserve_out * f_high / (reserve_in + f_high),
            0 <= f_low <= f_high,
            reserve_in > 0,
            reserve_out > 0,
    {
        assert(reserve_out * f_high < reserve_out * (reserve_in + f_high));
        assert(out_low * (reserve_in + f_low) <= reserve_out * f_low);
        assert(reserve_out * f_low * (reserve_in + f_high) <= reserve_out * f_high * (reserve_in
            + f_low));
        assert(out_low * (reserve_in + f_low) * (reserve_in + f_high) <= reserve_out * f_high * (
        reserve_in + f_low));
        assert(out_low * (reserve_in + f_high) <= reserve_out * f_high);
    }
}

/// A larger input never pays out less: with the same reserves and fee, a swap of
/// `large_in` pays at least what a swap of `small_in <= large_in` pays.
pub proof fn lemma_larger_input_pays_more(
    small_in: u64,
    large_in: u64,
    reserve_in: u64,
    reserve_out: u64,
    fee_bps: u16,
)
    requires
        small_in <= large_in,
        swap_output_spec(small_in, reserve_in, reserve_out, fee_bps) is Ok,
        swap_output_spec(large_in, reserve_in, reserve_out, fee_bps) is Ok,
    ensures
        swap_output_spec(small_in, reserve_in, reserve_out, fee_bps)->Ok_0
            <= swap_output_spec(large_in, reserve_in, reserve_out, fee_bps)->Ok_0,
{
    let q_small = fee_amount(small_in as int, fee_bps as int);
    let q_large = fee_amount(large_in as int, fee_bps as int);
    assert(small_in - q_small <= large_in - q_large) by (nonlinear_arith)
        requires
            q_small == small_in * fee_bps / 10_000,
            q_large == large_in * fee_bps / 10_000,
            q_small <= small_in,
            q_large <= large_in,
            0 <= small_in <= large_in,
            0 <= fee_bps,
    {
        assert(q_small * 10_000 <= small_in * fee_bps < (q_small + 1) * 10_000);
        assert(q_large * 10_000 <= large_in * fee_bps < (q_large + 1) * 10_000);
        if fee_bps <= 10_000 {
            assert((large_in - small_in) * fee_bps <= (large_in - small_in) * 10_000);
        } else {
            assert(small_in * fee_bps >= small_in * 10_000);
            assert(large_in * fee_bps >= large_in * 10_000);
        }
    }
    lemma_swap_output_monotone(
        small_in - q_small,
        large_in - q_large,
        reserve_in as int,
        reserve_out as int,
    );
}

/// A withdrawal never pays more than its share: `amount_out * total_lp_supply` is at most
/// `lp_amount * reserve_amount`; and burning at most the whole supply never pays out more
/// than the reserve.
pub proof fn lemma_withdraw_within_share(lp_amount: u64, reserve_amount: u64, total_lp_supply: u64)
    requires
        withdraw_spec(lp_amount, reserve_amount, total_lp_supply) is Ok,
    ensures
        ({
            let out = withdraw_spec(lp_amount, reserve_amount, total_lp_supply)->Ok_0;
            &&& out * total_lp_supply <= lp_amount * reserve_amount
            &&& lp_amount <= total_lp_supply ==> out <= reserve_amount
        }),
{
    let out = withdraw_spec(lp_amount, reserve_amount, total_lp_supply)->Ok_0;
    assert(out * total_lp_supply <= lp_amount * reserve_amount) by (nonlinear_arith)
        requires
            out == (lp_amount * reserve_amount) / total_lp_supply as int,
            total_lp_supply > 0,
            lp_amount * reserve_amount >= 0,
    ;
    if lp_amount <= total_lp_supply {
        assert(out <= reserve_amount) by (nonlinear_arith)
            requires
                out * total_lp_supply <= lp_amount * reserve_amount,
                lp_amount <= total_lp_supply,
                total_lp_supply > 0,
                reserve_amount >= 0,
        {
            assert(lp_amount * reserve_amount <= total_lp_supply * reserve_amount);
        }
    }
}

/// A withdrawal never lowers what each remaining LP token is backed by: for both tokens,
/// `(reserve - amount_out) * lp_supply >= reserve * (lp_supply - lp_amount)`.
pub proof fn lemma_withdraw_keeps_share_value(
    lp_amount: u64,
    min_amount_a: u64,
    min_amount_b: u64,
    reserve_a: u64,
    reserve_b: u64,
    lp_supply: u64,
)
    requires
        remove_liquidity_spec(lp_amount, min_amount_a, min_amount_b, reserve_a, reserve_b, lp_supply)
            is Ok,
    ensures
        ({
            let plan = remove_liquidity_spec(
                lp_amount,
                min_amount_a,
                min_amount_b,
                reserve_a,
                reserve_b,
                lp_supply,
            )->Ok_0;
            &&& min_amount_a <= plan.amount_a_out
            &&& min_amount_b <= plan.amount_b_out
            &&& (reserve_a - plan.amount_a_out) * lp_supply >= reserve_a * (lp_supply - lp_amount)
            &&& (reserve_b - plan.amount_b_out) * lp_supply >= reserve_b * (lp_supply - lp_amount)
        }),
{
    lemma_withdraw_within_share(lp_amount, reserve_a, lp_supply);
    lemma_withdraw_within_share(lp_amount, reserve_b, lp_supply);
    let plan = remove_liquidity_spec(
        lp_amount,
        min_amount_a,
        min_amount_b,
        reserve_a,
        reserve_b,
        lp_supply,
    )->Ok_0;
    assert((reserve_a - plan.amount_a_out) * lp_supply >= reserve_a * (lp_supply - lp_amount))
        by (nonlinear_arith)
        requires
            plan.amount_a_out * lp_supply <= lp_amount * reserve_a,
    ;
    assert((reserve_b - plan.amount_b_out) * lp_supply >= reserve_b * (lp_supply - lp_amount))
        by (nonlinear_arith)
        requires
            plan.amount_b_out * lp_supply <= lp_amount * reserve_b,
    ;
}

/// The first deposit into a pool takes both amounts in full and mints the integer square
/// root of their product.
pub proof fn lemma_first_deposit_mints_sqrt(
    amount_a: u64,
    amount_b: u64,
    min_lp_out: u64,
    reserve_a: u64,
    reserve_b: u64,
)
    requires
        add_liquidity_spec(amount_a, amount_b, min_lp_out, reserve_a, reserve_b, 0) is Ok,
    ensures
        ({
            let plan = add_liquidity_spec(amount_a, amount_b, min_lp_out, reserve_a, reserve_b, 0)->Ok_0;
            &&& plan.used_a == amount_a
            &&& plan.used_b == amount_b
            &&& is_floor_sqrt(plan.lp_to_mint as int, amount_a * amount_b)
            &&& min_lp_out <= plan.lp_to_mint
        }),
{
    let n = amount_a * amount_b;
    lemma_floor_sqrt_exists(n);
    let s = floor_sqrt(n);
    assert(s <= 0xffff_ffff_ffff_ffff) by (nonlinear_arith)
        requires
            0 <= s,
            s * s <= n,
            n == amount_a * amount_b,
            0 <= amount_a <= 0xffff_ffff_ffff_ffffu64,
            0 <= amount_b <= 0xffff_ffff_ffff_ffffu64,
    {
        assert(amount_a * amount_b <= 0xffff_ffff_ffff_ffff * 0xffff_ffff_ffff_ffff);
        if s > 0xffff_ffff_ffff_ffff {
            assert(s * s >= 0x1_0000_0000_0000_0000 * 0x1_0000_0000_0000_0000);
        }
    }
}

/// A later deposit mints the smaller of the LP amounts its two sides would earn, takes the
/// side that earns it in full, and takes the other side at no more than the ratio of the
/// reserves.
pub proof fn lemma_later_deposit_is_proportional(
    amount_a: u64,
    amount_b: u64,
    min_lp_out: u64,
    reserve_a: u64,
    reserve_b: u64,
    lp_supply: u64,
)
    requires
        lp_supply > 0,
        add_liquidity_spec(amount_a, amount_b, min_lp_out, reserve_a, reserve_b, lp_supply) is Ok,
    ensures
        ({
            let plan = add_liquidity_spec(
                amount_a,
                amount_b,
                min_lp_out,
                reserve_a,
                reserve_b,
                lp_supply,
            )->Ok_0;
            let lp_from_a = proportional_lp_spec(amount_a, reserve_a, lp_supply)->Ok_0;
            let lp_from_b = proportional_lp_spec(amount_b, reserve_b, lp_supply)->Ok_0;
            &&& reserve_a > 0
            &&& reserve_b > 0
            &&& plan.lp_to_mint == if lp_from_a <= lp_from_b { lp_from_a } else { lp_from_b }
            &&& lp_from_a <= lp_from_b ==> {
                &&& plan.used_a == amount_a
                &&& plan.used_b * reserve_a <= amount_a * reserve_b
                &&& plan.lp_to_mint * reserve_a <= plan.used_a * lp_supply
            }
            &&& lp_from_b < lp_from_a ==> {
                &&& plan.used_b == amount_b
                &&& plan.used_a * reserve_b <= amount_b * reserve_a
                &&& plan.lp_to_mint * reserve_b <= plan.used_b * lp_supply
            }
        }),
{
    let lp_from_a = proportional_lp_spec(amount_a, reserve_a, lp_supply)->Ok_0;
    let lp_from_b = proportional_lp_spec(amount_b, reserve_b, lp_supply)->Ok_0;
    lemma_product_nonnegative(amount_a, lp_supply);
    lemma_product_nonnegative(amount_b, lp_supply);
    lemma_product_nonnegative(amount_a, reserve_b);
    lemma_product_nonnegative(amount_b, reserve_a);
    lemma_quotient_within_ratio(amount_a * lp_supply, reserve_a as int);
    lemma_quotient_within_ratio(amount_b * lp_supply, reserve_b as int);
    if lp_from_a <= lp_from_b {
        lemma_quotient_within_ratio(amount_a * reserve_b, reserve_a as int);
    } else {
        lemma_quotient_within_ratio(amount_b * reserve_a, reserve_b as int);
    }
}

/// Splitting a withdrawal never pays more: burning `lp_first` and then `lp_second` from the
/// pool that is left pays at most what burning both at once pays, as long as together they
/// are at most the supply.
pub proof fn lemma_split_withdrawal_pays_no_more(
    lp_first: u64,
    lp_second: u64,
    reserve: u64,
    supply: u64,
)
    requires
        lp_first + lp_second <= supply,
        withdraw_spec(lp_first, reserve, supply) is Ok,
        withdraw_spec(
            lp_second,
            (reserve - withdraw_spec(lp_first, reserve, supply)->Ok_0) as u64,
            (supply - lp_first) as u64,
        ) is Ok,
    ensures
        withdraw_spec((lp_first + lp_second) as u64, reserve, supply) is Ok,
        withdraw_spec(lp_first, reserve, supply)->Ok_0 + withdraw_spec(
            lp_second,
            (reserve - withdraw_spec(lp_first, reserve, supply)->Ok_0) as u64,
            (supply - lp_first) as u64,
        )->Ok_0 <= withdraw_spec((lp_first + lp_second) as u64, reserve, supply)->Ok_0,
{
    lemma_withdraw_within_share(lp_first, reserve, supply);
    let out1 = withdraw_spec(lp_first, reserve, supply)->Ok_0;
    let rest = (reserve - out1) as u64;
    let rest_supply = (supply - lp_first) as u64;
    lemma_withdraw_within_share(lp_second, rest, rest_supply);
    let out2 = withdraw_spec(lp_second, rest, rest_supply)->Ok_0;
    let both = (lp_first + lp_second) as u64;
    lemma_product_nonnegative(both, reserve);
    let combined = (both * reserve) / supply as int;
    let d = supply - lp_first;
    let p = out1 * supply;
    let q = lp_first * reserve;
    // Burning `lp_second` of the rest is bounded through the rest's own share.
    assert(out2 * d * supply <= lp_second * reserve * supply - lp_second * p) by (nonlinear_arith)
        requires
            out2 * d <= lp_second * (reserve - out1),
            p == out1 * supply,
            supply > 0,
    ;
    assert(p * d <= q * d) by (nonlinear_arith)
        requires
            p <= q,
            d >= 0,
    ;
    assert((q - p) * (d - lp_second) >= 0) by (nonlinear_arith)
        requires
            p <= q,
            d >= lp_second,
    ;
    assert(lp_second * reserve * supply == lp_second * reserve * d + lp_second * q)
        by (nonlinear_arith)
        requires
            d == supply - lp_first,
            q == lp_first * reserve,
    ;
    assert((out1 + out2) * supply * d <= (lp_first + lp_second) * reserve * d) by (nonlinear_arith)
        requires
            out2 * d * supply <= lp_second * reserve * supply - lp_second * p,
            lp_second * reserve * supply == lp_second * reserve * d + lp_second * q,
            (q - p) * (d - lp_second) >= 0,
            p == out1 * supply,
            q == lp_first * reserve,
    ;
    assert((out1 + out2) * supply <= both * reserve) by (nonlinear_arith)
        requires
            (out1 + out2) * supply * d <= (lp_first + lp_second) * reserve * d,
            both == lp_first + lp_second,
            d > 0,
    ;
    assert(out1 + out2 <= combined <= reserve) by (nonlinear_arith)
        requires
            combined == (both * reserve) / supply as int,
            (out1 + out2) * supply <= both * reserve,
            both <= supply,
            supply > 0,
            0 <= reserve,
            0 <= both,
    {
        assert(both * reserve <= supply * reserve);
    }
}

/// What a deposit's LP tokens redeem for right after it: if the pool held `supply` LP tokens
/// backed by `r_full` and `r_match`, and `m` new ones are minted for `u_full` taken in full
/// and `u_match` taken at the ratio of the reserves, then burning the `m` tokens against
/// the grown pool pays at most `u_full` and `u_match`.
proof fn lemma_redeem_after_deposit(
    m: int,
    supply: int,
    r_full: int,
    u_full: int,
    r_match: int,
    u_match: int,
)
    requires
        supply > 0,
        r_full > 0,
        m > 0,
        0 <= u_full,
        0 <= r_match,
        0 <= u_match,
        m * r_full <= u_full * supply,
        u_full * r_match < (u_match + 1) * r_full,
    ensures
        (m * (r_full + u_full)) / (supply + m) <= u_full,
        (m * (r_match + u_match)) / (supply + m) <= u_match,
{
    let q_full = (m * (r_full + u_full)) / (supply + m);
    let q_match = (m * (r_match + u_match)) / (supply + m);
    assert(q_full <= u_full) by (nonlinear_arith)
        requires
            q_full == (m * (r_full + u_full)) / (supply + m),
            supply > 0,
            m > 0,
            u_full >= 0,
            r_full >= 0,
            m * r_full <= u_full * supply,
    {
        assert(q_full * (supply + m) <= m * (r_full + u_full));
        assert(m * (r_full + u_full) <= u_full * (supply + m));
    }
    assert(q_match <= u_match) by (nonlinear_arith)
        requires
            q_match == (m * (r_match + u_match)) / (supply + m),
            supply > 0,
            m > 0,
            r_full > 0,
            u_full >= 0,
            r_match >= 0,
            u_match >= 0,
            m * r_full <= u_full * supply,
            u_full * r_match < (u_match + 1) * r_full,
    {
        assert(m * r_full * r_match <= u_full * supply * r_match);
        assert(u_full * r_match * supply < (u_match + 1) * r_full * supply);
        assert(m * r_match * r_full < (u_match + 1) * supply * r_full);
        assert(m * r_match < (u_match + 1) * supply);
        assert(m * (r_match + u_match) < (u_match + 1) * (supply + m));
        assert(q_match * (supply + m) <= m * (r_match + u_match));
    }
}

/// A deposit followed at once by a withdrawal of the LP tokens it minted never takes value
/// out of the pool: into a pool that has LP tokens out, or whose vaults are both empty, the
/// redemption pays at most what the deposit took of each token.
pub proof fn lemma_deposit_then_withdraw_returns_no_more(
    amount_a: u64,
    amount_b: u64,
    min_lp_out: u64,
    reserve_a: u64,
    reserve_b: u64,
    lp_supply: u64,
)
    requires
        lp_supply > 0 || (reserve_a == 0 && reserve_b == 0),
        add_liquidity_spec(amount_a, amount_b, min_lp_out, reserve_a, reserve_b, lp_supply) is Ok,
        ({
            let plan = add_liquidity_spec(
                amount_a,
                amount_b,
                min_lp_out,
                reserve_a,
                reserve_b,
                lp_supply,
            )->Ok_0;
            &&& reserve_a + plan.used_a <= u64::MAX
            &&& reserve_b + plan.used_b <= u64::MAX
            &&& lp_supply + plan.lp_to_mint <= u64::MAX
        }),
    ensures
        ({
            let plan = add_liquidity_spec(
                amount_a,
                amount_b,
                min_lp_out,
                reserve_a,
                reserve_b,
                lp_supply,
            )->Ok_0;
            let new_supply = (lp_supply + plan.lp_to_mint) as u64;
            let out_a = withdraw_spec(plan.lp_to_mint, (reserve_a + plan.used_a) as u64, new_supply);
            let out_b = withdraw_spec(plan.lp_to_mint, (reserve_b + plan.used_b) as u64, new_supply);
            &&& out_a is Ok && out_a->Ok_0 <= plan.used_a
            &&& out_b is Ok && out_b->Ok_0 <= plan.used_b
        }),
{
    let plan = add_liquidity_spec(
        amount_a,
        amount_b,
        min_lp_out,
        reserve_a,
        reserve_b,
        lp_supply,
    )->Ok_0;
    let m = plan.lp_to_mint as int;
    let ua = plan.used_a as int;
    let ub = plan.used_b as int;
    lemma_product_nonnegative(amount_a, lp_supply);
    lemma_product_nonnegative(amount_b, lp_supply);
    lemma_product_nonnegative(amount_a, reserve_b);
    lemma_product_nonnegative(amount_b, reserve_a);
    if lp_supply == 0 {
        assert((m * ua) / m == ua && (m * ub) / m == ub) by (nonlinear_arith)
            requires
                m > 0,
                ua >= 0,
                ub >= 0,
        ;
    } else {
        let lp_from_a = proportional_lp_spec(amount_a, reserve_a, lp_supply)->Ok_0;
        let lp_from_b = proportional_lp_spec(amount_b, reserve_b, lp_supply)->Ok_0;
        lemma_quotient_within_ratio(amount_a * lp_supply, reserve_a as int);
        lemma_quotient_within_ratio(amount_b * lp_supply, reserve_b as int);
        if lp_from_a <= lp_from_b {
            let n = amount_a * reserve_b;
            assert(n < (ub + 1) * reserve_a) by (nonlinear_arith)
                requires
                    ub == n / reserve_a as int,
                    reserve_a > 0,
            ;
            lemma_redeem_after_deposit(m, lp_supply as int, reserve_a as int, ua, reserve_b as int, ub);
        } else {
            let n = amount_b * reserve_a;
            assert(n < (ua + 1) * reserve_b) by (nonlinear_arith)
                requires
                    ua == n / reserve_b as int,
                    reserve_b > 0,
            ;
            lemma_redeem_after_deposit(m, lp_supply as int, reserve_b as int, ub, reserve_a as int, ua);
        }
    }
}

proof fn lemma_product_nonnegative(a: u64, b: u64)
    ensures
        a * b >= 0,
{
    assert(a * b >= 0) by (nonlinear_arith)
        requires
            a >= 0,
            b >= 0,
    ;
}

proof fn lemma_quotient_within_ratio(numerator: int, denominator: int)
    requires
        denominator > 0,
        numerator >= 0,
        checked_quotient(numerator, denominator) is Ok,
    ensures
        checked_quotient(numerator, denominator)->Ok_0 * denominator <= numerator,
{
    let q = checked_quotient(numerator, denominator)->Ok_0 as int;
    assert(q * denominator <= numerator) by (nonlinear_arith)
        requires
            q == numerator / denominator,
            denominator > 0,
    ;
}

} // verus!
