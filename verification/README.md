# constant_product_amm

The arithmetic and the decisions of a constant-product market maker (x * y = k, in the
style of Uniswap v2), verified with Verus.

- `src/math.rs`: LP amounts for first and later deposits, swap output after the fee,
  withdrawal amounts; integer square root by Newton's method.
- `src/instructions/`: what each instruction decides from the pool's state and balances
  (a new pool's state, a deposit plan, a swap's payout, a withdrawal plan), or which error
  it fails with.
- `src/properties.rs`: the pool's laws (the reserve product never falls through a swap,
  rounding favors the pool, withdrawals never pay beyond their share, ...).
- `app/`: the on-chain program around the library: account validation, balances and token
  transfers.
