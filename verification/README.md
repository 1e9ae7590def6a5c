# jex-sc-pair

A two-token liquidity pool (a pair of ESDT tokens and an LP token), written
as a verified state machine in Verus.

- `src/` is the pool's logic. `state.rs` holds the stored state (`Pair`) and
  its model (`PairModel`); `pausable.rs`, `fees.rs`, `liquidity.rs`,
  `swap.rs` and `analytics.rs` hold the modules; `contract.rs` the endpoints.
  Every operation is specified by a spec function over the model that gives
  either the next state and the actions for the chain (transfers, LP mint and
  burn, system calls), or the error; a refused request leaves the state
  unchanged. `math.rs` computes `a * b / c` exactly on 128-bit amounts.
  `laws.rs` proves properties that span operations.
- `app/` is the contract glue: storage, call values, sending, and the
  owner-only checks.
- `tests/` runs the endpoints on concrete pools.

Swaps are priced at constant product: `amount_in` against reserves
`(in, out)` gives `amount_in * out / (in + amount_in)` before fees, so the
product of the reserves never falls.

The endpoints `swapTokensFixedOutput` and `estimateAmountIn` are not
provided: how a fixed output is priced is not defined for this pool.

Amounts are held in 128 bits. Where a true amount (a reserve, a supply, a
sum of fees) would not fit, the request is refused with `AmountOverflow`;
the contracts state exactly where.
