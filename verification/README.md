# mars_rover

Building blocks of Mars credit accounts, verified with Verus.

- `src/` is the library. Every function states what it returns in its
  contract, and Verus proves it:
  - `uint`, `math`, `format`, `coin`: 256- and 512-bit amounts, 18-digit
    decimals, rounding up, and their decimal text; the arithmetic itself is done
    by `cosmwasm_std`.
  - `health`: the value of collateral and debt, adjusted by max LTV and
    liquidation threshold, and the two health factors.
  - `admin`: the two-step transfer of a contract's admin role, as a state
    machine, with its laws.
  - `reentrancy_guard`: the guard raised around calls to other contracts.
  - `adapters`: vault configuration checks, oracle valuation, descriptions.
  - `reply`: reading the unlocking position out of a vault's reply.
  - `zapper`: which coins were sent, who may call back, which pool an LP token
    belongs to, what is joined and returned.
  - `mock_vault`: lockups of a test vault and the assets shares are worth.
- `tests/` runs the library on concrete values.
- `app/` is the contract side: storage, queries to other contracts, messages and
  responses, around the library's decisions.
