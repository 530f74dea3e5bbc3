# volatility_shield

The XHedge volatility shield vault: an ERC-4626 style share vault with a
withdrawal queue, guardian multisig governance with a timelock, oracle
target allocations, rebalancing with slippage checks, strategy health
monitoring, harvesting, caps and multi-asset accounting.

- `src/` is the vault's logic, verified with Verus.  The whole contract
  storage is modelled by `vault::VolatilityShield`, whose view is
  `model::VaultView`.  Each entry point is a method with an exact contract
  over that view; where the vault would abort, a `*_halt` / `*_verdict`
  check names the reason, and the entry point requires that there is none.
  A governance rebalance is executed in two steps: the proposal hands out a
  `RebalanceOrder`, and `complete_rebalance` marks it executed only when
  every strategy's final balance passed its slippage check.
  `laws.rs` states and proves the properties that span operations.
- `app/` is the Soroban contract around the library: storage, authorisation,
  token transfers, cross-contract calls to strategies and events.
- `tests/` runs the library on concrete scenarios.

The contract keeps its state in Soroban's `Map`, `Vec` and `Address`.  Those
are handles to objects of the Soroban host: every operation on them is a
host call through an `Env`, made at the storage edge.  The library therefore
holds the same state as plain values: std `Vec` and `HashMap`, with each
address as a `u64` id (`types::AccountId`) that `app/accounts.rs` maps to
and from its `Address`.  `app/records.rs` converts the whole state when it
loads and saves it.  The one-entry-per-key rule that a Soroban `Map` gave
is stated instead: the oracle's allocations refuse a repeated strategy
(`allocation::validate_allocations`), and the strategy registry never holds
a strategy twice (`laws::law_registry_has_no_duplicates`).

