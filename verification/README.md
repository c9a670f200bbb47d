# grant_contracts

Streaming grants for Soroban: funds accrue to a recipient at a flow rate up
to a total, under a bit-packed status mask (active, paused, completed,
cancelled, ended by the grantee, and descriptive flags). Grants may stream
several tokens at once, and a treasury may invest idle funds in a yield
strategy while keeping a reserve for grantees.

## Layout

- `src/` — the verified library (Verus). Every operation is a method on a
  plain state value and is specified against a mathematical view of that
  state:
  - `status.rs` — status flags, their bit operations and the transition rules;
  - `grant.rs` — a grant and its settlement (accrual up to the total);
  - `contract.rs` — the grant contract: creation, pausing, resuming,
    cancelling, flags, rate changes, withdrawal and self-termination;
  - `multi_token.rs` — grants that stream several tokens;
  - `yield_treasury.rs` — the yield treasury: investing, divesting, reserve;
  - `yield_enhanced.rs` — grants whose idle funds the treasury may invest;
  - `laws.rs` — properties that span several operations;
  - `address.rs`, `error.rs`, `benchmarks.rs` — shared types.
- `tests/` — tests of the library.
- `app/` — the Soroban contracts: storage, authorization, ledger time, token
  transfers and events around the library's decisions.

A call carries an `Invocation`: the account whose authorization it holds and
the ledger time. Token balances are read by the contracts in `app/` and
handed to the library as plain numbers.
