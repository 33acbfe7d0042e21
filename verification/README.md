# signet_sdk

The logic of the Signet SDK as a Verus library: every function in `src/`
carries a contract that Verus proves, and the properties that span several
functions stand as public proof functions (`law_*`).

## Layout

- `src/primitives.rs` — hashes, addresses and a 256-bit integer.
- `src/hash.rs` — Keccak-256 (computed by `alloy`).
- `src/journal.rs`, `src/journal_set.rs` — block journals, their encoding
  and decoding, and sets of journals that form a consistent history.
- `src/orders.rs`, `src/preflight.rs` — signed orders, order predicates,
  Permit2 nonce bitmaps and preflight checks.
- `src/filler.rs`, `src/fee_policy.rs` — filler options and errors, and the
  plan of the bundles that carry fills.
- `src/events.rs`, `src/extract.rs`, `src/block.rs` — host-chain events and
  their extraction into per-block extracts for the rollup.
- `src/interest.rs`, `src/filters.rs`, `src/subs.rs` — RPC log filters,
  block filters and subscriptions.
- `src/eth.rs`, `src/receipts.rs`, `src/signet.rs`, `src/tx_cache.rs` —
  decisions of the `eth` and `signet` RPC namespaces, receipts, and the
  transaction cache's wire shapes.
- `tests/` — tests of the library.
- `app/` — ordinary Rust around the library: conversions to `alloy`
  types, error types with `Display`, the wall clock and stream adapters.

Network access, the node's database, the EVM and ABI decoding are not
part of the library: its functions take what those produce as plain
values.
