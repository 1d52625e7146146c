# phapchain

A small account-based blockchain, verified with Verus.

- `src/account.rs` — accounts and the table of accounts by id.
- `src/world.rs` — the `WorldState` trait: what the accounts look like to transactions.
- `src/transaction.rs` — transactions, what executing one does, and their BLAKE2s-256 digests.
- `src/clock.rs` — timestamps read from the system clock.
- `src/block.rs` — blocks, sealed by a BLAKE2s-256 digest over their transactions and their link.
- `src/chain.rs` — the chain: appending blocks (with roll-back) and checking the whole chain.
- `src/laws.rs` — proved properties that relate these operations.
- `src/text.rs`, `src/digest.rs` — decimal numerals, `{:?}` of strings, and the `blake2` call.
- `app/main.rs` — a demo that builds a chain and shows that tampering is detected.

Digests are computed by the `blake2` crate (BLAKE2s-256); the contracts name the
digest function rather than restate it, so properties such as "a changed
transaction changes the hash" rest on the hash function and are not proved here.
