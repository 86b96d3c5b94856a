# ore_stats

Statistics for the ORE mining game on Solana: settling rounds into stored
records, rebuilding rounds from their transactions, analyzing stored
transactions, caching the EVORE program's accounts, and the figures behind
the admin and chart APIs. The library is written in Verus: its functions
carry contracts that Verus proves. Calls into outside crates (ORE, base58,
base64, zstd, SHA-256, Argon2, random numbers) go through small trusted
wrappers whose contracts state what those crates do.

Layout:

- `src/` — the verified library, one module per concern: `chain` (the
  program's accounts and the calls into the ORE crates), `rewards`,
  `finalize`, `reconstruct`, `transactions`, `account_data`, `automation`,
  `evore_cache` (on the sorted map of `keyed`), `live`, `refined`,
  `rpc_naming`, `rpc_metrics`, `auth`, `records`, `storage`, `charts`,
  `rounds_admin`, `admin`, `backfill_queue`, and `text` for the string
  helpers.
- `tests/` — tests of the library on concrete values.
- `app/` — the service side: chain accounts and stored JSON read into the
  library's types, client addresses, floating-point figures, and
  serializable copies of answers.
