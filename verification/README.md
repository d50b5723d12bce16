# sync-engine

The logic of a federated sync engine, verified with Verus: governance registries and
policy evaluation, dependency analysis, conflict resolution, recovery and replay state,
runtime scheduling and budgets, sync protocol steps and integrity checks.

- `src/` — the verified library (`sync_engine`). Calls into outside crates (zstd,
  ed25519-dalek, sha2, hex, serde_json, semver, chrono, uuid, rand) stand behind small
  trusted wrappers whose contracts are stated beside them.
- `tests/` — tests of the library through its public functions.
- `app/` — the service process and what the library does not hold: logging setup,
  metrics, health and readiness reports, key and certificate files, TLS configuration,
  audit logging, serializable copies of library types, and the computations over
  floating-point numbers.
