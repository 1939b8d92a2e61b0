# graphite_workstation_core

Verified core of a local-first legal workstation, written in Verus.

- `src/run_outbox/`: the outbox state machine. `model.rs` holds records,
  errors and the transition table (`can_transition`); `state_machine.rs` the
  machine with compare-and-swap revisions and its SHA-256 hash-chained audit
  log; `laws.rs` properties that span operations.
- `src/device_seal.rs`: device key derivation and request sealing
  (HMAC-SHA256 over a canonical request string).
- `src/tamper_guard.rs`: the runtime integrity check.
- `src/digest.rs`, `src/text.rs`, `src/entropy.rs`, `src/clock.rs`: hashing,
  hex, decimal rendering, randomness, wiping and the wall clock, with the
  calls into `sha2`, `hmac`, `hex`, `rand`, `zeroize` and std behind small
  trusted wrappers.
- `app/`: the command-line entry point, process-wide device keys, a shared
  outbox for concurrent callers, and serde forms of the library's types.
