# units_core

The core of a UNITS node, written in Verus: object identifiers and objects,
transactions and receipts, the account and token kernel modules, the
authentication framework with its policies and authenticators, Ed25519
signatures over account operations, Merkle and object proofs, slot
bookkeeping, the bump allocator and memory of the RISC-V executor, and the
service-layer rules behind the JSON-RPC API.

## Layout

- `src/` is the verified library. Its functions state what they return, or
  how they change their `&mut` argument, over spec functions and views; laws
  that relate several functions are public proof functions. Authenticators
  and policies are trait objects: of one added to an authentication manager,
  the contracts state where it stands and that everything held before is
  kept, not what the new object itself accepts.
  Calls into outside crates (SHA-2, BLAKE3, curve25519-dalek, hex and the
  JSON-RPC error codes) go through small trusted wrappers whose contracts
  name their results.
- `tests/` runs the library on concrete values.
- `app/` is the node program around the library: command line, configuration
  files, logging, the async services, the JSON-RPC server and the RISC-V
  virtual machine.

Verify with Verus, build and test with cargo.
