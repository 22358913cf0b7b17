# aletheia

Cryptographic evidence packs for agent sessions: events are captured into an
append-only SHA-256 hash chain, sealed into a pack with a Merkle root and an
optional Ed25519 signature, and verified later.

- `src/` is the library, verified with Verus: the event model and its
  canonical JSON, the hash chain, the Merkle root, sealing, verification, key
  files, and the command-line tool's parsing and decisions. SHA-256, Ed25519,
  hex, UUIDs and JSON parsing come from their crates (sha2, ed25519-dalek,
  hex, uuid, serde_json) behind small trusted wrappers whose contracts say
  what the crates do.
- `app/` is the `aletheia` command-line tool (`keygen`, `capture`, `seal`,
  `verify`): argument parsing, files, standard input and output, and the
  serde forms of the library's types.
- `tests/` exercises the library on concrete values.
