# provekit_hash

The protocol-level hash backends of ProveKit, verified with Verus: the
BLAKE3 and SHA-256 instantiations of the Fiat–Shamir permutation, of the
Merkle-tree leaf and node hashes, and of the proof-of-work check, all over
the BN254 scalar field.

- `src/field.rs` — field elements held as canonical little-endian bytes,
  with the integer model (`le_nat`, `le_bytes`) that the contracts use.
- `src/primitives.rs` — the trusted boundary: the calls into `ark-bn254`,
  `ark-ff`, `ark-serialize`, `blake3`, `sha2` and `zeroize`, with the
  contracts that Verus believes.
- `src/bits.rs` — leading-zero-bit counting, the work measure.
- `src/hash/` — backend selection and the two backends.
- `app/` — the same backends behind the `ark-crypto-primitives`,
  `spongefish` and `spongefish-pow` traits, with the floating-point
  difficulty handling.
