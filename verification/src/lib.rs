//! The hash backends of the ProveKit protocol layer: BLAKE3 and SHA-256
//! instantiations of the Fiat–Shamir permutation, the Merkle-tree hashes and
//! the proof-of-work check, over the BN254 scalar field.
pub mod field;
pub mod primitives;
pub mod bits;
pub mod hash;
