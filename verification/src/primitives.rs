//! The outside primitives that the hash backends are built from: the BN254
//! scalar field of `ark-bn254`/`ark-ff`, the BLAKE3 and SHA-256 hash
//! functions, and `zeroize`.
//!
//! Everything here is trusted: each function below makes one outside call,
//! and Verus believes its contract without proof.
use crate::field::{canonical_bytes, le_nat, modulus};
use ark_ff::{BigInteger, PrimeField};
use ark_serialize::CanonicalSerialize;
use sha2::Digest;
use vstd::prelude::*;

verus! {

/// `blake3::Hasher`, the incremental BLAKE3 hasher.
#[verifier::external_type_specification]
#[verifier::external_body]
pub struct ExBlake3Hasher(blake3::Hasher);

/// The bytes that a `blake3::Hasher` has been given so far, in order.
pub uninterp spec fn blake3_hasher_input(hasher: blake3::Hasher) -> Seq<u8>;

/// The first `len` bytes of the BLAKE3 extendable output on `input`.
pub uninterp spec fn blake3_xof_output(input: Seq<u8>, len: nat) -> Seq<u8>;

/// The 32-byte BLAKE3 hash of `input`.
pub uninterp spec fn blake3_hash_output(input: Seq<u8>) -> Seq<u8>;

/// The 32-byte SHA-256 digest of `input`.
pub uninterp spec fn sha256_digest(input: Seq<u8>) -> Seq<u8>;

/// `ark_bn254::Fr::from_le_bytes_mod_order`, followed by `into_bigint` and
/// `to_bytes_le` to read the result back as bytes.
///
/// Claims: the result is a 32-byte little-endian encoding of the integer
/// that `bytes` encode in little-endian order, reduced modulo the field order.
#[verifier::external_body]
pub(crate) fn fr_from_le_bytes_mod_order(bytes: &[u8]) -> (le: [u8; 32])
    ensures
        le_nat(le@) == le_nat(bytes@) % modulus(),
{
    let repr = ark_bn254::Fr::from_le_bytes_mod_order(bytes).into_bigint().to_bytes_le();
    let mut le = [0u8; 32];
    le.copy_from_slice(&repr);
    le
}

/// `into_bigint().to_bytes_le()` on the `ark_bn254::Fr` that `le` encodes.
///
/// Claims: the result is the four 64-bit limbs of the canonical
/// representative, least significant first, each in little-endian order;
/// that is, the 32 little-endian bytes of the representative.
#[verifier::external_body]
pub(crate) fn fr_canonical_le_bytes(le: &[u8; 32]) -> (bytes: Vec<u8>)
    ensures
        bytes@ == canonical_bytes(le_nat(le@) % modulus()),
{
    ark_bn254::Fr::from_le_bytes_mod_order(le).into_bigint().to_bytes_le()
}

/// `CanonicalSerialize::serialize_compressed` on the `ark_bn254::Fr` that
/// `le` encodes, written into a fresh `Vec`.
///
/// Claims: the serialization of a prime field element is the canonical
/// representative's limbs in little-endian order, cut to the 32 bytes that
/// the 254-bit modulus needs, with no flag bits set.
#[verifier::external_body]
pub(crate) fn fr_serialize_compressed(le: &[u8; 32]) -> (bytes: Vec<u8>)
    ensures
        bytes@ == canonical_bytes(le_nat(le@) % modulus()),
{
    let element = ark_bn254::Fr::from_le_bytes_mod_order(le);
    let mut bytes = Vec::new();
    element.serialize_compressed(&mut bytes).unwrap();
    bytes
}

/// `blake3::Hasher::new`.
///
/// Claims: a new hasher has been given no input.
#[verifier::external_body]
pub(crate) fn blake3_hasher_new() -> (hasher: blake3::Hasher)
    ensures
        blake3_hasher_input(hasher) == Seq::<u8>::empty(),
{
    blake3::Hasher::new()
}

/// `blake3::Hasher::update`.
///
/// Claims: the hasher's input grows by `data` at its end.
#[verifier::external_body]
pub(crate) fn blake3_hasher_update(hasher: &mut blake3::Hasher, data: &[u8])
    ensures
        blake3_hasher_input(*final(hasher)) == blake3_hasher_input(*old(hasher)) + data@,
{
    hasher.update(data);
}

/// `blake3::Hasher::finalize_xof`, then `OutputReader::fill` on a fresh
/// 32-byte buffer.
///
/// Claims: the buffer holds the first 32 bytes of the extendable output on
/// the hasher's input.
#[verifier::external_body]
pub(crate) fn blake3_finalize_xof_32(hasher: &blake3::Hasher) -> (out: [u8; 32])
    ensures
        out@ == blake3_xof_output(blake3_hasher_input(*hasher), 32),
{
    let mut out = [0u8; 32];
    hasher.finalize_xof().fill(&mut out);
    out
}

/// `blake3::hash`, read back with `Hash::as_bytes`.
///
/// Claims: the result is the BLAKE3 hash of `data`.
#[verifier::external_body]
pub(crate) fn blake3_hash(data: &[u8]) -> (out: [u8; 32])
    ensures
        out@ == blake3_hash_output(data@),
{
    *blake3::hash(data).as_bytes()
}

/// `<sha2::Sha256 as Digest>::digest`.
///
/// Claims: the result is the SHA-256 digest of `data`.
#[verifier::external_body]
pub(crate) fn sha256(data: &[u8]) -> (out: [u8; 32])
    ensures
        out@ == sha256_digest(data@),
{
    sha2::Sha256::digest(data).into()
}

/// `zeroize::Zeroize::zeroize` on a byte array.
///
/// Claims: every byte of the array is zero afterwards.
#[verifier::external_body]
pub(crate) fn zeroize_bytes(bytes: &mut [u8; 32])
    ensures
        forall|i: int| 0 <= i < 32 ==> #[trigger] final(bytes)@[i] == 0u8,
{
    zeroize::Zeroize::zeroize(bytes);
}

} // verus!
