//! The SHA-256 backend: the Fiat–Shamir permutation, the Merkle-tree hashes
//! and the proof-of-work check.
use super::{fold_pairs, values_of, HashError};
use crate::bits::{bit_at, leading_zero_bits_of, lemma_leading_zero_bits_exact};
use crate::field::{
    canonical_bytes, le_nat, lemma_le_nat_bound, lemma_le_nat_unique, lemma_sixteen_bytes_below_modulus,
    lemma_u64_le_bytes, modulus, pow256, FieldElement,
};
use crate::primitives::{sha256, sha256_digest};
use vstd::bytes::{spec_u64_to_le_bytes, u64_to_le_bytes};
use vstd::prelude::*;
use vstd::slice::slice_subrange;

verus! {

// ----------------------------------------------------------------------------
// Transcript (Fiat–Shamir)
// ----------------------------------------------------------------------------

/// The digest that the permutation draws from a state: SHA-256 of the two
/// elements' serializations, one after the other.
pub open spec fn permute_digest(state: (nat, nat)) -> Seq<u8> {
    sha256_digest(canonical_bytes(state.0) + canonical_bytes(state.1))
}

/// The state that the permutation maps `state` to: the first and the last
/// 16 bytes of its digest, each read as a little-endian integer and reduced
/// into the field.
pub open spec fn permute_state(state: (nat, nat)) -> (nat, nat) {
    let digest = permute_digest(state);
    (le_nat(digest.subrange(0, 16)) % modulus(), le_nat(digest.subrange(16, 32)) % modulus())
}

/// The Fiat–Shamir permutation over a state of two field elements, of which
/// the second is the rate.
#[derive(Clone, Copy, Debug)]
pub struct Sha2Permutation {
    state: [FieldElement; 2],
}

impl View for Sha2Permutation {
    type V = (nat, nat);

    closed spec fn view(&self) -> (nat, nat) {
        (self.state[0]@, self.state[1]@)
    }
}

impl Sha2Permutation {
    /// The width of the state.
    pub const N: usize = 2;

    /// The rate: how many elements of the state are absorbed or squeezed at a time.
    pub const R: usize = 1;

    /// The permutation whose state is `state`.
    pub fn from_state(state: [FieldElement; 2]) -> (p: Self)
        ensures
            p@ == (state[0]@, state[1]@),
    {
        Sha2Permutation { state }
    }

    /// The state, as two field elements.
    pub fn state(&self) -> (state: [FieldElement; 2])
        ensures
            (state[0]@, state[1]@) == self@,
    {
        self.state
    }

    /// A fresh state for the initialisation vector `iv`: zero, then `iv` read
    /// as a little-endian integer and reduced into the field.
    pub fn new(iv: [u8; 32]) -> (p: Self)
        ensures
            p@ == (0nat, le_nat(iv@) % modulus()),
    {
        let felt = FieldElement::from_le_bytes_mod_order(iv.as_slice());
        Sha2Permutation { state: [FieldElement::zero(), felt] }
    }

    /// Replaces the state by its image under the permutation.
    pub fn permute(&mut self)
        ensures
            final(self)@ == permute_state(old(self)@),
            final(self)@.0 == le_nat(permute_digest(old(self)@).subrange(0, 16)),
            final(self)@.1 == le_nat(permute_digest(old(self)@).subrange(16, 32)),
            final(self)@.0 < pow256(16),
            final(self)@.1 < pow256(16),
    {
        let mut bytes: Vec<u8> = Vec::new();
        let first = self.state[0].serialize_compressed();
        bytes.extend_from_slice(first.as_slice());
        let second = self.state[1].serialize_compressed();
        bytes.extend_from_slice(second.as_slice());
        assert(bytes@ =~= canonical_bytes(self.state[0]@) + canonical_bytes(self.state[1]@));
        let digest = sha256(bytes.as_slice());
        let left = FieldElement::from_le_bytes_mod_order(slice_subrange(digest.as_slice(), 0, 16));
        let right = FieldElement::from_le_bytes_mod_order(slice_subrange(digest.as_slice(), 16, 32));
        proof {
            let low = digest@.subrange(0, 16);
            let high = digest@.subrange(16, 32);
            lemma_le_nat_bound(low);
            lemma_le_nat_bound(high);
            lemma_sixteen_bytes_below_modulus();
            vstd::arithmetic::div_mod::lemma_small_mod(le_nat(low), modulus());
            vstd::arithmetic::div_mod::lemma_small_mod(le_nat(high), modulus());
        }
        self.state = [left, right];
    }

    /// Overwrites the state with zeros.
    pub fn zeroize(&mut self)
        ensures
            final(self)@ == (0nat, 0nat),
    {
        self.state[0].zeroize();
        self.state[1].zeroize();
    }
}

impl Default for Sha2Permutation {
    fn default() -> (p: Self)
        ensures
            p@ == (0nat, 0nat),
    {
        Sha2Permutation { state: [FieldElement::zero(), FieldElement::zero()] }
    }
}

// ----------------------------------------------------------------------------
// Merkle hashing
// ----------------------------------------------------------------------------

/// The value of the Merkle node over children `l` and `r`: the SHA-256
/// digest of both children's serializations, read as a little-endian integer
/// and reduced into the field.
pub open spec fn hash_pair_value(l: nat, r: nat) -> nat {
    le_nat(sha256_digest(canonical_bytes(l) + canonical_bytes(r))) % modulus()
}

/// The value of the leaf hash of a non-empty sequence of elements.
pub open spec fn crh_value(values: Seq<nat>) -> nat {
    fold_pairs(values, |l: nat, r: nat| hash_pair_value(l, r))
}

/// Hashes two field elements into one.
pub fn hash_pair(l: FieldElement, r: FieldElement) -> (h: FieldElement)
    ensures
        h@ == hash_pair_value(l@, r@),
{
    let mut bytes: Vec<u8> = Vec::new();
    let left = l.serialize_compressed();
    bytes.extend_from_slice(left.as_slice());
    let right = r.serialize_compressed();
    bytes.extend_from_slice(right.as_slice());
    assert(bytes@ =~= canonical_bytes(l@) + canonical_bytes(r@));
    let digest = sha256(bytes.as_slice());
    FieldElement::from_le_bytes_mod_order(digest.as_slice())
}

/// The leaf hash: a sequence of field elements folded with `hash_pair`.
#[derive(Clone, Copy, Debug, PartialEq, Eq, Structural)]
pub struct Sha2CRH;

impl Sha2CRH {
    /// The hash takes no parameters.
    pub fn setup() -> (params: Result<(), HashError>)
        ensures
            params == Ok::<(), HashError>(()),
    {
        Ok(())
    }

    /// Folds `input` from the left with `hash_pair`; an empty input is refused.
    pub fn evaluate(input: &[FieldElement]) -> (h: Result<FieldElement, HashError>)
        ensures
            input@.len() == 0 ==> h == Err::<FieldElement, HashError>(
                HashError::IncorrectInputLength(0),
            ),
            input@.len() > 0 ==> (h matches Ok(v) && v@ == crh_value(values_of(input@))),
    {
        let n = input.len();
        if n == 0 {
            return Err(HashError::IncorrectInputLength(0));
        }
        let ghost values = values_of(input@);
        let mut acc = input[0];
        let mut i: usize = 1;
        assert(values.take(1).drop_last().len() == 0);
        while i < n
            invariant
                1 <= i <= n,
                n == input@.len(),
                values == values_of(input@),
                acc@ == crh_value(values.take(i as int)),
            decreases n - i,
        {
            let next = hash_pair(acc, input[i]);
            proof {
                assert(values.take(i + 1).drop_last() =~= values.take(i as int));
            }
            acc = next;
            i += 1;
        }
        assert(values.take(n as int) =~= values);
        Ok(acc)
    }
}

/// The inner-node hash of the Merkle tree.
#[derive(Clone, Copy, Debug, PartialEq, Eq, Structural)]
pub struct Sha2TwoToOne;

impl Sha2TwoToOne {
    /// The hash takes no parameters.
    pub fn setup() -> (params: Result<(), HashError>)
        ensures
            params == Ok::<(), HashError>(()),
    {
        Ok(())
    }

    /// Hashes two elements with `hash_pair`.
    pub fn evaluate(l: &FieldElement, r: &FieldElement) -> (h: Result<FieldElement, HashError>)
        ensures
            h matches Ok(v) && v@ == hash_pair_value(l@, r@),
    {
        Ok(hash_pair(*l, *r))
    }

    /// Hashes two digests with `hash_pair`, as `evaluate` does.
    pub fn compress(l: &FieldElement, r: &FieldElement) -> (h: Result<FieldElement, HashError>)
        ensures
            h matches Ok(v) && v@ == hash_pair_value(l@, r@),
    {
        Self::evaluate(l, r)
    }
}

/// The Merkle-tree configuration: leaves of field elements hashed with
/// `Sha2CRH`, inner nodes hashed with `Sha2TwoToOne`.
#[derive(Clone, Copy, Debug, PartialEq, Eq, Structural)]
pub struct Sha2MerkleConfig;

// ----------------------------------------------------------------------------
// Proof of work
// ----------------------------------------------------------------------------

/// The bytes hashed to test `nonce`: the challenge, then the nonce in
/// little-endian order.
pub open spec fn pow_input(challenge: Seq<u8>, nonce: u64) -> Seq<u8> {
    challenge + spec_u64_to_le_bytes(nonce)
}

/// Whether `nonce` solves `challenge` with at least `min_zero_bits` leading
/// zero bits in the SHA-256 digest of the input.
pub open spec fn pow_accepts(challenge: Seq<u8>, nonce: u64, min_zero_bits: nat) -> bool {
    leading_zero_bits_of(sha256_digest(pow_input(challenge, nonce))) >= min_zero_bits
}

/// The number of leading zero bits of `bytes`.
pub fn leading_zero_bits(bytes: &[u8]) -> (count: u32)
    requires
        bytes@.len() <= 0x1fff_ffff || leading_zero_bits_of(bytes@) <= u32::MAX,
    ensures
        count == leading_zero_bits_of(bytes@),
{
    proof {
        crate::bits::lemma_leading_zero_bits_exact(bytes@);
    }
    let mut count: u32 = 0;
    let mut i: usize = 0;
    let n = bytes.len();
    assert(bytes@.skip(0) =~= bytes@);
    while i < n
        invariant_except_break
            0 <= i <= n,
            n == bytes@.len(),
            count == 8 * i,
            leading_zero_bits_of(bytes@) == count + leading_zero_bits_of(bytes@.skip(i as int)),
            leading_zero_bits_of(bytes@) <= u32::MAX,
        ensures
            leading_zero_bits_of(bytes@) == count,
        decreases n - i,
    {
        let b = bytes[i];
        proof {
            assert(bytes@.skip(i as int)[0] == b);
            assert(bytes@.skip(i as int).drop_first() =~= bytes@.skip(i + 1));
        }
        if b == 0 {
            count += 8;
        } else {
            count += b.leading_zeros();
            break;
        }
        i += 1;
    }
    proof {
        if i == n {
            assert(bytes@.skip(n as int).len() == 0);
        }
    }
    count
}

/// Whether `nonce` solves `challenge` with at least `min_zero_bits` leading
/// zero bits.
pub fn pow_check(challenge: &[u8; 32], nonce: u64, min_zero_bits: u32) -> (ok: bool)
    ensures
        ok == pow_accepts(challenge@, nonce, min_zero_bits as nat),
{
    let mut input: Vec<u8> = Vec::new();
    input.extend_from_slice(challenge.as_slice());
    let nonce_bytes = u64_to_le_bytes(nonce);
    input.extend_from_slice(nonce_bytes.as_slice());
    assert(input@ =~= pow_input(challenge@, nonce));
    let digest = sha256(input.as_slice());
    leading_zero_bits(digest.as_slice()) >= min_zero_bits
}

/// The least nonce that solves `challenge` with at least `min_zero_bits`
/// leading zero bits, or `None` when no 64-bit nonce does.
pub fn pow_solve(challenge: &[u8; 32], min_zero_bits: u32) -> (nonce: Option<u64>)
    ensures
        nonce matches Some(n) ==> pow_accepts(challenge@, n, min_zero_bits as nat),
        nonce matches Some(n) ==> forall|m: u64|
            m < n ==> !pow_accepts(challenge@, m, min_zero_bits as nat),
        nonce is None ==> forall|m: u64| !pow_accepts(challenge@, m, min_zero_bits as nat),
{
    let mut nonce: u64 = 0;
    loop
        invariant
            forall|m: u64| m < nonce ==> !pow_accepts(challenge@, m, min_zero_bits as nat),
        decreases u64::MAX - nonce,
    {
        if pow_check(challenge, nonce, min_zero_bits) {
            return Some(nonce);
        }
        if nonce == u64::MAX {
            return None;
        }
        nonce += 1;
    }
}

// ----------------------------------------------------------------------------
// Laws
// ----------------------------------------------------------------------------

/// The leaf hash of a single element is that element.
pub proof fn lemma_crh_single(x: nat)
    ensures
        crh_value(seq![x]) == x,
{
}

/// The leaf hash of two elements is the inner-node hash of the pair.
pub proof fn lemma_crh_pair(l: nat, r: nat)
    ensures
        crh_value(seq![l, r]) == hash_pair_value(l, r),
{
    assert(seq![l, r].drop_last() =~= seq![l]);
    lemma_crh_single(l);
}

/// Appending an element to a non-empty leaf hashes the previous leaf hash
/// with the new element.
pub proof fn lemma_crh_push(values: Seq<nat>, x: nat)
    requires
        values.len() > 0,
    ensures
        crh_value(values.push(x)) == hash_pair_value(crh_value(values), x),
{
    assert(values.push(x).drop_last() =~= values);
}

/// Lowering the target never moves the least solution later: a nonce that
/// solves the harder target also solves the easier one.
pub proof fn lemma_least_solution_monotone(
    challenge: Seq<u8>,
    easier: nat,
    harder: nat,
    least_easier: u64,
    solves_harder: u64,
)
    requires
        easier <= harder,
        pow_accepts(challenge, solves_harder, harder),
        forall|m: u64| m < least_easier ==> !pow_accepts(challenge, m, easier),
    ensures
        least_easier <= solves_harder,
{
    assert(pow_accepts(challenge, solves_harder, easier));
}

/// The transcript permutation hashes exactly 64 bytes: 32 that encode the
/// first element in little-endian order, then 32 that encode the second,
/// however small the elements are. Its new state is the first and the last
/// 16 bytes of the SHA-256 digest of them, each read as a little-endian
/// integer.
pub proof fn lemma_permute_hashes_full_encodings(a: nat, b: nat, message: Seq<u8>)
    requires
        message.len() == 64,
        le_nat(message.subrange(0, 32)) == a,
        le_nat(message.subrange(32, 64)) == b,
    ensures
        permute_state((a, b)) == (
            le_nat(sha256_digest(message).subrange(0, 16)) % modulus(),
            le_nat(sha256_digest(message).subrange(16, 32)) % modulus(),
        ),
{
    lemma_le_nat_unique(message.subrange(0, 32), a);
    lemma_le_nat_unique(message.subrange(32, 64), b);
    assert(message =~= canonical_bytes(a) + canonical_bytes(b));
}

/// A Merkle node hashes exactly 64 bytes: 32 that encode the left child in
/// little-endian order, then 32 that encode the right child, however small
/// the children are. The node is their SHA-256 digest, read as a
/// little-endian integer and reduced into the field.
pub proof fn lemma_hash_pair_hashes_full_encodings(l: nat, r: nat, message: Seq<u8>)
    requires
        message.len() == 64,
        le_nat(message.subrange(0, 32)) == l,
        le_nat(message.subrange(32, 64)) == r,
    ensures
        hash_pair_value(l, r) == le_nat(sha256_digest(message)) % modulus(),
{
    lemma_le_nat_unique(message.subrange(0, 32), l);
    lemma_le_nat_unique(message.subrange(32, 64), r);
    assert(message =~= canonical_bytes(l) + canonical_bytes(r));
}

/// A nonce solves a challenge at a target exactly when the SHA-256 digest of
/// the challenge followed by the eight little-endian bytes of the nonce has
/// at least `target` bits and its first `target` bits, read first byte first
/// and most significant bit first, are all zero.
pub proof fn lemma_pow_accepts_exactly(
    challenge: Seq<u8>,
    nonce: u64,
    target: nat,
    message: Seq<u8>,
)
    requires
        message.len() == challenge.len() + 8,
        message.subrange(0, challenge.len() as int) == challenge,
        le_nat(message.subrange(challenge.len() as int, message.len() as int)) == nonce,
    ensures
        pow_accepts(challenge, nonce, target) <==> (target <= 8 * sha256_digest(message).len() && forall|
            k: int,
        |
            0 <= k < target ==> #[trigger] bit_at(sha256_digest(message), k) == 0),
{
    let suffix = message.subrange(challenge.len() as int, message.len() as int);
    lemma_le_nat_unique(suffix, nonce as nat);
    lemma_u64_le_bytes(nonce);
    lemma_le_nat_unique(spec_u64_to_le_bytes(nonce), nonce as nat);
    assert(message =~= pow_input(challenge, nonce));
    let digest = sha256_digest(message);
    lemma_leading_zero_bits_exact(digest);
    let count = leading_zero_bits_of(digest);
    if target <= 8 * digest.len() && forall|k: int| 0 <= k < target ==> #[trigger] bit_at(digest, k) == 0 {
        if count < target {
            assert(bit_at(digest, count as int) == 0);
        }
    }
}

} // verus!
