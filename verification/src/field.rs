//! Elements of the BN254 scalar field, held as their canonical little-endian
//! encoding.
use crate::primitives::{
    fr_canonical_le_bytes, fr_from_le_bytes_mod_order, fr_serialize_compressed, zeroize_bytes,
};
use vstd::prelude::*;

verus! {

/// The order of the BN254 scalar field.
pub open spec fn modulus() -> nat {
    21888242871839275222246405745257275088548364400416034343698204186575808495617nat
}

/// The integer that a byte string encodes in little-endian order.
pub open spec fn le_nat(bytes: Seq<u8>) -> nat
    decreases bytes.len(),
{
    if bytes.len() == 0 {
        0
    } else {
        bytes[0] as nat + 256 * le_nat(bytes.drop_first())
    }
}

/// The `len` low-order bytes of `value`, least significant first.
pub open spec fn le_bytes(value: nat, len: nat) -> Seq<u8>
    decreases len,
{
    if len == 0 {
        Seq::empty()
    } else {
        seq![(value % 256) as u8] + le_bytes(value / 256, (len - 1) as nat)
    }
}

/// The 32-byte canonical encoding of a field element of value `value`.
pub open spec fn canonical_bytes(value: nat) -> Seq<u8> {
    le_bytes(value, 32)
}

/// `256^n`.
pub open spec fn pow256(n: nat) -> nat
    decreases n,
{
    if n == 0 {
        1
    } else {
        256 * pow256((n - 1) as nat)
    }
}

/// A byte string of zeros encodes zero.
pub proof fn lemma_le_nat_zeros(bytes: Seq<u8>)
    requires
        forall|i: int| 0 <= i < bytes.len() ==> bytes[i] == 0,
    ensures
        le_nat(bytes) == 0,
    decreases bytes.len(),
{
    if bytes.len() > 0 {
        lemma_le_nat_zeros(bytes.drop_first());
    }
}

/// An `n`-byte string encodes an integer below `256^n`.
pub proof fn lemma_le_nat_bound(bytes: Seq<u8>)
    ensures
        le_nat(bytes) < pow256(bytes.len()),
    decreases bytes.len(),
{
    if bytes.len() > 0 {
        lemma_le_nat_bound(bytes.drop_first());
        assert(bytes.drop_first().len() == (bytes.len() - 1) as nat);
    }
}

/// Writing an integer below `256^len` in `len` little-endian bytes and
/// reading it back gives the integer.
pub proof fn lemma_le_nat_le_bytes(value: nat, len: nat)
    requires
        value < pow256(len),
    ensures
        le_bytes(value, len).len() == len,
        le_nat(le_bytes(value, len)) == value,
    decreases len,
{
    if len > 0 {
        let rest = (len - 1) as nat;
        let q = value / 256;
        assert(q < pow256(rest)) by (nonlinear_arith)
            requires
                value < 256 * pow256(rest),
                q == value / 256,
        ;
        lemma_le_nat_le_bytes(q, rest);
        assert(le_bytes(value, len).drop_first() =~= le_bytes(q, rest));
    }
}

/// A byte string is the little-endian encoding, at its own length, of the
/// integer that it encodes.
pub proof fn lemma_le_nat_unique(bytes: Seq<u8>, value: nat)
    requires
        le_nat(bytes) == value,
    ensures
        bytes == le_bytes(value, bytes.len()),
    decreases bytes.len(),
{
    if bytes.len() > 0 {
        let rest = bytes.drop_first();
        let head = bytes[0] as nat;
        let tail = le_nat(rest);
        assert(value % 256 == head && value / 256 == tail) by (nonlinear_arith)
            requires
                value == head + 256 * tail,
                head < 256,
        ;
        lemma_le_nat_unique(rest, tail);
        assert(bytes =~= seq![(value % 256) as u8] + le_bytes(value / 256, rest.len()));
    } else {
        assert(bytes =~= le_bytes(value, 0));
    }
}

/// The eight little-endian bytes of a 64-bit integer encode that integer.
pub proof fn lemma_u64_le_bytes(n: u64)
    ensures
        vstd::bytes::spec_u64_to_le_bytes(n).len() == 8,
        le_nat(vstd::bytes::spec_u64_to_le_bytes(n)) == n,
{
    vstd::bytes::spec_u64_to_le_bytes_to_open(n);
    let s = vstd::bytes::spec_u64_to_le_bytes_open(n);
    reveal_with_fuel(le_nat, 9);
    assert(s.drop_first() =~= seq![s[1], s[2], s[3], s[4], s[5], s[6], s[7]]);
    let b0 = n & 0xff;
    let b1 = (n >> 8) & 0xff;
    let b2 = (n >> 16) & 0xff;
    let b3 = (n >> 24) & 0xff;
    let b4 = (n >> 32) & 0xff;
    let b5 = (n >> 40) & 0xff;
    let b6 = (n >> 48) & 0xff;
    let b7 = (n >> 56) & 0xff;
    assert(b0 < 256 && b1 < 256 && b2 < 256 && b3 < 256 && b4 < 256 && b5 < 256 && b6 < 256
        && b7 < 256) by (bit_vector)
        requires
            b0 == n & 0xff,
            b1 == (n >> 8) & 0xff,
            b2 == (n >> 16) & 0xff,
            b3 == (n >> 24) & 0xff,
            b4 == (n >> 32) & 0xff,
            b5 == (n >> 40) & 0xff,
            b6 == (n >> 48) & 0xff,
            b7 == (n >> 56) & 0xff,
    ;
    assert(n == b0 + 256 * (b1 + 256 * (b2 + 256 * (b3 + 256 * (b4 + 256 * (b5 + 256 * (b6
        + 256 * b7))))))) by (bit_vector)
        requires
            b0 == n & 0xff,
            b1 == (n >> 8) & 0xff,
            b2 == (n >> 16) & 0xff,
            b3 == (n >> 24) & 0xff,
            b4 == (n >> 32) & 0xff,
            b5 == (n >> 40) & 0xff,
            b6 == (n >> 48) & 0xff,
            b7 == (n >> 56) & 0xff,
    ;
    let t = s.drop_first();
    assert(t.drop_first() =~= seq![s[2], s[3], s[4], s[5], s[6], s[7]]);
    assert(t.drop_first().drop_first() =~= seq![s[3], s[4], s[5], s[6], s[7]]);
    assert(t.drop_first().drop_first().drop_first() =~= seq![s[4], s[5], s[6], s[7]]);
    assert(t.drop_first().drop_first().drop_first().drop_first() =~= seq![s[5], s[6], s[7]]);
    assert(t.drop_first().drop_first().drop_first().drop_first().drop_first() =~= seq![s[6], s[7]]);
    assert(t.drop_first().drop_first().drop_first().drop_first().drop_first().drop_first()
        =~= seq![s[7]]);
}

/// The field order lies below `256^32`.
pub proof fn lemma_modulus_below_pow256_32()
    ensures
        modulus() < pow256(32),
{
    reveal_with_fuel(pow256, 33);
}

/// Reading back the canonical bytes of an element's representative gives the
/// element: `from_le_bytes_mod_order` undoes `to_bytes_le` and
/// `serialize_compressed`.
pub proof fn lemma_canonical_bytes_round_trip(value: nat)
    requires
        value < modulus(),
    ensures
        canonical_bytes(value).len() == 32,
        le_nat(canonical_bytes(value)) % modulus() == value,
{
    lemma_modulus_below_pow256_32();
    lemma_le_nat_le_bytes(value, 32);
    vstd::arithmetic::div_mod::lemma_small_mod(value, modulus());
}

/// `256^16 = 2^128` lies below the field order, so a 16-byte string is never reduced.
pub proof fn lemma_sixteen_bytes_below_modulus()
    ensures
        pow256(16) < modulus(),
        pow256(16) == 0x1_0000_0000_0000_0000_0000_0000_0000_0000nat,
{
    reveal_with_fuel(pow256, 17);
}

/// An element of the BN254 scalar field.
///
/// The element is stored as the 32-byte little-endian encoding of its
/// canonical representative, an integer below `modulus()`.
#[derive(Clone, Copy, Debug)]
pub struct FieldElement {
    le: [u8; 32],
}

impl View for FieldElement {
    type V = nat;

    /// The canonical integer representative of the element.
    closed spec fn view(&self) -> nat {
        le_nat(self.le@)
    }
}

impl FieldElement {
    #[verifier::type_invariant]
    closed spec fn canonical(self) -> bool {
        le_nat(self.le@) < modulus()
    }

    /// The zero element.
    pub fn zero() -> (z: FieldElement)
        ensures
            z@ == 0,
    {
        let le: [u8; 32] = [0u8; 32];
        proof {
            lemma_le_nat_zeros(le@);
        }
        FieldElement { le }
    }

    /// Overwrites the element with zero.
    pub fn zeroize(&mut self)
        ensures
            final(self)@ == 0,
    {
        let mut le = self.le;
        zeroize_bytes(&mut le);
        proof {
            lemma_le_nat_zeros(le@);
        }
        *self = FieldElement { le };
    }

    /// Reads `bytes` as a little-endian integer and reduces it modulo the
    /// field order.
    pub fn from_le_bytes_mod_order(bytes: &[u8]) -> (x: FieldElement)
        ensures
            x@ == le_nat(bytes@) % modulus(),
    {
        let le = fr_from_le_bytes_mod_order(bytes);
        FieldElement { le }
    }

    /// The little-endian bytes of the element's canonical representative.
    pub fn to_bytes_le(&self) -> (bytes: Vec<u8>)
        ensures
            self@ < modulus(),
            bytes@ == canonical_bytes(self@),
    {
        proof {
            use_type_invariant(self);
        }
        let bytes = fr_canonical_le_bytes(&self.le);
        assert(le_nat(self.le@) % modulus() == le_nat(self.le@)) by {
            vstd::arithmetic::div_mod::lemma_small_mod(le_nat(self.le@), modulus());
        }
        bytes
    }

    /// The compressed canonical serialization of the element.
    pub fn serialize_compressed(&self) -> (bytes: Vec<u8>)
        ensures
            self@ < modulus(),
            bytes@ == canonical_bytes(self@),
    {
        proof {
            use_type_invariant(self);
        }
        let bytes = fr_serialize_compressed(&self.le);
        assert(le_nat(self.le@) % modulus() == le_nat(self.le@)) by {
            vstd::arithmetic::div_mod::lemma_small_mod(le_nat(self.le@), modulus());
        }
        bytes
    }
}

impl PartialEq for FieldElement {
    fn eq(&self, other: &Self) -> (eq: bool) {
        let mut i: usize = 0;
        while i < 32
            invariant
                0 <= i <= 32,
                forall|j: int| 0 <= j < i ==> self.le@[j] == other.le@[j],
            decreases 32 - i,
        {
            if self.le[i] != other.le[i] {
                proof {
                    lemma_le_nat_differs(self.le@, other.le@, i as int);
                }
                return false;
            }
            i += 1;
        }
        assert(self.le@ =~= other.le@);
        true
    }
}

impl vstd::std_specs::cmp::PartialEqSpecImpl for FieldElement {
    open spec fn obeys_eq_spec() -> bool {
        true
    }

    /// Two elements are equal exactly when their representatives are.
    open spec fn eq_spec(&self, other: &Self) -> bool {
        self@ == other@
    }
}

impl Eq for FieldElement {

}

/// Two byte strings of one length that differ somewhere encode different integers.
pub proof fn lemma_le_nat_differs(a: Seq<u8>, b: Seq<u8>, k: int)
    requires
        a.len() == b.len(),
        0 <= k < a.len(),
        a[k] != b[k],
    ensures
        le_nat(a) != le_nat(b),
    decreases a.len(),
{
    if k == 0 {
        let ra = le_nat(a.drop_first());
        let rb = le_nat(b.drop_first());
        assert((a[0] as nat + 256 * ra) % 256 == a[0] as nat) by (nonlinear_arith)
            requires
                a[0] < 256,
        ;
        assert((b[0] as nat + 256 * rb) % 256 == b[0] as nat) by (nonlinear_arith)
            requires
                b[0] < 256,
        ;
    } else {
        lemma_le_nat_differs(a.drop_first(), b.drop_first(), k - 1);
    }
}

} // verus!
