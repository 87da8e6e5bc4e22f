use ark_ff::{BigInteger, PrimeField};
use provekit_hash::field::FieldElement;

const MODULUS_LE: [u8; 32] = [
    0x01, 0x00, 0x00, 0xf0, 0x93, 0xf5, 0xe1, 0x43, 0x91, 0x70, 0xb9, 0x79, 0x48, 0xe8, 0x33, 0x28,
    0x5d, 0x58, 0x81, 0x81, 0xb6, 0x45, 0x50, 0xb8, 0x29, 0xa0, 0x31, 0xe1, 0x72, 0x4e, 0x64, 0x30,
];

#[test]
fn zero_encodes_as_zero_bytes() {
    assert_eq!(FieldElement::zero().to_bytes_le(), vec![0u8; 32]);
    assert_eq!(FieldElement::zero().serialize_compressed(), vec![0u8; 32]);
}

#[test]
fn small_integer_is_not_reduced() {
    let x = FieldElement::from_le_bytes_mod_order(&[5, 1]);
    let mut expected = vec![0u8; 32];
    expected[0] = 5;
    expected[1] = 1;
    assert_eq!(x.to_bytes_le(), expected);
    assert_eq!(x.serialize_compressed(), expected);
}

#[test]
fn modulus_reduces_to_zero() {
    let x = FieldElement::from_le_bytes_mod_order(&MODULUS_LE);
    assert_eq!(x, FieldElement::zero());
}

#[test]
fn modulus_plus_one_reduces_to_one() {
    let mut bytes = MODULUS_LE;
    bytes[0] += 1;
    let x = FieldElement::from_le_bytes_mod_order(&bytes);
    assert_eq!(x, FieldElement::from_le_bytes_mod_order(&[1]));
}

#[test]
fn long_input_is_reduced_like_arkworks() {
    let bytes: Vec<u8> = (0u8..64).map(|i| i.wrapping_mul(37).wrapping_add(11)).collect();
    let x = FieldElement::from_le_bytes_mod_order(&bytes);
    let expected = ark_bn254::Fr::from_le_bytes_mod_order(&bytes).into_bigint().to_bytes_le();
    assert_eq!(x.to_bytes_le(), expected);
}

#[test]
fn bytes_round_trip() {
    let bytes: Vec<u8> = (0u8..40).map(|i| i.wrapping_mul(91)).collect();
    let x = FieldElement::from_le_bytes_mod_order(&bytes);
    let y = FieldElement::from_le_bytes_mod_order(&x.to_bytes_le());
    assert_eq!(x, y);
    let z = FieldElement::from_le_bytes_mod_order(&x.serialize_compressed());
    assert_eq!(x, z);
}

#[test]
fn zeroize_clears_an_element() {
    let mut x = FieldElement::from_le_bytes_mod_order(&[9, 9, 9]);
    assert_ne!(x, FieldElement::zero());
    x.zeroize();
    assert_eq!(x, FieldElement::zero());
}
