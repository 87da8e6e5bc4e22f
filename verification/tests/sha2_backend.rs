use ark_ff::PrimeField;
use ark_serialize::CanonicalSerialize;
use provekit_hash::field::FieldElement;
use provekit_hash::hash::sha2::{
    hash_pair, leading_zero_bits, pow_check, pow_solve, Sha2CRH, Sha2Permutation, Sha2TwoToOne,
};
use provekit_hash::hash::HashError;
use sha2::{Digest, Sha256};

type Fr = ark_bn254::Fr;

fn to_fr(x: &FieldElement) -> Fr {
    Fr::from_le_bytes_mod_order(&x.to_bytes_le())
}

fn from_fr(x: Fr) -> FieldElement {
    let mut buf = Vec::new();
    x.serialize_compressed(&mut buf).unwrap();
    FieldElement::from_le_bytes_mod_order(&buf)
}

fn element(seed: u8) -> FieldElement {
    let bytes: Vec<u8> = (0u8..32).map(|i| i.wrapping_mul(seed).wrapping_add(seed)).collect();
    FieldElement::from_le_bytes_mod_order(&bytes)
}

fn reference_hash_pair(l: Fr, r: Fr) -> Fr {
    let mut bytes = Vec::new();
    let mut buf = Vec::new();
    l.serialize_compressed(&mut buf).unwrap();
    bytes.extend_from_slice(&buf);
    buf.clear();
    r.serialize_compressed(&mut buf).unwrap();
    bytes.extend_from_slice(&buf);
    let digest = Sha256::digest(&bytes);
    Fr::from_le_bytes_mod_order(&digest)
}

fn reference_permute(state: [Fr; 2]) -> [Fr; 2] {
    let mut bytes = Vec::new();
    for x in &state {
        let mut buf = Vec::new();
        x.serialize_compressed(&mut buf).unwrap();
        bytes.extend_from_slice(&buf);
    }
    let digest = Sha256::digest(&bytes);
    [Fr::from_le_bytes_mod_order(&digest[..16]), Fr::from_le_bytes_mod_order(&digest[16..])]
}

#[test]
fn sha2_new_puts_the_iv_in_the_rate() {
    let iv = [0xabu8; 32];
    let p = Sha2Permutation::new(iv);
    let state = p.state();
    assert_eq!(state[0], FieldElement::zero());
    assert_eq!(to_fr(&state[1]), Fr::from_le_bytes_mod_order(&iv));
}

#[test]
fn sha2_permute_matches_reference() {
    let mut p = Sha2Permutation::from_state([element(3), element(5)]);
    let expected = reference_permute([to_fr(&element(3)), to_fr(&element(5))]);
    p.permute();
    let state = p.state();
    assert_eq!(state[0], from_fr(expected[0]));
    assert_eq!(state[1], from_fr(expected[1]));
    for x in state {
        assert!(x.to_bytes_le()[16..].iter().all(|b| *b == 0));
    }
}

#[test]
fn sha2_zeroize_and_default_give_the_zero_state() {
    let mut p = Sha2Permutation::new([1u8; 32]);
    p.permute();
    p.zeroize();
    assert_eq!(p.state(), [FieldElement::zero(), FieldElement::zero()]);
    assert_eq!(Sha2Permutation::default().state(), [FieldElement::zero(), FieldElement::zero()]);
}

#[test]
fn sha2_hash_pair_matches_reference() {
    let (l, r) = (element(11), element(13));
    assert_eq!(hash_pair(l, r), from_fr(reference_hash_pair(to_fr(&l), to_fr(&r))));
    assert_ne!(hash_pair(l, r), hash_pair(r, l));
}

#[test]
fn sha2_crh_behaviour() {
    let (a, b, c) = (element(2), element(4), element(6));
    assert_eq!(Sha2CRH::evaluate(&[]), Err(HashError::IncorrectInputLength(0)));
    assert_eq!(Sha2CRH::evaluate(&[a]), Ok(a));
    assert_eq!(Sha2CRH::evaluate(&[a, b]), Ok(hash_pair(a, b)));
    assert_eq!(Sha2CRH::evaluate(&[a, b, c]), Ok(hash_pair(hash_pair(a, b), c)));
    assert_eq!(Sha2CRH::setup(), Ok(()));
}

#[test]
fn sha2_two_to_one() {
    let (l, r) = (element(19), element(23));
    assert_eq!(Sha2TwoToOne::evaluate(&l, &r), Ok(hash_pair(l, r)));
    assert_eq!(Sha2TwoToOne::compress(&l, &r), Ok(hash_pair(l, r)));
    assert_eq!(Sha2TwoToOne::setup(), Ok(()));
}

#[test]
fn leading_zero_bits_examples() {
    assert_eq!(leading_zero_bits(&[]), 0);
    assert_eq!(leading_zero_bits(&[0x80]), 0);
    assert_eq!(leading_zero_bits(&[0x01]), 7);
    assert_eq!(leading_zero_bits(&[0x00]), 8);
    assert_eq!(leading_zero_bits(&[0x00, 0x00, 0x01, 0xff]), 23);
    assert_eq!(leading_zero_bits(&[0x00, 0x0f, 0x00]), 12);
    assert_eq!(leading_zero_bits(&[0u8; 32]), 256);
}

fn reference_check(challenge: &[u8; 32], nonce: u64, bits: f64) -> bool {
    let mut hasher = Sha256::new();
    hasher.update(challenge);
    hasher.update(nonce.to_le_bytes());
    let digest = hasher.finalize();
    leading_zero_bits(&digest) as f64 >= bits
}

#[test]
fn sha2_pow_check_matches_reference() {
    let challenge = [5u8; 32];
    for nonce in 0..64u64 {
        for bits in [0.0f64, 0.5, 1.0, 2.5, 4.0] {
            let threshold = bits.ceil() as u32;
            assert_eq!(pow_check(&challenge, nonce, threshold), reference_check(&challenge, nonce, bits));
        }
    }
}

#[test]
fn sha2_pow_solve_finds_the_least_nonce() {
    let challenge = [8u8; 32];
    assert_eq!(pow_solve(&challenge, 0), Some(0));
    let n = pow_solve(&challenge, 8).expect("a solution exists");
    assert!(pow_check(&challenge, n, 8));
    for m in 0..n {
        assert!(!pow_check(&challenge, m, 8));
    }
}
