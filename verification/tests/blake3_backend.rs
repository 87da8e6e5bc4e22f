use ark_ff::{BigInteger, PrimeField};
use provekit_hash::field::FieldElement;
use provekit_hash::hash::blake3::{
    hash_pair, meets_difficulty, pow_check, pow_solve, Blake3CRH, Blake3Permutation,
    Blake3TwoToOne,
};
use provekit_hash::hash::HashError;

type Fr = ark_bn254::Fr;

fn to_fr(x: &FieldElement) -> Fr {
    Fr::from_le_bytes_mod_order(&x.to_bytes_le())
}

fn from_fr(x: Fr) -> FieldElement {
    FieldElement::from_le_bytes_mod_order(&x.into_bigint().to_bytes_le())
}

fn element(seed: u8) -> FieldElement {
    let bytes: Vec<u8> = (0u8..32).map(|i| i.wrapping_mul(seed).wrapping_add(seed)).collect();
    FieldElement::from_le_bytes_mod_order(&bytes)
}

fn reference_hash_pair(l: Fr, r: Fr) -> Fr {
    let mut hasher = blake3::Hasher::new();
    hasher.update(b"PROVEKIT_BLAKE3_NODE");
    hasher.update(&l.into_bigint().to_bytes_le());
    hasher.update(&r.into_bigint().to_bytes_le());
    let mut out = [0u8; 32];
    hasher.finalize_xof().fill(&mut out);
    Fr::from_le_bytes_mod_order(&out)
}

fn reference_permute(state: [Fr; 2]) -> [Fr; 2] {
    let mut hasher = blake3::Hasher::new();
    hasher.update(b"PROVEKIT_BLAKE3_PERM");
    for x in &state {
        hasher.update(&x.into_bigint().to_bytes_le());
    }
    let mut out = [0u8; 32];
    hasher.finalize_xof().fill(&mut out);
    [Fr::from_le_bytes_mod_order(&out[..16]), Fr::from_le_bytes_mod_order(&out[16..])]
}

#[test]
fn new_puts_the_iv_in_the_rate() {
    let mut iv = [0u8; 32];
    iv[0] = 7;
    iv[31] = 0xff;
    let p = Blake3Permutation::new(iv);
    let state = p.state();
    assert_eq!(state[0], FieldElement::zero());
    assert_eq!(state[1], FieldElement::from_le_bytes_mod_order(&iv));
    assert_eq!(to_fr(&state[1]), Fr::from_le_bytes_mod_order(&iv));
}

#[test]
fn permute_matches_reference() {
    let mut p = Blake3Permutation::from_state([element(3), element(5)]);
    let expected = reference_permute([to_fr(&element(3)), to_fr(&element(5))]);
    p.permute();
    let state = p.state();
    assert_eq!(state[0], from_fr(expected[0]));
    assert_eq!(state[1], from_fr(expected[1]));
    assert_ne!(state[0], element(3));
}

#[test]
fn permute_halves_fit_in_128_bits() {
    let mut p = Blake3Permutation::new([42u8; 32]);
    p.permute();
    p.permute();
    for x in p.state() {
        let bytes = x.to_bytes_le();
        assert!(bytes[16..].iter().all(|b| *b == 0));
    }
}

#[test]
fn zeroize_and_default_give_the_zero_state() {
    let mut p = Blake3Permutation::new([1u8; 32]);
    p.permute();
    p.zeroize();
    assert_eq!(p.state(), [FieldElement::zero(), FieldElement::zero()]);
    let d = Blake3Permutation::default();
    assert_eq!(d.state(), [FieldElement::zero(), FieldElement::zero()]);
}

#[test]
fn hash_pair_matches_reference() {
    let (l, r) = (element(11), element(13));
    assert_eq!(hash_pair(l, r), from_fr(reference_hash_pair(to_fr(&l), to_fr(&r))));
    assert_ne!(hash_pair(l, r), hash_pair(r, l));
}

#[test]
fn crh_refuses_empty_input() {
    assert_eq!(Blake3CRH::evaluate(&[]), Err(HashError::IncorrectInputLength(0)));
}

#[test]
fn crh_of_one_element_is_the_element() {
    assert_eq!(Blake3CRH::evaluate(&[element(17)]), Ok(element(17)));
}

#[test]
fn crh_folds_from_the_left() {
    let (a, b, c) = (element(2), element(4), element(6));
    assert_eq!(Blake3CRH::evaluate(&[a, b]), Ok(hash_pair(a, b)));
    assert_eq!(Blake3CRH::evaluate(&[a, b, c]), Ok(hash_pair(hash_pair(a, b), c)));
    assert_eq!(Blake3CRH::evaluate(&[a, b]), Blake3TwoToOne::evaluate(&a, &b));
}

#[test]
fn two_to_one_compress_is_evaluate() {
    let (l, r) = (element(19), element(23));
    assert_eq!(Blake3TwoToOne::compress(&l, &r), Blake3TwoToOne::evaluate(&l, &r));
    assert_eq!(Blake3TwoToOne::evaluate(&l, &r), Ok(hash_pair(l, r)));
    assert_eq!(Blake3TwoToOne::setup(), Ok(()));
    assert_eq!(Blake3CRH::setup(), Ok(()));
}

#[test]
fn meets_difficulty_counts_leading_zero_bits() {
    let mut hash = [0xffu8; 32];
    hash[0] = 0;
    hash[1] = 0x08; // 8 + 4 leading zero bits
    assert!(meets_difficulty(&hash, 0));
    assert!(meets_difficulty(&hash, 12));
    assert!(!meets_difficulty(&hash, 13));
    assert!(meets_difficulty(&[0u8; 32], 256));
    assert!(!meets_difficulty(&[0u8; 32], 257));
}

fn reference_check(challenge: &[u8; 32], nonce: u64, target: usize) -> bool {
    let mut input = [0u8; 40];
    input[..32].copy_from_slice(challenge);
    input[32..].copy_from_slice(&nonce.to_le_bytes());
    let hash = blake3::hash(&input);
    meets_difficulty(hash.as_bytes(), target)
}

#[test]
fn pow_check_matches_reference() {
    let challenge = [9u8; 32];
    for nonce in 0..64u64 {
        for target in [0usize, 1, 2, 4] {
            assert_eq!(pow_check(&challenge, nonce, target), reference_check(&challenge, nonce, target));
        }
    }
}

#[test]
fn pow_solve_finds_the_least_nonce() {
    let challenge = [3u8; 32];
    assert_eq!(pow_solve(&challenge, 0), Some(0));
    let n = pow_solve(&challenge, 8).expect("a solution exists");
    assert!(pow_check(&challenge, n, 8));
    for m in 0..n {
        assert!(!pow_check(&challenge, m, 8));
    }
    let easier = pow_solve(&challenge, 4).expect("a solution exists");
    assert!(easier <= n);
}
