use zkp_dlog::{
    bit_of_digest, derive_bit, prove, prove_with_nonces, verify, verify_round, Proof, UInt, U256,
    ROUND_COUNT,
};

fn small(n: u64) -> U256 {
    U256::from_u64(n)
}

fn low(v: &U256) -> u64 {
    assert_eq!(&v.words[1..], &[0, 0, 0]);
    v.words[0]
}

fn le_bytes(v: &U256) -> Vec<u8> {
    let mut out = Vec::new();
    for w in v.words.iter() {
        out.extend_from_slice(&w.to_le_bytes());
    }
    out
}

fn pow_mod_u64(b: u64, e: u64, m: u64) -> u64 {
    let mut r = 1 % m;
    for _ in 0..e {
        r = r * b % m;
    }
    r
}

#[test]
fn test_positive() {
    let secret = U256::from_u64(17);
    let generator = U256::from_u64(3);
    let modulus = U256::from_u64(31);
    let (residue, proofs) = prove(secret, generator, modulus);

    assert!(verify(residue, generator, modulus, proofs));
}

#[test]
fn honest_proof_with_primitive_root_of_67_verifies() {
    // 2 has order 66 modulo 67, so an honest proof is accepted.
    let secret = U256::from_u64(10);
    let generator = U256::from_u64(2);
    let modulus = U256::from_u64(67);
    let (residue, proofs) = prove(secret, generator, modulus);

    assert_eq!(low(&residue), pow_mod_u64(2, 10, 67));
    assert!(verify(residue, generator, modulus, proofs));
}

#[test]
fn prove_returns_residue_and_round_count() {
    let (residue, proofs) = prove(small(17), small(3), small(31));
    assert_eq!(low(&residue), 22);
    assert_eq!(proofs.len(), ROUND_COUNT);
    for round in proofs.iter() {
        assert!(low(&round.s) < 30);
        assert!(low(&round.h) < 31);
    }
}

#[test]
fn tampered_response_is_rejected() {
    let g = small(3);
    let p = small(31);
    let (residue, mut proofs) = prove(small(17), g, p);
    let s = low(&proofs[7].s);
    proofs[7].s = small((s + 1) % 30);
    assert!(!verify(residue, g, p, proofs));
}

#[test]
fn truncated_proof_is_rejected() {
    let g = small(3);
    let p = small(31);
    let (residue, mut proofs) = prove(small(17), g, p);
    proofs.pop();
    assert_eq!(proofs.len(), 99);
    assert!(!verify(residue, g, p, proofs));
}

#[test]
fn extended_proof_is_rejected() {
    let g = small(3);
    let p = small(31);
    let (residue, mut proofs) = prove(small(17), g, p);
    let first = proofs[0];
    proofs.push(first);
    assert!(!verify(residue, g, p, proofs));
}

#[test]
fn empty_proof_is_rejected() {
    assert!(!verify(small(22), small(3), small(31), Vec::new()));
}

#[test]
fn wrong_residue_fails_exactly_the_rounds_with_bit_one() {
    let g = small(3);
    let p = small(31);
    let (residue, proofs) = prove(small(17), g, p);
    let wrong = small(low(&residue) * 3 % 31);
    let mut ones = 0;
    for round in proofs.iter() {
        let bit = derive_bit(&round.h, &g, &p);
        assert_eq!(verify_round(&residue, &g, &p, round), true);
        assert_eq!(verify_round(&wrong, &g, &p, round), bit == 0);
        if bit == 1 {
            ones += 1;
        }
    }
    assert_eq!(verify(wrong, g, p, proofs), ones == 0);
}

#[test]
fn rounds_from_given_nonces_are_exact() {
    let g = small(3);
    let p = small(31);
    let secret = 17u64;
    let nonces: Vec<U256> = (0..ROUND_COUNT as u64).map(|i| small(i % 30)).collect();
    let (residue, proofs) = prove_with_nonces(small(secret), g, p, &nonces);
    assert_eq!(low(&residue), 22);
    assert_eq!(proofs.len(), ROUND_COUNT);
    for (i, round) in proofs.iter().enumerate() {
        let r = i as u64 % 30;
        assert_eq!(low(&round.h), pow_mod_u64(3, r, 31));
        let bit = derive_bit(&round.h, &g, &p);
        let expected = if bit == 0 { r } else { (r + secret) % 30 };
        assert_eq!(low(&round.s), expected);
    }
    assert!(verify(residue, g, p, proofs));
}

#[test]
fn secret_above_order_is_reduced_in_responses() {
    let g = small(3);
    let p = small(31);
    let nonces: Vec<U256> = (0..ROUND_COUNT as u64).map(|i| small(i % 30)).collect();
    let (residue, proofs) = prove_with_nonces(small(47), g, p, &nonces);
    assert_eq!(low(&residue), 22);
    for (i, round) in proofs.iter().enumerate() {
        let r = i as u64 % 30;
        let bit = derive_bit(&round.h, &g, &p);
        let expected = if bit == 0 { r } else { (r + 47) % 30 };
        assert_eq!(low(&round.s), expected);
    }
    assert!(verify(residue, g, p, proofs));
}

#[test]
fn fewer_nonces_give_fewer_rounds() {
    let nonces = vec![small(4), small(9)];
    let (_, proofs) = prove_with_nonces(small(17), small(3), small(31), &nonces);
    assert_eq!(proofs.len(), 2);
    assert_eq!(low(&proofs[0].h), 3u64.pow(4) % 31);
    assert_eq!(low(&proofs[1].h), pow_mod_u64(3, 9, 31));
}

#[test]
fn replacing_one_round_with_a_valid_round_keeps_acceptance() {
    let g = small(3);
    let p = small(31);
    let (residue, mut proofs) = prove(small(17), g, p);
    let (_, other) = prove(small(17), g, p);
    proofs[42] = other[5];
    assert!(verify(residue, g, p, proofs));
}

#[test]
fn challenge_bit_is_deterministic() {
    let h = small(26);
    let g = small(3);
    let p = small(31);
    let first = derive_bit(&h, &g, &p);
    for _ in 0..10 {
        assert_eq!(derive_bit(&h, &g, &p), first);
    }
    assert!(first < 2);
}

#[test]
fn challenge_bit_hashes_little_endian_encodings() {
    let g = small(3);
    let p = small(31);
    for n in 0..64u64 {
        let h = small(n);
        let mut input = le_bytes(&h);
        input.extend(le_bytes(&g));
        input.extend(le_bytes(&p));
        assert_eq!(input.len(), 96);
        let expected = blake3::hash(&input).as_bytes()[0] % 2;
        assert_eq!(derive_bit(&h, &g, &p), expected);
    }
}

#[test]
fn bit_of_digest_takes_low_bit_of_first_byte() {
    let mut d = [0xffu8; 32];
    d[0] = 4;
    assert_eq!(bit_of_digest(&d), 0);
    d[0] = 5;
    assert_eq!(bit_of_digest(&d), 1);
    d[0] = 255;
    assert_eq!(bit_of_digest(&d), 1);
}

#[test]
fn residue_is_the_canonical_power() {
    let nonces: Vec<U256> = Vec::new();
    let cases = [(3u64, 17u64, 31u64, 22u64), (3, 0, 31, 1), (34, 1, 31, 3), (31, 5, 31, 0), (2, 10, 67, 19)];
    for (g, x, p, y) in cases {
        let (residue, proofs) = prove_with_nonces(small(x), small(g), small(p), &nonces);
        assert_eq!(low(&residue), y);
        assert!(proofs.is_empty());
    }
}

#[test]
fn round_check_multiplies_commitment_by_residue() {
    // g = 3, p = 31: 3^4 = 19 and 3^17 = 22, so s = 21 answers h = 19 with
    // bit one (3^21 = 19 * 22 mod 31) and s = 4 answers it with bit zero.
    let g = small(3);
    let p = small(31);
    let h = small(19);
    let bit = derive_bit(&h, &g, &p);
    let s = if bit == 0 { 4 } else { 21 };
    let round = Proof { h, s: small(s) };
    assert!(verify_round(&small(22), &g, &p, &round));
    let other = Proof { h, s: small(if bit == 0 { 21 } else { 4 }) };
    assert!(!verify_round(&small(22), &g, &p, &other));
}

#[test]
fn wide_values_round_trip_through_modular_arithmetic() {
    // modulus 2^64 + 13, base 2^64: 2^64 = -13, so its square is 169.
    let p = UInt::<2> { words: [13, 1] };
    let b = UInt::<2> { words: [0, 1] };
    let nonces: Vec<UInt<2>> = Vec::new();
    let (residue, _) = prove_with_nonces(UInt::<2>::from_u64(2), b, p, &nonces);
    assert_eq!(residue.words, [169, 0]);
}

#[test]
fn from_u64_and_equals() {
    let a = U256::from_u64(7);
    assert_eq!(a.words, [7, 0, 0, 0]);
    assert!(a.equals(&small(7)));
    assert!(!a.equals(&small(8)));
    let big = U256 { words: [7, 0, 0, 1] };
    assert!(!a.equals(&big));
    assert!(big.equals(&big));
}

#[test]
fn proof_rounds_are_plain_values() {
    let round = Proof { h: small(1), s: small(0) };
    let copy = round;
    assert!(copy.h.equals(&round.h));
    assert!(copy.s.equals(&round.s));
}
