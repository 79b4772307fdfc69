use anubis_solver::{
    check_difficulty_fast, concat_bytes, dec_u64, hex_encode, pow_hash, push_dec_u64, sha256,
    solve_challenge_native, solve_challenge_with_workers, Algorithm, AnubisChallenge,
    AnubisChallengeRules,
};
use sha2::{Digest, Sha256};
use std::sync::atomic::{AtomicU64, Ordering};

fn challenge(payload: &str, difficulty: usize, algorithm: Algorithm) -> AnubisChallenge {
    AnubisChallenge {
        challenge: payload.to_string(),
        id: None,
        rules: AnubisChallengeRules { difficulty, algorithm },
    }
}

fn leading_zero_nibbles(hash: &[u8]) -> usize {
    let mut n = 0;
    for b in hash {
        if *b == 0 {
            n += 2;
        } else {
            if b >> 4 == 0 {
                n += 1;
            }
            break;
        }
    }
    n
}

#[test]
fn difficulty_check_even() {
    let h = vec![0u8, 0, 0x12, 0x34];
    assert!(check_difficulty_fast(&h, 0));
    assert!(check_difficulty_fast(&h, 4));
    assert!(!check_difficulty_fast(&h, 5));
}

#[test]
fn difficulty_check_odd() {
    let h = vec![0u8, 0x0f, 0x34];
    assert!(check_difficulty_fast(&h, 3));
    assert!(!check_difficulty_fast(&h, 4));
}

#[test]
fn difficulty_check_short_hash() {
    let h = vec![0u8];
    assert!(check_difficulty_fast(&h, 2));
    assert!(!check_difficulty_fast(&h, 4));
    assert!(!check_difficulty_fast(&h, 3));
}

#[test]
fn decimal_rendering() {
    assert_eq!(dec_u64(0), b"0".to_vec());
    assert_eq!(dec_u64(7), b"7".to_vec());
    assert_eq!(dec_u64(16384), b"16384".to_vec());
    assert_eq!(dec_u64(u64::MAX), b"18446744073709551615".to_vec());
}

#[test]
fn in_place_decimal_rendering_appends() {
    let mut buf = b"payload".to_vec();
    push_dec_u64(&mut buf, 16384);
    assert_eq!(buf, b"payload16384".to_vec());
}

#[test]
fn byte_concat() {
    assert_eq!(concat_bytes(&b"ab".to_vec(), &b"cd".to_vec()), b"abcd".to_vec());
    assert_eq!(concat_bytes(&Vec::new(), &b"x".to_vec()), b"x".to_vec());
}

#[test]
fn sha256_wrapper_matches_direct_digest() {
    let data = b"hello world".to_vec();
    let direct: Vec<u8> = Sha256::digest(b"hello world").to_vec();
    assert_eq!(sha256(&data), direct);
}

#[test]
fn hex_wrapper_lowercase_two_digits_per_byte() {
    assert_eq!(hex_encode(&vec![1u8, 2, 3, 15, 16]), "0102030f10");
    assert_eq!(hex_encode(&vec![0xabu8, 0xcd]), "abcd");
    assert_eq!(hex_encode(&Vec::new()), "");
}

#[test]
fn pow_hash_is_sha256_of_payload_then_decimal_nonce() {
    let payload = b"abc".to_vec();
    let direct: Vec<u8> = Sha256::digest(b"abc512").to_vec();
    assert_eq!(pow_hash(&payload, 512), direct);
}

#[test]
fn solve_difficulty_zero_trivially() {
    let c = challenge("abc", 0, Algorithm::Fast);
    let r = solve_challenge_native(&c, None).unwrap();
    let nonce = r.nonce.expect("proof of work carries a nonce");
    let input = format!("abc{}", nonce);
    let digest: Vec<u8> = Sha256::digest(input.as_bytes()).to_vec();
    assert_eq!(r.hash, hex::encode(&digest));
    assert_eq!(r.data, "abc");
    assert_eq!(r.difficulty, 0);
}

#[test]
fn solve_meets_difficulty_predicate() {
    let c = challenge("iqypUVBJHLgLuLdjzXCcZkEdzzjBHzxN", 4, Algorithm::Fast);
    let r = solve_challenge_native(&c, None).unwrap();
    let nonce = r.nonce.expect("proof of work carries a nonce");
    let input = format!("{}{}", c.challenge, nonce);
    let digest = Sha256::digest(input.as_bytes());
    assert!(leading_zero_nibbles(&digest) >= 4);
    assert_eq!(r.hash, hex::encode(digest));
}

#[test]
fn one_worker_and_many_workers_both_return_valid_nonces() {
    let c = challenge("worker-count-independence", 3, Algorithm::Slow);
    let r1 = solve_challenge_with_workers(&c, 1, None).unwrap();
    let rn = solve_challenge_with_workers(&c, 4, None).unwrap();
    for r in [&r1, &rn] {
        let nonce = r.nonce.expect("proof of work carries a nonce");
        let input = format!("{}{}", c.challenge, nonce);
        let digest = Sha256::digest(input.as_bytes());
        assert!(leading_zero_nibbles(&digest) >= 3);
    }
}

#[test]
fn native_solver_dispatches_by_the_declared_algorithm() {
    let c = challenge("native", 1, Algorithm::Preact);
    let r = solve_challenge_native(&c, None).unwrap();
    assert_eq!(r.nonce, None);
    assert_eq!(r.hash, hex::encode(Sha256::digest(b"native")));
}

#[test]
fn single_worker_difficulty_zero_finds_nonce_zero() {
    let c = challenge("zero", 0, Algorithm::Fast);
    let r = solve_challenge_with_workers(&c, 1, None).unwrap();
    assert_eq!(r.nonce, Some(0));
}

#[test]
fn progress_slot_receives_a_nonce_on_long_searches() {
    let c = challenge("progress-reporting-payload", 4, Algorithm::Fast);
    let slot = AtomicU64::new(u64::MAX);
    let r = solve_challenge_native(&c, Some(&slot)).unwrap();
    assert!(r.nonce.is_some());
    // The slot is only written about every 16384 attempts; a fast solve may
    // leave it untouched, so nothing more than well-formedness is checked.
    let _ = slot.load(Ordering::Relaxed);
}
