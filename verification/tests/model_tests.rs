use anubis_solver::{
    solve_challenge, Algorithm, AnubisChallenge, AnubisChallengeRules, SolverError,
};
use sha2::{Digest, Sha256};

fn challenge(payload: &str, difficulty: usize, algorithm: Algorithm) -> AnubisChallenge {
    AnubisChallenge {
        challenge: payload.to_string(),
        id: None,
        rules: AnubisChallengeRules { difficulty, algorithm },
    }
}

#[test]
fn algorithm_labels() {
    assert_eq!(Algorithm::Fast.as_str(), "fast");
    assert_eq!(Algorithm::Slow.as_str(), "slow");
    assert_eq!(Algorithm::Preact.as_str(), "preact");
    assert_eq!(Algorithm::Metarefresh.as_str(), "metarefresh");
    assert_eq!(Algorithm::Unknown.as_str(), "unknown");
}

#[test]
fn min_wait_scales_with_difficulty() {
    assert_eq!(challenge("p", 2, Algorithm::Preact).min_wait_ms(), Some(160));
    assert_eq!(challenge("p", 2, Algorithm::Metarefresh).min_wait_ms(), Some(1600));
    assert_eq!(challenge("p", 0, Algorithm::Preact).min_wait_ms(), Some(0));
    assert_eq!(challenge("p", 5, Algorithm::Fast).min_wait_ms(), None);
    assert_eq!(challenge("p", 5, Algorithm::Slow).min_wait_ms(), None);
    assert_eq!(challenge("p", 5, Algorithm::Unknown).min_wait_ms(), None);
}

#[test]
fn id_param_forms() {
    let mut c = challenge("p", 1, Algorithm::Fast);
    assert_eq!(c.id_param(), "");
    c.id = Some("abc".to_string());
    assert_eq!(c.id_param(), "&id=abc");
}

#[test]
fn preact_solves_to_the_hex_digest_without_a_nonce() {
    let c = challenge("data", 2, Algorithm::Preact);
    let r = solve_challenge(&c, None).unwrap();
    let digest = Sha256::digest(b"data");
    assert_eq!(r.hash, hex::encode(digest));
    assert_eq!(r.data, "data");
    assert_eq!(r.nonce, None);
    assert_eq!(r.difficulty, 2);
}

#[test]
fn metarefresh_echoes_the_payload_without_a_nonce() {
    let c = challenge("echo-me", 1, Algorithm::Metarefresh);
    let r = solve_challenge(&c, None).unwrap();
    assert_eq!(r.hash, "echo-me");
    assert_eq!(r.data, "echo-me");
    assert_eq!(r.nonce, None);
}

#[test]
fn fast_dispatches_to_the_search() {
    let c = challenge("dispatch", 1, Algorithm::Fast);
    let r = solve_challenge(&c, None).unwrap();
    assert!(r.nonce.is_some());
}

#[test]
fn error_messages() {
    assert_eq!(SolverError::DecodeFailure.message(), "failed to decode challenge");
    assert_eq!(
        SolverError::SolverExhausted.message(),
        "solver finished without finding a solution"
    );
    assert_eq!(
        SolverError::TransportFailure("timed out".to_string()).message(),
        "transport failure: timed out"
    );
    assert_eq!(
        SolverError::UnexpectedSubmissionStatus(403).message(),
        "unexpected submission status: 403"
    );
    assert_eq!(
        SolverError::UpstreamStatus(500).message(),
        "unexpected upstream status: 500"
    );
}
