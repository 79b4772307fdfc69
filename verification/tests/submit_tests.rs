use anubis_solver::{
    build_submission_url, Algorithm, AnubisChallenge, AnubisChallengeRules, SolverResult,
};

fn challenge(algorithm: Algorithm, difficulty: usize, id: Option<&str>) -> AnubisChallenge {
    AnubisChallenge {
        challenge: "payload".to_string(),
        id: id.map(|s| s.to_string()),
        rules: AnubisChallengeRules { difficulty, algorithm },
    }
}

fn result(hash: &str, nonce: Option<u64>) -> SolverResult {
    SolverResult { hash: hash.to_string(), data: "payload".to_string(), difficulty: 4, nonce }
}

#[test]
fn proof_of_work_url_is_exact() {
    let c = challenge(Algorithm::Fast, 4, None);
    let r = result("aabb", Some(42));
    let url = build_submission_url("https", "example.com", &c, &r, "https://example.com/x?y=1", 1500);
    assert_eq!(
        url,
        "https://example.com/.within.website/x/cmd/anubis/api/pass-challenge?response=aabb&nonce=42&redir=https%3A%2F%2Fexample.com%2Fx%3Fy%3D1&elapsedTime=1500"
    );
}

#[test]
fn preact_url_uses_the_result_parameter() {
    let c = challenge(Algorithm::Preact, 2, None);
    let r = result("cafe", None);
    let url = build_submission_url("https", "h.example", &c, &r, "https://h.example/", 160);
    assert_eq!(
        url,
        "https://h.example/.within.website/x/cmd/anubis/api/pass-challenge?result=cafe&redir=https%3A%2F%2Fh.example%2F&elapsedTime=160"
    );
}

#[test]
fn metarefresh_url_uses_the_challenge_parameter() {
    let c = challenge(Algorithm::Metarefresh, 1, None);
    let r = result("payload", None);
    let url = build_submission_url("http", "h.example", &c, &r, "http://h.example/a", 800);
    assert_eq!(
        url,
        "http://h.example/.within.website/x/cmd/anubis/api/pass-challenge?challenge=payload&redir=http%3A%2F%2Fh.example%2Fa&elapsedTime=800"
    );
}

#[test]
fn unknown_algorithm_behaves_like_proof_of_work() {
    let c = challenge(Algorithm::Unknown, 4, None);
    let r = result("dd", Some(7));
    let url = build_submission_url("https", "e.com", &c, &r, "https://e.com/", 1);
    assert!(url.contains("?response=dd&nonce=7&"));
}

#[test]
fn id_is_forwarded_verbatim_when_present() {
    let c = challenge(Algorithm::Fast, 4, Some("ch-123"));
    let r = result("00ff", Some(9));
    let url = build_submission_url("https", "e.com", &c, &r, "https://e.com/", 10);
    assert!(url.ends_with("&elapsedTime=10&id=ch-123"));
}

#[test]
fn construction_is_deterministic() {
    let c = challenge(Algorithm::Slow, 4, Some("z"));
    let r = result("beef", Some(1000));
    let a = build_submission_url("https", "e.com", &c, &r, "https://e.com/p q", 77);
    let b = build_submission_url("https", "e.com", &c, &r, "https://e.com/p q", 77);
    assert_eq!(a, b);
}

#[test]
fn non_ascii_redirect_bytes_are_percent_encoded() {
    let c = challenge(Algorithm::Fast, 0, None);
    let r = result("ab", Some(0));
    let url = build_submission_url("https", "e.com", &c, &r, "caf\u{e9}", 0);
    assert!(url.contains("&redir=caf%C3%A9&"));
}

#[test]
fn redirect_url_is_percent_encoded() {
    let c = challenge(Algorithm::Fast, 0, None);
    let r = result("ab", Some(0));
    let url = build_submission_url("https", "e.com", &c, &r, "x y&z~A.0_-", 0);
    assert!(url.contains("&redir=x%20y%26z~A.0_-&"));
}
