use anubis_solver::{
    build_submission_url, Algorithm, AnubisChallenge, AnubisChallengeRules, HttpReply,
    OrchAction, OrchContext, OrchEvent, OrchState, Outcome, SolverError, SolverResult,
    orchestrate_step,
};

fn ctx() -> OrchContext {
    OrchContext {
        scheme: "https".to_string(),
        host: "example.com".to_string(),
        target_url: "https://example.com/page".to_string(),
        user_agent: "agent-under-test/1.0".to_string(),
    }
}

fn reply(status: u16, body: &str) -> HttpReply {
    HttpReply {
        status,
        headers: vec![("content-type".to_string(), "text/html".to_string())],
        body: body.as_bytes().to_vec(),
    }
}

fn preact_challenge() -> AnubisChallenge {
    AnubisChallenge {
        challenge: "abc".to_string(),
        id: None,
        rules: AnubisChallengeRules { difficulty: 2, algorithm: Algorithm::Preact },
    }
}

fn preact_result() -> SolverResult {
    SolverResult {
        hash: "deadbeef".to_string(),
        data: "abc".to_string(),
        difficulty: 2,
        nonce: None,
    }
}

#[test]
fn unchallenged_response_passes_through_unmodified() {
    let upstream = reply(200, "<html><body>no challenge here</body></html>");
    let expected_body = upstream.body.clone();
    let expected_headers = upstream.headers.clone();
    let (state, action) = orchestrate_step(&ctx(), OrchState::Fetching, OrchEvent::Fetched(upstream));
    assert!(matches!(state, OrchState::Done));
    match action {
        OrchAction::Finish(Outcome::Passthrough(rep)) => {
            assert_eq!(rep.status, 200);
            assert_eq!(rep.headers, expected_headers);
            assert_eq!(rep.body, expected_body);
        },
        other => panic!("expected passthrough, got {:?}", other),
    }
}

#[test]
fn malformed_challenge_is_terminal() {
    let upstream = reply(200, "<script id=\"anubis_challenge\">{broken</script>");
    let (state, action) = orchestrate_step(&ctx(), OrchState::Fetching, OrchEvent::Fetched(upstream));
    assert!(matches!(state, OrchState::Done));
    assert!(matches!(
        action,
        OrchAction::Finish(Outcome::Failed(SolverError::DecodeFailure))
    ));
}

#[test]
fn found_challenge_moves_to_solving() {
    let upstream = reply(
        200,
        "<script id=\"anubis_challenge\">{\"challenge\":\"abc\",\"rules\":{\"difficulty\":2,\"algorithm\":\"preact\"}}</script>",
    );
    let (state, action) = orchestrate_step(&ctx(), OrchState::Fetching, OrchEvent::Fetched(upstream));
    assert!(matches!(action, OrchAction::Solve));
    match state {
        OrchState::Solving { parsed } => {
            assert_eq!(parsed.challenge.challenge, "abc");
            assert!(matches!(parsed.challenge.rules.algorithm, Algorithm::Preact));
        },
        other => panic!("expected solving, got {:?}", other),
    }
}

#[test]
fn instant_preact_solve_still_waits_the_declared_minimum() {
    let parsed = anubis_solver::ParsedChallenge {
        challenge: preact_challenge(),
        version: "unknown".to_string(),
    };
    let (state, action) = orchestrate_step(
        &ctx(),
        OrchState::Solving { parsed },
        OrchEvent::Solved { result: preact_result(), elapsed_ms: 0 },
    );
    assert!(matches!(state, OrchState::Waiting { .. }));
    match action {
        OrchAction::Sleep(ms) => assert_eq!(ms, 160),
        other => panic!("expected a sleep, got {:?}", other),
    }
}

#[test]
fn partial_elapsed_time_sleeps_only_the_remainder() {
    let parsed = anubis_solver::ParsedChallenge {
        challenge: preact_challenge(),
        version: "unknown".to_string(),
    };
    let (_, action) = orchestrate_step(
        &ctx(),
        OrchState::Solving { parsed },
        OrchEvent::Solved { result: preact_result(), elapsed_ms: 100 },
    );
    assert!(matches!(action, OrchAction::Sleep(60)));
}

#[test]
fn proof_of_work_submits_without_waiting() {
    let mut c = preact_challenge();
    c.rules.algorithm = Algorithm::Fast;
    let parsed = anubis_solver::ParsedChallenge { challenge: c.clone(), version: "unknown".to_string() };
    let result = SolverResult {
        hash: "00ab".to_string(),
        data: "abc".to_string(),
        difficulty: 2,
        nonce: Some(5),
    };
    let (state, action) = orchestrate_step(
        &ctx(),
        OrchState::Solving { parsed },
        OrchEvent::Solved { result: result.clone(), elapsed_ms: 3 },
    );
    assert!(matches!(state, OrchState::Submitting));
    let expected = build_submission_url(
        "https",
        "example.com",
        &c,
        &result,
        "https://example.com/page",
        3,
    );
    match action {
        OrchAction::Submit { url, user_agent } => {
            assert_eq!(url, expected);
            assert_eq!(user_agent, "agent-under-test/1.0");
        },
        other => panic!("expected a submission, got {:?}", other),
    }
}

#[test]
fn waited_event_submits_with_the_total_elapsed_time() {
    let c = preact_challenge();
    let r = preact_result();
    let (state, action) = orchestrate_step(
        &ctx(),
        OrchState::Waiting { challenge: c.clone(), result: r.clone() },
        OrchEvent::Waited { elapsed_ms: 160 },
    );
    assert!(matches!(state, OrchState::Submitting));
    let expected =
        build_submission_url("https", "example.com", &c, &r, "https://example.com/page", 160);
    match action {
        OrchAction::Submit { url, user_agent } => {
            assert_eq!(url, expected);
            assert!(url.contains("elapsedTime=160"));
            assert_eq!(user_agent, "agent-under-test/1.0");
        },
        other => panic!("expected a submission, got {:?}", other),
    }
}

#[test]
fn accepted_submission_replays_the_original_url() {
    let (state, action) =
        orchestrate_step(&ctx(), OrchState::Submitting, OrchEvent::Submitted(reply(302, "")));
    assert!(matches!(state, OrchState::Replaying));
    match action {
        OrchAction::Replay { url, user_agent } => {
            assert_eq!(url, "https://example.com/page");
            assert_eq!(user_agent, "agent-under-test/1.0");
        },
        other => panic!("expected a replay, got {:?}", other),
    }
}

#[test]
fn rejected_submission_returns_the_server_answer_unmodified() {
    let (state, action) =
        orchestrate_step(&ctx(), OrchState::Submitting, OrchEvent::Submitted(reply(403, "denied")));
    assert!(matches!(state, OrchState::Done));
    match action {
        OrchAction::Finish(Outcome::ServerRejected(rep)) => {
            assert_eq!(rep.status, 403);
            assert_eq!(rep.body, b"denied".to_vec());
        },
        other => panic!("expected a rejection, got {:?}", other),
    }
}

#[test]
fn replayed_answer_is_the_final_outcome() {
    let (state, action) =
        orchestrate_step(&ctx(), OrchState::Replaying, OrchEvent::Replayed(reply(200, "content")));
    assert!(matches!(state, OrchState::Done));
    match action {
        OrchAction::Finish(Outcome::Success(rep)) => assert_eq!(rep.body, b"content".to_vec()),
        other => panic!("expected success, got {:?}", other),
    }
}

#[test]
fn transport_failure_is_terminal_in_any_state() {
    let (state, action) = orchestrate_step(
        &ctx(),
        OrchState::Replaying,
        OrchEvent::Failed("connection reset".to_string()),
    );
    assert!(matches!(state, OrchState::Done));
    match action {
        OrchAction::Finish(Outcome::Failed(SolverError::TransportFailure(m))) => {
            assert_eq!(m, "connection reset");
        },
        other => panic!("expected a transport failure, got {:?}", other),
    }
}

#[test]
fn solver_failure_keeps_its_own_error_kind() {
    let parsed = anubis_solver::ParsedChallenge {
        challenge: preact_challenge(),
        version: "unknown".to_string(),
    };
    let (state, action) = orchestrate_step(
        &ctx(),
        OrchState::Solving { parsed },
        OrchEvent::SolveFailed(SolverError::SolverExhausted),
    );
    assert!(matches!(state, OrchState::Done));
    assert!(matches!(
        action,
        OrchAction::Finish(Outcome::Failed(SolverError::SolverExhausted))
    ));
}
