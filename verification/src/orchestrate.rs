//! The resolution orchestrator: a linear state machine over fetch, solve,
//! wait, submit, verify and replay, with one conditional branch and no
//! retry.  The machine only decides; the caller performs each action
//! (outbound calls, sleeping, timing) and hands the outcome back as the
//! next event.

use vstd::prelude::*;

use crate::errors::SolverError;
use crate::extract::{extract_matches, parse_challenge_from_bytes, Extraction, ParsedChallenge};
use crate::model::{spec_min_wait_ms, Algorithm, AnubisChallenge, SolverResult};
use crate::submit::{build_submission_url, spec_submission_url};
use vstd::string::StringExecFns;

verus! {

/// An HTTP answer as the orchestrator sees it: plain status, headers and
/// body.
#[derive(Debug)]
pub struct HttpReply {
    pub status: u16,
    pub headers: Vec<(String, String)>,
    pub body: Vec<u8>,
}

/// What one resolution run is about: the request's scheme and host, the
/// URL that was originally asked for (also the redirect target forwarded on
/// submission), and the outbound identity — the User-Agent the initial
/// fetch carried, which every later call of the run must reuse.
#[derive(Debug)]
pub struct OrchContext {
    pub scheme: String,
    pub host: String,
    pub target_url: String,
    pub user_agent: String,
}

/// The terminal outcome of a resolution run.
#[derive(Debug)]
pub enum Outcome {
    /// No challenge was found: the upstream answer, unmodified.
    Passthrough(HttpReply),
    /// Submission was answered with something other than the expected
    /// redirect: the server's own answer, unmodified, not retried.
    ServerRejected(HttpReply),
    /// The replayed request's answer.
    Success(HttpReply),
    /// A terminal failure.
    Failed(SolverError),
}

/// The orchestrator's states, in the order the happy path visits them.
#[derive(Debug)]
pub enum OrchState {
    Fetching,
    Solving { parsed: ParsedChallenge },
    Waiting { challenge: AnubisChallenge, result: SolverResult },
    Submitting,
    Replaying,
    Done,
}

/// What the caller reports back to the machine.
#[derive(Debug)]
pub enum OrchEvent {
    /// The target URL was fetched.
    Fetched(HttpReply),
    /// The solver finished after this many milliseconds.
    Solved { result: SolverResult, elapsed_ms: u64 },
    /// The solver itself failed, with its own error kind.
    SolveFailed(SolverError),
    /// The declared minimum wait has passed; total elapsed time so far.
    Waited { elapsed_ms: u64 },
    /// The submission URL was fetched with redirects suppressed.
    Submitted(HttpReply),
    /// The original URL was fetched again through the same cookie context.
    Replayed(HttpReply),
    /// An outbound call failed with this transport text.
    Failed(String),
}

/// What the caller must do next.
#[derive(Debug)]
pub enum OrchAction {
    /// Solve the challenge held by the `Solving` state.
    Solve,
    /// Sleep this many milliseconds.
    Sleep(u64),
    /// Fetch this URL with redirects suppressed, carrying this User-Agent —
    /// the same outbound identity as the initial fetch.
    Submit { url: String, user_agent: String },
    /// Fetch this URL again through the same client and cookie context,
    /// with the same identity.
    Replay { url: String, user_agent: String },
    /// The run is over with this outcome.
    Finish(Outcome),
}

/// Milliseconds still owed to the algorithm's declared minimum wait after
/// `elapsed` milliseconds of solving.
pub open spec fn spec_wait_remaining(alg: Algorithm, difficulty: nat, elapsed: u64) -> u64 {
    match spec_min_wait_ms(alg, difficulty) {
        Some(mw) => if elapsed < mw {
            (mw - elapsed) as u64
        } else {
            0
        },
        None => 0,
    }
}

/// The submission status that announces success.
pub open spec fn is_accepted_status(status: u16) -> bool {
    status == 302
}

/// How one step of the machine must relate its inputs to its output.  Every
/// arm but the fetch decision is an equation; the fetch decision is pinned
/// through the extractor's own contract.
pub open spec fn step_matches(
    ctx: OrchContext,
    st: OrchState,
    ev: OrchEvent,
    r: (OrchState, OrchAction),
) -> bool {
    match (st, ev) {
        (OrchState::Fetching, OrchEvent::Fetched(reply)) => match r {
            (OrchState::Done, OrchAction::Finish(Outcome::Passthrough(rep))) => rep == reply
                && extract_matches(reply.body@, Extraction::Absent),
            (
                OrchState::Done,
                OrchAction::Finish(Outcome::Failed(SolverError::DecodeFailure)),
            ) => extract_matches(reply.body@, Extraction::Malformed),
            (OrchState::Solving { parsed }, OrchAction::Solve) => extract_matches(
                reply.body@,
                Extraction::Found(parsed),
            ),
            _ => false,
        },
        (OrchState::Solving { parsed }, OrchEvent::Solved { result, elapsed_ms }) => {
            let c = parsed.challenge;
            let rem = spec_wait_remaining(c.rules.algorithm, c.rules.difficulty as nat, elapsed_ms);
            if rem > 0 {
                match r {
                    (
                        OrchState::Waiting { challenge, result: res },
                        OrchAction::Sleep(ms),
                    ) => challenge == c && res == result && ms == rem,
                    _ => false,
                }
            } else {
                match r {
                    (
                        OrchState::Submitting,
                        OrchAction::Submit { url: u, user_agent: ua },
                    ) => u@ == spec_submission_url(
                        ctx.scheme@,
                        ctx.host@,
                        c,
                        result,
                        ctx.target_url@,
                        elapsed_ms,
                    ) && ua@ == ctx.user_agent@,
                    _ => false,
                }
            }
        },
        (OrchState::Solving { parsed }, OrchEvent::SolveFailed(e)) => match r {
            (OrchState::Done, OrchAction::Finish(Outcome::Failed(e2))) => e2 == e,
            _ => false,
        },
        (OrchState::Waiting { challenge, result }, OrchEvent::Waited { elapsed_ms }) => match r {
            (
                OrchState::Submitting,
                OrchAction::Submit { url: u, user_agent: ua },
            ) => u@ == spec_submission_url(
                ctx.scheme@,
                ctx.host@,
                challenge,
                result,
                ctx.target_url@,
                elapsed_ms,
            ) && ua@ == ctx.user_agent@,
            _ => false,
        },
        (OrchState::Submitting, OrchEvent::Submitted(reply)) => {
            if is_accepted_status(reply.status) {
                match r {
                    (
                        OrchState::Replaying,
                        OrchAction::Replay { url: u, user_agent: ua },
                    ) => u@ == ctx.target_url@ && ua@ == ctx.user_agent@,
                    _ => false,
                }
            } else {
                match r {
                    (
                        OrchState::Done,
                        OrchAction::Finish(Outcome::ServerRejected(rep)),
                    ) => rep == reply,
                    _ => false,
                }
            }
        },
        (OrchState::Replaying, OrchEvent::Replayed(reply)) => match r {
            (OrchState::Done, OrchAction::Finish(Outcome::Success(rep))) => rep == reply,
            _ => false,
        },
        (_, OrchEvent::Failed(msg)) => match r {
            (
                OrchState::Done,
                OrchAction::Finish(Outcome::Failed(SolverError::TransportFailure(m))),
            ) => m@ == msg@,
            _ => false,
        },
        _ => match r {
            (
                OrchState::Done,
                OrchAction::Finish(Outcome::Failed(SolverError::TransportFailure(m))),
            ) => m@ == "unexpected event"@,
            _ => false,
        },
    }
}

/// Advances the machine by one step: consumes the current state and the
/// caller's event, returns the next state and the action owed.
pub fn orchestrate_step(ctx: &OrchContext, state: OrchState, event: OrchEvent) -> (r: (
    OrchState,
    OrchAction,
))
    ensures
        step_matches(*ctx, state, event, r),
{
    match (state, event) {
        (OrchState::Fetching, OrchEvent::Fetched(reply)) => {
            match parse_challenge_from_bytes(&reply.body) {
                Extraction::Absent => (
                    OrchState::Done,
                    OrchAction::Finish(Outcome::Passthrough(reply)),
                ),
                Extraction::Malformed => (
                    OrchState::Done,
                    OrchAction::Finish(Outcome::Failed(SolverError::DecodeFailure)),
                ),
                Extraction::Found(parsed) => (OrchState::Solving { parsed }, OrchAction::Solve),
            }
        },
        (OrchState::Solving { parsed }, OrchEvent::Solved { result, elapsed_ms }) => {
            let c = parsed.challenge;
            let rem: u64 = match c.min_wait_ms() {
                Some(mw) => if elapsed_ms < mw {
                    mw - elapsed_ms
                } else {
                    0
                },
                None => 0,
            };
            if rem > 0 {
                (OrchState::Waiting { challenge: c, result }, OrchAction::Sleep(rem))
            } else {
                let url = build_submission_url(
                    ctx.scheme.as_str(),
                    ctx.host.as_str(),
                    &c,
                    &result,
                    ctx.target_url.as_str(),
                    elapsed_ms,
                );
                (
                    OrchState::Submitting,
                    OrchAction::Submit { url, user_agent: ctx.user_agent.clone() },
                )
            }
        },
        (OrchState::Solving { parsed: _ }, OrchEvent::SolveFailed(e)) => (
            OrchState::Done,
            OrchAction::Finish(Outcome::Failed(e)),
        ),
        (OrchState::Waiting { challenge, result }, OrchEvent::Waited { elapsed_ms }) => {
            let url = build_submission_url(
                ctx.scheme.as_str(),
                ctx.host.as_str(),
                &challenge,
                &result,
                ctx.target_url.as_str(),
                elapsed_ms,
            );
            (
                OrchState::Submitting,
                OrchAction::Submit { url, user_agent: ctx.user_agent.clone() },
            )
        },
        (OrchState::Submitting, OrchEvent::Submitted(reply)) => {
            if reply.status == 302 {
                (
                    OrchState::Replaying,
                    OrchAction::Replay {
                        url: ctx.target_url.clone(),
                        user_agent: ctx.user_agent.clone(),
                    },
                )
            } else {
                (OrchState::Done, OrchAction::Finish(Outcome::ServerRejected(reply)))
            }
        },
        (OrchState::Replaying, OrchEvent::Replayed(reply)) => (
            OrchState::Done,
            OrchAction::Finish(Outcome::Success(reply)),
        ),
        (_, OrchEvent::Failed(msg)) => (
            OrchState::Done,
            OrchAction::Finish(Outcome::Failed(SolverError::TransportFailure(msg))),
        ),
        _ => (
            OrchState::Done,
            OrchAction::Finish(
                Outcome::Failed(
                    SolverError::TransportFailure(String::from_str("unexpected event")),
                ),
            ),
        ),
    }
}

/// Law: an HTML body without the challenge marker is passed through — the
/// machine finishes at once and hands the upstream answer back with its
/// status, headers and body untouched.
pub proof fn lemma_no_marker_passthrough(
    ctx: OrchContext,
    reply: HttpReply,
    r: (OrchState, OrchAction),
)
    requires
        crate::extract::first_match_from(reply.body@, crate::extract::marker_bytes(), 0) is None,
        step_matches(ctx, OrchState::Fetching, OrchEvent::Fetched(reply), r),
    ensures
        match r {
            (OrchState::Done, OrchAction::Finish(Outcome::Passthrough(rep))) => rep == reply,
            _ => false,
        },
{
}

/// Law: a submission answered with anything but the accepted redirect
/// status ends the run at once, handing the server's own answer back
/// unmodified — it is never retried.
pub proof fn lemma_rejected_submission_returned_unmodified(
    ctx: OrchContext,
    reply: HttpReply,
    r: (OrchState, OrchAction),
)
    requires
        !is_accepted_status(reply.status),
        step_matches(ctx, OrchState::Submitting, OrchEvent::Submitted(reply), r),
    ensures
        match r {
            (OrchState::Done, OrchAction::Finish(Outcome::ServerRejected(rep))) => rep == reply,
            _ => false,
        },
{
}

/// Law: for a `preact` challenge of difficulty 2 the declared minimum wait
/// is 160 milliseconds, and however fast the solve was, solve time plus the
/// remaining sleep never undercuts it.
pub proof fn lemma_preact_minimum_wait(elapsed_ms: u64)
    ensures
        spec_min_wait_ms(Algorithm::Preact, 2) == Some(160u64),
        elapsed_ms + spec_wait_remaining(Algorithm::Preact, 2, elapsed_ms) >= 160,
{
}

} // verus!
