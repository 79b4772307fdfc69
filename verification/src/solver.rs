//! The solver: dispatch by algorithm, with the proof-of-work search behind
//! the time-based direct transforms.

use vstd::prelude::*;

use core::sync::atomic::AtomicU64;

use crate::digest::{hex_chars, hex_encode, sha256, sha256_of};
use crate::errors::SolverError;
use crate::model::{is_proof_of_work, Algorithm, AnubisChallenge, SolverResult};
use crate::pow::{
    default_workers, min_in_some_class, nonce_ok, pow_hash, pow_input, search_parallel,
    space_exhausted,
};
use vstd::string::StrSliceExecFns;
use vstd::utf8::encode_utf8;

verus! {

/// A correct proof-of-work outcome for `payload` at difficulty `d`: the
/// nonce solves the difficulty predicate, the hash is the lowercase
/// hexadecimal SHA-256 of payload-then-decimal-nonce, and the payload is
/// echoed unchanged.
pub open spec fn pow_result_ok(payload: Seq<char>, d: nat, res: SolverResult) -> bool {
    &&& res.nonce is Some
    &&& nonce_ok(encode_utf8(payload), d, res.nonce->0 as nat)
    &&& res.hash@ == hex_chars(sha256_of(pow_input(encode_utf8(payload), res.nonce->0 as nat)))
    &&& res.data@ == payload
    &&& res.difficulty == d
}

/// What solving promises for a challenge, by its declared algorithm:
/// `preact` echoes the hex SHA-256 of the payload, `metarefresh` echoes the
/// payload itself, both without a nonce; everything else runs the
/// proof-of-work search, whose result, when one is found, is a correct
/// proof-of-work outcome.  Only the search can fail, only by exhaustion, and
/// only when no `u64` nonce at all solves the challenge.
pub open spec fn solve_ensures(c: AnubisChallenge, r: Result<SolverResult, SolverError>) -> bool {
    match c.rules.algorithm {
        Algorithm::Preact => {
            &&& r is Ok
            &&& r->Ok_0.hash@ == hex_chars(sha256_of(encode_utf8(c.challenge@)))
            &&& r->Ok_0.data@ == c.challenge@
            &&& r->Ok_0.difficulty == c.rules.difficulty
            &&& r->Ok_0.nonce is None
        },
        Algorithm::Metarefresh => {
            &&& r is Ok
            &&& r->Ok_0.hash@ == c.challenge@
            &&& r->Ok_0.data@ == c.challenge@
            &&& r->Ok_0.difficulty == c.rules.difficulty
            &&& r->Ok_0.nonce is None
        },
        _ => {
            &&& (r is Ok ==> pow_result_ok(c.challenge@, c.rules.difficulty as nat, r->Ok_0))
            &&& (r is Err ==> r->Err_0 is SolverExhausted && space_exhausted(
                encode_utf8(c.challenge@),
                c.rules.difficulty as nat,
            ))
        },
    }
}

/// Runs the parallel proof-of-work search for `payload` at `difficulty` on
/// `workers` workers and assembles the outcome.
pub fn solve_pow(
    payload: &String,
    difficulty: usize,
    workers: usize,
    progress: Option<&AtomicU64>,
) -> (r: Result<SolverResult, SolverError>)
    requires
        workers >= 1,
    ensures
        r is Ok ==> pow_result_ok(payload@, difficulty as nat, r->Ok_0),
        r is Ok ==> min_in_some_class(
            encode_utf8(payload@),
            difficulty as nat,
            workers as int,
            r->Ok_0.nonce->0,
        ),
        r is Err ==> r->Err_0 is SolverExhausted && space_exhausted(
            encode_utf8(payload@),
            difficulty as nat,
        ),
{
    let data = payload.as_str().as_bytes_vec();
    match search_parallel(&data, difficulty, workers, progress) {
        Some(n) => {
            let h = pow_hash(&data, n);
            let hash = hex_encode(&h);
            Ok(SolverResult { hash, data: payload.clone(), difficulty, nonce: Some(n) })
        },
        None => Err(SolverError::SolverExhausted),
    }
}

/// Solves a challenge by its declared algorithm, natively, on as many
/// workers as the compute pool offers: `preact` and `metarefresh` are
/// direct transforms, everything else runs the proof-of-work search.  The
/// optional progress slot receives a worker's current nonce about every
/// 16384 attempts.
pub fn solve_challenge_native(
    challenge: &AnubisChallenge,
    progress: Option<&AtomicU64>,
) -> (r: Result<SolverResult, SolverError>)
    ensures
        solve_ensures(*challenge, r),
{
    let workers = default_workers();
    solve_challenge_with_workers(challenge, workers, progress)
}

/// Solves a challenge by its declared algorithm on a chosen worker count.
pub fn solve_challenge_with_workers(
    challenge: &AnubisChallenge,
    workers: usize,
    progress: Option<&AtomicU64>,
) -> (r: Result<SolverResult, SolverError>)
    requires
        workers >= 1,
    ensures
        solve_ensures(*challenge, r),
{
    match challenge.rules.algorithm {
        Algorithm::Preact => {
            let data = challenge.challenge.as_str().as_bytes_vec();
            let h = sha256(&data);
            let hash = hex_encode(&h);
            Ok(
                SolverResult {
                    hash,
                    data: challenge.challenge.clone(),
                    difficulty: challenge.rules.difficulty,
                    nonce: None,
                },
            )
        },
        Algorithm::Metarefresh => Ok(
            SolverResult {
                hash: challenge.challenge.clone(),
                data: challenge.challenge.clone(),
                difficulty: challenge.rules.difficulty,
                nonce: None,
            },
        ),
        Algorithm::Fast | Algorithm::Slow | Algorithm::Unknown => solve_pow(
            &challenge.challenge,
            challenge.rules.difficulty,
            workers,
            progress,
        ),
    }
}

/// Solves a challenge by its declared algorithm on as many workers as the
/// compute pool offers.
pub fn solve_challenge(
    challenge: &AnubisChallenge,
    progress: Option<&AtomicU64>,
) -> (r: Result<SolverResult, SolverError>)
    ensures
        solve_ensures(*challenge, r),
{
    let workers = default_workers();
    solve_challenge_with_workers(challenge, workers, progress)
}

} // verus!
