//! Resolver for server-issued Anubis anti-automation challenges.
//!
//! The crate detects a challenge embedded in an HTML response, computes a
//! valid proof (a hash echo or a proof-of-work nonce), builds the submission
//! URL, and drives the fetch / solve / wait / submit / verify / replay
//! sequence as a pure state machine.  A per-host credential-store registry
//! supports proxy deployments that solve challenges for many upstream hosts.

mod digest;
mod errors;
mod extract;
mod json;
mod model;
mod orchestrate;
mod pow;
mod proxy;
mod registry;
mod solver;
mod strutil;
mod submit;

pub use digest::{bytes_to_string, hex_chars, hex_encode, sha256, sha256_into, sha256_of};
pub use errors::{spec_error_message, SolverError};
pub use extract::{
    extract_matches, found_matches, marker_bytes, parse_challenge_from_bytes,
    parse_challenge_from_html, parts_decodable, sp_doc, spec_algorithm_of, sp_version_bytes,
    version_matches, DocParts, Extraction, ParsedChallenge,
};
pub use model::{
    is_proof_of_work, mul_sat, sat_u64, spec_algorithm_label, spec_id_param, spec_min_wait_ms,
    Algorithm, AnubisChallenge, AnubisChallengeRules, SolverResult,
};
pub use orchestrate::{
    is_accepted_status, lemma_no_marker_passthrough, lemma_preact_minimum_wait,
    lemma_rejected_submission_returned_unmodified, orchestrate_step, spec_wait_remaining,
    step_matches, HttpReply, OrchAction, OrchContext, OrchEvent, OrchState, Outcome,
};
pub use proxy::{keep_response_header, parse_proxy_path, route_matches, str_eq, ProxyRoute};
pub use pow::{
    check_difficulty_fast, concat_bytes, dec_digits, dec_u64, default_workers, in_stride_class,
    lemma_difficulty_zero_never_exhausts, lemma_difficulty_zero_trivial,
    lemma_exhaustion_is_worker_independent, meets_difficulty, min_in_some_class, nonce_ok,
    pow_hash, pow_input, push_dec_u64, search_parallel, search_worker, space_exhausted,
};
pub use registry::{
    lemma_empty_one_store_per_host, lemma_insert_fresh_keeps_one_store_per_host,
    one_store_per_host, registry_view, store_id, CookieStore, CredentialRegistry,
};
pub use solver::{
    pow_result_ok, solve_challenge, solve_challenge_native, solve_challenge_with_workers,
    solve_ensures, solve_pow,
};
pub use strutil::{all_ascii, ascii_chars, ascii_to_string, dec_chars, u64_to_string};
pub use submit::{
    build_submission_url, is_unreserved, lemma_id_only_affects_id_param,
    lemma_submission_url_deterministic, pct_bytes, pct_chunk, pct_encode, spec_params,
    spec_submission_url, spec_submission_url_base,
};
