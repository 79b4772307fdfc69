//! Error kinds surfaced by challenge resolution.

use vstd::prelude::*;

use crate::strutil::{dec_chars, u64_to_string};
use vstd::string::{StrSliceExecFns, StringExecFns};

verus! {

/// A failure of one resolution attempt.  The absence of a challenge is not
/// an error: it is the passthrough outcome.  No failure is retried.
#[derive(Clone, Debug)]
pub enum SolverError {
    /// Malformed challenge JSON or a missing required field.
    DecodeFailure,
    /// The nonce space was exhausted without a match.
    SolverExhausted,
    /// An outbound call failed; the text is the transport's own.
    TransportFailure(String),
    /// The submission answer was not the expected redirect status.
    UnexpectedSubmissionStatus(u16),
    /// The final replay fetch itself failed with this status.
    UpstreamStatus(u16),
}

/// The text reported for each error.
pub open spec fn spec_error_message(e: SolverError) -> Seq<char> {
    match e {
        SolverError::DecodeFailure => "failed to decode challenge"@,
        SolverError::SolverExhausted => "solver finished without finding a solution"@,
        SolverError::TransportFailure(m) => "transport failure: "@ + m@,
        SolverError::UnexpectedSubmissionStatus(s) => "unexpected submission status: "@
            + dec_chars(s as nat),
        SolverError::UpstreamStatus(s) => "unexpected upstream status: "@ + dec_chars(s as nat),
    }
}

impl SolverError {
    /// A human-readable description of the failure.
    pub fn message(&self) -> (r: String)
        ensures
            r@ == spec_error_message(*self),
    {
        match self {
            SolverError::DecodeFailure => String::from_str("failed to decode challenge"),
            SolverError::SolverExhausted => String::from_str(
                "solver finished without finding a solution",
            ),
            SolverError::TransportFailure(m) => String::from_str("transport failure: ").concat(
                m.as_str(),
            ),
            SolverError::UnexpectedSubmissionStatus(s) => String::from_str(
                "unexpected submission status: ",
            ).concat(u64_to_string(*s as u64).as_str()),
            SolverError::UpstreamStatus(s) => String::from_str(
                "unexpected upstream status: ",
            ).concat(u64_to_string(*s as u64).as_str()),
        }
    }
}

} // verus!
