//! Challenge value types and the pure algorithm-metadata functions.

use vstd::prelude::*;

use vstd::string::StringExecFns;

verus! {

/// The challenge algorithm, resolved once at parse time.  An unrecognized
/// label is kept as `Unknown` and folded into proof-of-work behaviour only at
/// dispatch time; an empty or absent label is normalized to `Fast` at parse
/// time.
#[derive(Clone, Copy, PartialEq, Eq, Structural, Debug)]
pub enum Algorithm {
    Fast,
    Slow,
    Preact,
    Metarefresh,
    Unknown,
}

/// Whether the algorithm resolves to the proof-of-work search.
pub open spec fn is_proof_of_work(alg: Algorithm) -> bool {
    alg == Algorithm::Fast || alg == Algorithm::Slow || alg == Algorithm::Unknown
}

impl Algorithm {
    /// The algorithm's wire label; `Unknown` has none of its own.
    pub fn as_str(&self) -> (r: &'static str)
        ensures
            r@ == spec_algorithm_label(*self),
    {
        match self {
            Algorithm::Fast => "fast",
            Algorithm::Slow => "slow",
            Algorithm::Preact => "preact",
            Algorithm::Metarefresh => "metarefresh",
            Algorithm::Unknown => "unknown",
        }
    }
}

/// The label returned for each algorithm.
pub open spec fn spec_algorithm_label(alg: Algorithm) -> Seq<char> {
    match alg {
        Algorithm::Fast => "fast"@,
        Algorithm::Slow => "slow"@,
        Algorithm::Preact => "preact"@,
        Algorithm::Metarefresh => "metarefresh"@,
        Algorithm::Unknown => "unknown"@,
    }
}

/// Rules of a challenge: the difficulty (leading zero hex nibbles demanded of
/// a proof-of-work digest) and the declared algorithm.
#[derive(Clone, Debug)]
pub struct AnubisChallengeRules {
    pub difficulty: usize,
    pub algorithm: Algorithm,
}

/// A parsed challenge: the payload to echo or hash, an optional id forwarded
/// verbatim on submission, and the rules.  Immutable once parsed.
#[derive(Clone, Debug)]
pub struct AnubisChallenge {
    pub challenge: String,
    pub id: Option<String>,
    pub rules: AnubisChallengeRules,
}

/// Result of solving a challenge.  `nonce` is present exactly for
/// proof-of-work outcomes; for time-based algorithms `hash` holds the value
/// to submit (digest or raw echo), not a proof.
#[derive(Clone, Debug)]
pub struct SolverResult {
    pub hash: String,
    pub data: String,
    pub difficulty: usize,
    pub nonce: Option<u64>,
}

/// Milliseconds of minimum wait declared by the algorithm: `preact` waits
/// `difficulty x 80`, `metarefresh` waits `difficulty x 800`, the
/// proof-of-work algorithms wait only their inherent compute time.  A product
/// beyond the integer range saturates.
pub open spec fn spec_min_wait_ms(alg: Algorithm, difficulty: nat) -> Option<u64> {
    match alg {
        Algorithm::Preact => Some(sat_u64(difficulty * 80)),
        Algorithm::Metarefresh => Some(sat_u64(difficulty * 800)),
        _ => None,
    }
}

/// Saturates a natural number into the `u64` range.
pub open spec fn sat_u64(n: nat) -> u64 {
    if n > u64::MAX {
        u64::MAX
    } else {
        n as u64
    }
}

/// The `&id=<id>` query fragment, or nothing when the challenge has no id.
pub open spec fn spec_id_param(id: Option<String>) -> Seq<char> {
    match id {
        Some(s) => "&id="@ + s@,
        None => Seq::<char>::empty(),
    }
}

impl AnubisChallenge {
    /// The declared algorithm.
    pub fn algorithm(&self) -> (r: Algorithm)
        ensures
            r == self.rules.algorithm,
    {
        self.rules.algorithm
    }

    /// The declared minimum wait in milliseconds, if the algorithm has one.
    pub fn min_wait_ms(&self) -> (r: Option<u64>)
        ensures
            r == spec_min_wait_ms(self.rules.algorithm, self.rules.difficulty as nat),
    {
        let d = self.rules.difficulty as u64;
        match self.rules.algorithm {
            Algorithm::Preact => Some(mul_sat(d, 80)),
            Algorithm::Metarefresh => Some(mul_sat(d, 800)),
            Algorithm::Fast => None,
            Algorithm::Slow => None,
            Algorithm::Unknown => None,
        }
    }

    /// The id query fragment forwarded on submission.
    pub fn id_param(&self) -> (r: String)
        ensures
            r@ == spec_id_param(self.id),
    {
        match &self.id {
            Some(s) => String::from_str("&id=").concat(s.as_str()),
            None => String::new(),
        }
    }
}

/// Saturating product of two machine integers.
pub fn mul_sat(a: u64, b: u64) -> (r: u64)
    ensures
        r == sat_u64((a * b) as nat),
{
    match a.checked_mul(b) {
        Some(p) => p,
        None => u64::MAX,
    }
}

} // verus!
