//! Proof-of-work core: the difficulty predicate, decimal nonce rendering,
//! and the striding multi-worker nonce search.

use vstd::prelude::*;

use core::sync::atomic::{AtomicBool, AtomicU64, Ordering};
use rayon::iter::{IntoParallelIterator, ParallelIterator};

use crate::digest::{sha256, sha256_into, sha256_of};

verus! {

/// A digest `h` meets difficulty `d` when its leading `d` hex nibbles are
/// zero: the first `d / 2` bytes are zero and, for odd `d`, the high nibble
/// of the following byte is zero as well.  A digest too short to exhibit the
/// required nibbles never meets the difficulty.
pub open spec fn meets_difficulty(h: Seq<u8>, d: nat) -> bool {
    let full = d / 2;
    &&& full <= h.len()
    &&& forall|i: int| 0 <= i < full ==> h[i] == 0
    &&& (d % 2 == 1 ==> full < h.len() && h[full as int] < 16)
}

/// Checks whether `hash` has at least `difficulty` leading zero hex nibbles.
pub fn check_difficulty_fast(hash: &Vec<u8>, difficulty: usize) -> (r: bool)
    ensures
        r == meets_difficulty(hash@, difficulty as nat),
{
    let full_bytes = difficulty / 2;
    if hash.len() < full_bytes {
        return false;
    }
    let mut i: usize = 0;
    while i < full_bytes
        invariant
            i <= full_bytes,
            full_bytes <= hash.len(),
            full_bytes == difficulty / 2,
            forall|j: int| 0 <= j < i ==> hash@[j] == 0,
        decreases full_bytes - i,
    {
        if hash[i] != 0 {
            return false;
        }
        i += 1;
    }
    if difficulty % 2 != 0 {
        if hash.len() <= full_bytes {
            return false;
        }
        let b = hash[full_bytes];
        if (b >> 4) != 0 {
            proof {
                assert((b >> 4) != 0u8 ==> b >= 16) by (bit_vector);
            }
            return false;
        }
        proof {
            assert((b >> 4) == 0u8 ==> b < 16) by (bit_vector);
        }
    }
    true
}

/// The decimal rendering of `n` as ASCII digit bytes, most significant first,
/// with no leading zeros (`0` renders as the single digit `0`).
pub open spec fn dec_digits(n: nat) -> Seq<u8>
    decreases n,
{
    if n < 10 {
        seq![(48 + n) as u8]
    } else {
        dec_digits(n / 10) + seq![(48 + n % 10) as u8]
    }
}

/// Renders `n` in decimal as ASCII digit bytes.
pub fn dec_u64(n: u64) -> (r: Vec<u8>)
    ensures
        r@ == dec_digits(n as nat),
    decreases n,
{
    if n < 10 {
        let mut v: Vec<u8> = Vec::new();
        v.push(48 + (n as u8));
        proof {
            assert(v@ =~= dec_digits(n as nat));
        }
        v
    } else {
        let mut v = dec_u64(n / 10);
        v.push(48 + ((n % 10) as u8));
        proof {
            assert(v@ =~= dec_digits(n as nat));
        }
        v
    }
}

/// Appends the decimal rendering of `n` to a buffer, in place: the hot
/// search loop reuses one buffer instead of allocating per attempt.
pub fn push_dec_u64(buf: &mut Vec<u8>, n: u64)
    ensures
        final(buf)@ == old(buf)@ + dec_digits(n as nat),
    decreases n,
{
    let ghost b0 = buf@;
    if n < 10 {
        buf.push(48 + (n as u8));
        proof {
            assert(buf@ =~= b0 + dec_digits(n as nat));
        }
    } else {
        push_dec_u64(buf, n / 10);
        buf.push(48 + ((n % 10) as u8));
        proof {
            assert(buf@ =~= b0 + dec_digits(n as nat));
        }
    }
}

/// Concatenation of two byte vectors.
pub fn concat_bytes(a: &Vec<u8>, b: &Vec<u8>) -> (r: Vec<u8>)
    ensures
        r@ == a@ + b@,
{
    let mut r: Vec<u8> = Vec::new();
    r.extend_from_slice(a.as_slice());
    r.extend_from_slice(b.as_slice());
    proof {
        assert(r@ =~= a@ + b@);
    }
    r
}

/// The exact byte string hashed for a proof-of-work attempt: the challenge
/// payload followed by the decimal rendering of the nonce.
pub open spec fn pow_input(payload: Seq<u8>, n: nat) -> Seq<u8> {
    payload + dec_digits(n)
}

/// Nonce `n` solves the proof of work for `payload` at difficulty `d`.
pub open spec fn nonce_ok(payload: Seq<u8>, d: nat, n: nat) -> bool {
    meets_difficulty(sha256_of(pow_input(payload, n)), d)
}

/// Law: difficulty zero is met by every digest, so any nonce — nonce zero
/// in particular — solves a difficulty-zero challenge.
pub proof fn lemma_difficulty_zero_trivial(payload: Seq<u8>, n: nat)
    ensures
        nonce_ok(payload, 0, n),
{
}

/// Computes the SHA-256 digest of a proof-of-work attempt.
pub fn pow_hash(payload: &Vec<u8>, nonce: u64) -> (r: Vec<u8>)
    ensures
        r@ == sha256_of(pow_input(payload@, nonce as nat)),
        r@.len() == 32,
{
    let digits = dec_u64(nonce);
    let input = concat_bytes(payload, &digits);
    sha256(&input)
}

/// Membership in one worker's share of the nonce space: at or after
/// `start`, and reached from it by whole strides.
pub open spec fn in_stride_class(m: int, start: int, stride: int) -> bool {
    m >= start && (m - start) % stride == 0
}

/// One worker of the striding nonce search.  The worker tries the nonces
/// `start`, `start + stride`, `start + 2 * stride`, ... in order, polling the
/// shared stop flag before each attempt.  The worker that flips the stop flag
/// from unset to set is the sole publisher of the winning nonce; every other
/// worker returns nothing.  A worker whose next nonce would overflow exits
/// without a result.  About every 16384 attempts the worker stores its
/// current nonce in the optional progress slot.  The loop reuses one input
/// buffer — fixed payload prefix, trailing decimal nonce rewritten in place —
/// and one digest buffer, allocating nothing per attempt.
///
/// A nonce the worker publishes is the least valid nonce of its share: every
/// smaller nonce of the same stride class fails the difficulty predicate.
pub fn search_worker(
    payload: &Vec<u8>,
    difficulty: usize,
    start: u64,
    stride: u64,
    stop: &AtomicBool,
    winner: &AtomicU64,
    progress: Option<&AtomicU64>,
) -> (r: Option<u64>)
    requires
        stride >= 1,
    ensures
        r is Some ==> nonce_ok(payload@, difficulty as nat, r->Some_0 as nat),
        r is Some ==> forall|m: int|
            in_stride_class(m, start as int, stride as int) && m < r->Some_0 ==> !nonce_ok(
                payload@,
                difficulty as nat,
                m as nat,
            ),
{
    let mut nonce = start;
    let mut since_report: u64 = 0;
    let plen = payload.len();
    let mut buf: Vec<u8> = Vec::new();
    buf.extend_from_slice(payload.as_slice());
    let mut digest: Vec<u8> = Vec::new();
    proof {
        vstd::arithmetic::div_mod::lemma_small_mod(0nat, stride as nat);
        assert(buf@ =~= payload@);
    }
    loop
        invariant
            stride >= 1,
            since_report < 16384,
            plen == payload@.len(),
            buf@.len() >= plen,
            buf@.subrange(0, plen as int) == payload@,
            in_stride_class(nonce as int, start as int, stride as int),
            forall|m: int|
                in_stride_class(m, start as int, stride as int) && m < nonce as int ==> !nonce_ok(
                    payload@,
                    difficulty as nat,
                    m as nat,
                ),
        decreases u64::MAX - nonce,
    {
        if stop.load(Ordering::Relaxed) {
            return None;
        }
        buf.truncate(plen);
        proof {
            assert(buf@ =~= payload@);
        }
        push_dec_u64(&mut buf, nonce);
        sha256_into(&buf, &mut digest);
        proof {
            assert(buf@ =~= pow_input(payload@, nonce as nat));
            assert(buf@.subrange(0, plen as int) =~= payload@);
        }
        if check_difficulty_fast(&digest, difficulty) {
            let already_set = stop.swap(true, Ordering::SeqCst);
            if !already_set {
                winner.store(nonce, Ordering::SeqCst);
                return Some(nonce);
            } else {
                return None;
            }
        }
        since_report += 1;
        if since_report >= 16384 {
            since_report = 0;
            match progress {
                Some(slot) => slot.store(nonce, Ordering::Relaxed),
                None => (),
            }
        }
        match nonce.checked_add(stride) {
            Some(next) => {
                proof {
                    let s = stride as int;
                    let st = start as int;
                    let n0 = nonce as int;
                    assert forall|m: int|
                        in_stride_class(m, st, s) && m < n0 + s implies !nonce_ok(
                        payload@,
                        difficulty as nat,
                        m as nat,
                    ) by {
                        if m >= n0 {
                            vstd::arithmetic::div_mod::lemma_mod_equivalence(m - st, n0 - st, s);
                            vstd::arithmetic::div_mod::lemma_small_mod(
                                (m - n0) as nat,
                                s as nat,
                            );
                            assert(m == n0);
                        }
                    }
                    vstd::arithmetic::div_mod::lemma_mod_add_multiples_vanish(n0 - st, s);
                }
                nonce = next;
            },
            None => {
                return None;
            },
        }
    }
}

/// No `u64` nonce at all solves the proof of work for this payload and
/// difficulty.
pub open spec fn space_exhausted(payload: Seq<u8>, d: nat) -> bool {
    forall|n: u64| !nonce_ok(payload, d, n as nat)
}

/// `n` is the least solving nonce of one of the `workers` stride classes.
pub open spec fn min_in_some_class(payload: Seq<u8>, d: nat, workers: int, n: u64) -> bool {
    exists|k: int|
        0 <= k < workers && #[trigger] in_stride_class(n as int, k, workers) && (forall|m: int|
            in_stride_class(m, k, workers) && m < n ==> !nonce_ok(payload, d, m as nat))
}

/// Law: difficulty zero never exhausts the nonce space — nonce zero always
/// solves it.
pub proof fn lemma_difficulty_zero_never_exhausts(payload: Seq<u8>)
    ensures
        !space_exhausted(payload, 0),
{
    lemma_difficulty_zero_trivial(payload, 0);
    assert(nonce_ok(payload, 0, 0u64 as nat));
}

/// Law: exhaustion depends on the payload and difficulty alone, never on
/// how the search was run.  A nonce found by any run — whatever its worker
/// count — rules out the exhaustion error for every other run on the same
/// payload and difficulty.
pub proof fn lemma_exhaustion_is_worker_independent(payload: Seq<u8>, d: nat, n: u64)
    requires
        nonce_ok(payload, d, n as nat),
    ensures
        !space_exhausted(payload, d),
{
}

/// Relies on rayon's `into_par_iter` + `find_any`: the workers run once each
/// on dedicated compute threads and `find_any` returns one of the mapped
/// values for which the predicate holds, here some worker's published result.
/// The stop flag and winner slot are created fresh in here, unset and zero,
/// so the clauses below hold of every call.  Every value a worker can return
/// satisfies `search_worker`'s contract, so a `Some` is a valid nonce and
/// the least solving one of that worker's stride class.  `find_any` answers
/// `None` only after every mapped item was processed; a worker ends without
/// a result only when it lost the race to a publisher — impossible here,
/// since the publisher's own `Some` would have been found — or when it ran
/// its whole stride class to overflow, checking every nonce of it.  The
/// classes `0 .. workers` at stride `workers` cover every `u64`, so a `None`
/// means no nonce at all solves the search.  The flag and slot values read
/// after the run come back as plain values with nothing assumed of them.
#[verifier::external_body]
fn run_workers(
    payload: &Vec<u8>,
    difficulty: usize,
    workers: usize,
    progress: Option<&AtomicU64>,
) -> (r: (Option<u64>, bool, u64))
    requires
        workers >= 1,
    ensures
        r.0 is Some ==> nonce_ok(payload@, difficulty as nat, r.0->Some_0 as nat),
        r.0 is Some ==> min_in_some_class(
            payload@,
            difficulty as nat,
            workers as int,
            r.0->Some_0,
        ),
        r.0 is None ==> space_exhausted(payload@, difficulty as nat),
{
    let stop = AtomicBool::new(false);
    let winner = AtomicU64::new(0);
    let found = (0..workers)
        .into_par_iter()
        .map(|k| search_worker(payload, difficulty, k as u64, workers as u64, &stop, &winner, progress))
        .find_any(|res| res.is_some())
        .flatten();
    (found, stop.load(Ordering::SeqCst), winner.load(Ordering::SeqCst))
}

/// Relies on `rayon::current_num_threads`: reports the size of the current
/// thread pool.  Nothing is assumed of the value.
#[verifier::external_body]
fn current_threads() -> usize {
    rayon::current_num_threads()
}

/// Number of search workers to use: the thread-pool size, and at least one.
pub fn default_workers() -> (r: usize)
    ensures
        r >= 1,
{
    let t = current_threads();
    if t == 0 {
        1
    } else {
        t
    }
}

/// Partitions the nonce space over `workers` striding workers and returns a
/// winning nonce, if any worker found one.  Any nonce returned satisfies the
/// difficulty predicate and is the least solving nonce of its worker's
/// stride class; which class wins may depend on scheduling.  Nothing is
/// returned only when no `u64` nonce at all solves the search.  If the
/// winner's own result was lost to scheduling, the nonce published in the
/// shared slot is re-checked deterministically by re-hashing, so an invalid
/// value can never escape.
pub fn search_parallel(
    payload: &Vec<u8>,
    difficulty: usize,
    workers: usize,
    progress: Option<&AtomicU64>,
) -> (r: Option<u64>)
    requires
        workers >= 1,
    ensures
        r is Some ==> nonce_ok(payload@, difficulty as nat, r->Some_0 as nat),
        r is Some ==> min_in_some_class(payload@, difficulty as nat, workers as int, r->Some_0),
        r is None ==> space_exhausted(payload@, difficulty as nat),
{
    let (found, flag_set, published) = run_workers(payload, difficulty, workers, progress);
    match found {
        Some(n) => Some(n),
        None => {
            if flag_set {
                let h = pow_hash(payload, published);
                if check_difficulty_fast(&h, difficulty) {
                    proof {
                        assert(nonce_ok(payload@, difficulty as nat, published as nat));
                        assert(false);
                    }
                    Some(published)
                } else {
                    None
                }
            } else {
                None
            }
        },
    }
}

} // verus!
