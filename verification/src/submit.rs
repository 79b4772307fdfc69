//! The submission builder: a pure function from a solved challenge to the
//! submission URL, parameterized per algorithm.

use vstd::prelude::*;

use crate::model::{spec_id_param, Algorithm, AnubisChallenge, SolverResult};
use crate::strutil::{all_ascii, ascii_chars, ascii_to_string, dec_chars, u64_to_string};
use vstd::string::{StrSliceExecFns, StringExecFns};
use vstd::utf8::encode_utf8;

verus! {

/// Bytes that percent-encoding passes through unchanged: ASCII letters,
/// digits, `-`, `.`, `_` and `~`.
pub open spec fn is_unreserved(b: u8) -> bool {
    ||| 48 <= b <= 57
    ||| 65 <= b <= 90
    ||| 97 <= b <= 122
    ||| b == 45
    ||| b == 46
    ||| b == 95
    ||| b == 126
}

/// The uppercase hexadecimal digit byte for a nibble.
pub open spec fn hex_upper_byte(n: int) -> u8 {
    if n < 10 {
        (48 + n) as u8
    } else {
        (55 + n) as u8
    }
}

/// The percent-encoding of one byte: itself when unreserved, else `%` and
/// two uppercase hexadecimal digits.
pub open spec fn pct_chunk(b: u8) -> Seq<u8> {
    if is_unreserved(b) {
        seq![b]
    } else {
        seq![37u8, hex_upper_byte(b as int / 16), hex_upper_byte(b as int % 16)]
    }
}

/// The percent-encoding of a byte sequence.
pub open spec fn pct_bytes(bytes: Seq<u8>) -> Seq<u8>
    decreases bytes.len(),
{
    if bytes.len() == 0 {
        Seq::empty()
    } else {
        pct_chunk(bytes[0]) + pct_bytes(bytes.drop_first())
    }
}

/// Appending one byte to the input appends its chunk to the encoding.
pub proof fn lemma_pct_snoc(s: Seq<u8>, b: u8)
    ensures
        pct_bytes(s.push(b)) == pct_bytes(s) + pct_chunk(b),
    decreases s.len(),
{
    let t = s.push(b);
    if s.len() == 0 {
        assert(t[0] == b);
        assert(t.drop_first() =~= Seq::<u8>::empty());
        assert(pct_bytes(t) == pct_chunk(b) + pct_bytes(Seq::<u8>::empty()));
        assert(pct_bytes(Seq::<u8>::empty()) == Seq::<u8>::empty());
        assert(pct_bytes(t) =~= pct_bytes(s) + pct_chunk(b));
    } else {
        assert(t[0] == s[0]);
        assert(t.drop_first() =~= s.drop_first().push(b));
        lemma_pct_snoc(s.drop_first(), b);
        assert(pct_bytes(t) == pct_chunk(s[0]) + (pct_bytes(s.drop_first()) + pct_chunk(b)));
        assert(pct_bytes(s) == pct_chunk(s[0]) + pct_bytes(s.drop_first()));
        assert(pct_bytes(t) =~= pct_bytes(s) + pct_chunk(b));
    }
}

/// A percent-encoded sequence is ASCII.
pub proof fn lemma_pct_ascii(s: Seq<u8>)
    ensures
        all_ascii(pct_bytes(s)),
    decreases s.len(),
{
    if s.len() > 0 {
        lemma_pct_ascii(s.drop_first());
    }
}

/// Percent-encodes a string's UTF-8 bytes for use in a query component.
pub fn pct_encode(s: &str) -> (r: String)
    ensures
        r@ == ascii_chars(pct_bytes(encode_utf8(s@))),
{
    let v = s.as_bytes_vec();
    let mut out: Vec<u8> = Vec::new();
    let mut i: usize = 0;
    while i < v.len()
        invariant
            i <= v.len(),
            v@ == encode_utf8(s@),
            out@ == pct_bytes(v@.subrange(0, i as int)),
        decreases v.len() - i,
    {
        let b = v[i];
        let unreserved = (48 <= b && b <= 57) || (65 <= b && b <= 90) || (97 <= b && b <= 122)
            || b == 45 || b == 46 || b == 95 || b == 126;
        if unreserved {
            out.push(b);
        } else {
            out.push(37);
            let hi = b >> 4;
            let lo = b & 0x0f;
            proof {
                assert((b >> 4) == b / 16 && (b & 0x0f) == b % 16 && (b >> 4) < 16) by (bit_vector);
            }
            out.push(if hi < 10 { 48 + hi } else { 55 + hi });
            out.push(if lo < 10 { 48 + lo } else { 55 + lo });
        }
        proof {
            let pre = v@.subrange(0, i as int);
            lemma_pct_snoc(pre, b);
            assert(pre.push(b) =~= v@.subrange(0, i as int + 1));
            assert(out@ =~= pct_bytes(v@.subrange(0, i as int + 1)));
        }
        i += 1;
    }
    proof {
        assert(v@.subrange(0, v@.len() as int) =~= v@);
        lemma_pct_ascii(v@);
    }
    ascii_to_string(out)
}

/// The algorithm-specific query parameters: `result` for `preact`,
/// `challenge` for `metarefresh`, `response` and `nonce` for the
/// proof-of-work algorithms.
pub open spec fn spec_params(alg: Algorithm, res: SolverResult) -> Seq<char> {
    match alg {
        Algorithm::Preact => "result="@ + res.hash@,
        Algorithm::Metarefresh => "challenge="@ + res.hash@,
        _ => "response="@ + res.hash@ + "&nonce="@ + (match res.nonce {
            Some(n) => dec_chars(n as nat),
            None => Seq::<char>::empty(),
        }),
    }
}

/// The id-independent part of the submission URL: scheme, host, the
/// well-known submission path, the algorithm's parameters, the
/// percent-encoded redirect URL and the elapsed milliseconds.
pub open spec fn spec_submission_url_base(
    scheme: Seq<char>,
    host: Seq<char>,
    c: AnubisChallenge,
    res: SolverResult,
    redirect: Seq<char>,
    elapsed_ms: u64,
) -> Seq<char> {
    scheme + "://"@ + host + "/.within.website/x/cmd/anubis/api/pass-challenge?"@ + spec_params(
        c.rules.algorithm,
        res,
    ) + "&redir="@ + ascii_chars(pct_bytes(encode_utf8(redirect))) + "&elapsedTime="@ + dec_chars(
        elapsed_ms as nat,
    )
}

/// The full submission URL for a solved challenge: the id-independent part,
/// then the id parameter when the challenge carries one.
pub open spec fn spec_submission_url(
    scheme: Seq<char>,
    host: Seq<char>,
    c: AnubisChallenge,
    res: SolverResult,
    redirect: Seq<char>,
    elapsed_ms: u64,
) -> Seq<char> {
    spec_submission_url_base(scheme, host, c, res, redirect, elapsed_ms) + spec_id_param(c.id)
}

/// Builds the submission URL.  Fully deterministic: equal inputs give a
/// byte-identical URL.
pub fn build_submission_url(
    scheme: &str,
    host: &str,
    challenge: &AnubisChallenge,
    result: &SolverResult,
    redirect_url: &str,
    elapsed_ms: u64,
) -> (r: String)
    ensures
        r@ == spec_submission_url(
            scheme@,
            host@,
            *challenge,
            *result,
            redirect_url@,
            elapsed_ms,
        ),
{
    let mut url = String::from_str(scheme);
    url.append("://");
    url.append(host);
    url.append("/.within.website/x/cmd/anubis/api/pass-challenge?");
    match challenge.rules.algorithm {
        Algorithm::Preact => {
            url.append("result=");
            url.append(result.hash.as_str());
        },
        Algorithm::Metarefresh => {
            url.append("challenge=");
            url.append(result.hash.as_str());
        },
        Algorithm::Fast | Algorithm::Slow | Algorithm::Unknown => {
            url.append("response=");
            url.append(result.hash.as_str());
            url.append("&nonce=");
            match &result.nonce {
                Some(n) => {
                    let ns = u64_to_string(*n);
                    url.append(ns.as_str());
                },
                None => (),
            }
        },
    }
    url.append("&redir=");
    let encoded = pct_encode(redirect_url);
    url.append(encoded.as_str());
    url.append("&elapsedTime=");
    let es = u64_to_string(elapsed_ms);
    url.append(es.as_str());
    let idp = challenge.id_param();
    url.append(idp.as_str());
    proof {
        assert(url@ =~= spec_submission_url(
            scheme@,
            host@,
            *challenge,
            *result,
            redirect_url@,
            elapsed_ms,
        ));
    }
    url
}

/// Law: submission-URL construction is deterministic — two URLs built from
/// identical inputs are identical, character for character.
pub proof fn lemma_submission_url_deterministic(
    u1: Seq<char>,
    u2: Seq<char>,
    scheme: Seq<char>,
    host: Seq<char>,
    c: AnubisChallenge,
    res: SolverResult,
    redirect: Seq<char>,
    elapsed_ms: u64,
)
    requires
        u1 == spec_submission_url(scheme, host, c, res, redirect, elapsed_ms),
        u2 == spec_submission_url(scheme, host, c, res, redirect, elapsed_ms),
    ensures
        u1 == u2,
{
}

/// Law: two challenges that differ only in the id — the two historical wire
/// shapes of one challenge — build submission URLs that share the whole
/// id-independent part and differ only in the trailing id parameter.
pub proof fn lemma_id_only_affects_id_param(
    scheme: Seq<char>,
    host: Seq<char>,
    c1: AnubisChallenge,
    c2: AnubisChallenge,
    res: SolverResult,
    redirect: Seq<char>,
    elapsed_ms: u64,
)
    requires
        c1.rules.algorithm == c2.rules.algorithm,
    ensures
        spec_submission_url(scheme, host, c1, res, redirect, elapsed_ms)
            == spec_submission_url_base(scheme, host, c1, res, redirect, elapsed_ms)
            + spec_id_param(c1.id),
        spec_submission_url(scheme, host, c2, res, redirect, elapsed_ms)
            == spec_submission_url_base(scheme, host, c1, res, redirect, elapsed_ms)
            + spec_id_param(c2.id),
{
}

} // verus!
