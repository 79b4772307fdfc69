//! The challenge extractor: locates the marked element in an HTML body and
//! decodes its JSON content into a challenge, tolerant of the two historical
//! payload shapes (a bare string, or an object with `id` and `randomData`).

use vstd::prelude::*;

use crate::digest::bytes_to_string;
use crate::json::{
    is_ws, p_skip_value, p_string, p_uint, p_ws, sp_skip_value, sp_string, sp_uint, sp_ws,
};
use crate::model::{Algorithm, AnubisChallenge, AnubisChallengeRules};
use vstd::string::{StrSliceExecFns, StringExecFns};
use vstd::utf8::{encode_utf8, valid_utf8};

verus! {

/// What a well-formed challenge document denotes: the payload bytes, the
/// optional id bytes, the difficulty, and the optional algorithm label.
pub struct DocParts {
    pub payload: Seq<u8>,
    pub id: Option<Seq<u8>>,
    pub difficulty: nat,
    pub algorithm: Option<Seq<u8>>,
}

/// Reads the `challenge` member's value: either a bare string (the payload,
/// no id) or an object whose `randomData` member is the payload and whose
/// `id` member is the id.  Yields the position past the value, the payload
/// if one was given, and the id.
pub open spec fn sp_challenge_value(s: Seq<u8>, i: int, fuel: nat) -> Option<
    (int, Option<Seq<u8>>, Option<Seq<u8>>),
>
    decreases fuel, s.len() - i, 1int,
{
    if fuel == 0 {
        None
    } else {
        let j = sp_ws(s, i);
        if !(0 <= j < s.len()) {
            None
        } else if s[j] == 34 {
            match sp_string(s, j) {
                Some((k, p)) => Some((k, Some(p), None)),
                None => None,
            }
        } else if s[j] == 123 {
            sp_chobj_members(s, j + 1, (fuel - 1) as nat, None, None)
        } else {
            None
        }
    }
}

/// Reads the members of the object form of the `challenge` value from just
/// past its `{` (or past a `,`), remembering the latest `id` and
/// `randomData` strings and skipping unknown members.
pub open spec fn sp_chobj_members(
    s: Seq<u8>,
    i: int,
    fuel: nat,
    id: Option<Seq<u8>>,
    rd: Option<Seq<u8>>,
) -> Option<(int, Option<Seq<u8>>, Option<Seq<u8>>)>
    decreases fuel, s.len() - i, 0int,
{
    if fuel == 0 {
        None
    } else {
        let j = sp_ws(s, i);
        if !(0 <= j < s.len()) {
            None
        } else if s[j] == 125 {
            Some((j + 1, rd, id))
        } else {
            match sp_string(s, j) {
                Some((k, key)) => {
                    let c = sp_ws(s, k);
                    if !(c < s.len() && s[c] == 58) {
                        None
                    } else {
                        let after: Option<(int, Option<Seq<u8>>, Option<Seq<u8>>)> = if key
                            == encode_utf8("id"@) {
                            match sp_string(s, sp_ws(s, c + 1)) {
                                Some((v, text)) => Some((v, Some(text), rd)),
                                None => None,
                            }
                        } else if key == encode_utf8("randomData"@) {
                            match sp_string(s, sp_ws(s, c + 1)) {
                                Some((v, text)) => Some((v, id, Some(text))),
                                None => None,
                            }
                        } else {
                            match sp_skip_value(s, c + 1, (fuel - 1) as nat) {
                                Some(v) => Some((v, id, rd)),
                                None => None,
                            }
                        };
                        match after {
                            Some((v, id2, rd2)) => {
                                let e = sp_ws(s, v);
                                if !(e < s.len()) {
                                    None
                                } else if s[e] == 125 {
                                    Some((e + 1, rd2, id2))
                                } else if s[e] == 44 && e + 1 > i {
                                    sp_chobj_members(s, e + 1, fuel, id2, rd2)
                                } else {
                                    None
                                }
                            },
                            None => None,
                        }
                    }
                },
                None => None,
            }
        }
    }
}

/// Reads the members of the `rules` object from just past its `{` (or past
/// a `,`), remembering the latest `difficulty` integer and `algorithm`
/// string and skipping unknown members.
pub open spec fn sp_rules_members(
    s: Seq<u8>,
    i: int,
    fuel: nat,
    diff: Option<nat>,
    alg: Option<Seq<u8>>,
) -> Option<(int, Option<nat>, Option<Seq<u8>>)>
    decreases fuel, s.len() - i, 0int,
{
    if fuel == 0 {
        None
    } else {
        let j = sp_ws(s, i);
        if !(0 <= j < s.len()) {
            None
        } else if s[j] == 125 {
            Some((j + 1, diff, alg))
        } else {
            match sp_string(s, j) {
                Some((k, key)) => {
                    let c = sp_ws(s, k);
                    if !(c < s.len() && s[c] == 58) {
                        None
                    } else {
                        let after: Option<(int, Option<nat>, Option<Seq<u8>>)> = if key
                            == encode_utf8("difficulty"@) {
                            match sp_uint(s, sp_ws(s, c + 1)) {
                                Some((v, n)) => Some((v, Some(n), alg)),
                                None => None,
                            }
                        } else if key == encode_utf8("algorithm"@) {
                            match sp_string(s, sp_ws(s, c + 1)) {
                                Some((v, text)) => Some((v, diff, Some(text))),
                                None => None,
                            }
                        } else {
                            match sp_skip_value(s, c + 1, (fuel - 1) as nat) {
                                Some(v) => Some((v, diff, alg)),
                                None => None,
                            }
                        };
                        match after {
                            Some((v, diff2, alg2)) => {
                                let e = sp_ws(s, v);
                                if !(e < s.len()) {
                                    None
                                } else if s[e] == 125 {
                                    Some((e + 1, diff2, alg2))
                                } else if s[e] == 44 && e + 1 > i {
                                    sp_rules_members(s, e + 1, fuel, diff2, alg2)
                                } else {
                                    None
                                }
                            },
                            None => None,
                        }
                    }
                },
                None => None,
            }
        }
    }
}

/// Reads the members of the top-level challenge document from just past its
/// `{` (or past a `,`): the `challenge` member in either shape, the `rules`
/// object, and anything else skipped.
pub open spec fn sp_top_members(
    s: Seq<u8>,
    i: int,
    fuel: nat,
    p: Option<Seq<u8>>,
    id: Option<Seq<u8>>,
    diff: Option<nat>,
    alg: Option<Seq<u8>>,
) -> Option<(int, Option<Seq<u8>>, Option<Seq<u8>>, Option<nat>, Option<Seq<u8>>)>
    decreases fuel, s.len() - i, 0int,
{
    if fuel == 0 {
        None
    } else {
        let j = sp_ws(s, i);
        if !(0 <= j < s.len()) {
            None
        } else if s[j] == 125 {
            Some((j + 1, p, id, diff, alg))
        } else {
            match sp_string(s, j) {
                Some((k, key)) => {
                    let c = sp_ws(s, k);
                    if !(c < s.len() && s[c] == 58) {
                        None
                    } else {
                        let after: Option<
                            (int, Option<Seq<u8>>, Option<Seq<u8>>, Option<nat>, Option<Seq<u8>>),
                        > = if key == encode_utf8("challenge"@) {
                            match sp_challenge_value(s, c + 1, (fuel - 1) as nat) {
                                Some((v, p2, id2)) => Some((v, p2, id2, diff, alg)),
                                None => None,
                            }
                        } else if key == encode_utf8("rules"@) {
                            let rj = sp_ws(s, c + 1);
                            if !(0 <= rj < s.len() && s[rj] == 123) {
                                None
                            } else {
                                match sp_rules_members(s, rj + 1, (fuel - 1) as nat, None, None) {
                                    Some((v, d2, a2)) => Some((v, p, id, d2, a2)),
                                    None => None,
                                }
                            }
                        } else {
                            match sp_skip_value(s, c + 1, (fuel - 1) as nat) {
                                Some(v) => Some((v, p, id, diff, alg)),
                                None => None,
                            }
                        };
                        match after {
                            Some((v, p2, id2, d2, a2)) => {
                                let e = sp_ws(s, v);
                                if !(e < s.len()) {
                                    None
                                } else if s[e] == 125 {
                                    Some((e + 1, p2, id2, d2, a2))
                                } else if s[e] == 44 && e + 1 > i {
                                    sp_top_members(s, e + 1, fuel, p2, id2, d2, a2)
                                } else {
                                    None
                                }
                            },
                            None => None,
                        }
                    }
                },
                None => None,
            }
        }
    }
}

/// The nesting budget of the document reader.
pub open spec fn doc_fuel() -> nat {
    200
}

/// What a challenge document denotes, if it is well formed: a JSON object
/// holding a `challenge` member that supplies the payload (and possibly an
/// id) and a `rules` object that supplies the difficulty (and possibly an
/// algorithm label), with nothing but whitespace after it.
pub open spec fn sp_doc(s: Seq<u8>) -> Option<DocParts> {
    let j = sp_ws(s, 0);
    if !(0 <= j < s.len() && s[j] == 123) {
        None
    } else {
        match sp_top_members(s, j + 1, doc_fuel(), None, None, None, None) {
            Some((k, p, id, diff, alg)) => {
                if sp_ws(s, k) != s.len() {
                    None
                } else {
                    match (p, diff) {
                        (Some(payload), Some(d)) => Some(
                            DocParts { payload, id, difficulty: d, algorithm: alg },
                        ),
                        _ => None,
                    }
                }
            },
            None => None,
        }
    }
}

/// The view of an optional byte vector.
pub open spec fn ob_view(o: Option<Vec<u8>>) -> Option<Seq<u8>> {
    match o {
        Some(v) => Some(v@),
        None => None,
    }
}

/// Correspondence between the machine reading of an optional integer and
/// its specification value: present values agree, and a present-but-machine
/// -oversized marker stands exactly for a value beyond `usize`.
pub open spec fn od_corr(dv: Option<Option<usize>>, dg: Option<nat>) -> bool {
    match (dv, dg) {
        (None, None) => true,
        (Some(Some(v)), Some(n)) => v as nat == n && n <= usize::MAX as nat,
        (Some(None), Some(n)) => n > usize::MAX as nat,
        _ => false,
    }
}

/// Byte-vector equality.
pub fn bytes_eq(a: &Vec<u8>, b: &Vec<u8>) -> (r: bool)
    ensures
        r == (a@ == b@),
{
    if a.len() != b.len() {
        return false;
    }
    let mut k: usize = 0;
    while k < a.len()
        invariant
            k <= a.len(),
            a.len() == b.len(),
            forall|m: int| 0 <= m < k ==> a@[m] == b@[m],
        decreases a.len() - k,
    {
        if a[k] != b[k] {
            return false;
        }
        k += 1;
    }
    proof {
        assert(a@ =~= b@);
    }
    true
}

/// Whether a byte vector holds exactly the UTF-8 bytes of a literal.
pub fn bytes_is(a: &Vec<u8>, lit: &str) -> (r: bool)
    ensures
        r == (a@ == encode_utf8(lit@)),
{
    let lb = lit.as_bytes_vec();
    bytes_eq(a, &lb)
}

/// Reads the `challenge` member's value.
fn p_challenge_value(s: &Vec<u8>, i: usize, fuel: usize) -> (r: Option<
    (usize, Option<Vec<u8>>, Option<Vec<u8>>),
>)
    requires
        i <= s.len(),
    ensures
        match r {
            Some((j, p, id)) => {
                &&& j <= s.len()
                &&& sp_challenge_value(s@, i as int, fuel as nat) == Some(
                    (j as int, ob_view(p), ob_view(id)),
                )
            },
            None => sp_challenge_value(s@, i as int, fuel as nat) is None,
        },
{
    if fuel == 0 {
        return None;
    }
    let j = p_ws(s, i);
    if j >= s.len() {
        return None;
    }
    if s[j] == 34 {
        match p_string(s, j) {
            Some((k, pbytes)) => Some((k, Some(pbytes), None)),
            None => None,
        }
    } else if s[j] == 123 {
        p_chobj_members(s, j + 1, fuel - 1)
    } else {
        None
    }
}

/// Reads the members of the object form of the `challenge` value.
fn p_chobj_members(s: &Vec<u8>, i: usize, fuel: usize) -> (r: Option<
    (usize, Option<Vec<u8>>, Option<Vec<u8>>),
>)
    requires
        i <= s.len(),
    ensures
        match r {
            Some((j, rd, id)) => {
                &&& j <= s.len()
                &&& sp_chobj_members(s@, i as int, fuel as nat, None, None) == Some(
                    (j as int, ob_view(rd), ob_view(id)),
                )
            },
            None => sp_chobj_members(s@, i as int, fuel as nat, None, None) is None,
        },
{
    if fuel == 0 {
        return None;
    }
    let mut pos = i;
    let mut id: Option<Vec<u8>> = None;
    let mut rd: Option<Vec<u8>> = None;
    let ghost mut id_g: Option<Seq<u8>> = None;
    let ghost mut rd_g: Option<Seq<u8>> = None;
    loop
        invariant
            i <= pos <= s.len(),
            fuel >= 1,
            ob_view(id) == id_g,
            ob_view(rd) == rd_g,
            sp_chobj_members(s@, i as int, fuel as nat, None, None) == sp_chobj_members(
                s@,
                pos as int,
                fuel as nat,
                id_g,
                rd_g,
            ),
        decreases s.len() - pos,
    {
        let j = p_ws(s, pos);
        if j >= s.len() {
            return None;
        }
        if s[j] == 125 {
            return Some((j + 1, rd, id));
        }
        let (k, key) = match p_string(s, j) {
            Some(kk) => kk,
            None => {
                return None;
            },
        };
        let c = p_ws(s, k);
        if !(c < s.len() && s[c] == 58) {
            return None;
        }
        let step: Option<(usize, Option<Vec<u8>>, Option<Vec<u8>>)> = if bytes_is(&key, "id") {
            let vj = p_ws(s, c + 1);
            match p_string(s, vj) {
                Some((v, text)) => Some((v, Some(text), rd)),
                None => None,
            }
        } else if bytes_is(&key, "randomData") {
            let vj = p_ws(s, c + 1);
            match p_string(s, vj) {
                Some((v, text)) => Some((v, id, Some(text))),
                None => None,
            }
        } else {
            match p_skip_value(s, c + 1, fuel - 1) {
                Some(v) => Some((v, id, rd)),
                None => None,
            }
        };
        match step {
            Some((v, id2, rd2)) => {
                let e = p_ws(s, v);
                if e >= s.len() {
                    return None;
                }
                if s[e] == 125 {
                    return Some((e + 1, rd2, id2));
                }
                if s[e] == 44 && e + 1 > pos {
                    pos = e + 1;
                    id = id2;
                    rd = rd2;
                    proof {
                        id_g = ob_view(id);
                        rd_g = ob_view(rd);
                    }
                } else {
                    return None;
                }
            },
            None => {
                return None;
            },
        }
    }
}

/// Reads the members of the `rules` object.
fn p_rules_members(s: &Vec<u8>, i: usize, fuel: usize) -> (r: Option<
    (usize, Option<Option<usize>>, Option<Vec<u8>>),
>)
    requires
        i <= s.len(),
    ensures
        match r {
            Some((j, dv, alg)) => {
                &&& j <= s.len()
                &&& match sp_rules_members(s@, i as int, fuel as nat, None, None) {
                    Some((j2, d2, a2)) => j as int == j2 && od_corr(dv, d2) && ob_view(alg) == a2,
                    None => false,
                }
            },
            None => sp_rules_members(s@, i as int, fuel as nat, None, None) is None,
        },
{
    if fuel == 0 {
        return None;
    }
    let mut pos = i;
    let mut dv: Option<Option<usize>> = None;
    let mut alg: Option<Vec<u8>> = None;
    let ghost mut d_g: Option<nat> = None;
    let ghost mut a_g: Option<Seq<u8>> = None;
    loop
        invariant
            i <= pos <= s.len(),
            fuel >= 1,
            od_corr(dv, d_g),
            ob_view(alg) == a_g,
            sp_rules_members(s@, i as int, fuel as nat, None, None) == sp_rules_members(
                s@,
                pos as int,
                fuel as nat,
                d_g,
                a_g,
            ),
        decreases s.len() - pos,
    {
        let j = p_ws(s, pos);
        if j >= s.len() {
            return None;
        }
        if s[j] == 125 {
            return Some((j + 1, dv, alg));
        }
        let (k, key) = match p_string(s, j) {
            Some(kk) => kk,
            None => {
                return None;
            },
        };
        let c = p_ws(s, k);
        if !(c < s.len() && s[c] == 58) {
            return None;
        }
        let ghost mut d_g2: Option<nat> = d_g;
        let ghost mut a_g2: Option<Seq<u8>> = a_g;
        let step: Option<(usize, Option<Option<usize>>, Option<Vec<u8>>)> = if bytes_is(
            &key,
            "difficulty",
        ) {
            let vj = p_ws(s, c + 1);
            match p_uint(s, vj) {
                Some((v, val)) => {
                    proof {
                        d_g2 = match sp_uint(s@, vj as int) {
                            Some((jj, n)) => Some(n),
                            None => None,
                        };
                    }
                    Some((v, Some(val), alg))
                },
                None => None,
            }
        } else if bytes_is(&key, "algorithm") {
            let vj = p_ws(s, c + 1);
            match p_string(s, vj) {
                Some((v, text)) => {
                    proof {
                        a_g2 = Some(text@);
                    }
                    Some((v, dv, Some(text)))
                },
                None => None,
            }
        } else {
            match p_skip_value(s, c + 1, fuel - 1) {
                Some(v) => Some((v, dv, alg)),
                None => None,
            }
        };
        match step {
            Some((v, dv2, alg2)) => {
                let e = p_ws(s, v);
                if e >= s.len() {
                    return None;
                }
                if s[e] == 125 {
                    return Some((e + 1, dv2, alg2));
                }
                if s[e] == 44 && e + 1 > pos {
                    pos = e + 1;
                    dv = dv2;
                    alg = alg2;
                    proof {
                        d_g = d_g2;
                        a_g = a_g2;
                    }
                } else {
                    return None;
                }
            },
            None => {
                return None;
            },
        }
    }
}

/// Reads the members of the top-level challenge document.
fn p_top_members(s: &Vec<u8>, i: usize, fuel: usize) -> (r: Option<
    (usize, Option<Vec<u8>>, Option<Vec<u8>>, Option<Option<usize>>, Option<Vec<u8>>),
>)
    requires
        i <= s.len(),
    ensures
        match r {
            Some((j, p, id, dv, alg)) => {
                &&& j <= s.len()
                &&& match sp_top_members(s@, i as int, fuel as nat, None, None, None, None) {
                    Some((j2, p2, id2, d2, a2)) => {
                        &&& j as int == j2
                        &&& ob_view(p) == p2
                        &&& ob_view(id) == id2
                        &&& od_corr(dv, d2)
                        &&& ob_view(alg) == a2
                    },
                    None => false,
                }
            },
            None => sp_top_members(s@, i as int, fuel as nat, None, None, None, None) is None,
        },
{
    if fuel == 0 {
        return None;
    }
    let mut pos = i;
    let mut p: Option<Vec<u8>> = None;
    let mut id: Option<Vec<u8>> = None;
    let mut dv: Option<Option<usize>> = None;
    let mut alg: Option<Vec<u8>> = None;
    let ghost mut p_g: Option<Seq<u8>> = None;
    let ghost mut id_g: Option<Seq<u8>> = None;
    let ghost mut d_g: Option<nat> = None;
    let ghost mut a_g: Option<Seq<u8>> = None;
    loop
        invariant
            i <= pos <= s.len(),
            fuel >= 1,
            ob_view(p) == p_g,
            ob_view(id) == id_g,
            od_corr(dv, d_g),
            ob_view(alg) == a_g,
            sp_top_members(s@, i as int, fuel as nat, None, None, None, None) == sp_top_members(
                s@,
                pos as int,
                fuel as nat,
                p_g,
                id_g,
                d_g,
                a_g,
            ),
        decreases s.len() - pos,
    {
        let j = p_ws(s, pos);
        if j >= s.len() {
            return None;
        }
        if s[j] == 125 {
            return Some((j + 1, p, id, dv, alg));
        }
        let (k, key) = match p_string(s, j) {
            Some(kk) => kk,
            None => {
                return None;
            },
        };
        let c = p_ws(s, k);
        if !(c < s.len() && s[c] == 58) {
            return None;
        }
        let ghost mut p_g2: Option<Seq<u8>> = p_g;
        let ghost mut id_g2: Option<Seq<u8>> = id_g;
        let ghost mut d_g2: Option<nat> = d_g;
        let ghost mut a_g2: Option<Seq<u8>> = a_g;
        let step: Option<
            (usize, Option<Vec<u8>>, Option<Vec<u8>>, Option<Option<usize>>, Option<Vec<u8>>),
        > = if bytes_is(&key, "challenge") {
            match p_challenge_value(s, c + 1, fuel - 1) {
                Some((v, p2, id2)) => {
                    proof {
                        p_g2 = ob_view(p2);
                        id_g2 = ob_view(id2);
                    }
                    Some((v, p2, id2, dv, alg))
                },
                None => None,
            }
        } else if bytes_is(&key, "rules") {
            let rj = p_ws(s, c + 1);
            if !(rj < s.len() && s[rj] == 123) {
                None
            } else {
                match p_rules_members(s, rj + 1, fuel - 1) {
                    Some((v, d2, a2)) => {
                        proof {
                            let spec_rules = sp_rules_members(
                                s@,
                                rj as int + 1,
                                (fuel - 1) as nat,
                                None,
                                None,
                            );
                            d_g2 = match spec_rules {
                                Some((jj, dd, aa)) => dd,
                                None => None,
                            };
                            a_g2 = match spec_rules {
                                Some((jj, dd, aa)) => aa,
                                None => None,
                            };
                        }
                        Some((v, p, id, d2, a2))
                    },
                    None => None,
                }
            }
        } else {
            match p_skip_value(s, c + 1, fuel - 1) {
                Some(v) => Some((v, p, id, dv, alg)),
                None => None,
            }
        };
        match step {
            Some((v, p2, id2, dv2, alg2)) => {
                let e = p_ws(s, v);
                if e >= s.len() {
                    return None;
                }
                if s[e] == 125 {
                    return Some((e + 1, p2, id2, dv2, alg2));
                }
                if s[e] == 44 && e + 1 > pos {
                    pos = e + 1;
                    p = p2;
                    id = id2;
                    dv = dv2;
                    alg = alg2;
                    proof {
                        p_g = p_g2;
                        id_g = id_g2;
                        d_g = d_g2;
                        a_g = a_g2;
                    }
                } else {
                    return None;
                }
            },
            None => {
                return None;
            },
        }
    }
}

/// The machine reading of a challenge document: payload and optional id and
/// algorithm-label bytes, and the difficulty when it fits the machine
/// (`None` marks a present but oversized value).
struct RawChallenge {
    payload: Vec<u8>,
    id: Option<Vec<u8>>,
    difficulty: Option<usize>,
    algorithm: Option<Vec<u8>>,
}

/// Reads a whole challenge document.
fn p_doc(s: &Vec<u8>) -> (r: Option<RawChallenge>)
    ensures
        match sp_doc(s@) {
            Some(parts) => match r {
                Some(raw) => {
                    &&& raw.payload@ == parts.payload
                    &&& ob_view(raw.id) == parts.id
                    &&& match raw.difficulty {
                        Some(d) => parts.difficulty <= usize::MAX as nat && d as nat
                            == parts.difficulty,
                        None => parts.difficulty > usize::MAX as nat,
                    }
                    &&& ob_view(raw.algorithm) == parts.algorithm
                },
                None => false,
            },
            None => r is None,
        },
{
    let j = p_ws(s, 0);
    if j >= s.len() || s[j] != 123 {
        return None;
    }
    match p_top_members(s, j + 1, 200) {
        Some((k, p, id, dv, alg)) => {
            let e = p_ws(s, k);
            if e != s.len() {
                return None;
            }
            match (p, dv) {
                (Some(payload), Some(dopt)) => Some(
                    RawChallenge { payload, id, difficulty: dopt, algorithm: alg },
                ),
                _ => None,
            }
        },
        None => None,
    }
}

/// The first position at or after `i` where `pat` occurs in `s`.
pub open spec fn first_match_from(s: Seq<u8>, pat: Seq<u8>, i: int) -> Option<int>
    decreases s.len() - i + 1,
{
    if !(0 <= i && i + pat.len() <= s.len()) {
        None
    } else if s.subrange(i, i + pat.len() as int) == pat {
        Some(i)
    } else {
        first_match_from(s, pat, i + 1)
    }
}

/// A found occurrence lies fully inside the input and not before `i`.
pub proof fn lemma_first_match_bounds(s: Seq<u8>, pat: Seq<u8>, i: int)
    requires
        0 <= i,
    ensures
        match first_match_from(s, pat, i) {
            Some(j) => i <= j && j + pat.len() <= s.len(),
            None => true,
        },
    decreases s.len() - i + 1,
{
    if 0 <= i && i + pat.len() <= s.len() && s.subrange(i, i + pat.len() as int) != pat {
        lemma_first_match_bounds(s, pat, i + 1);
    }
}

/// Whether `pat` stands at position `i` of `s`.
fn match_at(s: &Vec<u8>, pat: &Vec<u8>, i: usize) -> (r: bool)
    requires
        i <= s.len(),
    ensures
        r == (i + pat@.len() <= s@.len() && s@.subrange(i as int, i as int + pat@.len() as int)
            == pat@),
{
    if s.len() - i < pat.len() {
        return false;
    }
    let mut k: usize = 0;
    while k < pat.len()
        invariant
            k <= pat.len(),
            i + pat.len() <= s.len(),
            forall|m: int| 0 <= m < k ==> s@[i + m] == pat@[m],
        decreases pat.len() - k,
    {
        if s[i + k] != pat[k] {
            proof {
                assert(s@.subrange(i as int, i as int + pat@.len() as int)[k as int] == s@[i
                    + k]);
            }
            return false;
        }
        k += 1;
    }
    proof {
        assert(s@.subrange(i as int, i as int + pat@.len() as int) =~= pat@);
    }
    true
}

/// Finds the first occurrence of `pat` at or after `i`.
fn find_from(s: &Vec<u8>, pat: &Vec<u8>, i: usize) -> (r: Option<usize>)
    requires
        i <= s.len(),
    ensures
        match r {
            Some(j) => first_match_from(s@, pat@, i as int) == Some(j as int) && j <= s.len(),
            None => first_match_from(s@, pat@, i as int) is None,
        },
{
    let mut k = i;
    loop
        invariant
            i <= k <= s.len(),
            first_match_from(s@, pat@, i as int) == first_match_from(s@, pat@, k as int),
        decreases s.len() - k,
    {
        if s.len() - k < pat.len() {
            return None;
        }
        if match_at(s, pat, k) {
            return Some(k);
        }
        proof {
            if pat@.len() == 0 {
                assert(s@.subrange(k as int, k as int + pat@.len() as int) =~= pat@);
            }
        }
        k += 1;
    }
}

/// The trailing boundary of `t` once whitespace is dropped from position
/// `j` backwards.
pub open spec fn sp_trim_end(t: Seq<u8>, j: int) -> int
    decreases j,
{
    if 0 < j <= t.len() && is_ws(t[j - 1]) {
        sp_trim_end(t, j - 1)
    } else {
        j
    }
}

/// `t` with leading and trailing whitespace dropped.
pub open spec fn sp_trim(t: Seq<u8>) -> Seq<u8> {
    let a = sp_ws(t, 0);
    let b = sp_trim_end(t, t.len() as int);
    if 0 <= a <= b <= t.len() {
        t.subrange(a, b)
    } else {
        Seq::empty()
    }
}

/// Copies the byte range `a..b`.
fn subvec(s: &Vec<u8>, a: usize, b: usize) -> (r: Vec<u8>)
    requires
        a <= b <= s.len(),
    ensures
        r@ == s@.subrange(a as int, b as int),
{
    let mut r: Vec<u8> = Vec::new();
    let mut k = a;
    while k < b
        invariant
            a <= k <= b <= s.len(),
            r@ == s@.subrange(a as int, k as int),
        decreases b - k,
    {
        r.push(s[k]);
        proof {
            assert(s@.subrange(a as int, k as int + 1) =~= s@.subrange(a as int, k as int).push(
                s@[k as int],
            ));
        }
        k += 1;
    }
    r
}

/// Trims ASCII whitespace from both ends.
fn p_trim(t: &Vec<u8>) -> (r: Vec<u8>)
    ensures
        r@ == sp_trim(t@),
{
    let a = p_ws(t, 0);
    let mut b = t.len();
    loop
        invariant
            b <= t.len(),
            a <= t.len(),
            a as int == sp_ws(t@, 0),
            sp_trim_end(t@, t@.len() as int) == sp_trim_end(t@, b as int),
        decreases b,
    {
        if b > 0 {
            let c = t[b - 1];
            if c == 32 || c == 9 || c == 10 || c == 13 {
                b -= 1;
                continue ;
            }
        }
        if a <= b {
            return subvec(t, a, b);
        } else {
            return Vec::new();
        }
    }
}

/// The trimmed content of the element whose opening tag holds `marker`:
/// everything between the first `>` after the marker and the next `<`.
pub open spec fn sp_elem_content(html: Seq<u8>, marker: Seq<u8>) -> Option<Seq<u8>> {
    match first_match_from(html, marker, 0) {
        None => None,
        Some(m) => match first_match_from(html, seq![62u8], m + marker.len() as int) {
            None => None,
            Some(g) => match first_match_from(html, seq![60u8], g + 1) {
                None => None,
                Some(l) => if g + 1 <= l <= html.len() {
                    Some(sp_trim(html.subrange(g + 1, l)))
                } else {
                    None
                },
            },
        },
    }
}

/// Locates the marked element and returns its trimmed content.
fn elem_content(html: &Vec<u8>, marker: &Vec<u8>) -> (r: Option<Vec<u8>>)
    ensures
        match r {
            Some(c) => sp_elem_content(html@, marker@) == Some(c@),
            None => sp_elem_content(html@, marker@) is None,
        },
{
    let m = match find_from(html, marker, 0) {
        Some(m) => m,
        None => {
            return None;
        },
    };
    let mut gt: Vec<u8> = Vec::new();
    gt.push(62);
    let mut lt: Vec<u8> = Vec::new();
    lt.push(60);
    proof {
        assert(gt@ =~= seq![62u8]);
        assert(lt@ =~= seq![60u8]);
    }
    proof {
        lemma_first_match_bounds(html@, marker@, 0);
    }
    let start = m + marker.len();
    let g = match find_from(html, &gt, start) {
        Some(g) => g,
        None => {
            return None;
        },
    };
    proof {
        lemma_first_match_bounds(html@, gt@, start as int);
    }
    let l = match find_from(html, &lt, g + 1) {
        Some(l) => l,
        None => {
            return None;
        },
    };
    proof {
        lemma_first_match_bounds(html@, lt@, g as int + 1);
    }
    if g + 1 <= l && l <= html.len() {
        let region = subvec(html, g + 1, l);
        Some(p_trim(&region))
    } else {
        None
    }
}

/// The marker whose presence in an HTML body announces an embedded
/// challenge: the id attribute of the challenge element.
pub open spec fn marker_bytes() -> Seq<u8> {
    encode_utf8("id=\"anubis_challenge\""@)
}

/// The id attribute of the optional version element.
pub open spec fn version_marker_bytes() -> Seq<u8> {
    encode_utf8("id=\"anubis_version\""@)
}

/// The algorithm denoted by an optional label: absent or empty means
/// `Fast`; a recognized label maps to its variant; anything else is
/// `Unknown`.
pub open spec fn spec_algorithm_of(alg: Option<Seq<u8>>) -> Algorithm {
    match alg {
        None => Algorithm::Fast,
        Some(b) => if b.len() == 0 {
            Algorithm::Fast
        } else if b == encode_utf8("fast"@) {
            Algorithm::Fast
        } else if b == encode_utf8("slow"@) {
            Algorithm::Slow
        } else if b == encode_utf8("preact"@) {
            Algorithm::Preact
        } else if b == encode_utf8("metarefresh"@) {
            Algorithm::Metarefresh
        } else {
            Algorithm::Unknown
        },
    }
}

/// Resolves an optional algorithm label to its variant.
fn algorithm_of(alg: &Option<Vec<u8>>) -> (r: Algorithm)
    ensures
        r == spec_algorithm_of(match *alg {
            Some(ref v) => Some(v@),
            None => None,
        }),
{
    match alg {
        None => Algorithm::Fast,
        Some(v) => {
            if v.len() == 0 {
                Algorithm::Fast
            } else if bytes_is(v, "fast") {
                Algorithm::Fast
            } else if bytes_is(v, "slow") {
                Algorithm::Slow
            } else if bytes_is(v, "preact") {
                Algorithm::Preact
            } else if bytes_is(v, "metarefresh") {
                Algorithm::Metarefresh
            } else {
                Algorithm::Unknown
            }
        },
    }
}

/// The version label's bytes, read best-effort from the version element:
/// a quoted JSON string that spans the whole content is unquoted, any other
/// non-empty content is taken as it stands.
pub open spec fn sp_version_bytes(html: Seq<u8>) -> Option<Seq<u8>> {
    match sp_elem_content(html, version_marker_bytes()) {
        None => None,
        Some(vc) => if vc.len() == 0 {
            None
        } else if vc[0] == 34 {
            match sp_string(vc, 0) {
                Some((j, content)) => if j == vc.len() {
                    Some(content)
                } else {
                    Some(vc)
                },
                None => Some(vc),
            }
        } else {
            Some(vc)
        },
    }
}

/// How a version string relates to the version bytes found in the HTML:
/// absent or undecodable bytes fall back to `unknown`.
pub open spec fn version_matches(vb: Option<Seq<u8>>, v: Seq<char>) -> bool {
    match vb {
        None => v == "unknown"@,
        Some(b) => if valid_utf8(b) {
            encode_utf8(v) == b
        } else {
            v == "unknown"@
        },
    }
}

/// Reads the version label from an HTML body, defaulting to `unknown`.
fn version_string(html: &Vec<u8>) -> (r: String)
    ensures
        version_matches(sp_version_bytes(html@), r@),
{
    let vmarker = "id=\"anubis_version\"".as_bytes_vec();
    let vc = match elem_content(html, &vmarker) {
        Some(vc) => vc,
        None => {
            return String::from_str("unknown");
        },
    };
    if vc.len() == 0 {
        return String::from_str("unknown");
    }
    let bytes: Vec<u8> = if vc[0] == 34 {
        match p_string(&vc, 0) {
            Some((j, content)) => if j == vc.len() {
                content
            } else {
                vc
            },
            None => vc,
        }
    } else {
        vc
    };
    match bytes_to_string(bytes) {
        Some(s) => s,
        None => String::from_str("unknown"),
    }
}

/// A challenge located in an HTML body, with the companion version label.
#[derive(Clone, Debug)]
pub struct ParsedChallenge {
    pub challenge: AnubisChallenge,
    pub version: String,
}

/// The outcome of running the extractor over an HTML body: no challenge at
/// all (benign), a marked challenge whose content does not decode (fatal
/// for the request), or a decoded challenge.
#[derive(Clone, Debug)]
pub enum Extraction {
    Absent,
    Malformed,
    Found(ParsedChallenge),
}

/// The challenge document's machine-side validity: the difficulty fits the
/// machine and the payload and id decode as UTF-8.
pub open spec fn parts_decodable(parts: DocParts) -> bool {
    &&& parts.difficulty <= usize::MAX as nat
    &&& valid_utf8(parts.payload)
    &&& match parts.id {
        Some(b) => valid_utf8(b),
        None => true,
    }
}

/// How a found challenge relates to the document it was read from.
pub open spec fn found_matches(html: Seq<u8>, parts: DocParts, r: Extraction) -> bool {
    match r {
        Extraction::Found(pc) => {
            &&& encode_utf8(pc.challenge.challenge@) == parts.payload
            &&& match (parts.id, pc.challenge.id) {
                (None, None) => true,
                (Some(b), Some(s)) => encode_utf8(s@) == b,
                _ => false,
            }
            &&& pc.challenge.rules.difficulty as nat == parts.difficulty
            &&& pc.challenge.rules.algorithm == spec_algorithm_of(parts.algorithm)
            &&& version_matches(sp_version_bytes(html), pc.version@)
        },
        _ => false,
    }
}

/// What the extractor returns for an HTML body: no marked element, an
/// empty element, or the literal `null` is no challenge; a marked element
/// whose content is not a well-formed, machine-decodable challenge document
/// is a malformed challenge; anything else is the decoded challenge.
pub open spec fn extract_matches(html: Seq<u8>, r: Extraction) -> bool {
    match sp_elem_content(html, marker_bytes()) {
        None => r is Absent,
        Some(c) => if c.len() == 0 || c == encode_utf8("null"@) {
            r is Absent
        } else {
            match sp_doc(c) {
                None => r is Malformed,
                Some(parts) => if !parts_decodable(parts) {
                    r is Malformed
                } else {
                    found_matches(html, parts, r)
                },
            }
        },
    }
}

/// Runs the extractor over an HTML body given as bytes.
pub fn parse_challenge_from_bytes(body: &Vec<u8>) -> (r: Extraction)
    ensures
        extract_matches(body@, r),
{
    let marker = "id=\"anubis_challenge\"".as_bytes_vec();
    let content = match elem_content(body, &marker) {
        Some(c) => c,
        None => {
            return Extraction::Absent;
        },
    };
    if content.len() == 0 {
        return Extraction::Absent;
    }
    if bytes_is(&content, "null") {
        return Extraction::Absent;
    }
    let raw = match p_doc(&content) {
        Some(raw) => raw,
        None => {
            return Extraction::Malformed;
        },
    };
    let difficulty = match raw.difficulty {
        Some(d) => d,
        None => {
            return Extraction::Malformed;
        },
    };
    let payload = match bytes_to_string(raw.payload) {
        Some(s) => s,
        None => {
            return Extraction::Malformed;
        },
    };
    let id: Option<String> = match raw.id {
        Some(v) => match bytes_to_string(v) {
            Some(s) => Some(s),
            None => {
                return Extraction::Malformed;
            },
        },
        None => None,
    };
    let algorithm = algorithm_of(&raw.algorithm);
    let version = version_string(body);
    Extraction::Found(
        ParsedChallenge {
            challenge: AnubisChallenge {
                challenge: payload,
                id,
                rules: AnubisChallengeRules { difficulty, algorithm },
            },
            version,
        },
    )
}

/// Runs the extractor over an HTML body.
pub fn parse_challenge_from_html(html: &str) -> (r: Extraction)
    ensures
        extract_matches(encode_utf8(html@), r),
{
    let body = html.as_bytes_vec();
    parse_challenge_from_bytes(&body)
}

} // verus!
