//! A small JSON reader, exactly as the challenge wire format needs it:
//! strings with the simple escapes and `\u` scalar escapes, unsigned
//! integers, and skipping of arbitrary unknown values.  Each executable
//! function is proved equal to a specification-level reader; the
//! specification readers are the grammar.

use vstd::prelude::*;

verus! {

/// JSON insignificant whitespace.
pub open spec fn is_ws(b: u8) -> bool {
    b == 32 || b == 9 || b == 10 || b == 13
}

/// The first position at or after `i` that does not hold whitespace.
pub open spec fn sp_ws(s: Seq<u8>, i: int) -> int
    decreases s.len() - i,
{
    if 0 <= i < s.len() && is_ws(s[i]) {
        sp_ws(s, i + 1)
    } else {
        i
    }
}


/// Advances past whitespace.
pub fn p_ws(s: &Vec<u8>, i: usize) -> (r: usize)
    requires
        i <= s.len(),
    ensures
        r as int == sp_ws(s@, i as int),
        i <= r <= s.len(),
{
    let mut k = i;
    loop
        invariant
            i <= k <= s.len(),
            sp_ws(s@, i as int) == sp_ws(s@, k as int),
        decreases s.len() - k,
    {
        if k < s.len() {
            let b = s[k];
            if b == 32 || b == 9 || b == 10 || b == 13 {
                k += 1;
                continue ;
            }
        }
        return k;
    }
}

/// The byte a simple escape character stands for, if it is recognized.
/// The `\u` form is read separately, by [`sp_str_body`].
pub open spec fn sp_escape(e: u8) -> Option<u8> {
    if e == 34 {
        Some(34u8)
    } else if e == 92 {
        Some(92u8)
    } else if e == 47 {
        Some(47u8)
    } else if e == 98 {
        Some(8u8)
    } else if e == 102 {
        Some(12u8)
    } else if e == 110 {
        Some(10u8)
    } else if e == 114 {
        Some(13u8)
    } else if e == 116 {
        Some(9u8)
    } else {
        None
    }
}

/// The numeric value of a hexadecimal digit byte, either case.
pub open spec fn hex_digit_val(b: u8) -> Option<int> {
    if 48 <= b <= 57 {
        Some((b - 48) as int)
    } else if 97 <= b <= 102 {
        Some((b - 87) as int)
    } else if 65 <= b <= 70 {
        Some((b - 55) as int)
    } else {
        None
    }
}

/// The UTF-8 bytes of a Unicode scalar.
pub open spec fn utf8_of_scalar(cp: int) -> Seq<u8> {
    if cp < 0x80 {
        seq![cp as u8]
    } else if cp < 0x800 {
        seq![(192 + cp / 64) as u8, (128 + cp % 64) as u8]
    } else if cp < 0x10000 {
        seq![(224 + cp / 4096) as u8, (128 + (cp / 64) % 64) as u8, (128 + cp % 64) as u8]
    } else {
        seq![
            (240 + cp / 262144) as u8,
            (128 + (cp / 4096) % 64) as u8,
            (128 + (cp / 64) % 64) as u8,
            (128 + cp % 64) as u8,
        ]
    }
}

/// Reads the remainder of a quoted string from `i` (just past the opening
/// quote), appending the unescaped content to `acc`; yields the position
/// just past the closing quote.  A `\uXXXX` escape of a scalar outside the
/// surrogate range appends that scalar's UTF-8 bytes; a high surrogate
/// escape followed by a low one appends the combined astral scalar's UTF-8
/// bytes; a lone or misordered surrogate fails the decode.
pub open spec fn sp_str_body(s: Seq<u8>, i: int, acc: Seq<u8>) -> Option<(int, Seq<u8>)>
    decreases s.len() - i,
{
    if i < 0 || i >= s.len() {
        None
    } else if s[i] == 34 {
        Some((i + 1, acc))
    } else if s[i] == 92 {
        if i + 1 >= s.len() {
            None
        } else if s[i + 1] == 117 {
            if i + 6 > s.len() {
                None
            } else {
                match (
                    hex_digit_val(s[i + 2]),
                    hex_digit_val(s[i + 3]),
                    hex_digit_val(s[i + 4]),
                    hex_digit_val(s[i + 5]),
                ) {
                    (Some(h1), Some(h2), Some(h3), Some(h4)) => {
                        let cp = h1 * 4096 + h2 * 256 + h3 * 16 + h4;
                        if 0xDC00 <= cp <= 0xDFFF {
                            None
                        } else if 0xD800 <= cp <= 0xDBFF {
                            if i + 12 > s.len() {
                                None
                            } else if !(s[i + 6] == 92 && s[i + 7] == 117) {
                                None
                            } else {
                                match (
                                    hex_digit_val(s[i + 8]),
                                    hex_digit_val(s[i + 9]),
                                    hex_digit_val(s[i + 10]),
                                    hex_digit_val(s[i + 11]),
                                ) {
                                    (Some(g1), Some(g2), Some(g3), Some(g4)) => {
                                        let lo = g1 * 4096 + g2 * 256 + g3 * 16 + g4;
                                        if 0xDC00 <= lo <= 0xDFFF {
                                            sp_str_body(
                                                s,
                                                i + 12,
                                                acc + utf8_of_scalar(
                                                    0x10000 + (cp - 0xD800) * 0x400 + (lo
                                                        - 0xDC00),
                                                ),
                                            )
                                        } else {
                                            None
                                        }
                                    },
                                    _ => None,
                                }
                            }
                        } else {
                            sp_str_body(s, i + 6, acc + utf8_of_scalar(cp))
                        }
                    },
                    _ => None,
                }
            }
        } else {
            match sp_escape(s[i + 1]) {
                Some(m) => sp_str_body(s, i + 2, acc.push(m)),
                None => None,
            }
        }
    } else {
        sp_str_body(s, i + 1, acc.push(s[i]))
    }
}

/// Reads a quoted string starting at `i` (at the opening quote); yields the
/// position just past the closing quote and the unescaped content.
pub open spec fn sp_string(s: Seq<u8>, i: int) -> Option<(int, Seq<u8>)> {
    if 0 <= i < s.len() && s[i] == 34 {
        sp_str_body(s, i + 1, Seq::empty())
    } else {
        None
    }
}


/// Reads one hexadecimal digit byte.
fn hex_val(b: u8) -> (r: Option<u8>)
    ensures
        match r {
            Some(v) => hex_digit_val(b) == Some(v as int) && v < 16,
            None => hex_digit_val(b) is None,
        },
{
    if 48 <= b && b <= 57 {
        Some(b - 48)
    } else if 97 <= b && b <= 102 {
        Some(b - 87)
    } else if 65 <= b && b <= 70 {
        Some(b - 55)
    } else {
        None
    }
}

/// Reads a quoted string.
pub fn p_string(s: &Vec<u8>, i: usize) -> (r: Option<(usize, Vec<u8>)>)
    requires
        i <= s.len(),
    ensures
        match r {
            Some((j, content)) => {
                &&& sp_string(s@, i as int) == Some((j as int, content@))
                &&& i < j <= s.len()
            },
            None => sp_string(s@, i as int) is None,
        },
{
    if i >= s.len() || s[i] != 34 {
        return None;
    }
    let mut acc: Vec<u8> = Vec::new();
    let mut k = i + 1;
    loop
        invariant
            i < k <= s.len(),
            sp_string(s@, i as int) == sp_str_body(s@, k as int, acc@),
        decreases s.len() - k,
    {
        if k >= s.len() {
            return None;
        }
        let b = s[k];
        if b == 34 {
            return Some((k + 1, acc));
        }
        if b == 92 {
            if k + 1 >= s.len() {
                return None;
            }
            let e = s[k + 1];
            if e == 117 {
                if s.len() - k < 6 {
                    return None;
                }
                let h1 = match hex_val(s[k + 2]) {
                    Some(v) => v,
                    None => {
                        return None;
                    },
                };
                let h2 = match hex_val(s[k + 3]) {
                    Some(v) => v,
                    None => {
                        return None;
                    },
                };
                let h3 = match hex_val(s[k + 4]) {
                    Some(v) => v,
                    None => {
                        return None;
                    },
                };
                let h4 = match hex_val(s[k + 5]) {
                    Some(v) => v,
                    None => {
                        return None;
                    },
                };
                let cp: u32 = (h1 as u32) * 4096 + (h2 as u32) * 256 + (h3 as u32) * 16 + (
                h4 as u32);
                if 0xDC00 <= cp && cp <= 0xDFFF {
                    return None;
                }
                if 0xD800 <= cp && cp <= 0xDBFF {
                    if s.len() - k < 12 {
                        return None;
                    }
                    if !(s[k + 6] == 92 && s[k + 7] == 117) {
                        return None;
                    }
                    let g1 = match hex_val(s[k + 8]) {
                        Some(v) => v,
                        None => {
                            return None;
                        },
                    };
                    let g2 = match hex_val(s[k + 9]) {
                        Some(v) => v,
                        None => {
                            return None;
                        },
                    };
                    let g3 = match hex_val(s[k + 10]) {
                        Some(v) => v,
                        None => {
                            return None;
                        },
                    };
                    let g4 = match hex_val(s[k + 11]) {
                        Some(v) => v,
                        None => {
                            return None;
                        },
                    };
                    let lo: u32 = (g1 as u32) * 4096 + (g2 as u32) * 256 + (g3 as u32) * 16 + (
                    g4 as u32);
                    if !(0xDC00 <= lo && lo <= 0xDFFF) {
                        return None;
                    }
                    let scalar: u32 = 0x10000 + (cp - 0xD800) * 0x400 + (lo - 0xDC00);
                    let ghost acc0 = acc@;
                    acc.push(240 + (scalar / 262144) as u8);
                    acc.push(128 + ((scalar / 4096) % 64) as u8);
                    acc.push(128 + ((scalar / 64) % 64) as u8);
                    acc.push(128 + (scalar % 64) as u8);
                    proof {
                        assert(acc@ =~= acc0 + utf8_of_scalar(scalar as int));
                    }
                    k += 12;
                    continue ;
                }
                let ghost acc0 = acc@;
                if cp < 0x80 {
                    acc.push(cp as u8);
                } else if cp < 0x800 {
                    acc.push(192 + (cp / 64) as u8);
                    acc.push(128 + (cp % 64) as u8);
                } else {
                    acc.push(224 + (cp / 4096) as u8);
                    acc.push(128 + ((cp / 64) % 64) as u8);
                    acc.push(128 + (cp % 64) as u8);
                }
                proof {
                    assert(acc@ =~= acc0 + utf8_of_scalar(cp as int));
                }
                k += 6;
            } else {
                let m: u8 = if e == 34 {
                    34
                } else if e == 92 {
                    92
                } else if e == 47 {
                    47
                } else if e == 98 {
                    8
                } else if e == 102 {
                    12
                } else if e == 110 {
                    10
                } else if e == 114 {
                    13
                } else if e == 116 {
                    9
                } else {
                    return None;
                };
                acc.push(m);
                k += 2;
            }
        } else {
            acc.push(b);
            k += 1;
        }
    }
}

/// Is an ASCII decimal digit.
pub open spec fn is_digit(b: u8) -> bool {
    48 <= b <= 57
}

/// Accumulates decimal digits from `i` onto `acc`; yields the position of
/// the first non-digit and the accumulated value.
pub open spec fn sp_uint_acc(s: Seq<u8>, i: int, acc: nat) -> (int, nat)
    decreases s.len() - i,
{
    if 0 <= i < s.len() && is_digit(s[i]) {
        sp_uint_acc(s, i + 1, (acc * 10 + (s[i] - 48)) as nat)
    } else {
        (i, acc)
    }
}

/// Reads an unsigned decimal integer starting at `i`; at least one digit.
pub open spec fn sp_uint(s: Seq<u8>, i: int) -> Option<(int, nat)> {
    if 0 <= i < s.len() && is_digit(s[i]) {
        Some(sp_uint_acc(s, i, 0))
    } else {
        None
    }
}


/// Reads an unsigned decimal integer.  The position always mirrors the
/// specification reader; the value is returned only when it fits the
/// machine, else `Some((j, None))` marks a present but oversized number.
pub fn p_uint(s: &Vec<u8>, i: usize) -> (r: Option<(usize, Option<usize>)>)
    requires
        i <= s.len(),
    ensures
        match sp_uint(s@, i as int) {
            Some((j2, v2)) => {
                &&& r is Some
                &&& match r {
                    Some((j, v)) => {
                        &&& j as int == j2
                        &&& i <= j <= s.len()
                        &&& match v {
                            Some(n) => n as nat == v2,
                            None => v2 > usize::MAX as nat,
                        }
                    },
                    None => false,
                }
            },
            None => r is None,
        },
{
    if i >= s.len() || s[i] < 48 || s[i] > 57 {
        return None;
    }
    let mut k = i;
    let mut acc: usize = 0;
    let mut ovf: bool = false;
    let ghost mut acc_g: nat = 0nat;
    loop
        invariant
            i <= k <= s.len(),
            i < s.len() && is_digit(s@[i as int]),
            sp_uint_acc(s@, i as int, 0) == sp_uint_acc(s@, k as int, acc_g),
            !ovf ==> acc == acc_g,
            ovf ==> acc_g > usize::MAX as nat,
        decreases s.len() - k,
    {
        if k < s.len() {
            let b = s[k];
            if 48 <= b && b <= 57 {
                let d = (b - 48) as usize;
                if !ovf {
                    match acc.checked_mul(10) {
                        Some(m) => {
                            match m.checked_add(d) {
                                Some(n) => {
                                    acc = n;
                                },
                                None => {
                                    ovf = true;
                                },
                            }
                        },
                        None => {
                            ovf = true;
                        },
                    }
                }
                proof {
                    acc_g = (acc_g * 10 + (b - 48)) as nat;
                }
                k += 1;
                continue ;
            }
        }
        return Some((k, if ovf {
            None
        } else {
            Some(acc)
        }));
    }
}

/// A byte that may continue a JSON number once one has begun: digits, sign,
/// decimal point, or exponent marker.  Numbers are only ever skipped, so the
/// scan is deliberately lenient.
pub open spec fn is_num_byte(b: u8) -> bool {
    is_digit(b) || b == 43 || b == 45 || b == 46 || b == 101 || b == 69
}

/// The first position at or after `i` that does not hold a number byte.
pub open spec fn sp_num_end(s: Seq<u8>, i: int) -> int
    decreases s.len() - i,
{
    if 0 <= i < s.len() && is_num_byte(s[i]) {
        sp_num_end(s, i + 1)
    } else {
        i
    }
}

/// Skips over a number starting at `i`; at least one number byte.
pub open spec fn sp_num_skip(s: Seq<u8>, i: int) -> Option<int> {
    if 0 <= i < s.len() && (is_digit(s[i]) || s[i] == 45) {
        Some(sp_num_end(s, i + 1))
    } else {
        None
    }
}


/// Skips over a number.
pub fn p_num_skip(s: &Vec<u8>, i: usize) -> (r: Option<usize>)
    requires
        i <= s.len(),
    ensures
        match r {
            Some(j) => sp_num_skip(s@, i as int) == Some(j as int) && i <= j <= s.len(),
            None => sp_num_skip(s@, i as int) is None,
        },
{
    if i >= s.len() {
        return None;
    }
    let b0 = s[i];
    if !((48 <= b0 && b0 <= 57) || b0 == 45) {
        return None;
    }
    let mut k = i + 1;
    loop
        invariant
            i < k <= s.len(),
            is_digit(s@[i as int]) || s@[i as int] == 45,
            sp_num_end(s@, i as int + 1) == sp_num_end(s@, k as int),
        decreases s.len() - k,
    {
        if k < s.len() {
            let b = s[k];
            if (48 <= b && b <= 57) || b == 43 || b == 45 || b == 46 || b == 101 || b == 69 {
                k += 1;
                continue ;
            }
        }
        return Some(k);
    }
}

/// The given literal bytes stand at `i`; yields the position just past them.
pub open spec fn sp_lit(s: Seq<u8>, i: int, lit: Seq<u8>) -> Option<int> {
    if 0 <= i && i + lit.len() <= s.len() && s.subrange(i, i + lit.len() as int) == lit {
        Some(i + lit.len() as int)
    } else {
        None
    }
}

/// Skips one JSON value of any shape starting at `i` (after leading
/// whitespace).  `fuel` bounds the nesting depth.
pub open spec fn sp_skip_value(s: Seq<u8>, i: int, fuel: nat) -> Option<int>
    decreases fuel, s.len() - i, 1int,
{
    if fuel == 0 {
        None
    } else {
        let j = sp_ws(s, i);
        if !(0 <= j < s.len()) {
            None
        } else if s[j] == 34 {
            match sp_string(s, j) {
                Some((k, _)) => Some(k),
                None => None,
            }
        } else if s[j] == 123 {
            sp_skip_members(s, j + 1, (fuel - 1) as nat)
        } else if s[j] == 91 {
            sp_skip_elems(s, j + 1, (fuel - 1) as nat)
        } else if s[j] == 116 {
            sp_lit(s, j, seq![116u8, 114u8, 117u8, 101u8])
        } else if s[j] == 102 {
            sp_lit(s, j, seq![102u8, 97u8, 108u8, 115u8, 101u8])
        } else if s[j] == 110 {
            sp_lit(s, j, seq![110u8, 117u8, 108u8, 108u8])
        } else {
            sp_num_skip(s, j)
        }
    }
}

/// Skips the members of an object from just past its `{` (or past a `,`);
/// yields the position just past the closing `}`.
pub open spec fn sp_skip_members(s: Seq<u8>, i: int, fuel: nat) -> Option<int>
    decreases fuel, s.len() - i, 0int,
{
    if fuel == 0 {
        None
    } else {
        let j = sp_ws(s, i);
        if !(0 <= j < s.len()) {
            None
        } else if s[j] == 125 {
            Some(j + 1)
        } else {
            match sp_string(s, j) {
                Some((k, _)) => {
                    let c = sp_ws(s, k);
                    if !(c < s.len() && s[c] == 58) {
                        None
                    } else {
                        match sp_skip_value(s, c + 1, (fuel - 1) as nat) {
                            Some(v) => {
                                let e = sp_ws(s, v);
                                if !(e < s.len()) {
                                    None
                                } else if s[e] == 125 {
                                    Some(e + 1)
                                } else if s[e] == 44 && e + 1 > i {
                                    sp_skip_members(s, e + 1, fuel)
                                } else {
                                    None
                                }
                            },
                            None => None,
                        }
                    }
                },
                None => None,
            }
        }
    }
}

/// Skips the elements of an array from just past its `[` (or past a `,`);
/// yields the position just past the closing `]`.
pub open spec fn sp_skip_elems(s: Seq<u8>, i: int, fuel: nat) -> Option<int>
    decreases fuel, s.len() - i, 0int,
{
    if fuel == 0 {
        None
    } else {
        let j = sp_ws(s, i);
        if !(0 <= j < s.len()) {
            None
        } else if s[j] == 93 {
            Some(j + 1)
        } else {
            match sp_skip_value(s, i, (fuel - 1) as nat) {
                Some(v) => {
                    let e = sp_ws(s, v);
                    if !(e < s.len()) {
                        None
                    } else if s[e] == 93 {
                        Some(e + 1)
                    } else if s[e] == 44 && e + 1 > i {
                        sp_skip_elems(s, e + 1, fuel)
                    } else {
                        None
                    }
                },
                None => None,
            }
        }
    }
}

/// Skips one JSON value.
pub fn p_skip_value(s: &Vec<u8>, i: usize, fuel: usize) -> (r: Option<usize>)
    requires
        i <= s.len(),
    ensures
        match r {
            Some(j) => sp_skip_value(s@, i as int, fuel as nat) == Some(j as int) && j <= s.len(),
            None => sp_skip_value(s@, i as int, fuel as nat) is None,
        },
    decreases fuel, s.len() - i, 1int,
{
    if fuel == 0 {
        return None;
    }
    let j = p_ws(s, i);
    if j >= s.len() {
        return None;
    }
    let b = s[j];
    if b == 34 {
        match p_string(s, j) {
            Some((k, _)) => Some(k),
            None => None,
        }
    } else if b == 123 {
        p_skip_members(s, j + 1, fuel - 1)
    } else if b == 91 {
        p_skip_elems(s, j + 1, fuel - 1)
    } else if b == 116 {
        p_lit4(s, j, 116, 114, 117, 101)
    } else if b == 102 {
        p_lit5(s, j, 102, 97, 108, 115, 101)
    } else if b == 110 {
        p_lit4(s, j, 110, 117, 108, 108)
    } else {
        p_num_skip(s, j)
    }
}

/// Matches four literal bytes at `i`.
fn p_lit4(s: &Vec<u8>, i: usize, a: u8, b: u8, c: u8, d: u8) -> (r: Option<usize>)
    requires
        i <= s.len(),
    ensures
        match r {
            Some(j) => sp_lit(s@, i as int, seq![a, b, c, d]) == Some(j as int) && j <= s.len(),
            None => sp_lit(s@, i as int, seq![a, b, c, d]) is None,
        },
{
    if s.len() - i >= 4 && s[i] == a && s[i + 1] == b && s[i + 2] == c && s[i + 3] == d {
        proof {
            assert(s@.subrange(i as int, i as int + 4) =~= seq![a, b, c, d]);
        }
        Some(i + 4)
    } else {
        proof {
            if 0 <= i as int && i as int + 4 <= s@.len() && s@.subrange(
                i as int,
                i as int + 4,
            ) == seq![a, b, c, d] {
                assert(s@[i as int] == a && s@[i as int + 1] == b && s@[i as int + 2] == c
                    && s@[i as int + 3] == d);
            }
        }
        None
    }
}

/// Matches five literal bytes at `i`.
fn p_lit5(s: &Vec<u8>, i: usize, a: u8, b: u8, c: u8, d: u8, e: u8) -> (r: Option<usize>)
    requires
        i <= s.len(),
    ensures
        match r {
            Some(j) => sp_lit(s@, i as int, seq![a, b, c, d, e]) == Some(j as int) && j <= s.len(),
            None => sp_lit(s@, i as int, seq![a, b, c, d, e]) is None,
        },
{
    if s.len() - i >= 5 && s[i] == a && s[i + 1] == b && s[i + 2] == c && s[i + 3] == d && s[i + 4]
        == e {
        proof {
            assert(s@.subrange(i as int, i as int + 5) =~= seq![a, b, c, d, e]);
        }
        Some(i + 5)
    } else {
        proof {
            if 0 <= i as int && i as int + 5 <= s@.len() && s@.subrange(
                i as int,
                i as int + 5,
            ) == seq![a, b, c, d, e] {
                assert(s@[i as int] == a && s@[i as int + 1] == b && s@[i as int + 2] == c
                    && s@[i as int + 3] == d && s@[i as int + 4] == e);
            }
        }
        None
    }
}

/// Skips an object's members.
pub fn p_skip_members(s: &Vec<u8>, i: usize, fuel: usize) -> (r: Option<usize>)
    requires
        i <= s.len(),
    ensures
        match r {
            Some(j) => sp_skip_members(s@, i as int, fuel as nat) == Some(j as int) && j
                <= s.len(),
            None => sp_skip_members(s@, i as int, fuel as nat) is None,
        },
    decreases fuel, s.len() - i, 0int,
{
    if fuel == 0 {
        return None;
    }
    let mut pos = i;
    loop
        invariant
            i <= pos <= s.len(),
            fuel >= 1,
            sp_skip_members(s@, i as int, fuel as nat) == sp_skip_members(
                s@,
                pos as int,
                fuel as nat,
            ),
        decreases s.len() - pos,
    {
        let j = p_ws(s, pos);
        if j >= s.len() {
            return None;
        }
        if s[j] == 125 {
            return Some(j + 1);
        }
        match p_string(s, j) {
            Some((k, _)) => {
                let c = p_ws(s, k);
                if !(c < s.len() && s[c] == 58) {
                    return None;
                }
                match p_skip_value(s, c + 1, fuel - 1) {
                    Some(v) => {
                        let e = p_ws(s, v);
                        if e >= s.len() {
                            return None;
                        }
                        if s[e] == 125 {
                            return Some(e + 1);
                        }
                        if s[e] == 44 && e + 1 > pos {
                            pos = e + 1;
                        } else {
                            return None;
                        }
                    },
                    None => {
                        return None;
                    },
                }
            },
            None => {
                return None;
            },
        }
    }
}

/// Skips an array's elements.
pub fn p_skip_elems(s: &Vec<u8>, i: usize, fuel: usize) -> (r: Option<usize>)
    requires
        i <= s.len(),
    ensures
        match r {
            Some(j) => sp_skip_elems(s@, i as int, fuel as nat) == Some(j as int) && j <= s.len(),
            None => sp_skip_elems(s@, i as int, fuel as nat) is None,
        },
    decreases fuel, s.len() - i, 0int,
{
    if fuel == 0 {
        return None;
    }
    let mut pos = i;
    loop
        invariant
            i <= pos <= s.len(),
            fuel >= 1,
            sp_skip_elems(s@, i as int, fuel as nat) == sp_skip_elems(
                s@,
                pos as int,
                fuel as nat,
            ),
        decreases s.len() - pos,
    {
        let j = p_ws(s, pos);
        if j >= s.len() {
            return None;
        }
        if s[j] == 93 {
            return Some(j + 1);
        }
        match p_skip_value(s, pos, fuel - 1) {
            Some(v) => {
                let e = p_ws(s, v);
                if e >= s.len() {
                    return None;
                }
                if s[e] == 93 {
                    return Some(e + 1);
                }
                if s[e] == 44 && e + 1 > pos {
                    pos = e + 1;
                } else {
                    return None;
                }
            },
            None => {
                return None;
            },
        }
    }
}

} // verus!
