//! Request routing for the proxy surface: health probe, usage answer, and
//! the `/proxy/<host>/<path>` target form.

use vstd::prelude::*;

use vstd::string::{StrSliceExecFns, StringExecFns};

verus! {

/// The first position at or after `i` holding the character `c`.
pub open spec fn first_char_at(s: Seq<char>, c: char, i: int) -> Option<int>
    decreases s.len() - i + 1,
{
    if !(0 <= i < s.len()) {
        None
    } else if s[i] == c {
        Some(i)
    } else {
        first_char_at(s, c, i + 1)
    }
}

/// A found character lies inside the input and not before `i`.
pub proof fn lemma_first_char_bounds(s: Seq<char>, c: char, i: int)
    requires
        0 <= i,
    ensures
        match first_char_at(s, c, i) {
            Some(j) => i <= j < s.len() && s[j] == c,
            None => true,
        },
    decreases s.len() - i + 1,
{
    if 0 <= i < s.len() && s[i] != c {
        lemma_first_char_bounds(s, c, i + 1);
    }
}

/// Where a request path leads.
#[derive(Debug)]
pub enum ProxyRoute {
    /// The health probe: answer `ok`.
    Health,
    /// Not a proxy path: answer the usage text.
    Usage,
    /// A proxy path with an empty host: answer the complaint.
    MissingHost,
    /// Proxy to this upstream host and URL.
    Target { host: String, url: String },
}

/// How a route relates to the request's path and query: `/health` is the
/// probe; anything not under `/proxy/` is usage; an empty host is refused;
/// otherwise the upstream URL is `https://` plus host, path and query.
pub open spec fn route_matches(path: Seq<char>, query: Option<Seq<char>>, r: ProxyRoute) -> bool {
    if path == "/health"@ {
        r is Health
    } else if !(path.len() >= 7 && path.subrange(0, 7) == "/proxy/"@) {
        r is Usage
    } else {
        let rest = path.subrange(7, path.len() as int);
        let cut = first_char_at(rest, '/', 0);
        let host = match cut {
            Some(k) => rest.subrange(0, k),
            None => rest,
        };
        let tpath = match cut {
            Some(k) => rest.subrange(k, rest.len() as int),
            None => "/"@,
        };
        if host.len() == 0 {
            r is MissingHost
        } else {
            match r {
                ProxyRoute::Target { host: h, url: u } => h@ == host && u@ == "https://"@ + host
                    + tpath + (match query {
                    Some(q) => "?"@ + q,
                    None => Seq::<char>::empty(),
                }),
                _ => false,
            }
        }
    }
}

/// Whether two strings hold the same characters.
pub fn str_eq(a: &str, b: &str) -> (r: bool)
    ensures
        r == (a@ == b@),
{
    let av = a.as_bytes_vec();
    let bv = b.as_bytes_vec();
    let r = crate::extract::bytes_eq(&av, &bv);
    proof {
        if av@ == bv@ {
            crate::strutil::lemma_encode_utf8_injective(a@, b@);
        }
    }
    r
}

/// The position of the first `/` in a string, if any.
fn find_slash(rest: &str, rest_len: usize) -> (r: Option<usize>)
    requires
        rest_len == rest@.len(),
    ensures
        match r {
            Some(k) => first_char_at(rest@, '/', 0) == Some(k as int) && k < rest_len,
            None => first_char_at(rest@, '/', 0) is None,
        },
{
    let mut k: usize = 0;
    loop
        invariant
            k <= rest_len,
            rest_len == rest@.len(),
            first_char_at(rest@, '/', 0) == first_char_at(rest@, '/', k as int),
        decreases rest_len - k,
    {
        if k >= rest_len {
            return None;
        }
        let c = rest.get_char(k);
        if c == '/' {
            return Some(k);
        }
        k += 1;
    }
}

/// Routes a request path (and its raw query, if any).
pub fn parse_proxy_path(path: &str, query: Option<&str>) -> (r: ProxyRoute)
    ensures
        route_matches(path@, match query {
            Some(q) => Some(q@),
            None => None,
        }, r),
{
    if str_eq(path, "/health") {
        return ProxyRoute::Health;
    }
    let n = path.unicode_len();
    if n < 7 {
        return ProxyRoute::Usage;
    }
    let prefix = path.substring_char(0, 7);
    if !str_eq(prefix, "/proxy/") {
        return ProxyRoute::Usage;
    }
    let rest = path.substring_char(7, n);
    let rest_len = n - 7;
    let cut = find_slash(rest, rest_len);
    proof {
        lemma_first_char_bounds(rest@, '/', 0);
    }
    let host_str: &str = match cut {
        Some(k2) => rest.substring_char(0, k2),
        None => rest,
    };
    if host_str.unicode_len() == 0 {
        return ProxyRoute::MissingHost;
    }
    let mut url = String::from_str("https://");
    url.append(host_str);
    match cut {
        Some(k2) => {
            let tp = rest.substring_char(k2, rest_len);
            url.append(tp);
        },
        None => {
            url.append("/");
        },
    }
    match query {
        Some(q) => {
            url.append("?");
            url.append(q);
        },
        None => (),
    }
    proof {
        lemma_first_char_bounds(rest@, '/', 0);
    }
    let host = host_str.to_owned();
    proof {
        assert(url@ =~= "https://"@ + host@ + (match cut {
            Some(k2) => rest@.subrange(k2 as int, rest@.len() as int),
            None => "/"@,
        }) + (match query {
            Some(q) => "?"@ + q@,
            None => Seq::<char>::empty(),
        }));
    }
    ProxyRoute::Target { host, url }
}

/// Whether a response header travels end to end when a proxied answer is
/// forwarded: the hop-by-hop headers `transfer-encoding` and `connection`
/// are dropped.  The name is expected already lowercased.
pub fn keep_response_header(name: &str) -> (r: bool)
    ensures
        r == (name@ != "transfer-encoding"@ && name@ != "connection"@),
{
    !str_eq(name, "transfer-encoding") && !str_eq(name, "connection")
}

} // verus!
