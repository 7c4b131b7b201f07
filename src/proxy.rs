//! Decisions of the local reverse proxy: where a request goes, which
//! headers pass through, and which CORS headers answer it.
use vstd::prelude::*;
use crate::text::{append_str, chars_of, string_from_chars, substring};

verus! {

/// What `urlencoding::decode` yields for a text it can decode.
pub uninterp spec fn url_decoded(s: Seq<char>) -> Seq<char>;

/// Relies on `urlencoding::decode`: percent-decodes the text; `None` when
/// the decoded bytes are not UTF-8. A text without `%` comes back as it is.
#[verifier::external_body]
fn decode_url(s: &str) -> (r: Option<String>)
    ensures
        r is Some ==> r->Some_0@ == url_decoded(s@),
        !s@.contains('%') ==> r is Some && r->Some_0@ == s@,
{
    match urlencoding::decode(s) {
        Ok(d) => Some(d.into_owned()),
        Err(_) => None,
    }
}

fn str_eq(a: &str, b: &str) -> (r: bool)
    ensures
        r == (a@ == b@),
{
    let x = a.to_owned();
    let y = b.to_owned();
    x == y
}

pub open spec fn starts_with(s: Seq<char>, p: Seq<char>) -> bool {
    s.len() >= p.len() && s.subrange(0, p.len() as int) == p
}

/// `s` with every leading repetition of `p` removed.
pub open spec fn strip_prefixes(s: Seq<char>, p: Seq<char>) -> Seq<char>
    decreases s.len(),
{
    if p.len() > 0 && starts_with(s, p) {
        strip_prefixes(s.subrange(p.len() as int, s.len() as int), p)
    } else {
        s
    }
}

/// Where a proxied request goes.
pub enum ProxyRoute {
    /// An absolute URL given in the query (`?url=...`).
    External(String),
    /// A path under the configured API domain.
    Internal(String),
}

pub open spec fn proxy_path(path: Seq<char>) -> Seq<char> {
    strip_prefixes(path, "/proxy"@)
}

/// The target of an internal request: domain, path, and the query if any.
pub open spec fn internal_target(domain: Seq<char>, path: Seq<char>, query: Seq<char>) -> Seq<char> {
    domain + proxy_path(path) + if query.len() == 0 { Seq::empty() } else { seq!['?'] + query }
}

fn starts_at(cs: &Vec<char>, from: usize, p: &Vec<char>) -> (r: bool)
    requires
        from <= cs.len(),
    ensures
        r == starts_with(cs@.subrange(from as int, cs.len() as int), p@),
{
    if p.len() > cs.len() - from {
        return false;
    }
    let mut j: usize = 0;
    while j < p.len()
        invariant
            j <= p.len(),
            from + p.len() <= cs.len(),
            cs@.subrange(from as int, from + j) =~= p@.subrange(0, j as int),
        decreases p.len() - j,
    {
        if cs[from + j] != p[j] {
            assert(cs@.subrange(from as int, cs.len() as int).subrange(0, p.len() as int)[j as int] != p@[j as int]);
            return false;
        }
        j = j + 1;
        assert(cs@.subrange(from as int, from + j) =~= p@.subrange(0, j as int));
    }
    assert(cs@.subrange(from as int, cs.len() as int).subrange(0, p.len() as int) =~= p@);
    true
}

fn strip_proxy_prefix(path: &str) -> (r: String)
    ensures
        r@ == proxy_path(path@),
{
    let cs = chars_of(path);
    let p = chars_of("/proxy");
    let mut from: usize = 0;
    assert(cs@.subrange(0, cs.len() as int) =~= cs@);
    while starts_at(&cs, from, &p) && p.len() > 0
        invariant
            from <= cs.len(),
            p@ == "/proxy"@,
            proxy_path(path@) == strip_prefixes(cs@.subrange(from as int, cs.len() as int), p@),
            cs@ == path@,
        decreases cs.len() - from,
    {
        let ghost rest = cs@.subrange(from as int, cs.len() as int);
        assert(rest.subrange(p.len() as int, rest.len() as int) =~= cs@.subrange(from + p.len(), cs.len() as int));
        from = from + p.len();
    }
    substring(&cs, from, cs.len())
}

/// Routes a request by the path and query of its URI. With no path below
/// `/proxy` and a query starting with `url=`, the rest of the query is the
/// target, decoded when it decodes and taken as it is otherwise. Anything
/// else goes to `domain`.
pub fn route_proxy_request(path: &str, query: &str, domain: &str) -> (r: ProxyRoute)
    ensures
        proxy_path(path@).len() == 0 && starts_with(query@, "url="@) <==> r is External,
        r is External ==> (r->External_0@ == url_decoded(query@.subrange(4, query@.len() as int))
            || r->External_0@ == query@.subrange(4, query@.len() as int)),
        r is External && !query@.subrange(4, query@.len() as int).contains('%') ==> r->External_0@
            == query@.subrange(4, query@.len() as int),
        r is Internal ==> r->Internal_0@ == internal_target(domain@, path@, query@),
{
    let rest = strip_proxy_prefix(path);
    let q = chars_of(query);
    let marker = chars_of("url=");
    proof {
        reveal_strlit("url=");
    }
    if rest.as_str().is_empty() && starts_at(&q, 0, &marker) {
        assert(q@.subrange(0, q.len() as int) =~= q@);
        let raw = substring(&q, 4, q.len());
        return match decode_url(raw.as_str()) {
            Some(d) => ProxyRoute::External(d),
            None => ProxyRoute::External(raw),
        };
    }
    assert(q@.subrange(0, q.len() as int) =~= q@);
    let mut out: Vec<char> = Vec::new();
    append_str(&mut out, domain);
    append_str(&mut out, rest.as_str());
    if q.len() > 0 {
        out.push('?');
        append_str(&mut out, query);
    }
    assert(out@ =~= internal_target(domain@, path@, query@));
    ProxyRoute::Internal(string_from_chars(out.as_slice()))
}

/// Request headers that are not passed on upstream.
pub open spec fn dropped_request_header(name: Seq<char>) -> bool {
    name == "host"@ || name == "origin"@ || name == "content-length"@
}

/// Response headers that are not passed back to the caller.
pub open spec fn dropped_response_header(name: Seq<char>) -> bool {
    name == "content-length"@ || name == "transfer-encoding"@ || name == "connection"@ || name
        == "access-control-allow-origin"@ || name == "access-control-allow-credentials"@
}

pub fn forwards_request_header(name: &str) -> (r: bool)
    ensures
        r == !dropped_request_header(name@),
{
    !(str_eq(name, "host") || str_eq(name, "origin") || str_eq(name, "content-length"))
}

pub fn forwards_response_header(name: &str) -> (r: bool)
    ensures
        r == !dropped_response_header(name@),
{
    !(str_eq(name, "content-length") || str_eq(name, "transfer-encoding") || str_eq(name, "connection")
        || str_eq(name, "access-control-allow-origin") || str_eq(name, "access-control-allow-credentials"))
}

fn header(name: &str, value: &str) -> (r: (String, String))
    ensures
        r.0@ == name@ && r.1@ == value@,
{
    (name.to_owned(), value.to_owned())
}

/// The CORS headers of every answer: the caller's origin with credentials
/// allowed, or any origin when the request named none.
pub fn cors_headers(origin: &str) -> (r: Vec<(String, String)>)
    ensures
        origin@.len() > 0 ==> r@.len() == 2 && r@[0].0@ == "Access-Control-Allow-Origin"@ && r@[0].1@
            == origin@ && r@[1].0@ == "Access-Control-Allow-Credentials"@ && r@[1].1@ == "true"@,
        origin@.len() == 0 ==> r@.len() == 1 && r@[0].0@ == "Access-Control-Allow-Origin"@ && r@[0].1@
            == "*"@,
{
    let mut out: Vec<(String, String)> = Vec::new();
    if !origin.is_empty() {
        out.push(header("Access-Control-Allow-Origin", origin));
        out.push(header("Access-Control-Allow-Credentials", "true"));
    } else {
        out.push(header("Access-Control-Allow-Origin", "*"));
    }
    out
}

/// The headers answering a preflight request: those of `cors_headers`, then
/// the allowed methods and headers and how long the answer may be cached.
pub fn preflight_headers(origin: &str) -> (r: Vec<(String, String)>)
    ensures
        r@.len() == cors_headers_len(origin@) + 3,
        r@[r@.len() - 3].0@ == "Access-Control-Allow-Methods"@ && r@[r@.len() - 3].1@
            == "GET,POST,PUT,DELETE,OPTIONS"@,
        r@[r@.len() - 2].0@ == "Access-Control-Allow-Headers"@,
        r@[r@.len() - 1].0@ == "Access-Control-Max-Age"@ && r@[r@.len() - 1].1@ == "86400"@,
{
    let mut out = cors_headers(origin);
    out.push(header("Access-Control-Allow-Methods", "GET,POST,PUT,DELETE,OPTIONS"));
    out.push(header(
        "Access-Control-Allow-Headers",
        "authorization,content-type,accept,origin,referer,user-agent,platform,source,deviceinfo,webp,dt,version,region,device,host,umstring",
    ));
    out.push(header("Access-Control-Max-Age", "86400"));
    out
}

pub open spec fn cors_headers_len(origin: Seq<char>) -> nat {
    if origin.len() > 0 { 2 } else { 1 }
}

} // verus!
