//! The request transformer: builds the outbound request descriptor for the
//! upstream call from the inbound path, query, method, headers and body.
//!
//! It is a total function: malformed input degrades gracefully (pass-through
//! bodies, a POST default for unknown verbs) and never fails.

use vstd::prelude::*;

use crate::json::{rewrite_body, rewritten_body};
use crate::registry::ProxyConfig;
use crate::text::{eq_ignore_ascii_case, lemma_reserved_names_are_lower_case, lower_chars};

verus! {

/// The sequence without its leading `/` characters.
pub open spec fn strip_leading_slashes(s: Seq<char>) -> Seq<char>
    decreases s.len(),
{
    if s.len() > 0 && s[0] == '/' {
        strip_leading_slashes(s.drop_first())
    } else {
        s
    }
}

/// The sequence without its trailing `/` characters.
pub open spec fn strip_trailing_slashes(s: Seq<char>) -> Seq<char>
    decreases s.len(),
{
    if s.len() > 0 && s.last() == '/' {
        strip_trailing_slashes(s.drop_last())
    } else {
        s
    }
}

pub fn strip_leading_path<'a>(s: &'a str) -> (r: &'a str)
    ensures
        r@ == strip_leading_slashes(s@),
{
    let n = s.unicode_len();
    proof {
        assert(s@.skip(0) =~= s@);
    }
    let mut i: usize = 0;
    while i < n && s.get_char(i) == '/'
        invariant
            i <= n,
            n == s@.len(),
            strip_leading_slashes(s@) == strip_leading_slashes(s@.skip(i as int)),
        decreases n - i,
    {
        proof {
            let t = s@.skip(i as int);
            assert(t[0] == s@[i as int]);
            assert(t.drop_first() =~= s@.skip(i + 1));
        }
        i = i + 1;
    }
    proof {
        let t = s@.skip(i as int);
        if i < n {
            assert(t[0] == s@[i as int]);
        }
        assert(strip_leading_slashes(t) == t);
        assert(s@.subrange(i as int, n as int) =~= t);
    }
    s.substring_char(i, n)
}

fn strip_trailing<'a>(s: &'a str) -> (r: &'a str)
    ensures
        r@ == strip_trailing_slashes(s@),
{
    let n = s.unicode_len();
    let mut e: usize = n;
    proof {
        assert(s@.take(n as int) =~= s@);
    }
    while e > 0 && s.get_char(e - 1) == '/'
        invariant
            e <= n,
            n == s@.len(),
            strip_trailing_slashes(s@) == strip_trailing_slashes(s@.take(e as int)),
        decreases e,
    {
        proof {
            let t = s@.take(e as int);
            assert(t.last() == s@[e - 1]);
            assert(t.drop_last() =~= s@.take(e - 1));
        }
        e = e - 1;
    }
    proof {
        let t = s@.take(e as int);
        if e > 0 {
            assert(t.last() == s@[e - 1]);
        }
        assert(strip_trailing_slashes(t) == t);
        assert(s@.subrange(0, e as int) =~= t);
    }
    s.substring_char(0, e)
}

/// The upstream URL: the base with trailing slashes stripped, a single `/`,
/// the path with leading slashes stripped, and the query appended verbatim
/// after `?` when it is non-empty.
pub open spec fn upstream_url(base: Seq<char>, path: Seq<char>, query: Seq<char>) -> Seq<char> {
    let joined = strip_trailing_slashes(base) + seq!['/'] + strip_leading_slashes(path);
    if query.len() > 0 {
        joined + seq!['?'] + query
    } else {
        joined
    }
}

/// Builds the URL of the outbound request.
pub fn build_upstream_url(base: &str, path: &str, query: &str) -> (r: String)
    ensures
        r@ == upstream_url(base@, path@, query@),
{
    proof {
        reveal_strlit("/");
        reveal_strlit("?");
        assert("/"@ =~= seq!['/']);
        assert("?"@ =~= seq!['?']);
    }
    let mut url = String::new();
    url.append(strip_trailing(base));
    url.append("/");
    url.append(strip_leading_path(path));
    if query.unicode_len() > 0 {
        url.append("?");
        url.append(query);
    }
    url
}

/// The HTTP verbs the proxy forwards one-to-one; anything else is mapped to
/// POST as a deliberate defensive default.
#[derive(Clone, Copy, PartialEq, Eq, Structural, Debug)]
pub enum HttpMethod {
    Get,
    Post,
    Put,
    Delete,
    Patch,
    Head,
    Options,
}

/// The method of the outbound request for a given inbound method name.
pub open spec fn method_for(m: Seq<char>) -> HttpMethod {
    if m == "GET"@ {
        HttpMethod::Get
    } else if m == "POST"@ {
        HttpMethod::Post
    } else if m == "PUT"@ {
        HttpMethod::Put
    } else if m == "DELETE"@ {
        HttpMethod::Delete
    } else if m == "PATCH"@ {
        HttpMethod::Patch
    } else if m == "HEAD"@ {
        HttpMethod::Head
    } else if m == "OPTIONS"@ {
        HttpMethod::Options
    } else {
        HttpMethod::Post
    }
}

/// Maps the inbound method name, defaulting to POST for unrecognized verbs.
pub fn map_method(method: &String) -> (r: HttpMethod)
    ensures
        r == method_for(method@),
{
    if method.eq(&String::from_str("GET")) {
        HttpMethod::Get
    } else if method.eq(&String::from_str("POST")) {
        HttpMethod::Post
    } else if method.eq(&String::from_str("PUT")) {
        HttpMethod::Put
    } else if method.eq(&String::from_str("DELETE")) {
        HttpMethod::Delete
    } else if method.eq(&String::from_str("PATCH")) {
        HttpMethod::Patch
    } else if method.eq(&String::from_str("HEAD")) {
        HttpMethod::Head
    } else if method.eq(&String::from_str("OPTIONS")) {
        HttpMethod::Options
    } else {
        HttpMethod::Post
    }
}

/// The character-level contents of a header list.
pub open spec fn header_views(hs: Seq<(String, String)>) -> Seq<(Seq<char>, Seq<char>)> {
    hs.map_values(|p: (String, String)| (p.0@, p.1@))
}

/// Inbound headers that must not reach the upstream, matched
/// case-insensitively: `host`, `authorization` and `content-length` are
/// dropped outright, and a client-sent `content-type` is ignored because the
/// proxy sets its own.
pub open spec fn is_blocked_request_header(name: Seq<char>) -> bool {
    lower_chars(name) == "host"@ || lower_chars(name) == "authorization"@ || lower_chars(name)
        == "content-length"@ || lower_chars(name) == "content-type"@
}

/// The outbound header list: the proxy's own `Authorization` and
/// `Content-Type`, then every inbound header that is not blocked, in order.
pub open spec fn outbound_headers(key: Seq<char>, inbound: Seq<(Seq<char>, Seq<char>)>) -> Seq<
    (Seq<char>, Seq<char>),
> {
    seq![
        ("Authorization"@, "Bearer "@ + key),
        ("Content-Type"@, "application/json"@),
    ] + inbound.filter(|h: (Seq<char>, Seq<char>)| !is_blocked_request_header(h.0))
}

fn is_blocked_name(name: &String) -> (r: bool)
    ensures
        r == is_blocked_request_header(name@),
{
    proof {
        lemma_reserved_names_are_lower_case();
    }
    eq_ignore_ascii_case(name.as_str(), "host") || eq_ignore_ascii_case(
        name.as_str(),
        "authorization",
    ) || eq_ignore_ascii_case(name.as_str(), "content-length") || eq_ignore_ascii_case(
        name.as_str(),
        "content-type",
    )
}

/// Builds the outbound header list from the inbound one.
pub fn build_request_headers(api_key: &str, inbound: &Vec<(String, String)>) -> (r: Vec<
    (String, String),
>)
    ensures
        header_views(r@) == outbound_headers(api_key@, header_views(inbound@)),
{
    let ghost hv = header_views(inbound@);
    let mut out: Vec<(String, String)> = Vec::new();
    let mut auth = String::from_str("Bearer ");
    auth.append(api_key);
    out.push((String::from_str("Authorization"), auth));
    out.push((String::from_str("Content-Type"), String::from_str("application/json")));
    proof {
        reveal(vstd::seq::Seq::filter);
        assert(hv.take(0) =~= Seq::<(Seq<char>, Seq<char>)>::empty());
        assert(header_views(out@) =~= outbound_headers(api_key@, hv.take(0)));
    }
    let mut i: usize = 0;
    while i < inbound.len()
        invariant
            i <= inbound@.len(),
            hv == header_views(inbound@),
            hv.len() == inbound@.len(),
            header_views(out@) == outbound_headers(api_key@, hv.take(i as int)),
        decreases inbound@.len() - i,
    {
        proof {
            assert(hv[i as int] == (inbound@[i as int].0@, inbound@[i as int].1@));
        }
        let ghost out0 = out@;
        let blocked = is_blocked_name(&inbound[i].0);
        if !blocked {
            out.push((inbound[i].0.clone(), inbound[i].1.clone()));
        }
        proof {
            reveal(vstd::seq::Seq::filter);
            let pred = |h: (Seq<char>, Seq<char>)| !is_blocked_request_header(h.0);
            assert(hv.take(i + 1).drop_last() =~= hv.take(i as int));
            assert(hv.take(i + 1).last() == hv[i as int]);
            if !blocked {
                assert(hv.take(i + 1).filter(pred) == hv.take(i as int).filter(pred).push(
                    hv[i as int],
                ));
                assert(out@.last() == (inbound@[i as int].0, inbound@[i as int].1));
                assert(header_views(out@) =~= header_views(out0).push(hv[i as int]));
                assert(outbound_headers(api_key@, hv.take(i + 1)) =~= outbound_headers(
                    api_key@,
                    hv.take(i as int),
                ).push(hv[i as int]));
            } else {
                assert(hv.take(i + 1).filter(pred) == hv.take(i as int).filter(pred));
                assert(outbound_headers(api_key@, hv.take(i + 1)) =~= outbound_headers(
                    api_key@,
                    hv.take(i as int),
                ));
            }
        }
        i = i + 1;
    }
    proof {
        assert(hv.take(i as int) =~= hv);
    }
    out
}

/// The outbound request descriptor handed to the HTTP transport.
pub struct OutboundRequest {
    /// The upstream URL.
    pub url: String,
    /// The mapped HTTP method.
    pub method: HttpMethod,
    /// The filtered header list, with the proxy's own headers in front.
    pub headers: Vec<(String, String)>,
    /// The possibly rewritten body bytes.
    pub body: Vec<u8>,
}

/// The request transformer: produces the outbound request descriptor for the
/// upstream call. Total: every inbound request yields a descriptor.
pub fn transform(
    cfg: &ProxyConfig,
    path: &String,
    query: &String,
    method: &String,
    headers: &Vec<(String, String)>,
    body: &Vec<u8>,
) -> (r: OutboundRequest)
    ensures
        r.url@ == upstream_url(cfg.api_base@, path@, query@),
        r.method == method_for(method@),
        header_views(r.headers@) == outbound_headers(cfg.api_key@, header_views(headers@)),
        r.body@ == rewritten_body(body@, cfg.models@),
        body@.len() == 0 ==> r.body@ == body@,
{
    OutboundRequest {
        url: build_upstream_url(cfg.api_base.as_str(), path.as_str(), query.as_str()),
        method: map_method(method),
        headers: build_request_headers(cfg.api_key.as_str(), headers),
        body: rewrite_body(body, &cfg.models),
    }
}

/// Law: the outbound header list carries exactly one `Authorization` header,
/// in front and equal to `Bearer` plus the configured key, exactly one
/// `Content-Type` header, the proxy's own `application/json`, and no header
/// named `host`, `authorization`, `content-length` or `content-type` (in any
/// case) survives from the inbound list.
pub proof fn lemma_header_policy(key: Seq<char>, inbound: Seq<(Seq<char>, Seq<char>)>)
    ensures
        outbound_headers(key, inbound)[0] == ("Authorization"@, "Bearer "@ + key),
        outbound_headers(key, inbound)[1] == ("Content-Type"@, "application/json"@),
        forall|i: int|
            1 <= i < outbound_headers(key, inbound).len() ==> lower_chars(
                outbound_headers(key, inbound)[i].0,
            ) != "authorization"@,
        forall|i: int|
            0 <= i < outbound_headers(key, inbound).len() ==> lower_chars(
                outbound_headers(key, inbound)[i].0,
            ) != "host"@ && lower_chars(outbound_headers(key, inbound)[i].0) != "content-length"@,
        forall|i: int|
            2 <= i < outbound_headers(key, inbound).len() ==> lower_chars(
                outbound_headers(key, inbound)[i].0,
            ) != "content-type"@,
{
    let pred = |h: (Seq<char>, Seq<char>)| !is_blocked_request_header(h.0);
    let out = outbound_headers(key, inbound);
    let kept = inbound.filter(pred);
    reveal_strlit("Authorization");
    reveal_strlit("authorization");
    reveal_strlit("Content-Type");
    reveal_strlit("content-type");
    reveal_strlit("host");
    reveal_strlit("content-length");
    assert(lower_chars("Authorization"@) =~= "authorization"@);
    assert(lower_chars("Content-Type"@) =~= "content-type"@);
    assert(lower_chars("Authorization"@) != "host"@);
    assert(lower_chars("Authorization"@) != "content-length"@);
    assert(lower_chars("Content-Type"@) != "authorization"@);
    assert(lower_chars("Content-Type"@) != "host"@);
    assert(lower_chars("Content-Type"@) != "content-length"@);
    assert forall|i: int| 0 <= i < kept.len() implies !is_blocked_request_header(
        kept[i].0,
    ) by {
        inbound.lemma_filter_pred(pred, i);
    }
    assert forall|i: int| 2 <= i < out.len() implies lower_chars(out[i].0) != "authorization"@
        && lower_chars(out[i].0) != "host"@ && lower_chars(out[i].0) != "content-length"@
        && lower_chars(out[i].0) != "content-type"@ by {
        assert(out[i] == kept[i - 2]);
        assert(!is_blocked_request_header(kept[i - 2].0));
    }
}

} // verus!
