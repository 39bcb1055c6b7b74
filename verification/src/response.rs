//! The response post-processor: passes the upstream response through with
//! its framing headers removed, or — when the upstream answers 404 on a
//! model-listing path — synthesizes the listing from the local registry.
//!
//! The synthesized body is produced by a verified serializer whose output is
//! pinned down byte for byte, so the wire contract of the listing is part of
//! the proof, not of trusted code.

use vstd::prelude::*;
use vstd::utf8::encode_utf8;

use crate::json::copy_bytes;
use crate::registry::ModelConfig;
use crate::request::strip_leading_slashes;
use crate::text::{eq_ignore_ascii_case, lemma_reserved_names_are_lower_case, lower_chars};

verus! {

/// The hexadecimal digit for a value below 16, lower case.
pub open spec fn hex_digit(d: u8) -> char {
    if d == 0 {
        '0'
    } else if d == 1 {
        '1'
    } else if d == 2 {
        '2'
    } else if d == 3 {
        '3'
    } else if d == 4 {
        '4'
    } else if d == 5 {
        '5'
    } else if d == 6 {
        '6'
    } else if d == 7 {
        '7'
    } else if d == 8 {
        '8'
    } else if d == 9 {
        '9'
    } else if d == 10 {
        'a'
    } else if d == 11 {
        'b'
    } else if d == 12 {
        'c'
    } else if d == 13 {
        'd'
    } else if d == 14 {
        'e'
    } else {
        'f'
    }
}

fn hex_digit_exec(d: u8) -> (r: char)
    ensures
        r == hex_digit(d),
{
    if d == 0 {
        '0'
    } else if d == 1 {
        '1'
    } else if d == 2 {
        '2'
    } else if d == 3 {
        '3'
    } else if d == 4 {
        '4'
    } else if d == 5 {
        '5'
    } else if d == 6 {
        '6'
    } else if d == 7 {
        '7'
    } else if d == 8 {
        '8'
    } else if d == 9 {
        '9'
    } else if d == 10 {
        'a'
    } else if d == 11 {
        'b'
    } else if d == 12 {
        'c'
    } else if d == 13 {
        'd'
    } else if d == 14 {
        'e'
    } else {
        'f'
    }
}

/// The JSON string escape of one character: `"` and `\` get a backslash,
/// the five control characters with short escapes get those, any other
/// control character becomes `\u00` and two lower-case hex digits, and
/// everything else stands for itself.
pub open spec fn escape_char(c: char) -> Seq<char> {
    if c == '"' {
        seq!['\\', '"']
    } else if c == '\\' {
        seq!['\\', '\\']
    } else if c as u32 == 8 {
        seq!['\\', 'b']
    } else if c as u32 == 9 {
        seq!['\\', 't']
    } else if c as u32 == 10 {
        seq!['\\', 'n']
    } else if c as u32 == 12 {
        seq!['\\', 'f']
    } else if c as u32 == 13 {
        seq!['\\', 'r']
    } else if (c as u32) < 32 {
        seq!['\\', 'u', '0', '0', hex_digit((c as u32 / 16) as u8), hex_digit((c as u32 % 16) as u8)]
    } else {
        seq![c]
    }
}

/// The JSON string escape of a character sequence.
pub open spec fn escape_chars(s: Seq<char>) -> Seq<char>
    decreases s.len(),
{
    if s.len() == 0 {
        Seq::empty()
    } else {
        escape_chars(s.drop_last()) + escape_char(s.last())
    }
}

/// A JSON string literal: the escaped characters between double quotes.
pub open spec fn quoted(s: Seq<char>) -> Seq<char> {
    seq!['"'] + escape_chars(s) + seq!['"']
}

fn push_chars(out: &mut Vec<char>, s: &str)
    ensures
        final(out)@ == old(out)@ + s@,
{
    let n = s.unicode_len();
    let mut i: usize = 0;
    proof {
        assert(out@ =~= old(out)@ + s@.take(0));
    }
    while i < n
        invariant
            i <= n,
            n == s@.len(),
            out@ == old(out)@ + s@.take(i as int),
        decreases n - i,
    {
        out.push(s.get_char(i));
        proof {
            assert(out@ =~= old(out)@ + s@.take(i + 1));
        }
        i = i + 1;
    }
    proof {
        assert(s@.take(n as int) =~= s@);
    }
}

fn push_escaped(out: &mut Vec<char>, s: &str)
    ensures
        final(out)@ == old(out)@ + escape_chars(s@),
{
    let n = s.unicode_len();
    let mut i: usize = 0;
    proof {
        assert(escape_chars(s@.take(0)) =~= Seq::<char>::empty());
        assert(out@ =~= old(out)@ + escape_chars(s@.take(0)));
    }
    while i < n
        invariant
            i <= n,
            n == s@.len(),
            out@ == old(out)@ + escape_chars(s@.take(i as int)),
        decreases n - i,
    {
        let ghost out0 = out@;
        let c = s.get_char(i);
        let u = c as u32;
        if c == '"' {
            out.push('\\');
            out.push('"');
        } else if c == '\\' {
            out.push('\\');
            out.push('\\');
        } else if u == 8 {
            out.push('\\');
            out.push('b');
        } else if u == 9 {
            out.push('\\');
            out.push('t');
        } else if u == 10 {
            out.push('\\');
            out.push('n');
        } else if u == 12 {
            out.push('\\');
            out.push('f');
        } else if u == 13 {
            out.push('\\');
            out.push('r');
        } else if u < 32 {
            out.push('\\');
            out.push('u');
            out.push('0');
            out.push('0');
            out.push(hex_digit_exec((u / 16) as u8));
            out.push(hex_digit_exec((u % 16) as u8));
        } else {
            out.push(c);
        }
        proof {
            assert(out@ =~= out0 + escape_char(c));
            assert(s@.take(i + 1).drop_last() =~= s@.take(i as int));
            assert(s@.take(i + 1).last() == c);
            assert(escape_chars(s@.take(i + 1)) == escape_chars(s@.take(i as int)) + escape_char(
                c,
            ));
            assert(out@ =~= old(out)@ + escape_chars(s@.take(i + 1)));
        }
        i = i + 1;
    }
    proof {
        assert(s@.take(n as int) =~= s@);
    }
}

fn push_quoted(out: &mut Vec<char>, s: &str)
    ensures
        final(out)@ == old(out)@ + quoted(s@),
{
    let ghost out0 = out@;
    out.push('"');
    push_escaped(out, s);
    out.push('"');
    proof {
        assert(out@ =~= out0 + quoted(s@));
    }
}

/// The serialized listing entry for one registry model, with the fields
/// `id`, `object`, `owned_by`, `enable_thinking` and `reasoning_effort`,
/// in that order.
pub open spec fn model_entry_json(m: ModelConfig) -> Seq<char> {
    "{\"id\":"@ + quoted(m.id@) + ",\"object\":"@ + quoted(m.object@) + ",\"owned_by\":"@ + quoted(
        m.owned_by@,
    ) + ",\"enable_thinking\":"@ + (if m.enable_thinking {
        "true"@
    } else {
        "false"@
    }) + ",\"reasoning_effort\":"@ + quoted(m.reasoning_effort@) + "}"@
}

/// The comma-separated listing entries, in registry declaration order.
pub open spec fn model_entries_json(ms: Seq<ModelConfig>) -> Seq<char>
    decreases ms.len(),
{
    if ms.len() == 0 {
        Seq::empty()
    } else if ms.len() == 1 {
        model_entry_json(ms[0])
    } else {
        model_entries_json(ms.drop_last()) + seq![','] + model_entry_json(ms.last())
    }
}

/// The synthesized model listing: `{"object":"list","data":[...]}` with the
/// registry entries in declaration order.
pub open spec fn models_listing_json(ms: Seq<ModelConfig>) -> Seq<char> {
    "{\"object\":\"list\",\"data\":["@ + model_entries_json(ms) + "]}"@
}

fn push_model_entry(out: &mut Vec<char>, m: &ModelConfig)
    ensures
        final(out)@ == old(out)@ + model_entry_json(*m),
{
    let ghost out0 = out@;
    push_chars(out, "{\"id\":");
    push_quoted(out, m.id.as_str());
    push_chars(out, ",\"object\":");
    push_quoted(out, m.object.as_str());
    push_chars(out, ",\"owned_by\":");
    push_quoted(out, m.owned_by.as_str());
    push_chars(out, ",\"enable_thinking\":");
    if m.enable_thinking {
        push_chars(out, "true");
    } else {
        push_chars(out, "false");
    }
    push_chars(out, ",\"reasoning_effort\":");
    push_quoted(out, m.reasoning_effort.as_str());
    push_chars(out, "}");
    proof {
        assert(out@ =~= out0 + model_entry_json(*m));
    }
}

/// Relies on String's FromIterator over chars and String::into_bytes: the
/// result is the UTF-8 encoding of exactly the given characters.
#[verifier::external_body]
fn chars_to_utf8(chars: &Vec<char>) -> (r: Vec<u8>)
    ensures
        r@ == encode_utf8(chars@),
{
    let s: String = chars.iter().collect();
    s.into_bytes()
}

/// Serializes the registry as the synthesized model-listing body.
pub fn models_listing(models: &Vec<ModelConfig>) -> (r: Vec<u8>)
    ensures
        r@ == encode_utf8(models_listing_json(models@)),
{
    let mut out: Vec<char> = Vec::new();
    push_chars(&mut out, "{\"object\":\"list\",\"data\":[");
    proof {
        assert(models@.take(0) =~= Seq::<ModelConfig>::empty());
        assert(out@ =~= "{\"object\":\"list\",\"data\":["@ + model_entries_json(models@.take(0)));
    }
    let mut i: usize = 0;
    while i < models.len()
        invariant
            i <= models@.len(),
            out@ == "{\"object\":\"list\",\"data\":["@ + model_entries_json(models@.take(i as int)),
        decreases models@.len() - i,
    {
        let ghost out0 = out@;
        if i > 0 {
            out.push(',');
        }
        push_model_entry(&mut out, &models[i]);
        proof {
            assert(models@.take(i + 1).drop_last() =~= models@.take(i as int));
            assert(models@.take(i + 1).last() == models@[i as int]);
            if i == 0 {
                assert(model_entries_json(models@.take(1)) == model_entry_json(models@[0]));
                assert(out@ =~= "{\"object\":\"list\",\"data\":["@ + model_entries_json(
                    models@.take(i + 1),
                ));
            } else {
                assert(model_entries_json(models@.take(i + 1)) == model_entries_json(
                    models@.take(i as int),
                ) + seq![','] + model_entry_json(models@[i as int]));
                assert(out@ =~= "{\"object\":\"list\",\"data\":["@ + model_entries_json(
                    models@.take(i + 1),
                ));
            }
        }
        i = i + 1;
    }
    push_chars(&mut out, "]}");
    proof {
        assert(models@.take(models@.len() as int) =~= models@);
        assert(out@ =~= models_listing_json(models@));
    }
    chars_to_utf8(&out)
}

/// Law: the synthesized listing for an empty registry is the exact text
/// `{"object":"list","data":[]}`.
pub proof fn lemma_empty_registry_listing()
    ensures
        models_listing_json(Seq::<ModelConfig>::empty()) == "{\"object\":\"list\",\"data\":[]}"@,
{
    reveal_strlit("{\"object\":\"list\",\"data\":[");
    reveal_strlit("]}");
    reveal_strlit("{\"object\":\"list\",\"data\":[]}");
    assert(models_listing_json(Seq::<ModelConfig>::empty()) =~= (
    "{\"object\":\"list\",\"data\":[]}"@));
}

/// Whether a request path targets the model-listing endpoint: after the
/// leading-slash strip it ends with the suffix `/models`.
pub open spec fn is_models_path(path: Seq<char>) -> bool {
    let p = strip_leading_slashes(path);
    p.len() >= 7 && p.skip(p.len() - 7) == "/models"@
}

fn path_is_models(path: &String) -> (r: bool)
    ensures
        r == is_models_path(path@),
{
    let stripped = crate::request::strip_leading_path(path.as_str());
    let n = stripped.unicode_len();
    if n < 7 {
        return false;
    }
    let suffix = stripped.substring_char(n - 7, n);
    proof {
        assert(stripped@.subrange(n - 7, n as int) =~= stripped@.skip(n - 7));
    }
    suffix.to_owned().eq(&String::from_str("/models"))
}

/// The character-and-byte contents of a response header list; values are
/// raw bytes, since an upstream header value need not be text.
pub open spec fn raw_header_views(hs: Seq<(String, Vec<u8>)>) -> Seq<(Seq<char>, Seq<u8>)> {
    hs.map_values(|p: (String, Vec<u8>)| (p.0@, p.1@))
}

/// Upstream headers that must not be forwarded: `content-length` and
/// `transfer-encoding`, matched case-insensitively; the outbound transport
/// recomputes the framing.
pub open spec fn is_blocked_response_header(name: Seq<char>) -> bool {
    lower_chars(name) == "content-length"@ || lower_chars(name) == "transfer-encoding"@
}

/// The upstream headers that pass through, in order.
pub open spec fn passthrough_headers(hs: Seq<(Seq<char>, Seq<u8>)>) -> Seq<(Seq<char>, Seq<u8>)> {
    hs.filter(|h: (Seq<char>, Seq<u8>)| !is_blocked_response_header(h.0))
}

fn filter_response_headers(headers: &Vec<(String, Vec<u8>)>) -> (r: Vec<(String, Vec<u8>)>)
    ensures
        raw_header_views(r@) == passthrough_headers(raw_header_views(headers@)),
{
    let ghost hv = raw_header_views(headers@);
    let mut out: Vec<(String, Vec<u8>)> = Vec::new();
    proof {
        reveal(vstd::seq::Seq::filter);
        assert(hv.take(0) =~= Seq::<(Seq<char>, Seq<u8>)>::empty());
        assert(raw_header_views(out@) =~= passthrough_headers(hv.take(0)));
    }
    let mut i: usize = 0;
    while i < headers.len()
        invariant
            i <= headers@.len(),
            hv == raw_header_views(headers@),
            hv.len() == headers@.len(),
            raw_header_views(out@) == passthrough_headers(hv.take(i as int)),
        decreases headers@.len() - i,
    {
        proof {
            assert(hv[i as int] == (headers@[i as int].0@, headers@[i as int].1@));
            lemma_reserved_names_are_lower_case();
        }
        let ghost out0 = out@;
        let blocked = eq_ignore_ascii_case(headers[i].0.as_str(), "content-length")
            || eq_ignore_ascii_case(headers[i].0.as_str(), "transfer-encoding");
        if !blocked {
            let value = copy_bytes(&headers[i].1);
            out.push((headers[i].0.clone(), value));
        }
        proof {
            reveal(vstd::seq::Seq::filter);
            let pred = |h: (Seq<char>, Seq<u8>)| !is_blocked_response_header(h.0);
            assert(hv.take(i + 1).drop_last() =~= hv.take(i as int));
            assert(hv.take(i + 1).last() == hv[i as int]);
            if !blocked {
                assert(hv.take(i + 1).filter(pred) == hv.take(i as int).filter(pred).push(
                    hv[i as int],
                ));
                assert((out@.last().0@, out@.last().1@) == hv[i as int]);
                assert(raw_header_views(out@) =~= raw_header_views(out0).push(hv[i as int]));
            } else {
                assert(hv.take(i + 1).filter(pred) == hv.take(i as int).filter(pred));
            }
        }
        i = i + 1;
    }
    proof {
        assert(hv.take(i as int) =~= hv);
    }
    out
}

/// The response handed back to the inbound client.
pub struct ProxyResponse {
    /// The response status code.
    pub status: u16,
    /// The response headers, in order, with raw byte values.
    pub headers: Vec<(String, Vec<u8>)>,
    /// The response body bytes.
    pub body: Vec<u8>,
}

/// The response post-processor.
///
/// A 404 from upstream on a model-listing path is replaced by a synthesized
/// 200 listing of the registry; every other response passes through with its
/// status and body verbatim and its framing headers removed.
pub fn postprocess(
    models: &Vec<ModelConfig>,
    path: &String,
    status: u16,
    headers: &Vec<(String, Vec<u8>)>,
    body: &Vec<u8>,
) -> (r: ProxyResponse)
    ensures
        is_models_path(path@) && status == 404 ==> r.status == 200 && raw_header_views(r.headers@)
            =~= seq![("Content-Type"@, encode_utf8("application/json"@))] && r.body@ == encode_utf8(
            models_listing_json(models@),
        ),
        !(is_models_path(path@) && status == 404) ==> r.status == status && raw_header_views(
            r.headers@,
        ) == passthrough_headers(raw_header_views(headers@)) && r.body@ == body@,
{
    if path_is_models(path) && status == 404 {
        let mut fallback_headers: Vec<(String, Vec<u8>)> = Vec::new();
        fallback_headers.push((String::from_str("Content-Type"), "application/json".as_bytes_vec()));
        proof {
            assert(raw_header_views(fallback_headers@) =~= seq![
                ("Content-Type"@, encode_utf8("application/json"@)),
            ]);
        }
        ProxyResponse { status: 200, headers: fallback_headers, body: models_listing(models) }
    } else {
        ProxyResponse {
            status,
            headers: filter_response_headers(headers),
            body: crate::json::copy_bytes(body),
        }
    }
}

} // verus!
