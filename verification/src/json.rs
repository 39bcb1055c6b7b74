//! Conditional JSON body rewriting.
//!
//! A request body is forwarded unchanged unless it parses as a JSON object
//! whose `model` field names a registry entry with thinking enabled; in that
//! case the object gains a `thinking` directive and the entry's configured
//! `reasoning_effort`, overwriting fields of the same name and leaving every
//! other field, and the field order, intact.
//!
//! Parsing and serialization are serde_json's; the decision logic and the
//! field-list surgery are verified here. The serde_json results are named by
//! uninterpreted spec functions so that the contracts stay exact.

use vstd::prelude::*;

use crate::registry::{lookup_spec, ModelConfig};

verus! {

#[verifier::external_type_specification]
#[verifier::external_body]
pub struct ExValue(serde_json::Value);

/// The JSON value the bytes parse to, if they parse at all.
pub uninterp spec fn json_parse(bytes: Seq<u8>) -> Option<serde_json::Value>;

/// The ordered entry list of a value that is a JSON object, `None` otherwise.
pub uninterp spec fn obj_entries(v: serde_json::Value) -> Option<
    Seq<(Seq<char>, serde_json::Value)>,
>;

/// The character content of a value that is a JSON string, `None` otherwise.
pub uninterp spec fn str_content(v: serde_json::Value) -> Option<Seq<char>>;

/// The JSON string value holding exactly the given characters.
pub uninterp spec fn string_value(s: Seq<char>) -> serde_json::Value;

/// The JSON object built by inserting the given entries in order.
pub uninterp spec fn object_value(entries: Seq<(Seq<char>, serde_json::Value)>) -> serde_json::Value;

/// The compact serialization of a JSON value.
pub uninterp spec fn value_bytes(v: serde_json::Value) -> Seq<u8>;

/// The entry list a `Vec` of owned pairs stands for.
pub open spec fn fields_view(fs: Seq<(String, serde_json::Value)>) -> Seq<
    (Seq<char>, serde_json::Value),
> {
    fs.map_values(|p: (String, serde_json::Value)| (p.0@, p.1))
}

/// Relies on serde_json::from_slice for serde_json::Value: the result is a
/// function of the bytes alone, and empty input is a parse error.
#[verifier::external_body]
fn parse_json(bytes: &Vec<u8>) -> (r: Option<serde_json::Value>)
    ensures
        r == json_parse(bytes@),
        bytes@.len() == 0 ==> r is None,
{
    serde_json::from_slice::<serde_json::Value>(bytes.as_slice()).ok()
}

/// Relies on serde_json::Value::Object and serde_json::Map's iteration order
/// (the `preserve_order` feature): an object's entries come out in document
/// order; any other variant yields `None`.
#[verifier::external_body]
fn object_entries(v: serde_json::Value) -> (r: Option<Vec<(String, serde_json::Value)>>)
    ensures
        r matches Some(fields) ==> obj_entries(v) == Some(fields_view(fields@)),
        r is None ==> obj_entries(v) is None,
{
    match v {
        serde_json::Value::Object(m) => Some(m.into_iter().collect()),
        _ => None,
    }
}

/// Relies on serde_json::Value::as_str: `Some` exactly for string values,
/// with their character content.
#[verifier::external_body]
fn value_string(v: &serde_json::Value) -> (r: Option<String>)
    ensures
        r matches Some(s) ==> str_content(*v) == Some(s@),
        r is None ==> str_content(*v) is None,
{
    v.as_str().map(str::to_owned)
}

/// Relies on serde_json::Value::String: it wraps exactly the given string.
#[verifier::external_body]
fn make_string_value(s: &str) -> (r: serde_json::Value)
    ensures
        r == string_value(s@),
        str_content(r) == Some(s@),
{
    serde_json::Value::String(s.to_owned())
}

/// Relies on serde_json::Map::insert (with `preserve_order`): inserting the
/// pairs of the list in order builds the object with those entries.
#[verifier::external_body]
fn make_object_value(fields: Vec<(String, serde_json::Value)>) -> (r: serde_json::Value)
    ensures
        r == object_value(fields_view(fields@)),
{
    let mut m = serde_json::Map::new();
    for (k, v) in fields {
        m.insert(k, v);
    }
    serde_json::Value::Object(m)
}

/// Relies on serde_json::to_vec: compact serialization, a function of the
/// value alone. Serializing a `Value` cannot fail (its keys are strings and
/// its `Serialize` impl never errors), so the fallback arm is unreachable.
#[verifier::external_body]
fn value_to_bytes(v: &serde_json::Value) -> (r: Vec<u8>)
    ensures
        r@ == value_bytes(*v),
{
    match serde_json::to_vec(v) {
        Ok(b) => b,
        Err(_) => Vec::new(),
    }
}

/// The value of the first entry with the given key, if any.
pub open spec fn find_value(
    fs: Seq<(Seq<char>, serde_json::Value)>,
    k: Seq<char>,
) -> Option<serde_json::Value>
    decreases fs.len(),
{
    if fs.len() == 0 {
        None
    } else if fs[0].0 == k {
        Some(fs[0].1)
    } else {
        find_value(fs.drop_first(), k)
    }
}

/// Replaces the value of the first entry with the given key in place, or
/// appends a new entry at the end when the key is absent.
pub open spec fn upsert(
    fs: Seq<(Seq<char>, serde_json::Value)>,
    k: Seq<char>,
    v: serde_json::Value,
) -> Seq<(Seq<char>, serde_json::Value)>
    decreases fs.len(),
{
    if fs.len() == 0 {
        seq![(k, v)]
    } else if fs[0].0 == k {
        seq![(k, v)] + fs.drop_first()
    } else {
        seq![fs[0]] + upsert(fs.drop_first(), k, v)
    }
}

fn find_field<'a>(fields: &'a Vec<(String, serde_json::Value)>, key: &String) -> (r: Option<
    &'a serde_json::Value,
>)
    ensures
        r matches Some(v) ==> find_value(fields_view(fields@), key@) == Some(*v),
        r is None ==> find_value(fields_view(fields@), key@) is None,
{
    proof {
        assert(fields_view(fields@).skip(0) =~= fields_view(fields@));
    }
    let ghost fv = fields_view(fields@);
    let mut i: usize = 0;
    while i < fields.len()
        invariant
            i <= fields@.len(),
            fv == fields_view(fields@),
            fv.len() == fields@.len(),
            find_value(fv, key@) == find_value(fv.skip(i as int), key@),
        decreases fields@.len() - i,
    {
        proof {
            let s = fv.skip(i as int);
            assert(s.len() > 0);
            assert(s[0] == fv[i as int]);
            assert(fv[i as int] == (fields@[i as int].0@, fields@[i as int].1));
        }
        if fields[i].0.eq(key) {
            proof {
                let s = fv.skip(i as int);
                assert(find_value(s, key@) == Some(s[0].1));
            }
            return Some(&fields[i].1);
        }
        proof {
            let s = fv.skip(i as int);
            assert(s.drop_first() =~= fv.skip(i + 1));
            assert(find_value(s, key@) == find_value(s.drop_first(), key@));
        }
        i = i + 1;
    }
    None
}

proof fn lemma_upsert_at_first_match(
    fs: Seq<(Seq<char>, serde_json::Value)>,
    k: Seq<char>,
    v: serde_json::Value,
    i: int,
)
    requires
        0 <= i < fs.len(),
        fs[i].0 == k,
        forall|j: int| 0 <= j < i ==> fs[j].0 != k,
    ensures
        upsert(fs, k, v) =~= fs.update(i, (k, v)),
    decreases i,
{
    if i == 0 {
        assert(upsert(fs, k, v) == seq![(k, v)] + fs.drop_first());
    } else {
        lemma_upsert_at_first_match(fs.drop_first(), k, v, i - 1);
        assert(upsert(fs, k, v) == seq![fs[0]] + upsert(fs.drop_first(), k, v));
        assert(seq![fs[0]] + fs.drop_first().update(i - 1, (k, v)) =~= fs.update(i, (k, v)));
    }
}

proof fn lemma_upsert_appends(
    fs: Seq<(Seq<char>, serde_json::Value)>,
    k: Seq<char>,
    v: serde_json::Value,
)
    requires
        forall|j: int| 0 <= j < fs.len() ==> fs[j].0 != k,
    ensures
        upsert(fs, k, v) =~= fs.push((k, v)),
    decreases fs.len(),
{
    if fs.len() == 0 {
    } else {
        lemma_upsert_appends(fs.drop_first(), k, v);
        assert(seq![fs[0]] + fs.drop_first().push((k, v)) =~= fs.push((k, v)));
    }
}

fn find_field_index(fields: &Vec<(String, serde_json::Value)>, key: &String) -> (r: Option<
    usize,
>)
    ensures
        match r {
            Some(fi) => fi < fields@.len() && fields@[fi as int].0@ == key@ && forall|j: int|
                0 <= j < fi ==> fields@[j].0@ != key@,
            None => forall|j: int| 0 <= j < fields@.len() ==> fields@[j].0@ != key@,
        },
{
    let mut i: usize = 0;
    while i < fields.len()
        invariant
            i <= fields@.len(),
            forall|j: int| 0 <= j < i ==> fields@[j].0@ != key@,
        decreases fields@.len() - i,
    {
        if fields[i].0.eq(key) {
            return Some(i);
        }
        i = i + 1;
    }
    None
}

fn upsert_field(fields: &mut Vec<(String, serde_json::Value)>, key: String, value: serde_json::Value)
    ensures
        fields_view(final(fields)@) == upsert(fields_view(old(fields)@), key@, value),
{
    let ghost fv = fields_view(fields@);
    let ghost kv = key@;
    let found = find_field_index(fields, &key);
    proof {
        assert(forall|j: int|
            0 <= j < fields@.len() ==> fv[j] == (fields@[j].0@, fields@[j].1));
    }
    match found {
        Some(fi) => {
            let _old_entry = fields.remove(fi);
            fields.insert(fi, (key, value));
            proof {
                lemma_upsert_at_first_match(fv, kv, value, fi as int);
                assert(fields_view(fields@) =~= fv.update(fi as int, (kv, value)));
            }
        },
        None => {
            fields.push((key, value));
            proof {
                lemma_upsert_appends(fv, kv, value);
                assert(fields_view(fields@) =~= fv.push((kv, value)));
            }
        },
    }
}

/// The `thinking` directive injected for thinking-enabled models:
/// the JSON object `{"type": "enabled"}`.
pub open spec fn thinking_value() -> serde_json::Value {
    object_value(seq![("type"@, string_value("enabled"@))])
}

/// The entry list after injecting the thinking directive and the configured
/// reasoning effort, each overwriting a pre-existing field of the same name.
pub open spec fn injected_fields(
    fs: Seq<(Seq<char>, serde_json::Value)>,
    effort: Seq<char>,
) -> Seq<(Seq<char>, serde_json::Value)> {
    upsert(upsert(fs, "thinking"@, thinking_value()), "reasoning_effort"@, string_value(effort))
}

/// What the request transformer makes of a body: the body itself, unless it
/// is a JSON object naming a registered model with thinking enabled, in which
/// case the object is re-serialized with the two injected fields.
pub open spec fn rewritten_body(body: Seq<u8>, models: Seq<ModelConfig>) -> Seq<u8> {
    match json_parse(body) {
        None => body,
        Some(v) => match obj_entries(v) {
            None => body,
            Some(fs) => match find_value(fs, "model"@) {
                None => body,
                Some(mv) => match str_content(mv) {
                    None => body,
                    Some(name) => match lookup_spec(models, name) {
                        None => body,
                        Some(cfg) => if cfg.enable_thinking {
                            value_bytes(object_value(injected_fields(fs, cfg.reasoning_effort@)))
                        } else {
                            body
                        },
                    },
                },
            },
        },
    }
}

pub fn copy_bytes(bytes: &Vec<u8>) -> (r: Vec<u8>)
    ensures
        r@ == bytes@,
{
    let mut out: Vec<u8> = Vec::new();
    let mut i: usize = 0;
    while i < bytes.len()
        invariant
            i <= bytes@.len(),
            out@ == bytes@.subrange(0, i as int),
        decreases bytes@.len() - i,
    {
        out.push(bytes[i]);
        proof {
            assert(out@ =~= bytes@.subrange(0, i + 1));
        }
        i = i + 1;
    }
    proof {
        assert(out@ =~= bytes@);
    }
    out
}

/// The keys of an entry list, in order.
pub open spec fn entry_keys(fs: Seq<(Seq<char>, serde_json::Value)>) -> Seq<Seq<char>> {
    fs.map_values(|p: (Seq<char>, serde_json::Value)| p.0)
}

/// Whether the body rewrite fires: the body parses as a JSON object whose
/// `model` field is a string naming a registry entry with thinking enabled.
pub open spec fn rewrite_applies(body: Seq<u8>, models: Seq<ModelConfig>) -> bool {
    match json_parse(body) {
        None => false,
        Some(v) => match obj_entries(v) {
            None => false,
            Some(fs) => match find_value(fs, "model"@) {
                None => false,
                Some(mv) => match str_content(mv) {
                    None => false,
                    Some(name) => match lookup_spec(models, name) {
                        None => false,
                        Some(cfg) => cfg.enable_thinking,
                    },
                },
            },
        },
    }
}

/// Law: when the rewrite does not fire — malformed JSON, a non-object body,
/// a missing or non-string `model` field, an unregistered model, or one with
/// thinking disabled — the body passes through byte-for-byte.
pub proof fn lemma_rewrite_passthrough(body: Seq<u8>, models: Seq<ModelConfig>)
    requires
        !rewrite_applies(body, models),
    ensures
        rewritten_body(body, models) == body,
{
}

/// Law: after an upsert, the upserted key holds exactly the new value.
pub proof fn lemma_upsert_finds_inserted(
    fs: Seq<(Seq<char>, serde_json::Value)>,
    k: Seq<char>,
    v: serde_json::Value,
)
    ensures
        find_value(upsert(fs, k, v), k) == Some(v),
    decreases fs.len(),
{
    if fs.len() == 0 {
        assert(upsert(fs, k, v)[0] == (k, v));
    } else if fs[0].0 == k {
        assert(upsert(fs, k, v)[0] == (k, v));
    } else {
        lemma_upsert_finds_inserted(fs.drop_first(), k, v);
        let u = upsert(fs, k, v);
        assert(u == seq![fs[0]] + upsert(fs.drop_first(), k, v));
        assert(u[0] == fs[0]);
        assert(u.drop_first() =~= upsert(fs.drop_first(), k, v));
    }
}

/// Law: an upsert leaves the value of every other key untouched.
pub proof fn lemma_upsert_preserves_others(
    fs: Seq<(Seq<char>, serde_json::Value)>,
    k: Seq<char>,
    v: serde_json::Value,
    other: Seq<char>,
)
    requires
        other != k,
    ensures
        find_value(upsert(fs, k, v), other) == find_value(fs, other),
    decreases fs.len(),
{
    if fs.len() == 0 {
        let u = upsert(fs, k, v);
        assert(u.len() == 1 && u[0] == (k, v));
        assert(find_value(u, other) == find_value(u.drop_first(), other));
        assert(u.drop_first().len() == 0);
        assert(find_value(u.drop_first(), other) is None);
        assert(find_value(fs, other) is None);
    } else if fs[0].0 == k {
        let u = upsert(fs, k, v);
        assert(u[0] == (k, v));
        assert(u.drop_first() =~= fs.drop_first());
        assert(find_value(u, other) == find_value(u.drop_first(), other));
        assert(find_value(fs, other) == find_value(fs.drop_first(), other));
    } else {
        lemma_upsert_preserves_others(fs.drop_first(), k, v, other);
        let u = upsert(fs, k, v);
        assert(u == seq![fs[0]] + upsert(fs.drop_first(), k, v));
        assert(u[0] == fs[0]);
        assert(u.drop_first() =~= upsert(fs.drop_first(), k, v));
    }
}

/// Law: an upsert keeps the key order: an existing key stays in place, a new
/// key is appended at the end, and no other key moves.
pub proof fn lemma_upsert_keys(
    fs: Seq<(Seq<char>, serde_json::Value)>,
    k: Seq<char>,
    v: serde_json::Value,
)
    ensures
        entry_keys(upsert(fs, k, v)) =~= (if find_value(fs, k) is Some {
            entry_keys(fs)
        } else {
            entry_keys(fs).push(k)
        }),
    decreases fs.len(),
{
    if fs.len() == 0 {
        assert(entry_keys(upsert(fs, k, v)) =~= entry_keys(fs).push(k));
    } else if fs[0].0 == k {
        let u = seq![(k, v)] + fs.drop_first();
        assert(upsert(fs, k, v) == u);
        assert forall|i: int| 0 <= i < u.len() implies entry_keys(u)[i] == entry_keys(fs)[i] by {
            if i == 0 {
                assert(u[0].0 == k && fs[0].0 == k);
            } else {
                assert(u[i] == fs.drop_first()[i - 1]);
                assert(fs.drop_first()[i - 1] == fs[i]);
            }
        }
        assert(entry_keys(u) =~= entry_keys(fs));
    } else {
        lemma_upsert_keys(fs.drop_first(), k, v);
        let rec = upsert(fs.drop_first(), k, v);
        let u = seq![fs[0]] + rec;
        assert(upsert(fs, k, v) == u);
        assert(find_value(fs, k) == find_value(fs.drop_first(), k));
        assert forall|i: int| 0 < i < u.len() implies entry_keys(u)[i] == entry_keys(rec)[i
            - 1] by {
            assert(u[i] == rec[i - 1]);
        }
        if find_value(fs, k) is Some {
            assert(entry_keys(rec) == entry_keys(fs.drop_first()));
            assert forall|i: int| 0 <= i < u.len() implies entry_keys(u)[i] == entry_keys(
                fs,
            )[i] by {
                if i > 0 {
                    assert(entry_keys(rec)[i - 1] == fs.drop_first()[i - 1].0);
                    assert(fs.drop_first()[i - 1] == fs[i]);
                }
            }
            assert(entry_keys(u) =~= entry_keys(fs));
        } else {
            assert(entry_keys(rec) == entry_keys(fs.drop_first()).push(k));
            assert forall|i: int| 0 <= i < u.len() implies entry_keys(u)[i] == entry_keys(
                fs,
            ).push(k)[i] by {
                if i > 0 {
                    assert(entry_keys(rec)[i - 1] == entry_keys(fs.drop_first()).push(k)[i - 1]);
                    if i < u.len() - 1 {
                        assert(entry_keys(fs.drop_first()).push(k)[i - 1] == fs.drop_first()[i
                            - 1].0);
                        assert(fs.drop_first()[i - 1] == fs[i]);
                    }
                }
            }
            assert(entry_keys(u) =~= entry_keys(fs).push(k));
        }
    }
}

/// Law: for a thinking-enabled model, the injection adds exactly the two
/// fields `thinking` (the enabling directive) and `reasoning_effort` (the
/// registry's value for the model); every other field keeps its value, and
/// the key order is preserved, with missing injected keys appended at the
/// end.
pub proof fn lemma_injection_changes_exactly_two_fields(
    fs: Seq<(Seq<char>, serde_json::Value)>,
    effort: Seq<char>,
)
    ensures
        find_value(injected_fields(fs, effort), "thinking"@) == Some(thinking_value()),
        find_value(injected_fields(fs, effort), "reasoning_effort"@) == Some(string_value(effort)),
        forall|k: Seq<char>|
            k != "thinking"@ && k != "reasoning_effort"@ ==> find_value(
                injected_fields(fs, effort),
                k,
            ) == find_value(fs, k),
        entry_keys(injected_fields(fs, effort)) == (if find_value(fs, "thinking"@) is Some {
            if find_value(fs, "reasoning_effort"@) is Some {
                entry_keys(fs)
            } else {
                entry_keys(fs).push("reasoning_effort"@)
            }
        } else {
            if find_value(fs, "reasoning_effort"@) is Some {
                entry_keys(fs).push("thinking"@)
            } else {
                entry_keys(fs).push("thinking"@).push("reasoning_effort"@)
            }
        }),
{
    reveal_strlit("thinking");
    reveal_strlit("reasoning_effort");
    assert("thinking"@.len() != "reasoning_effort"@.len());
    let mid = upsert(fs, "thinking"@, thinking_value());
    lemma_upsert_finds_inserted(fs, "thinking"@, thinking_value());
    lemma_upsert_preserves_others(mid, "reasoning_effort"@, string_value(effort), "thinking"@);
    lemma_upsert_finds_inserted(mid, "reasoning_effort"@, string_value(effort));
    lemma_upsert_preserves_others(fs, "thinking"@, thinking_value(), "reasoning_effort"@);
    assert forall|k: Seq<char>| k != "thinking"@ && k != "reasoning_effort"@ implies find_value(
        injected_fields(fs, effort),
        k,
    ) == find_value(fs, k) by {
        lemma_upsert_preserves_others(mid, "reasoning_effort"@, string_value(effort), k);
        lemma_upsert_preserves_others(fs, "thinking"@, thinking_value(), k);
    }
    lemma_upsert_keys(fs, "thinking"@, thinking_value());
    lemma_upsert_keys(mid, "reasoning_effort"@, string_value(effort));
}

/// Rewrites a request body for the upstream call.
///
/// The body passes through byte-for-byte unless it parses as a JSON object
/// whose `model` field is a string naming a registry entry that has
/// `enable_thinking` set; then the object is re-serialized with `thinking`
/// and the entry's `reasoning_effort` injected.
pub fn rewrite_body(body: &Vec<u8>, models: &Vec<ModelConfig>) -> (r: Vec<u8>)
    ensures
        r@ == rewritten_body(body@, models@),
        body@.len() == 0 ==> r@ == body@,
{
    let parsed = match parse_json(body) {
        None => {
            return copy_bytes(body);
        },
        Some(v) => v,
    };
    let mut fields = match object_entries(parsed) {
        None => {
            return copy_bytes(body);
        },
        Some(fs) => fs,
    };
    let model_key = String::from_str("model");
    let name = {
        let found = find_field(&fields, &model_key);
        match found {
            None => {
                return copy_bytes(body);
            },
            Some(mv) => match value_string(mv) {
                None => {
                    return copy_bytes(body);
                },
                Some(s) => s,
            },
        }
    };
    let cfg = match crate::registry::lookup_model(models, &name) {
        None => {
            return copy_bytes(body);
        },
        Some(c) => c,
    };
    if !cfg.enable_thinking {
        return copy_bytes(body);
    }
    let effort = make_string_value(cfg.reasoning_effort.as_str());
    let mut type_fields: Vec<(String, serde_json::Value)> = Vec::new();
    type_fields.push((String::from_str("type"), make_string_value("enabled")));
    proof {
        assert(fields_view(type_fields@) =~= seq![("type"@, string_value("enabled"@))]);
    }
    let directive = make_object_value(type_fields);
    upsert_field(&mut fields, String::from_str("thinking"), directive);
    upsert_field(&mut fields, String::from_str("reasoning_effort"), effort);
    let rewritten = make_object_value(fields);
    value_to_bytes(&rewritten)
}

} // verus!
