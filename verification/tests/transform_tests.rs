use openai_proxy::registry::{ModelConfig, ProxyConfig};
use openai_proxy::request::{transform, HttpMethod};

fn s(x: &str) -> String {
    x.to_string()
}

fn model(id: &str, thinking: bool, effort: &str) -> ModelConfig {
    ModelConfig {
        id: s(id),
        object: s("model"),
        owned_by: s("org"),
        enable_thinking: thinking,
        reasoning_effort: s(effort),
    }
}

fn config(models: Vec<ModelConfig>) -> ProxyConfig {
    ProxyConfig {
        api_key: s("sk-test-key"),
        api_base: s("https://api.example.com"),
        models,
    }
}

fn run_transform(cfg: &ProxyConfig, path: &str, query: &str, method: &str, body: &[u8]) -> openai_proxy::request::OutboundRequest {
    transform(
        cfg,
        &s(path),
        &s(query),
        &s(method),
        &vec![(s("accept"), s("*/*"))],
        &body.to_vec(),
    )
}

#[test]
fn url_joins_base_and_path() {
    let cfg = config(vec![]);
    let r = run_transform(&cfg, "v1/chat/completions", "", "POST", b"");
    assert_eq!(r.url, "https://api.example.com/v1/chat/completions");
}

#[test]
fn url_strips_leading_and_trailing_slashes() {
    let mut cfg = config(vec![]);
    cfg.api_base = s("https://api.example.com///");
    let r = run_transform(&cfg, "///v1/models", "", "GET", b"");
    assert_eq!(r.url, "https://api.example.com/v1/models");
}

#[test]
fn url_appends_query_verbatim() {
    let cfg = config(vec![]);
    let r = run_transform(&cfg, "v1/models", "limit=5&after=x%20y", "GET", b"");
    assert_eq!(r.url, "https://api.example.com/v1/models?limit=5&after=x%20y");
}

#[test]
fn url_empty_query_has_no_question_mark() {
    let cfg = config(vec![]);
    let r = run_transform(&cfg, "v1/models", "", "GET", b"");
    assert!(!r.url.contains('?'));
}

#[test]
fn standard_methods_are_preserved() {
    let cfg = config(vec![]);
    let cases = [
        ("GET", HttpMethod::Get),
        ("POST", HttpMethod::Post),
        ("PUT", HttpMethod::Put),
        ("DELETE", HttpMethod::Delete),
        ("PATCH", HttpMethod::Patch),
        ("HEAD", HttpMethod::Head),
        ("OPTIONS", HttpMethod::Options),
    ];
    for (name, expected) in cases {
        let r = run_transform(&cfg, "v1/x", "", name, b"");
        assert_eq!(r.method, expected);
    }
}

#[test]
fn unrecognized_method_maps_to_post() {
    let cfg = config(vec![]);
    let r = run_transform(&cfg, "v1/x", "", "BREW", b"");
    assert_eq!(r.method, HttpMethod::Post);
}

#[test]
fn lower_case_verb_is_not_recognized() {
    let cfg = config(vec![]);
    let r = run_transform(&cfg, "v1/x", "", "get", b"");
    assert_eq!(r.method, HttpMethod::Post);
}

#[test]
fn blocked_headers_never_reach_upstream() {
    let cfg = config(vec![]);
    let inbound = vec![
        (s("Host"), s("proxy.local")),
        (s("AUTHORIZATION"), s("Bearer client-secret")),
        (s("Content-Length"), s("42")),
        (s("content-TYPE"), s("text/plain")),
        (s("x-custom"), s("1")),
        (s("accept"), s("*/*")),
    ];
    let r = transform(&cfg, &s("v1/x"), &s(""), &s("POST"), &inbound, &Vec::new());
    assert_eq!(
        r.headers,
        vec![
            (s("Authorization"), s("Bearer sk-test-key")),
            (s("Content-Type"), s("application/json")),
            (s("x-custom"), s("1")),
            (s("accept"), s("*/*")),
        ]
    );
    let auth_count = r
        .headers
        .iter()
        .filter(|(n, _)| n.eq_ignore_ascii_case("authorization"))
        .count();
    assert_eq!(auth_count, 1);
    let content_type: Vec<&String> = r
        .headers
        .iter()
        .filter(|(n, _)| n.eq_ignore_ascii_case("content-type"))
        .map(|(_, v)| v)
        .collect();
    assert_eq!(content_type, vec!["application/json"]);
}

#[test]
fn thinking_model_gains_exactly_two_fields() {
    let cfg = config(vec![model("qwen-plus", true, "high")]);
    let body = br#"{"model":"qwen-plus","messages":[{"role":"user","content":"hi"}]}"#;
    let r = run_transform(&cfg, "v1/chat/completions", "", "POST", body);
    assert_eq!(
        r.body,
        br#"{"model":"qwen-plus","messages":[{"role":"user","content":"hi"}],"thinking":{"type":"enabled"},"reasoning_effort":"high"}"#.to_vec()
    );
}

#[test]
fn existing_injected_fields_are_overwritten_in_place() {
    let cfg = config(vec![model("qwen-plus", true, "low")]);
    let body = br#"{"thinking":false,"model":"qwen-plus","reasoning_effort":"max"}"#;
    let r = run_transform(&cfg, "v1/chat/completions", "", "POST", body);
    assert_eq!(
        r.body,
        br#"{"thinking":{"type":"enabled"},"model":"qwen-plus","reasoning_effort":"low"}"#.to_vec()
    );
}

#[test]
fn non_thinking_model_leaves_body_untouched() {
    let cfg = config(vec![model("gpt-4o", false, "medium")]);
    let body = br#"{"model":"gpt-4o","messages":[]}"#.to_vec();
    let r = run_transform(&cfg, "v1/chat/completions", "", "POST", &body);
    assert_eq!(r.body, body);
}

#[test]
fn unknown_model_leaves_body_untouched() {
    let cfg = config(vec![model("qwen-plus", true, "high")]);
    let body = br#"{"model":"other","messages":[]}"#.to_vec();
    let r = run_transform(&cfg, "v1/chat/completions", "", "POST", &body);
    assert_eq!(r.body, body);
}

#[test]
fn body_without_model_field_is_untouched() {
    let cfg = config(vec![model("qwen-plus", true, "high")]);
    let body = br#"{"messages":[]}"#.to_vec();
    let r = run_transform(&cfg, "v1/chat/completions", "", "POST", &body);
    assert_eq!(r.body, body);
}

#[test]
fn non_string_model_field_is_untouched() {
    let cfg = config(vec![model("qwen-plus", true, "high")]);
    let body = br#"{"model":7}"#.to_vec();
    let r = run_transform(&cfg, "v1/chat/completions", "", "POST", &body);
    assert_eq!(r.body, body);
}

#[test]
fn malformed_json_body_passes_through_byte_for_byte() {
    let cfg = config(vec![model("qwen-plus", true, "high")]);
    let body = b"{\"model\": \"qwen-plus\", oops".to_vec();
    let r = run_transform(&cfg, "v1/chat/completions", "", "POST", &body);
    assert_eq!(r.body.len(), body.len());
    assert_eq!(r.body, body);
}

#[test]
fn non_object_json_body_passes_through() {
    let cfg = config(vec![model("qwen-plus", true, "high")]);
    let body = br#"["qwen-plus"]"#.to_vec();
    let r = run_transform(&cfg, "v1/chat/completions", "", "POST", &body);
    assert_eq!(r.body, body);
}

#[test]
fn empty_body_stays_empty() {
    let cfg = config(vec![model("qwen-plus", true, "high")]);
    let r = run_transform(&cfg, "v1/chat/completions", "", "POST", b"");
    assert!(r.body.is_empty());
}

#[test]
fn duplicate_model_ids_resolve_to_first_entry() {
    let cfg = config(vec![
        model("dup", false, "medium"),
        model("dup", true, "high"),
    ]);
    let body = br#"{"model":"dup"}"#.to_vec();
    let r = run_transform(&cfg, "v1/chat/completions", "", "POST", &body);
    assert_eq!(r.body, body);
}
