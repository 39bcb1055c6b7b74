use openai_proxy::registry::ModelConfig;
use openai_proxy::response::{models_listing, postprocess};

fn s(x: &str) -> String {
    x.to_string()
}

fn b(x: &str) -> Vec<u8> {
    x.as_bytes().to_vec()
}

fn model(id: &str, thinking: bool, effort: &str) -> ModelConfig {
    ModelConfig {
        id: s(id),
        object: s("model"),
        owned_by: s("openai"),
        enable_thinking: thinking,
        reasoning_effort: s(effort),
    }
}

#[test]
fn models_404_yields_synthesized_listing() {
    let registry = vec![model("alpha", true, "high"), model("beta", false, "medium")];
    let r = postprocess(
        &registry,
        &s("v1/models"),
        404,
        &vec![(s("server"), b("upstream"))],
        &b"not found".to_vec(),
    );
    assert_eq!(r.status, 200);
    assert_eq!(r.headers, vec![(s("Content-Type"), b("application/json"))]);
    let parsed: serde_json::Value = serde_json::from_slice(&r.body).unwrap();
    assert_eq!(parsed["object"], serde_json::Value::String(s("list")));
    let data = parsed["data"].as_array().unwrap();
    assert_eq!(data.len(), registry.len());
    assert_eq!(data[0]["id"], serde_json::Value::String(s("alpha")));
    assert_eq!(data[1]["id"], serde_json::Value::String(s("beta")));
    assert_eq!(data[0]["enable_thinking"], serde_json::Value::Bool(true));
    assert_eq!(data[0]["reasoning_effort"], serde_json::Value::String(s("high")));
}

#[test]
fn synthesized_listing_is_bit_exact() {
    let registry = vec![model("alpha", true, "high")];
    let body = models_listing(&registry);
    assert_eq!(
        body,
        br#"{"object":"list","data":[{"id":"alpha","object":"model","owned_by":"openai","enable_thinking":true,"reasoning_effort":"high"}]}"#.to_vec()
    );
}

#[test]
fn empty_registry_listing_is_exact() {
    let r = postprocess(&Vec::new(), &s("v1/models"), 404, &Vec::new(), &Vec::new());
    assert_eq!(r.status, 200);
    assert_eq!(r.body, br#"{"object":"list","data":[]}"#.to_vec());
}

#[test]
fn listing_escapes_special_characters() {
    let registry = vec![model("a\"b\\c\n", false, "medium")];
    let body = models_listing(&registry);
    let parsed: serde_json::Value = serde_json::from_slice(&body).unwrap();
    assert_eq!(
        parsed["data"][0]["id"],
        serde_json::Value::String(s("a\"b\\c\n"))
    );
    let text = String::from_utf8(body).unwrap();
    assert!(text.contains(r#""id":"a\"b\\c\n""#));
}

#[test]
fn non_404_on_models_path_passes_through() {
    let registry = vec![model("alpha", true, "high")];
    let upstream_body = br#"{"object":"list","data":[]}"#.to_vec();
    let headers = vec![
        (s("content-type"), b("application/json")),
        (s("Content-Length"), b("27")),
        (s("Transfer-Encoding"), b("chunked")),
        (s("x-request-id"), b("abc")),
    ];
    for status in [200u16, 500u16] {
        let r = postprocess(&registry, &s("v1/models"), status, &headers, &upstream_body);
        assert_eq!(r.status, status);
        assert_eq!(r.body, upstream_body);
        assert_eq!(
            r.headers,
            vec![
                (s("content-type"), b("application/json")),
                (s("x-request-id"), b("abc")),
            ]
        );
    }
}

#[test]
fn four_oh_four_on_other_path_passes_through() {
    let registry = vec![model("alpha", true, "high")];
    let body = b"missing".to_vec();
    let r = postprocess(&registry, &s("v1/chat/completions"), 404, &Vec::new(), &body);
    assert_eq!(r.status, 404);
    assert_eq!(r.body, body);
    assert!(r.headers.is_empty());
}

#[test]
fn bare_models_path_without_slash_is_not_the_listing_endpoint() {
    let registry = vec![model("alpha", true, "high")];
    let body = b"nope".to_vec();
    let r = postprocess(&registry, &s("///models"), 404, &Vec::new(), &body);
    assert_eq!(r.status, 404);
    assert_eq!(r.body, body);
}

#[test]
fn framing_headers_match_any_case() {
    let registry = vec![];
    let headers = vec![
        (s("CONTENT-LENGTH"), b("5")),
        (s("transfer-ENCODING"), b("chunked")),
        (s("Server"), b("demo")),
    ];
    let r = postprocess(&registry, &s("v1/x"), 200, &headers, &b"hello".to_vec());
    assert_eq!(r.headers, vec![(s("Server"), b("demo"))]);
}
