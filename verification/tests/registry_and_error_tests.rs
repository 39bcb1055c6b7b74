use openai_proxy::error::ProxyError;
use openai_proxy::registry::{
    default_api_version, default_reasoning_effort, lookup_model, ModelConfig,
};

fn s(x: &str) -> String {
    x.to_string()
}

fn model(id: &str, thinking: bool, effort: &str) -> ModelConfig {
    ModelConfig {
        id: s(id),
        object: s("model"),
        owned_by: s("org"),
        enable_thinking: thinking,
        reasoning_effort: s(effort),
    }
}

#[test]
fn defaults_match_configuration_contract() {
    assert_eq!(default_api_version(), "v1");
    assert_eq!(default_reasoning_effort(), "medium");
}

#[test]
fn lookup_finds_entry_by_id() {
    let models = vec![model("a", false, "low"), model("b", true, "high")];
    let found = lookup_model(&models, &s("b")).unwrap();
    assert_eq!(found.id, "b");
    assert!(found.enable_thinking);
    assert_eq!(found.reasoning_effort, "high");
}

#[test]
fn lookup_misses_unknown_id() {
    let models = vec![model("a", false, "low")];
    assert!(lookup_model(&models, &s("zz")).is_none());
}

#[test]
fn lookup_on_duplicate_ids_is_first_match() {
    let models = vec![model("dup", false, "low"), model("dup", true, "high")];
    let found = lookup_model(&models, &s("dup")).unwrap();
    assert!(!found.enable_thinking);
    assert_eq!(found.reasoning_effort, "low");
}

#[test]
fn request_error_maps_to_bad_gateway() {
    let e = ProxyError::RequestError(s("connect refused"));
    assert_eq!(e.status_code(), 502);
    assert_eq!(e.response_message(), "Proxy error: connect refused");
}

#[test]
fn response_error_maps_to_bad_gateway() {
    let e = ProxyError::ResponseError(s("connection reset"));
    assert_eq!(e.status_code(), 502);
    assert_eq!(e.response_message(), "Proxy error: connection reset");
}

#[test]
fn body_read_error_maps_to_client_error() {
    let e = ProxyError::BodyReadError(s("truncated"));
    assert_eq!(e.status_code(), 400);
    assert_eq!(e.response_message(), "Proxy error: truncated");
}
