//! A verified core for a transparent reverse proxy in front of an
//! OpenAI-compatible chat-completion API.
//!
//! The library covers the request/response transformation pipeline:
//! upstream URL construction, method mapping, header filtering,
//! conditional JSON body rewriting driven by a model registry, and
//! response post-processing with a synthesized model-listing fallback.

pub mod error;
pub mod json;
pub mod registry;
pub mod request;
pub mod response;
pub mod text;
