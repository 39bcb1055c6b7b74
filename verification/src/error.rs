//! The closed set of request-terminal failures and their mapping to
//! client-visible HTTP responses.
//!
//! None of these is raised for malformed JSON, unknown models or
//! unrecognized methods — those degrade gracefully in the transformer.

use vstd::prelude::*;

verus! {

/// A failure that ends a single in-flight request.
pub enum ProxyError {
    /// The outbound call to the upstream could not be made.
    RequestError(String),
    /// The upstream response could not be read.
    ResponseError(String),
    /// The inbound request body could not be read.
    BodyReadError(String),
}

impl ProxyError {
    /// The HTTP status the error maps to: 502 for failures reaching or
    /// reading the upstream, 400 for an unreadable inbound body, which is
    /// the client's side of the exchange.
    pub open spec fn spec_status(&self) -> u16 {
        match self {
            ProxyError::RequestError(_) => 502,
            ProxyError::ResponseError(_) => 502,
            ProxyError::BodyReadError(_) => 400,
        }
    }

    /// The carried diagnostic text.
    pub open spec fn spec_detail(&self) -> Seq<char> {
        match self {
            ProxyError::RequestError(m) => m@,
            ProxyError::ResponseError(m) => m@,
            ProxyError::BodyReadError(m) => m@,
        }
    }

    /// The status code of the client-visible error response.
    pub fn status_code(&self) -> (r: u16)
        ensures
            r == self.spec_status(),
    {
        match self {
            ProxyError::RequestError(_) => 502,
            ProxyError::ResponseError(_) => 502,
            ProxyError::BodyReadError(_) => 400,
        }
    }

    /// The body text of the client-visible error response.
    pub fn response_message(&self) -> (r: String)
        ensures
            r@ == "Proxy error: "@ + self.spec_detail(),
    {
        let mut text = String::from_str("Proxy error: ");
        match self {
            ProxyError::RequestError(m) => text.append(m.as_str()),
            ProxyError::ResponseError(m) => text.append(m.as_str()),
            ProxyError::BodyReadError(m) => text.append(m.as_str()),
        }
        text
    }
}

} // verus!
