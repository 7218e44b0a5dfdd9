//! The one error type that every client-facing failure funnels through.

use vstd::prelude::*;

verus! {

/// A failure of the request-handling flow, with its textual description.
#[derive(Debug, Clone)]
pub enum ProxyError {
    /// The request carries no `Cache-Control` header; callers fall back to
    /// the default directive set.
    MissingCacheControl,
    /// The rewritten target is not a valid URI.
    InvalidTarget(String),
    /// A read from the key-value store failed.
    StoreRead(String),
    /// The origin could not be reached or answered with an unusable response.
    Origin(String),
    /// A stored entry could not be decoded.
    Decode(String),
    /// A stored status code is outside the range of HTTP status codes.
    InvalidStatus(u16),
    /// A stored header name or value breaks the wire-format rules.
    InvalidHeader(String),
}

impl ProxyError {
    /// The detail text that the variant carries (empty where it carries none).
    pub open spec fn detail(self) -> Seq<char> {
        match self {
            ProxyError::InvalidTarget(s) => s@,
            ProxyError::StoreRead(s) => s@,
            ProxyError::Origin(s) => s@,
            ProxyError::Decode(s) => s@,
            ProxyError::InvalidHeader(s) => s@,
            _ => Seq::empty(),
        }
    }
}

} // verus!
