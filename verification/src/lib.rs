//! An embeddable HTTP/1.1 client core: a pool of persistent connections keyed
//! by destination (`host:port`), a connection-lifecycle state machine, and the
//! request pipeline around them.
//!
//! The pool decides when a connection may be reused and when a stale one must
//! be replaced; the request pipeline validates the caller's input, injects the
//! `Host` header, canonicalises the body payload and assembles the buffered
//! response. The asynchronous transport work itself (TCP connect, HTTP/1.1
//! handshake, sending, frame reads) is performed by the embedding host, which
//! drives these verified components.

use vstd::prelude::*;

pub mod assoc;
pub mod body;
pub mod executor;
pub mod ext;
pub mod headers;
pub mod key;
pub mod pool;

verus! {

/// Why a request failed. Every failure is terminal for the one request that
/// raised it; nothing here is fatal to the embedding process.
#[derive(Debug)]
pub enum HttpError {
    /// The request URL could not be parsed; carries the parser's description.
    InvalidUrl(String),
    /// The method string is not a valid HTTP method token.
    InvalidMethod,
    /// The URL carries no host, so no destination key can be derived.
    MissingHost,
    /// A response header value was not valid UTF-8. The whole request fails
    /// rather than delivering a lossy conversion.
    NonUtf8HeaderValue,
    /// TCP connect or HTTP/1.1 handshake failed; carries the transport error's
    /// description.
    Connect(String),
    /// Sending the request over an established connection failed.
    Send(String),
    /// Reading a response body frame failed; any partial body is discarded.
    Body(String),
}

impl HttpError {
    /// The human-readable description delivered to the caller.
    pub fn message(&self) -> (r: String)
        ensures
            self is InvalidUrl ==> r@ == self->InvalidUrl_0@,
            self is InvalidMethod ==> r@ == "Unrecognised HTTP method"@,
            self is MissingHost ==> r@ == "Missing host in URL"@,
            self is NonUtf8HeaderValue ==> r@ == "Non-UTF-8 header value in response"@,
            self is Connect ==> r@ == self->Connect_0@,
            self is Send ==> r@ == self->Send_0@,
            self is Body ==> r@ == self->Body_0@,
    {
        match self {
            HttpError::InvalidUrl(m) => m.clone(),
            HttpError::InvalidMethod => "Unrecognised HTTP method".to_owned(),
            HttpError::MissingHost => "Missing host in URL".to_owned(),
            HttpError::NonUtf8HeaderValue => "Non-UTF-8 header value in response".to_owned(),
            HttpError::Connect(m) => m.clone(),
            HttpError::Send(m) => m.clone(),
            HttpError::Body(m) => m.clone(),
        }
    }
}

} // verus!
