//! The boundary to the outside crates (hyper, tokio) and to the few std
//! functions that vstd gives no specification.
//!
//! Everything here is trusted: Verus believes the contracts without reading
//! the bodies. Each item names the outside function it relies on. The
//! character-class spec functions transcribe the validation tables of the
//! `http` crate (`method.rs` and `header/name.rs`, which accept the same
//! character set, and `header/value.rs`); those tables accept ASCII bytes
//! only, so the classes are stated over the characters of the input string.

use vstd::prelude::*;
use vstd::utf8::decode_utf8;
use vstd::utf8::valid_utf8;

verus! {

// ---------------------------------------------------------------------------
// Outside types that flow through the pool and the resolver. They are opaque
// to Verus: values of them are only carried, never inspected.
// ---------------------------------------------------------------------------

/// A parsed URL, produced and read only by hyper.
#[verifier::external_type_specification]
#[verifier::external_body]
pub struct ExUri(hyper::Uri);

/// The handle through which one request at a time is submitted over an
/// established HTTP/1.1 connection.
#[verifier::external_type_specification]
#[verifier::external_body]
#[verifier::reject_recursive_types(B)]
pub struct ExSendRequest<B>(hyper::client::conn::http1::SendRequest<B>);

/// The handle of a spawned background task, here the task driving a
/// connection's I/O.
#[verifier::external_type_specification]
#[verifier::external_body]
#[verifier::reject_recursive_types(T)]
pub struct ExJoinHandle<T>(tokio::task::JoinHandle<T>);

/// The error with which an awaited background task can fail; it occurs in
/// the signatures that come with `JoinHandle` and is never inspected here.
#[verifier::external_type_specification]
#[verifier::external_body]
pub struct ExJoinError(tokio::task::JoinError);

// ---------------------------------------------------------------------------
// Character classes of the http crate's validation tables.
// ---------------------------------------------------------------------------

/// A character accepted in an HTTP method and in a header name: the table in
/// the http crate's `method.rs` and the one in its `header/name.rs` accept
/// exactly these bytes.
pub open spec fn token_char_ok(c: char) -> bool {
    ('a' as u32 <= c as u32 && c as u32 <= 'z' as u32) || ('A' as u32 <= c as u32 && c as u32
        <= 'Z' as u32) || ('0' as u32 <= c as u32 && c as u32 <= '9' as u32) || c == '!' || c == '#'
        || c == '$' || c == '%' || c == '&' || c == '\'' || c == '*' || c == '+' || c == '-' || c
        == '.' || c == '^' || c == '_' || c == '`' || c == '|' || c == '~'
}

/// A valid HTTP method token: nonempty, token characters only.
pub open spec fn method_token(s: Seq<char>) -> bool {
    s.len() >= 1 && (forall|i: int| 0 <= i < s.len() ==> token_char_ok(#[trigger] s[i]))
}

/// A valid header name before canonicalisation: nonempty, at most 65535
/// characters, token characters only.
pub open spec fn header_name_ok(s: Seq<char>) -> bool {
    1 <= s.len() <= 0xffff && (forall|i: int| 0 <= i < s.len() ==> token_char_ok(#[trigger] s[i]))
}

/// The canonical form of one header-name character: ASCII upper case folded
/// to lower case, as the http crate's table does.
pub open spec fn header_char_canon(c: char) -> char {
    if 'A' as u32 <= c as u32 && c as u32 <= 'Z' as u32 {
        ((c as u32) + 32) as char
    } else {
        c
    }
}

/// The canonical (lower-case) form of a header name.
pub open spec fn header_name_canon(s: Seq<char>) -> Seq<char> {
    s.map_values(|c: char| header_char_canon(c))
}

/// A character accepted in a header value: visible ASCII, space or horizontal
/// tab; every character above ASCII is accepted too, since each byte of its
/// encoding lies in the accepted byte range.
pub open spec fn header_value_char_ok(c: char) -> bool {
    (32 <= c as u32 && c as u32 != 127) || c as u32 == 9
}

/// A valid header value.
pub open spec fn header_value_ok(s: Seq<char>) -> bool {
    forall|i: int| 0 <= i < s.len() ==> header_value_char_ok(#[trigger] s[i])
}

// ---------------------------------------------------------------------------
// Named results of outside functions whose exact value this crate does not
// state.
// ---------------------------------------------------------------------------

/// The strings that hyper's URL parser accepts. Which URLs parse is decided
/// by the grammar in the http crate's `uri` module and is not restated here.
pub uninterp spec fn uri_accepted(s: Seq<char>) -> bool;

/// What `str::to_lowercase` returns; the result depends on the input
/// characters alone.
pub uninterp spec fn lower_of(s: Seq<char>) -> Seq<char>;

// ---------------------------------------------------------------------------
// Wrappers around the outside calls.
// ---------------------------------------------------------------------------

/// Relies on hyper's `Uri::try_from(&str)`: parses an URL, or reports why it
/// cannot be parsed.
#[verifier::external_body]
pub(crate) fn parse_uri(url: &str) -> (r: Result<hyper::Uri, String>)
    ensures
        r.is_ok() == uri_accepted(url@),
{
    match hyper::Uri::try_from(url) {
        Ok(u) => Ok(u),
        Err(e) => Err(format!("{}", e)),
    }
}

/// Relies on hyper's `Uri::host`: the host of the URL, if it carries one.
#[verifier::external_body]
pub(crate) fn uri_host(uri: &hyper::Uri) -> Option<String> {
    uri.host().map(|h| h.to_string())
}

/// Relies on hyper's `Uri::port_u16`: the port of the URL, if it names one.
#[verifier::external_body]
pub(crate) fn uri_port(uri: &hyper::Uri) -> Option<u16> {
    uri.port_u16()
}

/// Relies on hyper's `Uri::authority`: the authority part of the URL, from
/// which the `Host` header is formed.
#[verifier::external_body]
pub(crate) fn uri_authority(uri: &hyper::Uri) -> Option<String> {
    uri.authority().map(|a| a.as_str().to_string())
}

/// Relies on hyper's `Method::from_bytes`: accepts exactly the nonempty
/// strings of token characters.
#[verifier::external_body]
pub(crate) fn method_is_valid(method: &str) -> (r: bool)
    ensures
        r == method_token(method@),
{
    hyper::Method::from_bytes(method.as_bytes()).is_ok()
}

/// Relies on `HeaderName::from_bytes` of the http crate: accepts exactly the
/// strings of 1 to 65535 token characters and returns the name with ASCII
/// upper case folded to lower case.
#[verifier::external_body]
pub(crate) fn canonical_header_name(name: &str) -> (r: Option<String>)
    ensures
        r.is_some() == header_name_ok(name@),
        r matches Some(n) ==> n@ == header_name_canon(name@),
{
    match hyper::http::HeaderName::from_bytes(name.as_bytes()) {
        Ok(h) => Some(h.as_str().to_string()),
        Err(_) => None,
    }
}

/// Relies on `HeaderValue::from_str` of the http crate: accepts exactly the
/// strings whose bytes are visible ASCII, space or horizontal tab.
#[verifier::external_body]
pub(crate) fn header_value_is_valid(value: &str) -> (r: bool)
    ensures
        r == header_value_ok(value@),
{
    hyper::http::HeaderValue::from_str(value).is_ok()
}

/// Relies on `str::to_lowercase`: the lower-case form of the input.
#[verifier::external_body]
pub(crate) fn lowercase(s: &str) -> (r: String)
    ensures
        r@ == lower_of(s@),
{
    s.to_lowercase()
}

/// Relies on `core::str::from_utf8`: decodes the bytes exactly when they are
/// valid UTF-8.
#[verifier::external_body]
pub(crate) fn utf8_decode(bytes: &[u8]) -> (r: Option<String>)
    ensures
        r.is_some() == valid_utf8(bytes@),
        r matches Some(t) ==> t@ == decode_utf8(bytes@),
{
    match core::str::from_utf8(bytes) {
        Ok(s) => Some(s.to_string()),
        Err(_) => None,
    }
}

/// Relies on hyper's `SendRequest::is_closed`: whether the connection behind
/// the handle has been closed. The answer reflects the state of the transport
/// and nothing is assumed of it.
#[verifier::external_body]
pub(crate) fn sender_is_closed<B>(sender: &hyper::client::conn::http1::SendRequest<B>) -> bool {
    sender.is_closed()
}

/// Relies on tokio's `JoinHandle::abort`: asks the background task to stop.
#[verifier::external_body]
pub(crate) fn abort_driver(driver: &tokio::task::JoinHandle<()>) {
    driver.abort();
}

} // verus!
