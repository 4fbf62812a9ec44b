//! Destination keys: the canonical identity `host:port` that selects a
//! pooled connection, and the resolving step that derives one from the
//! caller's method and URL strings.

use vstd::prelude::*;
use vstd::string::StringExecFns;

use crate::ext;
use crate::HttpError;

verus! {

/// The port assumed when the URL names none.
pub const DEFAULT_PORT: u16 = 80;

/// The identity of a pooled connection. Two requests whose URLs agree on
/// host and port share a connection regardless of path; `key_string` renders
/// the identity in its `host:port` form.
pub struct DestKey {
    pub host: String,
    pub port: u16,
}

impl View for DestKey {
    type V = (Seq<char>, u16);

    open spec fn view(&self) -> (Seq<char>, u16) {
        (self.host@, self.port)
    }
}

impl PartialEq for DestKey {
    fn eq(&self, other: &Self) -> (r: bool) {
        self.host == other.host && self.port == other.port
    }
}

impl vstd::std_specs::cmp::PartialEqSpecImpl for DestKey {
    open spec fn obeys_eq_spec() -> bool {
        true
    }

    open spec fn eq_spec(&self, other: &Self) -> bool {
        self@ == other@
    }
}

/// The decimal digit characters, lowest first.
pub open spec fn digit_char(d: int) -> char {
    if d == 0 {
        '0'
    } else if d == 1 {
        '1'
    } else if d == 2 {
        '2'
    } else if d == 3 {
        '3'
    } else if d == 4 {
        '4'
    } else if d == 5 {
        '5'
    } else if d == 6 {
        '6'
    } else if d == 7 {
        '7'
    } else if d == 8 {
        '8'
    } else {
        '9'
    }
}

/// The decimal rendering of a nonnegative number, without leading zeros
/// (except for the number zero itself).
pub open spec fn dec_digits(n: int) -> Seq<char>
    recommends
        n >= 0,
    decreases n,
{
    if n < 10 {
        seq![digit_char(n)]
    } else {
        dec_digits(n / 10) + seq![digit_char(n % 10)]
    }
}

/// The `host:port` rendering of a destination key.
pub open spec fn key_seq(host: Seq<char>, port: u16) -> Seq<char> {
    host + seq![':'] + dec_digits(port as int)
}

/// The one-character string for a decimal digit.
fn digit_str(d: u16) -> (r: &'static str)
    requires
        d < 10,
    ensures
        r@ == seq![digit_char(d as int)],
{
    proof {
        reveal_strlit("0");
        reveal_strlit("1");
        reveal_strlit("2");
        reveal_strlit("3");
        reveal_strlit("4");
        reveal_strlit("5");
        reveal_strlit("6");
        reveal_strlit("7");
        reveal_strlit("8");
        reveal_strlit("9");
    }
    let r: &'static str = if d == 0 {
        "0"
    } else if d == 1 {
        "1"
    } else if d == 2 {
        "2"
    } else if d == 3 {
        "3"
    } else if d == 4 {
        "4"
    } else if d == 5 {
        "5"
    } else if d == 6 {
        "6"
    } else if d == 7 {
        "7"
    } else if d == 8 {
        "8"
    } else {
        "9"
    };
    proof {
        assert(r@ =~= seq![digit_char(d as int)]);
    }
    r
}

/// Appends the decimal rendering of `n` to `out`.
fn push_decimal(out: &mut String, n: u16)
    ensures
        final(out)@ == old(out)@ + dec_digits(n as int),
    decreases n,
{
    if n >= 10 {
        push_decimal(out, n / 10);
    }
    let d = digit_str(n % 10);
    out.append(d);
    proof {
        assert(out@ =~= old(out)@ + dec_digits(n as int));
    }
}

impl DestKey {
    /// The key in its `host:port` form.
    pub fn key_string(&self) -> (r: String)
        ensures
            r@ == key_seq(self.host@, self.port),
    {
        let mut out = self.host.clone();
        out.append(":");
        proof {
            reveal_strlit(":");
        }
        push_decimal(&mut out, self.port);
        proof {
            assert(out@ =~= key_seq(self.host@, self.port));
        }
        out
    }

    /// A copy of the key.
    pub fn dup(&self) -> (r: DestKey)
        ensures
            r@ == self@,
    {
        DestKey { host: self.host.clone(), port: self.port }
    }
}

/// Where a request is directed: its pooling key and the authority placed
/// into the `Host` header.
pub struct Target {
    pub key: DestKey,
    pub authority: String,
}

/// Builds the target from what the URL carries. A URL without a host (or,
/// equivalently, without an authority) cannot be pooled or routed: the
/// request fails here, before any connection is attempted. The port defaults
/// to `DEFAULT_PORT` when the URL names none.
pub fn make_target(host: Option<String>, port: Option<u16>, authority: Option<String>) -> (r:
    Result<Target, HttpError>)
    ensures
        (host is None || authority is None) <==> r is Err,
        r matches Err(e) ==> e is MissingHost,
        r matches Ok(t) ==> {
            &&& host matches Some(h) && t.key.host@ == h@
            &&& authority matches Some(a) && t.authority@ == a@
            &&& t.key.port == (if port is Some {
                port.unwrap()
            } else {
                DEFAULT_PORT
            })
        },
{
    match (host, authority) {
        (Some(h), Some(a)) => {
            let p = match port {
                Some(p) => p,
                None => DEFAULT_PORT,
            };
            Ok(Target { key: DestKey { host: h, port: p }, authority: a })
        },
        _ => Err(HttpError::MissingHost),
    }
}

/// The resolving step of a request: validates the method string, parses the
/// URL and derives the target. Every failure here is an input error raised
/// before any connection is attempted; the URL is parsed first, as the
/// pipeline's order of checks has it.
pub fn resolve(method: &str, url: &str) -> (r: Result<Target, HttpError>)
    ensures
        !ext::uri_accepted(url@) ==> (r matches Err(e) && e is InvalidUrl),
        ext::uri_accepted(url@) && !ext::method_token(method@) ==> (r matches Err(e) && e
            is InvalidMethod),
        ext::uri_accepted(url@) && ext::method_token(method@) ==> r is Ok || (r matches Err(e)
            && e is MissingHost),
        r is Ok ==> ext::uri_accepted(url@) && ext::method_token(method@),
{
    let uri = match ext::parse_uri(url) {
        Ok(u) => u,
        Err(m) => {
            return Err(HttpError::InvalidUrl(m));
        },
    };
    if !ext::method_is_valid(method) {
        return Err(HttpError::InvalidMethod);
    }
    let host = ext::uri_host(&uri);
    let port = ext::uri_port(&uri);
    let authority = ext::uri_authority(&uri);
    make_target(host, port, authority)
}

} // verus!
