//! Address parsing: a WebSocket URL yields a scheme, a host, a path and a
//! port. Resolving the host to a socket address is transport work and is
//! left to the embedding application.

use url::Url;
use vstd::prelude::*;

use crate::bytes::str_eq;
use crate::error::WebSocketError;

verus! {

/// Whether the connection runs over plain TCP or over TLS.
#[derive(Debug, Clone, Copy, PartialEq, Eq, Structural)]
pub enum Scheme {
    /// `ws`: plain TCP
    Plain,
    /// `wss`: TLS over TCP
    Secure,
}

/// A parsed WebSocket URL. Immutable once built.
#[derive(Debug, Clone)]
pub struct ParsedAddr {
    /// Plain or secure transport
    pub scheme: Scheme,
    /// The host name, as it appears in the URL
    pub host: String,
    /// The request path
    pub path: String,
    /// The port, explicit or the scheme's default
    pub port: u16,
}

/// The parts URL parsing yields for a URL string, or nothing when the
/// string is not a URL: the scheme in lower case, the host if the URL has
/// one, the path, the explicit port if one is written, and the port with
/// the scheme's known default filled in.
pub uninterp spec fn url_parts_of(url: Seq<char>) -> Option<
    (Seq<char>, Option<Seq<char>>, Seq<char>, Option<u16>, Option<u16>),
>;

/// Relies on `Url::parse` and its accessors `scheme`, `host_str`, `path`,
/// `port` and `port_or_known_default`: the parts of a URL, each a function
/// of the URL string alone. The scheme comes out lower-cased; an explicit
/// port wins over the defaults, which are 80 for `ws` and 443 for `wss`.
#[verifier::external_body]
fn url_parts(url: &str) -> (r: Option<(String, Option<String>, String, Option<u16>, Option<u16>)>)
    ensures
        r is Some <==> url_parts_of(url@) is Some,
        r matches Some(got) ==> (url_parts_of(url@) matches Some(p) && got.0@ == p.0 && (
        match got.1 {
            Some(host) => p.1 == Some(host@),
            None => p.1 is None,
        }) && got.2@ == p.2 && got.3 == p.3 && got.4 == p.4),
        r matches Some(got) ==> {
            &&& (got.3 matches Some(explicit) ==> got.4 == Some(explicit))
            &&& (got.3 is None && got.0@ == ("ws")@ ==> got.4 == Some(80u16))
            &&& (got.3 is None && got.0@ == ("wss")@ ==> got.4 == Some(443u16))
        },
{
    match Url::parse(url) {
        Ok(parsed) => Some((
            parsed.scheme().to_string(),
            parsed.host_str().map(|host| host.to_string()),
            parsed.path().to_string(),
            parsed.port(),
            parsed.port_or_known_default(),
        )),
        Err(_) => None,
    }
}

/// Classifies a URL scheme: `ws` is plain, `wss` is secure, and every
/// other scheme fails with `SchemeError`.
pub fn parse_scheme(scheme: &str) -> (r: Result<Scheme, WebSocketError>)
    ensures
        scheme@ == ("ws")@ <==> (r matches Ok(s) && s is Plain),
        scheme@ == ("wss")@ <==> (r matches Ok(s) && s is Secure),
        r matches Err(e) ==> e is SchemeError,
{
    proof {
        reveal_strlit("ws");
        reveal_strlit("wss");
        assert(("ws")@.len() != ("wss")@.len());
    }
    if str_eq(scheme, "ws") {
        Ok(Scheme::Plain)
    } else if str_eq(scheme, "wss") {
        Ok(Scheme::Secure)
    } else {
        Err(WebSocketError::SchemeError)
    }
}

/// Builds a [`ParsedAddr`] out of the parts a URL yields: the scheme must
/// be `ws` or `wss` (else `SchemeError`), and a port must be known (else
/// `PortError`).
pub fn assemble_address(scheme: &str, host: String, path: String, port: Option<u16>) -> (r: Result<
    ParsedAddr,
    WebSocketError,
>)
    ensures
        r is Ok <==> (scheme@ == ("ws")@ || scheme@ == ("wss")@) && port is Some,
        r matches Ok(p) ==> {
            &&& p.scheme == (if scheme@ == ("ws")@ {
                Scheme::Plain
            } else {
                Scheme::Secure
            })
            &&& p.host == host
            &&& p.path == path
            &&& Some(p.port) == port
        },
        r matches Err(e) ==> if scheme@ == ("ws")@ || scheme@ == ("wss")@ {
            e is PortError
        } else {
            e is SchemeError
        },
{
    let parsed_scheme = match parse_scheme(scheme) {
        Ok(s) => s,
        Err(e) => {
            return Err(e);
        },
    };
    let port = match port {
        Some(p) => p,
        None => {
            return Err(WebSocketError::PortError);
        },
    };
    Ok(ParsedAddr { scheme: parsed_scheme, host, path, port })
}

/// Parses a WebSocket URL into its scheme, host, path and port.
///
/// The outcome follows the URL's parts exactly: an unparsable URL fails
/// with `ParseError`, a URL without a host with `HostError`, a scheme
/// other than `ws` or `wss` with `SchemeError`, and a scheme without a
/// known port with `PortError`; otherwise the address carries the URL's
/// host and path and its explicit or default port.
pub fn parse_address(url: &str) -> (r: Result<ParsedAddr, WebSocketError>)
    ensures
        ({
            let parts = url_parts_of(url@);
            &&& (parts is None ==> (r matches Err(e) && e is ParseError))
            &&& (parts matches Some(p) ==> {
                &&& (p.1 is None ==> (r matches Err(e) && e is HostError))
                &&& (p.1 is Some && !(p.0 == ("ws")@ || p.0 == ("wss")@) ==> (r matches Err(e)
                    && e is SchemeError))
                &&& (p.1 is Some && (p.0 == ("ws")@ || p.0 == ("wss")@) && p.4 is None ==> (
                r matches Err(e) && e is PortError))
                &&& (r is Ok <==> p.1 is Some && (p.0 == ("ws")@ || p.0 == ("wss")@) && p.4
                    is Some)
            })
            &&& (r matches Ok(a) ==> (parts matches Some(p) && p.1 == Some(a.host@) && p.2
                == a.path@ && p.4 == Some(a.port) && a.scheme == (if p.0 == ("ws")@ {
                Scheme::Plain
            } else {
                Scheme::Secure
            })))
        }),
{
    let parts = match url_parts(url) {
        Some(parts) => parts,
        None => {
            return Err(WebSocketError::ParseError);
        },
    };
    let (scheme, host_option, path, _explicit_port, port) = parts;
    let host = match host_option {
        Some(host) => host,
        None => {
            return Err(WebSocketError::HostError);
        },
    };
    assemble_address(scheme.as_str(), host, path, port)
}

} // verus!
