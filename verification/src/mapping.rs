//! The closed HTTP-method and protocol mappings shared by both parsers.

use crate::event::{HttpMethod, HttpMethodV, WebProtocol, WebProtocolV};
use crate::text::eq_str;
use vstd::prelude::*;

verus! {

/// The upper-cased form of `s`: what `str::to_uppercase` computes from the
/// characters alone.
pub uninterp spec fn upper_of(s: Seq<char>) -> Seq<char>;

/// Relies on `str::to_uppercase`: the result depends on the characters of
/// `s` alone.
#[verifier::external_body]
fn to_upper(s: &str) -> (r: String)
    ensures
        r@ == upper_of(s@),
{
    s.to_uppercase()
}

/// The method an HTTP-method token maps to: one of the closed set when it
/// matches case-sensitively, otherwise unrecognized, carrying the upper-cased
/// token.
pub open spec fn http_method_spec(m: Seq<char>) -> HttpMethodV {
    if m == "GET"@ {
        HttpMethodV::GET
    } else if m == "POST"@ {
        HttpMethodV::POST
    } else if m == "PUT"@ {
        HttpMethodV::PUT
    } else if m == "PATCH"@ {
        HttpMethodV::PATCH
    } else if m == "OPTIONS"@ {
        HttpMethodV::OPTIONS
    } else if m == "CONNECT"@ {
        HttpMethodV::CONNECT
    } else {
        HttpMethodV::UNKNOWN(upper_of(m))
    }
}

/// Maps a raw HTTP-method token onto the closed method set.
pub fn http_method(method: &str) -> (r: HttpMethod)
    ensures
        r@ == http_method_spec(method@),
{
    if eq_str(method, "GET") {
        HttpMethod::GET
    } else if eq_str(method, "POST") {
        HttpMethod::POST
    } else if eq_str(method, "PUT") {
        HttpMethod::PUT
    } else if eq_str(method, "PATCH") {
        HttpMethod::PATCH
    } else if eq_str(method, "OPTIONS") {
        HttpMethod::OPTIONS
    } else if eq_str(method, "CONNECT") {
        HttpMethod::CONNECT
    } else {
        HttpMethod::UNKNOWN(to_upper(method))
    }
}

/// The protocol a scheme token maps to: one of the closed set, otherwise
/// unrecognized, carrying the token verbatim.
pub open spec fn protocol_spec(t: Seq<char>) -> WebProtocolV {
    if t == "http"@ {
        WebProtocolV::HTTP
    } else if t == "https"@ {
        WebProtocolV::HTTPS
    } else if t == "ftp"@ {
        WebProtocolV::FTP
    } else if t == "ws"@ {
        WebProtocolV::WS
    } else if t == "wss"@ {
        WebProtocolV::WSS
    } else {
        WebProtocolV::UNKNOWN(t)
    }
}

/// Maps a raw scheme token onto the closed protocol set.
pub fn parse_protocol(text: &str) -> (r: WebProtocol)
    ensures
        r@ == protocol_spec(text@),
{
    if eq_str(text, "http") {
        WebProtocol::HTTP
    } else if eq_str(text, "https") {
        WebProtocol::HTTPS
    } else if eq_str(text, "ftp") {
        WebProtocol::FTP
    } else if eq_str(text, "ws") {
        WebProtocol::WS
    } else if eq_str(text, "wss") {
        WebProtocol::WSS
    } else {
        WebProtocol::UNKNOWN(text.to_owned())
    }
}

} // verus!
