//! The byte-exact wire responses the proxy writes to the client.
//!
//! Both responses are fixed byte strings. The rejection response is kept
//! exactly as the wire protocol states it — repeated Content-Length header
//! and its stated value of 26 included — rather than corrected, for
//! compatibility with peers of the original wire format.
use vstd::prelude::*;

verus! {

/// The characters of the rejection response, written to a client whose
/// request does not begin with `"CONNECT "`.
pub open spec fn rejection_text() -> Seq<char> {
    "HTTP/1.1 405 Method Not Supported\r\nContent-Type: text/plain;charset=utf-8\r\nContent-Length: 26\r\nContent-Length: 26\r\n\r\nOnly CONNECT Supported\r\n\r\n"@
}

/// The characters of the success response, written once the outbound
/// connection to the target is open; the tunnel follows it immediately.
pub open spec fn established_text() -> Seq<char> {
    "HTTP/1.1 200 Connection Established\r\nProxy-agent: connect_proxy/0.1.0\r\n\r\n"@
}

/// The exact rejection response: status line, headers and body, byte for
/// byte, with no correction of the stated Content-Length.
pub fn rejection_response() -> (r: &'static str)
    ensures
        r@ == rejection_text(),
{
    "HTTP/1.1 405 Method Not Supported\r\nContent-Type: text/plain;charset=utf-8\r\nContent-Length: 26\r\nContent-Length: 26\r\n\r\nOnly CONNECT Supported\r\n\r\n"
}

/// The exact success response, with no body: after these bytes the
/// connection is an opaque tunnel.
pub fn established_response() -> (r: &'static str)
    ensures
        r@ == established_text(),
{
    "HTTP/1.1 200 Connection Established\r\nProxy-agent: connect_proxy/0.1.0\r\n\r\n"
}

} // verus!
