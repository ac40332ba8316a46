use vstd::prelude::*;
use vstd::string::StringSliceAdditionalSpecFns;

verus! {

/// The status line written to the client when the request head is
/// malformed, oversized, or lacks a required Host header.
pub open spec fn response_400_bytes() -> Seq<u8> {
    "HTTP/1.1 400 Bad Request\r\n\r\n".spec_bytes()
}

/// The challenge written to the client when credentials are required
/// and were missing or invalid.
pub open spec fn response_407_bytes() -> Seq<u8> {
    "HTTP/1.1 407 Proxy Authentication Required\r\nProxy-Authenticate: Basic\r\n\r\n".spec_bytes()
}

/// The status line written to the client when no destination
/// connection could be opened.
pub open spec fn response_500_bytes() -> Seq<u8> {
    "HTTP/1.1 500 Internal\r\n\r\n".spec_bytes()
}

/// The acknowledgement written to the client once a tunnel
/// destination is connected, before any bytes are relayed.
pub open spec fn response_200_bytes() -> Seq<u8> {
    "HTTP/1.1 200 Connection established\r\n\r\n".spec_bytes()
}

pub fn response_400() -> (r: Vec<u8>)
    ensures
        r@ == response_400_bytes(),
{
    vstd::slice::slice_to_vec("HTTP/1.1 400 Bad Request\r\n\r\n".as_bytes())
}

pub fn response_407() -> (r: Vec<u8>)
    ensures
        r@ == response_407_bytes(),
{
    vstd::slice::slice_to_vec(
        "HTTP/1.1 407 Proxy Authentication Required\r\nProxy-Authenticate: Basic\r\n\r\n".as_bytes(),
    )
}

pub fn response_500() -> (r: Vec<u8>)
    ensures
        r@ == response_500_bytes(),
{
    vstd::slice::slice_to_vec("HTTP/1.1 500 Internal\r\n\r\n".as_bytes())
}

pub fn response_200() -> (r: Vec<u8>)
    ensures
        r@ == response_200_bytes(),
{
    vstd::slice::slice_to_vec("HTTP/1.1 200 Connection established\r\n\r\n".as_bytes())
}

} // verus!
