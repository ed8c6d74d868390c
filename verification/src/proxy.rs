//! Proxy-protocol unwrapping: the decision side.
//!
//! A connection arriving from an allow-listed proxy may start with a
//! proxy-protocol header naming the real client address.  The embedding
//! program peeks bytes off the socket and feeds them here; this module
//! decides, from the bytes alone, whether to read more, give up on an
//! oversized header, or proceed with the address found (falling back to
//! the transport peer address when the header carries none).

use vstd::prelude::*;
use crate::net::IpAddress;
use ppp::HeaderResult;
use ppp::PartialResult;
use ppp::v1;
use ppp::v2;

verus! {

/// The longest header the server is willing to buffer.
pub const MAX_PROXY_HEADER_LENGTH: usize = 16384;

/// What a buffer prefix parses to as a proxy-protocol header.
#[derive(Debug, Clone, Copy, PartialEq, Eq, Structural)]
pub enum ProxyHeaderParse {
    /// More bytes are needed before the header is complete.
    Incomplete,
    /// A complete header without a usable source address, a malformed
    /// header included: the connection falls back to its peer address.
    NoAddress,
    /// A complete header naming the real source address.
    Source(IpAddress),
}

/// What a buffer of the given content parses to; the proxy-protocol
/// grammar makes this a function of the bytes alone.
pub uninterp spec fn parsed_proxy_header(bytes: Seq<u8>) -> ProxyHeaderParse;

/// Relies on `ppp::HeaderResult::parse`: a version 1 or version 2
/// proxy-protocol header is parsed from the buffer prefix; the source
/// address, when the complete header carries one, is returned bit for
/// bit, and a complete but malformed or address-less header yields no
/// address.
#[verifier::external_body]
fn parse_proxy_header(buffer: &Vec<u8>) -> (r: ProxyHeaderParse)
    ensures
        r == parsed_proxy_header(buffer@),
{
    match HeaderResult::parse(buffer.as_slice()) {
        HeaderResult::V1(Ok(h)) => match h.addresses {
            v1::Addresses::Tcp4(a) => ProxyHeaderParse::Source(IpAddress::V4(a.source_address.into())),
            v1::Addresses::Tcp6(a) => ProxyHeaderParse::Source(IpAddress::V6(a.source_address.into())),
            _ => ProxyHeaderParse::NoAddress,
        },
        HeaderResult::V2(Ok(h)) => match h.addresses {
            v2::Addresses::IPv4(a) => ProxyHeaderParse::Source(IpAddress::V4(a.source_address.into())),
            v2::Addresses::IPv6(a) => ProxyHeaderParse::Source(IpAddress::V6(a.source_address.into())),
            _ => ProxyHeaderParse::NoAddress,
        },
        r => if r.is_complete() { ProxyHeaderParse::NoAddress } else { ProxyHeaderParse::Incomplete },
    }
}

/// What the header-reading loop should do next.
#[derive(Debug, Clone, Copy, PartialEq, Eq, Structural)]
pub enum ProxyReadStep {
    /// Peek more bytes and ask again.
    NeedMoreData,
    /// The header exceeds the buffering ceiling: fail the connection.
    HeaderTooLarge,
    /// The header is complete: use this address, or the peer address
    /// when none was named.
    Done(Option<IpAddress>),
}

/// One step of the header-reading loop: decide from the bytes peeked so
/// far.  An incomplete header asks for more data until the buffering
/// ceiling is passed; a complete one ends the loop with its verdict.
pub fn proxy_read_step(buffer: &Vec<u8>) -> (r: ProxyReadStep)
    ensures
        r == match parsed_proxy_header(buffer@) {
            ProxyHeaderParse::Incomplete => if buffer@.len() > MAX_PROXY_HEADER_LENGTH {
                ProxyReadStep::HeaderTooLarge
            } else {
                ProxyReadStep::NeedMoreData
            },
            ProxyHeaderParse::NoAddress => ProxyReadStep::Done(None),
            ProxyHeaderParse::Source(ip) => ProxyReadStep::Done(Some(ip)),
        },
{
    match parse_proxy_header(buffer) {
        ProxyHeaderParse::Incomplete => {
            if buffer.len() > MAX_PROXY_HEADER_LENGTH {
                ProxyReadStep::HeaderTooLarge
            } else {
                ProxyReadStep::NeedMoreData
            }
        },
        ProxyHeaderParse::NoAddress => ProxyReadStep::Done(None),
        ProxyHeaderParse::Source(ip) => ProxyReadStep::Done(Some(ip)),
    }
}

} // verus!
