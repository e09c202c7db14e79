//! Decoding of ICMP replies read from a raw socket.

use vstd::prelude::*;

use crate::ip_address::IpAddress;
use crate::packet::Packet;
use crate::sockaddr_inx::SockaddrInx;

verus! {

/// Length of an IPv4 header without options.
pub const IP_HEADER_LEN: usize = 20;

/// Length of an ICMP header.
pub const ICMP_HEADER_LEN: usize = 8;

/// Shortest datagram that holds the outer IP and ICMP headers and the quoted IP
/// and ICMP headers of the probe.
pub const MIN_REPLY_LEN: usize = 2 * (IP_HEADER_LEN + ICMP_HEADER_LEN);

/// A reply read from the raw socket.
#[derive(Clone, Copy, Debug, PartialEq, Eq)]
pub struct Response {
    pub source: IpAddress,
    pub type_: u8,
    pub code: u8,
    pub ident: u16,
    pub sequence: u16,
}

/// The big-endian 16-bit value at `b[at..at + 2]`.
pub open spec fn be_u16_at(b: Seq<u8>, at: int) -> u16 {
    (b[at] * 0x100 + b[at + 1]) as u16
}

/// What a datagram from `source` decodes to: nothing below the minimum length;
/// else the outer type and code, and the identifier and sequence of the quoted
/// probe header.
pub open spec fn spec_parse(source: SockaddrInx, body: Seq<u8>) -> Option<Response> {
    if body.len() < MIN_REPLY_LEN {
        None
    } else {
        Some(
            Response {
                source: source.spec_to_ip_addr(),
                type_: body[20],
                code: body[21],
                ident: be_u16_at(body, 52),
                sequence: be_u16_at(body, 54),
            },
        )
    }
}

/// The big-endian 16-bit value of the bytes `hi`, `lo`.
fn be_u16(hi: u8, lo: u8) -> (r: u16)
    ensures
        r == hi * 0x100 + lo,
{
    let (h, l) = (hi as u16, lo as u16);
    assert((h << 8) + l == h * 0x100 + l && h * 0x100 + l < 0x1_0000) by (bit_vector)
        requires
            h < 0x100 && l < 0x100,
    ;
    (h << 8) + l
}

impl Response {
    /// Decodes a datagram received from `source`.
    pub fn parse(source: &SockaddrInx, body: &[u8]) -> (r: Option<Self>)
        ensures
            r == spec_parse(*source, body@),
            r is None <==> body@.len() < MIN_REPLY_LEN,
    {
        if body.len() < MIN_REPLY_LEN {
            return None;
        }
        Some(
            Self {
                source: source.to_ip_addr(),
                type_: body[20],
                code: body[21],
                ident: be_u16(body[52], body[53]),
                sequence: be_u16(body[54], body[55]),
            },
        )
    }

    /// Whether this reply answers `request`.
    pub fn matches_request(&self, request: &Packet) -> (r: bool)
        ensures
            r == (self.ident == request.ident && self.sequence == request.sequence),
    {
        self.ident == request.ident && self.sequence == request.sequence
    }
}

} // verus!
