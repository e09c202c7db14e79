//! The operating system's socket-address forms of IPv4 and IPv6 addresses.
//!
//! Each form holds the fields of the kernel's `sockaddr_in` / `sockaddr_in6`.
//! Integer fields hold the little-endian reading of their bytes, so that a
//! field's byte image is the same on every host: the IPv4 address field packs
//! the first octet into its low byte, and its bytes are the octets in network
//! order.

use vstd::prelude::*;

use crate::ip_address::IpAddress;

verus! {

/// Address family tag of IPv4 socket addresses.
pub open spec fn inet_family() -> u16 {
    2
}

/// Address family tag of IPv6 socket addresses.
pub open spec fn inet6_family() -> u16 {
    10
}

/// Relies on libc::AF_INET: the IPv4 address family, 2.
#[verifier::external_body]
fn af_inet() -> (r: u16)
    ensures
        r == inet_family(),
{
    libc::AF_INET as u16
}

/// Relies on libc::AF_INET6: the IPv6 address family, 10 on Linux.
#[verifier::external_body]
fn af_inet6() -> (r: u16)
    ensures
        r == inet6_family(),
{
    libc::AF_INET6 as u16
}

/// Relies on std::mem::size_of of libc::sockaddr_in: two 16-bit fields, a 32-bit
/// address and eight bytes of padding.
#[verifier::external_body]
fn sockaddr_in_len() -> (r: u32)
    ensures
        r == 16,
{
    std::mem::size_of::<libc::sockaddr_in>() as u32
}

/// Relies on std::mem::size_of of libc::sockaddr_in6: two 16-bit fields, a 32-bit
/// flow label, a 16-byte address and a 32-bit scope id.
#[verifier::external_body]
fn sockaddr_in6_len() -> (r: u32)
    ensures
        r == 28,
{
    std::mem::size_of::<libc::sockaddr_in6>() as u32
}

/// The 32-bit value whose little-endian bytes are `b[0..4]`.
pub open spec fn le_u32(b: Seq<u8>) -> u32 {
    (b[0] + b[1] * 0x100 + b[2] * 0x1_0000 + b[3] * 0x100_0000) as u32
}

/// The 16-bit value whose little-endian bytes are `b[0..2]`.
pub open spec fn le_u16(b: Seq<u8>) -> u16 {
    (b[0] + b[1] * 0x100) as u16
}

/// The little-endian bytes of `x`.
pub open spec fn le_bytes(x: u32) -> [u8; 4] {
    [
        (x % 0x100) as u8,
        (x / 0x100 % 0x100) as u8,
        (x / 0x1_0000 % 0x100) as u8,
        (x / 0x100_0000) as u8,
    ]
}

/// The kernel's IPv4 socket address.
#[derive(Clone, Copy, Debug, PartialEq, Eq)]
pub struct SockaddrIn {
    pub sin_family: u16,
    pub sin_port: u16,
    pub s_addr: u32,
    pub sin_zero: [u8; 8],
}

/// The kernel's IPv6 socket address.
#[derive(Clone, Copy, Debug, PartialEq, Eq)]
pub struct SockaddrIn6 {
    pub sin6_family: u16,
    pub sin6_port: u16,
    pub sin6_flowinfo: u32,
    pub s6_addr: [u8; 16],
    pub sin6_scope_id: u32,
}

/// A received socket address as the kernel hands it over: the family tag and the
/// bytes that follow it.
pub struct Sockaddr {
    pub sa_family: u16,
    pub sa_data: Vec<u8>,
}

/// An IPv4 or IPv6 socket address.
#[derive(Clone, Copy, Debug, PartialEq, Eq)]
pub enum SockaddrInx {
    V4(SockaddrIn),
    V6(SockaddrIn6),
}

impl SockaddrInx {
    /// The family field agrees with the variant.
    pub open spec fn wf(self) -> bool {
        match self {
            SockaddrInx::V4(s) => s.sin_family == inet_family(),
            SockaddrInx::V6(s) => s.sin6_family == inet6_family(),
        }
    }

    /// A socket address that carries an IP address and nothing else: no port,
    /// flow label or scope, and zero padding.
    pub open spec fn is_bare(self) -> bool {
        &&& self.wf()
        &&& match self {
            SockaddrInx::V4(s) => s.sin_port == 0 && s.sin_zero@ == seq![0u8; 8],
            SockaddrInx::V6(s) => s.sin6_port == 0 && s.sin6_flowinfo == 0 && s.sin6_scope_id
                == 0,
        }
    }

    /// The bare socket address of `ip`.
    pub open spec fn spec_from_ip_addr(ip: IpAddress) -> SockaddrInx {
        match ip {
            IpAddress::V4(o) => SockaddrInx::V4(
                SockaddrIn {
                    sin_family: inet_family(),
                    sin_port: 0,
                    s_addr: le_u32(o@),
                    sin_zero: [0u8, 0u8, 0u8, 0u8, 0u8, 0u8, 0u8, 0u8],
                },
            ),
            IpAddress::V6(o) => SockaddrInx::V6(
                SockaddrIn6 {
                    sin6_family: inet6_family(),
                    sin6_port: 0,
                    sin6_flowinfo: 0,
                    s6_addr: o,
                    sin6_scope_id: 0,
                },
            ),
        }
    }

    /// The IP address that a socket address carries.
    pub open spec fn spec_to_ip_addr(self) -> IpAddress {
        match self {
            SockaddrInx::V4(s) => IpAddress::V4(le_bytes(s.s_addr)),
            SockaddrInx::V6(s) => IpAddress::V6(s.s6_addr),
        }
    }

    /// The socket address encoded by a received family tag and the bytes after it,
    /// if the family is IPv4 or IPv6 and the bytes hold the whole form.
    pub open spec fn spec_from_sockaddr(family: u16, d: Seq<u8>) -> Option<SockaddrInx> {
        if family == inet_family() && d.len() >= 14 {
            Some(
                SockaddrInx::V4(
                    SockaddrIn {
                        sin_family: family,
                        sin_port: le_u16(d),
                        s_addr: le_u32(d.subrange(2, 6)),
                        sin_zero: [d[6], d[7], d[8], d[9], d[10], d[11], d[12], d[13]],
                    },
                ),
            )
        } else if family == inet6_family() && d.len() >= 26 {
            Some(
                SockaddrInx::V6(
                    SockaddrIn6 {
                        sin6_family: family,
                        sin6_port: le_u16(d),
                        sin6_flowinfo: le_u32(d.subrange(2, 6)),
                        s6_addr: [
                            d[6],
                            d[7],
                            d[8],
                            d[9],
                            d[10],
                            d[11],
                            d[12],
                            d[13],
                            d[14],
                            d[15],
                            d[16],
                            d[17],
                            d[18],
                            d[19],
                            d[20],
                            d[21],
                        ],
                        sin6_scope_id: le_u32(d.subrange(22, 26)),
                    },
                ),
            )
        } else {
            None
        }
    }
}

/// The value whose little-endian bytes are `d[at..at + 4]`.
fn read_le_u32(d: &Vec<u8>, at: usize) -> (r: u32)
    requires
        at + 4 <= d.len(),
    ensures
        r == le_u32(d@.subrange(at as int, at + 4)),
{
    (d[at] as u32) + (d[at + 1] as u32) * 0x100 + (d[at + 2] as u32) * 0x1_0000 + (d[at + 3] as u32)
        * 0x100_0000
}

proof fn lemma_le_bytes_of_le_u32(o: [u8; 4])
    ensures
        le_bytes(le_u32(o@)) == o,
{
    let (a, b, c, d) = (o[0], o[1], o[2], o[3]);
    let x = le_u32(o@);
    assert(x == a + b * 0x100 + c * 0x1_0000 + d * 0x100_0000);
    assert(x % 0x100 == a && x / 0x100 % 0x100 == b && x / 0x1_0000 % 0x100 == c && x / 0x100_0000
        == d) by (bit_vector)
        requires
            x == a + b * 0x100 + c * 0x1_0000 + d * 0x100_0000,
    ;
    assert(le_bytes(x) =~= o);
}

proof fn lemma_le_u32_of_le_bytes(x: u32)
    ensures
        le_u32(le_bytes(x)@) == x,
{
    assert(x % 0x100 + x / 0x100 % 0x100 * 0x100 + x / 0x1_0000 % 0x100 * 0x1_0000 + x
        / 0x100_0000 * 0x100_0000 == x) by (bit_vector);
}

/// Reading back the IP address of the socket address built from an IP address
/// gives that address, bit for bit.
pub proof fn lemma_ip_addr_round_trip(ip: IpAddress)
    ensures
        SockaddrInx::spec_from_ip_addr(ip).spec_to_ip_addr() == ip,
{
    if let IpAddress::V4(o) = ip {
        lemma_le_bytes_of_le_u32(o);
    }
}

/// Building the socket address of the IP address that a bare socket address
/// carries gives that socket address back, field for field.
pub proof fn lemma_sockaddr_round_trip(native: SockaddrInx)
    requires
        native.is_bare(),
    ensures
        SockaddrInx::spec_from_ip_addr(native.spec_to_ip_addr()) == native,
{
    if let SockaddrInx::V4(s) = native {
        lemma_le_u32_of_le_bytes(s.s_addr);
        assert(s.sin_zero@[0] == 0 && s.sin_zero@[7] == 0);
        assert(s.sin_zero =~= [0u8, 0u8, 0u8, 0u8, 0u8, 0u8, 0u8, 0u8]);
    }
}

impl SockaddrInx {
    /// Classifies a received socket address: IPv4 or IPv6 by its family tag, with
    /// its fields read from the bytes after the tag; `None` for another family or
    /// too few bytes.
    pub fn from_sockaddr(sockaddr: &Sockaddr) -> (r: Option<Self>)
        ensures
            r == Self::spec_from_sockaddr(sockaddr.sa_family, sockaddr.sa_data@),
            r matches Some(n) ==> n.wf(),
    {
        let family = sockaddr.sa_family;
        let d = &sockaddr.sa_data;
        if family == af_inet() && d.len() >= 14 {
            let sin_port = (d[0] as u16) + (d[1] as u16) * 0x100;
            let s_addr = read_le_u32(d, 2);
            let sin_zero = [d[6], d[7], d[8], d[9], d[10], d[11], d[12], d[13]];
            Some(SockaddrInx::V4(SockaddrIn { sin_family: family, sin_port, s_addr, sin_zero }))
        } else if family == af_inet6() && d.len() >= 26 {
            let sin6_port = (d[0] as u16) + (d[1] as u16) * 0x100;
            let sin6_flowinfo = read_le_u32(d, 2);
            let s6_addr = [
                d[6],
                d[7],
                d[8],
                d[9],
                d[10],
                d[11],
                d[12],
                d[13],
                d[14],
                d[15],
                d[16],
                d[17],
                d[18],
                d[19],
                d[20],
                d[21],
            ];
            let sin6_scope_id = read_le_u32(d, 22);
            Some(
                SockaddrInx::V6(
                    SockaddrIn6 {
                        sin6_family: family,
                        sin6_port,
                        sin6_flowinfo,
                        s6_addr,
                        sin6_scope_id,
                    },
                ),
            )
        } else {
            None
        }
    }

    /// The bare socket address of `ip_addr`.
    pub fn from_ip_addr(ip_addr: IpAddress) -> (r: Self)
        ensures
            r == Self::spec_from_ip_addr(ip_addr),
            r.is_bare(),
    {
        match ip_addr {
            IpAddress::V4(octets) => {
                let (a, b, c, d) = (octets[0] as u32, octets[1] as u32, octets[2] as u32, octets[3] as u32);
                assert((d << 24) + (c << 16) + (b << 8) + a == a + b * 0x100 + c * 0x1_0000 + d
                    * 0x100_0000) by (bit_vector)
                    requires
                        a < 0x100 && b < 0x100 && c < 0x100 && d < 0x100,
                ;
                let s_addr = (d << 24) + (c << 16) + (b << 8) + a;
                let sin_zero: [u8; 8] = [0; 8];
                assert(s_addr == le_u32(octets@));
                assert(sin_zero == [0u8, 0u8, 0u8, 0u8, 0u8, 0u8, 0u8, 0u8]);
                assert(sin_zero@ == seq![0u8; 8]);
                SockaddrInx::V4(
                    SockaddrIn { sin_family: af_inet(), sin_port: 0, s_addr, sin_zero },
                )
            },
            IpAddress::V6(octets) => SockaddrInx::V6(
                SockaddrIn6 {
                    sin6_family: af_inet6(),
                    sin6_port: 0,
                    sin6_flowinfo: 0,
                    s6_addr: octets,
                    sin6_scope_id: 0,
                },
            ),
        }
    }

    /// The IP address that this socket address carries.
    pub fn to_ip_addr(&self) -> (r: IpAddress)
        ensures
            r == self.spec_to_ip_addr(),
    {
        match self {
            SockaddrInx::V4(sockaddr_in) => {
                let s = sockaddr_in.s_addr;
                assert((s & 0xFF) == s % 0x100 && ((s >> 8) & 0xFF) == s / 0x100 % 0x100 && ((s
                    >> 16) & 0xFF) == s / 0x1_0000 % 0x100 && (s >> 24) == s / 0x100_0000)
                    by (bit_vector);
                IpAddress::V4(
                    [(s & 0xFF) as u8, ((s >> 8) & 0xFF) as u8, ((s >> 16) & 0xFF) as u8, (s >> 24) as u8],
                )
            },
            SockaddrInx::V6(sockaddr_in6) => IpAddress::V6(sockaddr_in6.s6_addr),
        }
    }

    /// Size in bytes of the kernel's form of this socket address.
    pub fn socklen(&self) -> (r: u32)
        ensures
            r == (if self is V4 {
                16u32
            } else {
                28u32
            }),
    {
        match self {
            SockaddrInx::V4(_) => sockaddr_in_len(),
            SockaddrInx::V6(_) => sockaddr_in6_len(),
        }
    }
}

} // verus!
